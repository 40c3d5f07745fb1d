use dig_node_service::paths::{
    below, components_of, join, join_for, join_windows, parent, same_path,
};
use dig_node_service::state::Os;

#[test]
fn a_leaf_is_joined_with_one_separator() {
    assert_eq!(join("/var/lib", "x"), "/var/lib/x");
    assert_eq!(join("/var/lib/", "x"), "/var/lib/x");
    assert_eq!(join("/", "x"), "/x");
    assert_eq!(join("", "x"), "x");
    assert_eq!(join_windows(r"C:\DIG", "x"), r"C:\DIG\x");
    assert_eq!(join_windows("C:/DIG/", "x"), "C:/DIG/x");
    assert_eq!(join_windows("C:", "x"), "C:x");
    assert_eq!(join_windows("", "x"), "x");
    assert_eq!(join_for(Os::MacOs, "/a", "x"), "/a/x");
    assert_eq!(join_for(Os::Windows, "D:", "x"), "D:x");
}

#[test]
fn components_are_told_on_unix() {
    let of = |p: &str| components_of(Os::Linux, p);
    assert_eq!(of("/home/alice"), vec!["/", "home", "alice"]);
    assert_eq!(of("/home//alice/./"), vec!["/", "home", "alice"]);
    assert_eq!(of("//"), vec!["/"]);
    assert_eq!(of("/."), vec!["/"]);
    assert_eq!(of("a/../b"), vec!["a", "..", "b"]);
    assert_eq!(of("./a"), vec![".", "a"]);
    assert_eq!(of("a/./b"), vec!["a", "b"]);
    assert_eq!(of(r"a\b"), vec![r"a\b"]);
    assert!(of("").is_empty());
}

#[test]
fn components_are_told_on_windows() {
    let of = |p: &str| components_of(Os::Windows, p);
    assert_eq!(of(r"c:\DIG/x"), vec!["C:", "/", "DIG", "x"]);
    assert_eq!(of("C:x"), vec!["C:", "x"]);
    assert_eq!(of(r"C:\.\x\"), vec!["C:", "/", "x"]);
    assert_eq!(of(r"\x"), vec!["/", "x"]);
    assert_eq!(of("//srv/share/x"), vec![r"\\srv\share", "/", "x"]);
    assert_eq!(of(r"\\srv\share"), vec![r"\\srv\share", "/"]);
    assert_eq!(of(r"\\?\c:\DIG\.\x/y"), vec![r"\\?\C:", "/", "DIG", ".", "x/y"]);
    assert_eq!(of(r"\\.\c:"), vec![r"\\.\c:", "/"]);
    assert_eq!(of(r"\\?\UNC\srv\share\x"), vec![r"\\?\UNC\srv\share", "/", "x"]);
}

#[test]
fn the_directory_that_holds_a_path_is_found() {
    let unix = |p: &str| parent(Os::Linux, p);
    assert_eq!(unix("/a/b").as_deref(), Some("/a"));
    assert_eq!(unix("/a//b/.").as_deref(), Some("/a"));
    assert_eq!(unix("/a").as_deref(), Some("/"));
    assert_eq!(unix("a").as_deref(), Some(""));
    assert_eq!(unix("/"), None);
    assert_eq!(unix(""), None);
    let windows = |p: &str| parent(Os::Windows, p);
    assert_eq!(windows(r"C:\D\c.json").as_deref(), Some(r"C:\D"));
    assert_eq!(windows(r"C:\c.json").as_deref(), Some(r"C:\"));
    assert_eq!(windows("C:c.json").as_deref(), Some("C:"));
    assert_eq!(windows(r"C:\"), None);
    assert_eq!(windows(r"\\srv\share\x").as_deref(), Some(r"\\srv\share\"));
    assert_eq!(windows(r"\\srv\share"), None);
}

#[test]
fn one_path_may_be_written_in_several_ways() {
    assert!(same_path(Os::Linux, "/var/lib/dig-node", "/var//lib/./dig-node/"));
    assert!(!same_path(Os::Linux, "/var/lib/dig-node", "/var/lib/Dig-node"));
    assert!(!same_path(Os::Linux, "a", "/a"));
    assert!(same_path(Os::Windows, r"C:\ProgramData\DigNode", "c:/ProgramData/DigNode/"));
    assert!(!same_path(Os::Windows, r"C:\x", "C:x"));
    assert!(!same_path(Os::Windows, r"\\srv\share\x", r"\srv\share\x"));
}

#[test]
fn below_is_a_question_of_components() {
    assert!(below(Os::Linux, "/home/alice", "/home//alice/.config"));
    assert!(below(Os::Linux, "/home/alice/", "/home/./alice/.config"));
    assert!(!below(Os::Linux, "/home/alice", "/home/alice/."));
    assert!(!below(Os::Linux, "/home/al", "/home/alice/.config"));
    assert!(!below(Os::Linux, "/home/alice", "/home"));
}
