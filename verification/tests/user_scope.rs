use dig_node_service::error::Error;
use dig_node_service::user_scope::{
    account_homes, discover, first_symlink_component, launchd_agent_path, remove, sweep,
    systemd_user_paths, AccountRoot, HomeFacts, RemovalStep, UserScopeRegistration,
    UserScopeSweep, ACCOUNT_ROOTS,
};

#[test]
fn systemd_user_paths_are_the_per_account_manager_layout() {
    let (unit, enablement) = systemd_user_paths("/home/alice", "dignetwork-dig-node.service");
    assert_eq!(
        unit,
        "/home/alice/.config/systemd/user/dignetwork-dig-node.service"
    );
    assert_eq!(
        enablement,
        vec![
            "/home/alice/.config/systemd/user/default.target.wants/dignetwork-dig-node.service"
                .to_string()
        ]
    );
}

#[test]
fn launchd_agent_path_is_the_per_user_agent_location() {
    assert_eq!(
        launchd_agent_path("/Users/bob", "net.dignetwork.dig-node"),
        "/Users/bob/Library/LaunchAgents/net.dignetwork.dig-node.plist"
    );
}

#[test]
fn account_roots_cover_linux_and_macos_homes() {
    assert!(ACCOUNT_ROOTS.contains(&"/home"));
    assert!(ACCOUNT_ROOTS.contains(&"/root"));
    assert!(ACCOUNT_ROOTS.contains(&"/Users"));
}

#[test]
fn a_symlinked_component_below_the_account_root_is_detected() {
    let home = "/home/alice";
    let path = "/home/alice/.config/systemd/user/dignetwork-dig-node.service";
    let hit = first_symlink_component(home, path, |c: &str| c == "/home/alice/.config");
    assert_eq!(hit.as_deref(), Some("/home/alice/.config"));
    assert_eq!(first_symlink_component(home, path, |_c: &str| false), None);
}

#[test]
fn the_account_root_itself_is_not_judged_a_symlink_violation() {
    let home = "/home/alice";
    let path = "/home/alice/Library/LaunchAgents/net.dignetwork.dig-node.plist";
    assert_eq!(
        first_symlink_component(home, path, |c: &str| c == home || c == "/home"),
        None,
        "only components strictly BELOW the account root are judged"
    );
}

#[test]
fn the_leaf_may_be_a_symlink_but_an_intermediate_directory_may_not() {
    let home = "/home/alice";
    let wants =
        "/home/alice/.config/systemd/user/default.target.wants/dignetwork-dig-node.service";
    assert_eq!(
        first_symlink_component(home, wants, |c: &str| c == wants),
        None,
        "the enablement entry IS a symlink by design and must remain removable"
    );
    let parent = "/home/alice/.config/systemd/user/default.target.wants";
    assert_eq!(
        first_symlink_component(home, wants, |c: &str| c == parent || c == wants).as_deref(),
        Some(parent),
        "a redirected directory component is still refused"
    );
}

fn registration() -> UserScopeRegistration {
    UserScopeRegistration {
        home: "/home/alice".to_string(),
        uid: Some(1000),
        registration: "/home/alice/.config/systemd/user/u.service".to_string(),
        enablement: vec![
            "/home/alice/.config/systemd/user/default.target.wants/u.service".to_string(),
        ],
    }
}

#[test]
fn remove_refuses_and_touches_nothing_when_a_component_is_a_symlink() {
    let steps = remove(&registration(), |_c: &str| false).expect("a symlink-free chain is removable");
    assert_eq!(
        steps,
        vec![
            RemovalStep::Stop,
            RemovalStep::Unlink(
                "/home/alice/.config/systemd/user/default.target.wants/u.service".to_string()
            ),
            RemovalStep::Unlink("/home/alice/.config/systemd/user/u.service".to_string()),
        ],
        "the running instance is stopped BEFORE the unit file disappears"
    );
    let err = remove(&registration(), |c: &str| c == "/home/alice/.config").unwrap_err();
    assert_eq!(
        err.to_text(),
        "refusing to remove \"/home/alice/.config/systemd/user/u.service\": the path component \"/home/alice/.config\" is a symlink, so removing it as root could delete a file outside /home/alice"
    );
}

fn home(path: &str, unit: bool, agent: bool) -> HomeFacts {
    HomeFacts {
        home: path.to_string(),
        unit_present: unit,
        unit_uid: Some(1000),
        wants_present: unit,
        agent_present: agent,
        agent_uid: Some(501),
    }
}

#[test]
fn sweep_reports_found_and_nothing_when_no_account_holds_a_registration() {
    let facts = vec![home("/home/alice", false, false)];
    let done = sweep(
        &facts,
        "definitely-not-a-real-unit.service",
        "not.a.real.label",
        |_r: &UserScopeRegistration| Ok(()),
    );
    assert!(!done.found_any(), "{done:?}");
    assert!(done.removed.is_empty() && done.failed.is_empty());
}

#[test]
fn a_sweep_reports_each_account_it_cleared_and_each_it_could_not() {
    let facts = vec![
        home("/home/alice", true, false),
        home("/home/bob", false, false),
        home("/Users/carol", false, true),
    ];
    let found = discover(&facts, "u.service", "net.l");
    assert_eq!(found.len(), 2);
    assert_eq!(found[1].registration, "/Users/carol/Library/LaunchAgents/net.l.plist");
    assert_eq!(found[1].uid, Some(501));
    let done = sweep(&facts, "u.service", "net.l", |r: &UserScopeRegistration| {
        if r.home == "/home/alice" {
            Ok(())
        } else {
            Err(Error::other("denied".to_string()))
        }
    });
    assert!(done.found_any());
    assert_eq!(done.removed, vec!["/home/alice".to_string()]);
    assert_eq!(
        done.failed,
        vec![("/Users/carol".to_string(), "denied".to_string())]
    );
}

#[test]
fn homes_are_the_directories_below_the_account_roots_and_root_itself() {
    let roots = vec![
        AccountRoot {
            path: "/home".to_string(),
            is_dir: true,
            entries: vec![
                ("/home/alice".to_string(), true),
                ("/home/readme".to_string(), false),
            ],
        },
        AccountRoot { path: "/root".to_string(), is_dir: true, entries: vec![] },
    ];
    assert_eq!(account_homes(&roots), vec!["/home/alice".to_string(), "/root".to_string()]);
}

#[test]
fn residual_note_states_what_is_not_covered() {
    let note = UserScopeSweep::residual_note();
    assert!(note.contains("XDG_CONFIG_HOME"));
    assert!(note.contains("/home"));
}

#[test]
fn a_link_is_found_however_the_path_is_written() {
    for path in [
        "/home//alice/.config/unit",
        "/home/./alice/.config/unit",
        "/home/alice//.config/./unit",
    ] {
        let hit = first_symlink_component("/home/alice", path, |c: &str| c.ends_with("/.config"));
        assert!(hit.is_some(), "{path}");
    }
    let mut doubled = registration();
    doubled.registration = "/home//alice/.config/systemd/user/dig.service".to_string();
    let refused = remove(&doubled, |c: &str| c == "/home//alice/.config").expect_err("a link");
    assert!(refused.to_text().contains("\"/home//alice/.config\" is a symlink"));
}

#[test]
fn nothing_but_the_directories_between_is_asked_about() {
    let asked = std::cell::RefCell::new(Vec::new());
    let hit = first_symlink_component("/home/alice/", "/home//alice/a/b/unit", |c: &str| {
        asked.borrow_mut().push(c.to_string());
        false
    });
    assert_eq!(hit, None);
    assert_eq!(*asked.borrow(), vec!["/home//alice/a/b", "/home//alice/a"]);
}
