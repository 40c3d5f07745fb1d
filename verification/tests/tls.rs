use dig_node_service::log::Level;
use dig_node_service::tls::{
    leaf_files, leaf_not_loaded, load_https_material, rotation_lines, RenewalPass,
    RENEWAL_INTERVAL_SECS,
};

#[test]
fn load_is_none_when_no_leaf_present() {
    let line = load_https_material("/var/lib/tls", true, false, false).unwrap_err();
    assert_eq!(line.level, Level::Info);
    assert!(line.to_text().contains("no TLS leaf yet"));
    assert!(load_https_material("/var/lib/tls", true, true, false).is_err());
    assert!(load_https_material("/var/lib/tls", true, false, true).is_err());
}

#[test]
fn load_is_some_when_leaf_present() {
    assert!(load_https_material("/var/lib/tls", true, true, true).is_ok());
}

#[test]
fn load_refuses_when_the_tls_root_is_not_privileged_owned() {
    let line = load_https_material("/tmp/tls", false, true, true).unwrap_err();
    assert_eq!(line.level, Level::Warn);
    assert!(
        line.to_text().contains("refusing HTTPS"),
        "a user-writable TLS root must refuse to load the CA/leaf"
    );
    assert!(line.to_text().contains("tls_root=/tmp/tls"));
}

#[test]
fn the_leaf_lies_below_the_root() {
    let files = leaf_files("/var/lib/tls");
    let paths = dig_cert::TlsPaths::under("/var/lib/tls");
    assert_eq!(files.cert, paths.leaf_cert().to_str().unwrap());
    assert_eq!(files.key, paths.leaf_key().to_str().unwrap());
    assert!(files.cert.ends_with("leaf.crt"));
    assert!(files.key.ends_with("leaf.key"));
}

#[test]
fn a_pass_that_changed_nothing_is_not_spoken_of() {
    let lines = rotation_lines(&RenewalPass::Done {
        leaf_renewed: false,
        attempts: 1,
        ca_renewal_due: false,
    });
    assert!(lines.is_empty());
}

#[test]
fn a_renewed_leaf_and_a_due_authority_are_both_told() {
    let lines = rotation_lines(&RenewalPass::Done {
        leaf_renewed: true,
        attempts: 2,
        ca_renewal_due: true,
    });
    assert_eq!(lines.len(), 2);
    assert_eq!(
        lines[0].to_text(),
        "INFO TLS leaf for https://dig.local renewed and hot-reloaded attempts=2"
    );
    assert_eq!(lines[1].level, Level::Warn);
    assert!(lines[1].message.contains("does NOT auto-rotate the anchor"));
}

#[test]
fn a_failed_pass_says_why() {
    let failed = rotation_lines(&RenewalPass::Failed("no key".to_string()));
    assert_eq!(failed.len(), 1);
    assert!(failed[0].to_text().ends_with("error=no key"));
    let aborted = rotation_lines(&RenewalPass::Aborted("panicked".to_string()));
    assert_eq!(
        aborted[0].to_text(),
        "WARN TLS leaf renewal task did not complete error=panicked"
    );
}

#[test]
fn a_broken_leaf_is_told_with_its_root() {
    let line = leaf_not_loaded("/var/lib/tls", "bad pem");
    assert_eq!(line.level, Level::Warn);
    assert!(line.to_text().ends_with("tls_root=/var/lib/tls error=bad pem"));
}

#[test]
fn the_leaf_is_looked_after_daily() {
    assert_eq!(RENEWAL_INTERVAL_SECS, 24 * 60 * 60);
}

#[test]
fn the_leaf_comes_last_below_any_root() {
    let files = leaf_files(r"\\?\C:\DIG\.\tls");
    assert!(files.cert.ends_with("leaf.crt"));
    assert!(files.key.ends_with("leaf.key"));
}
