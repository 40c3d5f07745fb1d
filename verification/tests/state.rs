use dig_node_service::error::{Error, ErrorKind};
use dig_node_service::state::acl::discover_existing_read_grant;
use dig_node_service::state::harden::{
    icacls_failure, readback_failure, unix_harden_verdict, HardenAction, HardenEvent, HardenStage,
};
use dig_node_service::state::{
    acl_verify_ps_command, choose_state_dir, ensure_service_state_dir, interactive_read_grant,
    is_dangerous_group_sid, is_forbidden_grant_sid, is_machine_state_dir, legacy_state_dir,
    machine_state_dirs, override_dir, parse_acl_verify, parse_first_user_read_sid,
    parse_whoami_csv_sid, reset_dacl_args, running_as_service, service_read_grant,
    setowner_system_args, state_dir, token_file_is_trusted, unix_token_owner_is_trusted,
    windows_lockdown_grant_args, windows_token_owner_is_trusted, Os, StateDirPlan, StateFacts,
    TokenFile, SID_ADMINISTRATORS, SID_ANONYMOUS, SID_AUTHENTICATED_USERS, SID_EVERYONE,
    SID_SYSTEM, SID_USERS,
};

// ---- choosing the directory --------------------------------------------------------------------

fn list(dirs: &[&str]) -> Vec<String> {
    dirs.iter().map(|d| d.to_string()).collect()
}

#[test]
fn override_wins_over_everything() {
    let chosen = choose_state_dir(
        Some("/custom/state".to_string()),
        &list(&["/var/lib/dig-node"]),
        |_p: &str| true,
        |_p: &str| true,
        true,
        "/home/u/.local/DigNode".to_string(),
    );
    assert_eq!(chosen, "/custom/state");
}

#[test]
fn existing_machine_dir_is_used_by_anyone_even_a_non_service() {
    let machine = "/var/lib/dig-node";
    let chosen = choose_state_dir(
        None,
        &list(&[machine]),
        |p: &str| p == machine,
        |_p: &str| false,
        false,
        "/home/u/.local/DigNode".to_string(),
    );
    assert_eq!(chosen, machine);
}

#[test]
fn service_creates_first_creatable_machine_candidate_when_none_exist() {
    let primary = "/var/lib/dig-node";
    let fallback = "/etc/dig-node";
    let chosen = choose_state_dir(
        None,
        &list(&[primary, fallback]),
        |_p: &str| false,
        |p: &str| p == fallback,
        true,
        "/home/u/.local/DigNode".to_string(),
    );
    assert_eq!(chosen, fallback, "picks the first creatable candidate");
}

#[test]
fn non_service_falls_back_to_legacy_when_no_machine_dir_exists() {
    let legacy = "/home/u/.local/DigNode";
    let chosen = choose_state_dir(
        None,
        &list(&["/var/lib/dig-node"]),
        |_p: &str| false,
        |_p: &str| true,
        false,
        legacy.to_string(),
    );
    assert_eq!(chosen, legacy);
}

#[test]
fn service_falls_back_to_legacy_when_machine_dir_uncreatable() {
    let legacy = "/home/u/.local/DigNode";
    let chosen = choose_state_dir(
        None,
        &list(&["/var/lib/dig-node", "/etc/dig-node"]),
        |_p: &str| false,
        |_p: &str| false,
        true,
        legacy.to_string(),
    );
    assert_eq!(chosen, legacy);
}

#[test]
fn machine_state_dirs_are_absolute_and_identity_independent() {
    for os in [Os::Windows, Os::MacOs, Os::Linux] {
        for d in machine_state_dirs(os, None) {
            assert!(
                d.starts_with('/') || d.starts_with(r"C:\"),
                "{d:?} must be absolute"
            );
            let s = d.to_lowercase();
            assert!(
                !s.contains("appdata") && !s.contains("/users/") && !s.contains("systemprofile"),
                "{d:?} must be identity-independent"
            );
        }
    }
}

#[test]
fn is_machine_state_dir_matches_only_the_real_candidates() {
    for os in [Os::Windows, Os::MacOs, Os::Linux] {
        for d in machine_state_dirs(os, None) {
            assert!(is_machine_state_dir(&d, os, None), "{d:?} is a machine candidate");
        }
        assert!(!is_machine_state_dir("/tmp/dig-node-not-machine", os, None));
        assert!(!is_machine_state_dir("/home/u/.local/DigNode", os, None));
    }
}

#[test]
fn running_as_service_reads_the_run_context_env() {
    assert!(running_as_service(Some("service")));
    assert!(running_as_service(Some("SERVICE")), "case-insensitive");
    assert!(!running_as_service(Some("cli")));
    assert!(!running_as_service(None), "unset");
}

#[test]
fn the_program_data_variable_moves_the_windows_directory() {
    assert_eq!(
        machine_state_dirs(Os::Windows, Some(r"D:\Data")),
        vec![r"D:\Data\DigNode".to_string()]
    );
    assert_eq!(
        machine_state_dirs(Os::Windows, Some("  ")),
        vec![r"C:\ProgramData\DigNode".to_string()]
    );
    assert_eq!(
        machine_state_dirs(Os::Linux, None),
        vec!["/var/lib/dig-node".to_string(), "/etc/dig-node".to_string()]
    );
}

#[test]
fn a_blank_override_names_nothing() {
    assert_eq!(override_dir(Some("   ")), None);
    assert_eq!(override_dir(None), None);
    assert_eq!(override_dir(Some(" /x ")).as_deref(), Some("/x"));
    assert_eq!(legacy_state_dir(Os::Linux, "/home/u/.config/dig/config.json"), "/home/u/.config/dig");
}

#[test]
fn service_and_command_agree_on_the_directory() {
    let facts = |context: Option<&str>| StateFacts {
        state_dir_env: None,
        run_context_env: context.map(str::to_string),
        os: Os::Linux,
        program_data: None,
        legacy: "/home/u/.local/DigNode".to_string(),
    };
    let there = |p: &str| p == "/var/lib/dig-node";
    let can = |_p: &str| false;
    assert_eq!(state_dir(&facts(Some("service")), there, can), "/var/lib/dig-node");
    assert_eq!(state_dir(&facts(None), there, can), "/var/lib/dig-node");
}

#[test]
fn a_service_secures_only_a_machine_wide_directory() {
    assert_eq!(
        ensure_service_state_dir("/var/lib/dig-node".to_string(), Os::Linux, None, None),
        StateDirPlan::Harden { dir: "/var/lib/dig-node".to_string(), read_grant: None }
    );
    assert_eq!(
        ensure_service_state_dir("/tmp/x".to_string(), Os::Linux, None, None),
        StateDirPlan::Create { dir: "/tmp/x".to_string() }
    );
}

#[test]
fn the_read_grant_goes_to_a_real_account_on_windows_only() {
    let me = "\"pc\\alice\",\"S-1-5-21-1-2-3-1001\"";
    let system = "\"nt authority\\system\",\"S-1-5-18\"";
    assert_eq!(
        interactive_read_grant(Os::Windows, Some(me)).as_deref(),
        Some("S-1-5-21-1-2-3-1001")
    );
    assert_eq!(interactive_read_grant(Os::Windows, Some(system)), None);
    assert_eq!(interactive_read_grant(Os::Linux, Some(me)), None);
    assert_eq!(
        service_read_grant(Os::Windows, Some(system), Some("S-1-5-21-9-9-9-1".to_string())).as_deref(),
        Some("S-1-5-21-9-9-9-1")
    );
}

// ---- access lists ------------------------------------------------------------------------------

fn ok_acl_with_read(user: &str) -> String {
    format!("OWNER;S-1-5-18\nACE;S-1-5-18;False\nACE;S-1-5-32-544;False\nACE;{user};False\n")
}
fn ok_acl_no_read() -> String {
    "OWNER;S-1-5-18\nACE;S-1-5-18;False\nACE;S-1-5-32-544;False\n".to_string()
}

#[test]
fn parse_whoami_csv_sid_reads_the_token_sid() {
    assert_eq!(
        parse_whoami_csv_sid("\"mypc\\alice\",\"S-1-5-21-111-222-333-1001\"\r\n").as_deref(),
        Some("S-1-5-21-111-222-333-1001")
    );
    assert_eq!(parse_whoami_csv_sid("no sid here").as_deref(), None);
    assert_eq!(parse_whoami_csv_sid("").as_deref(), None);
}

#[test]
fn forbidden_grant_sids_are_rejected() {
    assert!(is_forbidden_grant_sid(SID_EVERYONE));
    assert!(is_forbidden_grant_sid(SID_AUTHENTICATED_USERS));
    assert!(is_forbidden_grant_sid(SID_ANONYMOUS));
    assert!(is_forbidden_grant_sid(SID_USERS));
    assert!(is_forbidden_grant_sid(SID_SYSTEM));
    assert!(!is_forbidden_grant_sid("S-1-5-21-111-222-333-1001"));
}

#[test]
fn dangerous_group_sids_cover_the_broad_principals() {
    assert!(is_dangerous_group_sid(SID_EVERYONE));
    assert!(is_dangerous_group_sid(SID_AUTHENTICATED_USERS));
    assert!(is_dangerous_group_sid(SID_ANONYMOUS));
    assert!(is_dangerous_group_sid(SID_USERS));
    assert!(!is_dangerous_group_sid(SID_SYSTEM));
    assert!(!is_dangerous_group_sid(SID_ADMINISTRATORS));
    assert!(!is_dangerous_group_sid("S-1-5-21-1-2-3-1001"));
}

#[test]
fn setowner_forces_system_by_sid_recursively() {
    let args = setowner_system_args(r"C:\ProgramData\DigNode");
    assert!(args.iter().any(|a| a == "/setowner"));
    assert!(
        args.iter().any(|a| a == "*S-1-5-18"),
        "owner must be SYSTEM by SID"
    );
    assert!(args.iter().any(|a| a == "/T"), "recurse to children");
}

#[test]
fn reset_purges_explicit_aces() {
    let args = reset_dacl_args(r"C:\ProgramData\DigNode");
    assert!(args.iter().any(|a| a == "/reset"));
    assert!(args.iter().any(|a| a == "/T"));
}

#[test]
fn lockdown_grants_system_admins_and_the_read_sid() {
    let args =
        windows_lockdown_grant_args(r"C:\ProgramData\DigNode", Some("S-1-5-21-9-9-9-1001"));
    assert!(args.contains(&"/inheritance:r".to_string()));
    assert!(args.iter().any(|a| a == "*S-1-5-18:(OI)(CI)F"));
    assert!(args.iter().any(|a| a == "*S-1-5-32-544:(OI)(CI)F"));
    assert!(args.iter().any(|a| a == "*S-1-5-21-9-9-9-1001:(OI)(CI)R"));
    assert!(!args.iter().any(|a| a.starts_with("SYSTEM:")));
    assert!(!args
        .iter()
        .any(|a| a.contains("Everyone") || a.contains("Users:") || a.contains("S-1-1-0")));
}

#[test]
fn lockdown_without_a_read_grant_is_system_and_admins_only() {
    let args = windows_lockdown_grant_args(r"C:\ProgramData\DigNode", None);
    assert!(args.iter().any(|a| a == "*S-1-5-18:(OI)(CI)F"));
    assert!(args.iter().any(|a| a == "*S-1-5-32-544:(OI)(CI)F"));
    assert!(!args.iter().any(|a| a.ends_with(":(OI)(CI)R")));
    assert!(!args
        .iter()
        .any(|a| a.contains("S-1-1-0") || a.contains("S-1-5-32-545")));
}

#[test]
fn verify_accepts_a_correctly_locked_dacl_with_read_grant() {
    let user = "S-1-5-21-1-2-3-1001";
    assert!(parse_acl_verify(&ok_acl_with_read(user), Some(user)).is_ok());
}

#[test]
fn verify_accepts_system_and_admins_only_when_no_read_grant_required() {
    assert!(parse_acl_verify(&ok_acl_no_read(), None).is_ok());
}

#[test]
fn verify_rejects_a_world_readable_ace() {
    let bad =
        "OWNER;S-1-5-18\nACE;S-1-5-18;False\nACE;S-1-5-32-544;False\nACE;S-1-5-32-545;False\n";
    let e = parse_acl_verify(bad, None).unwrap_err();
    assert!(e.contains("world/group"), "got: {e}");
}

#[test]
fn verify_rejects_an_inherited_ace() {
    let bad = "OWNER;S-1-5-18\nACE;S-1-5-18;True\nACE;S-1-5-32-544;False\nACE;S-1-5-21-1-2-3-1001;False\n";
    let e = parse_acl_verify(bad, Some("S-1-5-21-1-2-3-1001")).unwrap_err();
    assert!(e.contains("inheritance is NOT disabled"), "got: {e}");
}

#[test]
fn verify_rejects_an_untrusted_owner() {
    let bad = "OWNER;S-1-5-21-1-2-3-1001\nACE;S-1-5-18;False\nACE;S-1-5-32-544;False\nACE;S-1-5-21-1-2-3-1001;False\n";
    let e = parse_acl_verify(bad, Some("S-1-5-21-1-2-3-1001")).unwrap_err();
    assert!(e.contains("owner is"), "got: {e}");
}

#[test]
fn verify_rejects_a_missing_system_ace() {
    let bad = "OWNER;S-1-5-18\nACE;S-1-5-32-544;False\n";
    let e = parse_acl_verify(bad, None).unwrap_err();
    assert!(e.contains("missing the required ACE"), "got: {e}");
}

#[test]
fn verify_rejects_a_missing_required_read_grant() {
    let e = parse_acl_verify(&ok_acl_no_read(), Some("S-1-5-21-1-2-3-1001")).unwrap_err();
    assert!(e.contains("missing the interactive read grant"), "got: {e}");
}

#[test]
fn verify_rejects_an_unexpected_surviving_principal() {
    let bad = "OWNER;S-1-5-18\nACE;S-1-5-18;False\nACE;S-1-5-32-544;False\nACE;S-1-5-21-7-7-7-1002;False\n";
    let e = parse_acl_verify(bad, None).unwrap_err();
    assert!(e.contains("unexpected principal"), "got: {e}");
}

#[test]
fn acl_verify_ps_command_targets_the_dir_and_emits_sids() {
    let cmd = acl_verify_ps_command(r"C:\ProgramData\DigNode");
    assert!(cmd.contains("Get-Acl"));
    assert!(cmd.contains(r"C:\ProgramData\DigNode"));
    assert!(cmd.contains("SecurityIdentifier"));
    assert!(cmd.contains("OWNER;"));
    assert!(cmd.contains("ACE;"));
}

#[test]
fn discover_finds_the_first_user_read_sid() {
    let acl = ok_acl_with_read("S-1-5-21-1-2-3-1001");
    assert_eq!(
        parse_first_user_read_sid(&acl).as_deref(),
        Some("S-1-5-21-1-2-3-1001")
    );
}

#[test]
fn discover_ignores_system_admins_and_groups() {
    let acl =
        "OWNER;S-1-5-18\nACE;S-1-5-18;False\nACE;S-1-5-32-544;False\nACE;S-1-5-32-545;False\n";
    assert_eq!(parse_first_user_read_sid(acl), None);
}

#[test]
fn windows_token_owner_trust_rules() {
    assert!(windows_token_owner_is_trusted(SID_SYSTEM, true, None));
    assert!(windows_token_owner_is_trusted(SID_SYSTEM, false, None));
    assert!(windows_token_owner_is_trusted(
        SID_ADMINISTRATORS,
        true,
        None
    ));
    let user = "S-1-5-21-1-2-3-1001";
    assert!(!windows_token_owner_is_trusted(user, true, Some(user)));
    assert!(windows_token_owner_is_trusted(user, false, Some(user)));
    assert!(!windows_token_owner_is_trusted(
        user,
        false,
        Some("S-1-5-21-9-9-9-2002")
    ));
    assert!(windows_token_owner_is_trusted(user, false, None));
}

#[test]
fn unix_token_owner_trust_rules() {
    let me = 1000u32;
    assert!(unix_token_owner_is_trusted(0, 0o644, me));
    assert!(unix_token_owner_is_trusted(0, 0o600, me));
    assert!(unix_token_owner_is_trusted(me, 0o600, me));
    assert!(!unix_token_owner_is_trusted(me, 0o644, me));
    assert!(!unix_token_owner_is_trusted(me, 0o660, me));
    assert!(!unix_token_owner_is_trusted(1001, 0o600, me));
}

#[test]
fn a_read_grant_is_kept_only_from_a_trusted_directory() {
    let acl = ok_acl_with_read("S-1-5-21-1-2-3-1001");
    let keep = |dir: bool, owner: Option<&str>| {
        discover_existing_read_grant(dir, owner, Some(acl.as_str()))
    };
    assert_eq!(keep(true, Some(SID_SYSTEM)).as_deref(), Some("S-1-5-21-1-2-3-1001"));
    assert_eq!(keep(true, Some("S-1-5-21-7-7-7-1002")), None);
    assert_eq!(keep(true, None), None);
    assert_eq!(keep(false, Some(SID_SYSTEM)), None);
}

// ---- securing the directory --------------------------------------------------------------------

#[test]
fn ensure_dir_restricted_is_0700_and_not_group_or_world_accessible() {
    assert!(unix_harden_verdict("/var/lib/dig-node", 0o40700).is_ok());
    assert!(unix_harden_verdict("/var/lib/dig-node", 0o40750).is_err());
    assert!(unix_harden_verdict("/var/lib/dig-node", 0o40701).is_err());
}

#[test]
fn harden_state_dir_sets_0700_on_unix() {
    assert!(unix_harden_verdict("/d", 0o700).is_ok());
    let e = unix_harden_verdict("/d", 0o755).unwrap_err();
    assert!(e.to_text().contains("755"), "{e:?}");
}

/// Walk the procedure with one answer for each stage.
fn walk(events: Vec<HardenEvent>, grant: Option<&str>) -> (HardenStage, Vec<HardenAction>) {
    let dir = r"C:\ProgramData\DigNode";
    let mut stage = HardenStage::Inspect;
    let mut asked = vec![];
    for e in events {
        asked.push(stage.action(dir, grant));
        stage = stage.next(e, dir, grant);
    }
    (stage, asked)
}

#[test]
fn a_fresh_directory_is_created_locked_and_read_back() {
    let user = "S-1-5-21-1-2-3-1001";
    let (stage, asked) = walk(
        vec![
            HardenEvent::Absent,
            HardenEvent::Succeeded,
            HardenEvent::Succeeded,
            HardenEvent::Succeeded,
            HardenEvent::Succeeded,
            HardenEvent::Printed(ok_acl_with_read(user)),
        ],
        Some(user),
    );
    assert_eq!(stage, HardenStage::Done);
    assert_eq!(asked[0], HardenAction::ReadOwner);
    assert_eq!(asked[1], HardenAction::CreateDir);
    assert_eq!(
        asked[2],
        HardenAction::Icacls(setowner_system_args(r"C:\ProgramData\DigNode"))
    );
    assert_eq!(
        asked[5],
        HardenAction::ReadAcl(acl_verify_ps_command(r"C:\ProgramData\DigNode"))
    );
}

#[test]
fn a_directory_that_does_not_read_back_is_removed_and_refused() {
    let (stage, asked) = walk(
        vec![
            HardenEvent::Owned(Some("S-1-5-21-7-7-7-1002".to_string())),
            HardenEvent::Succeeded,
            HardenEvent::Succeeded,
            HardenEvent::Succeeded,
            HardenEvent::Succeeded,
            HardenEvent::Succeeded,
            HardenEvent::Succeeded,
            HardenEvent::Printed("OWNER;S-1-5-18\nACE;S-1-1-0;False\n".to_string()),
            HardenEvent::Succeeded,
        ],
        None,
    );
    assert_eq!(asked[2], HardenAction::RemoveDir);
    assert_eq!(asked[8], HardenAction::RemoveDir);
    match stage {
        HardenStage::Refused(e) => assert!(e.to_text().contains("readback verification FAILED")),
        other => panic!("{other:?}"),
    }
}

#[test]
fn a_squatted_directory_that_cannot_be_purged_is_refused() {
    let (stage, _) = walk(
        vec![
            HardenEvent::Owned(None),
            HardenEvent::Failed(Error::other("denied".to_string())),
            HardenEvent::Failed(Error::other("busy".to_string())),
        ],
        None,
    );
    match stage {
        HardenStage::Refused(e) => {
            assert_eq!(e.kind(), ErrorKind::PermissionDenied);
            assert!(e.to_text().contains("could not be purged (busy)"));
        }
        other => panic!("{other:?}"),
    }
}

#[test]
fn the_tools_failures_are_told_in_their_words() {
    assert!(icacls_failure(Some(5), " no \n").to_text().ends_with(": no"));
    assert_eq!(
        readback_failure(" boom \n").to_text(),
        "Get-Acl readback exited non-zero: boom"
    );
}

// ---- the token file ----------------------------------------------------------------------------

#[test]
fn token_file_is_trusted_rejects_a_service_run_on_a_user_owned_file() {
    let user = "S-1-5-21-1-2-3-1001";
    let file = TokenFile::Windows {
        owner: Some(user.to_string()),
        current_user: Some(user.to_string()),
    };
    assert!(
        token_file_is_trusted(&file, false),
        "a non-service run trusts the current user's own token"
    );
    assert!(
        !token_file_is_trusted(&file, true),
        "a service run must NOT trust a user-owned token"
    );
}

#[test]
fn token_file_is_trusted_accepts_0600_rejects_group_readable() {
    let file = |mode: u32| TokenFile::Unix { file: Some((1000, mode)), euid: Some(1000) };
    assert!(token_file_is_trusted(&file(0o600), false), "own 0600 token is trusted");
    assert!(
        !token_file_is_trusted(&file(0o644), false),
        "a group/other-readable token is not trusted"
    );
    let unread = TokenFile::Unix { file: None, euid: Some(1000) };
    assert!(!token_file_is_trusted(&unread, false));
}

#[test]
fn a_machine_directory_is_known_however_it_is_written() {
    assert!(is_machine_state_dir("/var/lib/dig-node/", Os::Linux, None));
    assert!(is_machine_state_dir("/var//lib/./dig-node", Os::Linux, None));
    assert!(is_machine_state_dir("c:/ProgramData/DigNode", Os::Windows, None));
    let plan = ensure_service_state_dir("/var/lib/dig-node/".to_string(), Os::Linux, None, None);
    assert!(matches!(plan, StateDirPlan::Harden { .. }));
}

#[test]
fn the_accounts_directory_is_found_on_windows() {
    assert_eq!(legacy_state_dir(Os::Windows, r"C:\Users\u\DigNode\config.json"), r"C:\Users\u\DigNode");
    assert_eq!(legacy_state_dir(Os::Windows, r"C:\"), ".");
}

#[test]
fn no_directory_is_made_unless_a_service_needs_one() {
    let made = std::cell::Cell::new(0);
    let make = |_p: &str| {
        made.set(made.get() + 1);
        true
    };
    let candidates = vec!["/a".to_string(), "/b".to_string()];
    let legacy = || "/legacy".to_string();
    let named = Some("/named".to_string());
    assert_eq!(choose_state_dir(named, &candidates, |_p: &str| false, make, true, legacy()), "/named");
    assert_eq!(choose_state_dir(None, &candidates, |_p: &str| false, make, false, legacy()), "/legacy");
    assert_eq!(choose_state_dir(None, &candidates, |p: &str| p == "/b", make, true, legacy()), "/b");
    assert_eq!(made.get(), 0);
    assert_eq!(choose_state_dir(None, &candidates, |_p: &str| false, make, true, legacy()), "/a");
    assert_eq!(made.get(), 1);
}
