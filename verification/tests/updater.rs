use dig_node_service::json::Json;
use dig_node_service::meta::ErrorCode;
use dig_node_service::state::Os;
use dig_node_service::updater::{
    answer_run, check_now, classify, cli_file_name, conventional_bin_dirs, pause,
    resolve_cli_binary, resume, set_channel, status, status_dir, status_path, CliError, CliRun,
    Reply, StatusFile, CLI_BIN_ENV, STATUS_DIR_ENV,
};

fn text(s: &str) -> Json {
    Json::Text(s.to_string())
}

fn object(entries: Vec<(&str, Json)>) -> Json {
    Json::Object(
        entries
            .into_iter()
            .map(|(k, v)| (k.to_string(), v))
            .collect(),
    )
}

fn run(success: bool, code: Option<i32>, parsed: Option<Json>, stdout: &str) -> CliRun {
    CliRun {
        success,
        exit_code: code,
        parsed,
        stdout: stdout.to_string(),
        stderr: String::new(),
    }
}

fn code_of(reply: &Reply) -> Option<ErrorCode> {
    match reply {
        Reply::Refused { code, .. } => Some(*code),
        _ => None,
    }
}

// ---- status ------------------------------------------------------------------------------------

#[test]
fn status_reports_not_installed_when_status_json_is_absent() {
    let reply = status(StatusFile::Absent);
    assert_eq!(
        reply,
        Reply::Status {
            installed: false,
            status: None
        }
    );
    assert!(code_of(&reply).is_none());
}

#[test]
fn status_returns_the_file_verbatim_when_present() {
    let body = || {
        object(vec![
            ("schema", Json::Uint(1)),
            ("version", text("0.6.0")),
            ("channel", text("alpha")),
        ])
    };
    assert_eq!(
        status(StatusFile::Value(body())),
        Reply::Status {
            installed: true,
            status: Some(body())
        }
    );
}

#[test]
fn status_reports_a_control_error_on_corrupt_json_not_not_installed() {
    let reply = status(StatusFile::Broken("expected a key".to_string()));
    assert_eq!(code_of(&reply).map(|c| c.name()), Some("CONTROL_ERROR"));
}

#[test]
fn status_dir_defaults_to_the_documented_per_os_convention_when_unset() {
    assert_eq!(
        status_dir(Os::Linux, None, None),
        "/var/lib/dig-updater-status"
    );
    assert!(status_dir(Os::Windows, None, None).ends_with("DIG\\updater-status"));
}

#[test]
fn a_named_status_directory_wins() {
    assert_eq!(status_dir(Os::Linux, Some("/tmp/s"), None), "/tmp/s");
    assert_eq!(
        status_path(Os::Linux, Some("/tmp/s"), None),
        "/tmp/s/status.json"
    );
    assert_eq!(
        status_path(Os::Windows, None, Some("D:\\Data")),
        "D:\\Data\\DIG\\updater-status\\status.json"
    );
    assert_eq!(STATUS_DIR_ENV, "DIG_UPDATER_STATUS_DIR");
    assert_eq!(CLI_BIN_ENV, "DIG_UPDATER_BIN");
}

// ---- requests ----------------------------------------------------------------------------------

#[test]
fn set_channel_without_a_channel_param_is_invalid_params() {
    let reply = set_channel(&object(vec![])).unwrap_err();
    assert_eq!(code_of(&reply).map(|c| c.name()), Some("INVALID_PARAMS"));
}

#[test]
fn the_arguments_are_the_beacons_own() {
    let params = object(vec![("channel", text("alpha"))]);
    assert_eq!(
        set_channel(&params).unwrap(),
        vec!["channel", "set", "alpha", "--json"]
    );
    assert_eq!(pause(&object(vec![])), vec!["pause", "--json"]);
    assert_eq!(
        pause(&object(vec![("until", Json::Uint(1700))])),
        vec!["pause", "--until", "1700", "--json"]
    );
    assert_eq!(resume(), vec!["resume", "--json"]);
    assert_eq!(check_now(), vec!["check", "--now", "--json"]);
}

// ---- the program -------------------------------------------------------------------------------

#[test]
fn resolve_cli_binary_prefers_the_explicit_override() {
    let dummy = "/tmp/any-file";
    let found = resolve_cli_binary(Os::Linux, Some(dummy), Some("/opt/app"), None, |_: &str| true);
    assert_eq!(found.as_deref(), Some(dummy));
}

#[test]
fn resolve_cli_binary_ignores_an_override_pointing_at_a_missing_file() {
    let missing = "/definitely/does/not/exist/dig-updater";
    let found = resolve_cli_binary(Os::Linux, Some(missing), None, None, |p: &str| p != missing);
    assert_ne!(found.as_deref(), Some(missing));
    assert_eq!(found.as_deref(), Some("/usr/local/bin/dig-updater"));
}

#[test]
fn every_mutation_reports_not_installed_when_no_binary_resolves() {
    let nothing = resolve_cli_binary(Os::Linux, None, Some("/opt/app"), None, |_: &str| false);
    assert!(nothing.is_none());
    let calls = [
        (
            "setChannel",
            set_channel(&object(vec![("channel", text("alpha"))])).is_ok(),
        ),
        ("pause", !pause(&object(vec![])).is_empty()),
        ("resume", !resume().is_empty()),
        ("checkNow", !check_now().is_empty()),
    ];
    for (label, asked) in calls {
        assert!(asked, "{label} asks the beacon");
        let reply = answer_run(Err(CliError::NotInstalled));
        assert_eq!(
            code_of(&reply).map(|c| c.name()),
            Some("NOT_SUPPORTED"),
            "{label} should report NOT_SUPPORTED with no dig-updater binary resolvable"
        );
    }
}

#[test]
fn the_program_is_looked_for_in_order() {
    let asked = std::cell::RefCell::new(Vec::new());
    let found = resolve_cli_binary(
        Os::Windows,
        None,
        Some("C:\\App"),
        Some("D:\\Programs"),
        |p: &str| {
            asked.borrow_mut().push(p.to_string());
            false
        },
    );
    assert!(found.is_none());
    assert_eq!(
        *asked.borrow(),
        vec![
            "C:\\App\\dig-updater.exe".to_string(),
            "D:\\Programs\\DIG\\dig-updater.exe".to_string(),
        ]
    );
    assert_eq!(cli_file_name(Os::Linux), "dig-updater");
    assert_eq!(
        conventional_bin_dirs(Os::Linux, None),
        vec!["/usr/local/bin", "/opt/dig/bin"]
    );
}

// ---- what a run means --------------------------------------------------------------------------

#[test]
fn an_answer_is_a_success_that_printed_json() {
    let reply = answer_run(Ok(run(true, Some(0), Some(text("done")), "\"done\"")));
    assert_eq!(reply, Reply::Answer(text("done")));
}

#[test]
fn a_refusal_is_told_in_the_beacons_words() {
    let said = object(vec![("status", text("error")), ("detail", text("locked"))]);
    assert_eq!(
        classify(run(false, Some(2), Some(said), "")),
        Err(CliError::Declined("locked".to_string()))
    );
    let silent = object(vec![("status", text("error"))]);
    let reply = answer_run(Ok(run(false, Some(2), Some(silent), "")));
    assert_eq!(
        reply,
        Reply::Refused {
            code: ErrorCode::ControlError,
            message: "dig-updater declined the request: no detail given".to_string()
        }
    );
}

#[test]
fn an_end_that_says_nothing_is_shown_as_it_was() {
    let reply = answer_run(Ok(run(true, Some(0), None, " half a line \n")));
    assert_eq!(
        reply,
        Reply::Refused {
            code: ErrorCode::ControlError,
            message: "dig-updater returned unparsable output (exit Some(0)): stdout=\"half a line\" stderr=\"\"".to_string()
        }
    );
    let killed = answer_run(Ok(run(false, None, Some(text("x")), "x")));
    match killed {
        Reply::Refused { code, message } => {
            assert_eq!(code, ErrorCode::ControlError);
            assert!(message.contains("(exit None)"));
        }
        other => panic!("{other:?}"),
    }
}

#[test]
fn a_program_that_does_not_start_is_an_error() {
    let reply = answer_run(Err(CliError::Spawn("denied".to_string())));
    assert_eq!(
        reply,
        Reply::Refused {
            code: ErrorCode::ControlError,
            message: "failed to invoke dig-updater: denied".to_string()
        }
    );
}

#[test]
fn an_empty_status_directory_is_the_current_one() {
    assert_eq!(status_path(Os::Linux, Some(""), None), "status.json");
    assert_eq!(status_path(Os::Windows, Some(""), None), "status.json");
}
