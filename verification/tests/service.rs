use dig_node_service::config::{contains_control_character, normalize_upstream, Config};
use dig_node_service::error::{Error, ErrorKind};
use dig_node_service::net::{Endpoint, Ip};
use dig_node_service::service::backend::{
    removal_failure_is_indeterminate, wait_for_removal, MemoryBackend, Registered, ReinstallReport,
};
use dig_node_service::service::install::{InstallAction, InstallEvent, InstallStage};
use dig_node_service::service::target::{
    plan_install, InstallFacts, INSTALL_ELEVATION_REFUSAL,
};
use dig_node_service::service::verbs::{
    harden_warning, health_request, install_outcome, InstallDone, UninstallFacts,
    UNINSTALL_ELEVATION_REFUSAL,
};
use dig_node_service::service::{
    build_plan, classify_system_target, display_name_config_args,
    ensure_environment_is_unit_file_safe, ensure_install_host_allowed, ensure_privilege_for_scope,
    ensure_service_target_is_safe, host_supports_user_scope, insecure_override_is_effective,
    insecure_service_target_allowed, install_at_scope, is_2xx_status_line,
    is_already_running_error, label, launchd_domain_target, missing_tool, os_native_service_name,
    os_tool, os_tool_dirs, other_account_bootout_args, other_account_stop_args,
    parse_sc_qc_display_name, query_args, recovery_action_args, recovery_outcome, reinstall,
    remove_registration, remove_registrations, resolve_scope, service_tool, start, start_outcome,
    status, stop, uninstall, uninstall_outcome, uninstall_scopes, unit_file_name,
    unix_os_tool_dirs, windows_os_tool_dirs, InstallPlan, RemovalMode, ScopeChoice, ScopeRemoval,
    ServiceBackend, ServiceScope, TargetRefusal, SERVICE_DISPLAY_NAME, SERVICE_LABEL,
};
use dig_node_service::state::{Os, RUN_CONTEXT_ENV, RUN_CONTEXT_SERVICE};
use dig_node_service::user_scope::UserScopeSweep;

// ---- identity and builders -------------------------------------------------------------------

#[test]
fn service_identity_constants_are_the_canonical_values() {
    assert_eq!(SERVICE_LABEL, "net.dignetwork.dig-node");
    assert_eq!(SERVICE_DISPLAY_NAME, "DIG NETWORK: NODE");
}

#[test]
fn service_label_parses() {
    let l = label().expect("constant label must parse");
    assert_eq!(l.application, "dig-node");
    assert_eq!(l.qualifier.as_deref(), Some("net"));
    assert_eq!(l.organization.as_deref(), Some("dignetwork"));
}

#[test]
fn service_label_qualified_name_matches_the_constant() {
    let l = label().expect("constant label must parse");
    assert_eq!(os_native_service_name(&l, Os::Windows), SERVICE_LABEL);
}

#[test]
fn os_native_service_name_matches_the_name_service_manager_actually_registers_under() {
    let l = label().expect("constant label must parse");
    assert_eq!(os_native_service_name(&l, Os::Linux), "dignetwork-dig-node");
    assert_eq!(os_native_service_name(&l, Os::Windows), SERVICE_LABEL);
    assert_eq!(os_native_service_name(&l, Os::MacOs), SERVICE_LABEL);
    assert_eq!(unit_file_name(&l), "dignetwork-dig-node.service");
}

#[test]
fn recovery_action_args_build_the_expected_sc_failure_command() {
    let args = recovery_action_args(SERVICE_LABEL);
    assert_eq!(
        args,
        vec![
            "failure".to_string(),
            SERVICE_LABEL.to_string(),
            "reset=".to_string(),
            "86400".to_string(),
            "actions=".to_string(),
            "restart/5000/restart/10000/restart/30000".to_string(),
        ]
    );
}

#[test]
fn recovery_action_args_targets_the_given_service_name() {
    let args = recovery_action_args("some.other.service");
    assert_eq!(args[1], "some.other.service");
}

#[test]
fn recovery_outcome_prefers_what_the_tool_said() {
    assert!(recovery_outcome(true, "ignored", "exit code: 0").is_ok());
    let e = recovery_outcome(false, "  access denied \n", "exit code: 5").unwrap_err();
    assert_eq!(e.message, "access denied");
    let e = recovery_outcome(false, " \n", "exit code: 5").unwrap_err();
    assert_eq!(e.message, "sc.exe failure exited with exit code: 5");
}

#[test]
fn display_name_config_args_build_the_sc_config_command() {
    let args = display_name_config_args(SERVICE_LABEL, SERVICE_DISPLAY_NAME);
    assert_eq!(
        args,
        vec![
            "config".to_string(),
            "net.dignetwork.dig-node".to_string(),
            "displayname=".to_string(),
            "DIG NETWORK: NODE".to_string(),
        ]
    );
}

#[test]
fn parse_sc_qc_display_name_reads_the_field_without_truncating_on_its_own_colon() {
    let output = "\
SERVICE_NAME: net.dignetwork.dig-node
        TYPE               : 10  WIN32_OWN_PROCESS
        START_TYPE         : 2   AUTO_START
        ERROR_CONTROL      : 1   NORMAL
        BINARY_PATH_NAME   : C:\\dig-node.exe run-service
        LOAD_ORDER_GROUP   :
        TAG                : 0
        DISPLAY_NAME       : DIG NETWORK: NODE
        DEPENDENCIES       :
        SERVICE_START_NAME : LocalSystem
";
    assert_eq!(
        parse_sc_qc_display_name(output).as_deref(),
        Some("DIG NETWORK: NODE")
    );
}

#[test]
fn parse_sc_qc_display_name_is_none_when_the_field_is_absent() {
    assert_eq!(parse_sc_qc_display_name("SERVICE_NAME: foo\n"), None);
    assert_eq!(parse_sc_qc_display_name(""), None);
}

fn env_of(plan: &InstallPlan, key: &str) -> Option<String> {
    plan.environment
        .iter()
        .find(|(k, _)| k == key)
        .map(|(_, v)| v.clone())
}

#[test]
fn build_plan_carries_identity_display_and_baked_config() {
    let config = Config {
        port: 9778,
        upstream: "https://rpc.dig.net".to_string(),
        ..Config::default()
    };
    let plan = build_plan(&config, "/opt/dig-node".to_string(), Os::Linux);
    assert_eq!(plan.label, SERVICE_LABEL);
    assert_eq!(plan.display_name, SERVICE_DISPLAY_NAME);
    assert_eq!(plan.program, "/opt/dig-node");
    assert!(plan.autostart);
    assert_eq!(env_of(&plan, "DIG_NODE_PORT").as_deref(), Some("9778"));
    assert_eq!(
        env_of(&plan, "DIG_RPC_UPSTREAM").as_deref(),
        Some("https://rpc.dig.net")
    );
    assert_eq!(
        env_of(&plan, RUN_CONTEXT_ENV).as_deref(),
        Some(RUN_CONTEXT_SERVICE)
    );
}

#[test]
fn build_plan_omits_host_and_cache_when_no_explicit_override() {
    let plan = build_plan(&Config::default(), "dig-node".to_string(), Os::Linux);
    assert!(!plan.environment.iter().any(|(k, _)| k == "DIG_NODE_HOST"));
    assert!(!plan.environment.iter().any(|(k, _)| k == "DIG_NODE_CACHE"));
}

#[test]
fn build_plan_records_an_explicit_host_and_cache_override() {
    let config = Config {
        host: Some(Ip::V4(10, 0, 0, 5)),
        cache_dir: Some("D:/dig/shared-cache".to_string()),
        ..Config::default()
    };
    let plan = build_plan(&config, "dig-node".to_string(), Os::Linux);
    assert_eq!(env_of(&plan, "DIG_NODE_HOST").as_deref(), Some("10.0.0.5"));
    assert_eq!(
        env_of(&plan, "DIG_NODE_CACHE").as_deref(),
        Some("D:/dig/shared-cache")
    );
}

#[test]
fn ensure_install_host_allowed_refuses_remote_host_without_escape_hatch_1667() {
    let config = Config {
        host: Some(Ip::V4(0, 0, 0, 0)),
        allow_remote: false,
        ..Config::default()
    };
    let err = ensure_install_host_allowed(&config).expect_err(
        "a non-loopback host without DIG_NODE_ALLOW_REMOTE=1 must be refused at install",
    );
    assert_eq!(err.kind(), ErrorKind::InvalidInput);
    assert!(err.to_text().contains("non-loopback"));
}

#[test]
fn ensure_install_host_allowed_permits_remote_host_with_escape_hatch_1667() {
    let config = Config {
        host: Some(Ip::V4(0, 0, 0, 0)),
        allow_remote: true,
        ..Config::default()
    };
    assert!(ensure_install_host_allowed(&config).is_ok());
}

#[test]
fn ensure_install_host_allowed_permits_loopback_and_default_1667() {
    let loopback = Config {
        host: Some(Ip::V4(127, 0, 0, 1)),
        ..Config::default()
    };
    assert!(ensure_install_host_allowed(&loopback).is_ok());
    assert!(ensure_install_host_allowed(&Config::default()).is_ok());
}

#[test]
fn build_plan_uses_run_service_entry_on_windows_and_run_elsewhere() {
    for (os, expected) in [
        (Os::Windows, "run-service"),
        (Os::Linux, "run"),
        (Os::MacOs, "run"),
    ] {
        let plan = build_plan(&Config::default(), "dig-node".to_string(), os);
        assert_eq!(plan.args, vec![expected.to_string()]);
    }
}

#[test]
fn is_2xx_status_line_parses_the_code_not_stray_digits() {
    assert!(is_2xx_status_line("HTTP/1.1 200 OK\r\nDate: x\r\n"));
    assert!(is_2xx_status_line("HTTP/1.0 204 No Content"));
    assert!(!is_2xx_status_line(
        "HTTP/1.0 404 Not Found\r\nDate: Sat, 27 Jun 2026 00:00:00 GMT\r\n"
    ));
    assert!(!is_2xx_status_line("HTTP/1.1 500 Internal Server Error"));
    assert!(!is_2xx_status_line("garbage"));
    assert!(!is_2xx_status_line(""));
}

#[test]
fn a_status_code_is_the_whole_second_word() {
    assert!(is_2xx_status_line("HTTP/1.1   +299\tfine"));
    assert!(!is_2xx_status_line("HTTP/1.1 300 Multiple Choices"));
    assert!(!is_2xx_status_line("HTTP/1.1 20x"));
    assert!(!is_2xx_status_line("HTTP/1.1 65736 wraps"));
    assert!(!is_2xx_status_line("HTTP/1.1"));
    assert!(!is_2xx_status_line("\nHTTP/1.1 200 OK"));
}

// ---- the guard on the program of a privileged service -----------------------------------------

#[test]
fn user_level_install_is_always_allowed_regardless_of_binary_owner() {
    let program = "/tmp/dir/dig-node";
    assert!(
        ensure_service_target_is_safe(program, ServiceScope::User, Some("/tmp/dir"), false, false)
            .unwrap()
            .is_none(),
        "a user-level install from a user-owned dir must be allowed"
    );
}

#[test]
fn system_level_install_from_a_user_writable_dir_is_refused() {
    let program = "/tmp/dir/dig-node";
    let err =
        ensure_service_target_is_safe(program, ServiceScope::System, Some("/tmp/dir"), false, false)
            .expect_err("a system-level install from a user-writable dir must be refused");
    assert_eq!(err.kind(), ErrorKind::PermissionDenied);
    let msg = err.to_text();
    assert!(msg.contains("#565"), "message cites the class: {msg}");
    assert!(
        msg.contains(program),
        "message names the offending program path: {msg}"
    );
}

#[test]
fn insecure_override_permits_a_system_level_install_from_a_user_writable_dir() {
    let program = "/tmp/dir/dig-node";
    let warning =
        ensure_service_target_is_safe(program, ServiceScope::System, Some("/tmp/dir"), false, true)
            .expect("the explicit insecure override must permit the otherwise-refused install")
            .expect("and say so");
    assert!(warning.contains("DIG_NODE_ALLOW_INSECURE_SERVICE_TARGET is set"));
    assert!(warning.contains(program));
    assert!(
        ensure_service_target_is_safe(program, ServiceScope::System, None, true, true)
            .unwrap()
            .is_none()
    );
}

#[test]
fn insecure_override_env_parses_only_truthy_values() {
    for (val, expected) in [
        ("1", true),
        ("true", true),
        ("YES", true),
        ("0", false),
        ("false", false),
        ("", false),
        ("nope", false),
    ] {
        assert_eq!(
            insecure_service_target_allowed(Some(val)),
            expected,
            "{val:?} must parse to {expected}"
        );
    }
    assert!(!insecure_service_target_allowed(None), "unset");
}

#[test]
fn the_program_file_must_be_privileged_in_its_own_right_b6() {
    let level = "/opt/dig/bin";
    assert_eq!(classify_system_target(None, true), None, "both checks pass");
    assert_eq!(
        classify_system_target(None, false),
        Some(TargetRefusal::ProgramFile),
        "a privileged directory chain does NOT excuse a user-writable program file"
    );
    assert_eq!(
        classify_system_target(Some(level), true),
        Some(TargetRefusal::Directory(level.to_string()))
    );
    assert_eq!(
        classify_system_target(Some(level), false),
        Some(TargetRefusal::Directory(level.to_string())),
        "the wider problem is reported first"
    );
    assert!(TargetRefusal::ProgramFile
        .describe()
        .contains("program file"));
    assert!(TargetRefusal::Directory(level.to_string())
        .describe()
        .contains("/opt/dig/bin"));
}

#[test]
fn the_insecure_override_is_inert_for_a_root_system_registration_b7() {
    assert!(
        !insecure_override_is_effective(true, ServiceScope::System, true),
        "a genuinely-root system registration must ignore the override"
    );
    assert!(insecure_override_is_effective(
        true,
        ServiceScope::System,
        false
    ));
    assert!(insecure_override_is_effective(
        true,
        ServiceScope::User,
        true
    ));
    assert!(!insecure_override_is_effective(
        false,
        ServiceScope::System,
        false
    ));
}

#[test]
fn a_refused_system_target_names_the_offending_directory_level() {
    let program = "/tmp/dir/bin/dig-node";
    for (level, file) in [(Some("/tmp/dir"), false), (None, false)] {
        let err =
            ensure_service_target_is_safe(program, ServiceScope::System, level, file, false)
                .expect_err("a system-level install from an unprivileged target must be refused");
        let expected = classify_system_target(level, file)
            .expect("an unprivileged target must classify as a refusal");
        let msg = err.to_text();
        assert!(
            msg.contains(&expected.describe()),
            "the refusal must name what failed ({}): {msg}",
            expected.describe()
        );
    }
}

// ---- a recording service manager --------------------------------------------------------------

/// One scope of the recording manager. A delete removes at once; a create over a registration that
/// is still there fails the way the Windows service controller does.
struct MockScope {
    installed: bool,
    fail_stop: bool,
    fail_delete: Option<ErrorKind>,
    fail_probe: bool,
    created_plan: Option<Vec<String>>,
    /// How many looks after a delete still see the service.
    lingers: u32,
}

impl MockScope {
    fn new(installed: bool) -> Self {
        MockScope {
            installed,
            fail_stop: false,
            fail_delete: None,
            fail_probe: false,
            created_plan: None,
            lingers: 0,
        }
    }
}

/// A recording service manager of both scopes, with one transcript.
struct MockBackend {
    system: MockScope,
    user: MockScope,
    tagged: bool,
    log: Vec<String>,
}

impl MockBackend {
    /// A manager whose machine-wide scope is asked, untagged.
    fn new(installed: bool) -> Self {
        MockBackend {
            system: MockScope::new(installed),
            user: MockScope::new(installed),
            tagged: false,
            log: Vec::new(),
        }
    }
    fn tagged(system: bool, user: bool) -> Self {
        MockBackend {
            system: MockScope::new(system),
            user: MockScope::new(user),
            tagged: true,
            log: Vec::new(),
        }
    }
    fn at(&mut self, scope: ServiceScope) -> &mut MockScope {
        match scope {
            ServiceScope::System => &mut self.system,
            ServiceScope::User => &mut self.user,
        }
    }
    fn record(&mut self, scope: ServiceScope, what: &str) {
        let tag = if self.tagged {
            format!("{}:", scope.as_str())
        } else {
            String::new()
        };
        self.log.push(format!("{tag}{what}"));
    }
    fn calls(&self) -> Vec<String> {
        self.log.clone()
    }
}

impl ServiceBackend for MockBackend {
    fn is_installed(&mut self, scope: ServiceScope) -> Result<bool, Error> {
        self.record(scope, "is_installed");
        let s = self.at(scope);
        if s.fail_probe {
            return Err(Error::other("probe failed".to_string()));
        }
        if !s.installed && s.lingers > 0 {
            s.lingers -= 1;
            return Ok(true);
        }
        Ok(s.installed)
    }
    fn stop(&mut self, scope: ServiceScope) -> Result<(), Error> {
        self.record(scope, "stop");
        if self.at(scope).fail_stop {
            Err(Error::other("not running".to_string()))
        } else {
            Ok(())
        }
    }
    fn delete(&mut self, scope: ServiceScope) -> Result<(), Error> {
        self.record(scope, "delete");
        let s = self.at(scope);
        match s.fail_delete {
            Some(ErrorKind::NotFound) => Err(Error::new(
                ErrorKind::NotFound,
                "Unit dignetwork-dig-node.service does not exist".to_string(),
            )),
            Some(kind) => Err(Error::new(
                kind,
                "Failed to connect to bus: Operation not permitted".to_string(),
            )),
            None => {
                s.installed = false;
                Ok(())
            }
        }
    }
    fn create(&mut self, scope: ServiceScope, plan: &InstallPlan) -> Result<(), Error> {
        self.record(scope, "create");
        let s = self.at(scope);
        if s.installed {
            return Err(Error::new(
                ErrorKind::AlreadyExists,
                "CreateService 1073: the specified service already exists".to_string(),
            ));
        }
        s.created_plan = Some(vec![plan.label.clone(), plan.display_name.clone()]);
        s.installed = true;
        Ok(())
    }
    fn pause(&mut self) {
        self.log.push("pause".to_string());
    }
}

fn plan() -> InstallPlan {
    build_plan(&Config::default(), "dig-node".to_string(), Os::Linux)
}

// ---- the clean reinstall ----------------------------------------------------------------------

#[test]
fn fresh_install_creates_without_stop_or_delete() {
    let mut backend = MockBackend::new(false);
    let report =
        reinstall(&mut backend, ServiceScope::System, &plan()).expect("fresh install succeeds");
    assert!(!report.existed);
    assert!(report.created);
    assert!(!report.stopped && !report.deleted);
    assert_eq!(backend.calls(), vec!["is_installed", "create"]);
    assert_eq!(
        backend.system.created_plan,
        Some(vec![
            "net.dignetwork.dig-node".to_string(),
            "DIG NETWORK: NODE".to_string()
        ])
    );
}

#[test]
fn existing_service_is_stopped_deleted_then_recreated_no_1073() {
    let mut backend = MockBackend::new(true);
    let report = reinstall(&mut backend, ServiceScope::System, &plan())
        .expect("clean-reinstall must NOT hit 1073");
    assert!(report.existed && report.stopped && report.deleted);
    assert!(report.created);
    let calls = backend.calls();
    let create_idx = calls.iter().position(|c| c == "create").unwrap();
    let delete_idx = calls.iter().position(|c| c == "delete").unwrap();
    let stop_idx = calls.iter().position(|c| c == "stop").unwrap();
    assert!(stop_idx < delete_idx, "stop before delete: {calls:?}");
    assert!(delete_idx < create_idx, "delete before create: {calls:?}");
    assert_eq!(calls.last().map(String::as_str), Some("create"));
}

#[test]
fn reinstall_recreates_even_when_stop_fails() {
    let mut backend = MockBackend::new(true);
    backend.system.fail_stop = true;
    let report = reinstall(&mut backend, ServiceScope::System, &plan())
        .expect("stop failure is non-fatal");
    assert!(report.existed);
    assert!(!report.stopped, "stop failed, so it is not marked stopped");
    assert!(report.deleted && report.created);
    let calls = backend.calls();
    assert!(calls.contains(&"delete".to_string()));
    assert!(calls.contains(&"create".to_string()));
}

#[test]
fn reinstall_stops_at_a_failed_delete_or_probe() {
    let mut backend = MockBackend::new(true);
    backend.system.fail_delete = Some(ErrorKind::PermissionDenied);
    let err = reinstall(&mut backend, ServiceScope::System, &plan()).unwrap_err();
    assert_eq!(err.kind(), ErrorKind::PermissionDenied);
    assert_eq!(backend.calls(), vec!["is_installed", "stop", "delete"]);

    let mut backend = MockBackend::new(true);
    backend.system.fail_probe = true;
    let err = reinstall(&mut backend, ServiceScope::System, &plan()).unwrap_err();
    assert_eq!(err.to_text(), "probe failed");
    assert_eq!(backend.calls(), vec!["is_installed"]);
}

#[test]
fn a_lingering_service_is_waited_for_and_not_forever() {
    let mut backend = MockBackend::new(true);
    backend.system.lingers = 2;
    reinstall(&mut backend, ServiceScope::System, &plan()).unwrap();
    assert_eq!(
        backend.calls(),
        vec![
            "is_installed",
            "stop",
            "delete",
            "is_installed",
            "pause",
            "is_installed",
            "pause",
            "is_installed",
            "create"
        ]
    );

    let mut stuck = MockBackend::new(true);
    let err = wait_for_removal(&mut stuck, ServiceScope::System).unwrap_err();
    assert_eq!(err.kind(), ErrorKind::TimedOut);
    assert!(err.to_text().contains("still present after waiting for removal"));
    assert_eq!(stuck.calls().len(), 80);
}

#[test]
fn naive_create_without_delete_would_hit_1073() {
    let mut backend = MockBackend::new(true);
    let err = backend.create(ServiceScope::System, &plan()).unwrap_err();
    assert_eq!(err.kind(), ErrorKind::AlreadyExists);
    assert!(err.to_text().contains("1073"));
}

// ---- starting a service that runs --------------------------------------------------------------

#[test]
fn already_running_is_recognised_across_all_os_signatures() {
    assert!(is_already_running_error(
        "[SC] StartService FAILED 1056:

An instance of the service is already running."
    ));
    assert!(is_already_running_error("service already loaded"));
    assert!(is_already_running_error("Operation already in progress"));
    assert!(is_already_running_error(
        "Job for x.service is already active"
    ));
    assert!(is_already_running_error(
        "AN INSTANCE OF THE SERVICE IS ALREADY RUNNING"
    ));
}

#[test]
fn a_genuine_start_failure_is_not_treated_as_already_running() {
    assert!(!is_already_running_error("Access is denied."));
    assert!(!is_already_running_error(
        "[SC] StartService FAILED 1058: The service cannot be started"
    ));
    assert!(!is_already_running_error(
        "The specified service does not exist"
    ));
    assert!(!is_already_running_error(
        "An error occurred at pid 1056 in the resolver"
    ));
    assert!(!is_already_running_error(""));
}

#[test]
fn start_outcome_maps_an_already_running_error_to_success() {
    let err = Error::other(
        "[SC] StartService FAILED 1056:

An instance of the service is already running."
            .to_string(),
    );
    let outcome = start_outcome(Err(err)).expect("already-running must map to Ok");
    assert!(outcome.result.already_running);
    assert!(outcome.result.started);
}

#[test]
fn start_outcome_reports_a_fresh_start_as_success() {
    let outcome = start_outcome(Ok(())).expect("a fresh start is Ok");
    assert!(!outcome.result.already_running);
    assert!(outcome.result.started);
    assert_eq!(
        outcome.summary,
        "dig-node: start requested for \"net.dignetwork.dig-node\""
    );
}

#[test]
fn start_outcome_propagates_a_real_start_failure() {
    let err = Error::new(
        ErrorKind::NotFound,
        "The specified service does not exist".to_string(),
    );
    assert!(start_outcome(Err(err)).is_err());
}

#[test]
fn start_and_stop_fail_where_the_manager_cannot_be_had() {
    let gone = || Error::new(ErrorKind::Unsupported, "already running, no manager".to_string());
    assert_eq!(start(Err(gone()), Ok(())).unwrap_err().kind(), ErrorKind::Unsupported);
    assert_eq!(stop(Err(gone()), Ok(())).unwrap_err().kind(), ErrorKind::Unsupported);
    assert!(stop(Ok(()), Err(gone())).is_err());
    let done = stop(Ok(()), Ok(())).unwrap();
    assert!(done.result.stopped);
    assert_eq!(
        done.summary,
        "dig-node: stop requested for \"net.dignetwork.dig-node\""
    );
    assert!(start(Ok(()), Err(Error::other("already active".to_string()))).unwrap().result.already_running);
}

// ---- tools ------------------------------------------------------------------------------------

#[test]
fn neither_platform_tool_directory_list_admits_a_user_writable_location() {
    let unix = unix_os_tool_dirs();
    let windows = windows_os_tool_dirs(r"C:\Windows");
    assert!(!unix.is_empty() && !windows.is_empty());
    for bad in [
        "/usr/local/bin",
        "/usr/local/sbin",
        "/opt/homebrew/bin",
        "/tmp",
        ".",
        "",
    ] {
        for (label, dirs) in [("unix", &unix), ("windows", &windows)] {
            assert!(
                !dirs.iter().any(|d| d == bad),
                "{bad:?} is writable by a non-privileged user on a common install and MUST NOT be a privileged tool directory ({label}): {dirs:?}"
            );
        }
    }
    assert!(windows.iter().all(|d| d.starts_with(r"C:\Windows")));
    assert!(unix.iter().all(|d| d.starts_with('/')));
}

#[test]
fn os_tool_fails_closed_for_a_tool_that_is_not_in_a_privileged_directory() {
    assert!(os_tool(
        Os::Linux,
        None,
        "definitely-not-a-real-os-tool-xyz",
        |_p: &str| false
    )
    .is_none());
}

/// Every tool that is run is an absolute path inside the fixed list; a bare name is never handed out.
#[test]
fn no_privileged_spawn_names_a_program_that_path_would_resolve_b1_b8() {
    for os in [Os::Linux, Os::MacOs, Os::Windows] {
        for tool in ["systemctl", "launchctl", "sc.exe", "net.exe"] {
            let found = os_tool(os, Some(r"D:\Win"), tool, |_p: &str| true).unwrap();
            assert_ne!(found.path, tool);
            let dirs = os_tool_dirs(os, Some(r"D:\Win"));
            assert!(found.path.starts_with(dirs[0].as_str()));
            assert!(found.path.ends_with(tool));
            assert_eq!(found.search, dirs);
        }
    }
    let second = os_tool(Os::Linux, None, "systemctl", |p: &str| {
        p == "/usr/bin/systemctl" || p == "/bin/systemctl"
    })
    .unwrap();
    assert_eq!(second.path, "/usr/bin/systemctl");
    assert_eq!(
        os_tool_dirs(Os::Windows, None),
        vec![r"C:\Windows\System32".to_string(), r"C:\Windows".to_string()]
    );
}

/// The question to the manager can be answered by an error: a tool that is missing is one.
#[test]
fn the_real_backend_can_report_an_unreadable_probe_b4() {
    for (os, tool) in [
        (Os::Windows, "sc.exe"),
        (Os::MacOs, "launchctl"),
        (Os::Linux, "systemctl"),
    ] {
        assert_eq!(service_tool(os), tool);
        let e = missing_tool(os);
        assert_eq!(e.kind(), ErrorKind::NotFound);
        assert_eq!(
            e.to_text(),
            format!("dig-node: {tool} was not found in a privileged system directory; refusing to run it from an unverified location")
        );
    }
    let mut backend = MockBackend::new(true);
    backend.system.fail_probe = true;
    assert!(backend.is_installed(ServiceScope::System).is_err());
}

#[test]
fn the_manager_is_asked_in_the_scope_that_is_meant() {
    let name = "dignetwork-dig-node";
    assert_eq!(
        query_args(Os::Linux, name, ServiceScope::User, 7),
        vec!["--user", "cat", "dignetwork-dig-node.service"]
    );
    assert_eq!(
        query_args(Os::Linux, name, ServiceScope::System, 7),
        vec!["cat", "dignetwork-dig-node.service"]
    );
    assert_eq!(
        query_args(Os::MacOs, SERVICE_LABEL, ServiceScope::User, 501),
        vec!["print", "gui/501/net.dignetwork.dig-node"]
    );
    assert_eq!(
        query_args(Os::Windows, SERVICE_LABEL, ServiceScope::System, 0),
        vec!["query", SERVICE_LABEL]
    );
    assert_eq!(
        launchd_domain_target("x", ServiceScope::System, 501),
        "system/x"
    );
    assert_eq!(
        other_account_bootout_args(502),
        vec!["bootout", "gui/502/net.dignetwork.dig-node"]
    );
    assert_eq!(
        other_account_stop_args("alice", "u.service"),
        vec!["--user", "--machine=alice@.host", "stop", "u.service"]
    );
    assert!(!host_supports_user_scope(Os::Windows));
    assert!(host_supports_user_scope(Os::Linux) && host_supports_user_scope(Os::MacOs));
}

// ---- scope ------------------------------------------------------------------------------------

#[test]
fn resolve_scope_decision_table_is_exhaustive_across_choice_os_and_privilege() {
    let table = [
        (ScopeChoice::Auto, true, true, ServiceScope::System),
        (ScopeChoice::Auto, true, false, ServiceScope::User),
        (ScopeChoice::System, true, true, ServiceScope::System),
        (ScopeChoice::System, true, false, ServiceScope::System),
        (ScopeChoice::User, true, true, ServiceScope::User),
        (ScopeChoice::User, true, false, ServiceScope::User),
        (ScopeChoice::Auto, false, true, ServiceScope::System),
        (ScopeChoice::Auto, false, false, ServiceScope::System),
        (ScopeChoice::System, false, true, ServiceScope::System),
        (ScopeChoice::System, false, false, ServiceScope::System),
        (ScopeChoice::User, false, true, ServiceScope::System),
        (ScopeChoice::User, false, false, ServiceScope::System),
    ];
    assert_eq!(table.len(), 12, "the table must cover 3 × 2 × 2 inputs");
    for (choice, os_supports_user, is_root, expected) in table {
        assert_eq!(
            resolve_scope(choice, os_supports_user, is_root),
            expected,
            "resolve_scope({choice:?}, os_supports_user={os_supports_user}, is_root={is_root}) must be {expected:?}"
        );
    }
}

#[test]
fn scope_choice_default_is_auto_so_an_older_installer_passing_no_flag_is_unchanged() {
    assert_eq!(ScopeChoice::default(), ScopeChoice::Auto);
    assert_eq!(
        resolve_scope(ScopeChoice::default(), true, false),
        ServiceScope::User
    );
}

#[test]
fn service_scope_renders_and_inverts() {
    assert_eq!(ServiceScope::User.as_str(), "user");
    assert_eq!(ServiceScope::System.as_str(), "system");
    assert!(ServiceScope::User.is_user());
    assert!(!ServiceScope::System.is_user());
    assert_eq!(ServiceScope::User.other(), ServiceScope::System);
    assert_eq!(ServiceScope::System.other(), ServiceScope::User);
}

#[test]
fn a_system_scope_registration_requires_root_on_a_user_capable_os() {
    let err = ensure_privilege_for_scope(ServiceScope::System, true, false)
        .expect_err("system scope unprivileged must be refused");
    assert_eq!(err.kind(), ErrorKind::PermissionDenied);
    let msg = err.to_text();
    assert!(msg.contains("system"), "names the scope: {msg}");
    assert!(msg.contains("root"), "names the missing privilege: {msg}");
    assert!(ensure_privilege_for_scope(ServiceScope::System, true, true).is_ok());
    assert!(ensure_privilege_for_scope(ServiceScope::User, true, false).is_ok());
    assert!(ensure_privilege_for_scope(ServiceScope::System, false, false).is_ok());
}

// ---- the other scope --------------------------------------------------------------------------

#[test]
fn install_deregisters_the_other_scope_before_creating_at_the_requested_one() {
    let mut backend = MockBackend::tagged(false, true);
    let done = install_at_scope(
        &mut backend,
        ServiceScope::System,
        Some(ServiceScope::User),
        &plan(),
    )
    .ok()
    .expect("install proceeds after migrating the other scope");
    assert!(done.report.created, "the requested scope is registered");
    let migration = done.migration.expect("a migration was attempted");
    assert_eq!(migration.scope, ServiceScope::User);
    assert!(migration.found && migration.removed, "{migration:?}");
    assert!(migration.error.is_none());

    let calls = backend.calls();
    let user_delete = calls
        .iter()
        .position(|c| c == "user:delete")
        .expect("the stale user-scope registration is deleted");
    let system_create = calls
        .iter()
        .position(|c| c == "system:create")
        .expect("the requested system-scope registration is created");
    assert!(
        user_delete < system_create,
        "the other scope must be deregistered BEFORE creating at the requested scope: {calls:?}"
    );
    let user_stop = calls.iter().position(|c| c == "user:stop").unwrap();
    assert!(user_stop < user_delete, "{calls:?}");
}

#[test]
fn install_touches_nothing_at_the_other_scope_when_it_holds_no_registration() {
    let mut backend = MockBackend::tagged(false, false);
    let done = install_at_scope(
        &mut backend,
        ServiceScope::System,
        Some(ServiceScope::User),
        &plan(),
    )
    .ok()
    .unwrap();
    assert!(done.report.created);
    let migration = done.migration.expect("a migration was attempted");
    assert!(!migration.found && !migration.removed);
    let calls = backend.calls();
    assert!(
        !calls.iter().any(|c| c == "user:delete" || c == "user:stop"),
        "no write at an unregistered scope: {calls:?}"
    );
}

#[test]
fn install_still_succeeds_when_the_other_scope_cannot_be_deregistered() {
    let mut backend = MockBackend::tagged(true, false);
    backend.system.fail_delete = Some(ErrorKind::PermissionDenied);
    let done = install_at_scope(
        &mut backend,
        ServiceScope::User,
        Some(ServiceScope::System),
        &plan(),
    )
    .ok()
    .expect("a failed other-scope removal must not fail the install");
    assert!(done.report.created);
    let migration = done.migration.expect("a migration was attempted");
    assert!(migration.found && !migration.removed);
    assert!(
        migration.error.is_some(),
        "an un-removable stale registration is reported, never silently dropped"
    );
}

#[test]
fn install_with_no_other_scope_reports_no_migration() {
    let mut backend = MockBackend::new(false);
    let done = install_at_scope(&mut backend, ServiceScope::System, None, &plan())
        .ok()
        .unwrap();
    assert!(done.report.created);
    assert!(done.migration.is_none());
}

// ---- uninstall --------------------------------------------------------------------------------

#[test]
fn uninstall_scopes_cover_both_scopes_under_auto_and_only_the_named_one_otherwise() {
    assert_eq!(uninstall_scopes(ScopeChoice::Auto, true, true), vec![ServiceScope::System, ServiceScope::User]);
    assert_eq!(uninstall_scopes(ScopeChoice::Auto, true, false), vec![ServiceScope::User, ServiceScope::System]);
    assert_eq!(uninstall_scopes(ScopeChoice::System, true, false), vec![ServiceScope::System]);
    assert_eq!(uninstall_scopes(ScopeChoice::User, true, true), vec![ServiceScope::User]);
    assert_eq!(uninstall_scopes(ScopeChoice::Auto, false, false), vec![ServiceScope::System]);
    assert_eq!(uninstall_scopes(ScopeChoice::User, false, false), vec![ServiceScope::System]);
}

#[test]
fn uninstall_removes_every_scope_that_holds_a_registration() {
    let mut backend = MockBackend::tagged(true, true);
    let removals = remove_registrations(
        &mut backend,
        &vec![
            (ServiceScope::System, RemovalMode::Requested),
            (ServiceScope::User, RemovalMode::Swept),
        ],
    );
    assert_eq!(removals.len(), 2);
    assert!(
        removals.iter().all(|r| r.found && r.removed),
        "{removals:?}"
    );
    let outcome = uninstall_outcome(removals).expect("removing both scopes is a success");
    assert!(!outcome.result.registered);
    assert_eq!(outcome.result.removed_scopes, vec!["system", "user"]);
    assert_eq!(
        outcome.summary,
        "dig-node: uninstalled service \"net.dignetwork.dig-node\" at system + user scope"
    );
}

#[test]
fn uninstall_fails_loudly_when_a_found_registration_could_not_be_removed() {
    let mut backend = MockBackend::tagged(true, true);
    backend.system.fail_delete = Some(ErrorKind::PermissionDenied);
    let removals = remove_registrations(
        &mut backend,
        &vec![
            (ServiceScope::User, RemovalMode::Requested),
            (ServiceScope::System, RemovalMode::Swept),
        ],
    );
    assert!(removals[0].removed, "the removable scope IS removed");
    assert!(removals[1].found && !removals[1].removed);
    let err = uninstall_outcome(removals)
        .expect_err("a registration left behind must not be reported as success");
    let msg = err.to_text();
    assert!(msg.contains("system"), "names the scope left behind: {msg}");
    assert!(msg.contains("user"), "reports what WAS removed too: {msg}");
    assert_eq!(
        msg,
        "dig-node: could not fully uninstall service \"net.dignetwork.dig-node\" (removed at: user). Unresolved: system scope: Failed to connect to bus: Operation not permitted. Re-run elevated (e.g. `sudo dig-node uninstall --scope system`) — a registration left behind will keep starting the node."
    );
}

#[test]
fn uninstall_reports_an_indeterminate_scope_rather_than_assuming_it_is_clean() {
    let mut backend = MockBackend::new(true);
    backend.system.fail_probe = true;
    backend.system.fail_delete = Some(ErrorKind::PermissionDenied);
    let removals = remove_registrations(
        &mut backend,
        &vec![(ServiceScope::System, RemovalMode::Requested)],
    );
    assert!(!removals[0].found, "the probe reported nothing");
    assert!(!removals[0].removed, "the removal did not succeed either");
    assert!(
        removals[0].indeterminate,
        "absence was never established, so the scope is UNKNOWN: {removals:?}"
    );
    let err = uninstall_outcome(removals)
        .expect_err("an unresolved scope must not be reported as a clean uninstall");
    assert_eq!(err.kind(), ErrorKind::PermissionDenied);
}

#[test]
fn uninstall_errors_when_no_scope_holds_a_registration() {
    let mut backend = MockBackend::new(false);
    backend.user.fail_delete = Some(ErrorKind::NotFound);
    let removals = remove_registrations(
        &mut backend,
        &vec![(ServiceScope::User, RemovalMode::Requested)],
    );
    let err = uninstall_outcome(removals).expect_err("nothing to uninstall is an error");
    assert_eq!(err.kind(), ErrorKind::NotFound);
    assert_eq!(
        err.to_text(),
        "dig-node: no service registration for \"net.dignetwork.dig-node\" was found at user scope — nothing to uninstall. (user scope: Unit dignetwork-dig-node.service does not exist)"
    );
}

#[test]
fn a_requested_scope_is_removed_even_when_the_probe_cannot_see_it() {
    let mut backend = MockBackend::new(false);
    let removal = remove_registration(&mut backend, ServiceScope::User, RemovalMode::Requested);
    assert!(
        !removal.found,
        "the probe false-negatived, as launchd's does"
    );
    assert!(
        removal.removed,
        "the deregistration must be attempted anyway, and it succeeded: {removal:?}"
    );
    assert!(!removal.indeterminate);
    assert!(
        backend.calls().contains(&"delete".to_string()),
        "delete must be called despite the probe: {:?}",
        backend.calls()
    );
    let outcome = uninstall_outcome(vec![removal]).expect("a proven removal is a success");
    assert_eq!(outcome.result.removed_scopes, vec!["user"]);
}

#[test]
fn a_swept_scope_is_invisible_to_the_probe_when_a_registration_does_exist_b3() {
    let mut backend = MockBackend::new(false);
    let removal = remove_registration(&mut backend, ServiceScope::User, RemovalMode::Swept);
    assert!(!removal.found && !removal.removed);
    assert!(
        !removal.indeterminate,
        "the probe answered cleanly — it just answered WRONGLY: {removal:?}"
    );
    assert_eq!(
        backend.calls(),
        vec!["is_installed"],
        "nothing was even attempted, and nothing was reported — hence the filesystem sweep"
    );
    let note = UserScopeSweep::residual_note();
    assert!(
        note.contains("XDG_CONFIG_HOME"),
        "the residual must be stated, not implied: {note}"
    );
}

#[test]
fn a_swept_scope_is_never_written_to_on_a_probe_that_sees_nothing() {
    let mut backend = MockBackend::new(false);
    let removal = remove_registration(&mut backend, ServiceScope::System, RemovalMode::Swept);
    assert!(!removal.removed && !removal.indeterminate);
    assert_eq!(
        backend.calls(),
        vec!["is_installed"],
        "a swept scope is probed and then left alone"
    );
}

#[test]
fn a_swept_scope_that_cannot_be_read_is_left_alone_and_in_doubt() {
    let mut backend = MockBackend::new(true);
    backend.user.fail_probe = true;
    let removal = remove_registration(&mut backend, ServiceScope::User, RemovalMode::Swept);
    assert!(!removal.found && !removal.removed && removal.indeterminate);
    assert_eq!(
        removal.error.as_deref(),
        Some("could not determine whether it is registered: probe failed")
    );
    assert_eq!(backend.calls(), vec!["is_installed"]);
}

fn uninstall_facts(os: Os, is_root: bool) -> UninstallFacts {
    UninstallFacts {
        os,
        is_root,
        is_elevated: true,
        system_manager: Ok(()),
        user_manager: Ok(()),
    }
}

#[test]
fn an_uninstall_goes_through_both_scopes_the_named_one_first() {
    let mut backend = MockBackend::tagged(true, true);
    let outcome = uninstall(
        ScopeChoice::Auto,
        &uninstall_facts(Os::Linux, false),
        &mut backend,
    )
    .unwrap();
    assert_eq!(outcome.result.removed_scopes, vec!["user", "system"]);
    assert_eq!(
        backend.calls(),
        vec![
            "user:is_installed",
            "user:stop",
            "user:delete",
            "system:is_installed",
            "system:stop",
            "system:delete"
        ]
    );
}

#[test]
fn an_uninstall_reports_a_scope_whose_manager_cannot_be_had() {
    let mut backend = MockBackend::tagged(true, true);
    let mut facts = uninstall_facts(Os::Linux, true);
    facts.user_manager = Err(Error::other("no session".to_string()));
    let err = uninstall(ScopeChoice::Auto, &facts, &mut backend).unwrap_err();
    assert_eq!(err.kind(), ErrorKind::PermissionDenied);
    assert!(err.to_text().contains("user scope: no session"));
    assert!(err.to_text().contains("removed at: system"));
}

#[test]
fn an_uninstall_on_windows_wants_an_elevated_console() {
    let mut backend = MockBackend::tagged(true, true);
    let mut facts = uninstall_facts(Os::Windows, false);
    facts.is_elevated = false;
    let err = uninstall(ScopeChoice::Auto, &facts, &mut backend).unwrap_err();
    assert_eq!(err.to_text(), UNINSTALL_ELEVATION_REFUSAL);
    assert!(backend.calls().is_empty());
}

// ---- the baked environment --------------------------------------------------------------------

#[test]
fn a_control_character_in_a_baked_env_value_is_refused_for_system_scope_b2() {
    let injected = "https://a.test\nExecStartPre=/tmp/pwn\n";
    let env = vec![("DIG_RPC_UPSTREAM".to_string(), injected.to_string())];
    let err = ensure_environment_is_unit_file_safe(&env, ServiceScope::System)
        .expect_err("a newline in a value written into a root unit file must be refused");
    assert_eq!(err.kind(), ErrorKind::InvalidInput);
    let msg = err.to_text();
    assert!(
        msg.contains("DIG_RPC_UPSTREAM"),
        "names the variable: {msg}"
    );
    assert!(
        msg.contains("control character"),
        "states the guard over the CLASS, not one directive: {msg}"
    );
}

#[test]
fn every_control_character_class_is_refused_in_a_key_or_a_value_b2() {
    for bad in ["\n", "\r", "\0"] {
        let in_value = vec![("DIG_NODE_CACHE".to_string(), format!("/tmp{bad}Bad=1"))];
        assert!(
            ensure_environment_is_unit_file_safe(&in_value, ServiceScope::System).is_err(),
            "{bad:?} in a value must be refused"
        );
        let in_key = vec![(format!("DIG_NODE_CACHE{bad}Bad"), "/tmp".to_string())];
        assert!(
            ensure_environment_is_unit_file_safe(&in_key, ServiceScope::System).is_err(),
            "{bad:?} in a key must be refused"
        );
    }
    let clean = build_plan(
        &Config::default(),
        "/opt/dig/bin/dig-node".to_string(),
        Os::Linux,
    )
    .environment;
    assert!(ensure_environment_is_unit_file_safe(&clean, ServiceScope::System).is_ok());
}

#[test]
fn user_scope_does_not_apply_the_unit_file_guard_b2() {
    let env = vec![("DIG_RPC_UPSTREAM".to_string(), "https://a\nb".to_string())];
    assert!(ensure_environment_is_unit_file_safe(&env, ServiceScope::User).is_ok());
}

#[test]
fn a_control_character_never_survives_upstream_normalisation_b2() {
    assert!(contains_control_character("https://a\nExecStartPre=/tmp/x"));
    assert!(normalize_upstream("https://a\nExecStartPre=/tmp/x").is_empty());
    assert_eq!(normalize_upstream("rpc.dig.net"), "https://rpc.dig.net");
}

#[test]
fn an_upstream_with_a_scheme_is_kept() {
    assert_eq!(normalize_upstream(" http://a.test "), "http://a.test");
    assert_eq!(normalize_upstream("   "), "");
    assert!(!contains_control_character("https://a"));
}

// ---- doubt ------------------------------------------------------------------------------------

#[test]
fn a_removal_that_fails_for_any_reason_but_absence_is_indeterminate_b4() {
    assert!(
        !removal_failure_is_indeterminate(false, ErrorKind::NotFound),
        "a readable probe plus NotFound is genuine absence"
    );
    for kind in [
        ErrorKind::PermissionDenied,
        ErrorKind::Other,
        ErrorKind::TimedOut,
    ] {
        assert!(
            removal_failure_is_indeterminate(false, kind),
            "{kind:?} leaves a possible registration behind and MUST be unresolved"
        );
    }
    assert!(removal_failure_is_indeterminate(true, ErrorKind::NotFound));
}

#[test]
fn a_failed_removal_is_not_reported_as_nothing_to_uninstall_b4() {
    let mut backend = MockBackend::new(false);
    backend.user.fail_delete = Some(ErrorKind::PermissionDenied);
    let removal = remove_registration(&mut backend, ServiceScope::User, RemovalMode::Requested);
    assert!(!removal.found && !removal.removed);
    assert!(
        removal.indeterminate,
        "a PermissionDenied removal leaves the state UNKNOWN: {removal:?}"
    );
    let err = uninstall_outcome(vec![removal]).expect_err("must not be a success");
    assert_ne!(
        err.kind(),
        ErrorKind::NotFound,
        "telling the operator 'nothing to uninstall' would be a lie: {err:?}"
    );
}

#[test]
fn a_leftover_at_one_scope_is_not_masked_by_a_success_at_another_b4() {
    let mut backend = MockBackend::tagged(false, true);
    backend.system.fail_delete = Some(ErrorKind::PermissionDenied);
    let removals = remove_registrations(
        &mut backend,
        &vec![
            (ServiceScope::User, RemovalMode::Requested),
            (ServiceScope::System, RemovalMode::Requested),
        ],
    );
    assert!(removals[0].removed, "one scope genuinely removed");
    assert!(removals[1].indeterminate, "the other is unknown");
    assert!(uninstall_outcome(removals).is_err());
}

// ---- status -----------------------------------------------------------------------------------

#[test]
fn status_reports_false_when_nothing_listens() {
    let cfg = Config {
        port: 1,
        ..Config::default()
    };
    let outcome = status(&cfg, Ok(false));
    assert!(!outcome.result.serving);
    assert_eq!(outcome.result.addr, "127.0.0.1:1");
    assert_eq!(outcome.result.health_url, "http://127.0.0.1:1/health");
    assert_eq!(
        outcome.summary,
        "dig-node: NOT responding on http://127.0.0.1:1 (the service may be stopped or not installed)"
    );
}

#[test]
fn status_reports_a_serving_node_and_a_failed_look() {
    let cfg = Config::default();
    let up = status(&cfg, Ok(true));
    assert!(up.result.serving);
    assert_eq!(
        up.summary,
        "dig-node: SERVING on http://127.0.0.1:9778 (http://127.0.0.1:9778/health)"
    );
    let bad = status(&cfg, Err(Error::other("boom".to_string())));
    assert!(!bad.result.serving);
    assert_eq!(
        bad.summary,
        "dig-node: could not probe http://127.0.0.1:9778: boom"
    );
    assert_eq!(
        health_request(&Endpoint {
            ip: Ip::V6([0, 0, 0, 0, 0, 0, 0, 1]),
            port: 9778
        }),
        "GET /health HTTP/1.0\r\nHost: [::1]:9778\r\nConnection: close\r\n\r\n"
    );
}

// ---- install ----------------------------------------------------------------------------------

fn facts() -> InstallFacts {
    InstallFacts {
        os: Os::Linux,
        is_root: true,
        is_elevated: true,
        manager: Ok(()),
        other_manager: true,
        program: Ok("/opt/dig/bin/dig-node".to_string()),
        unprivileged_level: None,
        program_file_privileged: true,
        insecure_value: None,
        program_data: None,
        whoami: None,
    }
}

#[test]
fn an_install_that_passes_says_what_to_do() {
    let order = plan_install(&Config::default(), ScopeChoice::Auto, &facts())
        .ok()
        .unwrap();
    assert_eq!(order.scope, ServiceScope::System);
    assert_eq!(order.other, Some(ServiceScope::User));
    assert_eq!(order.plan.program, "/opt/dig/bin/dig-node");
    assert_eq!(order.warning, None);
    assert_eq!(order.harden.as_deref(), Some("/var/lib/dig-node"));
    assert_eq!(order.read_grant, None);
    assert!(order.sweep_accounts);
}

#[test]
fn an_install_is_refused_by_the_first_guard_that_objects() {
    let refused = |c: &Config, choice: ScopeChoice, f: &InstallFacts| {
        plan_install(c, choice, f).err().expect("refused")
    };
    let mut bad = facts();
    bad.is_root = false;
    bad.manager = Err(Error::other("no manager".to_string()));
    bad.program = Err(Error::other("no program".to_string()));
    let remote = Config {
        host: Some(Ip::V4(10, 0, 0, 1)),
        ..Config::default()
    };
    assert!(refused(&remote, ScopeChoice::System, &bad)
        .to_text()
        .contains("non-loopback"));
    assert!(refused(&Config::default(), ScopeChoice::System, &bad)
        .to_text()
        .contains("requires root"));
    assert_eq!(
        refused(&Config::default(), ScopeChoice::User, &bad).to_text(),
        "no manager"
    );
    bad.manager = Ok(());
    assert_eq!(
        refused(&Config::default(), ScopeChoice::User, &bad).to_text(),
        "no program"
    );
    let mut windows = facts();
    windows.os = Os::Windows;
    windows.is_elevated = false;
    assert_eq!(
        refused(&Config::default(), ScopeChoice::User, &windows).to_text(),
        INSTALL_ELEVATION_REFUSAL
    );
    let mut writable = facts();
    writable.unprivileged_level = Some("/home/me".to_string());
    writable.insecure_value = Some("yes".to_string());
    assert!(refused(&Config::default(), ScopeChoice::Auto, &writable)
        .to_text()
        .contains("the path level \"/home/me\""));
    let poisoned = Config {
        upstream: "https://a\nb".to_string(),
        ..Config::default()
    };
    assert!(refused(&poisoned, ScopeChoice::Auto, &facts())
        .to_text()
        .contains("DIG_RPC_UPSTREAM"));
}

#[test]
fn an_install_without_root_takes_the_users_scope() {
    let mut f = facts();
    f.is_root = false;
    f.unprivileged_level = Some("/home/me".to_string());
    let order = plan_install(&Config::default(), ScopeChoice::Auto, &f)
        .ok()
        .unwrap();
    assert_eq!(order.scope, ServiceScope::User);
    assert!(!order.sweep_accounts);
}

fn registered() -> Registered {
    Registered {
        report: ReinstallReport {
            existed: false,
            stopped: false,
            deleted: false,
            created: true,
        },
        migration: None,
    }
}

#[test]
fn an_install_secures_sweeps_and_registers_in_that_order() {
    let config = Config::default();
    let order = plan_install(&config, ScopeChoice::Auto, &facts()).ok().unwrap();
    let stage = InstallStage::begin(order);
    match stage.action() {
        InstallAction::Harden { dir, read_grant } => {
            assert_eq!(dir, "/var/lib/dig-node");
            assert_eq!(read_grant, None);
        }
        _ => panic!("the state directory comes first"),
    }
    let denied = InstallEvent::Hardened(Err(Error::other("denied".to_string())));
    assert_eq!(
        stage.warning(&denied).as_deref(),
        Some("dig-node: WARN could not harden /var/lib/dig-node during install (denied); the service will re-secure it at startup")
    );
    let stage = stage.next(&config, Os::Linux, denied);
    assert!(matches!(stage.action(), InstallAction::Sweep));
    let swept = InstallEvent::Swept(UserScopeSweep {
        removed: vec!["/home/ada".to_string()],
        failed: vec![],
    });
    assert_eq!(stage.warning(&swept), None);
    let stage = stage.next(&config, Os::Linux, swept);
    match stage.action() {
        InstallAction::Register(order) => assert_eq!(order.scope, ServiceScope::System),
        _ => panic!("the registration comes last"),
    }
    let stage = stage.next(&config, Os::Linux, InstallEvent::Registered(Ok(registered()), None));
    assert!(matches!(stage.action(), InstallAction::Nothing));
    let outcome = match stage {
        InstallStage::Over(Ok(outcome)) => outcome,
        _ => panic!("the install is over"),
    };
    assert!(outcome.result.recovery_configured);
    let sweep = outcome.result.user_scope_sweep.expect("the sweep is reported");
    assert_eq!(sweep.removed_accounts, vec!["/home/ada"]);
}

#[test]
fn an_install_for_one_account_registers_at_once_and_fails_with_the_registration() {
    let config = Config::default();
    let mut f = facts();
    f.is_root = false;
    let mut order = plan_install(&config, ScopeChoice::Auto, &f).ok().unwrap();
    order.harden = None;
    let stage = InstallStage::begin(order);
    assert!(matches!(stage.action(), InstallAction::Register(_)));
    let refused = Err(Error::other("no bus".to_string()));
    let stage = stage.next(&config, Os::Linux, InstallEvent::Registered(refused, None));
    match stage {
        InstallStage::Over(Err(e)) => assert_eq!(e.to_text(), "no bus"),
        _ => panic!("the registration decides"),
    }
}

#[test]
fn an_install_on_windows_sets_up_a_restart_and_says_where_it_could_not() {
    let config = Config::default();
    let mut f = facts();
    f.os = Os::Windows;
    let order = plan_install(&config, ScopeChoice::Auto, &f).ok().unwrap();
    let stage = InstallStage::begin(order).next(&config, Os::Windows, InstallEvent::Hardened(Ok(())));
    assert!(matches!(stage.action(), InstallAction::Register(_)));
    let event = InstallEvent::Registered(Ok(registered()), Some(true));
    let stage = stage.next(&config, Os::Windows, event);
    assert!(matches!(stage.action(), InstallAction::Recover));
    let failed = InstallEvent::Recovered(Err(Error::other("access denied".to_string())));
    match stage.next(&config, Os::Windows, failed) {
        InstallStage::Over(Ok(outcome)) => {
            assert!(!outcome.result.recovery_configured);
            assert_eq!(outcome.result.display_name_verified, Some(true));
            assert!(outcome.summary.contains("(access denied)"));
        }
        _ => panic!("a restart that could not be set up fails no install"),
    }
}

fn removal(scope: ServiceScope, found: bool, removed: bool, error: Option<&str>) -> ScopeRemoval {
    ScopeRemoval {
        scope,
        found,
        removed,
        indeterminate: false,
        error: error.map(str::to_string),
    }
}

#[test]
fn an_install_reports_what_it_did_and_what_is_left() {
    let mut backend = MockBackend::new(true);
    let report = reinstall(&mut backend, ServiceScope::System, &plan()).unwrap();
    let outcome = install_outcome(
        &Config::default(),
        ServiceScope::System,
        "/opt/dig/bin/dig-node",
        InstallDone {
            registered: Registered {
                report,
                migration: Some(removal(ServiceScope::User, true, true, None)),
            },
            sweep: Some(UserScopeSweep {
                removed: vec!["/home/a".to_string()],
                failed: vec![("/home/b".to_string(), "denied".to_string())],
            }),
            recovery_failure: Some("no sc".to_string()),
            display_name_verified: Some(false),
        },
    );
    let s = &outcome.summary;
    assert!(s.starts_with(
        "dig-node: reinstalled (stopped + deleted the existing service, then recreated it) as a system-level service\n  id:      net.dignetwork.dig-node\n  display: DIG NETWORK: NODE\n  program: /opt/dig/bin/dig-node\n  serves:  http://127.0.0.1:9778\n  Set the DIG Chrome extension's \"server host\" to 127.0.0.1:9778.\n  Start it now with: dig-node start\n  note: removed a previous user-scope registration of this service."
    ), "{s}");
    assert!(s.contains("\n  note: removed (and stopped) the user-level registration belonging to /home/a."));
    assert!(s.contains("\n  WARN could not remove the user-level registration belonging to /home/b (denied); it "));
    assert!(s.contains("\n  note: a user-scope registration under a home directory outside"));
    assert!(s.contains("recovery actions (no sc); the service is installed but will NOT auto-restart"));
    assert!(s.ends_with("possibly showing its id in the Services console."));
    assert!(outcome.result.reinstalled && !outcome.result.started);
    assert!(!outcome.result.recovery_configured);
    assert_eq!(outcome.result.display_name_verified, Some(false));
    let sweep = outcome.result.user_scope_sweep.unwrap();
    assert_eq!(sweep.removed_accounts, vec!["/home/a"]);
    assert_eq!(sweep.failed_accounts.len(), 1);
}

#[test]
fn an_install_warns_of_a_registration_it_could_not_clear() {
    let mut backend = MockBackend::new(false);
    let report = reinstall(&mut backend, ServiceScope::User, &plan()).unwrap();
    let outcome = install_outcome(
        &Config::default(),
        ServiceScope::User,
        "dig-node",
        InstallDone {
            registered: Registered {
                report,
                migration: Some(removal(ServiceScope::System, true, false, None)),
            },
            sweep: None,
            recovery_failure: None,
            display_name_verified: None,
        },
    );
    assert!(outcome.summary.ends_with(
        "\n  WARN a system-scope registration of this service is still present and could not be removed (removal did not take effect); both may try to serve the same port. Remove it with: dig-node uninstall --scope system"
    ));
    assert!(outcome.summary.starts_with("dig-node: installed as a user-level service\n"));
    assert!(!outcome.result.migrated_from_scope.unwrap().removed);
}

#[test]
fn a_failed_harden_is_only_a_warning() {
    assert_eq!(
        harden_warning("/var/lib/dig-node", &Error::other("denied".to_string())),
        "dig-node: WARN could not harden /var/lib/dig-node during install (denied); the service will re-secure it at startup"
    );
}

// ---- addresses --------------------------------------------------------------------------------

#[test]
fn addresses_are_written_the_way_they_are_read() {
    let v6 = |g: [u16; 8]| Ip::V6(g).to_text();
    assert_eq!(v6([0, 0, 0, 0, 0, 0, 0, 1]), "::1");
    assert_eq!(v6([0; 8]), "::");
    assert_eq!(v6([0x2001, 0xdb8, 0, 0, 1, 0, 0, 0]), "2001:db8:0:0:1::");
    assert_eq!(v6([1, 0, 2, 3, 4, 5, 6, 7]), "1:0:2:3:4:5:6:7");
    assert_eq!(v6([0, 0, 1, 0, 0, 2, 3, 4]), "::1:0:0:2:3:4");
    assert_eq!(v6([0, 0, 0, 0, 0, 0xffff, 0x7f00, 1]), "::ffff:127.0.0.1");
    assert_eq!(v6([0xfe80, 0, 0, 0, 0xabcd, 0xef, 0x10, 0xf]), "fe80::abcd:ef:10:f");
    assert_eq!(Ip::V4(10, 0, 200, 5).to_text(), "10.0.200.5");
    assert!(Ip::V6([0, 0, 0, 0, 0, 0xffff, 0x7f00, 1]).is_loopback());
    assert!(!Ip::V6([0, 0, 0, 0, 0, 0xffff, 0x0a00, 1]).is_loopback());
    assert!(Ip::V4(127, 9, 9, 9).is_loopback());
    let c = Config::default();
    assert_eq!(c.bind_addr().to_text(), "127.0.0.1:9778");
    assert_eq!(c.bind_addr_v6().unwrap().to_text(), "[::1]:9778");
    assert_eq!(c.dig_local_addr().unwrap().to_text(), "127.0.0.2:80");
    assert_eq!(c.dig_local_https_addr().unwrap().to_text(), "127.0.0.2:443");
    assert_eq!(c.dig_local_https_addr_v6().unwrap().to_text(), "[::1]:443");
}

// ---- registrations in memory ------------------------------------------------------------------

#[test]
fn a_manager_in_memory_registers_nothing_over_a_registration() {
    let mut manager = MemoryBackend { system: true, user: false };
    let refused = manager.create(ServiceScope::System, &plan()).unwrap_err();
    assert_eq!(refused.kind, ErrorKind::AlreadyExists);
    assert!(manager.stop(ServiceScope::System).is_ok());
    assert_eq!(manager.stop(ServiceScope::User).unwrap_err().kind, ErrorKind::NotFound);
    assert_eq!(manager.delete(ServiceScope::User).unwrap_err().kind, ErrorKind::NotFound);
    assert_eq!(manager.is_installed(ServiceScope::System), Ok(true));
    manager.pause();

    let report = reinstall(&mut manager, ServiceScope::System, &plan()).expect("a clean reinstall");
    let done = ReinstallReport { existed: true, stopped: true, deleted: true, created: true };
    assert_eq!(report, done);
    assert!(manager.system);
    assert!(!manager.user);
}

#[test]
fn one_install_leaves_one_registration() {
    for (system, user) in [(false, false), (true, false), (false, true), (true, true)] {
        let mut manager = MemoryBackend { system, user };
        let other = Some(ServiceScope::User);
        let done = install_at_scope(&mut manager, ServiceScope::System, other, &plan())
            .expect("an install");
        assert_eq!(done.report.existed, system);
        let swept = done.migration.expect("the other scope was looked at");
        assert_eq!((swept.found, swept.removed), (user, user));
        assert!(manager.system);
        assert!(!manager.user);
    }
}
