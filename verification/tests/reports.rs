use dig_node_service::json::Json;
use dig_node_service::meta::ErrorCode;
use dig_node_service::service::verbs::{
    InstallResult, StartResult, StatusResult, StopResult, SweepResult, UninstallResult,
};
use dig_node_service::service::{ScopeRemoval, ServiceScope};
use dig_node_service::spend_audit::ids::IdSource;
use dig_node_service::spend_audit::journal::{Clock, SpendJournal};
use dig_node_service::spend_audit::ledger::LogLine;
use dig_node_service::spend_audit::reconcile::ReconcileReport;
use dig_node_service::spend_audit::{Asset, Authority, SpendIntent, SpendKind, SpendLog, SpendQuery};
use dig_node_service::spend_audit_cli::{run_against, NoChain, SpendsAction, SpendsResult};
use dig_node_service::state::acl::{owner_ps_command, parse_owner_sid, windows_fresh_grant_args};
use dig_node_service::updater::Reply;

fn text(s: &str) -> Json {
    Json::Text(s.to_string())
}

fn object(entries: Vec<(&str, Json)>) -> Json {
    Json::Object(entries.into_iter().map(|(k, v)| (k.to_string(), v)).collect())
}

fn names(list: &[&str]) -> Json {
    Json::List(list.iter().map(|s| text(s)).collect())
}

fn install_result() -> InstallResult {
    InstallResult {
        installed: true,
        reinstalled: true,
        registered: true,
        started: false,
        label: "net.dignetwork.dig-node".to_string(),
        display_name: "DIG NETWORK: NODE".to_string(),
        scope: "system".to_string(),
        program: "/usr/bin/dig-node".to_string(),
        addr: "127.0.0.1:9778".to_string(),
        upstream: "https://rpc.dig.net".to_string(),
        recovery_configured: true,
        display_name_verified: None,
        user_scope_sweep: None,
        migrated_from_scope: None,
    }
}

fn install_entries() -> Vec<(&'static str, Json)> {
    vec![
        ("installed", Json::Bool(true)),
        ("reinstalled", Json::Bool(true)),
        ("registered", Json::Bool(true)),
        ("started", Json::Bool(false)),
        ("label", text("net.dignetwork.dig-node")),
        ("display_name", text("DIG NETWORK: NODE")),
        ("scope", text("system")),
        ("program", text("/usr/bin/dig-node")),
        ("addr", text("127.0.0.1:9778")),
        ("upstream", text("https://rpc.dig.net")),
        ("recovery_configured", Json::Bool(true)),
    ]
}

#[test]
fn an_install_reports_only_what_there_is_to_report() {
    assert_eq!(install_result().to_json(), object(install_entries()));
}

#[test]
fn an_install_reports_the_name_the_sweep_and_the_other_scope() {
    let result = InstallResult {
        display_name_verified: Some(false),
        user_scope_sweep: Some(SweepResult {
            removed_accounts: vec!["/home/ada".to_string()],
            failed_accounts: vec![("/home/bob".to_string(), "denied".to_string())],
            residual: "look elsewhere".to_string(),
        }),
        migrated_from_scope: Some(ScopeRemoval {
            scope: ServiceScope::User,
            found: true,
            removed: false,
            indeterminate: true,
            error: Some("no bus".to_string()),
        }),
        ..install_result()
    };
    let mut expected = install_entries();
    expected.push(("display_name_verified", Json::Bool(false)));
    expected.push((
        "user_scope_sweep",
        object(vec![
            ("removed_accounts", names(&["/home/ada"])),
            (
                "failed_accounts",
                Json::List(vec![object(vec![
                    ("account", text("/home/bob")),
                    ("error", text("denied")),
                ])]),
            ),
            ("residual", text("look elsewhere")),
        ]),
    ));
    expected.push((
        "migrated_from_scope",
        object(vec![
            ("scope", text("user")),
            ("found", Json::Bool(true)),
            ("removed", Json::Bool(false)),
            ("indeterminate", Json::Bool(true)),
            ("error", text("no bus")),
        ]),
    ));
    assert_eq!(result.to_json(), object(expected));
}

#[test]
fn a_removal_without_an_error_reports_null() {
    let result = InstallResult {
        migrated_from_scope: Some(ScopeRemoval {
            scope: ServiceScope::System,
            found: false,
            removed: false,
            indeterminate: false,
            error: None,
        }),
        ..install_result()
    };
    let json = result.to_json();
    let removal = json.get("migrated_from_scope").expect("reported");
    assert_eq!(removal.get("error"), Some(&Json::Null));
    assert_eq!(removal.get_str("scope"), Some("system"));
}

#[test]
fn the_other_commands_report_their_published_shapes() {
    let label = || "net.dignetwork.dig-node".to_string();
    let uninstalled = UninstallResult {
        installed: false,
        registered: false,
        label: label(),
        removed_scopes: vec!["system".to_string(), "user".to_string()],
    };
    assert_eq!(
        uninstalled.to_json(),
        object(vec![
            ("installed", Json::Bool(false)),
            ("registered", Json::Bool(false)),
            ("label", text("net.dignetwork.dig-node")),
            ("removed_scopes", names(&["system", "user"])),
        ])
    );
    let started = StartResult { started: true, already_running: true, label: label() };
    assert_eq!(
        started.to_json(),
        object(vec![
            ("started", Json::Bool(true)),
            ("already_running", Json::Bool(true)),
            ("label", text("net.dignetwork.dig-node")),
        ])
    );
    let stopped = StopResult { stopped: true, label: label() };
    assert_eq!(
        stopped.to_json(),
        object(vec![("stopped", Json::Bool(true)), ("label", text("net.dignetwork.dig-node"))])
    );
    let status = StatusResult {
        serving: false,
        addr: "127.0.0.1:9778".to_string(),
        health_url: "http://127.0.0.1:9778/health".to_string(),
    };
    assert_eq!(
        status.to_json(),
        object(vec![
            ("serving", Json::Bool(false)),
            ("addr", text("127.0.0.1:9778")),
            ("health_url", text("http://127.0.0.1:9778/health")),
        ])
    );
}

// ---- the record of spends ----------------------------------------------------------------------

fn one_spend() -> SpendLog {
    let mut ids = IdSource::new(7);
    let mut journal =
        SpendJournal::with_clock(SpendLog::at("/state/spend-audit.jsonl"), Clock::Fixed(1_000));
    let spend = journal.begin(
        &mut ids,
        SpendIntent {
            kind: SpendKind::new("mirror_coin"),
            purpose: "bond".to_string(),
            authority: Authority { principal: "operator".to_string(), grant: "mirror".to_string() },
            asset: Asset::Dig,
            amount_mojos: 5,
            fee_mojos: 1,
            store_id: None,
            bond: None,
        },
    );
    journal.close(spend);
    let lines = journal.log().ledger().records.into_iter().map(LogLine::Record).collect();
    SpendLog::with_lines("/state/spend-audit.jsonl", lines)
}

#[test]
fn a_list_is_told_with_its_rows() {
    let log = one_spend();
    let outcome =
        run_against::<NoChain>(&log, SpendsAction::List(SpendQuery::default()), None).expect("list");
    let json = outcome.result.to_json();
    assert_eq!(json.get_str("path"), Some("/state/spend-audit.jsonl"));
    assert_eq!(json.get_u64("count"), Some(1));
    assert_eq!(json.get_u64("unreadable_lines"), Some(0));
    let Some(Json::List(rows)) = json.get("spends") else {
        panic!("no rows: {json:?}");
    };
    assert_eq!(rows.len(), 1);
    assert_eq!(rows[0].get_str("status_token"), Some("unresolved"));
    assert_eq!(rows[0].get("chain_reference"), Some(&Json::Null));
    assert_eq!(rows[0].get_str("purpose"), Some("bond"));
    assert_eq!(rows[0].get_u64("amount_mojos"), Some(5));
}

#[test]
fn one_spend_is_told_under_its_name() {
    let log = one_spend();
    let id = log.ledger().records[0].id.clone();
    let outcome =
        run_against::<NoChain>(&log, SpendsAction::Show { id: id.clone() }, None).expect("show");
    let json = outcome.result.to_json();
    let row = json.get("spend").expect("the row");
    assert_eq!(row.get_str("id"), Some(id.as_str()));
    assert_eq!(row.get_str("status_token"), Some("unresolved"));
}

#[test]
fn a_comparison_is_told_flat() {
    let result = SpendsResult::Reconcile {
        clean: false,
        report: ReconcileReport {
            agreed: vec!["a".to_string()],
            missing_on_chain: vec![],
            unrecorded_on_chain: vec!["b".to_string(), "c".to_string()],
            unresolved: vec!["d".to_string()],
        },
    };
    assert_eq!(
        result.to_json(),
        object(vec![
            ("clean", Json::Bool(false)),
            ("agreed", names(&["a"])),
            ("missing_on_chain", names(&[])),
            ("unrecorded_on_chain", names(&["b", "c"])),
            ("unresolved", names(&["d"])),
        ])
    );
}

// ---- the beacon --------------------------------------------------------------------------------

#[test]
fn a_reply_of_the_beacon_is_sent_in_its_envelope() {
    let envelope = |name: &str, value: Json| {
        object(vec![("jsonrpc", text("2.0")), ("id", Json::Uint(4)), (name, value)])
    };
    assert_eq!(
        Reply::Answer(text("done")).into_json(Json::Uint(4)),
        envelope("result", text("done"))
    );
    assert_eq!(
        Reply::Status { installed: false, status: None }.into_json(Json::Uint(4)),
        envelope("result", object(vec![("installed", Json::Bool(false))]))
    );
    assert_eq!(
        Reply::Status { installed: true, status: Some(text("ok")) }.into_json(Json::Uint(4)),
        envelope("result", object(vec![("installed", Json::Bool(true)), ("status", text("ok"))]))
    );
    let refused = Reply::Refused {
        code: ErrorCode::InvalidParams,
        message: "which channel?".to_string(),
    };
    let refused = refused.into_json(Json::Uint(4));
    let error = refused.get("error").expect("an error");
    assert_eq!(error.get("code"), Some(&Json::Int(-32602)));
    assert_eq!(error.get_str("message"), Some("which channel?"));
}

// ---- owners on Windows -------------------------------------------------------------------------

#[test]
fn the_owner_is_asked_for_with_quotes_doubled() {
    assert_eq!(
        owner_ps_command("C:\\it's"),
        "(Get-Acl -LiteralPath 'C:\\it''s').GetOwner([System.Security.Principal.SecurityIdentifier]).Value"
    );
}

#[test]
fn an_owner_is_a_sid_or_nothing() {
    assert_eq!(parse_owner_sid(" S-1-5-18\r\n").as_deref(), Some("S-1-5-18"));
    assert_eq!(parse_owner_sid("NT AUTHORITY\\SYSTEM"), None);
    assert_eq!(parse_owner_sid(""), None);
}

#[test]
fn a_fresh_directory_is_granted_to_its_maker_in_full() {
    assert_eq!(
        windows_fresh_grant_args("D", Some("S-1-5-21-7")),
        vec![
            "D",
            "/inheritance:r",
            "/grant:r",
            "*S-1-5-18:(OI)(CI)F",
            "/grant:r",
            "*S-1-5-32-544:(OI)(CI)F",
            "/grant:r",
            "*S-1-5-21-7:(OI)(CI)F",
        ]
    );
    assert_eq!(windows_fresh_grant_args("D", None).len(), 6);
}
