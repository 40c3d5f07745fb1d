use dig_node_service::config::Config;
use dig_node_service::error::{Error, ErrorKind};
use dig_node_service::json::Json;
use dig_node_service::log::{Level, LogLine};
use dig_node_service::net::{Endpoint, Ip};
use dig_node_service::server::access::{ReadOrigin, RequestProvenance};
use dig_node_service::server::collateral::{
    bootstrap_line, census_pass_lines, collateral_epoch_answer, log_census_observation,
    retention_line, round_interval_ms, spawn_collateral_census, CensusObservation, CensusPass,
    CensusStep, CurrentEpoch, Excluded, PutOutcome, StoredEpoch,
};
use dig_node_service::server::content::{
    error_response, index_read, not_found, resource_read, serve_index, serve_miss, serve_resource,
    served_response, MissStep, Page, PlaintextOutcome, Response, ServeProvenance, ServeStep, Shown,
    StorePath,
};
use dig_node_service::server::frames::PeerTier;
use dig_node_service::server::listen::{
    after_bind, bring_up_local_https, dig_local_off, ephemeral_dir_name, ephemeral_token,
    listening_line, resolve_state_dir_and_token, serve_with_shutdown, spawn_https_listener,
    tls_root_unknown, BringUp, Door, TokenPlace, TokenSearch,
};
use dig_node_service::server::mirror::{
    begin_round, end_round, funding_reading, log_mirror_pass, spawn_mirror_passes, Bond,
    FundingReading, HeldMirror, MirrorPass, MirrorStart, PassError, PassReport, RoundStep,
    SpendCapability,
};

fn header<'a>(r: &'a Response, name: &str) -> Option<&'a str> {
    r.headers
        .iter()
        .find(|(k, _)| k.eq_ignore_ascii_case(name))
        .map(|(_, v)| v.as_str())
}

// ---- content -----------------------------------------------------------------------------------

fn store_path(resource: &str) -> StorePath {
    StorePath {
        store_id: "ab".repeat(32),
        root: None,
        resource: resource.to_string(),
    }
}

fn provenance(tier: PeerTier) -> ServeProvenance {
    ServeProvenance {
        verified: true,
        source: "local".to_string(),
        peer_tier: tier,
        owner_puzzle_hash: None,
        generation: None,
    }
}

fn plain_bytes() -> Shown {
    Shown {
        content_type: "application/octet-stream".to_string(),
        page: None,
    }
}

#[test]
fn served_response_reports_both_peer_tier_wire_values() {
    let sp = store_path("data.bin");
    for (tier, expected) in [
        (PeerTier::Attached, "attached"),
        (PeerTier::Unattached, "unattached"),
    ] {
        let resp = served_response(
            &sp,
            "data.bin",
            b"payload".to_vec(),
            &"cd".repeat(32),
            provenance(tier),
            plain_bytes(),
        );
        assert_eq!(
            header(&resp, "X-Dig-Peer-Tier"),
            Some(expected),
            "{tier:?} must serialize as {expected:?} on the wire"
        );
        assert_eq!(
            header(&resp, "X-Dig-Source"),
            Some("local"),
            "{tier:?}: the serve source is the control and must not vary"
        );
    }
}

#[test]
fn a_served_resource_is_described() {
    let sp = store_path("data.bin");
    let root = "cd".repeat(32);
    let resp = served_response(
        &sp,
        "",
        b"payload".to_vec(),
        &root,
        ServeProvenance {
            owner_puzzle_hash: Some("feed".to_string()),
            generation: Some(4),
            ..provenance(PeerTier::Attached)
        },
        plain_bytes(),
    );
    assert_eq!(resp.status, 200);
    assert_eq!(resp.body, b"payload");
    assert_eq!(header(&resp, "X-Dig-Verified"), Some("true"));
    assert_eq!(header(&resp, "X-Dig-Root"), Some(root.as_str()));
    assert_eq!(
        header(&resp, "X-Dig-Capsule"),
        Some(format!("{}:{root}", "ab".repeat(32)).as_str())
    );
    assert_eq!(header(&resp, "X-Dig-Resource-Key"), Some("index.html"));
    assert_eq!(header(&resp, "X-Dig-Owner-Puzzle-Hash"), Some("feed"));
    assert_eq!(header(&resp, "X-Dig-Generation"), Some("4"));
    assert_eq!(header(&resp, "X-Content-Type-Options"), Some("nosniff"));
    assert!(header(&resp, "content-security-policy").is_none());
}

#[test]
fn what_is_not_known_is_left_out() {
    let resp = served_response(
        &store_path("a"),
        "a",
        vec![1],
        "r",
        provenance(PeerTier::Attached),
        plain_bytes(),
    );
    assert!(header(&resp, "X-Dig-Owner-Puzzle-Hash").is_none());
    assert!(header(&resp, "X-Dig-Generation").is_none());
}

#[test]
fn a_page_is_served_under_its_policy() {
    let resp = served_response(
        &store_path("index.html"),
        "index.html",
        b"<html>".to_vec(),
        "r",
        provenance(PeerTier::Attached),
        Shown {
            content_type: "text/html; charset=utf-8".to_string(),
            page: Some(Page {
                policy: "default-src 'self'".to_string(),
                bytes: b"<html><base>".to_vec(),
            }),
        },
    );
    assert_eq!(resp.body, b"<html><base>");
    assert_eq!(
        header(&resp, "content-security-policy"),
        Some("default-src 'self'")
    );
}

#[test]
fn a_header_that_cannot_be_sent_is_an_error() {
    let resp = served_response(
        &store_path("a\nb"),
        "a\nb",
        vec![1],
        "r",
        provenance(PeerTier::Attached),
        plain_bytes(),
    );
    assert_eq!(resp.status, 500);
    assert!(resp.headers.is_empty() && resp.body.is_empty());
    let tabbed = served_response(
        &store_path("a\tb"),
        "a\tb",
        vec![1],
        "r",
        provenance(PeerTier::Attached),
        plain_bytes(),
    );
    assert_eq!(tabbed.status, 200);
}

#[test]
fn errors_are_plain_text() {
    let resp = not_found();
    assert_eq!(resp.status, 404);
    assert_eq!(resp.body, b"404: not found");
    assert_eq!(
        header(&resp, "content-type"),
        Some("text/plain; charset=utf-8")
    );
    assert_eq!(error_response(502, "x").body, b"502: x");
}

fn served(bytes: &[u8]) -> PlaintextOutcome {
    PlaintextOutcome::Served {
        bytes: bytes.to_vec(),
        root_hex: "r".to_string(),
        provenance: provenance(PeerTier::Attached),
    }
}

#[test]
fn what_is_not_sure_is_not_served() {
    assert!(matches!(
        serve_resource(served(b"x")),
        ServeStep::Serve { .. }
    ));
    match serve_resource(PlaintextOutcome::RootError {
        message: "no anchor".to_string(),
    }) {
        ServeStep::Respond(r) => {
            assert_eq!(r.status, 502);
            assert_eq!(r.body, b"502: no anchor");
        }
        other => panic!("{other:?}"),
    }
    match serve_resource(PlaintextOutcome::Unreadable {
        message: "m".to_string(),
    }) {
        ServeStep::Respond(r) => assert_eq!(r.status, 502),
        other => panic!("{other:?}"),
    }
    match serve_resource(PlaintextOutcome::InvalidParams {
        message: "m".to_string(),
    }) {
        ServeStep::Respond(r) => assert_eq!(r.status, 400),
        other => panic!("{other:?}"),
    }
    match serve_resource(PlaintextOutcome::NotFound {
        root_hex: "r".to_string(),
    }) {
        ServeStep::Miss { root_hex } => assert_eq!(root_hex, "r"),
        other => panic!("{other:?}"),
    }
}

#[test]
fn the_default_view_stands_in_for_routes_alone() {
    let route = store_path("about");
    let known = vec!["about".to_string()];
    let other = vec!["index.html".to_string()];
    assert!(matches!(
        serve_miss(&route, false, None),
        MissStep::ReadIndex
    ));
    assert!(matches!(
        serve_miss(&route, false, Some(&other)),
        MissStep::ReadIndex
    ));
    assert!(matches!(
        serve_miss(&route, false, Some(&known)),
        MissStep::Respond(_)
    ));
    assert!(matches!(
        serve_miss(&store_path("app.js"), true, None),
        MissStep::Respond(_)
    ));
    assert!(matches!(
        serve_index(served(b"<html>")),
        ServeStep::Serve { .. }
    ));
    match serve_index(PlaintextOutcome::RootError {
        message: "m".to_string(),
    }) {
        ServeStep::Respond(r) => assert_eq!(r.status, 404),
        other => panic!("{other:?}"),
    }
}

#[test]
fn a_stand_in_is_read_on_the_same_behalf() {
    let sp = store_path("about");
    let first = resource_read(&sp, ReadOrigin::Peer, RequestProvenance::CrossSite);
    assert_eq!(first.root, "");
    assert_eq!(first.resource, "about");
    let second = index_read(&sp, "beef", first.origin, first.provenance);
    assert_eq!(second.root, "beef");
    assert_eq!(second.resource, "index.html");
    assert_eq!(second.origin, ReadOrigin::Peer);
    assert_eq!(second.provenance, RequestProvenance::CrossSite);
}

// ---- starting ----------------------------------------------------------------------------------

fn refused(kind: ErrorKind) -> Error {
    Error::new(kind, "denied".to_string())
}

#[test]
fn a_remote_bind_is_refused_unless_it_was_allowed() {
    let mut config = Config {
        host: Some(Ip::V4(0, 0, 0, 0)),
        ..Config::default()
    };
    let e = serve_with_shutdown(&config, true).unwrap_err();
    assert_eq!(e.kind(), ErrorKind::InvalidInput);
    config.allow_remote = true;
    let plan = serve_with_shutdown(&config, true).unwrap();
    assert_eq!(plan.doors.len(), 2);
    assert_eq!(plan.doors[0].1.to_text(), "0.0.0.0:9778");
    assert_eq!(plan.doors[1].0, Door::DigLocal);
}

#[test]
fn the_default_start_opens_three_doors() {
    let plan = serve_with_shutdown(&Config::default(), true).unwrap();
    let shown: Vec<String> = plan.doors.iter().map(|d| d.1.to_text()).collect();
    assert_eq!(shown, vec!["127.0.0.1:9778", "[::1]:9778", "127.0.0.2:80"]);
    assert_eq!(
        plan.steps,
        vec![
            BringUp::CollateralRecords,
            BringUp::CollateralCensus,
            BringUp::MirrorPasses {
                live_broadcast: false
            },
            BringUp::MirrorPointers,
            BringUp::PeerNetwork,
            BringUp::BondVerifier,
            BringUp::LoopProbe,
            BringUp::SelfHeal,
            BringUp::WalletListener,
        ]
    );
}

#[test]
fn without_chain_and_peers_little_is_brought_up() {
    let config = Config {
        enable_chain_sync: false,
        ..Config::default()
    };
    let plan = serve_with_shutdown(&config, false).unwrap();
    assert_eq!(
        plan.steps,
        vec![
            BringUp::CollateralRecords,
            BringUp::LoopProbe,
            BringUp::SelfHeal,
            BringUp::WalletListener,
        ]
    );
}

#[test]
fn only_the_required_door_ends_the_start() {
    let addr = Endpoint {
        ip: Ip::V4(127, 0, 0, 1),
        port: 9778,
    };
    let e = after_bind(Door::Localhost, &addr, Err(refused(ErrorKind::AddrInUse))).unwrap_err();
    assert_eq!(e.kind(), ErrorKind::AddrInUse);
    assert_eq!(e.to_text(), "dig-node: cannot bind 127.0.0.1:9778: denied");
    assert!(after_bind(Door::Localhost, &addr, Ok(())).unwrap().is_none());
    let v6 = after_bind(Door::Ipv6, &addr, Err(refused(ErrorKind::Other)))
        .unwrap()
        .unwrap();
    assert_eq!(v6.level, Level::Warn);
    assert!(v6.to_text().contains("continuing IPv4-only"));
    assert!(after_bind(Door::Ipv6, &addr, Ok(())).unwrap().is_none());
    let on = after_bind(Door::DigLocal, &addr, Ok(())).unwrap().unwrap();
    assert_eq!(
        on.to_text(),
        "INFO bare http://dig.local enabled addr=127.0.0.1:9778"
    );
    let off = after_bind(
        Door::DigLocal,
        &addr,
        Err(refused(ErrorKind::PermissionDenied)),
    )
    .unwrap()
    .unwrap();
    assert_eq!(off.level, Level::Warn);
    assert!(off.to_text().ends_with("addr=127.0.0.1:9778 error=denied"));
}

#[test]
fn what_listens_is_told() {
    let config = Config::default();
    let plan = serve_with_shutdown(&config, true).unwrap();
    let line = listening_line(&config, "1.2.3", &plan.doors);
    assert_eq!(
        line.to_text(),
        "INFO dig-node (local-node) listening version=1.2.3 \
         addrs=http://127.0.0.1:9778, http://[::1]:9778, http://dig.local (no port) \
         upstream=https://rpc.dig.net extension_host=127.0.0.1:9778"
    );
    assert!(dig_local_off(&config).is_none());
    let quiet = Config {
        dig_local: false,
        ..Config::default()
    };
    assert_eq!(dig_local_off(&quiet).unwrap().level, Level::Debug);
    assert!(bring_up_local_https(&quiet).is_empty());
}

#[test]
fn the_secure_doors_are_best_effort() {
    let doors = bring_up_local_https(&Config::default());
    let shown: Vec<String> = doors.iter().map(|d| d.to_text()).collect();
    assert_eq!(shown, vec!["127.0.0.2:443", "[::1]:443"]);
    assert_eq!(
        spawn_https_listener(&doors[0], Ok(())).to_text(),
        "INFO HTTPS (https://dig.local) listening addr=127.0.0.2:443"
    );
    let line = spawn_https_listener(&doors[1], Err(refused(ErrorKind::PermissionDenied)));
    assert_eq!(line.level, Level::Warn);
    assert!(line.to_text().ends_with("addr=[::1]:443 error=denied"));
    assert_eq!(tls_root_unknown("e").level, Level::Warn);
}

#[test]
fn a_token_is_kept_in_a_secured_directory_or_not_at_all() {
    let kept = resolve_state_dir_and_token(
        TokenSearch::Service(Ok(("/s".to_string(), Ok("t".to_string())))),
        "r",
    );
    assert!(matches!(kept, TokenPlace::Kept { dir, token } if dir == "/s" && token == "t"));
    let unsecured = resolve_state_dir_and_token(
        TokenSearch::Service(Err(refused(ErrorKind::PermissionDenied))),
        "run it elevated",
    );
    match unsecured {
        TokenPlace::Ephemeral { line } => assert!(line
            .to_text()
            .ends_with("error=denied remedy=run it elevated")),
        TokenPlace::Kept { .. } => panic!("an unsecured directory holds no token"),
    }
    let unwritable = resolve_state_dir_and_token(
        TokenSearch::Service(Ok(("/s".to_string(), Err(refused(ErrorKind::Other))))),
        "r",
    );
    assert!(matches!(unwritable, TokenPlace::Ephemeral { .. }));
    let cli = resolve_state_dir_and_token(
        TokenSearch::Other("/d".to_string(), Ok("t".to_string())),
        "r",
    );
    assert!(matches!(cli, TokenPlace::Kept { .. }));
    let cli = resolve_state_dir_and_token(
        TokenSearch::Other("/d".to_string(), Err(refused(ErrorKind::Other))),
        "r",
    );
    assert!(matches!(cli, TokenPlace::Ephemeral { .. }));
    assert_eq!(ephemeral_dir_name(42), "dig-node-control-token-42");
    assert_eq!(ephemeral_token(Ok("t".to_string())), "t");
    assert_eq!(ephemeral_token(Err(refused(ErrorKind::Other))), "");
}

// ---- collateral epochs -------------------------------------------------------------------------

fn epoch_params(value: Json) -> Json {
    Json::Object(vec![("epoch".to_string(), value)])
}

#[test]
fn a_question_without_an_epoch_looks_nothing_up() {
    let lookup = |_: u64| -> StoredEpoch { panic!("nothing may be looked up") };
    for params in [
        Json::Null,
        epoch_params(Json::Uint(0)),
        epoch_params(Json::Int(-1)),
        epoch_params(Json::Text("3".to_string())),
    ] {
        let answer = collateral_epoch_answer(Some(&params), &lookup);
        assert_eq!(answer.get_str("reason"), Some("invalid_epoch"));
        assert_eq!(answer.get("record"), Some(&Json::Null));
    }
    assert_eq!(
        collateral_epoch_answer(None, &lookup).get_str("detail"),
        Some("params.epoch is required and is a one-based epoch number")
    );
}

#[test]
fn each_answer_without_a_record_says_why() {
    let params = epoch_params(Json::Uint(3));
    let found = |interpretable: bool, record: Result<Json, String>| StoredEpoch::Found {
        interpretable,
        protocol_version: 9,
        record,
    };
    let behind = collateral_epoch_answer(Some(&params), &|_: u64| found(false, Ok(Json::Null)));
    assert_eq!(behind.get_str("reason"), Some("unimplemented_ruleset"));
    assert_eq!(behind.get_u64("protocol_version"), Some(9));
    let absent = collateral_epoch_answer(Some(&params), &|_: u64| StoredEpoch::Absent);
    assert_eq!(absent.get_str("reason"), Some("not_recorded"));
    let broken = collateral_epoch_answer(Some(&params), &|_: u64| StoredEpoch::Unreadable);
    assert_eq!(broken.get_str("reason"), Some("record_unreadable"));
    let unwritable =
        collateral_epoch_answer(Some(&params), &|_: u64| found(true, Err("nan".to_string())));
    assert_eq!(unwritable.get_str("detail"), Some("nan"));
    let given = collateral_epoch_answer(Some(&params), &|n: u64| found(true, Ok(Json::Uint(n))));
    assert_eq!(given.get_u64("record"), Some(3));
    assert!(given.get("reason").is_none());
}

#[test]
fn keeping_the_record_is_told() {
    assert_eq!(
        bootstrap_line("/r", Ok(PutOutcome::Written))
            .unwrap()
            .to_text(),
        "INFO recorded the genesis collateral epoch path=/r"
    );
    assert!(bootstrap_line("/r", Ok(PutOutcome::AlreadyPresent)).is_none());
    let conflict = bootstrap_line(
        "/r",
        Ok(PutOutcome::Conflict {
            held_protocol_version: 2,
        }),
    )
    .unwrap();
    assert_eq!(conflict.level, Level::Warn);
    assert!(conflict.to_text().ends_with("held_protocol_version=2"));
    assert!(bootstrap_line("/r", Err(refused(ErrorKind::Other)))
        .unwrap()
        .to_text()
        .ends_with("error=denied"));
    assert!(retention_line("KeepLast(4)", Ok(0)).is_none());
    assert!(retention_line("KeepLast(4)", Ok(3))
        .unwrap()
        .to_text()
        .ends_with("dropped=3 policy=KeepLast(4)"));
    assert_eq!(
        retention_line("p", Err(refused(ErrorKind::Other)))
            .unwrap()
            .level,
        Level::Warn
    );
}

fn observation(epoch: u64) -> CensusObservation {
    CensusObservation {
        epoch,
        census_height: 100,
        stores: 0,
        examined: 7,
        excluded: Excluded {
            foreign_puzzle: 7,
            unreadable: 0,
            unattributed: 0,
            wrong_epoch: 0,
            not_yet_created: 0,
            spent_by_census_height: 0,
            undated: 0,
            block_reward: 0,
            below_requirement_unauthenticated: 0,
            superseded: 0,
        },
    }
}

#[test]
fn a_count_of_nothing_says_why() {
    let line = log_census_observation(&observation(3)).to_text();
    assert!(line.contains("epoch=3 census_height=100 stores=0 examined=7"));
    assert!(line.contains("excluded_foreign_puzzle=7"));
    assert!(line.ends_with("excluded_superseded=0"));
}

#[test]
fn a_round_of_the_census() {
    assert_eq!(
        spawn_collateral_census(CurrentEpoch::Final(4)),
        CensusStep::CatchUp { target: 4 }
    );
    assert_eq!(
        spawn_collateral_census(CurrentEpoch::Undecided),
        CensusStep::Sleep
    );
    assert_eq!(round_interval_ms(), 600_000);
    let lines = census_pass_lines(
        4,
        &CensusPass::Done {
            recorded: vec![observation(2), observation(3)],
            superseded: Some(observation(4)),
            stopped: Some("BehindFinalityDepth".to_string()),
        },
    );
    let levels: Vec<Level> = lines.iter().map(|l| l.level).collect();
    assert_eq!(
        levels,
        vec![
            Level::Info,
            Level::Info,
            Level::Warn,
            Level::Info,
            Level::Warn
        ]
    );
    assert!(lines[4]
        .to_text()
        .ends_with("target_epoch=4 reason=BehindFinalityDepth"));
    let lines = census_pass_lines(4, &CensusPass::NoSource("offline".to_string()));
    assert_eq!(
        lines[0].to_text(),
        "WARN no chain source for the collateral census; the requirement stays unknown error=offline"
    );
    let lines = census_pass_lines(4, &CensusPass::Aborted("panicked".to_string()));
    assert_eq!(lines.len(), 1);
}

// ---- the collateral rounds ---------------------------------------------------------------------

fn empty_report() -> PassReport {
    PassReport {
        reclaimed: Vec::new(),
        created: Vec::new(),
        reclaim_failures: Vec::new(),
        stopped_at: None,
        states: Vec::new(),
        locked_dig_base_units: 0,
    }
}

fn rendered(report: &PassReport) -> String {
    let lines: Vec<String> = log_mirror_pass(report, 104)
        .iter()
        .filter(|l| l.level != Level::Debug)
        .map(LogLine::to_text)
        .collect();
    lines.join("\n")
}

#[test]
fn a_create_that_failed_is_logged_with_its_store_root_and_cause() {
    let mut report = empty_report();
    report.created = vec![Bond::new("aaaa1111", "bbbb2222")];
    report.stopped_at = Some((
        Bond::new("4e904b3f", "6b420246"),
        PassError::Wallet("Access is denied. (os error 5)".to_string()),
    ));

    let line = rendered(&report);

    for field in [
        "WARN",
        "4e904b3f",
        "6b420246",
        "the operator wallet could not act: Access is denied. (os error 5)",
    ] {
        assert!(
            line.contains(field),
            "a failed create is silent about {field}: {line:?}"
        );
    }
}

#[test]
fn a_reclaim_that_failed_is_logged_with_its_coin_and_cause() {
    let mut report = empty_report();
    report.reclaim_failures = vec![(
        HeldMirror {
            coin_id: "c0117777".to_string(),
            store_id: "5e5e5e5e".to_string(),
            root: "7a7a7a7a".to_string(),
            epoch: 103,
            collateral_dig_base_units: 1010,
        },
        PassError::Chain("no peer answered".to_string()),
    )];

    let line = rendered(&report);

    for field in [
        "WARN",
        "c0117777",
        "5e5e5e5e",
        "7a7a7a7a",
        "the chain source could not be read: no peer answered",
    ] {
        assert!(
            line.contains(field),
            "a failed reclaim is silent about {field}: {line:?}"
        );
    }
}

#[test]
fn a_pass_with_no_failures_emits_no_warning() {
    let mut report = empty_report();
    report.created = vec![Bond::new("aaaa1111", "bbbb2222")];

    let line = rendered(&report);

    assert!(
        !line.contains("WARN"),
        "a clean pass warned, so the warning carries no information: {line:?}"
    );
    assert_eq!(
        log_mirror_pass(&report, 104)[0].to_text(),
        "DEBUG mirror pass complete epoch=104 bonds=0 locked_dig_base_units=0 reclaimed=0 created=1"
    );
}

#[test]
fn the_rounds_run_for_the_signers_key() {
    let signer = [1u8; 32];
    let other = [2u8; 32];
    match spawn_mirror_passes(Some(signer), &|| Some(other), SpendCapability::Available) {
        MirrorStart::Run { owner, line } => {
            assert_eq!(owner, signer);
            assert_eq!(line.level, Level::Info);
        }
        MirrorStart::Stop { .. } => panic!("there is a signer"),
    }
    match spawn_mirror_passes(None, &|| Some(other), SpendCapability::WalletUnavailable) {
        MirrorStart::Run { owner, line } => {
            assert_eq!(owner, other);
            assert_eq!(line.level, Level::Warn);
        }
        MirrorStart::Stop { .. } => panic!("there is an owner"),
    }
    match spawn_mirror_passes(None, &|| None, SpendCapability::BroadcastDisabled) {
        MirrorStart::Stop { line } => {
            assert!(line.to_text().ends_with("capability=BroadcastDisabled"))
        }
        MirrorStart::Run { .. } => panic!("there is no one to run for"),
    }
}

#[test]
fn a_round_that_observed_nothing_publishes_nothing() {
    let (published, lines) = end_round(&MirrorPass::Done(empty_report()), 104);
    assert!(published);
    assert_eq!(lines.len(), 1);
    let (published, lines) =
        end_round(&MirrorPass::Failed(PassError::Chain("x".to_string())), 104);
    assert!(!published);
    assert!(lines[0]
        .to_text()
        .ends_with("error=the chain source could not be read: x"));
    let (published, lines) = end_round(&MirrorPass::NoSource("offline".to_string()), 104);
    assert!(!published);
    assert_eq!(
        lines[0].to_text(),
        "WARN no chain source for the mirror pass this round error=offline"
    );
}

#[test]
fn a_round_begins_with_the_epoch() {
    assert_eq!(
        begin_round(CurrentEpoch::Final(104)),
        RoundStep::Observe { epoch: 104 }
    );
    assert_eq!(begin_round(CurrentEpoch::Undecided), RoundStep::Sleep);
    assert_eq!(
        funding_reading(Some(5), false),
        FundingReading::Balance {
            base_units: 5,
            synced: false
        }
    );
    assert_eq!(funding_reading(None, true), FundingReading::CannotSay);
}

#[test]
fn lines_about_the_rounds_are_filed_under_their_own_target() {
    let (_, lines) = end_round(&MirrorPass::NoSource("offline".to_string()), 3);
    assert_eq!(lines[0].target.as_deref(), Some("mirror"));
    assert_eq!(tls_root_unknown("e").target, None);
}
