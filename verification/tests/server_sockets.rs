use dig_node_service::json::Json;
use dig_node_service::meta::ErrorCode;
use dig_node_service::server::access::MethodTraits;
use dig_node_service::server::frames::{
    event_frame, health, peer_tier_status, public_health, public_methods, rpc_error, rpc_result,
    status_heartbeat, status_push_frame, status_snapshot, tip_frame, ws_err, ws_passed_error,
    ws_result, ws_wallet_err, NodeFacts, PeerTier,
};
use dig_node_service::server::ws::{
    ws_dispatch, ws_from_jsonrpc, ws_handle_text, ws_wallet_answer, StatusAction, StatusEvent,
    StatusSession, SyncLifecycle, SyncStatus, WalletAction, WalletEvent, WalletSession, WsStep,
    WS_HEARTBEAT_INTERVAL_MS, WS_PONG_TIMEOUT_MS,
};

const MASTER: &str = "master-token-value";
const PAIRED: &str = "paired-token-value";

const READ: MethodTraits = MethodTraits {
    open_read: false,
    master_only: false,
    wallet_gated: false,
};

fn text(s: &str) -> Json {
    Json::Text(s.to_string())
}

fn object(entries: Vec<(&str, Json)>) -> Json {
    Json::Object(
        entries
            .into_iter()
            .map(|(k, v)| (k.to_string(), v))
            .collect(),
    )
}

fn facts() -> NodeFacts<'static> {
    NodeFacts {
        service: "dig-node",
        version: "1.2.3",
        commit: "abc",
        addr: "127.0.0.1:9778",
        upstream: "https://rpc.dig.net",
        cache_dir: "/home/u/.dig",
        cache_cap_bytes: 10,
        cache_used_bytes: 3,
        cache_shared: true,
        sync_available: true,
        peer_tier: PeerTier::Unattached,
    }
}

// ---- frames ------------------------------------------------------------------------------------

#[test]
fn health_peer_tier_status_reports_both_directions() {
    assert_eq!(
        peer_tier_status(PeerTier::Attached),
        object(vec![("attached", Json::Bool(true))]),
        "an attached engine must report attached: true"
    );
    assert_eq!(
        peer_tier_status(PeerTier::Unattached),
        object(vec![("attached", Json::Bool(false))]),
        "no engine must report attached: false"
    );
}

#[test]
fn an_envelope_carries_the_id() {
    let answer = rpc_result(Json::Uint(7), text("ok"));
    assert_eq!(answer.get("id"), Some(&Json::Uint(7)));
    assert_eq!(answer.get_str("result"), Some("ok"));
    assert_eq!(answer.get_str("jsonrpc"), Some("2.0"));
    let error = rpc_error(Json::Null, ErrorCode::Unauthorized, "no");
    let body = error.get("error").unwrap();
    assert_eq!(body.get("code"), Some(&Json::Int(-32030)));
    assert_eq!(body.get_str("message"), Some("no"));
    assert_eq!(
        body.get("data").and_then(|d| d.get_str("code")),
        Some("UNAUTHORIZED")
    );
}

#[test]
fn socket_frames_say_what_they_are() {
    let ok = ws_result(Json::Uint(1), Json::Null);
    assert_eq!(ok.get_str("type"), Some("response"));
    assert_eq!(ok.get("ok"), Some(&Json::Bool(true)));
    let err = ws_err(Json::Uint(1), ErrorCode::InvalidRequest, "missing method");
    assert_eq!(err.get("ok"), Some(&Json::Bool(false)));
    assert_eq!(
        err.get("error"),
        Some(&object(vec![
            ("code", Json::Int(-32600)),
            ("message", text("missing method"))
        ]))
    );
    let wallet = ws_wallet_err(Json::Uint(1), 404, "no such coin");
    assert_eq!(
        wallet.get("error").and_then(|e| e.get("code")),
        Some(&Json::Int(404))
    );
    let passed = ws_passed_error(Json::Null, text("as it came"));
    assert_eq!(passed.get_str("error"), Some("as it came"));
    assert_eq!(event_frame(text("e")).get_str("event"), Some("e"));
    assert_eq!(tip_frame(text("t")).get_str("type"), Some("tip"));
    let pushed = status_push_frame(&SyncStatus {
        state: SyncLifecycle::Synced,
        peak_height: Some(5),
        target_height: None,
    });
    assert_eq!(pushed.get_str("state"), Some("synced"));
    assert_eq!(pushed.get("peak_height"), Some(&Json::Uint(5)));
    assert_eq!(pushed.get("target_height"), Some(&Json::Null));
    assert_eq!(pushed.get_str("type"), Some("sync_status"));
}

#[test]
fn the_liveness_surfaces_do_not_drift_apart() {
    let methods = vec!["dig.health".to_string()];
    let h = health(&facts(), &methods);
    let s = status_snapshot(&facts());
    let b = status_heartbeat(&facts(), 99);
    for key in [
        "service",
        "version",
        "commit",
        "mode",
        "addr",
        "upstream",
        "cache",
        "sync",
        "peer_tier",
    ] {
        assert!(h.get(key).is_some(), "{key}");
        assert_eq!(h.get(key), s.get(key));
        assert_eq!(h.get(key), b.get(key));
    }
    assert_eq!(h.get_str("status"), Some("ok"));
    assert_eq!(s.get_str("type"), Some("status"));
    assert_eq!(b.get_str("type"), Some("heartbeat"));
    assert_eq!(b.get_u64("ts"), Some(99));
}

#[test]
fn a_stranger_learns_nothing_of_the_machine() {
    let methods = vec!["dig.health".to_string()];
    let public = public_health("1.2.3", &methods);
    for key in ["addr", "upstream", "cache", "commit"] {
        assert!(public.get(key).is_none(), "{key}");
    }
    assert_eq!(
        public.get("methods"),
        Some(&Json::List(vec![text("dig.health")]))
    );
    assert_eq!(
        public_methods(&methods),
        object(vec![("methods", Json::List(vec![text("dig.health")]))])
    );
}

// ---- requests ----------------------------------------------------------------------------------

fn frame(method: &str, token: &str) -> Json {
    object(vec![
        ("type", text("request")),
        ("id", Json::Uint(1)),
        ("method", text(method)),
        ("token", text(token)),
    ])
}

fn is_paired(t: &str) -> bool {
    t == PAIRED
}

#[test]
fn what_is_no_request_is_ignored() {
    assert!(matches!(
        ws_handle_text(None, READ, MASTER, &is_paired),
        WsStep::Ignore
    ));
    let keepalive = object(vec![("type", text("keepalive"))]);
    assert!(matches!(
        ws_handle_text(Some(&keepalive), READ, MASTER, &is_paired),
        WsStep::Ignore
    ));
    let untyped = object(vec![("method", text("get_coins"))]);
    assert!(matches!(
        ws_handle_text(Some(&untyped), READ, MASTER, &is_paired),
        WsStep::Wallet { params: None }
    ));
    match ws_handle_text(Some(&object(vec![])), READ, MASTER, &is_paired) {
        WsStep::Refuse { code, message } => {
            assert_eq!(code, ErrorCode::InvalidRequest);
            assert_eq!(message, "missing method");
        }
        _ => panic!("a request names a method"),
    }
}

#[test]
fn a_blank_token_opens_nothing_over_the_socket() {
    for master in [MASTER, ""] {
        let f = frame("control.status", " ");
        assert!(matches!(
            ws_handle_text(Some(&f), READ, master, &is_paired),
            WsStep::Refuse {
                code: ErrorCode::Unauthorized,
                ..
            }
        ));
    }
}

#[test]
fn an_open_read_needs_a_credential_over_the_socket() {
    let open = MethodTraits {
        open_read: true,
        ..READ
    };
    match ws_dispatch("control.wallet.balance", open, None, None, MASTER, &is_paired) {
        WsStep::Refuse { message, .. } => assert_eq!(
            message,
            "control.* requires the local control token or a paired controller token"
        ),
        _ => panic!("refused"),
    }
    assert!(matches!(
        ws_dispatch(
            "control.wallet.balance",
            open,
            None,
            Some(PAIRED),
            MASTER,
            &is_paired
        ),
        WsStep::Control { .. }
    ));
}

#[test]
fn pairing_chat_and_wallet_over_the_socket() {
    assert!(matches!(
        ws_dispatch("pairing.request", READ, None, None, MASTER, &is_paired),
        WsStep::PairingRequest { .. }
    ));
    assert!(matches!(
        ws_dispatch("pairing.poll", READ, None, None, MASTER, &is_paired),
        WsStep::PairingPoll { .. }
    ));
    match ws_dispatch("chat.send", READ, None, None, MASTER, &is_paired) {
        WsStep::Refuse { message, .. } => assert_eq!(
            message,
            "chat.send/chat.poll require the local control token or a paired controller token"
        ),
        _ => panic!("refused"),
    }
    let gated = MethodTraits {
        wallet_gated: true,
        ..READ
    };
    match ws_dispatch("send_xch", gated, None, None, MASTER, &is_paired) {
        WsStep::Refuse { message, .. } => assert_eq!(
            message,
            "this wallet method requires a paired controller token (see `dig-node pair`)"
        ),
        _ => panic!("refused"),
    }
    assert!(matches!(
        ws_dispatch("send_xch", gated, None, Some(PAIRED), MASTER, &is_paired),
        WsStep::Wallet { .. }
    ));
}

#[test]
fn answers_are_handed_on() {
    let failed = object(vec![("error", text("why"))]);
    assert_eq!(ws_from_jsonrpc(&failed), Err(&text("why")));
    let done = object(vec![("result", Json::Uint(1))]);
    assert_eq!(ws_from_jsonrpc(&done), Ok(Some(&Json::Uint(1))));
    assert_eq!(ws_from_jsonrpc(&object(vec![])), Ok(None));
    assert_eq!(
        ws_wallet_answer(200, "x".to_string(), None),
        Ok(Json::Null)
    );
    assert_eq!(
        ws_wallet_answer(400, "x".to_string(), None),
        Err((400, "x".to_string()))
    );
}

// ---- connections -------------------------------------------------------------------------------

#[test]
fn a_half_open_status_connection_is_closed() {
    let (mut s, first) = StatusSession::open(1_000);
    assert_eq!(first, StatusAction::Snapshot);
    assert_eq!(s.on(6_000, StatusEvent::Tick), StatusAction::Heartbeat);
    assert_eq!(
        s.on(1_000 + WS_PONG_TIMEOUT_MS, StatusEvent::Tick),
        StatusAction::Heartbeat
    );
    assert_eq!(
        s.on(1_001 + WS_PONG_TIMEOUT_MS, StatusEvent::Tick),
        StatusAction::CloseAndEnd
    );
    assert_eq!(WS_HEARTBEAT_INTERVAL_MS, 5_000);
}

#[test]
fn any_frame_keeps_a_status_connection() {
    let (mut s, _) = StatusSession::open(0);
    assert_eq!(s.on(15_000, StatusEvent::Frame), StatusAction::Wait);
    assert_eq!(s.on(30_000, StatusEvent::Tick), StatusAction::Heartbeat);
    assert_eq!(s.on(31_000, StatusEvent::Close), StatusAction::CloseAndEnd);
    assert_eq!(s.on(31_000, StatusEvent::Gone), StatusAction::End);
}

fn synced(peak: u32) -> SyncStatus {
    SyncStatus {
        state: SyncLifecycle::Synced,
        peak_height: Some(peak),
        target_height: Some(peak),
    }
}

#[test]
fn the_status_is_pushed_when_it_changes() {
    let (mut s, first) = WalletSession::open(0, Some(synced(5)));
    assert_eq!(first, Some(synced(5)));
    let same = WalletEvent::Sync {
        stop: false,
        reported: Some(synced(5)),
    };
    assert_eq!(s.on(1, same), WalletAction::Forward { push: None });
    let moved = WalletEvent::Sync {
        stop: false,
        reported: Some(synced(6)),
    };
    assert_eq!(
        s.on(2, moved),
        WalletAction::Forward {
            push: Some(synced(6))
        }
    );
    let stop = WalletEvent::Sync {
        stop: true,
        reported: None,
    };
    let gone = SyncStatus {
        state: SyncLifecycle::Disconnected,
        ..synced(6)
    };
    assert_eq!(s.on(3, stop), WalletAction::Forward { push: Some(gone) });
    assert_eq!(s.last, Some(gone));
}

#[test]
fn a_wallet_that_says_nothing_is_at_the_beginning() {
    let (mut s, first) = WalletSession::open(0, None);
    assert!(first.is_none());
    let silent = WalletEvent::Sync {
        stop: false,
        reported: None,
    };
    let beginning = SyncStatus {
        state: SyncLifecycle::Syncing,
        peak_height: None,
        target_height: None,
    };
    assert_eq!(
        s.on(1, silent),
        WalletAction::Forward {
            push: Some(beginning)
        }
    );
}

#[test]
fn the_wallet_connection_outlives_its_events() {
    let (mut s, _) = WalletSession::open(0, None);
    assert_eq!(s.on(1, WalletEvent::SyncLagged), WalletAction::Wait);
    assert!(s.bus_open);
    assert_eq!(s.on(2, WalletEvent::SyncClosed), WalletAction::Wait);
    assert_eq!(s.on(3, WalletEvent::TipClosed), WalletAction::Wait);
    assert!(!s.bus_open && !s.tip_open);
    assert_eq!(s.on(4, WalletEvent::Text), WalletAction::Handle);
    assert_eq!(s.on(5, WalletEvent::Tip), WalletAction::ForwardTip);
    assert_eq!(s.on(6, WalletEvent::Tick), WalletAction::Ping);
    assert_eq!(
        s.on(4 + WS_PONG_TIMEOUT_MS + 1, WalletEvent::Tick),
        WalletAction::CloseAndEnd
    );
    assert_eq!(s.on(7, WalletEvent::Close), WalletAction::CloseAndEnd);
    assert_eq!(s.on(7, WalletEvent::Gone), WalletAction::End);
    assert_eq!(s.on(8, WalletEvent::Frame), WalletAction::Wait);
    assert_eq!(s.last_seen, 8);
}
