use std::cell::RefCell;
use std::collections::HashMap;

use dig_node_service::json::Json;
use dig_node_service::meta::ErrorCode;
use dig_node_service::net::{Endpoint, Ip};
use dig_node_service::server::access::{
    chat_call_authorized, control_ingress_admits, is_gated_chat_method, presented_token,
    presented_wallet_token, provenance_for, read_origin_for, requestor_for, wallet_call_authorized,
    ws_token, MethodTraits, ReadOrigin, RequestProvenance, Requestor,
};
use dig_node_service::server::origin::{
    effective_method, host_guard, is_app_origin, is_local_origin, reflects_origin, ws_status,
    ws_wallet, EXPOSED_DIG_HEADERS,
};
use dig_node_service::server::rpc::{
    after_dispatch, after_relay, rpc, wallet_result_to_jsonrpc, wallet_rpc, wallet_rpc_form,
    AfterDispatch, Caller, Keys, RelayFailure, RpcPlan, RpcStep,
};

const MASTER: &str = "master-token-value";
const PAIRED: &str = "paired-token-value";

/// A bucket per caller that holds `burst` and never fills again.
struct Buckets {
    burst: u32,
    spent: RefCell<HashMap<String, u32>>,
}

impl Buckets {
    fn new(burst: u32) -> Self {
        Buckets {
            burst,
            spent: RefCell::new(HashMap::new()),
        }
    }

    fn check(&self, who: &Requestor) -> bool {
        let key = match who {
            Requestor::Local => "local".to_string(),
            Requestor::Anonymous(ip) => ip.clone(),
        };
        let mut spent = self.spent.borrow_mut();
        let n = spent.entry(key).or_insert(0);
        *n += 1;
        *n <= self.burst
    }
}

fn anon(ip: &str) -> Requestor {
    Requestor::Anonymous(ip.to_string())
}

fn v4(a: u8, b: u8, c: u8, d: u8, port: u16) -> Endpoint {
    Endpoint {
        ip: Ip::V4(a, b, c, d),
        port,
    }
}

fn mapped(hi: u16, lo: u16, port: u16) -> Endpoint {
    Endpoint {
        ip: Ip::V6([0, 0, 0, 0, 0, 0xffff, hi, lo]),
        port,
    }
}

fn text(s: &str) -> Json {
    Json::Text(s.to_string())
}

fn object(entries: Vec<(&str, Json)>) -> Json {
    Json::Object(
        entries
            .into_iter()
            .map(|(k, v)| (k.to_string(), v))
            .collect(),
    )
}

// ---- the door ----------------------------------------------------------------------------------

#[test]
fn an_anonymous_flood_is_refused_at_ingress_once_its_burst_is_spent() {
    let buckets = Buckets::new(3);
    let limiter = |q: &Requestor| buckets.check(q);
    let caller = anon("203.0.113.7");
    for i in 0..3 {
        assert!(
            control_ingress_admits(&limiter, &caller),
            "read {i} is within the burst and must be admitted"
        );
    }
    assert!(
        !control_ingress_admits(&limiter, &caller),
        "the burst is spent: further token-less reads are refused"
    );
}

#[test]
fn one_flooding_source_never_refuses_another() {
    let buckets = Buckets::new(1);
    let limiter = |q: &Requestor| buckets.check(q);
    let abuser = anon("203.0.113.7");
    let bystander = anon("198.51.100.4");
    assert!(control_ingress_admits(&limiter, &abuser));
    assert!(
        !control_ingress_admits(&limiter, &abuser),
        "the abuser's own budget is spent"
    );
    assert!(
        control_ingress_admits(&limiter, &bystander),
        "a different source draws from its own bucket and is untouched"
    );
}

#[test]
fn the_operator_is_never_refused_at_ingress() {
    let buckets = Buckets::new(0);
    let refuses_everything = |q: &Requestor| buckets.check(q);
    for i in 0..64 {
        assert!(
            control_ingress_admits(&refuses_everything, &Requestor::Local),
            "the trusted operator's read {i} must never be throttled at ingress"
        );
    }
    assert!(
        !control_ingress_admits(&refuses_everything, &anon("203.0.113.7")),
        "the same limiter DOES refuse an anonymous caller"
    );
    assert!(
        buckets.spent.borrow().get("local").is_none(),
        "the operator is not counted"
    );
}

#[test]
fn loopback_is_the_operator_and_a_remote_caller_is_not() {
    assert!(
        requestor_for(&v4(127, 0, 0, 1, 9778)).is_local(),
        "a loopback caller is the operator"
    );
    let remote = requestor_for(&v4(203, 0, 113, 7, 9444));
    assert!(
        !remote.is_local(),
        "a remote caller is NOT the operator and is subject to the ingress bound"
    );
    assert_eq!(
        remote,
        anon("203.0.113.7"),
        "and is keyed by its own address"
    );
}

#[test]
fn the_ingress_and_egress_bounds_refuse_with_distinct_codes() {
    assert_ne!(
        ErrorCode::ControlIngressLimited.code(),
        ErrorCode::WalletRateLimited.code(),
        "a shared numeric code would make the two bounds indistinguishable on the wire"
    );
    assert_ne!(
        ErrorCode::ControlIngressLimited.name(),
        ErrorCode::WalletRateLimited.name(),
        "and the stable symbol a client branches on must differ too"
    );
    assert_eq!(ErrorCode::ControlIngressLimited.code(), -32033);
    assert_eq!(
        ErrorCode::ControlIngressLimited.name(),
        "CONTROL_INGRESS_LIMITED"
    );
}

// ---- credentials -------------------------------------------------------------------------------

#[test]
fn chat_gate_classifies_and_authorizes_like_a_control_mutation() {
    let is_paired = |t: &str| t == PAIRED;

    assert!(is_gated_chat_method("chat.send"));
    assert!(is_gated_chat_method("chat.poll"));
    assert!(!is_gated_chat_method("chat.status"));
    assert!(!is_gated_chat_method("dig.getContent"));

    assert!(!chat_call_authorized(None, MASTER, is_paired), "no token");
    assert!(
        !chat_call_authorized(Some("nope"), MASTER, is_paired),
        "wrong token"
    );
    assert!(
        chat_call_authorized(Some(MASTER), MASTER, is_paired),
        "master"
    );
    assert!(
        chat_call_authorized(Some(PAIRED), MASTER, is_paired),
        "paired"
    );

    assert!(
        !chat_call_authorized(Some(""), "", is_paired),
        "blank vs blank"
    );
    assert!(!chat_call_authorized(Some("anything"), "", is_paired));
    assert!(!chat_call_authorized(Some(PAIRED), "", is_paired));
    assert!(!chat_call_authorized(None, "", is_paired));
}

#[test]
fn ws_token_treats_a_blank_token_as_absent() {
    assert_eq!(ws_token(&object(vec![("token", text(""))])), None);
    assert_eq!(ws_token(&object(vec![("token", text("   "))])), None);
    assert_eq!(ws_token(&object(vec![])), None);
    assert_eq!(ws_token(&object(vec![("token", Json::Null)])), None);
    assert_eq!(ws_token(&object(vec![("token", Json::Uint(123))])), None);
    assert_eq!(
        ws_token(&object(vec![("token", text("deadbeef"))])).as_deref(),
        Some("deadbeef")
    );
    assert_eq!(
        ws_token(&object(vec![("token", text("  tok  "))])).as_deref(),
        Some("tok")
    );
}

#[test]
fn the_header_goes_before_the_parameters() {
    let req = object(vec![(
        "params",
        object(vec![("_control_token", text("from-params"))]),
    )]);
    assert_eq!(
        presented_token(Some("from-header"), &req).as_deref(),
        Some("from-header")
    );
    assert_eq!(
        presented_token(Some("  "), &req).as_deref(),
        Some("from-params")
    );
    assert_eq!(presented_token(None, &object(vec![])), None);
    let body = object(vec![("_control_token", text("in-body"))]);
    assert_eq!(
        presented_wallet_token(Some("h"), Some(&body)).as_deref(),
        Some("h")
    );
    assert_eq!(
        presented_wallet_token(Some(""), Some(&body)).as_deref(),
        Some("in-body")
    );
    assert_eq!(presented_wallet_token(None, None), None);
}

#[test]
fn a_paired_controller_does_not_reach_the_master_tier() {
    let is_paired = |t: &str| t == PAIRED;
    let tier = MethodTraits {
        open_read: false,
        master_only: true,
        wallet_gated: true,
    };
    assert!(wallet_call_authorized(tier, Some(MASTER), MASTER, &is_paired));
    assert!(!wallet_call_authorized(tier, Some(PAIRED), MASTER, &is_paired));
    let read = MethodTraits {
        open_read: false,
        master_only: false,
        wallet_gated: false,
    };
    assert!(wallet_call_authorized(read, None, "", &is_paired));
}

#[test]
fn provenance_is_read_on_the_post_path() {
    assert_eq!(
        provenance_for(Some("cross-site")),
        RequestProvenance::CrossSite,
        "a cross-site POST must classify as CrossSite so its landing legs are denied"
    );
    assert_eq!(
        provenance_for(None),
        RequestProvenance::FirstParty,
        "an absent header must be first-party"
    );
    assert_eq!(
        provenance_for(Some("same-origin")),
        RequestProvenance::FirstParty,
        "a same-origin POST still lands"
    );
}

#[test]
fn read_origin_for_classifies_ipv4_mapped_loopback_as_local() {
    // `::ffff:127.0.0.1`
    assert_eq!(
        read_origin_for(&mapped(0x7f00, 0x0001, 9778)),
        ReadOrigin::Local
    );
    assert_eq!(
        read_origin_for(&v4(127, 0, 0, 1, 9778)),
        ReadOrigin::Local
    );
    assert_eq!(
        read_origin_for(&Endpoint {
            ip: Ip::V6([0, 0, 0, 0, 0, 0, 0, 1]),
            port: 9778
        }),
        ReadOrigin::Local
    );
    assert_eq!(
        read_origin_for(&v4(203, 0, 113, 7, 9444)),
        ReadOrigin::Peer
    );
    // `::ffff:203.0.113.7`
    assert_eq!(
        read_origin_for(&mapped(0xcb00, 0x7107, 9444)),
        ReadOrigin::Peer
    );
}

// ---- origins -----------------------------------------------------------------------------------

#[test]
fn tauri_desktop_app_origins_are_allowed_for_cors() {
    for ok in ["tauri://localhost", "https://tauri.localhost"] {
        assert!(
            is_app_origin(ok, None),
            "{ok:?} (Tauri) must be an allowed app origin"
        );
        assert!(
            reflects_origin(ok, "GET", "/health", None),
            "{ok:?} must pass the CORS allow predicate for a content read"
        );
    }
}

#[test]
fn app_origin_allowlist_env_opts_in_extra_origins() {
    let list = Some("app://my-desktop-app , electron://dig ");
    assert!(is_app_origin("app://my-desktop-app", list));
    assert!(is_app_origin("electron://dig", list));
    assert!(!is_app_origin("app://not-listed", list));
    assert!(!is_app_origin("app://my-desktop-app", None));
}

#[test]
fn non_app_origins_are_not_allowed() {
    for bad in [
        "https://evil.example.com",
        "tauri://not-localhost",
        "http://evil.com",
    ] {
        assert!(
            !is_app_origin(bad, None),
            "{bad:?} must NOT be an allowed app origin"
        );
    }
    assert!(!is_app_origin("", Some(" , ;")));
}

#[test]
fn verification_headers_are_exposed_to_cross_origin_readers() {
    for required in [
        "x-dig-verified",
        "x-dig-root",
        "x-dig-inclusion-proof",
        "x-dig-chunk-lens",
    ] {
        assert!(
            EXPOSED_DIG_HEADERS.contains(&required),
            "{required} must be exposed via Access-Control-Expose-Headers"
        );
    }
    assert!(
        EXPOSED_DIG_HEADERS.contains(&"x-dig-peer-tier"),
        "x-dig-peer-tier must be exposed via Access-Control-Expose-Headers"
    );
    for h in EXPOSED_DIG_HEADERS {
        let _ = axum::http::HeaderName::from_static(h);
    }
}

#[test]
fn local_origins_are_reflected_for_cors() {
    for ok in [
        "chrome-extension://abcdefghijklmnop",
        "http://localhost",
        "http://localhost:9778",
        "http://dig.local",
        "http://dig.local:80",
        "http://127.0.0.1:9778",
        "http://127.0.0.2",
        "http://[::1]:9778",
        "http://[::1]",
    ] {
        assert!(
            is_local_origin(ok),
            "{ok:?} must be a reflected local origin"
        );
    }
}

#[test]
fn non_local_origins_are_not_reflected() {
    for bad in [
        "http://evil.example.com",
        "https://localhost",
        "http://",
        "http://dig.local.evil.com",
        "ws://localhost",
        "http://[::2]",
        "",
    ] {
        assert!(!is_local_origin(bad), "{bad:?} must NOT be reflected");
    }
}

#[test]
fn an_app_origin_reads_content_and_nothing_else() {
    let app = "tauri://localhost";
    assert!(reflects_origin(app, "HEAD", "/s/abc/index.html", None));
    assert!(!reflects_origin(app, "POST", "/", None));
    assert!(!reflects_origin(app, "POST", "/get_sync_status", None));
    assert!(!reflects_origin(app, "GET", "/ws", None));
    assert!(!reflects_origin(app, "GET", "/ws/status", None));
    assert!(reflects_origin(app, "GET", "/ws-elsewhere", None));
    assert!(reflects_origin("http://localhost", "POST", "/", None));
}

#[test]
fn a_preflight_is_judged_by_the_method_it_asks_about() {
    assert_eq!(effective_method("OPTIONS", Some("POST")), "POST");
    assert_eq!(effective_method("OPTIONS", Some("GET")), "GET");
    assert_eq!(effective_method("OPTIONS", None), "OPTIONS");
    assert_eq!(effective_method("OPTIONS", Some("")), "OPTIONS");
    assert_eq!(effective_method("OPTIONS", Some("GE T")), "OPTIONS");
    assert_eq!(effective_method("OPTIONS", Some("M-SEARCH")), "M-SEARCH");
    assert_eq!(effective_method("GET", Some("POST")), "GET");
    assert!(!reflects_origin(
        "tauri://localhost",
        &effective_method("OPTIONS", None),
        "/health",
        None
    ));
}

#[test]
fn a_foreign_host_is_misdirected() {
    for ok in [
        None,
        Some(""),
        Some("  "),
        Some("localhost"),
        Some("dig.local:80"),
        Some("127.0.0.2"),
        Some("[::1]:9778"),
        Some("::1"),
    ] {
        assert!(host_guard("GET", ok).is_ok(), "{ok:?}");
    }
    for bad in [
        "evil.example.com",
        "localhost.evil.com",
        "localhost:",
        "localhost:port",
        "0.0.0.0",
        "[::2]",
    ] {
        let turned = host_guard("POST", Some(bad)).unwrap_err();
        assert_eq!(turned.status, 421);
        assert_eq!(turned.code, ErrorCode::InvalidRequest);
        assert!(turned.message.starts_with("dig-node: Host not allowed"));
        assert!(host_guard("OPTIONS", Some(bad)).is_ok());
    }
}

#[test]
fn sockets_open_for_local_origins_alone() {
    assert!(ws_status(None).is_ok());
    assert!(ws_wallet(Some("http://localhost:9778")).is_ok());
    let turned = ws_status(Some("tauri://localhost")).unwrap_err();
    assert_eq!(turned.status, 403);
    assert_eq!(
        turned.message,
        "dig-node: Origin not allowed for /ws/status"
    );
    let turned = ws_wallet(Some("https://evil.example.com")).unwrap_err();
    assert_eq!(turned.message, "dig-node: Origin not allowed for /ws");
}

// ---- requests ----------------------------------------------------------------------------------

const READ: MethodTraits = MethodTraits {
    open_read: false,
    master_only: false,
    wallet_gated: false,
};

fn request(method: &str) -> Json {
    object(vec![
        ("jsonrpc", text("2.0")),
        ("id", Json::Uint(7)),
        ("method", text(method)),
        ("params", object(vec![("x", Json::Uint(1))])),
    ])
}

fn plan<'a>(req: &'a Json, traits: MethodTraits, token: Option<&str>, remote: bool) -> RpcPlan<'a> {
    let caller = Caller {
        peer: if remote {
            v4(203, 0, 113, 7, 9444)
        } else {
            v4(127, 0, 0, 1, 5000)
        },
        control_header: token,
        sec_fetch_site: None,
    };
    let keys = Keys {
        control_token: MASTER,
        token_path: "/var/lib/dig-node/control-token",
        remedy: "Run it elevated.",
        probe_id: "probe-1",
    };
    rpc(
        req,
        traits,
        &caller,
        &keys,
        &|t: &str| t == PAIRED,
        &|_: &Requestor| false,
    )
}

fn refusal<'a>(plan: &'a RpcPlan<'_>) -> Option<(ErrorCode, &'a str)> {
    match &plan.step {
        RpcStep::Refuse { code, message } => Some((*code, message.as_str())),
        _ => None,
    }
}

#[test]
fn a_body_that_is_no_object_is_refused() {
    let batch = Json::List(vec![]);
    let p = plan(&batch, READ, None, false);
    assert_eq!(
        refusal(&p),
        Some((
            ErrorCode::InvalidRequest,
            "dig-node: expected a single JSON-RPC request object"
        ))
    );
    assert!(p.id.is_none());
}

#[test]
fn the_shell_answers_what_the_node_is() {
    let discover = request("rpc.discover");
    let health = request("dig.health");
    let methods = request("dig.methods");
    let epoch = request("dig.getCollateralEpoch");
    let pair = request("pairing.request");
    let poll = request("pairing.poll");
    assert!(matches!(
        plan(&discover, READ, None, true).step,
        RpcStep::Discover
    ));
    assert!(matches!(
        plan(&health, READ, None, true).step,
        RpcStep::Health
    ));
    assert!(matches!(
        plan(&methods, READ, None, true).step,
        RpcStep::Methods
    ));
    match plan(&epoch, READ, None, true).step {
        RpcStep::CollateralEpoch { params } => assert_eq!(params, epoch.get("params")),
        _ => panic!("an epoch is answered by the shell"),
    }
    assert!(matches!(
        plan(&pair, READ, None, true).step,
        RpcStep::PairingRequest { .. }
    ));
    assert!(matches!(
        plan(&poll, READ, None, true).step,
        RpcStep::PairingPoll { .. }
    ));
}

#[test]
fn an_operators_call_needs_a_credential() {
    let req = request("control.status");
    let p = plan(&req, READ, None, false);
    let (code, message) = refusal(&p).expect("refused");
    assert_eq!(code, ErrorCode::Unauthorized);
    assert_eq!(
        message,
        "control.* requires the local control token (X-Dig-Control-Token header or \
         params._control_token, from /var/lib/dig-node/control-token), or a paired controller \
         token (see `dig-node pair`). Run it elevated."
    );
    assert_eq!(p.id, Some(&Json::Uint(7)));
    for token in [MASTER, PAIRED] {
        assert!(matches!(
            plan(&req, READ, Some(token), false).step,
            RpcStep::Control { .. }
        ));
    }
    let tier = MethodTraits {
        master_only: true,
        ..READ
    };
    assert!(refusal(&plan(&req, tier, Some(PAIRED), false)).is_some());
    assert!(refusal(&plan(&req, tier, Some(MASTER), false)).is_none());
}

#[test]
fn an_open_read_is_limited_for_strangers_alone() {
    let req = request("control.wallet.balance");
    let open = MethodTraits {
        open_read: true,
        ..READ
    };
    assert!(matches!(
        plan(&req, open, None, false).step,
        RpcStep::Control { .. }
    ));
    let refused = plan(&req, open, None, true);
    assert_eq!(
        refusal(&refused).map(|r| r.0),
        Some(ErrorCode::ControlIngressLimited)
    );
}

#[test]
fn a_wallet_call_is_served_here_or_refused() {
    let req = request("send_xch");
    let wallet = MethodTraits {
        wallet_gated: true,
        ..READ
    };
    assert_eq!(
        refusal(&plan(&req, wallet, None, false)).map(|r| r.0),
        Some(ErrorCode::Unauthorized)
    );
    assert!(matches!(
        plan(&req, wallet, Some(PAIRED), false).step,
        RpcStep::Wallet { .. }
    ));
}

#[test]
fn holding_and_chat_methods_need_a_credential_before_the_engine() {
    for method in [
        "cache.fetchAndCache",
        "cache.pushCapsule",
        "cache.listCached",
        "chat.send",
        "chat.poll",
    ] {
        let req = request(method);
        assert_eq!(
            refusal(&plan(&req, READ, None, false)).map(|r| r.0),
            Some(ErrorCode::Unauthorized),
            "{method}"
        );
        assert!(matches!(
            plan(&req, READ, Some(PAIRED), false).step,
            RpcStep::Dispatch
        ));
    }
    let read = request("dig.getContent");
    let p = plan(&read, READ, None, true);
    assert!(matches!(p.step, RpcStep::Dispatch));
    assert_eq!(p.origin, ReadOrigin::Peer);
    assert_eq!(p.requestor, anon("203.0.113.7"));
}

#[test]
fn the_nodes_own_probe_shows_the_loop() {
    let probe = |method: &str| object(vec![("id", text("probe-1")), ("method", text(method))]);
    assert!(plan(&probe("dig.health"), READ, None, true).loop_found);
    assert!(plan(&probe("dig.getContent"), READ, None, true).loop_found);
    assert!(!plan(&probe("rpc.discover"), READ, None, true).loop_found);
    assert!(!plan(&request("dig.health"), READ, None, true).loop_found);
}

fn engine_error(code: i64) -> Json {
    object(vec![("error", object(vec![("code", Json::Int(code))]))])
}

#[test]
fn only_an_unknown_method_is_relayed() {
    assert!(matches!(
        after_dispatch(Ok(engine_error(-32601)), true),
        AfterDispatch::Relay
    ));
    assert!(matches!(
        after_dispatch(Ok(engine_error(-32601)), false),
        AfterDispatch::Answer(_)
    ));
    assert!(matches!(
        after_dispatch(Ok(engine_error(-32000)), true),
        AfterDispatch::Answer(_)
    ));
    assert!(matches!(
        after_dispatch(Ok(object(vec![("result", Json::Null)])), true),
        AfterDispatch::Answer(_)
    ));
    match after_dispatch(Err("panicked".to_string()), true) {
        AfterDispatch::Refuse { code, message } => {
            assert_eq!(code, ErrorCode::DispatchFailed);
            assert_eq!(message, "dig-node: dispatch failed: panicked");
        }
        _ => panic!("an engine that failed is reported"),
    }
}

#[test]
fn a_silent_upstream_is_reported() {
    assert_eq!(after_relay(Ok(Json::Bool(true))), Ok(Json::Bool(true)));
    assert_eq!(
        after_relay(Err(RelayFailure::Unreachable("refused".to_string()))),
        Err((
            ErrorCode::UpstreamError,
            "dig-node upstream error: upstream unreachable: refused".to_string()
        ))
    );
    assert_eq!(
        after_relay(Err(RelayFailure::NotJson("eof".to_string()))),
        Err((
            ErrorCode::UpstreamError,
            "dig-node upstream error: upstream returned non-JSON: eof".to_string()
        ))
    );
}

#[test]
fn a_wallets_status_becomes_an_error_code() {
    let cases = [
        (400, ErrorCode::InvalidParams),
        (401, ErrorCode::Unauthorized),
        (404, ErrorCode::MethodNotFound),
        (500, ErrorCode::DispatchFailed),
    ];
    for (status, code) in cases {
        assert_eq!(
            wallet_result_to_jsonrpc(status, "why".to_string(), None),
            Err((code, "why".to_string()))
        );
    }
    assert_eq!(
        wallet_result_to_jsonrpc(200, "1".to_string(), Some(Json::Uint(1))),
        Ok(Json::Uint(1))
    );
    assert_eq!(
        wallet_result_to_jsonrpc(200, "oops".to_string(), None),
        Ok(Json::Null)
    );
}

#[test]
fn the_wallets_own_interface_is_guarded_too() {
    let is_paired = |t: &str| t == PAIRED;
    let gated = MethodTraits {
        wallet_gated: true,
        ..READ
    };
    assert_eq!(
        wallet_rpc("send_xch", gated, None, None, MASTER, &is_paired),
        Err("401: send_xch requires the local control token (X-Dig-Control-Token header) or a \
             paired controller token (see `dig-node pair`)"
            .to_string())
    );
    assert!(wallet_rpc("send_xch", gated, Some(MASTER), None, MASTER, &is_paired).is_ok());
    assert!(wallet_rpc("get_coins", READ, None, None, MASTER, &is_paired).is_ok());
    assert_eq!(wallet_rpc_form(200), (200, "application/json"));
    assert_eq!(wallet_rpc_form(404), (404, "text/plain; charset=utf-8"));
    assert_eq!(wallet_rpc_form(7), (500, "text/plain; charset=utf-8"));
}
