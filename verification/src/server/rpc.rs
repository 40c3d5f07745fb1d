//! One request of the node's JSON-RPC interface: who answers it, and what it is answered.
//!
//! A request passes through in stages. [`rpc`] decides who answers: the node's shell, the operator's
//! plane, the wallet, or the engine. What the engine does not know may be relayed upstream;
//! [`after_dispatch`] and [`after_relay`] decide that.
use vstd::prelude::*;

use crate::json::{value_of, Json};
use crate::meta::ErrorCode;
use crate::net::Endpoint;
use crate::server::access::{
    admits, cache_guard, chat_guard, control_call_authorized, control_guard,
    control_ingress_admits, counted, credential, gated_chat_method, guard_admits, ingress,
    is_gated_chat_method, origin_of, presented_token, provenance_for, provenance_of,
    read_origin_for, requestor_for, wallet_call_authorized, wallet_credential, wallet_guard, Guard,
    MethodTraits, ReadOrigin, RequestProvenance, Requestor,
};
use crate::text;

verus! {

/// What is known of the connection a request came over.
pub struct Caller<'a> {
    /// Its remote address.
    pub peer: Endpoint,
    /// The credential in its header, where there is one.
    pub control_header: Option<&'a str>,
    /// What the browser says of the page behind it, where there is one.
    pub sec_fetch_site: Option<&'a str>,
}

/// What the node holds against a request.
pub struct Keys<'a> {
    /// The control token; empty where the node could not make one.
    pub control_token: &'a str,
    /// Where the control token lies.
    pub token_path: &'a str,
    /// What an operator without it can do.
    pub remedy: &'a str,
    /// The id of the request by which the node finds out whether its upstream leads back to it.
    pub probe_id: &'a str,
}

/// What is to be done with a request.
pub enum RpcStep<'a> {
    /// Answer with an error.
    Refuse { code: ErrorCode, message: String },
    /// Answer with the description of the whole interface.
    Discover,
    /// Answer that the node is alive.
    Health,
    /// Answer with the names of the methods.
    Methods,
    /// Answer what is recorded of an epoch.
    CollateralEpoch { params: Option<&'a Json> },
    /// Begin a pairing.
    PairingRequest { params: Option<&'a Json> },
    /// Ask after a pairing.
    PairingPoll { params: Option<&'a Json> },
    /// Hand the call to the operator's plane.
    Control { params: Option<&'a Json> },
    /// Hand the call to the wallet.
    Wallet { params: Option<&'a Json> },
    /// Hand the request to the engine.
    Dispatch,
}

impl<'a> RpcStep<'a> {
    /// Whether the answer is that error.
    pub open spec fn refuses(self, code: ErrorCode, message: Seq<char>) -> bool {
        self matches RpcStep::Refuse { code: c, message: m } && c == code && m@ == message
    }
}

/// A request, and what is to be done with it.
pub struct RpcPlan<'a> {
    /// The id the answer carries; none stands for null.
    pub id: Option<&'a Json>,
    /// The method's name.
    pub method: String,
    /// On whose behalf content is read.
    pub origin: ReadOrigin,
    /// Who is counted for the request.
    pub requestor: Requestor,
    /// Whether the operator's own software drove it.
    pub provenance: RequestProvenance,
    /// Whether the request shows that the upstream leads back here, so that neither the shell nor the
    /// engine may use it any more.
    pub loop_found: bool,
    /// What is to be done.
    pub step: RpcStep<'a>,
}

/// Who answers a request.
pub enum Plane {
    NotARequest,
    Discover,
    Health,
    Methods,
    Collateral,
    PairingRequest,
    PairingPoll,
    OpenRead,
    Control,
    Wallet,
    Cache,
    Chat,
    Node,
}

/// The name of the method a request calls.
pub open spec fn method_of(req: Json) -> Seq<char> {
    match req.text_field("method"@) {
        Some(m) => m,
        None => Seq::empty(),
    }
}

/// Whether a method is an operator's.
pub open spec fn control_method(method: Seq<char>) -> bool {
    text::starts(method, "control."@)
}

/// Whether a method is an operator's.
pub fn is_control_method(method: &str) -> (r: bool)
    ensures
        r == control_method(method@),
{
    text::starts_with(method, "control.")
}

/// Whether a method makes the node hold content, or tells what it holds.
pub open spec fn holding_method(method: Seq<char>) -> bool {
    ||| method == "cache.fetchAndCache"@
    ||| method == "cache.pushCapsule"@
    ||| method == "cache.listCached"@
}

/// Whether a method makes the node hold content, or tells what it holds.
pub fn is_holding_method(method: &str) -> (r: bool)
    ensures
        r == holding_method(method@),
{
    text::same(method, "cache.fetchAndCache") || text::same(method, "cache.pushCapsule")
        || text::same(method, "cache.listCached")
}

/// Who answers a request.
pub open spec fn plane(req: Json, t: MethodTraits) -> Plane {
    let m = method_of(req);
    if !(req is Object) {
        Plane::NotARequest
    } else if m == "rpc.discover"@ {
        Plane::Discover
    } else if m == "dig.health"@ {
        Plane::Health
    } else if m == "dig.methods"@ {
        Plane::Methods
    } else if m == "dig.getCollateralEpoch"@ {
        Plane::Collateral
    } else if m == "pairing.request"@ {
        Plane::PairingRequest
    } else if m == "pairing.poll"@ {
        Plane::PairingPoll
    } else if control_method(m) {
        if t.open_read {
            Plane::OpenRead
        } else {
            Plane::Control
        }
    } else if t.wallet_gated {
        Plane::Wallet
    } else if holding_method(m) {
        Plane::Cache
    } else if gated_chat_method(m) {
        Plane::Chat
    } else {
        Plane::Node
    }
}

/// What a body that is no request is told.
pub const NOT_A_REQUEST: &'static str = "dig-node: expected a single JSON-RPC request object";

/// What an open read is told that came too soon.
pub const INGRESS_LIMITED: &'static str = "open control reads are rate-limited per source; back off and retry. \
This is the INGRESS bound on requests to this node, not the chain-egress \
bound (WALLET_RATE_LIMITED).";

/// What a call of the wallet is told that presents no credential.
pub const WALLET_UNAUTHORIZED: &'static str = "this wallet method requires the local control token (X-Dig-Control-Token \
header or params._control_token) or a paired controller token (see \
`dig-node pair`); it is never relayed upstream";

/// What a call is told that would make the node hold content, or tell what it holds.
pub const CACHE_UNAUTHORIZED: &'static str = "cache.fetchAndCache / cache.pushCapsule / cache.listCached require the local \
control token (X-Dig-Control-Token header or params._control_token) or a paired \
controller token (see `dig-node pair`): fetchAndCache/pushCapsule make this node \
a durable DHT holder of the requested capsule, and listCached enumerates the \
operator's cached-capsule inventory (deanonymizing consumed content) — none is a \
public read";

/// What a call is told that would use the node's signing key or inbox.
pub const CHAT_UNAUTHORIZED: &'static str = "chat.send/chat.poll require the local control token (X-Dig-Control-Token \
header or params._control_token) or a paired controller token (see \
`dig-node pair`): they wield the node's own signing identity and inbox";

/// What a call of an operator's method is told that presents no credential.
pub open spec fn control_unauthorized(token_path: Seq<char>, remedy: Seq<char>) -> Seq<char> {
    "control.* requires the local control token (X-Dig-Control-Token header or params._control_token, from "@
        + token_path + "), or a paired controller token (see `dig-node pair`). "@ + remedy
}

fn control_refusal(keys: &Keys<'_>) -> (r: String)
    ensures
        r@ == control_unauthorized(keys.token_path@, keys.remedy@),
{
    let mut m =
        "control.* requires the local control token (X-Dig-Control-Token header or params._control_token, from ".to_owned();
    m.append(keys.token_path);
    m.append("), or a paired controller token (see `dig-node pair`). ");
    m.append(keys.remedy);
    m
}

/// The credential a caller presents with a request.
pub open spec fn caller_token(caller: Caller<'_>, req: Json) -> Option<Seq<char>> {
    credential(text::opt_str_view(caller.control_header), req)
}

/// Whether `step` may be what is done with a request. Where a guard stands before the plane, the step
/// is the plane's own where the guard answered yes, and that plane's refusal where it answered no.
pub open spec fn is_rpc_step<F: Fn(&str) -> bool, L: Fn(&Requestor) -> bool>(
    req: Json,
    t: MethodTraits,
    caller: Caller<'_>,
    keys: Keys<'_>,
    is_paired: F,
    limiter: L,
    step: RpcStep<'_>,
) -> bool {
    let token = caller_token(caller, req);
    let master = keys.control_token@;
    let params = req.field("params"@);
    match plane(req, t) {
        Plane::NotARequest => step.refuses(ErrorCode::InvalidRequest, NOT_A_REQUEST@),
        Plane::Discover => step is Discover,
        Plane::Health => step is Health,
        Plane::Methods => step is Methods,
        Plane::Collateral => step matches RpcStep::CollateralEpoch { params: p } && value_of(p)
            == params,
        Plane::PairingRequest => step matches RpcStep::PairingRequest { params: p } && value_of(p)
            == params,
        Plane::PairingPoll => step matches RpcStep::PairingPoll { params: p } && value_of(p)
            == params,
        Plane::OpenRead => {
            ||| ingress(limiter, counted(caller.peer.ip), true) && (step matches RpcStep::Control {
                params: p,
            } && value_of(p) == params)
            ||| ingress(limiter, counted(caller.peer.ip), false) && step.refuses(
                ErrorCode::ControlIngressLimited,
                INGRESS_LIMITED@,
            )
        },
        Plane::Control => {
            ||| admits(control_guard(t), token, master, is_paired, true) && (step matches
                RpcStep::Control { params: p } && value_of(p) == params)
            ||| admits(control_guard(t), token, master, is_paired, false) && step.refuses(
                ErrorCode::Unauthorized,
                control_unauthorized(keys.token_path@, keys.remedy@),
            )
        },
        Plane::Wallet => {
            ||| admits(wallet_guard(t), token, master, is_paired, true) && (step matches
                RpcStep::Wallet { params: p } && value_of(p) == params)
            ||| admits(wallet_guard(t), token, master, is_paired, false) && step.refuses(
                ErrorCode::Unauthorized,
                WALLET_UNAUTHORIZED@,
            )
        },
        Plane::Cache => {
            ||| admits(cache_guard(), token, master, is_paired, true) && step is Dispatch
            ||| admits(cache_guard(), token, master, is_paired, false) && step.refuses(
                ErrorCode::Unauthorized,
                CACHE_UNAUTHORIZED@,
            )
        },
        Plane::Chat => {
            ||| admits(chat_guard(), token, master, is_paired, true) && step is Dispatch
            ||| admits(chat_guard(), token, master, is_paired, false) && step.refuses(
                ErrorCode::Unauthorized,
                CHAT_UNAUTHORIZED@,
            )
        },
        Plane::Node => step is Dispatch,
    }
}

/// Whether a request is the node's own question, come back to it. A request for the description of the
/// interface is answered before that is looked at.
pub open spec fn is_loop(req: Json, probe_id: Seq<char>) -> bool {
    req is Object && method_of(req) != "rpc.discover"@ && req.text_field("id"@) == Some(probe_id)
}

fn refuse<'a>(code: ErrorCode, message: &'static str) -> (r: RpcStep<'a>)
    ensures
        r.refuses(code, message@),
{
    RpcStep::Refuse { code, message: message.to_owned() }
}

fn rpc_step<'a, F: Fn(&str) -> bool, L: Fn(&Requestor) -> bool>(
    req: &'a Json,
    method: &str,
    traits: MethodTraits,
    caller: &Caller<'_>,
    requestor: &Requestor,
    keys: &Keys<'_>,
    is_paired: &F,
    limiter: &L,
) -> (step: RpcStep<'a>)
    requires
        forall|t: &str| call_requires(*is_paired, (t,)),
        forall|q: &Requestor| call_requires(*limiter, (q,)),
        method@ == method_of(*req),
        requestor@ == counted(caller.peer.ip),
    ensures
        is_rpc_step(*req, traits, *caller, *keys, *is_paired, *limiter, step),
{
    if !req.is_object() {
        return refuse(ErrorCode::InvalidRequest, NOT_A_REQUEST);
    }
    if text::same(method, "rpc.discover") {
        return RpcStep::Discover;
    }
    if text::same(method, "dig.health") {
        return RpcStep::Health;
    }
    if text::same(method, "dig.methods") {
        return RpcStep::Methods;
    }
    let params = req.get("params");
    if text::same(method, "dig.getCollateralEpoch") {
        return RpcStep::CollateralEpoch { params };
    }
    if text::same(method, "pairing.request") {
        return RpcStep::PairingRequest { params };
    }
    if text::same(method, "pairing.poll") {
        return RpcStep::PairingPoll { params };
    }
    let control = is_control_method(method);
    if control && traits.open_read {
        if control_ingress_admits(limiter, requestor) {
            return RpcStep::Control { params };
        }
        return refuse(ErrorCode::ControlIngressLimited, INGRESS_LIMITED);
    }
    let presented = presented_token(caller.control_header, req);
    let token: Option<&str> = match &presented {
        Some(t) => Some(t.as_str()),
        None => None,
    };
    let master = keys.control_token;
    if control {
        if control_call_authorized(traits, token, master, is_paired) {
            return RpcStep::Control { params };
        }
        return RpcStep::Refuse { code: ErrorCode::Unauthorized, message: control_refusal(keys) };
    }
    if traits.wallet_gated {
        if wallet_call_authorized(traits, token, master, is_paired) {
            return RpcStep::Wallet { params };
        }
        return refuse(ErrorCode::Unauthorized, WALLET_UNAUTHORIZED);
    }
    if is_holding_method(method) {
        let guard = Guard { master_only: false, closed_without_master: false };
        if guard_admits(guard, token, master, is_paired) {
            return RpcStep::Dispatch;
        }
        return refuse(ErrorCode::Unauthorized, CACHE_UNAUTHORIZED);
    }
    if is_gated_chat_method(method) {
        let guard = Guard { master_only: false, closed_without_master: true };
        if guard_admits(guard, token, master, is_paired) {
            return RpcStep::Dispatch;
        }
        return refuse(ErrorCode::Unauthorized, CHAT_UNAUTHORIZED);
    }
    RpcStep::Dispatch
}

/// What is to be done with one request: who answers it, on whose behalf, and whether it shows that the
/// upstream leads back here. A call that needs a credential and presents none that is accepted is
/// refused before anything runs.
pub fn rpc<'a, F: Fn(&str) -> bool, L: Fn(&Requestor) -> bool>(
    req: &'a Json,
    traits: MethodTraits,
    caller: &Caller<'_>,
    keys: &Keys<'_>,
    is_paired: &F,
    limiter: &L,
) -> (plan: RpcPlan<'a>)
    requires
        forall|t: &str| call_requires(*is_paired, (t,)),
        forall|q: &Requestor| call_requires(*limiter, (q,)),
    ensures
        value_of(plan.id) == req.field("id"@),
        plan.method@ == method_of(*req),
        plan.origin == origin_of(caller.peer.ip),
        plan.requestor@ == counted(caller.peer.ip),
        plan.provenance == provenance_of(text::opt_str_view(caller.sec_fetch_site)),
        plan.loop_found == is_loop(*req, keys.probe_id@),
        is_rpc_step(*req, traits, *caller, *keys, *is_paired, *limiter, plan.step),
{
    let method = match req.get_str("method") {
        Some(m) => m.to_owned(),
        None => String::new(),
    };
    proof {
        assert(method@ =~= method_of(*req));
    }
    let requestor = requestor_for(&caller.peer);
    let step = rpc_step(
        req,
        method.as_str(),
        traits,
        caller,
        &requestor,
        keys,
        is_paired,
        limiter,
    );
    let is_probe = match req.get_str("id") {
        Some(id) => text::same(id, keys.probe_id),
        None => false,
    };
    let discover = text::same(method.as_str(), "rpc.discover");
    RpcPlan {
        id: req.get("id"),
        origin: read_origin_for(&caller.peer),
        provenance: provenance_for(caller.sec_fetch_site),
        loop_found: req.is_object() && !discover && is_probe,
        method,
        requestor,
        step,
    }
}

// ---- the engine's answer -----------------------------------------------------------------------

/// What is to be done with the engine's answer.
pub enum AfterDispatch {
    /// Send the request, as it came, to the upstream.
    Relay,
    /// Answer with what the engine said.
    Answer(Json),
    /// Answer with an error.
    Refuse { code: ErrorCode, message: String },
}

/// The number of the error in an answer, where it holds one.
pub open spec fn error_code(answer: Json) -> Option<int> {
    match answer.field("error"@) {
        Some(e) => match e.field("code"@) {
            Some(Json::Int(n)) => Some(n as int),
            Some(Json::Uint(n)) => Some(n as int),
            _ => None,
        },
        None => None,
    }
}

fn says_method_not_found(answer: &Json) -> (r: bool)
    ensures
        r == (error_code(*answer) == Some(ErrorCode::MethodNotFound.number())),
{
    match answer.get("error") {
        Some(e) => match e.get("code") {
            Some(Json::Int(n)) => *n == ErrorCode::MethodNotFound.code(),
            _ => false,
        },
        None => false,
    }
}

/// What is to be done with the engine's answer: a method it does not know is relayed where there is an
/// upstream that does not lead back here, and everything else is answered as the engine said. An engine
/// that failed is reported. `should_relay` says whether there is such an upstream.
pub fn after_dispatch(outcome: Result<Json, String>, should_relay: bool) -> (r: AfterDispatch)
    ensures
        match outcome {
            Ok(a) => if error_code(a) == Some(ErrorCode::MethodNotFound.number()) && should_relay {
                r is Relay
            } else {
                r == AfterDispatch::Answer(a)
            },
            Err(e) => r matches AfterDispatch::Refuse { code, message } && code
                == ErrorCode::DispatchFailed && message@ == "dig-node: dispatch failed: "@ + e@,
        },
{
    match outcome {
        Ok(a) => {
            if says_method_not_found(&a) && should_relay {
                AfterDispatch::Relay
            } else {
                AfterDispatch::Answer(a)
            }
        },
        Err(e) => {
            let mut message = "dig-node: dispatch failed: ".to_owned();
            message.append(e.as_str());
            AfterDispatch::Refuse { code: ErrorCode::DispatchFailed, message }
        },
    }
}

/// Why the upstream gave no answer.
pub enum RelayFailure {
    /// It could not be reached.
    Unreachable(String),
    /// It did not answer with JSON.
    NotJson(String),
}

/// What is said of an upstream that gave no answer.
pub open spec fn relay_sentence(f: RelayFailure) -> Seq<char> {
    "dig-node upstream error: "@ + (match f {
        RelayFailure::Unreachable(e) => "upstream unreachable: "@ + e@,
        RelayFailure::NotJson(e) => "upstream returned non-JSON: "@ + e@,
    })
}

/// What a relayed request is answered: what the upstream said, or that it gave no answer.
pub fn after_relay(outcome: Result<Json, RelayFailure>) -> (r: Result<Json, (ErrorCode, String)>)
    ensures
        match outcome {
            Ok(a) => r == Ok::<Json, (ErrorCode, String)>(a),
            Err(f) => r matches Err(e) && e.0 == ErrorCode::UpstreamError && e.1@ == relay_sentence(
                f,
            ),
        },
{
    match outcome {
        Ok(a) => Ok(a),
        Err(f) => {
            let mut why = String::new();
            match &f {
                RelayFailure::Unreachable(e) => {
                    why = "upstream unreachable: ".to_owned();
                    why.append(e.as_str());
                },
                RelayFailure::NotJson(e) => {
                    why = "upstream returned non-JSON: ".to_owned();
                    why.append(e.as_str());
                },
            }
            let mut message = "dig-node upstream error: ".to_owned();
            message.append(why.as_str());
            Err((ErrorCode::UpstreamError, message))
        },
    }
}

// ---- the wallet's answer -----------------------------------------------------------------------

/// The error a wallet's status stands for.
pub open spec fn wallet_error(status: u16) -> ErrorCode {
    if status == 400 {
        ErrorCode::InvalidParams
    } else if status == 401 {
        ErrorCode::Unauthorized
    } else if status == 404 {
        ErrorCode::MethodNotFound
    } else {
        ErrorCode::DispatchFailed
    }
}

/// What a call of the wallet is answered: the value in its body where it succeeded, null where that is
/// no JSON, and otherwise the error its status stands for, in the wallet's own words. `parsed` is the
/// body as JSON, where it is that.
pub fn wallet_result_to_jsonrpc(status: u16, body: String, parsed: Option<Json>) -> (r: Result<
    Json,
    (ErrorCode, String),
>)
    ensures
        if status == 200 {
            r == Ok::<Json, (ErrorCode, String)>(
                match parsed {
                    Some(v) => v,
                    None => Json::Null,
                },
            )
        } else {
            r matches Err(e) && e.0 == wallet_error(status) && e.1@ == body@
        },
{
    if status == 200 {
        return Ok(
            match parsed {
                Some(v) => v,
                None => Json::Null,
            },
        );
    }
    let code = if status == 400 {
        ErrorCode::InvalidParams
    } else if status == 401 {
        ErrorCode::Unauthorized
    } else if status == 404 {
        ErrorCode::MethodNotFound
    } else {
        ErrorCode::DispatchFailed
    };
    Err((code, body))
}

/// What a call of the wallet's own interface is told that presents no credential.
pub open spec fn wallet_rpc_unauthorized(method: Seq<char>) -> Seq<char> {
    "401: "@ + method
        + " requires the local control token (X-Dig-Control-Token header) or a paired controller token (see `dig-node pair`)"@
}

/// Whether a call of the wallet's own interface is let through; the words it is refused with
/// otherwise. `body` is what was sent, where that is JSON.
pub fn wallet_rpc<F: Fn(&str) -> bool>(
    method: &str,
    traits: MethodTraits,
    header: Option<&str>,
    body: Option<&Json>,
    master: &str,
    is_paired: &F,
) -> (r: Result<(), String>)
    requires
        forall|t: &str| call_requires(*is_paired, (t,)),
    ensures
        !traits.wallet_gated ==> r is Ok,
        traits.wallet_gated ==> admits(
            wallet_guard(traits),
            wallet_credential(text::opt_str_view(header), value_of(body)),
            master@,
            *is_paired,
            r is Ok,
        ),
        r matches Err(m) ==> m@ == wallet_rpc_unauthorized(method@),
{
    if !traits.wallet_gated {
        return Ok(());
    }
    let presented = crate::server::access::presented_wallet_token(header, body);
    let token: Option<&str> = match &presented {
        Some(t) => Some(t.as_str()),
        None => None,
    };
    if wallet_call_authorized(traits, token, master, is_paired) {
        return Ok(());
    }
    let mut m = "401: ".to_owned();
    m.append(method);
    m.append(
        " requires the local control token (X-Dig-Control-Token header) or a paired controller token (see `dig-node pair`)",
    );
    Err(m)
}

/// How a wallet's answer is sent: under its own status where that is one, and as JSON where it
/// succeeded.
pub fn wallet_rpc_form(status: u16) -> (r: (u16, &'static str))
    ensures
        r.0 == (if 100 <= status < 1000 {
            status
        } else {
            500
        }),
        r.1@ == (if status == 200 {
            "application/json"@
        } else {
            "text/plain; charset=utf-8"@
        }),
{
    let sent: u16 = if 100 <= status && status < 1000 {
        status
    } else {
        500
    };
    if status == 200 {
        (sent, "application/json")
    } else {
        (sent, "text/plain; charset=utf-8")
    }
}

// ---- laws --------------------------------------------------------------------------------------

/// **Law: an operator's, a wallet's or a pairing call never leaves the node.** Only what is handed to
/// the engine can be relayed, and none of these is.
pub proof fn law_guarded_calls_are_never_relayed<F: Fn(&str) -> bool, L: Fn(&Requestor) -> bool>(
    req: Json,
    t: MethodTraits,
    caller: Caller<'_>,
    keys: Keys<'_>,
    is_paired: F,
    limiter: L,
    step: RpcStep<'_>,
)
    requires
        is_rpc_step(req, t, caller, keys, is_paired, limiter, step),
        control_method(method_of(req)) || t.wallet_gated || method_of(req) == "pairing.request"@
            || method_of(req) == "pairing.poll"@,
    ensures
        !(step is Dispatch),
{
}

/// **Law: a caller without a credential changes nothing.** Such a caller reaches the operator's plane
/// for an open read alone, never the wallet's guarded methods, and the engine for none of the methods
/// that make it hold content, tell what it holds, or use its signing key.
pub proof fn law_without_a_credential_only_reads_pass<
    F: Fn(&str) -> bool,
    L: Fn(&Requestor) -> bool,
>(
    req: Json,
    t: MethodTraits,
    caller: Caller<'_>,
    keys: Keys<'_>,
    is_paired: F,
    limiter: L,
    step: RpcStep<'_>,
)
    requires
        is_rpc_step(req, t, caller, keys, is_paired, limiter, step),
        caller_token(caller, req) is None,
    ensures
        step is Control ==> t.open_read,
        !(step is Wallet),
        step is Dispatch ==> !holding_method(method_of(req)) && !gated_chat_method(method_of(req)),
{
}

/// **Law: a call that is refused for its credential says so.** Every refusal of a call that has one
/// accepted elsewhere is `Unauthorized`; only an open read is refused for coming too soon.
pub proof fn law_refusals_say_why<F: Fn(&str) -> bool, L: Fn(&Requestor) -> bool>(
    req: Json,
    t: MethodTraits,
    caller: Caller<'_>,
    keys: Keys<'_>,
    is_paired: F,
    limiter: L,
    step: RpcStep<'_>,
)
    requires
        is_rpc_step(req, t, caller, keys, is_paired, limiter, step),
        step is Refuse,
    ensures
        !(req is Object) <==> step->Refuse_code == ErrorCode::InvalidRequest,
        step->Refuse_code == ErrorCode::ControlIngressLimited ==> control_method(method_of(req))
            && t.open_read,
        step->Refuse_code == ErrorCode::InvalidRequest || step->Refuse_code
            == ErrorCode::ControlIngressLimited || step->Refuse_code == ErrorCode::Unauthorized,
{
}

/// **Law: the operator's open reads are never limited.** A call from this machine is not refused for
/// coming too soon.
pub proof fn law_the_operators_reads_are_not_limited<
    F: Fn(&str) -> bool,
    L: Fn(&Requestor) -> bool,
>(
    req: Json,
    t: MethodTraits,
    caller: Caller<'_>,
    keys: Keys<'_>,
    is_paired: F,
    limiter: L,
    step: RpcStep<'_>,
)
    requires
        is_rpc_step(req, t, caller, keys, is_paired, limiter, step),
        crate::net::loops_back(caller.peer.ip),
    ensures
        !(step is Refuse && step->Refuse_code == ErrorCode::ControlIngressLimited),
{
}

/// **Law: the node describes itself without an upstream.** What it is, that it is alive and what it
/// serves are answered by the shell, whoever asks.
pub proof fn law_the_node_describes_itself<F: Fn(&str) -> bool, L: Fn(&Requestor) -> bool>(
    req: Json,
    t: MethodTraits,
    caller: Caller<'_>,
    keys: Keys<'_>,
    is_paired: F,
    limiter: L,
    step: RpcStep<'_>,
)
    requires
        is_rpc_step(req, t, caller, keys, is_paired, limiter, step),
        req is Object,
    ensures
        method_of(req) == "rpc.discover"@ ==> step is Discover,
        method_of(req) == "dig.health"@ ==> step is Health,
        method_of(req) == "dig.methods"@ ==> step is Methods,
{
    reveal_strlit("rpc.discover");
    reveal_strlit("dig.health");
    reveal_strlit("dig.methods");
    assert("rpc.discover"@[0] == 'r');
    assert("dig.health"@.len() != "dig.methods"@.len());
}

/// **Law: the control token opens what it is presented for.** A request whose header, or whose parameters
/// where there is no header or a blank one, carry the node's own control token is never refused as unauthorized: an
/// operator's method reaches the operator's plane, a guarded wallet's method the wallet, and a method that
/// holds content or uses the chat the engine.
pub proof fn law_the_control_token_is_accepted<F: Fn(&str) -> bool, L: Fn(&Requestor) -> bool>(
    req: Json,
    t: MethodTraits,
    caller: Caller<'_>,
    keys: Keys<'_>,
    is_paired: F,
    limiter: L,
    step: RpcStep<'_>,
    params: Json,
    method: Seq<char>,
)
    requires
        is_rpc_step(req, t, caller, keys, is_paired, limiter, step),
        req is Object,
        req.text_field("method"@) == Some(method),
        keys.control_token@.len() > 0,
        exists|i: int|
            0 <= i < keys.control_token@.len() && !text::is_white(#[trigger] keys.control_token@[i]),
        text::trimmed(keys.control_token@) == keys.control_token@,
        (caller.control_header matches Some(h) && h@ == keys.control_token@) || ((
        caller.control_header matches Some(h) ==> text::is_blank(h@)) && req.field("params"@) == Some(params) && params.text_field("_control_token"@) == Some(
            keys.control_token@,
        )),
    ensures
        !(step is Refuse && step->Refuse_code == ErrorCode::Unauthorized),
        text::starts(method, "control."@) && !t.open_read ==> step is Control,
        !text::starts(method, "control."@) && t.wallet_gated ==> step is Wallet || named_by_the_shell(method),
        !t.wallet_gated && (method == "cache.fetchAndCache"@ || method == "cache.pushCapsule"@ || method
            == "cache.listCached"@ || method == "chat.send"@ || method == "chat.poll"@) ==> step is Dispatch,
{
    reveal_strlit("control.");
    lemma_shell_names(method);
    if let Some(h) = caller.control_header {
        text::law_blank_is_white_throughout(h@);
    }
    crate::server::access::law_a_credential_is_found_in_the_header_or_the_parameters(
        text::opt_str_view(caller.control_header),
        req,
        params,
        keys.control_token@,
    );
    assert(caller_token(caller, req) == Some(keys.control_token@));
}

/// The methods that the shell answers itself.
pub open spec fn named_by_the_shell(method: Seq<char>) -> bool {
    ||| method == "rpc.discover"@
    ||| method == "dig.health"@
    ||| method == "dig.methods"@
    ||| method == "dig.getCollateralEpoch"@
    ||| method == "pairing.request"@
    ||| method == "pairing.poll"@
}

proof fn lemma_shell_names(method: Seq<char>)
    ensures
        named_by_the_shell(method) ==> !text::starts(method, "control."@) && method != "cache.fetchAndCache"@
            && method != "cache.pushCapsule"@ && method != "cache.listCached"@ && method != "chat.send"@ && method
            != "chat.poll"@,
        method == "cache.fetchAndCache"@ || method == "cache.pushCapsule"@ || method == "cache.listCached"@
            || method == "chat.send"@ || method == "chat.poll"@ ==> !text::starts(method, "control."@),
{
    reveal_strlit("control.");
    reveal_strlit("rpc.discover");
    reveal_strlit("dig.health");
    reveal_strlit("dig.methods");
    reveal_strlit("dig.getCollateralEpoch");
    reveal_strlit("pairing.request");
    reveal_strlit("pairing.poll");
    reveal_strlit("cache.fetchAndCache");
    reveal_strlit("cache.pushCapsule");
    reveal_strlit("cache.listCached");
    reveal_strlit("chat.send");
    reveal_strlit("chat.poll");
    text::law_parts_are_found(method, "control."@, Seq::empty());
    if text::starts(method, "control."@) {
        assert(method[0] == "control."@[0] && method[1] == "control."@[1]);
    }
}

/// **Law: who answers what.** By the method's name: the shell describes the node, tells of epochs and
/// pairs; an operator's method that is an open read, and any other, goes to the operator's plane or is
/// refused; a guarded wallet's method goes to the wallet or is refused; and a method of none of these
/// kinds is handed to the engine. What is handed on carries the request's own parameters.
pub proof fn law_who_answers_what<F: Fn(&str) -> bool, L: Fn(&Requestor) -> bool>(
    req: Json,
    t: MethodTraits,
    caller: Caller<'_>,
    keys: Keys<'_>,
    is_paired: F,
    limiter: L,
    step: RpcStep<'_>,
    method: Seq<char>,
)
    requires
        is_rpc_step(req, t, caller, keys, is_paired, limiter, step),
        req is Object,
        req.text_field("method"@) == Some(method),
    ensures
        method == "dig.getCollateralEpoch"@ ==> (step matches RpcStep::CollateralEpoch { params } && value_of(
            params,
        ) == req.field("params"@)),
        method == "pairing.request"@ ==> (step matches RpcStep::PairingRequest { params } && value_of(params)
            == req.field("params"@)),
        method == "pairing.poll"@ ==> (step matches RpcStep::PairingPoll { params } && value_of(params)
            == req.field("params"@)),
        text::starts(method, "control."@) ==> step is Refuse || (step matches RpcStep::Control { params }
            && value_of(params) == req.field("params"@)),
        !text::starts(method, "control."@) && !named_by_the_shell(method) && t.wallet_gated ==> step is Refuse
            || (step matches RpcStep::Wallet { params } && value_of(params) == req.field("params"@)),
        !text::starts(method, "control."@) && !named_by_the_shell(method) && !t.wallet_gated && method
            != "cache.fetchAndCache"@ && method != "cache.pushCapsule"@ && method != "cache.listCached"@ && method
            != "chat.send"@ && method != "chat.poll"@ ==> step is Dispatch,
{
    reveal_strlit("rpc.discover");
    reveal_strlit("dig.health");
    reveal_strlit("dig.methods");
    reveal_strlit("dig.getCollateralEpoch");
    reveal_strlit("pairing.request");
    reveal_strlit("pairing.poll");
    lemma_shell_names(method);
    assert("dig.getCollateralEpoch"@.len() == 22 && "pairing.request"@.len() == 15 && "pairing.poll"@.len() == 12
        && "rpc.discover"@.len() == 12 && "dig.health"@.len() == 10 && "dig.methods"@.len() == 11);
    assert("pairing.poll"@[0] == 'p' && "rpc.discover"@[0] == 'r');
}

/// **Law: a credential that nobody knows opens nothing.** Where pairing answers no for what a caller
/// presents, and it is not the control token, every guarded call is refused as unauthorized.
pub proof fn law_an_unknown_credential_is_refused<F: Fn(&str) -> bool, L: Fn(&Requestor) -> bool>(
    req: Json,
    t: MethodTraits,
    caller: Caller<'_>,
    keys: Keys<'_>,
    is_paired: F,
    limiter: L,
    step: RpcStep<'_>,
    method: Seq<char>,
    token: Seq<char>,
)
    requires
        is_rpc_step(req, t, caller, keys, is_paired, limiter, step),
        req is Object,
        req.text_field("method"@) == Some(method),
        caller_token(caller, req) == Some(token),
        token != keys.control_token@,
        forall|b: bool| #[trigger] crate::oracle::may_say(is_paired, token, b) ==> !b,
    ensures
        (text::starts(method, "control."@) && !t.open_read) || (!named_by_the_shell(method) && !text::starts(
            method,
            "control."@,
        ) && t.wallet_gated) || (!t.wallet_gated && (method == "cache.fetchAndCache"@ || method
            == "cache.pushCapsule"@ || method == "cache.listCached"@ || method == "chat.send"@ || method
            == "chat.poll"@)) ==> step is Refuse && step->Refuse_code == ErrorCode::Unauthorized,
{
    lemma_shell_names(method);
}

/// **Law: the node knows its own question.** A request is the node's own, come back to it, exactly where
/// it is an object that carries the text of the node's probe as its id, and asks for anything but the
/// description of the interface.
pub proof fn law_the_node_knows_its_own_question(req: Json, probe: String, method: Seq<char>)
    requires
        req.text_field("method"@) == Some(method),
    ensures
        is_loop(req, probe@) <==> req is Object && method != "rpc.discover"@ && (req.field("id"@) matches Some(id)
            && id matches Json::Text(s) && s@ == probe@),
{
}

/// **Law: the number of an error is read wherever it stands.** A whole number under `code` in the object
/// under `error` is the answer's error; an answer without one has none.
pub proof fn law_the_number_of_an_error(answer: Json, error: Json, n: i64, m: u64)
    ensures
        answer.field("error"@) == Some(error) && error.field("code"@) == Some(Json::Int(n)) ==> error_code(
            answer,
        ) == Some(n as int),
        answer.field("error"@) == Some(error) && error.field("code"@) == Some(Json::Uint(m)) ==> error_code(
            answer,
        ) == Some(m as int),
        answer.field("error"@) is None ==> error_code(answer) is None,
        answer.field("error"@) == Some(error) && error.field("code"@) is None ==> error_code(answer) is None,
{
}

/// **Law: what a wallet's status stands for.** A bad request is bad parameters, a missing credential is
/// unauthorized, a missing method is not found, and everything else is a failed call.
pub proof fn law_what_a_wallets_status_stands_for(status: u16)
    ensures
        wallet_error(400) == ErrorCode::InvalidParams,
        wallet_error(401) == ErrorCode::Unauthorized,
        wallet_error(404) == ErrorCode::MethodNotFound,
        status != 400 && status != 401 && status != 404 ==> wallet_error(status) == ErrorCode::DispatchFailed,
{
}

/// **Law: refusals name what they are about.** A refused operator is told where the token lies and what
/// can be done; a refused call of the wallet which method it was; a failed relay why.
pub proof fn law_refusals_name_what_they_are_about(
    token_path: Seq<char>,
    remedy: Seq<char>,
    method: Seq<char>,
    f: RelayFailure,
)
    ensures
        text::has(control_unauthorized(token_path, remedy), token_path),
        text::has(control_unauthorized(token_path, remedy), remedy),
        text::has(wallet_rpc_unauthorized(method), method),
        f matches RelayFailure::Unreachable(e) ==> text::has(relay_sentence(f), e@),
        f matches RelayFailure::NotJson(e) ==> text::has(relay_sentence(f), e@),
{
    let a = "control.* requires the local control token (X-Dig-Control-Token header or params._control_token, from "@;
    let b = "), or a paired controller token (see `dig-node pair`). "@;
    text::law_parts_are_found(a, token_path, b + remedy);
    assert(a + token_path + (b + remedy) =~= control_unauthorized(token_path, remedy));
    text::law_parts_are_found(a + token_path + b, remedy, Seq::empty());
    assert(a + token_path + b + remedy + Seq::<char>::empty() =~= control_unauthorized(token_path, remedy));
    text::law_parts_are_found(
        "401: "@,
        method,
        " requires the local control token (X-Dig-Control-Token header) or a paired controller token (see `dig-node pair`)"@,
    );
    let r = "dig-node upstream error: "@;
    match f {
        RelayFailure::Unreachable(e) => {
            let w = "upstream unreachable: "@;
            text::law_parts_are_found(r + w, e@, Seq::empty());
            assert(r + w + e@ + Seq::<char>::empty() =~= relay_sentence(f));
        },
        RelayFailure::NotJson(e) => {
            let w = "upstream returned non-JSON: "@;
            text::law_parts_are_found(r + w, e@, Seq::empty());
            assert(r + w + e@ + Seq::<char>::empty() =~= relay_sentence(f));
        },
    }
}

} // verus!
