//! The two sockets: what a frame is answered, and how a connection is kept and ended.
//!
//! The status socket tells that the node is alive. The wallet socket carries calls both ways: a frame
//! is a request, and the node pushes what changes. A connection that says nothing for too long is
//! taken for dead.
use vstd::prelude::*;

use crate::json::{value_of, Json};
use crate::meta::ErrorCode;
use crate::server::access::{
    admits, chat_guard, control_call_authorized, control_guard, gated_chat_method, guard_admits,
    is_gated_chat_method, unless_blank, wallet_call_authorized, wallet_guard, ws_token, Guard,
    MethodTraits,
};
use crate::server::rpc::{control_method, is_control_method, method_of};
use crate::text;

verus! {

// ---- requests over the wallet socket -----------------------------------------------------------

/// What is to be done with a frame.
pub enum WsStep<'a> {
    /// Nothing: it is no request.
    Ignore,
    /// Answer with an error.
    Refuse { code: ErrorCode, message: String },
    /// Begin a pairing.
    PairingRequest { params: Option<&'a Json> },
    /// Ask after a pairing.
    PairingPoll { params: Option<&'a Json> },
    /// Hand the call to the operator's plane.
    Control { params: Option<&'a Json> },
    /// Hand the call to the wallet.
    Wallet { params: Option<&'a Json> },
}

impl<'a> WsStep<'a> {
    /// Whether the answer is that error.
    pub open spec fn refuses(self, code: ErrorCode, message: Seq<char>) -> bool {
        self matches WsStep::Refuse { code: c, message: m } && c == code && m@ == message
    }
}

/// What an operator's call is told that presents no credential.
pub const WS_CONTROL_UNAUTHORIZED: &'static str = "control.* requires the local control token or a paired controller token";

/// What a call is told that would use the node's signing key or inbox.
pub const WS_CHAT_UNAUTHORIZED: &'static str = "chat.send/chat.poll require the local control token or a paired controller token";

/// What a call of the wallet is told that presents no credential.
pub const WS_WALLET_UNAUTHORIZED: &'static str = "this wallet method requires a paired controller token (see `dig-node pair`)";

/// Whether `step` may be what is done with a call of `method`.
pub open spec fn is_ws_step<F: Fn(&str) -> bool>(
    method: Seq<char>,
    t: MethodTraits,
    params: Option<Json>,
    token: Option<Seq<char>>,
    master: Seq<char>,
    is_paired: F,
    step: WsStep<'_>,
) -> bool {
    if control_method(method) {
        ||| admits(control_guard(t), token, master, is_paired, true) && (step matches
            WsStep::Control { params: p } && value_of(p) == params)
        ||| admits(control_guard(t), token, master, is_paired, false) && step.refuses(
            ErrorCode::Unauthorized,
            WS_CONTROL_UNAUTHORIZED@,
        )
    } else if method == "pairing.request"@ {
        step matches WsStep::PairingRequest { params: p } && value_of(p) == params
    } else if method == "pairing.poll"@ {
        step matches WsStep::PairingPoll { params: p } && value_of(p) == params
    } else {
        ||| gated_chat_method(method) && admits(chat_guard(), token, master, is_paired, false)
            && step.refuses(ErrorCode::Unauthorized, WS_CHAT_UNAUTHORIZED@)
        ||| (gated_chat_method(method) ==> admits(chat_guard(), token, master, is_paired, true))
            && t.wallet_gated && admits(wallet_guard(t), token, master, is_paired, false)
            && step.refuses(ErrorCode::Unauthorized, WS_WALLET_UNAUTHORIZED@)
        ||| (gated_chat_method(method) ==> admits(chat_guard(), token, master, is_paired, true)) && (
        t.wallet_gated ==> admits(wallet_guard(t), token, master, is_paired, true)) && (step matches
            WsStep::Wallet { params: p } && value_of(p) == params)
    }
}

fn refuse<'a>(message: &'static str) -> (r: WsStep<'a>)
    ensures
        r.refuses(ErrorCode::Unauthorized, message@),
{
    WsStep::Refuse { code: ErrorCode::Unauthorized, message: message.to_owned() }
}

/// What is to be done with a call: operators' calls need a credential here without exception, pairing
/// needs none, and whatever is left is the wallet's, its guarded methods behind its guard.
pub fn ws_dispatch<'a, F: Fn(&str) -> bool>(
    method: &str,
    traits: MethodTraits,
    params: Option<&'a Json>,
    token: Option<&str>,
    master: &str,
    is_paired: &F,
) -> (step: WsStep<'a>)
    requires
        forall|t: &str| call_requires(*is_paired, (t,)),
    ensures
        is_ws_step(
            method@,
            traits,
            value_of(params),
            text::opt_str_view(token),
            master@,
            *is_paired,
            step,
        ),
{
    if is_control_method(method) {
        if control_call_authorized(traits, token, master, is_paired) {
            return WsStep::Control { params };
        }
        return refuse(WS_CONTROL_UNAUTHORIZED);
    }
    if text::same(method, "pairing.request") {
        return WsStep::PairingRequest { params };
    }
    if text::same(method, "pairing.poll") {
        return WsStep::PairingPoll { params };
    }
    if is_gated_chat_method(method) {
        let guard = Guard { master_only: false, closed_without_master: true };
        if !guard_admits(guard, token, master, is_paired) {
            return refuse(WS_CHAT_UNAUTHORIZED);
        }
    }
    if traits.wallet_gated && !wallet_call_authorized(traits, token, master, is_paired) {
        return refuse(WS_WALLET_UNAUTHORIZED);
    }
    WsStep::Wallet { params }
}

/// Whether a frame is a request: one that says so, or says nothing of what it is.
pub open spec fn is_request(frame: Json) -> bool {
    match frame.text_field("type"@) {
        Some(t) => t == "request"@,
        None => true,
    }
}

/// Whether `step` may be what is done with a frame.
pub open spec fn is_frame_step<F: Fn(&str) -> bool>(
    frame: Option<Json>,
    t: MethodTraits,
    master: Seq<char>,
    is_paired: F,
    step: WsStep<'_>,
) -> bool {
    match frame {
        None => step is Ignore,
        Some(f) => if !is_request(f) {
            step is Ignore
        } else if method_of(f).len() == 0 {
            step.refuses(ErrorCode::InvalidRequest, "missing method"@)
        } else {
            is_ws_step(
                method_of(f),
                t,
                f.field("params"@),
                unless_blank(f.text_field("token"@)),
                master,
                is_paired,
                step,
            )
        },
    }
}

/// What is to be done with a text frame. `frame` is the text as JSON, where it is that; any other text,
/// and a frame that says it is no request, is ignored.
pub fn ws_handle_text<'a, F: Fn(&str) -> bool>(
    frame: Option<&'a Json>,
    traits: MethodTraits,
    master: &str,
    is_paired: &F,
) -> (step: WsStep<'a>)
    requires
        forall|t: &str| call_requires(*is_paired, (t,)),
    ensures
        is_frame_step(value_of(frame), traits, master@, *is_paired, step),
{
    let f = match frame {
        None => {
            return WsStep::Ignore;
        },
        Some(f) => f,
    };
    if let Some(t) = f.get_str("type") {
        if !text::same(t, "request") {
            return WsStep::Ignore;
        }
    }
    let method = match f.get_str("method") {
        Some(m) => m,
        None => "",
    };
    proof {
        reveal_strlit("");
        assert(method@ =~= method_of(*f));
    }
    if method.is_empty() {
        return WsStep::Refuse {
            code: ErrorCode::InvalidRequest,
            message: "missing method".to_owned(),
        };
    }
    let presented = ws_token(f);
    let token: Option<&str> = match &presented {
        Some(t) => Some(t.as_str()),
        None => None,
    };
    ws_dispatch(method, traits, f.get("params"), token, master, is_paired)
}

/// What is answered over the socket to what the operator's plane or the pairing said: its error as it
/// is, else its result, where none stands for null.
pub fn ws_from_jsonrpc<'a>(env: &'a Json) -> (r: Result<Option<&'a Json>, &'a Json>)
    ensures
        match env.field("error"@) {
            Some(e) => r matches Err(x) && *x == e,
            None => r matches Ok(v) && value_of(v) == env.field("result"@),
        },
{
    match env.get("error") {
        Some(e) => Err(e),
        None => Ok(env.get("result")),
    }
}

/// What is answered over the socket to what the wallet said: the value in its body where it succeeded,
/// null where that is no JSON, and otherwise its status and its words. `parsed` is the body as JSON,
/// where it is that.
pub fn ws_wallet_answer(status: u16, body: String, parsed: Option<Json>) -> (r: Result<
    Json,
    (u16, String),
>)
    ensures
        if status == 200 {
            r == Ok::<Json, (u16, String)>(
                match parsed {
                    Some(v) => v,
                    None => Json::Null,
                },
            )
        } else {
            r matches Err(e) && e.0 == status && e.1@ == body@
        },
{
    if status == 200 {
        return Ok(
            match parsed {
                Some(v) => v,
                None => Json::Null,
            },
        );
    }
    Err((status, body))
}

// ---- keeping a connection ----------------------------------------------------------------------

/// How often the node says that it is there, in milliseconds.
pub const WS_HEARTBEAT_INTERVAL_MS: u64 = 5_000;

/// How long a client may say nothing, in milliseconds.
pub const WS_PONG_TIMEOUT_MS: u64 = 20_000;

/// Whether a client last heard of at `last_seen` is taken for dead at `now`.
pub open spec fn silent(last_seen: u64, now: u64) -> bool {
    now - last_seen > WS_PONG_TIMEOUT_MS
}

fn is_silent(last_seen: u64, now: u64) -> (r: bool)
    ensures
        r == silent(last_seen, now),
{
    now > last_seen && now - last_seen > WS_PONG_TIMEOUT_MS
}

/// What happened on the status socket.
#[derive(Debug, Clone, Copy, PartialEq, Eq, Structural)]
pub enum StatusEvent {
    /// It is time for a heartbeat.
    Tick,
    /// The client closed the connection.
    Close,
    /// The client sent anything else.
    Frame,
    /// The connection is gone, or nothing could be sent over it.
    Gone,
}

/// What is to be done on the status socket.
#[derive(Debug, Clone, Copy, PartialEq, Eq, Structural)]
pub enum StatusAction {
    /// Send the node's status.
    Snapshot,
    /// Send the node's status with the time, then a ping.
    Heartbeat,
    /// Wait for what happens next.
    Wait,
    /// Close the connection from this side, and be done.
    CloseAndEnd,
    /// Be done.
    End,
}

/// What is done, and when the client was last heard of.
pub open spec fn status_step(last_seen: u64, now: u64, event: StatusEvent) -> (u64, StatusAction) {
    match event {
        StatusEvent::Tick => if silent(last_seen, now) {
            (last_seen, StatusAction::CloseAndEnd)
        } else {
            (last_seen, StatusAction::Heartbeat)
        },
        StatusEvent::Close => (last_seen, StatusAction::CloseAndEnd),
        StatusEvent::Frame => (now, StatusAction::Wait),
        StatusEvent::Gone => (last_seen, StatusAction::End),
    }
}

/// One connection of the status socket.
#[derive(Debug)]
pub struct StatusSession {
    /// When the client was last heard of, in milliseconds.
    pub last_seen: u64,
}

impl StatusSession {
    /// A connection that was just opened. The node's status is sent first.
    pub fn open(now: u64) -> (r: (Self, StatusAction))
        ensures
            r.0.last_seen == now,
            r.1 == StatusAction::Snapshot,
    {
        (StatusSession { last_seen: now }, StatusAction::Snapshot)
    }

    /// What is to be done about what happened.
    pub fn on(&mut self, now: u64, event: StatusEvent) -> (r: StatusAction)
        ensures
            (final(self).last_seen, r) == status_step(old(self).last_seen, now, event),
    {
        match event {
            StatusEvent::Tick => {
                if is_silent(self.last_seen, now) {
                    StatusAction::CloseAndEnd
                } else {
                    StatusAction::Heartbeat
                }
            },
            StatusEvent::Close => StatusAction::CloseAndEnd,
            StatusEvent::Frame => {
                self.last_seen = now;
                StatusAction::Wait
            },
            StatusEvent::Gone => StatusAction::End,
        }
    }
}

/// How far the wallet is with the chain.
#[derive(Debug, Clone, Copy, PartialEq, Eq, Structural)]
pub enum SyncLifecycle {
    Syncing,
    Synced,
    Disconnected,
}

/// How far the wallet is with the chain, and at which heights.
#[derive(Debug, Clone, Copy, PartialEq, Eq)]
pub struct SyncStatus {
    pub state: SyncLifecycle,
    pub peak_height: Option<u32>,
    pub target_height: Option<u32>,
}

fn same_height(a: Option<u32>, b: Option<u32>) -> (r: bool)
    ensures
        r == (a == b),
{
    match (a, b) {
        (Some(x), Some(y)) => x == y,
        (None, None) => true,
        _ => false,
    }
}

fn same_status(a: &SyncStatus, b: &SyncStatus) -> (r: bool)
    ensures
        r == (*a == *b),
{
    a.state == b.state && same_height(a.peak_height, b.peak_height) && same_height(
        a.target_height,
        b.target_height,
    )
}

/// What the wallet's events say of how far it is. A stop ends the connection to the chain and keeps the
/// heights; otherwise it is what the wallet says, and where it says nothing it is at the beginning.
pub open spec fn status_after(
    last: Option<SyncStatus>,
    stop: bool,
    reported: Option<SyncStatus>,
) -> SyncStatus {
    if stop {
        SyncStatus {
            state: SyncLifecycle::Disconnected,
            peak_height: match last {
                Some(s) => s.peak_height,
                None => None,
            },
            target_height: match last {
                Some(s) => s.target_height,
                None => None,
            },
        }
    } else {
        match reported {
            Some(s) => s,
            None => SyncStatus {
                state: SyncLifecycle::Syncing,
                peak_height: None,
                target_height: None,
            },
        }
    }
}

/// What happened on the wallet socket.
#[derive(Debug, Clone, Copy, PartialEq, Eq)]
pub enum WalletEvent {
    /// It is time for a ping.
    Tick,
    /// The wallet told of an event; whether that is a stop, and what the wallet says of itself.
    Sync { stop: bool, reported: Option<SyncStatus> },
    /// Some of the wallet's events were missed.
    SyncLagged,
    /// The wallet tells of no more events.
    SyncClosed,
    /// The wallet told of a tip.
    Tip,
    /// Some tips were missed.
    TipLagged,
    /// The wallet tells of no more tips.
    TipClosed,
    /// The client sent a text.
    Text,
    /// The client closed the connection.
    Close,
    /// The client sent anything else.
    Frame,
    /// The connection is gone, or nothing could be sent over it.
    Gone,
}

/// What is to be done on the wallet socket.
#[derive(Debug, Clone, Copy, PartialEq, Eq)]
pub enum WalletAction {
    /// Send a ping.
    Ping,
    /// Send the wallet's event, then the status where there is one.
    Forward { push: Option<SyncStatus> },
    /// Send the tip.
    ForwardTip,
    /// Answer the text, where it is a request.
    Handle,
    /// Wait for what happens next.
    Wait,
    /// Close the connection from this side, and be done.
    CloseAndEnd,
    /// Be done.
    End,
}

/// One connection of the wallet socket.
#[derive(Debug, Clone, Copy)]
pub struct WalletSession {
    /// When the client was last heard of, in milliseconds.
    pub last_seen: u64,
    /// Whether the wallet still tells of events.
    pub bus_open: bool,
    /// Whether the wallet still tells of tips.
    pub tip_open: bool,
    /// The status that was sent last, where one was.
    pub last: Option<SyncStatus>,
}

/// What is done, and what the connection is then.
pub open spec fn wallet_step(s: WalletSession, now: u64, event: WalletEvent) -> (
    WalletSession,
    WalletAction,
) {
    match event {
        WalletEvent::Tick => if silent(s.last_seen, now) {
            (s, WalletAction::CloseAndEnd)
        } else {
            (s, WalletAction::Ping)
        },
        WalletEvent::Sync { stop, reported } => {
            let cur = status_after(s.last, stop, reported);
            if s.last == Some(cur) {
                (s, WalletAction::Forward { push: None })
            } else {
                (
                    WalletSession { last: Some(cur), ..s },
                    WalletAction::Forward { push: Some(cur) },
                )
            }
        },
        WalletEvent::SyncLagged => (s, WalletAction::Wait),
        WalletEvent::SyncClosed => (WalletSession { bus_open: false, ..s }, WalletAction::Wait),
        WalletEvent::Tip => (s, WalletAction::ForwardTip),
        WalletEvent::TipLagged => (s, WalletAction::Wait),
        WalletEvent::TipClosed => (WalletSession { tip_open: false, ..s }, WalletAction::Wait),
        WalletEvent::Text => (WalletSession { last_seen: now, ..s }, WalletAction::Handle),
        WalletEvent::Close => (s, WalletAction::CloseAndEnd),
        WalletEvent::Frame => (WalletSession { last_seen: now, ..s }, WalletAction::Wait),
        WalletEvent::Gone => (s, WalletAction::End),
    }
}

impl WalletSession {
    /// A connection that was just opened. The wallet's status is sent first, where it has one.
    pub fn open(now: u64, status: Option<SyncStatus>) -> (r: (Self, Option<SyncStatus>))
        ensures
            r.0 == (WalletSession { last_seen: now, bus_open: true, tip_open: true, last: status }),
            r.1 == status,
    {
        (WalletSession { last_seen: now, bus_open: true, tip_open: true, last: status }, status)
    }

    /// What is to be done about what happened. An event of the wallet is sent on, and the status with
    /// it where that changed; a client that said nothing for too long is let go.
    pub fn on(&mut self, now: u64, event: WalletEvent) -> (r: WalletAction)
        ensures
            (*final(self), r) == wallet_step(*old(self), now, event),
    {
        match event {
            WalletEvent::Tick => {
                if is_silent(self.last_seen, now) {
                    WalletAction::CloseAndEnd
                } else {
                    WalletAction::Ping
                }
            },
            WalletEvent::Sync { stop, reported } => self.on_sync(stop, reported),
            WalletEvent::SyncLagged => WalletAction::Wait,
            WalletEvent::SyncClosed => {
                self.bus_open = false;
                WalletAction::Wait
            },
            WalletEvent::Tip => WalletAction::ForwardTip,
            WalletEvent::TipLagged => WalletAction::Wait,
            WalletEvent::TipClosed => {
                self.tip_open = false;
                WalletAction::Wait
            },
            WalletEvent::Text => {
                self.last_seen = now;
                WalletAction::Handle
            },
            WalletEvent::Close => WalletAction::CloseAndEnd,
            WalletEvent::Frame => {
                self.last_seen = now;
                WalletAction::Wait
            },
            WalletEvent::Gone => WalletAction::End,
        }
    }

    fn on_sync(&mut self, stop: bool, reported: Option<SyncStatus>) -> (r: WalletAction)
        ensures
            forall|now: u64|
                (*final(self), r) == #[trigger] wallet_step(
                    *old(self),
                    now,
                    WalletEvent::Sync { stop, reported },
                ),
    {
        let cur = if stop {
            let (peak, target): (Option<u32>, Option<u32>) = match &self.last {
                Some(s) => (s.peak_height, s.target_height),
                None => (None, None),
            };
            SyncStatus {
                state: SyncLifecycle::Disconnected,
                peak_height: peak,
                target_height: target,
            }
        } else {
            match reported {
                Some(s) => s,
                None => SyncStatus {
                    state: SyncLifecycle::Syncing,
                    peak_height: None,
                    target_height: None,
                },
            }
        };
        let unchanged = match &self.last {
            Some(s) => same_status(s, &cur),
            None => false,
        };
        if unchanged {
            return WalletAction::Forward { push: None };
        }
        self.last = Some(cur);
        WalletAction::Forward { push: Some(cur) }
    }
}

// ---- laws --------------------------------------------------------------------------------------

/// **Law: the socket opens no door that the other interface keeps shut.** Where a call over the socket
/// reaches the operator's plane, the same credential opens that method's guard there too, and where it
/// reaches the wallet with a guarded method, the wallet's.
pub proof fn law_the_socket_admits_no_more<F: Fn(&str) -> bool>(
    method: Seq<char>,
    t: MethodTraits,
    params: Option<Json>,
    token: Option<Seq<char>>,
    master: Seq<char>,
    is_paired: F,
    step: WsStep<'_>,
)
    requires
        is_ws_step(method, t, params, token, master, is_paired, step),
    ensures
        step is Control ==> admits(control_guard(t), token, master, is_paired, true),
        step is Wallet && t.wallet_gated ==> admits(wallet_guard(t), token, master, is_paired, true),
        step is Wallet && gated_chat_method(method) ==> admits(
            chat_guard(),
            token,
            master,
            is_paired,
            true,
        ),
{
}

/// **Law: over the socket nothing of the operator's is open.** A call of an operator's method that
/// presents no credential is refused, also where it only reads.
pub proof fn law_no_operator_call_over_the_socket_without_a_credential<F: Fn(&str) -> bool>(
    method: Seq<char>,
    t: MethodTraits,
    params: Option<Json>,
    master: Seq<char>,
    is_paired: F,
    step: WsStep<'_>,
)
    requires
        is_ws_step(method, t, params, None, master, is_paired, step),
        control_method(method),
    ensures
        step.refuses(ErrorCode::Unauthorized, WS_CONTROL_UNAUTHORIZED@),
{
}

/// **Law: a dead client is let go.** A client that was not heard of for longer than the timeout is
/// closed at the next tick, on either socket; one that was heard of since is not.
pub proof fn law_a_silent_client_is_let_go(last_seen: u64, s: WalletSession, now: u64)
    requires
        s.last_seen == last_seen,
    ensures
        now - last_seen > WS_PONG_TIMEOUT_MS <==> status_step(last_seen, now, StatusEvent::Tick).1
            == StatusAction::CloseAndEnd,
        now - last_seen > WS_PONG_TIMEOUT_MS <==> wallet_step(s, now, WalletEvent::Tick).1
            == WalletAction::CloseAndEnd,
{
}

/// **Law: any frame is a sign of life.** After one, no tick within the timeout ends the connection.
pub proof fn law_a_frame_keeps_the_connection(s: WalletSession, heard: u64, now: u64)
    requires
        heard <= now <= heard + WS_PONG_TIMEOUT_MS,
    ensures
        status_step(status_step(s.last_seen, heard, StatusEvent::Frame).0, now, StatusEvent::Tick).1
            == StatusAction::Heartbeat,
        wallet_step(wallet_step(s, heard, WalletEvent::Frame).0, now, WalletEvent::Tick).1
            == WalletAction::Ping,
        wallet_step(wallet_step(s, heard, WalletEvent::Text).0, now, WalletEvent::Tick).1
            == WalletAction::Ping,
{
}

/// **Law: the client knows the status.** After each of the wallet's events the status that was sent last
/// is the wallet's, and nothing is sent where it did not change.
pub proof fn law_the_client_knows_the_status(
    s: WalletSession,
    now: u64,
    stop: bool,
    reported: Option<SyncStatus>,
)
    ensures
        ({
            let after = wallet_step(s, now, WalletEvent::Sync { stop, reported });
            let cur = status_after(s.last, stop, reported);
            &&& after.0.last == Some(cur)
            &&& after.1 matches WalletAction::Forward { push } && (push is None <==> s.last == Some(
                cur,
            )) && (push matches Some(p) ==> p == cur)
        }),
{
}

/// **Law: a stop keeps the heights.** What is sent after a stop says that the wallet is disconnected, at
/// the heights it had.
pub proof fn law_a_stop_keeps_the_heights(last: SyncStatus, reported: Option<SyncStatus>)
    ensures
        status_after(Some(last), true, reported) == (SyncStatus {
            state: SyncLifecycle::Disconnected,
            ..last
        }),
{
}

/// **Law: the push side ends alone.** When the wallet tells of nothing more, requests are still
/// answered and the connection stays.
pub proof fn law_a_closed_bus_keeps_serving(s: WalletSession, now: u64, later: u64)
    ensures
        wallet_step(s, now, WalletEvent::SyncClosed).1 == WalletAction::Wait,
        wallet_step(s, now, WalletEvent::TipClosed).1 == WalletAction::Wait,
        wallet_step(wallet_step(s, now, WalletEvent::SyncClosed).0, later, WalletEvent::Text).1
            == WalletAction::Handle,
        !wallet_step(s, now, WalletEvent::SyncClosed).0.bus_open,
        wallet_step(s, now, WalletEvent::SyncClosed).0.tip_open == s.tip_open,
{
}

/// **Law: which frames are answered.** A frame that is no JSON, or that says it is something other than a
/// request, is passed over; one without a method is refused; any other is answered by its method, with the
/// credential it carries under `token`, unless that is blank.
pub proof fn law_which_frames_are_answered<F: Fn(&str) -> bool>(
    f: Json,
    t: MethodTraits,
    master: Seq<char>,
    is_paired: F,
    step: WsStep<'_>,
)
    ensures
        is_frame_step(None, t, master, is_paired, step) <==> step is Ignore,
        f.text_field("type"@) is None ==> is_request(f),
        f.text_field("type"@) == Some("request"@) ==> is_request(f),
        f.text_field("type"@) matches Some(k) ==> k != "request"@ ==> !is_request(f),
        !is_request(f) ==> (is_frame_step(Some(f), t, master, is_paired, step) <==> step is Ignore),
        is_request(f) && f.text_field("method"@) is None ==> (is_frame_step(
            Some(f),
            t,
            master,
            is_paired,
            step,
        ) <==> step.refuses(ErrorCode::InvalidRequest, "missing method"@)),
        is_request(f) ==> (f.text_field("method"@) matches Some(m) ==> m.len() > 0 ==> (is_frame_step(
            Some(f),
            t,
            master,
            is_paired,
            step,
        ) <==> is_ws_step(
            m,
            t,
            f.field("params"@),
            unless_blank(f.text_field("token"@)),
            master,
            is_paired,
            step,
        ))),
{
}

/// **Law: the control token opens the socket's methods.** A caller that presents it reaches the operator's
/// methods and the wallet's, with the parameters it sent, and is never refused.
pub proof fn law_the_control_token_is_accepted_over_the_socket<F: Fn(&str) -> bool>(
    method: Seq<char>,
    t: MethodTraits,
    params: Option<Json>,
    master: Seq<char>,
    is_paired: F,
    step: WsStep<'_>,
)
    requires
        master.len() > 0,
        is_ws_step(method, t, params, Some(master), master, is_paired, step),
    ensures
        !(step is Refuse),
        !(step is Ignore),
        text::starts(method, "control."@) ==> (step matches WsStep::Control { params: p } && value_of(p)
            == params),
        !text::starts(method, "control."@) && method != "pairing.request"@ && method != "pairing.poll"@ ==> (step
            matches WsStep::Wallet { params: p } && value_of(p) == params),
{
    crate::server::access::law_the_control_token_opens_every_guard(control_guard(t), master, is_paired, false);
    crate::server::access::law_the_control_token_opens_every_guard(chat_guard(), master, is_paired, false);
    crate::server::access::law_the_control_token_opens_every_guard(wallet_guard(t), master, is_paired, false);
}

/// **Law: who answers a frame.** Pairing is open to anyone; a caller without a credential is refused what is
/// guarded, each in its own words, and is served what is not.
pub proof fn law_who_answers_a_frame<F: Fn(&str) -> bool>(
    method: Seq<char>,
    t: MethodTraits,
    params: Option<Json>,
    token: Option<Seq<char>>,
    master: Seq<char>,
    is_paired: F,
    step: WsStep<'_>,
)
    ensures
        is_ws_step("pairing.request"@, t, params, token, master, is_paired, step) <==> (step
            matches WsStep::PairingRequest { params: p } && value_of(p) == params),
        is_ws_step("pairing.poll"@, t, params, token, master, is_paired, step) <==> (step
            matches WsStep::PairingPoll { params: p } && value_of(p) == params),
        text::starts(method, "control."@) && is_ws_step(method, t, params, None, master, is_paired, step)
            ==> step.refuses(ErrorCode::Unauthorized, WS_CONTROL_UNAUTHORIZED@),
        (method == "chat.send"@ || method == "chat.poll"@) && is_ws_step(
            method,
            t,
            params,
            None,
            master,
            is_paired,
            step,
        ) ==> step.refuses(ErrorCode::Unauthorized, WS_CHAT_UNAUTHORIZED@),
        !text::starts(method, "control."@) && method != "pairing.request"@ && method != "pairing.poll"@ && method
            != "chat.send"@ && method != "chat.poll"@ && is_ws_step(
            method,
            t,
            params,
            None,
            master,
            is_paired,
            step,
        ) ==> if t.wallet_gated {
            step.refuses(ErrorCode::Unauthorized, WS_WALLET_UNAUTHORIZED@)
        } else {
            step matches WsStep::Wallet { params: p } && value_of(p) == params
        },
{
    lemma_not_an_operators();
    crate::server::access::law_sending_and_polling_are_gated(method);
}

proof fn lemma_not_an_operators()
    ensures
        !control_method("pairing.request"@),
        !control_method("pairing.poll"@),
        !control_method("chat.send"@),
        !control_method("chat.poll"@),
        "pairing.request"@ != "pairing.poll"@,
        "chat.send"@ != "pairing.request"@ && "chat.send"@ != "pairing.poll"@,
        "chat.poll"@ != "pairing.request"@ && "chat.poll"@ != "pairing.poll"@,
{
    reveal_strlit("control.");
    reveal_strlit("pairing.request");
    reveal_strlit("pairing.poll");
    reveal_strlit("chat.send");
    reveal_strlit("chat.poll");
    text::law_parts_are_found("pairing.request"@, "control."@, Seq::empty());
    text::law_parts_are_found("pairing.poll"@, "control."@, Seq::empty());
    text::law_parts_are_found("chat.send"@, "control."@, Seq::empty());
    text::law_parts_are_found("chat.poll"@, "control."@, Seq::empty());
    assert("control."@.len() == 8);
    assert("control."@[0] == 'c');
    assert("control."@[1] == 'o');
    assert("pairing.request"@[0] == 'p');
    assert("pairing.poll"@[0] == 'p');
    assert("chat.send"@[0] == 'c');
    assert("chat.poll"@[0] == 'c');
    assert("chat.send"@[1] == 'h');
    assert("chat.poll"@[1] == 'h');
    assert("pairing.request"@.len() == 15);
    assert("pairing.poll"@.len() == 12);
}

/// **Law: how a status connection is kept.** A client that was silent for more than twenty seconds is let go
/// at the next tick and is told that the node lives until then; a frame is taken note of; a close is
/// answered with one; a connection that is gone just ends.
pub proof fn law_how_a_status_connection_is_kept(seen: u64, now: u64)
    ensures
        now - seen > 20_000 ==> status_step(seen, now, StatusEvent::Tick) == (seen, StatusAction::CloseAndEnd),
        now - seen <= 20_000 ==> status_step(seen, now, StatusEvent::Tick) == (seen, StatusAction::Heartbeat),
        status_step(seen, now, StatusEvent::Close) == (seen, StatusAction::CloseAndEnd),
        status_step(seen, now, StatusEvent::Frame) == (now, StatusAction::Wait),
        status_step(seen, now, StatusEvent::Gone) == (seen, StatusAction::End),
{
}

/// **Law: how a wallet connection is kept.** As a status connection; besides, a text is handed on, a new tip
/// is pushed, what was missed is passed over, and a source that closed is not listened to again.
pub proof fn law_how_a_wallet_connection_is_kept(s: WalletSession, now: u64)
    ensures
        now - s.last_seen > 20_000 ==> wallet_step(s, now, WalletEvent::Tick) == (s, WalletAction::CloseAndEnd),
        now - s.last_seen <= 20_000 ==> wallet_step(s, now, WalletEvent::Tick) == (s, WalletAction::Ping),
        wallet_step(s, now, WalletEvent::Text).1 == WalletAction::Handle,
        wallet_step(s, now, WalletEvent::Text).0.last_seen == now,
        wallet_step(s, now, WalletEvent::Text).0.last == s.last,
        wallet_step(s, now, WalletEvent::Frame).1 == WalletAction::Wait,
        wallet_step(s, now, WalletEvent::Frame).0.last_seen == now,
        wallet_step(s, now, WalletEvent::Frame).0.last == s.last,
        wallet_step(s, now, WalletEvent::Tip) == (s, WalletAction::ForwardTip),
        wallet_step(s, now, WalletEvent::SyncLagged) == (s, WalletAction::Wait),
        wallet_step(s, now, WalletEvent::TipLagged) == (s, WalletAction::Wait),
        wallet_step(s, now, WalletEvent::Close) == (s, WalletAction::CloseAndEnd),
        wallet_step(s, now, WalletEvent::Gone) == (s, WalletAction::End),
        ({
            let a = wallet_step(s, now, WalletEvent::SyncClosed).0;
            !a.bus_open && a.tip_open == s.tip_open && a.last == s.last && a.last_seen == s.last_seen
        }),
        ({
            let a = wallet_step(s, now, WalletEvent::TipClosed).0;
            !a.tip_open && a.bus_open == s.bus_open && a.last == s.last && a.last_seen == s.last_seen
        }),
{
}

/// **Law: what status is reported.** What was reported, as it came; syncing with nothing known where nothing
/// was; and disconnected behind a stop, at the heights last known.
pub proof fn law_what_status_is_reported(last: Option<SyncStatus>, reported: Option<SyncStatus>)
    ensures
        reported matches Some(r) ==> status_after(last, false, reported) == r,
        reported is None ==> status_after(last, false, reported) == (SyncStatus {
            state: SyncLifecycle::Syncing,
            peak_height: None,
            target_height: None,
        }),
        status_after(last, true, reported).state == SyncLifecycle::Disconnected,
        last is None ==> status_after(last, true, reported).peak_height is None,
        last matches Some(l) ==> status_after(last, true, reported).peak_height == l.peak_height
            && status_after(last, true, reported).target_height == l.target_height,
{
}

/// **Law: a client that answers is kept.** The node speaks every five seconds and waits for twenty, so that a
/// client that answers any of three in a row is not let go at the next.
pub proof fn law_a_client_that_answers_is_kept(s: WalletSession, heard: u64, missed: int)
    requires
        0 <= missed <= 3,
        heard + 20_000 <= u64::MAX,
    ensures
        ({
            let now = (heard + (missed + 1) * WS_HEARTBEAT_INTERVAL_MS) as u64;
            &&& status_step(status_step(s.last_seen, heard, StatusEvent::Frame).0, now, StatusEvent::Tick).1
                == StatusAction::Heartbeat
            &&& wallet_step(wallet_step(s, heard, WalletEvent::Frame).0, now, WalletEvent::Tick).1
                == WalletAction::Ping
        }),
{
    assert((missed + 1) * 5_000 <= 20_000);
}

} // verus!
