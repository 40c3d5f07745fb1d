//! Who is calling, and what a caller may do.
//!
//! Three questions are asked of every call: which machine it came from, whether the operator's own
//! software or a foreign page drove it, and which credential it presents. A credential is the
//! control token, or the token of a controller that the operator paired.
use vstd::prelude::*;

use crate::config::is_loopback_addr;
use crate::json::Json;
use crate::net::{loops_back, text_of, Endpoint, Ip};
use crate::oracle::may_say;
use crate::text;

verus! {

// ---- the connection ----------------------------------------------------------------------------

/// On whose behalf content is read.
#[derive(Debug, Clone, Copy, PartialEq, Eq, Structural)]
pub enum ReadOrigin {
    /// The node's own operator.
    Local,
    /// A stranger.
    Peer,
}

/// Who is counted for a request.
#[derive(Debug, PartialEq, Eq)]
pub enum Requestor {
    /// The node's own operator.
    Local,
    /// Whoever is behind that address.
    Anonymous(String),
}

/// Who is counted for a request from an address.
pub enum RequestorModel {
    Local,
    Anonymous(Seq<char>),
}

impl View for Requestor {
    type V = RequestorModel;

    open spec fn view(&self) -> RequestorModel {
        match self {
            Requestor::Local => RequestorModel::Local,
            Requestor::Anonymous(a) => RequestorModel::Anonymous(a@),
        }
    }
}

impl Requestor {
    /// Whether this is the node's own operator.
    pub fn is_local(&self) -> (r: bool)
        ensures
            r == (self is Local),
    {
        match self {
            Requestor::Local => true,
            Requestor::Anonymous(_) => false,
        }
    }
}

/// On whose behalf a request from that address reads.
pub open spec fn origin_of(ip: Ip) -> ReadOrigin {
    if loops_back(ip) {
        ReadOrigin::Local
    } else {
        ReadOrigin::Peer
    }
}

/// Who is counted for a request from that address.
pub open spec fn counted(ip: Ip) -> RequestorModel {
    if loops_back(ip) {
        RequestorModel::Local
    } else {
        RequestorModel::Anonymous(text_of(ip))
    }
}

/// On whose behalf a connection reads, by its remote address alone.
pub fn read_origin_for(peer: &Endpoint) -> (r: ReadOrigin)
    ensures
        r == origin_of(peer.ip),
{
    if is_loopback_addr(&peer.ip) {
        ReadOrigin::Local
    } else {
        ReadOrigin::Peer
    }
}

/// Who is counted for a connection: the operator, or its address without the port.
pub fn requestor_for(peer: &Endpoint) -> (r: Requestor)
    ensures
        r@ == counted(peer.ip),
{
    if is_loopback_addr(&peer.ip) {
        Requestor::Local
    } else {
        Requestor::Anonymous(peer.ip.to_text())
    }
}

/// Whether the limiter may answer `b` for a caller.
pub open spec fn limiter_may_say<L: Fn(&Requestor) -> bool>(
    limiter: L,
    who: RequestorModel,
    b: bool,
) -> bool {
    exists|q: &Requestor| #[trigger] call_ensures(limiter, (q,), b) && q@ == who
}

/// Whether an open read by a caller may be answered `b` at the door: the operator is always let in,
/// and anyone else where the limiter has room for them.
pub open spec fn ingress<L: Fn(&Requestor) -> bool>(limiter: L, who: RequestorModel, b: bool) -> bool {
    if who is Local {
        b
    } else {
        limiter_may_say(limiter, who, b)
    }
}

/// Whether an open read by a caller is let in. The operator is not counted.
pub fn control_ingress_admits<L: Fn(&Requestor) -> bool>(limiter: &L, requestor: &Requestor) -> (r:
    bool)
    requires
        forall|q: &Requestor| call_requires(*limiter, (q,)),
    ensures
        ingress(*limiter, requestor@, r),
{
    if requestor.is_local() {
        return true;
    }
    let r = limiter(requestor);
    proof {
        assert(call_ensures(*limiter, (requestor,), r));
    }
    r
}

/// Whether the operator's own software drove a request.
#[derive(Debug, Clone, Copy, PartialEq, Eq, Structural)]
pub enum RequestProvenance {
    FirstParty,
    CrossSite,
}

/// What a browser's word about the page behind a request means. A client that says nothing is no
/// browser.
pub open spec fn provenance_of(sec_fetch_site: Option<Seq<char>>) -> RequestProvenance {
    if sec_fetch_site == Some("cross-site"@) {
        RequestProvenance::CrossSite
    } else {
        RequestProvenance::FirstParty
    }
}

/// What a browser's word about the page behind a request means.
pub fn provenance_for(sec_fetch_site: Option<&str>) -> (r: RequestProvenance)
    ensures
        r == provenance_of(text::opt_str_view(sec_fetch_site)),
{
    match sec_fetch_site {
        Some(s) => {
            if text::same(s, "cross-site") {
                RequestProvenance::CrossSite
            } else {
                RequestProvenance::FirstParty
            }
        },
        None => RequestProvenance::FirstParty,
    }
}

// ---- the credential ----------------------------------------------------------------------------

/// A text without the white space around it, where anything is left.
pub open spec fn unless_blank(s: Option<Seq<char>>) -> Option<Seq<char>> {
    match s {
        Some(t) => if text::is_blank(t) {
            None
        } else {
            Some(text::trimmed(t))
        },
        None => None,
    }
}

fn trimmed_unless_blank(s: Option<&str>) -> (r: Option<String>)
    ensures
        text::opt_view(r) == unless_blank(text::opt_str_view(s)),
{
    match s {
        Some(t) => {
            let out = text::trim(t);
            if out.as_str().is_empty() {
                None
            } else {
                Some(out)
            }
        },
        None => None,
    }
}

/// The credential of a request: its header, else the one among its parameters. A blank one is none.
pub open spec fn credential(header: Option<Seq<char>>, req: Json) -> Option<Seq<char>> {
    let h = unless_blank(header);
    if h is Some {
        h
    } else {
        match req.field("params"@) {
            Some(p) => unless_blank(p.text_field("_control_token"@)),
            None => None,
        }
    }
}

/// The credential of a request.
pub fn presented_token(header: Option<&str>, req: &Json) -> (r: Option<String>)
    ensures
        text::opt_view(r) == credential(text::opt_str_view(header), *req),
{
    let h = trimmed_unless_blank(header);
    if h.is_some() {
        return h;
    }
    match req.get("params") {
        Some(p) => trimmed_unless_blank(p.get_str("_control_token")),
        None => None,
    }
}

/// The credential of a frame. A blank one is none.
pub fn ws_token(frame: &Json) -> (r: Option<String>)
    ensures
        text::opt_view(r) == unless_blank(frame.text_field("token"@)),
{
    trimmed_unless_blank(frame.get_str("token"))
}

/// The credential of a call of the wallet's own interface: its header unless that is empty, else the
/// one in its body.
pub open spec fn wallet_credential(header: Option<Seq<char>>, body: Option<Json>) -> Option<
    Seq<char>,
> {
    if header is Some && header->0.len() > 0 {
        header
    } else {
        match body {
            Some(b) => b.text_field("_control_token"@),
            None => None,
        }
    }
}

/// The credential of a call of the wallet's own interface. `body` is what was sent, where that is
/// JSON.
pub fn presented_wallet_token(header: Option<&str>, body: Option<&Json>) -> (r: Option<String>)
    ensures
        text::opt_view(r) == wallet_credential(
            text::opt_str_view(header),
            crate::json::value_of(body),
        ),
{
    if let Some(t) = header {
        if !t.is_empty() {
            return Some(t.to_owned());
        }
    }
    match body {
        Some(b) => match b.get_str("_control_token") {
            Some(t) => Some(t.to_owned()),
            None => None,
        },
        None => None,
    }
}

/// How a call is guarded.
#[derive(Debug, Clone, Copy, PartialEq, Eq, Structural)]
pub struct Guard {
    /// Whether the control token alone opens it.
    pub master_only: bool,
    /// Whether nothing opens it where the node has no control token.
    pub closed_without_master: bool,
}

/// Whether a guard may answer `b`. The control token opens every guard; a paired controller's token
/// opens one that is not kept for the control token; nothing else opens any. An empty control token
/// is no credential.
pub open spec fn admits<F: Fn(&str) -> bool>(
    guard: Guard,
    token: Option<Seq<char>>,
    master: Seq<char>,
    is_paired: F,
    b: bool,
) -> bool {
    match token {
        None => !b,
        Some(t) => if master.len() > 0 && t == master {
            b
        } else if guard.master_only || (guard.closed_without_master && master.len() == 0) {
            !b
        } else {
            may_say(is_paired, t, b)
        },
    }
}

/// Whether a credential opens a guard.
pub fn guard_admits<F: Fn(&str) -> bool>(
    guard: Guard,
    token: Option<&str>,
    master: &str,
    is_paired: &F,
) -> (r: bool)
    requires
        forall|t: &str| call_requires(*is_paired, (t,)),
    ensures
        admits(guard, text::opt_str_view(token), master@, *is_paired, r),
{
    match token {
        None => false,
        Some(t) => {
            if !master.is_empty() && text::same(t, master) {
                return true;
            }
            if guard.master_only || (guard.closed_without_master && master.is_empty()) {
                return false;
            }
            let r = is_paired(t);
            proof {
                assert(call_ensures(*is_paired, (t,), r));
            }
            r
        },
    }
}

/// What is known of a method besides its name.
#[derive(Debug, Clone, Copy, PartialEq, Eq, Structural)]
pub struct MethodTraits {
    /// It reads what anyone may read, though its name is an operator's.
    pub open_read: bool,
    /// Its effect outlives the credential it was called with, so the control token alone opens it.
    pub master_only: bool,
    /// It is a wallet's method that signs, spends or changes what the wallet keeps.
    pub wallet_gated: bool,
}

/// How the operator's methods are guarded.
pub open spec fn control_guard(t: MethodTraits) -> Guard {
    Guard { master_only: t.master_only, closed_without_master: false }
}

/// How the wallet's methods are guarded.
pub open spec fn wallet_guard(t: MethodTraits) -> Guard {
    Guard { master_only: t.master_only, closed_without_master: true }
}

/// How the methods are guarded that make the node hold content, or that tell what it holds.
pub open spec fn cache_guard() -> Guard {
    Guard { master_only: false, closed_without_master: false }
}

/// How the methods are guarded that use the node's own signing key and inbox.
pub open spec fn chat_guard() -> Guard {
    Guard { master_only: false, closed_without_master: true }
}

/// Whether a credential opens an operator's method.
pub fn control_call_authorized<F: Fn(&str) -> bool>(
    traits: MethodTraits,
    token: Option<&str>,
    master: &str,
    is_paired: &F,
) -> (r: bool)
    requires
        forall|t: &str| call_requires(*is_paired, (t,)),
    ensures
        admits(control_guard(traits), text::opt_str_view(token), master@, *is_paired, r),
{
    guard_admits(
        Guard { master_only: traits.master_only, closed_without_master: false },
        token,
        master,
        is_paired,
    )
}

/// Whether a credential opens a wallet's method. A method that only reads is open.
pub fn wallet_call_authorized<F: Fn(&str) -> bool>(
    traits: MethodTraits,
    token: Option<&str>,
    master: &str,
    is_paired: &F,
) -> (r: bool)
    requires
        forall|t: &str| call_requires(*is_paired, (t,)),
    ensures
        !traits.wallet_gated ==> r,
        traits.wallet_gated ==> admits(
            wallet_guard(traits),
            text::opt_str_view(token),
            master@,
            *is_paired,
            r,
        ),
{
    if !traits.wallet_gated {
        return true;
    }
    guard_admits(
        Guard { master_only: traits.master_only, closed_without_master: true },
        token,
        master,
        is_paired,
    )
}

/// Whether a method uses the node's own signing key or inbox.
pub open spec fn gated_chat_method(method: Seq<char>) -> bool {
    method == "chat.send"@ || method == "chat.poll"@
}

/// Whether a method uses the node's own signing key or inbox.
pub fn is_gated_chat_method(method: &str) -> (r: bool)
    ensures
        r == gated_chat_method(method@),
{
    text::same(method, "chat.send") || text::same(method, "chat.poll")
}

/// Whether a credential opens such a method.
pub fn chat_call_authorized<F: Fn(&str) -> bool>(
    token: Option<&str>,
    master: &str,
    is_paired: F,
) -> (r: bool)
    requires
        forall|t: &str| call_requires(is_paired, (t,)),
    ensures
        admits(chat_guard(), text::opt_str_view(token), master@, is_paired, r),
{
    guard_admits(
        Guard { master_only: false, closed_without_master: true },
        token,
        master,
        &is_paired,
    )
}

// ---- laws --------------------------------------------------------------------------------------

/// **Law: no credential opens nothing.** A call without one is refused by every guard.
pub proof fn law_no_credential_opens_nothing<F: Fn(&str) -> bool>(
    guard: Guard,
    master: Seq<char>,
    is_paired: F,
)
    ensures
        !admits(guard, None, master, is_paired, true),
{
}

/// **Law: a blank text is no credential.** Neither a request nor a frame that carries only white space
/// presents one.
pub proof fn law_a_blank_token_is_none(header: Seq<char>, req: Json, frame: Json)
    requires
        text::is_blank(header),
        req.field("params"@) is None,
    ensures
        credential(Some(header), req) is None,
        frame.text_field("token"@) == Some(header) ==> unless_blank(frame.text_field("token"@)) is None,
{
}

/// **Law: without a control token the wallet and the chat stay closed.** Where the node has none, no
/// credential whatever opens either.
pub proof fn law_without_a_control_token_wallet_and_chat_are_closed<F: Fn(&str) -> bool>(
    t: MethodTraits,
    token: Option<Seq<char>>,
    is_paired: F,
)
    ensures
        !admits(wallet_guard(t), token, Seq::empty(), is_paired, true),
        !admits(chat_guard(), token, Seq::empty(), is_paired, true),
{
}

/// **Law: a paired controller does not reach what outlives it.** A method kept for the control token
/// opens for that token alone, by whichever name it is called.
pub proof fn law_the_master_tier_opens_for_the_control_token_alone<F: Fn(&str) -> bool>(
    t: MethodTraits,
    token: Option<Seq<char>>,
    master: Seq<char>,
    is_paired: F,
)
    requires
        t.master_only,
        admits(control_guard(t), token, master, is_paired, true) || admits(
            wallet_guard(t),
            token,
            master,
            is_paired,
            true,
        ),
    ensures
        token == Some(master),
        master.len() > 0,
{
}

/// **Law: the operator is never turned away at the door.** Whatever the limiter says, the node's own
/// operator is let in.
pub proof fn law_the_operator_is_never_limited<L: Fn(&Requestor) -> bool>(limiter: L, ip: Ip, b: bool)
    requires
        loops_back(ip),
        ingress(limiter, counted(ip), b),
    ensures
        b,
{
}

/// **Law: the operator is one who calls from this machine.** A read is the operator's own exactly where
/// it is counted as the operator's.
pub proof fn law_origin_and_requestor_agree(ip: Ip)
    ensures
        origin_of(ip) == ReadOrigin::Local <==> counted(ip) is Local,
{
}

/// **Law: where a credential is found.** A header that is not blank is the credential, without the white
/// space around it, whatever the request holds. Where there is none, or a blank one, it is the text under
/// `_control_token` among the parameters, trimmed too, unless that is blank; and where that is missing
/// there is no credential.
pub proof fn law_a_credential_is_found_in_the_header_or_the_parameters(
    header: Option<Seq<char>>,
    req: Json,
    params: Json,
    token: Seq<char>,
)
    ensures
        header matches Some(h) ==> (exists|i: int| 0 <= i < h.len() && !text::is_white(#[trigger] h[i]))
            ==> credential(header, req) == Some(text::trimmed(h)),
        (header matches Some(h) ==> forall|i: int| 0 <= i < h.len() ==> text::is_white(#[trigger] h[i]))
            && req.field("params"@) == Some(params) && params.text_field("_control_token"@) == Some(token) && (
        exists|i: int| 0 <= i < token.len() && !text::is_white(#[trigger] token[i])) ==> credential(
            header,
            req,
        ) == Some(text::trimmed(token)),
        header is None && req.field("params"@) is None ==> credential(header, req) is None,
        header is None && req.field("params"@) == Some(params) && params.text_field("_control_token"@) is None
            ==> credential(header, req) is None,
{
    if let Some(h) = header {
        text::law_blank_is_white_throughout(h);
    }
    text::law_blank_is_white_throughout(token);
}

/// **Law: a frame's credential is its token, trimmed, unless it is blank.**
pub proof fn law_a_frames_credential_is_its_token(token: Seq<char>)
    ensures
        unless_blank(None) is None,
        (exists|i: int| 0 <= i < token.len() && !text::is_white(#[trigger] token[i])) ==> unless_blank(
            Some(token),
        ) == Some(text::trimmed(token)),
        (forall|i: int| 0 <= i < token.len() ==> text::is_white(#[trigger] token[i])) ==> unless_blank(
            Some(token),
        ) is None,
{
    text::law_blank_is_white_throughout(token);
}

/// **Law: the wallet's own interface takes the header as it is.** A header that is not empty is the
/// credential; otherwise it is the text under `_control_token` in the body, where there is one.
pub proof fn law_where_the_wallets_credential_is_found(
    header: Option<Seq<char>>,
    body: Json,
    token: Seq<char>,
)
    ensures
        header matches Some(h) ==> h.len() > 0 ==> wallet_credential(header, Some(body)) == header
            && wallet_credential(header, None) == header,
        (header matches Some(h) ==> h.len() == 0) && body.text_field("_control_token"@) == Some(token)
            ==> wallet_credential(header, Some(body)) == Some(token),
        (header matches Some(h) ==> h.len() == 0) ==> wallet_credential(header, None) is None,
        (header matches Some(h) ==> h.len() == 0) && body.text_field("_control_token"@) is None
            ==> wallet_credential(header, Some(body)) is None,
{
}

/// **Law: the control token opens every guard.** Where the node has one, a call that presents it is let
/// in, and never turned away, whatever the guard and whoever is paired.
pub proof fn law_the_control_token_opens_every_guard<F: Fn(&str) -> bool>(
    guard: Guard,
    master: Seq<char>,
    is_paired: F,
    b: bool,
)
    requires
        master.len() > 0,
    ensures
        admits(guard, Some(master), master, is_paired, b) <==> b,
{
}

/// **Law: any other credential opens what pairing opens.** A credential that is not the control token is
/// judged by pairing alone: where every answer about it is yes it is let in, unless the guard is kept for
/// the control token or is closed without one; where every answer is no it is turned away.
pub proof fn law_pairing_decides_for_any_other_credential<F: Fn(&str) -> bool>(
    guard: Guard,
    token: Seq<char>,
    master: Seq<char>,
    is_paired: F,
    b: bool,
)
    requires
        token != master || master.len() == 0,
        admits(guard, Some(token), master, is_paired, b),
    ensures
        guard.master_only ==> !b,
        guard.closed_without_master && master.len() == 0 ==> !b,
        (forall|c: bool| #[trigger] may_say(is_paired, token, c) ==> !c) ==> !b,
        !guard.master_only && (master.len() > 0 || !guard.closed_without_master) && (forall|c: bool| #[trigger]
            may_say(is_paired, token, c) ==> c) ==> b,
{
}

/// **Law: which guard stands before which methods.** Each guard is kept for the control token exactly
/// where the method is; the wallet and the chat are closed without a control token, the operator's
/// methods and the held content are not.
pub proof fn law_which_guard_stands_where(t: MethodTraits)
    ensures
        control_guard(t).master_only == t.master_only,
        wallet_guard(t).master_only == t.master_only,
        !cache_guard().master_only,
        !chat_guard().master_only,
        !control_guard(t).closed_without_master,
        wallet_guard(t).closed_without_master,
        !cache_guard().closed_without_master,
        chat_guard().closed_without_master,
{
}

/// **Law: who calls from this machine is the operator.** By the numbers of a short address: the operator
/// where the first is 127, and otherwise a stranger who is counted by the address; two strangers are
/// counted apart.
pub proof fn law_strangers_are_counted_apart(
    a: u8,
    b: u8,
    c: u8,
    d: u8,
    e: u8,
    f: u8,
    g: u8,
    h: u8,
)
    ensures
        origin_of(Ip::V4(a, b, c, d)) == ReadOrigin::Local <==> a == 127,
        counted(Ip::V4(a, b, c, d)) is Local <==> a == 127,
        a != 127 ==> counted(Ip::V4(a, b, c, d)) == RequestorModel::Anonymous(text_of(Ip::V4(a, b, c, d))),
        a != 127 && counted(Ip::V4(a, b, c, d)) == counted(Ip::V4(e, f, g, h)) ==> a == e && b == f && c == g
            && d == h,
{
    crate::net::law_addresses_are_told_apart(a, b, c, d, e, f, g, h, 0, 0);
}

/// **Law: a stranger is let in where the limiter lets them in.** What the limiter answers for a stranger
/// is what is answered at the door.
pub proof fn law_a_stranger_is_let_in_by_the_limiter<L: Fn(&Requestor) -> bool>(
    limiter: L,
    who: RequestorModel,
    b: bool,
)
    requires
        who is Anonymous,
        ingress(limiter, who, b),
    ensures
        exists|q: &Requestor| #[trigger] call_ensures(limiter, (q,), b) && q@ == who,
{
}

/// **Law: a foreign page says so itself.** Only the browser's own word for one makes a request a foreign
/// page's; any other word, and none, does not.
pub proof fn law_only_cross_site_is_foreign(said: Option<Seq<char>>)
    ensures
        provenance_of(said) == RequestProvenance::CrossSite <==> (said matches Some(s) && s == "cross-site"@),
        provenance_of(None) == RequestProvenance::FirstParty,
{
}

/// **Law: which methods use the signing key or the inbox.**
pub proof fn law_sending_and_polling_are_gated(method: Seq<char>)
    ensures
        gated_chat_method(method) <==> method == "chat.send"@ || method == "chat.poll"@,
{
}

/// **Law: a requestor is seen whole.**
pub proof fn law_a_requestor_is_seen_whole(a: String)
    ensures
        Requestor::Local@ == RequestorModel::Local,
        Requestor::Anonymous(a)@ == RequestorModel::Anonymous(a@),
{
}

} // verus!
