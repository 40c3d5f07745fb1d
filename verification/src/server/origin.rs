//! Which web origins and host names the node answers.
//!
//! The node listens on the loopback address, so who may talk to it is decided by the name a request
//! was sent to and by the page that sent it. A page of this machine may use everything; a desktop
//! program's page may read content and nothing else.
use vstd::prelude::*;

use crate::config::{host_allowed, host_is_allowed};
use crate::meta::ErrorCode;
use crate::text;

verus! {

/// The variable that lists further origins of desktop programs.
pub const APP_ORIGINS_ENV: &'static str = "DIG_NODE_CORS_APP_ORIGINS";

/// The response headers that a page of another origin may read.
pub const EXPOSED_DIG_HEADERS: [&'static str; 11] = [
    "x-dig-verified",
    "x-dig-root",
    "x-dig-inclusion-proof",
    "x-dig-chunk-lens",
    "x-dig-source",
    "x-dig-peer-tier",
    "x-dig-store-id",
    "x-dig-capsule",
    "x-dig-resource-key",
    "x-dig-owner-puzzle-hash",
    "x-dig-generation",
];

// ---- origins -----------------------------------------------------------------------------------

/// Whether an origin is a page of this machine: an extension's, or one served under a local name.
pub open spec fn local_origin(origin: Seq<char>) -> bool {
    ||| text::starts(origin, "chrome-extension://"@)
    ||| text::starts(origin, "http://"@) && !text::is_blank(origin.skip("http://"@.len() as int))
        && host_allowed(origin.skip("http://"@.len() as int))
}

/// Whether an origin is a page of this machine. An origin always names a host, so a blank one is
/// none.
pub fn is_local_origin(origin: &str) -> (r: bool)
    ensures
        r == local_origin(origin@),
{
    if text::starts_with(origin, "chrome-extension://") {
        return true;
    }
    match text::strip_prefix(origin, "http://") {
        None => false,
        Some(rest) => !text::blank(rest.as_str()) && host_is_allowed(Some(rest.as_str())),
    }
}

/// Whether the list names the origin: one of its pieces, trimmed, is the origin.
pub open spec fn lists(list: Seq<char>, origin: Seq<char>) -> bool {
    exists|i: int|
        0 <= i < text::pieces(list, ",;"@).len() && #[trigger] names(
            text::pieces(list, ",;"@)[i],
            origin,
        )
}

/// Whether one entry of the list is the origin. An empty entry names nothing.
pub open spec fn names(entry: Seq<char>, origin: Seq<char>) -> bool {
    text::trimmed(entry).len() > 0 && text::trimmed(entry) == origin
}

/// Whether an origin is a desktop program's: one of the two that need no configuration, or one that
/// the operator listed.
pub open spec fn app_origin(origin: Seq<char>, list: Option<Seq<char>>) -> bool {
    ||| origin == "tauri://localhost"@
    ||| origin == "https://tauri.localhost"@
    ||| list is Some && lists(list->0, origin)
}

/// Whether an origin is a desktop program's. `list` is what [`APP_ORIGINS_ENV`] holds.
pub fn is_app_origin(origin: &str, list: Option<&str>) -> (r: bool)
    ensures
        r == app_origin(origin@, text::opt_str_view(list)),
{
    if text::same(origin, "tauri://localhost") || text::same(origin, "https://tauri.localhost") {
        return true;
    }
    let entries = match list {
        None => {
            return false;
        },
        Some(l) => text::split_any(l, ",;"),
    };
    let ghost all = text::pieces(list->0@, ",;"@);
    let mut i: usize = 0;
    while i < entries.len()
        invariant
            i <= entries@.len(),
            text::views(entries@) == all,
            all == text::pieces(list->0@, ",;"@),
            list is Some,
            forall|j: int| 0 <= j < i ==> !names(#[trigger] all[j], origin@),
        decreases entries@.len() - i,
    {
        let entry = text::trim(entries[i].as_str());
        proof {
            assert(all[i as int] == entries@[i as int]@);
        }
        if !entry.as_str().is_empty() && text::same(entry.as_str(), origin) {
            proof {
                assert(names(all[i as int], origin@));
            }
            return true;
        }
        i += 1;
    }
    false
}

// ---- methods and paths -------------------------------------------------------------------------

/// The paths of the two sockets.
pub open spec fn websocket_path(path: Seq<char>) -> bool {
    path == "/ws"@ || path == "/ws/status"@
}

/// Whether the path is a socket's.
pub fn is_websocket_path(path: &str) -> (r: bool)
    ensures
        r == websocket_path(path@),
{
    text::same(path, "/ws") || text::same(path, "/ws/status")
}

/// Whether a request only reads content.
pub open spec fn content_read(method: Seq<char>, path: Seq<char>) -> bool {
    (method == "GET"@ || method == "HEAD"@) && !websocket_path(path)
}

/// Whether a request only reads content: a reading method, on a path that is no socket's.
pub fn is_content_read(method: &str, path: &str) -> (r: bool)
    ensures
        r == content_read(method@, path@),
{
    (text::same(method, "GET") || text::same(method, "HEAD")) && !is_websocket_path(path)
}

/// The characters a request method is made of.
pub open spec fn method_char(c: char) -> bool {
    let n = c as int;
    ||| n == 0x21
    ||| 0x23 <= n <= 0x27
    ||| n == 0x2A
    ||| n == 0x2B
    ||| n == 0x2D
    ||| n == 0x2E
    ||| 0x30 <= n <= 0x39
    ||| 0x41 <= n <= 0x5A
    ||| 0x5E <= n <= 0x7A
    ||| n == 0x7C
    ||| n == 0x7E
}

/// Whether a text is a request method.
pub open spec fn is_method(s: Seq<char>) -> bool {
    s.len() > 0 && forall|i: int| 0 <= i < s.len() ==> method_char(#[trigger] s[i])
}

/// `http::Method::from_bytes`, which `axum` re-exports, takes a text for a method exactly where it is
/// not empty and each of its bytes is one of the characters of a token.
#[verifier::external_body]
fn method_is_valid(s: &str) -> (r: bool)
    ensures
        r == is_method(s@),
{
    axum::http::Method::from_bytes(s.as_bytes()).is_ok()
}

/// The method a decision about origins is made against.
pub open spec fn judged_method(method: Seq<char>, requested: Option<Seq<char>>) -> Seq<char> {
    if method == "OPTIONS"@ && requested is Some && is_method(requested->0) {
        requested->0
    } else {
        method
    }
}

/// The method a decision about origins is made against: the request's own, except that a question
/// asked ahead of a request is judged by the method it asks about.
pub fn effective_method(method: &str, requested: Option<&str>) -> (r: String)
    ensures
        r@ == judged_method(method@, text::opt_str_view(requested)),
{
    if text::same(method, "OPTIONS") {
        if let Some(m) = requested {
            if method_is_valid(m) {
                return m.to_owned();
            }
        }
    }
    method.to_owned()
}

/// Whether the origin is told that it may read the answer.
pub open spec fn reflected(
    origin: Seq<char>,
    method: Seq<char>,
    path: Seq<char>,
    list: Option<Seq<char>>,
) -> bool {
    local_origin(origin) || app_origin(origin, list) && content_read(method, path)
}

/// Whether the origin is told that it may read the answer: a page of this machine always, a desktop
/// program's page where the request only reads content.
pub fn reflects_origin(origin: &str, method: &str, path: &str, list: Option<&str>) -> (r: bool)
    ensures
        r == reflected(origin@, method@, path@, text::opt_str_view(list)),
{
    if is_local_origin(origin) {
        return true;
    }
    is_app_origin(origin, list) && is_content_read(method, path)
}

// ---- refusals before any handler runs ----------------------------------------------------------

/// A request that is turned away: the status of the answer and the error in its body.
#[derive(Debug, PartialEq, Eq)]
pub struct Turned {
    pub status: u16,
    pub code: ErrorCode,
    pub message: String,
}

impl Turned {
    /// Whether the answer is that one.
    pub open spec fn is(self, status: u16, code: ErrorCode, message: Seq<char>) -> bool {
        self.status == status && self.code == code && self.message@ == message
    }
}

/// What a request for another host is told.
pub const HOST_NOT_ALLOWED: &'static str = "dig-node: Host not allowed — this loopback node answers only to \
dig.local / localhost / 127.0.0.1 / 127.0.0.2 / ::1";

/// Whether the host guard lets a request through.
pub open spec fn host_passes(method: Seq<char>, host: Option<Seq<char>>) -> bool {
    method == "OPTIONS"@ || host is None || host_allowed(host->0)
}

/// Turn a request away that was sent to another host. A question asked ahead of a request is always
/// answered.
pub fn host_guard(method: &str, host: Option<&str>) -> (r: Result<(), Turned>)
    ensures
        r is Ok <==> host_passes(method@, text::opt_str_view(host)),
        r matches Err(t) ==> t.is(421, ErrorCode::InvalidRequest, HOST_NOT_ALLOWED@),
{
    if text::same(method, "OPTIONS") || host_is_allowed(host) {
        return Ok(());
    }
    Err(
        Turned {
            status: 421,
            code: ErrorCode::InvalidRequest,
            message: HOST_NOT_ALLOWED.to_owned(),
        },
    )
}

/// Whether a socket is opened for an origin. A client that names no origin is no browser.
pub open spec fn socket_opens(origin: Option<Seq<char>>) -> bool {
    origin is None || local_origin(origin->0)
}

fn socket_guard(origin: Option<&str>, message: &'static str) -> (r: Result<(), Turned>)
    ensures
        r is Ok <==> socket_opens(text::opt_str_view(origin)),
        r matches Err(t) ==> t.is(403, ErrorCode::InvalidRequest, message@),
{
    match origin {
        None => Ok(()),
        Some(o) => {
            if is_local_origin(o) {
                Ok(())
            } else {
                Err(
                    Turned {
                        status: 403,
                        code: ErrorCode::InvalidRequest,
                        message: message.to_owned(),
                    },
                )
            }
        },
    }
}

/// Whether the status socket is opened for an origin. A browser opens a socket whatever the answer's
/// headers say, so the node itself turns a foreign origin away.
pub fn ws_status(origin: Option<&str>) -> (r: Result<(), Turned>)
    ensures
        r is Ok <==> socket_opens(text::opt_str_view(origin)),
        r matches Err(t) ==> t.is(
            403,
            ErrorCode::InvalidRequest,
            "dig-node: Origin not allowed for /ws/status"@,
        ),
{
    socket_guard(origin, "dig-node: Origin not allowed for /ws/status")
}

/// Whether the wallet socket is opened for an origin, by the same rule.
pub fn ws_wallet(origin: Option<&str>) -> (r: Result<(), Turned>)
    ensures
        r is Ok <==> socket_opens(text::opt_str_view(origin)),
        r matches Err(t) ==> t.is(
            403,
            ErrorCode::InvalidRequest,
            "dig-node: Origin not allowed for /ws"@,
        ),
{
    socket_guard(origin, "dig-node: Origin not allowed for /ws")
}

// ---- laws --------------------------------------------------------------------------------------

/// **Law: a desktop program's page reads content and nothing else.** An origin that is no page of this
/// machine is reflected for `GET` and `HEAD` alone, and never on a socket's path.
pub proof fn law_an_app_origin_only_reads_content(
    origin: Seq<char>,
    method: Seq<char>,
    path: Seq<char>,
    list: Option<Seq<char>>,
)
    requires
        !local_origin(origin),
        reflected(origin, method, path, list),
    ensures
        method == "GET"@ || method == "HEAD"@,
        !websocket_path(path),
{
}

/// **Law: the question and the request get one answer.** A question asked ahead of a request is
/// answered as the request it asks about would be.
pub proof fn law_a_preflight_is_answered_as_its_request(
    origin: Seq<char>,
    path: Seq<char>,
    list: Option<Seq<char>>,
    method: Seq<char>,
)
    requires
        is_method(method),
    ensures
        reflected(origin, judged_method("OPTIONS"@, Some(method)), path, list) == reflected(
            origin,
            judged_method(method, None),
            path,
            list,
        ),
{
}

/// **Law: a question about nothing is refused.** A preflight that names no method is judged as itself,
/// which no desktop program's page may do.
pub proof fn law_a_preflight_without_a_method_fails_closed(
    origin: Seq<char>,
    path: Seq<char>,
    list: Option<Seq<char>>,
)
    requires
        !local_origin(origin),
    ensures
        !reflected(origin, judged_method("OPTIONS"@, None), path, list),
{
    reveal_strlit("OPTIONS");
    reveal_strlit("GET");
    reveal_strlit("HEAD");
    assert("OPTIONS"@.len() == 7);
}

/// **Law: a socket opens for no origin that is not reflected everywhere.** The two statements of who
/// may reach a socket agree.
pub proof fn law_sockets_agree_with_reflection(
    origin: Seq<char>,
    method: Seq<char>,
    list: Option<Seq<char>>,
)
    ensures
        socket_opens(Some(origin)) == reflected(origin, method, "/ws"@, list),
        socket_opens(Some(origin)) == reflected(origin, method, "/ws/status"@, list),
{
}

/// **Law: which pages are this machine's own.** Any page of a browser extension, and any page that a plain
/// web address names whose host is one of the node's own names; no page of another kind of address, and
/// none whose address names no host.
pub proof fn law_which_pages_are_local(id: Seq<char>, host: Seq<char>, origin: Seq<char>)
    ensures
        local_origin("chrome-extension://"@ + id),
        !text::is_blank(host) ==> (local_origin("http://"@ + host) <==> host_allowed(host)),
        local_origin("http://"@ + "localhost"@),
        local_origin("http://"@ + "dig.local"@),
        local_origin("http://"@ + "127.0.0.1"@),
        local_origin("http://"@ + "127.0.0.2"@),
        local_origin("http://"@ + "[::1]"@),
        !local_origin("http://"@),
        !local_origin("https://"@ + host),
        !text::starts(origin, "chrome-extension://"@) && !text::starts(origin, "http://"@) ==> !local_origin(
            origin,
        ),
{
    text::law_parts_are_found("chrome-extension://"@, id, Seq::empty());
    lemma_plain_page(host);
    lemma_plain_page("localhost"@);
    lemma_plain_page("dig.local"@);
    lemma_plain_page("127.0.0.1"@);
    lemma_plain_page("127.0.0.2"@);
    lemma_plain_page("[::1]"@);
    lemma_own_names();
    lemma_no_page(host);
}

proof fn lemma_plain_page(host: Seq<char>)
    ensures
        !text::is_blank(host) && host_allowed(host) ==> local_origin("http://"@ + host),
        !(!text::is_blank(host) && host_allowed(host)) ==> !local_origin("http://"@ + host),
{
    reveal_strlit("http://");
    reveal_strlit("chrome-extension://");
    let h = "http://"@;
    let s = h + host;
    text::law_parts_are_found(h, host, Seq::empty());
    assert(s.skip(h.len() as int) =~= host);
    assert(s[0] == 'h');
    text::law_parts_are_found(s, "chrome-extension://"@, Seq::empty());
    assert("chrome-extension://"@[0] == 'c');
    assert("chrome-extension://"@.len() == 19);
}

proof fn lemma_own_names()
    ensures
        !text::is_blank("localhost"@) && host_allowed("localhost"@),
        !text::is_blank("dig.local"@) && host_allowed("dig.local"@),
        !text::is_blank("127.0.0.1"@) && host_allowed("127.0.0.1"@),
        !text::is_blank("127.0.0.2"@) && host_allowed("127.0.0.2"@),
        !text::is_blank("[::1]"@) && host_allowed("[::1]"@),
{
    let port = seq!['8'];
    crate::config::law_the_node_answers_to_its_own_names("localhost"@, port, port);
    crate::config::law_the_node_answers_to_its_own_names("dig.local"@, port, port);
    crate::config::law_the_node_answers_to_its_own_names("127.0.0.1"@, port, port);
    crate::config::law_the_node_answers_to_its_own_names("127.0.0.2"@, port, port);
    crate::config::law_the_node_answers_to_its_own_names("[::1]"@, port, port);
    assert(!text::is_blank("localhost"@)) by {
        reveal_strlit("localhost");
        text::law_blank_is_white_throughout("localhost"@);
        assert(!text::is_white("localhost"@[0]));
    }
    assert(!text::is_blank("dig.local"@)) by {
        reveal_strlit("dig.local");
        text::law_blank_is_white_throughout("dig.local"@);
        assert(!text::is_white("dig.local"@[0]));
    }
    assert(!text::is_blank("127.0.0.1"@)) by {
        reveal_strlit("127.0.0.1");
        text::law_blank_is_white_throughout("127.0.0.1"@);
        assert(!text::is_white("127.0.0.1"@[0]));
    }
    assert(!text::is_blank("127.0.0.2"@)) by {
        reveal_strlit("127.0.0.2");
        text::law_blank_is_white_throughout("127.0.0.2"@);
        assert(!text::is_white("127.0.0.2"@[0]));
    }
    assert(!text::is_blank("[::1]"@)) by {
        reveal_strlit("[::1]");
        text::law_blank_is_white_throughout("[::1]"@);
        assert(!text::is_white("[::1]"@[0]));
    }
}

proof fn lemma_no_page(host: Seq<char>)
    ensures
        !local_origin("http://"@),
        !local_origin("https://"@ + host),
{
    lemma_plain_page(Seq::empty());
    text::law_blank_is_white_throughout(Seq::empty());
    assert("http://"@ + Seq::<char>::empty() =~= "http://"@);
    reveal_strlit("http://");
    reveal_strlit("https://");
    reveal_strlit("chrome-extension://");
    let s = "https://"@ + host;
    text::law_parts_are_found(s, "http://"@, Seq::empty());
    text::law_parts_are_found(s, "chrome-extension://"@, Seq::empty());
    assert(s[4] == 's');
    assert(s[0] == 'h');
    assert("http://"@[4] == ':');
    assert("http://"@.len() == 7);
    assert("chrome-extension://"@[0] == 'c');
    assert("chrome-extension://"@.len() == 19);
}

/// **Law: which pages are desktop programs'.** The two of the desktop shell always; besides them those that
/// the operator lists, and no other. A list names what stands between its commas and semicolons, without
/// the white space around it.
pub proof fn law_which_pages_are_programs(
    origin: Seq<char>,
    entry: Seq<char>,
    c: char,
    rest: Seq<char>,
    list: Option<Seq<char>>,
)
    requires
        c == ',' || c == ';',
        forall|i: int| 0 <= i < entry.len() ==> #[trigger] entry[i] != ',' && entry[i] != ';',
        origin.len() > 0,
    ensures
        app_origin("tauri://localhost"@, list),
        app_origin("https://tauri.localhost"@, list),
        origin != "tauri://localhost"@ && origin != "https://tauri.localhost"@ ==> !app_origin(origin, None) && (
        app_origin(origin, Some(entry)) <==> text::trimmed(entry) == origin) && (app_origin(
            origin,
            Some(entry + seq![c] + rest),
        ) <==> text::trimmed(entry) == origin || app_origin(origin, Some(rest))),
{
    reveal_strlit(",;");
    let seps = ",;"@;
    assert(seps =~= seq![',', ';']);
    assert(seps.contains(c)) by {
        assert(seps[0] == ',' && seps[1] == ';');
    }
    text::law_a_text_is_cut_at_each_separator(entry, c, rest, seps);
    let whole = entry + seq![c] + rest;
    let p = text::pieces(whole, seps);
    let q = text::pieces(rest, seps);
    assert(p == seq![entry] + q);
    let e = text::pieces(entry, seps);
    assert(e[0] == entry);
    if text::trimmed(entry) == origin {
        assert(names(e[0], origin));
        assert(p[0] == entry);
        assert(names(p[0], origin));
    }
    if lists(rest, origin) {
        let i = choose|i: int| 0 <= i < q.len() && #[trigger] names(q[i], origin);
        assert(p[i + 1] == q[i]);
        assert(names(p[i + 1], origin));
    }
    if lists(whole, origin) {
        let i = choose|i: int| 0 <= i < p.len() && #[trigger] names(p[i], origin);
        if i > 0 {
            assert(q[i - 1] == p[i]);
            assert(names(q[i - 1], origin));
        }
    }
}

/// **Law: what counts as reading content.** Getting or asking for the head of anything but the two sockets,
/// and nothing else.
pub proof fn law_what_counts_as_reading_content(method: Seq<char>, path: Seq<char>)
    ensures
        path != "/ws"@ && path != "/ws/status"@ ==> content_read("GET"@, path) && content_read("HEAD"@, path),
        !content_read(method, "/ws"@),
        !content_read(method, "/ws/status"@),
        method != "GET"@ && method != "HEAD"@ ==> !content_read(method, path),
{
}

/// **Law: whose pages may read an answer.** A page of this machine any answer; a listed program's the content
/// that it reads; a page of anyone else none.
pub proof fn law_whose_pages_may_read_an_answer(
    origin: Seq<char>,
    method: Seq<char>,
    path: Seq<char>,
    list: Option<Seq<char>>,
)
    ensures
        local_origin(origin) ==> reflected(origin, method, path, list),
        app_origin(origin, list) && (method == "GET"@ || method == "HEAD"@) && path != "/ws"@ && path
            != "/ws/status"@ ==> reflected(origin, method, path, list),
        !local_origin(origin) && !app_origin(origin, list) ==> !reflected(origin, method, path, list),
{
}

/// **Law: which method a request is judged by.** Its own; a preflight that names the method it asks for is
/// judged by that one.
pub proof fn law_which_method_a_request_is_judged_by(method: Seq<char>, asked: Seq<char>)
    ensures
        method != "OPTIONS"@ ==> judged_method(method, Some(asked)) == method,
        judged_method(method, None) == method,
        is_method(asked) ==> judged_method("OPTIONS"@, Some(asked)) == asked,
        !is_method(asked) ==> judged_method("OPTIONS"@, Some(asked)) == "OPTIONS"@,
{
}

/// **Law: what a method's name is made of.** Letters and digits stand in one; white space, controls, anything
/// beyond ASCII and the separators of a header do not.
pub proof fn law_what_a_method_is_made_of(c: char)
    ensures
        'a' <= c <= 'z' || 'A' <= c <= 'Z' || '0' <= c <= '9' || c == '-' || c == '_' ==> method_char(c),
        c as int <= 0x20 || c as int >= 0x7F ==> !method_char(c),
        c == '(' || c == ')' || c == ',' || c == '/' || c == ':' || c == ';' || c == '<' || c == '=' || c == '>'
            || c == '?' || c == '@' || c == '[' || c == '\\' || c == ']' || c == '{' || c == '}' || c == '"'
            ==> !method_char(c),
        !is_method(Seq::empty()),
        method_char(c) <==> is_method(seq![c]),
{
    assert(seq![c][0] == c);
}

/// **Law: which requests are let past the host check.** Those that name no host, those that name one of the
/// node's own, and preflights; a request by another method that names any other host is turned away.
pub proof fn law_which_hosts_pass(method: Seq<char>, host: Seq<char>)
    ensures
        host_passes(method, None),
        host_passes("OPTIONS"@, Some(host)),
        host_allowed(host) ==> host_passes(method, Some(host)),
        method != "OPTIONS"@ && !host_allowed(host) ==> !host_passes(method, Some(host)),
        socket_opens(None),
        local_origin(host) <==> socket_opens(Some(host)),
{
}

} // verus!
