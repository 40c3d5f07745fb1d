//! What goes over the wire: the envelope of an answer, the frames of the sockets, and what the node
//! says of itself.
use vstd::prelude::*;

use crate::json::{
    entry, entry_models, model, name_list, named, names, object, truth, whole, words, Json, JsonModel,
};
use crate::meta::ErrorCode;
use crate::server::ws::{SyncLifecycle, SyncStatus};
use crate::text;

verus! {

// ---- envelopes ---------------------------------------------------------------------------------

/// The envelope of an answer.
pub open spec fn result_envelope(id: JsonModel, result: JsonModel) -> JsonModel {
    JsonModel::Object(
        seq![
            named("jsonrpc"@, JsonModel::Text("2.0"@)),
            named("id"@, id),
            named("result"@, result),
        ],
    )
}

/// The envelope of an answer.
pub fn rpc_result(id: Json, result: Json) -> (r: Json)
    ensures
        model(r) == result_envelope(model(id), model(result)),
{
    let mut v: Vec<(String, Json)> = Vec::new();
    v.push(entry("jsonrpc", words("2.0")));
    v.push(entry("id", id));
    v.push(entry("result", result));
    proof {
        assert(entry_models(v@) =~= result_envelope(model(id), model(result))->Object_0);
    }
    object(v)
}

/// An error: its number, its words, and its name.
pub open spec fn error_object(code: ErrorCode, message: Seq<char>) -> JsonModel {
    JsonModel::Object(
        seq![
            named("code"@, JsonModel::Number(code.number())),
            named("message"@, JsonModel::Text(message)),
            named(
                "data"@,
                JsonModel::Object(seq![named("code"@, JsonModel::Text(code.symbol()))]),
            ),
        ],
    )
}

fn error_value(code: ErrorCode, message: &str) -> (r: Json)
    ensures
        model(r) == error_object(code, message@),
{
    let mut data: Vec<(String, Json)> = Vec::new();
    data.push(entry("code", words(code.name())));
    proof {
        assert(entry_models(data@) =~= seq![named("code"@, JsonModel::Text(code.symbol()))]);
    }
    let mut v: Vec<(String, Json)> = Vec::new();
    v.push(entry("code", whole(code.code())));
    v.push(entry("message", words(message)));
    v.push(entry("data", object(data)));
    proof {
        assert(entry_models(v@) =~= error_object(code, message@)->Object_0);
    }
    object(v)
}

/// The envelope of an error.
pub open spec fn error_envelope(id: JsonModel, code: ErrorCode, message: Seq<char>) -> JsonModel {
    JsonModel::Object(
        seq![
            named("jsonrpc"@, JsonModel::Text("2.0"@)),
            named("id"@, id),
            named("error"@, error_object(code, message)),
        ],
    )
}

/// The envelope of an error.
pub fn rpc_error(id: Json, code: ErrorCode, message: &str) -> (r: Json)
    ensures
        model(r) == error_envelope(model(id), code, message@),
{
    let mut v: Vec<(String, Json)> = Vec::new();
    v.push(entry("jsonrpc", words("2.0")));
    v.push(entry("id", id));
    v.push(entry("error", error_value(code, message)));
    proof {
        assert(entry_models(v@) =~= error_envelope(model(id), code, message@)->Object_0);
    }
    object(v)
}

// ---- frames of the wallet socket ---------------------------------------------------------------

/// The frame that answers a request.
pub open spec fn response_frame(id: JsonModel, ok: bool, name: Seq<char>, value: JsonModel) -> JsonModel {
    JsonModel::Object(
        seq![
            named("id"@, id),
            named("type"@, JsonModel::Text("response"@)),
            named("ok"@, JsonModel::Bool(ok)),
            named(name, value),
        ],
    )
}

fn response(id: Json, ok: bool, name: &str, value: Json) -> (r: Json)
    ensures
        model(r) == response_frame(model(id), ok, name@, model(value)),
{
    let mut v: Vec<(String, Json)> = Vec::new();
    v.push(entry("id", id));
    v.push(entry("type", words("response")));
    v.push(entry("ok", truth(ok)));
    v.push(entry(name, value));
    proof {
        assert(entry_models(v@) =~= response_frame(
            model(id),
            ok,
            name@,
            model(value),
        )->Object_0);
    }
    object(v)
}

/// The frame of an answer.
pub fn ws_result(id: Json, result: Json) -> (r: Json)
    ensures
        model(r) == response_frame(model(id), true, "result"@, model(result)),
{
    response(id, true, "result", result)
}

/// The frame of an error that came from elsewhere, as it came.
pub fn ws_passed_error(id: Json, error: Json) -> (r: Json)
    ensures
        model(r) == response_frame(model(id), false, "error"@, model(error)),
{
    response(id, false, "error", error)
}

/// A number and the words to it.
pub open spec fn coded(code: int, message: Seq<char>) -> JsonModel {
    JsonModel::Object(
        seq![
            named("code"@, JsonModel::Number(code)),
            named("message"@, JsonModel::Text(message)),
        ],
    )
}

fn coded_value(code: i64, message: &str) -> (r: Json)
    ensures
        model(r) == coded(code as int, message@),
{
    let mut v: Vec<(String, Json)> = Vec::new();
    v.push(entry("code", whole(code)));
    v.push(entry("message", words(message)));
    proof {
        assert(entry_models(v@) =~= coded(code as int, message@)->Object_0);
    }
    object(v)
}

/// The frame of an error of the node's own.
pub fn ws_err(id: Json, code: ErrorCode, message: &str) -> (r: Json)
    ensures
        model(r) == response_frame(model(id), false, "error"@, coded(code.number(), message@)),
{
    response(id, false, "error", coded_value(code.code(), message))
}

/// The frame of a call that the wallet refused: the wallet's status and its words.
pub fn ws_wallet_err(id: Json, status: u16, message: &str) -> (r: Json)
    ensures
        model(r) == response_frame(model(id), false, "error"@, coded(status as int, message@)),
{
    response(id, false, "error", coded_value(status as i64, message))
}

/// The name of how far the wallet is.
pub open spec fn lifecycle_name(s: SyncLifecycle) -> Seq<char> {
    match s {
        SyncLifecycle::Syncing => "syncing"@,
        SyncLifecycle::Synced => "synced"@,
        SyncLifecycle::Disconnected => "disconnected"@,
    }
}

/// A height, where it is known.
pub open spec fn height_model(h: Option<u32>) -> JsonModel {
    match h {
        Some(n) => JsonModel::Number(n as int),
        None => JsonModel::Null,
    }
}

fn height_value(h: Option<u32>) -> (r: Json)
    ensures
        model(r) == height_model(h),
{
    match h {
        Some(n) => Json::Uint(n as u64),
        None => Json::Null,
    }
}

/// The frame that tells how far the wallet is.
pub open spec fn status_frame_model(s: SyncStatus) -> JsonModel {
    JsonModel::Object(
        seq![
            named("state"@, JsonModel::Text(lifecycle_name(s.state))),
            named("peak_height"@, height_model(s.peak_height)),
            named("target_height"@, height_model(s.target_height)),
            named("type"@, JsonModel::Text("sync_status"@)),
        ],
    )
}

/// The frame that tells how far the wallet is.
pub fn status_push_frame(status: &SyncStatus) -> (r: Json)
    ensures
        model(r) == status_frame_model(*status),
{
    let name = match status.state {
        SyncLifecycle::Syncing => "syncing",
        SyncLifecycle::Synced => "synced",
        SyncLifecycle::Disconnected => "disconnected",
    };
    let mut v: Vec<(String, Json)> = Vec::new();
    v.push(entry("state", words(name)));
    v.push(entry("peak_height", height_value(status.peak_height)));
    v.push(entry("target_height", height_value(status.target_height)));
    v.push(entry("type", words("sync_status")));
    proof {
        assert(entry_models(v@) =~= status_frame_model(*status)->Object_0);
    }
    object(v)
}

/// The frame that carries a value of a kind.
pub open spec fn carrying(kind: Seq<char>, value: JsonModel) -> JsonModel {
    JsonModel::Object(seq![named("type"@, JsonModel::Text(kind)), named(kind, value)])
}

fn carry(kind: &str, value: Json) -> (r: Json)
    ensures
        model(r) == carrying(kind@, model(value)),
{
    let mut v: Vec<(String, Json)> = Vec::new();
    v.push(entry("type", words(kind)));
    v.push(entry(kind, value));
    proof {
        assert(entry_models(v@) =~= carrying(kind@, model(value))->Object_0);
    }
    object(v)
}

/// The frame that passes one of the wallet's events on.
pub fn event_frame(event: Json) -> (r: Json)
    ensures
        model(r) == carrying("event"@, model(event)),
{
    carry("event", event)
}

/// The frame that passes a tip on.
pub fn tip_frame(tip: Json) -> (r: Json)
    ensures
        model(r) == carrying("tip"@, model(tip)),
{
    carry("tip", tip)
}

// ---- what the node says of itself --------------------------------------------------------------

/// Whether the node reaches its peers.
#[derive(Debug, Clone, Copy, PartialEq, Eq, Structural)]
pub enum PeerTier {
    Attached,
    Unattached,
}

/// What is said of the peers.
pub open spec fn peer_tier_model(tier: PeerTier) -> JsonModel {
    JsonModel::Object(seq![named("attached"@, JsonModel::Bool(tier == PeerTier::Attached))])
}

/// What is said of the peers: whether they are reached.
pub fn peer_tier_status(tier: PeerTier) -> (r: Json)
    ensures
        model(r) == peer_tier_model(tier),
{
    let mut v: Vec<(String, Json)> = Vec::new();
    v.push(entry("attached", truth(tier == PeerTier::Attached)));
    proof {
        assert(entry_models(v@) =~= peer_tier_model(tier)->Object_0);
    }
    object(v)
}

/// What is known of the node.
pub struct NodeFacts<'a> {
    pub service: &'a str,
    pub version: &'a str,
    pub commit: &'a str,
    /// The address it serves on.
    pub addr: &'a str,
    pub upstream: &'a str,
    pub cache_dir: &'a str,
    pub cache_cap_bytes: u64,
    pub cache_used_bytes: u64,
    /// Whether other programs of this account use the same cache.
    pub cache_shared: bool,
    pub sync_available: bool,
    pub peer_tier: PeerTier,
}

/// What is said of the cache.
pub open spec fn cache_model(f: NodeFacts<'_>) -> JsonModel {
    JsonModel::Object(
        seq![
            named("dir"@, JsonModel::Text(f.cache_dir@)),
            named("cap_bytes"@, JsonModel::Number(f.cache_cap_bytes as int)),
            named("used_bytes"@, JsonModel::Number(f.cache_used_bytes as int)),
            named("shared"@, JsonModel::Bool(f.cache_shared)),
        ],
    )
}

/// What the node says of itself to its own machine.
pub open spec fn status_entries(f: NodeFacts<'_>) -> Seq<(Seq<char>, JsonModel)> {
    seq![
        named("service"@, JsonModel::Text(f.service@)),
        named("version"@, JsonModel::Text(f.version@)),
        named("commit"@, JsonModel::Text(f.commit@)),
        named("mode"@, JsonModel::Text("local-node"@)),
        named("addr"@, JsonModel::Text(f.addr@)),
        named("upstream"@, JsonModel::Text(f.upstream@)),
        named("cache"@, cache_model(f)),
        named(
            "sync"@,
            JsonModel::Object(seq![named("available"@, JsonModel::Bool(f.sync_available))]),
        ),
        named("peer_tier"@, peer_tier_model(f.peer_tier)),
    ]
}

fn cache_value(f: &NodeFacts<'_>) -> (r: Json)
    ensures
        model(r) == cache_model(*f),
{
    let mut v: Vec<(String, Json)> = Vec::new();
    v.push(entry("dir", words(f.cache_dir)));
    v.push(entry("cap_bytes", Json::Uint(f.cache_cap_bytes)));
    v.push(entry("used_bytes", Json::Uint(f.cache_used_bytes)));
    v.push(entry("shared", truth(f.cache_shared)));
    proof {
        assert(entry_models(v@) =~= cache_model(*f)->Object_0);
    }
    object(v)
}

fn sync_value(available: bool) -> (r: Json)
    ensures
        model(r) == JsonModel::Object(seq![named("available"@, JsonModel::Bool(available))]),
{
    let mut v: Vec<(String, Json)> = Vec::new();
    v.push(entry("available", truth(available)));
    proof {
        assert(entry_models(v@) =~= seq![named("available"@, JsonModel::Bool(available))]);
    }
    object(v)
}

/// What the node says of itself to its own machine. Every surface that tells of the node's life is
/// made from this.
pub fn status_fields(f: &NodeFacts<'_>) -> (r: Vec<(String, Json)>)
    ensures
        entry_models(r@) == status_entries(*f),
{
    let mut v: Vec<(String, Json)> = Vec::new();
    v.push(entry("service", words(f.service)));
    v.push(entry("version", words(f.version)));
    v.push(entry("commit", words(f.commit)));
    v.push(entry("mode", words("local-node")));
    v.push(entry("addr", words(f.addr)));
    v.push(entry("upstream", words(f.upstream)));
    v.push(entry("cache", cache_value(f)));
    v.push(entry("sync", sync_value(f.sync_available)));
    v.push(entry("peer_tier", peer_tier_status(f.peer_tier)));
    proof {
        assert(entry_models(v@) =~= status_entries(*f));
    }
    v
}

/// The first frame of the status socket.
pub fn status_snapshot(f: &NodeFacts<'_>) -> (r: Json)
    ensures
        model(r) == JsonModel::Object(
            status_entries(*f).push(named("type"@, JsonModel::Text("status"@))),
        ),
{
    let mut v = status_fields(f);
    let ghost before = v@;
    v.push(entry("type", words("status")));
    proof {
        assert(entry_models(v@) =~= entry_models(before).push(
            named("type"@, JsonModel::Text("status"@)),
        ));
    }
    object(v)
}

/// A heartbeat of the status socket: the same, at a moment in milliseconds.
pub fn status_heartbeat(f: &NodeFacts<'_>, ts: u64) -> (r: Json)
    ensures
        model(r) == JsonModel::Object(
            status_entries(*f).push(named("type"@, JsonModel::Text("heartbeat"@))).push(
                named("ts"@, JsonModel::Number(ts as int)),
            ),
        ),
{
    let mut v = status_fields(f);
    let ghost before = v@;
    v.push(entry("type", words("heartbeat")));
    v.push(entry("ts", Json::Uint(ts)));
    proof {
        assert(entry_models(v@) =~= entry_models(before).push(
            named("type"@, JsonModel::Text("heartbeat"@)),
        ).push(named("ts"@, JsonModel::Number(ts as int))));
    }
    object(v)
}

/// The answer to a question after the node's health, on its own machine.
pub fn health(f: &NodeFacts<'_>, methods: &Vec<String>) -> (r: Json)
    ensures
        model(r) == JsonModel::Object(
            status_entries(*f).push(named("status"@, JsonModel::Text("ok"@))).push(
                named("methods"@, name_list(text::views(methods@))),
            ),
        ),
{
    let mut v = status_fields(f);
    let ghost before = v@;
    v.push(entry("status", words("ok")));
    v.push(entry("methods", names(methods)));
    proof {
        assert(entry_models(v@) =~= entry_models(before).push(
            named("status"@, JsonModel::Text("ok"@)),
        ).push(named("methods"@, name_list(text::views(methods@)))));
    }
    object(v)
}

/// What the node says of itself to anyone.
pub open spec fn public_entries(version: Seq<char>, methods: Seq<Seq<char>>) -> Seq<
    (Seq<char>, JsonModel),
> {
    seq![
        named("status"@, JsonModel::Text("ok"@)),
        named("version"@, JsonModel::Text(version)),
        named("methods"@, name_list(methods)),
    ]
}

/// What the node says of itself to anyone: that it lives, its version, and what it serves. Where it
/// runs, what it relays to and what it keeps are not said.
pub fn public_health(version: &str, methods: &Vec<String>) -> (r: Json)
    ensures
        model(r) == JsonModel::Object(public_entries(version@, text::views(methods@))),
{
    let mut v: Vec<(String, Json)> = Vec::new();
    v.push(entry("status", words("ok")));
    v.push(entry("version", words(version)));
    v.push(entry("methods", names(methods)));
    proof {
        assert(entry_models(v@) =~= public_entries(version@, text::views(methods@)));
    }
    object(v)
}

/// The answer to a question after the methods.
pub fn public_methods(methods: &Vec<String>) -> (r: Json)
    ensures
        model(r) == JsonModel::Object(
            seq![named("methods"@, name_list(text::views(methods@)))],
        ),
{
    let mut v: Vec<(String, Json)> = Vec::new();
    v.push(entry("methods", names(methods)));
    proof {
        assert(entry_models(v@) =~= seq![named("methods"@, name_list(text::views(methods@)))]);
    }
    object(v)
}

// ---- laws --------------------------------------------------------------------------------------

/// **Law: a stranger learns nothing of the machine.** What is said to anyone has no entry for the
/// address, the upstream, the cache or the build.
pub proof fn law_the_public_answer_names_nothing_of_the_machine(
    version: Seq<char>,
    methods: Seq<Seq<char>>,
    i: int,
)
    requires
        0 <= i < public_entries(version, methods).len(),
    ensures
        public_entries(version, methods)[i].0 != "addr"@,
        public_entries(version, methods)[i].0 != "upstream"@,
        public_entries(version, methods)[i].0 != "cache"@,
        public_entries(version, methods)[i].0 != "commit"@,
{
    reveal_strlit("addr");
    reveal_strlit("upstream");
    reveal_strlit("cache");
    reveal_strlit("commit");
    reveal_strlit("status");
    reveal_strlit("version");
    reveal_strlit("methods");
    assert("status"@.len() == 6 && "version"@.len() == 7 && "methods"@.len() == 7);
    assert("addr"@.len() == 4 && "upstream"@.len() == 8 && "cache"@.len() == 5);
    assert("status"@[0] == 's' && "commit"@[0] == 'c' && "commit"@.len() == 6);
    let e = public_entries(version, methods);
    assert(e[0].0 == "status"@ && e[1].0 == "version"@ && e[2].0 == "methods"@);
    assert(i == 0 || i == 1 || i == 2);
}

/// **Law: the peers' state is told both ways.** What is said where they are reached differs from what is
/// said where they are not.
pub proof fn law_peer_tiers_are_told_apart(a: PeerTier, b: PeerTier)
    requires
        peer_tier_model(a) == peer_tier_model(b),
    ensures
        a == b,
{
    let x = peer_tier_model(a)->Object_0;
    let y = peer_tier_model(b)->Object_0;
    assert(x[0].1 == y[0].1);
}

/// **Law: an answer carries its question's id.** The envelope of an answer and that of an error are of the
/// protocol's version, carry the id they are given, and hold the answer, or the error's number, words and
/// name; never both.
pub proof fn law_an_answer_carries_its_id(id: JsonModel, result: JsonModel, code: ErrorCode, m: Seq<char>)
    ensures
        result_envelope(id, result) matches JsonModel::Object(e) && e == seq![
            ("jsonrpc"@, JsonModel::Text("2.0"@)),
            ("id"@, id),
            ("result"@, result),
        ],
        error_envelope(id, code, m) matches JsonModel::Object(e) && e.len() == 3 && e[0] == (
            "jsonrpc"@,
            JsonModel::Text("2.0"@),
        ) && e[1] == ("id"@, id) && e[2].0 == "error"@ && (e[2].1 matches JsonModel::Object(x) && x.len() == 3
            && x[0] == ("code"@, JsonModel::Number(code.number())) && x[1] == ("message"@, JsonModel::Text(m))
            && x[2].0 == "data"@ && (x[2].1 matches JsonModel::Object(d) && d == seq![
            ("code"@, JsonModel::Text(code.symbol())),
        ])),
{
}

/// **Law: a frame says whether the call went well.** It carries the id it is given, that it is an answer,
/// and under its own name the value; an error's value is its number and its words.
pub proof fn law_a_frame_says_whether_it_went_well(
    id: JsonModel,
    ok: bool,
    name: Seq<char>,
    v: JsonModel,
    code: int,
    m: Seq<char>,
)
    ensures
        response_frame(id, ok, name, v) matches JsonModel::Object(e) && e == seq![
            ("id"@, id),
            ("type"@, JsonModel::Text("response"@)),
            ("ok"@, JsonModel::Bool(ok)),
            (name, v),
        ],
        coded(code, m) matches JsonModel::Object(e) && e == seq![
            ("code"@, JsonModel::Number(code)),
            ("message"@, JsonModel::Text(m)),
        ],
        carrying(name, v) matches JsonModel::Object(e) && e == seq![("type"@, JsonModel::Text(name)), (name, v)],
{
}

/// **Law: how far the wallet is, is told as it is.** The state by its name and both heights, each as a
/// number or as unknown; two different states are told differently.
pub proof fn law_how_far_the_wallet_is(a: SyncStatus, b: SyncStatus)
    ensures
        status_frame_model(a) matches JsonModel::Object(e) && e.len() == 4 && e[0] == (
            "state"@,
            JsonModel::Text(lifecycle_name(a.state)),
        ) && e[1].0 == "peak_height"@ && e[2].0 == "target_height"@ && e[3] == (
            "type"@,
            JsonModel::Text("sync_status"@),
        ) && (a.peak_height matches Some(h) ==> e[1].1 == JsonModel::Number(h as int)) && (a.peak_height is None
            ==> e[1].1 == JsonModel::Null) && (a.target_height matches Some(h) ==> e[2].1 == JsonModel::Number(
            h as int,
        )) && (a.target_height is None ==> e[2].1 == JsonModel::Null),
        status_frame_model(a) == status_frame_model(b) ==> a == b,
{
    reveal_strlit("syncing");
    reveal_strlit("synced");
    reveal_strlit("disconnected");
    assert("syncing"@.len() == 7 && "synced"@.len() == 6 && "disconnected"@.len() == 12);
    let x = status_frame_model(a)->Object_0;
    let y = status_frame_model(b)->Object_0;
    if status_frame_model(a) == status_frame_model(b) {
        assert(x[0] == y[0] && x[1] == y[1] && x[2] == y[2]);
    }
}

/// **Law: what the node says of itself is what is known of it.** Each fact under its own name: the build,
/// the address, the upstream, the cache with its bounds, whether it syncs and whether it reaches its peers.
pub proof fn law_the_node_says_what_is_known_of_it(f: NodeFacts<'_>)
    ensures
        ({
            let e = status_entries(f);
            &&& e.len() == 9
            &&& e[0] == ("service"@, JsonModel::Text(f.service@))
            &&& e[1] == ("version"@, JsonModel::Text(f.version@))
            &&& e[2] == ("commit"@, JsonModel::Text(f.commit@))
            &&& e[3] == ("mode"@, JsonModel::Text("local-node"@))
            &&& e[4] == ("addr"@, JsonModel::Text(f.addr@))
            &&& e[5] == ("upstream"@, JsonModel::Text(f.upstream@))
            &&& e[6].0 == "cache"@ && (e[6].1 matches JsonModel::Object(c) && c == seq![
                ("dir"@, JsonModel::Text(f.cache_dir@)),
                ("cap_bytes"@, JsonModel::Number(f.cache_cap_bytes as int)),
                ("used_bytes"@, JsonModel::Number(f.cache_used_bytes as int)),
                ("shared"@, JsonModel::Bool(f.cache_shared)),
            ])
            &&& e[7].0 == "sync"@ && (e[7].1 matches JsonModel::Object(c) && c == seq![
                ("available"@, JsonModel::Bool(f.sync_available)),
            ])
            &&& e[8].0 == "peer_tier"@ && (e[8].1 matches JsonModel::Object(c) && c == seq![
                ("attached"@, JsonModel::Bool(f.peer_tier == PeerTier::Attached)),
            ])
        }),
{
}

/// **Law: what anyone is told.** That the node lives, its version, and what it serves, by name.
pub proof fn law_what_anyone_is_told(version: Seq<char>, methods: Seq<Seq<char>>)
    ensures
        public_entries(version, methods) == seq![
            ("status"@, JsonModel::Text("ok"@)),
            ("version"@, JsonModel::Text(version)),
            ("methods"@, name_list(methods)),
        ],
{
}

} // verus!
