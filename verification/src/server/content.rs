//! Serving a store's content as plain text on the loopback address: what is read, and what a read is
//! answered.
use vstd::prelude::*;

use crate::server::access::{ReadOrigin, RequestProvenance};
use crate::server::frames::PeerTier;
use crate::text;

verus! {

/// A path below a store: which store, at which root where one is named, and which resource.
#[derive(Debug)]
pub struct StorePath {
    pub store_id: String,
    pub root: Option<String>,
    pub resource: String,
}

/// What is read of a store, and on whose behalf.
#[derive(Debug)]
pub struct ContentRead {
    pub store_id: String,
    /// The root; empty for the current one.
    pub root: String,
    pub resource: String,
    pub origin: ReadOrigin,
    pub provenance: RequestProvenance,
}

impl ContentRead {
    /// Whether that is read, on that behalf.
    pub open spec fn reads(
        self,
        store_id: Seq<char>,
        root: Seq<char>,
        resource: Seq<char>,
        origin: ReadOrigin,
        provenance: RequestProvenance,
    ) -> bool {
        &&& self.store_id@ == store_id
        &&& self.root@ == root
        &&& self.resource@ == resource
        &&& self.origin == origin
        &&& self.provenance == provenance
    }
}

/// The root a path names; empty where it names none.
pub open spec fn named_root(sp: StorePath) -> Seq<char> {
    match sp.root {
        Some(r) => r@,
        None => Seq::empty(),
    }
}

/// What a request for a resource reads.
pub fn resource_read(sp: &StorePath, origin: ReadOrigin, provenance: RequestProvenance) -> (r:
    ContentRead)
    ensures
        r.reads(sp.store_id@, named_root(*sp), sp.resource@, origin, provenance),
{
    let root = match &sp.root {
        Some(r) => r.clone(),
        None => String::new(),
    };
    proof {
        assert(root@ =~= named_root(*sp));
    }
    ContentRead {
        store_id: sp.store_id.clone(),
        root,
        resource: sp.resource.clone(),
        origin,
        provenance,
    }
}

/// What is read in place of a missing resource: the store's default view, at the root that the missing
/// one was looked for at.
pub fn index_read(
    sp: &StorePath,
    root_hex: &str,
    origin: ReadOrigin,
    provenance: RequestProvenance,
) -> (r: ContentRead)
    ensures
        r.reads(sp.store_id@, root_hex@, "index.html"@, origin, provenance),
{
    ContentRead {
        store_id: sp.store_id.clone(),
        root: root_hex.to_owned(),
        resource: "index.html".to_owned(),
        origin,
        provenance,
    }
}

// ---- answers -----------------------------------------------------------------------------------

/// An answer: its status, its headers in order, and its body.
#[derive(Debug, PartialEq, Eq)]
pub struct Response {
    pub status: u16,
    pub headers: Vec<(String, String)>,
    pub body: Vec<u8>,
}

/// What a list of headers holds.
pub open spec fn header_views(list: Seq<(String, String)>) -> Seq<(Seq<char>, Seq<char>)> {
    Seq::new(list.len(), |i: int| (list[i].0@, list[i].1@))
}

/// The answer that says something went wrong: in plain text, never as a page.
pub open spec fn is_error(r: Response, status: u16, message: Seq<char>) -> bool {
    &&& r.status == status
    &&& header_views(r.headers@) == seq![
        ("content-type"@, "text/plain; charset=utf-8"@),
        ("x-content-type-options"@, "nosniff"@),
    ]
    &&& r.body@ == vstd::utf8::encode_utf8(text::decimal(status as nat) + ": "@ + message)
}

/// The answer that says something went wrong.
pub fn error_response(status: u16, message: &str) -> (r: Response)
    ensures
        is_error(r, status, message@),
{
    let mut headers: Vec<(String, String)> = Vec::new();
    headers.push(("content-type".to_owned(), "text/plain; charset=utf-8".to_owned()));
    headers.push(("x-content-type-options".to_owned(), "nosniff".to_owned()));
    proof {
        assert(header_views(headers@) =~= seq![
            ("content-type"@, "text/plain; charset=utf-8"@),
            ("x-content-type-options"@, "nosniff"@),
        ]);
    }
    let mut said = text::number(status as u64);
    said.append(": ");
    said.append(message);
    Response { status, headers, body: said.as_str().as_bytes_vec() }
}

/// The answer where there is nothing.
pub fn not_found() -> (r: Response)
    ensures
        is_error(r, 404, "not found"@),
{
    error_response(404, "not found")
}

/// What is known of served bytes besides the bytes.
#[derive(Debug)]
pub struct ServeProvenance {
    /// Whether they were checked against the root that the chain anchors.
    pub verified: bool,
    /// Where they came from, by its name.
    pub source: String,
    /// Whether the node reached its peers when the read was made.
    pub peer_tier: PeerTier,
    /// The store's owner, where that is known.
    pub owner_puzzle_hash: Option<String>,
    /// The commit that last wrote the resource, where that is known.
    pub generation: Option<u64>,
}

/// How a resource is shown: its type, and where that is a page, the page and the policy it is under.
#[derive(Debug)]
pub struct Shown {
    pub content_type: String,
    pub page: Option<Page>,
}

/// A page: the bytes with the store's base in its head, and the policy it is under.
#[derive(Debug)]
pub struct Page {
    pub policy: String,
    pub bytes: Vec<u8>,
}

/// The name of whether peers are reached.
pub open spec fn tier_name(tier: PeerTier) -> Seq<char> {
    match tier {
        PeerTier::Attached => "attached"@,
        PeerTier::Unattached => "unattached"@,
    }
}

/// The resource that was served: an empty name stands for the default view.
pub open spec fn served_key(resource: Seq<char>) -> Seq<char> {
    if resource.len() == 0 {
        "index.html"@
    } else {
        resource
    }
}

/// The headers that every served resource has.
pub open spec fn fixed_headers(
    store_id: Seq<char>,
    resource: Seq<char>,
    root_hex: Seq<char>,
    p: ServeProvenance,
    content_type: Seq<char>,
) -> Seq<(Seq<char>, Seq<char>)> {
    seq![
        ("content-type"@, content_type),
        ("X-Content-Type-Options"@, "nosniff"@),
        ("X-Dig-Verified"@, if p.verified {
            "true"@
        } else {
            "false"@
        }),
        ("X-Dig-Root"@, root_hex),
        ("X-Dig-Source"@, p.source@),
        ("X-Dig-Peer-Tier"@, tier_name(p.peer_tier)),
        ("X-Dig-Store-Id"@, store_id),
        ("X-Dig-Capsule"@, store_id + ":"@ + root_hex),
        ("X-Dig-Resource-Key"@, served_key(resource)),
    ]
}

/// The headers of a served resource: what is not known is left out, and a page has its policy.
pub open spec fn served_headers(
    store_id: Seq<char>,
    resource: Seq<char>,
    root_hex: Seq<char>,
    p: ServeProvenance,
    shown: Shown,
) -> Seq<(Seq<char>, Seq<char>)> {
    fixed_headers(store_id, resource, root_hex, p, shown.content_type@) + (
    match p.owner_puzzle_hash {
        Some(o) => seq![("X-Dig-Owner-Puzzle-Hash"@, o@)],
        None => Seq::empty(),
    }) + (match p.generation {
        Some(g) => seq![("X-Dig-Generation"@, text::decimal(g as nat))],
        None => Seq::empty(),
    }) + (match shown.page {
        Some(page) => seq![("content-security-policy"@, page.policy@)],
        None => Seq::empty(),
    })
}

/// Whether a text can be the value of a header.
pub open spec fn header_text(s: Seq<char>) -> bool {
    forall|i: int|
        0 <= i < s.len() ==> (#[trigger] s[i]) as int == 9 || (s[i] as int >= 32 && s[i] as int
            != 127)
}

/// Whether each of the headers can be sent.
pub open spec fn sendable(headers: Seq<(Seq<char>, Seq<char>)>) -> bool {
    forall|i: int| 0 <= i < headers.len() ==> header_text((#[trigger] headers[i]).1)
}

/// `http::HeaderValue::from_str`, which `axum` re-exports, takes a text for a header's value exactly
/// where none of its bytes is a control character other than the tab.
#[verifier::external_body]
fn is_header_value(s: &str) -> (r: bool)
    ensures
        r == header_text(s@),
{
    axum::http::HeaderValue::from_str(s).is_ok()
}

fn all_sendable(headers: &Vec<(String, String)>) -> (r: bool)
    ensures
        r == sendable(header_views(headers@)),
{
    let mut i: usize = 0;
    while i < headers.len()
        invariant
            i <= headers@.len(),
            forall|j: int|
                0 <= j < i ==> header_text((#[trigger] header_views(headers@)[j]).1),
        decreases headers@.len() - i,
    {
        if !is_header_value(headers[i].1.as_str()) {
            proof {
                assert(!header_text(header_views(headers@)[i as int].1));
            }
            return false;
        }
        i += 1;
    }
    true
}

fn header(name: &str, value: &str) -> (r: (String, String))
    ensures
        r.0@ == name@,
        r.1@ == value@,
{
    (name.to_owned(), value.to_owned())
}

fn fixed_header_list(
    store_id: &str,
    resource: &str,
    root_hex: &str,
    p: &ServeProvenance,
    content_type: &str,
) -> (v: Vec<(String, String)>)
    ensures
        header_views(v@) == fixed_headers(store_id@, resource@, root_hex@, *p, content_type@),
{
    let mut capsule = store_id.to_owned();
    capsule.append(":");
    capsule.append(root_hex);
    let key = if resource.is_empty() {
        "index.html"
    } else {
        resource
    };
    let verified = if p.verified {
        "true"
    } else {
        "false"
    };
    let tier = match p.peer_tier {
        PeerTier::Attached => "attached",
        PeerTier::Unattached => "unattached",
    };
    let mut v: Vec<(String, String)> = Vec::new();
    v.push(header("content-type", content_type));
    v.push(header("X-Content-Type-Options", "nosniff"));
    v.push(header("X-Dig-Verified", verified));
    v.push(header("X-Dig-Root", root_hex));
    v.push(header("X-Dig-Source", p.source.as_str()));
    v.push(header("X-Dig-Peer-Tier", tier));
    v.push(header("X-Dig-Store-Id", store_id));
    v.push(header("X-Dig-Capsule", capsule.as_str()));
    v.push(header("X-Dig-Resource-Key", key));
    proof {
        assert(header_views(v@) =~= fixed_headers(
            store_id@,
            resource@,
            root_hex@,
            *p,
            content_type@,
        ));
    }
    v
}

/// The answer that serves a resource: the bytes, or the page made of them, under the headers that say
/// what they are and where they came from. Where one of these cannot be sent, the answer is an error.
pub fn served_response(
    sp: &StorePath,
    resource: &str,
    bytes: Vec<u8>,
    root_hex: &str,
    provenance: ServeProvenance,
    shown: Shown,
) -> (r: Response)
    ensures
        ({
            let headers = served_headers(sp.store_id@, resource@, root_hex@, provenance, shown);
            if sendable(headers) {
                &&& r.status == 200
                &&& header_views(r.headers@) == headers
                &&& r.body@ == (match shown.page {
                    Some(page) => page.bytes@,
                    None => bytes@,
                })
            } else {
                r.status == 500 && r.headers@.len() == 0 && r.body@.len() == 0
            }
        }),
{
    let ghost want = served_headers(sp.store_id@, resource@, root_hex@, provenance, shown);
    let mut headers = fixed_header_list(
        sp.store_id.as_str(),
        resource,
        root_hex,
        &provenance,
        shown.content_type.as_str(),
    );
    if let Some(o) = &provenance.owner_puzzle_hash {
        headers.push(header("X-Dig-Owner-Puzzle-Hash", o.as_str()));
    }
    if let Some(g) = provenance.generation {
        headers.push(header("X-Dig-Generation", text::number(g).as_str()));
    }
    if let Some(page) = &shown.page {
        headers.push(header("content-security-policy", page.policy.as_str()));
    }
    proof {
        assert(header_views(headers@) =~= want);
    }
    if !all_sendable(&headers) {
        return Response { status: 500, headers: Vec::new(), body: Vec::new() };
    }
    let body = match shown.page {
        Some(page) => page.bytes,
        None => bytes,
    };
    Response { status: 200, headers, body }
}

// ---- what a read came to -----------------------------------------------------------------------

/// What a read came to.
#[derive(Debug)]
pub enum PlaintextOutcome {
    /// The bytes, at the root they were read at.
    Served { bytes: Vec<u8>, root_hex: String, provenance: ServeProvenance },
    /// Nothing of that name at the root.
    NotFound { root_hex: String },
    /// The request cannot be read.
    InvalidParams { message: String },
    /// The root could not be made sure of.
    RootError { message: String },
    /// The bytes could not be checked or decrypted.
    Unreadable { message: String },
}

/// What is to be done about a read.
#[derive(Debug)]
pub enum ServeStep {
    /// Answer with the bytes.
    Serve { bytes: Vec<u8>, root_hex: String, provenance: ServeProvenance },
    /// See what stands in for what is missing.
    Miss { root_hex: String },
    /// Answer with that.
    Respond(Response),
}

/// Whether `step` is what is done about a read.
pub open spec fn is_serve_step(outcome: PlaintextOutcome, step: ServeStep) -> bool {
    match outcome {
        PlaintextOutcome::Served { bytes, root_hex, provenance } => step == (ServeStep::Serve {
            bytes,
            root_hex,
            provenance,
        }),
        PlaintextOutcome::NotFound { root_hex } => step == (ServeStep::Miss { root_hex }),
        PlaintextOutcome::InvalidParams { message } => step matches ServeStep::Respond(r)
            && is_error(r, 400, message@),
        PlaintextOutcome::RootError { message } => step matches ServeStep::Respond(r) && is_error(
            r,
            502,
            message@,
        ),
        PlaintextOutcome::Unreadable { message } => step matches ServeStep::Respond(r) && is_error(
            r,
            502,
            message@,
        ),
    }
}

/// What is to be done about a read. What could not be made sure of is never served.
pub fn serve_resource(outcome: PlaintextOutcome) -> (step: ServeStep)
    ensures
        is_serve_step(outcome, step),
{
    match outcome {
        PlaintextOutcome::Served { bytes, root_hex, provenance } => ServeStep::Serve {
            bytes,
            root_hex,
            provenance,
        },
        PlaintextOutcome::NotFound { root_hex } => ServeStep::Miss { root_hex },
        PlaintextOutcome::InvalidParams { message } => ServeStep::Respond(
            error_response(400, message.as_str()),
        ),
        PlaintextOutcome::RootError { message } => ServeStep::Respond(
            error_response(502, message.as_str()),
        ),
        PlaintextOutcome::Unreadable { message } => ServeStep::Respond(
            error_response(502, message.as_str()),
        ),
    }
}

/// Whether the store's default view stands in for a missing resource: not for a file that pages load,
/// and not for one that the store says it has.
pub open spec fn index_stands_in(
    resource: Seq<char>,
    is_asset: bool,
    manifest: Option<Seq<Seq<char>>>,
) -> bool {
    !is_asset && !(manifest is Some && manifest->0.contains(resource))
}

/// The names in a manifest, where there is one.
pub open spec fn manifest_view(manifest: Option<&Vec<String>>) -> Option<Seq<Seq<char>>> {
    match manifest {
        Some(m) => Some(text::views(m@)),
        None => None,
    }
}

/// What is to be done about a missing resource.
#[derive(Debug)]
pub enum MissStep {
    /// Answer that there is nothing.
    Respond(Response),
    /// Read the store's default view in its place.
    ReadIndex,
}

/// What is to be done about a missing resource. The manifest is asked for only where the name is not
/// that of a file that pages load.
pub fn serve_miss(sp: &StorePath, is_asset: bool, manifest: Option<&Vec<String>>) -> (step: MissStep)
    ensures
        if index_stands_in(sp.resource@, is_asset, manifest_view(manifest)) {
            step is ReadIndex
        } else {
            step matches MissStep::Respond(r) && is_error(r, 404, "not found"@)
        },
{
    if is_asset {
        return MissStep::Respond(not_found());
    }
    if let Some(m) = manifest {
        if text::list_contains(m, sp.resource.as_str()) {
            return MissStep::Respond(not_found());
        }
    }
    MissStep::ReadIndex
}

/// What is to be done about the default view that was read in place of a missing resource: it is served
/// where it was found, and otherwise there is nothing.
pub fn serve_index(outcome: PlaintextOutcome) -> (step: ServeStep)
    ensures
        match outcome {
            PlaintextOutcome::Served { bytes, root_hex, provenance } => step == (ServeStep::Serve {
                bytes,
                root_hex,
                provenance,
            }),
            _ => step matches ServeStep::Respond(r) && is_error(r, 404, "not found"@),
        },
{
    match outcome {
        PlaintextOutcome::Served { bytes, root_hex, provenance } => ServeStep::Serve {
            bytes,
            root_hex,
            provenance,
        },
        _ => ServeStep::Respond(not_found()),
    }
}

// ---- laws --------------------------------------------------------------------------------------

/// **Law: what is not sure is not served.** A read whose root or bytes could not be made sure of is
/// answered with an error, in plain text.
pub proof fn law_an_unsure_read_is_never_served(outcome: PlaintextOutcome, step: ServeStep)
    requires
        is_serve_step(outcome, step),
        outcome is RootError || outcome is Unreadable,
    ensures
        step is Respond,
        step->Respond_0.status == 502,
{
}

/// **Law: a missing file is never a page.** A file that pages load is answered with an error where it is
/// missing, whatever the store's manifest says.
pub proof fn law_a_missing_asset_is_never_a_page(
    resource: Seq<char>,
    manifest: Option<Seq<Seq<char>>>,
)
    ensures
        !index_stands_in(resource, true, manifest),
{
}

/// **Law: both states of the peers are told.** The header that tells them differs between the two, and
/// nothing else of the answer does.
pub proof fn law_the_peer_tier_header_tells_them_apart(
    store_id: Seq<char>,
    resource: Seq<char>,
    root_hex: Seq<char>,
    a: ServeProvenance,
    b: ServeProvenance,
    content_type: Seq<char>,
    i: int,
)
    requires
        a.peer_tier == PeerTier::Attached,
        b == (ServeProvenance { peer_tier: PeerTier::Unattached, ..a }),
        0 <= i < 9,
    ensures
        ({
            let x = fixed_headers(store_id, resource, root_hex, a, content_type);
            let y = fixed_headers(store_id, resource, root_hex, b, content_type);
            x[i] == y[i] <==> i != 5
        }),
{
    reveal_strlit("attached");
    reveal_strlit("unattached");
    let x = fixed_headers(store_id, resource, root_hex, a, content_type);
    let y = fixed_headers(store_id, resource, root_hex, b, content_type);
    assert("attached"@.len() == 8 && "unattached"@.len() == 10);
    assert(x[5].1 == "attached"@ && y[5].1 == "unattached"@);
    assert(i == 0 || i == 1 || i == 2 || i == 3 || i == 4 || i == 5 || i == 6 || i == 7 || i == 8);
}

/// **Law: a path that pins a root is read at that root.** The read is of the store and the resource that
/// the path names, at the root it names, and at the current one where it names none; so two paths that
/// differ in any of these are read differently.
pub proof fn law_the_named_root_is_read(
    a: StorePath,
    b: StorePath,
    x: ContentRead,
    y: ContentRead,
    origin: ReadOrigin,
    provenance: RequestProvenance,
)
    requires
        x.reads(a.store_id@, named_root(a), a.resource@, origin, provenance),
        y.reads(b.store_id@, named_root(b), b.resource@, origin, provenance),
    ensures
        x.store_id@ == a.store_id@,
        x.resource@ == a.resource@,
        a.root matches Some(r) ==> x.root@ == r@,
        a.root is None ==> x.root@.len() == 0,
        x.origin == origin,
        x.provenance == provenance,
        a.root matches Some(r) && b.root matches Some(s) && r@ != s@ ==> x.root@ != y.root@,
        a.root matches Some(r) && r@.len() > 0 && b.root is None ==> x.root@ != y.root@,
{
}

/// **Law: the default view is read at the root that was looked at.**
pub proof fn law_the_default_view_is_read_at_the_same_root(
    store: Seq<char>,
    root: Seq<char>,
    x: ContentRead,
    origin: ReadOrigin,
    provenance: RequestProvenance,
)
    requires
        x.reads(store, root, "index.html"@, origin, provenance),
    ensures
        x.store_id@ == store,
        x.root@ == root,
        x.resource@ == "index.html"@,
        x.origin == origin,
        x.provenance == provenance,
{
}

/// **Law: an error is plain text and says what it is.** It has the status it is for, no browser takes it
/// for a page, and its body is the status, a colon and the message.
pub proof fn law_an_error_is_plain_text(r: Response, status: u16, message: Seq<char>)
    requires
        is_error(r, status, message),
    ensures
        r.status == status,
        r.headers@.len() == 2,
        r.headers@[0].0@ == "content-type"@ && r.headers@[0].1@ == "text/plain; charset=utf-8"@,
        r.headers@[1].0@ == "x-content-type-options"@ && r.headers@[1].1@ == "nosniff"@,
        exists|said: Seq<char>|
            r.body@ == #[trigger] vstd::utf8::encode_utf8(said) && text::has(said, message) && text::starts(
                said,
                text::decimal(status as nat),
            ),
{
    let want = seq![
        ("content-type"@, "text/plain; charset=utf-8"@),
        ("x-content-type-options"@, "nosniff"@),
    ];
    assert(header_views(r.headers@).len() == want.len());
    assert(header_views(r.headers@)[0] == want[0] && header_views(r.headers@)[1] == want[1]);
    let d = text::decimal(status as nat);
    let said = d + ": "@ + message;
    text::law_parts_are_found(d + ": "@, message, Seq::empty());
    assert(d + ": "@ + message + Seq::<char>::empty() =~= said);
    text::law_parts_are_found(d, ": "@ + message, Seq::empty());
    assert(d + (": "@ + message) =~= said);
}

/// **Law: served bytes say what they are.** The headers name the root they were read at, the store, both
/// together, the resource, where they came from and whether they were checked; the owner, the generation
/// and the policy are told exactly where they are known.
pub proof fn law_served_bytes_say_what_they_are(
    store: Seq<char>,
    resource: Seq<char>,
    root: Seq<char>,
    p: ServeProvenance,
    shown: Shown,
)
    ensures
        ({
            let h = served_headers(store, resource, root, p, shown);
            &&& h.contains(("content-type"@, shown.content_type@))
            &&& h.contains(("X-Content-Type-Options"@, "nosniff"@))
            &&& h.contains(("X-Dig-Root"@, root))
            &&& h.contains(("X-Dig-Store-Id"@, store))
            &&& h.contains(("X-Dig-Capsule"@, store + seq![':'] + root))
            &&& h.contains(("X-Dig-Source"@, p.source@))
            &&& p.verified ==> h.contains(("X-Dig-Verified"@, "true"@)) && !h.contains(
                ("X-Dig-Verified"@, "false"@),
            )
            &&& !p.verified ==> h.contains(("X-Dig-Verified"@, "false"@)) && !h.contains(
                ("X-Dig-Verified"@, "true"@),
            )
            &&& resource.len() > 0 ==> h.contains(("X-Dig-Resource-Key"@, resource))
            &&& resource.len() == 0 ==> h.contains(("X-Dig-Resource-Key"@, "index.html"@))
            &&& p.owner_puzzle_hash matches Some(o) ==> h.contains(("X-Dig-Owner-Puzzle-Hash"@, o@))
            &&& p.generation matches Some(g) ==> h.contains(("X-Dig-Generation"@, text::decimal(g as nat)))
            &&& shown.page matches Some(page) ==> h.contains(("content-security-policy"@, page.policy@))
            &&& h.len() == 9 + (if p.owner_puzzle_hash is Some {
                1int
            } else {
                0
            }) + (if p.generation is Some {
                1int
            } else {
                0
            }) + (if shown.page is Some {
                1int
            } else {
                0
            })
        }),
{
    reveal_strlit(":");
    reveal_strlit("true");
    reveal_strlit("false");
    assert(":"@ =~= seq![':']);
    assert("true"@.len() == 4 && "false"@.len() == 5);
    let f = fixed_headers(store, resource, root, p, shown.content_type@);
    let h = served_headers(store, resource, root, p, shown);
    assert forall|i: int| 0 <= i < 9 implies #[trigger] h[i] == f[i] by {}
    assert(h[0] == f[0] && h[1] == f[1] && h[2] == f[2] && h[3] == f[3] && h[4] == f[4] && h[6] == f[6] && h[7]
        == f[7] && h[8] == f[8]);
    let owner: int = if p.owner_puzzle_hash is Some {
        1
    } else {
        0
    };
    let generation: int = if p.generation is Some {
        1
    } else {
        0
    };
    if let Some(o) = p.owner_puzzle_hash {
        assert(h[9] == ("X-Dig-Owner-Puzzle-Hash"@, o@));
    }
    if let Some(g) = p.generation {
        assert(h[9 + owner] == ("X-Dig-Generation"@, text::decimal(g as nat)));
    }
    if let Some(page) = shown.page {
        assert(h[9 + owner + generation] == ("content-security-policy"@, page.policy@));
    }
    lemma_verified_is_told_once(store, resource, root, p, shown);
}

proof fn lemma_verified_is_told_once(
    store: Seq<char>,
    resource: Seq<char>,
    root: Seq<char>,
    p: ServeProvenance,
    shown: Shown,
)
    ensures
        forall|i: int|
            0 <= i < served_headers(store, resource, root, p, shown).len() && i != 2 ==> (#[trigger] served_headers(
                store,
                resource,
                root,
                p,
                shown,
            )[i]).0 != "X-Dig-Verified"@,
{
    reveal_strlit("X-Dig-Verified");
    reveal_strlit("content-type");
    reveal_strlit("X-Content-Type-Options");
    reveal_strlit("X-Dig-Root");
    reveal_strlit("X-Dig-Source");
    reveal_strlit("X-Dig-Peer-Tier");
    reveal_strlit("X-Dig-Store-Id");
    reveal_strlit("X-Dig-Capsule");
    reveal_strlit("X-Dig-Resource-Key");
    reveal_strlit("X-Dig-Owner-Puzzle-Hash");
    reveal_strlit("X-Dig-Generation");
    reveal_strlit("content-security-policy");
    assert("X-Dig-Verified"@[6] == 'V' && "X-Dig-Store-Id"@[6] == 'S');
    assert("X-Dig-Verified"@.len() == 14 && "content-type"@.len() == 12 && "X-Content-Type-Options"@.len() == 22
        && "X-Dig-Root"@.len() == 10 && "X-Dig-Source"@.len() == 12 && "X-Dig-Peer-Tier"@.len() == 15
        && "X-Dig-Capsule"@.len() == 13 && "X-Dig-Resource-Key"@.len() == 18 && "X-Dig-Owner-Puzzle-Hash"@.len()
        == 23 && "X-Dig-Generation"@.len() == 16 && "content-security-policy"@.len() == 23);
    let f = fixed_headers(store, resource, root, p, shown.content_type@);
    let h = served_headers(store, resource, root, p, shown);
    assert forall|i: int| 0 <= i < h.len() && i != 2 implies (#[trigger] h[i]).0 != "X-Dig-Verified"@ by {
        if i < 9 {
            assert(h[i] == f[i]);
            assert(i == 0 || i == 1 || i == 3 || i == 4 || i == 5 || i == 6 || i == 7 || i == 8);
        }
    }
}

/// **Law: what may stand in a header.** Printed ASCII and everything above it may, and so may the tab; no
/// other control character may, so that nothing forges a header of its own.
pub proof fn law_no_control_character_stands_in_a_header(s: Seq<char>, c: char)
    ensures
        header_text(s) && s.contains(c) ==> c == '\t' || (c as int >= 0x20 && c as int != 0x7F),
        header_text(s) ==> !s.contains('\n') && !s.contains('\r') && !s.contains('\0'),
        (forall|i: int|
            0 <= i < s.len() ==> #[trigger] s[i] == '\t' || 0x20 <= (s[i] as int) <= 0x7E || s[i] as int > 0x7F)
            ==> header_text(s),
{
    if s.contains(c) {
        let i = choose|i: int| 0 <= i < s.len() && s[i] == c;
        assert(s[i] == c);
    }
    if s.contains('\n') {
        let i = choose|i: int| 0 <= i < s.len() && s[i] == '\n';
        assert(s[i] as int == 10);
    }
    if s.contains('\r') {
        let i = choose|i: int| 0 <= i < s.len() && s[i] == '\r';
        assert(s[i] as int == 13);
    }
    if s.contains('\0') {
        let i = choose|i: int| 0 <= i < s.len() && s[i] == '\0';
        assert(s[i] as int == 0);
    }
}

/// **Law: what was read is what is served.** Bytes that were served are answered as they were read, at
/// the root they were read at; what is missing is looked for again at the root it was missing at; and
/// everything else is an error with its own message, a bad request's apart from the node's.
pub proof fn law_what_was_read_is_served(outcome: PlaintextOutcome, step: ServeStep)
    requires
        is_serve_step(outcome, step),
    ensures
        outcome matches PlaintextOutcome::Served { bytes, root_hex, provenance } ==> (step matches ServeStep::Serve {
            bytes: b,
            root_hex: r,
            provenance: p,
        } && b == bytes && r == root_hex && p == provenance),
        outcome matches PlaintextOutcome::NotFound { root_hex } ==> (step matches ServeStep::Miss { root_hex: r }
            && r == root_hex),
        outcome matches PlaintextOutcome::InvalidParams { message } ==> (step matches ServeStep::Respond(r)
            && r.status == 400 && is_error(r, 400, message@)),
        outcome matches PlaintextOutcome::RootError { message } ==> (step matches ServeStep::Respond(r)
            && r.status == 502 && is_error(r, 502, message@)),
        outcome matches PlaintextOutcome::Unreadable { message } ==> (step matches ServeStep::Respond(r)
            && r.status == 502 && is_error(r, 502, message@)),
{
}

/// **Law: the default view stands in for a route.** It stands in for a missing name that is no file that
/// pages load and that the store does not say it has, and for no other.
pub proof fn law_the_default_view_stands_in_for_routes(
    resource: Seq<char>,
    is_asset: bool,
    names: Seq<Seq<char>>,
)
    ensures
        !is_asset ==> index_stands_in(resource, false, None),
        !is_asset && !names.contains(resource) ==> index_stands_in(resource, is_asset, Some(names)),
        names.contains(resource) ==> !index_stands_in(resource, is_asset, Some(names)),
        is_asset ==> !index_stands_in(resource, is_asset, None),
{
}

} // verus!
