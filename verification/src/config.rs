//! What the node was told: the port, the upstream, an explicit host or cache, and what follows from
//! them.
use vstd::prelude::*;

use crate::net::{loops_back, text_of, Endpoint, Ip};
use crate::text;
use crate::tokens;

verus! {

/// The port the node serves on unless told otherwise.
pub const DEFAULT_PORT: u16 = 9778;

/// The upstream the node relays to unless told otherwise.
pub const DEFAULT_UPSTREAM: &'static str = "https://rpc.dig.net";

/// The resolved configuration of one run.
#[derive(Debug)]
pub struct Config {
    /// The port on the loopback address.
    pub port: u16,
    /// The upstream node's address.
    pub upstream: String,
    /// The address to bind, where the operator named one.
    pub host: Option<Ip>,
    /// The cache directory, where the operator named one.
    pub cache_dir: Option<String>,
    /// Whether the operator allows an address that other machines can reach.
    pub allow_remote: bool,
    /// Whether the bare name `dig.local` is served as well.
    pub dig_local: bool,
    /// Whether the node reads the chain.
    pub enable_chain_sync: bool,
    /// Whether the node may send spends to the chain.
    pub enable_live_broadcast: bool,
}

impl Default for Config {
    fn default() -> (r: Self)
        ensures
            r.port == DEFAULT_PORT,
            r.upstream@ == DEFAULT_UPSTREAM@,
            r.host is None,
            r.cache_dir is None,
            !r.allow_remote,
            r.dig_local,
            r.enable_chain_sync,
            !r.enable_live_broadcast,
    {
        Config {
            port: DEFAULT_PORT,
            upstream: DEFAULT_UPSTREAM.to_owned(),
            host: None,
            cache_dir: None,
            allow_remote: false,
            dig_local: true,
            enable_chain_sync: true,
            enable_live_broadcast: false,
        }
    }
}

/// The groups of `::1`.
pub open spec fn one() -> Seq<u16> {
    seq![0u16, 0, 0, 0, 0, 0, 0, 1]
}

impl Config {
    /// The address the node serves on.
    pub open spec fn bound(self) -> Endpoint {
        Endpoint {
            ip: match self.host {
                Some(h) => h,
                None => Ip::V4(127, 0, 0, 1),
            },
            port: self.port,
        }
    }

    /// The address the node serves on: the named host, else `127.0.0.1`.
    pub fn bind_addr(&self) -> (r: Endpoint)
        ensures
            r == self.bound(),
    {
        match &self.host {
            Some(h) => Endpoint { ip: *h, port: self.port },
            None => Endpoint { ip: Ip::V4(127, 0, 0, 1), port: self.port },
        }
    }

    /// The sibling address of the other family, `[::1]`, unless a host was named.
    pub fn bind_addr_v6(&self) -> (r: Option<Endpoint>)
        ensures
            r is None <==> self.host is Some,
            r matches Some(e) ==> e.port == self.port && (e.ip matches Ip::V6(g) && g@ == one()),
    {
        match &self.host {
            Some(_) => None,
            None => Some(v6_one(self.port)),
        }
    }

    /// The address of the bare name `dig.local`, unless that is switched off.
    pub fn dig_local_addr(&self) -> (r: Option<Endpoint>)
        ensures
            r == (if self.dig_local {
                Some(Endpoint { ip: Ip::V4(127, 0, 0, 2), port: 80 })
            } else {
                None
            }),
    {
        if self.dig_local {
            Some(Endpoint { ip: Ip::V4(127, 0, 0, 2), port: 80 })
        } else {
            None
        }
    }

    /// The secure address of the bare name `dig.local`, under the same switch.
    pub fn dig_local_https_addr(&self) -> (r: Option<Endpoint>)
        ensures
            r == (if self.dig_local {
                Some(Endpoint { ip: Ip::V4(127, 0, 0, 2), port: 443 })
            } else {
                None
            }),
    {
        if self.dig_local {
            Some(Endpoint { ip: Ip::V4(127, 0, 0, 2), port: 443 })
        } else {
            None
        }
    }

    /// The secure sibling address of the other family, under the same switch.
    pub fn dig_local_https_addr_v6(&self) -> (r: Option<Endpoint>)
        ensures
            r is Some <==> self.dig_local,
            r matches Some(e) ==> e.port == 443 && (e.ip matches Ip::V6(g) && g@ == one()),
    {
        if self.dig_local {
            Some(v6_one(443))
        } else {
            None
        }
    }
}

fn v6_one(port: u16) -> (r: Endpoint)
    ensures
        r.port == port,
        r.ip matches Ip::V6(g) && g@ == one(),
{
    let groups: [u16; 8] = [0, 0, 0, 0, 0, 0, 0, 1];
    proof {
        assert(groups@ =~= one());
    }
    Endpoint { ip: Ip::V6(groups), port }
}

/// Whether the address is the machine itself.
pub fn is_loopback_addr(ip: &Ip) -> (r: bool)
    ensures
        r == loops_back(*ip),
{
    ip.is_loopback()
}

/// What is said when a host that other machines can reach was named without leave.
pub open spec fn host_refusal(host: Ip) -> Seq<char> {
    "DIG_NODE_HOST="@ + text_of(host)
        + " is a non-loopback address: binding it would expose the local API to the network. Set DIG_NODE_ALLOW_REMOTE=1 to allow a remote bind."@
}

/// Why the named host must not be bound, if it must not: it is not a loopback address, and the
/// operator did not allow one.
pub fn host_override_refusal(host: Option<Ip>, allow_remote: bool) -> (r: Option<String>)
    ensures
        r is Some <==> (host is Some && !loops_back(host->0) && !allow_remote),
        r matches Some(m) ==> m@ == host_refusal(host->0),
{
    match host {
        None => None,
        Some(h) => {
            if allow_remote || h.is_loopback() {
                return None;
            }
            let mut m = "DIG_NODE_HOST=".to_owned();
            m.append(h.to_text().as_str());
            m.append(
                " is a non-loopback address: binding it would expose the local API to the network. Set DIG_NODE_ALLOW_REMOTE=1 to allow a remote bind.",
            );
            Some(m)
        },
    }
}

/// The names this node answers to, without a port.
pub open spec fn is_host_name(h: Seq<char>) -> bool {
    ||| h == "localhost"@
    ||| h == "dig.local"@
    ||| h == "127.0.0.1"@
    ||| h == "127.0.0.2"@
    ||| h == "[::1]"@
}

/// Whether `t` is one of the names followed, at `k`, by a colon and a port.
pub open spec fn is_host_with_port(t: Seq<char>, k: int) -> bool {
    0 <= k < t.len() && t[k] == ':' && is_host_name(t.take(k)) && tokens::all_digits(t.skip(k + 1))
}

/// Whether a request that names the host `h` is meant for this node: a blank name is no name, and
/// otherwise it is one of the node's own names, with or without a port.
pub open spec fn host_allowed(h: Seq<char>) -> bool {
    let t = text::trimmed(h);
    t.len() == 0 || t == "::1"@ || is_host_name(t) || exists|k: int|
        #[trigger] is_host_with_port(t, k)
}

fn host_name(h: &str) -> (r: bool)
    ensures
        r == is_host_name(h@),
{
    text::same(h, "localhost") || text::same(h, "dig.local") || text::same(h, "127.0.0.1")
        || text::same(h, "127.0.0.2") || text::same(h, "[::1]")
}

/// Whether a request that names that host is meant for this node. One that names none is.
pub fn host_is_allowed(host: Option<&str>) -> (r: bool)
    ensures
        r == (match host {
            None => true,
            Some(h) => host_allowed(h@),
        }),
{
    let h = match host {
        None => {
            return true;
        },
        Some(h) => h,
    };
    let trimmed = text::trim(h);
    let t = trimmed.as_str();
    if t.is_empty() || text::same(t, "::1") || host_name(t) {
        return true;
    }
    let cs = text::chars_of(t);
    let mut k: usize = cs.len();
    while k > 0 && tokens::digit(cs[k - 1])
        invariant
            k <= cs@.len(),
            cs@ == t@,
            forall|j: int| k <= j < cs@.len() ==> tokens::is_digit(#[trigger] t@[j]),
        decreases k,
    {
        k -= 1;
    }
    // Behind a port stand digits alone, so a port can begin nowhere but at `k`.
    if k == 0 || k == cs.len() || cs[k - 1] != ':' {
        proof {
            assert forall|j: int| !(#[trigger] is_host_with_port(t@, j)) by {
                lemma_port_begins_behind_the_last_colon(t@, k as int, j);
            }
        }
        return false;
    }
    let name = text::string_of(&cs, 0, k - 1);
    let r = host_name(name.as_str());
    proof {
        assert(name@ =~= t@.take(k - 1));
        assert forall|i: int| 0 <= i < t@.skip(k as int).len() implies tokens::is_digit(
            #[trigger] t@.skip(k as int)[i],
        ) by {
            assert(t@.skip(k as int)[i] == t@[k + i]);
        }
        assert(is_host_with_port(t@, k - 1) == r);
        assert forall|j: int| #[trigger] is_host_with_port(t@, j) implies j == k - 1 by {
            lemma_port_begins_behind_the_last_colon(t@, k as int, j);
        }
    }
    r
}

/// Where everything from `k` on is a digit and the character before is none, a port can only begin
/// at `k`.
proof fn lemma_port_begins_behind_the_last_colon(t: Seq<char>, k: int, j: int)
    requires
        0 <= k <= t.len(),
        forall|i: int| k <= i < t.len() ==> tokens::is_digit(#[trigger] t[i]),
        k > 0 ==> !tokens::is_digit(t[k - 1]),
    ensures
        is_host_with_port(t, j) ==> j == k - 1 && k < t.len() && t[k - 1] == ':',
{
    if is_host_with_port(t, j) {
        let p = t.skip(j + 1);
        assert(p.len() > 0);
        if j < k - 1 {
            assert(p[k - 2 - j] == t[k - 1]);
            assert(tokens::is_digit(p[k - 2 - j]));
        }
        if j >= k {
            assert(tokens::is_digit(t[j]));
        }
    }
}

/// The cache directory to record for a service: only one that was named.
pub fn cache_dir_env_value(cache_dir: Option<&str>) -> (r: Option<String>)
    ensures
        text::opt_view(r) == text::opt_str_view(cache_dir),
{
    match cache_dir {
        None => None,
        Some(d) => Some(d.to_owned()),
    }
}

/// Whether a control character occurs in `s`.
pub fn contains_control_character(s: &str) -> (r: bool)
    ensures
        r == text::has_control(s@),
{
    text::contains_control(s)
}

/// What an upstream setting stands for: nothing where it holds a control character or is blank; an
/// address with a scheme as it is; anything else as an `https` address.
pub open spec fn upstream_of(raw: Seq<char>) -> Seq<char> {
    let t = text::trimmed(raw);
    if text::has_control(raw) || t.len() == 0 {
        Seq::empty()
    } else if text::starts(t, "http://"@) || text::starts(t, "https://"@) {
        t
    } else {
        "https://"@ + t
    }
}

/// What an upstream setting stands for.
pub fn normalize_upstream(raw: &str) -> (r: String)
    ensures
        r@ == upstream_of(raw@),
{
    if text::contains_control(raw) {
        return String::new();
    }
    let t = text::trim(raw);
    if t.as_str().is_empty() {
        return String::new();
    }
    if text::starts_with(t.as_str(), "http://") || text::starts_with(t.as_str(), "https://") {
        return t;
    }
    let mut out = "https://".to_owned();
    out.append(t.as_str());
    out
}

/// **Law: nothing with a control character survives.** What an upstream setting stands for never
/// holds one.
pub proof fn law_upstream_holds_no_control_character(raw: Seq<char>)
    ensures
        !text::has_control(upstream_of(raw)),
{
    let t = text::trimmed(raw);
    if !text::has_control(raw) && t.len() > 0 {
        text::lemma_trimmed_is_part(raw);
        reveal_strlit("https://");
        let r = upstream_of(raw);
        assert forall|i: int| 0 <= i < r.len() implies !text::is_control(#[trigger] r[i]) by {
            let k = if r == t {
                i
            } else {
                i - 8
            };
            if k >= 0 {
                assert(r[i] == t[k]);
                assert(raw.contains(t[k]));
                let j = choose|j: int| 0 <= j < raw.len() && raw[j] == t[k];
                assert(!text::is_control(raw[j]));
            }
        }
    }
}

/// **Law: what an upstream setting stands for.** A setting that names a scheme is kept but for the white
/// space around it, any other gets `https://` in front, and a blank one, or one with a control
/// character, stands for nothing; so what it stands for always names a scheme or is empty.
pub proof fn law_an_upstream_names_a_scheme(raw: Seq<char>)
    ensures
        upstream_of(raw).len() == 0 <==> text::has_control(raw) || text::is_blank(raw),
        upstream_of(raw).len() > 0 ==> text::starts(upstream_of(raw), "http://"@) || text::starts(
            upstream_of(raw),
            "https://"@,
        ),
        upstream_of(raw).len() > 0 ==> upstream_of(raw) == text::trimmed(raw) || upstream_of(raw) == "https://"@
            + text::trimmed(raw),
        upstream_of(raw).len() > 0 && (text::starts(text::trimmed(raw), "http://"@) || text::starts(
            text::trimmed(raw),
            "https://"@,
        )) ==> upstream_of(raw) == text::trimmed(raw),
{
    reveal_strlit("https://");
    text::law_parts_are_found("https://"@, text::trimmed(raw), Seq::empty());
}

/// **Law: an upstream that was read is read as it is.** Reading a second time changes nothing, so what a
/// service finds in its environment is what was put there.
pub proof fn law_an_upstream_is_read_once(raw: Seq<char>)
    ensures
        upstream_of(upstream_of(raw)) == upstream_of(raw),
{
    let t = text::trimmed(raw);
    let r = upstream_of(raw);
    law_an_upstream_names_a_scheme(raw);
    law_upstream_holds_no_control_character(raw);
    if r.len() > 0 {
        assert(text::trimmed(r) == r) by {
            text::law_trimming_keeps_what_is_trimmed(raw);
            if r != t {
                lemma_behind_a_scheme(raw);
            }
        }
    } else {
        let (c, d) = text::law_trimming_takes_white_space_at_the_ends(r);
        assert(r =~= Seq::empty());
    }
}

proof fn lemma_behind_a_scheme(raw: Seq<char>)
    requires
        text::trimmed(raw).len() > 0,
    ensures
        text::trimmed("https://"@ + text::trimmed(raw)) == "https://"@ + text::trimmed(raw),
{
    reveal_strlit("https://");
    let t = text::trimmed(raw);
    let r = "https://"@ + t;
    let (a, b) = text::law_trimming_takes_white_space_at_the_ends(raw);
    let (c, d) = text::law_trimming_takes_white_space_at_the_ends(r);
    assert(r[0] == 'h');
    assert(r[r.len() - 1] == t[t.len() - 1]);
    assert(t[t.len() - 1] == raw[b - 1]);
    if c > 0 {
        assert(text::is_white(r[0]));
    }
    if d < r.len() {
        assert(text::is_white(r[r.len() - 1]));
    }
    assert(r.subrange(0, r.len() as int) =~= r);
}

/// **Law: where the node is found.** It serves on the host that was named, else on `127.0.0.1`, and on
/// the port it was told; two configurations that differ in either serve on different addresses.
pub proof fn law_the_node_serves_where_it_was_told(a: Config, b: Config)
    ensures
        a.bound().port == a.port,
        a.host matches Some(h) ==> a.bound().ip == h,
        a.host is None ==> a.bound().ip == Ip::V4(127, 0, 0, 1),
        a.bound() == b.bound() && a.host is Some && b.host is Some ==> a.port == b.port && a.host == b.host,
{
}

/// **Law: whom the node answers.** A request that names one of the node's own names is meant for it, with
/// or without a port of digits, and with white space around it; one that names any other is not. So what
/// is answered holds no character but letters, digits, dots, colons and brackets.
pub proof fn law_the_node_answers_to_its_own_names(name: Seq<char>, port: Seq<char>, h: Seq<char>)
    requires
        name == "localhost"@ || name == "dig.local"@ || name == "127.0.0.1"@ || name == "127.0.0.2"@ || name
            == "[::1]"@,
        port.len() > 0,
        forall|i: int| 0 <= i < port.len() ==> 0x30 <= (#[trigger] port[i] as int) <= 0x39,
    ensures
        host_allowed(name),
        host_allowed(name + seq![':'] + port),
        host_allowed(h) && !text::is_blank(h) ==> ({
            let t = text::trimmed(h);
            ||| t == "::1"@
            ||| t == "localhost"@
            ||| t == "dig.local"@
            ||| t == "127.0.0.1"@
            ||| t == "127.0.0.2"@
            ||| t == "[::1]"@
            ||| exists|k: int|
                0 < k < t.len() - 1 && t[k] == ':' && (#[trigger] t.take(k) == "localhost"@ || t.take(k)
                    == "dig.local"@ || t.take(k) == "127.0.0.1"@ || t.take(k) == "127.0.0.2"@ || t.take(k)
                    == "[::1]"@) && forall|i: int| k < i < t.len() ==> 0x30 <= (#[trigger] t[i] as int) <= 0x39
        }),
{
    reveal_strlit("localhost");
    reveal_strlit("dig.local");
    reveal_strlit("127.0.0.1");
    reveal_strlit("127.0.0.2");
    reveal_strlit("[::1]");
    text::law_trimming_keeps_what_is_trimmed(name);
    let s = name + seq![':'] + port;
    assert(s[0] == name[0]);
    assert(s.last() == port.last());
    text::law_trimming_keeps_what_is_trimmed(s);
    let k = name.len() as int;
    assert(s.take(k) =~= name);
    assert(s.skip(k + 1) =~= port);
    assert forall|i: int| 0 <= i < port.len() implies tokens::is_digit(#[trigger] port[i]) by {}
    assert(is_host_with_port(s, k));
    let t = text::trimmed(h);
    if exists|j: int| #[trigger] is_host_with_port(t, j) {
        let j = choose|j: int| #[trigger] is_host_with_port(t, j);
        let p = t.skip(j + 1);
        assert forall|i: int| j < i < t.len() implies 0x30 <= (#[trigger] t[i] as int) <= 0x39 by {
            assert(p[i - j - 1] == t[i]);
            assert(tokens::is_digit(p[i - j - 1]));
        }
        assert(t.take(j).len() == j);
    }
}

/// **Law: a refused host is named.**
pub proof fn law_a_refused_host_is_named(host: Ip)
    ensures
        text::has(host_refusal(host), "DIG_NODE_HOST="@ + text_of(host)),
        text::starts(host_refusal(host), "DIG_NODE_HOST="@ + text_of(host)),
{
    let a = "DIG_NODE_HOST="@ + text_of(host);
    text::law_a_longer_text_holds_its_parts(
        a,
        " is a non-loopback address: binding it would expose the local API to the network. Set DIG_NODE_ALLOW_REMOTE=1 to allow a remote bind."@,
        a,
    );
}

/// **Law: a bare address and no host are the node's own.** The address `::1` without brackets is answered to,
/// and so is a request whose host is blank.
pub proof fn law_a_bare_address_and_no_host_are_its_own(h: Seq<char>)
    ensures
        host_allowed("::1"@),
        (forall|i: int| 0 <= i < h.len() ==> text::is_white(#[trigger] h[i])) ==> host_allowed(h),
{
    reveal_strlit("::1");
    text::law_trimming_keeps_what_is_trimmed("::1"@);
    text::law_blank_is_white_throughout(h);
}

} // verus!
