//! Starting the node: what is brought up, in which order, where it listens, and where its control
//! token comes from.
use vstd::prelude::*;

use crate::config::{host_override_refusal, host_refusal, one, Config};
use crate::error::{Error, ErrorKind};
use crate::log::{plain, Level, LineModel, LogLine};
use crate::net::{endpoint_text, loops_back, Endpoint, Ip};
use crate::text;

verus! {

// ---- what is brought up ------------------------------------------------------------------------

/// One part of the node that is brought up before it listens.
#[derive(Debug, Clone, Copy, PartialEq, Eq, Structural)]
pub enum BringUp {
    /// Record the first collateral epoch, and drop what the operator does not keep.
    CollateralRecords,
    /// Count the collateral network, round by round.
    CollateralCensus,
    /// Look after the node's own collateral, round by round; whether it may spend.
    MirrorPasses { live_broadcast: bool },
    /// Let announcements point at the coins behind them.
    MirrorPointers,
    /// Join the peers.
    PeerNetwork,
    /// Check the coins that peers point at.
    BondVerifier,
    /// Find out whether the upstream leads back here.
    LoopProbe,
    /// Repair what drifted, on a service run.
    SelfHeal,
    /// Serve the wallet to programs that present its certificate.
    WalletListener,
}

/// What is brought up, in order: what reads the chain only where the chain is read, and what belongs
/// to the peers only where they are joined. What announcements point at is in place before the first
/// one is made.
pub open spec fn bring_up(chain_sync: bool, live_broadcast: bool, peer_network: bool) -> Seq<BringUp> {
    seq![BringUp::CollateralRecords] + (if chain_sync {
        seq![BringUp::CollateralCensus, BringUp::MirrorPasses { live_broadcast }]
    } else {
        Seq::empty()
    }) + (if peer_network {
        seq![BringUp::MirrorPointers, BringUp::PeerNetwork]
    } else {
        Seq::empty()
    }) + (if peer_network && chain_sync {
        seq![BringUp::BondVerifier]
    } else {
        Seq::empty()
    }) + seq![BringUp::LoopProbe, BringUp::SelfHeal, BringUp::WalletListener]
}

/// One address the node listens on.
#[derive(Debug, Clone, Copy, PartialEq, Eq, Structural)]
pub enum Door {
    /// The address that must be there.
    Localhost,
    /// The same port in the other family.
    Ipv6,
    /// The bare name `dig.local`.
    DigLocal,
}

/// What the node does when it starts.
#[derive(Debug)]
pub struct ServePlan {
    /// What is brought up, in order.
    pub steps: Vec<BringUp>,
    /// Where it listens, in order.
    pub doors: Vec<(Door, Endpoint)>,
}

/// Whether `d` are the doors of a configuration: the required one first, then the others where they
/// are wanted.
pub open spec fn are_doors(config: Config, d: Seq<(Door, Endpoint)>) -> bool {
    let v6: int = if config.host is None {
        1
    } else {
        0
    };
    let dl: int = if config.dig_local {
        1
    } else {
        0
    };
    &&& d.len() == 1 + v6 + dl
    &&& d[0] == (Door::Localhost, config.bound())
    &&& v6 == 1 ==> d[1].0 == Door::Ipv6 && d[1].1.port == config.port && (d[1].1.ip matches Ip::V6(
        g,
    ) && g@ == one())
    &&& dl == 1 ==> d[1 + v6] == (Door::DigLocal, Endpoint { ip: Ip::V4(127, 0, 0, 2), port: 80 })
}

/// What the node does when it starts, or why it must not. An address that other machines reach is
/// refused unless the operator allowed one. `peer_network` says whether peers are to be joined.
pub fn serve_with_shutdown(config: &Config, peer_network: bool) -> (r: Result<ServePlan, Error>)
    ensures
        r is Err <==> (config.host is Some && !loops_back(config.host->0) && !config.allow_remote),
        r matches Err(e) ==> e.kind == ErrorKind::InvalidInput && e.message@ == host_refusal(
            config.host->0,
        ),
        r matches Ok(p) ==> p.steps@ == bring_up(
            config.enable_chain_sync,
            config.enable_live_broadcast,
            peer_network,
        ) && are_doors(*config, p.doors@),
{
    if let Some(message) = host_override_refusal(config.host, config.allow_remote) {
        return Err(Error::new(ErrorKind::InvalidInput, message));
    }
    let mut steps: Vec<BringUp> = Vec::new();
    steps.push(BringUp::CollateralRecords);
    if config.enable_chain_sync {
        steps.push(BringUp::CollateralCensus);
        steps.push(BringUp::MirrorPasses { live_broadcast: config.enable_live_broadcast });
    }
    if peer_network {
        steps.push(BringUp::MirrorPointers);
        steps.push(BringUp::PeerNetwork);
        if config.enable_chain_sync {
            steps.push(BringUp::BondVerifier);
        }
    }
    steps.push(BringUp::LoopProbe);
    steps.push(BringUp::SelfHeal);
    steps.push(BringUp::WalletListener);
    proof {
        assert(steps@ =~= bring_up(
            config.enable_chain_sync,
            config.enable_live_broadcast,
            peer_network,
        ));
    }
    let mut doors: Vec<(Door, Endpoint)> = Vec::new();
    doors.push((Door::Localhost, config.bind_addr()));
    if let Some(e) = config.bind_addr_v6() {
        doors.push((Door::Ipv6, e));
    }
    if let Some(e) = config.dig_local_addr() {
        doors.push((Door::DigLocal, e));
    }
    Ok(ServePlan { steps, doors })
}

// ---- listening ---------------------------------------------------------------------------------

/// What is said where the sibling address cannot be had.
pub const IPV6_NOT_BOUND: &'static str = "could not bind the IPv6 loopback listener; continuing IPv4-only on the sibling 127.0.0.1 \
address (non-fatal). A client whose `localhost` resolves to `::1` first (e.g. Windows) may \
need to use 127.0.0.1 explicitly until IPv6 loopback is available on this system";

/// What is said where the bare name cannot be served.
pub const DIG_LOCAL_NOT_BOUND: &'static str = "could not bind bare http://dig.local; continuing with localhost-only (http via the \
configured port). Non-fatal. Causes: privileged port 80 needs elevation (Linux: run as \
root or grant CAP_NET_BIND_SERVICE; the installed service runs elevated), the port is in \
use, or — on macOS — the 127.0.0.2 loopback alias is missing (sudo ifconfig lo0 alias \
127.0.0.2). Set DIG_NODE_DIGLOCAL=0 to silence this and skip the attempt";

/// What is said where the bare name is served.
pub const DIG_LOCAL_ENABLED: &'static str = "bare http://dig.local enabled";

/// What is said where the bare name is not wanted.
pub const DIG_LOCAL_DISABLED: &'static str = "bare http://dig.local listener disabled (DIG_NODE_DIGLOCAL=0)";

/// What is said where the required address cannot be had.
pub open spec fn bind_failure(addr: Endpoint, error: Seq<char>) -> Seq<char> {
    "dig-node: cannot bind "@ + endpoint_text(addr) + ": "@ + error
}

/// A line about an address.
pub open spec fn addr_line(level: Level, message: Seq<char>, addr: Endpoint) -> LineModel {
    plain(level, message).with("addr"@, endpoint_text(addr))
}

/// What came of listening on an address: a line for the log where there is something to say, or the
/// error that ends the start. Only the required address ends it.
pub fn after_bind(door: Door, addr: &Endpoint, outcome: Result<(), Error>) -> (r: Result<
    Option<LogLine>,
    Error,
>)
    ensures
        match (door, outcome) {
            (Door::Localhost, Ok(_)) => r == Ok::<Option<LogLine>, Error>(None),
            (Door::Localhost, Err(e)) => r matches Err(x) && x.kind == e.kind && x.message@
                == bind_failure(*addr, e.message@),
            (Door::Ipv6, Ok(_)) => r == Ok::<Option<LogLine>, Error>(None),
            (Door::Ipv6, Err(e)) => r matches Ok(Some(l)) && l@ == addr_line(
                Level::Warn,
                IPV6_NOT_BOUND@,
                *addr,
            ).with("error"@, e.message@),
            (Door::DigLocal, Ok(_)) => r matches Ok(Some(l)) && l@ == addr_line(
                Level::Info,
                DIG_LOCAL_ENABLED@,
                *addr,
            ),
            (Door::DigLocal, Err(e)) => r matches Ok(Some(l)) && l@ == addr_line(
                Level::Warn,
                DIG_LOCAL_NOT_BOUND@,
                *addr,
            ).with("error"@, e.message@),
        },
{
    let shown = addr.to_text();
    match (door, outcome) {
        (Door::Localhost, Ok(_)) => Ok(None),
        (Door::Localhost, Err(e)) => {
            let mut m = "dig-node: cannot bind ".to_owned();
            m.append(shown.as_str());
            m.append(": ");
            m.append(e.message.as_str());
            Err(Error::new(e.kind, m))
        },
        (Door::Ipv6, Ok(_)) => Ok(None),
        (Door::Ipv6, Err(e)) => Ok(
            Some(
                LogLine::new(Level::Warn, IPV6_NOT_BOUND).with("addr", shown.as_str()).with(
                    "error",
                    e.message.as_str(),
                ),
            ),
        ),
        (Door::DigLocal, Ok(_)) => Ok(
            Some(LogLine::new(Level::Info, DIG_LOCAL_ENABLED).with("addr", shown.as_str())),
        ),
        (Door::DigLocal, Err(e)) => Ok(
            Some(
                LogLine::new(Level::Warn, DIG_LOCAL_NOT_BOUND).with("addr", shown.as_str()).with(
                    "error",
                    e.message.as_str(),
                ),
            ),
        ),
    }
}

/// What is said of the bare name where it is not wanted; nothing where it is.
pub fn dig_local_off(config: &Config) -> (r: Option<LogLine>)
    ensures
        r is Some <==> !config.dig_local,
        r matches Some(l) ==> l@ == plain(Level::Debug, DIG_LOCAL_DISABLED@),
{
    if config.dig_local {
        None
    } else {
        Some(LogLine::new(Level::Debug, DIG_LOCAL_DISABLED))
    }
}

/// How an address that is listened on is shown.
pub open spec fn shown_door(door: Door, addr: Endpoint) -> Seq<char> {
    match door {
        Door::DigLocal => "http://dig.local (no port)"@,
        _ => "http://"@ + endpoint_text(addr),
    }
}

/// How the addresses that are listened on are shown.
pub open spec fn shown_doors(bound: Seq<(Door, Endpoint)>) -> Seq<Seq<char>> {
    Seq::new(bound.len(), |i: int| shown_door(bound[i].0, bound[i].1))
}

/// What is said once the node listens.
pub open spec fn listening(config: Config, version: Seq<char>, bound: Seq<(Door, Endpoint)>) -> LineModel {
    plain(Level::Info, "dig-node (local-node) listening"@).with("version"@, version).with(
        "addrs"@,
        text::joined(shown_doors(bound), ", "@),
    ).with("upstream"@, config.upstream@).with("extension_host"@, endpoint_text(config.bound()))
}

/// What is said once the node listens: every address that it got, its upstream, and the address that
/// the extension is to be told. `bound` are the doors that opened.
pub fn listening_line(config: &Config, version: &str, bound: &Vec<(Door, Endpoint)>) -> (r: LogLine)
    ensures
        r@ == listening(*config, version@, bound@),
{
    let mut shown: Vec<String> = Vec::new();
    let ghost all = shown_doors(bound@);
    let mut i: usize = 0;
    while i < bound.len()
        invariant
            i <= bound@.len(),
            all == shown_doors(bound@),
            text::views(shown@) == all.take(i as int),
        decreases bound@.len() - i,
    {
        let ghost before = shown@;
        let one = match bound[i].0 {
            Door::DigLocal => "http://dig.local (no port)".to_owned(),
            _ => {
                let mut s = "http://".to_owned();
                s.append(bound[i].1.to_text().as_str());
                s
            },
        };
        proof {
            assert(one@ == all[i as int]);
        }
        shown.push(one);
        proof {
            assert(text::views(shown@) =~= text::views(before).push(all[i as int]));
            assert(text::views(shown@) =~= all.take(i + 1));
        }
        i += 1;
    }
    proof {
        assert(text::views(shown@) =~= all);
    }
    LogLine::new(Level::Info, "dig-node (local-node) listening").with("version", version).with(
        "addrs",
        text::join(&shown, ", ").as_str(),
    ).with("upstream", config.upstream.as_str()).with(
        "extension_host",
        config.bind_addr().to_text().as_str(),
    )
}

// ---- the secure listeners ----------------------------------------------------------------------

/// What is said where the place of the certificate is not known.
pub const TLS_ROOT_UNKNOWN: &'static str = "cannot resolve the TLS material root; https://dig.local disabled, serving \
plaintext only";

/// What is said of a secure listener that came up.
pub const HTTPS_LISTENING: &'static str = "HTTPS (https://dig.local) listening";

/// What is said of a secure listener that did not come up.
pub const HTTPS_NOT_BOUND: &'static str = "could not bind https://dig.local; non-fatal — plaintext keeps serving. `:443` is \
privileged (run elevated / grant CAP_NET_BIND_SERVICE; the installed service runs \
elevated) and the 127.0.0.2 / ::1 loopback address must exist (macOS: sudo ifconfig \
lo0 alias 127.0.0.2)";

/// How long a secure listener is given to finish what it serves, in milliseconds.
pub const HTTPS_GRACE_MS: u64 = 5_000;

/// The addresses of the secure listeners: none where the bare name is not wanted, else both families'.
pub fn bring_up_local_https(config: &Config) -> (r: Vec<Endpoint>)
    ensures
        !config.dig_local ==> r@.len() == 0,
        config.dig_local ==> r@.len() == 2 && r@[0] == (Endpoint {
            ip: Ip::V4(127, 0, 0, 2),
            port: 443,
        }) && r@[1].port == 443 && (r@[1].ip matches Ip::V6(g) && g@ == one()),
{
    let mut out: Vec<Endpoint> = Vec::new();
    if let Some(e) = config.dig_local_https_addr() {
        out.push(e);
        if let Some(v6) = config.dig_local_https_addr_v6() {
            out.push(v6);
        }
    }
    out
}

/// What is said where the place of the certificate is not known.
pub fn tls_root_unknown(error: &str) -> (r: LogLine)
    ensures
        r@ == plain(Level::Warn, TLS_ROOT_UNKNOWN@).with("error"@, error@),
{
    LogLine::new(Level::Warn, TLS_ROOT_UNKNOWN).with("error", error)
}

/// What is said of a secure listener. That it did not come up ends nothing.
pub fn spawn_https_listener(addr: &Endpoint, outcome: Result<(), Error>) -> (r: LogLine)
    ensures
        match outcome {
            Ok(_) => r@ == addr_line(Level::Info, HTTPS_LISTENING@, *addr),
            Err(e) => r@ == addr_line(Level::Warn, HTTPS_NOT_BOUND@, *addr).with(
                "error"@,
                e.message@,
            ),
        },
{
    let shown = addr.to_text();
    match outcome {
        Ok(_) => LogLine::new(Level::Info, HTTPS_LISTENING).with("addr", shown.as_str()),
        Err(e) => LogLine::new(Level::Warn, HTTPS_NOT_BOUND).with("addr", shown.as_str()).with(
            "error",
            e.message.as_str(),
        ),
    }
}

// ---- the control token -------------------------------------------------------------------------

/// What came of looking for the control token.
pub enum TokenSearch {
    /// On a service run: whether the directory could be secured, and what came of the token in it.
    Service(Result<(String, Result<String, Error>), Error>),
    /// On any other run: the directory, and what came of the token.
    Other(String, Result<String, Error>),
}

/// Where the control token is.
pub enum TokenPlace {
    /// In that directory.
    Kept { dir: String, token: String },
    /// In a directory of this run's own, which no one else reads; and what is said of it.
    Ephemeral { line: LogLine },
}

/// What is said where the token cannot be kept in the secured directory.
pub const TOKEN_NOT_KEPT_SECURED: &'static str = "could not persist the control token in the secured state dir; using \
an in-memory token (control.* unauthorizable)";

/// What is said where the directory cannot be secured.
pub const DIR_NOT_SECURED: &'static str = "could not secure the machine state dir; refusing to serve the control plane \
from it";

/// What is said where the token cannot be kept.
pub const TOKEN_NOT_KEPT: &'static str = "could not persist control token; using an in-memory token (control.* will be \
unauthorizable until the state dir is writable)";

/// Whether `place` is where the control token is after that search.
pub open spec fn is_place(search: TokenSearch, remedy: Seq<char>, place: TokenPlace) -> bool {
    match search {
        TokenSearch::Service(Ok((dir, Ok(token)))) => place == (TokenPlace::Kept { dir, token }),
        TokenSearch::Service(Ok((dir, Err(e)))) => place matches TokenPlace::Ephemeral { line }
            && line@ == plain(Level::Warn, TOKEN_NOT_KEPT_SECURED@).with("error"@, e.message@),
        TokenSearch::Service(Err(e)) => place matches TokenPlace::Ephemeral { line } && line@
            == plain(Level::Warn, DIR_NOT_SECURED@).with("error"@, e.message@).with(
            "remedy"@,
            remedy,
        ),
        TokenSearch::Other(dir, Ok(token)) => place == (TokenPlace::Kept { dir, token }),
        TokenSearch::Other(dir, Err(e)) => place matches TokenPlace::Ephemeral { line } && line@
            == plain(Level::Warn, TOKEN_NOT_KEPT@).with("error"@, e.message@),
    }
}

/// Where the control token is. A service run keeps it in a directory that was secured and nowhere
/// else; where it cannot be kept, the node makes one that nothing else can present.
pub fn resolve_state_dir_and_token(search: TokenSearch, remedy: &str) -> (place: TokenPlace)
    ensures
        is_place(search, remedy@, place),
{
    match search {
        TokenSearch::Service(Ok((dir, Ok(token)))) => TokenPlace::Kept { dir, token },
        TokenSearch::Service(Ok((_, Err(e)))) => TokenPlace::Ephemeral {
            line: LogLine::new(Level::Warn, TOKEN_NOT_KEPT_SECURED).with(
                "error",
                e.message.as_str(),
            ),
        },
        TokenSearch::Service(Err(e)) => TokenPlace::Ephemeral {
            line: LogLine::new(Level::Warn, DIR_NOT_SECURED).with("error", e.message.as_str()).with(
                "remedy",
                remedy,
            ),
        },
        TokenSearch::Other(dir, Ok(token)) => TokenPlace::Kept { dir, token },
        TokenSearch::Other(_, Err(e)) => TokenPlace::Ephemeral {
            line: LogLine::new(Level::Warn, TOKEN_NOT_KEPT).with("error", e.message.as_str()),
        },
    }
}

/// The name of the directory of a run's own.
pub fn ephemeral_dir_name(pid: u32) -> (r: String)
    ensures
        r@ == "dig-node-control-token-"@ + text::decimal(pid as nat),
{
    let mut out = "dig-node-control-token-".to_owned();
    out.append(text::number(pid as u64).as_str());
    out
}

/// The token in the directory of a run's own; empty, which is no credential, where none could be made.
pub fn ephemeral_token(outcome: Result<String, Error>) -> (r: String)
    ensures
        r@ == (match outcome {
            Ok(t) => t@,
            Err(_) => Seq::empty(),
        }),
{
    match outcome {
        Ok(t) => t,
        Err(_) => {
            let out = String::new();
            proof {
                assert(out@ =~= Seq::empty());
            }
            out
        },
    }
}

// ---- laws --------------------------------------------------------------------------------------

/// **Law: no door is open to the network unless that was allowed.** Each address the node listens on is
/// this machine's own, unless the operator named another and allowed it.
pub proof fn law_every_door_is_local(config: Config, d: Seq<(Door, Endpoint)>, i: int)
    requires
        !(config.host is Some && !loops_back(config.host->0) && !config.allow_remote),
        are_doors(config, d),
        0 <= i < d.len(),
    ensures
        loops_back(d[i].1.ip) || (config.allow_remote && i == 0),
{
    let v6: int = if config.host is None {
        1
    } else {
        0
    };
    if i == 1 && v6 == 1 {
        let e = d[1].1;
        assert(e.ip matches Ip::V6(g) && g@ == one());
        assert(crate::net::is_one(one()));
    }
}

/// **Law: an explicit host replaces the pair.** Where the operator named a host, the sibling address is
/// not tried.
pub proof fn law_a_named_host_is_the_only_address(config: Config, d: Seq<(Door, Endpoint)>, i: int)
    requires
        config.host is Some,
        are_doors(config, d),
        0 <= i < d.len(),
    ensures
        d[i].0 != Door::Ipv6,
{
}

/// **Law: nothing dials where the chain is not read.** Without it, neither the census nor the collateral
/// rounds nor the check of peers' coins is brought up.
pub proof fn law_without_chain_sync_nothing_reads_the_chain(
    live_broadcast: bool,
    peer_network: bool,
    i: int,
)
    requires
        0 <= i < bring_up(false, live_broadcast, peer_network).len(),
    ensures
        ({
            let s = bring_up(false, live_broadcast, peer_network)[i];
            s != BringUp::CollateralCensus && !(s is MirrorPasses) && s != BringUp::BondVerifier
        }),
{
    let b = bring_up(false, live_broadcast, peer_network);
    if peer_network {
        assert(b =~= seq![
            BringUp::CollateralRecords,
            BringUp::MirrorPointers,
            BringUp::PeerNetwork,
            BringUp::LoopProbe,
            BringUp::SelfHeal,
            BringUp::WalletListener,
        ]);
    } else {
        assert(b =~= seq![
            BringUp::CollateralRecords,
            BringUp::LoopProbe,
            BringUp::SelfHeal,
            BringUp::WalletListener,
        ]);
    }
}

/// **Law: announcements have something to point at.** Where peers are joined, what announcements point
/// at is in place just before.
pub proof fn law_pointers_are_in_place_before_peers(chain_sync: bool, live_broadcast: bool)
    ensures
        ({
            let b = bring_up(chain_sync, live_broadcast, true);
            let k: int = if chain_sync {
                3
            } else {
                1
            };
            b[k] == BringUp::MirrorPointers && b[k + 1] == BringUp::PeerNetwork
        }),
{
}

/// **Law: a directory that was not secured holds no token.** On a service run whose directory could not
/// be secured, the token is this run's own.
pub proof fn law_an_unsecured_directory_holds_no_token(e: Error, remedy: Seq<char>, place: TokenPlace)
    requires
        is_place(TokenSearch::Service(Err(e)), remedy, place),
    ensures
        place is Ephemeral,
{
}

/// **Law: what is brought up.** The records, the probe of the upstream, the repair and the wallet's listener
/// always; the census and the collateral rounds exactly where the chain is read, these spending only as
/// they were allowed to; the peers exactly where they are joined; and the check of their coins where both
/// hold.
pub proof fn law_what_is_brought_up(chain_sync: bool, live: bool, peers: bool)
    ensures
        ({
            let b = bring_up(chain_sync, live, peers);
            &&& b[0] == BringUp::CollateralRecords
            &&& b.contains(BringUp::LoopProbe)
            &&& b.contains(BringUp::SelfHeal)
            &&& b.last() == BringUp::WalletListener
            &&& b.contains(BringUp::CollateralCensus) <==> chain_sync
            &&& b.contains(BringUp::MirrorPasses { live_broadcast: live }) <==> chain_sync
            &&& !b.contains(BringUp::MirrorPasses { live_broadcast: !live })
            &&& b.contains(BringUp::MirrorPointers) <==> peers
            &&& b.contains(BringUp::PeerNetwork) <==> peers
            &&& b.contains(BringUp::BondVerifier) <==> peers && chain_sync
        }),
{
    let b = bring_up(chain_sync, live, peers);
    let n = b.len() as int;
    assert(b[n - 3] == BringUp::LoopProbe);
    assert(b[n - 2] == BringUp::SelfHeal);
    assert(b[n - 1] == BringUp::WalletListener);
    if chain_sync {
        assert(b[1] == BringUp::CollateralCensus);
        assert(b[2] == (BringUp::MirrorPasses { live_broadcast: live }));
    }
    if peers {
        let k: int = if chain_sync {
            3
        } else {
            1
        };
        assert(b[k] == BringUp::MirrorPointers);
        assert(b[k + 1] == BringUp::PeerNetwork);
        if chain_sync {
            assert(b[5] == BringUp::BondVerifier);
        }
    }
    if chain_sync && peers {
        assert(b =~= seq![
            BringUp::CollateralRecords,
            BringUp::CollateralCensus,
            BringUp::MirrorPasses { live_broadcast: live },
            BringUp::MirrorPointers,
            BringUp::PeerNetwork,
            BringUp::BondVerifier,
            BringUp::LoopProbe,
            BringUp::SelfHeal,
            BringUp::WalletListener,
        ]);
    } else if chain_sync {
        assert(b =~= seq![
            BringUp::CollateralRecords,
            BringUp::CollateralCensus,
            BringUp::MirrorPasses { live_broadcast: live },
            BringUp::LoopProbe,
            BringUp::SelfHeal,
            BringUp::WalletListener,
        ]);
    } else if peers {
        assert(b =~= seq![
            BringUp::CollateralRecords,
            BringUp::MirrorPointers,
            BringUp::PeerNetwork,
            BringUp::LoopProbe,
            BringUp::SelfHeal,
            BringUp::WalletListener,
        ]);
    } else {
        assert(b =~= seq![
            BringUp::CollateralRecords,
            BringUp::LoopProbe,
            BringUp::SelfHeal,
            BringUp::WalletListener,
        ]);
    }
}

/// **Law: where the node listens.** First on the address of its configuration; on the sibling address at the
/// same port exactly where no host was named; and on `dig.local` at port 80 exactly where that is wanted.
pub proof fn law_where_the_node_listens(config: Config, d: Seq<(Door, Endpoint)>)
    requires
        are_doors(config, d),
    ensures
        d.len() > 0 && d[0].0 == Door::Localhost && d[0].1 == config.bound(),
        d[0].1.port == config.port,
        (exists|i: int| 0 <= i < d.len() && (#[trigger] d[i]).0 == Door::Ipv6) <==> config.host is None,
        (exists|i: int| 0 <= i < d.len() && (#[trigger] d[i]).0 == Door::DigLocal) <==> config.dig_local,
        forall|i: int|
            0 <= i < d.len() && (#[trigger] d[i]).0 == Door::Ipv6 ==> d[i].1.port == config.port && d[i].1.ip
                is V6,
        forall|i: int|
            0 <= i < d.len() && (#[trigger] d[i]).0 == Door::DigLocal ==> d[i].1 == (Endpoint {
                ip: Ip::V4(127, 0, 0, 2),
                port: 80,
            }),
{
    let v6: int = if config.host is None {
        1
    } else {
        0
    };
    if config.host is None {
        assert(d[1].0 == Door::Ipv6);
    }
    if config.dig_local {
        assert(d[1 + v6].0 == Door::DigLocal);
    }
}

/// **Law: what is said once the node listens.** Every address that opened, its upstream, its version, and
/// the address that the extension is to be told.
pub proof fn law_what_is_said_once_listening(config: Config, version: Seq<char>, bound: Seq<(Door, Endpoint)>)
    ensures
        ({
            let l = listening(config, version, bound);
            &&& l.level == Level::Info
            &&& l.tells("version"@, version)
            &&& l.tells("upstream"@, config.upstream@)
            &&& l.tells("extension_host"@, endpoint_text(config.bound()))
            &&& l.tells("addrs"@, text::joined(shown_doors(bound), ", "@))
        }),
        shown_doors(bound).len() == bound.len(),
        forall|i: int|
            0 <= i < bound.len() && bound[i].0 == Door::DigLocal ==> #[trigger] shown_doors(bound)[i]
                == "http://dig.local (no port)"@,
        forall|i: int|
            0 <= i < bound.len() && bound[i].0 != Door::DigLocal ==> #[trigger] shown_doors(bound)[i]
                == "http://"@ + endpoint_text(bound[i].1),
{
    let l = listening(config, version, bound);
    assert(l.fields[0] == ("version"@, version));
    assert(l.fields[1] == ("addrs"@, text::joined(shown_doors(bound), ", "@)));
    assert(l.fields[2] == ("upstream"@, config.upstream@));
    assert(l.fields[3] == ("extension_host"@, endpoint_text(config.bound())));
}

/// **Law: a line about an address names it.** With its level, and what is said.
pub proof fn law_a_line_names_its_address(level: Level, message: Seq<char>, addr: Endpoint, why: Seq<char>)
    ensures
        addr_line(level, message, addr).level == level,
        addr_line(level, message, addr).message == message,
        addr_line(level, message, addr).tells("addr"@, endpoint_text(addr)),
        text::has(bind_failure(addr, why), endpoint_text(addr)),
        text::has(bind_failure(addr, why), why),
{
    assert(addr_line(level, message, addr).fields[0] == ("addr"@, endpoint_text(addr)));
    let a = "dig-node: cannot bind "@;
    let t = endpoint_text(addr);
    text::law_a_longer_text_holds_its_parts(a, t, t);
    text::law_a_longer_text_holds_its_parts(a + t, ": "@, t);
    text::law_a_longer_text_holds_its_parts(a + t + ": "@, why, t);
    text::law_a_longer_text_holds_its_parts(a + t + ": "@, why, why);
}

/// **Law: where the control token is.** In the directory it was found in, unchanged, wherever it was found;
/// and otherwise in one of this run's own, with a warning that says why.
pub proof fn law_where_the_token_is(dir: String, token: String, e: Error, remedy: Seq<char>, place: TokenPlace)
    ensures
        is_place(TokenSearch::Service(Ok((dir, Ok(token)))), remedy, place) ==> (place matches TokenPlace::Kept {
            dir: d,
            token: t,
        } && d == dir && t == token),
        is_place(TokenSearch::Other(dir, Ok(token)), remedy, place) ==> (place matches TokenPlace::Kept {
            dir: d,
            token: t,
        } && d == dir && t == token),
        is_place(TokenSearch::Service(Ok((dir, Err(e)))), remedy, place) || is_place(
            TokenSearch::Other(dir, Err(e)),
            remedy,
            place,
        ) || is_place(TokenSearch::Service(Err(e)), remedy, place) ==> (place matches TokenPlace::Ephemeral {
            line,
        } && line@.level == Level::Warn && line@.tells("error"@, e.message@)),
        is_place(TokenSearch::Service(Err(e)), remedy, place) ==> (place matches TokenPlace::Ephemeral { line }
            && line@.tells("remedy"@, remedy)),
{
    if let TokenPlace::Ephemeral { line } = place {
        let f = line@.fields;
        if is_place(TokenSearch::Service(Ok((dir, Err(e)))), remedy, place) || is_place(
            TokenSearch::Other(dir, Err(e)),
            remedy,
            place,
        ) || is_place(TokenSearch::Service(Err(e)), remedy, place) {
            assert(f[0] == ("error"@, e.message@));
        }
        if is_place(TokenSearch::Service(Err(e)), remedy, place) {
            assert(f[1] == ("remedy"@, remedy));
        }
    }
}

} // verus!
