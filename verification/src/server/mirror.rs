//! The rounds in which the node looks after its own collateral: whether it may spend, what a round
//! observes, and what is said of it.
use vstd::prelude::*;

use crate::error::Error;
use crate::log::{line_views, plain, Level, LineModel, LogLine};
use crate::server::collateral::CurrentEpoch;
use crate::spend_audit::funding::{
    committed_in, lists_committed, unparsed, CommitmentsUnreadable,
};
use crate::spend_audit::ledger::{unreadable_in, SpendLog};
use crate::text;

verus! {

// ---- starting ----------------------------------------------------------------------------------

/// Whether the node may spend.
#[derive(Debug, Clone, Copy, PartialEq, Eq, Structural)]
pub enum SpendCapability {
    Available,
    BroadcastDisabled,
    WalletUnavailable,
    ChainClientUnavailable,
}

/// The name of whether the node may spend.
pub open spec fn capability_name(c: SpendCapability) -> Seq<char> {
    match c {
        SpendCapability::Available => "Available"@,
        SpendCapability::BroadcastDisabled => "BroadcastDisabled"@,
        SpendCapability::WalletUnavailable => "WalletUnavailable"@,
        SpendCapability::ChainClientUnavailable => "ChainClientUnavailable"@,
    }
}

/// What the lines about the rounds are filed under.
pub const MIRROR_TARGET: &'static str = "mirror";

/// A line about the rounds.
pub open spec fn mirror_line(level: Level, message: Seq<char>) -> LineModel {
    plain(level, message).under(MIRROR_TARGET@)
}

fn mirror_log(level: Level, message: &str) -> (r: LogLine)
    ensures
        r@ == mirror_line(level, message@),
{
    LogLine::new(level, message).under(MIRROR_TARGET)
}

/// What is said where there is no operator's wallet.
pub const NO_WALLET: &'static str = "no operator wallet is available, so this node cannot observe or bond its own \
capsules; its bond states are reported unknown until one exists";

/// What is said of a node that may spend.
pub const MIRROR_LIVE: &'static str = "the mirror lifecycle is live: this node may create and reclaim collateral";

/// What is said of a node that was not told to spend.
pub const MIRROR_NO_BROADCAST: &'static str = "the mirror lifecycle OBSERVES only: DIG_WALLET_ENABLE_LIVE_BROADCAST is off, the \
money-safe default, so no mirror spend is sent";

/// What is said of a node whose wallet did not open.
pub const MIRROR_NO_WALLET: &'static str = "the mirror lifecycle OBSERVES only: the operator wallet did not open";

/// What is said of a node that cannot reach the chain.
pub const MIRROR_NO_CHAIN: &'static str = "the mirror lifecycle OBSERVES only: the wallet opened and live broadcast is on, \
but this node could not build the shared chain client a broadcaster is made from, \
so a reclaim is planned and reported and no spend is sent";

/// What is said of whether the node may spend.
pub open spec fn capability_line(c: SpendCapability) -> LineModel {
    match c {
        SpendCapability::Available => mirror_line(Level::Info, MIRROR_LIVE@),
        SpendCapability::BroadcastDisabled => mirror_line(Level::Info, MIRROR_NO_BROADCAST@),
        SpendCapability::WalletUnavailable => mirror_line(Level::Warn, MIRROR_NO_WALLET@),
        SpendCapability::ChainClientUnavailable => mirror_line(Level::Warn, MIRROR_NO_CHAIN@),
    }
}

/// What comes of starting the rounds.
#[derive(Debug)]
pub enum MirrorStart {
    /// The rounds run for that owner, and that is said.
    Run { owner: [u8; 32], line: LogLine },
    /// There is no one to run them for, and that is said.
    Stop { line: LogLine },
}

/// Whether `s` is what comes of starting the rounds for an owner, if there is one.
pub open spec fn is_start(owner: Option<[u8; 32]>, c: SpendCapability, s: MirrorStart) -> bool {
    match owner {
        Some(o) => s matches MirrorStart::Run { owner: x, line } && x == o && line@
            == capability_line(c),
        None => s matches MirrorStart::Stop { line } && line@ == mirror_line(Level::Warn, NO_WALLET@).with(
            "capability"@,
            capability_name(c),
        ),
    }
}

/// What comes of starting the rounds. The owner is the signer's where there is a signer, so that what is
/// spent and what is observed belong to one key; otherwise it is looked up.
pub fn spawn_mirror_passes<F: Fn() -> Option<[u8; 32]>>(
    signer: Option<[u8; 32]>,
    derive_owner: &F,
    capability: SpendCapability,
) -> (r: MirrorStart)
    requires
        call_requires(*derive_owner, ()),
    ensures
        match signer {
            Some(o) => is_start(Some(o), capability, r),
            None => exists|o: Option<[u8; 32]>| #[trigger]
                call_ensures(*derive_owner, (), o) && is_start(o, capability, r),
        },
{
    let owner = match signer {
        Some(o) => Some(o),
        None => derive_owner(),
    };
    match owner {
        Some(o) => {
            let line = match capability {
                SpendCapability::Available => mirror_log(Level::Info, MIRROR_LIVE),
                SpendCapability::BroadcastDisabled => mirror_log(
                    Level::Info,
                    MIRROR_NO_BROADCAST,
                ),
                SpendCapability::WalletUnavailable => mirror_log(Level::Warn, MIRROR_NO_WALLET),
                SpendCapability::ChainClientUnavailable => mirror_log(
                    Level::Warn,
                    MIRROR_NO_CHAIN,
                ),
            };
            MirrorStart::Run { owner: o, line }
        },
        None => {
            let name = match capability {
                SpendCapability::Available => "Available",
                SpendCapability::BroadcastDisabled => "BroadcastDisabled",
                SpendCapability::WalletUnavailable => "WalletUnavailable",
                SpendCapability::ChainClientUnavailable => "ChainClientUnavailable",
            };
            MirrorStart::Stop { line: mirror_log(Level::Warn, NO_WALLET).with("capability", name) }
        },
    }
}

// ---- one round ---------------------------------------------------------------------------------

/// What a round does first.
#[derive(Debug, Clone, Copy, PartialEq, Eq, Structural)]
pub enum RoundStep {
    /// Wait for the next round.
    Sleep,
    /// Observe for that epoch, then wait for the next round.
    Observe { epoch: i64 },
}

/// What a round does first. The epoch is asked for in each, as the rounds go on over the end of one;
/// without one there is nothing to price and nothing is planned.
pub fn begin_round(epoch: CurrentEpoch) -> (r: RoundStep)
    ensures
        r == (match epoch {
            CurrentEpoch::Final(n) => RoundStep::Observe { epoch: n as i64 },
            CurrentEpoch::Undecided => RoundStep::Sleep,
        }),
{
    match epoch {
        CurrentEpoch::Final(n) => RoundStep::Observe { epoch: n as i64 },
        CurrentEpoch::Undecided => RoundStep::Sleep,
    }
}

/// What a round's balance says of whether the wallet ever held money.
#[derive(Debug, Clone, Copy, PartialEq, Eq, Structural)]
pub enum FundingReading {
    /// That balance, and whether the wallet was up to date when it was read.
    Balance { base_units: u64, synced: bool },
    /// Nothing.
    CannotSay,
}

/// What a round's balance says. A balance that could not be read is not a balance of nothing.
pub fn funding_reading(balance: Option<u64>, synced: bool) -> (r: FundingReading)
    ensures
        r == (match balance {
            Some(base_units) => FundingReading::Balance { base_units, synced },
            None => FundingReading::CannotSay,
        }),
{
    match balance {
        Some(base_units) => FundingReading::Balance { base_units, synced },
        None => FundingReading::CannotSay,
    }
}

/// The coins a round may not spend, from the record of what was spent. A record that cannot be read whole
/// is the wallet's failure: which coins are committed is then unknown, and no coin is free to spend.
pub fn committed_coins(record: &Result<SpendLog, Error>, now_ms: u64) -> (r: Result<
    Vec<String>,
    PassError,
>)
    ensures
        match record {
            Ok(log) => if unreadable_in(log.history()) == 0 {
                r matches Ok(ids) && lists_committed(ids, *log, now_ms)
            } else {
                r matches Err(PassError::Wallet(m)) && m@ == CommitmentsUnreadable::sentence(
                    unparsed(log.history()),
                )
            },
            Err(e) => r matches Err(PassError::Wallet(m)) && m@ == CommitmentsUnreadable::sentence(
                e.message@,
            ),
        },
{
    match committed_in(record, now_ms) {
        Ok(ids) => Ok(ids),
        Err(e) => Err(PassError::Wallet(e.to_text())),
    }
}

/// A capsule that collateral stands for.
#[derive(Debug, PartialEq, Eq)]
pub struct Bond {
    pub store_id: String,
    pub root: String,
}

impl Bond {
    /// The capsule of that store at that root.
    pub fn new(store_id: &str, root: &str) -> (r: Self)
        ensures
            r.store_id@ == store_id@,
            r.root@ == root@,
    {
        Bond { store_id: store_id.to_owned(), root: root.to_owned() }
    }
}

/// A coin that holds collateral.
#[derive(Debug, PartialEq, Eq)]
pub struct HeldMirror {
    pub coin_id: String,
    pub store_id: String,
    pub root: String,
    pub epoch: i64,
    pub collateral_dig_base_units: u64,
}

/// Why a round could not do something.
#[derive(Debug, PartialEq, Eq)]
pub enum PassError {
    /// The wallet could not act.
    Wallet(String),
    /// The chain could not be read.
    Chain(String),
}

/// What is said of why a round could not do something.
pub open spec fn pass_error_text(e: PassError) -> Seq<char> {
    match e {
        PassError::Wallet(m) => "the operator wallet could not act: "@ + m@,
        PassError::Chain(m) => "the chain source could not be read: "@ + m@,
    }
}

impl PassError {
    /// What is said of it.
    pub fn to_text(&self) -> (r: String)
        ensures
            r@ == pass_error_text(*self),
    {
        match self {
            PassError::Wallet(m) => {
                let mut out = "the operator wallet could not act: ".to_owned();
                out.append(m.as_str());
                out
            },
            PassError::Chain(m) => {
                let mut out = "the chain source could not be read: ".to_owned();
                out.append(m.as_str());
                out
            },
        }
    }
}

/// What a round did.
#[derive(Debug)]
pub struct PassReport {
    pub reclaimed: Vec<HeldMirror>,
    pub created: Vec<Bond>,
    /// The coins that could not be reclaimed, and why.
    pub reclaim_failures: Vec<(HeldMirror, PassError)>,
    /// The capsule at which creating stopped, and why, if it did.
    pub stopped_at: Option<(Bond, PassError)>,
    /// The capsules and what is known of the collateral for each.
    pub states: Vec<Bond>,
    pub locked_dig_base_units: u64,
}

/// What is said of a round.
pub const PASS_COMPLETE: &'static str = "mirror pass complete";

/// What is said of a round that stopped.
pub const PASS_STOPPED: &'static str = "the mirror pass stopped at a create that failed; later creates were not attempted";

/// What is said of a coin that could not be reclaimed.
pub const RECLAIM_FAILED: &'static str = "a mirror reclaim could not be made; its collateral stays locked";

/// A line about a round of that epoch.
pub open spec fn epoch_line(level: Level, message: Seq<char>, epoch: i64) -> LineModel {
    mirror_line(level, message).with("epoch"@, text::signed_decimal(epoch as int))
}

/// What is said of what a round did.
pub open spec fn summary_line(r: PassReport, epoch: i64) -> LineModel {
    epoch_line(Level::Debug, PASS_COMPLETE@, epoch).with(
        "bonds"@,
        text::decimal(r.states@.len()),
    ).with("locked_dig_base_units"@, text::decimal(r.locked_dig_base_units as nat)).with(
        "reclaimed"@,
        text::decimal(r.reclaimed@.len()),
    ).with("created"@, text::decimal(r.created@.len()))
}

/// What is said of a round that stopped.
pub open spec fn stopped_line(b: Bond, e: PassError, epoch: i64) -> LineModel {
    epoch_line(Level::Warn, PASS_STOPPED@, epoch).with("store_id"@, b.store_id@).with(
        "root"@,
        b.root@,
    ).with("error"@, pass_error_text(e))
}

/// What is said of a coin that could not be reclaimed.
pub open spec fn reclaim_line(m: HeldMirror, e: PassError, epoch: i64) -> LineModel {
    epoch_line(Level::Warn, RECLAIM_FAILED@, epoch).with("coin_id"@, m.coin_id@).with(
        "store_id"@,
        m.store_id@,
    ).with("root"@, m.root@).with("error"@, pass_error_text(e))
}

/// What is said of the coins that could not be reclaimed.
pub open spec fn reclaim_lines(failures: Seq<(HeldMirror, PassError)>, epoch: i64) -> Seq<LineModel> {
    Seq::new(failures.len(), |i: int| reclaim_line(failures[i].0, failures[i].1, epoch))
}

/// What is said of a round.
pub open spec fn report_lines(r: PassReport, epoch: i64) -> Seq<LineModel> {
    seq![summary_line(r, epoch)] + (match r.stopped_at {
        Some(s) => seq![stopped_line(s.0, s.1, epoch)],
        None => Seq::empty(),
    }) + reclaim_lines(r.reclaim_failures@, epoch)
}

fn epoch_log(level: Level, message: &str, epoch: i64) -> (r: LogLine)
    ensures
        r@ == epoch_line(level, message@, epoch),
{
    mirror_log(level, message).with("epoch", text::signed_number(epoch).as_str())
}

/// What is said of a round: what it did; at which capsule it stopped and why, if it did; and each coin
/// that could not be reclaimed, with why.
pub fn log_mirror_pass(report: &PassReport, epoch: i64) -> (r: Vec<LogLine>)
    ensures
        line_views(r@) == report_lines(*report, epoch),
{
    let mut out: Vec<LogLine> = Vec::new();
    out.push(
        epoch_log(Level::Debug, PASS_COMPLETE, epoch).with_number(
            "bonds",
            report.states.len() as u64,
        ).with_number("locked_dig_base_units", report.locked_dig_base_units).with_number(
            "reclaimed",
            report.reclaimed.len() as u64,
        ).with_number("created", report.created.len() as u64),
    );
    if let Some(s) = &report.stopped_at {
        out.push(
            epoch_log(Level::Warn, PASS_STOPPED, epoch).with("store_id", s.0.store_id.as_str()).with(
                "root",
                s.0.root.as_str(),
            ).with("error", s.1.to_text().as_str()),
        );
    }
    let ghost head = line_views(out@);
    let ghost tail = reclaim_lines(report.reclaim_failures@, epoch);
    proof {
        assert(head =~= seq![summary_line(*report, epoch)] + (match report.stopped_at {
            Some(s) => seq![stopped_line(s.0, s.1, epoch)],
            None => Seq::empty(),
        }));
        assert(head =~= head + tail.take(0));
    }
    let mut i: usize = 0;
    while i < report.reclaim_failures.len()
        invariant
            i <= report.reclaim_failures@.len(),
            tail == reclaim_lines(report.reclaim_failures@, epoch),
            line_views(out@) == head + tail.take(i as int),
        decreases report.reclaim_failures@.len() - i,
    {
        let f = &report.reclaim_failures[i];
        let ghost before = out@;
        out.push(
            epoch_log(Level::Warn, RECLAIM_FAILED, epoch).with("coin_id", f.0.coin_id.as_str()).with(
                "store_id",
                f.0.store_id.as_str(),
            ).with("root", f.0.root.as_str()).with("error", f.1.to_text().as_str()),
        );
        proof {
            assert(line_views(out@) =~= line_views(before).push(tail[i as int]));
            assert(line_views(out@) =~= head + tail.take(i + 1));
        }
        i += 1;
    }
    proof {
        assert(tail.take(tail.len() as int) =~= tail);
        assert(line_views(out@) =~= report_lines(*report, epoch));
    }
    out
}

/// What came of a round.
pub enum MirrorPass {
    /// The chain could not be reached, for that reason.
    NoSource(String),
    /// It could not be observed, for that reason.
    Failed(PassError),
    /// It was observed, and that was done.
    Done(PassReport),
}

/// What is said where the chain could not be reached.
pub const PASS_NO_SOURCE: &'static str = "no chain source for the mirror pass this round";

/// What is said where nothing could be observed.
pub const PASS_UNOBSERVED: &'static str = "the mirror pass could not observe; the reported bond states keep their previous answer";

/// What is said of a round.
pub open spec fn round_lines(pass: MirrorPass, epoch: i64) -> Seq<LineModel> {
    match pass {
        MirrorPass::NoSource(e) => seq![mirror_line(Level::Warn, PASS_NO_SOURCE@).with("error"@, e@)],
        MirrorPass::Failed(e) => seq![
            mirror_line(Level::Warn, PASS_UNOBSERVED@).with("error"@, pass_error_text(e)),
        ],
        MirrorPass::Done(r) => report_lines(r, epoch),
    }
}

/// What follows from a round: whether what it observed is published, and what is said of it. A round
/// that observed nothing publishes nothing, so what an earlier one observed stays.
pub fn end_round(pass: &MirrorPass, epoch: i64) -> (r: (bool, Vec<LogLine>))
    ensures
        r.0 == (*pass is Done),
        line_views(r.1@) == round_lines(*pass, epoch),
{
    let mut out: Vec<LogLine> = Vec::new();
    match pass {
        MirrorPass::NoSource(e) => {
            out.push(mirror_log(Level::Warn, PASS_NO_SOURCE).with("error", e.as_str()));
            proof {
                assert(line_views(out@) =~= round_lines(*pass, epoch));
            }
            (false, out)
        },
        MirrorPass::Failed(e) => {
            out.push(
                mirror_log(Level::Warn, PASS_UNOBSERVED).with("error", e.to_text().as_str()),
            );
            proof {
                assert(line_views(out@) =~= round_lines(*pass, epoch));
            }
            (false, out)
        },
        MirrorPass::Done(report) => (true, log_mirror_pass(report, epoch)),
    }
}

// ---- laws --------------------------------------------------------------------------------------

/// **Law: a round without a failure warns of nothing.** Where nothing stopped and every coin was
/// reclaimed, no line is a warning.
pub proof fn law_a_clean_round_warns_of_nothing(r: PassReport, epoch: i64, i: int)
    requires
        r.stopped_at is None,
        r.reclaim_failures@.len() == 0,
        0 <= i < report_lines(r, epoch).len(),
    ensures
        report_lines(r, epoch)[i].level == Level::Debug,
{
}

/// **Law: a failed create is told with its capsule and cause.** Where a round stopped, one of the lines
/// is a warning that names the store, the root and the cause.
pub proof fn law_a_failed_create_is_told(r: PassReport, epoch: i64)
    requires
        r.stopped_at is Some,
    ensures
        ({
            let l = report_lines(r, epoch)[1];
            let s = r.stopped_at->0;
            &&& l.level == Level::Warn
            &&& l.tells("store_id"@, s.0.store_id@)
            &&& l.tells("root"@, s.0.root@)
            &&& l.tells("error"@, pass_error_text(s.1))
        }),
{
    let s = r.stopped_at->0;
    let l = report_lines(r, epoch)[1];
    assert(l == stopped_line(s.0, s.1, epoch));
    assert(l.fields[1] == ("store_id"@, s.0.store_id@));
    assert(l.fields[2] == ("root"@, s.0.root@));
    assert(l.fields[3] == ("error"@, pass_error_text(s.1)));
}

/// **Law: each failed reclaim is told with its coin and cause.** For every coin that could not be
/// reclaimed there is a warning that names it, its capsule and the cause.
pub proof fn law_each_failed_reclaim_is_told(r: PassReport, epoch: i64, i: int)
    requires
        0 <= i < r.reclaim_failures@.len(),
    ensures
        exists|k: int|
            0 <= k < report_lines(r, epoch).len() && (#[trigger] report_lines(r, epoch)[k])
                == reclaim_line(r.reclaim_failures@[i].0, r.reclaim_failures@[i].1, epoch),
        ({
            let f = r.reclaim_failures@[i];
            let l = reclaim_line(f.0, f.1, epoch);
            &&& l.level == Level::Warn
            &&& l.tells("coin_id"@, f.0.coin_id@)
            &&& l.tells("store_id"@, f.0.store_id@)
            &&& l.tells("root"@, f.0.root@)
            &&& l.tells("error"@, pass_error_text(f.1))
        }),
{
    let f = r.reclaim_failures@[i];
    let l = reclaim_line(f.0, f.1, epoch);
    assert(l.fields[1] == ("coin_id"@, f.0.coin_id@));
    assert(l.fields[2] == ("store_id"@, f.0.store_id@));
    assert(l.fields[3] == ("root"@, f.0.root@));
    assert(l.fields[4] == ("error"@, pass_error_text(f.1)));
    let shift: int = if r.stopped_at is Some {
        2
    } else {
        1
    };
    assert(report_lines(r, epoch)[shift + i] == l);
}

/// **Law: what is said of the ability to spend.** It goes by its own name; that the node may spend, or may not
/// because it was not allowed to, is a note; that something is missing is a warning. All of it is filed
/// under `mirror`.
pub proof fn law_what_is_said_of_the_ability_to_spend(c: SpendCapability)
    ensures
        capability_name(SpendCapability::Available) == "Available"@,
        capability_name(SpendCapability::BroadcastDisabled) == "BroadcastDisabled"@,
        capability_name(SpendCapability::WalletUnavailable) == "WalletUnavailable"@,
        capability_name(SpendCapability::ChainClientUnavailable) == "ChainClientUnavailable"@,
        capability_line(c).level == Level::Info <==> c == SpendCapability::Available || c
            == SpendCapability::BroadcastDisabled,
        capability_line(c).level == Level::Warn <==> c == SpendCapability::WalletUnavailable || c
            == SpendCapability::ChainClientUnavailable,
        capability_line(c).target == Some("mirror"@),
        capability_line(SpendCapability::Available).message == MIRROR_LIVE@,
        capability_line(SpendCapability::BroadcastDisabled).message == MIRROR_NO_BROADCAST@,
        capability_line(SpendCapability::WalletUnavailable).message == MIRROR_NO_WALLET@,
        capability_line(SpendCapability::ChainClientUnavailable).message == MIRROR_NO_CHAIN@,
{
}

/// **Law: the rounds run for an owner.** With an owner they run, for that one; without one they stop, with a
/// warning that names the ability to spend.
pub proof fn law_the_rounds_run_for_an_owner(o: [u8; 32], c: SpendCapability, s: MirrorStart)
    ensures
        is_start(Some(o), c, s) ==> (s matches MirrorStart::Run { owner, line } && owner == o && line@
            == capability_line(c)),
        is_start(None, c, s) ==> (s matches MirrorStart::Stop { line } && line@.level == Level::Warn && line@.tells(
            "capability"@,
            capability_name(c),
        )),
{
    if let MirrorStart::Stop { line } = s {
        if is_start(None, c, s) {
            assert(line@.fields[0] == ("capability"@, capability_name(c)));
        }
    }
}

/// **Law: what is said of a round.** A round that was made says the epoch, and how many bonds there are, what
/// is locked, what was reclaimed and what was created; one line more for a create that failed and for each
/// reclaim that did. A round that was not made warns, and says why.
pub proof fn law_what_is_said_of_a_round(r: PassReport, epoch: i64, e: PassError, why: String)
    ensures
        ({
            let said = round_lines(MirrorPass::Done(r), epoch);
            &&& said.len() == 1 + (if r.stopped_at is Some { 1int } else { 0 }) + r.reclaim_failures@.len()
            &&& said[0].level == Level::Debug
            &&& said[0].target == Some("mirror"@)
            &&& said[0].fields == seq![
                ("epoch"@, text::signed_decimal(epoch as int)),
                ("bonds"@, text::decimal(r.states@.len())),
                ("locked_dig_base_units"@, text::decimal(r.locked_dig_base_units as nat)),
                ("reclaimed"@, text::decimal(r.reclaimed@.len())),
                ("created"@, text::decimal(r.created@.len())),
            ]
        }),
        ({
            let said = round_lines(MirrorPass::Failed(e), epoch);
            said.len() == 1 && said[0].level == Level::Warn && said[0].tells("error"@, pass_error_text(e))
        }),
        ({
            let said = round_lines(MirrorPass::NoSource(why), epoch);
            said.len() == 1 && said[0].level == Level::Warn && said[0].tells("error"@, why@)
        }),
        pass_error_text(PassError::Wallet(why)) == "the operator wallet could not act: "@ + why@,
        pass_error_text(PassError::Chain(why)) == "the chain source could not be read: "@ + why@,
{
    let a = round_lines(MirrorPass::Failed(e), epoch);
    assert(a[0].fields[0] == ("error"@, pass_error_text(e)));
    let b = round_lines(MirrorPass::NoSource(why), epoch);
    assert(b[0].fields[0] == ("error"@, why@));
}

} // verus!
