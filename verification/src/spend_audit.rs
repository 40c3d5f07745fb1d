//! The automated-spend audit record: this node's account of the money it moved without asking for
//! each transaction.
//!
//! The record is an append-only list of lines. Each readable line is a full snapshot of one spend at
//! one `revision`; the ledger is the fold that keeps the highest revision of each id. A line that
//! cannot be read is counted, never dropped.
//!
//! Three rules hold of every operation here. A spend has an entry before it can be signed, so a
//! failure is an entry and not an omission. Only an observation of the created coin produces
//! `Confirmed`. A spend whose producer never recorded an outcome degrades to `Unresolved`, never to
//! silence.
use crate::text;
use vstd::prelude::*;

pub mod funding;
pub mod ids;
pub mod journal;
pub mod kinds;
pub mod ledger;
pub mod reconcile;
pub mod wire;

pub use self::funding::{committed_funding_coin_ids, CommitmentsUnreadable};
pub use self::ids::IdSource;
pub use self::journal::{Clock, RecordedSpend, Resolution, SpendJournal, Submission};
pub use self::ledger::{LogLine, SpendLedger, SpendLog, SpendQuery};
pub use self::reconcile::{reconcile, ChainInventory, ReconcileReport};

verus! {

/// The name of the record's file inside the state directory.
pub const SPEND_AUDIT_FILE: &'static str = "spend-audit.jsonl";

/// How long a record holds its funding coins out of selection, in milliseconds: two mirror rounds.
pub const FUNDING_RESERVATION_WINDOW_MS: u64 = 1_200_000;

// ---- the types of a record ---------------------------------------------------------------------

/// What class of spend a record is.
#[derive(Debug, PartialEq, Eq, PartialOrd, Ord)]
pub struct SpendKind(String);

/// Which asset a spend moves.
#[derive(Debug, PartialEq, Eq)]
pub enum Asset {
    Xch,
    Dig,
    Cat { asset_id: String },
}

/// On whose authority a spend was made: the acting principal and the standing grant.
#[derive(Debug, PartialEq, Eq)]
pub struct Authority {
    pub principal: String,
    pub grant: String,
}

/// A coin a spend consumes.
#[derive(Debug, PartialEq, Eq, PartialOrd, Ord)]
pub struct FundingCoinId(pub String);

/// The coin a spend creates. A type apart from [`FundingCoinId`], so that seeing the funding coin
/// gone can never be written down as seeing the created coin.
#[derive(Debug, PartialEq, Eq, PartialOrd, Ord)]
pub struct TargetCoinId(pub String);

/// The step at which an attempt failed.
#[derive(Debug, Clone, Copy, PartialEq, Eq, Structural)]
pub enum FailureStage {
    Signing,
    Broadcast,
    Confirmation,
}

/// The lifecycle of one automated spend. The height and the coin of a confirmation stand inside the
/// variant, so no record can hold one without the other.
#[derive(Debug, PartialEq, Eq)]
pub enum SpendStatus {
    Pending,
    Submitted,
    Confirmed { height: u32, coin_id: TargetCoinId },
    Failed { stage: FailureStage, reason: String },
    Unresolved { reason: String },
}

/// A coin id to look up on chain, and whether this node saw it there.
#[derive(Debug, PartialEq, Eq)]
pub struct ChainReference {
    pub coin_id: String,
    pub confirmed: bool,
}

/// Which bond a spend serves.
#[derive(Debug, PartialEq, Eq)]
pub struct AuditedBond {
    pub root: String,
    pub epoch: i64,
}

/// What a producer states before it signs.
#[derive(Debug, PartialEq, Eq)]
pub struct SpendIntent {
    pub kind: SpendKind,
    pub purpose: String,
    pub authority: Authority,
    pub asset: Asset,
    pub amount_mojos: u64,
    pub fee_mojos: u64,
    pub store_id: Option<String>,
    pub bond: Option<AuditedBond>,
}

/// One snapshot of one spend.
#[derive(Debug, PartialEq, Eq)]
pub struct SpendRecord {
    pub id: String,
    pub revision: u32,
    pub kind: SpendKind,
    pub purpose: String,
    pub authority: Authority,
    pub asset: Asset,
    pub amount_mojos: u64,
    pub fee_mojos: u64,
    pub store_id: Option<String>,
    pub bond: Option<AuditedBond>,
    pub initiated_ms: u64,
    pub updated_ms: u64,
    pub status: SpendStatus,
    pub funding_coin_ids: Vec<FundingCoinId>,
    pub intended_coin_id: Option<TargetCoinId>,
}

// ---- the model of a record ---------------------------------------------------------------------

/// An [`Asset`] as a mathematical value.
pub enum AssetModel {
    Xch,
    Dig,
    Cat(Seq<char>),
}

/// A [`SpendStatus`] as a mathematical value.
pub enum StatusModel {
    Pending,
    Submitted,
    Confirmed(u32, Seq<char>),
    Failed(FailureStage, Seq<char>),
    Unresolved(Seq<char>),
}

/// A [`SpendRecord`] as a mathematical value.
pub struct RecordModel {
    pub id: Seq<char>,
    pub revision: u32,
    pub kind: Seq<char>,
    pub purpose: Seq<char>,
    pub principal: Seq<char>,
    pub grant: Seq<char>,
    pub asset: AssetModel,
    pub amount_mojos: u64,
    pub fee_mojos: u64,
    pub store_id: Option<Seq<char>>,
    pub bond: Option<(Seq<char>, i64)>,
    pub initiated_ms: u64,
    pub updated_ms: u64,
    pub status: StatusModel,
    pub funding: Seq<Seq<char>>,
    pub intended: Option<Seq<char>>,
}

impl View for SpendKind {
    type V = Seq<char>;

    closed spec fn view(&self) -> Seq<char> {
        self.0@
    }
}

impl View for Asset {
    type V = AssetModel;

    open spec fn view(&self) -> AssetModel {
        match self {
            Asset::Xch => AssetModel::Xch,
            Asset::Dig => AssetModel::Dig,
            Asset::Cat { asset_id } => AssetModel::Cat(asset_id@),
        }
    }
}

impl View for SpendStatus {
    type V = StatusModel;

    open spec fn view(&self) -> StatusModel {
        match self {
            SpendStatus::Pending => StatusModel::Pending,
            SpendStatus::Submitted => StatusModel::Submitted,
            SpendStatus::Confirmed { height, coin_id } => StatusModel::Confirmed(
                *height,
                coin_id.0@,
            ),
            SpendStatus::Failed { stage, reason } => StatusModel::Failed(*stage, reason@),
            SpendStatus::Unresolved { reason } => StatusModel::Unresolved(reason@),
        }
    }
}

/// The ids of a list of funding coins.
pub open spec fn funding_views(ids: Seq<FundingCoinId>) -> Seq<Seq<char>> {
    Seq::new(ids.len(), |i: int| ids[i].0@)
}

/// The id of an optional target coin.
pub open spec fn target_view(c: Option<TargetCoinId>) -> Option<Seq<char>> {
    match c {
        Some(t) => Some(t.0@),
        None => None,
    }
}

/// The root and epoch of an optional bond.
pub open spec fn bond_view(b: Option<AuditedBond>) -> Option<(Seq<char>, i64)> {
    match b {
        Some(t) => Some((t.root@, t.epoch)),
        None => None,
    }
}

impl View for SpendRecord {
    type V = RecordModel;

    open spec fn view(&self) -> RecordModel {
        RecordModel {
            id: self.id@,
            revision: self.revision,
            kind: self.kind@,
            purpose: self.purpose@,
            principal: self.authority.principal@,
            grant: self.authority.grant@,
            asset: self.asset@,
            amount_mojos: self.amount_mojos,
            fee_mojos: self.fee_mojos,
            store_id: text::opt_view(self.store_id),
            bond: bond_view(self.bond),
            initiated_ms: self.initiated_ms,
            updated_ms: self.updated_ms,
            status: self.status@,
            funding: funding_views(self.funding_coin_ids@),
            intended: target_view(self.intended_coin_id),
        }
    }
}

/// The models of a list of records.
pub open spec fn models(records: Seq<SpendRecord>) -> Seq<RecordModel> {
    Seq::new(records.len(), |i: int| records[i]@)
}

// ---- copies ------------------------------------------------------------------------------------

impl Clone for SpendKind {
    fn clone(&self) -> (r: Self)
        ensures
            r == *self,
    {
        SpendKind(self.0.clone())
    }
}

impl Clone for Asset {
    fn clone(&self) -> (r: Self)
        ensures
            r == *self,
    {
        match self {
            Asset::Xch => Asset::Xch,
            Asset::Dig => Asset::Dig,
            Asset::Cat { asset_id } => Asset::Cat { asset_id: asset_id.clone() },
        }
    }
}

impl Clone for Authority {
    fn clone(&self) -> (r: Self)
        ensures
            r == *self,
    {
        Authority { principal: self.principal.clone(), grant: self.grant.clone() }
    }
}

impl Clone for FundingCoinId {
    fn clone(&self) -> (r: Self)
        ensures
            r == *self,
    {
        FundingCoinId(self.0.clone())
    }
}

impl Clone for TargetCoinId {
    fn clone(&self) -> (r: Self)
        ensures
            r == *self,
    {
        TargetCoinId(self.0.clone())
    }
}

impl Clone for SpendStatus {
    fn clone(&self) -> (r: Self)
        ensures
            r == *self,
    {
        match self {
            SpendStatus::Pending => SpendStatus::Pending,
            SpendStatus::Submitted => SpendStatus::Submitted,
            SpendStatus::Confirmed { height, coin_id } => SpendStatus::Confirmed {
                height: *height,
                coin_id: coin_id.clone(),
            },
            SpendStatus::Failed { stage, reason } => SpendStatus::Failed {
                stage: *stage,
                reason: reason.clone(),
            },
            SpendStatus::Unresolved { reason } => SpendStatus::Unresolved {
                reason: reason.clone(),
            },
        }
    }
}

impl Clone for AuditedBond {
    fn clone(&self) -> (r: Self)
        ensures
            r == *self,
    {
        AuditedBond { root: self.root.clone(), epoch: self.epoch }
    }
}

/// A copy of a list of funding coins.
fn copy_funding(ids: &Vec<FundingCoinId>) -> (out: Vec<FundingCoinId>)
    ensures
        out@ == ids@,
{
    let mut out: Vec<FundingCoinId> = Vec::new();
    let mut i: usize = 0;
    while i < ids.len()
        invariant
            i <= ids@.len(),
            out@ == ids@.take(i as int),
        decreases ids@.len() - i,
    {
        out.push(ids[i].clone());
        i += 1;
        proof {
            assert(ids@.take(i as int) =~= ids@.take(i - 1).push(ids@[i - 1]));
        }
    }
    proof {
        assert(ids@.take(ids@.len() as int) =~= ids@);
    }
    out
}

impl Clone for SpendRecord {
    fn clone(&self) -> (r: Self)
        ensures
            r@ == self@,
    {
        SpendRecord {
            id: self.id.clone(),
            revision: self.revision,
            kind: self.kind.clone(),
            purpose: self.purpose.clone(),
            authority: self.authority.clone(),
            asset: self.asset.clone(),
            amount_mojos: self.amount_mojos,
            fee_mojos: self.fee_mojos,
            store_id: text::copy_opt(&self.store_id),
            bond: match &self.bond {
                Some(b) => Some(b.clone()),
                None => None,
            },
            initiated_ms: self.initiated_ms,
            updated_ms: self.updated_ms,
            status: self.status.clone(),
            funding_coin_ids: copy_funding(&self.funding_coin_ids),
            intended_coin_id: match &self.intended_coin_id {
                Some(c) => Some(c.clone()),
                None => None,
            },
        }
    }
}

// ---- what a record says ------------------------------------------------------------------------

impl FailureStage {
    /// Whether money may have moved although the attempt failed at this stage: at every stage but
    /// signing a signed bundle already existed.
    pub open spec fn moved(self) -> bool {
        self != FailureStage::Signing
    }

    /// Whether money may have moved although the attempt failed at this stage.
    pub fn money_may_have_moved(&self) -> (r: bool)
        ensures
            r == self.moved(),
    {
        match self {
            FailureStage::Signing => false,
            FailureStage::Broadcast | FailureStage::Confirmation => true,
        }
    }

    /// The stage's name.
    pub open spec fn name(self) -> Seq<char> {
        match self {
            FailureStage::Signing => "signing"@,
            FailureStage::Broadcast => "broadcast"@,
            FailureStage::Confirmation => "confirmation"@,
        }
    }

    /// The stage's name, as it is printed.
    pub fn to_text(&self) -> (r: &'static str)
        ensures
            r@ == self.name(),
    {
        match self {
            FailureStage::Signing => "signing",
            FailureStage::Broadcast => "broadcast",
            FailureStage::Confirmation => "confirmation",
        }
    }
}

impl StatusModel {
    /// The stable token of the status.
    pub open spec fn token(self) -> Seq<char> {
        match self {
            StatusModel::Pending => "pending"@,
            StatusModel::Submitted => "submitted"@,
            StatusModel::Confirmed(_, _) => "confirmed"@,
            StatusModel::Failed(_, _) => "failed"@,
            StatusModel::Unresolved(_) => "unresolved"@,
        }
    }

    /// Whether a signed bundle exists whose fate is unknown, so that the chain is worth asking.
    pub open spec fn reached_network(self) -> bool {
        match self {
            StatusModel::Submitted => true,
            StatusModel::Unresolved(_) => true,
            StatusModel::Failed(stage, _) => stage.moved(),
            StatusModel::Pending => false,
            StatusModel::Confirmed(_, _) => false,
        }
    }

    /// Whether no further observation is expected to change the outcome.
    pub open spec fn terminal(self) -> bool {
        match self {
            StatusModel::Confirmed(_, _) => true,
            StatusModel::Failed(stage, _) => !stage.moved(),
            _ => false,
        }
    }
}

/// A status is terminal, may have reached the network, or is pending, and never two of these.
pub proof fn law_status_is_settled_open_or_pending(s: StatusModel)
    ensures
        s.terminal() ==> !s.reached_network() && s !is Pending,
        s.reached_network() ==> s !is Pending,
        s.terminal() || s.reached_network() || s is Pending,
{
}

impl SpendStatus {
    /// The stable token of the status.
    pub fn token(&self) -> (r: &'static str)
        ensures
            r@ == self@.token(),
    {
        match self {
            SpendStatus::Pending => "pending",
            SpendStatus::Submitted => "submitted",
            SpendStatus::Confirmed { .. } => "confirmed",
            SpendStatus::Failed { .. } => "failed",
            SpendStatus::Unresolved { .. } => "unresolved",
        }
    }

    /// Whether this spend's bundle may have reached the network.
    pub fn may_have_reached_the_network(&self) -> (r: bool)
        ensures
            r == self@.reached_network(),
    {
        match self {
            SpendStatus::Submitted => true,
            SpendStatus::Unresolved { .. } => true,
            SpendStatus::Failed { stage, .. } => stage.money_may_have_moved(),
            SpendStatus::Pending => false,
            SpendStatus::Confirmed { .. } => false,
        }
    }

    /// Whether no further observation is expected to change this outcome.
    pub fn is_terminal(&self) -> (r: bool)
        ensures
            r == self@.terminal(),
    {
        match self {
            SpendStatus::Confirmed { .. } => true,
            SpendStatus::Failed { stage, .. } => !stage.money_may_have_moved(),
            SpendStatus::Pending => false,
            SpendStatus::Submitted => false,
            SpendStatus::Unresolved { .. } => false,
        }
    }
}

impl SpendKind {
    /// The kind named `kind`.
    pub fn new(kind: &str) -> (r: Self)
        ensures
            r@ == kind@,
    {
        SpendKind(kind.to_owned())
    }

    /// The kind's name.
    pub fn as_str(&self) -> (r: &str)
        ensures
            r@ == self@,
    {
        self.0.as_str()
    }
}

impl AssetModel {
    /// The printed name of the asset.
    pub open spec fn name(self) -> Seq<char> {
        match self {
            AssetModel::Xch => "XCH"@,
            AssetModel::Dig => "DIG"@,
            AssetModel::Cat(id) => "CAT:"@ + id,
        }
    }
}

impl Asset {
    /// The printed name of the asset.
    pub fn to_text(&self) -> (r: String)
        ensures
            r@ == self@.name(),
    {
        match self {
            Asset::Xch => "XCH".to_owned(),
            Asset::Dig => "DIG".to_owned(),
            Asset::Cat { asset_id } => {
                let mut out = "CAT:".to_owned();
                out.append(asset_id.as_str());
                out
            },
        }
    }
}

impl RecordModel {
    /// The coin to look up and whether it was observed: the confirmed coin, else the coin the spend
    /// was expected to create.
    pub open spec fn reference(self) -> Option<(Seq<char>, bool)> {
        match self.status {
            StatusModel::Confirmed(_, coin) => Some((coin, true)),
            _ => match self.intended {
                Some(coin) => Some((coin, false)),
                None => None,
            },
        }
    }

    /// How long ago the record was last updated; zero for a record dated in the future.
    pub open spec fn age_at(self, now_ms: u64) -> int {
        if now_ms >= self.updated_ms {
            now_ms - self.updated_ms
        } else {
            0
        }
    }

    /// Whether the record still holds its funding coins out of selection.
    pub open spec fn holds_funding_at(self, now_ms: u64) -> bool {
        !self.status.terminal() && self.age_at(now_ms) < FUNDING_RESERVATION_WINDOW_MS
    }
}

/// The length of a mirror round in milliseconds, `dig_constants::MIRROR_ROUND_LENGTH_MS`: ten
/// minutes.
#[verifier::external_body]
pub(crate) fn mirror_round_length_ms() -> (r: i64)
    ensures
        r == 600_000,
{
    dig_constants::MIRROR_ROUND_LENGTH_MS
}

/// How long a record holds its funding coins: two mirror rounds.
pub fn funding_reservation_window_ms() -> (r: u64)
    ensures
        r == FUNDING_RESERVATION_WINDOW_MS,
{
    2 * (mirror_round_length_ms() as u64)
}

impl SpendRecord {
    /// The coin to look up on chain for this spend, and whether this node saw it there.
    pub fn chain_reference(&self) -> (r: Option<ChainReference>)
        ensures
            r is Some <==> self@.reference() is Some,
            r matches Some(c) ==> self@.reference() == Some((c.coin_id@, c.confirmed)),
    {
        match &self.status {
            SpendStatus::Confirmed { coin_id, .. } => Some(
                ChainReference { coin_id: coin_id.0.clone(), confirmed: true },
            ),
            _ => match &self.intended_coin_id {
                Some(c) => Some(ChainReference { coin_id: c.0.clone(), confirmed: false }),
                None => None,
            },
        }
    }

    /// Whether this record still holds its funding coins out of selection at `now_ms`: its outcome
    /// is unsettled and its hold has not lapsed.
    pub fn reserves_funding_at(&self, now_ms: u64) -> (r: bool)
        ensures
            r == self@.holds_funding_at(now_ms),
    {
        !self.status.is_terminal() && now_ms.saturating_sub(self.updated_ms)
            < funding_reservation_window_ms()
    }
}

/// A hold lasts exactly the window: an unsettled record is held one millisecond before the window
/// closes and released when it closes, and it stays released.
pub proof fn law_hold_lasts_exactly_the_window(r: RecordModel, now_ms: u64)
    requires
        !r.status.terminal(),
    ensures
        r.holds_funding_at(now_ms) <==> now_ms < r.updated_ms + FUNDING_RESERVATION_WINDOW_MS,
{
}

/// A record dated in the future keeps its hold.
pub proof fn law_future_record_keeps_its_hold(r: RecordModel, now_ms: u64)
    requires
        !r.status.terminal(),
        now_ms < r.updated_ms,
    ensures
        r.holds_funding_at(now_ms),
{
}

/// The window never extends a hold that a settled outcome released.
pub proof fn law_settled_record_holds_nothing(r: RecordModel, now_ms: u64)
    requires
        r.status.terminal(),
    ensures
        !r.holds_funding_at(now_ms),
{
}

/// **Law: what each status means.** Stated status by status: a bundle may have reached the network where
/// it was submitted, where its outcome is unknown, and where it failed at the broadcast or at the
/// confirmation; it is settled where it was confirmed or failed at the signing.
pub proof fn law_what_each_status_means(height: u32, coin: Seq<char>, why: Seq<char>)
    ensures
        StatusModel::Submitted.reached_network(),
        StatusModel::Unresolved(why).reached_network(),
        StatusModel::Failed(FailureStage::Broadcast, why).reached_network(),
        StatusModel::Failed(FailureStage::Confirmation, why).reached_network(),
        !StatusModel::Failed(FailureStage::Signing, why).reached_network(),
        !StatusModel::Pending.reached_network(),
        !StatusModel::Confirmed(height, coin).reached_network(),
        StatusModel::Confirmed(height, coin).terminal(),
        StatusModel::Failed(FailureStage::Signing, why).terminal(),
        !StatusModel::Failed(FailureStage::Broadcast, why).terminal(),
        !StatusModel::Failed(FailureStage::Confirmation, why).terminal(),
        !StatusModel::Submitted.terminal(),
        !StatusModel::Unresolved(why).terminal(),
        !StatusModel::Pending.terminal(),
        !FailureStage::Signing.moved(),
        FailureStage::Broadcast.moved(),
        FailureStage::Confirmation.moved(),
{
}

/// **Law: statuses, stages and assets have names of their own.** No two kinds share a token, no two stages
/// a name; two tokens of different ids are named apart.
pub proof fn law_names_tell_kinds_apart(a: StatusModel, b: StatusModel, s: FailureStage, t: FailureStage, x: Seq<char>, y: Seq<char>)
    ensures
        a.token() == b.token() ==> (a is Pending <==> b is Pending) && (a is Submitted <==> b is Submitted) && (
        a is Confirmed <==> b is Confirmed) && (a is Failed <==> b is Failed) && (a is Unresolved
            <==> b is Unresolved),
        s.name() == t.name() ==> s == t,
        AssetModel::Cat(x).name() == AssetModel::Cat(y).name() ==> x == y,
        text::has(AssetModel::Cat(x).name(), x),
        AssetModel::Xch.name() == "XCH"@,
        AssetModel::Dig.name() == "DIG"@,
{
    reveal_strlit("pending");
    reveal_strlit("submitted");
    reveal_strlit("confirmed");
    reveal_strlit("failed");
    reveal_strlit("unresolved");
    reveal_strlit("signing");
    reveal_strlit("broadcast");
    reveal_strlit("confirmation");
    assert("pending"@.len() == 7 && "submitted"@.len() == 9 && "confirmed"@.len() == 9 && "failed"@.len() == 6
        && "unresolved"@.len() == 10);
    assert("submitted"@[0] == 's' && "confirmed"@[0] == 'c');
    assert("signing"@.len() == 7 && "broadcast"@.len() == 9 && "confirmation"@.len() == 12);
    let n = "CAT:"@;
    assert((n + x).skip(n.len() as int) =~= x);
    assert((n + y).skip(n.len() as int) =~= y);
    text::law_parts_are_found(n, x, Seq::empty());
    assert(n + x + Seq::<char>::empty() =~= n + x);
}

/// **Law: the coin to look up.** It is the coin that was seen, where one was; else the coin that was to be
/// created, as not seen; else there is none.
pub proof fn law_the_coin_to_look_up(r: RecordModel)
    ensures
        r.status matches StatusModel::Confirmed(_, coin) ==> r.reference() == Some((coin, true)),
        !(r.status is Confirmed) ==> (r.intended matches Some(coin) ==> r.reference() == Some((coin, false))),
        !(r.status is Confirmed) && r.intended is None ==> r.reference() is None,
{
}

/// **Law: coins are held for twenty minutes.** By status and by the clock: an unsettled record holds its
/// coins until twenty minutes after it was last written, and a settled one holds none.
pub proof fn law_coins_are_held_for_twenty_minutes(r: RecordModel, now_ms: u64)
    ensures
        r.holds_funding_at(now_ms) <==> now_ms < r.updated_ms + 1_200_000 && match r.status {
            StatusModel::Pending => true,
            StatusModel::Submitted => true,
            StatusModel::Unresolved(_) => true,
            StatusModel::Confirmed(_, _) => false,
            StatusModel::Failed(stage, _) => stage != FailureStage::Signing,
        },
{
}

/// **Law: a record is seen whole.** What is said of a record is said of every part of it.
pub proof fn law_a_record_is_seen_whole(r: SpendRecord)
    ensures
        r@.id == r.id@,
        r@.revision == r.revision,
        r@.kind == r.kind@,
        r@.purpose == r.purpose@,
        r@.principal == r.authority.principal@,
        r@.grant == r.authority.grant@,
        r@.amount_mojos == r.amount_mojos,
        r@.fee_mojos == r.fee_mojos,
        r@.initiated_ms == r.initiated_ms,
        r@.updated_ms == r.updated_ms,
        r.asset matches Asset::Xch ==> r@.asset == AssetModel::Xch,
        r.asset matches Asset::Dig ==> r@.asset == AssetModel::Dig,
        r.asset matches Asset::Cat { asset_id } ==> r@.asset == AssetModel::Cat(asset_id@),
        r.store_id matches Some(s) ==> r@.store_id == Some(s@),
        r.store_id is None ==> r@.store_id is None,
        r.bond matches Some(b) ==> r@.bond == Some((b.root@, b.epoch)),
        r.bond is None ==> r@.bond is None,
        r.intended_coin_id matches Some(c) ==> r@.intended == Some(c.0@),
        r.intended_coin_id is None ==> r@.intended is None,
        r@.funding.len() == r.funding_coin_ids@.len(),
        forall|i: int| 0 <= i < r.funding_coin_ids@.len() ==> #[trigger] r@.funding[i] == r.funding_coin_ids@[i].0@,
        match r.status {
            SpendStatus::Pending => r@.status == StatusModel::Pending,
            SpendStatus::Submitted => r@.status == StatusModel::Submitted,
            SpendStatus::Confirmed { height, coin_id } => r@.status == StatusModel::Confirmed(height, coin_id.0@),
            SpendStatus::Failed { stage, reason } => r@.status == StatusModel::Failed(stage, reason@),
            SpendStatus::Unresolved { reason } => r@.status == StatusModel::Unresolved(reason@),
        },
{
}

} // verus!
