//! The journal: the one path an automated spend takes, and the only place `Confirmed` is produced.
use crate::spend_audit::ids::{spend_id, IdSource};
use crate::spend_audit::ledger::{carries, is_fold, newest, LineModel, SpendLog};
use crate::spend_audit::{
    bond_view, funding_views, models, target_view, FailureStage, FundingCoinId, RecordModel,
    SpendIntent, SpendRecord, SpendStatus, StatusModel, TargetCoinId,
};
use crate::text;
use vstd::prelude::*;

verus! {

// ---- time --------------------------------------------------------------------------------------

/// Where a journal reads the time.
#[derive(Debug, Clone, Copy, PartialEq, Eq, Structural)]
pub enum Clock {
    /// The wall clock.
    Wall,
    /// An instant given in unix milliseconds.
    Fixed(u64),
}

/// The wall clock in unix milliseconds, read with `std::time::SystemTime::now`; nothing where it
/// stands before 1970. Nothing is claimed of the reading.
#[verifier::external_body]
fn wall_clock_ms() -> (r: Option<u64>) {
    match std::time::SystemTime::now().duration_since(std::time::UNIX_EPOCH) {
        Ok(d) => Some(d.as_millis() as u64),
        Err(_) => None,
    }
}

impl Clock {
    /// Whether the clock may read `t`.
    pub open spec fn may_read(self, t: u64) -> bool {
        self matches Clock::Fixed(at) ==> t == at
    }

    /// The time now.
    pub fn now_ms(&self) -> (t: u64)
        ensures
            self.may_read(t),
    {
        match self {
            Clock::Wall => match wall_clock_ms() {
                Some(t) => t,
                None => 0,
            },
            Clock::Fixed(at) => *at,
        }
    }
}

// ---- the transitions ---------------------------------------------------------------------------

/// The record of a spend just begun.
pub open spec fn opening(intent: SpendIntent, id: Seq<char>, now_ms: u64) -> RecordModel {
    RecordModel {
        id,
        revision: 1,
        kind: intent.kind@,
        purpose: intent.purpose@,
        principal: intent.authority.principal@,
        grant: intent.authority.grant@,
        asset: intent.asset@,
        amount_mojos: intent.amount_mojos,
        fee_mojos: intent.fee_mojos,
        store_id: text::opt_view(intent.store_id),
        bond: bond_view(intent.bond),
        initiated_ms: now_ms,
        updated_ms: now_ms,
        status: StatusModel::Pending,
        funding: Seq::empty(),
        intended: None,
    }
}

/// The next revision of `r`: everything is carried forward but the status and the time.
pub open spec fn revised(r: RecordModel, status: StatusModel, now_ms: u64) -> RecordModel {
    RecordModel { revision: (r.revision + 1) as u32, updated_ms: now_ms, status, ..r }
}

/// The next revision of `r`, once its bundle reached the mempool.
pub open spec fn after_submission(r: RecordModel, s: Submission, now_ms: u64) -> RecordModel {
    RecordModel {
        funding: funding_views(s.funding_coin_ids@),
        intended: target_view(s.intended_coin_id),
        ..revised(r, StatusModel::Submitted, now_ms)
    }
}

/// The next revision of `r`, once the chain shows the coin it created.
pub open spec fn after_confirmation(
    r: RecordModel,
    coin: Seq<char>,
    height: u32,
    now_ms: u64,
) -> RecordModel {
    RecordModel {
        intended: Some(coin),
        ..revised(r, StatusModel::Confirmed(height, coin), now_ms)
    }
}

/// Why a spend is unresolved whose producer recorded no outcome.
pub const ABANDONED: &'static str = "the producer ended without recording an outcome";

/// The lines of a record once the producer is done with a spend that stood at `r`: as they were where an
/// outcome was recorded, and with one more where none was.
pub open spec fn closed_off(
    lines: Seq<LineModel>,
    r: RecordModel,
    settled: bool,
    now_ms: u64,
) -> Seq<LineModel> {
    if settled {
        lines
    } else {
        lines.push(LineModel::Record(revised(r, StatusModel::Unresolved(ABANDONED@), now_ms)))
    }
}

/// What a producer learned when it handed a signed bundle to the network. The created coin is an
/// expectation, and absent where it cannot be derived; the consumed coins are always known.
#[derive(Debug, PartialEq, Eq)]
pub struct Submission {
    pub intended_coin_id: Option<TargetCoinId>,
    pub funding_coin_ids: Vec<FundingCoinId>,
}

/// Permission to sign: a spend whose pending entry is already in the record. It is made by
/// [`SpendJournal::begin`] alone.
#[derive(Debug)]
pub struct RecordedSpend {
    snapshot: SpendRecord,
    settled: bool,
}

impl RecordedSpend {
    /// The newest snapshot written for this spend.
    pub closed spec fn current(&self) -> RecordModel {
        self.snapshot@
    }

    /// Whether an outcome was recorded.
    pub closed spec fn is_settled(&self) -> bool {
        self.settled
    }

    /// The spend's id.
    pub fn id(&self) -> (r: &str)
        ensures
            r@ == self.current().id,
    {
        self.snapshot.id.as_str()
    }

    /// Move the snapshot to its next revision and append it to `log`.
    fn write(&mut self, log: &mut SpendLog, status: SpendStatus, now_ms: u64)
        requires
            old(self).current().revision < u32::MAX,
        ensures
            final(self).current() == revised(old(self).current(), status@, now_ms),
            final(self).is_settled() == old(self).is_settled(),
            final(log).location() == old(log).location(),
            final(log).history() == old(log).history().push(
                LineModel::Record(final(self).current()),
            ),
    {
        self.snapshot.revision = self.snapshot.revision + 1;
        self.snapshot.updated_ms = now_ms;
        self.snapshot.status = status;
        log.append(&self.snapshot);
    }
}

/// What an attempt to resolve a spend by its id did.
#[derive(Debug, Clone, Copy, PartialEq, Eq, Structural)]
pub enum Resolution {
    /// A confirmed revision was appended.
    Recorded,
    /// No record carries the id.
    NoSuchSpend,
    /// The record is settled already, or never left this node. Nothing was written.
    NotOpen,
}

/// The journal over a record.
#[derive(Debug)]
pub struct SpendJournal {
    log: SpendLog,
    clock: Clock,
}

impl SpendJournal {
    /// The lines of the record this journal writes.
    pub closed spec fn history(&self) -> Seq<LineModel> {
        self.log.history()
    }

    /// Where the record is kept.
    pub closed spec fn location(&self) -> Seq<char> {
        self.log.location()
    }

    /// The clock this journal reads.
    pub closed spec fn time(&self) -> Clock {
        self.clock
    }

    /// A journal over `log`, on the wall clock.
    pub fn new(log: SpendLog) -> (r: Self)
        ensures
            r.history() == log.history(),
            r.location() == log.location(),
            r.time() == Clock::Wall,
    {
        SpendJournal { log, clock: Clock::Wall }
    }

    /// A journal over `log`, on the given clock.
    pub fn with_clock(log: SpendLog, clock: Clock) -> (r: Self)
        ensures
            r.history() == log.history(),
            r.location() == log.location(),
            r.time() == clock,
    {
        SpendJournal { log, clock }
    }

    /// The record this journal writes, for readers.
    pub fn log(&self) -> (r: &SpendLog)
        ensures
            r.history() == self.history(),
            r.location() == self.location(),
    {
        &self.log
    }

    /// Record the intent under `id` at `now_ms` and hand back the permission to sign.
    pub fn begin_at(&mut self, intent: SpendIntent, id: String, now_ms: u64) -> (spend:
        RecordedSpend)
        ensures
            spend.current() == opening(intent, id@, now_ms),
            !spend.is_settled(),
            final(self).history() == old(self).history().push(LineModel::Record(spend.current())),
            final(self).location() == old(self).location(),
            final(self).time() == old(self).time(),
    {
        let record = SpendRecord {
            id,
            revision: 1,
            kind: intent.kind,
            purpose: intent.purpose,
            authority: intent.authority,
            asset: intent.asset,
            amount_mojos: intent.amount_mojos,
            fee_mojos: intent.fee_mojos,
            store_id: intent.store_id,
            bond: intent.bond,
            initiated_ms: now_ms,
            updated_ms: now_ms,
            status: SpendStatus::Pending,
            funding_coin_ids: Vec::new(),
            intended_coin_id: None,
        };
        self.log.append(&record);
        proof {
            assert(record@.funding =~= Seq::<Seq<char>>::empty());
        }
        RecordedSpend { snapshot: record, settled: false }
    }

    /// Record the intent and hand back the permission to sign. The pending entry is in the record
    /// before this returns.
    pub fn begin(&mut self, ids: &mut IdSource, intent: SpendIntent) -> (spend: RecordedSpend)
        ensures
            ({
                let now = spend.current().initiated_ms;
                &&& old(self).time().may_read(now)
                &&& spend.current() == opening(
                    intent,
                    spend_id(now as nat, old(ids).position() as nat, old(ids).owner() as nat),
                    now,
                )
            }),
            !spend.is_settled(),
            final(self).history() == old(self).history().push(LineModel::Record(spend.current())),
            final(self).location() == old(self).location(),
            final(self).time() == old(self).time(),
            final(ids).owner() == old(ids).owner(),
            final(ids).position() == old(ids).position().wrapping_add(1),
    {
        let now: u64 = self.clock.now_ms();
        let id = ids.new_spend_id(now);
        self.begin_at(intent, id, now)
    }

    /// The signed bundle reached the mempool: the coins consumed, and the coin expected.
    pub fn submitted(&mut self, spend: &mut RecordedSpend, submission: Submission)
        requires
            old(spend).current().revision < u32::MAX,
        ensures
            old(self).time().may_read(final(spend).current().updated_ms),
            final(spend).current() == after_submission(
                old(spend).current(),
                submission,
                final(spend).current().updated_ms,
            ),
            final(spend).is_settled() == old(spend).is_settled(),
            final(self).history() == old(self).history().push(
                LineModel::Record(final(spend).current()),
            ),
            final(self).location() == old(self).location(),
            final(self).time() == old(self).time(),
    {
        let now: u64 = self.clock.now_ms();
        spend.snapshot.funding_coin_ids = submission.funding_coin_ids;
        spend.snapshot.intended_coin_id = submission.intended_coin_id;
        spend.write(&mut self.log, SpendStatus::Submitted, now);
    }

    /// The chain shows the coin the spend created. `coin_id` is the created coin: the funding coin
    /// being gone proves nothing, and has another type.
    pub fn confirmed(&mut self, spend: &mut RecordedSpend, coin_id: TargetCoinId, height: u32)
        requires
            old(spend).current().revision < u32::MAX,
        ensures
            old(self).time().may_read(final(spend).current().updated_ms),
            final(spend).current() == after_confirmation(
                old(spend).current(),
                coin_id.0@,
                height,
                final(spend).current().updated_ms,
            ),
            final(spend).is_settled(),
            final(self).history() == old(self).history().push(
                LineModel::Record(final(spend).current()),
            ),
            final(self).location() == old(self).location(),
            final(self).time() == old(self).time(),
    {
        let now: u64 = self.clock.now_ms();
        spend.settled = true;
        let status = SpendStatus::Confirmed { height, coin_id: coin_id.clone() };
        spend.snapshot.intended_coin_id = Some(coin_id);
        spend.write(&mut self.log, status, now);
    }

    /// The attempt failed at `stage`.
    pub fn failed(&mut self, spend: &mut RecordedSpend, stage: FailureStage, reason: &str)
        requires
            old(spend).current().revision < u32::MAX,
        ensures
            old(self).time().may_read(final(spend).current().updated_ms),
            final(spend).current() == revised(
                old(spend).current(),
                StatusModel::Failed(stage, reason@),
                final(spend).current().updated_ms,
            ),
            final(spend).is_settled(),
            final(self).history() == old(self).history().push(
                LineModel::Record(final(spend).current()),
            ),
            final(self).location() == old(self).location(),
            final(self).time() == old(self).time(),
    {
        let now: u64 = self.clock.now_ms();
        spend.settled = true;
        spend.write(
            &mut self.log,
            SpendStatus::Failed { stage, reason: reason.to_owned() },
            now,
        );
    }

    /// The outcome is unknown.
    pub fn unresolved(&mut self, spend: &mut RecordedSpend, reason: &str)
        requires
            old(spend).current().revision < u32::MAX,
        ensures
            old(self).time().may_read(final(spend).current().updated_ms),
            final(spend).current() == revised(
                old(spend).current(),
                StatusModel::Unresolved(reason@),
                final(spend).current().updated_ms,
            ),
            final(spend).is_settled(),
            final(self).history() == old(self).history().push(
                LineModel::Record(final(spend).current()),
            ),
            final(self).location() == old(self).location(),
            final(self).time() == old(self).time(),
    {
        let now: u64 = self.clock.now_ms();
        spend.settled = true;
        spend.write(&mut self.log, SpendStatus::Unresolved { reason: reason.to_owned() }, now);
    }

    /// The producer is done with the spend. An outcome it recorded stands untouched; without one the
    /// spend degrades to unresolved, with everything learned about it carried forward.
    pub fn close(&mut self, spend: RecordedSpend)
        requires
            !spend.is_settled() ==> spend.current().revision < u32::MAX,
        ensures
            exists|now: u64| #[trigger]
                old(self).time().may_read(now) && final(self).history() == closed_off(
                    old(self).history(),
                    spend.current(),
                    spend.is_settled(),
                    now,
                ),
            final(self).location() == old(self).location(),
            final(self).time() == old(self).time(),
    {
        let now: u64 = self.clock.now_ms();
        if spend.settled {
            return;
        }
        let mut spend = spend;
        spend.write(
            &mut self.log,
            SpendStatus::Unresolved { reason: ABANDONED.to_owned() },
            now,
        );
    }

    /// Resolve a spend recorded earlier, by its id, to the coin observed on chain. A spend that is
    /// settled, or whose bundle never left this node, is left alone; so is an id nobody recorded.
    pub fn resolve_landed(&mut self, id: &str, coin_id: TargetCoinId, height: u32) -> (r:
        Resolution)
        requires
            newest(old(self).history(), id@) matches Some(cur) ==> cur.revision < u32::MAX,
        ensures
            match newest(old(self).history(), id@) {
                None => r == Resolution::NoSuchSpend,
                Some(cur) => if cur.status.reached_network() {
                    r == Resolution::Recorded
                } else {
                    r == Resolution::NotOpen
                },
            },
            r != Resolution::Recorded ==> final(self).history() == old(self).history(),
            r == Resolution::Recorded ==> exists|now: u64| #[trigger]
                old(self).time().may_read(now) && final(self).history()
                    == old(self).history().push(
                    LineModel::Record(
                        after_confirmation(
                            newest(old(self).history(), id@)->0,
                            coin_id.0@,
                            height,
                            now,
                        ),
                    ),
                ),
            final(self).location() == old(self).location(),
            final(self).time() == old(self).time(),
    {
        let ledger = self.log.ledger();
        let ghost lines = self.log.history();
        let ghost rows = models(ledger.records@);
        let mut i: usize = 0;
        while i < ledger.records.len()
            invariant
                i <= ledger.records@.len(),
                rows == models(ledger.records@),
                lines == self.log.history(),
                lines == old(self).history(),
                *self == *old(self),
                is_fold(lines, rows),
                newest(lines, id@) matches Some(cur) ==> cur.revision < u32::MAX,
                forall|j: int| 0 <= j < i ==> (#[trigger] rows[j]).id != id@,
            decreases ledger.records@.len() - i,
        {
            proof {
                assert(rows[i as int] == ledger.records@[i as int]@);
            }
            if text::same(ledger.records[i].id.as_str(), id) {
                proof {
                    assert(newest(lines, rows[i as int].id) == Some(rows[i as int]));
                }
                let current = &ledger.records[i];
                if !current.status.may_have_reached_the_network() {
                    return Resolution::NotOpen;
                }
                let mut next = current.clone();
                let now: u64 = self.clock.now_ms();
                next.revision = next.revision + 1;
                next.updated_ms = now;
                next.status = SpendStatus::Confirmed { height, coin_id: coin_id.clone() };
                next.intended_coin_id = Some(coin_id);
                self.log.append(&next);
                return Resolution::Recorded;
            }
            i += 1;
        }
        proof {
            if newest(lines, id@) is Some {
                assert(carries(rows, id@));
            }
        }
        Resolution::NoSuchSpend
    }
}

// ---- laws --------------------------------------------------------------------------------------

/// A spend begun under a fresh id is in the ledger, pending, as soon as its line is appended.
pub proof fn law_begun_spend_is_pending(
    lines: Seq<LineModel>,
    intent: SpendIntent,
    id: Seq<char>,
    now_ms: u64,
)
    requires
        newest(lines, id) is None,
    ensures
        newest(lines.push(LineModel::Record(opening(intent, id, now_ms))), id) == Some(
            opening(intent, id, now_ms),
        ),
        opening(intent, id, now_ms).status is Pending,
{
    assert(lines.push(LineModel::Record(opening(intent, id, now_ms))).drop_last() =~= lines);
}

/// The revision a journal operation appends is the one the ledger reports, and every line written
/// before is still there.
pub proof fn law_appended_revision_is_the_newest(
    lines: Seq<LineModel>,
    r: RecordModel,
    next: RecordModel,
)
    requires
        newest(lines, r.id) == Some(r),
        next.id == r.id,
        next.revision > r.revision,
    ensures
        newest(lines.push(LineModel::Record(next)), r.id) == Some(next),
        lines.push(LineModel::Record(next)).take(lines.len() as int) == lines,
{
    assert(lines.push(LineModel::Record(next)).drop_last() =~= lines);
    assert(lines.push(LineModel::Record(next)).take(lines.len() as int) =~= lines);
}

/// What a producer records of its spend once it was begun.
pub enum Learned {
    Submitted(Submission),
    Confirmed(Seq<char>, u32),
    Failed(FailureStage, Seq<char>),
    Unresolved(Seq<char>),
}

/// The next revision of `r`, once that was learned.
pub open spec fn after_learning(r: RecordModel, what: Learned, now_ms: u64) -> RecordModel {
    match what {
        Learned::Submitted(s) => after_submission(r, s, now_ms),
        Learned::Confirmed(coin, height) => after_confirmation(r, coin, height, now_ms),
        Learned::Failed(stage, reason) => revised(r, StatusModel::Failed(stage, reason), now_ms),
        Learned::Unresolved(reason) => revised(r, StatusModel::Unresolved(reason), now_ms),
    }
}

/// Where a spend that was begun at `r` stands after all that was learned of it, each at its time.
pub open spec fn standing(r: RecordModel, learned: Seq<(Learned, u64)>) -> RecordModel
    decreases learned.len(),
{
    if learned.len() == 0 {
        r
    } else {
        after_learning(standing(r, learned.drop_last()), learned.last().0, learned.last().1)
    }
}

/// The lines of a record once all that was learned of the spend was recorded, behind `lines`.
pub open spec fn recorded(
    lines: Seq<LineModel>,
    r: RecordModel,
    learned: Seq<(Learned, u64)>,
) -> Seq<LineModel>
    decreases learned.len(),
{
    if learned.len() == 0 {
        lines
    } else {
        recorded(lines, r, learned.drop_last()).push(LineModel::Record(standing(r, learned)))
    }
}

/// Whether an outcome is among what was learned: all but a submission is one.
pub open spec fn is_outcome_known(learned: Seq<(Learned, u64)>) -> bool {
    exists|i: int| 0 <= i < learned.len() && !((#[trigger] learned[i]).0 is Submitted)
}

proof fn lemma_standing_is_newest(
    lines: Seq<LineModel>,
    r: RecordModel,
    learned: Seq<(Learned, u64)>,
)
    requires
        newest(lines, r.id) == Some(r),
        r.revision + learned.len() <= u32::MAX,
    ensures
        newest(recorded(lines, r, learned), r.id) == Some(standing(r, learned)),
        standing(r, learned).id == r.id,
        standing(r, learned).revision == r.revision + learned.len(),
        learned.len() > 0 ==> !(standing(r, learned).status is Pending),
    decreases learned.len(),
{
    if learned.len() > 0 {
        let prior = learned.drop_last();
        lemma_standing_is_newest(lines, r, prior);
        law_appended_revision_is_the_newest(
            recorded(lines, r, prior),
            standing(r, prior),
            standing(r, learned),
        );
    }
}

/// A spend that was begun never ends as pending. Whatever its producer learned of it before it was done,
/// closing adds nothing to a recorded outcome, and where there is none adds one line: the spend as it
/// stood, with all that it was for, the coins it consumes and the coin it was to create, its outcome
/// unresolved. Either way the ledger has one row for it, which is its last line.
pub proof fn law_a_spend_that_ends_is_never_pending(
    lines: Seq<LineModel>,
    intent: SpendIntent,
    id: Seq<char>,
    begun_ms: u64,
    learned: Seq<(Learned, u64)>,
    closed_ms: u64,
    rows: Seq<RecordModel>,
)
    requires
        newest(lines, id) is None,
        learned.len() + 2 <= u32::MAX,
        is_fold(
            closed_off(
                recorded(
                    lines.push(LineModel::Record(opening(intent, id, begun_ms))),
                    opening(intent, id, begun_ms),
                    learned,
                ),
                standing(opening(intent, id, begun_ms), learned),
                is_outcome_known(learned),
                closed_ms,
            ),
            rows,
        ),
    ensures
        ({
            let cur = standing(opening(intent, id, begun_ms), learned);
            let last = if is_outcome_known(learned) {
                cur
            } else {
                revised(cur, StatusModel::Unresolved(ABANDONED@), closed_ms)
            };
            &&& !(last.status is Pending)
            &&& !is_outcome_known(learned) ==> {
                &&& last.revision == cur.revision + 1
                &&& last.updated_ms == closed_ms
                &&& last.status == StatusModel::Unresolved(ABANDONED@)
                &&& last == (RecordModel {
                    revision: last.revision,
                    updated_ms: last.updated_ms,
                    status: last.status,
                    ..cur
                })
            }
            &&& exists|i: int| 0 <= i < rows.len() && #[trigger] rows[i] == last
            &&& forall|i: int| 0 <= i < rows.len() && (#[trigger] rows[i]).id == id ==> rows[i] == last
            &&& forall|i: int, j: int|
                0 <= i < j < rows.len() ==> (#[trigger] rows[i]).id != id || (#[trigger] rows[j]).id
                    != id
        }),
{
    let first = opening(intent, id, begun_ms);
    let opened = lines.push(LineModel::Record(first));
    let cur = standing(first, learned);
    let before = recorded(opened, first, learned);
    let known = is_outcome_known(learned);
    law_begun_spend_is_pending(lines, intent, id, begun_ms);
    lemma_standing_is_newest(opened, first, learned);
    let last = if known {
        cur
    } else {
        revised(cur, StatusModel::Unresolved(ABANDONED@), closed_ms)
    };
    if !known {
        law_appended_revision_is_the_newest(before, cur, last);
    }
    let end = closed_off(before, cur, known, closed_ms);
    assert(newest(end, id) == Some(last));
    assert(carries(rows, id));
    let i = choose|i: int| 0 <= i < rows.len() && (#[trigger] rows[i]).id == id;
    assert(rows[i] == last);
    text::lemma_before_irreflexive(id);
}

/// A revision keeps what the spend was for, when it began, and the coins it consumes; so a spend
/// whose producer recorded no outcome still names the coin to chase.
pub proof fn law_revision_carries_the_record_forward(
    r: RecordModel,
    status: StatusModel,
    now_ms: u64,
)
    requires
        r.revision < u32::MAX,
    ensures
        ({
            let n = revised(r, status, now_ms);
            &&& n.id == r.id
            &&& n.revision == r.revision + 1
            &&& n.kind == r.kind
            &&& n.purpose == r.purpose
            &&& n.principal == r.principal
            &&& n.grant == r.grant
            &&& n.asset == r.asset
            &&& n.amount_mojos == r.amount_mojos
            &&& n.fee_mojos == r.fee_mojos
            &&& n.store_id == r.store_id
            &&& n.bond == r.bond
            &&& n.initiated_ms == r.initiated_ms
            &&& n.funding == r.funding
            &&& n.intended == r.intended
        }),
{
}

/// A spend resolved by its id is confirmed in the ledger with the observed coin, keeps the coins it
/// consumed, holds none of them out of selection any more, and is not open to a second resolution.
pub proof fn law_resolved_spend_is_settled(
    lines: Seq<LineModel>,
    r: RecordModel,
    coin: Seq<char>,
    height: u32,
    now_ms: u64,
    later_ms: u64,
)
    requires
        newest(lines, r.id) == Some(r),
        r.status.reached_network(),
        r.revision < u32::MAX,
    ensures
        ({
            let n = after_confirmation(r, coin, height, now_ms);
            &&& newest(lines.push(LineModel::Record(n)), r.id) == Some(n)
            &&& n.status == StatusModel::Confirmed(height, coin)
            &&& n.reference() == Some((coin, true))
            &&& n.funding == r.funding
            &&& !n.holds_funding_at(later_ms)
            &&& !n.status.reached_network()
        }),
{
    let n = after_confirmation(r, coin, height, now_ms);
    law_appended_revision_is_the_newest(lines, r, n);
}

/// No transition but a confirmation produces `Confirmed`, and before one the created coin is only
/// ever a claim.
pub proof fn law_only_an_observation_confirms(
    intent: SpendIntent,
    id: Seq<char>,
    r: RecordModel,
    s: Submission,
    stage: FailureStage,
    reason: Seq<char>,
    now_ms: u64,
)
    ensures
        opening(intent, id, now_ms).status !is Confirmed,
        after_submission(r, s, now_ms).status !is Confirmed,
        revised(r, StatusModel::Failed(stage, reason), now_ms).status !is Confirmed,
        revised(r, StatusModel::Unresolved(reason), now_ms).status !is Confirmed,
        after_submission(r, s, now_ms).reference() matches Some((_, seen)) ==> !seen,
        revised(r, StatusModel::Unresolved(reason), now_ms).reference() matches Some((_, seen))
            ==> !seen,
{
}

/// **Law: a spend is opened as it was intended.** Every part of the intent is in the record, which is the
/// first revision, pending, and opened at that time; no coin is tied to it yet.
pub proof fn law_a_spend_is_opened_as_intended(intent: SpendIntent, id: Seq<char>, now_ms: u64)
    ensures
        ({
            let r = opening(intent, id, now_ms);
            &&& r.id == id
            &&& r.revision == 1
            &&& r.kind == intent.kind@
            &&& r.purpose == intent.purpose@
            &&& r.principal == intent.authority.principal@
            &&& r.grant == intent.authority.grant@
            &&& r.asset == intent.asset@
            &&& r.amount_mojos == intent.amount_mojos
            &&& r.fee_mojos == intent.fee_mojos
            &&& r.initiated_ms == now_ms
            &&& r.updated_ms == now_ms
            &&& r.status is Pending
            &&& r.funding.len() == 0
            &&& r.intended is None
            &&& intent.store_id matches Some(s) ==> r.store_id == Some(s@)
            &&& intent.store_id is None ==> r.store_id is None
            &&& intent.bond matches Some(b) ==> r.bond == Some((b.root@, b.epoch))
            &&& intent.bond is None ==> r.bond is None
        }),
{
}

/// **Law: each step records what it learned.** A submission ties the coins it names, in their order; a
/// confirmation the coin that was seen and its height; each is one revision more, at its own time, and
/// keeps who spends what on whose authority.
pub proof fn law_each_step_records_what_it_learned(
    r: RecordModel,
    s: Submission,
    coin: Seq<char>,
    height: u32,
    status: StatusModel,
    now_ms: u64,
    i: int,
)
    requires
        r.revision < u32::MAX,
    ensures
        ({
            let n = after_submission(r, s, now_ms);
            &&& n.status is Submitted
            &&& n.revision == r.revision + 1
            &&& n.updated_ms == now_ms
            &&& n.initiated_ms == r.initiated_ms
            &&& n.id == r.id
            &&& n.amount_mojos == r.amount_mojos
            &&& n.fee_mojos == r.fee_mojos
            &&& n.kind == r.kind && n.purpose == r.purpose && n.principal == r.principal && n.grant == r.grant
            &&& n.asset == r.asset && n.store_id == r.store_id && n.bond == r.bond
            &&& n.funding.len() == s.funding_coin_ids@.len()
            &&& 0 <= i < n.funding.len() ==> n.funding[i] == s.funding_coin_ids@[i].0@
            &&& s.intended_coin_id matches Some(c) ==> n.intended == Some(c.0@)
            &&& s.intended_coin_id is None ==> n.intended is None
        }),
        ({
            let n = after_confirmation(r, coin, height, now_ms);
            &&& n.status == StatusModel::Confirmed(height, coin)
            &&& n.intended == Some(coin)
            &&& n.revision == r.revision + 1
            &&& n.updated_ms == now_ms
            &&& n.initiated_ms == r.initiated_ms
            &&& n.id == r.id
            &&& n.amount_mojos == r.amount_mojos
            &&& n.fee_mojos == r.fee_mojos
            &&& n.kind == r.kind && n.purpose == r.purpose && n.principal == r.principal && n.grant == r.grant
            &&& n.asset == r.asset && n.store_id == r.store_id && n.bond == r.bond
            &&& n.funding == r.funding
        }),
        revised(r, status, now_ms).status == status,
        revised(r, status, now_ms).updated_ms == now_ms,
        revised(r, status, now_ms).revision == r.revision + 1,
{
}

/// **Law: a spend that ends without an outcome is closed off.** One that is settled writes nothing more; any
/// other writes one line, which leaves its outcome open.
pub proof fn law_a_spend_is_closed_off(lines: Seq<LineModel>, r: RecordModel, now_ms: u64)
    requires
        r.revision < u32::MAX,
    ensures
        closed_off(lines, r, true, now_ms) == lines,
        ({
            let end = closed_off(lines, r, false, now_ms);
            &&& end.len() == lines.len() + 1
            &&& end.take(lines.len() as int) == lines
            &&& end.last() matches LineModel::Record(n) && n.id == r.id && n.revision == r.revision + 1 && n.status
                is Unresolved && n.updated_ms == now_ms && n.funding == r.funding && n.intended == r.intended
        }),
{
    let end = closed_off(lines, r, false, now_ms);
    assert(end.take(lines.len() as int) =~= lines);
}

/// **Law: a clock that was set stands still.** It reads what it was set to and nothing else.
pub proof fn law_a_set_clock_stands_still(at: u64, t: u64)
    ensures
        Clock::Fixed(at).may_read(t) <==> t == at,
        Clock::Wall.may_read(t),
{
}

} // verus!
