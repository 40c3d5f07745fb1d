//! The record held against the chain.
use crate::spend_audit::ledger::SpendLedger;
use crate::spend_audit::{models, FailureStage, RecordModel, SpendStatus, StatusModel};
use crate::text;
use vstd::prelude::*;

verus! {

/// What an inventory may answer: the coins held, or why it could not say.
pub type Answer = Result<Seq<Seq<char>>, Seq<char>>;

/// The view of an inventory's answer.
pub open spec fn answer_view(r: Result<Vec<String>, String>) -> Answer {
    match r {
        Ok(ids) => Ok(text::views(ids@)),
        Err(e) => Err(e@),
    }
}

/// A chain-side listing of the coins an owner holds.
pub trait ChainInventory {
    /// Whether the inventory may answer `answer` for `owner`.
    open spec fn may_answer(&self, owner: Seq<char>, answer: Answer) -> bool {
        true
    }

    /// Every coin id this owner holds on chain.
    fn owned_coin_ids(&self, owner_puzzle_hash: &str) -> (r: Result<Vec<String>, String>)
        ensures
            self.may_answer(owner_puzzle_hash@, answer_view(r)),
    ;
}

/// What the record and the chain disagree about.
#[derive(Debug, PartialEq, Eq)]
pub struct ReconcileReport {
    /// Coins confirmed in the record that the chain shows.
    pub agreed: Vec<String>,
    /// Coins confirmed in the record that the chain does not show.
    pub missing_on_chain: Vec<String>,
    /// Coins the chain shows that no entry accounts for: money moved with no entry.
    pub unrecorded_on_chain: Vec<String>,
    /// Entries whose outcome this node does not know.
    pub unresolved: Vec<String>,
}

impl Default for ReconcileReport {
    fn default() -> (r: Self)
        ensures
            r.agreed@.len() == 0,
            r.missing_on_chain@.len() == 0,
            r.unrecorded_on_chain@.len() == 0,
            r.unresolved@.len() == 0,
    {
        ReconcileReport {
            agreed: Vec::new(),
            missing_on_chain: Vec::new(),
            unrecorded_on_chain: Vec::new(),
            unresolved: Vec::new(),
        }
    }
}

impl ReconcileReport {
    /// Whether nothing needs a person's attention.
    pub fn is_clean(&self) -> (r: bool)
        ensures
            r == (self.missing_on_chain@.len() == 0 && self.unrecorded_on_chain@.len() == 0
                && self.unresolved@.len() == 0),
    {
        self.missing_on_chain.len() == 0 && self.unrecorded_on_chain.len() == 0
            && self.unresolved.len() == 0
    }
}

// ---- what each entry claims --------------------------------------------------------------------

/// Whether the entry's outcome is unknown: unresolved, or failed where money may have moved.
pub open spec fn outcome_unknown(r: RecordModel) -> bool {
    match r.status {
        StatusModel::Unresolved(_) => true,
        StatusModel::Failed(stage, _) => stage.moved(),
        _ => false,
    }
}

/// The coin the entry accounts for on chain: its confirmed coin, or the coin it was expected to
/// create while its bundle may have reached the network.
pub open spec fn coin_accounted_for(r: RecordModel) -> Option<Seq<char>> {
    match r.status {
        StatusModel::Confirmed(_, coin) => Some(coin),
        _ => if r.status.reached_network() {
            r.intended
        } else {
            None
        },
    }
}

/// Whether some row accounts for `coin`.
pub open spec fn accounted(rows: Seq<RecordModel>, coin: Seq<char>) -> bool {
    exists|i: int| 0 <= i < rows.len() && coin_accounted_for(#[trigger] rows[i]) == Some(coin)
}

/// The confirmed coins of `rows`, in order, that stand on the chain (`present`) or do not.
pub open spec fn confirmed_coins(
    rows: Seq<RecordModel>,
    on_chain: Seq<Seq<char>>,
    present: bool,
) -> Seq<Seq<char>>
    decreases rows.len(),
{
    if rows.len() == 0 {
        Seq::empty()
    } else {
        let prior = confirmed_coins(rows.drop_last(), on_chain, present);
        match rows.last().status {
            StatusModel::Confirmed(_, coin) => if on_chain.contains(coin) == present {
                prior.push(coin)
            } else {
                prior
            },
            _ => prior,
        }
    }
}

/// The ids of the rows whose outcome is unknown, in order.
pub open spec fn unknown_ids(rows: Seq<RecordModel>) -> Seq<Seq<char>>
    decreases rows.len(),
{
    if rows.len() == 0 {
        Seq::empty()
    } else {
        let prior = unknown_ids(rows.drop_last());
        if outcome_unknown(rows.last()) {
            prior.push(rows.last().id)
        } else {
            prior
        }
    }
}

/// Whether `list` is in ascending order, each string once.
pub open spec fn ascending(list: Seq<Seq<char>>) -> bool {
    forall|i: int, j: int|
        0 <= i < j < list.len() ==> text::before(#[trigger] list[i], #[trigger] list[j])
}

/// Whether `list` names, in ascending order, exactly the coins of the chain that no row accounts for.
pub open spec fn is_unrecorded(
    list: Seq<Seq<char>>,
    rows: Seq<RecordModel>,
    on_chain: Seq<Seq<char>>,
) -> bool {
    &&& ascending(list)
    &&& forall|coin: Seq<char>| #[trigger]
        list.contains(coin) <==> on_chain.contains(coin) && !accounted(rows, coin)
}

/// Whether `report` is what `rows` and the chain disagree about.
pub open spec fn is_report(
    report: ReconcileReport,
    rows: Seq<RecordModel>,
    on_chain: Seq<Seq<char>>,
) -> bool {
    &&& text::views(report.agreed@) == confirmed_coins(rows, on_chain, true)
    &&& text::views(report.missing_on_chain@) == confirmed_coins(rows, on_chain, false)
    &&& text::views(report.unresolved@) == unknown_ids(rows)
    &&& is_unrecorded(text::views(report.unrecorded_on_chain@), rows, on_chain)
}

proof fn lemma_accounted_step(rows: Seq<RecordModel>, i: int)
    requires
        0 <= i < rows.len(),
    ensures
        forall|coin: Seq<char>| #[trigger]
            accounted(rows.take(i + 1), coin) <==> accounted(rows.take(i), coin)
                || coin_accounted_for(rows[i]) == Some(coin),
{
    let a = rows.take(i);
    let b = rows.take(i + 1);
    assert forall|coin: Seq<char>| #[trigger]
        accounted(b, coin) <==> accounted(a, coin) || coin_accounted_for(rows[i]) == Some(
            coin,
        ) by {
        if accounted(b, coin) {
            let k = choose|k: int|
                0 <= k < b.len() && coin_accounted_for(#[trigger] b[k]) == Some(coin);
            if k < i {
                assert(a[k] == b[k]);
            }
        }
        if accounted(a, coin) {
            let k = choose|k: int|
                0 <= k < a.len() && coin_accounted_for(#[trigger] a[k]) == Some(coin);
            assert(b[k] == a[k]);
        }
        if coin_accounted_for(rows[i]) == Some(coin) {
            assert(b[i] == rows[i]);
        }
    }
}

/// Put `s` into the ascending list `list`, unless it is there already.
fn insert_ascending(list: &mut Vec<String>, s: &str)
    requires
        ascending(text::views(old(list)@)),
    ensures
        ascending(text::views(final(list)@)),
        forall|x: Seq<char>| #[trigger]
            text::views(final(list)@).contains(x) <==> text::views(old(list)@).contains(x) || x
                == s@,
{
    let ghost before = text::views(list@);
    let mut at: usize = 0;
    while at < list.len() && text::less(list[at].as_str(), s)
        invariant
            at <= list@.len(),
            before == text::views(list@),
            forall|k: int| 0 <= k < at ==> text::before(#[trigger] before[k], s@),
        decreases list@.len() - at,
    {
        at += 1;
    }
    if at < list.len() && text::same(list[at].as_str(), s) {
        proof {
            assert(before[at as int] == s@);
        }
        return;
    }
    list.insert(at, s.to_owned());
    proof {
        let next = text::views(list@);
        assert(next =~= before.insert(at as int, s@));
        assert forall|i: int, j: int| 0 <= i < j < next.len() implies text::before(
            #[trigger] next[i],
            #[trigger] next[j],
        ) by {
            let bi = if i < at {
                i
            } else {
                i - 1
            };
            let bj = if j < at {
                j
            } else {
                j - 1
            };
            if i != at && j != at {
                assert(text::before(before[bi], before[bj]));
            } else if j == at {
                assert(text::before(before[i], s@));
            } else {
                text::lemma_before_total(s@, before[at as int]);
                if bj > at {
                    assert(text::before(before[at as int], before[bj]));
                    text::lemma_before_transitive(s@, before[at as int], before[bj]);
                }
            }
        }
        assert forall|x: Seq<char>| #[trigger] next.contains(x) <==> before.contains(x) || x
            == s@ by {
            if next.contains(x) {
                let k = choose|k: int| 0 <= k < next.len() && next[k] == x;
                if k < at {
                    assert(before[k] == x);
                } else if k > at {
                    assert(before[k - 1] == x);
                }
            }
            if before.contains(x) {
                let k = choose|k: int| 0 <= k < before.len() && before[k] == x;
                if k < at {
                    assert(next[k] == x);
                } else {
                    assert(next[k + 1] == x);
                }
            }
            if x == s@ {
                assert(next[at as int] == x);
            }
        }
    }
}

/// What the record and the chain disagree about, once the chain said which coins it shows.
pub fn reconcile_with(ledger: &SpendLedger, on_chain: &Vec<String>) -> (report: ReconcileReport)
    ensures
        is_report(report, models(ledger.records@), text::views(on_chain@)),
{
    let ghost rows = models(ledger.records@);
    let ghost chain = text::views(on_chain@);
    let mut report = ReconcileReport::default();
    let mut claimed: Vec<String> = Vec::new();
    let mut i: usize = 0;
    proof {
        assert(text::views(report.agreed@) =~= Seq::<Seq<char>>::empty());
        assert(text::views(report.missing_on_chain@) =~= Seq::<Seq<char>>::empty());
        assert(text::views(report.unresolved@) =~= Seq::<Seq<char>>::empty());
    }
    while i < ledger.records.len()
        invariant
            i <= ledger.records@.len(),
            rows == models(ledger.records@),
            chain == text::views(on_chain@),
            report.unrecorded_on_chain@.len() == 0,
            text::views(report.agreed@) == confirmed_coins(rows.take(i as int), chain, true),
            text::views(report.missing_on_chain@) == confirmed_coins(
                rows.take(i as int),
                chain,
                false,
            ),
            text::views(report.unresolved@) == unknown_ids(rows.take(i as int)),
            forall|coin: Seq<char>| #[trigger]
                text::views(claimed@).contains(coin) <==> accounted(rows.take(i as int), coin),
        decreases ledger.records@.len() - i,
    {
        let rec = &ledger.records[i];
        let ghost old_agreed = text::views(report.agreed@);
        let ghost old_missing = text::views(report.missing_on_chain@);
        let ghost old_unknown = text::views(report.unresolved@);
        let ghost old_claimed = text::views(claimed@);
        proof {
            assert(rows.take(i + 1).drop_last() =~= rows.take(i as int));
            assert(rows.take(i + 1).last() == rec@);
            lemma_accounted_step(rows, i as int);
        }
        match &rec.status {
            SpendStatus::Confirmed { coin_id, .. } => {
                claimed.push(coin_id.0.clone());
                proof {
                    assert(text::views(claimed@) =~= old_claimed.push(coin_id.0@));
                    text::lemma_push_contains(old_claimed, coin_id.0@);
                }
                if text::list_contains(on_chain, coin_id.0.as_str()) {
                    report.agreed.push(coin_id.0.clone());
                    proof {
                        assert(text::views(report.agreed@) =~= old_agreed.push(coin_id.0@));
                    }
                } else {
                    report.missing_on_chain.push(coin_id.0.clone());
                    proof {
                        assert(text::views(report.missing_on_chain@) =~= old_missing.push(
                            coin_id.0@,
                        ));
                    }
                }
            },
            SpendStatus::Pending => {},
            SpendStatus::Submitted => {
                if let Some(c) = &rec.intended_coin_id {
                    claimed.push(c.0.clone());
                    proof {
                        assert(text::views(claimed@) =~= old_claimed.push(c.0@));
                        text::lemma_push_contains(old_claimed, c.0@);
                    }
                }
            },
            SpendStatus::Unresolved { .. } => {
                if let Some(c) = &rec.intended_coin_id {
                    claimed.push(c.0.clone());
                    proof {
                        assert(text::views(claimed@) =~= old_claimed.push(c.0@));
                        text::lemma_push_contains(old_claimed, c.0@);
                    }
                }
                report.unresolved.push(rec.id.clone());
                proof {
                    assert(text::views(report.unresolved@) =~= old_unknown.push(rec.id@));
                }
            },
            SpendStatus::Failed { stage, .. } => {
                if stage.money_may_have_moved() {
                    if let Some(c) = &rec.intended_coin_id {
                        claimed.push(c.0.clone());
                        proof {
                            assert(text::views(claimed@) =~= old_claimed.push(c.0@));
                            text::lemma_push_contains(old_claimed, c.0@);
                        }
                    }
                    report.unresolved.push(rec.id.clone());
                    proof {
                        assert(text::views(report.unresolved@) =~= old_unknown.push(rec.id@));
                    }
                }
            },
        }
        i += 1;
    }
    proof {
        assert(rows.take(rows.len() as int) =~= rows);
        assert(text::views(report.unrecorded_on_chain@) =~= Seq::<Seq<char>>::empty());
    }
    let mut unrecorded: Vec<String> = Vec::new();
    let mut k: usize = 0;
    while k < on_chain.len()
        invariant
            k <= on_chain@.len(),
            chain == text::views(on_chain@),
            ascending(text::views(unrecorded@)),
            forall|coin: Seq<char>| #[trigger]
                text::views(claimed@).contains(coin) <==> accounted(rows, coin),
            forall|coin: Seq<char>| #[trigger]
                text::views(unrecorded@).contains(coin) <==> chain.take(k as int).contains(coin)
                    && !accounted(rows, coin),
        decreases on_chain@.len() - k,
    {
        proof {
            assert(chain.take(k + 1) =~= chain.take(k as int).push(on_chain@[k as int]@));
            text::lemma_push_contains(chain.take(k as int), on_chain@[k as int]@);
        }
        if !text::list_contains(&claimed, on_chain[k].as_str()) {
            insert_ascending(&mut unrecorded, on_chain[k].as_str());
        }
        k += 1;
    }
    proof {
        assert(chain.take(chain.len() as int) =~= chain);
    }
    report.unrecorded_on_chain = unrecorded;
    report
}

/// Compare the record with the chain for one owner. Without the chain's answer there is no report:
/// the inventory's error is handed on.
pub fn reconcile<I: ChainInventory>(
    ledger: &SpendLedger,
    inventory: &I,
    owner_puzzle_hash: &str,
) -> (r: Result<ReconcileReport, String>)
    ensures
        exists|answer: Answer| #[trigger]
            inventory.may_answer(owner_puzzle_hash@, answer) && match (answer, r) {
                (Ok(held), Ok(report)) => is_report(report, models(ledger.records@), held),
                (Err(why), Err(e)) => e@ == why,
                _ => false,
            },
{
    match inventory.owned_coin_ids(owner_puzzle_hash) {
        Ok(held) => {
            let report = reconcile_with(ledger, &held);
            proof {
                assert(inventory.may_answer(owner_puzzle_hash@, Ok(text::views(held@))));
            }
            Ok(report)
        },
        Err(e) => {
            proof {
                assert(inventory.may_answer(owner_puzzle_hash@, Err(e@)));
            }
            Err(e)
        },
    }
}

// ---- laws --------------------------------------------------------------------------------------

/// An entry whose outcome is unknown accounts for the coin it was expected to create, so that coin
/// never raises the alarm that means money moved with no entry; the entry itself is reported.
pub proof fn law_unknown_outcome_accounts_for_its_coin(
    report: ReconcileReport,
    rows: Seq<RecordModel>,
    on_chain: Seq<Seq<char>>,
    i: int,
)
    requires
        is_report(report, rows, on_chain),
        0 <= i < rows.len(),
        outcome_unknown(rows[i]),
    ensures
        rows[i].intended matches Some(coin) ==> !text::views(
            report.unrecorded_on_chain@,
        ).contains(coin),
        text::views(report.unresolved@).contains(rows[i].id),
{
    lemma_unknown_is_listed(rows, i);
    if rows[i].intended is Some {
        assert(accounted(rows, rows[i].intended->0));
    }
}

proof fn lemma_unknown_is_listed(rows: Seq<RecordModel>, i: int)
    requires
        0 <= i < rows.len(),
        outcome_unknown(rows[i]),
    ensures
        unknown_ids(rows).contains(rows[i].id),
    decreases rows.len(),
{
    let prior = unknown_ids(rows.drop_last());
    if i == rows.len() - 1 {
        assert(prior.push(rows[i].id)[prior.len() as int] == rows[i].id);
    } else {
        lemma_unknown_is_listed(rows.drop_last(), i);
        assert(rows.drop_last()[i] == rows[i]);
        let k = choose|k: int| 0 <= k < prior.len() && prior[k] == rows[i].id;
        assert(unknown_ids(rows)[k] == rows[i].id);
    }
}

/// A coin on chain that no entry accounts for is always reported.
pub proof fn law_unaccounted_coin_raises_the_alarm(
    report: ReconcileReport,
    rows: Seq<RecordModel>,
    on_chain: Seq<Seq<char>>,
    coin: Seq<char>,
)
    requires
        is_report(report, rows, on_chain),
        on_chain.contains(coin),
        !accounted(rows, coin),
    ensures
        text::views(report.unrecorded_on_chain@).contains(coin),
        report.unrecorded_on_chain@.len() > 0,
{
    let list = text::views(report.unrecorded_on_chain@);
    assert(list.contains(coin));
}

/// Entries that claim no coin (pending, or failed before anything was signed) create no discrepancy:
/// against a chain that shows nothing, the report is clean.
pub proof fn law_entries_that_claim_nothing_are_clean(
    report: ReconcileReport,
    rows: Seq<RecordModel>,
)
    requires
        is_report(report, rows, Seq::empty()),
        forall|i: int|
            0 <= i < rows.len() ==> (#[trigger] rows[i]).status is Pending || (
            rows[i].status is Failed && rows[i].status.terminal()),
    ensures
        report.missing_on_chain@.len() == 0,
        report.unrecorded_on_chain@.len() == 0,
        report.unresolved@.len() == 0,
{
    lemma_nothing_claimed(rows);
    let list = text::views(report.unrecorded_on_chain@);
    if list.len() > 0 {
        assert(list.contains(list[0]));
    }
    assert(text::views(report.missing_on_chain@).len() == 0);
    assert(text::views(report.unresolved@).len() == 0);
}

proof fn lemma_nothing_claimed(rows: Seq<RecordModel>)
    requires
        forall|i: int|
            0 <= i < rows.len() ==> (#[trigger] rows[i]).status is Pending || (
            rows[i].status is Failed && rows[i].status.terminal()),
    ensures
        confirmed_coins(rows, Seq::empty(), false).len() == 0,
        unknown_ids(rows).len() == 0,
    decreases rows.len(),
{
    if rows.len() > 0 {
        let prior = rows.drop_last();
        assert forall|i: int| 0 <= i < prior.len() implies (#[trigger] prior[i]).status is Pending
            || (prior[i].status is Failed && prior[i].status.terminal()) by {
            assert(prior[i] == rows[i]);
        }
        lemma_nothing_claimed(prior);
        assert(rows.last() == rows[rows.len() - 1]);
    }
}

/// **Law: a coin that has an entry raises no alarm.** Stated by status: the coin of a confirmed entry, and
/// the coin that a submitted entry, one of unknown outcome, or one that failed at the broadcast or at the
/// confirmation was to create, is never among the coins that no entry accounts for.
pub proof fn law_a_coin_with_an_entry_raises_no_alarm(
    report: ReconcileReport,
    rows: Seq<RecordModel>,
    on_chain: Seq<Seq<char>>,
    i: int,
    coin: Seq<char>,
)
    requires
        is_report(report, rows, on_chain),
        0 <= i < rows.len(),
        match rows[i].status {
            StatusModel::Confirmed(_, c) => c == coin,
            StatusModel::Submitted => rows[i].intended == Some(coin),
            StatusModel::Unresolved(_) => rows[i].intended == Some(coin),
            StatusModel::Failed(stage, _) => (stage == FailureStage::Broadcast || stage
                == FailureStage::Confirmation) && rows[i].intended == Some(coin),
            StatusModel::Pending => false,
        },
    ensures
        forall|k: int|
            0 <= k < report.unrecorded_on_chain@.len() ==> (#[trigger] report.unrecorded_on_chain@[k])@ != coin,
{
    let list = text::views(report.unrecorded_on_chain@);
    assert(coin_accounted_for(rows[i]) == Some(coin));
    assert(accounted(rows, coin));
    assert(!list.contains(coin));
    assert forall|k: int| 0 <= k < report.unrecorded_on_chain@.len() implies (
    #[trigger] report.unrecorded_on_chain@[k])@ != coin by {
        assert(list[k] == report.unrecorded_on_chain@[k]@);
    }
}

/// **Law: a coin without an entry always raises the alarm.** Stated by status: a coin on the chain that no
/// confirmed entry saw, and that no entry whose bundle may have reached the network was to create, is
/// listed; and nothing is listed that the chain does not show.
pub proof fn law_a_coin_without_an_entry_is_listed(
    report: ReconcileReport,
    rows: Seq<RecordModel>,
    on_chain: Seq<Seq<char>>,
    coin: Seq<char>,
)
    requires
        is_report(report, rows, on_chain),
        forall|i: int|
            0 <= i < rows.len() ==> match (#[trigger] rows[i]).status {
                StatusModel::Confirmed(_, c) => c != coin,
                StatusModel::Submitted => rows[i].intended != Some(coin),
                StatusModel::Unresolved(_) => rows[i].intended != Some(coin),
                StatusModel::Failed(stage, _) => stage == FailureStage::Signing || rows[i].intended != Some(
                    coin,
                ),
                StatusModel::Pending => true,
            },
    ensures
        on_chain.contains(coin) <==> exists|k: int|
            0 <= k < report.unrecorded_on_chain@.len() && (#[trigger] report.unrecorded_on_chain@[k])@ == coin,
{
    let list = text::views(report.unrecorded_on_chain@);
    assert(!accounted(rows, coin)) by {
        if accounted(rows, coin) {
            let i = choose|i: int|
                0 <= i < rows.len() && coin_accounted_for(#[trigger] rows[i]) == Some(coin);
            assert(rows[i].status is Confirmed || rows[i].status.reached_network());
        }
    }
    if list.contains(coin) {
        let k = choose|k: int| 0 <= k < list.len() && list[k] == coin;
        assert(report.unrecorded_on_chain@[k]@ == coin);
    }
    if exists|k: int|
        0 <= k < report.unrecorded_on_chain@.len() && (#[trigger] report.unrecorded_on_chain@[k])@ == coin {
        let k = choose|k: int|
            0 <= k < report.unrecorded_on_chain@.len() && (#[trigger] report.unrecorded_on_chain@[k])@ == coin;
        assert(list[k] == coin);
    }
}

/// **Law: confirmed coins are agreed or missing.** The coin of a confirmed entry is agreed where the chain
/// shows it and missing where it does not, and nothing else is either.
pub proof fn law_confirmed_coins_are_agreed_or_missing(
    report: ReconcileReport,
    rows: Seq<RecordModel>,
    on_chain: Seq<Seq<char>>,
    coin: Seq<char>,
)
    requires
        is_report(report, rows, on_chain),
    ensures
        text::views(report.agreed@).contains(coin) <==> on_chain.contains(coin) && exists|i: int|
            0 <= i < rows.len() && ((#[trigger] rows[i]).status matches StatusModel::Confirmed(_, c) && c == coin),
        text::views(report.missing_on_chain@).contains(coin) <==> !on_chain.contains(coin) && exists|i: int|
            0 <= i < rows.len() && ((#[trigger] rows[i]).status matches StatusModel::Confirmed(_, c) && c == coin),
{
    lemma_confirmed_coins(rows, on_chain, true, coin);
    lemma_confirmed_coins(rows, on_chain, false, coin);
}

proof fn lemma_confirmed_coins(
    rows: Seq<RecordModel>,
    on_chain: Seq<Seq<char>>,
    present: bool,
    coin: Seq<char>,
)
    ensures
        confirmed_coins(rows, on_chain, present).contains(coin) <==> on_chain.contains(coin) == present
            && exists|i: int|
            0 <= i < rows.len() && ((#[trigger] rows[i]).status matches StatusModel::Confirmed(_, c) && c == coin),
    decreases rows.len(),
{
    if rows.len() > 0 {
        let prior = rows.drop_last();
        lemma_confirmed_coins(prior, on_chain, present, coin);
        let p = confirmed_coins(prior, on_chain, present);
        if let StatusModel::Confirmed(_, c) = rows.last().status {
            if on_chain.contains(c) == present {
                text::lemma_push_contains(p, c);
            }
        }
        if exists|i: int|
            0 <= i < prior.len() && ((#[trigger] prior[i]).status matches StatusModel::Confirmed(_, c) && c
                == coin) {
            let i = choose|i: int|
                0 <= i < prior.len() && ((#[trigger] prior[i]).status matches StatusModel::Confirmed(_, c) && c
                    == coin);
            assert(rows[i] == prior[i]);
        }
        if exists|i: int|
            0 <= i < rows.len() && ((#[trigger] rows[i]).status matches StatusModel::Confirmed(_, c) && c
                == coin) {
            let i = choose|i: int|
                0 <= i < rows.len() && ((#[trigger] rows[i]).status matches StatusModel::Confirmed(_, c) && c
                    == coin);
            if i < prior.len() {
                assert(prior[i] == rows[i]);
            } else {
                assert(rows.last() == rows[i]);
            }
        }
        assert(rows.last() == rows[rows.len() - 1]);
    }
}

/// **Law: an unknown outcome is reported, and nothing else is reported as one.** Stated by status: the
/// ids reported are those of the entries of unknown outcome, and of those that failed at the broadcast or
/// at the confirmation.
pub proof fn law_unknown_outcomes_are_reported(
    report: ReconcileReport,
    rows: Seq<RecordModel>,
    on_chain: Seq<Seq<char>>,
    id: Seq<char>,
)
    requires
        is_report(report, rows, on_chain),
    ensures
        text::views(report.unresolved@).contains(id) <==> exists|i: int|
            0 <= i < rows.len() && (#[trigger] rows[i]).id == id && match rows[i].status {
                StatusModel::Unresolved(_) => true,
                StatusModel::Failed(stage, _) => stage == FailureStage::Broadcast || stage
                    == FailureStage::Confirmation,
                _ => false,
            },
{
    lemma_unknown_ids(rows, id);
    if unknown_ids(rows).contains(id) {
        let i = choose|i: int| 0 <= i < rows.len() && (#[trigger] rows[i]).id == id && outcome_unknown(rows[i]);
        assert(rows[i].id == id);
    }
    if exists|i: int|
        0 <= i < rows.len() && (#[trigger] rows[i]).id == id && match rows[i].status {
            StatusModel::Unresolved(_) => true,
            StatusModel::Failed(stage, _) => stage == FailureStage::Broadcast || stage
                == FailureStage::Confirmation,
            _ => false,
        } {
        let i = choose|i: int|
            0 <= i < rows.len() && (#[trigger] rows[i]).id == id && match rows[i].status {
                StatusModel::Unresolved(_) => true,
                StatusModel::Failed(stage, _) => stage == FailureStage::Broadcast || stage
                    == FailureStage::Confirmation,
                _ => false,
            };
        assert(outcome_unknown(rows[i]));
    }
}

proof fn lemma_unknown_ids(rows: Seq<RecordModel>, id: Seq<char>)
    ensures
        unknown_ids(rows).contains(id) <==> exists|i: int|
            0 <= i < rows.len() && (#[trigger] rows[i]).id == id && outcome_unknown(rows[i]),
    decreases rows.len(),
{
    if rows.len() > 0 {
        let prior = rows.drop_last();
        lemma_unknown_ids(prior, id);
        let p = unknown_ids(prior);
        if outcome_unknown(rows.last()) {
            text::lemma_push_contains(p, rows.last().id);
        }
        assert(rows.last() == rows[rows.len() - 1]);
        if exists|i: int| 0 <= i < prior.len() && (#[trigger] prior[i]).id == id && outcome_unknown(prior[i]) {
            let i = choose|i: int|
                0 <= i < prior.len() && (#[trigger] prior[i]).id == id && outcome_unknown(prior[i]);
            assert(rows[i] == prior[i]);
        }
        if exists|i: int| 0 <= i < rows.len() && (#[trigger] rows[i]).id == id && outcome_unknown(rows[i]) {
            let i = choose|i: int|
                0 <= i < rows.len() && (#[trigger] rows[i]).id == id && outcome_unknown(rows[i]);
            if i < prior.len() {
                assert(prior[i] == rows[i]);
            }
        }
    }
}

/// **Law: coins without an entry are listed in order.** Each once, from the smallest id to the greatest.
pub proof fn law_unrecorded_coins_are_listed_in_order(
    report: ReconcileReport,
    rows: Seq<RecordModel>,
    on_chain: Seq<Seq<char>>,
    i: int,
    j: int,
)
    requires
        is_report(report, rows, on_chain),
        0 <= i < j < report.unrecorded_on_chain@.len(),
    ensures
        text::before(report.unrecorded_on_chain@[i]@, report.unrecorded_on_chain@[j]@),
        report.unrecorded_on_chain@[i]@ != report.unrecorded_on_chain@[j]@,
{
    let v = text::views(report.unrecorded_on_chain@);
    assert(v[i] == report.unrecorded_on_chain@[i]@ && v[j] == report.unrecorded_on_chain@[j]@);
    assert(ascending(v));
    text::lemma_before_irreflexive(v[i]);
}

} // verus!
