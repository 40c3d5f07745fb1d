//! Which coins are committed to a bundle whose outcome is not settled.
use crate::error::Error;
use crate::spend_audit::ledger::{ledger_of, unreadable_in, LineModel, SpendLog};
use crate::spend_audit::{funding_views, models, RecordModel};
use crate::text;
use vstd::prelude::*;

verus! {

/// The record could not be read whole, so which coins are committed is unknown.
#[derive(Debug, PartialEq, Eq)]
pub struct CommitmentsUnreadable(pub String);

impl CommitmentsUnreadable {
    /// What a person is told.
    pub open spec fn sentence(detail: Seq<char>) -> Seq<char> {
        "the spend audit record is unreadable ("@ + detail
            + "), so which coins are already committed to an in-flight bundle is unknown; no coin is selected"@
    }

    /// What a person is told.
    pub fn to_text(&self) -> (r: String)
        ensures
            r@ == Self::sentence(self.0@),
    {
        let mut out = "the spend audit record is unreadable (".to_owned();
        out.append(self.0.as_str());
        out.append(
            "), so which coins are already committed to an in-flight bundle is unknown; no coin is selected",
        );
        out
    }
}

/// Whether some row of `rows` holds `coin` out of selection at `now_ms`.
pub open spec fn committed(rows: Seq<RecordModel>, now_ms: u64, coin: Seq<char>) -> bool {
    exists|i: int|
        0 <= i < rows.len() && (#[trigger] rows[i]).holds_funding_at(now_ms)
            && rows[i].funding.contains(coin)
}

/// Whether `ids` are the coins that the record of `log` holds out of selection at `now_ms`, each once.
pub open spec fn lists_committed(ids: Vec<String>, log: SpendLog, now_ms: u64) -> bool {
    &&& text::views(ids@).no_duplicates()
    &&& forall|coin: Seq<char>| #[trigger]
        text::views(ids@).contains(coin) <==> committed(ledger_of(log.history()), now_ms, coin)
}

/// What is said of a record that lost lines.
pub open spec fn unparsed(lines: Seq<LineModel>) -> Seq<char> {
    text::decimal(unreadable_in(lines)) + " entries could not be parsed"@
}

/// The coins committed to a bundle whose outcome is unsettled and whose hold has not lapsed. A record
/// that lost a line refuses the whole answer: the lost line may name a committed coin.
pub fn committed_funding_coin_ids(log: &SpendLog, now_ms: u64) -> (r: Result<
    Vec<String>,
    CommitmentsUnreadable,
>)
    ensures
        r is Ok <==> unreadable_in(log.history()) == 0,
        r matches Ok(ids) ==> lists_committed(ids, *log, now_ms),
        r matches Err(e) ==> e.0@ == unparsed(log.history()),
{
    let ledger = log.ledger();
    if ledger.unreadable_lines > 0 {
        let mut detail = text::number(ledger.unreadable_lines as u64);
        detail.append(" entries could not be parsed");
        return Err(CommitmentsUnreadable(detail));
    }
    let ghost rows = models(ledger.records@);
    let mut ids: Vec<String> = Vec::new();
    let mut i: usize = 0;
    while i < ledger.records.len()
        invariant
            i <= ledger.records@.len(),
            rows == models(ledger.records@),
            text::views(ids@).no_duplicates(),
            forall|coin: Seq<char>| #[trigger]
                text::views(ids@).contains(coin) <==> committed(rows.take(i as int), now_ms, coin),
        decreases ledger.records@.len() - i,
    {
        let rec = &ledger.records[i];
        let ghost prior = rows.take(i as int);
        let ghost here = rows.take(i + 1);
        proof {
            assert(here[i as int] == rec@);
            lemma_committed_step(rows, i as int, now_ms);
        }
        if rec.reserves_funding_at(now_ms) {
            let ghost mine = funding_views(rec.funding_coin_ids@);
            let mut k: usize = 0;
            while k < rec.funding_coin_ids.len()
                invariant
                    k <= rec.funding_coin_ids@.len(),
                    mine == funding_views(rec.funding_coin_ids@),
                    text::views(ids@).no_duplicates(),
                    forall|coin: Seq<char>| #[trigger]
                        text::views(ids@).contains(coin) <==> committed(prior, now_ms, coin)
                            || mine.take(k as int).contains(coin),
                decreases rec.funding_coin_ids@.len() - k,
            {
                let coin_id = &rec.funding_coin_ids[k].0;
                let ghost old_ids = text::views(ids@);
                proof {
                    lemma_take_contains(mine, k as int);
                }
                if !text::list_contains(&ids, coin_id.as_str()) {
                    ids.push(coin_id.clone());
                    proof {
                        assert(text::views(ids@) =~= old_ids.push(coin_id@));
                        text::lemma_push_contains(old_ids, coin_id@);
                    }
                }
                k += 1;
            }
            proof {
                assert(mine.take(mine.len() as int) =~= mine);
            }
        }
        i += 1;
    }
    proof {
        assert(rows.take(rows.len() as int) =~= rows);
    }
    Ok(ids)
}

/// The coins committed by a record as it was read. One that could not be read at all refuses the answer
/// too, with the reason.
pub fn committed_in(record: &Result<SpendLog, Error>, now_ms: u64) -> (r: Result<
    Vec<String>,
    CommitmentsUnreadable,
>)
    ensures
        match record {
            Ok(log) => {
                &&& r is Ok <==> unreadable_in(log.history()) == 0
                &&& r matches Ok(ids) ==> lists_committed(ids, *log, now_ms)
                &&& r matches Err(e) ==> e.0@ == unparsed(log.history())
            },
            Err(e) => r matches Err(u) && u.0@ == e.message@,
        },
{
    match record {
        Ok(log) => committed_funding_coin_ids(log, now_ms),
        Err(e) => Err(CommitmentsUnreadable(e.to_text())),
    }
}

proof fn lemma_committed_step(rows: Seq<RecordModel>, i: int, now_ms: u64)
    requires
        0 <= i < rows.len(),
    ensures
        forall|coin: Seq<char>| #[trigger]
            committed(rows.take(i + 1), now_ms, coin) <==> committed(rows.take(i), now_ms, coin) || (
            rows[i].holds_funding_at(now_ms) && rows[i].funding.contains(coin)),
{
    let a = rows.take(i);
    let b = rows.take(i + 1);
    assert forall|coin: Seq<char>| #[trigger]
        committed(b, now_ms, coin) <==> committed(a, now_ms, coin) || (rows[i].holds_funding_at(
            now_ms,
        ) && rows[i].funding.contains(coin)) by {
        if committed(b, now_ms, coin) {
            let k = choose|k: int|
                0 <= k < b.len() && (#[trigger] b[k]).holds_funding_at(now_ms)
                    && b[k].funding.contains(coin);
            if k < i {
                assert(a[k] == b[k]);
            }
        }
        if committed(a, now_ms, coin) {
            let k = choose|k: int|
                0 <= k < a.len() && (#[trigger] a[k]).holds_funding_at(now_ms)
                    && a[k].funding.contains(coin);
            assert(b[k] == a[k]);
        }
        if rows[i].holds_funding_at(now_ms) && rows[i].funding.contains(coin) {
            assert(b[i] == rows[i]);
        }
    }
}

proof fn lemma_take_contains(s: Seq<Seq<char>>, k: int)
    requires
        0 <= k < s.len(),
    ensures
        forall|x: Seq<char>| #[trigger]
            s.take(k + 1).contains(x) <==> s.take(k).contains(x) || x == s[k],
{
    assert(s.take(k + 1) =~= s.take(k).push(s[k]));
    text::lemma_push_contains(s.take(k), s[k]);
}

/// **Law: which coins are committed.** The funding coins of a spend that was last heard of less than twenty
/// minutes ago and whose outcome is open; a spend that was confirmed, or that failed before it was signed,
/// commits none; and each spend of the record counts.
pub proof fn law_which_coins_are_committed(rows: Seq<RecordModel>, r: RecordModel, now_ms: u64, coin: Seq<char>)
    ensures
        !committed(Seq::empty(), now_ms, coin),
        committed(rows, now_ms, coin) ==> committed(rows.push(r), now_ms, coin),
        r.funding.contains(coin) && now_ms < r.updated_ms + 1_200_000 && (r.status is Pending || r.status
            is Submitted || r.status is Unresolved) ==> committed(rows.push(r), now_ms, coin),
        committed(rows.push(r), now_ms, coin) && !committed(rows, now_ms, coin) ==> r.funding.contains(coin)
            && now_ms < r.updated_ms + 1_200_000 && !(r.status is Confirmed),
{
    crate::spend_audit::law_coins_are_held_for_twenty_minutes(r, now_ms);
    let all = rows.push(r);
    if committed(rows, now_ms, coin) {
        let i = choose|i: int|
            0 <= i < rows.len() && (#[trigger] rows[i]).holds_funding_at(now_ms) && rows[i].funding.contains(coin);
        assert(all[i] == rows[i]);
    }
    assert(all[rows.len() as int] == r);
    if committed(all, now_ms, coin) && !committed(rows, now_ms, coin) {
        let i = choose|i: int|
            0 <= i < all.len() && (#[trigger] all[i]).holds_funding_at(now_ms) && all[i].funding.contains(coin);
        if i < rows.len() {
            assert(rows[i] == all[i]);
        }
    }
}

/// **Law: an unreadable record says why.** The sentence holds the reason, and the reason counts the entries.
pub proof fn law_an_unreadable_record_says_why(why: Seq<char>, lines: Seq<LineModel>)
    ensures
        text::has(CommitmentsUnreadable::sentence(why), why),
        text::starts(unparsed(lines), text::decimal(unreadable_in(lines))),
{
    let a = "the spend audit record is unreadable ("@;
    let z = "), so which coins are already committed to an in-flight bundle is unknown; no coin is selected"@;
    text::law_parts_are_found(a, why, z);
    text::law_parts_are_found(
        text::decimal(unreadable_in(lines)),
        " entries could not be parsed"@,
        Seq::empty(),
    );
}

/// **Law: each committed coin is listed once.** A coin is in the list exactly where a spend of the record holds
/// it, and in one place.
pub proof fn law_each_committed_coin_is_listed_once(ids: Vec<String>, log: SpendLog, now_ms: u64, i: int, j: int)
    requires
        lists_committed(ids, log, now_ms),
        0 <= i < j < ids@.len(),
    ensures
        ids@[i]@ != ids@[j]@,
        committed(ledger_of(log.history()), now_ms, ids@[i]@),
        forall|coin: Seq<char>| #[trigger]
            committed(ledger_of(log.history()), now_ms, coin) ==> exists|k: int|
                0 <= k < ids@.len() && (#[trigger] ids@[k])@ == coin,
{
    let v = text::views(ids@);
    assert(v[i] == ids@[i]@ && v[j] == ids@[j]@);
    assert(v.contains(v[i]));
    assert forall|coin: Seq<char>| #[trigger] committed(ledger_of(log.history()), now_ms, coin) implies exists|k: int|
        0 <= k < ids@.len() && (#[trigger] ids@[k])@ == coin by {
        assert(v.contains(coin));
        let k = choose|k: int| 0 <= k < v.len() && v[k] == coin;
        assert(ids@[k]@ == coin);
    }
}

} // verus!
