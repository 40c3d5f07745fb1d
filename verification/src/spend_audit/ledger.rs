//! The ledger: the fold of the record's lines, and the pages read from it.
use crate::error::{Error, ErrorKind};
use crate::spend_audit::{models, RecordModel, SpendRecord, SPEND_AUDIT_FILE};
use crate::paths;
use crate::state::Os;
use crate::text;
use vstd::prelude::*;

verus! {

// ---- lines -------------------------------------------------------------------------------------

/// One line of the record: a snapshot, or text that could not be read as one.
#[derive(Debug, PartialEq, Eq)]
pub enum LogLine {
    Record(SpendRecord),
    Unreadable,
}

/// A [`LogLine`] as a mathematical value.
pub enum LineModel {
    Record(RecordModel),
    Unreadable,
}

impl View for LogLine {
    type V = LineModel;

    open spec fn view(&self) -> LineModel {
        match self {
            LogLine::Record(r) => LineModel::Record(r@),
            LogLine::Unreadable => LineModel::Unreadable,
        }
    }
}

/// The models of a list of lines.
pub open spec fn line_models(lines: Seq<LogLine>) -> Seq<LineModel> {
    Seq::new(lines.len(), |i: int| lines[i]@)
}

/// The lines of `lines` that are not blank.
pub open spec fn non_blank(lines: Seq<Seq<char>>) -> Seq<Seq<char>> {
    lines.filter(|l: Seq<char>| !text::is_blank(l))
}

/// The lines of the record's text that hold an entry: every line but the blank ones.
pub fn entry_lines(content: &str) -> (out: Vec<String>)
    ensures
        text::views(out@) == non_blank(text::lines_of(content@)),
{
    let all = text::lines(content);
    let ghost vs = text::views(all@);
    let ghost keep = |l: Seq<char>| !text::is_blank(l);
    let mut out: Vec<String> = Vec::new();
    let mut i: usize = 0;
    proof {
        reveal(Seq::filter);
        assert(text::views(out@) =~= vs.take(0).filter(keep));
    }
    while i < all.len()
        invariant
            i <= all@.len(),
            vs == text::views(all@),
            keep == (|l: Seq<char>| !text::is_blank(l)),
            text::views(out@) == vs.take(i as int).filter(keep),
        decreases all@.len() - i,
    {
        proof {
            reveal(Seq::filter);
            assert(vs.take(i + 1).drop_last() =~= vs.take(i as int));
            assert(vs.take(i + 1).last() == all@[i as int]@);
        }
        if !text::blank(all[i].as_str()) {
            let ghost done = text::views(out@);
            out.push(all[i].clone());
            proof {
                assert(text::views(out@) =~= done.push(all@[i as int]@));
            }
        }
        i += 1;
    }
    proof {
        assert(vs.take(vs.len() as int) =~= vs);
    }
    out
}

// ---- the fold ----------------------------------------------------------------------------------

/// The current snapshot of the spend `id`: of the lines that carry it, the first of those with the
/// highest revision.
pub open spec fn newest(lines: Seq<LineModel>, id: Seq<char>) -> Option<RecordModel>
    decreases lines.len(),
{
    if lines.len() == 0 {
        None
    } else {
        let prior = newest(lines.drop_last(), id);
        match lines.last() {
            LineModel::Record(r) => if r.id != id {
                prior
            } else {
                match prior {
                    Some(p) => if p.revision >= r.revision {
                        prior
                    } else {
                        Some(r)
                    },
                    None => Some(r),
                }
            },
            LineModel::Unreadable => prior,
        }
    }
}

/// How many lines could not be read.
pub open spec fn unreadable_in(lines: Seq<LineModel>) -> nat
    decreases lines.len(),
{
    if lines.len() == 0 {
        0
    } else {
        unreadable_in(lines.drop_last()) + if lines.last() is Unreadable {
            1nat
        } else {
            0nat
        }
    }
}

/// The order of the ledger: newest first, equal instants by ascending id.
pub open spec fn stands_before(a: RecordModel, b: RecordModel) -> bool {
    a.initiated_ms > b.initiated_ms || (a.initiated_ms == b.initiated_ms && text::before(
        a.id,
        b.id,
    ))
}

/// Whether `rows` is in the order of the ledger.
pub open spec fn ordered(rows: Seq<RecordModel>) -> bool {
    forall|i: int, j: int|
        0 <= i < j < rows.len() ==> stands_before(#[trigger] rows[i], #[trigger] rows[j])
}

/// Whether some row carries `id`.
pub open spec fn carries(rows: Seq<RecordModel>, id: Seq<char>) -> bool {
    exists|i: int| 0 <= i < rows.len() && (#[trigger] rows[i]).id == id
}

/// Whether `rows` is the ledger of `lines`: one row for each spend, its newest snapshot, in order.
pub open spec fn is_fold(lines: Seq<LineModel>, rows: Seq<RecordModel>) -> bool {
    &&& ordered(rows)
    &&& forall|i: int|
        0 <= i < rows.len() ==> newest(lines, (#[trigger] rows[i]).id) == Some(rows[i])
    &&& forall|id: Seq<char>| (#[trigger] newest(lines, id)) is Some ==> carries(rows, id)
}

/// The newest snapshot of an id carries that id.
pub proof fn lemma_newest_carries_its_id(lines: Seq<LineModel>, id: Seq<char>)
    ensures
        newest(lines, id) matches Some(r) ==> r.id == id,
    decreases lines.len(),
{
    if lines.len() > 0 {
        lemma_newest_carries_its_id(lines.drop_last(), id);
    }
}

/// The newest snapshot of an id is a line of the record, and no line with that id has a higher
/// revision.
pub proof fn law_newest_is_the_highest_revision(lines: Seq<LineModel>, id: Seq<char>)
    ensures
        newest(lines, id) matches Some(r) ==> lines.contains(LineModel::Record(r)),
        forall|i: int|
            0 <= i < lines.len() && #[trigger] lines[i] is Record && lines[i]->Record_0.id == id
                ==> (newest(lines, id) matches Some(r) && r.revision
                >= lines[i]->Record_0.revision),
    decreases lines.len(),
{
    if lines.len() > 0 {
        let prior = lines.drop_last();
        law_newest_is_the_highest_revision(prior, id);
        if newest(prior, id) is Some && newest(lines, id) == newest(prior, id) {
            let r = newest(prior, id)->0;
            let k = choose|k: int| 0 <= k < prior.len() && prior[k] == LineModel::Record(r);
            assert(lines[k] == LineModel::Record(r));
        }
        if newest(lines, id) is Some && newest(lines, id) != newest(prior, id) {
            assert(lines[lines.len() - 1] == LineModel::Record(newest(lines, id)->0));
        }
        assert forall|i: int|
            0 <= i < lines.len() && #[trigger] lines[i] is Record && lines[i]->Record_0.id
                == id implies (newest(lines, id) matches Some(r) && r.revision
            >= lines[i]->Record_0.revision) by {
            if i < lines.len() - 1 {
                assert(lines[i] == prior[i]);
            }
        }
    }
}

/// No row of a ledger shares its id with another.
pub proof fn law_fold_has_one_row_per_spend(lines: Seq<LineModel>, rows: Seq<RecordModel>)
    requires
        is_fold(lines, rows),
    ensures
        forall|i: int, j: int|
            0 <= i < j < rows.len() ==> (#[trigger] rows[i]).id != (#[trigger] rows[j]).id,
{
    assert forall|i: int, j: int| 0 <= i < j < rows.len() implies (#[trigger] rows[i]).id != (
    #[trigger] rows[j]).id by {
        if rows[i].id == rows[j].id {
            assert(rows[i] == rows[j]);
            text::lemma_before_irreflexive(rows[i].id);
        }
    }
}

/// The order of the ledger is a strict order.
pub proof fn lemma_stands_before_is_strict(a: RecordModel, b: RecordModel, c: RecordModel)
    ensures
        !stands_before(a, a),
        stands_before(a, b) && stands_before(b, c) ==> stands_before(a, c),
        a.id != b.id ==> stands_before(a, b) || stands_before(b, a),
{
    text::lemma_before_irreflexive(a.id);
    text::lemma_before_total(a.id, b.id);
    if stands_before(a, b) && stands_before(b, c) && a.initiated_ms == b.initiated_ms
        && b.initiated_ms == c.initiated_ms {
        text::lemma_before_transitive(a.id, b.id, c.id);
    }
}

/// The lines determine the ledger: two folds of the same lines are the same rows.
pub proof fn law_fold_is_determined(
    lines: Seq<LineModel>,
    a: Seq<RecordModel>,
    b: Seq<RecordModel>,
)
    requires
        is_fold(lines, a),
        is_fold(lines, b),
    ensures
        a == b,
{
    lemma_fold_rows_contained(lines, a, b);
    lemma_fold_rows_contained(lines, b, a);
    lemma_ordered_equal(a, b);
}

proof fn lemma_fold_rows_contained(
    lines: Seq<LineModel>,
    a: Seq<RecordModel>,
    b: Seq<RecordModel>,
)
    requires
        is_fold(lines, a),
        is_fold(lines, b),
    ensures
        forall|i: int| 0 <= i < a.len() ==> b.contains(#[trigger] a[i]),
{
    assert forall|i: int| 0 <= i < a.len() implies b.contains(#[trigger] a[i]) by {
        assert(newest(lines, a[i].id) is Some);
        let k = choose|k: int| 0 <= k < b.len() && (#[trigger] b[k]).id == a[i].id;
        assert(newest(lines, b[k].id) == Some(b[k]));
        assert(b[k] == a[i]);
    }
}

proof fn lemma_ordered_equal(a: Seq<RecordModel>, b: Seq<RecordModel>)
    requires
        ordered(a),
        ordered(b),
        forall|i: int| 0 <= i < a.len() ==> b.contains(#[trigger] a[i]),
        forall|i: int| 0 <= i < b.len() ==> a.contains(#[trigger] b[i]),
    ensures
        a == b,
    decreases a.len(),
{
    if a.len() == 0 {
        if b.len() > 0 {
            assert(a.contains(b[0]));
        }
        assert(a =~= b);
    } else {
        assert(b.contains(a[0]));
        let i = choose|i: int| 0 <= i < b.len() && b[i] == a[0];
        assert(a.contains(b[0]));
        let j = choose|j: int| 0 <= j < a.len() && a[j] == b[0];
        if i > 0 && j > 0 {
            assert(stands_before(b[0], b[i]));
            assert(stands_before(a[0], a[j]));
            lemma_stands_before_is_strict(a[0], b[0], a[0]);
        }
        assert(a[0] == b[0]);
        let ta = a.skip(1);
        let tb = b.skip(1);
        assert forall|k: int| 0 <= k < ta.len() implies tb.contains(#[trigger] ta[k]) by {
            assert(b.contains(a[k + 1]));
            let m = choose|m: int| 0 <= m < b.len() && b[m] == a[k + 1];
            if m == 0 {
                assert(stands_before(a[0], a[k + 1]));
                lemma_stands_before_is_strict(a[0], a[0], a[0]);
            }
            assert(tb[m - 1] == ta[k]);
        }
        assert forall|k: int| 0 <= k < tb.len() implies ta.contains(#[trigger] tb[k]) by {
            assert(a.contains(b[k + 1]));
            let m = choose|m: int| 0 <= m < a.len() && a[m] == b[k + 1];
            if m == 0 {
                assert(stands_before(b[0], b[k + 1]));
                lemma_stands_before_is_strict(b[0], b[0], b[0]);
            }
            assert(ta[m - 1] == tb[k]);
        }
        assert forall|x: int, y: int| 0 <= x < y < ta.len() implies stands_before(
            #[trigger] ta[x],
            #[trigger] ta[y],
        ) by {
            assert(stands_before(a[x + 1], a[y + 1]));
        }
        assert forall|x: int, y: int| 0 <= x < y < tb.len() implies stands_before(
            #[trigger] tb[x],
            #[trigger] tb[y],
        ) by {
            assert(stands_before(b[x + 1], b[y + 1]));
        }
        lemma_ordered_equal(ta, tb);
        assert(a =~= seq![a[0]] + ta);
        assert(b =~= seq![b[0]] + tb);
    }
}

/// The position of the row that carries `id`, if one does.
fn position_of(rows: &Vec<SpendRecord>, id: &str) -> (r: Option<usize>)
    ensures
        r matches Some(k) ==> k < rows@.len() && rows@[k as int].id@ == id@ && forall|j: int|
            0 <= j < k ==> (#[trigger] rows@[j]).id@ != id@,
        r is None ==> forall|j: int| 0 <= j < rows@.len() ==> (#[trigger] rows@[j]).id@ != id@,
{
    let mut k: usize = 0;
    while k < rows.len()
        invariant
            k <= rows@.len(),
            forall|j: int| 0 <= j < k ==> (#[trigger] rows@[j]).id@ != id@,
        decreases rows@.len() - k,
    {
        if text::same(rows[k].id.as_str(), id) {
            return Some(k);
        }
        k += 1;
    }
    None
}

/// Whether `rows` holds the newest snapshot of every spend in `lines`, one row each, in any order.
spec fn gathered(lines: Seq<LineModel>, rows: Seq<RecordModel>) -> bool {
    &&& forall|i: int|
        0 <= i < rows.len() ==> newest(lines, (#[trigger] rows[i]).id) == Some(rows[i])
    &&& forall|id: Seq<char>| (#[trigger] newest(lines, id)) is Some ==> carries(rows, id)
    &&& forall|i: int, j: int|
        0 <= i < j < rows.len() ==> (#[trigger] rows[i]).id != (#[trigger] rows[j]).id
}

proof fn lemma_gathered_unreadable(lines: Seq<LineModel>, rows: Seq<RecordModel>)
    requires
        lines.len() > 0,
        gathered(lines.drop_last(), rows),
        lines.last() is Unreadable,
    ensures
        gathered(lines, rows),
{
    let prior = lines.drop_last();
    assert forall|id: Seq<char>| newest(lines, id) == #[trigger] newest(prior, id) by {}
    assert forall|i: int| 0 <= i < rows.len() implies newest(lines, (#[trigger] rows[i]).id)
        == Some(rows[i]) by {
        assert(newest(prior, rows[i].id) == Some(rows[i]));
    }
    assert forall|id: Seq<char>| (#[trigger] newest(lines, id)) is Some implies carries(
        rows,
        id,
    ) by {
        assert(newest(prior, id) is Some);
    }
}

proof fn lemma_gathered_older(lines: Seq<LineModel>, rows: Seq<RecordModel>, k: int)
    requires
        lines.len() > 0,
        gathered(lines.drop_last(), rows),
        lines.last() is Record,
        0 <= k < rows.len(),
        rows[k].id == lines.last()->Record_0.id,
        rows[k].revision >= lines.last()->Record_0.revision,
    ensures
        gathered(lines, rows),
{
    let prior = lines.drop_last();
    assert forall|i: int| 0 <= i < rows.len() implies newest(lines, (#[trigger] rows[i]).id)
        == Some(rows[i]) by {
        assert(newest(prior, rows[i].id) == Some(rows[i]));
        assert(newest(prior, rows[k].id) == Some(rows[k]));
    }
    assert forall|id: Seq<char>| (#[trigger] newest(lines, id)) is Some implies carries(
        rows,
        id,
    ) by {
        if id == rows[k].id {
            assert(carries(rows, id));
        } else {
            assert(newest(prior, id) is Some);
        }
    }
}

proof fn lemma_gathered_newer(lines: Seq<LineModel>, rows: Seq<RecordModel>, k: int)
    requires
        lines.len() > 0,
        gathered(lines.drop_last(), rows),
        lines.last() is Record,
        0 <= k < rows.len(),
        rows[k].id == lines.last()->Record_0.id,
        rows[k].revision < lines.last()->Record_0.revision,
    ensures
        gathered(lines, rows.update(k, lines.last()->Record_0)),
{
    let prior = lines.drop_last();
    let r = lines.last()->Record_0;
    let next = rows.update(k, r);
    assert(newest(prior, rows[k].id) == Some(rows[k]));
    assert forall|i: int| 0 <= i < next.len() implies newest(lines, (#[trigger] next[i]).id)
        == Some(next[i]) by {
        if i != k {
            assert(next[i] == rows[i]);
            assert(newest(prior, rows[i].id) == Some(rows[i]));
            if i < k {
                assert(rows[i].id != rows[k].id);
            } else {
                assert(rows[k].id != rows[i].id);
            }
        }
    }
    assert forall|id: Seq<char>| (#[trigger] newest(lines, id)) is Some implies carries(
        next,
        id,
    ) by {
        if id == r.id {
            assert(next[k].id == id);
        } else {
            assert(newest(prior, id) is Some);
            let m = choose|m: int| 0 <= m < rows.len() && (#[trigger] rows[m]).id == id;
            assert(next[m].id == id);
        }
    }
    assert forall|i: int, j: int| 0 <= i < j < next.len() implies (#[trigger] next[i]).id != (
    #[trigger] next[j]).id by {
        assert(next[i].id == rows[i].id);
        assert(next[j].id == rows[j].id);
    }
}

proof fn lemma_gathered_first(lines: Seq<LineModel>, rows: Seq<RecordModel>)
    requires
        lines.len() > 0,
        gathered(lines.drop_last(), rows),
        lines.last() is Record,
        !carries(rows, lines.last()->Record_0.id),
    ensures
        gathered(lines, rows.push(lines.last()->Record_0)),
{
    let prior = lines.drop_last();
    let r = lines.last()->Record_0;
    let next = rows.push(r);
    assert(newest(prior, r.id) is None);
    assert forall|i: int| 0 <= i < next.len() implies newest(lines, (#[trigger] next[i]).id)
        == Some(next[i]) by {
        if i < rows.len() {
            assert(next[i] == rows[i]);
            assert(newest(prior, rows[i].id) == Some(rows[i]));
        }
    }
    assert forall|id: Seq<char>| (#[trigger] newest(lines, id)) is Some implies carries(
        next,
        id,
    ) by {
        if id == r.id {
            assert(next[rows.len() as int].id == id);
        } else {
            assert(newest(prior, id) is Some);
            let m = choose|m: int| 0 <= m < rows.len() && (#[trigger] rows[m]).id == id;
            assert(next[m].id == id);
        }
    }
    assert forall|i: int, j: int| 0 <= i < j < next.len() implies (#[trigger] next[i]).id != (
    #[trigger] next[j]).id by {
        if j == rows.len() {
            assert(next[i] == rows[i]);
        } else {
            assert(next[i] == rows[i]);
            assert(next[j] == rows[j]);
        }
    }
}

/// The newest snapshot of every spend in `lines`, in the order in which the spends first appear,
/// and how many lines could not be read.
fn gather(lines: &Vec<LogLine>) -> (r: (Vec<SpendRecord>, usize))
    ensures
        gathered(line_models(lines@), models(r.0@)),
        r.1 == unreadable_in(line_models(lines@)),
{
    let ghost all = line_models(lines@);
    let mut rows: Vec<SpendRecord> = Vec::new();
    let mut unreadable: usize = 0;
    let mut i: usize = 0;
    while i < lines.len()
        invariant
            i <= lines@.len(),
            all == line_models(lines@),
            unreadable <= i,
            unreadable == unreadable_in(all.take(i as int)),
            gathered(all.take(i as int), models(rows@)),
        decreases lines@.len() - i,
    {
        let ghost part = all.take(i + 1);
        proof {
            assert(part.drop_last() =~= all.take(i as int));
            assert(part.last() == lines@[i as int]@);
        }
        let ghost before = models(rows@);
        match &lines[i] {
            LogLine::Unreadable => {
                unreadable += 1;
                proof {
                    lemma_gathered_unreadable(part, before);
                }
            },
            LogLine::Record(rec) => {
                match position_of(&rows, rec.id.as_str()) {
                    Some(k) => {
                        proof {
                            assert(before[k as int] == rows@[k as int]@);
                        }
                        if rows[k].revision >= rec.revision {
                            proof {
                                lemma_gathered_older(part, before, k as int);
                            }
                        } else {
                            rows.set(k, rec.clone());
                            proof {
                                lemma_gathered_newer(part, before, k as int);
                                assert(models(rows@) =~= before.update(k as int, rec@));
                            }
                        }
                    },
                    None => {
                        proof {
                            assert forall|m: int| 0 <= m < before.len() implies (
                            #[trigger] before[m]).id != rec.id@ by {
                                assert(before[m] == rows@[m]@);
                            }
                        }
                        rows.push(rec.clone());
                        proof {
                            lemma_gathered_first(part, before);
                            assert(models(rows@) =~= before.push(rec@));
                        }
                    },
                }
            },
        }
        i += 1;
    }
    proof {
        assert(all.take(all.len() as int) =~= all);
    }
    (rows, unreadable)
}

/// Whether `a` stands before `b` in the ledger.
fn goes_first(a: &SpendRecord, b: &SpendRecord) -> (r: bool)
    ensures
        r == stands_before(a@, b@),
{
    if a.initiated_ms != b.initiated_ms {
        a.initiated_ms > b.initiated_ms
    } else {
        text::less(a.id.as_str(), b.id.as_str())
    }
}

/// `rows` in the order of the ledger.
fn arrange(rows: &Vec<SpendRecord>) -> (out: Vec<SpendRecord>)
    requires
        forall|i: int, j: int|
            0 <= i < j < rows@.len() ==> (#[trigger] rows@[i]).id@ != (#[trigger] rows@[j]).id@,
    ensures
        ordered(models(out@)),
        forall|i: int| 0 <= i < out@.len() ==> models(rows@).contains(#[trigger] models(out@)[i]),
        forall|i: int|
            0 <= i < rows@.len() ==> models(out@).contains(#[trigger] models(rows@)[i]),
{
    let ghost all = models(rows@);
    let mut out: Vec<SpendRecord> = Vec::new();
    let mut i: usize = 0;
    while i < rows.len()
        invariant
            i <= rows@.len(),
            all == models(rows@),
            forall|x: int, y: int|
                0 <= x < y < rows@.len() ==> (#[trigger] rows@[x]).id@ != (
                #[trigger] rows@[y]).id@,
            ordered(models(out@)),
            forall|k: int|
                0 <= k < out@.len() ==> all.take(i as int).contains(#[trigger] models(out@)[k]),
            forall|k: int| 0 <= k < i ==> models(out@).contains(#[trigger] all[k]),
        decreases rows@.len() - i,
    {
        let ghost sorted = models(out@);
        let ghost row = all[i as int];
        proof {
            assert forall|k: int| 0 <= k < sorted.len() implies (#[trigger] sorted[k]).id
                != row.id by {
                assert(all.take(i as int).contains(sorted[k]));
                let m = choose|m: int|
                    0 <= m < all.take(i as int).len() && all.take(i as int)[m] == sorted[k];
                assert(rows@[m].id@ != rows@[i as int].id@);
            }
        }
        let mut at: usize = 0;
        while at < out.len() && goes_first(&out[at], &rows[i])
            invariant
                at <= out@.len(),
                i < rows@.len(),
                sorted == models(out@),
                row == rows@[i as int]@,
                forall|k: int| 0 <= k < at ==> stands_before(#[trigger] sorted[k], row),
            decreases out@.len() - at,
        {
            at += 1;
        }
        out.insert(at, rows[i].clone());
        proof {
            let next = models(out@);
            assert(next =~= sorted.insert(at as int, row));
            assert forall|x: int, y: int| 0 <= x < y < next.len() implies stands_before(
                #[trigger] next[x],
                #[trigger] next[y],
            ) by {
                let sx = if x < at {
                    x
                } else {
                    x - 1
                };
                let sy = if y < at {
                    y
                } else {
                    y - 1
                };
                if x != at && y != at {
                    assert(stands_before(sorted[sx], sorted[sy]));
                } else if y == at {
                    assert(stands_before(sorted[x], row));
                } else {
                    // The row is placed at `x`; the row at `at` before the insertion does not go
                    // first, so it and everything behind it stand behind the new row.
                    assert(sorted[at as int].id != row.id);
                    lemma_stands_before_is_strict(row, sorted[at as int], sorted[sy]);
                    if sy > at {
                        assert(stands_before(sorted[at as int], sorted[sy]));
                    }
                }
            }
            assert forall|k: int| 0 <= k < out@.len() implies all.take(i + 1).contains(
                #[trigger] next[k],
            ) by {
                if k == at {
                    assert(all.take(i + 1)[i as int] == row);
                } else {
                    let s = if k < at {
                        k
                    } else {
                        k - 1
                    };
                    assert(next[k] == sorted[s]);
                    assert(all.take(i as int).contains(sorted[s]));
                    let m = choose|m: int|
                        0 <= m < all.take(i as int).len() && all.take(i as int)[m] == sorted[s];
                    assert(all.take(i + 1)[m] == sorted[s]);
                }
            }
            assert forall|k: int| 0 <= k < i + 1 implies next.contains(#[trigger] all[k]) by {
                if k == i {
                    assert(next[at as int] == row);
                } else {
                    assert(sorted.contains(all[k]));
                    let m = choose|m: int| 0 <= m < sorted.len() && sorted[m] == all[k];
                    if m < at {
                        assert(next[m] == all[k]);
                    } else {
                        assert(next[m + 1] == all[k]);
                    }
                }
            }
        }
        i += 1;
    }
    proof {
        assert(all.take(all.len() as int) =~= all);
    }
    out
}

/// The ledger of `lines`: the rows that [`is_fold`] determines.
pub open spec fn ledger_of(lines: Seq<LineModel>) -> Seq<RecordModel> {
    choose|rows: Seq<RecordModel>| is_fold(lines, rows)
}

/// The rows of the record, how much of it could not be read, and whether the rows are the whole
/// matching set.
#[derive(Debug, PartialEq, Eq)]
pub struct SpendLedger {
    /// One row for each spend, newest first.
    pub records: Vec<SpendRecord>,
    /// Lines that could not be read. Counts the whole record, never a page.
    pub unreadable_lines: usize,
    /// Whether nothing was withheld.
    pub complete: bool,
}

impl Default for SpendLedger {
    fn default() -> (r: Self)
        ensures
            r.records@.len() == 0,
            r.unreadable_lines == 0,
            !r.complete,
    {
        SpendLedger { records: Vec::new(), unreadable_lines: 0, complete: false }
    }
}

/// The ledger of `lines`: the highest revision of each id, newest first.
pub fn fold(lines: &Vec<LogLine>) -> (r: SpendLedger)
    ensures
        is_fold(line_models(lines@), models(r.records@)),
        models(r.records@) == ledger_of(line_models(lines@)),
        r.unreadable_lines == unreadable_in(line_models(lines@)),
        r.complete,
{
    let ghost all = line_models(lines@);
    let (rows, unreadable) = gather(lines);
    proof {
        assert forall|i: int, j: int| 0 <= i < j < rows@.len() implies (#[trigger] rows@[i]).id@
            != (#[trigger] rows@[j]).id@ by {
            assert(models(rows@)[i].id != models(rows@)[j].id);
        }
    }
    let records = arrange(&rows);
    proof {
        let m = models(rows@);
        let out = models(records@);
        assert forall|i: int| 0 <= i < out.len() implies newest(all, (#[trigger] out[i]).id)
            == Some(out[i]) by {
            assert(m.contains(out[i]));
            let k = choose|k: int| 0 <= k < m.len() && m[k] == out[i];
            assert(newest(all, m[k].id) == Some(m[k]));
        }
        assert forall|id: Seq<char>| (#[trigger] newest(all, id)) is Some implies carries(
            out,
            id,
        ) by {
            assert(carries(m, id));
            let k = choose|k: int| 0 <= k < m.len() && (#[trigger] m[k]).id == id;
            assert(out.contains(m[k]));
            let j = choose|j: int| 0 <= j < out.len() && out[j] == m[k];
            assert(out[j].id == id);
        }
        assert(is_fold(all, out));
        law_fold_is_determined(all, out, ledger_of(all));
    }
    SpendLedger { records, unreadable_lines: unreadable, complete: true }
}

// ---- queries -----------------------------------------------------------------------------------

/// Filters over the record. Every field narrows; an unset field constrains nothing. `after_id` is a
/// position in the order of the ledger, not a property of a record.
#[derive(Debug, PartialEq, Eq)]
pub struct SpendQuery {
    /// Only spends initiated at or after this instant.
    pub since_ms: Option<u64>,
    /// Only spends initiated strictly before this instant.
    pub until_ms: Option<u64>,
    /// Only spends serving this store.
    pub store_id: Option<String>,
    /// Only this kind.
    pub kind: Option<String>,
    /// Only this status token.
    pub status: Option<String>,
    /// Resume strictly after this id.
    pub after_id: Option<String>,
    /// At most this many rows.
    pub limit: Option<usize>,
}

impl Default for SpendQuery {
    fn default() -> (r: Self)
        ensures
            r.since_ms is None,
            r.until_ms is None,
            r.store_id is None,
            r.kind is None,
            r.status is None,
            r.after_id is None,
            r.limit is None,
    {
        SpendQuery {
            since_ms: None,
            until_ms: None,
            store_id: None,
            kind: None,
            status: None,
            after_id: None,
            limit: None,
        }
    }
}

impl SpendQuery {
    /// Whether the query's filters admit `r`.
    pub open spec fn admits(&self, r: RecordModel) -> bool {
        &&& self.since_ms matches Some(t) ==> t <= r.initiated_ms
        &&& self.until_ms matches Some(t) ==> r.initiated_ms < t
        &&& self.store_id matches Some(s) ==> r.store_id == Some(s@)
        &&& self.kind matches Some(k) ==> r.kind == k@
        &&& self.status matches Some(s) ==> r.status.token() == s@
    }

    /// Whether the query's filters admit `r`.
    pub fn matches(&self, r: &SpendRecord) -> (ok: bool)
        ensures
            ok == self.admits(r@),
    {
        if let Some(t) = self.since_ms {
            if r.initiated_ms < t {
                return false;
            }
        }
        if let Some(t) = self.until_ms {
            if r.initiated_ms >= t {
                return false;
            }
        }
        if let Some(store) = &self.store_id {
            match &r.store_id {
                Some(s) => {
                    if !text::same(s.as_str(), store.as_str()) {
                        return false;
                    }
                },
                None => {
                    return false;
                },
            }
        }
        if let Some(k) = &self.kind {
            if !text::same(r.kind.as_str(), k.as_str()) {
                return false;
            }
        }
        if let Some(s) = &self.status {
            if !text::same(r.status.token(), s.as_str()) {
                return false;
            }
        }
        true
    }
}

/// The rows of `rows` that the query admits, in order.
pub open spec fn admitted(rows: Seq<RecordModel>, q: SpendQuery) -> Seq<RecordModel> {
    rows.filter(|r: RecordModel| q.admits(r))
}

/// The index of the first row that carries `id`; the length when none does.
pub open spec fn index_of(rows: Seq<RecordModel>, id: Seq<char>) -> int
    decreases rows.len(),
{
    if rows.len() == 0 || rows[0].id == id {
        0
    } else {
        1 + index_of(rows.skip(1), id)
    }
}

/// What stands strictly after the cursor, or nothing when no row carries it.
pub open spec fn resumed(rows: Seq<RecordModel>, after: Option<Seq<char>>) -> Option<
    Seq<RecordModel>,
> {
    match after {
        None => Some(rows),
        Some(id) => if carries(rows, id) {
            Some(rows.skip(index_of(rows, id) + 1))
        } else {
            None
        },
    }
}

/// At most the first `limit` rows.
pub open spec fn capped(rows: Seq<RecordModel>, limit: Option<usize>) -> Seq<RecordModel> {
    match limit {
        Some(n) => if rows.len() <= n {
            rows
        } else {
            rows.take(n as int)
        },
        None => rows,
    }
}

/// What an unknown cursor is refused with.
pub open spec fn unknown_cursor(after: Seq<char>) -> Seq<char> {
    "unknown cursor "@ + text::debug_form(after) + ": no matching spend has that id"@
}

/// The index of the first row with an id is where it is found.
pub proof fn lemma_index_of(rows: Seq<RecordModel>, id: Seq<char>, k: int)
    requires
        0 <= k <= rows.len(),
        forall|j: int| 0 <= j < k ==> (#[trigger] rows[j]).id != id,
        k < rows.len() ==> rows[k].id == id,
    ensures
        index_of(rows, id) == k,
    decreases k,
{
    if k > 0 {
        let rest = rows.skip(1);
        assert(rows[0].id != id);
        assert forall|j: int| 0 <= j < k - 1 implies (#[trigger] rest[j]).id != id by {
            assert(rest[j] == rows[j + 1]);
        }
        lemma_index_of(rest, id, k - 1);
    }
}

/// The records of `records` that the query admits, in order.
fn retain(records: Vec<SpendRecord>, q: &SpendQuery) -> (out: Vec<SpendRecord>)
    ensures
        models(out@) == admitted(models(records@), *q),
{
    let ghost all = models(records@);
    let ghost keep = |r: RecordModel| q.admits(r);
    let mut out: Vec<SpendRecord> = Vec::new();
    let mut i: usize = 0;
    proof {
        reveal(Seq::filter);
        assert(models(out@) =~= all.take(0).filter(keep));
    }
    while i < records.len()
        invariant
            i <= records@.len(),
            all == models(records@),
            keep == (|r: RecordModel| q.admits(r)),
            models(out@) == all.take(i as int).filter(keep),
        decreases records@.len() - i,
    {
        proof {
            reveal(Seq::filter);
            assert(all.take(i + 1).drop_last() =~= all.take(i as int));
            assert(all.take(i + 1).last() == records@[i as int]@);
        }
        if q.matches(&records[i]) {
            let ghost done = models(out@);
            out.push(records[i].clone());
            proof {
                assert(models(out@) =~= done.push(records@[i as int]@));
            }
        }
        i += 1;
    }
    proof {
        assert(all.take(all.len() as int) =~= all);
    }
    out
}

/// A copy of `records[from..to]`.
fn copy_range(records: &Vec<SpendRecord>, from: usize, to: usize) -> (out: Vec<SpendRecord>)
    requires
        from <= to <= records@.len(),
    ensures
        models(out@) == models(records@).subrange(from as int, to as int),
{
    let mut out: Vec<SpendRecord> = Vec::new();
    let mut i: usize = from;
    while i < to
        invariant
            from <= i <= to <= records@.len(),
            models(out@) == models(records@).subrange(from as int, i as int),
        decreases to - i,
    {
        let ghost done = models(out@);
        out.push(records[i].clone());
        i += 1;
        proof {
            assert(models(out@) =~= done.push(models(records@)[i - 1]));
            assert(models(out@) =~= models(records@).subrange(from as int, i as int));
        }
    }
    out
}

/// The page of `whole` that `q` asks for: filtered, resumed after the cursor, then capped.
pub fn page(whole: SpendLedger, q: &SpendQuery) -> (r: Result<SpendLedger, Error>)
    ensures
        ({
            let matching = admitted(models(whole.records@), *q);
            match resumed(matching, text::opt_view(q.after_id)) {
                Some(rest) => match r {
                    Ok(p) => {
                        &&& models(p.records@) == capped(rest, q.limit)
                        &&& p.unreadable_lines == whole.unreadable_lines
                        &&& p.complete == match q.limit {
                            Some(n) => rest.len() <= n,
                            None => whole.complete,
                        }
                    },
                    Err(_) => false,
                },
                None => match r {
                    Ok(_) => false,
                    Err(e) => {
                        &&& e.kind == ErrorKind::InvalidInput
                        &&& e.message@ == unknown_cursor(q.after_id->0@)
                    },
                },
            }
        }),
{
    let unreadable_lines: usize = whole.unreadable_lines;
    let mut complete = whole.complete;
    let records = retain(whole.records, q);
    let ghost matching = models(records@);
    let count: usize = records.len();
    let mut from: usize = 0;
    if let Some(after) = &q.after_id {
        match position_of(&records, after.as_str()) {
            Some(k) => {
                proof {
                    assert(k < count);
                    assert(matching[k as int].id == after@);
                    assert forall|j: int| 0 <= j < k implies (#[trigger] matching[j]).id
                        != after@ by {
                        assert(records@[j].id@ != after@);
                    }
                    lemma_index_of(matching, after@, k as int);
                }
                from = k + 1;
            },
            None => {
                proof {
                    assert forall|j: int| 0 <= j < matching.len() implies (
                    #[trigger] matching[j]).id != after@ by {
                        assert(records@[j].id@ != after@);
                    }
                }
                let mut message = "unknown cursor ".to_owned();
                message.append(text::quoted(after.as_str()).as_str());
                message.append(": no matching spend has that id");
                return Err(Error::new(ErrorKind::InvalidInput, message));
            },
        }
    }
    let mut to: usize = count;
    if let Some(n) = q.limit {
        complete = to - from <= n;
        if to - from > n {
            to = from + n;
        }
    }
    proof {
        let rest = matching.skip(from as int);
        assert(q.after_id is None ==> rest =~= matching);
        assert(matching.subrange(from as int, to as int) =~= capped(rest, q.limit));
    }
    Ok(SpendLedger { records: copy_range(&records, from, to), unreadable_lines, complete })
}

// ---- the log -----------------------------------------------------------------------------------

/// The append-only record: where it is kept, and its lines.
#[derive(Debug)]
pub struct SpendLog {
    path: String,
    lines: Vec<LogLine>,
}

impl SpendLog {
    /// Where the record is kept.
    pub closed spec fn location(&self) -> Seq<char> {
        self.path@
    }

    /// The lines of the record, oldest first.
    pub closed spec fn history(&self) -> Seq<LineModel> {
        line_models(self.lines@)
    }

    /// The record kept at `path`, with no line yet.
    pub fn at(path: &str) -> (r: Self)
        ensures
            r.location() == path@,
            r.history() == Seq::<LineModel>::empty(),
    {
        let r = SpendLog { path: path.to_owned(), lines: Vec::new() };
        proof {
            assert(r.history() =~= Seq::<LineModel>::empty());
        }
        r
    }

    /// The record kept at `path`, holding `lines`.
    pub fn with_lines(path: &str, lines: Vec<LogLine>) -> (r: Self)
        ensures
            r.location() == path@,
            r.history() == line_models(lines@),
    {
        SpendLog { path: path.to_owned(), lines }
    }

    /// The record kept in the state directory `dir`, with no line yet.
    pub fn in_state_dir(os: Os, dir: &str) -> (r: Self)
        ensures
            r.location() == paths::inside_for(os, dir@, SPEND_AUDIT_FILE@),
            r.history() == Seq::<LineModel>::empty(),
    {
        SpendLog::at(paths::join_for(os, dir, SPEND_AUDIT_FILE).as_str())
    }

    /// Where the record is kept.
    pub fn path(&self) -> (r: &str)
        ensures
            r@ == self.location(),
    {
        self.path.as_str()
    }

    /// The lines of the record, oldest first.
    pub fn lines(&self) -> (r: &Vec<LogLine>)
        ensures
            line_models(r@) == self.history(),
    {
        &self.lines
    }

    /// Append a snapshot. No line already there changes.
    pub(crate) fn append(&mut self, record: &SpendRecord)
        ensures
            final(self).location() == old(self).location(),
            final(self).history() == old(self).history().push(LineModel::Record(record@)),
    {
        let ghost before = self.history();
        self.lines.push(LogLine::Record(record.clone()));
        proof {
            assert(self.history() =~= before.push(LineModel::Record(record@)));
        }
    }

    /// The whole ledger.
    pub fn ledger(&self) -> (r: SpendLedger)
        ensures
            is_fold(self.history(), models(r.records@)),
            models(r.records@) == ledger_of(self.history()),
            r.unreadable_lines == unreadable_in(self.history()),
            r.complete,
    {
        fold(&self.lines)
    }

    /// One page of the ledger: filtered, resumed after the cursor, then capped. `complete` says
    /// whether rows were withheld, never whether the page came out full. A cursor outside the
    /// matching rows is refused: it is neither a restart nor an end.
    pub fn query(&self, q: &SpendQuery) -> (r: Result<SpendLedger, Error>)
        ensures
            is_fold(self.history(), ledger_of(self.history())),
            ({
                let matching = admitted(ledger_of(self.history()), *q);
                match resumed(matching, text::opt_view(q.after_id)) {
                    Some(rest) => match r {
                        Ok(p) => {
                            &&& models(p.records@) == capped(rest, q.limit)
                            &&& p.unreadable_lines == unreadable_in(self.history())
                            &&& p.complete == match q.limit {
                                Some(n) => rest.len() <= n,
                                None => true,
                            }
                        },
                        Err(_) => false,
                    },
                    None => match r {
                        Ok(_) => false,
                        Err(e) => {
                            &&& e.kind == ErrorKind::InvalidInput
                            &&& e.message@ == unknown_cursor(q.after_id->0@)
                        },
                    },
                }
            }),
    {
        page(self.ledger(), q)
    }

    /// The id to resume a page from: the id of the last row handed over, or nothing for an empty
    /// page.
    pub fn cursor_of(ledger: &SpendLedger) -> (r: Option<String>)
        ensures
            text::opt_view(r) == if ledger.records@.len() == 0 {
                None
            } else {
                Some(ledger.records@.last().id@)
            },
    {
        let n: usize = ledger.records.len();
        if n == 0 {
            None
        } else {
            Some(ledger.records[n - 1].id.clone())
        }
    }
}

// ---- laws of paging ----------------------------------------------------------------------------

/// The rows a query admits stay in the order of the ledger and are rows of it.
pub proof fn law_filtering_keeps_the_order(rows: Seq<RecordModel>, q: SpendQuery)
    requires
        ordered(rows),
    ensures
        ordered(admitted(rows, q)),
        forall|r: RecordModel|
            #[trigger] admitted(rows, q).contains(r) <==> rows.contains(r) && q.admits(r),
    decreases rows.len(),
{
    reveal(Seq::filter);
    let keep = |r: RecordModel| q.admits(r);
    if rows.len() == 0 {
        assert(admitted(rows, q) =~= Seq::empty());
    } else {
        let prior = rows.drop_last();
        let last = rows.last();
        assert(ordered(prior)) by {
            assert forall|i: int, j: int| 0 <= i < j < prior.len() implies stands_before(
                #[trigger] prior[i],
                #[trigger] prior[j],
            ) by {
                assert(stands_before(rows[i], rows[j]));
            }
        }
        law_filtering_keeps_the_order(prior, q);
        let kept = prior.filter(keep);
        let all = rows.filter(keep);
        assert(kept == admitted(prior, q));
        assert(all == if keep(last) {
            kept.push(last)
        } else {
            kept
        });
        assert forall|i: int, j: int| 0 <= i < j < all.len() implies stands_before(
            #[trigger] all[i],
            #[trigger] all[j],
        ) by {
            if j == kept.len() {
                assert(kept.contains(kept[i]));
                let k = choose|k: int| 0 <= k < prior.len() && prior[k] == kept[i];
                assert(stands_before(rows[k], rows[rows.len() - 1]));
            } else {
                assert(stands_before(kept[i], kept[j]));
            }
        }
        assert forall|r: RecordModel|
            #[trigger] all.contains(r) <==> rows.contains(r) && q.admits(r) by {
            if all.contains(r) {
                let k = choose|k: int| 0 <= k < all.len() && all[k] == r;
                if k < kept.len() {
                    assert(kept[k] == r);
                    assert(kept.contains(r));
                    let m = choose|m: int| 0 <= m < prior.len() && prior[m] == r;
                    assert(rows[m] == r);
                } else {
                    assert(rows[rows.len() - 1] == r);
                }
            }
            if rows.contains(r) && q.admits(r) {
                let k = choose|k: int| 0 <= k < rows.len() && rows[k] == r;
                if k < prior.len() {
                    assert(prior[k] == r);
                    assert(kept.contains(r));
                    let m = choose|m: int| 0 <= m < kept.len() && kept[m] == r;
                    assert(all[m] == r);
                } else {
                    assert(keep(last));
                    assert(all[kept.len() as int] == r);
                }
            }
        }
    }
}

/// Whether no two rows share an id.
pub open spec fn ids_distinct(rows: Seq<RecordModel>) -> bool {
    forall|i: int, j: int|
        0 <= i < j < rows.len() ==> (#[trigger] rows[i]).id != (#[trigger] rows[j]).id
}

/// The rows that a query admits of a ledger have distinct ids, so each id is one position.
pub proof fn law_admitted_rows_have_distinct_ids(
    lines: Seq<LineModel>,
    rows: Seq<RecordModel>,
    q: SpendQuery,
)
    requires
        is_fold(lines, rows),
    ensures
        ids_distinct(admitted(rows, q)),
{
    let kept = admitted(rows, q);
    law_filtering_keeps_the_order(rows, q);
    assert forall|i: int, j: int| 0 <= i < j < kept.len() implies (#[trigger] kept[i]).id != (
    #[trigger] kept[j]).id by {
        if kept[i].id == kept[j].id {
            assert(kept.contains(kept[i]));
            assert(kept.contains(kept[j]));
            let a = choose|a: int| 0 <= a < rows.len() && rows[a] == kept[i];
            let b = choose|b: int| 0 <= b < rows.len() && rows[b] == kept[j];
            assert(newest(lines, rows[a].id) == Some(rows[a]));
            assert(newest(lines, rows[b].id) == Some(rows[b]));
            assert(stands_before(kept[i], kept[j]));
            lemma_stands_before_is_strict(kept[i], kept[i], kept[i]);
        }
    }
}

/// Resuming after a row hands over exactly the rows behind it.
pub proof fn law_resuming_continues_behind_the_cursor(rows: Seq<RecordModel>, k: int)
    requires
        ids_distinct(rows),
        0 <= k < rows.len(),
    ensures
        resumed(rows, Some(rows[k].id)) == Some(rows.skip(k + 1)),
{
    lemma_index_of(rows, rows[k].id, k);
    assert(carries(rows, rows[k].id));
}

/// The rows handed over by at most `requests` pages of `n` rows, each resumed after the last row of
/// the page before, until a page says it withheld nothing.
pub open spec fn walk(
    rows: Seq<RecordModel>,
    after: Option<Seq<char>>,
    n: usize,
    requests: nat,
) -> Seq<RecordModel>
    decreases requests,
{
    if requests == 0 {
        Seq::empty()
    } else {
        match resumed(rows, after) {
            None => Seq::empty(),
            Some(rest) => {
                let page = capped(rest, Some(n));
                if rest.len() <= n {
                    page
                } else {
                    page + walk(rows, Some(page.last().id), n, (requests - 1) as nat)
                }
            },
        }
    }
}

/// A walk by pages visits every row exactly once, in order, whatever the page size, equal instants
/// included.
pub proof fn law_walk_visits_every_row_once(rows: Seq<RecordModel>, n: usize)
    requires
        ids_distinct(rows),
        n > 0,
    ensures
        walk(rows, None, n, rows.len() + 1) == rows,
{
    if rows.len() <= n {
        assert(walk(rows, None, n, rows.len() + 1) == rows);
    } else {
        let page = rows.take(n as int);
        assert(page.last() == rows[n - 1]);
        lemma_walk_from(rows, n - 1, n, rows.len());
        assert(page + rows.skip(n as int) =~= rows);
    }
}

proof fn lemma_walk_from(rows: Seq<RecordModel>, k: int, n: usize, requests: nat)
    requires
        ids_distinct(rows),
        n > 0,
        0 <= k < rows.len(),
        requests > rows.len() - (k + 1),
    ensures
        walk(rows, Some(rows[k].id), n, requests) == rows.skip(k + 1),
    decreases requests,
{
    law_resuming_continues_behind_the_cursor(rows, k);
    let rest = rows.skip(k + 1);
    if rest.len() > n {
        let page = rest.take(n as int);
        assert(page.last() == rows[k + n]);
        lemma_walk_from(rows, k + n, n, (requests - 1) as nat);
        assert(page + rows.skip(k + n + 1) =~= rest);
    }
}

/// A page is complete exactly when it hands over everything behind its cursor: a full last page is
/// complete, and a page that withheld a row is not.
pub proof fn law_complete_means_nothing_withheld(rest: Seq<RecordModel>, limit: Option<usize>)
    ensures
        capped(rest, limit) == rest <==> match limit {
            Some(n) => rest.len() <= n,
            None => true,
        },
{
    match limit {
        Some(n) => {
            if rest.len() > n {
                assert(capped(rest, limit).len() == n);
            }
        },
        None => {},
    }
}

/// Appending a line changes the snapshot of no spend but the one the line carries, and never takes
/// a higher revision away.
pub proof fn law_appending_touches_one_spend(lines: Seq<LineModel>, r: RecordModel, id: Seq<char>)
    ensures
        id != r.id ==> newest(lines.push(LineModel::Record(r)), id) == newest(lines, id),
        newest(lines, id) matches Some(p) ==> (newest(
            lines.push(LineModel::Record(r)),
            id,
        ) matches Some(n) && n.revision >= p.revision),
        unreadable_in(lines.push(LineModel::Record(r))) == unreadable_in(lines),
{
    assert(lines.push(LineModel::Record(r)).drop_last() =~= lines);
}

// ---- laws of reading ---------------------------------------------------------------------------

/// **Law: lines are seen whole.** A line that holds a record is that record, and any other is unreadable.
pub proof fn law_lines_are_seen_whole(r: SpendRecord, lines: Seq<LogLine>, i: int)
    requires
        0 <= i < lines.len(),
    ensures
        LogLine::Record(r)@ == LineModel::Record(r@),
        LogLine::Unreadable@ == LineModel::Unreadable,
        line_models(lines).len() == lines.len(),
        line_models(lines)[i] == lines[i]@,
{
}

/// **Law: blank lines are passed over.** Every other line is kept, in its place.
pub proof fn law_blank_lines_are_passed_over(lines: Seq<Seq<char>>, l: Seq<char>)
    ensures
        non_blank(Seq::empty()).len() == 0,
        (exists|i: int| 0 <= i < l.len() && !text::is_white(#[trigger] l[i])) ==> non_blank(lines.push(l))
            == non_blank(lines).push(l),
        (forall|i: int| 0 <= i < l.len() ==> text::is_white(#[trigger] l[i])) ==> non_blank(lines.push(l))
            == non_blank(lines),
{
    reveal(Seq::filter);
    assert(lines.push(l).drop_last() =~= lines);
    text::law_blank_is_white_throughout(l);
}

/// **Law: the highest revision counts, and of equal ones the first.** A line is taken for a spend where it is
/// the spend's first or a later revision; a line of another spend, and one that cannot be read, changes
/// nothing.
pub proof fn law_the_highest_revision_counts(lines: Seq<LineModel>, r: RecordModel, id: Seq<char>)
    ensures
        newest(Seq::empty(), id) is None,
        newest(lines.push(LineModel::Unreadable), id) == newest(lines, id),
        r.id != id ==> newest(lines.push(LineModel::Record(r)), id) == newest(lines, id),
        newest(lines, r.id) is None ==> newest(lines.push(LineModel::Record(r)), r.id) == Some(r),
        newest(lines, r.id) matches Some(p) ==> newest(lines.push(LineModel::Record(r)), r.id) == Some(
            if r.revision > p.revision {
                r
            } else {
                p
            },
        ),
        unreadable_in(Seq::empty()) == 0,
        unreadable_in(lines.push(LineModel::Unreadable)) == unreadable_in(lines) + 1,
        unreadable_in(lines.push(LineModel::Record(r))) == unreadable_in(lines),
{
    assert(lines.push(LineModel::Record(r)).drop_last() =~= lines);
    assert(lines.push(LineModel::Unreadable).drop_last() =~= lines);
}

/// **Law: the latest spend stands first.** Of two spends the one that was initiated later; of two of the same
/// millisecond the one whose id is the smaller.
pub proof fn law_the_latest_spend_stands_first(a: RecordModel, b: RecordModel)
    ensures
        a.initiated_ms > b.initiated_ms ==> stands_before(a, b) && !stands_before(b, a),
        a.initiated_ms == b.initiated_ms ==> (stands_before(a, b) <==> text::before(a.id, b.id)),
{
}

/// **Law: what a query leaves out.** A spend that was initiated before the first moment it asks for, or at or
/// behind the last; one of another store, kind or status than it names. What it does not name leaves out
/// nothing.
pub proof fn law_what_a_query_leaves_out(q: SpendQuery, r: RecordModel)
    ensures
        q.since_ms matches Some(t) ==> r.initiated_ms < t ==> !q.admits(r),
        q.until_ms matches Some(t) ==> r.initiated_ms >= t ==> !q.admits(r),
        q.store_id matches Some(s) ==> r.store_id != Some(s@) ==> !q.admits(r),
        q.kind matches Some(k) ==> r.kind != k@ ==> !q.admits(r),
        q.status matches Some(s) ==> r.status.token() != s@ ==> !q.admits(r),
        (match q.since_ms {
            Some(t) => t <= r.initiated_ms,
            None => true,
        }) && (match q.until_ms {
            Some(t) => r.initiated_ms < t,
            None => true,
        }) && (match q.store_id {
            Some(s) => r.store_id == Some(s@),
            None => true,
        }) && (match q.kind {
            Some(k) => r.kind == k@,
            None => true,
        }) && (match q.status {
            Some(s) => r.status.token() == s@,
            None => true,
        }) ==> q.admits(r),
{
}

/// **Law: what a page holds.** The rows behind the one that the cursor names, or all where it names none; at
/// most as many as were asked for, and those the first. A cursor that no row answers to opens no page.
pub proof fn law_what_a_page_holds(
    front: Seq<RecordModel>,
    r: RecordModel,
    back: Seq<RecordModel>,
    id: Seq<char>,
    n: usize,
)
    requires
        forall|i: int| 0 <= i < front.len() ==> (#[trigger] front[i]).id != id,
        r.id == id,
    ensures
        resumed(front, None) == Some(front),
        resumed(front, Some(id)) is None,
        resumed(front.push(r) + back, Some(id)) == Some(back),
        capped(front, None) == front,
        front.len() <= n ==> capped(front, Some(n)) == front,
        front.len() > n ==> capped(front, Some(n)).len() == n && forall|i: int|
            0 <= i < n ==> #[trigger] capped(front, Some(n))[i] == front[i],
{
    let rows = front.push(r) + back;
    let k = front.len() as int;
    assert(rows[k] == r);
    assert forall|j: int| 0 <= j < k implies (#[trigger] rows[j]).id != id by {
        assert(rows[j] == front[j]);
    }
    lemma_index_of(rows, id, k);
    assert(carries(rows, id));
    assert(rows.skip(k + 1) =~= back);
}

/// **Law: an unknown cursor is named.**
pub proof fn law_an_unknown_cursor_is_named(after: Seq<char>)
    ensures
        text::has(unknown_cursor(after), text::debug_form(after)),
{
    text::law_parts_are_found(
        "unknown cursor "@,
        text::debug_form(after),
        ": no matching spend has that id"@,
    );
}

} // verus!
