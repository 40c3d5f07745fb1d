//! Text from a stranger, rendered into a sentence an operator acts on.
//!
//! A value that is cut short says so inside the value itself, the budget is charged by the columns
//! that are seen, and no character that hides, reorders or forges text gets through. What says that a
//! value was cut short is said by the node alone: a value that spells it out is broken up.
use crate::text;
use unicode_width::UnicodeWidthChar;
use vstd::prelude::*;

verus! {

/// What is appended to a value that was cut short. It names who did it.
pub const CLIP_MARK: &'static str = "[clipped by dig-node]";

/// What stands for a character that must not be shown. It is visible: a character dropped without a
/// trace would forge the value too.
pub const REPLACEMENT: char = '\u{fffd}';

/// Whether `c` may never be shown: a control character, a format character that takes no column, or
/// one that reorders the text around it.
pub open spec fn is_hidden(c: char) -> bool {
    let n = c as int;
    ||| text::is_control(c)
    ||| n == 0x00AD
    ||| n == 0x061C
    ||| n == 0x180E
    ||| 0x200B <= n <= 0x200F
    ||| 0x202A <= n <= 0x202E
    ||| 0x2060 <= n <= 0x2064
    ||| 0x2066 <= n <= 0x206F
    ||| n == 0xFEFF
    ||| 0xFFF9 <= n <= 0xFFFB
    ||| 0x1D173 <= n <= 0x1D17A
    ||| 0xE0000 <= n <= 0xE007F
}

/// Whether `c` may never be shown to an operator.
pub fn is_forbidden(c: char) -> (r: bool)
    ensures
        r == is_hidden(c),
{
    if text::control(c) {
        return true;
    }
    let n: u32 = text::code(c);
    n == 0x00AD || n == 0x061C || n == 0x180E || (0x200B <= n && n <= 0x200F) || (0x202A <= n && n
        <= 0x202E) || (0x2060 <= n && n <= 0x2064) || (0x2066 <= n && n <= 0x206F) || n == 0xFEFF
        || (0xFFF9 <= n && n <= 0xFFFB) || (0x1D173 <= n && n <= 0x1D17A) || (0xE0000 <= n && n
        <= 0xE007F)
}

/// The columns a character takes on a terminal, as the width tables have it.
pub uninterp spec fn display_width(c: char) -> Option<usize>;

/// `UnicodeWidthChar::width` of `c`: the columns it takes, or nothing for a control character. The
/// printable ASCII characters take one column, and no character takes more than a byte can count.
#[verifier::external_body]
fn width_of(c: char) -> (w: Option<usize>)
    ensures
        w == display_width(c),
        w is None <==> text::is_control(c),
        0x20 <= (c as int) < 0x7F ==> w == Some(1usize),
        w matches Some(n) ==> n <= 255,
{
    c.width()
}

/// What stands for the character of `raw` at `i`. One that may not be shown is replaced, and so is the
/// first of a mark that the value itself spells out.
pub open spec fn stand_in(raw: Seq<char>, i: int) -> char {
    if is_hidden(raw[i]) || text::occurs_at(raw, CLIP_MARK@, i) {
        REPLACEMENT
    } else {
        raw[i]
    }
}

/// `raw` with every character that may not be shown replaced, and every mark in it broken up.
pub open spec fn shown(raw: Seq<char>) -> Seq<char> {
    Seq::new(raw.len(), |i: int| stand_in(raw, i))
}

/// What a character of the given width is charged: its columns, and never nothing.
pub open spec fn charge(width: Option<usize>) -> nat {
    match width {
        Some(w) => if w >= 1 {
            w as nat
        } else {
            1
        },
        None => 1,
    }
}

/// What each character of `chars` is charged.
pub open spec fn charges(chars: Seq<char>) -> Seq<nat> {
    Seq::new(chars.len(), |i: int| charge(display_width(chars[i])))
}

/// What the first characters are charged together.
pub open spec fn total(costs: Seq<nat>) -> nat
    decreases costs.len(),
{
    if costs.len() == 0 {
        0
    } else {
        total(costs.drop_last()) + costs.last()
    }
}

/// How many leading characters fit: the count stops at the first that does not.
pub open spec fn fitting(costs: Seq<nat>, budget: nat) -> int
    decreases costs.len(),
{
    if costs.len() == 0 {
        0
    } else {
        let k = fitting(costs.drop_last(), budget);
        if k == costs.len() - 1 && total(costs) <= budget {
            costs.len() as int
        } else {
            k
        }
    }
}

/// `chars` where they fit, else those that fit and the mark.
pub open spec fn clipped(chars: Seq<char>, costs: Seq<nat>, budget: nat) -> Seq<char> {
    let k = fitting(costs, budget);
    if k == chars.len() {
        chars
    } else {
        chars.take(k) + CLIP_MARK@
    }
}

/// What an operator is shown for `raw` within `budget` columns.
pub open spec fn rendering(raw: Seq<char>, budget: nat) -> Seq<char> {
    clipped(shown(raw), charges(shown(raw)), budget)
}

/// The costs of a list of widths.
pub open spec fn costs_of(widths: Seq<Option<usize>>) -> Seq<nat> {
    Seq::new(widths.len(), |i: int| charge(widths[i]))
}

proof fn lemma_fitting_bounds(costs: Seq<nat>, budget: nat)
    ensures
        0 <= fitting(costs, budget) <= costs.len(),
        total(costs.take(fitting(costs, budget))) <= budget,
        fitting(costs, budget) < costs.len() ==> total(
            costs.take(fitting(costs, budget) + 1),
        ) > budget,
    decreases costs.len(),
{
    if costs.len() > 0 {
        let prior = costs.drop_last();
        lemma_fitting_bounds(prior, budget);
        let k = fitting(prior, budget);
        if k == costs.len() - 1 {
            assert(costs.take(costs.len() as int) =~= costs);
            assert(costs.take(k) =~= prior);
            assert(prior.take(k) =~= prior);
            assert(costs.take(k + 1) =~= costs);
        } else {
            assert(costs.take(k) =~= prior.take(k));
            assert(costs.take(k + 1) =~= prior.take(k + 1));
        }
    }
}

proof fn lemma_stuck(costs: Seq<nat>, budget: nat, k: int)
    requires
        0 <= k < costs.len(),
        fitting(costs.take(k), budget) == k,
        total(costs.take(k + 1)) > budget,
    ensures
        fitting(costs, budget) == k,
    decreases costs.len(),
{
    let prior = costs.drop_last();
    if k == costs.len() - 1 {
        assert(prior =~= costs.take(k));
        assert(costs.take(k + 1) =~= costs);
    } else {
        assert(prior.take(k) =~= costs.take(k));
        assert(prior.take(k + 1) =~= costs.take(k + 1));
        lemma_stuck(prior, budget, k);
    }
}

/// `chars` where they fit in `budget` columns, else those that fit and the mark. `widths` are the
/// columns of the characters.
pub fn clip_to_width(chars: &Vec<char>, widths: &Vec<Option<usize>>, budget: usize) -> (out: String)
    requires
        chars@.len() == widths@.len(),
    ensures
        out@ == clipped(chars@, costs_of(widths@), budget as nat),
{
    let ghost costs = costs_of(widths@);
    let mut out = String::new();
    let mut used: usize = 0;
    let mut i: usize = 0;
    proof {
        assert(out@ =~= chars@.take(0));
    }
    while i < chars.len()
        invariant
            i <= chars@.len(),
            chars@.len() == widths@.len(),
            costs == costs_of(widths@),
            used <= budget,
            used == total(costs.take(i as int)),
            fitting(costs.take(i as int), budget as nat) == i,
            out@ == chars@.take(i as int),
        decreases chars@.len() - i,
    {
        let w: usize = match widths[i] {
            Some(n) => if n >= 1 {
                n
            } else {
                1
            },
            None => 1,
        };
        proof {
            assert(costs.take(i + 1).drop_last() =~= costs.take(i as int));
            assert(costs.take(i + 1).last() == w as nat);
        }
        if w > budget - used {
            proof {
                lemma_stuck(costs, budget as nat, i as int);
            }
            out.append(CLIP_MARK);
            return out;
        }
        out.push(chars[i]);
        used = used + w;
        i += 1;
        proof {
            assert(chars@.take(i as int) =~= chars@.take(i - 1).push(chars@[i - 1]));
        }
    }
    proof {
        assert(costs.take(costs.len() as int) =~= costs);
        assert(chars@.take(chars@.len() as int) =~= chars@);
    }
    out
}

/// What an operator is shown for `raw` within `width_budget` columns. The mark stands outside the
/// budget, so that no value is long enough to push it away, and no value that fits holds it.
pub fn render_untrusted(raw: &str, width_budget: usize) -> (out: String)
    ensures
        out@ == rendering(raw@, width_budget as nat),
        (forall|i: int| 0 <= i < raw@.len() ==> 0x20 <= (#[trigger] raw@[i] as int) <= 0x7E) && raw@.len()
            <= width_budget && !text::has(raw@, CLIP_MARK@) ==> out@ == raw@,
{
    let cs = text::chars_of(raw);
    let mark = text::chars_of(CLIP_MARK);
    let mut chars: Vec<char> = Vec::new();
    let mut widths: Vec<Option<usize>> = Vec::new();
    let mut i: usize = 0;
    while i < cs.len()
        invariant
            i <= cs@.len(),
            cs@ == raw@,
            mark@ == CLIP_MARK@,
            chars@ == shown(raw@).take(i as int),
            widths@.len() == i,
            costs_of(widths@) == charges(chars@),
            forall|j: int|
                0 <= j < i && 0x20 <= (#[trigger] chars@[j] as int) <= 0x7E ==> display_width(chars@[j]) == Some(
                    1usize,
                ),
        decreases cs@.len() - i,
    {
        let rendered = if is_forbidden(cs[i]) || text::matches_at(&cs, &mark, i) {
            REPLACEMENT
        } else {
            cs[i]
        };
        let ghost chars0 = chars@;
        let ghost widths0 = widths@;
        chars.push(rendered);
        widths.push(width_of(rendered));
        i += 1;
        proof {
            assert(chars@ =~= shown(raw@).take(i as int));
            assert(costs_of(widths@) =~= costs_of(widths0).push(charge(display_width(rendered))));
            assert(charges(chars@) =~= charges(chars0).push(charge(display_width(rendered))));
        }
    }
    proof {
        assert(shown(raw@).take(raw@.len() as int) =~= shown(raw@));
        if (forall|j: int| 0 <= j < raw@.len() ==> 0x20 <= (#[trigger] raw@[j] as int) <= 0x7E) && raw@.len()
            <= width_budget && !text::has(raw@, CLIP_MARK@) {
            lemma_ascii_is_shown(raw@);
            law_printed_ascii_is_rendered_unchanged(raw@, width_budget as nat);
        }
    }
    clip_to_width(&chars, &widths, width_budget)
}

// ---- laws --------------------------------------------------------------------------------------

/// No character that may not be shown survives, whether the value was cut short or not.
pub proof fn law_nothing_hidden_survives(raw: Seq<char>, budget: nat)
    ensures
        forall|i: int|
            0 <= i < rendering(raw, budget).len() ==> !is_hidden(#[trigger] rendering(raw, budget)[i]),
{
    let chars = shown(raw);
    let k = fitting(charges(chars), budget);
    lemma_fitting_bounds(charges(chars), budget);
    reveal_strlit("[clipped by dig-node]");
    let out = rendering(raw, budget);
    assert forall|i: int| 0 <= i < out.len() implies !is_hidden(#[trigger] out[i]) by {
        if k == chars.len() || i < k {
            assert(out[i] == chars[i]);
            assert(chars[i] == stand_in(raw, i));
        } else {
            assert(out[i] == CLIP_MARK@[i - k]);
        }
    }
}

proof fn lemma_no_mark_is_shown(raw: Seq<char>)
    ensures
        !text::has(shown(raw), CLIP_MARK@),
{
    reveal_strlit("[clipped by dig-node]");
    let out = shown(raw);
    let m = CLIP_MARK@;
    if text::has(out, m) {
        let at = choose|at: int| #[trigger] text::occurs_at(out, m, at);
        assert forall|j: int| 0 <= j < m.len() implies raw[at + j] == m[j] by {
            assert(out.subrange(at, at + m.len())[j] == m[j]);
            assert(out[at + j] == stand_in(raw, at + j));
        }
        assert(raw.subrange(at, at + m.len()) =~= m);
        assert(out[at] == stand_in(raw, at));
        assert(out.subrange(at, at + m.len())[0] == m[0]);
    }
}

/// The mark is evidence: it occurs in what is shown exactly where the value was cut short, whatever
/// the value spells out. A value that fits is shown whole, and one that does not is followed by the
/// mark.
pub proof fn law_marked_exactly_when_cut_short(raw: Seq<char>, budget: nat)
    ensures
        text::has(rendering(raw, budget), CLIP_MARK@) <==> total(charges(shown(raw))) > budget,
        total(charges(shown(raw))) <= budget ==> rendering(raw, budget) == shown(raw),
        total(charges(shown(raw))) > budget ==> exists|k: int|
            0 <= k < raw.len() && #[trigger] shown(raw).take(k) + CLIP_MARK@ == rendering(
                raw,
                budget,
            ) && total(charges(shown(raw)).take(k)) <= budget && total(
                charges(shown(raw)).take(k + 1),
            ) > budget,
{
    let costs = charges(shown(raw));
    let k = fitting(costs, budget);
    let out = rendering(raw, budget);
    let m = CLIP_MARK@;
    lemma_fitting_bounds(costs, budget);
    if k < costs.len() {
        lemma_total_monotone(costs, k + 1);
        assert(shown(raw).take(k) + m == out);
        assert(out.subrange(k, k + m.len()) =~= m);
        assert(text::occurs_at(out, m, k));
    } else {
        assert(costs.take(k) =~= costs);
        lemma_no_mark_is_shown(raw);
    }
}

/// Only a mark is broken up: a value that neither spells one out nor holds a character that may not be
/// shown is shown as it is, where it fits.
pub proof fn law_an_honest_value_is_shown_as_it_is(raw: Seq<char>, budget: nat)
    requires
        !text::has(raw, CLIP_MARK@),
        forall|i: int| 0 <= i < raw.len() ==> !is_hidden(#[trigger] raw[i]),
        total(charges(raw)) <= budget,
    ensures
        rendering(raw, budget) == raw,
{
    assert(shown(raw) =~= raw) by {
        assert forall|i: int| 0 <= i < raw.len() implies shown(raw)[i] == raw[i] by {
            assert(!text::occurs_at(raw, CLIP_MARK@, i));
        }
    }
    law_marked_exactly_when_cut_short(raw, budget);
}

proof fn lemma_total_monotone(costs: Seq<nat>, k: int)
    requires
        0 <= k <= costs.len(),
    ensures
        total(costs.take(k)) <= total(costs),
    decreases costs.len(),
{
    if k == costs.len() {
        assert(costs.take(k) =~= costs);
    } else {
        lemma_total_monotone(costs.drop_last(), k);
        assert(costs.drop_last().take(k) =~= costs.take(k));
    }
}

/// No character is free: a value of more characters than the budget has columns is always marked, so
/// that characters which take no column cannot buy silence.
pub proof fn law_padding_is_charged(raw: Seq<char>, budget: nat)
    requires
        raw.len() > budget,
    ensures
        total(charges(shown(raw))) > budget,
{
    lemma_total_at_least_len(charges(shown(raw)));
}

proof fn lemma_total_at_least_len(costs: Seq<nat>)
    requires
        forall|i: int| 0 <= i < costs.len() ==> #[trigger] costs[i] >= 1,
    ensures
        total(costs) >= costs.len(),
    decreases costs.len(),
{
    if costs.len() > 0 {
        assert forall|i: int| 0 <= i < costs.drop_last().len() implies #[trigger] costs.drop_last()[i]
            >= 1 by {
            assert(costs.drop_last()[i] == costs[i]);
        }
        lemma_total_at_least_len(costs.drop_last());
    }
}

/// **Law: what may be shown.** Every printed ASCII character may, and so may every character above the
/// control characters that is no format character: Latin letters, Greek and Cyrillic ones, and the
/// scripts and pictures further up.
pub proof fn law_what_may_be_shown(c: char)
    ensures
        0x20 <= (c as int) <= 0x7E ==> !is_hidden(c),
        0xA0 <= (c as int) < 0x061C && c as int != 0x00AD ==> !is_hidden(c),
        0x061D <= (c as int) < 0x180E ==> !is_hidden(c),
        0x180F <= (c as int) < 0x200B ==> !is_hidden(c),
        0x2010 <= (c as int) < 0x202A ==> !is_hidden(c),
        0x202F <= (c as int) < 0x2060 ==> !is_hidden(c),
        0x2070 <= (c as int) < 0xFEFF ==> !is_hidden(c),
        0xFF00 <= (c as int) < 0xFFF9 ==> !is_hidden(c),
        0xFFFC <= (c as int) < 0x1D173 ==> !is_hidden(c),
        0x1D17B <= (c as int) < 0xE0000 ==> !is_hidden(c),
        c as int == 0x2065 ==> !is_hidden(c),
        0xE0080 <= (c as int) ==> !is_hidden(c),
        !is_hidden(REPLACEMENT),
{
}

/// **Law: what may never be shown.** Control characters, the marks and embeddings that reorder text, the
/// characters that take no column, and the tags that spell hidden text.
pub proof fn law_what_may_never_be_shown(c: char)
    ensures
        (c as int) < 0x20 || 0x7F <= (c as int) <= 0x9F ==> is_hidden(c),
        0x200E <= (c as int) <= 0x200F || 0x202A <= (c as int) <= 0x202E || 0x2066 <= (c as int) <= 0x2069 || c
            as int == 0x061C ==> is_hidden(c),
        0x200B <= (c as int) <= 0x200D || c as int == 0x2060 || c as int == 0xFEFF || c as int == 0x00AD
            ==> is_hidden(c),
        0xE0000 <= (c as int) <= 0xE007F || 0xFFF9 <= (c as int) <= 0xFFFB ==> is_hidden(c),
        c as int == 0x180E || 0x2060 <= (c as int) <= 0x2064 || 0x206A <= (c as int) <= 0x206F || 0x1D173 <= (
        c as int) <= 0x1D17A ==> is_hidden(c),
{
}

/// **Law: what is shown is what was sent.** Up to where the value was cut short, each character is the one
/// that was sent, or the replacement where that one may not be shown or begins a mark that the value
/// spells out; none is moved, and none is left out.
pub proof fn law_each_character_is_shown_or_replaced(raw: Seq<char>, budget: nat, i: int)
    requires
        0 <= i < raw.len(),
    ensures
        shown(raw).len() == raw.len(),
        is_hidden(raw[i]) ==> shown(raw)[i] == '\u{fffd}',
        !is_hidden(raw[i]) && !text::occurs_at(raw, "[clipped by dig-node]"@, i) ==> shown(raw)[i] == raw[i],
        exists|k: int|
            0 <= k <= raw.len() && (rendering(raw, budget) == #[trigger] shown(raw).take(k) + "[clipped by dig-node]"@
                || (k == raw.len() && rendering(raw, budget) == shown(raw))),
{
    let costs = charges(shown(raw));
    let k = fitting(costs, budget);
    lemma_fitting_bounds(costs, budget);
    assert(shown(raw).take(raw.len() as int) =~= shown(raw));
    assert(shown(raw).take(k) + CLIP_MARK@ == shown(raw).take(k) + "[clipped by dig-node]"@);
}

/// **Law: printed ASCII is rendered unchanged.** A text of printed ASCII characters that is no longer than
/// the budget, and does not spell the mark, is shown as it is, given that each of its characters takes
/// one column.
pub proof fn law_printed_ascii_is_rendered_unchanged(raw: Seq<char>, budget: nat)
    requires
        forall|i: int| 0 <= i < raw.len() ==> 0x20 <= (#[trigger] raw[i] as int) <= 0x7E,
        forall|i: int| 0 <= i < raw.len() ==> display_width(#[trigger] raw[i]) == Some(1usize),
        raw.len() <= budget,
        !text::has(raw, "[clipped by dig-node]"@),
    ensures
        rendering(raw, budget) == raw,
{
    lemma_total_of_ones(charges(raw));
    law_an_honest_value_is_shown_as_it_is(raw, budget);
}

proof fn lemma_ascii_is_shown(raw: Seq<char>)
    requires
        forall|i: int| 0 <= i < raw.len() ==> 0x20 <= (#[trigger] raw[i] as int) <= 0x7E,
        !text::has(raw, CLIP_MARK@),
    ensures
        shown(raw) == raw,
{
    assert forall|i: int| 0 <= i < raw.len() implies shown(raw)[i] == raw[i] by {
        assert(!text::occurs_at(raw, CLIP_MARK@, i));
        assert(!is_hidden(raw[i]));
    }
    assert(shown(raw) =~= raw);
}

proof fn lemma_total_of_ones(costs: Seq<nat>)
    requires
        forall|i: int| 0 <= i < costs.len() ==> #[trigger] costs[i] == 1,
    ensures
        total(costs) == costs.len(),
    decreases costs.len(),
{
    if costs.len() > 0 {
        lemma_total_of_ones(costs.drop_last());
    }
}

/// **Law: columns are charged as they are seen.** A character that takes a column or two is charged that
/// many, and one that takes none is charged one; the charges of a text add up.
pub proof fn law_columns_are_charged(w: usize, costs: Seq<nat>, c: nat)
    ensures
        w > 0 ==> charge(Some(w)) == w,
        charge(Some(0usize)) == 1,
        charge(None) == 1,
        total(Seq::empty()) == 0,
        total(costs.push(c)) == total(costs) + c,
{
    assert(costs.push(c).drop_last() =~= costs);
}

} // verus!
