//! Spend ids: the millisecond, a process-wide counter, and the process.
use crate::text;
use vstd::prelude::*;

verus! {

/// The id of the spend begun at `now_ms` as number `n` of process `process`.
pub open spec fn spend_id(now_ms: nat, n: nat, process: nat) -> Seq<char> {
    "sp_"@ + text::padded_left(text::decimal(now_ms), 13, '0') + "_"@ + text::padded_left(
        text::decimal(n % 1_000_000),
        6,
        '0',
    ) + "_"@ + text::decimal(process)
}

/// Hands out spend ids. One for each process, shared by everything that begins a spend there.
#[derive(Debug)]
pub struct IdSource {
    process: u32,
    next: u64,
}

impl IdSource {
    /// The process whose ids these are.
    pub closed spec fn owner(&self) -> u32 {
        self.process
    }

    /// How many ids were handed out so far.
    pub closed spec fn position(&self) -> u64 {
        self.next
    }

    /// The source of process `process`, with nothing handed out yet.
    pub fn new(process: u32) -> (r: Self)
        ensures
            r.owner() == process,
            r.position() == 0,
    {
        IdSource { process, next: 0 }
    }

    /// The id of a spend begun at `now_ms`. The counter moves on, so that the next spend of the same
    /// millisecond has another id.
    pub fn new_spend_id(&mut self, now_ms: u64) -> (id: String)
        ensures
            id@ == spend_id(now_ms as nat, old(self).position() as nat, old(self).owner() as nat),
            final(self).owner() == old(self).owner(),
            final(self).position() == old(self).position().wrapping_add(1),
    {
        let n: u64 = self.next;
        self.next = n.wrapping_add(1);
        let mut id = "sp_".to_owned();
        id.append(text::pad_left(text::number(now_ms).as_str(), 13, '0').as_str());
        id.append("_");
        id.append(text::pad_left(text::number(n % 1_000_000).as_str(), 6, '0').as_str());
        id.append("_");
        id.append(text::number(self.process as u64).as_str());
        id
    }
}

// ---- distinctness ------------------------------------------------------------------------------

/// The number that the digits of `s` write down.
pub open spec fn value_of(s: Seq<char>) -> int
    decreases s.len(),
{
    if s.len() == 0 {
        0
    } else {
        10 * value_of(s.drop_last()) + (s.last() as int - 0x30)
    }
}

proof fn lemma_value_of_decimal(n: nat)
    ensures
        value_of(text::decimal(n)) == n,
        !text::decimal(n).contains('_'),
    decreases n,
{
    let d = text::decimal(n);
    let last = (0x30 + n % 10) as char;
    assert(last as int == 0x30 + n % 10);
    if n < 10 {
        assert(d.drop_last() =~= Seq::<char>::empty());
        assert(value_of(d.drop_last()) == 0);
    } else {
        lemma_value_of_decimal(n / 10);
        let h = text::decimal(n / 10);
        assert(d.drop_last() =~= h);
        assert forall|i: int| 0 <= i < d.len() implies d[i] != '_' by {
            if i < h.len() {
                assert(d[i] == h[i]);
                assert(h.contains(h[i]));
            }
        }
    }
}

proof fn lemma_value_of_zeros(k: nat, s: Seq<char>)
    ensures
        value_of(Seq::new(k, |i: int| '0') + s) == value_of(s),
    decreases k, s.len(),
{
    let z = Seq::new(k, |i: int| '0');
    if s.len() > 0 {
        lemma_value_of_zeros(k, s.drop_last());
        assert((z + s).drop_last() =~= z + s.drop_last());
        assert((z + s).last() == s.last());
    } else if k > 0 {
        let y = Seq::new((k - 1) as nat, |i: int| '0');
        lemma_value_of_zeros((k - 1) as nat, s);
        assert((z + s).drop_last() =~= y + s);
        assert((z + s).last() == '0');
    } else {
        assert(z + s =~= s);
    }
}

proof fn lemma_padded_digits(n: nat, width: int)
    ensures
        value_of(text::padded_left(text::decimal(n), width, '0')) == n,
        !text::padded_left(text::decimal(n), width, '0').contains('_'),
{
    let d = text::decimal(n);
    lemma_value_of_decimal(n);
    if d.len() < width {
        let k = (width - d.len()) as nat;
        lemma_value_of_zeros(k, d);
        let p = text::padded_left(d, width, '0');
        assert forall|i: int| 0 <= i < p.len() implies p[i] != '_' by {
            if i >= k {
                assert(p[i] == d[i - k]);
                assert(d.contains(d[i - k]));
            }
        }
    }
}

proof fn lemma_split_at_underscore(a: Seq<char>, x: Seq<char>, b: Seq<char>, y: Seq<char>)
    requires
        a + "_"@ + x == b + "_"@ + y,
        !a.contains('_'),
        !b.contains('_'),
    ensures
        a == b,
        x == y,
{
    reveal_strlit("_");
    let s = a + "_"@ + x;
    let t = b + "_"@ + y;
    assert(s[a.len() as int] == '_');
    assert(t[b.len() as int] == '_');
    if a.len() < b.len() {
        assert(t[a.len() as int] == b[a.len() as int]);
        assert(b.contains(b[a.len() as int]));
    }
    if b.len() < a.len() {
        assert(s[b.len() as int] == a[b.len() as int]);
        assert(a.contains(a[b.len() as int]));
    }
    assert(a =~= s.take(a.len() as int));
    assert(b =~= t.take(b.len() as int));
    assert(x =~= s.skip(a.len() + 1int));
    assert(y =~= t.skip(b.len() + 1int));
}

proof fn lemma_split_id(
    a1: Seq<char>,
    b1: Seq<char>,
    c1: Seq<char>,
    a2: Seq<char>,
    b2: Seq<char>,
    c2: Seq<char>,
)
    requires
        "sp_"@ + a1 + "_"@ + b1 + "_"@ + c1 == "sp_"@ + a2 + "_"@ + b2 + "_"@ + c2,
        !a1.contains('_'),
        !a2.contains('_'),
        !b1.contains('_'),
        !b2.contains('_'),
    ensures
        a1 == a2,
        b1 == b2,
        c1 == c2,
{
    let x1 = b1 + "_"@ + c1;
    let x2 = b2 + "_"@ + c2;
    let s1 = "sp_"@ + a1 + "_"@ + b1 + "_"@ + c1;
    let s2 = "sp_"@ + a2 + "_"@ + b2 + "_"@ + c2;
    let prefix = "sp_"@.len() as int;
    assert(s1 =~= "sp_"@ + (a1 + "_"@ + x1));
    assert(s2 =~= "sp_"@ + (a2 + "_"@ + x2));
    assert(a1 + "_"@ + x1 =~= s1.skip(prefix));
    assert(a2 + "_"@ + x2 =~= s2.skip(prefix));
    lemma_split_at_underscore(a1, x1, a2, x2);
    lemma_split_at_underscore(b1, c1, b2, c2);
}

/// Two spend ids are equal only if they were begun in the same millisecond, at the same place of the
/// counter's cycle, by the same process: two spends of one millisecond are two records.
pub proof fn law_spend_ids_are_distinct(t1: nat, n1: nat, p1: nat, t2: nat, n2: nat, p2: nat)
    requires
        spend_id(t1, n1, p1) == spend_id(t2, n2, p2),
    ensures
        t1 == t2,
        n1 % 1_000_000 == n2 % 1_000_000,
        p1 == p2,
{
    lemma_padded_digits(t1, 13);
    lemma_padded_digits(t2, 13);
    lemma_padded_digits(n1 % 1_000_000, 6);
    lemma_padded_digits(n2 % 1_000_000, 6);
    lemma_value_of_decimal(p1);
    lemma_value_of_decimal(p2);
    lemma_split_id(
        text::padded_left(text::decimal(t1), 13, '0'),
        text::padded_left(text::decimal(n1 % 1_000_000), 6, '0'),
        text::decimal(p1),
        text::padded_left(text::decimal(t2), 13, '0'),
        text::padded_left(text::decimal(n2 % 1_000_000), 6, '0'),
        text::decimal(p2),
    );
}

proof fn lemma_decimal_is_short(n: nat)
    ensures
        n < 10 ==> text::decimal(n).len() == 1,
        n < 1_000_000 ==> text::decimal(n).len() <= 6,
        n < 10_000_000_000_000 ==> text::decimal(n).len() <= 13,
{
    lemma_decimal_width(n, 1);
    lemma_decimal_width(n, 6);
    lemma_decimal_width(n, 13);
    assert(power_of_ten(1) == 10 && power_of_ten(6) == 1_000_000 && power_of_ten(13) == 10_000_000_000_000) by {
        reveal_with_fuel(power_of_ten, 14);
    }
    text::law_numerals_are_positional(n);
}

spec fn power_of_ten(k: nat) -> nat
    decreases k,
{
    if k == 0 {
        1
    } else {
        10 * power_of_ten((k - 1) as nat)
    }
}

proof fn lemma_decimal_width(n: nat, k: nat)
    requires
        k > 0,
    ensures
        n < power_of_ten(k) ==> text::decimal(n).len() <= k,
    decreases k,
{
    text::law_numerals_are_positional(n);
    if n >= 10 && n < power_of_ten(k) {
        if k == 1 {
            assert(power_of_ten(1) == 10) by {
                reveal_with_fuel(power_of_ten, 2);
            }
        } else {
            assert(n / 10 < power_of_ten((k - 1) as nat));
            lemma_decimal_width(n / 10, (k - 1) as nat);
        }
    }
}

/// **Law: what a spend id is made of.** Until the year 2286 it is `sp_`, thirteen digits for the millisecond,
/// six for the count, and the process; so that ids of one process are of one length and sort by their time.
pub proof fn law_what_a_spend_id_is_made_of(now_ms: nat, n: nat, process: nat)
    requires
        now_ms < 10_000_000_000_000,
    ensures
        ({
            let id = spend_id(now_ms, n, process);
            &&& id.len() == 24 + text::decimal(process).len()
            &&& id[0] == 's' && id[1] == 'p' && id[2] == '_'
            &&& value_of(id.subrange(3, 16)) == now_ms
            &&& id[16] == '_'
            &&& value_of(id.subrange(17, 23)) == n % 1_000_000
            &&& id[23] == '_'
            &&& id.skip(24) == text::decimal(process)
        }),
{
    reveal_strlit("sp_");
    reveal_strlit("_");
    let a = text::padded_left(text::decimal(now_ms), 13, '0');
    let b = text::padded_left(text::decimal(n % 1_000_000), 6, '0');
    let p = text::decimal(process);
    lemma_decimal_is_short(now_ms);
    lemma_decimal_is_short(n % 1_000_000);
    text::law_padding_adds_fill_alone(text::decimal(now_ms), 13, '0');
    text::law_padding_adds_fill_alone(text::decimal(n % 1_000_000), 6, '0');
    lemma_padded_digits(now_ms, 13);
    lemma_padded_digits(n % 1_000_000, 6);
    let id = spend_id(now_ms, n, process);
    assert(a.len() == 13 && b.len() == 6);
    assert(id.subrange(3, 16) =~= a);
    assert(id.subrange(17, 23) =~= b);
    assert(id.skip(24) =~= p);
}

} // verus!
