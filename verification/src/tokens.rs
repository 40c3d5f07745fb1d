//! Small letters, words and numerals of a text.
use vstd::prelude::*;

use crate::text;

verus! {

/// `c` with an ASCII capital replaced by its small letter.
pub open spec fn small(c: char) -> char {
    if 0x41 <= (c as int) <= 0x5A {
        (c as int + 0x20) as char
    } else {
        c
    }
}

/// `s` with every ASCII capital replaced by its small letter.
pub open spec fn lowered(s: Seq<char>) -> Seq<char> {
    s.map_values(|c: char| small(c))
}

/// `s` with every ASCII capital replaced by its small letter.
pub fn to_ascii_lowercase(s: &str) -> (out: String)
    ensures
        out@ == lowered(s@),
{
    let cs = text::chars_of(s);
    let mut out = String::new();
    let mut i: usize = 0;
    while i < cs.len()
        invariant
            i <= cs@.len(),
            cs@ == s@,
            out@ == lowered(s@).take(i as int),
        decreases cs@.len() - i,
    {
        let c: char = cs[i];
        let n: u32 = text::code(c);
        if 0x41 <= n && n <= 0x5A {
            let l: u8 = n as u8 + 0x20;
            out.push(l as char);
        } else {
            out.push(c);
        }
        proof {
            assert(out@.last() == small(s@[i as int]));
            assert(lowered(s@)[i as int] == small(s@[i as int]));
            assert(lowered(s@).take(i + 1) =~= lowered(s@).take(i as int).push(
                lowered(s@)[i as int],
            ));
        }
        i += 1;
    }
    proof {
        assert(lowered(s@).take(s@.len() as int) =~= lowered(s@));
    }
    out
}

/// How many characters stand before the first white space of `s`.
pub open spec fn word_len(s: Seq<char>) -> int
    decreases s.len(),
{
    if s.len() == 0 || text::is_white(s[0]) {
        0
    } else {
        1 + word_len(s.skip(1))
    }
}

/// The words of `s`: its longest stretches without white space, in order.
pub open spec fn words_of(s: Seq<char>) -> Seq<Seq<char>>
    decreases s.len(),
{
    if s.len() == 0 {
        Seq::empty()
    } else if text::is_white(s[0]) {
        words_of(s.skip(1))
    } else if 0 < word_len(s) <= s.len() {
        seq![s.take(word_len(s))] + words_of(s.skip(word_len(s)))
    } else {
        Seq::empty()
    }
}

/// The words of `s`.
pub fn words(s: &str) -> (out: Vec<String>)
    ensures
        text::views(out@) == words_of(s@),
{
    let cs = text::chars_of(s);
    let mut out: Vec<String> = Vec::new();
    let mut from: usize = 0;
    proof {
        assert(s@.skip(0) =~= s@);
        assert(text::views(out@) + words_of(s@) =~= words_of(s@));
    }
    while from < cs.len()
        invariant
            from <= cs@.len(),
            cs@ == s@,
            text::views(out@) + words_of(s@.skip(from as int)) == words_of(s@),
        decreases cs@.len() - from,
    {
        let ghost rest = s@.skip(from as int);
        proof {
            assert(rest[0] == s@[from as int]);
        }
        if text::white(cs[from]) {
            proof {
                assert(rest.skip(1) =~= s@.skip(from + 1));
            }
            from += 1;
        } else {
            let mut to: usize = from;
            proof {
                assert(s@.skip(to as int) =~= rest);
            }
            while to < cs.len() && !text::white(cs[to])
                invariant
                    from <= to <= cs@.len(),
                    cs@ == s@,
                    word_len(rest) == to - from + word_len(s@.skip(to as int)),
                decreases cs@.len() - to,
            {
                proof {
                    assert(s@.skip(to as int).skip(1) =~= s@.skip(to + 1));
                }
                to += 1;
            }
            proof {
                assert(word_len(s@.skip(to as int)) == 0);
                assert(word_len(rest) == to - from);
                assert(to > from);
                assert(rest.take(to - from) =~= s@.subrange(from as int, to as int));
                assert(rest.skip(to - from) =~= s@.skip(to as int));
            }
            let word = text::string_of(&cs, from, to);
            let ghost before = text::views(out@);
            out.push(word);
            proof {
                assert(text::views(out@) =~= before.push(word@));
                assert(before.push(word@) + words_of(s@.skip(to as int)) =~= before + (
                seq![word@] + words_of(s@.skip(to as int))));
            }
            from = to;
        }
    }
    proof {
        assert(words_of(s@.skip(from as int)) =~= Seq::empty());
        assert(text::views(out@) + Seq::<Seq<char>>::empty() =~= text::views(out@));
    }
    out
}

/// Whether `c` is a decimal digit.
pub open spec fn is_digit(c: char) -> bool {
    0x30 <= (c as int) <= 0x39
}

/// Whether `c` is a decimal digit.
pub fn digit(c: char) -> (r: bool)
    ensures
        r == is_digit(c),
{
    let n: u32 = text::code(c);
    0x30 <= n && n <= 0x39
}

/// Whether `s` is one or more decimal digits.
pub open spec fn all_digits(s: Seq<char>) -> bool {
    s.len() > 0 && forall|i: int| 0 <= i < s.len() ==> is_digit(#[trigger] s[i])
}

/// The number that the digits `s` stand for.
pub open spec fn digits_value(s: Seq<char>) -> nat
    decreases s.len(),
{
    if s.len() == 0 {
        0
    } else {
        (digits_value(s.drop_last()) * 10 + (s.last() as int - 0x30)) as nat
    }
}

/// A numeral without the plus sign that may stand in front of it.
pub open spec fn unsigned_part(s: Seq<char>) -> Seq<char> {
    if s.len() > 1 && s[0] == '+' {
        s.skip(1)
    } else {
        s
    }
}

/// The number that the numeral `s` stands for, where it is a numeral and at most `max`.
pub open spec fn numeral(s: Seq<char>, max: nat) -> Option<nat> {
    let d = unsigned_part(s);
    if all_digits(d) && digits_value(d) <= max {
        Some(digits_value(d))
    } else {
        None
    }
}

proof fn lemma_digits_value_grows(s: Seq<char>, k: int)
    requires
        0 <= k <= s.len(),
        all_digits(s),
    ensures
        digits_value(s.take(k)) <= digits_value(s),
    decreases s.len() - k,
{
    if k == s.len() {
        assert(s.take(k) =~= s);
    } else {
        let t = s.take(k + 1);
        assert(t.drop_last() =~= s.take(k));
        assert(is_digit(s[k]));
        assert(t.last() == s[k]);
        assert(digits_value(t) >= digits_value(s.take(k)));
        lemma_digits_value_grows(s, k + 1);
    }
}

/// The number that the numeral `s` stands for, where it is a numeral and at most `max`.
pub fn parse_number(s: &str, max: u64) -> (r: Option<u64>)
    ensures
        r matches Some(n) ==> numeral(s@, max as nat) == Some(n as nat),
        r is None ==> numeral(s@, max as nat) is None,
{
    let cs = text::chars_of(s);
    let from: usize = if cs.len() > 1 && cs[0] == '+' {
        1
    } else {
        0
    };
    let ghost d = unsigned_part(s@);
    proof {
        assert(d =~= cs@.skip(from as int));
    }
    if cs.len() == from {
        return None;
    }
    let mut value: u64 = 0;
    let mut i: usize = from;
    while i < cs.len()
        invariant
            from <= i <= cs@.len(),
            from < cs@.len(),
            d == cs@.skip(from as int),
            d == unsigned_part(s@),
            forall|j: int| 0 <= j < i - from ==> is_digit(#[trigger] d[j]),
            value == digits_value(d.take(i - from)),
            value <= max,
        decreases cs@.len() - i,
    {
        let n: u32 = text::code(cs[i]);
        proof {
            assert(d[i - from] == cs@[i as int]);
            assert(d.take(i + 1 - from).drop_last() =~= d.take(i - from));
            assert(d.take(i + 1 - from).last() == d[i - from]);
        }
        if n < 0x30 || n > 0x39 {
            return None;
        }
        let wide: u128 = value as u128 * 10 + (n - 0x30) as u128;
        if wide > max as u128 {
            proof {
                if all_digits(d) {
                    lemma_digits_value_grows(d, i + 1 - from);
                }
            }
            return None;
        }
        value = wide as u64;
        i += 1;
    }
    proof {
        assert(d.take(d.len() as int) =~= d);
    }
    Some(value)
}

// ---- laws --------------------------------------------------------------------------------------

/// **Law: small letters.** An ASCII capital becomes the letter thirty-two places behind it, every other
/// character stays as it is, and nothing is lost: two texts are lowered alike exactly where they are the
/// same but for case.
pub proof fn law_lowering_changes_capitals_alone(a: Seq<char>, b: Seq<char>)
    ensures
        lowered(a).len() == a.len(),
        forall|i: int|
            0 <= i < a.len() ==> (#[trigger] lowered(a)[i]) as int == (if 0x41 <= (a[i] as int) <= 0x5A {
                a[i] as int + 0x20
            } else {
                a[i] as int
            }),
        lowered(a) == lowered(b) <==> text::same_but_ascii_case(a, b),
{
    if lowered(a) == lowered(b) {
        assert(lowered(a).len() == lowered(b).len());
        assert forall|i: int| 0 <= i < a.len() implies text::ascii_small(#[trigger] a[i])
            == text::ascii_small(b[i]) by {
            assert(lowered(a)[i] == lowered(b)[i]);
        }
    }
    if text::same_but_ascii_case(a, b) {
        assert forall|i: int| 0 <= i < a.len() implies lowered(a)[i] == lowered(b)[i] by {
            assert(text::ascii_small(a[i]) == text::ascii_small(b[i]));
        }
        assert(lowered(a) =~= lowered(b));
    }
}

/// **Law: a numeral reads back.** The decimal digits of a number stand for that number and no other, are
/// digits throughout, and begin with a zero for zero alone.
pub proof fn law_decimal_reads_back(n: nat)
    ensures
        digits_value(text::decimal(n)) == n,
        text::decimal(n).len() > 0,
        forall|i: int|
            0 <= i < text::decimal(n).len() ==> 0x30 <= (#[trigger] text::decimal(n)[i] as int) <= 0x39,
        text::decimal(n)[0] == '0' <==> n == 0,
        forall|max: nat| n <= max ==> #[trigger] numeral(text::decimal(n), max) == Some(n),
    decreases n,
{
    let d = text::decimal(n);
    if n >= 10 {
        law_decimal_reads_back(n / 10);
        let head = text::decimal(n / 10);
        assert(d.drop_last() =~= head);
        assert(d[0] == head[0]);
        assert forall|i: int| 0 <= i < d.len() implies 0x30 <= (#[trigger] d[i] as int) <= 0x39 by {
            if i < d.len() - 1 {
                assert(d[i] == head[i]);
            }
        }
    } else {
        assert(d.drop_last() =~= Seq::empty());
        assert(digits_value(d.drop_last()) == 0);
    }
    assert(d[0] != '+');
    assert forall|i: int| 0 <= i < d.len() implies is_digit(#[trigger] d[i]) by {}
    assert(all_digits(d));
    assert(unsigned_part(d) == d);
}

/// **Law: two numbers, two numerals.**
pub proof fn law_decimals_tell_numbers_apart(a: nat, b: nat)
    requires
        text::decimal(a) == text::decimal(b),
    ensures
        a == b,
{
    law_decimal_reads_back(a);
    law_decimal_reads_back(b);
}

/// **Law: what a numeral is.** It is decimal digits, with or without a plus sign in front; each digit
/// counts ten times what the next one does; nothing above the limit is read, and nothing else is.
pub proof fn law_what_a_numeral_is(s: Seq<char>, c: char, max: nat)
    ensures
        numeral(s, max) matches Some(n) ==> n <= max && s.len() > 0 && forall|i: int|
            0 <= i < s.len() ==> 0x30 <= (#[trigger] s[i] as int) <= 0x39 || (i == 0 && s[0] == '+'),
        s.len() > 0 && digits_value(s) <= max && (forall|i: int|
            0 <= i < s.len() ==> 0x30 <= (#[trigger] s[i] as int) <= 0x39) ==> numeral(s, max) == Some(
            digits_value(s),
        ) && numeral(seq!['+'] + s, max) == Some(digits_value(s)),
        0x30 <= (c as int) <= 0x39 ==> digits_value(s.push(c)) == digits_value(s) * 10 + (c as int - 0x30),
        digits_value(Seq::empty()) == 0,
{
    assert(s.push(c).drop_last() =~= s);
    if numeral(s, max) is Some {
        let d = unsigned_part(s);
        assert forall|i: int| 0 <= i < s.len() implies 0x30 <= (#[trigger] s[i] as int) <= 0x39 || (i == 0
            && s[0] == '+') by {
            if d == s {
                assert(is_digit(d[i]));
            } else if i > 0 {
                assert(d[i - 1] == s[i]);
                assert(is_digit(d[i - 1]));
            }
        }
    }
    if s.len() > 0 && digits_value(s) <= max && (forall|i: int|
        0 <= i < s.len() ==> 0x30 <= (#[trigger] s[i] as int) <= 0x39) {
        assert forall|i: int| 0 <= i < s.len() implies is_digit(#[trigger] s[i]) by {}
        assert(unsigned_part(s) == s);
        assert((seq!['+'] + s).skip(1) =~= s);
        assert((seq!['+'] + s)[0] == '+');
    }
}

/// **Law: words stand between white space.** A text without white space is one word, white space in
/// front of it is passed over, and what is behind the white space after it are the other words.
pub proof fn law_words_stand_between_white_space(w: Seq<char>, b: char, rest: Seq<char>)
    requires
        w.len() > 0,
        forall|i: int| 0 <= i < w.len() ==> !text::is_white(#[trigger] w[i]),
        text::is_white(b),
    ensures
        words_of(w) == seq![w],
        words_of(w + seq![b] + rest) == seq![w] + words_of(rest),
        words_of(seq![b] + rest) == words_of(rest),
        words_of(Seq::empty()).len() == 0,
{
    lemma_word_len(w, Seq::empty());
    assert(w + Seq::<char>::empty() =~= w);
    assert(w.take(w.len() as int) =~= w);
    assert(w.skip(w.len() as int) =~= Seq::empty());
    assert(words_of(Seq::empty()) =~= Seq::empty());
    assert(words_of(w) =~= seq![w]);
    let s = w + seq![b] + rest;
    lemma_word_len(w, seq![b] + rest);
    assert(w + (seq![b] + rest) =~= s);
    assert(s.take(w.len() as int) =~= w);
    assert(s.skip(w.len() as int) =~= seq![b] + rest);
    assert((seq![b] + rest).skip(1) =~= rest);
    assert((seq![b] + rest)[0] == b);
    assert(words_of(seq![b] + rest) == words_of(rest));
    assert(s[0] == w[0]);
    assert(words_of(s) == seq![w] + words_of(seq![b] + rest));
}

proof fn lemma_word_len(w: Seq<char>, tail: Seq<char>)
    requires
        forall|i: int| 0 <= i < w.len() ==> !text::is_white(#[trigger] w[i]),
        tail.len() > 0 ==> text::is_white(tail[0]),
    ensures
        word_len(w + tail) == w.len(),
    decreases w.len(),
{
    if w.len() > 0 {
        lemma_word_len(w.skip(1), tail);
        assert((w + tail).skip(1) =~= w.skip(1) + tail);
        assert((w + tail)[0] == w[0]);
    } else {
        assert(w + tail =~= tail);
    }
}

} // verus!
