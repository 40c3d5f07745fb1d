//! Addresses: an IP address as its numbers, the loopback question, and the text of each.
use vstd::prelude::*;

use crate::text;

verus! {

/// An IP address.
#[derive(Debug, Clone, Copy, PartialEq, Eq)]
pub enum Ip {
    /// The four bytes, most significant first.
    V4(u8, u8, u8, u8),
    /// The eight groups, most significant first.
    V6([u16; 8]),
}

/// An address a socket is bound to or connected from.
#[derive(Debug, Clone, Copy, PartialEq, Eq)]
pub struct Endpoint {
    pub ip: Ip,
    pub port: u16,
}

/// `127.0.0.1`.
pub open spec fn localhost() -> Ip {
    Ip::V4(127, 0, 0, 1)
}

/// Whether `g` carries an IPv4 address: eighty zero bits, then sixteen one bits.
pub open spec fn is_mapped(g: Seq<u16>) -> bool {
    &&& g.len() == 8
    &&& forall|i: int| 0 <= i < 5 ==> #[trigger] g[i] == 0
    &&& g[5] == 0xffff
}

/// Whether `g` is `::1`.
pub open spec fn is_one(g: Seq<u16>) -> bool {
    &&& g.len() == 8
    &&& forall|i: int| 0 <= i < 7 ==> #[trigger] g[i] == 0
    &&& g[7] == 1
}

/// Whether the address is the machine itself: `127.0.0.0/8`, `::1`, or an IPv6 address that carries
/// one of `127.0.0.0/8`.
pub open spec fn loops_back(ip: Ip) -> bool {
    match ip {
        Ip::V4(a, b, c, d) => a == 127,
        Ip::V6(g) => is_one(g@) || (is_mapped(g@) && g@[6] / 256 == 127),
    }
}

/// Four numbers between dots.
pub open spec fn dotted(a: nat, b: nat, c: nat, d: nat) -> Seq<char> {
    text::decimal(a) + "."@ + text::decimal(b) + "."@ + text::decimal(c) + "."@ + text::decimal(d)
}

/// How many groups from `i` on are zero without a gap.
pub open spec fn zeros_from(g: Seq<u16>, i: int) -> nat
    decreases g.len() - i,
{
    if 0 <= i < g.len() && g[i] == 0 {
        1 + zeros_from(g, i + 1)
    } else {
        0
    }
}

/// Of the first `k` places, the first one with the longest run of zeros.
pub open spec fn best_gap(g: Seq<u16>, k: nat) -> int
    decreases k,
{
    if k == 0 {
        0
    } else {
        let b = best_gap(g, (k - 1) as nat);
        if zeros_from(g, k - 1) > zeros_from(g, b) {
            k - 1
        } else {
            b
        }
    }
}

/// The groups in hexadecimal, between colons.
pub open spec fn colons(g: Seq<u16>) -> Seq<char> {
    text::joined(g.map_values(|n: u16| text::hex(n as nat)), ":"@)
}

/// The text of an IPv6 address: an address that carries an IPv4 one shows it in dotted form;
/// otherwise the first longest run of two or more zero groups is written `::`.
pub open spec fn text_of_groups(g: Seq<u16>) -> Seq<char> {
    let at = best_gap(g, g.len());
    let gap = zeros_from(g, at) as int;
    if is_mapped(g) {
        "::ffff:"@ + dotted(
            (g[6] / 256) as nat,
            (g[6] % 256) as nat,
            (g[7] / 256) as nat,
            (g[7] % 256) as nat,
        )
    } else if gap > 1 {
        colons(g.take(at)) + "::"@ + colons(g.skip(at + gap))
    } else {
        colons(g)
    }
}

/// The text of an address.
pub open spec fn text_of(ip: Ip) -> Seq<char> {
    match ip {
        Ip::V4(a, b, c, d) => dotted(a as nat, b as nat, c as nat, d as nat),
        Ip::V6(g) => text_of_groups(g@),
    }
}

/// The text of an address with its port; an IPv6 address stands in brackets.
pub open spec fn endpoint_text(e: Endpoint) -> Seq<char> {
    match e.ip {
        Ip::V4(a, b, c, d) => text_of(e.ip) + ":"@ + text::decimal(e.port as nat),
        Ip::V6(g) => "["@ + text_of(e.ip) + "]:"@ + text::decimal(e.port as nat),
    }
}

fn count_zeros(g: &[u16; 8], i: usize) -> (n: usize)
    requires
        i <= 8,
    ensures
        n == zeros_from(g@, i as int),
        i + n <= 8,
    decreases 8 - i,
{
    if i < 8 && g[i] == 0 {
        let rest: usize = count_zeros(g, i + 1);
        rest + 1
    } else {
        0
    }
}

fn mapped(g: &[u16; 8]) -> (r: bool)
    ensures
        r == is_mapped(g@),
{
    g[0] == 0 && g[1] == 0 && g[2] == 0 && g[3] == 0 && g[4] == 0 && g[5] == 0xffff
}

fn dotted_text(a: u8, b: u8, c: u8, d: u8) -> (out: String)
    ensures
        out@ == dotted(a as nat, b as nat, c as nat, d as nat),
{
    let mut out = text::number(a as u64);
    out.append(".");
    out.append(text::number(b as u64).as_str());
    out.append(".");
    out.append(text::number(c as u64).as_str());
    out.append(".");
    out.append(text::number(d as u64).as_str());
    out
}

fn colons_text(g: &[u16; 8], from: usize, to: usize) -> (out: String)
    requires
        from <= to <= 8,
    ensures
        out@ == colons(g@.subrange(from as int, to as int)),
{
    let mut parts: Vec<String> = Vec::new();
    let ghost span = g@.subrange(from as int, to as int);
    let ghost want = span.map_values(|n: u16| text::hex(n as nat));
    let mut i: usize = from;
    while i < to
        invariant
            from <= i <= to <= 8,
            span == g@.subrange(from as int, to as int),
            want == span.map_values(|n: u16| text::hex(n as nat)),
            text::views(parts@) == want.take(i - from),
        decreases to - i,
    {
        let ghost before = parts@;
        parts.push(text::hex_number(g[i] as u32));
        proof {
            assert(span[i - from] == g@[i as int]);
            assert(text::views(parts@) =~= text::views(before).push(want[i - from]));
            assert(text::views(parts@) =~= want.take(i + 1 - from));
        }
        i += 1;
    }
    proof {
        assert(text::views(parts@) =~= want);
    }
    text::join(&parts, ":")
}

impl Ip {
    /// Whether the address is the machine itself. An IPv6 address that carries an IPv4 one is judged
    /// by the address it carries, as a socket bound to every address reports a local client that way.
    pub fn is_loopback(&self) -> (r: bool)
        ensures
            r == loops_back(*self),
    {
        match self {
            Ip::V4(a, _, _, _) => *a == 127,
            Ip::V6(g) => {
                let one = g[0] == 0 && g[1] == 0 && g[2] == 0 && g[3] == 0 && g[4] == 0 && g[5] == 0
                    && g[6] == 0 && g[7] == 1;
                one || (mapped(g) && g[6] / 256 == 127)
            },
        }
    }

    /// The text of the address.
    pub fn to_text(&self) -> (out: String)
        ensures
            out@ == text_of(*self),
    {
        match self {
            Ip::V4(a, b, c, d) => dotted_text(*a, *b, *c, *d),
            Ip::V6(g) => {
                if mapped(g) {
                    let mut out = "::ffff:".to_owned();
                    out.append(
                        dotted_text(
                            (g[6] / 256) as u8,
                            (g[6] % 256) as u8,
                            (g[7] / 256) as u8,
                            (g[7] % 256) as u8,
                        ).as_str(),
                    );
                    return out;
                }
                let mut at: usize = 0;
                let mut gap: usize = count_zeros(g, 0);
                let mut k: usize = 0;
                while k < 8
                    invariant
                        k <= 8,
                        at <= 8,
                        at == best_gap(g@, k as nat),
                        gap == zeros_from(g@, at as int),
                        at + gap <= 8,
                    decreases 8 - k,
                {
                    let run: usize = count_zeros(g, k);
                    if run > gap {
                        at = k;
                        gap = run;
                    }
                    k += 1;
                }
                if gap > 1 {
                    let mut out = colons_text(g, 0, at);
                    out.append("::");
                    out.append(colons_text(g, at + gap, 8).as_str());
                    proof {
                        assert(g@.take(at as int) =~= g@.subrange(0, at as int));
                        assert(g@.skip(at + gap) =~= g@.subrange(at + gap, 8));
                    }
                    out
                } else {
                    proof {
                        assert(g@.subrange(0, 8) =~= g@);
                    }
                    colons_text(g, 0, 8)
                }
            },
        }
    }
}

impl Endpoint {
    /// The text of the address and its port.
    pub fn to_text(&self) -> (out: String)
        ensures
            out@ == endpoint_text(*self),
    {
        match self.ip {
            Ip::V4(_, _, _, _) => {
                let mut out = self.ip.to_text();
                out.append(":");
                out.append(text::number(self.port as u64).as_str());
                out
            },
            Ip::V6(_) => {
                let mut out = "[".to_owned();
                out.append(self.ip.to_text().as_str());
                out.append("]:");
                out.append(text::number(self.port as u64).as_str());
                out
            },
        }
    }
}

// ---- laws --------------------------------------------------------------------------------------

/// **Law: which addresses are the machine itself.** Of the short ones, those whose first number is 127;
/// of the long ones, the one whose groups are zero but for a last one, and those that carry a short
/// address which is the machine itself. No other is.
pub proof fn law_what_loops_back(a: u8, b: u8, c: u8, d: u8, g: [u16; 8])
    ensures
        loops_back(Ip::V4(a, b, c, d)) <==> a == 127,
        g@ == seq![0u16, 0, 0, 0, 0, 0, 0, 1] ==> loops_back(Ip::V6(g)),
        loops_back(Ip::V6(g)) ==> g@[0] == 0 && g@[1] == 0 && g@[2] == 0 && g@[3] == 0 && g@[4] == 0,
        g@[0] == 0 && g@[1] == 0 && g@[2] == 0 && g@[3] == 0 && g@[4] == 0 && g@[5] == 0xffff ==> (
        loops_back(Ip::V6(g)) <==> g@[6] / 256 == 127),
        g@[5] != 0xffff && loops_back(Ip::V6(g)) ==> g@[5] == 0 && g@[6] == 0 && g@[7] == 1,
{
    let s = g@;
    if g@ == seq![0u16, 0, 0, 0, 0, 0, 0, 1] {
        assert(is_one(s));
    }
    if s[0] == 0 && s[1] == 0 && s[2] == 0 && s[3] == 0 && s[4] == 0 && s[5] == 0xffff {
        assert forall|i: int| 0 <= i < 5 implies #[trigger] s[i] == 0 by {
            assert(i == 0 || i == 1 || i == 2 || i == 3 || i == 4);
        }
        assert(is_mapped(s));
    }
}

proof fn lemma_split_at(a: Seq<char>, b: Seq<char>, x: Seq<char>, y: Seq<char>, c: char)
    requires
        !a.contains(c),
        !b.contains(c),
        a + seq![c] + x == b + seq![c] + y,
    ensures
        a == b,
        x == y,
{
    let l = a + seq![c] + x;
    let r = b + seq![c] + y;
    assert(l[a.len() as int] == c && r[b.len() as int] == c);
    if a.len() < b.len() {
        assert(b[a.len() as int] == c);
        assert(b.contains(c));
    }
    if b.len() < a.len() {
        assert(a[b.len() as int] == c);
        assert(a.contains(c));
    }
    assert(a =~= l.take(a.len() as int));
    assert(b =~= r.take(a.len() as int));
    assert(x =~= l.skip(a.len() as int + 1));
    assert(y =~= r.skip(a.len() as int + 1));
}

/// A numeral holds neither a dot nor a colon.
pub proof fn lemma_decimal_holds_digits_alone(n: nat)
    ensures
        !text::decimal(n).contains('.'),
        !text::decimal(n).contains(':'),
{
    crate::tokens::law_decimal_reads_back(n);
    let d = text::decimal(n);
    if d.contains('.') {
        let i = choose|i: int| 0 <= i < d.len() && d[i] == '.';
        assert(0x30 <= (d[i] as int) <= 0x39);
    }
    if d.contains(':') {
        let i = choose|i: int| 0 <= i < d.len() && d[i] == ':';
        assert(0x30 <= (d[i] as int) <= 0x39);
    }
}

/// **Law: two addresses, two texts.** The text of a short address is its four numbers between dots, so
/// that two different ones are never written alike; and two that differ in the port alone differ too.
pub proof fn law_addresses_are_told_apart(
    a: u8,
    b: u8,
    c: u8,
    d: u8,
    e: u8,
    f: u8,
    g: u8,
    h: u8,
    p: u16,
    q: u16,
)
    ensures
        text_of(Ip::V4(a, b, c, d)) == text::decimal(a as nat) + seq!['.'] + (text::decimal(b as nat) + seq![
            '.',
        ] + (text::decimal(c as nat) + seq!['.'] + text::decimal(d as nat))),
        text_of(Ip::V4(a, b, c, d)) == text_of(Ip::V4(e, f, g, h)) ==> a == e && b == f && c == g && d == h,
        endpoint_text(Endpoint { ip: Ip::V4(a, b, c, d), port: p }) == text_of(Ip::V4(a, b, c, d)) + seq![':']
            + text::decimal(p as nat),
        endpoint_text(Endpoint { ip: Ip::V4(a, b, c, d), port: p }) == endpoint_text(
            Endpoint { ip: Ip::V4(a, b, c, d), port: q },
        ) ==> p == q,
{
    reveal_strlit(".");
    reveal_strlit(":");
    let (da, db, dc, dd) = (
        text::decimal(a as nat),
        text::decimal(b as nat),
        text::decimal(c as nat),
        text::decimal(d as nat),
    );
    let (de, df, dg, dh) = (
        text::decimal(e as nat),
        text::decimal(f as nat),
        text::decimal(g as nat),
        text::decimal(h as nat),
    );
    let one = text_of(Ip::V4(a, b, c, d));
    let two = text_of(Ip::V4(e, f, g, h));
    assert("."@ =~= seq!['.']);
    assert(":"@ =~= seq![':']);
    assert(one =~= da + seq!['.'] + (db + seq!['.'] + (dc + seq!['.'] + dd)));
    assert(two =~= de + seq!['.'] + (df + seq!['.'] + (dg + seq!['.'] + dh)));
    lemma_decimal_holds_digits_alone(a as nat);
    lemma_decimal_holds_digits_alone(b as nat);
    lemma_decimal_holds_digits_alone(c as nat);
    lemma_decimal_holds_digits_alone(e as nat);
    lemma_decimal_holds_digits_alone(f as nat);
    lemma_decimal_holds_digits_alone(g as nat);
    if one == two {
        lemma_split_at(da, de, db + seq!['.'] + (dc + seq!['.'] + dd), df + seq!['.'] + (dg + seq!['.'] + dh), '.');
        lemma_split_at(db, df, dc + seq!['.'] + dd, dg + seq!['.'] + dh, '.');
        lemma_split_at(dc, dg, dd, dh, '.');
        crate::tokens::law_decimals_tell_numbers_apart(a as nat, e as nat);
        crate::tokens::law_decimals_tell_numbers_apart(b as nat, f as nat);
        crate::tokens::law_decimals_tell_numbers_apart(c as nat, g as nat);
        crate::tokens::law_decimals_tell_numbers_apart(d as nat, h as nat);
    }
    let x = one + seq![':'] + text::decimal(p as nat);
    let y = one + seq![':'] + text::decimal(q as nat);
    if x == y {
        assert(text::decimal(p as nat) =~= x.skip(one.len() as int + 1));
        assert(text::decimal(q as nat) =~= y.skip(one.len() as int + 1));
        crate::tokens::law_decimals_tell_numbers_apart(p as nat, q as nat);
    }
}

/// **Law: a long address is its groups.** Where it carries a short one, the text ends with that one's;
/// otherwise it is the groups in hexadecimal between colons, where one run of zeros may be left out: a
/// run of two or more that no other run is longer than, and the first of its length. The port follows
/// the address in brackets.
pub proof fn law_a_long_address_is_its_groups(g: [u16; 8], p: u16)
    ensures
        is_mapped(g@) ==> text_of(Ip::V6(g)) == "::ffff:"@ + text_of(
            Ip::V4((g@[6] / 256) as u8, (g@[6] % 256) as u8, (g@[7] / 256) as u8, (g@[7] % 256) as u8),
        ),
        !is_mapped(g@) ==> text_of(Ip::V6(g)) == colons(g@) || exists|at: int, to: int|
            0 <= at && at + 2 <= to <= 8 && (forall|i: int| at <= i < to ==> #[trigger] g@[i] == 0)
                && text_of(Ip::V6(g)) == #[trigger] colons(g@.take(at)) + "::"@ + #[trigger] colons(g@.skip(to)),
        !is_mapped(g@) && (forall|i: int| 0 <= i < 7 ==> #[trigger] g@[i] != 0 || g@[i + 1] != 0)
            ==> text_of(Ip::V6(g)) == colons(g@),
        endpoint_text(Endpoint { ip: Ip::V6(g), port: p }) == seq!['['] + text_of(Ip::V6(g)) + seq![']', ':']
            + text::decimal(p as nat),
{
    reveal_strlit("[");
    reveal_strlit("]:");
    assert("["@ =~= seq!['[']);
    assert("]:"@ =~= seq![']', ':']);
    let s = g@;
    let at = best_gap(s, s.len());
    lemma_best_gap(s, s.len());
    lemma_zeros_from(s, at);
    let gap = zeros_from(s, at) as int;
    if !is_mapped(s) && gap > 1 {
        assert(colons(s.take(at)) + "::"@ + colons(s.skip(at + gap)) == text_of(Ip::V6(g)));
        assert(s[at] == 0 && s[at + 1] == 0);
    }
}

proof fn lemma_zeros_from(g: Seq<u16>, i: int)
    requires
        0 <= i <= g.len(),
    ensures
        i + zeros_from(g, i) <= g.len(),
        forall|k: int| i <= k < i + zeros_from(g, i) ==> #[trigger] g[k] == 0,
        i + zeros_from(g, i) < g.len() ==> g[i + zeros_from(g, i)] != 0,
    decreases g.len() - i,
{
    if i < g.len() && g[i] == 0 {
        lemma_zeros_from(g, i + 1);
    }
}

proof fn lemma_best_gap(g: Seq<u16>, k: nat)
    requires
        k <= g.len(),
    ensures
        0 <= best_gap(g, k) <= g.len(),
        k > 0 ==> best_gap(g, k) < k,
        forall|i: int| 0 <= i < k ==> #[trigger] zeros_from(g, i) <= zeros_from(g, best_gap(g, k)),
        forall|i: int| 0 <= i < best_gap(g, k) ==> #[trigger] zeros_from(g, i) < zeros_from(g, best_gap(g, k)),
    decreases k,
{
    if k > 0 {
        lemma_best_gap(g, (k - 1) as nat);
    }
}

/// **Law: the longest run of zeros is the one left out, and of runs as long the first.**
pub proof fn law_the_longest_gap_is_left_out(g: Seq<u16>, i: int)
    requires
        0 <= i < g.len(),
    ensures
        zeros_from(g, i) <= zeros_from(g, best_gap(g, g.len())),
        i < best_gap(g, g.len()) ==> zeros_from(g, i) < zeros_from(g, best_gap(g, g.len())),
        0 <= best_gap(g, g.len()) < g.len(),
        forall|k: int| i <= k < i + zeros_from(g, i) ==> k < g.len() && #[trigger] g[k] == 0,
        i + zeros_from(g, i) < g.len() ==> g[i + zeros_from(g, i)] != 0,
{
    lemma_best_gap(g, g.len());
    lemma_zeros_from(g, i);
}

/// **Law: the two kinds of address are never written alike.** A long one holds a colon, a short one holds
/// none.
pub proof fn law_kinds_of_address_are_told_apart(a: u8, b: u8, c: u8, d: u8, g: [u16; 8])
    ensures
        !text_of(Ip::V4(a, b, c, d)).contains(':'),
        text_of(Ip::V6(g)).contains(':'),
{
    reveal_strlit(".");
    reveal_strlit(":");
    reveal_strlit("::");
    reveal_strlit("::ffff:");
    lemma_decimal_holds_digits_alone(a as nat);
    lemma_decimal_holds_digits_alone(b as nat);
    lemma_decimal_holds_digits_alone(c as nat);
    lemma_decimal_holds_digits_alone(d as nat);
    lemma_joins_hold_no_more(text::decimal(a as nat), "."@, ':');
    lemma_joins_hold_no_more(text::decimal(a as nat) + "."@, text::decimal(b as nat), ':');
    lemma_joins_hold_no_more(text::decimal(a as nat) + "."@ + text::decimal(b as nat), "."@, ':');
    lemma_joins_hold_no_more(
        text::decimal(a as nat) + "."@ + text::decimal(b as nat) + "."@,
        text::decimal(c as nat),
        ':',
    );
    lemma_joins_hold_no_more(
        text::decimal(a as nat) + "."@ + text::decimal(b as nat) + "."@ + text::decimal(c as nat),
        "."@,
        ':',
    );
    lemma_joins_hold_no_more(
        text::decimal(a as nat) + "."@ + text::decimal(b as nat) + "."@ + text::decimal(c as nat) + "."@,
        text::decimal(d as nat),
        ':',
    );
    let s = g@;
    let t = text_of(Ip::V6(g));
    let at = best_gap(s, s.len());
    let gap = zeros_from(s, at) as int;
    if is_mapped(s) {
        assert(t[0] == ':');
    } else if gap > 1 {
        assert(t[colons(s.take(at)).len() as int] == ':');
    } else {
        let list = s.map_values(|n: u16| text::hex(n as nat));
        assert(t == text::joined(list, ":"@));
        assert(t == text::joined(list.drop_last(), ":"@) + ":"@ + list.last());
        assert(t[text::joined(list.drop_last(), ":"@).len() as int] == ':');
    }
}

proof fn lemma_joins_hold_no_more(a: Seq<char>, b: Seq<char>, c: char)
    requires
        !a.contains(c),
        !b.contains(c),
    ensures
        !(a + b).contains(c),
{
    let s = a + b;
    if s.contains(c) {
        let i = choose|i: int| 0 <= i < s.len() && s[i] == c;
        if i < a.len() {
            assert(a[i] == c);
        } else {
            assert(b[i - a.len()] == c);
        }
    }
}

} // verus!
