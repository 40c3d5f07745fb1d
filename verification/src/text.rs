//! Text primitives, stated over the character sequence of a string.
//!
//! Every rule this library decides is a rule about characters, so the primitives the rules are
//! built from (trimming, splitting into lines, searching, ordering, decimal rendering) are defined
//! here once as functions on `Seq<char>` and implemented against those definitions.
use vstd::prelude::*;

verus! {

/// `String::push` appends one character to the end of the string.
pub assume_specification[ String::push ](s: &mut String, c: char)
    ensures
        final(s)@ == old(s)@.push(c),
;

/// The views of a list of strings.
pub open spec fn views(list: Seq<String>) -> Seq<Seq<char>> {
    Seq::new(list.len(), |i: int| list[i]@)
}

/// The view of an optional string.
pub open spec fn opt_view(s: Option<String>) -> Option<Seq<char>> {
    match s {
        Some(t) => Some(t@),
        None => None,
    }
}

/// The view of an optional string slice.
pub open spec fn opt_str_view(s: Option<&str>) -> Option<Seq<char>> {
    match s {
        Some(t) => Some(t@),
        None => None,
    }
}

/// The characters of `s`, in order.
pub fn chars_of(s: &str) -> (out: Vec<char>)
    ensures
        out@ == s@,
{
    let mut out: Vec<char> = Vec::new();
    for c in it: s.chars()
        invariant
            out@ == s@.take(it.index() as int),
            it.seq() == s@,
    {
        proof {
            assert(s@.take(it.index() + 1) =~= s@.take(it.index() as int).push(c));
        }
        out.push(c);
    }
    proof {
        assert(s@.take(s@.len() as int) =~= s@);
    }
    out
}

/// The string holding exactly `chars[from..to]`.
pub fn string_of(chars: &Vec<char>, from: usize, to: usize) -> (out: String)
    requires
        from <= to <= chars@.len(),
    ensures
        out@ == chars@.subrange(from as int, to as int),
{
    let mut out = String::new();
    let mut i: usize = from;
    while i < to
        invariant
            from <= i <= to <= chars@.len(),
            out@ == chars@.subrange(from as int, i as int),
        decreases to - i,
    {
        out.push(chars[i]);
        i += 1;
        proof {
            assert(chars@.subrange(from as int, i as int) =~= chars@.subrange(
                from as int,
                i - 1,
            ).push(chars@[i - 1]));
        }
    }
    out
}

/// Whether two strings hold the same characters.
pub fn same(a: &str, b: &str) -> (r: bool)
    ensures
        r == (a@ == b@),
{
    a.to_owned() == b.to_owned()
}

/// A list with one more text holds that text and what it held.
pub proof fn lemma_push_contains(s: Seq<Seq<char>>, x: Seq<char>)
    ensures
        forall|y: Seq<char>| #[trigger] s.push(x).contains(y) <==> s.contains(y) || y == x,
{
    assert forall|y: Seq<char>| #[trigger] s.push(x).contains(y) <==> s.contains(y) || y == x by {
        if s.contains(y) {
            let k = choose|k: int| 0 <= k < s.len() && s[k] == y;
            assert(s.push(x)[k] == y);
        }
        if y == x {
            assert(s.push(x)[s.len() as int] == y);
        }
    }
}

/// Whether `list` holds a string with the characters of `s`.
pub fn list_contains(list: &Vec<String>, s: &str) -> (r: bool)
    ensures
        r == views(list@).contains(s@),
{
    let mut i: usize = 0;
    while i < list.len()
        invariant
            i <= list@.len(),
            forall|j: int| 0 <= j < i ==> views(list@)[j] != s@,
        decreases list@.len() - i,
    {
        if same(list[i].as_str(), s) {
            proof {
                assert(views(list@)[i as int] == s@);
            }
            return true;
        }
        i += 1;
    }
    false
}

/// A copy of a list of strings.
pub fn copy_list(list: &Vec<String>) -> (out: Vec<String>)
    ensures
        out@ == list@,
        views(out@) == views(list@),
{
    let mut out: Vec<String> = Vec::new();
    let mut i: usize = 0;
    while i < list.len()
        invariant
            i <= list@.len(),
            out@ == list@.take(i as int),
        decreases list@.len() - i,
    {
        out.push(list[i].clone());
        i += 1;
        proof {
            assert(list@.take(i as int) =~= list@.take(i - 1).push(list@[i - 1]));
        }
    }
    proof {
        assert(list@.take(list@.len() as int) =~= list@);
    }
    out
}

/// A copy of an optional string.
pub fn copy_opt(s: &Option<String>) -> (out: Option<String>)
    ensures
        out == *s,
{
    match s {
        Some(t) => Some(t.clone()),
        None => None,
    }
}

// ---- searching ---------------------------------------------------------------------------------

/// Whether `pat` stands in `s` starting at character `at`.
pub open spec fn occurs_at(s: Seq<char>, pat: Seq<char>, at: int) -> bool {
    0 <= at && at + pat.len() <= s.len() && s.subrange(at, at + pat.len()) == pat
}

/// Whether `s` begins with `pat`.
pub open spec fn starts(s: Seq<char>, pat: Seq<char>) -> bool {
    occurs_at(s, pat, 0)
}

/// Whether `pat` occurs anywhere in `s`.
pub open spec fn has(s: Seq<char>, pat: Seq<char>) -> bool {
    exists|at: int| #[trigger] occurs_at(s, pat, at)
}

/// Whether `pat` stands in `s` at `at`, on character vectors.
pub fn matches_at(s: &Vec<char>, pat: &Vec<char>, at: usize) -> (r: bool)
    ensures
        r == occurs_at(s@, pat@, at as int),
{
    if pat.len() > s.len() || at > s.len() - pat.len() {
        return false;
    }
    let mut k: usize = 0;
    while k < pat.len()
        invariant
            k <= pat@.len(),
            at + pat.len() <= s.len(),
            forall|j: int| 0 <= j < k ==> s@[at + j] == pat@[j],
        decreases pat@.len() - k,
    {
        if s[at + k] != pat[k] {
            proof {
                assert(s@.subrange(at as int, at + pat@.len())[k as int] != pat@[k as int]);
            }
            return false;
        }
        k += 1;
    }
    proof {
        assert(s@.subrange(at as int, at + pat@.len()) =~= pat@);
    }
    true
}

/// Whether `s` begins with `pat`.
pub fn starts_with(s: &str, pat: &str) -> (r: bool)
    ensures
        r == starts(s@, pat@),
{
    matches_at(&chars_of(s), &chars_of(pat), 0)
}

/// What follows `pat` at the start of `s`, when `s` begins with it.
pub fn strip_prefix(s: &str, pat: &str) -> (r: Option<String>)
    ensures
        r is Some <==> starts(s@, pat@),
        r matches Some(t) ==> t@ == s@.skip(pat@.len() as int),
{
    let cs = chars_of(s);
    let ps = chars_of(pat);
    if matches_at(&cs, &ps, 0) {
        let t = string_of(&cs, ps.len(), cs.len());
        proof {
            assert(s@.subrange(pat@.len() as int, s@.len() as int) =~= s@.skip(pat@.len() as int));
        }
        Some(t)
    } else {
        None
    }
}

/// Whether `pat` occurs anywhere in `s`.
pub fn contains(s: &str, pat: &str) -> (r: bool)
    ensures
        r == has(s@, pat@),
{
    let cs = chars_of(s);
    let ps = chars_of(pat);
    let mut at: usize = 0;
    while at < cs.len()
        invariant
            at <= cs@.len(),
            cs@ == s@,
            ps@ == pat@,
            forall|j: int| 0 <= j < at ==> !occurs_at(s@, pat@, j),
        decreases cs@.len() - at,
    {
        if matches_at(&cs, &ps, at) {
            return true;
        }
        at += 1;
    }
    let r = matches_at(&cs, &ps, at);
    proof {
        assert forall|j: int| occurs_at(s@, pat@, j) implies j <= at by {}
    }
    r
}

/// Whether the character `c` occurs in `s`.
pub fn contains_char(s: &str, c: char) -> (r: bool)
    ensures
        r == s@.contains(c),
{
    let cs = chars_of(s);
    let mut i: usize = 0;
    while i < cs.len()
        invariant
            i <= cs@.len(),
            cs@ == s@,
            forall|j: int| 0 <= j < i ==> s@[j] != c,
        decreases cs@.len() - i,
    {
        if cs[i] == c {
            return true;
        }
        i += 1;
    }
    false
}

// ---- character classes -------------------------------------------------------------------------

/// The Unicode `White_Space` property.
pub open spec fn is_white(c: char) -> bool {
    let n = c as int;
    ||| 0x9 <= n <= 0xD
    ||| n == 0x20
    ||| n == 0x85
    ||| n == 0xA0
    ||| n == 0x1680
    ||| 0x2000 <= n <= 0x200A
    ||| n == 0x2028
    ||| n == 0x2029
    ||| n == 0x202F
    ||| n == 0x205F
    ||| n == 0x3000
}

/// Whether `c` has the Unicode `White_Space` property.
pub fn white(c: char) -> (r: bool)
    ensures
        r == is_white(c),
{
    let n: u32 = c as u32;
    (0x9 <= n && n <= 0xD) || n == 0x20 || n == 0x85 || n == 0xA0 || n == 0x1680 || (0x2000 <= n
        && n <= 0x200A) || n == 0x2028 || n == 0x2029 || n == 0x202F || n == 0x205F || n == 0x3000
}

/// The Unicode general category `Cc`.
pub open spec fn is_control(c: char) -> bool {
    (c as int) <= 0x1F || 0x7F <= (c as int) <= 0x9F
}

/// Whether `c` is a control character (general category `Cc`).
pub fn control(c: char) -> (r: bool)
    ensures
        r == is_control(c),
{
    let n: u32 = c as u32;
    n <= 0x1F || (0x7F <= n && n <= 0x9F)
}

/// Whether any character of `s` is a control character.
pub open spec fn has_control(s: Seq<char>) -> bool {
    exists|i: int| 0 <= i < s.len() && #[trigger] is_control(s[i])
}

/// Whether any character of `s` is a control character.
pub fn contains_control(s: &str) -> (r: bool)
    ensures
        r == has_control(s@),
{
    let cs = chars_of(s);
    let mut i: usize = 0;
    while i < cs.len()
        invariant
            i <= cs@.len(),
            cs@ == s@,
            forall|j: int| 0 <= j < i ==> !is_control(#[trigger] s@[j]),
        decreases cs@.len() - i,
    {
        if control(cs[i]) {
            proof {
                assert(is_control(s@[i as int]));
            }
            return true;
        }
        i += 1;
    }
    false
}

/// `c` with an ASCII capital replaced by its small letter.
pub open spec fn ascii_small(c: char) -> int {
    if 0x41 <= (c as int) <= 0x5A {
        c as int + 0x20
    } else {
        c as int
    }
}

/// Whether two strings are equal when ASCII capitals and small letters are not told apart.
pub open spec fn same_but_ascii_case(a: Seq<char>, b: Seq<char>) -> bool {
    a.len() == b.len() && forall|i: int|
        0 <= i < a.len() ==> ascii_small(#[trigger] a[i]) == ascii_small(b[i])
}

/// The code point of `c` with an ASCII capital replaced by its small letter.
fn small_code(c: char) -> (r: u32)
    ensures
        r == ascii_small(c),
{
    let n: u32 = c as u32;
    if 0x41 <= n && n <= 0x5A {
        n + 0x20
    } else {
        n
    }
}

/// Whether two strings are equal when ASCII capitals and small letters are not told apart.
pub fn eq_ignore_ascii_case(a: &str, b: &str) -> (r: bool)
    ensures
        r == same_but_ascii_case(a@, b@),
{
    let x = chars_of(a);
    let y = chars_of(b);
    if x.len() != y.len() {
        return false;
    }
    let mut i: usize = 0;
    while i < x.len()
        invariant
            i <= x@.len(),
            x@ == a@,
            y@ == b@,
            x@.len() == y@.len(),
            forall|j: int| 0 <= j < i ==> ascii_small(#[trigger] a@[j]) == ascii_small(b@[j]),
        decreases x@.len() - i,
    {
        if small_code(x[i]) != small_code(y[i]) {
            proof {
                assert(ascii_small(a@[i as int]) != ascii_small(b@[i as int]));
            }
            return false;
        }
        i += 1;
    }
    true
}

// ---- trimming ----------------------------------------------------------------------------------

/// `s` without its leading white space.
pub open spec fn trim_start(s: Seq<char>) -> Seq<char>
    decreases s.len(),
{
    if s.len() > 0 && is_white(s[0]) {
        trim_start(s.skip(1))
    } else {
        s
    }
}

/// `s` without its trailing white space.
pub open spec fn trim_end(s: Seq<char>) -> Seq<char>
    decreases s.len(),
{
    if s.len() > 0 && is_white(s.last()) {
        trim_end(s.drop_last())
    } else {
        s
    }
}

/// `s` without its leading and trailing white space.
pub open spec fn trimmed(s: Seq<char>) -> Seq<char> {
    trim_end(trim_start(s))
}

/// Whether `s` holds nothing but white space.
pub open spec fn is_blank(s: Seq<char>) -> bool {
    trimmed(s).len() == 0
}

proof fn lemma_trim_start_is_part(s: Seq<char>)
    ensures
        forall|i: int| 0 <= i < trim_start(s).len() ==> s.contains(#[trigger] trim_start(s)[i]),
    decreases s.len(),
{
    if s.len() > 0 && is_white(s[0]) {
        lemma_trim_start_is_part(s.skip(1));
        assert forall|i: int| 0 <= i < trim_start(s).len() implies s.contains(
            #[trigger] trim_start(s)[i],
        ) by {
            let c = trim_start(s)[i];
            assert(trim_start(s.skip(1))[i] == c);
            assert(s.skip(1).contains(c));
            let j = choose|j: int| 0 <= j < s.skip(1).len() && s.skip(1)[j] == c;
            assert(s[j + 1] == c);
        }
    }
}

proof fn lemma_trim_end_is_part(s: Seq<char>)
    ensures
        forall|i: int| 0 <= i < trim_end(s).len() ==> s.contains(#[trigger] trim_end(s)[i]),
    decreases s.len(),
{
    if s.len() > 0 && is_white(s.last()) {
        lemma_trim_end_is_part(s.drop_last());
        assert forall|i: int| 0 <= i < trim_end(s).len() implies s.contains(
            #[trigger] trim_end(s)[i],
        ) by {
            let c = trim_end(s)[i];
            assert(trim_end(s.drop_last())[i] == c);
            assert(s.drop_last().contains(c));
            let j = choose|j: int| 0 <= j < s.drop_last().len() && s.drop_last()[j] == c;
            assert(s[j] == c);
        }
    }
}

/// Every character that trimming leaves was there before.
pub proof fn lemma_trimmed_is_part(s: Seq<char>)
    ensures
        forall|i: int| 0 <= i < trimmed(s).len() ==> s.contains(#[trigger] trimmed(s)[i]),
{
    let t = trim_start(s);
    lemma_trim_start_is_part(s);
    lemma_trim_end_is_part(t);
    assert forall|i: int| 0 <= i < trimmed(s).len() implies s.contains(#[trigger] trimmed(s)[i]) by {
        let c = trimmed(s)[i];
        assert(trim_end(t)[i] == c);
        assert(t.contains(c));
        let j = choose|j: int| 0 <= j < t.len() && t[j] == c;
        assert(trim_start(s)[j] == c);
    }
}

/// `s` without its leading and trailing white space.
pub fn trim(s: &str) -> (out: String)
    ensures
        out@ == trimmed(s@),
{
    let cs = chars_of(s);
    let mut from: usize = 0;
    proof {
        assert(s@.skip(0) =~= s@);
    }
    while from < cs.len() && white(cs[from])
        invariant
            from <= cs@.len(),
            cs@ == s@,
            trim_start(s@) == trim_start(s@.skip(from as int)),
        decreases cs@.len() - from,
    {
        proof {
            assert(s@.skip(from as int).skip(1) =~= s@.skip(from + 1));
        }
        from += 1;
    }
    let ghost rest = s@.skip(from as int);
    proof {
        assert(trim_start(rest) == rest);
    }
    let mut to: usize = cs.len();
    proof {
        assert(s@.subrange(from as int, to as int) =~= rest);
    }
    while from < to && white(cs[to - 1])
        invariant
            from <= to <= cs@.len(),
            cs@ == s@,
            trim_end(rest) == trim_end(s@.subrange(from as int, to as int)),
        decreases to - from,
    {
        proof {
            assert(s@.subrange(from as int, to as int).drop_last() =~= s@.subrange(
                from as int,
                to - 1,
            ));
        }
        to -= 1;
    }
    let out = string_of(&cs, from, to);
    proof {
        assert(trim_end(out@) == out@);
    }
    out
}

/// `s` without its trailing white space.
pub fn trim_behind(s: &str) -> (out: String)
    ensures
        out@ == trim_end(s@),
{
    let cs = chars_of(s);
    let mut to: usize = cs.len();
    proof {
        assert(s@.take(to as int) =~= s@);
    }
    while to > 0 && white(cs[to - 1])
        invariant
            to <= cs@.len(),
            cs@ == s@,
            trim_end(s@) == trim_end(s@.take(to as int)),
        decreases to,
    {
        proof {
            assert(s@.take(to as int).drop_last() =~= s@.take(to - 1));
        }
        to -= 1;
    }
    let out = string_of(&cs, 0, to);
    proof {
        assert(out@ =~= s@.take(to as int));
        assert(trim_end(out@) == out@);
    }
    out
}

/// Whether `s` holds nothing but white space.
pub fn blank(s: &str) -> (r: bool)
    ensures
        r == is_blank(s@),
{
    trim(s).as_str().is_empty()
}

// ---- splitting ---------------------------------------------------------------------------------

/// The index of the first character of `s` that occurs in `seps`; the length of `s` when none does.
pub open spec fn first_of(s: Seq<char>, seps: Seq<char>) -> int
    decreases s.len(),
{
    if s.len() == 0 || seps.contains(s[0]) {
        0
    } else {
        1 + first_of(s.skip(1), seps)
    }
}

/// The pieces of `s` between the characters that occur in `seps`, empty pieces included.
pub open spec fn pieces(s: Seq<char>, seps: Seq<char>) -> Seq<Seq<char>>
    decreases s.len(),
{
    let k = first_of(s, seps);
    if k < 0 || k >= s.len() {
        seq![s]
    } else {
        seq![s.take(k)] + pieces(s.skip(k + 1), seps)
    }
}

/// A line without the carriage return that preceded its newline.
pub open spec fn without_cr(line: Seq<char>) -> Seq<char> {
    if line.len() > 0 && line.last() == '\r' {
        line.drop_last()
    } else {
        line
    }
}

/// The lines of `s`: each ends at a newline, which is dropped with a carriage return before it. A
/// text that ends in a newline has no further empty line behind it.
pub open spec fn lines_of(s: Seq<char>) -> Seq<Seq<char>>
    decreases s.len(),
{
    let k = first_of(s, seq!['\n']);
    if s.len() == 0 {
        Seq::empty()
    } else if k < 0 || k >= s.len() {
        seq![s]
    } else {
        seq![without_cr(s.take(k))] + lines_of(s.skip(k + 1))
    }
}

/// `first_of` is an index of `s` or its length; no separator stands before it.
pub proof fn lemma_first_of(s: Seq<char>, seps: Seq<char>)
    ensures
        0 <= first_of(s, seps) <= s.len(),
        forall|i: int| 0 <= i < first_of(s, seps) ==> !seps.contains(#[trigger] s[i]),
        first_of(s, seps) < s.len() ==> seps.contains(s[first_of(s, seps)]),
    decreases s.len(),
{
    if s.len() > 0 && !seps.contains(s[0]) {
        let t = s.skip(1);
        lemma_first_of(t, seps);
        assert forall|i: int| 0 <= i < first_of(s, seps) implies !seps.contains(
            #[trigger] s[i],
        ) by {
            if i > 0 {
                assert(s[i] == t[i - 1]);
            }
        }
    }
}

/// The index of the first character at or after `from` that occurs in `seps`, or the length.
fn find_from(cs: &Vec<char>, from: usize, seps: &Vec<char>) -> (k: usize)
    requires
        from <= cs@.len(),
    ensures
        from <= k <= cs@.len(),
        k - from == first_of(cs@.skip(from as int), seps@),
{
    let mut k: usize = from;
    while k < cs.len()
        invariant
            from <= k <= cs@.len(),
            first_of(cs@.skip(from as int), seps@) == k - from + first_of(
                cs@.skip(k as int),
                seps@,
            ),
        decreases cs@.len() - k,
    {
        let ghost here = cs@.skip(k as int);
        proof {
            assert(here[0] == cs@[k as int]);
            assert(here.skip(1) =~= cs@.skip(k + 1));
        }
        let mut j: usize = 0;
        while j < seps.len()
            invariant
                from <= k < cs@.len(),
                j <= seps@.len(),
                here == cs@.skip(k as int),
                here[0] == cs@[k as int],
                first_of(cs@.skip(from as int), seps@) == k - from + first_of(here, seps@),
                forall|m: int| 0 <= m < j ==> seps@[m] != cs@[k as int],
            decreases seps@.len() - j,
        {
            if seps[j] == cs[k] {
                proof {
                    assert(seps@.contains(here[0]));
                }
                return k;
            }
            j += 1;
        }
        proof {
            assert(!seps@.contains(here[0]));
        }
        k += 1;
    }
    k
}

/// The pieces of `s` between the characters that occur in `seps`, empty pieces included.
pub fn split_any(s: &str, seps: &str) -> (out: Vec<String>)
    ensures
        views(out@) == pieces(s@, seps@),
{
    let cs = chars_of(s);
    let ps = chars_of(seps);
    let mut out: Vec<String> = Vec::new();
    let mut from: usize = 0;
    proof {
        assert(s@.skip(0) =~= s@);
        assert(views(out@) + pieces(s@, seps@) =~= pieces(s@, seps@));
    }
    loop
        invariant
            from <= cs@.len(),
            cs@ == s@,
            ps@ == seps@,
            views(out@) + pieces(s@.skip(from as int), seps@) == pieces(s@, seps@),
        decreases cs@.len() - from,
    {
        let k: usize = find_from(&cs, from, &ps);
        let ghost rest = s@.skip(from as int);
        let ghost done = views(out@);
        let piece = string_of(&cs, from, k);
        proof {
            assert(piece@ =~= rest.take(k - from));
        }
        out.push(piece);
        proof {
            assert(views(out@) =~= done.push(piece@));
        }
        if k == cs.len() {
            proof {
                assert(rest.take(k - from) =~= rest);
                assert(pieces(rest, seps@) =~= seq![rest]);
                assert(done + seq![rest] =~= done.push(rest));
            }
            return out;
        }
        proof {
            assert(rest.skip(k - from + 1) =~= s@.skip(k + 1));
            assert(done + (seq![piece@] + pieces(s@.skip(k + 1), seps@)) =~= done.push(piece@)
                + pieces(s@.skip(k + 1), seps@));
        }
        from = k + 1;
    }
}

/// What stands before and behind the first character of `s` that occurs in `seps`, if one does.
pub fn split_once(s: &str, seps: &str) -> (r: Option<(String, String)>)
    ensures
        r is Some <==> first_of(s@, seps@) < s@.len(),
        r matches Some(p) ==> p.0@ == s@.take(first_of(s@, seps@)) && p.1@ == s@.skip(
            first_of(s@, seps@) + 1,
        ),
{
    let cs = chars_of(s);
    let ps = chars_of(seps);
    proof {
        assert(s@.skip(0) =~= s@);
    }
    let k: usize = find_from(&cs, 0, &ps);
    if k == cs.len() {
        return None;
    }
    let head = string_of(&cs, 0, k);
    let tail = string_of(&cs, k + 1, cs.len());
    proof {
        assert(head@ =~= s@.take(k as int));
        assert(tail@ =~= s@.skip(k + 1));
    }
    Some((head, tail))
}

/// The lines of `s`.
pub fn lines(s: &str) -> (out: Vec<String>)
    ensures
        views(out@) == lines_of(s@),
{
    let cs = chars_of(s);
    let mut nl: Vec<char> = Vec::new();
    nl.push('\n');
    proof {
        assert(nl@ =~= seq!['\n']);
        assert(s@.skip(0) =~= s@);
    }
    let mut out: Vec<String> = Vec::new();
    let mut from: usize = 0;
    proof {
        assert(views(out@) + lines_of(s@) =~= lines_of(s@));
    }
    while from < cs.len()
        invariant
            from <= cs@.len(),
            cs@ == s@,
            nl@ == seq!['\n'],
            views(out@) + lines_of(s@.skip(from as int)) == lines_of(s@),
        decreases cs@.len() - from,
    {
        let k: usize = find_from(&cs, from, &nl);
        let ghost rest = s@.skip(from as int);
        let ghost done = views(out@);
        if k == cs.len() {
            let line = string_of(&cs, from, k);
            proof {
                assert(line@ =~= rest);
                assert(lines_of(rest) =~= seq![rest]);
            }
            out.push(line);
            proof {
                assert(views(out@) =~= done + seq![rest]);
            }
            return out;
        }
        let mut to: usize = k;
        if from < k && cs[k - 1] == '\r' {
            to = k - 1;
        }
        let line = string_of(&cs, from, to);
        proof {
            assert(line@ =~= without_cr(rest.take(k - from)));
            assert(rest.skip(k - from + 1) =~= s@.skip(k + 1));
        }
        out.push(line);
        proof {
            assert(views(out@) =~= done.push(line@));
            assert(done + (seq![line@] + lines_of(s@.skip(k + 1))) =~= done.push(line@) + lines_of(
                s@.skip(k + 1),
            ));
        }
        from = k + 1;
    }
    proof {
        assert(views(out@) + lines_of(s@.skip(from as int)) =~= views(out@));
    }
    out
}

// ---- joining -----------------------------------------------------------------------------------

/// The strings of `list`, with `sep` between each two neighbours.
pub open spec fn joined(list: Seq<Seq<char>>, sep: Seq<char>) -> Seq<char>
    decreases list.len(),
{
    if list.len() == 0 {
        Seq::empty()
    } else if list.len() == 1 {
        list[0]
    } else {
        joined(list.drop_last(), sep) + sep + list.last()
    }
}

/// The strings of `list`, with `sep` between each two neighbours.
pub fn join(list: &Vec<String>, sep: &str) -> (out: String)
    ensures
        out@ == joined(views(list@), sep@),
{
    let mut out = String::new();
    let mut i: usize = 0;
    while i < list.len()
        invariant
            i <= list@.len(),
            out@ == joined(views(list@).take(i as int), sep@),
        decreases list@.len() - i,
    {
        let ghost part = views(list@).take(i + 1);
        proof {
            assert(part.drop_last() =~= views(list@).take(i as int));
            assert(part.last() == list@[i as int]@);
        }
        if i > 0 {
            out.append(sep);
        }
        out.append(list[i].as_str());
        proof {
            if i == 0 {
                assert(out@ =~= part[0]);
            }
        }
        i += 1;
    }
    proof {
        assert(views(list@).take(list@.len() as int) =~= views(list@));
    }
    out
}

/// Joining puts the first string in front of the rest.
pub proof fn lemma_joined_head(list: Seq<Seq<char>>, sep: Seq<char>)
    requires
        list.len() >= 2,
    ensures
        joined(list, sep) == list[0] + sep + joined(list.skip(1), sep),
    decreases list.len(),
{
    let rest = list.skip(1);
    if list.len() == 2 {
        assert(list.drop_last() =~= seq![list[0]]);
        assert(rest =~= seq![list[1]]);
        assert(joined(list.drop_last(), sep) == list[0]);
        assert(joined(rest, sep) == list[1]);
        assert(joined(list, sep) =~= list[0] + sep + joined(rest, sep));
    } else {
        lemma_joined_head(list.drop_last(), sep);
        assert(list.drop_last().skip(1) =~= rest.drop_last());
        assert(joined(rest, sep) == joined(rest.drop_last(), sep) + sep + rest.last());
        assert(joined(list, sep) =~= list[0] + sep + joined(rest, sep));
    }
}

/// Joining the pieces by the character they were split at gives the text back.
pub proof fn lemma_pieces_joined(s: Seq<char>, c: char)
    ensures
        pieces(s, seq![c]).len() >= 1,
        joined(pieces(s, seq![c]), seq![c]) == s,
    decreases s.len(),
{
    let seps = seq![c];
    lemma_first_of(s, seps);
    let k = first_of(s, seps);
    if k < s.len() {
        let rest = s.skip(k + 1);
        lemma_pieces_joined(rest, c);
        let p = pieces(s, seps);
        assert(p =~= seq![s.take(k)] + pieces(rest, seps));
        assert(p.skip(1) =~= pieces(rest, seps));
        lemma_joined_head(p, seps);
        assert(s[k] == c);
        assert(joined(p, seps) =~= s);
    }
}

/// `s` with every `c` written twice.
pub open spec fn doubled(s: Seq<char>, c: char) -> Seq<char>
    decreases s.len(),
{
    if s.len() == 0 {
        Seq::empty()
    } else {
        let head = doubled(s.drop_last(), c);
        if s.last() == c {
            head.push(c).push(c)
        } else {
            head.push(s.last())
        }
    }
}

/// `s` with every `c` written twice.
pub fn double(s: &str, c: char) -> (out: String)
    ensures
        out@ == doubled(s@, c),
{
    let cs = chars_of(s);
    let mut out = String::new();
    let mut i: usize = 0;
    while i < cs.len()
        invariant
            i <= cs@.len(),
            cs@ == s@,
            out@ == doubled(s@.take(i as int), c),
        decreases cs@.len() - i,
    {
        proof {
            assert(s@.take(i + 1).drop_last() =~= s@.take(i as int));
            assert(s@.take(i + 1).last() == s@[i as int]);
        }
        out.push(cs[i]);
        if cs[i] == c {
            out.push(c);
        }
        i += 1;
    }
    proof {
        assert(s@.take(s@.len() as int) =~= s@);
    }
    out
}

/// How many bytes `s` takes in UTF-8, as a machine word.
pub open spec fn byte_len(s: Seq<char>) -> usize {
    vstd::utf8::encode_utf8(s).len() as usize
}

// ---- ordering ----------------------------------------------------------------------------------

/// The order of strings by their code points, a proper prefix first.
pub open spec fn before(a: Seq<char>, b: Seq<char>) -> bool
    decreases a.len(),
{
    if b.len() == 0 {
        false
    } else if a.len() == 0 {
        true
    } else if a[0] != b[0] {
        (a[0] as int) < (b[0] as int)
    } else {
        before(a.skip(1), b.skip(1))
    }
}

/// No string stands before itself.
pub proof fn lemma_before_irreflexive(a: Seq<char>)
    ensures
        !before(a, a),
    decreases a.len(),
{
    if a.len() > 0 {
        lemma_before_irreflexive(a.skip(1));
    }
}

/// Of two different strings, one stands before the other.
pub proof fn lemma_before_total(a: Seq<char>, b: Seq<char>)
    ensures
        a == b || before(a, b) || before(b, a),
    decreases a.len(),
{
    if a.len() > 0 && b.len() > 0 && a[0] == b[0] {
        lemma_before_total(a.skip(1), b.skip(1));
        if a.skip(1) == b.skip(1) {
            assert(a =~= seq![a[0]] + a.skip(1));
            assert(b =~= seq![b[0]] + b.skip(1));
        }
    } else if a.len() == 0 && b.len() == 0 {
        assert(a =~= b);
    }
}

/// The order of strings is transitive.
pub proof fn lemma_before_transitive(a: Seq<char>, b: Seq<char>, c: Seq<char>)
    requires
        before(a, b),
        before(b, c),
    ensures
        before(a, c),
    decreases a.len(),
{
    if a.len() > 0 && a[0] == b[0] && b[0] == c[0] {
        lemma_before_transitive(a.skip(1), b.skip(1), c.skip(1));
    }
}

/// The code point of `c`.
pub fn code(c: char) -> (n: u32)
    ensures
        n == c as int,
{
    c as u32
}

/// Whether `a` stands before `b` in the order of strings.
pub fn less(a: &str, b: &str) -> (r: bool)
    ensures
        r == before(a@, b@),
{
    let x = chars_of(a);
    let y = chars_of(b);
    let mut i: usize = 0;
    proof {
        assert(a@.skip(0) =~= a@);
        assert(b@.skip(0) =~= b@);
    }
    while i < x.len() && i < y.len()
        invariant
            i <= x@.len(),
            i <= y@.len(),
            x@ == a@,
            y@ == b@,
            before(a@, b@) == before(a@.skip(i as int), b@.skip(i as int)),
        decreases x@.len() - i,
    {
        proof {
            assert(a@.skip(i as int).skip(1) =~= a@.skip(i + 1));
            assert(b@.skip(i as int).skip(1) =~= b@.skip(i + 1));
            assert(a@.skip(i as int)[0] == a@[i as int]);
            assert(b@.skip(i as int)[0] == b@[i as int]);
        }
        let m: u32 = code(x[i]);
        let n: u32 = code(y[i]);
        if m != n {
            return m < n;
        }
        i += 1;
    }
    i < y.len()
}

// ---- decimal rendering -------------------------------------------------------------------------

/// The decimal digits of `n`, without leading zeros.
pub open spec fn decimal(n: nat) -> Seq<char>
    decreases n,
{
    if n < 10 {
        seq![(0x30 + n) as char]
    } else {
        decimal(n / 10).push((0x30 + n % 10) as char)
    }
}

/// The octal digits of `n`, without leading zeros.
pub open spec fn octal(n: nat) -> Seq<char>
    decreases n,
{
    if n < 8 {
        seq![(0x30 + n) as char]
    } else {
        octal(n / 8).push((0x30 + n % 8) as char)
    }
}

/// The digit that stands for `d`, which is below sixteen.
pub open spec fn hex_digit(d: nat) -> char {
    if d < 10 {
        (0x30 + d) as char
    } else {
        (0x61 + (d - 10)) as char
    }
}

/// The hexadecimal digits of `n`, small letters, without leading zeros.
pub open spec fn hex(n: nat) -> Seq<char>
    decreases n,
{
    if n < 16 {
        seq![hex_digit(n)]
    } else {
        hex(n / 16).push(hex_digit(n % 16))
    }
}

/// The decimal digits of `n`, with a minus sign in front of a negative number.
pub open spec fn signed_decimal(n: int) -> Seq<char> {
    if n < 0 {
        "-"@ + decimal((-n) as nat)
    } else {
        decimal(n as nat)
    }
}

/// `s` with copies of `fill` in front of it, so that it is at least `width` characters long.
pub open spec fn padded_left(s: Seq<char>, width: int, fill: char) -> Seq<char> {
    if s.len() >= width {
        s
    } else {
        Seq::new((width - s.len()) as nat, |i: int| fill) + s
    }
}

/// `s` followed by spaces, so that it is at least `width` characters long.
pub open spec fn padded_right(s: Seq<char>, width: int) -> Seq<char> {
    if s.len() >= width {
        s
    } else {
        s + Seq::new((width - s.len()) as nat, |i: int| ' ')
    }
}

/// The decimal digits of `n`.
pub fn number(n: u64) -> (out: String)
    ensures
        out@ == decimal(n as nat),
    decreases n,
{
    let d: u8 = 0x30u8 + (n % 10) as u8;
    if n < 10 {
        let mut out = String::new();
        out.push(d as char);
        proof {
            assert(out@ =~= decimal(n as nat));
        }
        out
    } else {
        let mut out = number(n / 10);
        out.push(d as char);
        out
    }
}

/// The octal digits of `n`.
pub fn octal_number(n: u32) -> (out: String)
    ensures
        out@ == octal(n as nat),
    decreases n,
{
    let d: u8 = 0x30u8 + (n % 8) as u8;
    if n < 8 {
        let mut out = String::new();
        out.push(d as char);
        proof {
            assert(out@ =~= octal(n as nat));
        }
        out
    } else {
        let mut out = octal_number(n / 8);
        out.push(d as char);
        out
    }
}

/// The hexadecimal digits of `n`.
pub fn hex_number(n: u32) -> (out: String)
    ensures
        out@ == hex(n as nat),
    decreases n,
{
    let low: u8 = (n % 16) as u8;
    let d: u8 = if low < 10 {
        0x30u8 + low
    } else {
        0x61u8 + (low - 10)
    };
    if n < 16 {
        let mut out = String::new();
        out.push(d as char);
        proof {
            assert(out@ =~= hex(n as nat));
        }
        out
    } else {
        let mut out = hex_number(n / 16);
        out.push(d as char);
        out
    }
}

/// The decimal digits of `n`, with a minus sign in front of a negative number.
pub fn signed_number(n: i64) -> (out: String)
    ensures
        out@ == signed_decimal(n as int),
{
    if n >= 0 {
        number(n as u64)
    } else {
        let mut out = "-".to_owned();
        // The magnitude of the least number is one more than the greatest.
        let magnitude: u64 = (-(n + 1)) as u64 + 1;
        out.append(number(magnitude).as_str());
        out
    }
}

/// `s` with copies of `fill` in front of it, so that it is at least `width` characters long.
pub fn pad_left(s: &str, width: usize, fill: char) -> (out: String)
    ensures
        out@ == padded_left(s@, width as int, fill),
{
    let len: usize = chars_of(s).len();
    let mut out = String::new();
    let mut i: usize = len;
    while i < width
        invariant
            len == s@.len(),
            len <= i,
            i <= width || i == len,
            out@ == Seq::new((i - len) as nat, |k: int| fill),
        decreases width - i,
    {
        out.push(fill);
        i += 1;
        proof {
            assert(out@ =~= Seq::new((i - len) as nat, |k: int| fill));
        }
    }
    out.append(s);
    proof {
        assert(out@ =~= padded_left(s@, width as int, fill));
    }
    out
}

/// `s` followed by spaces, so that it is at least `width` characters long.
pub fn pad_right(s: &str, width: usize) -> (out: String)
    ensures
        out@ == padded_right(s@, width as int),
{
    let len: usize = chars_of(s).len();
    let mut out = s.to_owned();
    let mut i: usize = len;
    while i < width
        invariant
            len == s@.len(),
            len <= i,
            i <= width || i == len,
            out@ == s@ + Seq::new((i - len) as nat, |k: int| ' '),
        decreases width - i,
    {
        out.push(' ');
        i += 1;
        proof {
            assert(out@ =~= s@ + Seq::new((i - len) as nat, |k: int| ' '));
        }
    }
    proof {
        assert(out@ =~= padded_right(s@, width as int));
    }
    out
}

// ---- renderings that std defines ---------------------------------------------------------------

/// What `{:?}` prints for a string holding `s`.
pub uninterp spec fn debug_form(s: Seq<char>) -> Seq<char>;

/// `s` as the `Debug` formatting of `str` prints it: in double quotes, with the escapes that
/// `str::escape_debug` defines. The printed form depends on the characters alone.
#[verifier::external_body]
pub(crate) fn quoted(s: &str) -> (out: String)
    ensures
        out@ == debug_form(s@),
{
    format!("{s:?}")
}

// ---- laws --------------------------------------------------------------------------------------

/// **Law: what white space is.** A blank and the ASCII control characters from the tab to the carriage
/// return are; no other ASCII character is, so that letters, digits and punctuation are never trimmed.
pub proof fn law_ascii_white_space(c: char)
    ensures
        (c as int) < 0x80 ==> (is_white(c) <==> c == ' ' || 0x09 <= (c as int) <= 0x0D),
        is_white(c) ==> (c as int) <= 0x3000,
        0x3001 <= (c as int) ==> !is_white(c),
{
}

/// **Law: what a control character is.** The code points below the blank, the delete character and the
/// thirty-two behind it; nothing that is printed is one.
pub proof fn law_control_characters(c: char)
    ensures
        (c as int) < 0x20 ==> is_control(c),
        0x20 <= (c as int) < 0x7F ==> !is_control(c),
        0x7F <= (c as int) < 0xA0 ==> is_control(c),
        0xA0 <= (c as int) ==> !is_control(c),
{
}

/// **Law: trimming takes white space from the ends, all of it and nothing else.** The text is what was
/// taken in front, what is left, and what was taken behind; what was taken is white space, and what is
/// left neither begins nor ends with any.
pub proof fn law_trimming_takes_white_space_at_the_ends(s: Seq<char>) -> (r: (int, int))
    ensures
        0 <= r.0 <= r.1 <= s.len(),
        trimmed(s) == s.subrange(r.0, r.1),
        forall|i: int| 0 <= i < r.0 ==> is_white(#[trigger] s[i]),
        forall|i: int| r.1 <= i < s.len() ==> is_white(#[trigger] s[i]),
        r.0 < r.1 ==> !is_white(s[r.0]) && !is_white(s[r.1 - 1]),
{
    let a = lemma_trim_start_cut(s);
    let t = s.skip(a);
    let b = lemma_trim_end_cut(t);
    assert(t.take(b) =~= s.subrange(a, a + b));
    assert forall|i: int| a + b <= i < s.len() implies is_white(#[trigger] s[i]) by {
        assert(t[i - a] == s[i]);
    }
    if b > 0 {
        assert(t[0] == s[a]);
        assert(t[b - 1] == s[a + b - 1]);
    }
    (a, a + b)
}

proof fn lemma_trim_start_cut(s: Seq<char>) -> (a: int)
    ensures
        0 <= a <= s.len(),
        trim_start(s) == s.skip(a),
        forall|i: int| 0 <= i < a ==> is_white(#[trigger] s[i]),
        a < s.len() ==> !is_white(s[a]),
    decreases s.len(),
{
    if s.len() > 0 && is_white(s[0]) {
        let b = lemma_trim_start_cut(s.skip(1));
        assert(s.skip(1).skip(b) =~= s.skip(b + 1));
        assert forall|i: int| 0 <= i < b + 1 implies is_white(#[trigger] s[i]) by {
            if i > 0 {
                assert(s.skip(1)[i - 1] == s[i]);
            }
        }
        b + 1
    } else {
        assert(s.skip(0) =~= s);
        0
    }
}

proof fn lemma_trim_end_cut(s: Seq<char>) -> (b: int)
    ensures
        0 <= b <= s.len(),
        trim_end(s) == s.take(b),
        forall|i: int| b <= i < s.len() ==> is_white(#[trigger] s[i]),
        b > 0 ==> !is_white(s[b - 1]),
    decreases s.len(),
{
    if s.len() > 0 && is_white(s.last()) {
        let b = lemma_trim_end_cut(s.drop_last());
        assert(s.drop_last().take(b) =~= s.take(b));
        assert forall|i: int| b <= i < s.len() implies is_white(#[trigger] s[i]) by {
            if i < s.len() - 1 {
                assert(s.drop_last()[i] == s[i]);
            }
        }
        b
    } else {
        assert(s.take(s.len() as int) =~= s);
        s.len() as int
    }
}

/// **Law: a text is blank exactly where it is white space throughout.** So one that holds a letter, a
/// digit or any other printed ASCII character is not.
pub proof fn law_blank_is_white_throughout(s: Seq<char>)
    ensures
        is_blank(s) <==> forall|i: int| 0 <= i < s.len() ==> is_white(#[trigger] s[i]),
        (exists|i: int| 0 <= i < s.len() && 0x21 <= (#[trigger] s[i] as int) <= 0x7E) ==> !is_blank(s),
{
    let (a, b) = law_trimming_takes_white_space_at_the_ends(s);
    if a < b {
        assert(!is_white(s[a]));
    }
}

/// **Law: what needs no trimming keeps everything.** A text that begins and ends with a printed ASCII
/// character is trimmed to itself, and trimming twice is trimming once.
pub proof fn law_trimming_keeps_what_is_trimmed(s: Seq<char>)
    ensures
        s.len() > 0 && 0x21 <= (s[0] as int) <= 0x7E && 0x21 <= (s.last() as int) <= 0x7E ==> trimmed(s)
            == s,
        trimmed(trimmed(s)) == trimmed(s),
{
    let (a, b) = law_trimming_takes_white_space_at_the_ends(s);
    let t = trimmed(s);
    let (c, d) = law_trimming_takes_white_space_at_the_ends(t);
    if s.len() > 0 && 0x21 <= (s[0] as int) <= 0x7E && 0x21 <= (s.last() as int) <= 0x7E {
        if a > 0 {
            assert(is_white(s[0]));
        }
        if b < s.len() {
            assert(is_white(s[s.len() - 1]));
        }
        assert(s.subrange(0, s.len() as int) =~= s);
    }
    if t.len() > 0 {
        assert(t[0] == s[a] && t[t.len() - 1] == s[b - 1]);
        if c > 0 {
            assert(is_white(t[0]));
        }
        if d < t.len() {
            assert(is_white(t[t.len() - 1]));
        }
    }
    assert(t.subrange(c, d) =~= t);
}

/// **Law: what a text begins with and holds.** A text put together of three parts begins with the first
/// and holds the second; and what a text begins with stands there character by character.
pub proof fn law_parts_are_found(a: Seq<char>, b: Seq<char>, c: Seq<char>)
    ensures
        starts(a + b, a),
        has(a + b + c, b),
        starts(a, b) ==> b.len() <= a.len() && forall|i: int| 0 <= i < b.len() ==> #[trigger] a[i] == b[i],
        has(a, b) ==> b.len() <= a.len() && forall|i: int|
            0 <= i < b.len() ==> a.contains(#[trigger] b[i]),
{
    assert((a + b).subrange(0, a.len() as int) =~= a);
    let s = a + b + c;
    assert(s.subrange(a.len() as int, (a.len() + b.len()) as int) =~= b);
    assert(occurs_at(s, b, a.len() as int));
    if starts(a, b) {
        assert forall|i: int| 0 <= i < b.len() implies #[trigger] a[i] == b[i] by {
            assert(a.subrange(0, b.len() as int)[i] == b[i]);
        }
    }
    if has(a, b) {
        let at = choose|at: int| #[trigger] occurs_at(a, b, at);
        assert forall|i: int| 0 <= i < b.len() implies a.contains(#[trigger] b[i]) by {
            assert(a.subrange(at, at + b.len())[i] == a[at + i]);
        }
    }
}

/// **Law: splitting cuts at the separators alone.** Joined by the separator the pieces are the text
/// again, and no piece holds it.
pub proof fn law_splitting_is_undone_by_joining(s: Seq<char>, c: char)
    ensures
        joined(pieces(s, seq![c]), seq![c]) == s,
        forall|i: int| 0 <= i < pieces(s, seq![c]).len() ==> !(#[trigger] pieces(s, seq![c])[i]).contains(c),
{
    lemma_pieces_joined(s, c);
    lemma_pieces_hold_no_separator(s, seq![c]);
    assert(seq![c].contains(c)) by {
        assert(seq![c][0] == c);
    }
}

proof fn lemma_pieces_hold_no_separator(s: Seq<char>, seps: Seq<char>)
    ensures
        forall|i: int, x: char|
            0 <= i < pieces(s, seps).len() && seps.contains(x) ==> !(#[trigger] pieces(s, seps)[i].contains(x)),
    decreases s.len(),
{
    lemma_first_of(s, seps);
    let k = first_of(s, seps);
    if k < s.len() {
        lemma_pieces_hold_no_separator(s.skip(k + 1), seps);
        let rest = pieces(s.skip(k + 1), seps);
        let all = pieces(s, seps);
        assert forall|i: int, x: char| 0 <= i < all.len() && seps.contains(x) implies !(#[trigger] all[i].contains(x)) by {
            if i == 0 {
                if s.take(k).contains(x) {
                    let j = choose|j: int| 0 <= j < s.take(k).len() && s.take(k)[j] == x;
                    assert(s[j] == x);
                }
            } else {
                assert(all[i] == rest[i - 1]);
            }
        }
    }
}

/// **Law: a newline ends a line.** A line in front of a newline is a line of its own, without the
/// carriage return before the newline, and what is behind it are the other lines; a text without a
/// newline is one line, unless it is empty.
pub proof fn law_lines_end_at_newlines(a: Seq<char>, b: Seq<char>)
    requires
        !a.contains('\n'),
    ensures
        lines_of(a + seq!['\n'] + b) == seq![
            if a.len() > 0 && a.last() == '\r' {
                a.drop_last()
            } else {
                a
            },
        ] + lines_of(b),
        a.len() > 0 ==> lines_of(a) == seq![a],
        lines_of(Seq::empty()).len() == 0,
{
    let s = a + seq!['\n'] + b;
    let n = seq!['\n'];
    lemma_first_of(s, n);
    lemma_first_of(a, n);
    let k = first_of(s, n);
    assert(n.contains('\n')) by {
        assert(n[0] == '\n');
    }
    assert(s[a.len() as int] == '\n');
    assert(k <= a.len());
    if k < a.len() {
        assert(s[k] == a[k]);
        assert(a.contains(a[k]));
    }
    assert(s.take(k) =~= a);
    assert(s.skip(k + 1) =~= b);
    if a.len() > 0 {
        let j = first_of(a, n);
        if j < a.len() {
            assert(a.contains(a[j]));
        }
    }
}

/// **Law: case is the ASCII letters' alone.** Two texts are the same but for case exactly where each
/// pair of characters is the same, or is a capital and its small letter.
pub proof fn law_case_is_of_ascii_letters_alone(a: Seq<char>, b: Seq<char>)
    ensures
        same_but_ascii_case(a, b) <==> a.len() == b.len() && forall|i: int|
            0 <= i < a.len() ==> (#[trigger] a[i] == b[i] || (0x41 <= (a[i] as int) <= 0x5A && b[i] as int
                == a[i] as int + 0x20) || (0x41 <= (b[i] as int) <= 0x5A && a[i] as int == b[i] as int + 0x20)),
{
    if same_but_ascii_case(a, b) {
        assert forall|i: int| 0 <= i < a.len() implies (#[trigger] a[i] == b[i] || (0x41 <= (a[i] as int)
            <= 0x5A && b[i] as int == a[i] as int + 0x20) || (0x41 <= (b[i] as int) <= 0x5A && a[i] as int
            == b[i] as int + 0x20)) by {
            assert(ascii_small(a[i]) == ascii_small(b[i]));
        }
    }
}

/// **Law: writing a character twice.** Every character of the text is kept in its order; the one is
/// written twice, any other once.
pub proof fn law_doubling_keeps_every_character(s: Seq<char>, c: char, x: char)
    ensures
        x != c ==> doubled(s.push(x), c) == doubled(s, c).push(x),
        doubled(s.push(c), c) == doubled(s, c).push(c).push(c),
        doubled(Seq::empty(), c).len() == 0,
        !s.contains(c) ==> doubled(s, c) == s,
    decreases s.len(),
{
    assert(s.push(x).drop_last() =~= s);
    assert(s.push(c).drop_last() =~= s);
    if s.len() > 0 && !s.contains(c) {
        assert forall|y: char| s.drop_last().contains(y) implies s.contains(y) by {
            let k = choose|k: int| 0 <= k < s.drop_last().len() && s.drop_last()[k] == y;
            assert(s[k] == y);
        }
        law_doubling_keeps_every_character(s.drop_last(), c, x);
        assert(s.contains(s.last()));
        assert(s.drop_last().push(s.last()) =~= s);
    }
}

/// **Law: the order of texts is that of a dictionary.** What begins alike is ordered by the first
/// character that differs, and a text stands before its own continuations.
pub proof fn law_texts_are_ordered_as_in_a_dictionary(
    p: Seq<char>,
    x: char,
    y: char,
    a: Seq<char>,
    b: Seq<char>,
)
    requires
        x as int != y as int,
    ensures
        before(p + seq![x] + a, p + seq![y] + b) <==> (x as int) < (y as int),
        before(p, p + seq![x] + a),
        !before(p + seq![x] + a, p),
    decreases p.len(),
{
    let l = p + seq![x] + a;
    let r = p + seq![y] + b;
    if p.len() > 0 {
        law_texts_are_ordered_as_in_a_dictionary(p.skip(1), x, y, a, b);
        assert(l.skip(1) =~= p.skip(1) + seq![x] + a);
        assert(r.skip(1) =~= p.skip(1) + seq![y] + b);
        assert(l[0] == p[0] && r[0] == p[0]);
    } else {
        assert(l[0] == x && r[0] == y);
    }
}

/// **Law: padding adds, and adds nothing but fill.** The text stands at its end of the padded one, the
/// rest is the fill, and what is wide enough is left alone.
pub proof fn law_padding_adds_fill_alone(s: Seq<char>, width: int, fill: char)
    ensures
        padded_left(s, width, fill).len() == (if s.len() >= width {
            s.len() as int
        } else {
            width
        }),
        padded_right(s, width).len() == padded_left(s, width, fill).len(),
        padded_left(s, width, fill).skip(padded_left(s, width, fill).len() - s.len()) == s,
        padded_right(s, width).take(s.len() as int) == s,
        forall|i: int|
            0 <= i < padded_left(s, width, fill).len() - s.len() ==> #[trigger] padded_left(s, width, fill)[i]
                == fill,
        forall|i: int|
            s.len() <= i < padded_right(s, width).len() ==> #[trigger] padded_right(s, width)[i] == ' ',
{
    let l = padded_left(s, width, fill);
    let r = padded_right(s, width);
    assert(l.skip(l.len() - s.len()) =~= s);
    assert(r.take(s.len() as int) =~= s);
}

/// **Law: octal and hexadecimal numerals are positional.** The last digit is the remainder, and what
/// stands before it is the numeral of the quotient; a number below the base is one digit.
pub proof fn law_numerals_are_positional(n: nat)
    ensures
        n < 8 ==> octal(n) == seq![(0x30 + n) as char],
        n >= 8 ==> octal(n).drop_last() == octal(n / 8) && octal(n).last() as int == 0x30 + n % 8,
        n < 10 ==> hex(n) == seq![(0x30 + n) as char],
        10 <= n < 16 ==> hex(n) == seq![(0x61 + (n - 10)) as char],
        n >= 16 ==> hex(n).drop_last() == hex(n / 16) && hex(n).last() as int == (if n % 16 < 10 {
            0x30 + n % 16
        } else {
            0x57 + n % 16
        }),
        n < 10 ==> decimal(n) == seq![(0x30 + n) as char],
        n >= 10 ==> decimal(n).drop_last() == decimal(n / 10) && decimal(n).last() as int == 0x30 + n % 10,
{
    if n >= 8 {
        assert(octal(n).drop_last() =~= octal(n / 8));
    }
    if n >= 10 {
        assert(decimal(n).drop_last() =~= decimal(n / 10));
    }
    if n >= 16 {
        assert(hex(n).drop_last() =~= hex(n / 16));
    }
}

/// **Law: a sign is written where there is one.** A negative number is a minus sign and the numeral of
/// its size; any other is its numeral.
pub proof fn law_a_sign_is_written_for_negative_numbers(n: nat)
    ensures
        n > 0 ==> signed_decimal(-(n as int)) == seq!['-'] + decimal(n),
        signed_decimal(n as int) == decimal(n),
{
    reveal_strlit("-");
    assert("-"@ =~= seq!['-']);
}

/// **Law: a longer text holds what its parts hold.** What occurs in either of two texts occurs in the two
/// joined, what the first begins with they begin with, and the second stands at their end.
pub proof fn law_a_longer_text_holds_its_parts(a: Seq<char>, b: Seq<char>, x: Seq<char>)
    ensures
        starts(a, x) ==> starts(a + b, x),
        has(a, x) ==> has(a + b, x),
        has(b, x) ==> has(a + b, x),
        has(a + b, b),
        has(a + b, a),
        starts(a + b, a),
{
    let s = a + b;
    if starts(a, x) {
        assert(s.subrange(0, x.len() as int) =~= a.subrange(0, x.len() as int));
    }
    if has(a, x) {
        let at = choose|at: int| #[trigger] occurs_at(a, x, at);
        assert(s.subrange(at, at + x.len()) =~= a.subrange(at, at + x.len()));
        assert(occurs_at(s, x, at));
    }
    if has(b, x) {
        let at = choose|at: int| #[trigger] occurs_at(b, x, at);
        assert(s.subrange(at + a.len(), at + a.len() + x.len()) =~= b.subrange(at, at + x.len()));
        assert(occurs_at(s, x, at + a.len()));
    }
    assert(s.subrange(a.len() as int, s.len() as int) =~= b);
    assert(occurs_at(s, b, a.len() as int));
    assert(s.subrange(0, a.len() as int) =~= a);
    assert(occurs_at(s, a, 0));
}

/// **Law: a text is cut at each separator.** What stands in front of the first one is the first piece, and
/// what stands behind it is cut in turn; a text without one is a single piece.
pub proof fn law_a_text_is_cut_at_each_separator(a: Seq<char>, c: char, rest: Seq<char>, seps: Seq<char>)
    requires
        forall|i: int| 0 <= i < a.len() ==> !seps.contains(#[trigger] a[i]),
        seps.contains(c),
    ensures
        pieces(a, seps) == seq![a],
        pieces(a + seq![c] + rest, seps) == seq![a] + pieces(rest, seps),
{
    lemma_first_of(a, seps);
    let s = a + seq![c] + rest;
    lemma_first_of(s, seps);
    let k = first_of(s, seps);
    let n = a.len() as int;
    assert(s[n] == c);
    if k < n {
        assert(s[k] == a[k]);
    }
    assert(k == n) by {
        if k > n {
            assert(!seps.contains(s[n]));
        }
    }
    assert(s.take(k) =~= a);
    assert(s.skip(k + 1) =~= rest);
}

/// Every text begins with itself.
pub proof fn lemma_begins_with_itself(s: Seq<char>)
    ensures
        starts(s, s),
{
    assert(s.subrange(0, s.len() as int) =~= s);
}

/// **Law: a text holds what it begins with.** Whatever begins with two texts joined begins with the first of
/// them and holds the second.
pub proof fn law_a_text_holds_its_beginning(s: Seq<char>, a: Seq<char>, b: Seq<char>)
    requires
        starts(s, a + b),
    ensures
        starts(s, a),
        has(s, a),
        has(s, b),
{
    let n = a.len() as int;
    let m = (a + b).len() as int;
    let head = s.subrange(0, m);
    assert(head == a + b);
    assert(s.subrange(0, n) =~= head.subrange(0, n));
    assert(head.subrange(0, n) =~= a);
    assert(occurs_at(s, a, 0));
    assert(s.subrange(n, n + b.len()) =~= head.subrange(n, m));
    assert(head.subrange(n, m) =~= b);
    assert(occurs_at(s, b, n));
}

/// **Law: a name and its value stay together.** Whatever begins with three texts joined begins with the first
/// of them and holds the other two side by side.
pub proof fn law_neighbours_stay_together(s: Seq<char>, a: Seq<char>, b: Seq<char>, c: Seq<char>)
    requires
        starts(s, a + b + c),
    ensures
        starts(s, a),
        has(s, b + c),
{
    assert(a + b + c =~= a + (b + c));
    law_a_text_holds_its_beginning(s, a, b + c);
}

/// **Law: joining keeps each text.** One more is put behind the others, with the separator between; one alone
/// is itself, and none is nothing.
pub proof fn law_joining_keeps_each_text(list: Seq<Seq<char>>, sep: Seq<char>, one: Seq<char>)
    ensures
        joined(Seq::empty(), sep).len() == 0,
        joined(seq![one], sep) == one,
        list.len() > 0 ==> joined(list.push(one), sep) == joined(list, sep) + sep + one,
{
    assert(list.push(one).drop_last() =~= list);
}

} // verus!
