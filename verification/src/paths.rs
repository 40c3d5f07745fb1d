//! Paths as text: how they are put together, what holds them, and which components they have.
//!
//! A path of Unix has `/` between its components. A path of Windows has `\` or `/` between them and may
//! begin with a prefix: a drive, a share of the network, or the mark of a verbatim path, in which
//! nothing but `\` separates and nothing is left out.
use crate::state::Os;
use crate::text;
use vstd::prelude::*;

verus! {

// ---- joining -----------------------------------------------------------------------------------

/// The path of `leaf` inside the directory `dir`.
pub open spec fn inside(dir: Seq<char>, leaf: Seq<char>) -> Seq<char> {
    if dir.len() == 0 || dir.last() == '/' {
        dir + leaf
    } else {
        dir + "/"@ + leaf
    }
}

/// The path of `leaf` inside the directory `dir`.
pub fn join(dir: &str, leaf: &str) -> (r: String)
    ensures
        r@ == inside(dir@, leaf@),
{
    let cs = text::chars_of(dir);
    let mut out = dir.to_owned();
    if cs.len() > 0 && cs[cs.len() - 1] != '/' {
        out.append("/");
    }
    out.append(leaf);
    out
}

/// Whether `p` begins with a drive.
pub open spec fn names_drive(p: Seq<char>) -> bool {
    p.len() >= 2 && p[1] == ':' && (0x41 <= (p[0] as int) <= 0x5A || 0x61 <= (p[0] as int) <= 0x7A)
}

/// The path of `leaf` inside the Windows directory `dir`.
pub open spec fn inside_windows(dir: Seq<char>, leaf: Seq<char>) -> Seq<char> {
    if dir.len() == 0 || dir.last() == '\\' || dir.last() == '/' || (dir.len() == 2 && names_drive(
        dir,
    )) {
        dir + leaf
    } else {
        dir + "\\"@ + leaf
    }
}

fn begins_with_drive(cs: &Vec<char>) -> (r: bool)
    ensures
        r == names_drive(cs@),
{
    if cs.len() < 2 || cs[1] != ':' {
        return false;
    }
    let c: u32 = text::code(cs[0]);
    (0x41 <= c && c <= 0x5A) || (0x61 <= c && c <= 0x7A)
}

/// The path of `leaf` inside the Windows directory `dir`.
pub fn join_windows(dir: &str, leaf: &str) -> (r: String)
    ensures
        r@ == inside_windows(dir@, leaf@),
{
    let cs = text::chars_of(dir);
    let n: usize = cs.len();
    let mut out = dir.to_owned();
    let plain = n == 0 || cs[n - 1] == '\\' || cs[n - 1] == '/' || (n == 2 && begins_with_drive(
        &cs,
    ));
    if !plain {
        out.append("\\");
    }
    out.append(leaf);
    out
}

/// The path of `leaf` inside the directory `dir` of that operating system.
pub open spec fn inside_for(os: Os, dir: Seq<char>, leaf: Seq<char>) -> Seq<char> {
    if os == Os::Windows {
        inside_windows(dir, leaf)
    } else {
        inside(dir, leaf)
    }
}

/// The path of `leaf` inside the directory `dir` of that operating system.
pub fn join_for(os: Os, dir: &str, leaf: &str) -> (r: String)
    ensures
        r@ == inside_for(os, dir@, leaf@),
{
    if os == Os::Windows {
        join_windows(dir, leaf)
    } else {
        join(dir, leaf)
    }
}

// ---- the front of a path -----------------------------------------------------------------------

/// How a path is written: what separates its components, and whether `.` stands for no component.
#[derive(Debug, Clone, Copy, PartialEq, Eq, Structural)]
pub struct Style {
    pub slash: bool,
    pub back: bool,
    pub dots: bool,
}

/// Whether a character separates components.
pub open spec fn is_sep(st: Style, c: char) -> bool {
    (st.slash && c == '/') || (st.back && c == '\\')
}

/// Whether `p` is a verbatim path.
pub open spec fn is_verbatim(os: Os, p: Seq<char>) -> bool {
    os == Os::Windows && text::starts(p, "\\\\?\\"@)
}

/// How `p` is written.
pub open spec fn style_of(os: Os, p: Seq<char>) -> Style {
    Style {
        slash: !is_verbatim(os, p),
        back: os == Os::Windows,
        dots: !is_verbatim(os, p),
    }
}

/// The place of the first separator from `i` on, or the length.
pub open spec fn end_of(st: Style, p: Seq<char>, i: int) -> int
    decreases p.len() - i,
{
    if i >= p.len() {
        p.len() as int
    } else if is_sep(st, p[i]) {
        i
    } else {
        end_of(st, p, i + 1)
    }
}

/// The end of a share whose server is named from `i` on.
pub open spec fn share_end(st: Style, p: Seq<char>, i: int) -> int {
    let server_end = end_of(st, p, i);
    if server_end < p.len() {
        end_of(st, p, server_end + 1)
    } else {
        server_end
    }
}

/// Whether `p` begins with a server and its share.
pub open spec fn names_share(st: Style, p: Seq<char>) -> bool {
    &&& p.len() > 2
    &&& is_sep(st, p[0])
    &&& is_sep(st, p[1])
    &&& end_of(st, p, 2) > 2
    &&& share_end(st, p, 2) > end_of(st, p, 2) + 1
}

/// The length of the prefix of `p`.
pub open spec fn prefix_len(os: Os, p: Seq<char>) -> int {
    let st = style_of(os, p);
    if os != Os::Windows {
        0
    } else if text::starts(p, "\\\\?\\UNC\\"@) {
        share_end(st, p, 8)
    } else if is_verbatim(os, p) {
        end_of(st, p, 4)
    } else if names_drive(p) {
        2
    } else if names_share(st, p) {
        share_end(st, p, 2)
    } else {
        0
    }
}

/// The length of the front of `p`: its prefix, and the separator behind it that makes it absolute.
pub open spec fn front_len(os: Os, p: Seq<char>) -> int {
    let n = prefix_len(os, p);
    if n < p.len() && is_sep(style_of(os, p), p[n]) {
        n + 1
    } else {
        n
    }
}

proof fn lemma_end_of(st: Style, p: Seq<char>, i: int)
    requires
        0 <= i,
    ensures
        i <= p.len() ==> i <= end_of(st, p, i) <= p.len(),
        i > p.len() ==> end_of(st, p, i) == p.len(),
    decreases p.len() - i,
{
    if i < p.len() && !is_sep(st, p[i]) {
        lemma_end_of(st, p, i + 1);
    }
}

proof fn lemma_share_end(st: Style, p: Seq<char>, i: int)
    requires
        0 <= i <= p.len(),
    ensures
        i <= share_end(st, p, i) <= p.len(),
{
    lemma_end_of(st, p, i);
    lemma_end_of(st, p, end_of(st, p, i) + 1);
}

proof fn lemma_front_len(os: Os, p: Seq<char>)
    ensures
        0 <= prefix_len(os, p) <= front_len(os, p) <= p.len(),
{
    let st = style_of(os, p);
    reveal_strlit("\\\\?\\");
    reveal_strlit("\\\\?\\UNC\\");
    if text::starts(p, "\\\\?\\UNC\\"@) {
        lemma_share_end(st, p, 8);
    } else if is_verbatim(os, p) {
        lemma_end_of(st, p, 4);
    } else if p.len() > 2 {
        lemma_share_end(st, p, 2);
    }
}

fn separates(st: Style, c: char) -> (r: bool)
    ensures
        r == is_sep(st, c),
{
    (st.slash && c == '/') || (st.back && c == '\\')
}

fn find_end(cs: &Vec<char>, st: Style, i: usize) -> (k: usize)
    requires
        i <= cs@.len(),
    ensures
        i <= k <= cs@.len(),
        k == end_of(st, cs@, i as int),
{
    let mut k: usize = i;
    while k < cs.len() && !separates(st, cs[k])
        invariant
            i <= k <= cs@.len(),
            end_of(st, cs@, k as int) == end_of(st, cs@, i as int),
        decreases cs@.len() - k,
    {
        k += 1;
    }
    k
}

fn find_share_end(cs: &Vec<char>, st: Style, i: usize) -> (k: usize)
    requires
        i <= cs@.len(),
    ensures
        i <= k <= cs@.len(),
        k == share_end(st, cs@, i as int),
{
    let server_end: usize = find_end(cs, st, i);
    if server_end < cs.len() {
        find_end(cs, st, server_end + 1)
    } else {
        server_end
    }
}

/// How a path is written, with the lengths of its prefix and of its front.
struct Measure {
    st: Style,
    prefix: usize,
    front: usize,
}

fn measure(os: Os, p: &str, cs: &Vec<char>) -> (m: Measure)
    requires
        cs@ == p@,
    ensures
        m.st == style_of(os, p@),
        m.prefix == prefix_len(os, p@),
        m.front == front_len(os, p@),
        m.prefix <= m.front <= p@.len(),
{
    proof {
        lemma_front_len(os, p@);
        reveal_strlit("\\\\?\\");
        reveal_strlit("\\\\?\\UNC\\");
    }
    let windows = os == Os::Windows;
    let verbatim = windows && text::starts_with(p, "\\\\?\\");
    let st = Style { slash: !verbatim, back: windows, dots: !verbatim };
    let mut prefix: usize = 0;
    if windows {
        if text::starts_with(p, "\\\\?\\UNC\\") {
            prefix = find_share_end(cs, st, 8);
        } else if verbatim {
            prefix = find_end(cs, st, 4);
        } else if begins_with_drive(cs) {
            prefix = 2;
        } else if cs.len() > 2 && separates(st, cs[0]) && separates(st, cs[1]) {
            let server_end: usize = find_end(cs, st, 2);
            let end: usize = find_share_end(cs, st, 2);
            if server_end > 2 && end - 1 > server_end {
                prefix = end;
            }
        }
    }
    let front: usize = if prefix < cs.len() && separates(st, cs[prefix]) {
        prefix + 1
    } else {
        prefix
    };
    Measure { st, prefix, front }
}

// ---- what holds a path -------------------------------------------------------------------------

/// `p` without the separators and `.` components at its end, down to its front.
pub open spec fn without_tail(st: Style, front: int, p: Seq<char>) -> Seq<char>
    decreases p.len(),
{
    if p.len() > front && p.len() > 0 && (is_sep(st, p.last()) || (st.dots && p.len() > 1 && p.last()
        == '.' && is_sep(st, p[p.len() - 2]))) {
        without_tail(st, front, p.drop_last())
    } else {
        p
    }
}

/// The length of `p` up to and including its last separator, and at least that of its front.
pub open spec fn head_len(st: Style, front: int, p: Seq<char>) -> int
    decreases p.len(),
{
    if p.len() <= front || p.len() == 0 || is_sep(st, p.last()) {
        p.len() as int
    } else {
        head_len(st, front, p.drop_last())
    }
}

/// The directory that holds `p`: what stands before its last component, or nothing for a path
/// without a component.
pub open spec fn parent_of(os: Os, p: Seq<char>) -> Option<Seq<char>> {
    let st = style_of(os, p);
    let front = front_len(os, p);
    let t = without_tail(st, front, p);
    if t.len() <= front {
        None
    } else {
        Some(without_tail(st, front, t.take(head_len(st, front, t))))
    }
}

/// Dropping the tail leaves a prefix that keeps the front and ends in no separator.
pub proof fn lemma_without_tail(st: Style, front: int, p: Seq<char>)
    requires
        0 <= front <= p.len(),
    ensures
        front <= without_tail(st, front, p).len() <= p.len(),
        without_tail(st, front, p) == p.take(without_tail(st, front, p).len() as int),
        without_tail(st, front, p).len() > front ==> !is_sep(
            st,
            without_tail(st, front, p).last(),
        ),
    decreases p.len(),
{
    if without_tail(st, front, p) == p {
        assert(p.take(p.len() as int) =~= p);
    }
    if p.len() > front && p.len() > 0 && (is_sep(st, p.last()) || (st.dots && p.len() > 1 && p.last()
        == '.' && is_sep(st, p[p.len() - 2]))) {
        lemma_without_tail(st, front, p.drop_last());
        let n = without_tail(st, front, p).len() as int;
        assert(p.drop_last().take(n) =~= p.take(n));
    }
}

/// The head keeps the front, and is shorter than a path that ends in no separator.
pub proof fn lemma_head_len(st: Style, front: int, p: Seq<char>)
    requires
        0 <= front <= p.len(),
    ensures
        front <= head_len(st, front, p) <= p.len(),
        p.len() > front && !is_sep(st, p.last()) ==> head_len(st, front, p) < p.len(),
    decreases p.len(),
{
    if p.len() > front && !is_sep(st, p.last()) {
        lemma_head_len(st, front, p.drop_last());
    }
}

/// The parent of a path is shorter than the path.
pub proof fn lemma_parent_is_shorter(os: Os, p: Seq<char>)
    ensures
        parent_of(os, p) matches Some(d) ==> d.len() < p.len(),
{
    let st = style_of(os, p);
    let front = front_len(os, p);
    lemma_front_len(os, p);
    lemma_without_tail(st, front, p);
    let t = without_tail(st, front, p);
    lemma_head_len(st, front, t);
    if t.len() > front {
        lemma_without_tail(st, front, t.take(head_len(st, front, t)));
    }
}

/// The length of `cs[..to]` without its tail.
fn tail_start(cs: &Vec<char>, st: Style, front: usize, to: usize) -> (n: usize)
    requires
        front <= to <= cs@.len(),
    ensures
        front <= n <= to,
        cs@.take(n as int) == without_tail(st, front as int, cs@.take(to as int)),
{
    let mut n: usize = to;
    while n > front && (separates(st, cs[n - 1]) || (st.dots && n > 1 && cs[n - 1] == '.'
        && separates(st, cs[n - 2])))
        invariant
            front <= n <= to <= cs@.len(),
            without_tail(st, front as int, cs@.take(n as int)) == without_tail(
                st,
                front as int,
                cs@.take(to as int),
            ),
        decreases n,
    {
        proof {
            assert(cs@.take(n as int).drop_last() =~= cs@.take(n - 1));
        }
        n -= 1;
    }
    n
}

/// The length of the head of `cs[..to]`.
fn head_end(cs: &Vec<char>, st: Style, front: usize, to: usize) -> (h: usize)
    requires
        front <= to <= cs@.len(),
    ensures
        front <= h <= to,
        h == head_len(st, front as int, cs@.take(to as int)),
{
    let mut h: usize = to;
    while h > front && !separates(st, cs[h - 1])
        invariant
            front <= h <= to <= cs@.len(),
            head_len(st, front as int, cs@.take(h as int)) == head_len(
                st,
                front as int,
                cs@.take(to as int),
            ),
        decreases h,
    {
        proof {
            assert(cs@.take(h as int).drop_last() =~= cs@.take(h - 1));
        }
        h -= 1;
    }
    h
}

/// The directory that holds `p`: what stands before its last component, or nothing for a path
/// without a component.
pub fn parent(os: Os, p: &str) -> (r: Option<String>)
    ensures
        text::opt_view(r) == parent_of(os, p@),
{
    let cs = text::chars_of(p);
    let m = measure(os, p, &cs);
    proof {
        assert(cs@.take(cs@.len() as int) =~= p@);
    }
    let n: usize = tail_start(&cs, m.st, m.front, cs.len());
    if n <= m.front {
        return None;
    }
    let h: usize = head_end(&cs, m.st, m.front, n);
    let k: usize = tail_start(&cs, m.st, m.front, h);
    let out = text::string_of(&cs, 0, k);
    proof {
        assert(cs@.take(n as int).take(h as int) =~= cs@.take(h as int));
        assert(cs@.subrange(0, k as int) =~= cs@.take(k as int));
    }
    Some(out)
}

// ---- components --------------------------------------------------------------------------------

/// The components of `p` behind its front, the last one last: repeated separators count as one, and a
/// `.` counts only where it begins the path.
pub open spec fn names(st: Style, front: int, p: Seq<char>) -> Seq<Seq<char>>
    decreases p.len(),
{
    let t = without_tail(st, front, p);
    if front < 0 || t.len() <= front {
        Seq::empty()
    } else {
        proof {
            lemma_without_tail(st, front, p);
            lemma_head_len(st, front, t);
        }
        names(st, front, t.take(head_len(st, front, t))).push(t.skip(head_len(st, front, t)))
    }
}

/// A letter as a drive is named by.
pub open spec fn drive_letter(c: char) -> char {
    if 0x61 <= (c as int) <= 0x7A {
        ((c as int) - 0x20) as char
    } else {
        c
    }
}

/// The prefix of length `n` of `p`, one way of writing it for all: `\` for each separator, and a drive
/// by its capital letter.
pub open spec fn prefix_name(os: Os, p: Seq<char>, n: int) -> Seq<char> {
    Seq::new(
        n as nat,
        |i: int|
            if is_sep(style_of(os, p), p[i]) {
                '\\'
            } else if i == n - 2 && p[n - 1] == ':' && (n == 2 || (n == 6 && is_verbatim(os, p))) {
                drive_letter(p[i])
            } else {
                p[i]
            },
    )
}

/// The prefix as a component, where there is one.
pub open spec fn prefix_part(os: Os, p: Seq<char>) -> Seq<Seq<char>> {
    if prefix_len(os, p) > 0 {
        seq![prefix_name(os, p, prefix_len(os, p))]
    } else {
        Seq::empty()
    }
}

/// Whether `p` begins at a root. Behind every prefix but a drive there is one, written or not.
pub open spec fn is_rooted(os: Os, p: Seq<char>) -> bool {
    front_len(os, p) > prefix_len(os, p) || (prefix_len(os, p) > 0 && !names_drive(p))
}

/// The root as a component, where there is one.
pub open spec fn root_part(os: Os, p: Seq<char>) -> Seq<Seq<char>> {
    if is_rooted(os, p) {
        seq!["/"@]
    } else {
        Seq::empty()
    }
}

/// The components of `p`, from the front on. Two paths are the same path where these are the same.
pub open spec fn components(os: Os, p: Seq<char>) -> Seq<Seq<char>> {
    prefix_part(os, p) + root_part(os, p) + names(style_of(os, p), front_len(os, p), p)
}

/// Whether `p` stands strictly below the directory `base`: its components begin with those of `base`,
/// and there are more.
pub open spec fn is_below(os: Os, base: Seq<char>, p: Seq<char>) -> bool {
    let b = components(os, base);
    let c = components(os, p);
    b.len() < c.len() && c.take(b.len() as int) == b
}

/// Behind the front, the parent's components are the path's without the last. On Unix a path keeps its
/// front down to the last of its parents.
pub proof fn lemma_parent_drops_the_last(os: Os, p: Seq<char>)
    requires
        os != Os::Windows,
    ensures
        parent_of(os, p) matches Some(d) ==> components(os, p).len() > 0 && components(os, d)
            == components(os, p).drop_last(),
        parent_of(os, p) is None ==> components(os, p) == root_part(os, p),
{
    let st = style_of(os, p);
    let front = front_len(os, p);
    lemma_front_len(os, p);
    lemma_without_tail(st, front, p);
    let t = without_tail(st, front, p);
    lemma_head_len(st, front, t);
    if t.len() > front {
        let h = t.take(head_len(st, front, t));
        lemma_without_tail(st, front, h);
        let d = without_tail(st, front, h);
        assert(front_len(os, d) == front) by {
            if front > 0 {
                assert(d[0] == p[0]);
            } else if d.len() > 0 {
                assert(d[0] == p[0]);
            }
        }
        lemma_without_tail_again(st, front, h);
        assert(names(st, front, d) == names(st, front, h));
        assert(components(os, d) =~= components(os, p).drop_last());
    } else {
        assert(components(os, p) =~= root_part(os, p));
    }
}

proof fn lemma_without_tail_again(st: Style, front: int, p: Seq<char>)
    ensures
        without_tail(st, front, without_tail(st, front, p)) == without_tail(st, front, p),
    decreases p.len(),
{
    if p.len() > front && p.len() > 0 && (is_sep(st, p.last()) || (st.dots && p.len() > 1 && p.last()
        == '.' && is_sep(st, p[p.len() - 2]))) {
        lemma_without_tail_again(st, front, p.drop_last());
    }
}

fn names_to(cs: &Vec<char>, st: Style, front: usize, to: usize) -> (out: Vec<String>)
    requires
        front <= to <= cs@.len(),
    ensures
        text::views(out@) == names(st, front as int, cs@.take(to as int)),
    decreases to,
{
    let ghost p = cs@.take(to as int);
    let n: usize = tail_start(cs, st, front, to);
    let ghost t = cs@.take(n as int);
    if n <= front {
        let out: Vec<String> = Vec::new();
        proof {
            assert(text::views(out@) =~= names(st, front as int, p));
        }
        return out;
    }
    let h: usize = head_end(cs, st, front, n);
    proof {
        lemma_without_tail(st, front as int, p);
        lemma_head_len(st, front as int, t);
        assert(t.take(h as int) =~= cs@.take(h as int));
        assert(t.skip(h as int) =~= cs@.subrange(h as int, n as int));
    }
    let mut out = names_to(cs, st, front, h);
    let ghost before = text::views(out@);
    out.push(text::string_of(cs, h, n));
    proof {
        assert(text::views(out@) =~= before.push(t.skip(h as int)));
    }
    out
}

fn capital(c: char) -> (r: char)
    ensures
        r == drive_letter(c),
{
    let n: u32 = text::code(c);
    if 0x61 <= n && n <= 0x7A {
        let small: u8 = n as u8;
        (small - 0x20) as char
    } else {
        c
    }
}

fn prefix_text(os: Os, cs: &Vec<char>, st: Style, n: usize) -> (out: String)
    requires
        n <= cs@.len(),
        st == style_of(os, cs@),
    ensures
        out@ == prefix_name(os, cs@, n as int),
{
    let mut out = String::new();
    let mut i: usize = 0;
    proof {
        assert(out@ =~= prefix_name(os, cs@, n as int).take(0));
    }
    while i < n
        invariant
            i <= n <= cs@.len(),
            st == style_of(os, cs@),
            out@ == prefix_name(os, cs@, n as int).take(i as int),
        decreases n - i,
    {
        let c = if separates(st, cs[i]) {
            '\\'
        } else if n - i == 2 && cs[n - 1] == ':' && (n == 2 || (n == 6 && !st.dots)) {
            capital(cs[i])
        } else {
            cs[i]
        };
        out.push(c);
        i += 1;
        proof {
            let all = prefix_name(os, cs@, n as int);
            assert(all.take(i as int) =~= all.take(i - 1).push(all[i - 1]));
        }
    }
    proof {
        let all = prefix_name(os, cs@, n as int);
        assert(all.take(n as int) =~= all);
    }
    out
}

/// The components of `p`.
pub fn components_of(os: Os, p: &str) -> (out: Vec<String>)
    ensures
        text::views(out@) == components(os, p@),
{
    let cs = text::chars_of(p);
    let m = measure(os, p, &cs);
    let mut out: Vec<String> = Vec::new();
    if m.prefix > 0 {
        out.push(prefix_text(os, &cs, m.st, m.prefix));
    }
    if m.front > m.prefix || (m.prefix > 0 && !begins_with_drive(&cs)) {
        out.push("/".to_owned());
    }
    let ghost head = text::views(out@);
    let behind = names_to(&cs, m.st, m.front, cs.len());
    proof {
        assert(cs@.take(cs@.len() as int) =~= p@);
        assert(head =~= prefix_part(os, p@) + root_part(os, p@));
    }
    let mut i: usize = 0;
    proof {
        assert(text::views(out@) =~= head + text::views(behind@).take(0));
    }
    while i < behind.len()
        invariant
            i <= behind@.len(),
            text::views(out@) == head + text::views(behind@).take(i as int),
        decreases behind@.len() - i,
    {
        let ghost before = text::views(out@);
        out.push(behind[i].clone());
        i += 1;
        proof {
            let all = text::views(behind@);
            assert(text::views(out@) =~= before.push(all[i - 1]));
            assert(head + all.take(i as int) =~= before.push(all[i - 1]));
        }
    }
    proof {
        let all = text::views(behind@);
        assert(all.take(all.len() as int) =~= all);
        assert(text::views(out@) =~= components(os, p@));
    }
    out
}

/// Whether the list `c` begins with the list `b`.
fn begins(c: &Vec<String>, b: &Vec<String>) -> (r: bool)
    ensures
        r == (b@.len() <= c@.len() && text::views(c@).take(b@.len() as int) == text::views(b@)),
{
    if b.len() > c.len() {
        return false;
    }
    let mut i: usize = 0;
    while i < b.len()
        invariant
            i <= b@.len() <= c@.len(),
            forall|j: int| 0 <= j < i ==> (#[trigger] c@[j])@ == b@[j]@,
        decreases b@.len() - i,
    {
        if !text::same(c[i].as_str(), b[i].as_str()) {
            proof {
                assert(text::views(c@).take(b@.len() as int)[i as int] != text::views(b@)[i as int]);
            }
            return false;
        }
        i += 1;
    }
    proof {
        assert(text::views(c@).take(b@.len() as int) =~= text::views(b@));
    }
    true
}

/// Whether two paths are the same path.
pub fn same_path(os: Os, a: &str, b: &str) -> (r: bool)
    ensures
        r == (components(os, a@) == components(os, b@)),
{
    let x = components_of(os, a);
    let y = components_of(os, b);
    proof {
        let v = text::views(x@);
        assert(v.take(v.len() as int) =~= v);
    }
    x.len() == y.len() && begins(&x, &y)
}

/// Whether `p` stands strictly below the directory `base`.
pub fn below(os: Os, base: &str, p: &str) -> (r: bool)
    ensures
        r == is_below(os, base@, p@),
{
    let b = components_of(os, base);
    let c = components_of(os, p);
    b.len() < c.len() && begins(&c, &b)
}

// ---- laws --------------------------------------------------------------------------------------

/// **Law: a leaf inside a directory.** On Unix the two have one slash between them: the directory's own
/// where it ends with one, and none where there is no directory. On Windows a backslash is put between,
/// unless the directory ends with a separator or is a bare drive.
pub proof fn law_a_leaf_inside_a_directory(dir: Seq<char>, leaf: Seq<char>)
    ensures
        inside(Seq::empty(), leaf) == leaf,
        dir.len() > 0 && dir.last() != '/' ==> inside(dir, leaf) == dir + seq!['/'] + leaf,
        dir.len() > 0 && dir.last() == '/' ==> inside(dir, leaf) == dir + leaf,
        inside_windows(Seq::empty(), leaf) == leaf,
        dir.len() > 2 && dir.last() != '/' && dir.last() != '\\' ==> inside_windows(dir, leaf) == dir + seq!['\\']
            + leaf,
        dir.len() > 0 && (dir.last() == '/' || dir.last() == '\\') ==> inside_windows(dir, leaf) == dir + leaf,
        dir.len() == 2 && dir[1] == ':' && (0x41 <= (dir[0] as int) <= 0x5A || 0x61 <= (dir[0] as int) <= 0x7A)
            ==> inside_windows(dir, leaf) == dir + leaf,
        inside_for(Os::Windows, dir, leaf) == inside_windows(dir, leaf),
        inside_for(Os::Linux, dir, leaf) == inside(dir, leaf),
        inside_for(Os::MacOs, dir, leaf) == inside(dir, leaf),
{
    reveal_strlit("/");
    reveal_strlit("\\");
    assert("/"@ =~= seq!['/']);
    assert("\\"@ =~= seq!['\\']);
    assert(Seq::<char>::empty() + leaf =~= leaf);
}

/// **Law: a name behind a slash is one more component.** On Unix the components of a path, a slash and a
/// name are those of the path and the name; a slash, or a slash and a dot, at the end add nothing; the
/// root is a component of its own, and an empty path has none.
pub proof fn law_a_name_behind_a_slash_is_a_component(os: Os, p: Seq<char>, name: Seq<char>)
    requires
        os != Os::Windows,
        p.len() > 0,
        name.len() > 0,
        !name.contains('/'),
        name != seq!['.'],
    ensures
        components(os, p + seq!['/'] + name) == components(os, p).push(name),
        components(os, p + seq!['/']) == components(os, p),
        components(os, p + seq!['/', '.']) == components(os, p),
        components(os, seq!['/']) == seq!["/"@],
        components(os, Seq::empty()).len() == 0,
{
    let st = style_of(os, p);
    let front = front_len(os, p);
    lemma_front_len(os, p);
    // A slash at the end, and a dot behind it, are tail.
    let q = p + seq!['/'];
    let d = p + seq!['/', '.'];
    let s = p + seq!['/'] + name;
    assert(q[0] == p[0] && d[0] == p[0] && s[0] == p[0]);
    assert(front_len(os, q) == front && front_len(os, d) == front && front_len(os, s) == front);
    assert(q.drop_last() =~= p);
    assert(d.drop_last() =~= q);
    assert(without_tail(st, front, q) == without_tail(st, front, p));
    assert(without_tail(st, front, d) == without_tail(st, front, q));
    assert(names(st, front, q) == names(st, front, p));
    assert(names(st, front, d) == names(st, front, p));
    // A name at the end is none.
    assert(s.last() == name.last());
    assert(name.contains(name.last()));
    if name.len() > 1 {
        assert(s[s.len() - 2] == name[name.len() - 2]);
        assert(name.contains(name[name.len() - 2]));
    } else if name[0] == '.' {
        assert(name =~= seq!['.']);
    }
    assert(without_tail(st, front, s) == s);
    lemma_head_at(st, front, q, name);
    assert(s.take(q.len() as int) =~= q);
    assert(s.skip(q.len() as int) =~= name);
    assert(names(st, front, s) == names(st, front, q).push(name));
    assert(components(os, s) =~= components(os, p).push(name));
    let r = seq!['/'];
    assert(front_len(os, r) == 1);
    assert(without_tail(style_of(os, r), 1, r) == r);
    assert(names(style_of(os, r), 1, r) =~= Seq::empty());
    assert(components(os, r) =~= seq!["/"@]);
    let e = Seq::<char>::empty();
    assert(names(style_of(os, e), 0, e) =~= Seq::empty());
    assert(components(os, e) =~= Seq::empty());
}

proof fn lemma_head_at(st: Style, front: int, q: Seq<char>, name: Seq<char>)
    requires
        0 <= front <= q.len(),
        q.len() > 0,
        is_sep(st, q.last()),
        forall|i: int| 0 <= i < name.len() ==> !is_sep(st, #[trigger] name[i]),
    ensures
        head_len(st, front, q + name) == q.len(),
    decreases name.len(),
{
    let s = q + name;
    if name.len() == 0 {
        assert(s =~= q);
    } else {
        assert(s.last() == name.last());
        assert(!is_sep(st, name[name.len() - 1]));
        assert(s.drop_last() =~= q + name.drop_last());
        lemma_head_at(st, front, q, name.drop_last());
    }
}

/// **Law: the directory of a file.** On Unix the directory that holds a path, a slash and a name is that
/// path, however it is written; and what holds a path has its components but for the last.
pub proof fn law_the_directory_of_a_file(os: Os, p: Seq<char>, name: Seq<char>)
    requires
        os != Os::Windows,
        p.len() > 0,
        name.len() > 0,
        !name.contains('/'),
        name != seq!['.'],
    ensures
        parent_of(os, p + seq!['/'] + name) matches Some(d) && components(os, d) == components(os, p),
{
    let s = p + seq!['/'] + name;
    law_a_name_behind_a_slash_is_a_component(os, p, name);
    lemma_parent_drops_the_last(os, s);
    assert(components(os, p).push(name).drop_last() =~= components(os, p));
    if parent_of(os, s) is None {
        lemma_front_len(os, s);
        assert(components(os, s) == root_part(os, s));
        let st = style_of(os, s);
        let front = front_len(os, s);
        assert(s.last() == name.last());
        assert(name.contains(name.last()));
        if name.len() > 1 {
            assert(s[s.len() - 2] == name[name.len() - 2]);
            assert(name.contains(name[name.len() - 2]));
        } else if name[0] == '.' {
            assert(name =~= seq!['.']);
        }
        assert(without_tail(st, front, s) == s);
    }
}

/// **Law: what stands below a directory.** A name behind a slash does; the directory itself does not, nor
/// does what holds it; and what stands below something below it stands below it.
pub proof fn law_what_stands_below_a_directory(os: Os, a: Seq<char>, b: Seq<char>, c: Seq<char>, name: Seq<char>)
    ensures
        !is_below(os, a, a),
        is_below(os, a, b) ==> !is_below(os, b, a),
        is_below(os, a, b) && is_below(os, b, c) ==> is_below(os, a, c),
        os != Os::Windows && a.len() > 0 && name.len() > 0 && !name.contains('/') && name != seq!['.']
            ==> is_below(os, a, a + seq!['/'] + name),
{
    let x = components(os, a);
    let y = components(os, b);
    let z = components(os, c);
    if is_below(os, a, b) && is_below(os, b, c) {
        assert(z.take(x.len() as int) =~= z.take(y.len() as int).take(x.len() as int));
    }
    if os != Os::Windows && a.len() > 0 && name.len() > 0 && !name.contains('/') && name != seq!['.'] {
        law_a_name_behind_a_slash_is_a_component(os, a, name);
        assert(x.push(name).take(x.len() as int) =~= x);
    }
}

proof fn lemma_end_at(st: Style, p: Seq<char>, i: int, k: int)
    requires
        0 <= i <= k <= p.len(),
        forall|j: int| i <= j < k ==> !is_sep(st, #[trigger] p[j]),
        k < p.len() ==> is_sep(st, p[k]),
    ensures
        end_of(st, p, i) == k,
    decreases k - i,
{
    if i < k {
        assert(!is_sep(st, p[i]));
        lemma_end_at(st, p, i + 1, k);
    }
}

/// **Law: what separates the names of a path.** A slash on Unix; a slash and a backslash on Windows, but for a
/// verbatim path, whose names only a backslash separates.
pub proof fn law_what_separates_names(os: Os, p: Seq<char>, c: char)
    ensures
        os != Os::Windows ==> (is_sep(style_of(os, p), c) <==> c == '/'),
        os == Os::Windows && !text::starts(p, "\\\\?\\"@) ==> (is_sep(style_of(os, p), c) <==> c == '/' || c == '\\'),
        os == Os::Windows && text::starts(p, "\\\\?\\"@) ==> (is_sep(style_of(os, p), c) <==> c == '\\'),
        os != Os::Windows ==> style_of(os, p).dots,
        os == Os::Windows ==> (style_of(os, p).dots <==> !text::starts(p, "\\\\?\\"@)),
{
}

/// **Law: a drive is the front of a path.** A letter and a colon are the prefix, and a separator behind them is
/// the root; the letter counts as a capital. Without the separator the path has no root.
pub proof fn law_a_drive_is_the_front_of_a_path(letter: char, rest: Seq<char>)
    requires
        'a' <= letter <= 'z' || 'A' <= letter <= 'Z',
    ensures
        ({
            let p = seq![letter, ':'] + rest;
            &&& prefix_len(Os::Windows, p) == 2
            &&& rest.len() > 0 && (rest[0] == '/' || rest[0] == '\\') ==> front_len(Os::Windows, p) == 3
                && root_part(Os::Windows, p) == seq!["/"@]
            &&& rest.len() == 0 || (rest[0] != '/' && rest[0] != '\\') ==> front_len(Os::Windows, p) == 2
                && root_part(Os::Windows, p).len() == 0
            &&& prefix_part(Os::Windows, p).len() == 1
            &&& prefix_part(Os::Windows, p)[0].len() == 2
            &&& prefix_part(Os::Windows, p)[0][1] == ':'
            &&& 'a' <= letter ==> prefix_part(Os::Windows, p)[0][0] as int == letter as int - 0x20
            &&& letter <= 'Z' ==> prefix_part(Os::Windows, p)[0][0] == letter
        }),
{
    reveal_strlit("\\\\?\\");
    reveal_strlit("\\\\?\\UNC\\");
    let p = seq![letter, ':'] + rest;
    assert(p[0] == letter && p[1] == ':');
    lemma_no_mark(p);
    if rest.len() > 0 {
        assert(p[2] == rest[0]);
    }
}

proof fn lemma_no_mark(p: Seq<char>)
    requires
        p.len() > 0,
        p[0] != '\\',
    ensures
        !text::starts(p, "\\\\?\\"@),
        !text::starts(p, "\\\\?\\UNC\\"@),
{
    reveal_strlit("\\\\?\\");
    reveal_strlit("\\\\?\\UNC\\");
    text::law_parts_are_found(p, "\\\\?\\"@, Seq::empty());
    text::law_parts_are_found(p, "\\\\?\\UNC\\"@, Seq::empty());
    assert("\\\\?\\"@[0] == '\\');
    assert("\\\\?\\UNC\\"@[0] == '\\');
    assert("\\\\?\\"@.len() == 4);
    assert("\\\\?\\UNC\\"@.len() == 8);
}

/// **Law: a share of the network is the front of a path.** Two separators, the server, a separator and the
/// share are the prefix, whatever comes behind; such a path always has a root.
pub proof fn law_a_share_is_the_front_of_a_path(server: Seq<char>, share: Seq<char>, rest: Seq<char>)
    requires
        server.len() > 0,
        share.len() > 0,
        server != seq!['?'],
        forall|i: int| 0 <= i < server.len() ==> #[trigger] server[i] != '/' && server[i] != '\\',
        forall|i: int| 0 <= i < share.len() ==> #[trigger] share[i] != '/' && share[i] != '\\',
        rest.len() == 0 || rest[0] == '\\' || rest[0] == '/',
    ensures
        ({
            let p = seq!['\\', '\\'] + server + seq!['\\'] + share + rest;
            &&& prefix_len(Os::Windows, p) == 3 + server.len() + share.len()
            &&& front_len(Os::Windows, p) == 3 + server.len() + share.len() + (if rest.len() > 0 {
                1int
            } else {
                0
            })
            &&& root_part(Os::Windows, p) == seq!["/"@]
        }),
{
    let p = seq!['\\', '\\'] + server + seq!['\\'] + share + rest;
    let n = server.len() as int;
    let m = share.len() as int;
    assert(p[0] == '\\' && p[1] == '\\');
    assert(p[2 + n] == '\\');
    assert forall|j: int| 2 <= j < 2 + n implies #[trigger] p[j] == server[j - 2] by {}
    assert forall|j: int| 3 + n <= j < 3 + n + m implies #[trigger] p[j] == share[j - 3 - n] by {}
    if rest.len() > 0 {
        assert(p[3 + n + m] == rest[0]);
    }
    lemma_not_marked(p, server);
    let st = style_of(Os::Windows, p);
    assert forall|j: int| 2 <= j < 2 + n implies !is_sep(st, #[trigger] p[j]) by {
        assert(p[j] == server[j - 2]);
    }
    assert forall|j: int| 3 + n <= j < 3 + n + m implies !is_sep(st, #[trigger] p[j]) by {
        assert(p[j] == share[j - 3 - n]);
    }
    lemma_end_at(st, p, 2, 2 + n);
    lemma_end_at(st, p, 3 + n, 3 + n + m);
}

proof fn lemma_not_marked(p: Seq<char>, server: Seq<char>)
    requires
        server.len() > 0,
        server != seq!['?'],
        p.len() > 2 + server.len(),
        forall|j: int| 2 <= j < 2 + server.len() ==> #[trigger] p[j] == server[j - 2],
        forall|i: int| 0 <= i < server.len() ==> #[trigger] server[i] != '\\',
    ensures
        !text::starts(p, "\\\\?\\"@),
        !text::starts(p, "\\\\?\\UNC\\"@),
{
    reveal_strlit("\\\\?\\");
    reveal_strlit("\\\\?\\UNC\\");
    text::law_parts_are_found(p, "\\\\?\\"@, Seq::empty());
    text::law_parts_are_found(p, "\\\\?\\UNC\\"@, Seq::empty());
    assert("\\\\?\\"@.len() == 4);
    assert("\\\\?\\"@[2] == '?' && "\\\\?\\"@[3] == '\\');
    assert("\\\\?\\UNC\\"@.len() == 8);
    assert("\\\\?\\UNC\\"@[2] == '?' && "\\\\?\\UNC\\"@[3] == '\\');
    assert(p[2] == server[0]);
    if server.len() > 1 {
        assert(p[3] == server[1]);
    } else if server[0] == '?' {
        assert(server =~= seq!['?']);
    }
}

/// **Law: a verbatim path begins with its mark.** The mark and the name behind it, up to the next backslash,
/// are the prefix; a slash in that name is a character like any other.
pub proof fn law_a_verbatim_path_begins_with_its_mark(name: Seq<char>, rest: Seq<char>)
    requires
        name != "UNC"@,
        forall|i: int| 0 <= i < name.len() ==> #[trigger] name[i] != '\\',
        rest.len() == 0 || rest[0] == '\\',
    ensures
        ({
            let p = "\\\\?\\"@ + name + rest;
            &&& prefix_len(Os::Windows, p) == 4 + name.len()
            &&& front_len(Os::Windows, p) == 4 + name.len() + (if rest.len() > 0 {
                1int
            } else {
                0
            })
            &&& root_part(Os::Windows, p) == seq!["/"@]
        }),
{
    let mark = "\\\\?\\"@;
    assert(mark.len() == 4 && mark[0] == '\\' && mark[1] == '\\') by {
        reveal_strlit("\\\\?\\");
    }
    let p = mark + name + rest;
    let n = name.len() as int;
    assert(text::starts(p, mark)) by {
        text::law_a_longer_text_holds_its_parts(mark, name, mark);
        text::law_a_longer_text_holds_its_parts(mark + name, rest, mark);
    }
    assert(p.subrange(4, 4 + n) =~= name);
    assert forall|j: int| 4 <= j < 4 + n implies #[trigger] p[j] != '\\' by {
        assert(p[j] == name[j - 4]);
    }
    if rest.len() > 0 {
        assert(p[4 + n] == rest[0]);
    }
    assert(p[1] == '\\');
    lemma_not_a_share(p, n);
    lemma_verbatim_front(p, n);
}

proof fn lemma_verbatim_front(p: Seq<char>, n: int)
    requires
        0 <= n,
        4 + n <= p.len(),
        text::starts(p, "\\\\?\\"@),
        !text::starts(p, "\\\\?\\UNC\\"@),
        p[1] == '\\',
        forall|j: int| 4 <= j < 4 + n ==> #[trigger] p[j] != '\\',
        p.len() > 4 + n ==> p[4 + n] == '\\',
    ensures
        prefix_len(Os::Windows, p) == 4 + n,
        front_len(Os::Windows, p) == 4 + n + (if p.len() > 4 + n {
            1int
        } else {
            0
        }),
        root_part(Os::Windows, p) == seq!["/"@],
{
    let st = style_of(Os::Windows, p);
    assert forall|j: int| 4 <= j < 4 + n implies !is_sep(st, #[trigger] p[j]) by {}
    lemma_end_at(st, p, 4, 4 + n);
}

proof fn lemma_not_a_share(p: Seq<char>, n: int)
    requires
        0 <= n,
        4 + n <= p.len(),
        p.subrange(4, 4 + n) != "UNC"@,
        forall|j: int| 4 <= j < 4 + n ==> #[trigger] p[j] != '\\',
        p.len() > 4 + n ==> p[4 + n] == '\\',
    ensures
        !text::starts(p, "\\\\?\\UNC\\"@),
{
    reveal_strlit("\\\\?\\UNC\\");
    let u = "\\\\?\\UNC\\"@;
    assert(u.len() == 8);
    if text::starts(p, u) {
        let head = p.subrange(0, 8);
        assert(head == u);
        assert(p[4] == head[4] && p[5] == head[5] && p[6] == head[6] && p[7] == head[7]);
        assert(p[4] == 'U' && p[5] == 'N' && p[6] == 'C' && p[7] == '\\');
        if n < 3 {
            assert(p[4 + n] == '\\');
        } else if n == 3 {
            reveal_strlit("UNC");
            assert(p.subrange(4, 7) =~= "UNC"@);
        }
    }
}

/// **Law: a verbatim share is the front of a path.** The mark of one, the server, a backslash and the share.
pub proof fn law_a_verbatim_share_is_the_front_of_a_path(server: Seq<char>, share: Seq<char>, rest: Seq<char>)
    requires
        forall|i: int| 0 <= i < server.len() ==> #[trigger] server[i] != '\\',
        forall|i: int| 0 <= i < share.len() ==> #[trigger] share[i] != '\\',
        rest.len() == 0 || rest[0] == '\\',
    ensures
        prefix_len(Os::Windows, "\\\\?\\UNC\\"@ + server + seq!['\\'] + share + rest) == 9 + server.len()
            + share.len(),
{
    let mark = "\\\\?\\UNC\\"@;
    assert(mark.len() == 8) by {
        reveal_strlit("\\\\?\\UNC\\");
    }
    let p = mark + server + seq!['\\'] + share + rest;
    let n = server.len() as int;
    let m = share.len() as int;
    assert(text::starts(p, mark)) by {
        text::law_a_longer_text_holds_its_parts(mark, server, mark);
        text::law_a_longer_text_holds_its_parts(mark + server, seq!['\\'], mark);
        text::law_a_longer_text_holds_its_parts(mark + server + seq!['\\'], share, mark);
        text::law_a_longer_text_holds_its_parts(mark + server + seq!['\\'] + share, rest, mark);
    }
    assert(p[8 + n] == '\\');
    assert forall|j: int| 8 <= j < 8 + n implies #[trigger] p[j] != '\\' by {
        assert(p[j] == server[j - 8]);
    }
    assert forall|j: int| 9 + n <= j < 9 + n + m implies #[trigger] p[j] != '\\' by {
        assert(p[j] == share[j - 9 - n]);
    }
    if rest.len() > 0 {
        assert(p[9 + n + m] == rest[0]);
    }
    lemma_verbatim_share_front(p, n, m);
}

proof fn lemma_verbatim_share_front(p: Seq<char>, n: int, m: int)
    requires
        0 <= n,
        0 <= m,
        9 + n + m <= p.len(),
        text::starts(p, "\\\\?\\UNC\\"@),
        p[8 + n] == '\\',
        forall|j: int| 8 <= j < 8 + n ==> #[trigger] p[j] != '\\',
        forall|j: int| 9 + n <= j < 9 + n + m ==> #[trigger] p[j] != '\\',
        p.len() > 9 + n + m ==> p[9 + n + m] == '\\',
    ensures
        prefix_len(Os::Windows, p) == 9 + n + m,
{
    lemma_share_mark_is_a_mark(p);
    let st = style_of(Os::Windows, p);
    assert forall|j: int| 8 <= j < 8 + n implies !is_sep(st, #[trigger] p[j]) by {}
    assert forall|j: int| 9 + n <= j < 9 + n + m implies !is_sep(st, #[trigger] p[j]) by {}
    lemma_end_at(st, p, 8, 8 + n);
    lemma_end_at(st, p, 9 + n, 9 + n + m);
}

proof fn lemma_share_mark_is_a_mark(p: Seq<char>)
    requires
        text::starts(p, "\\\\?\\UNC\\"@),
    ensures
        text::starts(p, "\\\\?\\"@),
{
    reveal_strlit("\\\\?\\UNC\\");
    reveal_strlit("\\\\?\\");
    let u = "\\\\?\\UNC\\"@;
    let m = "\\\\?\\"@;
    assert(u =~= m + u.skip(4));
    text::law_a_text_holds_its_beginning(p, m, u.skip(4));
}

proof fn lemma_one_more_name(st: Style, front: int, p: Seq<char>, sep: char, name: Seq<char>)
    requires
        0 <= front <= p.len(),
        is_sep(st, sep),
        name.len() > 0,
        forall|i: int| 0 <= i < name.len() ==> !is_sep(st, #[trigger] name[i]),
        name != seq!['.'],
    ensures
        names(st, front, p + seq![sep]) == names(st, front, p),
        names(st, front, p + seq![sep] + name) == names(st, front, p).push(name),
{
    let q = p + seq![sep];
    let s = q + name;
    assert(q.drop_last() =~= p);
    assert(q.last() == sep);
    assert(without_tail(st, front, q) == without_tail(st, front, p));
    assert(names(st, front, q) == names(st, front, p));
    assert(s.last() == name.last());
    assert(!is_sep(st, name[name.len() - 1]));
    if name.len() > 1 {
        assert(s[s.len() - 2] == name[name.len() - 2]);
        assert(!is_sep(st, name[name.len() - 2]));
    } else if name[0] == '.' {
        assert(name =~= seq!['.']);
    }
    assert(without_tail(st, front, s) == s);
    lemma_head_at(st, front, q, name);
    assert(s.take(q.len() as int) =~= q);
    assert(s.skip(q.len() as int) =~= name);
}

/// **Law: a name behind a separator is a component, on a drive too.** A path of a drive with a root has one
/// component more behind either separator; a separator at the end changes nothing; and such a path stands
/// below the one it was made from, however the drive's letter is written.
pub proof fn law_a_name_on_a_drive_is_a_component(letter: char, rest: Seq<char>, sep: char, name: Seq<char>)
    requires
        'a' <= letter <= 'z' || 'A' <= letter <= 'Z',
        rest.len() > 0 && (rest[0] == '/' || rest[0] == '\\'),
        sep == '/' || sep == '\\',
        name.len() > 0,
        name != seq!['.'],
        forall|i: int| 0 <= i < name.len() ==> #[trigger] name[i] != '/' && name[i] != '\\',
    ensures
        ({
            let p = seq![letter, ':'] + rest;
            &&& components(Os::Windows, p + seq![sep]) == components(Os::Windows, p)
            &&& components(Os::Windows, p + seq![sep] + name) == components(Os::Windows, p).push(name)
            &&& is_below(Os::Windows, p, p + seq![sep] + name)
        }),
{
    let os = Os::Windows;
    let p = seq![letter, ':'] + rest;
    let q = p + seq![sep];
    let s = q + name;
    assert(q =~= seq![letter, ':'] + (rest + seq![sep]));
    assert(s =~= seq![letter, ':'] + (rest + seq![sep] + name));
    law_a_drive_is_the_front_of_a_path(letter, rest);
    law_a_drive_is_the_front_of_a_path(letter, rest + seq![sep]);
    law_a_drive_is_the_front_of_a_path(letter, rest + seq![sep] + name);
    assert(p[0] == letter && q[0] == letter && s[0] == letter);
    lemma_no_mark(p);
    lemma_no_mark(q);
    lemma_no_mark(s);
    let st = style_of(os, p);
    assert(style_of(os, q) == st && style_of(os, s) == st);
    assert forall|i: int| 0 <= i < name.len() implies !is_sep(st, #[trigger] name[i]) by {}
    lemma_one_more_name(st, 3, p, sep, name);
    assert(prefix_part(os, q)[0] =~= prefix_part(os, p)[0]);
    assert(prefix_part(os, s)[0] =~= prefix_part(os, p)[0]);
    assert(prefix_part(os, q) =~= prefix_part(os, p));
    assert(prefix_part(os, s) =~= prefix_part(os, p));
    assert(components(os, s) =~= components(os, p).push(name));
    assert(components(os, s).take(components(os, p).len() as int) =~= components(os, p));
}

/// **Law: what holds a file is the path in front of it.** A path that ends in a name, a slash and one name more
/// are held by that path, as it is written.
pub proof fn law_what_holds_a_file_is_written_in_front_of_it(os: Os, p: Seq<char>, name: Seq<char>)
    requires
        os != Os::Windows,
        p.len() > 1,
        p.last() != '/',
        p.last() != '.',
        name.len() > 0,
        !name.contains('/'),
        name != seq!['.'],
    ensures
        parent_of(os, p + seq!['/'] + name) == Some(p),
        parent_of(os, Seq::empty()) is None,
        parent_of(os, seq!['/']) is None,
{
    let s = p + seq!['/'] + name;
    let q = p + seq!['/'];
    let st = style_of(os, s);
    let front = front_len(os, s);
    lemma_front_len(os, s);
    assert(s[0] == p[0]);
    assert(front <= 1);
    assert(s.last() == name.last());
    assert(name.contains(name.last()));
    if name.len() > 1 {
        assert(s[s.len() - 2] == name[name.len() - 2]);
        assert(name.contains(name[name.len() - 2]));
    } else if name[0] == '.' {
        assert(name =~= seq!['.']);
    }
    assert(without_tail(st, front, s) == s);
    assert forall|i: int| 0 <= i < name.len() implies !is_sep(st, #[trigger] name[i]) by {
        assert(name.contains(name[i]));
    }
    lemma_head_at(st, front, q, name);
    assert(s.take(q.len() as int) =~= q);
    assert(q.last() == '/');
    assert(q.drop_last() =~= p);
    assert(without_tail(st, front, p) == p);
    assert(without_tail(st, front, q) == p);
    let r = seq!['/'];
    assert(front_len(os, r) == 1);
    assert(without_tail(style_of(os, r), 1, r) == r);
    let e = Seq::<char>::empty();
    assert(front_len(os, e) == 0);
}

} // verus!
