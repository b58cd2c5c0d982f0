use vstd::prelude::*;

verus! {

/// The views of a sequence of character vectors.
pub open spec fn views(v: Seq<Vec<char>>) -> Seq<Seq<char>> {
    Seq::new(v.len(), |i: int| v[i]@)
}

pub open spec fn is_digit(c: char) -> bool {
    '0' <= c && c <= '9'
}

pub open spec fn digit_value(c: char) -> nat {
    ((c as u32) - ('0' as u32)) as nat
}

/// Unicode white space: the characters that `char::is_whitespace` accepts.
pub open spec fn is_blank(c: char) -> bool {
    ('\u{9}' <= c && c <= '\u{d}') || c == ' ' || c == '\u{85}' || c == '\u{a0}' || c == '\u{1680}'
        || ('\u{2000}' <= c && c <= '\u{200a}') || c == '\u{2028}' || c == '\u{2029}' || c
        == '\u{202f}' || c == '\u{205f}' || c == '\u{3000}'
}

/// `c` equals the lower-case keyword character `k`, ignoring ASCII case.
pub open spec fn same_ci(c: char, k: char) -> bool {
    c == k || ('a' <= k && k <= 'z' && (c as u32) + 32 == (k as u32))
}

pub open spec fn match_ci_at(s: Seq<char>, i: int, kw: Seq<char>) -> bool {
    0 <= i && i + kw.len() <= s.len() && forall|j: int| 0 <= j < kw.len() ==> same_ci(#[trigger] s[i + j], kw[j])
}

pub open spec fn contains_ci(s: Seq<char>, kw: Seq<char>) -> bool {
    exists|i: int| #[trigger] match_ci_at(s, i, kw)
}

pub open spec fn contains_any_ci(s: Seq<char>, kws: Seq<Seq<char>>) -> bool {
    exists|k: int| 0 <= k < kws.len() && #[trigger] contains_ci(s, kws[k])
}

pub open spec fn match_at(s: Seq<char>, i: int, w: Seq<char>) -> bool {
    0 <= i && i + w.len() <= s.len() && s.subrange(i, i + w.len()) == w
}

pub open spec fn contains_any(s: Seq<char>, ws: Seq<Seq<char>>) -> bool {
    exists|k: int, i: int| 0 <= k < ws.len() && #[trigger] match_at(s, i, ws[k])
}

/// Drops one trailing carriage return.
pub open spec fn strip_cr(s: Seq<char>) -> Seq<char> {
    if s.len() > 0 && s.last() == '\r' {
        s.drop_last()
    } else {
        s
    }
}

/// The lines of `t` from position `i` on, where the current line started at `start`.
/// A line ends at `'\n'`; a final `'\r'` is dropped; a final empty line is not one.
pub open spec fn split_from(t: Seq<char>, i: int, start: int) -> Seq<Seq<char>>
    decreases t.len() - i,
{
    if i >= t.len() {
        if start < t.len() {
            seq![strip_cr(t.subrange(start, t.len() as int))]
        } else {
            Seq::empty()
        }
    } else if t[i] == '\n' {
        seq![strip_cr(t.subrange(start, i))] + split_from(t, i + 1, i + 1)
    } else {
        split_from(t, i + 1, start)
    }
}

pub open spec fn lines_of(t: Seq<char>) -> Seq<Seq<char>> {
    split_from(t, 0, 0)
}

/// First index at or after `i` that is not blank.
pub open spec fn skip_blank(s: Seq<char>, i: int) -> int
    decreases s.len() - i,
{
    if i < s.len() && is_blank(s[i]) {
        skip_blank(s, i + 1)
    } else {
        i
    }
}

/// Index just after the last non-blank character before `e`.
pub open spec fn skip_blank_back(s: Seq<char>, e: int) -> int
    decreases e,
{
    if e > 0 && is_blank(s[e - 1]) {
        skip_blank_back(s, e - 1)
    } else {
        e
    }
}

/// `s` without blanks at either end.
pub open spec fn trimmed(s: Seq<char>) -> Seq<char> {
    let a = skip_blank(s, 0);
    let b = skip_blank_back(s, s.len() as int);
    if a < b {
        s.subrange(a, b)
    } else {
        Seq::empty()
    }
}

/// Relies on `String`'s `FromIterator<&char>`: the string holds exactly the given characters.
#[verifier::external_body]
pub fn string_from_chars(v: &Vec<char>) -> (r: String)
    ensures
        r@ == v@,
{
    v.iter().collect()
}

/// The characters of `s`, in order.
pub fn chars_of(s: &str) -> (r: Vec<char>)
    ensures
        r@ == s@,
{
    let n = s.unicode_len();
    let mut r: Vec<char> = Vec::new();
    let mut i: usize = 0;
    while i < n
        invariant
            n == s@.len(),
            i <= n,
            r@ == s@.subrange(0, i as int),
        decreases n - i,
    {
        let c = s.get_char(i);
        r.push(c);
        i = i + 1;
        assert(r@ =~= s@.subrange(0, i as int));
    }
    assert(r@ =~= s@);
    r
}

/// A copy of `t[a..b]`.
pub fn copy_range(t: &Vec<char>, a: usize, b: usize) -> (r: Vec<char>)
    requires
        a <= b <= t@.len(),
    ensures
        r@ == t@.subrange(a as int, b as int),
{
    let mut r: Vec<char> = Vec::new();
    let mut i: usize = a;
    while i < b
        invariant
            a <= i <= b,
            b <= t@.len(),
            r@ == t@.subrange(a as int, i as int),
        decreases b - i,
    {
        r.push(t[i]);
        i = i + 1;
        assert(r@ =~= t@.subrange(a as int, i as int));
    }
    r
}

/// `t[a..b]` without a final carriage return.
fn line_copy(t: &Vec<char>, a: usize, b: usize) -> (r: Vec<char>)
    requires
        a <= b <= t@.len(),
    ensures
        r@ == strip_cr(t@.subrange(a as int, b as int)),
{
    if a < b && t[b - 1] == '\r' {
        let r = copy_range(t, a, b - 1);
        assert(r@ =~= strip_cr(t@.subrange(a as int, b as int)));
        r
    } else {
        copy_range(t, a, b)
    }
}

/// Splits text into lines as `str::lines` does.
pub fn split_lines(t: &Vec<char>) -> (r: Vec<Vec<char>>)
    ensures
        views(r@) == lines_of(t@),
{
    let n = t.len();
    let mut r: Vec<Vec<char>> = Vec::new();
    let mut i: usize = 0;
    let mut start: usize = 0;
    while i < n
        invariant
            n == t@.len(),
            start <= i <= n,
            views(r@) + split_from(t@, i as int, start as int) == lines_of(t@),
        decreases n - i,
    {
        if t[i] == '\n' {
            let line = line_copy(t, start, i);
            proof {
                let rest = split_from(t@, i + 1, i + 1);
                assert(views(r@.push(line)) =~= views(r@) + seq![line@]);
                assert(views(r@) + (seq![line@] + rest) =~= (views(r@) + seq![line@]) + rest);
            }
            r.push(line);
            start = i + 1;
        }
        i = i + 1;
    }
    if start < n {
        let line = line_copy(t, start, n);
        proof {
            assert(views(r@.push(line)) =~= views(r@) + seq![line@]);
        }
        r.push(line);
    } else {
        assert(views(r@) + Seq::<Seq<char>>::empty() =~= views(r@));
    }
    r
}

/// `s` with the blanks at both ends removed.
pub fn trim(s: &Vec<char>) -> (r: Vec<char>)
    ensures
        r@ == trimmed(s@),
{
    let n = s.len();
    let mut a: usize = 0;
    while a < n && is_blank_exec(s[a])
        invariant
            a <= n,
            n == s@.len(),
            skip_blank(s@, a as int) == skip_blank(s@, 0),
        decreases n - a,
    {
        a = a + 1;
    }
    let mut b: usize = n;
    while b > 0 && is_blank_exec(s[b - 1])
        invariant
            b <= n,
            n == s@.len(),
            skip_blank_back(s@, b as int) == skip_blank_back(s@, n as int),
        decreases b,
    {
        b = b - 1;
    }
    if a < b {
        copy_range(s, a, b)
    } else {
        Vec::new()
    }
}

pub fn is_blank_exec(c: char) -> (r: bool)
    ensures
        r == is_blank(c),
{
    ('\u{9}' <= c && c <= '\u{d}') || c == ' ' || c == '\u{85}' || c == '\u{a0}' || c == '\u{1680}'
        || ('\u{2000}' <= c && c <= '\u{200a}') || c == '\u{2028}' || c == '\u{2029}' || c
        == '\u{202f}' || c == '\u{205f}' || c == '\u{3000}'
}

pub fn is_digit_exec(c: char) -> (r: bool)
    ensures
        r == is_digit(c),
{
    '0' <= c && c <= '9'
}

pub fn digit_of(c: char) -> (r: u64)
    requires
        is_digit(c),
    ensures
        r == digit_value(c),
        r <= 9,
{
    ((c as u32) - ('0' as u32)) as u64
}

fn same_ci_exec(c: char, k: char) -> (r: bool)
    ensures
        r == same_ci(c, k),
{
    c == k || ('a' <= k && k <= 'z' && (c as u32) + 32 == (k as u32))
}

fn match_ci_at_exec(s: &Vec<char>, i: usize, kw: &Vec<char>) -> (r: bool)
    requires
        i + kw@.len() <= s@.len(),
    ensures
        r == match_ci_at(s@, i as int, kw@),
{
    let sl = s.len();
    let mut j: usize = 0;
    while j < kw.len()
        invariant
            sl == s@.len(),
            i + kw@.len() <= s@.len(),
            j <= kw@.len(),
            forall|jj: int| 0 <= jj < j ==> same_ci(#[trigger] s@[i + jj], kw@[jj]),
        decreases kw@.len() - j,
    {
        if !same_ci_exec(s[i + j], kw[j]) {
            return false;
        }
        j = j + 1;
    }
    true
}

/// Whether `kw` (lower case) occurs in `s`, ignoring ASCII case.
pub fn contains_ci_exec(s: &Vec<char>, kw: &Vec<char>) -> (r: bool)
    ensures
        r == contains_ci(s@, kw@),
{
    if kw.len() > s.len() {
        assert forall|i: int| !#[trigger] match_ci_at(s@, i, kw@) by {}
        return false;
    }
    let last = s.len() - kw.len();
    let mut i: usize = 0;
    loop
        invariant
            last == s@.len() - kw@.len(),
            i <= last,
            forall|ii: int| 0 <= ii < i ==> !#[trigger] match_ci_at(s@, ii, kw@),
        ensures
            forall|ii: int| 0 <= ii <= last ==> !#[trigger] match_ci_at(s@, ii, kw@),
        decreases last - i,
    {
        if match_ci_at_exec(s, i, kw) {
            return true;
        }
        if i == last {
            break;
        }
        i = i + 1;
    }
    assert forall|ii: int| !#[trigger] match_ci_at(s@, ii, kw@) by {
        if 0 <= ii <= last {
        }
    }
    false
}

/// Whether one of `kws` occurs in `s`, ignoring ASCII case.
pub fn contains_any_ci_exec(s: &Vec<char>, kws: &Vec<Vec<char>>) -> (r: bool)
    ensures
        r == contains_any_ci(s@, views(kws@)),
{
    let mut k: usize = 0;
    while k < kws.len()
        invariant
            k <= kws@.len(),
            forall|kk: int| 0 <= kk < k ==> !#[trigger] contains_ci(s@, views(kws@)[kk]),
        decreases kws@.len() - k,
    {
        if contains_ci_exec(s, &kws[k]) {
            assert(contains_ci(s@, views(kws@)[k as int]));
            return true;
        }
        k = k + 1;
    }
    false
}

pub fn match_at_exec(s: &Vec<char>, i: usize, w: &Vec<char>) -> (r: bool)
    ensures
        r == match_at(s@, i as int, w@),
{
    if i > s.len() || w.len() > s.len() - i {
        return false;
    }
    let sl = s.len();
    let mut j: usize = 0;
    while j < w.len()
        invariant
            sl == s@.len(),
            i + w@.len() <= s@.len(),
            j <= w@.len(),
            forall|jj: int| 0 <= jj < j ==> s@[i + jj] == w@[jj],
        decreases w@.len() - j,
    {
        if s[i + j] != w[j] {
            assert(s@.subrange(i as int, i + w@.len())[j as int] != w@[j as int]);
            return false;
        }
        j = j + 1;
    }
    assert(s@.subrange(i as int, i + w@.len()) =~= w@);
    true
}

/// Whether one of `ws` occurs in `s` exactly.
pub fn contains_any_exec(s: &Vec<char>, ws: &Vec<Vec<char>>) -> (r: bool)
    ensures
        r == contains_any(s@, views(ws@)),
{
    let mut k: usize = 0;
    while k < ws.len()
        invariant
            k <= ws@.len(),
            forall|kk: int, ii: int| 0 <= kk < k ==> !#[trigger] match_at(s@, ii, views(ws@)[kk]),
        decreases ws@.len() - k,
    {
        let mut i: usize = 0;
        loop
            invariant
                k < ws@.len(),
                i <= s@.len(),
                forall|ii: int| 0 <= ii < i ==> !#[trigger] match_at(s@, ii, ws@[k as int]@),
            ensures
                forall|ii: int| 0 <= ii <= s@.len() ==> !#[trigger] match_at(s@, ii, ws@[k as int]@),
            decreases s@.len() - i,
        {
            if match_at_exec(s, i, &ws[k]) {
                assert(match_at(s@, i as int, views(ws@)[k as int]));
                return true;
            }
            if i == s.len() {
                break;
            }
            i = i + 1;
        }
        assert forall|kk: int, ii: int| 0 <= kk < k + 1 implies !#[trigger] match_at(s@, ii, views(ws@)[kk]) by {
            if kk == k && 0 <= ii && ii <= s@.len() {
                assert(views(ws@)[kk] == ws@[k as int]@);
            }
        }
        k = k + 1;
    }
    false
}

} // verus!
