use vstd::prelude::*;
use crate::text::{
    lines_of, split_from, strip_cr, views, is_digit, digit_value, match_at, contains_any_ci, is_digit_exec, digit_of,
    contains_any_ci_exec,
};

verus! {

/// The largest whole part an amount may have.
pub const AMOUNT_WHOLE_MAX: u64 = 100_000_000_000_000;

/// End of the run of digits and thousands commas that starts at `i`.
pub open spec fn grouped_end(l: Seq<char>, i: int) -> int
    decreases l.len() - i,
{
    if 0 <= i < l.len() && (is_digit(l[i]) || l[i] == ',') {
        grouped_end(l, i + 1)
    } else {
        i
    }
}

/// The number written by the digits of `l[i..e]`, commas skipped.
pub open spec fn grouped_value(l: Seq<char>, i: int, e: int) -> nat
    decreases e - i,
{
    if e <= i {
        0
    } else if is_digit(l[e - 1]) {
        grouped_value(l, i, e - 1) * 10 + digit_value(l[e - 1])
    } else {
        grouped_value(l, i, e - 1)
    }
}

/// The amount, in hundredths, whose first digit is at `i`, with the index just after it:
/// a run of digits and commas not preceded by a digit, a period, then one or two
/// fractional digits not followed by a third.
pub open spec fn amount_at(l: Seq<char>, i: int) -> Option<(int, nat)> {
    if 0 <= i < l.len() && is_digit(l[i]) && (i == 0 || !is_digit(l[i - 1])) {
        let e = grouped_end(l, i);
        if e + 1 < l.len() && l[e] == '.' && is_digit(l[e + 1]) {
            let whole = grouped_value(l, i, e);
            let two = e + 2 < l.len() && is_digit(l[e + 2]);
            if two && e + 3 < l.len() && is_digit(l[e + 3]) {
                None
            } else if whole > AMOUNT_WHOLE_MAX {
                None
            } else if two {
                Some((e + 3, whole * 100 + digit_value(l[e + 1]) * 10 + digit_value(l[e + 2])))
            } else {
                Some((e + 2, whole * 100 + digit_value(l[e + 1]) * 10))
            }
        } else {
            None
        }
    } else {
        None
    }
}

/// The first amount in `l` at or after `i`.
pub open spec fn first_amount(l: Seq<char>, i: int) -> Option<nat>
    decreases l.len() - i,
{
    if i < 0 || i >= l.len() {
        None
    } else {
        match amount_at(l, i) {
            Some(p) => Some(p.1),
            None => first_amount(l, i + 1),
        }
    }
}

/// Start of the spaces that end just before `i`.
pub open spec fn spaces_back(l: Seq<char>, i: int) -> int
    decreases i,
{
    if 0 < i <= l.len() && l[i - 1] == ' ' {
        spaces_back(l, i - 1)
    } else {
        i
    }
}

/// End of the spaces that start at `i`.
pub open spec fn spaces_fwd(l: Seq<char>, i: int) -> int
    decreases l.len() - i,
{
    if 0 <= i < l.len() && l[i] == ' ' {
        spaces_fwd(l, i + 1)
    } else {
        i
    }
}

pub open spec fn symbol_ends_at(l: Seq<char>, k: int, syms: Seq<Seq<char>>) -> bool {
    exists|j: int| 0 <= j < syms.len() && #[trigger] match_at(l, k - syms[j].len(), syms[j])
}

pub open spec fn symbol_starts_at(l: Seq<char>, k: int, syms: Seq<Seq<char>>) -> bool {
    exists|j: int| 0 <= j < syms.len() && #[trigger] match_at(l, k, syms[j])
}

/// The amount at `i` when a currency mark stands before or after it, spaces aside.
pub open spec fn currency_amount_at(l: Seq<char>, i: int) -> Option<nat> {
    match amount_at(l, i) {
        Some(p) => if symbol_ends_at(l, spaces_back(l, i), prefix_symbols())
            || symbol_starts_at(l, spaces_fwd(l, p.0), suffix_symbols()) {
            Some(p.1)
        } else {
            None
        },
        None => None,
    }
}

/// The first amount with a currency mark in `l` at or after `i`.
pub open spec fn first_currency_amount(l: Seq<char>, i: int) -> Option<nat>
    decreases l.len() - i,
{
    if i < 0 || i >= l.len() {
        None
    } else {
        match currency_amount_at(l, i) {
            Some(v) => Some(v),
            None => first_currency_amount(l, i + 1),
        }
    }
}

/// The first amount on a line, from line `k` on, that names the total.
pub open spec fn indicated_total(ls: Seq<Seq<char>>, k: int) -> Option<nat>
    decreases ls.len() - k,
{
    if k < 0 || k >= ls.len() {
        None
    } else if contains_any_ci(ls[k], total_keywords()) && first_amount(ls[k], 0) is Some {
        first_amount(ls[k], 0)
    } else {
        indicated_total(ls, k + 1)
    }
}

/// The first amount with a currency mark, from line `k` on.
pub open spec fn marked_total(ls: Seq<Seq<char>>, k: int) -> Option<nat>
    decreases ls.len() - k,
{
    if k < 0 || k >= ls.len() {
        None
    } else if first_currency_amount(ls[k], 0) is Some {
        first_currency_amount(ls[k], 0)
    } else {
        marked_total(ls, k + 1)
    }
}

/// The total of a receipt's lines, in hundredths: the amount of the first line that
/// names the total and holds an amount; failing that, the first amount with a currency mark.
pub open spec fn total_of_lines(ls: Seq<Seq<char>>) -> Option<nat> {
    match indicated_total(ls, 0) {
        Some(v) => Some(v),
        None => marked_total(ls, 0),
    }
}

pub open spec fn amount_view(r: Option<u64>) -> Option<nat> {
    match r {
        Some(v) => Some(v as nat),
        None => None,
    }
}

proof fn lemma_grouped_end(l: Seq<char>, i: int)
    requires
        0 <= i,
    ensures
        i <= grouped_end(l, i),
    decreases l.len() - i,
{
    if 0 <= i < l.len() && (is_digit(l[i]) || l[i] == ',') {
        lemma_grouped_end(l, i + 1);
    }
}

proof fn lemma_grouped_value_mono(l: Seq<char>, i: int, k: int, e: int)
    requires
        i <= k <= e,
    ensures
        grouped_value(l, i, k) <= grouped_value(l, i, e),
    decreases e - k,
{
    if k < e {
        lemma_grouped_value_mono(l, i, k, e - 1);
    }
}

/// Words that mark the line holding a receipt's total (English in lower case, Thai).
pub open spec fn total_keywords() -> Seq<Seq<char>> {
    seq![
        seq!['t', 'o', 't', 'a', 'l'],
        seq!['a', 'm', 'o', 'u', 'n', 't'],
        seq!['s', 'u', 'm'],
        seq!['ร', 'ว', 'ม'],
        seq!['ท', 'ั', '้', 'ง', 'ห', 'ม', 'ด'],
        seq!['ร', 'ว', 'ม', 'ท', 'ั', '้', 'ง', 'ส', 'ิ', '้', 'น'],
        seq!['ร', 'ว', 'ม', 'เ', 'ง', 'ิ', 'น'],
        seq!['จ', 'ำ', 'น', 'ว', 'น', 'เ', 'ง', 'ิ', 'น'],
        seq!['ย', 'อ', 'ด', 'ร', 'ว', 'ม'],
        seq!['ย', 'อ', 'ด', 'เ', 'ง', 'ิ', 'น'],
    ]
}

/// Currency marks written before an amount.
pub open spec fn prefix_symbols() -> Seq<Seq<char>> {
    seq![
        seq!['฿'],
        seq!['บ', 'า', 'ท'],
        seq!['บ', '.'],
        seq!['T', 'H', 'B'],
        seq!['$'],
    ]
}

/// Currency marks written after an amount.
pub open spec fn suffix_symbols() -> Seq<Seq<char>> {
    seq![
        seq!['฿'],
        seq!['บ', 'า', 'ท'],
        seq!['บ', '.'],
    ]
}

fn total_keywords_exec() -> (r: Vec<Vec<char>>)
    ensures
        views(r@) == total_keywords(),
{
    let mut r: Vec<Vec<char>> = Vec::new();
    r.push(vec!['t', 'o', 't', 'a', 'l']);
    r.push(vec!['a', 'm', 'o', 'u', 'n', 't']);
    r.push(vec!['s', 'u', 'm']);
    r.push(vec!['ร', 'ว', 'ม']);
    r.push(vec!['ท', 'ั', '้', 'ง', 'ห', 'ม', 'ด']);
    r.push(vec!['ร', 'ว', 'ม', 'ท', 'ั', '้', 'ง', 'ส', 'ิ', '้', 'น']);
    r.push(vec!['ร', 'ว', 'ม', 'เ', 'ง', 'ิ', 'น']);
    r.push(vec!['จ', 'ำ', 'น', 'ว', 'น', 'เ', 'ง', 'ิ', 'น']);
    r.push(vec!['ย', 'อ', 'ด', 'ร', 'ว', 'ม']);
    r.push(vec!['ย', 'อ', 'ด', 'เ', 'ง', 'ิ', 'น']);
    assert(views(r@) =~~= total_keywords());
    r
}

fn prefix_symbols_exec() -> (r: Vec<Vec<char>>)
    ensures
        views(r@) == prefix_symbols(),
{
    let mut r: Vec<Vec<char>> = Vec::new();
    r.push(vec!['฿']);
    r.push(vec!['บ', 'า', 'ท']);
    r.push(vec!['บ', '.']);
    r.push(vec!['T', 'H', 'B']);
    r.push(vec!['$']);
    assert(views(r@) =~~= prefix_symbols());
    r
}

fn suffix_symbols_exec() -> (r: Vec<Vec<char>>)
    ensures
        views(r@) == suffix_symbols(),
{
    let mut r: Vec<Vec<char>> = Vec::new();
    r.push(vec!['฿']);
    r.push(vec!['บ', 'า', 'ท']);
    r.push(vec!['บ', '.']);
    assert(views(r@) =~~= suffix_symbols());
    r
}

/// The amount whose first digit is at `i`, with the index just after it.
fn amount_at_exec(l: &Vec<char>, i: usize) -> (r: Option<(usize, u64)>)
    ensures
        match r {
            Some(p) => amount_at(l@, i as int) == Some((p.0 as int, p.1 as nat)),
            None => amount_at(l@, i as int) is None,
        },
{
    let n = l.len();
    if i >= n || !is_digit_exec(l[i]) || (i > 0 && is_digit_exec(l[i - 1])) {
        return None;
    }
    let mut e: usize = i;
    let mut whole: u64 = 0;
    while e < n && (is_digit_exec(l[e]) || l[e] == ',')
        invariant
            n == l@.len(),
            i <= e <= n,
            grouped_end(l@, e as int) == grouped_end(l@, i as int),
            whole == grouped_value(l@, i as int, e as int),
            whole <= AMOUNT_WHOLE_MAX,
        decreases n - e,
    {
        if is_digit_exec(l[e]) {
            let next = whole * 10 + digit_of(l[e]);
            if next > AMOUNT_WHOLE_MAX {
                proof {
                    lemma_grouped_end(l@, e + 1);
                    lemma_grouped_value_mono(l@, i as int, e + 1, grouped_end(l@, i as int));
                }
                return None;
            }
            whole = next;
        }
        e = e + 1;
    }
    if e < n && n - e >= 2 && l[e] == '.' && is_digit_exec(l[e + 1]) {
        let two = n - e >= 3 && is_digit_exec(l[e + 2]);
        if two && n - e >= 4 && is_digit_exec(l[e + 3]) {
            return None;
        }
        if two {
            Some((e + 3, whole * 100 + digit_of(l[e + 1]) * 10 + digit_of(l[e + 2])))
        } else {
            Some((e + 2, whole * 100 + digit_of(l[e + 1]) * 10))
        }
    } else {
        None
    }
}

/// The first amount in `l`.
fn first_amount_exec(l: &Vec<char>) -> (r: Option<u64>)
    ensures
        amount_view(r) == first_amount(l@, 0),
{
    let mut i: usize = 0;
    while i < l.len()
        invariant
            i <= l@.len(),
            first_amount(l@, i as int) == first_amount(l@, 0),
        decreases l@.len() - i,
    {
        if let Some(p) = amount_at_exec(l, i) {
            return Some(p.1);
        }
        i = i + 1;
    }
    None
}

fn symbol_ends_at_exec(l: &Vec<char>, k: usize, syms: &Vec<Vec<char>>) -> (r: bool)
    requires
        k <= l@.len(),
    ensures
        r == symbol_ends_at(l@, k as int, views(syms@)),
{
    let mut j: usize = 0;
    while j < syms.len()
        invariant
            k <= l@.len(),
            j <= syms@.len(),
            forall|jj: int| 0 <= jj < j ==> !#[trigger] match_at(l@, k - views(syms@)[jj].len(), views(syms@)[jj]),
        decreases syms@.len() - j,
    {
        let w = &syms[j];
        if w.len() <= k && crate::text::match_at_exec(l, k - w.len(), w) {
            assert(match_at(l@, k - views(syms@)[j as int].len(), views(syms@)[j as int]));
            return true;
        }
        assert(!match_at(l@, k - views(syms@)[j as int].len(), views(syms@)[j as int]));
        j = j + 1;
    }
    false
}

fn symbol_starts_at_exec(l: &Vec<char>, k: usize, syms: &Vec<Vec<char>>) -> (r: bool)
    ensures
        r == symbol_starts_at(l@, k as int, views(syms@)),
{
    let mut j: usize = 0;
    while j < syms.len()
        invariant
            j <= syms@.len(),
            forall|jj: int| 0 <= jj < j ==> !#[trigger] match_at(l@, k as int, views(syms@)[jj]),
        decreases syms@.len() - j,
    {
        if crate::text::match_at_exec(l, k, &syms[j]) {
            assert(match_at(l@, k as int, views(syms@)[j as int]));
            return true;
        }
        j = j + 1;
    }
    false
}

fn currency_amount_at_exec(
    l: &Vec<char>,
    i: usize,
    prefixes: &Vec<Vec<char>>,
    suffixes: &Vec<Vec<char>>,
) -> (r: Option<u64>)
    requires
        views(prefixes@) == prefix_symbols(),
        views(suffixes@) == suffix_symbols(),
    ensures
        amount_view(r) == currency_amount_at(l@, i as int),
{
    match amount_at_exec(l, i) {
        Some(p) => {
            let mut b: usize = i;
            while b > 0 && l[b - 1] == ' '
                invariant
                    b <= i < l@.len(),
                    spaces_back(l@, b as int) == spaces_back(l@, i as int),
                decreases b,
            {
                b = b - 1;
            }
            let mut f: usize = p.0;
            while f < l.len() && l[f] == ' '
                invariant
                    f <= l@.len(),
                    spaces_fwd(l@, f as int) == spaces_fwd(l@, p.0 as int),
                decreases l@.len() - f,
            {
                f = f + 1;
            }
            if symbol_ends_at_exec(l, b, prefixes) || symbol_starts_at_exec(l, f, suffixes) {
                Some(p.1)
            } else {
                None
            }
        },
        None => None,
    }
}

fn first_currency_amount_exec(
    l: &Vec<char>,
    prefixes: &Vec<Vec<char>>,
    suffixes: &Vec<Vec<char>>,
) -> (r: Option<u64>)
    requires
        views(prefixes@) == prefix_symbols(),
        views(suffixes@) == suffix_symbols(),
    ensures
        amount_view(r) == first_currency_amount(l@, 0),
{
    let mut i: usize = 0;
    while i < l.len()
        invariant
            i <= l@.len(),
            views(prefixes@) == prefix_symbols(),
            views(suffixes@) == suffix_symbols(),
            first_currency_amount(l@, i as int) == first_currency_amount(l@, 0),
        decreases l@.len() - i,
    {
        let a = currency_amount_at_exec(l, i, prefixes, suffixes);
        if a.is_some() {
            return a;
        }
        i = i + 1;
    }
    None
}

/// The total of a receipt's lines, in hundredths.
pub fn total_in_lines(ls: &Vec<Vec<char>>) -> (r: Option<u64>)
    ensures
        amount_view(r) == total_of_lines(views(ls@)),
{
    let kws = total_keywords_exec();
    let mut k: usize = 0;
    while k < ls.len()
        invariant
            k <= ls@.len(),
            views(kws@) == total_keywords(),
            indicated_total(views(ls@), k as int) == indicated_total(views(ls@), 0),
        decreases ls@.len() - k,
    {
        assert(views(ls@)[k as int] == ls@[k as int]@);
        if contains_any_ci_exec(&ls[k], &kws) {
            let a = first_amount_exec(&ls[k]);
            if a.is_some() {
                return a;
            }
        }
        k = k + 1;
    }
    let prefixes = prefix_symbols_exec();
    let suffixes = suffix_symbols_exec();
    let mut k: usize = 0;
    while k < ls.len()
        invariant
            k <= ls@.len(),
            views(prefixes@) == prefix_symbols(),
            views(suffixes@) == suffix_symbols(),
            indicated_total(views(ls@), 0) is None,
            marked_total(views(ls@), k as int) == marked_total(views(ls@), 0),
        decreases ls@.len() - k,
    {
        assert(views(ls@)[k as int] == ls@[k as int]@);
        let a = first_currency_amount_exec(&ls[k], &prefixes, &suffixes);
        if a.is_some() {
            return a;
        }
        k = k + 1;
    }
    None
}


proof fn lemma_single_line(t: Seq<char>, i: int)
    requires
        0 <= i <= t.len(),
        t.len() > 0,
        !t.contains('\n'),
    ensures
        split_from(t, i, 0) == seq![strip_cr(t)],
    decreases t.len() - i,
{
    if i < t.len() {
        assert(t[i] != '\n');
        lemma_single_line(t, i + 1);
    } else {
        assert(t.subrange(0, t.len() as int) =~= t);
    }
}

proof fn lemma_no_amount_before(l: Seq<char>, i: int, k: int)
    requires
        0 <= i <= k < l.len(),
        forall|j: int| 0 <= j < k ==> !is_digit(#[trigger] l[j]),
    ensures
        first_amount(l, i) == first_amount(l, k),
    decreases k - i,
{
    if i < k {
        assert(amount_at(l, i) is None);
        lemma_no_amount_before(l, i + 1, k);
    }
}

proof fn lemma_grouped_end_at(l: Seq<char>, i: int, j: int)
    requires
        0 <= i <= j < l.len(),
        forall|k: int| i <= k < j ==> is_digit(#[trigger] l[k]),
        !is_digit(l[j]) && l[j] != ',',
    ensures
        grouped_end(l, i) == j,
    decreases j - i,
{
    if i < j {
        lemma_grouped_end_at(l, i + 1, j);
    }
}

proof fn lemma_grouped_value_shift(l: Seq<char>, a: int, b: int)
    requires
        0 <= a <= b <= l.len(),
    ensures
        grouped_value(l, a, b) == grouped_value(l.subrange(a, b), 0, b - a),
    decreases b - a,
{
    if a < b {
        lemma_grouped_value_shift(l, a, b - 1);
        let w = l.subrange(a, b);
        assert(w.subrange(0, b - 1 - a) =~= l.subrange(a, b - 1));
        lemma_grouped_value_prefix(w, b - 1 - a);
        assert(w[b - 1 - a] == l[b - 1]);
    }
}

proof fn lemma_grouped_value_prefix(w: Seq<char>, e: int)
    requires
        0 <= e <= w.len(),
    ensures
        grouped_value(w, 0, e) == grouped_value(w.subrange(0, e), 0, e),
    decreases e,
{
    if e > 0 {
        lemma_grouped_value_prefix(w, e - 1);
        lemma_grouped_value_prefix(w.subrange(0, e), e - 1);
        assert(w.subrange(0, e).subrange(0, e - 1) =~= w.subrange(0, e - 1));
    }
}

/// The value, in hundredths, of the amount written `whole.frac`.
pub open spec fn written_amount(whole: Seq<char>, frac: Seq<char>) -> nat {
    grouped_value(whole, 0, whole.len() as int) * 100 + if frac.len() == 2 {
        digit_value(frac[0]) * 10 + digit_value(frac[1])
    } else {
        digit_value(frac[0]) * 10
    }
}

/// The first amount of a line that holds `whole.frac` with no digit before it.
proof fn lemma_line_first_amount(p: Seq<char>, whole: Seq<char>, frac: Seq<char>, s: Seq<char>)
    requires
        whole.len() >= 1,
        forall|i: int| 0 <= i < whole.len() ==> is_digit(#[trigger] whole[i]),
        1 <= frac.len() <= 2,
        forall|i: int| 0 <= i < frac.len() ==> is_digit(#[trigger] frac[i]),
        grouped_value(whole, 0, whole.len() as int) <= AMOUNT_WHOLE_MAX,
        forall|i: int| 0 <= i < p.len() ==> !is_digit(#[trigger] p[i]),
        s.len() > 0 ==> !is_digit(s[0]),
    ensures
        first_amount(p + whole + seq!['.'] + frac + s, 0) == Some(written_amount(whole, frac)),
{
    let l = p + whole + seq!['.'] + frac + s;
    let a = p.len() as int;
    let e = a + whole.len();
    assert(forall|i: int| 0 <= i < a ==> l[i] == p[i]);
    assert(forall|i: int| a <= i < e ==> l[i] == whole[i - a]);
    assert(l[e] == '.');
    assert(forall|i: int| e + 1 <= i < e + 1 + frac.len() ==> l[i] == frac[i - e - 1]);
    assert(forall|i: int| e + 1 + frac.len() <= i < l.len() ==> l[i] == s[i - e - 1 - frac.len()]);
    assert forall|j: int| 0 <= j < a implies !is_digit(#[trigger] l[j]) by {
        assert(l[j] == p[j]);
    }
    lemma_no_amount_before(l, 0, a);
    lemma_grouped_end_at(l, a, e);
    lemma_grouped_value_shift(l, a, e);
    assert(l.subrange(a, e) =~= whole);
    if a > 0 {
        assert(!is_digit(l[a - 1]));
    }
    assert(is_digit(l[a]));
    assert(amount_at(l, a) == Some((e + 1 + frac.len(), written_amount(whole, frac))));
}

proof fn lemma_indicated_from(ls: Seq<Seq<char>>, j: int, k: int)
    requires
        0 <= j <= k < ls.len(),
        forall|m: int| 0 <= m < k ==> !(contains_any_ci(#[trigger] ls[m], total_keywords())
            && first_amount(ls[m], 0) is Some),
    ensures
        indicated_total(ls, j) == indicated_total(ls, k),
    decreases k - j,
{
    if j < k {
        lemma_indicated_from(ls, j + 1, k);
    }
}

/// An amount with one or two fractional digits, on a line that names the total, is the
/// total: line `k` holds the amount with no digit before it, and no earlier line names
/// the total and holds an amount.
pub proof fn lemma_indicated_amount_is_total(
    ls: Seq<Seq<char>>,
    k: int,
    p: Seq<char>,
    whole: Seq<char>,
    frac: Seq<char>,
    s: Seq<char>,
)
    requires
        0 <= k < ls.len(),
        ls[k] == p + whole + seq!['.'] + frac + s,
        whole.len() >= 1,
        forall|i: int| 0 <= i < whole.len() ==> is_digit(#[trigger] whole[i]),
        1 <= frac.len() <= 2,
        forall|i: int| 0 <= i < frac.len() ==> is_digit(#[trigger] frac[i]),
        grouped_value(whole, 0, whole.len() as int) <= AMOUNT_WHOLE_MAX,
        forall|i: int| 0 <= i < p.len() ==> !is_digit(#[trigger] p[i]),
        s.len() > 0 ==> !is_digit(s[0]),
        contains_any_ci(ls[k], total_keywords()),
        forall|m: int| 0 <= m < k ==> !(contains_any_ci(#[trigger] ls[m], total_keywords())
            && first_amount(ls[m], 0) is Some),
    ensures
        total_of_lines(ls) == Some(written_amount(whole, frac)),
{
    lemma_line_first_amount(p, whole, frac, s);
    lemma_indicated_from(ls, 0, k);
}

/// The same for a text of one such line.
pub proof fn lemma_indicated_amount_is_total_of_text(
    p: Seq<char>,
    whole: Seq<char>,
    frac: Seq<char>,
    s: Seq<char>,
)
    requires
        whole.len() >= 1,
        forall|i: int| 0 <= i < whole.len() ==> is_digit(#[trigger] whole[i]),
        1 <= frac.len() <= 2,
        forall|i: int| 0 <= i < frac.len() ==> is_digit(#[trigger] frac[i]),
        grouped_value(whole, 0, whole.len() as int) <= AMOUNT_WHOLE_MAX,
        forall|i: int| 0 <= i < p.len() ==> !is_digit(#[trigger] p[i]),
        s.len() > 0 ==> !is_digit(s[0]),
        !(p + whole + seq!['.'] + frac + s).contains('\n'),
        !(p + whole + seq!['.'] + frac + s).contains('\r'),
        contains_any_ci(p + whole + seq!['.'] + frac + s, total_keywords()),
    ensures
        total_of_lines(lines_of(p + whole + seq!['.'] + frac + s)) == Some(written_amount(whole, frac)),
{
    let l = p + whole + seq!['.'] + frac + s;
    lemma_single_line(l, 0);
    if l.len() > 0 && l.last() == '\r' {
        assert(l.contains('\r'));
    }
    assert(strip_cr(l) == l);
    assert(lines_of(l) == seq![l]);
    assert(seq![l][0] == l);
    lemma_indicated_amount_is_total(seq![l], 0, p, whole, frac, s);
}

} // verus!
