use vstd::prelude::*;
use crate::text::{
    views, is_digit, trimmed, contains_any, contains_any_ci, trim, contains_any_exec,
    contains_any_ci_exec, is_digit_exec, string_from_chars,
};

verus! {

/// The non-empty lines, trimmed, in order.
pub open spec fn non_empty_trimmed(ls: Seq<Seq<char>>) -> Seq<Seq<char>>
    decreases ls.len(),
{
    if ls.len() == 0 {
        Seq::empty()
    } else {
        let r = non_empty_trimmed(ls.drop_last());
        let t = trimmed(ls.last());
        if t.len() > 0 {
            r.push(t)
        } else {
            r
        }
    }
}

/// A line that names a business.
pub open spec fn names_business(t: Seq<char>) -> bool {
    contains_any(t, thai_business_words()) || contains_any_ci(t, english_business_words())
}

pub open spec fn is_numeric_mark(c: char) -> bool {
    is_digit(c) || c == '.' || c == ',' || c == '-'
}

/// A line that reads as a date, a time or a bare number.
pub open spec fn looks_like_date_or_time(t: Seq<char>) -> bool {
    t.contains('/') || t.contains(':') || forall|i: int| 0 <= i < t.len() ==> is_numeric_mark(#[trigger] t[i])
}

/// The first of `ne[k..limit]` that names a business.
pub open spec fn first_business_line(ne: Seq<Seq<char>>, k: int, limit: int) -> Option<Seq<char>>
    decreases limit - k,
{
    if k < 0 || k >= limit || k >= ne.len() {
        None
    } else if names_business(ne[k]) {
        Some(ne[k])
    } else {
        first_business_line(ne, k + 1, limit)
    }
}

/// The first of `ne[k..limit]` that is not a date, a time or a bare number.
pub open spec fn first_plain_line(ne: Seq<Seq<char>>, k: int, limit: int) -> Option<Seq<char>>
    decreases limit - k,
{
    if k < 0 || k >= limit || k >= ne.len() {
        None
    } else if !looks_like_date_or_time(ne[k]) {
        Some(ne[k])
    } else {
        first_plain_line(ne, k + 1, limit)
    }
}

/// How many of the first non-empty lines are searched for a business name.
pub const MERCHANT_SCAN_LINES: usize = 10;

/// How many of the first non-empty lines may stand for the merchant without naming a business.
pub const MERCHANT_PLAIN_LINES: usize = 3;

/// The merchant of a receipt's lines: the first of the first ten non-empty lines that
/// names a business; failing that, the first of the first three that is not a date,
/// a time or a bare number. Lines are returned trimmed.
pub open spec fn merchant_of_lines(ls: Seq<Seq<char>>) -> Option<Seq<char>> {
    let ne = non_empty_trimmed(ls);
    match first_business_line(ne, 0, MERCHANT_SCAN_LINES as int) {
        Some(t) => Some(t),
        None => first_plain_line(ne, 0, MERCHANT_PLAIN_LINES as int),
    }
}

pub open spec fn text_view(r: Option<String>) -> Option<Seq<char>> {
    match r {
        Some(s) => Some(s@),
        None => None,
    }
}

/// Thai words for company, shop, store, branch, receipt and tax invoice.
pub open spec fn thai_business_words() -> Seq<Seq<char>> {
    seq![
        seq!['บ', 'ร', 'ิ', 'ษ', 'ั', 'ท'],
        seq!['ร', '้', 'า', 'น'],
        seq!['ห', '้', 'า', 'ง'],
        seq!['ส', 'า', 'ข', 'า'],
        seq!['ใ', 'บ', 'เ', 'ส', 'ร', '็', 'จ'],
        seq!['ใ', 'บ', 'ก', 'ำ', 'ก', 'ั', 'บ', 'ภ', 'า', 'ษ', 'ี'],
    ]
}

/// English words that name a kind of business, in lower case.
pub open spec fn english_business_words() -> Seq<Seq<char>> {
    seq![
        seq!['s', 't', 'o', 'r', 'e'],
        seq!['s', 'h', 'o', 'p'],
        seq!['r', 'e', 's', 't', 'a', 'u', 'r', 'a', 'n', 't'],
        seq!['c', 'a', 'f', 'e'],
        seq!['m', 'a', 'r', 'k', 'e', 't'],
        seq!['m', 'a', 'l', 'l'],
        seq!['s', 'u', 'p', 'e', 'r', 'm', 'a', 'r', 'k', 'e', 't'],
    ]
}

fn thai_business_words_exec() -> (r: Vec<Vec<char>>)
    ensures
        views(r@) == thai_business_words(),
{
    let mut r: Vec<Vec<char>> = Vec::new();
    r.push(vec!['บ', 'ร', 'ิ', 'ษ', 'ั', 'ท']);
    r.push(vec!['ร', '้', 'า', 'น']);
    r.push(vec!['ห', '้', 'า', 'ง']);
    r.push(vec!['ส', 'า', 'ข', 'า']);
    r.push(vec!['ใ', 'บ', 'เ', 'ส', 'ร', '็', 'จ']);
    r.push(vec!['ใ', 'บ', 'ก', 'ำ', 'ก', 'ั', 'บ', 'ภ', 'า', 'ษ', 'ี']);
    assert(views(r@) =~~= thai_business_words());
    r
}

fn english_business_words_exec() -> (r: Vec<Vec<char>>)
    ensures
        views(r@) == english_business_words(),
{
    let mut r: Vec<Vec<char>> = Vec::new();
    r.push(vec!['s', 't', 'o', 'r', 'e']);
    r.push(vec!['s', 'h', 'o', 'p']);
    r.push(vec!['r', 'e', 's', 't', 'a', 'u', 'r', 'a', 'n', 't']);
    r.push(vec!['c', 'a', 'f', 'e']);
    r.push(vec!['m', 'a', 'r', 'k', 'e', 't']);
    r.push(vec!['m', 'a', 'l', 'l']);
    r.push(vec!['s', 'u', 'p', 'e', 'r', 'm', 'a', 'r', 'k', 'e', 't']);
    assert(views(r@) =~~= english_business_words());
    r
}

fn non_empty_trimmed_exec(ls: &Vec<Vec<char>>) -> (r: Vec<Vec<char>>)
    ensures
        views(r@) == non_empty_trimmed(views(ls@)),
{
    let mut r: Vec<Vec<char>> = Vec::new();
    let mut k: usize = 0;
    while k < ls.len()
        invariant
            k <= ls@.len(),
            views(r@) == non_empty_trimmed(views(ls@).subrange(0, k as int)),
        decreases ls@.len() - k,
    {
        let t = trim(&ls[k]);
        proof {
            let pre = views(ls@).subrange(0, k + 1);
            assert(pre.drop_last() =~= views(ls@).subrange(0, k as int));
            assert(pre.last() == ls@[k as int]@);
        }
        if t.len() > 0 {
            proof {
                assert(views(r@.push(t)) =~= views(r@).push(t@));
            }
            r.push(t);
        }
        k = k + 1;
    }
    assert(views(ls@).subrange(0, ls@.len() as int) =~= views(ls@));
    r
}

fn names_business_exec(t: &Vec<char>, thai: &Vec<Vec<char>>, english: &Vec<Vec<char>>) -> (r: bool)
    requires
        views(thai@) == thai_business_words(),
        views(english@) == english_business_words(),
    ensures
        r == names_business(t@),
{
    contains_any_exec(t, thai) || contains_any_ci_exec(t, english)
}

fn looks_like_date_or_time_exec(t: &Vec<char>) -> (r: bool)
    ensures
        r == looks_like_date_or_time(t@),
{
    let mut i: usize = 0;
    let mut all_numeric = true;
    while i < t.len()
        invariant
            i <= t@.len(),
            forall|j: int| 0 <= j < i ==> t@[j] != '/' && t@[j] != ':',
            all_numeric == forall|j: int| 0 <= j < i ==> is_numeric_mark(#[trigger] t@[j]),
        decreases t@.len() - i,
    {
        let c = t[i];
        if c == '/' || c == ':' {
            assert(t@[i as int] == c);
            return true;
        }
        if !(is_digit_exec(c) || c == '.' || c == ',' || c == '-') {
            all_numeric = false;
        }
        i = i + 1;
    }
    assert(!t@.contains('/'));
    assert(!t@.contains(':'));
    all_numeric
}

/// The merchant of a receipt's lines.
pub fn merchant_in_lines(ls: &Vec<Vec<char>>) -> (r: Option<String>)
    ensures
        text_view(r) == merchant_of_lines(views(ls@)),
{
    let ne = non_empty_trimmed_exec(ls);
    let thai = thai_business_words_exec();
    let english = english_business_words_exec();
    let mut k: usize = 0;
    while k < ne.len() && k < MERCHANT_SCAN_LINES
        invariant
            k <= ne@.len(),
            views(ne@) == non_empty_trimmed(views(ls@)),
            views(thai@) == thai_business_words(),
            views(english@) == english_business_words(),
            first_business_line(views(ne@), k as int, MERCHANT_SCAN_LINES as int)
                == first_business_line(views(ne@), 0, MERCHANT_SCAN_LINES as int),
        decreases ne@.len() - k,
    {
        assert(views(ne@)[k as int] == ne@[k as int]@);
        if names_business_exec(&ne[k], &thai, &english) {
            assert(first_business_line(views(ne@), k as int, MERCHANT_SCAN_LINES as int) == Some(ne@[k as int]@));
            return Some(string_from_chars(&ne[k]));
        }
        k = k + 1;
    }
    let mut k: usize = 0;
    while k < ne.len() && k < MERCHANT_PLAIN_LINES
        invariant
            k <= ne@.len(),
            views(ne@) == non_empty_trimmed(views(ls@)),
            first_business_line(views(ne@), 0, MERCHANT_SCAN_LINES as int) is None,
            first_plain_line(views(ne@), k as int, MERCHANT_PLAIN_LINES as int)
                == first_plain_line(views(ne@), 0, MERCHANT_PLAIN_LINES as int),
        decreases ne@.len() - k,
    {
        assert(views(ne@)[k as int] == ne@[k as int]@);
        if !looks_like_date_or_time_exec(&ne[k]) {
            assert(first_plain_line(views(ne@), k as int, MERCHANT_PLAIN_LINES as int) == Some(ne@[k as int]@));
            return Some(string_from_chars(&ne[k]));
        }
        k = k + 1;
    }
    None
}

} // verus!
