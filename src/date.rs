use vstd::prelude::*;
use crate::text::{views, is_blank, is_blank_exec, is_digit, digit_value, match_at, is_digit_exec, digit_of, match_at_exec, string_from_chars};
use crate::total::grouped_value;

verus! {

/// A calendar date as (year, month, day).
pub type Ymd = (nat, nat, nat);

/// End of the run of digits that starts at `i`.
pub open spec fn digits_end(l: Seq<char>, i: int) -> int
    decreases l.len() - i,
{
    if 0 <= i < l.len() && is_digit(l[i]) {
        digits_end(l, i + 1)
    } else {
        i
    }
}

/// A number starts at `i`: a digit not preceded by a digit.
pub open spec fn starts_number(l: Seq<char>, i: int) -> bool {
    0 <= i < l.len() && is_digit(l[i]) && (i == 0 || !is_digit(l[i - 1]))
}

pub open spec fn is_date_sep(c: char) -> bool {
    c == '/' || c == '-'
}

pub open spec fn valid_day_month(d: nat, m: nat) -> bool {
    1 <= d <= 31 && 1 <= m <= 12
}

/// Day first: `D/M/YYYY` or `D-M-YYYY`, day and month of one or two digits.
pub open spec fn numeric_date_at(l: Seq<char>, i: int) -> Option<Ymd> {
    let e1 = digits_end(l, i);
    let e2 = digits_end(l, e1 + 1);
    let e3 = digits_end(l, e2 + 1);
    if starts_number(l, i) && e1 - i <= 2 && e1 < l.len() && is_date_sep(l[e1]) && 1 <= e2 - (e1
        + 1) <= 2 && e2 < l.len() && is_date_sep(l[e2]) && e3 - (e2 + 1) == 4 {
        let d = grouped_value(l, i, e1);
        let m = grouped_value(l, e1 + 1, e2);
        let y = grouped_value(l, e2 + 1, e3);
        if valid_day_month(d, m) {
            Some((y, m, d))
        } else {
            None
        }
    } else {
        None
    }
}

/// Year first: `YYYY-M-D`, month and day of one or two digits.
pub open spec fn iso_date_at(l: Seq<char>, i: int) -> Option<Ymd> {
    let e1 = digits_end(l, i);
    let e2 = digits_end(l, e1 + 1);
    let e3 = digits_end(l, e2 + 1);
    if starts_number(l, i) && e1 - i == 4 && e1 < l.len() && l[e1] == '-' && 1 <= e2 - (e1 + 1)
        <= 2 && e2 < l.len() && l[e2] == '-' && 1 <= e3 - (e2 + 1) <= 2 {
        let y = grouped_value(l, i, e1);
        let m = grouped_value(l, e1 + 1, e2);
        let d = grouped_value(l, e2 + 1, e3);
        if valid_day_month(d, m) {
            Some((y, m, d))
        } else {
            None
        }
    } else {
        None
    }
}

/// The number of the first month, from index `j` of `table` on, whose name stands at `k`,
/// with the index just after the name.
pub open spec fn month_name_at(l: Seq<char>, k: int, j: int, table: Seq<Seq<char>>) -> Option<(nat, int)>
    decreases table.len() - j,
{
    if j < 0 || j >= table.len() {
        None
    } else if match_at(l, k, table[j]) {
        Some(((j + 1) as nat, k + table[j].len()))
    } else {
        month_name_at(l, k, j + 1, table)
    }
}

/// End of the white space that starts at `i`.
pub open spec fn blanks_fwd(l: Seq<char>, i: int) -> int
    decreases l.len() - i,
{
    if 0 <= i < l.len() && is_blank(l[i]) {
        blanks_fwd(l, i + 1)
    } else {
        i
    }
}

/// Years past 2500 count in the Buddhist era, 543 years ahead of the Gregorian one.
pub open spec fn era_year(y: nat) -> nat {
    if y > 2500 {
        (y - 543) as nat
    } else {
        y
    }
}

/// Day, Thai month name and year: `15 มกราคม 2566`, white space optional.
pub open spec fn named_date_at(l: Seq<char>, i: int) -> Option<Ymd> {
    let e1 = digits_end(l, i);
    if starts_number(l, i) && e1 - i <= 2 {
        match month_name_at(l, blanks_fwd(l, e1), 0, thai_months()) {
            Some(mp) => {
                let ys = blanks_fwd(l, mp.1);
                let ye = digits_end(l, ys);
                let d = grouped_value(l, i, e1);
                if ye - ys == 4 && 1 <= d <= 31 {
                    Some((era_year(grouped_value(l, ys, ye)), mp.0, d))
                } else {
                    None
                }
            },
            None => None,
        }
    } else {
        None
    }
}


pub open spec fn is_ascii_letter(c: char) -> bool {
    ('a' <= c && c <= 'z') || ('A' <= c && c <= 'Z')
}

/// End of the lower-case ASCII letters that start at `i`.
pub open spec fn lower_end(l: Seq<char>, i: int) -> int
    decreases l.len() - i,
{
    if 0 <= i < l.len() && 'a' <= l[i] && l[i] <= 'z' {
        lower_end(l, i + 1)
    } else {
        i
    }
}

/// An English ordinal suffix: `st`, `nd`, `rd` or `th`.
pub open spec fn is_ordinal(a: char, b: char) -> bool {
    (a == 's' && b == 't') || (a == 'n' && b == 'd') || (a == 'r' && b == 'd') || (a == 't' && b == 'h')
}

/// Just after `c` when it stands at `k`, else `k`.
pub open spec fn skip_char(l: Seq<char>, k: int, c: char) -> int {
    if 0 <= k < l.len() && l[k] == c {
        k + 1
    } else {
        k
    }
}

/// Just after an ordinal suffix that stands at `k`, else `k`.
pub open spec fn ordinal_end(l: Seq<char>, k: int) -> int {
    if 0 <= k && k + 1 < l.len() && is_ordinal(l[k], l[k + 1]) {
        k + 2
    } else {
        k
    }
}

/// English month first: `Jan 1, 2023`, `January 15th 2023`, `Feb. 3 2024`: the month's
/// first three letters, maybe more letters and a period, white space, a day of one or two
/// digits, maybe an ordinal suffix and a comma, white space, a year of four digits.
pub open spec fn english_date_at(l: Seq<char>, i: int) -> Option<Ymd> {
    if 0 <= i && (i == 0 || !is_ascii_letter(l[i - 1])) {
        match month_name_at(l, i, 0, english_months()) {
            Some(mp) => {
                let b = skip_char(l, lower_end(l, mp.1), '.');
                let ds = blanks_fwd(l, b);
                let de = digits_end(l, ds);
                let c2 = skip_char(l, ordinal_end(l, de), ',');
                let ys = blanks_fwd(l, c2);
                let ye = digits_end(l, ys);
                let d = grouped_value(l, ds, de);
                if ds > b && 1 <= de - ds <= 2 && ys > c2 && ye - ys == 4 && 1 <= d <= 31 {
                    Some((era_year(grouped_value(l, ys, ye)), mp.0, d))
                } else {
                    None
                }
            },
            None => None,
        }
    } else {
        None
    }
}

/// The date of form `p` (0: day first, 1: year first, 2: Thai month name, 3: English
/// month name) that starts at `i`.
pub open spec fn date_at(l: Seq<char>, i: int, p: int) -> Option<Ymd> {
    if p == 0 {
        numeric_date_at(l, i)
    } else if p == 1 {
        iso_date_at(l, i)
    } else if p == 2 {
        named_date_at(l, i)
    } else {
        english_date_at(l, i)
    }
}

pub open spec fn date_in_line(l: Seq<char>, i: int, p: int) -> Option<Ymd>
    decreases l.len() - i,
{
    if i < 0 || i >= l.len() {
        None
    } else if date_at(l, i, p) is Some {
        date_at(l, i, p)
    } else {
        date_in_line(l, i + 1, p)
    }
}

pub open spec fn date_in_lines(ls: Seq<Seq<char>>, k: int, p: int) -> Option<Ymd>
    decreases ls.len() - k,
{
    if k < 0 || k >= ls.len() {
        None
    } else if date_in_line(ls[k], 0, p) is Some {
        date_in_line(ls[k], 0, p)
    } else {
        date_in_lines(ls, k + 1, p)
    }
}

/// The date of a receipt's lines: the first day-first date of any line; failing that
/// the first year-first one; failing that the first with a Thai month name; failing that
/// the first with an English one.
pub open spec fn date_of_lines(ls: Seq<Seq<char>>) -> Option<Ymd> {
    if date_in_lines(ls, 0, 0) is Some {
        date_in_lines(ls, 0, 0)
    } else if date_in_lines(ls, 0, 1) is Some {
        date_in_lines(ls, 0, 1)
    } else if date_in_lines(ls, 0, 2) is Some {
        date_in_lines(ls, 0, 2)
    } else {
        date_in_lines(ls, 0, 3)
    }
}

pub open spec fn digit_char(n: nat) -> char {
    seq!['0', '1', '2', '3', '4', '5', '6', '7', '8', '9'][(n % 10) as int]
}

/// `YYYY-MM-DD`.
pub open spec fn iso_text(t: Ymd) -> Seq<char> {
    seq![
        digit_char(t.0 / 1000),
        digit_char(t.0 / 100),
        digit_char(t.0 / 10),
        digit_char(t.0),
        '-',
        digit_char(t.1 / 10),
        digit_char(t.1),
        '-',
        digit_char(t.2 / 10),
        digit_char(t.2),
    ]
}

/// Text of the form `YYYY-MM-DD` with a month in 1..=12 and a day in 1..=31.
pub open spec fn is_iso_date(s: Seq<char>) -> bool {
    &&& s.len() == 10
    &&& s[4] == '-' && s[7] == '-'
    &&& forall|i: int| 0 <= i < 10 && i != 4 && i != 7 ==> is_digit(#[trigger] s[i])
    &&& 1 <= digit_value(s[5]) * 10 + digit_value(s[6]) <= 12
    &&& 1 <= digit_value(s[8]) * 10 + digit_value(s[9]) <= 31
}

/// A found date, if any, has a day and a month in range.
pub open spec fn valid_found(o: Option<Ymd>) -> bool {
    match o {
        Some(t) => valid_day_month(t.2, t.1),
        None => true,
    }
}

pub open spec fn date_view(r: Option<String>) -> Option<Seq<char>> {
    match r {
        Some(s) => Some(s@),
        None => None,
    }
}

pub open spec fn date_text(t: Option<Ymd>) -> Option<Seq<char>> {
    match t {
        Some(d) => Some(iso_text(d)),
        None => None,
    }
}

proof fn lemma_digits_end(l: Seq<char>, i: int)
    requires
        0 <= i,
    ensures
        i <= digits_end(l, i) <= if i <= l.len() { l.len() as int } else { i },
        forall|j: int| i <= j < digits_end(l, i) ==> is_digit(#[trigger] l[j]),
        digits_end(l, i) < l.len() ==> !is_digit(l[digits_end(l, i)]),
    decreases l.len() - i,
{
    if 0 <= i < l.len() && is_digit(l[i]) {
        lemma_digits_end(l, i + 1);
    }
}

proof fn lemma_digit_char(n: nat)
    ensures
        is_digit(digit_char(n)),
        digit_value(digit_char(n)) == n % 10,
{
    let k = n % 10;
    assert(0 <= k < 10);
    if k == 0 {
    } else if k == 1 {
    } else if k == 2 {
    } else if k == 3 {
    } else if k == 4 {
    } else if k == 5 {
    } else if k == 6 {
    } else if k == 7 {
    } else if k == 8 {
    } else {
    }
}

/// Dates are always written `YYYY-MM-DD`, with a month in 1..=12 and a day in 1..=31:
/// components out of range are rejected, never clamped.
pub proof fn lemma_dates_are_iso(ls: Seq<Seq<char>>)
    ensures
        date_of_lines(ls) is Some ==> is_iso_date(iso_text(date_of_lines(ls)->0)),
        valid_found(date_of_lines(ls)),
{
    lemma_date_of_lines_valid(ls);
    if let Some(t) = date_of_lines(ls) {
        lemma_iso_text(t);
    }
}

proof fn lemma_iso_text(t: Ymd)
    requires
        valid_day_month(t.2, t.1),
    ensures
        is_iso_date(iso_text(t)),
{
    let s = iso_text(t);
    lemma_digit_char(t.0 / 1000);
    lemma_digit_char(t.0 / 100);
    lemma_digit_char(t.0 / 10);
    lemma_digit_char(t.0);
    lemma_digit_char(t.1 / 10);
    lemma_digit_char(t.1);
    lemma_digit_char(t.2 / 10);
    lemma_digit_char(t.2);
    assert(forall|i: int| 0 <= i < 10 && i != 4 && i != 7 ==> is_digit(#[trigger] s[i]));
    assert((t.1 / 10) % 10 * 10 + t.1 % 10 == t.1);
    assert((t.2 / 10) % 10 * 10 + t.2 % 10 == t.2);
}

proof fn lemma_date_in_line_valid(l: Seq<char>, i: int, p: int)
    ensures
        valid_found(date_in_line(l, i, p)),
    decreases l.len() - i,
{
    if 0 <= i < l.len() {
        if date_at(l, i, p) is Some {
            if p == 2 {
                lemma_month_name_range(l, blanks_fwd(l, digits_end(l, i)), 0, thai_months());
            } else if p != 0 && p != 1 {
                lemma_month_name_range(l, i, 0, english_months());
            }
        } else {
            lemma_date_in_line_valid(l, i + 1, p);
        }
    }
}

proof fn lemma_month_name_range(l: Seq<char>, k: int, j: int, table: Seq<Seq<char>>)
    requires
        0 <= j,
        table.len() == 12,
    ensures
        match month_name_at(l, k, j, table) {
            Some(mp) => 1 <= mp.0 <= 12,
            None => true,
        },
    decreases table.len() - j,
{
    if j < table.len() && !match_at(l, k, table[j]) {
        lemma_month_name_range(l, k, j + 1, table);
    }
}

proof fn lemma_date_in_lines_valid(ls: Seq<Seq<char>>, k: int, p: int)
    ensures
        valid_found(date_in_lines(ls, k, p)),
    decreases ls.len() - k,
{
    if 0 <= k < ls.len() {
        lemma_date_in_line_valid(ls[k], 0, p);
        lemma_date_in_lines_valid(ls, k + 1, p);
    }
}

proof fn lemma_date_of_lines_valid(ls: Seq<Seq<char>>)
    ensures
        valid_found(date_of_lines(ls)),
{
    lemma_date_in_lines_valid(ls, 0, 0);
    lemma_date_in_lines_valid(ls, 0, 1);
    lemma_date_in_lines_valid(ls, 0, 2);
    lemma_date_in_lines_valid(ls, 0, 3);
}

/// The Thai month names, January first.
pub open spec fn thai_months() -> Seq<Seq<char>> {
    seq![
        seq!['ม', 'ก', 'ร', 'า', 'ค', 'ม'],
        seq!['ก', 'ุ', 'ม', 'ภ', 'า', 'พ', 'ั', 'น', 'ธ', '์'],
        seq!['ม', 'ี', 'น', 'า', 'ค', 'ม'],
        seq!['เ', 'ม', 'ษ', 'า', 'ย', 'น'],
        seq!['พ', 'ฤ', 'ษ', 'ภ', 'า', 'ค', 'ม'],
        seq!['ม', 'ิ', 'ถ', 'ุ', 'น', 'า', 'ย', 'น'],
        seq!['ก', 'ร', 'ก', 'ฎ', 'า', 'ค', 'ม'],
        seq!['ส', 'ิ', 'ง', 'ห', 'า', 'ค', 'ม'],
        seq!['ก', 'ั', 'น', 'ย', 'า', 'ย', 'น'],
        seq!['ต', 'ุ', 'ล', 'า', 'ค', 'ม'],
        seq!['พ', 'ฤ', 'ศ', 'จ', 'ิ', 'ก', 'า', 'ย', 'น'],
        seq!['ธ', 'ั', 'น', 'ว', 'า', 'ค', 'ม'],
    ]
}

fn thai_months_exec() -> (r: Vec<Vec<char>>)
    ensures
        views(r@) == thai_months(),
{
    let mut r: Vec<Vec<char>> = Vec::new();
    r.push(vec!['ม', 'ก', 'ร', 'า', 'ค', 'ม']);
    r.push(vec!['ก', 'ุ', 'ม', 'ภ', 'า', 'พ', 'ั', 'น', 'ธ', '์']);
    r.push(vec!['ม', 'ี', 'น', 'า', 'ค', 'ม']);
    r.push(vec!['เ', 'ม', 'ษ', 'า', 'ย', 'น']);
    r.push(vec!['พ', 'ฤ', 'ษ', 'ภ', 'า', 'ค', 'ม']);
    r.push(vec!['ม', 'ิ', 'ถ', 'ุ', 'น', 'า', 'ย', 'น']);
    r.push(vec!['ก', 'ร', 'ก', 'ฎ', 'า', 'ค', 'ม']);
    r.push(vec!['ส', 'ิ', 'ง', 'ห', 'า', 'ค', 'ม']);
    r.push(vec!['ก', 'ั', 'น', 'ย', 'า', 'ย', 'น']);
    r.push(vec!['ต', 'ุ', 'ล', 'า', 'ค', 'ม']);
    r.push(vec!['พ', 'ฤ', 'ศ', 'จ', 'ิ', 'ก', 'า', 'ย', 'น']);
    r.push(vec!['ธ', 'ั', 'น', 'ว', 'า', 'ค', 'ม']);
    assert(views(r@) =~~= thai_months());
    r
}

/// The English month names as their first three letters, January first.
pub open spec fn english_months() -> Seq<Seq<char>> {
    seq![
        seq!['J', 'a', 'n'],
        seq!['F', 'e', 'b'],
        seq!['M', 'a', 'r'],
        seq!['A', 'p', 'r'],
        seq!['M', 'a', 'y'],
        seq!['J', 'u', 'n'],
        seq!['J', 'u', 'l'],
        seq!['A', 'u', 'g'],
        seq!['S', 'e', 'p'],
        seq!['O', 'c', 't'],
        seq!['N', 'o', 'v'],
        seq!['D', 'e', 'c'],
    ]
}

fn english_months_exec() -> (r: Vec<Vec<char>>)
    ensures
        views(r@) == english_months(),
{
    let mut r: Vec<Vec<char>> = Vec::new();
    r.push(vec!['J', 'a', 'n']);
    r.push(vec!['F', 'e', 'b']);
    r.push(vec!['M', 'a', 'r']);
    r.push(vec!['A', 'p', 'r']);
    r.push(vec!['M', 'a', 'y']);
    r.push(vec!['J', 'u', 'n']);
    r.push(vec!['J', 'u', 'l']);
    r.push(vec!['A', 'u', 'g']);
    r.push(vec!['S', 'e', 'p']);
    r.push(vec!['O', 'c', 't']);
    r.push(vec!['N', 'o', 'v']);
    r.push(vec!['D', 'e', 'c']);
    assert(views(r@) =~~= english_months());
    r
}

pub open spec fn ymd_view(r: Option<(u64, u64, u64)>) -> Option<Ymd> {
    match r {
        Some(t) => Some((t.0 as nat, t.1 as nat, t.2 as nat)),
        None => None,
    }
}

pub open spec fn year_fits(r: Option<(u64, u64, u64)>) -> bool {
    match r {
        Some(t) => t.0 <= 9999,
        None => true,
    }
}

fn digits_end_exec(l: &Vec<char>, i: usize) -> (r: usize)
    requires
        i <= l@.len(),
    ensures
        r == digits_end(l@, i as int),
        i <= r <= l@.len(),
{
    let mut e: usize = i;
    while e < l.len() && is_digit_exec(l[e])
        invariant
            i <= e <= l@.len(),
            digits_end(l@, e as int) == digits_end(l@, i as int),
        decreases l@.len() - e,
    {
        e = e + 1;
    }
    e
}

fn blanks_fwd_exec(l: &Vec<char>, i: usize) -> (r: usize)
    requires
        i <= l@.len(),
    ensures
        r == blanks_fwd(l@, i as int),
        i <= r <= l@.len(),
{
    let mut e: usize = i;
    while e < l.len() && is_blank_exec(l[e])
        invariant
            i <= e <= l@.len(),
            blanks_fwd(l@, e as int) == blanks_fwd(l@, i as int),
        decreases l@.len() - e,
    {
        e = e + 1;
    }
    e
}

fn lower_end_exec(l: &Vec<char>, i: usize) -> (r: usize)
    requires
        i <= l@.len(),
    ensures
        r == lower_end(l@, i as int),
        i <= r <= l@.len(),
{
    let mut e: usize = i;
    while e < l.len() && 'a' <= l[e] && l[e] <= 'z'
        invariant
            i <= e <= l@.len(),
            lower_end(l@, e as int) == lower_end(l@, i as int),
        decreases l@.len() - e,
    {
        e = e + 1;
    }
    e
}

/// The number written by the (at most four) digits of `l[a..b]`.
fn small_value(l: &Vec<char>, a: usize, b: usize) -> (r: u64)
    requires
        a <= b <= l@.len(),
        b - a <= 4,
        forall|j: int| a <= j < b ==> is_digit(#[trigger] l@[j]),
    ensures
        r == grouped_value(l@, a as int, b as int),
        r <= 9999,
{
    let mut v: u64 = 0;
    let mut k: usize = a;
    while k < b
        invariant
            a <= k <= b <= l@.len(),
            b - a <= 4,
            forall|j: int| a <= j < b ==> is_digit(#[trigger] l@[j]),
            v == grouped_value(l@, a as int, k as int),
            k - a == 0 ==> v == 0,
            k - a <= 1 ==> v <= 9,
            k - a <= 2 ==> v <= 99,
            k - a <= 3 ==> v <= 999,
            v <= 9999,
        decreases b - k,
    {
        v = v * 10 + digit_of(l[k]);
        k = k + 1;
    }
    v
}

fn starts_number_exec(l: &Vec<char>, i: usize) -> (r: bool)
    ensures
        r == starts_number(l@, i as int),
{
    i < l.len() && is_digit_exec(l[i]) && (i == 0 || !is_digit_exec(l[i - 1]))
}

fn numeric_date_at_exec(l: &Vec<char>, i: usize) -> (r: Option<(u64, u64, u64)>)
    ensures
        ymd_view(r) == numeric_date_at(l@, i as int),
        year_fits(r),
{
    if !starts_number_exec(l, i) {
        return None;
    }
    let n = l.len();
    let e1 = digits_end_exec(l, i);
    proof {
        lemma_digits_end(l@, i as int);
    }
    if e1 - i > 2 || e1 >= n || !(l[e1] == '/' || l[e1] == '-') {
        return None;
    }
    let e2 = digits_end_exec(l, e1 + 1);
    proof {
        lemma_digits_end(l@, e1 + 1);
    }
    if e2 - (e1 + 1) < 1 || e2 - (e1 + 1) > 2 || e2 >= n || !(l[e2] == '/' || l[e2] == '-') {
        return None;
    }
    let e3 = digits_end_exec(l, e2 + 1);
    proof {
        lemma_digits_end(l@, e2 + 1);
    }
    if e3 - (e2 + 1) != 4 {
        return None;
    }
    let d = small_value(l, i, e1);
    let m = small_value(l, e1 + 1, e2);
    let y = small_value(l, e2 + 1, e3);
    if 1 <= d && d <= 31 && 1 <= m && m <= 12 {
        Some((y, m, d))
    } else {
        None
    }
}

fn iso_date_at_exec(l: &Vec<char>, i: usize) -> (r: Option<(u64, u64, u64)>)
    ensures
        ymd_view(r) == iso_date_at(l@, i as int),
        year_fits(r),
{
    if !starts_number_exec(l, i) {
        return None;
    }
    let n = l.len();
    let e1 = digits_end_exec(l, i);
    proof {
        lemma_digits_end(l@, i as int);
    }
    if e1 - i != 4 || e1 >= n || l[e1] != '-' {
        return None;
    }
    let e2 = digits_end_exec(l, e1 + 1);
    proof {
        lemma_digits_end(l@, e1 + 1);
    }
    if e2 - (e1 + 1) < 1 || e2 - (e1 + 1) > 2 || e2 >= n || l[e2] != '-' {
        return None;
    }
    let e3 = digits_end_exec(l, e2 + 1);
    proof {
        lemma_digits_end(l@, e2 + 1);
    }
    if e3 - (e2 + 1) < 1 || e3 - (e2 + 1) > 2 {
        return None;
    }
    let y = small_value(l, i, e1);
    let m = small_value(l, e1 + 1, e2);
    let d = small_value(l, e2 + 1, e3);
    if 1 <= d && d <= 31 && 1 <= m && m <= 12 {
        Some((y, m, d))
    } else {
        None
    }
}

fn month_name_at_exec(l: &Vec<char>, k: usize, months: &Vec<Vec<char>>) -> (r: Option<(u64, usize)>)
    requires
        months@.len() == 12,
    ensures
        match r {
            Some(mp) => month_name_at(l@, k as int, 0, views(months@)) == Some((mp.0 as nat, mp.1 as int)),
            None => month_name_at(l@, k as int, 0, views(months@)) is None,
        },
        match r {
            Some(mp) => 1 <= mp.0 <= 12 && k <= mp.1 <= l@.len(),
            None => true,
        },
{
    let n = l.len();
    let mut j: usize = 0;
    while j < months.len()
        invariant
            n == l@.len(),
            j <= months@.len(),
            months@.len() == 12,
            month_name_at(l@, k as int, j as int, views(months@)) == month_name_at(l@, k as int, 0, views(months@)),
        decreases months@.len() - j,
    {
        assert(views(months@)[j as int] == months@[j as int]@);
        if match_at_exec(l, k, &months[j]) {
            assert(k + months@[j as int]@.len() <= n);
            return Some(((j + 1) as u64, k + months[j].len()));
        }
        j = j + 1;
    }
    None
}

fn named_date_at_exec(l: &Vec<char>, i: usize, months: &Vec<Vec<char>>) -> (r: Option<(u64, u64, u64)>)
    requires
        views(months@) == thai_months(),
    ensures
        ymd_view(r) == named_date_at(l@, i as int),
        year_fits(r),
{
    if !starts_number_exec(l, i) {
        return None;
    }
    let e1 = digits_end_exec(l, i);
    proof {
        lemma_digits_end(l@, i as int);
    }
    if e1 - i > 2 {
        return None;
    }
    let k = blanks_fwd_exec(l, e1);
    match month_name_at_exec(l, k, months) {
        Some(mp) => {
            let ys = blanks_fwd_exec(l, mp.1);
            let ye = digits_end_exec(l, ys);
            proof {
                lemma_digits_end(l@, ys as int);
            }
            if ye - ys != 4 {
                return None;
            }
            let d = small_value(l, i, e1);
            if d < 1 || d > 31 {
                return None;
            }
            let y = small_value(l, ys, ye);
            let year = if y > 2500 { y - 543 } else { y };
            Some((year, mp.0, d))
        },
        None => None,
    }
}

fn is_ascii_letter_exec(c: char) -> (r: bool)
    ensures
        r == is_ascii_letter(c),
{
    ('a' <= c && c <= 'z') || ('A' <= c && c <= 'Z')
}

fn skip_char_exec(l: &Vec<char>, k: usize, c: char) -> (r: usize)
    requires
        k <= l@.len(),
    ensures
        r == skip_char(l@, k as int, c),
        k <= r <= l@.len(),
{
    if k < l.len() && l[k] == c {
        k + 1
    } else {
        k
    }
}

fn ordinal_end_exec(l: &Vec<char>, k: usize) -> (r: usize)
    requires
        k <= l@.len(),
    ensures
        r == ordinal_end(l@, k as int),
        k <= r <= l@.len(),
{
    let n = l.len();
    if k < n && n - k >= 2 {
        let a = l[k];
        let b = l[k + 1];
        if (a == 's' && b == 't') || (a == 'n' && b == 'd') || (a == 'r' && b == 'd') || (a == 't' && b == 'h') {
            return k + 2;
        }
    }
    k
}

#[verifier::rlimit(40)]
fn english_date_at_exec(l: &Vec<char>, i: usize, english: &Vec<Vec<char>>) -> (r: Option<(u64, u64, u64)>)
    requires
        views(english@) == english_months(),
    ensures
        ymd_view(r) == english_date_at(l@, i as int),
        year_fits(r),
{
    let n = l.len();
    if i > 0 && i <= n && is_ascii_letter_exec(l[i - 1]) {
        return None;
    }
    match month_name_at_exec(l, i, english) {
        Some(mp) => {
            let b = skip_char_exec(l, lower_end_exec(l, mp.1), '.');
            let ds = blanks_fwd_exec(l, b);
            let de = digits_end_exec(l, ds);
            proof {
                lemma_digits_end(l@, ds as int);
            }
            let c2 = skip_char_exec(l, ordinal_end_exec(l, de), ',');
            let ys = blanks_fwd_exec(l, c2);
            let ye = digits_end_exec(l, ys);
            proof {
                lemma_digits_end(l@, ys as int);
            }
            if ds <= b || de - ds < 1 || de - ds > 2 || ys <= c2 || ye - ys != 4 {
                return None;
            }
            let d = small_value(l, ds, de);
            if d < 1 || d > 31 {
                return None;
            }
            let y = small_value(l, ys, ye);
            let year = if y > 2500 { y - 543 } else { y };
            proof {
                assert(english_date_at(l@, i as int) == Some((era_year(y as nat), mp.0 as nat, d as nat)));
            }
            Some((year, mp.0, d))
        },
        None => None,
    }
}

fn date_at_exec(
    l: &Vec<char>,
    i: usize,
    p: u8,
    months: &Vec<Vec<char>>,
    english: &Vec<Vec<char>>,
) -> (r: Option<(u64, u64, u64)>)
    requires
        views(months@) == thai_months(),
        views(english@) == english_months(),
    ensures
        ymd_view(r) == date_at(l@, i as int, p as int),
        year_fits(r),
{
    if p == 0 {
        numeric_date_at_exec(l, i)
    } else if p == 1 {
        iso_date_at_exec(l, i)
    } else if p == 2 {
        named_date_at_exec(l, i, months)
    } else {
        english_date_at_exec(l, i, english)
    }
}

fn date_in_lines_exec(
    ls: &Vec<Vec<char>>,
    p: u8,
    months: &Vec<Vec<char>>,
    english: &Vec<Vec<char>>,
) -> (r: Option<(u64, u64, u64)>)
    requires
        views(months@) == thai_months(),
        views(english@) == english_months(),
    ensures
        ymd_view(r) == date_in_lines(views(ls@), 0, p as int),
        year_fits(r),
{
    let mut k: usize = 0;
    while k < ls.len()
        invariant
            k <= ls@.len(),
            views(months@) == thai_months(),
            views(english@) == english_months(),
            date_in_lines(views(ls@), k as int, p as int) == date_in_lines(views(ls@), 0, p as int),
        decreases ls@.len() - k,
    {
        let l = &ls[k];
        assert(views(ls@)[k as int] == l@);
        let mut i: usize = 0;
        while i < l.len()
            invariant
                i <= l@.len(),
                k < ls@.len(),
                views(ls@)[k as int] == l@,
                views(months@) == thai_months(),
                views(english@) == english_months(),
                date_in_line(l@, i as int, p as int) == date_in_line(l@, 0, p as int),
                date_in_lines(views(ls@), k as int, p as int) == date_in_lines(views(ls@), 0, p as int),
            decreases l@.len() - i,
        {
            let d = date_at_exec(l, i, p, months, english);
            if d.is_some() {
                assert(date_in_line(l@, i as int, p as int) == date_at(l@, i as int, p as int));
                assert(date_in_lines(views(ls@), k as int, p as int) == date_in_line(l@, 0, p as int));
                return d;
            }
            i = i + 1;
        }
        k = k + 1;
    }
    None
}

fn digit_char_exec(n: u64) -> (r: char)
    ensures
        r == digit_char(n as nat),
{
    let k = n % 10;
    if k == 0 { '0' } else if k == 1 { '1' } else if k == 2 { '2' } else if k == 3 { '3' }
    else if k == 4 { '4' } else if k == 5 { '5' } else if k == 6 { '6' } else if k == 7 { '7' }
    else if k == 8 { '8' } else { '9' }
}

/// The date of a receipt's lines, written `YYYY-MM-DD`.
pub fn date_in_lines_text(ls: &Vec<Vec<char>>) -> (r: Option<String>)
    ensures
        date_view(r) == date_text(date_of_lines(views(ls@))),
{
    let months = thai_months_exec();
    let english = english_months_exec();
    let mut found = date_in_lines_exec(ls, 0, &months, &english);
    if found.is_none() {
        found = date_in_lines_exec(ls, 1, &months, &english);
        if found.is_none() {
            found = date_in_lines_exec(ls, 2, &months, &english);
            if found.is_none() {
                found = date_in_lines_exec(ls, 3, &months, &english);
            }
        }
    }
    match found {
        Some(t) => {
            let mut v: Vec<char> = Vec::new();
            v.push(digit_char_exec(t.0 / 1000));
            v.push(digit_char_exec(t.0 / 100));
            v.push(digit_char_exec(t.0 / 10));
            v.push(digit_char_exec(t.0));
            v.push('-');
            v.push(digit_char_exec(t.1 / 10));
            v.push(digit_char_exec(t.1));
            v.push('-');
            v.push(digit_char_exec(t.2 / 10));
            v.push(digit_char_exec(t.2));
            let ghost g = (t.0 as nat, t.1 as nat, t.2 as nat);
            assert(v@ =~= iso_text(g));
            Some(string_from_chars(&v))
        },
        None => None,
    }
}

} // verus!
