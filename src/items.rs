use vstd::prelude::*;
use crate::text::{
    views, is_digit, is_blank, is_blank_exec, digit_value, trimmed, contains_any_ci, trim, contains_any_ci_exec,
    is_digit_exec, digit_of, string_from_chars, copy_range,
};
use crate::total::grouped_value;

verus! {

/// One purchased item: its name, its price in hundredths and how many were bought.
pub struct ItemData {
    pub name: String,
    pub price: Option<u64>,
    pub quantity: Option<u32>,
}

/// What an item says, over plain values.
pub type ItemView = (Seq<char>, Option<nat>, Option<nat>);

impl ItemData {
    pub open spec fn view_item(&self) -> ItemView {
        (
            self.name@,
            match self.price {
                Some(p) => Some(p as nat),
                None => None,
            },
            match self.quantity {
                Some(q) => Some(q as nat),
                None => None,
            },
        )
    }
}

pub open spec fn item_views(v: Seq<ItemData>) -> Seq<ItemView> {
    Seq::new(v.len(), |i: int| v[i].view_item())
}

/// Shortest trimmed line that may hold an item.
pub const ITEM_LINE_MIN: usize = 4;

/// Shortest item name.
pub const ITEM_NAME_MIN: usize = 2;

/// Most digits in a price's whole part or in a quantity.
pub const ITEM_DIGITS_MAX: usize = 9;

pub open spec fn pow10(n: nat) -> nat
    decreases n,
{
    if n == 0 {
        1
    } else {
        10 * pow10((n - 1) as nat)
    }
}

/// Start of the run of digits that ends just before `e`.
pub open spec fn digits_back(t: Seq<char>, e: int) -> int
    decreases e,
{
    if 0 < e <= t.len() && is_digit(t[e - 1]) {
        digits_back(t, e - 1)
    } else {
        e
    }
}

/// White space and periods, which may separate an item's name from its price.
pub open spec fn is_filler(c: char) -> bool {
    is_blank(c) || c == '.'
}

/// Start of the white space and periods that end just before `e`.
pub open spec fn filler_back(t: Seq<char>, e: int) -> int
    decreases e,
{
    if 0 < e <= t.len() && is_filler(t[e - 1]) {
        filler_back(t, e - 1)
    } else {
        e
    }
}

/// The price that ends `t`, with the index where it starts: digits, or digits, a
/// period and one or two digits.
pub open spec fn trailing_price(t: Seq<char>) -> Option<(int, nat)> {
    let e = t.len() as int;
    let s1 = digits_back(t, e);
    let s0 = digits_back(t, s1 - 1);
    if 1 <= e - s1 <= 2 && s1 >= 2 && t[s1 - 1] == '.' && s0 < s1 - 1 {
        if s1 - 1 - s0 <= ITEM_DIGITS_MAX {
            let whole = grouped_value(t, s0, s1 - 1);
            let frac = if e - s1 == 2 {
                digit_value(t[s1]) * 10 + digit_value(t[s1 + 1])
            } else {
                digit_value(t[s1]) * 10
            };
            Some((s0, whole * 100 + frac))
        } else {
            None
        }
    } else if 1 <= e - s1 <= ITEM_DIGITS_MAX {
        Some((s1, grouped_value(t, s1, e) * 100))
    } else {
        None
    }
}

/// The item on a trimmed line `t`: a name, a run of white space or periods, then a price,
/// or a quantity, `x` or `*`, and a price. Without a quantity one was bought.
pub open spec fn item_of_trimmed(t: Seq<char>) -> Option<ItemView> {
    match trailing_price(t) {
        None => None,
        Some(pp) => {
            let ps = pp.0;
            let qs = digits_back(t, ps - 1);
            let has_qty = ps >= 2 && (t[ps - 1] == 'x' || t[ps - 1] == '*') && qs < ps - 1;
            let q = if has_qty { grouped_value(t, qs, ps - 1) } else { 1 };
            let ns = if has_qty { qs } else { ps };
            if has_qty && (ps - 1 - qs > ITEM_DIGITS_MAX || q == 0) {
                None
            } else if ns >= 1 && is_filler(t[ns - 1]) && filler_back(t, ns)
                >= ITEM_NAME_MIN {
                Some((t.subrange(0, filler_back(t, ns)), Some(pp.1), Some(q)))
            } else {
                None
            }
        },
    }
}

/// The item on a line, trimmed first; lines that are too short or that speak of
/// totals or tax hold none.
pub open spec fn item_of_line(l: Seq<char>) -> Option<ItemView> {
    let t = trimmed(l);
    if t.len() < ITEM_LINE_MIN || contains_any_ci(t, item_stop_words()) {
        None
    } else {
        item_of_trimmed(t)
    }
}

/// The items of lines `k..` in order.
pub open spec fn items_from(ls: Seq<Seq<char>>, k: int) -> Seq<ItemView>
    decreases ls.len() - k,
{
    if k < 0 || k >= ls.len() {
        Seq::empty()
    } else {
        match item_of_line(ls[k]) {
            Some(it) => seq![it] + items_from(ls, k + 1),
            None => items_from(ls, k + 1),
        }
    }
}

pub open spec fn items_of_lines(ls: Seq<Seq<char>>) -> Seq<ItemView> {
    items_from(ls, 0)
}

proof fn lemma_value_bound(t: Seq<char>, a: int, e: int)
    requires
        a <= e,
    ensures
        grouped_value(t, a, e) < pow10((e - a) as nat),
    decreases e - a,
{
    if a < e {
        lemma_value_bound(t, a, e - 1);
        if is_digit(t[e - 1]) {
            assert(digit_value(t[e - 1]) <= 9);
        }
    }
}

proof fn lemma_pow10_mono(n: nat, m: nat)
    requires
        n <= m,
    ensures
        pow10(n) <= pow10(m),
    decreases m,
{
    if n < m {
        lemma_pow10_mono(n, (m - 1) as nat);
    }
}

proof fn lemma_digits_back(t: Seq<char>, e: int)
    requires
        0 <= e <= t.len(),
    ensures
        0 <= digits_back(t, e) <= e,
        forall|j: int| digits_back(t, e) <= j < e ==> is_digit(#[trigger] t[j]),
    decreases e,
{
    if 0 < e && is_digit(t[e - 1]) {
        lemma_digits_back(t, e - 1);
    }
}

/// Words of total, subtotal and tax lines, which hold no item.
pub open spec fn item_stop_words() -> Seq<Seq<char>> {
    seq![
        seq!['t', 'o', 't', 'a', 'l'],
        seq!['t', 'a', 'x'],
        seq!['v', 'a', 't'],
        seq!['ร', 'ว', 'ม'],
        seq!['ท', 'ั', '้', 'ง', 'ห', 'ม', 'ด'],
        seq!['ภ', 'า', 'ษ', 'ี'],
    ]
}

fn item_stop_words_exec() -> (r: Vec<Vec<char>>)
    ensures
        views(r@) == item_stop_words(),
{
    let mut r: Vec<Vec<char>> = Vec::new();
    r.push(vec!['t', 'o', 't', 'a', 'l']);
    r.push(vec!['t', 'a', 'x']);
    r.push(vec!['v', 'a', 't']);
    r.push(vec!['ร', 'ว', 'ม']);
    r.push(vec!['ท', 'ั', '้', 'ง', 'ห', 'ม', 'ด']);
    r.push(vec!['ภ', 'า', 'ษ', 'ี']);
    assert(views(r@) =~~= item_stop_words());
    r
}

fn digits_back_exec(t: &Vec<char>, e: usize) -> (r: usize)
    requires
        e <= t@.len(),
    ensures
        r == digits_back(t@, e as int),
        r <= e,
        forall|j: int| r <= j < e ==> is_digit(#[trigger] t@[j]),
{
    proof {
        lemma_digits_back(t@, e as int);
    }
    let mut s: usize = e;
    while s > 0 && is_digit_exec(t[s - 1])
        invariant
            s <= e <= t@.len(),
            digits_back(t@, s as int) == digits_back(t@, e as int),
        decreases s,
    {
        s = s - 1;
    }
    s
}

fn filler_back_exec(t: &Vec<char>, e: usize) -> (r: usize)
    requires
        e <= t@.len(),
    ensures
        r == filler_back(t@, e as int),
        r <= e,
{
    let mut s: usize = e;
    while s > 0 && (is_blank_exec(t[s - 1]) || t[s - 1] == '.')
        invariant
            s <= e <= t@.len(),
            filler_back(t@, s as int) == filler_back(t@, e as int),
        decreases s,
    {
        s = s - 1;
    }
    s
}

/// The number written by the (at most nine) digits of `t[a..b]`.
fn digits_value(t: &Vec<char>, a: usize, b: usize) -> (r: u64)
    requires
        a <= b <= t@.len(),
        b - a <= ITEM_DIGITS_MAX,
        forall|j: int| a <= j < b ==> is_digit(#[trigger] t@[j]),
    ensures
        r == grouped_value(t@, a as int, b as int),
        r < 1_000_000_000,
{
    let mut v: u64 = 0;
    let mut k: usize = a;
    while k < b
        invariant
            a <= k <= b <= t@.len(),
            b - a <= ITEM_DIGITS_MAX,
            forall|j: int| a <= j < b ==> is_digit(#[trigger] t@[j]),
            v == grouped_value(t@, a as int, k as int),
        decreases b - k,
    {
        proof {
            lemma_value_bound(t@, a as int, k as int);
            lemma_pow10_mono((k - a) as nat, 8);
            reveal_with_fuel(pow10, 9);
        }
        v = v * 10 + digit_of(t[k]);
        k = k + 1;
    }
    proof {
        lemma_value_bound(t@, a as int, b as int);
        lemma_pow10_mono((b - a) as nat, 9);
        reveal_with_fuel(pow10, 10);
    }
    v
}

fn trailing_price_exec(t: &Vec<char>) -> (r: Option<(usize, u64)>)
    ensures
        match r {
            Some(p) => trailing_price(t@) == Some((p.0 as int, p.1 as nat)) && p.0 <= t@.len(),
            None => trailing_price(t@) is None,
        },
{
    let e = t.len();
    let s1 = digits_back_exec(t, e);
    if 1 <= e - s1 && e - s1 <= 2 && s1 >= 2 && t[s1 - 1] == '.' {
        let s0 = digits_back_exec(t, s1 - 1);
        if s0 < s1 - 1 {
            if s1 - 1 - s0 <= ITEM_DIGITS_MAX {
                let whole = digits_value(t, s0, s1 - 1);
                let frac = if e - s1 == 2 {
                    digit_of(t[s1]) * 10 + digit_of(t[s1 + 1])
                } else {
                    digit_of(t[s1]) * 10
                };
                return Some((s0, whole * 100 + frac));
            } else {
                return None;
            }
        }
    }
    if 1 <= e - s1 && e - s1 <= ITEM_DIGITS_MAX {
        Some((s1, digits_value(t, s1, e) * 100))
    } else {
        None
    }
}

fn item_of_trimmed_exec(t: &Vec<char>) -> (r: Option<ItemData>)
    ensures
        match r {
            Some(it) => item_of_trimmed(t@) == Some(it.view_item()),
            None => item_of_trimmed(t@) is None,
        },
{
    match trailing_price_exec(t) {
        None => None,
        Some(pp) => {
            let ps = pp.0;
            let mut has_qty = false;
            let mut qs: usize = ps;
            if ps >= 2 && (t[ps - 1] == 'x' || t[ps - 1] == '*') {
                qs = digits_back_exec(t, ps - 1);
                has_qty = qs < ps - 1;
            }
            proof {
                if ps >= 1 {
                    lemma_digits_back(t@, ps - 1);
                }
            }
            assert(has_qty == (ps >= 2 && (t@[ps - 1] == 'x' || t@[ps - 1] == '*') && digits_back(t@, ps - 1) < ps - 1));
            assert(has_qty ==> qs == digits_back(t@, ps - 1));
            let mut q: u64 = 1;
            if has_qty {
                if ps - 1 - qs > ITEM_DIGITS_MAX {
                    return None;
                }
                q = digits_value(t, qs, ps - 1);
                if q == 0 {
                    return None;
                }
            }
            let ns = if has_qty { qs } else { ps };
            if ns >= 1 && (is_blank_exec(t[ns - 1]) || t[ns - 1] == '.') {
                let ne = filler_back_exec(t, ns);
                if ne >= ITEM_NAME_MIN {
                    let name = copy_range(t, 0, ne);
                    let item = ItemData {
                        name: string_from_chars(&name),
                        price: Some(pp.1),
                        quantity: Some(q as u32),
                    };
                    return Some(item);
                }
            }
            None
        },
    }
}

fn item_of_line_exec(l: &Vec<char>, stops: &Vec<Vec<char>>) -> (r: Option<ItemData>)
    requires
        views(stops@) == item_stop_words(),
    ensures
        match r {
            Some(it) => item_of_line(l@) == Some(it.view_item()),
            None => item_of_line(l@) is None,
        },
{
    let t = trim(l);
    if t.len() < ITEM_LINE_MIN || contains_any_ci_exec(&t, stops) {
        None
    } else {
        item_of_trimmed_exec(&t)
    }
}

/// The items of a receipt's lines, in order.
pub fn items_in_lines(ls: &Vec<Vec<char>>) -> (r: Vec<ItemData>)
    ensures
        item_views(r@) == items_of_lines(views(ls@)),
{
    let stops = item_stop_words_exec();
    let mut r: Vec<ItemData> = Vec::new();
    let mut k: usize = 0;
    while k < ls.len()
        invariant
            k <= ls@.len(),
            views(stops@) == item_stop_words(),
            item_views(r@) + items_from(views(ls@), k as int) == items_of_lines(views(ls@)),
        decreases ls@.len() - k,
    {
        assert(views(ls@)[k as int] == ls@[k as int]@);
        match item_of_line_exec(&ls[k], &stops) {
            Some(it) => {
                proof {
                    let rest = items_from(views(ls@), k + 1);
                    assert(item_views(r@.push(it)) =~= item_views(r@) + seq![it.view_item()]);
                    assert(item_views(r@) + (seq![it.view_item()] + rest) =~= (item_views(r@)
                        + seq![it.view_item()]) + rest);
                }
                r.push(it);
            },
            None => {},
        }
        k = k + 1;
    }
    assert(item_views(r@) + Seq::<ItemView>::empty() =~= item_views(r@));
    r
}

} // verus!
