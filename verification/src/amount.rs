//! Amounts and dates as the model writes them.
use vstd::prelude::*;

use crate::text::{chars_of, is_ascii_digit, is_ascii_digit_spec, trim, trim_spec};

verus! {

/// The value of a string of ASCII digits.
pub open spec fn digits_value(s: Seq<char>) -> int
    decreases s.len(),
{
    if s.len() == 0 {
        0
    } else {
        digits_value(s.drop_last()) * 10 + (s.last() as int - '0' as int)
    }
}

/// Whether every character of `s` is an ASCII digit.
pub open spec fn all_digits(s: Seq<char>) -> bool {
    forall|i: int| 0 <= i < s.len() ==> is_ascii_digit_spec(#[trigger] s[i])
}

/// The characters that an amount may carry besides its digits: thousands separators
/// (ASCII and full-width commas), currency signs, the word 元 and spaces.
pub open spec fn is_amount_noise(c: char) -> bool {
    c == ',' || c == '，' || c == '￥' || c == '¥' || c == '元' || c == ' '
}

/// `s` without the characters that `is_amount_noise` names.
pub open spec fn strip_noise(s: Seq<char>) -> Seq<char>
    decreases s.len(),
{
    if s.len() == 0 {
        s
    } else if is_amount_noise(s.last()) {
        strip_noise(s.drop_last())
    } else {
        strip_noise(s.drop_last()).push(s.last())
    }
}

/// The index of the first `.` in `s`, or `s.len()`.
pub open spec fn first_dot(s: Seq<char>) -> int
    decreases s.len(),
{
    if s.len() == 0 {
        0
    } else if s[0] == '.' {
        0
    } else {
        1 + first_dot(s.drop_first())
    }
}

/// Cents held by up to two fraction digits: `"5"` is 50, `"05"` is 5.
pub open spec fn fraction_cents(f: Seq<char>) -> int {
    if f.len() == 0 {
        0
    } else if f.len() == 1 {
        digits_value(f) * 10
    } else {
        digits_value(f)
    }
}

/// The amount in cents that `value` states: trimmed, without separators and currency
/// marks, a non-negative decimal with at most two fraction digits that fits `i64`.
pub open spec fn cents_spec(value: Seq<char>) -> Option<i64> {
    let n = strip_noise(trim_spec(value));
    let d = first_dot(n);
    let yuan = n.subrange(0, d);
    let fraction = if d < n.len() { n.subrange(d + 1, n.len() as int) } else { Seq::empty() };
    if n.len() == 0 || n[0] == '-' {
        None
    } else if yuan.len() == 0 || !all_digits(yuan) || !all_digits(fraction) || fraction.len() > 2 {
        None
    } else if digits_value(yuan) * 100 + fraction_cents(fraction) > i64::MAX {
        None
    } else {
        Some((digits_value(yuan) * 100 + fraction_cents(fraction)) as i64)
    }
}

proof fn lemma_digits_value_nonneg(s: Seq<char>)
    requires
        all_digits(s),
    ensures
        digits_value(s) >= 0,
    decreases s.len(),
{
    if s.len() > 0 {
        assert(is_ascii_digit_spec(s[s.len() - 1]));
        lemma_digits_value_nonneg(s.drop_last());
    }
}

proof fn lemma_digits_value_grows(s: Seq<char>, k: int)
    requires
        all_digits(s),
        0 <= k <= s.len(),
    ensures
        digits_value(s.take(k)) <= digits_value(s),
    decreases s.len() - k,
{
    if k < s.len() {
        let t = s.take(k + 1);
        assert(t.drop_last() =~= s.take(k));
        assert(is_ascii_digit_spec(s[k]));
        assert(all_digits(s.take(k))) by {
            assert forall|i: int| 0 <= i < s.take(k).len() implies is_ascii_digit_spec(#[trigger] s.take(k)[i]) by {
                assert(s.take(k)[i] == s[i]);
            }
        }
        lemma_digits_value_nonneg(s.take(k));
        lemma_digits_value_grows(s, k + 1);
    } else {
        assert(s.take(k) =~= s);
    }
}

proof fn lemma_first_dot(s: Seq<char>, k: int)
    requires
        0 <= k <= s.len(),
        forall|i: int| 0 <= i < k ==> s[i] != '.',
        k == s.len() || s[k] == '.',
    ensures
        first_dot(s) == k,
    decreases k,
{
    if k > 0 {
        assert forall|i: int| 0 <= i < k - 1 implies s.drop_first()[i] != '.' by {
            assert(s.drop_first()[i] == s[i + 1]);
        }
        if k < s.len() {
            assert(s.drop_first()[k - 1] == s[k]);
        }
        lemma_first_dot(s.drop_first(), k - 1);
    }
}

/// Whether `cs[from..to]` is all ASCII digits.
fn digits_between(cs: &Vec<char>, from: usize, to: usize) -> (r: bool)
    requires
        from <= to <= cs.len(),
    ensures
        r == all_digits(cs@.subrange(from as int, to as int)),
{
    let ghost s = cs@.subrange(from as int, to as int);
    let mut i: usize = from;
    while i < to
        invariant
            from <= i <= to <= cs.len(),
            s == cs@.subrange(from as int, to as int),
            forall|j: int| 0 <= j < i - from ==> is_ascii_digit_spec(#[trigger] s[j]),
        decreases to - i,
    {
        assert(s[i - from] == cs@[i as int]);
        if !is_ascii_digit(cs[i]) {
            return false;
        }
        i = i + 1;
    }
    true
}

/// The value of the ASCII digits `cs[from..to]`, or `None` once it exceeds `limit`.
fn digits_upto(cs: &Vec<char>, from: usize, to: usize, limit: i64) -> (r: Option<i64>)
    requires
        from <= to <= cs.len(),
        all_digits(cs@.subrange(from as int, to as int)),
        limit >= 9,
    ensures
        match r {
            Some(v) => v == digits_value(cs@.subrange(from as int, to as int)) && v <= limit,
            None => digits_value(cs@.subrange(from as int, to as int)) > limit,
        },
{
    let ghost s = cs@.subrange(from as int, to as int);
    let mut v: i64 = 0;
    let mut i: usize = from;
    while i < to
        invariant
            from <= i <= to <= cs.len(),
            s == cs@.subrange(from as int, to as int),
            all_digits(s),
            limit >= 9,
            0 <= v <= limit,
            v == digits_value(s.take(i - from)),
        decreases to - i,
    {
        let c = cs[i];
        assert(s.take(i - from + 1).drop_last() =~= s.take(i - from));
        assert(s[i - from] == c);
        assert(is_ascii_digit_spec(c));
        let d = (c as u32 - '0' as u32) as i64;
        if v > (limit - d) / 10 {
            proof {
                assert(v * 10 + d > limit) by (nonlinear_arith)
                    requires v > (limit - d) / 10, 0 <= d <= 9, limit >= 0;
                lemma_digits_value_grows(s, i - from + 1);
            }
            return None;
        }
        assert(v * 10 + d <= limit) by (nonlinear_arith)
            requires v <= (limit - d) / 10, 0 <= d <= 9, limit >= 0, v >= 0;
        v = v * 10 + d;
        i = i + 1;
    }
    assert(s.take(to - from) =~= s);
    Some(v)
}

/// The amount in cents that a model answer states, e.g. `"1,028.50"` is 102850 and
/// `"￥1，546.69"` is 154669; `None` for anything that is not such an amount.
pub fn decimal_to_cents(value: &str) -> (r: Option<i64>)
    ensures
        r == cents_spec(value@),
{
    let t = chars_of(trim(value));
    let mut n: Vec<char> = Vec::new();
    let mut i: usize = 0;
    while i < t.len()
        invariant
            t@ == trim_spec(value@),
            i <= t.len(),
            n@ == strip_noise(t@.take(i as int)),
        decreases t.len() - i,
    {
        let c = t[i];
        assert(t@.take(i + 1).drop_last() =~= t@.take(i as int));
        if !(c == ',' || c == '，' || c == '￥' || c == '¥' || c == '元' || c == ' ') {
            n.push(c);
        }
        i = i + 1;
    }
    assert(t@.take(t.len() as int) =~= t@);
    let ghost ns = n@;
    if n.len() == 0 || n[0] == '-' {
        return None;
    }
    let mut d: usize = 0;
    while d < n.len() && n[d] != '.'
        invariant
            d <= n.len(),
            forall|j: int| 0 <= j < d ==> n@[j] != '.',
        decreases n.len() - d,
    {
        d = d + 1;
    }
    proof {
        lemma_first_dot(ns, d as int);
    }
    let frac_start: usize = if d < n.len() { d + 1 } else { n.len() };
    let ghost yuan = ns.subrange(0, d as int);
    let ghost fraction = ns.subrange(frac_start as int, n.len() as int);
    assert(d == n.len() ==> fraction =~= Seq::<char>::empty());
    if d == 0 {
        return None;
    }
    if !digits_between(&n, 0, d) || !digits_between(&n, frac_start, n.len()) {
        return None;
    }
    if n.len() - frac_start > 2 {
        return None;
    }
    let flen = n.len() - frac_start;
    assert(all_digits(fraction));
    assert(flen >= 1 ==> fraction[0] == n@[frac_start as int] && is_ascii_digit_spec(fraction[0]));
    assert(flen >= 2 ==> fraction[1] == n@[frac_start + 1] && is_ascii_digit_spec(fraction[1]));
    let frac: i64 = if flen == 0 {
        0
    } else if flen == 1 {
        let a = (n[frac_start] as u32 - '0' as u32) as i64;
        assert(fraction.drop_last() =~= Seq::<char>::empty());
        assert(digits_value(fraction.drop_last()) == 0);
        assert(digits_value(fraction) == a);
        a * 10
    } else {
        let a = (n[frac_start] as u32 - '0' as u32) as i64;
        let b = (n[frac_start + 1] as u32 - '0' as u32) as i64;
        assert(fraction.drop_last().drop_last() =~= Seq::<char>::empty());
        assert(fraction.drop_last()[0] == fraction[0]);
        assert(is_ascii_digit_spec(fraction[0]) && is_ascii_digit_spec(fraction[1]));
        assert(digits_value(fraction.drop_last().drop_last()) == 0);
        assert(digits_value(fraction.drop_last()) == a);
        assert(digits_value(fraction) == a * 10 + b);
        a * 10 + b
    };
    assert(frac == fraction_cents(fraction));
    proof {
        lemma_digits_value_nonneg(yuan);
    }
    let yuan_value = match digits_upto(&n, 0, d, i64::MAX) {
        Some(v) => v,
        None => {
            return None;
        },
    };
    if yuan_value > (i64::MAX - frac) / 100 {
        assert(yuan_value * 100 + frac > i64::MAX) by (nonlinear_arith)
            requires yuan_value > (i64::MAX - frac) / 100, 0 <= frac <= 990;
        return None;
    }
    assert(yuan_value * 100 + frac <= i64::MAX) by (nonlinear_arith)
        requires yuan_value <= (i64::MAX - frac) / 100, 0 <= frac <= 990, yuan_value >= 0;
    Some(yuan_value * 100 + frac)
}


/// Whether `year` is a Gregorian leap year.
pub open spec fn is_leap_year(year: int) -> bool {
    year % 400 == 0 || (year % 4 == 0 && year % 100 != 0)
}

/// The number of days in `month` of `year`; 0 for a month outside 1..=12.
pub open spec fn days_in_month_spec(year: int, month: int) -> int {
    if month == 1 || month == 3 || month == 5 || month == 7 || month == 8 || month == 10 || month == 12 {
        31
    } else if month == 4 || month == 6 || month == 9 || month == 11 {
        30
    } else if month == 2 && is_leap_year(year) {
        29
    } else if month == 2 {
        28
    } else {
        0
    }
}

/// Whether `s` is a calendar date `YYYY-MM-DD`: four, two and two ASCII digits separated
/// by `-`, a year from 1900 to 2200, a month from 1 to 12 and a day that the month has.
pub open spec fn valid_date_spec(s: Seq<char>) -> bool {
    &&& s.len() == 10
    &&& s[4] == '-'
    &&& s[7] == '-'
    &&& all_digits(s.subrange(0, 4))
    &&& all_digits(s.subrange(5, 7))
    &&& all_digits(s.subrange(8, 10))
    &&& 1900 <= digits_value(s.subrange(0, 4)) <= 2200
    &&& 1 <= digits_value(s.subrange(5, 7)) <= 12
    &&& 1 <= digits_value(s.subrange(8, 10))
    &&& digits_value(s.subrange(8, 10)) <= days_in_month_spec(
        digits_value(s.subrange(0, 4)),
        digits_value(s.subrange(5, 7)),
    )
}

/// The number of days in `month` of `year`; 0 for a month outside 1..=12.
/// Whether `year` is a Gregorian leap year.
fn leap_year(year: i32) -> (r: bool)
    ensures
        r == is_leap_year(year as int),
{
    let m: u32 = if year < 0 {
        (0i64 - year as i64) as u32
    } else {
        year as u32
    };
    assert(m as int == year as int || m as int == -(year as int));
    assert((m % 400 == 0) == ((year as int) % 400 == 0));
    assert((m % 4 == 0) == ((year as int) % 4 == 0));
    assert((m % 100 == 0) == ((year as int) % 100 == 0));
    m % 400 == 0 || (m % 4 == 0 && m % 100 != 0)
}

pub fn days_in_month(year: i32, month: u8) -> (r: u8)
    ensures
        r == days_in_month_spec(year as int, month as int),
{
    if month == 1 || month == 3 || month == 5 || month == 7 || month == 8 || month == 10 || month == 12 {
        31
    } else if month == 4 || month == 6 || month == 9 || month == 11 {
        30
    } else if month == 2 && leap_year(year) {
        29
    } else if month == 2 {
        28
    } else {
        0
    }
}

proof fn lemma_digits_bound(s: Seq<char>)
    requires
        all_digits(s),
    ensures
        0 <= digits_value(s) < pow10(s.len()),
    decreases s.len(),
{
    if s.len() > 0 {
        assert(all_digits(s.drop_last())) by {
            assert forall|i: int| 0 <= i < s.drop_last().len() implies is_ascii_digit_spec(#[trigger] s.drop_last()[i]) by {
                assert(s.drop_last()[i] == s[i]);
            }
        }
        assert(is_ascii_digit_spec(s[s.len() - 1]));
        lemma_digits_bound(s.drop_last());
    }
}

/// `10` to the power `n`.
pub open spec fn pow10(n: nat) -> int
    decreases n,
{
    if n == 0 {
        1
    } else {
        10 * pow10((n - 1) as nat)
    }
}

/// The value of the ASCII digits `cs[from..to]`, at most four of them.
fn field_value(cs: &Vec<char>, from: usize, to: usize) -> (r: i64)
    requires
        from <= to <= cs.len(),
        to - from <= 4,
        all_digits(cs@.subrange(from as int, to as int)),
    ensures
        r == digits_value(cs@.subrange(from as int, to as int)),
        0 <= r < 10000,
{
    proof {
        lemma_digits_bound(cs@.subrange(from as int, to as int));
        reveal_with_fuel(pow10, 5);
        assert(pow10(4) == 10000);
        if to - from < 4 {
            assert(pow10(3) == 1000);
            assert(pow10(2) == 100);
            assert(pow10(1) == 10);
            assert(pow10(0) == 1);
        }
    }
    match digits_upto(cs, from, to, 9999) {
        Some(v) => v,
        None => 0,
    }
}

/// Whether `value` is a date `YYYY-MM-DD` that exists, with a year from 1900 to 2200 and
/// only ASCII digits in its fields.
pub fn valid_date(value: &str) -> (r: bool)
    ensures
        r == valid_date_spec(value@),
{
    let cs = chars_of(value);
    if cs.len() != 10 || cs[4] != '-' || cs[7] != '-' {
        return false;
    }
    if !digits_between(&cs, 0, 4) || !digits_between(&cs, 5, 7) || !digits_between(&cs, 8, 10) {
        return false;
    }
    let year = field_value(&cs, 0, 4);
    let month = field_value(&cs, 5, 7);
    let day = field_value(&cs, 8, 10);
    if !(1900 <= year && year <= 2200 && 1 <= month && month <= 12 && 1 <= day) {
        return false;
    }
    let limit = days_in_month(year as i32, month as u8);
    day <= limit as i64
}


/// The month lengths are the Gregorian ones: 31 days in January, March, May, July,
/// August, October and December, 30 in April, June, September and November, and 29 in
/// February of a leap year (divisible by 4 and not by 100, or by 400), 28 otherwise; so a
/// year has 365 days, or 366 when it is a leap year.
pub proof fn law_gregorian_month_lengths(year: int)
    ensures
        forall|m: int| m == 1 || m == 3 || m == 5 || m == 7 || m == 8 || m == 10 || m == 12
            ==> #[trigger] days_in_month_spec(year, m) == 31,
        forall|m: int| m == 4 || m == 6 || m == 9 || m == 11 ==> #[trigger] days_in_month_spec(year, m) == 30,
        days_in_month_spec(year, 2) == if year % 400 == 0 || (year % 4 == 0 && year % 100 != 0) { 29int } else { 28int },
        days_in_month_spec(year, 1) + days_in_month_spec(year, 2) + days_in_month_spec(year, 3) + days_in_month_spec(year, 4)
            + days_in_month_spec(year, 5) + days_in_month_spec(year, 6) + days_in_month_spec(year, 7)
            + days_in_month_spec(year, 8) + days_in_month_spec(year, 9) + days_in_month_spec(year, 10)
            + days_in_month_spec(year, 11) + days_in_month_spec(year, 12) == if year % 400 == 0 || (year % 4 == 0
            && year % 100 != 0) { 366int } else { 365int },
{
}

/// A text of the form `YYYY-MM-DD` (ASCII digits) is a valid date exactly when it names a
/// real day of the Gregorian calendar from 1900-01-01 to 2200-12-31: every month has its
/// days 1 to 28, all but February their 29th and 30th, the long months their 31st, and
/// February its 29th in a leap year.
pub proof fn law_real_dates_are_valid(s: Seq<char>)
    requires
        s.len() == 10,
        s[4] == '-',
        s[7] == '-',
        all_digits(s.subrange(0, 4)),
        all_digits(s.subrange(5, 7)),
        all_digits(s.subrange(8, 10)),
    ensures
        ({
            let y = digits_value(s.subrange(0, 4));
            let m = digits_value(s.subrange(5, 7));
            let d = digits_value(s.subrange(8, 10));
            valid_date_spec(s) <==> {
                &&& 1900 <= y <= 2200
                &&& 1 <= m <= 12
                &&& 1 <= d
                &&& {
                    ||| d <= 28
                    ||| (d <= 30 && m != 2)
                    ||| (d == 31 && (m == 1 || m == 3 || m == 5 || m == 7 || m == 8 || m == 10 || m == 12))
                    ||| (d == 29 && m == 2 && (y % 400 == 0 || (y % 4 == 0 && y % 100 != 0)))
                }
            }
        }),
{
    law_gregorian_month_lengths(digits_value(s.subrange(0, 4)));
}

/// An amount read from text is never negative.
pub proof fn law_cents_are_nonnegative(value: Seq<char>)
    ensures
        cents_spec(value) matches Some(c) ==> c >= 0,
{
    let n = strip_noise(trim_spec(value));
    let d = first_dot(n);
    let yuan = n.subrange(0, d);
    if cents_spec(value) is Some {
        lemma_digits_value_nonneg(yuan);
        let fraction = if d < n.len() { n.subrange(d + 1, n.len() as int) } else { Seq::empty() };
        lemma_digits_value_nonneg(fraction);
    }
}

} // verus!
