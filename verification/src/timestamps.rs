//! Moments as text.

use vstd::prelude::*;

use crate::text;

verus! {

pub open spec fn is_leap(year: int) -> bool {
    year % 4 == 0 && (year % 100 != 0 || year % 400 == 0)
}

pub open spec fn days_in_year(year: int) -> int {
    if is_leap(year) {
        366
    } else {
        365
    }
}

pub open spec fn days_in_month(year: int, month: int) -> int {
    if month == 2 {
        if is_leap(year) {
            29
        } else {
            28
        }
    } else if month == 4 || month == 6 || month == 9 || month == 11 {
        30
    } else {
        31
    }
}

/// The days from the first of January 1970 to the first of January of `year`.
pub open spec fn days_before_year(year: int) -> int
    decreases year - 1970,
{
    if year <= 1970 {
        0
    } else {
        days_before_year(year - 1) + days_in_year(year - 1)
    }
}

/// The days of `year` before the first of `month`.
pub open spec fn days_before_month(year: int, month: int) -> int
    decreases month,
{
    if month <= 1 {
        0
    } else {
        days_before_month(year, month - 1) + days_in_month(year, month - 1)
    }
}

/// `year`, `month` and `day` are the date that lies `days` days after the first
/// of January 1970.
pub open spec fn is_date(days: int, year: int, month: int, day: int) -> bool {
    &&& 1970 <= year
    &&& 1 <= month <= 12
    &&& 1 <= day <= days_in_month(year, month)
    &&& days == days_before_year(year) + days_before_month(year, month) + day - 1
}

/// A date and a time of day as `YYYY-MM-DDThh:mm:ssZ`.
pub open spec fn iso_text(year: int, month: int, day: int, second_of_day: int) -> Seq<char> {
    text::dec_padded(year as nat, 4) + "-"@ + text::dec_padded(month as nat, 2) + "-"@
        + text::dec_padded(day as nat, 2) + "T"@ + text::dec_padded(
        (second_of_day / 3600) as nat,
        2,
    ) + ":"@ + text::dec_padded((second_of_day % 3600 / 60) as nat, 2) + ":"@ + text::dec_padded(
        (second_of_day % 60) as nat,
        2,
    ) + "Z"@
}

/// The date that lies `days` days after the first of January 1970.
pub open spec fn date_of(days: int) -> (int, int, int) {
    choose|t: (int, int, int)| #[trigger] is_date(days, t.0, t.1, t.2)
}

/// A moment, given in seconds since the start of 1970, as a date and a time of
/// day.
pub open spec fn iso_of(secs: int) -> Seq<char> {
    let t = date_of(secs / 86400);
    iso_text(t.0, t.1, t.2, secs % 86400)
}

proof fn lemma_year_start(year: int)
    requires
        1970 <= year,
    ensures
        days_before_year(year) >= 365 * (year - 1970),
    decreases year,
{
    if year > 1970 {
        lemma_year_start(year - 1);
    }
}

fn leap(year: u64) -> (r: bool)
    ensures
        r == is_leap(year as int),
{
    year % 4 == 0 && (year % 100 != 0 || year % 400 == 0)
}

fn month_length(year: u64, month: u64) -> (r: u64)
    ensures
        r == days_in_month(year as int, month as int),
{
    if month == 2 {
        if leap(year) {
            29
        } else {
            28
        }
    } else if month == 4 || month == 6 || month == 9 || month == 11 {
        30
    } else {
        31
    }
}

/// The date that lies `days` days after the first of January 1970.
pub fn civil_date(days: u64) -> (r: (u64, u64, u64))
    requires
        days <= u64::MAX / 86400,
    ensures
        is_date(days as int, r.0 as int, r.1 as int, r.2 as int),
{
    let mut year: u64 = 1970;
    let mut left: u64 = days;
    loop
        invariant
            1970 <= year,
            days <= u64::MAX / 86400,
            days == days_before_year(year as int) + left,
        ensures
            1970 <= year,
            days == days_before_year(year as int) + left,
            left < days_in_year(year as int),
        decreases left,
    {
        let length: u64 = if leap(year) {
            366
        } else {
            365
        };
        if left < length {
            break;
        }
        proof {
            lemma_year_start(year as int);
        }
        left = left - length;
        year = year + 1;
    }
    let mut month: u64 = 1;
    proof {
        reveal_with_fuel(days_before_month, 14);
    }
    while month < 12 && left >= month_length(year, month)
        invariant
            1 <= month <= 12,
            1970 <= year,
            days == days_before_year(year as int) + days_before_month(year as int, month as int)
                + left,
            days_before_month(year as int, month as int) + left < days_in_year(year as int),
        decreases 12 - month,
    {
        left = left - month_length(year, month);
        month = month + 1;
    }
    proof {
        reveal_with_fuel(days_before_month, 14);
    }
    (year, month, left + 1)
}

/// A moment, given in seconds since the start of 1970, as
/// `YYYY-MM-DDThh:mm:ssZ`.
pub fn iso_timestamp(secs: u64) -> (r: String)
    ensures
        r@ == iso_of(secs as int),
{
    let days: u64 = secs / 86400;
    let of_day: u64 = secs % 86400;
    let (year, month, day) = civil_date(days);
    let mut s = text::decimal_padded(year, 4);
    s.append("-");
    let t = text::decimal_padded(month, 2);
    s.append(t.as_str());
    s.append("-");
    let t = text::decimal_padded(day, 2);
    s.append(t.as_str());
    s.append("T");
    let t = text::decimal_padded(of_day / 3600, 2);
    s.append(t.as_str());
    s.append(":");
    let t = text::decimal_padded(of_day % 3600 / 60, 2);
    s.append(t.as_str());
    s.append(":");
    let t = text::decimal_padded(of_day % 60, 2);
    s.append(t.as_str());
    s.append("Z");
    proof {
        let w = (year as int, month as int, day as int);
        assert(is_date(days as int, w.0, w.1, w.2));
        let t = date_of(days as int);
        assert(is_date(days as int, t.0, t.1, t.2));
        a_day_has_one_date(days as int, t.0, t.1, t.2, w.0, w.1, w.2);
    }
    s
}

/// A moment as the plain number of seconds since the start of 1970.
pub fn now_iso8601(secs: u64) -> (r: String)
    ensures
        r@ == text::dec(secs as nat),
{
    text::decimal(secs)
}

/// Only one date lies a given number of days after the first of January 1970.
pub proof fn a_day_has_one_date(days: int, y1: int, m1: int, d1: int, y2: int, m2: int, d2: int)
    requires
        is_date(days, y1, m1, d1),
        is_date(days, y2, m2, d2),
    ensures
        y1 == y2 && m1 == m2 && d1 == d2,
{
    lemma_day_of_year(y1, m1, d1);
    lemma_day_of_year(y2, m2, d2);
    if y1 < y2 {
        lemma_years_apart(y1, y2);
    } else if y2 < y1 {
        lemma_years_apart(y2, y1);
    }
    if m1 < m2 {
        lemma_months_apart(y1, m1, m2);
    } else if m2 < m1 {
        lemma_months_apart(y1, m2, m1);
    }
}

proof fn lemma_day_of_year(y: int, m: int, d: int)
    requires
        1 <= m <= 12,
        1 <= d <= days_in_month(y, m),
    ensures
        0 <= days_before_month(y, m) + d - 1 < days_in_year(y),
{
    reveal_with_fuel(days_before_month, 14);
}

proof fn lemma_years_apart(a: int, b: int)
    requires
        1970 <= a < b,
    ensures
        days_before_year(a) + days_in_year(a) <= days_before_year(b),
    decreases b - a,
{
    if b > a + 1 {
        lemma_years_apart(a, b - 1);
    }
}

proof fn lemma_months_apart(y: int, a: int, b: int)
    requires
        1 <= a < b,
    ensures
        days_before_month(y, a) + days_in_month(y, a) <= days_before_month(y, b),
    decreases b - a,
{
    if b > a + 1 {
        lemma_months_apart(y, a, b - 1);
    }
}

/// The first day is the first of January 1970, and the day after a date is the next of
/// its month, or the first of the next month, or the first of January of the next year.
pub proof fn one_day_follows_another(days: int, year: int, month: int, day: int)
    requires
        is_date(days, year, month, day),
    ensures
        is_date(0, 1970, 1, 1),
        day < days_in_month(year, month) ==> is_date(days + 1, year, month, day + 1),
        day == days_in_month(year, month) && month < 12 ==> is_date(days + 1, year, month + 1, 1),
        day == days_in_month(year, month) && month == 12 ==> is_date(days + 1, year + 1, 1, 1),
{
    reveal_with_fuel(days_before_month, 14);
    reveal_with_fuel(days_before_year, 2);
}

/// A year is as long as its months are together: February has 29 days in years that can be
/// divided by four, but for those of full centuries that cannot be divided by 400.
pub proof fn a_year_is_as_long_as_its_months(year: int)
    ensures
        days_before_month(year, 13) == days_in_year(year),
        days_in_month(year, 2) == 29 <==> (year % 400 == 0 || (year % 4 == 0 && year % 100 != 0)),
        days_in_month(year, 2) == 29 || days_in_month(year, 2) == 28,
        days_in_month(year, 1) == 31 && days_in_month(year, 3) == 31 && days_in_month(year, 4)
            == 30 && days_in_month(year, 5) == 31 && days_in_month(year, 6) == 30
            && days_in_month(year, 7) == 31 && days_in_month(year, 8) == 31 && days_in_month(
            year,
            9,
        ) == 30 && days_in_month(year, 10) == 31 && days_in_month(year, 11) == 30
            && days_in_month(year, 12) == 31,
{
    reveal_with_fuel(days_before_month, 14);
}

proof fn lemma_two_digits(n: nat)
    requires
        n < 100,
    ensures
        text::dec_padded(n, 2).len() == 2,
        text::digits_value(text::dec_padded(n, 2)) == n,
{
    text::padding_keeps_the_number(n, 2);
    reveal_with_fuel(text::dec, 3);
}

proof fn lemma_four_digits(n: nat)
    requires
        n < 10000,
    ensures
        text::dec_padded(n, 4).len() == 4,
        text::digits_value(text::dec_padded(n, 4)) == n,
{
    text::padding_keeps_the_number(n, 4);
    reveal_with_fuel(text::dec, 5);
}

/// A moment is written as its date and its time of day, each part in its place, so that
/// the moment can be read off it.
pub proof fn a_moment_reads_off_its_text(secs: int, year: int, month: int, day: int)
    requires
        0 <= secs,
        is_date(secs / 86400, year, month, day),
        year < 10000,
    ensures
        ({
            let s = iso_of(secs);
            &&& s.len() == 20
            &&& text::digits_value(s.subrange(0, 4)) == year
            &&& text::digits_value(s.subrange(5, 7)) == month
            &&& text::digits_value(s.subrange(8, 10)) == day
            &&& 86400 * (secs / 86400) + 3600 * text::digits_value(s.subrange(11, 13)) + 60
                * text::digits_value(s.subrange(14, 16)) + text::digits_value(s.subrange(17, 19))
                == secs
            &&& text::digits_value(s.subrange(14, 16)) < 60
            &&& text::digits_value(s.subrange(17, 19)) < 60
            &&& s[4] == '-' && s[7] == '-' && s[10] == 'T' && s[13] == ':' && s[16] == ':' && s[19]
                == 'Z'
        }),
{
    let days = secs / 86400;
    let w = (year, month, day);
    assert(is_date(days, w.0, w.1, w.2));
    let t = date_of(days);
    a_day_has_one_date(days, t.0, t.1, t.2, year, month, day);
    let of = secs % 86400;
    reveal_strlit("-");
    reveal_strlit("T");
    reveal_strlit(":");
    reveal_strlit("Z");
    lemma_four_digits(year as nat);
    lemma_two_digits(month as nat);
    lemma_two_digits(day as nat);
    lemma_two_digits((of / 3600) as nat);
    lemma_two_digits((of % 3600 / 60) as nat);
    lemma_two_digits((of % 60) as nat);
    let s = iso_of(secs);
    assert(s == iso_text(year, month, day, of));
    assert(s.subrange(0, 4) =~= text::dec_padded(year as nat, 4));
    assert(s.subrange(5, 7) =~= text::dec_padded(month as nat, 2));
    assert(s.subrange(8, 10) =~= text::dec_padded(day as nat, 2));
    assert(s.subrange(11, 13) =~= text::dec_padded((of / 3600) as nat, 2));
    assert(s.subrange(14, 16) =~= text::dec_padded((of % 3600 / 60) as nat, 2));
    assert(s.subrange(17, 19) =~= text::dec_padded((of % 60) as nat, 2));
}

} // verus!
