//! The UTC calendar date and hour of a time in milliseconds since 1970-01-01T00:00:00Z.
use crate::number::{all_digits, digits_value, lemma_decimal_value, lemma_padded_value};
use crate::text::{padded_decimal, push_padded};
use vstd::prelude::*;

verus! {

/// Milliseconds in a day.
pub const MS_PER_DAY: i64 = 86_400_000;

/// Milliseconds in an hour.
pub const MS_PER_HOUR: i64 = 3_600_000;

/// A leap year of the Gregorian calendar.
pub open spec fn is_leap_year(y: int) -> bool {
    (y % 4 == 0 && y % 100 != 0) || y % 400 == 0
}

/// The days of year `y`.
pub open spec fn days_in_year(y: int) -> int {
    if is_leap_year(y) {
        366
    } else {
        365
    }
}

/// The days of month `m` (1 to 12) of year `y`.
pub open spec fn days_in_month(y: int, m: int) -> int {
    if m == 2 {
        if is_leap_year(y) {
            29
        } else {
            28
        }
    } else if m == 4 || m == 6 || m == 9 || m == 11 {
        30
    } else {
        31
    }
}

/// Days of the year `y` before the first day of month `m` (1 to 12).
pub open spec fn days_before_month(y: int, m: int) -> int {
    let base: int = if m <= 1 {
        0
    } else if m == 2 {
        31
    } else if m == 3 {
        59
    } else if m == 4 {
        90
    } else if m == 5 {
        120
    } else if m == 6 {
        151
    } else if m == 7 {
        181
    } else if m == 8 {
        212
    } else if m == 9 {
        243
    } else if m == 10 {
        273
    } else if m == 11 {
        304
    } else {
        334
    };
    if m > 2 && is_leap_year(y) {
        base + 1
    } else {
        base
    }
}

/// Days from 1970-01-01 to the first day of year `y` (negative before 1970).
pub open spec fn days_before_year(y: int) -> int
    decreases (if y >= 1970 { y - 1970 } else { 1970 - y }),
{
    if y == 1970 {
        0
    } else if y > 1970 {
        days_before_year(y - 1) + days_in_year(y - 1)
    } else {
        days_before_year(y + 1) - days_in_year(y)
    }
}

/// `(y, m, d)` is the calendar date `days` days after 1970-01-01.
pub open spec fn is_civil_date_of(days: int, y: int, m: int, d: int) -> bool {
    &&& 1 <= m <= 12
    &&& 1 <= d <= days_in_month(y, m)
    &&& days_before_year(y) + days_before_month(y, m) + d - 1 == days
}

/// The calendar date `days` days after 1970-01-01, as (year, month, day).
pub open spec fn civil_date(days: int) -> (int, int, int) {
    choose|t: (int, int, int)| is_civil_date_of(days, t.0, t.1, t.2)
}

/// A year with at least four digits, and a `-` before a year before year 0.
pub open spec fn year_text(y: int) -> Seq<char> {
    if y < 0 {
        seq!['-'] + padded_decimal((-y) as nat, 4)
    } else {
        padded_decimal(y as nat, 4)
    }
}

/// The UTC date of `ms`, written `YYYY-MM-DD`.
pub open spec fn event_date_of(ms: int) -> Seq<char> {
    let t = civil_date(ms / 86_400_000);
    year_text(t.0) + seq!['-'] + padded_decimal(t.1 as nat, 2) + seq!['-'] + padded_decimal(
        t.2 as nat,
        2,
    )
}

/// The UTC hour of `ms`.
pub open spec fn hour_of(ms: int) -> int {
    (ms % 86_400_000) / 3_600_000
}

/// The date and hour partition of a time.
pub struct TimePart {
    /// The UTC date, `YYYY-MM-DD`.
    pub event_date: String,
    /// The UTC hour, 0 to 23.
    pub hour: u32,
}

proof fn lemma_month_offsets(y: int, m1: int, m2: int)
    requires
        1 <= m1 < m2 <= 12,
    ensures
        days_before_month(y, m1) + days_in_month(y, m1) <= days_before_month(y, m2),
{
}

proof fn lemma_year_end(y: int, m: int)
    requires
        1 <= m <= 12,
    ensures
        days_before_month(y, m) + days_in_month(y, m) <= days_in_year(y),
        m < 12 ==> days_before_month(y, m + 1) == days_before_month(y, m) + days_in_month(y, m),
        m == 12 ==> days_before_month(y, m) + days_in_month(y, m) == days_in_year(y),
{
}

proof fn lemma_year_step(y: int)
    ensures
        days_before_year(y + 1) == days_before_year(y) + days_in_year(y),
{
}

proof fn lemma_years_increase(y1: int, y2: int)
    requires
        y1 < y2,
    ensures
        days_before_year(y1) + days_in_year(y1) <= days_before_year(y2),
    decreases y2 - y1,
{
    lemma_year_step(y1);
    lemma_year_step(y2 - 1);
    if y2 > y1 + 1 {
        lemma_years_increase(y1, y2 - 1);
    }
}

/// A day has one calendar date.
pub proof fn lemma_civil_date_unique(days: int, y1: int, m1: int, d1: int, y2: int, m2: int, d2: int)
    requires
        is_civil_date_of(days, y1, m1, d1),
        is_civil_date_of(days, y2, m2, d2),
    ensures
        y1 == y2 && m1 == m2 && d1 == d2,
{
    lemma_year_end(y1, m1);
    lemma_year_end(y2, m2);
    if y1 < y2 {
        lemma_years_increase(y1, y2);
    } else if y2 < y1 {
        lemma_years_increase(y2, y1);
    }
    assert(y1 == y2);
    if m1 < m2 {
        lemma_month_offsets(y1, m1, m2);
    } else if m2 < m1 {
        lemma_month_offsets(y1, m2, m1);
    }
}

proof fn lemma_leap_symmetric(y: int)
    ensures
        is_leap_year(y) == is_leap_year(-y),
{
}

fn leap(y: i64) -> (r: bool)
    requires
        y > i64::MIN,
    ensures
        r == is_leap_year(y as int),
{
    let a: i64 = if y < 0 {
        -y
    } else {
        y
    };
    proof {
        lemma_leap_symmetric(y as int);
    }
    (a % 4 == 0 && a % 100 != 0) || a % 400 == 0
}

fn year_length(y: i64) -> (r: i64)
    requires
        y > i64::MIN,
    ensures
        r == days_in_year(y as int),
{
    if leap(y) {
        366
    } else {
        365
    }
}

fn month_length(y: i64, m: i64) -> (r: i64)
    requires
        y > i64::MIN,
    ensures
        r == days_in_month(y as int, m as int),
{
    if m == 2 {
        if leap(y) {
            29
        } else {
            28
        }
    } else if m == 4 || m == 6 || m == 9 || m == 11 {
        30
    } else {
        31
    }
}

/// The calendar date `days` days after 1970-01-01 (before it when negative).
fn civil_from_days(days: i64) -> (r: (i64, i64, i64))
    requires
        i64::MIN / MS_PER_DAY <= days <= i64::MAX / MS_PER_DAY,
    ensures
        is_civil_date_of(days as int, r.0 as int, r.1 as int, r.2 as int),
        civil_date(days as int) == (r.0 as int, r.1 as int, r.2 as int),
        -200_000_000_000 <= r.0 <= 200_000_000_000,
{
    let mut y: i64 = 1970;
    let mut rem: i64 = days;
    while rem < 0
        invariant
            i64::MIN / MS_PER_DAY <= days <= i64::MAX / MS_PER_DAY,
            days <= rem <= (if days >= 0 {
                days as int
            } else {
                366
            }),
            y <= 1970,
            y - 1970 >= days - rem,
            days_before_year(y as int) + rem == days,
        decreases y - 1970 - days,
    {
        proof {
            lemma_year_step(y - 1);
        }
        y = y - 1;
        rem = rem + year_length(y);
    }
    while rem >= year_length(y)
        invariant
            i64::MIN / MS_PER_DAY <= days <= i64::MAX / MS_PER_DAY,
            0 <= rem,
            y >= 1970 + (if days < 0 {
                days - 366
            } else {
                0
            }),
            y + rem <= 1970 + (if days >= 0 {
                days as int
            } else {
                366
            }),
            days_before_year(y as int) + rem == days,
        decreases rem,
    {
        proof {
            lemma_year_step(y as int);
        }
        rem = rem - year_length(y);
        y = y + 1;
    }
    let mut m: i64 = 1;
    let ghost in_year = rem;
    while rem >= month_length(y, m)
        invariant
            -200_000_000_000 <= y <= 200_000_000_000,
            1 <= m <= 12,
            0 <= rem,
            in_year < days_in_year(y as int),
            days_before_month(y as int, m as int) + rem == in_year,
        decreases rem,
    {
        proof {
            lemma_year_end(y as int, m as int);
        }
        rem = rem - month_length(y, m);
        m = m + 1;
    }
    let d = rem + 1;
    proof {
        let w = (y as int, m as int, d as int);
        assert(is_civil_date_of(days as int, w.0, w.1, w.2));
        let t = civil_date(days as int);
        assert(is_civil_date_of(days as int, t.0, t.1, t.2));
        lemma_civil_date_unique(days as int, t.0, t.1, t.2, y as int, m as int, d as int);
    }
    (y, m, d)
}

/// `ms` split into whole days since 1970-01-01 and the milliseconds into the last day,
/// as `div_euclid` and `rem_euclid` split it.
fn split_days(ms: i64) -> (r: (i64, i64))
    ensures
        r.0 as int == ms as int / 86_400_000,
        r.1 as int == ms as int % 86_400_000,
        i64::MIN / MS_PER_DAY <= r.0 <= i64::MAX / MS_PER_DAY,
{
    if ms >= 0 {
        (ms / MS_PER_DAY, ms % MS_PER_DAY)
    } else {
        let a: i128 = -(ms as i128);
        let q: i128 = a / (MS_PER_DAY as i128);
        let rr: i128 = a % (MS_PER_DAY as i128);
        if rr == 0 {
            ((-q) as i64, 0)
        } else {
            ((-q - 1) as i64, (MS_PER_DAY as i128 - rr) as i64)
        }
    }
}

/// The UTC date and hour of a time, as the storage partitions name them.
pub fn time_part(ms: i64) -> (r: TimePart)
    ensures
        r.event_date@ == event_date_of(ms as int),
        r.hour as int == hour_of(ms as int),
{
    let (days, in_day) = split_days(ms);
    let hour = in_day / MS_PER_HOUR;
    let (y, m, d) = civil_from_days(days);
    let mut event_date = String::new();
    if y < 0 {
        event_date.push('-');
        push_padded(&mut event_date, (-y) as u64, 4);
    } else {
        push_padded(&mut event_date, y as u64, 4);
    }
    event_date.push('-');
    push_padded(&mut event_date, m as u64, 2);
    event_date.push('-');
    push_padded(&mut event_date, d as u64, 2);
    assert(event_date@ =~= event_date_of(ms as int));
    TimePart { event_date, hour: hour as u32 }
}

/// The date segment of a time in years 0 to 9999 is `YYYY-MM-DD`: four, two and two
/// digits that read back as the year, month and day of the calendar date of its UTC day.
pub proof fn lemma_event_date_text(ms: int, y: int, m: int, d: int)
    requires
        is_civil_date_of(ms / 86_400_000, y, m, d),
        0 <= y <= 9999,
    ensures
        ({
            let t = event_date_of(ms);
            &&& t.len() == 10
            &&& t[4] == '-'
            &&& t[7] == '-'
            &&& all_digits(t.subrange(0, 4))
            &&& digits_value(t.subrange(0, 4)) == y
            &&& all_digits(t.subrange(5, 7))
            &&& digits_value(t.subrange(5, 7)) == m
            &&& all_digits(t.subrange(8, 10))
            &&& digits_value(t.subrange(8, 10)) == d
        }),
{
    let days = ms / 86_400_000;
    let w = (y, m, d);
    assert(is_civil_date_of(days, w.0, w.1, w.2));
    let c = civil_date(days);
    assert(is_civil_date_of(days, c.0, c.1, c.2));
    lemma_civil_date_unique(days, c.0, c.1, c.2, y, m, d);
    assert(days_in_month(y, m) <= 31);
    lemma_decimal_value(y as nat);
    lemma_decimal_value(m as nat);
    lemma_decimal_value(d as nat);
    lemma_padded_value(y as nat, 4);
    lemma_padded_value(m as nat, 2);
    lemma_padded_value(d as nat, 2);
    let yt = padded_decimal(y as nat, 4);
    let mt = padded_decimal(m as nat, 2);
    let dt = padded_decimal(d as nat, 2);
    let t = event_date_of(ms);
    assert(t =~= yt + seq!['-'] + mt + seq!['-'] + dt);
    assert(t.subrange(0, 4) =~= yt);
    assert(t.subrange(5, 7) =~= mt);
    assert(t.subrange(8, 10) =~= dt);
}

} // verus!
