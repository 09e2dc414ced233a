//! Proleptic Gregorian calendar arithmetic: dates as plain year/month/day
//! values, day numbering, weekdays, week starts and ISO 8601 week labels.

use vstd::prelude::*;

verus! {

/// A calendar date in the proleptic Gregorian calendar.
#[derive(Clone, Copy, Debug, PartialEq, Eq, Structural)]
pub struct Date {
    pub year: i32,
    pub month: u8,
    pub day: u8,
}

pub open spec fn is_leap_year(y: int) -> bool {
    y % 4 == 0 && (y % 100 != 0 || y % 400 == 0)
}

pub open spec fn spec_days_in_month(y: int, m: int) -> int {
    if m == 2 {
        if is_leap_year(y) {
            29
        } else {
            28
        }
    } else if m == 4 || m == 6 || m == 9 || m == 11 {
        30
    } else {
        31
    }
}

/// Dates are restricted to the years with four decimal digits, so that the
/// `YYYY-MM-DD` key format is total on valid dates.
pub open spec fn date_valid(d: Date) -> bool {
    &&& 1 <= d.year <= 9999
    &&& 1 <= d.month <= 12
    &&& 1 <= d.day <= spec_days_in_month(d.year as int, d.month as int)
}

/// Days in the months strictly before month `m` of year `y`.
pub open spec fn days_before_month(y: int, m: int) -> int
    decreases m,
{
    if m <= 1 {
        0
    } else {
        days_before_month(y, m - 1) + spec_days_in_month(y, m - 1)
    }
}

/// One-based ordinal of the date within its year.
pub open spec fn day_of_year(d: Date) -> int {
    days_before_month(d.year as int, d.month as int) + d.day
}

/// Days in the years strictly before year `y` (counted from year 1).
pub open spec fn days_before_year(y: int) -> int {
    365 * (y - 1) + (y - 1) / 4 - (y - 1) / 100 + (y - 1) / 400
}

/// Day number of a date, with `0001-01-01` as day 0.
pub open spec fn day_number(d: Date) -> int {
    days_before_year(d.year as int) + day_of_year(d) - 1
}

/// Weekday index with Monday = 0 .. Sunday = 6. Day 0 (`0001-01-01`) is a
/// Monday in the proleptic Gregorian calendar.
pub open spec fn weekday_of(d: Date) -> int {
    day_number(d) % 7
}

/// Day number of the last representable date, `9999-12-31`.
pub const MAX_DAY_NUMBER: u64 = 3652058;

/// The date after `d` in the calendar (meaningful on valid dates).
pub open spec fn next_date(d: Date) -> Date {
    if d.day < spec_days_in_month(d.year as int, d.month as int) {
        Date { year: d.year, month: d.month, day: (d.day + 1) as u8 }
    } else if d.month < 12 {
        Date { year: d.year, month: (d.month + 1) as u8, day: 1 }
    } else {
        Date { year: (d.year + 1) as i32, month: 1, day: 1 }
    }
}

/// The date before `d` in the calendar (meaningful on valid dates).
pub open spec fn prev_date(d: Date) -> Date {
    if d.day > 1 {
        Date { year: d.year, month: d.month, day: (d.day - 1) as u8 }
    } else if d.month > 1 {
        Date {
            year: d.year,
            month: (d.month - 1) as u8,
            day: spec_days_in_month(d.year as int, d.month as int - 1) as u8,
        }
    } else {
        Date { year: (d.year - 1) as i32, month: 12, day: 31 }
    }
}

/// `d` shifted by `k` days (forward for positive `k`, backward for negative).
pub open spec fn shift_date(d: Date, k: int) -> Date
    decreases
            (if k >= 0 {
                k
            } else {
                -k
            }),
{
    if k > 0 {
        next_date(shift_date(d, k - 1))
    } else if k < 0 {
        prev_date(shift_date(d, k + 1))
    } else {
        d
    }
}

/// For positive `d`, the quotient `x / d` grows by one exactly at the
/// multiples of `d`.
proof fn lemma_div_step(x: int, d: int)
    requires
        d > 0,
    ensures
        x / d - (x - 1) / d == if x % d == 0 {
            1int
        } else {
            0int
        },
{
    let q = (x - 1) / d;
    let r = (x - 1) % d;
    vstd::arithmetic::div_mod::lemma_fundamental_div_mod(x - 1, d);
    if r + 1 < d {
        vstd::arithmetic::div_mod::lemma_fundamental_div_mod_converse(x, d, q, r + 1);
    } else {
        assert((q + 1) * d == q * d + d) by (nonlinear_arith);
        vstd::arithmetic::div_mod::lemma_fundamental_div_mod_converse(x, d, q + 1, 0);
    }
}

/// Growing a year adds exactly that year's length to `days_before_year`.
proof fn lemma_days_before_year_step(y: int)
    requires
        y >= 1,
    ensures
        days_before_year(y + 1) == days_before_year(y) + if is_leap_year(y) {
            366int
        } else {
            365int
        },
{
    lemma_div_step(y, 4);
    lemma_div_step(y, 100);
    lemma_div_step(y, 400);
    if y % 400 == 0 {
        assert(y % 100 == 0 && y % 4 == 0) by (nonlinear_arith)
            requires y % 400 == 0;
    }
    if y % 100 == 0 {
        assert(y % 4 == 0) by (nonlinear_arith)
            requires y % 100 == 0;
    }
}

proof fn lemma_days_before_year_monotone(y1: int, y2: int)
    requires
        1 <= y1 <= y2,
    ensures
        days_before_year(y1) <= days_before_year(y2),
    decreases y2 - y1,
{
    if y1 < y2 {
        lemma_days_before_year_monotone(y1, y2 - 1);
        lemma_days_before_year_step(y2 - 1);
    }
}

proof fn lemma_days_before_month_monotone(y: int, m1: int, m2: int)
    requires
        m1 <= m2,
    ensures
        days_before_month(y, m1) <= days_before_month(y, m2),
    decreases m2 - m1,
{
    if m1 < m2 {
        lemma_days_before_month_monotone(y, m1, m2 - 1);
    }
}

/// A year holds 365 days, or 366 in a leap year.
proof fn lemma_days_in_year(y: int)
    ensures
        days_before_month(y, 13) == if is_leap_year(y) {
            366int
        } else {
            365int
        },
{
    reveal_with_fuel(days_before_month, 14);
}

/// The ordinal of a valid date within its year lies in `1 ..= 365/366`.
proof fn lemma_day_of_year_bounds(d: Date)
    requires
        date_valid(d),
    ensures
        1 <= day_of_year(d),
        day_of_year(d) <= if is_leap_year(d.year as int) {
            366int
        } else {
            365int
        },
{
    let y = d.year as int;
    let m = d.month as int;
    lemma_days_before_month_monotone(y, 1, m);
    lemma_days_before_month_monotone(y, m + 1, 13);
    lemma_days_in_year(y);
}

/// Every valid date has a day number in `0 ..= MAX_DAY_NUMBER`.
pub proof fn lemma_day_number_bounds(d: Date)
    requires
        date_valid(d),
    ensures
        0 <= day_number(d) <= MAX_DAY_NUMBER,
        d.year <= 9998 ==> day_number(d) + 365 <= MAX_DAY_NUMBER,
{
    let y = d.year as int;
    lemma_day_of_year_bounds(d);
    assert(days_before_year(y) >= 0) by {
        vstd::arithmetic::div_mod::lemma_div_pos_is_pos(y - 1, 4);
        vstd::arithmetic::div_mod::lemma_div_pos_is_pos(y - 1, 400);
        vstd::arithmetic::div_mod::lemma_div_nonincreasing(y - 1, 100);
    }
    lemma_days_before_year_monotone(y, 9999);
    lemma_days_before_year_step(y);
    if y <= 9998 {
        lemma_days_before_year_monotone(y + 1, 9999);
    }
    assert(days_before_year(9999) == 3651694);
}

/// A date's day number is at least the day number of its year's first day.
pub proof fn lemma_day_number_year_lower(d: Date)
    requires
        date_valid(d),
    ensures
        day_number(d) >= days_before_year(d.year as int),
{
    lemma_day_of_year_bounds(d);
}

/// Distinct valid dates have distinct day numbers.
pub proof fn lemma_day_number_injective(d1: Date, d2: Date)
    requires
        date_valid(d1),
        date_valid(d2),
        day_number(d1) == day_number(d2),
    ensures
        d1 == d2,
{
    lemma_day_of_year_bounds(d1);
    lemma_day_of_year_bounds(d2);
    let y1 = d1.year as int;
    let y2 = d2.year as int;
    // the day number pins the year: it lies between the year's first and
    // last day numbers
    if y1 < y2 {
        lemma_days_before_year_step(y1);
        lemma_days_before_year_monotone(y1 + 1, y2);
        assert(false);
    }
    if y2 < y1 {
        lemma_days_before_year_step(y2);
        lemma_days_before_year_monotone(y2 + 1, y1);
        assert(false);
    }
    // within a year, the ordinal pins the month
    let m1 = d1.month as int;
    let m2 = d2.month as int;
    if m1 < m2 {
        lemma_days_before_month_monotone(y1, m1 + 1, m2);
        assert(false);
    }
    if m2 < m1 {
        lemma_days_before_month_monotone(y1, m2 + 1, m1);
        assert(false);
    }
}

/// On a valid date other than the last one, `next_date` yields the next
/// valid date: one day later in the day numbering.
pub proof fn lemma_next_date(d: Date)
    requires
        date_valid(d),
        day_number(d) < MAX_DAY_NUMBER,
    ensures
        date_valid(next_date(d)),
        day_number(next_date(d)) == day_number(d) + 1,
{
    let y = d.year as int;
    let m = d.month as int;
    lemma_day_of_year_bounds(d);
    lemma_day_number_bounds(d);
    if d.day < spec_days_in_month(y, m) {
        // same month: the ordinal within the year simply grows by one
    } else if d.month < 12 {
        assert(days_before_month(y, m + 1) == days_before_month(y, m) + spec_days_in_month(y, m));
    } else {
        // year rollover: the new date is day 1 of year y + 1
        lemma_days_in_year(y);
        lemma_days_before_year_step(y);
        if y == 9999 {
            // the last date has the largest day number, contradicting the bound
            assert(days_before_year(9999) == 3651694);
            assert(day_of_year(d) == 365) by {
                reveal_with_fuel(days_before_month, 14);
            }
            assert(false);
        }
    }
}

/// On a valid date other than the first one, `prev_date` yields the
/// previous valid date.
pub proof fn lemma_prev_date(d: Date)
    requires
        date_valid(d),
        day_number(d) >= 1,
    ensures
        date_valid(prev_date(d)),
        day_number(prev_date(d)) == day_number(d) - 1,
{
    let y = d.year as int;
    let m = d.month as int;
    lemma_day_of_year_bounds(d);
    if d.day > 1 {
        // same month
    } else if d.month > 1 {
        assert(days_before_month(y, m) == days_before_month(y, m - 1) + spec_days_in_month(
            y,
            m - 1,
        ));
    } else {
        // year rollover backward: d is January 1st of year y
        if y == 1 {
            assert(days_before_year(1) == 0);
            assert(day_number(d) == 0);
            assert(false);
        }
        lemma_days_in_year(y - 1);
        lemma_days_before_year_step(y - 1);
        assert(day_of_year(Date { year: (d.year - 1) as i32, month: 12, day: 31 })
            == days_before_month(y - 1, 12) + 31);
        assert(days_before_month(y - 1, 13) == days_before_month(y - 1, 12)
            + spec_days_in_month(y - 1, 12));
    }
}

pub fn days_in_month(year: i32, month: u8) -> (r: u32)
    requires
        1 <= year,
        1 <= month <= 12,
    ensures
        r == spec_days_in_month(year as int, month as int),
{
    if month == 2 {
        if year % 4 == 0 && (year % 100 != 0 || year % 400 == 0) {
            29
        } else {
            28
        }
    } else if month == 4 || month == 6 || month == 9 || month == 11 {
        30
    } else {
        31
    }
}

pub fn days_before_month_exec(year: i32, month: u8) -> (r: u32)
    requires
        1 <= year <= 9999,
        1 <= month <= 12,
    ensures
        r == days_before_month(year as int, month as int),
{
    let base: u32 = match month {
        1 => 0,
        2 => 31,
        3 => 59,
        4 => 90,
        5 => 120,
        6 => 151,
        7 => 181,
        8 => 212,
        9 => 243,
        10 => 273,
        11 => 304,
        _ => 334,
    };
    let leap: bool = year % 4 == 0 && (year % 100 != 0 || year % 400 == 0);
    proof {
        reveal_with_fuel(days_before_month, 13);
    }
    if month > 2 && leap {
        base + 1
    } else {
        base
    }
}

/// Computes the day number of a valid date (`0001-01-01` is day 0).
pub fn day_number_exec(d: Date) -> (n: u64)
    requires
        date_valid(d),
    ensures
        n == day_number(d),
        n <= MAX_DAY_NUMBER,
{
    proof {
        lemma_day_number_bounds(d);
    }
    let y: u64 = (d.year - 1) as u64;
    let before_year: u64 = 365 * y + y / 4 - y / 100 + y / 400;
    assert(before_year == days_before_year(d.year as int)) by {
        vstd::arithmetic::div_mod::lemma_div_pos_is_pos(y as int, 4);
        vstd::arithmetic::div_mod::lemma_div_nonincreasing(y as int, 100);
    }
    let in_year: u32 = days_before_month_exec(d.year, d.month) + d.day as u32;
    before_year + in_year as u64 - 1
}

/// Weekday of a valid date, Monday = 0 .. Sunday = 6.
pub fn weekday_index(d: Date) -> (w: u8)
    requires
        date_valid(d),
    ensures
        w == weekday_of(d),
        w < 7,
{
    let n = day_number_exec(d);
    (n % 7) as u8
}

/// Steps a valid date one day back.
pub fn prev_day(d: Date) -> (r: Date)
    requires
        date_valid(d),
        day_number(d) >= 1,
    ensures
        r == prev_date(d),
        date_valid(r),
        day_number(r) == day_number(d) - 1,
{
    proof {
        lemma_prev_date(d);
    }
    if d.day > 1 {
        Date { year: d.year, month: d.month, day: d.day - 1 }
    } else if d.month > 1 {
        Date { year: d.year, month: d.month - 1, day: days_in_month(d.year, d.month - 1) as u8 }
    } else {
        Date { year: d.year - 1, month: 12, day: 31 }
    }
}

/// Steps a valid date one day forward.
pub fn next_day(d: Date) -> (r: Date)
    requires
        date_valid(d),
        day_number(d) < MAX_DAY_NUMBER,
    ensures
        r == next_date(d),
        date_valid(r),
        day_number(r) == day_number(d) + 1,
{
    proof {
        lemma_next_date(d);
    }
    if (d.day as u32) < days_in_month(d.year, d.month) {
        Date { year: d.year, month: d.month, day: d.day + 1 }
    } else if d.month < 12 {
        Date { year: d.year, month: d.month + 1, day: 1 }
    } else {
        Date { year: d.year + 1, month: 1, day: 1 }
    }
}

/// Moves a valid date `n` days back.
pub fn minus_days(d: Date, n: u32) -> (r: Date)
    requires
        date_valid(d),
        day_number(d) - n >= 0,
    ensures
        r == shift_date(d, -(n as int)),
        date_valid(r),
        day_number(r) == day_number(d) - n,
{
    let mut cur = d;
    let mut i: u32 = 0;
    while i < n
        invariant
            i <= n,
            date_valid(cur),
            cur == shift_date(d, -(i as int)),
            day_number(cur) == day_number(d) - i,
            day_number(d) - n >= 0,
        decreases n - i,
    {
        cur = prev_day(cur);
        i = i + 1;
    }
    cur
}

/// Moves a valid date `n` days forward.
pub fn plus_days(d: Date, n: u32) -> (r: Date)
    requires
        date_valid(d),
        day_number(d) + n <= MAX_DAY_NUMBER,
    ensures
        r == shift_date(d, n as int),
        date_valid(r),
        day_number(r) == day_number(d) + n,
{
    let mut cur = d;
    let mut i: u32 = 0;
    while i < n
        invariant
            i <= n,
            date_valid(cur),
            cur == shift_date(d, i as int),
            day_number(cur) == day_number(d) + i,
            day_number(d) + n <= MAX_DAY_NUMBER,
        decreases n - i,
    {
        cur = next_day(cur);
        i = i + 1;
    }
    cur
}

/// The Monday that starts the week of `d`.
pub open spec fn week_start_date(d: Date) -> Date {
    shift_date(d, -weekday_of(d))
}

/// Computes the Monday of the week of `d`: a week starts on Monday.
pub fn week_start(d: Date) -> (r: Date)
    requires
        date_valid(d),
    ensures
        r == week_start_date(d),
        date_valid(r),
        day_number(r) == day_number(d) - weekday_of(d),
        weekday_of(r) == 0,
{
    let w = weekday_index(d);
    proof {
        lemma_day_number_bounds(d);
        vstd::arithmetic::div_mod::lemma_mod_pos_bound(day_number(d), 7);
        vstd::arithmetic::div_mod::lemma_fundamental_div_mod(day_number(d), 7);
        vstd::arithmetic::div_mod::lemma_div_pos_is_pos(day_number(d), 7);
        assert(day_number(d) - weekday_of(d) == 7 * (day_number(d) / 7));
    }
    let r = minus_days(d, w as u32);
    proof {
        let q = day_number(d) / 7;
        vstd::arithmetic::div_mod::lemma_fundamental_div_mod_converse(day_number(r), 7, q, 0);
    }
    r
}

/// The Thursday of the week of `d`. ISO 8601 attributes a week to the year
/// that holds its Thursday, and numbers the weeks of a year by their
/// Thursdays, oldest first.
pub open spec fn iso_thursday(d: Date) -> Date {
    shift_date(d, 3 - weekday_of(d))
}

/// The ISO 8601 week-numbering year of `d`, which near year boundaries can
/// differ from the calendar year.
pub open spec fn iso_week_year(d: Date) -> int {
    iso_thursday(d).year as int
}

/// The ISO 8601 week number of `d` within its week-numbering year.
pub open spec fn iso_week_number(d: Date) -> int {
    (day_of_year(iso_thursday(d)) - 1) / 7 + 1
}

/// Computes the one-based ordinal of a valid date within its year.
pub fn day_of_year_exec(d: Date) -> (r: u32)
    requires
        date_valid(d),
    ensures
        r == day_of_year(d),
        1 <= r <= 366,
{
    proof {
        lemma_day_of_year_bounds(d);
    }
    days_before_month_exec(d.year, d.month) + d.day as u32
}

/// Computes the ISO 8601 week-numbering year and week number of a valid
/// date. Years above 9998 are excluded so that the Thursday of the week
/// stays representable.
pub fn iso_week_parts(d: Date) -> (r: (i32, u8))
    requires
        date_valid(d),
        d.year <= 9998,
    ensures
        r.0 == iso_week_year(d),
        r.1 == iso_week_number(d),
        1 <= r.0 <= 9999,
        1 <= r.1 <= 53,
{
    let w = weekday_index(d);
    proof {
        lemma_day_number_bounds(d);
        vstd::arithmetic::div_mod::lemma_fundamental_div_mod(day_number(d), 7);
        vstd::arithmetic::div_mod::lemma_div_pos_is_pos(day_number(d), 7);
    }
    let thursday = if w <= 3 {
        plus_days(d, (3 - w) as u32)
    } else {
        minus_days(d, (w - 3) as u32)
    };
    let doy = day_of_year_exec(thursday);
    proof {
        lemma_day_of_year_bounds(thursday);
        vstd::arithmetic::div_mod::lemma_div_pos_is_pos(day_of_year(thursday) - 1, 7);
        vstd::arithmetic::div_mod::lemma_div_is_ordered(
            day_of_year(thursday) - 1,
            365,
            7,
        );
    }
    let week = ((doy - 1) / 7 + 1) as u8;
    (thursday.year, week)
}

impl Date {
    /// Builds a date from its parts, accepting exactly the valid dates.
    pub fn from_ymd(year: i32, month: u8, day: u8) -> (r: Option<Date>)
        ensures
            match r {
                Some(d) => d == (Date { year, month, day }) && date_valid(d),
                None => !date_valid(Date { year, month, day }),
            },
    {
        if 1 <= year && year <= 9999 && 1 <= month && month <= 12 && 1 <= day && day as u32
            <= days_in_month(year, month) {
            Some(Date { year, month, day })
        } else {
            None
        }
    }
}

} // verus!
