//! Calendar dates of the proleptic Gregorian calendar, numbered by days.

use chrono::{Datelike, NaiveDate};
use vstd::prelude::*;

verus! {

/// The first year of the supported range.
pub const MIN_YEAR: i32 = -262143;

/// The last year of the supported range.
pub const MAX_YEAR: i32 = 262142;

/// Day number of January 1 of `MIN_YEAR`.
pub const MIN_DAYS: i32 = -95746129;

/// Day number of December 31 of `MAX_YEAR`.
pub const MAX_DAYS: i32 = 95745399;

/// Leap years of the Gregorian calendar.
pub open spec fn is_leap_year(y: int) -> bool {
    (y % 4 == 0 && y % 100 != 0) || y % 400 == 0
}

/// Number of days in year `y`.
pub open spec fn days_in_year(y: int) -> int {
    if is_leap_year(y) {
        366
    } else {
        365
    }
}

/// Number of days in month `m` (1 to 12) of year `y`.
pub open spec fn days_in_month(y: int, m: int) -> int {
    if m == 2 {
        if is_leap_year(y) {
            29
        } else {
            28
        }
    } else if m == 4 || m == 6 || m == 9 || m == 11 {
        30
    } else {
        31
    }
}

/// `(y, m, d)` names a real calendar date.
pub open spec fn is_valid_ymd(y: int, m: int, d: int) -> bool {
    1 <= m <= 12 && 1 <= d <= days_in_month(y, m)
}

/// Number of days of year `y` that come before the first of month `m`.
pub open spec fn days_before_month(y: int, m: int) -> int {
    let common: int = if m <= 1 {
        0
    } else if m == 2 {
        31
    } else if m == 3 {
        59
    } else if m == 4 {
        90
    } else if m == 5 {
        120
    } else if m == 6 {
        151
    } else if m == 7 {
        181
    } else if m == 8 {
        212
    } else if m == 9 {
        243
    } else if m == 10 {
        273
    } else if m == 11 {
        304
    } else {
        334
    };
    common + if m > 2 && is_leap_year(y) {
        1int
    } else {
        0int
    }
}

/// Number of days from January 1 of year 1 to January 1 of year `y`
/// (negative for earlier years).
pub open spec fn days_before_year(y: int) -> int
    decreases (if y >= 1 {
        y - 1
    } else {
        1 - y
    }),
{
    if y == 1 {
        0
    } else if y > 1 {
        days_before_year(y - 1) + days_in_year(y - 1)
    } else {
        days_before_year(y + 1) - days_in_year(y)
    }
}

/// The day number of a date: January 1 of year 1 is day 1, and each later
/// day counts one more.
pub open spec fn day_number(y: int, m: int, d: int) -> int {
    days_before_year(y) + days_before_month(y, m) + d
}

/// The day of the week of day number `n`, counted from Monday (0) to Sunday (6).
pub open spec fn weekday_of(n: int) -> int {
    (n + 6) % 7
}

/// The year, month and day of day number `n`.
pub open spec fn ymd_of(n: int) -> (int, int, int) {
    choose|t: (int, int, int)| is_valid_ymd(t.0, t.1, t.2) && day_number(t.0, t.1, t.2) == n
}

/// `(y1, m1, d1)` comes before `(y2, m2, d2)` in the order of years, then months, then days.
pub open spec fn ymd_before(y1: int, m1: int, d1: int, y2: int, m2: int, d2: int) -> bool {
    y1 < y2 || (y1 == y2 && (m1 < m2 || (m1 == m2 && d1 < d2)))
}

proof fn lemma_year_step(y: int)
    ensures
        days_before_year(y + 1) == days_before_year(y) + days_in_year(y),
    decreases (if y >= 1 {
        y - 1
    } else {
        1 - y
    }),
{
    reveal_with_fuel(days_before_year, 2);
}

proof fn lemma_years_increase(a: int, b: int)
    requires
        a < b,
    ensures
        days_before_year(a) + days_in_year(a) <= days_before_year(b),
    decreases b - a,
{
    lemma_year_step(a);
    if a + 1 < b {
        lemma_years_increase(a + 1, b);
    }
}

proof fn lemma_months_increase(y: int, m1: int, m2: int)
    requires
        1 <= m1 <= 12,
        m1 < m2 <= 13,
    ensures
        days_before_month(y, m1) + days_in_month(y, m1) <= if m2 == 13 {
            days_in_year(y)
        } else {
            days_before_month(y, m2)
        },
{
}

/// Day numbers follow the order of dates.
pub proof fn lemma_day_number_order(y1: int, m1: int, d1: int, y2: int, m2: int, d2: int)
    requires
        is_valid_ymd(y1, m1, d1),
        is_valid_ymd(y2, m2, d2),
        ymd_before(y1, m1, d1, y2, m2, d2),
    ensures
        day_number(y1, m1, d1) < day_number(y2, m2, d2),
{
    if y1 < y2 {
        lemma_months_increase(y1, m1, 13);
        lemma_years_increase(y1, y2);
    } else if m1 < m2 {
        lemma_months_increase(y1, m1, m2);
    }
}

/// A valid date is the one `ymd_of` gives for its day number.
pub proof fn lemma_ymd_of(y: int, m: int, d: int)
    requires
        is_valid_ymd(y, m, d),
    ensures
        ymd_of(day_number(y, m, d)) == (y, m, d),
{
    let n = day_number(y, m, d);
    let w = (y, m, d);
    assert(is_valid_ymd(w.0, w.1, w.2) && day_number(w.0, w.1, w.2) == n);
    let t = ymd_of(n);
    assert(is_valid_ymd(t.0, t.1, t.2) && day_number(t.0, t.1, t.2) == n);
    if ymd_before(t.0, t.1, t.2, y, m, d) {
        lemma_day_number_order(t.0, t.1, t.2, y, m, d);
    } else if ymd_before(y, m, d, t.0, t.1, t.2) {
        lemma_day_number_order(y, m, d, t.0, t.1, t.2);
    }
}

proof fn lemma_next_month(y: int, m: int)
    requires
        1 <= m < 12,
    ensures
        days_before_month(y, m + 1) == days_before_month(y, m) + days_in_month(y, m),
{
}

/// The day after a valid date is a valid date, numbered one more.
proof fn lemma_successor(y: int, m: int, d: int) -> (s: (int, int, int))
    requires
        is_valid_ymd(y, m, d),
    ensures
        is_valid_ymd(s.0, s.1, s.2),
        day_number(s.0, s.1, s.2) == day_number(y, m, d) + 1,
{
    if d < days_in_month(y, m) {
        (y, m, d + 1)
    } else if m < 12 {
        lemma_next_month(y, m);
        (y, m + 1, 1)
    } else {
        lemma_year_step(y);
        (y + 1, 1, 1)
    }
}

/// The day before a valid date is a valid date, numbered one less.
proof fn lemma_predecessor(y: int, m: int, d: int) -> (p: (int, int, int))
    requires
        is_valid_ymd(y, m, d),
    ensures
        is_valid_ymd(p.0, p.1, p.2),
        day_number(p.0, p.1, p.2) + 1 == day_number(y, m, d),
{
    if d > 1 {
        (y, m, d - 1)
    } else if m > 1 {
        lemma_next_month(y, m - 1);
        (y, m - 1, days_in_month(y, m - 1))
    } else {
        lemma_year_step(y - 1);
        (y - 1, 12, 31)
    }
}

/// Every integer is the day number of some valid date.
proof fn lemma_date_exists(n: int) -> (t: (int, int, int))
    ensures
        is_valid_ymd(t.0, t.1, t.2),
        day_number(t.0, t.1, t.2) == n,
    decreases (if n >= 1 {
        n - 1
    } else {
        1 - n
    }),
{
    if n == 1 {
        assert(days_before_year(1) == 0);
        (1, 1, 1)
    } else if n > 1 {
        let t = lemma_date_exists(n - 1);
        lemma_successor(t.0, t.1, t.2)
    } else {
        let t = lemma_date_exists(n + 1);
        lemma_predecessor(t.0, t.1, t.2)
    }
}

/// `ymd_of` gives a valid date with the given day number, for every integer.
pub proof fn lemma_ymd_of_valid(n: int)
    ensures
        is_valid_ymd(ymd_of(n).0, ymd_of(n).1, ymd_of(n).2),
        day_number(ymd_of(n).0, ymd_of(n).1, ymd_of(n).2) == n,
{
    let w = lemma_date_exists(n);
    assert(is_valid_ymd(w.0, w.1, w.2) && day_number(w.0, w.1, w.2) == n);
}

/// Relies on chrono's `NaiveDate::from_ymd_opt`, which gives a date exactly when
/// the month and day exist in that year and the year is within its range, and on
/// `Datelike::num_days_from_ce` of that date, which counts January 1 of year 1 as day 1.
#[verifier::external_body]
fn chrono_days_from_ymd(year: i32, month: u32, day: u32) -> (r: Option<i32>)
    ensures
        r is Some <==> (is_valid_ymd(year as int, month as int, day as int) && MIN_YEAR <= year
            <= MAX_YEAR),
        r matches Some(n) ==> n == day_number(year as int, month as int, day as int) && MIN_DAYS
            <= n <= MAX_DAYS,
{
    match NaiveDate::from_ymd_opt(year, month, day) {
        Some(date) => Some(date.num_days_from_ce()),
        None => None,
    }
}

/// Relies on chrono's `NaiveDate::from_num_days_from_ce_opt`, which gives a date
/// exactly for the day numbers of its range (January 1 of year 1 is day 1), and on
/// `Datelike::{year, month, day}` of that date.
#[verifier::external_body]
fn chrono_ymd_from_days(days: i32) -> (r: Option<(i32, u32, u32)>)
    ensures
        r is Some <==> MIN_DAYS <= days <= MAX_DAYS,
        r matches Some(t) ==> is_valid_ymd(t.0 as int, t.1 as int, t.2 as int) && day_number(
            t.0 as int,
            t.1 as int,
            t.2 as int,
        ) == days && MIN_YEAR <= t.0 <= MAX_YEAR,
{
    match NaiveDate::from_num_days_from_ce_opt(days) {
        Some(date) => Some((date.year(), date.month(), date.day())),
        None => None,
    }
}

/// A calendar date, held as its day number.
#[derive(Clone, Copy, Debug, PartialEq, Eq, Structural, PartialOrd, Ord, Hash)]
pub struct Date {
    days: i32,
}

impl Date {
    #[verifier::type_invariant]
    spec fn in_range(self) -> bool {
        MIN_DAYS <= self.days <= MAX_DAYS
    }

    /// The day number of this date.
    pub closed spec fn view(self) -> int {
        self.days as int
    }

    /// The date with the given year, month (1 to 12) and day of the month (from 1),
    /// or `None` where no such date exists or the year is out of range.
    pub fn from_ymd_opt(year: i32, month: u32, day: u32) -> (r: Option<Date>)
        ensures
            r is Some <==> (is_valid_ymd(year as int, month as int, day as int) && MIN_YEAR
                <= year <= MAX_YEAR),
            r matches Some(d) ==> d@ == day_number(year as int, month as int, day as int),
    {
        match chrono_days_from_ymd(year, month, day) {
            Some(days) => Some(Date { days }),
            None => None,
        }
    }

    /// The date of the given day number (January 1 of year 1 is day 1), or `None`
    /// out of range.
    pub fn from_num_days_from_ce_opt(days: i32) -> (r: Option<Date>)
        ensures
            r is Some <==> MIN_DAYS <= days <= MAX_DAYS,
            r matches Some(d) ==> d@ == days,
    {
        if MIN_DAYS <= days && days <= MAX_DAYS {
            Some(Date { days })
        } else {
            None
        }
    }

    /// The day number of this date (January 1 of year 1 is day 1).
    pub fn num_days_from_ce(&self) -> (r: i32)
        ensures
            r == self@,
            MIN_DAYS <= r <= MAX_DAYS,
    {
        proof {
            use_type_invariant(self);
        }
        self.days
    }

    /// Year, month and day of the month of this date.
    pub fn ymd(&self) -> (r: (i32, u32, u32))
        ensures
            is_valid_ymd(r.0 as int, r.1 as int, r.2 as int),
            day_number(r.0 as int, r.1 as int, r.2 as int) == self@,
            ymd_of(self@) == (r.0 as int, r.1 as int, r.2 as int),
            MIN_YEAR <= r.0 <= MAX_YEAR,
    {
        proof {
            use_type_invariant(self);
        }
        let r = chrono_ymd_from_days(self.days).unwrap();
        proof {
            lemma_ymd_of(r.0 as int, r.1 as int, r.2 as int);
        }
        r
    }

    /// The year of this date.
    pub fn year(&self) -> (r: i32)
        ensures
            r == ymd_of(self@).0,
    {
        self.ymd().0
    }

    /// The month of this date, from 1 to 12.
    pub fn month(&self) -> (r: u32)
        ensures
            r == ymd_of(self@).1,
    {
        self.ymd().1
    }

    /// The day of the month of this date, from 1.
    pub fn day(&self) -> (r: u32)
        ensures
            r == ymd_of(self@).2,
    {
        self.ymd().2
    }

    /// The day of the week, from Monday (0) to Sunday (6).
    pub fn weekday(&self) -> (r: u32)
        ensures
            r == weekday_of(self@),
            r < 7,
            MIN_DAYS <= self@ <= MAX_DAYS,
    {
        proof {
            use_type_invariant(self);
        }
        let shifted: u64 = (self.days as i64 + 700000006i64) as u64;
        let r = (shifted % 7) as u32;
        assert(r == weekday_of(self@)) by {
            assert(shifted == self@ + 6 + 7 * 100000000);
        }
        r
    }

    /// The date `n` days later, or `None` past the end of the range.
    pub fn checked_add_days(self, n: u64) -> (r: Option<Date>)
        ensures
            r is Some <==> self@ + n <= MAX_DAYS,
            r matches Some(d) ==> d@ == self@ + n,
    {
        proof {
            use_type_invariant(&self);
        }
        if n <= (MAX_DAYS as i64 - self.days as i64) as u64 {
            Some(Date { days: (self.days as i64 + n as i64) as i32 })
        } else {
            None
        }
    }

    /// The date `n` days earlier, or `None` before the start of the range.
    pub fn checked_sub_days(self, n: u64) -> (r: Option<Date>)
        ensures
            r is Some <==> self@ - n >= MIN_DAYS,
            r matches Some(d) ==> d@ == self@ - n,
    {
        proof {
            use_type_invariant(&self);
        }
        if n <= (self.days as i64 - MIN_DAYS as i64) as u64 {
            Some(Date { days: (self.days as i64 - n as i64) as i32 })
        } else {
            None
        }
    }
}

} // verus!
