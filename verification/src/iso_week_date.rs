//! The ISO 8601 week date: a date expressed as a year, a week number 1 to
//! 53, and a weekday 1 = Monday through 7 = Sunday. Week 1 is the week that
//! holds the year's first Thursday, so dates near a year boundary can fall
//! in the last week of the previous ISO year or in week 1 of the next.

use vstd::prelude::*;

use crate::date::{Date, MAX_YEAR};
use crate::doomsday::century_anchor;

verus! {

/// An ISO week date. Its `year` may differ from the calendar year of the
/// date it was derived from at year boundaries.
#[derive(Clone, Copy, Debug, PartialEq, Eq, Structural)]
pub struct WeekDate {
    /// The ISO year.
    pub year: i64,
    /// The week of the ISO year, 1 to 53.
    pub week_of_year: i64,
    /// The ISO weekday, 1 = Monday through 7 = Sunday.
    pub day: i64,
}

impl WeekDate {
    /// The ranges every computed `WeekDate` satisfies.
    pub open spec fn wf(self) -> bool {
        &&& 1 <= self.week_of_year <= 53
        &&& 1 <= self.day <= 7
    }
}

/// The Gregorian leap-year rule: divisible by 4 and not by 100, or
/// divisible by 400.
pub open spec fn is_leap(y: int) -> bool {
    (y % 4 == 0 && y % 100 != 0) || y % 400 == 0
}

/// Days in the months before month `m` of a common year: the fixed table
/// `[0,31,59,90,120,151,181,212,243,273,304,334]` indexed by month.
pub open spec fn month_days_before(m: int) -> int {
    if m == 1 {
        0
    } else if m == 2 {
        31
    } else if m == 3 {
        59
    } else if m == 4 {
        90
    } else if m == 5 {
        120
    } else if m == 6 {
        151
    } else if m == 7 {
        181
    } else if m == 8 {
        212
    } else if m == 9 {
        243
    } else if m == 10 {
        273
    } else if m == 11 {
        304
    } else {
        334
    }
}

/// The 1-based day of the year of a date, leap day included.
pub open spec fn ordinal(d: Date) -> int {
    (if is_leap(d.year as int) && d.month > 2 {
        1int
    } else {
        0int
    }) + month_days_before(d.month as int) + d.day
}

/// A short ISO year has 52 weeks; a long one fits a 53rd. The test is
/// phrased over the same century-anchor sum the Doomsday method uses: a year
/// is long exactly when its anchor is 4 mod 7 or the previous year's anchor
/// is 3 mod 7.
pub open spec fn short_year(y: int) -> bool {
    !(century_anchor(y) % 7 == 4) && !(century_anchor(y - 1) % 7 == 3)
}

/// How many ISO weeks a year has: 52 if short, else 53.
pub open spec fn weeks_in(y: int) -> int {
    if short_year(y) {
        52
    } else {
        53
    }
}

/// The ISO week date of `d`, whose weekday index (0 = Sunday) is `dow`.
pub open spec fn week_date(d: Date, dow: int) -> WeekDate {
    let wd = if dow == 0 {
        7int
    } else {
        dow
    };
    let wn = (10 + ordinal(d) - wd) / 7;
    if wn < 1 {
        WeekDate {
            year: (d.year - 1) as i64,
            week_of_year: weeks_in(d.year - 1) as i64,
            day: wd as i64,
        }
    } else if wn > weeks_in(d.year as int) {
        WeekDate { year: (d.year + 1) as i64, week_of_year: 1, day: wd as i64 }
    } else {
        WeekDate { year: d.year, week_of_year: wn as i64, day: wd as i64 }
    }
}

/// The century-anchor sum `year + year/4 - year/100 + year/400`.
pub fn cassidy_func(year: i64) -> (r: i64)
    requires
        0 <= year,
        year <= MAX_YEAR + 1,
    ensures
        r == century_anchor(year as int),
        r >= 0,
{
    let y: u64 = year as u64;
    (y + y / 4 - y / 100 + y / 400) as i64
}

/// Whether a year is leap under the Gregorian rule.
pub fn is_leap_year(date: Date) -> (r: bool)
    requires
        date.wf(),
    ensures
        r == is_leap(date.year as int),
{
    let y: u64 = date.year as u64;
    (y % 4 == 0 && y % 100 != 0) || y % 400 == 0
}

/// The day of the year of a validated date, e.g. 310 for November 5th of
/// 2016.
pub fn ordinal_date(date: Date) -> (r: i64)
    requires
        date.wf(),
    ensures
        r == ordinal(date),
        1 <= r <= 366,
{
    let leap_year_offset: i64 = if is_leap_year(date) && date.month > 2 {
        1
    } else {
        0
    };
    let month_offset: i64 = if date.month == 1 {
        0
    } else if date.month == 2 {
        31
    } else if date.month == 3 {
        59
    } else if date.month == 4 {
        90
    } else if date.month == 5 {
        120
    } else if date.month == 6 {
        151
    } else if date.month == 7 {
        181
    } else if date.month == 8 {
        212
    } else if date.month == 9 {
        243
    } else if date.month == 10 {
        273
    } else if date.month == 11 {
        304
    } else {
        334
    };
    leap_year_offset + month_offset + date.day
}

/// Whether a year has only 52 ISO weeks.
pub fn is_short(year: i64) -> (r: bool)
    requires
        1 <= year,
        year <= MAX_YEAR + 1,
    ensures
        r == short_year(year as int),
{
    let current_year: bool = (cassidy_func(year) as u64) % 7 == 4;
    let prev_year: bool = (cassidy_func(year - 1) as u64) % 7 == 3;
    !current_year && !prev_year
}

/// How many ISO weeks a year has.
pub fn weeks(year: i64) -> (r: i64)
    requires
        1 <= year,
        year <= MAX_YEAR + 1,
    ensures
        r == weeks_in(year as int),
{
    if is_short(year) {
        52
    } else {
        53
    }
}

/// The ISO week date of a validated date whose weekday index (0 = Sunday)
/// is `day_of_week`, resolving dates near a year boundary into the previous
/// or next ISO year as needed.
pub fn week_number(date: &Date, day_of_week: &i64) -> (r: WeekDate)
    requires
        date.wf(),
        0 <= *day_of_week <= 6,
    ensures
        r == week_date(*date, *day_of_week as int),
        r.wf(),
{
    let mut year: i64 = date.year;
    let ordinal_day: i64 = ordinal_date(*date);
    let weekday_number: i64 = if *day_of_week == 0 {
        7
    } else {
        *day_of_week
    };
    let week_num: i64 = (((10 + ordinal_day - weekday_number) as u64) / 7) as i64;
    let week_of_year: i64 = if week_num < 1 {
        year = year - 1;
        weeks(year)
    } else if week_num > weeks(year) {
        year = year + 1;
        1
    } else {
        week_num
    };
    WeekDate { year, week_of_year, day: weekday_number }
}

} // verus!
