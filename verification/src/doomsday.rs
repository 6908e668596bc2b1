//! The Doomsday method: the weekday of a Gregorian date from its year's
//! century anchor and a fixed per-month offset.

use vstd::prelude::*;

use crate::date::Date;

verus! {

/// The Doomsday-style anchor sum of a year, `y + y/4 - y/100 + y/400`,
/// with division truncating toward zero (the operands here are never
/// negative, so Euclidean and truncating division agree).
pub open spec fn century_anchor(y: int) -> int {
    y + y / 4 - y / 100 + y / 400
}

/// The fixed month offset table `[0,3,2,5,0,3,5,1,4,6,2,4]`, indexed by
/// month.
pub open spec fn month_anchor(m: int) -> int {
    if m == 1 {
        0
    } else if m == 2 {
        3
    } else if m == 3 {
        2
    } else if m == 4 {
        5
    } else if m == 5 {
        0
    } else if m == 6 {
        3
    } else if m == 7 {
        5
    } else if m == 8 {
        1
    } else if m == 9 {
        4
    } else if m == 10 {
        6
    } else if m == 11 {
        2
    } else {
        4
    }
}

/// The weekday index of a date, 0 = Sunday through 6 = Saturday. January
/// and February count toward the previous doomsday year.
pub open spec fn day_of_week(d: Date) -> int {
    let y = if d.month < 3 {
        d.year - 1
    } else {
        d.year as int
    };
    (century_anchor(y) + month_anchor(d.month as int) + d.day) % 7
}

/// Computes the weekday index of a validated date.
pub fn compute_day_of_week(date: &Date) -> (r: i64)
    requires
        date.wf(),
    ensures
        r == day_of_week(*date),
        0 <= r <= 6,
{
    let month_offset: u64 = if date.month == 1 {
        0
    } else if date.month == 2 {
        3
    } else if date.month == 3 {
        2
    } else if date.month == 4 {
        5
    } else if date.month == 5 {
        0
    } else if date.month == 6 {
        3
    } else if date.month == 7 {
        5
    } else if date.month == 8 {
        1
    } else if date.month == 9 {
        4
    } else if date.month == 10 {
        6
    } else if date.month == 11 {
        2
    } else {
        4
    };
    let year: i64 = if date.month < 3 {
        date.year - 1
    } else {
        date.year
    };
    let y: u64 = year as u64;
    let anchor: u64 = y + y / 4 - y / 100 + y / 400;
    let total: u64 = anchor + month_offset + (date.day as u64);
    (total % 7) as i64
}

/// The weekday of a date is a pure function of the date: any two results
/// that each meet `compute_day_of_week`'s contract for the same `Date` are
/// equal, so computing it twice always yields the same value.
pub proof fn lemma_day_of_week_deterministic(d: Date, r1: int, r2: int)
    requires
        r1 == day_of_week(d),
        r2 == day_of_week(d),
    ensures
        r1 == r2,
{
}

} // verus!
