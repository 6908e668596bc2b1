use doom::date::Date;
use doom::iso_week_date::{
    cassidy_func, is_leap_year, is_short, ordinal_date, week_number, weeks, WeekDate,
};

#[test]
fn find_short_years() {
    let short_year: i64 = 2003;
    let long_year: i64 = 2004;

    assert!(is_short(short_year));
    assert!(!is_short(long_year));
}

#[test]
fn determines_week_date() {
    let date = Date {
        year: 2016,
        month: 11,
        day: 5,
    };
    let saturday: i64 = 6;
    let expected = WeekDate {
        year: 2016,
        week_of_year: 44,
        day: saturday,
    };
    let result = week_number(&date, &saturday);
    assert_eq!(result, expected);
}

#[test]
fn determines_week_date_for_next_year() {
    let date = Date {
        year: 1980,
        month: 12,
        day: 29,
    };
    let monday: i64 = 1;
    let expected = WeekDate {
        year: 1981,
        week_of_year: 1,
        day: monday,
    };
    let result = week_number(&date, &monday);
    assert_eq!(result, expected);
}

#[test]
fn determines_week_date_for_prev_year() {
    let date = Date {
        year: 1977,
        month: 1,
        day: 2,
    };
    let sunday: i64 = 0;
    let expected = WeekDate {
        year: 1976,
        week_of_year: 53,
        day: 7,
    };
    let result = week_number(&date, &sunday);
    assert_eq!(result, expected);
}

#[test]
fn determines_ordinal_date() {
    let date = Date {
        year: 2016,
        month: 11,
        day: 5,
    };
    let result = ordinal_date(date);
    assert_eq!(result, 310);
}

#[test]
fn determines_leap_year_correctly() {
    let leap_year = Date {
        year: 2020,
        month: 2,
        day: 22,
    };

    let leap_century = Date {
        year: 2000,
        month: 5,
        day: 29,
    };

    let non_leap_century = Date {
        year: 1900,
        month: 9,
        day: 1,
    };

    let result1 = is_leap_year(leap_year);
    assert!(result1);

    let result2 = is_leap_year(leap_century);
    assert!(result2);

    let result3 = is_leap_year(non_leap_century);
    assert!(!result3);
}

#[test]
fn counts_weeks_per_year() {
    assert_eq!(weeks(2003), 52);
    assert_eq!(weeks(2004), 53);
}

#[test]
fn computes_century_anchor_sum() {
    // 1997 + 499 - 19 + 4
    assert_eq!(cassidy_func(1997), 2481);
}

#[test]
fn ordinal_counts_leap_day_only_after_february() {
    let past_leap_day = Date {
        year: 2016,
        month: 3,
        day: 1,
    };
    let common_year = Date {
        year: 2017,
        month: 3,
        day: 1,
    };
    let before_leap_day = Date {
        year: 2016,
        month: 2,
        day: 1,
    };
    assert_eq!(ordinal_date(past_leap_day), 61);
    assert_eq!(ordinal_date(common_year), 60);
    assert_eq!(ordinal_date(before_leap_day), 32);
}
