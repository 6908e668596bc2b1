use doom::date::Date;
use doom::doomsday::compute_day_of_week;

#[test]
fn succesfully_computes_day_of_week() {
    let test_date = Date {
        year: 1997,
        month: 8,
        day: 14,
    };
    let result = compute_day_of_week(&test_date);
    let thursday: i64 = 4;
    assert_eq!(result, thursday);
}

#[test]
fn works_on_leap_year() {
    let test_date = Date {
        year: 2012,
        month: 2,
        day: 29,
    };
    let result = compute_day_of_week(&test_date);
    let wednesday: i64 = 3;
    assert_eq!(result, wednesday);
}

#[test]
fn works_on_non_leap_year_century() {
    let fake_date = Date {
        year: 1900,
        month: 2,
        day: 29,
    };
    let test_date = Date {
        year: 1900,
        month: 3,
        day: 1,
    };
    assert_eq!(compute_day_of_week(&test_date), compute_day_of_week(&fake_date));
}

#[test]
fn computes_known_weekday_after_century_leap_gap() {
    // March 1st, 1900 was a Thursday.
    let test_date = Date {
        year: 1900,
        month: 3,
        day: 1,
    };
    let thursday: i64 = 4;
    assert_eq!(compute_day_of_week(&test_date), thursday);
}

#[test]
fn repeats_the_same_result() {
    let test_date = Date {
        year: 1997,
        month: 8,
        day: 14,
    };
    assert_eq!(compute_day_of_week(&test_date), compute_day_of_week(&test_date));
}
