use doom::cli::{Cli, DateFormat};
use doom::date::{
    big_endian_to_date_struct, build_date_struct, little_endian_to_date_struct,
    middle_endian_to_date_struct, parse_date, Date,
};
use doom::error::ParseError;

#[test]
fn builds_the_same_struct() {
    let big_endian = String::from("1970-2-1");
    let middle_endian = String::from("2-1-1970");
    let little_endian = String::from("1-2-1970");

    let big_date = big_endian_to_date_struct(&big_endian);
    let middle_date = middle_endian_to_date_struct(&middle_endian);
    let little_date = little_endian_to_date_struct(&little_endian);

    let expected = Ok(Date {
        year: 1970,
        month: 2,
        day: 1,
    });

    assert_eq!(big_date, expected);
    assert_eq!(middle_date, expected);
    assert_eq!(little_date, expected);
}

#[test]
fn does_not_allow_weird_numbers() {
    let test_date = String::from("13-32-1750");
    let expected = Err(ParseError::InvalidDate);

    let result = middle_endian_to_date_struct(&test_date);
    assert_eq!(result, expected);
    assert_eq!(ParseError::InvalidDate.message(), "Incorrectly formatted date");
}

#[test]
fn fails_for_letters() {
    let test_date = String::from("09-22-201a");
    let expected = Err(ParseError::InvalidDate);

    let result = middle_endian_to_date_struct(&test_date);
    assert_eq!(result, expected);
}

#[test]
fn works_for_date_with_errant_space() {
    let test_date = String::from("09-22-2017 ");
    let expected = Ok(Date {
        year: 2017,
        month: 9,
        day: 22,
    });

    let result = middle_endian_to_date_struct(&test_date);
    assert_eq!(result, expected);
}

#[test]
fn rejects_each_out_of_range_field() {
    let low_year = String::from("1751-6-15");
    let zero_month = String::from("1970-0-1");
    let high_month = String::from("1970-13-1");
    let zero_day = String::from("1970-1-0");
    let high_day = String::from("1970-1-32");

    assert_eq!(big_endian_to_date_struct(&low_year), Err(ParseError::InvalidDate));
    assert_eq!(big_endian_to_date_struct(&zero_month), Err(ParseError::InvalidDate));
    assert_eq!(big_endian_to_date_struct(&high_month), Err(ParseError::InvalidDate));
    assert_eq!(big_endian_to_date_struct(&zero_day), Err(ParseError::InvalidDate));
    assert_eq!(big_endian_to_date_struct(&high_day), Err(ParseError::InvalidDate));
}

#[test]
fn rejects_overlong_year() {
    let huge = String::from("99999999999999999999-1-1");
    assert_eq!(big_endian_to_date_struct(&huge), Err(ParseError::InvalidDate));
}

#[test]
fn rejects_empty_or_whitespace_input() {
    let empty = String::from("");
    let blank = String::from(" \t ");
    assert_eq!(middle_endian_to_date_struct(&empty), Err(ParseError::EmptyInput));
    assert_eq!(middle_endian_to_date_struct(&blank), Err(ParseError::EmptyInput));
}

#[test]
fn rejects_wrong_field_count() {
    let two_fields = String::from("09-22");
    let four_fields = String::from("09-22-2017-5");
    let empty_field = String::from("09--2017");

    assert_eq!(middle_endian_to_date_struct(&two_fields), Err(ParseError::MalformedInput));
    assert_eq!(middle_endian_to_date_struct(&four_fields), Err(ParseError::MalformedInput));
    assert_eq!(middle_endian_to_date_struct(&empty_field), Err(ParseError::MalformedInput));
    assert_eq!(
        ParseError::MalformedInput.message(),
        "Date separators are not recognized"
    );
}

#[test]
fn accepts_plus_signed_fields() {
    let signed = String::from("+1970-+2-+1");
    let expected = Ok(Date {
        year: 1970,
        month: 2,
        day: 1,
    });
    assert_eq!(big_endian_to_date_struct(&signed), expected);
}

#[test]
fn accepts_surrounding_whitespace() {
    let padded = String::from(" \t1970-2-1\n ");
    let expected = Ok(Date {
        year: 1970,
        month: 2,
        day: 1,
    });
    assert_eq!(big_endian_to_date_struct(&padded), expected);
}

#[test]
fn build_date_struct_checks_each_field() {
    let good = build_date_struct("2017", "9", "22");
    assert_eq!(
        good,
        Ok(Date {
            year: 2017,
            month: 9,
            day: 22,
        })
    );
    assert_eq!(build_date_struct("2017", "", "22"), Err(ParseError::InvalidDate));
}

#[test]
fn parse_date_uses_requested_order() {
    let big = Cli {
        date: Some(String::from("1970-2-1")),
        format: Some(DateFormat::BigEndian),
        week_date: false,
    };
    let little = Cli {
        date: Some(String::from("1-2-1970")),
        format: Some(DateFormat::LittleEndian),
        week_date: false,
    };
    let expected = Ok(Date {
        year: 1970,
        month: 2,
        day: 1,
    });
    assert_eq!(parse_date(&big), expected);
    assert_eq!(parse_date(&little), expected);
}

#[test]
fn parse_date_defaults_to_middle_endian() {
    let cli = Cli {
        date: Some(String::from("2-1-1970")),
        format: None,
        week_date: false,
    };
    let expected = Ok(Date {
        year: 1970,
        month: 2,
        day: 1,
    });
    assert_eq!(parse_date(&cli), expected);
}

#[test]
fn parse_date_without_date_is_empty_input() {
    let cli = Cli {
        date: None,
        format: None,
        week_date: false,
    };
    assert_eq!(parse_date(&cli), Err(ParseError::EmptyInput));
}
