//! What the command line hands the library: the raw inputs and the
//! field-order selector.

use vstd::prelude::*;

use crate::error::ParseError;
use crate::text::{str_eq, trim_str, trimmed};

verus! {

/// The raw inputs of one invocation: an optional date string, an optional
/// field order, and whether the ISO week date should be computed as well.
#[derive(Clone, Debug)]
pub struct Cli {
    /// The raw date string, if one was given.
    pub date: Option<String>,
    /// The field order to read the date string in; middle-endian if absent.
    pub format: Option<DateFormat>,
    /// Whether to also compute the ISO week date.
    pub week_date: bool,
}

/// The three supported orderings of the year, month, and day fields.
#[derive(Clone, Copy, Debug, PartialEq, Eq, Structural)]
pub enum DateFormat {
    /// Year first (e.g. ISO 8601): year-month-day.
    BigEndian,
    /// Day first: day-month-year.
    LittleEndian,
    /// Month first: month-day-year.
    MiddleEndian,
}

/// Which `DateFormat` a selector string denotes, if any.
pub open spec fn format_of(s: Seq<char>) -> Result<DateFormat, ParseError> {
    if s == "iso8601"@ || s == "YMD"@ {
        Ok(DateFormat::BigEndian)
    } else if s == "MYD"@ {
        Ok(DateFormat::MiddleEndian)
    } else if s == "DMY"@ {
        Ok(DateFormat::LittleEndian)
    } else if s.len() == 0 {
        Ok(DateFormat::MiddleEndian)
    } else {
        Err(ParseError::UnrecognizedFormat)
    }
}

/// Accepts a date argument only when it holds something besides whitespace.
pub fn nonempty_string_or_none(s: &str) -> (r: Result<String, ParseError>)
    ensures
        trimmed(s@).len() == 0 ==> r == Err::<String, ParseError>(ParseError::EmptyInput),
        trimmed(s@).len() > 0 ==> (r matches Ok(v) && v@ == s@),
{
    let t = trim_str(s);
    if t.is_empty() {
        Err(ParseError::EmptyInput)
    } else {
        Ok(s.to_owned())
    }
}

/// Resolves a format selector string into a `DateFormat`.
pub fn endian_format(s: &str) -> (r: Result<DateFormat, ParseError>)
    ensures
        r == format_of(s@),
{
    if str_eq(s, "iso8601") {
        Ok(DateFormat::BigEndian)
    } else if str_eq(s, "YMD") {
        Ok(DateFormat::BigEndian)
    } else if str_eq(s, "MYD") {
        Ok(DateFormat::MiddleEndian)
    } else if str_eq(s, "DMY") {
        Ok(DateFormat::LittleEndian)
    } else if s.is_empty() {
        Ok(DateFormat::MiddleEndian)
    } else {
        Err(ParseError::UnrecognizedFormat)
    }
}

} // verus!
