//! Day-of-week and ISO week-date computation for Gregorian dates from 1752 on.
//!
//! A date string in one of three field orders is parsed and validated into a
//! [`date::Date`]; the Doomsday method then gives its weekday index, and from
//! that the ISO 8601 week date can be derived.

pub mod cli;
pub mod date;
pub mod doomsday;
pub mod error;
pub mod iso_week_date;
pub mod text;
