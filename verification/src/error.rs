//! The ways a date computation can be refused.

use vstd::prelude::*;

verus! {

/// Everything that can go wrong while turning raw input into a `Date`.
///
/// All variants are input-validation failures; the library has no internal
/// error class. `InvalidDate` deliberately does not say which field failed:
/// callers only learn that the date was incorrectly formatted.
#[derive(Clone, Copy, Debug, PartialEq, Eq, Structural)]
pub enum ParseError {
    /// The raw date string was absent, empty, or whitespace-only.
    EmptyInput,
    /// Splitting on `-` did not yield exactly three non-empty fields.
    MalformedInput,
    /// A year, month, or day field failed its numeric or range check.
    InvalidDate,
    /// The field-order selector string matched no known mode.
    UnrecognizedFormat,
}

impl ParseError {
    /// The single-line diagnostic a caller should show for this error.
    pub open spec fn message_spec(self) -> Seq<char> {
        match self {
            ParseError::EmptyInput => "Empty Date Field"@,
            ParseError::MalformedInput => "Date separators are not recognized"@,
            ParseError::InvalidDate => "Incorrectly formatted date"@,
            ParseError::UnrecognizedFormat => "Date format is not recognized or not given"@,
        }
    }

    /// Human-readable text for this error.
    pub fn message(&self) -> (s: &'static str)
        ensures
            s@ == self.message_spec(),
    {
        match self {
            ParseError::EmptyInput => "Empty Date Field",
            ParseError::MalformedInput => "Date separators are not recognized",
            ParseError::InvalidDate => "Incorrectly formatted date",
            ParseError::UnrecognizedFormat => "Date format is not recognized or not given",
        }
    }
}

} // verus!
