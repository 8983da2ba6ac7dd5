//! The error that every grammar rule reports.

use vstd::prelude::*;
use vstd::string::*;

verus! {

/// Calls `String::push_str`. Believed, not proved: the result reads as
/// `base` followed by `tail`.
#[verifier::external_body]
fn append(base: String, tail: &str) -> (r: String)
    ensures
        r@ == base@ + tail@,
{
    let mut r = base;
    r.push_str(tail);
    r
}

/// Calls `String::push`. Believed, not proved: the result reads as `base`
/// followed by `c`.
#[verifier::external_body]
fn append_char(base: String, c: char) -> (r: String)
    ensures
        r@ == base@.push(c),
{
    let mut r = base;
    r.push(c);
    r
}

/// Why a text is not a date-time. Each variant names the grammar element
/// that was being recognised; where a token was read and rejected, it is
/// carried as written.
#[derive(Debug, PartialEq, Eq)]
pub enum ParsingError {
    /// No number where the day of the month belongs.
    ExpectedDayOfMonth,
    /// No word where the month belongs.
    ExpectedMonth,
    /// A word where the month belongs that is no month name.
    InvalidMonth(String),
    /// No number where the year belongs.
    ExpectedYear,
    /// No number where the hour belongs.
    ExpectedHour,
    /// No number where the minute belongs.
    ExpectedMinute,
    /// A required character is not the next one; `found` is absent at the
    /// end of the input.
    ExpectedChar { expected: char, found: Option<char> },
    /// No word where the time zone belongs.
    ExpectedTimezone,
    /// A word where the time zone belongs that is neither a number nor a
    /// known abbreviation.
    InvalidTimezone(String),
    /// The fields were read but name no real date, time or zone.
    InvalidDateTime,
}

/// The mathematical value of a `ParsingError`: tokens are character
/// sequences.
pub ghost enum ParsingFailure {
    ExpectedDayOfMonth,
    ExpectedMonth,
    InvalidMonth(Seq<char>),
    ExpectedYear,
    ExpectedHour,
    ExpectedMinute,
    ExpectedChar { expected: char, found: Option<char> },
    ExpectedTimezone,
    InvalidTimezone(Seq<char>),
    InvalidDateTime,
}

impl ParsingFailure {
    /// The failure in words.
    pub open spec fn message(self) -> Seq<char> {
        match self {
            ParsingFailure::ExpectedDayOfMonth => "Expected day of month, a number."@,
            ParsingFailure::ExpectedMonth => "Expected month."@,
            ParsingFailure::InvalidMonth(t) => "Invalid month: "@ + t,
            ParsingFailure::ExpectedYear => "Expected year."@,
            ParsingFailure::ExpectedHour => "Failed to parse time: Expected hour, a number."@,
            ParsingFailure::ExpectedMinute => "Failed to parse time: Expected minute."@,
            ParsingFailure::ExpectedChar { expected, found: Some(c) } => ("Expected "@.push(
                expected,
            ) + ", got "@).push(c),
            ParsingFailure::ExpectedChar { expected, found: None } => "Expected "@.push(expected)
                + ", got end of input"@,
            ParsingFailure::ExpectedTimezone => "Expected timezone offset."@,
            ParsingFailure::InvalidTimezone(t) => "Invalid timezone: "@ + t,
            ParsingFailure::InvalidDateTime => "Invalid date or time."@,
        }
    }
}

impl ParsingError {
    /// The error in words: what was expected and, where a token was
    /// rejected, the token.
    pub fn message(&self) -> (r: String)
        ensures
            r@ == self@.message(),
    {
        match self {
            ParsingError::ExpectedDayOfMonth => "Expected day of month, a number.".to_owned(),
            ParsingError::ExpectedMonth => "Expected month.".to_owned(),
            ParsingError::InvalidMonth(t) => append("Invalid month: ".to_owned(), t.as_str()),
            ParsingError::ExpectedYear => "Expected year.".to_owned(),
            ParsingError::ExpectedHour => "Failed to parse time: Expected hour, a number.".to_owned(),
            ParsingError::ExpectedMinute => "Failed to parse time: Expected minute.".to_owned(),
            ParsingError::ExpectedChar { expected, found } => {
                let head = append_char("Expected ".to_owned(), *expected);
                match found {
                    Some(c) => append_char(append(head, ", got "), *c),
                    None => append(head, ", got end of input"),
                }
            },
            ParsingError::ExpectedTimezone => "Expected timezone offset.".to_owned(),
            ParsingError::InvalidTimezone(t) => append("Invalid timezone: ".to_owned(), t.as_str()),
            ParsingError::InvalidDateTime => "Invalid date or time.".to_owned(),
        }
    }
}

impl View for ParsingError {
    type V = ParsingFailure;

    open spec fn view(&self) -> ParsingFailure {
        match *self {
            ParsingError::ExpectedDayOfMonth => ParsingFailure::ExpectedDayOfMonth,
            ParsingError::ExpectedMonth => ParsingFailure::ExpectedMonth,
            ParsingError::InvalidMonth(t) => ParsingFailure::InvalidMonth(t@),
            ParsingError::ExpectedYear => ParsingFailure::ExpectedYear,
            ParsingError::ExpectedHour => ParsingFailure::ExpectedHour,
            ParsingError::ExpectedMinute => ParsingFailure::ExpectedMinute,
            ParsingError::ExpectedChar { expected, found } => ParsingFailure::ExpectedChar {
                expected,
                found,
            },
            ParsingError::ExpectedTimezone => ParsingFailure::ExpectedTimezone,
            ParsingError::InvalidTimezone(t) => ParsingFailure::InvalidTimezone(t@),
            ParsingError::InvalidDateTime => ParsingFailure::InvalidDateTime,
        }
    }
}

pub type ParsingResult<T> = Result<T, ParsingError>;

/// A result with its error taken by its view.
pub open spec fn outcome<T>(r: Result<T, ParsingError>) -> Result<T, ParsingFailure> {
    match r {
        Ok(v) => Ok(v),
        Err(e) => Err(e@),
    }
}

} // verus!
