//! Parsing of Internet message date-time values.
//!
//! `rfc5322` holds the backtracking scanner, `rfc822` the date-time grammar
//! built on it, `text` the character classes and number readers both use,
//! `calendar` the bridge to `chrono`, and `results` the error type.

pub mod calendar;
pub mod results;
pub mod rfc5322;
pub mod rfc822;
pub mod text;
