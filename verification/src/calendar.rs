//! The calendar values of `chrono` that a parsed date-time is made of.

use vstd::prelude::*;
use chrono::{FixedOffset, NaiveDate, NaiveDateTime};

verus! {

#[verifier::external_type_specification]
#[verifier::external_body]
pub struct ExFixedOffset(chrono::FixedOffset);

#[verifier::external_type_specification]
#[verifier::external_body]
pub struct ExNaiveDate(chrono::NaiveDate);

#[verifier::external_type_specification]
#[verifier::external_body]
pub struct ExNaiveDateTime(chrono::NaiveDateTime);

/// The zone that `chrono::FixedOffset::east_opt` builds for an offset in
/// seconds east of UTC, if it builds one.
pub uninterp spec fn fixed_offset_east(secs: int) -> Option<FixedOffset>;

/// The date that `chrono::NaiveDate::from_ymd_opt` builds from a year, a
/// month and a day, if that day exists in its calendar.
pub uninterp spec fn naive_date(year: int, month: int, day: int) -> Option<NaiveDate>;

/// The local date and time that `chrono::NaiveDate::and_hms_opt` builds from
/// a date and a time of day, if the time of day exists.
pub uninterp spec fn naive_datetime(
    date: NaiveDate,
    hour: int,
    minute: int,
    second: int,
) -> Option<NaiveDateTime>;

/// Calls `chrono::FixedOffset::east_opt`. Believed, not proved: the result is
/// the named zone, and there is one exactly for offsets strictly within a day
/// of UTC.
#[verifier::external_body]
pub(crate) fn east_opt(secs: i32) -> (zone: Option<FixedOffset>)
    ensures
        zone == fixed_offset_east(secs as int),
        zone is Some <==> -86_400 < secs < 86_400,
{
    FixedOffset::east_opt(secs)
}

/// Calls `chrono::NaiveDate::from_ymd_opt`. Believed, not proved: the result
/// is the named date. Which days exist is left to `chrono`.
#[verifier::external_body]
pub(crate) fn from_ymd_opt(year: i32, month: u32, day: u32) -> (date: Option<NaiveDate>)
    ensures
        date == naive_date(year as int, month as int, day as int),
{
    NaiveDate::from_ymd_opt(year, month, day)
}

/// Calls `chrono::NaiveDate::and_hms_opt`. Believed, not proved: the result is
/// the named local date and time, and there is one exactly when the hour is
/// below 24 and minute and second are below 60.
#[verifier::external_body]
pub(crate) fn and_hms_opt(
    date: &NaiveDate,
    hour: u32,
    minute: u32,
    second: u32,
) -> (moment: Option<NaiveDateTime>)
    ensures
        moment == naive_datetime(*date, hour as int, minute as int, second as int),
        moment is Some <==> (hour < 24 && minute < 60 && second < 60),
{
    date.and_hms_opt(hour, minute, second)
}

} // verus!
