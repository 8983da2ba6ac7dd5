//! The date-time grammar of Internet messages, with the obsolete forms that
//! old mail still carries.

use vstd::prelude::*;
use vstd::string::*;
use chrono::{FixedOffset, NaiveDateTime};
use crate::calendar::{
    and_hms_opt,
    east_opt,
    fixed_offset_east,
    from_ymd_opt,
    naive_date,
    naive_datetime,
};
use crate::results::{outcome, ParsingError, ParsingFailure, ParsingResult};
use crate::rfc5322::{
    lemma_lws_end_skip,
    lemma_run_end,
    lemma_run_end_skip,
    lemma_word_at_skip,
    lws_end,
    run_end,
    word_at,
    Rfc5322Parser,
};
use crate::text::{
    is_whitespace,
    matches_name,
    parse_signed,
    parse_unsigned,
    read_signed,
    read_unsigned,
    reads_as,
    same_text,
    whitespace,
    without_plus,
};

verus! {

/// The fields of a date-time as the text gives them: the year already made
/// absolute, the offset in seconds east of UTC.
#[derive(Debug, Clone, Copy, PartialEq, Eq)]
pub struct DateTimeFields {
    pub year: u32,
    pub month: u32,
    pub day: u32,
    pub hour: u32,
    pub minute: u32,
    pub second: u32,
    pub offset: i64,
}

/// A point in time with a fixed offset: the fields that were read, and the
/// local date and time and the zone that `chrono` made of them.
#[derive(Debug, PartialEq, Eq)]
pub struct ZonedDateTime {
    pub fields: DateTimeFields,
    pub local: NaiveDateTime,
    pub zone: FixedOffset,
}

/// A word that, with its letters lowered, is one of the seven day names.
pub open spec fn day_name(w: Seq<char>) -> bool {
    ||| reads_as(w, "mon"@)
    ||| reads_as(w, "tue"@)
    ||| reads_as(w, "wed"@)
    ||| reads_as(w, "thu"@)
    ||| reads_as(w, "fri"@)
    ||| reads_as(w, "sat"@)
    ||| reads_as(w, "sun"@)
}

/// The number of the month that a word names, counted from one.
pub open spec fn month_number(w: Seq<char>) -> Option<u32> {
    if reads_as(w, "jan"@) {
        Some(1u32)
    } else if reads_as(w, "feb"@) {
        Some(2u32)
    } else if reads_as(w, "mar"@) {
        Some(3u32)
    } else if reads_as(w, "apr"@) {
        Some(4u32)
    } else if reads_as(w, "may"@) {
        Some(5u32)
    } else if reads_as(w, "jun"@) {
        Some(6u32)
    } else if reads_as(w, "jul"@) {
        Some(7u32)
    } else if reads_as(w, "aug"@) {
        Some(8u32)
    } else if reads_as(w, "sep"@) {
        Some(9u32)
    } else if reads_as(w, "oct"@) {
        Some(10u32)
    } else if reads_as(w, "nov"@) {
        Some(11u32)
    } else if reads_as(w, "dec"@) {
        Some(12u32)
    } else {
        None
    }
}

/// The offset of a zone abbreviation, in seconds east of UTC. Names are
/// matched as written, upper case only.
pub open spec fn zone_offset(name: Seq<char>) -> Option<int> {
    if name == "Z"@ || name == "UT"@ || name == "GMT"@ {
        Some(0int)
    } else if name == "PST"@ {
        Some(-28800int)
    } else if name == "PDT"@ || name == "MST"@ {
        Some(-25200int)
    } else if name == "MDT"@ || name == "CST"@ {
        Some(-21600int)
    } else if name == "CDT"@ || name == "EST"@ {
        Some(-18000int)
    } else if name == "EDT"@ {
        Some(-14400int)
    } else {
        None
    }
}

/// The seconds of an offset written as hours and minutes in one number: the
/// last two digits are minutes, those before them hours, and the sign
/// applies to both.
pub open spec fn offset_seconds(v: int) -> int {
    let m = if v < 0 {
        -v
    } else {
        v
    };
    let seconds = (m / 100) * 3600 + (m % 100) * 60;
    if v < 0 {
        -seconds
    } else {
        seconds
    }
}

/// The absolute year of a year as written: up to 49 it lies in the 2000s,
/// from 50 to 999 it counts from 1900, from 1000 on it stands as written.
pub open spec fn absolute_year(y: u32) -> u32 {
    if y <= 49 {
        (y + 2000) as u32
    } else if y <= 999 {
        (y + 1900) as u32
    } else {
        y
    }
}

/// A comma or whitespace: what may follow a day name.
pub open spec fn separator(c: char) -> bool {
    c == ',' || whitespace(c)
}

pub open spec fn separators() -> spec_fn(char) -> bool {
    |c: char| separator(c)
}

/// The number at `pos`, if the word there is one, and the cursor after the
/// word.
pub open spec fn number_at(s: Seq<char>, pos: int) -> (Option<u32>, int) {
    let w = word_at(s, pos, false);
    (
        match w.0 {
            Some(t) => match parse_unsigned(t) {
                Some(v) => Some(v as u32),
                None => None,
            },
            None => None,
        },
        w.1,
    )
}

/// The month at `pos` and the cursor after its word.
pub open spec fn month_at(s: Seq<char>, pos: int) -> (Result<u32, ParsingFailure>, int) {
    let w = word_at(s, pos, false);
    (
        match w.0 {
            Some(t) => match month_number(t) {
                Some(m) => Ok(m),
                None => Err(ParsingFailure::InvalidMonth(t)),
            },
            None => Err(ParsingFailure::ExpectedMonth),
        },
        w.1,
    )
}

/// The seconds that follow a minute that ended at `pos`: after a `:` the
/// number there, or zero if it is none; without a `:` zero.
pub open spec fn seconds_at(s: Seq<char>, pos: int) -> (u32, int) {
    if 0 <= pos < s.len() && s[pos] == ':' {
        let n = number_at(s, pos + 1);
        (
            match n.0 {
                Some(v) => v,
                None => 0u32,
            },
            n.1,
        )
    } else {
        (0u32, pos)
    }
}

/// The time of day at `pos`, as hour, minute and second, and the cursor
/// after it.
pub open spec fn time_at(s: Seq<char>, pos: int) -> (Result<(u32, u32, u32), ParsingFailure>, int) {
    let hour = number_at(s, pos);
    match hour.0 {
        None => (Err(ParsingFailure::ExpectedHour), hour.1),
        Some(h) => if !(0 <= hour.1 < s.len() && s[hour.1] == ':') {
            (
                Err(
                    ParsingFailure::ExpectedChar {
                        expected: ':',
                        found: crate::rfc5322::char_at(s, hour.1),
                    },
                ),
                hour.1,
            )
        } else {
            let minute = number_at(s, hour.1 + 1);
            match minute.0 {
                None => (Err(ParsingFailure::ExpectedMinute), minute.1),
                Some(m) => {
                    let second = seconds_at(s, minute.1);
                    (Ok((h, m, second.0)), second.1)
                },
            }
        },
    }
}

/// The offset that a zone word stands for: a number of hours and minutes,
/// read after one leading `+` is dropped, or else an abbreviation.
pub open spec fn zone_of(t: Seq<char>) -> Result<int, ParsingFailure> {
    match parse_signed(without_plus(t)) {
        Some(v) => Ok(offset_seconds(v)),
        None => match zone_offset(t) {
            Some(o) => Ok(o),
            None => Err(ParsingFailure::InvalidTimezone(t)),
        },
    }
}

/// The zone offset at `pos`, in seconds east of UTC, and the cursor after
/// its word.
pub open spec fn zone_at(s: Seq<char>, pos: int) -> (Result<int, ParsingFailure>, int) {
    let w = word_at(s, pos, false);
    (
        match w.0 {
            Some(t) => zone_of(t),
            None => Err(ParsingFailure::ExpectedTimezone),
        },
        w.1,
    )
}

/// Where the day of the month starts: after a day name and the commas and
/// whitespace behind it, or at `pos` itself where no day name stands.
pub open spec fn date_start(s: Seq<char>, pos: int) -> int {
    let w = word_at(s, pos, false);
    match w.0 {
        Some(t) => if day_name(t) {
            run_end(s, w.1, separators())
        } else {
            pos
        },
        None => pos,
    }
}

/// The end of a date-time whose day, month, year and time of day are read:
/// after folding whitespace from `pos` on, the zone.
#[verifier::opaque]
pub open spec fn from_zone(s: Seq<char>, pos: int, d: u32, mo: u32, y: u32, t: (u32, u32, u32)) -> (
    Result<DateTimeFields, ParsingFailure>,
    int,
) {
    let zone = zone_at(s, lws_end(s, pos));
    match zone.0 {
        Err(e) => (Err(e), zone.1),
        Ok(z) => (
            Ok(
                DateTimeFields {
                    year: y,
                    month: mo,
                    day: d,
                    hour: t.0,
                    minute: t.1,
                    second: t.2,
                    offset: z as i64,
                },
            ),
            zone.1,
        ),
    }
}

/// The rest of a date-time whose day, month and year are read: after
/// folding whitespace from `pos` on, the time of day, then the zone.
#[verifier::opaque]
pub open spec fn from_time(s: Seq<char>, pos: int, d: u32, mo: u32, y: u32) -> (
    Result<DateTimeFields, ParsingFailure>,
    int,
) {
    let time = time_at(s, lws_end(s, pos));
    match time.0 {
        Err(e) => (Err(e), time.1),
        Ok(t) => from_zone(s, time.1, d, mo, y, t),
    }
}

/// The rest of a date-time whose day and month are read: after folding
/// whitespace from `pos` on, the year, made absolute, then time and zone.
#[verifier::opaque]
pub open spec fn from_year(s: Seq<char>, pos: int, d: u32, mo: u32) -> (
    Result<DateTimeFields, ParsingFailure>,
    int,
) {
    let year = number_at(s, lws_end(s, pos));
    match year.0 {
        None => (Err(ParsingFailure::ExpectedYear), year.1),
        Some(y) => from_time(s, year.1, d, mo, absolute_year(y)),
    }
}

/// The rest of a date-time whose day is read: after folding whitespace from
/// `pos` on, the month, then year, time and zone.
#[verifier::opaque]
pub open spec fn from_month(s: Seq<char>, pos: int, d: u32) -> (
    Result<DateTimeFields, ParsingFailure>,
    int,
) {
    let month = month_at(s, lws_end(s, pos));
    match month.0 {
        Err(e) => (Err(e), month.1),
        Ok(mo) => from_year(s, month.1, d, mo),
    }
}

/// The date-time that starts at `pos` with its day of the month, and the
/// cursor after it or after what failed. The first element that is missing
/// or wrong decides the error.
pub open spec fn body_at(s: Seq<char>, pos: int) -> (Result<DateTimeFields, ParsingFailure>, int) {
    let day = number_at(s, pos);
    match day.0 {
        None => (Err(ParsingFailure::ExpectedDayOfMonth), day.1),
        Some(d) => from_month(s, day.1, d),
    }
}

/// The fields of the date-time at `pos`, with or without a day name before
/// it, and the cursor after it or after what failed.
pub open spec fn fields_at(s: Seq<char>, pos: int) -> (Result<DateTimeFields, ParsingFailure>, int) {
    body_at(s, date_start(s, pos))
}

/// The point in time that `chrono` makes of the fields, if it makes one:
/// year and offset must fit its 32-bit arguments, and zone, date and time
/// of day must each exist.
pub open spec fn assembled(f: DateTimeFields) -> Option<ZonedDateTime> {
    if f.year > i32::MAX || f.offset < i32::MIN || f.offset > i32::MAX {
        None
    } else {
        match naive_date(f.year as int, f.month as int, f.day as int) {
            None => None,
            Some(date) => joined(
                f,
                fixed_offset_east(f.offset as int),
                naive_datetime(date, f.hour as int, f.minute as int, f.second as int),
            ),
        }
    }
}

/// The fields with their zone and local time, where both exist.
pub open spec fn joined(
    f: DateTimeFields,
    zone: Option<FixedOffset>,
    local: Option<NaiveDateTime>,
) -> Option<ZonedDateTime> {
    match (zone, local) {
        (Some(z), Some(l)) => Some(ZonedDateTime { fields: f, local: l, zone: z }),
        _ => None,
    }
}

/// The point in time that the text at `pos` gives, or why it gives none.
pub open spec fn datetime_at(s: Seq<char>, pos: int) -> Result<ZonedDateTime, ParsingFailure> {
    match fields_at(s, pos).0 {
        Err(e) => Err(e),
        Ok(f) => match assembled(f) {
            Some(z) => Ok(z),
            None => Err(ParsingFailure::InvalidDateTime),
        },
    }
}

/// A number and the cursor after it depend on the text from the cursor on
/// alone.
pub proof fn lemma_number_at_skip(s: Seq<char>, k: int, pos: int)
    requires
        0 <= k <= pos <= s.len(),
    ensures
        number_at(s, pos).0 == number_at(s.skip(k), pos - k).0,
        number_at(s, pos).1 == number_at(s.skip(k), pos - k).1 + k,
        pos <= number_at(s, pos).1 <= s.len(),
{
    lemma_word_at_skip(s, k, pos);
}

/// A time of day and the cursor after it depend on the text from the cursor
/// on alone.
pub proof fn lemma_time_at_skip(s: Seq<char>, k: int, pos: int)
    requires
        0 <= k <= pos <= s.len(),
    ensures
        time_at(s, pos).0 == time_at(s.skip(k), pos - k).0,
        time_at(s, pos).1 == time_at(s.skip(k), pos - k).1 + k,
        pos <= time_at(s, pos).1 <= s.len(),
{
    let t = s.skip(k);
    lemma_number_at_skip(s, k, pos);
    let h = number_at(s, pos).1;
    if h < s.len() {
        assert(t[h - k] == s[h]);
        if s[h] == ':' {
            lemma_number_at_skip(s, k, h + 1);
            let m = number_at(s, h + 1).1;
            if m < s.len() {
                assert(t[m - k] == s[m]);
                if s[m] == ':' {
                    lemma_number_at_skip(s, k, m + 1);
                }
            }
        }
    }
}

/// A month and the cursor after it depend on the text from the cursor on
/// alone.
pub proof fn lemma_month_at_skip(s: Seq<char>, k: int, pos: int)
    requires
        0 <= k <= pos <= s.len(),
    ensures
        month_at(s, pos).0 == month_at(s.skip(k), pos - k).0,
        month_at(s, pos).1 == month_at(s.skip(k), pos - k).1 + k,
        pos <= month_at(s, pos).1 <= s.len(),
{
    lemma_word_at_skip(s, k, pos);
}

/// A zone and the cursor after it depend on the text from the cursor on
/// alone.
pub proof fn lemma_zone_at_skip(s: Seq<char>, k: int, pos: int)
    requires
        0 <= k <= pos <= s.len(),
    ensures
        zone_at(s, pos).0 == zone_at(s.skip(k), pos - k).0,
        zone_at(s, pos).1 == zone_at(s.skip(k), pos - k).1 + k,
        pos <= zone_at(s, pos).1 <= s.len(),
{
    lemma_word_at_skip(s, k, pos);
}

/// The zone at the end of a date-time depends on the text from the cursor
/// on alone.
pub proof fn lemma_from_zone_skip(
    s: Seq<char>,
    k: int,
    pos: int,
    d: u32,
    mo: u32,
    y: u32,
    t: (u32, u32, u32),
)
    requires
        0 <= k <= pos <= s.len(),
    ensures
        from_zone(s, pos, d, mo, y, t).0 == from_zone(s.skip(k), pos - k, d, mo, y, t).0,
        from_zone(s, pos, d, mo, y, t).1 == from_zone(s.skip(k), pos - k, d, mo, y, t).1 + k,
{
    reveal(from_zone);
    lemma_lws_end_skip(s, k, pos);
    lemma_zone_at_skip(s, k, lws_end(s, pos));
}

/// Time and zone of a date-time depend on the text from the cursor on
/// alone.
pub proof fn lemma_from_time_skip(s: Seq<char>, k: int, pos: int, d: u32, mo: u32, y: u32)
    requires
        0 <= k <= pos <= s.len(),
    ensures
        from_time(s, pos, d, mo, y).0 == from_time(s.skip(k), pos - k, d, mo, y).0,
        from_time(s, pos, d, mo, y).1 == from_time(s.skip(k), pos - k, d, mo, y).1 + k,
{
    reveal(from_time);
    lemma_lws_end_skip(s, k, pos);
    lemma_time_at_skip(s, k, lws_end(s, pos));
    let time = time_at(s, lws_end(s, pos));
    match time.0 {
        Ok(t) => {
            lemma_from_zone_skip(s, k, time.1, d, mo, y, t);
        },
        Err(_) => {},
    }
}

/// Year, time and zone of a date-time depend on the text from the cursor on
/// alone.
pub proof fn lemma_from_year_skip(s: Seq<char>, k: int, pos: int, d: u32, mo: u32)
    requires
        0 <= k <= pos <= s.len(),
    ensures
        from_year(s, pos, d, mo).0 == from_year(s.skip(k), pos - k, d, mo).0,
        from_year(s, pos, d, mo).1 == from_year(s.skip(k), pos - k, d, mo).1 + k,
{
    reveal(from_year);
    lemma_lws_end_skip(s, k, pos);
    lemma_number_at_skip(s, k, lws_end(s, pos));
    let year = number_at(s, lws_end(s, pos));
    match year.0 {
        Some(y) => {
            lemma_from_time_skip(s, k, year.1, d, mo, absolute_year(y));
        },
        None => {},
    }
}

/// Month, year, time and zone of a date-time depend on the text from the
/// cursor on alone.
pub proof fn lemma_from_month_skip(s: Seq<char>, k: int, pos: int, d: u32)
    requires
        0 <= k <= pos <= s.len(),
    ensures
        from_month(s, pos, d).0 == from_month(s.skip(k), pos - k, d).0,
        from_month(s, pos, d).1 == from_month(s.skip(k), pos - k, d).1 + k,
{
    reveal(from_month);
    lemma_lws_end_skip(s, k, pos);
    lemma_month_at_skip(s, k, lws_end(s, pos));
    let month = month_at(s, lws_end(s, pos));
    match month.0 {
        Ok(mo) => {
            lemma_from_year_skip(s, k, month.1, d, mo);
        },
        Err(_) => {},
    }
}

/// The date-time that starts with its day of the month, and the cursor
/// after it, depend on the text from the cursor on alone.
pub proof fn lemma_body_at_skip(s: Seq<char>, k: int, pos: int)
    requires
        0 <= k <= pos <= s.len(),
    ensures
        body_at(s, pos).0 == body_at(s.skip(k), pos - k).0,
        body_at(s, pos).1 == body_at(s.skip(k), pos - k).1 + k,
{
    lemma_number_at_skip(s, k, pos);
    let day = number_at(s, pos);
    match day.0 {
        Some(d) => {
            lemma_from_month_skip(s, k, day.1, d);
        },
        None => {},
    }
}

/// Which day a day name names has no part in the result: two texts that
/// each start with a day name, and read the same behind it, give the same
/// fields and the same point in time, or fail alike.
pub proof fn lemma_day_name_is_irrelevant(a: Seq<char>, pa: int, b: Seq<char>, pb: int)
    requires
        0 <= pa <= a.len(),
        0 <= pb <= b.len(),
        word_at(a, pa, false).0 matches Some(w) && day_name(w),
        word_at(b, pb, false).0 matches Some(w) && day_name(w),
        a.skip(word_at(a, pa, false).1) == b.skip(word_at(b, pb, false).1),
    ensures
        fields_at(a, pa).0 == fields_at(b, pb).0,
        datetime_at(a, pa) == datetime_at(b, pb),
{
    let ea = word_at(a, pa, false).1;
    let eb = word_at(b, pb, false).1;
    lemma_word_at_skip(a, 0, pa);
    lemma_word_at_skip(b, 0, pb);
    lemma_run_end_skip(a, ea, ea, separators());
    lemma_run_end_skip(b, eb, eb, separators());
    lemma_body_at_skip(a, ea, run_end(a, ea, separators()));
    lemma_body_at_skip(b, eb, run_end(b, eb, separators()));
}

/// The day name is optional: a text with a day name gives what the text
/// behind the name, and behind the commas and whitespace that follow it,
/// gives by itself.
pub proof fn lemma_day_name_is_optional(a: Seq<char>, pa: int)
    requires
        0 <= pa <= a.len(),
        word_at(a, pa, false).0 matches Some(w) && day_name(w),
        !(word_at(a.skip(date_start(a, pa)), 0, false).0 matches Some(w) && day_name(w)),
    ensures
        pa <= date_start(a, pa) <= a.len(),
        fields_at(a, pa).0 == fields_at(a.skip(date_start(a, pa)), 0).0,
        datetime_at(a, pa) == datetime_at(a.skip(date_start(a, pa)), 0),
{
    let e = word_at(a, pa, false).1;
    lemma_word_at_skip(a, 0, pa);
    lemma_run_end_skip(a, e, e, separators());
    lemma_body_at_skip(a, date_start(a, pa), date_start(a, pa));
}

/// Parsing depends on the text and the cursor alone: two parsers over the
/// same text at the same cursor give the same result, whatever either has
/// saved.
pub proof fn lemma_reparse_is_identical(
    p: &Rfc822DateParser,
    q: &Rfc822DateParser,
    first: ParsingResult<ZonedDateTime>,
    second: ParsingResult<ZonedDateTime>,
)
    requires
        p.text() == q.text(),
        p.cursor() == q.cursor(),
        outcome(first) == datetime_at(p.text(), p.cursor()),
        outcome(second) == datetime_at(q.text(), q.cursor()),
    ensures
        outcome(first) == outcome(second),
{
}

/// A year that comes out of the grammar has four digits or more, and the
/// two- and three-digit years land in 2000..=2049 and 1950..=2899.
pub proof fn lemma_year_is_absolute(y: u32)
    ensures
        absolute_year(y) >= 1000,
        y <= 49 ==> absolute_year(y) == y + 2000,
        50 <= y <= 999 ==> absolute_year(y) == y + 1900,
        y >= 1000 ==> absolute_year(y) == y,
{
}

/// Whether a word is a day name, whatever the case of its letters.
pub fn is_day_name(word: &str) -> (r: bool)
    ensures
        r == day_name(word@),
{
    matches_name(word, "mon") || matches_name(word, "tue") || matches_name(word, "wed")
        || matches_name(word, "thu") || matches_name(word, "fri") || matches_name(word, "sat")
        || matches_name(word, "sun")
}

/// The number of the month that a word names, whatever the case of its
/// letters.
pub fn month_of(word: &str) -> (r: Option<u32>)
    ensures
        r == month_number(word@),
{
    if matches_name(word, "jan") {
        Some(1)
    } else if matches_name(word, "feb") {
        Some(2)
    } else if matches_name(word, "mar") {
        Some(3)
    } else if matches_name(word, "apr") {
        Some(4)
    } else if matches_name(word, "may") {
        Some(5)
    } else if matches_name(word, "jun") {
        Some(6)
    } else if matches_name(word, "jul") {
        Some(7)
    } else if matches_name(word, "aug") {
        Some(8)
    } else if matches_name(word, "sep") {
        Some(9)
    } else if matches_name(word, "oct") {
        Some(10)
    } else if matches_name(word, "nov") {
        Some(11)
    } else if matches_name(word, "dec") {
        Some(12)
    } else {
        None
    }
}

/// Looks a zone abbreviation up in the table.
pub fn lookup_zone(name: &str) -> (r: Option<i32>)
    ensures
        match zone_offset(name@) {
            Some(o) => r == Some(o as i32),
            None => r is None,
        },
{
    if same_text(name, "Z") || same_text(name, "UT") || same_text(name, "GMT") {
        Some(0)
    } else if same_text(name, "PST") {
        Some(-28800)
    } else if same_text(name, "PDT") || same_text(name, "MST") {
        Some(-25200)
    } else if same_text(name, "MDT") || same_text(name, "CST") {
        Some(-21600)
    } else if same_text(name, "CDT") || same_text(name, "EST") {
        Some(-18000)
    } else if same_text(name, "EDT") {
        Some(-14400)
    } else {
        None
    }
}

/// Turns an offset written as hours and minutes in one number into
/// seconds.
pub fn seconds_of_offset(v: i32) -> (r: i64)
    ensures
        r == offset_seconds(v as int),
        -77_309_415_288 <= r <= 77_309_415_288,
{
    let magnitude: u64 = if v < 0 {
        (0 - v as i64) as u64
    } else {
        v as u64
    };
    let seconds: u64 = (magnitude / 100) * 3600 + (magnitude % 100) * 60;
    if v < 0 {
        0 - seconds as i64
    } else {
        seconds as i64
    }
}

/// Makes a year as written absolute.
pub fn expand_year(y: u32) -> (r: u32)
    ensures
        r == absolute_year(y),
        r >= 1000,
{
    if y <= 49 {
        y + 2000
    } else if y <= 999 {
        y + 1900
    } else {
        y
    }
}

/// Resolves a zone word to seconds east of UTC.
pub fn resolve_zone(word: String) -> (r: ParsingResult<i64>)
    ensures
        outcome(r) == match zone_of(word@) {
            Ok(o) => Ok::<i64, ParsingFailure>(o as i64),
            Err(e) => Err::<i64, ParsingFailure>(e),
        },
        r matches Ok(o) ==> o == zone_of(word@)->Ok_0,
{
    let text: &str = word.as_str();
    let n: usize = text.unicode_len();
    let digits: &str = if n > 0 && text.get_char(0) == '+' {
        proof {
            assert(text@.subrange(1, n as int) =~= text@.skip(1));
        }
        text.substring_char(1, n)
    } else {
        text
    };
    match read_signed(digits) {
        Some(v) => Ok(seconds_of_offset(v)),
        None => match lookup_zone(text) {
            Some(o) => Ok(o as i64),
            None => Err(ParsingError::InvalidTimezone(word)),
        },
    }
}

/// Joins the fields with what `chrono` made of them: a point in time where
/// both the zone and the local time exist, the error otherwise.
pub fn zoned(f: DateTimeFields, zone: Option<FixedOffset>, local: Option<NaiveDateTime>) -> (r:
    ParsingResult<ZonedDateTime>)
    ensures
        outcome(r) == match joined(f, zone, local) {
            Some(z) => Ok::<ZonedDateTime, ParsingFailure>(z),
            None => Err::<ZonedDateTime, ParsingFailure>(ParsingFailure::InvalidDateTime),
        },
{
    match zone {
        Some(z) => match local {
            Some(l) => Ok(ZonedDateTime { fields: f, local: l, zone: z }),
            None => Err(ParsingError::InvalidDateTime),
        },
        None => Err(ParsingError::InvalidDateTime),
    }
}

/// Has `chrono` make a point in time of the fields. Fields that name no
/// real date, time of day or zone give the error.
pub fn assemble(f: DateTimeFields) -> (r: ParsingResult<ZonedDateTime>)
    ensures
        outcome(r) == match assembled(f) {
            Some(z) => Ok::<ZonedDateTime, ParsingFailure>(z),
            None => Err::<ZonedDateTime, ParsingFailure>(ParsingFailure::InvalidDateTime),
        },
        r is Ok ==> f.hour < 24 && f.minute < 60 && f.second < 60 && -86_400 < f.offset < 86_400,
{
    if f.year > 0x7FFF_FFFF || f.offset < -0x8000_0000 || f.offset > 0x7FFF_FFFF {
        return Err(ParsingError::InvalidDateTime);
    }
    match from_ymd_opt(f.year as i32, f.month, f.day) {
        None => Err(ParsingError::InvalidDateTime),
        Some(date) => {
            let zone = east_opt(f.offset as i32);
            let local = and_hms_opt(&date, f.hour, f.minute, f.second);
            zoned(f, zone, local)
        },
    }
}

/// Parser for date-times in the style of RFC 822, with the additions and
/// the obsolete forms of RFC 5322.
pub struct Rfc822DateParser<'s> {
    parser: Rfc5322Parser<'s>,
}

impl<'s> Rfc822DateParser<'s> {
    /// The text that is parsed.
    pub closed spec fn text(&self) -> Seq<char> {
        self.parser.text()
    }

    /// How many characters have been passed.
    pub closed spec fn cursor(&self) -> int {
        self.parser.cursor()
    }

    /// The scanner's saved positions.
    pub closed spec fn saved(&self) -> Seq<usize> {
        self.parser.saved()
    }

    /// The scanner is well formed.
    pub closed spec fn wf(&self) -> bool {
        self.parser.wf()
    }

    /// A parser at the start of `s`.
    pub fn new(s: &'s str) -> (p: Rfc822DateParser<'s>)
        ensures
            p.wf(),
            p.text() == s@,
            p.cursor() == 0,
            p.saved() == Seq::<usize>::empty(),
    {
        Rfc822DateParser { parser: Rfc5322Parser::new(s) }
    }

    /// The cursor, as a count of characters from the start of the text.
    pub fn position(&self) -> (r: usize)
        ensures
            r == self.cursor(),
    {
        self.parser.position()
    }

    /// Passes the word at the cursor and returns its number, if it is one.
    pub fn consume_u32(&mut self) -> (r: Option<u32>)
        requires
            old(self).wf(),
        ensures
            final(self).wf(),
            final(self).text() == old(self).text(),
            final(self).saved() == old(self).saved(),
            final(self).cursor() == number_at(old(self).text(), old(self).cursor()).1,
            old(self).cursor() <= final(self).cursor(),
            r == number_at(old(self).text(), old(self).cursor()).0,
    {
        match self.parser.consume_word(false) {
            Some(w) => read_unsigned(w.as_str()),
            None => None,
        }
    }

    /// Passes a time of day: hour, `:`, minute and, after another `:`,
    /// second.
    pub fn consume_time(&mut self) -> (r: ParsingResult<(u32, u32, u32)>)
        requires
            old(self).wf(),
        ensures
            final(self).wf(),
            final(self).text() == old(self).text(),
            final(self).saved() == old(self).saved(),
            final(self).cursor() == time_at(old(self).text(), old(self).cursor()).1,
            old(self).cursor() <= final(self).cursor(),
            outcome(r) == time_at(old(self).text(), old(self).cursor()).0,
    {
        proof {
            self.parser.lemma_cursor_in_text();
        }
        let hour = match self.consume_u32() {
            Some(x) => x,
            None => {
                return Err(ParsingError::ExpectedHour);
            },
        };
        proof {
            self.parser.lemma_cursor_in_text();
        }
        match self.parser.assert_char(':') {
            Ok(_) => {},
            Err(e) => {
                return Err(e);
            },
        }
        let _ = self.parser.consume_char();
        let minute = match self.consume_u32() {
            Some(x) => x,
            None => {
                return Err(ParsingError::ExpectedMinute);
            },
        };
        proof {
            self.parser.lemma_cursor_in_text();
        }
        let second = match self.parser.assert_char(':') {
            Ok(_) => {
                let _ = self.parser.consume_char();
                match self.consume_u32() {
                    Some(x) => x,
                    None => 0,
                }
            },
            Err(_) => 0,
        };
        Ok((hour, minute, second))
    }

    /// Passes a zone word and resolves it to seconds east of UTC.
    pub fn consume_timezone_offset(&mut self) -> (r: ParsingResult<i64>)
        requires
            old(self).wf(),
        ensures
            final(self).wf(),
            final(self).text() == old(self).text(),
            final(self).saved() == old(self).saved(),
            final(self).cursor() == zone_at(old(self).text(), old(self).cursor()).1,
            old(self).cursor() <= final(self).cursor(),
            outcome(r) == match zone_at(old(self).text(), old(self).cursor()).0 {
                Ok(o) => Ok::<i64, ParsingFailure>(o as i64),
                Err(e) => Err::<i64, ParsingFailure>(e),
            },
            r matches Ok(o) ==> o == zone_at(old(self).text(), old(self).cursor()).0->Ok_0,
    {
        match self.parser.consume_word(false) {
            Some(w) => resolve_zone(w),
            None => Err(ParsingError::ExpectedTimezone),
        }
    }

    /// Passes a month name and returns its number, counted from one.
    pub fn consume_month(&mut self) -> (r: ParsingResult<u32>)
        requires
            old(self).wf(),
        ensures
            final(self).wf(),
            final(self).text() == old(self).text(),
            final(self).saved() == old(self).saved(),
            final(self).cursor() == month_at(old(self).text(), old(self).cursor()).1,
            old(self).cursor() <= final(self).cursor(),
            outcome(r) == month_at(old(self).text(), old(self).cursor()).0,
            r matches Ok(m) ==> 1 <= m <= 12,
    {
        match self.parser.consume_word(false) {
            Some(w) => match month_of(w.as_str()) {
                Some(m) => Ok(m),
                None => Err(ParsingError::InvalidMonth(w)),
            },
            None => Err(ParsingError::ExpectedMonth),
        }
    }

    /// Passes a day name with the commas and whitespace behind it, if one
    /// stands at the cursor; otherwise the cursor stays.
    pub fn consume_day_of_week(&mut self)
        requires
            old(self).wf(),
        ensures
            final(self).wf(),
            final(self).text() == old(self).text(),
            final(self).saved() == old(self).saved(),
            final(self).cursor() == date_start(old(self).text(), old(self).cursor()),
            old(self).cursor() <= final(self).cursor(),
    {
        let ghost s = self.parser.text();
        proof {
            self.parser.lemma_cursor_in_text();
        }
        self.parser.push_position();
        let word = self.parser.consume_word(false);
        let named: bool = match &word {
            Some(w) => is_day_name(w.as_str()),
            None => false,
        };
        if named {
            let ghost from = self.parser.cursor();
            proof {
                self.parser.lemma_cursor_in_text();
            }
            let is_separator = |c: char| -> (r: bool)
                ensures
                    r == separator(c),
                { c == ',' || is_whitespace(c) };
            self.parser.consume_while(is_separator);
            self.parser.discard_position();
            proof {
                assert forall|i: int| from <= i < self.parser.cursor() implies separators()(
                    #[trigger] s[i],
                ) by {
                    assert(is_separator.ensures((self.parser.text()[i],), true));
                }
                lemma_run_end(s, from, self.parser.cursor(), separators());
            }
        } else {
            self.parser.pop_position();
        }
    }

    /// Passes a date-time and returns its fields as the text gives them.
    /// The first element that is missing or wrong ends the parse with its
    /// error.
    pub fn consume_fields(&mut self) -> (r: ParsingResult<DateTimeFields>)
        requires
            old(self).wf(),
        ensures
            final(self).wf(),
            final(self).text() == old(self).text(),
            final(self).saved() == old(self).saved(),
            final(self).cursor() == fields_at(old(self).text(), old(self).cursor()).1,
            old(self).cursor() <= final(self).cursor(),
            outcome(r) == fields_at(old(self).text(), old(self).cursor()).0,
            r matches Ok(f) ==> f.year >= 1000 && 1 <= f.month <= 12,
    {
        proof {
            reveal(from_month);
            reveal(from_year);
            reveal(from_time);
            reveal(from_zone);
        }
        self.consume_day_of_week();
        let day = match self.consume_u32() {
            Some(x) => x,
            None => {
                return Err(ParsingError::ExpectedDayOfMonth);
            },
        };
        self.parser.consume_linear_whitespace();
        let month = match self.consume_month() {
            Ok(m) => m,
            Err(e) => {
                return Err(e);
            },
        };
        self.parser.consume_linear_whitespace();
        let year = match self.consume_u32() {
            Some(y) => expand_year(y),
            None => {
                return Err(ParsingError::ExpectedYear);
            },
        };
        self.parser.consume_linear_whitespace();
        let time = match self.consume_time() {
            Ok(t) => t,
            Err(e) => {
                return Err(e);
            },
        };
        self.parser.consume_linear_whitespace();
        let offset = match self.consume_timezone_offset() {
            Ok(o) => o,
            Err(e) => {
                return Err(e);
            },
        };
        Ok(
            DateTimeFields {
                year,
                month,
                day,
                hour: time.0,
                minute: time.1,
                second: time.2,
                offset,
            },
        )
    }

    /// Passes a date-time and returns it as a point in time with the fixed
    /// offset that the text names.
    pub fn consume_datetime(&mut self) -> (r: ParsingResult<ZonedDateTime>)
        requires
            old(self).wf(),
        ensures
            final(self).wf(),
            final(self).text() == old(self).text(),
            final(self).saved() == old(self).saved(),
            final(self).cursor() == fields_at(old(self).text(), old(self).cursor()).1,
            old(self).cursor() <= final(self).cursor(),
            outcome(r) == datetime_at(old(self).text(), old(self).cursor()),
            r matches Ok(z) ==> {
                &&& z.fields.year >= 1000
                &&& 1 <= z.fields.month <= 12
                &&& z.fields.hour < 24
                &&& z.fields.minute < 60
                &&& z.fields.second < 60
                &&& -86_400 < z.fields.offset < 86_400
            },
    {
        match self.consume_fields() {
            Ok(f) => assemble(f),
            Err(e) => Err(e),
        }
    }
}

} // verus!
