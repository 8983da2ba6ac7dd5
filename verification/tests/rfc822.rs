use chrono::{DateTime, FixedOffset, NaiveDate, TimeZone};
use email::results::ParsingError;
use email::rfc822::{
    assemble, expand_year, is_day_name, lookup_zone, month_of, resolve_zone, seconds_of_offset,
    zoned, DateTimeFields, Rfc822DateParser, ZonedDateTime,
};

fn moment(z: &ZonedDateTime) -> DateTime<FixedOffset> {
    z.zone.from_local_datetime(&z.local).unwrap()
}

fn parse(input: &str) -> Result<ZonedDateTime, ParsingError> {
    let mut parser = Rfc822DateParser::new(input);
    parser.consume_datetime()
}

fn fields(input: &str) -> Result<DateTimeFields, ParsingError> {
    let mut parser = Rfc822DateParser::new(input);
    parser.consume_fields()
}

fn at(offset: i32, y: i32, mo: u32, d: u32, h: u32, mi: u32, s: u32) -> DateTime<FixedOffset> {
    FixedOffset::east_opt(offset).unwrap().with_ymd_and_hms(y, mo, d, h, mi, s).unwrap()
}

#[test]
fn test_time_parse() {
    let edt = -14400; // UTC-0400
    let cet = 3600; // UTC+0100
    let napal = 20700; // UTC+0545
    let utc = 0; // UTC+0000
    let tests = vec![
        ("Mon, 20 Jun 1982 10:01:59 EDT", Some(at(edt, 1982, 6, 20, 10, 1, 59))),
        ("Mon, 20 Jun 82 10:01:59 EDT", Some(at(edt, 1982, 6, 20, 10, 1, 59))),
        ("Mon, 20 Jun 02 10:01:59 EDT", Some(at(edt, 2002, 6, 20, 10, 1, 59))),
        ("Mon, 20 Jun 1982 10:01 EDT", Some(at(edt, 1982, 6, 20, 10, 1, 0))),
        ("Mon, 20 Jun 1982 10:01:59 +0100", Some(at(cet, 1982, 6, 20, 10, 1, 59))),
        ("Mon, 20 Jun 1982 10:01:59 -0400", Some(at(edt, 1982, 6, 20, 10, 1, 59))),
        ("Mon, 20 Jun 1982 10:01:59 +0545", Some(at(napal, 1982, 6, 20, 10, 1, 59))),
        ("09 Jan 2012 21:20:00 +0000", Some(at(utc, 2012, 1, 9, 21, 20, 00))),
    ];
    for (input, result) in tests.into_iter() {
        let mut parser = Rfc822DateParser::new(input);
        assert_eq!(parser.consume_datetime().ok().map(|z| moment(&z)), result);
    }
}

#[test]
fn end_to_end_fields_and_moment() {
    let z = parse("Thu, 18 Dec 2014 21:07:22 +0100").unwrap();
    assert_eq!(
        z.fields,
        DateTimeFields {
            year: 2014,
            month: 12,
            day: 18,
            hour: 21,
            minute: 7,
            second: 22,
            offset: 3600
        }
    );
    assert_eq!(z.zone, FixedOffset::east_opt(3600).unwrap());
    assert_eq!(
        z.local,
        NaiveDate::from_ymd_opt(2014, 12, 18).unwrap().and_hms_opt(21, 7, 22).unwrap()
    );
    assert_eq!(moment(&z), at(3600, 2014, 12, 18, 21, 7, 22));
    assert_eq!(moment(&z).timestamp(), 1418933242);
}

#[test]
fn day_name_is_optional() {
    let with = parse("Mon, 09 Jan 2012 21:20:00 +0000").unwrap();
    let without = parse("09 Jan 2012 21:20:00 +0000").unwrap();
    assert_eq!(with, without);
}

#[test]
fn day_name_is_not_held_against_the_date() {
    // 9 January 2012 was a Monday.
    let right = parse("Mon, 09 Jan 2012 21:20:00 +0000").unwrap();
    let wrong = parse("fRI,, \t 09 Jan 2012 21:20:00 +0000").unwrap();
    assert_eq!(right, wrong);
}

#[test]
fn word_that_is_no_day_name_is_read_again_as_the_day() {
    assert_eq!(fields("Foo, 09 Jan 2012 21:20:00 +0000"), Err(ParsingError::ExpectedDayOfMonth));
    let mut parser = Rfc822DateParser::new("Foo, 09 Jan 2012 21:20:00 +0000");
    assert!(parser.consume_fields().is_err());
    assert_eq!(parser.position(), 3);
}

#[test]
fn year_boundaries() {
    assert_eq!(expand_year(0), 2000);
    assert_eq!(expand_year(49), 2049);
    assert_eq!(expand_year(50), 1950);
    assert_eq!(expand_year(999), 1999 + 900);
    assert_eq!(expand_year(1000), 1000);
    assert_eq!(expand_year(4294967295), 4294967295);
    assert_eq!(fields("20 Jun 49 10:01:59 EDT").unwrap().year, 2049);
    assert_eq!(fields("20 Jun 50 10:01:59 EDT").unwrap().year, 1950);
    assert_eq!(fields("20 Jun 999 10:01:59 EDT").unwrap().year, 2899);
    assert_eq!(fields("20 Jun 1000 10:01:59 EDT").unwrap().year, 1000);
}

#[test]
fn seconds_are_optional() {
    let f = fields("Mon, 20 Jun 1982 10:01 EDT").unwrap();
    assert_eq!((f.hour, f.minute, f.second), (10, 1, 0));
    // A word behind the second `:` that is no number is passed and counts as zero.
    let g = fields("Mon, 20 Jun 1982 10:01:xx EDT").unwrap();
    assert_eq!((g.hour, g.minute, g.second, g.offset), (10, 1, 0, -14400));
    let h = fields("Mon, 20 Jun 1982 10:01: EDT").unwrap();
    assert_eq!((h.hour, h.minute, h.second, h.offset), (10, 1, 0, -14400));
}

#[test]
fn consume_time_values_and_cursor() {
    let mut p = Rfc822DateParser::new("10:01:59 EDT");
    assert_eq!(p.consume_time(), Ok((10, 1, 59)));
    assert_eq!(p.position(), 8);
    let mut q = Rfc822DateParser::new("10:01 EDT");
    assert_eq!(q.consume_time(), Ok((10, 1, 0)));
    assert_eq!(q.position(), 5);
    let mut r = Rfc822DateParser::new("xx:01");
    assert_eq!(r.consume_time(), Err(ParsingError::ExpectedHour));
    let mut s = Rfc822DateParser::new("10:");
    assert_eq!(s.consume_time(), Err(ParsingError::ExpectedMinute));
    let mut t = Rfc822DateParser::new("10");
    assert_eq!(t.consume_time(), Err(ParsingError::ExpectedChar { expected: ':', found: None }));
}

#[test]
fn numeric_zone_is_hours_and_minutes() {
    assert_eq!(seconds_of_offset(545), 20700);
    assert_eq!(seconds_of_offset(100), 3600);
    assert_eq!(seconds_of_offset(-400), -14400);
    assert_eq!(seconds_of_offset(-430), -16200);
    assert_eq!(seconds_of_offset(0), 0);
    assert_eq!(seconds_of_offset(i32::MAX), 21474836 * 3600 + 47 * 60);
    assert_eq!(seconds_of_offset(i32::MIN), -(21474836 * 3600 + 48 * 60));
    assert_eq!(resolve_zone("+0545".to_string()), Ok(20700));
    assert_eq!(resolve_zone("-0400".to_string()), Ok(-14400));
    assert_eq!(resolve_zone("0100".to_string()), Ok(3600));
    assert_eq!(resolve_zone("++0100".to_string()), Ok(3600));
    assert_eq!(fields("20 Jun 1982 10:01:59 +0545").unwrap().offset, 20700);
}

#[test]
fn symbolic_zone_is_matched_exactly() {
    assert_eq!(resolve_zone("EDT".to_string()), Ok(-14400));
    assert_eq!(lookup_zone("Z"), Some(0));
    assert_eq!(lookup_zone("UT"), Some(0));
    assert_eq!(lookup_zone("GMT"), Some(0));
    assert_eq!(lookup_zone("PST"), Some(-28800));
    assert_eq!(lookup_zone("PDT"), Some(-25200));
    assert_eq!(lookup_zone("MST"), Some(-25200));
    assert_eq!(lookup_zone("MDT"), Some(-21600));
    assert_eq!(lookup_zone("CST"), Some(-21600));
    assert_eq!(lookup_zone("CDT"), Some(-18000));
    assert_eq!(lookup_zone("EST"), Some(-18000));
    assert_eq!(lookup_zone("EDT"), Some(-14400));
    assert_eq!(lookup_zone("edt"), None);
    assert_eq!(lookup_zone("ED"), None);
    assert_eq!(lookup_zone(""), None);
    assert_eq!(
        resolve_zone("XYZ".to_string()),
        Err(ParsingError::InvalidTimezone("XYZ".to_string()))
    );
    assert_eq!(
        resolve_zone("+EDT".to_string()),
        Err(ParsingError::InvalidTimezone("+EDT".to_string()))
    );
    assert_eq!(
        parse("Mon, 20 Jun 1982 10:01:59 XYZ"),
        Err(ParsingError::InvalidTimezone("XYZ".to_string()))
    );
    assert_eq!(parse("Mon, 20 Jun 1982 10:01:59"), Err(ParsingError::ExpectedTimezone));
    assert_eq!(parse("Mon, 20 Jun 1982 10:01:59 "), Err(ParsingError::ExpectedTimezone));
}

#[test]
fn reparsing_gives_the_same() {
    let input = "Thu, 18 Dec 2014 21:07:22 +0100";
    assert_eq!(parse(input), parse(input));
    let bad = "Thu, 18 Foo 2014 21:07:22 +0100";
    assert_eq!(parse(bad), parse(bad));
    assert!(parse(bad).is_err());
}

#[test]
fn malformed_inputs_fail() {
    assert_eq!(parse("Mon, Jun 1982 10:01:59 EDT"), Err(ParsingError::ExpectedDayOfMonth));
    // Read as hour 1001 and minute 59, which is no time of day.
    assert_eq!(parse("Mon, 20 Jun 1982 1001:59 EDT"), Err(ParsingError::InvalidDateTime));
    assert_eq!(
        parse("Mon, 20 Jun 1982 10 01:59 EDT"),
        Err(ParsingError::ExpectedChar { expected: ':', found: Some(' ') })
    );
    assert_eq!(
        parse("Mon, 20 Jun 1982 1001 EDT"),
        Err(ParsingError::ExpectedChar { expected: ':', found: Some(' ') })
    );
    assert_eq!(parse(""), Err(ParsingError::ExpectedDayOfMonth));
    assert_eq!(parse("Mon"), Err(ParsingError::ExpectedDayOfMonth));
    assert_eq!(parse("20"), Err(ParsingError::ExpectedMonth));
    assert_eq!(
        parse("20 Foo 1982 10:01:59 EDT"),
        Err(ParsingError::InvalidMonth("Foo".to_string()))
    );
    assert_eq!(parse("20 Jun"), Err(ParsingError::ExpectedYear));
    assert_eq!(parse("20 Jun year"), Err(ParsingError::ExpectedYear));
    assert_eq!(parse("20 Jun 1982"), Err(ParsingError::ExpectedHour));
    assert_eq!(parse("20 Jun 1982 10:"), Err(ParsingError::ExpectedMinute));
    assert_eq!(
        parse("20 Jun 1982 10-01 EDT"),
        Err(ParsingError::ExpectedHour)
    );
}

#[test]
fn fields_that_name_no_moment_fail() {
    assert_eq!(parse("31 Feb 2012 21:20:00 +0000"), Err(ParsingError::InvalidDateTime));
    assert_eq!(parse("0 Jan 2012 21:20:00 +0000"), Err(ParsingError::InvalidDateTime));
    assert_eq!(parse("09 Jan 2012 24:20:00 +0000"), Err(ParsingError::InvalidDateTime));
    assert_eq!(parse("09 Jan 2012 21:60:00 +0000"), Err(ParsingError::InvalidDateTime));
    assert_eq!(parse("09 Jan 2012 21:20:60 +0000"), Err(ParsingError::InvalidDateTime));
    assert_eq!(parse("09 Jan 2012 21:20:00 +2400"), Err(ParsingError::InvalidDateTime));
    assert_eq!(parse("09 Jan 2012 21:20:00 -2400"), Err(ParsingError::InvalidDateTime));
    assert_eq!(parse("09 Jan 2012 21:20:00 +2147483647"), Err(ParsingError::InvalidDateTime));
    assert_eq!(parse("09 Jan 4294967295 21:20:00 +0000"), Err(ParsingError::InvalidDateTime));
    assert_eq!(parse("09 Jan 300000 21:20:00 +0000"), Err(ParsingError::InvalidDateTime));
    assert!(parse("29 Feb 2012 21:20:00 +2359").is_ok());
    assert!(parse("29 Feb 2013 21:20:00 +0000").is_err());
    // The fields are read all the same.
    assert_eq!(fields("31 Feb 2012 21:20:00 +0000").unwrap().day, 31);
}

#[test]
fn assemble_and_zoned() {
    let f = DateTimeFields {
        year: 1982,
        month: 6,
        day: 20,
        hour: 10,
        minute: 1,
        second: 59,
        offset: -14400,
    };
    let z = assemble(f).unwrap();
    assert_eq!(z.fields, f);
    assert_eq!(moment(&z), at(-14400, 1982, 6, 20, 10, 1, 59));
    let zone = FixedOffset::east_opt(-14400);
    let local = NaiveDate::from_ymd_opt(1982, 6, 20).unwrap().and_hms_opt(10, 1, 59);
    assert_eq!(zoned(f, zone, local), Ok(z));
    assert_eq!(zoned(f, None, local), Err(ParsingError::InvalidDateTime));
    assert_eq!(zoned(f, zone, None), Err(ParsingError::InvalidDateTime));
    assert_eq!(zoned(f, None, None), Err(ParsingError::InvalidDateTime));
    let far = DateTimeFields { offset: 86400, ..f };
    assert_eq!(assemble(far), Err(ParsingError::InvalidDateTime));
    let wide = DateTimeFields { offset: 1 << 40, ..f };
    assert_eq!(assemble(wide), Err(ParsingError::InvalidDateTime));
}

#[test]
fn names_in_any_case() {
    assert!(is_day_name("mon"));
    assert!(is_day_name("MON"));
    assert!(is_day_name("Sun"));
    assert!(!is_day_name("Mon,"));
    assert!(!is_day_name("Monday"));
    assert!(!is_day_name(""));
    let months =
        ["Jan", "FEB", "mar", "aPr", "May", "Jun", "Jul", "Aug", "Sep", "Oct", "Nov", "Dec"];
    for (i, m) in months.iter().enumerate() {
        assert_eq!(month_of(m), Some(i as u32 + 1));
    }
    assert_eq!(month_of("June"), None);
    assert_eq!(month_of("J\u{1D5}N"), None);
    let mut p = Rfc822DateParser::new("dEC 2014");
    assert_eq!(p.consume_month(), Ok(12));
    assert_eq!(p.position(), 3);
}

#[test]
fn consume_u32_reads_one_word() {
    let mut p = Rfc822DateParser::new("20 Jun");
    assert_eq!(p.consume_u32(), Some(20));
    assert_eq!(p.position(), 2);
    assert_eq!(p.consume_u32(), None);
    assert_eq!(p.position(), 2);
    let mut q = Rfc822DateParser::new("+7:x");
    assert_eq!(q.consume_u32(), Some(7));
    let mut r = Rfc822DateParser::new("4294967296");
    assert_eq!(r.consume_u32(), None);
    assert_eq!(r.position(), 10);
    let mut s = Rfc822DateParser::new("4294967295");
    assert_eq!(s.consume_u32(), Some(4294967295));
}

#[test]
fn folded_whitespace_between_fields() {
    let z = fields("Thu,\r\n 18 \t Dec\r\n\t2014 21:07:22\r\n +0100").unwrap();
    assert_eq!((z.year, z.month, z.day, z.offset), (2014, 12, 18, 3600));
    let mut p = Rfc822DateParser::new("Thu, 18 Dec 2014 21:07:22 +0100 rest");
    assert!(p.consume_datetime().is_ok());
    assert_eq!(p.position(), 31);
}

#[test]
fn messages() {
    assert_eq!(ParsingError::ExpectedDayOfMonth.message(), "Expected day of month, a number.");
    assert_eq!(ParsingError::ExpectedMonth.message(), "Expected month.");
    assert_eq!(ParsingError::InvalidMonth("Foo".to_string()).message(), "Invalid month: Foo");
    assert_eq!(ParsingError::ExpectedYear.message(), "Expected year.");
    assert_eq!(
        ParsingError::ExpectedHour.message(),
        "Failed to parse time: Expected hour, a number."
    );
    assert_eq!(ParsingError::ExpectedMinute.message(), "Failed to parse time: Expected minute.");
    assert_eq!(
        ParsingError::ExpectedChar { expected: ':', found: Some(' ') }.message(),
        "Expected :, got  "
    );
    assert_eq!(
        ParsingError::ExpectedChar { expected: ':', found: None }.message(),
        "Expected :, got end of input"
    );
    assert_eq!(ParsingError::ExpectedTimezone.message(), "Expected timezone offset.");
    assert_eq!(
        ParsingError::InvalidTimezone("XYZ".to_string()).message(),
        "Invalid timezone: XYZ"
    );
    assert_eq!(ParsingError::InvalidDateTime.message(), "Invalid date or time.");
    assert_eq!(
        parse("Mon, 20 Jun 1982 10:01:59 XYZ").unwrap_err().message(),
        "Invalid timezone: XYZ"
    );
}
