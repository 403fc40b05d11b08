use chinese_lunisolar_calendar::chrono::{FixedOffset, NaiveDate, TimeZone};
use ndate::render::{datetime_to_string, default_string, written_or_error};
use ndate::{CalendarDate, CalendarDateTime, ResolveError};

fn at(year: i32, month: u32, day: u32, hour: u32, minute: u32) -> CalendarDateTime {
    CalendarDateTime { date: CalendarDate { year, month, day }, hour, minute }
}

#[test]
fn default_format() {
    assert_eq!(default_string(&at(2025, 10, 25, 3, 3)), "2025-10-25 03:03");
    assert_eq!(default_string(&at(2026, 1, 31, 0, 0)), "2026-01-31 00:00");
    assert_eq!(default_string(&at(1, 2, 3, 4, 5)), "0001-02-03 04:05");
    assert_eq!(default_string(&at(0, 12, 31, 23, 59)), "0000-12-31 23:59");
    assert_eq!(default_string(&at(9999, 12, 31, 23, 59)), "9999-12-31 23:59");
}

#[test]
fn default_format_of_years_beyond_four_digits() {
    assert_eq!(default_string(&at(10000, 1, 1, 0, 0)), "+10000-01-01 00:00");
    assert_eq!(default_string(&at(99999, 1, 1, 0, 0)), "+99999-01-01 00:00");
    assert_eq!(default_string(&at(100000, 1, 1, 0, 0)), "+100000-01-01 00:00");
    assert_eq!(default_string(&at(262142, 12, 31, 0, 0)), "+262142-12-31 00:00");
    assert_eq!(default_string(&at(-1, 1, 1, 0, 0)), "-0001-01-01 00:00");
    assert_eq!(default_string(&at(-9999, 1, 1, 0, 0)), "-9999-01-01 00:00");
    assert_eq!(default_string(&at(-10000, 1, 1, 0, 0)), "-10000-01-01 00:00");
    assert_eq!(default_string(&at(-262143, 1, 1, 0, 0)), "-262143-01-01 00:00");
}

#[test]
fn default_format_is_the_format_string_of_chrono() {
    let zone = FixedOffset::east_opt(8 * 3600).unwrap();
    for (year, month, day, hour, minute) in [
        (2025, 10, 25, 3, 3),
        (5, 1, 1, 0, 0),
        (999, 9, 9, 9, 9),
        (10000, 2, 28, 12, 30),
        (123456, 7, 8, 9, 10),
        (-1, 12, 31, 23, 59),
        (-45678, 3, 4, 5, 6),
        (262142, 12, 31, 23, 59),
    ] {
        let naive = NaiveDate::from_ymd_opt(year, month, day)
            .unwrap()
            .and_hms_opt(hour, minute, 0)
            .unwrap();
        let theirs = zone.from_local_datetime(&naive).unwrap().format("%Y-%m-%d %H:%M").to_string();
        let own = at(year, month, day, hour, minute);
        assert_eq!(default_string(&own), theirs);
        assert_eq!(datetime_to_string(own, &None), Ok(theirs.clone()));
        assert_eq!(datetime_to_string(own, &Some(String::from("%Y-%m-%d %H:%M"))), Ok(theirs));
    }
}

#[test]
fn format_of_the_caller() {
    let dt = at(2025, 10, 25, 3, 3);
    let with = |f: &str| datetime_to_string(dt, &Some(String::from(f)));
    assert_eq!(with("%Y/%m/%d"), Ok(String::from("2025/10/25")));
    assert_eq!(with("%H:%M:%S"), Ok(String::from("03:03:00")));
    assert_eq!(with("%A, %-d %B %Y"), Ok(String::from("Saturday, 25 October 2025")));
    assert_eq!(with("%z"), Ok(String::from("+0800")));
    assert_eq!(with("%s"), Ok(String::from("1761332580")));
    assert_eq!(with(""), Ok(String::new()));
    assert_eq!(with("no field"), Ok(String::from("no field")));
    assert_eq!(with("%"), Err(ResolveError::InvalidFormatString));
    assert_eq!(with("%Q"), Err(ResolveError::InvalidFormatString));
}

#[test]
fn what_was_written_or_an_error() {
    assert_eq!(written_or_error(Some(String::from("x"))), Ok(String::from("x")));
    assert_eq!(written_or_error(None), Err(ResolveError::InvalidFormatString));
}

#[test]
fn error_messages() {
    let all = [
        ResolveError::FormatError,
        ResolveError::InvalidCalendarDate,
        ResolveError::InvalidLunarDate,
        ResolveError::InvalidTimeComponent,
        ResolveError::ArithmeticOverflow,
        ResolveError::UnresolvedNextOccurrence,
        ResolveError::InvalidFormatString,
    ];
    for (i, a) in all.iter().enumerate() {
        assert!(!a.message().is_empty());
        for b in &all[i + 1..] {
            assert_ne!(a.message(), b.message());
        }
    }
    assert_eq!(ResolveError::FormatError.message(), "unrecognized date phrase");
    assert_eq!(ResolveError::InvalidTimeComponent.message(), "hour or minute out of range");
}
