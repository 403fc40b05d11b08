use chinese_lunisolar_calendar::chrono::{Datelike, Duration, FixedOffset, Utc};
use ndate::{
    parse_datetime, parse_datetime_at, resolve, resolve_at, resolve_datetime_at, substitute,
    substitute_at, CalendarDate, CalendarDateTime, ResolveError,
};

fn day(year: i32, month: u32, day: u32) -> CalendarDate {
    CalendarDate::new(year, month, day).unwrap()
}

fn minute(year: i32, month: u32, day: u32, hour: u32, minute: u32) -> CalendarDateTime {
    CalendarDateTime::new(year, month, day, hour, minute).unwrap()
}

fn zone() -> FixedOffset {
    FixedOffset::east_opt(8 * 3600).unwrap()
}

#[test]
fn only_date() {
    let time = day(2025, 2, 1);
    let s = String::from("1-31");

    assert_eq!(
        Ok(String::from("2026-01-31 00:00")),
        parse_datetime_at(&s, false, true, &None, &time)
    );
    assert_eq!(
        Ok(String::from("2025-01-31 00:00")),
        parse_datetime_at(&s, false, false, &None, &time)
    );
}

#[test]
fn year_date_time() {
    let s = String::from("2025-10-25 03:03");

    assert_eq!(Ok(s.clone()), parse_datetime(s.clone(), false, true, &None));
}

#[test]
fn date_time() {
    let s = String::from("10-25 3:03");
    let now = Utc::now().with_timezone(&zone());
    let year = if (now.month(), now.day()) <= (10, 25) { now.year() } else { now.year() + 1 };

    assert_eq!(
        Ok(format!("{}-10-25 03:03", year)),
        parse_datetime(s, false, true, &None)
    );
}

#[test]
fn date_delta() {
    let s = String::from("-1");
    let time = Utc::now().with_timezone(&zone()).date_naive() - Duration::days(1);

    assert_eq!(
        Ok(format!("{}-{:02}-{:02} 00:00", time.year(), time.month(), time.day())),
        parse_datetime(s, false, true, &None)
    );
}

#[test]
fn luar_date() {
    let s = String::from("2024-2-30");

    assert_eq!(
        Ok(String::from("2024-04-08 00:00")),
        parse_datetime(s, true, true, &None)
    );
}

#[test]
fn partial_date_on_or_after_today_stays_in_the_year() {
    let today = day(2025, 2, 1);
    assert_eq!(
        Ok(String::from("2025-10-25 03:03")),
        resolve_at("10-25 3:03", false, true, &None, &today)
    );
    assert_eq!(
        Ok(minute(2025, 2, 1, 0, 0)),
        resolve_datetime_at("2-1", false, true, &today)
    );
    assert_eq!(
        Ok(minute(2026, 1, 31, 0, 0)),
        resolve_datetime_at("1-31", false, true, &today)
    );
}

#[test]
fn written_years() {
    let today = day(2025, 2, 1);
    assert_eq!(Ok(minute(2024, 10, 25, 0, 0)), resolve_datetime_at("24-10-25", false, true, &today));
    assert_eq!(Ok(minute(2024, 10, 25, 0, 0)), resolve_datetime_at("2024/10/25", false, true, &today));
    assert_eq!(Ok(minute(25, 10, 25, 0, 0)), resolve_datetime_at("0025-10-25", false, true, &today));
    assert_eq!(Ok(minute(2000, 1, 2, 23, 59)), resolve_datetime_at("00-1-2 23:59", false, true, &today));
    assert_eq!(Ok(String::from("0025-10-25 00:00")), resolve_at("0025-10-25", false, true, &None, &today));
}

#[test]
fn relative_phrases() {
    let today = day(2024, 3, 1);
    assert_eq!(Ok(minute(2024, 2, 29, 0, 0)), resolve_datetime_at("-1", false, true, &today));
    assert_eq!(Ok(minute(2024, 3, 2, 0, 0)), resolve_datetime_at("+1", false, true, &today));
    assert_eq!(Ok(minute(2024, 3, 2, 0, 0)), resolve_datetime_at("1", false, true, &today));
    assert_eq!(Ok(minute(2024, 3, 1, 0, 0)), resolve_datetime_at("0", false, true, &today));
    assert_eq!(Ok(minute(2025, 3, 1, 9, 30)), resolve_datetime_at("365 9:30", false, true, &today));
    assert_eq!(Ok(minute(2023, 12, 31, 7, 5)), resolve_datetime_at("  -61 7:05\n", false, true, &today));
    assert_eq!(Ok(String::from("2024-02-29 00:00")), resolve_at("-1", false, true, &None, &today));
    assert_eq!(Ok(String::from("2024-02-29 00:00")), parse_datetime_at("-1", true, false, &None, &today));
}

#[test]
fn relative_phrase_out_of_the_calendar() {
    let today = day(2024, 3, 1);
    assert_eq!(
        Err(ResolveError::ArithmeticOverflow),
        resolve_datetime_at("99999999999999999999999999", false, true, &today)
    );
    assert_eq!(
        Err(ResolveError::ArithmeticOverflow),
        resolve_datetime_at("-1000000000", false, true, &today)
    );
    assert_eq!(Ok(minute(4762, 1, 27, 0, 0)), resolve_datetime_at("+1000000", false, true, &today));
    let last = day(262142, 12, 31);
    assert_eq!(Err(ResolveError::ArithmeticOverflow), resolve_datetime_at("1", false, true, &last));
    assert_eq!(Ok(minute(262142, 12, 30, 0, 0)), resolve_datetime_at("-1", false, true, &last));
    assert_eq!(
        Ok(String::from("+262142-12-30 00:00")),
        resolve_at("-1", false, true, &None, &last)
    );
}

#[test]
fn time_out_of_range_is_rejected() {
    let today = day(2025, 2, 1);
    for phrase in ["2025-10-25 25:00", "10-25 3:99", "1 24:00", "-1 0:60", "2-30 99:99", "+99999999999999999999 25:00"] {
        assert_eq!(
            Err(ResolveError::InvalidTimeComponent),
            resolve_datetime_at(phrase, false, true, &today)
        );
        assert_eq!(
            Err(ResolveError::InvalidTimeComponent),
            parse_datetime_at(phrase, false, true, &None, &today)
        );
    }
    assert_eq!(Ok(minute(2025, 10, 25, 23, 59)), resolve_datetime_at("2025-10-25 23:59", false, true, &today));
}

#[test]
fn dates_that_do_not_exist() {
    let today = day(2025, 2, 1);
    for phrase in ["2025-02-30", "2025-2-29", "4-31", "13-1", "0-5", "5-0", "2025-13-01"] {
        assert_eq!(
            Err(ResolveError::InvalidCalendarDate),
            resolve_datetime_at(phrase, false, true, &today)
        );
    }
    assert_eq!(Ok(minute(2024, 2, 29, 0, 0)), resolve_datetime_at("2024-2-29", false, true, &today));
}

#[test]
fn leap_day_cannot_move_to_the_next_year() {
    let today = day(2024, 3, 1);
    assert_eq!(
        Err(ResolveError::InvalidCalendarDate),
        resolve_datetime_at("2-29", false, true, &today)
    );
    assert_eq!(Ok(minute(2024, 2, 29, 0, 0)), resolve_datetime_at("2-29", false, false, &today));
    let later = day(2027, 3, 1);
    assert_eq!(
        Err(ResolveError::InvalidCalendarDate),
        resolve_datetime_at("2-29", false, true, &later)
    );
}

#[test]
fn next_year_beyond_the_calendar() {
    let today = day(262142, 6, 1);
    assert_eq!(
        Err(ResolveError::ArithmeticOverflow),
        resolve_datetime_at("1-31", false, true, &today)
    );
    assert_eq!(Ok(minute(262142, 1, 31, 0, 0)), resolve_datetime_at("1-31", false, false, &today));
}

#[test]
fn unrecognized_input() {
    let today = day(2025, 2, 1);
    for phrase in ["", "tomorrow", "next Tuesday", "10", "1-2 and 3-4", "--1"] {
        let expected = if phrase == "10" {
            Ok(minute(2025, 2, 11, 0, 0))
        } else {
            Err(ResolveError::FormatError)
        };
        assert_eq!(expected, resolve_datetime_at(phrase, false, true, &today));
    }
    assert_eq!(Err(ResolveError::FormatError), resolve_at("no date", false, true, &None, &today));
}

#[test]
fn one_phrase_within_other_text() {
    let today = day(2025, 2, 1);
    assert_eq!(Ok(minute(2025, 10, 25, 8, 0)), resolve_datetime_at("due 10-25 8:00!", false, true, &today));
}

#[test]
fn substitution_keeps_other_text() {
    let today = day(2025, 2, 1);
    assert_eq!(
        Ok(String::from("from 2026-01-31 00:00 to 2025-10-25 03:03, then 2024-12-24 00:00.")),
        substitute_at("from 1-31 to 10-25 3:03, then 24-12-24.", false, true, &None, &today)
    );
    assert_eq!(
        Ok(String::from("from 2025-01-31 00:00 to 2025-10-25 03:03")),
        substitute_at("from 1-31 to 10-25 3:03", false, false, &None, &today)
    );
    assert_eq!(
        Ok(String::from("nothing to see here")),
        substitute_at("nothing to see here", false, true, &None, &today)
    );
    assert_eq!(Ok(String::new()), substitute_at("", false, true, &None, &today));
    assert_eq!(Ok(String::from("-1")), substitute_at("-1", false, true, &None, &today));
}

#[test]
fn substitution_in_text_that_is_not_ascii() {
    let today = day(2025, 2, 1);
    assert_eq!(
        Ok(String::from("截止 2025-10-25 00:00 — 之后 2025-03-04 05:06 ✓")),
        substitute_at("截止 10-25 — 之后 3/4 5:06 ✓", false, true, &None, &today)
    );
}

#[test]
fn substitution_fails_as_a_whole() {
    let today = day(2025, 2, 1);
    assert_eq!(
        Err(ResolveError::InvalidCalendarDate),
        substitute_at("ok 10-25, bad 2-30, ok 3-4", false, true, &None, &today)
    );
    assert_eq!(
        Err(ResolveError::InvalidTimeComponent),
        substitute_at("ok 10-25, bad 3-4 25:00", false, true, &None, &today)
    );
}

#[test]
fn parse_datetime_substitutes_what_is_no_offset() {
    let today = day(2025, 2, 1);
    assert_eq!(
        Ok(String::from("see 2025-10-25 00:00")),
        parse_datetime_at("see 10-25", false, true, &None, &today)
    );
    assert_eq!(
        Ok(String::from("tomorrow")),
        parse_datetime_at("tomorrow", false, true, &None, &today)
    );
    assert_eq!(
        Ok(String::from("2025-02-04 12:30")),
        parse_datetime_at("3 12:30", false, true, &None, &today)
    );
}

#[test]
fn custom_format() {
    let today = day(2025, 2, 1);
    let format = Some(String::from("%d/%m/%Y %H.%M %:z"));
    assert_eq!(
        Ok(String::from("25/10/2025 03.03 +08:00")),
        resolve_at("10-25 3:03", false, true, &format, &today)
    );
    assert_eq!(
        Ok(String::from("a 31/01/2026 00.00 +08:00 b")),
        substitute_at("a 1-31 b", false, true, &format, &today)
    );
    assert_eq!(
        Ok(String::from("31/01/2025 00.00 +08:00")),
        parse_datetime_at("-1", false, true, &format, &today)
    );
}

#[test]
fn custom_format_that_cannot_be_rendered() {
    let today = day(2025, 2, 1);
    let format = Some(String::from("%Y-%Q"));
    assert_eq!(
        Err(ResolveError::InvalidFormatString),
        resolve_at("10-25 3:03", false, true, &format, &today)
    );
    assert_eq!(
        Err(ResolveError::InvalidFormatString),
        substitute_at("a 1-31 b", false, true, &format, &today)
    );
    assert_eq!(
        Ok(String::from("a b")),
        substitute_at("a b", false, true, &format, &today)
    );
}

#[test]
fn default_format_reads_back() {
    let today = day(2025, 2, 1);
    for dt in [
        minute(2025, 10, 25, 3, 3),
        minute(1, 1, 1, 0, 0),
        minute(999, 12, 31, 23, 59),
        minute(9999, 2, 28, 9, 5),
        minute(2024, 2, 29, 12, 0),
    ] {
        let text = ndate::render::default_string(&dt);
        assert_eq!(Ok(dt), resolve_datetime_at(&text, false, true, &today));
        assert_eq!(Ok(text.clone()), resolve_at(&text, false, false, &None, &today));
    }
}

#[test]
fn clock_entry_points_agree_with_the_clock() {
    let now = Utc::now().with_timezone(&zone()).date_naive();
    let tomorrow = now + Duration::days(1);
    let expected = format!("{:04}-{:02}-{:02} 06:07", tomorrow.year(), tomorrow.month(), tomorrow.day());
    assert_eq!(Ok(expected.clone()), resolve("+1 6:07", false, true, &None));
    assert_eq!(Ok(expected), parse_datetime(String::from("1 6:07"), false, true, &None));
    assert_eq!(
        Ok(String::from("on 2031-05-06 00:00")),
        substitute("on 2031-5-6", false, true, &None)
    );
    assert_eq!(Ok(ndate::resolver::today().unwrap()), CalendarDate::new(now.year(), now.month(), now.day()).ok_or(ResolveError::FormatError));
}
