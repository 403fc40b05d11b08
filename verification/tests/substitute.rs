use ndate::grammar::{PatternMatch, Span};
use ndate::substitute::{
    render_resolved, resolve_date_match, resolve_delta_match, substitute_matches,
};
use ndate::{CalendarDate, CalendarDateTime, ResolveError};

fn span(start: usize, end: usize) -> Option<Span> {
    Some(Span { start, end })
}

/// A match of a month and a day without a year and a time.
fn partial(month: (usize, usize), day: (usize, usize)) -> PatternMatch {
    PatternMatch {
        whole: span(month.0, day.1),
        first: None,
        second: span(month.0, month.1),
        third: span(day.0, day.1),
        fourth: None,
        fifth: None,
    }
}

fn today() -> CalendarDate {
    CalendarDate { year: 2025, month: 2, day: 1 }
}

fn at(year: i32, month: u32, day: u32, hour: u32, minute: u32) -> CalendarDateTime {
    CalendarDateTime { date: CalendarDate { year, month, day }, hour, minute }
}

#[test]
fn one_match_resolves() {
    let text = b"a 1-31 b";
    let m = partial((2, 3), (4, 6));
    assert_eq!(resolve_date_match(text, &m, false, true, &today()), Ok(at(2026, 1, 31, 0, 0)));
    assert_eq!(resolve_date_match(text, &m, false, false, &today()), Ok(at(2025, 1, 31, 0, 0)));
    assert_eq!(resolve_date_match(text, &m, true, false, &today()), Err(ResolveError::InvalidLunarDate));
    let off = partial((1, 3), (4, 6));
    assert_eq!(resolve_date_match(text, &off, false, true, &today()), Err(ResolveError::FormatError));
    let timed = PatternMatch {
        whole: span(0, 9),
        fourth: span(4, 6),
        fifth: span(7, 9),
        ..partial((0, 1), (2, 3))
    };
    assert_eq!(
        resolve_date_match(b"3-4 25:00", &timed, false, true, &today()),
        Err(ResolveError::InvalidTimeComponent)
    );
    assert_eq!(
        resolve_date_match(b"3-4 05:06", &timed, false, true, &today()),
        Ok(at(2025, 3, 4, 5, 6))
    );
}

#[test]
fn one_offset_resolves() {
    let only = |start, end| PatternMatch {
        whole: span(0, 0),
        first: span(start, end),
        second: None,
        third: None,
        fourth: None,
        fifth: None,
    };
    assert_eq!(resolve_delta_match(b"-1", &only(0, 2), &today()), Ok(at(2025, 1, 31, 0, 0)));
    assert_eq!(resolve_delta_match(b" +28 ", &only(1, 4), &today()), Ok(at(2025, 3, 1, 0, 0)));
    assert_eq!(resolve_delta_match(b"x", &only(0, 1), &today()), Err(ResolveError::FormatError));
    assert_eq!(
        resolve_delta_match(b"9999999999", &only(0, 10), &today()),
        Err(ResolveError::ArithmeticOverflow)
    );
}

#[test]
fn rendering_hands_errors_on() {
    assert_eq!(
        render_resolved(Ok(at(2025, 1, 31, 0, 0)), &None),
        Ok(String::from("2025-01-31 00:00"))
    );
    assert_eq!(
        render_resolved(Err(ResolveError::InvalidLunarDate), &None),
        Err(ResolveError::InvalidLunarDate)
    );
    assert_eq!(
        render_resolved(Ok(at(2025, 1, 31, 0, 0)), &Some(String::from("%Q"))),
        Err(ResolveError::InvalidFormatString)
    );
}

#[test]
fn matches_are_replaced_in_place() {
    let text = "a 1-31 b 10-25 c";
    let matches = vec![partial((2, 3), (4, 6)), partial((9, 11), (12, 14))];
    assert_eq!(
        substitute_matches(text, &matches, false, true, &None, &today()),
        Ok(String::from("a 2026-01-31 00:00 b 2025-10-25 00:00 c"))
    );
    assert_eq!(
        substitute_matches(text, &matches[..1].to_vec(), false, false, &None, &today()),
        Ok(String::from("a 2025-01-31 00:00 b 10-25 c"))
    );
    assert_eq!(
        substitute_matches(text, &matches[1..].to_vec(), false, true, &Some(String::from("<%d.%m.>")), &today()),
        Ok(String::from("a 1-31 b <25.10.> c"))
    );
    assert_eq!(
        substitute_matches(text, &Vec::new(), false, true, &None, &today()),
        Ok(String::from(text))
    );
    assert_eq!(
        substitute_matches("1-2", &vec![partial((0, 1), (2, 3))], false, true, &None, &today()),
        Ok(String::from("2026-01-02 00:00"))
    );
}

#[test]
fn matches_next_to_characters_of_several_bytes() {
    let text = "é1-2ü3-4€";
    let matches = vec![partial((2, 3), (4, 5)), partial((7, 8), (9, 10))];
    assert_eq!(
        substitute_matches(text, &matches, false, false, &None, &today()),
        Ok(String::from("é2025-01-02 00:00ü2025-03-04 00:00€"))
    );
}

#[test]
fn matches_out_of_place_are_refused() {
    let text = "a 1-31 b 10-25 c";
    let first = partial((2, 3), (4, 6));
    let second = partial((9, 11), (12, 14));
    let run = |matches: Vec<PatternMatch>| {
        substitute_matches(text, &matches, false, true, &None, &today())
    };
    assert!(run(vec![first, second]).is_ok());
    assert_eq!(run(vec![second, first]), Err(ResolveError::FormatError));
    assert_eq!(run(vec![first, first]), Err(ResolveError::FormatError));
    assert_eq!(run(vec![PatternMatch { whole: None, ..first }]), Err(ResolveError::FormatError));
    assert_eq!(run(vec![PatternMatch { whole: span(2, 7), ..first }]), Err(ResolveError::FormatError));
    assert_eq!(run(vec![PatternMatch { whole: span(6, 2), ..first }]), Err(ResolveError::FormatError));
    assert_eq!(run(vec![PatternMatch { whole: span(2, 60), ..first }]), Err(ResolveError::FormatError));
    assert_eq!(run(vec![partial((90, 91), (92, 93))]), Err(ResolveError::FormatError));
    let inside = PatternMatch { whole: span(1, 3), ..partial((1, 2), (2, 3)) };
    assert_eq!(
        substitute_matches("é-2", &vec![inside], false, true, &None, &today()),
        Err(ResolveError::FormatError)
    );
}

#[test]
fn the_first_failure_fails_the_whole() {
    let text = "2-30 25-1 1-2";
    let matches = vec![partial((0, 1), (2, 4)), partial((5, 7), (8, 9)), partial((10, 11), (12, 13))];
    assert_eq!(
        substitute_matches(text, &matches, false, true, &None, &today()),
        Err(ResolveError::InvalidCalendarDate)
    );
    assert_eq!(
        substitute_matches(text, &matches, true, true, &None, &today()),
        Err(ResolveError::InvalidLunarDate)
    );
    assert_eq!(
        substitute_matches(text, &matches[2..].to_vec(), false, true, &None, &today()),
        Ok(String::from("2-30 25-1 2026-01-02 00:00"))
    );
}
