//! From a date-time to text.
//!
//! Without a format string a date-time is written as `YYYY-MM-DD hh:mm`.  A
//! format string of the caller is handed to `chrono`, with the date-time at
//! the fixed offset from UTC.

use std::fmt::Write;

use chinese_lunisolar_calendar::chrono::{FixedOffset, NaiveDate, TimeZone};
use vstd::prelude::*;

use crate::calendar::{CalendarDateTime, MAX_YEAR, MIN_YEAR};
use crate::error::ResolveError;
use crate::resolver::UTC_OFFSET_SECONDS;

verus! {

/// The character of a digit.
pub open spec fn digit_char(d: int) -> char {
    if d == 0 {
        '0'
    } else if d == 1 {
        '1'
    } else if d == 2 {
        '2'
    } else if d == 3 {
        '3'
    } else if d == 4 {
        '4'
    } else if d == 5 {
        '5'
    } else if d == 6 {
        '6'
    } else if d == 7 {
        '7'
    } else if d == 8 {
        '8'
    } else {
        '9'
    }
}

/// A number below 100 in two digits.
pub open spec fn two_digit_text(n: int) -> Seq<char> {
    seq![digit_char(n / 10), digit_char(n % 10)]
}

/// A number below 10000 in four digits.
pub open spec fn four_digit_text(n: int) -> Seq<char> {
    two_digit_text(n / 100) + two_digit_text(n % 100)
}

/// A number below a million in as many digits as it needs, four at least.
pub open spec fn long_number_text(n: int) -> Seq<char> {
    if n < 10000 {
        four_digit_text(n)
    } else if n < 100000 {
        seq![digit_char(n / 10000)] + four_digit_text(n % 10000)
    } else {
        two_digit_text(n / 10000) + four_digit_text(n % 10000)
    }
}

/// A year in four digits; a year before 0 or after 9999 with its sign and as
/// many digits as it needs, four at least.
pub open spec fn year_text(year: int) -> Seq<char> {
    if 0 <= year <= 9999 {
        four_digit_text(year)
    } else if year < 0 {
        seq!['-'] + long_number_text(-year)
    } else {
        seq!['+'] + long_number_text(year)
    }
}

/// A date-time in the default format: the year, the month and the day joined
/// by `-`, a space, and the hour and the minute joined by `:`, the year in
/// four digits and the others in two.
pub open spec fn default_text(datetime: CalendarDateTime) -> Seq<char> {
    year_text(datetime.date.year as int) + seq!['-'] + two_digit_text(datetime.date.month as int)
        + seq!['-'] + two_digit_text(datetime.date.day as int) + seq![' '] + two_digit_text(
        datetime.hour as int,
    ) + seq![':'] + two_digit_text(datetime.minute as int)
}

/// What `chrono` writes for a date-time at an offset from UTC under a format
/// string; `None` where chrono cannot represent the date-time at that offset
/// or cannot render the format string.
pub uninterp spec fn strftime_text(
    datetime: CalendarDateTime,
    offset_seconds: i32,
    format: Seq<char>,
) -> Option<Seq<char>>;

/// Builds the date-time with chrono's `NaiveDate::from_ymd_opt` and
/// `NaiveDate::and_hms_opt`, places it at the offset that
/// `FixedOffset::east_opt` makes, and writes what `DateTime::format` gives for
/// the format string.  The contract gives the outcome its name,
/// `strftime_text`, and claims nothing else of it.
#[verifier::external_body]
pub(crate) fn format_with(datetime: CalendarDateTime, offset_seconds: i32, format: &str) -> (text:
    Option<String>)
    ensures
        match text {
            Some(t) => strftime_text(datetime, offset_seconds, format@) == Some(t@),
            None => strftime_text(datetime, offset_seconds, format@) is None,
        },
{
    let day = NaiveDate::from_ymd_opt(datetime.date.year, datetime.date.month, datetime.date.day)?;
    let naive = day.and_hms_opt(datetime.hour, datetime.minute, 0)?;
    let zoned = FixedOffset::east_opt(offset_seconds)?.from_local_datetime(&naive).single()?;
    let mut text = String::new();
    write!(text, "{}", zoned.format(format)).ok()?;
    Some(text)
}

/// The text of a date-time: in the default format where there is no format
/// string, and otherwise what chrono writes for the format string, whose
/// failure is an error.
pub open spec fn rendering(datetime: CalendarDateTime, format: Option<Seq<char>>) -> Result<
    Seq<char>,
    ResolveError,
> {
    match format {
        None => Ok(default_text(datetime)),
        Some(f) => custom_rendering(strftime_text(datetime, UTC_OFFSET_SECONDS, f)),
    }
}

/// The outcome of rendering a format string of the caller.
pub open spec fn custom_rendering(written: Option<Seq<char>>) -> Result<Seq<char>, ResolveError> {
    match written {
        Some(text) => Ok(text),
        None => Err(ResolveError::InvalidFormatString),
    }
}

/// A format string, or none, as characters.
pub open spec fn format_view(format: Option<String>) -> Option<Seq<char>> {
    match format {
        Some(f) => Some(f@),
        None => None,
    }
}

/// A text, or an error, as characters.
pub open spec fn text_view(outcome: Result<String, ResolveError>) -> Result<
    Seq<char>,
    ResolveError,
> {
    match outcome {
        Ok(text) => Ok(text@),
        Err(e) => Err(e),
    }
}

/// The digit `d` as a string.
fn digit_str(d: u32) -> (s: &'static str)
    requires
        d < 10,
    ensures
        s@ == seq![digit_char(d as int)],
{
    proof {
        reveal_strlit("0");
        reveal_strlit("1");
        reveal_strlit("2");
        reveal_strlit("3");
        reveal_strlit("4");
        reveal_strlit("5");
        reveal_strlit("6");
        reveal_strlit("7");
        reveal_strlit("8");
        reveal_strlit("9");
    }
    let s = if d == 0 {
        "0"
    } else if d == 1 {
        "1"
    } else if d == 2 {
        "2"
    } else if d == 3 {
        "3"
    } else if d == 4 {
        "4"
    } else if d == 5 {
        "5"
    } else if d == 6 {
        "6"
    } else if d == 7 {
        "7"
    } else if d == 8 {
        "8"
    } else {
        "9"
    };
    assert(s@ =~= seq![digit_char(d as int)]);
    s
}

/// Appends a number below 100 in two digits.
fn push_two_digits(out: &mut String, n: u32)
    requires
        n < 100,
    ensures
        final(out)@ == old(out)@ + two_digit_text(n as int),
{
    out.append(digit_str(n / 10));
    out.append(digit_str(n % 10));
    assert(final(out)@ =~= old(out)@ + two_digit_text(n as int));
}

/// Appends a number below 10000 in four digits.
fn push_four_digits(out: &mut String, n: u32)
    requires
        n < 10000,
    ensures
        final(out)@ == old(out)@ + four_digit_text(n as int),
{
    push_two_digits(out, n / 100);
    push_two_digits(out, n % 100);
    assert(final(out)@ =~= old(out)@ + four_digit_text(n as int));
}

/// Appends a year.
fn push_year(out: &mut String, year: i32)
    requires
        MIN_YEAR <= year <= MAX_YEAR,
    ensures
        final(out)@ == old(out)@ + year_text(year as int),
{
    if 0 <= year && year <= 9999 {
        push_four_digits(out, year as u32);
    } else {
        proof {
            reveal_strlit("-");
            reveal_strlit("+");
        }
        let size: u32 = if year < 0 {
            out.append("-");
            (-year) as u32
        } else {
            out.append("+");
            year as u32
        };
        if size >= 100000 {
            push_two_digits(out, size / 10000);
        } else if size >= 10000 {
            out.append(digit_str(size / 10000));
        }
        push_four_digits(out, size % 10000);
        assert(final(out)@ =~= old(out)@ + year_text(year as int));
    }
}

/// Writes a date-time in the default format.
pub fn default_string(datetime: &CalendarDateTime) -> (text: String)
    requires
        datetime.valid(),
    ensures
        text@ == default_text(*datetime),
{
    proof {
        reveal_strlit("-");
        reveal_strlit(" ");
        reveal_strlit(":");
    }
    let mut text = String::new();
    push_year(&mut text, datetime.date.year);
    text.append("-");
    push_two_digits(&mut text, datetime.date.month);
    text.append("-");
    push_two_digits(&mut text, datetime.date.day);
    text.append(" ");
    push_two_digits(&mut text, datetime.hour);
    text.append(":");
    push_two_digits(&mut text, datetime.minute);
    assert(text@ =~= default_text(*datetime));
    text
}

/// Turns what chrono wrote for a format string of the caller into the outcome
/// of rendering: the text, or the error that there is none.
pub fn written_or_error(written: Option<String>) -> (outcome: Result<String, ResolveError>)
    ensures
        text_view(outcome) == custom_rendering(format_view(written)),
{
    match written {
        Some(text) => Ok(text),
        None => Err(ResolveError::InvalidFormatString),
    }
}

/// Writes a date-time: in the default format where `fstr` is `None`, and with
/// the format string that it holds otherwise.
pub fn datetime_to_string(datetime: CalendarDateTime, fstr: &Option<String>) -> (outcome: Result<
    String,
    ResolveError,
>)
    requires
        datetime.valid(),
    ensures
        text_view(outcome) == rendering(datetime, format_view(*fstr)),
{
    match fstr {
        Some(format) => written_or_error(format_with(datetime, UTC_OFFSET_SECONDS, format.as_str())),
        None => Ok(default_string(&datetime)),
    }
}

} // verus!
