//! The entry points: one string in, one string out.
//!
//! `resolve` reads one phrase and writes its date-time.  `substitute` replaces
//! every date phrase in a text.  `parse_datetime` does the first for a relative
//! phrase and the second for anything else.  Each reads today's date from the
//! system clock, once; the functions whose names end in `_at` take today's
//! date from the caller instead.

use vstd::prelude::*;
use vstd::utf8::encode_utf8;

use crate::calendar::{CalendarDate, CalendarDateTime};
use crate::error::ResolveError;
use crate::grammar::{
    date_phrase_shape, decode_date, decode_delta, delta_phrase_shape, find_matches,
    pattern_matches, raw_date_of, raw_delta_of, PatternMatch, RawMatch, DATE_PATTERN,
    DELTA_PATTERN,
};
use crate::render::{format_view, text_view};
use crate::resolver::{
    delta_resolution, raw_date_resolution, resolve_raw_date, resolve_raw_delta, today,
};
use crate::substitute::{
    delta_phrase_resolution, render_resolved, rendered, resolve_delta_match, substitute_matches,
    substitution_from,
};

verus! {

/// A text with every match of the date grammar replaced by the text of the
/// date-time that it resolves to, and everything else as it was.
pub open spec fn substitution(
    text: Seq<char>,
    lunar: bool,
    infer_next: bool,
    format: Option<Seq<char>>,
    today: CalendarDate,
) -> Result<Seq<char>, ResolveError> {
    match pattern_matches(DATE_PATTERN@, text) {
        Some(matches) => substitution_from(
            encode_utf8(text),
            matches,
            0,
            0,
            lunar,
            infer_next,
            format,
            today,
        ),
        None => Err(ResolveError::FormatError),
    }
}

/// What a match of the relative grammar reads as: a format error where the
/// match does not have the shape of an offset, and its numbers otherwise.
pub open spec fn delta_reading(bytes: Seq<u8>, m: PatternMatch) -> Result<RawMatch, ResolveError> {
    if delta_phrase_shape(bytes, m) {
        Ok(RawMatch::Delta(raw_delta_of(bytes, m)))
    } else {
        Err(ResolveError::FormatError)
    }
}

/// What a text reads as in which the date grammar found these matches: the
/// numbers of the match where there is exactly one and it has the shape of a
/// date, and a format error otherwise.
pub open spec fn single_date_reading(bytes: Seq<u8>, matches: Seq<PatternMatch>) -> Result<
    RawMatch,
    ResolveError,
> {
    if matches.len() == 1 && date_phrase_shape(bytes, matches[0]) {
        Ok(RawMatch::Date(raw_date_of(bytes, matches[0])))
    } else {
        Err(ResolveError::FormatError)
    }
}

/// What a text is recognised as.  The relative grammar is tried first; where
/// it does not match, the text has to hold exactly one date phrase.  A text
/// that neither grammar recognises is a format error.
pub open spec fn recognition(text: Seq<char>) -> Result<RawMatch, ResolveError> {
    match pattern_matches(DELTA_PATTERN@, text) {
        Some(deltas) => if deltas.len() > 0 {
            delta_reading(encode_utf8(text), deltas[0])
        } else {
            match pattern_matches(DATE_PATTERN@, text) {
                Some(dates) => single_date_reading(encode_utf8(text), dates),
                None => Err(ResolveError::FormatError),
            }
        },
        None => Err(ResolveError::FormatError),
    }
}

/// The date-time that the numbers of a phrase resolve to.
pub open spec fn raw_resolution(raw: RawMatch, lunar: bool, infer_next: bool, today: CalendarDate) -> Result<
    CalendarDateTime,
    ResolveError,
> {
    match raw {
        RawMatch::Date(date) => raw_date_resolution(date, lunar, infer_next, today),
        RawMatch::Delta(delta) => delta_resolution(delta.days as int, delta.time, today),
    }
}

/// The date-time that a text resolves to: what the phrase that it is
/// recognised as resolves to.
pub open spec fn resolution(text: Seq<char>, lunar: bool, infer_next: bool, today: CalendarDate) -> Result<
    CalendarDateTime,
    ResolveError,
> {
    match recognition(text) {
        Ok(raw) => raw_resolution(raw, lunar, infer_next, today),
        Err(e) => Err(e),
    }
}

/// The text that a text is turned into: the date-time of a relative phrase
/// where the relative grammar matches, and otherwise the text with every date
/// phrase replaced.
pub open spec fn parse_resolution(
    text: Seq<char>,
    lunar: bool,
    infer_next: bool,
    format: Option<Seq<char>>,
    today: CalendarDate,
) -> Result<Seq<char>, ResolveError> {
    match pattern_matches(DELTA_PATTERN@, text) {
        Some(deltas) => if deltas.len() > 0 {
            rendered(delta_phrase_resolution(encode_utf8(text), deltas[0], today), format)
        } else {
            substitution(text, lunar, infer_next, format, today)
        },
        None => Err(ResolveError::FormatError),
    }
}

/// Reads a match of the relative grammar in a text.
pub fn read_delta_match(text: &str, m: &PatternMatch) -> (raw: Result<RawMatch, ResolveError>)
    ensures
        raw == delta_reading(encode_utf8(text@), *m),
{
    match decode_delta(text.as_bytes(), m) {
        Some(delta) => Ok(RawMatch::Delta(delta)),
        None => Err(ResolveError::FormatError),
    }
}

/// Reads a text in which the date grammar found the given matches.
pub fn read_single_date(text: &str, matches: &Vec<PatternMatch>) -> (raw: Result<
    RawMatch,
    ResolveError,
>)
    ensures
        raw == single_date_reading(encode_utf8(text@), matches@),
{
    if matches.len() != 1 {
        return Err(ResolveError::FormatError);
    }
    let m: PatternMatch = matches[0];
    match decode_date(text.as_bytes(), &m) {
        Some(date) => Ok(RawMatch::Date(date)),
        None => Err(ResolveError::FormatError),
    }
}

/// Recognises one phrase: finds out which grammar a text belongs to and reads
/// its numbers.
pub fn recognize(input: &str) -> (raw: Result<RawMatch, ResolveError>)
    ensures
        raw == recognition(input@),
{
    let deltas = match find_matches(DELTA_PATTERN, input) {
        Ok(list) => list,
        Err(_) => { return Err(ResolveError::FormatError); },
    };
    if deltas.len() > 0 {
        let m: PatternMatch = deltas[0];
        return read_delta_match(input, &m);
    }
    match find_matches(DATE_PATTERN, input) {
        Ok(dates) => read_single_date(input, &dates),
        Err(_) => Err(ResolveError::FormatError),
    }
}

/// Resolves the numbers of a phrase to a date-time.
pub fn resolve_raw_match(raw: &RawMatch, lunar: bool, infer_next: bool, today: &CalendarDate) -> (resolved:
    Result<CalendarDateTime, ResolveError>)
    requires
        today.valid(),
    ensures
        resolved == raw_resolution(*raw, lunar, infer_next, *today),
        resolved matches Ok(dt) ==> dt.valid(),
{
    match raw {
        RawMatch::Date(date) => resolve_raw_date(date, lunar, infer_next, today),
        RawMatch::Delta(delta) => resolve_raw_delta(delta, today),
    }
}

/// Resolves one phrase to its date-time, with `today` as today's date.
pub fn resolve_datetime_at(input: &str, lunar: bool, infer_next: bool, today: &CalendarDate) -> (resolved:
    Result<CalendarDateTime, ResolveError>)
    requires
        today.valid(),
    ensures
        resolved == resolution(input@, lunar, infer_next, *today),
        resolved matches Ok(dt) ==> dt.valid(),
{
    match recognize(input) {
        Ok(raw) => resolve_raw_match(&raw, lunar, infer_next, today),
        Err(e) => Err(e),
    }
}

/// Resolves one phrase and writes its date-time, with `today` as today's date.
pub fn resolve_at(
    input: &str,
    lunar: bool,
    infer_next: bool,
    format: &Option<String>,
    today: &CalendarDate,
) -> (outcome: Result<String, ResolveError>)
    requires
        today.valid(),
    ensures
        text_view(outcome) == rendered(
            resolution(input@, lunar, infer_next, *today),
            format_view(*format),
        ),
{
    render_resolved(resolve_datetime_at(input, lunar, infer_next, today), format)
}

/// Replaces every date phrase in a text by its date-time, with `today` as
/// today's date.  A text without a date phrase comes back as it is.
pub fn substitute_at(
    input: &str,
    lunar: bool,
    infer_next: bool,
    format: &Option<String>,
    today: &CalendarDate,
) -> (outcome: Result<String, ResolveError>)
    ensures
        text_view(outcome) == substitution(
            input@,
            lunar,
            infer_next,
            format_view(*format),
            *today,
        ),
{
    match find_matches(DATE_PATTERN, input) {
        Ok(matches) => substitute_matches(input, &matches, lunar, infer_next, format, today),
        Err(_) => Err(ResolveError::FormatError),
    }
}

/// Turns a text into the date-time of a relative phrase, where it is one, and
/// otherwise replaces every date phrase in it, with `today` as today's date.
pub fn parse_datetime_at(
    s: &str,
    is_lunar: bool,
    next: bool,
    fstr: &Option<String>,
    today: &CalendarDate,
) -> (outcome: Result<String, ResolveError>)
    requires
        today.valid(),
    ensures
        text_view(outcome) == parse_resolution(s@, is_lunar, next, format_view(*fstr), *today),
{
    let deltas = match find_matches(DELTA_PATTERN, s) {
        Ok(list) => list,
        Err(_) => { return Err(ResolveError::FormatError); },
    };
    if deltas.len() > 0 {
        let m: PatternMatch = deltas[0];
        render_resolved(resolve_delta_match(s.as_bytes(), &m, today), fstr)
    } else {
        substitute_at(s, is_lunar, next, fstr, today)
    }
}

/// Resolves one phrase and writes its date-time.  Today's date is read from
/// the system clock; a clock that shows no day of the calendar is an overflow.
pub fn resolve(input: &str, lunar: bool, infer_next: bool, format: &Option<String>) -> (outcome:
    Result<String, ResolveError>)
    ensures
        text_view(outcome) == Err::<Seq<char>, ResolveError>(ResolveError::ArithmeticOverflow) || exists|
            now: CalendarDate,
        |
            now.valid() && text_view(outcome) == rendered(
                #[trigger] resolution(input@, lunar, infer_next, now),
                format_view(*format),
            ),
{
    match today() {
        Ok(now) => resolve_at(input, lunar, infer_next, format, &now),
        Err(e) => Err(e),
    }
}

/// Replaces every date phrase in a text by its date-time.  Today's date is
/// read from the system clock, once for all the phrases; a clock that shows
/// no day of the calendar is an overflow.
pub fn substitute(input: &str, lunar: bool, infer_next: bool, format: &Option<String>) -> (outcome:
    Result<String, ResolveError>)
    ensures
        text_view(outcome) == Err::<Seq<char>, ResolveError>(ResolveError::ArithmeticOverflow) || exists|
            now: CalendarDate,
        |
            now.valid() && text_view(outcome) == #[trigger] substitution(
                input@,
                lunar,
                infer_next,
                format_view(*format),
                now,
            ),
{
    match today() {
        Ok(now) => substitute_at(input, lunar, infer_next, format, &now),
        Err(e) => Err(e),
    }
}

/// Turns a text into the date-time of a relative phrase, where it is one, and
/// otherwise replaces every date phrase in it.  Today's date is read from the
/// system clock, once; a clock that shows no day of the calendar is an
/// overflow.
pub fn parse_datetime(s: String, is_lunar: bool, next: bool, fstr: &Option<String>) -> (outcome:
    Result<String, ResolveError>)
    ensures
        text_view(outcome) == Err::<Seq<char>, ResolveError>(ResolveError::ArithmeticOverflow) || exists|
            now: CalendarDate,
        |
            now.valid() && text_view(outcome) == #[trigger] parse_resolution(
                s@,
                is_lunar,
                next,
                format_view(*fstr),
                now,
            ),
{
    match today() {
        Ok(now) => parse_datetime_at(s.as_str(), is_lunar, next, fstr, &now),
        Err(e) => Err(e),
    }
}

} // verus!
