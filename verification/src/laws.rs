//! What holds of resolution, whatever the phrase.

use vstd::prelude::*;
use vstd::utf8::{encode_utf8, encode_utf8_decode_utf8, is_ascii_chars, is_ascii_chars_encode_utf8};

use crate::calendar::{
    date_exists, date_with_number, first_day_number, last_day_number,
    law_every_day_number_is_a_date, lemma_day_number_bounds, CalendarDate, CalendarDateTime,
};
use crate::error::ResolveError;
use crate::grammar::{
    date_phrase_shape, decimal_value, delta_phrase_shape, field_value, lemma_decimal_value_bound,
    time_value, written_count, PatternMatch, RawDate, RawTime, Span, WrittenYear, DAY_COUNT_CAP,
};
use crate::render::{default_text, digit_char};
use crate::resolver::{
    clock_time, date_time_resolution, delta_resolution, lemma_lunar_resolution_valid,
    raw_date_resolution, LUNAR_ATTEMPTS,
};
use crate::substitute::{
    date_phrase_resolution, delta_phrase_resolution, rendered, replacement_at, span_in_place,
    substitution_from, text_between,
};

verus! {

/// A date that is written with its year and exists resolves to itself, at the
/// time written or at midnight, whatever today's date and whether or not the
/// next occurrence is asked for.
pub proof fn law_written_date_is_kept(
    year: u32,
    month: u32,
    day: u32,
    time: Option<RawTime>,
    infer_next: bool,
    today: CalendarDate,
)
    requires
        date_exists(year as int, month as int, day as int),
        clock_time(time).hour <= 23,
        clock_time(time).minute <= 59,
    ensures
        raw_date_resolution(
            RawDate { year: WrittenYear::Full(year), month, day, time },
            false,
            infer_next,
            today,
        ) == Ok::<CalendarDateTime, ResolveError>(
            CalendarDateTime {
                date: CalendarDate { year: year as i32, month, day },
                hour: clock_time(time).hour,
                minute: clock_time(time).minute,
            },
        ),
{
}

/// A phrase of the text with a year of four digits and a time, whose date
/// exists and whose time is one of the clock, resolves on the solar calendar
/// to the date-time that its digits write.
pub proof fn law_absolute_phrase_is_kept(
    bytes: Seq<u8>,
    m: PatternMatch,
    infer_next: bool,
    today: CalendarDate,
)
    requires
        date_phrase_shape(bytes, m),
        m.first is Some,
        (m.first->0).end - (m.first->0).start == 4,
        m.fourth is Some,
        date_exists(
            field_value(bytes, m.first->0) as int,
            field_value(bytes, m.second->0) as int,
            field_value(bytes, m.third->0) as int,
        ),
        field_value(bytes, m.fourth->0) <= 23,
        field_value(bytes, m.fifth->0) <= 59,
    ensures
        date_phrase_resolution(bytes, m, false, infer_next, today) == Ok::<
            CalendarDateTime,
            ResolveError,
        >(
            CalendarDateTime {
                date: CalendarDate {
                    year: field_value(bytes, m.first->0) as i32,
                    month: field_value(bytes, m.second->0) as u32,
                    day: field_value(bytes, m.third->0) as u32,
                },
                hour: field_value(bytes, m.fourth->0) as u32,
                minute: field_value(bytes, m.fifth->0) as u32,
            },
        ),
{
    lemma_decimal_value_bound(bytes, (m.first->0).start as int, (m.first->0).end as int);
}

/// A date without a year whose month and day lie before today's resolves on
/// the solar calendar to the next year where the next occurrence is asked for,
/// as long as the date exists in this year and in the next.
pub proof fn law_past_partial_date_moves_to_next_year(
    month: u32,
    day: u32,
    time: Option<RawTime>,
    today: CalendarDate,
)
    requires
        today.valid(),
        month < today.month || (month == today.month && day < today.day),
        date_exists(today.year as int, month as int, day as int),
        date_exists(today.year + 1, month as int, day as int),
        clock_time(time).hour <= 23,
        clock_time(time).minute <= 59,
    ensures
        raw_date_resolution(
            RawDate { year: WrittenYear::Absent, month, day, time },
            false,
            true,
            today,
        ) == Ok::<CalendarDateTime, ResolveError>(
            CalendarDateTime {
                date: CalendarDate { year: (today.year + 1) as i32, month, day },
                hour: clock_time(time).hour,
                minute: clock_time(time).minute,
            },
        ),
{
}

/// A date without a year resolves on the solar calendar to this year where
/// the next occurrence is not asked for, as long as the date exists in this
/// year.
pub proof fn law_partial_date_stays_without_inference(
    month: u32,
    day: u32,
    time: Option<RawTime>,
    today: CalendarDate,
)
    requires
        date_exists(today.year as int, month as int, day as int),
        clock_time(time).hour <= 23,
        clock_time(time).minute <= 59,
    ensures
        raw_date_resolution(
            RawDate { year: WrittenYear::Absent, month, day, time },
            false,
            false,
            today,
        ) == Ok::<CalendarDateTime, ResolveError>(
            CalendarDateTime {
                date: CalendarDate { year: today.year, month, day },
                hour: clock_time(time).hour,
                minute: clock_time(time).minute,
            },
        ),
{
}

/// A date without a year whose month and day are today's or lie after them
/// resolves on the solar calendar to this year, also where the next occurrence
/// is asked for, as long as the date exists in this year.
pub proof fn law_coming_partial_date_stays_in_the_year(
    month: u32,
    day: u32,
    time: Option<RawTime>,
    infer_next: bool,
    today: CalendarDate,
)
    requires
        month > today.month || (month == today.month && day >= today.day),
        date_exists(today.year as int, month as int, day as int),
        clock_time(time).hour <= 23,
        clock_time(time).minute <= 59,
    ensures
        raw_date_resolution(
            RawDate { year: WrittenYear::Absent, month, day, time },
            false,
            infer_next,
            today,
        ) == Ok::<CalendarDateTime, ResolveError>(
            CalendarDateTime {
                date: CalendarDate { year: today.year, month, day },
                hour: clock_time(time).hour,
                minute: clock_time(time).minute,
            },
        ),
{
}

/// Where the next occurrence is asked for, a date without a year never
/// resolves to a day before today, on either calendar; and what a date
/// resolves to is a minute of a day of the calendar.
pub proof fn law_next_occurrence_is_not_in_the_past(
    raw: RawDate,
    lunar: bool,
    infer_next: bool,
    today: CalendarDate,
)
    requires
        today.valid(),
    ensures
        raw_date_resolution(raw, lunar, infer_next, today) matches Ok(datetime) ==> datetime.valid()
            && (raw.year is Absent && infer_next ==> !datetime.date.precedes(today)),
{
    lemma_lunar_resolution_valid(
        today.year as int,
        raw.month as int,
        raw.day as int,
        infer_next,
        today,
        LUNAR_ATTEMPTS as nat,
    );
    match raw.year {
        WrittenYear::Absent => {},
        WrittenYear::Short(n) => {
            lemma_lunar_resolution_valid(
                2000 + n,
                raw.month as int,
                raw.day as int,
                false,
                today,
                LUNAR_ATTEMPTS as nat,
            );
        },
        WrittenYear::Full(n) => {
            lemma_lunar_resolution_valid(
                n as int,
                raw.month as int,
                raw.day as int,
                false,
                today,
                LUNAR_ATTEMPTS as nat,
            );
        },
    }
}

/// A count of days resolves to midnight of the day that lies that many days
/// after today, or before it for a negative count: `-1` to the start of
/// yesterday, `1` to the start of tomorrow.  It fails exactly where that day
/// lies outside the calendar.
pub proof fn law_offset_counts_days_from_today(days: int, today: CalendarDate)
    requires
        today.valid(),
    ensures
        first_day_number() <= today.day_number() + days <= last_day_number() ==> (delta_resolution(
            days,
            None,
            today,
        ) matches Ok(datetime) && datetime.valid() && datetime.date.day_number()
            == today.day_number() + days && datetime.hour == 0 && datetime.minute == 0),
        !(first_day_number() <= today.day_number() + days <= last_day_number())
            ==> delta_resolution(days, None, today) == Err::<CalendarDateTime, ResolveError>(
            ResolveError::ArithmeticOverflow,
        ),
{
    if first_day_number() <= today.day_number() + days <= last_day_number() {
        law_every_day_number_is_a_date(today.day_number() + days);
    }
}

/// A count of days with a time resolves to that time of the day that the
/// count alone resolves to: the hour and the minute are set, not added.
pub proof fn law_offset_time_is_set(days: int, time: RawTime, today: CalendarDate)
    requires
        today.valid(),
        time.hour <= 23,
        time.minute <= 59,
        first_day_number() <= today.day_number() + days <= last_day_number(),
    ensures
        delta_resolution(days, Some(time), today) == Ok::<CalendarDateTime, ResolveError>(
            CalendarDateTime {
                date: date_with_number(today.day_number() + days),
                hour: time.hour,
                minute: time.minute,
            },
        ),
        delta_resolution(days, None, today) == Ok::<CalendarDateTime, ResolveError>(
            CalendarDateTime {
                date: date_with_number(today.day_number() + days),
                hour: 0,
                minute: 0,
            },
        ),
{
}

/// A count of days of the size of `DAY_COUNT_CAP` or more leaves the calendar
/// from every day of it.
pub proof fn law_count_at_the_cap_overflows(days: int, time: Option<RawTime>, today: CalendarDate)
    requires
        today.valid(),
        days >= DAY_COUNT_CAP || days <= -DAY_COUNT_CAP,
    ensures
        delta_resolution(days, time, today) == Err::<CalendarDateTime, ResolveError>(
            if clock_time(time).hour > 23 || clock_time(time).minute > 59 {
                ResolveError::InvalidTimeComponent
            } else {
                ResolveError::ArithmeticOverflow
            },
        ),
{
    lemma_day_number_bounds(today);
}

/// A relative phrase of the text resolves as the count of days that its digits
/// write, however many they are: that a count above `DAY_COUNT_CAP` is read as
/// the cap changes no outcome.
pub proof fn law_delta_phrase_counts_its_digits(bytes: Seq<u8>, m: PatternMatch, today: CalendarDate)
    requires
        today.valid(),
        delta_phrase_shape(bytes, m),
    ensures
        delta_phrase_resolution(bytes, m, today) == delta_resolution(
            written_count(bytes, m.first->0),
            time_value(bytes, m.second, m.third),
            today,
        ),
{
    let time = time_value(bytes, m.second, m.third);
    let written = written_count(bytes, m.first->0);
    if written >= DAY_COUNT_CAP || written <= -DAY_COUNT_CAP {
        law_count_at_the_cap_overflows(written, time, today);
        if written >= DAY_COUNT_CAP {
            law_count_at_the_cap_overflows(DAY_COUNT_CAP as int, time, today);
        } else {
            law_count_at_the_cap_overflows(-(DAY_COUNT_CAP as int), time, today);
        }
    }
}

/// An hour above 23 or a minute above 59 is an invalid time component,
/// whatever the date, the calendar and today's date: the time is never
/// wrapped into the next hour or day.
pub proof fn law_time_out_of_range_is_rejected(
    year: int,
    month: int,
    day: int,
    hour: int,
    minute: int,
    lunar: bool,
    roll: bool,
    today: CalendarDate,
)
    requires
        hour > 23 || minute > 59,
    ensures
        date_time_resolution(year, month, day, hour, minute, lunar, roll, today) == Err::<
            CalendarDateTime,
            ResolveError,
        >(ResolveError::InvalidTimeComponent),
{
}

/// A date phrase of the text whose hour is above 23 or whose minute is above
/// 59 is an invalid time component, whatever its date.
pub proof fn law_date_phrase_time_out_of_range(
    bytes: Seq<u8>,
    m: PatternMatch,
    lunar: bool,
    infer_next: bool,
    today: CalendarDate,
)
    requires
        date_phrase_shape(bytes, m),
        m.fourth is Some,
        field_value(bytes, m.fourth->0) > 23 || field_value(bytes, m.fifth->0) > 59,
    ensures
        date_phrase_resolution(bytes, m, lunar, infer_next, today) == Err::<
            CalendarDateTime,
            ResolveError,
        >(ResolveError::InvalidTimeComponent),
{
    lemma_decimal_value_bound(bytes, (m.fourth->0).start as int, (m.fourth->0).end as int);
    lemma_decimal_value_bound(bytes, (m.fifth->0).start as int, (m.fifth->0).end as int);
}

/// A relative phrase of the text whose hour is above 23 or whose minute is
/// above 59 is an invalid time component, whatever its count of days.
pub proof fn law_delta_phrase_time_out_of_range(bytes: Seq<u8>, m: PatternMatch, today: CalendarDate)
    requires
        delta_phrase_shape(bytes, m),
        m.second is Some,
        field_value(bytes, m.second->0) > 23 || field_value(bytes, m.third->0) > 59,
    ensures
        delta_phrase_resolution(bytes, m, today) == Err::<CalendarDateTime, ResolveError>(
            ResolveError::InvalidTimeComponent,
        ),
{
    lemma_decimal_value_bound(bytes, (m.second->0).start as int, (m.second->0).end as int);
    lemma_decimal_value_bound(bytes, (m.third->0).start as int, (m.third->0).end as int);
}

/// A text in which no date phrase was found is left as it is.
pub proof fn law_text_without_phrase_is_unchanged(
    text: Seq<char>,
    lunar: bool,
    infer_next: bool,
    format: Option<Seq<char>>,
    today: CalendarDate,
)
    ensures
        substitution_from(
            encode_utf8(text),
            Seq::<PatternMatch>::empty(),
            0,
            0,
            lunar,
            infer_next,
            format,
            today,
        ) == Ok::<Seq<char>, ResolveError>(text),
{
    let bytes = encode_utf8(text);
    assert(bytes.subrange(0, bytes.len() as int) =~= bytes);
    encode_utf8_decode_utf8(text);
}

/// Substitution leaves the text outside the matches untouched and resolves
/// every match on its own, with the same settings and the same today: where
/// the substitution from a match on succeeds, the match lies in the text at
/// or after the place reached, it resolves and is written, and the outcome
/// is the text before the match as it was, then the text of its date-time,
/// then the substitution from the next match on.
pub proof fn law_substitution_replaces_each_match(
    bytes: Seq<u8>,
    matches: Seq<PatternMatch>,
    index: int,
    from: int,
    lunar: bool,
    infer_next: bool,
    format: Option<Seq<char>>,
    today: CalendarDate,
)
    requires
        0 <= index < matches.len(),
        substitution_from(bytes, matches, index, from, lunar, infer_next, format, today) is Ok,
    ensures
        ({
            let m = matches[index];
            let replacement = rendered(
                date_phrase_resolution(bytes, m, lunar, infer_next, today),
                format,
            );
            let rest = substitution_from(
                bytes,
                matches,
                index + 1,
                (m.whole->0).end as int,
                lunar,
                infer_next,
                format,
                today,
            );
            &&& m.whole is Some
            &&& span_in_place(bytes, m.whole->0, from)
            &&& replacement is Ok
            &&& rest is Ok
            &&& substitution_from(bytes, matches, index, from, lunar, infer_next, format, today)
                == Ok::<Seq<char>, ResolveError>(
                text_between(bytes, from, (m.whole->0).start as int) + replacement->Ok_0
                    + rest->Ok_0,
            )
        }),
{
    reveal(replacement_at);
}

/// Substitution fails as a whole: where a match is out of place, does not
/// resolve or cannot be written, the substitution from that match on is its
/// error, and so is every substitution that reaches it.
pub proof fn law_substitution_fails_as_a_whole(
    bytes: Seq<u8>,
    matches: Seq<PatternMatch>,
    index: int,
    from: int,
    lunar: bool,
    infer_next: bool,
    format: Option<Seq<char>>,
    today: CalendarDate,
)
    requires
        0 <= index < matches.len(),
        replacement_at(bytes, matches[index], from, lunar, infer_next, format, today) is Err,
    ensures
        substitution_from(bytes, matches, index, from, lunar, infer_next, format, today) == Err::<
            Seq<char>,
            ResolveError,
        >(
            replacement_at(bytes, matches[index], from, lunar, infer_next, format, today)->Err_0,
        ),
{
}

/// Where the numbers of a date-time stand in its default text, as a match of
/// the date grammar: the year in the first four bytes, then, each after a
/// separator, the month, the day, the hour and the minute in two bytes each.
pub open spec fn default_text_match() -> PatternMatch {
    PatternMatch {
        whole: Some(Span { start: 0, end: 16 }),
        first: Some(Span { start: 0, end: 4 }),
        second: Some(Span { start: 5, end: 7 }),
        third: Some(Span { start: 8, end: 10 }),
        fourth: Some(Span { start: 11, end: 13 }),
        fifth: Some(Span { start: 14, end: 16 }),
    }
}

/// The two digits of a number below 100 are ASCII digits that write it.
proof fn lemma_two_digits_read_back(bytes: Seq<u8>, at: int, n: int)
    requires
        0 <= n < 100,
        0 <= at,
        at + 2 <= bytes.len(),
        bytes[at] == digit_char(n / 10) as u8,
        bytes[at + 1] == digit_char(n % 10) as u8,
    ensures
        0x30 <= bytes[at] <= 0x39,
        0x30 <= bytes[at + 1] <= 0x39,
        decimal_value(bytes, at, at + 2) == n,
        decimal_value(bytes, at, at + 1) == n / 10,
{
    reveal_with_fuel(decimal_value, 3);
}

/// Written in the default format, a date-time with a year from 0 to 9999 is a
/// date phrase with a year of four digits and a time, its numbers at the
/// places of `default_text_match`; read there on the solar calendar, the text
/// resolves to the same date-time, whatever today's date.
pub proof fn law_default_text_reads_back(
    datetime: CalendarDateTime,
    infer_next: bool,
    today: CalendarDate,
)
    requires
        datetime.valid(),
        0 <= datetime.date.year <= 9999,
    ensures
        date_phrase_shape(encode_utf8(default_text(datetime)), default_text_match()),
        date_phrase_resolution(
            encode_utf8(default_text(datetime)),
            default_text_match(),
            false,
            infer_next,
            today,
        ) == Ok::<CalendarDateTime, ResolveError>(datetime),
{
    let text = default_text(datetime);
    let bytes = encode_utf8(text);
    let year = datetime.date.year as int;
    let month = datetime.date.month as int;
    let day = datetime.date.day as int;
    let hour = datetime.hour as int;
    let minute = datetime.minute as int;
    assert(text =~= seq![
        digit_char(year / 100 / 10),
        digit_char(year / 100 % 10),
        digit_char(year % 100 / 10),
        digit_char(year % 100 % 10),
        '-',
        digit_char(month / 10),
        digit_char(month % 10),
        '-',
        digit_char(day / 10),
        digit_char(day % 10),
        ' ',
        digit_char(hour / 10),
        digit_char(hour % 10),
        ':',
        digit_char(minute / 10),
        digit_char(minute % 10),
    ]);
    assert(is_ascii_chars(text));
    is_ascii_chars_encode_utf8(text);
    assert(bytes.len() == 16);
    assert(bytes[4] == 0x2D && bytes[7] == 0x2D && bytes[10] == 0x20 && bytes[13] == 0x3A) by {
        assert(bytes[4] == text[4] as u8);
        assert(bytes[7] == text[7] as u8);
        assert(bytes[10] == text[10] as u8);
        assert(bytes[13] == text[13] as u8);
    }
    assert(bytes[0] == text[0] as u8 && bytes[1] == text[1] as u8 && bytes[2] == text[2] as u8
        && bytes[3] == text[3] as u8);
    assert(bytes[5] == text[5] as u8 && bytes[6] == text[6] as u8);
    assert(bytes[8] == text[8] as u8 && bytes[9] == text[9] as u8);
    assert(bytes[11] == text[11] as u8 && bytes[12] == text[12] as u8);
    assert(bytes[14] == text[14] as u8 && bytes[15] == text[15] as u8);
    lemma_two_digits_read_back(bytes, 0, year / 100);
    lemma_two_digits_read_back(bytes, 2, year % 100);
    lemma_two_digits_read_back(bytes, 5, month);
    lemma_two_digits_read_back(bytes, 8, day);
    lemma_two_digits_read_back(bytes, 11, hour);
    lemma_two_digits_read_back(bytes, 14, minute);
    assert(decimal_value(bytes, 0, 4) == year) by {
        reveal_with_fuel(decimal_value, 3);
    }
    law_absolute_phrase_is_kept(bytes, default_text_match(), infer_next, today);
}

} // verus!
