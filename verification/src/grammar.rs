//! The two phrase grammars and the reading of what they report.
//!
//! The grammars are regular expressions, matched by the `regex` crate.  What it
//! reports is a list of spans: byte offsets into the text.  Nothing is taken
//! on trust from those spans: before a number is read from the text, the
//! spans are held against the shape that the grammar describes, digit by
//! digit and separator by separator.

use vstd::prelude::*;

verus! {

/// The absolute and partial dates: an optional year of two or four digits and
/// a separator, a month, a separator, a day, and optionally a space, an hour,
/// a colon and a minute.  The separator is `/` or `-`.
pub const DATE_PATTERN: &'static str =
    "(?:\\b(\\d{2}{1,2})[/-])?\\b(\\d{1,2})[/-](\\d{1,2})(?: (\\d{1,2}):(\\d{2}))?";

/// The relative offsets: an integer with an optional sign, optionally followed
/// by a space, an hour, a colon and a minute; it is all of the text but for
/// white space around it.
pub const DELTA_PATTERN: &'static str = "^\\s*([+-]?\\d+)(?: (\\d{1,2}):(\\d{2}))?\\s*$";

/// Above every day count that can stay within the calendar; a larger count is
/// read as this one.
pub const DAY_COUNT_CAP: u64 = 1_000_000_000;

/// A stretch of the text, from the byte at `start` up to the byte before `end`.
#[derive(Clone, Copy, Debug, PartialEq, Eq, Structural)]
pub struct Span {
    pub start: usize,
    pub end: usize,
}

/// One match of a pattern: the span of the whole match and those of its first
/// five groups, each absent where the group took no part in the match.
#[derive(Clone, Copy, Debug)]
pub struct PatternMatch {
    pub whole: Option<Span>,
    pub first: Option<Span>,
    pub second: Option<Span>,
    pub third: Option<Span>,
    pub fourth: Option<Span>,
    pub fifth: Option<Span>,
}

/// The year as it was written.
#[derive(Clone, Copy, Debug, PartialEq, Eq, Structural)]
pub enum WrittenYear {
    /// No year was written.
    Absent,
    /// Two digits, with their value.
    Short(u32),
    /// Four digits, with their value.
    Full(u32),
}

/// An hour and a minute as they were written, not yet held against the clock.
#[derive(Clone, Copy, Debug, PartialEq, Eq, Structural)]
pub struct RawTime {
    pub hour: u32,
    pub minute: u32,
}

/// The numbers of an absolute or partial date phrase.
#[derive(Clone, Copy, Debug, PartialEq, Eq, Structural)]
pub struct RawDate {
    pub year: WrittenYear,
    pub month: u32,
    pub day: u32,
    pub time: Option<RawTime>,
}

/// The numbers of a relative phrase.  A count of days whose size is above
/// `DAY_COUNT_CAP` is held as the cap, with its sign.
#[derive(Clone, Copy, Debug, PartialEq, Eq, Structural)]
pub struct RawDelta {
    pub days: i64,
    pub time: Option<RawTime>,
}

/// What pattern recognition yields: the numbers of a phrase of one of the two
/// families.
#[derive(Clone, Copy, Debug, PartialEq, Eq, Structural)]
pub enum RawMatch {
    Date(RawDate),
    Delta(RawDelta),
}

/// The successive non-overlapping matches of a regular expression in a text,
/// from left to right, as the `regex` crate finds them; `None` where the
/// pattern is no regular expression that the crate accepts.
pub uninterp spec fn pattern_matches(pattern: Seq<char>, text: Seq<char>) -> Option<
    Seq<PatternMatch>,
>;

#[verifier::external_type_specification]
#[verifier::external_body]
pub struct ExRegexError(regex::Error);

/// Compiles `pattern` with `regex::Regex::new` and collects what
/// `Regex::captures_iter` yields on `text`: for each match the byte offsets,
/// from `Match::start` and `Match::end`, of the whole match and of the groups
/// one to five as `Captures::get` gives them.  The contract gives the outcome
/// its name, `pattern_matches`, and claims nothing else of it.
#[verifier::external_body]
pub(crate) fn find_matches(pattern: &str, text: &str) -> (found: Result<
    Vec<PatternMatch>,
    regex::Error,
>)
    ensures
        match found {
            Ok(list) => pattern_matches(pattern@, text@) == Some(list@),
            Err(_) => pattern_matches(pattern@, text@) is None,
        },
{
    let compiled = regex::Regex::new(pattern)?;
    let span = |m: regex::Match| Span { start: m.start(), end: m.end() };
    let spans = |c: regex::Captures| PatternMatch {
        whole: c.get(0).map(span),
        first: c.get(1).map(span),
        second: c.get(2).map(span),
        third: c.get(3).map(span),
        fourth: c.get(4).map(span),
        fifth: c.get(5).map(span),
    };
    Ok(compiled.captures_iter(text).map(spans).collect())
}

/// An ASCII digit.
pub open spec fn is_digit(b: u8) -> bool {
    0x30 <= b <= 0x39
}

/// A date separator: `/` or `-`.
pub open spec fn is_separator(b: u8) -> bool {
    b == 0x2F || b == 0x2D
}

/// The bytes from `start` up to `end` lie in the text and are all digits.
pub open spec fn all_digits(bytes: Seq<u8>, start: int, end: int) -> bool {
    &&& 0 <= start <= end <= bytes.len()
    &&& forall|i: int| start <= i < end ==> is_digit(#[trigger] bytes[i])
}

/// The number that the digits from `start` up to `end` write in base ten.
pub open spec fn decimal_value(bytes: Seq<u8>, start: int, end: int) -> nat
    decreases end - start,
{
    if end <= start {
        0
    } else {
        (decimal_value(bytes, start, end - 1) * 10 + (bytes[end - 1] - 0x30)) as nat
    }
}

/// A count of days, cut off at `DAY_COUNT_CAP`.
pub open spec fn capped(n: nat) -> nat {
    if n > DAY_COUNT_CAP {
        DAY_COUNT_CAP as nat
    } else {
        n
    }
}

/// The span is a run of at least `least` and at most `most` digits.
pub open spec fn number_field(bytes: Seq<u8>, span: Span, least: int, most: int) -> bool {
    &&& all_digits(bytes, span.start as int, span.end as int)
    &&& least <= span.end - span.start <= most
}

/// The value of a number field.
pub open spec fn field_value(bytes: Seq<u8>, span: Span) -> nat {
    decimal_value(bytes, span.start as int, span.end as int)
}

/// The optional year and what follows it: the year is two or four digits at
/// the start of the phrase, followed by a separator and then the month;
/// without a year the phrase starts with the month.
pub open spec fn year_part(bytes: Seq<u8>, whole: Span, year: Option<Span>, month: Span) -> bool {
    match year {
        Some(y) => {
            &&& y.start == whole.start
            &&& number_field(bytes, y, 2, 4)
            &&& y.end - y.start != 3
            &&& y.end < bytes.len()
            &&& is_separator(bytes[y.end as int])
            &&& month.start == y.end + 1
        },
        None => month.start == whole.start,
    }
}

/// The month, a separator and the day: one or two digits each.
pub open spec fn day_part(bytes: Seq<u8>, month: Span, day: Span) -> bool {
    &&& number_field(bytes, month, 1, 2)
    &&& month.end < bytes.len()
    &&& is_separator(bytes[month.end as int])
    &&& day.start == month.end + 1
    &&& number_field(bytes, day, 1, 2)
}

/// The optional time after the byte offset `after`: a space, an hour of one or
/// two digits, a colon and a minute of two digits; or neither group.
pub open spec fn time_part(bytes: Seq<u8>, after: int, hour: Option<Span>, minute: Option<Span>) -> bool {
    match (hour, minute) {
        (Some(h), Some(m)) => {
            &&& 0 <= after < bytes.len()
            &&& bytes[after] == 0x20
            &&& h.start == after + 1
            &&& number_field(bytes, h, 1, 2)
            &&& h.end < bytes.len()
            &&& bytes[h.end as int] == 0x3A
            &&& m.start == h.end + 1
            &&& number_field(bytes, m, 2, 2)
        },
        (None, None) => true,
        _ => false,
    }
}

/// Where a phrase ends whose time part starts after the byte offset `after`.
pub open spec fn time_end(after: int, minute: Option<Span>) -> int {
    match minute {
        Some(m) => m.end as int,
        None => after,
    }
}

/// The time that the two groups write, if they are there.
pub open spec fn time_value(bytes: Seq<u8>, hour: Option<Span>, minute: Option<Span>) -> Option<
    RawTime,
> {
    match (hour, minute) {
        (Some(h), Some(m)) => Some(
            RawTime { hour: field_value(bytes, h) as u32, minute: field_value(bytes, m) as u32 },
        ),
        _ => None,
    }
}

/// The match has the shape of an absolute or partial date in the text: the
/// groups are the year, the month, the day, the hour and the minute, and the
/// whole match is those with their separators and nothing else.
pub open spec fn date_phrase_shape(bytes: Seq<u8>, m: PatternMatch) -> bool {
    &&& m.whole is Some
    &&& m.second is Some
    &&& m.third is Some
    &&& year_part(bytes, m.whole->0, m.first, m.second->0)
    &&& day_part(bytes, m.second->0, m.third->0)
    &&& time_part(bytes, (m.third->0).end as int, m.fourth, m.fifth)
    &&& (m.whole->0).end == time_end((m.third->0).end as int, m.fifth)
}

/// The year that the group writes.
pub open spec fn year_value(bytes: Seq<u8>, year: Option<Span>) -> WrittenYear {
    match year {
        Some(y) => if y.end - y.start == 2 {
            WrittenYear::Short(field_value(bytes, y) as u32)
        } else {
            WrittenYear::Full(field_value(bytes, y) as u32)
        },
        None => WrittenYear::Absent,
    }
}

/// The numbers of a match that has the shape of a date.
pub open spec fn raw_date_of(bytes: Seq<u8>, m: PatternMatch) -> RawDate {
    RawDate {
        year: year_value(bytes, m.first),
        month: field_value(bytes, m.second->0) as u32,
        day: field_value(bytes, m.third->0) as u32,
        time: time_value(bytes, m.fourth, m.fifth),
    }
}

/// Where the digits of a count of days start: after its sign, if it has one.
pub open spec fn count_digits_start(bytes: Seq<u8>, count: Span) -> int {
    if count.start < bytes.len() && (bytes[count.start as int] == 0x2B || bytes[count.start as int]
        == 0x2D) {
        count.start + 1
    } else {
        count.start as int
    }
}

/// The span is a count of days: an optional `+` or `-` and one digit or more.
pub open spec fn count_field(bytes: Seq<u8>, count: Span) -> bool {
    &&& count_digits_start(bytes, count) < count.end
    &&& all_digits(bytes, count_digits_start(bytes, count), count.end as int)
}

/// The count of days that the span writes, with its sign.
pub open spec fn written_count(bytes: Seq<u8>, count: Span) -> int {
    let size = decimal_value(bytes, count_digits_start(bytes, count), count.end as int);
    if bytes[count.start as int] == 0x2D {
        -size
    } else {
        size as int
    }
}

/// The count of days that the span writes, cut off at `DAY_COUNT_CAP` on
/// either side of zero.
pub open spec fn count_value(bytes: Seq<u8>, count: Span) -> int {
    let size = capped(decimal_value(bytes, count_digits_start(bytes, count), count.end as int));
    if bytes[count.start as int] == 0x2D {
        -size
    } else {
        size as int
    }
}

/// The match has the shape of a relative offset in the text: the first group
/// is the count of days, the second and third the hour and the minute.  That
/// the phrase is all of the text is for the pattern to decide.
pub open spec fn delta_phrase_shape(bytes: Seq<u8>, m: PatternMatch) -> bool {
    &&& m.first is Some
    &&& count_field(bytes, m.first->0)
    &&& time_part(bytes, (m.first->0).end as int, m.second, m.third)
}

/// The numbers of a match that has the shape of a relative offset.
pub open spec fn raw_delta_of(bytes: Seq<u8>, m: PatternMatch) -> RawDelta {
    RawDelta {
        days: count_value(bytes, m.first->0) as i64,
        time: time_value(bytes, m.second, m.third),
    }
}

/// Digits write a number below the power of ten of their count.
pub proof fn lemma_decimal_value_bound(bytes: Seq<u8>, start: int, end: int)
    requires
        all_digits(bytes, start, end),
    ensures
        end - start <= 1 ==> decimal_value(bytes, start, end) < 10,
        end - start <= 2 ==> decimal_value(bytes, start, end) < 100,
        end - start <= 3 ==> decimal_value(bytes, start, end) < 1000,
        end - start <= 4 ==> decimal_value(bytes, start, end) < 10000,
{
    reveal_with_fuel(decimal_value, 5);
}

/// Reads the digits from `start` up to `end`: their value, cut off at
/// `DAY_COUNT_CAP`, where they lie in the text and are all digits.
pub fn read_number(bytes: &[u8], start: usize, end: usize) -> (value: Option<u64>)
    ensures
        value is Some <==> all_digits(bytes@, start as int, end as int),
        value matches Some(v) ==> v == capped(decimal_value(bytes@, start as int, end as int)),
{
    if start > end || end > bytes.len() {
        return None;
    }
    let mut total: u64 = 0;
    let mut i: usize = start;
    while i < end
        invariant
            start <= i <= end <= bytes.len(),
            all_digits(bytes@, start as int, i as int),
            total == capped(decimal_value(bytes@, start as int, i as int)),
        decreases end - i,
    {
        let b: u8 = bytes[i];
        if b < 0x30 || b > 0x39 {
            return None;
        }
        let next: u64 = total * 10 + (b - 0x30) as u64;
        total = if next > DAY_COUNT_CAP {
            DAY_COUNT_CAP
        } else {
            next
        };
        i = i + 1;
    }
    Some(total)
}

/// Reads a number field of at least `least` and at most `most` digits, four at
/// most.
pub fn read_field(bytes: &[u8], span: Span, least: usize, most: usize) -> (value: Option<u32>)
    requires
        most <= 4,
    ensures
        value is Some <==> number_field(bytes@, span, least as int, most as int),
        value matches Some(v) ==> v == field_value(bytes@, span) && v < 10000,
{
    if span.start > span.end || span.end - span.start < least || span.end - span.start > most {
        return None;
    }
    match read_number(bytes, span.start, span.end) {
        Some(v) => {
            proof {
                lemma_decimal_value_bound(bytes@, span.start as int, span.end as int);
            }
            Some(v as u32)
        },
        None => None,
    }
}

/// Reads the optional time after the byte offset `after`.  The outer `None`
/// says that the groups do not have the shape of a time.
pub fn read_time(bytes: &[u8], after: usize, hour: Option<Span>, minute: Option<Span>) -> (time:
    Option<Option<RawTime>>)
    ensures
        time is Some <==> time_part(bytes@, after as int, hour, minute),
        time matches Some(t) ==> t == time_value(bytes@, hour, minute),
{
    match (hour, minute) {
        (Some(h), Some(m)) => {
            if after >= bytes.len() || bytes[after] != 0x20 || h.start != after + 1 {
                return None;
            }
            let hour_value = match read_field(bytes, h, 1, 2) {
                Some(v) => v,
                None => { return None; },
            };
            if h.end >= bytes.len() || bytes[h.end] != 0x3A || m.start != h.end + 1 {
                return None;
            }
            match read_field(bytes, m, 2, 2) {
                Some(minute_value) => Some(Some(RawTime { hour: hour_value, minute: minute_value })),
                None => None,
            }
        },
        (None, None) => Some(None),
        _ => None,
    }
}

/// Reads the optional year at the start of a phrase.  `None` says that the
/// group does not have the shape of a year followed by the month.
pub fn read_year(bytes: &[u8], whole: Span, year: Option<Span>, month: Span) -> (written: Option<
    WrittenYear,
>)
    ensures
        written is Some <==> year_part(bytes@, whole, year, month),
        written matches Some(w) ==> w == year_value(bytes@, year),
{
    match year {
        Some(y) => {
            if y.start != whole.start {
                return None;
            }
            let value = match read_field(bytes, y, 2, 4) {
                Some(v) => v,
                None => { return None; },
            };
            if y.end - y.start == 3 || y.end >= bytes.len() {
                return None;
            }
            let b: u8 = bytes[y.end];
            if (b != 0x2F && b != 0x2D) || month.start != y.end + 1 {
                return None;
            }
            if y.end - y.start == 2 {
                Some(WrittenYear::Short(value))
            } else {
                Some(WrittenYear::Full(value))
            }
        },
        None => {
            if month.start == whole.start {
                Some(WrittenYear::Absent)
            } else {
                None
            }
        },
    }
}

/// Reads the numbers of an absolute or partial date from a match, where the
/// match has the shape of one.
pub fn decode_date(bytes: &[u8], m: &PatternMatch) -> (raw: Option<RawDate>)
    ensures
        raw is Some <==> date_phrase_shape(bytes@, *m),
        raw matches Some(r) ==> r == raw_date_of(bytes@, *m),
{
    let (whole, month, day) = match (m.whole, m.second, m.third) {
        (Some(w), Some(mo), Some(d)) => (w, mo, d),
        _ => { return None; },
    };
    let year = match read_year(bytes, whole, m.first, month) {
        Some(y) => y,
        None => { return None; },
    };
    let month_value = match read_field(bytes, month, 1, 2) {
        Some(v) => v,
        None => { return None; },
    };
    if month.end >= bytes.len() {
        return None;
    }
    let b: u8 = bytes[month.end];
    if (b != 0x2F && b != 0x2D) || day.start != month.end + 1 {
        return None;
    }
    let day_value = match read_field(bytes, day, 1, 2) {
        Some(v) => v,
        None => { return None; },
    };
    let time = match read_time(bytes, day.end, m.fourth, m.fifth) {
        Some(t) => t,
        None => { return None; },
    };
    let end = match m.fifth {
        Some(minute) => minute.end,
        None => day.end,
    };
    if whole.end != end {
        return None;
    }
    Some(RawDate { year, month: month_value, day: day_value, time })
}

/// Reads the numbers of a relative offset from a match, where the match has
/// the shape of one.
pub fn decode_delta(bytes: &[u8], m: &PatternMatch) -> (raw: Option<RawDelta>)
    ensures
        raw is Some <==> delta_phrase_shape(bytes@, *m),
        raw matches Some(r) ==> r == raw_delta_of(bytes@, *m),
{
    let count = match m.first {
        Some(c) => c,
        None => { return None; },
    };
    if count.start >= bytes.len() {
        return None;
    }
    let sign: u8 = bytes[count.start];
    let digits_start: usize = if sign == 0x2B || sign == 0x2D {
        count.start + 1
    } else {
        count.start
    };
    if digits_start >= count.end {
        return None;
    }
    let size = match read_number(bytes, digits_start, count.end) {
        Some(v) => v,
        None => { return None; },
    };
    let time = match read_time(bytes, count.end, m.second, m.third) {
        Some(t) => t,
        None => { return None; },
    };
    let days: i64 = if sign == 0x2D {
        -(size as i64)
    } else {
        size as i64
    };
    Some(RawDelta { days, time })
}

} // verus!
