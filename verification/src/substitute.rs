//! From the matches of a grammar in a text to date-times and to the text with
//! every date phrase replaced.
//!
//! The text is read as its UTF-8 bytes, into which the spans of a match point.
//! A match that does not have the shape of a phrase, or whose span does not lie
//! in the text where it should, is a format error: nothing is replaced on the
//! strength of a span that was not checked.

use vstd::prelude::*;
use vstd::utf8::{
    decode_utf8, encode_utf8, encode_utf8_decode_utf8, encode_utf8_valid_utf8, is_char_boundary,
    is_char_boundary_iff_not_is_continuation_byte, is_char_boundary_start_end_of_seq, valid_utf8,
    valid_utf8_split,
};

use crate::calendar::{CalendarDate, CalendarDateTime};
use crate::error::ResolveError;
use crate::grammar::{
    date_phrase_shape, decode_date, decode_delta, delta_phrase_shape, raw_date_of, raw_delta_of,
    PatternMatch, Span,
};
use crate::render::{datetime_to_string, format_view, rendering, text_view};
use crate::resolver::{
    delta_resolution, raw_date_resolution, resolve_raw_date, resolve_raw_delta,
};

verus! {

/// The date-time that a match of the date grammar resolves to: a format error
/// where the match does not have the shape of a date, and otherwise what its
/// numbers resolve to.
pub open spec fn date_phrase_resolution(
    bytes: Seq<u8>,
    m: PatternMatch,
    lunar: bool,
    infer_next: bool,
    today: CalendarDate,
) -> Result<CalendarDateTime, ResolveError> {
    if date_phrase_shape(bytes, m) {
        raw_date_resolution(raw_date_of(bytes, m), lunar, infer_next, today)
    } else {
        Err(ResolveError::FormatError)
    }
}

/// The date-time that a match of the relative grammar resolves to: a format
/// error where the match does not have the shape of an offset, and otherwise
/// what its numbers resolve to.
pub open spec fn delta_phrase_resolution(bytes: Seq<u8>, m: PatternMatch, today: CalendarDate) -> Result<
    CalendarDateTime,
    ResolveError,
> {
    if delta_phrase_shape(bytes, m) {
        delta_resolution(raw_delta_of(bytes, m).days as int, raw_delta_of(bytes, m).time, today)
    } else {
        Err(ResolveError::FormatError)
    }
}

/// The text of a date-time, or the error that there is no date-time.
pub open spec fn rendered(resolved: Result<CalendarDateTime, ResolveError>, format: Option<Seq<char>>) -> Result<
    Seq<char>,
    ResolveError,
> {
    match resolved {
        Ok(datetime) => rendering(datetime, format),
        Err(e) => Err(e),
    }
}

/// Resolves a match of the date grammar in a text to a date-time.
pub fn resolve_date_match(
    bytes: &[u8],
    m: &PatternMatch,
    lunar: bool,
    infer_next: bool,
    today: &CalendarDate,
) -> (resolved: Result<CalendarDateTime, ResolveError>)
    ensures
        resolved == date_phrase_resolution(bytes@, *m, lunar, infer_next, *today),
        resolved matches Ok(dt) ==> dt.valid(),
{
    match decode_date(bytes, m) {
        Some(raw) => resolve_raw_date(&raw, lunar, infer_next, today),
        None => Err(ResolveError::FormatError),
    }
}

/// Resolves a match of the relative grammar in a text to a date-time.
pub fn resolve_delta_match(bytes: &[u8], m: &PatternMatch, today: &CalendarDate) -> (resolved:
    Result<CalendarDateTime, ResolveError>)
    requires
        today.valid(),
    ensures
        resolved == delta_phrase_resolution(bytes@, *m, *today),
        resolved matches Ok(dt) ==> dt.valid(),
{
    match decode_delta(bytes, m) {
        Some(raw) => resolve_raw_delta(&raw, today),
        None => Err(ResolveError::FormatError),
    }
}

/// Writes a resolved date-time, or hands the error on.
pub fn render_resolved(resolved: Result<CalendarDateTime, ResolveError>, format: &Option<String>) -> (outcome:
    Result<String, ResolveError>)
    requires
        resolved matches Ok(dt) ==> dt.valid(),
    ensures
        text_view(outcome) == rendered(resolved, format_view(*format)),
{
    match resolved {
        Ok(datetime) => datetime_to_string(datetime, format),
        Err(e) => Err(e),
    }
}

/// The characters that the bytes from `from` up to `to` encode.
pub open spec fn text_between(bytes: Seq<u8>, from: int, to: int) -> Seq<char> {
    decode_utf8(bytes.subrange(from, to))
}

/// The span lies in the text, at or after the byte offset `from`, and starts
/// and ends where a character starts or the text ends.
pub open spec fn span_in_place(bytes: Seq<u8>, span: Span, from: int) -> bool {
    &&& from <= span.start <= span.end <= bytes.len()
    &&& is_char_boundary(bytes, span.start as int)
    &&& is_char_boundary(bytes, span.end as int)
}

/// The text from the byte offset `from` up to the end of a match, with the
/// match replaced by the text of the date-time that it resolves to: a format
/// error where the match is out of place, and the error of the phrase where it
/// does not resolve or cannot be written.
#[verifier::opaque]
pub open spec fn replacement_at(
    bytes: Seq<u8>,
    m: PatternMatch,
    from: int,
    lunar: bool,
    infer_next: bool,
    format: Option<Seq<char>>,
    today: CalendarDate,
) -> Result<Seq<char>, ResolveError> {
    if m.whole is Some && span_in_place(bytes, m.whole->0, from) {
        continued(
            text_between(bytes, from, (m.whole->0).start as int),
            rendered(date_phrase_resolution(bytes, m, lunar, infer_next, today), format),
        )
    } else {
        Err(ResolveError::FormatError)
    }
}

/// The text from the byte offset `from` on, with the matches from the one at
/// `index` on replaced, each by the text of the date-time that it resolves to.
/// The text between the matches and after the last one is kept as it is.  The
/// matches are taken from left to right, all with the same `today`; the first
/// one that is out of place or fails to resolve fails the whole.
pub open spec fn substitution_from(
    bytes: Seq<u8>,
    matches: Seq<PatternMatch>,
    index: int,
    from: int,
    lunar: bool,
    infer_next: bool,
    format: Option<Seq<char>>,
    today: CalendarDate,
) -> Result<Seq<char>, ResolveError>
    decreases matches.len() - index,
{
    if index < 0 || index >= matches.len() {
        Ok(text_between(bytes, from, bytes.len() as int))
    } else {
        match replacement_at(bytes, matches[index], from, lunar, infer_next, format, today) {
            Err(e) => Err(e),
            Ok(replaced) => continued(
                replaced,
                substitution_from(
                    bytes,
                    matches,
                    index + 1,
                    (matches[index].whole->0).end as int,
                    lunar,
                    infer_next,
                    format,
                    today,
                ),
            ),
        }
    }
}

/// A text that goes on with `rest`, where there is one.
pub open spec fn continued(before: Seq<char>, rest: Result<Seq<char>, ResolveError>) -> Result<
    Seq<char>,
    ResolveError,
> {
    match rest {
        Ok(text) => Ok(before + text),
        Err(e) => Err(e),
    }
}

/// In the bytes after a character boundary, the character boundaries are
/// those of the whole.
proof fn lemma_boundary_in_suffix(bytes: Seq<u8>, from: int, index: int)
    requires
        valid_utf8(bytes),
        is_char_boundary(bytes, from),
        0 <= from <= index <= bytes.len(),
    ensures
        valid_utf8(bytes.subrange(from, bytes.len() as int)),
        is_char_boundary(bytes, index) <==> is_char_boundary(
            bytes.subrange(from, bytes.len() as int),
            index - from,
        ),
{
    let suffix = bytes.subrange(from, bytes.len() as int);
    valid_utf8_split(bytes, from);
    if index < bytes.len() {
        is_char_boundary_iff_not_is_continuation_byte(bytes, index);
        is_char_boundary_iff_not_is_continuation_byte(suffix, index - from);
    } else {
        is_char_boundary_start_end_of_seq(bytes);
        is_char_boundary_start_end_of_seq(suffix);
    }
}

/// A text that goes on with the substitution from one match on goes on with
/// the replacement of that match and the substitution from the next one on.
proof fn lemma_substitution_step(
    bytes: Seq<u8>,
    matches: Seq<PatternMatch>,
    index: int,
    from: int,
    lunar: bool,
    infer_next: bool,
    format: Option<Seq<char>>,
    today: CalendarDate,
    kept: Seq<char>,
)
    requires
        0 <= index < matches.len(),
    ensures
        continued(
            kept,
            substitution_from(bytes, matches, index, from, lunar, infer_next, format, today),
        ) == match replacement_at(bytes, matches[index], from, lunar, infer_next, format, today) {
            Ok(replaced) => continued(
                kept + replaced,
                substitution_from(
                    bytes,
                    matches,
                    index + 1,
                    (matches[index].whole->0).end as int,
                    lunar,
                    infer_next,
                    format,
                    today,
                ),
            ),
            Err(e) => Err(e),
        },
{
    let step = replacement_at(bytes, matches[index], from, lunar, infer_next, format, today);
    let next = substitution_from(
        bytes,
        matches,
        index + 1,
        (matches[index].whole->0).end as int,
        lunar,
        infer_next,
        format,
        today,
    );
    if step is Ok && next is Ok {
        assert(kept + (step->Ok_0 + next->Ok_0) =~= (kept + step->Ok_0) + next->Ok_0);
    }
}

/// Appends to `out` the text from the byte offset `pos` up to the end of one
/// match, with the match replaced, and gives back what is left of the text
/// after the match.  `rest` is the text from `pos` on.
fn replace_one<'a>(
    bytes: &[u8],
    rest: &'a str,
    pos: usize,
    m: &PatternMatch,
    lunar: bool,
    infer_next: bool,
    format: &Option<String>,
    today: &CalendarDate,
    out: &mut String,
) -> (left: Result<(&'a str, usize), ResolveError>)
    requires
        valid_utf8(bytes@),
        pos <= bytes@.len(),
        is_char_boundary(bytes@, pos as int),
        encode_utf8(rest@) == bytes@.subrange(pos as int, bytes@.len() as int),
    ensures
        match replacement_at(bytes@, *m, pos as int, lunar, infer_next, format_view(*format), *today) {
            Ok(replaced) => left matches Ok((after, end)) && final(out)@ == old(out)@ + replaced
                && end == (m.whole->0).end && end <= bytes@.len() && is_char_boundary(
                bytes@,
                end as int,
            ) && encode_utf8(after@) == bytes@.subrange(end as int, bytes@.len() as int),
            Err(e) => left == Err::<(&str, usize), ResolveError>(e),
        },
{
    proof {
        reveal(replacement_at);
    }
    let whole = match m.whole {
        Some(w) => w,
        None => { return Err(ResolveError::FormatError); },
    };
    if whole.start < pos || whole.end < whole.start || whole.end > bytes.len() {
        return Err(ResolveError::FormatError);
    }
    proof {
        lemma_boundary_in_suffix(bytes@, pos as int, whole.start as int);
    }
    if !rest.is_char_boundary(whole.start - pos) {
        return Err(ResolveError::FormatError);
    }
    let (before, tail) = rest.split_at(whole.start - pos);
    proof {
        lemma_boundary_in_suffix(bytes@, whole.start as int, whole.end as int);
        assert(encode_utf8(tail@) =~= bytes@.subrange(whole.start as int, bytes@.len() as int));
        assert(encode_utf8(before@) =~= bytes@.subrange(pos as int, whole.start as int));
    }
    if !tail.is_char_boundary(whole.end - whole.start) {
        return Err(ResolveError::FormatError);
    }
    let (_, after) = tail.split_at(whole.end - whole.start);
    proof {
        assert(encode_utf8(after@) =~= bytes@.subrange(whole.end as int, bytes@.len() as int));
        encode_utf8_decode_utf8(before@);
    }
    let resolved = resolve_date_match(bytes, m, lunar, infer_next, today);
    let replacement = match render_resolved(resolved, format) {
        Ok(t) => t,
        Err(e) => { return Err(e); },
    };
    out.append(before);
    out.append(replacement.as_str());
    assert(final(out)@ =~= old(out)@ + (before@ + replacement@));
    Ok((after, whole.end))
}

/// Replaces the given matches of the date grammar in a text, each by the text
/// of the date-time that it resolves to.
pub fn substitute_matches(
    text: &str,
    matches: &Vec<PatternMatch>,
    lunar: bool,
    infer_next: bool,
    format: &Option<String>,
    today: &CalendarDate,
) -> (outcome: Result<String, ResolveError>)
    ensures
        text_view(outcome) == substitution_from(
            encode_utf8(text@),
            matches@,
            0,
            0,
            lunar,
            infer_next,
            format_view(*format),
            *today,
        ),
{
    let bytes = text.as_bytes();
    let mut out = String::new();
    let mut rest: &str = text;
    let mut pos: usize = 0;
    let mut i: usize = 0;
    proof {
        encode_utf8_valid_utf8(text@);
        is_char_boundary_start_end_of_seq(bytes@);
        assert(bytes@.subrange(0, bytes@.len() as int) =~= bytes@);
    }
    while i < matches.len()
        invariant
            i <= matches.len(),
            bytes@ == encode_utf8(text@),
            valid_utf8(bytes@),
            pos <= bytes@.len(),
            is_char_boundary(bytes@, pos as int),
            encode_utf8(rest@) == bytes@.subrange(pos as int, bytes@.len() as int),
            substitution_from(
                bytes@,
                matches@,
                0,
                0,
                lunar,
                infer_next,
                format_view(*format),
                *today,
            ) == continued(
                out@,
                substitution_from(
                    bytes@,
                    matches@,
                    i as int,
                    pos as int,
                    lunar,
                    infer_next,
                    format_view(*format),
                    *today,
                ),
            ),
        decreases matches.len() - i,
    {
        let ghost kept = out@;
        let ghost from = pos as int;
        let m: PatternMatch = matches[i];
        match replace_one(bytes, rest, pos, &m, lunar, infer_next, format, today, &mut out) {
            Ok((after, end)) => {
                rest = after;
                pos = end;
            },
            Err(e) => { return Err(e); },
        }
        proof {
            lemma_substitution_step(
                bytes@,
                matches@,
                i as int,
                from,
                lunar,
                infer_next,
                format_view(*format),
                *today,
                kept,
            );
        }
        i = i + 1;
    }
    proof {
        encode_utf8_decode_utf8(rest@);
    }
    out.append(rest);
    Ok(out)
}

} // verus!
