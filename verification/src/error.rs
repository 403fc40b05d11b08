//! The ways in which resolving a phrase can fail.

use vstd::prelude::*;

verus! {

/// Why a phrase could not be resolved.  Every failure ends the whole
/// operation: nothing is resolved or substituted in part.
#[derive(Clone, Copy, Debug, PartialEq, Eq, Structural)]
pub enum ResolveError {
    /// No grammar recognises the input, or what a grammar reported does not
    /// have the shape of a phrase.
    FormatError,
    /// The year, month and day do not name a day of the Gregorian calendar.
    InvalidCalendarDate,
    /// The lunisolar calendar has no such year, month, leap month or day.
    InvalidLunarDate,
    /// The hour is above 23 or the minute above 59.
    InvalidTimeComponent,
    /// A day offset or a step to the next year leaves the representable dates.
    ArithmeticOverflow,
    /// The search for a lunar date that is not in the past ran out of years.
    UnresolvedNextOccurrence,
    /// The caller's format string cannot be rendered.
    InvalidFormatString,
}

impl ResolveError {
    /// The sentence that `message` returns for each error.
    pub open spec fn text(self) -> Seq<char> {
        match self {
            ResolveError::FormatError => "unrecognized date phrase"@,
            ResolveError::InvalidCalendarDate => "no such calendar date"@,
            ResolveError::InvalidLunarDate => "no such lunar date"@,
            ResolveError::InvalidTimeComponent => "hour or minute out of range"@,
            ResolveError::ArithmeticOverflow => "date out of the representable range"@,
            ResolveError::UnresolvedNextOccurrence => "no upcoming occurrence of the lunar date"@,
            ResolveError::InvalidFormatString => "format string cannot be rendered"@,
        }
    }

    /// A short human-readable description of the error.
    pub fn message(&self) -> (out: String)
        ensures
            out@ == self.text(),
    {
        match self {
            ResolveError::FormatError => "unrecognized date phrase".to_owned(),
            ResolveError::InvalidCalendarDate => "no such calendar date".to_owned(),
            ResolveError::InvalidLunarDate => "no such lunar date".to_owned(),
            ResolveError::InvalidTimeComponent => "hour or minute out of range".to_owned(),
            ResolveError::ArithmeticOverflow => "date out of the representable range".to_owned(),
            ResolveError::UnresolvedNextOccurrence => "no upcoming occurrence of the lunar date".to_owned(),
            ResolveError::InvalidFormatString => "format string cannot be rendered".to_owned(),
        }
    }
}

} // verus!
