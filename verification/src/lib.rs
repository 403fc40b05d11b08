//! Resolution of short, loosely typed date phrases into calendar date-times.
//!
//! A phrase is an absolute date (`2025-10-25 3:03`, `25/10/25`), a partial
//! date without a year (`10-25`), a signed offset in days (`-1`, `+3 9:30`),
//! or any of the first two read on the Chinese lunisolar calendar.  Every
//! date-time is anchored to one fixed offset from UTC.

pub mod calendar;
pub mod entry;
pub mod error;
pub mod grammar;
pub mod laws;
pub mod render;
pub mod resolver;
pub mod substitute;

pub use calendar::{CalendarDate, CalendarDateTime};
pub use entry::{
    parse_datetime, parse_datetime_at, recognize, resolve, resolve_at, resolve_datetime_at,
    resolve_raw_match, substitute, substitute_at,
};
pub use error::ResolveError;
pub use grammar::{RawDate, RawDelta, RawMatch, RawTime, WrittenYear};
