//! From the numbers of a phrase to a date-time.
//!
//! A written year is taken as it is (four digits) or counted from 2000 (two
//! digits).  Without a year the current year is assumed, and the date moves to
//! the next year when it would lie before today and the caller asks for the
//! next occurrence.  A lunar date is converted to the solar calendar by the
//! `chinese_lunisolar_calendar` crate; a relative phrase is counted in days
//! from today by `chrono`.

use chinese_lunisolar_calendar::chrono::{Datelike, FixedOffset, NaiveDate, TimeDelta, Utc};
use chinese_lunisolar_calendar::{
    LunisolarDate, LunisolarDateError, LunisolarOutOfRangeError, LunisolarYear, SolarYear,
};
use vstd::prelude::*;

use crate::calendar::{
    date_exists, date_precedes, date_with_number, first_day_number, last_day_number,
    law_day_number_orders_dates, CalendarDate, CalendarDateTime, MAX_YEAR,
};
use crate::error::ResolveError;
use crate::grammar::{RawDate, RawDelta, RawTime, WrittenYear};

verus! {

/// The number of years, from the first one on, in which a lunar date is looked
/// for before the search gives up.
pub const LUNAR_ATTEMPTS: u32 = 50;

/// The offset from UTC, in seconds to the east, at which "today" is read and
/// at which every date-time stands: eight hours.
pub const UTC_OFFSET_SECONDS: i32 = 28800;

/// Stands for every year that is too large for any calendar here.
const NO_SUCH_YEAR: i32 = 400_000;

/// The year that a phrase means: a year of four digits as it is, one of two
/// digits counted from 2000, and the current year where none was written.
pub open spec fn resolved_year(written: WrittenYear, today: CalendarDate) -> int {
    match written {
        WrittenYear::Absent => today.year as int,
        WrittenYear::Short(n) => 2000 + n,
        WrittenYear::Full(n) => n as int,
    }
}

/// Whether a date that lies before today moves to the next year: only where no
/// year was written and the caller asks for it.
pub open spec fn rolls_forward(written: WrittenYear, infer_next: bool) -> bool {
    written is Absent && infer_next
}

/// The hour and the minute of a phrase: midnight where none was written.
pub open spec fn clock_time(time: Option<RawTime>) -> RawTime {
    match time {
        Some(t) => t,
        None => RawTime { hour: 0, minute: 0 },
    }
}

/// The day that a solar year, month and day resolve to.  The date has to
/// exist.  Where `roll` is set and the date lies before today, the same month
/// and day of the next year is meant, which has to exist too.
pub open spec fn solar_resolution(year: int, month: int, day: int, roll: bool, today: CalendarDate) -> Result<
    CalendarDate,
    ResolveError,
> {
    if !date_exists(year, month, day) {
        Err(ResolveError::InvalidCalendarDate)
    } else if roll && date_precedes(
        year,
        month,
        day,
        today.year as int,
        today.month as int,
        today.day as int,
    ) {
        if year + 1 > MAX_YEAR {
            Err(ResolveError::ArithmeticOverflow)
        } else if !date_exists(year + 1, month, day) {
            Err(ResolveError::InvalidCalendarDate)
        } else {
            Ok(CalendarDate { year: (year + 1) as i32, month: month as u32, day: day as u32 })
        }
    } else {
        Ok(CalendarDate { year: year as i32, month: month as u32, day: day as u32 })
    }
}

/// Resolves a solar year, month and day.
pub fn solar_date(year: i32, month: u32, day: u32, roll: bool, today: &CalendarDate) -> (resolved:
    Result<CalendarDate, ResolveError>)
    ensures
        resolved == solar_resolution(year as int, month as int, day as int, roll, *today),
{
    let date = match CalendarDate::new(year, month, day) {
        Some(d) => d,
        None => { return Err(ResolveError::InvalidCalendarDate); },
    };
    if roll && date.is_before(today) {
        if year >= MAX_YEAR {
            return Err(ResolveError::ArithmeticOverflow);
        }
        match CalendarDate::new(year + 1, month, day) {
            Some(next) => Ok(next),
            None => Err(ResolveError::InvalidCalendarDate),
        }
    } else {
        Ok(date)
    }
}

/// The leap month of a lunisolar year, by its number, as the
/// `chinese_lunisolar_calendar` crate has it: `None` for a year that the crate
/// does not cover, `Some(None)` for a year without a leap month.
pub uninterp spec fn lunar_leap_month(year: u16) -> Option<Option<u8>>;

/// The solar date of a day of the lunisolar calendar, as the
/// `chinese_lunisolar_calendar` crate converts it: `None` where the crate has
/// no such year, month, leap month or day.
pub uninterp spec fn lunar_solar_date(year: u16, month: u8, leap: bool, day: u8) -> Option<
    CalendarDate,
>;

#[verifier::external_type_specification]
#[verifier::external_body]
pub struct ExLunisolarOutOfRangeError(LunisolarOutOfRangeError);

#[verifier::external_type_specification]
#[verifier::external_body]
pub struct ExLunisolarDateError(LunisolarDateError);

/// Asks `LunisolarYear::from_solar_year` for the lunisolar year and
/// `LunisolarYear::get_leap_lunar_month` for the number of its leap month.
/// The contract gives the outcome its name, `lunar_leap_month`, and claims
/// nothing else of it.
#[verifier::external_body]
pub(crate) fn leap_month_of_year(year: u16) -> (leap: Result<Option<u8>, LunisolarOutOfRangeError>)
    ensures
        match leap {
            Ok(month) => lunar_leap_month(year) == Some(month),
            Err(_) => lunar_leap_month(year) is None,
        },
{
    let lunar_year = LunisolarYear::from_solar_year(SolarYear::from_u16(year))?;
    Ok(lunar_year.get_leap_lunar_month().map(|month| month.to_u8()))
}

/// Builds the lunisolar date with `LunisolarDate::from_ymd` and converts it
/// with `LunisolarDate::to_solar_date`.  The contract gives the outcome its
/// name, `lunar_solar_date`, and claims nothing else of it.
#[verifier::external_body]
pub(crate) fn solar_date_of_lunar(year: u16, month: u8, leap: bool, day: u8) -> (solar: Result<
    CalendarDate,
    LunisolarDateError,
>)
    ensures
        match solar {
            Ok(date) => lunar_solar_date(year, month, leap, day) == Some(date),
            Err(_) => lunar_solar_date(year, month, leap, day) is None,
        },
{
    let solar = LunisolarDate::from_ymd(year, month, leap, day)?.to_solar_date();
    Ok(
        CalendarDate {
            year: solar.to_solar_year().to_i32(),
            month: solar.to_solar_month().to_u32(),
            day: solar.to_solar_day().to_u32(),
        },
    )
}

/// Whether a month number means the leap month: where the year has a leap
/// month of that number.  The leap occurrence takes precedence; the regular
/// month of the same number cannot be asked for.
pub open spec fn means_leap_month(leap: Option<u8>, month: u8) -> bool {
    leap == Some(month)
}

/// Whether a month number means the leap month of its year.
pub fn is_leap_month(leap: Option<u8>, month: u8) -> (is_leap: bool)
    ensures
        is_leap == means_leap_month(leap, month),
{
    match leap {
        Some(number) => number == month,
        None => false,
    }
}

/// What one year of the search for a lunar date comes to.
#[derive(Clone, Copy, Debug, PartialEq, Eq, Structural)]
pub enum LunarStep {
    /// The date resolves to this solar day.
    Found(CalendarDate),
    /// The date lies before today: the next year is to be tried.
    TryNextYear,
    /// The lunisolar calendar has no such date.
    Rejected,
}

/// What a converted lunar date comes to: rejected where there is none or where
/// it is no day of the calendar; otherwise found, unless `roll` is set and it
/// lies before today.
pub open spec fn lunar_step(converted: Option<CalendarDate>, roll: bool, today: CalendarDate) -> LunarStep {
    match converted {
        Some(date) => if !date.valid() {
            LunarStep::Rejected
        } else if roll && date.precedes(today) {
            LunarStep::TryNextYear
        } else {
            LunarStep::Found(date)
        },
        None => LunarStep::Rejected,
    }
}

/// Judges the outcome of converting a lunar date of one year.
pub fn judge_lunar_date(converted: Option<CalendarDate>, roll: bool, today: &CalendarDate) -> (step:
    LunarStep)
    ensures
        step == lunar_step(converted, roll, *today),
{
    match converted {
        Some(date) => {
            if !date.is_valid() {
                LunarStep::Rejected
            } else if roll && date.is_before(today) {
                LunarStep::TryNextYear
            } else {
                LunarStep::Found(date)
            }
        },
        None => LunarStep::Rejected,
    }
}

/// What the lunar date of one year comes to.  The year has to be one that the
/// lunisolar calendar covers; the month number means the leap month where the
/// year has a leap month of that number.
pub open spec fn lunar_attempt(year: int, month: int, day: int, roll: bool, today: CalendarDate) -> LunarStep {
    if year < 0 || year > 0xFFFF || month < 0 || month > 0xFF || day < 0 || day > 0xFF {
        LunarStep::Rejected
    } else {
        match lunar_leap_month(year as u16) {
            Some(leap) => lunar_step(
                lunar_solar_date(
                    year as u16,
                    month as u8,
                    means_leap_month(leap, month as u8),
                    day as u8,
                ),
                roll,
                today,
            ),
            None => LunarStep::Rejected,
        }
    }
}

/// The day that a lunar year, month and day resolve to, looking at `attempts`
/// years from `year` on.  Where `roll` is set and the date of a year lies
/// before today, the next lunar year is tried: its months differ from year to
/// year, so the date is converted anew.
pub open spec fn lunar_resolution(
    year: int,
    month: int,
    day: int,
    roll: bool,
    today: CalendarDate,
    attempts: nat,
) -> Result<CalendarDate, ResolveError>
    decreases attempts,
{
    if attempts == 0 {
        Err(ResolveError::UnresolvedNextOccurrence)
    } else {
        match lunar_attempt(year, month, day, roll, today) {
            LunarStep::Found(date) => Ok(date),
            LunarStep::Rejected => Err(ResolveError::InvalidLunarDate),
            LunarStep::TryNextYear => lunar_resolution(
                year + 1,
                month,
                day,
                roll,
                today,
                (attempts - 1) as nat,
            ),
        }
    }
}

/// Converts the lunar date of one year and judges the outcome.
pub fn try_lunar_year(year: i32, month: u32, day: u32, roll: bool, today: &CalendarDate) -> (step:
    LunarStep)
    ensures
        step == lunar_attempt(year as int, month as int, day as int, roll, *today),
{
    if year < 0 || year > 0xFFFF || month > 0xFF || day > 0xFF {
        return LunarStep::Rejected;
    }
    let leap = match leap_month_of_year(year as u16) {
        Ok(leap) => leap,
        Err(_) => { return LunarStep::Rejected; },
    };
    let is_leap = is_leap_month(leap, month as u8);
    let converted = match solar_date_of_lunar(year as u16, month as u8, is_leap, day as u8) {
        Ok(date) => Some(date),
        Err(_) => None,
    };
    judge_lunar_date(converted, roll, today)
}

/// Resolves a lunar year, month and day, trying up to `LUNAR_ATTEMPTS` years.
pub fn lunar_date(year: i32, month: u32, day: u32, roll: bool, today: &CalendarDate) -> (resolved:
    Result<CalendarDate, ResolveError>)
    ensures
        resolved == lunar_resolution(
            year as int,
            month as int,
            day as int,
            roll,
            *today,
            LUNAR_ATTEMPTS as nat,
        ),
{
    let mut tried: u32 = 0;
    let mut candidate: i32 = year;
    while tried < LUNAR_ATTEMPTS
        invariant
            tried <= LUNAR_ATTEMPTS,
            candidate == year + tried,
            tried > 0 ==> candidate <= 0x10000,
            lunar_resolution(
                year as int,
                month as int,
                day as int,
                roll,
                *today,
                LUNAR_ATTEMPTS as nat,
            ) == lunar_resolution(
                candidate as int,
                month as int,
                day as int,
                roll,
                *today,
                (LUNAR_ATTEMPTS - tried) as nat,
            ),
        decreases LUNAR_ATTEMPTS - tried,
    {
        match try_lunar_year(candidate, month, day, roll, today) {
            LunarStep::Found(date) => { return Ok(date); },
            LunarStep::Rejected => { return Err(ResolveError::InvalidLunarDate); },
            LunarStep::TryNextYear => {
                candidate = candidate + 1;
                tried = tried + 1;
            },
        }
    }
    Err(ResolveError::UnresolvedNextOccurrence)
}

/// The date-time that a year, month, day, hour and minute resolve to.  The
/// hour and the minute are held against the clock first, so that a time out
/// of range is reported as such whatever the date; then the date is resolved
/// on the lunar or the solar calendar.
pub open spec fn date_time_resolution(
    year: int,
    month: int,
    day: int,
    hour: int,
    minute: int,
    lunar: bool,
    roll: bool,
    today: CalendarDate,
) -> Result<CalendarDateTime, ResolveError> {
    if hour < 0 || hour > 23 || minute < 0 || minute > 59 {
        Err(ResolveError::InvalidTimeComponent)
    } else {
        let date = if lunar {
            lunar_resolution(year, month, day, roll, today, LUNAR_ATTEMPTS as nat)
        } else {
            solar_resolution(year, month, day, roll, today)
        };
        match date {
            Ok(d) => Ok(CalendarDateTime { date: d, hour: hour as u32, minute: minute as u32 }),
            Err(e) => Err(e),
        }
    }
}

/// Resolves a year, month, day, hour and minute to a date-time, on the lunar
/// calendar where `is_lunar` is set, and moving a date that lies before `now`
/// to its next occurrence where `next` is set.
pub fn date_from_ymd_and_hm(
    year: i32,
    month: u32,
    day: u32,
    hour: u32,
    minute: u32,
    is_lunar: &bool,
    next: &bool,
    now: &CalendarDate,
) -> (resolved: Result<CalendarDateTime, ResolveError>)
    ensures
        resolved == date_time_resolution(
            year as int,
            month as int,
            day as int,
            hour as int,
            minute as int,
            *is_lunar,
            *next,
            *now,
        ),
        resolved matches Ok(dt) ==> dt.valid(),
{
    if hour > 23 || minute > 59 {
        return Err(ResolveError::InvalidTimeComponent);
    }
    let date = if *is_lunar {
        lunar_date(year, month, day, *next, now)
    } else {
        solar_date(year, month, day, *next, now)
    };
    match date {
        Ok(d) => {
            proof {
                lemma_lunar_resolution_valid(
                    year as int,
                    month as int,
                    day as int,
                    *next,
                    *now,
                    LUNAR_ATTEMPTS as nat,
                );
            }
            Ok(CalendarDateTime { date: d, hour, minute })
        },
        Err(e) => Err(e),
    }
}

/// A lunar date resolves to a day of the calendar, if it resolves at all.
pub proof fn lemma_lunar_resolution_valid(
    year: int,
    month: int,
    day: int,
    roll: bool,
    today: CalendarDate,
    attempts: nat,
)
    ensures
        lunar_resolution(year, month, day, roll, today, attempts) matches Ok(date) ==> date.valid()
            && !(roll && date.precedes(today)),
    decreases attempts,
{
    if attempts > 0 {
        lemma_lunar_resolution_valid(year + 1, month, day, roll, today, (attempts - 1) as nat);
    }
}

/// The date-time that the numbers of an absolute or partial date resolve to.
pub open spec fn raw_date_resolution(raw: RawDate, lunar: bool, infer_next: bool, today: CalendarDate) -> Result<
    CalendarDateTime,
    ResolveError,
> {
    date_time_resolution(
        resolved_year(raw.year, today),
        raw.month as int,
        raw.day as int,
        clock_time(raw.time).hour as int,
        clock_time(raw.time).minute as int,
        lunar,
        rolls_forward(raw.year, infer_next),
        today,
    )
}

/// Gives the hour and the minute of a phrase: those written, or midnight.
pub fn hour_and_min(time: Option<RawTime>) -> (hm: (u32, u32))
    ensures
        hm.0 == clock_time(time).hour,
        hm.1 == clock_time(time).minute,
{
    match time {
        Some(t) => (t.hour, t.minute),
        None => (0, 0),
    }
}

/// Resolves the numbers of an absolute or partial date to a date-time.
pub fn resolve_raw_date(raw: &RawDate, lunar: bool, infer_next: bool, today: &CalendarDate) -> (resolved:
    Result<CalendarDateTime, ResolveError>)
    ensures
        resolved == raw_date_resolution(*raw, lunar, infer_next, *today),
        resolved matches Ok(dt) ==> dt.valid(),
{
    let need_next: bool;
    let year: i32 = match raw.year {
        WrittenYear::Absent => {
            need_next = infer_next;
            today.year
        },
        WrittenYear::Short(n) => {
            need_next = false;
            if n <= 300_000 {
                2000 + n as i32
            } else {
                NO_SUCH_YEAR
            }
        },
        WrittenYear::Full(n) => {
            need_next = false;
            if n <= 300_000 {
                n as i32
            } else {
                NO_SUCH_YEAR
            }
        },
    };
    let (hour, minute) = hour_and_min(raw.time);
    date_from_ymd_and_hm(year, raw.month, raw.day, hour, minute, &lunar, &need_next, today)
}

/// Adds `days` to a date with chrono's `NaiveDate::checked_add_signed`, on the
/// `TimeDelta` that `TimeDelta::try_days` makes.  The contract claims that
/// chrono adds days as the day number counts them: the outcome is the day of
/// the calendar whose day number is `days` more, and there is none exactly
/// where that number lies outside the representable days.
#[verifier::external_body]
pub(crate) fn date_after_days(date: CalendarDate, days: i64) -> (moved: Option<CalendarDate>)
    requires
        date.valid(),
    ensures
        moved is Some <==> first_day_number() <= date.day_number() + days <= last_day_number(),
        moved matches Some(d) ==> d.valid() && d.day_number() == date.day_number() + days,
{
    let start = NaiveDate::from_ymd_opt(date.year, date.month, date.day)?;
    let moved = start.checked_add_signed(TimeDelta::try_days(days)?)?;
    Some(CalendarDate { year: moved.year(), month: moved.month(), day: moved.day() })
}

/// The date-time that a count of days from today resolves to: today at
/// midnight, moved by the count, with the hour and the minute then set to
/// those written.  A day that the calendar cannot represent is an overflow.
pub open spec fn delta_resolution(days: int, time: Option<RawTime>, today: CalendarDate) -> Result<
    CalendarDateTime,
    ResolveError,
> {
    let at = clock_time(time);
    if at.hour > 23 || at.minute > 59 {
        Err(ResolveError::InvalidTimeComponent)
    } else if !(first_day_number() <= today.day_number() + days <= last_day_number()) {
        Err(ResolveError::ArithmeticOverflow)
    } else {
        Ok(
            CalendarDateTime {
                date: date_with_number(today.day_number() + days),
                hour: at.hour,
                minute: at.minute,
            },
        )
    }
}

/// Resolves the numbers of a relative phrase to a date-time.
pub fn resolve_raw_delta(raw: &RawDelta, today: &CalendarDate) -> (resolved: Result<
    CalendarDateTime,
    ResolveError,
>)
    requires
        today.valid(),
    ensures
        resolved == delta_resolution(raw.days as int, raw.time, *today),
        resolved matches Ok(dt) ==> dt.valid(),
{
    let (hour, minute) = hour_and_min(raw.time);
    if hour > 23 || minute > 59 {
        return Err(ResolveError::InvalidTimeComponent);
    }
    match date_after_days(*today, raw.days) {
        Some(date) => {
            proof {
                let named = date_with_number(today.day_number() + raw.days);
                law_day_number_orders_dates(date, named);
            }
            Ok(CalendarDateTime { date, hour, minute })
        },
        None => Err(ResolveError::ArithmeticOverflow),
    }
}

/// Reads the date at `offset_seconds` east of UTC from the system clock: the
/// year, month and day of chrono's `Utc::now` in the `FixedOffset` that
/// `FixedOffset::east_opt` makes.  There is a date exactly where the offset is
/// less than a day; what the date is depends on the clock, and nothing is
/// claimed of it.
#[verifier::external_body]
pub(crate) fn clock_date(offset_seconds: i32) -> (date: Option<CalendarDate>)
    ensures
        date is Some <==> -86_400 < offset_seconds < 86_400,
{
    let zone = FixedOffset::east_opt(offset_seconds)?;
    let now = Utc::now().with_timezone(&zone);
    Some(CalendarDate { year: now.year(), month: now.month(), day: now.day() })
}

/// Today's date at the fixed offset from UTC, from the system clock.  A clock
/// that shows no day of the calendar is an overflow.
pub fn today() -> (date: Result<CalendarDate, ResolveError>)
    ensures
        date matches Ok(d) ==> d.valid(),
        date matches Err(e) ==> e == ResolveError::ArithmeticOverflow,
{
    match clock_date(UTC_OFFSET_SECONDS) {
        Some(d) => {
            if d.is_valid() {
                Ok(d)
            } else {
                Err(ResolveError::ArithmeticOverflow)
            }
        },
        None => Err(ResolveError::ArithmeticOverflow),
    }
}

} // verus!
