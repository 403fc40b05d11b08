//! Days of the proleptic Gregorian calendar and minutes of the day.
//!
//! A date is modelled by its year, month and day, and measured by its day
//! number: the count of days from the (fictitious) day before 1 January of
//! year 1.  Consecutive days have consecutive day numbers, so an offset in
//! days is an offset of the day number.

use vstd::prelude::*;

verus! {

/// The earliest year that a date can have.
pub const MIN_YEAR: i32 = -262143;

/// The latest year that a date can have.
pub const MAX_YEAR: i32 = 262142;

/// Whether `year` has a 29 February.
pub open spec fn is_leap_year(year: int) -> bool {
    year % 4 == 0 && (year % 100 != 0 || year % 400 == 0)
}

/// The number of days of `month` in `year`; 31 for anything that is no month.
pub open spec fn days_in_month(year: int, month: int) -> int {
    if month == 2 {
        if is_leap_year(year) {
            29
        } else {
            28
        }
    } else if month == 4 || month == 6 || month == 9 || month == 11 {
        30
    } else {
        31
    }
}

/// Whether the calendar has the day `day` of `month` in `year`.
pub open spec fn date_exists(year: int, month: int, day: int) -> bool {
    &&& MIN_YEAR <= year <= MAX_YEAR
    &&& 1 <= month <= 12
    &&& 1 <= day <= days_in_month(year, month)
}

/// The number of days in the years from year 1 up to, not including, `year`
/// (negative for years before year 1).
pub open spec fn days_before_year(year: int) -> int {
    let y = year - 1;
    365 * y + y / 4 - y / 100 + y / 400
}

/// The number of days of `year` that lie before the first of `month`.
pub open spec fn days_before_month(year: int, month: int) -> int
    decreases month,
{
    if month <= 1 {
        0
    } else {
        days_before_month(year, month - 1) + days_in_month(year, month - 1)
    }
}

/// The day number of a year, month and day.
pub open spec fn day_number_of(year: int, month: int, day: int) -> int {
    days_before_year(year) + days_before_month(year, month) + day
}

/// Whether the first date comes strictly before the second.
pub open spec fn date_precedes(y1: int, m1: int, d1: int, y2: int, m2: int, d2: int) -> bool {
    y1 < y2 || (y1 == y2 && (m1 < m2 || (m1 == m2 && d1 < d2)))
}

/// The day number of the first representable day.
pub open spec fn first_day_number() -> int {
    day_number_of(MIN_YEAR as int, 1, 1)
}

/// The day number of the last representable day.
pub open spec fn last_day_number() -> int {
    day_number_of(MAX_YEAR as int, 12, 31)
}

/// The day of the calendar that has the day number `n`.
pub open spec fn date_with_number(n: int) -> CalendarDate {
    choose|date: CalendarDate| date.valid() && date.day_number() == n
}

/// A day of the calendar.
#[derive(Clone, Copy, Debug, PartialEq, Eq, Structural)]
pub struct CalendarDate {
    pub year: i32,
    pub month: u32,
    pub day: u32,
}

/// A minute of a day of the calendar; the second is always zero.
#[derive(Clone, Copy, Debug, PartialEq, Eq, Structural)]
pub struct CalendarDateTime {
    pub date: CalendarDate,
    pub hour: u32,
    pub minute: u32,
}

/// Whether `year` has a 29 February.
pub fn leap_year(year: i32) -> (leap: bool)
    ensures
        leap == is_leap_year(year as int),
{
    // 2147484000 is a multiple of 400 above the size of every `i32`.
    let r: i64 = (year as i64 + 2_147_484_000i64) % 400;
    assert(r == (year as int) % 400);
    r % 4 == 0 && (r % 100 != 0 || r == 0)
}

/// The number of days of `month` in `year`; 31 for anything that is no month.
pub fn month_length(year: i32, month: u32) -> (days: u32)
    ensures
        days == days_in_month(year as int, month as int),
{
    if month == 2 {
        if leap_year(year) {
            29
        } else {
            28
        }
    } else if month == 4 || month == 6 || month == 9 || month == 11 {
        30
    } else {
        31
    }
}

impl CalendarDate {
    /// The date is a day of the calendar, within the representable years.
    pub open spec fn valid(self) -> bool {
        date_exists(self.year as int, self.month as int, self.day as int)
    }

    /// The count of days up to and including this one, from 1 January of year 1
    /// as day 1.
    pub open spec fn day_number(self) -> int {
        day_number_of(self.year as int, self.month as int, self.day as int)
    }

    /// This date comes strictly before `other`.
    pub open spec fn precedes(self, other: CalendarDate) -> bool {
        date_precedes(
            self.year as int,
            self.month as int,
            self.day as int,
            other.year as int,
            other.month as int,
            other.day as int,
        )
    }

    /// The date with these fields, if the calendar has it.
    pub fn new(year: i32, month: u32, day: u32) -> (made: Option<CalendarDate>)
        ensures
            made is Some <==> date_exists(year as int, month as int, day as int),
            made matches Some(d) ==> d.year == year && d.month == month && d.day == day,
    {
        let date = CalendarDate { year, month, day };
        if date.is_valid() {
            Some(date)
        } else {
            None
        }
    }

    /// Whether the date is a day of the calendar.
    pub fn is_valid(&self) -> (ok: bool)
        ensures
            ok == self.valid(),
    {
        MIN_YEAR <= self.year && self.year <= MAX_YEAR && 1 <= self.month && self.month <= 12
            && 1 <= self.day && self.day <= month_length(self.year, self.month)
    }

    /// Whether this date comes strictly before `other`.
    pub fn is_before(&self, other: &CalendarDate) -> (earlier: bool)
        ensures
            earlier == self.precedes(*other),
    {
        self.year < other.year || (self.year == other.year && (self.month < other.month || (
        self.month == other.month && self.day < other.day)))
    }

    /// The day number of the date.
    pub fn ordinal(&self) -> (n: i64)
        requires
            self.valid(),
        ensures
            n == self.day_number(),
    {
        let mut before_month: u32 = 0;
        let mut m: u32 = 1;
        while m < self.month
            invariant
                1 <= m <= self.month <= 12,
                before_month == days_before_month(self.year as int, m as int),
                before_month <= 31 * (m - 1),
            decreases self.month - m,
        {
            before_month = before_month + month_length(self.year, m);
            m = m + 1;
        }
        year_start(self.year) + before_month as i64 + self.day as i64
    }
}

/// The number of days in the years from year 1 up to, not including, `year`.
fn year_start(year: i32) -> (n: i64)
    requires
        MIN_YEAR <= year <= MAX_YEAR,
    ensures
        n == days_before_year(year as int),
        -95_746_500 < n < 95_746_500,
{
    // 262400 is a multiple of 400 above every representable year, so that the
    // divisions below are of numbers that are not negative.
    let y: i64 = year as i64 - 1 + 262400;
    let fours: i64 = y / 4;
    let hundreds: i64 = y / 100;
    let four_hundreds: i64 = y / 400;
    proof {
        let z = year as int - 1;
        assert(fours == z / 4 + 65600);
        assert(hundreds == z / 100 + 2624);
        assert(four_hundreds == z / 400 + 656);
    }
    365 * (year as i64 - 1) + (fours - 65600) - (hundreds - 2624) + (four_hundreds - 656)
}

impl CalendarDateTime {
    /// The date is a day of the calendar and the time a minute of the day.
    pub open spec fn valid(self) -> bool {
        self.date.valid() && self.hour <= 23 && self.minute <= 59
    }

    /// The date-time with these fields, if the calendar and the clock have it.
    pub fn new(year: i32, month: u32, day: u32, hour: u32, minute: u32) -> (made: Option<
        CalendarDateTime,
    >)
        ensures
            made is Some <==> date_exists(year as int, month as int, day as int) && hour <= 23
                && minute <= 59,
            made matches Some(dt) ==> dt.date.year == year && dt.date.month == month && dt.date.day
                == day && dt.hour == hour && dt.minute == minute,
    {
        let date = CalendarDate { year, month, day };
        if date.is_valid() && hour <= 23 && minute <= 59 {
            Some(CalendarDateTime { date, hour, minute })
        } else {
            None
        }
    }
}

/// The day after a date, as year, month and day.
pub open spec fn following_day(year: int, month: int, day: int) -> (int, int, int) {
    if day < days_in_month(year, month) {
        (year, month, day + 1)
    } else if month < 12 {
        (year, month + 1, 1)
    } else {
        (year + 1, 1, 1)
    }
}

/// The days before each month of a year: the running sum of the month lengths.
pub proof fn lemma_days_before_month(year: int)
    ensures
        days_before_month(year, 1) == 0,
        days_before_month(year, 2) == 31,
        days_before_month(year, 3) == 31 + days_in_month(year, 2),
        days_before_month(year, 4) == 62 + days_in_month(year, 2),
        days_before_month(year, 5) == 92 + days_in_month(year, 2),
        days_before_month(year, 6) == 123 + days_in_month(year, 2),
        days_before_month(year, 7) == 153 + days_in_month(year, 2),
        days_before_month(year, 8) == 184 + days_in_month(year, 2),
        days_before_month(year, 9) == 215 + days_in_month(year, 2),
        days_before_month(year, 10) == 245 + days_in_month(year, 2),
        days_before_month(year, 11) == 276 + days_in_month(year, 2),
        days_before_month(year, 12) == 306 + days_in_month(year, 2),
        days_before_month(year, 13) == 337 + days_in_month(year, 2),
{
    reveal_with_fuel(days_before_month, 14);
}

/// A year is 365 days long, and 366 when it is a leap year.
pub proof fn lemma_year_length(year: int)
    ensures
        days_before_year(year + 1) == days_before_year(year) + if is_leap_year(year) {
            366int
        } else {
            365int
        },
{
}

/// The day after a day of the calendar is a day of the calendar, and its day
/// number is one more.
pub proof fn law_following_day_is_one_later(year: int, month: int, day: int)
    requires
        date_exists(year, month, day),
        year < MAX_YEAR || month < 12 || day < 31,
    ensures
        ({
            let next = following_day(year, month, day);
            date_exists(next.0, next.1, next.2) && day_number_of(next.0, next.1, next.2)
                == day_number_of(year, month, day) + 1
        }),
{
    lemma_days_before_month(year);
    lemma_year_length(year);
    lemma_days_before_month(year + 1);
}

/// Later years start later: a year has at least 365 days.
pub proof fn lemma_years_grow(y1: int, y2: int)
    requires
        y1 <= y2,
    ensures
        days_before_year(y2) - days_before_year(y1) >= 365 * (y2 - y1),
{
}

/// The day number orders the days of the calendar as year, month and day do:
/// an earlier date has a smaller day number, and the same date the same.
pub proof fn law_day_number_orders_dates(a: CalendarDate, b: CalendarDate)
    requires
        a.valid(),
        b.valid(),
    ensures
        a.precedes(b) <==> a.day_number() < b.day_number(),
        a == b <==> a.day_number() == b.day_number(),
{
    lemma_days_before_month(a.year as int);
    lemma_days_before_month(b.year as int);
    lemma_year_length(a.year as int);
    lemma_year_length(b.year as int);
    if a.year < b.year {
        lemma_years_grow(a.year as int + 1, b.year as int);
    }
    if b.year < a.year {
        lemma_years_grow(b.year as int + 1, a.year as int);
    }
}

/// Every number from that of the first to that of the last representable day
/// is the day number of a day of the calendar.
pub proof fn law_every_day_number_is_a_date(n: int)
    requires
        first_day_number() <= n <= last_day_number(),
    ensures
        date_with_number(n).valid(),
        date_with_number(n).day_number() == n,
    decreases n - first_day_number(),
{
    if n == first_day_number() {
        let first = CalendarDate { year: MIN_YEAR, month: 1, day: 1 };
        assert(first.valid() && first.day_number() == n);
    } else {
        law_every_day_number_is_a_date(n - 1);
        let before = date_with_number(n - 1);
        let last = CalendarDate { year: MAX_YEAR, month: 12, day: 31 };
        law_day_number_orders_dates(before, last);
        law_following_day_is_one_later(before.year as int, before.month as int, before.day as int);
        let next = following_day(before.year as int, before.month as int, before.day as int);
        let date = CalendarDate { year: next.0 as i32, month: next.1 as u32, day: next.2 as u32 };
        assert(date.valid() && date.day_number() == n);
    }
}

/// Every day of the calendar has a day number between that of the first and
/// that of the last representable day, which lie less than 200 million days
/// apart.
pub proof fn lemma_day_number_bounds(date: CalendarDate)
    requires
        date.valid(),
    ensures
        first_day_number() <= date.day_number() <= last_day_number(),
        first_day_number() == -95746129,
        last_day_number() == 95745399,
{
    let first = CalendarDate { year: MIN_YEAR, month: 1, day: 1 };
    let last = CalendarDate { year: MAX_YEAR, month: 12, day: 31 };
    law_day_number_orders_dates(first, date);
    law_day_number_orders_dates(date, last);
    lemma_days_before_month(MIN_YEAR as int);
    lemma_days_before_month(MAX_YEAR as int);
}

} // verus!
