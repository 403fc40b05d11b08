use chinese_lunisolar_calendar::chrono::{Datelike, NaiveDate};
use ndate::calendar::{leap_year, month_length, CalendarDate, CalendarDateTime, MAX_YEAR, MIN_YEAR};

#[test]
fn leap_years() {
    for year in [2024, 2000, 1600, 0, -4, -400, 4, 262140] {
        assert!(leap_year(year), "{year}");
    }
    for year in [2025, 1900, 2100, 1, -1, -100, 262142, -262143, i32::MAX] {
        assert!(!leap_year(year), "{year}");
    }
    for year in [i32::MIN, i32::MAX, -2_000_000_000, 2_000_000_000, -1_999_999_900] {
        let expected = year.rem_euclid(4) == 0
            && (year.rem_euclid(100) != 0 || year.rem_euclid(400) == 0);
        assert_eq!(leap_year(year), expected, "{year}");
    }
}

#[test]
fn month_lengths() {
    let lengths = [31, 28, 31, 30, 31, 30, 31, 31, 30, 31, 30, 31];
    for month in 1..=12u32 {
        assert_eq!(month_length(2025, month), lengths[month as usize - 1]);
    }
    assert_eq!(month_length(2024, 2), 29);
    assert_eq!(month_length(1900, 2), 28);
    assert_eq!(month_length(2000, 2), 29);
}

#[test]
fn dates_that_exist() {
    assert_eq!(
        CalendarDate::new(2025, 2, 28),
        Some(CalendarDate { year: 2025, month: 2, day: 28 })
    );
    assert_eq!(CalendarDate::new(2024, 2, 29).map(|d| d.day), Some(29));
    assert_eq!(CalendarDate::new(MIN_YEAR, 1, 1).map(|d| d.year), Some(-262143));
    assert_eq!(CalendarDate::new(MAX_YEAR, 12, 31).map(|d| d.year), Some(262142));
    for (year, month, day) in [
        (2025, 2, 29),
        (2025, 4, 31),
        (2025, 0, 1),
        (2025, 13, 1),
        (2025, 1, 0),
        (2025, 1, 32),
        (MAX_YEAR + 1, 1, 1),
        (MIN_YEAR - 1, 12, 31),
    ] {
        assert_eq!(CalendarDate::new(year, month, day), None);
        assert!(!CalendarDate { year, month, day }.is_valid());
    }
}

#[test]
fn date_times_that_exist() {
    let made = CalendarDateTime::new(2025, 10, 25, 23, 59).unwrap();
    assert_eq!(made.date, CalendarDate { year: 2025, month: 10, day: 25 });
    assert_eq!((made.hour, made.minute), (23, 59));
    assert_eq!(CalendarDateTime::new(2025, 10, 25, 24, 0), None);
    assert_eq!(CalendarDateTime::new(2025, 10, 25, 0, 60), None);
    assert_eq!(CalendarDateTime::new(2025, 2, 30, 0, 0), None);
}

#[test]
fn order_of_dates() {
    let a = CalendarDate { year: 2025, month: 2, day: 1 };
    assert!(CalendarDate { year: 2025, month: 1, day: 31 }.is_before(&a));
    assert!(CalendarDate { year: 2024, month: 12, day: 31 }.is_before(&a));
    assert!(CalendarDate { year: 2025, month: 2, day: 0 }.is_before(&a));
    assert!(!a.is_before(&a));
    assert!(!CalendarDate { year: 2025, month: 2, day: 2 }.is_before(&a));
    assert!(!CalendarDate { year: 2026, month: 1, day: 1 }.is_before(&a));
}

#[test]
fn day_numbers() {
    assert_eq!(CalendarDate { year: 1, month: 1, day: 1 }.ordinal(), 1);
    assert_eq!(CalendarDate { year: 0, month: 12, day: 31 }.ordinal(), 0);
    assert_eq!(CalendarDate { year: 1970, month: 1, day: 1 }.ordinal(), 719_163);
    assert_eq!(CalendarDate { year: 2024, month: 4, day: 8 }.ordinal(), 738_984);
    assert_eq!(CalendarDate { year: MIN_YEAR, month: 1, day: 1 }.ordinal(), -95_746_129);
    assert_eq!(CalendarDate { year: MAX_YEAR, month: 12, day: 31 }.ordinal(), 95_745_399);
}

#[test]
fn day_numbers_count_as_chrono_counts() {
    let mut date = NaiveDate::from_ymd_opt(-401, 12, 25).unwrap();
    let mut previous: Option<i64> = None;
    for _ in 0..1000 {
        let own = CalendarDate::new(date.year(), date.month(), date.day()).unwrap();
        assert_eq!(own.ordinal(), date.num_days_from_ce() as i64);
        if let Some(n) = previous {
            assert_eq!(own.ordinal(), n + 1);
        }
        previous = Some(own.ordinal());
        date = date.succ_opt().unwrap();
    }
    for (year, month, day) in [(2000, 2, 29), (2100, 3, 1), (-262143, 1, 1), (262142, 12, 31)] {
        let theirs = NaiveDate::from_ymd_opt(year, month, day).unwrap();
        let own = CalendarDate::new(year, month, day).unwrap();
        assert_eq!(own.ordinal(), theirs.num_days_from_ce() as i64);
    }
    assert_eq!(NaiveDate::MIN, NaiveDate::from_ymd_opt(MIN_YEAR, 1, 1).unwrap());
    assert_eq!(NaiveDate::MAX, NaiveDate::from_ymd_opt(MAX_YEAR, 12, 31).unwrap());
    assert_eq!(NaiveDate::from_ymd_opt(MAX_YEAR + 1, 1, 1), None);
}
