use flexible_time::calendar::Month;
use flexible_time::error::ConversionError;
use flexible_time::timestamp::{ParsedTimestamp, StartTimestamp};

const MONTHS: [Month; 12] = [
    Month::January,
    Month::February,
    Month::March,
    Month::April,
    Month::May,
    Month::June,
    Month::July,
    Month::August,
    Month::September,
    Month::October,
    Month::November,
    Month::December,
];

#[test]
fn months_have_the_numbers_one_to_twelve() {
    for (index, month) in MONTHS.iter().enumerate() {
        assert_eq!(usize::from(month.number()), index + 1);
        assert_eq!(Month::from_number(month.number()), Some(*month));
        assert_eq!(u8::from(time::Month::try_from(month.number()).unwrap()), month.number());
    }
    assert_eq!(Month::from_number(0), None);
    assert_eq!(Month::from_number(13), None);
    assert_eq!(Month::from_number(255), None);
}

#[test]
fn months_have_the_names_of_the_time_crate() {
    for month in MONTHS {
        let other = time::Month::try_from(month.number()).unwrap();
        assert_eq!(format!("{month:?}"), format!("{other:?}"));
    }
}

fn is_date(year: i32, month: Month, day: u8) -> bool {
    match StartTimestamp::try_from(ParsedTimestamp::YearMonthDay(year, month, day)) {
        Ok(start) => {
            assert_eq!((start.year(), start.month(), start.day()), (year, month, day));
            true
        }
        Err(ConversionError::OutOfRange(_)) => false,
    }
}

fn is_leap_year(year: i32) -> bool {
    year % 4 == 0 && (year % 100 != 0 || year % 400 == 0)
}

#[test]
fn february_has_a_twenty_ninth_in_leap_years_only() {
    for year in -9999..=9999 {
        assert_eq!(is_date(year, Month::February, 29), is_leap_year(year), "{year}");
        assert_eq!(is_date(year, Month::February, 29), time::util::is_leap_year(year), "{year}");
    }
    assert!(is_date(2024, Month::February, 29));
    assert!(is_date(2000, Month::February, 29));
    assert!(is_date(-4, Month::February, 29));
    assert!(is_date(0, Month::February, 29));
    assert!(!is_date(2023, Month::February, 29));
    assert!(!is_date(1900, Month::February, 29));
    assert!(!is_date(-100, Month::February, 29));
}

#[test]
fn months_have_their_days() {
    for year in [-9999, -401, -400, -100, -4, -1, 0, 1, 1900, 2000, 2023, 2024, 9999] {
        for month in MONTHS {
            let days = time::Month::try_from(month.number()).unwrap().length(year);
            for day in 0..=40 {
                let expected = 1 <= day && day <= days;
                assert_eq!(is_date(year, month, day), expected, "{year} {month:?} {day}");
            }
            assert!(!is_date(year, month, 255));
        }
    }
}

#[test]
fn years_have_their_bounds() {
    for month in MONTHS {
        assert!(is_date(9999, month, 1));
        assert!(is_date(-9999, month, 1));
        assert!(!is_date(10_000, month, 1));
        assert!(!is_date(-10_000, month, 1));
        assert!(!is_date(i32::MAX, month, 1));
        assert!(!is_date(i32::MIN, month, 1));
    }
}

#[test]
fn times_of_day_have_their_bounds() {
    for hour in 0..=255u8 {
        for (minute, second) in [(0u8, 0u8), (59, 59), (60, 0), (0, 60), (255, 255), (30, 30)] {
            let parsed = ParsedTimestamp::YearMonthDayHourMinuteSecond(
                2023,
                Month::July,
                14,
                hour,
                minute,
                second,
            );
            let expected = hour < 24 && minute < 60 && second < 60;
            match StartTimestamp::try_from(parsed) {
                Ok(start) => {
                    assert!(expected);
                    let found = (start.hour(), start.minute(), start.second());
                    assert_eq!(found, (hour, minute, second));
                }
                Err(ConversionError::OutOfRange(_)) => assert!(!expected),
            }
        }
    }
}
