use flexible_time::calendar::Month;
use flexible_time::error::{ConversionError, Error, ParsedError};
use flexible_time::timestamp::{ParsedTimestamp, StartTimestamp};
use std::str::FromStr;
use time::{Date, OffsetDateTime};

fn time_month(month: Month) -> time::Month {
    time::Month::try_from(month.number()).unwrap()
}

/// The instant of a start timestamp, built by the `time` crate from its fields.
fn instant(start: StartTimestamp) -> OffsetDateTime {
    Date::from_calendar_date(start.year(), time_month(start.month()), start.day())
        .unwrap()
        .with_hms(start.hour(), start.minute(), start.second())
        .unwrap()
        .assume_utc()
}

/// `year-month-day hour:minute:second UTC`, built by the `time` crate.
fn datetime(
    year: i32,
    month: time::Month,
    day: u8,
    hour: u8,
    minute: u8,
    second: u8,
) -> OffsetDateTime {
    Date::from_calendar_date(year, month, day)
        .unwrap()
        .with_hms(hour, minute, second)
        .unwrap()
        .assume_utc()
}

fn fields(start: StartTimestamp) -> (i32, Month, u8, u8, u8, u8) {
    (start.year(), start.month(), start.day(), start.hour(), start.minute(), start.second())
}

fn start(s: &str) -> (i32, Month, u8, u8, u8, u8) {
    fields(StartTimestamp::from_str(s).unwrap())
}

#[test]
fn start_year() {
    assert_eq!(
        datetime(2023, time::Month::January, 1, 0, 0, 0),
        instant(StartTimestamp::from_str("2023").unwrap())
    );
    assert_eq!(
        datetime(2023, time::Month::January, 1, 0, 0, 0),
        Date::from_calendar_date(2023, time::Month::January, 1).unwrap().midnight().assume_utc()
    );
}

#[test]
fn start_year_month() {
    assert_eq!(
        datetime(2023, time::Month::February, 1, 0, 0, 0),
        instant(StartTimestamp::from_str("2023-02").unwrap())
    );
}

#[test]
fn start_year_month_day() {
    assert_eq!(
        datetime(2023, time::Month::February, 3, 0, 0, 0),
        instant(StartTimestamp::from_str("2023-02-03").unwrap())
    );
}

#[test]
fn start_year_month_day_hour_single() {
    assert_eq!(
        datetime(2023, time::Month::February, 3, 4, 0, 0),
        instant(StartTimestamp::from_str("2023-02-03 4").unwrap())
    );
}

#[test]
fn start_year_month_day_hour() {
    assert_eq!(
        datetime(2023, time::Month::February, 3, 4, 0, 0),
        instant(StartTimestamp::from_str("2023-02-03 04").unwrap())
    );
}

#[test]
fn start_year_month_day_hour_single_minute() {
    assert_eq!(
        datetime(2023, time::Month::February, 3, 4, 5, 0),
        instant(StartTimestamp::from_str("2023-02-03 4:05").unwrap())
    );
}

#[test]
fn start_year_month_day_hour_minute() {
    assert_eq!(
        datetime(2023, time::Month::February, 3, 4, 5, 0),
        instant(StartTimestamp::from_str("2023-02-03 04:05").unwrap())
    );
}

#[test]
fn start_year_month_day_hour_minute_second() {
    assert_eq!(
        datetime(2023, time::Month::February, 3, 4, 5, 6),
        instant(StartTimestamp::from_str("2023-02-03 04:05:06").unwrap())
    );
}

#[test]
fn start_year_month_day_hour_single_minute_second() {
    assert_eq!(
        datetime(2023, time::Month::February, 3, 4, 5, 6),
        instant(StartTimestamp::from_str("2023-02-03 4:05:06").unwrap())
    );
}

#[test]
fn start_year_month_day_hour_24h_minute_second() {
    assert_eq!(
        datetime(2023, time::Month::February, 3, 16, 5, 6),
        instant(StartTimestamp::from_str("2023-02-03 16:05:06").unwrap())
    );
}

#[test]
fn start_fields_of_each_precision() {
    assert_eq!(start("2023"), (2023, Month::January, 1, 0, 0, 0));
    assert_eq!(start("2023-02"), (2023, Month::February, 1, 0, 0, 0));
    assert_eq!(start("2023-02-03"), (2023, Month::February, 3, 0, 0, 0));
    assert_eq!(start("2023-02-03 4"), (2023, Month::February, 3, 4, 0, 0));
    assert_eq!(start("2023-02-03 04"), (2023, Month::February, 3, 4, 0, 0));
    assert_eq!(start("2023-02-03 4:05"), (2023, Month::February, 3, 4, 5, 0));
    assert_eq!(start("2023-02-03 04:05:06"), (2023, Month::February, 3, 4, 5, 6));
    assert_eq!(start("2023-02-03T04:05:06"), (2023, Month::February, 3, 4, 5, 6));
}

#[test]
fn start_separator_t_and_space_are_the_same() {
    for (with_t, with_space) in [
        ("2023-02-03T4", "2023-02-03 4"),
        ("2023-02-03T04", "2023-02-03 04"),
        ("2023-02-03T4:05", "2023-02-03 4:05"),
        ("2023-02-03T04:05:06", "2023-02-03 04:05:06"),
        ("1999-12-31T23:59:59", "1999-12-31 23:59:59"),
    ] {
        assert_eq!(
            StartTimestamp::from_str(with_t).unwrap(),
            StartTimestamp::from_str(with_space).unwrap()
        );
    }
}

#[test]
fn start_of_a_day_that_the_month_lacks_is_out_of_range() {
    let err = StartTimestamp::from_str("2023-02-30").unwrap_err();
    assert!(matches!(err, Error::Conversion(ConversionError::OutOfRange(_))));
    match err {
        Error::Conversion(ConversionError::OutOfRange(range)) => {
            assert_eq!(range.name(), "day");
            assert!(range.is_conditional());
        }
        Error::Parsed(_) => panic!("the text has a supported format"),
    }
}

#[test]
fn start_out_of_range_dates() {
    for s in [
        "2023-02-29",
        "2023-02-30",
        "2023-02-31",
        "2023-04-31",
        "2023-06-31",
        "2023-09-31",
        "2023-11-31",
        "1900-02-29",
        "2100-02-29",
        "2023-02-29 12:00:00",
        "2023-04-31T1",
        "-0001-02-29",
    ] {
        assert!(
            matches!(
                StartTimestamp::from_str(s),
                Err(Error::Conversion(ConversionError::OutOfRange(_)))
            ),
            "{s}"
        );
    }
}

#[test]
fn start_leap_days() {
    assert_eq!(start("2024-02-29"), (2024, Month::February, 29, 0, 0, 0));
    assert_eq!(start("2000-02-29"), (2000, Month::February, 29, 0, 0, 0));
    assert_eq!(start("0000-02-29"), (0, Month::February, 29, 0, 0, 0));
    assert_eq!(start("-0004-02-29"), (-4, Month::February, 29, 0, 0, 0));
    assert_eq!(start("-0400-02-29 7"), (-400, Month::February, 29, 7, 0, 0));
}

#[test]
fn start_last_day_of_each_month() {
    let days = [31u8, 28, 31, 30, 31, 30, 31, 31, 30, 31, 30, 31];
    for number in 1u8..=12 {
        let month = Month::from_number(number).unwrap();
        let last = days[usize::from(number) - 1];
        let ok = StartTimestamp::try_from(ParsedTimestamp::YearMonthDay(2023, month, last));
        assert_eq!(fields(ok.unwrap()), (2023, month, last, 0, 0, 0));
        let err = StartTimestamp::try_from(ParsedTimestamp::YearMonthDay(2023, month, last + 1));
        assert!(matches!(err, Err(ConversionError::OutOfRange(_))));
    }
}

#[test]
fn start_unknown_formats() {
    for s in [
        "not-a-date",
        "2023-13",
        "",
        " ",
        "2023 ",
        " 2023",
        "202",
        "20233",
        "2023-",
        "2023-2",
        "2023-00",
        "2023-02-",
        "2023-02-3",
        "2023-02-00",
        "2023-02-32",
        "2023-02-03 ",
        "2023-02-03T",
        "2023-02-03  4",
        "2023-02-03t4",
        "2023-02-03_4",
        "2023-02-03 24",
        "2023-02-03 004",
        "2023-02-03 4:",
        "2023-02-03 4:5",
        "2023-02-03 4:60",
        "2023-02-03 4:05:",
        "2023-02-03 4:05:6",
        "2023-02-03 4:05:60",
        "2023-02-03 4:05:061",
        "2023/02/03",
        "2023-02-03 04.05.06",
        "٢٠٢٣",
        "２０２３",
        "2023-02-03 04:05:06Z",
        "2023-02-03 04:05:06.5",
        "--2023",
        "+-2023",
        "- 2023",
    ] {
        assert!(
            matches!(StartTimestamp::from_str(s), Err(Error::Parsed(ParsedError::UnknownFormat))),
            "{s:?}"
        );
        assert_eq!(ParsedTimestamp::from_str(s), Err(ParsedError::UnknownFormat), "{s:?}");
    }
}

#[test]
fn start_trailing_input_is_rejected() {
    assert!(matches!(
        StartTimestamp::from_str("2023-02-03 04:05:06 extra"),
        Err(Error::Parsed(ParsedError::UnknownFormat))
    ));
    for extra in [" ", "0", ":", ":07", "Z", "\n", "-", "T", "\u{0}"] {
        let s = format!("2023-02-03 04:05:06{extra}");
        assert!(
            matches!(StartTimestamp::from_str(&s), Err(Error::Parsed(ParsedError::UnknownFormat))),
            "{s:?}"
        );
    }
}

#[test]
fn start_signed_years() {
    assert_eq!(start("+2023"), (2023, Month::January, 1, 0, 0, 0));
    assert_eq!(start("-2023"), (-2023, Month::January, 1, 0, 0, 0));
    assert_eq!(start("-0000"), (0, Month::January, 1, 0, 0, 0));
    assert_eq!(start("+0000-03"), (0, Month::March, 1, 0, 0, 0));
    assert_eq!(start("-9999-12-31 23:59:59"), (-9999, Month::December, 31, 23, 59, 59));
    assert_eq!(start("9999-12-31T23:59:59"), (9999, Month::December, 31, 23, 59, 59));
    assert_eq!(start("0001"), (1, Month::January, 1, 0, 0, 0));
}

#[test]
fn start_omitted_fields_take_their_minimum() {
    let cases = [
        (ParsedTimestamp::Year(1987), (1987, Month::January, 1, 0, 0, 0)),
        (ParsedTimestamp::YearMonth(1987, Month::June), (1987, Month::June, 1, 0, 0, 0)),
        (ParsedTimestamp::YearMonthDay(1987, Month::June, 17), (1987, Month::June, 17, 0, 0, 0)),
        (
            ParsedTimestamp::YearMonthDayHour(1987, Month::June, 17, 21),
            (1987, Month::June, 17, 21, 0, 0),
        ),
        (
            ParsedTimestamp::YearMonthDayHourMinute(1987, Month::June, 17, 21, 43),
            (1987, Month::June, 17, 21, 43, 0),
        ),
        (
            ParsedTimestamp::YearMonthDayHourMinuteSecond(1987, Month::June, 17, 21, 43, 59),
            (1987, Month::June, 17, 21, 43, 59),
        ),
    ];
    for (parsed, expected) in cases {
        assert_eq!(fields(StartTimestamp::try_from(parsed).unwrap()), expected);
    }
}

#[test]
fn start_of_fields_that_are_no_instant() {
    for parsed in [
        ParsedTimestamp::Year(10_000),
        ParsedTimestamp::Year(-10_000),
        ParsedTimestamp::Year(i32::MAX),
        ParsedTimestamp::Year(i32::MIN),
        ParsedTimestamp::YearMonth(10_000, Month::May),
        ParsedTimestamp::YearMonthDay(2023, Month::May, 0),
        ParsedTimestamp::YearMonthDay(2023, Month::May, 32),
        ParsedTimestamp::YearMonthDay(2023, Month::May, 255),
        ParsedTimestamp::YearMonthDayHour(2023, Month::May, 1, 24),
        ParsedTimestamp::YearMonthDayHour(2023, Month::May, 1, 255),
        ParsedTimestamp::YearMonthDayHourMinute(2023, Month::May, 1, 0, 60),
        ParsedTimestamp::YearMonthDayHourMinuteSecond(2023, Month::May, 1, 0, 0, 60),
        ParsedTimestamp::YearMonthDayHourMinuteSecond(2023, Month::February, 29, 0, 0, 0),
    ] {
        assert!(
            matches!(StartTimestamp::try_from(parsed), Err(ConversionError::OutOfRange(_))),
            "{parsed:?}"
        );
    }
}

#[test]
fn start_reports_the_date_before_the_time() {
    let parsed =
        ParsedTimestamp::YearMonthDayHourMinuteSecond(2023, Month::February, 30, 24, 60, 60);
    match StartTimestamp::try_from(parsed) {
        Err(ConversionError::OutOfRange(range)) => assert_eq!(range.name(), "day"),
        Ok(start) => panic!("{start:?}"),
    }
    let parsed =
        ParsedTimestamp::YearMonthDayHourMinuteSecond(10_000, Month::February, 30, 1, 1, 1);
    match StartTimestamp::try_from(parsed) {
        Err(ConversionError::OutOfRange(range)) => assert_eq!(range.name(), "year"),
        Ok(start) => panic!("{start:?}"),
    }
    let parsed =
        ParsedTimestamp::YearMonthDayHourMinuteSecond(2023, Month::February, 3, 24, 60, 60);
    match StartTimestamp::try_from(parsed) {
        Err(ConversionError::OutOfRange(range)) => assert_eq!(range.name(), "hour"),
        Ok(start) => panic!("{start:?}"),
    }
}

#[test]
fn start_year_bounds() {
    assert_eq!(
        fields(StartTimestamp::try_from(ParsedTimestamp::Year(9999)).unwrap()),
        (9999, Month::January, 1, 0, 0, 0)
    );
    assert_eq!(
        fields(StartTimestamp::try_from(ParsedTimestamp::Year(-9999)).unwrap()),
        (-9999, Month::January, 1, 0, 0, 0)
    );
    assert_eq!(flexible_time::calendar::MAX_YEAR, 9999);
    assert_eq!(flexible_time::calendar::MIN_YEAR, -9999);
    assert_eq!(Date::MAX.year(), flexible_time::calendar::MAX_YEAR);
    assert_eq!(Date::MIN.year(), flexible_time::calendar::MIN_YEAR);
}
