use flexible_time::calendar::Month;
use flexible_time::primitives::parse_year_month_day_hour_minute_second;
use flexible_time::timestamp::{ParsedTimestamp, StartTimestamp};
use std::str::FromStr;
use time::format_description::parse_borrowed;
use time::Date;

fn start(
    year: i32,
    month: u8,
    day: u8,
    hour: u8,
    minute: u8,
    second: u8,
) -> StartTimestamp {
    StartTimestamp::try_from(ParsedTimestamp::YearMonthDayHourMinuteSecond(
        year,
        Month::from_number(month).unwrap(),
        day,
        hour,
        minute,
        second,
    ))
    .unwrap()
}

fn assert_round_trip(timestamp: StartTimestamp) {
    let text = timestamp.to_text();
    let parsed = parse_year_month_day_hour_minute_second(&text).unwrap();
    assert_eq!(
        parsed,
        ParsedTimestamp::YearMonthDayHourMinuteSecond(
            timestamp.year(),
            timestamp.month(),
            timestamp.day(),
            timestamp.hour(),
            timestamp.minute(),
            timestamp.second()
        )
    );
    assert_eq!(StartTimestamp::try_from(parsed).unwrap(), timestamp);
    let text = String::from_utf8(text).unwrap();
    assert_eq!(ParsedTimestamp::from_str(&text), Ok(parsed));
    assert_eq!(StartTimestamp::from_str(&text).unwrap(), timestamp);
}

#[test]
fn text_of_a_start_timestamp() {
    assert_eq!(start(2023, 2, 3, 4, 5, 6).to_text(), b"2023-02-03 04:05:06");
    assert_eq!(start(2023, 12, 31, 23, 59, 59).to_text(), b"2023-12-31 23:59:59");
    assert_eq!(start(0, 1, 1, 0, 0, 0).to_text(), b"0000-01-01 00:00:00");
    assert_eq!(start(7, 10, 20, 10, 20, 30).to_text(), b"0007-10-20 10:20:30");
    assert_eq!(start(-7, 10, 20, 10, 20, 30).to_text(), b"-0007-10-20 10:20:30");
    assert_eq!(start(-9999, 1, 1, 0, 0, 0).to_text(), b"-9999-01-01 00:00:00");
    assert_eq!(start(9999, 12, 31, 23, 59, 59).to_text(), b"9999-12-31 23:59:59");
    assert_eq!(
        StartTimestamp::from_str("2023").unwrap().to_text(),
        b"2023-01-01 00:00:00"
    );
    assert_eq!(
        StartTimestamp::from_str("2023-02-03T4").unwrap().to_text(),
        b"2023-02-03 04:00:00"
    );
}

#[test]
fn text_gives_the_timestamp_back() {
    assert_round_trip(start(2023, 2, 3, 4, 5, 6));
    assert_round_trip(start(-9999, 1, 1, 0, 0, 0));
    assert_round_trip(start(9999, 12, 31, 23, 59, 59));
    assert_round_trip(start(0, 2, 29, 12, 0, 0));
    assert_round_trip(start(-1, 6, 30, 9, 9, 9));
    let texts =
        ["2023", "2023-02", "2023-02-03", "2023-02-03 4", "2023-02-03 4:05", "-0400-02-29T1:02"];
    for s in texts {
        assert_round_trip(StartTimestamp::from_str(s).unwrap());
    }
}

#[test]
fn text_gives_the_timestamp_back_for_many_timestamps() {
    let mut year = -9999;
    let mut count = 0u32;
    while year <= 9999 {
        for month in 1..=12u8 {
            let day = 1 + ((year + 9999) as u32 % 28) as u8;
            let hour = ((year + 9999) as u32 % 24) as u8;
            let minute = ((year + 9999) as u32 % 60) as u8;
            let second = ((year + 9999) as u32 * 7 % 60) as u8;
            assert_round_trip(start(year, month, day, hour, minute, second));
            count += 1;
        }
        year += 61;
    }
    assert!(count > 3000);
}

#[test]
fn text_is_the_one_that_the_time_crate_writes() {
    let format = parse_borrowed::<1>("[year]-[month]-[day] [hour]:[minute]:[second]").unwrap();
    for (year, month, day, hour, minute, second) in [
        (2023, 2, 3, 4, 5, 6),
        (0, 1, 1, 0, 0, 0),
        (-1, 12, 31, 23, 59, 59),
        (-9999, 1, 1, 0, 0, 0),
        (9999, 12, 31, 23, 59, 59),
        (12, 3, 4, 5, 6, 7),
        (-123, 10, 10, 10, 10, 10),
    ] {
        let written = Date::from_calendar_date(year, time::Month::try_from(month).unwrap(), day)
            .unwrap()
            .with_hms(hour, minute, second)
            .unwrap()
            .assume_utc()
            .format(&format)
            .unwrap();
        let text = start(year, month, day, hour, minute, second).to_text();
        assert_eq!(written.as_bytes(), text);
    }
}
