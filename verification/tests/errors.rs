use flexible_time::error::{ConversionError, Error, FormatError, ParsedError, ParsingError};
use flexible_time::format::Component;
use flexible_time::timestamp::StartTimestamp;
use std::str::FromStr;

fn day_out_of_range() -> time::error::ComponentRange {
    time::Date::from_calendar_date(2023, time::Month::February, 30).unwrap_err()
}

#[test]
fn message_of_a_parsed_error() {
    assert_eq!(ParsedError::UnknownFormat.message(), "unknown format");
}

#[test]
fn message_of_a_format_error() {
    assert_eq!(FormatError::InvalidLiteral.message(), "invalid literal");
    assert_eq!(FormatError::InvalidComponent(Component::Year).message(), "invalid year");
    assert_eq!(FormatError::InvalidComponent(Component::Month).message(), "invalid month");
    assert_eq!(FormatError::InvalidComponent(Component::Day).message(), "invalid day");
    assert_eq!(FormatError::InvalidComponent(Component::Hour).message(), "invalid hour");
    assert_eq!(FormatError::InvalidComponent(Component::Minute).message(), "invalid minute");
    assert_eq!(FormatError::InvalidComponent(Component::Second).message(), "invalid second");
}

#[test]
fn message_of_a_parsing_error() {
    assert_eq!(ParsingError::MissingInformation.message(), "missing information");
    assert_eq!(ParsingError::RemainingInformation.message(), "remaining input");
    assert_eq!(
        ParsingError::Format(FormatError::InvalidLiteral).message(),
        "format error: invalid literal"
    );
    assert_eq!(
        ParsingError::Format(FormatError::InvalidComponent(Component::Hour)).message(),
        "format error: invalid hour"
    );
}

#[test]
fn message_of_a_conversion_error() {
    let range = day_out_of_range();
    assert_eq!(
        ConversionError::OutOfRange(range).message(),
        format!("out of range: {range}")
    );
    assert_eq!(ConversionError::OutOfRange(range).message(), "out of range: day was not in range");
}

#[test]
fn message_of_an_error() {
    assert_eq!(Error::Parsed(ParsedError::UnknownFormat).message(), "parse error: unknown format");
    let range = day_out_of_range();
    assert_eq!(
        Error::Conversion(ConversionError::OutOfRange(range)).message(),
        format!("conversion error: out of range: {range}")
    );
    assert_eq!(
        StartTimestamp::from_str("2023-02-30").unwrap_err().message(),
        "conversion error: out of range: day was not in range"
    );
    assert_eq!(
        StartTimestamp::from_str("2023-02-3").unwrap_err().message(),
        "parse error: unknown format"
    );
}

#[test]
fn names_of_the_components() {
    assert_eq!(Component::Year.name(), "year");
    assert_eq!(Component::Month.name(), "month");
    assert_eq!(Component::Day.name(), "day");
    assert_eq!(Component::Hour.name(), "hour");
    assert_eq!(Component::Minute.name(), "minute");
    assert_eq!(Component::Second.name(), "second");
}

#[test]
fn errors_are_made_from_the_errors_they_hold() {
    let range = day_out_of_range();
    assert!(matches!(ConversionError::from(range), ConversionError::OutOfRange(r) if r == range));
    assert_eq!(
        ParsingError::from(FormatError::InvalidLiteral),
        ParsingError::Format(FormatError::InvalidLiteral)
    );
    assert!(matches!(
        Error::from(ConversionError::OutOfRange(range)),
        Error::Conversion(ConversionError::OutOfRange(r)) if r == range
    ));
    assert!(matches!(
        Error::from(ParsedError::UnknownFormat),
        Error::Parsed(ParsedError::UnknownFormat)
    ));
}
