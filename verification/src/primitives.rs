//! Parsing primitives: the six formats of a timestamp, from a year alone to
//! a year, month, day, hour, minute and second.

use crate::error::{FormatError, ParsingError};
use crate::format::{
    followed_by, item_at, items_at_start, lemma_items_make_fields_known, lemma_items_take_bytes,
    lemma_one_more_item, parse_items, Component, FormatItem, Parsed, COLON, HYPHEN, LETTER_T,
    SPACE,
};
use crate::timestamp::ParsedTimestamp;
use vstd::prelude::*;

verus! {

/// Reads `items` from `input`, which they must take whole, and hands the
/// fields to `f`, which makes the timestamp.
pub fn parse_format_opt<F>(input: &[u8], items: &[FormatItem], f: F) -> (res: Result<
    ParsedTimestamp,
    ParsingError,
>) where F: FnOnce(Parsed) -> Option<ParsedTimestamp>
    requires
        items_at_start(input@, items@) matches Ok((parsed, used)) ==> used < input@.len()
            || call_requires(f, (parsed,)),
    ensures
        match items_at_start(input@, items@) {
            Err(e) => res == Err::<ParsedTimestamp, ParsingError>(ParsingError::Format(e)),
            Ok((parsed, used)) => {
                if used < input@.len() {
                    res == Err::<ParsedTimestamp, ParsingError>(ParsingError::RemainingInformation)
                } else {
                    match res {
                        Ok(timestamp) => call_ensures(f, (parsed,), Some(timestamp)),
                        Err(e) => e == ParsingError::MissingInformation && call_ensures(
                            f,
                            (parsed,),
                            None,
                        ),
                    }
                }
            },
        },
{
    let (parsed, used) = match parse_items(input, items) {
        Ok(read) => read,
        Err(e) => {
            return Err(ParsingError::Format(e));
        },
    };
    if used < input.len() {
        return Err(ParsingError::RemainingInformation);
    }
    match f(parsed) {
        Some(timestamp) => Ok(timestamp),
        None => Err(ParsingError::MissingInformation),
    }
}

/// The format `YYYY`.
pub open spec fn year_format() -> Seq<FormatItem> {
    seq![FormatItem::Component(Component::Year)]
}

/// The format `YYYY-MM`.
pub open spec fn year_month_format() -> Seq<FormatItem> {
    seq![
        FormatItem::Component(Component::Year),
        FormatItem::Literal(HYPHEN),
        FormatItem::Component(Component::Month),
    ]
}

/// The format `YYYY-MM-DD`.
pub open spec fn year_month_day_format() -> Seq<FormatItem> {
    seq![
        FormatItem::Component(Component::Year),
        FormatItem::Literal(HYPHEN),
        FormatItem::Component(Component::Month),
        FormatItem::Literal(HYPHEN),
        FormatItem::Component(Component::Day),
    ]
}

/// The format `YYYY-MM-DD H`, with a `T` or a space before the hour.
pub open spec fn year_month_day_hour_format() -> Seq<FormatItem> {
    seq![
        FormatItem::Component(Component::Year),
        FormatItem::Literal(HYPHEN),
        FormatItem::Component(Component::Month),
        FormatItem::Literal(HYPHEN),
        FormatItem::Component(Component::Day),
        FormatItem::First(LETTER_T, SPACE),
        FormatItem::Component(Component::Hour),
    ]
}

/// The format `YYYY-MM-DD H:MM`, with a `T` or a space before the hour.
pub open spec fn year_month_day_hour_minute_format() -> Seq<FormatItem> {
    seq![
        FormatItem::Component(Component::Year),
        FormatItem::Literal(HYPHEN),
        FormatItem::Component(Component::Month),
        FormatItem::Literal(HYPHEN),
        FormatItem::Component(Component::Day),
        FormatItem::First(LETTER_T, SPACE),
        FormatItem::Component(Component::Hour),
        FormatItem::Literal(COLON),
        FormatItem::Component(Component::Minute),
    ]
}

/// The format `YYYY-MM-DD H:MM:SS`, with a `T` or a space before the hour.
pub open spec fn year_month_day_hour_minute_second_format() -> Seq<FormatItem> {
    seq![
        FormatItem::Component(Component::Year),
        FormatItem::Literal(HYPHEN),
        FormatItem::Component(Component::Month),
        FormatItem::Literal(HYPHEN),
        FormatItem::Component(Component::Day),
        FormatItem::First(LETTER_T, SPACE),
        FormatItem::Component(Component::Hour),
        FormatItem::Literal(COLON),
        FormatItem::Component(Component::Minute),
        FormatItem::Literal(COLON),
        FormatItem::Component(Component::Second),
    ]
}

/// The timestamp of the year that `parsed` holds.
pub open spec fn to_year(parsed: Parsed) -> Option<ParsedTimestamp> {
    match parsed.year {
        Some(year) => Some(ParsedTimestamp::Year(year)),
        _ => None,
    }
}

/// The timestamp of the year and month that `parsed` holds.
pub open spec fn to_year_month(parsed: Parsed) -> Option<ParsedTimestamp> {
    match (parsed.year, parsed.month) {
        (Some(year), Some(month)) => Some(ParsedTimestamp::YearMonth(year, month)),
        _ => None,
    }
}

/// The timestamp of the year, month and day that `parsed` holds.
pub open spec fn to_year_month_day(parsed: Parsed) -> Option<ParsedTimestamp> {
    match (parsed.year, parsed.month, parsed.day) {
        (Some(year), Some(month), Some(day)) => Some(
            ParsedTimestamp::YearMonthDay(year, month, day),
        ),
        _ => None,
    }
}

/// The timestamp of the year, month, day and hour that `parsed` holds.
pub open spec fn to_year_month_day_hour(parsed: Parsed) -> Option<ParsedTimestamp> {
    match (parsed.year, parsed.month, parsed.day, parsed.hour_24) {
        (Some(year), Some(month), Some(day), Some(hour)) => Some(
            ParsedTimestamp::YearMonthDayHour(year, month, day, hour),
        ),
        _ => None,
    }
}

/// The timestamp of the year, month, day, hour and minute that `parsed`
/// holds.
pub open spec fn to_year_month_day_hour_minute(parsed: Parsed) -> Option<ParsedTimestamp> {
    match (parsed.year, parsed.month, parsed.day, parsed.hour_24, parsed.minute) {
        (Some(year), Some(month), Some(day), Some(hour), Some(minute)) => Some(
            ParsedTimestamp::YearMonthDayHourMinute(year, month, day, hour, minute),
        ),
        _ => None,
    }
}

/// The timestamp of the year, month, day, hour, minute and second that
/// `parsed` holds.
pub open spec fn to_year_month_day_hour_minute_second(parsed: Parsed) -> Option<ParsedTimestamp> {
    match (parsed.year, parsed.month, parsed.day, parsed.hour_24, parsed.minute, parsed.second) {
        (Some(year), Some(month), Some(day), Some(hour), Some(minute), Some(second)) => Some(
            ParsedTimestamp::YearMonthDayHourMinuteSecond(year, month, day, hour, minute, second),
        ),
        _ => None,
    }
}

/// What reading a year at the start of `s` gives.
pub open spec fn read_year(s: Seq<u8>) -> Result<(Parsed, int), FormatError> {
    item_at(s, 0, FormatItem::Component(Component::Year), Parsed::empty())
}

/// What reading a year and a month at the start of `s` gives: what
/// [`read_year`] gives, and behind it a `-` and the month.
pub open spec fn read_year_month(s: Seq<u8>) -> Result<
    (Parsed, int),
    FormatError,
> {
    followed_by(
        followed_by(read_year(s), s, FormatItem::Literal(HYPHEN)),
        s,
        FormatItem::Component(Component::Month),
    )
}

/// What reading a year, a month and a day at the start of `s` gives: what
/// [`read_year_month`] gives, and behind it a `-` and the day.
pub open spec fn read_year_month_day(s: Seq<u8>) -> Result<
    (Parsed, int),
    FormatError,
> {
    followed_by(
        followed_by(read_year_month(s), s, FormatItem::Literal(HYPHEN)),
        s,
        FormatItem::Component(Component::Day),
    )
}

/// What reading a year, a month, a day and an hour at the start of `s` gives:
/// what [`read_year_month_day`] gives, and behind it a `T` or a space, and the
/// hour.
pub open spec fn read_year_month_day_hour(s: Seq<u8>) -> Result<
    (Parsed, int),
    FormatError,
> {
    followed_by(
        followed_by(read_year_month_day(s), s, FormatItem::First(LETTER_T, SPACE)),
        s,
        FormatItem::Component(Component::Hour),
    )
}

/// What reading a year, a month, a day, an hour and a minute at the start of
/// `s` gives: what [`read_year_month_day_hour`] gives, and behind it a `:` and
/// the minute.
pub open spec fn read_year_month_day_hour_minute(s: Seq<u8>) -> Result<
    (Parsed, int),
    FormatError,
> {
    followed_by(
        followed_by(read_year_month_day_hour(s), s, FormatItem::Literal(COLON)),
        s,
        FormatItem::Component(Component::Minute),
    )
}

/// What reading a year, a month, a day, an hour, a minute and a second at the
/// start of `s` gives: what [`read_year_month_day_hour_minute`] gives, and
/// behind it a `:` and the second.
pub open spec fn read_year_month_day_hour_minute_second(s: Seq<u8>) -> Result<
    (Parsed, int),
    FormatError,
> {
    followed_by(
        followed_by(read_year_month_day_hour_minute(s), s, FormatItem::Literal(COLON)),
        s,
        FormatItem::Component(Component::Second),
    )
}

/// What a format makes of a text `s`, given what reading its items gives
/// and the timestamp that the fields make: the error of the first item that
/// `s` does not hold; else [`ParsingError::RemainingInformation`] where the
/// items end before `s` does; else the timestamp, or
/// [`ParsingError::MissingInformation`] where there is none.
pub open spec fn outcome(
    read: Result<(Parsed, int), FormatError>,
    s: Seq<u8>,
    extract: spec_fn(Parsed) -> Option<ParsedTimestamp>,
) -> Result<ParsedTimestamp, ParsingError> {
    match read {
        Err(e) => Err(ParsingError::Format(e)),
        Ok((parsed, used)) => {
            if used < s.len() {
                Err(ParsingError::RemainingInformation)
            } else {
                match extract(parsed) {
                    Some(timestamp) => Ok(timestamp),
                    None => Err(ParsingError::MissingInformation),
                }
            }
        },
    }
}

/// What [`parse_year`] returns for the text `s`.
pub open spec fn spec_parse_year(s: Seq<u8>) -> Result<
    ParsedTimestamp,
    ParsingError,
> {
    outcome(
        read_year(s),
        s,
        |parsed: Parsed| to_year(parsed),
    )
}

/// What [`parse_year_month`] returns for the text `s`.
pub open spec fn spec_parse_year_month(s: Seq<u8>) -> Result<
    ParsedTimestamp,
    ParsingError,
> {
    outcome(
        read_year_month(s),
        s,
        |parsed: Parsed| to_year_month(parsed),
    )
}

/// What [`parse_year_month_day`] returns for the text `s`.
pub open spec fn spec_parse_year_month_day(s: Seq<u8>) -> Result<
    ParsedTimestamp,
    ParsingError,
> {
    outcome(
        read_year_month_day(s),
        s,
        |parsed: Parsed| to_year_month_day(parsed),
    )
}

/// What [`parse_year_month_day_hour`] returns for the text `s`.
pub open spec fn spec_parse_year_month_day_hour(s: Seq<u8>) -> Result<
    ParsedTimestamp,
    ParsingError,
> {
    outcome(
        read_year_month_day_hour(s),
        s,
        |parsed: Parsed| to_year_month_day_hour(parsed),
    )
}

/// What [`parse_year_month_day_hour_minute`] returns for the text `s`.
pub open spec fn spec_parse_year_month_day_hour_minute(s: Seq<u8>) -> Result<
    ParsedTimestamp,
    ParsingError,
> {
    outcome(
        read_year_month_day_hour_minute(s),
        s,
        |parsed: Parsed| to_year_month_day_hour_minute(parsed),
    )
}

/// What [`parse_year_month_day_hour_minute_second`] returns for the text `s`.
pub open spec fn spec_parse_year_month_day_hour_minute_second(s: Seq<u8>) -> Result<
    ParsedTimestamp,
    ParsingError,
> {
    outcome(
        read_year_month_day_hour_minute_second(s),
        s,
        |parsed: Parsed| to_year_month_day_hour_minute_second(parsed),
    )
}

/// Reading the items of the format `YYYY` is reading a year.
pub proof fn lemma_year_format(s: Seq<u8>)
    ensures
        items_at_start(s, year_format()) == read_year(s),
{
    let format = year_format();
    assert(format.take(0) =~= Seq::<FormatItem>::empty());
    assert(format.take(1) =~= format);
    lemma_one_more_item(s, format, 0, 0, 0, Parsed::empty());
}

/// Reading the items of the format `YYYY-MM` is reading a year and a month.
pub proof fn lemma_year_month_format(s: Seq<u8>)
    ensures
        items_at_start(s, year_month_format())
            == read_year_month(s),
{
    let format = year_month_format();
    assert(format.take(1) =~= year_format());
    assert(format.take(3) =~= format);
    lemma_year_format(s);
    lemma_one_more_item(s, format, 1, 0, 0, Parsed::empty());
    lemma_one_more_item(s, format, 2, 0, 0, Parsed::empty());
}

/// Reading the items of the format `YYYY-MM-DD` is reading a year, a month and
/// a day.
pub proof fn lemma_year_month_day_format(s: Seq<u8>)
    ensures
        items_at_start(s, year_month_day_format())
            == read_year_month_day(s),
{
    let format = year_month_day_format();
    assert(format.take(3) =~= year_month_format());
    assert(format.take(5) =~= format);
    lemma_year_month_format(s);
    lemma_one_more_item(s, format, 3, 0, 0, Parsed::empty());
    lemma_one_more_item(s, format, 4, 0, 0, Parsed::empty());
}

/// Reading the items of the format `YYYY-MM-DD H` is reading a year, a month, a
/// day and an hour.
pub proof fn lemma_year_month_day_hour_format(s: Seq<u8>)
    ensures
        items_at_start(s, year_month_day_hour_format())
            == read_year_month_day_hour(s),
{
    let format = year_month_day_hour_format();
    assert(format.take(5) =~= year_month_day_format());
    assert(format.take(7) =~= format);
    lemma_year_month_day_format(s);
    lemma_one_more_item(s, format, 5, 0, 0, Parsed::empty());
    lemma_one_more_item(s, format, 6, 0, 0, Parsed::empty());
}

/// Reading the items of the format `YYYY-MM-DD H:MM` is reading a year, a
/// month, a day, an hour and a minute.
pub proof fn lemma_year_month_day_hour_minute_format(s: Seq<u8>)
    ensures
        items_at_start(s, year_month_day_hour_minute_format())
            == read_year_month_day_hour_minute(s),
{
    let format = year_month_day_hour_minute_format();
    assert(format.take(7) =~= year_month_day_hour_format());
    assert(format.take(9) =~= format);
    lemma_year_month_day_hour_format(s);
    lemma_one_more_item(s, format, 7, 0, 0, Parsed::empty());
    lemma_one_more_item(s, format, 8, 0, 0, Parsed::empty());
}

/// Reading the items of the format `YYYY-MM-DD H:MM:SS` is reading a year, a
/// month, a day, an hour, a minute and a second.
pub proof fn lemma_year_month_day_hour_minute_second_format(s: Seq<u8>)
    ensures
        items_at_start(s, year_month_day_hour_minute_second_format())
            == read_year_month_day_hour_minute_second(s),
{
    let format = year_month_day_hour_minute_second_format();
    assert(format.take(9) =~= year_month_day_hour_minute_format());
    assert(format.take(11) =~= format);
    lemma_year_month_day_hour_minute_format(s);
    lemma_one_more_item(s, format, 9, 0, 0, Parsed::empty());
    lemma_one_more_item(s, format, 10, 0, 0, Parsed::empty());
}

/// The format `YYYY` yields a timestamp exactly for the texts that its items
/// take whole; the timestamp then holds a year, each in the bounds of its
/// component; and no field is ever missing.
pub proof fn lemma_parse_year(s: Seq<u8>)
    ensures
        spec_parse_year(s) is Ok <==> (
        read_year(s) matches Ok((_, used)) && used == s.len()),
        read_year(s) == items_at_start(
            s,
            year_format(),
        ),
        spec_parse_year(s) matches Ok(timestamp) ==> (
        timestamp is Year && timestamp.in_range()),
        spec_parse_year(s) != Err::<ParsedTimestamp, ParsingError>(
            ParsingError::MissingInformation,
        ),
{
    let format = year_format();
    lemma_year_format(s);
    if items_at_start(s, format) is Ok {
        lemma_items_take_bytes(s, format, 0, 0, Parsed::empty());
        lemma_items_make_fields_known(s, format, 0, 0, Parsed::empty());
    }
    assert(format[0] == FormatItem::Component(Component::Year));
}

/// The format `YYYY-MM` yields a timestamp exactly for the texts that its items
/// take whole; the timestamp then holds a year and a month, each in the bounds
/// of its component; and no field is ever missing.
pub proof fn lemma_parse_year_month(s: Seq<u8>)
    ensures
        spec_parse_year_month(s) is Ok <==> (
        read_year_month(s) matches Ok((_, used)) && used == s.len()),
        read_year_month(s) == items_at_start(
            s,
            year_month_format(),
        ),
        spec_parse_year_month(s) matches Ok(timestamp) ==> (
        timestamp is YearMonth && timestamp.in_range()),
        spec_parse_year_month(s) != Err::<ParsedTimestamp, ParsingError>(
            ParsingError::MissingInformation,
        ),
{
    let format = year_month_format();
    lemma_year_month_format(s);
    if items_at_start(s, format) is Ok {
        lemma_items_take_bytes(s, format, 0, 0, Parsed::empty());
        lemma_items_make_fields_known(s, format, 0, 0, Parsed::empty());
    }
    assert(format[0] == FormatItem::Component(Component::Year));
    assert(format[2] == FormatItem::Component(Component::Month));
}

/// The format `YYYY-MM-DD` yields a timestamp exactly for the texts that its
/// items take whole; the timestamp then holds a year, a month and a day, each
/// in the bounds of its component; and no field is ever missing.
pub proof fn lemma_parse_year_month_day(s: Seq<u8>)
    ensures
        spec_parse_year_month_day(s) is Ok <==> (
        read_year_month_day(s) matches Ok((_, used)) && used == s.len()),
        read_year_month_day(s) == items_at_start(
            s,
            year_month_day_format(),
        ),
        spec_parse_year_month_day(s) matches Ok(timestamp) ==> (
        timestamp is YearMonthDay && timestamp.in_range()),
        spec_parse_year_month_day(s) != Err::<ParsedTimestamp, ParsingError>(
            ParsingError::MissingInformation,
        ),
{
    let format = year_month_day_format();
    lemma_year_month_day_format(s);
    if items_at_start(s, format) is Ok {
        lemma_items_take_bytes(s, format, 0, 0, Parsed::empty());
        lemma_items_make_fields_known(s, format, 0, 0, Parsed::empty());
    }
    assert(format[0] == FormatItem::Component(Component::Year));
    assert(format[2] == FormatItem::Component(Component::Month));
    assert(format[4] == FormatItem::Component(Component::Day));
}

/// The format `YYYY-MM-DD H` yields a timestamp exactly for the texts that its
/// items take whole; the timestamp then holds a year, a month, a day and an
/// hour, each in the bounds of its component; and no field is ever missing.
pub proof fn lemma_parse_year_month_day_hour(s: Seq<u8>)
    ensures
        spec_parse_year_month_day_hour(s) is Ok <==> (
        read_year_month_day_hour(s) matches Ok((_, used)) && used == s.len()),
        read_year_month_day_hour(s) == items_at_start(
            s,
            year_month_day_hour_format(),
        ),
        spec_parse_year_month_day_hour(s) matches Ok(timestamp) ==> (
        timestamp is YearMonthDayHour && timestamp.in_range()),
        spec_parse_year_month_day_hour(s) != Err::<ParsedTimestamp, ParsingError>(
            ParsingError::MissingInformation,
        ),
{
    let format = year_month_day_hour_format();
    lemma_year_month_day_hour_format(s);
    if items_at_start(s, format) is Ok {
        lemma_items_take_bytes(s, format, 0, 0, Parsed::empty());
        lemma_items_make_fields_known(s, format, 0, 0, Parsed::empty());
    }
    assert(format[0] == FormatItem::Component(Component::Year));
    assert(format[2] == FormatItem::Component(Component::Month));
    assert(format[4] == FormatItem::Component(Component::Day));
    assert(format[6] == FormatItem::Component(Component::Hour));
}

/// The format `YYYY-MM-DD H:MM` yields a timestamp exactly for the texts that
/// its items take whole; the timestamp then holds a year, a month, a day, an
/// hour and a minute, each in the bounds of its component; and no field is ever
/// missing.
pub proof fn lemma_parse_year_month_day_hour_minute(s: Seq<u8>)
    ensures
        spec_parse_year_month_day_hour_minute(s) is Ok <==> (
        read_year_month_day_hour_minute(s) matches Ok((_, used)) && used == s.len()),
        read_year_month_day_hour_minute(s) == items_at_start(
            s,
            year_month_day_hour_minute_format(),
        ),
        spec_parse_year_month_day_hour_minute(s) matches Ok(timestamp) ==> (
        timestamp is YearMonthDayHourMinute && timestamp.in_range()),
        spec_parse_year_month_day_hour_minute(s) != Err::<ParsedTimestamp, ParsingError>(
            ParsingError::MissingInformation,
        ),
{
    let format = year_month_day_hour_minute_format();
    lemma_year_month_day_hour_minute_format(s);
    if items_at_start(s, format) is Ok {
        lemma_items_take_bytes(s, format, 0, 0, Parsed::empty());
        lemma_items_make_fields_known(s, format, 0, 0, Parsed::empty());
    }
    assert(format[0] == FormatItem::Component(Component::Year));
    assert(format[2] == FormatItem::Component(Component::Month));
    assert(format[4] == FormatItem::Component(Component::Day));
    assert(format[6] == FormatItem::Component(Component::Hour));
    assert(format[8] == FormatItem::Component(Component::Minute));
}

/// The format `YYYY-MM-DD H:MM:SS` yields a timestamp exactly for the texts
/// that its items take whole; the timestamp then holds a year, a month, a day,
/// an hour, a minute and a second, each in the bounds of its component; and no
/// field is ever missing.
pub proof fn lemma_parse_year_month_day_hour_minute_second(s: Seq<u8>)
    ensures
        spec_parse_year_month_day_hour_minute_second(s) is Ok <==> (
        read_year_month_day_hour_minute_second(s) matches Ok((_, used)) && used == s.len()),
        read_year_month_day_hour_minute_second(s) == items_at_start(
            s,
            year_month_day_hour_minute_second_format(),
        ),
        spec_parse_year_month_day_hour_minute_second(s) matches Ok(timestamp) ==> (
        timestamp is YearMonthDayHourMinuteSecond && timestamp.in_range()),
        spec_parse_year_month_day_hour_minute_second(s) != Err::<ParsedTimestamp, ParsingError>(
            ParsingError::MissingInformation,
        ),
{
    let format = year_month_day_hour_minute_second_format();
    lemma_year_month_day_hour_minute_second_format(s);
    if items_at_start(s, format) is Ok {
        lemma_items_take_bytes(s, format, 0, 0, Parsed::empty());
        lemma_items_make_fields_known(s, format, 0, 0, Parsed::empty());
    }
    assert(format[0] == FormatItem::Component(Component::Year));
    assert(format[2] == FormatItem::Component(Component::Month));
    assert(format[4] == FormatItem::Component(Component::Day));
    assert(format[6] == FormatItem::Component(Component::Hour));
    assert(format[8] == FormatItem::Component(Component::Minute));
    assert(format[10] == FormatItem::Component(Component::Second));
}

/// Parse year.
///
/// The text must have the format `YYYY` and nothing behind it. The year may
/// have a `+` or a `-` before its four digits.
pub fn parse_year(input: &[u8]) -> (res: Result<
    ParsedTimestamp,
    ParsingError,
>)
    ensures
        res == spec_parse_year(input@),
        res matches Ok(timestamp) ==> (
        timestamp is Year && timestamp.in_range()),
        res != Err::<ParsedTimestamp, ParsingError>(ParsingError::MissingInformation),
{
    let format = [FormatItem::Component(Component::Year)];
    proof {
        assert(format@ =~= year_format());
        lemma_parse_year(input@);
    }
    let extract = |parsed: Parsed| -> (timestamp: Option<ParsedTimestamp>)
        ensures timestamp == to_year(parsed)
    {
        Some(ParsedTimestamp::Year(parsed.year?))
    };
    parse_format_opt(input, &format, extract)
}

/// Parse year, and month.
///
/// The text must have the format `YYYY-MM` and nothing behind it. The month has
/// two digits.
pub fn parse_year_month(input: &[u8]) -> (res: Result<
    ParsedTimestamp,
    ParsingError,
>)
    ensures
        res == spec_parse_year_month(input@),
        res matches Ok(timestamp) ==> (
        timestamp is YearMonth && timestamp.in_range()),
        res != Err::<ParsedTimestamp, ParsingError>(ParsingError::MissingInformation),
{
    let format = [
        FormatItem::Component(Component::Year),
        FormatItem::Literal(HYPHEN),
        FormatItem::Component(Component::Month),
    ];
    proof {
        assert(format@ =~= year_month_format());
        lemma_parse_year_month(input@);
    }
    let extract = |parsed: Parsed| -> (timestamp: Option<ParsedTimestamp>)
        ensures timestamp == to_year_month(parsed)
    {
        Some(ParsedTimestamp::YearMonth(parsed.year?, parsed.month?))
    };
    parse_format_opt(input, &format, extract)
}

/// Parse year, month, and day.
///
/// The text must have the format `YYYY-MM-DD` and nothing behind it. The day
/// has two digits and is one of 1 to 31; whether the month has that day is not
/// asked here.
pub fn parse_year_month_day(input: &[u8]) -> (res: Result<
    ParsedTimestamp,
    ParsingError,
>)
    ensures
        res == spec_parse_year_month_day(input@),
        res matches Ok(timestamp) ==> (
        timestamp is YearMonthDay && timestamp.in_range()),
        res != Err::<ParsedTimestamp, ParsingError>(ParsingError::MissingInformation),
{
    let format = [
        FormatItem::Component(Component::Year),
        FormatItem::Literal(HYPHEN),
        FormatItem::Component(Component::Month),
        FormatItem::Literal(HYPHEN),
        FormatItem::Component(Component::Day),
    ];
    proof {
        assert(format@ =~= year_month_day_format());
        lemma_parse_year_month_day(input@);
    }
    let extract = |parsed: Parsed| -> (timestamp: Option<ParsedTimestamp>)
        ensures timestamp == to_year_month_day(parsed)
    {
        Some(
            ParsedTimestamp::YearMonthDay(
                parsed.year?,
                parsed.month?,
                parsed.day?,
            ),
        )
    };
    parse_format_opt(input, &format, extract)
}

/// Parse year, month, day, and hour.
///
/// The text must have the format `YYYY-MM-DD H` and nothing behind it. A `T` or
/// a space stands before the hour, which has one or two digits.
pub fn parse_year_month_day_hour(input: &[u8]) -> (res: Result<
    ParsedTimestamp,
    ParsingError,
>)
    ensures
        res == spec_parse_year_month_day_hour(input@),
        res matches Ok(timestamp) ==> (
        timestamp is YearMonthDayHour && timestamp.in_range()),
        res != Err::<ParsedTimestamp, ParsingError>(ParsingError::MissingInformation),
{
    let format = [
        FormatItem::Component(Component::Year),
        FormatItem::Literal(HYPHEN),
        FormatItem::Component(Component::Month),
        FormatItem::Literal(HYPHEN),
        FormatItem::Component(Component::Day),
        FormatItem::First(LETTER_T, SPACE),
        FormatItem::Component(Component::Hour),
    ];
    proof {
        assert(format@ =~= year_month_day_hour_format());
        lemma_parse_year_month_day_hour(input@);
    }
    let extract = |parsed: Parsed| -> (timestamp: Option<ParsedTimestamp>)
        ensures timestamp == to_year_month_day_hour(parsed)
    {
        Some(
            ParsedTimestamp::YearMonthDayHour(
                parsed.year?,
                parsed.month?,
                parsed.day?,
                parsed.hour_24?,
            ),
        )
    };
    parse_format_opt(input, &format, extract)
}

/// Parse year, month, day, hour, and minute.
///
/// The text must have the format `YYYY-MM-DD H:MM` and nothing behind it. A `T`
/// or a space stands before the hour, which has one or two digits; the minute
/// has two.
pub fn parse_year_month_day_hour_minute(input: &[u8]) -> (res: Result<
    ParsedTimestamp,
    ParsingError,
>)
    ensures
        res == spec_parse_year_month_day_hour_minute(input@),
        res matches Ok(timestamp) ==> (
        timestamp is YearMonthDayHourMinute && timestamp.in_range()),
        res != Err::<ParsedTimestamp, ParsingError>(ParsingError::MissingInformation),
{
    let format = [
        FormatItem::Component(Component::Year),
        FormatItem::Literal(HYPHEN),
        FormatItem::Component(Component::Month),
        FormatItem::Literal(HYPHEN),
        FormatItem::Component(Component::Day),
        FormatItem::First(LETTER_T, SPACE),
        FormatItem::Component(Component::Hour),
        FormatItem::Literal(COLON),
        FormatItem::Component(Component::Minute),
    ];
    proof {
        assert(format@ =~= year_month_day_hour_minute_format());
        lemma_parse_year_month_day_hour_minute(input@);
    }
    let extract = |parsed: Parsed| -> (timestamp: Option<ParsedTimestamp>)
        ensures timestamp == to_year_month_day_hour_minute(parsed)
    {
        Some(
            ParsedTimestamp::YearMonthDayHourMinute(
                parsed.year?,
                parsed.month?,
                parsed.day?,
                parsed.hour_24?,
                parsed.minute?,
            ),
        )
    };
    parse_format_opt(input, &format, extract)
}

/// Parse year, month, day, hour, minute, and second.
///
/// The text must have the format `YYYY-MM-DD H:MM:SS` and nothing behind it. A
/// `T` or a space stands before the hour, which has one or two digits; the
/// minute and the second have two.
pub fn parse_year_month_day_hour_minute_second(input: &[u8]) -> (res: Result<
    ParsedTimestamp,
    ParsingError,
>)
    ensures
        res == spec_parse_year_month_day_hour_minute_second(input@),
        res matches Ok(timestamp) ==> (
        timestamp is YearMonthDayHourMinuteSecond && timestamp.in_range()),
        res != Err::<ParsedTimestamp, ParsingError>(ParsingError::MissingInformation),
{
    let format = [
        FormatItem::Component(Component::Year),
        FormatItem::Literal(HYPHEN),
        FormatItem::Component(Component::Month),
        FormatItem::Literal(HYPHEN),
        FormatItem::Component(Component::Day),
        FormatItem::First(LETTER_T, SPACE),
        FormatItem::Component(Component::Hour),
        FormatItem::Literal(COLON),
        FormatItem::Component(Component::Minute),
        FormatItem::Literal(COLON),
        FormatItem::Component(Component::Second),
    ];
    proof {
        assert(format@ =~= year_month_day_hour_minute_second_format());
        lemma_parse_year_month_day_hour_minute_second(input@);
    }
    let extract = |parsed: Parsed| -> (timestamp: Option<ParsedTimestamp>)
        ensures timestamp == to_year_month_day_hour_minute_second(parsed)
    {
        Some(
            ParsedTimestamp::YearMonthDayHourMinuteSecond(
                parsed.year?,
                parsed.month?,
                parsed.day?,
                parsed.hour_24?,
                parsed.minute?,
                parsed.second?,
            ),
        )
    };
    parse_format_opt(input, &format, extract)
}

} // verus!
