//! The fields that a text gives, at one of six precisions.

use crate::calendar::{Month, MAX_YEAR, MIN_YEAR};
use crate::error::ParsedError;
use crate::format::{
    items_at_start, lemma_items_in_longer_text, lemma_items_take_bytes, lemma_shorter_format,
    Parsed,
};
use crate::primitives::{
    lemma_parse_year, lemma_parse_year_month, lemma_parse_year_month_day,
    lemma_parse_year_month_day_hour, lemma_parse_year_month_day_hour_minute,
    lemma_parse_year_month_day_hour_minute_second, parse_year, parse_year_month,
    parse_year_month_day, parse_year_month_day_hour, parse_year_month_day_hour_minute,
    parse_year_month_day_hour_minute_second, spec_parse_year, spec_parse_year_month,
    spec_parse_year_month_day, spec_parse_year_month_day_hour,
    spec_parse_year_month_day_hour_minute, spec_parse_year_month_day_hour_minute_second,
    year_format, year_month_day_format, year_month_day_hour_format,
    year_month_day_hour_minute_format, year_month_day_hour_minute_second_format,
    year_month_format,
};
use std::str::FromStr;
use vstd::prelude::*;
use vstd::string::StringSliceAdditionalSpecFns;

verus! {

/// A timestamp as precise as the text that it was read from: a year, to which
/// a month, a day, an hour, a minute and a second are added in this order.
#[derive(Copy, Clone, Debug, PartialEq, Eq, Structural)]
pub enum ParsedTimestamp {
    Year(i32),
    YearMonth(i32, Month),
    YearMonthDay(i32, Month, u8),
    YearMonthDayHour(i32, Month, u8, u8),
    YearMonthDayHourMinute(i32, Month, u8, u8, u8),
    YearMonthDayHourMinuteSecond(i32, Month, u8, u8, u8, u8),
}

impl ParsedTimestamp {
    /// The year.
    pub open spec fn year(self) -> i32 {
        match self {
            ParsedTimestamp::Year(year) => year,
            ParsedTimestamp::YearMonth(year, _) => year,
            ParsedTimestamp::YearMonthDay(year, _, _) => year,
            ParsedTimestamp::YearMonthDayHour(year, _, _, _) => year,
            ParsedTimestamp::YearMonthDayHourMinute(year, _, _, _, _) => year,
            ParsedTimestamp::YearMonthDayHourMinuteSecond(year, _, _, _, _, _) => year,
        }
    }

    /// The month, where the timestamp has one.
    pub open spec fn month(self) -> Option<Month> {
        match self {
            ParsedTimestamp::Year(_) => None,
            ParsedTimestamp::YearMonth(_, month) => Some(month),
            ParsedTimestamp::YearMonthDay(_, month, _) => Some(month),
            ParsedTimestamp::YearMonthDayHour(_, month, _, _) => Some(month),
            ParsedTimestamp::YearMonthDayHourMinute(_, month, _, _, _) => Some(month),
            ParsedTimestamp::YearMonthDayHourMinuteSecond(_, month, _, _, _, _) => Some(month),
        }
    }

    /// The day of the month, where the timestamp has one.
    pub open spec fn day(self) -> Option<u8> {
        match self {
            ParsedTimestamp::YearMonthDay(_, _, day) => Some(day),
            ParsedTimestamp::YearMonthDayHour(_, _, day, _) => Some(day),
            ParsedTimestamp::YearMonthDayHourMinute(_, _, day, _, _) => Some(day),
            ParsedTimestamp::YearMonthDayHourMinuteSecond(_, _, day, _, _, _) => Some(day),
            _ => None,
        }
    }

    /// The hour, where the timestamp has one.
    pub open spec fn hour(self) -> Option<u8> {
        match self {
            ParsedTimestamp::YearMonthDayHour(_, _, _, hour) => Some(hour),
            ParsedTimestamp::YearMonthDayHourMinute(_, _, _, hour, _) => Some(hour),
            ParsedTimestamp::YearMonthDayHourMinuteSecond(_, _, _, hour, _, _) => Some(hour),
            _ => None,
        }
    }

    /// The minute, where the timestamp has one.
    pub open spec fn minute(self) -> Option<u8> {
        match self {
            ParsedTimestamp::YearMonthDayHourMinute(_, _, _, _, minute) => Some(minute),
            ParsedTimestamp::YearMonthDayHourMinuteSecond(_, _, _, _, minute, _) => Some(minute),
            _ => None,
        }
    }

    /// The second, where the timestamp has one.
    pub open spec fn second(self) -> Option<u8> {
        match self {
            ParsedTimestamp::YearMonthDayHourMinuteSecond(_, _, _, _, _, second) => Some(second),
            _ => None,
        }
    }

    /// Whether each field lies in the bounds that a text can give it: the
    /// year from -9999 to 9999, the day from 1 to 31, the hour below 24, the
    /// minute and the second below 60. Whether the month has that day is
    /// another matter.
    pub open spec fn in_range(self) -> bool {
        &&& MIN_YEAR <= self.year() <= MAX_YEAR
        &&& self.day() matches Some(day) ==> 1 <= day <= 31
        &&& self.hour() matches Some(hour) ==> hour < 24
        &&& self.minute() matches Some(minute) ==> minute < 60
        &&& self.second() matches Some(second) ==> second < 60
    }
}

/// The timestamp that the text `s` holds: what the first of the six formats
/// that takes `s` whole makes of it, the more precise format being tried
/// before the less precise one.
pub open spec fn first_match(s: Seq<u8>) -> Result<ParsedTimestamp, ParsedError> {
    if let Ok(timestamp) = spec_parse_year_month_day_hour_minute_second(s) {
        Ok(timestamp)
    } else if let Ok(timestamp) = spec_parse_year_month_day_hour_minute(s) {
        Ok(timestamp)
    } else if let Ok(timestamp) = spec_parse_year_month_day_hour(s) {
        Ok(timestamp)
    } else if let Ok(timestamp) = spec_parse_year_month_day(s) {
        Ok(timestamp)
    } else if let Ok(timestamp) = spec_parse_year_month(s) {
        Ok(timestamp)
    } else if let Ok(timestamp) = spec_parse_year(s) {
        Ok(timestamp)
    } else {
        Err(ParsedError::UnknownFormat)
    }
}

impl FromStr for ParsedTimestamp {
    type Err = ParsedError;

    /// Tries the six formats on `s`, from the most precise to the least
    /// precise, and returns what the first one that takes `s` whole makes of
    /// it. Why the others failed is not reported.
    fn from_str(s: &str) -> (res: Result<Self, Self::Err>)
        ensures
            res == first_match(s.spec_bytes()),
            res matches Ok(timestamp) ==> timestamp.in_range(),
    {
        let s = s.as_bytes();
        if let Ok(timestamp) = parse_year_month_day_hour_minute_second(s) {
            Ok(timestamp)
        } else if let Ok(timestamp) = parse_year_month_day_hour_minute(s) {
            Ok(timestamp)
        } else if let Ok(timestamp) = parse_year_month_day_hour(s) {
            Ok(timestamp)
        } else if let Ok(timestamp) = parse_year_month_day(s) {
            Ok(timestamp)
        } else if let Ok(timestamp) = parse_year_month(s) {
            Ok(timestamp)
        } else if let Ok(timestamp) = parse_year(s) {
            Ok(timestamp)
        } else {
            Err(ParsedError::UnknownFormat)
        }
    }
}

/// Where the items of the most precise format take `s` whole, the items of
/// each of the six formats end in `s`, and so before the end of any longer
/// text that starts with `s`.
proof fn lemma_items_end_before_trailing_input(s: Seq<u8>, extra: Seq<u8>)
    requires
        items_at_start(s, year_month_day_hour_minute_second_format()) matches Ok((_, used))
            && used == s.len(),
        extra.len() > 0,
    ensures
        items_at_start(s + extra, year_format()) matches Ok((_, used)) && used
            < (s + extra).len(),
        items_at_start(s + extra, year_month_format()) matches Ok((_, used)) && used
            < (s + extra).len(),
        items_at_start(s + extra, year_month_day_format()) matches Ok((_, used)) && used
            < (s + extra).len(),
        items_at_start(s + extra, year_month_day_hour_format()) matches Ok((_, used)) && used
            < (s + extra).len(),
        items_at_start(s + extra, year_month_day_hour_minute_format()) matches Ok((_, used)) && used
            < (s + extra).len(),
        items_at_start(s + extra, year_month_day_hour_minute_second_format()) matches Ok(
            (_, used),
        ) && used < (s + extra).len(),
{
    let full = year_month_day_hour_minute_second_format();
    let text = s + extra;
    lemma_items_take_bytes(s, full, 0, 0, Parsed::empty());
    lemma_items_in_longer_text(s, extra, full, 0, 0, Parsed::empty());
    assert(year_month_day_hour_minute_format() =~= full.take(9));
    lemma_shorter_format(text, full, 9, 0, 0, Parsed::empty());
    assert(year_month_day_hour_format() =~= full.take(7));
    lemma_shorter_format(text, full, 7, 0, 0, Parsed::empty());
    assert(year_month_day_format() =~= full.take(5));
    lemma_shorter_format(text, full, 5, 0, 0, Parsed::empty());
    assert(year_month_format() =~= full.take(3));
    lemma_shorter_format(text, full, 3, 0, 0, Parsed::empty());
    assert(year_format() =~= full.take(1));
    lemma_shorter_format(text, full, 1, 0, 0, Parsed::empty());
}

/// Nothing may follow a timestamp of full precision: a text that the most
/// precise format takes whole, with anything at all behind it, holds no
/// timestamp.
pub proof fn lemma_trailing_input_is_rejected(s: Seq<u8>, extra: Seq<u8>)
    requires
        spec_parse_year_month_day_hour_minute_second(s) is Ok,
        extra.len() > 0,
    ensures
        first_match(s + extra) == Err::<ParsedTimestamp, ParsedError>(ParsedError::UnknownFormat),
{
    let text = s + extra;
    lemma_parse_year_month_day_hour_minute_second(s);
    lemma_items_end_before_trailing_input(s, extra);
    lemma_parse_year_month_day_hour_minute_second(text);
    lemma_parse_year_month_day_hour_minute(text);
    lemma_parse_year_month_day_hour(text);
    lemma_parse_year_month_day(text);
    lemma_parse_year_month(text);
    lemma_parse_year(text);
}

/// Where the items of the format `YYYY-MM-DD H:MM:SS` take `s` whole, the items
/// of each shorter format end before the end of `s`.
proof fn lemma_items_end_before_year_month_day_hour_minute_second(s: Seq<u8>)
    requires
        items_at_start(s, year_month_day_hour_minute_second_format()) matches Ok((_, used))
            && used == s.len(),
    ensures
        items_at_start(s, year_month_day_hour_minute_format()) matches Ok((_, used)) && used
            < s.len(),
        items_at_start(s, year_month_day_hour_format()) matches Ok((_, used)) && used
            < s.len(),
        items_at_start(s, year_month_day_format()) matches Ok((_, used)) && used
            < s.len(),
        items_at_start(s, year_month_format()) matches Ok((_, used)) && used
            < s.len(),
        items_at_start(s, year_format()) matches Ok((_, used)) && used
            < s.len(),
{
    let format = year_month_day_hour_minute_second_format();
    assert(year_month_day_hour_minute_format() =~= format.take(9));
    lemma_shorter_format(s, format, 9, 0, 0, Parsed::empty());
    assert(year_month_day_hour_format() =~= format.take(7));
    lemma_shorter_format(s, format, 7, 0, 0, Parsed::empty());
    assert(year_month_day_format() =~= format.take(5));
    lemma_shorter_format(s, format, 5, 0, 0, Parsed::empty());
    assert(year_month_format() =~= format.take(3));
    lemma_shorter_format(s, format, 3, 0, 0, Parsed::empty());
    assert(year_format() =~= format.take(1));
    lemma_shorter_format(s, format, 1, 0, 0, Parsed::empty());
}

/// Where the items of the format `YYYY-MM-DD H:MM` take `s` whole, the items of
/// each shorter format end before the end of `s`.
proof fn lemma_items_end_before_year_month_day_hour_minute(s: Seq<u8>)
    requires
        items_at_start(s, year_month_day_hour_minute_format()) matches Ok((_, used))
            && used == s.len(),
    ensures
        items_at_start(s, year_month_day_hour_format()) matches Ok((_, used)) && used
            < s.len(),
        items_at_start(s, year_month_day_format()) matches Ok((_, used)) && used
            < s.len(),
        items_at_start(s, year_month_format()) matches Ok((_, used)) && used
            < s.len(),
        items_at_start(s, year_format()) matches Ok((_, used)) && used
            < s.len(),
{
    let format = year_month_day_hour_minute_format();
    assert(year_month_day_hour_format() =~= format.take(7));
    lemma_shorter_format(s, format, 7, 0, 0, Parsed::empty());
    assert(year_month_day_format() =~= format.take(5));
    lemma_shorter_format(s, format, 5, 0, 0, Parsed::empty());
    assert(year_month_format() =~= format.take(3));
    lemma_shorter_format(s, format, 3, 0, 0, Parsed::empty());
    assert(year_format() =~= format.take(1));
    lemma_shorter_format(s, format, 1, 0, 0, Parsed::empty());
}

/// Where the items of the format `YYYY-MM-DD H` take `s` whole, the items of
/// each shorter format end before the end of `s`.
proof fn lemma_items_end_before_year_month_day_hour(s: Seq<u8>)
    requires
        items_at_start(s, year_month_day_hour_format()) matches Ok((_, used))
            && used == s.len(),
    ensures
        items_at_start(s, year_month_day_format()) matches Ok((_, used)) && used
            < s.len(),
        items_at_start(s, year_month_format()) matches Ok((_, used)) && used
            < s.len(),
        items_at_start(s, year_format()) matches Ok((_, used)) && used
            < s.len(),
{
    let format = year_month_day_hour_format();
    assert(year_month_day_format() =~= format.take(5));
    lemma_shorter_format(s, format, 5, 0, 0, Parsed::empty());
    assert(year_month_format() =~= format.take(3));
    lemma_shorter_format(s, format, 3, 0, 0, Parsed::empty());
    assert(year_format() =~= format.take(1));
    lemma_shorter_format(s, format, 1, 0, 0, Parsed::empty());
}

/// Where the items of the format `YYYY-MM-DD` take `s` whole, the items of each
/// shorter format end before the end of `s`.
proof fn lemma_items_end_before_year_month_day(s: Seq<u8>)
    requires
        items_at_start(s, year_month_day_format()) matches Ok((_, used))
            && used == s.len(),
    ensures
        items_at_start(s, year_month_format()) matches Ok((_, used)) && used
            < s.len(),
        items_at_start(s, year_format()) matches Ok((_, used)) && used
            < s.len(),
{
    let format = year_month_day_format();
    assert(year_month_format() =~= format.take(3));
    lemma_shorter_format(s, format, 3, 0, 0, Parsed::empty());
    assert(year_format() =~= format.take(1));
    lemma_shorter_format(s, format, 1, 0, 0, Parsed::empty());
}

/// Where the items of the format `YYYY-MM` take `s` whole, the items of each
/// shorter format end before the end of `s`.
proof fn lemma_items_end_before_year_month(s: Seq<u8>)
    requires
        items_at_start(s, year_month_format()) matches Ok((_, used))
            && used == s.len(),
    ensures
        items_at_start(s, year_format()) matches Ok((_, used)) && used
            < s.len(),
{
    let format = year_month_format();
    assert(year_format() =~= format.take(1));
    lemma_shorter_format(s, format, 1, 0, 0, Parsed::empty());
}

/// At most one of the six formats takes a text whole, so the order in which
/// they are tried decides no result.
pub proof fn lemma_at_most_one_format(s: Seq<u8>)
    ensures
        spec_parse_year_month_day_hour_minute_second(s) is Ok ==> ({
        &&& spec_parse_year_month_day_hour_minute(s) is Err
        &&& spec_parse_year_month_day_hour(s) is Err
        &&& spec_parse_year_month_day(s) is Err
        &&& spec_parse_year_month(s) is Err
        &&& spec_parse_year(s) is Err
        }),
        spec_parse_year_month_day_hour_minute(s) is Ok ==> ({
        &&& spec_parse_year_month_day_hour(s) is Err
        &&& spec_parse_year_month_day(s) is Err
        &&& spec_parse_year_month(s) is Err
        &&& spec_parse_year(s) is Err
        }),
        spec_parse_year_month_day_hour(s) is Ok ==> ({
        &&& spec_parse_year_month_day(s) is Err
        &&& spec_parse_year_month(s) is Err
        &&& spec_parse_year(s) is Err
        }),
        spec_parse_year_month_day(s) is Ok ==> ({
        &&& spec_parse_year_month(s) is Err
        &&& spec_parse_year(s) is Err
        }),
        spec_parse_year_month(s) is Ok ==> ({
        &&& spec_parse_year(s) is Err
        }),
{
    lemma_parse_year_month_day_hour_minute_second(s);
    lemma_parse_year_month_day_hour_minute(s);
    lemma_parse_year_month_day_hour(s);
    lemma_parse_year_month_day(s);
    lemma_parse_year_month(s);
    lemma_parse_year(s);
    if spec_parse_year_month_day_hour_minute_second(s) is Ok {
        lemma_items_end_before_year_month_day_hour_minute_second(s);
    }
    if spec_parse_year_month_day_hour_minute(s) is Ok {
        lemma_items_end_before_year_month_day_hour_minute(s);
    }
    if spec_parse_year_month_day_hour(s) is Ok {
        lemma_items_end_before_year_month_day_hour(s);
    }
    if spec_parse_year_month_day(s) is Ok {
        lemma_items_end_before_year_month_day(s);
    }
    if spec_parse_year_month(s) is Ok {
        lemma_items_end_before_year_month(s);
    }
}

/// A timestamp that was read from a text has each field in the bounds of
/// its component.
pub proof fn lemma_first_match_in_range(s: Seq<u8>)
    ensures
        first_match(s) matches Ok(timestamp) ==> timestamp.in_range(),
{
    lemma_parse_year(s);
    lemma_parse_year_month(s);
    lemma_parse_year_month_day(s);
    lemma_parse_year_month_day_hour(s);
    lemma_parse_year_month_day_hour_minute(s);
    lemma_parse_year_month_day_hour_minute_second(s);
}

} // verus!
