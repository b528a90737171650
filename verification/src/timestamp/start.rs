//! The first second of the period that a timestamp names.

use crate::calendar::{
    check_calendar_date, check_time_of_day, days_in_month, is_calendar_date, is_time_of_day, Month,
};
use crate::error::{ConversionError, Error, FormatError, ParsedError, ParsingError};
use crate::format::{
    digit_at, two_digits_at, Component, Parsed, COLON, DIGIT_ZERO, HYPHEN, SPACE,
};
use crate::primitives::{
    read_year, read_year_month, read_year_month_day, read_year_month_day_hour,
    read_year_month_day_hour_minute, read_year_month_day_hour_minute_second,
    spec_parse_year_month_day_hour_minute_second,
};
use crate::timestamp::parsed::{first_match, ParsedTimestamp};
use std::str::FromStr;
use vstd::prelude::*;
use vstd::std_specs::convert::TryFromSpecImpl;
use vstd::string::StringSliceAdditionalSpecFns;

verus! {

impl ParsedTimestamp {
    /// The month in which the period starts: January where the timestamp has
    /// no month.
    pub open spec fn start_month(self) -> Month {
        match self.month() {
            Some(month) => month,
            None => Month::January,
        }
    }

    /// The day on which the period starts: the first of the month where the
    /// timestamp has no day.
    pub open spec fn start_day(self) -> u8 {
        match self.day() {
            Some(day) => day,
            None => 1,
        }
    }

    /// The hour in which the period starts: 0 where the timestamp has no
    /// hour.
    pub open spec fn start_hour(self) -> u8 {
        match self.hour() {
            Some(hour) => hour,
            None => 0,
        }
    }

    /// The minute in which the period starts: 0 where the timestamp has no
    /// minute.
    pub open spec fn start_minute(self) -> u8 {
        match self.minute() {
            Some(minute) => minute,
            None => 0,
        }
    }

    /// The second with which the period starts: 0 where the timestamp has no
    /// second.
    pub open spec fn start_second(self) -> u8 {
        match self.second() {
            Some(second) => second,
            None => 0,
        }
    }

    /// Whether the period has a start: its first day is a date of the
    /// calendar and its first second a time of day.
    pub open spec fn has_start(self) -> bool {
        &&& is_calendar_date(
            self.year() as int,
            self.start_month().spec_number() as int,
            self.start_day() as int,
        )
        &&& is_time_of_day(
            self.start_hour() as int,
            self.start_minute() as int,
            self.start_second() as int,
        )
    }
}

/// The byte of the digit `value`.
pub open spec fn digit_byte(value: int) -> u8 {
    (DIGIT_ZERO + value) as u8
}

/// The text `YYYY-MM-DD HH:MM:SS` of a year from 0 to 9999 and of a month, a
/// day, an hour, a minute and a second below 100, each by its number.
pub open spec fn date_time_text(
    year: int,
    month: int,
    day: int,
    hour: int,
    minute: int,
    second: int,
) -> Seq<u8> {
    seq![
        digit_byte(year / 100 / 10),
        digit_byte(year / 100 % 10),
        digit_byte(year % 100 / 10),
        digit_byte(year % 100 % 10),
        HYPHEN,
        digit_byte(month / 10),
        digit_byte(month % 10),
        HYPHEN,
        digit_byte(day / 10),
        digit_byte(day % 10),
        SPACE,
        digit_byte(hour / 10),
        digit_byte(hour % 10),
        COLON,
        digit_byte(minute / 10),
        digit_byte(minute % 10),
        COLON,
        digit_byte(second / 10),
        digit_byte(second % 10),
    ]
}

/// A timestamp which will be aligned with the start of a [`ParsedTimestamp`].
/// Meaning, it will take the minimum value of all omitted components. It is a
/// date of the calendar and a time of day, in UTC.
#[derive(Copy, Clone, Debug, PartialEq, Eq, Hash)]
pub struct StartTimestamp {
    year: i32,
    month: Month,
    day: u8,
    hour: u8,
    minute: u8,
    second: u8,
}

impl StartTimestamp {
    #[verifier::type_invariant]
    spec fn holds_an_instant(self) -> bool {
        self.is_instant()
    }

    /// The year.
    pub closed spec fn spec_year(&self) -> i32 {
        self.year
    }

    /// The month.
    pub closed spec fn spec_month(&self) -> Month {
        self.month
    }

    /// The day of the month.
    pub closed spec fn spec_day(&self) -> u8 {
        self.day
    }

    /// The hour of the day.
    pub closed spec fn spec_hour(&self) -> u8 {
        self.hour
    }

    /// The minute of the hour.
    pub closed spec fn spec_minute(&self) -> u8 {
        self.minute
    }

    /// The second of the minute.
    pub closed spec fn spec_second(&self) -> u8 {
        self.second
    }

    /// Whether the fields are a date of the calendar and a time of day. It
    /// holds of every value that a program has.
    pub open spec fn is_instant(&self) -> bool {
        &&& is_calendar_date(
            self.spec_year() as int,
            self.spec_month().spec_number() as int,
            self.spec_day() as int,
        )
        &&& is_time_of_day(
            self.spec_hour() as int,
            self.spec_minute() as int,
            self.spec_second() as int,
        )
    }

    /// Whether `self` is the first second of the period that `value` names:
    /// each field that `value` has is taken from it, and each that it leaves
    /// out has its smallest value.
    pub open spec fn is_start_of(&self, value: ParsedTimestamp) -> bool {
        &&& self.spec_year() == value.year()
        &&& self.spec_month() == value.start_month()
        &&& self.spec_day() == value.start_day()
        &&& self.spec_hour() == value.start_hour()
        &&& self.spec_minute() == value.start_minute()
        &&& self.spec_second() == value.start_second()
    }

    /// The text of the timestamp: `YYYY-MM-DD HH:MM:SS`, with a `-` before a
    /// year below 0.
    pub open spec fn text(&self) -> Seq<u8> {
        if self.spec_year() < 0 {
            seq![HYPHEN] + date_time_text(
                -self.spec_year(),
                self.spec_month().spec_number() as int,
                self.spec_day() as int,
                self.spec_hour() as int,
                self.spec_minute() as int,
                self.spec_second() as int,
            )
        } else {
            date_time_text(
                self.spec_year() as int,
                self.spec_month().spec_number() as int,
                self.spec_day() as int,
                self.spec_hour() as int,
                self.spec_minute() as int,
                self.spec_second() as int,
            )
        }
    }

    /// The timestamp of full precision with the fields of `self`.
    pub open spec fn fields(&self) -> ParsedTimestamp {
        ParsedTimestamp::YearMonthDayHourMinuteSecond(
            self.spec_year(),
            self.spec_month(),
            self.spec_day(),
            self.spec_hour(),
            self.spec_minute(),
            self.spec_second(),
        )
    }

    /// The year.
    #[verifier::when_used_as_spec(spec_year)]
    pub fn year(&self) -> (year: i32)
        ensures
            year == self.spec_year(),
            self.is_instant(),
    {
        proof {
            use_type_invariant(self);
        }
        self.year
    }

    /// The month.
    #[verifier::when_used_as_spec(spec_month)]
    pub fn month(&self) -> (month: Month)
        ensures
            month == self.spec_month(),
            self.is_instant(),
    {
        proof {
            use_type_invariant(self);
        }
        self.month
    }

    /// The day of the month.
    #[verifier::when_used_as_spec(spec_day)]
    pub fn day(&self) -> (day: u8)
        ensures
            day == self.spec_day(),
            self.is_instant(),
    {
        proof {
            use_type_invariant(self);
        }
        self.day
    }

    /// The hour of the day.
    #[verifier::when_used_as_spec(spec_hour)]
    pub fn hour(&self) -> (hour: u8)
        ensures
            hour == self.spec_hour(),
            self.is_instant(),
    {
        proof {
            use_type_invariant(self);
        }
        self.hour
    }

    /// The minute of the hour.
    #[verifier::when_used_as_spec(spec_minute)]
    pub fn minute(&self) -> (minute: u8)
        ensures
            minute == self.spec_minute(),
            self.is_instant(),
    {
        proof {
            use_type_invariant(self);
        }
        self.minute
    }

    /// The second of the minute.
    #[verifier::when_used_as_spec(spec_second)]
    pub fn second(&self) -> (second: u8)
        ensures
            second == self.spec_second(),
            self.is_instant(),
    {
        proof {
            use_type_invariant(self);
        }
        self.second
    }
}

impl StartTimestamp {
    /// The text of the timestamp, see [`StartTimestamp::text`].
    pub fn to_text(&self) -> (text: Vec<u8>)
        ensures
            text@ == self.text(),
    {
        proof {
            use_type_invariant(self);
        }
        let mut text: Vec<u8> = Vec::new();
        let year: i32 = if self.year < 0 {
            text.push(HYPHEN);
            -self.year
        } else {
            self.year
        };
        let century: u8 = (year / 100) as u8;
        let year_of_century: u8 = (year % 100) as u8;
        let month: u8 = self.month.number();
        text.push(DIGIT_ZERO + century / 10);
        text.push(DIGIT_ZERO + century % 10);
        text.push(DIGIT_ZERO + year_of_century / 10);
        text.push(DIGIT_ZERO + year_of_century % 10);
        text.push(HYPHEN);
        text.push(DIGIT_ZERO + month / 10);
        text.push(DIGIT_ZERO + month % 10);
        text.push(HYPHEN);
        text.push(DIGIT_ZERO + self.day / 10);
        text.push(DIGIT_ZERO + self.day % 10);
        text.push(SPACE);
        text.push(DIGIT_ZERO + self.hour / 10);
        text.push(DIGIT_ZERO + self.hour % 10);
        text.push(COLON);
        text.push(DIGIT_ZERO + self.minute / 10);
        text.push(DIGIT_ZERO + self.minute % 10);
        text.push(COLON);
        text.push(DIGIT_ZERO + self.second / 10);
        text.push(DIGIT_ZERO + self.second % 10);
        proof {
            lemma_date_time_text_bytes(
                year as int,
                month as int,
                self.day as int,
                self.hour as int,
                self.minute as int,
                self.second as int,
            );
            assert(text@ =~= self.text());
        }
        text
    }

    /// Two start timestamps with the same fields are the same timestamp.
    pub proof fn lemma_fields_determine(self, other: StartTimestamp)
        requires
            self.fields() == other.fields(),
        ensures
            self == other,
    {
    }

    /// The text of a start timestamp gives the timestamp back: the most
    /// precise format takes the text whole and reads the fields of the
    /// timestamp from it, so do the six formats tried in turn, and the period
    /// that these fields name starts with the timestamp and with no other.
    pub proof fn lemma_text_round_trip(self)
        requires
            self.is_instant(),
        ensures
            spec_parse_year_month_day_hour_minute_second(self.text()) == Ok::<
                ParsedTimestamp,
                ParsingError,
            >(self.fields()),
            first_match(self.text()) == Ok::<ParsedTimestamp, ParsedError>(self.fields()),
            self.fields().has_start(),
            self.is_start_of(self.fields()),
            forall|other: StartTimestamp| #[trigger]
                other.is_start_of(self.fields()) ==> other == self,
    {
        let year: int = if self.year < 0 {
            -self.year
        } else {
            self.year as int
        };
        let offset: int = if self.year < 0 {
            1
        } else {
            0
        };
        let month = self.month.spec_number() as int;
        let text = self.text();
        let date_time = date_time_text(
            year,
            month,
            self.day as int,
            self.hour as int,
            self.minute as int,
            self.second as int,
        );
        lemma_date_time_text_bytes(
            year,
            month,
            self.day as int,
            self.hour as int,
            self.minute as int,
            self.second as int,
        );
        assert forall|i: int| 0 <= i < 19 implies text[offset + i] == #[trigger] date_time[i] by {}
        assert(text[offset + 0] == date_time[0] && text[offset + 1] == date_time[1] && text[offset
            + 2] == date_time[2] && text[offset + 3] == date_time[3]);
        lemma_two_digits_are_read(text, offset, year / 100);
        lemma_two_digits_are_read(text, offset + 2, year % 100);
        assert(text[offset + 4] == date_time[4]);
        assert(text[offset + 5] == date_time[5] && text[offset + 6] == date_time[6]);
        lemma_two_digits_are_read(text, offset + 5, month);
        assert(text[offset + 7] == date_time[7]);
        assert(text[offset + 8] == date_time[8] && text[offset + 9] == date_time[9]);
        lemma_two_digits_are_read(text, offset + 8, self.day as int);
        assert(text[offset + 10] == date_time[10]);
        assert(text[offset + 11] == date_time[11] && text[offset + 12] == date_time[12]);
        lemma_two_digits_are_read(text, offset + 11, self.hour as int);
        assert(text[offset + 13] == date_time[13]);
        assert(text[offset + 14] == date_time[14] && text[offset + 15] == date_time[15]);
        lemma_two_digits_are_read(text, offset + 14, self.minute as int);
        assert(text[offset + 16] == date_time[16]);
        assert(text[offset + 17] == date_time[17] && text[offset + 18] == date_time[18]);
        lemma_two_digits_are_read(text, offset + 17, self.second as int);
        lemma_text_is_read(
            text,
            offset,
            self.year as int,
            month,
            self.day as int,
            self.hour as int,
            self.minute as int,
            self.second as int,
        );
        assert forall|other: StartTimestamp| #[trigger]
            other.is_start_of(self.fields()) implies other == self by {
            self.lemma_fields_determine(other);
        }
    }
}

impl TryFrom<ParsedTimestamp> for StartTimestamp {
    type Error = ConversionError;

    /// The first second of the period that `value` names, if the period has
    /// one.
    fn try_from(value: ParsedTimestamp) -> (res: Result<Self, Self::Error>)
        ensures
            res is Ok <==> value.has_start(),
            res matches Ok(start) ==> start.is_start_of(value),
    {
        let (year, month, day, hour, minute, second) = match value {
            ParsedTimestamp::Year(year) => (year, Month::January, 1u8, 0u8, 0u8, 0u8),
            ParsedTimestamp::YearMonth(year, month) => (year, month, 1u8, 0u8, 0u8, 0u8),
            ParsedTimestamp::YearMonthDay(year, month, day) => (year, month, day, 0u8, 0u8, 0u8),
            ParsedTimestamp::YearMonthDayHour(year, month, day, hour) => (
                year,
                month,
                day,
                hour,
                0u8,
                0u8,
            ),
            ParsedTimestamp::YearMonthDayHourMinute(year, month, day, hour, minute) => (
                year,
                month,
                day,
                hour,
                minute,
                0u8,
            ),
            ParsedTimestamp::YearMonthDayHourMinuteSecond(
                year,
                month,
                day,
                hour,
                minute,
                second,
            ) => (year, month, day, hour, minute, second),
        };
        if let Err(e) = check_calendar_date(year, month.number(), day) {
            return Err(ConversionError::from(e));
        }
        if let Err(e) = check_time_of_day(hour, minute, second) {
            return Err(ConversionError::from(e));
        }
        Ok(StartTimestamp { year, month, day, hour, minute, second })
    }
}

/// What `try_from` returns is stated by its own `ensures`, not here: its error
/// holds a value of the `time` crate, of which no spec function speaks.
impl TryFromSpecImpl<ParsedTimestamp> for StartTimestamp {
    open spec fn obeys_try_from_spec() -> bool {
        false
    }

    open spec fn try_from_spec(value: ParsedTimestamp) -> Result<Self, Self::Error> {
        arbitrary()
    }
}

/// The first second of the period that `text` names: the timestamp that the
/// six formats find in `text`, with each field that it leaves out at its
/// smallest value.
///
/// The result is [`ParsedError::UnknownFormat`] exactly when `text` has none
/// of the six formats, and [`ConversionError::OutOfRange`] exactly when it has
/// one and the fields are no date of the calendar.
pub fn parse_start_timestamp(text: &str) -> (res: Result<StartTimestamp, Error>)
    ensures
        match first_match(text.spec_bytes()) {
            Ok(timestamp) => {
                if timestamp.has_start() {
                    res matches Ok(start) && start.is_start_of(timestamp)
                } else {
                    res matches Err(Error::Conversion(ConversionError::OutOfRange(_)))
                }
            },
            Err(_) => res matches Err(Error::Parsed(ParsedError::UnknownFormat)),
        },
{
    let timestamp = match ParsedTimestamp::from_str(text) {
        Ok(timestamp) => timestamp,
        Err(e) => {
            return Err(Error::from(e));
        },
    };
    match StartTimestamp::try_from(timestamp) {
        Ok(start) => Ok(start),
        Err(e) => Err(Error::from(e)),
    }
}

impl FromStr for StartTimestamp {
    type Err = Error;

    /// The first second of the period that the text `s` names, see
    /// [`parse_start_timestamp`].
    fn from_str(s: &str) -> (res: Result<Self, Self::Err>)
        ensures
            match first_match(s.spec_bytes()) {
                Ok(timestamp) => {
                    if timestamp.has_start() {
                        res matches Ok(start) && start.is_start_of(timestamp)
                    } else {
                        res matches Err(Error::Conversion(ConversionError::OutOfRange(_)))
                    }
                },
                Err(_) => res matches Err(Error::Parsed(ParsedError::UnknownFormat)),
            },
    {
        parse_start_timestamp(s)
    }
}

/// Of a timestamp whose fields are in the bounds of their components, as
/// those of every timestamp read from a text are, the hour, the minute and
/// the second are a time of day: its period has a start exactly when its
/// first day is a date of the calendar.
pub proof fn lemma_in_range_has_start(timestamp: ParsedTimestamp)
    requires
        timestamp.in_range(),
    ensures
        timestamp.has_start() <==> 1 <= timestamp.start_day() <= days_in_month(
            timestamp.year() as int,
            timestamp.start_month().spec_number() as int,
        ),
{
}

/// The bytes of [`date_time_text`], one by one.
proof fn lemma_date_time_text_bytes(
    year: int,
    month: int,
    day: int,
    hour: int,
    minute: int,
    second: int,
)
    ensures
        ({
            let text = date_time_text(year, month, day, hour, minute, second);
            &&& text.len() == 19
            &&& text[0] == digit_byte(year / 100 / 10)
            &&& text[1] == digit_byte(year / 100 % 10)
            &&& text[2] == digit_byte(year % 100 / 10)
            &&& text[3] == digit_byte(year % 100 % 10)
            &&& text[4] == HYPHEN
            &&& text[5] == digit_byte(month / 10)
            &&& text[6] == digit_byte(month % 10)
            &&& text[7] == HYPHEN
            &&& text[8] == digit_byte(day / 10)
            &&& text[9] == digit_byte(day % 10)
            &&& text[10] == SPACE
            &&& text[11] == digit_byte(hour / 10)
            &&& text[12] == digit_byte(hour % 10)
            &&& text[13] == COLON
            &&& text[14] == digit_byte(minute / 10)
            &&& text[15] == digit_byte(minute % 10)
            &&& text[16] == COLON
            &&& text[17] == digit_byte(second / 10)
            &&& text[18] == digit_byte(second % 10)
        }),
{
}

/// Two digits that were written from a value read as that value.
proof fn lemma_two_digits_are_read(c: Seq<u8>, pos: int, value: int)
    requires
        0 <= pos,
        pos + 1 < c.len(),
        0 <= value <= 99,
        c[pos] == digit_byte(value / 10),
        c[pos + 1] == digit_byte(value % 10),
    ensures
        two_digits_at(c, pos) == Some(value),
        digit_at(c, pos) is Some,
        digit_at(c, pos + 1) is Some,
{
}

/// The most precise format reads a text of 19 bytes behind `offset` that
/// holds, each at its place, the digits of a year, a month, a day, an hour, a
/// minute and a second and the bytes between them, and gives these fields.
proof fn lemma_text_is_read(
    c: Seq<u8>,
    offset: int,
    year: int,
    month: int,
    day: int,
    hour: int,
    minute: int,
    second: int,
)
    requires
        (offset == 0 && 0 <= year <= 9999) || (offset == 1 && c[0] == HYPHEN && -9999 <= year
            < 0),
        c.len() == offset + 19,
        two_digits_at(c, offset) == Some(
            (if year < 0 {
                -year
            } else {
                year
            }) / 100,
        ),
        two_digits_at(c, offset + 2) == Some(
            (if year < 0 {
                -year
            } else {
                year
            }) % 100,
        ),
        c[offset + 4] == HYPHEN,
        two_digits_at(c, offset + 5) == Some(month),
        c[offset + 7] == HYPHEN,
        two_digits_at(c, offset + 8) == Some(day),
        c[offset + 10] == SPACE,
        two_digits_at(c, offset + 11) == Some(hour),
        c[offset + 13] == COLON,
        two_digits_at(c, offset + 14) == Some(minute),
        c[offset + 16] == COLON,
        two_digits_at(c, offset + 17) == Some(second),
        1 <= month <= 12,
        1 <= day <= 31,
        0 <= hour < 24,
        0 <= minute < 60,
        0 <= second < 60,
    ensures
        read_year_month_day_hour_minute_second(c) == Ok::<(Parsed, int), FormatError>(
            (
                Parsed::empty().with(Component::Year, year).with(Component::Month, month).with(
                    Component::Day,
                    day,
                ).with(Component::Hour, hour).with(Component::Minute, minute).with(
                    Component::Second,
                    second,
                ),
                offset + 19,
            ),
        ),
{
    let year_known = Parsed::empty().with(Component::Year, year);
    let month_known = year_known.with(Component::Month, month);
    let day_known = month_known.with(Component::Day, day);
    let hour_known = day_known.with(Component::Hour, hour);
    let minute_known = hour_known.with(Component::Minute, minute);
    assert(read_year(c) == Ok::<(Parsed, int), FormatError>((year_known, offset + 4)));
    assert(read_year_month(c) == Ok::<(Parsed, int), FormatError>((month_known, offset + 7)));
    assert(read_year_month_day(c) == Ok::<(Parsed, int), FormatError>((day_known, offset + 10)));
    assert(read_year_month_day_hour(c) == Ok::<(Parsed, int), FormatError>(
        (hour_known, offset + 13),
    ));
    assert(read_year_month_day_hour_minute(c) == Ok::<(Parsed, int), FormatError>(
        (minute_known, offset + 16),
    ));
}

} // verus!
