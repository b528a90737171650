//! Months, the rules of the proleptic Gregorian calendar, and the calls into
//! the `time` crate that check a date and a time of day against them.

use vstd::prelude::*;

verus! {

/// The smallest year that a date can have.
pub const MIN_YEAR: i32 = -9999;

/// The largest year that a date can have.
pub const MAX_YEAR: i32 = 9999;

/// A month of the year.
#[derive(Copy, Clone, Debug, PartialEq, Eq, Hash, Structural)]
pub enum Month {
    January,
    February,
    March,
    April,
    May,
    June,
    July,
    August,
    September,
    October,
    November,
    December,
}

impl Month {
    /// The number of the month, January being 1.
    pub open spec fn spec_number(&self) -> u8 {
        match self {
            Month::January => 1,
            Month::February => 2,
            Month::March => 3,
            Month::April => 4,
            Month::May => 5,
            Month::June => 6,
            Month::July => 7,
            Month::August => 8,
            Month::September => 9,
            Month::October => 10,
            Month::November => 11,
            Month::December => 12,
        }
    }

    /// The month with the given number, if the number is one of 1 to 12.
    pub open spec fn spec_from_number(number: u8) -> Option<Month> {
        if number == 1 {
            Some(Month::January)
        } else if number == 2 {
            Some(Month::February)
        } else if number == 3 {
            Some(Month::March)
        } else if number == 4 {
            Some(Month::April)
        } else if number == 5 {
            Some(Month::May)
        } else if number == 6 {
            Some(Month::June)
        } else if number == 7 {
            Some(Month::July)
        } else if number == 8 {
            Some(Month::August)
        } else if number == 9 {
            Some(Month::September)
        } else if number == 10 {
            Some(Month::October)
        } else if number == 11 {
            Some(Month::November)
        } else if number == 12 {
            Some(Month::December)
        } else {
            None
        }
    }

    /// The number of the month, January being 1.
    #[verifier::when_used_as_spec(spec_number)]
    pub fn number(&self) -> (number: u8)
        ensures
            number == self.spec_number(),
            1 <= number <= 12,
            Month::spec_from_number(number) == Some(*self),
    {
        match self {
            Month::January => 1,
            Month::February => 2,
            Month::March => 3,
            Month::April => 4,
            Month::May => 5,
            Month::June => 6,
            Month::July => 7,
            Month::August => 8,
            Month::September => 9,
            Month::October => 10,
            Month::November => 11,
            Month::December => 12,
        }
    }

    /// The month with the given number, or `None` if the number is not one of
    /// 1 to 12.
    #[verifier::when_used_as_spec(spec_from_number)]
    pub fn from_number(number: u8) -> (month: Option<Month>)
        ensures
            month == Month::spec_from_number(number),
            month is Some <==> 1 <= number <= 12,
            month matches Some(m) ==> m.spec_number() == number,
    {
        match number {
            1 => Some(Month::January),
            2 => Some(Month::February),
            3 => Some(Month::March),
            4 => Some(Month::April),
            5 => Some(Month::May),
            6 => Some(Month::June),
            7 => Some(Month::July),
            8 => Some(Month::August),
            9 => Some(Month::September),
            10 => Some(Month::October),
            11 => Some(Month::November),
            12 => Some(Month::December),
            _ => None,
        }
    }
}

/// Whether `year` is a leap year of the proleptic Gregorian calendar, in
/// astronomical year numbering (the year before year 1 is year 0).
pub open spec fn is_leap_year(year: int) -> bool {
    year % 4 == 0 && (year % 100 != 0 || year % 400 == 0)
}

/// The number of days of the month with number `month` in `year`, and 0 where
/// `month` is not the number of a month.
pub open spec fn days_in_month(year: int, month: int) -> int {
    if month == 2 {
        if is_leap_year(year) {
            29
        } else {
            28
        }
    } else if month == 4 || month == 6 || month == 9 || month == 11 {
        30
    } else if 1 <= month <= 12 {
        31
    } else {
        0
    }
}

/// Whether the day `day` of the month with number `month` exists in `year`, and
/// `year` is a year that a date can have.
pub open spec fn is_calendar_date(year: int, month: int, day: int) -> bool {
    &&& MIN_YEAR <= year <= MAX_YEAR
    &&& 1 <= day <= days_in_month(year, month)
}

/// Whether `hour`, `minute` and `second` are a time of day on the 24-hour
/// clock.
pub open spec fn is_time_of_day(hour: int, minute: int, second: int) -> bool {
    &&& 0 <= hour < 24
    &&& 0 <= minute < 60
    &&& 0 <= second < 60
}

#[verifier::external_type_specification]
#[verifier::external_body]
pub struct ExComponentRange(time::error::ComponentRange);

/// Asks the `time` crate for the date of the given year, month number and day:
/// `time::Month::try_from` turns the number into a month, and
/// `time::Date::from_calendar_date` builds the date.
///
/// Not verified. The contract claims that the date is built exactly when the
/// year lies between [`MIN_YEAR`] and [`MAX_YEAR`], the number is that of a
/// month, and the day is one of that month in that year, by the Gregorian
/// rule that [`is_leap_year`] states. The bounds on the year are those of a
/// `time` built without its `large-dates` feature. Nothing is claimed of the
/// error that comes back otherwise.
#[verifier::external_body]
pub(crate) fn check_calendar_date(year: i32, month: u8, day: u8) -> (res: Result<
    (),
    time::error::ComponentRange,
>)
    ensures
        res is Ok <==> is_calendar_date(year as int, month as int, day as int),
{
    match time::Month::try_from(month) {
        Ok(m) => match time::Date::from_calendar_date(year, m, day) {
            Ok(_) => Ok(()),
            Err(e) => Err(e),
        },
        Err(e) => Err(e),
    }
}

/// Asks the `time` crate, through `time::Time::from_hms`, for the time of day
/// with the given hour, minute and second.
///
/// Not verified. The contract claims that the time is built exactly when the
/// hour is below 24 and the minute and the second are below 60. Nothing is
/// claimed of the error that comes back otherwise.
#[verifier::external_body]
pub(crate) fn check_time_of_day(hour: u8, minute: u8, second: u8) -> (res: Result<
    (),
    time::error::ComponentRange,
>)
    ensures
        res is Ok <==> is_time_of_day(hour as int, minute as int, second as int),
{
    match time::Time::from_hms(hour, minute, second) {
        Ok(_) => Ok(()),
        Err(e) => Err(e),
    }
}

} // verus!
