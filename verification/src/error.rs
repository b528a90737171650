//! The errors of this crate.

use crate::format::Component;
use vstd::prelude::*;
use vstd::std_specs::convert::FromSpecImpl;
use vstd::string::{to_string_from_display_ensures, StringExecFns};

verus! {

/// Why the fields of a timestamp are no instant.
#[derive(Debug)]
pub enum ConversionError {
    /// A field is not in the range that the calendar or the clock gives it.
    /// The value is the one that the `time` crate reported.
    OutOfRange(time::error::ComponentRange),
}

impl ConversionError {
    /// Whether `text` says what the error is: `out of range: `, and behind
    /// it the words that the `time` crate has for the value it reported.
    pub open spec fn is_message(&self, text: Seq<char>) -> bool {
        match self {
            ConversionError::OutOfRange(range) => exists|detail: String|
                #![auto]
                to_string_from_display_ensures(range, detail) && text == "out of range: "@
                    + detail@,
        }
    }

    /// What the error is, in words.
    pub fn message(&self) -> (text: String)
        ensures
            self.is_message(text@),
    {
        match self {
            ConversionError::OutOfRange(range) => {
                let detail = range.to_string();
                "out of range: ".to_owned().concat(detail.as_str())
            },
        }
    }
}

impl From<time::error::ComponentRange> for ConversionError {
    fn from(value: time::error::ComponentRange) -> (res: Self) {
        Self::OutOfRange(value)
    }
}

impl FromSpecImpl<time::error::ComponentRange> for ConversionError {
    open spec fn obeys_from_spec() -> bool {
        true
    }

    open spec fn from_spec(value: time::error::ComponentRange) -> Self {
        Self::OutOfRange(value)
    }
}

/// Why a text does not follow a format, read from left to right.
#[derive(Copy, Clone, Debug, PartialEq, Eq, Structural)]
pub enum FormatError {
    /// The text does not hold the literal that the format has at this place.
    InvalidLiteral,
    /// The text does not hold a value of the given component at this place.
    InvalidComponent(Component),
}

/// Why one format did not yield a timestamp.
#[derive(Copy, Clone, Debug, PartialEq, Eq, Structural)]
pub enum ParsingError {
    /// After parsing the input, information is missing.
    MissingInformation,
    /// The input was not fully parsed.
    RemainingInformation,
    /// The input does not follow the format.
    Format(FormatError),
}

impl FormatError {
    /// What the error is, in words.
    pub open spec fn spec_message(&self) -> Seq<char> {
        match self {
            FormatError::InvalidLiteral => "invalid literal"@,
            FormatError::InvalidComponent(component) => "invalid "@ + component.spec_name(),
        }
    }

    /// What the error is, in words.
    pub fn message(&self) -> (text: String)
        ensures
            text@ == self.spec_message(),
    {
        match self {
            FormatError::InvalidLiteral => "invalid literal".to_owned(),
            FormatError::InvalidComponent(component) => "invalid ".to_owned().concat(
                component.name(),
            ),
        }
    }
}

impl ParsingError {
    /// What the error is, in words.
    pub open spec fn spec_message(&self) -> Seq<char> {
        match self {
            ParsingError::MissingInformation => "missing information"@,
            ParsingError::RemainingInformation => "remaining input"@,
            ParsingError::Format(detail) => "format error: "@ + detail.spec_message(),
        }
    }

    /// What the error is, in words.
    pub fn message(&self) -> (text: String)
        ensures
            text@ == self.spec_message(),
    {
        match self {
            ParsingError::MissingInformation => "missing information".to_owned(),
            ParsingError::RemainingInformation => "remaining input".to_owned(),
            ParsingError::Format(detail) => {
                let detail = detail.message();
                "format error: ".to_owned().concat(detail.as_str())
            },
        }
    }
}

impl From<FormatError> for ParsingError {
    fn from(value: FormatError) -> (res: Self) {
        Self::Format(value)
    }
}

impl FromSpecImpl<FormatError> for ParsingError {
    open spec fn obeys_from_spec() -> bool {
        true
    }

    open spec fn from_spec(value: FormatError) -> Self {
        Self::Format(value)
    }
}

/// Why no timestamp was found in a text.
#[derive(Copy, Clone, Debug, PartialEq, Eq, Structural)]
pub enum ParsedError {
    /// The format is unknown.
    UnknownFormat,
}

impl ParsedError {
    /// What the error is, in words.
    pub open spec fn spec_message(&self) -> Seq<char> {
        "unknown format"@
    }

    /// What the error is, in words.
    pub fn message(&self) -> (text: String)
        ensures
            text@ == self.spec_message(),
    {
        "unknown format".to_owned()
    }
}

/// Why a text gives no instant.
#[derive(Debug)]
pub enum Error {
    /// The text has one of the formats, but its fields are no instant.
    Conversion(ConversionError),
    /// The text has none of the formats.
    Parsed(ParsedError),
}

impl Error {
    /// Whether `text` says what the error is: the kind of the error, and
    /// behind it the words of the error that it holds.
    pub open spec fn is_message(&self, text: Seq<char>) -> bool {
        match self {
            Error::Conversion(conversion) => exists|detail: Seq<char>|
                #![auto]
                conversion.is_message(detail) && text == "conversion error: "@ + detail,
            Error::Parsed(parsed) => text == "parse error: "@ + parsed.spec_message(),
        }
    }

    /// What the error is, in words.
    pub fn message(&self) -> (text: String)
        ensures
            self.is_message(text@),
    {
        match self {
            Error::Conversion(conversion) => {
                let detail = conversion.message();
                "conversion error: ".to_owned().concat(detail.as_str())
            },
            Error::Parsed(parsed) => {
                let detail = parsed.message();
                "parse error: ".to_owned().concat(detail.as_str())
            },
        }
    }
}

impl From<ConversionError> for Error {
    fn from(value: ConversionError) -> (res: Self) {
        Self::Conversion(value)
    }
}

impl FromSpecImpl<ConversionError> for Error {
    open spec fn obeys_from_spec() -> bool {
        true
    }

    open spec fn from_spec(value: ConversionError) -> Self {
        Self::Conversion(value)
    }
}

impl From<ParsedError> for Error {
    fn from(value: ParsedError) -> (res: Self) {
        Self::Parsed(value)
    }
}

impl FromSpecImpl<ParsedError> for Error {
    open spec fn obeys_from_spec() -> bool {
        true
    }

    open spec fn from_spec(value: ParsedError) -> Self {
        Self::Parsed(value)
    }
}

} // verus!
