//! Parsing of command-line friendly timestamps of varying precision.
//!
//! A text such as `2023`, `2023-02` or `2023-02-03 4:05` names a period rather
//! than an instant. [`timestamp::ParsedTimestamp`] holds exactly the fields
//! that such a text gives, and [`timestamp::StartTimestamp`] is the first
//! second of the period in UTC: every field that the text leaves out takes its
//! smallest value.
//!
//! ## Basic usage
//!
//! ```rust,ignore
//! use flexible_time::calendar::Month;
//! use flexible_time::timestamp::StartTimestamp;
//! use std::str::FromStr;
//!
//! let start = StartTimestamp::from_str("2023-02").unwrap();
//! assert_eq!((start.year(), start.month(), start.day()), (2023, Month::February, 1));
//! assert_eq!(start.to_text(), b"2023-02-01 00:00:00");
//! ```
//!
//! ## What is proved
//!
//! The six formats are read by the code of [`format`] and [`primitives`],
//! which Verus verifies against spec functions that say, byte by byte, what
//! each format makes of a text. Whether a year, a month and a day are a date
//! of the calendar, and an hour, a minute and a second a time of day, is asked
//! of the `time` crate; the two functions of [`calendar`] that ask are
//! believed, not verified, and say so.

pub mod calendar;
pub mod error;
pub mod format;
pub mod primitives;
pub mod timestamp;
