//! Timestamps of varying precision and the instants they stand for.

pub mod parsed;
pub mod start;

pub use parsed::ParsedTimestamp;
pub use start::{parse_start_timestamp, StartTimestamp};
