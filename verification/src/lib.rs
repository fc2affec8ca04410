//! UTC date, time and Unix epoch types without timezone handling, and
//! snowflake-like 64-bit unique identifiers that count time with them.

pub mod calendar;
pub mod clock;
pub mod date;
pub mod date_time;
pub mod datestamp;
pub mod duration;
pub mod parse;
pub mod text;
pub mod time;
pub mod round_trip;
pub mod timestamp;

pub mod beakid;

pub use date::Date;
pub use date_time::DateTime;
pub use datestamp::Datestamp;
pub use duration::Duration;
pub use parse::{ParseDateTimeError, ParseErrorKind};
pub use time::Time;
pub use timestamp::Timestamp;
