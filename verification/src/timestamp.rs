//! Unix epoch time in milliseconds.

use vstd::prelude::*;

use crate::clock::{clock_reading, unix_millis_of};
use crate::date_time::DateTime;
use crate::duration::{duration_of, fits_i64, lemma_duration_of, Duration};

verus! {

broadcast use lemma_duration_of;

/// Milliseconds since the Unix epoch.
#[derive(Debug, Clone, Copy, PartialEq, Eq, Structural, PartialOrd, Ord, Hash)]
pub struct Timestamp(i64);

impl View for Timestamp {
    type V = int;

    /// Milliseconds since 1970-01-01 00:00:00.000 UTC.
    closed spec fn view(&self) -> int {
        self.0 as int
    }
}

/// The timestamp `millis` milliseconds after the Unix epoch (`millis` in the `i64` range).
pub closed spec fn timestamp_of(millis: int) -> Timestamp {
    Timestamp(millis as i64)
}

/// `timestamp_of` yields a timestamp of exactly `millis` milliseconds.
pub broadcast proof fn lemma_timestamp_of(millis: int)
    requires
        fits_i64(millis),
    ensures
        (#[trigger] timestamp_of(millis))@ == millis,
{
}

/// Timestamps with equal milliseconds are equal.
pub proof fn lemma_timestamp_view(a: Timestamp, b: Timestamp)
    requires
        a@ == b@,
    ensures
        a == b,
{
}

impl Timestamp {
    /// Creates a timestamp from Unix epoch milliseconds.
    pub fn from_millis(milliseconds: i64) -> (timestamp: Self)
        ensures
            timestamp@ == milliseconds,
            timestamp == timestamp_of(milliseconds as int),
    {
        Self(milliseconds)
    }

    /// Returns the current Unix epoch milliseconds from the system clock.
    ///
    /// A clock set before 1970 reads as a negative timestamp; a reading past
    /// the `i64` range reads as its end.
    pub fn now() -> (timestamp: Self) {
        Self(unix_millis_of(clock_reading()))
    }

    /// Returns the timestamp as Unix epoch milliseconds.
    pub fn as_i64(self) -> (milliseconds: i64)
        ensures
            milliseconds == self@,
    {
        self.0
    }

    /// Adds a duration and returns the resulting `Timestamp`.
    pub fn add_duration(self, duration: Duration) -> (timestamp: Self)
        requires
            fits_i64(self@ + duration@),
        ensures
            timestamp@ == self@ + duration@,
            timestamp == timestamp_of(self@ + duration@),
    {
        Self(self.0 + duration.as_millis())
    }

    /// Subtracts a duration and returns the resulting `Timestamp`.
    pub fn sub_duration(self, duration: Duration) -> (timestamp: Self)
        requires
            fits_i64(self@ - duration@),
        ensures
            timestamp@ == self@ - duration@,
            timestamp == timestamp_of(self@ - duration@),
    {
        Self(self.0 - duration.as_millis())
    }

    /// Text `yyyy-MM-dd HH:mm:ss.SSS` of the instant, as `DateTime` renders it.
    pub open spec fn spec_text(self) -> Seq<char> {
        DateTime::spec_at(self@).spec_text()
    }

    /// Formats as `yyyy-MM-dd HH:mm:ss.SSS`.
    pub fn to_string(self) -> (text: String)
        ensures
            text@ == self.spec_text(),
    {
        let date_time = DateTime::from_unix_millis(self.0);
        proof {
            use_type_invariant(&date_time);
            DateTime::lemma_spec_at(date_time, self@);
        }
        date_time.to_string()
    }
}

impl From<i64> for Timestamp {
    /// Creates a timestamp from Unix epoch milliseconds.
    fn from(milliseconds: i64) -> (timestamp: Self) {
        Self::from_millis(milliseconds)
    }
}

impl vstd::std_specs::convert::FromSpecImpl<i64> for Timestamp {
    open spec fn obeys_from_spec() -> bool {
        true
    }

    open spec fn from_spec(milliseconds: i64) -> Self {
        timestamp_of(milliseconds as int)
    }
}

impl From<DateTime> for Timestamp {
    /// Converts `DateTime` to Unix epoch milliseconds; an instant outside the
    /// `i64` range wraps around as the `i64` arithmetic does.
    fn from(date_time: DateTime) -> (timestamp: Self) {
        Self(date_time.unix_millis_exact() as i64)
    }
}

impl vstd::std_specs::convert::FromSpecImpl<DateTime> for Timestamp {
    open spec fn obeys_from_spec() -> bool {
        true
    }

    open spec fn from_spec(date_time: DateTime) -> Self {
        timestamp_of((date_time.unix_millis() as i64) as int)
    }
}

impl core::ops::Add<Duration> for Timestamp {
    type Output = Self;

    /// Adds a duration to a timestamp.
    fn add(self, rhs: Duration) -> (timestamp: Self) {
        self.add_duration(rhs)
    }
}

impl vstd::std_specs::ops::AddSpecImpl<Duration> for Timestamp {
    open spec fn obeys_add_spec() -> bool {
        true
    }

    open spec fn add_req(self, rhs: Duration) -> bool {
        fits_i64(self@ + rhs@)
    }

    open spec fn add_spec(self, rhs: Duration) -> Self {
        timestamp_of(self@ + rhs@)
    }
}

impl core::ops::Sub<Duration> for Timestamp {
    type Output = Self;

    /// Subtracts a duration from a timestamp.
    fn sub(self, rhs: Duration) -> (timestamp: Self) {
        self.sub_duration(rhs)
    }
}

impl vstd::std_specs::ops::SubSpecImpl<Duration> for Timestamp {
    open spec fn obeys_sub_spec() -> bool {
        true
    }

    open spec fn sub_req(self, rhs: Duration) -> bool {
        fits_i64(self@ - rhs@)
    }

    open spec fn sub_spec(self, rhs: Duration) -> Self {
        timestamp_of(self@ - rhs@)
    }
}

impl core::ops::Sub for Timestamp {
    type Output = Duration;

    /// Returns the millisecond difference between two timestamps.
    fn sub(self, rhs: Self) -> (difference: Duration) {
        Duration::from_millis(self.0 - rhs.0)
    }
}

impl vstd::std_specs::ops::SubSpecImpl for Timestamp {
    open spec fn obeys_sub_spec() -> bool {
        true
    }

    open spec fn sub_req(self, rhs: Self) -> bool {
        fits_i64(self@ - rhs@)
    }

    open spec fn sub_spec(self, rhs: Self) -> Duration {
        duration_of(self@ - rhs@)
    }
}


/// Adding a duration to a timestamp and then subtracting it gives the
/// timestamp back.
pub proof fn law_timestamp_add_then_sub(timestamp: Timestamp, duration: Duration)
    requires
        fits_i64(timestamp@ + duration@),
    ensures
        timestamp_of(timestamp_of(timestamp@ + duration@)@ - duration@) == timestamp,
{
    lemma_timestamp_view(timestamp_of(timestamp@), timestamp);
}

/// Adding the difference `a - b` to `b` gives `a`.
pub proof fn law_timestamp_difference_then_add(a: Timestamp, b: Timestamp)
    requires
        fits_i64(a@ - b@),
    ensures
        timestamp_of(b@ + duration_of(a@ - b@)@) == a,
{
    lemma_timestamp_view(timestamp_of(a@), a);
}

/// A timestamp reads back from its text: the text parses to the date and
/// time of the instant, and that converts back to the timestamp, for every
/// instant in the years 0 to 9999.
pub proof fn law_timestamp_text_round_trip(timestamp: Timestamp, date_time: DateTime)
    requires
        date_time.well_formed(),
        date_time.unix_millis() == timestamp@,
        0 <= date_time.spec_year() <= 9999,
    ensures
        DateTime::spec_parse(vstd::utf8::encode_utf8(timestamp.spec_text())) == Ok::<
            DateTime,
            crate::parse::ParseDateTimeError,
        >(date_time),
        timestamp_of((date_time.unix_millis() as i64) as int) == timestamp,
{
    DateTime::lemma_spec_at(date_time, timestamp@);
    crate::round_trip::law_date_time_text_round_trip(date_time);
    lemma_timestamp_view(timestamp_of(timestamp@), timestamp);
}

} // verus!
