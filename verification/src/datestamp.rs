//! Unix epoch dates in days.

use vstd::prelude::*;

use crate::clock::{clock_reading, unix_millis_of};
use crate::date::Date;
use crate::date_time::{split_day, DateTime};
use crate::duration::{duration_of, fits_i64, lemma_duration_of, Duration};
use crate::timestamp::{lemma_timestamp_of, timestamp_of, Timestamp};

verus! {

broadcast use lemma_duration_of, lemma_timestamp_of;

/// Days since the Unix epoch.
#[derive(Debug, Clone, Copy, PartialEq, Eq, Structural, PartialOrd, Ord, Hash)]
pub struct Datestamp(i32);

impl View for Datestamp {
    type V = int;

    /// Days since 1970-01-01.
    closed spec fn view(&self) -> int {
        self.0 as int
    }
}

/// The datestamp `days` days after the Unix epoch (`days` in the `i32` range).
pub closed spec fn datestamp_of(days: int) -> Datestamp {
    Datestamp(days as i32)
}

/// `datestamp_of` yields a datestamp of exactly `days` days.
pub broadcast proof fn lemma_datestamp_of(days: int)
    requires
        i32::MIN <= days <= i32::MAX,
    ensures
        (#[trigger] datestamp_of(days))@ == days,
{
}

/// `value` fits in an `i32`.
pub open spec fn fits_i32(value: int) -> bool {
    i32::MIN <= value <= i32::MAX
}

impl Datestamp {
    /// Creates a datestamp from Unix epoch days.
    pub fn from_days(days: i32) -> (datestamp: Self)
        ensures
            datestamp@ == days,
            datestamp == datestamp_of(days as int),
    {
        Self(days)
    }

    /// Returns the current Unix epoch day from the system clock.
    ///
    /// A clock set before 1970 reads as a negative day.
    pub fn now() -> (datestamp: Self) {
        let (days, _) = split_day(unix_millis_of(clock_reading()));
        Self(days as i32)
    }

    /// Returns the datestamp as Unix epoch days.
    pub fn as_i32(self) -> (days: i32)
        ensures
            days == self@,
    {
        self.0
    }

    /// Milliseconds from the Unix epoch to midnight of this day.
    pub open spec fn unix_millis(self) -> int {
        self@ * 86_400_000
    }

    fn as_unix_millis(self) -> (millis: i64)
        ensures
            millis == self.unix_millis(),
    {
        self.0 as i64 * 86_400_000
    }

    /// Adds a duration to midnight of this day and returns `Timestamp`.
    pub fn add_duration(self, duration: Duration) -> (timestamp: Timestamp)
        requires
            fits_i64(self.unix_millis() + duration@),
        ensures
            timestamp@ == self.unix_millis() + duration@,
            timestamp == timestamp_of(self.unix_millis() + duration@),
    {
        Timestamp::from_millis(self.as_unix_millis() + duration.as_millis())
    }

    /// Subtracts a duration from midnight of this day and returns `Timestamp`.
    pub fn sub_duration(self, duration: Duration) -> (timestamp: Timestamp)
        requires
            fits_i64(self.unix_millis() - duration@),
        ensures
            timestamp@ == self.unix_millis() - duration@,
            timestamp == timestamp_of(self.unix_millis() - duration@),
    {
        Timestamp::from_millis(self.as_unix_millis() - duration.as_millis())
    }

    /// The calendar date of this day, as a spec function.
    pub open spec fn spec_date(self) -> Date {
        DateTime::spec_at(self.unix_millis()).spec_date()
    }

    /// Returns the calendar date of this day.
    pub fn to_date(self) -> (date: Date)
        ensures
            date == self.spec_date(),
            date.epoch_day() == self@,
    {
        let date_time = DateTime::from_unix_millis(self.as_unix_millis());
        proof {
            use_type_invariant(&date_time);
            DateTime::lemma_spec_at(date_time, self.unix_millis());
            DateTime::lemma_parts(date_time);
        }
        date_time.date()
    }

    /// Text `yyyy-MM-dd` of this day.
    pub open spec fn spec_text(self) -> Seq<char> {
        self.spec_date().spec_text()
    }

    /// Formats as `yyyy-MM-dd`.
    pub fn to_string(self) -> (text: String)
        ensures
            text@ == self.spec_text(),
    {
        self.to_date().to_string()
    }
}

impl From<i32> for Datestamp {
    /// Creates a datestamp from Unix epoch days.
    fn from(days: i32) -> (datestamp: Self) {
        Self::from_days(days)
    }
}

impl vstd::std_specs::convert::FromSpecImpl<i32> for Datestamp {
    open spec fn obeys_from_spec() -> bool {
        true
    }

    open spec fn from_spec(days: i32) -> Self {
        datestamp_of(days as int)
    }
}

impl From<DateTime> for Datestamp {
    /// Converts `DateTime` to the Unix epoch day of its date; a day outside
    /// the `i32` range wraps around as `i32` arithmetic does.
    fn from(date_time: DateTime) -> (datestamp: Self) {
        Self(date_time.days_since_epoch() as i32)
    }
}

impl vstd::std_specs::convert::FromSpecImpl<DateTime> for Datestamp {
    open spec fn obeys_from_spec() -> bool {
        true
    }

    open spec fn from_spec(date_time: DateTime) -> Self {
        datestamp_of((date_time.epoch_day() as i32) as int)
    }
}

impl From<Date> for Datestamp {
    /// Converts `Date` to its Unix epoch day; a day outside the `i32` range
    /// wraps around as `i32` arithmetic does.
    fn from(date: Date) -> (datestamp: Self) {
        Self(date.days_since_epoch() as i32)
    }
}

impl vstd::std_specs::convert::FromSpecImpl<Date> for Datestamp {
    open spec fn obeys_from_spec() -> bool {
        true
    }

    open spec fn from_spec(date: Date) -> Self {
        datestamp_of((date.epoch_day() as i32) as int)
    }
}

impl core::ops::Add<Duration> for Datestamp {
    type Output = Timestamp;

    /// Adds a duration to midnight of this day.
    fn add(self, rhs: Duration) -> (timestamp: Timestamp) {
        self.add_duration(rhs)
    }
}

impl vstd::std_specs::ops::AddSpecImpl<Duration> for Datestamp {
    open spec fn obeys_add_spec() -> bool {
        true
    }

    open spec fn add_req(self, rhs: Duration) -> bool {
        fits_i64(self.unix_millis() + rhs@)
    }

    open spec fn add_spec(self, rhs: Duration) -> Timestamp {
        timestamp_of(self.unix_millis() + rhs@)
    }
}

impl core::ops::Sub<Duration> for Datestamp {
    type Output = Timestamp;

    /// Subtracts a duration from midnight of this day.
    fn sub(self, rhs: Duration) -> (timestamp: Timestamp) {
        self.sub_duration(rhs)
    }
}

impl vstd::std_specs::ops::SubSpecImpl<Duration> for Datestamp {
    open spec fn obeys_sub_spec() -> bool {
        true
    }

    open spec fn sub_req(self, rhs: Duration) -> bool {
        fits_i64(self.unix_millis() - rhs@)
    }

    open spec fn sub_spec(self, rhs: Duration) -> Timestamp {
        timestamp_of(self.unix_millis() - rhs@)
    }
}

impl core::ops::Sub for Datestamp {
    type Output = Duration;

    /// Returns the millisecond difference between midnights of two days.
    fn sub(self, rhs: Self) -> (difference: Duration) {
        Duration::from_days((self.0 - rhs.0) as i64)
    }
}

impl vstd::std_specs::ops::SubSpecImpl for Datestamp {
    open spec fn obeys_sub_spec() -> bool {
        true
    }

    open spec fn sub_req(self, rhs: Self) -> bool {
        fits_i32(self@ - rhs@)
    }

    open spec fn sub_spec(self, rhs: Self) -> Duration {
        duration_of((self@ - rhs@) * 86_400_000)
    }
}


/// Datestamps with equal day numbers are equal.
pub proof fn lemma_datestamp_view(a: Datestamp, b: Datestamp)
    requires
        a@ == b@,
    ensures
        a == b,
{
}

/// A datestamp reads back from its text: the text parses to the date of the
/// day, and that converts back to the datestamp, for every day in the years
/// 0 to 9999.
pub proof fn law_datestamp_text_round_trip(datestamp: Datestamp, date: Date)
    requires
        date.well_formed(),
        date.epoch_day() == datestamp@,
        0 <= date.spec_year() <= 9999,
    ensures
        Date::spec_parse(vstd::utf8::encode_utf8(datestamp.spec_text())) == Ok::<
            Date,
            crate::parse::ParseDateTimeError,
        >(date),
        datestamp_of((date.epoch_day() as i32) as int) == datestamp,
{
    date.lemma_well_formed();
    DateTime::lemma_from_fields(date.spec_year(), date.spec_month(), date.spec_day(), 0, 0, 0, 0);
    let midnight = DateTime::spec_from_fields(
        date.spec_year(),
        date.spec_month(),
        date.spec_day(),
        0,
        0,
        0,
        0,
    );
    DateTime::lemma_spec_at(midnight, datestamp.unix_millis());
    DateTime::lemma_parts(midnight);
    Date::lemma_fields_determine(midnight.spec_date(), date);
    crate::round_trip::law_date_text_round_trip(date);
    lemma_datestamp_view(datestamp_of(datestamp@), datestamp);
}

/// Converting a date and time to a datestamp gives the same datestamp as
/// converting its date: both count the days of the date part.
pub proof fn law_datestamp_of_date_time(date_time: DateTime)
    ensures
        <Datestamp as vstd::std_specs::convert::FromSpec<DateTime>>::from_spec(date_time)
            == <Datestamp as vstd::std_specs::convert::FromSpec<Date>>::from_spec(
            date_time.spec_date(),
        ),
{
    DateTime::lemma_parts(date_time);
}

} // verus!
