//! UTC calendar dates.

use vstd::prelude::*;
use vstd::string::*;

use crate::calendar::{epoch_days, valid_date};
use crate::date_time::{date_text, push_date, DateTime};
use crate::duration::{duration_of, fits_i64, lemma_duration_of, Duration};
use crate::parse::{spec_validate_date, ParseDateTimeError};

verus! {

broadcast use lemma_duration_of;

/// UTC calendar date without a timezone.
#[derive(Debug, Clone, Copy, PartialEq, Eq, Structural, PartialOrd, Ord, Hash)]
pub struct Date {
    pub(crate) year: i32,
    pub(crate) month: u8,
    pub(crate) day: u8,
}

impl Date {
    /// The fields name an existing day.
    #[verifier::type_invariant]
    pub closed spec fn well_formed(self) -> bool {
        valid_date(self.year as int, self.month as int, self.day as int)
    }

    pub(crate) fn from_validated(year: i32, month: u8, day: u8) -> (date: Date)
        requires
            valid_date(year as int, month as int, day as int),
        ensures
            date.spec_year() == year,
            date.spec_month() == month,
            date.spec_day() == day,
    {
        Date { year, month, day }
    }

    /// Inside the crate, the spec accessors read the fields.
    pub(crate) broadcast proof fn lemma_accessors(d: Date)
        ensures
            #![trigger d.spec_year()]
            #![trigger d.spec_month()]
            #![trigger d.spec_day()]
            d.spec_year() == d.year,
            d.spec_month() == d.month,
            d.spec_day() == d.day,
    {
    }

    /// The year, as a spec function.
    pub closed spec fn spec_year(self) -> i32 {
        self.year
    }

    /// The month, as a spec function.
    pub closed spec fn spec_month(self) -> u8 {
        self.month
    }

    /// The day of month, as a spec function.
    pub closed spec fn spec_day(self) -> u8 {
        self.day
    }

    /// Days from 1970-01-01 to this date.
    pub open spec fn epoch_day(self) -> int {
        epoch_days(self.spec_year() as int, self.spec_month() as int, self.spec_day() as int)
    }

    /// Milliseconds from 1970-01-01 00:00:00.000 UTC to midnight of this date.
    pub open spec fn unix_millis(self) -> int {
        self.epoch_day() * 86_400_000
    }

    /// Text `yyyy-MM-dd` of the date.
    pub open spec fn spec_text(self) -> Seq<char> {
        date_text(self.spec_year() as int, self.spec_month() as int, self.spec_day() as int)
    }

    /// The fields of a well-formed date name a valid day.
    pub proof fn lemma_well_formed(self)
        requires
            self.well_formed(),
        ensures
            valid_date(self.spec_year() as int, self.spec_month() as int, self.spec_day() as int),
    {
    }

    /// Dates with equal fields are equal.
    pub proof fn lemma_fields_determine(a: Date, b: Date)
        requires
            a.spec_year() == b.spec_year(),
            a.spec_month() == b.spec_month(),
            a.spec_day() == b.spec_day(),
        ensures
            a == b,
    {
    }

    /// Midnight of this date.
    fn midnight(self) -> (date_time: DateTime)
        ensures
            date_time.unix_millis() == self.unix_millis(),
            date_time.spec_date() == self,
    {
        proof {
            use_type_invariant(&self);
        }
        let date_time = DateTime::new(self.year, self.month, self.day, 0, 0, 0, 0);
        match date_time {
            Ok(date_time) => {
                proof {
                    DateTime::lemma_from_fields(self.year, self.month, self.day, 0, 0, 0, 0);
                    DateTime::lemma_parts(date_time);
                    Date::lemma_fields_determine(date_time.spec_date(), self);
                }
                date_time
            },
            Err(_) => {
                proof {
                    assert(spec_validate_date(self.year as int, self.month as int, self.day as int)
                        is None);
                    assert(false);
                }
                DateTime::from_unix_millis(0)
            },
        }
    }

    /// Days from 1970-01-01 to this date.
    pub(crate) fn days_since_epoch(self) -> (days: i64)
        ensures
            days == self.epoch_day(),
    {
        proof {
            use_type_invariant(&self);
        }
        crate::calendar::days_from_civil(self.year, self.month, self.day)
    }

    /// Returns the current UTC date.
    ///
    /// The date is that of an instant in the `i64` millisecond range, so its
    /// midnight lies at most one day before the start of that range.
    pub fn now() -> (date: Date)
        ensures
            exists|m: i64| #[trigger] DateTime::spec_at(m as int).spec_date() == date,
            i64::MIN - 86_399_999 <= date.unix_millis() <= i64::MAX,
    {
        let date_time = DateTime::now();
        proof {
            use_type_invariant(&date_time);
            DateTime::lemma_parts(date_time);
            DateTime::lemma_well_formed(date_time);
            let m = date_time.unix_millis() as i64;
            DateTime::lemma_spec_at(date_time, m as int);
            assert(DateTime::spec_at(m as int).spec_date() == date_time.spec_date());
        }
        date_time.date()
    }

    /// `Date::parse` on the bytes `s`: the date part of what `DateTime::parse` reads.
    pub open spec fn spec_parse(s: Seq<u8>) -> Result<Date, ParseDateTimeError> {
        match DateTime::spec_parse(s) {
            Ok(date_time) => Ok(date_time.spec_date()),
            Err(error) => Err(error),
        }
    }

    /// Parses a date from a text through `DateTime::parse` and keeps the date.
    ///
    /// Accepts `yyyy-MM-dd`, `yyyy-MM-dd HH:mm:ss.SSS`, `yyyy-MM-dd HH:mm:ss`
    /// and `yyyy-MM-dd HH:mm`, and the other formats of `DateTime::parse`.
    pub fn parse(value: &str) -> (date: Result<Self, ParseDateTimeError>)
        ensures
            date == Date::spec_parse(value.spec_bytes()),
    {
        match DateTime::parse(value) {
            Ok(date_time) => Ok(date_time.date()),
            Err(error) => Err(error),
        }
    }

    /// Adds a duration to midnight of this date and returns `DateTime`.
    pub fn add_duration(self, duration: Duration) -> (date_time: DateTime)
        requires
            fits_i64(self.unix_millis()),
            fits_i64(self.unix_millis() + duration@),
        ensures
            date_time.unix_millis() == self.unix_millis() + duration@,
    {
        self.midnight().add_duration(duration)
    }

    /// Subtracts a duration from midnight of this date and returns `DateTime`.
    pub fn sub_duration(self, duration: Duration) -> (date_time: DateTime)
        requires
            fits_i64(self.unix_millis()),
            fits_i64(self.unix_millis() - duration@),
        ensures
            date_time.unix_millis() == self.unix_millis() - duration@,
    {
        self.midnight().sub_duration(duration)
    }

    /// Returns the year.
    #[verifier::when_used_as_spec(spec_year)]
    pub fn year(self) -> (year: i32)
        ensures
            year == self.spec_year(),
    {
        self.year
    }

    /// Returns the month in `1..=12`.
    #[verifier::when_used_as_spec(spec_month)]
    pub fn month(self) -> (month: u8)
        ensures
            month == self.spec_month(),
            1 <= month <= 12,
    {
        proof {
            use_type_invariant(&self);
        }
        self.month
    }

    /// Returns the day of month.
    #[verifier::when_used_as_spec(spec_day)]
    pub fn day(self) -> (day: u8)
        ensures
            day == self.spec_day(),
            1 <= day <= 31,
    {
        proof {
            use_type_invariant(&self);
        }
        self.day
    }

    /// Formats the date as `yyyy-MM-dd`.
    pub fn to_string(self) -> (text: String)
        ensures
            text@ == self.spec_text(),
    {
        let mut text = String::new();
        push_date(&mut text, self.year, self.month, self.day);
        text
    }
}

impl core::ops::Sub for Date {
    type Output = Duration;

    /// Returns the millisecond difference between two dates at midnight.
    fn sub(self, rhs: Self) -> (difference: Duration) {
        let left = self.midnight();
        let right = rhs.midnight();
        left - right
    }
}

impl vstd::std_specs::ops::SubSpecImpl for Date {
    open spec fn obeys_sub_spec() -> bool {
        true
    }

    open spec fn sub_req(self, rhs: Self) -> bool {
        &&& fits_i64(self.unix_millis())
        &&& fits_i64(rhs.unix_millis())
        &&& fits_i64(self.unix_millis() - rhs.unix_millis())
    }

    open spec fn sub_spec(self, rhs: Self) -> Duration {
        duration_of(self.unix_millis() - rhs.unix_millis())
    }
}

impl core::str::FromStr for Date {
    type Err = ParseDateTimeError;

    /// Parses from the same formats as `Date::parse`.
    fn from_str(value: &str) -> (date: Result<Self, Self::Err>)
        ensures
            date == Date::spec_parse(value.spec_bytes()),
    {
        Self::parse(value)
    }
}

} // verus!
