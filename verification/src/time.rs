//! UTC times of day.

use vstd::prelude::*;
use vstd::string::*;

use crate::date_time::{day_millis, lemma_time_of_day_split, valid_time, DateTime};
use crate::duration::{duration_of, fits_i64, lemma_duration_of, Duration};
use crate::parse::{spec_validate_time, ParseDateTimeError};
use crate::text::{padded, push_char, push_padded};

verus! {

broadcast use lemma_duration_of;

/// UTC time of day with millisecond precision and no timezone.
#[derive(Debug, Clone, Copy, PartialEq, Eq, Structural, PartialOrd, Ord, Hash)]
pub struct Time {
    pub(crate) hour: u8,
    pub(crate) minute: u8,
    pub(crate) second: u8,
    pub(crate) millisecond: u16,
}

impl Time {
    /// The fields name a time of day.
    #[verifier::type_invariant]
    pub closed spec fn well_formed(self) -> bool {
        valid_time(self.hour as int, self.minute as int, self.second as int, self.millisecond as int)
    }

    pub(crate) fn from_validated(hour: u8, minute: u8, second: u8, millisecond: u16) -> (time: Time)
        requires
            valid_time(hour as int, minute as int, second as int, millisecond as int),
        ensures
            time.spec_hour() == hour,
            time.spec_minute() == minute,
            time.spec_second() == second,
            time.spec_millisecond() == millisecond,
    {
        Time { hour, minute, second, millisecond }
    }

    /// Inside the crate, the spec accessors read the fields.
    pub(crate) broadcast proof fn lemma_accessors(d: Time)
        ensures
            #![trigger d.spec_hour()]
            #![trigger d.spec_minute()]
            #![trigger d.spec_second()]
            #![trigger d.spec_millisecond()]
            d.spec_hour() == d.hour,
            d.spec_minute() == d.minute,
            d.spec_second() == d.second,
            d.spec_millisecond() == d.millisecond,
    {
    }

    /// The hour, as a spec function.
    pub closed spec fn spec_hour(self) -> u8 {
        self.hour
    }

    /// The minute, as a spec function.
    pub closed spec fn spec_minute(self) -> u8 {
        self.minute
    }

    /// The second, as a spec function.
    pub closed spec fn spec_second(self) -> u8 {
        self.second
    }

    /// The millisecond, as a spec function.
    pub closed spec fn spec_millisecond(self) -> u16 {
        self.millisecond
    }

    /// Milliseconds from midnight.
    pub open spec fn day_millis(self) -> int {
        day_millis(
            self.spec_hour() as int,
            self.spec_minute() as int,
            self.spec_second() as int,
            self.spec_millisecond() as int,
        )
    }

    /// The fields of a well-formed time name a time of day.
    pub proof fn lemma_well_formed(self)
        requires
            self.well_formed(),
        ensures
            valid_time(
                self.spec_hour() as int,
                self.spec_minute() as int,
                self.spec_second() as int,
                self.spec_millisecond() as int,
            ),
    {
    }

    /// Times with equal fields are equal.
    pub proof fn lemma_fields_determine(a: Time, b: Time)
        requires
            a.spec_hour() == b.spec_hour(),
            a.spec_minute() == b.spec_minute(),
            a.spec_second() == b.spec_second(),
            a.spec_millisecond() == b.spec_millisecond(),
        ensures
            a == b,
    {
    }

    /// A time of day is determined by its milliseconds from midnight, so
    /// `from_day_millis` inverts `as_day_millis`.
    pub proof fn law_day_millis_round_trip(time: Time, back: Time)
        requires
            time.well_formed(),
            back.well_formed(),
            back.day_millis() == time.day_millis(),
        ensures
            back == time,
    {
        time.lemma_well_formed();
        back.lemma_well_formed();
        crate::date_time::lemma_time_of_day_injective(
            time.spec_hour() as int,
            time.spec_minute() as int,
            time.spec_second() as int,
            time.spec_millisecond() as int,
            back.spec_hour() as int,
            back.spec_minute() as int,
            back.spec_second() as int,
            back.spec_millisecond() as int,
        );
        Time::lemma_fields_determine(time, back);
    }

    /// Returns the current UTC time of day.
    pub fn now() -> (time: Time) {
        DateTime::now().time()
    }

    /// `Time::parse` on the bytes `s`: the time part of what `DateTime::parse` reads.
    pub open spec fn spec_parse(s: Seq<u8>) -> Result<Time, ParseDateTimeError> {
        match DateTime::spec_parse(s) {
            Ok(date_time) => Ok(date_time.spec_time()),
            Err(error) => Err(error),
        }
    }

    /// Parses a time from a text through `DateTime::parse` and keeps the time.
    ///
    /// Accepts `HH:mm:ss.SSS`, `HH:mm:ss`, `HH:mm`, `yyyy-MM-dd HH:mm:ss.SSS`,
    /// `yyyy-MM-dd HH:mm:ss` and `yyyy-MM-dd HH:mm`, and the other formats of
    /// `DateTime::parse`.
    pub fn parse(value: &str) -> (time: Result<Self, ParseDateTimeError>)
        ensures
            time == Time::spec_parse(value.spec_bytes()),
    {
        match DateTime::parse(value) {
            Ok(date_time) => Ok(date_time.time()),
            Err(error) => Err(error),
        }
    }

    /// This time of day on 1970-01-01.
    fn on_unix_epoch_date(self) -> (date_time: DateTime)
        ensures
            date_time.unix_millis() == self.day_millis(),
    {
        proof {
            use_type_invariant(&self);
        }
        let date_time = DateTime::new(1970, 1, 1, self.hour, self.minute, self.second, self.millisecond);
        proof {
            DateTime::lemma_from_fields(1970, 1, 1, self.hour, self.minute, self.second, self.millisecond);
            reveal_with_fuel(crate::calendar::days_before_month, 2);
        }
        match date_time {
            Ok(date_time) => date_time,
            Err(_) => {
                proof {
                    assert(spec_validate_time(
                        self.hour as int,
                        self.minute as int,
                        self.second as int,
                        self.millisecond as int,
                    ) is None);
                    assert(false);
                }
                DateTime::from_unix_millis(0)
            },
        }
    }

    /// Adds a duration to this time on `1970-01-01` and returns `DateTime`.
    pub fn add_duration(self, duration: Duration) -> (date_time: DateTime)
        requires
            fits_i64(self.day_millis() + duration@),
        ensures
            date_time.unix_millis() == self.day_millis() + duration@,
    {
        proof {
            use_type_invariant(&self);
        }
        self.on_unix_epoch_date().add_duration(duration)
    }

    /// Subtracts a duration from this time on `1970-01-01` and returns `DateTime`.
    pub fn sub_duration(self, duration: Duration) -> (date_time: DateTime)
        requires
            fits_i64(self.day_millis() - duration@),
        ensures
            date_time.unix_millis() == self.day_millis() - duration@,
    {
        proof {
            use_type_invariant(&self);
        }
        self.on_unix_epoch_date().sub_duration(duration)
    }

    /// Returns the hour in `0..=23`.
    #[verifier::when_used_as_spec(spec_hour)]
    pub fn hour(self) -> (hour: u8)
        ensures
            hour == self.spec_hour(),
            hour <= 23,
    {
        proof {
            use_type_invariant(&self);
        }
        self.hour
    }

    /// Returns the minute in `0..=59`.
    #[verifier::when_used_as_spec(spec_minute)]
    pub fn minute(self) -> (minute: u8)
        ensures
            minute == self.spec_minute(),
            minute <= 59,
    {
        proof {
            use_type_invariant(&self);
        }
        self.minute
    }

    /// Returns the second in `0..=59`.
    #[verifier::when_used_as_spec(spec_second)]
    pub fn second(self) -> (second: u8)
        ensures
            second == self.spec_second(),
            second <= 59,
    {
        proof {
            use_type_invariant(&self);
        }
        self.second
    }

    /// Returns the millisecond in `0..=999`.
    #[verifier::when_used_as_spec(spec_millisecond)]
    pub fn millisecond(self) -> (millisecond: u16)
        ensures
            millisecond == self.spec_millisecond(),
            millisecond <= 999,
    {
        proof {
            use_type_invariant(&self);
        }
        self.millisecond
    }

    /// Text `HH:mm` of the time.
    pub open spec fn spec_text_mins(self) -> Seq<char> {
        padded(self.spec_hour() as int, 2) + seq![':'] + padded(self.spec_minute() as int, 2)
    }

    /// Text `HH:mm:ss` of the time.
    pub open spec fn spec_text_secs(self) -> Seq<char> {
        self.spec_text_mins() + seq![':'] + padded(self.spec_second() as int, 2)
    }

    /// Text `HH:mm:ss.SSS` of the time.
    pub open spec fn spec_text(self) -> Seq<char> {
        self.spec_text_secs() + seq!['.'] + padded(self.spec_millisecond() as int, 3)
    }

    /// Formats as `HH:mm`.
    pub fn to_string_mins(self) -> (text: String)
        ensures
            text@ == self.spec_text_mins(),
    {
        let mut text = String::new();
        push_padded(&mut text, self.hour as i64, 2);
        push_char(&mut text, ':');
        push_padded(&mut text, self.minute as i64, 2);
        proof {
            assert(text@ =~= self.spec_text_mins());
        }
        text
    }

    /// Formats as `HH:mm:ss`.
    pub fn to_string_secs(self) -> (text: String)
        ensures
            text@ == self.spec_text_secs(),
    {
        let mut text = self.to_string_mins();
        push_char(&mut text, ':');
        push_padded(&mut text, self.second as i64, 2);
        proof {
            assert(text@ =~= self.spec_text_secs());
        }
        text
    }

    /// Formats as `HH:mm:ss.SSS`, milliseconds included even when zero.
    pub fn to_string(self) -> (text: String)
        ensures
            text@ == self.spec_text(),
    {
        let mut text = self.to_string_secs();
        push_char(&mut text, '.');
        push_padded(&mut text, self.millisecond as i64, 3);
        proof {
            assert(text@ =~= self.spec_text());
        }
        text
    }

    /// Milliseconds from midnight.
    pub fn as_day_millis(self) -> (millis: i64)
        ensures
            millis == self.day_millis(),
            0 <= millis < 86_400_000,
    {
        proof {
            use_type_invariant(&self);
        }
        self.hour as i64 * 3_600_000 + self.minute as i64 * 60_000 + self.second as i64 * 1_000
            + self.millisecond as i64
    }

    /// The time `millis` milliseconds after midnight, or `None` unless
    /// `millis` is in `0..86_400_000`.
    pub fn from_day_millis(millis: i64) -> (time: Option<Time>)
        ensures
            match time {
                Some(t) => 0 <= millis < 86_400_000 && t.day_millis() == millis,
                None => !(0 <= millis < 86_400_000),
            },
    {
        if millis < 0 || millis >= 86_400_000 {
            return None;
        }
        proof {
            lemma_time_of_day_split(millis as int);
        }
        let hour = (millis / 3_600_000) as u8;
        let minute = (millis % 3_600_000 / 60_000) as u8;
        let second = (millis % 60_000 / 1_000) as u8;
        let millisecond = (millis % 1_000) as u16;
        Some(Time::from_validated(hour, minute, second, millisecond))
    }
}

impl core::ops::Sub for Time {
    type Output = Duration;

    /// Returns the millisecond difference between two times of day.
    fn sub(self, rhs: Self) -> (difference: Duration) {
        Duration::from_millis(self.as_day_millis() - rhs.as_day_millis())
    }
}

impl vstd::std_specs::ops::SubSpecImpl for Time {
    open spec fn obeys_sub_spec() -> bool {
        true
    }

    open spec fn sub_req(self, rhs: Self) -> bool {
        true
    }

    open spec fn sub_spec(self, rhs: Self) -> Duration {
        duration_of(self.day_millis() - rhs.day_millis())
    }
}

impl core::str::FromStr for Time {
    type Err = ParseDateTimeError;

    /// Parses from the same formats as `Time::parse`.
    fn from_str(value: &str) -> (time: Result<Self, Self::Err>)
        ensures
            time == Time::spec_parse(value.spec_bytes()),
    {
        Self::parse(value)
    }
}

} // verus!
