//! UTC date and time with millisecond precision.

use vstd::prelude::*;
use vstd::string::*;

use crate::calendar::{
    civil_from_days, days_from_civil, epoch_days, valid_date, MAX_EPOCH_DAYS, MIN_EPOCH_DAYS,
};
use crate::clock::{clock_reading, unix_millis_of};
use crate::date::Date;
use crate::duration::{duration_of, fits_i64, lemma_duration_of, Duration};
use crate::parse::{
    contains_byte, find_byte, first_index, holds_byte, parse_date, parse_time, spec_parse_date,
    spec_parse_time, spec_split_rfc3339, spec_validate_date, spec_validate_time, split_rfc3339,
    validate_date, validate_time, ParseDateTimeError, ParseErrorKind,
};
use crate::text::{padded, push_char, push_padded};
use crate::time::Time;

verus! {

broadcast use lemma_duration_of, Date::lemma_accessors, Time::lemma_accessors;

/// Milliseconds from midnight to the given time of day.
pub open spec fn day_millis(hour: int, minute: int, second: int, millisecond: int) -> int {
    hour * 3_600_000 + minute * 60_000 + second * 1_000 + millisecond
}

/// The fields name a time of day.
pub open spec fn valid_time(hour: int, minute: int, second: int, millisecond: int) -> bool {
    0 <= hour < 24 && 0 <= minute < 60 && 0 <= second < 60 && 0 <= millisecond < 1000
}

/// UTC date and time with millisecond precision and no timezone.
#[derive(Debug, Clone, Copy, PartialEq, Eq, Structural, PartialOrd, Ord, Hash)]
pub struct DateTime {
    pub(crate) year: i32,
    pub(crate) month: u8,
    pub(crate) day: u8,
    pub(crate) hour: u8,
    pub(crate) minute: u8,
    pub(crate) second: u8,
    pub(crate) millisecond: u16,
}

impl DateTime {
    /// The fields name an existing day and a time of day.
    #[verifier::type_invariant]
    pub closed spec fn well_formed(self) -> bool {
        valid_date(self.year as int, self.month as int, self.day as int) && valid_time(
            self.hour as int,
            self.minute as int,
            self.second as int,
            self.millisecond as int,
        )
    }

    /// Inside the crate, the spec accessors read the fields.
    pub(crate) broadcast proof fn lemma_accessors(d: DateTime)
        ensures
            #![trigger d.spec_year()]
            #![trigger d.spec_month()]
            #![trigger d.spec_day()]
            #![trigger d.spec_hour()]
            #![trigger d.spec_minute()]
            #![trigger d.spec_second()]
            #![trigger d.spec_millisecond()]
            d.spec_year() == d.year,
            d.spec_month() == d.month,
            d.spec_day() == d.day,
            d.spec_hour() == d.hour,
            d.spec_minute() == d.minute,
            d.spec_second() == d.second,
            d.spec_millisecond() == d.millisecond,
    {
    }

    /// The year, as a spec function.
    pub closed spec fn spec_year(self) -> i32 {
        self.year
    }

    /// The month, as a spec function.
    pub closed spec fn spec_month(self) -> u8 {
        self.month
    }

    /// The day of month, as a spec function.
    pub closed spec fn spec_day(self) -> u8 {
        self.day
    }

    /// The hour, as a spec function.
    pub closed spec fn spec_hour(self) -> u8 {
        self.hour
    }

    /// The minute, as a spec function.
    pub closed spec fn spec_minute(self) -> u8 {
        self.minute
    }

    /// The second, as a spec function.
    pub closed spec fn spec_second(self) -> u8 {
        self.second
    }

    /// The millisecond, as a spec function.
    pub closed spec fn spec_millisecond(self) -> u16 {
        self.millisecond
    }

    /// Days from 1970-01-01 to the date part.
    pub open spec fn epoch_day(self) -> int {
        epoch_days(self.spec_year() as int, self.spec_month() as int, self.spec_day() as int)
    }

    /// Milliseconds from midnight to the time part.
    pub open spec fn time_of_day(self) -> int {
        day_millis(
            self.spec_hour() as int,
            self.spec_minute() as int,
            self.spec_second() as int,
            self.spec_millisecond() as int,
        )
    }

    /// Milliseconds from 1970-01-01 00:00:00.000 UTC.
    pub open spec fn unix_millis(self) -> int {
        self.epoch_day() * 86_400_000 + self.time_of_day()
    }

    /// The date and time with the given fields.
    pub closed spec fn spec_from_fields(
        year: i32,
        month: u8,
        day: u8,
        hour: u8,
        minute: u8,
        second: u8,
        millisecond: u16,
    ) -> DateTime {
        DateTime { year, month, day, hour, minute, second, millisecond }
    }

    /// `DateTime::new` on the given fields: the first failing check, or the date and time.
    pub open spec fn spec_new(
        year: i32,
        month: u8,
        day: u8,
        hour: u8,
        minute: u8,
        second: u8,
        millisecond: u16,
    ) -> Result<DateTime, ParseDateTimeError> {
        match spec_validate_date(year as int, month as int, day as int) {
            Some(kind) => Err(ParseDateTimeError::of(kind)),
            None => match spec_validate_time(
                hour as int,
                minute as int,
                second as int,
                millisecond as int,
            ) {
                Some(kind) => Err(ParseDateTimeError::of(kind)),
                None => Ok(
                    DateTime::spec_from_fields(year, month, day, hour, minute, second, millisecond),
                ),
            },
        }
    }

    /// The fields of `spec_from_fields` are the ones it was given.
    pub broadcast proof fn lemma_from_fields(
        year: i32,
        month: u8,
        day: u8,
        hour: u8,
        minute: u8,
        second: u8,
        millisecond: u16,
    )
        ensures
            #![trigger DateTime::spec_from_fields(year, month, day, hour, minute, second, millisecond)]
            ({
                let dt = DateTime::spec_from_fields(
                    year,
                    month,
                    day,
                    hour,
                    minute,
                    second,
                    millisecond,
                );
                &&& dt.spec_year() == year
                &&& dt.spec_month() == month
                &&& dt.spec_day() == day
                &&& dt.spec_hour() == hour
                &&& dt.spec_minute() == minute
                &&& dt.spec_second() == second
                &&& dt.spec_millisecond() == millisecond
                &&& (valid_date(year as int, month as int, day as int) && valid_time(
                    hour as int,
                    minute as int,
                    second as int,
                    millisecond as int,
                ) ==> dt.well_formed())
            }),
    {
    }

    /// The fields of a well-formed date and time name a valid day and time of day.
    pub proof fn lemma_well_formed(self)
        requires
            self.well_formed(),
        ensures
            valid_date(self.spec_year() as int, self.spec_month() as int, self.spec_day() as int),
            valid_time(
                self.spec_hour() as int,
                self.spec_minute() as int,
                self.spec_second() as int,
                self.spec_millisecond() as int,
            ),
    {
    }

    /// Date and time values with equal fields are equal.
    pub proof fn lemma_fields_determine(a: DateTime, b: DateTime)
        requires
            a.spec_year() == b.spec_year(),
            a.spec_month() == b.spec_month(),
            a.spec_day() == b.spec_day(),
            a.spec_hour() == b.spec_hour(),
            a.spec_minute() == b.spec_minute(),
            a.spec_second() == b.spec_second(),
            a.spec_millisecond() == b.spec_millisecond(),
        ensures
            a == b,
    {
    }

    /// Creates a `DateTime` from checked date and time fields.
    ///
    /// Fails when `month` is not in `1..=12`, `day` is invalid for the month,
    /// `hour` is not in `0..=23`, `minute` or `second` is not in `0..=59`, or
    /// `millisecond` is not in `0..=999`, with the first of these checks that
    /// fails.
    pub fn new(
        year: i32,
        month: u8,
        day: u8,
        hour: u8,
        minute: u8,
        second: u8,
        millisecond: u16,
    ) -> (date_time: Result<Self, ParseDateTimeError>)
        ensures
            date_time == DateTime::spec_new(year, month, day, hour, minute, second, millisecond),
    {
        if let Err(kind) = validate_date(year, month, day) {
            return Err(ParseDateTimeError::new(kind));
        }
        if let Err(kind) = validate_time(hour, minute, second, millisecond) {
            return Err(ParseDateTimeError::new(kind));
        }
        Ok(Self { year, month, day, hour, minute, second, millisecond })
    }

    /// Returns the current UTC date and time from the system clock.
    ///
    /// A clock set before 1970 reads as that earlier instant; a reading past
    /// the `i64` millisecond range reads as its end.
    pub fn now() -> (date_time: Self)
        ensures
            fits_i64(date_time.unix_millis()),
    {
        Self::from_unix_millis(unix_millis_of(clock_reading()))
    }

    /// Returns the year.
    #[verifier::when_used_as_spec(spec_year)]
    pub fn year(self) -> (year: i32)
        ensures
            year == self.spec_year(),
    {
        self.year
    }

    /// Returns the month in `1..=12`.
    #[verifier::when_used_as_spec(spec_month)]
    pub fn month(self) -> (month: u8)
        ensures
            month == self.spec_month(),
            1 <= month <= 12,
    {
        proof {
            use_type_invariant(&self);
        }
        self.month
    }

    /// Returns the day of month.
    #[verifier::when_used_as_spec(spec_day)]
    pub fn day(self) -> (day: u8)
        ensures
            day == self.spec_day(),
            1 <= day <= 31,
    {
        proof {
            use_type_invariant(&self);
        }
        self.day
    }

    /// Returns the hour in `0..=23`.
    #[verifier::when_used_as_spec(spec_hour)]
    pub fn hour(self) -> (hour: u8)
        ensures
            hour == self.spec_hour(),
            hour <= 23,
    {
        proof {
            use_type_invariant(&self);
        }
        self.hour
    }

    /// Returns the minute in `0..=59`.
    #[verifier::when_used_as_spec(spec_minute)]
    pub fn minute(self) -> (minute: u8)
        ensures
            minute == self.spec_minute(),
            minute <= 59,
    {
        proof {
            use_type_invariant(&self);
        }
        self.minute
    }

    /// Returns the second in `0..=59`.
    #[verifier::when_used_as_spec(spec_second)]
    pub fn second(self) -> (second: u8)
        ensures
            second == self.spec_second(),
            second <= 59,
    {
        proof {
            use_type_invariant(&self);
        }
        self.second
    }

    /// Returns the millisecond in `0..=999`.
    #[verifier::when_used_as_spec(spec_millisecond)]
    pub fn millisecond(self) -> (millisecond: u16)
        ensures
            millisecond == self.spec_millisecond(),
            millisecond <= 999,
    {
        proof {
            use_type_invariant(&self);
        }
        self.millisecond
    }

    /// The date part, as a spec function.
    pub closed spec fn spec_date(self) -> Date {
        Date { year: self.year, month: self.month, day: self.day }
    }

    /// The time part, as a spec function.
    pub closed spec fn spec_time(self) -> Time {
        Time {
            hour: self.hour,
            minute: self.minute,
            second: self.second,
            millisecond: self.millisecond,
        }
    }

    /// The date and time parts keep the fields.
    pub broadcast proof fn lemma_parts(self)
        ensures
            #![trigger self.spec_date()]
            #![trigger self.spec_time()]
            self.spec_date().spec_year() == self.spec_year(),
            self.spec_date().spec_month() == self.spec_month(),
            self.spec_date().spec_day() == self.spec_day(),
            self.spec_time().spec_hour() == self.spec_hour(),
            self.spec_time().spec_minute() == self.spec_minute(),
            self.spec_time().spec_second() == self.spec_second(),
            self.spec_time().spec_millisecond() == self.spec_millisecond(),
    {
    }

    /// Returns the date part.
    pub fn date(self) -> (date: Date)
        ensures
            date == self.spec_date(),
            date.spec_year() == self.spec_year(),
            date.spec_month() == self.spec_month(),
            date.spec_day() == self.spec_day(),
    {
        proof {
            use_type_invariant(&self);
        }
        Date::from_validated(self.year, self.month, self.day)
    }

    /// Returns the time part.
    pub fn time(self) -> (time: Time)
        ensures
            time == self.spec_time(),
            time.spec_hour() == self.spec_hour(),
            time.spec_minute() == self.spec_minute(),
            time.spec_second() == self.spec_second(),
            time.spec_millisecond() == self.spec_millisecond(),
    {
        proof {
            use_type_invariant(&self);
        }
        Time::from_validated(self.hour, self.minute, self.second, self.millisecond)
    }

    /// Text `yyyy-MM-dd HH:mm` of the date and time.
    pub open spec fn spec_text_mins(self) -> Seq<char> {
        date_text(self.spec_year() as int, self.spec_month() as int, self.spec_day() as int) + seq![
            ' ',
        ] + padded(self.spec_hour() as int, 2) + seq![':'] + padded(self.spec_minute() as int, 2)
    }

    /// Text `yyyy-MM-dd HH:mm:ss` of the date and time.
    pub open spec fn spec_text_secs(self) -> Seq<char> {
        self.spec_text_mins() + seq![':'] + padded(self.spec_second() as int, 2)
    }

    /// Text `yyyy-MM-dd HH:mm:ss.SSS` of the date and time.
    pub open spec fn spec_text(self) -> Seq<char> {
        self.spec_text_secs() + seq!['.'] + padded(self.spec_millisecond() as int, 3)
    }

    /// Formats as `yyyy-MM-dd HH:mm`.
    pub fn to_string_mins(self) -> (text: String)
        ensures
            text@ == self.spec_text_mins(),
    {
        let mut text = String::new();
        push_date(&mut text, self.year, self.month, self.day);
        push_char(&mut text, ' ');
        push_padded(&mut text, self.hour as i64, 2);
        push_char(&mut text, ':');
        push_padded(&mut text, self.minute as i64, 2);
        proof {
            assert(text@ =~= self.spec_text_mins());
        }
        text
    }

    /// Formats as `yyyy-MM-dd HH:mm:ss`.
    pub fn to_string_secs(self) -> (text: String)
        ensures
            text@ == self.spec_text_secs(),
    {
        let mut text = self.to_string_mins();
        push_char(&mut text, ':');
        push_padded(&mut text, self.second as i64, 2);
        proof {
            assert(text@ =~= self.spec_text_secs());
        }
        text
    }

    /// Formats as `yyyy-MM-dd HH:mm:ss.SSS`, milliseconds included even when zero.
    pub fn to_string(self) -> (text: String)
        ensures
            text@ == self.spec_text(),
    {
        let mut text = self.to_string_secs();
        push_char(&mut text, '.');
        push_padded(&mut text, self.millisecond as i64, 3);
        proof {
            assert(text@ =~= self.spec_text());
        }
        text
    }

    /// The date and time `milliseconds` after 1970-01-01 00:00:00.000 UTC
    /// (before it when negative).
    pub fn from_unix_millis(milliseconds: i64) -> (date_time: Self)
        ensures
            date_time.unix_millis() == milliseconds,
            date_time.epoch_day() == milliseconds / 86_400_000,
            date_time.time_of_day() == milliseconds % 86_400_000,
    {
        let (days, rest) = split_day(milliseconds);
        proof {
            lemma_time_of_day_split(rest as int);
        }
        let (year, month, day) = civil_from_days(days);
        let hour = (rest / 3_600_000) as u8;
        let minute = (rest % 3_600_000 / 60_000) as u8;
        let second = (rest % 60_000 / 1_000) as u8;
        let millisecond = (rest % 1_000) as u16;
        Self { year, month, day, hour, minute, second, millisecond }
    }

    /// Milliseconds from 1970-01-01 00:00:00.000 UTC.
    pub fn as_unix_millis(self) -> (milliseconds: i64)
        requires
            fits_i64(self.unix_millis()),
        ensures
            milliseconds == self.unix_millis(),
    {
        proof {
            use_type_invariant(&self);
        }
        let days = days_from_civil(self.year, self.month, self.day);
        let day_millis: i64 = self.hour as i64 * 3_600_000 + self.minute as i64 * 60_000
            + self.second as i64 * 1_000 + self.millisecond as i64;
        if days < 0 {
            (days + 1) * 86_400_000 + (day_millis - 86_400_000)
        } else {
            days * 86_400_000 + day_millis
        }
    }

    /// The date and time `millis` milliseconds after the Unix epoch, as a spec
    /// function (`millis` in the `i64` range).
    pub closed spec fn spec_at(millis: int) -> DateTime {
        choose|date_time: DateTime| date_time.well_formed() && date_time.unix_millis() == millis
    }

    /// `spec_at` names the well-formed date and time of the instant.
    pub proof fn lemma_spec_at(date_time: DateTime, millis: int)
        requires
            date_time.well_formed(),
            date_time.unix_millis() == millis,
        ensures
            DateTime::spec_at(millis) == date_time,
    {
        let other = DateTime::spec_at(millis);
        assert(other.well_formed() && other.unix_millis() == millis);
        DateTime::law_unix_millis_round_trip(date_time, other);
    }

    /// Converting a date and time to Unix milliseconds and back (as
    /// `from_unix_millis` does) gives the same date and time: well-formed
    /// values at the same instant are equal.
    pub proof fn law_unix_millis_round_trip(a: DateTime, b: DateTime)
        requires
            a.well_formed(),
            b.well_formed(),
            a.unix_millis() == b.unix_millis(),
        ensures
            a == b,
    {
        let ta = a.time_of_day();
        let tb = b.time_of_day();
        assert(0 <= ta < 86_400_000 && 0 <= tb < 86_400_000);
        vstd::arithmetic::div_mod::lemma_fundamental_div_mod_converse(
            a.unix_millis(),
            86_400_000,
            a.epoch_day(),
            ta,
        );
        vstd::arithmetic::div_mod::lemma_fundamental_div_mod_converse(
            b.unix_millis(),
            86_400_000,
            b.epoch_day(),
            tb,
        );
        crate::calendar::law_epoch_days_injective(
            a.year as int,
            a.month as int,
            a.day as int,
            b.year as int,
            b.month as int,
            b.day as int,
        );
        lemma_time_of_day_injective(
            a.hour as int,
            a.minute as int,
            a.second as int,
            a.millisecond as int,
            b.hour as int,
            b.minute as int,
            b.second as int,
            b.millisecond as int,
        );
    }

    /// Every date and time within 200 million years of year 0 lies in the
    /// `i64` millisecond range, and converting it to Unix milliseconds (as
    /// `Timestamp::from` does) and back (as `from_unix_millis` does) gives
    /// it back.
    pub proof fn law_unix_millis_range_round_trip(date_time: DateTime)
        requires
            date_time.well_formed(),
            -200_000_000 <= date_time.spec_year() <= 200_000_000,
        ensures
            fits_i64(date_time.unix_millis()),
            DateTime::spec_at(date_time.unix_millis()) == date_time,
    {
        DateTime::lemma_well_formed(date_time);
        crate::calendar::lemma_epoch_days_bounds_200m(
            date_time.spec_year() as int,
            date_time.spec_month() as int,
            date_time.spec_day() as int,
        );
        let days = date_time.epoch_day();
        assert(-6_315_840_000_000_000_000 < days * 86_400_000 < 6_315_840_000_000_000_000)
            by (nonlinear_arith)
            requires
                -73_100_000_000 < days < 73_100_000_000,
        ;
        DateTime::lemma_spec_at(date_time, date_time.unix_millis());
    }

    /// Adding a duration and then subtracting it gives the same date and time back.
    pub proof fn law_add_then_sub_duration(
        date_time: DateTime,
        duration: Duration,
        shifted: DateTime,
        back: DateTime,
    )
        requires
            date_time.well_formed(),
            shifted.well_formed(),
            back.well_formed(),
            shifted.unix_millis() == date_time.unix_millis() + duration@,
            back.unix_millis() == shifted.unix_millis() - duration@,
        ensures
            back == date_time,
    {
        DateTime::law_unix_millis_round_trip(back, date_time);
    }

    /// Adding the difference `a - b` to `b` gives `a`.
    pub proof fn law_difference_then_add(a: DateTime, b: DateTime, sum: DateTime)
        requires
            a.well_formed(),
            b.well_formed(),
            sum.well_formed(),
            fits_i64(a.unix_millis() - b.unix_millis()),
            sum.unix_millis() == b.unix_millis() + duration_of(a.unix_millis() - b.unix_millis())@,
        ensures
            sum == a,
    {
        DateTime::law_unix_millis_round_trip(sum, a);
    }

    /// Days from 1970-01-01 to the date part.
    pub(crate) fn days_since_epoch(self) -> (days: i64)
        ensures
            days == self.epoch_day(),
    {
        proof {
            use_type_invariant(&self);
        }
        days_from_civil(self.year, self.month, self.day)
    }

    /// Milliseconds from the Unix epoch, computed without overflow.
    pub(crate) fn unix_millis_exact(self) -> (millis: i128)
        ensures
            millis == self.unix_millis(),
            -0x1_0000_0000_0000_0000_0000 < millis < 0x1_0000_0000_0000_0000_0000,
    {
        proof {
            use_type_invariant(&self);
            crate::calendar::lemma_epoch_days_bounds(self.year as int, self.month as int, self.day as int);
        }
        let days = days_from_civil(self.year, self.month, self.day) as i128;
        let day_millis: i128 = self.hour as i128 * 3_600_000 + self.minute as i128 * 60_000
            + self.second as i128 * 1_000 + self.millisecond as i128;
        days * 86_400_000 + day_millis
    }

    /// Adds a duration and returns the resulting `DateTime`.
    pub fn add_duration(self, duration: Duration) -> (date_time: Self)
        requires
            fits_i64(self.unix_millis()),
            fits_i64(self.unix_millis() + duration@),
        ensures
            date_time.unix_millis() == self.unix_millis() + duration@,
    {
        Self::from_unix_millis(self.as_unix_millis() + duration.as_millis())
    }

    /// Subtracts a duration and returns the resulting `DateTime`.
    pub fn sub_duration(self, duration: Duration) -> (date_time: Self)
        requires
            fits_i64(self.unix_millis()),
            fits_i64(self.unix_millis() - duration@),
        ensures
            date_time.unix_millis() == self.unix_millis() - duration@,
    {
        Self::from_unix_millis(self.as_unix_millis() - duration.as_millis())
    }

    /// `DateTime::parse` on the bytes `s`.
    pub open spec fn spec_parse(s: Seq<u8>) -> Result<DateTime, ParseDateTimeError> {
        match spec_split_rfc3339(s) {
            Err(kind) => Err(ParseDateTimeError::of(kind)),
            Ok(Some(t)) => spec_combine(
                spec_parse_date(s.subrange(0, t)),
                spec_parse_time(s.subrange(t + 1, s.len() - 1)),
            ),
            Ok(None) => match first_index(s, 32) {
                Some(i) => spec_combine(
                    spec_parse_date(s.subrange(0, i)),
                    spec_parse_time(s.subrange(i + 1, s.len() as int)),
                ),
                None => if holds_byte(s, 45) {
                    spec_combine(spec_parse_date(s), Ok((0u8, 0u8, 0u8, 0u16)))
                } else if holds_byte(s, 58) {
                    spec_combine(Ok((1970i32, 1u8, 1u8)), spec_parse_time(s))
                } else {
                    Err(ParseDateTimeError::of(ParseErrorKind::UnsupportedFormat))
                },
            },
        }
    }

    /// Parses a `DateTime` from a supported text format.
    ///
    /// Accepts `yyyy-MM-dd'T'HH:mm:ss.SSSZ`, `yyyy-MM-dd'T'HH:mm:ssZ`,
    /// `yyyy-MM-dd HH:mm:ss.SSS`, `yyyy-MM-dd HH:mm:ss`, `yyyy-MM-dd HH:mm`,
    /// `yyyy-MM-dd`, `HH:mm:ss.SSS`, `HH:mm:ss` and `HH:mm`. Date-only texts
    /// use `00:00:00.000`; time-only texts use `1970-01-01`.
    ///
    /// Fails when the format is unsupported, a part holds non-ASCII
    /// characters, a separator is wrong, or a field is out of range.
    pub fn parse(value: &str) -> (date_time: Result<Self, ParseDateTimeError>)
        ensures
            date_time == DateTime::spec_parse(value.spec_bytes()),
    {
        let bytes = value.as_bytes();
        let len = bytes.len();
        match split_rfc3339(bytes) {
            Err(kind) => {
                return Err(ParseDateTimeError::new(kind));
            },
            Ok(Some(t)) => {
                return combine(parse_date(bytes, 0, t), parse_time(bytes, t + 1, len - 1));
            },
            Ok(None) => {},
        }
        if let Some(i) = find_byte(bytes, 0, len, 32) {
            assert(bytes@.subrange(0, len as int) =~= bytes@);
            return combine(parse_date(bytes, 0, i), parse_time(bytes, i + 1, len));
        }
        assert(bytes@.subrange(0, len as int) =~= bytes@);
        if contains_byte(bytes, 45) {
            return combine(parse_date(bytes, 0, len), Ok((0, 0, 0, 0)));
        }
        if contains_byte(bytes, 58) {
            return combine(Ok((1970, 1, 1)), parse_time(bytes, 0, len));
        }
        Err(ParseDateTimeError::new(ParseErrorKind::UnsupportedFormat))
    }
}

/// Joins a parsed date and a parsed time, the date's error first.
pub open spec fn spec_combine(
    date: Result<(i32, u8, u8), ParseErrorKind>,
    time: Result<(u8, u8, u8, u16), ParseErrorKind>,
) -> Result<DateTime, ParseDateTimeError> {
    match date {
        Err(kind) => Err(ParseDateTimeError::of(kind)),
        Ok((year, month, day)) => match time {
            Err(kind) => Err(ParseDateTimeError::of(kind)),
            Ok((hour, minute, second, millisecond)) => DateTime::spec_new(
                year,
                month,
                day,
                hour,
                minute,
                second,
                millisecond,
            ),
        },
    }
}

fn combine(
    date: Result<(i32, u8, u8), ParseErrorKind>,
    time: Result<(u8, u8, u8, u16), ParseErrorKind>,
) -> (date_time: Result<DateTime, ParseDateTimeError>)
    ensures
        date_time == spec_combine(date, time),
{
    match date {
        Err(kind) => Err(ParseDateTimeError::new(kind)),
        Ok((year, month, day)) => match time {
            Err(kind) => Err(ParseDateTimeError::new(kind)),
            Ok((hour, minute, second, millisecond)) => DateTime::new(
                year,
                month,
                day,
                hour,
                minute,
                second,
                millisecond,
            ),
        },
    }
}

/// Text `yyyy-MM-dd` of a date.
pub open spec fn date_text(year: int, month: int, day: int) -> Seq<char> {
    padded(year, 4) + seq!['-'] + padded(month, 2) + seq!['-'] + padded(day, 2)
}

/// Appends `yyyy-MM-dd`.
pub fn push_date(text: &mut String, year: i32, month: u8, day: u8)
    ensures
        final(text)@ == old(text)@ + date_text(year as int, month as int, day as int),
{
    push_padded(text, year as i64, 4);
    push_char(text, '-');
    push_padded(text, month as i64, 2);
    push_char(text, '-');
    push_padded(text, day as i64, 2);
    proof {
        assert(text@ =~= old(text)@ + date_text(year as int, month as int, day as int));
    }
}

/// Splits milliseconds into whole days (rounded down) and the milliseconds of
/// the day.
pub fn split_day(milliseconds: i64) -> (split: (i64, i64))
    ensures
        split.0 == milliseconds / 86_400_000,
        split.1 == milliseconds % 86_400_000,
        MIN_EPOCH_DAYS <= split.0 <= MAX_EPOCH_DAYS,
{
    let days: i64 = if milliseconds >= 0 {
        milliseconds / 86_400_000
    } else {
        -((-(milliseconds + 1)) / 86_400_000) - 1
    };
    proof {
        if milliseconds < 0 {
            lemma_floor_div_below_zero(milliseconds as int, 86_400_000);
        }
        vstd::arithmetic::div_mod::lemma_fundamental_div_mod(milliseconds as int, 86_400_000);
    }
    let rest: i64 = if milliseconds >= 0 {
        milliseconds % 86_400_000
    } else {
        86_399_999 - (-(milliseconds + 1)) % 86_400_000
    };
    proof {
        vstd::arithmetic::div_mod::lemma_fundamental_div_mod(-(milliseconds + 1), 86_400_000);
        vstd::arithmetic::div_mod::lemma_fundamental_div_mod_converse(
            milliseconds as int,
            86_400_000,
            days as int,
            rest as int,
        );
    }
    (days, rest)
}

/// The hour, minute, second and millisecond of a day's milliseconds.
pub proof fn lemma_time_of_day_split(rest: int)
    requires
        0 <= rest < 86_400_000,
    ensures
        valid_time(rest / 3_600_000, rest % 3_600_000 / 60_000, rest % 60_000 / 1_000, rest % 1_000),
        day_millis(rest / 3_600_000, rest % 3_600_000 / 60_000, rest % 60_000 / 1_000, rest % 1_000)
            == rest,
{
    vstd::arithmetic::div_mod::lemma_fundamental_div_mod(rest, 3_600_000);
    vstd::arithmetic::div_mod::lemma_fundamental_div_mod(rest % 3_600_000, 60_000);
    vstd::arithmetic::div_mod::lemma_fundamental_div_mod(rest, 60_000);
    vstd::arithmetic::div_mod::lemma_fundamental_div_mod(rest % 60_000, 1_000);
    vstd::arithmetic::div_mod::lemma_fundamental_div_mod(rest, 1_000);
    vstd::arithmetic::div_mod::lemma_mod_mod(rest, 60_000, 60);
    vstd::arithmetic::div_mod::lemma_mod_mod(rest, 1_000, 60);
}

/// Times of day with equal milliseconds from midnight have equal fields.
pub proof fn lemma_time_of_day_injective(
    h1: int,
    m1: int,
    s1: int,
    l1: int,
    h2: int,
    m2: int,
    s2: int,
    l2: int,
)
    requires
        valid_time(h1, m1, s1, l1),
        valid_time(h2, m2, s2, l2),
        day_millis(h1, m1, s1, l1) == day_millis(h2, m2, s2, l2),
    ensures
        h1 == h2 && m1 == m2 && s1 == s2 && l1 == l2,
{
    let t = day_millis(h1, m1, s1, l1);
    vstd::arithmetic::div_mod::lemma_fundamental_div_mod_converse(
        t,
        3_600_000,
        h1,
        m1 * 60_000 + s1 * 1_000 + l1,
    );
    vstd::arithmetic::div_mod::lemma_fundamental_div_mod_converse(
        t,
        3_600_000,
        h2,
        m2 * 60_000 + s2 * 1_000 + l2,
    );
    let r = m1 * 60_000 + s1 * 1_000 + l1;
    vstd::arithmetic::div_mod::lemma_fundamental_div_mod_converse(r, 60_000, m1, s1 * 1_000 + l1);
    vstd::arithmetic::div_mod::lemma_fundamental_div_mod_converse(r, 60_000, m2, s2 * 1_000 + l2);
    let q = s1 * 1_000 + l1;
    vstd::arithmetic::div_mod::lemma_fundamental_div_mod_converse(q, 1_000, s1, l1);
    vstd::arithmetic::div_mod::lemma_fundamental_div_mod_converse(q, 1_000, s2, l2);
}

/// Floor division of a negative number, from non-negative operands.
pub proof fn lemma_floor_div_below_zero(y: int, d: int)
    requires
        y < 0,
        d > 0,
    ensures
        y / d == -((-(y + 1)) / d) - 1,
{
    let q = (-(y + 1)) / d;
    let r = (-(y + 1)) % d;
    vstd::arithmetic::div_mod::lemma_fundamental_div_mod(-(y + 1), d);
    assert(y == (-q - 1) * d + (d - 1 - r)) by (nonlinear_arith)
        requires
            -(y + 1) == d * q + r,
    ;
    vstd::arithmetic::div_mod::lemma_fundamental_div_mod_converse(y, d, -q - 1, d - 1 - r);
}

impl core::ops::Sub for DateTime {
    type Output = Duration;

    /// Returns the millisecond difference between two `DateTime` values.
    fn sub(self, rhs: Self) -> (difference: Duration) {
        Duration::from_millis(self.as_unix_millis() - rhs.as_unix_millis())
    }
}

impl vstd::std_specs::ops::SubSpecImpl for DateTime {
    open spec fn obeys_sub_spec() -> bool {
        true
    }

    open spec fn sub_req(self, rhs: Self) -> bool {
        &&& fits_i64(self.unix_millis())
        &&& fits_i64(rhs.unix_millis())
        &&& fits_i64(self.unix_millis() - rhs.unix_millis())
    }

    open spec fn sub_spec(self, rhs: Self) -> Duration {
        duration_of(self.unix_millis() - rhs.unix_millis())
    }
}

impl core::str::FromStr for DateTime {
    type Err = ParseDateTimeError;

    /// Parses from the same formats as `DateTime::parse`.
    fn from_str(value: &str) -> (date_time: Result<Self, Self::Err>)
        ensures
            date_time == DateTime::spec_parse(value.spec_bytes()),
    {
        Self::parse(value)
    }
}

} // verus!
