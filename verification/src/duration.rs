//! Signed durations with millisecond precision.

use vstd::prelude::*;

use crate::text::{decimal, lemma_decimal_digits, push_char, push_decimal, push_str};

verus! {

/// Milliseconds in a second.
pub const MILLIS_PER_SECOND: i64 = 1_000;

/// Milliseconds in a minute.
pub const MILLIS_PER_MINUTE: i64 = 60_000;

/// Milliseconds in an hour.
pub const MILLIS_PER_HOUR: i64 = 3_600_000;

/// Milliseconds in a day.
pub const MILLIS_PER_DAY: i64 = 86_400_000;

/// Duration stored as milliseconds.
#[derive(Debug, Clone, Copy, PartialEq, Eq, Structural, PartialOrd, Ord, Hash)]
pub struct Duration(i64);

impl View for Duration {
    type V = int;

    /// The length of the duration in milliseconds.
    closed spec fn view(&self) -> int {
        self.0 as int
    }
}

/// `value` fits in an `i64`.
pub open spec fn fits_i64(value: int) -> bool {
    i64::MIN <= value <= i64::MAX
}

/// Appends to `body` the part `value` followed by `suffix`, separated from
/// earlier parts by one space; zero parts are left out.
pub open spec fn append_part(body: Seq<char>, value: nat, suffix: Seq<char>) -> Seq<char> {
    if value == 0 {
        body
    } else if body.len() == 0 {
        decimal(value) + suffix
    } else {
        body + seq![' '] + decimal(value) + suffix
    }
}

/// The non-zero day, hour, minute, second and millisecond parts of `millis`
/// milliseconds (`millis >= 0`).
pub open spec fn duration_parts(millis: int) -> Seq<char> {
    let days = append_part(Seq::empty(), (millis / 86_400_000) as nat, "d"@);
    let hours = append_part(days, (millis % 86_400_000 / 3_600_000) as nat, "h"@);
    let minutes = append_part(hours, (millis % 3_600_000 / 60_000) as nat, "m"@);
    let seconds = append_part(minutes, (millis % 60_000 / 1_000) as nat, "s"@);
    append_part(seconds, (millis % 1_000) as nat, "ms"@)
}

/// Text of a duration: a `-` for negative durations, then its non-zero
/// parts, or `0ms` when every part is zero.
pub open spec fn duration_text(millis: int) -> Seq<char> {
    let magnitude = if millis < 0 { -millis } else { millis };
    let sign: Seq<char> = if millis < 0 { seq!['-'] } else { seq![] };
    let body = duration_parts(magnitude);
    sign + if body.len() == 0 { "0ms"@ } else { body }
}

impl Duration {
    /// Creates a duration from milliseconds.
    pub fn from_millis(milliseconds: i64) -> (duration: Self)
        ensures
            duration@ == milliseconds,
            duration == duration_of(milliseconds as int),
    {
        Self(milliseconds)
    }

    /// Creates a duration from seconds.
    pub fn from_secs(seconds: i64) -> (duration: Self)
        requires
            fits_i64(seconds * 1_000),
        ensures
            duration@ == seconds * 1_000,
            duration == duration_of(seconds * 1_000),
    {
        Self(seconds * 1_000)
    }

    /// Creates a duration from minutes.
    pub fn from_mins(minutes: i64) -> (duration: Self)
        requires
            fits_i64(minutes * 60_000),
        ensures
            duration@ == minutes * 60_000,
            duration == duration_of(minutes * 60_000),
    {
        Self(minutes * 60_000)
    }

    /// Creates a duration from hours.
    pub fn from_hours(hours: i64) -> (duration: Self)
        requires
            fits_i64(hours * 3_600_000),
        ensures
            duration@ == hours * 3_600_000,
            duration == duration_of(hours * 3_600_000),
    {
        Self(hours * 3_600_000)
    }

    /// Creates a duration from days.
    pub fn from_days(days: i64) -> (duration: Self)
        requires
            fits_i64(days * 86_400_000),
        ensures
            duration@ == days * 86_400_000,
            duration == duration_of(days * 86_400_000),
    {
        Self(days * 86_400_000)
    }

    /// Returns the duration as milliseconds.
    pub fn as_millis(self) -> (milliseconds: i64)
        ensures
            milliseconds == self@,
    {
        self.0
    }

    /// Formats as the non-zero parts, for example `12d 23h 45m 56s 123ms`,
    /// `1d 2s`, `-123ms` or `0ms`.
    pub fn to_string(self) -> (text: String)
        ensures
            text@ == duration_text(self@),
    {
        let mut text = String::new();
        let magnitude: u64 = if self.0 < 0 {
            (-(self.0 + 1)) as u64 + 1
        } else {
            self.0 as u64
        };
        if self.0 < 0 {
            push_char(&mut text, '-');
        }
        let start: Ghost<Seq<char>> = Ghost(text@);
        let mut needs_space = false;
        let m: u64 = magnitude;
        assert(text@.subrange(0, start@.len() as int) =~= start@);
        write_part(&mut text, Ghost(start@), &mut needs_space, m / 86_400_000, "d");
        write_part(&mut text, Ghost(start@), &mut needs_space, m % 86_400_000 / 3_600_000, "h");
        write_part(&mut text, Ghost(start@), &mut needs_space, m % 3_600_000 / 60_000, "m");
        write_part(&mut text, Ghost(start@), &mut needs_space, m % 60_000 / 1_000, "s");
        write_part(&mut text, Ghost(start@), &mut needs_space, m % 1_000, "ms");
        if !needs_space {
            push_str(&mut text, "0ms");
        }
        proof {
            assert(text@ =~= duration_text(self@));
        }
        text
    }
}

/// Appends one non-zero duration part; `body` is what the parts wrote so far
/// after `start`.
fn write_part(
    text: &mut String,
    Ghost(start): Ghost<Seq<char>>,
    needs_space: &mut bool,
    value: u64,
    suffix: &str,
)
    requires
        old(text)@.len() >= start.len(),
        old(text)@.subrange(0, start.len() as int) == start,
        *old(needs_space) == (old(text)@.len() > start.len()),
    ensures
        final(text)@.len() >= start.len(),
        final(text)@.subrange(0, start.len() as int) == start,
        final(text)@.subrange(start.len() as int, final(text)@.len() as int) == append_part(
            old(text)@.subrange(start.len() as int, old(text)@.len() as int),
            value as nat,
            suffix@,
        ),
        *final(needs_space) == (final(text)@.len() > start.len()),
{
    proof {
        lemma_decimal_digits(value as nat);
    }
    if value == 0 {
        return;
    }
    if *needs_space {
        push_char(text, ' ');
    }
    push_decimal(text, value);
    push_str(text, suffix);
    *needs_space = true;
    proof {
        let body = old(text)@.subrange(start.len() as int, old(text)@.len() as int);
        assert(text@.subrange(0, start.len() as int) =~= start);
        assert(text@.subrange(start.len() as int, text@.len() as int) =~= append_part(
            body,
            value as nat,
            suffix@,
        ));
    }
}

impl core::ops::Add for Duration {
    type Output = Self;

    /// Adds two durations.
    fn add(self, rhs: Self) -> (sum: Self) {
        Self(self.0 + rhs.0)
    }
}

impl vstd::std_specs::ops::AddSpecImpl for Duration {
    open spec fn obeys_add_spec() -> bool {
        true
    }

    open spec fn add_req(self, rhs: Self) -> bool {
        fits_i64(self@ + rhs@)
    }

    open spec fn add_spec(self, rhs: Self) -> Self {
        duration_of(self@ + rhs@)
    }
}

impl core::ops::Sub for Duration {
    type Output = Self;

    /// Subtracts two durations.
    fn sub(self, rhs: Self) -> (difference: Self) {
        Self(self.0 - rhs.0)
    }
}

impl vstd::std_specs::ops::SubSpecImpl for Duration {
    open spec fn obeys_sub_spec() -> bool {
        true
    }

    open spec fn sub_req(self, rhs: Self) -> bool {
        fits_i64(self@ - rhs@)
    }

    open spec fn sub_spec(self, rhs: Self) -> Self {
        duration_of(self@ - rhs@)
    }
}

/// The duration of `millis` milliseconds (`millis` in the `i64` range).
pub closed spec fn duration_of(millis: int) -> Duration {
    Duration(millis as i64)
}

/// `duration_of` yields a duration of exactly `millis` milliseconds.
pub broadcast proof fn lemma_duration_of(millis: int)
    requires
        fits_i64(millis),
    ensures
        (#[trigger] duration_of(millis))@ == millis,
{
}

} // verus!
