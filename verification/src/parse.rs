//! Byte-level parsing of the date and time fields of the supported text
//! formats, with the error that each malformed input yields.

use vstd::prelude::*;

use crate::calendar::{days_in_month, month_len};

verus! {

/// What was wrong with a date/time text or with date/time fields.
#[derive(Debug, Clone, Copy, PartialEq, Eq, Structural)]
pub enum ParseErrorKind {
    /// A `...T...Z` text is not `yyyy-MM-ddTHH:mm:ssZ` or `yyyy-MM-ddTHH:mm:ss.SSSZ`.
    Rfc3339Format,
    /// The date part holds a non-ASCII character.
    DateNotAscii,
    /// The date part is not ten bytes long.
    DateFormat,
    /// The time part holds a non-ASCII character.
    TimeNotAscii,
    /// The time part is not five, eight or twelve bytes long.
    TimeFormat,
    /// A `-`, `:` or `.` separator is missing.
    Separator,
    /// The year is not four digits.
    YearDigits,
    /// The month is not two digits.
    MonthDigits,
    /// The day is not two digits.
    DayDigits,
    /// The hour is not two digits.
    HourDigits,
    /// The minute is not two digits.
    MinuteDigits,
    /// The second is not two digits.
    SecondDigits,
    /// The millisecond is not three digits.
    MillisecondDigits,
    /// The month is not in `1..=12`.
    MonthRange,
    /// The day does not exist in the month.
    DayRange,
    /// The hour is not in `0..=23`.
    HourRange,
    /// The minute is not in `0..=59`.
    MinuteRange,
    /// The second is not in `0..=59`.
    SecondRange,
    /// The millisecond is not in `0..=999`.
    MillisecondRange,
    /// The text matches none of the supported formats.
    UnsupportedFormat,
}

/// The message that describes each kind of error.
pub open spec fn kind_message(kind: ParseErrorKind) -> Seq<char> {
    match kind {
        ParseErrorKind::Rfc3339Format =>
            "RFC 3339 date time must use yyyy-MM-ddTHH:mm:ssZ or yyyy-MM-ddTHH:mm:ss.SSSZ format"@,
        ParseErrorKind::DateNotAscii => "date must contain ASCII characters"@,
        ParseErrorKind::DateFormat => "date must use yyyy-MM-dd format"@,
        ParseErrorKind::TimeNotAscii => "time must contain ASCII characters"@,
        ParseErrorKind::TimeFormat => "time must use HH:mm, HH:mm:ss, or HH:mm:ss.SSS format"@,
        ParseErrorKind::Separator => "date time separator is invalid"@,
        ParseErrorKind::YearDigits => "year must contain digits"@,
        ParseErrorKind::MonthDigits => "month must contain digits"@,
        ParseErrorKind::DayDigits => "day must contain digits"@,
        ParseErrorKind::HourDigits => "hour must contain digits"@,
        ParseErrorKind::MinuteDigits => "minute must contain digits"@,
        ParseErrorKind::SecondDigits => "second must contain digits"@,
        ParseErrorKind::MillisecondDigits => "millisecond must contain digits"@,
        ParseErrorKind::MonthRange => "month must be in 1..=12"@,
        ParseErrorKind::DayRange => "day is out of range for month"@,
        ParseErrorKind::HourRange => "hour must be in 0..=23"@,
        ParseErrorKind::MinuteRange => "minute must be in 0..=59"@,
        ParseErrorKind::SecondRange => "second must be in 0..=59"@,
        ParseErrorKind::MillisecondRange => "millisecond must be in 0..=999"@,
        ParseErrorKind::UnsupportedFormat => "unsupported date time format"@,
    }
}

impl ParseErrorKind {
    /// The human-readable message of this kind of error.
    pub fn message(self) -> (message: &'static str)
        ensures
            message@ == kind_message(self),
    {
        match self {
            ParseErrorKind::Rfc3339Format =>
                "RFC 3339 date time must use yyyy-MM-ddTHH:mm:ssZ or yyyy-MM-ddTHH:mm:ss.SSSZ format",
            ParseErrorKind::DateNotAscii => "date must contain ASCII characters",
            ParseErrorKind::DateFormat => "date must use yyyy-MM-dd format",
            ParseErrorKind::TimeNotAscii => "time must contain ASCII characters",
            ParseErrorKind::TimeFormat => "time must use HH:mm, HH:mm:ss, or HH:mm:ss.SSS format",
            ParseErrorKind::Separator => "date time separator is invalid",
            ParseErrorKind::YearDigits => "year must contain digits",
            ParseErrorKind::MonthDigits => "month must contain digits",
            ParseErrorKind::DayDigits => "day must contain digits",
            ParseErrorKind::HourDigits => "hour must contain digits",
            ParseErrorKind::MinuteDigits => "minute must contain digits",
            ParseErrorKind::SecondDigits => "second must contain digits",
            ParseErrorKind::MillisecondDigits => "millisecond must contain digits",
            ParseErrorKind::MonthRange => "month must be in 1..=12",
            ParseErrorKind::DayRange => "day is out of range for month",
            ParseErrorKind::HourRange => "hour must be in 0..=23",
            ParseErrorKind::MinuteRange => "minute must be in 0..=59",
            ParseErrorKind::SecondRange => "second must be in 0..=59",
            ParseErrorKind::MillisecondRange => "millisecond must be in 0..=999",
            ParseErrorKind::UnsupportedFormat => "unsupported date time format",
        }
    }
}

/// Error returned when date/time parsing or validation fails.
#[derive(Debug, Clone, Copy, PartialEq, Eq, Structural)]
pub struct ParseDateTimeError {
    pub(crate) kind: ParseErrorKind,
}

impl ParseDateTimeError {
    /// The error of the given kind.
    pub closed spec fn of(kind: ParseErrorKind) -> ParseDateTimeError {
        ParseDateTimeError { kind }
    }

    pub(crate) fn new(kind: ParseErrorKind) -> (error: ParseDateTimeError)
        ensures
            error == ParseDateTimeError::of(kind),
    {
        ParseDateTimeError { kind }
    }

    /// The kind of an error, as a spec function.
    pub closed spec fn spec_kind(&self) -> ParseErrorKind {
        self.kind
    }

    /// What was wrong with the input.
    #[verifier::when_used_as_spec(spec_kind)]
    pub fn kind(&self) -> (kind: ParseErrorKind)
        ensures
            kind == self.spec_kind(),
    {
        self.kind
    }

    /// The human-readable message of this error.
    pub fn message(&self) -> (message: &'static str)
        ensures
            message@ == kind_message(self.spec_kind()),
    {
        self.kind.message()
    }

    /// Errors of equal kinds are equal.
    pub broadcast proof fn lemma_of_kind(kind: ParseErrorKind)
        ensures
            (#[trigger] ParseDateTimeError::of(kind)).spec_kind() == kind,
    {
    }
}

/// `b` is an ASCII decimal digit.
pub open spec fn is_digit(b: u8) -> bool {
    48 <= b <= 57
}

/// Every byte of `s` is an ASCII decimal digit.
pub open spec fn all_digits(s: Seq<u8>) -> bool {
    forall|i: int| 0 <= i < s.len() ==> is_digit(#[trigger] s[i])
}

/// Every byte of `s` is ASCII.
pub open spec fn all_ascii(s: Seq<u8>) -> bool {
    forall|i: int| 0 <= i < s.len() ==> #[trigger] s[i] < 128
}

/// The number that the decimal digits `s` spell.
pub open spec fn digits_value(s: Seq<u8>) -> int
    decreases s.len(),
{
    if s.len() == 0 {
        0
    } else {
        10 * digits_value(s.drop_last()) + (s.last() - 48)
    }
}

/// Numeric field `s[start..end]`, or the error `kind` when it holds a non-digit.
pub open spec fn spec_field(s: Seq<u8>, start: int, end: int, kind: ParseErrorKind) -> Result<
    int,
    ParseErrorKind,
> {
    if all_digits(s.subrange(start, end)) {
        Ok(digits_value(s.subrange(start, end)))
    } else {
        Err(kind)
    }
}

/// First check of a date that fails, if any.
pub open spec fn spec_validate_date(year: int, month: int, day: int) -> Option<ParseErrorKind> {
    if month == 0 || month > 12 {
        Some(ParseErrorKind::MonthRange)
    } else if day == 0 || day > month_len(year, month) {
        Some(ParseErrorKind::DayRange)
    } else {
        None
    }
}

/// First check of a time of day that fails, if any.
pub open spec fn spec_validate_time(hour: int, minute: int, second: int, millisecond: int) -> Option<
    ParseErrorKind,
> {
    if hour > 23 {
        Some(ParseErrorKind::HourRange)
    } else if minute > 59 {
        Some(ParseErrorKind::MinuteRange)
    } else if second > 59 {
        Some(ParseErrorKind::SecondRange)
    } else if millisecond > 999 {
        Some(ParseErrorKind::MillisecondRange)
    } else {
        None
    }
}

/// A `yyyy-MM-dd` date.
pub open spec fn spec_parse_date(s: Seq<u8>) -> Result<(i32, u8, u8), ParseErrorKind> {
    if !all_ascii(s) {
        Err(ParseErrorKind::DateNotAscii)
    } else if s.len() != 10 {
        Err(ParseErrorKind::DateFormat)
    } else {
        match spec_field(s, 0, 4, ParseErrorKind::YearDigits) {
            Err(e) => Err(e),
            Ok(year) => if s[4] != 45 {
                Err(ParseErrorKind::Separator)
            } else {
                match spec_field(s, 5, 7, ParseErrorKind::MonthDigits) {
                    Err(e) => Err(e),
                    Ok(month) => if s[7] != 45 {
                        Err(ParseErrorKind::Separator)
                    } else {
                        match spec_field(s, 8, 10, ParseErrorKind::DayDigits) {
                            Err(e) => Err(e),
                            Ok(day) => match spec_validate_date(year, month, day) {
                                Some(e) => Err(e),
                                None => Ok((year as i32, month as u8, day as u8)),
                            },
                        }
                    },
                }
            },
        }
    }
}

/// The time `HH:mm` with the given hour and minute fields, checked.
pub open spec fn spec_time_of(hour: int, minute: int, second: int, millisecond: int) -> Result<
    (u8, u8, u8, u16),
    ParseErrorKind,
> {
    match spec_validate_time(hour, minute, second, millisecond) {
        Some(e) => Err(e),
        None => Ok((hour as u8, minute as u8, second as u8, millisecond as u16)),
    }
}

/// A `HH:mm`, `HH:mm:ss` or `HH:mm:ss.SSS` time of day.
pub open spec fn spec_parse_time(s: Seq<u8>) -> Result<(u8, u8, u8, u16), ParseErrorKind> {
    if !all_ascii(s) {
        Err(ParseErrorKind::TimeNotAscii)
    } else if s.len() != 5 && s.len() != 8 && s.len() != 12 {
        Err(ParseErrorKind::TimeFormat)
    } else {
        match spec_field(s, 0, 2, ParseErrorKind::HourDigits) {
            Err(e) => Err(e),
            Ok(hour) => if s[2] != 58 {
                Err(ParseErrorKind::Separator)
            } else {
                match spec_field(s, 3, 5, ParseErrorKind::MinuteDigits) {
                    Err(e) => Err(e),
                    Ok(minute) => if s.len() == 5 {
                        spec_time_of(hour, minute, 0, 0)
                    } else if s[5] != 58 {
                        Err(ParseErrorKind::Separator)
                    } else {
                        match spec_field(s, 6, 8, ParseErrorKind::SecondDigits) {
                            Err(e) => Err(e),
                            Ok(second) => if s.len() == 8 {
                                spec_time_of(hour, minute, second, 0)
                            } else if s[8] != 46 {
                                Err(ParseErrorKind::Separator)
                            } else {
                                match spec_field(s, 9, 12, ParseErrorKind::MillisecondDigits) {
                                    Err(e) => Err(e),
                                    Ok(millisecond) => spec_time_of(
                                        hour,
                                        minute,
                                        second,
                                        millisecond,
                                    ),
                                }
                            },
                        }
                    },
                }
            },
        }
    }
}

/// `i` is the first position of byte `b` in `s`.
pub open spec fn is_first_index(s: Seq<u8>, b: u8, i: int) -> bool {
    &&& 0 <= i < s.len()
    &&& s[i] == b
    &&& forall|j: int| 0 <= j < i ==> #[trigger] s[j] != b
}

/// The first position of byte `b` in `s`, if `b` occurs.
pub open spec fn first_index(s: Seq<u8>, b: u8) -> Option<int> {
    if exists|i: int| is_first_index(s, b, i) {
        Some(choose|i: int| is_first_index(s, b, i))
    } else {
        None
    }
}

/// The first position of a byte is unique.
pub proof fn lemma_first_index(s: Seq<u8>, b: u8, i: int)
    requires
        is_first_index(s, b, i),
    ensures
        first_index(s, b) == Some(i),
{
    let k = choose|k: int| is_first_index(s, b, k);
    assert(is_first_index(s, b, k));
    if k < i {
        assert(s[k] != b);
    }
    if i < k {
        assert(s[i] != b);
    }
}

/// A byte that never occurs has no first position.
pub proof fn lemma_first_index_none(s: Seq<u8>, b: u8)
    requires
        forall|j: int| 0 <= j < s.len() ==> #[trigger] s[j] != b,
    ensures
        first_index(s, b) == None::<int>,
{
}

/// Byte `b` occurs in `s`.
pub open spec fn holds_byte(s: Seq<u8>, b: u8) -> bool {
    exists|i: int| 0 <= i < s.len() && s[i] == b
}

/// Splits a `...T...Z` text at its `T`: `Ok(None)` when the text does not end
/// in `Z` or holds no `T` before it, `Ok(Some(t))` with `t` the position of
/// the `T` when the parts have the RFC 3339 shapes, an error otherwise.
pub open spec fn spec_split_rfc3339(s: Seq<u8>) -> Result<Option<int>, ParseErrorKind> {
    if s.len() == 0 || s.last() != 90 {
        Ok(None)
    } else {
        let without_z = s.drop_last();
        match first_index(without_z, 84) {
            None => Ok(None),
            Some(t) => if t != 10 {
                Err(ParseErrorKind::Rfc3339Format)
            } else if without_z.len() - t - 1 == 8 {
                Ok(Some(t))
            } else if without_z.len() - t - 1 == 12 && without_z[t + 9] == 46 {
                Ok(Some(t))
            } else {
                Err(ParseErrorKind::Rfc3339Format)
            },
        }
    }
}

/// Reads the decimal field `bytes[start..end]`, or fails with `kind`.
pub fn parse_field(bytes: &[u8], start: usize, end: usize, kind: ParseErrorKind) -> (value: Result<
    u16,
    ParseErrorKind,
>)
    requires
        start <= end <= bytes@.len(),
        end - start <= 4,
    ensures
        match spec_field(bytes@, start as int, end as int, kind) {
            Ok(v) => value == Ok::<u16, ParseErrorKind>(v as u16) && 0 <= v < pow10_small(
                (end - start) as nat,
            ) && v < 10000,
            Err(e) => value == Err::<u16, ParseErrorKind>(e),
        },
{
    let mut value: u16 = 0;
    let mut i: usize = start;
    while i < end
        invariant
            start <= i <= end <= bytes@.len(),
            end - start <= 4,
            all_digits(bytes@.subrange(start as int, i as int)),
            value == digits_value(bytes@.subrange(start as int, i as int)),
            value < pow10_small((i - start) as nat),
        decreases end - i,
    {
        let b = bytes[i];
        if b < 48 || b > 57 {
            proof {
                assert(!is_digit(bytes@.subrange(start as int, end as int)[i - start]));
            }
            return Err(kind);
        }
        proof {
            let next = bytes@.subrange(start as int, i + 1);
            assert(next.drop_last() =~= bytes@.subrange(start as int, i as int));
            assert(all_digits(next)) by {
                assert forall|j: int| 0 <= j < next.len() implies is_digit(#[trigger] next[j]) by {
                    if j < next.len() - 1 {
                        assert(next[j] == bytes@.subrange(start as int, i as int)[j]);
                    }
                }
            }
            assert(pow10_small((i + 1 - start) as nat) == 10 * pow10_small((i - start) as nat));
            reveal_with_fuel(pow10_small, 5);
            assert(pow10_small((i + 1 - start) as nat) <= 10000);
        }
        value = value * 10 + (b - 48) as u16;
        i = i + 1;
    }
    proof {
        reveal_with_fuel(pow10_small, 5);
    }
    Ok(value)
}

/// `10^k` for the widths of date/time fields.
pub open spec fn pow10_small(k: nat) -> int
    decreases k,
{
    if k == 0 {
        1
    } else {
        10 * pow10_small((k - 1) as nat)
    }
}

/// Checks that `(year, month, day)` names an existing day.
pub fn validate_date(year: i32, month: u8, day: u8) -> (checked: Result<(), ParseErrorKind>)
    ensures
        checked == match spec_validate_date(year as int, month as int, day as int) {
            Some(e) => Err::<(), ParseErrorKind>(e),
            None => Ok(()),
        },
{
    if month == 0 || month > 12 {
        return Err(ParseErrorKind::MonthRange);
    }
    let max_day = days_in_month(year, month);
    if day == 0 || day > max_day {
        return Err(ParseErrorKind::DayRange);
    }
    Ok(())
}

/// Checks that the fields name a time of day.
pub fn validate_time(hour: u8, minute: u8, second: u8, millisecond: u16) -> (checked: Result<
    (),
    ParseErrorKind,
>)
    ensures
        checked == match spec_validate_time(
            hour as int,
            minute as int,
            second as int,
            millisecond as int,
        ) {
            Some(e) => Err::<(), ParseErrorKind>(e),
            None => Ok(()),
        },
{
    if hour > 23 {
        return Err(ParseErrorKind::HourRange);
    }
    if minute > 59 {
        return Err(ParseErrorKind::MinuteRange);
    }
    if second > 59 {
        return Err(ParseErrorKind::SecondRange);
    }
    if millisecond > 999 {
        return Err(ParseErrorKind::MillisecondRange);
    }
    Ok(())
}


/// Whether every byte of `bytes[start..end]` is ASCII.
pub fn is_ascii_range(bytes: &[u8], start: usize, end: usize) -> (ascii: bool)
    requires
        start <= end <= bytes@.len(),
    ensures
        ascii == all_ascii(bytes@.subrange(start as int, end as int)),
{
    let mut i: usize = start;
    while i < end
        invariant
            start <= i <= end <= bytes@.len(),
            all_ascii(bytes@.subrange(start as int, i as int)),
        decreases end - i,
    {
        if bytes[i] >= 128 {
            assert(bytes@.subrange(start as int, end as int)[i - start] >= 128);
            return false;
        }
        i = i + 1;
        assert forall|j: int| 0 <= j < i - start implies #[trigger] bytes@.subrange(
            start as int,
            i as int,
        )[j] < 128 by {
            if j < i - 1 - start {
                assert(bytes@.subrange(start as int, i - 1)[j] < 128);
            }
        }
    }
    true
}

/// The first position of `b` in `bytes[start..end]`, relative to `start`.
pub fn find_byte(bytes: &[u8], start: usize, end: usize, b: u8) -> (found: Option<usize>)
    requires
        start <= end <= bytes@.len(),
    ensures
        match first_index(bytes@.subrange(start as int, end as int), b) {
            Some(i) => found == Some(i as usize),
            None => found == None::<usize>,
        },
{
    let ghost s = bytes@.subrange(start as int, end as int);
    let mut i: usize = start;
    while i < end
        invariant
            start <= i <= end <= bytes@.len(),
            s == bytes@.subrange(start as int, end as int),
            forall|j: int| 0 <= j < i - start ==> #[trigger] s[j] != b,
        decreases end - i,
    {
        if bytes[i] == b {
            proof {
                lemma_first_index(s, b, i - start);
            }
            return Some(i - start);
        }
        i = i + 1;
    }
    proof {
        lemma_first_index_none(s, b);
    }
    None
}

/// Whether `b` occurs in `bytes`.
pub fn contains_byte(bytes: &[u8], b: u8) -> (found: bool)
    ensures
        found == holds_byte(bytes@, b),
{
    let mut i: usize = 0;
    while i < bytes.len()
        invariant
            i <= bytes@.len(),
            forall|j: int| 0 <= j < i ==> #[trigger] bytes@[j] != b,
        decreases bytes@.len() - i,
    {
        if bytes[i] == b {
            return true;
        }
        i = i + 1;
    }
    false
}

/// Parses the `yyyy-MM-dd` date `bytes[start..end]`.
pub fn parse_date(bytes: &[u8], start: usize, end: usize) -> (date: Result<(i32, u8, u8), ParseErrorKind>)
    requires
        start <= end <= bytes@.len(),
    ensures
        date == spec_parse_date(bytes@.subrange(start as int, end as int)),
{
    let ghost s = bytes@.subrange(start as int, end as int);
    if !is_ascii_range(bytes, start, end) {
        return Err(ParseErrorKind::DateNotAscii);
    }
    if end - start != 10 {
        return Err(ParseErrorKind::DateFormat);
    }
    assert(s.subrange(0, 4) =~= bytes@.subrange(start as int, start + 4));
    assert(s.subrange(5, 7) =~= bytes@.subrange(start + 5, start + 7));
    assert(s.subrange(8, 10) =~= bytes@.subrange(start + 8, start + 10));
    proof {
        reveal_with_fuel(pow10_small, 5);
    }
    let year = parse_field(bytes, start, start + 4, ParseErrorKind::YearDigits)?;
    if bytes[start + 4] != 45 {
        return Err(ParseErrorKind::Separator);
    }
    let month = parse_field(bytes, start + 5, start + 7, ParseErrorKind::MonthDigits)?;
    if bytes[start + 7] != 45 {
        return Err(ParseErrorKind::Separator);
    }
    let day = parse_field(bytes, start + 8, start + 10, ParseErrorKind::DayDigits)?;
    let year = year as i32;
    let month = month as u8;
    let day = day as u8;
    validate_date(year, month, day)?;
    Ok((year, month, day))
}

/// Parses the `HH:mm`, `HH:mm:ss` or `HH:mm:ss.SSS` time `bytes[start..end]`.
pub fn parse_time(bytes: &[u8], start: usize, end: usize) -> (time: Result<
    (u8, u8, u8, u16),
    ParseErrorKind,
>)
    requires
        start <= end <= bytes@.len(),
    ensures
        time == spec_parse_time(bytes@.subrange(start as int, end as int)),
{
    let ghost s = bytes@.subrange(start as int, end as int);
    if !is_ascii_range(bytes, start, end) {
        return Err(ParseErrorKind::TimeNotAscii);
    }
    let len = end - start;
    if len != 5 && len != 8 && len != 12 {
        return Err(ParseErrorKind::TimeFormat);
    }
    assert(s.subrange(0, 2) =~= bytes@.subrange(start as int, start + 2));
    assert(s.subrange(3, 5) =~= bytes@.subrange(start + 3, start + 5));
    proof {
        reveal_with_fuel(pow10_small, 5);
    }
    let hour = parse_field(bytes, start, start + 2, ParseErrorKind::HourDigits)?;
    if bytes[start + 2] != 58 {
        return Err(ParseErrorKind::Separator);
    }
    let minute = parse_field(bytes, start + 3, start + 5, ParseErrorKind::MinuteDigits)?;
    let hour = hour as u8;
    let minute = minute as u8;
    if len == 5 {
        validate_time(hour, minute, 0, 0)?;
        return Ok((hour, minute, 0, 0));
    }
    if bytes[start + 5] != 58 {
        return Err(ParseErrorKind::Separator);
    }
    assert(s.subrange(6, 8) =~= bytes@.subrange(start + 6, start + 8));
    let second = parse_field(bytes, start + 6, start + 8, ParseErrorKind::SecondDigits)?;
    let second = second as u8;
    if len == 8 {
        validate_time(hour, minute, second, 0)?;
        return Ok((hour, minute, second, 0));
    }
    if bytes[start + 8] != 46 {
        return Err(ParseErrorKind::Separator);
    }
    assert(s.subrange(9, 12) =~= bytes@.subrange(start + 9, start + 12));
    let millisecond = parse_field(bytes, start + 9, start + 12, ParseErrorKind::MillisecondDigits)?;
    validate_time(hour, minute, second, millisecond)?;
    Ok((hour, minute, second, millisecond))
}

/// Splits an RFC 3339 UTC text at its `T`; see `spec_split_rfc3339`.
pub fn split_rfc3339(bytes: &[u8]) -> (split: Result<Option<usize>, ParseErrorKind>)
    ensures
        match spec_split_rfc3339(bytes@) {
            Ok(Some(t)) => split == Ok::<Option<usize>, ParseErrorKind>(Some(t as usize)),
            Ok(None) => split == Ok::<Option<usize>, ParseErrorKind>(None),
            Err(e) => split == Err::<Option<usize>, ParseErrorKind>(e),
        },
{
    let len = bytes.len();
    if len == 0 || bytes[len - 1] != 90 {
        return Ok(None);
    }
    assert(bytes@.subrange(0, len - 1) =~= bytes@.drop_last());
    match find_byte(bytes, 0, len - 1, 84) {
        None => Ok(None),
        Some(t) => {
            if t != 10 {
                return Err(ParseErrorKind::Rfc3339Format);
            }
            let time_len = len - 1 - t - 1;
            if time_len == 8 {
                Ok(Some(t))
            } else if time_len == 12 && bytes[t + 9] == 46 {
                Ok(Some(t))
            } else {
                Err(ParseErrorKind::Rfc3339Format)
            }
        },
    }
}

} // verus!
