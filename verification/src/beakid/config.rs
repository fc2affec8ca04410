//! Generator configuration and the parsing of its textual settings.

use vstd::prelude::*;
use vstd::string::*;
use vstd::utf8::encode_utf8;

use time::format_description::well_known::Rfc3339;
use time::OffsetDateTime;

use crate::beakid::error::BeakIdError;
use crate::beakid::layout::MAX_WORKER_ID;
use crate::date_time::DateTime;
use crate::duration::fits_i64;
use crate::parse::{all_digits, digits_value};

verus! {

/// Runtime configuration for a `Generator`.
#[derive(Debug, Clone, Copy, PartialEq, Eq, Structural)]
pub struct Config {
    epoch_100ms_units: u64,
    worker_id: u16,
}

/// The value of one environment variable, as the process environment gives it.
#[derive(Debug, Clone, PartialEq, Eq)]
pub enum EnvVar {
    /// The variable is not set.
    Missing,
    /// The variable is set to something that is not valid Unicode.
    NotUnicode,
    /// The variable is set to this text.
    Present(String),
}

impl Config {
    /// The epoch lies within the `i64` millisecond range.
    #[verifier::type_invariant]
    closed spec fn well_formed(self) -> bool {
        self.epoch_100ms_units <= 92_233_720_368_547_758
    }

    /// Epoch expressed as Unix 100ms units, as a spec function.
    pub closed spec fn spec_epoch_100ms_units(&self) -> u64 {
        self.epoch_100ms_units
    }

    /// Worker id, as a spec function.
    pub closed spec fn spec_worker_id(&self) -> u16 {
        self.worker_id
    }

    /// The configuration of `Config::new` for an accepted epoch and worker id.
    pub closed spec fn spec_of(epoch_millis: int, worker_id: u16) -> Config {
        Config { epoch_100ms_units: (epoch_millis / 100) as u64, worker_id }
    }

    /// The fields of `spec_of`.
    pub broadcast proof fn lemma_spec_of(epoch_millis: int, worker_id: u16)
        requires
            0 <= epoch_millis <= i64::MAX,
        ensures
            #![trigger Config::spec_of(epoch_millis, worker_id)]
            Config::spec_of(epoch_millis, worker_id).spec_epoch_100ms_units() == epoch_millis / 100,
            Config::spec_of(epoch_millis, worker_id).spec_worker_id() == worker_id,
    {
    }

    /// Builds configuration from explicit values.
    ///
    /// `worker_id` must fit in 10 bits; the epoch must not lie before
    /// 1970-01-01 nor beyond the `i64` millisecond range.
    pub fn new(epoch: DateTime, worker_id: u16) -> (config: Result<Self, BeakIdError>)
        ensures
            new_outcome(epoch, worker_id, config),
    {
        let millis = epoch.unix_millis_exact();
        Self::checked(epoch, worker_id, millis * 1_000_000)
    }

    /// Builds configuration as `Config::new` does, where `nanos` is the
    /// exact instant of the epoch in nanoseconds, written into the text of
    /// an `InvalidEpoch` error.
    fn checked(epoch: DateTime, worker_id: u16, nanos: i128) -> (config: Result<Self, BeakIdError>)
        ensures
            outcome_at(epoch, worker_id, nanos, config),
    {
        if worker_id > MAX_WORKER_ID {
            return Err(BeakIdError::WorkerIdOutOfRange(worker_id));
        }
        let millis = epoch.unix_millis_exact();
        if millis < 0 || millis > 0x7fff_ffff_ffff_ffff {
            return Err(invalid_epoch(epoch, format_rfc3339(nanos)));
        }
        Ok(Self { epoch_100ms_units: (millis / 100) as u64, worker_id })
    }

    /// Epoch expressed as Unix 100ms units.
    #[verifier::when_used_as_spec(spec_epoch_100ms_units)]
    pub fn epoch_100ms_units(&self) -> (units: u64)
        ensures
            units == self.spec_epoch_100ms_units(),
            units * 100 <= i64::MAX,
    {
        proof {
            use_type_invariant(self);
        }
        self.epoch_100ms_units
    }

    /// Worker id encoded in the low 10 bits of generated IDs.
    #[verifier::when_used_as_spec(spec_worker_id)]
    pub fn worker_id(&self) -> (worker_id: u16)
        ensures
            worker_id == self.spec_worker_id(),
    {
        self.worker_id
    }

    /// Builds configuration from the values of `BEAKID_EPOCH` and
    /// `BEAKID_WORKER_ID`.
    ///
    /// `BEAKID_EPOCH` is required and must be an RFC 3339 UTC datetime such as
    /// `2025-01-01T00:00:00Z`; `BEAKID_WORKER_ID` defaults to `0`.
    pub fn from_vars(epoch: &EnvVar, worker_id: &EnvVar) -> (config: Result<Self, BeakIdError>)
        ensures
            match epoch {
                EnvVar::Present(text) => match spec_epoch(rfc3339_reading(text@)) {
                    None => config matches Err(BeakIdError::InvalidEpoch(t)) && t@ == text@,
                    Some(date_time) => match worker_id {
                        EnvVar::Present(w) => match spec_worker_id(encode_utf8(w@)) {
                            None => config matches Err(BeakIdError::InvalidWorkerId(t)) && t@ == w@,
                            Some(v) => if v > MAX_WORKER_ID {
                                config == Err::<Config, BeakIdError>(
                                    BeakIdError::WorkerIdOutOfRange(v as u16),
                                )
                            } else {
                                outcome_at(
                                    date_time,
                                    v as u16,
                                    reading_nanos(rfc3339_reading(text@)),
                                    config,
                                )
                            },
                        },
                        EnvVar::Missing => outcome_at(
                            date_time,
                            0,
                            reading_nanos(rfc3339_reading(text@)),
                            config,
                        ),
                        EnvVar::NotUnicode => config matches Err(BeakIdError::InvalidWorkerId(t))
                            && t@.len() == 0,
                    },
                },
                _ => config == Err::<Config, BeakIdError>(BeakIdError::MissingEpoch),
            },
    {
        let text = match epoch {
            EnvVar::Present(text) => text,
            _ => return Err(BeakIdError::MissingEpoch),
        };
        let reading = read_rfc3339(text.as_str());
        let epoch = epoch_of_reading(text.as_str(), reading)?;
        let nanos: i128 = match reading {
            Some((nanos, _)) => nanos,
            None => 0,
        };
        let worker_id = match worker_id {
            EnvVar::Present(text) => parse_worker_id(text.as_str())?,
            EnvVar::Missing => 0,
            EnvVar::NotUnicode => return Err(BeakIdError::InvalidWorkerId(String::new())),
        };
        Self::checked(epoch, worker_id, nanos)
    }
}

/// What `Config::new` returns: the worker id is checked first, then the epoch.
pub open spec fn new_outcome(epoch: DateTime, worker_id: u16, config: Result<Config, BeakIdError>) -> bool {
    outcome_at(epoch, worker_id, (epoch.unix_millis() * 1_000_000) as i128, config)
}

/// What building configuration from `epoch` and `worker_id` returns, where
/// `nanos` is the exact instant of the epoch in nanoseconds: the worker id
/// is checked first, then the epoch, whose `InvalidEpoch` error carries the
/// RFC 3339 text of `nanos`.
pub open spec fn outcome_at(
    epoch: DateTime,
    worker_id: u16,
    nanos: i128,
    config: Result<Config, BeakIdError>,
) -> bool {
    if worker_id > MAX_WORKER_ID {
        config == Err::<Config, BeakIdError>(BeakIdError::WorkerIdOutOfRange(worker_id))
    } else if 0 <= epoch.unix_millis() <= i64::MAX {
        config == Ok::<Config, BeakIdError>(Config::spec_of(epoch.unix_millis(), worker_id))
    } else {
        config matches Err(BeakIdError::InvalidEpoch(text)) && text@ == epoch_text_at(epoch, nanos)
    }
}

/// The nanoseconds of an RFC 3339 reading (zero when there is none).
pub open spec fn reading_nanos(reading: Option<(i128, bool)>) -> i128 {
    match reading {
        Some((nanos, _)) => nanos,
        None => 0,
    }
}

/// What `time::OffsetDateTime::from_unix_timestamp_nanos(nanos)` followed by
/// formatting with `Rfc3339` writes: `None` when the instant lies outside
/// the range of `time`, otherwise the RFC 3339 text, or the value's
/// `Display` text where RFC 3339 cannot express it.
pub uninterp spec fn rfc3339_text(nanos: i128) -> Option<Seq<char>>;

/// Calls `time::OffsetDateTime::from_unix_timestamp_nanos` and formats the
/// value with `Rfc3339`, falling back to its `Display` text when that
/// format fails. The result is named `rfc3339_text` of `nanos`.
#[verifier::external_body]
fn format_rfc3339(nanos: i128) -> (text: Option<String>)
    ensures
        match text {
            Some(t) => rfc3339_text(nanos) == Some(t@),
            None => rfc3339_text(nanos) == None::<Seq<char>>,
        },
{
    match OffsetDateTime::from_unix_timestamp_nanos(nanos) {
        Ok(epoch) => match epoch.format(&Rfc3339) {
            Ok(text) => Some(text),
            Err(_) => Some(epoch.to_string()),
        },
        Err(_) => None,
    }
}

/// The text that an `InvalidEpoch` error for `epoch`, at the exact instant
/// `nanos`, carries: the RFC 3339 text of `nanos`, or the epoch's own
/// `yyyy-MM-dd HH:mm:ss.SSS` text when `time` cannot hold the instant.
pub open spec fn epoch_text_at(epoch: DateTime, nanos: i128) -> Seq<char> {
    match rfc3339_text(nanos) {
        Some(text) => text,
        None => epoch.spec_text(),
    }
}

/// The `InvalidEpoch` error for `epoch`, given what RFC 3339 formatting
/// wrote for it (`None` when `time` cannot hold the instant).
pub fn invalid_epoch(epoch: DateTime, formatted: Option<String>) -> (error: BeakIdError)
    ensures
        error matches BeakIdError::InvalidEpoch(text) && text@ == (match formatted {
            Some(f) => f@,
            None => epoch.spec_text(),
        }),
{
    match formatted {
        Some(text) => BeakIdError::InvalidEpoch(text),
        None => BeakIdError::InvalidEpoch(epoch.to_string()),
    }
}

/// What `time::OffsetDateTime::parse(text, &Rfc3339)` reads from `text`:
/// `Some((nanos, utc))` with the instant in nanoseconds from the Unix epoch
/// and whether its offset is exactly UTC, or `None` when the text is rejected.
pub uninterp spec fn rfc3339_reading(text: Seq<char>) -> Option<(i128, bool)>;

/// Calls `time::OffsetDateTime::parse` with the `Rfc3339` format, and reads
/// the parsed value's `unix_timestamp_nanos` and `offset().is_utc()`. The
/// result is named `rfc3339_reading` of the text.
#[verifier::external_body]
fn read_rfc3339(text: &str) -> (reading: Option<(i128, bool)>)
    ensures
        reading == rfc3339_reading(text@),
{
    match OffsetDateTime::parse(text, &Rfc3339) {
        Ok(parsed) => Some((parsed.unix_timestamp_nanos(), parsed.offset().is_utc())),
        Err(_) => None,
    }
}

/// `nanos` in whole milliseconds, rounded toward zero.
pub open spec fn whole_millis_of(nanos: int) -> int {
    if nanos >= 0 {
        nanos / 1_000_000
    } else {
        -((-nanos) / 1_000_000)
    }
}

/// The epoch that an RFC 3339 reading names: a UTC instant, in whole
/// milliseconds rounded toward zero, that lies in the `i64` range.
pub open spec fn spec_epoch(reading: Option<(i128, bool)>) -> Option<DateTime> {
    match reading {
        Some((nanos, utc)) => if utc && fits_i64(whole_millis_of(nanos as int)) {
            Some(DateTime::spec_at(whole_millis_of(nanos as int)))
        } else {
            None
        },
        None => None,
    }
}

/// The digits of an unsigned integer text: the text without one leading `+`.
pub open spec fn unsigned_digits(s: Seq<u8>) -> Seq<u8> {
    if s.len() > 0 && s[0] == 43 {
        s.drop_first()
    } else {
        s
    }
}

/// The `u16` that the text with bytes `s` spells, as `str::parse::<u16>` reads it.
pub open spec fn spec_worker_id(s: Seq<u8>) -> Option<int> {
    let digits = unsigned_digits(s);
    if digits.len() > 0 && all_digits(digits) && digits_value(digits) <= 65535 {
        Some(digits_value(digits))
    } else {
        None
    }
}

/// The epoch that the text `value` names, given what RFC 3339 parsing read
/// from it: fails with `InvalidEpoch(value)` unless the reading is a UTC
/// instant whose whole milliseconds fit in an `i64`.
pub fn epoch_of_reading(value: &str, reading: Option<(i128, bool)>) -> (epoch: Result<
    DateTime,
    BeakIdError,
>)
    ensures
        match spec_epoch(reading) {
            Some(date_time) => epoch == Ok::<DateTime, BeakIdError>(date_time),
            None => epoch matches Err(BeakIdError::InvalidEpoch(text)) && text@ == value@,
        },
{
    if let Some((nanos, utc)) = reading {
        if utc && -9_223_372_036_854_775_808_999_999 <= nanos && nanos
            <= 9_223_372_036_854_775_807_999_999 {
            let millis: i64 = if nanos >= 0 {
                (nanos / 1_000_000) as i64
            } else {
                -((-nanos) / 1_000_000) as i64
            };
            let date_time = DateTime::from_unix_millis(millis);
            proof {
                use_type_invariant(&date_time);
                DateTime::lemma_spec_at(date_time, millis as int);
            }
            return Ok(date_time);
        }
    }
    Err(BeakIdError::InvalidEpoch(value.to_owned()))
}

/// Parses an RFC 3339 UTC epoch such as `2025-01-01T00:00:00Z`.
pub fn parse_epoch(value: &str) -> (epoch: Result<DateTime, BeakIdError>)
    ensures
        match spec_epoch(rfc3339_reading(value@)) {
            Some(date_time) => epoch == Ok::<DateTime, BeakIdError>(date_time),
            None => epoch matches Err(BeakIdError::InvalidEpoch(text)) && text@ == value@,
        },
{
    epoch_of_reading(value, read_rfc3339(value))
}

/// Digit strings spell non-negative numbers.
proof fn lemma_digits_nonnegative(s: Seq<u8>)
    requires
        all_digits(s),
    ensures
        digits_value(s) >= 0,
    decreases s.len(),
{
    if s.len() > 0 {
        assert(all_digits(s.drop_last())) by {
            assert forall|j: int| 0 <= j < s.drop_last().len() implies crate::parse::is_digit(
                #[trigger] s.drop_last()[j],
            ) by {
                assert(s.drop_last()[j] == s[j]);
            }
        }
        lemma_digits_nonnegative(s.drop_last());
        assert(crate::parse::is_digit(s[s.len() - 1]));
    }
}

/// Appending a digit never lowers the value of a digit string.
proof fn lemma_digits_grow(s: Seq<u8>, k: int)
    requires
        0 <= k <= s.len(),
        all_digits(s),
    ensures
        digits_value(s.subrange(0, k)) <= digits_value(s),
    decreases s.len() - k,
{
    if k < s.len() {
        let t = s.subrange(0, k + 1);
        assert(t.drop_last() =~= s.subrange(0, k));
        assert(crate::parse::is_digit(s[k]));
        lemma_digits_nonnegative(s.subrange(0, k));
        assert(digits_value(t) == 10 * digits_value(s.subrange(0, k)) + (s[k] - 48));
        lemma_digits_grow(s, k + 1);
        assert(s.subrange(0, s.len() as int) =~= s);
    } else {
        assert(s.subrange(0, k) =~= s);
    }
}

/// Parses a worker id: a `u16` that must fit in 10 bits.
pub fn parse_worker_id(value: &str) -> (worker_id: Result<u16, BeakIdError>)
    ensures
        match spec_worker_id(value.spec_bytes()) {
            Some(v) => if v > MAX_WORKER_ID {
                worker_id == Err::<u16, BeakIdError>(BeakIdError::WorkerIdOutOfRange(v as u16))
            } else {
                worker_id == Ok::<u16, BeakIdError>(v as u16)
            },
            None => worker_id matches Err(BeakIdError::InvalidWorkerId(text)) && text@ == value@,
        },
{
    let bytes = value.as_bytes();
    let ghost s = bytes@;
    let start: usize = if bytes.len() > 0 && bytes[0] == 43 {
        1
    } else {
        0
    };
    let ghost digits = unsigned_digits(s);
    assert(digits =~= s.subrange(start as int, s.len() as int));
    if start == bytes.len() {
        return Err(BeakIdError::InvalidWorkerId(value.to_owned()));
    }
    let mut value_so_far: u32 = 0;
    let mut i: usize = start;
    while i < bytes.len()
        invariant
            start <= i <= bytes@.len() == s.len(),
            s == bytes@,
            s == value.spec_bytes(),
            digits == unsigned_digits(s),
            digits == s.subrange(start as int, s.len() as int),
            all_digits(s.subrange(start as int, i as int)),
            value_so_far == digits_value(s.subrange(start as int, i as int)),
            value_so_far <= 65535,
        decreases bytes@.len() - i,
    {
        let b = bytes[i];
        assert(s[i as int] == b);
        assert(digits[i - start] == b);
        if b < 48 || b > 57 {
            return Err(BeakIdError::InvalidWorkerId(value.to_owned()));
        }
        let ghost prefix = s.subrange(start as int, i + 1);
        assert(prefix.drop_last() =~= s.subrange(start as int, i as int));
        assert(all_digits(prefix)) by {
            assert forall|j: int| 0 <= j < prefix.len() implies crate::parse::is_digit(
                #[trigger] prefix[j],
            ) by {
                if j < prefix.len() - 1 {
                    assert(prefix[j] == s.subrange(start as int, i as int)[j]);
                }
            }
        }
        let next: u32 = value_so_far * 10 + (b - 48) as u32;
        if next > 65535 {
            proof {
                assert(prefix =~= digits.subrange(0, i + 1 - start));
                if all_digits(digits) {
                    lemma_digits_grow(digits, i + 1 - start);
                }
            }
            return Err(BeakIdError::InvalidWorkerId(value.to_owned()));
        }
        value_so_far = next;
        i = i + 1;
    }
    let parsed: u16 = value_so_far as u16;
    if parsed > MAX_WORKER_ID {
        return Err(BeakIdError::WorkerIdOutOfRange(parsed));
    }
    Ok(parsed)
}

} // verus!
