//! Errors of identifier configuration and generation.

use vstd::prelude::*;

use crate::text::{decimal, push_decimal, push_str};

verus! {

/// Errors returned by configuration and generation.
#[derive(Debug, Clone, PartialEq, Eq)]
pub enum BeakIdError {
    /// `BEAKID_EPOCH` was not present.
    MissingEpoch,
    /// `BEAKID_EPOCH` was not a valid RFC 3339 UTC timestamp.
    InvalidEpoch(String),
    /// `BEAKID_WORKER_ID` was not a valid unsigned integer.
    InvalidWorkerId(String),
    /// `BEAKID_WORKER_ID` exceeded the 10-bit worker-id range.
    WorkerIdOutOfRange(u16),
    /// The system clock is before the configured epoch.
    ClockBeforeEpoch,
    /// The timestamp exceeded the 35-bit timestamp range.
    TimestampOverflow(u64),
    /// The standard background thread could not be spawned.
    BackgroundSpawnFailed(String),
    /// Virtual time ran too far ahead of real time; retry later.
    Blocked,
}

/// What `format!("{:?}", value)` renders for the text `value`: the text in
/// double quotes, with quotes, backslashes and control characters escaped.
pub uninterp spec fn debug_quoted(value: Seq<char>) -> Seq<char>;

/// Calls `<str as Debug>::fmt` through `format!("{:?}", value)`; the result
/// is named `debug_quoted` of the text.
#[verifier::external_body]
fn quote(value: &str) -> (quoted: String)
    ensures
        quoted@ == debug_quoted(value@),
{
    format!("{:?}", value)
}

/// The message of `error`, where `quoted` is the quoted form of the text that
/// an `InvalidEpoch` or `InvalidWorkerId` error carries.
pub open spec fn error_text(error: BeakIdError, quoted: Seq<char>) -> Seq<char> {
    match error {
        BeakIdError::MissingEpoch => "BEAKID_EPOCH is required"@,
        BeakIdError::InvalidEpoch(_) => "BEAKID_EPOCH must be an RFC 3339 UTC datetime, got "@
            + quoted,
        BeakIdError::InvalidWorkerId(_) =>
            "BEAKID_WORKER_ID must be an unsigned 16-bit integer, got "@ + quoted,
        BeakIdError::WorkerIdOutOfRange(value) => "BEAKID_WORKER_ID must fit in 10 bits, got "@
            + decimal(value as nat),
        BeakIdError::ClockBeforeEpoch => "system clock is before BEAKID_EPOCH"@,
        BeakIdError::TimestampOverflow(value) => "timestamp window "@ + decimal(value as nat)
            + " exceeds the 35-bit range"@,
        BeakIdError::BackgroundSpawnFailed(value) =>
            "failed to spawn BeakId background thread: "@ + value@,
        BeakIdError::Blocked => "BeakId generation is blocked until real time catches up"@,
    }
}

/// Writes the message of `error`, given the quoted form `quoted` of the text
/// that an `InvalidEpoch` or `InvalidWorkerId` error carries.
pub fn describe(error: &BeakIdError, quoted: &str) -> (text: String)
    ensures
        text@ == error_text(*error, quoted@),
{
    let mut text = String::new();
    match error {
        BeakIdError::MissingEpoch => push_str(&mut text, "BEAKID_EPOCH is required"),
        BeakIdError::InvalidEpoch(_) => {
            push_str(&mut text, "BEAKID_EPOCH must be an RFC 3339 UTC datetime, got ");
            push_str(&mut text, quoted);
        },
        BeakIdError::InvalidWorkerId(_) => {
            push_str(&mut text, "BEAKID_WORKER_ID must be an unsigned 16-bit integer, got ");
            push_str(&mut text, quoted);
        },
        BeakIdError::WorkerIdOutOfRange(value) => {
            push_str(&mut text, "BEAKID_WORKER_ID must fit in 10 bits, got ");
            push_decimal(&mut text, *value as u64);
        },
        BeakIdError::ClockBeforeEpoch => push_str(
            &mut text,
            "system clock is before BEAKID_EPOCH",
        ),
        BeakIdError::TimestampOverflow(value) => {
            push_str(&mut text, "timestamp window ");
            push_decimal(&mut text, *value);
            push_str(&mut text, " exceeds the 35-bit range");
        },
        BeakIdError::BackgroundSpawnFailed(value) => {
            push_str(&mut text, "failed to spawn BeakId background thread: ");
            push_str(&mut text, value.as_str());
        },
        BeakIdError::Blocked => push_str(
            &mut text,
            "BeakId generation is blocked until real time catches up",
        ),
    }
    proof {
        assert(text@ =~= error_text(*error, quoted@));
    }
    text
}

impl BeakIdError {
    /// The human-readable message of this error, as a spec function.
    pub open spec fn spec_message(&self) -> Seq<char> {
        match self {
            BeakIdError::InvalidEpoch(value) => error_text(*self, debug_quoted(value@)),
            BeakIdError::InvalidWorkerId(value) => error_text(*self, debug_quoted(value@)),
            _ => error_text(*self, Seq::empty()),
        }
    }

    /// The human-readable message of this error, for example
    /// `BEAKID_WORKER_ID must fit in 10 bits, got 2048`.
    pub fn to_string(&self) -> (text: String)
        ensures
            text@ == self.spec_message(),
    {
        match self {
            BeakIdError::InvalidEpoch(value) => describe(self, quote(value.as_str()).as_str()),
            BeakIdError::InvalidWorkerId(value) => describe(self, quote(value.as_str()).as_str()),
            _ => describe(self, ""),
        }
    }
}

} // verus!
