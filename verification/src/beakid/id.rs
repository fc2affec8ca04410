//! The identifier value type.

use vstd::prelude::*;

use crate::beakid::layout::{decompose_id, spec_decompose};
use crate::text::{push_padded, signed_decimal};

verus! {

/// A unique 64-bit identifier produced by a `Generator`.
///
/// Generated values are non-negative and can be stored in PostgreSQL `BIGINT`.
#[derive(Debug, Clone, Copy, PartialEq, Eq, Structural, Hash, PartialOrd, Ord)]
pub struct BeakId(i64);

impl View for BeakId {
    type V = i64;

    /// The raw identifier.
    closed spec fn view(&self) -> i64 {
        self.0
    }
}

/// The identifier with raw value `value`.
pub closed spec fn beak_id_of(value: i64) -> BeakId {
    BeakId(value)
}

/// `beak_id_of` keeps the raw value.
pub broadcast proof fn lemma_beak_id_of(value: i64)
    ensures
        (#[trigger] beak_id_of(value))@ == value,
{
}

impl BeakId {
    /// Wraps a raw `i64` value as `BeakId`, for example one read back from
    /// storage; the value is not checked.
    pub fn new(value: i64) -> (id: Self)
        ensures
            id@ == value,
            id == beak_id_of(value),
    {
        Self(value)
    }

    /// Returns the raw `i64` value for PostgreSQL `BIGINT` storage.
    pub fn as_i64(self) -> (value: i64)
        ensures
            value == self@,
    {
        self.0
    }

    /// Returns the 100ms timestamp window encoded in the ID.
    pub fn timestamp_window(self) -> (window: u64)
        ensures
            window == spec_decompose(self@).0,
    {
        decompose_id(self.0).0
    }

    /// Returns the sequence value encoded in the ID.
    pub fn sequence(self) -> (sequence: u64)
        ensures
            sequence == spec_decompose(self@).1,
    {
        decompose_id(self.0).1
    }

    /// Returns the worker id encoded in the ID.
    pub fn worker_id(self) -> (worker_id: u16)
        ensures
            worker_id == spec_decompose(self@).2,
    {
        decompose_id(self.0).2
    }

    /// Decodes the ID into `(timestamp_window, sequence, worker_id)`.
    pub fn parts(self) -> (parts: (u64, u64, u16))
        ensures
            parts == spec_decompose(self@),
    {
        decompose_id(self.0)
    }

    /// Formats the raw value in decimal.
    pub fn to_string(self) -> (text: String)
        ensures
            text@ == signed_decimal(self@ as int),
    {
        let mut text = String::new();
        push_padded(&mut text, self.0, 0);
        proof {
            assert(text@ =~= signed_decimal(self@ as int));
        }
        text
    }
}

impl From<i64> for BeakId {
    /// Wraps a raw value.
    fn from(value: i64) -> (id: Self) {
        Self::new(value)
    }
}

impl vstd::std_specs::convert::FromSpecImpl<i64> for BeakId {
    open spec fn obeys_from_spec() -> bool {
        true
    }

    open spec fn from_spec(value: i64) -> Self {
        beak_id_of(value)
    }
}

impl From<BeakId> for i64 {
    /// The raw value.
    fn from(id: BeakId) -> (value: i64) {
        id.as_i64()
    }
}

impl vstd::std_specs::convert::FromSpecImpl<BeakId> for i64 {
    open spec fn obeys_from_spec() -> bool {
        true
    }

    open spec fn from_spec(id: BeakId) -> i64 {
        id@
    }
}

} // verus!
