//! The 64-bit identifier layout
//! `[ reserved: 1 | timestamp: 35 | sequence: 18 | worker: 10 ]`
//! and the arithmetic on raw identifiers.

use vstd::prelude::*;

verus! {

/// Number of bits used by the timestamp component.
pub const TIMESTAMP_BITS: u32 = 35;

/// Number of bits used by the per-window sequence component.
pub const SEQUENCE_BITS: u32 = 18;

/// Number of bits used by the worker component.
pub const WORKER_BITS: u32 = 10;

/// Largest encodable timestamp window.
pub const MAX_TIMESTAMP: u64 = 0x7_ffff_ffff;

/// Largest encodable sequence value.
pub const MAX_SEQUENCE: u64 = 0x3_ffff;

/// Largest encodable worker id.
pub const MAX_WORKER_ID: u16 = 1023;

/// Maximum virtual lead over the real time window.
pub const MAX_VIRTUAL_WINDOWS: u64 = 10;

/// Step between consecutive raw identifiers of one worker: one sequence unit.
pub const SEQUENCE_INCREMENT: i64 = 1024;

/// The raw identifier that packs the low 36 bits of `timestamp`, the low 18
/// bits of `sequence` and the low 10 bits of `worker_id`, read as an `i64`.
pub open spec fn spec_raw_id(timestamp: u64, sequence: u64, worker_id: u16) -> i64 {
    ((timestamp % 0x10_0000_0000) * 0x1000_0000 + (sequence % 0x4_0000) * 0x400 + (worker_id as int
        % 0x400)) as i64
}

/// The timestamp window, sequence and worker id that identifier `id` holds.
pub open spec fn spec_decompose(id: i64) -> (u64, u64, u16) {
    let raw = (id as u64) as int;
    ((raw / 0x1000_0000 % 0x8_0000_0000) as u64, (raw / 0x400 % 0x4_0000) as u64, (raw
        % 0x400) as u16)
}

proof fn lemma_pack(t: u64, s: u64, w: u64, r: u64, tt: u64, ss: u64, ww: u64)
    by (bit_vector)
    requires
        r == (t << 28u64) | ((s & 0x3ffffu64) << 10u64) | (w & 0x3ffu64),
        tt == t % 0x10_0000_0000,
        ss == s % 0x4_0000,
        ww == w % 0x400,
    ensures
        r == tt * 0x1000_0000 + ss * 0x400 + ww,
{
}

proof fn lemma_unpack(raw: u64, t: u64, s: u64, w: u64, a: u64, b: u64)
    by (bit_vector)
    requires
        t == (raw >> 28u64) & 0x7_ffff_ffffu64,
        s == (raw >> 10u64) & 0x3ffffu64,
        w == raw & 0x3ffu64,
        a == raw / 0x1000_0000,
        b == raw / 0x400,
    ensures
        t == a % 0x8_0000_0000,
        s == b % 0x4_0000,
        w == raw % 0x400,
{
}

/// Packs the parts of an identifier; see `spec_raw_id`.
pub fn raw_id(timestamp: u64, sequence: u64, worker_id: u16) -> (id: i64)
    ensures
        id == spec_raw_id(timestamp, sequence, worker_id),
{
    let w: u64 = worker_id as u64;
    let raw: u64 = (timestamp << 28u64) | ((sequence & 0x3ffffu64) << 10u64) | (w & 0x3ffu64);
    proof {
        lemma_pack(
            timestamp,
            sequence,
            w,
            raw,
            timestamp % 0x10_0000_0000,
            sequence % 0x4_0000,
            w % 0x400,
        );
    }
    raw as i64
}

/// Constructs the final 64-bit ID from already validated parts.
pub fn construct_id(timestamp: u64, sequence: u64, worker_id: u16) -> (id: i64)
    ensures
        id == spec_raw_id(timestamp, sequence, worker_id),
{
    raw_id(timestamp, sequence, worker_id)
}

/// Decodes an ID into `(timestamp, sequence, worker_id)`.
pub fn decompose_id(id: i64) -> (parts: (u64, u64, u16))
    ensures
        parts == spec_decompose(id),
{
    let raw: u64 = id as u64;
    let t: u64 = (raw >> 28u64) & 0x7_ffff_ffffu64;
    let s: u64 = (raw >> 10u64) & 0x3ffffu64;
    let w: u64 = raw & 0x3ffu64;
    proof {
        lemma_unpack(raw, t, s, w, raw / 0x1000_0000, raw / 0x400);
    }
    (t, s, w as u16)
}

/// The timestamp window of identifier `id`.
pub fn timestamp_window(id: i64) -> (window: u64)
    ensures
        window == spec_decompose(id).0,
{
    decompose_id(id).0
}

/// The raw identifier of sequence 0 of worker 0 in window `window`.
pub fn timestamp_part(window: u64) -> (id: i64)
    requires
        window <= MAX_TIMESTAMP,
    ensures
        id == window * 0x1000_0000,
{
    raw_id(window, 0, 0)
}

/// The worker id of identifier `id`.
pub fn worker_of(id: i64) -> (worker_id: u16)
    ensures
        worker_id == spec_decompose(id).2,
{
    decompose_id(id).2
}


/// Whether allocating the identifier after `id` moves into the next timestamp
/// window, which happens exactly when `id` holds the last sequence value.
pub fn crosses_window(id: i64) -> (crosses: bool)
    ensures
        crosses == (spec_decompose(id).1 == MAX_SEQUENCE),
{
    let raw: u64 = id as u64;
    let next: u64 = raw.wrapping_add(1024);
    let crosses = (raw & 0xffff_ffff_f000_0000u64) != (next & 0xffff_ffff_f000_0000u64);
    proof {
        lemma_crosses(raw, next, crosses, (raw >> 10u64) & 0x3ffffu64);
        lemma_unpack(
            raw,
            (raw >> 28u64) & 0x7_ffff_ffffu64,
            (raw >> 10u64) & 0x3ffffu64,
            raw & 0x3ffu64,
            raw / 0x1000_0000,
            raw / 0x400,
        );
    }
    crosses
}

proof fn lemma_crosses(raw: u64, next: u64, crosses: bool, s: u64)
    by (bit_vector)
    requires
        raw + 1024 <= 0xffff_ffff_ffff_ffff ==> next == raw + 1024,
        raw + 1024 > 0xffff_ffff_ffff_ffff ==> next == raw + 1024 - 0x1_0000_0000_0000_0000,
        crosses == ((raw & 0xffff_ffff_f000_0000u64) != (next & 0xffff_ffff_f000_0000u64)),
        s == (raw >> 10u64) & 0x3ffffu64,
    ensures
        crosses == (s == 0x3ffff),
{
}

proof fn lemma_shift_is_div(x: u64)
    by (bit_vector)
    ensures
        x >> 28u64 == x / 0x1000_0000,
{
}

/// A blocked generator whose next identifier is `id` may resume in real
/// window `real_window`: its virtual time leads real time by fewer than 8
/// windows.
pub open spec fn spec_may_resume(id: i64, real_window: u64) -> bool {
    id <= real_window * 0x1000_0000 || (id - real_window * 0x1000_0000) / 0x1000_0000 < 8
}

/// Whether a blocked generator whose next identifier is `id` may resume in
/// real window `real_window`; see `spec_may_resume`.
pub fn may_resume(id: i64, real_window: u64) -> (resume: bool)
    requires
        real_window <= MAX_TIMESTAMP,
    ensures
        resume == spec_may_resume(id, real_window),
{
    let timestamp = timestamp_part(real_window);
    if id > timestamp {
        let lead: u64 = (id - timestamp) as u64;
        proof {
            lemma_shift_is_div(lead);
        }
        (lead >> 28u64) < 8
    } else {
        true
    }
}

/// What reconciling the next identifier with a real time window does.
#[derive(Debug, Clone, Copy, PartialEq, Eq, Structural)]
pub enum Reconcile {
    /// Virtual time leads real time by the maximum: block generation.
    Block,
    /// Virtual time leads real time by less than the maximum: keep going.
    Keep,
    /// Real time caught up: restart at sequence 0 of the real window with this identifier.
    Reset(i64),
}

/// How the next identifier `id` is reconciled with `real_window`: block at a
/// lead of `MAX_VIRTUAL_WINDOWS` windows or more, keep going at a smaller
/// lead, and restart at sequence 0 of the real window, keeping the worker
/// id, when real time has caught up.
pub open spec fn spec_reconcile(id: i64, real_window: u64) -> Reconcile {
    if id > real_window * 0x1000_0000 {
        if (id - real_window * 0x1000_0000) / 0x1000_0000 >= MAX_VIRTUAL_WINDOWS {
            Reconcile::Block
        } else {
            Reconcile::Keep
        }
    } else {
        Reconcile::Reset((real_window * 0x1000_0000 + spec_decompose(id).2) as i64)
    }
}

/// Decides how the next identifier `id` is reconciled with `real_window`.
pub fn reconcile_step(id: i64, real_window: u64) -> (step: Reconcile)
    requires
        real_window <= MAX_TIMESTAMP,
    ensures
        step == spec_reconcile(id, real_window),
        id > real_window * 0x1000_0000 ==> step == (if (id - real_window * 0x1000_0000) / 0x1000_0000
            >= MAX_VIRTUAL_WINDOWS {
            Reconcile::Block
        } else {
            Reconcile::Keep
        }),
        id <= real_window * 0x1000_0000 ==> step == Reconcile::Reset(
            (real_window * 0x1000_0000 + spec_decompose(id).2) as i64,
        ),
{
    let timestamp = timestamp_part(real_window);
    if id > timestamp {
        let lead: u64 = (id - timestamp) as u64;
        proof {
            lemma_shift_is_div(lead);
        }
        if (lead >> 28u64) >= MAX_VIRTUAL_WINDOWS {
            Reconcile::Block
        } else {
            Reconcile::Keep
        }
    } else {
        let worker = worker_of(id);
        Reconcile::Reset(raw_id(real_window, 0, worker))
    }
}


/// The parts of a non-negative identifier below `2^63`, as numbers.
proof fn lemma_split(raw: int)
    requires
        0 <= raw < 0x8000_0000_0000_0000,
    ensures
        raw == (raw / 0x1000_0000) * 0x1000_0000 + (raw / 0x400 % 0x4_0000) * 0x400 + raw % 0x400,
        raw / 0x1000_0000 < 0x8_0000_0000,
        raw / 0x1000_0000 % 0x8_0000_0000 == raw / 0x1000_0000,
{
    vstd::arithmetic::div_mod::lemma_fundamental_div_mod(raw, 0x400);
    vstd::arithmetic::div_mod::lemma_fundamental_div_mod(raw / 0x400, 0x4_0000);
    vstd::arithmetic::div_mod::lemma_div_denominator(raw, 0x400, 0x4_0000);
    vstd::arithmetic::div_mod::lemma_fundamental_div_mod(raw, 0x1000_0000);
    vstd::arithmetic::div_mod::lemma_small_mod(
        (raw / 0x1000_0000) as nat,
        0x8_0000_0000,
    );
}

/// Packing valid parts and reading them back.
proof fn lemma_join(t: int, s: int, w: int)
    requires
        0 <= t <= MAX_TIMESTAMP,
        0 <= s <= MAX_SEQUENCE,
        0 <= w <= MAX_WORKER_ID,
    ensures
        0 <= t * 0x1000_0000 + s * 0x400 + w < 0x8000_0000_0000_0000,
        spec_decompose((t * 0x1000_0000 + s * 0x400 + w) as i64) == (t as u64, s as u64, w as u16),
{
    let raw = t * 0x1000_0000 + s * 0x400 + w;
    assert(0 <= raw < 0x8000_0000_0000_0000) by (nonlinear_arith)
        requires
            0 <= t <= MAX_TIMESTAMP,
            0 <= s <= MAX_SEQUENCE,
            0 <= w <= MAX_WORKER_ID,
            raw == t * 0x1000_0000 + s * 0x400 + w,
    ;
    assert(((raw as i64) as u64) as int == raw);
    vstd::arithmetic::div_mod::lemma_fundamental_div_mod_converse(raw, 0x400, t * 0x4_0000 + s, w);
    vstd::arithmetic::div_mod::lemma_fundamental_div_mod_converse(
        t * 0x4_0000 + s,
        0x4_0000,
        t,
        s,
    );
    vstd::arithmetic::div_mod::lemma_fundamental_div_mod_converse(
        raw,
        0x1000_0000,
        t,
        s * 0x400 + w,
    );
    vstd::arithmetic::div_mod::lemma_small_mod(t as nat, 0x8_0000_0000);
}

/// Constructing an identifier from valid parts and decomposing it gives the
/// parts back, and the identifier is non-negative (its highest bit is zero).
pub proof fn law_construct_decompose(timestamp: u64, sequence: u64, worker_id: u16)
    requires
        timestamp <= MAX_TIMESTAMP,
        sequence <= MAX_SEQUENCE,
        worker_id <= MAX_WORKER_ID,
    ensures
        spec_raw_id(timestamp, sequence, worker_id) >= 0,
        spec_decompose(spec_raw_id(timestamp, sequence, worker_id)) == (
            timestamp,
            sequence,
            worker_id,
        ),
{
    vstd::arithmetic::div_mod::lemma_small_mod(timestamp as nat, 0x10_0000_0000);
    vstd::arithmetic::div_mod::lemma_small_mod(sequence as nat, 0x4_0000);
    vstd::arithmetic::div_mod::lemma_small_mod(worker_id as nat, 0x400);
    lemma_join(timestamp as int, sequence as int, worker_id as int);
}

/// Identifiers of one worker grow with their window, and within a window
/// with their sequence, so they sort by creation time.
pub proof fn law_ids_ordered(t1: u64, s1: u64, t2: u64, s2: u64, worker_id: u16)
    requires
        t1 <= MAX_TIMESTAMP,
        t2 <= MAX_TIMESTAMP,
        s1 <= MAX_SEQUENCE,
        s2 <= MAX_SEQUENCE,
        worker_id <= MAX_WORKER_ID,
        t1 < t2 || (t1 == t2 && s1 < s2),
    ensures
        spec_raw_id(t1, s1, worker_id) < spec_raw_id(t2, s2, worker_id),
{
    law_construct_decompose(t1, s1, worker_id);
    law_construct_decompose(t2, s2, worker_id);
    lemma_join(t1 as int, s1 as int, worker_id as int);
    lemma_join(t2 as int, s2 as int, worker_id as int);
    vstd::arithmetic::div_mod::lemma_small_mod(t1 as nat, 0x10_0000_0000);
    vstd::arithmetic::div_mod::lemma_small_mod(s1 as nat, 0x4_0000);
    vstd::arithmetic::div_mod::lemma_small_mod(t2 as nat, 0x10_0000_0000);
    vstd::arithmetic::div_mod::lemma_small_mod(s2 as nat, 0x4_0000);
    vstd::arithmetic::div_mod::lemma_small_mod(worker_id as nat, 0x400);
    assert(t1 * 0x1000_0000 + s1 * 0x400 < t2 * 0x1000_0000 + s2 * 0x400) by (nonlinear_arith)
        requires
            s1 <= MAX_SEQUENCE,
            s2 <= MAX_SEQUENCE,
            t1 < t2 || (t1 == t2 && s1 < s2),
    ;
}

/// The identifier allocated after `id` (one sequence step later) keeps the
/// worker id and takes the next sequence value, or sequence 0 of the next
/// window after the last sequence value of a window.
pub proof fn law_next_id(id: i64)
    requires
        0 <= id,
        spec_decompose(id).0 < MAX_TIMESTAMP,
    ensures
        id + SEQUENCE_INCREMENT <= i64::MAX,
        spec_decompose((id + SEQUENCE_INCREMENT) as i64) == (if spec_decompose(id).1 < MAX_SEQUENCE {
            (spec_decompose(id).0, (spec_decompose(id).1 + 1) as u64, spec_decompose(id).2)
        } else {
            ((spec_decompose(id).0 + 1) as u64, 0u64, spec_decompose(id).2)
        }),
{
    let raw = id as int;
    assert((id as u64) as int == raw);
    lemma_split(raw);
    let t = raw / 0x1000_0000;
    let s = raw / 0x400 % 0x4_0000;
    let w = raw % 0x400;
    if s < MAX_SEQUENCE {
        lemma_join(t, s + 1, w);
    } else {
        lemma_join(t + 1, 0, w);
    }
}


/// The identifier that reconciling resets to is sequence 0 of the real
/// window, with the worker id kept.
pub proof fn law_reset_restarts_window(id: i64, real_window: u64)
    requires
        real_window <= MAX_TIMESTAMP,
    ensures
        spec_decompose((real_window * 0x1000_0000 + spec_decompose(id).2) as i64) == (
            real_window,
            0u64,
            spec_decompose(id).2,
        ),
{
    lemma_join(real_window as int, 0, spec_decompose(id).2 as int);
}

} // verus!
