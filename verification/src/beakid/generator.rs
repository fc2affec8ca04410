//! Lock-free identifier generation.

use vstd::prelude::*;

use std::sync::atomic::{AtomicI64, AtomicU64, Ordering};
use std::time::SystemTime;

use crate::beakid::config::Config;
use crate::beakid::error::BeakIdError;
use crate::beakid::layout::{
    crosses_window, may_resume, raw_id, reconcile_step, spec_decompose, spec_may_resume,
    spec_reconcile, timestamp_window, worker_of, Reconcile, SEQUENCE_INCREMENT,
};
use crate::clock::{elapsed_between, spin_hint, system_now, unix_epoch, unix_epoch_plus_millis, whole_millis};
use crate::timestamp::{timestamp_of, Timestamp};

pub use crate::beakid::layout::{
    construct_id, decompose_id, MAX_SEQUENCE, MAX_TIMESTAMP, MAX_VIRTUAL_WINDOWS, MAX_WORKER_ID,
    SEQUENCE_BITS, TIMESTAMP_BITS, WORKER_BITS,
};

verus! {

/// State bit: generation is blocked until real time catches up.
pub const STATE_BLOCKED: u64 = 1;

/// State bit: a thread is reconciling the next identifier with real time.
pub const STATE_UPDATING: u64 = 2;

/// How many times `next_id` re-reads a state held by an update in progress
/// before it reports `Blocked`.
pub const MAX_SPINS: u32 = 1_048_576;

/// How many times a compare-and-swap is retried before the attempt is given up.
pub const MAX_CAS_ATTEMPTS: u32 = 65_536;

/// A lock-free identifier generator.
///
/// The next raw ID lives in one `AtomicI64`. Allocation advances it by
/// `1 << WORKER_BITS`, incrementing the sequence while keeping the worker-id
/// bits. A small state atomic tracks update and blocked states. The worker
/// id and the epoch's offset from the Unix epoch never change and are kept
/// as plain values beside them.
#[derive(Debug)]
pub struct Generator {
    id: AtomicI64,
    state: AtomicU64,
    epoch: SystemTime,
    worker_id: u16,
    epoch_millis: Option<u128>,
}

/// The window that `elapsed_millis` milliseconds of elapsed time fall in.
pub fn window_of_elapsed(elapsed_millis: u128) -> (window: Result<u64, BeakIdError>)
    ensures
        elapsed_millis / 100 <= u64::MAX ==> window == Ok::<u64, BeakIdError>(
            (elapsed_millis / 100) as u64,
        ),
        elapsed_millis / 100 > u64::MAX ==> window == Err::<u64, BeakIdError>(
            BeakIdError::TimestampOverflow(u64::MAX),
        ),
{
    let window = elapsed_millis / 100;
    if window > 0xffff_ffff_ffff_ffff {
        Err(BeakIdError::TimestampOverflow(u64::MAX))
    } else {
        Ok(window as u64)
    }
}

/// Checks that `window` fits the 35-bit timestamp component.
pub fn validate_window(window: u64) -> (checked: Result<(), BeakIdError>)
    ensures
        window <= MAX_TIMESTAMP ==> checked == Ok::<(), BeakIdError>(()),
        window > MAX_TIMESTAMP ==> checked == Err::<(), BeakIdError>(
            BeakIdError::TimestampOverflow(window),
        ),
{
    if window > MAX_TIMESTAMP {
        Err(BeakIdError::TimestampOverflow(window))
    } else {
        Ok(())
    }
}

/// The current real time window counted from `epoch`.
pub fn current_window(epoch: SystemTime) -> (window: Result<u64, BeakIdError>)
    ensures
        window matches Err(e) ==> (e == BeakIdError::ClockBeforeEpoch || e
            == BeakIdError::TimestampOverflow(u64::MAX)),
{
    match elapsed_between(system_now(), epoch) {
        Ok(elapsed) => window_of_elapsed(whole_millis(elapsed)),
        Err(_) => Err(BeakIdError::ClockBeforeEpoch),
    }
}

/// The instant that identifier window `window` starts at, for an epoch
/// `epoch_millis` milliseconds after the Unix epoch (`None` when the epoch
/// lies before it): `TimestampOverflow(window)` when the window's offset
/// or the instant leaves the `u64` or `i64` millisecond range.
pub open spec fn spec_timestamp_at(window: u64, epoch_millis: Option<u128>) -> Result<
    Timestamp,
    BeakIdError,
> {
    if window * 100 > u64::MAX {
        Err(BeakIdError::TimestampOverflow(window))
    } else {
        match epoch_millis {
            None => Err(BeakIdError::ClockBeforeEpoch),
            Some(e) => if e + window * 100 <= i64::MAX {
                Ok(timestamp_of(e + window * 100))
            } else {
                Err(BeakIdError::TimestampOverflow(window))
            },
        }
    }
}

/// The instant that identifier window `window` starts at; see
/// `spec_timestamp_at`.
pub fn timestamp_at(window: u64, epoch_millis: Option<u128>) -> (timestamp: Result<
    Timestamp,
    BeakIdError,
>)
    ensures
        timestamp == spec_timestamp_at(window, epoch_millis),
{
    let offset = match window.checked_mul(100) {
        Some(offset) => offset,
        None => return Err(BeakIdError::TimestampOverflow(window)),
    };
    let epoch_millis = match epoch_millis {
        Some(millis) => millis,
        None => return Err(BeakIdError::ClockBeforeEpoch),
    };
    let millis = match epoch_millis.checked_add(offset as u128) {
        Some(millis) => millis,
        None => return Err(BeakIdError::TimestampOverflow(window)),
    };
    if millis > 0x7fff_ffff_ffff_ffff {
        return Err(BeakIdError::TimestampOverflow(window));
    }
    Ok(Timestamp::from_millis(millis as i64))
}

/// The 100ms units of a configuration, in milliseconds.
fn epoch_millis_of(config: &Config) -> (millis: u64)
    ensures
        millis == config.spec_epoch_100ms_units() * 100,
{
    let units = config.epoch_100ms_units();
    if units > 0xffff_ffff_ffff_ffff / 100 {
        0xffff_ffff_ffff_ffff
    } else {
        units * 100
    }
}

/// Whether a generator whose state word reads `state` may hand out an
/// identifier: it may not while an update is in progress or generation is
/// blocked.
pub fn allocation_gate(state: u64) -> (gate: Result<(), BeakIdError>)
    ensures
        gate == (if state & (STATE_UPDATING | STATE_BLOCKED) != 0 {
            Err::<(), BeakIdError>(BeakIdError::Blocked)
        } else {
            Ok::<(), BeakIdError>(())
        }),
{
    if state & (STATE_UPDATING | STATE_BLOCKED) != 0 {
        Err(BeakIdError::Blocked)
    } else {
        Ok(())
    }
}

/// What handing out identifier `id` returns, given the result of the
/// refresh that a step across a window boundary makes (`None` when the step
/// stays inside the window): `id`, unless that refresh failed.
pub fn allocation(id: i64, refresh: Option<Result<u64, BeakIdError>>) -> (result: Result<
    i64,
    BeakIdError,
>)
    ensures
        result == (match refresh {
            Some(Err(e)) => Err::<i64, BeakIdError>(e),
            _ => Ok::<i64, BeakIdError>(id),
        }),
{
    match refresh {
        Some(Err(e)) => Err(e),
        _ => Ok(id),
    }
}

/// What a refresh does with the state word it reads.
#[derive(Debug, Clone, Copy, PartialEq, Eq, Structural)]
pub enum StateStep {
    /// Another thread is updating: leave the state alone.
    InProgress,
    /// Generation is blocked: unblock if virtual time lead has shrunk enough.
    Blocked,
    /// Nothing is in progress: claim the update and reconcile.
    Free,
}

/// Decides what a refresh does with the state word `state`.
pub fn state_step(state: u64) -> (step: StateStep)
    ensures
        step == (if state & STATE_UPDATING != 0 {
            StateStep::InProgress
        } else if state & STATE_BLOCKED != 0 {
            StateStep::Blocked
        } else {
            StateStep::Free
        }),
{
    if state & STATE_UPDATING != 0 {
        StateStep::InProgress
    } else if state & STATE_BLOCKED != 0 {
        StateStep::Blocked
    } else {
        StateStep::Free
    }
}

/// The state word that a blocked generator whose next identifier is `id`
/// stores in real window `real_window`: `Some(0)`, unblocking it, when it may
/// resume, and `None`, leaving it blocked, otherwise.
pub fn resumed_state(id: i64, real_window: u64) -> (word: Option<u64>)
    requires
        real_window <= MAX_TIMESTAMP,
    ensures
        word == (if spec_may_resume(id, real_window) {
            Some(0u64)
        } else {
            None::<u64>
        }),
{
    if may_resume(id, real_window) {
        Some(0)
    } else {
        None
    }
}

/// The state word stored after reconciling with step `step`: blocked after
/// `Block`, free otherwise.
pub fn state_after(step: Reconcile) -> (word: u64)
    ensures
        word == (match step {
            Reconcile::Block => STATE_BLOCKED,
            _ => 0u64,
        }),
{
    match step {
        Reconcile::Block => STATE_BLOCKED,
        _ => 0,
    }
}

/// Whole milliseconds from the Unix epoch to `epoch`, or `None` when `epoch`
/// lies before it.
fn epoch_offset(epoch: SystemTime) -> (millis: Option<u128>) {
    match elapsed_between(epoch, unix_epoch()) {
        Ok(elapsed) => Some(whole_millis(elapsed)),
        Err(_) => None,
    }
}

impl Generator {
    /// The worker id never exceeds 10 bits.
    #[verifier::type_invariant]
    closed spec fn well_formed(self) -> bool {
        self.worker_id <= MAX_WORKER_ID
    }

    /// The configured epoch, as a spec function.
    pub closed spec fn spec_epoch(&self) -> SystemTime {
        self.epoch
    }

    /// The configured worker id, as a spec function.
    pub closed spec fn spec_worker_id(&self) -> u16 {
        self.worker_id
    }

    /// Whole milliseconds from the Unix epoch to the configured epoch, as
    /// `SystemTime::duration_since` gave them when the generator was made
    /// (`None` for an epoch before the Unix epoch), as a spec function.
    pub closed spec fn spec_epoch_millis(&self) -> Option<u128> {
        self.epoch_millis
    }

    /// Creates a generator from validated configuration.
    ///
    /// Fails with `ClockBeforeEpoch` when the configured epoch lies beyond
    /// what the platform's clock can represent, and otherwise as
    /// `Generator::new` does.
    pub fn from_config(config: Config) -> (generator: Result<Self, BeakIdError>)
        ensures
            config.spec_worker_id() > MAX_WORKER_ID ==> generator == Err::<Generator, BeakIdError>(
                BeakIdError::WorkerIdOutOfRange(config.spec_worker_id()),
            ),
            config.spec_worker_id() <= MAX_WORKER_ID ==> !(generator matches Err(
                BeakIdError::WorkerIdOutOfRange(_),
            )),
            generator matches Err(e) ==> (e == BeakIdError::WorkerIdOutOfRange(
                config.spec_worker_id(),
            ) || e == BeakIdError::ClockBeforeEpoch || e is TimestampOverflow),
            generator matches Ok(g) ==> g.spec_worker_id() == config.spec_worker_id()
                && g.spec_epoch_millis() == Some(
                (config.spec_epoch_100ms_units() * 100) as u128,
            ),
    {
        let millis = epoch_millis_of(&config);
        let epoch = match unix_epoch_plus_millis(millis) {
            Some(epoch) => epoch,
            None => {
                if config.worker_id() > MAX_WORKER_ID {
                    return Err(BeakIdError::WorkerIdOutOfRange(config.worker_id()));
                }
                return Err(BeakIdError::ClockBeforeEpoch);
            },
        };
        if config.worker_id() > MAX_WORKER_ID {
            return Err(BeakIdError::WorkerIdOutOfRange(config.worker_id()));
        }
        let window = current_window(epoch)?;
        Self::starting_at(epoch, Some(millis as u128), config.worker_id(), window)
    }

    /// Creates a generator whose next identifier is sequence 0 of the
    /// current window of worker `worker_id`.
    pub fn new(epoch: SystemTime, worker_id: u16) -> (generator: Result<Self, BeakIdError>)
        ensures
            worker_id > MAX_WORKER_ID ==> generator == Err::<Generator, BeakIdError>(
                BeakIdError::WorkerIdOutOfRange(worker_id),
            ),
            worker_id <= MAX_WORKER_ID ==> !(generator matches Err(
                BeakIdError::WorkerIdOutOfRange(_),
            )),
            generator matches Err(e) ==> (e == BeakIdError::WorkerIdOutOfRange(worker_id) || e
                == BeakIdError::ClockBeforeEpoch || e is TimestampOverflow),
            generator matches Ok(g) ==> g.spec_epoch() == epoch && g.spec_worker_id() == worker_id,
    {
        if worker_id > MAX_WORKER_ID {
            return Err(BeakIdError::WorkerIdOutOfRange(worker_id));
        }
        let window = current_window(epoch)?;
        Self::at_window(epoch, worker_id, window)
    }

    /// Creates the generator of worker `worker_id` counting windows from
    /// `epoch`, whose next identifier is sequence 0 of window `window`.
    ///
    /// Fails with `WorkerIdOutOfRange` when the worker id does not fit in 10
    /// bits, and then with `TimestampOverflow(window)` when the window does
    /// not fit in 35 bits.
    pub fn at_window(epoch: SystemTime, worker_id: u16, window: u64) -> (generator: Result<
        Self,
        BeakIdError,
    >)
        ensures
            worker_id > MAX_WORKER_ID ==> generator == Err::<Generator, BeakIdError>(
                BeakIdError::WorkerIdOutOfRange(worker_id),
            ),
            worker_id <= MAX_WORKER_ID && window > MAX_TIMESTAMP ==> generator == Err::<
                Generator,
                BeakIdError,
            >(BeakIdError::TimestampOverflow(window)),
            worker_id <= MAX_WORKER_ID && window <= MAX_TIMESTAMP ==> (generator matches Ok(g)
                && g.spec_epoch() == epoch && g.spec_worker_id() == worker_id),
    {
        Self::starting_at(epoch, epoch_offset(epoch), worker_id, window)
    }

    /// As `at_window`, with `epoch_millis` the whole milliseconds from the
    /// Unix epoch to `epoch`.
    fn starting_at(epoch: SystemTime, epoch_millis: Option<u128>, worker_id: u16, window: u64) -> (generator: Result<
        Self,
        BeakIdError,
    >)
        ensures
            worker_id > MAX_WORKER_ID ==> generator == Err::<Generator, BeakIdError>(
                BeakIdError::WorkerIdOutOfRange(worker_id),
            ),
            worker_id <= MAX_WORKER_ID && window > MAX_TIMESTAMP ==> generator == Err::<
                Generator,
                BeakIdError,
            >(BeakIdError::TimestampOverflow(window)),
            worker_id <= MAX_WORKER_ID && window <= MAX_TIMESTAMP ==> (generator matches Ok(g)
                && g.spec_epoch() == epoch && g.spec_worker_id() == worker_id
                && g.spec_epoch_millis() == epoch_millis),
    {
        if worker_id > MAX_WORKER_ID {
            return Err(BeakIdError::WorkerIdOutOfRange(worker_id));
        }
        validate_window(window)?;
        let next_id = raw_id(window, 0, worker_id);
        proof {
            crate::beakid::layout::law_construct_decompose(window, 0, worker_id);
        }
        Ok(Self::build(epoch, epoch_millis, next_id))
    }

    /// The generator whose next identifier is `next_id`, counting windows
    /// from `epoch`, which lies `epoch_millis` whole milliseconds after the
    /// Unix epoch.
    fn build(epoch: SystemTime, epoch_millis: Option<u128>, next_id: i64) -> (generator: Self)
        ensures
            generator.spec_epoch() == epoch,
            generator.spec_worker_id() == spec_decompose(next_id).2,
            generator.spec_epoch_millis() == epoch_millis,
    {
        let worker_id = worker_of(next_id);
        Self {
            id: AtomicI64::new(next_id),
            state: AtomicU64::new(0),
            epoch,
            worker_id,
            epoch_millis,
        }
    }

    /// Creates a generator whose next identifier is `next_id`, counting
    /// windows from `epoch`; its worker id is the low 10 bits of `next_id`.
    pub fn resume(epoch: SystemTime, next_id: i64) -> (generator: Self)
        ensures
            generator.spec_epoch() == epoch,
            generator.spec_worker_id() == spec_decompose(next_id).2,
    {
        Self::build(epoch, epoch_offset(epoch), next_id)
    }

    /// Returns the next unique ID as a non-negative `i64`.
    ///
    /// Fails with `Blocked` while virtual time leads real time by the maximum,
    /// and also when an update by another thread stays in progress for
    /// `MAX_SPINS` reads of the state.
    pub fn next_id(&self) -> (id: Result<i64, BeakIdError>)
        ensures
            id matches Err(e) ==> (e == BeakIdError::Blocked || e == BeakIdError::ClockBeforeEpoch
                || (e matches BeakIdError::TimestampOverflow(v) && v > MAX_TIMESTAMP)),
    {
        let mut state = self.state.load(Ordering::Acquire);
        let mut spins: u32 = 0;
        while state & STATE_UPDATING != 0 && spins < MAX_SPINS
            invariant
                spins <= MAX_SPINS,
            decreases MAX_SPINS - spins,
        {
            spin_hint();
            state = self.state.load(Ordering::Acquire);
            spins = spins + 1;
        }
        allocation_gate(state)?;
        let id = self.id.fetch_add(SEQUENCE_INCREMENT, Ordering::Relaxed);
        let refresh = if crosses_window(id) {
            Some(self.refresh_hint())
        } else {
            None
        };
        allocation(id, refresh)
    }

    /// Reconciles the generator's virtual time with real time.
    ///
    /// The background worker calls this every ~30ms; the hot path calls it
    /// when sequence overflow crosses into a new virtual window.
    pub fn refresh_hint(&self) -> (window: Result<u64, BeakIdError>)
        ensures
            window matches Ok(w) ==> w <= MAX_TIMESTAMP,
            window matches Err(e) ==> (e == BeakIdError::ClockBeforeEpoch || (e matches BeakIdError::TimestampOverflow(v)
                && v > MAX_TIMESTAMP)),
    {
        let real_window = current_window(self.epoch)?;
        self.refresh_window(real_window)
    }

    /// Reconciles the generator's virtual time with the real time window
    /// `real_window`, as `refresh_hint` does with the window it reads.
    ///
    /// A blocked generator resumes once its virtual time leads by fewer than
    /// 8 windows. Otherwise the next identifier restarts at sequence 0 of
    /// the real window when real time has caught up, and generation blocks
    /// when virtual time leads by `MAX_VIRTUAL_WINDOWS` windows or more.
    pub fn refresh_window(&self, real_window: u64) -> (window: Result<u64, BeakIdError>)
        ensures
            real_window <= MAX_TIMESTAMP ==> window == Ok::<u64, BeakIdError>(real_window),
            real_window > MAX_TIMESTAMP ==> window == Err::<u64, BeakIdError>(
                BeakIdError::TimestampOverflow(real_window),
            ),
    {
        validate_window(real_window)?;
        let mut state = self.state.load(Ordering::Acquire);
        let mut attempts: u32 = 0;
        loop
            invariant
                attempts < MAX_CAS_ATTEMPTS,
                real_window <= MAX_TIMESTAMP,
            decreases MAX_CAS_ATTEMPTS - attempts,
        {
            match state_step(state) {
                StateStep::InProgress => {
                    return Ok(real_window);
                },
                StateStep::Blocked => {
                    let id = self.id.load(Ordering::Relaxed);
                    if let Some(word) = resumed_state(id, real_window) {
                        self.state.store(word, Ordering::Release);
                    }
                    return Ok(real_window);
                },
                StateStep::Free => {},
            }
            match self.state.compare_exchange_weak(
                state,
                STATE_UPDATING | STATE_BLOCKED,
                Ordering::Release,
                Ordering::Acquire,
            ) {
                Ok(_) => break ,
                Err(current) => state = current,
            }
            attempts = attempts + 1;
            if attempts == MAX_CAS_ATTEMPTS {
                return Ok(real_window);
            }
        }
        let _ = self.reconcile_id_with_time(real_window);
        Ok(real_window)
    }

    /// Returns the current real time window from the configured epoch.
    pub fn real_window_hint(&self) -> (window: Result<u64, BeakIdError>)
        ensures
            window matches Err(e) ==> (e == BeakIdError::ClockBeforeEpoch || e
                == BeakIdError::TimestampOverflow(u64::MAX)),
    {
        current_window(self.epoch)
    }

    /// Returns the configured worker id, which every identifier of this
    /// generator carries in its low 10 bits.
    pub fn worker_id(&self) -> (worker_id: u16)
        ensures
            worker_id == self.spec_worker_id(),
            worker_id <= MAX_WORKER_ID,
    {
        proof {
            use_type_invariant(self);
        }
        self.worker_id
    }

    /// Returns the configured epoch.
    pub fn epoch(&self) -> (epoch: SystemTime)
        ensures
            epoch == self.spec_epoch(),
    {
        self.epoch
    }

    /// Returns the absolute creation timestamp encoded in `id`: the start of
    /// its 100ms window counted from the generator's epoch.
    pub fn timestamp(&self, id: i64) -> (timestamp: Result<Timestamp, BeakIdError>)
        ensures
            timestamp == spec_timestamp_at(spec_decompose(id).0, self.spec_epoch_millis()),
    {
        timestamp_at(timestamp_window(id), self.epoch_millis)
    }

    /// Reconciles the next identifier with `real_window` as `reconcile_step`
    /// decides, and returns the identifier it read with the step it acted
    /// on: blocking, keeping, or resetting the next identifier. Returns
    /// `None` when every compare-and-swap of a reset lost to another thread.
    fn reconcile_id_with_time(&self, real_window: u64) -> (outcome: Option<(i64, Reconcile)>)
        requires
            real_window <= MAX_TIMESTAMP,
        ensures
            outcome matches Some((id, step)) ==> step == spec_reconcile(id, real_window),
    {
        let mut id = self.id.load(Ordering::Relaxed);
        let mut attempts: u32 = 0;
        while attempts < MAX_CAS_ATTEMPTS
            invariant
                attempts <= MAX_CAS_ATTEMPTS,
                real_window <= MAX_TIMESTAMP,
            decreases MAX_CAS_ATTEMPTS - attempts,
        {
            let step = reconcile_step(id, real_window);
            match step {
                Reconcile::Block => {
                    self.state.store(state_after(step), Ordering::Release);
                    return Some((id, step));
                },
                Reconcile::Keep => {
                    self.state.store(state_after(step), Ordering::Release);
                    return Some((id, step));
                },
                Reconcile::Reset(reset_id) => {
                    match self.id.compare_exchange_weak(
                        id,
                        reset_id,
                        Ordering::Release,
                        Ordering::Acquire,
                    ) {
                        Ok(_) => {
                            self.state.store(state_after(step), Ordering::Release);
                            return Some((id, step));
                        },
                        Err(current) => {
                            id = current;
                        },
                    }
                },
            }
            attempts = attempts + 1;
        }
        self.state.store(0, Ordering::Release);
        None
    }
}

/// A generator made from a configuration (`Generator::from_config`) dates
/// every identifier at the configured epoch plus 100 ms per window of the
/// identifier.
pub proof fn law_configured_timestamps(config: Config, generator: Generator, id: i64)
    requires
        generator.spec_epoch_millis() == Some((config.spec_epoch_100ms_units() * 100) as u128),
        (config.spec_epoch_100ms_units() + spec_decompose(id).0) * 100 <= i64::MAX,
    ensures
        spec_timestamp_at(spec_decompose(id).0, generator.spec_epoch_millis()) == Ok::<
            Timestamp,
            BeakIdError,
        >(timestamp_of((config.spec_epoch_100ms_units() + spec_decompose(id).0) * 100)),
        timestamp_of((config.spec_epoch_100ms_units() + spec_decompose(id).0) * 100)@ == (
        config.spec_epoch_100ms_units() + spec_decompose(id).0) * 100,
{
    crate::timestamp::lemma_timestamp_of(
        (config.spec_epoch_100ms_units() + spec_decompose(id).0) * 100,
    );
}

} // verus!
