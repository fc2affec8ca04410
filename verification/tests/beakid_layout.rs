use std::time::{Duration, SystemTime, UNIX_EPOCH};

use tokistamp::beakid::generator::{
    allocation, allocation_gate, construct_id, current_window, decompose_id, resumed_state,
    state_after, state_step, timestamp_at, validate_window, window_of_elapsed, StateStep,
    MAX_SEQUENCE, MAX_TIMESTAMP, MAX_WORKER_ID, STATE_BLOCKED, STATE_UPDATING,
};
use tokistamp::beakid::layout::{crosses_window, may_resume, reconcile_step, Reconcile};
use tokistamp::beakid::{BeakId, BeakIdError, Generator};
use tokistamp::Timestamp;

#[test]
fn constructed_ids_decompose_into_their_parts() {
    let cases = [
        (0, 0, 0),
        (MAX_TIMESTAMP, MAX_SEQUENCE, MAX_WORKER_ID),
        (1, 2, 3),
        (123_456_789, 65_432, 1000),
    ];
    for (timestamp, sequence, worker_id) in cases {
        let id = construct_id(timestamp, sequence, worker_id);
        assert!(id >= 0);
        assert_eq!(decompose_id(id), (timestamp, sequence, worker_id));
    }
    assert_eq!(construct_id(MAX_TIMESTAMP, MAX_SEQUENCE, MAX_WORKER_ID), i64::MAX);
    assert_eq!(construct_id(1, 0, 0), 1 << 28);
    assert_eq!(construct_id(0, 1, 0), 1 << 10);
    assert_eq!(construct_id(0, 0, 1), 1);
}

#[test]
fn construct_keeps_only_the_low_bits_of_each_part() {
    assert_eq!(construct_id(0, MAX_SEQUENCE + 1, 0), 0);
    assert_eq!(construct_id(0, 0, 1024), 0);
    assert_eq!(decompose_id(construct_id(0, MAX_SEQUENCE + 5, 1025)), (0, 4, 1));
}

#[test]
fn decompose_reads_negative_ids_by_their_bits() {
    assert_eq!(decompose_id(-1), (MAX_TIMESTAMP, MAX_SEQUENCE, MAX_WORKER_ID));
    assert_eq!(decompose_id(i64::MIN), (0, 0, 0));
}

#[test]
fn ids_of_one_worker_sort_by_time_then_sequence() {
    let earlier = construct_id(7, MAX_SEQUENCE, 5);
    let later = construct_id(8, 0, 5);
    assert!(earlier < later);
    assert!(construct_id(8, 0, 5) < construct_id(8, 1, 5));
}

#[test]
fn next_sequence_step_crosses_only_after_the_last_sequence() {
    assert!(crosses_window(construct_id(3, MAX_SEQUENCE, 2)));
    assert!(!crosses_window(construct_id(3, MAX_SEQUENCE - 1, 2)));
    assert!(!crosses_window(construct_id(3, 0, 2)));
    let next = construct_id(3, MAX_SEQUENCE, 2) + 1024;
    assert_eq!(decompose_id(next), (4, 0, 2));
}

#[test]
fn reconcile_blocks_keeps_or_resets() {
    assert_eq!(reconcile_step(construct_id(110, 0, 3), 100), Reconcile::Block);
    assert_eq!(reconcile_step(construct_id(109, 9, 3), 100), Reconcile::Keep);
    assert_eq!(reconcile_step(construct_id(100, 9, 3), 100), Reconcile::Keep);
    assert_eq!(reconcile_step(construct_id(100, 0, 3), 100), Reconcile::Keep);
    assert_eq!(
        reconcile_step(construct_id(100, 0, 0), 100),
        Reconcile::Reset(construct_id(100, 0, 0))
    );
    assert_eq!(
        reconcile_step(construct_id(90, 77, 3), 100),
        Reconcile::Reset(construct_id(100, 0, 3))
    );
}

#[test]
fn blocked_generator_resumes_below_eight_windows_of_lead() {
    assert!(!may_resume(construct_id(110, 0, 3), 102));
    assert!(may_resume(construct_id(110, 0, 3), 103));
    assert!(may_resume(construct_id(90, 0, 3), 100));
}

#[test]
fn windows_count_hundreds_of_milliseconds() {
    assert_eq!(window_of_elapsed(0), Ok(0));
    assert_eq!(window_of_elapsed(99), Ok(0));
    assert_eq!(window_of_elapsed(12_345), Ok(123));
    assert_eq!(
        window_of_elapsed(u128::MAX),
        Err(BeakIdError::TimestampOverflow(u64::MAX))
    );
    assert_eq!(validate_window(MAX_TIMESTAMP), Ok(()));
    assert_eq!(
        validate_window(MAX_TIMESTAMP + 1),
        Err(BeakIdError::TimestampOverflow(MAX_TIMESTAMP + 1))
    );
}

#[test]
fn current_window_reports_a_clock_before_the_epoch() {
    let future = SystemTime::now() + Duration::from_secs(3600);
    assert_eq!(current_window(future), Err(BeakIdError::ClockBeforeEpoch));
    let past = SystemTime::now() - Duration::from_millis(5_000);
    let window = current_window(past).unwrap();
    assert!((50..60).contains(&window));
}

#[test]
fn window_start_instants_and_their_errors() {
    assert_eq!(timestamp_at(123, Some(0)), Ok(Timestamp::from_millis(12_300)));
    assert_eq!(
        timestamp_at(5, Some(1_735_689_600_000)),
        Ok(Timestamp::from_millis(1_735_689_600_500))
    );
    assert_eq!(timestamp_at(1, None), Err(BeakIdError::ClockBeforeEpoch));
    assert_eq!(
        timestamp_at(u64::MAX, Some(0)),
        Err(BeakIdError::TimestampOverflow(u64::MAX))
    );
    assert_eq!(
        timestamp_at(1, Some(i64::MAX as u128)),
        Err(BeakIdError::TimestampOverflow(1))
    );
}

#[test]
fn generator_rejects_wide_worker_ids_and_future_epochs() {
    assert!(matches!(
        Generator::new(UNIX_EPOCH, 1024),
        Err(BeakIdError::WorkerIdOutOfRange(1024))
    ));
    let future = SystemTime::now() + Duration::from_secs(3600);
    assert!(matches!(
        Generator::new(future, 1),
        Err(BeakIdError::ClockBeforeEpoch)
    ));
}

#[test]
fn generator_reports_its_worker_and_epoch() {
    let epoch = SystemTime::now() - Duration::from_secs(10);
    let generator = Generator::new(epoch, 77).unwrap();
    assert_eq!(generator.worker_id(), 77);
    assert_eq!(generator.epoch(), epoch);
    let hint = generator.real_window_hint().unwrap();
    assert!((100..110).contains(&hint));
    let id = generator.next_id().unwrap();
    assert_eq!(decompose_id(id).2, 77);
    assert_eq!(decompose_id(id).1, 0);
}

#[test]
fn refresh_window_rejects_windows_beyond_the_layout() {
    let generator = Generator::resume(UNIX_EPOCH, construct_id(5, 0, 1));
    assert_eq!(
        generator.refresh_window(MAX_TIMESTAMP + 1),
        Err(BeakIdError::TimestampOverflow(MAX_TIMESTAMP + 1))
    );
    assert_eq!(generator.refresh_window(6), Ok(6));
    assert_eq!(generator.next_id().map(decompose_id), Ok((6, 0, 1)));
}

#[test]
fn beak_id_exposes_its_parts() {
    let raw = construct_id(1234, 56, 789);
    let id = BeakId::new(raw);
    assert_eq!(id.as_i64(), raw);
    assert_eq!(id.timestamp_window(), 1234);
    assert_eq!(id.sequence(), 56);
    assert_eq!(id.worker_id(), 789);
    assert_eq!(id.parts(), (1234, 56, 789));
    assert_eq!(BeakId::from(raw), id);
    assert_eq!(i64::from(id), raw);
    assert_eq!(BeakId::new(0).to_string(), "0");
    assert_eq!(BeakId::new(i64::MAX).to_string(), "9223372036854775807");
    assert_eq!(BeakId::new(-42).to_string(), "-42");
    assert_eq!(BeakId::new(raw).to_string(), raw.to_string());
}

#[test]
fn allocation_gate_blocks_while_updating_or_blocked() {
    assert_eq!(allocation_gate(0), Ok(()));
    assert_eq!(allocation_gate(STATE_BLOCKED), Err(BeakIdError::Blocked));
    assert_eq!(allocation_gate(STATE_UPDATING), Err(BeakIdError::Blocked));
    assert_eq!(
        allocation_gate(STATE_UPDATING | STATE_BLOCKED),
        Err(BeakIdError::Blocked)
    );
    assert_eq!(allocation_gate(4), Ok(()));
}

#[test]
fn allocation_returns_the_id_unless_its_refresh_failed() {
    assert_eq!(allocation(7, None), Ok(7));
    assert_eq!(allocation(7, Some(Ok(3))), Ok(7));
    assert_eq!(
        allocation(7, Some(Err(BeakIdError::ClockBeforeEpoch))),
        Err(BeakIdError::ClockBeforeEpoch)
    );
}

#[test]
fn state_step_reads_the_update_bit_first() {
    assert_eq!(state_step(0), StateStep::Free);
    assert_eq!(state_step(STATE_BLOCKED), StateStep::Blocked);
    assert_eq!(state_step(STATE_UPDATING), StateStep::InProgress);
    assert_eq!(state_step(STATE_UPDATING | STATE_BLOCKED), StateStep::InProgress);
}

#[test]
fn generator_with_an_in_range_worker_fails_only_on_the_clock() {
    let future = SystemTime::now() + Duration::from_secs(3600);
    for worker in [0, 1, 1023] {
        assert_eq!(
            Generator::new(future, worker).err(),
            Some(BeakIdError::ClockBeforeEpoch)
        );
    }
}

#[test]
fn generator_at_a_window_starts_at_its_sequence_zero() {
    let generator = Generator::at_window(UNIX_EPOCH, 5, 100).unwrap();
    assert_eq!(generator.worker_id(), 5);
    assert_eq!(generator.epoch(), UNIX_EPOCH);
    assert_eq!(generator.next_id().map(decompose_id), Ok((100, 0, 5)));
    assert!(matches!(
        Generator::at_window(UNIX_EPOCH, 1024, 100),
        Err(BeakIdError::WorkerIdOutOfRange(1024))
    ));
    assert!(matches!(
        Generator::at_window(UNIX_EPOCH, 5, MAX_TIMESTAMP + 1),
        Err(BeakIdError::TimestampOverflow(w)) if w == MAX_TIMESTAMP + 1
    ));
    assert!(Generator::at_window(UNIX_EPOCH, MAX_WORKER_ID, MAX_TIMESTAMP).is_ok());
}

#[test]
fn resumed_generator_keeps_the_worker_of_its_next_id() {
    let generator = Generator::resume(UNIX_EPOCH, construct_id(40, 7, 321));
    assert_eq!(generator.worker_id(), 321);
    generator.next_id().unwrap();
    generator.refresh_window(50).unwrap();
    assert_eq!(generator.worker_id(), 321);
    assert_eq!(generator.next_id().map(decompose_id), Ok((50, 0, 321)));
}

#[test]
fn generator_timestamps_count_from_its_epoch() {
    let epoch = UNIX_EPOCH + Duration::from_millis(1_735_689_600_000);
    let generator = Generator::resume(epoch, construct_id(0, 0, 1));
    assert_eq!(
        generator.timestamp(construct_id(5, 9, 1)),
        Ok(Timestamp::from_millis(1_735_689_600_500))
    );
    let before = Generator::resume(UNIX_EPOCH - Duration::from_secs(1), 0);
    assert_eq!(before.timestamp(construct_id(5, 0, 0)), Err(BeakIdError::ClockBeforeEpoch));
}

#[test]
fn state_words_follow_the_decisions() {
    assert_eq!(resumed_state(construct_id(110, 0, 3), 102), None);
    assert_eq!(resumed_state(construct_id(110, 0, 3), 103), Some(0));
    assert_eq!(state_after(Reconcile::Block), STATE_BLOCKED);
    assert_eq!(state_after(Reconcile::Keep), 0);
    assert_eq!(state_after(Reconcile::Reset(5)), 0);
}
