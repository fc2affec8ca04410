use std::time::{Duration, SystemTime, UNIX_EPOCH};

use tokistamp::beakid::generator::{construct_id, decompose_id, MAX_SEQUENCE};
use tokistamp::beakid::{BeakIdError, Generator};

fn test_generator(window: u64, sequence: u64, worker_id: u16) -> Generator {
    test_generator_with_real_window(window, sequence, worker_id, window)
}

fn test_generator_with_real_window(
    window: u64,
    sequence: u64,
    worker_id: u16,
    real_window: u64,
) -> Generator {
    Generator::resume(
        SystemTime::now() - Duration::from_millis(real_window * 100),
        construct_id(window, sequence, worker_id),
    )
}

#[test]
fn constructs_expected_layout() {
    let id = construct_id(0b101, 0b11, 42);
    assert_eq!(id >> 63, 0);
    assert_eq!(decompose_id(id), (0b101, 0b11, 42));
}

#[test]
fn first_id_uses_sequence_zero() {
    let generator = test_generator(100, 0, 7);

    let id = generator.next_id().unwrap();
    assert_eq!(decompose_id(id), (100, 0, 7));
}

#[test]
fn sequence_overflow_advances_virtual_window() {
    let generator = test_generator(100, MAX_SEQUENCE, 9);

    let last_in_window = generator.next_id().unwrap();
    let first_virtual = generator.next_id().unwrap();

    assert_eq!(decompose_id(last_in_window), (100, MAX_SEQUENCE, 9));
    assert_eq!(decompose_id(first_virtual), (101, 0, 9));
}

#[test]
fn refresh_resets_to_real_window_when_time_advances() {
    let generator = test_generator_with_real_window(100, 55, 3, 101);

    generator.refresh_hint().unwrap();
    let id = generator.next_id().unwrap();

    assert_eq!(decompose_id(id), (101, 0, 3));
}

#[test]
fn timestamp_uses_generator_epoch() {
    let generator = Generator::new(UNIX_EPOCH, 1).unwrap();
    let id = construct_id(123, 45, 1);

    let timestamp = generator.timestamp(id).unwrap();

    assert_eq!(timestamp.as_i64(), 12_300);
}

#[test]
fn refresh_blocks_when_virtual_time_is_exhausted() {
    let generator = test_generator_with_real_window(110, 0, 3, 100);

    generator.refresh_hint().unwrap();

    assert_eq!(generator.next_id(), Err(BeakIdError::Blocked));
}

fn wait_until(epoch: SystemTime, elapsed_millis: u64) {
    let target = epoch + Duration::from_millis(elapsed_millis);
    while SystemTime::now() < target {}
}

#[test]
fn blocked_generator_unblocks_after_real_time_catches_up() {
    let epoch = SystemTime::now() - Duration::from_millis(100 * 100 + 50);
    let generator = Generator::resume(epoch, construct_id(110, 0, 3));
    assert_eq!(generator.refresh_hint(), Ok(100));
    assert_eq!(generator.next_id(), Err(BeakIdError::Blocked));

    wait_until(epoch, 102 * 100 + 50);
    assert_eq!(generator.refresh_hint(), Ok(102));

    assert_eq!(generator.next_id(), Err(BeakIdError::Blocked));

    wait_until(epoch, 103 * 100 + 50);
    assert_eq!(generator.refresh_hint(), Ok(103));

    assert!(generator.next_id().is_ok());
}

#[test]
fn blocked_generator_unblocks_through_explicit_windows() {
    let generator = test_generator_with_real_window(110, 0, 3, 100);
    generator.refresh_hint().unwrap();
    assert_eq!(generator.next_id(), Err(BeakIdError::Blocked));

    generator.refresh_window(102).unwrap();

    assert_eq!(generator.next_id(), Err(BeakIdError::Blocked));

    generator.refresh_window(103).unwrap();

    assert!(generator.next_id().is_ok());
}
