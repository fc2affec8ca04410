use tokistamp::beakid::error::describe;
use tokistamp::beakid::BeakIdError;

#[test]
fn error_messages_name_the_setting_and_the_value() {
    let cases = [
        (BeakIdError::MissingEpoch, "BEAKID_EPOCH is required"),
        (
            BeakIdError::InvalidEpoch("2025-01-01".to_string()),
            "BEAKID_EPOCH must be an RFC 3339 UTC datetime, got \"2025-01-01\"",
        ),
        (
            BeakIdError::InvalidEpoch("a\"b\\c\n".to_string()),
            "BEAKID_EPOCH must be an RFC 3339 UTC datetime, got \"a\\\"b\\\\c\\n\"",
        ),
        (
            BeakIdError::InvalidWorkerId(String::new()),
            "BEAKID_WORKER_ID must be an unsigned 16-bit integer, got \"\"",
        ),
        (
            BeakIdError::WorkerIdOutOfRange(2048),
            "BEAKID_WORKER_ID must fit in 10 bits, got 2048",
        ),
        (
            BeakIdError::ClockBeforeEpoch,
            "system clock is before BEAKID_EPOCH",
        ),
        (
            BeakIdError::TimestampOverflow(u64::MAX),
            "timestamp window 18446744073709551615 exceeds the 35-bit range",
        ),
        (
            BeakIdError::BackgroundSpawnFailed("no threads".to_string()),
            "failed to spawn BeakId background thread: no threads",
        ),
        (
            BeakIdError::Blocked,
            "BeakId generation is blocked until real time catches up",
        ),
    ];
    for (error, text) in cases {
        assert_eq!(error.to_string(), text);
    }
}

#[test]
fn describe_inserts_the_quoted_value() {
    assert_eq!(
        describe(&BeakIdError::InvalidWorkerId("x".to_string()), "'x'"),
        "BEAKID_WORKER_ID must be an unsigned 16-bit integer, got 'x'"
    );
    assert_eq!(
        describe(&BeakIdError::WorkerIdOutOfRange(0), "ignored"),
        "BEAKID_WORKER_ID must fit in 10 bits, got 0"
    );
}
