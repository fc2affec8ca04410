use tokistamp::beakid::config::{parse_epoch, parse_worker_id};
use tokistamp::beakid::{BeakIdError, Config, EnvVar};
use tokistamp::DateTime;

#[test]
fn parses_utc_epoch() {
    let epoch = parse_epoch("2025-01-01T00:00:00Z").unwrap();
    assert_eq!(epoch, DateTime::new(2025, 1, 1, 0, 0, 0, 0).unwrap());
}

#[test]
fn rejects_non_utc_epoch() {
    assert!(matches!(
        parse_epoch("2025-01-01T03:00:00+03:00"),
        Err(BeakIdError::InvalidEpoch(_))
    ));
}

#[test]
fn validates_worker_id_range() {
    assert_eq!(parse_worker_id("1023").unwrap(), 1023);
    assert_eq!(
        parse_worker_id("1024"),
        Err(BeakIdError::WorkerIdOutOfRange(1024))
    );
}

#[test]
fn config_reads_required_environment() {
    let config = Config::from_vars(
        &EnvVar::Present("2025-01-01T00:00:00Z".to_string()),
        &EnvVar::Present("42".to_string()),
    )
    .unwrap();

    assert_eq!(config.worker_id(), 42);
    assert!(config.epoch_100ms_units() > 0);
}

#[test]
fn config_defaults_worker_id() {
    let config = Config::from_vars(
        &EnvVar::Present("2025-01-01T00:00:00Z".to_string()),
        &EnvVar::Missing,
    )
    .unwrap();

    assert_eq!(config.worker_id(), 0);
}

#[test]
fn config_rejects_missing_epoch() {
    assert_eq!(
        Config::from_vars(&EnvVar::Missing, &EnvVar::Missing),
        Err(BeakIdError::MissingEpoch)
    );
}
