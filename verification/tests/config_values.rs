use tokistamp::beakid::config::{parse_epoch, parse_worker_id};
use tokistamp::beakid::generator::MAX_WORKER_ID;
use tokistamp::beakid::{BeakIdError, Config, EnvVar, Generator};
use tokistamp::DateTime;

fn present(text: &str) -> EnvVar {
    EnvVar::Present(text.to_string())
}

#[test]
fn config_counts_the_epoch_in_hundreds_of_milliseconds() {
    let epoch = DateTime::new(2025, 1, 1, 0, 0, 0, 0).unwrap();
    let config = Config::new(epoch, 42).unwrap();
    assert_eq!(config.epoch_100ms_units(), 17_356_896_000);
    assert_eq!(config.worker_id(), 42);

    let with_millis = DateTime::new(1970, 1, 1, 0, 0, 0, 199).unwrap();
    assert_eq!(Config::new(with_millis, 0).unwrap().epoch_100ms_units(), 1);
}

#[test]
fn config_rejects_wide_worker_ids_before_the_epoch() {
    let early = DateTime::new(1969, 12, 31, 23, 59, 59, 999).unwrap();
    assert_eq!(
        Config::new(early, MAX_WORKER_ID + 1),
        Err(BeakIdError::WorkerIdOutOfRange(1024))
    );
    assert_eq!(
        Config::new(early, 1),
        Err(BeakIdError::InvalidEpoch("1969-12-31T23:59:59.999Z".to_string()))
    );
    let late = DateTime::new(300_000_000, 1, 1, 0, 0, 0, 0).unwrap();
    assert_eq!(
        Config::new(late, 1),
        Err(BeakIdError::InvalidEpoch("300000000-01-01 00:00:00.000".to_string()))
    );
    let half = DateTime::new(1969, 7, 20, 20, 17, 40, 500).unwrap();
    assert_eq!(
        Config::new(half, 1),
        Err(BeakIdError::InvalidEpoch("1969-07-20T20:17:40.5Z".to_string()))
    );
}

#[test]
fn config_from_variables_follows_the_documented_rules() {
    let expected = Config::new(DateTime::new(2025, 1, 1, 0, 0, 0, 0).unwrap(), 42).unwrap();
    assert_eq!(
        Config::from_vars(&present("2025-01-01T00:00:00Z"), &present("42")),
        Ok(expected)
    );

    let default_worker = Config::from_vars(&present("2025-01-01T00:00:00.000Z"), &EnvVar::Missing)
        .unwrap();
    assert_eq!(default_worker.worker_id(), 0);

    assert_eq!(
        Config::from_vars(&EnvVar::Missing, &present("1")),
        Err(BeakIdError::MissingEpoch)
    );
    assert_eq!(
        Config::from_vars(&EnvVar::NotUnicode, &present("1")),
        Err(BeakIdError::MissingEpoch)
    );
    assert_eq!(
        Config::from_vars(&present("2025-01-01"), &present("1")),
        Err(BeakIdError::InvalidEpoch("2025-01-01".to_string()))
    );
    assert_eq!(
        Config::from_vars(&present("2025-01-01T00:00:00Z"), &EnvVar::NotUnicode),
        Err(BeakIdError::InvalidWorkerId(String::new()))
    );
    assert_eq!(
        Config::from_vars(&present("2025-01-01T00:00:00Z"), &present("forty")),
        Err(BeakIdError::InvalidWorkerId("forty".to_string()))
    );
    assert_eq!(
        Config::from_vars(&present("2025-01-01T00:00:00Z"), &present("2048")),
        Err(BeakIdError::WorkerIdOutOfRange(2048))
    );
    assert_eq!(
        Config::from_vars(&present("1960-01-01T00:00:00Z"), &present("1")),
        Err(BeakIdError::InvalidEpoch("1960-01-01T00:00:00Z".to_string()))
    );
}

#[test]
fn rejected_epoch_variables_carry_the_exact_parsed_instant() {
    assert_eq!(
        Config::from_vars(&present("1969-12-31T23:59:59.123456789Z"), &present("1")),
        Err(BeakIdError::InvalidEpoch("1969-12-31T23:59:59.123456789Z".to_string()))
    );
    assert_eq!(
        Config::from_vars(&present("1969-12-31 23:59:59.5z"), &EnvVar::Missing),
        Err(BeakIdError::InvalidEpoch("1969-12-31T23:59:59.5Z".to_string()))
    );
    assert_eq!(
        Config::from_vars(&present("1969-12-31T23:59:59.9999Z"), &EnvVar::Missing)
            .map(|config| config.epoch_100ms_units()),
        Ok(0)
    );
}

#[test]
fn epoch_text_must_be_rfc3339_utc() {
    assert_eq!(
        parse_epoch("2025-06-30T12:34:56.789Z"),
        Ok(DateTime::new(2025, 6, 30, 12, 34, 56, 789).unwrap())
    );
    for text in [
        "2025-01-01 00:00:00",
        "2025-01-01T00:00:00",
        "2025-02-30T00:00:00Z",
        "2025-01-01T24:00:00Z",
        "",
    ] {
        assert_eq!(
            parse_epoch(text),
            Err(BeakIdError::InvalidEpoch(text.to_string())),
            "{text}"
        );
    }
}

#[test]
fn epoch_text_accepts_every_rfc3339_utc_form() {
    let new_year = DateTime::new(2025, 1, 1, 0, 0, 0, 0).unwrap();
    for text in [
        "2025-01-01T00:00:00+00:00",
        "2025-01-01T00:00:00-00:00",
        "2025-01-01t00:00:00z",
        "2025-01-01 00:00:00Z",
        "2025-01-01T00:00:00.0004Z",
    ] {
        assert_eq!(parse_epoch(text), Ok(new_year), "{text}");
    }
    assert_eq!(
        parse_epoch("2025-01-01T00:00:00.123456789Z"),
        Ok(DateTime::new(2025, 1, 1, 0, 0, 0, 123).unwrap())
    );
    assert_eq!(
        parse_epoch("2016-12-31T23:59:60Z"),
        Ok(DateTime::new(2016, 12, 31, 23, 59, 59, 999).unwrap())
    );
    assert_eq!(
        parse_epoch("1969-12-31T23:59:59.9999Z"),
        Ok(DateTime::new(1970, 1, 1, 0, 0, 0, 0).unwrap())
    );
    assert_eq!(
        parse_epoch("2025-01-01T03:00:00+03:00"),
        Err(BeakIdError::InvalidEpoch("2025-01-01T03:00:00+03:00".to_string()))
    );
}

#[test]
fn worker_id_text_reads_as_u16() {
    assert_eq!(parse_worker_id("0"), Ok(0));
    assert_eq!(parse_worker_id("+7"), Ok(7));
    assert_eq!(parse_worker_id("007"), Ok(7));
    assert_eq!(parse_worker_id("65535"), Err(BeakIdError::WorkerIdOutOfRange(65535)));
    for text in ["", "+", "-1", "65536", "1_0", " 1", "99999999999999999999"] {
        assert_eq!(
            parse_worker_id(text),
            Err(BeakIdError::InvalidWorkerId(text.to_string())),
            "{text}"
        );
    }
}

#[test]
fn generator_from_config_uses_the_configured_worker() {
    let epoch = DateTime::new(2020, 1, 1, 0, 0, 0, 0).unwrap();
    let generator = Generator::from_config(Config::new(epoch, 9).unwrap()).unwrap();
    assert_eq!(generator.worker_id(), 9);
    let id = generator.next_id().unwrap();
    let created = generator.timestamp(id).unwrap().as_i64();
    let epoch_millis = 1_577_836_800_000_i64;
    assert!(created >= epoch_millis);
    assert_eq!((created - epoch_millis) % 100, 0);
}
