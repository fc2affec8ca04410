use tokistamp::{Date, DateTime, Datestamp, Duration, Time, Timestamp};

#[test]
fn date_time_text_reads_back() {
    let samples = [
        DateTime::new(2026, 5, 8, 12, 34, 56, 789).unwrap(),
        DateTime::new(2024, 2, 29, 23, 59, 59, 999).unwrap(),
        DateTime::new(0, 1, 1, 0, 0, 0, 0).unwrap(),
        DateTime::new(9999, 12, 31, 23, 59, 59, 999).unwrap(),
        DateTime::new(1969, 12, 31, 23, 59, 59, 1).unwrap(),
    ];
    for date_time in samples {
        let text = date_time.to_string();
        assert_eq!(DateTime::parse(&text), Ok(date_time));
    }
}

#[test]
fn date_and_time_texts_read_back() {
    let date = Date::parse("2000-02-29").unwrap();
    assert_eq!(Date::parse(&date.to_string()), Ok(date));

    let time = Time::parse("07:08:09.010").unwrap();
    assert_eq!(Time::parse(&time.to_string()), Ok(time));
}

#[test]
fn timestamp_and_datestamp_texts_read_back() {
    let timestamp = Timestamp::from_millis(1_715_171_696_789);
    let parsed = DateTime::parse(&timestamp.to_string()).unwrap();
    assert_eq!(Timestamp::from(parsed), timestamp);

    let datestamp = Datestamp::from_days(-719_468);
    assert_eq!(datestamp.to_string(), "0000-03-01");
    let date = Date::parse(&datestamp.to_string()).unwrap();
    assert_eq!(Datestamp::from(date), datestamp);
}

#[test]
fn unix_millis_round_trip_through_date_time() {
    for millis in [
        0_i64,
        1,
        -1,
        86_399_999,
        86_400_000,
        -86_400_000,
        -86_400_001,
        951_782_400_000,
        253_402_300_799_999,
        -62_167_219_200_000,
        i64::MAX,
        i64::MIN,
    ] {
        let date_time = DateTime::from_unix_millis(millis);
        assert_eq!(Timestamp::from(date_time).as_i64(), millis);
    }
}

#[test]
fn extreme_instants_have_exact_fields() {
    let last = DateTime::from_unix_millis(i64::MAX);
    assert_eq!(last.to_string(), "292278994-08-17 07:12:55.807");

    let first = DateTime::from_unix_millis(i64::MIN);
    assert_eq!(
        (first.year(), first.month(), first.day()),
        (-292_275_055, 5, 16)
    );
    assert_eq!(
        (first.hour(), first.minute(), first.second(), first.millisecond()),
        (16, 47, 4, 192)
    );
}

#[test]
fn adding_then_subtracting_a_duration_restores_the_value() {
    let date_time = DateTime::new(2024, 2, 28, 22, 0, 0, 0).unwrap();
    let duration = Duration::from_hours(30);
    let shifted = date_time.add_duration(duration);
    assert_eq!(shifted.to_string(), "2024-03-01 04:00:00.000");
    assert_eq!(shifted.sub_duration(duration), date_time);

    let timestamp = Timestamp::from_millis(-5);
    assert_eq!((timestamp + Duration::from_secs(7)) - Duration::from_secs(7), timestamp);
}

#[test]
fn adding_a_difference_gives_the_later_value() {
    let a = DateTime::new(2026, 1, 1, 0, 0, 0, 0).unwrap();
    let b = DateTime::new(1999, 12, 31, 23, 59, 59, 999).unwrap();
    assert_eq!(b.add_duration(a - b), a);
    assert_eq!(a.add_duration(b - a), b);

    let t1 = Timestamp::from_millis(10);
    let t2 = Timestamp::from_millis(-3);
    assert_eq!(t2 + (t1 - t2), t1);
}

#[test]
fn time_day_millis_round_trip() {
    let time = Time::parse("23:59:59.999").unwrap();
    assert_eq!(time.as_day_millis(), 86_399_999);
    assert_eq!(Time::from_day_millis(86_399_999), Some(time));
    assert_eq!(Time::from_day_millis(0), Some(Time::parse("00:00").unwrap()));
    assert_eq!(Time::from_day_millis(86_400_000), None);
    assert_eq!(Time::from_day_millis(-1), None);
}

#[test]
fn date_time_to_datestamp_floors_to_the_day() {
    let date_time = DateTime::new(1969, 12, 31, 23, 0, 0, 0).unwrap();
    assert_eq!(Datestamp::from(date_time).as_i32(), -1);
    assert_eq!(Datestamp::from(date_time.date()).as_i32(), -1);
    assert_eq!(Datestamp::from_days(-1).to_date(), date_time.date());
}

#[test]
fn leap_years_follow_the_gregorian_rule() {
    assert!(DateTime::new(2000, 2, 29, 0, 0, 0, 0).is_ok());
    assert!(DateTime::new(2024, 2, 29, 0, 0, 0, 0).is_ok());
    assert!(DateTime::new(1900, 2, 29, 0, 0, 0, 0).is_err());
    assert!(DateTime::new(2023, 2, 29, 0, 0, 0, 0).is_err());
    assert!(DateTime::new(-4, 2, 29, 0, 0, 0, 0).is_ok());
    assert!(DateTime::new(-100, 2, 29, 0, 0, 0, 0).is_err());
    assert_eq!(
        Date::parse("2000-03-01").unwrap() - Date::parse("2000-02-28").unwrap(),
        Duration::from_days(2)
    );
    assert_eq!(
        Date::parse("1900-03-01").unwrap() - Date::parse("1900-02-28").unwrap(),
        Duration::from_days(1)
    );
}

#[test]
fn epoch_day_numbers_match_the_calendar() {
    let cases = [
        ("1970-01-01", 0),
        ("1970-01-02", 1),
        ("1969-12-31", -1),
        ("2000-01-01", 10_957),
        ("2000-03-01", 11_017),
        ("1600-03-01", -135_080),
        ("0000-01-01", -719_528),
    ];
    for (text, days) in cases {
        assert_eq!(Datestamp::from(Date::parse(text).unwrap()).as_i32(), days, "{text}");
        assert_eq!(Datestamp::from_days(days).to_string(), text);
    }
}

#[test]
fn short_date_time_texts_read_back_without_the_dropped_fields() {
    let samples = [
        DateTime::new(2026, 5, 8, 12, 34, 56, 789).unwrap(),
        DateTime::new(0, 1, 1, 0, 0, 0, 0).unwrap(),
        DateTime::new(9999, 12, 31, 23, 59, 59, 999).unwrap(),
    ];
    for dt in samples {
        assert_eq!(
            DateTime::parse(&dt.to_string_secs()),
            DateTime::new(dt.year(), dt.month(), dt.day(), dt.hour(), dt.minute(), dt.second(), 0)
        );
        assert_eq!(
            DateTime::parse(&dt.to_string_mins()),
            DateTime::new(dt.year(), dt.month(), dt.day(), dt.hour(), dt.minute(), 0, 0)
        );
    }
}

#[test]
fn far_years_round_trip_through_unix_millis() {
    for date_time in [
        DateTime::new(200_000_000, 12, 31, 23, 59, 59, 999).unwrap(),
        DateTime::new(-200_000_000, 1, 1, 0, 0, 0, 0).unwrap(),
    ] {
        let millis = Timestamp::from(date_time).as_i64();
        assert_eq!(DateTime::from_unix_millis(millis), date_time);
    }
}
