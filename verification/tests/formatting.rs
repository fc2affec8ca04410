use tokistamp::{Date, DateTime, Datestamp, Duration, Time, Timestamp};

#[test]
fn duration_text_lists_each_non_zero_part() {
    let cases = [
        (0, "0ms"),
        (1, "1ms"),
        (-1, "-1ms"),
        (1_000, "1s"),
        (60_000, "1m"),
        (3_600_000, "1h"),
        (86_400_000, "1d"),
        (86_400_001, "1d 1ms"),
        (90_061_001, "1d 1h 1m 1s 1ms"),
        (-90_061_001, "-1d 1h 1m 1s 1ms"),
        (3_599_999, "59m 59s 999ms"),
        (
            i64::MAX,
            "106751991167d 7h 12m 55s 807ms",
        ),
        (
            i64::MIN,
            "-106751991167d 7h 12m 55s 808ms",
        ),
    ];
    for (millis, text) in cases {
        assert_eq!(Duration::from_millis(millis).to_string(), text);
    }
}

#[test]
fn duration_constructors_scale_exactly() {
    assert_eq!(Duration::from_secs(-3).as_millis(), -3_000);
    assert_eq!(Duration::from_mins(2).as_millis(), 120_000);
    assert_eq!(Duration::from_hours(-1).as_millis(), -3_600_000);
    assert_eq!(Duration::from_days(106_751_991_167).as_millis(), 9_223_372_036_828_800_000);
    assert_eq!(
        Duration::from_millis(5) + Duration::from_millis(-7),
        Duration::from_millis(-2)
    );
    assert_eq!(
        Duration::from_millis(5) - Duration::from_millis(-7),
        Duration::from_millis(12)
    );
}

#[test]
fn date_time_texts_pad_each_field() {
    let date_time = DateTime::new(7, 1, 2, 3, 4, 5, 6).unwrap();
    assert_eq!(date_time.to_string(), "0007-01-02 03:04:05.006");
    assert_eq!(date_time.to_string_secs(), "0007-01-02 03:04:05");
    assert_eq!(date_time.to_string_mins(), "0007-01-02 03:04");
    assert_eq!(date_time.date().to_string(), "0007-01-02");
    assert_eq!(date_time.time().to_string(), "03:04:05.006");
    assert_eq!(date_time.time().to_string_secs(), "03:04:05");
    assert_eq!(date_time.time().to_string_mins(), "03:04");
}

#[test]
fn negative_years_print_with_a_sign() {
    let date_time = DateTime::new(-1, 12, 31, 23, 59, 59, 999).unwrap();
    assert_eq!(date_time.to_string(), "-001-12-31 23:59:59.999");
    let date_time = DateTime::new(-12345, 6, 7, 8, 9, 10, 11).unwrap();
    assert_eq!(date_time.to_string(), "-12345-06-07 08:09:10.011");
    assert_eq!(Date::parse("0000-01-01").unwrap().to_string(), "0000-01-01");
}

#[test]
fn stamps_print_like_their_calendar_values() {
    assert_eq!(Timestamp::from_millis(-1).to_string(), "1969-12-31 23:59:59.999");
    assert_eq!(Timestamp::from_millis(0).to_string(), "1970-01-01 00:00:00.000");
    assert_eq!(Datestamp::from_days(-1).to_string(), "1969-12-31");
    assert_eq!(Datestamp::from_days(i32::MAX).to_string(), "5881580-07-11");
    assert_eq!(Datestamp::from_days(i32::MIN).to_string(), "-5877641-06-23");
}

#[test]
fn now_reads_the_system_clock() {
    let before = Timestamp::now().as_i64();
    let date_time = DateTime::now();
    let after = Timestamp::now().as_i64();
    let read = Timestamp::from(date_time).as_i64();
    assert!(before <= read && read <= after);
    assert!(Datestamp::now().as_i32() >= 19_000);
    assert!(Date::now().year() >= 2024);
    assert!(Time::now().hour() <= 23);
}
