use tokistamp::{Date, DateTime, ParseErrorKind, Time};

fn kind_of(text: &str) -> ParseErrorKind {
    DateTime::parse(text).unwrap_err().kind()
}

#[test]
fn parses_rfc3339_utc_forms() {
    let whole = DateTime::parse("2025-01-01T00:00:00Z").unwrap();
    assert_eq!(whole, DateTime::new(2025, 1, 1, 0, 0, 0, 0).unwrap());

    let fraction = DateTime::parse("2025-06-30T12:34:56.789Z").unwrap();
    assert_eq!(fraction, DateTime::new(2025, 6, 30, 12, 34, 56, 789).unwrap());
}

#[test]
fn rejects_malformed_rfc3339_texts() {
    assert_eq!(kind_of("2025-1-01T00:00:00Z"), ParseErrorKind::Rfc3339Format);
    assert_eq!(kind_of("2025-01-01T00:00Z"), ParseErrorKind::Rfc3339Format);
    assert_eq!(kind_of("2025-01-01T00:00:00,123Z"), ParseErrorKind::Rfc3339Format);
    assert_eq!(kind_of("2025-01-01T00:00:00.1234Z"), ParseErrorKind::Rfc3339Format);
}

#[test]
fn reports_each_date_error_kind() {
    assert_eq!(kind_of("2025-01-0\u{e9}"), ParseErrorKind::DateNotAscii);
    assert_eq!(kind_of("2025-1-1"), ParseErrorKind::DateFormat);
    assert_eq!(kind_of("2025/01-01"), ParseErrorKind::Separator);
    assert_eq!(kind_of("2025-01/01"), ParseErrorKind::Separator);
    assert_eq!(kind_of("20a5-01-01"), ParseErrorKind::YearDigits);
    assert_eq!(kind_of("2025-0a-01"), ParseErrorKind::MonthDigits);
    assert_eq!(kind_of("2025-01-0a"), ParseErrorKind::DayDigits);
    assert_eq!(kind_of("2025-13-01"), ParseErrorKind::MonthRange);
    assert_eq!(kind_of("2025-00-01"), ParseErrorKind::MonthRange);
    assert_eq!(kind_of("2025-04-31"), ParseErrorKind::DayRange);
    assert_eq!(kind_of("2025-04-00"), ParseErrorKind::DayRange);
}

#[test]
fn reports_each_time_error_kind() {
    assert_eq!(kind_of("12:3\u{e9}"), ParseErrorKind::TimeNotAscii);
    assert_eq!(kind_of("12:345"), ParseErrorKind::TimeFormat);
    assert_eq!(kind_of("12:00Z"), ParseErrorKind::TimeFormat);
    assert_eq!(kind_of("12-00"), ParseErrorKind::DateFormat);
    assert_eq!(kind_of("12.00"), ParseErrorKind::UnsupportedFormat);
    assert_eq!(kind_of("12:00.00"), ParseErrorKind::Separator);
    assert_eq!(kind_of("12:00:00,000"), ParseErrorKind::Separator);
    assert_eq!(kind_of("1a:00"), ParseErrorKind::HourDigits);
    assert_eq!(kind_of("10:0a"), ParseErrorKind::MinuteDigits);
    assert_eq!(kind_of("10:00:0a"), ParseErrorKind::SecondDigits);
    assert_eq!(kind_of("10:00:00.0a0"), ParseErrorKind::MillisecondDigits);
    assert_eq!(kind_of("24:00"), ParseErrorKind::HourRange);
    assert_eq!(kind_of("10:60"), ParseErrorKind::MinuteRange);
    assert_eq!(kind_of("10:00:60"), ParseErrorKind::SecondRange);
    assert_eq!(
        DateTime::new(1970, 1, 1, 0, 0, 0, 1000).unwrap_err().kind(),
        ParseErrorKind::MillisecondRange
    );
}

#[test]
fn date_errors_come_before_time_errors() {
    assert_eq!(kind_of("2025-13-01 25:00"), ParseErrorKind::MonthRange);
    assert_eq!(kind_of("2025-12-01 25:00"), ParseErrorKind::HourRange);
    assert_eq!(kind_of("2025-12-01 "), ParseErrorKind::TimeFormat);
    assert_eq!(kind_of(" 10:00"), ParseErrorKind::DateFormat);
}

#[test]
fn rejects_texts_without_date_or_time_marks() {
    assert_eq!(kind_of(""), ParseErrorKind::UnsupportedFormat);
    assert_eq!(kind_of("hello"), ParseErrorKind::UnsupportedFormat);
    assert_eq!(
        Date::parse("today").unwrap_err().kind(),
        ParseErrorKind::UnsupportedFormat
    );
    assert_eq!(
        Time::parse("noon").unwrap_err().kind(),
        ParseErrorKind::UnsupportedFormat
    );
}

#[test]
fn error_messages_describe_the_problem() {
    assert_eq!(
        DateTime::parse("2025-13-01").unwrap_err().message(),
        "month must be in 1..=12"
    );
    assert_eq!(
        DateTime::parse("2025-02-30").unwrap_err().message(),
        "day is out of range for month"
    );
    assert_eq!(
        DateTime::parse("x").unwrap_err().message(),
        "unsupported date time format"
    );
    assert_eq!(
        DateTime::parse("2025-01-01T00:00Z").unwrap_err().message(),
        "RFC 3339 date time must use yyyy-MM-ddTHH:mm:ssZ or yyyy-MM-ddTHH:mm:ss.SSSZ format"
    );
    assert_eq!(
        DateTime::parse("1a:00").unwrap_err().message(),
        "hour must contain digits"
    );
    assert_eq!(
        ParseErrorKind::MillisecondRange.message(),
        "millisecond must be in 0..=999"
    );
    assert_eq!(
        ParseErrorKind::Separator.message(),
        "date time separator is invalid"
    );
}

#[test]
fn narrowing_parsers_accept_every_date_time_form() {
    assert_eq!(
        Date::parse("2025-06-30T12:34:56Z").unwrap(),
        Date::parse("2025-06-30").unwrap()
    );
    assert_eq!(
        Time::parse("2025-06-30T12:34:56.789Z").unwrap(),
        Time::parse("12:34:56.789").unwrap()
    );
    assert_eq!(Time::parse("2025-06-30").unwrap(), Time::parse("00:00").unwrap());
    assert_eq!(Date::parse("12:00").unwrap(), Date::parse("1970-01-01").unwrap());
}
