use timecard::clock::{Clock, Date, DateKind, DayKind, Month, Time};
use timecard::CoreError;

#[test]
fn clock_from_text_reads_hours_and_minutes() {
    assert_eq!(Clock::from_text("9:4").unwrap(), Clock::new(9, 4));
    assert_eq!(Clock::from_text("23:128").unwrap(), Clock::new(1, 8));
    // Anything past the second separator is ignored, as a third field.
    assert_eq!(Clock::from_text("9:4:59").unwrap(), Clock::new(9, 4));
    assert_eq!(Clock::from_text("").unwrap_err(), CoreError::BadFormat);
    assert_eq!(Clock::from_text("9").unwrap_err(), CoreError::BadFormat);
    assert_eq!(Clock::from_text("a:4").unwrap_err(), CoreError::BadFormat);
    assert_eq!(Clock::from_text("9:b").unwrap_err(), CoreError::BadFormat);
    assert_eq!(Clock::from_text("9:").unwrap_err(), CoreError::BadFormat);
}

#[test]
fn time_from_text_keeps_large_hours() {
    assert_eq!(Time::from_text("160:00").unwrap(), Time::new(160, 0));
    assert_eq!(Time::from_text("23:128").unwrap(), Time::new(25, 8));
    assert_eq!(Time::from_text("0:45").unwrap(), Time::new(0, 45));
    assert_eq!(Time::from_text("abc").unwrap_err(), CoreError::BadFormat);
}

#[test]
fn month_and_date_from_text() {
    let m = Month::from_text("2024/05").unwrap();
    assert_eq!((m.year, m.month), (2024, 5));
    let d = Date::from_text("05/01").unwrap();
    assert_eq!((d.raw_date.month, d.raw_date.date), (5, 1));
    assert!(matches!(d.date_type, DateKind::Unknown));
    assert_eq!(Date::from_text("5-1").unwrap_err(), CoreError::BadFormat);
    // A day number too large for a calendar byte is refused.
    assert_eq!(Date::from_text("5/999").unwrap_err(), CoreError::BadFormat);
}

#[test]
fn weekday_from_text_defaults_to_unknown() {
    assert_eq!(DayKind::from_text("日"), DayKind::Sun);
    assert_eq!(DayKind::from_text("月"), DayKind::Mon);
    assert_eq!(DayKind::from_text("土"), DayKind::Sat);
    assert_eq!(DayKind::from_text("火曜"), DayKind::Unknown);
    assert_eq!(DayKind::from_text(""), DayKind::Unknown);
}

#[test]
fn numbers_overflowing_their_field_are_refused() {
    assert_eq!(Clock::from_text("65536:0").unwrap_err(), CoreError::BadFormat);
    assert_eq!(Clock::from_text("65535:0").unwrap(), Clock::new(65535 % 24, 0));
    assert_eq!(Time::from_text("65535:59").unwrap(), Time::new(65535, 59));
    assert_eq!(Time::from_text("65535:60").unwrap_err(), CoreError::BadFormat);
}
