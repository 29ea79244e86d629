use timecard::cell::Cell;
use timecard::clock::{Clock, Date, DayKind, Month, Time};
use timecard::member::{Member, MemberKind};
use timecard::record::{Record, get_csv_headings, get_daily_csv_headings};
use timecard::total::Total;
use timecard::CoreError;

fn sample_record() -> Record {
    Record {
        month: Cell::Data(Month::new(2024, 5)),
        member: Cell::Data(Member::new(
            7,
            String::from("佐藤"),
            MemberKind::Associate,
            String::from("X社"),
        )),
        date: Cell::Data(Date::new(5, 1).annotate(&[])),
        day: Cell::Data(DayKind::Mon),
        came_at: Cell::Data(Clock::new(8, 40)),
        left_at: Cell::Data(Clock::new(17, 20)),
        break_time: Cell::Data(Time::new(0, 45)),
        work_time: Cell::Data(Time::new(8, 0)),
        remarks: Cell::Data(String::from("x")),
        days: Cell::Data(21),
    }
}

#[test]
fn rounded_ledger_line() {
    let line = sample_record().export_rounded_to_csv().unwrap();
    assert_eq!(
        line,
        "2024/05,7,佐藤,05/01,平日,月,08:30,08:40,17:20,0.75,8.00,8:00,6.75,0.00,x,21"
    );
}

#[test]
fn rounded_ledger_prints_zero_for_failed_figures() {
    let mut r = sample_record();
    r.came_at = Cell::NoData;
    let line = r.export_rounded_to_csv().unwrap();
    assert_eq!(
        line,
        "2024/05,7,佐藤,05/01,平日,月,08:30,,17:20,0.75,8.00,8:00,0.00,0.00,x,21"
    );
}

#[test]
fn rounded_ledger_needs_date_and_member() {
    let mut r = sample_record();
    r.date = Cell::NoData;
    assert_eq!(r.export_rounded_to_csv().unwrap_err(), CoreError::MissingData);
    let mut r = sample_record();
    r.member = Cell::NoData;
    assert_eq!(r.export_rounded_to_csv().unwrap_err(), CoreError::MissingData);
}

#[test]
fn daily_summary_line() {
    let line = sample_record().export_rounded_to_daily_csv(false).unwrap();
    assert_eq!(line, ",05/01,7,佐藤,X社,出勤,1,,08:30,,1,,1,17:20,8:00,x");
    let starred = sample_record().export_rounded_to_daily_csv(true).unwrap();
    assert_eq!(starred, "*,05/01,7,佐藤,X社,出勤,1,,08:30,,1,,1,17:20,8:00,x");
}

#[test]
fn daily_summary_marks_absence() {
    let mut r = sample_record();
    r.came_at = Cell::NoData;
    let line = r.export_rounded_to_daily_csv(false).unwrap();
    assert_eq!(line, ",05/01,7,佐藤,X社,出勤,,1,08:30,,1,,1,17:20,8:00,x");
}

#[test]
fn totals_line_remaps_colons_in_the_tail() {
    let t = Total {
        member: Cell::Data(Member::new(
            7,
            String::from("佐藤"),
            MemberKind::Associate,
            String::new(),
        )),
        nominal_work_days: Cell::Data(20),
        nominal_work_time: Cell::Data(Time::new(160, 0)),
        work_days: Cell::Data(21),
        total_work_time: Cell::Data(Time::new(168, 30)),
        others: vec![String::from("1:30"), String::from("x")],
        rounded_work_time: Cell::Data(Time::new(14, 15)),
        rounded_over_work_time: Cell::Data(Time::new(0, 0)),
    };
    assert_eq!(
        t.export_to_csv(),
        "7,佐藤,20,160.00,21,168.50,14.25,0.00,1.30,x"
    );
}

#[test]
fn empty_total_exports_empty_fields() {
    assert_eq!(Total::empty().export_to_csv(), ",,,,,,");
}

#[test]
fn headings_are_fixed() {
    assert!(get_csv_headings().starts_with("年月,社員番号"));
    assert_eq!(get_csv_headings().split(',').count(), 16);
    assert_eq!(get_daily_csv_headings().split(',').count(), 16);
    assert!(timecard::total::get_csv_headings().starts_with("社員コード"));
}

#[test]
fn time_text_has_two_decimal_places() {
    assert_eq!(Time::new(8, 15).to_text(), "8.25");
    assert_eq!(Time::new(8, 0).to_text(), "8.00");
    assert_eq!(Time::new(0, 45).to_text(), "0.75");
    assert_eq!(Time::new(6, 20).to_text(), "6.33");
    assert_eq!(Time::new(25, 8).to_text(), "25.13");
}

#[test]
fn clock_text_is_zero_padded() {
    assert_eq!(Clock::new(8, 5).to_text(), "08:05");
    assert_eq!(Clock::new(0, 0).to_text(), "00:00");
    assert_eq!(Clock::new(23, 59).to_text(), "23:59");
}
