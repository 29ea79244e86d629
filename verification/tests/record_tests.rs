use timecard::cell::Cell;
use timecard::clock::{Clock, Date, DayKind, Month, Time};
use timecard::member::{Member, MemberKind};
use timecard::record::Record;
use timecard::CoreError;

fn associate(id: u16, name: &str, agency: &str) -> Member {
    Member::new(id, String::from(name), MemberKind::Associate, String::from(agency))
}

fn day_record(member: Member, date: Date, came: Clock, left: Clock, brk: Time) -> Record {
    Record {
        month: Cell::Data(Month::new(2024, 5)),
        member: Cell::Data(member),
        date: Cell::Data(date),
        day: Cell::Data(DayKind::Mon),
        came_at: Cell::Data(came),
        left_at: Cell::Data(left),
        break_time: Cell::Data(brk),
        work_time: Cell::Data(Time::new(8, 0)),
        remarks: Cell::Data(String::from("x")),
        days: Cell::Data(21),
    }
}

#[test]
fn standard_workday_scenario() {
    // Nominal start 08:30, one mandatory break 10:30-10:40, arrival 08:40,
    // departure 17:20, declared break 0:45, on a working day.
    let m = associate(7, "A", "");
    let date = Date::new(5, 1).annotate(&[]);
    let r = day_record(m, date, Clock::new(8, 40), Clock::new(17, 20), Time::new(0, 45));
    // 08:40 rounds up to 08:45; 17:20 rounds down to 17:15;
    // (08:45-12:10) + (13:00-17:15) = 3:25 + 4:15 = 7:40; the mandatory
    // break sits inside the attendance span, so only 0:45 comes off;
    // 6:55 floors to 6:45; within the nominal eight hours.
    assert_eq!(r.rounded_work_time().unwrap(), Time::new(6, 45));
    assert_eq!(r.over_work_time().unwrap(), Time::new(0, 0));
}

#[test]
fn holiday_overtime_is_full_work_time() {
    let m = associate(7, "A", "");
    let date = Date::new(5, 1).annotate(&[Date::new(5, 1)]);
    let r = day_record(m, date, Clock::new(8, 40), Clock::new(19, 50), Time::new(0, 45));
    // 19:50 floors to 19:45; (08:45-12:10) + (13:00-19:45) = 3:25 + 6:45
    // = 10:10; less 0:45 is 9:25; floors to 9:15. The nominal day on a
    // holiday is 0:00, so overtime equals the whole rounded work time.
    let worked = r.rounded_work_time().unwrap();
    assert_eq!(worked, Time::new(9, 15));
    assert_eq!(r.over_work_time().unwrap(), worked);
}

#[test]
fn missed_window_is_deducted_anyway() {
    // Departure at 10:00 leaves the 10:30-10:40 window outside the
    // attendance span; the mandatory break counts as taken regardless,
    // so its ten minutes join the declared break in the deduction.
    let m = associate(7, "A", "");
    let date = Date::new(5, 1).annotate(&[]);
    let r = day_record(m, date, Clock::new(8, 30), Clock::new(10, 0), Time::new(0, 45));
    assert_eq!(r.break_time().unwrap(), Time::new(0, 55));
    // 08:30 on time; morning 1:30; afternoon empty; less 0:55 leaves
    // 0:35; floors to 0:30.
    assert_eq!(r.rounded_work_time().unwrap(), Time::new(0, 30));
}

#[test]
fn noon_departure_ends_the_morning_at_its_floor() {
    // A raw departure of 12:12 floors to 12:00: the morning runs to the
    // earlier of that effective end and the 12:10 lunch boundary, so it
    // ends at 12:00.
    let m = Member::new(5, String::from("E"), MemberKind::Unknown, String::new());
    let date = Date::new(5, 1).annotate(&[]);
    let r = day_record(m, date, Clock::new(8, 40), Clock::new(12, 12), Time::new(0, 10));
    // Nominal start 9:00, arrival earlier, so on time; morning
    // 9:00-12:00 = 3:00; no mandatory windows; less 0:10 leaves 2:50;
    // floors to 2:45.
    assert_eq!(r.rounded_work_time().unwrap(), Time::new(2, 45));
}

#[test]
fn overtime_needs_annotation() {
    let m = associate(7, "A", "");
    let r = day_record(m, Date::new(5, 1), Clock::new(9, 0), Clock::new(17, 0), Time::new(0, 0));
    assert_eq!(r.over_work_time().unwrap_err(), CoreError::NotAnnotated);
}

#[test]
fn missing_fields_fail_the_computation() {
    let m = associate(7, "A", "");
    let date = Date::new(5, 1).annotate(&[]);
    let mut r = day_record(m, date, Clock::new(9, 0), Clock::new(17, 0), Time::new(0, 0));
    r.came_at = Cell::NoData;
    assert_eq!(r.rounded_work_time().unwrap_err(), CoreError::MissingData);
    assert_eq!(r.over_work_time().unwrap_err(), CoreError::MissingData);
}

#[test]
fn full_time_missed_windows_grow_the_deduction() {
    // A full-time employee who leaves at 14:00 misses the 15:00 and 17:15
    // windows: each adds its quarter hour to the declared break.
    let m = Member::new(3, String::from("B"), MemberKind::FullTime, String::new());
    let date = Date::new(5, 2).annotate(&[]);
    let r = day_record(m, date, Clock::new(8, 30), Clock::new(14, 0), Time::new(0, 30));
    assert_eq!(r.break_time().unwrap(), Time::new(1, 0));
    // Morning 08:30-12:10 = 3:40; afternoon 13:00-14:00 = 1:00; less the
    // hour of breaks leaves 3:40; floors to 3:30.
    assert_eq!(r.rounded_work_time().unwrap(), Time::new(3, 30));
}

#[test]
fn from_strs_resolves_member_or_drops() {
    let roster = vec![associate(12, "C", "agency")];
    let offs = vec![Date::new(5, 5)];
    let ok = Record::from_strs(
        &roster, &offs, "2024/05", "12", "05/05", "月", "8:40", "17:20", "0:45", "8:00", "memo",
        "21",
    )
    .unwrap();
    assert_eq!(ok.member.peek().unwrap().id, 12);
    assert!(matches!(
        ok.date.peek().unwrap().date_type,
        timecard::clock::DateKind::Off
    ));
    assert_eq!(ok.came_at.peek().unwrap(), &Clock::new(8, 40));
    assert_eq!(ok.break_time.peek().unwrap(), &Time::new(0, 45));
    assert_eq!(ok.days.peek().unwrap(), &21);

    let unknown = Record::from_strs(
        &roster, &offs, "2024/05", "99", "05/05", "月", "8:40", "17:20", "0:45", "8:00", "", "21",
    );
    assert_eq!(unknown.unwrap_err(), CoreError::MemberNotFound);

    let unreadable = Record::from_strs(
        &roster, &offs, "2024/05", "xx", "05/05", "月", "8:40", "17:20", "0:45", "8:00", "", "21",
    );
    assert_eq!(unreadable.unwrap_err(), CoreError::BadFormat);
}

#[test]
fn from_strs_tolerates_bad_fields() {
    let roster = vec![associate(12, "C", "")];
    let r = Record::from_strs(
        &roster, &[], "bogus", "12", "??", "??", "not-a-clock", "", "", "", "", "zz",
    )
    .unwrap();
    assert!(matches!(r.month, Cell::NoData));
    assert!(matches!(r.date, Cell::NoData));
    assert!(matches!(r.came_at, Cell::NoData));
    // An unreadable declared break defaults to zero rather than absence.
    assert_eq!(r.break_time.peek().unwrap(), &Time::new(0, 0));
    assert!(matches!(r.days, Cell::NoData));
    assert!(matches!(r.day.peek().unwrap(), DayKind::Unknown));
}

#[test]
fn collect_drops_unresolvable_rows() {
    let roster = vec![associate(1, "A", ""), associate(2, "B", "")];
    let row = |id: &str| -> Vec<String> {
        vec![
            String::from("2024/05"),
            String::from(id),
            String::from("skip"),
            String::from("05/01"),
            String::from("月"),
            String::from("8:40"),
            String::from("17:20"),
            String::from("0:45"),
            String::from("8:00"),
            String::from(""),
            String::from("21"),
        ]
    };
    let rows = vec![row("1"), row("9"), row("2"), row("oops")];
    let records = timecard::record::collect_from_csv(&rows, &roster, &[]);
    assert_eq!(records.len(), 2);
    assert_eq!(records[0].member.peek().unwrap().id, 1);
    assert_eq!(records[1].member.peek().unwrap().id, 2);
}
