use timecard::cell::Cell;
use timecard::clock::{Clock, Date, DayKind, Month, Time};
use timecard::member::{Member, MemberKind};
use timecard::record::Record;
use timecard::total::Total;
use timecard::CoreError;

fn associate(id: u16, name: &str) -> Member {
    Member::new(id, String::from(name), MemberKind::Associate, String::new())
}

fn day_record(member: Member, left: Clock) -> Record {
    Record {
        month: Cell::Data(Month::new(2024, 5)),
        member: Cell::Data(member),
        date: Cell::Data(Date::new(5, 1).annotate(&[])),
        day: Cell::Data(DayKind::Mon),
        came_at: Cell::Data(Clock::new(8, 40)),
        left_at: Cell::Data(left),
        break_time: Cell::Data(Time::new(0, 45)),
        work_time: Cell::Data(Time::new(8, 0)),
        remarks: Cell::NoData,
        days: Cell::NoData,
    }
}

fn base_total(member: Member) -> Total {
    Total {
        member: Cell::Data(member),
        nominal_work_days: Cell::Data(20),
        nominal_work_time: Cell::Data(Time::new(160, 0)),
        work_days: Cell::Data(21),
        total_work_time: Cell::Data(Time::new(168, 0)),
        others: vec![],
        rounded_work_time: Cell::Data(Time::new(0, 0)),
        rounded_over_work_time: Cell::Data(Time::new(0, 0)),
    }
}

#[test]
fn two_records_fold_to_their_sum() {
    // Rounded work times 6:45 and 7:30 fold to 14:15.
    let r1 = day_record(associate(7, "A"), Clock::new(17, 20));
    let r2 = day_record(associate(7, "A"), Clock::new(18, 5));
    assert_eq!(r1.rounded_work_time().unwrap(), Time::new(6, 45));
    assert_eq!(r2.rounded_work_time().unwrap(), Time::new(7, 30));
    let t = base_total(associate(7, "A")).total(vec![&r1, &r2]).unwrap();
    assert_eq!(t.rounded_work_time.data().unwrap(), Time::new(14, 15));
    assert_eq!(t.rounded_over_work_time.data().unwrap(), Time::new(0, 0));
}

#[test]
fn failed_record_contributes_zero() {
    let r1 = day_record(associate(7, "A"), Clock::new(17, 20));
    let mut r2 = day_record(associate(7, "A"), Clock::new(18, 5));
    r2.came_at = Cell::NoData;
    let t = base_total(associate(7, "A")).total(vec![&r1, &r2]).unwrap();
    assert_eq!(t.rounded_work_time.data().unwrap(), Time::new(6, 45));
}

#[test]
fn empty_fold_keeps_zero() {
    let t = base_total(associate(7, "A")).total(vec![]).unwrap();
    assert_eq!(t.rounded_work_time.data().unwrap(), Time::new(0, 0));
    assert_eq!(t.work_days.data().unwrap(), 21);
}

#[test]
fn absent_accumulator_stays_absent() {
    let r1 = day_record(associate(7, "A"), Clock::new(17, 20));
    let t = Total::empty().total(vec![&r1]).unwrap();
    assert!(t.rounded_work_time.data().is_err());
    assert!(t.member.data().is_err());
}

#[test]
fn from_strs_reads_the_payroll_row() {
    let roster = vec![associate(12, "C")];
    let t = Total::from_strs(
        &roster,
        "12",
        "20",
        "160:00",
        "21",
        "168:30",
        vec!["1:30", "x"],
    )
    .unwrap();
    assert_eq!(t.member.peek().unwrap().id, 12);
    assert_eq!(t.nominal_work_days.data().unwrap(), 20);
    assert_eq!(t.nominal_work_time.data().unwrap(), Time::new(160, 0));
    assert_eq!(t.total_work_time.data().unwrap(), Time::new(168, 30));
    assert_eq!(t.others, vec![String::from("1:30"), String::from("x")]);
    assert_eq!(t.rounded_work_time.data().unwrap(), Time::new(0, 0));

    let missing = Total::from_strs(&roster, "99", "", "", "", "", vec![]);
    assert_eq!(missing.unwrap_err(), CoreError::MemberNotFound);
    let bad = Total::from_strs(&roster, "", "", "", "", "", vec![]);
    assert_eq!(bad.unwrap_err(), CoreError::BadFormat);
}

#[test]
fn collect_keeps_resolvable_rows_in_order() {
    let roster = vec![associate(1, "A"), associate(2, "B")];
    let row = |id: &str| -> Vec<String> {
        vec![
            String::from(id),
            String::from("20"),
            String::from("160:00"),
            String::from("21"),
            String::from("168:00"),
            String::from("7:30"),
            String::from("tail"),
        ]
    };
    let rows = vec![row("2"), row("77"), row("1")];
    let totals = timecard::total::collect_from_csv(&rows, &roster);
    assert_eq!(totals.len(), 2);
    assert_eq!(totals[0].member.peek().unwrap().id, 2);
    assert_eq!(totals[1].member.peek().unwrap().id, 1);
    assert_eq!(totals[0].others, vec![String::from("7:30"), String::from("tail")]);
}
