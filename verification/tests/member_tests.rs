use timecard::clock::{Clock, Range, Time};
use timecard::member::{collect_from_csv, Member, MemberKind};
use timecard::CoreError;

#[test]
fn classification_tags() {
    let kind = |s: &str| MemberKind::from_text(s);
    assert_eq!(kind("LUC社員"), MemberKind::FullTime);
    assert_eq!(kind("LUC準社員"), MemberKind::Associate);
    assert_eq!(kind("役員"), MemberKind::FullTime);
    assert_eq!(kind("A"), MemberKind::PartTimeA);
    assert_eq!(kind("B"), MemberKind::PartTimeB);
    assert_eq!(kind("C"), MemberKind::PartTimeC);
    assert_eq!(kind("D"), MemberKind::PartTimeD);
    assert_eq!(kind("何か"), MemberKind::Unknown);
    assert_eq!(kind(""), MemberKind::Unknown);
}

#[test]
fn nominal_starts() {
    let m = |k: MemberKind| Member::new(1, String::new(), k, String::new()).start_at();
    assert_eq!(m(MemberKind::FullTime), Clock::new(8, 30));
    assert_eq!(m(MemberKind::Associate), Clock::new(8, 30));
    assert_eq!(m(MemberKind::PartTimeA), Clock::new(9, 0));
    assert_eq!(m(MemberKind::Unknown), Clock::new(9, 0));
}

#[test]
fn break_window_tables() {
    let full = MemberKind::FullTime.force_breaks();
    assert_eq!(full.len(), 3);
    assert_eq!(full[0], Range::new(Clock::new(10, 30), Clock::new(10, 40)));
    assert_eq!(full[1], Range::new(Clock::new(15, 0), Clock::new(15, 15)));
    assert_eq!(full[2], Range::new(Clock::new(17, 15), Clock::new(17, 30)));
    assert_eq!(full[0].abs(), Time::new(0, 10));
    assert_eq!(MemberKind::Associate.force_breaks().len(), 1);
    assert_eq!(MemberKind::PartTimeD.force_breaks().len(), 3);
    assert!(MemberKind::Unknown.force_breaks().is_empty());
}

#[test]
fn break_marks() {
    assert_eq!(MemberKind::FullTime.print_force_breaks(), "1,,1,");
    assert_eq!(MemberKind::PartTimeB.print_force_breaks(), ",1,,1");
    assert_eq!(MemberKind::Unknown.print_force_breaks(), ",,,");
}

#[test]
fn from_strs_reads_a_roster_row() {
    let m = Member::from_strs("12", "佐藤", "LUC準社員", "X社").unwrap();
    assert_eq!(m.id, 12);
    assert_eq!(m.name, "佐藤");
    assert_eq!(m.member_type, MemberKind::Associate);
    assert_eq!(m.from, "X社");

    // An unrecognized tag is the default classification, not a failure.
    let odd = Member::from_strs("3", "", "???", "").unwrap();
    assert_eq!(odd.member_type, MemberKind::Unknown);

    assert_eq!(Member::from_strs("x", "n", "A", "").unwrap_err(), CoreError::BadFormat);
}

#[test]
fn roster_collection_drops_short_or_unreadable_rows() {
    let row = |fields: &[&str]| -> Vec<String> {
        fields.iter().map(|f| String::from(*f)).collect()
    };
    let rows = vec![
        row(&["1", "A", "LUC社員", "X"]),
        row(&["short", "only"]),
        row(&["nope", "B", "A", "Y"]),
        row(&["2", "C", "D"]),
    ];
    let roster = collect_from_csv(&rows);
    assert_eq!(roster.len(), 2);
    assert_eq!(roster[0].id, 1);
    assert_eq!(roster[0].member_type, MemberKind::FullTime);
    assert_eq!(roster[1].id, 2);
    assert_eq!(roster[1].from, "");
}
