use timecard::cell::Cell;
use timecard::clock::{Clock, Date, DateKind, Range, Time};
use timecard::CoreError;

#[test]
fn clock_new_stays_inside_the_day() {
    for h in 0..25u16 {
        for m in 0..200u16 {
            if h == 24 && m >= 60 {
                continue;
            }
            let c = Clock::new(h, m);
            assert!(c.hours < 24, "hours {} out of range for new({}, {})", c.hours, h, m);
            assert!(c.minutes < 60);
            let expect = (60 * (h as u32) + (m as u32)) % 1440;
            assert_eq!(60 * (c.hours as u32) + (c.minutes as u32), expect);
        }
    }
    assert_eq!(Clock::new(9, 64), Clock::new(10, 4));
    assert_eq!(Clock::new(24, 32), Clock::new(0, 32));
}

#[test]
fn time_new_keeps_hours_unwrapped() {
    for h in 0..30u16 {
        for m in 0..200u16 {
            let t = Time::new(h, m);
            assert!(t.minutes < 60);
            assert_eq!(60 * (t.hours as u32) + (t.minutes as u32), 60 * (h as u32) + (m as u32));
        }
    }
    let t = Time::new(24, 32);
    assert_eq!(t.hours, 24);
    assert_eq!(t.minutes, 32);
}

#[test]
fn rounding_on_boundary_is_identity() {
    for q in 0..96u16 {
        let c = Clock::new(q / 4, (q % 4) * 15);
        assert_eq!(c.round_up(), c);
        assert_eq!(c.round_down(), c);
    }
    for q in 0..200u16 {
        let t = Time::new(q / 4, (q % 4) * 15);
        assert_eq!(t.round_up(), t);
        assert_eq!(t.round_down(), t);
    }
}

#[test]
fn sub_saturates_at_zero() {
    assert_eq!(Time::new(0, 0).sub(&Time::new(1, 0)), Time::new(0, 0));
    assert_eq!(Time::new(2, 30).sub(&Time::new(3, 45)), Time::new(0, 0));
    assert_eq!(Time::new(3, 45).sub(&Time::new(2, 30)), Time::new(1, 15));
    for h in 0..10u16 {
        for m in 0..60u16 {
            let r = Time::new(h, m).sub(&Time::new(5, 30));
            assert!(60 * (r.hours as u32) + (r.minutes as u32) <= 60 * (h as u32) + (m as u32));
        }
    }
}

#[test]
fn range_includes_itself() {
    let samples = [
        Range::new(Clock::new(10, 30), Clock::new(10, 40)),
        Range::new(Clock::new(0, 0), Clock::new(23, 59)),
        Range::new(Clock::new(17, 15), Clock::new(17, 15)),
    ];
    for r in samples.iter() {
        assert!(r.includes(r));
    }
}

#[test]
fn date_equality_ignores_annotation() {
    let plain = Date::new(5, 3);
    let holiday = Date::new(5, 3).annotate(&[Date::new(5, 3)]);
    let workday = Date::new(5, 3).annotate(&[]);
    assert!(matches!(holiday.date_type, DateKind::Off));
    assert!(matches!(workday.date_type, DateKind::On));
    assert_eq!(plain, holiday);
    assert_eq!(plain, workday);
    assert_eq!(holiday, workday);
    assert!(Date::new(5, 3) != Date::new(5, 4));
    assert!(Date::new(5, 3) != Date::new(6, 3));
}

#[test]
fn annotate_consults_the_holiday_list() {
    let offs = vec![Date::new(1, 1), Date::new(12, 31)];
    assert!(matches!(Date::new(1, 1).annotate(&offs).date_type, DateKind::Off));
    assert!(matches!(Date::new(6, 15).annotate(&offs).date_type, DateKind::On));
    assert!(matches!(Date::new(1, 2).date_type, DateKind::Unknown));
}

#[test]
fn cell_accessors() {
    let c: Cell<u8> = Cell::new(7);
    assert_eq!(c.peek().unwrap(), &7);
    assert_eq!(c.data().unwrap(), 7);
    let n: Cell<u8> = Cell::NoData;
    assert_eq!(n.peek().unwrap_err(), CoreError::MissingData);
    let filled = Cell::<u8>::NoData.or(9);
    assert_eq!(filled.data().unwrap(), 9);
    let kept = Cell::new(4u8).or(9);
    assert_eq!(kept.data().unwrap(), 4);
    let mapped = Cell::new(4u8).map(|x| x + 1);
    assert_eq!(mapped.data().unwrap(), 5);
    let unmapped = Cell::<u8>::NoData.map(|x| x + 1);
    assert!(unmapped.data().is_err());
}

#[test]
fn clock_comparisons_and_diff() {
    let a = Clock::new(9, 30);
    let b = Clock::new(10, 0);
    assert!(b.later_than(&a));
    assert!(!a.later_than(&a));
    assert!(a.or_later_than(&a));
    assert_eq!(b.diff(&a), Time::new(0, 30));
    // Reading backwards wraps onto the next day.
    assert_eq!(a.diff(&b), Time::new(23, 30));
    assert_eq!(Range::new(a, b).abs(), Time::new(0, 30));
}

#[test]
fn time_merge_adds() {
    assert_eq!(Time::new(6, 45).merge(&Time::new(7, 30)), Time::new(14, 15));
    assert_eq!(Time::new(0, 0).merge(&Time::new(0, 0)), Time::new(0, 0));
    assert_eq!(Time::new(23, 59).merge(&Time::new(0, 1)), Time::new(24, 0));
}
