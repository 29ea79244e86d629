use timecard::clock::{Clock, Time};

#[test]
fn parse() {
    let clock: Clock = "9:4".parse().unwrap();
    assert_eq!(clock, Clock::new(9, 4));

    let time: Time = "9:4".parse().unwrap();
    assert_eq!(time, Time::new(9, 4));
}

#[test]
fn carry() {
    let mut before: Clock = Clock::new(9, 64);
    let mut after: Clock = Clock::new(10, 4);
    assert_eq!(before, after);

    before = Clock::new(9, 128);
    after = Clock::new(11, 8);
    assert_eq!(before, after);

    before = Clock::new(24, 32);
    after = Clock::new(0, 32);
    assert_eq!(before, after);

    before = Clock::new(23, 128);
    after = Clock::new(1, 8);
    assert_eq!(before, after);

    before = "23:128".parse().unwrap();
    after = Clock::new(1, 8);
    assert_eq!(before, after);

    let mut before: Time = Time::new(9, 64);
    let mut after: Time = Time::new(10, 4);
    assert_eq!(before, after);

    before = Time::new(9, 128);
    after = Time::new(11, 8);
    assert_eq!(before, after);

    before = Time::new(24, 32);
    after = Time::new(24, 32);
    assert_eq!(before, after);

    before = Time::new(23, 128);
    after = Time::new(25, 8);
    assert_eq!(before, after);

    before = "23:128".parse().unwrap();
    after = Time::new(25, 8);
    assert_eq!(before, after);
}

#[test]
fn round() {
    let mut before = Clock::new(9, 32);
    let mut ceil = Clock::new(9, 45);
    let mut floor = Clock::new(9, 30);
    assert_eq!(before.round_up().minutes, ceil.minutes);
    assert_eq!(before.round_down().minutes, floor.minutes);

    before = Clock::new(9, 0);
    ceil = Clock::new(9, 0);
    floor = Clock::new(9, 0);
    assert_eq!(before.round_up().minutes, ceil.minutes);
    assert_eq!(before.round_down().minutes, floor.minutes);

    before = Clock::new(9, 15);
    ceil = Clock::new(9, 15);
    floor = Clock::new(9, 15);
    assert_eq!(before.round_up().minutes, ceil.minutes);
    assert_eq!(before.round_down().minutes, floor.minutes);

    before = Clock::new(9, 30);
    ceil = Clock::new(9, 30);
    floor = Clock::new(9, 30);
    assert_eq!(before.round_up().minutes, ceil.minutes);
    assert_eq!(before.round_down().minutes, floor.minutes);

    before = Clock::new(9, 45);
    ceil = Clock::new(9, 45);
    floor = Clock::new(9, 45);
    assert_eq!(before.round_up().minutes, ceil.minutes);
    assert_eq!(before.round_down().minutes, floor.minutes);

    before = Clock::new(9, 8);
    ceil = Clock::new(9, 15);
    floor = Clock::new(9, 0);
    assert_eq!(before.round_up().minutes, ceil.minutes);
    assert_eq!(before.round_down().minutes, floor.minutes);

    before = Clock::new(9, 23);
    ceil = Clock::new(9, 30);
    floor = Clock::new(9, 15);
    assert_eq!(before.round_up().minutes, ceil.minutes);
    assert_eq!(before.round_down().minutes, floor.minutes);

    before = Clock::new(9, 34);
    ceil = Clock::new(9, 45);
    floor = Clock::new(9, 30);
    assert_eq!(before.round_up().minutes, ceil.minutes);
    assert_eq!(before.round_down().minutes, floor.minutes);

    before = Clock::new(9, 53);
    ceil = Clock::new(10, 00);
    floor = Clock::new(9, 45);
    assert_eq!(before.round_up().minutes, ceil.minutes);
    assert_eq!(before.round_down().minutes, floor.minutes);

    before = Clock::new(23, 58);
    ceil = Clock::new(0, 0);
    floor = Clock::new(23, 45);
    assert_eq!(before.round_up().minutes, ceil.minutes);
    assert_eq!(before.round_down().minutes, floor.minutes);
}
