//! Wall-clock and duration values.
//!
//! `Clock` is a cyclical time of day: normalization carries whole hours out
//! of the minutes and wraps around the 24-hour mark. `Time` is an elapsed
//! duration: minutes are carried the same way, but hours accumulate without
//! bound and subtraction saturates at zero. `Range` is an interval of two
//! clock values; `Date` is a month/day pair annotated, once, as a workday
//! or a holiday.

use vstd::prelude::*;
use crate::CoreError;
use crate::text::{split_two, split_pair, u16_of_text, u8_of_text, parse_u16, parse_u8};

verus! {

/// A year/month pair naming the accounting period.
#[derive(Debug, Clone, Copy, PartialEq, Eq, Structural)]
pub struct Month {
    pub year: u16,
    pub month: u16,
}

impl Month {
    pub fn new(year: u16, month: u16) -> (r: Self)
        ensures
            r.year == year,
            r.month == month,
    {
        Self { year, month }
    }
}

/// A day of the week, as read from the attendance sheet.
#[derive(Debug, Clone, Copy, PartialEq, Eq, Structural)]
pub enum DayKind {
    Sun,
    Mon,
    Tue,
    Wed,
    Thu,
    Fri,
    Sat,
    Unknown,
}

/// Whether a date counts as a working day or a day off; `Unknown` until the
/// date has been held against the holiday calendar.
#[derive(Debug, Clone, Copy, PartialEq, Eq, Structural)]
pub enum DateKind {
    On,
    Off,
    Unknown,
}

/// A bare month/day pair, the whole identity of a date.
#[derive(Debug, Clone, Copy, PartialEq, Eq, Structural)]
pub struct RawDate {
    pub month: u8,
    pub date: u8,
}

impl RawDate {
    pub fn new(month: u8, date: u8) -> (r: Self)
        ensures
            r.month == month,
            r.date == date,
    {
        Self { month, date }
    }
}

/// A month/day pair together with its workday/holiday annotation.
/// Equality goes by the month/day pair alone: the annotation is never
/// part of a date's identity.
#[derive(Debug, Clone, Copy)]
pub struct Date {
    pub raw_date: RawDate,
    pub date_type: DateKind,
}

/// Whether the holiday calendar holds an entry with this month/day pair.
pub open spec fn on_holiday_list(d: RawDate, offs: Seq<Date>) -> bool {
    exists|i: int| 0 <= i < offs.len() && offs[i].raw_date == d
}

impl Date {
    pub fn new(month: u8, date: u8) -> (r: Self)
        ensures
            r.raw_date == (RawDate { month, date }),
            r.date_type == DateKind::Unknown,
    {
        Self { raw_date: RawDate::new(month, date), date_type: DateKind::Unknown }
    }

    /// Classifies the date against the holiday calendar: a listed month/day
    /// pair becomes a day off, any other becomes a working day.
    pub fn annotate(self, off_list: &[Date]) -> (r: Self)
        ensures
            r.raw_date == self.raw_date,
            on_holiday_list(self.raw_date, off_list@) ==> r.date_type == DateKind::Off,
            !on_holiday_list(self.raw_date, off_list@) ==> r.date_type == DateKind::On,
    {
        let mut i: usize = 0;
        let mut found = false;
        while i < off_list.len()
            invariant
                0 <= i <= off_list.len(),
                found <==> exists|j: int| 0 <= j < i && off_list@[j].raw_date == self.raw_date,
            decreases off_list.len() - i,
        {
            if off_list[i].raw_date == self.raw_date {
                found = true;
            }
            i = i + 1;
        }
        let kind = if found {
            DateKind::Off
        } else {
            DateKind::On
        };
        Self { raw_date: self.raw_date, date_type: kind }
    }
}

impl PartialEq for Date {
    fn eq(&self, other: &Self) -> (r: bool) {
        self.raw_date == other.raw_date
    }
}

impl vstd::std_specs::cmp::PartialEqSpecImpl for Date {
    open spec fn obeys_eq_spec() -> bool {
        true
    }

    open spec fn eq_spec(&self, other: &Self) -> bool {
        self.raw_date == other.raw_date
    }
}

/// Two dates with the same month/day pair are equal whatever their
/// annotations say: the workday/holiday mark is no part of identity.
pub proof fn lemma_date_eq_ignores_kind(a: Date, b: Date)
    requires
        a.raw_date == b.raw_date,
    ensures
        vstd::std_specs::cmp::PartialEqSpec::eq_spec(&a, &b),
{
}

/// An elapsed duration. Minutes settle into `[0, 60)` under normalization;
/// hours grow without bound and are never wrapped.
#[derive(Debug, Clone, Copy, PartialEq, Eq, Structural)]
pub struct Time {
    pub hours: u16,
    pub minutes: u16,
}

impl Time {
    /// The duration as a plain count of minutes.
    pub open spec fn total(&self) -> int {
        60 * self.hours + self.minutes
    }

    /// A normalized duration: minutes below one hour.
    pub open spec fn wf(&self) -> bool {
        self.minutes < 60
    }

    /// The normalized duration of `t` minutes.
    pub open spec fn of_minutes(t: int) -> Time {
        Time { hours: (t / 60) as u16, minutes: (t % 60) as u16 }
    }

    pub fn new(hours: u16, minutes: u16) -> (r: Self)
        requires
            hours + minutes / 60 <= u16::MAX,
        ensures
            r == Time::of_minutes(60 * hours + minutes),
            r.total() == 60 * hours + minutes,
            r.wf(),
    {
        proof {
            lemma_time_of_minutes(60 * hours + minutes);
            assert((60 * hours + minutes) / 60 == hours + minutes / 60) by (nonlinear_arith);
            assert((60 * hours + minutes) % 60 == minutes % 60) by (nonlinear_arith);
        }
        Self { hours: hours + minutes / 60, minutes: minutes % 60 }
    }

    /// The duration moved up to the nearest quarter-hour boundary.
    pub fn round_up(&self) -> (r: Self)
        requires
            self.wf(),
            self.hours < u16::MAX,
        ensures
            r == Time::of_minutes(15 * ((self.total() + 14) / 15)),
            r.total() == 15 * ((self.total() + 14) / 15),
            r.wf(),
    {
        let minutes = ((self.minutes + 14) / 15) * 15;
        proof {
            assert(60 * self.hours + 15 * ((self.minutes + 14) / 15)
                == 15 * ((60 * self.hours + self.minutes + 14) / 15)) by (nonlinear_arith)
                requires self.minutes < 60;
        }
        Self::new(self.hours, minutes)
    }

    /// The duration moved down to the nearest quarter-hour boundary.
    pub fn round_down(&self) -> (r: Self)
        requires
            self.wf(),
        ensures
            r == Time::of_minutes(15 * (self.total() / 15)),
            r.total() == 15 * (self.total() / 15),
            r.wf(),
    {
        let minutes = (self.minutes / 15) * 15;
        proof {
            assert(60 * self.hours + 15 * (self.minutes / 15)
                == 15 * ((60 * self.hours + self.minutes) / 15)) by (nonlinear_arith)
                requires self.minutes < 60;
        }
        Self::new(self.hours, minutes)
    }

    /// The two durations added together.
    pub fn merge(self, other: &Self) -> (r: Self)
        requires
            self.minutes + other.minutes <= u16::MAX,
            self.hours + other.hours + (self.minutes + other.minutes) / 60 <= u16::MAX,
        ensures
            r == Time::of_minutes(self.total() + other.total()),
            r.total() == self.total() + other.total(),
            r.wf(),
    {
        Self::new(self.hours + other.hours, self.minutes + other.minutes)
    }

    /// The difference of the two durations, saturating at zero: there is no
    /// representable negative duration. Defined for every duration whose
    /// minute count a value of this type can carry, normalized or not.
    pub fn sub(self, other: &Self) -> (r: Self)
        requires
            self.total() <= 60 * (u16::MAX as int) + 59,
        ensures
            (r == Time::of_minutes(
                if self.total() >= other.total() { self.total() - other.total() } else { 0 },
            )),
            (r.total() == if self.total() >= other.total() {
                self.total() - other.total()
            } else {
                0
            }),
            r.wf(),
    {
        let self_as_minutes: u32 = 60 * (self.hours as u32) + (self.minutes as u32);
        let other_as_minutes: u32 = 60 * (other.hours as u32) + (other.minutes as u32);

        if self_as_minutes < other_as_minutes {
            Self { hours: 0, minutes: 0 }
        } else {
            let d: u32 = self_as_minutes - other_as_minutes;
            proof {
                lemma_time_of_minutes(self.total() - other.total());
            }
            Self { hours: (d / 60) as u16, minutes: (d % 60) as u16 }
        }
    }

    pub fn as_minutes(&self) -> (r: u16)
        requires
            self.total() <= u16::MAX,
        ensures
            r == self.total(),
    {
        60 * self.hours + self.minutes
    }
}

/// Normalizing a minute count keeps the count and leaves the minutes field
/// below one hour.
pub proof fn lemma_time_of_minutes(t: int)
    requires
        0 <= t <= 60 * (u16::MAX as int) + 59,
    ensures
        Time::of_minutes(t).total() == t,
        Time::of_minutes(t).wf(),
{
    assert(0 <= t / 60 <= u16::MAX) by (nonlinear_arith)
        requires 0 <= t <= 60 * (u16::MAX as int) + 59;
    assert(0 <= t % 60 < 60);
    assert(60 * (t / 60) + t % 60 == t) by (nonlinear_arith);
}

/// Rounding is idempotent on a duration already sitting on a quarter-hour
/// boundary: both directions hand it back unchanged.
pub proof fn lemma_time_round_idempotent(t: Time)
    requires
        t.wf(),
        t.total() % 15 == 0,
    ensures
        Time::of_minutes(15 * ((t.total() + 14) / 15)) == t,
        Time::of_minutes(15 * (t.total() / 15)) == t,
{
    assert(15 * ((t.total() + 14) / 15) == t.total()) by (nonlinear_arith)
        requires t.total() % 15 == 0, t.total() >= 0;
    assert(15 * (t.total() / 15) == t.total()) by (nonlinear_arith)
        requires t.total() % 15 == 0, t.total() >= 0;
    assert(t.total() / 60 == t.hours && t.total() % 60 == t.minutes) by (nonlinear_arith)
        requires t.minutes < 60, t.total() == 60 * t.hours + t.minutes;
}

/// A normalized duration is exactly the duration its minute count denotes.
pub proof fn lemma_time_eq_of_minutes(t: Time)
    requires
        t.wf(),
    ensures
        t == Time::of_minutes(t.total()),
{
    assert(t.total() / 60 == t.hours && t.total() % 60 == t.minutes) by (nonlinear_arith)
        requires t.minutes < 60, t.total() == 60 * t.hours + t.minutes;
}

/// A wall-clock time of day, cyclical over 24 hours.
#[derive(Debug, Clone, Copy, PartialEq, Eq, Structural)]
pub struct Clock {
    pub hours: u16,
    pub minutes: u16,
}

/// The length of the 24-hour cycle, in minutes.
pub const DAY_MINUTES: u16 = 1440;

impl Clock {
    /// The position within the day, as minutes since midnight.
    pub open spec fn mins(&self) -> int {
        60 * self.hours + self.minutes
    }

    /// A normalized clock value: a point within one 24-hour day.
    pub open spec fn wf(&self) -> bool {
        self.hours < 24 && self.minutes < 60
    }

    /// The clock value `t` minutes after midnight, for `t` within one day.
    pub open spec fn of_mins(t: int) -> Clock {
        Clock { hours: (t / 60) as u16, minutes: (t % 60) as u16 }
    }

    pub fn new(hours: u16, minutes: u16) -> (r: Self)
        ensures
            r == Clock::of_mins((60 * hours + minutes) % (DAY_MINUTES as int)),
            r.mins() == (60 * hours + minutes) % (DAY_MINUTES as int),
            r.wf(),
    {
        let total: u32 = 60 * (hours as u32) + (minutes as u32);
        let wrapped: u32 = total % 1440;
        proof {
            lemma_clock_of_mins(total as int % 1440);
            assert(wrapped / 60 < 24);
        }
        Self { hours: (wrapped / 60) as u16, minutes: (wrapped % 60) as u16 }
    }

    /// The clock moved up to the nearest quarter-hour boundary, wrapping
    /// past midnight where the day ends first.
    pub fn round_up(&self) -> (r: Self)
        requires
            self.wf(),
        ensures
            r == Clock::of_mins((15 * ((self.mins() + 14) / 15)) % (DAY_MINUTES as int)),
            r.mins() == (15 * ((self.mins() + 14) / 15)) % (DAY_MINUTES as int),
            r.wf(),
    {
        let minutes = ((self.minutes + 14) / 15) * 15;
        proof {
            assert(60 * self.hours + 15 * ((self.minutes + 14) / 15)
                == 15 * ((60 * self.hours + self.minutes + 14) / 15)) by (nonlinear_arith)
                requires self.minutes < 60;
        }
        Self::new(self.hours, minutes)
    }

    /// The clock moved down to the nearest quarter-hour boundary.
    pub fn round_down(&self) -> (r: Self)
        requires
            self.wf(),
        ensures
            r == Clock::of_mins(15 * (self.mins() / 15)),
            r.mins() == 15 * (self.mins() / 15),
            r.wf(),
    {
        let minutes = (self.minutes / 15) * 15;
        proof {
            assert(60 * self.hours + 15 * (self.minutes / 15)
                == 15 * ((60 * self.hours + self.minutes) / 15)) by (nonlinear_arith)
                requires self.minutes < 60;
            assert(15 * ((60 * self.hours + self.minutes) / 15) <= 60 * self.hours
                + self.minutes) by (nonlinear_arith);
            assert((15 * (self.mins() / 15)) % (DAY_MINUTES as int) == 15 * (self.mins() / 15));
        }
        Self::new(self.hours, minutes)
    }

    /// The duration from `other` forward to `self`, reading `self` as
    /// falling on the next day where it sits earlier in the cycle.
    pub fn diff(&self, other: &Self) -> (r: Time)
        requires
            self.wf(),
            other.wf(),
        ensures
            (r.total() == if self.mins() >= other.mins() {
                self.mins() - other.mins()
            } else {
                self.mins() + (DAY_MINUTES as int) - other.mins()
            }),
            (r == Time::of_minutes(
                if self.mins() >= other.mins() {
                    self.mins() - other.mins()
                } else {
                    self.mins() + (DAY_MINUTES as int) - other.mins()
                },
            )),
            r.total() < DAY_MINUTES as int,
            r.wf(),
    {
        let mut self_as_minutes = self.as_minutes();
        let other_as_minutes = other.as_minutes();

        if self_as_minutes < other_as_minutes {
            self_as_minutes = self_as_minutes + DAY_MINUTES;
        }

        Time::new(0, self_as_minutes - other_as_minutes)
    }

    /// Strictly later in the day than `other`.
    pub fn later_than(&self, other: &Self) -> (r: bool)
        requires
            self.mins() <= u16::MAX,
            other.mins() <= u16::MAX,
        ensures
            r == (self.mins() > other.mins()),
    {
        self.as_minutes() > other.as_minutes()
    }

    /// At the same point of the day as `other`, or later.
    pub fn or_later_than(&self, other: &Self) -> (r: bool)
        requires
            self.mins() <= u16::MAX,
            other.mins() <= u16::MAX,
        ensures
            r == (self.mins() >= other.mins()),
    {
        self.as_minutes() >= other.as_minutes()
    }

    pub fn as_minutes(&self) -> (r: u16)
        requires
            self.mins() <= u16::MAX,
        ensures
            r == self.mins(),
    {
        60 * self.hours + self.minutes
    }
}

/// Reading a minute count within one day back as a clock value keeps the
/// count and lands inside the 24-hour cycle.
pub proof fn lemma_clock_of_mins(t: int)
    requires
        0 <= t < DAY_MINUTES as int,
    ensures
        Clock::of_mins(t).mins() == t,
        Clock::of_mins(t).wf(),
{
    assert(0 <= t / 60 < 24) by (nonlinear_arith)
        requires 0 <= t < 1440;
    assert(60 * (t / 60) + t % 60 == t) by (nonlinear_arith);
}

/// Rounding is idempotent on a clock already sitting on a quarter-hour
/// boundary: both directions hand it back unchanged.
pub proof fn lemma_clock_round_idempotent(c: Clock)
    requires
        c.wf(),
        c.mins() % 15 == 0,
    ensures
        Clock::of_mins((15 * ((c.mins() + 14) / 15)) % (DAY_MINUTES as int)) == c,
        Clock::of_mins(15 * (c.mins() / 15)) == c,
{
    assert(15 * ((c.mins() + 14) / 15) == c.mins()) by (nonlinear_arith)
        requires c.mins() % 15 == 0, c.mins() >= 0;
    assert(15 * (c.mins() / 15) == c.mins()) by (nonlinear_arith)
        requires c.mins() % 15 == 0, c.mins() >= 0;
    assert(c.mins() % (DAY_MINUTES as int) == c.mins()) by (nonlinear_arith)
        requires 0 <= c.mins() < 1440;
    assert(c.mins() / 60 == c.hours && c.mins() % 60 == c.minutes) by (nonlinear_arith)
        requires c.minutes < 60, c.mins() == 60 * c.hours + c.minutes;
}

/// An interval between two clock values: a scheduled break window or an
/// observed attendance span.
#[derive(Debug, Clone, Copy, PartialEq, Eq, Structural)]
pub struct Range {
    pub start: Clock,
    pub end: Clock,
}

impl Range {
    pub open spec fn wf(&self) -> bool {
        self.start.wf() && self.end.wf()
    }

    /// Full containment of `other` in `self`, boundaries included.
    pub open spec fn includes_spec(&self, other: &Range) -> bool {
        other.start.mins() >= self.start.mins() && self.end.mins() >= other.end.mins()
    }

    pub fn new(start: Clock, end: Clock) -> (r: Self)
        ensures
            r.start == start,
            r.end == end,
    {
        Self { start, end }
    }

    pub fn includes(&self, other: &Self) -> (r: bool)
        requires
            self.wf(),
            other.wf(),
        ensures
            r == self.includes_spec(other),
    {
        other.start.or_later_than(&self.start) && self.end.or_later_than(&other.end)
    }

    /// The duration of the interval, read forward from start to end.
    pub fn abs(&self) -> (r: Time)
        requires
            self.wf(),
        ensures
            (r.total() == if self.end.mins() >= self.start.mins() {
                self.end.mins() - self.start.mins()
            } else {
                self.end.mins() + (DAY_MINUTES as int) - self.start.mins()
            }),
            r.total() < DAY_MINUTES as int,
            r.wf(),
    {
        self.end.diff(&self.start)
    }
}

/// Containment under inclusive bounds is reflexive: every interval
/// includes itself.
pub proof fn lemma_range_includes_self(r: Range)
    ensures
        r.includes_spec(&r),
{
}

/// The clock a piece of text denotes: an hour field and a minute field
/// around the first colon, both numeric, normalized into the day.
pub open spec fn clock_of_text(s: Seq<char>) -> Option<Clock> {
    match split_two(s, ':') {
        Some(fields) => match (u16_of_text(fields.0), u16_of_text(fields.1)) {
            (Some(h), Some(m)) => Some(
                Clock::of_mins((60 * h + m) % (DAY_MINUTES as int)),
            ),
            _ => None,
        },
        None => None,
    }
}

/// The duration a piece of text denotes, normalized without wrapping;
/// nothing where the carried hours would not fit the field.
pub open spec fn time_of_text(s: Seq<char>) -> Option<Time> {
    match split_two(s, ':') {
        Some(fields) => match (u16_of_text(fields.0), u16_of_text(fields.1)) {
            (Some(h), Some(m)) => if h + m / 60 <= u16::MAX {
                Some(Time::of_minutes(60 * h + m))
            } else {
                None
            },
            _ => None,
        },
        None => None,
    }
}

/// The period a piece of text denotes: a year and a month around the
/// first slash.
pub open spec fn month_of_text(s: Seq<char>) -> Option<Month> {
    match split_two(s, '/') {
        Some(fields) => match (u16_of_text(fields.0), u16_of_text(fields.1)) {
            (Some(y), Some(m)) => Some(Month { year: y, month: m }),
            _ => None,
        },
        None => None,
    }
}

/// The date a piece of text denotes: a month and a day around the first
/// slash, not yet annotated.
pub open spec fn date_of_text(s: Seq<char>) -> Option<Date> {
    match split_two(s, '/') {
        Some(fields) => match (u8_of_text(fields.0), u8_of_text(fields.1)) {
            (Some(m), Some(d)) => Some(
                Date { raw_date: RawDate { month: m, date: d }, date_type: DateKind::Unknown },
            ),
            _ => None,
        },
        None => None,
    }
}

impl Clock {
    /// Reads a clock value out of `"H:M"`-shaped text.
    pub fn from_text(s: &str) -> (r: Result<Clock, CoreError>)
        ensures
            (r == match clock_of_text(s@) {
                Some(c) => Result::<Clock, CoreError>::Ok(c),
                None => Result::<Clock, CoreError>::Err(CoreError::BadFormat),
            }),
            r matches Ok(c) ==> c.wf(),
    {
        match split_pair(s, ':') {
            Some(fields) => match (parse_u16(fields.0), parse_u16(fields.1)) {
                (Ok(h), Ok(m)) => Ok(Clock::new(h, m)),
                _ => Err(CoreError::BadFormat),
            },
            None => Err(CoreError::BadFormat),
        }
    }
}

impl Time {
    /// Reads a duration out of `"H:M"`-shaped text.
    pub fn from_text(s: &str) -> (r: Result<Time, CoreError>)
        ensures
            (r == match time_of_text(s@) {
                Some(t) => Result::<Time, CoreError>::Ok(t),
                None => Result::<Time, CoreError>::Err(CoreError::BadFormat),
            }),
            r matches Ok(t) ==> t.wf(),
    {
        match split_pair(s, ':') {
            Some(fields) => match (parse_u16(fields.0), parse_u16(fields.1)) {
                (Ok(h), Ok(m)) => {
                    let carried: u16 = m / 60;
                    if h <= u16::MAX - carried {
                        Ok(Time::new(h, m))
                    } else {
                        Err(CoreError::BadFormat)
                    }
                },
                _ => Err(CoreError::BadFormat),
            },
            None => Err(CoreError::BadFormat),
        }
    }
}

impl Month {
    /// Reads a period out of `"YYYY/MM"`-shaped text.
    pub fn from_text(s: &str) -> (r: Result<Month, CoreError>)
        ensures
            (r == match month_of_text(s@) {
                Some(m) => Result::<Month, CoreError>::Ok(m),
                None => Result::<Month, CoreError>::Err(CoreError::BadFormat),
            }),
    {
        match split_pair(s, '/') {
            Some(fields) => match (parse_u16(fields.0), parse_u16(fields.1)) {
                (Ok(y), Ok(m)) => Ok(Month::new(y, m)),
                _ => Err(CoreError::BadFormat),
            },
            None => Err(CoreError::BadFormat),
        }
    }
}

impl Date {
    /// Reads a date out of `"MM/DD"`-shaped text; the annotation starts
    /// out unknown.
    pub fn from_text(s: &str) -> (r: Result<Date, CoreError>)
        ensures
            (r == match date_of_text(s@) {
                Some(d) => Result::<Date, CoreError>::Ok(d),
                None => Result::<Date, CoreError>::Err(CoreError::BadFormat),
            }),
    {
        match split_pair(s, '/') {
            Some(fields) => match (parse_u8(fields.0), parse_u8(fields.1)) {
                (Ok(m), Ok(d)) => Ok(Date::new(m, d)),
                _ => Err(CoreError::BadFormat),
            },
            None => Err(CoreError::BadFormat),
        }
    }
}

/// The weekday a piece of text names; anything unrecognized reads as
/// `Unknown` rather than failing.
pub open spec fn daykind_of_text(s: Seq<char>) -> DayKind {
    if s == "日"@ {
        DayKind::Sun
    } else if s == "月"@ {
        DayKind::Mon
    } else if s == "火"@ {
        DayKind::Tue
    } else if s == "水"@ {
        DayKind::Wed
    } else if s == "木"@ {
        DayKind::Thu
    } else if s == "金"@ {
        DayKind::Fri
    } else if s == "土"@ {
        DayKind::Sat
    } else {
        DayKind::Unknown
    }
}

impl DayKind {
    pub fn from_text(s: &str) -> (r: DayKind)
        ensures
            r == daykind_of_text(s@),
    {
        if crate::text::str_eq(s, "日") {
            DayKind::Sun
        } else if crate::text::str_eq(s, "月") {
            DayKind::Mon
        } else if crate::text::str_eq(s, "火") {
            DayKind::Tue
        } else if crate::text::str_eq(s, "水") {
            DayKind::Wed
        } else if crate::text::str_eq(s, "木") {
            DayKind::Thu
        } else if crate::text::str_eq(s, "金") {
            DayKind::Fri
        } else if crate::text::str_eq(s, "土") {
            DayKind::Sat
        } else {
            DayKind::Unknown
        }
    }
}

impl core::str::FromStr for Clock {
    type Err = CoreError;

    fn from_str(s: &str) -> (r: Result<Clock, CoreError>) {
        Clock::from_text(s)
    }
}

impl core::str::FromStr for Time {
    type Err = CoreError;

    fn from_str(s: &str) -> (r: Result<Time, CoreError>) {
        Time::from_text(s)
    }
}

} // verus!

