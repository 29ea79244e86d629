//! One employee's one-day attendance entry, and the work-time algorithm:
//! round a late arrival up and the departure down to quarter hours, count
//! the morning and afternoon segments around the unpaid lunch window,
//! deduct the declared break as reconciled against the classification's
//! mandatory break windows, and round the result down to a quarter hour.

use vstd::prelude::*;
use crate::CoreError;
use crate::cell::{Cell, cell_of};
use crate::clock::{
    Clock, Date, DateKind, DayKind, Month, Range, Time, clock_of_text, date_of_text,
    daykind_of_text, month_of_text, on_holiday_list, time_of_text, lemma_time_eq_of_minutes,
};
use crate::member::{
    Member, MemberKind, break_windows, force_breaks_marks, lookup_member, nominal_start,
    find_member, window_mid_morning, window_mid_afternoon, window_early_evening,
};
use crate::render::{
    cell_text, cell_month_text, cell_member_text, cell_date_text, cell_day_text, cell_clock_text,
    cell_time_text, cell_string_text, cell_u8_text, clock_text, datekind_text, daykind_text,
    member_text, month_text, rawdate_text, time_decimal_text,
};
use crate::text::{u8_of_text, u16_of_text, parse_u16, row_field, row_field_str, dec_text, replaced};
use crate::rows_kept;

verus! {

/// One attendance row. Every field may be absent; computations fail only
/// when a field they actually need is missing.
#[derive(Debug)]
pub struct Record {
    pub month: Cell<Month>,
    pub member: Cell<Member>,
    pub date: Cell<Date>,
    pub day: Cell<DayKind>,
    pub came_at: Cell<Clock>,
    pub left_at: Cell<Clock>,
    pub break_time: Cell<Time>,
    pub work_time: Cell<Time>,
    pub remarks: Cell<String>,
    pub days: Cell<u8>,
}

/// The minute `x` moved up to the next quarter-hour boundary.
pub open spec fn ceil15(x: int) -> int {
    15 * ((x + 14) / 15)
}

/// The minute `x` moved down to the last quarter-hour boundary.
pub open spec fn floor15(x: int) -> int {
    15 * (x / 15)
}

/// Minutes from `b` forward to `a` around the 24-hour cycle.
pub open spec fn diff_mins(a: int, b: int) -> int {
    if a >= b {
        a - b
    } else {
        a + 1440 - b
    }
}

/// Difference saturating at zero.
pub open spec fn sat_sub(a: int, b: int) -> int {
    if a >= b {
        a - b
    } else {
        0
    }
}

/// The length of a break window, in minutes.
pub open spec fn window_mins(w: Range) -> int {
    diff_mins(w.end.mins(), w.start.mins())
}

/// The day's whole break deduction: the declared break, plus the length
/// of every mandatory window that the attendance span does not fully
/// contain. A mandatory unpaid break counts as taken even where the
/// punches do not show it, and reduces paid time regardless.
pub open spec fn reconciled_break_mins(declared: int, ws: Seq<Range>, att: Range) -> int
    decreases ws.len(),
{
    if ws.len() == 0 {
        declared
    } else {
        let pre = reconciled_break_mins(declared, ws.drop_last(), att);
        if att.includes_spec(&ws.last()) {
            pre
        } else {
            pre + window_mins(ws.last())
        }
    }
}

/// Where the paid day effectively starts: a late arrival is rounded up
/// against the employee, an early or on-time one starts at the nominal
/// start unrounded.
pub open spec fn effective_start_mins(came: Clock, kind: MemberKind) -> int {
    let s0 = nominal_start(kind).mins();
    if came.mins() > s0 {
        ceil15(came.mins()) % 1440
    } else {
        s0
    }
}

/// The start of the unpaid lunch window, as minutes since midnight.
pub open spec fn lunch_start_mins() -> int {
    730
}

/// The end of the unpaid lunch window, as minutes since midnight.
pub open spec fn lunch_end_mins() -> int {
    780
}

/// Paid minutes before break deductions: the morning segment from the
/// effective start to the earlier of the effective end or the lunch
/// window, plus the afternoon segment after it.
pub open spec fn gross_work_mins(came: Clock, left_raw: Clock, kind: MemberKind) -> int {
    let startm = effective_start_mins(came, kind);
    let leftm = floor15(left_raw.mins());
    let am = if leftm > lunch_start_mins() {
        diff_mins(lunch_start_mins(), startm)
    } else {
        diff_mins(leftm, startm)
    };
    let counted_am = if startm <= lunch_start_mins() {
        am
    } else {
        0
    };
    let startpm = if startm > lunch_end_mins() {
        startm
    } else {
        lunch_end_mins()
    };
    let pm = if leftm > startpm {
        diff_mins(leftm, startpm)
    } else {
        0
    };
    counted_am + pm
}

/// The day's paid minutes: the gross segments, less the reconciled break,
/// floored to a quarter hour. Never negative.
pub open spec fn rounded_work_mins(came: Clock, left_raw: Clock, kind: MemberKind, declared: Time) -> int {
    let gross = gross_work_mins(came, left_raw, kind);
    let brk = reconciled_break_mins(
        declared.total(),
        break_windows(kind),
        Range { start: came, end: left_raw },
    );
    floor15(sat_sub(gross, brk))
}

/// The day's rounded work time, where the fields it needs are present.
pub open spec fn rounded_work_time_spec(r: Record) -> Option<Time> {
    match (r.came_at, r.member, r.left_at, r.break_time) {
        (Cell::Data(came), Cell::Data(m), Cell::Data(left), Cell::Data(brk)) => Some(
            Time::of_minutes(rounded_work_mins(came, left, m.member_type, brk)),
        ),
        _ => None,
    }
}

/// The nominal daily minutes owed on a date: a full eight hours on a
/// working day, none on a day off.
pub open spec fn nominal_mins(k: DateKind) -> int {
    if k is On {
        480
    } else {
        0
    }
}

/// The day's overtime: rounded work time less the nominal day, saturating
/// at zero. An unannotated date refuses the computation.
pub open spec fn over_work_time_spec(r: Record) -> Result<Time, CoreError> {
    match r.date {
        Cell::NoData => Err(CoreError::MissingData),
        Cell::Data(d) => match d.date_type {
            DateKind::Unknown => Err(CoreError::NotAnnotated),
            _ => match rounded_work_time_spec(r) {
                None => Err(CoreError::MissingData),
                Some(t) => Ok(Time::of_minutes(sat_sub(t.total(), nominal_mins(d.date_type)))),
            },
        },
    }
}

impl Record {
    /// The clock and duration fields hold normalized values.
    pub open spec fn wf(&self) -> bool {
        &&& (self.came_at matches Cell::Data(c) ==> c.wf())
        &&& (self.left_at matches Cell::Data(c) ==> c.wf())
        &&& (self.break_time matches Cell::Data(t) ==> t.wf())
        &&& (self.work_time matches Cell::Data(t) ==> t.wf())
    }

    /// The declared break is small enough to subtract from: it fits the
    /// minute field. A row declaring more break than that would have
    /// stopped the computation rather than produced a figure.
    pub open spec fn break_bounded(&self) -> bool {
        self.break_time matches Cell::Data(t) ==> t.total() <= u16::MAX
    }

    /// The executable test of `break_bounded`, for callers that take rows
    /// from outside.
    pub fn check_break_bounded(&self) -> (b: bool)
        ensures
            b == self.break_bounded(),
    {
        match &self.break_time {
            Cell::Data(t) => 60 * (t.hours as u32) + (t.minutes as u32) <= u16::MAX as u32,
            Cell::NoData => true,
        }
    }
}

/// Every mandatory break window of every classification is a normalized
/// interval, and no classification has more than three of them.
proof fn lemma_break_windows_wf(k: MemberKind)
    ensures
        forall|i: int| 0 <= i < break_windows(k).len() ==> (#[trigger] break_windows(k)[i]).wf(),
        break_windows(k).len() <= 3,
{
    assert(window_mid_morning().wf());
    assert(window_mid_afternoon().wf());
    assert(window_early_evening().wf());
    assert forall|i: int| 0 <= i < break_windows(k).len() implies (
    #[trigger] break_windows(k)[i]).wf() by {
        if break_windows(k).len() == 3 {
            assert(i == 0 || i == 1 || i == 2);
        } else if break_windows(k).len() == 1 {
            assert(i == 0);
        }
    }
}

/// The whole break deduction is at least the declared break and grows by
/// less than a day per mandatory window.
proof fn lemma_reconciled_break_bounds(declared: int, ws: Seq<Range>, att: Range)
    requires
        declared >= 0,
        forall|i: int| 0 <= i < ws.len() ==> (#[trigger] ws[i]).wf(),
    ensures
        declared <= reconciled_break_mins(declared, ws, att) <= declared + 1440 * ws.len(),
    decreases ws.len(),
{
    if ws.len() > 0 {
        assert(forall|i: int|
            0 <= i < ws.drop_last().len() ==> (#[trigger] ws.drop_last()[i]).wf());
        lemma_reconciled_break_bounds(declared, ws.drop_last(), att);
        assert(ws.last().wf());
        assert(0 <= window_mins(ws.last()) < 1440);
    }
}

/// The day's paid minutes stay below two days' worth of minutes, whatever
/// the punches say.
pub proof fn lemma_rounded_work_mins_bounds(came: Clock, left_raw: Clock, kind: MemberKind, declared: Time)
    requires
        came.wf(),
        left_raw.wf(),
    ensures
        0 <= rounded_work_mins(came, left_raw, kind, declared) < 2880,
{
    let s0 = nominal_start(kind).mins();
    assert(0 <= s0 < 1440);
    assert(0 <= came.mins() < 1440);
    assert(ceil15(came.mins()) % 1440 < 1440 && ceil15(came.mins()) % 1440 >= 0);
    let startm = effective_start_mins(came, kind);
    assert(0 <= startm < 1440);
    assert(15 * (left_raw.mins() / 15) <= left_raw.mins() && 0 <= 15 * (left_raw.mins() / 15))
        by (nonlinear_arith)
        requires left_raw.mins() >= 0;
    let leftm = floor15(left_raw.mins());
    assert(0 <= leftm < 1440);
    let gross = gross_work_mins(came, left_raw, kind);
    assert(0 <= gross < 2880);
    lemma_break_windows_wf(kind);
    lemma_reconciled_break_bounds(
        declared.total(),
        break_windows(kind),
        Range { start: came, end: left_raw },
    );
    let after = sat_sub(
        gross,
        reconciled_break_mins(
            declared.total(),
            break_windows(kind),
            Range { start: came, end: left_raw },
        ),
    );
    assert(0 <= after < 2880);
    assert(0 <= 15 * (after / 15) <= after) by (nonlinear_arith)
        requires after >= 0;
}

impl Record {
    /// The day's whole break deduction: the declared break together with
    /// every mandatory window the attendance span does not fully contain.
    pub fn break_time(&self) -> (r: Result<Time, CoreError>)
        requires
            self.wf(),
            self.break_bounded(),
        ensures
            (r == match (self.break_time, self.member, self.came_at, self.left_at) {
                (Cell::Data(b), Cell::Data(m), Cell::Data(c), Cell::Data(l)) => Result::<
                    Time,
                    CoreError,
                >::Ok(
                    Time::of_minutes(
                        reconciled_break_mins(
                            b.total(),
                            break_windows(m.member_type),
                            Range { start: c, end: l },
                        ),
                    ),
                ),
                _ => Result::<Time, CoreError>::Err(CoreError::MissingData),
            }),
    {
        let declared = match self.break_time.peek() {
            Ok(t) => t,
            Err(e) => {
                return Err(e);
            },
        };
        let member = match self.member.peek() {
            Ok(m) => m,
            Err(e) => {
                return Err(e);
            },
        };
        let came = match self.came_at.peek() {
            Ok(c) => c,
            Err(e) => {
                return Err(e);
            },
        };
        let left = match self.left_at.peek() {
            Ok(c) => c,
            Err(e) => {
                return Err(e);
            },
        };
        let ghost windows = break_windows(member.member_type);
        let ghost att = Range { start: *came, end: *left };
        proof {
            lemma_break_windows_wf(member.member_type);
        }
        let mut result: Time = declared.clone();
        let forces = member.member_type.force_breaks();
        let range = Range::new(came.clone(), left.clone());
        let mut i: usize = 0;
        while i < forces.len()
            invariant
                0 <= i <= forces@.len(),
                forces@ == windows,
                range == att,
                att.wf(),
                declared.wf(),
                declared.total() <= u16::MAX,
                forall|j: int| 0 <= j < windows.len() ==> (#[trigger] windows[j]).wf(),
                windows.len() <= 3,
                result.wf(),
                result.total() == reconciled_break_mins(
                    declared.total(),
                    windows.subrange(0, i as int),
                    att,
                ),
                result.total() <= declared.total() + 1440 * i,
            decreases forces@.len() - i,
        {
            proof {
                assert(windows.subrange(0, i as int + 1).drop_last() =~= windows.subrange(
                    0,
                    i as int,
                ));
                assert(windows.subrange(0, i as int + 1).last() == windows[i as int]);
            }
            let f = &forces[i];
            if !range.includes(f) {
                result = result.merge(&f.abs());
            }
            i = i + 1;
        }
        proof {
            assert(windows.subrange(0, windows.len() as int) =~= windows);
            lemma_time_eq_of_minutes(result);
        }
        Ok(result)
    }

    /// The day's paid time under the rounding and break rules: a late
    /// arrival rounds up and the departure rounds down to quarter hours,
    /// the unpaid lunch window splits the day into its two counted
    /// segments, breaks come off, and the result floors to a quarter hour.
    #[verifier::rlimit(100)]
    pub fn rounded_work_time(&self) -> (r: Result<Time, CoreError>)
        requires
            self.wf(),
            self.break_bounded(),
        ensures
            (r == match rounded_work_time_spec(*self) {
                Some(t) => Result::<Time, CoreError>::Ok(t),
                None => Result::<Time, CoreError>::Err(CoreError::MissingData),
            }),
    {
        let came_at = match self.came_at.peek() {
            Ok(c) => c.clone(),
            Err(e) => {
                return Err(e);
            },
        };
        let member = match self.member.peek() {
            Ok(m) => m,
            Err(e) => {
                return Err(e);
            },
        };
        let left_raw = match self.left_at.peek() {
            Ok(c) => c.clone(),
            Err(e) => {
                return Err(e);
            },
        };
        let brk = self.break_time();
        let brk = match brk {
            Ok(t) => t,
            Err(e) => {
                return Err(e);
            },
        };
        let ghost kind = member.member_type;
        let ghost declared = self.break_time->Data_0;
        let ghost startm = effective_start_mins(came_at, kind);
        let ghost leftm = floor15(left_raw.mins());

        let mut start_at = member.start_at();
        start_at = match came_at.later_than(&start_at) {
            true => came_at.round_up(),
            false => start_at,
        };
        assert(start_at.mins() == startm && start_at.wf());
        let left_at = left_raw.round_down();
        assert(left_at.mins() == leftm && left_at.wf());
        let mut work_time = Time::new(0, 0);

        let start_lunch_at = Clock::new(12, 10);
        assert(start_lunch_at.mins() == lunch_start_mins() && start_lunch_at.wf());
        let work_time_am = match left_at.later_than(&start_lunch_at) {
            true => start_lunch_at.diff(&start_at),
            false => left_at.diff(&start_at),
        };
        let ghost amv = if leftm > lunch_start_mins() {
            diff_mins(lunch_start_mins(), startm)
        } else {
            diff_mins(leftm, startm)
        };
        assert(work_time_am.total() == amv);

        if !start_at.later_than(&start_lunch_at) {
            work_time = work_time.merge(&work_time_am);
        }
        let ghost counted_am = if startm <= lunch_start_mins() {
            amv
        } else {
            0
        };
        assert(work_time.total() == counted_am);

        let end_lunch_at = Clock::new(13, 0);
        assert(end_lunch_at.mins() == lunch_end_mins() && end_lunch_at.wf());
        let start_at_pm = match start_at.later_than(&end_lunch_at) {
            true => start_at,
            false => end_lunch_at,
        };
        let ghost startpm = if startm > lunch_end_mins() {
            startm
        } else {
            lunch_end_mins()
        };
        assert(start_at_pm.mins() == startpm && start_at_pm.wf());

        let work_time_pm = match left_at.later_than(&start_at_pm) {
            true => left_at.diff(&start_at_pm),
            false => Time::new(0, 0),
        };
        let ghost pmv = if leftm > startpm {
            diff_mins(leftm, startpm)
        } else {
            0
        };
        assert(work_time_pm.total() == pmv);
        work_time = work_time.merge(&work_time_pm);
        assert(work_time.total() == counted_am + pmv);
        assert(gross_work_mins(came_at, left_raw, kind) == counted_am + pmv);

        let ghost brkm = reconciled_break_mins(
            declared.total(),
            break_windows(kind),
            Range { start: came_at, end: left_raw },
        );
        proof {
            lemma_break_windows_wf(kind);
            lemma_reconciled_break_bounds(
                declared.total(),
                break_windows(kind),
                Range { start: came_at, end: left_raw },
            );
            crate::clock::lemma_time_of_minutes(brkm);
        }
        assert(brk.total() == brkm);
        work_time = work_time.sub(&brk);
        assert(work_time.total() == sat_sub(counted_am + pmv, brkm));
        let rounded = work_time.round_down();
        assert(rounded.total() == rounded_work_mins(came_at, left_raw, kind, declared));
        assert(rounded == Time::of_minutes(rounded_work_mins(came_at, left_raw, kind, declared)));
        Ok(rounded)
    }

    /// The day's overtime: paid time beyond the nominal day, which is
    /// eight hours on a working day and nothing on a day off. The date
    /// has to be annotated first.
    pub fn over_work_time(&self) -> (r: Result<Time, CoreError>)
        requires
            self.wf(),
            self.break_bounded(),
        ensures
            r == over_work_time_spec(*self),
    {
        let date = match self.date.peek() {
            Ok(d) => d,
            Err(e) => {
                return Err(e);
            },
        };
        let nominal = match date.date_type {
            DateKind::On => Time::new(8, 0),
            DateKind::Off => Time::new(0, 0),
            DateKind::Unknown => {
                return Err(CoreError::NotAnnotated);
            },
        };
        let worked = match self.rounded_work_time() {
            Ok(t) => t,
            Err(e) => {
                return Err(e);
            },
        };
        proof {
            let came = self.came_at->Data_0;
            let left = self.left_at->Data_0;
            lemma_rounded_work_mins_bounds(
                came,
                left,
                self.member->Data_0.member_type,
                self.break_time->Data_0,
            );
            crate::clock::lemma_time_of_minutes(
                rounded_work_mins(came, left, self.member->Data_0.member_type, self.break_time->Data_0),
            );
        }
        Ok(worked.sub(&nominal))
    }
}

/// Overtime is never negative: it is zero wherever the rounded work time
/// stays within the nominal day, and exactly the excess beyond it
/// otherwise.
pub proof fn lemma_overtime(r: Record, d: Date, w: Time)
    requires
        r.wf(),
        r.date == Cell::<Date>::Data(d),
        d.date_type != DateKind::Unknown,
        rounded_work_time_spec(r) == Some(w),
    ensures
        over_work_time_spec(r) matches Ok(o) && o.total() == sat_sub(
            w.total(),
            nominal_mins(d.date_type),
        ),
        over_work_time_spec(r) matches Ok(o) && o.total() >= 0,
        over_work_time_spec(r) matches Ok(o) && (w.total() <= nominal_mins(d.date_type)
            ==> o.total() == 0),
        over_work_time_spec(r) matches Ok(o) && (w.total() > nominal_mins(d.date_type)
            ==> o.total() == w.total() - nominal_mins(d.date_type)),
{
    let came = r.came_at->Data_0;
    let left = r.left_at->Data_0;
    let kind = r.member->Data_0.member_type;
    let declared = r.break_time->Data_0;
    lemma_rounded_work_mins_bounds(came, left, kind, declared);
    crate::clock::lemma_time_of_minutes(rounded_work_mins(came, left, kind, declared));
    let o = sat_sub(w.total(), nominal_mins(d.date_type));
    crate::clock::lemma_time_of_minutes(o);
}

/// The rounded work time a report prints: the computed figure, or zero
/// where the computation fails. A failed row still produces output.
pub open spec fn rounded_time_or_zero(r: Record) -> Time {
    match rounded_work_time_spec(r) {
        Some(t) => t,
        None => Time { hours: 0, minutes: 0 },
    }
}

/// The overtime a report prints: the computed figure, or zero where the
/// computation fails.
pub open spec fn over_time_or_zero(r: Record) -> Time {
    match over_work_time_spec(r) {
        Ok(t) => t,
        Err(_) => Time { hours: 0, minutes: 0 },
    }
}

/// One line of the rounded ledger: the record's fields in export order,
/// the declared work time both as decimal hours and remapped to a
/// colon-separated look, then the computed rounded and overtime figures.
pub open spec fn record_csv_line(r: Record) -> Seq<char> {
    cell_text(r.month, |m: Month| month_text(m)) + seq![','] + cell_text(
        r.member,
        |m: Member| member_text(m),
    ) + seq![','] + cell_text(r.date, |d: Date| rawdate_text(d.raw_date)) + seq![',']
        + datekind_text(r.date->Data_0.date_type) + seq![','] + cell_text(
        r.day,
        |k: DayKind| daykind_text(k),
    ) + seq![','] + clock_text(nominal_start(r.member->Data_0.member_type)) + seq![',']
        + cell_text(r.came_at, |c: Clock| clock_text(c)) + seq![','] + cell_text(
        r.left_at,
        |c: Clock| clock_text(c),
    ) + seq![','] + cell_text(r.break_time, |t: Time| time_decimal_text(t)) + seq![',']
        + cell_text(r.work_time, |t: Time| time_decimal_text(t)) + seq![','] + replaced(
        cell_text(r.work_time, |t: Time| time_decimal_text(t)),
        '.',
        ':',
    ) + seq![','] + time_decimal_text(rounded_time_or_zero(r)) + seq![','] + time_decimal_text(
        over_time_or_zero(r),
    ) + seq![','] + cell_text(r.remarks, |s: String| s@) + seq![','] + cell_text(
        r.days,
        |n: u8| dec_text(n as nat),
    )
}

/// One line of the daily summary: the start mark, the date, the worker,
/// the agency, the attendance marks, the scheduled day, and the declared
/// figures.
pub open spec fn record_daily_line(r: Record, is_start: bool) -> Seq<char> {
    (if is_start {
        "*"@
    } else {
        Seq::<char>::empty()
    }) + seq![','] + cell_text(r.date, |d: Date| rawdate_text(d.raw_date)) + seq![','] + cell_text(
        r.member,
        |m: Member| member_text(m),
    ) + seq![','] + r.member->Data_0.from@ + seq![','] + "出勤"@ + seq![','] + (
    if r.came_at is Data {
        "1,"@
    } else {
        ",1"@
    }) + seq![','] + clock_text(nominal_start(r.member->Data_0.member_type)) + seq![',']
        + force_breaks_marks(r.member->Data_0.member_type) + seq![','] + cell_text(
        r.left_at,
        |c: Clock| clock_text(c),
    ) + seq![','] + replaced(cell_text(r.work_time, |t: Time| time_decimal_text(t)), '.', ':')
        + seq![','] + cell_text(r.remarks, |s: String| s@)
}

impl Record {
    /// Serializes the record for the rounded ledger. A failed work-time
    /// or overtime computation prints as zero; only a missing date or
    /// employee refuses the line.
    #[verifier::rlimit(100)]
    pub fn export_rounded_to_csv(&self) -> (r: Result<String, CoreError>)
        requires
            self.wf(),
            self.break_bounded(),
        ensures
            (self.date is Data && self.member is Data) ==> (r matches Ok(s) && s@
                == record_csv_line(*self)),
            !(self.date is Data && self.member is Data) ==> (r matches Err(e) && e
                == CoreError::MissingData),
    {
        let date = match self.date.peek() {
            Ok(d) => d,
            Err(e) => {
                return Err(e);
            },
        };
        let member = match self.member.peek() {
            Ok(m) => m,
            Err(e) => {
                return Err(e);
            },
        };
        let rw = match self.rounded_work_time() {
            Ok(t) => t,
            Err(_) => Time::new(0, 0),
        };
        let ow = match self.over_work_time() {
            Ok(t) => t,
            Err(_) => Time::new(0, 0),
        };
        proof {
            if rounded_work_time_spec(*self) is Some {
                lemma_rounded_work_mins_bounds(
                    self.came_at->Data_0,
                    self.left_at->Data_0,
                    self.member->Data_0.member_type,
                    self.break_time->Data_0,
                );
                crate::clock::lemma_time_of_minutes(
                    rounded_work_mins(
                        self.came_at->Data_0,
                        self.left_at->Data_0,
                        self.member->Data_0.member_type,
                        self.break_time->Data_0,
                    ),
                );
            }
            if over_work_time_spec(*self) is Ok {
                crate::clock::lemma_time_of_minutes(
                    sat_sub(
                        rounded_time_or_zero(*self).total(),
                        nominal_mins(self.date->Data_0.date_type),
                    ),
                );
            }
        }
        proof {
            reveal_strlit(":");
            assert(":"@ =~= seq![':']);
        }
        let work_text = cell_time_text(&self.work_time);
        let mut line = cell_month_text(&self.month);
        line.append(",");
        line.append(cell_member_text(&self.member).as_str());
        line.append(",");
        line.append(cell_date_text(&self.date).as_str());
        line.append(",");
        line.append(date.date_type.to_text().as_str());
        line.append(",");
        line.append(cell_day_text(&self.day).as_str());
        line.append(",");
        line.append(member.start_at().to_text().as_str());
        line.append(",");
        line.append(cell_clock_text(&self.came_at).as_str());
        line.append(",");
        line.append(cell_clock_text(&self.left_at).as_str());
        line.append(",");
        line.append(cell_time_text(&self.break_time).as_str());
        line.append(",");
        line.append(work_text.as_str());
        line.append(",");
        line.append(crate::text::replace_char(work_text.as_str(), '.', ":").as_str());
        line.append(",");
        line.append(rw.to_text().as_str());
        line.append(",");
        line.append(ow.to_text().as_str());
        line.append(",");
        line.append(cell_string_text(&self.remarks).as_str());
        line.append(",");
        line.append(cell_u8_text(&self.days).as_str());
        proof {
            reveal_strlit(",");
            reveal_strlit(":");
            assert(","@ =~= seq![',']);
            assert(":"@ =~= seq![':']);
            assert(":"@[0] == ':');
            assert(line@ =~= record_csv_line(*self));
        }
        Ok(line)
    }

    /// Serializes the record for the daily summary. Only a missing
    /// employee refuses the line.
    #[verifier::rlimit(100)]
    pub fn export_rounded_to_daily_csv(&self, is_start: bool) -> (r: Result<String, CoreError>)
        requires
            self.wf(),
        ensures
            self.member is Data ==> (r matches Ok(s) && s@ == record_daily_line(*self, is_start)),
            self.member is NoData ==> (r matches Err(e) && e == CoreError::MissingData),
    {
        let member = match self.member.peek() {
            Ok(m) => m,
            Err(e) => {
                return Err(e);
            },
        };
        proof {
            reveal_strlit(":");
            assert(":"@ =~= seq![':']);
        }
        let work_text = cell_time_text(&self.work_time);
        let mut line = if is_start {
            String::from_str("*")
        } else {
            String::new()
        };
        line.append(",");
        line.append(cell_date_text(&self.date).as_str());
        line.append(",");
        line.append(cell_member_text(&self.member).as_str());
        line.append(",");
        line.append(member.from.as_str());
        line.append(",");
        line.append("出勤");
        line.append(",");
        line.append(match self.came_at {
            Cell::Data(_) => "1,",
            Cell::NoData => ",1",
        });
        line.append(",");
        line.append(member.start_at().to_text().as_str());
        line.append(",");
        line.append(member.member_type.print_force_breaks().as_str());
        line.append(",");
        line.append(cell_clock_text(&self.left_at).as_str());
        line.append(",");
        line.append(crate::text::replace_char(work_text.as_str(), '.', ":").as_str());
        line.append(",");
        line.append(cell_string_text(&self.remarks).as_str());
        proof {
            reveal_strlit(",");
            reveal_strlit(":");
            assert(","@ =~= seq![',']);
            assert(":"@ =~= seq![':']);
            assert(":"@[0] == ':');
            assert(line@ =~= record_daily_line(*self, is_start));
        }
        Ok(line)
    }
}

/// The column headings of the rounded ledger.
pub fn get_csv_headings() -> (r: &'static str)
    ensures
        r@
            == "年月,社員番号,氏名,日付,日付区分,曜日,規定出勤時刻,出勤時刻,退勤時刻,休憩時間,労働時間,労働時間（HH:mm）,補正労働時間,法定外労働時間,備考,出勤日数"@,
{
    "年月,社員番号,氏名,日付,日付区分,曜日,規定出勤時刻,出勤時刻,退勤時刻,休憩時間,労働時間,労働時間（HH:mm）,補正労働時間,法定外労働時間,備考,出勤日数"
}

/// The column headings of the daily summary.
pub fn get_daily_csv_headings() -> (r: &'static str)
    ensures
        r@
            == "レコードの開始行,生産日,管理番号,作業者,派遣元,出勤,出勤[出勤],出勤[欠勤],開始_time1,休憩15:00[有り],休憩15:00[無し],休憩17:00[有り],休憩17:00[無し],退勤,勤務時間,備考"@,
{
    "レコードの開始行,生産日,管理番号,作業者,派遣元,出勤,出勤[出勤],出勤[欠勤],開始_time1,休憩15:00[有り],休憩15:00[無し],休憩17:00[有り],休憩17:00[無し],退勤,勤務時間,備考"
}

/// Whether a readable employee id resolves against the roster; the one
/// condition on which an attendance row yields a record.
pub open spec fn record_of_strs_ok(roster: Seq<Member>, member_id: Seq<char>) -> bool {
    match u16_of_text(member_id) {
        Some(id) => lookup_member(roster, id) is Some,
        None => false,
    }
}

/// The date as `annotate` leaves it: held against the holiday calendar.
pub open spec fn annotated_date(d: Date, offs: Seq<Date>) -> Date {
    Date {
        raw_date: d.raw_date,
        date_type: if on_holiday_list(d.raw_date, offs) {
            DateKind::Off
        } else {
            DateKind::On
        },
    }
}

/// The record a row of field texts denotes, field by field.
pub open spec fn record_matches(
    r: Record,
    roster: Seq<Member>,
    offs: Seq<Date>,
    month: Seq<char>,
    member_id: Seq<char>,
    date: Seq<char>,
    day: Seq<char>,
    came_at: Seq<char>,
    left_at: Seq<char>,
    break_time: Seq<char>,
    work_time: Seq<char>,
    remarks: Seq<char>,
    days: Seq<char>,
) -> bool {
    &&& r.month == cell_of(month_of_text(month))
    &&& (match u16_of_text(member_id) {
        Some(id) => match lookup_member(roster, id) {
            Some(m) => r.member == Cell::<Member>::Data(m),
            None => false,
        },
        None => false,
    })
    &&& (r.date == match date_of_text(date) {
        Some(d) => Cell::<Date>::Data(annotated_date(d, offs)),
        None => Cell::<Date>::NoData,
    })
    &&& r.day == Cell::<DayKind>::Data(daykind_of_text(day))
    &&& r.came_at == cell_of(clock_of_text(came_at))
    &&& r.left_at == cell_of(clock_of_text(left_at))
    &&& (r.break_time == Cell::<Time>::Data(
        match time_of_text(break_time) {
            Some(t) => t,
            None => Time { hours: 0, minutes: 0 },
        },
    ))
    &&& r.work_time == cell_of(time_of_text(work_time))
    &&& (r.remarks matches Cell::Data(s) && s@ == remarks)
    &&& r.days == cell_of(u8_of_text(days))
}

impl Record {
    /// Builds a record from one row's field texts. A field that does not
    /// parse becomes absent; only an unreadable id or one missing from
    /// the roster refuses the row. The date is annotated on the way in.
    pub fn from_strs(
        roster: &Vec<Member>,
        off_list: &[Date],
        month: &str,
        member_id: &str,
        date: &str,
        day: &str,
        came_at: &str,
        left_at: &str,
        break_time: &str,
        work_time: &str,
        remarks: &str,
        days: &str,
    ) -> (r: Result<Self, CoreError>)
        ensures
            record_of_strs_ok(roster@, member_id@) ==> (r matches Ok(rec) && record_matches(
                rec,
                roster@,
                off_list@,
                month@,
                member_id@,
                date@,
                day@,
                came_at@,
                left_at@,
                break_time@,
                work_time@,
                remarks@,
                days@,
            ) && rec.wf()),
            !record_of_strs_ok(roster@, member_id@) ==> (r matches Err(e) && e == (
            if u16_of_text(member_id@) is None {
                CoreError::BadFormat
            } else {
                CoreError::MemberNotFound
            })),
    {
        let id = match parse_u16(member_id) {
            Ok(n) => n,
            Err(e) => {
                return Err(e);
            },
        };
        let member = match find_member(roster, id) {
            Some(m) => m,
            None => {
                return Err(CoreError::MemberNotFound);
            },
        };

        let month_cell = match Month::from_text(month) {
            Ok(m) => Cell::Data(m),
            Err(_) => Cell::NoData,
        };
        let date_cell = match Date::from_text(date) {
            Ok(d) => Cell::Data(d.annotate(off_list)),
            Err(_) => Cell::NoData,
        };
        let day_cell = Cell::Data(DayKind::from_text(day));
        let came_cell = match Clock::from_text(came_at) {
            Ok(c) => Cell::Data(c),
            Err(_) => Cell::NoData,
        };
        let left_cell = match Clock::from_text(left_at) {
            Ok(c) => Cell::Data(c),
            Err(_) => Cell::NoData,
        };
        let break_cell = match Time::from_text(break_time) {
            Ok(t) => Cell::Data(t),
            Err(_) => Cell::NoData,
        };
        let break_cell = break_cell.or(Time::new(0, 0));
        let work_cell = match Time::from_text(work_time) {
            Ok(t) => Cell::Data(t),
            Err(_) => Cell::NoData,
        };
        let remarks_cell = Cell::Data(String::from_str(remarks));
        let days_cell = match crate::text::parse_u8(days) {
            Ok(n) => Cell::Data(n),
            Err(_) => Cell::NoData,
        };

        Ok(
            Self {
                month: month_cell,
                member: Cell::Data(member),
                date: date_cell,
                day: day_cell,
                came_at: came_cell,
                left_at: left_cell,
                break_time: break_cell,
                work_time: work_cell,
                remarks: remarks_cell,
                days: days_cell,
            },
        )
    }
}

/// An attendance row that yields a record: its id column reads as a
/// number that the roster resolves.
pub open spec fn record_row_keeps(row: Seq<String>, roster: Seq<Member>) -> bool {
    record_of_strs_ok(roster, row_field(row, 1))
}

/// The attendance rows that yield records.
pub open spec fn kept_record_rows(rows: Seq<Vec<String>>, roster: Seq<Member>) -> Seq<
    Vec<String>,
> {
    rows_kept(rows, |row: Seq<String>| record_row_keeps(row, roster))
}

/// The record a kept attendance row denotes. The row's columns are the
/// period, the employee id, a skipped column, the date, the weekday, the
/// punches, the declared break, the declared work time, remarks, and the
/// day count.
pub open spec fn record_matches_row(
    r: Record,
    row: Seq<String>,
    roster: Seq<Member>,
    offs: Seq<Date>,
) -> bool {
    record_matches(
        r,
        roster,
        offs,
        row_field(row, 0),
        row_field(row, 1),
        row_field(row, 3),
        row_field(row, 4),
        row_field(row, 5),
        row_field(row, 6),
        row_field(row, 7),
        row_field(row, 8),
        row_field(row, 9),
        row_field(row, 10),
    )
}

/// Builds the day's records from already-split rows, dropping every row
/// whose employee cannot be resolved and keeping the rest in order.
pub fn collect_from_csv(rows: &Vec<Vec<String>>, roster: &Vec<Member>, off_list: &[Date]) -> (r:
    Vec<Record>)
    ensures
        r@.len() == kept_record_rows(rows@, roster@).len(),
        forall|i: int|
            0 <= i < r@.len() ==> record_matches_row(
                #[trigger] r@[i],
                kept_record_rows(rows@, roster@)[i]@,
                roster@,
                off_list@,
            ) && r@[i].wf(),
{
    let mut out: Vec<Record> = Vec::new();
    let mut i: usize = 0;
    while i < rows.len()
        invariant
            0 <= i <= rows@.len(),
            out@.len() == kept_record_rows(rows@.subrange(0, i as int), roster@).len(),
            forall|j: int|
                0 <= j < out@.len() ==> record_matches_row(
                    #[trigger] out@[j],
                    kept_record_rows(rows@.subrange(0, i as int), roster@)[j]@,
                    roster@,
                    off_list@,
                ) && out@[j].wf(),
        decreases rows@.len() - i,
    {
        proof {
            assert(rows@.subrange(0, i as int + 1).drop_last() =~= rows@.subrange(0, i as int));
            assert(rows@.subrange(0, i as int + 1).last() == rows@[i as int]);
        }
        let row = &rows[i];
        let f0 = row_field_str(row, 0);
        let f1 = row_field_str(row, 1);
        let f3 = row_field_str(row, 3);
        let f4 = row_field_str(row, 4);
        let f5 = row_field_str(row, 5);
        let f6 = row_field_str(row, 6);
        let f7 = row_field_str(row, 7);
        let f8 = row_field_str(row, 8);
        let f9 = row_field_str(row, 9);
        let f10 = row_field_str(row, 10);
        match Record::from_strs(
            roster,
            off_list,
            f0,
            f1,
            f3,
            f4,
            f5,
            f6,
            f7,
            f8,
            f9,
            f10,
        ) {
            Ok(rec) => out.push(rec),
            Err(_) => {},
        }
        i = i + 1;
    }
    proof {
        assert(rows@.subrange(0, rows@.len() as int) =~= rows@);
    }
    out
}

} // verus!
