//! One employee's period aggregate: the payroll row's own figures carried
//! through unchanged, plus the rounded work time and overtime accumulated
//! by folding that employee's daily records.

use vstd::prelude::*;
use crate::CoreError;
use crate::cell::{Cell, cell_of};
use crate::clock::{Time, time_of_text, lemma_time_of_minutes};
use crate::member::{Member, lookup_member, find_member};
use crate::record::{Record, rounded_work_time_spec, over_work_time_spec};
use crate::render::{cell_text, cell_member_text, cell_time_text, cell_u8_text, member_text, time_decimal_text};
use crate::text::{
    u8_of_text, u16_of_text, parse_u16, row_field, row_field_str, dec_text, replace_char, replaced,
};
use crate::rows_kept;

verus! {

/// One payroll row. The first five fields are read; everything after them
/// is carried through untouched and re-emitted.
#[derive(Debug)]
pub struct Total {
    pub member: Cell<Member>,
    pub nominal_work_days: Cell<u8>,
    pub nominal_work_time: Cell<Time>,
    pub work_days: Cell<u8>,
    pub total_work_time: Cell<Time>,
    pub others: Vec<String>,
    pub rounded_work_time: Cell<Time>,
    pub rounded_over_work_time: Cell<Time>,
}

/// A record's rounded work time in minutes, read as zero where the
/// computation fails: a failed row still contributes a figure.
pub open spec fn rounded_or_zero(r: Record) -> int {
    match rounded_work_time_spec(r) {
        Some(t) => t.total(),
        None => 0,
    }
}

/// A record's overtime in minutes, read as zero where the computation
/// fails.
pub open spec fn over_or_zero(r: Record) -> int {
    match over_work_time_spec(r) {
        Ok(t) => t.total(),
        Err(_) => 0,
    }
}

/// The minutes of rounded work time that a run of records folds to.
pub open spec fn sum_rounded(rs: Seq<&Record>) -> int
    decreases rs.len(),
{
    if rs.len() == 0 {
        0
    } else {
        sum_rounded(rs.drop_last()) + rounded_or_zero(*rs.last())
    }
}

/// The minutes of overtime that a run of records folds to.
pub open spec fn sum_over(rs: Seq<&Record>) -> int
    decreases rs.len(),
{
    if rs.len() == 0 {
        0
    } else {
        sum_over(rs.drop_last()) + over_or_zero(*rs.last())
    }
}

proof fn lemma_sum_rounded_nonneg(rs: Seq<&Record>)
    ensures
        sum_rounded(rs) >= 0,
    decreases rs.len(),
{
    if rs.len() > 0 {
        lemma_sum_rounded_nonneg(rs.drop_last());
    }
}

proof fn lemma_sum_over_nonneg(rs: Seq<&Record>)
    ensures
        sum_over(rs) >= 0,
    decreases rs.len(),
{
    if rs.len() > 0 {
        lemma_sum_over_nonneg(rs.drop_last());
    }
}

proof fn lemma_sum_rounded_prefix(rs: Seq<&Record>, i: int)
    requires
        0 <= i <= rs.len(),
    ensures
        sum_rounded(rs.subrange(0, i)) <= sum_rounded(rs),
    decreases rs.len() - i,
{
    if i == rs.len() {
        assert(rs.subrange(0, i) =~= rs);
    } else {
        lemma_sum_rounded_prefix(rs, i + 1);
        assert(rs.subrange(0, i + 1).drop_last() =~= rs.subrange(0, i));
        assert(sum_rounded(rs.subrange(0, i + 1)) == sum_rounded(rs.subrange(0, i))
            + rounded_or_zero(*rs[i]));
    }
}

proof fn lemma_sum_over_prefix(rs: Seq<&Record>, i: int)
    requires
        0 <= i <= rs.len(),
    ensures
        sum_over(rs.subrange(0, i)) <= sum_over(rs),
    decreases rs.len() - i,
{
    if i == rs.len() {
        assert(rs.subrange(0, i) =~= rs);
    } else {
        lemma_sum_over_prefix(rs, i + 1);
        assert(rs.subrange(0, i + 1).drop_last() =~= rs.subrange(0, i));
        assert(sum_over(rs.subrange(0, i + 1)) == sum_over(rs.subrange(0, i)) + over_or_zero(
            *rs[i],
        ));
    }
}

impl Total {
    /// A payroll aggregate whose every field is absent: the placeholder a
    /// failed row degrades to, preserving row correspondence.
    pub fn empty() -> (r: Self)
        ensures
            r.member is NoData,
            r.nominal_work_days is NoData,
            r.nominal_work_time is NoData,
            r.work_days is NoData,
            r.total_work_time is NoData,
            r.others@.len() == 0,
            r.rounded_work_time is NoData,
            r.rounded_over_work_time is NoData,
    {
        Self {
            member: Cell::NoData,
            nominal_work_days: Cell::NoData,
            nominal_work_time: Cell::NoData,
            work_days: Cell::NoData,
            total_work_time: Cell::NoData,
            others: Vec::new(),
            rounded_work_time: Cell::NoData,
            rounded_over_work_time: Cell::NoData,
        }
    }

    /// Reads a payroll row. Only an unreadable or unresolvable employee id
    /// refuses the row; the accumulators start at zero.
    pub fn from_strs(
        roster: &Vec<Member>,
        member_id: &str,
        nominal_work_days: &str,
        nominal_work_time: &str,
        work_days: &str,
        total_work_time: &str,
        others: Vec<&str>,
    ) -> (r: Result<Self, CoreError>)
        ensures
            (match u16_of_text(member_id@) {
                Some(id) => match lookup_member(roster@, id) {
                    Some(m) => r matches Ok(t) && t.member == Cell::<Member>::Data(m)
                        && t.nominal_work_days == cell_of(u8_of_text(nominal_work_days@))
                        && t.nominal_work_time == cell_of(time_of_text(nominal_work_time@))
                        && t.work_days == cell_of(u8_of_text(work_days@))
                        && t.total_work_time == cell_of(time_of_text(total_work_time@))
                        && t.others@.len() == others@.len()
                        && (forall|i: int| 0 <= i < others@.len() ==> (#[trigger] t.others@[i])@
                            == others@[i]@)
                        && t.rounded_work_time == Cell::<Time>::Data(Time { hours: 0, minutes: 0 })
                        && t.rounded_over_work_time == Cell::<Time>::Data(
                        Time { hours: 0, minutes: 0 },
                    ),
                    None => r matches Err(e) && e == CoreError::MemberNotFound,
                },
                None => r matches Err(e) && e == CoreError::BadFormat,
            }),
    {
        let id = match parse_u16(member_id) {
            Ok(n) => n,
            Err(e) => {
                return Err(e);
            },
        };
        let member = match find_member(roster, id) {
            Some(m) => m,
            None => {
                return Err(CoreError::MemberNotFound);
            },
        };
        let mut copied: Vec<String> = Vec::new();
        let mut i: usize = 0;
        while i < others.len()
            invariant
                0 <= i <= others@.len(),
                copied@.len() == i,
                forall|j: int| 0 <= j < i ==> (#[trigger] copied@[j])@ == others@[j]@,
            decreases others@.len() - i,
        {
            copied.push(String::from_str(others[i]));
            i = i + 1;
        }
        let nominal_days_cell = match crate::text::parse_u8(nominal_work_days) {
            Ok(n) => Cell::Data(n),
            Err(_) => Cell::NoData,
        };
        let nominal_time_cell = match Time::from_text(nominal_work_time) {
            Ok(t) => Cell::Data(t),
            Err(_) => Cell::NoData,
        };
        let days_cell = match crate::text::parse_u8(work_days) {
            Ok(n) => Cell::Data(n),
            Err(_) => Cell::NoData,
        };
        let time_cell = match Time::from_text(total_work_time) {
            Ok(t) => Cell::Data(t),
            Err(_) => Cell::NoData,
        };
        Ok(
            Self {
                member: Cell::Data(member),
                nominal_work_days: nominal_days_cell,
                nominal_work_time: nominal_time_cell,
                work_days: days_cell,
                total_work_time: time_cell,
                others: copied,
                rounded_work_time: Cell::Data(Time::new(0, 0)),
                rounded_over_work_time: Cell::Data(Time::new(0, 0)),
            },
        )
    }

    /// Folds one employee's records, in input order, into the rounded
    /// work-time and overtime accumulators. A record whose computation
    /// fails contributes zero rather than stopping the fold; an absent
    /// accumulator stays absent.
    pub fn total(self, records: Vec<&Record>) -> (r: Result<Self, CoreError>)
        requires
            forall|i: int|
                0 <= i < records@.len() ==> (#[trigger] records@[i]).wf()
                    && records@[i].break_bounded(),
            (self.rounded_work_time matches Cell::Data(t) ==> t.wf() && t.total() + sum_rounded(
                records@,
            ) <= u16::MAX),
            (self.rounded_over_work_time matches Cell::Data(t) ==> t.wf() && t.total() + sum_over(
                records@,
            ) <= u16::MAX),
        ensures
            r matches Ok(t) && {
                &&& t.member == self.member
                &&& t.nominal_work_days == self.nominal_work_days
                &&& t.nominal_work_time == self.nominal_work_time
                &&& t.work_days == self.work_days
                &&& t.total_work_time == self.total_work_time
                &&& t.others == self.others
                &&& (t.rounded_work_time == match self.rounded_work_time {
                    Cell::Data(a) => Cell::<Time>::Data(
                        Time::of_minutes(a.total() + sum_rounded(records@)),
                    ),
                    Cell::NoData => Cell::<Time>::NoData,
                })
                &&& (t.rounded_over_work_time == match self.rounded_over_work_time {
                    Cell::Data(a) => Cell::<Time>::Data(
                        Time::of_minutes(a.total() + sum_over(records@)),
                    ),
                    Cell::NoData => Cell::<Time>::NoData,
                })
            },
    {
        let Total {
            member,
            nominal_work_days,
            nominal_work_time,
            work_days,
            total_work_time,
            others,
            rounded_work_time: mut rounded,
            rounded_over_work_time: mut over,
        } = self;
        let ghost rounded0 = rounded;
        let ghost over0 = over;
        let mut i: usize = 0;
        while i < records.len()
            invariant
                0 <= i <= records@.len(),
                forall|k: int|
                    0 <= k < records@.len() ==> (#[trigger] records@[k]).wf()
                        && records@[k].break_bounded(),
                (rounded0 matches Cell::Data(t) ==> t.wf() && t.total() + sum_rounded(records@)
                    <= u16::MAX),
                (over0 matches Cell::Data(t) ==> t.wf() && t.total() + sum_over(records@)
                    <= u16::MAX),
                (rounded == match rounded0 {
                    Cell::Data(a) => Cell::<Time>::Data(
                        Time::of_minutes(a.total() + sum_rounded(records@.subrange(0, i as int))),
                    ),
                    Cell::NoData => Cell::<Time>::NoData,
                }),
                (over == match over0 {
                    Cell::Data(a) => Cell::<Time>::Data(
                        Time::of_minutes(a.total() + sum_over(records@.subrange(0, i as int))),
                    ),
                    Cell::NoData => Cell::<Time>::NoData,
                }),
            decreases records@.len() - i,
        {
            proof {
                assert(records@.subrange(0, i as int + 1).drop_last() =~= records@.subrange(
                    0,
                    i as int,
                ));
                assert(records@.subrange(0, i as int + 1).last() == records@[i as int]);
                lemma_sum_rounded_prefix(records@, i as int);
                lemma_sum_rounded_prefix(records@, i as int + 1);
                lemma_sum_over_prefix(records@, i as int);
                lemma_sum_over_prefix(records@, i as int + 1);
                lemma_sum_rounded_nonneg(records@.subrange(0, i as int));
                lemma_sum_rounded_nonneg(records@.subrange(0, i as int + 1));
                lemma_sum_over_nonneg(records@.subrange(0, i as int));
                lemma_sum_over_nonneg(records@.subrange(0, i as int + 1));
                if rounded0 is Data {
                    lemma_time_of_minutes(
                        rounded0->Data_0.total() + sum_rounded(records@.subrange(0, i as int)),
                    );
                    lemma_time_of_minutes(
                        rounded0->Data_0.total() + sum_rounded(records@.subrange(0, i as int + 1)),
                    );
                }
                if over0 is Data {
                    lemma_time_of_minutes(
                        over0->Data_0.total() + sum_over(records@.subrange(0, i as int)),
                    );
                    lemma_time_of_minutes(
                        over0->Data_0.total() + sum_over(records@.subrange(0, i as int + 1)),
                    );
                }
            }
            let rec: &Record = records[i];
            let w = match rec.rounded_work_time() {
                Ok(t) => t,
                Err(_) => Time::new(0, 0),
            };
            let o = match rec.over_work_time() {
                Ok(t) => t,
                Err(_) => Time::new(0, 0),
            };
            proof {
                if rounded_work_time_spec(*rec) is Some {
                    crate::record::lemma_rounded_work_mins_bounds(
                        rec.came_at->Data_0,
                        rec.left_at->Data_0,
                        rec.member->Data_0.member_type,
                        rec.break_time->Data_0,
                    );
                    lemma_time_of_minutes(
                        crate::record::rounded_work_mins(
                            rec.came_at->Data_0,
                            rec.left_at->Data_0,
                            rec.member->Data_0.member_type,
                            rec.break_time->Data_0,
                        ),
                    );
                }
                if over_work_time_spec(*rec) is Ok {
                    let d = rec.date->Data_0;
                    let wt = rounded_work_time_spec(*rec)->0;
                    lemma_time_of_minutes(
                        crate::record::sat_sub(
                            wt.total(),
                            crate::record::nominal_mins(d.date_type),
                        ),
                    );
                }
                assert(w.total() == rounded_or_zero(*rec) && w.wf());
                assert(o.total() == over_or_zero(*rec) && o.wf());
            }
            rounded = match rounded {
                Cell::Data(acc) => Cell::Data(acc.merge(&w)),
                Cell::NoData => Cell::NoData,
            };
            over = match over {
                Cell::Data(acc) => Cell::Data(acc.merge(&o)),
                Cell::NoData => Cell::NoData,
            };
            i = i + 1;
        }
        proof {
            assert(records@.subrange(0, records@.len() as int) =~= records@);
        }
        Ok(
            Self {
                member,
                nominal_work_days,
                nominal_work_time,
                work_days,
                total_work_time,
                others,
                rounded_work_time: rounded,
                rounded_over_work_time: over,
            },
        )
    }
}

/// The carried-through tail of a payroll line: each field behind its
/// comma, colons remapped to dots the way the export wants durations.
pub open spec fn others_text(os: Seq<String>) -> Seq<char>
    decreases os.len(),
{
    if os.len() == 0 {
        Seq::empty()
    } else {
        others_text(os.drop_last()) + seq![','] + replaced(os.last()@, ':', '.')
    }
}

/// One line of the rounded totals export: the employee, the payroll
/// figures, the two accumulated figures, then the carried-through tail.
pub open spec fn total_csv_line(t: Total) -> Seq<char> {
    cell_text(t.member, |m: Member| member_text(m)) + seq![','] + cell_text(
        t.nominal_work_days,
        |n: u8| dec_text(n as nat),
    ) + seq![','] + cell_text(t.nominal_work_time, |v: Time| time_decimal_text(v)) + seq![',']
        + cell_text(t.work_days, |n: u8| dec_text(n as nat)) + seq![','] + cell_text(
        t.total_work_time,
        |v: Time| time_decimal_text(v),
    ) + seq![','] + cell_text(t.rounded_work_time, |v: Time| time_decimal_text(v)) + seq![',']
        + cell_text(t.rounded_over_work_time, |v: Time| time_decimal_text(v)) + others_text(
        t.others@,
    )
}

impl Total {
    /// The duration fields hold normalized values.
    pub open spec fn wf(&self) -> bool {
        &&& (self.nominal_work_time matches Cell::Data(t) ==> t.wf())
        &&& (self.total_work_time matches Cell::Data(t) ==> t.wf())
        &&& (self.rounded_work_time matches Cell::Data(t) ==> t.wf())
        &&& (self.rounded_over_work_time matches Cell::Data(t) ==> t.wf())
    }

    /// Serializes the aggregate for the rounded totals export. Absent
    /// fields print as empty text, so the line never fails.
    pub fn export_to_csv(&self) -> (r: String)
        requires
            self.wf(),
        ensures
            r@ == total_csv_line(*self),
    {
        proof {
            reveal_strlit(".");
            assert("."@ =~= seq!['.']);
        }
        let mut line = cell_member_text(&self.member);
        line.append(",");
        line.append(cell_u8_text(&self.nominal_work_days).as_str());
        line.append(",");
        line.append(cell_time_text(&self.nominal_work_time).as_str());
        line.append(",");
        line.append(cell_u8_text(&self.work_days).as_str());
        line.append(",");
        line.append(cell_time_text(&self.total_work_time).as_str());
        line.append(",");
        line.append(cell_time_text(&self.rounded_work_time).as_str());
        line.append(",");
        line.append(cell_time_text(&self.rounded_over_work_time).as_str());
        proof {
            reveal_strlit(",");
            assert(","@ =~= seq![',']);
        }
        let ghost head = line@;
        let mut k: usize = 0;
        while k < self.others.len()
            invariant
                0 <= k <= self.others@.len(),
                line@ =~= head + others_text(self.others@.subrange(0, k as int)),
            decreases self.others@.len() - k,
        {
            proof {
                reveal_strlit(",");
                reveal_strlit(".");
                assert(","@ =~= seq![',']);
                assert("."@ =~= seq!['.']);
                assert("."@[0] == '.');
                assert(self.others@.subrange(0, k as int + 1).drop_last() =~= self.others@.subrange(
                    0,
                    k as int,
                ));
                assert(self.others@.subrange(0, k as int + 1).last() == self.others@[k as int]);
            }
            line.append(",");
            line.append(replace_char(self.others[k].as_str(), ':', ".").as_str());
            k = k + 1;
        }
        proof {
            assert(self.others@.subrange(0, self.others@.len() as int) =~= self.others@);
            assert(line@ =~= total_csv_line(*self));
        }
        line
    }
}

/// The column headings of the rounded totals export.
pub fn get_csv_headings() -> (r: &'static str)
    ensures
        r@
            == "社員コード,氏名,要勤務日数,要勤務時間,出勤日数,出勤時間,補正出勤時間,法定外労働時間,事故欠勤日数,病気欠勤日数,代休特休日数,休日出勤日数,有休消化日数,有休残日数,残業平日普通,残業平日深夜,残業休日普通,残業休日深夜,残業法定普通,残業法定深夜,遅刻早退回数,遅刻早退時間,有休日数消化,有休時間消化,有休日数残,有休時間残,有休可能時間,残業平日普通45下,残業平日普通45超,残業平日普通60超,残業平日普通代休,残業平日深夜45下,残業平日深夜45超,残業平日深夜60超,残業平日深夜代休,残業休日普通45下,残業休日普通45超,残業休日普通60超,残業休日普通代休,残業休日深夜45下,残業休日深夜45超,残業休日深夜60超,残業休日深夜代休,勤怠自由時間1,勤怠自由時間2,勤怠自由時間3,勤怠自由時間4,勤怠自由時間5,勤怠自由時間6,勤怠自由時間7,勤怠自由時間8,勤怠自由時間9,勤怠自由時間10,勤怠自由数値1,勤怠自由数値2,勤怠自由数値3,勤怠自由数値4,勤怠自由数値5,勤怠自由数値6,勤怠自由数値7,勤怠自由数値8,勤怠自由数値9,勤怠自由数値10,回数1,回数2,回数3,回数4,回数5,回数6,回数7,回数8,回数9,回数10,回数11,回数12,回数13,回数14,回数15,回数16,回数17,回数18,回数19,回数20,回数21,回数22,回数23,回数24,回数25,回数26,回数27,回数28,回数29,回数30"@,
{
    "社員コード,氏名,要勤務日数,要勤務時間,出勤日数,出勤時間,補正出勤時間,法定外労働時間,事故欠勤日数,病気欠勤日数,代休特休日数,休日出勤日数,有休消化日数,有休残日数,残業平日普通,残業平日深夜,残業休日普通,残業休日深夜,残業法定普通,残業法定深夜,遅刻早退回数,遅刻早退時間,有休日数消化,有休時間消化,有休日数残,有休時間残,有休可能時間,残業平日普通45下,残業平日普通45超,残業平日普通60超,残業平日普通代休,残業平日深夜45下,残業平日深夜45超,残業平日深夜60超,残業平日深夜代休,残業休日普通45下,残業休日普通45超,残業休日普通60超,残業休日普通代休,残業休日深夜45下,残業休日深夜45超,残業休日深夜60超,残業休日深夜代休,勤怠自由時間1,勤怠自由時間2,勤怠自由時間3,勤怠自由時間4,勤怠自由時間5,勤怠自由時間6,勤怠自由時間7,勤怠自由時間8,勤怠自由時間9,勤怠自由時間10,勤怠自由数値1,勤怠自由数値2,勤怠自由数値3,勤怠自由数値4,勤怠自由数値5,勤怠自由数値6,勤怠自由数値7,勤怠自由数値8,勤怠自由数値9,勤怠自由数値10,回数1,回数2,回数3,回数4,回数5,回数6,回数7,回数8,回数9,回数10,回数11,回数12,回数13,回数14,回数15,回数16,回数17,回数18,回数19,回数20,回数21,回数22,回数23,回数24,回数25,回数26,回数27,回数28,回数29,回数30"
}

/// A payroll row that yields an aggregate: its id column reads as a
/// number that the roster resolves.
pub open spec fn total_row_keeps(row: Seq<String>, roster: Seq<Member>) -> bool {
    match u16_of_text(row_field(row, 0)) {
        Some(id) => lookup_member(roster, id) is Some,
        None => false,
    }
}

/// The payroll rows that yield aggregates.
pub open spec fn kept_total_rows(rows: Seq<Vec<String>>, roster: Seq<Member>) -> Seq<
    Vec<String>,
> {
    rows_kept(rows, |row: Seq<String>| total_row_keeps(row, roster))
}

/// The aggregate a kept payroll row denotes: the five read fields and the
/// carried-through tail.
pub open spec fn total_matches_row(t: Total, row: Seq<String>, roster: Seq<Member>) -> bool {
    &&& (match u16_of_text(row_field(row, 0)) {
        Some(id) => match lookup_member(roster, id) {
            Some(m) => t.member == Cell::<Member>::Data(m),
            None => false,
        },
        None => false,
    })
    &&& t.nominal_work_days == cell_of(u8_of_text(row_field(row, 1)))
    &&& t.nominal_work_time == cell_of(time_of_text(row_field(row, 2)))
    &&& t.work_days == cell_of(u8_of_text(row_field(row, 3)))
    &&& t.total_work_time == cell_of(time_of_text(row_field(row, 4)))
    &&& t.others@.len() == (if row.len() > 5 {
        row.len() - 5
    } else {
        0
    })
    &&& (forall|k: int| 0 <= k < t.others@.len() ==> (#[trigger] t.others@[k])@ == row_field(
        row,
        5 + k,
    ))
    &&& t.rounded_work_time == Cell::<Time>::Data(Time { hours: 0, minutes: 0 })
    &&& t.rounded_over_work_time == Cell::<Time>::Data(Time { hours: 0, minutes: 0 })
}

/// Builds the payroll aggregates from already-split rows, dropping every
/// row whose employee cannot be resolved and keeping the rest in order.
pub fn collect_from_csv(rows: &Vec<Vec<String>>, roster: &Vec<Member>) -> (r: Vec<Total>)
    ensures
        r@.len() == kept_total_rows(rows@, roster@).len(),
        forall|i: int|
            0 <= i < r@.len() ==> total_matches_row(
                #[trigger] r@[i],
                kept_total_rows(rows@, roster@)[i]@,
                roster@,
            ),
{
    let mut out: Vec<Total> = Vec::new();
    let mut i: usize = 0;
    while i < rows.len()
        invariant
            0 <= i <= rows@.len(),
            out@.len() == kept_total_rows(rows@.subrange(0, i as int), roster@).len(),
            forall|j: int|
                0 <= j < out@.len() ==> total_matches_row(
                    #[trigger] out@[j],
                    kept_total_rows(rows@.subrange(0, i as int), roster@)[j]@,
                    roster@,
                ),
        decreases rows@.len() - i,
    {
        proof {
            assert(rows@.subrange(0, i as int + 1).drop_last() =~= rows@.subrange(0, i as int));
            assert(rows@.subrange(0, i as int + 1).last() == rows@[i as int]);
        }
        let row = &rows[i];
        let f0 = row_field_str(row, 0);
        let f1 = row_field_str(row, 1);
        let f2 = row_field_str(row, 2);
        let f3 = row_field_str(row, 3);
        let f4 = row_field_str(row, 4);
        let mut rest: Vec<&str> = Vec::new();
        let mut k: usize = 5;
        while k < row.len()
            invariant
                5 <= k <= row@.len() || (k == 5 && row@.len() <= 5),
                rest@.len() == (if k > 5 { k - 5 } else { 0 }),
                forall|j: int| 0 <= j < rest@.len() ==> (#[trigger] rest@[j])@ == row_field(
                    row@,
                    5 + j,
                ),
            decreases row@.len() - k,
        {
            rest.push(row[k].as_str());
            k = k + 1;
        }
        match Total::from_strs(roster, f0, f1, f2, f3, f4, rest) {
            Ok(t) => out.push(t),
            Err(_) => {},
        }
        i = i + 1;
    }
    proof {
        assert(rows@.subrange(0, rows@.len() as int) =~= rows@);
    }
    out
}

} // verus!
