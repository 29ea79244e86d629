//! Employees and their classifications. A classification fixes the nominal
//! start of the working day and the set of mandatory break windows that the
//! work-time rules reconcile against each day's punches.

use vstd::prelude::*;
use crate::CoreError;
use crate::clock::{Clock, Range};
use crate::text::{str_eq, parse_u16, u16_of_text};
use crate::rows_kept;

verus! {

/// An employment category. Unrecognized roster tags map to `Unknown`,
/// which carries no mandatory breaks and the later nominal start.
#[derive(Debug, Clone, Copy, PartialEq, Eq, Structural)]
pub enum MemberKind {
    FullTime,
    Associate,
    PartTimeA,
    PartTimeB,
    PartTimeC,
    PartTimeD,
    Unknown,
}

/// The mid-morning mandatory break window.
pub open spec fn window_mid_morning() -> Range {
    Range {
        start: Clock { hours: 10, minutes: 30 },
        end: Clock { hours: 10, minutes: 40 },
    }
}

/// The mid-afternoon mandatory break window.
pub open spec fn window_mid_afternoon() -> Range {
    Range {
        start: Clock { hours: 15, minutes: 0 },
        end: Clock { hours: 15, minutes: 15 },
    }
}

/// The early-evening mandatory break window.
pub open spec fn window_early_evening() -> Range {
    Range {
        start: Clock { hours: 17, minutes: 15 },
        end: Clock { hours: 17, minutes: 30 },
    }
}

/// The late-evening mandatory break window; defined by the rule table,
/// though no current classification is assigned it.
pub open spec fn window_late_evening() -> Range {
    Range {
        start: Clock { hours: 19, minutes: 30 },
        end: Clock { hours: 19, minutes: 45 },
    }
}

/// The mandatory break windows of each classification, in the order they
/// are reconciled against the day's attendance span.
pub open spec fn break_windows(k: MemberKind) -> Seq<Range> {
    match k {
        MemberKind::FullTime => seq![
            window_mid_morning(),
            window_mid_afternoon(),
            window_early_evening(),
        ],
        MemberKind::Associate => seq![window_mid_morning()],
        MemberKind::PartTimeA => seq![window_mid_morning()],
        MemberKind::PartTimeB => seq![window_mid_morning()],
        MemberKind::PartTimeC => seq![window_mid_morning()],
        MemberKind::PartTimeD => seq![
            window_mid_morning(),
            window_mid_afternoon(),
            window_early_evening(),
        ],
        MemberKind::Unknown => Seq::empty(),
    }
}

/// The nominal start of the working day for each classification.
pub open spec fn nominal_start(k: MemberKind) -> Clock {
    match k {
        MemberKind::FullTime => Clock { hours: 8, minutes: 30 },
        MemberKind::Associate => Clock { hours: 8, minutes: 30 },
        _ => Clock { hours: 9, minutes: 0 },
    }
}

/// The classification a roster tag names; anything unrecognized reads as
/// `Unknown` rather than failing.
pub open spec fn memberkind_of_text(s: Seq<char>) -> MemberKind {
    if s == "LUC社員"@ {
        MemberKind::FullTime
    } else if s == "LUC準社員"@ {
        MemberKind::Associate
    } else if s == "役員"@ {
        MemberKind::FullTime
    } else if s == "A"@ {
        MemberKind::PartTimeA
    } else if s == "B"@ {
        MemberKind::PartTimeB
    } else if s == "C"@ {
        MemberKind::PartTimeC
    } else if s == "D"@ {
        MemberKind::PartTimeD
    } else {
        MemberKind::Unknown
    }
}

impl MemberKind {
    pub fn from_text(s: &str) -> (r: MemberKind)
        ensures
            r == memberkind_of_text(s@),
    {
        if str_eq(s, "LUC社員") {
            MemberKind::FullTime
        } else if str_eq(s, "LUC準社員") {
            MemberKind::Associate
        } else if str_eq(s, "役員") {
            MemberKind::FullTime
        } else if str_eq(s, "A") {
            MemberKind::PartTimeA
        } else if str_eq(s, "B") {
            MemberKind::PartTimeB
        } else if str_eq(s, "C") {
            MemberKind::PartTimeC
        } else if str_eq(s, "D") {
            MemberKind::PartTimeD
        } else {
            MemberKind::Unknown
        }
    }

    /// The mandatory break windows of this classification.
    pub fn force_breaks(&self) -> (r: Vec<Range>)
        ensures
            r@ == break_windows(*self),
    {
        let break0 = Range {
            start: Clock { hours: 10, minutes: 30 },
            end: Clock { hours: 10, minutes: 40 },
        };
        let break1 = Range {
            start: Clock { hours: 15, minutes: 0 },
            end: Clock { hours: 15, minutes: 15 },
        };
        let break2 = Range {
            start: Clock { hours: 17, minutes: 15 },
            end: Clock { hours: 17, minutes: 30 },
        };

        let r: Vec<Range> = match self {
            MemberKind::FullTime => vec![break0, break1, break2],
            MemberKind::Associate => vec![break0],
            MemberKind::PartTimeA => vec![break0],
            MemberKind::PartTimeB => vec![break0],
            MemberKind::PartTimeC => vec![break0],
            MemberKind::PartTimeD => vec![break0, break1, break2],
            MemberKind::Unknown => vec![],
        };
        proof {
            assert(r@ =~= break_windows(*self));
        }
        r
    }

    /// The presence marks of this classification's afternoon and evening
    /// break windows, as the daily report prints them.
    pub fn print_force_breaks(&self) -> (r: String)
        ensures
            r@ == force_breaks_marks(*self),
    {
        match self {
            MemberKind::FullTime => String::from_str("1,,1,"),
            MemberKind::Associate => String::from_str(",1,,1"),
            MemberKind::PartTimeA => String::from_str(",1,,1"),
            MemberKind::PartTimeB => String::from_str(",1,,1"),
            MemberKind::PartTimeC => String::from_str(",1,,1"),
            MemberKind::PartTimeD => String::from_str("1,,1,"),
            MemberKind::Unknown => String::from_str(",,,"),
        }
    }
}

/// The afternoon and evening break-window presence marks of a
/// classification, as the daily report prints them.
pub open spec fn force_breaks_marks(k: MemberKind) -> Seq<char> {
    match k {
        MemberKind::FullTime => "1,,1,"@,
        MemberKind::Associate => ",1,,1"@,
        MemberKind::PartTimeA => ",1,,1"@,
        MemberKind::PartTimeB => ",1,,1"@,
        MemberKind::PartTimeC => ",1,,1"@,
        MemberKind::PartTimeD => "1,,1,"@,
        MemberKind::Unknown => ",,,"@,
    }
}

/// One roster entry: an employee's id, display name, classification, and
/// agency of origin.
#[derive(Debug)]
pub struct Member {
    pub id: u16,
    pub name: String,
    pub member_type: MemberKind,
    pub from: String,
}

impl Clone for Member {
    fn clone(&self) -> (r: Self)
        ensures
            r == *self,
    {
        Member {
            id: self.id,
            name: self.name.clone(),
            member_type: self.member_type,
            from: self.from.clone(),
        }
    }
}

impl Member {
    pub fn new(id: u16, name: String, member_type: MemberKind, from: String) -> (r: Self)
        ensures
            r == (Member { id, name, member_type, from }),
    {
        Self { id, name, member_type, from }
    }

    /// Reads a roster entry out of its four fields. Only an unreadable id
    /// refuses the entry; an unrecognized classification tag does not.
    pub fn from_strs(id: &str, name: &str, member_type: &str, from: &str) -> (r: Result<
        Self,
        CoreError,
    >)
        ensures
            (match u16_of_text(id@) {
                Some(n) => r matches Ok(m) && m.id == n && m.name@ == name@ && m.member_type
                    == memberkind_of_text(member_type@) && m.from@ == from@,
                None => r matches Err(e) && e == CoreError::BadFormat,
            }),
    {
        match parse_u16(id) {
            Ok(n) => Ok(
                Self::new(
                    n,
                    String::from_str(name),
                    MemberKind::from_text(member_type),
                    String::from_str(from),
                ),
            ),
            Err(_) => Err(CoreError::BadFormat),
        }
    }

    /// The nominal start of this employee's working day.
    pub fn start_at(&self) -> (r: Clock)
        ensures
            r == nominal_start(self.member_type),
    {
        match self.member_type {
            MemberKind::FullTime => Clock { hours: 8, minutes: 30 },
            MemberKind::Associate => Clock { hours: 8, minutes: 30 },
            _ => Clock { hours: 9, minutes: 0 },
        }
    }
}

/// Whether two roster references name the same employee entry: every
/// field has to agree.
pub open spec fn member_eq(a: Member, b: Member) -> bool {
    a.id == b.id && a.name@ == b.name@ && a.member_type == b.member_type && a.from@ == b.from@
}

/// Field-for-field comparison of two roster entries.
pub fn same_member(a: &Member, b: &Member) -> (r: bool)
    ensures
        r == member_eq(*a, *b),
{
    a.id == b.id && str_eq(a.name.as_str(), b.name.as_str()) && a.member_type == b.member_type
        && str_eq(a.from.as_str(), b.from.as_str())
}

/// The position of the first roster entry with the given id, or the length
/// of the roster where no entry has it.
pub open spec fn member_pos(roster: Seq<Member>, id: u16) -> int
    decreases roster.len(),
{
    if roster.len() == 0 {
        0
    } else if roster[0].id == id {
        0
    } else {
        1 + member_pos(roster.drop_first(), id)
    }
}

/// The first roster entry with the given id, if the roster has one.
pub open spec fn lookup_member(roster: Seq<Member>, id: u16) -> Option<Member> {
    let i = member_pos(roster, id);
    if i == roster.len() {
        None
    } else {
        Some(roster[i])
    }
}

proof fn lemma_member_pos(roster: Seq<Member>, id: u16)
    ensures
        0 <= member_pos(roster, id) <= roster.len(),
        member_pos(roster, id) < roster.len() ==> roster[member_pos(roster, id)].id == id,
        forall|j: int| 0 <= j < member_pos(roster, id) ==> roster[j].id != id,
    decreases roster.len(),
{
    if roster.len() > 0 && roster[0].id != id {
        lemma_member_pos(roster.drop_first(), id);
        let r = member_pos(roster, id);
        assert forall|j: int| 0 <= j < r implies roster[j].id != id by {
            if j > 0 {
                assert(roster.drop_first()[j - 1] == roster[j]);
            }
        }
    }
}

proof fn lemma_member_pos_unique(roster: Seq<Member>, id: u16, i: int)
    requires
        0 <= i <= roster.len(),
        i < roster.len() ==> roster[i].id == id,
        forall|j: int| 0 <= j < i ==> roster[j].id != id,
    ensures
        member_pos(roster, id) == i,
{
    lemma_member_pos(roster, id);
    let r = member_pos(roster, id);
    if r < i {
        assert(roster[r].id == id);
    } else if i < r {
        assert(i < roster.len());
    }
}

/// The first roster entry with the given id, cloned out of the roster.
pub fn find_member(roster: &Vec<Member>, id: u16) -> (r: Option<Member>)
    ensures
        (r == match lookup_member(roster@, id) {
            Some(m) => Option::<Member>::Some(m),
            None => Option::<Member>::None,
        }),
{
    let mut i: usize = 0;
    while i < roster.len()
        invariant
            0 <= i <= roster@.len(),
            forall|j: int| 0 <= j < i ==> roster@[j].id != id,
        decreases roster@.len() - i,
    {
        if roster[i].id == id {
            proof {
                lemma_member_pos_unique(roster@, id, i as int);
            }
            return Some(roster[i].clone());
        }
        i = i + 1;
    }
    proof {
        lemma_member_pos_unique(roster@, id, roster@.len() as int);
    }
    None
}

/// A roster row that yields an entry: at least the id, name and
/// classification columns, with a readable id.
pub open spec fn member_row_keeps(row: Seq<String>) -> bool {
    row.len() >= 3 && u16_of_text(row[0]@) is Some
}

/// The roster rows that yield entries.
pub open spec fn kept_member_rows(rows: Seq<Vec<String>>) -> Seq<Vec<String>> {
    rows_kept(rows, |row: Seq<String>| member_row_keeps(row))
}

/// The entry a kept roster row denotes.
pub open spec fn member_matches(m: Member, row: Seq<String>) -> bool {
    &&& Some(m.id) == u16_of_text(row[0]@)
    &&& m.name@ == row[1]@
    &&& m.member_type == memberkind_of_text(row[2]@)
    &&& m.from@ == (if row.len() > 3 {
        row[3]@
    } else {
        Seq::<char>::empty()
    })
}

/// Builds the roster from already-split rows, dropping every row that
/// does not yield an entry and keeping the rest in order.
pub fn collect_from_csv(rows: &Vec<Vec<String>>) -> (r: Vec<Member>)
    ensures
        r@.len() == kept_member_rows(rows@).len(),
        forall|i: int|
            0 <= i < r@.len() ==> member_matches(#[trigger] r@[i], kept_member_rows(rows@)[i]@),
{
    let mut out: Vec<Member> = Vec::new();
    let mut i: usize = 0;
    while i < rows.len()
        invariant
            0 <= i <= rows@.len(),
            out@.len() == kept_member_rows(rows@.subrange(0, i as int)).len(),
            forall|j: int|
                0 <= j < out@.len() ==> member_matches(
                    #[trigger] out@[j],
                    kept_member_rows(rows@.subrange(0, i as int))[j]@,
                ),
        decreases rows@.len() - i,
    {
        proof {
            assert(rows@.subrange(0, i as int + 1).drop_last() =~= rows@.subrange(0, i as int));
            assert(rows@.subrange(0, i as int + 1).last() == rows@[i as int]);
        }
        let row = &rows[i];
        if row.len() >= 3 {
            let from_s: &str = if row.len() > 3 {
                row[3].as_str()
            } else {
                ""
            };
            proof {
                if row@.len() <= 3 {
                    reveal_strlit("");
                    assert(""@ =~= Seq::<char>::empty());
                }
            }
            match Member::from_strs(
                row[0].as_str(),
                row[1].as_str(),
                row[2].as_str(),
                from_s,
            ) {
                Ok(m) => out.push(m),
                Err(_) => {},
            }
        }
        i = i + 1;
    }
    proof {
        assert(rows@.subrange(0, rows@.len() as int) =~= rows@);
    }
    out
}

} // verus!
