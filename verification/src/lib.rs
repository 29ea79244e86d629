//! Attendance accounting: wall-clock and duration arithmetic, a 15-minute
//! rounding policy, mandatory-break reconciliation, and per-employee
//! aggregation of daily records into monthly totals.

use vstd::prelude::*;

pub mod cell;
pub mod clock;
pub mod member;
pub mod record;
pub mod render;
pub mod sjis;
pub mod text;
pub mod total;

verus! {

/// The rows of `rows` that `keep` accepts, in their original order.
/// Each loader keeps exactly the rows it can read an entry out of.
pub open spec fn rows_kept(rows: Seq<Vec<String>>, keep: spec_fn(Seq<String>) -> bool) -> Seq<
    Vec<String>,
>
    decreases rows.len(),
{
    if rows.len() == 0 {
        Seq::empty()
    } else {
        let pre = rows_kept(rows.drop_last(), keep);
        if keep(rows.last()@) {
            pre.push(rows.last())
        } else {
            pre
        }
    }
}

/// Why a derived value could not be produced.
#[derive(Clone, Copy, Debug, PartialEq, Eq, Structural)]
pub enum CoreError {
    /// A field needed by the computation is absent.
    MissingData,
    /// The date has not been classified as workday or holiday yet.
    NotAnnotated,
    /// The employee id is not present in the roster.
    MemberNotFound,
    /// The text does not denote a value of the expected shape.
    BadFormat,
}

} // verus!
