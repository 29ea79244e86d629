//! Field text for the exported ledgers: every value the reports print,
//! stated exactly as a character sequence. An absent field prints as
//! empty text.

use vstd::prelude::*;
use crate::cell::Cell;
use crate::clock::{Clock, Date, DateKind, DayKind, Month, RawDate, Time};
use crate::member::Member;
use crate::text::{dec_text, pad2_text, pad4_text, pad2, pad4, u16_text};

verus! {

/// The two decimal places of `m` minutes as a fraction of an hour,
/// rounded to the nearest hundredth.
pub open spec fn decimal_frac(m: int) -> int {
    (10 * m + 3) / 6
}

/// A duration as decimal hours to two places, the way the payroll export
/// prints it.
pub open spec fn time_decimal_text(t: Time) -> Seq<char> {
    dec_text(t.hours as nat) + seq!['.'] + pad2_text(decimal_frac(t.minutes as int) as nat)
}

/// A clock value as `"HH:MM"`.
pub open spec fn clock_text(c: Clock) -> Seq<char> {
    pad2_text(c.hours as nat) + seq![':'] + pad2_text(c.minutes as nat)
}

/// A period as `"YYYY/MM"`.
pub open spec fn month_text(m: Month) -> Seq<char> {
    pad4_text(m.year as nat) + seq!['/'] + pad2_text(m.month as nat)
}

/// A date as `"MM/DD"`.
pub open spec fn rawdate_text(d: RawDate) -> Seq<char> {
    pad2_text(d.month as nat) + seq!['/'] + pad2_text(d.date as nat)
}

/// A date annotation as the report prints it.
pub open spec fn datekind_text(k: DateKind) -> Seq<char> {
    match k {
        DateKind::On => "平日"@,
        DateKind::Off => "休日"@,
        DateKind::Unknown => "不明"@,
    }
}

/// A weekday as the report prints it.
pub open spec fn daykind_text(k: DayKind) -> Seq<char> {
    match k {
        DayKind::Sun => "日"@,
        DayKind::Mon => "月"@,
        DayKind::Tue => "火"@,
        DayKind::Wed => "水"@,
        DayKind::Thu => "木"@,
        DayKind::Fri => "金"@,
        DayKind::Sat => "土"@,
        DayKind::Unknown => Seq::empty(),
    }
}

/// A roster entry as `"id,name"`.
pub open spec fn member_text(m: Member) -> Seq<char> {
    dec_text(m.id as nat) + seq![','] + m.name@
}

impl Time {
    /// Decimal hours to two places.
    pub fn to_text(&self) -> (r: String)
        requires
            self.wf(),
        ensures
            r@ == time_decimal_text(*self),
    {
        let mut s = u16_text(self.hours);
        s.append(".");
        let frac: u16 = (10 * self.minutes + 3) / 6;
        s.append(pad2(frac).as_str());
        proof {
            reveal_strlit(".");
            assert("."@ =~= seq!['.']);
            assert(s@ =~= time_decimal_text(*self));
        }
        s
    }
}

impl Clock {
    /// The wall-clock text `"HH:MM"`.
    pub fn to_text(&self) -> (r: String)
        ensures
            r@ == clock_text(*self),
    {
        let mut s = pad2(self.hours);
        s.append(":");
        s.append(pad2(self.minutes).as_str());
        proof {
            reveal_strlit(":");
            assert(":"@ =~= seq![':']);
            assert(s@ =~= clock_text(*self));
        }
        s
    }
}

impl Month {
    /// The period text `"YYYY/MM"`.
    pub fn to_text(&self) -> (r: String)
        ensures
            r@ == month_text(*self),
    {
        let mut s = pad4(self.year);
        s.append("/");
        s.append(pad2(self.month).as_str());
        proof {
            reveal_strlit("/");
            assert("/"@ =~= seq!['/']);
            assert(s@ =~= month_text(*self));
        }
        s
    }
}

impl RawDate {
    /// The date text `"MM/DD"`.
    pub fn to_text(&self) -> (r: String)
        ensures
            r@ == rawdate_text(*self),
    {
        let mut s = pad2(self.month as u16);
        s.append("/");
        s.append(pad2(self.date as u16).as_str());
        proof {
            reveal_strlit("/");
            assert("/"@ =~= seq!['/']);
            assert(s@ =~= rawdate_text(*self));
        }
        s
    }
}

impl DateKind {
    /// The annotation as the report prints it.
    pub fn to_text(&self) -> (r: String)
        ensures
            r@ == datekind_text(*self),
    {
        match self {
            DateKind::On => String::from_str("平日"),
            DateKind::Off => String::from_str("休日"),
            DateKind::Unknown => String::from_str("不明"),
        }
    }
}

impl DayKind {
    /// The weekday as the report prints it.
    pub fn to_text(&self) -> (r: String)
        ensures
            r@ == daykind_text(*self),
    {
        proof {
            reveal_strlit("");
            assert(""@ =~= Seq::<char>::empty());
        }
        match self {
            DayKind::Sun => String::from_str("日"),
            DayKind::Mon => String::from_str("月"),
            DayKind::Tue => String::from_str("火"),
            DayKind::Wed => String::from_str("水"),
            DayKind::Thu => String::from_str("木"),
            DayKind::Fri => String::from_str("金"),
            DayKind::Sat => String::from_str("土"),
            DayKind::Unknown => String::from_str(""),
        }
    }
}

impl Member {
    /// The roster entry as `"id,name"`.
    pub fn to_text(&self) -> (r: String)
        ensures
            r@ == member_text(*self),
    {
        let mut s = u16_text(self.id);
        s.append(",");
        s.append(self.name.as_str());
        proof {
            reveal_strlit(",");
            assert(","@ =~= seq![',']);
            assert(s@ =~= member_text(*self));
        }
        s
    }
}

/// What a possibly absent field prints as: its text, or nothing.
pub open spec fn cell_text<T>(c: Cell<T>, f: spec_fn(T) -> Seq<char>) -> Seq<char> {
    match c {
        Cell::Data(v) => f(v),
        Cell::NoData => Seq::empty(),
    }
}

/// The text of a possibly absent period.
pub fn cell_month_text(c: &Cell<Month>) -> (r: String)
    ensures
        r@ == cell_text(*c, |m: Month| month_text(m)),
{
    match c {
        Cell::Data(m) => m.to_text(),
        Cell::NoData => String::new(),
    }
}

/// The text of a possibly absent roster entry.
pub fn cell_member_text(c: &Cell<Member>) -> (r: String)
    ensures
        r@ == cell_text(*c, |m: Member| member_text(m)),
{
    match c {
        Cell::Data(m) => m.to_text(),
        Cell::NoData => String::new(),
    }
}

/// The text of a possibly absent date: its month/day pair alone.
pub fn cell_date_text(c: &Cell<Date>) -> (r: String)
    ensures
        r@ == cell_text(*c, |d: Date| rawdate_text(d.raw_date)),
{
    match c {
        Cell::Data(d) => d.raw_date.to_text(),
        Cell::NoData => String::new(),
    }
}

/// The text of a possibly absent weekday.
pub fn cell_day_text(c: &Cell<DayKind>) -> (r: String)
    ensures
        r@ == cell_text(*c, |k: DayKind| daykind_text(k)),
{
    match c {
        Cell::Data(k) => k.to_text(),
        Cell::NoData => String::new(),
    }
}

/// The text of a possibly absent clock value.
pub fn cell_clock_text(c: &Cell<Clock>) -> (r: String)
    ensures
        r@ == cell_text(*c, |v: Clock| clock_text(v)),
{
    match c {
        Cell::Data(v) => v.to_text(),
        Cell::NoData => String::new(),
    }
}

/// The text of a possibly absent duration, as decimal hours.
pub fn cell_time_text(c: &Cell<Time>) -> (r: String)
    requires
        c matches Cell::Data(t) ==> t.wf(),
    ensures
        r@ == cell_text(*c, |t: Time| time_decimal_text(t)),
{
    match c {
        Cell::Data(t) => t.to_text(),
        Cell::NoData => String::new(),
    }
}

/// The text of a possibly absent remark.
pub fn cell_string_text(c: &Cell<String>) -> (r: String)
    ensures
        r@ == cell_text(*c, |s: String| s@),
{
    match c {
        Cell::Data(s) => s.clone(),
        Cell::NoData => String::new(),
    }
}

/// The text of a possibly absent day count.
pub fn cell_u8_text(c: &Cell<u8>) -> (r: String)
    ensures
        r@ == cell_text(*c, |n: u8| dec_text(n as nat)),
{
    match c {
        Cell::Data(n) => u16_text(*n as u16),
        Cell::NoData => String::new(),
    }
}

} // verus!
