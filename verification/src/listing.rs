//! The one-line listing text of each task kind, as the task-list command
//! shows it. Each function's contract pins the exact text.

use vstd::prelude::*;
use crate::codec::{spec_render_i64, spec_render_u64};
use crate::condition::DateCondition;
use crate::persist::{i64_string, u64_string};
use crate::tasks::{DateConditionalTask, DateConditionalTaskV, Gulag, GulagV, PeriodicTask, PeriodicTaskV, TaskType};

verus! {

/// A number padded to at least two digits, as clock fields are shown.
pub open spec fn spec_pad2(n: int) -> Seq<char> {
    if n < 10 {
        seq!['0'] + spec_render_u64(n)
    } else {
        spec_render_u64(n)
    }
}

/// The short English name of a weekday, counted from Monday.
pub open spec fn spec_weekday_name(d: int) -> Seq<char> {
    if d == 0 { "Mon"@ }
    else if d == 1 { "Tue"@ }
    else if d == 2 { "Wed"@ }
    else if d == 3 { "Thu"@ }
    else if d == 4 { "Fri"@ }
    else if d == 5 { "Sat"@ }
    else { "Sun"@ }
}

/// The listing text of a calendar condition: each set field shown in
/// order, separated by single spaces, and nothing for a field that is
/// unset. A set time field carries one trailing space of its own.
pub open spec fn spec_condition_list_fmt(c: DateCondition) -> Seq<char> {
    let s0 = Seq::<char>::empty();
    let s1 = match c.time {
        Some(t) => s0 + "T "@ + spec_pad2(t.hour as int) + ":"@ + spec_pad2(t.minute as int)
            + ":"@ + spec_pad2(t.second as int) + " "@,
        None => s0,
    };
    let s2 = match c.weekday {
        Some(wd) => (if s1.len() > 0 { s1 + " "@ } else { s1 }) + "WD "@ + spec_weekday_name(
            wd as int,
        ),
        None => s1,
    };
    let s3 = match c.day_of_month {
        Some(dom) => (if s2.len() > 0 { s2 + " "@ } else { s2 }) + "DOM "@ + spec_render_u64(
            dom as int,
        ),
        None => s2,
    };
    match c.month_of_year {
        Some(moy) => (if s3.len() > 0 { s3 + " "@ } else { s3 }) + "MOY "@ + spec_render_u64(
            moy as int,
        ),
        None => s3,
    }
}

/// A clock field padded to two digits.
fn pad2(n: u64) -> (s: String)
    ensures
        s@ == spec_pad2(n as int),
{
    if n < 10 {
        let mut s = String::from_str("0");
        s.append(u64_string(n).as_str());
        proof {
            reveal_strlit("0");
            assert("0"@ =~= seq!['0']);
            assert(s@ =~= spec_pad2(n as int));
        }
        s
    } else {
        u64_string(n)
    }
}

/// The short English name of a weekday, counted from Monday.
fn weekday_name(d: u8) -> (s: &'static str)
    ensures
        s@ == spec_weekday_name(d as int),
{
    if d == 0 { "Mon" }
    else if d == 1 { "Tue" }
    else if d == 2 { "Wed" }
    else if d == 3 { "Thu" }
    else if d == 4 { "Fri" }
    else if d == 5 { "Sat" }
    else { "Sun" }
}

impl DateCondition {
    /// The listing text of this condition.
    pub fn list_fmt(&self) -> (r: String)
        ensures
            r@ == spec_condition_list_fmt(*self),
    {
        let mut out = String::new();
        if let Some(t) = self.time {
            out.append("T ");
            out.append(pad2(t.hour as u64).as_str());
            out.append(":");
            out.append(pad2(t.minute as u64).as_str());
            out.append(":");
            out.append(pad2(t.second as u64).as_str());
            out.append(" ");
        }
        if let Some(wd) = self.weekday {
            if out.as_str().unicode_len() != 0 {
                out.append(" ");
            }
            out.append("WD ");
            out.append(weekday_name(wd));
        }
        if let Some(dom) = self.day_of_month {
            if out.as_str().unicode_len() != 0 {
                out.append(" ");
            }
            out.append("DOM ");
            out.append(u64_string(dom as u64).as_str());
        }
        if let Some(moy) = self.month_of_year {
            if out.as_str().unicode_len() != 0 {
                out.append(" ");
            }
            out.append("MOY ");
            out.append(u64_string(moy as u64).as_str());
        }
        proof {
            assert(out@ =~= spec_condition_list_fmt(*self));
        }
        out
    }
}

/// The listing line of a suspension.
pub open spec fn spec_gulag_list_fmt(g: GulagV) -> Seq<char> {
    "  G | User \""@ + g.user.0 + "\" ("@ + spec_render_u64(g.user.1 as int) + ") until "@
        + spec_render_i64(g.end as int)
}

impl Gulag {
    /// The listing line of this suspension.
    pub fn list_fmt(&self) -> (r: String)
        ensures
            r@ == spec_gulag_list_fmt(self.deep_view()),
    {
        let mut out = String::from_str("  G | User \"");
        out.append(self.user.0.as_str());
        out.append("\" (");
        out.append(u64_string(self.user.1).as_str());
        out.append(") until ");
        out.append(i64_string(self.end).as_str());
        proof {
            assert(out@ =~= spec_gulag_list_fmt(self.deep_view()));
        }
        out
    }
}

/// The action tag a listing shows.
pub open spec fn spec_action_tag(is_send: bool) -> Seq<char> {
    if is_send {
        "   SEND"@
    } else {
        "UPDATE"@
    }
}

/// The listing line of a recurring fixed-interval task.
pub open spec fn spec_periodic_list_fmt(p: PeriodicTaskV) -> Seq<char> {
    " PT | "@ + spec_action_tag(p.task is SendMessage) + " | Last: "@ + spec_render_i64(
        p.last_sent as int,
    )
}

impl PeriodicTask {
    /// The listing line of the entry.
    pub fn list_fmt(&self) -> (r: String)
        ensures
            r@ == spec_periodic_list_fmt(self.deep_view()),
    {
        let mut out = String::from_str(" PT | ");
        out.append(self.task.list_fmt());
        out.append(" | Last: ");
        out.append(i64_string(self.last_sent).as_str());
        proof {
            assert(out@ =~= spec_periodic_list_fmt(self.deep_view()));
        }
        out
    }
}

/// The listing line of a calendar-conditional task.
pub open spec fn spec_dct_list_fmt(d: DateConditionalTaskV) -> Seq<char> {
    "DCT | "@ + spec_action_tag(d.task is SendMessage) + " | "@ + spec_condition_list_fmt(
        d.condition,
    )
}

impl DateConditionalTask {
    /// The listing line of the entry.
    pub fn list_fmt(&self) -> (r: String)
        ensures
            r@ == spec_dct_list_fmt(self.deep_view()),
    {
        let mut out = String::from_str("DCT | ");
        out.append(self.task.list_fmt());
        out.append(" | ");
        out.append(self.condition.list_fmt().as_str());
        proof {
            assert(out@ =~= spec_dct_list_fmt(self.deep_view()));
        }
        out
    }
}

impl TaskType {
    /// The listing line of the task, whatever its kind.
    pub fn list_fmt(&self) -> (r: String)
        ensures
            r@ == match self.deep_view() {
                crate::tasks::TaskTypeV::Gulag(g) => spec_gulag_list_fmt(g),
                crate::tasks::TaskTypeV::PeriodicTask(p) => spec_periodic_list_fmt(p),
                crate::tasks::TaskTypeV::DateConditionalTask(d) => spec_dct_list_fmt(d),
            },
    {
        match self {
            TaskType::Gulag(g) => g.list_fmt(),
            TaskType::PeriodicTask(p) => p.list_fmt(),
            TaskType::DateConditionalTask(d) => d.list_fmt(),
        }
    }
}

} // verus!
