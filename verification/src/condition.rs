use vstd::prelude::*;
use crate::clock::ClockTime;

verus! {

/// A time of day at second granularity. All comparisons the scheduler makes
/// against the clock are at whole-second granularity.
#[derive(Clone, Copy, Debug, PartialEq, Eq, Structural)]
pub struct TimeOfDay {
    pub hour: u8,
    pub minute: u8,
    pub second: u8,
}

/// A calendar predicate over the current UTC instant. Every field that is
/// `None` is a wildcard and matches any instant; every field that is set
/// must match exactly. A condition with no field set therefore matches every
/// instant.
#[derive(Clone, Copy, Debug, PartialEq, Eq, Structural)]
pub struct DateCondition {
    pub time: Option<TimeOfDay>,
    /// Days since Monday: 0 = Monday, ..., 6 = Sunday.
    pub weekday: Option<u8>,
    pub day_of_month: Option<u32>,
    pub month_of_year: Option<u32>,
}

impl DateCondition {
    /// What it means for this condition to match the instant `now`.
    pub open spec fn spec_matches(self, now: ClockTime) -> bool {
        &&& match self.time {
            Some(t) => t.hour == now.hour && t.minute == now.minute && t.second == now.second,
            None => true,
        }
        &&& match self.weekday {
            Some(wd) => wd == now.weekday,
            None => true,
        }
        &&& match self.day_of_month {
            Some(dom) => dom == now.day as u32,
            None => true,
        }
        &&& match self.month_of_year {
            Some(moy) => moy == now.month as u32,
            None => true,
        }
    }

    /// Decide whether this condition is satisfied at the instant `now`.
    pub fn matches(&self, now: &ClockTime) -> (r: bool)
        ensures
            r == self.spec_matches(*now),
    {
        let time_ok = match self.time {
            Some(t) => t.hour == now.hour && t.minute == now.minute && t.second == now.second,
            None => true,
        };
        let wd_ok = match self.weekday {
            Some(wd) => wd == now.weekday,
            None => true,
        };
        let dom_ok = match self.day_of_month {
            Some(dom) => dom == now.day as u32,
            None => true,
        };
        let moy_ok = match self.month_of_year {
            Some(moy) => moy == now.month as u32,
            None => true,
        };
        time_ok && wd_ok && dom_ok && moy_ok
    }
}

/// A condition with every field unset matches every instant. This is the
/// degenerate always-fire case: such a condition is representable and is
/// deliberately not rejected at construction.
pub proof fn lemma_unset_condition_matches_always(c: DateCondition, now: ClockTime)
    requires
        c.time is None,
        c.weekday is None,
        c.day_of_month is None,
        c.month_of_year is None,
    ensures
        c.spec_matches(now),
{
}

} // verus!
