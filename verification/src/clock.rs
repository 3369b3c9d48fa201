use vstd::prelude::*;
use chrono::{Datelike, Timelike};

verus! {

/// One UTC instant as the scheduler sees it: the count of non-leap seconds
/// since the Unix epoch, together with the calendar fields of the same
/// instant broken out as plain values, so that the pure scheduling logic can
/// read them without consulting a clock library.
#[derive(Clone, Copy, Debug, PartialEq, Eq, Structural)]
pub struct ClockTime {
    /// Non-leap seconds since 1970-01-01T00:00:00Z; negative before then.
    pub secs: i64,
    /// Hour of the day, `0 ..= 23`.
    pub hour: u8,
    /// Minute of the hour, `0 ..= 59`.
    pub minute: u8,
    /// Second of the minute, `0 ..= 59`.
    pub second: u8,
    /// Days since Monday: 0 = Monday, ..., 6 = Sunday.
    pub weekday: u8,
    /// Day of the month, `1 ..= 31`.
    pub day: u8,
    /// Month of the year, `1 ..= 12`.
    pub month: u8,
}

impl ClockTime {
    /// Every calendar field lies in its documented range.
    pub open spec fn wf(self) -> bool {
        &&& self.hour < 24
        &&& self.minute < 60
        &&& self.second < 60
        &&& self.weekday < 7
        &&& 1 <= self.day <= 31
        &&& 1 <= self.month <= 12
    }
}

/// Relies on chrono's `Utc::now` and its `Timelike`/`Datelike` accessors:
/// `timestamp` is the count of non-leap seconds since the Unix epoch, and
/// `hour`, `minute`, `second`, `weekday().num_days_from_monday`, `day` and
/// `month` return the calendar fields of the same instant, each within the
/// range its documentation states. Nothing more can be promised of a clock
/// read: two calls may return anything, in any order.
#[verifier::external_body]
pub fn now_clock() -> (t: ClockTime)
    ensures
        t.wf(),
{
    let now = chrono::Utc::now();
    ClockTime {
        secs: now.timestamp(),
        hour: now.hour() as u8,
        minute: now.minute() as u8,
        second: now.second() as u8,
        weekday: now.weekday().num_days_from_monday() as u8,
        day: now.day() as u8,
        month: now.month() as u8,
    }
}

} // verus!
