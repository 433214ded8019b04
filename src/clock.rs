//! Local wall-clock time of day, as the records show it.
use vstd::prelude::*;

use chrono::Timelike;

verus! {

/// A time of day to the millisecond. `second` is 60 only during a leap
/// second.
#[derive(Clone, Copy, PartialEq, Eq, Structural, Debug)]
pub struct ClockTime {
    pub hour: u32,
    pub minute: u32,
    pub second: u32,
    pub millis: u32,
}

impl ClockTime {
    /// Each field lies in its range.
    pub open spec fn wf(&self) -> bool {
        &&& self.hour < 24
        &&& self.minute < 60
        &&& self.second <= 60
        &&& self.millis < 1000
    }

    /// The time from clock readings: `nanosecond` counts from the start of the
    /// second, and from 1_000_000_000 on it marks a leap second, shown as
    /// second 60.
    pub fn from_parts(hour: u32, minute: u32, second: u32, nanosecond: u32) -> (t: ClockTime)
        requires
            hour < 24,
            minute < 60,
            second < 60,
            nanosecond < 2_000_000_000,
        ensures
            t.wf(),
            t.hour == hour,
            t.minute == minute,
            t.second == second + nanosecond / 1_000_000_000,
            t.millis == nanosecond / 1_000_000 % 1000,
    {
        ClockTime {
            hour,
            minute,
            second: second + nanosecond / 1_000_000_000,
            millis: nanosecond / 1_000_000 % 1000,
        }
    }

    /// The local time now. Nothing is promised of its value but its ranges:
    /// the wall clock may also step back.
    pub fn now() -> (t: ClockTime)
        ensures
            t.wf(),
    {
        let (hour, minute, second, nanosecond) = local_time_of_day();
        ClockTime::from_parts(hour, minute, second, nanosecond)
    }
}

/// Relies on chrono's `Local::now` and its `Timelike` getters, as documented:
/// `hour` in 0..=23, `minute` and `second` in 0..=59, and `nanosecond` below
/// 2_000_000_000 (the upper half marks a leap second).
#[verifier::external_body]
fn local_time_of_day() -> (r: (u32, u32, u32, u32))
    ensures
        r.0 < 24,
        r.1 < 60,
        r.2 < 60,
        r.3 < 2_000_000_000,
{
    let now = chrono::Local::now();
    (now.hour(), now.minute(), now.second(), now.nanosecond())
}

} // verus!
