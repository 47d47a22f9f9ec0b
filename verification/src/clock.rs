//! The game clock: turning a tick count into calendar-style segments for
//! display. Simulated time is `tick_count / tick_rate` seconds; the display
//! breaks it greedily into years, months (30 days), weeks, days, hours,
//! minutes and seconds.

use vstd::prelude::*;

verus! {

pub const MINUTE: u64 = 60;

pub const HOUR: u64 = 3600;

pub const DAY: u64 = 86400;

pub const WEEK: u64 = 604800;

pub const MONTH: u64 = 2592000;

pub const YEAR: u64 = 31536000;

/// A duration broken into display segments.
#[derive(Clone, Copy, PartialEq, Eq, Structural, Debug)]
pub struct TimeSegments {
    pub years: u64,
    pub months: u64,
    pub weeks: u64,
    pub days: u64,
    pub hours: u64,
    pub minutes: u64,
    pub seconds: u64,
}

/// Breaks a duration in seconds into display segments, greedily from the
/// largest unit down. The segments recompose exactly to the input, and every
/// segment but the years is below its unit's carrying bound.
pub fn break_down_seconds(total: u64) -> (r: TimeSegments)
    ensures
        r.years * YEAR + r.months * MONTH + r.weeks * WEEK + r.days * DAY + r.hours * HOUR
            + r.minutes * MINUTE + r.seconds == total,
        r.months <= 12,
        r.weeks <= 4,
        r.days <= 6,
        r.hours <= 23,
        r.minutes <= 59,
        r.seconds <= 59,
{
    let years = total / YEAR;
    let rem1 = total % YEAR;
    let months = rem1 / MONTH;
    let rem2 = rem1 % MONTH;
    let weeks = rem2 / WEEK;
    let rem3 = rem2 % WEEK;
    let days = rem3 / DAY;
    let rem4 = rem3 % DAY;
    let hours = rem4 / HOUR;
    let rem5 = rem4 % HOUR;
    let minutes = rem5 / MINUTE;
    let seconds = rem5 % MINUTE;
    TimeSegments { years, months, weeks, days, hours, minutes, seconds }
}

/// The simulated time of a snapshot, in display segments: whole seconds of
/// `tick_count / tick_rate`. A zero tick rate has no defined time; the
/// display skips the frame rather than divide by zero.
pub fn game_time_segments(tick_count: u64, tick_rate: u64) -> (r: Option<TimeSegments>)
    ensures
        match r {
            Some(t) => {
                &&& tick_rate != 0
                &&& t.years * YEAR + t.months * MONTH + t.weeks * WEEK + t.days * DAY + t.hours
                    * HOUR + t.minutes * MINUTE + t.seconds == tick_count / tick_rate
            },
            None => tick_rate == 0,
        },
{
    if tick_rate == 0 {
        None
    } else {
        Some(break_down_seconds(tick_count / tick_rate))
    }
}

} // verus!
