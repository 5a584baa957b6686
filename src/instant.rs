//! Wall-clock readings as plain values.
use vstd::prelude::*;
use chrono::{Datelike, Timelike};

verus! {

/// The largest distance, in milliseconds, of a reading from the Unix epoch.
pub const MAX_INSTANT_MS: i64 = 10_000_000_000_000_000;

/// A timestamp, in milliseconds since the Unix epoch, within reach of the
/// wall clock.
pub open spec fn valid_instant(t: int) -> bool {
    -MAX_INSTANT_MS <= t <= MAX_INSTANT_MS
}

/// A reading of the local wall clock.
#[derive(Debug, Clone, Copy, PartialEq, Eq, Structural)]
pub struct LocalTime {
    /// Milliseconds since the Unix epoch.
    pub timestamp_ms: i64,
    pub year: i32,
    /// `1..=12`.
    pub month: u32,
    /// `1..=31`.
    pub day: u32,
    /// Days since Sunday, `0..=6`.
    pub weekday: u32,
    /// `0..=23`.
    pub hour: u32,
    /// `0..=59`.
    pub minute: u32,
    /// `0..=59`.
    pub second: u32,
}

impl LocalTime {
    pub open spec fn wf(self) -> bool {
        &&& valid_instant(self.timestamp_ms as int)
        &&& 1 <= self.month <= 12
        &&& 1 <= self.day <= 31
        &&& self.weekday <= 6
        &&& self.hour <= 23
        &&& self.minute <= 59
        &&& self.second <= 59
    }
}

/// Relies on chrono's `Local::now`, read through `timestamp_millis` and the
/// `Datelike` / `Timelike` getters. Their documented ranges: month 1 to 12,
/// day 1 to 31, hour 0 to 23, minute and second 0 to 59, and
/// `Weekday::num_days_from_sunday` 0 to 6 (one of seven days). The timestamp
/// is taken from the UTC date, which chrono keeps within
/// `MIN_YEAR..=MAX_YEAR` (`-262143..=262142`, in `naive/date/mod.rs`): under
/// 262,200 years from 1970, so under 8.3e15 ms from the epoch.
#[verifier::external_body]
pub(crate) fn local_now() -> (r: LocalTime)
    ensures
        r.wf(),
{
    let now = chrono::Local::now();
    LocalTime {
        timestamp_ms: now.timestamp_millis(),
        year: now.year(),
        month: now.month(),
        day: now.day(),
        weekday: now.weekday().num_days_from_sunday(),
        hour: now.hour(),
        minute: now.minute(),
        second: now.second(),
    }
}


/// Reads the local wall clock.
pub fn now() -> (r: LocalTime)
    ensures
        r.wf(),
{
    local_now()
}

} // verus!
