//! Compact time input: min : sec . ms. Times are whole milliseconds.

use vstd::prelude::*;

verus! {

/// A time split into minutes, seconds (< 60) and milliseconds (< 1000).
#[derive(Debug, Clone, Copy, PartialEq, Eq, Structural)]
pub struct TimeParts {
    pub mins: u32,
    pub secs: u32,
    pub ms: u32,
}

impl Default for TimeParts {
    fn default() -> (r: Self)
        ensures
            r == (TimeParts { mins: 0, secs: 0, ms: 0 }),
    {
        TimeParts { mins: 0, secs: 0, ms: 0 }
    }
}

impl TimeParts {
    /// Splits a time; the minutes keep their low 32 bits.
    pub fn from_millis(t: u64) -> (r: Self)
        ensures
            r.ms == t % 1000,
            r.secs == (t / 1000) % 60,
            r.mins == (t / 60_000) % 0x1_0000_0000,
    {
        let ms = (t % 1000) as u32;
        let total_s = t / 1000;
        let secs = (total_s % 60) as u32;
        let mins = ((total_s / 60) % 0x1_0000_0000) as u32;
        assert(total_s / 60 == t / 60_000);
        TimeParts { mins, secs, ms }
    }

    /// The time the parts stand for.
    pub fn to_millis(self) -> (r: u64)
        ensures
            r == self.mins * 60_000 + self.secs * 1000 + self.ms,
    {
        self.mins as u64 * 60_000 + self.secs as u64 * 1000 + self.ms as u64
    }
}

/// An edited time kept within `[0, max]` (no upper bound when `max` is 0).
pub fn clamp_edited(t: u64, max: u64) -> (r: u64)
    ensures
        r == if max > 0 && t > max { max } else { t },
{
    if max > 0 && t > max { max } else { t }
}

/// The largest minute the minutes field offers: one past the media's last minute, or
/// 9999 when the length is unknown.
pub fn max_minutes(max: u64) -> (r: u64)
    ensures
        r == if max > 0 { (max + 59_999) / 60_000 + 1 } else { 9999 },
{
    if max > 0 {
        let q = (max as u128 + 59_999) / 60_000;
        (q as u64) + 1
    } else {
        9999
    }
}

} // verus!
