//! The display arithmetic: turning an elapsed-time reading into the fields
//! the time display renders. The display shows running totals — whole hours,
//! whole minutes, whole seconds — side by side, plus a single sub-second
//! digit in tenths of a second.

use vstd::prelude::*;

verus! {

/// The four fields of the time display. Each of the first three is a total
/// over the whole elapsed time, not a remainder: 90 000 ms reads as 0 hours,
/// 1 minute, 90 seconds. `tenths` is the single decimal digit of sub-second
/// precision.
#[derive(Clone, Copy, PartialEq, Eq, Structural, Debug)]
pub struct TimeParts {
    pub hours: u64,
    pub minutes: u64,
    pub seconds: u64,
    pub tenths: u64,
}

/// Split an elapsed time in milliseconds into the display's fields: total
/// whole hours, total whole minutes, total whole seconds, and the tenths
/// digit `(ms / 100) mod 10`.
pub fn time_parts(elapsed_ms: u64) -> (t: TimeParts)
    ensures
        t.hours as int == elapsed_ms as int / 3600000,
        t.minutes as int == elapsed_ms as int / 60000,
        t.seconds as int == elapsed_ms as int / 1000,
        t.tenths as int == (elapsed_ms as int / 100) % 10,
        t.tenths < 10,
{
    TimeParts {
        hours: elapsed_ms / 3600000,
        minutes: elapsed_ms / 60000,
        seconds: elapsed_ms / 1000,
        tenths: (elapsed_ms / 100) % 10,
    }
}

} // verus!
