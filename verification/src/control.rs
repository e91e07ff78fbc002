//! Control-loop timing decisions.

use vstd::prelude::*;

verus! {

/// Time left to sleep in a tick: the configured interval less the elapsed
/// processing time, clamped to zero when processing overran, so the sampling
/// cadence stays approximately fixed.
pub fn remaining_sleep_ms(interval_ms: u64, elapsed_ms: u64) -> (r: u64)
    ensures
        r == if elapsed_ms >= interval_ms {
            0
        } else {
            interval_ms - elapsed_ms
        },
{
    if elapsed_ms >= interval_ms {
        0
    } else {
        interval_ms - elapsed_ms
    }
}

} // verus!
