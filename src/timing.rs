//! The wall-clock gates of the driver loop, on elapsed times in nanoseconds.
use vstd::prelude::*;

verus! {

pub const NANOS_PER_SEC: u64 = 1_000_000_000;

/// Rate of the delay and sound timers.
pub const TIMER_HZ: u64 = 60;

/// Rate of the instruction clock.
pub const CLOCK_HZ: u64 = 1000;

/// Wall-clock period of one loop iteration at the instruction clock rate.
pub const FRAME_NANOS: u64 = NANOS_PER_SEC / CLOCK_HZ;

/// Whether the timers are due for a tick: more than 1/60 second has passed
/// since the last one.
pub fn timer_due(elapsed_nanos: u64) -> (r: bool)
    ensures
        r == (elapsed_nanos * TIMER_HZ > NANOS_PER_SEC),
{
    elapsed_nanos > NANOS_PER_SEC / TIMER_HZ
}

/// How long to sleep after an iteration that took `elapsed_nanos`, so that
/// the loop runs at the instruction clock rate; nothing where the iteration
/// already took its whole period.
pub fn frame_sleep(elapsed_nanos: u64) -> (r: Option<u64>)
    ensures
        elapsed_nanos < FRAME_NANOS ==> r == Some((FRAME_NANOS - elapsed_nanos) as u64),
        elapsed_nanos >= FRAME_NANOS ==> r is None,
{
    if elapsed_nanos < FRAME_NANOS {
        Some(FRAME_NANOS - elapsed_nanos)
    } else {
        None
    }
}

} // verus!
