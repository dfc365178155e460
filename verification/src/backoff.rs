//! Reconnect backoff for clients: delays double from one second up to a
//! thirty-second ceiling, and a successful connection resets the state.

use vstd::prelude::*;

verus! {

/// First reconnect delay, in milliseconds.
pub const BACKOFF_FIRST_MS: u32 = 1000;

/// Ceiling on the reconnect delay, in milliseconds.
pub const BACKOFF_MAX_MS: u32 = 30000;

/// The delay after `ms`: a fresh state (0) waits one second, and each
/// retry doubles the wait up to the ceiling.
pub open spec fn spec_next_backoff(ms: u32) -> u32 {
    if ms == 0 {
        BACKOFF_FIRST_MS
    } else if 2 * ms <= BACKOFF_MAX_MS {
        (2 * ms) as u32
    } else {
        BACKOFF_MAX_MS
    }
}

/// Step the backoff state after a failed connection attempt.
pub fn next_backoff(ms: u32) -> (r: u32)
    requires
        ms <= BACKOFF_MAX_MS,
    ensures
        r == spec_next_backoff(ms),
        r <= BACKOFF_MAX_MS,
        ms == 0 ==> r == BACKOFF_FIRST_MS,
{
    if ms == 0 {
        BACKOFF_FIRST_MS
    } else if 2 * ms <= BACKOFF_MAX_MS {
        2 * ms
    } else {
        BACKOFF_MAX_MS
    }
}

/// The backoff state after a successful connection: the next delay, if
/// one is ever needed again, starts over at one second.
pub fn reset_backoff() -> (r: u32)
    ensures
        r == 0,
        spec_next_backoff(r) == BACKOFF_FIRST_MS,
{
    0
}

/// Backoff monotonicity: from any reachable state the delays never
/// shrink, never pass the ceiling, and restart at one second after a
/// reset.
pub proof fn lemma_backoff_monotone(ms: u32)
    requires
        ms == 0 || BACKOFF_FIRST_MS <= ms <= BACKOFF_MAX_MS,
    ensures
        spec_next_backoff(ms) >= ms,
        BACKOFF_FIRST_MS <= spec_next_backoff(ms) <= BACKOFF_MAX_MS,
        spec_next_backoff(0) == BACKOFF_FIRST_MS,
{
}

} // verus!
