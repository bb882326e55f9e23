//! Timeout translation between the domain form and the foreign interval
//! encoding.
//!
//! The domain form is `Option<u32>`: `None` means "block without limit",
//! `Some(ms)` is a limit in milliseconds. The foreign form is a single
//! unsigned word whose largest value is the "no timeout" sentinel; the
//! model maps one tick to one millisecond.

use vstd::prelude::*;

verus! {

pub type PRIntervalTime = u32;

pub const PR_INTERVAL_NO_WAIT: PRIntervalTime = 0;

pub const PR_INTERVAL_NO_TIMEOUT: PRIntervalTime = 0xffff_ffff;

pub open spec fn spec_timeout_to_nspr(timeout: Option<u32>) -> PRIntervalTime {
    match timeout {
        None => PR_INTERVAL_NO_TIMEOUT,
        Some(ms) => if ms == PR_INTERVAL_NO_TIMEOUT {
            (PR_INTERVAL_NO_TIMEOUT - 1) as PRIntervalTime
        } else {
            ms
        },
    }
}

pub open spec fn spec_timeout_from_nspr(t: PRIntervalTime) -> Option<u32> {
    if t == PR_INTERVAL_NO_TIMEOUT {
        None
    } else {
        Some(t)
    }
}

/// Domain timeout to foreign interval. A finite limit that collides with
/// the sentinel is clamped one tick down, so a finite limit never turns
/// into "block forever".
pub fn duration_opt_to_nspr(timeout: Option<u32>) -> (r: PRIntervalTime)
    ensures
        r == spec_timeout_to_nspr(timeout),
{
    match timeout {
        None => PR_INTERVAL_NO_TIMEOUT,
        Some(ms) => if ms == PR_INTERVAL_NO_TIMEOUT {
            PR_INTERVAL_NO_TIMEOUT - 1
        } else {
            ms
        },
    }
}

/// Foreign interval back to the domain timeout.
pub fn duration_opt_from_nspr(t: PRIntervalTime) -> (r: Option<u32>)
    ensures
        r == spec_timeout_from_nspr(t),
{
    if t == PR_INTERVAL_NO_TIMEOUT {
        None
    } else {
        Some(t)
    }
}

/// Every finite limit below the sentinel survives the trip to the foreign
/// encoding and back unchanged, and "no limit" does too.
pub proof fn lemma_timeout_round_trip(timeout: Option<u32>)
    requires
        timeout matches Some(ms) ==> ms < PR_INTERVAL_NO_TIMEOUT,
    ensures
        spec_timeout_from_nspr(spec_timeout_to_nspr(timeout)) == timeout,
{
}

} // verus!
