//! The portable runtime model: layered file descriptors and the helpers
//! they are built from.

pub mod error;
pub mod fd;
pub mod loopback;
pub mod net;
pub mod pipe;
pub mod time;

use vstd::prelude::*;

verus! {

/// Boolean in the foreign calling convention: zero is false, anything
/// else is true.
pub type PRBool = i32;

pub const PR_TRUE: PRBool = 1;

pub const PR_FALSE: PRBool = 0;

pub fn bool_from_nspr(b: PRBool) -> (r: bool)
    ensures
        r == (b != 0),
{
    b != 0
}

pub fn bool_to_nspr(b: bool) -> (r: PRBool)
    ensures
        r == (if b {
            PR_TRUE
        } else {
            PR_FALSE
        }),
{
    if b {
        PR_TRUE
    } else {
        PR_FALSE
    }
}

/// Runtime initialization. Deliberately explicit and idempotent: callers
/// invoke it once at start-up instead of relying on hidden lazy state.
/// The model keeps no process-wide state, so there is nothing to set up,
/// but the call is kept so that initialization ordering stays visible.
pub fn init() {
}

} // verus!
