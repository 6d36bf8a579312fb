//! The decision a worker makes on each poll cycle.
//!
//! A worker loops through one cycle per interval: read the lifecycle flag
//! without blocking, sleep for the fixed interval, try to take the oldest
//! pending job, and run it if one was taken. The reads and the sleep happen
//! outside the library; the decisions they feed are stated here.

use vstd::prelude::*;

verus! {

/// How long a worker pauses between poll cycles, in milliseconds. The pause
/// is the sole scheduling mechanism: there is no wake-on-submit signal.
pub const POLL_INTERVAL_MS: u64 = 50;

/// Decide from a non-blocking read of the lifecycle flag whether the worker
/// terminates. `read` is `None` when the flag was momentarily unavailable.
/// The worker exits exactly when the flag was read and was false; an
/// unavailable flag, like a true one, lets the cycle continue.
pub fn should_exit(read: Option<bool>) -> (exit: bool)
    ensures
        exit == (read == Some(false)),
{
    match read {
        Some(live) => !live,
        None => false,
    }
}

} // verus!
