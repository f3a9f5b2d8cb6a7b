//! The cooperative stop signal shared by every loop of a run.

use vstd::prelude::*;
use std::sync::atomic::{AtomicBool, Ordering};

verus! {

/// A stop request that any thread may raise and every loop polls at its
/// natural boundaries. Another thread may change it at any moment, so a
/// read promises nothing about the next one.
pub struct StopFlag {
    requested: AtomicBool,
}

impl StopFlag {
    /// A flag with no stop requested.
    pub fn new() -> StopFlag {
        StopFlag { requested: AtomicBool::new(false) }
    }
}

/// Asks every loop to stop at its next check.
pub fn request_stop(flag: &StopFlag) {
    flag.requested.store(true, Ordering::SeqCst);
}

/// Whether a stop has been requested.
pub fn should_stop(flag: &StopFlag) -> bool {
    flag.requested.load(Ordering::SeqCst)
}

/// Withdraws the stop request, before a new run starts.
pub fn reset_stop(flag: &StopFlag) {
    flag.requested.store(false, Ordering::SeqCst);
}

} // verus!
