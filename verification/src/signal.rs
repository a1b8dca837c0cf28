//! The two values that the workers of one run share: the stop signal and
//! the attempt counter.

use std::sync::atomic::{AtomicBool, AtomicU64, Ordering};
use vstd::prelude::*;

verus! {

/// Reads the stop signal. Another worker may raise it at any moment, so
/// nothing is known of the answer.
pub(crate) fn stop_requested(found: &AtomicBool) -> bool {
    found.load(Ordering::Relaxed)
}

/// Raises the stop signal.
pub(crate) fn request_stop(found: &AtomicBool) {
    found.store(true, Ordering::Relaxed);
}

/// Adds one to the attempt counter.
pub(crate) fn count_attempt(attempts: &AtomicU64) {
    let _ = attempts.fetch_add(1, Ordering::Relaxed);
}

} // verus!
