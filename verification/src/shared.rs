//! The state that the workers of one job share: the stop flag and the count
//! of attempts.

use std::sync::atomic::{AtomicBool, AtomicU64, Ordering};
use vstd::prelude::*;

verus! {

/// Lock-free state of one job. It is made when the job starts and read and
/// written by every worker, so no call can say what another thread has left
/// in it.
pub struct SharedSearchState {
    stop_flag: AtomicBool,
    attempts: AtomicU64,
}

/// The count that includes one attempt more than `previous`. The counter
/// wraps round at the end of its range.
pub open spec fn count_after(previous: u64) -> u64 {
    if previous == u64::MAX {
        0
    } else {
        (previous + 1) as u64
    }
}

/// The count that a worker reports for its attempt, from the count that
/// stood before it.
pub fn count_including(previous: u64) -> (count: u64)
    ensures
        count == count_after(previous),
{
    previous.wrapping_add(1)
}

impl SharedSearchState {
    /// Fresh state: no stop requested, no attempt counted.
    pub fn new() -> (state: SharedSearchState) {
        SharedSearchState { stop_flag: AtomicBool::new(false), attempts: AtomicU64::new(0) }
    }

    /// Whether a stop has been requested, as far as this thread can see.
    pub fn stop_requested(&self) -> (stop: bool) {
        self.stop_flag.load(Ordering::Relaxed)
    }

    /// Requests the stop of every worker. It may be called any number of
    /// times, also when the job has already ended.
    pub fn request_stop(&self) {
        self.stop_flag.store(true, Ordering::Relaxed);
    }

    /// Counts one attempt and returns the count that includes it. The count
    /// that stood before is whatever the other workers had left.
    pub fn record_attempt(&self) -> (attempts: u64) {
        count_including(self.attempts.fetch_add(1, Ordering::Relaxed))
    }

    /// A snapshot of the attempts counted so far.
    pub fn total_attempts(&self) -> (attempts: u64) {
        self.attempts.load(Ordering::Relaxed)
    }
}

} // verus!
