use std::sync::atomic::AtomicU64;
use std::sync::atomic::Ordering;
use vstd::prelude::*;

verus! {

/// Counts the candidates produced since the count was last taken. It only
/// informs; no decision of the search reads it.
pub struct Throughput {
    count: AtomicU64,
}

impl Throughput {
    /// A counter at zero.
    pub fn new() -> Throughput {
        Throughput { count: AtomicU64::new(0) }
    }

    /// Hands out the count and sets it back to zero, in one atomic step.
    pub fn take(&self) -> u64 {
        self.count.fetch_min(0, Ordering::Relaxed)
    }

    /// Counts one more candidate. The count wraps around at `u64::MAX`.
    pub fn increment(&self) {
        self.count.fetch_add(1, Ordering::Relaxed);
    }
}

} // verus!
