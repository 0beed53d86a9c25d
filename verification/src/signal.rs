use std::sync::atomic::AtomicBool;
use std::sync::atomic::Ordering;
use vstd::prelude::*;

verus! {

/// The stop flag of a search. It starts lowered, can only be raised, and is
/// polled by every worker before each step.
pub struct CancellationSignal {
    raised: AtomicBool,
}

impl CancellationSignal {
    /// A lowered signal.
    pub fn new() -> CancellationSignal {
        CancellationSignal { raised: AtomicBool::new(false) }
    }

    /// Raises the signal. Raising it again changes nothing.
    pub fn raise(&self) {
        self.raised.store(true, Ordering::Relaxed);
    }

    /// Whether the signal had been raised when it was looked at.
    pub fn is_raised(&self) -> bool {
        self.raised.load(Ordering::Relaxed)
    }
}

} // verus!
