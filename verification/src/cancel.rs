//! Cancellation shared between a running operation and the code that stops it.

use std::sync::atomic::{AtomicBool, Ordering};
use std::sync::Arc;

use vstd::prelude::*;

verus! {

/// A flag shared by all clones of a token; once cancelled, every clone
/// reports it. Other threads may set it at any time, so no call promises what a
/// later read gives.
#[derive(Clone, Debug, Default)]
pub struct CancellationToken {
    cancelled: Arc<AtomicBool>,
}

impl CancellationToken {
    pub fn new() -> Self {
        CancellationToken { cancelled: Arc::new(AtomicBool::new(false)) }
    }

    /// Marks the token, and all its clones, as cancelled.
    pub fn cancel(&self) {
        self.cancelled.store(true, Ordering::SeqCst);
    }

    /// Whether the token has been cancelled.
    pub fn is_cancelled(&self) -> bool {
        self.cancelled.load(Ordering::SeqCst)
    }
}

} // verus!
