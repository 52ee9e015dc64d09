//! A flag that any holder of a clone can raise to stop long-running work.
use vstd::prelude::*;

use std::sync::Arc;
use std::sync::atomic::AtomicBool;

verus! {

/// A cancellation flag shared by its clones. Another thread may raise it at any
/// moment, so reading it says nothing about the next read.
#[derive(Debug, Clone)]
pub struct CancellationToken {
    cancelled: Arc<AtomicBool>,
}

impl CancellationToken {
    /// A token that is not cancelled.
    pub fn new() -> (token: Self) {
        CancellationToken { cancelled: Arc::new(AtomicBool::new(false)) }
    }

    /// Raises the flag, for this token and every clone of it.
    pub fn cancel(&self) {
        self.cancelled.store(true, std::sync::atomic::Ordering::Release);
    }

    /// Whether the flag has been raised.
    pub fn is_cancelled(&self) -> (r: bool) {
        self.cancelled.load(std::sync::atomic::Ordering::Acquire)
    }
}

impl Default for CancellationToken {
    /// A token that is not cancelled.
    fn default() -> (token: Self) {
        CancellationToken::new()
    }
}

} // verus!
