//! The cancellation token: one process-wide, thread-safe boolean, reset
//! at job start, set by an asynchronous cancel request, and sampled by the
//! session loop before each line.
//!
//! The flag is shared with other threads, so no contract can pin down the
//! value a read returns; the session takes the sampled value as an input
//! and is verified for either answer.

use vstd::prelude::*;
use std::sync::Arc;
use core::sync::atomic::AtomicBool;
use core::sync::atomic::Ordering;

verus! {

/// The shared per-application sync state: the cancellation token under
/// which one job at a time may run.
#[derive(Clone)]
pub struct SyncState {
    cancel: Arc<AtomicBool>,
}

impl SyncState {
    /// A fresh state whose cancellation token is clear.
    pub fn new() -> SyncState {
        SyncState { cancel: Arc::new(AtomicBool::new(false)) }
    }

    /// Clear the token at job start, discarding any stale cancel request
    /// left over from a previous job.
    pub fn reset(&self) {
        self.cancel.store(false, Ordering::SeqCst);
    }

    /// Request cancellation of the running job; idempotent, and a no-op
    /// when no job is active.
    pub fn request_cancel(&self) {
        self.cancel.store(true, Ordering::SeqCst);
    }

    /// Sample the token.  Another thread may set it at any moment, so
    /// nothing is promised of the answer; the caller hands it to the
    /// session, which is verified for either value.
    pub fn is_cancel_requested(&self) -> bool {
        self.cancel.load(Ordering::SeqCst)
    }
}

} // verus!
