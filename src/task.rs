use vstd::prelude::*;
use std::sync::Arc;

verus! {

/// A witness held by a background task while its function runs: once every
/// holder has dropped it, the task is known to be finished.
pub struct DropCheck(pub Arc<()>);

/// Error of a background task.
#[derive(Debug, Clone, Copy, PartialEq, Eq, Structural, Hash)]
pub enum TaskError {
    /// The worker thread terminated abnormally; the application goes on
    TaskPanicked,
}

/// Error that can happen while waiting for a one-shot thread.
#[derive(Debug, Clone, Copy, PartialEq, Eq, Structural, PartialOrd, Ord, Hash)]
pub enum AwaitError {
    /// The shared result was still owned elsewhere
    ArcUnlockError,
    /// The background thread panicked
    ThreadJoinError,
    /// The lock around the result was poisoned
    MutexIntoInnerError,
}

} // verus!
