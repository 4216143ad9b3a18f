//! Submissions of command buffers.

use crate::device::QueueFamily;
use vstd::prelude::*;

verus! {

/// Command buffers that were handed to a queue.
#[derive(Debug)]
pub struct Submission<F> {
    /// Family of the queue that executes the submission.
    pub queue_family: QueueFamily,
    /// Object to wait on for the end of the execution.
    pub fence: F,
}

} // verus!
