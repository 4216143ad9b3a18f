//! Descriptions of accesses to buffers.

use crate::command_buffer::Submission;
use crate::sync::Semaphore;
use std::sync::Arc;
use vstd::prelude::*;

verus! {

/// How to use a buffer.
#[derive(Debug, Copy, Clone, PartialEq, Eq, Structural)]
pub struct Usage {
    pub transfer_source: bool,
    pub transfer_dest: bool,
    pub uniform_texel_buffer: bool,
    pub storage_texel_buffer: bool,
    pub uniform_buffer: bool,
    pub storage_buffer: bool,
    pub index_buffer: bool,
    pub vertex_buffer: bool,
    pub indirect_buffer: bool,
}

/// An access of the GPU to a block of a buffer.
#[derive(Debug, Copy, Clone, PartialEq, Eq, Structural)]
pub struct AccessRange {
    /// The block that is accessed.
    pub block: usize,
    /// Whether the block is written.
    pub write: bool,
}

/// What a submission has to do because of its access to a buffer.
#[derive(Debug)]
pub struct GpuAccessResult<F> {
    /// Submissions that must end before the new one starts.
    pub dependencies: Vec<Arc<Submission<F>>>,
    /// A semaphore to wait on.
    pub additional_wait_semaphore: Option<Semaphore>,
    /// A semaphore to signal.
    pub additional_signal_semaphore: Option<Semaphore>,
}

} // verus!
