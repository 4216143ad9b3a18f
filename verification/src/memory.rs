//! Memory that a buffer is bound to.

use vstd::prelude::*;

verus! {

/// What a buffer asks of the memory that it is bound to.
#[derive(Debug, Copy, Clone, PartialEq, Eq, Structural)]
pub struct MemoryRequirements {
    /// Number of bytes.
    pub size: usize,
    /// The offset within the memory must be a multiple of this value.
    pub alignment: usize,
    /// One bit per memory type that can be used.
    pub memory_type_bits: u32,
}

/// Memory that is mapped in the address space of the CPU.
#[derive(Debug, Copy, Clone, PartialEq, Eq, Structural)]
pub struct MappedMemory {
    /// Address of the first byte.
    pub address: usize,
}

/// A part of a block of memory that was handed out by a memory pool.
#[derive(Debug)]
pub struct MemoryAlloc<M> {
    /// The block of memory.
    pub memory: M,
    /// Offset, in bytes, of the part within the block.
    pub offset: usize,
    /// The mapping of the part, if it has one.
    pub mapped_memory: Option<MappedMemory>,
}

} // verus!
