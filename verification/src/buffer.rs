//! Buffers.

pub mod cpu_access;
pub mod creation;
pub mod family_ids;
pub mod traits;
