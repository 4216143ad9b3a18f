//! Render pass descriptions and CPU-accessible buffers, with machine-checked contracts.

pub mod buffer;
pub mod command_buffer;
pub mod device;
pub mod error;
pub mod format;
pub mod framebuffer;
pub mod image;
pub mod memory;
pub mod sync;
