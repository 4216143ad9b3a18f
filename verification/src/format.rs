//! Formats of images and the values that clear them.

use vstd::prelude::*;

verus! {

/// Format of an image, by its number in the Vulkan API.
#[derive(Debug, Copy, Clone, PartialEq, Eq, Structural, Hash)]
pub struct Format {
    /// The `VkFormat` value.
    pub code: u32,
}

/// Value that an attachment is cleared with when a render pass starts.
///
/// Floating-point components are held by their IEEE 754 bits.
#[derive(Debug, Copy, Clone)]
pub enum ClearValue {
    /// The attachment is not cleared.
    NotCleared,
    /// Four floating-point color components, by their bits.
    Float([u32; 4]),
    /// Four signed color components.
    Int([i32; 4]),
    /// Four unsigned color components.
    Uint([u32; 4]),
    /// A depth, by its bits.
    Depth(u32),
    /// A stencil value.
    Stencil(u32),
    /// A depth, by its bits, and a stencil value.
    DepthStencil(u32, u32),
}

} // verus!
