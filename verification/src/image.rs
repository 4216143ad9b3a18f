//! Images, as far as a render pass names them.

use vstd::prelude::*;

verus! {

/// Layout of an image in memory.
#[derive(Debug, Copy, Clone, PartialEq, Eq, Structural, Hash)]
pub enum ImageLayout {
    Undefined,
    General,
    ColorAttachmentOptimal,
    DepthStencilAttachmentOptimal,
    DepthStencilReadOnlyOptimal,
    ShaderReadOnlyOptimal,
    TransferSrcOptimal,
    TransferDstOptimal,
    Preinitialized,
    PresentSrc,
}

/// An image, by its Vulkan handle.
#[derive(Debug, Copy, Clone, PartialEq, Eq, Structural, Hash)]
pub struct Image {
    /// The `VkImage` handle.
    pub handle: u64,
}

/// A view of an image, by its Vulkan handle.
#[derive(Debug, Copy, Clone, PartialEq, Eq, Structural, Hash)]
pub struct ImageView {
    /// The `VkImageView` handle.
    pub handle: u64,
}

} // verus!
