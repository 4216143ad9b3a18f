//! Sharing between queues and waiting for them.

use crate::error::OomError;
use vstd::prelude::*;

verus! {

/// Declares in which queue families a resource can be used.
#[derive(Debug)]
pub enum Sharing {
    /// The resource is used by one queue family at a time.
    Exclusive,
    /// The resource is used by these queue families at the same time.
    Concurrent(Vec<u32>),
}

/// What `Sharing` says: the families of a concurrent resource, in order.
pub enum SharingView {
    Exclusive,
    Concurrent(Seq<u32>),
}

impl View for Sharing {
    type V = SharingView;

    open spec fn view(&self) -> SharingView {
        match self {
            Sharing::Exclusive => SharingView::Exclusive,
            Sharing::Concurrent(ids) => SharingView::Concurrent(ids@),
        }
    }
}

/// Error that can be returned when waiting on a fence.
#[derive(Debug, Copy, Clone, PartialEq, Eq, Structural)]
pub enum FenceWaitError {
    /// Not enough memory to complete the wait.
    OomError(OomError),
    /// The specified timeout wasn't long enough.
    Timeout,
    /// The device has been lost.
    DeviceLostError,
}

/// A semaphore, by its Vulkan handle.
#[derive(Debug, Copy, Clone, PartialEq, Eq, Structural)]
pub struct Semaphore {
    /// The `VkSemaphore` handle.
    pub handle: u64,
}

/// Two ways to share a resource say the same exactly if both are exclusive, or both concurrent between
/// the same families in the same order.
pub proof fn law_sharing_view(a: Sharing, b: Sharing)
    ensures
        a@ == b@ <==> match (a, b) {
            (Sharing::Exclusive, Sharing::Exclusive) => true,
            (Sharing::Concurrent(x), Sharing::Concurrent(y)) => x@ == y@,
            _ => false,
        },
{
}

} // verus!
