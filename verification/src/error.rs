//! Errors shared by the whole library.

use vstd::prelude::*;

verus! {

/// Error that can happen when there is not enough memory left on the host or on the device.
#[derive(Debug, Copy, Clone, PartialEq, Eq, Structural)]
pub enum OomError {
    /// There is no memory left on the host.
    OutOfHostMemory,
    /// There is no memory left on the device.
    OutOfDeviceMemory,
}

} // verus!
