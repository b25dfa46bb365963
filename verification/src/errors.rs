//! Failure kinds of the memory-and-storage core.

use vstd::prelude::*;

verus! {

/// Typed outcome of every fallible operation in the core.
///
/// Frame or heap exhaustion is fatal to the allocator contract (there is no
/// recovery path); virtio errors are reported to the caller and are not
/// fatal to the kernel.
#[derive(Debug, Clone, Copy, PartialEq, Eq, Structural)]
pub enum CoreError {
    /// A virtual page is already mapped; remapping is refused.
    Conflict,
    /// No physical frames or heap space are left.
    Exhausted,
    /// The virtio queue is absent at initialization.
    Unavailable,
    /// The computed virtqueue layout does not fit in one page.
    LayoutTooLarge,
    /// The virtio completion was not observed within the spin budget.
    Timeout,
    /// The virtio device reported a non-zero request status.
    DeviceError,
}

} // verus!
