//! The ways an operation of this crate can fail.

use vstd::prelude::*;

verus! {

/// Why an operation was refused.
#[derive(Clone, Copy, Debug, PartialEq, Eq, Structural)]
pub enum GpuError {
    /// A descriptor heap, a placed-resource heap or the upload ring has no capacity or
    /// slot left for the request.
    ResourceExhausted,
    /// An index or handle lies outside the range that is currently allocated.
    InvalidHandle,
    /// A copy into an unmapped resource, a copy larger than its destination, or a
    /// sub-range that leaves its parent.
    PreconditionViolated,
    /// The graphics device reported a failure; nothing can be retried.
    FatalDeviceError,
}

impl GpuError {
    /// Whether a caller may retry after draining or resizing.
    pub open spec fn recoverable(self) -> bool {
        self == GpuError::ResourceExhausted || self == GpuError::PreconditionViolated
    }

    /// Tells whether a caller may retry after draining or resizing.
    pub fn is_recoverable(&self) -> (r: bool)
        ensures
            r == self.recoverable(),
    {
        match self {
            GpuError::ResourceExhausted => true,
            GpuError::PreconditionViolated => true,
            GpuError::InvalidHandle => false,
            GpuError::FatalDeviceError => false,
        }
    }

    /// A short description for logs.
    pub fn message(&self) -> (text: &'static str)
        ensures
            text@ == match *self {
                GpuError::ResourceExhausted => "no capacity left"@,
                GpuError::InvalidHandle => "handle out of range"@,
                GpuError::PreconditionViolated => "precondition violated"@,
                GpuError::FatalDeviceError => "device failure"@,
            },
    {
        match self {
            GpuError::ResourceExhausted => "no capacity left",
            GpuError::InvalidHandle => "handle out of range",
            GpuError::PreconditionViolated => "precondition violated",
            GpuError::FatalDeviceError => "device failure",
        }
    }
}

} // verus!
