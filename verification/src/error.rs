//! The failures that stop the reconstruction of a whole file.

use vstd::prelude::*;

verus! {

/// A failure that stops the reconstruction of a whole file.
#[derive(Debug, Clone, Copy, PartialEq, Eq, Structural)]
pub enum TranspileError {
    /// A `color` property whose value is no decimal integer between the
    /// smallest signed number of 32 bits and the largest number of 64 bits.
    InvalidColor,
    /// A factory function that is reached again while it is being reconstructed.
    CycleDetected,
    /// A class reference whose package path has no segment.
    EmptyPackagePath,
}

} // verus!
