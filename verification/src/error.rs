//! What the constructors refuse.

use vstd::prelude::*;

verus! {

/// Why a job or a farm could not be made.
#[derive(Clone, Copy, Debug, PartialEq, Eq, Structural)]
pub enum SimError {
    /// A job was asked for with zero frames per task, which leaves its
    /// number of tasks undefined.
    InvalidChunkSize,
    /// A farm was asked for without any CPU.
    DegenerateCapacity,
}

} // verus!
