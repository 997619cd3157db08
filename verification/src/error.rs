//! The ways in which a reduction or a validation fails.

use crate::layout::Section;
use vstd::prelude::*;

verus! {

/// Why a point of an accumulator is rejected.
#[derive(Clone, Copy, Debug, PartialEq, Eq, Structural)]
pub enum PointFault {
    /// The bytes do not decode to a point of the group.
    Malformed,
    /// The bytes decode to the identity of the group.
    Identity,
}

/// A failure of the reducer or of the validator. Each is final.
#[derive(Clone, Copy, Debug, PartialEq, Eq, Structural)]
pub enum ReduceError {
    /// The size of the accumulator is that of no supported power.
    UnsupportedSize,
    /// The target power is larger than the power of the input.
    TargetTooLarge,
    /// The input ends before the point that is due.
    TruncatedInput,
    /// A point of the accumulator is rejected.
    InvalidPoint { section: Section, index: u64, fault: PointFault },
}

} // verus!
