//! The ways in which growing, drawing or fitting a leaf can fail.

use vstd::prelude::*;

verus! {

/// Each failure follows from the inputs alone: trying again gives it again.
#[derive(Clone, Copy, Debug, PartialEq, Eq, Structural)]
pub enum PlantError {
    /// A saved state or an open polygon was asked for when none was left.
    StackUnderflow,
    /// A box has no width along one of its axes, so no scale can be had.
    DegenerateBox,
    /// There is no point to put a box around.
    EmptyGeometry,
}

} // verus!
