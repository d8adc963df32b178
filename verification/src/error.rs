//! The recoverable errors of the grid map.

use vstd::prelude::*;

verus! {

/// What a grid operation reports in place of a result.
#[derive(Clone, Copy, Debug, PartialEq, Eq, Structural)]
pub enum MapError {
    /// The cell lies outside the grid extents.
    OutOfBounds,
    /// No route leads to the target.
    NoPath,
    /// There is no occupant to clear at the cell.
    NoBuilding,
}

impl MapError {
    /// A short description for the user.
    pub fn message(&self) -> (msg: &'static str)
        ensures
            msg@ == (match *self {
                MapError::OutOfBounds => "Tile out of bounds"@,
                MapError::NoPath => "No path found"@,
                MapError::NoBuilding => "No building to clear"@,
            }),
    {
        match self {
            MapError::OutOfBounds => "Tile out of bounds",
            MapError::NoPath => "No path found",
            MapError::NoBuilding => "No building to clear",
        }
    }
}

} // verus!
