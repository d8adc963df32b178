//! Spatial core of a tile-based simulation: a bounded grid of terrain tiles
//! with a buildable overlay and a live movement-cost field, route search over
//! that field, and the movement state machine of the actors that walk it.

use vstd::prelude::*;

pub mod actor;
pub mod entities;
pub mod error;
pub mod grid;
pub mod order;
pub mod path;
pub mod pos;

verus! {

/// Edge length of one grid cell, in pixels.
pub const TILESIZE: i32 = 32;

/// Number of grid columns.
pub const MAPSIZE_MAX_X: i32 = 10;

/// Number of grid rows.
pub const MAPSIZE_MAX_Y: i32 = 10;

} // verus!
