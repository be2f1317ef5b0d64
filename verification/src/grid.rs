//! World grid: tile size and the rectangular bound of traversable space.
//!
//! Distances are in half-pixel units. A tile is 32 pixels wide, so one
//! lattice step is 64 units. The traversable region spans `TILE_COUNT_X` tiles to
//! each side of the origin on the x axis and `TILE_COUNT_Y` tiles on the y
//! axis; a position is inside the world strictly between the signed bounds.

use vstd::prelude::*;

verus! {

/// Width of one tile of the ground lattice, in half-pixel units.
pub const TILE_SIZE: i32 = 64;

/// Number of tiles between the origin and the world edge, along x.
pub const TILE_COUNT_X: i32 = 12;

/// Number of tiles between the origin and the world edge, along y.
pub const TILE_COUNT_Y: i32 = 8;

/// Signed x bound of the traversable space, in half-pixel units.
pub const WORLD_BOUND_X: i32 = TILE_SIZE * TILE_COUNT_X;

/// Signed y bound of the traversable space, in half-pixel units.
pub const WORLD_BOUND_Y: i32 = TILE_SIZE * TILE_COUNT_Y;

/// An x coordinate lies strictly inside the world.
pub open spec fn in_world_x(x: int) -> bool {
    -(WORLD_BOUND_X as int) < x < WORLD_BOUND_X as int
}

/// A y coordinate lies strictly inside the world.
pub open spec fn in_world_y(y: int) -> bool {
    -(WORLD_BOUND_Y as int) < y < WORLD_BOUND_Y as int
}

/// A lattice column index lies within the spawnable grid.
pub open spec fn in_lattice_x(tx: int) -> bool {
    -(TILE_COUNT_X as int) <= tx <= TILE_COUNT_X as int
}

/// A lattice row index lies within the spawnable grid.
pub open spec fn in_lattice_y(ty: int) -> bool {
    -(TILE_COUNT_Y as int) <= ty <= TILE_COUNT_Y as int
}

} // verus!
