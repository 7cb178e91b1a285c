//! Compile-time configuration of the terrain and its animation.
use vstd::prelude::*;

verus! {

/// Scale-down factor from world size to grid resolution.
pub const SCL: u32 = 2;

/// World size of the terrain, in world units.
pub const DIMENTIONS: u32 = 600;

/// Number of grid cells along each side: `DIMENTIONS / SCL`.
pub const SIZE: u32 = 300;

/// Number of precomputed animation frames.
pub const FRAMES_NUMBER: u32 = 60;

/// Side length of a chunk, in cells: `2 << 6`.
pub const CHUNK_RES: u32 = 128;

/// Number of fixed-point height steps per world unit.
pub const HEIGHT_UNIT: i64 = 1_000_000;

/// A configuration that the mesh or its animation cannot be built from.
#[derive(Clone, Copy, Debug, PartialEq, Eq, Structural)]
pub enum ConfigError {
    /// Fewer than two animation frames, or an empty grid.
    InvalidConfiguration,
}

} // verus!
