//! Heightfield terrain mesh topology and a looping wave animation over
//! precomputed height frames.
//!
//! Heights are fixed-point integers (`HEIGHT_UNIT` steps per world unit), so
//! every computation here is exact and verified.
mod arith;
pub mod config;
pub mod frames;
pub mod grid;
pub mod indices;
pub mod mesh;
pub mod playback;
