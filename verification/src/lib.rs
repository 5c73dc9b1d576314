//! Collision and penetration-resolution engine for a small 2-D platformer.
//!
//! World geometry lives in fixed-point coordinates: every position is an
//! `i64` count of sub-tile units, with [`vector::TILE`] units to a tile.
//! This keeps the whole engine in exact integer arithmetic, so the interval
//! and box primitives, the grid query and the iterative resolution loop are
//! all verified down to their arithmetic.

pub mod animation;
pub mod collision;
pub mod graphics;
pub mod grid;
pub mod input;
pub mod level;
pub mod lift;
pub mod player;
pub mod timer;
pub mod vector;
pub mod water;
