//! A small 2D arcade simulation: a player ball steered by directional keys and
//! a fixed set of enemy balls that bounce off the window edges, all confined to
//! the visible window.
//!
//! Positions, directions and sizes are carried in milli-units: 1000 of them
//! make one world unit. A direction vector is unit length (magnitude close to
//! `MILLI`) or exactly zero.

use vstd::prelude::*;

pub mod math;
pub mod sim;
mod rng;

verus! {

/// Scale of the fixed-point representation: milli-units per world unit.
pub const MILLI: i64 = 1000;

/// Edge length of every sprite, in milli-units (64 world units).
pub const SPRITE_SIZE: i64 = 64 * MILLI;

/// Player speed in milli-units per second (500 world units per second).
pub const PLAYER_SPEED: i64 = 500 * MILLI;

/// Enemy speed in milli-units per second (200 world units per second).
pub const ENEMY_SPEED: i64 = 200 * MILLI;

/// Number of enemies spawned at startup.
pub const ENEMY_MAX_COUNT: usize = 5;

} // verus!
