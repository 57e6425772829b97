//! Simulation core of a top-down arcade shooter: formation allocation,
//! formation-path motion, projectile motion, collision resolution, spawn
//! cadence and explosion animation, all over fixed-point integer coordinates.
//!
//! Lengths are in thousandths of a world unit, times in microseconds and
//! angles in microradians.
use vstd::prelude::*;

pub mod geom;
pub mod formation;
pub mod motion;
pub mod player;
pub mod collision;
pub mod spawn;
pub mod random;
pub mod explosion;
pub mod world;

verus! {

/// Base movement speed of every moving body, in world units per second.
pub const DEFAULT_SPEED: i64 = 500;

} // verus!
