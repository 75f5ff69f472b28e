//! Fixed-point simulation core of a minimal top-down arcade shooter.
//!
//! A single player ship rotates and translates under keyboard input inside a
//! bounded arena, an automatic weapon spawns one bullet per tick, and enemies
//! appear periodically on a ring and home toward the player. The whole
//! simulation runs on integers: positions are measured in subunits of 1/60 of
//! a world unit, so that one fixed 60 Hz tick moves an entity by exactly its
//! speed (given in world units per second) in subunits. Angles are whole
//! degrees, and unit direction vectors are scaled by `DIR_SCALE`.

use vstd::prelude::*;

pub mod homing;
pub mod math;
pub mod movement;
pub mod shooting;
pub mod sim;
pub mod spawner;
pub mod trig;
pub mod world;

verus! {

/// Arena half-extent along x, in subunits (600 world units).
pub const EXT_X: i64 = 36000;

/// Arena half-extent along y, in subunits (320 world units).
pub const EXT_Y: i64 = 19200;

/// Scale of unit direction vectors: a vector of length `DIR_SCALE` stands
/// for a unit vector.
pub const DIR_SCALE: i64 = 10000;

/// Radius of the circle on which enemies spawn, in subunits (400 world
/// units).
pub const SPAWN_RADIUS: i64 = 24000;

/// Largest per-tick step any entity may be configured with, in subunits
/// (1000 world units per second).
pub const MAX_STEP: i64 = 60000;

/// The spawn timer's period, in milliseconds.
pub const TIMER_PERIOD_MS: u64 = 500;

/// Largest real-time delta a single tick may be fed, in milliseconds
/// (one day); keeps the timer arithmetic away from overflow.
pub const MAX_DELTA_MS: u64 = 86_400_000;

/// The player ship's speed, in world units per second (= subunits per tick).
pub const PLAYER_SPEED: i64 = 500;

/// The player ship's turn rate, in degrees per tick (360 degrees per
/// second at 60 ticks per second).
pub const PLAYER_ROT_STEP: u64 = 6;

/// A bullet's speed, in world units per second (= subunits per tick).
pub const BULLET_SPEED: i64 = 750;

/// An enemy's speed, in world units per second (= subunits per tick).
pub const ENEMY_SPEED: i64 = 250;

} // verus!
