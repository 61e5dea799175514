//! Game-state core of an arcade shooter: airplanes cross a bounded play
//! volume, rockets fired from below disable them, disabled airplanes chain
//! into others, and whatever leaves the world boundary is destroyed.
//!
//! The physics engine and renderer live outside this crate. They hand the
//! core plain values: entity handles, per-tick contact pairs with manifold
//! point counts, and frame deltas. Every rule that decides which entities
//! exist and how contact events mutate their state is verified here.
//!
//! Distances are in thousandths of a world unit, densities in thousandths
//! of a mass unit, and times in milliseconds, so that all state is integer.

use vstd::prelude::*;

pub mod boundary;
pub mod classify;
pub mod contact;
pub mod entity;
pub mod geom;
pub mod laws;
pub mod spawner;
pub mod transition;
pub mod world;

verus! {

/// Width of the visible play area.
pub const VIEWPORT_WIDTH_MILLI: i64 = 4000;

/// Height of the visible play area.
pub const VIEWPORT_HEIGHT_MILLI: i64 = 6000;

/// Margin between the viewport edge and the world-boundary walls.
pub const WORLD_PADDING_MILLI: i64 = 2000;

/// Thickness of the ground slab; the floor boundary sits on top of it.
pub const FLOOR_HEIGHT_MILLI: i64 = 500;

/// A fresh airplane spawns once per this many milliseconds.
pub const SPAWN_PERIOD_MS: u64 = 1000;

/// Height of the airplane model; the spawn point sits half of it below the
/// viewport's top edge.
pub const AIRPLANE_HEIGHT_MILLI: i64 = 1000;

/// Leftward cruise speed of a fresh airplane.
pub const AIRPLANE_SPEED_MILLI: i64 = 1000;

/// Upward force keeping an unharmed, weightless airplane airborne.
pub const AIRPLANE_UPLIFT_MILLI: i64 = 1177;

/// Upward launch speed of a rocket.
pub const ROCKET_SPEED_MILLI: i64 = 25000;

/// A rocket launches this far above the bottom of the viewport.
pub const ROCKET_LAUNCH_HEIGHT_MILLI: i64 = 1000;

/// Horizontal spawn position of an airplane: half the viewport width,
/// offscreen right.
pub const AIRPLANE_START_X_MILLI: i64 = 2000;

/// Vertical spawn position of an airplane: half its height below the top
/// of the play area.
pub const AIRPLANE_START_Y_MILLI: i64 = 2500;

/// Horizontal velocity of a fresh airplane: leftwards across the viewport.
pub const AIRPLANE_VELOCITY_X_MILLI: i64 = -1000;

/// Vertical launch position of a rocket: one launch height above the
/// bottom of the viewport, which puts it below the floor plane.
pub const ROCKET_START_Y_MILLI: i64 = -2000;

/// Ceiling of the kill volume: padding above the top of the viewport.
pub const WORLD_CEILING_Y_MILLI: i64 = 5000;

/// Floor of the kill volume: the top of the ground slab.
pub const WORLD_FLOOR_Y_MILLI: i64 = -2750;

/// Right wall of the kill volume: padding right of the viewport.
pub const WORLD_RIGHT_X_MILLI: i64 = 4000;

/// Left wall of the kill volume: padding left of the viewport.
pub const WORLD_LEFT_X_MILLI: i64 = -4000;

/// Back wall of the kill volume, on the positive z axis.
pub const WORLD_BACK_Z_MILLI: i64 = 12000;

/// Front wall of the kill volume, on the negative z axis.
pub const WORLD_FRONT_Z_MILLI: i64 = -8000;

/// Magnitude bound on coordinates handed to the boundary tests, far
/// outside the play volume; it keeps the plane arithmetic in range.
pub const COORD_LIMIT_MILLI: i64 = 1000000000;

/// Density given to an airplane the moment it is hit, so it falls.
pub const HIT_DENSITY_MILLI: u64 = 5000;

/// Density of a rocket; it has weight and falls back down if it misses.
pub const ROCKET_DENSITY_MILLI: u64 = 2000;

} // verus!
