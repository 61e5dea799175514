//! The spawners: airplanes on a fixed-period timer, rockets on a discrete
//! fire trigger. Each spawn appends fully initialised rows to the entity
//! table; the engine outside mirrors them with physical bodies.

use vstd::prelude::*;
use crate::entity::{Entity, Kind};
use crate::geom::{zero3, Vec3Milli};
use crate::world::{wf_at, GameWorld};
use crate::{
    AIRPLANE_START_X_MILLI, AIRPLANE_START_Y_MILLI, AIRPLANE_UPLIFT_MILLI,
    AIRPLANE_VELOCITY_X_MILLI, ROCKET_DENSITY_MILLI, ROCKET_SPEED_MILLI, ROCKET_START_Y_MILLI,
    SPAWN_PERIOD_MS,
};

verus! {

/// A fresh airplane root: offscreen right at the top of the play area,
/// weightless, cruising leftwards, held up by a constant uplift force,
/// not hit.
pub open spec fn airplane_root_entity() -> Entity {
    Entity {
        kind: Kind::Airplane,
        alive: true,
        parent: None,
        hit: false,
        density_milli: 0,
        pos: Vec3Milli { x: AIRPLANE_START_X_MILLI, y: AIRPLANE_START_Y_MILLI, z: 0 },
        vel: Vec3Milli { x: AIRPLANE_VELOCITY_X_MILLI, y: 0, z: 0 },
        uplift: Some(Vec3Milli { x: 0, y: AIRPLANE_UPLIFT_MILLI, z: 0 }),
    }
}

/// The shape-and-visual child spawned under an airplane root: the physics
/// layer reports contacts against this handle, and its parent link leads
/// back to the root the rules act on.
pub open spec fn airplane_part_entity(root: usize) -> Entity {
    Entity {
        kind: Kind::Part,
        alive: true,
        parent: Some(root),
        hit: false,
        density_milli: 0,
        pos: Vec3Milli { x: AIRPLANE_START_X_MILLI, y: AIRPLANE_START_Y_MILLI, z: 0 },
        vel: zero3(),
        uplift: None,
    }
}

/// A fresh rocket: launched from the fixed point below the floor, with
/// weight (it falls back down if it misses) and a fixed upward speed.
pub open spec fn rocket_entity() -> Entity {
    Entity {
        kind: Kind::Rocket,
        alive: true,
        parent: None,
        hit: false,
        density_milli: ROCKET_DENSITY_MILLI,
        pos: Vec3Milli { x: 0, y: ROCKET_START_Y_MILLI, z: 0 },
        vel: Vec3Milli { x: 0, y: ROCKET_SPEED_MILLI, z: 0 },
        uplift: None,
    }
}

/// The airplane spawner: fires once each time the accumulated frame time
/// reaches the spawn period.
pub struct AirplaneResource {
    /// Frame time accumulated since the timer last fired, in milliseconds.
    pub elapsed_ms: u64,
}

impl AirplaneResource {
    /// A fresh spawner whose accumulator starts at zero: the first
    /// airplane appears one full period into the session.
    pub fn new() -> (r: AirplaneResource)
        ensures
            r.elapsed_ms == 0,
    {
        AirplaneResource { elapsed_ms: 0 }
    }

    /// Advances the spawn timer by one frame's delta. When the
    /// accumulator reaches the period the timer fires: exactly one
    /// airplane (root plus shape child) is appended to the table, the
    /// period is subtracted from the accumulator, and the root's handle
    /// is returned. Otherwise nothing changes but the accumulator.
    pub fn tick(&mut self, world: &mut GameWorld, delta_ms: u64) -> (spawned: Option<usize>)
        requires
            old(world).wf(),
            old(self).elapsed_ms + delta_ms <= u64::MAX,
        ensures
            final(world).wf(),
            (spawned is Some) == (old(self).elapsed_ms + delta_ms >= SPAWN_PERIOD_MS),
            spawned matches Some(root) ==> {
                &&& root as int == old(world)@.len()
                &&& final(world)@ == old(world)@.push(airplane_root_entity()).push(
                    airplane_part_entity(root),
                )
                &&& final(self).elapsed_ms == old(self).elapsed_ms + delta_ms - SPAWN_PERIOD_MS
            },
            spawned is None ==> {
                &&& final(world)@ == old(world)@
                &&& final(self).elapsed_ms == old(self).elapsed_ms + delta_ms
            },
    {
        self.elapsed_ms = self.elapsed_ms + delta_ms;
        if self.elapsed_ms < SPAWN_PERIOD_MS {
            return None;
        }
        self.elapsed_ms = self.elapsed_ms - SPAWN_PERIOD_MS;
        let root = world.entities.len();
        world.entities.push(Entity {
            kind: Kind::Airplane,
            alive: true,
            parent: None,
            hit: false,
            density_milli: 0,
            pos: Vec3Milli::new(AIRPLANE_START_X_MILLI, AIRPLANE_START_Y_MILLI, 0),
            vel: Vec3Milli::new(AIRPLANE_VELOCITY_X_MILLI, 0, 0),
            uplift: Some(Vec3Milli::new(0, AIRPLANE_UPLIFT_MILLI, 0)),
        });
        world.entities.push(Entity {
            kind: Kind::Part,
            alive: true,
            parent: Some(root),
            hit: false,
            density_milli: 0,
            pos: Vec3Milli::new(AIRPLANE_START_X_MILLI, AIRPLANE_START_Y_MILLI, 0),
            vel: Vec3Milli::zero(),
            uplift: None,
        });
        proof {
            let w0 = old(world)@;
            let w1 = world@;
            assert(w1 == w0.push(airplane_root_entity()).push(airplane_part_entity(root)));
            assert forall|i: int| 0 <= i < w1.len() implies wf_at(w1, i) by {
                if i < w0.len() {
                    assert(wf_at(w0, i));
                }
            }
        }
        Some(root)
    }
}

/// The rocket spawner. Firing is driven by a discrete outside trigger
/// (the player's action) and is never time-gated here; several triggers
/// within one tick give several rockets.
pub struct RocketResource {}

impl RocketResource {
    /// A fresh rocket spawner.
    pub fn new() -> (r: RocketResource) {
        RocketResource {}
    }

    /// Fires one rocket: appends exactly one fully initialised rocket row
    /// to the table and returns its handle. Spawning is unconditional.
    pub fn spawn(&self, world: &mut GameWorld) -> (h: usize)
        requires
            old(world).wf(),
        ensures
            final(world).wf(),
            h as int == old(world)@.len(),
            final(world)@ == old(world)@.push(rocket_entity()),
    {
        let h = world.entities.len();
        world.entities.push(Entity {
            kind: Kind::Rocket,
            alive: true,
            parent: None,
            hit: false,
            density_milli: ROCKET_DENSITY_MILLI,
            pos: Vec3Milli::new(0, ROCKET_START_Y_MILLI, 0),
            vel: Vec3Milli::new(0, ROCKET_SPEED_MILLI, 0),
            uplift: None,
        });
        proof {
            let w0 = old(world)@;
            let w1 = world@;
            assert(w1 == w0.push(rocket_entity()));
            assert forall|i: int| 0 <= i < w1.len() implies wf_at(w1, i) by {
                if i < w0.len() {
                    assert(wf_at(w0, i));
                }
            }
        }
        h
    }
}

/// Per-frame airplane-spawn entry point: advances the spawn timer and
/// spawns when it fires, as [`AirplaneResource::tick`] specifies.
pub fn spawn_airplane(
    world: &mut GameWorld,
    airplane_resource: &mut AirplaneResource,
    delta_ms: u64,
) -> (spawned: Option<usize>)
    requires
        old(world).wf(),
        old(airplane_resource).elapsed_ms + delta_ms <= u64::MAX,
    ensures
        final(world).wf(),
        (spawned is Some) == (old(airplane_resource).elapsed_ms + delta_ms >= SPAWN_PERIOD_MS),
        spawned matches Some(root) ==> {
            &&& root as int == old(world)@.len()
            &&& final(world)@ == old(world)@.push(airplane_root_entity()).push(
                airplane_part_entity(root),
            )
            &&& final(airplane_resource).elapsed_ms == old(airplane_resource).elapsed_ms
                + delta_ms - SPAWN_PERIOD_MS
        },
        spawned is None ==> {
            &&& final(world)@ == old(world)@
            &&& final(airplane_resource).elapsed_ms == old(airplane_resource).elapsed_ms
                + delta_ms
        },
{
    airplane_resource.tick(world, delta_ms)
}

/// Discrete rocket-fire entry point: spawns one rocket, as
/// [`RocketResource::spawn`] specifies.
pub fn spawn_rocket(world: &mut GameWorld, rocket_resource: &RocketResource) -> (h: usize)
    requires
        old(world).wf(),
    ensures
        final(world).wf(),
        h as int == old(world)@.len(),
        final(world)@ == old(world)@.push(rocket_entity()),
{
    rocket_resource.spawn(world)
}

} // verus!
