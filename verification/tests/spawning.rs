//! The spawners: the periodic airplane timer and the discrete rocket
//! trigger.

use skyreaper::entity::Kind;
use skyreaper::spawner::{spawn_airplane, spawn_rocket, AirplaneResource, RocketResource};
use skyreaper::world::GameWorld;
use skyreaper::{
    AIRPLANE_START_X_MILLI, AIRPLANE_START_Y_MILLI, AIRPLANE_UPLIFT_MILLI,
    AIRPLANE_VELOCITY_X_MILLI, ROCKET_DENSITY_MILLI, ROCKET_SPEED_MILLI, ROCKET_START_Y_MILLI,
};

#[test]
fn session_starts_with_worldbox_only() {
    let world = GameWorld::new();
    assert_eq!(world.entity_count(), 1);
    let wb = world.get(0);
    assert_eq!(wb.kind, Kind::WorldBox);
    assert!(wb.alive);
    assert!(wb.parent.is_none());
}

#[test]
fn no_airplane_before_the_period_one_at_it() {
    // Spawn timer period is 1000 ms: at t = 999 ms nothing has spawned;
    // at t = 1000 ms exactly one airplane exists, offscreen and weightless.
    let mut world = GameWorld::new();
    let mut planes = AirplaneResource::new();
    let early = spawn_airplane(&mut world, &mut planes, 999);
    assert!(early.is_none());
    assert_eq!(world.entity_count(), 1);
    let fired = spawn_airplane(&mut world, &mut planes, 1);
    let root = fired.expect("the timer fires exactly at the period");
    assert_eq!(root, 1);
    assert_eq!(world.entity_count(), 3);
    let plane = world.get(root);
    assert_eq!(plane.kind, Kind::Airplane);
    assert!(plane.alive);
    assert!(!plane.hit);
    assert_eq!(plane.density_milli, 0);
    assert_eq!(plane.pos.x, AIRPLANE_START_X_MILLI);
    assert_eq!(plane.pos.y, AIRPLANE_START_Y_MILLI);
    assert_eq!(plane.pos.z, 0);
    assert_eq!(plane.vel.x, AIRPLANE_VELOCITY_X_MILLI);
    let uplift = plane.uplift.expect("a fresh airplane is held up");
    assert_eq!(uplift.y, AIRPLANE_UPLIFT_MILLI);
}

#[test]
fn airplane_shape_child_points_at_its_root() {
    let mut world = GameWorld::new();
    let mut planes = AirplaneResource::new();
    let root = spawn_airplane(&mut world, &mut planes, 1000).unwrap();
    let part = world.get(root + 1);
    assert_eq!(part.kind, Kind::Part);
    assert_eq!(part.parent, Some(root));
    assert_eq!(world.root_index(root + 1), root);
    assert_eq!(world.root_index(root), root);
}

#[test]
fn timer_accumulates_across_frames() {
    let mut world = GameWorld::new();
    let mut planes = AirplaneResource::new();
    for _ in 0..3 {
        assert!(spawn_airplane(&mut world, &mut planes, 250).is_none());
    }
    // 750 ms so far; the fourth frame reaches the period exactly.
    assert!(spawn_airplane(&mut world, &mut planes, 250).is_some());
    assert_eq!(world.entity_count(), 1 + 2);
    // the remainder starts at zero again
    assert!(spawn_airplane(&mut world, &mut planes, 999).is_none());
    assert!(spawn_airplane(&mut world, &mut planes, 1).is_some());
}

#[test]
fn long_frame_spawns_one_airplane_and_keeps_the_rest() {
    // One oversized delta fires the timer once and keeps the remainder.
    let mut world = GameWorld::new();
    let mut planes = AirplaneResource::new();
    assert!(spawn_airplane(&mut world, &mut planes, 2500).is_some());
    assert_eq!(world.entity_count(), 3);
    // 1500 ms remain: the next frame fires immediately.
    assert!(spawn_airplane(&mut world, &mut planes, 0).is_some());
    assert_eq!(world.entity_count(), 5);
    // 500 ms remain.
    assert!(spawn_airplane(&mut world, &mut planes, 499).is_none());
    assert!(spawn_airplane(&mut world, &mut planes, 1).is_some());
}

#[test]
fn rocket_spawns_at_launch_point_with_weight() {
    let mut world = GameWorld::new();
    let rockets = RocketResource::new();
    let h = spawn_rocket(&mut world, &rockets);
    assert_eq!(h, 1);
    let rocket = world.get(h);
    assert_eq!(rocket.kind, Kind::Rocket);
    assert!(rocket.alive);
    assert_eq!(rocket.density_milli, ROCKET_DENSITY_MILLI);
    assert_eq!(rocket.pos.x, 0);
    assert_eq!(rocket.pos.y, ROCKET_START_Y_MILLI);
    assert_eq!(rocket.vel.y, ROCKET_SPEED_MILLI);
    assert!(rocket.uplift.is_none());
}

#[test]
fn several_triggers_in_one_tick_give_several_rockets() {
    let mut world = GameWorld::new();
    let rockets = RocketResource::new();
    let first = spawn_rocket(&mut world, &rockets);
    let second = spawn_rocket(&mut world, &rockets);
    let third = spawn_rocket(&mut world, &rockets);
    assert_eq!((first, second, third), (1, 2, 3));
    assert_eq!(world.entity_count(), 4);
    assert!(world.is_alive(1) && world.is_alive(2) && world.is_alive(3));
}
