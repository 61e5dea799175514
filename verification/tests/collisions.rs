//! The collision-resolution pass: world exits, rocket strikes, chain
//! strikes, precedence and the degenerate-contact rule.

use skyreaper::contact::{ContactPair, Manifold};
use skyreaper::spawner::{spawn_airplane, spawn_rocket, AirplaneResource, RocketResource};
use skyreaper::transition::resolve_collisions;
use skyreaper::world::GameWorld;
use skyreaper::HIT_DENSITY_MILLI;

/// A pair with one real contact point.
fn pair(a: usize, b: usize) -> ContactPair {
    ContactPair { a, b, manifolds: vec![Manifold { points: 1 }] }
}

/// A degenerate pair: a manifold is present, but holds no contact point.
fn degenerate_pair(a: usize, b: usize) -> ContactPair {
    ContactPair { a, b, manifolds: vec![Manifold { points: 0 }] }
}

/// One world with one airplane (handles 1 root, 2 shape child) and one
/// rocket (handle 3).
fn plane_and_rocket() -> GameWorld {
    let mut world = GameWorld::new();
    let mut planes = AirplaneResource::new();
    spawn_airplane(&mut world, &mut planes, 1000).unwrap();
    let rockets = RocketResource::new();
    spawn_rocket(&mut world, &rockets);
    world
}

#[test]
fn rocket_strike_marks_densifies_and_destroys() {
    // The rocket was fired from below the floor straight up; the tick in
    // which their shapes overlap with a non-empty manifold disables the
    // airplane and removes the rocket.
    let mut world = plane_and_rocket();
    let contacts = vec![pair(3, 2)];
    resolve_collisions(&mut world, &contacts);
    let plane = world.get(1);
    assert!(plane.hit);
    assert_eq!(plane.density_milli, HIT_DENSITY_MILLI);
    assert_eq!(plane.density_milli, 5000);
    assert!(plane.uplift.is_none());
    assert!(plane.alive);
    assert!(!world.is_alive(3));
}

#[test]
fn rocket_strike_reported_against_the_root_works_too() {
    let mut world = plane_and_rocket();
    let contacts = vec![pair(1, 3)];
    resolve_collisions(&mut world, &contacts);
    assert!(world.is_hit(1));
    assert!(!world.is_alive(3));
}

#[test]
fn world_exit_destroys_airplane_with_children() {
    // Contact against the world box (handle 0), reported on the shape
    // child, destroys the whole airplane in the same tick.
    let mut world = plane_and_rocket();
    let contacts = vec![pair(0, 2)];
    resolve_collisions(&mut world, &contacts);
    assert!(!world.is_alive(1));
    assert!(!world.is_alive(2));
    assert!(world.is_alive(3));
}

#[test]
fn world_exit_destroys_hit_airplane_too() {
    let mut world = plane_and_rocket();
    resolve_collisions(&mut world, &vec![pair(3, 2)]);
    assert!(world.is_hit(1));
    resolve_collisions(&mut world, &vec![pair(0, 2)]);
    assert!(!world.is_alive(1));
    assert!(!world.is_alive(2));
}

#[test]
fn world_exit_destroys_rocket() {
    let mut world = plane_and_rocket();
    let contacts = vec![pair(0, 3)];
    resolve_collisions(&mut world, &contacts);
    assert!(!world.is_alive(3));
    assert!(world.is_alive(1));
}

#[test]
fn exiting_rocket_cannot_strike_in_the_same_tick() {
    // Rule 1 takes priority: a rocket leaving the world is destroyed and
    // takes part in nothing further this tick.
    let mut world = plane_and_rocket();
    let contacts = vec![pair(0, 3), pair(3, 2)];
    resolve_collisions(&mut world, &contacts);
    assert!(!world.is_alive(3));
    assert!(!world.is_hit(1));
    assert_eq!(world.get(1).density_milli, 0);
}

#[test]
fn hit_flag_is_set_at_most_once_and_never_cleared() {
    let mut world = plane_and_rocket();
    resolve_collisions(&mut world, &vec![pair(3, 2)]);
    assert!(world.is_hit(1));
    // further ticks, with or without contacts, never clear it
    resolve_collisions(&mut world, &vec![]);
    assert!(world.is_hit(1));
    let rockets = RocketResource::new();
    let second = spawn_rocket(&mut world, &rockets);
    resolve_collisions(&mut world, &vec![pair(second, 2)]);
    assert!(world.is_hit(1));
    assert_eq!(world.get(1).density_milli, HIT_DENSITY_MILLI);
    // the second rocket struck nothing that was still unhit, so it flies on
    assert!(world.is_alive(second));
}

#[test]
fn one_rocket_can_disable_several_airplanes_in_one_tick() {
    let mut world = GameWorld::new();
    let mut planes = AirplaneResource::new();
    let a = spawn_airplane(&mut world, &mut planes, 1000).unwrap();
    let b = spawn_airplane(&mut world, &mut planes, 1000).unwrap();
    let rockets = RocketResource::new();
    let r = spawn_rocket(&mut world, &rockets);
    let contacts = vec![pair(r, a + 1), pair(r, b + 1)];
    resolve_collisions(&mut world, &contacts);
    assert!(world.is_hit(a));
    assert!(world.is_hit(b));
    assert!(!world.is_alive(r));
}

#[test]
fn two_unhit_airplanes_never_interact() {
    // The chain rule requires one side already hit: two unhit airplanes
    // overlap and nothing happens to either.
    let mut world = GameWorld::new();
    let mut planes = AirplaneResource::new();
    let a = spawn_airplane(&mut world, &mut planes, 1000).unwrap();
    let b = spawn_airplane(&mut world, &mut planes, 1000).unwrap();
    let contacts = vec![pair(a + 1, b + 1)];
    resolve_collisions(&mut world, &contacts);
    assert!(!world.is_hit(a));
    assert!(!world.is_hit(b));
    assert!(world.is_alive(a) && world.is_alive(b));
    assert_eq!(world.get(a).density_milli, 0);
    assert_eq!(world.get(b).density_milli, 0);
}

#[test]
fn hit_airplane_chains_into_unhit_airplane() {
    let mut world = plane_and_rocket();
    let mut planes = AirplaneResource::new();
    let b = spawn_airplane(&mut world, &mut planes, 1000).unwrap();
    // tick one: the rocket disables airplane 1
    resolve_collisions(&mut world, &vec![pair(3, 2)]);
    assert!(world.is_hit(1) && !world.is_hit(b));
    // tick two: the falling airplane touches airplane B
    resolve_collisions(&mut world, &vec![pair(2, b + 1)]);
    let plane_b = world.get(b);
    assert!(plane_b.hit);
    assert_eq!(plane_b.density_milli, HIT_DENSITY_MILLI);
    // a chain strike densifies but leaves the uplift alone; the new
    // weight outweighs it
    assert!(plane_b.uplift.is_some());
    assert!(plane_b.alive);
}

#[test]
fn fresh_rocket_hit_propagates_within_the_same_tick() {
    // A is hit by the rocket and, in the same tick, its contact with B
    // already counts: single-pass propagation from hits applied earlier
    // in the tick.
    let mut world = plane_and_rocket();
    let mut planes = AirplaneResource::new();
    let b = spawn_airplane(&mut world, &mut planes, 1000).unwrap();
    let contacts = vec![pair(3, 2), pair(2, b + 1)];
    resolve_collisions(&mut world, &contacts);
    assert!(world.is_hit(1));
    assert!(world.is_hit(b));
    assert_eq!(world.get(b).density_milli, HIT_DENSITY_MILLI);
    assert!(!world.is_alive(3));
}

#[test]
fn chain_extends_one_hop_per_tick() {
    // A (hit) touches B, B touches C: B falls this tick, C only when the
    // contact surfaces again on a later tick.
    let mut world = plane_and_rocket();
    let mut planes = AirplaneResource::new();
    let b = spawn_airplane(&mut world, &mut planes, 1000).unwrap();
    let c = spawn_airplane(&mut world, &mut planes, 1000).unwrap();
    resolve_collisions(&mut world, &vec![pair(3, 2)]);
    assert!(world.is_hit(1));
    let contacts = vec![pair(2, b + 1), pair(b + 1, c + 1)];
    resolve_collisions(&mut world, &contacts);
    assert!(world.is_hit(b));
    assert!(!world.is_hit(c));
    resolve_collisions(&mut world, &contacts);
    assert!(world.is_hit(c));
}

#[test]
fn degenerate_contact_triggers_nothing() {
    // An engine-reported "touching" pair whose manifolds hold no contact
    // point is ignored by every rule.
    let mut world = plane_and_rocket();
    let contacts = vec![degenerate_pair(0, 2), degenerate_pair(3, 2)];
    resolve_collisions(&mut world, &contacts);
    assert!(world.is_alive(1) && world.is_alive(2) && world.is_alive(3));
    assert!(!world.is_hit(1));
    assert_eq!(world.get(1).density_milli, 0);
    assert!(world.get(1).uplift.is_some());
}

#[test]
fn entity_on_world_face_with_zero_points_is_not_destroyed() {
    // An entity positioned exactly on a boundary face can be reported as
    // touching with zero contact points; it must survive.
    let mut world = plane_and_rocket();
    resolve_collisions(&mut world, &vec![degenerate_pair(0, 3)]);
    assert!(world.is_alive(3));
}

#[test]
fn adding_a_degenerate_pair_changes_no_outcome() {
    let mut with_plain = plane_and_rocket();
    let mut with_extra = plane_and_rocket();
    resolve_collisions(&mut with_plain, &vec![pair(3, 2)]);
    resolve_collisions(&mut with_extra, &vec![pair(3, 2), degenerate_pair(0, 2)]);
    for h in 0..with_plain.entity_count() {
        let x = with_plain.get(h);
        let y = with_extra.get(h);
        assert_eq!(x.alive, y.alive);
        assert_eq!(x.hit, y.hit);
        assert_eq!(x.density_milli, y.density_milli);
        assert_eq!(x.uplift.is_none(), y.uplift.is_none());
    }
}

#[test]
fn pair_with_unknown_handle_is_ignored() {
    // The physics layer may report a pair against a handle the table has
    // never seen; the pass treats it as no event.
    let mut world = plane_and_rocket();
    let contacts = vec![pair(0, 77), pair(77, 2), pair(99, 98)];
    resolve_collisions(&mut world, &contacts);
    assert!(world.is_alive(1) && world.is_alive(2) && world.is_alive(3));
    assert!(!world.is_hit(1));
}

#[test]
fn multi_manifold_pair_counts_if_any_manifold_has_points() {
    let mut world = plane_and_rocket();
    let contacts = vec![ContactPair {
        a: 3,
        b: 2,
        manifolds: vec![Manifold { points: 0 }, Manifold { points: 2 }],
    }];
    resolve_collisions(&mut world, &contacts);
    assert!(world.is_hit(1));
    assert!(!world.is_alive(3));
}

#[test]
fn empty_manifold_list_is_degenerate() {
    let mut world = plane_and_rocket();
    let contacts = vec![ContactPair { a: 0, b: 2, manifolds: vec![] }];
    resolve_collisions(&mut world, &contacts);
    assert!(world.is_alive(1) && world.is_alive(2));
}
