//! The world boundary: face layout and the containment test.

use skyreaper::boundary::{world_contains, world_faces};
use skyreaper::geom::Vec3Milli;
use skyreaper::{
    ROCKET_START_Y_MILLI, WORLD_BACK_Z_MILLI, WORLD_CEILING_Y_MILLI, WORLD_FLOOR_Y_MILLI,
    WORLD_FRONT_Z_MILLI, WORLD_LEFT_X_MILLI, WORLD_RIGHT_X_MILLI,
};

#[test]
fn boundary_has_six_axis_aligned_faces() {
    let faces = world_faces();
    assert_eq!(faces.len(), 6);
    for f in &faces {
        let total = f.normal.x.abs() + f.normal.y.abs() + f.normal.z.abs();
        assert_eq!(total, 1, "each face normal is a unit axis vector");
    }
    // one face per wall, normals pointing inwards
    assert!(faces.iter().any(|f| f.normal.y == -1 && f.position.y == WORLD_CEILING_Y_MILLI));
    assert!(faces.iter().any(|f| f.normal.y == 1 && f.position.y == WORLD_FLOOR_Y_MILLI));
    assert!(faces.iter().any(|f| f.normal.x == -1 && f.position.x == WORLD_RIGHT_X_MILLI));
    assert!(faces.iter().any(|f| f.normal.x == 1 && f.position.x == WORLD_LEFT_X_MILLI));
    assert!(faces.iter().any(|f| f.normal.z == -1 && f.position.z == WORLD_BACK_Z_MILLI));
    assert!(faces.iter().any(|f| f.normal.z == 1 && f.position.z == WORLD_FRONT_Z_MILLI));
}

#[test]
fn centre_and_spawn_points_lie_inside() {
    assert!(world_contains(Vec3Milli::zero()));
    assert!(world_contains(Vec3Milli::new(2000, 2500, 0)));
    assert!(world_contains(Vec3Milli::new(0, ROCKET_START_Y_MILLI, 0)));
}

#[test]
fn points_beyond_any_wall_lie_outside() {
    assert!(!world_contains(Vec3Milli::new(WORLD_RIGHT_X_MILLI + 1, 0, 0)));
    assert!(!world_contains(Vec3Milli::new(WORLD_LEFT_X_MILLI - 1, 0, 0)));
    assert!(!world_contains(Vec3Milli::new(0, WORLD_CEILING_Y_MILLI + 1, 0)));
    assert!(!world_contains(Vec3Milli::new(0, WORLD_FLOOR_Y_MILLI - 1, 0)));
    assert!(!world_contains(Vec3Milli::new(0, 0, WORLD_BACK_Z_MILLI + 1)));
    assert!(!world_contains(Vec3Milli::new(0, 0, WORLD_FRONT_Z_MILLI - 1)));
}

#[test]
fn points_exactly_on_a_face_are_not_inside() {
    assert!(!world_contains(Vec3Milli::new(WORLD_RIGHT_X_MILLI, 0, 0)));
    assert!(!world_contains(Vec3Milli::new(0, WORLD_FLOOR_Y_MILLI, 0)));
}
