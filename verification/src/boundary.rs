//! The world boundary: a static compound of six half-space faces placed
//! symmetrically around the play area with a fixed padding margin. It is
//! created once per session, never mutated, and carries no weight; the
//! physics layer builds its colliders from [`world_faces`] and reports
//! contacts against it, which rule 1 of the transition engine turns into
//! destruction.

use vstd::prelude::*;
use crate::geom::Vec3Milli;
use crate::{
    COORD_LIMIT_MILLI, WORLD_BACK_Z_MILLI, WORLD_CEILING_Y_MILLI, WORLD_FLOOR_Y_MILLI,
    WORLD_FRONT_Z_MILLI, WORLD_LEFT_X_MILLI, WORLD_RIGHT_X_MILLI,
};

verus! {

/// One half-space face of the boundary: the plane through `position`
/// with inward unit normal `normal` (components in -1, 0, 1). The play
/// volume lies strictly on the side the normal points to.
#[derive(Clone, Copy, Debug, PartialEq, Eq, Structural)]
pub struct BoundaryFace {
    /// Inward-pointing axis-aligned unit normal.
    pub normal: Vec3Milli,
    /// A point on the face's plane.
    pub position: Vec3Milli,
}

/// The point `p` lies strictly on the inner side of face `f`.
pub open spec fn strictly_inside(p: Vec3Milli, f: BoundaryFace) -> bool {
    (p.x - f.position.x) * f.normal.x + (p.y - f.position.y) * f.normal.y + (p.z
        - f.position.z) * f.normal.z > 0
}

/// The ceiling face, looking down.
pub open spec fn ceiling_face() -> BoundaryFace {
    BoundaryFace {
        normal: Vec3Milli { x: 0, y: -1i64, z: 0 },
        position: Vec3Milli { x: 0, y: WORLD_CEILING_Y_MILLI, z: 0 },
    }
}

/// The floor face, on top of the ground slab, looking up.
pub open spec fn floor_face() -> BoundaryFace {
    BoundaryFace {
        normal: Vec3Milli { x: 0, y: 1, z: 0 },
        position: Vec3Milli { x: 0, y: WORLD_FLOOR_Y_MILLI, z: 0 },
    }
}

/// The right wall, looking left.
pub open spec fn right_face() -> BoundaryFace {
    BoundaryFace {
        normal: Vec3Milli { x: -1i64, y: 0, z: 0 },
        position: Vec3Milli { x: WORLD_RIGHT_X_MILLI, y: 0, z: 0 },
    }
}

/// The left wall, looking right.
pub open spec fn left_face() -> BoundaryFace {
    BoundaryFace {
        normal: Vec3Milli { x: 1, y: 0, z: 0 },
        position: Vec3Milli { x: WORLD_LEFT_X_MILLI, y: 0, z: 0 },
    }
}

/// The back wall, looking at the camera.
pub open spec fn back_face() -> BoundaryFace {
    BoundaryFace {
        normal: Vec3Milli { x: 0, y: 0, z: -1i64 },
        position: Vec3Milli { x: 0, y: 0, z: WORLD_BACK_Z_MILLI },
    }
}

/// The front wall, behind the camera's focus, looking into the scene.
pub open spec fn front_face() -> BoundaryFace {
    BoundaryFace {
        normal: Vec3Milli { x: 0, y: 0, z: 1 },
        position: Vec3Milli { x: 0, y: 0, z: WORLD_FRONT_Z_MILLI },
    }
}

/// All six faces of the boundary.
pub open spec fn boundary_faces() -> Seq<BoundaryFace> {
    seq![
        ceiling_face(),
        floor_face(),
        right_face(),
        left_face(),
        back_face(),
        front_face(),
    ]
}

/// The point `p` lies strictly inside the play volume: on the inner side
/// of every boundary face.
pub open spec fn in_bounds(p: Vec3Milli) -> bool {
    forall|k: int| 0 <= k < boundary_faces().len() ==> strictly_inside(
        p,
        #[trigger] boundary_faces()[k],
    )
}

/// The coordinates of `p` are within the tolerated magnitude.
pub open spec fn coords_bounded(p: Vec3Milli) -> bool {
    &&& -COORD_LIMIT_MILLI <= p.x <= COORD_LIMIT_MILLI
    &&& -COORD_LIMIT_MILLI <= p.y <= COORD_LIMIT_MILLI
    &&& -COORD_LIMIT_MILLI <= p.z <= COORD_LIMIT_MILLI
}

/// Multiplying by a unit normal component is sign selection.
proof fn lemma_unit_mul(a: int)
    ensures
        a * 0 == 0,
        a * 1 == a,
        a * (-1) == -a,
{
    assert(a * 0 == 0) by (nonlinear_arith);
    assert(a * 1 == a) by (nonlinear_arith);
    assert(a * (-1) == -a) by (nonlinear_arith);
}

/// Being inside all six half spaces is the same as lying strictly inside
/// the axis-aligned box the walls span.
pub proof fn lemma_in_bounds_is_box(p: Vec3Milli)
    ensures
        in_bounds(p) <==> {
            &&& WORLD_LEFT_X_MILLI < p.x < WORLD_RIGHT_X_MILLI
            &&& WORLD_FLOOR_Y_MILLI < p.y < WORLD_CEILING_Y_MILLI
            &&& WORLD_FRONT_Z_MILLI < p.z < WORLD_BACK_Z_MILLI
        },
{
    lemma_unit_mul(p.x - 0);
    lemma_unit_mul(p.y - 0);
    lemma_unit_mul(p.z - 0);
    lemma_unit_mul(p.y - WORLD_CEILING_Y_MILLI);
    lemma_unit_mul(p.y - WORLD_FLOOR_Y_MILLI);
    lemma_unit_mul(p.x - WORLD_RIGHT_X_MILLI);
    lemma_unit_mul(p.x - WORLD_LEFT_X_MILLI);
    lemma_unit_mul(p.z - WORLD_BACK_Z_MILLI);
    lemma_unit_mul(p.z - WORLD_FRONT_Z_MILLI);
    let faces = boundary_faces();
    assert(faces[0] == ceiling_face());
    assert(faces[1] == floor_face());
    assert(faces[2] == right_face());
    assert(faces[3] == left_face());
    assert(faces[4] == back_face());
    assert(faces[5] == front_face());
    if in_bounds(p) {
        assert(strictly_inside(p, faces[0]));
        assert(strictly_inside(p, faces[1]));
        assert(strictly_inside(p, faces[2]));
        assert(strictly_inside(p, faces[3]));
        assert(strictly_inside(p, faces[4]));
        assert(strictly_inside(p, faces[5]));
    } else {
        if WORLD_LEFT_X_MILLI < p.x < WORLD_RIGHT_X_MILLI && WORLD_FLOOR_Y_MILLI < p.y
            < WORLD_CEILING_Y_MILLI && WORLD_FRONT_Z_MILLI < p.z < WORLD_BACK_Z_MILLI {
            assert forall|k: int| 0 <= k < faces.len() implies strictly_inside(
                p,
                #[trigger] faces[k],
            ) by {
                if k == 0 {
                    assert(strictly_inside(p, ceiling_face()));
                } else if k == 1 {
                    assert(strictly_inside(p, floor_face()));
                } else if k == 2 {
                    assert(strictly_inside(p, right_face()));
                } else if k == 3 {
                    assert(strictly_inside(p, left_face()));
                } else if k == 4 {
                    assert(strictly_inside(p, back_face()));
                } else {
                    assert(strictly_inside(p, front_face()));
                }
            }
        }
    }
}

/// Hands out the six faces, for the physics layer to build its static
/// colliders from.
pub fn world_faces() -> (v: Vec<BoundaryFace>)
    ensures
        v@ == boundary_faces(),
{
    let mut v: Vec<BoundaryFace> = Vec::new();
    v.push(BoundaryFace {
        normal: Vec3Milli::new(0, -1, 0),
        position: Vec3Milli::new(0, WORLD_CEILING_Y_MILLI, 0),
    });
    v.push(BoundaryFace {
        normal: Vec3Milli::new(0, 1, 0),
        position: Vec3Milli::new(0, WORLD_FLOOR_Y_MILLI, 0),
    });
    v.push(BoundaryFace {
        normal: Vec3Milli::new(-1, 0, 0),
        position: Vec3Milli::new(WORLD_RIGHT_X_MILLI, 0, 0),
    });
    v.push(BoundaryFace {
        normal: Vec3Milli::new(1, 0, 0),
        position: Vec3Milli::new(WORLD_LEFT_X_MILLI, 0, 0),
    });
    v.push(BoundaryFace {
        normal: Vec3Milli::new(0, 0, -1),
        position: Vec3Milli::new(0, 0, WORLD_BACK_Z_MILLI),
    });
    v.push(BoundaryFace {
        normal: Vec3Milli::new(0, 0, 1),
        position: Vec3Milli::new(0, 0, WORLD_FRONT_Z_MILLI),
    });
    proof {
        assert(v@ =~= boundary_faces());
    }
    v
}

/// The containment test of the boundary: whether a point lies strictly
/// inside the play volume.
pub fn world_contains(p: Vec3Milli) -> (b: bool)
    requires
        coords_bounded(p),
    ensures
        b == in_bounds(p),
{
    proof {
        lemma_in_bounds_is_box(p);
    }
    WORLD_LEFT_X_MILLI < p.x && p.x < WORLD_RIGHT_X_MILLI && WORLD_FLOOR_Y_MILLI < p.y && p.y
        < WORLD_CEILING_Y_MILLI && WORLD_FRONT_Z_MILLI < p.z && p.z < WORLD_BACK_Z_MILLI
}

} // verus!
