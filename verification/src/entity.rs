//! The entity records the core keeps per simulated object.

use vstd::prelude::*;
use crate::geom::Vec3Milli;
use crate::HIT_DENSITY_MILLI;

verus! {

/// What role an entity plays in the game rules.
#[derive(Clone, Copy, Debug, PartialEq, Eq, Structural)]
pub enum Kind {
    /// The single static boundary entity whose contacts mean "left the world".
    WorldBox,
    /// An airplane root: the record that carries kinematics and the hit flag.
    Airplane,
    /// A rocket; a single entity with no children.
    Rocket,
    /// A child of an airplane (collision shape or visual carrier); contacts
    /// are often reported against it, and the parent link leads to the root.
    Part,
}

/// One row of the entity table.
///
/// Handles are indices into the table. Rows are never removed or reused
/// while a session runs, so a handle stays unique for its lifetime; a
/// destroyed entity is a row with `alive == false`.
#[derive(Clone, Copy, Debug)]
pub struct Entity {
    /// Role of this entity.
    pub kind: Kind,
    /// False once the entity has been destroyed; never set back to true.
    pub alive: bool,
    /// For a `Part`, the handle of the entity it hangs under; `None` for roots.
    pub parent: Option<usize>,
    /// Terminal-once flag: a hit airplane is disabled and falling.
    pub hit: bool,
    /// Mass per volume, in thousandths; zero means gravity does not act.
    pub density_milli: u64,
    /// Position of the entity.
    pub pos: Vec3Milli,
    /// Linear velocity.
    pub vel: Vec3Milli,
    /// Constant external force keeping an unharmed airplane airborne.
    pub uplift: Option<Vec3Milli>,
}

/// The value of an entity after it has been destroyed: only `alive` changes.
pub open spec fn killed(e: Entity) -> Entity {
    Entity { alive: false, ..e }
}

/// The value of an airplane root the moment a rocket strikes it: marked,
/// densified so it falls, and stripped of its uplift force. Everything
/// else is kept.
pub open spec fn marked_hit(e: Entity) -> Entity {
    Entity { hit: true, density_milli: HIT_DENSITY_MILLI, uplift: None, ..e }
}

/// The value of an airplane root the moment an already hit airplane
/// chains into it: marked and densified. Its uplift, if any, stays — the
/// new weight outweighs it, so the fall state still propagates.
pub open spec fn marked_chained(e: Entity) -> Entity {
    Entity { hit: true, density_milli: HIT_DENSITY_MILLI, ..e }
}

} // verus!
