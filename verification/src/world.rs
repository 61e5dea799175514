//! The entity table: every simulated object the core knows about, keyed by
//! its handle (the row index), together with its well-formedness invariant
//! and the parent walk that resolves a reported handle to its root entity.

use vstd::prelude::*;
use crate::entity::{Entity, Kind};
use crate::geom::Vec3Milli;

verus! {

/// The simulation world as the core sees it: one row per entity ever
/// spawned this session. Rows are appended by the spawners and flagged
/// dead by the transition rules; they are never removed, so a handle is
/// unique while its entity is alive.
pub struct GameWorld {
    pub entities: Vec<Entity>,
}

impl View for GameWorld {
    type V = Seq<Entity>;

    open spec fn view(&self) -> Seq<Entity> {
        self.entities@
    }
}

/// Row-local part of the table invariant.
///
/// Row 0, and only row 0, is the world box. Exactly the `Part` rows carry a
/// parent link; the link points strictly downwards (so the parent walk
/// terminates), leads into an airplane subtree, and a live child never
/// hangs under a destroyed parent (subtrees are destroyed as a whole).
pub open spec fn wf_at(w: Seq<Entity>, i: int) -> bool {
    &&& (w[i].kind == Kind::WorldBox <==> i == 0)
    &&& (w[i].parent is Some <==> w[i].kind == Kind::Part)
    &&& match w[i].parent {
        Some(p) => {
            &&& (p as int) < i
            &&& (w[p as int].kind == Kind::Airplane || w[p as int].kind == Kind::Part)
            &&& (w[i].alive ==> w[p as int].alive)
        },
        None => true,
    }
}

/// The table invariant: the world box exists, is alive, and every row is
/// locally well formed.
pub open spec fn wf_world(w: Seq<Entity>) -> bool {
    &&& 1 <= w.len()
    &&& w[0].alive
    &&& forall|i: int| 0 <= i < w.len() ==> wf_at(w, i)
}

/// Handle of the root entity that handle `i` physically belongs to: the
/// parent walk ends at the first row without a parent link. The physics
/// layer reports contacts against shape-level children; the rules act on
/// the root this resolves to.
pub open spec fn root_of(w: Seq<Entity>, i: int) -> int
    decreases i,
{
    if 0 <= i < w.len() {
        match w[i].parent {
            Some(p) => if (p as int) < i {
                root_of(w, p as int)
            } else {
                i
            },
            None => i,
        }
    } else {
        i
    }
}

/// In a well-formed table the root of an in-range handle is in range, has
/// no parent link, is not a `Part`, is alive if the handle is alive, and is
/// an `Airplane` whenever the handle is a `Part`.
pub proof fn lemma_root_of_wf(w: Seq<Entity>, i: int)
    requires
        wf_world(w),
        0 <= i < w.len(),
    ensures
        0 <= root_of(w, i) <= i,
        w[root_of(w, i)].parent is None,
        w[root_of(w, i)].kind != Kind::Part,
        w[i].alive ==> w[root_of(w, i)].alive,
        w[i].kind == Kind::Part ==> w[root_of(w, i)].kind == Kind::Airplane,
        w[i].parent is None ==> root_of(w, i) == i,
    decreases i,
{
    assert(wf_at(w, i));
    match w[i].parent {
        Some(p) => {
            lemma_root_of_wf(w, p as int);
            assert(wf_at(w, p as int));
        },
        None => {},
    }
}

/// The parent walk lands on the same root in any two tables that agree on
/// every row's parent link; the rules may change flags and kinematics
/// without moving any entity to another root.
pub proof fn lemma_root_of_same_parents(w1: Seq<Entity>, w2: Seq<Entity>, i: int)
    requires
        w1.len() == w2.len(),
        forall|j: int| 0 <= j < w1.len() ==> w1[j].parent == w2[j].parent,
    ensures
        root_of(w1, i) == root_of(w2, i),
    decreases i,
{
    if 0 <= i < w1.len() {
        match w1[i].parent {
            Some(p) => {
                if (p as int) < i {
                    lemma_root_of_same_parents(w1, w2, p as int);
                }
            },
            None => {},
        }
    }
}

/// An entity and its parent share their root.
pub proof fn lemma_root_of_parent(w: Seq<Entity>, i: int, p: usize)
    requires
        wf_world(w),
        0 <= i < w.len(),
        w[i].parent == Some(p),
    ensures
        root_of(w, i) == root_of(w, p as int),
{
    assert(wf_at(w, i));
}

/// The world-box entity: the single static boundary body created when a
/// session starts. It has no weight and never moves or dies.
pub open spec fn worldbox_entity() -> Entity {
    Entity {
        kind: Kind::WorldBox,
        alive: true,
        parent: None,
        hit: false,
        density_milli: 0,
        pos: crate::geom::zero3(),
        vel: crate::geom::zero3(),
        uplift: None,
    }
}

impl GameWorld {
    /// The table invariant, as a property of the whole world value.
    pub open spec fn wf(&self) -> bool {
        wf_world(self@)
    }

    /// Starts a session: a world holding exactly the world box.
    pub fn new() -> (w: GameWorld)
        ensures
            w.wf(),
            w@ == seq![worldbox_entity()],
    {
        let mut entities: Vec<Entity> = Vec::new();
        entities.push(Entity {
            kind: Kind::WorldBox,
            alive: true,
            parent: None,
            hit: false,
            density_milli: 0,
            pos: Vec3Milli::zero(),
            vel: Vec3Milli::zero(),
            uplift: None,
        });
        let w = GameWorld { entities };
        proof {
            assert(w@ =~= seq![worldbox_entity()]);
            assert(wf_at(w@, 0));
        }
        w
    }

    /// Number of rows ever created this session (live or destroyed).
    pub fn entity_count(&self) -> (n: usize)
        ensures
            n == self@.len(),
    {
        self.entities.len()
    }

    /// Read access for scoring and UI: the full row of handle `i`.
    pub fn get(&self, i: usize) -> (e: Entity)
        requires
            i < self@.len(),
        ensures
            e == self@[i as int],
    {
        self.entities[i]
    }

    /// Whether the entity behind handle `i` still exists.
    pub fn is_alive(&self, i: usize) -> (b: bool)
        requires
            i < self@.len(),
        ensures
            b == self@[i as int].alive,
    {
        self.entities[i].alive
    }

    /// Whether the airplane behind handle `i` has been hit.
    pub fn is_hit(&self, i: usize) -> (b: bool)
        requires
            i < self@.len(),
        ensures
            b == self@[i as int].hit,
    {
        self.entities[i].hit
    }

    /// Resolves handle `i` to the root entity it belongs to by walking the
    /// parent links downwards.
    pub fn root_index(&self, i: usize) -> (r: usize)
        requires
            self.wf(),
            i < self@.len(),
        ensures
            r as int == root_of(self@, i as int),
            r <= i,
        decreases i,
    {
        proof {
            assert(wf_at(self@, i as int));
        }
        match self.entities[i].parent {
            Some(p) => self.root_index(p),
            None => i,
        }
    }
}

} // verus!
