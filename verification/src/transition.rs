//! The state transition engine: applies the classified contact events of
//! one tick to the entity table, with the fixed precedence
//!
//! 1. world exits — airplanes and rockets that touch the world box are
//!    destroyed, children included, and take part in nothing further;
//! 2. rocket strikes — every struck airplane is marked hit, densified and
//!    stripped of its uplift, and every scoring rocket is destroyed;
//! 3. chain strikes — every airplane touching an already hit airplane is
//!    marked hit and densified, one hop per tick, seeing the hits that
//!    rule 2 just applied.
//!
//! Each rule classifies against a consistent snapshot of the table and
//! applies its mutations in one flush afterwards, so pair order within a
//! rule cannot matter.

use vstd::prelude::*;
use crate::classify::{exits_world, rocket_scores, struck_by_chain, struck_by_rocket};
use crate::contact::ContactPair;
use crate::entity::{killed, marked_chained, marked_hit, Entity};
use crate::world::{lemma_root_of_parent, root_of, wf_at, wf_world, GameWorld};

verus! {

/// The table after rule 1: every entity whose root leaves the world this
/// tick is destroyed; everything else is untouched.
pub open spec fn world_exit_step(w: Seq<Entity>, c: Seq<ContactPair>) -> Seq<Entity> {
    Seq::new(
        w.len(),
        |i: int|
            if exits_world(w, c, root_of(w, i)) {
                killed(w[i])
            } else {
                w[i]
            },
    )
}

/// The table after rule 2: every airplane struck by a live rocket is
/// marked hit, and every rocket that scored is destroyed.
pub open spec fn rocket_hit_step(w: Seq<Entity>, c: Seq<ContactPair>) -> Seq<Entity> {
    Seq::new(
        w.len(),
        |i: int|
            if struck_by_rocket(w, c, i) {
                marked_hit(w[i])
            } else if rocket_scores(w, c, i) {
                killed(w[i])
            } else {
                w[i]
            },
    )
}

/// The table after rule 3: every not yet hit airplane touching an already
/// hit airplane is marked hit and densified; its uplift is left alone.
pub open spec fn chain_hit_step(w: Seq<Entity>, c: Seq<ContactPair>) -> Seq<Entity> {
    Seq::new(
        w.len(),
        |i: int|
            if struck_by_chain(w, c, i) {
                marked_chained(w[i])
            } else {
                w[i]
            },
    )
}

/// The whole collision-resolution pass of one tick: rules 1, 2 and 3 in
/// order, each seeing the table the previous rule left behind.
pub open spec fn collision_outcome(w: Seq<Entity>, c: Seq<ContactPair>) -> Seq<Entity> {
    chain_hit_step(rocket_hit_step(world_exit_step(w, c), c), c)
}

/// Pointwise behaviour of rule 1: it only clears `alive`, exactly for the
/// entities whose root exits, and touches nothing else.
pub proof fn lemma_world_exit_step_frame(w: Seq<Entity>, c: Seq<ContactPair>)
    ensures
        world_exit_step(w, c).len() == w.len(),
        forall|i: int| 0 <= i < w.len() ==> {
            let e1 = #[trigger] world_exit_step(w, c)[i];
            &&& e1.kind == w[i].kind
            &&& e1.parent == w[i].parent
            &&& e1.hit == w[i].hit
            &&& e1.density_milli == w[i].density_milli
            &&& e1.uplift == w[i].uplift
            &&& e1.pos == w[i].pos
            &&& e1.vel == w[i].vel
            &&& e1.alive == (w[i].alive && !exits_world(w, c, root_of(w, i)))
        },
{
}

/// Pointwise behaviour of rule 2: struck airplanes are marked, scoring
/// rockets are destroyed, nothing else changes.
pub proof fn lemma_rocket_hit_step_frame(w: Seq<Entity>, c: Seq<ContactPair>)
    ensures
        rocket_hit_step(w, c).len() == w.len(),
        forall|i: int| 0 <= i < w.len() ==> {
            let e1 = #[trigger] rocket_hit_step(w, c)[i];
            &&& e1.kind == w[i].kind
            &&& e1.parent == w[i].parent
            &&& e1.pos == w[i].pos
            &&& e1.vel == w[i].vel
            &&& e1.alive == (w[i].alive && !rocket_scores(w, c, i))
            &&& e1.hit == (w[i].hit || struck_by_rocket(w, c, i))
            &&& (struck_by_rocket(w, c, i) ==> e1.density_milli == crate::HIT_DENSITY_MILLI
                && e1.uplift is None)
            &&& (!struck_by_rocket(w, c, i) ==> e1.density_milli == w[i].density_milli
                && e1.uplift == w[i].uplift)
        },
{
    assert forall|i: int| 0 <= i < w.len() implies {
        let e1 = #[trigger] rocket_hit_step(w, c)[i];
        &&& e1.kind == w[i].kind
        &&& e1.parent == w[i].parent
        &&& e1.pos == w[i].pos
        &&& e1.vel == w[i].vel
        &&& e1.alive == (w[i].alive && !rocket_scores(w, c, i))
        &&& e1.hit == (w[i].hit || struck_by_rocket(w, c, i))
        &&& (struck_by_rocket(w, c, i) ==> e1.density_milli == crate::HIT_DENSITY_MILLI
            && e1.uplift is None)
        &&& (!struck_by_rocket(w, c, i) ==> e1.density_milli == w[i].density_milli && e1.uplift
            == w[i].uplift)
    } by {
        if struck_by_rocket(w, c, i) {
            assert(!rocket_scores(w, c, i));
            assert(!w[i].hit);
        }
    }
}

/// Pointwise behaviour of rule 3: struck airplanes are marked, nothing
/// else changes, and nothing is destroyed.
pub proof fn lemma_chain_hit_step_frame(w: Seq<Entity>, c: Seq<ContactPair>)
    ensures
        chain_hit_step(w, c).len() == w.len(),
        forall|i: int| 0 <= i < w.len() ==> {
            let e1 = #[trigger] chain_hit_step(w, c)[i];
            &&& e1.kind == w[i].kind
            &&& e1.parent == w[i].parent
            &&& e1.pos == w[i].pos
            &&& e1.vel == w[i].vel
            &&& e1.alive == w[i].alive
            &&& e1.uplift == w[i].uplift
            &&& e1.hit == (w[i].hit || struck_by_chain(w, c, i))
            &&& (struck_by_chain(w, c, i) ==> e1.density_milli == crate::HIT_DENSITY_MILLI)
            &&& (!struck_by_chain(w, c, i) ==> e1.density_milli == w[i].density_milli)
        },
{
    assert forall|i: int| 0 <= i < w.len() implies {
        let e1 = #[trigger] chain_hit_step(w, c)[i];
        &&& e1.kind == w[i].kind
        &&& e1.parent == w[i].parent
        &&& e1.pos == w[i].pos
        &&& e1.vel == w[i].vel
        &&& e1.alive == w[i].alive
        &&& e1.uplift == w[i].uplift
        &&& e1.hit == (w[i].hit || struck_by_chain(w, c, i))
        &&& (struck_by_chain(w, c, i) ==> e1.density_milli == crate::HIT_DENSITY_MILLI)
        &&& (!struck_by_chain(w, c, i) ==> e1.density_milli == w[i].density_milli)
    } by {
        if struck_by_chain(w, c, i) {
            assert(!w[i].hit);
        }
    }
}

/// Rule 1 keeps the table well formed: it destroys subtrees as a whole
/// (an exiting root takes every entity resolving to it along), and the
/// world box never exits.
pub proof fn lemma_world_exit_step_wf(w: Seq<Entity>, c: Seq<ContactPair>)
    requires
        wf_world(w),
    ensures
        wf_world(world_exit_step(w, c)),
{
    let w1 = world_exit_step(w, c);
    assert(wf_at(w, 0));
    assert(root_of(w, 0) == 0);
    assert(w1[0].alive);
    assert forall|i: int| 0 <= i < w1.len() implies wf_at(w1, i) by {
        assert(wf_at(w, i));
        match w[i].parent {
            Some(p) => {
                assert(wf_at(w, p as int));
                lemma_root_of_parent(w, i, p);
            },
            None => {},
        }
    }
}

/// Rule 2 keeps the table well formed: it destroys only rockets, which
/// have no children, and marking an airplane keeps it alive.
pub proof fn lemma_rocket_hit_step_wf(w: Seq<Entity>, c: Seq<ContactPair>)
    requires
        wf_world(w),
    ensures
        wf_world(rocket_hit_step(w, c)),
{
    let w1 = rocket_hit_step(w, c);
    assert(wf_at(w, 0));
    assert(w1[0].alive);
    assert forall|i: int| 0 <= i < w1.len() implies wf_at(w1, i) by {
        assert(wf_at(w, i));
        match w[i].parent {
            Some(p) => {
                assert(wf_at(w, p as int));
            },
            None => {},
        }
    }
}

/// Rule 3 keeps the table well formed: it destroys nothing.
pub proof fn lemma_chain_hit_step_wf(w: Seq<Entity>, c: Seq<ContactPair>)
    requires
        wf_world(w),
    ensures
        wf_world(chain_hit_step(w, c)),
{
    let w1 = chain_hit_step(w, c);
    assert(wf_at(w, 0));
    assert(w1[0].alive);
    assert forall|i: int| 0 <= i < w1.len() implies wf_at(w1, i) by {
        assert(wf_at(w, i));
        match w[i].parent {
            Some(p) => {
                assert(wf_at(w, p as int));
            },
            None => {},
        }
    }
}

/// The whole pass keeps the table well formed.
pub proof fn lemma_collision_outcome_wf(w: Seq<Entity>, c: Seq<ContactPair>)
    requires
        wf_world(w),
    ensures
        wf_world(collision_outcome(w, c)),
{
    lemma_world_exit_step_wf(w, c);
    lemma_rocket_hit_step_wf(world_exit_step(w, c), c);
    lemma_chain_hit_step_wf(rocket_hit_step(world_exit_step(w, c), c), c);
}

/// Applies rule 1: destroys every airplane and rocket whose subtree has an
/// actionable contact against the world box, together with its children.
pub fn handle_world_collisions(world: &mut GameWorld, contacts: &Vec<ContactPair>)
    requires
        old(world).wf(),
    ensures
        final(world).wf(),
        final(world)@ == world_exit_step(old(world)@, contacts@),
{
    let n = world.entities.len();
    let mut doomed: Vec<bool> = Vec::new();
    let mut i: usize = 0;
    while i < n
        invariant
            world.wf(),
            world@ == old(world)@,
            n == world@.len(),
            i <= n,
            doomed@.len() == i,
            forall|j: int| 0 <= j < i ==> doomed@[j] == exits_world(
                world@,
                contacts@,
                root_of(world@, j),
            ),
        decreases n - i,
    {
        let r = world.root_index(i);
        doomed.push(world.classify_world_exit(contacts, r));
        i += 1;
    }
    let mut i: usize = 0;
    while i < n
        invariant
            n == world@.len(),
            n == old(world)@.len(),
            i <= n,
            doomed@.len() == n,
            forall|j: int| 0 <= j < n ==> doomed@[j] == exits_world(
                old(world)@,
                contacts@,
                root_of(old(world)@, j),
            ),
            forall|j: int| 0 <= j < i ==> world@[j] == world_exit_step(
                old(world)@,
                contacts@,
            )[j],
            forall|j: int| i <= j < n ==> world@[j] == old(world)@[j],
        decreases n - i,
    {
        if doomed[i] {
            let mut e = world.entities[i];
            e.alive = false;
            world.entities[i] = e;
        }
        i += 1;
    }
    proof {
        assert(world@ =~= world_exit_step(old(world)@, contacts@));
        lemma_world_exit_step_wf(old(world)@, contacts@);
    }
}

/// Applies rule 2: marks every not yet hit airplane struck by a live
/// rocket — hit, densified, uplift cleared — and destroys every rocket
/// that scored. One rocket striking several airplanes in the same tick
/// marks them all; it is destroyed once.
pub fn handle_rocket_to_airplane_hit(world: &mut GameWorld, contacts: &Vec<ContactPair>)
    requires
        old(world).wf(),
    ensures
        final(world).wf(),
        final(world)@ == rocket_hit_step(old(world)@, contacts@),
{
    let n = world.entities.len();
    let mut struck: Vec<bool> = Vec::new();
    let mut scored: Vec<bool> = Vec::new();
    let mut i: usize = 0;
    while i < n
        invariant
            world.wf(),
            world@ == old(world)@,
            n == world@.len(),
            i <= n,
            struck@.len() == i,
            scored@.len() == i,
            forall|j: int| 0 <= j < i ==> struck@[j] == struck_by_rocket(world@, contacts@, j),
            forall|j: int| 0 <= j < i ==> scored@[j] == rocket_scores(world@, contacts@, j),
        decreases n - i,
    {
        struck.push(world.classify_rocket_strike(contacts, i));
        scored.push(world.classify_rocket_score(contacts, i));
        i += 1;
    }
    let mut i: usize = 0;
    while i < n
        invariant
            n == world@.len(),
            n == old(world)@.len(),
            i <= n,
            struck@.len() == n,
            scored@.len() == n,
            forall|j: int| 0 <= j < n ==> struck@[j] == struck_by_rocket(
                old(world)@,
                contacts@,
                j,
            ),
            forall|j: int| 0 <= j < n ==> scored@[j] == rocket_scores(old(world)@, contacts@, j),
            forall|j: int| 0 <= j < i ==> world@[j] == rocket_hit_step(
                old(world)@,
                contacts@,
            )[j],
            forall|j: int| i <= j < n ==> world@[j] == old(world)@[j],
        decreases n - i,
    {
        if struck[i] {
            let mut e = world.entities[i];
            e.hit = true;
            e.density_milli = crate::HIT_DENSITY_MILLI;
            e.uplift = None;
            world.entities[i] = e;
        } else if scored[i] {
            let mut e = world.entities[i];
            e.alive = false;
            world.entities[i] = e;
        }
        i += 1;
    }
    proof {
        assert(world@ =~= rocket_hit_step(old(world)@, contacts@));
        lemma_rocket_hit_step_wf(old(world)@, contacts@);
    }
}

/// Applies rule 3: marks every not yet hit airplane that touches an
/// already hit airplane — using the hit flags as rules 1 and 2 left them,
/// so a chain extends one hop per tick.
pub fn handle_airplane_to_airplane_hit(world: &mut GameWorld, contacts: &Vec<ContactPair>)
    requires
        old(world).wf(),
    ensures
        final(world).wf(),
        final(world)@ == chain_hit_step(old(world)@, contacts@),
{
    let n = world.entities.len();
    let mut struck: Vec<bool> = Vec::new();
    let mut i: usize = 0;
    while i < n
        invariant
            world.wf(),
            world@ == old(world)@,
            n == world@.len(),
            i <= n,
            struck@.len() == i,
            forall|j: int| 0 <= j < i ==> struck@[j] == struck_by_chain(world@, contacts@, j),
        decreases n - i,
    {
        struck.push(world.classify_chain_strike(contacts, i));
        i += 1;
    }
    let mut i: usize = 0;
    while i < n
        invariant
            n == world@.len(),
            n == old(world)@.len(),
            i <= n,
            struck@.len() == n,
            forall|j: int| 0 <= j < n ==> struck@[j] == struck_by_chain(
                old(world)@,
                contacts@,
                j,
            ),
            forall|j: int| 0 <= j < i ==> world@[j] == chain_hit_step(
                old(world)@,
                contacts@,
            )[j],
            forall|j: int| i <= j < n ==> world@[j] == old(world)@[j],
        decreases n - i,
    {
        if struck[i] {
            let mut e = world.entities[i];
            e.hit = true;
            e.density_milli = crate::HIT_DENSITY_MILLI;
            world.entities[i] = e;
        }
        i += 1;
    }
    proof {
        assert(world@ =~= chain_hit_step(old(world)@, contacts@));
        lemma_chain_hit_step_wf(old(world)@, contacts@);
    }
}

/// The per-tick collision-resolution pass: runs once after the physics
/// step, applying the three rules in their fixed precedence.
pub fn resolve_collisions(world: &mut GameWorld, contacts: &Vec<ContactPair>)
    requires
        old(world).wf(),
    ensures
        final(world).wf(),
        final(world)@ == collision_outcome(old(world)@, contacts@),
{
    handle_world_collisions(world, contacts);
    handle_rocket_to_airplane_hit(world, contacts);
    handle_airplane_to_airplane_hit(world, contacts);
}

} // verus!
