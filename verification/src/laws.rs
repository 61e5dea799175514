//! The guarantees of the collision-resolution pass, stated and proved
//! over the rule model of [`crate::transition`].

use vstd::prelude::*;
use crate::classify::{
    chain_sides, exits_world, live, live_hit_airplane, live_rocket, live_unhit_airplane,
    pair_chains_airplane, pair_scores_rocket, pair_strikes_airplane, rocket_scores, score_sides,
    strike_sides, struck_by_chain, struck_by_rocket,
};
use crate::contact::{actionable, links, touching, ContactPair};
use crate::entity::{Entity, Kind};
use crate::transition::{
    chain_hit_step, collision_outcome, lemma_chain_hit_step_frame, lemma_rocket_hit_step_frame,
    lemma_world_exit_step_frame, rocket_hit_step, world_exit_step,
};
use crate::world::{lemma_root_of_same_parents, lemma_root_of_wf, root_of, wf_at, wf_world};
use crate::HIT_DENSITY_MILLI;

verus! {

/// The hit flag only ever moves from false to true — an airplane is
/// marked at most once and never unmarked — and destruction is terminal:
/// the pass never revives an entity.
pub proof fn lemma_hit_monotone(w: Seq<Entity>, c: Seq<ContactPair>, i: int)
    requires
        0 <= i < w.len(),
    ensures
        w[i].hit ==> collision_outcome(w, c)[i].hit,
        collision_outcome(w, c)[i].alive ==> w[i].alive,
{
    let w1 = world_exit_step(w, c);
    let w2 = rocket_hit_step(w1, c);
    lemma_world_exit_step_frame(w, c);
    lemma_rocket_hit_step_frame(w1, c);
    lemma_chain_hit_step_frame(w2, c);
}

/// A stale handle is silently skipped: the row of an entity that is
/// already destroyed when the tick begins is not changed by any rule,
/// whatever the contact set reports about it.
pub proof fn lemma_destroyed_rows_unchanged(w: Seq<Entity>, c: Seq<ContactPair>, i: int)
    requires
        0 <= i < w.len(),
        !w[i].alive,
    ensures
        collision_outcome(w, c)[i] == w[i],
{
    let w1 = world_exit_step(w, c);
    let w2 = rocket_hit_step(w1, c);
    lemma_world_exit_step_frame(w, c);
    lemma_rocket_hit_step_frame(w1, c);
    lemma_chain_hit_step_frame(w2, c);
    assert(w1[i] == w[i]);
    assert(w2[i] == w[i]);
}

/// An entity whose subtree touches the world box is destroyed within the
/// same tick, whatever its hit state, and its whole subtree goes with it.
pub proof fn lemma_world_exit_destroys(w: Seq<Entity>, c: Seq<ContactPair>, s: int)
    requires
        wf_world(w),
        live(w, s),
        touching(c, 0, s),
        w[root_of(w, s)].kind == Kind::Airplane || w[root_of(w, s)].kind == Kind::Rocket,
    ensures
        forall|j: int| 0 <= j < w.len() && root_of(w, j) == root_of(w, s)
            ==> !(#[trigger] collision_outcome(w, c)[j]).alive,
{
    let r = root_of(w, s);
    lemma_root_of_wf(w, s);
    assert(exits_world(w, c, r));
    let w1 = world_exit_step(w, c);
    let w2 = rocket_hit_step(w1, c);
    lemma_world_exit_step_frame(w, c);
    lemma_rocket_hit_step_frame(w1, c);
    lemma_chain_hit_step_frame(w2, c);
    assert forall|j: int| 0 <= j < w.len() && root_of(w, j) == r implies !(
    #[trigger] collision_outcome(w, c)[j]).alive by {
        assert(!w1[j].alive);
        assert(!w2[j].alive);
    }
}

/// A live rocket whose reported pair reaches a live, not yet hit airplane
/// establishes the rule-2 conditions once rule 1 has run, provided neither
/// side exits the world this tick.
proof fn lemma_strike_established(w: Seq<Entity>, c: Seq<ContactPair>, r: int, s: int)
    requires
        wf_world(w),
        live_rocket(w, r),
        live(w, s),
        live_unhit_airplane(w, root_of(w, s)),
        touching(c, r, s),
        !exits_world(w, c, r),
        !exits_world(w, c, root_of(w, s)),
    ensures
        struck_by_rocket(world_exit_step(w, c), c, root_of(w, s)),
        rocket_scores(world_exit_step(w, c), c, r),
{
    let p = root_of(w, s);
    let w1 = world_exit_step(w, c);
    lemma_root_of_wf(w, s);
    lemma_root_of_wf(w, p);
    assert(wf_at(w, r));
    lemma_root_of_wf(w, r);
    lemma_world_exit_step_frame(w, c);
    lemma_root_of_same_parents(w, w1, s);
    assert(w1[r].alive);
    assert(w1[s].alive);
    assert(w1[p].alive);
    assert(live_unhit_airplane(w1, p));
    assert(live_rocket(w1, r));
    let k = choose|k: int| 0 <= k < c.len() && actionable(c[k]) && links(c[k], r, s);
    assert(strike_sides(w1, r, s, p));
    assert(score_sides(w1, r, r, s));
    if c[k].a == r && c[k].b == s {
        assert(strike_sides(w1, c[k].a as int, c[k].b as int, p));
        assert(score_sides(w1, r, c[k].a as int, c[k].b as int));
    } else {
        assert(strike_sides(w1, c[k].b as int, c[k].a as int, p));
        assert(score_sides(w1, r, c[k].b as int, c[k].a as int));
    }
    assert(pair_strikes_airplane(w1, c[k], p));
    assert(pair_scores_rocket(w1, c[k], r));
}

/// A rocket that touches a live, not yet hit airplane causes, within the
/// same tick: the airplane marked hit, densified and stripped of its
/// uplift, and the rocket destroyed — provided neither of them exits the
/// world in that tick (rule 1 takes priority).
pub proof fn lemma_rocket_strike(w: Seq<Entity>, c: Seq<ContactPair>, r: int, s: int)
    requires
        wf_world(w),
        live_rocket(w, r),
        live(w, s),
        live_unhit_airplane(w, root_of(w, s)),
        touching(c, r, s),
        !exits_world(w, c, r),
        !exits_world(w, c, root_of(w, s)),
    ensures
        ({
            let p = root_of(w, s);
            let out = collision_outcome(w, c);
            &&& out[p].hit
            &&& out[p].alive
            &&& out[p].density_milli == HIT_DENSITY_MILLI
            &&& out[p].uplift is None
            &&& !out[r].alive
        }),
{
    let p = root_of(w, s);
    let w1 = world_exit_step(w, c);
    let w2 = rocket_hit_step(w1, c);
    lemma_strike_established(w, c, r, s);
    lemma_root_of_wf(w, s);
    lemma_world_exit_step_frame(w, c);
    lemma_rocket_hit_step_frame(w1, c);
    lemma_chain_hit_step_frame(w2, c);
    assert(!rocket_scores(w1, c, p));
    assert(w2[p].hit);
    assert(!struck_by_chain(w2, c, p));
    assert(!w2[r].alive);
}

/// The shared tail of the chain laws: if after rules 1 and 2 the root of
/// `sa` is a live, hit airplane, the airplane root of `sb` it touches is
/// hit and densified by the end of the tick.
proof fn lemma_chain_core(w: Seq<Entity>, c: Seq<ContactPair>, sa: int, sb: int)
    requires
        wf_world(w),
        live(w, sa),
        live(w, sb),
        touching(c, sa, sb),
        live_unhit_airplane(w, root_of(w, sb)),
        w[root_of(w, sa)].kind == Kind::Airplane,
        !exits_world(w, c, root_of(w, sa)),
        !exits_world(w, c, root_of(w, sb)),
        ({
            let w2 = rocket_hit_step(world_exit_step(w, c), c);
            w2[root_of(w, sa)].hit && w2[root_of(w, sa)].alive
        }),
    ensures
        ({
            let q = root_of(w, sb);
            let out = collision_outcome(w, c);
            &&& out[q].hit
            &&& out[q].alive
            &&& out[q].density_milli == HIT_DENSITY_MILLI
        }),
{
    let a = root_of(w, sa);
    let q = root_of(w, sb);
    let w1 = world_exit_step(w, c);
    let w2 = rocket_hit_step(w1, c);
    lemma_root_of_wf(w, sa);
    lemma_root_of_wf(w, sb);
    lemma_root_of_wf(w, q);
    assert(wf_at(w, sa));
    assert(wf_at(w, sb));
    lemma_world_exit_step_frame(w, c);
    lemma_rocket_hit_step_frame(w1, c);
    lemma_chain_hit_step_frame(w2, c);
    lemma_root_of_same_parents(w, w1, sa);
    lemma_root_of_same_parents(w, w1, sb);
    lemma_root_of_same_parents(w1, w2, sa);
    lemma_root_of_same_parents(w1, w2, sb);
    // neither contact shape is a rocket, so rule 2 does not destroy them
    assert(w[sa].kind != Kind::Rocket) by {
        if w[sa].parent is None {
            assert(root_of(w, sa) == sa);
        }
    }
    assert(w[sb].kind != Kind::Rocket) by {
        if w[sb].parent is None {
            assert(root_of(w, sb) == sb);
        }
    }
    assert(w1[sa].alive && w1[sb].alive && w1[q].alive);
    assert(!rocket_scores(w1, c, sa));
    assert(!rocket_scores(w1, c, sb));
    assert(!rocket_scores(w1, c, q));
    assert(w2[sa].alive && w2[sb].alive && w2[q].alive);
    if !w2[q].hit {
        assert(live_unhit_airplane(w2, q));
        assert(live_hit_airplane(w2, root_of(w2, sa)));
        let k = choose|k: int| 0 <= k < c.len() && actionable(c[k]) && links(c[k], sa, sb);
        assert(chain_sides(w2, sa, sb, q));
        if c[k].a == sa && c[k].b == sb {
            assert(chain_sides(w2, c[k].a as int, c[k].b as int, q));
        } else {
            assert(chain_sides(w2, c[k].b as int, c[k].a as int, q));
        }
        assert(pair_chains_airplane(w2, c[k], q));
        assert(struck_by_chain(w2, c, q));
    } else {
        assert(struck_by_rocket(w1, c, q));
        assert(!struck_by_chain(w2, c, q));
    }
}

/// If airplane A is already hit and touches a live, not yet hit airplane
/// B in the same tick, B is hit and densified within that tick — provided
/// neither root exits the world in the tick.
pub proof fn lemma_chain_strike(w: Seq<Entity>, c: Seq<ContactPair>, sa: int, sb: int)
    requires
        wf_world(w),
        live(w, sa),
        live(w, sb),
        touching(c, sa, sb),
        live_hit_airplane(w, root_of(w, sa)),
        live_unhit_airplane(w, root_of(w, sb)),
        !exits_world(w, c, root_of(w, sa)),
        !exits_world(w, c, root_of(w, sb)),
    ensures
        ({
            let q = root_of(w, sb);
            let out = collision_outcome(w, c);
            &&& out[q].hit
            &&& out[q].alive
            &&& out[q].density_milli == HIT_DENSITY_MILLI
        }),
{
    let a = root_of(w, sa);
    let w1 = world_exit_step(w, c);
    lemma_root_of_wf(w, sa);
    lemma_root_of_wf(w, a);
    lemma_world_exit_step_frame(w, c);
    lemma_rocket_hit_step_frame(w1, c);
    assert(w1[a].alive);
    assert(!rocket_scores(w1, c, a));
    lemma_chain_core(w, c, sa, sb);
}

/// Single-pass propagation: if A becomes hit only through a rocket strike
/// processed earlier in the same tick, an airplane B touching A is still
/// hit and densified in that same tick, and the rocket is destroyed.
pub proof fn lemma_chain_after_fresh_hit(
    w: Seq<Entity>,
    c: Seq<ContactPair>,
    r: int,
    sr: int,
    sa: int,
    sb: int,
)
    requires
        wf_world(w),
        live_rocket(w, r),
        live(w, sr),
        live_unhit_airplane(w, root_of(w, sr)),
        touching(c, r, sr),
        !exits_world(w, c, r),
        !exits_world(w, c, root_of(w, sr)),
        live(w, sa),
        live(w, sb),
        touching(c, sa, sb),
        root_of(w, sa) == root_of(w, sr),
        live_unhit_airplane(w, root_of(w, sb)),
        !exits_world(w, c, root_of(w, sb)),
    ensures
        ({
            let a = root_of(w, sa);
            let q = root_of(w, sb);
            let out = collision_outcome(w, c);
            &&& out[q].hit
            &&& out[q].alive
            &&& out[q].density_milli == HIT_DENSITY_MILLI
            &&& out[a].hit
            &&& out[a].alive
            &&& !out[r].alive
        }),
{
    let a = root_of(w, sa);
    let w1 = world_exit_step(w, c);
    let w2 = rocket_hit_step(w1, c);
    lemma_strike_established(w, c, r, sr);
    lemma_root_of_wf(w, sr);
    lemma_world_exit_step_frame(w, c);
    lemma_rocket_hit_step_frame(w1, c);
    lemma_chain_hit_step_frame(w2, c);
    assert(w2[a].hit && w2[a].alive);
    lemma_chain_core(w, c, sa, sb);
    assert(!struck_by_chain(w2, c, a));
    assert(!w2[r].alive);
}

/// Two airplanes that are both not hit never interact, however they
/// overlap: with no live rocket and no hit airplane in the table, the
/// pass changes no hit flag, density or uplift (world exits may still
/// destroy, but disable nothing).
pub proof fn lemma_unhit_airplanes_never_interact(w: Seq<Entity>, c: Seq<ContactPair>)
    requires
        forall|i: int| 0 <= i < w.len() ==> !(#[trigger] w[i].kind == Kind::Rocket && w[i].alive),
        forall|i: int| 0 <= i < w.len() ==> !(#[trigger] w[i].kind == Kind::Airplane && w[i].hit),
    ensures
        forall|i: int| 0 <= i < w.len() ==> {
            let e1 = #[trigger] collision_outcome(w, c)[i];
            &&& e1.hit == w[i].hit
            &&& e1.density_milli == w[i].density_milli
            &&& e1.uplift == w[i].uplift
        },
{
    let w1 = world_exit_step(w, c);
    let w2 = rocket_hit_step(w1, c);
    lemma_world_exit_step_frame(w, c);
    lemma_rocket_hit_step_frame(w1, c);
    lemma_chain_hit_step_frame(w2, c);
    assert forall|p: int| !#[trigger] struck_by_rocket(w1, c, p) by {
        if struck_by_rocket(w1, c, p) {
            let k = choose|k: int| 0 <= k < c.len() && pair_strikes_airplane(w1, #[trigger] c[k], p);
            let pr = c[k];
            if strike_sides(w1, pr.a as int, pr.b as int, p) {
                assert(w[pr.a as int].kind == Kind::Rocket && w[pr.a as int].alive);
            } else {
                assert(w[pr.b as int].kind == Kind::Rocket && w[pr.b as int].alive);
            }
        }
    }
    assert forall|p: int| !#[trigger] rocket_scores(w1, c, p) by {
        if rocket_scores(w1, c, p) {
            assert(w[p].kind == Kind::Rocket && w[p].alive);
        }
    }
    assert forall|q: int| !#[trigger] struck_by_chain(w2, c, q) by {
        if struck_by_chain(w2, c, q) {
            let k = choose|k: int| 0 <= k < c.len() && pair_chains_airplane(w2, #[trigger] c[k], q);
            let pr = c[k];
            if chain_sides(w2, pr.a as int, pr.b as int, q) {
                let a = root_of(w2, pr.a as int);
                assert(w[a].kind == Kind::Airplane && w[a].hit);
            } else {
                let a = root_of(w2, pr.b as int);
                assert(w[a].kind == Kind::Airplane && w[a].hit);
            }
        }
    }
}

/// A degenerate contact pair — reported touching, but without a single
/// contact point — triggers no transition: adding one to the tick's
/// contact set leaves the outcome of the pass unchanged.
pub proof fn lemma_degenerate_pair_ignored(w: Seq<Entity>, c: Seq<ContactPair>, pr: ContactPair)
    requires
        !actionable(pr),
    ensures
        collision_outcome(w, c.push(pr)) == collision_outcome(w, c),
{
    let c2 = c.push(pr);
    assert(world_exit_step(w, c2) =~= world_exit_step(w, c)) by {
        assert forall|i: int| 0 <= i < w.len() implies world_exit_step(w, c2)[i]
            == world_exit_step(w, c)[i] by {
            lemma_exits_push(w, c, pr, root_of(w, i));
        }
    }
    let w1 = world_exit_step(w, c);
    assert(rocket_hit_step(w1, c2) =~= rocket_hit_step(w1, c)) by {
        assert forall|i: int| 0 <= i < w1.len() implies rocket_hit_step(w1, c2)[i]
            == rocket_hit_step(w1, c)[i] by {
            lemma_struck_push(w1, c, pr, i);
            lemma_scores_push(w1, c, pr, i);
        }
    }
    let w2 = rocket_hit_step(w1, c);
    assert(chain_hit_step(w2, c2) =~= chain_hit_step(w2, c)) by {
        assert forall|i: int| 0 <= i < w2.len() implies chain_hit_step(w2, c2)[i]
            == chain_hit_step(w2, c)[i] by {
            lemma_chain_struck_push(w2, c, pr, i);
        }
    }
}

/// A tick whose contact set holds only degenerate pairs changes nothing
/// at all.
pub proof fn lemma_degenerate_contacts_inert(w: Seq<Entity>, c: Seq<ContactPair>)
    requires
        forall|k: int| 0 <= k < c.len() ==> !actionable(#[trigger] c[k]),
    ensures
        collision_outcome(w, c) == w,
{
    assert forall|x: int, y: int| !#[trigger] touching(c, x, y) by {
        if touching(c, x, y) {
            let k = choose|k: int| 0 <= k < c.len() && actionable(c[k]) && links(c[k], x, y);
            assert(!actionable(c[k]));
        }
    }
    assert(world_exit_step(w, c) =~= w) by {
        assert forall|i: int| 0 <= i < w.len() implies world_exit_step(w, c)[i] == w[i] by {
            if exits_world(w, c, root_of(w, i)) {
                let s = choose|s: int|
                    live(w, s) && #[trigger] root_of(w, s) == root_of(w, i) && touching(c, 0, s);
            }
        }
    }
    let w1 = world_exit_step(w, c);
    assert(rocket_hit_step(w1, c) =~= w1) by {
        assert forall|i: int| 0 <= i < w1.len() implies rocket_hit_step(w1, c)[i] == w1[i] by {
            if struck_by_rocket(w1, c, i) {
                let k = choose|k: int| 0 <= k < c.len() && pair_strikes_airplane(
                    w1,
                    #[trigger] c[k],
                    i,
                );
                assert(!actionable(c[k]));
            }
            if rocket_scores(w1, c, i) {
                let k = choose|k: int| 0 <= k < c.len() && pair_scores_rocket(
                    w1,
                    #[trigger] c[k],
                    i,
                );
                assert(!actionable(c[k]));
            }
        }
    }
    let w2 = rocket_hit_step(w1, c);
    assert(chain_hit_step(w2, c) =~= w2) by {
        assert forall|i: int| 0 <= i < w2.len() implies chain_hit_step(w2, c)[i] == w2[i] by {
            if struck_by_chain(w2, c, i) {
                let k = choose|k: int| 0 <= k < c.len() && pair_chains_airplane(
                    w2,
                    #[trigger] c[k],
                    i,
                );
                assert(!actionable(c[k]));
            }
        }
    }
}

/// Pushing a pair without contact points changes no touching fact.
proof fn lemma_touching_push(c: Seq<ContactPair>, pr: ContactPair, x: int, y: int)
    requires
        !actionable(pr),
    ensures
        touching(c.push(pr), x, y) == touching(c, x, y),
{
    let c2 = c.push(pr);
    if touching(c2, x, y) {
        let k = choose|k: int| 0 <= k < c2.len() && actionable(c2[k]) && links(c2[k], x, y);
        assert(k < c.len());
        assert(c2[k] == c[k]);
        assert(touching(c, x, y));
    }
    if touching(c, x, y) {
        let k = choose|k: int| 0 <= k < c.len() && actionable(c[k]) && links(c[k], x, y);
        assert(c2[k] == c[k]);
        assert(touching(c2, x, y));
    }
}

/// Pushing a pair without contact points changes no world-exit fact.
proof fn lemma_exits_push(w: Seq<Entity>, c: Seq<ContactPair>, pr: ContactPair, r: int)
    requires
        !actionable(pr),
    ensures
        exits_world(w, c.push(pr), r) == exits_world(w, c, r),
{
    let c2 = c.push(pr);
    if exits_world(w, c2, r) {
        let s = choose|s: int| live(w, s) && #[trigger] root_of(w, s) == r && touching(c2, 0, s);
        lemma_touching_push(c, pr, 0, s);
        assert(exits_world(w, c, r));
    }
    if exits_world(w, c, r) {
        let s = choose|s: int| live(w, s) && #[trigger] root_of(w, s) == r && touching(c, 0, s);
        lemma_touching_push(c, pr, 0, s);
        assert(exits_world(w, c2, r));
    }
}

/// Pushing a pair without contact points changes no rocket-strike fact.
proof fn lemma_struck_push(w: Seq<Entity>, c: Seq<ContactPair>, pr: ContactPair, p: int)
    requires
        !actionable(pr),
    ensures
        struck_by_rocket(w, c.push(pr), p) == struck_by_rocket(w, c, p),
{
    let c2 = c.push(pr);
    if struck_by_rocket(w, c2, p) {
        let k = choose|k: int| 0 <= k < c2.len() && pair_strikes_airplane(w, #[trigger] c2[k], p);
        assert(k < c.len());
        assert(c2[k] == c[k]);
        assert(struck_by_rocket(w, c, p));
    }
    if struck_by_rocket(w, c, p) {
        let k = choose|k: int| 0 <= k < c.len() && pair_strikes_airplane(w, #[trigger] c[k], p);
        assert(c2[k] == c[k]);
        assert(struck_by_rocket(w, c2, p));
    }
}

/// Pushing a pair without contact points changes no rocket-score fact.
proof fn lemma_scores_push(w: Seq<Entity>, c: Seq<ContactPair>, pr: ContactPair, r: int)
    requires
        !actionable(pr),
    ensures
        rocket_scores(w, c.push(pr), r) == rocket_scores(w, c, r),
{
    let c2 = c.push(pr);
    if rocket_scores(w, c2, r) {
        let k = choose|k: int| 0 <= k < c2.len() && pair_scores_rocket(w, #[trigger] c2[k], r);
        assert(k < c.len());
        assert(c2[k] == c[k]);
        assert(rocket_scores(w, c, r));
    }
    if rocket_scores(w, c, r) {
        let k = choose|k: int| 0 <= k < c.len() && pair_scores_rocket(w, #[trigger] c[k], r);
        assert(c2[k] == c[k]);
        assert(rocket_scores(w, c2, r));
    }
}

/// Pushing a pair without contact points changes no chain-strike fact.
proof fn lemma_chain_struck_push(w: Seq<Entity>, c: Seq<ContactPair>, pr: ContactPair, q: int)
    requires
        !actionable(pr),
    ensures
        struck_by_chain(w, c.push(pr), q) == struck_by_chain(w, c, q),
{
    let c2 = c.push(pr);
    if struck_by_chain(w, c2, q) {
        let k = choose|k: int| 0 <= k < c2.len() && pair_chains_airplane(w, #[trigger] c2[k], q);
        assert(k < c.len());
        assert(c2[k] == c[k]);
        assert(struck_by_chain(w, c, q));
    }
    if struck_by_chain(w, c, q) {
        let k = choose|k: int| 0 <= k < c.len() && pair_chains_airplane(w, #[trigger] c[k], q);
        assert(c2[k] == c[k]);
        assert(struck_by_chain(w, c2, q));
    }
}

} // verus!
