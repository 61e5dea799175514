//! The collision classifier: given the tick's contact set, decides for
//! each entity whether it falls into one of the three interest categories
//! — world exit, rocket strike, chain strike. Classification is pure: it
//! reads a snapshot of the table and the contact set and mutates nothing.

use vstd::prelude::*;
use crate::contact::{actionable, touching, ContactPair};
use crate::entity::{Entity, Kind};
use crate::world::{root_of, GameWorld};

verus! {

/// Handle `i` names a row of the table.
pub open spec fn in_range(w: Seq<Entity>, i: int) -> bool {
    0 <= i < w.len()
}

/// Handle `i` names a row that is still alive.
pub open spec fn live(w: Seq<Entity>, i: int) -> bool {
    in_range(w, i) && w[i].alive
}

/// A live rocket.
pub open spec fn live_rocket(w: Seq<Entity>, i: int) -> bool {
    live(w, i) && w[i].kind == Kind::Rocket
}

/// A live airplane root that has not been hit yet.
pub open spec fn live_unhit_airplane(w: Seq<Entity>, i: int) -> bool {
    live(w, i) && w[i].kind == Kind::Airplane && !w[i].hit
}

/// A live airplane root that has already been hit.
pub open spec fn live_hit_airplane(w: Seq<Entity>, i: int) -> bool {
    live(w, i) && w[i].kind == Kind::Airplane && w[i].hit
}

/// Category 1: root `r` leaves the world this tick. Some live entity of
/// its subtree has an actionable contact against the world box (handle 0),
/// and `r` is an airplane or a rocket. The airplane's `hit` state plays no
/// role here.
pub open spec fn exits_world(w: Seq<Entity>, c: Seq<ContactPair>, r: int) -> bool {
    &&& in_range(w, r)
    &&& (w[r].kind == Kind::Airplane || w[r].kind == Kind::Rocket)
    &&& exists|s: int| live(w, s) && #[trigger] root_of(w, s) == r && touching(c, 0, s)
}

/// One orientation of a rocket strike: `x` is a live rocket and `s` a live
/// entity whose root is the airplane `p`.
pub open spec fn strike_sides(w: Seq<Entity>, x: int, s: int, p: int) -> bool {
    &&& live_rocket(w, x)
    &&& live(w, s)
    &&& root_of(w, s) == p
}

/// The reported pair `pr` connects a live rocket with the subtree of
/// airplane root `p`, with a real contact point.
pub open spec fn pair_strikes_airplane(w: Seq<Entity>, pr: ContactPair, p: int) -> bool {
    &&& actionable(pr)
    &&& (strike_sides(w, pr.a as int, pr.b as int, p) || strike_sides(
        w,
        pr.b as int,
        pr.a as int,
        p,
    ))
}

/// Category 2, airplane side: airplane root `p` is live, not yet hit, and
/// some pair of the tick strikes it with a rocket.
pub open spec fn struck_by_rocket(w: Seq<Entity>, c: Seq<ContactPair>, p: int) -> bool {
    &&& live_unhit_airplane(w, p)
    &&& exists|k: int| 0 <= k < c.len() && pair_strikes_airplane(w, #[trigger] c[k], p)
}

/// One orientation of a rocket scoring: the pair side `x` is the rocket
/// `r` itself and `s` is a live entity whose root is a live, not yet hit
/// airplane.
pub open spec fn score_sides(w: Seq<Entity>, r: int, x: int, s: int) -> bool {
    &&& x == r
    &&& live(w, s)
    &&& live_unhit_airplane(w, root_of(w, s))
}

/// The reported pair `pr` lets rocket `r` score against some not yet hit
/// airplane, with a real contact point.
pub open spec fn pair_scores_rocket(w: Seq<Entity>, pr: ContactPair, r: int) -> bool {
    &&& actionable(pr)
    &&& (score_sides(w, r, pr.a as int, pr.b as int) || score_sides(
        w,
        r,
        pr.b as int,
        pr.a as int,
    ))
}

/// Category 2, rocket side: rocket `r` is live and strikes at least one
/// not yet hit airplane this tick; it is destroyed for it.
pub open spec fn rocket_scores(w: Seq<Entity>, c: Seq<ContactPair>, r: int) -> bool {
    &&& live_rocket(w, r)
    &&& exists|k: int| 0 <= k < c.len() && pair_scores_rocket(w, #[trigger] c[k], r)
}

/// One orientation of a chain strike: `sa` is a live entity whose root is
/// an already hit airplane, and `sb` a live entity whose root is the
/// target airplane `q`.
pub open spec fn chain_sides(w: Seq<Entity>, sa: int, sb: int, q: int) -> bool {
    &&& live(w, sa)
    &&& live_hit_airplane(w, root_of(w, sa))
    &&& live(w, sb)
    &&& root_of(w, sb) == q
}

/// The reported pair `pr` connects the subtree of an already hit airplane
/// with the subtree of airplane root `q`, with a real contact point.
pub open spec fn pair_chains_airplane(w: Seq<Entity>, pr: ContactPair, q: int) -> bool {
    &&& actionable(pr)
    &&& (chain_sides(w, pr.a as int, pr.b as int, q) || chain_sides(
        w,
        pr.b as int,
        pr.a as int,
        q,
    ))
}

/// Category 3: airplane root `q` is live, not yet hit, and touches an
/// already hit airplane this tick.
pub open spec fn struck_by_chain(w: Seq<Entity>, c: Seq<ContactPair>, q: int) -> bool {
    &&& live_unhit_airplane(w, q)
    &&& exists|k: int| 0 <= k < c.len() && pair_chains_airplane(w, #[trigger] c[k], q)
}

impl GameWorld {
    /// Decides whether root `r` leaves the world this tick: scans the
    /// table for a live entity of `r`'s subtree with an actionable contact
    /// against the world box.
    pub fn classify_world_exit(&self, contacts: &Vec<ContactPair>, r: usize) -> (b: bool)
        requires
            self.wf(),
            r < self@.len(),
        ensures
            b == exits_world(self@, contacts@, r as int),
    {
        let kind = self.entities[r].kind;
        if !(kind == Kind::Airplane || kind == Kind::Rocket) {
            return false;
        }
        let n = self.entities.len();
        let mut s: usize = 0;
        while s < n
            invariant
                self.wf(),
                r < n,
                n == self@.len(),
                s <= n,
                self@[r as int].kind == Kind::Airplane || self@[r as int].kind == Kind::Rocket,
                forall|j: int| 0 <= j < s ==> !(live(self@, j) && #[trigger] root_of(self@, j)
                    == r && touching(contacts@, 0, j)),
            decreases n - s,
        {
            if self.entities[s].alive && self.root_index(s) == r && crate::contact::has_collision(
                contacts,
                0,
                s,
            ) {
                return true;
            }
            s += 1;
        }
        false
    }

    /// Decides whether airplane root `p` is struck by a rocket this tick:
    /// scans the contact set for a pair joining a live rocket to `p`'s
    /// subtree with a real contact point.
    pub fn classify_rocket_strike(&self, contacts: &Vec<ContactPair>, p: usize) -> (b: bool)
        requires
            self.wf(),
            p < self@.len(),
        ensures
            b == struck_by_rocket(self@, contacts@, p as int),
    {
        let e = self.entities[p];
        if !(e.alive && e.kind == Kind::Airplane && !e.hit) {
            return false;
        }
        let n = contacts.len();
        let mut k: usize = 0;
        while k < n
            invariant
                self.wf(),
                p < self@.len(),
                live_unhit_airplane(self@, p as int),
                n == contacts@.len(),
                k <= n,
                forall|j: int| 0 <= j < k ==> !pair_strikes_airplane(
                    self@,
                    #[trigger] contacts@[j],
                    p as int,
                ),
            decreases n - k,
        {
            let pr = &contacts[k];
            if crate::contact::pair_has_contact_points(pr) {
                if self.strike_side(pr.a, pr.b, p) || self.strike_side(pr.b, pr.a, p) {
                    proof {
                        assert(pair_strikes_airplane(self@, contacts@[k as int], p as int));
                    }
                    return true;
                }
            }
            k += 1;
        }
        false
    }

    /// Decides one orientation of a rocket strike: `x` is a live rocket
    /// and `s` a live entity resolving to root `p`.
    fn strike_side(&self, x: usize, s: usize, p: usize) -> (b: bool)
        requires
            self.wf(),
        ensures
            b == strike_sides(self@, x as int, s as int, p as int),
    {
        let n = self.entities.len();
        if x >= n || s >= n {
            return false;
        }
        let ex = self.entities[x];
        let es = self.entities[s];
        ex.alive && ex.kind == Kind::Rocket && es.alive && self.root_index(s) == p
    }

    /// Decides whether live rocket `r` scores against some not yet hit
    /// airplane this tick (and is therefore destroyed).
    pub fn classify_rocket_score(&self, contacts: &Vec<ContactPair>, r: usize) -> (b: bool)
        requires
            self.wf(),
            r < self@.len(),
        ensures
            b == rocket_scores(self@, contacts@, r as int),
    {
        let e = self.entities[r];
        if !(e.alive && e.kind == Kind::Rocket) {
            return false;
        }
        let n = contacts.len();
        let mut k: usize = 0;
        while k < n
            invariant
                self.wf(),
                r < self@.len(),
                live_rocket(self@, r as int),
                n == contacts@.len(),
                k <= n,
                forall|j: int| 0 <= j < k ==> !pair_scores_rocket(
                    self@,
                    #[trigger] contacts@[j],
                    r as int,
                ),
            decreases n - k,
        {
            let pr = &contacts[k];
            if crate::contact::pair_has_contact_points(pr) {
                if self.score_side(r, pr.a, pr.b) || self.score_side(r, pr.b, pr.a) {
                    proof {
                        assert(pair_scores_rocket(self@, contacts@[k as int], r as int));
                    }
                    return true;
                }
            }
            k += 1;
        }
        false
    }

    /// Decides one orientation of a rocket scoring: side `x` is the rocket
    /// itself, `s` a live entity whose root is a live unhit airplane.
    fn score_side(&self, r: usize, x: usize, s: usize) -> (b: bool)
        requires
            self.wf(),
        ensures
            b == score_sides(self@, r as int, x as int, s as int),
    {
        let n = self.entities.len();
        if x != r || s >= n {
            return false;
        }
        let es = self.entities[s];
        if !es.alive {
            return false;
        }
        let root = self.root_index(s);
        let er = self.entities[root];
        er.alive && er.kind == Kind::Airplane && !er.hit
    }

    /// Decides whether airplane root `q` is struck by an already hit
    /// airplane this tick.
    pub fn classify_chain_strike(&self, contacts: &Vec<ContactPair>, q: usize) -> (b: bool)
        requires
            self.wf(),
            q < self@.len(),
        ensures
            b == struck_by_chain(self@, contacts@, q as int),
    {
        let e = self.entities[q];
        if !(e.alive && e.kind == Kind::Airplane && !e.hit) {
            return false;
        }
        let n = contacts.len();
        let mut k: usize = 0;
        while k < n
            invariant
                self.wf(),
                q < self@.len(),
                live_unhit_airplane(self@, q as int),
                n == contacts@.len(),
                k <= n,
                forall|j: int| 0 <= j < k ==> !pair_chains_airplane(
                    self@,
                    #[trigger] contacts@[j],
                    q as int,
                ),
            decreases n - k,
        {
            let pr = &contacts[k];
            if crate::contact::pair_has_contact_points(pr) {
                if self.chain_side(pr.a, pr.b, q) || self.chain_side(pr.b, pr.a, q) {
                    proof {
                        assert(pair_chains_airplane(self@, contacts@[k as int], q as int));
                    }
                    return true;
                }
            }
            k += 1;
        }
        false
    }

    /// Decides one orientation of a chain strike: `sa` resolves to an
    /// already hit airplane, `sb` resolves to root `q`.
    fn chain_side(&self, sa: usize, sb: usize, q: usize) -> (b: bool)
        requires
            self.wf(),
        ensures
            b == chain_sides(self@, sa as int, sb as int, q as int),
    {
        let n = self.entities.len();
        if sa >= n || sb >= n {
            return false;
        }
        let ea = self.entities[sa];
        let eb = self.entities[sb];
        if !(ea.alive && eb.alive) {
            return false;
        }
        let ra = self.root_index(sa);
        let era = self.entities[ra];
        era.alive && era.kind == Kind::Airplane && era.hit && self.root_index(sb) == q
    }
}

} // verus!
