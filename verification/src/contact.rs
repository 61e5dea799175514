//! Per-tick contact reports, as handed over by the physics layer.
//!
//! A reported pair is only actionable if at least one of its manifolds has
//! at least one contact point. The contact cache of the physics layer can
//! keep reporting a pair as touching after the overlap is gone, so a bare
//! "this pair touches" signal is untrustworthy by design; every rule in
//! this crate goes through [`actionable`] instead.

use vstd::prelude::*;

verus! {

/// One contact manifold of a pair: the overlap geometry for one tick,
/// reduced to the only fact the rules need — how many contact points it
/// carries.
#[derive(Clone, Copy, Debug, PartialEq, Eq, Structural)]
pub struct Manifold {
    /// Number of contact points in this manifold; zero marks a degenerate,
    /// ignorable report.
    pub points: u64,
}

/// One reported contact pair: two entity handles and the manifolds the
/// physics step produced for them. Transient per-tick data, never stored.
#[derive(Debug)]
pub struct ContactPair {
    /// Handle of one side.
    pub a: usize,
    /// Handle of the other side.
    pub b: usize,
    /// The manifolds reported for this pair, possibly empty.
    pub manifolds: Vec<Manifold>,
}

/// A pair is actionable when some manifold carries a real contact point.
pub open spec fn actionable(p: ContactPair) -> bool {
    exists|k: int| 0 <= k < p.manifolds@.len() && p.manifolds@[k].points > 0
}

/// Whether the pair connects handles `x` and `y`, in either order.
pub open spec fn links(p: ContactPair, x: int, y: int) -> bool {
    ||| (p.a == x && p.b == y)
    ||| (p.a == y && p.b == x)
}

/// Whether the tick's contact set holds an actionable pair between `x` and
/// `y`. This is the only notion of "touching" the rules use.
pub open spec fn touching(c: Seq<ContactPair>, x: int, y: int) -> bool {
    exists|k: int| 0 <= k < c.len() && actionable(c[k]) && links(c[k], x, y)
}

/// Decides whether a single reported pair is actionable: at least one of
/// its manifolds has at least one contact point.
pub fn pair_has_contact_points(p: &ContactPair) -> (r: bool)
    ensures
        r == actionable(*p),
{
    let n = p.manifolds.len();
    let mut k: usize = 0;
    while k < n
        invariant
            n == p.manifolds@.len(),
            k <= n,
            forall|j: int| 0 <= j < k ==> p.manifolds@[j].points == 0,
        decreases n - k,
    {
        if p.manifolds[k].points > 0 {
            return true;
        }
        k += 1;
    }
    false
}

/// Decides whether the contact set holds an actionable pair between the
/// handles `x` and `y`.
pub fn has_collision(contacts: &Vec<ContactPair>, x: usize, y: usize) -> (r: bool)
    ensures
        r == touching(contacts@, x as int, y as int),
{
    let n = contacts.len();
    let mut k: usize = 0;
    while k < n
        invariant
            n == contacts@.len(),
            k <= n,
            forall|j: int| 0 <= j < k ==>
                !(actionable(contacts@[j]) && links(contacts@[j], x as int, y as int)),
        decreases n - k,
    {
        let p = &contacts[k];
        if (p.a == x && p.b == y) || (p.a == y && p.b == x) {
            if pair_has_contact_points(p) {
                return true;
            }
        }
        k += 1;
    }
    false
}

} // verus!
