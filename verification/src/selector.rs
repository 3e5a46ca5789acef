//! Nearest-anchor selection: a linear scan over the fixed anchors that
//! minimizes the exact squared distance, taking the first anchor in
//! iteration order on ties. Minimizing the squared distance minimizes the
//! distance itself (`lemma_nearest_minimizes_distance`).

use vstd::prelude::*;

use crate::geometry::Point;
use crate::geometry::dist_squared;
use crate::geometry::is_floor_sqrt;
use crate::geometry::lemma_floor_sqrt_monotonic;

verus! {

/// A fixed attachment point together with the handle of the static rigid
/// body the host physics engine owns for it.
#[derive(Clone, Copy, Debug, PartialEq, Eq, Structural)]
pub struct Anchor {
    pub point: Point,
    pub body: u64,
}

/// `k` indexes the anchor nearest to `m`; on ties, the first such anchor in
/// iteration order.
pub open spec fn is_nearest_first(m: Point, anchors: Seq<Anchor>, k: int) -> bool {
    &&& 0 <= k < anchors.len()
    &&& forall|j: int|
        0 <= j < anchors.len() ==> m.dist_sq(anchors[k].point) <= m.dist_sq(
            (#[trigger] anchors[j]).point,
        )
    &&& forall|j: int|
        0 <= j < k ==> m.dist_sq((#[trigger] anchors[j]).point) > m.dist_sq(anchors[k].point)
}

/// At most one index is nearest-first: the selection is deterministic.
pub proof fn lemma_nearest_first_unique(m: Point, anchors: Seq<Anchor>, k1: int, k2: int)
    requires
        is_nearest_first(m, anchors, k1),
        is_nearest_first(m, anchors, k2),
    ensures
        k1 == k2,
{
    if k1 < k2 {
        assert(m.dist_sq(anchors[k1].point) <= m.dist_sq(anchors[k2].point));
        assert(m.dist_sq(anchors[k1].point) > m.dist_sq(anchors[k2].point));
    }
    if k2 < k1 {
        assert(m.dist_sq(anchors[k2].point) <= m.dist_sq(anchors[k1].point));
        assert(m.dist_sq(anchors[k2].point) > m.dist_sq(anchors[k1].point));
    }
}

/// Minimizing the squared distance minimizes the distance itself: the
/// anchor the selector picks is at most as far from `m`, in rounded
/// Euclidean distance, as any other anchor.
pub proof fn lemma_nearest_minimizes_distance(
    m: Point,
    anchors: Seq<Anchor>,
    k: int,
    j: int,
    dist_k: int,
    dist_j: int,
)
    requires
        is_nearest_first(m, anchors, k),
        0 <= j < anchors.len(),
        is_floor_sqrt(m.dist_sq(anchors[k].point), dist_k),
        is_floor_sqrt(m.dist_sq(anchors[j].point), dist_j),
    ensures
        dist_k <= dist_j,
{
    lemma_floor_sqrt_monotonic(
        m.dist_sq(anchors[k].point),
        dist_k,
        m.dist_sq(anchors[j].point),
        dist_j,
    );
}

/// Index of the anchor nearest to `m`, the first in iteration order on
/// ties; `None` exactly when there is no anchor to choose from.
pub fn nearest_anchor(m: Point, anchors: &Vec<Anchor>) -> (r: Option<usize>)
    requires
        m.in_bounds(),
        forall|i: int| 0 <= i < anchors@.len() ==> (#[trigger] anchors@[i]).point.in_bounds(),
    ensures
        match r {
            Some(k) => is_nearest_first(m, anchors@, k as int),
            None => anchors@.len() == 0,
        },
{
    if anchors.len() == 0 {
        return None;
    }
    let mut best: usize = 0;
    let mut best_d: u64 = dist_squared(m, anchors[0].point);
    let mut i: usize = 1;
    while i < anchors.len()
        invariant
            m.in_bounds(),
            forall|j: int| 0 <= j < anchors@.len() ==> (#[trigger] anchors@[j]).point.in_bounds(),
            best < i <= anchors@.len(),
            best_d == m.dist_sq(anchors@[best as int].point),
            forall|j: int| 0 <= j < i ==> best_d <= m.dist_sq((#[trigger] anchors@[j]).point),
            forall|j: int| 0 <= j < best ==> m.dist_sq((#[trigger] anchors@[j]).point) > best_d,
        decreases anchors@.len() - i,
    {
        let d: u64 = dist_squared(m, anchors[i].point);
        if d < best_d {
            best = i;
            best_d = d;
        }
        i = i + 1;
    }
    Some(best)
}

} // verus!
