//! Chain synthesis: given an origin anchor and a target anchor, compute a
//! chain of rigid segments and ball joints that tiles the straight line
//! between them. Segment lengths sum exactly to the rounded span; the
//! remainder of the span that does not divide evenly is absorbed into the
//! first segment. A single polarity flag, computed once from the two end
//! points, decides which local end of every segment faces the origin.

use vstd::arithmetic::div_mod::lemma_div_is_ordered;
use vstd::arithmetic::div_mod::lemma_div_multiples_vanish;
use vstd::arithmetic::div_mod::lemma_div_non_zero;
use vstd::arithmetic::div_mod::lemma_fundamental_div_mod;
use vstd::arithmetic::div_mod::lemma_mod_bound;
use vstd::arithmetic::mul::lemma_mul_inequality;
use vstd::prelude::*;

use crate::geometry::Point;
use crate::geometry::dist_squared;
use crate::geometry::is_floor_sqrt;
use crate::geometry::isqrt;
use crate::geometry::lemma_dist_sq_bounds;
use crate::geometry::lemma_dist_sq_zero_iff_eq;

verus! {

/// Constant width of every rope segment, in world units: the short side of
/// the box collider and sprite whose long side is the segment's length.
pub const ROPE_WIDTH: u64 = 1;

/// Everything that can go wrong while attaching a chain. None of these is
/// fatal: the lifecycle controller collapses each to "no state change".
#[derive(Clone, Copy, Debug, PartialEq, Eq, Structural)]
pub enum ChainError {
    /// The nearest-anchor selector had nothing to choose from.
    EmptyAnchorSet,
    /// Origin and target coincide; no degenerate geometry is spawned.
    DegenerateChainRequest,
    /// The host physics registry refused a body or joint creation.
    RegistryFailure,
}

/// One endpoint body of a joint: the origin body, the target body, or a
/// segment of this very chain, by its index.
#[derive(Clone, Copy, Debug, PartialEq, Eq, Structural)]
pub enum BodyRef {
    Origin,
    Target,
    Segment(usize),
}

/// Local anchor offset of one joint side, named symbolically. On a segment
/// of length `l`, `BackwardEnd` is the local point `(-l/2, 0)` and
/// `ForwardEnd` is `(+l/2, 0)`; `BodyCenter` is the local origin, used on
/// the origin and target bodies.
#[derive(Clone, Copy, Debug, PartialEq, Eq, Structural)]
pub enum JointAnchor {
    BodyCenter,
    BackwardEnd,
    ForwardEnd,
}

/// One rigid link of a chain: its exact length along the chain axis and its
/// world-space center, rounded toward the origin point.
#[derive(Clone, Copy, Debug, PartialEq, Eq, Structural)]
pub struct ChainSegment {
    pub length: u64,
    pub center: Point,
}

/// A ball joint between two bodies, each side with its local anchor.
#[derive(Clone, Copy, Debug, PartialEq, Eq, Structural)]
pub struct Joint {
    pub body_a: BodyRef,
    pub anchor_a: JointAnchor,
    pub body_b: BodyRef,
    pub anchor_b: JointAnchor,
}

/// The full synthesized chain: `segments.len()` rigid links and
/// `segments.len() + 1` joints wiring origin, links and target in order.
#[derive(Clone, Debug)]
pub struct Chain {
    pub origin: Point,
    pub target: Point,
    pub origin_body: u64,
    pub target_body: u64,
    /// Distance from origin to target, rounded down.
    pub total_length: u64,
    /// The requested nominal segment length.
    pub segment_length: u64,
    /// Polarity flag: the backward end of every segment faces the origin.
    /// Computed once from the end points and threaded through every joint.
    pub origin_at_backward: bool,
    pub segments: Vec<ChainSegment>,
    pub joints: Vec<Joint>,
}

/// Number of segments a span of `total` is cut into with nominal segment
/// length `s`: the span divided by `s`, rounded down, but never zero.
pub open spec fn seg_count_spec(total: int, s: int) -> int
    recommends
        s >= 1,
{
    if total >= s {
        total / s
    } else {
        1
    }
}

/// Length of segment `i`: the first segment absorbs the remainder of the
/// span, every later segment has the nominal length.
pub open spec fn seg_len_spec(total: int, s: int, i: int) -> int
    recommends
        s >= 1,
        0 <= i < seg_count_spec(total, s),
{
    if i == 0 {
        total - (seg_count_spec(total, s) - 1) * s
    } else {
        s
    }
}

/// Twice the axial distance from the origin to the center of segment `i`,
/// that is, the sum of the segment's start and end offsets along the span.
pub open spec fn twice_axis_center(total: int, s: int, i: int) -> int
    recommends
        s >= 1,
        0 <= i < seg_count_spec(total, s),
{
    let n = seg_count_spec(total, s);
    if i == 0 {
        total - (n - 1) * s
    } else {
        2 * total - (2 * (n - i) - 1) * s
    }
}

/// `num / den` of the displacement `delta`, with the magnitude rounded
/// down (so the result is rounded toward zero).
pub open spec fn scale_trunc(delta: int, num: int, den: int) -> int
    recommends
        den >= 1,
        0 <= num <= den,
{
    if delta >= 0 {
        (delta * num) / den
    } else {
        -((-delta * num) / den)
    }
}

/// World x coordinate of the center of segment `i`.
pub open spec fn center_x_spec(origin: Point, target: Point, total: int, s: int, i: int) -> int {
    origin.x + scale_trunc(target.x - origin.x, twice_axis_center(total, s, i), 2 * total)
}

/// World y coordinate of the center of segment `i`.
pub open spec fn center_y_spec(origin: Point, target: Point, total: int, s: int, i: int) -> int {
    origin.y + scale_trunc(target.y - origin.y, twice_axis_center(total, s, i), 2 * total)
}

/// The polarity flag: true when the origin is to the left of (or vertically
/// aligned with) the target, in which case the backward end `(-l/2, 0)` of
/// every segment faces the origin.
pub open spec fn backward_faces_origin(origin: Point, target: Point) -> bool {
    origin.x <= target.x
}

/// The local end of a segment that faces the origin, per polarity.
pub open spec fn origin_facing_end(polarity: bool) -> JointAnchor {
    if polarity {
        JointAnchor::BackwardEnd
    } else {
        JointAnchor::ForwardEnd
    }
}

/// The local end of a segment that faces the target, per polarity.
pub open spec fn target_facing_end(polarity: bool) -> JointAnchor {
    if polarity {
        JointAnchor::ForwardEnd
    } else {
        JointAnchor::BackwardEnd
    }
}

/// Joint `i` of a chain of `n` segments with polarity `polarity`: joint 0
/// ties the origin body's center to the first segment's origin-facing end,
/// joint `i` (for `0 < i < n`) ties segment `i-1`'s target-facing end to
/// segment `i`'s origin-facing end, and joint `n` ties the last segment's
/// target-facing end to the target body's center.
pub open spec fn expected_joint(polarity: bool, n: int, i: int) -> Joint
    recommends
        1 <= n,
        0 <= i <= n,
{
    Joint {
        body_a: if i == 0 {
            BodyRef::Origin
        } else {
            BodyRef::Segment((i - 1) as usize)
        },
        anchor_a: if i == 0 {
            JointAnchor::BodyCenter
        } else {
            target_facing_end(polarity)
        },
        body_b: if i == n {
            BodyRef::Target
        } else {
            BodyRef::Segment(i as usize)
        },
        anchor_b: if i == n {
            JointAnchor::BodyCenter
        } else {
            origin_facing_end(polarity)
        },
    }
}

/// The chain `c` is exactly what synthesis promises for the given end
/// points, bodies and nominal segment length.
pub open spec fn is_synthesized(
    c: Chain,
    origin: Point,
    target: Point,
    origin_body: u64,
    target_body: u64,
    s: int,
) -> bool {
    let total = c.total_length as int;
    let n = c.segments@.len() as int;
    let polarity = backward_faces_origin(origin, target);
    &&& c.origin == origin
    &&& c.target == target
    &&& c.origin_body == origin_body
    &&& c.target_body == target_body
    &&& c.segment_length == s
    &&& c.origin_at_backward == polarity
    &&& is_floor_sqrt(origin.dist_sq(target), total)
    &&& n == seg_count_spec(total, s)
    &&& c.joints@.len() == n + 1
    &&& forall|i: int|
        0 <= i < n ==> (#[trigger] c.segments@[i]).length == seg_len_spec(total, s, i)
    &&& forall|i: int|
        0 <= i < n ==> (#[trigger] c.segments@[i]).center.x == center_x_spec(
            origin,
            target,
            total,
            s,
            i,
        )
    &&& forall|i: int|
        0 <= i < n ==> (#[trigger] c.segments@[i]).center.y == center_y_spec(
            origin,
            target,
            total,
            s,
            i,
        )
    &&& forall|i: int| 0 <= i <= n ==> c.joints@[i] == expected_joint(polarity, n, i)
}

/// A body reference points at nothing outside the chain's own segments.
pub open spec fn body_ref_valid(b: BodyRef, n: int) -> bool {
    b matches BodyRef::Segment(k) ==> k < n
}

impl Chain {
    /// No joint dangles: every segment reference is in range.
    pub open spec fn refs_valid(self) -> bool {
        forall|i: int|
            0 <= i < self.joints@.len() ==> {
                let j = #[trigger] self.joints@[i];
                body_ref_valid(j.body_a, self.segments@.len() as int) && body_ref_valid(
                    j.body_b,
                    self.segments@.len() as int,
                )
            }
    }
}

/// Sum of the lengths of a run of segments, along the chain axis.
pub open spec fn sum_lengths(segs: Seq<ChainSegment>) -> int
    decreases segs.len(),
{
    if segs.len() == 0 {
        0
    } else {
        sum_lengths(segs.drop_last()) + segs.last().length
    }
}

/// Sum of a run of segments whose tail is uniform: the head's length plus
/// the nominal length once per remaining segment.
proof fn lemma_sum_uniform_tail(segs: Seq<ChainSegment>, l: int)
    requires
        segs.len() >= 1,
        forall|j: int| 1 <= j < segs.len() ==> (#[trigger] segs[j]).length == l,
    ensures
        sum_lengths(segs) == segs[0].length + (segs.len() - 1) * l,
    decreases segs.len(),
{
    if segs.len() == 1 {
        let front = segs.drop_last();
        assert(front.len() == 0);
        assert(sum_lengths(front) == 0);
        assert(segs.last() == segs[0]);
        assert((segs.len() - 1) * l == 0) by (nonlinear_arith)
            requires
                segs.len() == 1,
        ;
    } else {
        let front = segs.drop_last();
        assert forall|j: int| 1 <= j < front.len() implies (#[trigger] front[j]).length == l by {
            assert(front[j] == segs[j]);
        }
        lemma_sum_uniform_tail(front, l);
        assert(front[0] == segs[0]);
        assert(segs.last() == segs[segs.len() - 1]);
        assert(segs.last().length == l);
        assert((front.len() - 1) * l + l == (segs.len() - 1) * l) by (nonlinear_arith)
            requires
                front.len() + 1 == segs.len(),
        ;
    }
}

/// Every synthesized chain has at least one segment and exactly one more
/// joint than segments.
pub proof fn lemma_chain_counts(
    c: Chain,
    origin: Point,
    target: Point,
    origin_body: u64,
    target_body: u64,
    s: int,
)
    requires
        s >= 1,
        is_synthesized(c, origin, target, origin_body, target_body, s),
    ensures
        c.segments@.len() >= 1,
        c.joints@.len() == c.segments@.len() + 1,
{
    let total = c.total_length as int;
    if total >= s {
        lemma_div_non_zero(total, s);
    }
}

/// The segment lengths tile the span exactly: summed along the chain axis
/// they reconstruct the rounded distance from origin to target, with no gap
/// and no overlap.
pub proof fn lemma_segments_tile_span(
    c: Chain,
    origin: Point,
    target: Point,
    origin_body: u64,
    target_body: u64,
    s: int,
)
    requires
        s >= 1,
        is_synthesized(c, origin, target, origin_body, target_body, s),
    ensures
        sum_lengths(c.segments@) == c.total_length,
        is_floor_sqrt(origin.dist_sq(target), sum_lengths(c.segments@)),
{
    let total = c.total_length as int;
    let n = c.segments@.len() as int;
    lemma_chain_counts(c, origin, target, origin_body, target_body, s);
    lemma_sum_uniform_tail(c.segments@, s);
    assert(c.segments@[0].length == total - (n - 1) * s);
}

/// Joint polarity is consistent: walking the chain from origin to target,
/// every segment is taken in at its origin-facing end and handed on at its
/// target-facing end — the two ends are distinct local anchors of the same
/// segment, so no segment is wired backward, and the one polarity flag of
/// the chain decides both.
pub proof fn lemma_joint_polarity_consistent(
    c: Chain,
    origin: Point,
    target: Point,
    origin_body: u64,
    target_body: u64,
    s: int,
)
    requires
        s >= 1,
        is_synthesized(c, origin, target, origin_body, target_body, s),
    ensures
        forall|i: int|
            0 <= i < c.segments@.len() ==> {
                let incoming = #[trigger] c.joints@[i];
                let outgoing = c.joints@[i + 1];
                &&& incoming.body_b == BodyRef::Segment(i as usize)
                &&& outgoing.body_a == BodyRef::Segment(i as usize)
                &&& incoming.anchor_b == origin_facing_end(c.origin_at_backward)
                &&& outgoing.anchor_a == target_facing_end(c.origin_at_backward)
                &&& incoming.anchor_b != outgoing.anchor_a
            },
{
    let n = c.segments@.len() as int;
    let polarity = backward_faces_origin(origin, target);
    assert forall|i: int| 0 <= i < n implies {
        let incoming = #[trigger] c.joints@[i];
        let outgoing = c.joints@[i + 1];
        &&& incoming.body_b == BodyRef::Segment(i as usize)
        &&& outgoing.body_a == BodyRef::Segment(i as usize)
        &&& incoming.anchor_b == origin_facing_end(c.origin_at_backward)
        &&& outgoing.anchor_a == target_facing_end(c.origin_at_backward)
        &&& incoming.anchor_b != outgoing.anchor_a
    } by {
        assert(c.joints@[i] == expected_joint(polarity, n, i));
        assert(c.joints@[i + 1] == expected_joint(polarity, n, i + 1));
    }
}

/// No joint of a synthesized chain dangles: every segment reference is to
/// one of the chain's own segments.
pub proof fn lemma_chain_refs_valid(
    c: Chain,
    origin: Point,
    target: Point,
    origin_body: u64,
    target_body: u64,
    s: int,
)
    requires
        s >= 1,
        is_synthesized(c, origin, target, origin_body, target_body, s),
    ensures
        c.refs_valid(),
{
    let n = c.segments@.len() as int;
    let polarity = backward_faces_origin(origin, target);
    assert forall|i: int| 0 <= i < c.joints@.len() implies {
        let j = #[trigger] c.joints@[i];
        body_ref_valid(j.body_a, n) && body_ref_valid(j.body_b, n)
    } by {
        assert(c.joints@[i] == expected_joint(polarity, n, i));
    }
}

/// Arithmetic facts about the segment count that the synthesis loop needs:
/// the count is at least one, at most the span, and the nominal lengths of
/// all segments but the first fit within the span with at least one unit
/// left for the first.
proof fn lemma_seg_count_facts(total: int, s: int)
    requires
        1 <= total,
        1 <= s,
    ensures
        1 <= seg_count_spec(total, s) <= total,
        (seg_count_spec(total, s) - 1) * s <= total - 1,
        seg_count_spec(total, s) >= 2 ==> seg_count_spec(total, s) * s <= total,
        1 <= seg_len_spec(total, s, 0) <= total,
{
    let n = seg_count_spec(total, s);
    if total >= s {
        lemma_div_non_zero(total, s);
        lemma_fundamental_div_mod(total, s);
        lemma_mod_bound(total, s);
        assert(n * s == s * (total / s));
        assert(n * s <= total);
        assert((n - 1) * s == n * s - s) by (nonlinear_arith);
        assert(n <= n * s) by (nonlinear_arith)
            requires
                n >= 1,
                s >= 1,
        ;
    } else {
        assert(n == 1);
        assert((n - 1) * s == 0) by (nonlinear_arith)
            requires
                n == 1,
        ;
    }
}

/// Bounds on the doubled axial center offsets: every segment's center lies
/// strictly inside the span.
proof fn lemma_twice_axis_center_bounds(total: int, s: int, i: int)
    requires
        1 <= total,
        1 <= s,
        0 <= i < seg_count_spec(total, s),
    ensures
        1 <= twice_axis_center(total, s, i) <= 2 * total,
{
    let n = seg_count_spec(total, s);
    lemma_seg_count_facts(total, s);
    if i == 0 {
    } else {
        assert(n >= 2);
        assert(n * s <= total);
        assert(1 <= 2 * (n - i) - 1 <= 2 * n - 1);
        lemma_mul_inequality(1, 2 * (n - i) - 1, s);
        lemma_mul_inequality(2 * (n - i) - 1, 2 * n - 1, s);
        assert((2 * n - 1) * s == 2 * (n * s) - s) by (nonlinear_arith);
        assert(1 * s == s) by (nonlinear_arith);
    }
}

/// Scales the displacement `delta` by the exact ratio `num / den`, the
/// magnitude rounded down.
fn scale_offset(delta: i64, num: u64, den: u64) -> (r: i64)
    requires
        1 <= den,
        num <= den,
        -2_000_000_000 <= delta <= 2_000_000_000,
    ensures
        r == scale_trunc(delta as int, num as int, den as int),
        -2_000_000_000 <= r <= 2_000_000_000,
{
    let mag: u64 = if delta >= 0 {
        delta as u64
    } else {
        (-delta) as u64
    };
    proof {
        assert((mag as int) * (num as int) <= 0xffff_ffff_ffff_ffff * 0xffff_ffff_ffff_ffff)
            by (nonlinear_arith)
            requires
                0 <= mag <= 0xffff_ffff_ffff_ffffu64,
                0 <= num <= 0xffff_ffff_ffff_ffffu64,
        ;
    }
    let prod: u128 = (mag as u128) * (num as u128);
    let q128: u128 = prod / (den as u128);
    proof {
        lemma_mul_inequality(num as int, den as int, mag as int);
        lemma_div_is_ordered((num as int) * (mag as int), (den as int) * (mag as int), den as int);
        lemma_div_multiples_vanish(mag as int, den as int);
        assert((mag as int) * (num as int) == (num as int) * (mag as int)) by (nonlinear_arith);
        assert((den as int) * (mag as int) == (mag as int) * (den as int)) by (nonlinear_arith);
        assert(q128 <= mag);
    }
    let q: u64 = q128 as u64;
    if delta >= 0 {
        q as i64
    } else {
        -(q as i64)
    }
}

/// Builds the chain connecting `origin` to `target`: at least one segment,
/// exactly one more joint than segments, every segment tiling the straight
/// line between the two points, every joint wired with the one polarity
/// flag. Rejects a degenerate request (coinciding points) and spawns
/// nothing for it.
pub fn synthesize_chain(
    origin: Point,
    target: Point,
    origin_body: u64,
    target_body: u64,
    segment_length: u64,
) -> (r: Result<Chain, ChainError>)
    requires
        origin.in_bounds(),
        target.in_bounds(),
        segment_length >= 1,
    ensures
        r is Err <==> origin == target,
        r matches Err(e) ==> e == ChainError::DegenerateChainRequest,
        r matches Ok(c) ==> is_synthesized(
            c,
            origin,
            target,
            origin_body,
            target_body,
            segment_length as int,
        ),
{
    if origin == target {
        return Err(ChainError::DegenerateChainRequest);
    }
    let sq: u64 = dist_squared(origin, target);
    proof {
        lemma_dist_sq_zero_iff_eq(origin, target);
        lemma_dist_sq_bounds(origin, target);
    }
    let total: u64 = isqrt(sq);
    proof {
        assert(total >= 1);
        assert(total < 3_000_000_000) by (nonlinear_arith)
            requires
                (total as int) * (total as int) <= 8_000_000_000_000_000_000,
                total >= 0,
        ;
        lemma_seg_count_facts(total as int, segment_length as int);
    }
    let n64: u64 = if total >= segment_length {
        total / segment_length
    } else {
        1
    };
    assert(n64 == seg_count_spec(total as int, segment_length as int));
    let n: usize = n64 as usize;
    let two_total: u64 = 2 * total;
    let dx: i64 = target.x - origin.x;
    let dy: i64 = target.y - origin.y;

    let ghost total_i = total as int;
    let ghost s_i = segment_length as int;
    let ghost n_i = n as int;

    let mut segments: Vec<ChainSegment> = Vec::new();
    let mut i: usize = 0;
    while i < n
        invariant
            origin.in_bounds(),
            target.in_bounds(),
            dx == target.x - origin.x,
            dy == target.y - origin.y,
            1 <= s_i,
            1 <= total_i < 3_000_000_000,
            s_i == segment_length as int,
            total_i == total as int,
            two_total == 2 * total_i,
            n_i == n as int,
            n64 == n_i,
            n_i == seg_count_spec(total_i, s_i),
            (n_i - 1) * s_i <= total_i - 1,
            n_i >= 2 ==> n_i * s_i <= total_i,
            0 <= i <= n,
            segments@.len() == i,
            forall|j: int|
                0 <= j < i ==> (#[trigger] segments@[j]).length == seg_len_spec(total_i, s_i, j),
            forall|j: int|
                0 <= j < i ==> (#[trigger] segments@[j]).center.x == center_x_spec(
                    origin,
                    target,
                    total_i,
                    s_i,
                    j,
                ),
            forall|j: int|
                0 <= j < i ==> (#[trigger] segments@[j]).center.y == center_y_spec(
                    origin,
                    target,
                    total_i,
                    s_i,
                    j,
                ),
        decreases n - i,
    {
        proof {
            lemma_twice_axis_center_bounds(total_i, s_i, i as int);
        }
        let len_i: u64;
        let t: u64;
        if i == 0 {
            len_i = total - (n64 - 1) * segment_length;
            t = len_i;
        } else {
            len_i = segment_length;
            proof {
                lemma_mul_inequality(2 * (n_i - i as int) - 1, 2 * n_i - 1, s_i);
                assert((2 * n_i - 1) * s_i == 2 * (n_i * s_i) - s_i) by (nonlinear_arith);
            }
            t = two_total - (2 * (n64 - i as u64) - 1) * segment_length;
        }
        let off_x: i64 = scale_offset(dx, t, two_total);
        let off_y: i64 = scale_offset(dy, t, two_total);
        let center = Point { x: origin.x + off_x, y: origin.y + off_y };
        segments.push(ChainSegment { length: len_i, center });
        i = i + 1;
    }

    let polarity: bool = origin.x <= target.x;
    let near: JointAnchor = if polarity {
        JointAnchor::BackwardEnd
    } else {
        JointAnchor::ForwardEnd
    };
    let far: JointAnchor = if polarity {
        JointAnchor::ForwardEnd
    } else {
        JointAnchor::BackwardEnd
    };
    let mut joints: Vec<Joint> = Vec::new();
    joints.push(
        Joint {
            body_a: BodyRef::Origin,
            anchor_a: JointAnchor::BodyCenter,
            body_b: BodyRef::Segment(0),
            anchor_b: near,
        },
    );
    let mut k: usize = 1;
    while k < n
        invariant
            1 <= n,
            n_i == n as int,
            polarity == backward_faces_origin(origin, target),
            near == origin_facing_end(polarity),
            far == target_facing_end(polarity),
            1 <= k <= n,
            joints@.len() == k,
            forall|j: int| 0 <= j < k ==> joints@[j] == expected_joint(polarity, n_i, j),
        decreases n - k,
    {
        joints.push(
            Joint { body_a: BodyRef::Segment(k - 1), anchor_a: far, body_b: BodyRef::Segment(k), anchor_b: near },
        );
        k = k + 1;
    }
    joints.push(
        Joint {
            body_a: BodyRef::Segment(n - 1),
            anchor_a: far,
            body_b: BodyRef::Target,
            anchor_b: JointAnchor::BodyCenter,
        },
    );

    let chain = Chain {
        origin,
        target,
        origin_body,
        target_body,
        total_length: total,
        segment_length,
        origin_at_backward: polarity,
        segments,
        joints,
    };
    Ok(chain)
}

} // verus!
