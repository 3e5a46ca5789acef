use rope_kernel::chain::{synthesize_chain, BodyRef, Chain, ChainError, JointAnchor};
use rope_kernel::geometry::Point;

fn pt(x: i64, y: i64) -> Point {
    Point { x, y }
}

fn must_synthesize(origin: Point, target: Point, s: u64) -> Chain {
    synthesize_chain(origin, target, 7, 8, s).expect("synthesis must succeed")
}

#[test]
fn chain_counts_and_lengths() {
    // span 10 cut with nominal length 3: three segments, the first absorbs
    // the remainder
    let c = must_synthesize(pt(0, 0), pt(10, 0), 3);
    assert_eq!(c.total_length, 10);
    assert_eq!(c.segments.len(), 3);
    assert_eq!(c.joints.len(), 4);
    assert_eq!(c.segments[0].length, 4);
    assert_eq!(c.segments[1].length, 3);
    assert_eq!(c.segments[2].length, 3);
}

#[test]
fn segment_lengths_sum_to_span() {
    for (target, s) in [
        (pt(10, 0), 3),
        (pt(3, 4), 2),
        (pt(-200, 133), 7),
        (pt(1, 1), 5),
        (pt(0, 977), 13),
    ] {
        let c = must_synthesize(pt(0, 0), target, s);
        let sum: u64 = c.segments.iter().map(|seg| seg.length).sum();
        assert_eq!(sum, c.total_length);
        assert_eq!(c.joints.len(), c.segments.len() + 1);
        assert!(c.segments.len() >= 1);
    }
}

#[test]
fn chain_centers_walk_the_span() {
    let c = must_synthesize(pt(0, 0), pt(10, 0), 3);
    assert_eq!(c.segments[0].center, pt(2, 0));
    assert_eq!(c.segments[1].center, pt(5, 0));
    assert_eq!(c.segments[2].center, pt(8, 0));
}

#[test]
fn chain_centers_on_a_diagonal() {
    // span 5 from (0,0) to (3,4), nominal length 2: lengths 3 and 2,
    // centers at exact (0.9, 1.2) and (2.4, 3.2), rounded toward zero
    let c = must_synthesize(pt(0, 0), pt(3, 4), 2);
    assert_eq!(c.total_length, 5);
    assert_eq!(c.segments.len(), 2);
    assert_eq!(c.segments[0].length, 3);
    assert_eq!(c.segments[1].length, 2);
    assert_eq!(c.segments[0].center, pt(0, 1));
    assert_eq!(c.segments[1].center, pt(2, 3));
}

#[test]
fn single_segment_special_case() {
    // a nominal length equal to (or above) the whole span yields the
    // single-rigid-link rope
    let c = must_synthesize(pt(0, 0), pt(10, 0), 10);
    assert_eq!(c.segments.len(), 1);
    assert_eq!(c.joints.len(), 2);
    assert_eq!(c.segments[0].length, 10);
    assert_eq!(c.segments[0].center, pt(5, 0));

    let c = must_synthesize(pt(0, 0), pt(10, 0), 1000);
    assert_eq!(c.segments.len(), 1);
    assert_eq!(c.segments[0].length, 10);
}

#[test]
fn joints_wired_left_to_right() {
    // origin left of target: the backward end of every segment faces origin
    let c = must_synthesize(pt(0, 0), pt(10, 0), 3);
    assert!(c.origin_at_backward);
    let n = c.segments.len();
    assert_eq!(c.joints[0].body_a, BodyRef::Origin);
    assert_eq!(c.joints[0].anchor_a, JointAnchor::BodyCenter);
    assert_eq!(c.joints[0].body_b, BodyRef::Segment(0));
    assert_eq!(c.joints[0].anchor_b, JointAnchor::BackwardEnd);
    for i in 1..n {
        assert_eq!(c.joints[i].body_a, BodyRef::Segment(i - 1));
        assert_eq!(c.joints[i].anchor_a, JointAnchor::ForwardEnd);
        assert_eq!(c.joints[i].body_b, BodyRef::Segment(i));
        assert_eq!(c.joints[i].anchor_b, JointAnchor::BackwardEnd);
    }
    assert_eq!(c.joints[n].body_a, BodyRef::Segment(n - 1));
    assert_eq!(c.joints[n].anchor_a, JointAnchor::ForwardEnd);
    assert_eq!(c.joints[n].body_b, BodyRef::Target);
    assert_eq!(c.joints[n].anchor_b, JointAnchor::BodyCenter);
}

#[test]
fn joints_wired_right_to_left() {
    // origin right of target: the polarity flips once, for every joint
    let c = must_synthesize(pt(10, 0), pt(0, 0), 3);
    assert!(!c.origin_at_backward);
    let n = c.segments.len();
    assert_eq!(c.joints[0].anchor_b, JointAnchor::ForwardEnd);
    for i in 1..n {
        assert_eq!(c.joints[i].anchor_a, JointAnchor::BackwardEnd);
        assert_eq!(c.joints[i].anchor_b, JointAnchor::ForwardEnd);
    }
    assert_eq!(c.joints[n].anchor_a, JointAnchor::BackwardEnd);
}

#[test]
fn joint_polarity_is_consistent_along_the_chain() {
    // walking origin to target, each segment is taken in at one end and
    // handed on at the opposite end, the same ends for every segment
    for (origin, target) in [(pt(0, 0), pt(10, 7)), (pt(10, 7), pt(0, 0)), (pt(5, 5), pt(5, -50))] {
        let c = must_synthesize(origin, target, 3);
        let n = c.segments.len();
        let incoming = c.joints[0].anchor_b;
        let outgoing = c.joints[n].anchor_a;
        assert_ne!(incoming, outgoing);
        for i in 0..n {
            assert_eq!(c.joints[i].body_b, BodyRef::Segment(i));
            assert_eq!(c.joints[i + 1].body_a, BodyRef::Segment(i));
            assert_eq!(c.joints[i].anchor_b, incoming);
            assert_eq!(c.joints[i + 1].anchor_a, outgoing);
        }
    }
}

#[test]
fn no_joint_dangles() {
    let c = must_synthesize(pt(-200, 0), pt(133, 57), 4);
    let n = c.segments.len();
    for j in &c.joints {
        for body in [j.body_a, j.body_b] {
            if let BodyRef::Segment(k) = body {
                assert!(k < n);
            }
        }
    }
}

#[test]
fn degenerate_request_is_rejected() {
    let p = pt(5, -7);
    let r = synthesize_chain(p, p, 1, 2, 10);
    assert_eq!(r.err(), Some(ChainError::DegenerateChainRequest));
}

#[test]
fn adjacent_points_still_get_a_chain() {
    // the shortest nondegenerate span: distance rounds down to 1
    let c = must_synthesize(pt(0, 0), pt(1, 1), 5);
    assert_eq!(c.total_length, 1);
    assert_eq!(c.segments.len(), 1);
    assert_eq!(c.segments[0].length, 1);
    assert_eq!(c.joints.len(), 2);
}

#[test]
fn chain_records_its_request() {
    let c = synthesize_chain(pt(1, 2), pt(31, 2), 42, 43, 6).expect("synthesis must succeed");
    assert_eq!(c.origin, pt(1, 2));
    assert_eq!(c.target, pt(31, 2));
    assert_eq!(c.origin_body, 42);
    assert_eq!(c.target_body, 43);
    assert_eq!(c.segment_length, 6);
    assert_eq!(c.total_length, 30);
    assert_eq!(c.segments.len(), 5);
}
