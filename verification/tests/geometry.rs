use rope_kernel::geometry::{
    dist_squared, direction, distance, isqrt, midpoint, quadrant, Point, Quadrant,
};

fn pt(x: i64, y: i64) -> Point {
    Point { x, y }
}

#[test]
fn dist_squared_exact() {
    assert_eq!(dist_squared(pt(0, 0), pt(3, 4)), 25);
    assert_eq!(dist_squared(pt(-90, 20), pt(0, 0)), 8500);
    assert_eq!(dist_squared(pt(-90, 20), pt(-200, 0)), 12500);
    assert_eq!(dist_squared(pt(7, -3), pt(7, -3)), 0);
}

#[test]
fn distance_three_four_five() {
    assert_eq!(distance(pt(0, 0), pt(3, 4)), 5);
    assert_eq!(distance(pt(1, 1), pt(4, 5)), 5);
}

#[test]
fn distance_rounds_down() {
    // sqrt(2) ~ 1.41 rounds down to 1
    assert_eq!(distance(pt(0, 0), pt(1, 1)), 1);
    // sqrt(8500) ~ 92.2
    assert_eq!(distance(pt(-90, 20), pt(0, 0)), 92);
    // sqrt(12500) ~ 111.8
    assert_eq!(distance(pt(-90, 20), pt(-200, 0)), 111);
}

#[test]
fn isqrt_small_values() {
    assert_eq!(isqrt(0), 0);
    assert_eq!(isqrt(1), 1);
    assert_eq!(isqrt(2), 1);
    assert_eq!(isqrt(3), 1);
    assert_eq!(isqrt(4), 2);
    assert_eq!(isqrt(8), 2);
    assert_eq!(isqrt(9), 3);
    assert_eq!(isqrt(99), 9);
    assert_eq!(isqrt(100), 10);
}

#[test]
fn isqrt_large_values() {
    assert_eq!(isqrt(u64::MAX), 4_294_967_295);
    assert_eq!(isqrt(4_294_967_295 * 4_294_967_295), 4_294_967_295);
    assert_eq!(isqrt(4_294_967_295 * 4_294_967_295 - 1), 4_294_967_294);
}

#[test]
fn midpoint_even_and_odd() {
    assert_eq!(midpoint(pt(0, 0), pt(10, 4)), pt(5, 2));
    // odd sums round down
    assert_eq!(midpoint(pt(0, 0), pt(5, 5)), pt(2, 2));
    assert_eq!(midpoint(pt(0, 0), pt(-5, -5)), pt(-3, -3));
    assert_eq!(midpoint(pt(-200, 0), pt(0, 0)), pt(-100, 0));
}

#[test]
fn direction_is_displacement() {
    assert_eq!(direction(pt(1, 2), pt(4, 6)), (3, 4));
    assert_eq!(direction(pt(4, 6), pt(1, 2)), (-3, -4));
}

#[test]
fn quadrant_covers_all_four_quadrants_and_axes() {
    let o = pt(0, 0);
    assert_eq!(quadrant(o, pt(5, 0)), Some(Quadrant::PositiveXAxis));
    assert_eq!(quadrant(o, pt(5, 5)), Some(Quadrant::UpperRight));
    // vertical displacement: a bare atan(dy/dx) would divide by zero here
    assert_eq!(quadrant(o, pt(0, 5)), Some(Quadrant::PositiveYAxis));
    assert_eq!(quadrant(o, pt(-5, 5)), Some(Quadrant::UpperLeft));
    assert_eq!(quadrant(o, pt(-5, 0)), Some(Quadrant::NegativeXAxis));
    assert_eq!(quadrant(o, pt(-5, -5)), Some(Quadrant::LowerLeft));
    assert_eq!(quadrant(o, pt(0, -5)), Some(Quadrant::NegativeYAxis));
    assert_eq!(quadrant(o, pt(5, -5)), Some(Quadrant::LowerRight));
}

#[test]
fn quadrant_of_zero_displacement_is_none() {
    assert_eq!(quadrant(pt(3, 3), pt(3, 3)), None);
}
