//! Circular fences: a point is inside when its distance to the center is at
//! most the radius.
use vstd::prelude::*;

use crate::coordinates::{CircleCoordinates, Coordinates, MovingTrackerCircle};

verus! {

/// The square of the Euclidean distance between two points.
pub open spec fn square_distance(a: Coordinates, b: Coordinates) -> int {
    (a.lat - b.lat) * (a.lat - b.lat) + (a.lon - b.lon) * (a.lon - b.lon)
}

/// Whether `point` lies inside `circle` or on its boundary.
pub open spec fn in_circle(circle: CircleCoordinates, point: Coordinates) -> bool {
    circle.rad >= 0 && square_distance(circle.center_spec(), point) <= circle.rad * circle.rad
}

/// The verdicts for a track of points, in order.
pub open spec fn circle_verdicts(circle: CircleCoordinates, points: Seq<Coordinates>) -> Seq<
    bool,
> {
    points.map_values(|p: Coordinates| in_circle(circle, p))
}

/// The square of the difference of two `i32`, exactly.
fn square_of_difference(a: i32, b: i32) -> (r: i128)
    ensures
        r == (a - b) * (a - b),
        0 <= r <= 0x1_0000_0000_0000_0000,
{
    let d: i128 = a as i128 - b as i128;
    assert(0 <= d * d <= 0x1_0000_0000_0000_0000) by (nonlinear_arith)
        requires
            -0x1_0000_0000 <= d <= 0x1_0000_0000,
    ;
    d * d
}

/// Whether `point` lies inside `circle` or on its boundary.
pub fn contains(circle: &CircleCoordinates, point: &Coordinates) -> (r: bool)
    ensures
        r == in_circle(*circle, *point),
{
    if circle.rad < 0 {
        return false;
    }
    let distance: i128 = square_of_difference(circle.lat, point.lat) + square_of_difference(
        circle.lon,
        point.lon,
    );
    let rad: i128 = circle.rad as i128;
    assert(rad * rad <= 0x4000_0000_0000_0000_0000_0000_0000_0000) by (nonlinear_arith)
        requires
            0 <= rad < 0x8000_0000_0000_0000,
    ;
    distance <= rad * rad
}

/// Evaluates every position of the tracked vehicle against the circular
/// fence, in order.
pub fn execute_circle(tracker: &MovingTrackerCircle) -> (r: Vec<bool>)
    ensures
        r@ == circle_verdicts(tracker.shape_coordinate, tracker.moving_coordinate@),
{
    let points = &tracker.moving_coordinate;
    let mut verdicts: Vec<bool> = Vec::new();
    let mut i: usize = 0;
    while i < points.len()
        invariant
            i <= points.len(),
            verdicts@ == circle_verdicts(tracker.shape_coordinate, points@.subrange(0, i as int)),
        decreases points.len() - i,
    {
        verdicts.push(contains(&tracker.shape_coordinate, &points[i]));
        assert(points@.subrange(0, i + 1) == points@.subrange(0, i as int).push(points@[i as int]));
        i = i + 1;
    }
    assert(points@.subrange(0, points.len() as int) == points@);
    verdicts
}

/// Whether the point `(lat, lon)` lies inside the record's circular fence.
pub fn contains_in_circle(tracker: &MovingTrackerCircle, lat: i32, lon: i32) -> (r: bool)
    ensures
        r == in_circle(tracker.shape_coordinate, Coordinates { lat, lon }),
{
    let point = Coordinates::new(lat, lon);
    contains(&tracker.shape_coordinate, &point)
}

/// A point whose distance to the center equals the radius lies inside the
/// circle; one strictly farther away does not.
pub proof fn circle_boundary_is_inclusive(circle: CircleCoordinates, point: Coordinates)
    requires
        circle.rad >= 0,
    ensures
        square_distance(circle.center_spec(), point) == circle.rad * circle.rad ==> in_circle(
            circle,
            point,
        ),
        square_distance(circle.center_spec(), point) > circle.rad * circle.rad ==> !in_circle(
            circle,
            point,
        ),
{
}

/// The center of a circle with a non-negative radius lies inside it.
pub proof fn circle_holds_its_center(circle: CircleCoordinates)
    requires
        circle.rad >= 0,
    ensures
        in_circle(circle, circle.center_spec()),
{
    assert(circle.rad * circle.rad >= 0) by (nonlinear_arith)
        requires
            circle.rad >= 0,
    ;
}

} // verus!
