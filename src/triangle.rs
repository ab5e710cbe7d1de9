//! Triangular fences: a point is inside when the three triangles it forms
//! with the sides of the fence exactly cover the fence.
use vstd::prelude::*;

use crate::coordinates::{Coordinates, MovingTracker};

verus! {

/// Twice the (unsigned) area of the triangle `a`, `b`, `c`, by the shoelace
/// formula.
pub open spec fn double_area(a: Coordinates, b: Coordinates, c: Coordinates) -> int {
    let s = a.lat * (b.lon - c.lon) + b.lat * (c.lon - a.lon) + c.lat * (a.lon - b.lon);
    if s < 0 {
        -s
    } else {
        s
    }
}

/// Whether `point` lies inside the triangle `triangle` or on its boundary.
/// A sequence of other than three vertices holds no point.
pub open spec fn in_triangle(triangle: Seq<Coordinates>, point: Coordinates) -> bool {
    triangle.len() == 3 && double_area(point, triangle[1], triangle[2]) + double_area(
        triangle[0],
        point,
        triangle[2],
    ) + double_area(triangle[0], triangle[1], point) == double_area(
        triangle[0],
        triangle[1],
        triangle[2],
    )
}

/// The verdicts for a track of points, in order.
pub open spec fn triangle_verdicts(triangle: Seq<Coordinates>, points: Seq<Coordinates>) -> Seq<
    bool,
> {
    points.map_values(|p: Coordinates| in_triangle(triangle, p))
}

/// One term `x * (y1 - y2)` of the shoelace formula, exactly.
fn shoelace_term(x: i32, y1: i32, y2: i32) -> (r: i128)
    ensures
        r == x * (y1 - y2),
        -0x8000_0000_0000_0000 <= r <= 0x8000_0000_0000_0000,
{
    let d: i128 = y1 as i128 - y2 as i128;
    let x: i128 = x as i128;
    assert(-0x8000_0000_0000_0000 <= x * d <= 0x8000_0000_0000_0000) by (nonlinear_arith)
        requires
            -0x8000_0000 <= x <= 0x8000_0000,
            -0x1_0000_0000 <= d <= 0x1_0000_0000,
    ;
    x * d
}

/// Twice the area of the triangle `side1`, `side2`, `side3`.
fn get_area(side1: &Coordinates, side2: &Coordinates, side3: &Coordinates) -> (r: i128)
    ensures
        r == double_area(*side1, *side2, *side3),
        0 <= r <= 0x3_0000_0000_0000_0000,
{
    let area = shoelace_term(side1.lat, side2.lon, side3.lon) + shoelace_term(
        side2.lat,
        side3.lon,
        side1.lon,
    ) + shoelace_term(side3.lat, side1.lon, side2.lon);
    if area < 0 {
        -area
    } else {
        area
    }
}

/// Whether `point` lies inside the triangle `triangle` or on its boundary.
/// A slice of other than three vertices holds no point.
pub fn contains(triangle: &[Coordinates], point: &Coordinates) -> (r: bool)
    ensures
        r == in_triangle(triangle@, *point),
{
    if triangle.len() != 3 {
        return false;
    }
    let side1 = &triangle[0];
    let side2 = &triangle[1];
    let side3 = &triangle[2];
    let area_abc = get_area(side1, side2, side3);
    let area_pbc = get_area(point, side2, side3);
    let area_pac = get_area(side1, point, side3);
    let area_pab = get_area(side1, side2, point);
    area_pbc + area_pac + area_pab == area_abc
}

/// Evaluates every position of the tracked vehicle against the triangular
/// fence, in order.
pub fn execute_triangle(tracker: &MovingTracker) -> (r: Vec<bool>)
    ensures
        r@ == triangle_verdicts(tracker.shape_coordinate@, tracker.moving_coordinate@),
{
    let points = &tracker.moving_coordinate;
    let mut verdicts: Vec<bool> = Vec::new();
    let mut i: usize = 0;
    while i < points.len()
        invariant
            i <= points.len(),
            verdicts@ == triangle_verdicts(
                tracker.shape_coordinate@,
                points@.subrange(0, i as int),
            ),
        decreases points.len() - i,
    {
        verdicts.push(contains(tracker.shape_coordinate.as_slice(), &points[i]));
        assert(points@.subrange(0, i + 1) == points@.subrange(0, i as int).push(points@[i as int]));
        i = i + 1;
    }
    assert(points@.subrange(0, points.len() as int) == points@);
    verdicts
}

/// Whether the point `(lat, lon)` lies inside the record's triangular fence.
pub fn contains_in_triangle(tracker: &MovingTracker, lat: i32, lon: i32) -> (r: bool)
    ensures
        r == in_triangle(tracker.shape_coordinate@, Coordinates { lat, lon }),
{
    let point = Coordinates::new(lat, lon);
    contains(tracker.shape_coordinate.as_slice(), &point)
}

/// Each vertex of a triangle lies inside it.
pub proof fn triangle_holds_its_vertices(triangle: Seq<Coordinates>)
    requires
        triangle.len() == 3,
    ensures
        in_triangle(triangle, triangle[0]),
        in_triangle(triangle, triangle[1]),
        in_triangle(triangle, triangle[2]),
{
    let a = triangle[0];
    let b = triangle[1];
    let c = triangle[2];
    assert(double_area(a, a, c) == 0 && double_area(a, b, a) == 0 && double_area(b, b, c) == 0
        && double_area(a, b, b) == 0 && double_area(c, b, c) == 0 && double_area(a, c, c) == 0)
        by (nonlinear_arith);
}

/// A triangle fence given by other than three vertices holds no point: the
/// answer is `false`, not a failure.
pub proof fn triangle_needs_three_vertices(triangle: Seq<Coordinates>, point: Coordinates)
    requires
        triangle.len() != 3,
    ensures
        !in_triangle(triangle, point),
{
}

} // verus!
