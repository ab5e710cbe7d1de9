//! Polygon fences, by ray casting: the line through the point at constant
//! longitude is intersected with every edge (by Cramer's rule on the edges'
//! line equations), and the point is inside when the distinct intersections
//! on each side of it are odd in number.
//!
//! Line equations have integer coefficients, and an intersection's latitude
//! is kept as an exact fraction `num / den` with `den > 0`; its longitude is
//! that of the ray.
use vstd::prelude::*;

use crate::coordinates::{Coordinates, FenceError, MovingTracker};

verus! {

/// The line through `a` and `b`, as the coefficients `(A, B, C)` of
/// `A * lat + B * lon == C`. Lines of constant longitude and of constant
/// latitude get the forms `(0, 1, lon)` and `(1, 0, lat)`.
pub open spec fn line_through(a: Coordinates, b: Coordinates) -> (int, int, int) {
    if a.lon == b.lon {
        (0, 1, a.lon as int)
    } else if a.lat == b.lat {
        (1, 0, a.lat as int)
    } else {
        (b.lon - a.lon, a.lat - b.lat, (b.lon - a.lon) * a.lat + (a.lat - b.lat) * a.lon)
    }
}

/// The vertex where edge `i` ends: the edges wrap from the last vertex to
/// the first.
pub open spec fn edge_end(v: Seq<Coordinates>, i: int) -> Coordinates {
    v[(i + 1) % (v.len() as int)]
}

/// The line equation of edge `i`.
pub open spec fn edge_line(v: Seq<Coordinates>, i: int) -> (int, int, int) {
    line_through(v[i], edge_end(v, i))
}

/// Where `line` meets the ray `(0, 1, point.lon)`, by Cramer's rule: the
/// determinant is `A`, the latitude is `(C - B * point.lon) / A`, returned
/// as a fraction with a positive denominator when `A != 0`.
pub open spec fn crossing(line: (int, int, int), point: Coordinates) -> (int, int) {
    let det = line.0;
    let detx = line.2 - line.1 * point.lon;
    if det >= 0 {
        (detx, det)
    } else {
        (-detx, -det)
    }
}

/// The intersection of edge `i` with the ray through `point`.
#[verifier::opaque]
pub open spec fn edge_crossing(v: Seq<Coordinates>, i: int, point: Coordinates) -> (int, int) {
    crossing(edge_line(v, i), point)
}

/// Whether `x` lies between `a` and `b`, both included.
pub open spec fn within(x: int, a: int, b: int) -> bool {
    (b <= x && x <= a) || (a <= x && x <= b)
}

/// Whether edge `i` meets the ray through `point` in a single point that
/// lies within the edge's bounds in latitude and in longitude.
#[verifier::opaque]
pub open spec fn edge_hit(v: Seq<Coordinates>, i: int, point: Coordinates) -> bool {
    let a = v[i];
    let b = edge_end(v, i);
    let q = edge_crossing(v, i, point);
    edge_line(v, i).0 != 0 && within(q.0, a.lat * q.1, b.lat * q.1) && within(
        point.lon as int,
        a.lon as int,
        b.lon as int,
    )
}

/// Whether the intersection of edge `i` lies left of `point` (at a smaller
/// latitude); the others count as right.
#[verifier::opaque]
pub open spec fn edge_left(v: Seq<Coordinates>, i: int, point: Coordinates) -> bool {
    let q = edge_crossing(v, i, point);
    q.0 < point.lat * q.1
}

/// Whether two fractions denote the same value.
#[verifier::opaque]
pub open spec fn same_pair(x: (int, int), y: (int, int)) -> bool {
    x.0 * y.1 == y.0 * x.1
}

/// Whether edges `j` and `i` meet the ray at the same point.
pub open spec fn same_crossing(v: Seq<Coordinates>, j: int, i: int, point: Coordinates) -> bool {
    same_pair(edge_crossing(v, j, point), edge_crossing(v, i, point))
}

/// Whether edge `i` gives an intersection on the side `left` that no
/// earlier edge gave.
pub open spec fn first_crossing(v: Seq<Coordinates>, i: int, point: Coordinates, left: bool) -> bool {
    &&& edge_hit(v, i, point)
    &&& edge_left(v, i, point) == left
    &&& forall|j: int|
        0 <= j < i ==> !(edge_hit(v, j, point) && edge_left(v, j, point) == left
            && #[trigger] same_crossing(v, j, i, point))
}

/// The number of distinct intersections on the side `left` among the first
/// `k` edges.
pub open spec fn crossing_count(v: Seq<Coordinates>, point: Coordinates, left: bool, k: int) -> nat
    decreases k,
{
    if k <= 0 {
        0
    } else {
        crossing_count(v, point, left, k - 1) + if first_crossing(v, k - 1, point, left) {
            1nat
        } else {
            0nat
        }
    }
}

/// Whether `point` lies inside the polygon with vertices `v`: the distinct
/// intersections on each side are present and odd in number.
pub open spec fn in_polygon(v: Seq<Coordinates>, point: Coordinates) -> bool {
    let l = crossing_count(v, point, true, v.len() as int);
    let r = crossing_count(v, point, false, v.len() as int);
    l > 0 && r > 0 && l % 2 == 1 && r % 2 == 1
}

/// The verdicts for a track of points, in order.
pub open spec fn polygon_verdicts(v: Seq<Coordinates>, points: Seq<Coordinates>) -> Seq<bool> {
    points.map_values(|p: Coordinates| in_polygon(v, p))
}

/// What a polygon fence answers for `point`: an error when it has fewer
/// than three vertices.
pub open spec fn polygon_result(v: Seq<Coordinates>, point: Coordinates) -> Result<bool, FenceError> {
    if v.len() < 3 {
        Err(FenceError::TooFewVertices)
    } else {
        Ok(in_polygon(v, point))
    }
}

/// The coefficients of a line equation, as integers.
pub open spec fn line_of(t: (i128, i128, i128)) -> (int, int, int) {
    (t.0 as int, t.1 as int, t.2 as int)
}

/// A fraction `(num, den)`, as integers.
pub open spec fn pair_of(q: (i128, i128)) -> (int, int) {
    (q.0 as int, q.1 as int)
}

/// The range in which every intersection fraction stays.
pub open spec fn crossing_bounded(q: (i128, i128)) -> bool {
    0 < q.1 <= 0x1_0000_0000 && -0x2_0000_0000_0000_0000 <= q.0 <= 0x2_0000_0000_0000_0000
}

proof fn lemma_line_bounds(a: Coordinates, b: Coordinates)
    ensures
        -0x1_0000_0000 <= line_through(a, b).0 <= 0x1_0000_0000,
        -0x1_0000_0000 <= line_through(a, b).1 <= 0x1_0000_0000,
        -0x1_0000_0000_0000_0000 <= line_through(a, b).2 <= 0x1_0000_0000_0000_0000,
        -0x8000_0000_0000_0000 <= (b.lon - a.lon) * a.lat <= 0x8000_0000_0000_0000,
        -0x8000_0000_0000_0000 <= (a.lat - b.lat) * a.lon <= 0x8000_0000_0000_0000,
{
    let da: int = b.lon - a.lon;
    let db: int = a.lat - b.lat;
    let x: int = a.lat as int;
    let y: int = a.lon as int;
    assert(-0x8000_0000_0000_0000 <= da * x <= 0x8000_0000_0000_0000) by (nonlinear_arith)
        requires
            -0x1_0000_0000 <= da <= 0x1_0000_0000,
            -0x8000_0000 <= x <= 0x8000_0000,
    ;
    assert(-0x8000_0000_0000_0000 <= db * y <= 0x8000_0000_0000_0000) by (nonlinear_arith)
        requires
            -0x1_0000_0000 <= db <= 0x1_0000_0000,
            -0x8000_0000 <= y <= 0x8000_0000,
    ;
}

proof fn lemma_same_pair_transitive(x: (int, int), y: (int, int), z: (int, int))
    requires
        x.1 > 0,
        y.1 > 0,
        z.1 > 0,
        same_pair(x, y),
        same_pair(y, z),
    ensures
        same_pair(x, z),
{
    reveal(same_pair);
    let (a, b) = x;
    let (c, d) = y;
    let (e, f) = z;
    assert(a * f == e * b) by (nonlinear_arith)
        requires
            a * d == c * b,
            c * f == e * d,
            d > 0,
    {
        assert(a * d * f == c * b * f);
        assert(c * f * b == e * d * b);
        assert(d * (a * f) == d * (e * b));
    }
}

proof fn lemma_hit_has_positive_denominator(v: Seq<Coordinates>, i: int, point: Coordinates)
    requires
        edge_hit(v, i, point),
    ensures
        edge_crossing(v, i, point).1 > 0,
{
    reveal(edge_hit);
    reveal(edge_crossing);
}

/// The intersections found so far on one side: `list` holds, once each,
/// the distinct intersections on side `left` of the first `i` edges, and
/// `src` names an edge that gave each of them.
spec fn tracks(
    v: Seq<Coordinates>,
    point: Coordinates,
    left: bool,
    i: int,
    list: Seq<(i128, i128)>,
    src: Seq<int>,
) -> bool {
    &&& list.len() == crossing_count(v, point, left, i)
    &&& src.len() == list.len()
    &&& forall|k: int| 0 <= k < list.len() ==> 0 <= #[trigger] src[k] < i
    &&& forall|k: int| 0 <= k < list.len() ==> edge_hit(v, #[trigger] src[k], point)
    &&& forall|k: int| 0 <= k < list.len() ==> edge_left(v, #[trigger] src[k], point) == left
    &&& forall|k: int|
        0 <= k < list.len() ==> pair_of(#[trigger] list[k]) == edge_crossing(v, src[k], point)
    &&& forall|k: int| 0 <= k < list.len() ==> crossing_bounded(#[trigger] list[k])
    &&& forall|j: int|
        0 <= j < i && edge_hit(v, j, point) && edge_left(v, j, point) == left ==> #[trigger] listed(
            v,
            point,
            list,
            j,
        )
}

/// Whether `list` holds the intersection of edge `j`.
spec fn listed(v: Seq<Coordinates>, point: Coordinates, list: Seq<(i128, i128)>, j: int) -> bool {
    exists|k: int|
        0 <= k < list.len() && same_pair(pair_of(#[trigger] list[k]), edge_crossing(v, j, point))
}

proof fn lemma_tracks_skip(
    v: Seq<Coordinates>,
    point: Coordinates,
    left: bool,
    i: int,
    list: Seq<(i128, i128)>,
    src: Seq<int>,
)
    requires
        0 <= i,
        tracks(v, point, left, i, list, src),
        !(edge_hit(v, i, point) && edge_left(v, i, point) == left),
    ensures
        tracks(v, point, left, i + 1, list, src),
{
    assert(!first_crossing(v, i, point, left));
    assert(crossing_count(v, point, left, i + 1) == crossing_count(v, point, left, i));
    assert forall|j: int|
        0 <= j < i + 1 && edge_hit(v, j, point) && edge_left(v, j, point)
            == left implies #[trigger] listed(v, point, list, j) by {
        assert(j < i);
    }
}

proof fn lemma_tracks_found(
    v: Seq<Coordinates>,
    point: Coordinates,
    left: bool,
    i: int,
    list: Seq<(i128, i128)>,
    src: Seq<int>,
    k0: int,
)
    requires
        0 <= i,
        tracks(v, point, left, i, list, src),
        edge_hit(v, i, point),
        edge_left(v, i, point) == left,
        0 <= k0 < list.len(),
        same_pair(pair_of(list[k0]), edge_crossing(v, i, point)),
    ensures
        tracks(v, point, left, i + 1, list, src),
{
    let j0 = src[k0];
    assert(pair_of(list[k0]) == edge_crossing(v, j0, point));
    assert(same_crossing(v, j0, i, point));
    assert(!first_crossing(v, i, point, left));
    assert(crossing_count(v, point, left, i + 1) == crossing_count(v, point, left, i));
    assert forall|j: int|
        0 <= j < i + 1 && edge_hit(v, j, point) && edge_left(v, j, point)
            == left implies #[trigger] listed(v, point, list, j) by {
        if j == i {
            assert(same_pair(pair_of(list[k0]), edge_crossing(v, j, point)));
        } else {
            assert(j < i);
            assert(listed(v, point, list, j));
        }
    }
}

proof fn lemma_tracks_new(
    v: Seq<Coordinates>,
    point: Coordinates,
    left: bool,
    i: int,
    list: Seq<(i128, i128)>,
    src: Seq<int>,
    q: (i128, i128),
)
    requires
        0 <= i,
        tracks(v, point, left, i, list, src),
        edge_hit(v, i, point),
        edge_left(v, i, point) == left,
        pair_of(q) == edge_crossing(v, i, point),
        crossing_bounded(q),
        forall|k: int| 0 <= k < list.len() ==> !same_pair(pair_of(#[trigger] list[k]), pair_of(q)),
    ensures
        tracks(v, point, left, i + 1, list.push(q), src.push(i)),
{
    assert forall|j: int|
        0 <= j < i implies !(edge_hit(v, j, point) && edge_left(v, j, point) == left
            && #[trigger] same_crossing(v, j, i, point)) by {
        if edge_hit(v, j, point) && edge_left(v, j, point) == left && same_crossing(
            v,
            j,
            i,
            point,
        ) {
            assert(listed(v, point, list, j));
            let k = choose|k: int|
                0 <= k < list.len() && same_pair(
                    pair_of(#[trigger] list[k]),
                    edge_crossing(v, j, point),
                );
            lemma_hit_has_positive_denominator(v, j, point);
            lemma_hit_has_positive_denominator(v, i, point);
            lemma_same_pair_transitive(
                pair_of(list[k]),
                edge_crossing(v, j, point),
                edge_crossing(v, i, point),
            );
        }
    }
    assert(first_crossing(v, i, point, left));
    let list2 = list.push(q);
    let src2 = src.push(i);
    assert forall|k: int| 0 <= k < list.len() implies #[trigger] list2[k] == list[k] && src2[k]
        == src[k] by {}
    assert(list2[list.len() as int] == q);
    assert forall|j: int|
        0 <= j < i + 1 && edge_hit(v, j, point) && edge_left(v, j, point)
            == left implies #[trigger] listed(v, point, list2, j) by {
        if j == i {
            reveal(same_pair);
            assert(same_pair(pair_of(list2[list.len() as int]), edge_crossing(v, j, point)));
        } else {
            assert(listed(v, point, list, j));
            let k = choose|k: int|
                0 <= k < list.len() && same_pair(
                    pair_of(#[trigger] list[k]),
                    edge_crossing(v, j, point),
                );
            assert(list2[k] == list[k]);
        }
    }
}

proof fn lemma_scaled_bounds(x: int, den: int)
    requires
        -0x8000_0000 <= x <= 0x8000_0000,
        0 < den <= 0x1_0000_0000,
    ensures
        -0x8000_0000_0000_0000 <= x * den <= 0x8000_0000_0000_0000,
{
    assert(-0x8000_0000_0000_0000 <= x * den <= 0x8000_0000_0000_0000) by (nonlinear_arith)
        requires
            -0x8000_0000 <= x <= 0x8000_0000,
            0 < den <= 0x1_0000_0000,
    ;
}

proof fn lemma_cross_product_bounds(num: int, den: int)
    requires
        -0x2_0000_0000_0000_0000 <= num <= 0x2_0000_0000_0000_0000,
        0 < den <= 0x1_0000_0000,
    ensures
        -0x2_0000_0000_0000_0000_0000_0000 <= num * den <= 0x2_0000_0000_0000_0000_0000_0000,
{
    assert(-0x2_0000_0000_0000_0000_0000_0000 <= num * den <= 0x2_0000_0000_0000_0000_0000_0000)
        by (nonlinear_arith)
        requires
            -0x2_0000_0000_0000_0000 <= num <= 0x2_0000_0000_0000_0000,
            0 < den <= 0x1_0000_0000,
    ;
}

/// The line equations of the polygon's edges, the last edge running from
/// the last vertex back to the first.
fn get_lineequation(points: &[Coordinates], len: usize) -> (r: Vec<(i128, i128, i128)>)
    requires
        len == points@.len(),
    ensures
        r@.len() == len,
        forall|i: int| 0 <= i < len ==> line_of(#[trigger] r@[i]) == edge_line(points@, i),
{
    let mut line_equn: Vec<(i128, i128, i128)> = Vec::new();
    let mut pos: usize = 0;
    while pos < len
        invariant
            len == points@.len(),
            pos <= len,
            line_equn@.len() == pos,
            forall|i: int| 0 <= i < pos ==> line_of(#[trigger] line_equn@[i]) == edge_line(points@, i),
        decreases len - pos,
    {
        let point1 = &points[pos];
        let point2 = &points[(pos + 1) % len];
        if point1.lon == point2.lon {
            line_equn.push((0, 1, point1.lon as i128));
        } else if point1.lat == point2.lat {
            line_equn.push((1, 0, point1.lat as i128));
        } else {
            proof {
                lemma_line_bounds(*point1, *point2);
            }
            let a: i128 = point2.lon as i128 - point1.lon as i128;
            let b: i128 = point1.lat as i128 - point2.lat as i128;
            let c: i128 = a * point1.lat as i128 + b * point1.lon as i128;
            line_equn.push((a, b, c));
        }
        pos = pos + 1;
    }
    line_equn
}

/// Whether `point` lies between `point1` and `point2`, both included.
fn check_if_within(point: i128, point1: i128, point2: i128) -> (r: bool)
    ensures
        r == within(point as int, point1 as int, point2 as int),
{
    point1 >= point2 && point <= point1 && point >= point2 || point <= point2 && point >= point1
}

/// Whether the intersection at latitude `crossing.0 / crossing.1` and
/// longitude `lon` lies within the bounds of the edge from `point1` to
/// `point2`.
fn check_inbounds(crossing: (i128, i128), lon: i32, point1: &Coordinates, point2: &Coordinates) -> (r:
    bool)
    requires
        crossing_bounded(crossing),
    ensures
        r == (within(crossing.0 as int, point1.lat * crossing.1, point2.lat * crossing.1) && within(
            lon as int,
            point1.lon as int,
            point2.lon as int,
        )),
{
    proof {
        lemma_scaled_bounds(point1.lat as int, crossing.1 as int);
        lemma_scaled_bounds(point2.lat as int, crossing.1 as int);
    }
    let within_x = check_if_within(
        crossing.0,
        point1.lat as i128 * crossing.1,
        point2.lat as i128 * crossing.1,
    );
    let within_y = check_if_within(lon as i128, point1.lon as i128, point2.lon as i128);
    within_x && within_y
}

/// Whether `vec_coord` already holds an intersection at the same place as
/// `point`.
fn vec_contains(point: (i128, i128), vec_coord: &Vec<(i128, i128)>) -> (r: bool)
    requires
        crossing_bounded(point),
        forall|k: int| 0 <= k < vec_coord@.len() ==> crossing_bounded(#[trigger] vec_coord@[k]),
    ensures
        r == exists|k: int|
            0 <= k < vec_coord@.len() && same_pair(
                pair_of(#[trigger] vec_coord@[k]),
                pair_of(point),
            ),
{
    let mut i: usize = 0;
    while i < vec_coord.len()
        invariant
            i <= vec_coord@.len(),
            crossing_bounded(point),
            forall|k: int| 0 <= k < vec_coord@.len() ==> crossing_bounded(#[trigger] vec_coord@[k]),
            forall|k: int|
                0 <= k < i ==> !same_pair(pair_of(#[trigger] vec_coord@[k]), pair_of(point)),
        decreases vec_coord@.len() - i,
    {
        let coord = vec_coord[i];
        proof {
            lemma_cross_product_bounds(coord.0 as int, point.1 as int);
            lemma_cross_product_bounds(point.0 as int, coord.1 as int);
            reveal(same_pair);
        }
        if coord.0 * point.1 == point.0 * coord.1 {
            assert(same_pair(pair_of(vec_coord@[i as int]), pair_of(point)));
            return true;
        }
        i = i + 1;
    }
    false
}

/// Whether `point` lies inside the polygon with vertices `points`.
pub fn contains(point: &Coordinates, points: &[Coordinates]) -> (r: bool)
    requires
        points@.len() >= 3,
    ensures
        r == in_polygon(points@, *point),
{
    let points_len = points.len();
    let line_eq = get_lineequation(points, points_len);
    let mut intersection_left: Vec<(i128, i128)> = Vec::new();
    let mut intersection_right: Vec<(i128, i128)> = Vec::new();
    let ghost mut left_src: Seq<int> = Seq::empty();
    let ghost mut right_src: Seq<int> = Seq::empty();
    let ghost v = points@;
    let mut pos: usize = 0;
    while pos < points_len
        invariant
            v == points@,
            points_len == v.len(),
            points_len >= 3,
            pos <= points_len,
            line_eq@.len() == points_len,
            forall|i: int| 0 <= i < points_len ==> line_of(#[trigger] line_eq@[i]) == edge_line(v, i),
            tracks(v, *point, true, pos as int, intersection_left@, left_src),
            tracks(v, *point, false, pos as int, intersection_right@, right_src),
        decreases points_len - pos,
    {
        let ghost i = pos as int;
        let line = line_eq[pos];
        proof {
            lemma_line_bounds(v[i], edge_end(v, i));
            assert(line_of(line_eq@[i]) == edge_line(v, i));
            assert(-0x8000_0000_0000_0000 <= line.1 * point.lon <= 0x8000_0000_0000_0000)
                by (nonlinear_arith)
                requires
                    -0x1_0000_0000 <= line.1 <= 0x1_0000_0000,
                    -0x8000_0000 <= point.lon <= 0x8000_0000,
            ;
        }
        // Cramer's rule against the ray (0, 1, point.lon).
        let det1: i128 = line.0 * 1 - line.1 * 0;
        let detx: i128 = line.2 * 1 - line.1 * point.lon as i128;
        if det1 != 0 {
            let crossing: (i128, i128) = if det1 > 0 {
                (detx, det1)
            } else {
                (-detx, -det1)
            };
            proof {
                reveal(edge_crossing);
                assert(pair_of(crossing) == edge_crossing(v, i, *point));
            }
            let point1 = &points[pos];
            let point2 = &points[(pos + 1) % points_len];
            let check_inbound = check_inbounds(crossing, point.lon, point1, point2);
            proof {
                reveal(edge_hit);
                assert(check_inbound == edge_hit(v, i, *point));
                lemma_scaled_bounds(point.lat as int, crossing.1 as int);
            }
            let is_left = crossing.0 < point.lat as i128 * crossing.1;
            proof {
                reveal(edge_left);
                assert(is_left == edge_left(v, i, *point));
            }
            if is_left {
                let seen = vec_contains(crossing, &intersection_left);
                if !seen && check_inbound {
                    proof {
                        lemma_tracks_new(
                            v,
                            *point,
                            true,
                            i,
                            intersection_left@,
                            left_src,
                            crossing,
                        );
                        left_src = left_src.push(i);
                    }
                    intersection_left.push(crossing);
                } else {
                    proof {
                        if check_inbound {
                            let k0 = choose|k: int|
                                0 <= k < intersection_left@.len() && same_pair(
                                    pair_of(#[trigger] intersection_left@[k]),
                                    pair_of(crossing),
                                );
                            lemma_tracks_found(
                                v,
                                *point,
                                true,
                                i,
                                intersection_left@,
                                left_src,
                                k0,
                            );
                        } else {
                            lemma_tracks_skip(v, *point, true, i, intersection_left@, left_src);
                        }
                    }
                }
                proof {
                    lemma_tracks_skip(v, *point, false, i, intersection_right@, right_src);
                }
            } else {
                let seen = vec_contains(crossing, &intersection_right);
                if !seen && check_inbound {
                    proof {
                        lemma_tracks_new(
                            v,
                            *point,
                            false,
                            i,
                            intersection_right@,
                            right_src,
                            crossing,
                        );
                        right_src = right_src.push(i);
                    }
                    intersection_right.push(crossing);
                } else {
                    proof {
                        if check_inbound {
                            let k0 = choose|k: int|
                                0 <= k < intersection_right@.len() && same_pair(
                                    pair_of(#[trigger] intersection_right@[k]),
                                    pair_of(crossing),
                                );
                            lemma_tracks_found(
                                v,
                                *point,
                                false,
                                i,
                                intersection_right@,
                                right_src,
                                k0,
                            );
                        } else {
                            lemma_tracks_skip(v, *point, false, i, intersection_right@, right_src);
                        }
                    }
                }
                proof {
                    lemma_tracks_skip(v, *point, true, i, intersection_left@, left_src);
                }
            }
        } else {
            proof {
                reveal(edge_hit);
                assert(!edge_hit(v, i, *point));
                lemma_tracks_skip(v, *point, true, i, intersection_left@, left_src);
                lemma_tracks_skip(v, *point, false, i, intersection_right@, right_src);
            }
        }
        pos = pos + 1;
    }
    let left_len = intersection_left.len();
    let right_len = intersection_right.len();
    (left_len > 0 && right_len > 0) && (left_len % 2 == 1 && right_len % 2 == 1)
}

/// Evaluates every position of the tracked vehicle against the polygon
/// fence, in order. A fence of fewer than three vertices is refused before
/// any position is evaluated.
pub fn execute_polygon(tracker: &MovingTracker) -> (r: Result<Vec<bool>, FenceError>)
    ensures
        match r {
            Ok(verdicts) => tracker.shape_coordinate@.len() >= 3 && verdicts@ == polygon_verdicts(
                tracker.shape_coordinate@,
                tracker.moving_coordinate@,
            ),
            Err(e) => tracker.shape_coordinate@.len() < 3 && e == FenceError::TooFewVertices,
        },
{
    let fence = tracker.shape_coordinate.as_slice();
    if fence.len() < 3 {
        return Err(FenceError::TooFewVertices);
    }
    let points = &tracker.moving_coordinate;
    let mut verdicts: Vec<bool> = Vec::new();
    let mut i: usize = 0;
    while i < points.len()
        invariant
            fence@ == tracker.shape_coordinate@,
            fence@.len() >= 3,
            i <= points.len(),
            verdicts@ == polygon_verdicts(fence@, points@.subrange(0, i as int)),
        decreases points.len() - i,
    {
        verdicts.push(contains(&points[i], fence));
        assert(points@.subrange(0, i + 1) == points@.subrange(0, i as int).push(points@[i as int]));
        i = i + 1;
    }
    assert(points@.subrange(0, points.len() as int) == points@);
    Ok(verdicts)
}

/// Whether the point `(lat, lon)` lies inside the record's polygon fence; a
/// fence of fewer than three vertices is refused.
pub fn contains_in_polygon(tracker: &MovingTracker, lat: i32, lon: i32) -> (r: Result<
    bool,
    FenceError,
>)
    ensures
        r == polygon_result(tracker.shape_coordinate@, Coordinates { lat, lon }),
{
    let fence = tracker.shape_coordinate.as_slice();
    if fence.len() < 3 {
        return Err(FenceError::TooFewVertices);
    }
    let point = Coordinates::new(lat, lon);
    Ok(contains(&point, fence))
}

/// A polygon fence of fewer than three vertices is refused, whatever the
/// point, rather than answered with a boolean.
pub proof fn polygon_needs_three_vertices(v: Seq<Coordinates>, point: Coordinates)
    requires
        v.len() < 3,
    ensures
        polygon_result(v, point) == Err::<bool, FenceError>(FenceError::TooFewVertices),
{
}

} // verus!
