//! The router: sends a query or a tracking run to the predicate of the
//! shape that is asked for.
use vstd::prelude::*;

use crate::circle::{circle_verdicts, execute_circle, in_circle, contains_in_circle};
use crate::coordinates::{Coordinates, FenceError, FenceRecord, Shape};
use crate::polygon::{contains_in_polygon, execute_polygon, polygon_result, polygon_verdicts};
use crate::triangle::{contains_in_triangle, execute_triangle, in_triangle, triangle_verdicts};

verus! {

/// What a point query answers: the verdict of the predicate of `shape` on
/// the record's fence, or why the fence cannot be evaluated.
pub open spec fn fence_result(shape: Shape, record: FenceRecord, point: Coordinates) -> Result<
    bool,
    FenceError,
> {
    match (shape, record) {
        (Shape::Circle, FenceRecord::Circle(t)) => Ok(in_circle(t.shape_coordinate, point)),
        (Shape::Polygon, FenceRecord::Vertices(t)) => polygon_result(t.shape_coordinate@, point),
        (Shape::Triangle, FenceRecord::Vertices(t)) => Ok(
            in_triangle(t.shape_coordinate@, point),
        ),
        _ => Err(FenceError::ShapeMismatch),
    }
}

/// The positions tracked in a record.
pub open spec fn moving_points(record: FenceRecord) -> Seq<Coordinates> {
    match record {
        FenceRecord::Circle(t) => t.moving_coordinate@,
        FenceRecord::Vertices(t) => t.moving_coordinate@,
    }
}

/// What a tracking run reports: one verdict per tracked position, in order,
/// or why the fence cannot be evaluated.
pub open spec fn track_result(shape: Shape, record: FenceRecord) -> Result<Seq<bool>, FenceError> {
    match (shape, record) {
        (Shape::Circle, FenceRecord::Circle(t)) => Ok(
            circle_verdicts(t.shape_coordinate, t.moving_coordinate@),
        ),
        (Shape::Polygon, FenceRecord::Vertices(t)) => if t.shape_coordinate@.len() < 3 {
            Err(FenceError::TooFewVertices)
        } else {
            Ok(polygon_verdicts(t.shape_coordinate@, t.moving_coordinate@))
        },
        (Shape::Triangle, FenceRecord::Vertices(t)) => Ok(
            triangle_verdicts(t.shape_coordinate@, t.moving_coordinate@),
        ),
        _ => Err(FenceError::ShapeMismatch),
    }
}

/// Runs the tracked positions of `record` through the predicate of
/// `shape`, in order.
pub fn execute(shape: Shape, record: &FenceRecord) -> (r: Result<Vec<bool>, FenceError>)
    ensures
        match r {
            Ok(verdicts) => track_result(shape, *record) == Ok::<Seq<bool>, FenceError>(
                verdicts@,
            ),
            Err(e) => track_result(shape, *record) == Err::<Seq<bool>, FenceError>(e),
        },
{
    match (shape, record) {
        (Shape::Circle, FenceRecord::Circle(t)) => Ok(execute_circle(t)),
        (Shape::Polygon, FenceRecord::Vertices(t)) => execute_polygon(t),
        (Shape::Triangle, FenceRecord::Vertices(t)) => Ok(execute_triangle(t)),
        _ => Err(FenceError::ShapeMismatch),
    }
}

/// Whether the point `(latitude, longitude)` lies inside the record's
/// fence, by the predicate of `shape`.
pub fn contains(shape: Shape, record: &FenceRecord, latitude: i32, longitude: i32) -> (r: Result<
    bool,
    FenceError,
>)
    ensures
        r == fence_result(shape, *record, Coordinates { lat: latitude, lon: longitude }),
{
    match (shape, record) {
        (Shape::Circle, FenceRecord::Circle(t)) => Ok(contains_in_circle(t, latitude, longitude)),
        (Shape::Polygon, FenceRecord::Vertices(t)) => contains_in_polygon(t, latitude, longitude),
        (Shape::Triangle, FenceRecord::Vertices(t)) => Ok(
            contains_in_triangle(t, latitude, longitude),
        ),
        _ => Err(FenceError::ShapeMismatch),
    }
}

/// A tracking run reports exactly one verdict per tracked position, in the
/// order of the positions, and each verdict is what a point query at that
/// position answers. A run that fails, fails with the error that every
/// point query on the same fence gives.
pub proof fn tracking_matches_point_queries(shape: Shape, record: FenceRecord)
    ensures
        match track_result(shape, record) {
            Ok(report) => {
                &&& report.len() == moving_points(record).len()
                &&& forall|i: int|
                    0 <= i < report.len() ==> fence_result(shape, record, moving_points(record)[i])
                        == Ok::<bool, FenceError>(#[trigger] report[i])
            },
            Err(e) => forall|p: Coordinates| #[trigger]
                fence_result(shape, record, p) == Err::<bool, FenceError>(e),
        },
{
}

/// Asking the same question twice gives the same answer: the answer of a
/// point query depends on the shape, the fence and the point alone.
pub proof fn point_query_is_repeatable(
    shape: Shape,
    record: FenceRecord,
    point: Coordinates,
    first: Result<bool, FenceError>,
    second: Result<bool, FenceError>,
)
    requires
        first == fence_result(shape, record, point),
        second == fence_result(shape, record, point),
    ensures
        first == second,
{
}

/// A polygon record with fewer than three vertices is a fatal configuration
/// error: every point query and every tracking run on it is refused with
/// `TooFewVertices`, and no boolean is ever returned for it.
pub proof fn small_polygon_is_refused(record: FenceRecord)
    requires
        match record {
            FenceRecord::Vertices(t) => t.shape_coordinate@.len() < 3,
            FenceRecord::Circle(_) => false,
        },
    ensures
        track_result(Shape::Polygon, record) == Err::<Seq<bool>, FenceError>(
            FenceError::TooFewVertices,
        ),
        forall|p: Coordinates| #[trigger]
            fence_result(Shape::Polygon, record, p) == Err::<bool, FenceError>(
                FenceError::TooFewVertices,
            ),
{
}

} // verus!
