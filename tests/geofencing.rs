use geofencing::circle;
use geofencing::coordinates::{
    CircleCoordinates, Coordinates, FenceError, FenceRecord, MovingTracker, MovingTrackerCircle,
    Shape,
};
use geofencing::geofencer;
use geofencing::polygon;
use geofencing::triangle;

fn points(list: &[(i32, i32)]) -> Vec<Coordinates> {
    list.iter().map(|&(lat, lon)| Coordinates::new(lat, lon)).collect()
}

fn vertex_record(shape: &str, fence: &[(i32, i32)], moving: &[(i32, i32)]) -> MovingTracker {
    MovingTracker {
        _comment: String::new(),
        vehicle: "van".to_string(),
        shape: shape.to_string(),
        shape_coordinate: points(fence),
        moving_coordinate: points(moving),
    }
}

fn circle_record(lat: i32, lon: i32, rad: i64, moving: &[(i32, i32)]) -> MovingTrackerCircle {
    MovingTrackerCircle {
        _comment: String::new(),
        vehicle: "van".to_string(),
        shape: "Circle".to_string(),
        shape_coordinate: CircleCoordinates::new(lat, lon, rad),
        moving_coordinate: points(moving),
    }
}

const SQUARE: [(i32, i32); 4] = [(0, 0), (0, 4), (4, 4), (4, 0)];
const TRIANGLE: [(i32, i32); 3] = [(0, 0), (4, 0), (0, 4)];

#[test]
fn test_polygon_contains() {
    let record = FenceRecord::Vertices(vertex_record("Polygon", &SQUARE, &[]));
    assert!(geofencer::contains(Shape::Polygon, &record, 3, 3).unwrap());
    assert_eq!(geofencer::contains(Shape::Polygon, &record, 5, 5).unwrap(), false);
}

#[test]
fn test_polygon_contains_withactual_latandlong() {
    // Millionths of a degree.
    let record = FenceRecord::Vertices(vertex_record(
        "Polygon",
        &[
            (55_740_000, 37_610_000),
            (55_740_000, 37_640_000),
            (55_750_000, 37_640_000),
            (55_750_000, 37_610_000),
        ],
        &[],
    ));
    assert!(geofencer::contains(Shape::Polygon, &record, 55_746_768, 37_625_605).unwrap());
}

#[test]
fn test_triangle_contains() {
    let record = FenceRecord::Vertices(vertex_record("Triangle", &[(0, 0), (8, 0), (0, 8)], &[]));
    assert_eq!(geofencer::contains(Shape::Triangle, &record, 3, 3).unwrap(), true);
    assert_eq!(geofencer::contains(Shape::Triangle, &record, 5, 7).unwrap(), false);
}

#[test]
fn test_polygon_moving_target() {
    let record =
        FenceRecord::Vertices(vertex_record("Polygon", &SQUARE, &[(2, 2), (5, 5), (1, 3)]));
    let report = geofencer::execute(Shape::Polygon, &record).unwrap();
    assert_ne!(report, Vec::<bool>::new());
    assert_eq!(report, vec![true, false, true]);
}

#[test]
fn test_circle_moving_target() {
    let record = FenceRecord::Circle(circle_record(1, 1, 6, &[(1, 1), (7, 1), (8, 8)]));
    let report = geofencer::execute(Shape::Circle, &record).unwrap();
    assert_ne!(report, Vec::<bool>::new());
    assert_eq!(report, vec![true, true, false]);
}

#[test]
fn test_triangle_moving_target() {
    let record =
        FenceRecord::Vertices(vertex_record("Triangle", &TRIANGLE, &[(1, 1), (4, 4), (0, 4)]));
    let report = geofencer::execute(Shape::Triangle, &record).unwrap();
    assert_ne!(report, Vec::<bool>::new());
    assert_eq!(report, vec![true, false, true]);
}

#[test]
fn circle_boundary_is_inside_and_beyond_is_outside() {
    let c = CircleCoordinates::new(0, 0, 5);
    assert!(circle::contains(&c, &Coordinates::new(3, 4)));
    assert!(circle::contains(&c, &Coordinates::new(0, -5)));
    assert!(!circle::contains(&c, &Coordinates::new(3, 5)));
    assert!(!circle::contains(&c, &Coordinates::new(0, 6)));
}

#[test]
fn circle_holds_its_center() {
    for rad in [0i64, 1, 1_000_000] {
        let c = CircleCoordinates::new(-7, 12, rad);
        assert!(circle::contains(&c, &c.center()));
    }
}

#[test]
fn circle_of_radius_zero_holds_only_its_center() {
    let c = CircleCoordinates::new(2, 3, 0);
    assert!(circle::contains(&c, &Coordinates::new(2, 3)));
    assert!(!circle::contains(&c, &Coordinates::new(2, 4)));
}

#[test]
fn circle_with_negative_radius_holds_nothing() {
    let c = CircleCoordinates::new(0, 0, -5);
    assert!(!circle::contains(&c, &Coordinates::new(0, 0)));
    assert!(!circle::contains(&c, &Coordinates::new(3, 4)));
}

#[test]
fn circle_at_the_extremes_of_the_range() {
    let c = CircleCoordinates::new(i32::MIN, i32::MIN, i64::MAX);
    assert!(circle::contains(&c, &Coordinates::new(i32::MAX, i32::MAX)));
    let c = CircleCoordinates::new(i32::MIN, i32::MIN, 1);
    assert!(!circle::contains(&c, &Coordinates::new(i32::MAX, i32::MAX)));
}

#[test]
fn contains_in_circle_reads_the_record_fence() {
    let record = circle_record(10, 10, 2, &[]);
    assert!(circle::contains_in_circle(&record, 11, 11));
    assert!(!circle::contains_in_circle(&record, 13, 10));
    assert_eq!(circle::execute_circle(&circle_record(0, 0, 1, &[])), Vec::<bool>::new());
}

#[test]
fn polygon_square_inside_and_outside() {
    let square = points(&SQUARE);
    assert!(polygon::contains(&Coordinates::new(2, 2), &square));
    assert!(!polygon::contains(&Coordinates::new(5, 5), &square));
}

#[test]
fn polygon_boundary_follows_the_side_rule() {
    let square = points(&SQUARE);
    // On the edge at the largest longitude: one crossing on each side.
    assert!(polygon::contains(&Coordinates::new(2, 4), &square));
    // On the edge at the smallest latitude: both crossings count as right.
    assert!(!polygon::contains(&Coordinates::new(0, 2), &square));
}

#[test]
fn polygon_counts_a_crossing_at_a_vertex_once() {
    let diamond = points(&[(0, 2), (2, 4), (4, 2), (2, 0)]);
    assert!(polygon::contains(&Coordinates::new(2, 2), &diamond));
    assert!(!polygon::contains(&Coordinates::new(5, 2), &diamond));
}

#[test]
fn polygon_with_sloped_edges() {
    let fence = points(&[(0, 0), (10, 2), (4, 9)]);
    assert!(polygon::contains(&Coordinates::new(5, 4), &fence));
    assert!(!polygon::contains(&Coordinates::new(9, 8), &fence));
}

#[test]
fn polygon_with_too_few_vertices_is_refused() {
    let record = vertex_record("Polygon", &[(0, 0), (4, 4)], &[(1, 1)]);
    assert_eq!(polygon::contains_in_polygon(&record, 1, 1), Err(FenceError::TooFewVertices));
    assert_eq!(polygon::execute_polygon(&record), Err(FenceError::TooFewVertices));
    let record = FenceRecord::Vertices(record);
    assert_eq!(
        geofencer::contains(Shape::Polygon, &record, 1, 1),
        Err(FenceError::TooFewVertices)
    );
    assert_eq!(geofencer::execute(Shape::Polygon, &record), Err(FenceError::TooFewVertices));
}

#[test]
fn polygon_record_queries() {
    let record = vertex_record("Polygon", &SQUARE, &[(2, 2), (9, 9)]);
    assert_eq!(polygon::contains_in_polygon(&record, 2, 2), Ok(true));
    assert_eq!(polygon::contains_in_polygon(&record, 9, 9), Ok(false));
    assert_eq!(polygon::execute_polygon(&record), Ok(vec![true, false]));
}

#[test]
fn triangle_inside_outside_and_vertices() {
    let t = points(&TRIANGLE);
    assert!(triangle::contains(&t, &Coordinates::new(1, 1)));
    assert!(!triangle::contains(&t, &Coordinates::new(4, 4)));
    for v in &t {
        assert!(triangle::contains(&t, v));
    }
}

#[test]
fn triangle_with_other_than_three_vertices_holds_nothing() {
    let two = points(&[(0, 0), (4, 0)]);
    assert!(!triangle::contains(&two, &Coordinates::new(0, 0)));
    let four = points(&[(0, 0), (4, 0), (4, 4), (0, 4)]);
    assert!(!triangle::contains(&four, &Coordinates::new(1, 1)));
    let record = vertex_record("Triangle", &[(0, 0), (4, 0), (4, 4), (0, 4)], &[(1, 1)]);
    assert!(!triangle::contains_in_triangle(&record, 1, 1));
    assert_eq!(triangle::execute_triangle(&record), vec![false]);
}

#[test]
fn dispatcher_runs_only_the_predicate_of_the_shape() {
    let vertices = FenceRecord::Vertices(vertex_record("Triangle", &TRIANGLE, &[]));
    // On an edge of the triangle: the triangle holds it, the polygon rule does not.
    assert_eq!(geofencer::contains(Shape::Triangle, &vertices, 0, 2), Ok(true));
    assert_eq!(geofencer::contains(Shape::Polygon, &vertices, 0, 2), Ok(false));
    assert_eq!(
        geofencer::contains(Shape::Circle, &vertices, 0, 2),
        Err(FenceError::ShapeMismatch)
    );
    let circle = FenceRecord::Circle(circle_record(0, 0, 1, &[]));
    assert_eq!(geofencer::contains(Shape::Circle, &circle, 1, 0), Ok(true));
    assert_eq!(geofencer::contains(Shape::Circle, &circle, 1, 1), Ok(false));
    assert_eq!(
        geofencer::contains(Shape::Polygon, &circle, 1, 0),
        Err(FenceError::ShapeMismatch)
    );
    assert_eq!(
        geofencer::contains(Shape::Triangle, &circle, 1, 0),
        Err(FenceError::ShapeMismatch)
    );
    assert_eq!(geofencer::execute(Shape::Triangle, &circle), Err(FenceError::ShapeMismatch));
}

#[test]
fn tracking_reports_one_verdict_per_position_in_order() {
    let moving = [(2, 2), (5, 5), (3, 1), (-1, 2), (4, 4)];
    let record = FenceRecord::Vertices(vertex_record("Polygon", &SQUARE, &moving));
    let report = geofencer::execute(Shape::Polygon, &record).unwrap();
    assert_eq!(report.len(), moving.len());
    for (i, &(lat, lon)) in moving.iter().enumerate() {
        assert_eq!(Ok(report[i]), geofencer::contains(Shape::Polygon, &record, lat, lon));
    }
    assert_eq!(report, vec![true, false, true, false, true]);
}

#[test]
fn repeated_queries_give_the_same_answer() {
    let record = FenceRecord::Vertices(vertex_record("Polygon", &SQUARE, &[]));
    let first = geofencer::contains(Shape::Polygon, &record, 2, 2);
    let second = geofencer::contains(Shape::Polygon, &record, 2, 2);
    assert_eq!(first, second);
    let t = points(&TRIANGLE);
    let p = Coordinates::new(1, 2);
    assert_eq!(triangle::contains(&t, &p), triangle::contains(&t, &p));
}
