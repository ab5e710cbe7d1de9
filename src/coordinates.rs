//! The values shared by every fence: shapes, points, fence records.
use vstd::prelude::*;

verus! {

/// The shapes a fence can have.
#[derive(Debug, Clone, Copy, PartialEq, Eq, Structural)]
pub enum Shape {
    Polygon,
    Circle,
    Triangle,
}

/// Colours used when fences and verdicts are shown on a terminal.
#[derive(Debug, Clone, Copy, PartialEq, Eq, Structural)]
pub enum Colour {
    Red,
    Blue,
    Yellow,
    Purple,
    Black,
}

/// A point given by latitude and longitude, in fixed-point units.
#[derive(Debug, Clone, Copy, PartialEq, Eq, Structural)]
pub struct Coordinates {
    pub lat: i32,
    pub lon: i32,
}

impl Coordinates {
    pub fn new(lat: i32, lon: i32) -> (r: Coordinates)
        ensures
            r.lat == lat,
            r.lon == lon,
    {
        Coordinates { lat, lon }
    }
}

/// A circular fence: its center and its radius, in the units of the
/// coordinates. A negative radius describes a fence that holds no point.
#[derive(Debug, Clone, Copy, PartialEq, Eq, Structural)]
pub struct CircleCoordinates {
    pub lat: i32,
    pub lon: i32,
    pub rad: i64,
}

impl CircleCoordinates {
    pub fn new(lat: i32, lon: i32, rad: i64) -> (r: CircleCoordinates)
        ensures
            r.lat == lat,
            r.lon == lon,
            r.rad == rad,
    {
        CircleCoordinates { lat, lon, rad }
    }

    pub open spec fn center_spec(self) -> Coordinates {
        Coordinates { lat: self.lat, lon: self.lon }
    }

    /// The center of the circle.
    pub fn center(&self) -> (r: Coordinates)
        ensures
            r == self.center_spec(),
    {
        Coordinates { lat: self.lat, lon: self.lon }
    }
}

/// A vehicle tracked against a fence given by its vertices (a polygon or a
/// triangle): the fence and the positions of the vehicle, in order.
#[derive(Debug)]
pub struct MovingTracker {
    pub _comment: String,
    pub vehicle: String,
    pub shape: String,
    pub shape_coordinate: Vec<Coordinates>,
    pub moving_coordinate: Vec<Coordinates>,
}

/// A vehicle tracked against a circular fence.
#[derive(Debug)]
pub struct MovingTrackerCircle {
    pub _comment: String,
    pub vehicle: String,
    pub shape: String,
    pub shape_coordinate: CircleCoordinates,
    pub moving_coordinate: Vec<Coordinates>,
}

/// A fence record as it comes from storage: a circle, or a list of vertices.
#[derive(Debug)]
pub enum FenceRecord {
    Circle(MovingTrackerCircle),
    Vertices(MovingTracker),
}

/// Why a fence cannot be evaluated at all.
#[derive(Debug, Clone, Copy, PartialEq, Eq, Structural)]
pub enum FenceError {
    /// The record does not hold the kind of fence that the shape asks for.
    ShapeMismatch,
    /// A polygon fence with fewer than three vertices.
    TooFewVertices,
}

} // verus!
