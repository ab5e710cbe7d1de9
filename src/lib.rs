//! Geofencing: decides whether a point lies inside a fence shaped as a
//! circle, a polygon or a triangle, one point at a time or for a whole
//! track of moving points.
//!
//! Coordinates are fixed-point integers (for instance millionths of a
//! degree); the unit is the caller's choice. All arithmetic is exact, so
//! every comparison in the predicates (boundary tests, duplicate
//! intersections, area sums) is a comparison of exact values.
pub mod circle;
pub mod coordinates;
pub mod geofencer;
pub mod polygon;
pub mod triangle;
