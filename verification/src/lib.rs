//! Axis-aligned bounding boxes of polylines on an integer grid.
//!
//! A [`types::LineString`] is an ordered sequence of points with `i64`
//! coordinates. [`algorithm::boundingbox::BoundingBox::bbox`] returns the
//! smallest rectangle with sides parallel to the axes that contains all of
//! them, or `None` when there is no point.
//!
//! Coordinates are exact integers, so every statement made here is about
//! ordinary integer order. Callers whose coordinates are IEEE 754 binary64
//! numbers can pass through [`coordinate`], which maps the bit pattern of such a
//! number to an `i64` that sorts the way the number does, and back.

pub mod algorithm;
pub mod coordinate;
pub mod types;
