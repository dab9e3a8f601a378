//! Algorithms on the geometry types.

pub mod boundingbox;
