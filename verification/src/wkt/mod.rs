//! Well-known text for geometries.

pub mod array;
pub mod distinct;
pub mod geometry;
pub mod scalar;
