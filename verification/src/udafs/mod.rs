//! The aggregate spatial functions.

pub mod extent;

pub use extent::Extent;
