//! The scalar spatial functions.

pub mod as_text;
pub mod envelope;
pub mod geometry_type;
pub mod helpers;

pub use as_text::AsText;
pub use envelope::Envelope;
pub use geometry_type::GeometryType;
