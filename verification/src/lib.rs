//! Spatial functions and plan analysis for a columnar SQL engine.
//!
//! The library holds what the spatial functions compute and what the
//! analyzer decides, on values of its own that say what an engine's columns
//! and plans hold:
//!
//! - [`rules`] rewrites a logical plan ([`plan`]) so that every spatial call
//!   carries the geometry type and the encoding of the column it reads, which
//!   it takes from the geospatial metadata of the scanned tables
//!   ([`metadata`]);
//! - [`udfs`] holds the scalar functions `ST_AsText`, `ST_GeometryType` and
//!   `ST_Envelope`, and [`udafs`] the aggregate `ST_Extent`;
//! - [`wkt`] writes geometries as well-known text;
//! - [`compute`] finds the extent of a buffer of coordinates, [`array`]
//!   describes geometry columns in their native layout, and [`ordinate`]
//!   compares doubles by their bit patterns;
//! - [`datatypes`] and [`error`] describe the arguments, the results and the
//!   failures of the functions.

pub mod array;
pub mod compute;
pub mod datatypes;
pub mod error;
pub mod metadata;
pub mod ordinate;
pub mod plan;
pub mod rules;
pub mod udafs;
pub mod udfs;
pub mod wkt;
