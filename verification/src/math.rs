//! Geometry.
pub mod mesh;
