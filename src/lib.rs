//! Normalises the winding order of polygon rings inside a nested
//! geographic-feature document.
//!
//! Coordinates are fixed-point integers, so that the orientation of a ring is
//! an exact sign computation.

pub mod geometry;
pub mod laws;
pub mod walker;
pub mod winding;
