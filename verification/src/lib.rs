//! Greedy meshing for dense voxel volumes.
//!
//! The crate turns a flat array of voxels, addressed through a
//! [`shape::Shape3`], into a small set of axis-aligned rectangles: adjacent
//! visible voxel faces with equal merge keys are fused into maximal
//! rectangles by [`greedy::greedy_quads`], one list per face direction,
//! collected in a [`buffer::QuadBuffer`]. Face orientation metadata in
//! [`face`] turns each rectangle into vertex positions, normals, texture
//! coordinates and triangle indices.

pub mod buffer;
pub mod face;
pub mod greedy;
pub mod quad;
pub mod shape;
pub mod voxel;
