//! Uniform-grid acceleration structure for a triangle-mesh raytracer.
//!
//! The grid builder computes a scene bounding box, derives a grid
//! resolution, counts triangle/cell overlap pairs per cell, turns the
//! counts into exclusive prefix-sum offsets, and scatters triangle
//! references into a compact per-cell bucket array.  All coordinates are
//! fixed-point world units held in `i64`, so every stage is exact integer
//! arithmetic.

pub mod args;
pub mod control;
pub mod cs;
pub mod fps_counter;
pub mod gl_types;
pub mod grid;
pub mod input;
pub mod offline;
pub mod scene;
pub mod statistics;
pub mod tracers;
