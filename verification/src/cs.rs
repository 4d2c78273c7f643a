//! Records exchanged with the tracing compute kernel.
//!
//! These mirror the kernel's uniform and statistics layouts: plain values
//! the host fills in and the device reads back.

use vstd::prelude::*;
use crate::gl_types::{UVec3, Vec3};
use crate::grid::resolver::CellSize;

verus! {

/// Counters the tracing kernel accumulates while rendering one frame.
#[verifier::ext_equal]
#[derive(Clone, Copy, Debug)]
pub struct GpuStatistics {
    pub triangle_tests: u32,
    pub triangle_intersections: u32,
    pub cell_intersections: u32,
}

/// One model's slice of the merged index buffer, as the kernel sees it:
/// a triangle range and the material it is shaded with (`-1` for none).
#[derive(Clone, Copy, Debug, PartialEq, Eq, Structural)]
pub struct Model {
    pub indices_start: u32,
    pub indices_end: u32,
    pub material_idx: i32,
}

/// The grid section of the tracing kernel's uniform record.
#[derive(Clone, Copy, Debug)]
pub struct Grid {
    pub minimum_cell: Vec3,
    pub maximum_cell: Vec3,
    pub resolution: UVec3,
    pub cell_size: CellSize,
}

impl Grid {
    /// Copies the completed grid's geometry into the uniform record.
    pub fn new(grid: &crate::grid::Grid) -> (r: Grid)
        ensures
            r.minimum_cell == grid.bbox.min,
            r.maximum_cell == grid.bbox.max,
            r.resolution == grid.resolution,
            r.cell_size == grid.cell_size,
    {
        Grid {
            minimum_cell: grid.bbox.min,
            maximum_cell: grid.bbox.max,
            resolution: grid.resolution,
            cell_size: grid.cell_size,
        }
    }
}

} // verus!
