//! The plain raycasting shader variant.

use vstd::prelude::*;

verus! {

/// Selects the raycasting kernel.  Loading the kernel onto a device and
/// building its camera uniform happen outside the verified library; the
/// grid section of the uniform comes from `crate::cs::Grid::new`.
pub struct RaycastingShader {}

impl RaycastingShader {
    /// The grid section of this shader's uniform record.
    pub fn grid_uniform(&self, grid: &crate::grid::Grid) -> (r: crate::cs::Grid)
        ensures
            r.minimum_cell == grid.bbox.min,
            r.maximum_cell == grid.bbox.max,
            r.resolution == grid.resolution,
            r.cell_size == grid.cell_size,
    {
        crate::cs::Grid::new(grid)
    }
}

} // verus!
