//! Statistics of one offline (benchmark) render.

use vstd::prelude::*;
use crate::cs::GpuStatistics;
use crate::grid::Grid;

verus! {

/// Everything one benchmark run reports: timings, the kernel's counters,
/// and the grid the frame was traced against.
pub struct Statistics {
    pub grid_build_time: i64,
    pub render_time: i64,
    pub triangle_count: usize,
    pub primary_rays: u32,
    pub render_statistics: GpuStatistics,
    pub grid: Grid,
}

} // verus!
