//! Running averages of per-frame render statistics.

use vstd::prelude::*;
use crate::cs::GpuStatistics;

verus! {

/// Averages the kernel's counters and the render time over the frames
/// seen so far.
pub struct Statistics {
    pub samples_count: u32,
    pub average_gpu_stats: GpuStatistics,
    pub average_render_time: i64,
    pub triangle_count: usize,
    pub primary_rays: u32,
}

impl Statistics {
    /// Starts with zeroed averages for a scene of `triangle_count`
    /// triangles rendered with `primary_rays` rays.
    pub fn new(triangle_count: usize, primary_rays: u32) -> (r: Statistics)
        ensures
            r.samples_count == 0,
            r.average_gpu_stats.triangle_tests == 0,
            r.average_gpu_stats.triangle_intersections == 0,
            r.average_gpu_stats.cell_intersections == 0,
            r.average_render_time == 0,
            r.triangle_count == triangle_count,
            r.primary_rays == primary_rays,
    {
        let average_gpu_stats = GpuStatistics {
            triangle_tests: 0,
            triangle_intersections: 0,
            cell_intersections: 0,
        };
        Statistics {
            samples_count: 0,
            average_gpu_stats,
            average_render_time: 0,
            triangle_count,
            primary_rays,
        }
    }

    /// Folds one frame's statistics into the running averages:
    /// `avg' = (avg * n + sample) / (n + 1)` for each averaged quantity.
    pub fn add_stats(&mut self, gpu_stats: &GpuStatistics, render_time: i64)
        requires
            old(self).samples_count < u32::MAX,
            old(self).average_gpu_stats.triangle_tests * old(self).samples_count
                + gpu_stats.triangle_tests <= u32::MAX,
            old(self).average_gpu_stats.triangle_intersections * old(self).samples_count
                + gpu_stats.triangle_intersections <= u32::MAX,
            old(self).average_render_time >= 0,
            render_time >= 0,
            old(self).average_render_time * old(self).samples_count + render_time <= i64::MAX,
        ensures
            final(self).samples_count == old(self).samples_count + 1,
            final(self).average_gpu_stats.triangle_tests == (old(
                self,
            ).average_gpu_stats.triangle_tests * old(self).samples_count
                + gpu_stats.triangle_tests) as int / (old(self).samples_count + 1) as int,
            final(self).average_gpu_stats.triangle_intersections == (old(
                self,
            ).average_gpu_stats.triangle_intersections * old(self).samples_count
                + gpu_stats.triangle_intersections) as int / (old(self).samples_count + 1) as int,
            final(self).average_gpu_stats.cell_intersections == old(
                self,
            ).average_gpu_stats.cell_intersections,
            final(self).average_render_time == (old(self).average_render_time * old(
                self,
            ).samples_count + render_time) as int / (old(self).samples_count + 1) as int,
            final(self).average_render_time >= 0,
            final(self).triangle_count == old(self).triangle_count,
            final(self).primary_rays == old(self).primary_rays,
    {
        let n = self.samples_count;
        proof {
            assert((self.average_gpu_stats.triangle_tests as int) * (n as int) >= 0
                && (self.average_gpu_stats.triangle_intersections as int) * (n as int) >= 0
                && (self.average_render_time as int) * (n as int) >= 0) by (nonlinear_arith)
                requires
                    self.average_gpu_stats.triangle_tests >= 0,
                    self.average_gpu_stats.triangle_intersections >= 0,
                    self.average_render_time >= 0,
                    n >= 0,
            ;
        }
        let tests: u64 = self.average_gpu_stats.triangle_tests as u64 * n as u64
            + gpu_stats.triangle_tests as u64;
        let avg_tests = tests / (n as u64 + 1);
        proof {
            assert(avg_tests <= tests) by (nonlinear_arith)
                requires
                    avg_tests as int == tests as int / (n as int + 1),
                    n as u64 + 1 >= 1,
            ;
        }
        self.average_gpu_stats.triangle_tests = avg_tests as u32;
        let hits: u64 = self.average_gpu_stats.triangle_intersections as u64 * n as u64
            + gpu_stats.triangle_intersections as u64;
        let avg_hits = hits / (n as u64 + 1);
        proof {
            assert(avg_hits <= hits) by (nonlinear_arith)
                requires
                    avg_hits as int == hits as int / (n as int + 1),
                    n as u64 + 1 >= 1,
            ;
        }
        self.average_gpu_stats.triangle_intersections = avg_hits as u32;
        let rt: i64 = self.average_render_time * n as i64 + render_time;
        let avg_rt = (rt as u64) / (n as u64 + 1);
        proof {
            assert(avg_rt <= rt as u64) by (nonlinear_arith)
                requires
                    avg_rt as int == (rt as u64) as int / (n as int + 1),
                    n as u64 + 1 >= 1,
            ;
        }
        self.average_render_time = avg_rt as i64;
        self.samples_count = n + 1;
    }
}

} // verus!
