//! Frame-rate averaging over a fixed refresh interval.
//!
//! The counter is driven by millisecond timestamps its caller reads from
//! a clock; everything it computes from them is plain integer arithmetic.

use vstd::prelude::*;

verus! {

/// Counts frames and refreshes the average render time and FPS once per
/// `refresh_rate` milliseconds.
pub struct FPSCounter {
    pub updated_at: i64,
    pub refresh_rate: i64,
    pub render_time: i64,
    pub frames_rendered: i64,
    pub last_fps: i64,
}

impl FPSCounter {
    /// Starts an interval at `now_ms` with the given refresh interval.
    pub fn new(refresh_rate: i64, now_ms: i64) -> (r: FPSCounter)
        ensures
            r.updated_at == now_ms,
            r.refresh_rate == refresh_rate,
            r.render_time == 0,
            r.frames_rendered == 0,
            r.last_fps == 0,
    {
        FPSCounter { updated_at: now_ms, refresh_rate, render_time: 0, frames_rendered: 0, last_fps: 0 }
    }

    /// Records one finished frame at time `now_ms`.  When the elapsed
    /// interval exceeds the refresh rate, the average render time and the
    /// FPS derived from it are refreshed and the interval restarts.
    pub fn end_frame(&mut self, now_ms: i64)
        requires
            0 <= old(self).frames_rendered < i64::MAX,
            old(self).updated_at <= now_ms,
            now_ms - old(self).updated_at <= i64::MAX,
            now_ms - old(self).updated_at > old(self).refresh_rate ==> (now_ms - old(
                self,
            ).updated_at) / (old(self).frames_rendered + 1) >= 1,
        ensures
            ({
                let elapsed = now_ms - old(self).updated_at;
                let frames = old(self).frames_rendered + 1;
                if elapsed > old(self).refresh_rate {
                    &&& final(self).updated_at == now_ms
                    &&& final(self).render_time == elapsed / frames
                    &&& final(self).last_fps == 1000int / (elapsed / frames)
                    &&& final(self).frames_rendered == 0
                } else {
                    &&& final(self).updated_at == old(self).updated_at
                    &&& final(self).render_time == old(self).render_time
                    &&& final(self).last_fps == old(self).last_fps
                    &&& final(self).frames_rendered == frames
                }
            }),
            final(self).refresh_rate == old(self).refresh_rate,
    {
        self.frames_rendered = self.frames_rendered + 1;
        let elapsed = now_ms - self.updated_at;
        if elapsed > self.refresh_rate {
            self.updated_at = now_ms;
            let frames = self.frames_rendered;
            let rt = (elapsed as u64) / (frames as u64);
            proof {
                assert(rt <= elapsed as u64 && rt as int == (elapsed as int) / (frames as int))
                    by (nonlinear_arith)
                    requires
                        rt as int == (elapsed as u64) as int / (frames as u64) as int,
                        elapsed >= 0,
                        frames >= 1,
                        elapsed as u64 == elapsed as int,
                        frames as u64 == frames as int,
                ;
                assert(rt >= 1);
            }
            self.render_time = rt as i64;
            self.last_fps = (1000u64 / rt) as i64;
            self.frames_rendered = 0;
        }
    }

    /// The FPS of the last completed interval.
    pub fn current_fps(&self) -> (r: i64)
        ensures
            r == self.last_fps,
    {
        self.last_fps
    }

    /// The average render time of the last completed interval.
    pub fn render_time(&self) -> (r: i64)
        ensures
            r == self.render_time,
    {
        self.render_time
    }
}

} // verus!
