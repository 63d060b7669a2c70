//! Frame-time statistics: per-frame times are accumulated and summarised
//! every `REPORT_EVERY` frames. Times come in hundredths of a millisecond for
//! the sums and as `f32` bit patterns for the maxima (for non-negative
//! floats the bit patterns order like the values).

use vstd::prelude::*;

verus! {

/// Frames between two reports.
pub const REPORT_EVERY: u32 = 300;

/// Accumulated frame and render times since the last report.
#[derive(Clone, Copy, Debug, PartialEq, Eq, Structural)]
pub struct FrameStats {
    /// Frames recorded so far (wrapping), reports included.
    pub count: u32,
    pub sum_frame: u64,
    pub max_frame: u32,
    pub sum_render: u64,
    pub max_render: u32,
}

/// Totals handed out once every `REPORT_EVERY` frames.
#[derive(Clone, Copy, Debug, PartialEq, Eq, Structural)]
pub struct PerfReport {
    pub sum_frame: u64,
    pub max_frame: u32,
    pub sum_render: u64,
    pub max_render: u32,
}

pub open spec fn max_u32(a: u32, b: u32) -> u32 {
    if a < b { b } else { a }
}

impl FrameStats {
    pub fn new() -> (s: Self)
        ensures
            s == (FrameStats { count: 0, sum_frame: 0, max_frame: 0, sum_render: 0, max_render: 0 }),
    {
        FrameStats { count: 0, sum_frame: 0, max_frame: 0, sum_render: 0, max_render: 0 }
    }

    /// Records one frame. Every `REPORT_EVERY`-th frame (the one recorded
    /// when the count so far leaves 299 modulo 300) returns the totals,
    /// this frame included, and restarts the sums and maxima from zero.
    pub fn record(&mut self, frame_centis: u64, frame_bits: u32, render_centis: u64, render_bits: u32) -> (r: Option<PerfReport>)
        ensures
            final(self).count == old(self).count.wrapping_add(1),
            ({
                let sf = old(self).sum_frame.wrapping_add(frame_centis);
                let mf = max_u32(old(self).max_frame, frame_bits);
                let sr = old(self).sum_render.wrapping_add(render_centis);
                let mr = max_u32(old(self).max_render, render_bits);
                if old(self).count % REPORT_EVERY == REPORT_EVERY - 1 {
                    &&& r == Some(PerfReport { sum_frame: sf, max_frame: mf, sum_render: sr, max_render: mr })
                    &&& final(self).sum_frame == 0 && final(self).max_frame == 0
                    &&& final(self).sum_render == 0 && final(self).max_render == 0
                } else {
                    &&& r is None
                    &&& final(self).sum_frame == sf && final(self).max_frame == mf
                    &&& final(self).sum_render == sr && final(self).max_render == mr
                }
            }),
    {
        let count = self.count;
        self.count = self.count.wrapping_add(1);
        self.sum_frame = self.sum_frame.wrapping_add(frame_centis);
        if self.max_frame < frame_bits {
            self.max_frame = frame_bits;
        }
        self.sum_render = self.sum_render.wrapping_add(render_centis);
        if self.max_render < render_bits {
            self.max_render = render_bits;
        }
        if count % REPORT_EVERY == REPORT_EVERY - 1 {
            let report = PerfReport {
                sum_frame: self.sum_frame,
                max_frame: self.max_frame,
                sum_render: self.sum_render,
                max_render: self.max_render,
            };
            self.sum_frame = 0;
            self.max_frame = 0;
            self.sum_render = 0;
            self.max_render = 0;
            Some(report)
        } else {
            None
        }
    }
}

/// `max_u32` is the larger of its arguments.
pub proof fn lemma_max_u32(a: u32, b: u32)
    ensures
        max_u32(a, b) >= a,
        max_u32(a, b) >= b,
        max_u32(a, b) == a || max_u32(a, b) == b,
{
}

/// Starting from a fresh accumulator, the `n`-th recorded frame (counting
/// from 1, before the frame counter wraps) reports exactly when `n` is a
/// multiple of `REPORT_EVERY`.
pub proof fn lemma_report_period(n: nat)
    requires
        1 <= n <= u32::MAX,
    ensures
        (((n - 1) as u32) % REPORT_EVERY == REPORT_EVERY - 1) <==> n % (REPORT_EVERY as nat) == 0,
{
}

} // verus!
