//! Estimate of the offset between a media clock and the local clock.
use vstd::prelude::*;
use crate::cc::gcc::div_trunc;

verus! {

/// The smoothed offset after one sample: fifteen sixteenths of the old
/// offset plus one sixteenth of the new sample (the arrival time minus the
/// media timestamp in nanoseconds), rounded toward zero and kept to 64 bits.
pub open spec fn drift_next(old: i64, rtp_ts: u32, sample_rate: u32, arrival_ns: u64) -> i64 {
    let ts_ns = rtp_ts * 1_000_000_000int / sample_rate as int;
    let sample = arrival_ns - ts_ns;
    div_trunc(old * 15 + sample, 16) as i64
}

pub struct ClockDriftEstimator {
    offset_fp: i64,
}

impl View for ClockDriftEstimator {
    type V = i64;

    closed spec fn view(&self) -> i64 {
        self.offset_fp
    }
}

impl ClockDriftEstimator {
    pub fn new() -> (c: Self)
        ensures
            c@ == 0,
    {
        ClockDriftEstimator { offset_fp: 0 }
    }

    /// Folds in one timestamp sample.
    pub fn update(&mut self, rtp_ts: u32, sample_rate: u32, arrival_ns: u64)
        requires
            sample_rate > 0,
        ensures
            final(self)@ == drift_next(old(self)@, rtp_ts, sample_rate, arrival_ns),
    {
        assert(rtp_ts as i128 * 1_000_000_000 <= u32::MAX as i128 * 1_000_000_000) by (nonlinear_arith)
            requires
                rtp_ts <= u32::MAX,
        ;
        let ts_ns = (rtp_ts as i128) * 1_000_000_000i128 / (sample_rate as i128);
        assert(ts_ns as int <= rtp_ts as int * 1_000_000_000) by (nonlinear_arith)
            requires
                ts_ns as int == (rtp_ts as int * 1_000_000_000) / (sample_rate as int),
                sample_rate >= 1,
                rtp_ts >= 0,
        ;
        let sample_offset = (arrival_ns as i128) - ts_ns;
        let old = self.offset_fp as i128;
        let total = old * 15 + sample_offset;
        let new: i128 = if total >= 0 { total / 16 } else { -((-total) / 16) };
        self.offset_fp = #[verifier::truncate] (new as i64);
    }

    pub fn offset_ns(&self) -> (o: i64)
        ensures
            o == self@,
    {
        self.offset_fp
    }
}

} // verus!
