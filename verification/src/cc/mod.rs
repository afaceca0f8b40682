pub mod twcc_aggregator;
pub mod aimd;
pub mod probe_controller;
pub mod gcc;

use vstd::prelude::*;
pub use self::twcc_aggregator::{TwccAggregator, PacketArrival, TwccFeedback};
pub use self::aimd::{AimdController, AimdConfig};
pub use self::probe_controller::{ProbeController, ProbeConfig, ProbeResult};
pub use self::gcc::{GccController, GccConfig, BandwidthUsage};

verus! {

/// A rate controller driven by sent packets and feedback reports.
pub trait CongestionController {
    fn on_packet_sent(&mut self, size_bytes: usize, send_time_ns: u64);

    fn on_feedback(&mut self, feedback: &TwccFeedback);

    fn target_bitrate_bps(&self) -> u32;

    fn reset(&mut self);
}

/// Rates published by a congestion controller.
pub struct CongestionStats {
    pub target_bps: u32,
    pub probe_bps: u32,
    pub loss_fraction: u32,
}

impl CongestionStats {
    pub fn new() -> (s: Self)
        ensures
            s.target_bps == 0,
            s.probe_bps == 0,
            s.loss_fraction == 0,
    {
        CongestionStats { target_bps: 0, probe_bps: 0, loss_fraction: 0 }
    }
}

} // verus!
