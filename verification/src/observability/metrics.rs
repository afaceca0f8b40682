//! Per-stream counters and their snapshots.
use vstd::prelude::*;
use crate::cc::gcc::div_trunc;

verus! {

/// A point-in-time reading of a stream's counters. Durations are converted
/// to the units in the field names, rounding toward zero.
#[derive(Debug, Clone)]
pub struct MetricsSnapshot {
    pub packets_received: u64,
    pub packets_sent: u64,
    pub packets_dropped: u64,
    pub bytes_received: u64,
    pub bytes_sent: u64,
    pub jitter_buffer_ms: u64,
    pub rtt_ms: i64,
    pub target_bitrate_bps: u32,
    pub latency_p99_us: u64,
    pub nack_count: u64,
    pub pli_count: u64,
    pub fir_count: u64,
    pub keyframe_count: u64,
    pub freeze_count: u32,
    pub qp_avg: u32,
}

/// Counters of one media stream. Every counter wraps around on overflow.
pub struct StreamMetrics {
    pub packets_received: u64,
    pub packets_sent: u64,
    pub packets_dropped: u64,
    pub bytes_received: u64,
    pub bytes_sent: u64,
    pub jitter_buffer_ns: u64,
    pub rtt_ns: i64,
    pub nack_count: u64,
    pub pli_count: u64,
    pub fir_count: u64,
    pub keyframe_count: u64,
    pub freeze_count: u32,
    pub qp_sum: u64,
    pub qp_count: u64,
}

/// The snapshot of `m` for the given target rate and latency percentile.
pub open spec fn snapshot_of(m: StreamMetrics, target_bitrate_bps: u32, latency_p99_ns: u64) -> MetricsSnapshot {
    MetricsSnapshot {
        packets_received: m.packets_received,
        packets_sent: m.packets_sent,
        packets_dropped: m.packets_dropped,
        bytes_received: m.bytes_received,
        bytes_sent: m.bytes_sent,
        jitter_buffer_ms: m.jitter_buffer_ns / 1_000_000,
        rtt_ms: div_trunc(m.rtt_ns as int, 1_000_000) as i64,
        target_bitrate_bps,
        latency_p99_us: latency_p99_ns / 1000,
        nack_count: m.nack_count,
        pli_count: m.pli_count,
        fir_count: m.fir_count,
        keyframe_count: m.keyframe_count,
        freeze_count: m.freeze_count,
        qp_avg: if m.qp_count > 0 { (m.qp_sum / m.qp_count) as u32 } else { 0 },
    }
}

impl StreamMetrics {
    pub fn new() -> (m: Self)
        ensures
            m.packets_received == 0 && m.packets_sent == 0 && m.packets_dropped == 0,
            m.bytes_received == 0 && m.bytes_sent == 0 && m.jitter_buffer_ns == 0 && m.rtt_ns == 0,
            m.nack_count == 0 && m.pli_count == 0 && m.fir_count == 0 && m.keyframe_count == 0,
            m.freeze_count == 0 && m.qp_sum == 0 && m.qp_count == 0,
    {
        StreamMetrics {
            packets_received: 0,
            packets_sent: 0,
            packets_dropped: 0,
            bytes_received: 0,
            bytes_sent: 0,
            jitter_buffer_ns: 0,
            rtt_ns: 0,
            nack_count: 0,
            pli_count: 0,
            fir_count: 0,
            keyframe_count: 0,
            freeze_count: 0,
            qp_sum: 0,
            qp_count: 0,
        }
    }

    pub fn record_received(&mut self, bytes: usize)
        ensures
            *final(self) == (StreamMetrics {
                packets_received: old(self).packets_received.wrapping_add(1),
                bytes_received: old(self).bytes_received.wrapping_add(bytes as u64),
                ..*old(self)
            }),
    {
        self.packets_received = self.packets_received.wrapping_add(1);
        self.bytes_received = self.bytes_received.wrapping_add(bytes as u64);
    }

    pub fn record_sent(&mut self, bytes: usize)
        ensures
            *final(self) == (StreamMetrics {
                packets_sent: old(self).packets_sent.wrapping_add(1),
                bytes_sent: old(self).bytes_sent.wrapping_add(bytes as u64),
                ..*old(self)
            }),
    {
        self.packets_sent = self.packets_sent.wrapping_add(1);
        self.bytes_sent = self.bytes_sent.wrapping_add(bytes as u64);
    }

    pub fn record_dropped(&mut self)
        ensures
            *final(self) == (StreamMetrics {
                packets_dropped: old(self).packets_dropped.wrapping_add(1),
                ..*old(self)
            }),
    {
        self.packets_dropped = self.packets_dropped.wrapping_add(1);
    }

    pub fn record_nack(&mut self)
        ensures
            *final(self) == (StreamMetrics { nack_count: old(self).nack_count.wrapping_add(1), ..*old(self) }),
    {
        self.nack_count = self.nack_count.wrapping_add(1);
    }

    pub fn record_pli(&mut self)
        ensures
            *final(self) == (StreamMetrics { pli_count: old(self).pli_count.wrapping_add(1), ..*old(self) }),
    {
        self.pli_count = self.pli_count.wrapping_add(1);
    }

    pub fn record_fir(&mut self)
        ensures
            *final(self) == (StreamMetrics { fir_count: old(self).fir_count.wrapping_add(1), ..*old(self) }),
    {
        self.fir_count = self.fir_count.wrapping_add(1);
    }

    pub fn record_keyframe(&mut self)
        ensures
            *final(self) == (StreamMetrics {
                keyframe_count: old(self).keyframe_count.wrapping_add(1),
                ..*old(self)
            }),
    {
        self.keyframe_count = self.keyframe_count.wrapping_add(1);
    }

    pub fn record_qp(&mut self, qp: u32)
        ensures
            *final(self) == (StreamMetrics {
                qp_sum: old(self).qp_sum.wrapping_add(qp as u64),
                qp_count: old(self).qp_count.wrapping_add(1),
                ..*old(self)
            }),
    {
        self.qp_sum = self.qp_sum.wrapping_add(qp as u64);
        self.qp_count = self.qp_count.wrapping_add(1);
    }

    pub fn update_rtt_ns(&mut self, rtt: i64)
        ensures
            *final(self) == (StreamMetrics { rtt_ns: rtt, ..*old(self) }),
    {
        self.rtt_ns = rtt;
    }

    pub fn update_jitter_ns(&mut self, jitter: u64)
        ensures
            *final(self) == (StreamMetrics { jitter_buffer_ns: jitter, ..*old(self) }),
    {
        self.jitter_buffer_ns = jitter;
    }

    /// Reads all counters at once. The lost share of packets, a ratio, is
    /// left to the caller.
    pub fn snapshot(&self, target_bitrate_bps: u32, latency_p99_ns: u64) -> (s: MetricsSnapshot)
        ensures
            s == snapshot_of(*self, target_bitrate_bps, latency_p99_ns),
    {
        let qp_count = self.qp_count;
        let qp_avg: u32 = if qp_count > 0 {
            #[verifier::truncate] ((self.qp_sum / qp_count) as u32)
        } else {
            0
        };
        let rtt = self.rtt_ns;
        let rtt_ms: i64 = if rtt >= 0 { rtt / 1_000_000 } else { -((-(rtt as i128)) / 1_000_000) as i64 };
        MetricsSnapshot {
            packets_received: self.packets_received,
            packets_sent: self.packets_sent,
            packets_dropped: self.packets_dropped,
            bytes_received: self.bytes_received,
            bytes_sent: self.bytes_sent,
            jitter_buffer_ms: self.jitter_buffer_ns / 1_000_000,
            rtt_ms,
            target_bitrate_bps,
            latency_p99_us: latency_p99_ns / 1000,
            nack_count: self.nack_count,
            pli_count: self.pli_count,
            fir_count: self.fir_count,
            keyframe_count: self.keyframe_count,
            freeze_count: self.freeze_count,
            qp_avg,
        }
    }
}

/// Counters of the audio, video and data streams of an engine.
pub struct EngineMetrics {
    pub audio: StreamMetrics,
    pub video: StreamMetrics,
    pub data: StreamMetrics,
}

impl EngineMetrics {
    pub fn new() -> (m: Self)
        ensures
            m.audio.packets_received == 0 && m.video.packets_received == 0 && m.data.packets_received == 0,
            m.audio.bytes_received == 0 && m.video.bytes_received == 0 && m.data.bytes_received == 0,
    {
        EngineMetrics { audio: StreamMetrics::new(), video: StreamMetrics::new(), data: StreamMetrics::new() }
    }

    /// Packets received over all three streams.
    pub fn total_pps(&self) -> (n: u64)
        requires
            self.audio.packets_received + self.video.packets_received + self.data.packets_received <= u64::MAX,
        ensures
            n == self.audio.packets_received + self.video.packets_received + self.data.packets_received,
    {
        self.audio.packets_received + self.video.packets_received + self.data.packets_received
    }

    /// Bytes received over all three streams.
    pub fn total_bps_rx(&self) -> (n: u64)
        requires
            self.audio.bytes_received + self.video.bytes_received + self.data.bytes_received <= u64::MAX,
        ensures
            n == self.audio.bytes_received + self.video.bytes_received + self.data.bytes_received,
    {
        self.audio.bytes_received + self.video.bytes_received + self.data.bytes_received
    }
}

} // verus!
