//! Bandwidth probing: a short burst at a raised rate whose delivery decides
//! whether the raised rate can be sustained.
use vstd::prelude::*;

verus! {

#[derive(Clone, Copy, Debug, PartialEq, Eq)]
pub enum ProbeState {
    Inactive,
    Probing,
    Done,
}

/// The outcome of a finished probe.
#[derive(Clone, Copy, Debug)]
pub struct ProbeResult {
    pub estimated_bps: u32,
    pub success: bool,
}

#[derive(Clone, Debug)]
pub struct ProbeConfig {
    pub start_bitrate_bps: u32,
    pub max_probe_bitrate_bps: u32,
    pub probe_window_ms: u64,
    pub min_probe_packets: u32,
    pub probe_step_multiplier_num: u32,
    pub probe_step_multiplier_den: u32,
}

impl Default for ProbeConfig {
    fn default() -> (c: Self)
        ensures
            c.start_bitrate_bps == 900_000,
            c.max_probe_bitrate_bps == 6_000_000,
            c.probe_window_ms == 500,
            c.min_probe_packets == 5,
            c.probe_step_multiplier_num == 2,
            c.probe_step_multiplier_den == 1,
    {
        ProbeConfig {
            start_bitrate_bps: 900_000,
            max_probe_bitrate_bps: 6_000_000,
            probe_window_ms: 500,
            min_probe_packets: 5,
            probe_step_multiplier_num: 2,
            probe_step_multiplier_den: 1,
        }
    }
}

/// The rate a probe from `current_bps` aims for: the current rate scaled by
/// the step multiplier, capped at the maximum probe rate.
pub open spec fn probe_rate(cfg: ProbeConfig, current_bps: u32) -> u32 {
    let scaled = current_bps * cfg.probe_step_multiplier_num / cfg.probe_step_multiplier_den as int;
    if scaled < cfg.max_probe_bitrate_bps { scaled as u32 } else { cfg.max_probe_bitrate_bps }
}

/// The rate measured from `bytes` delivered over `elapsed_ms` milliseconds
/// (at least one), saturated at the largest 32-bit value.
pub open spec fn measured_rate(bytes: u64, elapsed_ms: u64) -> u32 {
    let ms = if elapsed_ms > 0 { elapsed_ms as int } else { 1 };
    let r = bytes * 8000 / ms;
    if r < u32::MAX { r as u32 } else { u32::MAX }
}

/// A probe succeeds when something was sent and at least eight tenths of
/// it was reported received.
pub open spec fn probe_success(sent: u32, received: u32) -> bool {
    sent > 0 && received * 10 >= sent * 8
}

pub struct ProbeController {
    cfg: ProbeConfig,
    probing: bool,
    probe_start_ns: u64,
    probe_bitrate_bps: u32,
    probe_bytes_sent: u64,
    probe_packets_sent: u32,
    probe_packets_received: u32,
    probe_count: u32,
}

/// The observable state of a probe controller.
pub struct ProbeView {
    pub cfg: ProbeConfig,
    pub probing: bool,
    pub start_ns: u64,
    pub target_bps: u32,
    pub bytes_sent: u64,
    pub packets_sent: u32,
    pub packets_received: u32,
    pub count: u32,
}

impl View for ProbeController {
    type V = ProbeView;

    closed spec fn view(&self) -> ProbeView {
        ProbeView {
            cfg: self.cfg,
            probing: self.probing,
            start_ns: self.probe_start_ns,
            target_bps: self.probe_bitrate_bps,
            bytes_sent: self.probe_bytes_sent,
            packets_sent: self.probe_packets_sent,
            packets_received: self.probe_packets_received,
            count: self.probe_count,
        }
    }
}

impl ProbeController {
    pub fn new(cfg: ProbeConfig) -> (c: Self)
        ensures
            c@ == (ProbeView {
                cfg,
                probing: false,
                start_ns: 0,
                target_bps: 0,
                bytes_sent: 0,
                packets_sent: 0,
                packets_received: 0,
                count: 0,
            }),
    {
        ProbeController {
            cfg,
            probing: false,
            probe_start_ns: 0,
            probe_bitrate_bps: 0,
            probe_bytes_sent: 0,
            probe_packets_sent: 0,
            probe_packets_received: 0,
            probe_count: 0,
        }
    }

    /// Starts a probe unless one is running or the probe rate would not
    /// exceed the current rate; true when a probe was started.
    pub fn start_probe(&mut self, current_bps: u32, now_ns: u64) -> (started: bool)
        requires
            old(self)@.cfg.probe_step_multiplier_den > 0,
        ensures
            started == (!old(self)@.probing && probe_rate(old(self)@.cfg, current_bps) > current_bps),
            started ==> final(self)@ == (ProbeView {
                probing: true,
                start_ns: now_ns,
                target_bps: probe_rate(old(self)@.cfg, current_bps),
                bytes_sent: 0,
                packets_sent: 0,
                packets_received: 0,
                ..old(self)@
            }),
            !started ==> final(self)@ == old(self)@,
    {
        if self.probing {
            return false;
        }
        let num = self.cfg.probe_step_multiplier_num;
        assert(current_bps as u64 * num as u64 <= u64::MAX) by (nonlinear_arith)
            requires
                current_bps <= u32::MAX,
                num <= u32::MAX,
        ;
        let scaled = current_bps as u64 * num as u64 / self.cfg.probe_step_multiplier_den as u64;
        let probe_bps: u32 = if scaled < self.cfg.max_probe_bitrate_bps as u64 {
            scaled as u32
        } else {
            self.cfg.max_probe_bitrate_bps
        };
        if probe_bps <= current_bps {
            return false;
        }
        self.probe_bitrate_bps = probe_bps;
        self.probe_start_ns = now_ns;
        self.probe_bytes_sent = 0;
        self.probe_packets_sent = 0;
        self.probe_packets_received = 0;
        self.probing = true;
        true
    }

    /// Counts a probe packet while a probe runs.
    pub fn on_probe_packet_sent(&mut self, size_bytes: usize)
        ensures
            old(self)@.probing ==> final(self)@ == (ProbeView {
                bytes_sent: old(self)@.bytes_sent.wrapping_add(size_bytes as u64),
                packets_sent: old(self)@.packets_sent.wrapping_add(1),
                ..old(self)@
            }),
            !old(self)@.probing ==> final(self)@ == old(self)@,
    {
        if !self.probing {
            return;
        }
        self.probe_bytes_sent = self.probe_bytes_sent.wrapping_add(size_bytes as u64);
        self.probe_packets_sent = self.probe_packets_sent.wrapping_add(1);
    }

    /// Counts reported probe arrivals while a probe runs.
    pub fn on_probe_feedback(&mut self, received: u32)
        ensures
            old(self)@.probing ==> final(self)@ == (ProbeView {
                packets_received: old(self)@.packets_received.wrapping_add(received),
                ..old(self)@
            }),
            !old(self)@.probing ==> final(self)@ == old(self)@,
    {
        if !self.probing {
            return;
        }
        self.probe_packets_received = self.probe_packets_received.wrapping_add(received);
    }

    /// Ends the running probe once its window has elapsed or enough probe
    /// packets went out, and reports the outcome: the probe rate when it
    /// succeeded, the measured rate otherwise.
    pub fn check_probe_complete(&mut self, now_ns: u64) -> (r: Option<ProbeResult>)
        ensures
            ({
                let s = old(self)@;
                let elapsed_ms = (if now_ns > s.start_ns { now_ns - s.start_ns } else { 0 }) / 1_000_000;
                let done = elapsed_ms >= s.cfg.probe_window_ms || s.packets_sent >= s.cfg.min_probe_packets;
                if s.probing && done {
                    let success = probe_success(s.packets_sent, s.packets_received);
                    &&& final(self)@ == (ProbeView { probing: false, count: s.count.wrapping_add(1), ..s })
                    &&& r == Some(
                        ProbeResult {
                            estimated_bps: if success {
                                s.target_bps
                            } else {
                                measured_rate(s.bytes_sent, elapsed_ms as u64)
                            },
                            success,
                        },
                    )
                } else {
                    &&& final(self)@ == s
                    &&& r.is_none()
                }
            }),
    {
        if !self.probing {
            return None;
        }
        let start = self.probe_start_ns;
        let elapsed_ms = now_ns.saturating_sub(start) / 1_000_000;
        let sent = self.probe_packets_sent;
        let received = self.probe_packets_received;
        let window_done = elapsed_ms >= self.cfg.probe_window_ms;
        let packets_done = sent >= self.cfg.min_probe_packets;
        if !window_done && !packets_done {
            return None;
        }
        self.probing = false;
        self.probe_count = self.probe_count.wrapping_add(1);
        let success = sent > 0 && (received as u64) * 10 >= (sent as u64) * 8;
        let estimated_bps = if success {
            self.probe_bitrate_bps
        } else {
            let bytes = self.probe_bytes_sent;
            let ms: u64 = if elapsed_ms > 0 { elapsed_ms } else { 1 };
            assert(bytes as u128 * 8000 <= u128::MAX) by (nonlinear_arith)
                requires
                    bytes <= u64::MAX,
            ;
            let rate = bytes as u128 * 8000 / ms as u128;
            if rate < u32::MAX as u128 { rate as u32 } else { u32::MAX }
        };
        Some(ProbeResult { estimated_bps, success })
    }

    pub fn is_probing(&self) -> (b: bool)
        ensures
            b == self@.probing,
    {
        self.probing
    }

    pub fn probe_target_bps(&self) -> (b: u32)
        ensures
            b == self@.target_bps,
    {
        self.probe_bitrate_bps
    }

    pub fn probe_count(&self) -> (n: u32)
        ensures
            n == self@.count,
    {
        self.probe_count
    }
}

/// A probe never aims above the configured maximum probe rate, whatever
/// rate it starts from.
pub proof fn probe_rate_bounded_law(cfg: ProbeConfig, current_bps: u32)
    requires
        cfg.probe_step_multiplier_den > 0,
    ensures
        probe_rate(cfg, current_bps) <= cfg.max_probe_bitrate_bps,
{
}

} // verus!
