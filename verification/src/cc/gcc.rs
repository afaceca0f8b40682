//! Delay- and loss-based congestion control.
use vstd::prelude::*;
use super::twcc_aggregator::TwccFeedback;
use super::aimd::{min_int, max_int};

verus! {

#[derive(Clone, Copy, Debug, PartialEq, Eq)]
pub enum BandwidthUsage {
    Underuse,
    Normal,
    Overuse,
}

impl Default for BandwidthUsage {
    fn default() -> (u: Self)
        ensures
            u == BandwidthUsage::Normal,
    {
        BandwidthUsage::Normal
    }
}

#[derive(Clone, Debug)]
pub struct GccConfig {
    pub initial_bitrate_bps: u32,
    pub min_bitrate_bps: u32,
    pub max_bitrate_bps: u32,
    pub overuse_time_threshold_ms: u64,
    pub aimd_decrease_factor: u32,
    pub aimd_increase_rate_bps_per_s: u32,
}

impl Default for GccConfig {
    fn default() -> (c: Self)
        ensures
            c.initial_bitrate_bps == 1_000_000,
            c.min_bitrate_bps == 50_000,
            c.max_bitrate_bps == 50_000_000,
            c.overuse_time_threshold_ms == 100,
            c.aimd_decrease_factor == 85,
            c.aimd_increase_rate_bps_per_s == 8_000,
    {
        GccConfig {
            initial_bitrate_bps: 1_000_000,
            min_bitrate_bps: 50_000,
            max_bitrate_bps: 50_000_000,
            overuse_time_threshold_ms: 100,
            aimd_decrease_factor: 85,
            aimd_increase_rate_bps_per_s: 8_000,
        }
    }
}

/// Integer division rounding toward zero, as machine division does.
pub open spec fn div_trunc(a: int, b: int) -> int {
    if a >= 0 {
        a / b
    } else {
        -((-a) / b)
    }
}

/// The observable state of the delay-based estimator.
pub struct BweView {
    pub delay_gradient: i64,
    pub overuse_start_ns: u64,
    pub threshold: i64,
    pub state: BandwidthUsage,
}

/// The smoothed delay gradient after a sample: an eighth of the way from
/// the old gradient towards the new delay difference.
pub open spec fn next_gradient(old: i64, arrival: i64, departure: i64) -> int {
    let d = arrival - departure;
    old + div_trunc(d - old, 8)
}

/// The usage that a gradient signals against a threshold.
pub open spec fn classify(grad: int, thresh: int) -> BandwidthUsage {
    if grad > thresh {
        BandwidthUsage::Overuse
    } else if grad < -thresh {
        BandwidthUsage::Underuse
    } else {
        BandwidthUsage::Normal
    }
}

/// Whether a delay sample can be folded in without leaving 64 bits.
pub open spec fn sample_fits(old: i64, arrival: i64, departure: i64) -> bool {
    &&& i64::MIN <= arrival - departure <= i64::MAX
    &&& i64::MIN <= (arrival - departure) - old <= i64::MAX
}

/// The estimator state after one delay sample.
pub open spec fn bwe_update(s: BweView, arrival: i64, departure: i64, now_ns: u64) -> BweView {
    let g = next_gradient(s.delay_gradient, arrival, departure);
    let usage = classify(g, s.threshold as int);
    BweView {
        delay_gradient: g as i64,
        overuse_start_ns: if usage == BandwidthUsage::Overuse {
            if s.overuse_start_ns == 0 { now_ns } else { s.overuse_start_ns }
        } else {
            0
        },
        threshold: s.threshold,
        state: usage,
    }
}

/// The threshold after adapting to a usage: five percent up (at most
/// 600 ms) on overuse, five percent down (at least 6 ms) on underuse.
pub open spec fn adapted_threshold(thresh: i64, usage: BandwidthUsage) -> i64 {
    match usage {
        BandwidthUsage::Overuse => min_int(thresh * 105 / 100, 600_000_000) as i64,
        BandwidthUsage::Underuse => max_int(thresh * 95 / 100, 6_000_000) as i64,
        BandwidthUsage::Normal => thresh,
    }
}

pub struct DelayBasedBwe {
    prev_group_delay_sum_ns: i64,
    prev_group_count: u32,
    delay_gradient: i64,
    overuse_start_ns: u64,
    threshold: i64,
    state: BandwidthUsage,
}

impl View for DelayBasedBwe {
    type V = BweView;

    closed spec fn view(&self) -> BweView {
        BweView {
            delay_gradient: self.delay_gradient,
            overuse_start_ns: self.overuse_start_ns,
            threshold: self.threshold,
            state: self.state,
        }
    }
}

/// The threshold always stays between 6 ms and 600 ms.
pub open spec fn threshold_ok(t: i64) -> bool {
    6_000_000 <= t <= 600_000_000
}

impl DelayBasedBwe {
    pub fn new() -> (b: Self)
        ensures
            b@ == (BweView {
                delay_gradient: 0,
                overuse_start_ns: 0,
                threshold: 12_500_000,
                state: BandwidthUsage::Normal,
            }),
    {
        DelayBasedBwe {
            prev_group_delay_sum_ns: 0,
            prev_group_count: 0,
            delay_gradient: 0,
            overuse_start_ns: 0,
            threshold: 12_500_000,
            state: BandwidthUsage::Normal,
        }
    }

    /// Folds one delay sample in and returns the usage it signals.
    pub fn update(&mut self, inter_arrival_delta_ns: i64, inter_departure_delta_ns: i64, now_ns: u64) -> (u: BandwidthUsage)
        requires
            sample_fits(old(self)@.delay_gradient, inter_arrival_delta_ns, inter_departure_delta_ns),
        ensures
            final(self)@ == bwe_update(old(self)@, inter_arrival_delta_ns, inter_departure_delta_ns, now_ns),
            u == final(self)@.state,
    {
        let d = inter_arrival_delta_ns - inter_departure_delta_ns;
        let old = self.delay_gradient;
        let diff = d - old;
        let step = if diff >= 0 { diff / 8 } else { -((-(diff as i128)) / 8) as i64 };
        assert(step == div_trunc(diff as int, 8));
        let new_grad = old + step;
        self.delay_gradient = new_grad;
        let thresh = self.threshold;
        let usage = if new_grad > thresh {
            BandwidthUsage::Overuse
        } else if (new_grad as i128) < -(thresh as i128) {
            BandwidthUsage::Underuse
        } else {
            BandwidthUsage::Normal
        };
        match usage {
            BandwidthUsage::Overuse => {
                if self.overuse_start_ns == 0 {
                    self.overuse_start_ns = now_ns;
                }
            },
            _ => {
                self.overuse_start_ns = 0;
            },
        }
        self.state = usage;
        usage
    }

    pub fn current_usage(&self) -> (u: BandwidthUsage)
        ensures
            u == self@.state,
    {
        self.state
    }

    pub fn adapt_threshold(&mut self, usage: BandwidthUsage)
        requires
            threshold_ok(old(self)@.threshold),
        ensures
            final(self)@ == (BweView { threshold: adapted_threshold(old(self)@.threshold, usage), ..old(self)@ }),
            threshold_ok(final(self)@.threshold),
    {
        let thresh = self.threshold;
        let new_thresh = match usage {
            BandwidthUsage::Overuse => {
                let t = thresh * 105 / 100;
                if t < 600_000_000 { t } else { 600_000_000 }
            },
            BandwidthUsage::Underuse => {
                let t = thresh * 95 / 100;
                if t > 6_000_000 { t } else { 6_000_000 }
            },
            BandwidthUsage::Normal => thresh,
        };
        self.threshold = new_thresh;
    }
}

/// The rate gained over `elapsed_ns` nanoseconds at `rate_bps_per_s`,
/// rounded down and saturated at the largest 32-bit value.
pub open spec fn gained_rate(rate_bps_per_s: u32, elapsed_ns: u64) -> u32 {
    let r = rate_bps_per_s * elapsed_ns / 1_000_000_000int;
    if r < u32::MAX { r as u32 } else { u32::MAX }
}

/// The new target rate: a cut by the decrease factor (never above the
/// current rate) when more than about a tenth of the packets were lost,
/// otherwise a linear ramp for the time since the previous update (none on
/// the first update); on overuse a cut to 85 percent instead; always kept
/// within the bounds (the maximum wins when they cross).
pub open spec fn gcc_target(cfg: GccConfig, cur: u32, usage: BandwidthUsage, loss_q8: u32, last_ns: u64, now_ns: u64) -> u32 {
    let loss_based: int = if loss_q8 > 26 {
        min_int(cur * cfg.aimd_decrease_factor / 100, cur as int)
    } else {
        let gained: int = if last_ns == 0 {
            0
        } else {
            gained_rate(cfg.aimd_increase_rate_bps_per_s, if now_ns > last_ns { (now_ns - last_ns) as u64 } else { 0 }) as int
        };
        min_int(cur + gained, u32::MAX as int)
    };
    let delay_based: int = match usage {
        BandwidthUsage::Overuse => cur * 85 / 100,
        _ => loss_based,
    };
    min_int(max_int(delay_based, cfg.min_bitrate_bps as int), cfg.max_bitrate_bps as int) as u32
}

/// The lost share of the sent packets in 256ths, capped at 255.
pub open spec fn loss_q8(fb: TwccFeedback) -> u32 {
    if fb.sent_count > 0 {
        let lost = if fb.received_count < fb.sent_count { fb.sent_count - fb.received_count } else { 0 };
        min_int(lost * 256 / fb.sent_count as int, 255) as u32
    } else {
        0
    }
}

/// Whether the loss share of `fb` can be computed within 64 bits.
pub open spec fn loss_q8_computable(fb: TwccFeedback) -> bool {
    fb.received_count < fb.sent_count ==> (fb.sent_count - fb.received_count) * 256 <= u64::MAX
}

/// The observable state of the controller.
pub struct GccView {
    pub cfg: GccConfig,
    pub bwe: BweView,
    pub target_bps: u32,
    pub loss_fraction_q8: u32,
    pub last_update_ns: u64,
    pub total_sent_bytes: u64,
}

/// Whether a feedback report can be applied to `s` without leaving 64 bits.
pub open spec fn feedback_fits(s: GccView, fb: TwccFeedback) -> bool {
    &&& loss_q8_computable(fb)
    &&& (fb.inter_arrival_delta_ns != 0 || fb.inter_departure_delta_ns != 0) ==> sample_fits(
        s.bwe.delay_gradient,
        fb.inter_arrival_delta_ns,
        fb.inter_departure_delta_ns,
    )
}

/// The controller state after a feedback report that arrived at `now_ns`.
pub open spec fn gcc_feedback(s: GccView, fb: TwccFeedback, now_ns: u64) -> GccView {
    if fb.received_count == 0 {
        s
    } else {
        let bwe1 = if fb.inter_arrival_delta_ns != 0 || fb.inter_departure_delta_ns != 0 {
            bwe_update(s.bwe, fb.inter_arrival_delta_ns, fb.inter_departure_delta_ns, now_ns)
        } else {
            s.bwe
        };
        let usage = bwe1.state;
        let bwe2 = BweView { threshold: adapted_threshold(bwe1.threshold, usage), ..bwe1 };
        let q = loss_q8(fb);
        GccView {
            bwe: bwe2,
            target_bps: gcc_target(s.cfg, s.target_bps, usage, q, s.last_update_ns, now_ns),
            loss_fraction_q8: q,
            last_update_ns: now_ns,
            ..s
        }
    }
}

/// The wall clock in nanoseconds since the Unix epoch; zero when the clock
/// reads earlier than the epoch. Nothing is stated of the value: it is the
/// current time.
#[verifier::external_body]
pub(crate) fn wall_clock_ns() -> u64 {
    match std::time::SystemTime::now().duration_since(std::time::UNIX_EPOCH) {
        Ok(d) => d.as_nanos() as u64,
        Err(_) => 0,
    }
}

pub struct GccController {
    cfg: GccConfig,
    delay_bwe: DelayBasedBwe,
    target_bps: u32,
    loss_fraction_q8: u32,
    last_update_ns: u64,
    total_sent_bytes: u64,
}

impl View for GccController {
    type V = GccView;

    closed spec fn view(&self) -> GccView {
        GccView {
            cfg: self.cfg,
            bwe: self.delay_bwe@,
            target_bps: self.target_bps,
            loss_fraction_q8: self.loss_fraction_q8,
            last_update_ns: self.last_update_ns,
            total_sent_bytes: self.total_sent_bytes,
        }
    }
}

impl GccController {
    pub closed spec fn wf(&self) -> bool {
        threshold_ok(self.delay_bwe@.threshold)
    }

    pub fn new(cfg: GccConfig) -> (c: Self)
        ensures
            c.wf(),
            c@ == (GccView {
                cfg,
                bwe: BweView {
                    delay_gradient: 0,
                    overuse_start_ns: 0,
                    threshold: 12_500_000,
                    state: BandwidthUsage::Normal,
                },
                target_bps: cfg.initial_bitrate_bps,
                loss_fraction_q8: 0,
                last_update_ns: 0,
                total_sent_bytes: 0,
            }),
    {
        let init = cfg.initial_bitrate_bps;
        GccController {
            cfg,
            delay_bwe: DelayBasedBwe::new(),
            target_bps: init,
            loss_fraction_q8: 0,
            last_update_ns: 0,
            total_sent_bytes: 0,
        }
    }

    pub fn on_packet_sent(&mut self, size_bytes: usize, _send_time_ns: u64)
        ensures
            final(self)@ == (GccView {
                total_sent_bytes: old(self)@.total_sent_bytes.wrapping_add(size_bytes as u64),
                ..old(self)@
            }),
            final(self).wf() == old(self).wf(),
    {
        self.total_sent_bytes = self.total_sent_bytes.wrapping_add(size_bytes as u64);
    }

    /// Applies a feedback report stamped with the current wall clock.
    pub fn on_feedback(&mut self, feedback: &TwccFeedback)
        requires
            old(self).wf(),
            feedback_fits(old(self)@, *feedback),
        ensures
            final(self).wf(),
            exists|now_ns: u64| final(self)@ == gcc_feedback(old(self)@, *feedback, now_ns),
    {
        if feedback.received_count == 0 {
            assert(self@ == gcc_feedback(old(self)@, *feedback, 0));
            return;
        }
        let now_ns = wall_clock_ns();
        self.on_feedback_at(feedback, now_ns);
    }

    /// Applies a feedback report that arrived at `now_ns`.
    pub fn on_feedback_at(&mut self, feedback: &TwccFeedback, now_ns: u64)
        requires
            old(self).wf(),
            feedback_fits(old(self)@, *feedback),
        ensures
            final(self).wf(),
            final(self)@ == gcc_feedback(old(self)@, *feedback, now_ns),
    {
        if feedback.received_count == 0 {
            return;
        }
        let usage = if feedback.inter_arrival_delta_ns != 0 || feedback.inter_departure_delta_ns != 0 {
            self.delay_bwe.update(feedback.inter_arrival_delta_ns, feedback.inter_departure_delta_ns, now_ns)
        } else {
            self.delay_bwe.current_usage()
        };
        self.delay_bwe.adapt_threshold(usage);
        let lost = feedback.sent_count.saturating_sub(feedback.received_count);
        let fraction: u32 = if feedback.sent_count > 0 {
            let f = lost * 256 / feedback.sent_count;
            if f < 255 { f as u32 } else { 255 }
        } else {
            0
        };
        self.loss_fraction_q8 = fraction;
        let cur = self.target_bps;
        let new_bps = self.compute_target(cur, usage, fraction, now_ns);
        self.target_bps = new_bps;
        self.last_update_ns = now_ns;
    }

    fn compute_target(&self, cur: u32, usage: BandwidthUsage, loss_q8: u32, now_ns: u64) -> (r: u32)
        ensures
            r == gcc_target(self.cfg, cur, usage, loss_q8, self.last_update_ns, now_ns),
    {
        let loss_based: u32 = if loss_q8 > 26 {
            let f = self.cfg.aimd_decrease_factor;
            assert(cur as u64 * f as u64 <= u64::MAX) by (nonlinear_arith)
                requires
                    cur <= u32::MAX,
                    f <= u32::MAX,
            ;
            let cut = cur as u64 * f as u64 / 100;
            if cut < cur as u64 { cut as u32 } else { cur }
        } else {
            let last = self.last_update_ns;
            let increase: u32 = if last == 0 {
                0
            } else {
                let elapsed = now_ns.saturating_sub(last);
                let rate = self.cfg.aimd_increase_rate_bps_per_s;
                assert(rate as u128 * elapsed as u128 <= u128::MAX) by (nonlinear_arith)
                    requires
                        rate <= u32::MAX,
                        elapsed <= u64::MAX,
                ;
                let g = rate as u128 * elapsed as u128 / 1_000_000_000;
                if g < u32::MAX as u128 { g as u32 } else { u32::MAX }
            };
            cur.saturating_add(increase)
        };
        let delay_based: u32 = match usage {
            BandwidthUsage::Overuse => (cur as u64 * 85 / 100) as u32,
            _ => loss_based,
        };
        let lo = if delay_based > self.cfg.min_bitrate_bps { delay_based } else { self.cfg.min_bitrate_bps };
        if lo < self.cfg.max_bitrate_bps { lo } else { self.cfg.max_bitrate_bps }
    }

    pub fn target_bitrate_bps(&self) -> (b: u32)
        ensures
            b == self@.target_bps,
    {
        self.target_bps
    }

    pub fn bandwidth_usage(&self) -> (u: BandwidthUsage)
        ensures
            u == self@.bwe.state,
    {
        self.delay_bwe.current_usage()
    }
}

/// Whatever the feedback and the clock, the target rate stays within the
/// configured bounds when they do not cross.
pub proof fn gcc_target_bounded_law(s: GccView, fb: TwccFeedback, now_ns: u64)
    requires
        s.cfg.min_bitrate_bps <= s.cfg.max_bitrate_bps,
        fb.received_count > 0,
    ensures
        s.cfg.min_bitrate_bps <= gcc_feedback(s, fb, now_ns).target_bps <= s.cfg.max_bitrate_bps,
{
}

/// On overuse the target never rises above the current rate, as long as the
/// current rate lies within the bounds.
pub proof fn gcc_overuse_never_raises_law(cfg: GccConfig, cur: u32, loss_q8: u32, last_ns: u64, now_ns: u64)
    requires
        cfg.min_bitrate_bps <= cur <= cfg.max_bitrate_bps,
    ensures
        gcc_target(cfg, cur, BandwidthUsage::Overuse, loss_q8, last_ns, now_ns) <= cur,
{
}

} // verus!
