//! Loss-based additive-increase / multiplicative-decrease rate control.
use vstd::prelude::*;
use super::twcc_aggregator::TwccFeedback;

verus! {

/// Bounds and steps of the controller. Losses are in percent.
#[derive(Clone, Debug)]
pub struct AimdConfig {
    pub initial_bitrate_bps: u32,
    pub min_bitrate_bps: u32,
    pub max_bitrate_bps: u32,
    pub additive_increase_bps: u32,
    pub multiplicative_decrease: u32,
    pub loss_threshold_high: u32,
    pub loss_threshold_low: u32,
}

impl Default for AimdConfig {
    fn default() -> (c: Self)
        ensures
            c.initial_bitrate_bps == 500_000,
            c.min_bitrate_bps == 30_000,
            c.max_bitrate_bps == 30_000_000,
            c.additive_increase_bps == 1_000,
            c.multiplicative_decrease == 85,
            c.loss_threshold_high == 10,
            c.loss_threshold_low == 2,
    {
        AimdConfig {
            initial_bitrate_bps: 500_000,
            min_bitrate_bps: 30_000,
            max_bitrate_bps: 30_000_000,
            additive_increase_bps: 1_000,
            multiplicative_decrease: 85,
            loss_threshold_high: 10,
            loss_threshold_low: 2,
        }
    }
}

/// The percentage of sent packets that were lost, rounded down.
pub open spec fn loss_percent(fb: TwccFeedback) -> int {
    let lost = if fb.received_count < fb.sent_count { fb.sent_count - fb.received_count } else { 0 };
    lost * 100 / fb.sent_count as int
}

/// Whether the loss computation of `fb` stays within 64 bits.
pub open spec fn loss_computable(fb: TwccFeedback) -> bool {
    fb.received_count < fb.sent_count ==> (fb.sent_count - fb.received_count) * 100 <= u64::MAX
}

/// Whether the additive step for `fb` stays within 64 bits.
pub open spec fn increase_computable(cfg: AimdConfig, fb: TwccFeedback) -> bool {
    cfg.additive_increase_bps * fb.received_count <= u64::MAX
}

pub open spec fn min_int(a: int, b: int) -> int {
    if a < b { a } else { b }
}

pub open spec fn max_int(a: int, b: int) -> int {
    if a > b { a } else { b }
}

/// The rate after one feedback report: a cut to `multiplicative_decrease`
/// percent (kept within the bounds) when the loss is above the high
/// threshold, a step up of `additive_increase_bps` per received packet
/// (at most one megabit, saturating, and never above the maximum) when the
/// loss is below the low threshold, and no change otherwise or when
/// nothing was sent.
pub open spec fn aimd_next(cfg: AimdConfig, cur: u32, fb: TwccFeedback) -> u32 {
    if fb.sent_count == 0 {
        cur
    } else {
        let pct = loss_percent(fb);
        if pct > cfg.loss_threshold_high {
            min_int(
                max_int(cur * cfg.multiplicative_decrease / 100, cfg.min_bitrate_bps as int),
                cfg.max_bitrate_bps as int,
            ) as u32
        } else if pct < cfg.loss_threshold_low {
            let increase = min_int(cfg.additive_increase_bps * fb.received_count, 1_000_000);
            min_int(min_int(cur + increase, u32::MAX as int), cfg.max_bitrate_bps as int) as u32
        } else {
            cur
        }
    }
}

/// The count of consecutively acknowledged packets after one report.
pub open spec fn aimd_acked_next(cfg: AimdConfig, acked: u32, fb: TwccFeedback) -> u32 {
    if fb.sent_count == 0 {
        acked
    } else {
        let pct = loss_percent(fb);
        if pct > cfg.loss_threshold_high {
            0
        } else if pct < cfg.loss_threshold_low {
            acked.wrapping_add(fb.received_count as u32)
        } else {
            acked
        }
    }
}

pub struct AimdController {
    cfg: AimdConfig,
    target_bps: u32,
    consecutive_acked: u32,
    total_updates: u64,
}

impl AimdController {
    pub closed spec fn spec_cfg(&self) -> AimdConfig {
        self.cfg
    }

    pub closed spec fn spec_target(&self) -> u32 {
        self.target_bps
    }

    pub closed spec fn spec_acked(&self) -> u32 {
        self.consecutive_acked
    }

    pub closed spec fn spec_updates(&self) -> u64 {
        self.total_updates
    }

    pub fn new(cfg: AimdConfig) -> (c: Self)
        ensures
            c.spec_cfg() == cfg,
            c.spec_target() == cfg.initial_bitrate_bps,
            c.spec_acked() == 0,
            c.spec_updates() == 0,
    {
        let init = cfg.initial_bitrate_bps;
        AimdController { cfg, target_bps: init, consecutive_acked: 0, total_updates: 0 }
    }

    /// Applies one feedback report to the target rate.
    pub fn on_feedback(&mut self, feedback: &TwccFeedback)
        requires
            loss_computable(*feedback),
            increase_computable(old(self).spec_cfg(), *feedback),
        ensures
            final(self).spec_cfg() == old(self).spec_cfg(),
            final(self).spec_updates() == old(self).spec_updates().wrapping_add(1),
            final(self).spec_target() == aimd_next(old(self).spec_cfg(), old(self).spec_target(), *feedback),
            final(self).spec_acked() == aimd_acked_next(old(self).spec_cfg(), old(self).spec_acked(), *feedback),
    {
        self.total_updates = self.total_updates.wrapping_add(1);
        if feedback.sent_count == 0 {
            return;
        }
        let lost = feedback.sent_count.saturating_sub(feedback.received_count);
        let loss_pct = lost * 100 / feedback.sent_count;
        let cur = self.target_bps;
        let new_bps = if loss_pct > self.cfg.loss_threshold_high as u64 {
            self.consecutive_acked = 0;
            let m = self.cfg.multiplicative_decrease;
            assert(cur as u64 * m as u64 <= u64::MAX) by (nonlinear_arith)
                requires
                    cur <= u32::MAX,
                    m <= u32::MAX,
            ;
            let cut = cur as u64 * m as u64 / 100;
            let lo = if cut > self.cfg.min_bitrate_bps as u64 { cut } else { self.cfg.min_bitrate_bps as u64 };
            let hi = if lo < self.cfg.max_bitrate_bps as u64 { lo } else { self.cfg.max_bitrate_bps as u64 };
            hi as u32
        } else if loss_pct < self.cfg.loss_threshold_low as u64 {
            self.consecutive_acked = self.consecutive_acked.wrapping_add(#[verifier::truncate] (feedback.received_count as u32));
            let step = self.cfg.additive_increase_bps as u64 * feedback.received_count;
            let increase = if step < 1_000_000 { step as u32 } else { 1_000_000u32 };
            let raised = cur.saturating_add(increase);
            if raised < self.cfg.max_bitrate_bps { raised } else { self.cfg.max_bitrate_bps }
        } else {
            cur
        };
        self.target_bps = new_bps;
    }

    pub fn target_bitrate_bps(&self) -> (b: u32)
        ensures
            b == self.spec_target(),
    {
        self.target_bps
    }

    /// Sets the rate, clamped to the configured bounds (the maximum wins
    /// when the bounds cross).
    pub fn force_set_bitrate(&mut self, bps: u32)
        ensures
            final(self).spec_cfg() == old(self).spec_cfg(),
            final(self).spec_acked() == old(self).spec_acked(),
            final(self).spec_updates() == old(self).spec_updates(),
            final(self).spec_target() == min_int(
                max_int(bps as int, old(self).spec_cfg().min_bitrate_bps as int),
                old(self).spec_cfg().max_bitrate_bps as int,
            ),
    {
        let lo = if bps > self.cfg.min_bitrate_bps { bps } else { self.cfg.min_bitrate_bps };
        let clamped = if lo < self.cfg.max_bitrate_bps { lo } else { self.cfg.max_bitrate_bps };
        self.target_bps = clamped;
    }
}

/// After any report with losses above the high threshold the rate never
/// rises, and after any report with losses below the low threshold it
/// never falls, as long as the current rate lies within the bounds.
pub proof fn aimd_direction_law(cfg: AimdConfig, cur: u32, fb: TwccFeedback)
    requires
        cfg.min_bitrate_bps <= cur <= cfg.max_bitrate_bps,
        cfg.multiplicative_decrease <= 100,
    ensures
        fb.sent_count > 0 && loss_percent(fb) > cfg.loss_threshold_high ==> aimd_next(cfg, cur, fb) <= cur,
        fb.sent_count > 0 && loss_percent(fb) < cfg.loss_threshold_low && !(loss_percent(fb)
            > cfg.loss_threshold_high) ==> aimd_next(cfg, cur, fb) >= cur,
        cfg.min_bitrate_bps <= cfg.max_bitrate_bps ==> cfg.min_bitrate_bps <= aimd_next(cfg, cur, fb)
            <= cfg.max_bitrate_bps,
{
    aimd_steady_law(cfg, cur, fb);
    assert(cur * cfg.multiplicative_decrease / 100 <= cur) by (nonlinear_arith)
        requires
            cfg.multiplicative_decrease <= 100,
            cur >= 0,
    ;
}

/// A report with nothing sent, or with losses between the two thresholds
/// (both included), leaves the rate where it was.
pub proof fn aimd_steady_law(cfg: AimdConfig, cur: u32, fb: TwccFeedback)
    ensures
        fb.sent_count == 0 ==> aimd_next(cfg, cur, fb) == cur,
        fb.sent_count > 0 && cfg.loss_threshold_low <= loss_percent(fb) <= cfg.loss_threshold_high ==> aimd_next(
            cfg,
            cur,
            fb,
        ) == cur,
{
}

/// One call on a controller: a feedback report or a forced rate.
pub enum AimdStep {
    Feedback(TwccFeedback),
    Force(u32),
}

/// The rate after one call, as `on_feedback` and `force_set_bitrate` state it.
pub open spec fn aimd_step(cfg: AimdConfig, cur: u32, step: AimdStep) -> u32 {
    match step {
        AimdStep::Feedback(fb) => aimd_next(cfg, cur, fb),
        AimdStep::Force(bps) => min_int(
            max_int(bps as int, cfg.min_bitrate_bps as int),
            cfg.max_bitrate_bps as int,
        ) as u32,
    }
}

/// The rate after a sequence of calls, starting from `start`.
pub open spec fn aimd_run(cfg: AimdConfig, start: u32, steps: Seq<AimdStep>) -> u32
    decreases steps.len(),
{
    if steps.len() == 0 {
        start
    } else {
        aimd_step(cfg, aimd_run(cfg, start, steps.drop_last()), steps.last())
    }
}

/// A controller whose bounds hold its initial rate and whose cut keeps at
/// most all of the rate stays within the bounds after any sequence of
/// feedback reports and forced rates.
pub proof fn aimd_bounds_law(cfg: AimdConfig, steps: Seq<AimdStep>)
    requires
        cfg.min_bitrate_bps <= cfg.initial_bitrate_bps <= cfg.max_bitrate_bps,
        cfg.multiplicative_decrease <= 100,
    ensures
        cfg.min_bitrate_bps <= aimd_run(cfg, cfg.initial_bitrate_bps, steps) <= cfg.max_bitrate_bps,
    decreases steps.len(),
{
    if steps.len() > 0 {
        let prev = aimd_run(cfg, cfg.initial_bitrate_bps, steps.drop_last());
        aimd_bounds_law(cfg, steps.drop_last());
        match steps.last() {
            AimdStep::Feedback(fb) => {
                aimd_direction_law(cfg, prev, fb);
            },
            AimdStep::Force(_) => {},
        }
    }
}

} // verus!
