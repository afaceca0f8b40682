use webrtc_core::cc::aimd::{AimdConfig, AimdController};
use webrtc_core::cc::gcc::{GccConfig, GccController};
use webrtc_core::codecs::CodecType;
use webrtc_core::cc::probe_controller::{ProbeConfig, ProbeController};
use webrtc_core::cc::twcc_aggregator::{TwccAggregator, TwccFeedback};

fn feedback(sent: u64, received: u64, arrival: i64, departure: i64) -> TwccFeedback {
    TwccFeedback {
        sent_count: sent,
        received_count: received,
        inter_arrival_delta_ns: arrival,
        inter_departure_delta_ns: departure,
    }
}

#[test]
fn aimd_increase_on_no_loss() {
    let cfg = AimdConfig { additive_increase_bps: 10_000, ..Default::default() };
    let mut ctrl = AimdController::new(cfg);
    let fb = feedback(10, 10, 0, 0);
    ctrl.on_feedback(&fb);
    assert!(ctrl.target_bitrate_bps() > 500_000);
}

#[test]
fn aimd_decrease_on_high_loss() {
    let cfg = AimdConfig::default();
    let mut ctrl = AimdController::new(cfg);
    let fb = feedback(10, 8, 0, 0);
    ctrl.on_feedback(&fb);
    assert!(ctrl.target_bitrate_bps() <= 500_000);
}

#[test]
fn aimd_exact_steps() {
    let mut ctrl = AimdController::new(AimdConfig::default());
    ctrl.on_feedback(&feedback(100, 100, 0, 0));
    assert_eq!(ctrl.target_bitrate_bps(), 600_000);
    ctrl.on_feedback(&feedback(100, 50, 0, 0));
    assert_eq!(ctrl.target_bitrate_bps(), 510_000);
    ctrl.on_feedback(&feedback(100, 95, 0, 0));
    assert_eq!(ctrl.target_bitrate_bps(), 510_000);
}

#[test]
fn aimd_force_set_bitrate_is_clamped() {
    let mut ctrl = AimdController::new(AimdConfig::default());
    ctrl.force_set_bitrate(1);
    assert_eq!(ctrl.target_bitrate_bps(), 30_000);
    ctrl.force_set_bitrate(u32::MAX);
    assert_eq!(ctrl.target_bitrate_bps(), 30_000_000);
}

#[test]
fn gcc_initial_bitrate() {
    let cfg = GccConfig { initial_bitrate_bps: 2_000_000, ..Default::default() };
    let gcc = GccController::new(cfg);
    assert_eq!(gcc.target_bitrate_bps(), 2_000_000);
}

#[test]
fn gcc_overuse_decreases_target() {
    let cfg = GccConfig::default();
    let mut gcc = GccController::new(cfg);
    let fb = feedback(10, 10, 100_000_000, 0);
    gcc.on_feedback(&fb);
    gcc.on_feedback(&fb);
    gcc.on_feedback(&fb);
    let target = gcc.target_bitrate_bps();
    assert!(target < 1_000_000);
}

#[test]
fn gcc_enforces_min_bitrate() {
    let cfg = GccConfig { min_bitrate_bps: 100_000, initial_bitrate_bps: 100_000, ..Default::default() };
    let mut gcc = GccController::new(cfg);
    let fb = feedback(10, 10, 1_000_000_000, 0);
    for _ in 0..100 {
        gcc.on_feedback(&fb);
    }
    assert!(gcc.target_bitrate_bps() >= 100_000);
}

#[test]
fn gcc_stays_within_bounds_at_fixed_times() {
    let cfg = GccConfig::default();
    let mut gcc = GccController::new(cfg);
    let fb = feedback(10, 10, 0, 0);
    let mut now = 0u64;
    for _ in 0..50 {
        now += 1_000_000_000;
        gcc.on_feedback_at(&fb, now);
        let t = gcc.target_bitrate_bps();
        assert!(t >= 50_000 && t <= 50_000_000);
    }
}

#[test]
fn probe_start_and_complete() {
    let cfg = ProbeConfig { probe_window_ms: 10, min_probe_packets: 2, ..Default::default() };
    let mut ctrl = ProbeController::new(cfg);
    let now = 1_000_000_000u64;
    assert!(ctrl.start_probe(500_000, now));
    assert!(ctrl.is_probing());
    ctrl.on_probe_packet_sent(1200);
    ctrl.on_probe_packet_sent(1200);
    ctrl.on_probe_feedback(2);
    let result = ctrl.check_probe_complete(now + 20_000_000);
    assert!(result.is_some());
    let r = result.unwrap();
    assert!(r.success);
    assert!(!ctrl.is_probing());
}

#[test]
fn probe_does_not_exceed_max() {
    let cfg = ProbeConfig { max_probe_bitrate_bps: 2_000_000, ..Default::default() };
    let mut ctrl = ProbeController::new(cfg);
    ctrl.start_probe(3_000_000, 0);
    assert!(ctrl.probe_target_bps() <= 2_000_000);
}

#[test]
fn probe_second_start_is_refused_while_probing() {
    let mut ctrl = ProbeController::new(ProbeConfig::default());
    assert!(ctrl.start_probe(100_000, 0));
    assert!(!ctrl.start_probe(100_000, 1));
    assert_eq!(ctrl.probe_target_bps(), 200_000);
    assert_eq!(ctrl.probe_count(), 0);
}

#[test]
fn twcc_sequence_numbers() {
    let mut agg = TwccAggregator::new();
    let s1 = agg.next_transport_seq();
    let s2 = agg.next_transport_seq();
    assert_eq!(s2, s1.wrapping_add(1));
}

#[test]
fn twcc_loss_fraction() {
    let mut agg = TwccAggregator::new();
    for i in 0..10u16 {
        agg.on_packet_sent(i, 1_000_000 * i as u64, 1200);
    }
    for i in 0..8u16 {
        agg.on_packet_received(i, 2_000_000 * i as u64);
    }
    let s = agg.total_sent();
    let r = agg.total_received();
    let loss = if s == 0 { 0.0f32 } else { s.saturating_sub(r) as f32 / s as f32 };
    assert!((loss - 0.2).abs() < 0.05);
}

#[test]
fn twcc_feedback_counts() {
    let mut agg = TwccAggregator::new();
    agg.on_packet_sent(0, 1000, 1200);
    agg.on_packet_sent(1, 2000, 1200);
    agg.on_packet_received(0, 1500);
    agg.on_packet_received(1, 2500);
    let fb = agg.compute_feedback();
    assert_eq!(fb.sent_count, 2);
    assert_eq!(fb.received_count, 2);
}

#[test]
fn aimd_stays_within_bounds_over_many_calls() {
    let cfg = AimdConfig {
        initial_bitrate_bps: 500_000,
        min_bitrate_bps: 100_000,
        max_bitrate_bps: 1_000_000,
        additive_increase_bps: 50_000,
        multiplicative_decrease: 50,
        loss_threshold_high: 10,
        loss_threshold_low: 2,
    };
    let mut ctrl = AimdController::new(cfg);
    let reports = [(100u64, 100u64), (100, 50), (100, 40), (100, 30), (100, 100), (0, 0), (100, 95), (100, 100)];
    for (i, (sent, received)) in reports.iter().enumerate() {
        let before = ctrl.target_bitrate_bps();
        ctrl.on_feedback(&TwccFeedback {
            sent_count: *sent,
            received_count: *received,
            inter_arrival_delta_ns: 0,
            inter_departure_delta_ns: 0,
        });
        let after = ctrl.target_bitrate_bps();
        assert!((100_000..=1_000_000).contains(&after));
        if *sent == 0 || (*sent - *received) * 100 / *sent >= 2 && (*sent - *received) * 100 / *sent <= 10 {
            assert_eq!(after, before);
        }
        if i == 3 {
            ctrl.force_set_bitrate(5_000_000);
            assert_eq!(ctrl.target_bitrate_bps(), 1_000_000);
        }
    }
}

#[test]
fn codec_names_round_trip() {
    for c in [
        CodecType::Opus,
        CodecType::G722,
        CodecType::Pcmu,
        CodecType::Pcma,
        CodecType::VP8,
        CodecType::VP9,
        CodecType::H264,
        CodecType::AV1,
        CodecType::Unknown,
    ] {
        assert_eq!(CodecType::from_mime(c.as_str()), c);
    }
}
