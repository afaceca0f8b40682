use webrtc_core::audio::{AecMode, AudioProcessingConfig, NoiseSuppressionLevel};
use webrtc_core::codecs::{AudioEncoderConfig, CodecType, VideoRotation};
use webrtc_core::engine_handle::{fill_slot, EngineBuilder};
use webrtc_core::engine_shard::{jitter_resize_target, shard_arrival, shard_decide, EngineStats};
use webrtc_core::media_engine::{MediaError, Metrics};
use webrtc_core::observability::metrics::{EngineMetrics, StreamMetrics};

#[test]
fn audio_processing_config_default() {
    let config = AudioProcessingConfig::default();
    assert_eq!(config.aec_mode, AecMode::Moderate);
    assert_eq!(config.noise_suppression_level, NoiseSuppressionLevel::Moderate);
}

#[test]
fn codec_type_from_mime() {
    assert_eq!(CodecType::from_mime("opus"), CodecType::Opus);
    assert_eq!(CodecType::from_mime("VP8"), CodecType::VP8);
    assert_eq!(CodecType::from_mime("h264"), CodecType::H264);
}

#[test]
fn codec_type_from_mime_with_type_prefix() {
    assert_eq!(CodecType::from_mime("video/VP9"), CodecType::VP9);
    assert_eq!(CodecType::from_mime("audio/opus"), CodecType::Opus);
}

#[test]
fn audio_encoder_config_default() {
    let config = AudioEncoderConfig::default();
    assert_eq!(config.sample_rate, 48000);
    assert_eq!(config.channels, 2);
}

#[test]
fn stream_metrics_basic() {
    let mut m = StreamMetrics::new();
    m.record_received(1200);
    m.record_received(1200);
    m.record_sent(1200);
    m.record_dropped();
    m.record_nack();
    let snap = m.snapshot(1_000_000, 500_000);
    assert_eq!(snap.packets_received, 2);
    assert_eq!(snap.packets_sent, 1);
    assert_eq!(snap.packets_dropped, 1);
    assert_eq!(snap.nack_count, 1);
    let total = snap.packets_received + snap.packets_dropped;
    let loss_fraction = if total > 0 { snap.packets_dropped as f32 / total as f32 } else { 0.0 };
    assert!(loss_fraction > 0.0);
}

#[test]
fn stream_metrics_snapshot_units() {
    let mut m = StreamMetrics::new();
    m.update_rtt_ns(-2_500_000);
    m.update_jitter_ns(7_900_000);
    m.record_qp(10);
    m.record_qp(21);
    let snap = m.snapshot(42, 1_999);
    assert_eq!(snap.rtt_ms, -2);
    assert_eq!(snap.jitter_buffer_ms, 7);
    assert_eq!(snap.latency_p99_us, 1);
    assert_eq!(snap.qp_avg, 15);
    assert_eq!(snap.target_bitrate_bps, 42);
}

#[test]
fn engine_metrics_totals() {
    let mut em = EngineMetrics::new();
    em.audio.record_received(160);
    em.video.record_received(1200);
    assert_eq!(em.total_pps(), 2);
    assert_eq!(em.total_bps_rx(), 1360);
}

#[test]
fn engine_builder_defaults_and_setters() {
    let b = EngineBuilder::new();
    assert_eq!(b.get_jitter_capacity(), 1024);
    assert_eq!(b.get_slab_capacity(), 4096);
    assert_eq!(b.get_index_capacity(), 4096);
    assert_eq!(b.get_rtcp_capacity(), 256);
    let b = b.jitter_capacity(2048).slab_capacity(8192).index_capacity(8192).rtcp_capacity(512);
    assert_eq!(b.get_jitter_capacity(), 2048);
    assert_eq!(b.get_slab_capacity(), 8192);
    assert_eq!(b.get_index_capacity(), 8192);
    assert_eq!(b.get_rtcp_capacity(), 512);
}

#[test]
fn engine_counters_start_at_zero() {
    let m = Metrics::new();
    assert_eq!(m.packets_received + m.packets_dropped + m.jitter_samples, 0);
    let s = EngineStats::new();
    assert_eq!(s.pps + s.dropped_packets + s.latency_p99, 0);
    assert_eq!(s.dropped_layer0 + s.dropped_layer1 + s.dropped_layer2, 0);
    assert_eq!(MediaError::InvalidState.message(), "invalid state transition");
}

#[test]
fn codec_kinds_do_not_overlap() {
    for c in [
        CodecType::Opus,
        CodecType::G722,
        CodecType::Pcmu,
        CodecType::Pcma,
        CodecType::VP8,
        CodecType::VP9,
        CodecType::H264,
        CodecType::AV1,
        CodecType::Unknown,
    ] {
        assert!(!(c.is_audio() && c.is_video()));
    }
    assert!(CodecType::Opus.is_audio() && CodecType::VP8.is_video());
    assert!(!CodecType::Unknown.is_audio() && !CodecType::Unknown.is_video());
}

#[test]
fn rotation_byte_reads_back() {
    for r in [VideoRotation::Rotation0, VideoRotation::Rotation90, VideoRotation::Rotation180, VideoRotation::Rotation270] {
        assert_eq!(VideoRotation::from_u8(r.to_u8()), r);
    }
}

#[test]
fn audio_packet_reads_header_fields() {
    let bytes = [0x80u8, 0x60, 0x12, 0x34, 0, 0, 0x01, 0x00, 0xde, 0xad, 0xbe, 0xef, 7, 8];
    let mut p = webrtc_core::packet::AudioPacket::from_slice(&bytes);
    assert_eq!(p.len, 14);
    assert_eq!(p.seq, 0x1234);
    assert_eq!(p.timestamp, 256);
    assert_eq!(p.ssrc, 0xdeadbeef);
    assert_eq!(p.data[14], 0);
    let payload = p.payload_mut();
    assert_eq!(payload.len(), 14);
    payload[13] = 9;
    assert_eq!(p.data[13], 9);
    assert_eq!(p.data[12], 7);
    assert!(p.reserve_tail(1486));
    assert!(!p.reserve_tail(1487));
}

#[test]
fn shard_drops_enhancement_layers_when_congested() {
    let stats = EngineStats::new();
    let (congested, dropped, s) = shard_decide(51, 1, stats);
    assert!(congested);
    assert!(dropped);
    assert_eq!(s.dropped_packets, 1);
    assert_eq!(s.dropped_layer1, 1);
    assert_eq!(s.dropped_layer2, 0);
    let (_, dropped, s) = shard_decide(80, 7, s);
    assert!(dropped);
    assert_eq!(s.dropped_packets, 2);
    assert_eq!(s.dropped_layer2, 1);
}

#[test]
fn shard_keeps_base_layer_and_uncongested_packets() {
    let stats = EngineStats::new();
    let (congested, dropped, s) = shard_decide(200, 0, stats);
    assert!(congested);
    assert!(!dropped);
    assert_eq!(s.dropped_packets, 0);
    let (congested, dropped, s) = shard_decide(50, 2, s);
    assert!(!congested);
    assert!(!dropped);
    assert_eq!(s.dropped_packets, 0);
    assert_eq!(s.dropped_layer2, 0);
}

#[test]
fn shard_drop_counters_wrap() {
    let mut stats = EngineStats::new();
    stats.dropped_packets = u64::MAX;
    let (_, _, s) = shard_decide(60, 1, stats);
    assert_eq!(s.dropped_packets, 0);
}

#[test]
fn jitter_resize_targets() {
    assert_eq!(jitter_resize_target(20, 32), Some(40));
    assert_eq!(jitter_resize_target(3, 64), Some(16));
    assert_eq!(jitter_resize_target(3, 16), None);
    assert_eq!(jitter_resize_target(20, 40), None);
    assert_eq!(jitter_resize_target(40000, 16), None);
    assert_eq!(jitter_resize_target(usize::MAX, 16), None);
}

#[test]
fn shard_counts_arrivals() {
    let s = shard_arrival(EngineStats::new(), true);
    assert_eq!(s.pps, 1);
    assert_eq!(s.dropped_packets, 0);
    let s = shard_arrival(s, false);
    assert_eq!(s.pps, 2);
    assert_eq!(s.dropped_packets, 1);
}

#[test]
fn fill_slot_copies_and_stamps() {
    let mut p = webrtc_core::packet::AudioPacket::from_slice(&[9u8; 20]);
    fill_slot(&mut p, &[1, 2, 3], 7, 0x1234, 55);
    assert_eq!(p.len, 3);
    assert_eq!(&p.data[..5], &[1, 2, 3, 9, 9]);
    assert_eq!(p.seq, 7);
    assert_eq!(p.ssrc, 0x1234);
    assert_eq!(p.timestamp, 55);
    let big = vec![4u8; 2000];
    fill_slot(&mut p, &big, 8, 1, 2);
    assert_eq!(p.len, 1500);
    assert_eq!(p.data[1499], 4);
}
