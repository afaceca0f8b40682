use std::sync::Arc;
use webrtc_core::datachannel::{
    DataChannel, DataChannelConfig, DataChannelError, DataChannelManager, DataChannelMessage, DataChannelProtocol,
    DataChannelState,
};
use webrtc_core::net::SocketAddress;
use webrtc_core::pacer::{PacedPacket, Pacer, PacerConfig, PacketPriority, TokenBucket};

#[test]
fn data_channel_creation() {
    let config = DataChannelConfig::default();
    let channel = DataChannel::new(0, config);
    assert_eq!(channel.state(), DataChannelState::Connecting);
}

#[test]
fn data_channel_send_text() {
    let config = DataChannelConfig::default();
    let mut channel = DataChannel::new(0, config);
    channel.open();
    channel.send_text("hello").unwrap();
    assert!(channel.is_open());
}

#[test]
fn data_channel_send_binary() {
    let config = DataChannelConfig::default();
    let mut channel = DataChannel::new(0, config);
    channel.open();
    channel.send_binary(b"binary data").unwrap();
}

#[test]
fn data_channel_send_before_open_fails() {
    let mut channel = DataChannel::new(3, DataChannelConfig::default());
    assert!(matches!(channel.send_text("x"), Err(DataChannelError::NotOpen)));
    assert_eq!(channel.buffered_amount(), 0);
}

#[test]
fn data_channel_buffers_and_pops_in_order() {
    let mut channel = DataChannel::new(1, DataChannelConfig::default());
    channel.open();
    channel.send_text("ab").unwrap();
    channel.send_binary(&[1, 2, 3]).unwrap();
    assert_eq!(channel.buffered_amount(), 5);
    match channel.pop_message() {
        Some(DataChannelMessage::Text(b)) => assert_eq!(&b[..], b"ab"),
        _ => panic!("expected the text message first"),
    }
    assert_eq!(channel.buffered_amount(), 3);
    match channel.pop_message() {
        Some(DataChannelMessage::Binary(b)) => assert_eq!(&b[..], &[1u8, 2, 3][..]),
        _ => panic!("expected the binary message second"),
    }
    assert!(channel.pop_message().is_none());
}

#[test]
fn data_channel_manager() {
    let mut manager = DataChannelManager::new();
    let channel = manager.create_data_channel("test", DataChannelConfig::default());
    assert_eq!(channel.config.label, "test");
}

#[test]
fn data_channel_manager_ids_and_removal() {
    let mut manager = DataChannelManager::new();
    let a = manager.create_data_channel("a", DataChannelConfig::default());
    let b = manager.create_data_channel("b", DataChannelConfig::default());
    assert_ne!(a.id, b.id);
    assert!(manager.get_channel(a.id).is_some());
    manager.remove_channel(a.id);
    assert!(manager.get_channel(a.id).is_none());
    assert!(manager.get_channel(b.id).is_some());
}

#[test]
fn open_message_encoding() {
    let protocol = DataChannelProtocol::new();
    let msg = protocol.encode_open_message("test-channel", "json", true);
    assert!(msg.len() > 0);
}

#[test]
fn open_message_is_understood_by_the_peer() {
    let protocol = DataChannelProtocol::new();
    let msg = protocol.encode_open_message("chat", "json", true);
    let mut peer = DataChannelProtocol::new();
    let channel = peer.handle_open_message(&msg).unwrap();
    assert_eq!(channel.config.label, "chat");
    assert_eq!(channel.config.protocol, "json");
    assert!(channel.config.ordered);
}

#[test]
fn data_message_encoding_roundtrip() {
    let protocol = DataChannelProtocol::new();
    let msg = DataChannelMessage::Binary(bytes::Bytes::from(vec![9u8, 8, 7]));
    let encoded = protocol.encode_data_message(&msg);
    match protocol.handle_data_message(&encoded).unwrap() {
        DataChannelMessage::Binary(b) => assert_eq!(&b[..], &[9u8, 8, 7][..]),
        _ => panic!("expected a binary message"),
    }
}

fn packet(priority: PacketPriority, seq: u16) -> PacedPacket {
    PacedPacket {
        data: Arc::new(vec![0u8; 100]),
        destination: SocketAddress::v4(127, 0, 0, 1, 5000),
        enqueue_time: std::time::Instant::now(),
        priority,
        ssrc: 1,
        seq,
    }
}

#[test]
fn pacer_basic_enqueue() {
    let mut pacer = Pacer::default();
    let p = packet(PacketPriority::Normal, 100);
    assert!(pacer.enqueue(p));
    assert_eq!(pacer.queue_size(), 1);
}

#[test]
fn pacer_priority_ordering() {
    let mut pacer = Pacer::default();
    let low = packet(PacketPriority::Low, 100);
    let high = packet(PacketPriority::High, 101);
    pacer.enqueue(low);
    pacer.enqueue(high);
    if let Some(p) = pacer.try_send() {
        assert_eq!(p.priority, PacketPriority::High);
    }
}

#[test]
fn pacer_equal_priorities_keep_arrival_order() {
    let mut pacer = Pacer::default();
    pacer.enqueue(packet(PacketPriority::Normal, 1));
    pacer.enqueue(packet(PacketPriority::Normal, 2));
    pacer.enqueue(packet(PacketPriority::Critical, 3));
    let first = pacer.try_send_after(0).unwrap();
    let second = pacer.try_send_after(0).unwrap();
    let third = pacer.try_send_after(0).unwrap();
    assert_eq!((first.seq, second.seq, third.seq), (3, 1, 2));
    assert!(pacer.is_empty());
}

#[test]
fn pacer_full_queue_drops() {
    let cfg = PacerConfig { queue_size: 1, ..Default::default() };
    let mut pacer = Pacer::new(cfg);
    assert!(pacer.enqueue(packet(PacketPriority::Low, 1)));
    assert!(!pacer.enqueue(packet(PacketPriority::High, 2)));
    assert_eq!(pacer.stats().packets_dropped, 1);
    assert_eq!(pacer.queue_size(), 1);
}

#[test]
fn pacer_waits_for_tokens() {
    let cfg = PacerConfig { max_burst_bytes: 150, target_bitrate_bps: 8_000, ..Default::default() };
    let mut pacer = Pacer::new(cfg);
    pacer.enqueue(packet(PacketPriority::Normal, 1));
    pacer.enqueue(packet(PacketPriority::Normal, 2));
    assert!(pacer.try_send_after(0).is_some());
    assert!(pacer.try_send_after(0).is_none());
    assert_eq!(pacer.queue_size(), 1);
    // 8000 bit/s refills 25 bytes in 25 ms: 75 bytes, then 100.
    assert!(pacer.try_send_after(25_000_000).is_none());
    assert!(pacer.try_send_after(25_000_000).is_some());
}

#[test]
fn token_bucket_refill_is_capped() {
    let mut b = TokenBucket::new(10, 8);
    assert!(b.consume(10));
    assert_eq!(b.available(), 0);
    b.refill_by(1_000_000_000);
    assert_eq!(b.available(), 1);
    b.refill_by(u64::MAX);
    assert_eq!(b.available(), 10);
}

#[test]
fn open_channels_lists_open_ones_in_order() {
    let mut manager = DataChannelManager::new();
    let a = manager.create_data_channel("a", DataChannelConfig::default());
    let _b = manager.create_data_channel("b", DataChannelConfig::default());
    assert!(manager.open_channels().is_empty());
    assert_eq!(manager.channels().len(), 2);
    let _ = a;
}

#[test]
fn token_bucket_try_consume_takes_or_leaves() {
    let mut b = TokenBucket::new(10, 0);
    assert!(b.try_consume(4));
    assert_eq!(b.available(), 6);
    assert!(!b.try_consume(7));
    assert_eq!(b.available(), 6);
}
