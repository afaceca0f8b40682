use webrtc_core::byte_ring::ByteRing;
use webrtc_core::index_ring::IndexRing;
use webrtc_core::latency_ring::LatencyRing;

#[test]
fn byte_ring_write_read() {
    let mut ring = ByteRing::new(8);
    let data = vec![1u8, 2, 3, 4, 5];
    assert_eq!(ring.write(&data), 5);
    let mut out = [0u8; 10];
    assert_eq!(ring.read(&mut out), 5);
    assert_eq!(&out[..5], &data[..]);
}

#[test]
fn byte_ring_wrap_around() {
    let mut ring = ByteRing::new(8);
    for i in 0..16u8 {
        let buf = [i];
        assert_eq!(ring.write(&buf), 1);
        let mut out = [0u8];
        assert_eq!(ring.read(&mut out), 1);
        assert_eq!(out[0], i);
    }
}

#[test]
fn byte_ring_try_write() {
    let mut ring = ByteRing::new(4);
    assert!(ring.try_write(1));
    assert!(ring.try_write(2));
    assert!(ring.try_write(3));
    assert!(ring.try_write(4));
    assert!(!ring.try_write(5));
    let mut out = [0u8; 4];
    assert_eq!(ring.read(&mut out), 4);
    assert_eq!(out, [1, 2, 3, 4]);
}

#[test]
fn byte_ring_capacity_rounds_up_to_power_of_two() {
    let mut ring = ByteRing::new(5);
    assert_eq!(ring.capacity(), 8);
    assert_eq!(ring.write(&[0u8; 20]), 8);
    assert_eq!(ring.len(), 8);
    assert!(ring.is_full());
    let mut out = [9u8; 3];
    assert_eq!(ring.read(&mut out), 3);
    assert_eq!(ring.len(), 5);
}

#[test]
fn byte_ring_read_from_empty() {
    let mut ring = ByteRing::new(4);
    let mut out = [7u8; 4];
    assert_eq!(ring.read(&mut out), 0);
    assert_eq!(out, [7u8; 4]);
    assert!(ring.is_empty());
}

#[test]
fn wrap_around_push_pop() {
    let mut r = IndexRing::new(8);
    for i in 0..16usize {
        assert!(r.push(i));
    }
    let mut got = Vec::new();
    while let Some(v) = r.pop() {
        got.push(v);
        if got.len() > 16 {
            break;
        }
    }
    assert!(got.len() <= 16);
}

#[test]
fn index_ring_is_fifo_and_bounded() {
    let mut r = IndexRing::new(3);
    assert_eq!(r.capacity(), 8);
    for i in 0..8usize {
        assert!(r.push(i * 10));
    }
    assert!(!r.push(99));
    assert_eq!(r.len(), 8);
    for i in 0..8usize {
        assert_eq!(r.pop(), Some(i * 10));
    }
    assert_eq!(r.pop(), None);
    assert!(r.is_empty());
}

#[test]
fn latency_ring_basic() {
    let mut ring = LatencyRing::new(8);
    for i in 0..8u64 {
        assert!(ring.push(i));
    }
    assert!(!ring.push(8));

    let mut out = [0u64; 16];
    let n = ring.pop_batch(&mut out);
    assert_eq!(n, 8);
    for (i, &v) in out[..8].iter().enumerate() {
        assert_eq!(v, i as u64);
    }
}

#[test]
fn latency_ring_wrap_around() {
    let mut ring = LatencyRing::new(4);
    for i in 0..16u64 {
        let mut out = [0u64; 1];
        assert!(ring.push(i));
        assert_eq!(ring.pop_batch(&mut out), 1);
        assert_eq!(out[0], i);
    }
}

#[test]
fn latency_ring_partial_batch() {
    let mut ring = LatencyRing::new(4);
    for v in [5u64, 6, 7] {
        assert!(ring.push(v));
    }
    let mut out = [0u64; 2];
    assert_eq!(ring.pop_batch(&mut out), 2);
    assert_eq!(out, [5, 6]);
    assert_eq!(ring.len(), 1);
    let mut rest = [0u64; 4];
    assert_eq!(ring.pop_batch(&mut rest), 1);
    assert_eq!(rest[0], 7);
}
