//! Counters of an engine shard and the decisions its processing loop
//! takes for each packet it pops and after each pass.
use vstd::prelude::*;

verus! {

#[derive(Clone, Copy, Debug)]
pub struct EngineStats {
    pub pps: u64,
    pub dropped_packets: u64,
    pub latency_p99: u64,
    pub dropped_layer0: u64,
    pub dropped_layer1: u64,
    pub dropped_layer2: u64,
}

impl EngineStats {
    pub fn new() -> (s: Self)
        ensures
            s.pps == 0,
            s.dropped_packets == 0,
            s.latency_p99 == 0,
            s.dropped_layer0 == 0,
            s.dropped_layer1 == 0,
            s.dropped_layer2 == 0,
    {
        EngineStats {
            pps: 0,
            dropped_packets: 0,
            latency_p99: 0,
            dropped_layer0: 0,
            dropped_layer1: 0,
            dropped_layer2: 0,
        }
    }
}

/// The delay, in milliseconds, above which a shard counts as congested.
pub const CONGESTION_DELAY_MS: u64 = 50;

/// `x + 1`, wrapping at `u64::MAX` as an atomic `fetch_add` does.
pub open spec fn bump(x: u64) -> u64 {
    if x == u64::MAX {
        0
    } else {
        (x + 1) as u64
    }
}

fn bump_exec(x: u64) -> (r: u64)
    ensures
        r == bump(x),
{
    if x == u64::MAX {
        0
    } else {
        x + 1
    }
}

/// The counters after dropping a packet of simulcast `layer`: the drop
/// count and the layer's own counter (layers 2 and above share the third)
/// go up by one.
pub open spec fn stats_after_drop(stats: EngineStats, layer: u8) -> EngineStats {
    EngineStats {
        dropped_packets: bump(stats.dropped_packets),
        dropped_layer0: if layer == 0 { bump(stats.dropped_layer0) } else { stats.dropped_layer0 },
        dropped_layer1: if layer == 1 { bump(stats.dropped_layer1) } else { stats.dropped_layer1 },
        dropped_layer2: if layer >= 2 { bump(stats.dropped_layer2) } else { stats.dropped_layer2 },
        ..stats
    }
}

/// The decision the processing loop takes for a popped packet of simulcast
/// `layer`, given the jitter buffer's smoothed delay: whether the shard is
/// congested (the delay is over 50 ms), whether the packet is dropped
/// (congested and not the base layer), and the counters afterwards.
pub fn shard_decide(ewma_delay_ms: u64, layer: u8, stats: EngineStats) -> (r: (bool, bool, EngineStats))
    ensures
        r.0 == (ewma_delay_ms > CONGESTION_DELAY_MS),
        r.1 == (r.0 && layer > 0),
        r.1 ==> r.2 == stats_after_drop(stats, layer),
        !r.1 ==> r.2 == stats,
{
    let congested = ewma_delay_ms > CONGESTION_DELAY_MS;
    if congested && layer > 0 {
        let mut s = stats;
        s.dropped_packets = bump_exec(s.dropped_packets);
        if layer == 0 {
            s.dropped_layer0 = bump_exec(s.dropped_layer0);
        } else if layer == 1 {
            s.dropped_layer1 = bump_exec(s.dropped_layer1);
        } else {
            s.dropped_layer2 = bump_exec(s.dropped_layer2);
        }
        (congested, true, s)
    } else {
        (congested, false, stats)
    }
}

/// The capacity the jitter buffer is resized to after a pass: twice the
/// smoothed delay in milliseconds (saturating), at least 16, when that
/// differs from the current capacity and lies strictly between 0 and 65536;
/// `None` leaves the buffer as it is.
pub fn jitter_resize_target(ewma_ms: usize, cap: usize) -> (t: Option<usize>)
    ensures
        ({
            let doubled = if ewma_ms * 2 > usize::MAX { usize::MAX as int } else { ewma_ms * 2 };
            let g = if doubled > 16 { doubled } else { 16 };
            t == (if g != cap && 0 < g < 65536 { Some(g as usize) } else { None::<usize> })
        }),
{
    let doubled = if ewma_ms > usize::MAX / 2 {
        usize::MAX
    } else {
        ewma_ms * 2
    };
    let g = if doubled > 16 {
        doubled
    } else {
        16
    };
    if g != cap && g > 0 && g < 65536 {
        Some(g)
    } else {
        None
    }
}

/// The counters after a packet arrives: one more packet counted, and one
/// more dropped when the jitter buffer did not take it.
pub fn shard_arrival(stats: EngineStats, enqueued: bool) -> (r: EngineStats)
    ensures
        r == (EngineStats {
            pps: bump(stats.pps),
            dropped_packets: if enqueued { stats.dropped_packets } else { bump(stats.dropped_packets) },
            ..stats
        }),
{
    let mut s = stats;
    s.pps = bump_exec(s.pps);
    if !enqueued {
        s.dropped_packets = bump_exec(s.dropped_packets);
    }
    s
}

} // verus!
