//! Packet pacing: a priority-ordered send queue drained through a token
//! bucket that refills at the target bit rate.
use vstd::prelude::*;
use std::collections::VecDeque;
use std::sync::Arc;
use crate::net::SocketAddress;

verus! {

#[verifier::external_type_specification]
#[verifier::external_body]
pub struct ExInstant(std::time::Instant);

/// `Instant::clone`: the same instant (`Instant` is `Copy`).
pub assume_specification[ <std::time::Instant as core::clone::Clone>::clone ](t: &std::time::Instant) -> (r: std::time::Instant)
    ensures
        r == *t,
;

/// `Instant::now`: the current reading of the monotonic clock.
#[verifier::external_body]
fn instant_now() -> (t: std::time::Instant) {
    std::time::Instant::now()
}

/// `Instant::duration_since(..).as_nanos()`: nanoseconds from `earlier` to
/// `later` (zero when `later` is the earlier one). Nothing is stated of the
/// value: it depends on the clock.
#[verifier::external_body]
fn nanos_between(earlier: &std::time::Instant, later: &std::time::Instant) -> (n: u128) {
    later.duration_since(*earlier).as_nanos()
}

/// Scale of the bucket's tokens: one byte is 8 * 10^9 tokens (a bit over
/// a nanosecond), so that refilling at a bit rate is exact.
pub const TOKENS_PER_BYTE: u128 = 8_000_000_000;

#[derive(Clone)]
pub struct PacedPacket {
    pub data: Arc<Vec<u8>>,
    pub destination: SocketAddress,
    pub enqueue_time: std::time::Instant,
    pub priority: PacketPriority,
    pub ssrc: u32,
    pub seq: u16,
}

#[derive(Clone, Copy, Debug, PartialEq, Eq, Structural, PartialOrd, Ord)]
pub enum PacketPriority {
    Low,
    Normal,
    High,
    Critical,
}

/// The rank of a priority: Low 0, Normal 1, High 2, Critical 3.
pub open spec fn rank(p: PacketPriority) -> u8 {
    match p {
        PacketPriority::Low => 0,
        PacketPriority::Normal => 1,
        PacketPriority::High => 2,
        PacketPriority::Critical => 3,
    }
}

impl PacketPriority {
    pub fn rank(&self) -> (r: u8)
        ensures
            r == rank(*self),
    {
        match self {
            PacketPriority::Low => 0,
            PacketPriority::Normal => 1,
            PacketPriority::High => 2,
            PacketPriority::Critical => 3,
        }
    }
}

#[derive(Clone, Copy, Debug)]
pub struct PacerConfig {
    pub target_bitrate_bps: u32,
    pub max_burst_bytes: u32,
    pub queue_size: usize,
    pub wakeup_interval_ms: u32,
}

impl Default for PacerConfig {
    fn default() -> (c: Self)
        ensures
            c.target_bitrate_bps == 3_000_000,
            c.max_burst_bytes == 65536,
            c.queue_size == 2000,
            c.wakeup_interval_ms == 5,
    {
        PacerConfig { target_bitrate_bps: 3_000_000, max_burst_bytes: 64 * 1024, queue_size: 2000, wakeup_interval_ms: 5 }
    }
}

/// A token bucket: tokens (in units of `TOKENS_PER_BYTE` per byte) up to a
/// burst, refilled at a bit rate as time passes.
pub struct TokenBucket {
    tokens: u128,
    max_tokens: u128,
    rate_bps: u32,
    last_refill: std::time::Instant,
}

pub struct BucketView {
    pub tokens: nat,
    pub max_tokens: nat,
    pub rate_bps: u32,
}

impl View for TokenBucket {
    type V = BucketView;

    closed spec fn view(&self) -> BucketView {
        BucketView { tokens: self.tokens as nat, max_tokens: self.max_tokens as nat, rate_bps: self.rate_bps }
    }
}

/// The tokens after `elapsed_ns` nanoseconds at `rate_bps`: one token per
/// bit-nanosecond, capped at the burst.
pub open spec fn refilled(b: BucketView, elapsed_ns: nat) -> nat {
    let t = b.tokens + elapsed_ns * b.rate_bps;
    if t < b.max_tokens {
        t as nat
    } else {
        b.max_tokens
    }
}

/// The bucket after `elapsed_ns` nanoseconds of refilling.
pub open spec fn refilled_view(b: BucketView, elapsed_ns: nat) -> BucketView {
    BucketView { tokens: refilled(b, elapsed_ns), ..b }
}

/// Whether `after` is the bucket `before`, refilled by `elapsed_ns`
/// nanoseconds, then with the tokens of `bytes` taken when there are enough
/// (`ok`), untouched otherwise.
pub open spec fn consumed_after(before: BucketView, after: BucketView, bytes: u32, ok: bool, elapsed_ns: nat) -> bool {
    let b = refilled_view(before, elapsed_ns);
    let need = bytes * TOKENS_PER_BYTE;
    &&& ok == (b.tokens >= need)
    &&& after == (if ok { BucketView { tokens: (b.tokens - need) as nat, ..b } } else { b })
}

impl TokenBucket {
    pub open spec fn wf(&self) -> bool {
        &&& self@.tokens <= self@.max_tokens
        &&& self@.max_tokens <= 0xFFFF_FFFF * TOKENS_PER_BYTE
    }

    /// A full bucket of `capacity_bytes` refilling at `rate_bps`.
    pub fn new(capacity_bytes: u32, rate_bps: u32) -> (b: Self)
        ensures
            b.wf(),
            b@.tokens == capacity_bytes * TOKENS_PER_BYTE,
            b@.max_tokens == capacity_bytes * TOKENS_PER_BYTE,
            b@.rate_bps == rate_bps,
    {
        let max = (capacity_bytes as u128) * TOKENS_PER_BYTE;
        TokenBucket { tokens: max, max_tokens: max, rate_bps, last_refill: instant_now() }
    }

    /// Adds what `elapsed_ns` nanoseconds give, up to the burst.
    pub fn refill_by(&mut self, elapsed_ns: u64)
        requires
            old(self).wf(),
        ensures
            final(self).wf(),
            final(self)@ == (BucketView { tokens: refilled(old(self)@, elapsed_ns as nat), ..old(self)@ }),
    {
        let e = elapsed_ns as u128;
        let r = self.rate_bps as u128;
        assert(e * r <= 0xFFFF_FFFF_FFFF_FFFFu128 * 0xFFFF_FFFFu128) by (nonlinear_arith)
            requires
                e <= 0xFFFF_FFFF_FFFF_FFFFu128,
                r <= 0xFFFF_FFFFu128,
        ;
        let add = e * r;
        let t = self.tokens + add;
        self.tokens = if t < self.max_tokens { t } else { self.max_tokens };
    }

    /// Refills by the time passed since the last refill, per the monotonic
    /// clock.
    pub fn refill(&mut self)
        requires
            old(self).wf(),
        ensures
            final(self).wf(),
            exists|e: nat| final(self)@ == refilled_view(old(self)@, e),
    {
        let now = instant_now();
        let elapsed = nanos_between(&self.last_refill, &now);
        let e = if elapsed > 0xFFFF_FFFF_FFFF_FFFF { 0xFFFF_FFFF_FFFF_FFFFu64 } else { elapsed as u64 };
        self.refill_by(e);
        self.last_refill = now;
        assert(self@ == refilled_view(old(self)@, e as nat));
    }

    /// Takes the tokens for `bytes` when there are enough.
    pub fn consume(&mut self, bytes: u32) -> (ok: bool)
        requires
            old(self).wf(),
        ensures
            final(self).wf(),
            ok == (old(self)@.tokens >= bytes * TOKENS_PER_BYTE),
            ok ==> final(self)@ == (BucketView { tokens: (old(self)@.tokens - bytes * TOKENS_PER_BYTE) as nat, ..old(self)@ }),
            !ok ==> final(self)@ == old(self)@,
    {
        let needed = (bytes as u128) * TOKENS_PER_BYTE;
        if self.tokens >= needed {
            self.tokens = self.tokens - needed;
            true
        } else {
            false
        }
    }

    /// Refills, then takes the tokens for `bytes` when there are enough.
    pub fn try_consume(&mut self, bytes: u32) -> (ok: bool)
        requires
            old(self).wf(),
        ensures
            final(self).wf(),
            exists|e: nat| consumed_after(old(self)@, final(self)@, bytes, ok, e),
    {
        self.refill();
        let ghost mid = self@;
        let ok = self.consume(bytes);
        proof {
            let e = choose|e: nat| mid == refilled_view(old(self)@, e);
            assert(consumed_after(old(self)@, self@, bytes, ok, e));
        }
        ok
    }

    pub fn set_rate(&mut self, bps: u32)
        requires
            old(self).wf(),
        ensures
            final(self).wf(),
            final(self)@ == (BucketView { rate_bps: bps, ..old(self)@ }),
    {
        self.rate_bps = bps;
    }

    /// Whole bytes available, capped at `u32::MAX`.
    pub fn available(&self) -> (n: u32)
        requires
            self.wf(),
        ensures
            n == self@.tokens / (TOKENS_PER_BYTE as nat),
    {
        (self.tokens / TOKENS_PER_BYTE) as u32
    }
}

#[derive(Clone, Copy, Debug, Default)]
pub struct PacerStats {
    pub packets_queued: u64,
    pub packets_sent: u64,
    pub packets_dropped: u64,
    pub current_queue_size: usize,
    pub token_available: u32,
}

/// Whether priorities never rise along the queue.
pub open spec fn priority_sorted(q: Seq<PacedPacket>) -> bool {
    forall|i: int, j: int| 0 <= i < j < q.len() ==> rank(#[trigger] q[i].priority) >= rank(#[trigger] q[j].priority)
}

/// Where a packet of priority `p` goes: before the first packet of lower
/// priority, at the end if there is none.
pub open spec fn insert_pos(q: Seq<PacedPacket>, p: PacketPriority) -> int
    decreases q.len(),
{
    if q.len() == 0 {
        0
    } else if rank(q[0].priority) < rank(p) {
        0
    } else {
        1 + insert_pos(q.drop_first(), p)
    }
}

proof fn lemma_insert_pos(q: Seq<PacedPacket>, p: PacketPriority)
    ensures
        0 <= insert_pos(q, p) <= q.len(),
        forall|k: int| 0 <= k < insert_pos(q, p) ==> rank(q[k].priority) >= rank(p),
        insert_pos(q, p) < q.len() ==> rank(q[insert_pos(q, p)].priority) < rank(p),
    decreases q.len(),
{
    if q.len() > 0 && rank(q[0].priority) >= rank(p) {
        lemma_insert_pos(q.drop_first(), p);
        assert forall|k: int| 0 <= k < insert_pos(q, p) implies rank(q[k].priority) >= rank(p) by {
            if k > 0 {
                assert(q[k] == q.drop_first()[k - 1]);
            }
        }
    }
}

/// Whether `q` is the pacer `p` after one send attempt with the bucket
/// refilled by `elapsed_ns` nanoseconds, returning `r`: with an empty queue
/// nothing changes; otherwise the head packet is sent (taken off the queue,
/// its length in tokens taken from the bucket, counted, and the queue size
/// and whole bytes left recorded) when the refilled bucket holds its length,
/// and only the refill happens when it does not.
pub open spec fn send_step(p: Pacer, q: Pacer, r: Option<PacedPacket>, elapsed_ns: nat) -> bool {
    if p.queue().len() == 0 {
        &&& r is None
        &&& q.queue() == p.queue()
        &&& q.spec_bucket() == p.spec_bucket()
        &&& q.spec_stats() == p.spec_stats()
    } else {
        let head = p.queue()[0];
        let b = refilled_view(p.spec_bucket(), elapsed_ns);
        let need = (head.data@.len() % 0x1_0000_0000) * TOKENS_PER_BYTE;
        if b.tokens >= need {
            &&& r == Some(head)
            &&& q.queue() == p.queue().drop_first()
            &&& q.spec_bucket() == (BucketView { tokens: (b.tokens - need) as nat, ..b })
            &&& q.spec_stats() == (PacerStats {
                packets_sent: (p.spec_stats().packets_sent + 1) as u64,
                current_queue_size: (p.queue().len() - 1) as usize,
                token_available: ((b.tokens - need) / (TOKENS_PER_BYTE as int)) as u32,
                ..p.spec_stats()
            })
        } else {
            &&& r is None
            &&& q.queue() == p.queue()
            &&& q.spec_bucket() == b
            &&& q.spec_stats() == p.spec_stats()
        }
    }
}

pub struct Pacer {
    config: PacerConfig,
    bucket: TokenBucket,
    queue: VecDeque<PacedPacket>,
    stats: PacerStats,
}

impl Pacer {
    pub closed spec fn spec_config(&self) -> PacerConfig {
        self.config
    }

    pub closed spec fn spec_bucket(&self) -> BucketView {
        self.bucket@
    }

    /// The queued packets, in send order.
    pub closed spec fn queue(&self) -> Seq<PacedPacket> {
        self.queue@
    }

    pub closed spec fn spec_stats(&self) -> PacerStats {
        self.stats
    }

    /// The queue is ordered by priority and the bucket is consistent.
    pub closed spec fn wf(&self) -> bool {
        &&& self.bucket.wf()
        &&& priority_sorted(self.queue@)
    }

    pub fn new(config: PacerConfig) -> (p: Self)
        ensures
            p.wf(),
            p.spec_config() == config,
            p.queue().len() == 0,
            p.spec_bucket().tokens == config.max_burst_bytes * TOKENS_PER_BYTE,
            p.spec_bucket().max_tokens == config.max_burst_bytes * TOKENS_PER_BYTE,
            p.spec_bucket().rate_bps == config.target_bitrate_bps,
            p.spec_stats() == (PacerStats {
                packets_queued: 0,
                packets_sent: 0,
                packets_dropped: 0,
                current_queue_size: 0,
                token_available: 0,
            }),
    {
        Pacer {
            config,
            bucket: TokenBucket::new(config.max_burst_bytes, config.target_bitrate_bps),
            queue: VecDeque::new(),
            stats: PacerStats {
                packets_queued: 0,
                packets_sent: 0,
                packets_dropped: 0,
                current_queue_size: 0,
                token_available: 0,
            },
        }
    }

    /// Queues a packet after every packet of equal or higher priority and
    /// before the first of lower priority; drops it (counting the drop)
    /// when the queue is full.
    pub fn enqueue(&mut self, packet: PacedPacket) -> (ok: bool)
        requires
            old(self).wf(),
            old(self).spec_stats().packets_dropped < u64::MAX,
            old(self).spec_stats().packets_queued < u64::MAX,
        ensures
            final(self).wf(),
            final(self).spec_config() == old(self).spec_config(),
            final(self).spec_bucket() == old(self).spec_bucket(),
            ok == (old(self).queue().len() < old(self).spec_config().queue_size),
            !ok ==> final(self).queue() == old(self).queue() && final(self).spec_stats() == (PacerStats {
                packets_dropped: (old(self).spec_stats().packets_dropped + 1) as u64,
                ..old(self).spec_stats()
            }),
            ok ==> {
                let k = insert_pos(old(self).queue(), packet.priority);
                &&& final(self).queue() == old(self).queue().insert(k, packet)
                &&& final(self).spec_stats() == (PacerStats {
                    packets_queued: (old(self).spec_stats().packets_queued + 1) as u64,
                    current_queue_size: (old(self).queue().len() + 1) as usize,
                    ..old(self).spec_stats()
                })
            },
    {
        if self.queue.len() >= self.config.queue_size {
            self.stats.packets_dropped = self.stats.packets_dropped + 1;
            return false;
        }
        let ghost q = self.queue@;
        proof {
            lemma_insert_pos(q, packet.priority);
        }
        let pr = packet.priority.rank();
        let mut pos: usize = 0;
        assert(q.skip(0) =~= q);
        while pos < self.queue.len() && self.queue[pos].priority.rank() >= pr
            invariant
                q == self.queue@,
                pr == rank(packet.priority),
                pos <= q.len(),
                insert_pos(q, packet.priority) == pos + insert_pos(q.skip(pos as int), packet.priority),
            decreases q.len() - pos,
        {
            assert(q.skip(pos as int)[0] == q[pos as int]);
            assert(q.skip(pos as int).drop_first() =~= q.skip(pos + 1));
            assert(insert_pos(q.skip(pos as int), packet.priority) == 1 + insert_pos(
                q.skip(pos + 1),
                packet.priority,
            ));
            pos = pos + 1;
        }
        proof {
            if pos < q.len() {
                assert(q.skip(pos as int)[0] == q[pos as int]);
            } else {
                assert(q.skip(pos as int) =~= Seq::<PacedPacket>::empty());
            }
        }
        let ghost pk = packet;
        if pos < self.queue.len() {
            self.queue.insert(pos, packet);
        } else {
            self.queue.push_back(packet);
            assert(self.queue@ =~= q.insert(pos as int, pk));
        }
        proof {
            let nq = self.queue@;
            assert forall|i: int, j: int| 0 <= i < j < nq.len() implies rank(#[trigger] nq[i].priority) >= rank(
                #[trigger] nq[j].priority,
            ) by {
                if i < pos && j < pos {
                    assert(nq[i] == q[i] && nq[j] == q[j]);
                } else if i < pos && j == pos {
                    assert(nq[i] == q[i]);
                } else if i < pos {
                    assert(nq[i] == q[i] && nq[j] == q[j - 1]);
                } else if i == pos {
                    assert(nq[j] == q[j - 1]);
                } else {
                    assert(nq[i] == q[i - 1] && nq[j] == q[j - 1]);
                }
            }
        }
        self.stats.packets_queued = self.stats.packets_queued + 1;
        self.stats.current_queue_size = self.queue.len();
        true
    }

    /// Sends the packet at the head of the queue when the bucket, refilled
    /// by `elapsed_ns` nanoseconds, holds its length: counts it, records
    /// the queue size and the whole bytes left. Otherwise the packet stays
    /// at the head.
    pub fn try_send_after(&mut self, elapsed_ns: u64) -> (r: Option<PacedPacket>)
        requires
            old(self).wf(),
            old(self).spec_stats().packets_sent < u64::MAX,
        ensures
            final(self).wf(),
            final(self).spec_config() == old(self).spec_config(),
            send_step(*old(self), *final(self), r, elapsed_ns as nat),
    {
        let ghost q = self.queue@;
        let packet = match self.queue.pop_front() {
            Some(p) => p,
            None => {
                return None;
            },
        };
        self.bucket.refill_by(elapsed_ns);
        let packet_len = ((packet.data.len() as u64) % 0x1_0000_0000) as u32;
        if self.bucket.consume(packet_len) {
            self.stats.packets_sent = self.stats.packets_sent + 1;
            self.stats.current_queue_size = self.queue.len();
            self.stats.token_available = self.bucket.available();
            proof {
                assert forall|i: int, j: int| 0 <= i < j < self.queue@.len() implies rank(
                    #[trigger] self.queue@[i].priority,
                ) >= rank(#[trigger] self.queue@[j].priority) by {
                    assert(self.queue@[i] == q[i + 1] && self.queue@[j] == q[j + 1]);
                }
            }
            Some(packet)
        } else {
            self.queue.push_front(packet);
            assert(self.queue@ =~= q);
            None
        }
    }

    /// `try_send_after` with the time since the bucket's last refill, per
    /// the monotonic clock: whatever the time, either the head is sent or
    /// the queue stays as it was.
    pub fn try_send(&mut self) -> (r: Option<PacedPacket>)
        requires
            old(self).wf(),
            old(self).spec_stats().packets_sent < u64::MAX,
        ensures
            final(self).wf(),
            final(self).spec_config() == old(self).spec_config(),
            exists|e: nat| send_step(*old(self), *final(self), r, e),
    {
        if self.queue.len() == 0 {
            assert(send_step(*old(self), *self, None, 0));
            return None;
        }
        let now = instant_now();
        let elapsed = nanos_between(&self.bucket.last_refill, &now);
        let e = if elapsed > 0xFFFF_FFFF_FFFF_FFFF { 0xFFFF_FFFF_FFFF_FFFFu64 } else { elapsed as u64 };
        self.bucket.last_refill = now;
        let ghost mid = *self;
        let r = self.try_send_after(e);
        assert(send_step(*old(self), *self, r, e as nat)) by {
            assert(send_step(mid, *self, r, e as nat));
        }
        r
    }

    pub fn set_target_bitrate(&mut self, bps: u32)
        requires
            old(self).wf(),
        ensures
            final(self).wf(),
            final(self).spec_bucket() == (BucketView { rate_bps: bps, ..old(self).spec_bucket() }),
            final(self).queue() == old(self).queue(),
            final(self).spec_stats() == old(self).spec_stats(),
            final(self).spec_config() == old(self).spec_config(),
    {
        self.bucket.set_rate(bps);
    }

    pub fn stats(&self) -> (s: PacerStats)
        ensures
            s == self.spec_stats(),
    {
        self.stats
    }

    pub fn queue_size(&self) -> (n: usize)
        ensures
            n == self.queue().len(),
    {
        self.queue.len()
    }

    pub fn is_empty(&self) -> (b: bool)
        ensures
            b == (self.queue().len() == 0),
    {
        self.queue.len() == 0
    }
}

impl Default for Pacer {
    fn default() -> (p: Self)
        ensures
            p.wf(),
            p.queue().len() == 0,
            p.spec_config().queue_size == 2000,
            p.spec_config().target_bitrate_bps == 3_000_000,
    {
        Pacer::new(PacerConfig::default())
    }
}

} // verus!
