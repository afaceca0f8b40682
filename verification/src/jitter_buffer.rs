//! A queue of received audio packet slots that also tracks arrival delay
//! and sequence gaps.
use vstd::prelude::*;
use crate::ring::{Ring, is_next_pow2, is_pow2, next_pow2, slot_of};

verus! {

/// The slot one step before `p` in a block of `cap` slots, wrapping.
pub open spec fn slot_before(p: int, cap: int) -> int {
    if p == 0 { cap - 1 } else { p - 1 }
}

/// The slot reached after walking `i + 1` steps backwards from slot `t`.
pub open spec fn walk_back(t: int, i: nat, cap: int) -> int
    decreases i,
{
    if i == 0 {
        slot_before(t, cap)
    } else {
        slot_before(walk_back(t, (i - 1) as nat, cap), cap)
    }
}

proof fn lemma_walk_back_bounds(t: int, i: nat, cap: int)
    requires
        0 <= t < cap,
    ensures
        0 <= walk_back(t, i, cap) < cap,
    decreases i,
{
    if i > 0 {
        lemma_walk_back_bounds(t, (i - 1) as nat, cap);
    }
}

/// The smoothed delay after a sample: nine tenths of the old value plus
/// one tenth of the new sample, rounded down.
pub open spec fn ewma_next(old: u64, sample: u64) -> u64 {
    ((sample + old * 9) / 10) as u64
}

/// The observable state of the buffer besides its queue.
pub struct JitterView {
    pub last_seq: u32,
    pub gap_deadline_ns: u64,
    pub ewma_delay_ns: u64,
}

pub struct AudioJitterBuffer {
    ring: Ring<usize>,
    capacity: usize,
    last_seq: u32,
    gap_deadline_ns: u64,
    ewma_delay_ns: u64,
}

impl View for AudioJitterBuffer {
    type V = JitterView;

    closed spec fn view(&self) -> JitterView {
        JitterView {
            last_seq: self.last_seq,
            gap_deadline_ns: self.gap_deadline_ns,
            ewma_delay_ns: self.ewma_delay_ns,
        }
    }
}

/// Whether a packet `seq` arriving after `last_seq` leaves a gap: some
/// packet was seen before (a nonzero last number) and `seq` does not follow
/// it directly.
pub open spec fn is_gap(last_seq: u32, seq: u16) -> bool {
    (last_seq as u16) != 0 && seq != ((last_seq as u16) + 1) % 0x1_0000
}

impl AudioJitterBuffer {
    pub closed spec fn wf(&self) -> bool {
        &&& self.ring.wf()
        &&& self.ring.cap() == self.capacity
        &&& is_pow2(self.capacity as nat)
    }

    /// The queued slot indices, oldest first.
    pub closed spec fn items(&self) -> Seq<usize> {
        self.ring.items()
    }

    /// Every slot of the queue's block, including stale ones.
    pub closed spec fn slots(&self) -> Seq<usize> {
        self.ring.slots()
    }

    /// The slot the next index goes to.
    pub closed spec fn tail_slot(&self) -> int {
        self.ring.tail_slot()
    }

    pub closed spec fn spec_capacity(&self) -> nat {
        self.capacity as nat
    }

    /// The sequence number of the packet in the slot reached after walking
    /// `k + 1` steps back from the tail.
    pub open spec fn seq_back(&self, slot_seqs: Seq<u16>, k: int) -> u16 {
        slot_seqs[self.slots()[walk_back(self.tail_slot(), k as nat, self.spec_capacity() as int)] as int]
    }

    pub fn new(capacity: usize) -> (b: Self)
        requires
            capacity <= usize::MAX / 2 + 1,
        ensures
            b.wf(),
            b.items() == Seq::<usize>::empty(),
            is_next_pow2(capacity as nat, b.spec_capacity()),
            b.slots() == Seq::new(b.spec_capacity(), |i: int| 0usize),
            b@ == (JitterView { last_seq: 0, gap_deadline_ns: 0, ewma_delay_ns: 0 }),
    {
        let cap = next_pow2(capacity);
        AudioJitterBuffer { ring: Ring::new(cap, 0usize), capacity: cap, last_seq: 0, gap_deadline_ns: 0, ewma_delay_ns: 0 }
    }

    /// Queues a slot index; false when full.
    pub fn push_index(&mut self, idx_val: usize) -> (ok: bool)
        requires
            old(self).wf(),
        ensures
            final(self).wf(),
            final(self).spec_capacity() == old(self).spec_capacity(),
            final(self)@ == old(self)@,
            ok == (old(self).items().len() < old(self).spec_capacity()),
            ok ==> final(self).items() == old(self).items().push(idx_val),
            !ok ==> final(self).items() == old(self).items() && final(self).slots() == old(self).slots(),
    {
        self.ring.push(idx_val)
    }

    /// Removes and returns the oldest slot index, if any.
    pub fn pop_index(&mut self) -> (r: Option<usize>)
        requires
            old(self).wf(),
        ensures
            final(self).wf(),
            final(self).spec_capacity() == old(self).spec_capacity(),
            final(self)@ == old(self)@,
            final(self).slots() == old(self).slots(),
            final(self).tail_slot() == old(self).tail_slot(),
            old(self).items().len() == 0 ==> r.is_none() && final(self).items() == old(self).items(),
            old(self).items().len() > 0 ==> r == Some(old(self).items()[0]) && final(self).items()
                == old(self).items().drop_first(),
    {
        self.ring.pop()
    }

    /// Queues the slot of a packet with sequence number `seq` sent at
    /// `pkt_timestamp_ns` that arrived at `arrival_ns`; folds its delay into
    /// the average and, when it leaves a gap, arms a NACK deadline 20 ms out
    /// (unless one is armed). False, with nothing changed, when full.
    pub fn push_index_with_seq(&mut self, idx_val: usize, arrival_ns: u64, seq: u16, pkt_timestamp_ns: u64) -> (ok: bool)
        requires
            old(self).wf(),
            is_gap(old(self)@.last_seq, seq) ==> arrival_ns <= u64::MAX - 20_000_000,
        ensures
            final(self).wf(),
            final(self).spec_capacity() == old(self).spec_capacity(),
            ok == (old(self).items().len() < old(self).spec_capacity()),
            !ok ==> final(self).items() == old(self).items() && final(self)@ == old(self)@,
            ok ==> {
                let sample: u64 = if arrival_ns > pkt_timestamp_ns { (arrival_ns - pkt_timestamp_ns) as u64 } else { 0 };
                &&& final(self).items() == old(self).items().push(idx_val)
                &&& final(self)@.ewma_delay_ns == ewma_next(old(self)@.ewma_delay_ns, sample)
                &&& final(self)@.last_seq == seq as u32
                &&& final(self)@.gap_deadline_ns == if is_gap(old(self)@.last_seq, seq) {
                    if old(self)@.gap_deadline_ns == 0 { (arrival_ns + 20_000_000) as u64 } else { old(self)@.gap_deadline_ns }
                } else {
                    0
                }
            },
    {
        proof {
            self.ring.lemma_bounds();
        }
        if self.ring.len() >= self.capacity {
            return false;
        }
        let _ = self.ring.push(idx_val);
        let sample = arrival_ns.saturating_sub(pkt_timestamp_ns);
        let old_ewma = self.ewma_delay_ns;
        let new_ewma = ((sample as u128) + (old_ewma as u128) * 9) / 10;
        assert(new_ewma <= u64::MAX) by (nonlinear_arith)
            requires
                new_ewma == ((sample as u128) + (old_ewma as u128) * 9) / 10,
                sample <= u64::MAX,
                old_ewma <= u64::MAX,
        ;
        self.ewma_delay_ns = new_ewma as u64;
        let prev = #[verifier::truncate] (self.last_seq as u16);
        let expected = prev.wrapping_add(1);
        if prev != 0 && seq != expected {
            let dd = arrival_ns + 20_000_000u64;
            if self.gap_deadline_ns == 0 {
                self.gap_deadline_ns = dd;
            }
        } else {
            self.gap_deadline_ns = 0;
        }
        self.last_seq = seq as u32;
        true
    }

    /// Fires (once) when an armed NACK deadline has passed.
    pub fn check_and_emit_nack(&mut self, now_ns: u64) -> (fire: bool)
        requires
            old(self).wf(),
        ensures
            final(self).wf(),
            final(self).spec_capacity() == old(self).spec_capacity(),
            final(self).items() == old(self).items(),
            final(self).slots() == old(self).slots(),
            final(self).tail_slot() == old(self).tail_slot(),
            fire == (old(self)@.gap_deadline_ns != 0 && now_ns >= old(self)@.gap_deadline_ns),
            final(self)@ == if fire { JitterView { gap_deadline_ns: 0, ..old(self)@ } } else { old(self)@ },
    {
        let d = self.gap_deadline_ns;
        if d != 0 && now_ns >= d {
            self.gap_deadline_ns = 0;
            return true;
        }
        false
    }

    pub fn capacity(&self) -> (n: usize)
        requires
            self.wf(),
        ensures
            n == self.spec_capacity(),
    {
        self.capacity
    }

    pub fn get_ewma_delay_ms(&self) -> (ms: u64)
        ensures
            ms == self@.ewma_delay_ns / 1_000_000,
    {
        self.ewma_delay_ns / 1_000_000u64
    }

    /// Writes, newest first, the sequence numbers of the packets in the most
    /// recently written slots (up to the capacity and at most 1024) into
    /// `out`, as far as it reaches; `slot_seqs[k]` is the sequence number of
    /// the packet held in packet slot `k`. Returns how many were written.
    pub fn collect_missing(&self, slot_seqs: &[u16], out: &mut [u16]) -> (n: usize)
        requires
            self.wf(),
            forall|j: int| 0 <= j < self.slots().len() ==> (#[trigger] self.slots()[j]) < slot_seqs@.len(),
        ensures
            ({
                let window: int = if self.spec_capacity() < 1024 { self.spec_capacity() as int } else { 1024 };
                let m: int = if window < old(out)@.len() { window } else { old(out)@.len() as int };
                &&& n == m
                &&& final(out)@.len() == old(out)@.len()
                &&& forall|k: int| 0 <= k < m ==> final(out)@[k] == slot_seqs@[self.slots()[walk_back(self.tail_slot(), k as nat, self.spec_capacity() as int)] as int]
                &&& forall|k: int| m <= k < old(out)@.len() ==> final(out)@[k] == old(out)@[k]
            }),
    {
        proof {
            self.ring.lemma_bounds();
        }
        let cap = self.capacity;
        let window = if cap < 1024 { cap } else { 1024 };
        let mut written: usize = 0;
        let mut p = self.ring.next_slot();
        let mut i: usize = 0;
        while i < window
            invariant
                self.wf(),
                cap == self.spec_capacity(),
                window <= cap,
                i <= window,
                written == i,
                written <= out@.len(),
                0 <= p < cap,
                i == 0 ==> p == self.tail_slot(),
                i > 0 ==> p == walk_back(self.tail_slot(), (i - 1) as nat, cap as int),
                forall|j: int| 0 <= j < self.slots().len() ==> (#[trigger] self.slots()[j]) < slot_seqs@.len(),
                out@.len() == old(out)@.len(),
                forall|k: int| 0 <= k < i ==> out@[k] == slot_seqs@[self.slots()[walk_back(self.tail_slot(), k as nat, cap as int)] as int],
                forall|k: int| i <= k < out@.len() ==> out@[k] == old(out)@[k],
            ensures
                written <= window,
                written <= out@.len(),
                written == window || written == out@.len(),
                out@.len() == old(out)@.len(),
                forall|k: int| 0 <= k < written ==> out@[k] == slot_seqs@[self.slots()[walk_back(self.tail_slot(), k as nat, cap as int)] as int],
                forall|k: int| written <= k < out@.len() ==> out@[k] == old(out)@[k],
            decreases window - i,
        {
            proof {
                self.ring.lemma_bounds();
                if i > 0 {
                    lemma_walk_back_bounds(self.tail_slot(), (i - 1) as nat, cap as int);
                }
            }
            if written >= out.len() {
                break;
            }
            p = if p == 0 { cap - 1 } else { p - 1 };
            let slot = self.ring.slot(p);
            assert(slot < slot_seqs@.len()) by {
                assert(slot == self.slots()[p as int]);
            }
            out[written] = slot_seqs[slot];
            written = written + 1;
            i = i + 1;
        }
        written
    }

    /// The sequence number in the most recently written packet slot, among
    /// the last 64 visited walking backwards (wrapping around a smaller
    /// block), that is not zero, with a mask whose lowest bit says whether
    /// one was found.
    pub fn twcc_summary(&self, slot_seqs: &[u16]) -> (r: (u16, u64))
        requires
            self.wf(),
            forall|j: int| 0 <= j < self.slots().len() ==> (#[trigger] self.slots()[j]) < slot_seqs@.len(),
        ensures
            (exists|k: int| 0 <= k < 64 && #[trigger] self.seq_back(slot_seqs@, k) != 0) ==> r.1 == 1
                && exists|k: int| 0 <= k < 64 && #[trigger] self.seq_back(slot_seqs@, k) == r.0 && r.0 != 0
                && forall|j: int| 0 <= j < k ==> #[trigger] self.seq_back(slot_seqs@, j) == 0,
            !(exists|k: int| 0 <= k < 64 && #[trigger] self.seq_back(slot_seqs@, k) != 0) ==> r == (0u16, 0u64),
    {
        proof {
            self.ring.lemma_bounds();
        }
        let cap = self.capacity;
        let mut mask: u64 = 0;
        let mut largest: u16 = 0;
        let mut p = self.ring.next_slot();
        let mut i: usize = 0;
        while i < 64
            invariant
                self.wf(),
                cap == self.spec_capacity(),
                i <= 64,
                0 <= p < cap,
                i == 0 ==> p == self.tail_slot(),
                i > 0 ==> p == walk_back(self.tail_slot(), (i - 1) as nat, cap as int),
                forall|j: int| 0 <= j < self.slots().len() ==> (#[trigger] self.slots()[j]) < slot_seqs@.len(),
                largest == 0 ==> mask == 0 && forall|j: int| 0 <= j < i ==> #[trigger] self.seq_back(slot_seqs@, j) == 0,
                largest != 0 ==> mask == 1 && exists|k: int| 0 <= k < i && #[trigger] self.seq_back(slot_seqs@, k) == largest
                    && forall|j: int| 0 <= j < k ==> #[trigger] self.seq_back(slot_seqs@, j) == 0,
            decreases 64 - i,
        {
            proof {
                self.ring.lemma_bounds();
                if i > 0 {
                    lemma_walk_back_bounds(self.tail_slot(), (i - 1) as nat, cap as int);
                }
            }
            p = if p == 0 { cap - 1 } else { p - 1 };
            let slot = self.ring.slot(p);
            assert(slot < slot_seqs@.len()) by {
                assert(slot == self.slots()[p as int]);
            }
            let seq = slot_seqs[slot];
            assert(seq == self.seq_back(slot_seqs@, i as int));
            if seq != 0 {
                if largest == 0 {
                    largest = seq;
                }
                mask = mask | 1;
                assert(mask == 1) by (bit_vector)
                    requires
                        mask == (0u64 | 1u64) || mask == (1u64 | 1u64),
                ;
            }
            i = i + 1;
        }
        (largest, mask)
    }
}

/// The smoothed delay moves a tenth of the way toward each sample: from
/// zero, one sample gives a tenth of it; toward a larger sample it rises
/// by a tenth of the gap, rounded down; toward a smaller one it falls by a
/// tenth of the gap, rounded up; so it always stays between the old value
/// and the sample.
pub proof fn ewma_tenth_law(old: u64, sample: u64)
    ensures
        old == 0 ==> ewma_next(old, sample) == sample / 10,
        sample >= old ==> ewma_next(old, sample) - old == (sample - old) / 10,
        sample < old ==> old - ewma_next(old, sample) == (old - sample + 9) / 10,
        (old <= ewma_next(old, sample) <= sample) || (sample <= ewma_next(old, sample) <= old),
{
    let a = sample as int;
    let b = old as int;
    if a >= b {
        let d = a - b;
        assert((a + b * 9) / 10 == b + d / 10) by (nonlinear_arith)
            requires
                d == a - b,
                d >= 0,
        ;
    } else {
        let d = b - a;
        assert((a + b * 9) / 10 == b - (d + 9) / 10) by (nonlinear_arith)
            requires
                d == b - a,
                d > 0,
                a >= 0,
        ;
    }
}

} // verus!
