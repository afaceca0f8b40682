//! A bounded first-in first-out queue of latency samples.
use vstd::prelude::*;
use crate::ring::{Ring, is_next_pow2, is_pow2, next_pow2};

verus! {

/// A queue of 64-bit samples whose capacity is the requested size rounded
/// up to a power of two. A push onto a full queue is refused.
pub struct LatencyRing {
    ring: Ring<u64>,
    capacity: usize,
}

impl View for LatencyRing {
    type V = Seq<u64>;

    closed spec fn view(&self) -> Seq<u64> {
        self.ring.items()
    }
}

impl LatencyRing {
    pub closed spec fn wf(&self) -> bool {
        &&& self.ring.wf()
        &&& self.ring.cap() == self.capacity
        &&& is_pow2(self.capacity as nat)
    }

    /// The number of samples the queue can hold.
    pub closed spec fn spec_capacity(&self) -> nat {
        self.capacity as nat
    }

    pub fn new(capacity: usize) -> (r: Self)
        requires
            capacity <= usize::MAX / 2 + 1,
        ensures
            r.wf(),
            r@ == Seq::<u64>::empty(),
            is_next_pow2(capacity as nat, r.spec_capacity()),
    {
        let cap = next_pow2(capacity);
        LatencyRing { ring: Ring::new(cap, 0u64), capacity: cap }
    }

    /// Appends `v`; false when the queue is full.
    pub fn push(&mut self, v: u64) -> (ok: bool)
        requires
            old(self).wf(),
        ensures
            final(self).wf(),
            final(self).spec_capacity() == old(self).spec_capacity(),
            ok == (old(self)@.len() < old(self).spec_capacity()),
            ok ==> final(self)@ == old(self)@.push(v),
            !ok ==> final(self)@ == old(self)@,
    {
        self.ring.push(v)
    }

    /// Moves the oldest samples into the front of `out`, as many as fit or
    /// are queued, and returns how many were moved.
    pub fn pop_batch(&mut self, out: &mut [u64]) -> (n: usize)
        requires
            old(self).wf(),
        ensures
            final(self).wf(),
            final(self).spec_capacity() == old(self).spec_capacity(),
            n as int == if old(out)@.len() < old(self)@.len() {
                old(out)@.len() as int
            } else {
                old(self)@.len() as int
            },
            final(out)@.len() == old(out)@.len(),
            final(out)@.subrange(0, n as int) == old(self)@.subrange(0, n as int),
            final(out)@.subrange(n as int, old(out)@.len() as int) == old(out)@.subrange(
                n as int,
                old(out)@.len() as int,
            ),
            final(self)@ == old(self)@.subrange(n as int, old(self)@.len() as int),
    {
        let mut written: usize = 0;
        while written < out.len()
            invariant
                self.wf(),
                self.spec_capacity() == old(self).spec_capacity(),
                written <= out@.len(),
                written <= old(self)@.len(),
                out@.len() == old(out)@.len(),
                forall|j: int| 0 <= j < written ==> out@[j] == old(self)@[j],
                forall|j: int| written <= j < out@.len() ==> out@[j] == old(out)@[j],
                self@ == old(self)@.subrange(written as int, old(self)@.len() as int),
            ensures
                self.wf(),
                self.spec_capacity() == old(self).spec_capacity(),
                written <= out@.len(),
                written <= old(self)@.len(),
                out@.len() == old(out)@.len(),
                forall|j: int| 0 <= j < written ==> out@[j] == old(self)@[j],
                forall|j: int| written <= j < out@.len() ==> out@[j] == old(out)@[j],
                self@ == old(self)@.subrange(written as int, old(self)@.len() as int),
                written == out@.len() || written == old(self)@.len(),
            decreases out@.len() - written,
        {
            match self.ring.pop() {
                Some(v) => {
                    out[written] = v;
                    written = written + 1;
                    assert(self@ =~= old(self)@.subrange(written as int, old(self)@.len() as int));
                },
                None => {
                    break;
                },
            }
        }
        assert(out@.subrange(0, written as int) =~= old(self)@.subrange(0, written as int));
        assert(out@.subrange(written as int, old(out)@.len() as int) =~= old(out)@.subrange(
            written as int,
            old(out)@.len() as int,
        ));
        written
    }

    pub fn capacity(&self) -> (n: usize)
        requires
            self.wf(),
        ensures
            n == self.spec_capacity(),
    {
        self.capacity
    }

    pub fn len(&self) -> (n: usize)
        requires
            self.wf(),
        ensures
            n == self@.len(),
    {
        self.ring.len()
    }

    pub fn is_empty(&self) -> (b: bool)
        requires
            self.wf(),
        ensures
            b == (self@.len() == 0),
    {
        self.ring.len() == 0
    }
}

} // verus!
