//! A bounded first-in first-out queue of slot indices.
use vstd::prelude::*;
use crate::ring::{Ring, is_next_pow2, is_pow2, next_pow2};

verus! {

/// A queue of indices whose capacity is twice the requested size rounded
/// up to a power of two. A push onto a full queue is refused.
pub struct IndexRing {
    ring: Ring<usize>,
    capacity: usize,
}

impl View for IndexRing {
    type V = Seq<usize>;

    closed spec fn view(&self) -> Seq<usize> {
        self.ring.items()
    }
}

impl IndexRing {
    pub closed spec fn wf(&self) -> bool {
        &&& self.ring.wf()
        &&& self.ring.cap() == self.capacity
    }

    /// The number of indices the queue can hold.
    pub closed spec fn spec_capacity(&self) -> nat {
        self.capacity as nat
    }

    pub fn new(capacity: usize) -> (r: Self)
        requires
            capacity <= usize::MAX / 4,
        ensures
            r.wf(),
            r@ == Seq::<usize>::empty(),
            exists|p: nat| is_next_pow2(capacity as nat, p) && r.spec_capacity() == 2 * p,
    {
        let p = next_pow2(capacity);
        assert(p <= usize::MAX / 2) by {
            if p > 1 {
                assert(p / 2 < capacity);
            }
        }
        let cap = p * 2;
        IndexRing { ring: Ring::new(cap, 0usize), capacity: cap }
    }

    /// Appends `v`; false when the queue is full.
    pub fn push(&mut self, v: usize) -> (ok: bool)
        requires
            old(self).wf(),
        ensures
            final(self).wf(),
            final(self).spec_capacity() == old(self).spec_capacity(),
            ok == (old(self)@.len() < old(self).spec_capacity()),
            ok ==> final(self)@ == old(self)@.push(v),
            !ok ==> final(self)@ == old(self)@,
    {
        self.ring.push(v)
    }

    /// Removes and returns the oldest index, if any.
    pub fn pop(&mut self) -> (r: Option<usize>)
        requires
            old(self).wf(),
        ensures
            final(self).wf(),
            final(self).spec_capacity() == old(self).spec_capacity(),
            old(self)@.len() == 0 ==> r.is_none() && final(self)@ == old(self)@,
            old(self)@.len() > 0 ==> r == Some(old(self)@[0]) && final(self)@ == old(self)@.drop_first(),
    {
        self.ring.pop()
    }

    pub fn capacity(&self) -> (n: usize)
        requires
            self.wf(),
        ensures
            n == self.spec_capacity(),
    {
        self.capacity
    }

    pub fn len(&self) -> (n: usize)
        requires
            self.wf(),
        ensures
            n == self@.len(),
    {
        self.ring.len()
    }

    pub fn is_empty(&self) -> (b: bool)
        requires
            self.wf(),
        ensures
            b == (self@.len() == 0),
    {
        self.ring.len() == 0
    }
}

} // verus!
