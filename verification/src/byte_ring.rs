//! A bounded first-in first-out queue of bytes.
use vstd::prelude::*;
use crate::ring::{Ring, is_next_pow2, is_pow2, next_pow2};

verus! {

/// A byte queue whose capacity is the requested size rounded up to a
/// power of two. Writes stop when it is full; reads stop when it is empty.
pub struct ByteRing {
    ring: Ring<u8>,
    capacity: usize,
}

impl View for ByteRing {
    type V = Seq<u8>;

    closed spec fn view(&self) -> Seq<u8> {
        self.ring.items()
    }
}

impl ByteRing {
    pub closed spec fn wf(&self) -> bool {
        &&& self.ring.wf()
        &&& self.ring.cap() == self.capacity
        &&& is_pow2(self.capacity as nat)
    }

    /// The number of bytes the queue can hold.
    pub closed spec fn spec_capacity(&self) -> nat {
        self.capacity as nat
    }

    pub fn new(capacity: usize) -> (r: Self)
        requires
            capacity <= usize::MAX / 2 + 1,
        ensures
            r.wf(),
            r@ == Seq::<u8>::empty(),
            is_next_pow2(capacity as nat, r.spec_capacity()),
    {
        let cap = next_pow2(capacity);
        ByteRing { ring: Ring::new(cap, 0u8), capacity: cap }
    }

    /// Appends as many leading bytes of `src` as there is room for and
    /// returns how many were taken.
    pub fn write(&mut self, src: &[u8]) -> (n: usize)
        requires
            old(self).wf(),
        ensures
            final(self).wf(),
            final(self).spec_capacity() == old(self).spec_capacity(),
            n as int == if src@.len() < old(self).spec_capacity() - old(self)@.len() {
                src@.len() as int
            } else {
                old(self).spec_capacity() - old(self)@.len()
            },
            final(self)@ == old(self)@ + src@.subrange(0, n as int),
    {
        proof {
            self.ring.lemma_bounds();
        }
        let mut written: usize = 0;
        while written < src.len()
            invariant
                self.wf(),
                self.spec_capacity() == old(self).spec_capacity(),
                written <= src@.len(),
                self@ == old(self)@ + src@.subrange(0, written as int),
                old(self)@.len() + written <= self.spec_capacity(),
            ensures
                self.wf(),
                self.spec_capacity() == old(self).spec_capacity(),
                written <= src@.len(),
                self@ == old(self)@ + src@.subrange(0, written as int),
                written == src@.len() || self@.len() == self.spec_capacity(),
            decreases src@.len() - written,
        {
            if !self.ring.push(src[written]) {
                break;
            }
            written = written + 1;
            assert(self@ =~= old(self)@ + src@.subrange(0, written as int));
        }
        written
    }

    /// Appends one byte; false when the queue is full.
    pub fn try_write(&mut self, byte: u8) -> (ok: bool)
        requires
            old(self).wf(),
        ensures
            final(self).wf(),
            final(self).spec_capacity() == old(self).spec_capacity(),
            ok == (old(self)@.len() < old(self).spec_capacity()),
            ok ==> final(self)@ == old(self)@.push(byte),
            !ok ==> final(self)@ == old(self)@,
    {
        self.ring.push(byte)
    }

    /// Moves the oldest bytes into the front of `dst`, as many as fit or
    /// are queued, and returns how many were moved.
    pub fn read(&mut self, dst: &mut [u8]) -> (n: usize)
        requires
            old(self).wf(),
        ensures
            final(self).wf(),
            final(self).spec_capacity() == old(self).spec_capacity(),
            n as int == if old(dst)@.len() < old(self)@.len() {
                old(dst)@.len() as int
            } else {
                old(self)@.len() as int
            },
            final(dst)@.len() == old(dst)@.len(),
            final(dst)@.subrange(0, n as int) == old(self)@.subrange(0, n as int),
            final(dst)@.subrange(n as int, old(dst)@.len() as int) == old(dst)@.subrange(
                n as int,
                old(dst)@.len() as int,
            ),
            final(self)@ == old(self)@.subrange(n as int, old(self)@.len() as int),
    {
        let mut read: usize = 0;
        while read < dst.len()
            invariant
                self.wf(),
                self.spec_capacity() == old(self).spec_capacity(),
                read <= dst@.len(),
                read <= old(self)@.len(),
                dst@.len() == old(dst)@.len(),
                forall|j: int| 0 <= j < read ==> dst@[j] == old(self)@[j],
                forall|j: int| read <= j < dst@.len() ==> dst@[j] == old(dst)@[j],
                self@ == old(self)@.subrange(read as int, old(self)@.len() as int),
            ensures
                self.wf(),
                self.spec_capacity() == old(self).spec_capacity(),
                read <= dst@.len(),
                read <= old(self)@.len(),
                dst@.len() == old(dst)@.len(),
                forall|j: int| 0 <= j < read ==> dst@[j] == old(self)@[j],
                forall|j: int| read <= j < dst@.len() ==> dst@[j] == old(dst)@[j],
                self@ == old(self)@.subrange(read as int, old(self)@.len() as int),
                read == dst@.len() || read == old(self)@.len(),
            decreases dst@.len() - read,
        {
            match self.ring.pop() {
                Some(b) => {
                    dst[read] = b;
                    read = read + 1;
                    assert(self@ =~= old(self)@.subrange(read as int, old(self)@.len() as int));
                },
                None => {
                    break;
                },
            }
        }
        assert(dst@.subrange(0, read as int) =~= old(self)@.subrange(0, read as int));
        assert(dst@.subrange(read as int, old(dst)@.len() as int) =~= old(dst)@.subrange(
            read as int,
            old(dst)@.len() as int,
        ));
        read
    }

    pub fn capacity(&self) -> (n: usize)
        requires
            self.wf(),
        ensures
            n == self.spec_capacity(),
    {
        self.capacity
    }

    pub fn len(&self) -> (n: usize)
        requires
            self.wf(),
        ensures
            n == self@.len(),
    {
        self.ring.len()
    }

    pub fn is_empty(&self) -> (b: bool)
        requires
            self.wf(),
        ensures
            b == (self@.len() == 0),
    {
        self.ring.len() == 0
    }

    pub fn is_full(&self) -> (b: bool)
        requires
            self.wf(),
        ensures
            b == (self@.len() >= self.spec_capacity()),
    {
        self.ring.len() >= self.capacity
    }
}

} // verus!
