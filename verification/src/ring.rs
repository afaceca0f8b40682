//! A bounded first-in first-out queue over a fixed block of slots, the
//! common core of the library's ring buffers.
use vstd::prelude::*;

verus! {

/// Whether `p` is a power of two.
pub open spec fn is_pow2(p: nat) -> bool
    decreases p,
{
    if p == 1 {
        true
    } else if p >= 2 && p % 2 == 0 {
        is_pow2(p / 2)
    } else {
        false
    }
}

/// The smallest power of two that is at least `n` (one for zero).
pub open spec fn is_next_pow2(n: nat, p: nat) -> bool {
    &&& is_pow2(p)
    &&& p >= n
    &&& (p == 1 || p / 2 < n)
}

/// The smallest power of two not below `n`; `n == 0` gives one.
pub fn next_pow2(n: usize) -> (p: usize)
    requires
        n <= usize::MAX / 2 + 1,
    ensures
        is_next_pow2(n as nat, p as nat),
{
    let mut p: usize = 1;
    while p < n
        invariant
            is_pow2(p as nat),
            p == 1 || p / 2 < n,
            n <= usize::MAX / 2 + 1,
        decreases usize::MAX - p,
    {
        assert(is_pow2((p * 2) as nat)) by {
            assert((p * 2) as nat / 2 == p as nat);
        }
        p = p * 2;
    }
    p
}

/// Position of the `i`-th queued element, for a queue starting at `head`
/// over `cap` slots.
pub open spec fn slot_of(head: int, i: int, cap: int) -> int {
    if head + i < cap {
        head + i
    } else {
        head + i - cap
    }
}

pub struct Ring<T> {
    buf: Vec<T>,
    head: usize,
    count: usize,
}

impl<T: Copy> Ring<T> {
    pub closed spec fn wf(&self) -> bool {
        &&& self.buf@.len() > 0
        &&& self.head < self.buf@.len()
        &&& self.count <= self.buf@.len()
    }

    /// The queued elements, oldest first.
    pub closed spec fn items(&self) -> Seq<T> {
        Seq::new(
            self.count as nat,
            |i: int| self.buf@[slot_of(self.head as int, i, self.buf@.len() as int)],
        )
    }

    /// The number of slots.
    pub closed spec fn cap(&self) -> nat {
        self.buf@.len()
    }

    /// The content of every slot, in slot order, including slots whose
    /// element has already left the queue.
    pub closed spec fn slots(&self) -> Seq<T> {
        self.buf@
    }

    /// The slot that the next pushed element goes to.
    pub closed spec fn tail_slot(&self) -> int {
        slot_of(self.head as int, self.count as int, self.buf@.len() as int)
    }

    pub proof fn lemma_bounds(&self)
        requires
            self.wf(),
        ensures
            self.items().len() <= self.cap(),
            self.cap() > 0,
            0 <= self.tail_slot() < self.cap(),
            self.slots().len() == self.cap(),
    {
    }

    pub fn new(cap: usize, fill: T) -> (r: Self)
        requires
            cap > 0,
        ensures
            r.wf(),
            r.items() == Seq::<T>::empty(),
            r.cap() == cap,
            r.slots() == Seq::new(cap as nat, |i: int| fill),
            r.tail_slot() == 0,
    {
        let mut buf: Vec<T> = Vec::new();
        let mut i: usize = 0;
        while i < cap
            invariant
                i <= cap,
                buf@ == Seq::new(i as nat, |j: int| fill),
            decreases cap - i,
        {
            buf.push(fill);
            i = i + 1;
            assert(buf@ =~= Seq::new(i as nat, |j: int| fill));
        }
        let r = Ring { buf, head: 0, count: 0 };
        assert(r.items() =~= Seq::<T>::empty());
        r
    }

    pub fn len(&self) -> (n: usize)
        requires
            self.wf(),
        ensures
            n == self.items().len(),
    {
        self.count
    }

    pub fn capacity(&self) -> (n: usize)
        requires
            self.wf(),
        ensures
            n == self.cap(),
    {
        self.buf.len()
    }

    pub fn push(&mut self, v: T) -> (ok: bool)
        requires
            old(self).wf(),
        ensures
            final(self).wf(),
            final(self).cap() == old(self).cap(),
            ok == (old(self).items().len() < old(self).cap()),
            ok ==> final(self).items() == old(self).items().push(v),
            ok ==> final(self).slots() == old(self).slots().update(old(self).tail_slot(), v),
            ok ==> final(self).tail_slot() == slot_of(old(self).tail_slot(), 1, old(self).cap() as int),
            !ok ==> *final(self) == *old(self),
    {
        let cap = self.buf.len();
        if self.count == cap {
            return false;
        }
        let t = if self.count < cap - self.head {
            self.head + self.count
        } else {
            self.count - (cap - self.head)
        };
        self.buf.set(t, v);
        self.count = self.count + 1;
        assert(self.items() =~= old(self).items().push(v));
        true
    }

    pub fn pop(&mut self) -> (r: Option<T>)
        requires
            old(self).wf(),
        ensures
            final(self).wf(),
            final(self).cap() == old(self).cap(),
            final(self).slots() == old(self).slots(),
            final(self).tail_slot() == old(self).tail_slot(),
            old(self).items().len() == 0 ==> r.is_none() && final(self).items() == old(self).items(),
            old(self).items().len() > 0 ==> r == Some(old(self).items()[0]) && final(self).items()
                == old(self).items().drop_first(),
    {
        if self.count == 0 {
            return None;
        }
        let v = self.buf[self.head];
        self.head = if self.head < self.buf.len() - 1 {
            self.head + 1
        } else {
            0
        };
        self.count = self.count - 1;
        assert(self.items() =~= old(self).items().drop_first());
        Some(v)
    }

    /// The content of slot `i`.
    pub fn slot(&self, i: usize) -> (v: T)
        requires
            self.wf(),
            i < self.cap(),
        ensures
            v == self.slots()[i as int],
    {
        self.buf[i]
    }

    /// The slot that the next pushed element goes to.
    pub fn next_slot(&self) -> (i: usize)
        requires
            self.wf(),
        ensures
            i == self.tail_slot(),
            i < self.cap(),
    {
        if self.count < self.buf.len() - self.head {
            self.head + self.count
        } else {
            self.count - (self.buf.len() - self.head)
        }
    }
}

} // verus!
