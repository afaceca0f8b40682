//! The capacities an engine is built with, and how a fed packet fills its
//! slot.
use vstd::prelude::*;
use crate::packet::AudioPacket;

verus! {

pub struct EngineBuilder {
    jitter_capacity: usize,
    slab_capacity: usize,
    index_capacity: usize,
    rtcp_capacity: usize,
}

/// The four capacities of a builder.
pub struct BuilderView {
    pub jitter_capacity: usize,
    pub slab_capacity: usize,
    pub index_capacity: usize,
    pub rtcp_capacity: usize,
}

impl View for EngineBuilder {
    type V = BuilderView;

    closed spec fn view(&self) -> BuilderView {
        BuilderView {
            jitter_capacity: self.jitter_capacity,
            slab_capacity: self.slab_capacity,
            index_capacity: self.index_capacity,
            rtcp_capacity: self.rtcp_capacity,
        }
    }
}

impl EngineBuilder {
    /// Jitter 1024, slab 4096, index 4096, RTCP 256.
    pub fn new() -> (b: Self)
        ensures
            b@ == (BuilderView { jitter_capacity: 1024, slab_capacity: 4096, index_capacity: 4096, rtcp_capacity: 256 }),
    {
        EngineBuilder { jitter_capacity: 1024, slab_capacity: 4096, index_capacity: 4096, rtcp_capacity: 256 }
    }

    pub fn jitter_capacity(self, v: usize) -> (b: Self)
        ensures
            b@ == (BuilderView { jitter_capacity: v, ..self@ }),
    {
        EngineBuilder { jitter_capacity: v, ..self }
    }

    pub fn slab_capacity(self, v: usize) -> (b: Self)
        ensures
            b@ == (BuilderView { slab_capacity: v, ..self@ }),
    {
        EngineBuilder { slab_capacity: v, ..self }
    }

    pub fn index_capacity(self, v: usize) -> (b: Self)
        ensures
            b@ == (BuilderView { index_capacity: v, ..self@ }),
    {
        EngineBuilder { index_capacity: v, ..self }
    }

    pub fn rtcp_capacity(self, v: usize) -> (b: Self)
        ensures
            b@ == (BuilderView { rtcp_capacity: v, ..self@ }),
    {
        EngineBuilder { rtcp_capacity: v, ..self }
    }

    pub fn get_jitter_capacity(&self) -> (v: usize)
        ensures
            v == self@.jitter_capacity,
    {
        self.jitter_capacity
    }

    pub fn get_slab_capacity(&self) -> (v: usize)
        ensures
            v == self@.slab_capacity,
    {
        self.slab_capacity
    }

    pub fn get_index_capacity(&self) -> (v: usize)
        ensures
            v == self@.index_capacity,
    {
        self.index_capacity
    }

    pub fn get_rtcp_capacity(&self) -> (v: usize)
        ensures
            v == self@.rtcp_capacity,
    {
        self.rtcp_capacity
    }
}

/// Fills a packet slot with a fed payload: as many payload bytes as the
/// slot holds are copied to its front (the rest of its buffer is left as
/// it was), and the length, sequence number, arrival time and SSRC are set.
pub fn fill_slot(p: &mut AudioPacket, payload: &[u8], seq: u16, ssrc: u32, now_ns: u64)
    ensures
        ({
            let n = if payload@.len() < 1500 { payload@.len() as int } else { 1500 };
            &&& final(p).len == n
            &&& final(p).data@ == payload@.take(n) + old(p).data@.subrange(n, 1500)
            &&& final(p).seq == seq
            &&& final(p).ssrc == ssrc
            &&& final(p).timestamp == now_ns
            &&& final(p).layer == old(p).layer
        }),
{
    let n = if payload.len() < 1500 {
        payload.len()
    } else {
        1500
    };
    let mut i: usize = 0;
    while i < n
        invariant
            n <= 1500,
            n <= payload@.len(),
            i <= n,
            p.data@.len() == 1500,
            forall|j: int| 0 <= j < i ==> p.data@[j] == payload@[j],
            forall|j: int| i <= j < 1500 ==> p.data@[j] == old(p).data@[j],
            p.layer == old(p).layer,
        decreases n - i,
    {
        p.data[i] = payload[i];
        i = i + 1;
    }
    p.len = n;
    p.seq = seq;
    p.timestamp = now_ns;
    p.ssrc = ssrc;
    assert(p.data@ =~= payload@.take(n as int) + old(p).data@.subrange(n as int, 1500));
}

} // verus!
