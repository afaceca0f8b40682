//! A received media packet held in a fixed-size buffer.
use vstd::prelude::*;
use crate::wire::{u16_be, u32_be};

verus! {

/// Size of the packet buffer.
pub const PACKET_CAPACITY: usize = 1500;

pub struct AudioPacket {
    pub len: usize,
    pub data: [u8; 1500],
    pub timestamp: u64,
    pub seq: u16,
    pub ssrc: u32,
    pub layer: u8,
}

/// The packet read from `s`: the first 1500 bytes are kept, the rest of the
/// buffer is zero; the sequence number, timestamp and SSRC are read
/// big-endian from bytes 2, 4 and 8 of the RTP header when the kept bytes
/// reach that far, and are zero otherwise.
pub open spec fn packet_of(s: Seq<u8>, p: AudioPacket) -> bool {
    let len: int = if s.len() < 1500 { s.len() as int } else { 1500 };
    &&& p.len == len
    &&& forall|i: int| 0 <= i < len ==> p.data@[i] == s[i]
    &&& forall|i: int| len <= i < 1500 ==> p.data@[i] == 0
    &&& p.seq == if len >= 4 { u16_be(s[2], s[3]) } else { 0 }
    &&& p.timestamp == if len >= 8 { u32_be(s[4], s[5], s[6], s[7]) as u64 } else { 0 }
    &&& p.ssrc == if len >= 12 { u32_be(s[8], s[9], s[10], s[11]) } else { 0 }
    &&& p.layer == 0
}

/// `&mut a[..n]`: the first `n` bytes of `a`, lent out; what is written
/// through the result lands in those bytes and the rest of `a` keeps its
/// contents.
#[verifier::external_body]
fn prefix_mut(a: &mut [u8; 1500], n: usize) -> (r: &mut [u8])
    requires
        n <= 1500,
    ensures
        r@ == old(a)@.subrange(0, n as int),
        final(a)@ == final(r)@ + old(a)@.subrange(n as int, 1500),
{
    &mut a[..n]
}

impl AudioPacket {
    pub fn from_slice(s: &[u8]) -> (p: Self)
        ensures
            packet_of(s@, p),
    {
        let mut data = [0u8; 1500];
        let len = if s.len() < 1500 { s.len() } else { 1500 };
        let mut i: usize = 0;
        while i < len
            invariant
                len <= 1500,
                len <= s@.len(),
                i <= len,
                data@.len() == 1500,
                forall|j: int| 0 <= j < i ==> data@[j] == s@[j],
                forall|j: int| i <= j < 1500 ==> data@[j] == 0,
            decreases len - i,
        {
            data[i] = s[i];
            i = i + 1;
        }
        let seq: u16 = if len >= 4 { (data[2] as u16) * 256 + (data[3] as u16) } else { 0 };
        let timestamp: u64 = if len >= 8 {
            ((data[4] as u32) * 0x100_0000 + (data[5] as u32) * 0x1_0000 + (data[6] as u32) * 256 + (data[7] as u32)) as u64
        } else {
            0
        };
        let ssrc: u32 = if len >= 12 {
            (data[8] as u32) * 0x100_0000 + (data[9] as u32) * 0x1_0000 + (data[10] as u32) * 256 + (data[11] as u32)
        } else {
            0
        };
        AudioPacket { len, data, timestamp, seq, ssrc, layer: 0 }
    }

    /// The filled part of the buffer.
    pub fn payload_mut(&mut self) -> (r: &mut [u8])
        requires
            old(self).len <= 1500,
        ensures
            r@ == old(self).data@.subrange(0, old(self).len as int),
            final(self).data@ == final(r)@ + old(self).data@.subrange(old(self).len as int, 1500),
            final(self).len == old(self).len,
            final(self).seq == old(self).seq,
            final(self).timestamp == old(self).timestamp,
            final(self).ssrc == old(self).ssrc,
            final(self).layer == old(self).layer,
    {
        let n = self.len;
        prefix_mut(&mut self.data, n)
    }

    /// Whether `extra` more bytes fit after the filled part.
    pub fn reserve_tail(&self, extra: usize) -> (b: bool)
        ensures
            b == (self.len + extra <= 1500),
    {
        if self.len <= 1500 && extra <= 1500 - self.len {
            true
        } else {
            false
        }
    }
}

} // verus!
