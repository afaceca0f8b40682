//! Big-endian integer encodings shared by the wire formats of the library.
use vstd::prelude::*;

verus! {

/// The two bytes of `x`, most significant first.
pub open spec fn be16(x: u16) -> Seq<u8> {
    seq![(x / 256) as u8, (x % 256) as u8]
}

/// The four bytes of `x`, most significant first.
pub open spec fn be32(x: u32) -> Seq<u8> {
    seq![
        (x / 0x100_0000) as u8,
        ((x / 0x1_0000) % 256) as u8,
        ((x / 256) % 256) as u8,
        (x % 256) as u8,
    ]
}

/// The eight bytes of `x`, most significant first.
pub open spec fn be64(x: u64) -> Seq<u8> {
    be32((x / 0x1_0000_0000) as u32) + be32((x % 0x1_0000_0000) as u32)
}

/// The value of two big-endian bytes.
pub open spec fn u16_be(b0: u8, b1: u8) -> u16 {
    (b0 * 256 + b1) as u16
}

/// The value of four big-endian bytes.
pub open spec fn u32_be(b0: u8, b1: u8, b2: u8, b3: u8) -> u32 {
    (b0 * 0x100_0000 + b1 * 0x1_0000 + b2 * 256 + b3) as u32
}

/// The value of the first eight bytes of `s`, read big-endian.
pub open spec fn u64_be(s: Seq<u8>) -> u64 {
    (u32_be(s[0], s[1], s[2], s[3]) * 0x1_0000_0000 + u32_be(s[4], s[5], s[6], s[7])) as u64
}

pub proof fn lemma_be16_roundtrip(x: u16)
    ensures
        u16_be(be16(x)[0], be16(x)[1]) == x,
        be16(x).len() == 2,
{
}

pub proof fn lemma_be32_roundtrip(x: u32)
    ensures
        u32_be(be32(x)[0], be32(x)[1], be32(x)[2], be32(x)[3]) == x,
        be32(x).len() == 4,
{
}

pub proof fn lemma_be64_roundtrip(x: u64)
    ensures
        u64_be(be64(x)) == x,
        be64(x).len() == 8,
{
    lemma_be32_roundtrip((x / 0x1_0000_0000) as u32);
    lemma_be32_roundtrip((x % 0x1_0000_0000) as u32);
}

/// Big-endian bytes of a 16-bit value.
pub fn u16_to_be(x: u16) -> (r: [u8; 2])
    ensures
        r@ == be16(x),
{
    [(x / 256) as u8, (x % 256) as u8]
}

/// Big-endian bytes of a 32-bit value.
pub fn u32_to_be(x: u32) -> (r: [u8; 4])
    ensures
        r@ == be32(x),
{
    let r = [(x / 0x100_0000) as u8, ((x / 0x1_0000) % 256) as u8, ((x / 256) % 256) as u8, (x % 256) as u8];
    assert(r@ =~= be32(x));
    r
}

/// Reads a big-endian 16-bit value at `off`.
pub fn read_u16(buf: &[u8], off: usize) -> (r: u16)
    requires
        off + 2 <= buf@.len(),
    ensures
        r == u16_be(buf@[off as int], buf@[off + 1]),
{
    (buf[off] as u16) * 256 + (buf[off + 1] as u16)
}

/// Reads a big-endian 32-bit value at `off`.
pub fn read_u32(buf: &[u8], off: usize) -> (r: u32)
    requires
        off + 4 <= buf@.len(),
    ensures
        r == u32_be(buf@[off as int], buf@[off + 1], buf@[off + 2], buf@[off + 3]),
{
    (buf[off] as u32) * 0x100_0000 + (buf[off + 1] as u32) * 0x1_0000 + (buf[off + 2] as u32) * 256
        + (buf[off + 3] as u32)
}

/// Reads a big-endian 64-bit value at `off`.
pub fn read_u64(buf: &[u8], off: usize) -> (r: u64)
    requires
        off + 8 <= buf@.len(),
    ensures
        r == u64_be(buf@.subrange(off as int, off + 8)),
{
    let _n = buf.len();
    let hi = read_u32(buf, off);
    let lo = read_u32(buf, off + 4);
    (hi as u64) * 0x1_0000_0000 + (lo as u64)
}

/// Appends the big-endian bytes of `x`.
pub fn push_u16(buf: &mut Vec<u8>, x: u16)
    ensures
        final(buf)@ == old(buf)@ + be16(x),
{
    buf.push((x / 256) as u8);
    buf.push((x % 256) as u8);
    assert(final(buf)@ =~= old(buf)@ + be16(x));
}

/// Appends the big-endian bytes of `x`.
pub fn push_u32(buf: &mut Vec<u8>, x: u32)
    ensures
        final(buf)@ == old(buf)@ + be32(x),
{
    buf.push((x / 0x100_0000) as u8);
    buf.push(((x / 0x1_0000) % 256) as u8);
    buf.push(((x / 256) % 256) as u8);
    buf.push((x % 256) as u8);
    assert(final(buf)@ =~= old(buf)@ + be32(x));
}

/// Appends the big-endian bytes of `x`.
pub fn push_u64(buf: &mut Vec<u8>, x: u64)
    ensures
        final(buf)@ == old(buf)@ + be64(x),
{
    let ghost start = buf@;
    push_u32(buf, (x / 0x1_0000_0000) as u32);
    push_u32(buf, (x % 0x1_0000_0000) as u32);
    assert(buf@ =~= start + be64(x));
}

/// Appends all of `src`.
pub fn push_all(buf: &mut Vec<u8>, src: &[u8])
    ensures
        final(buf)@ == old(buf)@ + src@,
{
    let ghost start = buf@;
    let mut i: usize = 0;
    while i < src.len()
        invariant
            i <= src@.len(),
            buf@ == start + src@.subrange(0, i as int),
        decreases src@.len() - i,
    {
        buf.push(src[i]);
        i = i + 1;
        assert(buf@ =~= start + src@.subrange(0, i as int));
    }
    assert(src@.subrange(0, src@.len() as int) =~= src@);
}

/// `n` zero bytes.
pub open spec fn zeros(n: nat) -> Seq<u8> {
    Seq::new(n, |i: int| 0u8)
}

/// Appends the first `n` bytes of `src`.
pub fn push_prefix(buf: &mut Vec<u8>, src: &[u8], n: usize)
    requires
        n <= src@.len(),
    ensures
        final(buf)@ == old(buf)@ + src@.take(n as int),
{
    let ghost start = buf@;
    let mut i: usize = 0;
    while i < n
        invariant
            i <= n <= src@.len(),
            buf@ == start + src@.take(i as int),
        decreases n - i,
    {
        buf.push(src[i]);
        i = i + 1;
        assert(buf@ =~= start + src@.take(i as int));
    }
}

/// Appends `n` zero bytes.
pub fn push_zeros(buf: &mut Vec<u8>, n: usize)
    ensures
        final(buf)@ == old(buf)@ + zeros(n as nat),
{
    let ghost start = buf@;
    let mut i: usize = 0;
    while i < n
        invariant
            i <= n,
            buf@ == start + zeros(i as nat),
        decreases n - i,
    {
        buf.push(0u8);
        i = i + 1;
        assert(buf@ =~= start + zeros(i as nat));
    }
}

/// Writes the big-endian bytes of `x` at `off`.
pub fn write_u16(buf: &mut [u8], off: usize, x: u16)
    requires
        off + 2 <= old(buf)@.len(),
    ensures
        final(buf)@ == old(buf)@.subrange(0, off as int) + be16(x) + old(buf)@.subrange(
            off + 2,
            old(buf)@.len() as int,
        ),
{
    buf[off] = (x / 256) as u8;
    buf[off + 1] = (x % 256) as u8;
    assert(buf@ =~= old(buf)@.subrange(0, off as int) + be16(x) + old(buf)@.subrange(
        off + 2,
        old(buf)@.len() as int,
    ));
}

/// Writes the big-endian bytes of `x` at `off`.
pub fn write_u32(buf: &mut [u8], off: usize, x: u32)
    requires
        off + 4 <= old(buf)@.len(),
    ensures
        final(buf)@ == old(buf)@.subrange(0, off as int) + be32(x) + old(buf)@.subrange(
            off + 4,
            old(buf)@.len() as int,
        ),
{
    buf[off] = (x / 0x100_0000) as u8;
    buf[off + 1] = ((x / 0x1_0000) % 256) as u8;
    buf[off + 2] = ((x / 256) % 256) as u8;
    buf[off + 3] = (x % 256) as u8;
    assert(buf@ =~= old(buf)@.subrange(0, off as int) + be32(x) + old(buf)@.subrange(
        off + 4,
        old(buf)@.len() as int,
    ));
}

/// Copies `src` into `buf` at `off`.
pub fn copy_into(buf: &mut [u8], off: usize, src: &[u8])
    requires
        off + src@.len() <= old(buf)@.len(),
    ensures
        final(buf)@ == old(buf)@.subrange(0, off as int) + src@ + old(buf)@.subrange(
            off + src@.len(),
            old(buf)@.len() as int,
        ),
{
    let ghost start = buf@;
    let _n = buf.len();
    let mut i: usize = 0;
    while i < src.len()
        invariant
            i <= src@.len(),
            start.len() <= usize::MAX,
            off + src@.len() <= start.len(),
            buf@.len() == start.len(),
            forall|j: int| 0 <= j < off ==> buf@[j] == start[j],
            forall|j: int| off <= j < off + i ==> buf@[j] == src@[j - off],
            forall|j: int| off + i <= j < start.len() ==> buf@[j] == start[j],
        decreases src@.len() - i,
    {
        buf[off + i] = src[i];
        i = i + 1;
    }
    assert(buf@ =~= start.subrange(0, off as int) + src@ + start.subrange(
        off + src@.len(),
        start.len() as int,
    ));
}

/// A fresh vector holding `src`.
pub fn to_vec(src: &[u8]) -> (v: Vec<u8>)
    ensures
        v@ == src@,
{
    let mut v = Vec::new();
    push_all(&mut v, src);
    assert(v@ =~= src@);
    v
}

/// A fresh vector holding `src[from..to]`.
pub fn sub_vec(src: &[u8], from: usize, to: usize) -> (v: Vec<u8>)
    requires
        from <= to <= src@.len(),
    ensures
        v@ == src@.subrange(from as int, to as int),
{
    let mut v = Vec::new();
    let mut i = from;
    while i < to
        invariant
            from <= i <= to <= src@.len(),
            v@ == src@.subrange(from as int, i as int),
        decreases to - i,
    {
        v.push(src[i]);
        i = i + 1;
        assert(v@ =~= src@.subrange(from as int, i as int));
    }
    v
}

/// Whether two byte slices hold the same bytes.
pub fn bytes_eq(a: &[u8], b: &[u8]) -> (r: bool)
    ensures
        r == (a@ == b@),
{
    if a.len() != b.len() {
        return false;
    }
    let mut i: usize = 0;
    while i < a.len()
        invariant
            a@.len() == b@.len(),
            i <= a@.len(),
            forall|j: int| 0 <= j < i ==> a@[j] == b@[j],
        decreases a@.len() - i,
    {
        if a[i] != b[i] {
            return false;
        }
        i = i + 1;
    }
    assert(a@ =~= b@);
    true
}

/// Whether two strings hold the same characters.
pub fn str_eq(a: &str, b: &str) -> (r: bool)
    ensures
        r == (a@ == b@),
{
    proof {
        vstd::utf8::encode_utf8_decode_utf8(a@);
        vstd::utf8::encode_utf8_decode_utf8(b@);
    }
    bytes_eq(a.as_bytes(), b.as_bytes())
}

/// Overwrites the start of `dst` with as much of `src` as fits, and
/// returns how many bytes that was.
pub fn copy_prefix_into<const N: usize>(dst: &mut [u8; N], src: &[u8]) -> (n: usize)
    ensures
        n == (if src@.len() < N { src@.len() } else { N as nat }),
        final(dst)@ == src@.take(n as int) + old(dst)@.skip(n as int),
{
    let n = if src.len() < N { src.len() } else { N };
    let mut i: usize = 0;
    while i < n
        invariant
            n <= N,
            n <= src@.len(),
            i <= n,
            dst@.len() == N,
            dst@ == src@.take(i as int) + old(dst)@.skip(i as int),
        decreases n - i,
    {
        dst[i] = src[i];
        assert(dst@ =~= src@.take(i + 1) + old(dst)@.skip(i + 1));
        i = i + 1;
    }
    n
}

} // verus!
