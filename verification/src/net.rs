//! Transport addresses as plain values.
use vstd::prelude::*;
use vstd::string::StringExecFns;
use crate::text::{decimal, hex, push_decimal, push_hex};

verus! {

/// An IP address: IPv4 as its 32-bit value, IPv6 as its 128-bit value
/// (both in network order of significance).
#[derive(Clone, Copy, Debug, PartialEq, Eq, Structural, Hash)]
pub enum IpAddress {
    V4(u32),
    V6(u128),
}

/// An IP address and a port.
#[derive(Clone, Copy, Debug, PartialEq, Eq, Structural, Hash)]
pub struct SocketAddress {
    pub ip: IpAddress,
    pub port: u16,
}

impl SocketAddress {
    /// The IPv4 address `a.b.c.d` with a port.
    pub fn v4(a: u8, b: u8, c: u8, d: u8, port: u16) -> (s: Self)
        ensures
            s == (SocketAddress { ip: IpAddress::V4(crate::wire::u32_be(a, b, c, d)), port }),
    {
        let ip = (a as u32) * 0x100_0000 + (b as u32) * 0x1_0000 + (c as u32) * 256 + (d as u32);
        SocketAddress { ip: IpAddress::V4(ip), port }
    }

    pub fn port(&self) -> (p: u16)
        ensures
            p == self.port,
    {
        self.port
    }

    pub fn is_ipv4(&self) -> (b: bool)
        ensures
            b == (self.ip is V4),
    {
        match self.ip {
            IpAddress::V4(_) => true,
            IpAddress::V6(_) => false,
        }
    }
}

/// Dotted-decimal text of an IPv4 address.
pub open spec fn ipv4_text(a: u32) -> Seq<char> {
    decimal((a / 0x100_0000) as nat) + seq!['.'] + decimal(((a / 0x1_0000) % 256) as nat) + seq!['.']
        + decimal(((a / 256) % 256) as nat) + seq!['.'] + decimal((a % 256) as nat)
}

/// The `k`-th 16-bit group of an IPv6 address, most significant first.
pub open spec fn ipv6_group(v: u128, k: int) -> u16 {
    (v >> ((112 - 16 * k) as u128)) as u16
}

/// The eight 16-bit groups of an IPv6 address.
pub open spec fn ipv6_groups(v: u128) -> Seq<u16> {
    Seq::new(8, |k: int| ipv6_group(v, k))
}

/// Whether the groups are those of an IPv4-mapped address `::ffff:a.b.c.d`.
pub open spec fn ipv4_mapped(g: Seq<u16>) -> bool {
    &&& forall|k: int| 0 <= k < 5 ==> g[k] == 0
    &&& g[5] == 0xffff
}

/// The number of zero groups in a row from position `i`.
pub open spec fn zero_run(g: Seq<u16>, i: nat) -> nat
    decreases g.len() - i,
{
    if i >= g.len() || g[i as int] != 0 {
        0
    } else {
        1 + zero_run(g, i + 1)
    }
}

/// The longest run of zero groups, the first of them when several are
/// equally long, as (start, length), scanning from `i` with the best run
/// so far.
pub open spec fn longest_zero_run(g: Seq<u16>, i: nat, start: nat, len: nat) -> (nat, nat)
    decreases g.len() - i,
{
    if i >= g.len() {
        (start, len)
    } else if zero_run(g, i) > len {
        longest_zero_run(g, i + 1, i, zero_run(g, i))
    } else {
        longest_zero_run(g, i + 1, start, len)
    }
}

/// Groups in hexadecimal without leading zeros, separated by colons.
pub open spec fn hex_groups(g: Seq<u16>) -> Seq<char>
    decreases g.len(),
{
    if g.len() == 0 {
        Seq::empty()
    } else if g.len() == 1 {
        hex(g[0] as nat)
    } else {
        hex_groups(g.drop_last()) + seq![':'] + hex(g.last() as nat)
    }
}

/// The text of an IPv6 address: IPv4-mapped addresses as `::ffff:` and
/// the dotted IPv4 text; otherwise the groups in hexadecimal, with the
/// first longest run of two or more zero groups written as `::`.
pub open spec fn ipv6_text(v: u128) -> Seq<char> {
    let g = ipv6_groups(v);
    if ipv4_mapped(g) {
        seq![':', ':', 'f', 'f', 'f', 'f', ':'] + ipv4_text((g[6] * 0x1_0000 + g[7]) as u32)
    } else {
        let (st, ln) = longest_zero_run(g, 0, 0, 0);
        if ln > 1 {
            hex_groups(g.subrange(0, st as int)) + seq![':', ':'] + hex_groups(g.subrange((st + ln) as int, 8))
        } else {
            hex_groups(g)
        }
    }
}

/// The text of an IP address, in the standard notation of its family.
pub open spec fn ip_text(ip: IpAddress) -> Seq<char> {
    match ip {
        IpAddress::V4(a) => ipv4_text(a),
        IpAddress::V6(v) => ipv6_text(v),
    }
}

/// Appends the dotted-decimal text of an IPv4 address.
pub fn push_ipv4(s: &mut String, a: u32)
    ensures
        final(s)@ == old(s)@ + ipv4_text(a),
{
    proof {
        reveal_strlit(".");
    }
    push_decimal(s, (a / 0x100_0000) as u64);
    s.append(".");
    push_decimal(s, ((a / 0x1_0000) % 256) as u64);
    s.append(".");
    push_decimal(s, ((a / 256) % 256) as u64);
    s.append(".");
    push_decimal(s, (a % 256) as u64);
    assert(s@ =~= old(s)@ + ipv4_text(a));
}

/// Appends groups `from..to` in hexadecimal, separated by colons.
fn push_hex_groups(s: &mut String, g: &Vec<u16>, from: usize, to: usize)
    requires
        from <= to <= g@.len(),
    ensures
        final(s)@ == old(s)@ + hex_groups(g@.subrange(from as int, to as int)),
{
    assert(g@.subrange(from as int, from as int) =~= Seq::<u16>::empty());
    let mut k = from;
    while k < to
        invariant
            from <= k <= to <= g@.len(),
            s@ == old(s)@ + hex_groups(g@.subrange(from as int, k as int)),
        decreases to - k,
    {
        let ghost before = s@;
        let ghost done = g@.subrange(from as int, k as int);
        let ghost next = g@.subrange(from as int, k + 1);
        assert(next.drop_last() =~= done);
        assert(next.last() == g@[k as int]);
        if k > from {
            proof {
                reveal_strlit(":");
            }
            s.append(":");
        } else {
            assert(done.len() == 0);
        }
        push_hex(s, g[k]);
        proof {
            if k > from {
                assert(hex_groups(next) == hex_groups(done) + seq![':'] + hex(g@[k as int] as nat));
            } else {
                assert(hex_groups(next) == hex(g@[k as int] as nat));
            }
        }
        assert(s@ =~= old(s)@ + hex_groups(next));
        k = k + 1;
    }
}

/// The zero run from `i` computed by counting.
fn zero_run_at(g: &Vec<u16>, i: usize) -> (n: usize)
    requires
        i <= g@.len() == 8,
    ensures
        n == zero_run(g@, i as nat),
        i + n <= 8,
{
    let mut n: usize = 0;
    let mut k: usize = 8;
    while k > i
        invariant
            i <= k <= 8,
            g@.len() == 8,
            n == zero_run(g@, k as nat),
            k + n <= 8,
        decreases k,
    {
        k = k - 1;
        if g[k] == 0 {
            n = n + 1;
        } else {
            n = 0;
        }
    }
    n
}

/// Appends the text of an IPv6 address.
pub fn push_ipv6(s: &mut String, v: u128)
    ensures
        final(s)@ == old(s)@ + ipv6_text(v),
{
    let mut g: Vec<u16> = Vec::new();
    let mut k: u128 = 0;
    while k < 8
        invariant
            k <= 8,
            g@.len() == k,
            forall|j: int| 0 <= j < k ==> g@[j] == ipv6_group(v, j),
        decreases 8 - k,
    {
        g.push((v >> (112 - 16 * k)) as u16);
        k = k + 1;
    }
    assert(g@ =~= ipv6_groups(v));
    if g[0] == 0 && g[1] == 0 && g[2] == 0 && g[3] == 0 && g[4] == 0 && g[5] == 0xffff {
        proof {
            reveal_strlit("::ffff:");
        }
        s.append("::ffff:");
        push_ipv4(s, (g[6] as u32) * 0x1_0000 + (g[7] as u32));
        assert(s@ =~= old(s)@ + ipv6_text(v));
        return;
    }
    let mut start: usize = 0;
    let mut len: usize = 0;
    let mut i: usize = 0;
    while i < 8
        invariant
            i <= 8,
            g@ == ipv6_groups(v),
            start + len <= 8,
            longest_zero_run(g@, i as nat, start as nat, len as nat) == longest_zero_run(g@, 0, 0, 0),
        decreases 8 - i,
    {
        let r = zero_run_at(&g, i);
        if r > len {
            start = i;
            len = r;
        }
        i = i + 1;
    }
    if len > 1 {
        proof {
            reveal_strlit("::");
        }
        push_hex_groups(s, &g, 0, start);
        s.append("::");
        push_hex_groups(s, &g, start + len, 8);
        assert(s@ =~= old(s)@ + ipv6_text(v));
    } else {
        assert(g@.subrange(0, 8) =~= g@);
        push_hex_groups(s, &g, 0, 8);
    }
}

/// Appends the text of an IP address.
pub fn push_ip(s: &mut String, ip: IpAddress)
    ensures
        final(s)@ == old(s)@ + ip_text(ip),
{
    match ip {
        IpAddress::V4(a) => push_ipv4(s, a),
        IpAddress::V6(v) => push_ipv6(s, v),
    }
}

} // verus!
