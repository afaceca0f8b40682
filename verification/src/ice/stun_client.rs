//! A STUN client for ICE connectivity checks: Binding messages with the
//! ICE attributes, a fingerprint, and their decoding.
use vstd::prelude::*;
use vstd::string::{StringExecFns, StringSliceAdditionalSpecFns};
use crate::net::{IpAddress, SocketAddress};
use crate::text::{hex4, owned, push_hex4};
use crate::wire::{be16, be32, be64, u16_be, u32_be, zeros, push_u16, push_u32, push_u64, push_all, push_zeros};

verus! {

pub enum StunClientError {
    ParseError(String),
    EncodeError(String),
    Timeout,
    TransactionFailed(String),
}

/// The twelve bytes that tell one transaction from another.
#[derive(Clone, Copy, Debug)]
pub struct TransactionId(pub [u8; 12]);

/// The bytes a new transaction id holds: byte `i` is `17 i + 42`.
pub open spec fn fixed_transaction_bytes() -> Seq<u8> {
    Seq::new(12, |i: int| ((i * 17 + 42) % 256) as u8)
}

impl TransactionId {
    pub fn new() -> (t: Self)
        ensures
            t.0@ == fixed_transaction_bytes(),
    {
        let mut id = [0u8; 12];
        let mut i: usize = 0;
        while i < 12
            invariant
                i <= 12,
                id@.len() == 12,
                forall|j: int| 0 <= j < i ==> id@[j] == ((j * 17 + 42) % 256) as u8,
            decreases 12 - i,
        {
            id[i] = ((i * 17 + 42) % 256) as u8;
            i = i + 1;
        }
        assert(id@ =~= fixed_transaction_bytes());
        TransactionId(id)
    }

    pub fn as_bytes(&self) -> (b: &[u8; 12])
        ensures
            *b == self.0,
    {
        &self.0
    }
}

impl Default for TransactionId {
    fn default() -> (t: Self)
        ensures
            t.0@ == fixed_transaction_bytes(),
    {
        Self::new()
    }
}

#[derive(Clone, Copy, Debug, PartialEq, Eq, Structural)]
pub enum StunClass {
    Request,
    SuccessResponse,
    ErrorResponse,
}

#[derive(Clone, Copy, Debug, PartialEq, Eq, Structural)]
pub enum StunMethod {
    Binding,
}

#[derive(Clone, Copy, Debug, PartialEq, Eq, Structural)]
pub enum StunAttributeType {
    MappedAddress,
    SourceAddress,
    ChangedAddress,
    Username,
    Password,
    MessageIntegrity,
    Fingerprint,
    XorMappedAddress,
    UseCandidate,
    Priority,
    IceControlled,
    IceControlling,
}

pub enum StunAttribute {
    MappedAddress(SocketAddress),
    SourceAddress(SocketAddress),
    ChangedAddress(SocketAddress),
    XorMappedAddress(SocketAddress),
    Username(Vec<u8>),
    Password(Vec<u8>),
    MessageIntegrity(Vec<u8>),
    Fingerprint(u32),
    Priority(u32),
    UseCandidate,
    IceControlled(u64),
    IceControlling(u64),
}

/// An attribute as a value: byte strings as sequences.
pub enum AttributeView {
    MappedAddress(SocketAddress),
    SourceAddress(SocketAddress),
    ChangedAddress(SocketAddress),
    XorMappedAddress(SocketAddress),
    Username(Seq<u8>),
    Password(Seq<u8>),
    MessageIntegrity(Seq<u8>),
    Fingerprint(u32),
    Priority(u32),
    UseCandidate,
    IceControlled(u64),
    IceControlling(u64),
}

impl View for StunAttribute {
    type V = AttributeView;

    open spec fn view(&self) -> AttributeView {
        match self {
            StunAttribute::MappedAddress(a) => AttributeView::MappedAddress(*a),
            StunAttribute::SourceAddress(a) => AttributeView::SourceAddress(*a),
            StunAttribute::ChangedAddress(a) => AttributeView::ChangedAddress(*a),
            StunAttribute::XorMappedAddress(a) => AttributeView::XorMappedAddress(*a),
            StunAttribute::Username(d) => AttributeView::Username(d@),
            StunAttribute::Password(d) => AttributeView::Password(d@),
            StunAttribute::MessageIntegrity(d) => AttributeView::MessageIntegrity(d@),
            StunAttribute::Fingerprint(c) => AttributeView::Fingerprint(*c),
            StunAttribute::Priority(p) => AttributeView::Priority(*p),
            StunAttribute::UseCandidate => AttributeView::UseCandidate,
            StunAttribute::IceControlled(t) => AttributeView::IceControlled(*t),
            StunAttribute::IceControlling(t) => AttributeView::IceControlling(*t),
        }
    }
}

pub struct StunMessage {
    pub class: StunClass,
    pub method: StunMethod,
    pub transaction_id: TransactionId,
    pub attributes: Vec<StunAttribute>,
}

/// A message as a value.
pub struct MessageView {
    pub class: StunClass,
    pub method: StunMethod,
    pub transaction_id: Seq<u8>,
    pub attributes: Seq<AttributeView>,
}

/// The views of a list of attributes.
pub open spec fn attr_views(a: Seq<StunAttribute>) -> Seq<AttributeView> {
    Seq::new(a.len(), |i: int| a[i]@)
}

impl View for StunMessage {
    type V = MessageView;

    open spec fn view(&self) -> MessageView {
        MessageView {
            class: self.class,
            method: self.method,
            transaction_id: self.transaction_id.0@,
            attributes: attr_views(self.attributes@),
        }
    }
}

/// The message type of a Binding message of a class.
pub open spec fn type_code(c: StunClass) -> u16 {
    match c {
        StunClass::Request => 0x0001,
        StunClass::SuccessResponse => 0x0101,
        StunClass::ErrorResponse => 0x0111,
    }
}

/// The bytes of the magic cookie.
pub open spec fn magic_bytes() -> Seq<u8> {
    be32(0x2112A442)
}

/// The padding that brings a length to a multiple of four.
pub open spec fn padding(n: nat) -> nat {
    ((4 - (n % 4) as int) % 4) as nat
}

/// Type, length (the padded length, kept to 16 bits), value and zero
/// padding of one attribute.
pub open spec fn tlv(t: u16, v: Seq<u8>) -> Seq<u8> {
    be16(t) + be16(((v.len() + padding(v.len())) % 0x1_0000) as u16) + v + zeros(padding(v.len()))
}

/// Byte `i` of an address, most significant first.
pub open spec fn ip_octet(ip: IpAddress, i: int) -> u8 {
    match ip {
        IpAddress::V4(a) => be32(a)[i],
        IpAddress::V6(v) => (v >> ((120 - 8 * i) as u128)) as u8,
    }
}

/// The number of bytes of an address.
pub open spec fn ip_len(ip: IpAddress) -> nat {
    match ip {
        IpAddress::V4(_) => 4,
        IpAddress::V6(_) => 16,
    }
}

/// The address bytes, each xored with the magic cookie byte of its
/// position modulo four.
pub open spec fn xor_ip(ip: IpAddress) -> Seq<u8> {
    Seq::new(ip_len(ip), |i: int| ip_octet(ip, i) ^ magic_bytes()[i % 4])
}

/// The value of an address attribute as written: two zero bytes, the port
/// xored with the top half of the magic cookie (0x2112), then the xored
/// address bytes after the first (the port overwrites the family byte and
/// the first address byte).
pub open spec fn address_value(a: SocketAddress) -> Seq<u8> {
    seq![0u8, 0u8] + be16(a.port ^ 0x2112u16) + xor_ip(a.ip).skip(1)
}

/// The encoding of one attribute.
pub open spec fn attr_bytes(a: AttributeView) -> Seq<u8> {
    match a {
        AttributeView::MappedAddress(x) => tlv(0x0001, address_value(x)),
        AttributeView::SourceAddress(x) => tlv(0x0004, address_value(x)),
        AttributeView::ChangedAddress(x) => tlv(0x0005, address_value(x)),
        AttributeView::XorMappedAddress(x) => tlv(0x0020, address_value(x)),
        AttributeView::Username(d) => tlv(0x0006, d),
        AttributeView::Password(d) => tlv(0x0007, d),
        AttributeView::MessageIntegrity(d) => tlv(0x0008, d),
        AttributeView::Fingerprint(c) => tlv(0x8028, be32(c)),
        AttributeView::Priority(p) => tlv(0x0024, be32(p)),
        AttributeView::UseCandidate => tlv(0x0025, seq![0u8, 0u8, 0u8, 0u8]),
        AttributeView::IceControlled(t) => tlv(0x8029, be64(t)),
        AttributeView::IceControlling(t) => tlv(0x802A, be64(t)),
    }
}

/// The encodings of attributes, one after the other.
pub open spec fn attrs_bytes(s: Seq<AttributeView>) -> Seq<u8>
    decreases s.len(),
{
    if s.len() == 0 {
        Seq::empty()
    } else {
        attrs_bytes(s.drop_last()) + attr_bytes(s.last())
    }
}

/// One step of the checksum register.
pub open spec fn crc_bit_step(c: u32) -> u32 {
    (c >> 1u32) ^ (0xEDB88320u32 & !(c & 1u32))
}

/// `k` steps of the checksum register.
pub open spec fn crc_steps(c: u32, k: nat) -> u32
    decreases k,
{
    if k == 0 {
        c
    } else {
        crc_steps(crc_bit_step(c), (k - 1) as nat)
    }
}

/// The register after the bytes of `s`, from `c`: each byte is xored in
/// and followed by eight steps.
pub open spec fn crc_fold(c: u32, s: Seq<u8>) -> u32
    decreases s.len(),
{
    if s.len() == 0 {
        c
    } else {
        crc_steps(crc_fold(c, s.drop_last()) ^ (s.last() as u32), 8)
    }
}

/// The fingerprint of a message: the complemented register after all of
/// its bytes, starting from all ones.
pub open spec fn fingerprint_of(s: Seq<u8>) -> u32 {
    !crc_fold(0xFFFF_FFFFu32, s)
}

/// Whether one of the attributes is a fingerprint.
pub open spec fn has_fingerprint(s: Seq<AttributeView>) -> bool {
    exists|i: int| 0 <= i < s.len() && s[i] is Fingerprint
}

/// The encoding of a message: header with the attributes' length (kept to
/// 16 bits), the attributes, then a fingerprint of all of that when the
/// message has none of its own.
pub open spec fn encoding(m: MessageView) -> Seq<u8> {
    let body = attrs_bytes(m.attributes);
    let pre = be16(type_code(m.class)) + be16(body.len() as u16) + magic_bytes() + m.transaction_id + body;
    if has_fingerprint(m.attributes) {
        pre
    } else {
        pre + attr_bytes(AttributeView::Fingerprint(fingerprint_of(pre)))
    }
}

/// The first mapped or xor-mapped address among the attributes.
pub open spec fn first_mapped(s: Seq<AttributeView>) -> Option<SocketAddress>
    decreases s.len(),
{
    if s.len() == 0 {
        None
    } else {
        match s[0] {
            AttributeView::XorMappedAddress(a) => Some(a),
            AttributeView::MappedAddress(a) => Some(a),
            _ => first_mapped(s.drop_first()),
        }
    }
}

/// A 128-bit value read from bytes, most significant first.
pub open spec fn be_u128(s: Seq<u8>) -> u128
    decreases s.len(),
{
    if s.len() == 0 {
        0
    } else {
        (be_u128(s.drop_last()) << 8u128) | (s.last() as u128)
    }
}

/// Whether reading an attribute value of this type would index past its
/// end: an address of family 1 shorter than 8 bytes, or of another family
/// shorter than 20.
pub open spec fn attr_overruns(t: u16, v: Seq<u8>) -> bool {
    ||| (t == 0x0001 || t == 0x0004 || t == 0x0005) && v.len() >= 4 && (if v[1] == 1 {
        v.len() < 8
    } else {
        v.len() < 20
    })
    ||| t == 0x0020 && v.len() >= 4 && v[1] == 1 && v.len() < 8
}

/// The attributes read from one value: addresses, priority and
/// use-candidate; nothing for other types or values too short. An
/// xor-mapped address has its port xored with 0x2112 and, for IPv4, its
/// address xored with the magic cookie (RFC 8489).
pub open spec fn parse_attr(t: u16, v: Seq<u8>) -> Seq<AttributeView> {
    if (t == 0x0001 || t == 0x0004 || t == 0x0005) && v.len() >= 4 {
        let ip = if v[1] == 1 {
            IpAddress::V4(u32_be(v[4], v[5], v[6], v[7]))
        } else {
            IpAddress::V6(be_u128(v.subrange(4, 20)))
        };
        let a = SocketAddress { ip, port: u16_be(v[2], v[3]) };
        if t == 0x0001 {
            seq![AttributeView::MappedAddress(a)]
        } else if t == 0x0004 {
            seq![AttributeView::SourceAddress(a)]
        } else {
            seq![AttributeView::ChangedAddress(a)]
        }
    } else if t == 0x0020 && v.len() >= 4 {
        let m = magic_bytes();
        let ip = if v[1] == 1 {
            IpAddress::V4(u32_be(v[4] ^ m[0], v[5] ^ m[1], v[6] ^ m[2], v[7] ^ m[3]))
        } else {
            IpAddress::V6(0)
        };
        seq![AttributeView::XorMappedAddress(SocketAddress { ip, port: u16_be(v[2], v[3]) ^ 0x2112u16 })]
    } else if t == 0x0024 && v.len() >= 4 {
        seq![AttributeView::Priority(u32_be(v[0], v[1], v[2], v[3]))]
    } else if t == 0x0025 {
        seq![AttributeView::UseCandidate]
    } else {
        Seq::empty()
    }
}

/// The attributes read from `off` on: while a header fits before the last
/// four bytes and its value fits in the data, the value is read and the
/// walk goes on after it and its padding.
pub open spec fn walk(data: Seq<u8>, off: int) -> Seq<AttributeView>
    decreases data.len() - off,
{
    if off < 0 || off + 4 >= data.len() {
        Seq::empty()
    } else {
        let t = u16_be(data[off], data[off + 1]);
        let l = u16_be(data[off + 2], data[off + 3]);
        let start = off + 4;
        if start + l > data.len() {
            Seq::empty()
        } else {
            let next = start + l + padding(l as nat);
            let here = parse_attr(t, data.subrange(start, start + l));
            if next < data.len() {
                here + walk(data, next)
            } else {
                here
            }
        }
    }
}

/// Whether no value read by the walk from `off` overruns.
pub open spec fn walk_ok(data: Seq<u8>, off: int) -> bool
    decreases data.len() - off,
{
    if off < 0 || off + 4 >= data.len() {
        true
    } else {
        let t = u16_be(data[off], data[off + 1]);
        let l = u16_be(data[off + 2], data[off + 3]);
        let start = off + 4;
        if start + l > data.len() {
            true
        } else {
            let next = start + l + padding(l as nat);
            !attr_overruns(t, data.subrange(start, start + l)) && (next >= data.len() || walk_ok(data, next))
        }
    }
}

/// The class of a known message type.
pub open spec fn class_of(t: u16) -> Option<StunClass> {
    if t == 0x0001 {
        Some(StunClass::Request)
    } else if t == 0x0101 {
        Some(StunClass::SuccessResponse)
    } else if t == 0x0111 {
        Some(StunClass::ErrorResponse)
    } else {
        None
    }
}

/// Whether data has a header: twenty bytes, the magic cookie and a known
/// Binding type.
pub open spec fn well_headed(data: Seq<u8>) -> bool {
    &&& data.len() >= 20
    &&& data.subrange(4, 8) == magic_bytes()
    &&& class_of(u16_be(data[0], data[1])) is Some
}

/// The message read from data with a header.
pub open spec fn decoded(data: Seq<u8>) -> MessageView {
    MessageView {
        class: class_of(u16_be(data[0], data[1]))->0,
        method: StunMethod::Binding,
        transaction_id: data.subrange(8, 20),
        attributes: walk(data, 20),
    }
}

/// What decoding gives back of an attribute the encoder wrote: priority
/// and use-candidate as they were, an xor-mapped address as its port with
/// the unspecified IPv6 address, and nothing of the others.
pub open spec fn read_back(a: AttributeView) -> Seq<AttributeView> {
    match a {
        AttributeView::Priority(_) => seq![a],
        AttributeView::UseCandidate => seq![a],
        AttributeView::XorMappedAddress(x) => seq![
            AttributeView::XorMappedAddress(SocketAddress { ip: IpAddress::V6(0), port: x.port }),
        ],
        _ => Seq::empty(),
    }
}

/// `read_back` of each attribute, in order.
pub open spec fn read_back_all(s: Seq<AttributeView>) -> Seq<AttributeView>
    decreases s.len(),
{
    if s.len() == 0 {
        Seq::empty()
    } else {
        read_back_all(s.drop_last()) + read_back(s.last())
    }
}

/// Whether an attribute reads back: no mapped, source or changed address
/// (their values are written xored and shorter than a reader of them
/// expects), and a value short enough for its 16-bit length.
pub open spec fn reads_back(a: AttributeView) -> bool {
    match a {
        AttributeView::MappedAddress(_) => false,
        AttributeView::SourceAddress(_) => false,
        AttributeView::ChangedAddress(_) => false,
        AttributeView::Username(d) => d.len() < 0xFFF0,
        AttributeView::Password(d) => d.len() < 0xFFF0,
        AttributeView::MessageIntegrity(d) => d.len() < 0xFFF0,
        _ => true,
    }
}

/// One encoded attribute: four header bytes, whose length field is the
/// padded value length, then the value it reads back as.
proof fn lemma_attr_reads_back(a: AttributeView)
    requires
        reads_back(a),
    ensures
        attr_bytes(a).len() >= 4,
        attr_bytes(a).len() % 4 == 0,
        u16_be(attr_bytes(a)[2], attr_bytes(a)[3]) == attr_bytes(a).len() - 4,
        parse_attr(u16_be(attr_bytes(a)[0], attr_bytes(a)[1]), attr_bytes(a).subrange(4, attr_bytes(a).len() as int))
            == read_back(a),
        !attr_overruns(u16_be(attr_bytes(a)[0], attr_bytes(a)[1]), attr_bytes(a).subrange(4, attr_bytes(a).len() as int)),
        attr_bytes(a).len() == 4 ==> read_back(a).len() == 0,
{
    let t = attr_bytes(a);
    let v = t.subrange(4, t.len() as int);
    match a {
        AttributeView::XorMappedAddress(x) => {
            let val = address_value(x);
            crate::wire::lemma_be16_roundtrip(0x0020);
            crate::wire::lemma_be16_roundtrip(x.port);
            let n = val.len();
            assert(n == 7 || n == 19);
            crate::wire::lemma_be16_roundtrip(((n + padding(n)) % 0x1_0000) as u16);
            assert(v =~= val + zeros(padding(n)));
            assert(v[1] == 0);
            crate::wire::lemma_be16_roundtrip(x.port ^ 0x2112u16);
            assert(v[2] == be16(x.port ^ 0x2112u16)[0] && v[3] == be16(x.port ^ 0x2112u16)[1]);
            let p = x.port;
            assert((p ^ 0x2112u16) ^ 0x2112u16 == p) by (bit_vector);
        },
        AttributeView::Priority(p) => {
            crate::wire::lemma_be16_roundtrip(0x0024);
            crate::wire::lemma_be16_roundtrip(4);
            crate::wire::lemma_be32_roundtrip(p);
            assert(v =~= be32(p));
        },
        AttributeView::UseCandidate => {
            crate::wire::lemma_be16_roundtrip(0x0025);
            crate::wire::lemma_be16_roundtrip(4);
        },
        AttributeView::Username(d) => {
            crate::wire::lemma_be16_roundtrip(0x0006);
            crate::wire::lemma_be16_roundtrip(((d.len() + padding(d.len())) % 0x1_0000) as u16);
        },
        AttributeView::Password(d) => {
            crate::wire::lemma_be16_roundtrip(0x0007);
            crate::wire::lemma_be16_roundtrip(((d.len() + padding(d.len())) % 0x1_0000) as u16);
        },
        AttributeView::MessageIntegrity(d) => {
            crate::wire::lemma_be16_roundtrip(0x0008);
            crate::wire::lemma_be16_roundtrip(((d.len() + padding(d.len())) % 0x1_0000) as u16);
        },
        AttributeView::Fingerprint(c) => {
            crate::wire::lemma_be16_roundtrip(0x8028);
            crate::wire::lemma_be16_roundtrip(4);
        },
        AttributeView::IceControlled(c) => {
            crate::wire::lemma_be16_roundtrip(0x8029);
            crate::wire::lemma_be16_roundtrip(8);
        },
        AttributeView::IceControlling(c) => {
            crate::wire::lemma_be16_roundtrip(0x802A);
            crate::wire::lemma_be16_roundtrip(8);
        },
        _ => {},
    }
}

/// The encodings of attributes split after the first.
proof fn lemma_attrs_bytes_front(s: Seq<AttributeView>)
    requires
        s.len() > 0,
    ensures
        attrs_bytes(s) == attr_bytes(s[0]) + attrs_bytes(s.drop_first()),
        read_back_all(s) == read_back(s[0]) + read_back_all(s.drop_first()),
    decreases s.len(),
{
    if s.len() == 1 {
        assert(s.drop_last() =~= Seq::<AttributeView>::empty());
        assert(s.drop_first() =~= Seq::<AttributeView>::empty());
        assert(attrs_bytes(s) =~= attr_bytes(s[0]) + attrs_bytes(s.drop_first()));
        assert(read_back_all(s) =~= read_back(s[0]) + read_back_all(s.drop_first()));
    } else {
        lemma_attrs_bytes_front(s.drop_last());
        assert(s.drop_last().drop_first() =~= s.drop_first().drop_last());
        assert(s.drop_first().last() == s.last());
        assert(attrs_bytes(s) =~= attr_bytes(s[0]) + attrs_bytes(s.drop_first()));
        assert(read_back_all(s) =~= read_back(s[0]) + read_back_all(s.drop_first()));
    }
}

/// One walk step over an encoded attribute that reads back.
proof fn lemma_walk_step(data: Seq<u8>, off: int, a: AttributeView)
    requires
        0 <= off,
        reads_back(a),
        off + attr_bytes(a).len() <= data.len(),
        data.subrange(off, off + attr_bytes(a).len()) == attr_bytes(a),
    ensures
        walk(data, off) == read_back(a) + walk(data, off + attr_bytes(a).len()),
        walk_ok(data, off + attr_bytes(a).len()) ==> walk_ok(data, off),
{
    let t = attr_bytes(a);
    lemma_attr_reads_back(a);
    let n = t.len() as int;
    assert(data[off] == t[0] && data[off + 1] == t[1] && data[off + 2] == t[2] && data[off + 3] == t[3]);
    assert(data.subrange(off + 4, off + n) =~= t.subrange(4, n));
    let next = off + n;
    if off + 4 >= data.len() {
        assert(walk(data, next) =~= Seq::<AttributeView>::empty());
        assert(read_back(a) =~= Seq::<AttributeView>::empty());
        assert(walk(data, off) =~= read_back(a) + walk(data, next));
    } else {
        let l = u16_be(data[off + 2], data[off + 3]);
        assert(l == n - 4);
        assert(padding(l as nat) == 0);
        if next >= data.len() {
            assert(walk(data, next) =~= Seq::<AttributeView>::empty());
        }
        assert(walk(data, off) =~= read_back(a) + walk(data, next));
    }
}

/// Walking over encoded attributes that read back gives what they read
/// back as, then what the walk gives after them.
proof fn lemma_walk_attrs(data: Seq<u8>, off: int, s: Seq<AttributeView>)
    requires
        0 <= off,
        off + attrs_bytes(s).len() <= data.len(),
        data.subrange(off, off + attrs_bytes(s).len()) == attrs_bytes(s),
        forall|i: int| 0 <= i < s.len() ==> reads_back(#[trigger] s[i]),
    ensures
        walk(data, off) == read_back_all(s) + walk(data, off + attrs_bytes(s).len()),
        walk_ok(data, off + attrs_bytes(s).len()) ==> walk_ok(data, off),
    decreases s.len(),
{
    if s.len() == 0 {
        assert(read_back_all(s) + walk(data, off) =~= walk(data, off));
    } else {
        let a = s[0];
        let rest = s.drop_first();
        lemma_attrs_bytes_front(s);
        let n = attr_bytes(a).len() as int;
        let end = off + attrs_bytes(s).len();
        assert(data.subrange(off, off + n) =~= attr_bytes(a)) by {
            assert(data.subrange(off, off + n) =~= data.subrange(off, end).subrange(0, n));
        }
        assert(data.subrange(off + n, end) =~= attrs_bytes(rest)) by {
            assert(data.subrange(off + n, end) =~= data.subrange(off, end).subrange(n, end - off));
        }
        assert forall|i: int| 0 <= i < rest.len() implies reads_back(#[trigger] rest[i]) by {
            assert(rest[i] == s[i + 1]);
        }
        lemma_walk_step(data, off, a);
        lemma_walk_attrs(data, off + n, rest);
        assert(walk(data, off) =~= read_back_all(s) + walk(data, end));
    }
}

/// A MAPPED-ADDRESS, SOURCE-ADDRESS or CHANGED-ADDRESS value of family 1
/// reads as the address whose port is the big-endian value of bytes 2..4
/// and whose IPv4 address is the big-endian value of bytes 4..8, as sent.
pub proof fn plain_address_law(t: u16, v: Seq<u8>)
    requires
        t == 0x0001 || t == 0x0004 || t == 0x0005,
        v.len() >= 8,
        v[1] == 1,
    ensures
        parse_attr(t, v).len() == 1,
        ({
            let a = SocketAddress {
                ip: IpAddress::V4((v[4] * 0x100_0000 + v[5] * 0x1_0000 + v[6] * 0x100 + v[7]) as u32),
                port: (v[2] * 0x100 + v[3]) as u16,
            };
            &&& v[2] * 0x100 + v[3] < 0x1_0000
            &&& t == 0x0001 ==> parse_attr(t, v)[0] == AttributeView::MappedAddress(a)
            &&& t == 0x0004 ==> parse_attr(t, v)[0] == AttributeView::SourceAddress(a)
            &&& t == 0x0005 ==> parse_attr(t, v)[0] == AttributeView::ChangedAddress(a)
        }),
{
}

/// An XOR-MAPPED-ADDRESS value of family 1 reads as the address whose port
/// is bytes 2..4 xored with 0x2112 and whose IPv4 address is bytes 4..8
/// xored with the magic cookie 0x2112A442, each read big-endian.
pub proof fn xor_mapped_address_law(v: Seq<u8>)
    requires
        v.len() >= 8,
        v[1] == 1,
    ensures
        parse_attr(0x0020, v) == seq![
            AttributeView::XorMappedAddress(
                SocketAddress {
                    ip: IpAddress::V4(
                        ((v[4] ^ 0x21u8) * 0x100_0000 + (v[5] ^ 0x12u8) * 0x1_0000 + (v[6] ^ 0xA4u8) * 0x100 + (v[7]
                            ^ 0x42u8)) as u32,
                    ),
                    port: ((v[2] ^ 0x21u8) * 0x100 + (v[3] ^ 0x12u8)) as u16,
                },
            ),
        ],
{
    let m = magic_bytes();
    assert(m[0] == 0x21 && m[1] == 0x12 && m[2] == 0xA4 && m[3] == 0x42);
    let b2 = v[2];
    let b3 = v[3];
    assert((((b2 as u16) * 256 + (b3 as u16)) as u16) ^ 0x2112u16 == (((b2 ^ 0x21u8) as u16) * 256 + ((b3
        ^ 0x12u8) as u16)) as u16) by (bit_vector);
    assert(u16_be(b2, b3) == (((b2 as u16) * 256 + (b3 as u16)) as u16));
}

/// Decoding what `encode` writes for a message whose attributes read back
/// succeeds with the same class, the Binding method, the same transaction
/// id, and what the attributes read back as.
pub proof fn stun_client_encode_decode_law(m: MessageView)
    requires
        m.transaction_id.len() == 12,
        forall|i: int| 0 <= i < m.attributes.len() ==> reads_back(#[trigger] m.attributes[i]),
    ensures
        well_headed(encoding(m)),
        walk_ok(encoding(m), 20),
        decoded(encoding(m)) == (MessageView {
            class: m.class,
            method: StunMethod::Binding,
            transaction_id: m.transaction_id,
            attributes: read_back_all(m.attributes),
        }),
{
    let body = attrs_bytes(m.attributes);
    let pre = be16(type_code(m.class)) + be16(body.len() as u16) + magic_bytes() + m.transaction_id + body;
    let data = encoding(m);
    crate::wire::lemma_be16_roundtrip(type_code(m.class));
    let s = if has_fingerprint(m.attributes) {
        m.attributes
    } else {
        m.attributes.push(AttributeView::Fingerprint(fingerprint_of(pre)))
    };
    assert forall|i: int| 0 <= i < s.len() implies reads_back(#[trigger] s[i]) by {
        if i < m.attributes.len() {
            assert(s[i] == m.attributes[i]);
        }
    }
    if !has_fingerprint(m.attributes) {
        assert(s.drop_last() =~= m.attributes);
        assert(read_back_all(s) =~= read_back_all(m.attributes));
    }
    assert(data.subrange(20, 20 + attrs_bytes(s).len() as int) =~= attrs_bytes(s));
    assert(data.len() == 20 + attrs_bytes(s).len());
    lemma_walk_attrs(data, 20, s);
    assert(walk(data, data.len() as int) =~= Seq::<AttributeView>::empty());
    assert(data.subrange(4, 8) =~= magic_bytes());
    assert(data.subrange(8, 20) =~= m.transaction_id);
    assert(data[0] == be16(type_code(m.class))[0] && data[1] == be16(type_code(m.class))[1]);
    assert(read_back_all(s) + walk(data, data.len() as int) =~= read_back_all(s));
}

impl StunMessage {
    pub fn new_binding_request() -> (m: Self)
        ensures
            m@ == (MessageView {
                class: StunClass::Request,
                method: StunMethod::Binding,
                transaction_id: fixed_transaction_bytes(),
                attributes: Seq::empty(),
            }),
    {
        let m = StunMessage {
            class: StunClass::Request,
            method: StunMethod::Binding,
            transaction_id: TransactionId::new(),
            attributes: Vec::new(),
        };
        assert(m@.attributes =~= Seq::<AttributeView>::empty());
        m
    }

    fn with_attribute(self, a: StunAttribute) -> (m: Self)
        ensures
            m@ == (MessageView { attributes: self@.attributes.push(a@), ..self@ }),
    {
        let ghost before = self@;
        let mut m = self;
        m.attributes.push(a);
        assert(m@.attributes =~= before.attributes.push(a@));
        m
    }

    pub fn with_username(self, username: &str) -> (m: Self)
        ensures
            m@ == (MessageView {
                attributes: self@.attributes.push(AttributeView::Username(username.spec_bytes())),
                ..self@
            }),
    {
        let mut data: Vec<u8> = Vec::new();
        push_all(&mut data, username.as_bytes());
        assert(data@ =~= username.spec_bytes());
        self.with_attribute(StunAttribute::Username(data))
    }

    pub fn with_priority(self, priority: u32) -> (m: Self)
        ensures
            m@ == (MessageView { attributes: self@.attributes.push(AttributeView::Priority(priority)), ..self@ }),
    {
        self.with_attribute(StunAttribute::Priority(priority))
    }

    pub fn with_use_candidate(self) -> (m: Self)
        ensures
            m@ == (MessageView { attributes: self@.attributes.push(AttributeView::UseCandidate), ..self@ }),
    {
        self.with_attribute(StunAttribute::UseCandidate)
    }

    pub fn with_ice_controlling(self, tie_breaker: u64) -> (m: Self)
        ensures
            m@ == (MessageView {
                attributes: self@.attributes.push(AttributeView::IceControlling(tie_breaker)),
                ..self@
            }),
    {
        self.with_attribute(StunAttribute::IceControlling(tie_breaker))
    }

    pub fn with_ice_controlled(self, tie_breaker: u64) -> (m: Self)
        ensures
            m@ == (MessageView {
                attributes: self@.attributes.push(AttributeView::IceControlled(tie_breaker)),
                ..self@
            }),
    {
        self.with_attribute(StunAttribute::IceControlled(tie_breaker))
    }

    /// The encoding of the message, with a fingerprint appended when it has
    /// none of its own.
    pub fn encode(&self) -> (b: Vec<u8>)
        ensures
            b@ == encoding(self@),
    {
        let mut buf: Vec<u8> = Vec::new();
        let code: u16 = match self.class {
            StunClass::Request => 0x0001,
            StunClass::SuccessResponse => 0x0101,
            StunClass::ErrorResponse => 0x0111,
        };
        let mut body: Vec<u8> = Vec::new();
        let mut has_fp = false;
        let mut i: usize = 0;
        while i < self.attributes.len()
            invariant
                i <= self.attributes@.len(),
                body@ == attrs_bytes(attr_views(self.attributes@).take(i as int)),
                has_fp == has_fingerprint(attr_views(self.attributes@).take(i as int)),
            decreases self.attributes@.len() - i,
        {
            let ghost s = attr_views(self.attributes@);
            assert(s.take(i + 1).drop_last() =~= s.take(i as int));
            assert(s.take(i + 1).last() == self.attributes@[i as int]@);
            self.encode_attribute(&self.attributes[i], &mut body);
            match &self.attributes[i] {
                StunAttribute::Fingerprint(_) => {
                    has_fp = true;
                    assert(s.take(i + 1)[i as int] is Fingerprint);
                },
                _ => {
                    proof {
                        if has_fp {
                            let w = choose|w: int| 0 <= w < i && s.take(i as int)[w] is Fingerprint;
                            assert(s.take(i + 1)[w] is Fingerprint);
                        } else {
                            assert forall|w: int| 0 <= w < i + 1 implies !((#[trigger] s.take(i + 1)[w]) is Fingerprint) by {
                                if w < i {
                                    assert(s.take(i + 1)[w] == s.take(i as int)[w]);
                                }
                            }
                        }
                    }
                },
            }
            i = i + 1;
        }
        assert(attr_views(self.attributes@).take(i as int) =~= attr_views(self.attributes@));
        push_u16(&mut buf, code);
        push_u16(&mut buf, body.len() as u16);
        push_u32(&mut buf, 0x2112A442);
        push_all(&mut buf, self.transaction_id.as_bytes().as_slice());
        push_all(&mut buf, body.as_slice());
        if !has_fp {
            let crc = Self::calculate_fingerprint(buf.as_slice());
            self.encode_tlv(0x8028, &u32_bytes(crc), &mut buf);
        }
        buf
    }

    /// Appends the encoding of one attribute.
    fn encode_attribute(&self, attr: &StunAttribute, buf: &mut Vec<u8>)
        ensures
            final(buf)@ == old(buf)@ + attr_bytes(attr@),
    {
        match attr {
            StunAttribute::MappedAddress(addr) => self.encode_xor_address(0x0001, *addr, buf),
            StunAttribute::SourceAddress(addr) => self.encode_xor_address(0x0004, *addr, buf),
            StunAttribute::ChangedAddress(addr) => self.encode_xor_address(0x0005, *addr, buf),
            StunAttribute::XorMappedAddress(addr) => self.encode_xor_address(0x0020, *addr, buf),
            StunAttribute::Username(data) => self.encode_tlv(0x0006, data.as_slice(), buf),
            StunAttribute::Password(data) => self.encode_tlv(0x0007, data.as_slice(), buf),
            StunAttribute::MessageIntegrity(data) => self.encode_tlv(0x0008, data.as_slice(), buf),
            StunAttribute::Fingerprint(crc) => self.encode_tlv(0x8028, &u32_bytes(*crc), buf),
            StunAttribute::Priority(priority) => self.encode_tlv(0x0024, &u32_bytes(*priority), buf),
            StunAttribute::UseCandidate => self.encode_tlv(0x0025, &[0u8, 0u8, 0u8, 0u8], buf),
            StunAttribute::IceControlled(tie) => self.encode_tlv(0x8029, &u64_bytes(*tie), buf),
            StunAttribute::IceControlling(tie) => self.encode_tlv(0x802A, &u64_bytes(*tie), buf),
        }
    }

    /// Appends an address attribute.
    fn encode_xor_address(&self, attr_type: u16, addr: SocketAddress, buf: &mut Vec<u8>)
        ensures
            final(buf)@ == old(buf)@ + tlv(attr_type, address_value(addr)),
    {
        let magic = crate::wire::u32_to_be(0x2112A442);
        let mut value: Vec<u8> = Vec::new();
        value.push(0u8);
        value.push(0u8);
        push_u16(&mut value, addr.port ^ 0x2112u16);
        let ghost head = value@;
        let n: usize = match addr.ip {
            IpAddress::V4(_) => 4,
            IpAddress::V6(_) => 16,
        };
        let mut i: usize = 1;
        while i < n
            invariant
                1 <= i <= n,
                n == ip_len(addr.ip),
                magic@ == magic_bytes(),
                value@ == head + xor_ip(addr.ip).subrange(1, i as int),
            decreases n - i,
        {
            let octet: u8 = match addr.ip {
                IpAddress::V4(a) => {
                    let b = crate::wire::u32_to_be(a);
                    b[i]
                },
                IpAddress::V6(v) => (v >> (120 - 8 * (i as u128))) as u8,
            };
            value.push(octet ^ magic[i % 4]);
            assert(value@ =~= head + xor_ip(addr.ip).subrange(1, i + 1));
            i = i + 1;
        }
        assert(value@ =~= address_value(addr));
        self.encode_tlv(attr_type, value.as_slice(), buf);
    }

    /// Appends type, padded length, value and padding.
    fn encode_tlv(&self, attr_type: u16, value: &[u8], buf: &mut Vec<u8>)
        ensures
            final(buf)@ == old(buf)@ + tlv(attr_type, value@),
    {
        let ghost start = buf@;
        let pad = (4 - value.len() % 4) % 4;
        let total = ((value.len() % 0x1_0000) + pad) % 0x1_0000;
        assert(total == (value@.len() + padding(value@.len() as nat)) % 0x1_0000) by (nonlinear_arith)
            requires
                pad == padding(value@.len() as nat),
                total == ((value@.len() % 0x1_0000) + pad) % 0x1_0000,
        ;
        push_u16(buf, attr_type);
        push_u16(buf, total as u16);
        push_all(buf, value);
        push_zeros(buf, pad);
        assert(buf@ =~= start + tlv(attr_type, value@));
    }

    /// The fingerprint of the bytes so far.
    fn calculate_fingerprint(msg: &[u8]) -> (c: u32)
        ensures
            c == fingerprint_of(msg@),
    {
        let mut crc: u32 = 0xFFFF_FFFF;
        let mut i: usize = 0;
        while i < msg.len()
            invariant
                i <= msg@.len(),
                crc == crc_fold(0xFFFF_FFFFu32, msg@.take(i as int)),
            decreases msg@.len() - i,
        {
            assert(msg@.take(i + 1).drop_last() =~= msg@.take(i as int));
            crc = crc ^ (msg[i] as u32);
            let ghost start = crc;
            let mut k: u32 = 0;
            while k < 8
                invariant
                    k <= 8,
                    crc_steps(crc, (8 - k) as nat) == crc_steps(start, 8),
                decreases 8 - k,
            {
                crc = (crc >> 1) ^ (0xEDB88320u32 & !(crc & 1));
                k = k + 1;
            }
            i = i + 1;
        }
        assert(msg@.take(i as int) =~= msg@);
        !crc
    }

    /// Reads a Binding message: the header, then the attributes it knows.
    pub fn decode(data: &[u8]) -> (r: Result<Self, StunClientError>)
        requires
            data@.len() <= usize::MAX - 0x2_0000,
            well_headed(data@) ==> walk_ok(data@, 20),
        ensures
            data@.len() < 20 ==> (r matches Err(StunClientError::ParseError(e)) && e@ == "Message too short"@),
            data@.len() >= 20 && data@.subrange(4, 8) != magic_bytes() ==> (r matches Err(
                StunClientError::ParseError(e),
            ) && e@ == "Invalid magic cookie"@),
            data@.len() >= 20 && data@.subrange(4, 8) == magic_bytes() && class_of(u16_be(data@[0], data@[1]))
                is None ==> (r matches Err(StunClientError::ParseError(e)) && e@ == "Unknown message type: "@
                + hex4(u16_be(data@[0], data@[1]))),
            well_headed(data@) <==> r is Ok,
            r matches Ok(m) ==> m@ == decoded(data@),
    {
        proof {
            reveal_strlit("Message too short");
            reveal_strlit("Invalid magic cookie");
            reveal_strlit("Unknown message type: ");
        }
        if data.len() < 20 {
            return Err(StunClientError::ParseError(owned("Message too short")));
        }
        let msg_type = crate::wire::read_u16(data, 0);
        let magic = crate::wire::read_u32(data, 4);
        if magic != 0x2112A442 {
            proof {
                if data@.subrange(4, 8) == magic_bytes() {
                    crate::wire::lemma_be32_roundtrip(0x2112A442);
                }
            }
            return Err(StunClientError::ParseError(owned("Invalid magic cookie")));
        }
        proof {
            assert(data@.subrange(4, 8) =~= magic_bytes()) by {
                crate::wire::lemma_be32_roundtrip(0x2112A442);
            }
        }
        let class = if msg_type == 0x0001 {
            StunClass::Request
        } else if msg_type == 0x0101 {
            StunClass::SuccessResponse
        } else if msg_type == 0x0111 {
            StunClass::ErrorResponse
        } else {
            let mut e = owned("Unknown message type: ");
            push_hex4(&mut e, msg_type);
            return Err(StunClientError::ParseError(e));
        };
        let mut id = [0u8; 12];
        let mut j: usize = 0;
        while j < 12
            invariant
                j <= 12,
                data@.len() >= 20,
                id@.len() == 12,
                forall|k: int| 0 <= k < j ==> id@[k] == data@[8 + k],
            decreases 12 - j,
        {
            id[j] = data[8 + j];
            j = j + 1;
        }
        assert(id@ =~= data@.subrange(8, 20));
        let attributes = Self::decode_attributes(data);
        let m = StunMessage { class, method: StunMethod::Binding, transaction_id: TransactionId(id), attributes };
        Ok(m)
    }

    /// The attributes of a message whose header was read.
    fn decode_attributes(data: &[u8]) -> (v: Vec<StunAttribute>)
        requires
            20 <= data@.len() <= usize::MAX - 0x2_0000,
            walk_ok(data@, 20),
        ensures
            attr_views(v@) == walk(data@, 20),
    {
        let mut attributes: Vec<StunAttribute> = Vec::new();
        let mut offset: usize = 20;
        assert(attr_views(attributes@) =~= Seq::<AttributeView>::empty());
        while offset < data.len() - 4
            invariant_except_break
                20 <= data@.len(),
                20 <= offset <= data@.len() + 0x1_0004,
                data@.len() <= usize::MAX - 0x2_0000,
                walk_ok(data@, offset as int),
                attr_views(attributes@) + walk(data@, offset as int) == walk(data@, 20),
            ensures
                attr_views(attributes@) == walk(data@, 20),
            decreases data@.len() + 0x1_0004 - offset,
        {
            let ghost off = offset as int;
            let attr_type = crate::wire::read_u16(data, offset);
            let attr_len = crate::wire::read_u16(data, offset + 2);
            let start = offset + 4;
            if start + attr_len as usize > data.len() {
                assert(walk(data@, off) =~= Seq::<AttributeView>::empty());
                assert(attr_views(attributes@) =~= attr_views(attributes@) + walk(data@, off));
                break;
            }
            let end = start + attr_len as usize;
            let value = crate::wire::sub_vec(data, start, end);
            let ghost before = attr_views(attributes@);
            Self::parse_into(attr_type, value.as_slice(), &mut attributes);
            let pad = (4 - (attr_len % 4)) % 4;
            let next = end + pad as usize;
            proof {
                let here = parse_attr(attr_type, data@.subrange(start as int, end as int));
                assert(attr_views(attributes@) =~= before + here);
                if next < data@.len() {
                    assert(walk(data@, off) == here + walk(data@, next as int));
                } else {
                    assert(walk(data@, off) == here);
                    assert(walk(data@, next as int) =~= Seq::<AttributeView>::empty());
                }
                assert(attr_views(attributes@) + walk(data@, next as int) =~= before + walk(data@, off));
            }
            offset = next;
        }
        proof {
            if offset < data@.len() - 4 {
            } else {
                assert(walk(data@, offset as int) =~= Seq::<AttributeView>::empty());
                assert(attr_views(attributes@) =~= attr_views(attributes@) + walk(data@, offset as int));
            }
        }
        attributes
    }

    /// Appends what one attribute value reads as.
    fn parse_into(t: u16, v: &[u8], out: &mut Vec<StunAttribute>)
        requires
            !attr_overruns(t, v@),
        ensures
            attr_views(final(out)@) == attr_views(old(out)@) + parse_attr(t, v@),
    {
        let ghost before = out@;
        if (t == 0x0001 || t == 0x0004 || t == 0x0005) && v.len() >= 4 {
            let port = crate::wire::read_u16(v, 2);
            let ip = if v[1] == 1 {
                IpAddress::V4(crate::wire::read_u32(v, 4))
            } else {
                IpAddress::V6(read_u128(v, 4))
            };
            let a = SocketAddress { ip, port };
            if t == 0x0001 {
                out.push(StunAttribute::MappedAddress(a));
            } else if t == 0x0004 {
                out.push(StunAttribute::SourceAddress(a));
            } else {
                out.push(StunAttribute::ChangedAddress(a));
            }
        } else if t == 0x0020 && v.len() >= 4 {
            let port = crate::wire::read_u16(v, 2) ^ 0x2112u16;
            let ip = if v[1] == 1 {
                let m = crate::wire::u32_to_be(0x2112A442);
                let a = (((v[4] ^ m[0]) as u32) * 0x100_0000) + (((v[5] ^ m[1]) as u32) * 0x1_0000) + (((v[6]
                    ^ m[2]) as u32) * 256) + ((v[7] ^ m[3]) as u32);
                IpAddress::V4(a)
            } else {
                IpAddress::V6(0)
            };
            out.push(StunAttribute::XorMappedAddress(SocketAddress { ip, port }));
        } else if t == 0x0024 && v.len() >= 4 {
            out.push(StunAttribute::Priority(crate::wire::read_u32(v, 0)));
        } else if t == 0x0025 {
            out.push(StunAttribute::UseCandidate);
        }
        assert(attr_views(out@) =~= attr_views(before) + parse_attr(t, v@));
    }

    /// The first mapped or xor-mapped address, in attribute order.
    pub fn mapped_address(&self) -> (a: Option<SocketAddress>)
        ensures
            a == first_mapped(self@.attributes),
    {
        let ghost s = self@.attributes;
        let mut i: usize = 0;
        assert(s.skip(0) =~= s);
        while i < self.attributes.len()
            invariant
                i <= self.attributes@.len(),
                s == attr_views(self.attributes@),
                first_mapped(s) == first_mapped(s.skip(i as int)),
            decreases self.attributes@.len() - i,
        {
            assert(s.skip(i as int)[0] == self.attributes@[i as int]@);
            match &self.attributes[i] {
                StunAttribute::XorMappedAddress(addr) => {
                    return Some(*addr);
                },
                StunAttribute::MappedAddress(addr) => {
                    return Some(*addr);
                },
                _ => {},
            }
            assert(s.skip(i as int).drop_first() =~= s.skip(i + 1));
            i = i + 1;
        }
        assert(s.skip(i as int) =~= Seq::<AttributeView>::empty());
        None
    }
}

/// The big-endian bytes of a 32-bit value.
fn u32_bytes(x: u32) -> (b: [u8; 4])
    ensures
        b@ == be32(x),
{
    crate::wire::u32_to_be(x)
}

/// The big-endian bytes of a 64-bit value.
fn u64_bytes(x: u64) -> (b: [u8; 8])
    ensures
        b@ == be64(x),
{
    let hi = crate::wire::u32_to_be((x / 0x1_0000_0000) as u32);
    let lo = crate::wire::u32_to_be((x % 0x1_0000_0000) as u32);
    let b = [hi[0], hi[1], hi[2], hi[3], lo[0], lo[1], lo[2], lo[3]];
    assert(b@ =~= be64(x));
    b
}

/// Sixteen bytes from `off` read as a big-endian 128-bit value.
fn read_u128(v: &[u8], off: usize) -> (r: u128)
    requires
        off + 16 <= v@.len(),
    ensures
        r == be_u128(v@.subrange(off as int, off + 16)),
{
    let mut acc: u128 = 0;
    let mut k: usize = 0;
    let n = v.len();
    assert(v@.subrange(off as int, off as int) =~= Seq::<u8>::empty());
    while k < 16
        invariant
            k <= 16,
            n == v@.len(),
            off + 16 <= n,
            acc == be_u128(v@.subrange(off as int, off + k)),
        decreases 16 - k,
    {
        assert(v@.subrange(off as int, off + k + 1).drop_last() =~= v@.subrange(off as int, off + k));
        acc = (acc << 8) | (v[off + k] as u128);
        k = k + 1;
    }
    acc
}

pub struct StunClient {
    local_addr: SocketAddress,
    username: String,
    password: String,
}

#[derive(Clone, Copy)]
enum CandidateType {
    Host,
    ServerReflexive,
    PeerReflexive,
    Relayed,
    Unknown,
}

spec fn type_preference_of(t: CandidateType) -> u32 {
    match t {
        CandidateType::Host => 126,
        CandidateType::ServerReflexive => 100,
        CandidateType::PeerReflexive => 110,
        CandidateType::Relayed => 0,
        CandidateType::Unknown => 0,
    }
}

/// The priority a binding request carries: the local preference shifted
/// by one, or-ed with `65535 - component` plus the type preference.
spec fn internal_priority(t: CandidateType, component_id: u16, local_pref: u32) -> u32 {
    (local_pref << 1u32) | ((65535 - component_id) + type_preference_of(t)) as u32
}

fn compute_priority_internal(candidate_type: CandidateType, component_id: u16, local_pref: u32) -> (p: u32)
    ensures
        p == internal_priority(candidate_type, component_id, local_pref),
{
    let type_preference: u32 = match candidate_type {
        CandidateType::Host => 126,
        CandidateType::ServerReflexive => 100,
        CandidateType::PeerReflexive => 110,
        CandidateType::Relayed => 0,
        CandidateType::Unknown => 0,
    };
    (local_pref << 1) | ((65535 - component_id as u32) + type_preference)
}

/// The priority of the client's binding requests: local preference 65535
/// shifted by one, or-ed with 65535 - 1 plus the server-reflexive type
/// preference 100.
pub open spec fn request_priority() -> u32 {
    (65535u32 << 1u32) | 65634u32
}

impl StunClient {
    pub closed spec fn spec_username(&self) -> Seq<char> {
        self.username@
    }

    pub closed spec fn spec_password(&self) -> Seq<char> {
        self.password@
    }

    pub closed spec fn spec_local_addr(&self) -> SocketAddress {
        self.local_addr
    }

    pub fn new(local_addr: SocketAddress, username: &str, password: &str) -> (c: Self)
        ensures
            c.spec_local_addr() == local_addr,
            c.spec_username() == username@,
            c.spec_password() == password@,
    {
        StunClient { local_addr, username: owned(username), password: owned(password) }
    }

    /// A binding request carrying the username, the priority of a
    /// server-reflexive candidate of component 1, the ICE-CONTROLLING tie
    /// breaker and, when asked, USE-CANDIDATE.
    pub fn create_binding_request(&self, tie_breaker: u64, use_candidate: bool) -> (m: StunMessage)
        ensures
            m@.class == StunClass::Request,
            m@.method == StunMethod::Binding,
            m@.transaction_id == fixed_transaction_bytes(),
            m@.attributes == (if use_candidate {
                seq![
                    AttributeView::Username(vstd::utf8::encode_utf8(self.spec_username())),
                    AttributeView::Priority(request_priority()),
                    AttributeView::IceControlling(tie_breaker),
                    AttributeView::UseCandidate,
                ]
            } else {
                seq![
                    AttributeView::Username(vstd::utf8::encode_utf8(self.spec_username())),
                    AttributeView::Priority(request_priority()),
                    AttributeView::IceControlling(tie_breaker),
                ]
            }),
    {
        let priority = compute_priority_internal(CandidateType::ServerReflexive, 1, 65535);
        let mut msg = StunMessage::new_binding_request().with_username(self.username.as_str()).with_priority(
            priority,
        ).with_ice_controlling(tie_breaker);
        if use_candidate {
            msg = msg.with_use_candidate();
        }
        assert(msg@.attributes =~= (if use_candidate {
            seq![
                AttributeView::Username(vstd::utf8::encode_utf8(self.spec_username())),
                AttributeView::Priority(request_priority()),
                AttributeView::IceControlling(tie_breaker),
                AttributeView::UseCandidate,
            ]
        } else {
            seq![
                AttributeView::Username(vstd::utf8::encode_utf8(self.spec_username())),
                AttributeView::Priority(request_priority()),
                AttributeView::IceControlling(tie_breaker),
            ]
        }));
        msg
    }
}

} // verus!
