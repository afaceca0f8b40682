//! STUN messages: the 20-byte header, the attributes that follow it, and
//! their wire form.
use vstd::prelude::*;
use crate::cc::gcc::wall_clock_ns;
use crate::wire::{
    be16, be32, be64, bytes_eq, copy_into, lemma_be16_roundtrip, lemma_be32_roundtrip,
    lemma_be64_roundtrip, push_all, push_prefix, push_u16, push_u32, push_u64, push_zeros,
    read_u16, read_u32, read_u64, sub_vec, u16_be, u32_be, u64_be, zeros,
};

verus! {

pub const STUN_MAGIC_COOKIE: u32 = 0x2112A442;

pub const STUN_HEADER_SIZE: usize = 20;

/// Room the encoder has for the attributes of one message.
pub const STUN_MAX_ATTR_BYTES: usize = 4096;

#[derive(Debug)]
pub enum StunError {
    TooShort,
    InvalidMagic,
    InvalidLength,
    UnknownAttribute(u16),
    AttributeTooLarge,
}

#[derive(Clone, Copy, Debug, PartialEq, Eq, Structural)]
pub enum StunClass {
    Request,
    Indication,
    SuccessResponse,
    ErrorResponse,
}

/// The class that the two class bits (bits 8 and 4) of a message type
/// name.
pub open spec fn class_of_bits(bits: u16) -> StunClass {
    let hi = (bits / 256) % 2 == 1;
    let lo = (bits / 16) % 2 == 1;
    if !hi && !lo {
        StunClass::Request
    } else if !hi && lo {
        StunClass::Indication
    } else if hi && !lo {
        StunClass::SuccessResponse
    } else {
        StunClass::ErrorResponse
    }
}

impl StunClass {
    pub open spec fn spec_bits(self) -> u16 {
        match self {
            StunClass::Request => 0x0000,
            StunClass::Indication => 0x0010,
            StunClass::SuccessResponse => 0x0100,
            StunClass::ErrorResponse => 0x0110,
        }
    }

    fn bits(&self) -> (b: u16)
        ensures
            b == self.spec_bits(),
    {
        match self {
            StunClass::Request => 0x0000,
            StunClass::Indication => 0x0010,
            StunClass::SuccessResponse => 0x0100,
            StunClass::ErrorResponse => 0x0110,
        }
    }

    /// The class named by the class bits of a message type; every type
    /// names one.
    pub fn from_bits(bits: u16) -> (r: Option<Self>)
        ensures
            r == Some(class_of_bits(bits)),
    {
        let c_bits = ((bits >> 7) & 0x2) | ((bits >> 4) & 0x1);
        assert(c_bits == ((bits / 256) % 2) * 2 + (bits / 16) % 2) by (bit_vector)
            requires
                c_bits == ((bits >> 7) & 0x2) | ((bits >> 4) & 0x1),
        ;
        match c_bits {
            0x0 => Some(StunClass::Request),
            0x1 => Some(StunClass::Indication),
            0x2 => Some(StunClass::SuccessResponse),
            0x3 => Some(StunClass::ErrorResponse),
            _ => None,
        }
    }
}

#[derive(Clone, Copy, Debug, PartialEq, Eq, Structural)]
pub enum StunMethod {
    Binding,
    Allocate,
    Refresh,
    Send,
    Data,
    CreatePermission,
    ChannelBind,
}

/// The method named by the method bits of a message type, if any.
pub open spec fn method_of_bits(bits: u16) -> Option<StunMethod> {
    let m = bits & 0x3EEF;
    if m == 0x0001 {
        Some(StunMethod::Binding)
    } else if m == 0x0003 {
        Some(StunMethod::Allocate)
    } else if m == 0x0004 {
        Some(StunMethod::Refresh)
    } else if m == 0x0006 {
        Some(StunMethod::Send)
    } else if m == 0x0007 {
        Some(StunMethod::Data)
    } else if m == 0x0008 {
        Some(StunMethod::CreatePermission)
    } else if m == 0x0009 {
        Some(StunMethod::ChannelBind)
    } else {
        None
    }
}

impl StunMethod {
    pub open spec fn spec_bits(self) -> u16 {
        match self {
            StunMethod::Binding => 0x0001,
            StunMethod::Allocate => 0x0003,
            StunMethod::Refresh => 0x0004,
            StunMethod::Send => 0x0006,
            StunMethod::Data => 0x0007,
            StunMethod::CreatePermission => 0x0008,
            StunMethod::ChannelBind => 0x0009,
        }
    }

    pub fn bits(&self) -> (b: u16)
        ensures
            b == self.spec_bits(),
    {
        match self {
            StunMethod::Binding => 0x0001,
            StunMethod::Allocate => 0x0003,
            StunMethod::Refresh => 0x0004,
            StunMethod::Send => 0x0006,
            StunMethod::Data => 0x0007,
            StunMethod::CreatePermission => 0x0008,
            StunMethod::ChannelBind => 0x0009,
        }
    }

    pub fn from_bits(bits: u16) -> (r: Option<Self>)
        ensures
            r == method_of_bits(bits),
    {
        match bits & 0x3EEF {
            0x0001 => Some(StunMethod::Binding),
            0x0003 => Some(StunMethod::Allocate),
            0x0004 => Some(StunMethod::Refresh),
            0x0006 => Some(StunMethod::Send),
            0x0007 => Some(StunMethod::Data),
            0x0008 => Some(StunMethod::CreatePermission),
            0x0009 => Some(StunMethod::ChannelBind),
            _ => None,
        }
    }
}

#[derive(Clone, Debug)]
pub enum StunAttribute {
    MappedAddress { family: u8, port: u16, addr: [u8; 16], addr_len: u8 },
    XorMappedAddress { family: u8, port: u16, addr: [u8; 16], addr_len: u8 },
    Username(Vec<u8>),
    MessageIntegrity([u8; 20]),
    Fingerprint(u32),
    Priority(u32),
    UseCandidate,
    IceControlled(u64),
    IceControlling(u64),
    Software(Vec<u8>),
    ErrorCode { code: u16, reason: Vec<u8> },
    Unknown { attr_type: u16, data: Vec<u8> },
}

/// An attribute with its byte fields as sequences.
#[verifier::ext_equal]
pub enum AttrView {
    MappedAddress { family: u8, port: u16, addr: Seq<u8>, addr_len: u8 },
    XorMappedAddress { family: u8, port: u16, addr: Seq<u8>, addr_len: u8 },
    Username(Seq<u8>),
    MessageIntegrity(Seq<u8>),
    Fingerprint(u32),
    Priority(u32),
    UseCandidate,
    IceControlled(u64),
    IceControlling(u64),
    Software(Seq<u8>),
    ErrorCode { code: u16, reason: Seq<u8> },
    Unknown { attr_type: u16, data: Seq<u8> },
}

impl View for StunAttribute {
    type V = AttrView;

    open spec fn view(&self) -> AttrView {
        match self {
            StunAttribute::MappedAddress { family, port, addr, addr_len } => AttrView::MappedAddress {
                family: *family,
                port: *port,
                addr: addr@,
                addr_len: *addr_len,
            },
            StunAttribute::XorMappedAddress { family, port, addr, addr_len } => AttrView::XorMappedAddress {
                family: *family,
                port: *port,
                addr: addr@,
                addr_len: *addr_len,
            },
            StunAttribute::Username(u) => AttrView::Username(u@),
            StunAttribute::MessageIntegrity(h) => AttrView::MessageIntegrity(h@),
            StunAttribute::Fingerprint(c) => AttrView::Fingerprint(*c),
            StunAttribute::Priority(p) => AttrView::Priority(*p),
            StunAttribute::UseCandidate => AttrView::UseCandidate,
            StunAttribute::IceControlled(t) => AttrView::IceControlled(*t),
            StunAttribute::IceControlling(t) => AttrView::IceControlling(*t),
            StunAttribute::Software(s) => AttrView::Software(s@),
            StunAttribute::ErrorCode { code, reason } => AttrView::ErrorCode { code: *code, reason: reason@ },
            StunAttribute::Unknown { attr_type, data } => AttrView::Unknown { attr_type: *attr_type, data: data@ },
        }
    }
}

/// The attribute type code that goes on the wire.
pub open spec fn attr_type_of(a: AttrView) -> u16 {
    match a {
        AttrView::MappedAddress { .. } => 0x0001,
        AttrView::XorMappedAddress { .. } => 0x0020,
        AttrView::Username(_) => 0x0006,
        AttrView::MessageIntegrity(_) => 0x0008,
        AttrView::Fingerprint(_) => 0x8028,
        AttrView::Priority(_) => 0x0024,
        AttrView::UseCandidate => 0x0025,
        AttrView::IceControlled(_) => 0x8029,
        AttrView::IceControlling(_) => 0x802A,
        AttrView::Software(_) => 0x8022,
        AttrView::ErrorCode { .. } => 0x0009,
        AttrView::Unknown { attr_type, .. } => attr_type,
    }
}

impl StunAttribute {
    pub fn attr_type(&self) -> (t: u16)
        ensures
            t == attr_type_of(self@),
    {
        match self {
            StunAttribute::MappedAddress { .. } => 0x0001,
            StunAttribute::XorMappedAddress { .. } => 0x0020,
            StunAttribute::Username(_) => 0x0006,
            StunAttribute::MessageIntegrity(_) => 0x0008,
            StunAttribute::Fingerprint(_) => 0x8028,
            StunAttribute::Priority(_) => 0x0024,
            StunAttribute::UseCandidate => 0x0025,
            StunAttribute::IceControlled(_) => 0x8029,
            StunAttribute::IceControlling(_) => 0x802A,
            StunAttribute::Software(_) => 0x8022,
            StunAttribute::ErrorCode { .. } => 0x0009,
            StunAttribute::Unknown { attr_type, .. } => *attr_type,
        }
    }
}

pub open spec fn min_len(n: nat, cap: nat) -> nat {
    if n < cap {
        n
    } else {
        cap
    }
}

/// Whether an attribute can be encoded: an address takes at most the
/// sixteen bytes it holds.
pub open spec fn attr_encodable(a: AttrView) -> bool {
    match a {
        AttrView::MappedAddress { addr_len, .. } => addr_len <= 16,
        AttrView::XorMappedAddress { addr_len, .. } => addr_len <= 16,
        _ => true,
    }
}

/// The value bytes of an attribute: byte strings are cut to 256 bytes (an
/// error reason to 252), addresses carry a reserved byte, the family, the
/// port (XOR-ed with the top half of the magic cookie) and the address.
pub open spec fn attr_value(a: AttrView) -> Seq<u8> {
    match a {
        AttrView::Priority(p) => be32(p),
        AttrView::UseCandidate => Seq::empty(),
        AttrView::IceControlled(t) => be64(t),
        AttrView::IceControlling(t) => be64(t),
        AttrView::Username(u) => u.take(min_len(u.len(), 256) as int),
        AttrView::MessageIntegrity(h) => h,
        AttrView::Fingerprint(c) => be32(c),
        AttrView::Software(s) => s.take(min_len(s.len(), 256) as int),
        AttrView::Unknown { data, .. } => data.take(min_len(data.len(), 256) as int),
        AttrView::MappedAddress { family, port, addr, addr_len } => seq![0u8, family] + be16(port)
            + addr.take(addr_len as int),
        AttrView::XorMappedAddress { family, port, addr, addr_len } => seq![0u8, family] + be16(
            port ^ 0x2112u16,
        ) + addr.take(addr_len as int),
        AttrView::ErrorCode { code, reason } => seq![
            0u8,
            0u8,
            ((code / 100) % 256) as u8,
            (code % 100) as u8,
        ] + reason.take(min_len(reason.len(), 252) as int),
    }
}

/// `n` rounded up to a multiple of four.
pub open spec fn padded_len(n: nat) -> nat {
    ((n + 3) / 4) * 4
}

/// The wire form of one attribute: type, value length, value, and zero
/// padding to a multiple of four.
pub open spec fn attr_encoding(a: AttrView) -> Seq<u8> {
    let v = attr_value(a);
    be16(attr_type_of(a)) + be16(v.len() as u16) + v + zeros((padded_len(v.len()) - v.len()) as nat)
}

/// The wire form of a list of attributes, one after the other.
pub open spec fn attrs_encoding(s: Seq<AttrView>) -> Seq<u8>
    decreases s.len(),
{
    if s.len() == 0 {
        Seq::empty()
    } else {
        attr_encoding(s[0]) + attrs_encoding(s.drop_first())
    }
}

proof fn lemma_attrs_encoding_split(s: Seq<AttrView>, k: int)
    requires
        0 <= k <= s.len(),
    ensures
        attrs_encoding(s) == attrs_encoding(s.take(k)) + attrs_encoding(s.skip(k)),
    decreases k,
{
    if k == 0 {
        assert(s.take(0) =~= Seq::<AttrView>::empty());
        assert(s.skip(0) =~= s);
        assert(attrs_encoding(s) =~= attrs_encoding(s.take(k)) + attrs_encoding(s.skip(k)));
    } else {
        let d = s.drop_first();
        lemma_attrs_encoding_split(d, k - 1);
        assert(s.take(k)[0] == s[0]);
        assert(s.take(k).drop_first() =~= d.take(k - 1));
        assert(d.skip(k - 1) =~= s.skip(k));
        assert(attrs_encoding(s) =~= attrs_encoding(s.take(k)) + attrs_encoding(s.skip(k)));
    }
}

proof fn lemma_attrs_encoding_push(s: Seq<AttrView>, i: int)
    requires
        0 <= i < s.len(),
    ensures
        attrs_encoding(s.take(i + 1)) == attrs_encoding(s.take(i)) + attr_encoding(s[i]),
{
    let t = s.take(i + 1);
    lemma_attrs_encoding_split(t, i);
    assert(t.take(i) =~= s.take(i));
    assert(t.skip(i) =~= seq![s[i]]);
    let one = seq![s[i]];
    assert(one.drop_first() =~= Seq::<AttrView>::empty());
    assert(attrs_encoding(one.drop_first()) =~= Seq::<u8>::empty());
    assert(attrs_encoding(one) =~= attr_encoding(s[i]));
}

/// The message type word: the method bits, with the class's low bit at
/// bit 4 and its high bit (bit 0 of the class code, always clear) at bit 8.
pub open spec fn type_code(m: StunMethod, c: StunClass) -> u16 {
    (m.spec_bits() + if c == StunClass::Indication || c == StunClass::ErrorResponse {
        0x10int
    } else {
        0
    }) as u16
}

pub struct StunMessage {
    pub method: StunMethod,
    pub class: StunClass,
    pub transaction_id: [u8; 12],
    pub attributes: Vec<StunAttribute>,
}

pub struct StunMessageView {
    pub method: StunMethod,
    pub class: StunClass,
    pub transaction_id: Seq<u8>,
    pub attributes: Seq<AttrView>,
}

pub open spec fn attrs_view(v: Seq<StunAttribute>) -> Seq<AttrView> {
    v.map_values(|a: StunAttribute| a@)
}

impl View for StunMessage {
    type V = StunMessageView;

    open spec fn view(&self) -> StunMessageView {
        StunMessageView {
            method: self.method,
            class: self.class,
            transaction_id: self.transaction_id@,
            attributes: attrs_view(self.attributes@),
        }
    }
}

/// The wire form of a message: type, attribute length, magic cookie,
/// transaction id, attributes.
pub open spec fn encode_model(m: StunMessageView) -> Seq<u8> {
    let a = attrs_encoding(m.attributes);
    be16(type_code(m.method, m.class)) + be16(a.len() as u16) + be32(STUN_MAGIC_COOKIE)
        + m.transaction_id + a
}

/// The little-endian bytes of `x`.
pub open spec fn le64(x: u64) -> Seq<u8> {
    seq![
        (x % 0x100) as u8,
        ((x / 0x100) % 0x100) as u8,
        ((x / 0x1_0000) % 0x100) as u8,
        ((x / 0x100_0000) % 0x100) as u8,
        ((x / 0x1_0000_0000) % 0x100) as u8,
        ((x / 0x100_0000_0000) % 0x100) as u8,
        ((x / 0x1_0000_0000_0000) % 0x100) as u8,
        ((x / 0x100_0000_0000_0000) % 0x100) as u8,
    ]
}

/// Whether an attribute type is one that decoding reads into its own
/// variant.
pub open spec fn known_attr_type(t: u16) -> bool {
    t == 0x0006 || t == 0x0008 || t == 0x8028 || t == 0x0024 || t == 0x0025 || t == 0x8029 || t == 0x802A
}

/// The attribute that decoding makes of a type code and its value bytes:
/// fixed-size values that are too short read as zero; types without a
/// variant of their own are kept as unknown.
pub open spec fn decode_attr_model(t: u16, data: Seq<u8>) -> AttrView {
    if t == 0x0006 {
        AttrView::Username(data)
    } else if t == 0x0008 {
        AttrView::MessageIntegrity(if data.len() >= 20 { data.take(20) } else { zeros(20) })
    } else if t == 0x8028 {
        AttrView::Fingerprint(if data.len() >= 4 { u32_be(data[0], data[1], data[2], data[3]) } else { 0 })
    } else if t == 0x0024 {
        AttrView::Priority(if data.len() >= 4 { u32_be(data[0], data[1], data[2], data[3]) } else { 0 })
    } else if t == 0x0025 {
        AttrView::UseCandidate
    } else if t == 0x8029 {
        AttrView::IceControlled(if data.len() >= 8 { u64_be(data) } else { 0 })
    } else if t == 0x802A {
        AttrView::IceControlling(if data.len() >= 8 { u64_be(data) } else { 0 })
    } else {
        AttrView::Unknown { attr_type: t, data }
    }
}

/// The attributes read from `buf[off..end]`: each is a type, a length, a
/// value of that length, and padding to a multiple of four; `None` when a
/// value runs past `end`. Fewer than four bytes left end the list.
pub open spec fn parse_attrs(buf: Seq<u8>, off: int, end: int) -> Option<Seq<AttrView>>
    decreases end - off + 4,
{
    if off + 4 > end {
        Some(Seq::empty())
    } else {
        let t = u16_be(buf[off], buf[off + 1]);
        let l = u16_be(buf[off + 2], buf[off + 3]) as int;
        if off + 4 + l > end {
            None
        } else {
            let a = decode_attr_model(t, buf.subrange(off + 4, off + 4 + l));
            match parse_attrs(buf, off + 4 + padded_len(l as nat), end) {
                Some(rest) => Some(seq![a] + rest),
                None => None,
            }
        }
    }
}

pub open spec fn prepend(p: Seq<AttrView>, r: Option<Seq<AttrView>>) -> Option<Seq<AttrView>> {
    match r {
        Some(s) => Some(p + s),
        None => None,
    }
}

/// What decoding makes of a buffer.
pub open spec fn decode_model(buf: Seq<u8>) -> Result<StunMessageView, StunError> {
    if buf.len() < STUN_HEADER_SIZE {
        Err(StunError::TooShort)
    } else if u32_be(buf[4], buf[5], buf[6], buf[7]) != STUN_MAGIC_COOKIE {
        Err(StunError::InvalidMagic)
    } else {
        let t = u16_be(buf[0], buf[1]);
        let l = u16_be(buf[2], buf[3]) as int;
        if buf.len() < STUN_HEADER_SIZE + l {
            Err(StunError::InvalidLength)
        } else {
            match method_of_bits(t & 0x3EEF) {
                None => Err(StunError::UnknownAttribute(t)),
                Some(method) => match parse_attrs(buf, STUN_HEADER_SIZE as int, STUN_HEADER_SIZE + l) {
                    None => Err(StunError::InvalidLength),
                    Some(attributes) => Ok(
                        StunMessageView {
                            method,
                            class: class_of_bits(t),
                            transaction_id: buf.subrange(8, 20),
                            attributes,
                        },
                    ),
                },
            }
        }
    }
}

pub open spec fn result_view(r: Result<StunMessage, StunError>) -> Result<StunMessageView, StunError> {
    match r {
        Ok(m) => Ok(m@),
        Err(e) => Err(e),
    }
}

/// Whether decoding reads an attribute back as it was: a username of at
/// most 256 bytes, an integrity code, a fingerprint, a priority, the
/// use-candidate flag, a tie breaker, or an unknown attribute of a type
/// without a variant of its own and at most 256 bytes.
pub open spec fn attr_round_trips(a: AttrView) -> bool {
    match a {
        AttrView::Username(u) => u.len() <= 256,
        AttrView::MessageIntegrity(h) => h.len() == 20,
        AttrView::Fingerprint(_) => true,
        AttrView::Priority(_) => true,
        AttrView::UseCandidate => true,
        AttrView::IceControlled(_) => true,
        AttrView::IceControlling(_) => true,
        AttrView::Unknown { attr_type, data } => data.len() <= 256 && !known_attr_type(attr_type),
        _ => false,
    }
}

proof fn lemma_decode_attr_round_trips(a: AttrView)
    requires
        attr_round_trips(a),
    ensures
        decode_attr_model(attr_type_of(a), attr_value(a)) == a,
        attr_value(a).len() <= 256,
{
    match a {
        AttrView::Username(u) => {
            assert(u.take(u.len() as int) =~= u);
        },
        AttrView::MessageIntegrity(h) => {
            assert(h.take(20) =~= h);
        },
        AttrView::Fingerprint(c) => {
            lemma_be32_roundtrip(c);
        },
        AttrView::Priority(p) => {
            lemma_be32_roundtrip(p);
        },
        AttrView::IceControlled(t) => {
            lemma_be64_roundtrip(t);
        },
        AttrView::IceControlling(t) => {
            lemma_be64_roundtrip(t);
        },
        AttrView::Unknown { attr_type, data } => {
            assert(data.take(data.len() as int) =~= data);
        },
        _ => {},
    }
}

proof fn lemma_parse_encoding(buf: Seq<u8>, off: int, s: Seq<AttrView>)
    requires
        0 <= off,
        off + attrs_encoding(s).len() <= buf.len(),
        buf.subrange(off, off + attrs_encoding(s).len()) == attrs_encoding(s),
        forall|i: int| 0 <= i < s.len() ==> attr_round_trips(#[trigger] s[i]),
    ensures
        parse_attrs(buf, off, off + attrs_encoding(s).len()) == Some(s),
    decreases s.len(),
{
    let end = off + attrs_encoding(s).len();
    if s.len() == 0 {
        assert(s =~= Seq::<AttrView>::empty());
    } else {
        let a = s[0];
        let rest = s.drop_first();
        let e = attr_encoding(a);
        let v = attr_value(a);
        assert(attr_round_trips(s[0]));
        lemma_decode_attr_round_trips(a);
        lemma_be16_roundtrip(attr_type_of(a));
        lemma_be16_roundtrip(v.len() as u16);
        let whole = attrs_encoding(s);
        assert(whole == e + attrs_encoding(rest));
        assert(buf[off] == whole[0]);
        assert(buf[off + 1] == whole[1]);
        assert(buf[off + 2] == whole[2]);
        assert(buf[off + 3] == whole[3]);
        assert(u16_be(buf[off], buf[off + 1]) == attr_type_of(a));
        assert(u16_be(buf[off + 2], buf[off + 3]) == v.len());
        assert(buf.subrange(off + 4, off + 4 + v.len()) =~= v) by {
            assert forall|k: int| 0 <= k < v.len() implies buf.subrange(off + 4, off + 4 + v.len())[k] == v[k] by {
                assert(buf[off + 4 + k] == whole[4 + k]);
                assert(whole[4 + k] == e[4 + k]);
            }
        }
        let next = off + 4 + padded_len(v.len());
        assert(next == off + e.len());
        assert forall|i: int| 0 <= i < rest.len() implies attr_round_trips(#[trigger] rest[i]) by {
            assert(rest[i] == s[i + 1]);
        }
        assert(buf.subrange(next, next + attrs_encoding(rest).len()) =~= attrs_encoding(rest)) by {
            assert forall|k: int| 0 <= k < attrs_encoding(rest).len() implies buf.subrange(
                next,
                next + attrs_encoding(rest).len(),
            )[k] == attrs_encoding(rest)[k] by {
                assert(buf[next + k] == whole[e.len() + k]);
            }
        }
        lemma_parse_encoding(buf, next, rest);
        assert(seq![a] + rest =~= s);
    }
}

/// Decoding the wire form of a request or an indication gives the message
/// back, when every attribute is of a kind that decoding reads back and the
/// attributes take at most 4096 bytes (as `encode` requires).
pub proof fn stun_roundtrip_law(m: StunMessageView)
    requires
        m.class == StunClass::Request || m.class == StunClass::Indication,
        m.transaction_id.len() == 12,
        forall|i: int| 0 <= i < m.attributes.len() ==> attr_round_trips(#[trigger] m.attributes[i]),
        attrs_encoding(m.attributes).len() <= STUN_MAX_ATTR_BYTES,
    ensures
        decode_model(encode_model(m)) == Ok::<StunMessageView, StunError>(m),
{
    let a = attrs_encoding(m.attributes);
    let buf = encode_model(m);
    let t = type_code(m.method, m.class);
    let mb = m.method.spec_bits();
    lemma_be16_roundtrip(t);
    lemma_be16_roundtrip(a.len() as u16);
    lemma_be32_roundtrip(STUN_MAGIC_COOKIE);
    assert(buf.len() == 20 + a.len());
    assert(u16_be(buf[0], buf[1]) == t);
    assert(u16_be(buf[2], buf[3]) == a.len());
    assert(u32_be(buf[4], buf[5], buf[6], buf[7]) == STUN_MAGIC_COOKIE);
    let c: u16 = if m.class == StunClass::Indication { 0x10 } else { 0 };
    assert(t == mb + c);
    assert(t & 0x3EEF == mb) by (bit_vector)
        requires
            t == mb + c,
            1 <= mb <= 9,
            c == 0 || c == 0x10,
    ;
    assert(mb & 0x3EEF == mb) by (bit_vector)
        requires
            1 <= mb <= 9,
    ;
    assert(method_of_bits(t & 0x3EEF) == Some(m.method));
    assert(class_of_bits(t) == m.class);
    assert(buf.subrange(8, 20) =~= m.transaction_id);
    assert(buf.subrange(20, 20 + a.len() as int) =~= a);
    lemma_parse_encoding(buf, 20, m.attributes);
}

impl StunMessage {
    /// A request whose transaction id starts with the current time in
    /// nanoseconds, little-endian, and ends with four zero bytes.
    pub fn new_request(method: StunMethod) -> (m: Self)
        ensures
            m.method == method,
            m.class == StunClass::Request,
            m.attributes@.len() == 0,
            exists|t: u64| m.transaction_id@ == le64(t) + zeros(4),
    {
        let t = wall_clock_ns();
        let tid: [u8; 12] = [
            (t % 0x100) as u8,
            ((t / 0x100) % 0x100) as u8,
            ((t / 0x1_0000) % 0x100) as u8,
            ((t / 0x100_0000) % 0x100) as u8,
            ((t / 0x1_0000_0000) % 0x100) as u8,
            ((t / 0x100_0000_0000) % 0x100) as u8,
            ((t / 0x1_0000_0000_0000) % 0x100) as u8,
            ((t / 0x100_0000_0000_0000) % 0x100) as u8,
            0,
            0,
            0,
            0,
        ];
        assert(tid@ =~= le64(t) + zeros(4));
        StunMessage { method, class: StunClass::Request, transaction_id: tid, attributes: Vec::new() }
    }

    pub fn new_response(method: StunMethod, transaction_id: [u8; 12]) -> (m: Self)
        ensures
            m.method == method,
            m.class == StunClass::SuccessResponse,
            m.transaction_id == transaction_id,
            m.attributes@.len() == 0,
    {
        StunMessage { method, class: StunClass::SuccessResponse, transaction_id, attributes: Vec::new() }
    }

    pub fn add_attribute(&mut self, attr: StunAttribute)
        ensures
            final(self).method == old(self).method,
            final(self).class == old(self).class,
            final(self).transaction_id == old(self).transaction_id,
            final(self).attributes@ == old(self).attributes@.push(attr),
    {
        self.attributes.push(attr);
    }

    fn encode_type(&self) -> (t: u16)
        ensures
            t == type_code(self.method, self.class),
    {
        let method = self.method.bits();
        let class = self.class.bits();
        let m_low = method & 0x000F;
        let m_mid = (method >> 4) & 0x0007;
        let m_high = (method >> 7) & 0x001F;
        let c_low = (class >> 4) & 0x0001;
        let c_high = class & 0x0001;
        let t = m_high << 9 | c_high << 8 | m_mid << 5 | c_low << 4 | m_low;
        assert(t == method + (if class == 0x10u16 || class == 0x110u16 { 0x10u16 } else { 0u16 })) by (bit_vector)
            requires
                1 <= method <= 9,
                class == 0u16 || class == 0x10u16 || class == 0x100u16 || class == 0x110u16,
                m_low == method & 0x000F,
                m_mid == (method >> 4) & 0x0007,
                m_high == (method >> 7) & 0x001F,
                c_low == (class >> 4) & 0x0001,
                c_high == class & 0x0001,
                t == m_high << 9 | c_high << 8 | m_mid << 5 | c_low << 4 | m_low,
        ;
        t
    }

    /// The wire form of one attribute.
    fn encode_attr(&self, attr: &StunAttribute) -> (v: Vec<u8>)
        requires
            attr_encodable(attr@),
        ensures
            v@ == attr_encoding(attr@),
    {
        let attr_type = attr.attr_type();
        let mut value: Vec<u8> = Vec::new();
        match attr {
            StunAttribute::Priority(p) => {
                push_u32(&mut value, *p);
            },
            StunAttribute::UseCandidate => {},
            StunAttribute::IceControlled(tie) => {
                push_u64(&mut value, *tie);
            },
            StunAttribute::IceControlling(tie) => {
                push_u64(&mut value, *tie);
            },
            StunAttribute::Username(u) => {
                let l = if u.len() < 256 { u.len() } else { 256 };
                push_prefix(&mut value, u.as_slice(), l);
            },
            StunAttribute::MessageIntegrity(hmac) => {
                push_all(&mut value, hmac.as_slice());
            },
            StunAttribute::Fingerprint(crc) => {
                push_u32(&mut value, *crc);
            },
            StunAttribute::Software(s) => {
                let l = if s.len() < 256 { s.len() } else { 256 };
                push_prefix(&mut value, s.as_slice(), l);
            },
            StunAttribute::Unknown { data, .. } => {
                let l = if data.len() < 256 { data.len() } else { 256 };
                push_prefix(&mut value, data.as_slice(), l);
            },
            StunAttribute::MappedAddress { family, port, addr, addr_len } => {
                value.push(0u8);
                value.push(*family);
                push_u16(&mut value, *port);
                push_prefix(&mut value, addr.as_slice(), *addr_len as usize);
            },
            StunAttribute::XorMappedAddress { family, port, addr, addr_len } => {
                value.push(0u8);
                value.push(*family);
                push_u16(&mut value, *port ^ 0x2112u16);
                push_prefix(&mut value, addr.as_slice(), *addr_len as usize);
            },
            StunAttribute::ErrorCode { code, reason } => {
                let cls = *code / 100;
                let num = *code % 100;
                value.push(0u8);
                value.push(0u8);
                value.push((cls % 256) as u8);
                value.push(num as u8);
                let rl = if reason.len() < 252 { reason.len() } else { 252 };
                push_prefix(&mut value, reason.as_slice(), rl);
            },
        }
        assert(value@ =~= attr_value(attr@));
        let vlen = value.len();
        let padded = (vlen + 3) / 4 * 4;
        let mut out: Vec<u8> = Vec::new();
        push_u16(&mut out, attr_type);
        push_u16(&mut out, vlen as u16);
        push_all(&mut out, value.as_slice());
        push_zeros(&mut out, padded - vlen);
        out
    }

    /// Writes the message into `out` and returns its length. The attributes
    /// must fit in 4096 bytes, and the whole message in `out`; on an error
    /// nothing is written.
    pub fn encode(&self, out: &mut [u8]) -> (r: Result<usize, StunError>)
        requires
            forall|i: int| 0 <= i < self@.attributes.len() ==> attr_encodable(#[trigger] self@.attributes[i]),
        ensures
            ({
                let a = attrs_encoding(self@.attributes);
                let total = STUN_HEADER_SIZE + a.len();
                &&& a.len() > STUN_MAX_ATTR_BYTES ==> r == Err::<usize, StunError>(StunError::AttributeTooLarge)
                    && final(out)@ == old(out)@
                &&& a.len() <= STUN_MAX_ATTR_BYTES && old(out)@.len() < total ==> r == Err::<usize, StunError>(
                    StunError::TooShort,
                ) && final(out)@ == old(out)@
                &&& a.len() <= STUN_MAX_ATTR_BYTES && old(out)@.len() >= total ==> r == Ok::<usize, StunError>(
                    total as usize,
                ) && final(out)@ == encode_model(self@) + old(out)@.subrange(total as int, old(out)@.len() as int)
            }),
    {
        let ghost s = self@.attributes;
        let mut attr_buf: Vec<u8> = Vec::new();
        let mut i: usize = 0;
        while i < self.attributes.len()
            invariant
                s == self@.attributes,
                s.len() == self.attributes@.len(),
                i <= s.len(),
                forall|j: int| 0 <= j < s.len() ==> attr_encodable(#[trigger] s[j]),
                attr_buf@ == attrs_encoding(s.take(i as int)),
                attr_buf@.len() <= STUN_MAX_ATTR_BYTES,
                out@ == old(out)@,
            decreases s.len() - i,
        {
            assert(self.attributes@[i as int]@ == s[i as int]);
            let bytes = self.encode_attr(&self.attributes[i]);
            proof {
                lemma_attrs_encoding_push(s, i as int);
            }
            if bytes.len() > STUN_MAX_ATTR_BYTES - attr_buf.len() {
                proof {
                    lemma_attrs_encoding_split(s, i + 1);
                }
                return Err(StunError::AttributeTooLarge);
            }
            push_all(&mut attr_buf, bytes.as_slice());
            i = i + 1;
        }
        assert(s.take(s.len() as int) =~= s);
        let attr_len = attr_buf.len();
        let total = STUN_HEADER_SIZE + attr_len;
        if out.len() < total {
            return Err(StunError::TooShort);
        }
        let mut msg: Vec<u8> = Vec::new();
        push_u16(&mut msg, self.encode_type());
        push_u16(&mut msg, attr_len as u16);
        push_u32(&mut msg, STUN_MAGIC_COOKIE);
        push_all(&mut msg, self.transaction_id.as_slice());
        push_all(&mut msg, attr_buf.as_slice());
        assert(msg@ =~= encode_model(self@));
        copy_into(out, 0, msg.as_slice());
        assert(out@ =~= encode_model(self@) + old(out)@.subrange(total as int, old(out)@.len() as int));
        Ok(total)
    }

    /// The attribute a type code and its value bytes decode to.
    fn decode_attr(attr_type: u16, data: &[u8]) -> (a: StunAttribute)
        ensures
            a@ == decode_attr_model(attr_type, data@),
    {
        match attr_type {
            0x0006 => StunAttribute::Username(crate::wire::to_vec(data)),
            0x0008 => {
                let hmac: [u8; 20] = if data.len() >= 20 {
                    [
                        data[0], data[1], data[2], data[3], data[4], data[5], data[6], data[7], data[8], data[9],
                        data[10], data[11], data[12], data[13], data[14], data[15], data[16], data[17], data[18],
                        data[19],
                    ]
                } else {
                    [0u8; 20]
                };
                assert(hmac@ =~= (if data@.len() >= 20 { data@.take(20) } else { zeros(20) }));
                StunAttribute::MessageIntegrity(hmac)
            },
            0x8028 => {
                let crc = if data.len() >= 4 { read_u32(data, 0) } else { 0 };
                StunAttribute::Fingerprint(crc)
            },
            0x0024 => {
                let p = if data.len() >= 4 { read_u32(data, 0) } else { 0 };
                StunAttribute::Priority(p)
            },
            0x0025 => StunAttribute::UseCandidate,
            0x8029 => {
                let t = if data.len() >= 8 { read_u64(data, 0) } else { 0 };
                assert(data@.len() >= 8 ==> u64_be(data@.subrange(0, 8)) == u64_be(data@));
                StunAttribute::IceControlled(t)
            },
            0x802A => {
                let t = if data.len() >= 8 { read_u64(data, 0) } else { 0 };
                assert(data@.len() >= 8 ==> u64_be(data@.subrange(0, 8)) == u64_be(data@));
                StunAttribute::IceControlling(t)
            },
            _ => StunAttribute::Unknown { attr_type, data: crate::wire::to_vec(data) },
        }
    }

    /// Reads a message: its header, then its attributes.
    pub fn decode(buf: &[u8]) -> (r: Result<Self, StunError>)
        ensures
            result_view(r) == decode_model(buf@),
    {
        if buf.len() < STUN_HEADER_SIZE {
            return Err(StunError::TooShort);
        }
        let magic = read_u32(buf, 4);
        if magic != STUN_MAGIC_COOKIE {
            return Err(StunError::InvalidMagic);
        }
        let msg_type = read_u16(buf, 0);
        let msg_len = read_u16(buf, 2) as usize;
        if buf.len() < STUN_HEADER_SIZE + msg_len {
            return Err(StunError::InvalidLength);
        }
        let method_bits = msg_type & 0x3EEF;
        let method = match StunMethod::from_bits(method_bits) {
            Some(m) => m,
            None => {
                return Err(StunError::UnknownAttribute(msg_type));
            },
        };
        assert(method_of_bits(method_bits) == method_of_bits(msg_type & 0x3EEF));
        let class = match StunClass::from_bits(msg_type) {
            Some(c) => c,
            None => {
                return Err(StunError::UnknownAttribute(msg_type));
            },
        };
        let tid: [u8; 12] = [
            buf[8], buf[9], buf[10], buf[11], buf[12], buf[13], buf[14], buf[15], buf[16], buf[17], buf[18],
            buf[19],
        ];
        assert(tid@ =~= buf@.subrange(8, 20));
        let mut attributes: Vec<StunAttribute> = Vec::new();
        let mut off: usize = STUN_HEADER_SIZE;
        let end = STUN_HEADER_SIZE + msg_len;
        assert(attrs_view(attributes@) =~= Seq::<AttrView>::empty());
        assert(prepend(Seq::empty(), parse_attrs(buf@, 20, end as int)) =~= parse_attrs(buf@, 20, end as int));
        while off + 4 <= end
            invariant
                STUN_HEADER_SIZE <= off <= end + 3,
                end == STUN_HEADER_SIZE + msg_len,
                msg_len <= 0xFFFF,
                end <= buf@.len(),
                msg_type == u16_be(buf@[0], buf@[1]),
                msg_len == u16_be(buf@[2], buf@[3]),
                u32_be(buf@[4], buf@[5], buf@[6], buf@[7]) == STUN_MAGIC_COOKIE,
                method_of_bits(msg_type & 0x3EEF) == Some(method),
                parse_attrs(buf@, 20, end as int) == prepend(attrs_view(attributes@), parse_attrs(buf@, off as int, end as int)),
            decreases end + 4 - off,
        {
            let ghost off0 = off as int;
            let ghost p = attrs_view(attributes@);
            let attr_type = read_u16(buf, off);
            let attr_len = read_u16(buf, off + 2) as usize;
            off = off + 4;
            if off + attr_len > end {
                assert(parse_attrs(buf@, off0, end as int) is None);
                return Err(StunError::InvalidLength);
            }
            let data = sub_vec(buf, off, off + attr_len);
            let attr = Self::decode_attr(attr_type, data.as_slice());
            attributes.push(attr);
            let padded = (attr_len + 3) / 4 * 4;
            off = off + padded;
            proof {
                assert(attrs_view(attributes@) =~= p.push(attr@));
                let a = attr@;
                match parse_attrs(buf@, off as int, end as int) {
                    Some(rest) => {
                        assert(p + (seq![a] + rest) =~= p.push(a) + rest);
                    },
                    None => {},
                }
            }
        }
        assert(parse_attrs(buf@, off as int, end as int) == Some(Seq::<AttrView>::empty()));
        assert(attrs_view(attributes@) + Seq::<AttrView>::empty() =~= attrs_view(attributes@));
        Ok(StunMessage { method, class, transaction_id: tid, attributes })
    }

    pub fn transaction_id_matches(&self, other: &[u8; 12]) -> (r: bool)
        ensures
            r == (self.transaction_id@ == other@),
    {
        bytes_eq(self.transaction_id.as_slice(), other.as_slice())
    }
}

} // verus!
