//! ICE candidates: their priority and their SDP attribute text.
use vstd::prelude::*;
use vstd::string::{StringExecFns, StringSliceAdditionalSpecFns};
use crate::net::{SocketAddress, ip_text, push_ip};
use crate::text::{decimal, push_decimal, utf8_text_or_empty, prefix_str};
use crate::wire::copy_prefix_into;

verus! {

#[derive(Clone, Copy, Debug, PartialEq, Eq, Structural)]
pub enum CandidateType {
    Host,
    ServerReflexive,
    PeerReflexive,
    Relay,
}

impl CandidateType {
    /// The type preference: host 126, peer-reflexive 110,
    /// server-reflexive 100, relay 0.
    pub open spec fn preference(self) -> u32 {
        match self {
            CandidateType::Host => 126,
            CandidateType::PeerReflexive => 110,
            CandidateType::ServerReflexive => 100,
            CandidateType::Relay => 0,
        }
    }

    /// The name used in the `typ` field of a candidate attribute.
    pub open spec fn name(self) -> Seq<char> {
        match self {
            CandidateType::Host => "host"@,
            CandidateType::PeerReflexive => "prflx"@,
            CandidateType::ServerReflexive => "srflx"@,
            CandidateType::Relay => "relay"@,
        }
    }

    pub fn type_preference(&self) -> (p: u32)
        ensures
            p == self.preference(),
    {
        match self {
            CandidateType::Host => 126,
            CandidateType::PeerReflexive => 110,
            CandidateType::ServerReflexive => 100,
            CandidateType::Relay => 0,
        }
    }

    pub fn as_str(&self) -> (s: &'static str)
        ensures
            s@ == self.name(),
    {
        match self {
            CandidateType::Host => "host",
            CandidateType::PeerReflexive => "prflx",
            CandidateType::ServerReflexive => "srflx",
            CandidateType::Relay => "relay",
        }
    }
}

#[derive(Clone, Copy, Debug, PartialEq, Eq, Structural)]
pub enum TransportProtocol {
    Udp,
    Tcp,
}

impl TransportProtocol {
    /// The transport name used in a candidate attribute.
    pub open spec fn name(self) -> Seq<char> {
        match self {
            TransportProtocol::Udp => "UDP"@,
            TransportProtocol::Tcp => "TCP"@,
        }
    }

    pub fn as_str(&self) -> (s: &'static str)
        ensures
            s@ == self.name(),
    {
        match self {
            TransportProtocol::Udp => "UDP",
            TransportProtocol::Tcp => "TCP",
        }
    }
}

/// The candidate priority: the type preference in the top byte, the local
/// preference shifted by eight, and `256 - component` in the low bits,
/// combined with a bitwise or.
pub open spec fn candidate_priority(t: CandidateType, local_preference: u32, component_id: u8) -> u32 {
    (t.preference() << 24u32) | (local_preference << 8u32) | ((256 - component_id) as u32)
}

/// For a local preference below 2^16 and a component of at least 1, the
/// three parts of the priority do not overlap, so it is their sum.
pub proof fn lemma_priority_sum(t: CandidateType, local_preference: u32, component_id: u8)
    requires
        local_preference < 0x1_0000,
        1 <= component_id,
    ensures
        candidate_priority(t, local_preference, component_id) == t.preference() * 0x100_0000
            + local_preference * 0x100 + (256 - component_id),
{
    let tp = t.preference();
    let low = (256 - component_id) as u32;
    assert(tp < 256);
    assert(1 <= low <= 255);
    assert((tp << 24u32) | (local_preference << 8u32) | low == tp * 0x100_0000 + local_preference * 0x100 + low)
        by (bit_vector)
        requires
            tp < 256,
            local_preference < 0x1_0000,
            1 <= low <= 255,
    ;
}

/// A candidate of a higher type preference has a higher priority, for
/// the same local preference (below 2^16) and component (at least 1).
pub proof fn candidate_priority_order_law(a: CandidateType, b: CandidateType, local_preference: u32, component_id: u8)
    requires
        a.preference() > b.preference(),
        local_preference < 0x1_0000,
        1 <= component_id,
    ensures
        candidate_priority(a, local_preference, component_id) > candidate_priority(b, local_preference, component_id),
{
    lemma_priority_sum(a, local_preference, component_id);
    lemma_priority_sum(b, local_preference, component_id);
}

/// `src` over the start of `arr`, as far as `arr` reaches.
pub open spec fn overwrite_prefix(arr: Seq<u8>, src: Seq<u8>) -> Seq<u8> {
    let n = if src.len() < arr.len() { src.len() } else { arr.len() };
    src.take(n as int) + arr.skip(n as int)
}

/// How many bytes of `src` fit in `cap`.
pub open spec fn fitted_len(src: Seq<u8>, cap: nat) -> nat {
    if src.len() < cap { src.len() } else { cap }
}

#[derive(Clone, Copy, Debug)]
pub struct IceCandidate {
    pub foundation: [u8; 32],
    pub foundation_len: usize,
    pub component_id: u8,
    pub protocol: TransportProtocol,
    pub priority: u32,
    pub address: SocketAddress,
    pub candidate_type: CandidateType,
    pub related_address: Option<SocketAddress>,
    pub generation: u32,
    pub ufrag: [u8; 32],
    pub ufrag_len: usize,
}

/// The text of the foundation bytes held by a candidate.
pub open spec fn foundation_text(c: IceCandidate) -> Seq<char> {
    utf8_text_or_empty(c.foundation@.take(c.foundation_len as int))
}

/// The `candidate:` attribute of a candidate: foundation, component,
/// transport, priority, address, port and type, then the related address
/// and port when there is one.
pub open spec fn sdp_attribute_text(c: IceCandidate) -> Seq<char> {
    let head = "candidate:"@ + foundation_text(c) + " "@ + decimal(c.component_id as nat) + " "@
        + c.protocol.name() + " "@ + decimal(c.priority as nat) + " "@ + ip_text(c.address.ip) + " "@
        + decimal(c.address.port as nat) + " typ "@ + c.candidate_type.name();
    match c.related_address {
        Some(r) => head + " raddr "@ + ip_text(r.ip) + " rport "@ + decimal(r.port as nat),
        None => head,
    }
}

impl IceCandidate {
    /// A UDP host candidate of local preference 65535, with an empty
    /// foundation and username fragment.
    pub fn new_host(address: SocketAddress, component: u8) -> (c: Self)
        ensures
            c.foundation@ == Seq::new(32, |i: int| 0u8),
            c.foundation_len == 0,
            c.component_id == component,
            c.protocol == TransportProtocol::Udp,
            c.priority == candidate_priority(CandidateType::Host, 65535, component),
            c.address == address,
            c.candidate_type == CandidateType::Host,
            c.related_address == None::<SocketAddress>,
            c.generation == 0,
            c.ufrag@ == Seq::new(32, |i: int| 0u8),
            c.ufrag_len == 0,
    {
        let priority = Self::compute_priority(CandidateType::Host, 65535, component);
        let c = IceCandidate {
            foundation: [0u8; 32],
            foundation_len: 0,
            component_id: component,
            protocol: TransportProtocol::Udp,
            priority,
            address,
            candidate_type: CandidateType::Host,
            related_address: None,
            generation: 0,
            ufrag: [0u8; 32],
            ufrag_len: 0,
        };
        assert(c.foundation@ =~= Seq::new(32, |i: int| 0u8));
        assert(c.ufrag@ =~= Seq::new(32, |i: int| 0u8));
        c
    }

    /// A UDP server-reflexive candidate of local preference 65535 with its
    /// related (base) address.
    pub fn new_srflx(address: SocketAddress, related: SocketAddress, component: u8) -> (c: Self)
        ensures
            c.foundation@ == Seq::new(32, |i: int| 0u8),
            c.foundation_len == 0,
            c.component_id == component,
            c.protocol == TransportProtocol::Udp,
            c.priority == candidate_priority(CandidateType::ServerReflexive, 65535, component),
            c.address == address,
            c.candidate_type == CandidateType::ServerReflexive,
            c.related_address == Some(related),
            c.generation == 0,
            c.ufrag@ == Seq::new(32, |i: int| 0u8),
            c.ufrag_len == 0,
    {
        let priority = Self::compute_priority(CandidateType::ServerReflexive, 65535, component);
        let c = IceCandidate {
            foundation: [0u8; 32],
            foundation_len: 0,
            component_id: component,
            protocol: TransportProtocol::Udp,
            priority,
            address,
            candidate_type: CandidateType::ServerReflexive,
            related_address: Some(related),
            generation: 0,
            ufrag: [0u8; 32],
            ufrag_len: 0,
        };
        assert(c.foundation@ =~= Seq::new(32, |i: int| 0u8));
        assert(c.ufrag@ =~= Seq::new(32, |i: int| 0u8));
        c
    }

    pub fn compute_priority(candidate_type: CandidateType, local_preference: u32, component_id: u8) -> (p: u32)
        ensures
            p == candidate_priority(candidate_type, local_preference, component_id),
    {
        (candidate_type.type_preference() << 24) | (local_preference << 8) | (256u32 - component_id as u32)
    }

    /// Stores as much of `foundation` as fits in 32 bytes.
    pub fn set_foundation(&mut self, foundation: &str)
        ensures
            final(self).foundation@ == overwrite_prefix(old(self).foundation@, foundation.spec_bytes()),
            final(self).foundation_len == fitted_len(foundation.spec_bytes(), 32),
            final(self).ufrag == old(self).ufrag,
            final(self).ufrag_len == old(self).ufrag_len,
            final(self).component_id == old(self).component_id,
            final(self).protocol == old(self).protocol,
            final(self).priority == old(self).priority,
            final(self).address == old(self).address,
            final(self).candidate_type == old(self).candidate_type,
            final(self).related_address == old(self).related_address,
            final(self).generation == old(self).generation,
    {
        let n = copy_prefix_into(&mut self.foundation, foundation.as_bytes());
        self.foundation_len = n;
    }

    /// The stored foundation as text; empty when its bytes are not valid
    /// UTF-8.
    pub fn foundation_str(&self) -> (s: &str)
        requires
            self.foundation_len <= 32,
        ensures
            s@ == foundation_text(*self),
    {
        prefix_str(&self.foundation, self.foundation_len)
    }

    /// Stores as much of `ufrag` as fits in 32 bytes.
    pub fn set_ufrag(&mut self, ufrag: &str)
        ensures
            final(self).ufrag@ == overwrite_prefix(old(self).ufrag@, ufrag.spec_bytes()),
            final(self).ufrag_len == fitted_len(ufrag.spec_bytes(), 32),
            final(self).foundation == old(self).foundation,
            final(self).foundation_len == old(self).foundation_len,
            final(self).component_id == old(self).component_id,
            final(self).protocol == old(self).protocol,
            final(self).priority == old(self).priority,
            final(self).address == old(self).address,
            final(self).candidate_type == old(self).candidate_type,
            final(self).related_address == old(self).related_address,
            final(self).generation == old(self).generation,
    {
        let n = copy_prefix_into(&mut self.ufrag, ufrag.as_bytes());
        self.ufrag_len = n;
    }

    /// The `candidate:` attribute line of this candidate.
    pub fn to_sdp_attribute(&self) -> (s: String)
        requires
            self.foundation_len <= 32,
        ensures
            s@ == sdp_attribute_text(*self),
    {
        proof {
            reveal_strlit("candidate:");
            reveal_strlit(" ");
            reveal_strlit(" typ ");
            reveal_strlit(" raddr ");
            reveal_strlit(" rport ");
        }
        let mut s = String::new();
        s.append("candidate:");
        s.append(self.foundation_str());
        s.append(" ");
        push_decimal(&mut s, self.component_id as u64);
        s.append(" ");
        s.append(self.protocol.as_str());
        s.append(" ");
        push_decimal(&mut s, self.priority as u64);
        s.append(" ");
        push_ip(&mut s, self.address.ip);
        s.append(" ");
        push_decimal(&mut s, self.address.port as u64);
        s.append(" typ ");
        s.append(self.candidate_type.as_str());
        let ghost head = s@;
        assert(head =~= "candidate:"@ + foundation_text(*self) + " "@ + decimal(self.component_id as nat) + " "@
            + self.protocol.name() + " "@ + decimal(self.priority as nat) + " "@ + ip_text(self.address.ip) + " "@
            + decimal(self.address.port as nat) + " typ "@ + self.candidate_type.name());
        match self.related_address {
            Some(rel) => {
                s.append(" raddr ");
                push_ip(&mut s, rel.ip);
                s.append(" rport ");
                push_decimal(&mut s, rel.port as u64);
                assert(s@ =~= head + " raddr "@ + ip_text(rel.ip) + " rport "@ + decimal(rel.port as nat));
            },
            None => {},
        }
        s
    }
}

} // verus!
