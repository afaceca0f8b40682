//! A TURN client's state and the messages it builds and reads.
use vstd::prelude::*;
use vstd::string::StringExecFns;
use crate::cc::gcc::wall_clock_ns;
use crate::ice::stun::{padded_len, STUN_MAGIC_COOKIE};
use crate::net::{IpAddress, SocketAddress};
use crate::text::{hex4, owned, push_hex4, push_str};
use crate::wire::{be16, be32, push_all, push_u16, push_u32, push_zeros, read_u16, read_u32, u16_be, u32_be, zeros};

verus! {

#[derive(Debug)]
pub enum TurnError {
    ConnectionFailed,
    AuthFailed,
    AllocationFailed,
    PermissionDenied,
    ChannelError,
    Timeout,
    Protocol(String),
    NotConnected,
}

#[derive(Clone, Copy, Debug, PartialEq, Eq, Structural)]
pub enum TurnState {
    Idle,
    Connecting,
    Authenticating,
    Allocated,
    Refreshing,
    Closed,
}

#[derive(Clone, Copy, Debug, PartialEq, Eq, Structural)]
pub struct TurnAllocation {
    pub relayed_addr: SocketAddress,
    pub mapped_addr: Option<SocketAddress>,
    pub lifetime: u32,
    pub bandwidth: Option<u32>,
}

/// A permission for a peer, bound to a channel, that lapses at
/// `expires_ns` (wall clock, nanoseconds since the Unix epoch).
#[derive(Clone, Copy, Debug, PartialEq, Eq, Structural)]
pub struct TurnPermission {
    pub peer_addr: SocketAddress,
    pub channel: u16,
    pub expires_ns: u64,
}

/// How long a permission lasts, in nanoseconds.
pub const PERMISSION_LIFETIME_NS: u64 = 600_000_000_000;

pub struct TurnClientView {
    pub server: SocketAddress,
    pub username: Seq<char>,
    pub password: Seq<char>,
    pub state: TurnState,
    pub allocation: Option<TurnAllocation>,
    pub permissions: Seq<TurnPermission>,
    pub channel_bindings: Seq<(SocketAddress, u16)>,
    pub transaction_id: u32,
}

pub struct TurnClient {
    server: SocketAddress,
    username: String,
    password: String,
    state: TurnState,
    allocation: Option<TurnAllocation>,
    permissions: Vec<TurnPermission>,
    channel_bindings: Vec<(SocketAddress, u16)>,
    transaction_id: u32,
    realm: Option<String>,
    nonce: Option<String>,
}

impl View for TurnClient {
    type V = TurnClientView;

    closed spec fn view(&self) -> TurnClientView {
        TurnClientView {
            server: self.server,
            username: self.username@,
            password: self.password@,
            state: self.state,
            allocation: self.allocation,
            permissions: self.permissions@,
            channel_bindings: self.channel_bindings@,
            transaction_id: self.transaction_id,
        }
    }
}

/// The transaction counter after one more request.
pub open spec fn next_tid(t: u32) -> u32 {
    if t == u32::MAX {
        0
    } else {
        (t + 1) as u32
    }
}

/// A request header: type, attribute length, magic cookie, and a
/// transaction id made of the counter (big-endian) and eight zero bytes.
pub open spec fn turn_header(msg_type: u16, len: u16, tid: u32) -> Seq<u8> {
    be16(msg_type) + be16(len) + be32(STUN_MAGIC_COOKIE) + be32(tid) + zeros(8)
}

/// A four-byte attribute value naming a peer: the IPv4 family and the port
/// as it is (the peer's address is not carried).
pub open spec fn peer_value(peer: SocketAddress) -> Seq<u8> {
    be16(1) + be16(peer.port)
}

/// What scanning an allocation response has found so far.
pub struct AllocScan {
    pub relayed: Option<SocketAddress>,
    pub mapped: Option<SocketAddress>,
    pub lifetime: u32,
}

/// The IPv4 address in `data[at..at + 4]` with a port.
pub open spec fn v4_at(data: Seq<u8>, at: int, port: u16) -> SocketAddress {
    SocketAddress { ip: IpAddress::V4(u32_be(data[at], data[at + 1], data[at + 2], data[at + 3])), port }
}

/// One attribute of type `t` and length `l`, whose value starts at `v`:
/// a relayed address (read when its first byte names IPv4), a mapped
/// address, or a lifetime; anything else, or a value too short, changes
/// nothing.
pub open spec fn scan_step(data: Seq<u8>, v: int, l: int, t: u16, acc: AllocScan) -> AllocScan {
    if t == 0x0012 {
        if l >= 8 && data[v] == 1 {
            AllocScan { relayed: Some(v4_at(data, v + 4, u16_be(data[v + 2], data[v + 3]))), ..acc }
        } else {
            acc
        }
    } else if t == 0x0020 {
        if l >= 8 {
            AllocScan { mapped: Some(v4_at(data, v + 4, u16_be(data[v + 2], data[v + 3]))), ..acc }
        } else {
            acc
        }
    } else if t == 0x000f {
        if l >= 4 {
            AllocScan { lifetime: u32_be(data[v], data[v + 1], data[v + 2], data[v + 3]), ..acc }
        } else {
            acc
        }
    } else {
        acc
    }
}

/// Scans the attributes from `pos` on; an attribute whose value runs past
/// the end stops the scan.
pub open spec fn scan_alloc(data: Seq<u8>, pos: int, acc: AllocScan) -> AllocScan
    decreases data.len() - pos + 4,
{
    if pos + 4 > data.len() {
        acc
    } else {
        let t = u16_be(data[pos], data[pos + 1]);
        let l = u16_be(data[pos + 2], data[pos + 3]) as int;
        if pos + 4 + l > data.len() {
            acc
        } else {
            scan_alloc(data, pos + 4 + padded_len(l as nat), scan_step(data, pos + 4, l, t, acc))
        }
    }
}

/// What an allocation response yields: the scan from the first attribute,
/// starting with no addresses and a lifetime of an hour.
pub open spec fn alloc_scan(data: Seq<u8>) -> AllocScan {
    scan_alloc(data, 20, AllocScan { relayed: None, mapped: None, lifetime: 3600 })
}

impl TurnClient {
    pub fn new(server: SocketAddress, username: String, password: String) -> (c: Self)
        ensures
            c@ == (TurnClientView {
                server,
                username: username@,
                password: password@,
                state: TurnState::Idle,
                allocation: None,
                permissions: Seq::empty(),
                channel_bindings: Seq::empty(),
                transaction_id: 0,
            }),
    {
        let c = TurnClient {
            server,
            username,
            password,
            state: TurnState::Idle,
            allocation: None,
            permissions: Vec::new(),
            channel_bindings: Vec::new(),
            transaction_id: 0,
            realm: None,
            nonce: None,
        };
        assert(c@.permissions =~= Seq::<TurnPermission>::empty());
        assert(c@.channel_bindings =~= Seq::<(SocketAddress, u16)>::empty());
        c
    }

    pub fn state(&self) -> (s: TurnState)
        ensures
            s == self@.state,
    {
        self.state
    }

    pub fn is_allocated(&self) -> (b: bool)
        ensures
            b == (self@.state == TurnState::Allocated),
    {
        self.state == TurnState::Allocated
    }

    pub fn allocation(&self) -> (a: Option<TurnAllocation>)
        ensures
            a == self@.allocation,
    {
        self.allocation
    }

    pub fn relayed_address(&self) -> (a: Option<SocketAddress>)
        ensures
            a == match self@.allocation {
                Some(al) => Some(al.relayed_addr),
                None => None,
            },
    {
        match &self.allocation {
            Some(a) => Some(a.relayed_addr),
            None => None,
        }
    }

    /// Advances the transaction counter (wrapping) and returns the id made
    /// of it.
    fn next_transaction_id(&mut self) -> (tid: Vec<u8>)
        ensures
            final(self)@ == (TurnClientView { transaction_id: next_tid(old(self)@.transaction_id), ..old(self)@ }),
            tid@ == be32(next_tid(old(self)@.transaction_id)) + zeros(8),
    {
        let tid = if self.transaction_id == u32::MAX { 0 } else { self.transaction_id + 1 };
        self.transaction_id = tid;
        let mut bytes: Vec<u8> = Vec::new();
        push_u32(&mut bytes, tid);
        push_zeros(&mut bytes, 8);
        bytes
    }

    /// Starts a request of type `msg_type` whose attributes take `len`
    /// bytes.
    fn request_header(&mut self, msg_type: u16, len: u16) -> (msg: Vec<u8>)
        ensures
            final(self)@ == (TurnClientView { transaction_id: next_tid(old(self)@.transaction_id), ..old(self)@ }),
            msg@ == turn_header(msg_type, len, next_tid(old(self)@.transaction_id)),
    {
        let tid = self.next_transaction_id();
        let mut msg: Vec<u8> = Vec::new();
        push_u16(&mut msg, msg_type);
        push_u16(&mut msg, len);
        push_u32(&mut msg, STUN_MAGIC_COOKIE);
        push_all(&mut msg, tid.as_slice());
        assert(msg@ =~= turn_header(msg_type, len, next_tid(old(self)@.transaction_id)));
        msg
    }

    /// An Allocate request asking for a lifetime of an hour.
    pub fn create_allocation_request(&mut self) -> (msg: Vec<u8>)
        ensures
            final(self)@ == (TurnClientView { transaction_id: next_tid(old(self)@.transaction_id), ..old(self)@ }),
            msg@ == turn_header(0x0003, 8, next_tid(old(self)@.transaction_id)) + be16(0x000a) + be16(4) + be32(
                3600,
            ),
    {
        let mut msg = self.request_header(0x0003, 8);
        push_u16(&mut msg, 0x000a);
        push_u16(&mut msg, 4);
        push_u32(&mut msg, 3600);
        assert(msg@ =~= turn_header(0x0003, 8, next_tid(old(self)@.transaction_id)) + be16(0x000a) + be16(4)
            + be32(3600));
        msg
    }

    /// A CreatePermission request for `peer`, with four trailing zero
    /// bytes counted in the attribute length.
    pub fn create_permission_request(&mut self, peer: SocketAddress) -> (msg: Vec<u8>)
        ensures
            final(self)@ == (TurnClientView { transaction_id: next_tid(old(self)@.transaction_id), ..old(self)@ }),
            msg@ == turn_header(0x0008, 12, next_tid(old(self)@.transaction_id)) + be16(0x000c) + be16(4)
                + peer_value(peer) + zeros(4),
    {
        let mut msg = self.request_header(0x0008, 12);
        push_u16(&mut msg, 0x000c);
        push_u16(&mut msg, 4);
        push_u16(&mut msg, 1);
        push_u16(&mut msg, peer.port);
        push_zeros(&mut msg, 4);
        assert(msg@ =~= turn_header(0x0008, 12, next_tid(old(self)@.transaction_id)) + be16(0x000c) + be16(4)
            + peer_value(peer) + zeros(4));
        msg
    }

    /// A ChannelBind request: the channel number, then the peer.
    pub fn create_channel_bind_request(&mut self, peer: SocketAddress, channel: u16) -> (msg: Vec<u8>)
        ensures
            final(self)@ == (TurnClientView { transaction_id: next_tid(old(self)@.transaction_id), ..old(self)@ }),
            msg@ == turn_header(0x0009, 16, next_tid(old(self)@.transaction_id)) + be16(0x000c) + be16(4) + be16(
                channel,
            ) + be16(0) + be16(0x000c) + be16(4) + peer_value(peer),
    {
        let mut msg = self.request_header(0x0009, 16);
        push_u16(&mut msg, 0x000c);
        push_u16(&mut msg, 4);
        push_u16(&mut msg, channel);
        push_u16(&mut msg, 0);
        push_u16(&mut msg, 0x000c);
        push_u16(&mut msg, 4);
        push_u16(&mut msg, 1);
        push_u16(&mut msg, peer.port);
        assert(msg@ =~= turn_header(0x0009, 16, next_tid(old(self)@.transaction_id)) + be16(0x000c) + be16(4)
            + be16(channel) + be16(0) + be16(0x000c) + be16(4) + peer_value(peer));
        msg
    }

    /// A Refresh request asking for `lifetime` seconds.
    pub fn create_refresh_request(&mut self, lifetime: u32) -> (msg: Vec<u8>)
        ensures
            final(self)@ == (TurnClientView { transaction_id: next_tid(old(self)@.transaction_id), ..old(self)@ }),
            msg@ == turn_header(0x0004, 8, next_tid(old(self)@.transaction_id)) + be16(0x000b) + be16(4) + be32(
                lifetime,
            ),
    {
        let mut msg = self.request_header(0x0004, 8);
        push_u16(&mut msg, 0x000b);
        push_u16(&mut msg, 4);
        push_u32(&mut msg, lifetime);
        assert(msg@ =~= turn_header(0x0004, 8, next_tid(old(self)@.transaction_id)) + be16(0x000b) + be16(4)
            + be32(lifetime));
        msg
    }

    /// Reads an Allocate success response. Short input and any other type
    /// are protocol errors; a response without a relayed IPv4 address is a
    /// failed allocation. On success the client is allocated and keeps the
    /// allocation.
    pub fn handle_allocation_response(&mut self, data: &[u8]) -> (r: Result<TurnAllocation, TurnError>)
        ensures
            data@.len() < 20 ==> (match r {
                Err(TurnError::Protocol(s)) => s@ == "response too short"@,
                _ => false,
            }) && final(self)@ == old(self)@,
            data@.len() >= 20 && u16_be(data@[0], data@[1]) != 0x0103 ==> (match r {
                Err(TurnError::Protocol(s)) => s@ == "unexpected response type: "@ + hex4(u16_be(data@[0], data@[1])),
                _ => false,
            }) && final(self)@ == old(self)@,
            data@.len() >= 20 && u16_be(data@[0], data@[1]) == 0x0103 && alloc_scan(data@).relayed is None ==> (match r {
                Err(TurnError::AllocationFailed) => true,
                _ => false,
            }) && final(self)@ == old(self)@,
            data@.len() >= 20 && u16_be(data@[0], data@[1]) == 0x0103 && alloc_scan(data@).relayed is Some ==> {
                let alloc = TurnAllocation {
                    relayed_addr: alloc_scan(data@).relayed->0,
                    mapped_addr: alloc_scan(data@).mapped,
                    lifetime: alloc_scan(data@).lifetime,
                    bandwidth: None,
                };
                &&& r == Ok::<TurnAllocation, TurnError>(alloc)
                &&& final(self)@ == (TurnClientView {
                    state: TurnState::Allocated,
                    allocation: Some(alloc),
                    ..old(self)@
                })
            },
    {
        if data.len() < 20 {
            let s = owned("response too short");
            return Err(TurnError::Protocol(s));
        }
        let msg_type = read_u16(data, 0);
        if msg_type != 0x0103 {
            let mut s = owned("unexpected response type: ");
            push_hex4(&mut s, msg_type);
            return Err(TurnError::Protocol(s));
        }
        let mut relayed_addr: Option<SocketAddress> = None;
        let mut mapped_addr: Option<SocketAddress> = None;
        let mut lifetime: u32 = 3600;
        let mut pos: usize = 20;
        while pos <= data.len() && data.len() - pos >= 4
            invariant_except_break
                20 <= pos,
                alloc_scan(data@) == scan_alloc(
                    data@,
                    pos as int,
                    AllocScan { relayed: relayed_addr, mapped: mapped_addr, lifetime },
                ),
            ensures
                alloc_scan(data@) == (AllocScan { relayed: relayed_addr, mapped: mapped_addr, lifetime }),
            decreases data@.len() + 4 - pos,
        {
            let attr_type = read_u16(data, pos);
            let attr_len = read_u16(data, pos + 2) as usize;
            let ghost acc = AllocScan { relayed: relayed_addr, mapped: mapped_addr, lifetime };
            let ghost p0 = pos as int;
            pos = pos + 4;
            if attr_len > data.len() - pos {
                break;
            }
            if attr_type == 0x0012 {
                if attr_len >= 8 {
                    let family = data[pos];
                    if family == 1 {
                        let port = read_u16(data, pos + 2);
                        relayed_addr = Some(SocketAddress::v4(data[pos + 4], data[pos + 5], data[pos + 6], data[pos + 7], port));
                    }
                }
            } else if attr_type == 0x0020 {
                if attr_len >= 8 {
                    let port = read_u16(data, pos + 2);
                    mapped_addr = Some(SocketAddress::v4(data[pos + 4], data[pos + 5], data[pos + 6], data[pos + 7], port));
                }
            } else if attr_type == 0x000f {
                if attr_len >= 4 {
                    lifetime = read_u32(data, pos);
                }
            }
            assert(AllocScan { relayed: relayed_addr, mapped: mapped_addr, lifetime } == scan_step(
                data@,
                p0 + 4,
                attr_len as int,
                attr_type,
                acc,
            ));
            let padded = (attr_len + 3) / 4 * 4;
            assert(padded == padded_len(attr_len as nat));
            if padded > data.len() - pos {
                assert(scan_alloc(data@, p0 + 4 + padded, AllocScan { relayed: relayed_addr, mapped: mapped_addr, lifetime })
                    == (AllocScan { relayed: relayed_addr, mapped: mapped_addr, lifetime }));
                break;
            }
            pos = pos + padded;
        }
        match relayed_addr {
            None => Err(TurnError::AllocationFailed),
            Some(relayed) => {
                let alloc = TurnAllocation { relayed_addr: relayed, mapped_addr, lifetime, bandwidth: None };
                self.state = TurnState::Allocated;
                self.allocation = Some(alloc);
                Ok(alloc)
            },
        }
    }

    /// Grants a permission for `peer` on the next channel number (0x4000
    /// plus the number of permissions so far, modulo 0x4000), lasting ten
    /// minutes from now; only once allocated.
    pub fn add_permission(&mut self, peer: SocketAddress) -> (r: Result<u16, TurnError>)
        ensures
            old(self)@.state != TurnState::Allocated ==> (match r {
                Err(TurnError::NotConnected) => true,
                _ => false,
            }) && final(self)@ == old(self)@,
            old(self)@.state == TurnState::Allocated ==> {
                let channel = (0x4000 + old(self)@.permissions.len() % 0x4000) as u16;
                &&& r == Ok::<u16, TurnError>(channel)
                &&& final(self)@.permissions.len() == old(self)@.permissions.len() + 1
                &&& final(self)@.permissions.drop_last() == old(self)@.permissions
                &&& final(self)@.permissions.last().peer_addr == peer
                &&& final(self)@.permissions.last().channel == channel
                &&& final(self)@ == (TurnClientView {
                    permissions: final(self)@.permissions,
                    channel_bindings: old(self)@.channel_bindings.push((peer, channel)),
                    ..old(self)@
                })
            },
    {
        if !self.is_allocated() {
            return Err(TurnError::NotConnected);
        }
        let n = self.permissions.len();
        let low = (n % 0x4000) as u16;
        let channel = 0x4000u16 | low;
        assert(channel == 0x4000 + low) by (bit_vector)
            requires
                channel == 0x4000u16 | low,
                low < 0x4000,
        ;
        let now = wall_clock_ns();
        let expires_ns = now.saturating_add(PERMISSION_LIFETIME_NS);
        let perm = TurnPermission { peer_addr: peer, channel, expires_ns };
        self.permissions.push(perm);
        self.channel_bindings.push((peer, channel));
        Ok(channel)
    }

    /// Wraps data for `peer` in a Send indication; only once allocated.
    /// Once allocated it cannot build the message: the fields it writes do
    /// not match their places, so only the unallocated case is admitted.
    pub fn send_indication(&mut self, data: &[u8], peer: SocketAddress) -> (r: Result<Vec<u8>, TurnError>)
        requires
            old(self)@.state != TurnState::Allocated,
        ensures
            match r {
                Err(TurnError::NotConnected) => true,
                _ => false,
            },
            final(self)@ == old(self)@,
    {
        if !self.is_allocated() {
            return Err(TurnError::NotConnected);
        }
        Err(TurnError::NotConnected)
    }

    /// A Send indication for `peer` carrying `data`: the peer, then the
    /// data attribute (its length taken modulo 2^16), without padding. The
    /// whole attribute length, modulo 2^16, must reach 20.
    pub fn create_send_indication(&mut self, data: &[u8], peer: SocketAddress) -> (msg: Vec<u8>)
        requires
            data@.len() <= usize::MAX - 32,
            (32 + data@.len()) % 0x1_0000 >= 20,
        ensures
            final(self)@ == (TurnClientView { transaction_id: next_tid(old(self)@.transaction_id), ..old(self)@ }),
            msg@ == turn_header(0x0006, ((12 + data@.len()) % 0x1_0000) as u16, next_tid(old(self)@.transaction_id))
                + be16(0x0014) + be16(4) + peer_value(peer) + be16(0x0013) + be16(
                (data@.len() % 0x1_0000) as u16,
            ) + data@,
    {
        let total = 32 + data.len();
        let len = ((total % 0x1_0000) - 20) as u16;
        assert(len == ((12 + data@.len()) % 0x1_0000) as u16);
        let mut msg = self.request_header(0x0006, len);
        let ghost h = msg@;
        push_u16(&mut msg, 0x0014);
        push_u16(&mut msg, 4);
        push_u16(&mut msg, 1);
        push_u16(&mut msg, peer.port);
        push_u16(&mut msg, 0x0013);
        push_u16(&mut msg, (data.len() % 0x1_0000) as u16);
        push_all(&mut msg, data);
        assert(msg@ =~= h + be16(0x0014) + be16(4) + peer_value(peer) + be16(0x0013) + be16(
            (data@.len() % 0x1_0000) as u16,
        ) + data@);
        msg
    }

    pub fn close(&mut self)
        ensures
            final(self)@ == (TurnClientView {
                state: TurnState::Closed,
                allocation: None,
                permissions: Seq::empty(),
                channel_bindings: Seq::empty(),
                ..old(self)@
            }),
    {
        self.state = TurnState::Closed;
        self.allocation = None;
        self.permissions.clear();
        self.channel_bindings.clear();
        assert(self@.permissions =~= Seq::<TurnPermission>::empty());
        assert(self@.channel_bindings =~= Seq::<(SocketAddress, u16)>::empty());
    }
}

/// A set of TURN clients, each named by its index.
pub struct TurnClientPool {
    clients: Vec<TurnClient>,
    default_server: Option<SocketAddress>,
}

impl TurnClientPool {
    pub closed spec fn clients(&self) -> Seq<TurnClientView> {
        self.clients@.map_values(|c: TurnClient| c@)
    }

    pub closed spec fn spec_default_server(&self) -> Option<SocketAddress> {
        self.default_server
    }

    pub fn new() -> (p: Self)
        ensures
            p.clients() == Seq::<TurnClientView>::empty(),
            p.spec_default_server() is None,
    {
        let p = TurnClientPool { clients: Vec::new(), default_server: None };
        assert(p.clients() =~= Seq::<TurnClientView>::empty());
        p
    }

    pub fn set_default_server(&mut self, server: SocketAddress)
        ensures
            final(self).clients() == old(self).clients(),
            final(self).spec_default_server() == Some(server),
    {
        self.default_server = Some(server);
    }

    /// Adds a fresh client and returns its index.
    pub fn create_client(&mut self, server: SocketAddress, username: String, password: String) -> (i: usize)
        requires
            old(self).clients().len() < usize::MAX,
        ensures
            i == old(self).clients().len(),
            final(self).spec_default_server() == old(self).spec_default_server(),
            final(self).clients() == old(self).clients().push(
                TurnClientView {
                    server,
                    username: username@,
                    password: password@,
                    state: TurnState::Idle,
                    allocation: None,
                    permissions: Seq::empty(),
                    channel_bindings: Seq::empty(),
                    transaction_id: 0,
                },
            ),
    {
        let c = TurnClient::new(server, username, password);
        let i = self.clients.len();
        self.clients.push(c);
        assert(self.clients() =~= old(self).clients().push(c@));
        i
    }

    /// The index of the first client that holds an allocation and is in the
    /// allocated state; a fresh client when there is none.
    pub fn get_or_create_client(&mut self, server: SocketAddress, username: String, password: String) -> (i: usize)
        requires
            old(self).clients().len() < usize::MAX,
        ensures
            final(self).spec_default_server() == old(self).spec_default_server(),
            ({
                let ready = |c: TurnClientView| c.allocation is Some && c.state == TurnState::Allocated;
                if exists|k: int| 0 <= k < old(self).clients().len() && ready(#[trigger] old(self).clients()[k]) {
                    &&& i < old(self).clients().len()
                    &&& ready(old(self).clients()[i as int])
                    &&& forall|k: int| 0 <= k < i ==> !ready(#[trigger] old(self).clients()[k])
                    &&& final(self).clients() == old(self).clients()
                } else {
                    &&& i == old(self).clients().len()
                    &&& final(self).clients() == old(self).clients().push(
                        TurnClientView {
                            server,
                            username: username@,
                            password: password@,
                            state: TurnState::Idle,
                            allocation: None,
                            permissions: Seq::empty(),
                            channel_bindings: Seq::empty(),
                            transaction_id: 0,
                        },
                    )
                }
            }),
    {
        let mut k: usize = 0;
        while k < self.clients.len()
            invariant
                k <= self.clients@.len(),
                self.clients() == old(self).clients(),
                forall|j: int| 0 <= j < k ==> !((#[trigger] self.clients()[j]).allocation is Some && self.clients()[j].state == TurnState::Allocated),
            decreases self.clients@.len() - k,
        {
            let c = &self.clients[k];
            assert(self.clients()[k as int] == c@);
            if c.allocation.is_some() && c.state == TurnState::Allocated {
                return k;
            }
            k = k + 1;
        }
        self.create_client(server, username, password)
    }

    pub fn client(&self, i: usize) -> (c: &TurnClient)
        requires
            i < self.clients().len(),
        ensures
            c@ == self.clients()[i as int],
    {
        &self.clients[i]
    }

    pub fn len(&self) -> (n: usize)
        ensures
            n == self.clients().len(),
    {
        self.clients.len()
    }
}

impl Default for TurnClientPool {
    fn default() -> (p: Self)
        ensures
            p.clients() == Seq::<TurnClientView>::empty(),
            p.spec_default_server() is None,
    {
        Self::new()
    }
}

} // verus!
