//! Peer connection configuration: ICE servers and transport policies.
use vstd::prelude::*;
use crate::text::{owned, starts_with, has_prefix};

verus! {

#[derive(Clone, Debug)]
pub struct IceServer {
    pub urls: Vec<String>,
    pub username: Option<String>,
    pub credential: Option<String>,
}

/// The characters of each URL of a server.
pub open spec fn url_views(s: IceServer) -> Seq<Seq<char>> {
    s.urls@.map_values(|u: String| u@)
}

impl IceServer {
    /// A STUN server: one URL and no credentials.
    pub fn stun(url: &str) -> (s: Self)
        ensures
            url_views(s) == seq![url@],
            s.username.is_none(),
            s.credential.is_none(),
    {
        let mut urls = Vec::new();
        urls.push(owned(url));
        let s = IceServer { urls, username: None, credential: None };
        assert(url_views(s) =~= seq![url@]);
        s
    }

    /// A TURN server: one URL with a username and a credential.
    pub fn turn(url: &str, username: &str, credential: &str) -> (s: Self)
        ensures
            url_views(s) == seq![url@],
            s.username.is_some() && s.username.unwrap()@ == username@,
            s.credential.is_some() && s.credential.unwrap()@ == credential@,
    {
        let mut urls = Vec::new();
        urls.push(owned(url));
        let s = IceServer { urls, username: Some(owned(username)), credential: Some(owned(credential)) };
        assert(url_views(s) =~= seq![url@]);
        s
    }
}

#[derive(Clone, Copy, Debug, PartialEq, Eq)]
pub enum IceTransportPolicy {
    All,
    Relay,
}

impl Default for IceTransportPolicy {
    fn default() -> (p: Self)
        ensures
            p == IceTransportPolicy::All,
    {
        IceTransportPolicy::All
    }
}

#[derive(Clone, Copy, Debug, PartialEq, Eq)]
pub enum BundlePolicy {
    Balanced,
    MaxBundle,
    MaxCompat,
}

impl Default for BundlePolicy {
    fn default() -> (p: Self)
        ensures
            p == BundlePolicy::MaxBundle,
    {
        BundlePolicy::MaxBundle
    }
}

#[derive(Clone, Copy, Debug, PartialEq, Eq)]
pub enum RtcpMuxPolicy {
    Require,
    Negotiate,
}

impl Default for RtcpMuxPolicy {
    fn default() -> (p: Self)
        ensures
            p == RtcpMuxPolicy::Require,
    {
        RtcpMuxPolicy::Require
    }
}

#[derive(Clone, Debug)]
pub struct RtcConfiguration {
    pub ice_servers: Vec<IceServer>,
    pub ice_transport_policy: IceTransportPolicy,
    pub bundle_policy: BundlePolicy,
    pub rtcp_mux_policy: RtcpMuxPolicy,
    pub ice_candidate_pool_size: u8,
}

impl Default for RtcConfiguration {
    fn default() -> (c: Self)
        ensures
            c.ice_servers@.len() == 0,
            c.ice_transport_policy == IceTransportPolicy::All,
            c.bundle_policy == BundlePolicy::MaxBundle,
            c.rtcp_mux_policy == RtcpMuxPolicy::Require,
            c.ice_candidate_pool_size == 0,
    {
        RtcConfiguration {
            ice_servers: Vec::new(),
            ice_transport_policy: IceTransportPolicy::All,
            bundle_policy: BundlePolicy::MaxBundle,
            rtcp_mux_policy: RtcpMuxPolicy::Require,
            ice_candidate_pool_size: 0,
        }
    }
}

/// Whether any URL of the server begins with `p`.
pub open spec fn any_url_has_prefix(s: IceServer, p: Seq<char>) -> bool {
    exists|i: int| 0 <= i < s.urls@.len() && has_prefix(#[trigger] s.urls@[i]@, p)
}

fn any_url_starts_with(s: &IceServer, p: &str) -> (r: bool)
    ensures
        r == any_url_has_prefix(*s, p@),
{
    let mut i: usize = 0;
    while i < s.urls.len()
        invariant
            i <= s.urls@.len(),
            forall|j: int| 0 <= j < i ==> !has_prefix(#[trigger] s.urls@[j]@, p@),
        decreases s.urls@.len() - i,
    {
        if starts_with(s.urls[i].as_str(), p) {
            return true;
        }
        i = i + 1;
    }
    false
}

/// The servers that a list of references points at.
pub open spec fn server_values(v: Seq<&IceServer>) -> Seq<IceServer> {
    Seq::new(v.len(), |i: int| *v[i])
}

/// Selects servers with a URL beginning with `stun:`.
pub open spec fn stun_pred() -> spec_fn(IceServer) -> bool {
    |s: IceServer| any_url_has_prefix(s, "stun:"@)
}

/// Selects servers that carry a username.
pub open spec fn turn_pred() -> spec_fn(IceServer) -> bool {
    |s: IceServer| s.username.is_some()
}

impl RtcConfiguration {
    pub fn new() -> (c: Self)
        ensures
            c.ice_servers@.len() == 0,
            c.ice_transport_policy == IceTransportPolicy::All,
            c.bundle_policy == BundlePolicy::MaxBundle,
            c.rtcp_mux_policy == RtcpMuxPolicy::Require,
            c.ice_candidate_pool_size == 0,
    {
        Self::default()
    }

    /// Adds a STUN server.
    pub fn with_stun(self, stun_url: &str) -> (c: Self)
        ensures
            c.ice_servers@.len() == self.ice_servers@.len() + 1,
            c.ice_servers@.subrange(0, self.ice_servers@.len() as int) == self.ice_servers@,
            url_views(c.ice_servers@.last()) == seq![stun_url@],
            c.ice_servers@.last().username.is_none(),
            c.ice_servers@.last().credential.is_none(),
            c.ice_transport_policy == self.ice_transport_policy,
            c.bundle_policy == self.bundle_policy,
            c.rtcp_mux_policy == self.rtcp_mux_policy,
            c.ice_candidate_pool_size == self.ice_candidate_pool_size,
    {
        let mut c = self;
        c.ice_servers.push(IceServer::stun(stun_url));
        assert(c.ice_servers@.subrange(0, self.ice_servers@.len() as int) =~= self.ice_servers@);
        c
    }

    /// Adds a TURN server with its credentials.
    pub fn with_turn(self, turn_url: &str, username: &str, credential: &str) -> (c: Self)
        ensures
            c.ice_servers@.len() == self.ice_servers@.len() + 1,
            c.ice_servers@.subrange(0, self.ice_servers@.len() as int) == self.ice_servers@,
            url_views(c.ice_servers@.last()) == seq![turn_url@],
            c.ice_servers@.last().username.is_some(),
            c.ice_servers@.last().username.unwrap()@ == username@,
            c.ice_servers@.last().credential.is_some(),
            c.ice_servers@.last().credential.unwrap()@ == credential@,
            c.ice_transport_policy == self.ice_transport_policy,
            c.bundle_policy == self.bundle_policy,
            c.rtcp_mux_policy == self.rtcp_mux_policy,
            c.ice_candidate_pool_size == self.ice_candidate_pool_size,
    {
        let mut c = self;
        c.ice_servers.push(IceServer::turn(turn_url, username, credential));
        assert(c.ice_servers@.subrange(0, self.ice_servers@.len() as int) =~= self.ice_servers@);
        c
    }

    /// Whether some server has a URL beginning with `turn:`.
    pub fn has_turn(&self) -> (b: bool)
        ensures
            b == exists|i: int| 0 <= i < self.ice_servers@.len() && any_url_has_prefix(#[trigger] self.ice_servers@[i], "turn:"@),
    {
        let mut i: usize = 0;
        while i < self.ice_servers.len()
            invariant
                i <= self.ice_servers@.len(),
                forall|j: int| 0 <= j < i ==> !any_url_has_prefix(#[trigger] self.ice_servers@[j], "turn:"@),
            decreases self.ice_servers@.len() - i,
        {
            if any_url_starts_with(&self.ice_servers[i], "turn:") {
                return true;
            }
            i = i + 1;
        }
        false
    }

    /// The servers with a URL beginning with `stun:`, in order.
    pub fn stun_servers(&self) -> (v: Vec<&IceServer>)
        ensures
            server_values(v@) == self.ice_servers@.filter(stun_pred()),
    {
        let ghost pred = stun_pred();
        let mut v: Vec<&IceServer> = Vec::new();
        let mut i: usize = 0;
        while i < self.ice_servers.len()
            invariant
                i <= self.ice_servers@.len(),
                server_values(v@) == self.ice_servers@.subrange(0, i as int).filter(pred),
                pred == stun_pred(),
            decreases self.ice_servers@.len() - i,
        {
            let ghost prefix = self.ice_servers@.subrange(0, i as int);
            let ghost next = self.ice_servers@.subrange(0, i + 1);
            let ghost before = v@;
            proof {
                reveal_with_fuel(Seq::<_>::filter, 1);
                assert(next.drop_last() =~= prefix);
                assert(next.last() == self.ice_servers@[i as int]);
            }
            if any_url_starts_with(&self.ice_servers[i], "stun:") {
                v.push(&self.ice_servers[i]);
                assert(server_values(v@) =~= server_values(before).push(self.ice_servers@[i as int]));
            }
            proof {
                reveal_with_fuel(Seq::<_>::filter, 1);
                assert(next.drop_last() =~= prefix);
                assert(next.filter(pred) == if pred(next.last()) {
                    prefix.filter(pred).push(next.last())
                } else {
                    prefix.filter(pred)
                });
                assert(server_values(v@) =~= next.filter(pred));
            }
            i = i + 1;
        }
        assert(self.ice_servers@.subrange(0, i as int) =~= self.ice_servers@);
        v
    }

    /// The servers that carry a username, in order.
    pub fn turn_servers(&self) -> (v: Vec<&IceServer>)
        ensures
            server_values(v@) == self.ice_servers@.filter(turn_pred()),
    {
        let ghost pred = turn_pred();
        let mut v: Vec<&IceServer> = Vec::new();
        let mut i: usize = 0;
        while i < self.ice_servers.len()
            invariant
                i <= self.ice_servers@.len(),
                server_values(v@) == self.ice_servers@.subrange(0, i as int).filter(pred),
                pred == turn_pred(),
            decreases self.ice_servers@.len() - i,
        {
            let ghost prefix = self.ice_servers@.subrange(0, i as int);
            let ghost next = self.ice_servers@.subrange(0, i + 1);
            let ghost before = v@;
            proof {
                reveal_with_fuel(Seq::<_>::filter, 1);
                assert(next.drop_last() =~= prefix);
                assert(next.last() == self.ice_servers@[i as int]);
            }
            if self.ice_servers[i].username.is_some() {
                v.push(&self.ice_servers[i]);
                assert(server_values(v@) =~= server_values(before).push(self.ice_servers@[i as int]));
            }
            proof {
                reveal_with_fuel(Seq::<_>::filter, 1);
                assert(next.drop_last() =~= prefix);
                assert(next.filter(pred) == if pred(next.last()) {
                    prefix.filter(pred).push(next.last())
                } else {
                    prefix.filter(pred)
                });
                assert(server_values(v@) =~= next.filter(pred));
            }
            i = i + 1;
        }
        assert(self.ice_servers@.subrange(0, i as int) =~= self.ice_servers@);
        v
    }
}

} // verus!
