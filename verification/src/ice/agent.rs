//! The ICE agent: local and remote candidates, their pairs ordered by
//! priority, and the events it reports.
use vstd::prelude::*;
use vstd::string::{StringExecFns, StringSliceAdditionalSpecFns};
use std::collections::VecDeque;
use crate::ice::candidate::{
    CandidateType, IceCandidate, TransportProtocol, candidate_priority, fitted_len, overwrite_prefix,
};
use crate::net::SocketAddress;
use crate::text::{decimal, push_decimal, utf8_text_or_empty, prefix_str};
use crate::wire::copy_prefix_into;

verus! {

#[derive(Clone, Copy, Debug, PartialEq, Eq, Structural)]
pub enum IceRole {
    Controlling,
    Controlled,
}

#[derive(Clone, Copy, Debug, PartialEq, Eq, Structural)]
pub enum IceState {
    New,
    Gathering,
    Checking,
    Connected,
    Completed,
    Failed,
    Closed,
}

#[derive(Clone, Copy, Debug, PartialEq, Eq, Structural)]
pub enum CandidatePairState {
    Waiting,
    InProgress,
    Succeeded,
    Failed,
    Frozen,
}

#[derive(Clone, Copy, Debug)]
pub struct IceCandidatePair {
    pub local: IceCandidate,
    pub remote: IceCandidate,
    pub priority: u64,
    pub state: CandidatePairState,
    pub nominated: bool,
}

/// The pair priority: with G the controlling side's candidate priority
/// and D the controlled side's, 2^32 * min(G, D) + 2 * max(G, D), plus one
/// when the local side is controlling.
pub open spec fn pair_priority(local: u32, remote: u32, controlling: bool) -> int {
    let g = if controlling { local } else { remote };
    let d = if controlling { remote } else { local };
    let lo = if g < d { g } else { d };
    let hi = if g < d { d } else { g };
    0x1_0000_0000 * lo + 2 * hi + (if controlling { 1int } else { 0int })
}

/// The pair of two candidates: its priority, waiting, not nominated.
pub open spec fn pair_of(local: IceCandidate, remote: IceCandidate, controlling: bool) -> IceCandidatePair {
    IceCandidatePair {
        local,
        remote,
        priority: pair_priority(local.priority, remote.priority, controlling) as u64,
        state: CandidatePairState::Waiting,
        nominated: false,
    }
}

/// The same two candidates give a pair priority one higher on the
/// controlling side than on the controlled side.
pub proof fn pair_priority_role_law(local: u32, remote: u32)
    ensures
        pair_priority(local, remote, true) == pair_priority(local, remote, false) + 1,
{
}

/// A pair's priority is ranked first by the weaker of its two candidate
/// priorities: it is at least 2^32 * min and, for candidate priorities
/// below 2^31 (all that ICE assigns), below 2^32 * (min + 1); its lowest
/// bit is set exactly when the local side is controlling, and what is left
/// above 2^32 * min, that bit aside, is twice the stronger priority.
pub proof fn pair_priority_min_law(local: u32, remote: u32, controlling: bool)
    ensures
        ({
            let lo: int = if local < remote { local as int } else { remote as int };
            let hi: int = if local < remote { remote as int } else { local as int };
            let p = pair_priority(local, remote, controlling);
            &&& 0x1_0000_0000 * lo <= p
            &&& hi < 0x8000_0000 ==> p < 0x1_0000_0000 * (lo + 1)
            &&& p % 2 == (if controlling { 1int } else { 0int })
            &&& (p - 0x1_0000_0000 * lo) / 2 == hi
        }),
{
    let lo: int = if local < remote { local as int } else { remote as int };
    let hi: int = if local < remote { remote as int } else { local as int };
    let bit: int = if controlling { 1int } else { 0int };
    let p = pair_priority(local, remote, controlling);
    assert(p == 0x1_0000_0000 * lo + 2 * hi + bit);
    assert(p == 2 * (0x8000_0000 * lo + hi) + bit);
    assert(p % 2 == bit) by (nonlinear_arith)
        requires
            p == 2 * (0x8000_0000 * lo + hi) + bit,
            0 <= bit <= 1,
            lo >= 0,
            hi >= 0,
    ;
    assert((2 * hi + bit) / 2 == hi) by (nonlinear_arith)
        requires
            0 <= bit <= 1,
            hi >= 0,
    ;
}

/// Of two pairs of candidates with priorities below 2^31, the one whose
/// weaker candidate is stronger ranks higher, whatever the stronger
/// candidates and the roles.
pub proof fn pair_priority_order_law(l1: u32, r1: u32, c1: bool, l2: u32, r2: u32, c2: bool)
    requires
        l1 < 0x8000_0000,
        r1 < 0x8000_0000,
        l2 < 0x8000_0000,
        r2 < 0x8000_0000,
        (if l1 < r1 { l1 } else { r1 }) > (if l2 < r2 { l2 } else { r2 }),
    ensures
        pair_priority(l1, r1, c1) > pair_priority(l2, r2, c2),
{
    pair_priority_min_law(l1, r1, c1);
    pair_priority_min_law(l2, r2, c2);
}

impl IceCandidatePair {
    pub fn new(local: IceCandidate, remote: IceCandidate, controlling: bool) -> (p: Self)
        requires
            pair_priority(local.priority, remote.priority, controlling) <= u64::MAX,
        ensures
            p == pair_of(local, remote, controlling),
    {
        let priority = Self::compute_pair_priority(local.priority, remote.priority, controlling);
        IceCandidatePair { local, remote, priority, state: CandidatePairState::Waiting, nominated: false }
    }

    fn compute_pair_priority(local: u32, remote: u32, controlling: bool) -> (r: u64)
        requires
            pair_priority(local, remote, controlling) <= u64::MAX,
        ensures
            r == pair_priority(local, remote, controlling),
    {
        let (g, d) = if controlling {
            (local as u64, remote as u64)
        } else {
            (remote as u64, local as u64)
        };
        let role_bit: u64 = if controlling { 1 } else { 0 };
        let lo = if g < d { g } else { d };
        let hi = if g < d { d } else { g };
        0x1_0000_0000u64 * lo + 2 * hi + role_bit
    }
}

#[derive(Clone, Copy, Debug)]
pub struct IceAgentConfig {
    pub local_ufrag: [u8; 16],
    pub local_ufrag_len: usize,
    pub local_pwd: [u8; 24],
    pub local_pwd_len: usize,
    pub remote_ufrag: [u8; 16],
    pub remote_ufrag_len: usize,
    pub remote_pwd: [u8; 24],
    pub remote_pwd_len: usize,
    pub lite: bool,
    pub aggressive_nomination: bool,
}

/// The text of the local username fragment held by a configuration.
pub open spec fn local_ufrag_text(c: IceAgentConfig) -> Seq<char> {
    utf8_text_or_empty(c.local_ufrag@.take(c.local_ufrag_len as int))
}

impl IceAgentConfig {
    /// Empty credentials, full (not lite) ICE, aggressive nomination.
    pub fn new() -> (c: Self)
        ensures
            c.local_ufrag@ == Seq::new(16, |i: int| 0u8),
            c.local_ufrag_len == 0,
            c.local_pwd@ == Seq::new(24, |i: int| 0u8),
            c.local_pwd_len == 0,
            c.remote_ufrag@ == Seq::new(16, |i: int| 0u8),
            c.remote_ufrag_len == 0,
            c.remote_pwd@ == Seq::new(24, |i: int| 0u8),
            c.remote_pwd_len == 0,
            !c.lite,
            c.aggressive_nomination,
    {
        let c = IceAgentConfig {
            local_ufrag: [0u8; 16],
            local_ufrag_len: 0,
            local_pwd: [0u8; 24],
            local_pwd_len: 0,
            remote_ufrag: [0u8; 16],
            remote_ufrag_len: 0,
            remote_pwd: [0u8; 24],
            remote_pwd_len: 0,
            lite: false,
            aggressive_nomination: true,
        };
        assert(c.local_ufrag@ =~= Seq::new(16, |i: int| 0u8));
        assert(c.local_pwd@ =~= Seq::new(24, |i: int| 0u8));
        assert(c.remote_ufrag@ =~= Seq::new(16, |i: int| 0u8));
        assert(c.remote_pwd@ =~= Seq::new(24, |i: int| 0u8));
        c
    }

    /// Stores as much of the local username fragment as fits in 16 bytes
    /// and of the password as fits in 24.
    pub fn set_local_credentials(&mut self, ufrag: &str, pwd: &str)
        ensures
            final(self).local_ufrag@ == overwrite_prefix(old(self).local_ufrag@, ufrag.spec_bytes()),
            final(self).local_ufrag_len == fitted_len(ufrag.spec_bytes(), 16),
            final(self).local_pwd@ == overwrite_prefix(old(self).local_pwd@, pwd.spec_bytes()),
            final(self).local_pwd_len == fitted_len(pwd.spec_bytes(), 24),
            final(self).remote_ufrag == old(self).remote_ufrag,
            final(self).remote_ufrag_len == old(self).remote_ufrag_len,
            final(self).remote_pwd == old(self).remote_pwd,
            final(self).remote_pwd_len == old(self).remote_pwd_len,
            final(self).lite == old(self).lite,
            final(self).aggressive_nomination == old(self).aggressive_nomination,
    {
        let n = copy_prefix_into(&mut self.local_ufrag, ufrag.as_bytes());
        self.local_ufrag_len = n;
        let m = copy_prefix_into(&mut self.local_pwd, pwd.as_bytes());
        self.local_pwd_len = m;
    }

    /// Stores as much of the remote username fragment as fits in 16 bytes
    /// and of the password as fits in 24.
    pub fn set_remote_credentials(&mut self, ufrag: &str, pwd: &str)
        ensures
            final(self).remote_ufrag@ == overwrite_prefix(old(self).remote_ufrag@, ufrag.spec_bytes()),
            final(self).remote_ufrag_len == fitted_len(ufrag.spec_bytes(), 16),
            final(self).remote_pwd@ == overwrite_prefix(old(self).remote_pwd@, pwd.spec_bytes()),
            final(self).remote_pwd_len == fitted_len(pwd.spec_bytes(), 24),
            final(self).local_ufrag == old(self).local_ufrag,
            final(self).local_ufrag_len == old(self).local_ufrag_len,
            final(self).local_pwd == old(self).local_pwd,
            final(self).local_pwd_len == old(self).local_pwd_len,
            final(self).lite == old(self).lite,
            final(self).aggressive_nomination == old(self).aggressive_nomination,
    {
        let n = copy_prefix_into(&mut self.remote_ufrag, ufrag.as_bytes());
        self.remote_ufrag_len = n;
        let m = copy_prefix_into(&mut self.remote_pwd, pwd.as_bytes());
        self.remote_pwd_len = m;
    }

    /// The local username fragment as text; empty when its bytes are not
    /// valid UTF-8.
    pub fn local_ufrag_str(&self) -> (s: &str)
        requires
            self.local_ufrag_len <= 16,
        ensures
            s@ == local_ufrag_text(*self),
    {
        prefix_str(&self.local_ufrag, self.local_ufrag_len)
    }

    /// The local password as text; empty when its bytes are not valid
    /// UTF-8.
    pub fn local_pwd_str(&self) -> (s: &str)
        requires
            self.local_pwd_len <= 24,
        ensures
            s@ == utf8_text_or_empty(self.local_pwd@.take(self.local_pwd_len as int)),
    {
        prefix_str(&self.local_pwd, self.local_pwd_len)
    }
}

impl Default for IceAgentConfig {
    fn default() -> (c: Self)
        ensures
            c.local_ufrag@ == Seq::new(16, |i: int| 0u8),
            c.local_pwd@ == Seq::new(24, |i: int| 0u8),
            c.remote_ufrag@ == Seq::new(16, |i: int| 0u8),
            c.remote_pwd@ == Seq::new(24, |i: int| 0u8),
            c.local_ufrag_len == 0,
            c.local_pwd_len == 0,
            c.remote_ufrag_len == 0,
            c.remote_pwd_len == 0,
            !c.lite,
            c.aggressive_nomination,
    {
        Self::new()
    }
}

#[derive(Clone, Copy, Debug)]
pub enum IceEvent {
    CandidateGathered(IceCandidate),
    GatheringDone,
    CandidatePairSelected(IceCandidatePair),
    Connected(SocketAddress),
    Failed,
    StateChanged(IceState),
}

/// Whether the pairs are ordered by priority, highest first.
pub open spec fn pairs_sorted(q: Seq<IceCandidatePair>) -> bool {
    forall|i: int, j: int| 0 <= i < j < q.len() ==> (#[trigger] q[i]).priority >= (#[trigger] q[j]).priority
}

/// Where a pair of priority `p` goes: after every pair of priority at
/// least `p`, before the first of lower priority.
pub open spec fn pair_insert_pos(q: Seq<IceCandidatePair>, p: u64) -> int
    decreases q.len(),
{
    if q.len() == 0 {
        0
    } else if q[0].priority < p {
        0
    } else {
        1 + pair_insert_pos(q.drop_first(), p)
    }
}

/// Each pair of `ps` in turn put in its place by priority, as a stable
/// sort of `q` followed by `ps` places them when `q` is sorted.
pub open spec fn insert_pairs(q: Seq<IceCandidatePair>, ps: Seq<IceCandidatePair>) -> Seq<IceCandidatePair>
    decreases ps.len(),
{
    if ps.len() == 0 {
        q
    } else {
        let r = insert_pairs(q, ps.drop_last());
        r.insert(pair_insert_pos(r, ps.last().priority), ps.last())
    }
}

/// The pairs of each local candidate with one remote candidate, in the
/// order of the local candidates.
pub open spec fn pairs_with(locals: Seq<IceCandidate>, remote: IceCandidate, controlling: bool) -> Seq<IceCandidatePair> {
    Seq::new(locals.len(), |i: int| pair_of(locals[i], remote, controlling))
}

proof fn lemma_pair_insert_pos(q: Seq<IceCandidatePair>, p: u64)
    ensures
        0 <= pair_insert_pos(q, p) <= q.len(),
        forall|k: int| 0 <= k < pair_insert_pos(q, p) ==> q[k].priority >= p,
        pair_insert_pos(q, p) < q.len() ==> q[pair_insert_pos(q, p)].priority < p,
    decreases q.len(),
{
    if q.len() > 0 && q[0].priority >= p {
        lemma_pair_insert_pos(q.drop_first(), p);
        assert forall|k: int| 0 <= k < pair_insert_pos(q, p) implies q[k].priority >= p by {
            if k > 0 {
                assert(q[k] == q.drop_first()[k - 1]);
            }
        }
    }
}

/// The text of the foundation given to a gathered host candidate.
pub open spec fn host_foundation(port: u16) -> Seq<char> {
    "host"@ + decimal(port as nat)
}

/// Whether `c` is the host candidate gathered for `addr` with the local
/// username fragment `ufrag`: component 1, UDP, local preference 65535,
/// foundation `host` and the port.
pub open spec fn gathered_host(c: IceCandidate, addr: SocketAddress, ufrag: Seq<char>) -> bool {
    let zeros = Seq::new(32, |i: int| 0u8);
    let f = vstd::utf8::encode_utf8(host_foundation(addr.port));
    let u = vstd::utf8::encode_utf8(ufrag);
    &&& c.address == addr
    &&& c.component_id == 1
    &&& c.protocol == TransportProtocol::Udp
    &&& c.priority == candidate_priority(CandidateType::Host, 65535, 1)
    &&& c.candidate_type == CandidateType::Host
    &&& c.related_address == None::<SocketAddress>
    &&& c.generation == 0
    &&& c.foundation@ == overwrite_prefix(zeros, f)
    &&& c.foundation_len == fitted_len(f, 32)
    &&& c.ufrag@ == overwrite_prefix(zeros, u)
    &&& c.ufrag_len == fitted_len(u, 32)
}

pub struct IceAgent {
    cfg: IceAgentConfig,
    role: IceRole,
    state: IceState,
    local_candidates: Vec<IceCandidate>,
    remote_candidates: Vec<IceCandidate>,
    candidate_pairs: Vec<IceCandidatePair>,
    selected_pair: Option<IceCandidatePair>,
    nominated_pair: Option<IceCandidatePair>,
    tie_breaker: u64,
    checks_sent: u32,
    gathering_done: bool,
    pending_events: VecDeque<IceEvent>,
}

impl IceAgent {
    pub closed spec fn spec_cfg(&self) -> IceAgentConfig {
        self.cfg
    }

    pub closed spec fn spec_role(&self) -> IceRole {
        self.role
    }

    pub closed spec fn spec_state(&self) -> IceState {
        self.state
    }

    pub closed spec fn locals(&self) -> Seq<IceCandidate> {
        self.local_candidates@
    }

    pub closed spec fn remotes(&self) -> Seq<IceCandidate> {
        self.remote_candidates@
    }

    /// The candidate pairs, highest priority first.
    pub closed spec fn pairs(&self) -> Seq<IceCandidatePair> {
        self.candidate_pairs@
    }

    pub closed spec fn nominated(&self) -> Option<IceCandidatePair> {
        self.nominated_pair
    }

    pub closed spec fn spec_tie_breaker(&self) -> u64 {
        self.tie_breaker
    }

    pub closed spec fn spec_checks_sent(&self) -> u32 {
        self.checks_sent
    }

    pub closed spec fn spec_gathering_done(&self) -> bool {
        self.gathering_done
    }

    /// The events not yet polled, oldest first.
    pub closed spec fn events(&self) -> Seq<IceEvent> {
        self.pending_events@
    }

    /// The pairs are kept ordered by priority, highest first.
    pub closed spec fn wf(&self) -> bool {
        pairs_sorted(self.candidate_pairs@)
    }

    /// A new agent: no candidates, pairs or events, and a tie breaker
    /// taken from the wall clock.
    pub fn new(cfg: IceAgentConfig, role: IceRole) -> (a: Self)
        ensures
            a.wf(),
            a.spec_cfg() == cfg,
            a.spec_role() == role,
            a.spec_state() == IceState::New,
            a.locals().len() == 0,
            a.remotes().len() == 0,
            a.pairs().len() == 0,
            a.nominated() == None::<IceCandidatePair>,
            a.spec_checks_sent() == 0,
            !a.spec_gathering_done(),
            a.events().len() == 0,
    {
        let tie_breaker = crate::cc::gcc::wall_clock_ns();
        IceAgent {
            cfg,
            role,
            state: IceState::New,
            local_candidates: Vec::new(),
            remote_candidates: Vec::new(),
            candidate_pairs: Vec::new(),
            selected_pair: None,
            nominated_pair: None,
            tie_breaker,
            checks_sent: 0,
            gathering_done: false,
            pending_events: VecDeque::new(),
        }
    }

    /// The host candidate for one address.
    fn host_candidate(addr: SocketAddress, ufrag: &str) -> (c: IceCandidate)
        ensures
            gathered_host(c, addr, ufrag@),
    {
        proof {
            reveal_strlit("host");
        }
        let mut c = IceCandidate::new_host(addr, 1);
        let mut f = String::new();
        f.append("host");
        push_decimal(&mut f, addr.port as u64);
        assert(f@ =~= host_foundation(addr.port));
        c.set_foundation(f.as_str());
        c.set_ufrag(ufrag);
        c
    }

    /// Adds a host candidate for each address, in order, reporting each;
    /// then reports that gathering is done and moves to `Gathering`.
    pub fn gather_host_candidates(&mut self, addresses: &[SocketAddress])
        requires
            old(self).wf(),
            old(self).spec_cfg().local_ufrag_len <= 16,
        ensures
            final(self).wf(),
            final(self).locals().len() == old(self).locals().len() + addresses@.len(),
            final(self).locals().take(old(self).locals().len() as int) == old(self).locals(),
            forall|i: int|
                0 <= i < addresses@.len() ==> gathered_host(
                    #[trigger] final(self).locals()[old(self).locals().len() + i],
                    addresses@[i],
                    local_ufrag_text(old(self).spec_cfg()),
                ),
            final(self).events() == old(self).events() + Seq::new(
                addresses@.len(),
                |i: int| IceEvent::CandidateGathered(final(self).locals()[old(self).locals().len() + i]),
            ).push(IceEvent::GatheringDone),
            final(self).spec_gathering_done(),
            final(self).spec_state() == IceState::Gathering,
            final(self).spec_cfg() == old(self).spec_cfg(),
            final(self).spec_role() == old(self).spec_role(),
            final(self).remotes() == old(self).remotes(),
            final(self).pairs() == old(self).pairs(),
            final(self).nominated() == old(self).nominated(),
            final(self).spec_tie_breaker() == old(self).spec_tie_breaker(),
            final(self).spec_checks_sent() == old(self).spec_checks_sent(),
    {
        let ghost n0 = self.local_candidates@.len();
        let ghost ev0 = self.pending_events@;
        let ghost ufrag = local_ufrag_text(self.cfg);
        let mut i: usize = 0;
        while i < addresses.len()
            invariant
                i <= addresses@.len(),
                self.cfg == old(self).cfg,
                ufrag == local_ufrag_text(self.cfg),
                self.cfg.local_ufrag_len <= 16,
                self.local_candidates@.len() == n0 + i,
                self.local_candidates@.take(n0 as int) == old(self).local_candidates@,
                forall|j: int|
                    0 <= j < i ==> gathered_host(#[trigger] self.local_candidates@[n0 + j], addresses@[j], ufrag),
                self.pending_events@ == ev0 + Seq::new(
                    i as nat,
                    |j: int| IceEvent::CandidateGathered(self.local_candidates@[n0 + j]),
                ),
                n0 == old(self).local_candidates@.len(),
                ev0 == old(self).pending_events@,
                self.role == old(self).role,
                self.state == old(self).state,
                self.remote_candidates == old(self).remote_candidates,
                self.candidate_pairs == old(self).candidate_pairs,
                self.nominated_pair == old(self).nominated_pair,
                self.tie_breaker == old(self).tie_breaker,
                self.checks_sent == old(self).checks_sent,
            decreases addresses@.len() - i,
        {
            let c = Self::host_candidate(addresses[i], self.cfg.local_ufrag_str());
            let ghost lc0 = self.local_candidates@;
            self.pending_events.push_back(IceEvent::CandidateGathered(c));
            self.local_candidates.push(c);
            assert(self.local_candidates@.take(n0 as int) =~= lc0.take(n0 as int));
            assert(self.local_candidates@[n0 + i] == c);
            assert forall|j: int| 0 <= j < i + 1 implies gathered_host(
                #[trigger] self.local_candidates@[n0 + j],
                addresses@[j],
                ufrag,
            ) by {
                if j < i {
                    assert(self.local_candidates@[n0 + j] == lc0[n0 + j]);
                }
            }
            assert(self.pending_events@ =~= ev0 + Seq::new(
                (i + 1) as nat,
                |j: int| IceEvent::CandidateGathered(self.local_candidates@[n0 + j]),
            ));
            i = i + 1;
        }
        self.gathering_done = true;
        self.pending_events.push_back(IceEvent::GatheringDone);
        self.state = IceState::Gathering;
    }

    /// Puts a pair in its place among pairs ordered by priority: after
    /// every pair of equal or higher priority.
    fn insert_pair(pairs: &mut Vec<IceCandidatePair>, p: IceCandidatePair)
        requires
            pairs_sorted(old(pairs)@),
        ensures
            pairs_sorted(final(pairs)@),
            final(pairs)@ == old(pairs)@.insert(pair_insert_pos(old(pairs)@, p.priority), p),
    {
        let ghost q = pairs@;
        proof {
            lemma_pair_insert_pos(q, p.priority);
        }
        let mut pos: usize = 0;
        assert(q.skip(0) =~= q);
        while pos < pairs.len() && pairs[pos].priority >= p.priority
            invariant
                q == pairs@,
                pos <= q.len(),
                pair_insert_pos(q, p.priority) == pos + pair_insert_pos(q.skip(pos as int), p.priority),
            decreases q.len() - pos,
        {
            assert(q.skip(pos as int)[0] == q[pos as int]);
            assert(q.skip(pos as int).drop_first() =~= q.skip(pos + 1));
            pos = pos + 1;
        }
        proof {
            if pos < q.len() {
                assert(q.skip(pos as int)[0] == q[pos as int]);
            } else {
                assert(q.skip(pos as int) =~= Seq::<IceCandidatePair>::empty());
            }
        }
        pairs.insert(pos, p);
        proof {
            let nq = pairs@;
            assert forall|i: int, j: int| 0 <= i < j < nq.len() implies (#[trigger] nq[i]).priority >= (
            #[trigger] nq[j]).priority by {
                if i < pos && j < pos {
                    assert(nq[i] == q[i] && nq[j] == q[j]);
                } else if i < pos && j == pos {
                    assert(nq[i] == q[i]);
                } else if i < pos {
                    assert(nq[i] == q[i] && nq[j] == q[j - 1]);
                } else if i == pos {
                    assert(nq[j] == q[j - 1]);
                } else {
                    assert(nq[i] == q[i - 1] && nq[j] == q[j - 1]);
                }
            }
        }
    }

    /// Pairs the remote candidate with each local candidate, keeping the
    /// pairs ordered by priority, records the candidate, and moves a new or
    /// gathering agent to `Checking`.
    pub fn add_remote_candidate(&mut self, candidate: IceCandidate)
        requires
            old(self).wf(),
            forall|i: int|
                0 <= i < old(self).locals().len() ==> pair_priority(
                    (#[trigger] old(self).locals()[i]).priority,
                    candidate.priority,
                    old(self).spec_role() == IceRole::Controlling,
                ) <= u64::MAX,
        ensures
            final(self).wf(),
            final(self).pairs() == insert_pairs(
                old(self).pairs(),
                pairs_with(old(self).locals(), candidate, old(self).spec_role() == IceRole::Controlling),
            ),
            final(self).remotes() == old(self).remotes().push(candidate),
            final(self).spec_state() == (if old(self).spec_state() == IceState::Gathering || old(self).spec_state()
                == IceState::New {
                IceState::Checking
            } else {
                old(self).spec_state()
            }),
            final(self).locals() == old(self).locals(),
            final(self).events() == old(self).events(),
            final(self).spec_cfg() == old(self).spec_cfg(),
            final(self).spec_role() == old(self).spec_role(),
            final(self).nominated() == old(self).nominated(),
            final(self).spec_tie_breaker() == old(self).spec_tie_breaker(),
            final(self).spec_checks_sent() == old(self).spec_checks_sent(),
            final(self).spec_gathering_done() == old(self).spec_gathering_done(),
    {
        let is_controlling = match self.role {
            IceRole::Controlling => true,
            IceRole::Controlled => false,
        };
        let ghost ps = pairs_with(self.local_candidates@, candidate, is_controlling);
        let ghost q0 = self.candidate_pairs@;
        let mut i: usize = 0;
        assert(ps.take(0) =~= Seq::<IceCandidatePair>::empty());
        assert forall|k: int| 0 <= k < self.local_candidates@.len() implies pair_priority(
            (#[trigger] self.local_candidates@[k]).priority,
            candidate.priority,
            is_controlling,
        ) <= u64::MAX by {
            assert(old(self).locals()[k] == self.local_candidates@[k]);
        }
        while i < self.local_candidates.len()
            invariant
                i <= self.local_candidates@.len(),
                self.local_candidates == old(self).local_candidates,
                is_controlling == (old(self).role == IceRole::Controlling),
                ps == pairs_with(self.local_candidates@, candidate, is_controlling),
                q0 == old(self).candidate_pairs@,
                forall|k: int|
                    0 <= k < self.local_candidates@.len() ==> pair_priority(
                        (#[trigger] self.local_candidates@[k]).priority,
                        candidate.priority,
                        is_controlling,
                    ) <= u64::MAX,
                pairs_sorted(self.candidate_pairs@),
                self.candidate_pairs@ == insert_pairs(q0, ps.take(i as int)),
                self.cfg == old(self).cfg,
                self.role == old(self).role,
                self.state == old(self).state,
                self.remote_candidates == old(self).remote_candidates,
                self.pending_events == old(self).pending_events,
                self.nominated_pair == old(self).nominated_pair,
                self.tie_breaker == old(self).tie_breaker,
                self.checks_sent == old(self).checks_sent,
                self.gathering_done == old(self).gathering_done,
            decreases self.local_candidates@.len() - i,
        {
            let lc = self.local_candidates[i];
            let pair = IceCandidatePair::new(lc, candidate, is_controlling);
            Self::insert_pair(&mut self.candidate_pairs, pair);
            assert(ps.take(i + 1).drop_last() =~= ps.take(i as int));
            assert(ps.take(i + 1).last() == pair);
            i = i + 1;
        }
        assert(ps.take(i as int) =~= ps);
        self.remote_candidates.push(candidate);
        match self.state {
            IceState::Gathering | IceState::New => {
                self.state = IceState::Checking;
            },
            _ => {},
        }
    }

    pub fn checks_sent(&self) -> (n: u32)
        ensures
            n == self.spec_checks_sent(),
    {
        self.checks_sent
    }

    /// Counts one connectivity check (the count wraps around).
    pub fn perform_connectivity_check(&mut self, remote_addr: SocketAddress)
        ensures
            final(self).spec_checks_sent() == (old(self).spec_checks_sent() + 1) % 0x1_0000_0000,
            final(self).spec_state() == old(self).spec_state(),
            final(self).locals() == old(self).locals(),
            final(self).remotes() == old(self).remotes(),
            final(self).pairs() == old(self).pairs(),
            final(self).events() == old(self).events(),
            final(self).spec_cfg() == old(self).spec_cfg(),
            final(self).spec_role() == old(self).spec_role(),
            final(self).nominated() == old(self).nominated(),
            final(self).spec_tie_breaker() == old(self).spec_tie_breaker(),
            final(self).spec_gathering_done() == old(self).spec_gathering_done(),
            final(self).wf() == old(self).wf(),
    {
        self.checks_sent = self.checks_sent.wrapping_add(1);
    }

    pub fn state(&self) -> (s: IceState)
        ensures
            s == self.spec_state(),
    {
        self.state
    }

    pub fn is_connected(&self) -> (b: bool)
        ensures
            b == (self.spec_state() == IceState::Connected || self.spec_state() == IceState::Completed),
    {
        match self.state {
            IceState::Connected | IceState::Completed => true,
            _ => false,
        }
    }

    /// The remote address of the nominated pair, if any.
    pub fn selected_address(&self) -> (a: Option<SocketAddress>)
        ensures
            a == (match self.nominated() {
                Some(p) => Some(p.remote.address),
                None => None::<SocketAddress>,
            }),
    {
        match &self.nominated_pair {
            Some(p) => Some(p.remote.address),
            None => None,
        }
    }

    pub fn local_candidate_count(&self) -> (n: usize)
        ensures
            n == self.locals().len(),
    {
        self.local_candidates.len()
    }

    pub fn remote_candidate_count(&self) -> (n: usize)
        ensures
            n == self.remotes().len(),
    {
        self.remote_candidates.len()
    }

    /// Takes the oldest pending event.
    pub fn poll_event(&mut self) -> (e: Option<IceEvent>)
        ensures
            old(self).events().len() == 0 ==> e is None && final(self).events() == old(self).events(),
            old(self).events().len() > 0 ==> e == Some(old(self).events()[0]) && final(self).events()
                == old(self).events().drop_first(),
            final(self).spec_state() == old(self).spec_state(),
            final(self).locals() == old(self).locals(),
            final(self).remotes() == old(self).remotes(),
            final(self).pairs() == old(self).pairs(),
            final(self).spec_cfg() == old(self).spec_cfg(),
            final(self).spec_role() == old(self).spec_role(),
            final(self).nominated() == old(self).nominated(),
            final(self).spec_tie_breaker() == old(self).spec_tie_breaker(),
            final(self).spec_checks_sent() == old(self).spec_checks_sent(),
            final(self).spec_gathering_done() == old(self).spec_gathering_done(),
            final(self).wf() == old(self).wf(),
    {
        self.pending_events.pop_front()
    }

    pub fn role(&self) -> (r: IceRole)
        ensures
            r == self.spec_role(),
    {
        self.role
    }

    pub fn tie_breaker(&self) -> (t: u64)
        ensures
            t == self.spec_tie_breaker(),
    {
        self.tie_breaker
    }
}

impl Default for IceAgent {
    fn default() -> (a: Self)
        ensures
            a.wf(),
            a.spec_role() == IceRole::Controlling,
            a.spec_state() == IceState::New,
            a.locals().len() == 0,
            a.remotes().len() == 0,
            a.pairs().len() == 0,
            a.events().len() == 0,
    {
        Self::new(IceAgentConfig::new(), IceRole::Controlling)
    }
}

} // verus!
