//! The peer connection: transceivers, offer/answer negotiation and the
//! signaling state machine.
use vstd::prelude::*;
use super::configuration::RtcConfiguration;
use super::transceiver::{RtpTransceiver, MediaKind, TransceiverDirection, CodecParameters};
use crate::text::{owned, push_str, push_decimal, decimal, decimal_string, last_piece, last_split_piece, copy_string};

verus! {

#[derive(Clone, Copy, Debug, PartialEq, Eq)]
pub enum PeerConnectionState {
    New,
    Connecting,
    Connected,
    Disconnected,
    Failed,
    Closed,
}

impl Default for PeerConnectionState {
    fn default() -> (s: Self)
        ensures
            s == PeerConnectionState::New,
    {
        PeerConnectionState::New
    }
}

#[derive(Clone, Copy, Debug, PartialEq, Eq)]
pub enum SignalingState {
    Stable,
    HaveLocalOffer,
    HaveRemoteOffer,
    HaveLocalPranswer,
    HaveRemotePranswer,
    Closed,
}

impl Default for SignalingState {
    fn default() -> (s: Self)
        ensures
            s == SignalingState::Stable,
    {
        SignalingState::Stable
    }
}

#[derive(Clone, Copy, Debug, PartialEq, Eq)]
pub enum SdpType {
    Offer,
    PrAnswer,
    Answer,
    Rollback,
}

#[derive(Clone, Debug)]
pub struct SessionDescription {
    pub sdp_type: SdpType,
    pub sdp: String,
}

impl SessionDescription {
    pub fn offer(sdp: &str) -> (d: Self)
        ensures
            d.sdp_type == SdpType::Offer,
            d.sdp@ == sdp@,
    {
        SessionDescription { sdp_type: SdpType::Offer, sdp: owned(sdp) }
    }

    pub fn answer(sdp: &str) -> (d: Self)
        ensures
            d.sdp_type == SdpType::Answer,
            d.sdp@ == sdp@,
    {
        SessionDescription { sdp_type: SdpType::Answer, sdp: owned(sdp) }
    }

    pub fn is_offer(&self) -> (b: bool)
        ensures
            b == (self.sdp_type == SdpType::Offer),
    {
        match self.sdp_type {
            SdpType::Offer => true,
            _ => false,
        }
    }

    pub fn is_answer(&self) -> (b: bool)
        ensures
            b == (self.sdp_type == SdpType::Answer),
    {
        match self.sdp_type {
            SdpType::Answer => true,
            _ => false,
        }
    }

    /// An exact copy.
    pub fn duplicate(&self) -> (d: Self)
        ensures
            d == *self,
    {
        SessionDescription { sdp_type: self.sdp_type, sdp: copy_string(&self.sdp) }
    }
}

/// The lines every generated description starts with.
pub open spec fn sdp_preamble() -> Seq<char> {
    "v=0\r\n"@ + "o=- 0 0 IN IP4 0.0.0.0\r\n"@ + "s=-\r\n"@ + "t=0 0\r\n"@
}

/// `a=rtpmap:<pt> <name>/<rate>` and the line end.
pub open spec fn rtpmap_line(pt: nat, name: Seq<char>, rate: nat) -> Seq<char> {
    "a=rtpmap:"@ + decimal(pt) + " "@ + name + "/"@ + decimal(rate) + "\r\n"@
}

/// The first lines of a media section: media line, connection, RTCP port,
/// media id and direction.
pub open spec fn media_head(kind: Seq<char>, pt: nat, mid: Seq<char>, dir: Seq<char>) -> Seq<char> {
    "m="@ + kind + " 9 UDP/TLS/RTP/SAVPF "@ + decimal(pt) + "\r\n"@ + "c=IN IP4 0.0.0.0\r\n"@
        + "a=rtcp:9 IN IP4 0.0.0.0\r\n"@ + "a=mid:"@ + mid + "\r\n"@ + "a="@ + dir + "\r\n"@
}

/// The format-parameter line of a codec, when it has parameters.
pub open spec fn fmtp_part(c: CodecParameters) -> Seq<char> {
    if c.sdp_fmtp_line.is_some() {
        "a=fmtp:"@ + decimal(c.payload_type as nat) + " "@ + c.sdp_fmtp_line.unwrap()@ + "\r\n"@
    } else {
        Seq::empty()
    }
}

/// The channel-count line of a codec, when it has more than one channel.
pub open spec fn channels_part(c: CodecParameters, name: Seq<char>) -> Seq<char> {
    if c.channels.is_some() && c.channels.unwrap() > 1 {
        "a=rtpmap:"@ + decimal(c.payload_type as nat) + " "@ + name + "/"@ + decimal(c.clock_rate as nat)
            + "/"@ + decimal(c.channels.unwrap() as nat) + "\r\n"@
    } else {
        Seq::empty()
    }
}

/// The format-parameter and channel lines of a codec.
pub open spec fn codec_extras(c: CodecParameters, name: Seq<char>) -> Seq<char> {
    fmtp_part(c) + channels_part(c, name)
}

/// The media section an offer holds for a transceiver, described by its
/// first codec (payload type 96, clock rate 90000 and no name without one).
pub open spec fn offer_section(t: RtpTransceiver) -> Seq<char> {
    let codecs = t.spec_codecs();
    let has = codecs.len() > 0;
    let c = codecs[0];
    let pt: nat = if has { c.payload_type as nat } else { 96 };
    let cr: nat = if has { c.clock_rate as nat } else { 90000 };
    let name = if has { last_piece(c.mime_type@, '/') } else { Seq::empty() };
    media_head(t.spec_kind().spec_as_str(), pt, t.spec_mid()@, t.spec_direction().spec_as_str())
        + rtpmap_line(pt, name, cr) + (if has { codec_extras(c, name) } else { Seq::empty() })
        + "a=ssrc:"@ + decimal(t.spec_sender().spec_ssrc() as nat) + " cname:webrtc-core\r\n"@
}

/// The media sections of an offer for `ts`, in order.
pub open spec fn offer_sections(ts: Seq<RtpTransceiver>) -> Seq<char>
    decreases ts.len(),
{
    if ts.len() == 0 {
        Seq::empty()
    } else {
        offer_sections(ts.drop_last()) + offer_section(ts.last())
    }
}

/// The complete text of an offer for `ts`.
pub open spec fn offer_sdp(ts: Seq<RtpTransceiver>) -> Seq<char> {
    sdp_preamble() + "a=msid-semantic: WMS\r\n"@ + offer_sections(ts)
}

/// The direction an answer states for a transceiver's own direction: the
/// mirror image, with stopped answered as inactive.
pub open spec fn answer_direction(d: TransceiverDirection) -> Seq<char> {
    match d {
        TransceiverDirection::SendRecv => "sendrecv"@,
        TransceiverDirection::SendOnly => "recvonly"@,
        TransceiverDirection::RecvOnly => "sendonly"@,
        TransceiverDirection::Inactive => "inactive"@,
        TransceiverDirection::Stopped => "inactive"@,
    }
}

/// The media section an answer holds for a transceiver.
pub open spec fn answer_section(t: RtpTransceiver) -> Seq<char> {
    let codecs = t.spec_codecs();
    let pt: nat = if codecs.len() > 0 { codecs[0].payload_type as nat } else { 96 };
    "m="@ + t.spec_kind().spec_as_str() + " 9 UDP/TLS/RTP/SAVPF "@ + decimal(pt) + "\r\n"@
        + "c=IN IP4 0.0.0.0\r\n"@ + "a=mid:"@ + t.spec_mid()@ + "\r\n"@ + "a="@ + answer_direction(
        t.spec_direction(),
    ) + "\r\n"@
}

pub open spec fn answer_sections(ts: Seq<RtpTransceiver>) -> Seq<char>
    decreases ts.len(),
{
    if ts.len() == 0 {
        Seq::empty()
    } else {
        answer_sections(ts.drop_last()) + answer_section(ts.last())
    }
}

/// The complete text of an answer for `ts`.
pub open spec fn answer_sdp(ts: Seq<RtpTransceiver>) -> Seq<char> {
    sdp_preamble() + answer_sections(ts)
}

/// The signaling state, the connection state and whether a description is
/// accepted, after applying a local description of type `t` in signaling
/// state `sig` with connection state `st`.
pub open spec fn local_step(sig: SignalingState, st: PeerConnectionState, t: SdpType) -> (bool, SignalingState, PeerConnectionState) {
    match t {
        SdpType::Offer => if sig == SignalingState::Stable || sig == SignalingState::HaveRemoteOffer {
            (true, SignalingState::HaveLocalOffer, st)
        } else {
            (false, sig, st)
        },
        SdpType::Answer | SdpType::PrAnswer => if sig == SignalingState::HaveRemoteOffer {
            (true, SignalingState::Stable, PeerConnectionState::Connected)
        } else {
            (false, sig, st)
        },
        SdpType::Rollback => (true, SignalingState::Stable, st),
    }
}

/// The same for a remote description.
pub open spec fn remote_step(sig: SignalingState, st: PeerConnectionState, t: SdpType) -> (bool, SignalingState, PeerConnectionState) {
    match t {
        SdpType::Offer => if sig == SignalingState::Stable || sig == SignalingState::HaveLocalOffer {
            (true, SignalingState::HaveRemoteOffer, PeerConnectionState::Connecting)
        } else {
            (false, sig, st)
        },
        SdpType::Answer | SdpType::PrAnswer => if sig == SignalingState::HaveLocalOffer {
            (true, SignalingState::Stable, PeerConnectionState::Connected)
        } else {
            (false, sig, st)
        },
        SdpType::Rollback => (true, SignalingState::Stable, st),
    }
}

pub struct PeerConnection {
    cfg: RtcConfiguration,
    state: PeerConnectionState,
    signaling_state: SignalingState,
    transceivers: Vec<RtpTransceiver>,
    local_description: Option<SessionDescription>,
    remote_description: Option<SessionDescription>,
    closed: bool,
    next_ssrc: u32,
    next_mid: u32,
}

impl PeerConnection {
    pub closed spec fn wf(&self) -> bool {
        self.next_ssrc % 2 == 0
    }

    pub closed spec fn spec_state(&self) -> PeerConnectionState {
        self.state
    }

    pub closed spec fn spec_signaling(&self) -> SignalingState {
        self.signaling_state
    }

    pub closed spec fn spec_transceivers(&self) -> Seq<RtpTransceiver> {
        self.transceivers@
    }

    pub closed spec fn spec_local(&self) -> Option<SessionDescription> {
        self.local_description
    }

    pub closed spec fn spec_remote(&self) -> Option<SessionDescription> {
        self.remote_description
    }

    pub closed spec fn spec_closed(&self) -> bool {
        self.closed
    }

    pub closed spec fn spec_next_ssrc(&self) -> u32 {
        self.next_ssrc
    }

    pub closed spec fn spec_next_mid(&self) -> u32 {
        self.next_mid
    }

    pub closed spec fn spec_cfg(&self) -> RtcConfiguration {
        self.cfg
    }

    /// Whether `a` and `b` agree on everything but the signaling state, the
    /// connection state and the descriptions.
    pub open spec fn same_media(a: PeerConnection, b: PeerConnection) -> bool {
        &&& a.wf() == b.wf()
        &&& a.spec_transceivers() == b.spec_transceivers()
        &&& a.spec_closed() == b.spec_closed()
        &&& a.spec_next_ssrc() == b.spec_next_ssrc()
        &&& a.spec_next_mid() == b.spec_next_mid()
        &&& a.spec_cfg() == b.spec_cfg()
    }

    pub fn new(cfg: RtcConfiguration) -> (pc: Self)
        ensures
            pc.wf(),
            pc.spec_cfg() == cfg,
            pc.spec_state() == PeerConnectionState::New,
            pc.spec_signaling() == SignalingState::Stable,
            pc.spec_transceivers().len() == 0,
            pc.spec_local().is_none(),
            pc.spec_remote().is_none(),
            !pc.spec_closed(),
            pc.spec_next_ssrc() == 0x1000_0000,
            pc.spec_next_mid() == 0,
    {
        PeerConnection {
            cfg,
            state: PeerConnectionState::New,
            signaling_state: SignalingState::Stable,
            transceivers: Vec::new(),
            local_description: None,
            remote_description: None,
            closed: false,
            next_ssrc: 0x1000_0000,
            next_mid: 0,
        }
    }

    /// Adds a transceiver of `kind` with the next two SSRCs (sending, then
    /// receiving), the next media id in decimal, and the default codecs of
    /// its kind; returns a copy of it.
    pub fn add_transceiver(&mut self, kind: MediaKind) -> (t: RtpTransceiver)
        requires
            old(self).wf(),
            old(self).spec_next_mid() < u32::MAX,
        ensures
            final(self).wf(),
            final(self).spec_transceivers().len() == old(self).spec_transceivers().len() + 1,
            final(self).spec_transceivers().drop_last() == old(self).spec_transceivers(),
            RtpTransceiver::same_except_direction(t, final(self).spec_transceivers().last()),
            t.spec_direction() == final(self).spec_transceivers().last().spec_direction(),
            t.spec_stopped() == final(self).spec_transceivers().last().spec_stopped(),
            t.spec_mid()@ == decimal(old(self).spec_next_mid() as nat),
            t.spec_kind() == kind,
            t.spec_sender().spec_ssrc() == old(self).spec_next_ssrc(),
            t.spec_receiver().spec_ssrc() == old(self).spec_next_ssrc().wrapping_add(2),
            t.spec_direction() == TransceiverDirection::SendRecv,
            !t.spec_stopped(),
            t.spec_codecs().len() == match kind {
                MediaKind::Audio => 1nat,
                MediaKind::Video => 3nat,
                MediaKind::Data => 0nat,
            },
            final(self).spec_next_ssrc() == old(self).spec_next_ssrc().wrapping_add(2).wrapping_add(2),
            final(self).spec_next_mid() == old(self).spec_next_mid() + 1,
            final(self).spec_state() == old(self).spec_state(),
            final(self).spec_signaling() == old(self).spec_signaling(),
            final(self).spec_local() == old(self).spec_local(),
            final(self).spec_remote() == old(self).spec_remote(),
            final(self).spec_closed() == old(self).spec_closed(),
            final(self).spec_cfg() == old(self).spec_cfg(),
    {
        let tx_ssrc = self.next_ssrc;
        self.next_ssrc = self.next_ssrc.wrapping_add(2);
        let rx_ssrc = self.next_ssrc;
        self.next_ssrc = self.next_ssrc.wrapping_add(2);
        let mid = decimal_string(self.next_mid as u64);
        self.next_mid = self.next_mid + 1;
        let mut tc = RtpTransceiver::new(mid.as_str(), kind, tx_ssrc, rx_ssrc);
        let mut codecs: Vec<CodecParameters> = Vec::new();
        match kind {
            MediaKind::Audio => {
                codecs.push(CodecParameters::opus());
            },
            MediaKind::Video => {
                codecs.push(CodecParameters::vp8());
                codecs.push(CodecParameters::vp9());
                codecs.push(CodecParameters::h264());
            },
            MediaKind::Data => {},
        }
        tc.set_codecs(codecs);
        let copy = tc.duplicate();
        self.transceivers.push(tc);
        assert(self.transceivers@.drop_last() =~= old(self).transceivers@);
        copy
    }

    /// Adds a transceiver as `add_transceiver` does, then gives it `direction`.
    pub fn add_transceiver_with_direction(&mut self, kind: MediaKind, direction: TransceiverDirection) -> (t: RtpTransceiver)
        requires
            old(self).wf(),
            old(self).spec_next_mid() < u32::MAX,
        ensures
            final(self).wf(),
            final(self).spec_transceivers().len() == old(self).spec_transceivers().len() + 1,
            final(self).spec_transceivers().drop_last() == old(self).spec_transceivers(),
            RtpTransceiver::same_except_direction(t, final(self).spec_transceivers().last()),
            t.spec_direction() == final(self).spec_transceivers().last().spec_direction(),
            t.spec_stopped() == final(self).spec_transceivers().last().spec_stopped(),
            t.spec_mid()@ == decimal(old(self).spec_next_mid() as nat),
            t.spec_kind() == kind,
            t.spec_direction() == direction,
            !t.spec_stopped(),
            final(self).spec_next_mid() == old(self).spec_next_mid() + 1,
            final(self).spec_state() == old(self).spec_state(),
            final(self).spec_signaling() == old(self).spec_signaling(),
            final(self).spec_closed() == old(self).spec_closed(),
    {
        let _ = self.add_transceiver(kind);
        let last = self.transceivers.len() - 1;
        let mut tc = self.transceivers.remove(last);
        tc.set_direction(direction);
        let copy = tc.duplicate();
        self.transceivers.push(tc);
        assert(self.transceivers@.drop_last() =~= old(self).transceivers@);
        copy
    }

    fn write_media_head(sdp: &mut String, kind: &str, pt: u64, mid: &str, dir: &str)
        ensures
            final(sdp)@ == old(sdp)@ + media_head(kind@, pt as nat, mid@, dir@),
    {
        push_str(sdp, "m=");
        push_str(sdp, kind);
        push_str(sdp, " 9 UDP/TLS/RTP/SAVPF ");
        push_decimal(sdp, pt);
        push_str(sdp, "\r\n");
        push_str(sdp, "c=IN IP4 0.0.0.0\r\n");
        push_str(sdp, "a=rtcp:9 IN IP4 0.0.0.0\r\n");
        push_str(sdp, "a=mid:");
        push_str(sdp, mid);
        push_str(sdp, "\r\n");
        push_str(sdp, "a=");
        push_str(sdp, dir);
        push_str(sdp, "\r\n");
        assert(sdp@ =~= old(sdp)@ + media_head(kind@, pt as nat, mid@, dir@));
    }

    fn write_rtpmap(sdp: &mut String, pt: u64, name: &str, rate: u64)
        ensures
            final(sdp)@ == old(sdp)@ + rtpmap_line(pt as nat, name@, rate as nat),
    {
        push_str(sdp, "a=rtpmap:");
        push_decimal(sdp, pt);
        push_str(sdp, " ");
        push_str(sdp, name);
        push_str(sdp, "/");
        push_decimal(sdp, rate);
        push_str(sdp, "\r\n");
        assert(sdp@ =~= old(sdp)@ + rtpmap_line(pt as nat, name@, rate as nat));
    }

    fn write_fmtp(sdp: &mut String, c: &CodecParameters)
        ensures
            final(sdp)@ == old(sdp)@ + fmtp_part(*c),
    {
        match &c.sdp_fmtp_line {
            Some(f) => {
                push_str(sdp, "a=fmtp:");
                push_decimal(sdp, c.payload_type as u64);
                push_str(sdp, " ");
                push_str(sdp, f.as_str());
                push_str(sdp, "\r\n");
            },
            None => {},
        }
        assert(sdp@ =~= old(sdp)@ + fmtp_part(*c));
    }

    fn write_channels(sdp: &mut String, c: &CodecParameters, name: &str)
        ensures
            final(sdp)@ == old(sdp)@ + channels_part(*c, name@),
    {
        match c.channels {
            Some(ch) => {
                if ch > 1 {
                    push_str(sdp, "a=rtpmap:");
                    push_decimal(sdp, c.payload_type as u64);
                    push_str(sdp, " ");
                    push_str(sdp, name);
                    push_str(sdp, "/");
                    push_decimal(sdp, c.clock_rate as u64);
                    push_str(sdp, "/");
                    push_decimal(sdp, ch as u64);
                    push_str(sdp, "\r\n");
                }
            },
            None => {},
        }
        assert(sdp@ =~= old(sdp)@ + channels_part(*c, name@));
    }

    fn write_codec_extras(sdp: &mut String, c: &CodecParameters, name: &str)
        ensures
            final(sdp)@ == old(sdp)@ + codec_extras(*c, name@),
    {
        Self::write_fmtp(sdp, c);
        Self::write_channels(sdp, c, name);
        assert(sdp@ =~= old(sdp)@ + codec_extras(*c, name@));
    }

    fn write_offer_section(sdp: &mut String, tc: &RtpTransceiver)
        ensures
            final(sdp)@ == old(sdp)@ + offer_section(*tc),
    {
        let codec = tc.negotiated_codec();
        let pt: u64 = match &codec {
            Some(c) => c.payload_type as u64,
            None => 96,
        };
        let cr: u64 = match &codec {
            Some(c) => c.clock_rate as u64,
            None => 90000,
        };
        let name: String = match &codec {
            Some(c) => owned(last_split_piece(c.mime_type.as_str(), '/')),
            None => String::new(),
        };
        let ghost s0 = sdp@;
        Self::write_media_head(sdp, tc.media_kind().as_str(), pt, tc.mid_str(), tc.direction().as_str());
        let ghost s1 = sdp@;
        Self::write_rtpmap(sdp, pt, name.as_str(), cr);
        let ghost s2 = sdp@;
        match &codec {
            Some(c) => {
                Self::write_codec_extras(sdp, c, name.as_str());
            },
            None => {},
        }
        let ghost s3 = sdp@;
        push_str(sdp, "a=ssrc:");
        push_decimal(sdp, tc.sender_ssrc() as u64);
        push_str(sdp, " cname:webrtc-core\r\n");
        assert(sdp@ =~= old(sdp)@ + offer_section(*tc));
    }

    fn write_preamble(sdp: &mut String)
        ensures
            final(sdp)@ == old(sdp)@ + sdp_preamble(),
    {
        push_str(sdp, "v=0\r\n");
        push_str(sdp, "o=- 0 0 IN IP4 0.0.0.0\r\n");
        push_str(sdp, "s=-\r\n");
        push_str(sdp, "t=0 0\r\n");
        assert(sdp@ =~= old(sdp)@ + sdp_preamble());
    }

    /// Describes every transceiver in an offer, records it as the local
    /// description and moves to have-local-offer. Refused once closed.
    pub fn create_offer(&mut self) -> (r: Result<SessionDescription, String>)
        ensures
            old(self).spec_closed() ==> r.is_err() && r->Err_0@ == "PeerConnection is closed"@ && *final(self) == *old(self),
            !old(self).spec_closed() ==> {
                &&& r.is_ok()
                &&& r->Ok_0.sdp_type == SdpType::Offer
                &&& r->Ok_0.sdp@ == offer_sdp(old(self).spec_transceivers())
                &&& final(self).spec_local() == Some(r->Ok_0)
                &&& final(self).spec_signaling() == SignalingState::HaveLocalOffer
                &&& final(self).spec_state() == old(self).spec_state()
                &&& final(self).spec_remote() == old(self).spec_remote()
                &&& Self::same_media(*final(self), *old(self))
            },
    {
        if self.closed {
            return Err(owned("PeerConnection is closed"));
        }
        let mut sdp = String::new();
        Self::write_preamble(&mut sdp);
        push_str(&mut sdp, "a=msid-semantic: WMS\r\n");
        let ghost head = sdp@;
        let mut i: usize = 0;
        while i < self.transceivers.len()
            invariant
                i <= self.transceivers@.len(),
                sdp@ == head + offer_sections(self.transceivers@.subrange(0, i as int)),
            decreases self.transceivers@.len() - i,
        {
            Self::write_offer_section(&mut sdp, &self.transceivers[i]);
            assert(self.transceivers@.subrange(0, i + 1).drop_last() =~= self.transceivers@.subrange(0, i as int));
            i = i + 1;
        }
        assert(self.transceivers@.subrange(0, i as int) =~= self.transceivers@);
        assert(sdp@ =~= offer_sdp(self.transceivers@));
        let desc = SessionDescription { sdp_type: SdpType::Offer, sdp };
        self.local_description = Some(desc.duplicate());
        self.signaling_state = SignalingState::HaveLocalOffer;
        Ok(desc)
    }

    fn write_answer_section(sdp: &mut String, tc: &RtpTransceiver)
        ensures
            final(sdp)@ == old(sdp)@ + answer_section(*tc),
    {
        let codec = tc.negotiated_codec();
        let pt: u64 = match &codec {
            Some(c) => c.payload_type as u64,
            None => 96,
        };
        let dir_str: &str = match tc.direction() {
            TransceiverDirection::SendRecv => "sendrecv",
            TransceiverDirection::SendOnly => "recvonly",
            TransceiverDirection::RecvOnly => "sendonly",
            TransceiverDirection::Inactive => "inactive",
            TransceiverDirection::Stopped => "inactive",
        };
        push_str(sdp, "m=");
        push_str(sdp, tc.media_kind().as_str());
        push_str(sdp, " 9 UDP/TLS/RTP/SAVPF ");
        push_decimal(sdp, pt);
        push_str(sdp, "\r\n");
        push_str(sdp, "c=IN IP4 0.0.0.0\r\n");
        push_str(sdp, "a=mid:");
        push_str(sdp, tc.mid_str());
        push_str(sdp, "\r\n");
        push_str(sdp, "a=");
        push_str(sdp, dir_str);
        push_str(sdp, "\r\n");
        assert(sdp@ =~= old(sdp)@ + answer_section(*tc));
    }

    /// Answers the remote offer: describes every transceiver with mirrored
    /// directions, records it as the local description and returns to
    /// stable. Refused once closed or without a remote description.
    pub fn create_answer(&mut self) -> (r: Result<SessionDescription, String>)
        ensures
            old(self).spec_closed() ==> r.is_err() && r->Err_0@ == "PeerConnection is closed"@ && *final(self) == *old(self),
            !old(self).spec_closed() && old(self).spec_remote().is_none() ==> r.is_err() && r->Err_0@
                == "no remote description set"@ && *final(self) == *old(self),
            !old(self).spec_closed() && old(self).spec_remote().is_some() ==> {
                &&& r.is_ok()
                &&& r->Ok_0.sdp_type == SdpType::Answer
                &&& r->Ok_0.sdp@ == answer_sdp(old(self).spec_transceivers())
                &&& final(self).spec_local() == Some(r->Ok_0)
                &&& final(self).spec_signaling() == SignalingState::Stable
                &&& final(self).spec_state() == old(self).spec_state()
                &&& final(self).spec_remote() == old(self).spec_remote()
                &&& Self::same_media(*final(self), *old(self))
            },
    {
        if self.closed {
            return Err(owned("PeerConnection is closed"));
        }
        if self.remote_description.is_none() {
            return Err(owned("no remote description set"));
        }
        let mut sdp = String::new();
        Self::write_preamble(&mut sdp);
        let ghost head = sdp@;
        let mut i: usize = 0;
        while i < self.transceivers.len()
            invariant
                i <= self.transceivers@.len(),
                sdp@ == head + answer_sections(self.transceivers@.subrange(0, i as int)),
            decreases self.transceivers@.len() - i,
        {
            Self::write_answer_section(&mut sdp, &self.transceivers[i]);
            assert(self.transceivers@.subrange(0, i + 1).drop_last() =~= self.transceivers@.subrange(0, i as int));
            i = i + 1;
        }
        assert(self.transceivers@.subrange(0, i as int) =~= self.transceivers@);
        assert(sdp@ =~= answer_sdp(self.transceivers@));
        let desc = SessionDescription { sdp_type: SdpType::Answer, sdp };
        self.local_description = Some(desc.duplicate());
        self.signaling_state = SignalingState::Stable;
        Ok(desc)
    }

    /// Applies a local description according to the signaling rules; a
    /// rollback drops the local description.
    pub fn set_local_description(&mut self, desc: SessionDescription) -> (r: Result<(), String>)
        ensures
            old(self).spec_closed() ==> r.is_err() && r->Err_0@ == "closed"@ && *final(self) == *old(self),
            !old(self).spec_closed() ==> ({
                let (ok, sig, st) = local_step(old(self).spec_signaling(), old(self).spec_state(), desc.sdp_type);
                &&& r.is_ok() == ok
                &&& final(self).spec_signaling() == sig
                &&& final(self).spec_state() == st
                &&& final(self).spec_remote() == old(self).spec_remote()
                &&& final(self).spec_local() == if !ok {
                    old(self).spec_local()
                } else if desc.sdp_type == SdpType::Rollback {
                    None
                } else {
                    Some(desc)
                }
                &&& !ok ==> r->Err_0@ == if desc.sdp_type == SdpType::Offer {
                    "invalid state for local offer"@
                } else {
                    "invalid state for local answer"@
                }
                &&& Self::same_media(*final(self), *old(self))
            }),
    {
        if self.closed {
            return Err(owned("closed"));
        }
        match desc.sdp_type {
            SdpType::Offer => {
                match self.signaling_state {
                    SignalingState::Stable | SignalingState::HaveRemoteOffer => {},
                    _ => {
                        return Err(owned("invalid state for local offer"));
                    },
                }
                self.local_description = Some(desc);
                self.signaling_state = SignalingState::HaveLocalOffer;
            },
            SdpType::Answer | SdpType::PrAnswer => {
                match self.signaling_state {
                    SignalingState::HaveRemoteOffer => {},
                    _ => {
                        return Err(owned("invalid state for local answer"));
                    },
                }
                self.local_description = Some(desc);
                self.signaling_state = SignalingState::Stable;
                self.state = PeerConnectionState::Connected;
            },
            SdpType::Rollback => {
                self.local_description = None;
                self.signaling_state = SignalingState::Stable;
            },
        }
        Ok(())
    }

    /// Applies a remote description according to the signaling rules; a
    /// rollback drops the remote description.
    pub fn set_remote_description(&mut self, desc: SessionDescription) -> (r: Result<(), String>)
        ensures
            old(self).spec_closed() ==> r.is_err() && r->Err_0@ == "closed"@ && *final(self) == *old(self),
            !old(self).spec_closed() ==> ({
                let (ok, sig, st) = remote_step(old(self).spec_signaling(), old(self).spec_state(), desc.sdp_type);
                &&& r.is_ok() == ok
                &&& final(self).spec_signaling() == sig
                &&& final(self).spec_state() == st
                &&& final(self).spec_local() == old(self).spec_local()
                &&& final(self).spec_remote() == if !ok {
                    old(self).spec_remote()
                } else if desc.sdp_type == SdpType::Rollback {
                    None
                } else {
                    Some(desc)
                }
                &&& !ok ==> r->Err_0@ == if desc.sdp_type == SdpType::Offer {
                    "invalid state for remote offer"@
                } else {
                    "invalid state for remote answer"@
                }
                &&& Self::same_media(*final(self), *old(self))
            }),
    {
        if self.closed {
            return Err(owned("closed"));
        }
        match desc.sdp_type {
            SdpType::Offer => {
                match self.signaling_state {
                    SignalingState::Stable | SignalingState::HaveLocalOffer => {},
                    _ => {
                        return Err(owned("invalid state for remote offer"));
                    },
                }
                self.remote_description = Some(desc);
                self.signaling_state = SignalingState::HaveRemoteOffer;
                self.state = PeerConnectionState::Connecting;
            },
            SdpType::Answer | SdpType::PrAnswer => {
                match self.signaling_state {
                    SignalingState::HaveLocalOffer => {},
                    _ => {
                        return Err(owned("invalid state for remote answer"));
                    },
                }
                self.remote_description = Some(desc);
                self.signaling_state = SignalingState::Stable;
                self.state = PeerConnectionState::Connected;
            },
            SdpType::Rollback => {
                self.remote_description = None;
                self.signaling_state = SignalingState::Stable;
            },
        }
        Ok(())
    }

    pub fn state(&self) -> (s: PeerConnectionState)
        ensures
            s == self.spec_state(),
    {
        self.state
    }

    pub fn signaling_state(&self) -> (s: SignalingState)
        ensures
            s == self.spec_signaling(),
    {
        self.signaling_state
    }

    pub fn local_description(&self) -> (d: Option<SessionDescription>)
        ensures
            d == self.spec_local(),
    {
        match &self.local_description {
            Some(d) => Some(d.duplicate()),
            None => None,
        }
    }

    pub fn remote_description(&self) -> (d: Option<SessionDescription>)
        ensures
            d == self.spec_remote(),
    {
        match &self.remote_description {
            Some(d) => Some(d.duplicate()),
            None => None,
        }
    }

    pub fn transceivers(&self) -> (v: &Vec<RtpTransceiver>)
        ensures
            v@ == self.spec_transceivers(),
    {
        &self.transceivers
    }

    /// The first transceiver whose media id is `mid`.
    pub fn transceiver_by_mid(&self, mid: &str) -> (r: Option<&RtpTransceiver>)
        ensures
            r.is_none() ==> forall|i: int| 0 <= i < self.spec_transceivers().len() ==> (#[trigger] self.spec_transceivers()[i]).spec_mid()@ != mid@,
            r.is_some() ==> exists|i: int| 0 <= i < self.spec_transceivers().len() && *r.unwrap() == self.spec_transceivers()[i]
                && (forall|j: int| 0 <= j < i ==> (#[trigger] self.spec_transceivers()[j]).spec_mid()@ != mid@)
                && self.spec_transceivers()[i].spec_mid()@ == mid@,
    {
        let mut i: usize = 0;
        while i < self.transceivers.len()
            invariant
                i <= self.transceivers@.len(),
                forall|j: int| 0 <= j < i ==> (#[trigger] self.transceivers@[j]).spec_mid()@ != mid@,
            decreases self.transceivers@.len() - i,
        {
            if crate::wire::str_eq(self.transceivers[i].mid_str(), mid) {
                assert(self.spec_transceivers()[i as int].spec_mid()@ == mid@);
                return Some(&self.transceivers[i]);
            }
            i = i + 1;
        }
        None
    }

    /// Closes the connection for good and stops every transceiver.
    pub fn close(&mut self)
        ensures
            final(self).spec_closed(),
            final(self).spec_state() == PeerConnectionState::Closed,
            final(self).spec_signaling() == SignalingState::Closed,
            final(self).spec_transceivers().len() == old(self).spec_transceivers().len(),
            forall|i: int| 0 <= i < final(self).spec_transceivers().len() ==> (#[trigger] final(self).spec_transceivers()[i]).spec_stopped()
                && RtpTransceiver::same_except_direction(final(self).spec_transceivers()[i], old(self).spec_transceivers()[i])
                && final(self).spec_transceivers()[i].spec_direction() == TransceiverDirection::Stopped,
            final(self).spec_local() == old(self).spec_local(),
            final(self).spec_remote() == old(self).spec_remote(),
            final(self).wf() == old(self).wf(),
            final(self).spec_next_mid() == old(self).spec_next_mid(),
    {
        self.closed = true;
        self.state = PeerConnectionState::Closed;
        self.signaling_state = SignalingState::Closed;
        let n = self.transceivers.len();
        let mut done: Vec<RtpTransceiver> = Vec::new();
        let mut rest: Vec<RtpTransceiver> = Vec::new();
        std::mem::swap(&mut rest, &mut self.transceivers);
        let ghost orig = rest@;
        let mut i: usize = 0;
        while i < n
            invariant
                orig == old(self).transceivers@,
                n == orig.len(),
                i <= n,
                done@.len() == i,
                rest@.len() == n - i,
                forall|j: int| 0 <= j < rest@.len() ==> rest@[j] == orig[(n - rest@.len()) + j],
                forall|j: int| 0 <= j < i ==> (#[trigger] done@[j]).spec_stopped()
                    && RtpTransceiver::same_except_direction(done@[j], orig[j])
                    && done@[j].spec_direction() == TransceiverDirection::Stopped,
            decreases n - i,
        {
            let mut tc = rest.remove(0);
            tc.stop();
            done.push(tc);
            i = i + 1;
        }
        self.transceivers = done;
    }

    pub fn is_closed(&self) -> (b: bool)
        ensures
            b == self.spec_closed(),
    {
        self.closed
    }

    pub fn configuration(&self) -> (c: &RtcConfiguration)
        ensures
            *c == self.spec_cfg(),
    {
        &self.cfg
    }
}

/// A full offer/answer exchange leaves both sides stable: the offerer after
/// its own offer and the remote answer, the answerer after the remote offer
/// and its own answer; and the offerer ends up connected.
pub proof fn offer_answer_law(sig: SignalingState, st: PeerConnectionState)
    requires
        sig == SignalingState::Stable,
    ensures
        ({
            let (ok1, s1, t1) = local_step(sig, st, SdpType::Offer);
            let (ok2, s2, t2) = remote_step(s1, t1, SdpType::Answer);
            ok1 && ok2 && s2 == SignalingState::Stable && t2 == PeerConnectionState::Connected
        }),
        ({
            let (ok1, s1, t1) = remote_step(sig, st, SdpType::Offer);
            let (ok2, s2, t2) = local_step(s1, t1, SdpType::Answer);
            ok1 && ok2 && s1 == SignalingState::HaveRemoteOffer && s2 == SignalingState::Stable
                && t2 == PeerConnectionState::Connected
        }),
{
}

/// A rollback, local or remote, is always accepted and returns to stable
/// without touching the connection state.
pub proof fn rollback_law(sig: SignalingState, st: PeerConnectionState)
    ensures
        local_step(sig, st, SdpType::Rollback) == (true, SignalingState::Stable, st),
        remote_step(sig, st, SdpType::Rollback) == (true, SignalingState::Stable, st),
{
}

/// A remote description is accepted exactly when it is a rollback, an
/// offer in a stable or local-offer state, or an answer (final or
/// provisional) to a local offer; a refused one leaves the signaling and
/// connection states as they were.
pub proof fn remote_description_law(sig: SignalingState, st: PeerConnectionState, t: SdpType)
    ensures
        remote_step(sig, st, t).0 <==> (t == SdpType::Rollback || (t == SdpType::Offer && (sig
            == SignalingState::Stable || sig == SignalingState::HaveLocalOffer)) || ((t == SdpType::Answer || t
            == SdpType::PrAnswer) && sig == SignalingState::HaveLocalOffer)),
        !remote_step(sig, st, t).0 ==> remote_step(sig, st, t).1 == sig && remote_step(sig, st, t).2 == st,
{
}

} // verus!
