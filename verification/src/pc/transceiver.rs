//! Media transceivers: a sender and a receiver sharing a media section.
use vstd::prelude::*;
use crate::text::{owned, copy_string, copy_opt_string};

verus! {

#[derive(Clone, Copy, Debug, PartialEq, Eq)]
pub enum MediaKind {
    Audio,
    Video,
    Data,
}

impl MediaKind {
    pub open spec fn spec_as_str(self) -> Seq<char> {
        match self {
            MediaKind::Audio => "audio"@,
            MediaKind::Video => "video"@,
            MediaKind::Data => "application"@,
        }
    }

    /// The media type as written on an SDP `m=` line.
    pub fn as_str(&self) -> (s: &'static str)
        ensures
            s@ == self.spec_as_str(),
    {
        match self {
            MediaKind::Audio => "audio",
            MediaKind::Video => "video",
            MediaKind::Data => "application",
        }
    }
}

#[derive(Clone, Copy, Debug, PartialEq, Eq)]
pub enum TransceiverDirection {
    SendRecv,
    SendOnly,
    RecvOnly,
    Inactive,
    Stopped,
}

impl TransceiverDirection {
    pub open spec fn spec_as_str(self) -> Seq<char> {
        match self {
            TransceiverDirection::SendRecv => "sendrecv"@,
            TransceiverDirection::SendOnly => "sendonly"@,
            TransceiverDirection::RecvOnly => "recvonly"@,
            TransceiverDirection::Inactive => "inactive"@,
            TransceiverDirection::Stopped => "stopped"@,
        }
    }

    pub fn as_str(&self) -> (s: &'static str)
        ensures
            s@ == self.spec_as_str(),
    {
        match self {
            TransceiverDirection::SendRecv => "sendrecv",
            TransceiverDirection::SendOnly => "sendonly",
            TransceiverDirection::RecvOnly => "recvonly",
            TransceiverDirection::Inactive => "inactive",
            TransceiverDirection::Stopped => "stopped",
        }
    }

    pub open spec fn spec_can_send(self) -> bool {
        self == TransceiverDirection::SendRecv || self == TransceiverDirection::SendOnly
    }

    pub open spec fn spec_can_receive(self) -> bool {
        self == TransceiverDirection::SendRecv || self == TransceiverDirection::RecvOnly
    }

    pub fn can_send(&self) -> (b: bool)
        ensures
            b == self.spec_can_send(),
    {
        match self {
            TransceiverDirection::SendRecv | TransceiverDirection::SendOnly => true,
            _ => false,
        }
    }

    pub fn can_receive(&self) -> (b: bool)
        ensures
            b == self.spec_can_receive(),
    {
        match self {
            TransceiverDirection::SendRecv | TransceiverDirection::RecvOnly => true,
            _ => false,
        }
    }
}

impl Default for TransceiverDirection {
    fn default() -> (d: Self)
        ensures
            d == TransceiverDirection::SendRecv,
    {
        TransceiverDirection::SendRecv
    }
}

/// One codec a transceiver can use.
#[derive(Clone, Debug)]
pub struct CodecParameters {
    pub mime_type: String,
    pub payload_type: u8,
    pub clock_rate: u32,
    pub channels: Option<u8>,
    pub sdp_fmtp_line: Option<String>,
}

/// Whether `c` has the given MIME type, payload type, clock rate, channel
/// count and format parameters.
pub open spec fn codec_is(c: CodecParameters, mime: Seq<char>, pt: u8, rate: u32, channels: Option<u8>, fmtp: Option<Seq<char>>) -> bool {
    &&& c.mime_type@ == mime
    &&& c.payload_type == pt
    &&& c.clock_rate == rate
    &&& c.channels == channels
    &&& match fmtp {
        Some(f) => c.sdp_fmtp_line.is_some() && c.sdp_fmtp_line.unwrap()@ == f,
        None => c.sdp_fmtp_line.is_none(),
    }
}

impl CodecParameters {
    pub fn opus() -> (c: Self)
        ensures
            codec_is(c, "audio/opus"@, 111, 48000, Some(2u8), Some("minptime=10;useinbandfec=1"@)),
    {
        CodecParameters {
            mime_type: owned("audio/opus"),
            payload_type: 111,
            clock_rate: 48000,
            channels: Some(2),
            sdp_fmtp_line: Some(owned("minptime=10;useinbandfec=1")),
        }
    }

    pub fn vp8() -> (c: Self)
        ensures
            codec_is(c, "video/VP8"@, 96, 90000, None, None),
    {
        CodecParameters {
            mime_type: owned("video/VP8"),
            payload_type: 96,
            clock_rate: 90000,
            channels: None,
            sdp_fmtp_line: None,
        }
    }

    pub fn vp9() -> (c: Self)
        ensures
            codec_is(c, "video/VP9"@, 98, 90000, None, Some("profile-id=0"@)),
    {
        CodecParameters {
            mime_type: owned("video/VP9"),
            payload_type: 98,
            clock_rate: 90000,
            channels: None,
            sdp_fmtp_line: Some(owned("profile-id=0")),
        }
    }

    pub fn h264() -> (c: Self)
        ensures
            codec_is(
                c,
                "video/H264"@,
                102,
                90000,
                None,
                Some("level-asymmetry-allowed=1;packetization-mode=1;profile-level-id=42e01f"@),
            ),
    {
        CodecParameters {
            mime_type: owned("video/H264"),
            payload_type: 102,
            clock_rate: 90000,
            channels: None,
            sdp_fmtp_line: Some(owned("level-asymmetry-allowed=1;packetization-mode=1;profile-level-id=42e01f")),
        }
    }

    pub fn av1() -> (c: Self)
        ensures
            codec_is(c, "video/AV1"@, 45, 90000, None, None),
    {
        CodecParameters {
            mime_type: owned("video/AV1"),
            payload_type: 45,
            clock_rate: 90000,
            channels: None,
            sdp_fmtp_line: None,
        }
    }

    /// An exact copy.
    pub fn duplicate(&self) -> (c: Self)
        ensures
            c == *self,
    {
        CodecParameters {
            mime_type: copy_string(&self.mime_type),
            payload_type: self.payload_type,
            clock_rate: self.clock_rate,
            channels: self.channels,
            sdp_fmtp_line: copy_opt_string(&self.sdp_fmtp_line),
        }
    }
}

/// Sending half of a transceiver. Its counters wrap around on overflow.
pub struct RtpSender {
    pub ssrc: u32,
    pub rtx_ssrc: u32,
    active: bool,
    packets_sent: u32,
    bytes_sent: u64,
    codec: Option<CodecParameters>,
}

impl RtpSender {
    pub closed spec fn spec_ssrc(&self) -> u32 {
        self.ssrc
    }

    pub closed spec fn spec_rtx_ssrc(&self) -> u32 {
        self.rtx_ssrc
    }

    pub closed spec fn spec_active(&self) -> bool {
        self.active
    }

    pub closed spec fn spec_packets_sent(&self) -> u32 {
        self.packets_sent
    }

    pub closed spec fn spec_bytes_sent(&self) -> u64 {
        self.bytes_sent
    }

    pub closed spec fn spec_codec(&self) -> Option<CodecParameters> {
        self.codec
    }

    /// A sender on `ssrc`, with its retransmissions on the next SSRC.
    pub fn new(ssrc: u32) -> (s: Self)
        requires
            ssrc < u32::MAX,
        ensures
            s.spec_ssrc() == ssrc,
            s.spec_rtx_ssrc() == ssrc + 1,
            s.spec_active(),
            s.spec_packets_sent() == 0,
            s.spec_bytes_sent() == 0,
            s.spec_codec().is_none(),
    {
        RtpSender { ssrc, rtx_ssrc: ssrc + 1, active: true, packets_sent: 0, bytes_sent: 0, codec: None }
    }

    pub fn set_codec(&mut self, codec: CodecParameters)
        ensures
            final(self).spec_codec() == Some(codec),
            final(self).spec_ssrc() == old(self).spec_ssrc(),
            final(self).spec_rtx_ssrc() == old(self).spec_rtx_ssrc(),
            final(self).spec_active() == old(self).spec_active(),
            final(self).spec_packets_sent() == old(self).spec_packets_sent(),
            final(self).spec_bytes_sent() == old(self).spec_bytes_sent(),
    {
        self.codec = Some(codec);
    }

    pub fn record_sent(&mut self, bytes: usize)
        ensures
            final(self).spec_packets_sent() == old(self).spec_packets_sent().wrapping_add(1),
            final(self).spec_bytes_sent() == old(self).spec_bytes_sent().wrapping_add(bytes as u64),
            final(self).spec_ssrc() == old(self).spec_ssrc(),
            final(self).spec_rtx_ssrc() == old(self).spec_rtx_ssrc(),
            final(self).spec_active() == old(self).spec_active(),
            final(self).spec_codec() == old(self).spec_codec(),
    {
        self.packets_sent = self.packets_sent.wrapping_add(1);
        self.bytes_sent = self.bytes_sent.wrapping_add(bytes as u64);
    }

    pub fn packets_sent(&self) -> (n: u32)
        ensures
            n == self.spec_packets_sent(),
    {
        self.packets_sent
    }

    pub fn bytes_sent(&self) -> (n: u64)
        ensures
            n == self.spec_bytes_sent(),
    {
        self.bytes_sent
    }

    pub fn is_active(&self) -> (b: bool)
        ensures
            b == self.spec_active(),
    {
        self.active
    }

    pub fn set_active(&mut self, active: bool)
        ensures
            final(self).spec_active() == active,
            final(self).spec_ssrc() == old(self).spec_ssrc(),
            final(self).spec_rtx_ssrc() == old(self).spec_rtx_ssrc(),
            final(self).spec_packets_sent() == old(self).spec_packets_sent(),
            final(self).spec_bytes_sent() == old(self).spec_bytes_sent(),
            final(self).spec_codec() == old(self).spec_codec(),
    {
        self.active = active;
    }

    /// An exact copy.
    pub fn duplicate(&self) -> (s: Self)
        ensures
            s == *self,
    {
        RtpSender {
            ssrc: self.ssrc,
            rtx_ssrc: self.rtx_ssrc,
            active: self.active,
            packets_sent: self.packets_sent,
            bytes_sent: self.bytes_sent,
            codec: match &self.codec {
                Some(c) => Some(c.duplicate()),
                None => None,
            },
        }
    }
}

/// Receiving half of a transceiver. Its counters wrap around on overflow.
pub struct RtpReceiver {
    pub ssrc: u32,
    active: bool,
    packets_received: u32,
    bytes_received: u64,
    codec: Option<CodecParameters>,
}

impl RtpReceiver {
    pub closed spec fn spec_ssrc(&self) -> u32 {
        self.ssrc
    }

    pub closed spec fn spec_packets_received(&self) -> u32 {
        self.packets_received
    }

    pub closed spec fn spec_bytes_received(&self) -> u64 {
        self.bytes_received
    }

    pub fn new(ssrc: u32) -> (r: Self)
        ensures
            r.spec_ssrc() == ssrc,
            r.spec_packets_received() == 0,
            r.spec_bytes_received() == 0,
    {
        RtpReceiver { ssrc, active: true, packets_received: 0, bytes_received: 0, codec: None }
    }

    pub fn record_received(&mut self, bytes: usize)
        ensures
            final(self).spec_packets_received() == old(self).spec_packets_received().wrapping_add(1),
            final(self).spec_bytes_received() == old(self).spec_bytes_received().wrapping_add(bytes as u64),
            final(self).spec_ssrc() == old(self).spec_ssrc(),
    {
        self.packets_received = self.packets_received.wrapping_add(1);
        self.bytes_received = self.bytes_received.wrapping_add(bytes as u64);
    }

    pub fn packets_received(&self) -> (n: u32)
        ensures
            n == self.spec_packets_received(),
    {
        self.packets_received
    }

    pub fn bytes_received(&self) -> (n: u64)
        ensures
            n == self.spec_bytes_received(),
    {
        self.bytes_received
    }

    /// An exact copy.
    pub fn duplicate(&self) -> (r: Self)
        ensures
            r == *self,
    {
        RtpReceiver {
            ssrc: self.ssrc,
            active: self.active,
            packets_received: self.packets_received,
            bytes_received: self.bytes_received,
            codec: match &self.codec {
                Some(c) => Some(c.duplicate()),
                None => None,
            },
        }
    }
}

/// A sender and a receiver bound to one media section.
pub struct RtpTransceiver {
    pub mid: String,
    pub kind: MediaKind,
    pub sender: RtpSender,
    pub receiver: RtpReceiver,
    direction: TransceiverDirection,
    stopped: bool,
    codecs: Vec<CodecParameters>,
}

impl RtpTransceiver {
    pub closed spec fn spec_mid(&self) -> String {
        self.mid
    }

    pub closed spec fn spec_kind(&self) -> MediaKind {
        self.kind
    }

    pub closed spec fn spec_sender(&self) -> RtpSender {
        self.sender
    }

    pub closed spec fn spec_receiver(&self) -> RtpReceiver {
        self.receiver
    }

    pub closed spec fn spec_direction(&self) -> TransceiverDirection {
        self.direction
    }

    pub closed spec fn spec_stopped(&self) -> bool {
        self.stopped
    }

    pub closed spec fn spec_codecs(&self) -> Seq<CodecParameters> {
        self.codecs@
    }

    /// Whether `a` and `b` differ at most in direction and stop flag.
    pub open spec fn same_except_direction(a: RtpTransceiver, b: RtpTransceiver) -> bool {
        &&& a.spec_mid() == b.spec_mid()
        &&& a.spec_kind() == b.spec_kind()
        &&& a.spec_sender() == b.spec_sender()
        &&& a.spec_receiver() == b.spec_receiver()
        &&& a.spec_codecs() == b.spec_codecs()
    }

    pub fn new(mid: &str, kind: MediaKind, tx_ssrc: u32, rx_ssrc: u32) -> (t: Self)
        requires
            tx_ssrc < u32::MAX,
        ensures
            t.spec_mid()@ == mid@,
            t.spec_kind() == kind,
            t.spec_sender().spec_ssrc() == tx_ssrc,
            t.spec_sender().spec_rtx_ssrc() == tx_ssrc + 1,
            t.spec_sender().spec_packets_sent() == 0,
            t.spec_sender().spec_bytes_sent() == 0,
            t.spec_sender().spec_active(),
            t.spec_sender().spec_codec().is_none(),
            t.spec_receiver().spec_ssrc() == rx_ssrc,
            t.spec_receiver().spec_packets_received() == 0,
            t.spec_receiver().spec_bytes_received() == 0,
            t.spec_direction() == TransceiverDirection::SendRecv,
            !t.spec_stopped(),
            t.spec_codecs() == Seq::<CodecParameters>::empty(),
    {
        RtpTransceiver {
            mid: owned(mid),
            kind,
            sender: RtpSender::new(tx_ssrc),
            receiver: RtpReceiver::new(rx_ssrc),
            direction: TransceiverDirection::SendRecv,
            stopped: false,
            codecs: Vec::new(),
        }
    }

    pub(crate) fn mid_str(&self) -> (m: &str)
        ensures
            m@ == self.spec_mid()@,
    {
        self.mid.as_str()
    }

    pub(crate) fn media_kind(&self) -> (k: MediaKind)
        ensures
            k == self.spec_kind(),
    {
        self.kind
    }

    pub(crate) fn sender_ssrc(&self) -> (s: u32)
        ensures
            s == self.spec_sender().spec_ssrc(),
    {
        self.sender.ssrc
    }

    pub fn direction(&self) -> (d: TransceiverDirection)
        ensures
            d == self.spec_direction(),
    {
        self.direction
    }

    pub fn set_direction(&mut self, dir: TransceiverDirection)
        ensures
            final(self).spec_direction() == dir,
            final(self).spec_stopped() == old(self).spec_stopped(),
            Self::same_except_direction(*final(self), *old(self)),
    {
        self.direction = dir;
    }

    /// Stops the transceiver for good: it neither sends nor receives again.
    pub fn stop(&mut self)
        ensures
            final(self).spec_stopped(),
            final(self).spec_direction() == TransceiverDirection::Stopped,
            Self::same_except_direction(*final(self), *old(self)),
    {
        self.stopped = true;
        self.direction = TransceiverDirection::Stopped;
    }

    pub fn is_stopped(&self) -> (b: bool)
        ensures
            b == self.spec_stopped(),
    {
        self.stopped
    }

    pub fn set_codecs(&mut self, codecs: Vec<CodecParameters>)
        ensures
            final(self).spec_codecs() == codecs@,
            final(self).spec_mid() == old(self).spec_mid(),
            final(self).spec_kind() == old(self).spec_kind(),
            final(self).spec_sender() == old(self).spec_sender(),
            final(self).spec_receiver() == old(self).spec_receiver(),
            final(self).spec_direction() == old(self).spec_direction(),
            final(self).spec_stopped() == old(self).spec_stopped(),
    {
        self.codecs = codecs;
    }

    /// The preferred codec: the first one set, if any.
    pub fn negotiated_codec(&self) -> (c: Option<CodecParameters>)
        ensures
            self.spec_codecs().len() == 0 ==> c.is_none(),
            self.spec_codecs().len() > 0 ==> c == Some(self.spec_codecs()[0]),
    {
        if self.codecs.len() == 0 {
            None
        } else {
            Some(self.codecs[0].duplicate())
        }
    }

    pub open spec fn spec_can_send(&self) -> bool {
        self.spec_direction().spec_can_send() && !self.spec_stopped()
    }

    pub open spec fn spec_can_receive(&self) -> bool {
        self.spec_direction().spec_can_receive() && !self.spec_stopped()
    }

    pub fn can_send(&self) -> (b: bool)
        ensures
            b == self.spec_can_send(),
    {
        self.direction.can_send() && !self.stopped
    }

    pub fn can_receive(&self) -> (b: bool)
        ensures
            b == self.spec_can_receive(),
    {
        self.direction.can_receive() && !self.stopped
    }

    /// A copy with the same contents.
    pub fn duplicate(&self) -> (t: Self)
        ensures
            Self::same_except_direction(t, *self),
            t.spec_direction() == self.spec_direction(),
            t.spec_stopped() == self.spec_stopped(),
    {
        let mut codecs: Vec<CodecParameters> = Vec::new();
        let mut i: usize = 0;
        while i < self.codecs.len()
            invariant
                i <= self.codecs@.len(),
                codecs@ == self.codecs@.subrange(0, i as int),
            decreases self.codecs@.len() - i,
        {
            codecs.push(self.codecs[i].duplicate());
            i = i + 1;
            assert(codecs@ =~= self.codecs@.subrange(0, i as int));
        }
        assert(codecs@ =~= self.codecs@);
        RtpTransceiver {
            mid: copy_string(&self.mid),
            kind: self.kind,
            sender: self.sender.duplicate(),
            receiver: self.receiver.duplicate(),
            direction: self.direction,
            stopped: self.stopped,
            codecs,
        }
    }
}

/// A stopped transceiver can neither send nor receive, whatever its
/// direction was set to afterwards.
pub proof fn stopped_is_silent_law(t: RtpTransceiver)
    requires
        t.spec_stopped(),
    ensures
        !t.spec_can_send(),
        !t.spec_can_receive(),
{
}

} // verus!
