//! Session descriptions (SDP): the data model, its text form, and lookup
//! of media sections.
use vstd::prelude::*;
use std::collections::HashMap;
use crate::text::{copy_opt_string, copy_string, decimal, push_decimal, push_str};
use crate::wire::str_eq;

verus! {

#[derive(Debug)]
pub enum SdpParseError {
    InvalidLine(String),
    MissingField(String),
    InvalidAttribute(String),
    InvalidMedia(String),
    InvalidConnection(String),
    InvalidTiming(String),
    InvalidOrigin(String),
}

#[derive(Clone, Debug, Default)]
pub struct SdpOrigin {
    pub username: String,
    pub session_id: u64,
    pub session_version: u64,
    pub nettype: String,
    pub addrtype: String,
    pub unicast_address: String,
}

#[derive(Clone, Copy, Debug, Default, PartialEq, Eq, Structural)]
pub struct SdpTiming {
    pub start: u64,
    pub stop: u64,
}

#[derive(Clone, Debug, Default)]
pub struct SdpConnection {
    pub nettype: String,
    pub addrtype: String,
    pub connection_address: String,
}

#[derive(Clone, Copy, Debug, PartialEq, Eq, Structural)]
pub enum SdpDirection {
    SendRecv,
    SendOnly,
    RecvOnly,
    Inactive,
}

impl Default for SdpDirection {
    fn default() -> (d: Self)
        ensures
            d == SdpDirection::SendRecv,
    {
        SdpDirection::SendRecv
    }
}

/// The attribute text of a direction.
pub open spec fn direction_text(d: SdpDirection) -> Seq<char> {
    match d {
        SdpDirection::SendRecv => "sendrecv"@,
        SdpDirection::SendOnly => "sendonly"@,
        SdpDirection::RecvOnly => "recvonly"@,
        SdpDirection::Inactive => "inactive"@,
    }
}

impl SdpDirection {
    pub fn as_str(&self) -> (s: &'static str)
        ensures
            s@ == direction_text(*self),
    {
        match self {
            SdpDirection::SendRecv => "sendrecv",
            SdpDirection::SendOnly => "sendonly",
            SdpDirection::RecvOnly => "recvonly",
            SdpDirection::Inactive => "inactive",
        }
    }

    /// The direction whose attribute text is `s`, if any.
    pub fn from_str(s: &str) -> (r: Option<Self>)
        ensures
            r == direction_from_text(s@),
    {
        if str_eq(s, "sendrecv") {
            Some(SdpDirection::SendRecv)
        } else if str_eq(s, "sendonly") {
            Some(SdpDirection::SendOnly)
        } else if str_eq(s, "recvonly") {
            Some(SdpDirection::RecvOnly)
        } else if str_eq(s, "inactive") {
            Some(SdpDirection::Inactive)
        } else {
            None
        }
    }
}

/// The direction named by an attribute text.
pub open spec fn direction_from_text(t: Seq<char>) -> Option<SdpDirection> {
    if t == "sendrecv"@ {
        Some(SdpDirection::SendRecv)
    } else if t == "sendonly"@ {
        Some(SdpDirection::SendOnly)
    } else if t == "recvonly"@ {
        Some(SdpDirection::RecvOnly)
    } else if t == "inactive"@ {
        Some(SdpDirection::Inactive)
    } else {
        None
    }
}

/// Reading a direction's attribute text gives the direction back.
pub proof fn direction_text_roundtrip_law(d: SdpDirection)
    ensures
        direction_from_text(direction_text(d)) == Some(d),
{
    reveal_strlit("sendrecv");
    reveal_strlit("sendonly");
    reveal_strlit("recvonly");
    reveal_strlit("inactive");
    assert("sendonly"@[4] != "sendrecv"@[4]);
    assert("recvonly"@[0] != "sendrecv"@[0]);
    assert("recvonly"@[0] != "sendonly"@[0]);
    assert("inactive"@[0] != "sendrecv"@[0]);
    assert("inactive"@[0] != "sendonly"@[0]);
    assert("inactive"@[0] != "recvonly"@[0]);
}

#[derive(Clone, Debug, Default)]
pub struct SdpRtpMap {
    pub payload_type: u8,
    pub encoding_name: String,
    pub clock_rate: u32,
    pub encoding_params: Option<String>,
}

#[derive(Clone, Debug, Default)]
pub struct SdpFmtp {
    pub payload_type: u8,
    pub format: String,
}

#[derive(Clone, Debug, Default)]
pub struct SdpSsrc {
    pub ssrc: u32,
    pub cname: Option<String>,
    pub msid: Option<String>,
    pub mslabel: Option<String>,
    pub label: Option<String>,
}

pub open spec fn opt_text(o: Option<String>) -> Option<Seq<char>> {
    match o {
        Some(s) => Some(s@),
        None => None,
    }
}

pub open spec fn texts(v: Seq<String>) -> Seq<Seq<char>> {
    v.map_values(|s: String| s@)
}

pub struct OriginModel {
    pub username: Seq<char>,
    pub session_id: u64,
    pub session_version: u64,
    pub nettype: Seq<char>,
    pub addrtype: Seq<char>,
    pub unicast_address: Seq<char>,
}

pub struct ConnectionModel {
    pub nettype: Seq<char>,
    pub addrtype: Seq<char>,
    pub connection_address: Seq<char>,
}

pub struct RtpMapModel {
    pub payload_type: u8,
    pub encoding_name: Seq<char>,
    pub clock_rate: u32,
    pub encoding_params: Option<Seq<char>>,
}

pub struct FmtpModel {
    pub payload_type: u8,
    pub format: Seq<char>,
}

pub struct SsrcModel {
    pub ssrc: u32,
    pub cname: Option<Seq<char>>,
    pub msid: Option<Seq<char>>,
    pub mslabel: Option<Seq<char>>,
    pub label: Option<Seq<char>>,
}

impl View for SdpOrigin {
    type V = OriginModel;

    open spec fn view(&self) -> OriginModel {
        OriginModel {
            username: self.username@,
            session_id: self.session_id,
            session_version: self.session_version,
            nettype: self.nettype@,
            addrtype: self.addrtype@,
            unicast_address: self.unicast_address@,
        }
    }
}

impl View for SdpConnection {
    type V = ConnectionModel;

    open spec fn view(&self) -> ConnectionModel {
        ConnectionModel {
            nettype: self.nettype@,
            addrtype: self.addrtype@,
            connection_address: self.connection_address@,
        }
    }
}

impl View for SdpRtpMap {
    type V = RtpMapModel;

    open spec fn view(&self) -> RtpMapModel {
        RtpMapModel {
            payload_type: self.payload_type,
            encoding_name: self.encoding_name@,
            clock_rate: self.clock_rate,
            encoding_params: opt_text(self.encoding_params),
        }
    }
}

impl View for SdpFmtp {
    type V = FmtpModel;

    open spec fn view(&self) -> FmtpModel {
        FmtpModel { payload_type: self.payload_type, format: self.format@ }
    }
}

impl View for SdpSsrc {
    type V = SsrcModel;

    open spec fn view(&self) -> SsrcModel {
        SsrcModel {
            ssrc: self.ssrc,
            cname: opt_text(self.cname),
            msid: opt_text(self.msid),
            mslabel: opt_text(self.mslabel),
            label: opt_text(self.label),
        }
    }
}

pub open spec fn conn_view(o: Option<SdpConnection>) -> Option<ConnectionModel> {
    match o {
        Some(c) => Some(c@),
        None => None,
    }
}

#[derive(Clone, Debug, Default)]
pub struct SdpMedia {
    pub media_type: String,
    pub port: u16,
    pub port_count: Option<u16>,
    pub proto: String,
    pub formats: Vec<String>,
    pub mid: Option<String>,
    pub direction: SdpDirection,
    pub connection: Option<SdpConnection>,
    pub rtpmaps: HashMap<u8, SdpRtpMap>,
    pub fmtps: Vec<SdpFmtp>,
    pub ssrcs: Vec<SdpSsrc>,
    pub ice_ufrag: Option<String>,
    pub ice_pwd: Option<String>,
    pub candidates: Vec<String>,
    pub rtcp_mux: bool,
    pub bundle_only: bool,
}

pub struct MediaModel {
    pub media_type: Seq<char>,
    pub port: u16,
    pub port_count: Option<u16>,
    pub proto: Seq<char>,
    pub formats: Seq<Seq<char>>,
    pub mid: Option<Seq<char>>,
    pub direction: SdpDirection,
    pub connection: Option<ConnectionModel>,
    pub rtpmaps: Map<u8, RtpMapModel>,
    pub fmtps: Seq<FmtpModel>,
    pub ssrcs: Seq<SsrcModel>,
    pub ice_ufrag: Option<Seq<char>>,
    pub ice_pwd: Option<Seq<char>>,
    pub candidates: Seq<Seq<char>>,
    pub rtcp_mux: bool,
    pub bundle_only: bool,
}

impl View for SdpMedia {
    type V = MediaModel;

    open spec fn view(&self) -> MediaModel {
        MediaModel {
            media_type: self.media_type@,
            port: self.port,
            port_count: self.port_count,
            proto: self.proto@,
            formats: texts(self.formats@),
            mid: opt_text(self.mid),
            direction: self.direction,
            connection: conn_view(self.connection),
            rtpmaps: self.rtpmaps@.map_values(|r: SdpRtpMap| r@),
            fmtps: self.fmtps@.map_values(|f: SdpFmtp| f@),
            ssrcs: self.ssrcs@.map_values(|s: SdpSsrc| s@),
            ice_ufrag: opt_text(self.ice_ufrag),
            ice_pwd: opt_text(self.ice_pwd),
            candidates: texts(self.candidates@),
            rtcp_mux: self.rtcp_mux,
            bundle_only: self.bundle_only,
        }
    }
}

impl SdpMedia {
    pub fn is_audio(&self) -> (b: bool)
        ensures
            b == (self.media_type@ == "audio"@),
    {
        str_eq(self.media_type.as_str(), "audio")
    }

    pub fn is_video(&self) -> (b: bool)
        ensures
            b == (self.media_type@ == "video"@),
    {
        str_eq(self.media_type.as_str(), "video")
    }

    pub fn is_application(&self) -> (b: bool)
        ensures
            b == (self.media_type@ == "application"@),
    {
        str_eq(self.media_type.as_str(), "application")
    }
}

#[derive(Clone, Debug, Default)]
pub struct SdpSession {
    pub version: u32,
    pub origin: SdpOrigin,
    pub session_name: String,
    pub session_info: Option<String>,
    pub timing: SdpTiming,
    pub connection: Option<SdpConnection>,
    pub media: Vec<SdpMedia>,
    pub group: Option<String>,
    pub mids: Vec<String>,
    pub ice_ufrag: Option<String>,
    pub ice_pwd: Option<String>,
    pub fingerprint: Option<String>,
    pub setup: Option<String>,
}

pub struct SessionModel {
    pub version: u32,
    pub origin: OriginModel,
    pub session_name: Seq<char>,
    pub session_info: Option<Seq<char>>,
    pub timing: SdpTiming,
    pub connection: Option<ConnectionModel>,
    pub media: Seq<MediaModel>,
    pub group: Option<Seq<char>>,
    pub mids: Seq<Seq<char>>,
    pub ice_ufrag: Option<Seq<char>>,
    pub ice_pwd: Option<Seq<char>>,
    pub fingerprint: Option<Seq<char>>,
    pub setup: Option<Seq<char>>,
}

pub open spec fn medias_view(v: Seq<SdpMedia>) -> Seq<MediaModel> {
    v.map_values(|m: SdpMedia| m@)
}

impl View for SdpSession {
    type V = SessionModel;

    open spec fn view(&self) -> SessionModel {
        SessionModel {
            version: self.version,
            origin: self.origin@,
            session_name: self.session_name@,
            session_info: opt_text(self.session_info),
            timing: self.timing,
            connection: conn_view(self.connection),
            media: medias_view(self.media@),
            group: opt_text(self.group),
            mids: texts(self.mids@),
            ice_ufrag: opt_text(self.ice_ufrag),
            ice_pwd: opt_text(self.ice_pwd),
            fingerprint: opt_text(self.fingerprint),
            setup: opt_text(self.setup),
        }
    }
}

/// `parts` joined with `sep` between them.
pub open spec fn join(parts: Seq<Seq<char>>, sep: Seq<char>) -> Seq<char>
    decreases parts.len(),
{
    if parts.len() == 0 {
        Seq::empty()
    } else if parts.len() == 1 {
        parts[0]
    } else {
        join(parts.drop_last(), sep) + sep + parts.last()
    }
}

pub open spec fn crlf() -> Seq<char> {
    "\r\n"@
}

pub open spec fn opt_line(prefix: Seq<char>, o: Option<Seq<char>>) -> Seq<char> {
    match o {
        Some(v) => prefix + v + crlf(),
        None => Seq::empty(),
    }
}

pub open spec fn conn_line(o: Option<ConnectionModel>) -> Seq<char> {
    match o {
        Some(c) => "c="@ + c.nettype + " "@ + c.addrtype + " "@ + c.connection_address + crlf(),
        None => Seq::empty(),
    }
}

/// The rtpmap attribute line for payload type `pt`.
pub open spec fn rtpmap_line(pt: u8, m: RtpMapModel) -> Seq<char> {
    "a=rtpmap:"@ + decimal(pt as nat) + " "@ + m.encoding_name + "/"@ + decimal(m.clock_rate as nat)
        + match m.encoding_params {
        Some(p) => "/"@ + p,
        None => Seq::empty(),
    } + crlf()
}

pub open spec fn rtpmap_lines(s: Seq<(u8, RtpMapModel)>) -> Seq<char>
    decreases s.len(),
{
    if s.len() == 0 {
        Seq::empty()
    } else {
        rtpmap_lines(s.drop_last()) + rtpmap_line(s.last().0, s.last().1)
    }
}

/// The entries of `m` whose payload type is below `n`, in ascending order
/// of payload type.
pub open spec fn rtpmaps_below(m: Map<u8, RtpMapModel>, n: nat) -> Seq<(u8, RtpMapModel)>
    decreases n,
{
    if n == 0 {
        Seq::empty()
    } else {
        let prev = rtpmaps_below(m, (n - 1) as nat);
        let k = (n - 1) as u8;
        if m.contains_key(k) {
            prev.push((k, m[k]))
        } else {
            prev
        }
    }
}

/// All the entries of `m`, in ascending order of payload type.
pub open spec fn rtpmap_entries(m: Map<u8, RtpMapModel>) -> Seq<(u8, RtpMapModel)> {
    rtpmaps_below(m, 256)
}

pub open spec fn fmtp_lines(s: Seq<FmtpModel>) -> Seq<char>
    decreases s.len(),
{
    if s.len() == 0 {
        Seq::empty()
    } else {
        fmtp_lines(s.drop_last()) + "a=fmtp:"@ + decimal(s.last().payload_type as nat) + " "@ + s.last().format
            + crlf()
    }
}

pub open spec fn ssrc_lines(s: Seq<SsrcModel>) -> Seq<char>
    decreases s.len(),
{
    if s.len() == 0 {
        Seq::empty()
    } else {
        ssrc_lines(s.drop_last()) + "a=ssrc:"@ + decimal(s.last().ssrc as nat) + match s.last().cname {
            Some(c) => " cname:"@ + c,
            None => Seq::empty(),
        } + crlf()
    }
}

pub open spec fn candidate_lines(s: Seq<Seq<char>>) -> Seq<char>
    decreases s.len(),
{
    if s.len() == 0 {
        Seq::empty()
    } else {
        candidate_lines(s.drop_last()) + "a=candidate:"@ + s.last() + crlf()
    }
}

/// The port field of a media line: the port, with `/count` when there is a
/// count.
pub open spec fn port_text(m: MediaModel) -> Seq<char> {
    match m.port_count {
        Some(c) => decimal(m.port as nat) + "/"@ + decimal(c as nat),
        None => decimal(m.port as nat),
    }
}

/// The first lines of a media section: the media line, its connection,
/// mid and direction.
pub open spec fn media_head(m: MediaModel) -> Seq<char> {
    "m="@ + m.media_type + " "@ + port_text(m) + " "@ + m.proto + " "@ + join(m.formats, " "@) + crlf()
        + conn_line(m.connection) + opt_line("a=mid:"@, m.mid) + "a="@ + direction_text(m.direction) + crlf()
}

/// The last lines of a media section: ICE credentials, candidates and
/// RTCP multiplexing.
pub open spec fn media_tail(m: MediaModel) -> Seq<char> {
    opt_line("a=ice-ufrag:"@, m.ice_ufrag) + opt_line("a=ice-pwd:"@, m.ice_pwd) + candidate_lines(m.candidates)
        + if m.rtcp_mux {
        "a=rtcp-mux\r\n"@
    } else {
        Seq::empty()
    }
}

/// The text of one media section.
pub open spec fn media_text(m: MediaModel) -> Seq<char> {
    media_head(m) + rtpmap_lines(rtpmap_entries(m.rtpmaps)) + fmtp_lines(m.fmtps) + ssrc_lines(m.ssrcs) + media_tail(m)
}

pub open spec fn medias_text(s: Seq<MediaModel>) -> Seq<char>
    decreases s.len(),
{
    if s.len() == 0 {
        Seq::empty()
    } else {
        medias_text(s.drop_last()) + media_text(s.last())
    }
}

/// The version, origin, name and timing lines.
pub open spec fn session_lines(s: SessionModel) -> Seq<char> {
    "v="@ + decimal(s.version as nat) + crlf() + "o="@ + s.origin.username + " "@ + decimal(
        s.origin.session_id as nat,
    ) + " "@ + decimal(s.origin.session_version as nat) + " "@ + s.origin.nettype + " "@ + s.origin.addrtype
        + " "@ + s.origin.unicast_address + crlf() + "s="@ + s.session_name + crlf() + "t="@ + decimal(
        s.timing.start as nat,
    ) + " "@ + decimal(s.timing.stop as nat) + crlf()
}

/// The session connection and attribute lines.
pub open spec fn session_attrs(s: SessionModel) -> Seq<char> {
    conn_line(s.connection) + match s.group {
        Some(g) => "a=group:"@ + g + " "@ + join(s.mids, " "@) + crlf(),
        None => Seq::empty(),
    } + opt_line("a=ice-ufrag:"@, s.ice_ufrag) + opt_line("a=ice-pwd:"@, s.ice_pwd) + opt_line(
        "a=fingerprint:"@,
        s.fingerprint,
    ) + opt_line("a=setup:"@, s.setup)
}

/// The session-level lines: version, origin, name, timing, connection
/// and the session attributes.
pub open spec fn session_head(s: SessionModel) -> Seq<char> {
    session_lines(s) + session_attrs(s)
}

/// The text of a session: the session-level lines, then each media
/// section.
pub open spec fn session_text(s: SessionModel) -> Seq<char> {
    session_head(s) + medias_text(s.media)
}

pub(crate) fn push_join(out: &mut String, parts: &Vec<String>, sep: &str)
    ensures
        final(out)@ == old(out)@ + join(texts(parts@), sep@),
{
    let ghost start = out@;
    let mut i: usize = 0;
    while i < parts.len()
        invariant
            i <= parts@.len(),
            out@ == start + join(texts(parts@.take(i as int)), sep@),
        decreases parts@.len() - i,
    {
        let ghost before = out@;
        if i > 0 {
            push_str(out, sep);
        }
        push_str(out, parts[i].as_str());
        proof {
            let t = texts(parts@.take(i + 1));
            assert(texts(parts@.take(i as int)) =~= t.drop_last());
            assert(t.last() == parts@[i as int]@);
            if i == 0 {
                assert(t.len() == 1);
            }
            assert(out@ =~= start + join(t, sep@));
        }
        i = i + 1;
    }
    assert(parts@.take(parts@.len() as int) =~= parts@);
}

fn push_opt_line(out: &mut String, prefix: &str, o: &Option<String>)
    ensures
        final(out)@ == old(out)@ + opt_line(prefix@, opt_text(*o)),
{
    match o {
        Some(v) => {
            push_str(out, prefix);
            push_str(out, v.as_str());
            push_str(out, "\r\n");
            assert(out@ =~= old(out)@ + opt_line(prefix@, opt_text(*o)));
        },
        None => {
            assert(out@ =~= old(out)@ + opt_line(prefix@, opt_text(*o)));
        },
    }
}

fn push_conn_line(out: &mut String, o: &Option<SdpConnection>)
    ensures
        final(out)@ == old(out)@ + conn_line(conn_view(*o)),
{
    match o {
        Some(c) => {
            push_str(out, "c=");
            push_str(out, c.nettype.as_str());
            push_str(out, " ");
            push_str(out, c.addrtype.as_str());
            push_str(out, " ");
            push_str(out, c.connection_address.as_str());
            push_str(out, "\r\n");
            assert(out@ =~= old(out)@ + conn_line(conn_view(*o)));
        },
        None => {
            assert(out@ =~= old(out)@ + conn_line(conn_view(*o)));
        },
    }
}

#[verifier::rlimit(60)]
fn push_media_head(out: &mut String, m: &SdpMedia)
    ensures
        final(out)@ == old(out)@ + media_head(m@),
{
    let ghost mv = m@;
    push_str(out, "m=");
    push_str(out, m.media_type.as_str());
    push_str(out, " ");
    let ghost p0 = out@;
    push_decimal(out, m.port as u64);
    match m.port_count {
        Some(c) => {
            push_str(out, "/");
            push_decimal(out, c as u64);
        },
        None => {},
    }
    assert(out@ =~= p0 + port_text(mv));
    let ghost p1 = out@;
    push_str(out, " ");
    push_str(out, m.proto.as_str());
    push_str(out, " ");
    push_join(out, &m.formats, " ");
    push_str(out, "\r\n");
    let ghost p2 = out@;
    push_conn_line(out, &m.connection);
    push_opt_line(out, "a=mid:", &m.mid);
    push_str(out, "a=");
    push_str(out, m.direction.as_str());
    push_str(out, "\r\n");
    assert(p2 =~= p1 + " "@ + mv.proto + " "@ + join(mv.formats, " "@) + crlf());
    assert(out@ =~= p2 + conn_line(mv.connection) + opt_line("a=mid:"@, mv.mid) + "a="@ + direction_text(
        mv.direction,
    ) + crlf());
    assert(out@ =~= old(out)@ + media_head(mv));
}

/// The rtpmap lines of `t`, by ascending payload type.
fn push_rtpmaps(out: &mut String, t: &HashMap<u8, SdpRtpMap>)
    ensures
        final(out)@ == old(out)@ + rtpmap_lines(rtpmap_entries(t@.map_values(|r: SdpRtpMap| r@))),
{
    broadcast use vstd::std_specs::hash::group_hash_axioms;

    let ghost mv = t@.map_values(|r: SdpRtpMap| r@);
    let ghost head = out@;
    let mut pt: u16 = 0;
    while pt < 256
        invariant
            pt <= 256,
            mv == t@.map_values(|r: SdpRtpMap| r@),
            out@ == head + rtpmap_lines(rtpmaps_below(mv, pt as nat)),
        decreases 256 - pt,
    {
        let k = pt as u8;
        let ghost before = out@;
        match t.get(&k) {
            Some(r) => {
                push_str(out, "a=rtpmap:");
                push_decimal(out, k as u64);
                push_str(out, " ");
                push_str(out, r.encoding_name.as_str());
                push_str(out, "/");
                push_decimal(out, r.clock_rate as u64);
                match &r.encoding_params {
                    Some(p) => {
                        push_str(out, "/");
                        push_str(out, p.as_str());
                    },
                    None => {},
                }
                push_str(out, "\r\n");
                proof {
                    assert(mv.contains_key(k));
                    assert(mv[k] == r@);
                    assert(out@ =~= before + rtpmap_line(k, r@));
                    assert(rtpmaps_below(mv, (pt + 1) as nat) == rtpmaps_below(mv, pt as nat).push((k, mv[k])));
                    assert(rtpmaps_below(mv, (pt + 1) as nat).drop_last() =~= rtpmaps_below(mv, pt as nat));
                }
            },
            None => {
                proof {
                    assert(!mv.contains_key(k));
                }
            },
        }
        pt = pt + 1;
    }
}

fn push_fmtps(out: &mut String, v: &Vec<SdpFmtp>)
    ensures
        final(out)@ == old(out)@ + fmtp_lines(v@.map_values(|f: SdpFmtp| f@)),
{
    let ghost fs = v@.map_values(|f: SdpFmtp| f@);
    let ghost head = out@;
    let mut j: usize = 0;
    while j < v.len()
        invariant
            j <= fs.len(),
            fs == v@.map_values(|f: SdpFmtp| f@),
            out@ == head + fmtp_lines(fs.take(j as int)),
        decreases fs.len() - j,
    {
        let f = &v[j];
        push_str(out, "a=fmtp:");
        push_decimal(out, f.payload_type as u64);
        push_str(out, " ");
        push_str(out, f.format.as_str());
        push_str(out, "\r\n");
        proof {
            assert(fs.take(j + 1).drop_last() =~= fs.take(j as int));
            assert(fs.take(j + 1).last() == f@);
            assert(out@ =~= head + fmtp_lines(fs.take(j + 1)));
        }
        j = j + 1;
    }
    assert(fs.take(fs.len() as int) =~= fs);
}

fn push_ssrcs(out: &mut String, v: &Vec<SdpSsrc>)
    ensures
        final(out)@ == old(out)@ + ssrc_lines(v@.map_values(|s: SdpSsrc| s@)),
{
    let ghost ss = v@.map_values(|s: SdpSsrc| s@);
    let ghost head = out@;
    let mut k: usize = 0;
    while k < v.len()
        invariant
            k <= ss.len(),
            ss == v@.map_values(|s: SdpSsrc| s@),
            out@ == head + ssrc_lines(ss.take(k as int)),
        decreases ss.len() - k,
    {
        let s = &v[k];
        push_str(out, "a=ssrc:");
        push_decimal(out, s.ssrc as u64);
        match &s.cname {
            Some(c) => {
                push_str(out, " cname:");
                push_str(out, c.as_str());
            },
            None => {},
        }
        push_str(out, "\r\n");
        proof {
            assert(ss.take(k + 1).drop_last() =~= ss.take(k as int));
            assert(ss.take(k + 1).last() == s@);
            assert(out@ =~= head + ssrc_lines(ss.take(k + 1)));
        }
        k = k + 1;
    }
    assert(ss.take(ss.len() as int) =~= ss);
}

fn push_media_tail(out: &mut String, m: &SdpMedia)
    ensures
        final(out)@ == old(out)@ + media_tail(m@),
{
    let ghost mv = m@;
    push_opt_line(out, "a=ice-ufrag:", &m.ice_ufrag);
    push_opt_line(out, "a=ice-pwd:", &m.ice_pwd);
    let ghost h4 = out@;
    let mut c: usize = 0;
    while c < m.candidates.len()
        invariant
            c <= mv.candidates.len(),
            mv == m@,
            out@ == h4 + candidate_lines(mv.candidates.take(c as int)),
        decreases mv.candidates.len() - c,
    {
        push_str(out, "a=candidate:");
        push_str(out, m.candidates[c].as_str());
        push_str(out, "\r\n");
        proof {
            assert(mv.candidates.take(c + 1).drop_last() =~= mv.candidates.take(c as int));
            assert(mv.candidates.take(c + 1).last() == m.candidates@[c as int]@);
            assert(out@ =~= h4 + candidate_lines(mv.candidates.take(c + 1)));
        }
        c = c + 1;
    }
    assert(mv.candidates.take(mv.candidates.len() as int) =~= mv.candidates);
    let ghost h5 = out@;
    if m.rtcp_mux {
        push_str(out, "a=rtcp-mux\r\n");
    }
    assert(out@ =~= old(out)@ + media_tail(mv));
}

fn push_media(out: &mut String, m: &SdpMedia)
    ensures
        final(out)@ == old(out)@ + media_text(m@),
{
    push_media_head(out, m);
    push_rtpmaps(out, &m.rtpmaps);
    push_fmtps(out, &m.fmtps);
    push_ssrcs(out, &m.ssrcs);
    push_media_tail(out, m);
    assert(out@ =~= old(out)@ + media_text(m@));
}

#[verifier::rlimit(60)]
fn push_session_lines(out: &mut String, sess: &SdpSession)
    ensures
        final(out)@ == old(out)@ + session_lines(sess@),
{
    let ghost v = sess@;
    push_str(out, "v=");
    push_decimal(out, sess.version as u64);
    push_str(out, "\r\n");
    push_str(out, "o=");
    push_str(out, sess.origin.username.as_str());
    push_str(out, " ");
    push_decimal(out, sess.origin.session_id);
    push_str(out, " ");
    push_decimal(out, sess.origin.session_version);
    push_str(out, " ");
    push_str(out, sess.origin.nettype.as_str());
    push_str(out, " ");
    push_str(out, sess.origin.addrtype.as_str());
    push_str(out, " ");
    push_str(out, sess.origin.unicast_address.as_str());
    push_str(out, "\r\n");
    let ghost a1 = out@;
    push_str(out, "s=");
    push_str(out, sess.session_name.as_str());
    push_str(out, "\r\n");
    push_str(out, "t=");
    push_decimal(out, sess.timing.start);
    push_str(out, " ");
    push_decimal(out, sess.timing.stop);
    push_str(out, "\r\n");
    assert(a1 =~= old(out)@ + "v="@ + decimal(v.version as nat) + crlf() + "o="@ + v.origin.username + " "@
        + decimal(v.origin.session_id as nat) + " "@ + decimal(v.origin.session_version as nat) + " "@
        + v.origin.nettype + " "@ + v.origin.addrtype + " "@ + v.origin.unicast_address + crlf());
    assert(out@ =~= a1 + "s="@ + v.session_name + crlf() + "t="@ + decimal(v.timing.start as nat) + " "@
        + decimal(v.timing.stop as nat) + crlf());
    assert(out@ =~= old(out)@ + session_lines(v));
}

#[verifier::rlimit(60)]
fn push_session_attrs(out: &mut String, sess: &SdpSession)
    ensures
        final(out)@ == old(out)@ + session_attrs(sess@),
{
    let ghost v = sess@;
    push_conn_line(out, &sess.connection);
    let ghost a2 = out@;
    match &sess.group {
        Some(g) => {
            push_str(out, "a=group:");
            push_str(out, g.as_str());
            push_str(out, " ");
            push_join(out, &sess.mids, " ");
            push_str(out, "\r\n");
        },
        None => {},
    }
    let ghost a3 = out@;
    assert(a3 =~= a2 + match v.group {
        Some(g) => "a=group:"@ + g + " "@ + join(v.mids, " "@) + crlf(),
        None => Seq::empty(),
    });
    push_opt_line(out, "a=ice-ufrag:", &sess.ice_ufrag);
    push_opt_line(out, "a=ice-pwd:", &sess.ice_pwd);
    push_opt_line(out, "a=fingerprint:", &sess.fingerprint);
    push_opt_line(out, "a=setup:", &sess.setup);
    assert(out@ =~= old(out)@ + session_attrs(v));
}

fn push_session_head(out: &mut String, sess: &SdpSession)
    ensures
        final(out)@ == old(out)@ + session_head(sess@),
{
    push_session_lines(out, sess);
    push_session_attrs(out, sess);
    assert(out@ =~= old(out)@ + session_head(sess@));
}

impl SdpSession {
    /// The text of the session, each line ended by CRLF; the rtpmaps of a
    /// media section come by ascending payload type.
    pub fn to_sdp(&self) -> (s: String)
        ensures
            s@ == session_text(self@),
    {
        let ghost v = self@;
        let mut s = String::new();
        let ghost empty = s@;
        push_session_head(&mut s, self);
        let ghost head = s@;
        let mut i: usize = 0;
        while i < self.media.len()
            invariant
                i <= v.media.len(),
                v == self@,
                s@ == head + medias_text(v.media.take(i as int)),
            decreases v.media.len() - i,
        {
            push_media(&mut s, &self.media[i]);
            proof {
                assert(v.media.take(i + 1).drop_last() =~= v.media.take(i as int));
                assert(v.media.take(i + 1).last() == self.media@[i as int]@);
                assert(s@ =~= head + medias_text(v.media.take(i + 1)));
            }
            i = i + 1;
        }
        assert(v.media.take(v.media.len() as int) =~= v.media);
        assert(empty =~= Seq::<char>::empty());
        assert(s@ =~= session_text(v));
        s
    }

    /// The first media section whose mid is `mid`.
    pub fn media_by_mid(&self, mid: &str) -> (r: Option<&SdpMedia>)
        ensures
            match r {
                Some(m) => exists|i: int|
                    0 <= i < self.media@.len() && self.media@[i] == *m && m.mid is Some && m.mid->0@ == mid@
                        && forall|j: int| 0 <= j < i ==> !(#[trigger] self@.media[j].mid == Some(mid@)),
                None => forall|j: int| 0 <= j < self.media@.len() ==> !(#[trigger] self@.media[j].mid == Some(mid@)),
            },
    {
        match self.mid_index(mid) {
            Some(i) => Some(&self.media[i]),
            None => None,
        }
    }

    /// Where the first media section whose mid is `mid` sits.
    pub fn mid_index(&self, mid: &str) -> (r: Option<usize>)
        ensures
            match r {
                Some(i) => i < self.media@.len() && self@.media[i as int].mid == Some(mid@) && forall|j: int|
                    0 <= j < i ==> !(#[trigger] self@.media[j].mid == Some(mid@)),
                None => forall|j: int| 0 <= j < self.media@.len() ==> !(#[trigger] self@.media[j].mid == Some(mid@)),
            },
    {
        let mut i: usize = 0;
        while i < self.media.len()
            invariant
                i <= self.media@.len(),
                forall|j: int| 0 <= j < i ==> !(#[trigger] self@.media[j].mid == Some(mid@)),
            decreases self.media@.len() - i,
        {
            assert(self@.media[i as int] == self.media@[i as int]@);
            match &self.media[i].mid {
                Some(m) => {
                    if str_eq(m.as_str(), mid) {
                        return Some(i);
                    }
                },
                None => {},
            }
            i = i + 1;
        }
        None
    }

    /// The first media section whose mid is `mid`, to change.
    pub fn media_by_mid_mut(&mut self, mid: &str) -> (r: Option<&mut SdpMedia>)
        ensures
            match r {
                Some(m) => exists|i: int|
                    0 <= i < old(self).media@.len() && old(self).media@[i] == *m && old(self)@.media[i].mid == Some(
                        mid@,
                    ) && (forall|j: int| 0 <= j < i ==> !(#[trigger] old(self)@.media[j].mid == Some(mid@))),
                None => forall|j: int|
                    0 <= j < old(self).media@.len() ==> !(#[trigger] old(self)@.media[j].mid == Some(mid@)),
            },
    {
        match self.mid_index(mid) {
            Some(i) => Some(&mut self.media[i]),
            None => None,
        }
    }
}

} // verus!
