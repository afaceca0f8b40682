//! Reading session descriptions, line by line.
use vstd::prelude::*;
use crate::pc::sdp::{
    join, opt_text, texts, ConnectionModel, FmtpModel, MediaModel, OriginModel, RtpMapModel, SdpConnection,
    SdpDirection, SdpFmtp, SdpMedia, SdpOrigin, SdpParseError, SdpRtpMap, SdpSession, SdpSsrc, SdpTiming, SessionModel,
    SsrcModel, conn_view, medias_view,
};
use std::collections::HashMap;
use crate::scan::{
    chars_of, find_char, find_in, has_char, lemma_find_char, parse_uint, parse_uint_in, range_has, range_is,
    ranges_text, split_in, split_on, substring, trim, trim_range, words, words_in,
};

verus! {

/// A parsed unsigned value, or a default when the text is not one.
pub open spec fn parse_or(s: Seq<char>, max: nat, dflt: nat) -> nat {
    match parse_uint(s, max) {
        Some(v) => v,
        None => dflt,
    }
}

/// Whether a trimmed line can be split after its type character and `=`
/// at byte 2: a line of two or more characters holding `=` starts with
/// two one-byte characters, or with one two-byte character.
pub open spec fn line_splits(l: Seq<char>) -> bool {
    (has_char(l, '=') && l.len() >= 2) ==> if (l[0] as u32) < 0x80 {
        (l[1] as u32) < 0x80
    } else {
        (l[0] as u32) < 0x800
    }
}

/// Whether every line of a description can be split as `line_splits`
/// asks.
pub open spec fn sdp_text_splits(text: Seq<char>) -> bool {
    forall|i: int| 0 <= i < split_on(text, '\n').len() ==> line_splits(trim(#[trigger] split_on(text, '\n')[i]))
}

/// The state of reading: the session so far, the media section being read,
/// and the SSRC being gathered.
pub struct ParseModel {
    pub session: SessionModel,
    pub media: Option<MediaModel>,
    pub ssrc: Option<SsrcModel>,
}

pub enum SdpErrModel {
    InvalidConnection(Seq<char>),
    InvalidMedia(Seq<char>),
}

pub open spec fn empty_session() -> SessionModel {
    SessionModel {
        version: 0,
        origin: OriginModel {
            username: Seq::empty(),
            session_id: 0,
            session_version: 0,
            nettype: Seq::empty(),
            addrtype: Seq::empty(),
            unicast_address: Seq::empty(),
        },
        session_name: Seq::empty(),
        session_info: None,
        timing: SdpTiming { start: 0, stop: 0 },
        connection: None,
        media: Seq::empty(),
        group: None,
        mids: Seq::empty(),
        ice_ufrag: None,
        ice_pwd: None,
        fingerprint: None,
        setup: None,
    }
}

/// A connection line's value: network type, address type, address.
pub open spec fn conn_model(value: Seq<char>) -> Option<ConnectionModel> {
    let p = words(value);
    if p.len() < 3 {
        None
    } else {
        Some(ConnectionModel { nettype: p[0], addrtype: p[1], connection_address: p[2] })
    }
}

/// A media line's value: type, port (with `/count` when it holds a slash,
/// the count defaulting to one), protocol, formats.
pub open spec fn media_model(value: Seq<char>) -> Option<MediaModel> {
    let p = words(value);
    if p.len() < 4 {
        None
    } else {
        let pp = split_on(p[1], '/');
        let port = if has_char(p[1], '/') { parse_or(pp[0], 0xFFFF, 0) } else { parse_or(p[1], 0xFFFF, 0) };
        let count: Option<u16> = if has_char(p[1], '/') {
            Some((if pp.len() > 1 { parse_or(pp[1], 0xFFFF, 1) } else { 1 }) as u16)
        } else {
            None
        };
        Some(
            MediaModel {
                media_type: p[0],
                port: port as u16,
                port_count: count,
                proto: p[2],
                formats: p.skip(3),
                mid: None,
                direction: SdpDirection::SendRecv,
                connection: None,
                rtpmaps: Map::empty(),
                fmtps: Seq::empty(),
                ssrcs: Seq::empty(),
                ice_ufrag: None,
                ice_pwd: None,
                candidates: Seq::empty(),
                rtcp_mux: false,
                bundle_only: false,
            },
        )
    }
}

/// An rtpmap value: payload type, then `name/clock/params` (the clock
/// defaulting to 90000).
pub open spec fn rtpmap_model(v: Seq<char>) -> Option<RtpMapModel> {
    let p = words(v);
    if p.len() == 0 {
        None
    } else {
        match parse_uint(p[0], 0xFF) {
            None => None,
            Some(pt) => if p.len() < 2 {
                None
            } else {
                let e = split_on(p[1], '/');
                Some(
                    RtpMapModel {
                        payload_type: pt as u8,
                        encoding_name: e[0],
                        clock_rate: (if e.len() > 1 { parse_or(e[1], 0xFFFF_FFFF, 90000) } else { 90000 }) as u32,
                        encoding_params: if e.len() > 2 { Some(e[2]) } else { None },
                    },
                )
            },
        }
    }
}

/// An fmtp value: payload type, a space, the format.
pub open spec fn fmtp_model(v: Seq<char>) -> Option<FmtpModel> {
    let k = find_char(v, ' ', 0);
    if k >= v.len() {
        None
    } else {
        match parse_uint(v.subrange(0, k), 0xFF) {
            None => None,
            Some(pt) => Some(FmtpModel { payload_type: pt as u8, format: v.subrange(k + 1, v.len() as int) }),
        }
    }
}

/// An SSRC attribute `key:value` applied to an SSRC.
pub open spec fn ssrc_attr(base: SsrcModel, ap: Seq<Seq<char>>) -> SsrcModel {
    if ap.len() >= 2 {
        if ap[0] == "cname"@ {
            SsrcModel { cname: Some(ap[1]), ..base }
        } else if ap[0] == "msid"@ {
            SsrcModel { msid: Some(ap[1]), ..base }
        } else if ap[0] == "mslabel"@ {
            SsrcModel { mslabel: Some(ap[1]), ..base }
        } else if ap[0] == "label"@ {
            SsrcModel { label: Some(ap[1]), ..base }
        } else {
            base
        }
    } else {
        base
    }
}

pub open spec fn with_media(st: ParseModel, m: MediaModel) -> ParseModel {
    ParseModel { media: Some(m), ..st }
}

/// An attribute line inside a media section.
pub open spec fn media_attr_step(st: ParseModel, name: Seq<char>, val: Option<Seq<char>>) -> ParseModel {
    let m = st.media->0;
    if name == "mid"@ {
        ParseModel {
            session: match val {
                Some(v) => SessionModel { mids: st.session.mids.push(v), ..st.session },
                None => st.session,
            },
            media: Some(MediaModel { mid: val, ..m }),
            ssrc: st.ssrc,
        }
    } else if name == "sendrecv"@ {
        with_media(st, MediaModel { direction: SdpDirection::SendRecv, ..m })
    } else if name == "sendonly"@ {
        with_media(st, MediaModel { direction: SdpDirection::SendOnly, ..m })
    } else if name == "recvonly"@ {
        with_media(st, MediaModel { direction: SdpDirection::RecvOnly, ..m })
    } else if name == "inactive"@ {
        with_media(st, MediaModel { direction: SdpDirection::Inactive, ..m })
    } else if name == "rtpmap"@ {
        match val {
            Some(v) => match rtpmap_model(v) {
                Some(r) => with_media(st, MediaModel { rtpmaps: m.rtpmaps.insert(r.payload_type, r), ..m }),
                None => st,
            },
            None => st,
        }
    } else if name == "fmtp"@ {
        match val {
            Some(v) => match fmtp_model(v) {
                Some(f) => with_media(st, MediaModel { fmtps: m.fmtps.push(f), ..m }),
                None => st,
            },
            None => st,
        }
    } else if name == "ssrc"@ {
        match val {
            Some(v) => {
                let p = words(v);
                if p.len() == 0 {
                    st
                } else {
                    let m2 = match st.ssrc {
                        Some(s) => MediaModel { ssrcs: m.ssrcs.push(s), ..m },
                        None => m,
                    };
                    let base = SsrcModel {
                        ssrc: parse_or(p[0], 0xFFFF_FFFF, 0) as u32,
                        cname: None,
                        msid: None,
                        mslabel: None,
                        label: None,
                    };
                    let s2 = if p.len() > 1 { ssrc_attr(base, split_on(p[1], ':')) } else { base };
                    ParseModel { session: st.session, media: Some(m2), ssrc: Some(s2) }
                }
            },
            None => st,
        }
    } else if name == "ice-ufrag"@ {
        with_media(st, MediaModel { ice_ufrag: val, ..m })
    } else if name == "ice-pwd"@ {
        with_media(st, MediaModel { ice_pwd: val, ..m })
    } else if name == "candidate"@ {
        match val {
            Some(v) => with_media(st, MediaModel { candidates: m.candidates.push(v), ..m }),
            None => st,
        }
    } else if name == "rtcp-mux"@ {
        with_media(st, MediaModel { rtcp_mux: true, ..m })
    } else if name == "bundle-only"@ {
        with_media(st, MediaModel { bundle_only: true, ..m })
    } else {
        st
    }
}

/// An attribute line before any media section.
pub open spec fn session_attr_step(st: ParseModel, name: Seq<char>, val: Option<Seq<char>>) -> ParseModel {
    let s = st.session;
    let s2 = if name == "group"@ {
        match val {
            Some(v) => {
                let p = words(v);
                if p.len() > 0 {
                    SessionModel { group: Some(p[0]), mids: p.skip(1), ..s }
                } else {
                    s
                }
            },
            None => s,
        }
    } else if name == "ice-ufrag"@ {
        SessionModel { ice_ufrag: val, ..s }
    } else if name == "ice-pwd"@ {
        SessionModel { ice_pwd: val, ..s }
    } else if name == "fingerprint"@ {
        SessionModel { fingerprint: val, ..s }
    } else if name == "setup"@ {
        SessionModel { setup: val, ..s }
    } else {
        s
    };
    ParseModel { session: s2, ..st }
}

/// The name of an attribute value: what comes before the first `:`.
pub open spec fn attr_name(value: Seq<char>) -> Seq<char> {
    value.subrange(0, find_char(value, ':', 0))
}

/// The value of an attribute: what follows the first `:`, if there is one.
pub open spec fn attr_val(value: Seq<char>) -> Option<Seq<char>> {
    let k = find_char(value, ':', 0);
    if k < value.len() {
        Some(value.subrange(k + 1, value.len() as int))
    } else {
        None
    }
}

/// One trimmed line `type=value` applied to the state. Lines without `=`
/// or shorter than two characters are skipped; unknown types are ignored;
/// a bad connection or media line is an error.
pub open spec fn line_step(st: ParseModel, l: Seq<char>) -> Result<ParseModel, SdpErrModel> {
    if l.len() < 2 || !has_char(l, '=') {
        Ok(st)
    } else {
        let t = l[0];
        let value = l.subrange(2, l.len() as int);
        let s = st.session;
        if t == 'v' {
            Ok(ParseModel { session: SessionModel { version: parse_or(value, 0xFFFF_FFFF, 0) as u32, ..s }, ..st })
        } else if t == 'o' {
            let p = words(value);
            if p.len() >= 6 {
                Ok(
                    ParseModel {
                        session: SessionModel {
                            origin: OriginModel {
                                username: p[0],
                                session_id: parse_or(p[1], 0xFFFF_FFFF_FFFF_FFFF, 0) as u64,
                                session_version: parse_or(p[2], 0xFFFF_FFFF_FFFF_FFFF, 0) as u64,
                                nettype: p[3],
                                addrtype: p[4],
                                unicast_address: p[5],
                            },
                            ..s
                        },
                        ..st
                    },
                )
            } else {
                Ok(st)
            }
        } else if t == 's' {
            Ok(ParseModel { session: SessionModel { session_name: value, ..s }, ..st })
        } else if t == 'i' {
            if st.media is None {
                Ok(ParseModel { session: SessionModel { session_info: Some(value), ..s }, ..st })
            } else {
                Ok(st)
            }
        } else if t == 't' {
            let p = words(value);
            if p.len() >= 2 {
                Ok(
                    ParseModel {
                        session: SessionModel {
                            timing: SdpTiming {
                                start: parse_or(p[0], 0xFFFF_FFFF_FFFF_FFFF, 0) as u64,
                                stop: parse_or(p[1], 0xFFFF_FFFF_FFFF_FFFF, 0) as u64,
                            },
                            ..s
                        },
                        ..st
                    },
                )
            } else {
                Ok(st)
            }
        } else if t == 'c' {
            match conn_model(value) {
                None => Err(SdpErrModel::InvalidConnection(value)),
                Some(c) => match st.media {
                    Some(m) => Ok(with_media(st, MediaModel { connection: Some(c), ..m })),
                    None => Ok(ParseModel { session: SessionModel { connection: Some(c), ..s }, ..st }),
                },
            }
        } else if t == 'm' {
            match media_model(value) {
                None => Err(SdpErrModel::InvalidMedia(value)),
                Some(m) => Ok(
                    ParseModel {
                        session: match st.media {
                            Some(old_m) => SessionModel { media: s.media.push(old_m), ..s },
                            None => s,
                        },
                        media: Some(m),
                        ssrc: st.ssrc,
                    },
                ),
            }
        } else if t == 'a' {
            if st.media is Some {
                Ok(media_attr_step(st, attr_name(value), attr_val(value)))
            } else {
                Ok(session_attr_step(st, attr_name(value), attr_val(value)))
            }
        } else {
            Ok(st)
        }
    }
}

/// The lines applied in order; the first error stops the reading.
pub open spec fn parse_lines(lines: Seq<Seq<char>>, st: ParseModel) -> Result<ParseModel, SdpErrModel>
    decreases lines.len(),
{
    if lines.len() == 0 {
        Ok(st)
    } else {
        match line_step(st, trim(lines[0])) {
            Ok(st2) => parse_lines(lines.drop_first(), st2),
            Err(e) => Err(e),
        }
    }
}

/// The end of reading: the pending SSRC joins the last media section, which
/// joins the session.
pub open spec fn finish(st: ParseModel) -> SessionModel {
    match st.media {
        Some(m) => {
            let m2 = match st.ssrc {
                Some(s) => MediaModel { ssrcs: m.ssrcs.push(s), ..m },
                None => m,
            };
            SessionModel { media: st.session.media.push(m2), ..st.session }
        },
        None => st.session,
    }
}

/// What reading a description gives: the session, or the first error.
pub open spec fn parse_model(text: Seq<char>) -> Result<SessionModel, SdpErrModel> {
    match parse_lines(split_on(text, '\n'), ParseModel { session: empty_session(), media: None, ssrc: None }) {
        Ok(st) => Ok(finish(st)),
        Err(e) => Err(e),
    }
}

pub open spec fn opt_media(m: Option<SdpMedia>) -> Option<MediaModel> {
    match m {
        Some(x) => Some(x@),
        None => None,
    }
}

pub open spec fn opt_ssrc(s: Option<SdpSsrc>) -> Option<SsrcModel> {
    match s {
        Some(x) => Some(x@),
        None => None,
    }
}

pub open spec fn state_of(session: SdpSession, media: Option<SdpMedia>, ssrc: Option<SdpSsrc>) -> ParseModel {
    ParseModel { session: session@, media: opt_media(media), ssrc: opt_ssrc(ssrc) }
}

pub open spec fn err_model(e: SdpParseError) -> Option<SdpErrModel> {
    match e {
        SdpParseError::InvalidConnection(s) => Some(SdpErrModel::InvalidConnection(s@)),
        SdpParseError::InvalidMedia(s) => Some(SdpErrModel::InvalidMedia(s@)),
        _ => None,
    }
}

/// Whether an optional range lies within `len`.
pub open spec fn opt_range_ok(val: Option<(usize, usize)>, len: nat) -> bool {
    match val {
        Some(r) => r.0 <= r.1 <= len,
        None => true,
    }
}

/// `cs[r]` as a fresh string.
pub(crate) fn text_of(text: &str, r: (usize, usize)) -> (s: String)
    requires
        r.0 <= r.1 <= text@.len(),
    ensures
        s@ == text@.subrange(r.0 as int, r.1 as int),
{
    substring(text, r.0, r.1)
}

/// The strings of a list of ranges.
pub(crate) fn texts_of(text: &str, cs: &[char], r: &Vec<(usize, usize)>, from: usize) -> (v: Vec<String>)
    requires
        cs@ == text@,
        from <= r@.len(),
        forall|i: int| 0 <= i < r@.len() ==> (#[trigger] r@[i]).0 <= r@[i].1 <= cs@.len(),
    ensures
        texts(v@) == ranges_text(cs@, r@).skip(from as int),
{
    let mut v: Vec<String> = Vec::new();
    let mut i = from;
    while i < r.len()
        invariant
            from <= i <= r@.len(),
            cs@ == text@,
            forall|k: int| 0 <= k < r@.len() ==> (#[trigger] r@[k]).0 <= r@[k].1 <= cs@.len(),
            texts(v@) == ranges_text(cs@, r@).subrange(from as int, i as int),
        decreases r@.len() - i,
    {
        let p = r[i];
        let s = text_of(text, p);
        let ghost before = v@;
        let ghost sv = s@;
        v.push(s);
        assert(texts(v@) =~= texts(before).push(sv));
        assert(ranges_text(cs@, r@)[i as int] == sv);
        assert(texts(v@) =~= ranges_text(cs@, r@).subrange(from as int, i + 1));
        i = i + 1;
    }
    assert(ranges_text(cs@, r@).subrange(from as int, r@.len() as int) =~= ranges_text(cs@, r@).skip(from as int));
    v
}

pub(crate) fn parse_u64_or(cs: &[char], r: (usize, usize), max: u64, dflt: u64) -> (v: u64)
    requires
        r.0 <= r.1 <= cs@.len(),
        dflt <= max,
    ensures
        v == parse_or(cs@.subrange(r.0 as int, r.1 as int), max as nat, dflt as nat),
{
    match parse_uint_in(cs, r.0, r.1, max) {
        Some(v) => v,
        None => dflt,
    }
}

fn connection_from(text: &str, cs: &[char], a: usize, b: usize) -> (r: Option<SdpConnection>)
    requires
        cs@ == text@,
        a <= b <= cs@.len(),
    ensures
        match conn_model(cs@.subrange(a as int, b as int)) {
            None => r is None,
            Some(c) => r is Some && r->0@ == c,
        },
{
    let p = words_in(cs, a, b);
    if p.len() < 3 {
        return None;
    }
    assert(ranges_text(cs@, p@)[0] == cs@.subrange(p@[0].0 as int, p@[0].1 as int));
    assert(ranges_text(cs@, p@)[1] == cs@.subrange(p@[1].0 as int, p@[1].1 as int));
    assert(ranges_text(cs@, p@)[2] == cs@.subrange(p@[2].0 as int, p@[2].1 as int));
    Some(SdpConnection { nettype: text_of(text, p[0]), addrtype: text_of(text, p[1]), connection_address: text_of(text, p[2]) })
}

fn media_from(text: &str, cs: &[char], a: usize, b: usize) -> (r: Option<SdpMedia>)
    requires
        cs@ == text@,
        a <= b <= cs@.len(),
    ensures
        match media_model(cs@.subrange(a as int, b as int)) {
            None => r is None,
            Some(m) => r is Some && r->0@ == m,
        },
{
    let p = words_in(cs, a, b);
    if p.len() < 4 {
        return None;
    }
    let ghost w = ranges_text(cs@, p@);
    assert(w[0] == cs@.subrange(p@[0].0 as int, p@[0].1 as int));
    assert(w[1] == cs@.subrange(p@[1].0 as int, p@[1].1 as int));
    assert(w[2] == cs@.subrange(p@[2].0 as int, p@[2].1 as int));
    let p1 = p[1];
    let slash = range_has(cs, p1.0, p1.1, '/');
    let pp = split_in(cs, p1.0, p1.1, '/');
    let ghost wp = ranges_text(cs@, pp@);
    assert(wp[0] == cs@.subrange(pp@[0].0 as int, pp@[0].1 as int));
    let (port, port_count) = if slash {
        let port = parse_u64_or(cs, pp[0], 0xFFFF, 0);
        let count = if pp.len() > 1 {
            assert(wp[1] == cs@.subrange(pp@[1].0 as int, pp@[1].1 as int));
            parse_u64_or(cs, pp[1], 0xFFFF, 1)
        } else {
            1
        };
        (port as u16, Some(count as u16))
    } else {
        (parse_u64_or(cs, p1, 0xFFFF, 0) as u16, None)
    };
    let formats = texts_of(text, cs, &p, 3);
    let m = SdpMedia {
        media_type: text_of(text, p[0]),
        port,
        port_count,
        proto: text_of(text, p[2]),
        formats,
        mid: None,
        direction: SdpDirection::SendRecv,
        connection: None,
        rtpmaps: HashMap::new(),
        fmtps: Vec::new(),
        ssrcs: Vec::new(),
        ice_ufrag: None,
        ice_pwd: None,
        candidates: Vec::new(),
        rtcp_mux: false,
        bundle_only: false,
    };
    assert(m@.rtpmaps =~= Map::<u8, RtpMapModel>::empty()) by {
        broadcast use vstd::std_specs::hash::group_hash_axioms;

    }
    assert(m@.fmtps =~= Seq::<FmtpModel>::empty());
    assert(m@.ssrcs =~= Seq::<SsrcModel>::empty());
    assert(m@.candidates =~= Seq::<Seq<char>>::empty());
    Some(m)
}

fn rtpmap_from(text: &str, cs: &[char], a: usize, b: usize) -> (r: Option<SdpRtpMap>)
    requires
        cs@ == text@,
        a <= b <= cs@.len(),
    ensures
        match rtpmap_model(cs@.subrange(a as int, b as int)) {
            None => r is None,
            Some(m) => r is Some && r->0@ == m,
        },
{
    let p = words_in(cs, a, b);
    if p.len() == 0 {
        return None;
    }
    let ghost w = ranges_text(cs@, p@);
    assert(w[0] == cs@.subrange(p@[0].0 as int, p@[0].1 as int));
    let pt = match parse_uint_in(cs, p[0].0, p[0].1, 0xFF) {
        Some(v) => v,
        None => {
            return None;
        },
    };
    if p.len() < 2 {
        return None;
    }
    assert(w[1] == cs@.subrange(p@[1].0 as int, p@[1].1 as int));
    let e = split_in(cs, p[1].0, p[1].1, '/');
    let ghost we = ranges_text(cs@, e@);
    assert(we[0] == cs@.subrange(e@[0].0 as int, e@[0].1 as int));
    let clock = if e.len() > 1 {
        assert(we[1] == cs@.subrange(e@[1].0 as int, e@[1].1 as int));
        parse_u64_or(cs, e[1], 0xFFFF_FFFF, 90000)
    } else {
        90000
    };
    let params = if e.len() > 2 {
        assert(we[2] == cs@.subrange(e@[2].0 as int, e@[2].1 as int));
        Some(text_of(text, e[2]))
    } else {
        None
    };
    Some(SdpRtpMap { payload_type: pt as u8, encoding_name: text_of(text, e[0]), clock_rate: clock as u32, encoding_params: params })
}

fn fmtp_from(text: &str, cs: &[char], a: usize, b: usize) -> (r: Option<SdpFmtp>)
    requires
        cs@ == text@,
        a <= b <= cs@.len(),
    ensures
        match fmtp_model(cs@.subrange(a as int, b as int)) {
            None => r is None,
            Some(m) => r is Some && r->0@ == m,
        },
{
    let ghost v = cs@.subrange(a as int, b as int);
    let k = find_in(cs, a, b, ' ');
    if k == b {
        return None;
    }
    assert(v.subrange(0, k - a) =~= cs@.subrange(a as int, k as int));
    assert(v.subrange(k - a + 1, v.len() as int) =~= cs@.subrange(k + 1, b as int));
    let pt = match parse_uint_in(cs, a, k, 0xFF) {
        Some(x) => x,
        None => {
            return None;
        },
    };
    Some(SdpFmtp { payload_type: pt as u8, format: text_of(text, (k + 1, b)) })
}

/// Applies an attribute (name `cs[na..nb]`, value `cs[va..vb]` when
/// present) inside a media section.
#[verifier::rlimit(50)]
fn apply_media_attr(
    text: &str,
    cs: &[char],
    na: usize,
    nb: usize,
    val: Option<(usize, usize)>,
    session: &mut SdpSession,
    m: &mut SdpMedia,
    ssrc: &mut Option<SdpSsrc>,
)
    requires
        cs@ == text@,
        na <= nb <= cs@.len(),
        opt_range_ok(val, cs@.len()),
    ensures
        state_of(*final(session), Some(*final(m)), *final(ssrc)) == media_attr_step(
            state_of(*old(session), Some(*old(m)), *old(ssrc)),
            cs@.subrange(na as int, nb as int),
            match val {
                Some(r) => Some(cs@.subrange(r.0 as int, r.1 as int)),
                None => None,
            },
        ),
{
    let ghost st = state_of(*old(session), Some(*old(m)), *old(ssrc));
    let ghost vv: Option<Seq<char>> = match val {
        Some(r) => Some(cs@.subrange(r.0 as int, r.1 as int)),
        None => None,
    };
    if range_is(cs, na, nb, "mid") {
        match val {
            Some(r) => {
                let v1 = text_of(text, r);
                let v2 = text_of(text, r);
                let ghost mids0 = session@.mids;
                session.mids.push(v1);
                assert(session@.mids =~= mids0.push(vv->0));
                m.mid = Some(v2);
            },
            None => {
                m.mid = None;
            },
        }
    } else if range_is(cs, na, nb, "sendrecv") {
        m.direction = SdpDirection::SendRecv;
    } else if range_is(cs, na, nb, "sendonly") {
        m.direction = SdpDirection::SendOnly;
    } else if range_is(cs, na, nb, "recvonly") {
        m.direction = SdpDirection::RecvOnly;
    } else if range_is(cs, na, nb, "inactive") {
        m.direction = SdpDirection::Inactive;
    } else if range_is(cs, na, nb, "rtpmap") {
        match val {
            Some(r) => match rtpmap_from(text, cs, r.0, r.1) {
                Some(rm) => {
                    let ghost before = m.rtpmaps@;
                    let ghost rv = rm@;
                    let _ = m.rtpmaps.insert(rm.payload_type, rm);
                    assert(m.rtpmaps@.map_values(|r: SdpRtpMap| r@) =~= before.map_values(|r: SdpRtpMap| r@).insert(
                        rv.payload_type,
                        rv,
                    ));
                },
                None => {},
            },
            None => {},
        }
    } else if range_is(cs, na, nb, "fmtp") {
        match val {
            Some(r) => match fmtp_from(text, cs, r.0, r.1) {
                Some(f) => {
                    let ghost f0 = m@.fmtps;
                    let ghost fv = f@;
                    m.fmtps.push(f);
                    assert(m@.fmtps =~= f0.push(fv));
                },
                None => {},
            },
            None => {},
        }
    } else if range_is(cs, na, nb, "ssrc") {
        match val {
            Some(r) => {
                let p = words_in(cs, r.0, r.1);
                if p.len() > 0 {
                    let ghost w = ranges_text(cs@, p@);
                    assert(w[0] == cs@.subrange(p@[0].0 as int, p@[0].1 as int));
                    let prev = ssrc.take();
                    match prev {
                        Some(s) => {
                            let ghost s0 = m@.ssrcs;
                            let ghost sv = s@;
                            m.ssrcs.push(s);
                            assert(m@.ssrcs =~= s0.push(sv));
                        },
                        None => {},
                    }
                    let mut fresh = SdpSsrc {
                        ssrc: parse_u64_or(cs, p[0], 0xFFFF_FFFF, 0) as u32,
                        cname: None,
                        msid: None,
                        mslabel: None,
                        label: None,
                    };
                    if p.len() > 1 {
                        assert(w[1] == cs@.subrange(p@[1].0 as int, p@[1].1 as int));
                        let ap = split_in(cs, p[1].0, p[1].1, ':');
                        if ap.len() >= 2 {
                            let ghost wa = ranges_text(cs@, ap@);
                            assert(wa[0] == cs@.subrange(ap@[0].0 as int, ap@[0].1 as int));
                            assert(wa[1] == cs@.subrange(ap@[1].0 as int, ap@[1].1 as int));
                            let k0 = ap[0];
                            if range_is(cs, k0.0, k0.1, "cname") {
                                fresh.cname = Some(text_of(text, ap[1]));
                            } else if range_is(cs, k0.0, k0.1, "msid") {
                                fresh.msid = Some(text_of(text, ap[1]));
                            } else if range_is(cs, k0.0, k0.1, "mslabel") {
                                fresh.mslabel = Some(text_of(text, ap[1]));
                            } else if range_is(cs, k0.0, k0.1, "label") {
                                fresh.label = Some(text_of(text, ap[1]));
                            }
                        }
                    }
                    *ssrc = Some(fresh);
                }
            },
            None => {},
        }
    } else if range_is(cs, na, nb, "ice-ufrag") {
        m.ice_ufrag = match val {
            Some(r) => Some(text_of(text, r)),
            None => None,
        };
    } else if range_is(cs, na, nb, "ice-pwd") {
        m.ice_pwd = match val {
            Some(r) => Some(text_of(text, r)),
            None => None,
        };
    } else if range_is(cs, na, nb, "candidate") {
        match val {
            Some(r) => {
                let c = text_of(text, r);
                let ghost c0 = m@.candidates;
                let ghost cv = c@;
                m.candidates.push(c);
                assert(m@.candidates =~= c0.push(cv));
            },
            None => {},
        }
    } else if range_is(cs, na, nb, "rtcp-mux") {
        m.rtcp_mux = true;
    } else if range_is(cs, na, nb, "bundle-only") {
        m.bundle_only = true;
    }
}

/// Applies an attribute before any media section.
fn apply_session_attr(text: &str, cs: &[char], na: usize, nb: usize, val: Option<(usize, usize)>, session: &mut SdpSession)
    requires
        cs@ == text@,
        na <= nb <= cs@.len(),
        opt_range_ok(val, cs@.len()),
    ensures
        ({
            let st = ParseModel { session: old(session)@, media: None, ssrc: None };
            final(session)@ == session_attr_step(
                st,
                cs@.subrange(na as int, nb as int),
                match val {
                    Some(r) => Some(cs@.subrange(r.0 as int, r.1 as int)),
                    None => None,
                },
            ).session
        }),
{
    let o = match val {
        Some(r) => Some(text_of(text, r)),
        None => None,
    };
    if range_is(cs, na, nb, "group") {
        match val {
            Some(r) => {
                let p = words_in(cs, r.0, r.1);
                if p.len() > 0 {
                    assert(ranges_text(cs@, p@)[0] == cs@.subrange(p@[0].0 as int, p@[0].1 as int));
                    session.group = Some(text_of(text, p[0]));
                    session.mids = texts_of(text, cs, &p, 1);
                }
            },
            None => {},
        }
    } else if range_is(cs, na, nb, "ice-ufrag") {
        session.ice_ufrag = o;
    } else if range_is(cs, na, nb, "ice-pwd") {
        session.ice_pwd = o;
    } else if range_is(cs, na, nb, "fingerprint") {
        session.fingerprint = o;
    } else if range_is(cs, na, nb, "setup") {
        session.setup = o;
    }
}

/// A session with nothing read yet.
fn new_session() -> (s: SdpSession)
    ensures
        s@ == empty_session(),
{
    let s = SdpSession {
        version: 0,
        origin: SdpOrigin {
            username: String::new(),
            session_id: 0,
            session_version: 0,
            nettype: String::new(),
            addrtype: String::new(),
            unicast_address: String::new(),
        },
        session_name: String::new(),
        session_info: None,
        timing: SdpTiming { start: 0, stop: 0 },
        connection: None,
        media: Vec::new(),
        group: None,
        mids: Vec::new(),
        ice_ufrag: None,
        ice_pwd: None,
        fingerprint: None,
        setup: None,
    };
    assert(s@.media =~= Seq::<MediaModel>::empty());
    assert(s@.mids =~= Seq::<Seq<char>>::empty());
    s
}

/// Applies the trimmed line `cs[a..b]`.
#[verifier::rlimit(60)]
fn apply_line(
    text: &str,
    cs: &[char],
    a: usize,
    b: usize,
    session: &mut SdpSession,
    media: &mut Option<SdpMedia>,
    ssrc: &mut Option<SdpSsrc>,
) -> (r: Result<(), SdpParseError>)
    requires
        cs@ == text@,
        a <= b <= cs@.len(),
    ensures
        match line_step(state_of(*old(session), *old(media), *old(ssrc)), cs@.subrange(a as int, b as int)) {
            Ok(st2) => r is Ok && state_of(*final(session), *final(media), *final(ssrc)) == st2,
            Err(e) => r is Err && err_model(r->Err_0) == Some(e),
        },
{
    let ghost l = cs@.subrange(a as int, b as int);
    if b - a < 2 || !range_has(cs, a, b, '=') {
        return Ok(());
    }
    let t = cs[a];
    assert(l[0] == t);
    let va = a + 2;
    assert(l.subrange(2, l.len() as int) =~= cs@.subrange(va as int, b as int));
    if t == 'v' {
        session.version = parse_u64_or(cs, (va, b), 0xFFFF_FFFF, 0) as u32;
    } else if t == 'o' {
        let p = words_in(cs, va, b);
        if p.len() >= 6 {
            let ghost w = ranges_text(cs@, p@);
            assert(w[0] == cs@.subrange(p@[0].0 as int, p@[0].1 as int));
            assert(w[1] == cs@.subrange(p@[1].0 as int, p@[1].1 as int));
            assert(w[2] == cs@.subrange(p@[2].0 as int, p@[2].1 as int));
            assert(w[3] == cs@.subrange(p@[3].0 as int, p@[3].1 as int));
            assert(w[4] == cs@.subrange(p@[4].0 as int, p@[4].1 as int));
            assert(w[5] == cs@.subrange(p@[5].0 as int, p@[5].1 as int));
            session.origin = SdpOrigin {
                username: text_of(text, p[0]),
                session_id: parse_u64_or(cs, p[1], 0xFFFF_FFFF_FFFF_FFFF, 0),
                session_version: parse_u64_or(cs, p[2], 0xFFFF_FFFF_FFFF_FFFF, 0),
                nettype: text_of(text, p[3]),
                addrtype: text_of(text, p[4]),
                unicast_address: text_of(text, p[5]),
            };
        }
    } else if t == 's' {
        session.session_name = text_of(text, (va, b));
    } else if t == 'i' {
        if media.is_none() {
            session.session_info = Some(text_of(text, (va, b)));
        }
    } else if t == 't' {
        let p = words_in(cs, va, b);
        if p.len() >= 2 {
            let ghost w = ranges_text(cs@, p@);
            assert(w[0] == cs@.subrange(p@[0].0 as int, p@[0].1 as int));
            assert(w[1] == cs@.subrange(p@[1].0 as int, p@[1].1 as int));
            session.timing = SdpTiming {
                start: parse_u64_or(cs, p[0], 0xFFFF_FFFF_FFFF_FFFF, 0),
                stop: parse_u64_or(cs, p[1], 0xFFFF_FFFF_FFFF_FFFF, 0),
            };
        }
    } else if t == 'c' {
        let conn = match connection_from(text, cs, va, b) {
            Some(c) => c,
            None => {
                return Err(SdpParseError::InvalidConnection(text_of(text, (va, b))));
            },
        };
        match media {
            Some(m) => {
                m.connection = Some(conn);
            },
            None => {
                session.connection = Some(conn);
            },
        }
    } else if t == 'm' {
        let fresh = match media_from(text, cs, va, b) {
            Some(m) => m,
            None => {
                return Err(SdpParseError::InvalidMedia(text_of(text, (va, b))));
            },
        };
        let prev = media.take();
        match prev {
            Some(pm) => {
                let ghost m0 = session@.media;
                let ghost pv = pm@;
                session.media.push(pm);
                assert(session@.media =~= m0.push(pv));
            },
            None => {},
        }
        *media = Some(fresh);
    } else if t == 'a' {
        let k = find_in(cs, va, b, ':');
        let ghost value = cs@.subrange(va as int, b as int);
        assert(value.subrange(0, k - va) =~= cs@.subrange(va as int, k as int));
        let val = if k < b {
            assert(value.subrange(k - va + 1, value.len() as int) =~= cs@.subrange(k + 1, b as int));
            Some((k + 1, b))
        } else {
            None
        };
        match media {
            Some(m) => {
                apply_media_attr(text, cs, va, k, val, session, m, ssrc);
            },
            None => {
                apply_session_attr(text, cs, va, k, val, session);
            },
        }
    }
    Ok(())
}

impl SdpSession {
    /// Reads a description line by line (lines end at `\n`; each is
    /// trimmed). Every line must split after its type character and `=`
    /// at byte 2 (see `line_splits`).
    pub fn parse(s: &str) -> (r: Result<Self, SdpParseError>)
        requires
            sdp_text_splits(s@),
        ensures
            match parse_model(s@) {
                Ok(m) => r is Ok && r->Ok_0@ == m,
                Err(e) => r is Err && err_model(r->Err_0) == Some(e),
            },
    {
        let cs = chars_of(s);
        let lines = split_in(cs.as_slice(), 0, cs.len(), '\n');
        let ghost all = split_on(s@, '\n');
        assert(cs@.subrange(0, cs@.len() as int) =~= cs@);
        let mut session = new_session();
        let mut media: Option<SdpMedia> = None;
        let mut ssrc: Option<SdpSsrc> = None;
        let ghost init = ParseModel { session: empty_session(), media: None, ssrc: None };
        assert(all.skip(0) =~= all);
        assert(state_of(session, media, ssrc) == init);
        let mut i: usize = 0;
        while i < lines.len()
            invariant
                cs@ == s@,
                all == split_on(s@, '\n'),
                ranges_text(cs@, lines@) == all,
                forall|j: int| 0 <= j < lines@.len() ==> (#[trigger] lines@[j]).0 <= lines@[j].1 <= cs@.len(),
                i <= lines@.len(),
                sdp_text_splits(s@),
                init == (ParseModel { session: empty_session(), media: None, ssrc: None }),
                parse_lines(all, init) == parse_lines(all.skip(i as int), state_of(session, media, ssrc)),
            decreases lines@.len() - i,
        {
            let (la, lb) = lines[i];
            let (ta, tb) = trim_range(cs.as_slice(), la, lb);
            assert(all[i as int] == cs@.subrange(la as int, lb as int));
            let ghost st0 = state_of(session, media, ssrc);
            assert(all.skip(i as int)[0] == all[i as int]);
            assert(all.skip(i as int).drop_first() =~= all.skip(i + 1));
            match apply_line(s, cs.as_slice(), ta, tb, &mut session, &mut media, &mut ssrc) {
                Ok(()) => {},
                Err(e) => {
                    proof {
                        assert(trim(all.skip(i as int)[0]) == cs@.subrange(ta as int, tb as int));
                        assert(line_step(st0, trim(all.skip(i as int)[0])) is Err);
                        assert(parse_lines(all.skip(i as int), st0) == Err::<ParseModel, SdpErrModel>(
                            line_step(st0, trim(all.skip(i as int)[0]))->Err_0,
                        ));
                    }
                    return Err(e);
                },
            }
            i = i + 1;
        }
        assert(all.skip(i as int) =~= Seq::<Seq<char>>::empty());
        let ghost fin = state_of(session, media, ssrc);
        let last = ssrc.take();
        match media {
            Some(mut m) => {
                match last {
                    Some(sv) => {
                        let ghost s0 = m@.ssrcs;
                        let ghost v = sv@;
                        m.ssrcs.push(sv);
                        assert(m@.ssrcs =~= s0.push(v));
                    },
                    None => {},
                }
                let ghost m0 = session@.media;
                let ghost mv = m@;
                session.media.push(m);
                assert(session@.media =~= m0.push(mv));
            },
            None => {},
        }
        assert(session@ == finish(fin));
        Ok(session)
    }
}

} // verus!
