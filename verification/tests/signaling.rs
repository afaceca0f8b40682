use webrtc_core::pc::configuration::RtcConfiguration;
use webrtc_core::pc::peer_connection::{PeerConnection, PeerConnectionState, SdpType, SessionDescription, SignalingState};
use webrtc_core::pc::sdp::{SdpDirection, SdpSession};
use webrtc_core::pc::transceiver::{MediaKind, RtpSender, RtpTransceiver, TransceiverDirection};

#[test]
fn parse_basic_sdp() {
    let sdp = "v=0\r\n\
o=- 123 456 IN IP4 127.0.0.1\r\n\
s=-\r\n\
t=0 0\r\n\
m=audio 9 UDP/TLS/RTP/SAVPF 111\r\n\
a=mid:0\r\n\
a=sendrecv\r\n\
a=rtpmap:111 opus/48000/2\r\n";
    let session = SdpSession::parse(sdp).unwrap();
    assert_eq!(session.version, 0);
    assert_eq!(session.origin.session_id, 123);
    assert_eq!(session.media.len(), 1);
    assert_eq!(session.media[0].mid, Some("0".to_string()));
    assert!(session.media[0].rtpmaps.contains_key(&111));
}

#[test]
fn sdp_roundtrip() {
    let sdp = "v=0\r\n\
o=- 0 0 IN IP4 0.0.0.0\r\n\
s=-\r\n\
t=0 0\r\n\
m=video 9 UDP/TLS/RTP/SAVPF 96\r\n\
a=mid:video\r\n\
a=sendrecv\r\n\
a=rtpmap:96 VP8/90000\r\n";
    let session = SdpSession::parse(sdp).unwrap();
    let resdp = session.to_sdp();
    assert!(resdp.contains("m=video"));
    assert!(resdp.contains("VP8"));
}

#[test]
fn sdp_reparse_keeps_media() {
    let sdp = "v=0\r\n\
o=- 7 8 IN IP4 10.0.0.1\r\n\
s=-\r\n\
t=0 0\r\n\
m=audio 9 UDP/TLS/RTP/SAVPF 111\r\n\
a=mid:a0\r\n\
a=rtpmap:111 opus/48000/2\r\n";
    let first = SdpSession::parse(sdp).unwrap();
    let second = SdpSession::parse(&first.to_sdp()).unwrap();
    assert_eq!(second.origin.session_id, 7);
    assert_eq!(second.media.len(), 1);
    assert_eq!(second.media[0].mid, Some("a0".to_string()));
    assert!(second.media[0].rtpmaps.contains_key(&111));
}

#[test]
fn parse_direction() {
    assert_eq!(SdpDirection::from_str("sendrecv"), Some(SdpDirection::SendRecv));
    assert_eq!(SdpDirection::from_str("sendonly"), Some(SdpDirection::SendOnly));
    assert_eq!(SdpDirection::from_str("recvonly"), Some(SdpDirection::RecvOnly));
    assert_eq!(SdpDirection::from_str("inactive"), Some(SdpDirection::Inactive));
}

#[test]
fn parse_direction_unknown_and_text() {
    assert_eq!(SdpDirection::from_str("sideways"), None);
    assert_eq!(SdpDirection::SendOnly.as_str(), "sendonly");
}

#[test]
fn transceiver_direction() {
    let mut tc = RtpTransceiver::new("0", MediaKind::Audio, 100, 200);
    assert!(tc.can_send());
    assert!(tc.can_receive());
    tc.set_direction(TransceiverDirection::RecvOnly);
    assert!(!tc.can_send());
    assert!(tc.can_receive());
    tc.stop();
    assert!(!tc.can_send());
    assert!(!tc.can_receive());
}

#[test]
fn rtp_sender_accounting() {
    let mut sender = RtpSender::new(0x1234);
    sender.record_sent(1200);
    sender.record_sent(800);
    assert_eq!(sender.packets_sent(), 2);
    assert_eq!(sender.bytes_sent(), 2000);
}

#[test]
fn peer_connection_offer_answer() {
    let cfg = RtcConfiguration::new().with_stun("stun:stun.l.google.com:19302");
    let mut offerer = PeerConnection::new(cfg.clone());
    let mut answerer = PeerConnection::new(cfg);

    offerer.add_transceiver(MediaKind::Audio);
    offerer.add_transceiver(MediaKind::Video);
    let offer = offerer.create_offer().unwrap();
    assert!(offer.is_offer());
    assert_eq!(offerer.signaling_state(), SignalingState::HaveLocalOffer);

    answerer.set_remote_description(offer.clone()).unwrap();
    assert_eq!(answerer.signaling_state(), SignalingState::HaveRemoteOffer);

    answerer.add_transceiver(MediaKind::Audio);
    answerer.add_transceiver(MediaKind::Video);
    let answer = answerer.create_answer().unwrap();
    assert!(answer.is_answer());

    offerer.set_remote_description(answer).unwrap();
    assert_eq!(offerer.signaling_state(), SignalingState::Stable);
    assert_eq!(offerer.state(), PeerConnectionState::Connected);
}

#[test]
fn peer_connection_answer_without_offer_fails() {
    let mut pc = PeerConnection::new(RtcConfiguration::new());
    assert!(pc.create_answer().is_err());
    assert_eq!(pc.signaling_state(), SignalingState::Stable);
}

#[test]
fn peer_connection_close() {
    let mut pc = PeerConnection::new(RtcConfiguration::new());
    pc.add_transceiver(MediaKind::Audio);
    pc.close();
    assert!(pc.is_closed());
    assert_eq!(pc.state(), PeerConnectionState::Closed);
    assert!(pc.transceivers().iter().all(|t| t.is_stopped()));
}

#[test]
fn peer_connection_transceiver_lookup() {
    let mut pc = PeerConnection::new(RtcConfiguration::new());
    let tc = pc.add_transceiver(MediaKind::Video);
    let mid = tc.mid.clone();
    let found = pc.transceiver_by_mid(&mid);
    assert!(found.is_some());
    assert_eq!(found.unwrap().mid, mid);
}

#[test]
fn rollback_returns_to_stable() {
    let mut pc = PeerConnection::new(RtcConfiguration::new());
    pc.add_transceiver(MediaKind::Audio);
    pc.create_offer().unwrap();
    assert_eq!(pc.signaling_state(), SignalingState::HaveLocalOffer);
    let state = pc.state();
    pc.set_local_description(SessionDescription { sdp_type: SdpType::Rollback, sdp: String::new() }).unwrap();
    assert_eq!(pc.signaling_state(), SignalingState::Stable);
    assert_eq!(pc.state(), state);
}

#[test]
fn sdp_reparse_keeps_compared_fields() {
    let sdp = "v=2\r\n\
o=alice 7 8 IN IP4 10.0.0.1\r\n\
s=Call  name\r\n\
t=5 9\r\n\
m=audio 5004/2 RTP/AVP 111 0\r\n\
a=mid:a0\r\n\
a=recvonly\r\n\
a=rtpmap:111 opus/48000/2\r\n\
a=rtpmap:0 PCMU/8000\r\n\
a=fmtp:111 minptime=10;useinbandfec=1\r\n\
a=candidate:1 1 udp 2130706431 192.0.2.1 5004 typ host\r\n\
a=rtcp-mux\r\n\
m=video 9 UDP/TLS/RTP/SAVPF 96\r\n\
a=inactive\r\n\
a=rtpmap:96 VP8/90000\r\n";
    let first = SdpSession::parse(sdp).unwrap();
    let second = SdpSession::parse(&first.to_sdp()).unwrap();
    assert_eq!(second.version, 2);
    assert_eq!(second.session_name, "Call  name");
    assert_eq!(second.timing.start, 5);
    assert_eq!(second.timing.stop, 9);
    assert_eq!(second.media.len(), 2);
    for i in 0..2 {
        let (a, b) = (&first.media[i], &second.media[i]);
        assert_eq!(a.media_type, b.media_type);
        assert_eq!(a.port, b.port);
        assert_eq!(a.port_count, b.port_count);
        assert_eq!(a.proto, b.proto);
        assert_eq!(a.formats, b.formats);
        assert_eq!(a.mid, b.mid);
        assert_eq!(a.direction, b.direction);
        assert_eq!(a.rtpmaps.len(), b.rtpmaps.len());
        for (pt, r) in a.rtpmaps.iter() {
            let r2 = b.rtpmaps.get(pt).unwrap();
            assert_eq!(r.encoding_name, r2.encoding_name);
            assert_eq!(r.clock_rate, r2.clock_rate);
            assert_eq!(r.encoding_params, r2.encoding_params);
        }
        assert_eq!(a.fmtps.len(), b.fmtps.len());
        assert_eq!(a.candidates, b.candidates);
        assert_eq!(a.rtcp_mux, b.rtcp_mux);
    }
    assert_eq!(second.media[0].port_count, Some(2));
    assert_eq!(second.media[1].direction, SdpDirection::Inactive);
    let text = first.to_sdp();
    assert!(text.find("a=rtpmap:0 PCMU/8000").unwrap() < text.find("a=rtpmap:111 opus/48000/2").unwrap());
}
