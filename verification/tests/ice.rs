use webrtc_core::ice::agent::{IceAgent, IceAgentConfig, IceCandidatePair, IceEvent, IceRole, IceState};
use webrtc_core::ice::candidate::{CandidateType, IceCandidate};
use webrtc_core::ice::stun::{StunAttribute, StunClass, StunMessage, StunMethod, STUN_HEADER_SIZE};
use webrtc_core::ice::stun_client::StunMessage as ClientMessage;
use webrtc_core::ice::stun_client::{
    StunAttribute as ClientAttribute, StunClass as ClientClass, StunClient, StunClientError, StunMethod as ClientMethod,
    TransactionId,
};
use webrtc_core::ice::turn::{TurnClient, TurnState};
use webrtc_core::net::{IpAddress, SocketAddress};

#[test]
fn stun_binding_request_roundtrip() {
    let mut msg = StunMessage::new_request(StunMethod::Binding);
    msg.add_attribute(StunAttribute::Priority(1234567));
    msg.add_attribute(StunAttribute::UseCandidate);
    let mut buf = [0u8; 512];
    let n = msg.encode(&mut buf).unwrap();
    assert!(n >= STUN_HEADER_SIZE);
    let decoded = StunMessage::decode(&buf[..n]).unwrap();
    assert_eq!(decoded.method, StunMethod::Binding);
    assert_eq!(decoded.class, StunClass::Request);
    let has_priority = decoded.attributes.iter().any(|a| matches!(a, StunAttribute::Priority(_)));
    assert!(has_priority);
    let has_use_cand = decoded.attributes.iter().any(|a| matches!(a, StunAttribute::UseCandidate));
    assert!(has_use_cand);
}

#[test]
fn stun_invalid_magic_rejected() {
    let buf = [0x00u8, 0x01, 0x00, 0x00, 0xDE, 0xAD, 0xBE, 0xEF, 0, 0, 0, 0, 0, 0, 0, 0, 0, 0, 0, 0];
    assert!(StunMessage::decode(&buf).is_err());
}

#[test]
fn stun_encode_header_bytes() {
    let msg = StunMessage::new_request(StunMethod::Binding);
    let mut buf = [0u8; 64];
    let n = msg.encode(&mut buf).unwrap();
    assert_eq!(n, 20);
    assert_eq!(&buf[0..4], &[0x00, 0x01, 0x00, 0x00]);
    assert_eq!(&buf[4..8], &[0x21, 0x12, 0xA4, 0x42]);
    let back = StunMessage::decode(&buf[..n]).unwrap();
    assert!(back.transaction_id_matches(&msg.transaction_id));
}

#[test]
fn turn_client_creation() {
    let server = SocketAddress::v4(127, 0, 0, 1, 3478);
    let client = TurnClient::new(server, "user".to_string(), "pass".to_string());
    assert_eq!(client.state(), TurnState::Idle);
    assert!(!client.is_allocated());
}

#[test]
fn allocation_request_format() {
    let server = SocketAddress::v4(127, 0, 0, 1, 3478);
    let mut client = TurnClient::new(server, "user".to_string(), "pass".to_string());
    let req = client.create_allocation_request();
    assert!(req.len() >= 20);
    assert_eq!(u16::from_be_bytes([req[0], req[1]]), 0x0003);
}

#[test]
fn permission_request_format() {
    let server = SocketAddress::v4(127, 0, 0, 1, 3478);
    let mut client = TurnClient::new(server, "user".to_string(), "pass".to_string());
    let peer = SocketAddress::v4(192, 168, 1, 100, 5000);
    let req = client.create_permission_request(peer);
    assert!(req.len() >= 20);
    assert_eq!(u16::from_be_bytes([req[0], req[1]]), 0x0008);
}

#[test]
fn turn_refused_response_is_an_error() {
    let server = SocketAddress::v4(127, 0, 0, 1, 3478);
    let mut client = TurnClient::new(server, "user".to_string(), "pass".to_string());
    assert!(client.handle_allocation_response(&[0u8; 4]).is_err());
    assert!(!client.is_allocated());
}

#[test]
fn candidate_priority_ordering() {
    let host_prio = IceCandidate::compute_priority(CandidateType::Host, 65535, 1);
    let srflx_prio = IceCandidate::compute_priority(CandidateType::ServerReflexive, 65535, 1);
    let relay_prio = IceCandidate::compute_priority(CandidateType::Relay, 65535, 1);
    assert!(host_prio > srflx_prio);
    assert!(srflx_prio > relay_prio);
}

#[test]
fn candidate_priority_value() {
    assert_eq!(IceCandidate::compute_priority(CandidateType::Host, 65535, 1), (126 << 24) + (65535 << 8) + 255);
    assert_eq!(IceCandidate::compute_priority(CandidateType::Relay, 0, 255), 1);
}

#[test]
fn candidate_sdp_format() {
    let addr = SocketAddress::v4(192, 168, 1, 1, 5000);
    let mut c = IceCandidate::new_host(addr, 1);
    c.set_foundation("1");
    let sdp = c.to_sdp_attribute();
    assert!(sdp.contains("typ host"));
    assert!(sdp.contains("192.168.1.1"));
    assert!(sdp.contains("5000"));
}

#[test]
fn candidate_sdp_exact_text() {
    let base = SocketAddress::v4(10, 0, 0, 2, 4000);
    let mapped = SocketAddress::v4(203, 0, 113, 7, 61000);
    let mut c = IceCandidate::new_srflx(mapped, base, 1);
    c.set_foundation("abc");
    assert_eq!(
        c.to_sdp_attribute(),
        "candidate:abc 1 UDP 1694498815 203.0.113.7 61000 typ srflx raddr 10.0.0.2 rport 4000"
    );
}

#[test]
fn candidate_sdp_ipv6_text() {
    let v6 = SocketAddress { ip: IpAddress::V6(0x2001_0db8_0000_0000_0000_0000_0000_0001), port: 9 };
    let c = IceCandidate::new_host(v6, 2);
    let sdp = c.to_sdp_attribute();
    assert_eq!(sdp, format!("candidate: 2 UDP {} 2001:db8::1 9 typ host", c.priority));
    let mapped = SocketAddress { ip: IpAddress::V6(0xffff_c000_0280), port: 1 };
    let c = IceCandidate::new_host(mapped, 1);
    assert!(c.to_sdp_attribute().contains(" ::ffff:192.0.2.128 1 typ host"));
    let full = SocketAddress { ip: IpAddress::V6(0x0001_0000_0002_0000_0003_0000_0004_0005), port: 1 };
    let c = IceCandidate::new_host(full, 1);
    assert!(c.to_sdp_attribute().contains(" 1:0:2:0:3:0:4:5 "));
}

#[test]
fn candidate_foundation_is_truncated_to_fit() {
    let mut c = IceCandidate::new_host(SocketAddress::v4(1, 2, 3, 4, 5), 1);
    let long = "x".repeat(40);
    c.set_foundation(&long);
    assert_eq!(c.foundation_len, 32);
    assert_eq!(c.foundation_str(), &long[..32]);
    c.set_ufrag("uf");
    assert_eq!(c.ufrag_len, 2);
    assert_eq!(&c.ufrag[..2], b"uf");
}

#[test]
fn ice_agent_gather() {
    let mut cfg = IceAgentConfig::new();
    cfg.set_local_credentials("abcdefgh", "passwordpasswordpassword");
    cfg.set_remote_credentials("ijklmnop", "remotepasswordremote00");
    let mut agent = IceAgent::new(cfg, IceRole::Controlling);
    let addrs: Vec<SocketAddress> = vec![SocketAddress::v4(127, 0, 0, 1, 5000)];
    agent.gather_host_candidates(&addrs);
    assert_eq!(agent.local_candidate_count(), 1);
    let remote = IceCandidate::new_host(SocketAddress::v4(127, 0, 0, 1, 6000), 1);
    agent.add_remote_candidate(remote);
    assert_eq!(agent.state(), IceState::Checking);
    agent.perform_connectivity_check(SocketAddress::v4(127, 0, 0, 1, 6000));
    assert_eq!(agent.checks_sent(), 1);
}

#[test]
fn ice_agent_events_follow_gathering() {
    let mut cfg = IceAgentConfig::new();
    cfg.set_local_credentials("uf", "pw");
    assert_eq!(cfg.local_ufrag_str(), "uf");
    assert_eq!(cfg.local_pwd_str(), "pw");
    let mut agent = IceAgent::new(cfg, IceRole::Controlled);
    agent.gather_host_candidates(&[SocketAddress::v4(10, 0, 0, 1, 7000), SocketAddress::v4(10, 0, 0, 2, 7001)]);
    match agent.poll_event() {
        Some(IceEvent::CandidateGathered(c)) => {
            assert_eq!(c.foundation_str(), "host7000");
            assert_eq!(&c.ufrag[..c.ufrag_len], b"uf");
        },
        _ => panic!("expected the first candidate"),
    }
    assert!(matches!(agent.poll_event(), Some(IceEvent::CandidateGathered(_))));
    assert!(matches!(agent.poll_event(), Some(IceEvent::GatheringDone)));
    assert!(agent.poll_event().is_none());
    assert_eq!(agent.state(), IceState::Gathering);
    assert!(!agent.is_connected());
    assert!(agent.selected_address().is_none());
}

#[test]
fn candidate_pair_priority_controlling() {
    let local = IceCandidate::new_host(SocketAddress::v4(127, 0, 0, 1, 5000), 1);
    let remote = IceCandidate::new_host(SocketAddress::v4(127, 0, 0, 1, 6000), 1);
    let pair_ctrl = IceCandidatePair::new(local.clone(), remote.clone(), true);
    let pair_ctrd = IceCandidatePair::new(local, remote, false);
    assert_ne!(pair_ctrl.priority, pair_ctrd.priority);
    assert_eq!(pair_ctrl.priority, pair_ctrd.priority + 1);
}

#[test]
fn stun_client_request_and_encoding() {
    let client = StunClient::new(SocketAddress::v4(10, 0, 0, 1, 5000), "user", "pw");
    let msg = client.create_binding_request(7, true);
    assert_eq!(msg.attributes.len(), 4);
    let bytes = msg.encode();
    assert_eq!(&bytes[0..2], &[0x00, 0x01]);
    assert_eq!(&bytes[4..8], &[0x21, 0x12, 0xA4, 0x42]);
    assert_eq!(&bytes[8..20], &TransactionId::new().0[..]);
    // The attributes are username (8), priority (8), controlling (12) and
    // use-candidate (8) bytes; the fingerprint follows.
    assert_eq!(u16::from_be_bytes([bytes[2], bytes[3]]), 36);
    assert_eq!(bytes.len(), 20 + 36 + 8);
    assert_eq!(&bytes[56..58], &[0x80, 0x28]);
    let decoded = webrtc_core::ice::stun_client::StunMessage::decode(&bytes).ok().unwrap();
    assert_eq!(decoded.transaction_id.0, TransactionId::new().0);
    assert_eq!(decoded.attributes.len(), 2);
    assert!(matches!(decoded.attributes[0], webrtc_core::ice::stun_client::StunAttribute::Priority(131070)));
    assert!(matches!(decoded.attributes[1], webrtc_core::ice::stun_client::StunAttribute::UseCandidate));
    assert_eq!(client_mapped(&decoded), None);
}

fn client_mapped(m: &webrtc_core::ice::stun_client::StunMessage) -> Option<SocketAddress> {
    m.mapped_address()
}

#[test]
fn stun_client_decode_errors() {
    match ClientMessage::decode(&[0u8; 10]) {
        Err(StunClientError::ParseError(e)) => assert_eq!(e, "Message too short"),
        _ => panic!("expected a parse error"),
    }
    let mut bad = [0u8; 20];
    bad[1] = 1;
    match ClientMessage::decode(&bad) {
        Err(StunClientError::ParseError(e)) => assert_eq!(e, "Invalid magic cookie"),
        _ => panic!("expected a parse error"),
    }
    let mut unknown = [0u8; 20];
    unknown[0] = 0xab;
    unknown[1] = 0xcd;
    unknown[4..8].copy_from_slice(&[0x21, 0x12, 0xA4, 0x42]);
    match ClientMessage::decode(&unknown) {
        Err(StunClientError::ParseError(e)) => assert_eq!(e, "Unknown message type: abcd"),
        _ => panic!("expected a parse error"),
    }
}

#[test]
fn stun_client_decodes_rfc5769_xor_mapped_address() {
    let data = [
        0x01, 0x01, 0x00, 0x0C, 0x21, 0x12, 0xA4, 0x42, 1, 2, 3, 4, 5, 6, 7, 8, 9, 10, 11, 12, 0x00, 0x20, 0x00, 0x08,
        0x00, 0x01, 0xA1, 0x47, 0xE1, 0x12, 0xA6, 0x43,
    ];
    let expected = SocketAddress { ip: IpAddress::V4(0xC000_0201), port: 32853 };
    let m = match ClientMessage::decode(&data) {
        Ok(m) => m,
        Err(_) => panic!("decode failed"),
    };
    assert_eq!(m.class, ClientClass::SuccessResponse);
    assert_eq!(m.method, ClientMethod::Binding);
    assert_eq!(m.transaction_id.0, [1, 2, 3, 4, 5, 6, 7, 8, 9, 10, 11, 12]);
    assert_eq!(m.attributes.len(), 1);
    assert!(matches!(m.attributes[0], ClientAttribute::XorMappedAddress(a) if a == expected));
    assert_eq!(m.mapped_address(), Some(expected));
}

#[test]
fn stun_client_xor_mapped_port_round_trips() {
    let addr = SocketAddress { ip: IpAddress::V4(0xC000_0201), port: 32853 };
    let msg = ClientMessage {
        class: ClientClass::SuccessResponse,
        method: ClientMethod::Binding,
        transaction_id: TransactionId([7; 12]),
        attributes: vec![ClientAttribute::XorMappedAddress(addr)],
    };
    let bytes = msg.encode();
    assert_eq!(&bytes[26..28], &[0xA1, 0x47]);
    let back = match ClientMessage::decode(&bytes) {
        Ok(m) => m,
        Err(_) => panic!("decode failed"),
    };
    assert!(matches!(back.attributes[0], ClientAttribute::XorMappedAddress(a) if a.port == 32853));
}
