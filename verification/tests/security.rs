use webrtc_core::dtls::handshake::{Certificate, DtlsHandshake, HandshakeState, ServerHello};
use webrtc_core::dtls::{
    DtlsCipherSuite, DtlsContext, DtlsEndpoint, DtlsError, DtlsRecordHeader, DtlsRole, DtlsSecurityParameters,
    DtlsState, CONTENT_TYPE_APPLICATION_DATA, DTLS_VERSION_1_2,
};
use webrtc_core::dtls_key::{derive_srtp_master_and_salt, KeyDeriveError};
use webrtc_core::e2ee::sframe::{KeyStore, SFrameConfig, SFrameContext, SFrameError};

#[test]
fn server_hello_parsing() {
    let data = vec![
        0x02, 0x00, 0x00, 0x00, 0x00, 0x00, 0x00, 0x00, 0x00, 0x00, 0x00, 0x00, 0x00, 0x00, 0x00, 0x00, 0x00, 0x00,
        0x00, 0x00, 0x00, 0x00, 0x00, 0x00, 0x00, 0x00, 0x00, 0x00, 0x00, 0x00, 0x00, 0x00, 0x00, 0x00, 0x20, 0xc0,
        0x2b, 0x00, 0x00,
    ];
    let hello = ServerHello::decode(&data).unwrap();
    assert_eq!(hello.cipher_suite, 0xc02b);
}

#[test]
fn server_hello_too_short_is_refused() {
    assert!(ServerHello::decode(&[0u8; 37]).is_err());
}

#[test]
fn certificate_encode_decode() {
    let cert = Certificate { certificates: vec![vec![1u8, 2, 3], vec![4u8; 5]] };
    let bytes = cert.encode();
    let back = Certificate::decode(&bytes).unwrap();
    assert_eq!(back.certificates, cert.certificates);
}

#[test]
fn dtls_record_header_roundtrip() {
    let hdr = DtlsRecordHeader {
        content_type: CONTENT_TYPE_APPLICATION_DATA,
        version: DTLS_VERSION_1_2,
        epoch: 1,
        sequence_number: 12345,
        length: 256,
    };
    let mut buf = [0u8; 32];
    hdr.write_into(&mut buf).unwrap();
    let parsed = DtlsRecordHeader::parse(&buf).unwrap();
    assert_eq!(parsed.content_type, hdr.content_type);
    assert_eq!(parsed.version, hdr.version);
    assert_eq!(parsed.epoch, hdr.epoch);
    assert_eq!(parsed.sequence_number, hdr.sequence_number);
    assert_eq!(parsed.length, hdr.length);
}

#[test]
fn dtls_record_header_needs_thirteen_bytes() {
    assert!(DtlsRecordHeader::parse(&[0u8; 12]).is_none());
    let hdr = DtlsRecordHeader { content_type: 22, version: DTLS_VERSION_1_2, epoch: 0, sequence_number: 0, length: 0 };
    let mut small = [0u8; 12];
    assert!(hdr.write_into(&mut small).is_none());
}

#[test]
fn dtls_context_creation() {
    let ctx = DtlsContext::new(DtlsRole::Client);
    assert_eq!(ctx.role(), DtlsRole::Client);
    assert_eq!(ctx.state(), DtlsState::Closed);
    assert!(!ctx.is_connected());
}

#[test]
fn dtls_context_without_keys_refuses_records() {
    let mut ctx = DtlsContext::new(DtlsRole::Server);
    let mut out = [0u8; 64];
    assert!(matches!(ctx.encrypt_record(b"x", &mut out), Err(DtlsError::InvalidState)));
    assert!(matches!(ctx.decrypt_record(&[0u8; 40], &mut out), Err(DtlsError::InvalidState)));
}

#[test]
fn dtls_endpoint_creation() {
    let endpoint = DtlsEndpoint::new(DtlsRole::Server).unwrap();
    assert_eq!(endpoint.role(), DtlsRole::Server);
    assert_eq!(endpoint.local_random().len(), 32);
}

#[test]
fn dtls_security_params_srtp_keys() {
    let cipher = DtlsCipherSuite::aes_128_gcm_sha256();
    let master = [0x42u8; 48];
    let client_random = [0x01u8; 32];
    let server_random = [0x02u8; 32];
    let params = DtlsSecurityParameters::new(cipher, master, &client_random, &server_random);
    let (key, salt) = params.srtp_master_key_and_salt().unwrap();
    assert_eq!(key.len(), 16);
    assert_eq!(salt.len(), 14);
}

#[test]
fn srtp_key_derivation_is_refused() {
    assert!(matches!(derive_srtp_master_and_salt(&[7u8; 8]), Err(KeyDeriveError::Insufficient)));
    assert!(matches!(derive_srtp_master_and_salt(&[7u8; 32]), Err(KeyDeriveError::Insufficient)));
    assert_eq!(KeyDeriveError::Insufficient.message(), "insufficient input");
}

fn make_context() -> SFrameContext {
    let mut store = KeyStore::new();
    let key = [0x42u8; 32];
    let salt = [0x01u8; 12];
    store.add_key(0, &key, salt);
    SFrameContext::new(SFrameConfig::default(), store, 0)
}

#[test]
fn sframe_encrypt_decrypt_roundtrip() {
    let mut ctx = make_context();
    let rtp_hdr = [0x80u8, 0x60, 0x00, 0x01, 0x00, 0x00, 0x00, 0x00, 0x00, 0x00, 0x00, 0x01];
    let payload = b"Hello, SFrame!";
    let mut encrypted = vec![0u8; 256];
    let enc_len = ctx.encrypt_frame(&rtp_hdr, payload, &mut encrypted).unwrap();
    assert!(enc_len > rtp_hdr.len() + payload.len());

    let mut to_decrypt = encrypted[..enc_len].to_vec();
    let plain_len = ctx.decrypt_frame(&mut to_decrypt, rtp_hdr.len()).unwrap();
    assert_eq!(plain_len, payload.len());
    let ctr_bytes = (SFrameConfig::default().ctr_bits as usize + 7) / 8;
    let sframe_hdr_len = 1 + ctr_bytes;
    let decrypted_payload_start = rtp_hdr.len() + sframe_hdr_len;
    assert_eq!(&to_decrypt[decrypted_payload_start..decrypted_payload_start + plain_len], payload);
}

#[test]
fn sframe_wrong_key_fails() {
    let mut ctx = make_context();
    let rtp_hdr = [0x80u8, 0x60, 0x00, 0x01, 0x00, 0x00, 0x00, 0x00, 0x00, 0x00, 0x00, 0x01];
    let payload = b"Secret";
    let mut encrypted = vec![0u8; 256];
    let enc_len = ctx.encrypt_frame(&rtp_hdr, payload, &mut encrypted).unwrap();
    ctx.keys_mut().add_key(0, &[0x99u8; 32], [0x02u8; 12]);
    let mut to_decrypt = encrypted[..enc_len].to_vec();
    let result = ctx.decrypt_frame(&mut to_decrypt, rtp_hdr.len());
    assert!(result.is_err());
}

#[test]
fn sframe_key_not_found() {
    let store = KeyStore::new();
    let mut ctx = SFrameContext::new(SFrameConfig::default(), store, 5);
    let rtp_hdr = [0x80u8; 12];
    let payload = b"data";
    let mut out = vec![0u8; 256];
    let result = ctx.encrypt_frame(&rtp_hdr, payload, &mut out);
    assert!(matches!(result, Err(SFrameError::KeyNotFound(5))));
}

#[test]
fn sframe_ciphertext_differs_from_payload() {
    let mut ctx = make_context();
    let rtp_hdr = [0u8; 12];
    let payload = [0x55u8; 32];
    let mut out = vec![0u8; 128];
    let n = ctx.encrypt_frame(&rtp_hdr, &payload, &mut out).unwrap();
    assert_eq!(&out[..12], &rtp_hdr[..]);
    assert_ne!(&out[17..17 + 32], &payload[..]);
    assert_eq!(n, 12 + 5 + 32 + 16);
}

#[test]
fn sframe_output_too_small() {
    let mut ctx = make_context();
    let mut out = vec![0u8; 20];
    let result = ctx.encrypt_frame(&[0u8; 12], &[1u8; 16], &mut out);
    assert!(matches!(result, Err(SFrameError::BufferTooSmall)));
}

#[test]
fn dtls_endpoint_random_is_drawn() {
    let a = DtlsEndpoint::new(DtlsRole::Client).unwrap();
    let b = DtlsEndpoint::new(DtlsRole::Client).unwrap();
    assert!(a.local_random().iter().any(|&x| x != 0));
    assert_ne!(a.local_random(), b.local_random());
}

fn keyed_pair() -> (DtlsContext, DtlsContext) {
    let mut client = DtlsContext::new(DtlsRole::Client);
    let mut server = DtlsContext::new(DtlsRole::Server);
    let master = [0x42u8; 48];
    let client_random = [0x01u8; 32];
    let server_random = [0x02u8; 32];
    client.set_security_parameters(DtlsSecurityParameters::new(
        DtlsCipherSuite::aes_128_gcm_sha256(),
        master,
        &client_random,
        &server_random,
    ));
    server.set_security_parameters(DtlsSecurityParameters::new(
        DtlsCipherSuite::aes_128_gcm_sha256(),
        master,
        &client_random,
        &server_random,
    ));
    (client, server)
}

#[test]
fn dtls_encrypt_decrypt_roundtrip() {
    let mut client = DtlsContext::new(DtlsRole::Client);
    let mut server = DtlsContext::new(DtlsRole::Server);

    let master = [0x42u8; 48];
    let client_random = [0x01u8; 32];
    let server_random = [0x02u8; 32];

    let client_params = DtlsSecurityParameters::new(
        DtlsCipherSuite::aes_128_gcm_sha256(),
        master,
        &client_random,
        &server_random,
    );
    let server_params = DtlsSecurityParameters::new(
        DtlsCipherSuite::aes_128_gcm_sha256(),
        master,
        &client_random,
        &server_random,
    );

    client.set_security_parameters(client_params);
    server.set_security_parameters(server_params);

    let plaintext = b"Hello, DTLS!";
    let mut encrypted = vec![0u8; 256];
    let _enc_len = client.encrypt_record(plaintext, &mut encrypted).unwrap();

    let hdr = DtlsRecordHeader::parse(&encrypted).unwrap();
    let record = &encrypted[..13 + hdr.length as usize];

    let mut decrypted = vec![0u8; 256];
    let dec_len = server.decrypt_record(record, &mut decrypted).unwrap();

    assert_eq!(&decrypted[..dec_len], plaintext);
}

#[test]
fn dtls_record_layout_and_sequence() {
    let (mut client, _) = keyed_pair();
    let mut out = [0u8; 64];
    let n = client.encrypt_record(b"abc", &mut out).unwrap();
    assert_eq!(n, 40);
    let hdr = DtlsRecordHeader::parse(&out).unwrap();
    assert_eq!(hdr.content_type, CONTENT_TYPE_APPLICATION_DATA);
    assert_eq!(hdr.version, DTLS_VERSION_1_2);
    assert_eq!(hdr.epoch, 1);
    assert_eq!(hdr.sequence_number, 0);
    assert_eq!(hdr.length, 27);
    assert_eq!(&out[13..21], &[0u8; 8]);
    assert_ne!(&out[21..24], b"abc");
    let n2 = client.encrypt_record(b"abc", &mut out).unwrap();
    assert_eq!(n2, 40);
    let hdr2 = DtlsRecordHeader::parse(&out).unwrap();
    assert_eq!(hdr2.sequence_number, 1);
    assert_eq!(&out[13..21], &[0, 0, 0, 0, 0, 0, 0, 1]);
}

#[test]
fn dtls_tampered_record_fails() {
    let (mut client, mut server) = keyed_pair();
    let mut enc = [0u8; 64];
    let n = client.encrypt_record(b"payload", &mut enc).unwrap();
    enc[22] ^= 0x01;
    let mut dec = [0u8; 64];
    assert!(matches!(server.decrypt_record(&enc[..n], &mut dec), Err(DtlsError::DecryptionFailed)));
}

#[test]
fn dtls_record_errors() {
    let (mut client, mut server) = keyed_pair();
    let mut small = [0u8; 20];
    assert!(matches!(client.encrypt_record(b"abc", &mut small), Err(DtlsError::EncryptionFailed)));
    let mut out = [0u8; 64];
    assert!(matches!(server.decrypt_record(&[23u8; 10], &mut out), Err(DtlsError::InvalidRecord)));
    let mut rec = [0u8; 40];
    rec[0] = 22;
    assert!(matches!(server.decrypt_record(&rec, &mut out), Err(DtlsError::InvalidContentType)));
    let mut short = [0u8; 30];
    short[0] = 23;
    assert!(matches!(server.decrypt_record(&short, &mut out), Err(DtlsError::InvalidRecord)));
    let mut enc = [0u8; 64];
    let n = client.encrypt_record(b"hello", &mut enc).unwrap();
    let mut tiny = [0u8; 2];
    assert!(matches!(server.decrypt_record(&enc[..n], &mut tiny), Err(DtlsError::DecryptionFailed)));
}

#[test]
fn dtls_endpoint_records_after_handshake() {
    let mut a = DtlsEndpoint::new(DtlsRole::Client).unwrap();
    let mut b = DtlsEndpoint::new(DtlsRole::Server).unwrap();
    a.handshake_complete([0u8; 48]);
    b.handshake_complete([0u8; 48]);
    assert!(a.is_connected());
    let mut enc = [0u8; 64];
    let n = a.encrypt(b"media", &mut enc).unwrap();
    let mut dec = [0u8; 64];
    let m = b.decrypt(&enc[..n], &mut dec).unwrap();
    assert_eq!(&dec[..m], b"media");
}

#[test]
fn client_hello_generation() {
    let mut handshake = DtlsHandshake::new_server().unwrap();
    handshake.role = DtlsRole::Client;
    assert_eq!(handshake.state, HandshakeState::Initial);
    let hello = handshake.create_client_hello().unwrap();
    assert!(hello.len() > 0);
    assert_eq!(handshake.state, HandshakeState::ClientHelloSent);
}
