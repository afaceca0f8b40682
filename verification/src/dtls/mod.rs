//! DTLS 1.2 record layer: record headers, cipher suites, key derivation
//! and the per-connection context.
pub mod handshake;

use vstd::prelude::*;
use vstd::string::StringSliceAdditionalSpecFns;
use crate::crypto::{
    aes128_gcm_open, aes128_gcm_open_in_place, aes128_gcm_seal, aes128_gcm_seal_in_place, hkdf_sha256, hkdf_sha256_fill,
    system_random_fill, AES_GCM_C_MAX, AES_GCM_P_MAX,
};
use crate::text::owned;
use crate::wire::{
    be16, be32, be64, copy_into, lemma_be16_roundtrip, lemma_be32_roundtrip, push_all, push_u64, read_u16, read_u32,
    sub_vec, to_vec, u16_be, u32_be, write_u16, write_u32, zeros,
};

verus! {

pub const DTLS_VERSION_1_2: u16 = 0xfefd;

pub const DTLS_VERSION_1_0: u16 = 0xfeff;

pub const CONTENT_TYPE_CHANGE_CIPHER_SPEC: u8 = 20;

pub const CONTENT_TYPE_ALERT: u8 = 21;

pub const CONTENT_TYPE_HANDSHAKE: u8 = 22;

pub const CONTENT_TYPE_APPLICATION_DATA: u8 = 23;

pub const HANDSHAKE_TYPE_CLIENT_HELLO: u8 = 1;

pub const HANDSHAKE_TYPE_SERVER_HELLO: u8 = 2;

pub const HANDSHAKE_TYPE_HELLO_VERIFY_REQUEST: u8 = 3;

pub const HANDSHAKE_TYPE_CERTIFICATE: u8 = 11;

pub const HANDSHAKE_TYPE_SERVER_KEY_EXCHANGE: u8 = 12;

pub const HANDSHAKE_TYPE_CERTIFICATE_REQUEST: u8 = 13;

pub const HANDSHAKE_TYPE_SERVER_HELLO_DONE: u8 = 14;

pub const HANDSHAKE_TYPE_CERTIFICATE_VERIFY: u8 = 15;

pub const HANDSHAKE_TYPE_CLIENT_KEY_EXCHANGE: u8 = 16;

pub const HANDSHAKE_TYPE_FINISHED: u8 = 20;

/// Length of a record header on the wire.
pub const RECORD_HEADER_LEN: usize = 13;

#[derive(Debug)]
pub enum DtlsError {
    InvalidRecord,
    InvalidVersion,
    InvalidContentType,
    HandshakeFailed,
    DecryptionFailed,
    EncryptionFailed,
    InvalidState,
    MacFailed,
    KeyDerivation,
}

#[derive(Clone, Copy, Debug, PartialEq, Eq, Structural)]
pub enum DtlsRole {
    Client,
    Server,
}

#[derive(Clone, Copy, Debug, PartialEq, Eq, Structural)]
pub enum DtlsState {
    Closed,
    Connecting,
    Connected,
    Failed,
}

impl Default for DtlsState {
    fn default() -> (s: Self)
        ensures
            s == DtlsState::Closed,
    {
        DtlsState::Closed
    }
}

#[derive(Clone, Copy, Debug, PartialEq, Eq, Structural)]
pub struct DtlsRecordHeader {
    pub content_type: u8,
    pub version: u16,
    pub epoch: u16,
    pub sequence_number: u64,
    pub length: u16,
}

/// The header read from the first 13 bytes: content type, version, epoch,
/// a 48-bit sequence number and the length, all big-endian.
pub open spec fn header_of(b: Seq<u8>) -> DtlsRecordHeader {
    DtlsRecordHeader {
        content_type: b[0],
        version: u16_be(b[1], b[2]),
        epoch: u16_be(b[3], b[4]),
        sequence_number: (u16_be(b[5], b[6]) * 0x1_0000_0000 + u32_be(b[7], b[8], b[9], b[10])) as u64,
        length: u16_be(b[11], b[12]),
    }
}

/// The 13 bytes of a header: the sequence number contributes its low six
/// bytes.
pub open spec fn header_bytes(h: DtlsRecordHeader) -> Seq<u8> {
    seq![h.content_type] + be16(h.version) + be16(h.epoch) + be64(h.sequence_number).subrange(2, 8) + be16(
        h.length,
    )
}

/// Reading back the bytes of a header gives the header, when its sequence
/// number fits the 48 bits a record carries.
pub proof fn record_header_roundtrip_law(h: DtlsRecordHeader, rest: Seq<u8>)
    requires
        h.sequence_number < 0x1_0000_0000_0000,
    ensures
        header_of(header_bytes(h) + rest) == h,
{
    let b = header_bytes(h) + rest;
    let hi = (h.sequence_number / 0x1_0000_0000) as u32;
    let lo = (h.sequence_number % 0x1_0000_0000) as u32;
    lemma_be16_roundtrip(h.version);
    lemma_be16_roundtrip(h.epoch);
    lemma_be16_roundtrip(h.length);
    lemma_be32_roundtrip(lo);
    assert(b[5] == be32(hi)[2]);
    assert(b[6] == be32(hi)[3]);
    assert(u16_be(b[5], b[6]) == hi);
    assert(u32_be(b[7], b[8], b[9], b[10]) == lo);
}

/// The low six big-endian bytes of a sequence number are its bits 32..48
/// followed by its low 32 bits.
proof fn lemma_low_six_bytes(seq: u64)
    ensures
        be64(seq).subrange(2, 8) == be16(((seq / 0x1_0000_0000) % 0x1_0000) as u16) + be32(
            (seq % 0x1_0000_0000) as u32,
        ),
{
    let hi32 = (seq / 0x1_0000_0000) as u32;
    let hi = ((seq / 0x1_0000_0000) % 0x1_0000) as u16;
    assert(be32(hi32)[2] == be16(hi)[0]);
    assert(be32(hi32)[3] == be16(hi)[1]);
    assert(be64(seq).subrange(2, 8) =~= be16(hi) + be32((seq % 0x1_0000_0000) as u32));
}

impl DtlsRecordHeader {
    pub fn parse(buf: &[u8]) -> (r: Option<Self>)
        ensures
            r == (if buf@.len() < RECORD_HEADER_LEN { None } else { Some(header_of(buf@)) }),
    {
        if buf.len() < RECORD_HEADER_LEN {
            return None;
        }
        let hi = read_u16(buf, 5) as u64;
        let lo = read_u32(buf, 7) as u64;
        Some(
            DtlsRecordHeader {
                content_type: buf[0],
                version: read_u16(buf, 1),
                epoch: read_u16(buf, 3),
                sequence_number: hi * 0x1_0000_0000 + lo,
                length: read_u16(buf, 11),
            },
        )
    }

    /// Writes the header into the first 13 bytes of `buf`; `None`, with
    /// nothing written, when it is shorter.
    #[verifier::rlimit(40)]
    pub fn write_into(&self, buf: &mut [u8]) -> (r: Option<usize>)
        ensures
            old(buf)@.len() < RECORD_HEADER_LEN ==> r is None && final(buf)@ == old(buf)@,
            old(buf)@.len() >= RECORD_HEADER_LEN ==> r == Some(RECORD_HEADER_LEN) && final(buf)@ == header_bytes(*self)
                + old(buf)@.subrange(13, old(buf)@.len() as int),
    {
        if buf.len() < RECORD_HEADER_LEN {
            return None;
        }
        let seq = self.sequence_number;
        let hi = ((seq / 0x1_0000_0000) % 0x1_0000) as u16;
        let lo = (seq % 0x1_0000_0000) as u32;
        buf[0] = self.content_type;
        write_u16(buf, 1, self.version);
        write_u16(buf, 3, self.epoch);
        write_u16(buf, 5, hi);
        write_u32(buf, 7, lo);
        write_u16(buf, 11, self.length);
        proof {
            lemma_low_six_bytes(seq);
        }
        assert(buf@ =~= header_bytes(*self) + old(buf)@.subrange(13, old(buf)@.len() as int));
        Some(RECORD_HEADER_LEN)
    }
}

#[derive(Clone, Debug, Default)]
pub struct DtlsCipherSuite {
    pub id: u16,
    pub name: String,
    pub key_len: usize,
    pub iv_len: usize,
    pub mac_len: usize,
}

impl DtlsCipherSuite {
    pub fn aes_128_gcm_sha256() -> (s: Self)
        ensures
            s.id == 0xc02b,
            s.name@ == "TLS_ECDHE_ECDSA_WITH_AES_128_GCM_SHA256"@,
            s.key_len == 16,
            s.iv_len == 12,
            s.mac_len == 0,
    {
        DtlsCipherSuite {
            id: 0xc02b,
            name: owned("TLS_ECDHE_ECDSA_WITH_AES_128_GCM_SHA256"),
            key_len: 16,
            iv_len: 12,
            mac_len: 0,
        }
    }

    pub fn aes_256_gcm_sha384() -> (s: Self)
        ensures
            s.id == 0xc02c,
            s.name@ == "TLS_ECDHE_ECDSA_WITH_AES_256_GCM_SHA384"@,
            s.key_len == 32,
            s.iv_len == 12,
            s.mac_len == 0,
    {
        DtlsCipherSuite {
            id: 0xc02c,
            name: owned("TLS_ECDHE_ECDSA_WITH_AES_256_GCM_SHA384"),
            key_len: 32,
            iv_len: 12,
            mac_len: 0,
        }
    }
}

/// The key material expansion: ring's HKDF-SHA256 of `label ++ seed` under
/// `secret` when `length` is the 32 bytes that HKDF-SHA256 fills; any other
/// length is left all zero.
pub open spec fn prf_output(secret: Seq<u8>, label: Seq<u8>, seed: Seq<u8>, length: nat) -> Seq<u8> {
    if length == 32 {
        hkdf_sha256(secret, Seq::empty(), label + seed)
    } else {
        zeros(length)
    }
}

pub struct DtlsSecurityParameters {
    _cipher_suite: DtlsCipherSuite,
    client_write_key: Vec<u8>,
    server_write_key: Vec<u8>,
    client_write_iv: Vec<u8>,
    server_write_iv: Vec<u8>,
    master_secret: [u8; 48],
}

impl DtlsSecurityParameters {
    pub closed spec fn spec_client_write_key(&self) -> Seq<u8> {
        self.client_write_key@
    }

    pub closed spec fn spec_server_write_key(&self) -> Seq<u8> {
        self.server_write_key@
    }

    pub closed spec fn spec_client_write_iv(&self) -> Seq<u8> {
        self.client_write_iv@
    }

    pub closed spec fn spec_server_write_iv(&self) -> Seq<u8> {
        self.server_write_iv@
    }

    pub closed spec fn spec_master_secret(&self) -> Seq<u8> {
        self.master_secret@
    }

    /// Splits the expanded key block (`2 * key_len + 2 * iv_len` bytes, from
    /// the master secret, the label "key expansion" and the server random
    /// followed by the client random) into the client key, the server key,
    /// the client IV and the server IV.
    pub fn new(cipher_suite: DtlsCipherSuite, master_secret: [u8; 48], client_random: &[u8; 32], server_random: &[u8; 32]) -> (p: Self)
        requires
            cipher_suite.key_len * 2 + cipher_suite.iv_len * 2 <= usize::MAX,
        ensures
            ({
                let k = cipher_suite.key_len as int;
                let v = cipher_suite.iv_len as int;
                let kb = prf_output(
                    master_secret@,
                    "key expansion".spec_bytes(),
                    server_random@ + client_random@,
                    (2 * k + 2 * v) as nat,
                );
                &&& p.spec_client_write_key() == kb.subrange(0, k)
                &&& p.spec_server_write_key() == kb.subrange(k, 2 * k)
                &&& p.spec_client_write_iv() == kb.subrange(2 * k, 2 * k + v)
                &&& p.spec_server_write_iv() == kb.subrange(2 * k + v, 2 * k + 2 * v)
                &&& p.spec_master_secret() == master_secret@
            }),
    {
        let mut seed: Vec<u8> = Vec::new();
        push_all(&mut seed, server_random.as_slice());
        push_all(&mut seed, client_random.as_slice());
        let k = cipher_suite.key_len;
        let v = cipher_suite.iv_len;
        let key_block = Self::prf(&master_secret, "key expansion".as_bytes(), seed.as_slice(), k * 2 + v * 2);
        let client_write_key = sub_vec(key_block.as_slice(), 0, k);
        let server_write_key = sub_vec(key_block.as_slice(), k, k * 2);
        let offset = k * 2;
        let client_write_iv = sub_vec(key_block.as_slice(), offset, offset + v);
        let server_write_iv = sub_vec(key_block.as_slice(), offset + v, key_block.len());
        DtlsSecurityParameters {
            _cipher_suite: cipher_suite,
            client_write_key,
            server_write_key,
            client_write_iv,
            server_write_iv,
            master_secret,
        }
    }

    fn prf(secret: &[u8; 48], label: &[u8], seed: &[u8], length: usize) -> (out: Vec<u8>)
        ensures
            out@ == prf_output(secret@, label@, seed@, length as nat),
            out@.len() == length,
    {
        let mut info: Vec<u8> = Vec::new();
        push_all(&mut info, label);
        push_all(&mut info, seed);
        let mut out: Vec<u8> = Vec::new();
        crate::wire::push_zeros(&mut out, length);
        let empty: [u8; 0] = [];
        let _ = hkdf_sha256_fill(secret.as_slice(), empty.as_slice(), info.as_slice(), out.as_mut_slice());
        assert(empty@ =~= Seq::<u8>::empty());
        assert(out@.len() == length);
        assert(length != 32 ==> out@ =~= zeros(length as nat));
        out
    }

    /// The SRTP master key and salt: the first 16 and the next 14 bytes of
    /// a 60-byte expansion of the master secret under the label
    /// "EXTRACTOR-dtls_srtp" (all zero, as the expansion fills only 32
    /// bytes).
    pub fn srtp_master_key_and_salt(&self) -> (r: Result<([u8; 16], [u8; 14]), DtlsError>)
        ensures
            match r {
                Ok((key, salt)) => {
                    let kb = prf_output(self.spec_master_secret(), "EXTRACTOR-dtls_srtp".spec_bytes(), Seq::empty(), 60);
                    &&& key@ == kb.subrange(0, 16)
                    &&& salt@ == kb.subrange(16, 30)
                    &&& key@ == zeros(16)
                    &&& salt@ == zeros(14)
                },
                Err(_) => false,
            },
    {
        let empty: [u8; 0] = [];
        let key_block = Self::prf(&self.master_secret, "EXTRACTOR-dtls_srtp".as_bytes(), empty.as_slice(), 60);
        assert(empty@ =~= Seq::<u8>::empty());
        let key: [u8; 16] = [
            key_block[0], key_block[1], key_block[2], key_block[3], key_block[4], key_block[5], key_block[6],
            key_block[7], key_block[8], key_block[9], key_block[10], key_block[11], key_block[12], key_block[13],
            key_block[14], key_block[15],
        ];
        let salt: [u8; 14] = [
            key_block[16], key_block[17], key_block[18], key_block[19], key_block[20], key_block[21], key_block[22],
            key_block[23], key_block[24], key_block[25], key_block[26], key_block[27], key_block[28], key_block[29],
        ];
        assert(key@ =~= key_block@.subrange(0, 16));
        assert(salt@ =~= key_block@.subrange(16, 30));
        assert(key@ =~= zeros(16));
        assert(salt@ =~= zeros(14));
        Ok((key, salt))
    }
}

/// Two sets of parameters with the same master secret give the same SRTP
/// master key and salt.
pub proof fn srtp_keys_determined_law(p1: DtlsSecurityParameters, p2: DtlsSecurityParameters)
    requires
        p1.spec_master_secret() == p2.spec_master_secret(),
    ensures
        prf_output(p1.spec_master_secret(), "EXTRACTOR-dtls_srtp".spec_bytes(), Seq::empty(), 60) == prf_output(
            p2.spec_master_secret(),
            "EXTRACTOR-dtls_srtp".spec_bytes(),
            Seq::empty(),
            60,
        ),
        prf_output(p1.spec_master_secret(), "EXTRACTOR-dtls_srtp".spec_bytes(), Seq::empty(), 60) == zeros(60),
{
}

/// The 12-byte AEAD nonce of a record: the first four bytes of the write IV
/// (zero where the IV is shorter) followed by the 8-byte explicit nonce the
/// record carries.
pub open spec fn record_nonce(iv: Seq<u8>, explicit: Seq<u8>) -> Seq<u8> {
    Seq::new(4, |i: int| if i < iv.len() { iv[i] } else { 0u8 }) + explicit
}

/// The header of an application-data record protecting `len` bytes: the
/// length covers the explicit nonce, the ciphertext and the tag.
pub open spec fn app_data_header(epoch: u16, seq: u64, len: nat) -> DtlsRecordHeader {
    DtlsRecordHeader {
        content_type: CONTENT_TYPE_APPLICATION_DATA,
        version: DTLS_VERSION_1_2,
        epoch,
        sequence_number: seq,
        length: ((len + 24) % 0x1_0000) as u16,
    }
}

/// The bytes of a protected record: the header, the sequence number as the
/// explicit nonce, then the AES-128-GCM ciphertext and tag of `pt` under
/// `key`, with no associated data.
pub open spec fn sealed_record(key: Seq<u8>, iv: Seq<u8>, epoch: u16, seq: u64, pt: Seq<u8>) -> Seq<u8> {
    let s = aes128_gcm_seal(key, record_nonce(iv, be64(seq)), Seq::empty(), pt);
    header_bytes(app_data_header(epoch, seq, pt.len())) + be64(seq) + s.0 + s.1
}

/// The nonce of `record_nonce`, for the explicit nonce at `off` in `explicit`.
fn record_nonce_bytes(iv: &[u8], explicit: &[u8], off: usize) -> (n: [u8; 12])
    requires
        off + 8 <= explicit@.len(),
    ensures
        n@ == record_nonce(iv@, explicit@.subrange(off as int, off + 8)),
{
    let b0 = if iv.len() > 0 { iv[0] } else { 0u8 };
    let b1 = if iv.len() > 1 { iv[1] } else { 0u8 };
    let b2 = if iv.len() > 2 { iv[2] } else { 0u8 };
    let b3 = if iv.len() > 3 { iv[3] } else { 0u8 };
    let n: [u8; 12] = [
        b0, b1, b2, b3, explicit[off], explicit[off + 1], explicit[off + 2], explicit[off + 3], explicit[off + 4],
        explicit[off + 5], explicit[off + 6], explicit[off + 7],
    ];
    assert(n@ =~= record_nonce(iv@, explicit@.subrange(off as int, off + 8)));
    n
}

/// The 16 bytes of `src` at `off`.
fn bytes16_at(src: &[u8], off: usize) -> (a: [u8; 16])
    requires
        off + 16 <= src@.len(),
    ensures
        a@ == src@.subrange(off as int, off + 16),
{
    let a: [u8; 16] = [
        src[off], src[off + 1], src[off + 2], src[off + 3], src[off + 4], src[off + 5], src[off + 6], src[off + 7],
        src[off + 8], src[off + 9], src[off + 10], src[off + 11], src[off + 12], src[off + 13], src[off + 14],
        src[off + 15],
    ];
    assert(a@ =~= src@.subrange(off as int, off + 16));
    a
}

pub struct DtlsContext {
    role: DtlsRole,
    state: DtlsState,
    epoch: u16,
    send_seq: u64,
    recv_seq: u64,
    /// The AES-128-GCM key this side writes with, once set.
    cipher: Option<[u8; 16]>,
    security_params: Option<DtlsSecurityParameters>,
}

/// Two contexts agree on everything but their sequence numbers.
pub open spec fn same_but_sequences(a: DtlsContext, b: DtlsContext) -> bool {
    &&& a.spec_role() == b.spec_role()
    &&& a.spec_state() == b.spec_state()
    &&& a.spec_epoch() == b.spec_epoch()
    &&& a.cipher_key() == b.cipher_key()
    &&& a.params() == b.params()
}

/// What `encrypt_record` does to the context `c0`, the output buffer `out0`
/// and the result: without a cipher or keys the state is invalid; an output
/// shorter than the record (13 + 8 + payload + 16 bytes), or a plaintext
/// longer than AES-GCM seals, fails; otherwise the buffer starts with the
/// sealed record, its length is returned and the send sequence number goes
/// up by one (wrapping). Failures change nothing.
pub open spec fn encrypt_post(
    c0: DtlsContext,
    c1: DtlsContext,
    pt: Seq<u8>,
    out0: Seq<u8>,
    out1: Seq<u8>,
    r: Result<usize, DtlsError>,
) -> bool {
    let keyed = c0.cipher_key() is Some && c0.params() is Some;
    let fits = out0.len() >= pt.len() + 37;
    let sealable = pt.len() <= AES_GCM_P_MAX;
    &&& !keyed ==> (r matches Err(DtlsError::InvalidState))
    &&& keyed && !(fits && sealable) ==> (r matches Err(DtlsError::EncryptionFailed))
    &&& r is Err ==> c1 == c0 && out1 == out0
    &&& keyed && fits && sealable ==> {
        &&& r == Ok::<usize, DtlsError>((pt.len() + 37) as usize)
        &&& aes128_gcm_seal(c0.cipher_key()->0, record_nonce(c0.write_iv(), be64(c0.spec_send_seq())), Seq::empty(), pt).0.len()
            == pt.len()
        &&& aes128_gcm_seal(c0.cipher_key()->0, record_nonce(c0.write_iv(), be64(c0.spec_send_seq())), Seq::empty(), pt).1.len()
            == 16
        &&& out1 == sealed_record(c0.cipher_key()->0, c0.write_iv(), c0.spec_epoch(), c0.spec_send_seq(), pt)
            + out0.subrange(pt.len() + 37int, out0.len() as int)
        &&& same_but_sequences(c1, c0)
        &&& c1.spec_recv_seq() == c0.spec_recv_seq()
        &&& c1.spec_send_seq() == (if c0.spec_send_seq() == u64::MAX { 0 } else { (c0.spec_send_seq() + 1) as u64 })
    }
}

/// What `decrypt_record` does to the context `c0`, the output buffer `out0`
/// and the result. It checks, in order: a cipher and keys are set (else the
/// state is invalid), the header parses and the payload holds the 8-byte
/// explicit nonce and the 16-byte tag (else the record is invalid, unless
/// the content type is not application data), `out` holds the ciphertext
/// and the peer's write key is an AES-128 key (else decryption fails). It
/// then opens the ciphertext with the peer's write key and a nonce made of
/// the peer's write IV and the explicit nonce; the ciphertext is left in
/// `out` and decryption fails when the tag does not authenticate it.
/// Otherwise `out` starts with the plaintext, its length is returned and
/// the receive sequence number becomes the record's plus one.
pub open spec fn decrypt_post(
    c0: DtlsContext,
    c1: DtlsContext,
    rec: Seq<u8>,
    out0: Seq<u8>,
    out1: Seq<u8>,
    r: Result<usize, DtlsError>,
) -> bool {
    let keyed = c0.cipher_key() is Some && c0.params() is Some;
    let n = rec.len();
    let ct_len = n - 37;
    let ct = rec.subrange(21, n - 16);
    let tag = rec.subrange(n - 16, n as int);
    let nonce = record_nonce(c0.peer_iv(), rec.subrange(13, 21));
    let kp = c0.peer_key();
    let opened = aes128_gcm_open(kp, nonce, Seq::empty(), ct, tag);
    let checked = keyed && n >= RECORD_HEADER_LEN + 24 && rec[0] == CONTENT_TYPE_APPLICATION_DATA;
    let usable = checked && out0.len() >= ct_len && kp.len() == 16;
    &&& !keyed ==> (r matches Err(DtlsError::InvalidState))
    &&& keyed && n < RECORD_HEADER_LEN ==> (r matches Err(DtlsError::InvalidRecord))
    &&& keyed && n >= RECORD_HEADER_LEN && rec[0] != CONTENT_TYPE_APPLICATION_DATA ==> (r matches Err(DtlsError::InvalidContentType))
    &&& keyed && RECORD_HEADER_LEN <= n < RECORD_HEADER_LEN + 24 && rec[0] == CONTENT_TYPE_APPLICATION_DATA ==> (r matches Err(DtlsError::InvalidRecord))
    &&& checked && !usable ==> (r matches Err(DtlsError::DecryptionFailed))
    &&& !usable ==> c1 == c0 && out1 == out0
    &&& usable ==> (r is Ok <==> ct.len() <= AES_GCM_C_MAX && opened is Some)
    &&& usable && r is Err ==> (r matches Err(DtlsError::DecryptionFailed)) && c1 == c0 && out1 == ct
        + out0.subrange(ct_len, out0.len() as int)
    &&& usable && r is Ok ==> {
        &&& r == Ok::<usize, DtlsError>(ct_len as usize)
        &&& out1 == opened->0 + out0.subrange(ct_len, out0.len() as int)
        &&& same_but_sequences(c1, c0)
        &&& c1.spec_send_seq() == c0.spec_send_seq()
        &&& c1.spec_recv_seq() == header_of(rec).sequence_number + 1
    }
    &&& usable ==> forall|pt: Seq<u8>|
        #![trigger aes128_gcm_seal(kp, nonce, Seq::empty(), pt)]
        aes128_gcm_seal(kp, nonce, Seq::empty(), pt) == (ct, tag) && pt.len() <= AES_GCM_P_MAX ==> r == Ok::<
            usize,
            DtlsError,
        >(pt.len() as usize) && out1.take(pt.len() as int) == pt
}

/// A record sealed by one side opens, to its plaintext, at a side whose
/// peer key and IV are the sealing side's write key and IV.
pub proof fn record_roundtrip_law(
    c0: DtlsContext,
    c1: DtlsContext,
    pt: Seq<u8>,
    out0: Seq<u8>,
    out1: Seq<u8>,
    r: Result<usize, DtlsError>,
    d0: DtlsContext,
    d1: DtlsContext,
    o0: Seq<u8>,
    o1: Seq<u8>,
    r2: Result<usize, DtlsError>,
)
    requires
        encrypt_post(c0, c1, pt, out0, out1, r),
        r is Ok,
        decrypt_post(d0, d1, out1.take(pt.len() + 37int), o0, o1, r2),
        d0.cipher_key() is Some,
        d0.params() is Some,
        d0.peer_key() == c0.cipher_key()->0,
        d0.peer_iv() == c0.write_iv(),
        o0.len() >= pt.len(),
    ensures
        r2 == Ok::<usize, DtlsError>(pt.len() as usize),
        o1.take(pt.len() as int) == pt,
{
    let k = c0.cipher_key()->0;
    let seq = c0.spec_send_seq();
    let nonce = record_nonce(c0.write_iv(), be64(seq));
    let sl = aes128_gcm_seal(k, nonce, Seq::empty(), pt);
    let n = pt.len() + 37int;
    let rec = out1.take(n);
    let h = header_bytes(app_data_header(c0.spec_epoch(), seq, pt.len()));
    assert(h.len() == 13);
    crate::wire::lemma_be64_roundtrip(seq);
    let sr = sealed_record(k, c0.write_iv(), c0.spec_epoch(), seq, pt);
    assert(sr == h + be64(seq) + sl.0 + sl.1);
    assert(sr.len() == n);
    assert(rec =~= sr);
    assert(rec[0] == CONTENT_TYPE_APPLICATION_DATA);
    assert(rec.subrange(13, 21) =~= be64(seq));
    assert(rec.subrange(21, n - 16) =~= sl.0);
    assert(rec.subrange(n - 16, n as int) =~= sl.1);
    assert(k.len() == 16);
    assert(aes128_gcm_seal(d0.peer_key(), record_nonce(d0.peer_iv(), rec.subrange(13, 21)), Seq::empty(), pt) == (
    rec.subrange(21, n - 16), rec.subrange(n - 16, n as int)));
}

impl DtlsContext {
    pub closed spec fn spec_role(&self) -> DtlsRole {
        self.role
    }

    pub closed spec fn spec_state(&self) -> DtlsState {
        self.state
    }

    pub closed spec fn spec_epoch(&self) -> u16 {
        self.epoch
    }

    pub closed spec fn spec_send_seq(&self) -> u64 {
        self.send_seq
    }

    pub closed spec fn spec_recv_seq(&self) -> u64 {
        self.recv_seq
    }

    /// The key of the cipher, when one is set.
    pub closed spec fn cipher_key(&self) -> Option<Seq<u8>> {
        match self.cipher {
            Some(k) => Some(k@),
            None => None,
        }
    }

    pub closed spec fn params(&self) -> Option<DtlsSecurityParameters> {
        self.security_params
    }

    /// The IV this side writes with.
    pub open spec fn write_iv(&self) -> Seq<u8> {
        match self.params() {
            Some(p) => if self.spec_role() == DtlsRole::Client {
                p.spec_client_write_iv()
            } else {
                p.spec_server_write_iv()
            },
            None => Seq::empty(),
        }
    }

    /// The key the peer writes with.
    pub open spec fn peer_key(&self) -> Seq<u8> {
        match self.params() {
            Some(p) => if self.spec_role() == DtlsRole::Client {
                p.spec_server_write_key()
            } else {
                p.spec_client_write_key()
            },
            None => Seq::empty(),
        }
    }

    /// The IV the peer writes with.
    pub open spec fn peer_iv(&self) -> Seq<u8> {
        match self.params() {
            Some(p) => if self.spec_role() == DtlsRole::Client {
                p.spec_server_write_iv()
            } else {
                p.spec_client_write_iv()
            },
            None => Seq::empty(),
        }
    }

    pub fn new(role: DtlsRole) -> (c: Self)
        ensures
            c.spec_role() == role,
            c.spec_state() == DtlsState::Closed,
            c.spec_epoch() == 0,
            c.spec_send_seq() == 0,
            c.spec_recv_seq() == 0,
            c.cipher_key() is None,
            c.params() is None,
    {
        DtlsContext {
            role,
            state: DtlsState::Closed,
            epoch: 0,
            send_seq: 0,
            recv_seq: 0,
            cipher: None,
            security_params: None,
        }
    }

    pub fn state(&self) -> (s: DtlsState)
        ensures
            s == self.spec_state(),
    {
        self.state
    }

    pub fn is_connected(&self) -> (b: bool)
        ensures
            b == (self.spec_state() == DtlsState::Connected),
    {
        self.state == DtlsState::Connected
    }

    pub fn role(&self) -> (r: DtlsRole)
        ensures
            r == self.spec_role(),
    {
        self.role
    }

    pub fn epoch(&self) -> (e: u16)
        ensures
            e == self.spec_epoch(),
    {
        self.epoch
    }

    /// Installs the keys: the cipher is keyed with this side's write key
    /// when it is 16 bytes long (otherwise the cipher stays as it was), and
    /// the epoch becomes 1.
    pub fn set_security_parameters(&mut self, params: DtlsSecurityParameters)
        ensures
            ({
                let key = if old(self).spec_role() == DtlsRole::Client {
                    params.spec_client_write_key()
                } else {
                    params.spec_server_write_key()
                };
                &&& final(self).cipher_key() == (if key.len() == 16 { Some(key) } else { old(self).cipher_key() })
                &&& final(self).params() == Some(params)
                &&& final(self).spec_epoch() == 1
                &&& final(self).spec_role() == old(self).spec_role()
                &&& final(self).spec_state() == old(self).spec_state()
                &&& final(self).spec_send_seq() == old(self).spec_send_seq()
                &&& final(self).spec_recv_seq() == old(self).spec_recv_seq()
            }),
    {
        let key = if self.role == DtlsRole::Client {
            params.client_write_key.as_slice()
        } else {
            params.server_write_key.as_slice()
        };
        if key.len() == 16 {
            self.cipher = Some(bytes16_at(key, 0));
            assert(key@.subrange(0, 16) =~= key@);
        }
        self.security_params = Some(params);
        self.epoch = 1;
    }

    /// Protects a record with AES-128-GCM under this side's write key. The
    /// nonce is the first four bytes of this side's write IV followed by the
    /// send sequence number, which the record also carries as its explicit
    /// nonce; there is no associated data.
    pub fn encrypt_record(&mut self, plaintext: &[u8], out: &mut [u8]) -> (r: Result<usize, DtlsError>)
        requires
            plaintext@.len() + 37 <= usize::MAX,
        ensures
            encrypt_post(*old(self), *final(self), plaintext@, old(out)@, final(out)@, r),
    {
        let key: [u8; 16] = match &self.cipher {
            Some(k) => *k,
            None => {
                return Err(DtlsError::InvalidState);
            },
        };
        let params = match &self.security_params {
            Some(p) => p,
            None => {
                return Err(DtlsError::InvalidState);
            },
        };
        if out.len() < plaintext.len() + 8 + 16 + 13 {
            return Err(DtlsError::EncryptionFailed);
        }
        let iv = if self.role == DtlsRole::Client {
            params.client_write_iv.as_slice()
        } else {
            params.server_write_iv.as_slice()
        };
        let seq = self.send_seq;
        let mut body: Vec<u8> = Vec::new();
        push_u64(&mut body, seq);
        assert(body@ =~= be64(seq));
        let nonce = record_nonce_bytes(iv, body.as_slice(), 0);
        assert(body@.subrange(0, 8) =~= be64(seq));
        let mut ct = to_vec(plaintext);
        let empty: [u8; 0] = [];
        assert(empty@ =~= Seq::<u8>::empty());
        let tag = match aes128_gcm_seal_in_place(&key, &nonce, empty.as_slice(), ct.as_mut_slice()) {
            Some(t) => t,
            None => {
                return Err(DtlsError::EncryptionFailed);
            },
        };
        let ghost sealed = aes128_gcm_seal(key@, nonce@, Seq::empty(), plaintext@);
        assert(ct@ == sealed.0 && tag@ == sealed.1);
        assert(sealed.0.len() == plaintext@.len() && sealed.1.len() == 16);
        let hdr = DtlsRecordHeader {
            content_type: CONTENT_TYPE_APPLICATION_DATA,
            version: DTLS_VERSION_1_2,
            epoch: self.epoch,
            sequence_number: seq,
            length: ((plaintext.len() + 24) % 0x1_0000) as u16,
        };
        assert(hdr == app_data_header(self.epoch, seq, plaintext@.len()));
        let _ = hdr.write_into(out);
        push_all(&mut body, ct.as_slice());
        push_all(&mut body, tag.as_slice());
        let ghost mid = out@;
        copy_into(out, RECORD_HEADER_LEN, body.as_slice());
        assert(out@ =~= sealed_record(key@, self.write_iv(), self.epoch, seq, plaintext@) + old(out)@.subrange(
            plaintext@.len() + 37int,
            old(out)@.len() as int,
        ));
        self.send_seq = if seq == u64::MAX {
            0
        } else {
            seq + 1
        };
        Ok(plaintext.len() + 37)
    }

    /// Opens an application-data record with AES-128-GCM under the peer's
    /// write key, the nonce being the first four bytes of the peer's write
    /// IV followed by the record's explicit nonce. A record that the peer's
    /// `encrypt_record` produced under the same keys opens to its plaintext.
    #[verifier::rlimit(40)]
    pub fn decrypt_record(&mut self, record: &[u8], out: &mut [u8]) -> (r: Result<usize, DtlsError>)
        ensures
            decrypt_post(*old(self), *final(self), record@, old(out)@, final(out)@, r),
    {
        if self.cipher.is_none() {
            return Err(DtlsError::InvalidState);
        }
        let params = match &self.security_params {
            Some(p) => p,
            None => {
                return Err(DtlsError::InvalidState);
            },
        };
        let hdr = match DtlsRecordHeader::parse(record) {
            Some(h) => h,
            None => {
                return Err(DtlsError::InvalidRecord);
            },
        };
        if hdr.content_type != CONTENT_TYPE_APPLICATION_DATA {
            return Err(DtlsError::InvalidContentType);
        }
        let n = record.len();
        if n - RECORD_HEADER_LEN < 8 + 16 {
            return Err(DtlsError::InvalidRecord);
        }
        let ct_len = n - RECORD_HEADER_LEN - 8 - 16;
        if out.len() < ct_len {
            return Err(DtlsError::DecryptionFailed);
        }
        let (kp, iv) = if self.role == DtlsRole::Client {
            (params.server_write_key.as_slice(), params.server_write_iv.as_slice())
        } else {
            (params.client_write_key.as_slice(), params.client_write_iv.as_slice())
        };
        if kp.len() != 16 {
            return Err(DtlsError::DecryptionFailed);
        }
        let key = bytes16_at(kp, 0);
        assert(kp@.subrange(0, 16) =~= kp@);
        let nonce = record_nonce_bytes(iv, record, RECORD_HEADER_LEN);
        let tag = bytes16_at(record, n - 16);
        let mut buf = sub_vec(record, RECORD_HEADER_LEN + 8, n - 16);
        let empty: [u8; 0] = [];
        assert(empty@ =~= Seq::<u8>::empty());
        let ok = aes128_gcm_open_in_place(&key, &nonce, empty.as_slice(), buf.as_mut_slice(), &tag);
        copy_into(out, 0, buf.as_slice());
        assert(out@.subrange(0, ct_len as int) =~= buf@);
        if !ok {
            return Err(DtlsError::DecryptionFailed);
        }
        assert(hdr.sequence_number < 0x1_0000_0000_0000);
        self.recv_seq = hdr.sequence_number + 1;
        Ok(ct_len)
    }

    /// The SRTP keying material of the installed keys, if any.
    pub fn srtp_keying_material(&self) -> (r: Option<([u8; 16], [u8; 14])>)
        ensures
            self.params() is None ==> r is None,
            self.params() is Some ==> (match r {
                Some((key, salt)) => key@ == zeros(16) && salt@ == zeros(14),
                None => false,
            }),
    {
        match &self.security_params {
            None => None,
            Some(p) => match p.srtp_master_key_and_salt() {
                Ok(ks) => Some(ks),
                Err(_) => None,
            },
        }
    }
}

pub struct DtlsEndpoint {
    context: DtlsContext,
    local_random: [u8; 32],
    remote_random: Option<[u8; 32]>,
    _pending_epoch: u16,
}

impl DtlsEndpoint {
    pub closed spec fn context(&self) -> DtlsContext {
        self.context
    }

    pub closed spec fn spec_local_random(&self) -> Seq<u8> {
        self.local_random@
    }

    pub closed spec fn spec_remote_random(&self) -> Option<Seq<u8>> {
        match self.remote_random {
            Some(r) => Some(r@),
            None => None,
        }
    }

    /// An endpoint with a fresh local random from the system generator;
    /// `None` when the generator fails.
    pub fn new(role: DtlsRole) -> (e: Option<Self>)
        ensures
            e is Some ==> {
                let c = e->0.context();
                &&& c.spec_role() == role
                &&& c.spec_state() == DtlsState::Closed
                &&& c.spec_epoch() == 0
                &&& c.cipher_key() is None
                &&& c.params() is None
                &&& e->0.spec_remote_random() is None
            },
    {
        let mut local_random = [0u8; 32];
        if !system_random_fill(&mut local_random) {
            return None;
        }
        Some(DtlsEndpoint { context: DtlsContext::new(role), local_random, remote_random: None, _pending_epoch: 0 })
    }

    pub fn state(&self) -> (s: DtlsState)
        ensures
            s == self.context().spec_state(),
    {
        self.context.state()
    }

    pub fn is_connected(&self) -> (b: bool)
        ensures
            b == (self.context().spec_state() == DtlsState::Connected),
    {
        self.context.is_connected()
    }

    pub fn role(&self) -> (r: DtlsRole)
        ensures
            r == self.context().spec_role(),
    {
        self.context.role()
    }

    pub fn local_random(&self) -> (r: &[u8; 32])
        ensures
            r@ == self.spec_local_random(),
    {
        &self.local_random
    }

    pub fn set_remote_random(&mut self, random: [u8; 32])
        ensures
            final(self).spec_remote_random() == Some(random@),
            final(self).spec_local_random() == old(self).spec_local_random(),
            final(self).context() == old(self).context(),
    {
        self.remote_random = Some(random);
    }

    /// The master secret derived from a premaster secret, with the local
    /// random followed by the remote one (zero when unknown) as info. The
    /// HKDF output is 32 bytes, so the 48-byte secret is left all zero.
    pub fn compute_master_secret(&mut self, premaster: [u8; 48]) -> (m: [u8; 48])
        ensures
            m@ == zeros(48),
            final(self).context() == old(self).context(),
            final(self).spec_local_random() == old(self).spec_local_random(),
            final(self).spec_remote_random() == old(self).spec_remote_random(),
    {
        let mut master = [0u8; 48];
        let remote = match self.remote_random {
            Some(r) => r,
            None => [0u8; 32],
        };
        let mut seed: Vec<u8> = Vec::new();
        push_all(&mut seed, self.local_random.as_slice());
        push_all(&mut seed, remote.as_slice());
        let empty: [u8; 0] = [];
        let _ = hkdf_sha256_fill(premaster.as_slice(), empty.as_slice(), seed.as_slice(), &mut master);
        assert(master@ =~= zeros(48));
        master
    }

    /// Installs AES-128-GCM keys derived from `master_secret`, the local
    /// random (as the client random) and the remote one (as the server
    /// random, zero when unknown), and marks the endpoint connected.
    pub fn handshake_complete(&mut self, master_secret: [u8; 48])
        ensures
            final(self).context().spec_state() == DtlsState::Connected,
            final(self).context().spec_epoch() == 1,
            final(self).context().spec_role() == old(self).context().spec_role(),
            final(self).context().params() is Some,
            final(self).context().cipher_key() is Some,
            final(self).spec_local_random() == old(self).spec_local_random(),
            final(self).spec_remote_random() == old(self).spec_remote_random(),
    {
        let remote = match self.remote_random {
            Some(r) => r,
            None => [0u8; 32],
        };
        let params = DtlsSecurityParameters::new(
            DtlsCipherSuite::aes_128_gcm_sha256(),
            master_secret,
            &self.local_random,
            &remote,
        );
        self.context.set_security_parameters(params);
        self.context.state = DtlsState::Connected;
    }

    pub fn encrypt(&mut self, plaintext: &[u8], out: &mut [u8]) -> (r: Result<usize, DtlsError>)
        requires
            plaintext@.len() + 37 <= usize::MAX,
        ensures
            encrypt_post(old(self).context(), final(self).context(), plaintext@, old(out)@, final(out)@, r),
            final(self).spec_local_random() == old(self).spec_local_random(),
            final(self).spec_remote_random() == old(self).spec_remote_random(),
    {
        self.context.encrypt_record(plaintext, out)
    }

    pub fn decrypt(&mut self, record: &[u8], out: &mut [u8]) -> (r: Result<usize, DtlsError>)
        ensures
            decrypt_post(old(self).context(), final(self).context(), record@, old(out)@, final(out)@, r),
            final(self).spec_local_random() == old(self).spec_local_random(),
            final(self).spec_remote_random() == old(self).spec_remote_random(),
    {
        self.context.decrypt_record(record, out)
    }

    pub fn srtp_keying_material(&self) -> (r: Option<([u8; 16], [u8; 14])>)
        ensures
            self.context().params() is None ==> r is None,
            self.context().params() is Some ==> (match r {
                Some((key, salt)) => key@ == zeros(16) && salt@ == zeros(14),
                None => false,
            }),
    {
        self.context.srtp_keying_material()
    }
}

} // verus!
