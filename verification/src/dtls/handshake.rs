//! DTLS handshake messages and the handshake's state.
use vstd::prelude::*;
use crate::cc::gcc::wall_clock_ns;
use crate::crypto::{hkdf_sha256_fill, system_random_fill};
use crate::dtls::DtlsRole;
use crate::wire::{be16, be32, lemma_be32_roundtrip, push_all, push_u16, push_u32, read_u16, read_u32, sub_vec, to_vec, u16_be, u32_be, zeros};

verus! {

#[derive(Debug)]
pub enum HandshakeError {
    InvalidMessage,
    InvalidState,
    CertificateError,
    KeyDerivationFailed,
    SignatureVerificationFailed,
    RandomError,
}

#[derive(Clone, Copy, Debug, PartialEq, Eq, Structural)]
pub enum HandshakeState {
    Initial,
    ClientHelloSent,
    ServerHelloReceived,
    CertificateSent,
    CertificateVerified,
    KeyExchangeSent,
    FinishedSent,
    Complete,
    Failed,
}

#[derive(Clone, Debug)]
pub struct ClientHello {
    pub client_random: [u8; 32],
    pub session_id: Vec<u8>,
    pub cipher_suites: Vec<u16>,
    pub compression_methods: Vec<u8>,
    pub extensions: Vec<u8>,
}

/// The extensions block a ClientHello carries: supported versions (DTLS
/// 1.2 and TLS 1.2), groups (P-256, X25519), signature algorithms, the SRTP
/// profile and renegotiation info.
pub open spec fn client_hello_extensions() -> Seq<u8> {
    be16(0x002a) + be16(4) + seq![0x03u8, 3u8, 0x03u8, 0xfdu8] + be16(0x000d) + be16(6) + be16(2) + be16(0x0017)
        + be16(0x001d) + be16(0x000d) + be16(6) + be16(4) + be16(0x0403) + be16(0x0804) + be16(0x0010) + be16(6)
        + be16(1) + be16(0xc02b) + be16(0) + be16(0xff01) + be16(0)
}

impl ClientHello {
    /// A hello with a fresh random from the system generator, offering four
    /// cipher suites and no compression; `None` when the generator fails.
    pub fn new() -> (h: Option<Self>)
        ensures
            h is Some ==> {
                let v = h->0;
                &&& v.session_id@.len() == 0
                &&& v.cipher_suites@ == seq![0xc02bu16, 0xc02cu16, 0xcca9u16, 0xcca8u16]
                &&& v.compression_methods@ == seq![0u8]
                &&& v.extensions@.len() == 0
            },
    {
        let mut client_random = [0u8; 32];
        if !system_random_fill(&mut client_random) {
            return None;
        }
        Some(
            ClientHello {
                client_random,
                session_id: Vec::new(),
                cipher_suites: vec![0xc02b, 0xc02c, 0xcca9, 0xcca8],
                compression_methods: vec![0x00],
                extensions: Vec::new(),
            },
        )
    }

    /// Lays out the hello body (version, random, session id, suites,
    /// compression methods, extensions) but returns only the three bytes of
    /// a DTLS 1.2 handshake record prefix: content type 0x16 and version
    /// 0xfefd.
    pub fn encode(&self) -> (r: Vec<u8>)
        ensures
            r@ == seq![0x16u8, 0xfeu8, 0xfdu8],
    {
        let mut buf: Vec<u8> = Vec::new();
        buf.push(0x01u8);
        push_u16(&mut buf, 0x0303);
        push_all(&mut buf, self.client_random.as_slice());
        buf.push((self.session_id.len() % 256) as u8);
        push_all(&mut buf, self.session_id.as_slice());
        push_u16(&mut buf, (self.cipher_suites.len() % 0x1_0000) as u16);
        let mut i: usize = 0;
        while i < self.cipher_suites.len()
            decreases self.cipher_suites@.len() - i,
        {
            push_u16(&mut buf, self.cipher_suites[i]);
            i = i + 1;
        }
        buf.push((self.compression_methods.len() % 256) as u8);
        push_all(&mut buf, self.compression_methods.as_slice());
        let ext_len_pos = buf.len();
        push_u16(&mut buf, 0);
        self.encode_extensions(&mut buf);
        let total_len = buf.len() - ext_len_pos - 2;
        crate::wire::write_u16(buf.as_mut_slice(), ext_len_pos, (total_len % 0x1_0000) as u16);
        vec![0x16, 0xfe, 0xfd]
    }

    /// Appends the extensions block, then its length.
    fn encode_extensions(&self, buf: &mut Vec<u8>)
        ensures
            final(buf)@ == old(buf)@ + client_hello_extensions() + be16(42),
    {
        let mut ext_data: Vec<u8> = Vec::new();
        push_u16(&mut ext_data, 0x002a);
        push_u16(&mut ext_data, 4);
        ext_data.push(0x03u8);
        ext_data.push(3u8);
        ext_data.push(0x03u8);
        ext_data.push(0xfdu8);
        push_u16(&mut ext_data, 0x000d);
        push_u16(&mut ext_data, 6);
        push_u16(&mut ext_data, 2);
        push_u16(&mut ext_data, 0x0017);
        push_u16(&mut ext_data, 0x001d);
        push_u16(&mut ext_data, 0x000d);
        push_u16(&mut ext_data, 6);
        push_u16(&mut ext_data, 4);
        push_u16(&mut ext_data, 0x0403);
        push_u16(&mut ext_data, 0x0804);
        push_u16(&mut ext_data, 0x0010);
        push_u16(&mut ext_data, 6);
        push_u16(&mut ext_data, 1);
        push_u16(&mut ext_data, 0xc02b);
        push_u16(&mut ext_data, 0);
        push_u16(&mut ext_data, 0xff01);
        push_u16(&mut ext_data, 0);
        assert(ext_data@ =~= client_hello_extensions());
        let n = ext_data.len();
        push_all(buf, ext_data.as_slice());
        push_u16(buf, n as u16);
    }
}

pub struct ServerHello {
    pub server_random: [u8; 32],
    pub session_id: Vec<u8>,
    pub cipher_suite: u16,
    pub compression_method: u8,
    pub extensions: Vec<u8>,
}

/// Where the cipher suite of a ServerHello starts: one byte past the
/// session id when the session id (its length at byte 34) fits with the
/// suite and the compression method; right after the length byte when it
/// does not, the message then carrying no session id.
pub open spec fn server_hello_fits(data: Seq<u8>) -> bool {
    39 + data[34] <= data.len()
}

impl ServerHello {
    /// Reads a ServerHello body: at least 38 bytes, the random at bytes
    /// 2..34, the session id length at 34.
    pub fn decode(data: &[u8]) -> (r: Result<Self, HandshakeError>)
        ensures
            data@.len() < 38 ==> (match r {
                Err(HandshakeError::InvalidMessage) => true,
                _ => false,
            }),
            data@.len() >= 38 ==> (match r {
                Ok(h) => {
                    let sid = data@[34] as int;
                    &&& h.server_random@ == data@.subrange(2, 34)
                    &&& h.extensions@.len() == 0
                    &&& if server_hello_fits(data@) {
                        &&& h.session_id@ == data@.subrange(35, 35 + sid)
                        &&& h.cipher_suite == u16_be(data@[36 + sid], data@[37 + sid])
                        &&& h.compression_method == data@[38 + sid]
                    } else {
                        &&& h.session_id@.len() == 0
                        &&& h.cipher_suite == u16_be(data@[35], data@[36])
                        &&& h.compression_method == data@[37]
                    }
                },
                Err(_) => false,
            }),
    {
        if data.len() < 38 {
            return Err(HandshakeError::InvalidMessage);
        }
        let server_random: [u8; 32] = [
            data[2], data[3], data[4], data[5], data[6], data[7], data[8], data[9], data[10], data[11], data[12],
            data[13], data[14], data[15], data[16], data[17], data[18], data[19], data[20], data[21], data[22],
            data[23], data[24], data[25], data[26], data[27], data[28], data[29], data[30], data[31], data[32],
            data[33],
        ];
        assert(server_random@ =~= data@.subrange(2, 34));
        let session_id_len = data[34] as usize;
        if 39 + session_id_len <= data.len() {
            let session_id = sub_vec(data, 35, 35 + session_id_len);
            let cs_offset = 35 + session_id_len + 1;
            let cipher_suite = read_u16(data, cs_offset);
            let compression_method = data[cs_offset + 2];
            Ok(ServerHello { server_random, session_id, cipher_suite, compression_method, extensions: Vec::new() })
        } else {
            let cipher_suite = read_u16(data, 35);
            let compression_method = data[37];
            Ok(
                ServerHello {
                    server_random,
                    session_id: Vec::new(),
                    cipher_suite,
                    compression_method,
                    extensions: Vec::new(),
                },
            )
        }
    }
}

pub struct Certificate {
    pub certificates: Vec<Vec<u8>>,
}

pub open spec fn certs_view(v: Seq<Vec<u8>>) -> Seq<Seq<u8>> {
    v.map_values(|c: Vec<u8>| c@)
}

/// The total announced for a list of certificates: each counts its length
/// plus three.
pub open spec fn certs_total(s: Seq<Seq<u8>>) -> nat
    decreases s.len(),
{
    if s.len() == 0 {
        0
    } else {
        s[0].len() + 3 + certs_total(s.drop_first())
    }
}

/// The certificates one after the other, each with its 4-byte length.
pub open spec fn certs_bytes(s: Seq<Seq<u8>>) -> Seq<u8>
    decreases s.len(),
{
    if s.len() == 0 {
        Seq::empty()
    } else {
        be32(s[0].len() as u32) + s[0] + certs_bytes(s.drop_first())
    }
}

/// The certificates read from `pos` on: while more than three bytes are
/// left, a 4-byte length and that many bytes; a length running past the end
/// stops the list.
pub open spec fn parse_certs(data: Seq<u8>, pos: int) -> Seq<Seq<u8>>
    decreases data.len() - pos,
{
    if pos + 3 < data.len() && pos >= 0 {
        let cl = u32_be(data[pos], data[pos + 1], data[pos + 2], data[pos + 3]) as int;
        if pos + 4 + cl > data.len() {
            Seq::empty()
        } else {
            seq![data.subrange(pos + 4, pos + 4 + cl)] + parse_certs(data, pos + 4 + cl)
        }
    } else {
        Seq::empty()
    }
}

proof fn lemma_certs_prefix(s: Seq<Seq<u8>>, k: int)
    requires
        0 <= k <= s.len(),
    ensures
        certs_total(s) == certs_total(s.take(k)) + certs_total(s.skip(k)),
        certs_bytes(s) == certs_bytes(s.take(k)) + certs_bytes(s.skip(k)),
    decreases k,
{
    if k == 0 {
        assert(s.take(0) =~= Seq::<Seq<u8>>::empty());
        assert(s.skip(0) =~= s);
        assert(certs_bytes(s) =~= certs_bytes(s.take(k)) + certs_bytes(s.skip(k)));
    } else {
        let d = s.drop_first();
        lemma_certs_prefix(d, k - 1);
        assert(s.take(k)[0] == s[0]);
        assert(s.take(k).drop_first() =~= d.take(k - 1));
        assert(d.skip(k - 1) =~= s.skip(k));
        assert(certs_bytes(s) =~= certs_bytes(s.take(k)) + certs_bytes(s.skip(k)));
    }
}

proof fn lemma_certs_step(s: Seq<Seq<u8>>, i: int)
    requires
        0 <= i < s.len(),
    ensures
        certs_total(s.take(i + 1)) == certs_total(s.take(i)) + s[i].len() + 3,
        certs_bytes(s.take(i + 1)) == certs_bytes(s.take(i)) + be32(s[i].len() as u32) + s[i],
{
    let t = s.take(i + 1);
    lemma_certs_prefix(t, i);
    assert(t.take(i) =~= s.take(i));
    let one = seq![s[i]];
    assert(t.skip(i) =~= one);
    assert(one.drop_first() =~= Seq::<Seq<u8>>::empty());
    assert(certs_bytes(one.drop_first()) =~= Seq::<u8>::empty());
    assert(certs_total(one.drop_first()) == 0);
    assert(certs_total(one) == s[i].len() + 3);
    assert(certs_bytes(one) =~= be32(s[i].len() as u32) + s[i]);
}

proof fn lemma_parse_certs_bytes(data: Seq<u8>, pos: int, s: Seq<Seq<u8>>)
    requires
        0 <= pos,
        pos + certs_bytes(s).len() == data.len(),
        data.subrange(pos, data.len() as int) == certs_bytes(s),
        forall|i: int| 0 <= i < s.len() ==> (#[trigger] s[i]).len() <= u32::MAX,
    ensures
        parse_certs(data, pos) == s,
    decreases s.len(),
{
    if s.len() == 0 {
        assert(s =~= Seq::<Seq<u8>>::empty());
    } else {
        let c = s[0];
        let rest = s.drop_first();
        let whole = certs_bytes(s);
        assert(c.len() <= u32::MAX);
        lemma_be32_roundtrip(c.len() as u32);
        assert(whole == be32(c.len() as u32) + c + certs_bytes(rest));
        assert(data[pos] == whole[0]);
        assert(data[pos + 1] == whole[1]);
        assert(data[pos + 2] == whole[2]);
        assert(data[pos + 3] == whole[3]);
        assert(data.subrange(pos + 4, pos + 4 + c.len()) =~= c) by {
            assert forall|k: int| 0 <= k < c.len() implies data.subrange(pos + 4, pos + 4 + c.len())[k] == c[k] by {
                assert(data[pos + 4 + k] == whole[4 + k]);
            }
        }
        let next = pos + 4 + c.len();
        assert forall|i: int| 0 <= i < rest.len() implies (#[trigger] rest[i]).len() <= u32::MAX by {
            assert(rest[i] == s[i + 1]);
        }
        assert(data.subrange(next, data.len() as int) =~= certs_bytes(rest)) by {
            assert forall|k: int| 0 <= k < certs_bytes(rest).len() implies data.subrange(next, data.len() as int)[k]
                == certs_bytes(rest)[k] by {
                assert(data[next + k] == whole[4 + c.len() + k]);
            }
        }
        lemma_parse_certs_bytes(data, next, rest);
        assert(seq![c] + rest =~= s);
    }
}

/// The bytes `Certificate::encode` gives: the announced total, then the
/// certificates.
pub open spec fn certificate_encoding(s: Seq<Seq<u8>>) -> Seq<u8> {
    be32(certs_total(s) as u32) + certs_bytes(s)
}

/// What `Certificate::decode` makes of a message of at least four bytes:
/// `None` when it is shorter than its announced total, else the
/// certificates from byte 4 on.
pub open spec fn certificate_decoding(data: Seq<u8>) -> Option<Seq<Seq<u8>>> {
    if data.len() < 4 + u32_be(data[0], data[1], data[2], data[3]) {
        None
    } else {
        Some(parse_certs(data, 4))
    }
}

/// Decoding an encoded certificate list gives the list back, when the
/// announced total fits in 32 bits.
pub proof fn certificate_roundtrip_law(s: Seq<Seq<u8>>)
    requires
        certs_total(s) <= u32::MAX,
    ensures
        certificate_decoding(certificate_encoding(s)) == Some(s),
{
    let data = certificate_encoding(s);
    lemma_be32_roundtrip(certs_total(s) as u32);
    lemma_certs_bytes_len(s);
    assert(forall|i: int| 0 <= i < s.len() ==> (#[trigger] s[i]).len() <= u32::MAX) by {
        assert forall|i: int| 0 <= i < s.len() implies (#[trigger] s[i]).len() <= u32::MAX by {
            lemma_certs_total_bounds(s, i);
        }
    }
    assert(data.subrange(4, data.len() as int) =~= certs_bytes(s));
    lemma_parse_certs_bytes(data, 4, s);
}

proof fn lemma_certs_bytes_len(s: Seq<Seq<u8>>)
    ensures
        certs_bytes(s).len() == certs_total(s) + s.len(),
    decreases s.len(),
{
    if s.len() > 0 {
        lemma_certs_bytes_len(s.drop_first());
    }
}

proof fn lemma_certs_total_bounds(s: Seq<Seq<u8>>, i: int)
    requires
        0 <= i < s.len(),
    ensures
        s[i].len() + 3 <= certs_total(s),
    decreases i,
{
    if i > 0 {
        lemma_certs_total_bounds(s.drop_first(), i - 1);
    }
}

impl Certificate {
    /// The announced total (each certificate's length plus three), then
    /// each certificate with its 4-byte length.
    pub fn encode(&self) -> (r: Vec<u8>)
        requires
            certs_total(certs_view(self.certificates@)) <= u32::MAX,
        ensures
            r@ == certificate_encoding(certs_view(self.certificates@)),
    {
        let ghost s = certs_view(self.certificates@);
        let mut total: u32 = 0;
        let mut i: usize = 0;
        while i < self.certificates.len()
            invariant
                s == certs_view(self.certificates@),
                i <= s.len(),
                certs_total(s) <= u32::MAX,
                total == certs_total(s.take(i as int)),
            decreases s.len() - i,
        {
            proof {
                lemma_certs_step(s, i as int);
                lemma_certs_prefix(s, i + 1);
            }
            assert(self.certificates@[i as int]@ == s[i as int]);
            total = total + (self.certificates[i].len() as u32) + 3;
            i = i + 1;
        }
        assert(s.take(s.len() as int) =~= s);
        let mut buf: Vec<u8> = Vec::new();
        push_u32(&mut buf, total);
        let mut j: usize = 0;
        while j < self.certificates.len()
            invariant
                s == certs_view(self.certificates@),
                j <= s.len(),
                certs_total(s) <= u32::MAX,
                buf@ == be32(certs_total(s) as u32) + certs_bytes(s.take(j as int)),
            decreases s.len() - j,
        {
            proof {
                lemma_certs_step(s, j as int);
                lemma_certs_total_bounds(s, j as int);
            }
            let cert = &self.certificates[j];
            assert(cert@ == s[j as int]);
            push_u32(&mut buf, cert.len() as u32);
            push_all(&mut buf, cert.as_slice());
            j = j + 1;
        }
        assert(s.take(s.len() as int) =~= s);
        buf
    }

    /// Reads a certificate list: the announced total (4 bytes), then the
    /// certificates. Fewer than three bytes, or fewer than the total after
    /// the first four, are invalid; exactly three bytes are not admitted
    /// (the total is read from four).
    pub fn decode(data: &[u8]) -> (r: Result<Self, HandshakeError>)
        requires
            data@.len() != 3,
        ensures
            data@.len() < 3 ==> (match r {
                Err(HandshakeError::InvalidMessage) => true,
                _ => false,
            }),
            data@.len() > 3 ==> (match (r, certificate_decoding(data@)) {
                (Err(HandshakeError::InvalidMessage), None) => true,
                (Ok(c), Some(s)) => certs_view(c.certificates@) == s,
                _ => false,
            }),
    {
        if data.len() < 3 {
            return Err(HandshakeError::InvalidMessage);
        }
        let certs_len = read_u32(data, 0) as u64;
        if ((data.len() - 4) as u64) < certs_len {
            return Err(HandshakeError::InvalidMessage);
        }
        let mut certificates: Vec<Vec<u8>> = Vec::new();
        let mut pos: usize = 4;
        while pos < data.len() && data.len() - pos > 3
            invariant_except_break
                4 <= pos <= data@.len(),
                parse_certs(data@, 4) == certs_view(certificates@) + parse_certs(data@, pos as int),
            ensures
                parse_certs(data@, 4) == certs_view(certificates@),
            decreases data@.len() - pos,
        {
            let cert_len = read_u32(data, pos) as usize;
            let ghost p0 = pos as int;
            pos = pos + 4;
            if cert_len > data.len() - pos {
                assert(parse_certs(data@, p0) =~= Seq::<Seq<u8>>::empty());
                assert(certs_view(certificates@) + Seq::<Seq<u8>>::empty() =~= certs_view(certificates@));
                break;
            }
            let c = sub_vec(data, pos, pos + cert_len);
            let ghost before = certs_view(certificates@);
            certificates.push(c);
            pos = pos + cert_len;
            assert(certs_view(certificates@) =~= before.push(c@));
            assert(before + (seq![c@] + parse_certs(data@, pos as int)) =~= before.push(c@) + parse_certs(
                data@,
                pos as int,
            ));
        }
        proof {
            if !(pos < data.len() && data.len() - pos > 3) {
                assert(parse_certs(data@, pos as int) =~= Seq::<Seq<u8>>::empty());
                assert(certs_view(certificates@) + Seq::<Seq<u8>>::empty() =~= certs_view(certificates@));
            }
        }
        Ok(Certificate { certificates })
    }
}

pub struct ServerKeyExchange {
    pub curve_type: u8,
    pub named_curve: u16,
    pub public_key: Vec<u8>,
    pub signature: Vec<u8>,
}

impl ServerKeyExchange {
    /// Reads a ServerKeyExchange for a named curve (type 3): the curve, the
    /// public key with its 1-byte length, the signature with its 2-byte
    /// length; anything shorter, or another curve type, is invalid.
    pub fn decode(data: &[u8]) -> (r: Result<Self, HandshakeError>)
        ensures
            ({
                let pk = if data@.len() >= 4 { data@[3] as int } else { 0 };
                let so = 4 + pk;
                let sl = if data@.len() >= so + 2 { u16_be(data@[so], data@[so + 1]) as int } else { 0 };
                let ok = data@.len() >= 5 && data@[0] == 3 && data@.len() >= so + 2 && data@.len() >= so + 2 + sl;
                &&& !ok ==> (match r {
                    Err(HandshakeError::InvalidMessage) => true,
                    _ => false,
                })
                &&& ok ==> (match r {
                    Ok(m) => {
                        &&& m.curve_type == 3
                        &&& m.named_curve == u16_be(data@[1], data@[2])
                        &&& m.public_key@ == data@.subrange(4, so)
                        &&& m.signature@ == data@.subrange(so + 2, so + 2 + sl)
                    },
                    Err(_) => false,
                })
            }),
    {
        if data.len() < 5 {
            return Err(HandshakeError::InvalidMessage);
        }
        let curve_type = data[0];
        if curve_type != 3 {
            return Err(HandshakeError::InvalidMessage);
        }
        let named_curve = read_u16(data, 1);
        let pk_len = data[3] as usize;
        if data.len() < 4 + pk_len {
            return Err(HandshakeError::InvalidMessage);
        }
        let public_key = sub_vec(data, 4, 4 + pk_len);
        let sig_offset = 4 + pk_len;
        if data.len() < sig_offset + 2 {
            return Err(HandshakeError::InvalidMessage);
        }
        let sig_len = read_u16(data, sig_offset) as usize;
        if data.len() < sig_offset + 2 + sig_len {
            return Err(HandshakeError::InvalidMessage);
        }
        let signature = sub_vec(data, sig_offset + 2, sig_offset + 2 + sig_len);
        Ok(ServerKeyExchange { curve_type, named_curve, public_key, signature })
    }
}

pub struct ClientKeyExchange {
    pub client_public_key: Vec<u8>,
}

impl ClientKeyExchange {
    /// The public key after its 1-byte length; keys of 255 bytes or more do
    /// not fit and are not admitted.
    pub fn encode(&self) -> (r: Vec<u8>)
        requires
            self.client_public_key@.len() < 255,
        ensures
            r@ == seq![self.client_public_key@.len() as u8] + self.client_public_key@,
    {
        let mut buf: Vec<u8> = Vec::new();
        buf.push(self.client_public_key.len() as u8);
        push_all(&mut buf, self.client_public_key.as_slice());
        buf
    }
}

pub struct CertificateVerify {
    pub signature: Vec<u8>,
}

impl CertificateVerify {
    /// The signature after its 2-byte length (taken modulo 2^16).
    pub fn encode(&self) -> (r: Vec<u8>)
        ensures
            r@ == be16((self.signature@.len() % 0x1_0000) as u16) + self.signature@,
    {
        let mut buf: Vec<u8> = Vec::new();
        push_u16(&mut buf, (self.signature.len() % 0x1_0000) as u16);
        push_all(&mut buf, self.signature.as_slice());
        buf
    }
}

pub struct Finished {
    pub verify_data: Vec<u8>,
}

impl Finished {
    /// The whole message is the verify data; it takes at least 12 bytes.
    pub fn decode(data: &[u8]) -> (r: Result<Self, HandshakeError>)
        ensures
            data@.len() < 12 ==> (match r {
                Err(HandshakeError::InvalidMessage) => true,
                _ => false,
            }),
            data@.len() >= 12 ==> (match r {
                Ok(f) => f.verify_data@ == data@,
                Err(_) => false,
            }),
    {
        if data.len() < 12 {
            return Err(HandshakeError::InvalidMessage);
        }
        Ok(Finished { verify_data: to_vec(data) })
    }
}

pub struct DtlsHandshake {
    pub state: HandshakeState,
    pub role: DtlsRole,
    pub local_random: [u8; 32],
    pub remote_random: Option<[u8; 32]>,
    pub cipher_suite: u16,
    pub master_secret: Option<[u8; 48]>,
    /// The public key of the local signing key pair, when there is one.
    pub local_public_key: Option<Vec<u8>>,
    pub remote_public_key: Option<Vec<u8>>,
    pub srtp_profiles: Vec<u16>,
}

impl DtlsHandshake {
    /// A server-side handshake with a fresh local random; a failing system
    /// generator is a random error.
    pub fn new_server() -> (r: Result<Self, HandshakeError>)
        ensures
            match r {
                Ok(h) => {
                    &&& h.state == HandshakeState::Initial
                    &&& h.role == DtlsRole::Server
                    &&& h.remote_random is None
                    &&& h.cipher_suite == 0xc02b
                    &&& h.master_secret is None
                    &&& h.local_public_key is None
                    &&& h.remote_public_key is None
                    &&& h.srtp_profiles@ == seq![0xc02bu16]
                },
                Err(HandshakeError::RandomError) => true,
                Err(_) => false,
            },
    {
        let mut local_random = [0u8; 32];
        if !system_random_fill(&mut local_random) {
            return Err(HandshakeError::RandomError);
        }
        Ok(
            DtlsHandshake {
                state: HandshakeState::Initial,
                role: DtlsRole::Server,
                local_random,
                remote_random: None,
                cipher_suite: 0xc02b,
                master_secret: None,
                local_public_key: None,
                remote_public_key: None,
                srtp_profiles: vec![0xc02b],
            },
        )
    }

    /// Sends a fresh ClientHello (whose encoding is the three-byte record
    /// prefix) wrapped as handshake message 1, and takes its random as the
    /// local random.
    pub fn create_client_hello(&mut self) -> (r: Result<Vec<u8>, HandshakeError>)
        ensures
            match r {
                Ok(m) => {
                    &&& final(self).state == HandshakeState::ClientHelloSent
                    &&& handshake_frame(m@, 1, seq![0x16u8, 0xfeu8, 0xfdu8])
                },
                Err(HandshakeError::RandomError) => final(self).state == old(self).state,
                Err(_) => false,
            },
    {
        let hello = match ClientHello::new() {
            Some(h) => h,
            None => {
                return Err(HandshakeError::RandomError);
            },
        };
        self.local_random = hello.client_random;
        let record = hello.encode();
        let handshake = self.encode_handshake(1, record.as_slice());
        self.state = HandshakeState::ClientHelloSent;
        Ok(handshake)
    }

    /// Takes the server random and cipher suite from a ServerHello.
    pub fn handle_server_hello(&mut self, data: &[u8]) -> (r: Result<Vec<u8>, HandshakeError>)
        ensures
            data@.len() < 38 ==> r is Err && *final(self) == *old(self),
            data@.len() >= 38 ==> (match r {
                Ok(v) => {
                    &&& v@.len() == 0
                    &&& final(self).remote_random is Some
                    &&& final(self).remote_random->0@ == data@.subrange(2, 34)
                    &&& final(self).state == HandshakeState::ServerHelloReceived
                    &&& final(self).cipher_suite == if server_hello_fits(data@) {
                        u16_be(data@[36 + data@[34] as int], data@[37 + data@[34] as int])
                    } else {
                        u16_be(data@[35], data@[36])
                    }
                },
                Err(_) => false,
            }),
    {
        let hello = match ServerHello::decode(data) {
            Ok(h) => h,
            Err(e) => {
                return Err(e);
            },
        };
        self.remote_random = Some(hello.server_random);
        self.cipher_suite = hello.cipher_suite;
        self.state = HandshakeState::ServerHelloReceived;
        Ok(Vec::new())
    }

    pub fn handle_certificate(&mut self, data: &[u8]) -> (r: Result<(), HandshakeError>)
        requires
            data@.len() != 3,
        ensures
            ({
                let ok = data@.len() > 3 && certificate_decoding(data@) is Some;
                &&& ok ==> r is Ok && final(self).state == HandshakeState::CertificateVerified
                &&& !ok ==> r is Err && final(self).state == old(self).state
            }),
    {
        let _cert = match Certificate::decode(data) {
            Ok(c) => c,
            Err(e) => {
                return Err(e);
            },
        };
        self.state = HandshakeState::CertificateVerified;
        Ok(())
    }

    pub fn handle_server_key_exchange(&mut self, data: &[u8]) -> (r: Result<(), HandshakeError>)
        ensures
            r is Ok ==> final(self).state == HandshakeState::KeyExchangeSent,
            r is Err ==> final(self).state == old(self).state,
            ({
                let pk = if data@.len() >= 4 { data@[3] as int } else { 0 };
                let so = 4 + pk;
                let sl = if data@.len() >= so + 2 { u16_be(data@[so], data@[so + 1]) as int } else { 0 };
                r is Ok <==> (data@.len() >= 5 && data@[0] == 3 && data@.len() >= so + 2 && data@.len() >= so + 2
                    + sl)
            }),
    {
        let _ske = match ServerKeyExchange::decode(data) {
            Ok(s) => s,
            Err(e) => {
                return Err(e);
            },
        };
        self.state = HandshakeState::KeyExchangeSent;
        Ok(())
    }

    /// The local public key in a ClientKeyExchange, wrapped as handshake
    /// message 16; without a local key pair the state is invalid.
    pub fn create_client_key_exchange(&mut self) -> (r: Result<Vec<u8>, HandshakeError>)
        requires
            old(self).local_public_key is Some ==> old(self).local_public_key->0@.len() < 255,
        ensures
            *final(self) == *old(self),
            old(self).local_public_key is None ==> (match r {
                Err(HandshakeError::InvalidState) => true,
                _ => false,
            }),
            old(self).local_public_key is Some ==> (match r {
                Ok(m) => {
                    let pk = old(self).local_public_key->0@;
                    handshake_frame(m@, 16, seq![pk.len() as u8] + pk)
                },
                Err(_) => false,
            }),
    {
        let public_key = match &self.local_public_key {
            Some(k) => to_vec(k.as_slice()),
            None => {
                return Err(HandshakeError::InvalidState);
            },
        };
        let ckex = ClientKeyExchange { client_public_key: public_key };
        let encoded = ckex.encode();
        let handshake = self.encode_handshake(16, encoded.as_slice());
        Ok(handshake)
    }

    /// Frames a handshake message: type, version 0x0303, two zero bytes,
    /// the 4-byte length of what follows, then the type again, the 2-byte
    /// body length, one byte taken from the clock, and the body.
    fn encode_handshake(&self, msg_type: u8, data: &[u8]) -> (record: Vec<u8>)
        ensures
            handshake_frame(record@, msg_type, data@),
    {
        let mut record: Vec<u8> = Vec::new();
        record.push(msg_type);
        push_u16(&mut record, 0x0303);
        record.push(0u8);
        record.push(0u8);
        let low = (data.len() as u64) % 0x1_0000_0000;
        proof {
            vstd::arithmetic::div_mod::lemma_add_mod_noop(data@.len() as int, 4, 0x1_0000_0000);
        }
        push_u32(&mut record, ((low + 4) % 0x1_0000_0000) as u32);
        let ghost head = record@;
        assert(head =~= seq![msg_type, 3u8, 3u8, 0u8, 0u8] + be32(((data@.len() + 4) % 0x1_0000_0000) as u32));
        record.push(msg_type);
        push_u16(&mut record, (data.len() % 0x1_0000) as u16);
        let t = (wall_clock_ns() % 0x1_0000_0000) as u32;
        record.push(((t / 0x1_0000) % 256) as u8);
        let ghost mid = record@;
        push_all(&mut record, data);
        assert(record@.subrange(0, 5) =~= head.subrange(0, 5));
        assert(head.subrange(0, 5) =~= seq![msg_type, 3u8, 3u8, 0u8, 0u8]);
        assert(head.subrange(5, 9) =~= be32(((data@.len() + 4) % 0x1_0000_0000) as u32));
        assert(record@.subrange(5, 9) =~= head.subrange(5, 9));
        assert(record@.subrange(9, 12) =~= seq![msg_type] + be16((data@.len() % 0x1_0000) as u16));
        assert(record@.subrange(13, record@.len() as int) =~= data@);
        assert(record@.len() == 13 + data@.len());
        assert(record@.subrange(5, 9) =~= be32(((data@.len() + 4) % 0x1_0000_0000) as u32));
        record
    }

    pub fn is_complete(&self) -> (b: bool)
        ensures
            b == (self.state == HandshakeState::Complete),
    {
        self.state == HandshakeState::Complete
    }

    /// Derives the master secret from the premaster secret with the remote
    /// random followed by the local one as info; the HKDF output is 32
    /// bytes, so the 48-byte secret stays all zero. Without a remote random
    /// the state is invalid.
    pub fn derive_master_secret(&mut self, premaster: &[u8]) -> (r: Result<[u8; 48], HandshakeError>)
        ensures
            old(self).remote_random is None ==> (match r {
                Err(HandshakeError::InvalidState) => true,
                _ => false,
            }) && *final(self) == *old(self),
            old(self).remote_random is Some ==> (match r {
                Ok(m) => m@ == zeros(48) && final(self).master_secret == Some(m) && final(self).state
                    == old(self).state,
                Err(_) => false,
            }),
    {
        let remote = match self.remote_random {
            Some(r) => r,
            None => {
                return Err(HandshakeError::InvalidState);
            },
        };
        let mut master = [0u8; 48];
        let mut seed: Vec<u8> = Vec::new();
        push_all(&mut seed, remote.as_slice());
        push_all(&mut seed, self.local_random.as_slice());
        let empty: [u8; 0] = [];
        let _ = hkdf_sha256_fill(premaster, empty.as_slice(), seed.as_slice(), &mut master);
        assert(master@ =~= zeros(48));
        self.master_secret = Some(master);
        Ok(master)
    }
}

/// A framed handshake message around `body`: type, version 0x0303, two
/// zero bytes, the length of what follows (body plus four), the type, the
/// body length, one byte from the clock, the body.
pub open spec fn handshake_frame(m: Seq<u8>, msg_type: u8, body: Seq<u8>) -> bool {
    &&& m.len() == 13 + body.len()
    &&& m.subrange(0, 5) == seq![msg_type, 3u8, 3u8, 0u8, 0u8]
    &&& m.subrange(5, 9) == be32(((body.len() + 4) % 0x1_0000_0000) as u32)
    &&& m.subrange(9, 12) == seq![msg_type] + be16((body.len() % 0x1_0000) as u16)
    &&& m.subrange(13, m.len() as int) == body
}

} // verus!
