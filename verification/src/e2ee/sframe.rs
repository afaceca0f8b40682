//! SFrame: end-to-end encryption of media frames with per-sender keys,
//! a compact frame header (key id and counter) and AES-256-GCM.
use vstd::prelude::*;
use std::collections::HashMap;
use crate::crypto::{aes256_gcm_open, aes256_gcm_open_in_place, aes256_gcm_seal, aes256_gcm_seal_in_place, AES_GCM_P_MAX};
use crate::wire::{be32, be64, copy_into, lemma_be64_roundtrip, push_all, push_u64, read_u64, sub_vec, u64_be, zeros};

verus! {

broadcast use vstd::std_specs::hash::group_hash_axioms;

/// Length of the authentication tag.
pub const TAG_LEN: usize = 16;

#[derive(Debug)]
pub enum SFrameError {
    KeyNotFound(u64),
    AuthFailed,
    BufferTooSmall,
    InvalidHeader,
    CounterOverflow,
}

#[derive(Clone, Copy, Debug)]
pub struct SFrameConfig {
    pub ctr_bits: u8,
    pub key_id_bits: u8,
}

impl Default for SFrameConfig {
    fn default() -> (c: Self)
        ensures
            c.ctr_bits == 32,
            c.key_id_bits == 3,
    {
        SFrameConfig { ctr_bits: 32, key_id_bits: 3 }
    }
}

/// A key: the AES-256 key and the salt nonces are made from.
#[derive(Clone, Copy)]
struct SFrameKey {
    key: [u8; 32],
    salt: [u8; 12],
}

/// The nonce for a counter: the salt with the counter's eight big-endian
/// bytes XOR-ed into its last eight.
pub open spec fn frame_nonce(salt: Seq<u8>, ctr: u64) -> Seq<u8> {
    Seq::new(12, |i: int| if i < 4 { salt[i] } else { salt[i] ^ be64(ctr)[i - 4] })
}

impl SFrameKey {
    fn new(key_bytes: &[u8; 32], salt: [u8; 12]) -> (k: Self)
        ensures
            k.key@ == key_bytes@,
            k.salt == salt,
    {
        SFrameKey { key: *key_bytes, salt }
    }

    fn build_nonce(&self, counter: u64) -> (n: [u8; 12])
        ensures
            n@ == frame_nonce(self.salt@, counter),
    {
        let mut c: Vec<u8> = Vec::new();
        push_u64(&mut c, counter);
        let s = self.salt;
        let n: [u8; 12] = [
            s[0], s[1], s[2], s[3], s[4] ^ c[0], s[5] ^ c[1], s[6] ^ c[2], s[7] ^ c[3], s[8] ^ c[4], s[9] ^ c[5],
            s[10] ^ c[6], s[11] ^ c[7],
        ];
        assert(n@ =~= frame_nonce(self.salt@, counter));
        n
    }
}

/// Keys by key id.
pub struct KeyStore {
    keys: HashMap<u64, SFrameKey>,
}

impl KeyStore {
    /// The key and salt held for a key id, if any.
    pub closed spec fn key_of(&self, kid: u64) -> Option<(Seq<u8>, Seq<u8>)> {
        if self.keys@.contains_key(kid) {
            Some((self.keys@[kid].key@, self.keys@[kid].salt@))
        } else {
            None
        }
    }

    pub closed spec fn count(&self) -> nat {
        self.keys@.len()
    }

    pub fn new() -> (s: Self)
        ensures
            forall|kid: u64| s.key_of(kid) is None,
            s.count() == 0,
    {
        KeyStore { keys: HashMap::new() }
    }

    /// Stores a key and salt under `kid`, replacing any held there.
    pub fn add_key(&mut self, kid: u64, key_bytes: &[u8; 32], salt: [u8; 12])
        ensures
            final(self).key_of(kid) == Some((key_bytes@, salt@)),
            forall|k: u64| k != kid ==> final(self).key_of(k) == old(self).key_of(k),
    {
        self.keys.insert(kid, SFrameKey::new(key_bytes, salt));
    }

    pub fn remove_key(&mut self, kid: u64)
        ensures
            final(self).key_of(kid) is None,
            forall|k: u64| k != kid ==> final(self).key_of(k) == old(self).key_of(k),
    {
        self.keys.remove(&kid);
    }

    /// The number of keys held.
    pub fn key_count(&self) -> (n: usize)
        ensures
            n == self.count(),
    {
        self.keys.len()
    }

    fn get(&self, kid: u64) -> (r: Option<SFrameKey>)
        ensures
            match r {
                Some(k) => self.key_of(kid) == Some((k.key@, k.salt@)),
                None => self.key_of(kid) is None,
            },
    {
        match self.keys.get(&kid) {
            Some(k) => Some(*k),
            None => None,
        }
    }
}

impl Default for KeyStore {
    fn default() -> (s: Self)
        ensures
            forall|kid: u64| s.key_of(kid) is None,
            s.count() == 0,
    {
        Self::new()
    }
}

/// How many counter bytes a header carries for `ctr_bits`.
pub open spec fn ctr_len(ctr_bits: u8) -> nat {
    ((ctr_bits + 7) / 8) as nat
}

/// The length of a header: the first byte, eight bytes of key id when it
/// does not fit inline (8 or more), and the counter bytes.
pub open spec fn header_len(cb: nat, kid: u64) -> nat {
    if kid < 8 {
        1 + cb
    } else {
        9 + cb
    }
}

/// The first header byte: bit 7 set for an extended key id, the key id's
/// low three bits in bits 3..6, the counter length less one in bits 0..3.
pub open spec fn header_first(kid: u64, cb: nat) -> u8 {
    ((if kid < 8 { 0u8 } else { 0x80u8 }) | ((((kid % 256) as u8) & 7) << 3) | (((if cb == 0 { 0 } else { cb - 1 })
        % 256) as u8 & 7)) as u8
}

/// The bytes of a header: the first byte, the extended key id, and the
/// counter's last `cb` big-endian bytes.
pub open spec fn header_bytes(kid: u64, ctr: u64, cb: nat) -> Seq<u8> {
    seq![header_first(kid, cb)] + (if kid < 8 { Seq::empty() } else { be64(kid) }) + be64(ctr).subrange(
        8 - cb,
        8,
    )
}

/// What a header at the start of `b` says: key id, counter and header
/// length; `None` when it is cut short.
pub open spec fn decode_header_model(b: Seq<u8>) -> Option<(u64, u64, nat)> {
    if b.len() == 0 {
        None
    } else {
        let ext = b[0] & 0x80 != 0;
        let cb = ((b[0] & 7) + 1) as nat;
        let off: int = if ext { 9 } else { 1 };
        if ext && b.len() < 9 {
            None
        } else if off + cb > b.len() {
            None
        } else {
            let kid: u64 = if ext { u64_be(b.subrange(1, 9)) } else { ((b[0] >> 3) & 7) as u64 };
            let ctr = u64_be(zeros((8 - cb) as nat) + b.subrange(off, off + cb));
            Some((kid, ctr, (off + cb) as nat))
        }
    }
}

/// 256 to the power `n`.
pub open spec fn byte_pow(n: nat) -> nat
    decreases n,
{
    if n == 0 {
        1
    } else {
        256 * byte_pow((n - 1) as nat)
    }
}

/// The bytes of a 32-bit value below 256^k start with 4 - k zero bytes.
proof fn lemma_be32_leading_zeros(y: u32, k: nat)
    requires
        k <= 4,
        y < byte_pow(k),
    ensures
        forall|j: int| 0 <= j < 4 - k ==> #[trigger] be32(y)[j] == 0,
{
    reveal_with_fuel(byte_pow, 5);
}

/// The bytes of a 64-bit value below 256^cb start with 8 - cb zero bytes,
/// so its last `cb` bytes, zero-extended, give back all eight.
proof fn lemma_be64_short(x: u64, cb: nat)
    requires
        1 <= cb <= 8,
        x < byte_pow(cb),
    ensures
        zeros((8 - cb) as nat) + be64(x).subrange(8 - cb, 8) == be64(x),
{
    reveal_with_fuel(byte_pow, 9);
    let hi = (x / 0x1_0000_0000) as u32;
    let lo = (x % 0x1_0000_0000) as u32;
    if cb <= 4 {
        assert(hi == 0);
        lemma_be32_leading_zeros(hi, 0);
        lemma_be32_leading_zeros(lo, cb);
    } else {
        assert(lo == x % 0x1_0000_0000);
        lemma_be32_leading_zeros(hi, (cb - 4) as nat);
    }
    assert forall|i: int| 0 <= i < 8 - cb implies be64(x)[i] == 0 by {
        if i < 4 {
            assert(be64(x)[i] == be32(hi)[i]);
        } else {
            assert(be64(x)[i] == be32(lo)[i - 4]);
        }
    }
    assert(zeros((8 - cb) as nat) + be64(x).subrange(8 - cb, 8) =~= be64(x));
}

/// A frame header reads back as the key id, counter and header length it
/// was written with, whatever follows it, when the counter takes one to
/// eight bytes and fits in them.
pub proof fn sframe_header_roundtrip_law(kid: u64, ctr: u64, cb: nat, rest: Seq<u8>)
    requires
        1 <= cb <= 8,
        ctr < byte_pow(cb),
    ensures
        decode_header_model(header_bytes(kid, ctr, cb) + rest) == Some((kid, ctr, header_len(cb, kid))),
{
    let h = header_bytes(kid, ctr, cb);
    let b = h + rest;
    let first = header_first(kid, cb);
    lemma_first_byte(kid, cb);
    assert(b[0] == first);
    let off: int = if kid < 8 { 1 } else { 9 };
    assert(h.len() == off + cb);
    assert(b.subrange(off, off + cb) =~= be64(ctr).subrange(8 - cb, 8));
    lemma_be64_short(ctr, cb);
    lemma_be64_roundtrip(ctr);
    assert(u64_be(zeros((8 - cb) as nat) + b.subrange(off, off + cb)) == ctr);
    if kid >= 8 {
        lemma_be64_roundtrip(kid);
        assert(b.subrange(1, 9) =~= be64(kid));
    }
}

/// The first header byte gives back the extension flag, the counter
/// length and, for a small key id, the key id.
proof fn lemma_first_byte(kid: u64, cb: nat)
    requires
        1 <= cb <= 8,
    ensures
        (header_first(kid, cb) & 0x80 != 0) == (kid >= 8),
        ((header_first(kid, cb) & 7) + 1) as nat == cb,
        kid < 8 ==> ((header_first(kid, cb) >> 3) & 7) as u64 == kid,
{
    let flag: u8 = if kid < 8 { 0u8 } else { 0x80u8 };
    let k8: u8 = (kid % 256) as u8;
    let c8: u8 = ((cb - 1) % 256) as u8;
    assert(c8 == cb - 1);
    let first = header_first(kid, cb);
    assert(first == (flag | ((k8 & 7) << 3) | (c8 & 7)) as u8);
    assert(((flag | ((k8 & 7) << 3) | (c8 & 7)) & 0x80 != 0) == (flag == 0x80)) by (bit_vector)
        requires
            flag == 0 || flag == 0x80,
    ;
    assert((flag | ((k8 & 7) << 3) | (c8 & 7)) & 7 == c8) by (bit_vector)
        requires
            flag == 0 || flag == 0x80,
            c8 <= 7,
    ;
    assert(((flag | ((k8 & 7) << 3) | (c8 & 7)) >> 3) & 7 == k8 & 7) by (bit_vector)
        requires
            flag == 0 || flag == 0x80,
    ;
    if kid < 8 {
        assert(k8 & 7 == k8) by (bit_vector)
            requires
                k8 < 8,
        ;
    }
}

pub struct SFrameContext {
    cfg: SFrameConfig,
    keys: KeyStore,
    sender_kid: u64,
    send_counter: u64,
}

impl SFrameContext {
    pub closed spec fn spec_cfg(&self) -> SFrameConfig {
        self.cfg
    }

    pub closed spec fn spec_keys(&self) -> KeyStore {
        self.keys
    }

    pub closed spec fn spec_sender_kid(&self) -> u64 {
        self.sender_kid
    }

    pub closed spec fn spec_counter(&self) -> u64 {
        self.send_counter
    }

    pub fn new(cfg: SFrameConfig, keys: KeyStore, sender_kid: u64) -> (c: Self)
        ensures
            c.spec_cfg() == cfg,
            c.spec_keys() == keys,
            c.spec_sender_kid() == sender_kid,
            c.spec_counter() == 0,
    {
        SFrameContext { cfg, keys, sender_kid, send_counter: 0 }
    }

    /// The key store, to change.
    pub fn keys_mut(&mut self) -> (k: &mut KeyStore)
        ensures
            *k == old(self).spec_keys(),
            final(self).spec_keys() == *final(k),
            final(self).spec_cfg() == old(self).spec_cfg(),
            final(self).spec_sender_kid() == old(self).spec_sender_kid(),
            final(self).spec_counter() == old(self).spec_counter(),
    {
        &mut self.keys
    }

    pub fn keys(&self) -> (k: &KeyStore)
        ensures
            *k == self.spec_keys(),
    {
        &self.keys
    }

    fn sframe_header_len(&self, kid: u64) -> (n: usize)
        ensures
            n == header_len(ctr_len(self.cfg.ctr_bits), kid),
    {
        let ctr_bytes = (self.cfg.ctr_bits as usize + 7) / 8;
        if kid < 8 {
            1 + ctr_bytes
        } else {
            1 + 8 + ctr_bytes
        }
    }

    /// The header bytes for a key id and counter.
    fn encode_header(&self, kid: u64, ctr: u64) -> (h: Vec<u8>)
        requires
            self.cfg.ctr_bits <= 64,
        ensures
            h@ == header_bytes(kid, ctr, ctr_len(self.cfg.ctr_bits)),
            h@.len() == header_len(ctr_len(self.cfg.ctr_bits), kid),
    {
        let ctr_bytes = (self.cfg.ctr_bits as usize + 7) / 8;
        let kid_inline = kid < 8;
        let kid_flag: u8 = if kid_inline { 0u8 } else { 0x80u8 };
        let cb8 = ctr_bytes as u8;
        let ctr_len_field: u8 = (if cb8 == 0 { 0 } else { cb8 - 1 }) & 0x7;
        let first: u8 = kid_flag | ((((kid % 256) as u8) & 0x7) << 3) | ctr_len_field;
        let mut out: Vec<u8> = Vec::new();
        out.push(first);
        if !kid_inline {
            push_u64(&mut out, kid);
        }
        let mut c: Vec<u8> = Vec::new();
        push_u64(&mut c, ctr);
        let tail = sub_vec(c.as_slice(), 8 - ctr_bytes, 8);
        push_all(&mut out, tail.as_slice());
        assert(out@ =~= header_bytes(kid, ctr, ctr_len(self.cfg.ctr_bits)));
        out
    }

    /// Reads a header at the start of `buf`.
    fn decode_header(&self, buf: &[u8]) -> (r: Option<(u64, u64, usize)>)
        ensures
            match decode_header_model(buf@) {
                Some((kid, ctr, n)) => r == Some((kid, ctr, n as usize)),
                None => r is None,
            },
    {
        if buf.len() == 0 {
            return None;
        }
        let ext_kid = (buf[0] & 0x80) != 0;
        let kid_inline = (buf[0] >> 3) & 0x7;
        let b0 = buf[0];
        let low = b0 & 0x7;
        assert(low <= 7) by (bit_vector)
            requires
                low == b0 & 0x7,
        ;
        let ctr_bytes = low as usize + 1;
        let mut off: usize = 1;
        let kid = if ext_kid {
            if buf.len() < 9 {
                return None;
            }
            let k = read_u64(buf, 1);
            off = 9;
            k
        } else {
            kid_inline as u64
        };
        if off + ctr_bytes > buf.len() {
            return None;
        }
        let mut ctr_arr: Vec<u8> = Vec::new();
        crate::wire::push_zeros(&mut ctr_arr, 8 - ctr_bytes);
        push_all(&mut ctr_arr, sub_vec(buf, off, off + ctr_bytes).as_slice());
        let ctr = read_u64(ctr_arr.as_slice(), 0);
        assert(ctr_arr@.subrange(0, 8) =~= ctr_arr@);
        Some((kid, ctr, off + ctr_bytes))
    }

    /// Encrypts a frame into `out`: the RTP header, the SFrame header (the
    /// sender's key id and the next counter), the payload sealed with the
    /// sender's key under the headers as associated data, and the tag.
    /// The counter advances (wrapping) on every call.
    pub fn encrypt_frame(&mut self, rtp_header: &[u8], payload: &[u8], out: &mut [u8]) -> (r: Result<usize, SFrameError>)
        requires
            old(self).spec_cfg().ctr_bits <= 64,
            rtp_header@.len() + 9 + 8 + payload@.len() + TAG_LEN <= usize::MAX,
        ensures
            ({
                let ctr = old(self).spec_counter();
                let kid = old(self).spec_sender_kid();
                let cb = ctr_len(old(self).spec_cfg().ctr_bits);
                let hdr = header_bytes(kid, ctr, cb);
                let ps = rtp_header@.len() + hdr.len();
                let total = ps + payload@.len() + TAG_LEN;
                let written = rtp_header@ + hdr + payload@;
                let rest = old(out)@.subrange((ps + payload@.len()) as int, old(out)@.len() as int);
                &&& final(self).spec_counter() == (if ctr == u64::MAX { 0 } else { ctr + 1 })
                &&& final(self).spec_keys() == old(self).spec_keys()
                &&& final(self).spec_cfg() == old(self).spec_cfg()
                &&& final(self).spec_sender_kid() == kid
                &&& old(out)@.len() < total ==> (match r {
                    Err(SFrameError::BufferTooSmall) => true,
                    _ => false,
                }) && final(out)@ == old(out)@
                &&& old(out)@.len() >= total && old(self).spec_keys().key_of(kid) is None ==> (match r {
                    Err(SFrameError::KeyNotFound(k)) => k == kid,
                    _ => false,
                }) && final(out)@ == written + rest
                &&& old(out)@.len() >= total && old(self).spec_keys().key_of(kid) is Some ==> {
                    let (key, salt) = old(self).spec_keys().key_of(kid)->0;
                    let sealed = aes256_gcm_seal(key, frame_nonce(salt, ctr), rtp_header@ + hdr, payload@);
                    if payload@.len() <= AES_GCM_P_MAX && ps <= AES_GCM_P_MAX {
                        &&& r == Ok::<usize, SFrameError>(total as usize)
                        &&& final(out)@ == rtp_header@ + hdr + sealed.0 + sealed.1 + old(out)@.subrange(
                            total as int,
                            old(out)@.len() as int,
                        )
                    } else {
                        &&& (match r {
                            Err(SFrameError::AuthFailed) => true,
                            _ => false,
                        })
                        &&& final(out)@ == written + rest
                    }
                }
            }),
    {
        let ctr = self.send_counter;
        self.send_counter = if ctr == u64::MAX { 0 } else { ctr + 1 };
        let kid = self.sender_kid;
        let hdr_len = self.sframe_header_len(kid);
        let total_len = rtp_header.len() + hdr_len + payload.len() + TAG_LEN;
        if out.len() < total_len {
            return Err(SFrameError::BufferTooSmall);
        }
        let hdr = self.encode_header(kid, ctr);
        copy_into(out, 0, rtp_header);
        copy_into(out, rtp_header.len(), hdr.as_slice());
        let payload_start = rtp_header.len() + hdr_len;
        copy_into(out, payload_start, payload);
        let ghost written = rtp_header@ + hdr@ + payload@;
        assert(out@ =~= written + old(out)@.subrange(payload_start + payload@.len(), old(out)@.len() as int));
        let mut aad: Vec<u8> = Vec::new();
        push_all(&mut aad, rtp_header);
        push_all(&mut aad, hdr.as_slice());
        let key = match self.keys.get(kid) {
            Some(k) => k,
            None => {
                return Err(SFrameError::KeyNotFound(kid));
            },
        };
        let nonce_arr = key.build_nonce(ctr);
        let mut body = crate::wire::to_vec(payload);
        let tag = match aes256_gcm_seal_in_place(&key.key, &nonce_arr, aad.as_slice(), body.as_mut_slice()) {
            Some(t) => t,
            None => {
                return Err(SFrameError::AuthFailed);
            },
        };
        let ghost before = out@;
        copy_into(out, payload_start, body.as_slice());
        let tag_start = payload_start + payload.len();
        copy_into(out, tag_start, tag.as_slice());
        assert(out@ =~= rtp_header@ + hdr@ + body@ + tag@ + old(out)@.subrange(
            total_len as int,
            old(out)@.len() as int,
        ));
        Ok(total_len)
    }

    /// Decrypts, in place, a frame that follows an RTP header of
    /// `rtp_header_len` bytes; returns the payload length. A missing or cut
    /// header, or no room for the tag, is an invalid header; an unknown key
    /// id and a tag that does not authenticate are errors too, and leave
    /// `buf` as it was.
    #[verifier::rlimit(80)]
    pub fn decrypt_frame(&self, buf: &mut [u8], rtp_header_len: usize) -> (r: Result<usize, SFrameError>)
        ensures
            ({
                let b = old(buf)@;
                let start = rtp_header_len as int;
                let dec = decode_header_model(b.subrange(start, b.len() as int));
                let bad = start >= b.len() || match dec {
                    None => true,
                    Some((_, _, hl)) => b.len() < start + hl + TAG_LEN,
                };
                &&& bad ==> (match r {
                    Err(SFrameError::InvalidHeader) => true,
                    _ => false,
                }) && final(buf)@ == b
                &&& !bad ==> {
                    let (kid, ctr, hl) = dec->0;
                    let ps = start + hl;
                    let ts = b.len() - TAG_LEN;
                    let aad = b.subrange(0, ps);
                    let ct = b.subrange(ps, ts);
                    let tag = b.subrange(ts, b.len() as int);
                    match self.spec_keys().key_of(kid) {
                        None => (match r {
                            Err(SFrameError::KeyNotFound(k)) => k == kid,
                            _ => false,
                        }) && final(buf)@ == b,
                        Some((key, salt)) => {
                            let opened = aes256_gcm_open(key, frame_nonce(salt, ctr), aad, ct, tag);
                            &&& r is Ok ==> r == Ok::<usize, SFrameError>(ct.len() as usize) && opened is Some
                                && final(buf)@ == aad + opened->0 + tag
                            &&& r is Err ==> (match r {
                                Err(SFrameError::AuthFailed) => true,
                                _ => false,
                            }) && final(buf)@ == b
                            &&& forall|p: Seq<u8>|
                                #![trigger aes256_gcm_seal(key, frame_nonce(salt, ctr), aad, p)]
                                aes256_gcm_seal(key, frame_nonce(salt, ctr), aad, p) == (ct, tag) && p.len()
                                    <= AES_GCM_P_MAX && aad.len() <= AES_GCM_P_MAX ==> r == Ok::<usize, SFrameError>(
                                    p.len() as usize,
                                ) && final(buf)@ == aad + p + tag
                        },
                    }
                }
            }),
    {
        let sframe_start = rtp_header_len;
        if sframe_start >= buf.len() {
            return Err(SFrameError::InvalidHeader);
        }
        let (kid, ctr, hdr_len) = match self.decode_header(sub_vec(buf, sframe_start, buf.len()).as_slice()) {
            Some(h) => h,
            None => {
                return Err(SFrameError::InvalidHeader);
            },
        };
        let payload_start = sframe_start + hdr_len;
        if buf.len() - payload_start < TAG_LEN || payload_start > buf.len() {
            return Err(SFrameError::InvalidHeader);
        }
        let total = buf.len();
        let tag_start = total - TAG_LEN;
        let tag_vec = sub_vec(buf, tag_start, total);
        let tag_bytes: [u8; 16] = [
            tag_vec[0], tag_vec[1], tag_vec[2], tag_vec[3], tag_vec[4], tag_vec[5], tag_vec[6], tag_vec[7],
            tag_vec[8], tag_vec[9], tag_vec[10], tag_vec[11], tag_vec[12], tag_vec[13], tag_vec[14], tag_vec[15],
        ];
        assert(tag_bytes@ =~= tag_vec@);
        let aad = sub_vec(buf, 0, payload_start);
        let key = match self.keys.get(kid) {
            Some(k) => k,
            None => {
                return Err(SFrameError::KeyNotFound(kid));
            },
        };
        let nonce_arr = key.build_nonce(ctr);
        let mut ct = sub_vec(buf, payload_start, tag_start);
        if !aes256_gcm_open_in_place(&key.key, &nonce_arr, aad.as_slice(), ct.as_mut_slice(), &tag_bytes) {
            return Err(SFrameError::AuthFailed);
        }
        let n = ct.len();
        copy_into(buf, payload_start, ct.as_slice());
        assert(buf@ =~= aad@ + ct@ + tag_vec@);
        Ok(n)
    }
}

} // verus!
