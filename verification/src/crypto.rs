//! The cryptographic primitives the library draws from `ring` and
//! `aes-gcm`: HKDF with SHA-256, the system random generator, and
//! AES-128-GCM and AES-256-GCM sealing and opening.
use vstd::prelude::*;
use aes_gcm::aead::{AeadInPlace, KeyInit};

verus! {

/// Longest plaintext AES-GCM seals (2^36 bytes).
pub const AES_GCM_P_MAX: u64 = 0x10_0000_0000;

/// Longest associated data AES-GCM takes (2^36 bytes).
pub const AES_GCM_A_MAX: u64 = 0x10_0000_0000;

/// Longest ciphertext AES-GCM opens (2^36 + 16 bytes).
pub const AES_GCM_C_MAX: u64 = 0x10_0000_0010;

/// The 32 bytes of HKDF-SHA256 output for a salt, input keying material and
/// info, as ring computes them.
pub uninterp spec fn hkdf_sha256(salt: Seq<u8>, ikm: Seq<u8>, info: Seq<u8>) -> Seq<u8>;

/// The ciphertext and the 16-byte tag that AES-256-GCM makes of a
/// plaintext under a key, a nonce and associated data.
pub uninterp spec fn aes256_gcm_seal(key: Seq<u8>, nonce: Seq<u8>, aad: Seq<u8>, pt: Seq<u8>) -> (Seq<u8>, Seq<u8>);

/// The plaintext that AES-256-GCM recovers from a ciphertext and tag, or
/// `None` when the tag does not authenticate them.
pub uninterp spec fn aes256_gcm_open(
    key: Seq<u8>,
    nonce: Seq<u8>,
    aad: Seq<u8>,
    ct: Seq<u8>,
    tag: Seq<u8>,
) -> Option<Seq<u8>>;

/// The ciphertext and the 16-byte tag that AES-128-GCM makes of a
/// plaintext under a key, a nonce and associated data.
pub uninterp spec fn aes128_gcm_seal(key: Seq<u8>, nonce: Seq<u8>, aad: Seq<u8>, pt: Seq<u8>) -> (Seq<u8>, Seq<u8>);

/// The plaintext that AES-128-GCM recovers from a ciphertext and tag, or
/// `None` when the tag does not authenticate them.
pub uninterp spec fn aes128_gcm_open(
    key: Seq<u8>,
    nonce: Seq<u8>,
    aad: Seq<u8>,
    ct: Seq<u8>,
    tag: Seq<u8>,
) -> Option<Seq<u8>>;

/// ring's HKDF with SHA-256: `Salt::new(HKDF_SHA256, salt).extract(ikm)`,
/// then `expand(&[info], HKDF_SHA256)` (whose output length is SHA-256's
/// 32 bytes, so it never fails) and `fill(out)`. `fill` fails, before
/// writing anything, exactly when `out` is not 32 bytes long; otherwise
/// `out` holds the output.
#[verifier::external_body]
pub(crate) fn hkdf_sha256_fill(salt: &[u8], ikm: &[u8], info: &[u8], out: &mut [u8]) -> (ok: bool)
    ensures
        ok == (old(out)@.len() == 32),
        final(out)@.len() == old(out)@.len(),
        ok ==> final(out)@ == hkdf_sha256(salt@, ikm@, info@),
        !ok ==> final(out)@ == old(out)@,
{
    let prk = ring::hkdf::Salt::new(ring::hkdf::HKDF_SHA256, salt).extract(ikm);
    let chunks: [&[u8]; 1] = [info];
    match prk.expand(&chunks, ring::hkdf::HKDF_SHA256) {
        Ok(okm) => okm.fill(out).is_ok(),
        Err(_) => false,
    }
}

/// Fills `dest` from ring's `SystemRandom`, the operating system's
/// generator; false when it fails. Nothing is stated of the bytes.
#[verifier::external_body]
pub(crate) fn system_random_fill(dest: &mut [u8]) -> (ok: bool)
    ensures
        final(dest)@.len() == old(dest)@.len(),
{
    ring::rand::SecureRandom::fill(&ring::rand::SystemRandom::new(), dest).is_ok()
}

/// `Aes256Gcm::encrypt_in_place_detached` with a cipher made from `key`:
/// encrypts `buf` in place and returns the tag. It refuses, leaving `buf`
/// as it was, a plaintext or associated data longer than 2^36 bytes.
#[verifier::external_body]
pub(crate) fn aes256_gcm_seal_in_place(key: &[u8; 32], nonce: &[u8; 12], aad: &[u8], buf: &mut [u8]) -> (tag: Option<[u8; 16]>)
    ensures
        final(buf)@.len() == old(buf)@.len(),
        tag is Some <==> (old(buf)@.len() <= AES_GCM_P_MAX && aad@.len() <= AES_GCM_A_MAX),
        tag is Some ==> (final(buf)@, tag->0@) == aes256_gcm_seal(key@, nonce@, aad@, old(buf)@),
        tag is None ==> final(buf)@ == old(buf)@,
{
    let cipher = match aes_gcm::Aes256Gcm::new_from_slice(key) {
        Ok(c) => c,
        Err(_) => return None,
    };
    let n = aes_gcm::aead::generic_array::GenericArray::from_slice(nonce);
    match cipher.encrypt_in_place_detached(n, aad, buf) {
        Ok(t) => {
            let mut out = [0u8; 16];
            out.copy_from_slice(t.as_slice());
            Some(out)
        },
        Err(_) => None,
    }
}

/// `Aes256Gcm::decrypt_in_place_detached` with a cipher made from `key`:
/// on success `buf` holds the plaintext. It fails, leaving `buf` as it was,
/// when the ciphertext is longer than 2^36 + 16 bytes, the associated data
/// longer than 2^36 bytes, or the tag does not authenticate them. What
/// sealing a plaintext gave, opening with the same key, nonce and data gives
/// back.
#[verifier::external_body]
pub(crate) fn aes256_gcm_open_in_place(key: &[u8; 32], nonce: &[u8; 12], aad: &[u8], buf: &mut [u8], tag: &[u8; 16]) -> (ok: bool)
    ensures
        final(buf)@.len() == old(buf)@.len(),
        ok <==> (old(buf)@.len() <= AES_GCM_C_MAX && aad@.len() <= AES_GCM_A_MAX && aes256_gcm_open(
            key@,
            nonce@,
            aad@,
            old(buf)@,
            tag@,
        ) is Some),
        ok ==> final(buf)@ == aes256_gcm_open(key@, nonce@, aad@, old(buf)@, tag@)->0,
        !ok ==> final(buf)@ == old(buf)@,
        forall|p: Seq<u8>|
            #![trigger aes256_gcm_seal(key@, nonce@, aad@, p)]
            aes256_gcm_seal(key@, nonce@, aad@, p) == (old(buf)@, tag@) && p.len() <= AES_GCM_P_MAX && aad@.len()
                <= AES_GCM_A_MAX ==> ok && final(buf)@ == p,
{
    let cipher = match aes_gcm::Aes256Gcm::new_from_slice(key) {
        Ok(c) => c,
        Err(_) => return false,
    };
    let n = aes_gcm::aead::generic_array::GenericArray::from_slice(nonce);
    let t = aes_gcm::aead::generic_array::GenericArray::from_slice(tag);
    cipher.decrypt_in_place_detached(n, aad, buf, t).is_ok()
}

/// `Aes128Gcm::encrypt_in_place_detached` with a cipher made from `key`
/// by `new_from_slice`: encrypts `buf` in place and returns the tag. It
/// refuses, leaving `buf` as it was, a plaintext or associated data longer
/// than 2^36 bytes.
#[verifier::external_body]
pub(crate) fn aes128_gcm_seal_in_place(key: &[u8; 16], nonce: &[u8; 12], aad: &[u8], buf: &mut [u8]) -> (tag: Option<[u8; 16]>)
    ensures
        final(buf)@.len() == old(buf)@.len(),
        tag is Some <==> (old(buf)@.len() <= AES_GCM_P_MAX && aad@.len() <= AES_GCM_A_MAX),
        tag is Some ==> (final(buf)@, tag->0@) == aes128_gcm_seal(key@, nonce@, aad@, old(buf)@),
        tag is None ==> final(buf)@ == old(buf)@,
{
    let cipher = match aes_gcm::Aes128Gcm::new_from_slice(key) {
        Ok(c) => c,
        Err(_) => return None,
    };
    let n = aes_gcm::aead::generic_array::GenericArray::from_slice(nonce);
    match cipher.encrypt_in_place_detached(n, aad, buf) {
        Ok(t) => {
            let mut out = [0u8; 16];
            out.copy_from_slice(t.as_slice());
            Some(out)
        },
        Err(_) => None,
    }
}

/// `Aes128Gcm::decrypt_in_place_detached` with a cipher made from `key` by
/// `new_from_slice`: on success `buf` holds the plaintext. It fails,
/// leaving `buf` as it was, when the ciphertext is longer than 2^36 + 16
/// bytes, the associated data longer than 2^36 bytes, or the tag does not
/// authenticate them. What sealing a plaintext gave, opening with the same
/// key, nonce and data gives back.
#[verifier::external_body]
pub(crate) fn aes128_gcm_open_in_place(key: &[u8; 16], nonce: &[u8; 12], aad: &[u8], buf: &mut [u8], tag: &[u8; 16]) -> (ok: bool)
    ensures
        final(buf)@.len() == old(buf)@.len(),
        ok <==> (old(buf)@.len() <= AES_GCM_C_MAX && aad@.len() <= AES_GCM_A_MAX && aes128_gcm_open(
            key@,
            nonce@,
            aad@,
            old(buf)@,
            tag@,
        ) is Some),
        ok ==> final(buf)@ == aes128_gcm_open(key@, nonce@, aad@, old(buf)@, tag@)->0,
        !ok ==> final(buf)@ == old(buf)@,
        forall|p: Seq<u8>|
            #![trigger aes128_gcm_seal(key@, nonce@, aad@, p)]
            aes128_gcm_seal(key@, nonce@, aad@, p) == (old(buf)@, tag@) && p.len() <= AES_GCM_P_MAX && aad@.len()
                <= AES_GCM_A_MAX ==> ok && final(buf)@ == p,
{
    let cipher = match aes_gcm::Aes128Gcm::new_from_slice(key) {
        Ok(c) => c,
        Err(_) => return false,
    };
    let n = aes_gcm::aead::generic_array::GenericArray::from_slice(nonce);
    let t = aes_gcm::aead::generic_array::GenericArray::from_slice(tag);
    cipher.decrypt_in_place_detached(n, aad, buf, t).is_ok()
}

} // verus!
