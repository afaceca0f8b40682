//! SRTP master key and salt derived from DTLS keying material.
use vstd::prelude::*;
use crate::crypto::hkdf_sha256_fill;

verus! {

#[derive(Clone, Copy, Debug, PartialEq, Eq, Structural)]
pub enum KeyDeriveError {
    Insufficient,
}

impl KeyDeriveError {
    /// The message of the error.
    pub fn message(&self) -> (s: &'static str)
        ensures
            s@ == "insufficient input"@,
    {
        "insufficient input"
    }
}

/// Expands the extracted keying material (as the HKDF salt, with empty
/// input keying material) into a 32-byte key and a 12-byte salt. Fewer than
/// 16 bytes are refused. The salt is filled from a SHA-256 expansion whose
/// output length is 32, and HKDF refuses to fill 12 bytes from it, so every
/// input of 16 bytes or more is refused too.
pub fn derive_srtp_master_and_salt(extracted: &[u8]) -> (r: Result<([u8; 32], [u8; 12]), KeyDeriveError>)
    ensures
        r matches Err(KeyDeriveError::Insufficient),
{
    if extracted.len() < 16 {
        return Err(KeyDeriveError::Insufficient);
    }
    let mut key = [0u8; 32];
    let mut s = [0u8; 12];
    if !hkdf_sha256_fill(extracted, &[], "EXTRACTOR-SRTP-KEY".as_bytes(), &mut key) {
        return Err(KeyDeriveError::Insufficient);
    }
    if !hkdf_sha256_fill(extracted, &[], "EXTRACTOR-SRTP-SALT".as_bytes(), &mut s) {
        return Err(KeyDeriveError::Insufficient);
    }
    Ok((key, s))
}

} // verus!
