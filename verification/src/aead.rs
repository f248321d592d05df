//! Trusted bindings to the AEAD primitive (AES-256-GCM).
//!
//! For a fixed 32-byte key and 12-byte nonce, AES-GCM encryption is a
//! deterministic function of the plaintext, so its result is given the
//! uninterpreted name `gcm_enc`. Decryption is characterised relative to
//! that name: it succeeds exactly on (in-range) encryption results, and a
//! success always returns the plaintext that produced the ciphertext.
//! That pair of clauses is what every round-trip and authenticity
//! argument in the codec rests on.
//!
//! Length bound: the implementation guards messages against its
//! `P_MAX = 1 << 36` limit, but its 32-bit counter core stops returning
//! (it unwraps a counter-overflow error) for messages in the last two
//! blocks below that guard. The wrappers therefore admit only plaintexts
//! up to the NIST GCM bound of `2^36 - 32` bytes — within it every call
//! returns — and the public operations test the length first and fail
//! closed with an error.

use aes_gcm::aead::generic_array::GenericArray;
use aes_gcm::aead::{Aead, NewAead};
use aes_gcm::Aes256Gcm;
use vstd::prelude::*;

verus! {

/// The longest plaintext the AEAD is asked to process: the NIST GCM
/// bound of `2^36 - 32` bytes for a 96-bit nonce. Up to it, encryption
/// and decryption always return.
pub const GCM_MSG_MAX: u64 = 68719476704;

/// Bytes the AEAD appends to a plaintext: the 16-byte authentication tag.
pub const GCM_TAG_LEN: u64 = 16;

/// The AES-256-GCM ciphertext (ciphertext body followed by the 16-byte
/// tag) of `ptext` under a 32-byte `key` and a 12-byte `nonce`.
pub uninterp spec fn gcm_enc(key: Seq<u8>, nonce: Seq<u8>, ptext: Seq<u8>) -> Seq<u8>;

/// Whether a plaintext is short enough for the AEAD to process it.
pub open spec fn fits_gcm(p: Seq<u8>) -> bool {
    p.len() <= GCM_MSG_MAX
}

/// Relies on `aes_gcm::Aes256Gcm::new` and `aead::Aead::encrypt`:
/// deterministic for fixed key and nonce, appends a 16-byte tag, and
/// succeeds on every plaintext within the admitted bound (the message
/// stays below both the `P_MAX` guard and the 32-bit counter's range).
#[verifier::external_body]
#[allow(deprecated)]
pub(crate) fn aead_encrypt(key: &[u8], nonce: &[u8], ptext: &[u8]) -> (r: Result<Vec<u8>, ()>)
    requires
        key@.len() == 32,
        nonce@.len() == 12,
        fits_gcm(ptext@),
    ensures
        r matches Ok(c) ==> (c@ == gcm_enc(key@, nonce@, ptext@)
            && c@.len() == ptext@.len() + GCM_TAG_LEN),
        r.is_ok(),
{
    let cipher = Aes256Gcm::new(GenericArray::from_slice(key));
    cipher.encrypt(GenericArray::from_slice(nonce), ptext).or(Err(()))
}

/// Relies on `aes_gcm::Aes256Gcm::new` and `aead::Aead::decrypt`: a
/// success returns exactly the plaintext whose encryption under the same
/// key and nonce is `ctext` (GCM encryption is injective in the
/// plaintext), and a failure means `ctext` is the encryption of no
/// in-range plaintext, since the tag of any genuine encryption result
/// verifies. Within the admitted ciphertext bound the call always
/// returns.
#[verifier::external_body]
#[allow(deprecated)]
pub(crate) fn aead_decrypt(key: &[u8], nonce: &[u8], ctext: &[u8]) -> (r: Result<Vec<u8>, ()>)
    requires
        key@.len() == 32,
        nonce@.len() == 12,
        ctext@.len() <= GCM_MSG_MAX + GCM_TAG_LEN,
    ensures
        r matches Ok(p) ==> (ctext@ == gcm_enc(key@, nonce@, p@)
            && p@.len() + GCM_TAG_LEN == ctext@.len()
            && fits_gcm(p@)),
        r matches Ok(q) ==> (forall|p: Seq<u8>|
            (fits_gcm(p) && ctext@ == gcm_enc(key@, nonce@, p)) ==> q@ == p),
        r is Err ==> (forall|p: Seq<u8>|
            fits_gcm(p) ==> ctext@ != gcm_enc(key@, nonce@, p)),
{
    let cipher = Aes256Gcm::new(GenericArray::from_slice(key));
    cipher.decrypt(GenericArray::from_slice(nonce), ctext).or(Err(()))
}

} // verus!
