//! The envelope codec: a key-encrypting key (KEK) derived from salt and
//! PIN wraps the raw content key; the content key derives a
//! data-encrypting key (DEK) that encrypts payloads.
//!
//! Every key and nonce is derived deterministically:
//! - KEK: BLAKE3 over `salt ‖ pin ‖ domain tag`;
//! - key-wrap nonce: first 12 bytes of SHA-256 over `pin ‖ domain tag`
//!   (independent of the salt);
//! - DEK: BLAKE3 over the raw content key alone;
//! - payload nonce: first 12 bytes of SHA-256 over `salt ‖ domain tag`
//!   (independent of the PIN).
//!
//! Deterministic nonces mean the same (key, nonce) pair recurs whenever
//! the same salt and PIN are used again; callers must encrypt each
//! distinct piece of key material at most once per (salt, PIN) pair, and
//! a batch reuses one (key, nonce) pair for all of its items.

use vstd::prelude::*;

use crate::aead::{aead_decrypt, aead_encrypt, fits_gcm, gcm_enc, GCM_MSG_MAX, GCM_TAG_LEN};
use crate::bytes::append_bytes;
use crate::domain_tag;
use crate::domain_tag_bytes;
use crate::error::CryptoError;
use crate::hashes::{blake3_hash, blake3_of, sha256, sha256_of};
use vstd::pervasive::unreached;
use vstd::slice::{slice_subrange, slice_to_vec};
use vstd::string::StringSliceAdditionalSpecFns;
use vstd::utf8::encode_utf8;

verus! {

/// The key-encrypting key derived from a salt and a PIN.
pub open spec fn kek_of(salt: Seq<u8>, pin: Seq<char>) -> Seq<u8> {
    blake3_of(salt + encode_utf8(pin) + domain_tag())
}

/// The deterministic key-wrap nonce: derived from the PIN alone.
pub open spec fn wrap_nonce_of(pin: Seq<char>) -> Seq<u8> {
    sha256_of(encode_utf8(pin) + domain_tag()).subrange(0, 12)
}

/// The data-encrypting key derived from a raw content key.
pub open spec fn dek_of(key: Seq<u8>) -> Seq<u8> {
    blake3_of(key)
}

/// The deterministic payload nonce: derived from the salt alone.
pub open spec fn content_nonce_of(salt: Seq<u8>) -> Seq<u8> {
    sha256_of(salt + domain_tag()).subrange(0, 12)
}

/// The wrapped form of a raw content key `k` under `(salt, pin)`.
pub open spec fn wrapped_of(salt: Seq<u8>, pin: Seq<char>, k: Seq<u8>) -> Seq<u8> {
    gcm_enc(kek_of(salt, pin), wrap_nonce_of(pin), k)
}

/// Whether the wrapped blob `w` unwraps to the raw content key `k` under
/// `(salt, pin)`: exactly when `w` is the wrapped form of `k`.
pub open spec fn unwraps_to(salt: Seq<u8>, pin: Seq<char>, w: Seq<u8>, k: Seq<u8>) -> bool {
    w == wrapped_of(salt, pin, k)
}

/// The ciphertext of payload `p` under the content key `k` and the salt's
/// deterministic payload nonce.
pub open spec fn payload_ct_of(salt: Seq<u8>, k: Seq<u8>, p: Seq<u8>) -> Seq<u8> {
    gcm_enc(dek_of(k), content_nonce_of(salt), p)
}

/// Whether ciphertext `c` decrypts to payload `p` under salt and content
/// key `k`: exactly when `c` is the encryption of `p`.
pub open spec fn decrypts_to(salt: Seq<u8>, k: Seq<u8>, c: Seq<u8>, p: Seq<u8>) -> bool {
    c == payload_ct_of(salt, k, p)
}

/// The ordered batch of payload ciphertexts for the ordered plaintexts `ps`.
pub open spec fn batch_ct_of(salt: Seq<u8>, k: Seq<u8>, ps: Seq<Seq<u8>>) -> Seq<Seq<u8>> {
    ps.map_values(|p: Seq<u8>| payload_ct_of(salt, k, p))
}

/// Whether every payload in the batch is short enough for the AEAD.
pub open spec fn all_fit_gcm(ps: Seq<Seq<u8>>) -> bool {
    forall|i: int| 0 <= i < ps.len() ==> fits_gcm(#[trigger] ps[i])
}

/// Whether each sealed item is exactly its plaintext plus the 16-byte
/// tag: the length shape every genuine batch of ciphertexts has.
pub open spec fn batch_sealed_lens(cs: Seq<Seq<u8>>, ps: Seq<Seq<u8>>) -> bool {
    cs.len() == ps.len() && (forall|i: int|
        0 <= i < ps.len() ==> #[trigger] cs[i].len() == ps[i].len() + GCM_TAG_LEN)
}

/// Cuts a 96-bit nonce from a hash output: the first 12 bytes. Rejects a
/// hash output shorter than 12 bytes — impossible with a 256-bit hash,
/// but checked so that a swapped primitive fails closed.
pub fn nonce_from_hash(h: &[u8]) -> (r: Result<Vec<u8>, CryptoError>)
    ensures
        h@.len() >= 12 ==> (r matches Ok(n) && n@ == h@.subrange(0, 12)),
        h@.len() < 12 ==> (r matches Err(e) && e == CryptoError::InvalidInput),
{
    if h.len() < 12 {
        return Err(CryptoError::InvalidInput);
    }
    Ok(slice_to_vec(slice_subrange(h, 0, 12)))
}

/// Derives the KEK for `(salt, pin)`.
fn derive_kek(salt: &[u8], pin: &str) -> (r: Vec<u8>)
    ensures
        r@ == kek_of(salt@, pin@),
        r@.len() == 32,
{
    let mut msg: Vec<u8> = Vec::new();
    append_bytes(&mut msg, salt);
    append_bytes(&mut msg, pin.as_bytes());
    let tag = domain_tag_bytes();
    append_bytes(&mut msg, tag.as_slice());
    proof {
        assert(msg@ =~= salt@ + encode_utf8(pin@) + domain_tag());
    }
    blake3_hash(msg.as_slice())
}

/// Derives the deterministic key-wrap nonce for a PIN.
fn derive_wrap_nonce(pin: &str) -> (r: Vec<u8>)
    ensures
        r@ == wrap_nonce_of(pin@),
        r@.len() == 12,
{
    let mut msg: Vec<u8> = Vec::new();
    append_bytes(&mut msg, pin.as_bytes());
    let tag = domain_tag_bytes();
    append_bytes(&mut msg, tag.as_slice());
    proof {
        assert(msg@ =~= encode_utf8(pin@) + domain_tag());
    }
    let h = sha256(msg.as_slice());
    match nonce_from_hash(h.as_slice()) {
        Ok(n) => n,
        Err(_) => unreached(),
    }
}

/// Derives the DEK from a raw content key.
fn derive_dek(key: &[u8]) -> (r: Vec<u8>)
    ensures
        r@ == dek_of(key@),
        r@.len() == 32,
{
    blake3_hash(key)
}

/// Derives the deterministic payload nonce for a salt.
fn derive_content_nonce(salt: &[u8]) -> (r: Vec<u8>)
    ensures
        r@ == content_nonce_of(salt@),
        r@.len() == 12,
{
    let mut msg: Vec<u8> = Vec::new();
    append_bytes(&mut msg, salt);
    let tag = domain_tag_bytes();
    append_bytes(&mut msg, tag.as_slice());
    proof {
        assert(msg@ =~= salt@ + domain_tag());
    }
    let h = sha256(msg.as_slice());
    match nonce_from_hash(h.as_slice()) {
        Ok(n) => n,
        Err(_) => unreached(),
    }
}

/// Wraps raw content-key bytes under the KEK of `(salt, pin)`. Succeeds
/// on every plaintext within the AEAD's bound — the length is tested
/// first, so the call always returns — and the result is the plaintext's
/// length plus the 16-byte tag.
pub fn encrypt_key(salt: &[u8], pin: &str, ptext: &[u8]) -> (r: Result<Vec<u8>, CryptoError>)
    ensures
        r matches Ok(c) ==> (c@ == wrapped_of(salt@, pin@, ptext@)
            && c@.len() == ptext@.len() + GCM_TAG_LEN),
        r.is_ok() <==> fits_gcm(ptext@),
        r matches Err(e) ==> e == CryptoError::CipherError,
{
    if ptext.len() as u64 > GCM_MSG_MAX {
        return Err(CryptoError::CipherError);
    }
    let kek = derive_kek(salt, pin);
    let nonce = derive_wrap_nonce(pin);
    match aead_encrypt(kek.as_slice(), nonce.as_slice(), ptext) {
        Ok(c) => Ok(c),
        Err(_) => Err(CryptoError::CipherError),
    }
}

/// Unwraps a wrapped content key under the KEK of `(salt, pin)`. A success
/// returns exactly the raw key whose wrapped form is `ctext`; it fails —
/// with `CipherError`, revealing nothing more — whenever `ctext` is not a
/// wrapped key of this `(salt, pin)` pair (wrong PIN, wrong salt, or
/// tampered bytes). Inputs beyond the AEAD's bound are rejected up
/// front, so the call is total and never reaches the primitive.
pub fn decrypt_key(salt: &[u8], pin: &str, ctext: &[u8]) -> (r: Result<Vec<u8>, CryptoError>)
    ensures
        r matches Ok(k) ==> (unwraps_to(salt@, pin@, ctext@, k@)
            && fits_gcm(k@)
            && k@.len() + GCM_TAG_LEN == ctext@.len()),
        forall|k: Seq<u8>|
            #![trigger wrapped_of(salt@, pin@, k)]
            (fits_gcm(k) && k.len() + GCM_TAG_LEN == ctext@.len()
                && unwraps_to(salt@, pin@, ctext@, k)) ==> (r matches Ok(p) && p@ == k),
        (forall|k: Seq<u8>|
            #![trigger wrapped_of(salt@, pin@, k)]
            (fits_gcm(k) && k.len() + GCM_TAG_LEN == ctext@.len())
                ==> !unwraps_to(salt@, pin@, ctext@, k)) ==> r is Err,
        r matches Err(e) ==> e == CryptoError::CipherError,
{
    if ctext.len() as u64 > GCM_MSG_MAX + GCM_TAG_LEN {
        return Err(CryptoError::CipherError);
    }
    let kek = derive_kek(salt, pin);
    let nonce = derive_wrap_nonce(pin);
    match aead_decrypt(kek.as_slice(), nonce.as_slice(), ctext) {
        Ok(k) => Ok(k),
        Err(_) => Err(CryptoError::CipherError),
    }
}

/// Encrypts a payload: unwraps the content key (propagating its failure
/// — this call fails exactly when the unwrap or the length test does),
/// derives the DEK and the salt's payload nonce, and encrypts. A success
/// is always the payload ciphertext for the key that `ckey` unwraps to;
/// an over-long payload is rejected up front with `CipherError`.
pub fn encrypt(salt: &[u8], pin: &str, ckey: &[u8], ptext: &[u8]) -> (r: Result<
    Vec<u8>,
    CryptoError,
>)
    ensures
        r matches Ok(c) ==> (fits_gcm(ptext@)
            && c@.len() == ptext@.len() + GCM_TAG_LEN
            && (exists|k: Seq<u8>|
                #[trigger] unwraps_to(salt@, pin@, ckey@, k)
                    && fits_gcm(k)
                    && k.len() + GCM_TAG_LEN == ckey@.len()
                    && c@ == payload_ct_of(salt@, k, ptext@))),
        forall|k: Seq<u8>|
            #![trigger wrapped_of(salt@, pin@, k)]
            (fits_gcm(k) && k.len() + GCM_TAG_LEN == ckey@.len()
                && unwraps_to(salt@, pin@, ckey@, k) && fits_gcm(ptext@))
                ==> (r matches Ok(c) && c@ == payload_ct_of(salt@, k, ptext@)),
        (forall|k: Seq<u8>|
            #![trigger wrapped_of(salt@, pin@, k)]
            (fits_gcm(k) && k.len() + GCM_TAG_LEN == ckey@.len())
                ==> !unwraps_to(salt@, pin@, ckey@, k)) ==> r is Err,
        r matches Err(e) ==> e == CryptoError::CipherError,
{
    let key = match decrypt_key(salt, pin, ckey) {
        Ok(k) => k,
        Err(_) => {
            return Err(CryptoError::CipherError);
        },
    };
    if ptext.len() as u64 > GCM_MSG_MAX {
        return Err(CryptoError::CipherError);
    }
    let dek = derive_dek(key.as_slice());
    let nonce = derive_content_nonce(salt);
    match aead_encrypt(dek.as_slice(), nonce.as_slice(), ptext) {
        Ok(c) => Ok(c),
        Err(_) => Err(CryptoError::CipherError),
    }
}

/// Decrypts a payload: unwraps the content key (propagating its failure),
/// derives the DEK and the salt's payload nonce, and decrypts. A success
/// returns exactly the payload whose ciphertext is `ctext`; a wrong PIN,
/// a wrong salt, or tampered bytes fail with `CipherError`, and an
/// over-long ciphertext is rejected up front rather than handed to the
/// primitive.
pub fn decrypt(salt: &[u8], pin: &str, ckey: &[u8], ctext: &[u8]) -> (r: Result<
    Vec<u8>,
    CryptoError,
>)
    ensures
        r matches Ok(p) ==> (p@.len() + GCM_TAG_LEN == ctext@.len()
            && fits_gcm(p@)
            && (exists|k: Seq<u8>|
                #[trigger] unwraps_to(salt@, pin@, ckey@, k)
                    && fits_gcm(k)
                    && k.len() + GCM_TAG_LEN == ckey@.len()
                    && decrypts_to(salt@, k, ctext@, p@))),
        forall|k: Seq<u8>, p: Seq<u8>|
            #![trigger wrapped_of(salt@, pin@, k), payload_ct_of(salt@, k, p)]
            (fits_gcm(k) && k.len() + GCM_TAG_LEN == ckey@.len()
                && unwraps_to(salt@, pin@, ckey@, k)
                && fits_gcm(p) && p.len() + GCM_TAG_LEN == ctext@.len()
                && decrypts_to(salt@, k, ctext@, p))
                ==> (r matches Ok(q) && q@ == p),
        (forall|k: Seq<u8>|
            #![trigger wrapped_of(salt@, pin@, k)]
            (fits_gcm(k) && k.len() + GCM_TAG_LEN == ckey@.len())
                ==> !unwraps_to(salt@, pin@, ckey@, k)) ==> r is Err,
        r matches Err(e) ==> e == CryptoError::CipherError,
{
    let key = match decrypt_key(salt, pin, ckey) {
        Ok(k) => k,
        Err(_) => {
            return Err(CryptoError::CipherError);
        },
    };
    if ctext.len() as u64 > GCM_MSG_MAX + GCM_TAG_LEN {
        return Err(CryptoError::CipherError);
    }
    let dek = derive_dek(key.as_slice());
    let nonce = derive_content_nonce(salt);
    match aead_decrypt(dek.as_slice(), nonce.as_slice(), ctext) {
        Ok(p) => Ok(p),
        Err(_) => Err(CryptoError::CipherError),
    }
}

/// Encrypts an ordered batch of payloads: unwraps the content key once,
/// derives one DEK and one nonce, and encrypts every item under that same
/// pair, preserving order. All-or-nothing: if the unwrap or any item
/// fails, no ciphertext is returned for any item. Note the single
/// deterministic nonce is shared by every item of the batch.
pub fn encrypt_multiple(salt: &[u8], pin: &str, ckey: &[u8], ptext: Vec<&[u8]>) -> (r: Result<
    Vec<Vec<u8>>,
    CryptoError,
>)
    ensures
        r matches Ok(cs) ==> (all_fit_gcm(ptext.deep_view())
            && batch_sealed_lens(cs.deep_view(), ptext.deep_view())
            && (exists|k: Seq<u8>|
                #[trigger] unwraps_to(salt@, pin@, ckey@, k)
                    && fits_gcm(k)
                    && k.len() + GCM_TAG_LEN == ckey@.len()
                    && cs.deep_view() == batch_ct_of(salt@, k, ptext.deep_view()))),
        forall|k: Seq<u8>|
            #![trigger wrapped_of(salt@, pin@, k)]
            (fits_gcm(k) && k.len() + GCM_TAG_LEN == ckey@.len()
                && unwraps_to(salt@, pin@, ckey@, k) && all_fit_gcm(ptext.deep_view()))
                ==> (r matches Ok(cs) && cs.deep_view() == batch_ct_of(salt@, k, ptext.deep_view())),
        (forall|k: Seq<u8>|
            #![trigger wrapped_of(salt@, pin@, k)]
            (fits_gcm(k) && k.len() + GCM_TAG_LEN == ckey@.len())
                ==> !unwraps_to(salt@, pin@, ckey@, k)) ==> r is Err,
        r matches Err(e) ==> e == CryptoError::CipherError,
{
    let key = match decrypt_key(salt, pin, ckey) {
        Ok(k) => k,
        Err(_) => {
            return Err(CryptoError::CipherError);
        },
    };
    let dek = derive_dek(key.as_slice());
    let nonce = derive_content_nonce(salt);
    let mut out: Vec<Vec<u8>> = Vec::new();
    let mut i: usize = 0;
    while i < ptext.len()
        invariant
            i <= ptext@.len(),
            out@.len() == i,
            dek@ == dek_of(key@),
            dek@.len() == 32,
            nonce@ == content_nonce_of(salt@),
            nonce@.len() == 12,
            unwraps_to(salt@, pin@, ckey@, key@),
            fits_gcm(key@),
            key@.len() + GCM_TAG_LEN == ckey@.len(),
            forall|k2: Seq<u8>|
                #![trigger wrapped_of(salt@, pin@, k2)]
                (fits_gcm(k2) && k2.len() + GCM_TAG_LEN == ckey@.len()
                    && unwraps_to(salt@, pin@, ckey@, k2)) ==> k2 == key@,
            forall|j: int| 0 <= j < i ==> fits_gcm(#[trigger] ptext@[j].deep_view()),
            forall|j: int| 0 <= j < i ==> #[trigger] out@[j].deep_view()
                == payload_ct_of(salt@, key@, ptext@[j].deep_view()),
            forall|j: int| 0 <= j < i ==> #[trigger] out@[j].deep_view().len()
                == ptext@[j].deep_view().len() + GCM_TAG_LEN,
        decreases ptext@.len() - i,
    {
        let p: &[u8] = ptext[i];
        proof {
            assert(p.deep_view() =~= p@);
        }
        if p.len() as u64 > GCM_MSG_MAX {
            proof {
                assert(ptext.deep_view()[i as int] == ptext@[i as int].deep_view());
                assert(!fits_gcm(ptext.deep_view()[i as int]));
            }
            return Err(CryptoError::CipherError);
        }
        match aead_encrypt(dek.as_slice(), nonce.as_slice(), p) {
            Ok(c) => {
                proof {
                    assert(c.deep_view() =~= c@);
                }
                out.push(c);
            },
            Err(_) => {
                return Err(CryptoError::CipherError);
            },
        }
        i = i + 1;
    }
    proof {
        assert(all_fit_gcm(ptext.deep_view()));
        assert(out.deep_view() =~= batch_ct_of(salt@, key@, ptext.deep_view()));
        assert(batch_sealed_lens(out.deep_view(), ptext.deep_view()));
    }
    Ok(out)
}

/// Decrypts an ordered batch of payload ciphertexts: the mirror of
/// `encrypt_multiple`, with the same single (key, nonce) pair shared by
/// every item and the same all-or-nothing behaviour. Order is preserved:
/// the i-th plaintext belongs to the i-th ciphertext.
pub fn decrypt_multiple(salt: &[u8], pin: &str, ckey: &[u8], ctext: Vec<&[u8]>) -> (r: Result<
    Vec<Vec<u8>>,
    CryptoError,
>)
    ensures
        r matches Ok(ps) ==> (all_fit_gcm(ps.deep_view())
            && batch_sealed_lens(ctext.deep_view(), ps.deep_view())
            && (exists|k: Seq<u8>|
                #[trigger] unwraps_to(salt@, pin@, ckey@, k)
                    && fits_gcm(k)
                    && k.len() + GCM_TAG_LEN == ckey@.len()
                    && (forall|i: int| 0 <= i < ps.deep_view().len()
                        ==> decrypts_to(salt@, k, ctext.deep_view()[i], #[trigger] ps.deep_view()[i])))),
        forall|k: Seq<u8>, ps: Seq<Seq<u8>>|
            #![trigger wrapped_of(salt@, pin@, k), batch_ct_of(salt@, k, ps)]
            (fits_gcm(k) && k.len() + GCM_TAG_LEN == ckey@.len()
                && unwraps_to(salt@, pin@, ckey@, k)
                && all_fit_gcm(ps) && batch_sealed_lens(ctext.deep_view(), ps)
                && ctext.deep_view() == batch_ct_of(salt@, k, ps))
                ==> (r matches Ok(qs) && qs.deep_view() == ps),
        (forall|k: Seq<u8>|
            #![trigger wrapped_of(salt@, pin@, k)]
            (fits_gcm(k) && k.len() + GCM_TAG_LEN == ckey@.len())
                ==> !unwraps_to(salt@, pin@, ckey@, k)) ==> r is Err,
        r matches Err(e) ==> e == CryptoError::CipherError,
{
    let key = match decrypt_key(salt, pin, ckey) {
        Ok(k) => k,
        Err(_) => {
            return Err(CryptoError::CipherError);
        },
    };
    let dek = derive_dek(key.as_slice());
    let nonce = derive_content_nonce(salt);
    let mut out: Vec<Vec<u8>> = Vec::new();
    let mut i: usize = 0;
    while i < ctext.len()
        invariant
            i <= ctext@.len(),
            out@.len() == i,
            dek@ == dek_of(key@),
            dek@.len() == 32,
            nonce@ == content_nonce_of(salt@),
            nonce@.len() == 12,
            unwraps_to(salt@, pin@, ckey@, key@),
            fits_gcm(key@),
            key@.len() + GCM_TAG_LEN == ckey@.len(),
            forall|k2: Seq<u8>|
                #![trigger wrapped_of(salt@, pin@, k2)]
                (fits_gcm(k2) && k2.len() + GCM_TAG_LEN == ckey@.len()
                    && unwraps_to(salt@, pin@, ckey@, k2)) ==> k2 == key@,
            forall|j: int| 0 <= j < i ==> decrypts_to(
                salt@,
                key@,
                ctext@[j].deep_view(),
                #[trigger] out@[j].deep_view(),
            ),
            forall|j: int| 0 <= j < i ==> fits_gcm(#[trigger] out@[j].deep_view()),
            forall|j: int| 0 <= j < i ==> #[trigger] out@[j].deep_view().len() + GCM_TAG_LEN
                == ctext@[j].deep_view().len(),
            forall|j: int, p: Seq<u8>|
                #![trigger ctext@[j].deep_view(), payload_ct_of(salt@, key@, p)]
                (0 <= j < i && fits_gcm(p) && decrypts_to(salt@, key@, ctext@[j].deep_view(), p))
                    ==> out@[j].deep_view() == p,
        decreases ctext@.len() - i,
    {
        let c: &[u8] = ctext[i];
        proof {
            assert(c.deep_view() =~= c@);
        }
        if c.len() as u64 > GCM_MSG_MAX + GCM_TAG_LEN {
            proof {
                assert forall|k2: Seq<u8>, ps: Seq<Seq<u8>>|
                    (fits_gcm(k2) && k2.len() + GCM_TAG_LEN == ckey@.len()
                        && unwraps_to(salt@, pin@, ckey@, k2)
                        && all_fit_gcm(ps) && batch_sealed_lens(ctext.deep_view(), ps)
                        && ctext.deep_view() == batch_ct_of(salt@, k2, ps))
                        implies false by {
                    assert(ps.len() == ctext.deep_view().len());
                    assert(ctext.deep_view().len() == ctext@.len());
                    assert(fits_gcm(ps[i as int]));
                    assert(ctext.deep_view()[i as int].len() == ps[i as int].len() + GCM_TAG_LEN);
                    assert(ctext.deep_view()[i as int] == ctext@[i as int].deep_view());
                }
            }
            return Err(CryptoError::CipherError);
        }
        match aead_decrypt(dek.as_slice(), nonce.as_slice(), c) {
            Ok(p) => {
                proof {
                    assert(p.deep_view() =~= p@);
                }
                out.push(p);
            },
            Err(_) => {
                proof {
                    assert forall|k2: Seq<u8>, ps: Seq<Seq<u8>>|
                        (fits_gcm(k2) && k2.len() + GCM_TAG_LEN == ckey@.len()
                            && unwraps_to(salt@, pin@, ckey@, k2)
                            && all_fit_gcm(ps) && batch_sealed_lens(ctext.deep_view(), ps)
                            && ctext.deep_view() == batch_ct_of(salt@, k2, ps))
                            implies false by {
                        assert(k2 == key@);
                        assert(ps.len() == ctext.deep_view().len());
                        assert(ctext.deep_view().len() == ctext@.len());
                        assert(ctext.deep_view()[i as int] == payload_ct_of(salt@, key@, ps[i as int]));
                        assert(fits_gcm(ps[i as int]));
                        assert(ctext.deep_view()[i as int] == ctext@[i as int].deep_view());
                        assert(c@ == payload_ct_of(salt@, key@, ps[i as int]));
                    }
                }
                return Err(CryptoError::CipherError);
            },
        }
        i = i + 1;
    }
    proof {
        assert(out.deep_view().len() == ctext.deep_view().len());
        assert(all_fit_gcm(out.deep_view()));
        assert(batch_sealed_lens(ctext.deep_view(), out.deep_view()));
        assert forall|k2: Seq<u8>, ps: Seq<Seq<u8>>|
            (fits_gcm(k2) && k2.len() + GCM_TAG_LEN == ckey@.len()
                && unwraps_to(salt@, pin@, ckey@, k2)
                && all_fit_gcm(ps) && batch_sealed_lens(ctext.deep_view(), ps)
                && ctext.deep_view() == batch_ct_of(salt@, k2, ps))
                implies out.deep_view() == ps by {
            assert(k2 == key@);
            assert(ps.len() == ctext@.len());
            assert forall|j: int| 0 <= j < ps.len() implies out.deep_view()[j] == ps[j] by {
                assert(ctext.deep_view()[j] == payload_ct_of(salt@, key@, ps[j]));
                assert(fits_gcm(ps[j]));
                assert(out@[j].deep_view() == ps[j]);
            }
            assert(out.deep_view() =~= ps);
        }
    }
    Ok(out)
}

/// Batch order preservation: the batch of ciphertexts for the ordered
/// plaintexts `ps` has one ciphertext per plaintext, and the i-th
/// ciphertext decrypts to the i-th plaintext; with the contracts of
/// `encrypt_multiple` and `decrypt_multiple`, decrypting an encrypted
/// batch returns the original plaintexts in their original order.
pub proof fn lemma_batch_round_trip(salt: Seq<u8>, k: Seq<u8>, ps: Seq<Seq<u8>>)
    ensures
        batch_ct_of(salt, k, ps).len() == ps.len(),
        forall|i: int| 0 <= i < ps.len()
            ==> decrypts_to(salt, k, #[trigger] batch_ct_of(salt, k, ps)[i], ps[i]),
{
}

/// Key-wrap round trip: the wrapped form of a raw key `k` under
/// `(salt, pin)` unwraps to `k` under the same salt and PIN; with the
/// contract of `decrypt_key`, unwrapping the output of `encrypt_key`
/// returns `k` itself whenever the AEAD accepted `k`.
pub proof fn lemma_key_wrap_round_trip(salt: Seq<u8>, pin: Seq<char>, k: Seq<u8>)
    ensures
        unwraps_to(salt, pin, wrapped_of(salt, pin, k), k),
{
}

/// Payload round trip: the ciphertext of payload `p` under salt and
/// content key `k` decrypts to `p` under the same salt and key; with the
/// contracts of `encrypt` and `decrypt`, decrypting an encryption of `p`
/// with the same salt, PIN and wrapped key returns `p` itself.
pub proof fn lemma_payload_round_trip(salt: Seq<u8>, k: Seq<u8>, p: Seq<u8>)
    ensures
        decrypts_to(salt, k, payload_ct_of(salt, k, p), p),
{
}

} // verus!
