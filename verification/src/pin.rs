//! PIN fingerprints: deriving a verifiable fingerprint of a PIN and
//! checking candidate PINs against it, without ever storing the PIN.

use vstd::prelude::*;

use crate::bytes::{append_bytes, i64_le_bytes, i64_to_le_bytes};
use crate::hashes::{sha256, sha256_of};
use vstd::string::StringSliceAdditionalSpecFns;
use vstd::utf8::encode_utf8;

verus! {

/// The fingerprint of a PIN: the SHA-256 digest of the salt, the PIN's
/// UTF-8 bytes, and the little-endian bytes of the index, concatenated.
/// The salt separates installations; the index separates derivation slots
/// on one device.
pub open spec fn fingerprint_of(salt: Seq<u8>, pin: Seq<char>, index: i64) -> Seq<u8> {
    sha256_of(salt + encode_utf8(pin) + i64_le_bytes(index))
}

/// Whether a candidate fingerprint is exactly the one derived from the
/// given salt, PIN and index.
pub open spec fn pin_accepted(salt: Seq<u8>, pin: Seq<char>, index: i64, fp: Seq<u8>) -> bool {
    fp == fingerprint_of(salt, pin, index)
}

/// Byte equality of two slices, computed without short-circuiting so that
/// the running time does not depend on where the first mismatch lies.
fn ct_eq(a: &[u8], b: &[u8]) -> (r: bool)
    ensures
        r == (a@ == b@),
{
    if a.len() != b.len() {
        return false;
    }
    let mut diff: u8 = 0;
    let mut i: usize = 0;
    while i < a.len()
        invariant
            a@.len() == b@.len(),
            i <= a@.len(),
            (diff == 0) <==> (forall|j: int| 0 <= j < i ==> a@[j] == b@[j]),
        decreases a@.len() - i,
    {
        let x = a[i];
        let y = b[i];
        let d = x ^ y;
        proof {
            assert((x ^ y == 0) == (x == y)) by (bit_vector);
            assert(((diff | d) == 0) == (diff == 0 && d == 0)) by (bit_vector);
        }
        diff = diff | d;
        i = i + 1;
    }
    let r = diff == 0;
    proof {
        if r {
            assert(a@ =~= b@);
        } else {
            assert(exists|j: int| 0 <= j < a@.len() && a@[j] != b@[j]);
        }
    }
    r
}

/// Derives the fingerprint of a PIN.
pub fn hash_pin(salt: &[u8], pin: &str, index: i64) -> (r: Vec<u8>)
    ensures
        r@ == fingerprint_of(salt@, pin@, index),
        r@.len() == 32,
{
    let mut msg: Vec<u8> = Vec::new();
    append_bytes(&mut msg, salt);
    append_bytes(&mut msg, pin.as_bytes());
    let idx = i64_to_le_bytes(index);
    append_bytes(&mut msg, idx.as_slice());
    proof {
        assert(msg@ =~= salt@ + encode_utf8(pin@) + i64_le_bytes(index));
    }
    sha256(msg.as_slice())
}

/// Checks a candidate PIN against a stored fingerprint: true exactly when
/// `fp` is the fingerprint of `(salt, pin, index)`. Total over all inputs;
/// the comparison is constant-time over the fingerprint bytes.
pub fn check_pin(salt: &[u8], pin: &str, index: i64, fp: &[u8]) -> (r: bool)
    ensures
        r == pin_accepted(salt@, pin@, index, fp@),
{
    let computed = hash_pin(salt, pin, index);
    ct_eq(computed.as_slice(), fp)
}

/// Fingerprint correctness: for every salt, PIN and index, the fingerprint
/// that `hash_pin` derives is the one `check_pin` accepts on the same
/// salt, PIN and index.
pub proof fn lemma_hash_pin_accepted(salt: Seq<u8>, pin: Seq<char>, index: i64)
    ensures
        pin_accepted(salt, pin, index, fingerprint_of(salt, pin, index)),
{
}

/// A candidate fingerprint that differs from the derived one — any
/// mutated copy, in particular — is rejected. That different salts, PINs
/// or indices also derive different fingerprints is collision resistance
/// of the hash, which is claimed nowhere in this library.
pub proof fn lemma_foreign_fingerprint_rejected(
    salt: Seq<u8>,
    pin: Seq<char>,
    index: i64,
    fp: Seq<u8>,
)
    requires
        fp != fingerprint_of(salt, pin, index),
    ensures
        !pin_accepted(salt, pin, index, fp),
{
}

} // verus!
