//! Envelope-encryption and PIN-authentication core.
//!
//! A PIN-derived key-encrypting key wraps an ephemeral content key; the
//! content key, once unwrapped, derives a data-encrypting key for payload
//! encryption. A separate fingerprint scheme verifies candidate PINs
//! without storing them.

use vstd::prelude::*;

pub mod aead;
pub mod bytes;
pub mod envelope;
pub mod error;
pub mod group_key;
pub mod hashes;
pub mod pin;

pub use crate::envelope::{decrypt, decrypt_key, decrypt_multiple, encrypt, encrypt_key,
    encrypt_multiple, nonce_from_hash};
pub use crate::error::CryptoError;
pub use crate::group_key::GroupChatKey;
pub use crate::pin::{check_pin, hash_pin};

verus! {

/// Fixed, non-secret domain-separation tag mixed into every key and nonce
/// derivation, so this key schedule cannot collide with another consumer
/// of the same hash primitives.
pub open spec fn domain_tag() -> Seq<u8> {
    seq![69u8, 83, 83, 69, 70, 111, 114, 68, 97, 116, 97, 83, 101, 99, 117, 114, 105, 116, 121]
}

/// The domain tag as runtime bytes.
pub fn domain_tag_bytes() -> (r: Vec<u8>)
    ensures
        r@ == domain_tag(),
{
    let r: Vec<u8> = vec![69u8, 83, 83, 69, 70, 111, 114, 68, 97, 116, 97, 83, 101, 99, 117, 114, 105, 116, 121];
    proof {
        assert(r@ =~= domain_tag());
    }
    r
}

} // verus!
