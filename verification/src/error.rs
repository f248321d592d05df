//! Error kinds surfaced by the envelope-encryption core.

use vstd::prelude::*;

verus! {

/// Failure kinds of the cipher and codec operations.
///
/// `CipherError` deliberately does not say whether a wrong PIN, a wrong
/// salt, or tampered bytes caused the failure: the three causes must stay
/// indistinguishable to a caller.
#[derive(Clone, Copy, Debug, PartialEq, Eq, Structural)]
pub enum CryptoError {
    /// A persisted key string is not well-formed hex (odd length or a
    /// non-hex character).
    HexDecodeError,
    /// AEAD tag verification failed, or the AEAD primitive refused the
    /// operation: wrong PIN, wrong salt, or corrupted ciphertext.
    CipherError,
    /// A buffer was shorter than a fixed length the scheme requires
    /// (for instance, hash output too short to cut a nonce from).
    InvalidInput,
}

} // verus!
