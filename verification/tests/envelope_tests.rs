use aes_gcm::aead::generic_array::GenericArray;
use aes_gcm::aead::{Aead, NewAead};
use aes_gcm::Aes256Gcm;
use pin_envelope::{
    decrypt, decrypt_key, decrypt_multiple, domain_tag_bytes, encrypt, encrypt_key,
    encrypt_multiple, nonce_from_hash, CryptoError,
};
use sha2::{Digest, Sha256};

#[test]
fn domain_tag_is_the_fixed_19_byte_constant() {
    assert_eq!(domain_tag_bytes(), b"ESSEForDataSecurity".to_vec());
    assert_eq!(domain_tag_bytes().len(), 19);
}

// The key-wrap path recomputed directly on the outside crates: BLAKE3 over
// salt ‖ pin ‖ tag as the KEK, SHA-256 over pin ‖ tag cut to 12 bytes as
// the nonce, AES-256-GCM over the plaintext.
#[allow(deprecated)]
fn wrap_reference(salt: &[u8], pin: &str, ptext: &[u8]) -> Vec<u8> {
    let tag = domain_tag_bytes();
    let mut hasher = blake3::Hasher::new();
    hasher.update(salt);
    hasher.update(pin.as_bytes());
    hasher.update(&tag);
    let kek = hasher.finalize();
    let cipher = Aes256Gcm::new(GenericArray::from_slice(kek.as_bytes()));
    let mut h = Sha256::new();
    h.update(pin.as_bytes());
    h.update(&tag);
    let digest = h.finalize();
    let nonce = GenericArray::from_slice(&digest[0..12]);
    cipher.encrypt(nonce, ptext).unwrap()
}

#[test]
fn wrap_key_matches_direct_primitive_composition() {
    let w = encrypt_key(b"salty", "1234", &[7u8; 32]).unwrap();
    assert_eq!(w, wrap_reference(b"salty", "1234", &[7u8; 32]));
}

#[test]
fn key_wrap_round_trip() {
    // Round trip for the empty key, a 32-byte key, and an odd length.
    for k in [vec![], vec![0u8; 32], vec![1, 2, 3, 4, 5]] {
        let w = encrypt_key(b"s1", "1234", &k).unwrap();
        assert_eq!(w.len(), k.len() + 16);
        assert_eq!(decrypt_key(b"s1", "1234", &w).unwrap(), k);
    }
}

#[test]
fn concrete_scenario_key_wrap() {
    // salt "s1", pin "1234": wrapping 32 zero bytes gives 48 bytes,
    // unwrapping returns the zeros, pin "0000" fails.
    let zeros = [0u8; 32];
    let w = encrypt_key(b"s1", "1234", &zeros).unwrap();
    assert_eq!(w.len(), 48);
    assert_eq!(decrypt_key(b"s1", "1234", &w).unwrap(), zeros.to_vec());
    assert_eq!(decrypt_key(b"s1", "0000", &w), Err(CryptoError::CipherError));
}

#[test]
fn unwrap_rejects_wrong_secret_or_tampering() {
    let w = encrypt_key(b"s1", "1234", &[9u8; 32]).unwrap();
    assert_eq!(decrypt_key(b"s1", "4321", &w), Err(CryptoError::CipherError));
    assert_eq!(decrypt_key(b"s2", "1234", &w), Err(CryptoError::CipherError));
    for i in 0..w.len() {
        let mut bad = w.clone();
        bad[i] ^= 0x80;
        assert_eq!(decrypt_key(b"s1", "1234", &bad), Err(CryptoError::CipherError));
    }
    assert_eq!(decrypt_key(b"s1", "1234", &w[..15]), Err(CryptoError::CipherError));
    assert_eq!(decrypt_key(b"s1", "1234", b""), Err(CryptoError::CipherError));
}

#[test]
fn payload_round_trip() {
    let k = [3u8; 32];
    let w = encrypt_key(b"s1", "1234", &k).unwrap();
    for p in [b"".to_vec(), b"hello world".to_vec(), vec![0u8; 1000]] {
        let c = encrypt(b"s1", "1234", &w, &p).unwrap();
        assert_eq!(c.len(), p.len() + 16);
        assert_eq!(decrypt(b"s1", "1234", &w, &c).unwrap(), p);
    }
}

#[test]
fn payload_nonce_depends_on_salt_not_pin() {
    // Two wraps of one content key under different pins encrypt a payload
    // identically: the DEK comes from the key, the nonce from the salt.
    let k = [5u8; 32];
    let w1 = encrypt_key(b"s1", "1234", &k).unwrap();
    let w2 = encrypt_key(b"s1", "9999", &k).unwrap();
    let c1 = encrypt(b"s1", "1234", &w1, b"payload").unwrap();
    let c2 = encrypt(b"s1", "9999", &w2, b"payload").unwrap();
    assert_eq!(c1, c2);
}

#[test]
fn decrypt_rejects_wrong_secret_or_tampering() {
    let k = [4u8; 32];
    let w = encrypt_key(b"s1", "1234", &k).unwrap();
    let c = encrypt(b"s1", "1234", &w, b"secret payload").unwrap();
    assert_eq!(decrypt(b"s1", "0000", &w, &c), Err(CryptoError::CipherError));
    assert_eq!(decrypt(b"s2", "1234", &w, &c), Err(CryptoError::CipherError));
    let mut bad_w = w.clone();
    bad_w[0] ^= 0x01;
    assert_eq!(decrypt(b"s1", "1234", &bad_w, &c), Err(CryptoError::CipherError));
    for i in 0..c.len() {
        let mut bad = c.clone();
        bad[i] ^= 0x01;
        assert_eq!(decrypt(b"s1", "1234", &w, &bad), Err(CryptoError::CipherError));
    }
    assert_eq!(decrypt(b"s1", "1234", &w, b""), Err(CryptoError::CipherError));
}

#[test]
fn encrypt_propagates_unwrap_failure() {
    let w = encrypt_key(b"s1", "1234", &[6u8; 32]).unwrap();
    assert_eq!(encrypt(b"s1", "0000", &w, b"p"), Err(CryptoError::CipherError));
    assert_eq!(encrypt(b"other", "1234", &w, b"p"), Err(CryptoError::CipherError));
}

#[test]
fn batch_round_trip_preserves_order() {
    let k = [8u8; 32];
    let w = encrypt_key(b"s1", "1234", &k).unwrap();
    let p0: &[u8] = b"first";
    let p1: &[u8] = b"second";
    let p2: &[u8] = b"third";
    let cs = encrypt_multiple(b"s1", "1234", &w, vec![p0, p1, p2]).unwrap();
    assert_eq!(cs.len(), 3);
    let refs: Vec<&[u8]> = cs.iter().map(|c| c.as_slice()).collect();
    let ps = decrypt_multiple(b"s1", "1234", &w, refs).unwrap();
    assert_eq!(ps, vec![p0.to_vec(), p1.to_vec(), p2.to_vec()]);
}

#[test]
fn batch_agrees_with_single_item_encryption() {
    // One key and one nonce are shared across the batch, so each item's
    // ciphertext equals the single-payload encryption of that item.
    let k = [2u8; 32];
    let w = encrypt_key(b"s1", "1234", &k).unwrap();
    let items: Vec<&[u8]> = vec![b"a", b"bb", b"ccc"];
    let cs = encrypt_multiple(b"s1", "1234", &w, items.clone()).unwrap();
    for (i, item) in items.iter().enumerate() {
        assert_eq!(cs[i], encrypt(b"s1", "1234", &w, item).unwrap());
    }
}

#[test]
fn empty_batch_round_trips() {
    let w = encrypt_key(b"s1", "1234", &[1u8; 32]).unwrap();
    let cs = encrypt_multiple(b"s1", "1234", &w, vec![]).unwrap();
    assert!(cs.is_empty());
    let ps = decrypt_multiple(b"s1", "1234", &w, vec![]).unwrap();
    assert!(ps.is_empty());
}

#[test]
fn batch_is_all_or_nothing() {
    let w = encrypt_key(b"s1", "1234", &[1u8; 32]).unwrap();
    // Unwrap failure yields no output at all.
    assert_eq!(
        encrypt_multiple(b"s1", "0000", &w, vec![b"x".as_slice()]),
        Err(CryptoError::CipherError)
    );
    // One bad ciphertext fails the whole batch.
    let good = encrypt(b"s1", "1234", &w, b"fine").unwrap();
    let mut bad = good.clone();
    bad[0] ^= 0x01;
    assert_eq!(
        decrypt_multiple(b"s1", "1234", &w, vec![good.as_slice(), bad.as_slice()]),
        Err(CryptoError::CipherError)
    );
}

#[test]
fn nonce_from_hash_takes_first_12_bytes() {
    let h: Vec<u8> = (0u8..32).collect();
    assert_eq!(nonce_from_hash(&h).unwrap(), (0u8..12).collect::<Vec<u8>>());
    let exact: Vec<u8> = (0u8..12).collect();
    assert_eq!(nonce_from_hash(&exact).unwrap(), exact);
}

#[test]
fn nonce_from_hash_rejects_short_input() {
    assert_eq!(nonce_from_hash(&[0u8; 11]), Err(CryptoError::InvalidInput));
    assert_eq!(nonce_from_hash(b""), Err(CryptoError::InvalidInput));
}
