use pin_envelope::{check_pin, hash_pin};
use sha2::{Digest, Sha256};

#[test]
fn fingerprint_is_32_bytes_and_deterministic() {
    let a = hash_pin(b"s1", "1234", 0);
    let b = hash_pin(b"s1", "1234", 0);
    assert_eq!(a.len(), 32);
    assert_eq!(a, b);
}

#[test]
fn fingerprint_matches_sha256_of_concatenation() {
    // salt ‖ pin bytes ‖ little-endian index, hashed in one shot.
    let salt = b"some salt";
    let pin = "1234";
    let index: i64 = 7;
    let mut msg: Vec<u8> = Vec::new();
    msg.extend_from_slice(salt);
    msg.extend_from_slice(pin.as_bytes());
    msg.extend_from_slice(&index.to_le_bytes());
    let expected = Sha256::digest(&msg).to_vec();
    assert_eq!(hash_pin(salt, pin, index), expected);
}

#[test]
fn fingerprint_encodes_index_little_endian() {
    let mut msg: Vec<u8> = Vec::new();
    msg.extend_from_slice(b"s");
    msg.extend_from_slice("p".as_bytes());
    msg.extend_from_slice(&[1, 0, 0, 0, 0, 0, 0, 0]);
    assert_eq!(hash_pin(b"s", "p", 1), Sha256::digest(&msg).to_vec());
}

#[test]
fn fingerprint_of_negative_index() {
    let mut msg: Vec<u8> = Vec::new();
    msg.extend_from_slice(b"s");
    msg.extend_from_slice("p".as_bytes());
    msg.extend_from_slice(&(-1i64).to_le_bytes());
    assert_eq!(hash_pin(b"s", "p", -1), Sha256::digest(&msg).to_vec());
}

#[test]
fn fingerprint_uses_utf8_bytes_of_the_pin() {
    let pin = "\u{00e9}\u{4e2d}1";
    let mut msg: Vec<u8> = Vec::new();
    msg.extend_from_slice(b"s1");
    msg.extend_from_slice(pin.as_bytes());
    msg.extend_from_slice(&0i64.to_le_bytes());
    assert_eq!(hash_pin(b"s1", pin, 0), Sha256::digest(&msg).to_vec());
}

#[test]
fn check_accepts_derived_fingerprint() {
    // Fingerprint correctness over a spread of inputs.
    let cases: Vec<(&[u8], &str, i64)> = vec![
        (b"s1", "1234", 0),
        (b"", "", 0),
        (b"salt", "", -5),
        (b"", "longer pin with spaces", 42),
        (b"\x00\xff", "\u{00e9}\u{4e2d}", i64::MAX),
        (b"x", "p", i64::MIN),
    ];
    for (salt, pin, index) in cases {
        let fp = hash_pin(salt, pin, index);
        assert!(check_pin(salt, pin, index, &fp));
    }
}

#[test]
fn check_rejects_mutated_salt() {
    let fp = hash_pin(b"s1", "1234", 0);
    assert!(!check_pin(b"s2", "1234", 0, &fp));
    assert!(!check_pin(b"s", "1234", 0, &fp));
    assert!(!check_pin(b"s1x", "1234", 0, &fp));
}

#[test]
fn check_rejects_mutated_pin() {
    let fp = hash_pin(b"s1", "1234", 0);
    assert!(!check_pin(b"s1", "1235", 0, &fp));
    assert!(!check_pin(b"s1", "123", 0, &fp));
    assert!(!check_pin(b"s1", "", 0, &fp));
}

#[test]
fn check_rejects_mutated_index() {
    let fp = hash_pin(b"s1", "1234", 0);
    assert!(!check_pin(b"s1", "1234", 1, &fp));
    assert!(!check_pin(b"s1", "1234", -1, &fp));
}

#[test]
fn check_rejects_mutated_fingerprint() {
    let fp = hash_pin(b"s1", "1234", 0);
    for i in 0..fp.len() {
        let mut bad = fp.clone();
        bad[i] ^= 0x01;
        assert!(!check_pin(b"s1", "1234", 0, &bad));
    }
    assert!(!check_pin(b"s1", "1234", 0, &fp[..31]));
    let mut longer = fp.clone();
    longer.push(0);
    assert!(!check_pin(b"s1", "1234", 0, &longer));
}

#[test]
fn concrete_scenario_fingerprint() {
    // salt "s1", pin "1234", index 0: deterministic 32-byte value,
    // accepted as-is, rejected with the last byte flipped.
    let fp = hash_pin(b"s1", "1234", 0);
    assert_eq!(fp.len(), 32);
    assert_eq!(fp, hash_pin(b"s1", "1234", 0));
    assert!(check_pin(b"s1", "1234", 0, &fp));
    let mut bad = fp.clone();
    bad[31] ^= 0xff;
    assert!(!check_pin(b"s1", "1234", 0, &bad));
}
