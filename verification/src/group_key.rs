//! The per-group content key as the record layer stores it: raw bytes in
//! memory, a lowercase-hex string at the persistence boundary. A string
//! that fails to decode means a corrupted or missing key, never a crash.

use vstd::prelude::*;

use crate::error::CryptoError;
use vstd::utf8::{encode_utf8, is_ascii_chars, is_ascii_chars_encode_utf8};

verus! {

/// Whether a byte is an ASCII hex digit (`0-9`, `a-f`, `A-F`).
pub open spec fn is_hex_digit(b: u8) -> bool {
    (48 <= b && b <= 57) || (97 <= b && b <= 102) || (65 <= b && b <= 70)
}

/// The value of an ASCII hex digit.
pub open spec fn hex_val(b: u8) -> u8
    recommends
        is_hex_digit(b),
{
    if 48 <= b && b <= 57 {
        (b - 48) as u8
    } else if 97 <= b && b <= 102 {
        (b - 87) as u8
    } else {
        (b - 55) as u8
    }
}

/// The lowercase hex character of a nibble.
pub open spec fn hex_digit_char(n: u8) -> char
    recommends
        n < 16,
{
    if n < 10 {
        (48 + n) as char
    } else {
        (87 + n) as char
    }
}

/// The lowercase-hex encoding of a byte sequence: two characters per
/// byte, high nibble first.
pub open spec fn hex_chars_of(bytes: Seq<u8>) -> Seq<char> {
    Seq::new(
        bytes.len() * 2,
        |i: int|
            if i % 2 == 0 {
                hex_digit_char(bytes[i / 2] / 16)
            } else {
                hex_digit_char(bytes[i / 2] % 16)
            },
    )
}

/// Whether a byte sequence is well-formed hex: even length, every byte a
/// hex digit.
pub open spec fn hex_decode_ok(s: Seq<u8>) -> bool {
    s.len() % 2 == 0 && (forall|i: int| 0 <= i < s.len() ==> is_hex_digit(#[trigger] s[i]))
}

/// The bytes a well-formed hex sequence decodes to.
pub open spec fn hex_decode(s: Seq<u8>) -> Seq<u8>
    recommends
        hex_decode_ok(s),
{
    Seq::new(s.len() / 2, |i: int| (16 * hex_val(s[2 * i]) + hex_val(s[2 * i + 1])) as u8)
}

/// Each hex character is ASCII, is a hex digit when read back as a byte,
/// and decodes to the nibble it encodes.
proof fn lemma_hex_digit_char_val(n: u8)
    requires
        n < 16,
    ensures
        '\0' <= hex_digit_char(n) <= '\u{7f}',
        is_hex_digit(hex_digit_char(n) as u8),
        hex_val(hex_digit_char(n) as u8) == n,
{
    if n < 10 {
        assert(hex_digit_char(n) as u8 == 48 + n);
    } else {
        assert(hex_digit_char(n) as u8 == 87 + n);
    }
}

/// Hex round trip: the lowercase-hex encoding of any byte sequence is
/// well-formed hex whose decoding is exactly those bytes; with the
/// contracts of `to_hex` and `from_hex`, reading back a persisted key
/// string returns the original key.
pub proof fn lemma_hex_round_trip(bytes: Seq<u8>)
    ensures
        hex_decode_ok(encode_utf8(hex_chars_of(bytes))),
        hex_decode(encode_utf8(hex_chars_of(bytes))) == bytes,
{
    let chars = hex_chars_of(bytes);
    assert forall|i: int| 0 <= i < chars.len() implies '\0' <= #[trigger] chars[i] <= '\u{7f}' by {
        if i % 2 == 0 {
            lemma_hex_digit_char_val(bytes[i / 2] / 16);
        } else {
            lemma_hex_digit_char_val(bytes[i / 2] % 16);
        }
    }
    assert(is_ascii_chars(chars));
    is_ascii_chars_encode_utf8(chars);
    let enc = encode_utf8(chars);
    assert forall|i: int| 0 <= i < enc.len() implies is_hex_digit(#[trigger] enc[i]) by {
        if i % 2 == 0 {
            lemma_hex_digit_char_val(bytes[i / 2] / 16);
        } else {
            lemma_hex_digit_char_val(bytes[i / 2] % 16);
        }
    }
    assert forall|i: int| 0 <= i < bytes.len() implies hex_decode(enc)[i] == bytes[i] by {
        lemma_hex_digit_char_val(bytes[i] / 16);
        lemma_hex_digit_char_val(bytes[i] % 16);
        assert(enc[2 * i] == chars[2 * i] as u8);
        assert(enc[2 * i + 1] == chars[2 * i + 1] as u8);
        assert(chars[2 * i] == hex_digit_char(bytes[i] / 16));
        assert(chars[2 * i + 1] == hex_digit_char(bytes[i] % 16));
    }
    assert(hex_decode(enc) =~= bytes);
}

/// Relies on `String::push`: appends exactly the given character.
#[verifier::external_body]
fn push_char(s: &mut String, c: char)
    ensures
        final(s)@ == old(s)@ + seq![c],
{
    s.push(c);
}

/// The value of one ASCII hex digit, or `None` for any other byte.
fn hex_val_of(b: u8) -> (r: Option<u8>)
    ensures
        is_hex_digit(b) ==> r == Some(hex_val(b)),
        !is_hex_digit(b) ==> r is None,
{
    if 48 <= b && b <= 57 {
        Some(b - 48)
    } else if 97 <= b && b <= 102 {
        Some(b - 87)
    } else if 65 <= b && b <= 70 {
        Some(b - 55)
    } else {
        None
    }
}

/// A group chat's raw content key, together with its hex codec for the
/// persistence boundary.
pub struct GroupChatKey(Vec<u8>);

impl View for GroupChatKey {
    type V = Seq<u8>;

    closed spec fn view(&self) -> Seq<u8> {
        self.0@
    }
}

impl GroupChatKey {
    /// Wraps raw key bytes.
    pub fn new(value: Vec<u8>) -> (r: Self)
        ensures
            r@ == value@,
    {
        Self(value)
    }

    /// The raw key bytes.
    pub fn key(&self) -> (r: &[u8])
        ensures
            r@ == self@,
    {
        self.0.as_slice()
    }

    /// A digest of the key for sharing; the scheme publishes none, so the
    /// digest is always empty.
    pub fn hash(&self) -> (r: Vec<u8>)
        ensures
            r@ == Seq::<u8>::empty(),
    {
        Vec::new()
    }

    /// Decodes a persisted hex string into a key. Returns
    /// `HexDecodeError` — a corrupted or missing key, not a crash — for
    /// an odd-length string or any non-hex character.
    pub fn from_hex(s: &str) -> (r: Result<Self, CryptoError>)
        ensures
            r matches Ok(k) ==> (hex_decode_ok(encode_utf8(s@))
                && k@ == hex_decode(encode_utf8(s@))),
            r is Err <==> !hex_decode_ok(encode_utf8(s@)),
            r matches Err(e) ==> e == CryptoError::HexDecodeError,
    {
        let bytes = s.as_bytes();
        if bytes.len() % 2 != 0 {
            return Err(CryptoError::HexDecodeError);
        }
        let mut value: Vec<u8> = Vec::new();
        let mut i: usize = 0;
        while i < bytes.len() / 2
            invariant
                bytes@ == encode_utf8(s@),
                bytes@.len() % 2 == 0,
                i <= bytes@.len() / 2,
                value@.len() == i,
                forall|j: int| 0 <= j < 2 * i ==> is_hex_digit(#[trigger] bytes@[j]),
                forall|j: int| 0 <= j < i
                    ==> value@[j] == (16 * hex_val(bytes@[2 * j]) + hex_val(
                        bytes@[2 * j + 1],
                    )) as u8,
            decreases bytes@.len() / 2 - i,
        {
            let hi = match hex_val_of(bytes[2 * i]) {
                Some(v) => v,
                None => {
                    return Err(CryptoError::HexDecodeError);
                },
            };
            let lo = match hex_val_of(bytes[2 * i + 1]) {
                Some(v) => v,
                None => {
                    return Err(CryptoError::HexDecodeError);
                },
            };
            value.push(16 * hi + lo);
            i = i + 1;
        }
        proof {
            assert(value@ =~= hex_decode(encode_utf8(s@)));
        }
        Ok(Self(value))
    }

    /// Encodes the key as a lowercase hex string, two digits per byte.
    pub fn to_hex(&self) -> (r: String)
        ensures
            r@ == hex_chars_of(self@),
    {
        let mut hex = String::new();
        let mut i: usize = 0;
        while i < self.0.len()
            invariant
                i <= self.0@.len(),
                hex@ == hex_chars_of(self.0@.subrange(0, i as int)),
            decreases self.0@.len() - i,
        {
            let b = self.0[i];
            let hi: u8 = b / 16;
            let lo: u8 = b % 16;
            let hc: char = (if hi < 10 { 48 + hi } else { 87 + hi }) as char;
            let lc: char = (if lo < 10 { 48 + lo } else { 87 + lo }) as char;
            push_char(&mut hex, hc);
            push_char(&mut hex, lc);
            proof {
                assert(hex@ =~= hex_chars_of(self.0@.subrange(0, i + 1 as int)));
            }
            i = i + 1;
        }
        proof {
            assert(self.0@.subrange(0, i as int) =~= self.0@);
        }
        hex
    }
}

} // verus!
