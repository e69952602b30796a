//! Hexadecimal textual encoding of byte sequences and digests, used at
//! the serialization boundary for transport and debugging.

use vstd::prelude::*;

use crate::digest::Digest;
use crate::digest::DIGEST_BYTES;

verus! {

/// The lowercase hexadecimal digits, in numeric order.
pub open spec fn hex_digits() -> Seq<char> {
    seq!['0', '1', '2', '3', '4', '5', '6', '7', '8', '9', 'a', 'b', 'c', 'd', 'e', 'f']
}

/// The lowercase hexadecimal character for a value below 16.
pub open spec fn hex_char_of(v: nat) -> char {
    hex_digits()[v as int]
}

/// The lowercase hexadecimal encoding of a byte sequence: two characters
/// per byte, high nibble first.
pub open spec fn hex_of(bytes: Seq<u8>) -> Seq<char>
    decreases bytes.len(),
{
    if bytes.len() == 0 {
        Seq::empty()
    } else {
        seq![
            hex_char_of((bytes[0] / 16) as nat),
            hex_char_of((bytes[0] % 16) as nat),
        ] + hex_of(bytes.drop_first())
    }
}

/// Whether `c` is an ASCII hexadecimal digit, of either case.
pub open spec fn is_hex_digit(c: char) -> bool {
    ||| '0' as int <= c as int <= '9' as int
    ||| 'a' as int <= c as int <= 'f' as int
    ||| 'A' as int <= c as int <= 'F' as int
}

/// The numeric value of an ASCII hexadecimal digit.
pub open spec fn hex_digit_value(c: char) -> nat {
    if '0' as int <= c as int <= '9' as int {
        (c as int - '0' as int) as nat
    } else if 'a' as int <= c as int <= 'f' as int {
        (c as int - 'a' as int + 10) as nat
    } else {
        (c as int - 'A' as int + 10) as nat
    }
}

/// Whether `s` is a well-formed hexadecimal string: even length, every
/// character a hexadecimal digit.
pub open spec fn is_hex_string(s: Seq<char>) -> bool {
    &&& s.len() % 2 == 0
    &&& forall|i: int| 0 <= i < s.len() ==> is_hex_digit(#[trigger] s[i])
}

/// The byte sequence denoted by a hexadecimal string, taking characters
/// in pairs, high nibble first. Meaningful when `is_hex_string` holds.
pub open spec fn bytes_of_hex(s: Seq<char>) -> Seq<u8>
    decreases s.len(),
{
    if s.len() < 2 {
        Seq::empty()
    } else {
        seq![(hex_digit_value(s[0]) * 16 + hex_digit_value(s[1])) as u8] + bytes_of_hex(s.skip(2))
    }
}

/// The reason an encoded value is rejected at the serialization boundary.
#[derive(Debug, Clone, Copy, PartialEq, Eq, Structural)]
pub enum CodecError {
    /// The string is not even-length hexadecimal.
    InvalidHex,
    /// The string is valid hexadecimal but does not denote exactly
    /// `DIGEST_BYTES` bytes.
    WrongDigestLength,
}

/// Relies on hex::encode: lowercase hexadecimal, two digits per byte,
/// high nibble first.
#[verifier::external_body]
fn encode_hex(bytes: &[u8]) -> (r: String)
    ensures
        r@ == hex_of(bytes@),
{
    hex::encode(bytes)
}

/// Relies on hex::decode: succeeds exactly on even-length strings of
/// hexadecimal digits (of either case), returning the denoted bytes.
#[verifier::external_body]
fn decode_hex(s: &str) -> (r: Option<Vec<u8>>)
    ensures
        r is Some <==> is_hex_string(s@),
        r matches Some(b) ==> b@ == bytes_of_hex(s@),
{
    hex::decode(s).ok()
}

/// Encodes a byte sequence as a lowercase hexadecimal string.
pub fn bytes_to_hex(bytes: &Vec<u8>) -> (r: String)
    ensures
        r@ == hex_of(bytes@),
        r@.len() == 2 * bytes@.len(),
{
    proof {
        lemma_hex_of_len(bytes@);
    }
    encode_hex(bytes.as_slice())
}

/// Decodes a hexadecimal string to the bytes it denotes; fails exactly
/// when the string is not even-length hexadecimal.
pub fn hex_to_bytes(s: &str) -> (r: Result<Vec<u8>, CodecError>)
    ensures
        r is Ok <==> is_hex_string(s@),
        r matches Ok(b) ==> b@ == bytes_of_hex(s@),
        r is Err ==> r == Result::<Vec<u8>, CodecError>::Err(CodecError::InvalidHex),
{
    match decode_hex(s) {
        Some(b) => Ok(b),
        None => Err(CodecError::InvalidHex),
    }
}

/// Encodes a digest as its 64-character lowercase hexadecimal form.
pub fn digest_to_hex(d: &Digest) -> (r: String)
    ensures
        r@ == hex_of(d@),
        d.wf() ==> r@.len() == 2 * DIGEST_BYTES,
{
    bytes_to_hex(d.as_bytes())
}

/// Decodes a digest from its hexadecimal form; the string must be valid
/// hexadecimal and denote exactly `DIGEST_BYTES` bytes.
pub fn digest_from_hex(s: &str) -> (r: Result<Digest, CodecError>)
    ensures
        r is Ok <==> is_hex_string(s@) && s@.len() == 2 * DIGEST_BYTES,
        r matches Ok(d) ==> d@ == bytes_of_hex(s@) && d.wf(),
        r == Result::<Digest, CodecError>::Err(CodecError::InvalidHex) <==> !is_hex_string(s@),
        r == Result::<Digest, CodecError>::Err(CodecError::WrongDigestLength) <==> is_hex_string(s@)
            && s@.len() != 2 * DIGEST_BYTES,
{
    proof {
        lemma_bytes_of_hex_len(s@);
    }
    match hex_to_bytes(s) {
        Ok(b) => match Digest::from_bytes(b) {
            Some(d) => Ok(d),
            None => Err(CodecError::WrongDigestLength),
        },
        Err(_) => Err(CodecError::InvalidHex),
    }
}

/// The hexadecimal encoding of a byte sequence has twice its length.
pub proof fn lemma_hex_of_len(bytes: Seq<u8>)
    ensures
        hex_of(bytes).len() == 2 * bytes.len(),
    decreases bytes.len(),
{
    if bytes.len() > 0 {
        lemma_hex_of_len(bytes.drop_first());
    }
}

/// The lowercase character for a value below 16 is a hexadecimal digit
/// and denotes that value.
proof fn lemma_hex_char_value(v: nat)
    requires
        v < 16,
    ensures
        is_hex_digit(hex_char_of(v)),
        hex_digit_value(hex_char_of(v)) == v,
{
    if v == 0 {
        assert(hex_char_of(0) == '0');
    } else if v == 1 {
        assert(hex_char_of(1) == '1');
    } else if v == 2 {
        assert(hex_char_of(2) == '2');
    } else if v == 3 {
        assert(hex_char_of(3) == '3');
    } else if v == 4 {
        assert(hex_char_of(4) == '4');
    } else if v == 5 {
        assert(hex_char_of(5) == '5');
    } else if v == 6 {
        assert(hex_char_of(6) == '6');
    } else if v == 7 {
        assert(hex_char_of(7) == '7');
    } else if v == 8 {
        assert(hex_char_of(8) == '8');
    } else if v == 9 {
        assert(hex_char_of(9) == '9');
    } else if v == 10 {
        assert(hex_char_of(10) == 'a');
    } else if v == 11 {
        assert(hex_char_of(11) == 'b');
    } else if v == 12 {
        assert(hex_char_of(12) == 'c');
    } else if v == 13 {
        assert(hex_char_of(13) == 'd');
    } else if v == 14 {
        assert(hex_char_of(14) == 'e');
    } else {
        assert(hex_char_of(15) == 'f');
    }
}

/// Law (hex round trip): the hexadecimal encoding of any byte sequence is
/// a well-formed hexadecimal string, and decoding it yields the original
/// bytes.
pub proof fn lemma_hex_round_trip(bytes: Seq<u8>)
    ensures
        is_hex_string(hex_of(bytes)),
        bytes_of_hex(hex_of(bytes)) == bytes,
    decreases bytes.len(),
{
    lemma_hex_of_len(bytes);
    let s = hex_of(bytes);
    if bytes.len() == 0 {
        assert(bytes_of_hex(s) =~= bytes);
    } else {
        let b0 = bytes[0];
        let rest = bytes.drop_first();
        lemma_hex_round_trip(rest);
        lemma_hex_char_value((b0 / 16) as nat);
        lemma_hex_char_value((b0 % 16) as nat);
        assert(s[0] == hex_char_of((b0 / 16) as nat));
        assert(s[1] == hex_char_of((b0 % 16) as nat));
        assert(s.skip(2) =~= hex_of(rest));
        assert forall|i: int| 0 <= i < s.len() implies is_hex_digit(#[trigger] s[i]) by {
            if i >= 2 {
                assert(s[i] == hex_of(rest)[i - 2]);
            }
        }
        assert(hex_digit_value(s[0]) * 16 + hex_digit_value(s[1]) == b0);
        assert(bytes_of_hex(s) =~= bytes);
    }
}

/// A hexadecimal string of even length denotes half as many bytes.
pub proof fn lemma_bytes_of_hex_len(s: Seq<char>)
    ensures
        bytes_of_hex(s).len() == if s.len() < 2 {
            0
        } else {
            1 + bytes_of_hex(s.skip(2)).len()
        },
        s.len() % 2 == 0 ==> 2 * bytes_of_hex(s).len() == s.len(),
    decreases s.len(),
{
    if s.len() >= 2 {
        lemma_bytes_of_hex_len(s.skip(2));
    }
}

} // verus!
