//! Decoding fingerprint text: hexadecimal digits into raw bytes.
//!
//! Fingerprints arrive as hexadecimal text, two digits to one byte, high
//! digit first. Malformed text is a fatal ingestion error, reported to the
//! caller as a `DecodeError`.

use vstd::prelude::*;

verus! {

/// Why fingerprint text failed to decode.
#[derive(Clone, Copy, PartialEq, Eq, Structural, Debug)]
pub enum DecodeError {
    /// A character that is not a hexadecimal digit, with its position.
    InvalidChar { c: char, index: usize },
    /// The text has an odd number of digits.
    OddLength,
    /// The decoded bytes would not fit where they were asked to go.
    InvalidLength,
}

/// `c` is a hexadecimal digit: `0..9`, `a..f` or `A..F`.
pub open spec fn is_hex_digit(c: char) -> bool {
    ||| '0' <= c && c <= '9'
    ||| 'a' <= c && c <= 'f'
    ||| 'A' <= c && c <= 'F'
}

/// Numeric value of a hexadecimal digit.
pub open spec fn hex_val(c: char) -> int {
    if '0' <= c && c <= '9' {
        c as int - '0' as int
    } else if 'a' <= c && c <= 'f' {
        c as int - 'a' as int + 10
    } else {
        c as int - 'A' as int + 10
    }
}

/// `s` is well-formed hexadecimal text: an even number of characters, all
/// of them hexadecimal digits.
pub open spec fn valid_hex(s: Seq<char>) -> bool {
    &&& s.len() % 2 == 0
    &&& forall|i: int| 0 <= i < s.len() ==> is_hex_digit(s[i])
}

/// The bytes that well-formed hexadecimal text denotes: each consecutive
/// digit pair is one byte, high digit first.
pub open spec fn spec_hex_decode(s: Seq<char>) -> Seq<u8> {
    Seq::new((s.len() / 2) as nat, |i: int| (16 * hex_val(s[2 * i]) + hex_val(s[2 * i + 1])) as u8)
}

/// Relies on `hex::decode` (hex 0.4.3): it returns the bytes of an
/// even-length string of hexadecimal digits, two digits to one byte, high
/// digit first, and an error on odd length or on any non-digit character.
#[verifier::external_body]
fn hex_decode_raw(s: &str) -> (r: Result<Vec<u8>, DecodeError>)
    ensures
        match r {
            Ok(v) => valid_hex(s@) && v@ == spec_hex_decode(s@),
            Err(_) => !valid_hex(s@),
        },
{
    match hex::decode(s) {
        Ok(v) => Ok(v),
        Err(hex::FromHexError::InvalidHexCharacter { c, index }) => Err(
            DecodeError::InvalidChar { c, index },
        ),
        Err(hex::FromHexError::OddLength) => Err(DecodeError::OddLength),
        Err(hex::FromHexError::InvalidStringLength) => Err(DecodeError::InvalidLength),
    }
}

/// Decode fingerprint text into its raw bytes. Succeeds exactly on
/// well-formed hexadecimal text and returns exactly the bytes it denotes.
pub fn decode_fingerprint(s: &str) -> (r: Result<Vec<u8>, DecodeError>)
    ensures
        match r {
            Ok(v) => valid_hex(s@) && v@ == spec_hex_decode(s@) && v@.len() == s@.len() / 2,
            Err(_) => !valid_hex(s@),
        },
{
    hex_decode_raw(s)
}

} // verus!
