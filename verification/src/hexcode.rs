//! Hexadecimal text, as entries and payloads travel and are stored.
//!
//! The conversions themselves are done by the `hex` crate; this module states
//! what they compute, so that everything built on them can be reasoned about.

use vstd::prelude::*;
use vstd::utf8::encode_utf8;

verus! {

/// Why a text is not the hexadecimal form of a byte string.
#[derive(Clone, Copy, Debug, PartialEq, Eq, Structural)]
pub enum HexError {
    /// The byte `c`, at byte offset `index` of the text, is no hexadecimal digit.
    InvalidHexCharacter { c: char, index: usize },
    /// The text has an odd number of bytes.
    OddLength,
    /// The text does not fill a container of fixed size.
    InvalidStringLength,
}

/// The value of one hexadecimal digit, given as an ASCII byte; both cases count.
pub open spec fn digit_value(digit: u8) -> Option<u8> {
    if 0x30 <= digit <= 0x39 {
        Some((digit - 0x30) as u8)
    } else if 0x41 <= digit <= 0x46 {
        Some((digit - 0x41 + 10) as u8)
    } else if 0x61 <= digit <= 0x66 {
        Some((digit - 0x61 + 10) as u8)
    } else {
        None
    }
}

/// The offset of the first byte at or after `from` that is no hexadecimal
/// digit, or the length of `text` if there is none.
pub open spec fn first_stray_byte(text: Seq<u8>, from: int) -> int
    decreases text.len() - from,
{
    if from < 0 || from >= text.len() {
        text.len() as int
    } else if digit_value(text[from]) is None {
        from
    } else {
        first_stray_byte(text, from + 1)
    }
}

/// The bytes that a text of hexadecimal digits stands for, two digits a byte,
/// the high one first.
pub open spec fn paired_digits(text: Seq<u8>) -> Seq<u8> {
    Seq::new(
        text.len() / 2,
        |i: int| (digit_value(text[2 * i]).unwrap() * 16 + digit_value(text[2 * i + 1]).unwrap()) as u8,
    )
}

/// Decoding of hexadecimal text given as bytes: an odd length is refused
/// first, then the first stray byte; otherwise every pair of digits is a byte.
pub open spec fn hex_decoded_bytes(text: Seq<u8>) -> Result<Seq<u8>, HexError> {
    let stray = first_stray_byte(text, 0);
    if text.len() % 2 != 0 {
        Err(HexError::OddLength)
    } else if stray < text.len() {
        Err(HexError::InvalidHexCharacter { c: text[stray] as char, index: stray as usize })
    } else {
        Ok(paired_digits(text))
    }
}

/// Decoding of hexadecimal text: that of its UTF-8 bytes.
pub open spec fn hex_decoded(text: Seq<char>) -> Result<Seq<u8>, HexError> {
    hex_decoded_bytes(encode_utf8(text))
}

/// The lower-case hexadecimal digit for a value below sixteen.
pub open spec fn digit_char(value: int) -> char {
    if value < 10 {
        ((0x30 + value) as u8) as char
    } else {
        ((0x61 + value - 10) as u8) as char
    }
}

/// The lower-case hexadecimal text of a byte string.
pub open spec fn hex_text(bytes: Seq<u8>) -> Seq<char> {
    Seq::new(
        2 * bytes.len(),
        |i: int|
            if i % 2 == 0 {
                digit_char(bytes[i / 2] as int / 16)
            } else {
                digit_char(bytes[i / 2] as int % 16)
            },
    )
}

/// What decoding returned, as a mathematical value.
pub open spec fn decoding_of(r: Result<Vec<u8>, HexError>) -> Result<Seq<u8>, HexError> {
    match r {
        Ok(bytes) => Ok(bytes@),
        Err(e) => Err(e),
    }
}

/// Calls `hex::decode`. Trusted: the result is `hex_decoded` of the text, which
/// restates the crate's `FromHex for Vec<u8>`: the length test, then the
/// digits pair by pair with the offset of the first one that is not a digit.
#[verifier::external_body]
pub(crate) fn decode_hex(text: &str) -> (r: Result<Vec<u8>, HexError>)
    ensures
        decoding_of(r) == hex_decoded(text@),
{
    match hex::decode(text) {
        Ok(bytes) => Ok(bytes),
        Err(hex::FromHexError::InvalidHexCharacter { c, index }) => Err(
            HexError::InvalidHexCharacter { c, index },
        ),
        Err(hex::FromHexError::OddLength) => Err(HexError::OddLength),
        Err(hex::FromHexError::InvalidStringLength) => Err(HexError::InvalidStringLength),
    }
}

/// Calls `hex::encode`. Trusted: the result is `hex_text` of the bytes, two
/// lower-case digits for each byte, as the crate documents.
#[verifier::external_body]
pub(crate) fn encode_hex(bytes: &[u8]) -> (r: String)
    ensures
        r@ == hex_text(bytes@),
{
    hex::encode(bytes)
}

} // verus!
