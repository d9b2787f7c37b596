//! Hexadecimal text: two digits per byte, high nibble first.
//!
//! Text is read as its UTF-8 bytes, so a character outside ASCII counts as
//! several non-hex bytes. Digits are written in lower case and read in either
//! case.

use crate::cbor::bytes_outcome;
use crate::error::{Fault, QuantusUrError};
use vstd::prelude::*;
use vstd::string::StringSliceAdditionalSpecFns;

verus! {

/// The value of a hex digit, if the byte is one.
pub open spec fn digit_value(digit: u8) -> Option<nat> {
    if 0x30 <= digit <= 0x39 {
        Some((digit - 0x30) as nat)
    } else if 0x61 <= digit <= 0x66 {
        Some((digit - 0x61 + 10) as nat)
    } else if 0x41 <= digit <= 0x46 {
        Some((digit - 0x41 + 10) as nat)
    } else {
        None
    }
}

/// Well-formed hex text: an even number of bytes, each a hex digit.
pub open spec fn is_hex(text: Seq<u8>) -> bool {
    &&& text.len() % 2 == 0
    &&& forall|i: int| 0 <= i < text.len() ==> (#[trigger] digit_value(text[i])).is_some()
}

/// The byte that the `i`-th pair of digits spells.
pub open spec fn pair_value(text: Seq<u8>, i: int) -> u8 {
    (digit_value(text[2 * i]).unwrap() * 16 + digit_value(text[2 * i + 1]).unwrap()) as u8
}

/// The bytes that well-formed hex text spells.
pub open spec fn hex_bytes(text: Seq<u8>) -> Seq<u8> {
    Seq::new(text.len() / 2, |i: int| pair_value(text, i))
}

/// The lower-case digit for a nibble.
pub open spec fn digit_of(nibble: nat) -> u8 {
    if nibble < 10 {
        (0x30 + nibble) as u8
    } else {
        (0x61 + nibble - 10) as u8
    }
}

/// The `i`-th digit of the hex text of `bytes`.
pub open spec fn digit_at(bytes: Seq<u8>, i: int) -> u8 {
    if i % 2 == 0 {
        digit_of((bytes[i / 2] / 16) as nat)
    } else {
        digit_of((bytes[i / 2] % 16) as nat)
    }
}

/// The lower-case hex digits of `bytes`, as bytes.
pub open spec fn hex_digits(bytes: Seq<u8>) -> Seq<u8> {
    Seq::new(2 * bytes.len(), |i: int| digit_at(bytes, i))
}

/// The lower-case hex text of `bytes`, as characters.
pub open spec fn hex_chars(bytes: Seq<u8>) -> Seq<char> {
    Seq::new(2 * bytes.len(), |i: int| digit_at(bytes, i) as char)
}

/// The detail text with which the hex codec rejects malformed text.
pub uninterp spec fn hex_rejection(text: Seq<u8>) -> Seq<char>;

/// What reading hex text gives: the bytes, or the hex decoding fault.
pub open spec fn hex_outcome(text: Seq<u8>) -> Result<Seq<u8>, Fault> {
    if is_hex(text) {
        Ok(hex_bytes(text))
    } else {
        Err(Fault::HexDecode(hex_rejection(text)))
    }
}

/// `hex::decode` on a byte slice.
///
/// It fails on an odd number of bytes and on any byte that is not a hex digit
/// of either case; otherwise each pair of digits gives one byte, the first
/// digit being the high nibble. On failure the error's display text is
/// returned; it depends on the text alone.
#[verifier::external_body]
fn hex_decode(text: &[u8]) -> (res: Result<Vec<u8>, String>)
    ensures
        res is Ok <==> is_hex(text@),
        res matches Ok(bytes) ==> bytes@ == hex_bytes(text@),
        res matches Err(detail) ==> detail@ == hex_rejection(text@),
{
    match hex::decode(text) {
        Ok(bytes) => Ok(bytes),
        Err(e) => Err(e.to_string()),
    }
}

/// `hex::encode` on a byte slice: two lower-case digits per byte, the high
/// nibble first.
#[verifier::external_body]
fn hex_encode(bytes: &[u8]) -> (res: String)
    ensures
        res@ == hex_chars(bytes@),
{
    hex::encode(bytes)
}

/// Reads hex text into bytes.
pub fn hex_to_bytes(text: &str) -> (r: Result<Vec<u8>, QuantusUrError>)
    ensures
        bytes_outcome(r) == hex_outcome(text.spec_bytes()),
{
    match hex_decode(text.as_bytes()) {
        Ok(bytes) => Ok(bytes),
        Err(detail) => Err(QuantusUrError::HexDecode(detail)),
    }
}

/// Writes bytes as lower-case hex text.
pub fn bytes_to_hex(bytes: &[u8]) -> (text: String)
    ensures
        text@ == hex_chars(bytes@),
{
    hex_encode(bytes)
}

/// A nibble's digit reads back as the nibble.
pub proof fn lemma_digit_round_trip(nibble: nat)
    requires
        nibble < 16,
    ensures
        digit_value(digit_of(nibble)) == Some(nibble),
        digit_of(nibble) < 0x80,
{
}

/// The digits written for any bytes are well-formed hex text and spell the
/// same bytes.
pub proof fn lemma_hex_round_trip(bytes: Seq<u8>)
    ensures
        is_hex(hex_digits(bytes)),
        hex_bytes(hex_digits(bytes)) == bytes,
{
    let digits = hex_digits(bytes);
    assert forall|i: int| 0 <= i < digits.len() implies (#[trigger] digit_value(
        digits[i],
    )).is_some() by {
        lemma_digit_round_trip((bytes[i / 2] / 16) as nat);
        lemma_digit_round_trip((bytes[i / 2] % 16) as nat);
    }
    assert forall|i: int| 0 <= i < bytes.len() implies pair_value(digits, i) == bytes[i] by {
        lemma_digit_round_trip((bytes[i] / 16) as nat);
        lemma_digit_round_trip((bytes[i] % 16) as nat);
        assert(digits[2 * i] == digit_of((bytes[i] / 16) as nat));
        assert(digits[2 * i + 1] == digit_of((bytes[i] % 16) as nat));
    }
    assert(hex_bytes(digits) =~= bytes);
}

/// A hex digit in lower case.
pub open spec fn lower_digit(digit: u8) -> u8 {
    if 0x41 <= digit <= 0x46 {
        (digit + 0x20) as u8
    } else {
        digit
    }
}

/// Writing the bytes that well-formed text spells gives the text back, in
/// lower case.
pub proof fn lemma_write_read(text: Seq<u8>)
    requires
        is_hex(text),
    ensures
        hex_digits(hex_bytes(text)) == Seq::new(text.len(), |i: int| lower_digit(text[i])),
{
    let bytes = hex_bytes(text);
    let digits = hex_digits(bytes);
    assert(2 * (text.len() / 2) == text.len());
    assert forall|j: int| 0 <= j < digits.len() implies digits[j] == lower_digit(text[j]) by {
        let i = j / 2;
        assert(digit_value(text[2 * i]).is_some());
        assert(digit_value(text[2 * i + 1]).is_some());
        let hi = digit_value(text[2 * i]).unwrap();
        let lo = digit_value(text[2 * i + 1]).unwrap();
        assert(bytes[i] == hi * 16 + lo);
        assert((hi * 16 + lo) / 16 == hi && (hi * 16 + lo) % 16 == lo);
    }
    assert(digits =~= Seq::new(text.len(), |i: int| lower_digit(text[i])));
}

/// The hex text of any bytes is ASCII, and its UTF-8 bytes are the digits.
pub proof fn lemma_hex_chars_bytes(bytes: Seq<u8>)
    ensures
        vstd::utf8::is_ascii_chars(hex_chars(bytes)),
        vstd::utf8::encode_utf8(hex_chars(bytes)) == hex_digits(bytes),
{
    let chars = hex_chars(bytes);
    assert forall|i: int| 0 <= i < chars.len() implies '\0' <= #[trigger] chars[i]
        <= '\u{7f}' by {
        lemma_digit_round_trip((bytes[i / 2] / 16) as nat);
        lemma_digit_round_trip((bytes[i / 2] % 16) as nat);
    }
    vstd::utf8::is_ascii_chars_encode_utf8(chars);
    assert forall|i: int| 0 <= i < chars.len() implies vstd::utf8::encode_utf8(chars)[i]
        == hex_digits(bytes)[i] by {
        lemma_digit_round_trip((bytes[i / 2] / 16) as nat);
        lemma_digit_round_trip((bytes[i / 2] % 16) as nat);
        assert(chars[i] as u8 == vstd::utf8::encode_utf8(chars)[i]);
    }
    assert(vstd::utf8::encode_utf8(chars) =~= hex_digits(bytes));
}

/// Reading the text written for any bytes gives the bytes back: the reader is
/// a total inverse of the writer.
pub proof fn lemma_read_written(bytes: Seq<u8>)
    ensures
        hex_outcome(vstd::utf8::encode_utf8(hex_chars(bytes))) == Ok::<Seq<u8>, Fault>(bytes),
{
    lemma_hex_chars_bytes(bytes);
    lemma_hex_round_trip(bytes);
}

} // verus!
