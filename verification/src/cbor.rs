//! The CBOR envelope: one definite-length byte string around the payload.
//!
//! A CBOR byte string is a head followed by the bytes themselves. The head
//! starts with a byte in `0x40..=0x5b`: up to `0x57` it holds the length
//! itself, and `0x58`, `0x59`, `0x5a`, `0x5b` announce a length written in the
//! 1, 2, 4 or 8 bytes that follow, most significant byte first.

use crate::error::{Fault, QuantusUrError};
use vstd::prelude::*;

verus! {

/// The `width` low-order base-256 digits of `value`, most significant first.
pub open spec fn be_bytes(value: nat, width: nat) -> Seq<u8>
    decreases width,
{
    if width == 0 {
        Seq::empty()
    } else {
        be_bytes(value / 256, (width - 1) as nat).push((value % 256) as u8)
    }
}

/// The number that `bytes` spell in base 256, most significant byte first.
pub open spec fn be_value(bytes: Seq<u8>) -> nat
    decreases bytes.len(),
{
    if bytes.len() == 0 {
        0
    } else {
        be_value(bytes.drop_last()) * 256 + bytes.last() as nat
    }
}

/// The shortest head of a byte string of `len` bytes.
pub open spec fn cbor_head(len: nat) -> Seq<u8> {
    if len < 24 {
        seq![(0x40 + len) as u8]
    } else if len <= 0xff {
        seq![0x58u8] + be_bytes(len, 1)
    } else if len <= 0xffff {
        seq![0x59u8] + be_bytes(len, 2)
    } else if len <= 0xffff_ffff {
        seq![0x5au8] + be_bytes(len, 4)
    } else {
        seq![0x5bu8] + be_bytes(len, 8)
    }
}

/// The envelope of a payload: shortest head, then the payload.
pub open spec fn cbor_wrap(payload: Seq<u8>) -> Seq<u8> {
    cbor_head(payload.len()) + payload
}

/// How many length bytes follow a first byte, if it starts a definite-length
/// byte string.
pub open spec fn cbor_length_width(first: u8) -> Option<nat> {
    if 0x40 <= first <= 0x57 {
        Some(0nat)
    } else if first == 0x58 {
        Some(1nat)
    } else if first == 0x59 {
        Some(2nat)
    } else if first == 0x5a {
        Some(4nat)
    } else if first == 0x5b {
        Some(8nat)
    } else {
        None
    }
}

/// The length that the head of `blob` announces; `width` is the number of
/// length bytes after the first byte.
pub open spec fn cbor_announced(blob: Seq<u8>, width: nat) -> nat {
    if width == 0 {
        (blob[0] - 0x40) as nat
    } else {
        be_value(blob.subrange(1, 1 + width as int))
    }
}

/// The bytes of the byte string that `blob` starts with, if it starts with
/// one. Heads longer than needed are accepted, and so are bytes after the
/// item.
pub open spec fn cbor_unwrap(blob: Seq<u8>) -> Option<Seq<u8>> {
    if blob.len() == 0 {
        None
    } else {
        match cbor_length_width(blob[0]) {
            None => None,
            Some(width) => {
                if blob.len() < 1 + width {
                    None
                } else {
                    let start = 1 + width;
                    let end = start + cbor_announced(blob, width);
                    if end <= blob.len() {
                        Some(blob.subrange(start as int, end as int))
                    } else {
                        None
                    }
                }
            },
        }
    }
}

/// The detail text with which the CBOR codec rejects a blob, on one pointer
/// width.
pub uninterp spec fn cbor_rejection(blob: Seq<u8>) -> Seq<char>;

/// What unwrapping a blob gives: the payload, or the CBOR decoding fault.
pub open spec fn unwrap_outcome(blob: Seq<u8>) -> Result<Seq<u8>, Fault> {
    match cbor_unwrap(blob) {
        Some(payload) => Ok(payload),
        None => Err(Fault::CborDecode(cbor_rejection(blob))),
    }
}

/// `minicbor::to_vec` on a `minicbor::bytes::ByteVec` made from the payload.
///
/// The byte-string encoder writes the shortest head for the length and then
/// the bytes, into a `Vec<u8>` whose writes cannot fail; so the call always
/// succeeds and returns the envelope.
#[verifier::external_body]
fn cbor_encode_bytes(payload: &[u8]) -> (res: Result<Vec<u8>, String>)
    ensures
        res is Ok,
        res matches Ok(blob) ==> blob@ == cbor_wrap(payload@),
{
    match minicbor::to_vec(minicbor::bytes::ByteVec::from(payload.to_vec())) {
        Ok(blob) => Ok(blob),
        Err(e) => Err(e.to_string()),
    }
}

/// `minicbor::Decoder::bytes` on a decoder positioned at the start of `blob`.
///
/// It reads one definite-length byte string: the first byte must announce
/// one, the length bytes and the announced number of bytes must be present.
/// On failure the error's display text is returned; it depends on the blob
/// alone.
#[verifier::external_body]
fn cbor_decode_bytes(blob: &[u8]) -> (res: Result<Vec<u8>, String>)
    ensures
        res is Ok <==> cbor_unwrap(blob@).is_some(),
        res matches Ok(payload) ==> cbor_unwrap(blob@) == Some(payload@),
        res matches Err(detail) ==> detail@ == cbor_rejection(blob@),
{
    match minicbor::Decoder::new(blob).bytes() {
        Ok(payload) => Ok(payload.to_vec()),
        Err(e) => Err(e.to_string()),
    }
}

/// The view of a byte result.
pub open spec fn bytes_outcome(r: Result<Vec<u8>, QuantusUrError>) -> Result<Seq<u8>, Fault> {
    match r {
        Ok(bytes) => Ok(bytes@),
        Err(e) => Err(e@),
    }
}

/// Wraps a payload as a single CBOR byte string.
pub fn wrap_cbor(payload: &[u8]) -> (r: Result<Vec<u8>, QuantusUrError>)
    ensures
        bytes_outcome(r) == Ok::<Seq<u8>, Fault>(cbor_wrap(payload@)),
{
    match cbor_encode_bytes(payload) {
        Ok(blob) => Ok(blob),
        Err(detail) => Err(QuantusUrError::CborEncode(detail)),
    }
}

/// Reads the byte string that a blob starts with.
pub fn unwrap_cbor(blob: &[u8]) -> (r: Result<Vec<u8>, QuantusUrError>)
    ensures
        bytes_outcome(r) == unwrap_outcome(blob@),
{
    match cbor_decode_bytes(blob) {
        Ok(payload) => Ok(payload),
        Err(detail) => Err(QuantusUrError::CborDecode(detail)),
    }
}

/// Reading `width` digits back gives the number, when it fits in them.
pub proof fn lemma_be_value_of_be_bytes(value: nat, width: nat)
    requires
        value < pow256(width),
    ensures
        be_bytes(value, width).len() == width,
        be_value(be_bytes(value, width)) == value,
    decreases width,
{
    if width > 0 {
        let rest = be_bytes(value / 256, (width - 1) as nat);
        lemma_be_value_of_be_bytes(value / 256, (width - 1) as nat);
        assert(be_bytes(value, width).drop_last() =~= rest);
    }
}

/// 256 to the power `width`.
pub open spec fn pow256(width: nat) -> nat
    decreases width,
{
    if width == 0 {
        1
    } else {
        256 * pow256((width - 1) as nat)
    }
}

/// The head of a byte string announces its length in the shortest width.
pub proof fn lemma_head_announces(len: nat)
    requires
        len <= u64::MAX,
    ensures
        cbor_head(len).len() >= 1,
        cbor_length_width(cbor_head(len)[0]) == Some((cbor_head(len).len() - 1) as nat),
        cbor_announced(cbor_head(len), (cbor_head(len).len() - 1) as nat) == len,
{
    reveal_with_fuel(pow256, 9);
    let head = cbor_head(len);
    if len < 24 {
    } else {
        let width: nat = if len <= 0xff {
            1
        } else if len <= 0xffff {
            2
        } else if len <= 0xffff_ffff {
            4
        } else {
            8
        };
        lemma_be_value_of_be_bytes(len, width);
        assert(head.subrange(1, 1 + width as int) =~= be_bytes(len, width));
    }
}

/// Unwrapping the envelope of a payload gives the payload back.
pub proof fn lemma_unwrap_wrap(payload: Seq<u8>)
    requires
        payload.len() <= u64::MAX,
    ensures
        cbor_unwrap(cbor_wrap(payload)) == Some(payload),
        unwrap_outcome(cbor_wrap(payload)) == Ok::<Seq<u8>, Fault>(payload),
{
    let head = cbor_head(payload.len());
    let blob = cbor_wrap(payload);
    lemma_head_announces(payload.len());
    let width = (head.len() - 1) as nat;
    assert(blob[0] == head[0]);
    assert(blob.subrange(1, 1 + width as int) =~= head.subrange(1, 1 + width as int));
    assert(blob.subrange(head.len() as int, blob.len() as int) =~= payload);
}

/// The envelope is never empty, and at most nine bytes longer than the payload.
pub proof fn lemma_wrap_len(payload: Seq<u8>)
    ensures
        payload.len() < cbor_wrap(payload).len() <= payload.len() + 9,
        payload.len() < 24 ==> cbor_wrap(payload).len() == payload.len() + 1,
        24 <= payload.len() <= 0xff ==> cbor_wrap(payload).len() == payload.len() + 2,
        0xff < payload.len() <= 0xffff ==> cbor_wrap(payload).len() == payload.len() + 3,
{
    lemma_be_bytes_len(payload.len(), 1);
    lemma_be_bytes_len(payload.len(), 2);
    lemma_be_bytes_len(payload.len(), 4);
    lemma_be_bytes_len(payload.len(), 8);
}

/// `be_bytes` yields exactly `width` digits.
pub proof fn lemma_be_bytes_len(value: nat, width: nat)
    ensures
        be_bytes(value, width).len() == width,
    decreases width,
{
    if width > 0 {
        lemma_be_bytes_len(value / 256, (width - 1) as nat);
    }
}

} // verus!
