//! What encoding and decoding promise together.
//!
//! Whether a UR string reads back as the frame it was written from, and
//! whether a session completes on a fragment set, is decided by the UR and
//! fountain codecs. The laws here state the share of this crate: given a codec
//! that reads back what it wrote, a payload survives the round trip exactly.

use crate::cbor::{cbor_wrap, lemma_unwrap_wrap, lemma_wrap_len};
use crate::emit::{
    encode_hex_outcome, fragment_set, lemma_fragment_set_size, probe_text, MAX_FRAGMENT_LENGTH,
    UR_TYPE,
};
use crate::error::Fault;
use crate::hex_text::{hex_bytes, hex_chars, is_hex, lemma_write_read, lower_digit};
use crate::reassemble::{
    accepted_multi_part, complete_outcome, decode_hex_outcome, decode_outcome, session_complete,
    session_message, ur_decoded, FrameKind,
};
use crate::text::{lowercased, lowered, uppercased};
use vstd::prelude::*;

verus! {

/// The grammar decoder reads the upper-cased `text` back, once lower-cased
/// again, as a single-part frame holding `blob`.
pub open spec fn reads_back(text: Seq<char>, blob: Seq<u8>) -> bool {
    ur_decoded(lowercased(uppercased(text))) == Ok::<(FrameKind, Seq<u8>), Seq<char>>(
        (FrameKind::SinglePart, blob),
    )
}

/// The single string of the envelope of `payload` reads back as that
/// envelope.
pub open spec fn single_reads_back(payload: Seq<u8>) -> bool {
    reads_back(
        probe_text(cbor_wrap(payload), MAX_FRAGMENT_LENGTH as nat, UR_TYPE@),
        cbor_wrap(payload),
    )
}

/// A fresh session accepts every string of `parts`, is complete after them,
/// and hands out `blob`.
pub open spec fn reassembles(parts: Seq<Seq<char>>, blob: Seq<u8>) -> bool {
    &&& accepted_multi_part(parts)
    &&& session_complete(lowered(parts))
    &&& session_message(lowered(parts)) == Ok::<Option<Seq<u8>>, Seq<char>>(Some(blob))
}

/// Single-fragment round trip: a payload whose envelope is within the bound
/// is encoded as one string, and where the grammar decoder reads that string
/// back as the envelope, decoding the set gives the payload.
pub proof fn lemma_faithful_single_part_round_trip(payload: Seq<u8>)
    requires
        cbor_wrap(payload).len() <= MAX_FRAGMENT_LENGTH,
        single_reads_back(payload),
    ensures
        fragment_set(payload).len() == 1,
        complete_outcome(fragment_set(payload)),
        decode_outcome(fragment_set(payload)) == Ok::<Seq<u8>, Fault>(payload),
        decode_hex_outcome(fragment_set(payload)) == Ok::<Seq<char>, Fault>(hex_chars(payload)),
{
    lemma_wrap_len(payload);
    lemma_unwrap_wrap(payload);
    lemma_fragment_set_size(payload);
}

/// Multi-fragment round trip: a payload whose envelope exceeds the bound is
/// encoded as more than one string, and where a session reassembles the
/// envelope from the set, decoding the set gives the payload.
pub proof fn lemma_faithful_multi_part_round_trip(payload: Seq<u8>)
    requires
        payload.len() <= u64::MAX,
        cbor_wrap(payload).len() > MAX_FRAGMENT_LENGTH,
        reassembles(fragment_set(payload), cbor_wrap(payload)),
    ensures
        fragment_set(payload).len() > 1,
        complete_outcome(fragment_set(payload)),
        decode_outcome(fragment_set(payload)) == Ok::<Seq<u8>, Fault>(payload),
        decode_hex_outcome(fragment_set(payload)) == Ok::<Seq<char>, Fault>(hex_chars(payload)),
{
    lemma_unwrap_wrap(payload);
    lemma_fragment_set_size(payload);
}

/// Hex round trip through a single fragment: well-formed hex text whose bytes
/// fit in one fragment is encoded as one string, and where the grammar
/// decoder reads that string back, decoding to hex gives the text with its
/// digits in lower case.
pub proof fn lemma_faithful_hex_round_trip(text: Seq<u8>)
    requires
        is_hex(text),
        cbor_wrap(hex_bytes(text)).len() <= MAX_FRAGMENT_LENGTH,
        single_reads_back(hex_bytes(text)),
    ensures
        encode_hex_outcome(text) matches Ok(parts) && {
            &&& parts.len() == 1
            &&& decode_hex_outcome(parts) == Ok::<Seq<char>, Fault>(
                Seq::new(text.len(), |i: int| lower_digit(text[i]) as char),
            )
        },
{
    let payload = hex_bytes(text);
    lemma_faithful_single_part_round_trip(payload);
    lemma_write_read(text);
    assert(hex_chars(payload) =~= Seq::new(text.len(), |i: int| lower_digit(text[i]) as char))
        by {
        assert forall|i: int| 0 <= i < text.len() implies hex_chars(payload)[i] == lower_digit(
            text[i],
        ) as char by {
            assert(crate::hex_text::hex_digits(payload)[i] == lower_digit(text[i]));
        }
    }
}

} // verus!
