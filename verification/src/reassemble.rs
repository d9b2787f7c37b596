//! Reassembly of a payload from received UR strings, and the readiness probe.
//!
//! The first string decides the framing. A single-part string carries the
//! whole envelope. For multi-part framing every string is fed, in the order
//! given, to a fresh fountain decoding session; the envelope is taken from the
//! session once it reports completion.

use crate::cbor::{bytes_outcome, unwrap_cbor, unwrap_outcome};
use crate::error::{Fault, QuantusUrError};
use crate::hex_text::{bytes_to_hex, hex_chars};
use crate::text::{lowercased, lowered, same_modulo_case, texts_of};
use vstd::prelude::*;
use vstd::string::StringExecFns;

verus! {

/// Framing of a UR string.
#[derive(Debug, Clone, Copy, PartialEq, Eq)]
pub enum FrameKind {
    /// The string carries the whole message.
    SinglePart,
    /// The string carries one fountain part of the message.
    MultiPart,
}

/// What the UR grammar decoder makes of a text: its framing and the bytes it
/// carries, or the detail text of its rejection. Indices of a multi-part
/// string are read as machine words, so the outcome is that of one pointer
/// width.
pub uninterp spec fn ur_decoded(text: Seq<char>) -> Result<(FrameKind, Seq<u8>), Seq<char>>;

/// The view of a classified frame.
pub open spec fn frame_outcome(res: Result<(FrameKind, Vec<u8>), String>) -> Result<
    (FrameKind, Seq<u8>),
    Seq<char>,
> {
    match res {
        Ok((kind, frame)) => Ok((kind, frame@)),
        Err(detail) => Err(detail@),
    }
}

/// `ur::ur::decode`: classifies a UR string and decodes the bytes it carries.
///
/// The result depends on the text alone. The contract claims no more than
/// that: it equals the named outcome for the text, the error being taken by
/// its display text.
#[verifier::external_body]
fn ur_decode(text: &str) -> (res: Result<(FrameKind, Vec<u8>), String>)
    ensures
        frame_outcome(res) == ur_decoded(text@),
{
    match ur::ur::decode(text) {
        Ok((ur::ur::Kind::SinglePart, frame)) => Ok((FrameKind::SinglePart, frame)),
        Ok((ur::ur::Kind::MultiPart, frame)) => Ok((FrameKind::MultiPart, frame)),
        Err(e) => Err(e.to_string()),
    }
}

/// A fountain decoding session of the `ur` crate.
#[verifier::external_type_specification]
#[verifier::external_body]
pub struct ExDecoder(ur::ur::Decoder);

/// The texts that a session has been handed so far, in order, accepted or
/// not.
pub uninterp spec fn session_fed(session: ur::ur::Decoder) -> Seq<Seq<char>>;

/// How a session that was handed `fed` answers to `text`: acceptance, or the
/// detail text of its rejection.
pub uninterp spec fn receive_outcome(fed: Seq<Seq<char>>, text: Seq<char>) -> Result<
    (),
    Seq<char>,
>;

/// Whether a session that was handed `fed` can reconstruct its message.
pub uninterp spec fn session_complete(fed: Seq<Seq<char>>) -> bool;

/// What a session that was handed `fed` gives as its message.
pub uninterp spec fn session_message(fed: Seq<Seq<char>>) -> Result<Option<Seq<u8>>, Seq<char>>;

/// The view of a session's answer to a text.
pub open spec fn answer_outcome(res: Result<(), String>) -> Result<(), Seq<char>> {
    match res {
        Ok(()) => Ok(()),
        Err(detail) => Err(detail@),
    }
}

/// The view of a session's message.
pub open spec fn message_outcome(res: Result<Option<Vec<u8>>, String>) -> Result<
    Option<Seq<u8>>,
    Seq<char>,
> {
    match res {
        Ok(Some(message)) => Ok(Some(message@)),
        Ok(None) => Ok(None),
        Err(detail) => Err(detail@),
    }
}

/// `ur::ur::Decoder::default`: a session that has been handed nothing.
#[verifier::external_body]
fn open_session() -> (session: ur::ur::Decoder)
    ensures
        session_fed(session) == Seq::<Seq<char>>::empty(),
{
    ur::ur::Decoder::default()
}

/// `ur::ur::Decoder::receive`: hands one UR string to the session.
///
/// The session's state is determined by the texts it was handed, so its
/// answer is the named one for those texts and the new one; afterwards the
/// new text counts among them.
#[verifier::external_body]
fn receive(session: &mut ur::ur::Decoder, text: &str) -> (res: Result<(), String>)
    ensures
        answer_outcome(res) == receive_outcome(session_fed(*old(session)), text@),
        session_fed(*final(session)) == session_fed(*old(session)).push(text@),
{
    match session.receive(text) {
        Ok(()) => Ok(()),
        Err(e) => Err(e.to_string()),
    }
}

/// `ur::ur::Decoder::complete`: whether the message can be reconstructed from
/// what the session was handed.
pub assume_specification[ ur::ur::Decoder::complete ](session: &ur::ur::Decoder) -> (b: bool)
    ensures
        b == session_complete(session_fed(*session)),
;

/// `ur::ur::Decoder::message`: the reconstructed message, `None` where there
/// is none, or the detail text of an inconsistency. It is determined by what
/// the session was handed.
#[verifier::external_body]
fn session_yield(session: &ur::ur::Decoder) -> (res: Result<Option<Vec<u8>>, String>)
    ensures
        message_outcome(res) == session_message(session_fed(*session)),
{
    match session.message() {
        Ok(message) => Ok(message),
        Err(e) => Err(e.to_string()),
    }
}

/// The rejection met first when `texts[0..upto]` are fed in order to a fresh
/// session, if any of them is rejected.
pub open spec fn first_rejection(texts: Seq<Seq<char>>, upto: nat) -> Option<Seq<char>>
    decreases upto,
{
    if upto == 0 {
        None
    } else {
        match first_rejection(texts, (upto - 1) as nat) {
            Some(detail) => Some(detail),
            None => match receive_outcome(texts.take(upto - 1), texts[upto - 1]) {
                Err(detail) => Some(detail),
                Ok(()) => None,
            },
        }
    }
}

/// What a session gives up once everything was fed: `Incomplete` while
/// fragments are missing, else the unwrapped message.
pub open spec fn session_outcome(texts: Seq<Seq<char>>) -> Result<Seq<u8>, Fault> {
    match first_rejection(texts, texts.len()) {
        Some(detail) => Err(Fault::UrDecode(detail)),
        None => if session_complete(texts) {
            recovered(session_message(texts))
        } else {
            Err(Fault::Incomplete)
        },
    }
}

/// What the message of a complete session is turned into.
pub open spec fn recovered(message: Result<Option<Seq<u8>>, Seq<char>>) -> Result<
    Seq<u8>,
    Fault,
> {
    match message {
        Err(detail) => Err(Fault::UrDecode(detail)),
        Ok(None) => Err(Fault::UrDecode("No message"@)),
        Ok(Some(blob)) => unwrap_outcome(blob),
    }
}

/// What a list of UR strings decodes to, given what the grammar decoder made
/// of the first: its rejection is a UR decoding failure, a single-part frame
/// is unwrapped at once, and multi-part framing goes through a session.
pub open spec fn frames_outcome(
    first: Result<(FrameKind, Seq<u8>), Seq<char>>,
    parts: Seq<Seq<char>>,
) -> Result<Seq<u8>, Fault> {
    match first {
        Err(detail) => Err(Fault::UrDecode(detail)),
        Ok((FrameKind::SinglePart, frame)) => unwrap_outcome(frame),
        Ok((FrameKind::MultiPart, _)) => session_outcome(lowered(parts)),
    }
}

/// Whether a list of UR strings is ready, given what the grammar decoder made
/// of the first.
pub open spec fn frames_ready(
    first: Result<(FrameKind, Seq<u8>), Seq<char>>,
    parts: Seq<Seq<char>>,
) -> bool {
    match first {
        Err(_) => false,
        Ok((FrameKind::SinglePart, _)) => true,
        Ok((FrameKind::MultiPart, _)) => {
            &&& first_rejection(lowered(parts), parts.len()) is None
            &&& session_complete(lowered(parts))
        },
    }
}

/// What decoding a list of UR strings gives.
pub open spec fn decode_outcome(parts: Seq<Seq<char>>) -> Result<Seq<u8>, Fault> {
    if parts.len() == 0 {
        Err(Fault::EmptyInput)
    } else {
        frames_outcome(ur_decoded(lowercased(parts[0])), parts)
    }
}

/// Whether a list of UR strings is ready to be decoded.
pub open spec fn complete_outcome(parts: Seq<Seq<char>>) -> bool {
    parts.len() > 0 && frames_ready(ur_decoded(lowercased(parts[0])), parts)
}

/// What decoding to hex text gives.
pub open spec fn decode_hex_outcome(parts: Seq<Seq<char>>) -> Result<Seq<char>, Fault> {
    match decode_outcome(parts) {
        Ok(payload) => Ok(hex_chars(payload)),
        Err(fault) => Err(fault),
    }
}

/// The view of a text result.
pub open spec fn text_outcome(r: Result<String, QuantusUrError>) -> Result<Seq<char>, Fault> {
    match r {
        Ok(text) => Ok(text@),
        Err(e) => Err(e@),
    }
}

/// A list that is framed as multi-part and of which a fresh session accepts
/// every string.
pub open spec fn accepted_multi_part(parts: Seq<Seq<char>>) -> bool {
    &&& parts.len() > 0
    &&& ur_decoded(lowercased(parts[0])) matches Ok((FrameKind::MultiPart, _))
    &&& first_rejection(lowered(parts), parts.len()) is None
}

/// Case insensitivity: two lists whose strings differ at most in the case of
/// their letters decode alike, to bytes and to hex text, and probe alike.
pub proof fn lemma_case_insensitive(a: Seq<Seq<char>>, b: Seq<Seq<char>>)
    requires
        a.len() == b.len(),
        forall|i: int| 0 <= i < a.len() ==> same_modulo_case(a[i], b[i]),
    ensures
        decode_outcome(a) == decode_outcome(b),
        decode_hex_outcome(a) == decode_hex_outcome(b),
        complete_outcome(a) == complete_outcome(b),
{
    assert(lowered(a) =~= lowered(b));
}

/// Whatever decodes was ready: a list that the probe calls not ready never
/// decodes to bytes.
pub proof fn lemma_decoded_was_complete(parts: Seq<Seq<char>>)
    ensures
        decode_outcome(parts) is Ok ==> complete_outcome(parts),
        !complete_outcome(parts) ==> decode_outcome(parts) is Err,
{
}

/// `Incomplete` is the answer to exactly the lists that are framed as
/// multi-part, accepted string by string, and not ready; every other
/// failure is of another kind.
pub proof fn lemma_incomplete_is_distinct(parts: Seq<Seq<char>>)
    ensures
        decode_outcome(parts) == Err::<Seq<u8>, Fault>(Fault::Incomplete) <==> accepted_multi_part(
            parts,
        ) && !complete_outcome(parts),
{
}

/// An empty list is neither ready nor decodable.
pub proof fn lemma_empty_input()
    ensures
        !complete_outcome(Seq::empty()),
        decode_outcome(Seq::empty()) == Err::<Seq<u8>, Fault>(Fault::EmptyInput),
        decode_hex_outcome(Seq::empty()) == Err::<Seq<char>, Fault>(Fault::EmptyInput),
{
}

/// Single-part round trip on the receiving side: where the first string
/// carries the envelope of a payload, decoding gives that payload, whatever
/// follows in the list.
pub proof fn lemma_single_part_recovers_payload(payload: Seq<u8>, parts: Seq<Seq<char>>)
    requires
        payload.len() <= u64::MAX,
        parts.len() > 0,
        ur_decoded(lowercased(parts[0])) == Ok::<(FrameKind, Seq<u8>), Seq<char>>(
            (FrameKind::SinglePart, crate::cbor::cbor_wrap(payload)),
        ),
    ensures
        complete_outcome(parts),
        decode_outcome(parts) == Ok::<Seq<u8>, Fault>(payload),
        decode_hex_outcome(parts) == Ok::<Seq<char>, Fault>(hex_chars(payload)),
{
    crate::cbor::lemma_unwrap_wrap(payload);
}

/// Multi-part round trip on the receiving side: where the session accepts
/// every string, is complete and hands out the envelope of a payload,
/// decoding gives that payload.
pub proof fn lemma_multi_part_recovers_payload(payload: Seq<u8>, parts: Seq<Seq<char>>)
    requires
        payload.len() <= u64::MAX,
        accepted_multi_part(parts),
        session_complete(lowered(parts)),
        session_message(lowered(parts)) == Ok::<Option<Seq<u8>>, Seq<char>>(
            Some(crate::cbor::cbor_wrap(payload)),
        ),
    ensures
        complete_outcome(parts),
        decode_outcome(parts) == Ok::<Seq<u8>, Fault>(payload),
        decode_hex_outcome(parts) == Ok::<Seq<char>, Fault>(hex_chars(payload)),
{
    crate::cbor::lemma_unwrap_wrap(payload);
}

/// A rejection among the first `upto` texts is still the first one among more.
pub proof fn lemma_rejection_stays(texts: Seq<Seq<char>>, upto: nat, more: nat)
    requires
        upto <= more,
        first_rejection(texts, upto) is Some,
    ensures
        first_rejection(texts, more) == first_rejection(texts, upto),
    decreases more,
{
    if upto < more {
        lemma_rejection_stays(texts, upto, (more - 1) as nat);
    }
}

/// Feeds every string, lower-cased and in the order given, to a fresh
/// session, and stops at the first rejection.
fn feed_all(session: &mut ur::ur::Decoder, ur_parts: &[String]) -> (res: Result<(), String>)
    requires
        session_fed(*old(session)).len() == 0,
    ensures
        answer_outcome(res) == match first_rejection(
            lowered(texts_of(ur_parts@)),
            ur_parts@.len(),
        ) {
            Some(detail) => Err::<(), Seq<char>>(detail),
            None => Ok(()),
        },
        res is Ok ==> session_fed(*final(session)) == lowered(texts_of(ur_parts@)),
{
    let ghost texts = lowered(texts_of(ur_parts@));
    let mut i: usize = 0;
    assert(session_fed(*session) =~= texts.take(0));
    while i < ur_parts.len()
        invariant
            i <= ur_parts@.len(),
            texts == lowered(texts_of(ur_parts@)),
            session_fed(*session) == texts.take(i as int),
            first_rejection(texts, i as nat) is None,
        decreases ur_parts@.len() - i,
    {
        let text = ur_parts[i].as_str().to_lowercase();
        assert(text@ == texts[i as int]);
        match receive(session, text.as_str()) {
            Ok(()) => {},
            Err(detail) => {
                proof {
                    lemma_rejection_stays(texts, (i + 1) as nat, ur_parts@.len());
                }
                return Err(detail);
            },
        }
        assert(texts.take(i as int).push(texts[i as int]) =~= texts.take(i + 1));
        i = i + 1;
    }
    assert(texts.take(i as int) =~= texts);
    Ok(())
}

/// Turns the message of a complete session into the payload.
///
/// A session that cannot hand out its message, or hands out none, is a UR
/// decoding failure; a message that is no CBOR byte string is a CBOR decoding
/// failure.
pub fn recover_message(message: Result<Option<Vec<u8>>, String>) -> (r: Result<
    Vec<u8>,
    QuantusUrError,
>)
    ensures
        bytes_outcome(r) == recovered(message_outcome(message)),
{
    match message {
        Err(detail) => Err(QuantusUrError::UrDecode(detail)),
        Ok(None) => Err(QuantusUrError::UrDecode(String::from_str("No message"))),
        Ok(Some(blob)) => unwrap_cbor(blob.as_slice()),
    }
}

/// Reassembles the payload once the first string has been classified.
///
/// `first` is what the grammar decoder made of the first string of the list:
/// its framing and frame, or the detail text of its rejection.
pub fn decode_frames(first: Result<(FrameKind, Vec<u8>), String>, ur_parts: &[String]) -> (r:
    Result<Vec<u8>, QuantusUrError>)
    ensures
        bytes_outcome(r) == frames_outcome(frame_outcome(first), texts_of(ur_parts@)),
{
    match first {
        Err(detail) => Err(QuantusUrError::UrDecode(detail)),
        Ok((kind, frame)) => match kind {
            FrameKind::SinglePart => unwrap_cbor(frame.as_slice()),
            FrameKind::MultiPart => {
                let mut session = open_session();
                match feed_all(&mut session, ur_parts) {
                    Err(detail) => Err(QuantusUrError::UrDecode(detail)),
                    Ok(()) => {
                        if !session.complete() {
                            return Err(QuantusUrError::Incomplete);
                        }
                        recover_message(session_yield(&session))
                    },
                }
            },
        },
    }
}

/// Probes readiness once the first string has been classified.
pub fn frames_complete(first: Result<(FrameKind, Vec<u8>), String>, ur_parts: &[String]) -> (b:
    bool)
    ensures
        b == frames_ready(frame_outcome(first), texts_of(ur_parts@)),
{
    match first {
        Err(_) => false,
        Ok((kind, _)) => match kind {
            FrameKind::SinglePart => true,
            FrameKind::MultiPart => {
                let mut session = open_session();
                match feed_all(&mut session, ur_parts) {
                    Err(_) => false,
                    Ok(()) => session.complete(),
                }
            },
        },
    }
}

fn decode_internal(ur_parts: &[String]) -> (r: Result<Vec<u8>, QuantusUrError>)
    ensures
        bytes_outcome(r) == decode_outcome(texts_of(ur_parts@)),
{
    if ur_parts.len() == 0 {
        return Err(QuantusUrError::EmptyInput);
    }
    let first = ur_parts[0].as_str().to_lowercase();
    decode_frames(ur_decode(first.as_str()), ur_parts)
}

/// Reassembles the payload from a list of UR strings of any case.
///
/// An empty list is refused. The first string decides the framing; for a
/// single-part string the rest of the list is ignored. For multi-part framing
/// all strings are fed to a fresh session, and `Incomplete` tells that the
/// list does not yet hold enough fragments.
pub fn decode_bytes(ur_parts: &[String]) -> (r: Result<Vec<u8>, QuantusUrError>)
    ensures
        bytes_outcome(r) == decode_outcome(texts_of(ur_parts@)),
        ur_parts@.len() == 0 ==> r == Err::<Vec<u8>, QuantusUrError>(QuantusUrError::EmptyInput),
{
    decode_internal(ur_parts)
}

/// Reassembles the payload and returns it as lower-case hex text.
pub fn decode_hex(ur_parts: &[String]) -> (r: Result<String, QuantusUrError>)
    ensures
        text_outcome(r) == decode_hex_outcome(texts_of(ur_parts@)),
{
    match decode_internal(ur_parts) {
        Ok(bytes) => Ok(bytes_to_hex(bytes.as_slice())),
        Err(e) => Err(e),
    }
}

/// Tells whether a list of UR strings is ready to be decoded, without
/// extracting anything: `false` for an empty list, for a first string that is
/// no UR, and for a rejected fragment; `true` for a single-part string; for
/// multi-part framing, whether the session is complete after all were fed.
pub fn is_complete(ur_parts: &[String]) -> (b: bool)
    ensures
        b == complete_outcome(texts_of(ur_parts@)),
        ur_parts@.len() == 0 ==> !b,
{
    if ur_parts.len() == 0 {
        return false;
    }
    let first = ur_parts[0].as_str().to_lowercase();
    frames_complete(ur_decode(first.as_str()), ur_parts)
}

} // verus!
