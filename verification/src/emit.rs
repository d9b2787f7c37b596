//! Emission of the fragment set of a payload.
//!
//! The envelope of the payload is probed under the fragment length bound and
//! the type tag. A single-part probe yields the one string. A multi-part
//! probe yields the first fragment and a fountain encoder, from which exactly
//! as many further fragments are pulled, in the encoder's order, as make up
//! the pure fragment set. Every string is emitted in upper case.

use crate::cbor::{cbor_wrap, lemma_wrap_len, wrap_cbor};
use crate::error::{Fault, QuantusUrError};
use crate::hex_text::{hex_outcome, hex_to_bytes};
use crate::text::{texts_of, uppercased};
use ur_parse_lib::keystone_ur_encoder::KeystoneUREncoder;
use vstd::prelude::*;
use vstd::string::StringExecFns;
use vstd::string::StringSliceAdditionalSpecFns;

verus! {

/// Type tag of every UR string of this crate.
pub const UR_TYPE: &'static str = "quantus-sign-request";

/// Longest envelope, in bytes, that travels as a single UR string; also the
/// bound on the bytes of the envelope that one fragment carries.
pub const MAX_FRAGMENT_LENGTH: usize = 200;

/// `a / b`, rounded up.
pub open spec fn div_ceil(a: nat, b: nat) -> nat {
    if a % b > 0 {
        a / b + 1
    } else {
        a / b
    }
}

/// The number of fragments into which the fountain encoder splits a message
/// of `len` bytes under the bound `limit`: it settles on the fragment length
/// `div_ceil(len, div_ceil(len, limit))` and cuts the message, padded to a
/// multiple of it, into pieces of that length.
pub open spec fn split_count(len: nat, limit: nat) -> nat {
    div_ceil(len, div_ceil(len, div_ceil(len, limit)))
}

/// What the fountain encoder accepts: a message that is not empty and a bound
/// that is not zero.
pub open spec fn splittable(len: nat, limit: nat) -> bool {
    len > 0 && limit > 0
}

/// A fountain encoder of the `ur-parse-lib` crate.
#[verifier::external_type_specification]
#[verifier::external_body]
pub struct ExKeystoneUREncoder(KeystoneUREncoder);

/// What determines the fragments of a fountain encoder: the message it
/// splits, the bound and the type tag it was made with, and how many
/// fragments it has emitted.
pub struct EncoderState {
    pub blob: Seq<u8>,
    pub limit: nat,
    pub tag: Seq<char>,
    pub emitted: nat,
}

/// The state of a fountain encoder.
pub uninterp spec fn encoder_state(encoder: KeystoneUREncoder) -> EncoderState;

/// The string that probing a message gives: the single UR string of a message
/// that needs no splitting, the first fragment of one that does.
pub uninterp spec fn probe_text(blob: Seq<u8>, limit: nat, tag: Seq<char>) -> Seq<char>;

/// The fragment with the given sequence number, counted from 1 and no higher
/// than the number of fragments, of a message split under `limit` and tagged
/// `tag`, as the fountain encoder emits it.
pub uninterp spec fn part_text(blob: Seq<u8>, limit: nat, tag: Seq<char>, sequence: nat) -> Seq<
    char,
>;

/// Result of probing a message: the framing, the first string, and for
/// multi-part framing the encoder that yields the further fragments.
pub struct Probe {
    pub is_multi_part: bool,
    pub data: String,
    pub encoder: Option<KeystoneUREncoder>,
}

/// Mathematical model of a [`Probe`]: the framing, the characters of the first
/// string, and the state of the encoder.
pub struct ProbeView {
    pub is_multi_part: bool,
    pub data: Seq<char>,
    pub encoder: Option<EncoderState>,
}

impl View for Probe {
    type V = ProbeView;

    open spec fn view(&self) -> ProbeView {
        ProbeView {
            is_multi_part: self.is_multi_part,
            data: self.data@,
            encoder: match self.encoder {
                Some(encoder) => Some(encoder_state(encoder)),
                None => None,
            },
        }
    }
}

/// The state of an encoder that has emitted the first fragment only.
pub open spec fn started(blob: Seq<u8>, limit: nat, tag: Seq<char>) -> EncoderState {
    EncoderState { blob, limit, tag, emitted: 1 }
}

/// The state after one more fragment.
pub open spec fn advanced(state: EncoderState) -> EncoderState {
    EncoderState { emitted: state.emitted + 1, ..state }
}

/// The number of fragments of the encoder's message.
pub open spec fn fragment_count(state: EncoderState) -> nat {
    split_count(state.blob.len(), state.limit)
}

/// `ur_parse_lib::keystone_ur_encoder::probe_encode`.
///
/// It succeeds exactly on a message that is not empty under a bound that is
/// not zero: nothing else is refused, and the strings are serialised into
/// memory, which cannot fail. The string handed back depends on the three
/// arguments alone. The message is multi-part exactly if it splits into more
/// than one fragment, and then the result holds an encoder for that message,
/// bound and tag which has emitted one fragment; a single-part result holds
/// no encoder. An error is returned by its display text.
#[verifier::external_body]
fn probe(blob: &[u8], limit: usize, tag: &str) -> (res: Result<Probe, String>)
    ensures
        res is Ok <==> splittable(blob@.len(), limit as nat),
        res matches Ok(p) ==> p.data@ == probe_text(blob@, limit as nat, tag@),
        res matches Ok(p) ==> p.is_multi_part == (split_count(blob@.len(), limit as nat) > 1),
        res matches Ok(p) ==> p.is_multi_part == p.encoder.is_some(),
        res matches Ok(Probe { encoder: Some(e), .. }) ==> encoder_state(e) == started(
            blob@,
            limit as nat,
            tag@,
        ),
{
    match ur_parse_lib::keystone_ur_encoder::probe_encode(blob, limit, tag.to_string()) {
        Ok(r) => Ok(Probe { is_multi_part: r.is_multi_part, data: r.data, encoder: r.encoder }),
        Err(e) => Err(e.to_string()),
    }
}

/// `KeystoneUREncoder::fragment_count`: the number of fragments into which
/// the encoder's message was split.
pub assume_specification[ KeystoneUREncoder::fragment_count ](encoder: &KeystoneUREncoder) -> (n:
    usize)
    ensures
        n == fragment_count(encoder_state(*encoder)),
;

/// `KeystoneUREncoder::next_part`, while fragments of the pure set are left:
/// emits the fragment with the next sequence number.
///
/// Up to the number of fragments the encoder hands out the pieces of its
/// message one by one, each serialised into memory, which cannot fail; the
/// fragment depends on the message, the bound, the tag and the sequence
/// number alone. Beyond that number the encoder mixes pieces by chance drawn
/// from a seeded generator; the contract does not reach there.
#[verifier::external_body]
fn next_fragment(encoder: &mut KeystoneUREncoder) -> (res: Result<String, String>)
    requires
        encoder_state(*old(encoder)).emitted < fragment_count(encoder_state(*old(encoder))),
    ensures
        res is Ok,
        res matches Ok(text) ==> text@ == part_text(
            encoder_state(*old(encoder)).blob,
            encoder_state(*old(encoder)).limit,
            encoder_state(*old(encoder)).tag,
            encoder_state(*old(encoder)).emitted + 1,
        ),
        encoder_state(*final(encoder)) == advanced(encoder_state(*old(encoder))),
{
    match encoder.next_part() {
        Ok(text) => Ok(text),
        Err(e) => Err(e.to_string()),
    }
}

/// The `n` fragments that an encoder in `state` emits next, in upper case.
pub open spec fn following_parts(state: EncoderState, n: nat) -> Seq<Seq<char>> {
    Seq::new(
        n,
        |i: int|
            uppercased(
                part_text(state.blob, state.limit, state.tag, (state.emitted + i + 1) as nat),
            ),
    )
}

/// How many fragments are still to be pulled once the first is in hand.
pub open spec fn remaining(state: EncoderState) -> nat {
    if fragment_count(state) == 0 {
        0
    } else {
        (fragment_count(state) - 1) as nat
    }
}

/// The fragment set that a probe leads to.
///
/// A single-part probe gives its one string. A multi-part probe gives its
/// first string and then the fragments pulled from the encoder until the set
/// has as many members as the message has fragments; a multi-part probe
/// without an encoder fails.
pub open spec fn emit_outcome(probe: ProbeView) -> Result<Seq<Seq<char>>, Fault> {
    if !probe.is_multi_part {
        Ok(seq![uppercased(probe.data)])
    } else {
        match probe.encoder {
            None => Err(Fault::UrEncode("Multi-part but no encoder returned"@)),
            Some(state) => Ok(
                seq![uppercased(probe.data)] + following_parts(state, remaining(state)),
            ),
        }
    }
}

/// The fragment set of a payload.
///
/// An envelope within the bound travels as the one string of the probe. A
/// longer one travels as the first fragment of the probe and the fragments
/// with the sequence numbers from 2 up to the number of fragments.
pub open spec fn fragment_set(payload: Seq<u8>) -> Seq<Seq<char>> {
    let blob = cbor_wrap(payload);
    let limit = MAX_FRAGMENT_LENGTH as nat;
    let first = uppercased(probe_text(blob, limit, UR_TYPE@));
    if blob.len() <= limit {
        seq![first]
    } else {
        let state = started(blob, limit, UR_TYPE@);
        seq![first] + following_parts(state, remaining(state))
    }
}

/// What encoding a payload gives: always its fragment set.
pub open spec fn encode_outcome(payload: Seq<u8>) -> Result<Seq<Seq<char>>, Fault> {
    Ok(fragment_set(payload))
}

/// What encoding a payload given as hex text gives: the hex decoding fault
/// for malformed text, else the fragment set of the bytes it spells.
pub open spec fn encode_hex_outcome(text: Seq<u8>) -> Result<Seq<Seq<char>>, Fault> {
    match hex_outcome(text) {
        Err(fault) => Err(fault),
        Ok(payload) => encode_outcome(payload),
    }
}

/// The view of a fragment set result.
pub open spec fn parts_outcome(r: Result<Vec<String>, QuantusUrError>) -> Result<
    Seq<Seq<char>>,
    Fault,
> {
    match r {
        Ok(parts) => Ok(texts_of(parts@)),
        Err(e) => Err(e@),
    }
}

/// `div_ceil(a, b)` is the least `q` with `a <= q * b`.
pub proof fn lemma_div_ceil(a: nat, b: nat)
    requires
        b > 0,
    ensures
        a <= div_ceil(a, b) * b,
        a > 0 ==> (div_ceil(a, b) - 1) * b < a,
        a > 0 ==> div_ceil(a, b) > 0,
        div_ceil(a, b) <= a,
{
    let q = a / b;
    let r = a % b;
    assert(a == q * b + r && 0 <= r < b) by (nonlinear_arith)
        requires
            q == a / b,
            r == a % b,
            b > 0,
    ;
    assert((q + 1) * b == q * b + b) by (nonlinear_arith);
    assert((q - 1) * b == q * b - b) by (nonlinear_arith);
    assert(q <= a) by (nonlinear_arith)
        requires
            a == q * b + r,
            r >= 0,
            b > 0,
            q >= 0,
    ;
    if r > 0 && q + 1 > a {
        assert(q == a);
        assert(q * b >= q) by (nonlinear_arith)
            requires
                b > 0,
                q >= 0,
        ;
    }
}

/// A `q` that brackets `a` between `(q - 1) * b` and `q * b` is `div_ceil(a, b)`.
pub proof fn lemma_div_ceil_unique(a: nat, b: nat, q: nat)
    requires
        b > 0,
        a <= q * b,
        (q - 1) * b < a,
    ensures
        div_ceil(a, b) == q,
{
    lemma_div_ceil(a, b);
    let d = div_ceil(a, b);
    if d < q {
        assert(d * b <= (q - 1) * b) by (nonlinear_arith)
            requires
                d <= q - 1,
                b > 0,
        ;
    }
    if d > q {
        assert(q * b <= (d - 1) * b) by (nonlinear_arith)
            requires
                q <= d - 1,
                b > 0,
        ;
    }
}

/// The encoder splits a message into as few fragments as the bound allows:
/// `div_ceil(len, limit)` of them.
pub proof fn lemma_split_count(len: nat, limit: nat)
    requires
        splittable(len, limit),
    ensures
        split_count(len, limit) == div_ceil(len, limit),
        split_count(len, limit) >= 1,
        split_count(len, limit) <= len,
        split_count(len, limit) == 1 <==> len <= limit,
{
    let k = div_ceil(len, limit);
    lemma_div_ceil(len, limit);
    let fl = div_ceil(len, k);
    lemma_div_ceil(len, k);
    // the fragment length stays within the bound
    if fl > limit {
        assert(k * limit <= (fl - 1) * k) by (nonlinear_arith)
            requires
                limit <= fl - 1,
                k > 0,
        ;
    }
    assert((k - 1) * fl <= (k - 1) * limit) by (nonlinear_arith)
        requires
            fl <= limit,
            k >= 1,
    ;
    assert(fl * k == k * fl) by (nonlinear_arith);
    lemma_div_ceil_unique(len, fl, k);
    if len <= limit {
        lemma_div_ceil_unique(len, limit, 1);
    } else {
        if k == 1 {
            assert(k * limit == limit) by (nonlinear_arith)
                requires
                    k == 1,
            ;
        }
    }
}

/// The fragment set of a payload has one member for each fragment of its
/// envelope: a single one exactly if the envelope is within the bound, more
/// than one otherwise, and none that is redundant.
pub proof fn lemma_fragment_set_size(payload: Seq<u8>)
    ensures
        fragment_set(payload).len() == div_ceil(
            cbor_wrap(payload).len(),
            MAX_FRAGMENT_LENGTH as nat,
        ),
        fragment_set(payload).len() == 1 <==> cbor_wrap(payload).len() <= MAX_FRAGMENT_LENGTH,
        fragment_set(payload).len() > 1 <==> cbor_wrap(payload).len() > MAX_FRAGMENT_LENGTH,
{
    lemma_wrap_len(payload);
    lemma_split_count(cbor_wrap(payload).len(), MAX_FRAGMENT_LENGTH as nat);
}

/// The members of the fragment set of a payload: the string of the probe
/// first, then the fragments with the sequence numbers from 2 on, in the
/// encoder's order and none skipped, each in upper case.
pub proof fn lemma_fragment_set_members(payload: Seq<u8>, i: int)
    requires
        0 <= i < fragment_set(payload).len(),
    ensures
        i == 0 ==> fragment_set(payload)[i] == uppercased(
            probe_text(cbor_wrap(payload), MAX_FRAGMENT_LENGTH as nat, UR_TYPE@),
        ),
        i > 0 ==> fragment_set(payload)[i] == uppercased(
            part_text(cbor_wrap(payload), MAX_FRAGMENT_LENGTH as nat, UR_TYPE@, (i + 1) as nat),
        ),
{
}

/// Pulls the fragment set out of a probe.
///
/// The encoder of a multi-part probe must be as the probe left it: with the
/// first fragment emitted and no other.
pub fn emit_fragments(probe: Probe) -> (r: Result<Vec<String>, QuantusUrError>)
    requires
        probe.encoder matches Some(encoder) ==> encoder_state(encoder).emitted == 1,
    ensures
        parts_outcome(r) == emit_outcome(probe@),
{
    let Probe { is_multi_part, data, encoder } = probe;
    let mut parts: Vec<String> = Vec::new();
    parts.push(data.as_str().to_uppercase());
    if !is_multi_part {
        assert(texts_of(parts@) =~= seq![uppercased(data@)]);
        return Ok(parts);
    }
    let mut encoder = match encoder {
        Some(encoder) => encoder,
        None => {
            return Err(
                QuantusUrError::UrEncode(String::from_str("Multi-part but no encoder returned")),
            );
        },
    };
    let ghost state = encoder_state(encoder);
    let count = encoder.fragment_count();
    assert(texts_of(parts@) =~= seq![uppercased(data@)] + following_parts(state, 0));
    while parts.len() < count
        invariant
            probe@ == (ProbeView { is_multi_part: true, data: data@, encoder: Some(state) }),
            state.emitted == 1,
            count == fragment_count(state),
            1 <= parts@.len(),
            parts@.len() <= count || parts@.len() == 1,
            encoder_state(encoder) == (EncoderState { emitted: parts@.len() as nat, ..state }),
            texts_of(parts@) == seq![uppercased(data@)] + following_parts(
                state,
                (parts@.len() - 1) as nat,
            ),
        decreases count - parts@.len(),
    {
        let ghost before = parts@;
        match next_fragment(&mut encoder) {
            Err(detail) => {
                return Err(QuantusUrError::UrEncode(detail));
            },
            Ok(part) => {
                parts.push(part.as_str().to_uppercase());
                proof {
                    let want = seq![uppercased(data@)] + following_parts(
                        state,
                        before.len() as nat,
                    );
                    assert(texts_of(before).len() == before.len());
                    assert forall|i: int| 0 <= i < want.len() implies texts_of(parts@)[i]
                        == want[i] by {
                        if i < before.len() {
                            assert(texts_of(parts@)[i] == texts_of(before)[i]);
                        }
                    }
                    assert(texts_of(parts@) =~= want);
                }
            },
        }
    }
    Ok(parts)
}

fn encode_internal(payload: &[u8]) -> (r: Result<Vec<String>, QuantusUrError>)
    ensures
        parts_outcome(r) == encode_outcome(payload@),
{
    let blob = match wrap_cbor(payload) {
        Ok(blob) => blob,
        Err(e) => {
            return Err(e);
        },
    };
    proof {
        lemma_wrap_len(payload@);
        lemma_split_count(blob@.len(), MAX_FRAGMENT_LENGTH as nat);
    }
    match probe(blob.as_slice(), MAX_FRAGMENT_LENGTH, UR_TYPE) {
        Err(detail) => Err(QuantusUrError::UrEncode(detail)),
        Ok(probe) => emit_fragments(probe),
    }
}

/// Encodes a payload as its fragment set of upper-case UR strings.
///
/// Every payload is encoded. The set has one member, without multi-part
/// framing, exactly if the envelope of the payload has at most
/// `MAX_FRAGMENT_LENGTH` bytes; otherwise it has one member for each fragment
/// of the envelope and no redundant one.
pub fn encode_bytes(payload: &[u8]) -> (r: Result<Vec<String>, QuantusUrError>)
    ensures
        parts_outcome(r) == encode_outcome(payload@),
        r is Ok,
        r matches Ok(parts) ==> parts@.len() == div_ceil(
            cbor_wrap(payload@).len(),
            MAX_FRAGMENT_LENGTH as nat,
        ),
        r matches Ok(parts) ==> (parts@.len() == 1 <==> cbor_wrap(payload@).len()
            <= MAX_FRAGMENT_LENGTH),
        r matches Ok(parts) ==> (parts@.len() > 1 <==> cbor_wrap(payload@).len()
            > MAX_FRAGMENT_LENGTH),
{
    proof {
        lemma_fragment_set_size(payload@);
    }
    encode_internal(payload)
}

/// Encodes a payload given as hex text as its fragment set.
///
/// Malformed hex text is refused before anything is encoded; well-formed text
/// is always encoded.
pub fn encode_hex(hex_payload: &str) -> (r: Result<Vec<String>, QuantusUrError>)
    ensures
        parts_outcome(r) == encode_hex_outcome(hex_payload.spec_bytes()),
        r is Ok <==> crate::hex_text::is_hex(hex_payload.spec_bytes()),
{
    match hex_to_bytes(hex_payload) {
        Err(e) => Err(e),
        Ok(payload) => encode_internal(payload.as_slice()),
    }
}

} // verus!
