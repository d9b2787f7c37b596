//! The closed set of failures shared by encoding, decoding and probing.

use vstd::prelude::*;
use vstd::string::StringExecFns;

verus! {

/// Why an operation of this crate failed.
///
/// Variants that carry a `String` hold the detail text that the collaborator
/// supplied, or a fixed text where the failure was detected here.
#[derive(Debug, PartialEq, Eq)]
pub enum QuantusUrError {
    /// The hex text has an odd number of digits or holds a non-hex character.
    HexDecode(String),
    /// The UR encoder could not produce a fragment.
    UrEncode(String),
    /// A UR string is malformed, does not fit the session, or the session
    /// could not hand out its message.
    UrDecode(String),
    /// The payload could not be wrapped as a CBOR byte string.
    CborEncode(String),
    /// The recovered frame is not a CBOR byte string.
    CborDecode(String),
    /// A multi-part message lacks fragments; collect more and decode again.
    Incomplete,
    /// No UR string was supplied.
    EmptyInput,
}

/// Mathematical model of a [`QuantusUrError`]: the same variants over
/// sequences of characters.
pub enum Fault {
    HexDecode(Seq<char>),
    UrEncode(Seq<char>),
    UrDecode(Seq<char>),
    CborEncode(Seq<char>),
    CborDecode(Seq<char>),
    Incomplete,
    EmptyInput,
}

impl Fault {
    /// The text a fault is reported with: a prefix naming the failing layer,
    /// followed by the detail.
    pub open spec fn describe(self) -> Seq<char> {
        match self {
            Fault::HexDecode(detail) => "Hex decoding error: "@ + detail,
            Fault::UrEncode(detail) => "UR error: "@ + detail,
            Fault::UrDecode(detail) => "UR error: "@ + detail,
            Fault::CborEncode(detail) => "CBOR error: "@ + detail,
            Fault::CborDecode(detail) => "CBOR error: "@ + detail,
            Fault::Incomplete => "Decoding incomplete"@,
            Fault::EmptyInput => "UR error: No UR parts provided"@,
        }
    }
}

impl View for QuantusUrError {
    type V = Fault;

    open spec fn view(&self) -> Fault {
        match self {
            QuantusUrError::HexDecode(detail) => Fault::HexDecode(detail@),
            QuantusUrError::UrEncode(detail) => Fault::UrEncode(detail@),
            QuantusUrError::UrDecode(detail) => Fault::UrDecode(detail@),
            QuantusUrError::CborEncode(detail) => Fault::CborEncode(detail@),
            QuantusUrError::CborDecode(detail) => Fault::CborDecode(detail@),
            QuantusUrError::Incomplete => Fault::Incomplete,
            QuantusUrError::EmptyInput => Fault::EmptyInput,
        }
    }
}

impl QuantusUrError {
    /// Whether the failure only means that fragments are still missing.
    pub fn is_incomplete(&self) -> (b: bool)
        ensures
            b == (self@ == Fault::Incomplete),
    {
        match self {
            QuantusUrError::Incomplete => true,
            _ => false,
        }
    }

    /// Human-readable report of the failure.
    pub fn describe(&self) -> (report: String)
        ensures
            report@ == self@.describe(),
    {
        match self {
            QuantusUrError::HexDecode(detail) => String::from_str("Hex decoding error: ").concat(
                detail.as_str(),
            ),
            QuantusUrError::UrEncode(detail) => String::from_str("UR error: ").concat(
                detail.as_str(),
            ),
            QuantusUrError::UrDecode(detail) => String::from_str("UR error: ").concat(
                detail.as_str(),
            ),
            QuantusUrError::CborEncode(detail) => String::from_str("CBOR error: ").concat(
                detail.as_str(),
            ),
            QuantusUrError::CborDecode(detail) => String::from_str("CBOR error: ").concat(
                detail.as_str(),
            ),
            QuantusUrError::Incomplete => String::from_str("Decoding incomplete"),
            QuantusUrError::EmptyInput => String::from_str("UR error: No UR parts provided"),
        }
    }
}

} // verus!
