//! Transport of binary payloads as Uniform Resource (UR) strings.
//!
//! A payload is wrapped as a single CBOR byte string, handed to a UR encoder
//! under a fixed type tag and fragment length, and comes back as one or more
//! upper-case UR strings. The reverse direction feeds received strings to a
//! fresh fountain decoding session and unwraps the recovered byte string.
//!
//! The UR grammar, the fountain code, the CBOR codec and the hex codec are
//! collaborators: they are called, never re-implemented. What they return is
//! either stated exactly (CBOR byte strings, hex text) or given a name that
//! the contracts of this crate speak of.

pub mod cbor;
pub mod emit;
pub mod error;
pub mod hex_text;
pub mod reassemble;
pub mod round_trip;
pub mod text;

pub use crate::emit::{encode_bytes, encode_hex};
pub use crate::error::QuantusUrError;
pub use crate::reassemble::{decode_bytes, decode_hex, is_complete};
