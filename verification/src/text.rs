//! Case conversion of UR strings.
//!
//! UR strings are emitted in upper case and accepted in any case. The
//! conversions are the standard library's; their results are named here so
//! that contracts can speak of them.

use vstd::prelude::*;

verus! {

/// The lower-case form of a text, as `str::to_lowercase` computes it.
pub uninterp spec fn lowercased(text: Seq<char>) -> Seq<char>;

/// The upper-case form of a text, as `str::to_uppercase` computes it.
pub uninterp spec fn uppercased(text: Seq<char>) -> Seq<char>;

/// `str::to_lowercase` maps a string slice to its lower-case equivalent under
/// the Unicode rules, which depend on the characters alone. The contract
/// claims only that: the result is the named lower-case form of the input.
pub assume_specification[ str::to_lowercase ](s: &str) -> (res: String)
    ensures
        res@ == lowercased(s@),
;

/// `str::to_uppercase` maps a string slice to its upper-case equivalent under
/// the Unicode rules, which depend on the characters alone. The contract
/// claims only that: the result is the named upper-case form of the input.
pub assume_specification[ str::to_uppercase ](s: &str) -> (res: String)
    ensures
        res@ == uppercased(s@),
;

/// Two texts that differ at most in the case of their letters.
pub open spec fn same_modulo_case(a: Seq<char>, b: Seq<char>) -> bool {
    lowercased(a) == lowercased(b)
}

/// The lower-case forms of a list of texts, in order.
pub open spec fn lowered(parts: Seq<Seq<char>>) -> Seq<Seq<char>> {
    Seq::new(parts.len(), |i: int| lowercased(parts[i]))
}

/// The views of a list of strings, in order.
pub open spec fn texts_of(parts: Seq<String>) -> Seq<Seq<char>> {
    Seq::new(parts.len(), |i: int| parts[i]@)
}

} // verus!
