//! The ways in which turning a proof into field elements and points can fail.

use vstd::prelude::*;

verus! {

/// Why a proof could not be parsed.
#[derive(Debug, Clone, PartialEq, Eq)]
pub enum ProofParseError {
    /// `pi_a` does not hold exactly `expected` coordinates.
    InvalidPiALength { expected: usize, got: usize },
    /// `pi_b` does not hold exactly `expected` rows.
    InvalidPiBLength { expected: usize, got: usize },
    /// `pi_c` does not hold exactly `expected` coordinates.
    InvalidPiCLength { expected: usize, got: usize },
    /// The string (with one pair of surrounding quotes removed) is neither a
    /// decimal nor a `0x`-prefixed hexadecimal unsigned integer.
    InvalidFieldElement(String),
    /// A row of `pi_b` does not hold the two components of a coordinate.
    InvalidG2Format(String),
    /// The JSON document could not be read as a proof.
    JsonParseError(String),
    /// A point failed a validity check.
    InvalidPoint(String),
}

} // verus!
