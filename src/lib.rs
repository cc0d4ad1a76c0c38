//! Parsing of Groth16 proofs in the snarkjs JSON layout into BN254 field
//! elements and curve points.

pub mod decode;
pub mod error;
pub mod field;
pub mod groth16;
pub mod point;

pub use decode::{decode_integer, parse_fq_element, parse_fr_element};
pub use error::ProofParseError;
pub use field::{Fq, Fr};
pub use groth16::{create_dummy_proof, ParsedProof, SnarkJSProof};
pub use point::{Fq2, G1Point, G2Point};
