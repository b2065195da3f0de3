//! The verifier's error taxonomy: every failure is a typed outcome, and
//! callers can tell malformed input apart from a well-formed but invalid
//! proof.

use vstd::prelude::*;

verus! {

#[derive(Clone, Copy, Debug, PartialEq, Eq, Structural)]
pub enum VerifierError {
    /// The buffer is shorter than the minimum instruction length, or the
    /// public-input region is not a whole number of scalar encodings.
    InvalidInstruction,
    /// The verifying key or a public input fails canonical decoding, or
    /// the number of public inputs does not match the verifying key.
    DeserializationFailed,
    /// The pairing equation does not hold, or its final exponentiation is
    /// undefined.
    VerificationFailed,
    /// The proof bytes do not decode to well-formed curve points.
    InvalidProofFormat,
}

} // verus!
