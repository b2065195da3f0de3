//! Verified decoding and validation front end for a Groth16 proof verifier
//! over the BN254 curve.
//!
//! An instruction buffer carries a verifying key, a proof and a vector of
//! public inputs in a canonical little-endian byte layout.  This crate
//! decodes and validates that layout with machine-checked contracts and
//! delegates the pairing computation itself to the arkworks backend behind
//! a small set of trusted wrappers.
//!
//! The instruction layout, with every multi-byte number little-endian:
//! first the verifying key (a 64-byte G1 point, three 128-byte G2 points,
//! an 8-byte count `k` and then `k` further 64-byte G1 points), then the
//! 256-byte proof, then the public inputs as 32-byte scalar encodings
//! filling the remainder exactly.  A buffer is accepted only when the
//! remainder holds exactly `k - 1` canonical scalars, every cheap length
//! and range check passing before any curve arithmetic is attempted.

use vstd::prelude::*;

pub mod codec;
pub mod engine;
pub mod errors;
pub mod inputs;
pub mod scalar;

pub use engine::verify_groth16_native;
pub use errors::VerifierError;

use crate::codec::{le_value, lemma_le_value_bound, lemma_pow256_values};
use crate::engine::native_verification_result;

verus! {

/// Bytes in an uncompressed G1 point.
pub const G1_POINT_LEN: usize = 64;

/// Bytes in an uncompressed G2 point.
pub const G2_POINT_LEN: usize = 128;

/// Bytes of the verifying key before its trailing point vector: one G1
/// point, three G2 points and the vector's 8-byte length.
pub const VK_HEADER_LEN: usize = G1_POINT_LEN + 3 * G2_POINT_LEN + 8;

/// Bytes in a serialized proof: two G1 points and one G2 point.
pub const PROOF_LEN: usize = 2 * G1_POINT_LEN + G2_POINT_LEN;

/// The shortest well-formed instruction: a verifying key with a single
/// trailing point, the proof, and one public input.
pub const MIN_INSTRUCTION_LEN: usize = VK_HEADER_LEN + G1_POINT_LEN + PROOF_LEN + 32;

/// The number of points in the verifying key's trailing vector, read from
/// its 8-byte little-endian length; the key expects one public input per
/// point after the first.
pub open spec fn gamma_abc_count(s: Seq<u8>) -> nat {
    le_value(s.subrange(VK_HEADER_LEN - 8, VK_HEADER_LEN as int))
}

/// Total length of the verifying key's encoding when its trailing vector
/// holds `k` points.
pub open spec fn vk_total_len(k: nat) -> nat {
    (VK_HEADER_LEN + 64 * k) as nat
}

/// What verifying an instruction buffer returns, for every buffer: the
/// exact error for every malformed shape, and for well-formed buffers
/// acceptance exactly when the backend's pairing verdict is positive.
pub open spec fn verification_result(s: Seq<u8>) -> Result<(), VerifierError> {
    if s.len() < MIN_INSTRUCTION_LEN {
        Err(VerifierError::InvalidInstruction)
    } else {
        let k = gamma_abc_count(s);
        if k == 0 {
            Err(VerifierError::DeserializationFailed)
        } else if s.len() < vk_total_len(k) {
            Err(VerifierError::DeserializationFailed)
        } else if s.len() < vk_total_len(k) + PROOF_LEN {
            Err(VerifierError::InvalidProofFormat)
        } else {
            let vk_end = vk_total_len(k) as int;
            let proof_end = vk_end + PROOF_LEN;
            let rem = s.len() - proof_end;
            if rem % 32 != 0 {
                Err(VerifierError::InvalidInstruction)
            } else if rem / 32 != k - 1 {
                Err(VerifierError::DeserializationFailed)
            } else {
                match native_verification_result(
                    s.subrange(0, vk_end),
                    s.subrange(vk_end, proof_end),
                    s.subrange(proof_end, s.len() as int),
                ) {
                    Ok(true) => Ok(()),
                    Ok(false) => Err(VerifierError::VerificationFailed),
                    Err(e) => Err(e),
                }
            }
        }
    }
}

/// For a positive divisor, exceeding a quotient is the same as the
/// divisor-multiple exceeding the dividend.
proof fn lemma_div_threshold(k: nat, x: nat, d: nat)
    requires
        d > 0,
    ensures
        (k > x / d) <==> (d * k > x),
{
    vstd::arithmetic::div_mod::lemma_fundamental_div_mod(x as int, d as int);
    let q = x / d;
    let r = x % d;
    assert((k > q) <==> (d * k > x)) by (nonlinear_arith)
        requires
            d > 0,
            x == d * q + r,
            0 <= r < d,
            q >= 0,
    ;
}

/// Verifies one instruction buffer: decodes the verifying key, proof and
/// public inputs from the canonical layout, validates all lengths, counts
/// and scalar ranges before any pairing work, and accepts exactly when
/// the pairing equation holds.
pub fn process_instruction(instruction_data: &[u8]) -> (result: Result<(), VerifierError>)
    ensures
        result == verification_result(instruction_data@),
{
    let n = instruction_data.len();
    if n < MIN_INSTRUCTION_LEN {
        return Err(VerifierError::InvalidInstruction);
    }
    let k = crate::codec::read_u64_le(instruction_data, VK_HEADER_LEN - 8);
    if k == 0 {
        return Err(VerifierError::DeserializationFailed);
    }
    proof {
        lemma_le_value_bound(instruction_data@.subrange(VK_HEADER_LEN - 8, VK_HEADER_LEN as int));
        lemma_pow256_values();
    }
    let n64 = n as u64;
    proof {
        lemma_div_threshold(k as nat, (n64 - VK_HEADER_LEN as u64) as nat, 64);
    }
    if k > (n64 - VK_HEADER_LEN as u64) / 64 {
        return Err(VerifierError::DeserializationFailed);
    }
    let vk_end64 = VK_HEADER_LEN as u64 + 64 * k;
    if vk_end64 > n64 - PROOF_LEN as u64 {
        return Err(VerifierError::InvalidProofFormat);
    }
    let vk_end = vk_end64 as usize;
    let proof_end = vk_end + PROOF_LEN;
    let rem = n - proof_end;
    if rem % 32 != 0 {
        return Err(VerifierError::InvalidInstruction);
    }
    let m = rem / 32;
    if m as u64 != k - 1 {
        return Err(VerifierError::DeserializationFailed);
    }
    let vk_bytes = vstd::slice::slice_subrange(instruction_data, 0, vk_end);
    let proof_bytes = vstd::slice::slice_subrange(instruction_data, vk_end, proof_end);
    let region = vstd::slice::slice_subrange(instruction_data, proof_end, n);
    match verify_groth16_native(vk_bytes, proof_bytes, region) {
        Ok(true) => Ok(()),
        Ok(false) => Err(VerifierError::VerificationFailed),
        Err(e) => Err(e),
    }
}

/// Verification is a pure function of the byte buffer: identical buffers
/// always yield the identical result.
pub proof fn lemma_verification_deterministic(a: Seq<u8>, b: Seq<u8>)
    requires
        a == b,
    ensures
        verification_result(a) == verification_result(b),
{
}

/// A buffer shorter than the minimum instruction length is always
/// rejected with the length error, before anything else is examined.
pub proof fn lemma_short_buffer_rejected(s: Seq<u8>)
    requires
        s.len() < MIN_INSTRUCTION_LEN,
    ensures
        verification_result(s) == Err::<(), VerifierError>(VerifierError::InvalidInstruction),
{
}

/// A public-input count that does not match the verifying key's expected
/// count is rejected as a decoding failure, before any pairing work.
pub proof fn lemma_input_count_mismatch_rejected(s: Seq<u8>)
    requires
        MIN_INSTRUCTION_LEN <= s.len(),
        1 <= gamma_abc_count(s),
        vk_total_len(gamma_abc_count(s)) + PROOF_LEN <= s.len(),
        (s.len() - (vk_total_len(gamma_abc_count(s)) + PROOF_LEN)) % 32 == 0,
        (s.len() - (vk_total_len(gamma_abc_count(s)) + PROOF_LEN)) / 32 != gamma_abc_count(s) - 1,
    ensures
        verification_result(s) == Err::<(), VerifierError>(VerifierError::DeserializationFailed),
{
}

} // verus!
