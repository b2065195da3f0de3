//! The pairing backend: the Groth16 verification equation over BN254 is
//! computed by the arkworks crates behind the trusted wrappers collected
//! here.  Each wrapper's contract states only what the backend's source
//! shows; the verdict on well-formed bytes is an uninterpreted function of
//! the bytes alone, since the backend is deterministic.

use vstd::prelude::*;

use ark_serialize::CanonicalDeserialize;

use crate::errors::VerifierError;

verus! {

/// Whether the canonical decoder accepts these bytes as a verifying key.
pub uninterp spec fn vk_wf(s: Seq<u8>) -> bool;

/// Whether the canonical decoder accepts these bytes as a proof.
pub uninterp spec fn proof_wf(s: Seq<u8>) -> bool;

/// The backend's verdict on a well-formed verifying key, proof and
/// count-prefixed public-input encoding: `Some(b)` when the pairing
/// equation evaluates to `b`, `None` when the computation signals an
/// error, such as an undefined final exponentiation.
pub uninterp spec fn pairing_outcome(vk: Seq<u8>, pf: Seq<u8>, inputs: Seq<u8>) -> Option<bool>;

/// The shape the backend's public-input decoder accepts in full: an
/// 8-byte little-endian element count followed by exactly that many
/// canonical scalar encodings.
pub open spec fn fr_vec_bytes_ok(s: Seq<u8>) -> bool {
    &&& s.len() >= 8
    &&& s.len() == 8 + 32 * crate::codec::le_value(s.subrange(0, 8))
    &&& crate::inputs::inputs_canonical(s.subrange(8, s.len() as int))
}

/// Relies on `ark_serialize`'s canonical uncompressed decoder for
/// `ark_groth16::VerifyingKey<Bn254>`: deterministic in the bytes, so its
/// success is a function of them.
#[verifier::external_body]
pub(crate) fn vk_bytes_well_formed(bytes: &[u8]) -> (r: bool)
    ensures
        r == vk_wf(bytes@),
{
    <ark_groth16::VerifyingKey<ark_bn254::Bn254> as CanonicalDeserialize>::deserialize_uncompressed(
        bytes,
    ).is_ok()
}

/// Relies on `ark_serialize`'s canonical uncompressed decoder for
/// `ark_groth16::Proof<Bn254>`: deterministic in the bytes, so its
/// success is a function of them.
#[verifier::external_body]
pub(crate) fn proof_bytes_well_formed(bytes: &[u8]) -> (r: bool)
    ensures
        r == proof_wf(bytes@),
{
    <ark_groth16::Proof<ark_bn254::Bn254> as CanonicalDeserialize>::deserialize_uncompressed(
        bytes,
    ).is_ok()
}

/// Relies on `ark_serialize`'s canonical decoders and on
/// `ark_groth16::prepare_verifying_key` and `ark_groth16::verify_proof`:
/// all are deterministic in their inputs, so on bytes the decoders accept
/// the verdict is a function of the bytes alone.
#[verifier::external_body]
pub(crate) fn groth16_decide(vk_bytes: &[u8], proof_bytes: &[u8], input_bytes: &[u8]) -> (r: Option<
    bool,
>)
    ensures
        vk_wf(vk_bytes@) && proof_wf(proof_bytes@) && fr_vec_bytes_ok(input_bytes@) ==> r
            == pairing_outcome(vk_bytes@, proof_bytes@, input_bytes@),
{
    let vk = <ark_groth16::VerifyingKey<ark_bn254::Bn254> as CanonicalDeserialize>::deserialize_uncompressed(
        vk_bytes,
    ).ok()?;
    let proof = <ark_groth16::Proof<ark_bn254::Bn254> as CanonicalDeserialize>::deserialize_uncompressed(
        proof_bytes,
    ).ok()?;
    let inputs = <Vec<ark_bn254::Fr> as CanonicalDeserialize>::deserialize_uncompressed(
        input_bytes,
    ).ok()?;
    let pvk = ark_groth16::prepare_verifying_key(&vk);
    ark_groth16::verify_proof(&pvk, &proof, &inputs).ok()
}

/// What verifying serialized values directly returns: each region is
/// checked in constant steps before any pairing work, and the verdict on
/// well-formed regions is the backend's.
pub open spec fn native_verification_result(vkb: Seq<u8>, pb: Seq<u8>, ib: Seq<u8>) -> Result<
    bool,
    VerifierError,
> {
    if ib.len() % 32 != 0 {
        Err(VerifierError::InvalidInstruction)
    } else if !crate::inputs::inputs_canonical(ib) {
        Err(VerifierError::DeserializationFailed)
    } else if !vk_wf(vkb) {
        Err(VerifierError::DeserializationFailed)
    } else if !proof_wf(pb) {
        Err(VerifierError::InvalidProofFormat)
    } else {
        match pairing_outcome(vkb, pb, crate::codec::le_bytes_of(ib.len() / 32, 8) + ib) {
            Some(b) => Ok(b),
            None => Err(VerifierError::VerificationFailed),
        }
    }
}

/// Verifies a serialized verifying key, proof and public-input region
/// directly, without the single-buffer instruction layout.  The inputs
/// are validated before the backend runs; `Ok` carries the pairing
/// equation's verdict.
pub fn verify_groth16_native(vk_bytes: &[u8], proof_bytes: &[u8], public_input_bytes: &[u8]) -> (r:
    Result<bool, VerifierError>)
    ensures
        r == native_verification_result(vk_bytes@, proof_bytes@, public_input_bytes@),
{
    if public_input_bytes.len() % 32 != 0 {
        return Err(VerifierError::InvalidInstruction);
    }
    let inputs = match crate::inputs::decode_public_inputs(public_input_bytes) {
        Ok(v) => v,
        Err(e) => {
            return Err(e);
        },
    };
    if !vk_bytes_well_formed(vk_bytes) {
        return Err(VerifierError::DeserializationFailed);
    }
    if !proof_bytes_well_formed(proof_bytes) {
        return Err(VerifierError::InvalidProofFormat);
    }
    let prefixed = crate::inputs::encode_prefixed_inputs(&inputs);
    proof {
        let ib = public_input_bytes@;
        let m = inputs@.len();
        crate::inputs::lemma_concat_of_chunks(inputs@, ib);
        assert(ib.len() == 32 * m) by {
            vstd::arithmetic::div_mod::lemma_fundamental_div_mod(ib.len() as int, 32);
        }
        assert(prefixed@ == crate::codec::le_bytes_of(m, 8) + ib);
        crate::codec::lemma_le_bytes_of_value(m, 8);
        crate::codec::lemma_pow256_values();
        assert(m % crate::codec::pow256(8) == m) by {
            assert(m <= usize::MAX);
        }
        assert(prefixed@.subrange(0, 8) =~= crate::codec::le_bytes_of(m, 8));
        assert(prefixed@.subrange(8, prefixed@.len() as int) =~= ib);
        assert(crate::codec::le_value(prefixed@.subrange(0, 8)) == m);
        assert(fr_vec_bytes_ok(prefixed@));
        assert(ib.len() / 32 == m);
    }
    match groth16_decide(vk_bytes, proof_bytes, prefixed.as_slice()) {
        Some(b) => Ok(b),
        None => Err(VerifierError::VerificationFailed),
    }
}

} // verus!
