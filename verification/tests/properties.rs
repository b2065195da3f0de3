use ark_bn254::{Bn254, Fr};
use ark_groth16::{create_random_proof, generate_random_parameters};
use ark_r1cs_std::alloc::AllocVar;
use ark_r1cs_std::eq::EqGadget;
use ark_r1cs_std::fields::fp::FpVar;
use ark_relations::r1cs::ConstraintSynthesizer;
use ark_relations::r1cs::ConstraintSystemRef;
use ark_relations::r1cs::SynthesisError;
use ark_serialize::CanonicalSerialize;
use groth16_verifier::process_instruction;
use groth16_verifier::scalar::FieldElement;
use groth16_verifier::VerifierError;

#[derive(Clone)]
struct SimpleCircuit {
    pub a: u64,
    pub b: u64,
}

impl ConstraintSynthesizer<Fr> for SimpleCircuit {
    fn generate_constraints(self, cs: ConstraintSystemRef<Fr>) -> Result<(), SynthesisError> {
        let a_var = FpVar::new_input(cs.clone(), || Ok(Fr::from(self.a))).unwrap();
        let b_var = FpVar::new_witness(cs.clone(), || Ok(Fr::from(self.b))).unwrap();
        let prod = &a_var * &b_var;
        let expected = FpVar::new_input(cs, || Ok(Fr::from(self.a * self.b))).unwrap();
        prod.enforce_equal(&expected)?;
        Ok(())
    }
}

/// The little-endian bytes of the BN254 scalar-field modulus.
const MODULUS_LE: [u8; 32] = [
    1, 0, 0, 240, 147, 245, 225, 67, 145, 112, 185, 121, 72, 232, 51, 40, 93, 88, 129, 129, 182,
    69, 80, 184, 41, 160, 49, 225, 114, 78, 100, 48,
];

/// Builds a full instruction buffer for the product circuit with witness
/// `(a, b)` and the given public inputs.
fn build_instruction(a: u64, b: u64, public_inputs: &[u64]) -> Vec<u8> {
    let rng = &mut rand::thread_rng();
    let circuit = SimpleCircuit { a, b };
    let params = generate_random_parameters::<Bn254, _, _>(circuit.clone(), rng).unwrap();
    let proof = create_random_proof(circuit, &params, rng).unwrap();

    let mut data = vec![];
    params.vk.serialize_uncompressed(&mut data).unwrap();
    proof.serialize_uncompressed(&mut data).unwrap();
    for x in public_inputs {
        Fr::from(*x).serialize_uncompressed(&mut data).unwrap();
    }
    data
}

#[test]
fn test_scenario_accept_reject_truncate() {
    let good = build_instruction(7, 13, &[7, 91]);
    assert!(process_instruction(&good).is_ok());

    // The same proof with the product input changed from 91 to 90.
    let mut wrong = build_instruction(7, 13, &[7, 91]);
    let len = wrong.len();
    let mut bad_input = vec![];
    Fr::from(90u64).serialize_uncompressed(&mut bad_input).unwrap();
    wrong[len - 32..].copy_from_slice(&bad_input);
    assert_eq!(
        process_instruction(&wrong),
        Err(VerifierError::VerificationFailed)
    );

    // The same buffer truncated to 100 bytes.
    let truncated = &good[..100];
    assert_eq!(
        process_instruction(truncated),
        Err(VerifierError::InvalidInstruction)
    );
}

#[test]
fn test_short_buffer_rejected() {
    assert_eq!(
        process_instruction(&[]),
        Err(VerifierError::InvalidInstruction)
    );
    assert_eq!(
        process_instruction(&[0u8; 100]),
        Err(VerifierError::InvalidInstruction)
    );
    assert_eq!(
        process_instruction(&[0u8; 807]),
        Err(VerifierError::InvalidInstruction)
    );
}

#[test]
fn test_input_count_mismatch_rejected() {
    // The key expects exactly two public inputs; one and three must both
    // be rejected before any pairing work.
    let short = build_instruction(7, 13, &[7]);
    assert_eq!(
        process_instruction(&short),
        Err(VerifierError::DeserializationFailed)
    );

    let long = build_instruction(7, 13, &[7, 91, 3]);
    assert_eq!(
        process_instruction(&long),
        Err(VerifierError::DeserializationFailed)
    );
}

#[test]
fn test_ragged_remainder_rejected() {
    let mut data = build_instruction(7, 13, &[7, 91]);
    data.extend_from_slice(&[0u8; 5]);
    assert_eq!(
        process_instruction(&data),
        Err(VerifierError::InvalidInstruction)
    );
}

#[test]
fn test_out_of_range_input_rejected() {
    let mut data = build_instruction(7, 13, &[7, 91]);
    let len = data.len();
    data[len - 32..].copy_from_slice(&MODULUS_LE);
    assert_eq!(
        process_instruction(&data),
        Err(VerifierError::DeserializationFailed)
    );
}

#[test]
fn test_malformed_proof_rejected() {
    let mut data = build_instruction(7, 13, &[7, 91]);
    // The verifying key holds three trailing points here, so the proof's
    // first point occupies the 64 bytes after it; setting both flag bits
    // in its y-coordinate makes the encoding non-canonical.
    let vk_len = 456 + 3 * 64;
    data[vk_len + 63] |= 0xC0;
    assert_eq!(
        process_instruction(&data),
        Err(VerifierError::InvalidProofFormat)
    );
}

#[test]
fn test_malformed_key_rejected() {
    let mut data = build_instruction(7, 13, &[7, 91]);
    // The same non-canonical flag pattern inside the verifying key's
    // first point.
    data[63] |= 0xC0;
    assert_eq!(
        process_instruction(&data),
        Err(VerifierError::DeserializationFailed)
    );
}

#[test]
fn test_idempotent_verification() {
    let good = build_instruction(3, 11, &[3, 33]);
    let first = process_instruction(&good);
    let second = process_instruction(&good);
    assert!(first.is_ok());
    assert_eq!(first, second);

    let bad = vec![0u8; 900];
    assert_eq!(process_instruction(&bad), process_instruction(&bad));
}

#[test]
fn test_single_byte_mutations_never_accept() {
    let good = build_instruction(7, 13, &[7, 91]);
    let vk_len = 456 + 3 * 64;
    // Flip one byte at a time across the proof and public-input regions.
    let mut pos = vk_len;
    while pos < good.len() {
        let mut mutated = good.clone();
        mutated[pos] ^= 0x01;
        assert!(process_instruction(&mutated).is_err());
        pos += 17;
    }
}

#[test]
fn test_field_element_codec_roundtrip() {
    let fe = FieldElement::from_u64(91);
    let bytes = fe.to_le_bytes();
    let mut expected = vec![91u8];
    expected.extend_from_slice(&[0u8; 31]);
    assert_eq!(bytes, expected);

    let back = FieldElement::from_le_bytes(&bytes).unwrap();
    assert_eq!(back.to_le_bytes(), bytes);

    // The largest representable element decodes and re-encodes exactly.
    let mut max_le = MODULUS_LE;
    max_le[0] -= 1;
    let top = FieldElement::from_le_bytes(&max_le).unwrap();
    assert_eq!(top.to_le_bytes(), max_le.to_vec());
}

#[test]
fn test_field_element_rejects_out_of_range() {
    assert!(FieldElement::from_le_bytes(&MODULUS_LE).is_none());

    let mut above = MODULUS_LE;
    above[0] += 1;
    assert!(FieldElement::from_le_bytes(&above).is_none());

    assert!(FieldElement::from_le_bytes(&[0xFFu8; 32]).is_none());

    // Wrong lengths are rejected outright.
    assert!(FieldElement::from_le_bytes(&[0u8; 31]).is_none());
    assert!(FieldElement::from_le_bytes(&[0u8; 33]).is_none());
}
