use ark_bn254::Bn254;
use ark_groth16::{create_random_proof, generate_random_parameters};
use ark_r1cs_std::alloc::AllocVar;
use ark_r1cs_std::eq::EqGadget;
use ark_serialize::CanonicalSerialize;
use groth16_verifier::verify_groth16_native;
use groth16_verifier::VerifierError;

#[derive(Clone)]
struct SimpleCircuit {
    pub a: u64,
    pub b: u64,
}

impl ark_relations::r1cs::ConstraintSynthesizer<ark_bn254::Fr> for SimpleCircuit {
    fn generate_constraints(
        self,
        cs: ark_relations::r1cs::ConstraintSystemRef<ark_bn254::Fr>,
    ) -> Result<(), ark_relations::r1cs::SynthesisError> {
        let a_var = ark_r1cs_std::fields::fp::FpVar::new_input(cs.clone(), || {
            Ok(ark_bn254::Fr::from(self.a))
        })
        .unwrap();
        let b_var = ark_r1cs_std::fields::fp::FpVar::new_witness(cs.clone(), || {
            Ok(ark_bn254::Fr::from(self.b))
        })
        .unwrap();
        let prod = &a_var * &b_var;
        let expected = ark_r1cs_std::fields::fp::FpVar::new_input(cs, || {
            Ok(ark_bn254::Fr::from(self.a * self.b))
        })
        .unwrap();
        prod.enforce_equal(&expected)?;
        Ok(())
    }
}

#[test]
fn test_native_verify() {
    let rng = &mut rand::thread_rng();
    let circuit = SimpleCircuit { a: 4, b: 9 };
    let params = generate_random_parameters::<Bn254, _, _>(circuit.clone(), rng).unwrap();
    let proof = create_random_proof(circuit, &params, rng).unwrap();

    let mut vk_bytes = vec![];
    params.vk.serialize_uncompressed(&mut vk_bytes).unwrap();
    let mut proof_bytes = vec![];
    proof.serialize_uncompressed(&mut proof_bytes).unwrap();

    let mut pub_bytes = vec![];
    ark_bn254::Fr::from(4u64).serialize_uncompressed(&mut pub_bytes).unwrap();
    ark_bn254::Fr::from(36u64).serialize_uncompressed(&mut pub_bytes).unwrap();

    let ok = verify_groth16_native(&vk_bytes, &proof_bytes, &pub_bytes).unwrap();
    assert!(ok);
}

#[test]
fn test_native_verify_wrong_input_count() {
    let rng = &mut rand::thread_rng();
    let circuit = SimpleCircuit { a: 4, b: 9 };
    let params = generate_random_parameters::<Bn254, _, _>(circuit.clone(), rng).unwrap();
    let proof = create_random_proof(circuit, &params, rng).unwrap();

    let mut vk_bytes = vec![];
    params.vk.serialize_uncompressed(&mut vk_bytes).unwrap();
    let mut proof_bytes = vec![];
    proof.serialize_uncompressed(&mut proof_bytes).unwrap();

    // The key expects two public inputs; supplying none makes the pairing
    // backend report an error rather than a verdict.
    let res = verify_groth16_native(&vk_bytes, &proof_bytes, &[]);
    assert_eq!(res, Err(VerifierError::VerificationFailed));
}

#[test]
fn test_native_verify_validates_before_decoding() {
    // A ragged public-input region fails the shape check first.
    assert_eq!(
        verify_groth16_native(&[], &[], &[0u8; 3]),
        Err(VerifierError::InvalidInstruction)
    );

    // An in-range input region with an unparseable key fails on the key.
    assert_eq!(
        verify_groth16_native(&[], &[], &[0u8; 32]),
        Err(VerifierError::DeserializationFailed)
    );
}
