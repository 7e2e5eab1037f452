use ark_bls12_381::{Bls12_381, Fr as BlsFr};
use ark_ff::{BigInteger, PrimeField, UniformRand};
use ark_groth16::Groth16;
use ark_relations::r1cs::{
    ConstraintSynthesizer, ConstraintSystemRef, LinearCombination, SynthesisError,
};
use ark_serialize::CanonicalSerialize;
use ark_snark::SNARK;
use ark_std::rand::rngs::StdRng;
use ark_std::rand::SeedableRng;
use groth16::errors::Groth16Error;
use groth16::groth16::{Proof, VerifyingKey};
use groth16::Groth16Contract;
use soroban_sdk::testutils::EnvTestConfig;
use soroban_sdk::Env;

/// Proves knowledge of `a` and `b` with `a * b = c`, `c` public.
#[derive(Copy, Clone)]
struct MultiplyDemoCircuit<F: PrimeField> {
    a: Option<F>,
    b: Option<F>,
}

impl<F: PrimeField> ConstraintSynthesizer<F> for MultiplyDemoCircuit<F> {
    fn generate_constraints(self, cs: ConstraintSystemRef<F>) -> Result<(), SynthesisError> {
        let a = cs.new_witness_variable(|| self.a.ok_or(SynthesisError::AssignmentMissing))?;
        let b = cs.new_witness_variable(|| self.b.ok_or(SynthesisError::AssignmentMissing))?;
        let c = cs.new_input_variable(|| {
            let a = self.a.ok_or(SynthesisError::AssignmentMissing)?;
            let b = self.b.ok_or(SynthesisError::AssignmentMissing)?;
            Ok(a * b)
        })?;
        cs.enforce_constraint(
            LinearCombination::zero() + a,
            LinearCombination::zero() + b,
            LinearCombination::zero() + c,
        )?;
        Ok(())
    }
}

fn test_env() -> Env {
    Env::new_with_config(EnvTestConfig {
        capture_snapshot_at_drop: false,
    })
}

fn uncompressed<T: CanonicalSerialize>(t: &T) -> Vec<u8> {
    let mut out = vec![0; t.uncompressed_size()];
    t.serialize_uncompressed(&mut out[..]).unwrap();
    out
}

fn scalar_bytes(x: BlsFr) -> [u8; 32] {
    x.into_bigint().to_bytes_be().try_into().unwrap()
}

fn proof_bytes(proof: &ark_groth16::Proof<Bls12_381>) -> [u8; 384] {
    uncompressed(proof).try_into().unwrap()
}

/// The key's wire form: the four fixed points, then the input commitments.
fn key_bytes(vk: &ark_groth16::VerifyingKey<Bls12_381>) -> Vec<u8> {
    let mut out = Vec::new();
    out.extend(uncompressed(&vk.alpha_g1));
    out.extend(uncompressed(&vk.beta_g2));
    out.extend(uncompressed(&vk.gamma_g2));
    out.extend(uncompressed(&vk.delta_g2));
    for p in &vk.gamma_abc_g1 {
        out.extend(uncompressed(p));
    }
    out
}

fn verify(proof: [u8; 384], vk: &[u8], inputs: &[[u8; 32]]) -> Result<(), Groth16Error> {
    Groth16Contract::verify(test_env(), proof, vk.to_vec(), inputs.to_vec())
}

#[test]
fn test_groth16_circuit_multiply() {
    let rng = &mut StdRng::seed_from_u64(0u64);
    let (pk, vk) = Groth16::<Bls12_381>::circuit_specific_setup(
        MultiplyDemoCircuit::<BlsFr> { a: None, b: None },
        rng,
    )
    .unwrap();
    let vk_wire = key_bytes(&vk);
    for _ in 0..5 {
        let a = BlsFr::rand(rng);
        let b = BlsFr::rand(rng);
        let c = a * b;
        let proof = Groth16::<Bls12_381>::prove(
            &pk,
            MultiplyDemoCircuit::<BlsFr> {
                a: Some(a),
                b: Some(b),
            },
            rng,
        )
        .unwrap();
        let proof_wire = proof_bytes(&proof);
        assert!(verify(proof_wire, &vk_wire, &[scalar_bytes(c)]).is_ok());
        assert_eq!(
            verify(proof_wire, &vk_wire, &[scalar_bytes(a)]),
            Err(Groth16Error::ProofVerificationFailed)
        );
    }
}

#[test]
fn test_serde_groth16() {
    let rng = &mut StdRng::seed_from_u64(0u64);
    let (pk, vk) = Groth16::<Bls12_381>::circuit_specific_setup(
        MultiplyDemoCircuit::<BlsFr> { a: None, b: None },
        rng,
    )
    .unwrap();
    let a = BlsFr::rand(rng);
    let b = BlsFr::rand(rng);
    let c = a * b;
    let proof = Groth16::<Bls12_381>::prove(
        &pk,
        MultiplyDemoCircuit::<BlsFr> {
            a: Some(a),
            b: Some(b),
        },
        rng,
    )
    .unwrap();

    let proof_wire = proof_bytes(&proof);
    let parsed = Proof::try_from_bytes(proof_wire).unwrap();
    assert_eq!(parsed.a().to_vec(), uncompressed(&proof.a));
    assert_eq!(parsed.b().to_vec(), uncompressed(&proof.b));
    assert_eq!(parsed.c().to_vec(), uncompressed(&proof.c));

    let vk_wire = key_bytes(&vk);
    assert_eq!(vk_wire.len(), 672 + 96 * 2);
    let parsed = VerifyingKey::try_from_bytes(&vk_wire, 1).unwrap();
    assert_eq!(parsed.alpha_g1().to_vec(), uncompressed(&vk.alpha_g1));
    assert_eq!(parsed.beta_g2().to_vec(), uncompressed(&vk.beta_g2));
    assert_eq!(parsed.gamma_g2().to_vec(), uncompressed(&vk.gamma_g2));
    assert_eq!(parsed.delta_g2().to_vec(), uncompressed(&vk.delta_g2));
    assert_eq!(parsed.gamma_abc_g1().len(), vk.gamma_abc_g1.len());
    for (i, p) in vk.gamma_abc_g1.iter().enumerate() {
        assert_eq!(parsed.gamma_abc_g1()[i].to_vec(), uncompressed(p));
    }

    assert!(Groth16::<Bls12_381>::verify(&vk, &[c], &proof).unwrap());
    assert!(verify(proof_wire, &vk_wire, &[scalar_bytes(c)]).is_ok());
}

#[test]
fn test_self_implement_verifier() {
    let rng = &mut StdRng::seed_from_u64(0u64);
    let (pk, vk) = Groth16::<Bls12_381>::circuit_specific_setup(
        MultiplyDemoCircuit::<BlsFr> { a: None, b: None },
        rng,
    )
    .unwrap();
    let vk_wire = key_bytes(&vk);
    for _ in 0..5 {
        let a = BlsFr::rand(rng);
        let b = BlsFr::rand(rng);
        let c = a * b;
        let proof = Groth16::<Bls12_381>::prove(
            &pk,
            MultiplyDemoCircuit::<BlsFr> {
                a: Some(a),
                b: Some(b),
            },
            rng,
        )
        .unwrap();
        let ours = verify(proof_bytes(&proof), &vk_wire, &[scalar_bytes(c)]);
        let theirs = Groth16::<Bls12_381>::verify(&vk, &[c], &proof).unwrap();
        assert_eq!(ours.is_ok(), theirs);
        assert!(ours.is_ok());
    }
}

#[test]
fn mutating_a_proof_point_fails() {
    let rng = &mut StdRng::seed_from_u64(7u64);
    let (pk, vk) = Groth16::<Bls12_381>::circuit_specific_setup(
        MultiplyDemoCircuit::<BlsFr> { a: None, b: None },
        rng,
    )
    .unwrap();
    let a = BlsFr::rand(rng);
    let b = BlsFr::rand(rng);
    let c = a * b;
    let proof = Groth16::<Bls12_381>::prove(
        &pk,
        MultiplyDemoCircuit::<BlsFr> {
            a: Some(a),
            b: Some(b),
        },
        rng,
    )
    .unwrap();
    // B replaced by the key's beta: a well-formed second-group point.
    let mut wire = proof_bytes(&proof);
    wire[96..288].copy_from_slice(&uncompressed(&vk.beta_g2));
    assert_eq!(
        verify(wire, &key_bytes(&vk), &[scalar_bytes(c)]),
        Err(Groth16Error::ProofVerificationFailed)
    );
    // A proof for another statement does not verify this one.
    let other = Groth16::<Bls12_381>::prove(
        &pk,
        MultiplyDemoCircuit::<BlsFr> {
            a: Some(b),
            b: Some(b),
        },
        rng,
    )
    .unwrap();
    assert_eq!(
        verify(proof_bytes(&other), &key_bytes(&vk), &[scalar_bytes(c)]),
        Err(Groth16Error::ProofVerificationFailed)
    );
}
