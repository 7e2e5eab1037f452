use vstd::prelude::*;

pub mod codec;
pub mod curve;
pub mod errors;
pub mod groth16;

use crate::codec::{be_value, scalar_field_modulus, SCALAR_SIZE};
use crate::curve::bls12_381_of;
use crate::errors::Groth16Error;
use crate::groth16::{
    inputs_view, key_from_bytes, proof_from_bytes, proof_outcome, verify_proof, Fr, Proof,
    VerifyingKey, PROOF_SIZE,
};
use soroban_sdk::Env;

verus! {

/// The byte strings of a list of encoded public inputs.
pub open spec fn encoded_inputs(inputs: Seq<[u8; SCALAR_SIZE]>) -> Seq<Seq<u8>> {
    inputs.map_values(|s: [u8; SCALAR_SIZE]| s@)
}

/// Whether one of the encoded inputs is not below the scalar field's modulus.
pub open spec fn some_input_out_of_field(inputs: Seq<Seq<u8>>) -> bool {
    exists|i: int| 0 <= i < inputs.len() && be_value(#[trigger] inputs[i]) >= scalar_field_modulus()
}

/// What one verification request yields, from its bytes: the proof is parsed,
/// then the key for as many public inputs as were given, then the inputs;
/// the first failure is the result, and otherwise the Groth16 check decides.
pub open spec fn verification_outcome(proof: Seq<u8>, vk: Seq<u8>, inputs: Seq<Seq<u8>>) -> Result<
    (),
    Groth16Error,
> {
    match proof_from_bytes(proof) {
        Err(e) => Err(e),
        Ok(p) => match key_from_bytes(vk, inputs.len()) {
            Err(e) => Err(e),
            Ok(k) => if some_input_out_of_field(inputs) {
                Err(Groth16Error::PublicInputGreaterThenFieldSize)
            } else {
                proof_outcome(k, p, inputs)
            },
        },
    }
}

/// Verification is a function of the request's bytes: two requests with
/// byte-identical proof, key and inputs have the same result.
pub proof fn lemma_verification_is_deterministic(
    proof1: Seq<u8>,
    vk1: Seq<u8>,
    inputs1: Seq<Seq<u8>>,
    proof2: Seq<u8>,
    vk2: Seq<u8>,
    inputs2: Seq<Seq<u8>>,
)
    requires
        proof1 == proof2,
        vk1 == vk2,
        inputs1 == inputs2,
    ensures
        verification_outcome(proof1, vk1, inputs1) == verification_outcome(proof2, vk2, inputs2),
{
}

/// The verification service: one stateless entry point.
pub struct Groth16Contract;

impl Groth16Contract {
    /// Verifies a Groth16 proof over BLS12-381 from its wire encodings: a
    /// 384-byte proof, a verifying key of `672 + 96 * (n + 1)` bytes and `n`
    /// big-endian scalars.
    pub fn verify(
        env: Env,
        proof: [u8; PROOF_SIZE],
        vk: Vec<u8>,
        public_inputs: Vec<[u8; SCALAR_SIZE]>,
    ) -> (r: Result<(), Groth16Error>)
        ensures
            r == verification_outcome(proof@, vk@, encoded_inputs(public_inputs@)),
    {
        let ghost inputs = encoded_inputs(public_inputs@);
        let parsed_proof = match Proof::try_from_bytes(proof) {
            Ok(p) => p,
            Err(e) => return Err(e),
        };
        let key = match VerifyingKey::try_from_bytes(vk.as_slice(), public_inputs.len()) {
            Ok(k) => k,
            Err(e) => return Err(e),
        };
        let mut pi: Vec<Fr> = Vec::new();
        let mut i: usize = 0;
        while i < public_inputs.len()
            invariant
                i <= public_inputs@.len(),
                proof_from_bytes(proof@) == Ok::<_, Groth16Error>(parsed_proof@),
                key_from_bytes(vk@, public_inputs@.len()) == Ok::<_, Groth16Error>(key@),
                inputs == encoded_inputs(public_inputs@),
                pi@.len() == i,
                forall|j: int| 0 <= j < i ==> (#[trigger] pi@[j])@ == inputs[j],
                forall|j: int| 0 <= j < i ==> be_value(#[trigger] inputs[j]) < scalar_field_modulus(),
            decreases public_inputs@.len() - i,
        {
            match Fr::try_from_bytes(public_inputs[i]) {
                Ok(x) => pi.push(x),
                Err(e) => {
                    assert(be_value(inputs[i as int]) >= scalar_field_modulus());
                    return Err(e);
                },
            }
            i += 1;
        }
        assert(inputs_view(pi@) =~= inputs);
        let bls = bls12_381_of(&env);
        verify_proof(&bls, &key, &parsed_proof, pi.as_slice())
    }
}

} // verus!
