use vstd::prelude::*;

use crate::codec::{
    base_field_modulus, be_value, bytes_at, flags_valid, is_below_scalar_modulus,
    lemma_be_value_zeros, scalar_field_modulus, FP_SIZE, G1_SIZE, G2_SIZE, SCALAR_SIZE,
};
use crate::curve::{
    g1_add, g1_decodes, g1_mul, g1_negate, g1_negation, g1_point, g1_scaled, g1_sum, g1_y,
    g2_decodes, g2_point, lemma_g1_negation_unique, pairing_check, pairing_product_is_one,
};
use crate::errors::Groth16Error;
use soroban_sdk::crypto::bls12_381::Bls12_381;

verus! {

/// Bytes of an encoded proof `A‖B‖C`.
pub const PROOF_SIZE: usize = 384;

/// Bytes of a verifying key before its input commitments: `alpha‖beta‖gamma‖delta`.
pub const VK_FIXED_SIZE: usize = 672;

/// A proof as the byte strings of its three points.
pub struct ProofView {
    pub a: Seq<u8>,
    pub b: Seq<u8>,
    pub c: Seq<u8>,
}

/// The view of a result whose success value has a view.
pub open spec fn view_result<T: View>(r: Result<T, Groth16Error>) -> Result<T::V, Groth16Error> {
    match r {
        Ok(v) => Ok(v@),
        Err(e) => Err(e),
    }
}

/// What parsing a proof encoding yields: the three points, or the error of the
/// first one (in the order A, B, C) that does not decode.
pub open spec fn proof_from_bytes(bytes: Seq<u8>) -> Result<ProofView, Groth16Error> {
    let a = bytes.subrange(0, 96);
    let b = bytes.subrange(96, 288);
    let c = bytes.subrange(288, 384);
    if !g1_point(a) {
        Err(Groth16Error::DecompressingG1Failed)
    } else if !g2_point(b) {
        Err(Groth16Error::DecompressingG2Failed)
    } else if !g1_point(c) {
        Err(Groth16Error::DecompressingG1Failed)
    } else {
        Ok(ProofView { a, b, c })
    }
}

/// What parsing a 32-byte public input yields: the same bytes when their
/// big-endian value lies below the scalar field's modulus.
pub open spec fn scalar_from_bytes(bytes: Seq<u8>) -> Result<Seq<u8>, Groth16Error> {
    if be_value(bytes) < scalar_field_modulus() {
        Ok(bytes)
    } else {
        Err(Groth16Error::PublicInputGreaterThenFieldSize)
    }
}

/// A Groth16 proof: `A` and `C` in the first group, `B` in the second.
pub struct Proof {
    a: [u8; G1_SIZE],
    b: [u8; G2_SIZE],
    c: [u8; G1_SIZE],
}

impl View for Proof {
    type V = ProofView;

    closed spec fn view(&self) -> ProofView {
        ProofView { a: self.a@, b: self.b@, c: self.c@ }
    }
}

/// Cuts a first-group point out of `bytes` at `start` and checks it.
fn g1_at(bytes: &[u8], start: usize) -> (r: Option<[u8; G1_SIZE]>)
    requires
        start + G1_SIZE <= bytes@.len(),
    ensures
        match r {
            Some(p) => {
                &&& p@ == bytes@.subrange(start as int, start + G1_SIZE)
                &&& g1_point(p@)
                &&& g1_y(p@) < base_field_modulus()
            },
            None => !g1_point(bytes@.subrange(start as int, start + G1_SIZE)),
        },
{
    let p: [u8; G1_SIZE] = bytes_at(bytes, start);
    if flags_valid(p.as_slice()) && g1_decodes(&p) {
        proof {
            if p@[0] >= 0x20 {
                lemma_be_value_zeros(p@.subrange(FP_SIZE as int, G1_SIZE as int));
            }
        }
        Some(p)
    } else {
        None
    }
}

/// Cuts a second-group point out of `bytes` at `start` and checks it.
fn g2_at(bytes: &[u8], start: usize) -> (r: Option<[u8; G2_SIZE]>)
    requires
        start + G2_SIZE <= bytes@.len(),
    ensures
        match r {
            Some(p) => p@ == bytes@.subrange(start as int, start + G2_SIZE) && g2_point(p@),
            None => !g2_point(bytes@.subrange(start as int, start + G2_SIZE)),
        },
{
    let p: [u8; G2_SIZE] = bytes_at(bytes, start);
    if flags_valid(p.as_slice()) && g2_decodes(&p) {
        Some(p)
    } else {
        None
    }
}

impl Proof {
    /// Every point decodes to a group element; `A`'s second coordinate is a
    /// field element, so that `A` can be negated.
    #[verifier::type_invariant]
    closed spec fn inv(&self) -> bool {
        &&& g1_point(self.a@)
        &&& g1_y(self.a@) < base_field_modulus()
        &&& g2_point(self.b@)
        &&& g1_point(self.c@)
    }

    /// Parses the encoding `A‖B‖C` (96, 192 and 96 bytes, uncompressed). The
    /// array type fixes the length, so every part can be cut out; a part that
    /// does not decode is refused with its group's error.
    pub fn try_from_bytes(bytes: [u8; PROOF_SIZE]) -> (r: Result<Proof, Groth16Error>)
        ensures
            view_result(r) == proof_from_bytes(bytes@),
    {
        let s = bytes.as_slice();
        let a = match g1_at(s, 0) {
            Some(a) => a,
            None => return Err(Groth16Error::DecompressingG1Failed),
        };
        let b = match g2_at(s, 96) {
            Some(b) => b,
            None => return Err(Groth16Error::DecompressingG2Failed),
        };
        let c = match g1_at(s, 288) {
            Some(c) => c,
            None => return Err(Groth16Error::DecompressingG1Failed),
        };
        Ok(Proof { a, b, c })
    }

    /// The point `A`, uncompressed.
    pub fn a(&self) -> (r: [u8; G1_SIZE])
        ensures
            r@ == self@.a,
    {
        self.a
    }

    /// The point `B`, uncompressed.
    pub fn b(&self) -> (r: [u8; G2_SIZE])
        ensures
            r@ == self@.b,
    {
        self.b
    }

    /// The point `C`, uncompressed.
    pub fn c(&self) -> (r: [u8; G1_SIZE])
        ensures
            r@ == self@.c,
    {
        self.c
    }
}

/// A public input: an element of the scalar field, 32 bytes big-endian.
pub struct Fr {
    bytes: [u8; SCALAR_SIZE],
}

impl View for Fr {
    type V = Seq<u8>;

    closed spec fn view(&self) -> Seq<u8> {
        self.bytes@
    }
}

impl Fr {
    /// The value lies below the modulus: it is never reduced.
    #[verifier::type_invariant]
    closed spec fn inv(&self) -> bool {
        be_value(self.bytes@) < scalar_field_modulus()
    }

    /// Parses a big-endian scalar, refusing one at or above the field's modulus.
    pub fn try_from_bytes(bytes: [u8; SCALAR_SIZE]) -> (r: Result<Fr, Groth16Error>)
        ensures
            view_result(r) == scalar_from_bytes(bytes@),
    {
        if is_below_scalar_modulus(&bytes) {
            Ok(Fr { bytes })
        } else {
            Err(Groth16Error::PublicInputGreaterThenFieldSize)
        }
    }

    /// The scalar's 32 bytes, big-endian.
    pub fn to_bytes(&self) -> (r: [u8; SCALAR_SIZE])
        ensures
            r@ == self@,
    {
        self.bytes
    }
}

/// A verifying key as the byte strings of its points.
pub struct KeyView {
    pub alpha_g1: Seq<u8>,
    pub beta_g2: Seq<u8>,
    pub gamma_g2: Seq<u8>,
    pub delta_g2: Seq<u8>,
    pub gamma_abc_g1: Seq<Seq<u8>>,
}

/// The byte length of a verifying key for `n` public inputs.
pub open spec fn vk_size(n: nat) -> int {
    VK_FIXED_SIZE + 96 * (n + 1)
}

/// The bytes of input commitment `k` in a verifying key encoding.
pub open spec fn ic_bytes(bytes: Seq<u8>, k: int) -> Seq<u8> {
    bytes.subrange(VK_FIXED_SIZE + 96 * k, VK_FIXED_SIZE + 96 * k + 96)
}

/// What parsing a verifying key for `n` public inputs yields: the length gate
/// comes first; then the points, in the order of the encoding, each refused
/// with the error of its group.
pub open spec fn key_from_bytes(bytes: Seq<u8>, n: nat) -> Result<KeyView, Groth16Error> {
    if bytes.len() != vk_size(n) {
        Err(Groth16Error::IncompatibleVerifyingKeyWithNrPublicInputs)
    } else if !g1_point(bytes.subrange(0, 96)) {
        Err(Groth16Error::DecompressingG1Failed)
    } else if !g2_point(bytes.subrange(96, 288)) {
        Err(Groth16Error::DecompressingG2Failed)
    } else if !g2_point(bytes.subrange(288, 480)) {
        Err(Groth16Error::DecompressingG2Failed)
    } else if !g2_point(bytes.subrange(480, 672)) {
        Err(Groth16Error::DecompressingG2Failed)
    } else if exists|k: int| 0 <= k <= n && !#[trigger] g1_point(ic_bytes(bytes, k)) {
        Err(Groth16Error::DecompressingG1Failed)
    } else {
        Ok(
            KeyView {
                alpha_g1: bytes.subrange(0, 96),
                beta_g2: bytes.subrange(96, 288),
                gamma_g2: bytes.subrange(288, 480),
                delta_g2: bytes.subrange(480, 672),
                gamma_abc_g1: Seq::new(n + 1, |k: int| ic_bytes(bytes, k)),
            },
        )
    }
}

/// A verifying key: `alpha` in the first group, `beta`, `gamma`, `delta` in
/// the second, and the input commitments `IC[0..=n]` in the first.
pub struct VerifyingKey {
    alpha_g1: [u8; G1_SIZE],
    beta_g2: [u8; G2_SIZE],
    gamma_g2: [u8; G2_SIZE],
    delta_g2: [u8; G2_SIZE],
    gamma_abc_g1: Vec<[u8; G1_SIZE]>,
}

impl View for VerifyingKey {
    type V = KeyView;

    closed spec fn view(&self) -> KeyView {
        KeyView {
            alpha_g1: self.alpha_g1@,
            beta_g2: self.beta_g2@,
            gamma_g2: self.gamma_g2@,
            delta_g2: self.delta_g2@,
            gamma_abc_g1: self.gamma_abc_g1@.map_values(|p: [u8; G1_SIZE]| p@),
        }
    }
}

impl VerifyingKey {
    /// Every point decodes to a group element, and there is at least the
    /// constant commitment `IC[0]`.
    #[verifier::type_invariant]
    closed spec fn inv(&self) -> bool {
        &&& g1_point(self.alpha_g1@)
        &&& g2_point(self.beta_g2@)
        &&& g2_point(self.gamma_g2@)
        &&& g2_point(self.delta_g2@)
        &&& self.gamma_abc_g1@.len() >= 1
        &&& forall|k: int|
            0 <= k < self.gamma_abc_g1@.len() ==> g1_point(#[trigger] self.gamma_abc_g1@[k]@)
    }

    /// Parses a verifying key for `public_inputs_len` public inputs. Its length
    /// must be exactly `672 + 96 * (public_inputs_len + 1)`; that is checked
    /// before any point is cut out.
    pub fn try_from_bytes(bytes: &[u8], public_inputs_len: usize) -> (r: Result<
        VerifyingKey,
        Groth16Error,
    >)
        ensures
            view_result(r) == key_from_bytes(bytes@, public_inputs_len as nat),
    {
        let len = bytes.len();
        let expected = match public_inputs_len.checked_add(1) {
            Some(m) => match m.checked_mul(96) {
                Some(t) => t.checked_add(VK_FIXED_SIZE),
                None => None,
            },
            None => None,
        };
        match expected {
            Some(e) => {
                if len != e {
                    return Err(Groth16Error::IncompatibleVerifyingKeyWithNrPublicInputs);
                }
            },
            None => {
                return Err(Groth16Error::IncompatibleVerifyingKeyWithNrPublicInputs);
            },
        }
        let alpha_g1 = match g1_at(bytes, 0) {
            Some(p) => p,
            None => return Err(Groth16Error::DecompressingG1Failed),
        };
        let beta_g2 = match g2_at(bytes, 96) {
            Some(p) => p,
            None => return Err(Groth16Error::DecompressingG2Failed),
        };
        let gamma_g2 = match g2_at(bytes, 288) {
            Some(p) => p,
            None => return Err(Groth16Error::DecompressingG2Failed),
        };
        let delta_g2 = match g2_at(bytes, 480) {
            Some(p) => p,
            None => return Err(Groth16Error::DecompressingG2Failed),
        };
        let ghost n = public_inputs_len as nat;
        let mut gamma_abc_g1: Vec<[u8; G1_SIZE]> = Vec::new();
        let mut k: usize = 0;
        let mut offset: usize = VK_FIXED_SIZE;
        while k <= public_inputs_len
            invariant
                bytes@.len() == vk_size(n),
                bytes@.len() <= usize::MAX,
                g1_point(bytes@.subrange(0, 96)),
                g2_point(bytes@.subrange(96, 288)),
                g2_point(bytes@.subrange(288, 480)),
                g2_point(bytes@.subrange(480, 672)),
                n == public_inputs_len,
                k <= n + 1,
                offset == VK_FIXED_SIZE + 96 * k,
                gamma_abc_g1@.len() == k,
                forall|j: int|
                    0 <= j < k ==> (#[trigger] gamma_abc_g1@[j])@ == ic_bytes(bytes@, j),
                forall|j: int| 0 <= j < k ==> g1_point(#[trigger] ic_bytes(bytes@, j)),
            decreases n + 1 - k,
        {
            let p = match g1_at(bytes, offset) {
                Some(p) => p,
                None => {
                    assert(!g1_point(ic_bytes(bytes@, k as int)));
                    return Err(Groth16Error::DecompressingG1Failed);
                },
            };
            gamma_abc_g1.push(p);
            k += 1;
            offset += 96;
        }
        let vk = VerifyingKey { alpha_g1, beta_g2, gamma_g2, delta_g2, gamma_abc_g1 };
        assert(vk@.gamma_abc_g1 =~= Seq::new(n + 1, |j: int| ic_bytes(bytes@, j)));
        Ok(vk)
    }

    /// The point `alpha`, uncompressed.
    pub fn alpha_g1(&self) -> (r: [u8; G1_SIZE])
        ensures
            r@ == self@.alpha_g1,
    {
        self.alpha_g1
    }

    /// The point `beta`, uncompressed.
    pub fn beta_g2(&self) -> (r: [u8; G2_SIZE])
        ensures
            r@ == self@.beta_g2,
    {
        self.beta_g2
    }

    /// The point `gamma`, uncompressed.
    pub fn gamma_g2(&self) -> (r: [u8; G2_SIZE])
        ensures
            r@ == self@.gamma_g2,
    {
        self.gamma_g2
    }

    /// The point `delta`, uncompressed.
    pub fn delta_g2(&self) -> (r: [u8; G2_SIZE])
        ensures
            r@ == self@.delta_g2,
    {
        self.delta_g2
    }

    /// The input commitments `IC[0..=n]`, uncompressed.
    pub fn gamma_abc_g1(&self) -> (r: &[[u8; G1_SIZE]])
        ensures
            r@.map_values(|p: [u8; G1_SIZE]| p@) == self@.gamma_abc_g1,
    {
        self.gamma_abc_g1.as_slice()
    }
}

/// The public-input accumulator after `k` inputs:
/// `IC[0] + inputs[0]·IC[1] + … + inputs[k-1]·IC[k]`, added left to right.
pub open spec fn accumulate(ic: Seq<Seq<u8>>, inputs: Seq<Seq<u8>>, k: nat) -> Seq<u8>
    decreases k,
{
    if k == 0 {
        ic[0]
    } else {
        g1_sum(
            accumulate(ic, inputs, (k - 1) as nat),
            g1_scaled(ic[k as int], inputs[k - 1]),
        )
    }
}

/// The first-group terms of the pairing check, in order: `-A`, `alpha`, the
/// accumulator, `C`.
pub open spec fn pairing_g1_terms(vk: KeyView, proof: ProofView, inputs: Seq<Seq<u8>>) -> Seq<
    Seq<u8>,
> {
    seq![
        g1_negation(proof.a),
        vk.alpha_g1,
        accumulate(vk.gamma_abc_g1, inputs, inputs.len()),
        proof.c,
    ]
}

/// The second-group terms of the pairing check, in order: `B`, `beta`, `gamma`, `delta`.
pub open spec fn pairing_g2_terms(vk: KeyView, proof: ProofView) -> Seq<Seq<u8>> {
    seq![proof.b, vk.beta_g2, vk.gamma_g2, vk.delta_g2]
}

/// The Groth16 equation `e(-A, B)·e(alpha, beta)·e(acc, gamma)·e(C, delta) = 1`.
pub open spec fn groth16_equation_holds(
    vk: KeyView,
    proof: ProofView,
    inputs: Seq<Seq<u8>>,
) -> bool {
    pairing_product_is_one(pairing_g1_terms(vk, proof, inputs), pairing_g2_terms(vk, proof))
}

/// What verifying a parsed proof yields: the input count must match the key's
/// commitments; then success exactly when the equation holds.
pub open spec fn proof_outcome(vk: KeyView, proof: ProofView, inputs: Seq<Seq<u8>>) -> Result<
    (),
    Groth16Error,
> {
    if inputs.len() + 1 != vk.gamma_abc_g1.len() {
        Err(Groth16Error::InvalidPublicInputsLength)
    } else if groth16_equation_holds(vk, proof, inputs) {
        Ok(())
    } else {
        Err(Groth16Error::ProofVerificationFailed)
    }
}

/// The byte strings of a list of public inputs.
pub open spec fn inputs_view(inputs: Seq<Fr>) -> Seq<Seq<u8>> {
    inputs.map_values(|x: Fr| x@)
}

/// Verifies `proof` against `vk` and the public inputs: the input count is
/// checked, the accumulator computed left to right, and one four-term pairing
/// check decides. Every point is a group element by the types' invariants, so
/// no group operation on the way can be refused.
pub fn verify_proof(bls: &Bls12_381, vk: &VerifyingKey, proof: &Proof, public_inputs: &[Fr]) -> (r:
    Result<(), Groth16Error>)
    ensures
        r == proof_outcome(vk@, proof@, inputs_view(public_inputs@)),
{
    proof {
        use_type_invariant(vk);
        use_type_invariant(proof);
    }
    let ghost inputs = inputs_view(public_inputs@);
    let ghost ic = vk@.gamma_abc_g1;
    if public_inputs.len() != vk.gamma_abc_g1.len() - 1 {
        return Err(Groth16Error::InvalidPublicInputsLength);
    }
    let mut acc: [u8; G1_SIZE] = vk.gamma_abc_g1[0];
    let mut i: usize = 0;
    while i < public_inputs.len()
        invariant
            i <= public_inputs@.len(),
            public_inputs@.len() + 1 == vk.gamma_abc_g1@.len(),
            inputs == inputs_view(public_inputs@),
            ic == vk@.gamma_abc_g1,
            forall|k: int|
                0 <= k < vk.gamma_abc_g1@.len() ==> g1_point(#[trigger] vk.gamma_abc_g1@[k]@),
            acc@ == accumulate(ic, inputs, i as nat),
            g1_point(acc@),
        decreases public_inputs@.len() - i,
    {
        let term = g1_mul(bls, &vk.gamma_abc_g1[i + 1], &public_inputs[i].bytes);
        acc = g1_add(bls, &acc, &term);
        i += 1;
    }
    let neg_a = g1_negate(bls, &proof.a);
    proof {
        lemma_g1_negation_unique(proof.a@, neg_a@);
    }
    let g1_terms: Vec<[u8; G1_SIZE]> = vec![neg_a, vk.alpha_g1, acc, proof.c];
    let g2_terms: Vec<[u8; G2_SIZE]> = vec![proof.b, vk.beta_g2, vk.gamma_g2, vk.delta_g2];
    assert(g1_terms@.map_values(|p: [u8; G1_SIZE]| p@) =~= pairing_g1_terms(vk@, proof@, inputs));
    assert(g2_terms@.map_values(|p: [u8; G2_SIZE]| p@) =~= pairing_g2_terms(vk@, proof@));
    if pairing_check(bls, &g1_terms, &g2_terms) {
        Ok(())
    } else {
        Err(Groth16Error::ProofVerificationFailed)
    }
}

/// A verifying key one byte shorter than `672 + 96 * (n + 1)` is refused by
/// the length gate, whatever its bytes.
pub proof fn lemma_short_key_is_refused(bytes: Seq<u8>, n: nat)
    requires
        bytes.len() == vk_size(n) - 1,
    ensures
        key_from_bytes(bytes, n) == Err::<KeyView, Groth16Error>(
            Groth16Error::IncompatibleVerifyingKeyWithNrPublicInputs,
        ),
{
}

/// Against a key with commitments for `n` inputs, `n - 1` inputs are refused
/// as a count mismatch, before any arithmetic: nothing is truncated or padded.
pub proof fn lemma_missing_input_is_refused(
    vk: KeyView,
    proof: ProofView,
    inputs: Seq<Seq<u8>>,
    n: nat,
)
    requires
        n >= 1,
        vk.gamma_abc_g1.len() == n + 1,
        inputs.len() == n - 1,
    ensures
        proof_outcome(vk, proof, inputs) == Err::<(), Groth16Error>(
            Groth16Error::InvalidPublicInputsLength,
        ),
{
}

/// A 32-byte scalar equal to the field's modulus, or above it, is refused.
pub proof fn lemma_scalar_not_below_modulus_is_refused(bytes: Seq<u8>)
    requires
        bytes.len() == 32,
        be_value(bytes) >= scalar_field_modulus(),
    ensures
        scalar_from_bytes(bytes) == Err::<Seq<u8>, Groth16Error>(
            Groth16Error::PublicInputGreaterThenFieldSize,
        ),
{
}

} // verus!
