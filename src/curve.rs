use vstd::prelude::*;

use crate::codec::{base_field_modulus, be_value, flags_ok, lemma_be_value_injective, FP_SIZE, G1_SIZE, G2_SIZE, SCALAR_SIZE};
use ark_serialize::{CanonicalDeserialize, Valid};
use soroban_sdk::crypto::bls12_381::{Bls12_381, G1Affine, G2Affine};
use soroban_sdk::{BytesN, Env};

verus! {

#[verifier::external_type_specification]
#[verifier::external_body]
pub struct ExEnv(soroban_sdk::Env);

/// The host's BLS12-381 functions. The host meters its work: a call that
/// exceeds the environment's budget traps whatever its arguments.
#[verifier::external_type_specification]
#[verifier::external_body]
pub struct ExBls12381(soroban_sdk::crypto::bls12_381::Bls12_381);

/// Whether 96 bytes decode, in the uncompressed encoding, to a point on the
/// curve that lies in the prime-order subgroup of the first group.
pub uninterp spec fn g1_in_group(b: Seq<u8>) -> bool;

/// Whether 192 bytes decode, in the uncompressed encoding, to a point on the
/// twist that lies in the prime-order subgroup of the second group.
pub uninterp spec fn g2_in_group(b: Seq<u8>) -> bool;

/// The encoding of the sum of two first-group points.
pub uninterp spec fn g1_sum(p: Seq<u8>, q: Seq<u8>) -> Seq<u8>;

/// The encoding of a first-group point times a scalar (32 bytes, big-endian).
pub uninterp spec fn g1_scaled(p: Seq<u8>, s: Seq<u8>) -> Seq<u8>;

/// Whether the product of the pairings `e(g1[i], g2[i])` is the identity of the target group.
pub uninterp spec fn pairing_product_is_one(g1: Seq<Seq<u8>>, g2: Seq<Seq<u8>>) -> bool;

/// An uncompressed first-group point that the host accepts as a group element.
pub open spec fn g1_point(b: Seq<u8>) -> bool {
    b.len() == G1_SIZE && flags_ok(b) && g1_in_group(b)
}

/// An uncompressed second-group point that the host accepts as a group element.
pub open spec fn g2_point(b: Seq<u8>) -> bool {
    b.len() == G2_SIZE && flags_ok(b) && g2_in_group(b)
}

/// The second coordinate of an uncompressed first-group point, as an integer.
pub open spec fn g1_y(b: Seq<u8>) -> nat {
    be_value(b.subrange(FP_SIZE as int, G1_SIZE as int))
}

/// The additive inverse of a base-field element below the modulus.
pub open spec fn fp_neg(y: nat) -> nat {
    if y == 0 {
        0
    } else {
        (base_field_modulus() - y) as nat
    }
}

/// The negation `(x, -y)` of the point `(x, y)`: the first coordinate, flags
/// included, is kept and the second is negated in the base field.
pub open spec fn is_g1_negation(p: Seq<u8>, r: Seq<u8>) -> bool {
    &&& r.len() == G1_SIZE
    &&& r.subrange(0, FP_SIZE as int) == p.subrange(0, FP_SIZE as int)
    &&& g1_y(r) == fp_neg(g1_y(p))
}

/// The negation of a first-group point encoding.
pub open spec fn g1_negation(p: Seq<u8>) -> Seq<u8> {
    choose|r: Seq<u8>| is_g1_negation(p, r)
}

/// A point has one negation: whatever satisfies `is_g1_negation` is `g1_negation`.
pub proof fn lemma_g1_negation_unique(p: Seq<u8>, r: Seq<u8>)
    requires
        is_g1_negation(p, r),
    ensures
        g1_negation(p) == r,
{
    let q = g1_negation(p);
    assert(is_g1_negation(p, q));
    lemma_be_value_injective(
        q.subrange(FP_SIZE as int, G1_SIZE as int),
        r.subrange(FP_SIZE as int, G1_SIZE as int),
    );
    assert forall|i: int| 0 <= i < G1_SIZE implies q[i] == r[i] by {
        if i < FP_SIZE {
            assert(q.subrange(0, FP_SIZE as int)[i] == r.subrange(0, FP_SIZE as int)[i]);
        } else {
            assert(q.subrange(FP_SIZE as int, G1_SIZE as int)[i - FP_SIZE] == r.subrange(
                FP_SIZE as int,
                G1_SIZE as int,
            )[i - FP_SIZE]);
        }
    }
    assert(q =~= r);
}

/// Relies on ark_serialize's `CanonicalDeserialize::deserialize_uncompressed_unchecked`
/// for ark_bls12_381's `G1Affine`, then on `Valid::check` (on the curve and in
/// the prime-order subgroup). Unless the infinity flag (bit 6 of the first
/// byte) is set, the decoder reads the second coordinate and refuses it at or
/// above the base field's modulus.
#[verifier::external_body]
pub(crate) fn g1_decodes(b: &[u8; G1_SIZE]) -> (r: bool)
    ensures
        r == g1_in_group(b@),
        r && (b@[0] / 64) % 2 == 0 ==> g1_y(b@) < base_field_modulus(),
{
    match ark_bls12_381::G1Affine::deserialize_uncompressed_unchecked(&b[..]) {
        Ok(p) => p.check().is_ok(),
        Err(_) => false,
    }
}

/// Relies on ark_serialize's `CanonicalDeserialize::deserialize_uncompressed_unchecked`
/// for ark_bls12_381's `G2Affine`, then on `Valid::check` (on the twist and in
/// the prime-order subgroup).
#[verifier::external_body]
pub(crate) fn g2_decodes(b: &[u8; G2_SIZE]) -> (r: bool)
    ensures
        r == g2_in_group(b@),
{
    match ark_bls12_381::G2Affine::deserialize_uncompressed_unchecked(&b[..]) {
        Ok(p) => p.check().is_ok(),
        Err(_) => false,
    }
}

/// Relies on soroban_sdk's `Env::crypto` and `Crypto::bls12_381`: the handle to
/// the host's BLS12-381 functions.
#[verifier::external_body]
pub(crate) fn bls12_381_of(env: &Env) -> Bls12_381 {
    env.crypto().bls12_381()
}

/// Relies on soroban_sdk's `Bls12_381::g1_add`: the host decodes both points
/// (it traps on bad flags or a point off the curve, which `requires` leaves
/// out), adds them and encodes the sum, a subgroup point, uncompressed.
#[verifier::external_body]
pub(crate) fn g1_add(bls: &Bls12_381, p: &[u8; G1_SIZE], q: &[u8; G1_SIZE]) -> (r: [u8; G1_SIZE])
    requires
        g1_point(p@),
        g1_point(q@),
    ensures
        r@ == g1_sum(p@, q@),
        g1_point(r@),
{
    let env = bls.env();
    bls.g1_add(&G1Affine::from_array(env, p), &G1Affine::from_array(env, q)).to_array()
}

/// Relies on soroban_sdk's `Bls12_381::g1_mul` and `Fr::from_bytes`: the host
/// decodes the point (it traps on one off the subgroup, which `requires` leaves
/// out), multiplies it by the scalar and encodes the product, a subgroup point,
/// uncompressed.
#[verifier::external_body]
pub(crate) fn g1_mul(bls: &Bls12_381, p: &[u8; G1_SIZE], s: &[u8; SCALAR_SIZE]) -> (r: [u8; G1_SIZE])
    requires
        g1_point(p@),
    ensures
        r@ == g1_scaled(p@, s@),
        g1_point(r@),
{
    let env = bls.env();
    let scalar = soroban_sdk::crypto::bls12_381::Fr::from_bytes(BytesN::from_array(env, s));
    bls.g1_mul(&G1Affine::from_array(env, p), &scalar).to_array()
}

/// Relies on soroban_sdk's `Neg` for `&G1Affine`: it keeps the first coordinate
/// and replaces the second by its negation in the base field (it traps on a
/// coordinate at or above the modulus, which `requires` leaves out). The
/// negation of a subgroup point is a subgroup point.
#[verifier::external_body]
pub(crate) fn g1_negate(bls: &Bls12_381, p: &[u8; G1_SIZE]) -> (r: [u8; G1_SIZE])
    requires
        g1_point(p@),
        g1_y(p@) < base_field_modulus(),
    ensures
        is_g1_negation(p@, r@),
        g1_point(r@),
{
    (-&G1Affine::from_array(bls.env(), p)).to_array()
}

/// Relies on soroban_sdk's `Bls12_381::pairing_check`: true exactly when the
/// product of the pairings of the points at equal positions is the identity.
/// The host traps on lists of unequal or zero length and on points off the
/// subgroups, which `requires` leaves out.
#[verifier::external_body]
pub(crate) fn pairing_check(bls: &Bls12_381, g1: &Vec<[u8; G1_SIZE]>, g2: &Vec<[u8; G2_SIZE]>) -> (r: bool)
    requires
        g1@.len() == g2@.len(),
        0 < g1@.len() <= u32::MAX,
        forall|i: int| 0 <= i < g1@.len() ==> g1_point(#[trigger] g1@[i]@),
        forall|i: int| 0 <= i < g2@.len() ==> g2_point(#[trigger] g2@[i]@),
    ensures
        r == pairing_product_is_one(
            g1@.map_values(|p: [u8; G1_SIZE]| p@),
            g2@.map_values(|p: [u8; G2_SIZE]| p@),
        ),
{
    let env = bls.env();
    let mut vp1 = soroban_sdk::Vec::new(env);
    for p in g1.iter() {
        vp1.push_back(G1Affine::from_array(env, p));
    }
    let mut vp2 = soroban_sdk::Vec::new(env);
    for p in g2.iter() {
        vp2.push_back(G2Affine::from_array(env, p));
    }
    bls.pairing_check(vp1, vp2)
}

} // verus!
