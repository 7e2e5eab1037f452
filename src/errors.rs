use vstd::prelude::*;

verus! {

/// Every way a verification call can fail; each failed call reports exactly one of these.
#[derive(Copy, Clone, Debug, PartialEq, Eq, Structural, PartialOrd, Ord)]
pub enum Groth16Error {
    /// The verifying key's byte length does not fit the declared number of public inputs.
    IncompatibleVerifyingKeyWithNrPublicInputs,
    /// All inputs were well formed, but the pairing-product check failed.
    ProofVerificationFailed,
    /// The group addition of the input accumulator was refused.
    PreparingInputsG1AdditionFailed,
    /// The scalar multiplication of the input accumulator was refused.
    PreparingInputsG1MulFailed,
    /// A first-group point could not be cut out of its buffer.
    InvalidG1Length,
    /// A second-group point could not be cut out of its buffer.
    InvalidG2Length,
    /// The number of public inputs does not match the key's input commitments.
    InvalidPublicInputsLength,
    /// Bytes of the right length do not encode a point of the first group.
    DecompressingG1Failed,
    /// Bytes of the right length do not encode a point of the second group.
    DecompressingG2Failed,
    /// A public input is not below the scalar field's modulus.
    PublicInputGreaterThenFieldSize,
}

} // verus!
