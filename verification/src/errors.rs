//! Error kinds of the Groth16 verifier.

use vstd::prelude::*;

verus! {

/// What can go wrong while preparing public inputs or running the pairing
/// check of a Groth16 proof.
#[derive(Clone, Copy, Debug, PartialEq, Eq, Structural)]
pub enum Groth16Error {
    InvalidG1Length,
    InvalidG2Length,
    InvalidPublicInputsLength,
    PublicInputGreaterThanFieldSize,
    PreparingInputsG1MulFailed,
    PreparingInputsG1AdditionFailed,
    ProofVerificationFailed,
}

} // verus!
