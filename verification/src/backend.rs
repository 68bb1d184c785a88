//! The pluggable proof backend interface.

use vstd::prelude::*;

use crate::constraints::ConstraintSystem;
use crate::public_inputs::PublicInputs;
use crate::witness::Witness;

verus! {

/// A zero-knowledge proof backend: proves that a witness satisfies a
/// constraint system for given public inputs, verifies such proofs, and
/// (de)serializes them.
pub trait ZkBackend {
    /// Proof type of the backend.
    type Proof;

    /// Error type of the backend.
    type Error;

    fn prove(
        &self,
        witness: &Witness,
        constraints: &ConstraintSystem,
        public_inputs: &PublicInputs,
    ) -> Result<Self::Proof, Self::Error>;

    fn verify(
        &self,
        proof: &Self::Proof,
        public_inputs: &PublicInputs,
        constraint_commitment: &crate::types::Hash,
    ) -> bool;

    fn backend_id(&self) -> &str;

    fn is_post_quantum(&self) -> bool;

    fn serialize_proof(&self, proof: &Self::Proof) -> Vec<u8>;

    fn deserialize_proof(&self, bytes: &[u8]) -> Result<Self::Proof, Self::Error>;
}

} // verus!
