//! Backend-specific circuit compilation.

use vstd::prelude::*;

use crate::constraints::ConstraintSystem;
use crate::public_inputs::PublicInputs;
use crate::witness::Witness;

verus! {

/// Compiles a constraint system into a backend's circuit and assigns
/// witness and public input values to its wires.
pub trait CircuitBuilder {
    type Circuit;

    type WireAssignment;

    type PublicWireAssignment;

    fn build_circuit(&self, constraints: &ConstraintSystem) -> Self::Circuit;

    fn assign_witness(&self, circuit: &Self::Circuit, witness: &Witness) -> Self::WireAssignment;

    fn assign_public_inputs(
        &self,
        circuit: &Self::Circuit,
        public_inputs: &PublicInputs,
    ) -> Self::PublicWireAssignment;
}

/// The trivial circuit builder of hash-based backends.
pub struct NoOpCircuitBuilder;

/// The trivial circuit.
#[derive(Clone, Copy, Debug)]
pub struct NoOpCircuit;

/// The trivial witness assignment.
#[derive(Clone, Copy, Debug)]
pub struct NoOpWireAssignment;

/// The trivial public input assignment.
#[derive(Clone, Copy, Debug)]
pub struct NoOpPublicWireAssignment;

impl CircuitBuilder for NoOpCircuitBuilder {
    type Circuit = NoOpCircuit;

    type WireAssignment = NoOpWireAssignment;

    type PublicWireAssignment = NoOpPublicWireAssignment;

    fn build_circuit(&self, constraints: &ConstraintSystem) -> NoOpCircuit {
        NoOpCircuit
    }

    fn assign_witness(&self, circuit: &NoOpCircuit, witness: &Witness) -> NoOpWireAssignment {
        NoOpWireAssignment
    }

    fn assign_public_inputs(
        &self,
        circuit: &NoOpCircuit,
        public_inputs: &PublicInputs,
    ) -> NoOpPublicWireAssignment {
        NoOpPublicWireAssignment
    }
}

} // verus!
