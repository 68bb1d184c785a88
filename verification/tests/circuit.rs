use vsel_proof::circuit::{CircuitBuilder, NoOpCircuitBuilder};
use vsel_proof::constraints::{
    Constraint, ConstraintCategory, ConstraintExpr, ConstraintSystem, PublicInputDecl,
    WitnessVariable, WitnessVariableKind,
};
use vsel_proof::public_inputs::PublicInputs;
use vsel_proof::types::{DomainTag, ProtocolVersion};
use vsel_proof::witness::{AuxiliaryComputation, Witness};


/// Build a minimal constraint system for testing.
fn minimal_constraint_system() -> ConstraintSystem {
    let mut cs = ConstraintSystem::new("1.0.0");

    cs.add_witness_variable(WitnessVariable {
        name: "x".to_string(),
        kind: WitnessVariableKind::Semantic,
        description: "test witness variable".to_string(),
    });

    cs.add_public_input(PublicInputDecl {
        name: "root_init".to_string(),
        description: "initial state commitment".to_string(),
    });

    cs.add_constraint(Constraint {
        id: 0,
        expr: ConstraintExpr::Eq(
            Box::new(ConstraintExpr::WitnessRef("x".to_string())),
            Box::new(ConstraintExpr::Constant(42)),
        ),
        category: ConstraintCategory::Shape,
        description: "x = 42".to_string(),
    });

    cs
}

#[test]
fn test_noop_circuit_builder_compiles() {
    let builder = NoOpCircuitBuilder;
    let cs = minimal_constraint_system();

    let circuit = builder.build_circuit(&cs);
    // NoOpCircuit is a unit struct — just verify it was created.
    let _ = circuit.clone();
}

#[test]
fn test_noop_assign_witness() {
    let builder = NoOpCircuitBuilder;
    let cs = minimal_constraint_system();
    let circuit = builder.build_circuit(&cs);

    let witness = Witness {
        intermediate_states: vec![],
        input_sequence: vec![],
        aux_computation: AuxiliaryComputation::empty(),
    };

    let assignment = builder.assign_witness(&circuit, &witness);
    let _ = assignment.clone();
}

#[test]
fn test_noop_assign_public_inputs() {

    let builder = NoOpCircuitBuilder;
    let cs = minimal_constraint_system();
    let circuit = builder.build_circuit(&cs);

    let public_inputs = PublicInputs {
        root_init: vsel_proof::types::Hash([1u8; 32]),
        root_final: vsel_proof::types::Hash([2u8; 32]),
        observables: vec![],
        domain: DomainTag(vsel_proof::types::Hash([3u8; 32])),
        version: ProtocolVersion {
            major: 1,
            minor: 0,
            patch: 0,
        },
    };

    let assignment = builder.assign_public_inputs(&circuit, &public_inputs);
    let _ = assignment.clone();
}

#[test]
fn test_circuit_builder_usable_as_generic_bound() {

    let builder = NoOpCircuitBuilder;
    let cs = minimal_constraint_system();
    let witness = Witness {
        intermediate_states: vec![],
        input_sequence: vec![],
        aux_computation: AuxiliaryComputation::empty(),
    };
    let public_inputs = PublicInputs {
        root_init: vsel_proof::types::Hash([1u8; 32]),
        root_final: vsel_proof::types::Hash([2u8; 32]),
        observables: vec![],
        domain: DomainTag(vsel_proof::types::Hash([3u8; 32])),
        version: ProtocolVersion {
            major: 1,
            minor: 0,
            patch: 0,
        },
    };

    let (circuit, wire, pub_wire) =
        build_and_assign(&builder, &cs, &witness, &public_inputs);
    let _ = (circuit, wire, pub_wire);
}

#[test]
fn test_noop_builder_with_complex_constraint_system() {
    let mut cs = ConstraintSystem::new("1.0.0");

    // Add multiple witness variables of different kinds.
    cs.add_witness_variable(WitnessVariable {
        name: "state_pre.balance".to_string(),
        kind: WitnessVariableKind::Semantic,
        description: "pre-state balance".to_string(),
    });
    cs.add_witness_variable(WitnessVariable {
        name: "state_post.balance".to_string(),
        kind: WitnessVariableKind::Semantic,
        description: "post-state balance".to_string(),
    });
    cs.add_witness_variable(WitnessVariable {
        name: "transfer_amount".to_string(),
        kind: WitnessVariableKind::Derived,
        description: "derived transfer amount".to_string(),
    });
    cs.add_witness_variable(WitnessVariable {
        name: "merkle_path".to_string(),
        kind: WitnessVariableKind::Auxiliary,
        description: "Merkle proof path".to_string(),
    });

    // Add multiple public inputs.
    cs.add_public_input(PublicInputDecl {
        name: "root_init".to_string(),
        description: "initial state root".to_string(),
    });
    cs.add_public_input(PublicInputDecl {
        name: "root_final".to_string(),
        description: "final state root".to_string(),
    });

    // Add constraints covering multiple ConstraintExpr variants.
    cs.add_constraint(Constraint {
        id: 0,
        expr: ConstraintExpr::Eq(
            Box::new(ConstraintExpr::Add(
                Box::new(ConstraintExpr::WitnessRef(
                    "state_pre.balance".to_string(),
                )),
                Box::new(ConstraintExpr::WitnessRef(
                    "transfer_amount".to_string(),
                )),
            )),
            Box::new(ConstraintExpr::WitnessRef(
                "state_post.balance".to_string(),
            )),
        ),
        category: ConstraintCategory::Shape,
        description: "balance update: pre + amount = post".to_string(),
    });

    cs.add_constraint(Constraint {
        id: 1,
        expr: ConstraintExpr::Lt(
            Box::new(ConstraintExpr::Constant(0)),
            Box::new(ConstraintExpr::WitnessRef(
                "transfer_amount".to_string(),
            )),
        ),
        category: ConstraintCategory::Semantic,
        description: "transfer amount must be positive".to_string(),
    });

    cs.add_constraint(Constraint {
        id: 2,
        expr: ConstraintExpr::IfThenElse(
            Box::new(ConstraintExpr::BoolConstant(true)),
            Box::new(ConstraintExpr::WitnessRef(
                "state_post.balance".to_string(),
            )),
            Box::new(ConstraintExpr::Constant(0)),
        ),
        category: ConstraintCategory::Branch,
        description: "conditional balance check".to_string(),
    });

    let builder = NoOpCircuitBuilder;
    let circuit = builder.build_circuit(&cs);

    // NoOp builder handles any constraint system without error.
    let _ = circuit;
}

/// Verify the trait works as a generic parameter.
fn build_and_assign<B: CircuitBuilder>(
    builder: &B,
    constraints: &ConstraintSystem,
    witness: &Witness,
    public_inputs: &PublicInputs,
) -> (B::Circuit, B::WireAssignment, B::PublicWireAssignment) {
    let circuit = builder.build_circuit(constraints);
    let wire_assignment = builder.assign_witness(&circuit, witness);
    let pub_assignment = builder.assign_public_inputs(&circuit, public_inputs);
    (circuit, wire_assignment, pub_assignment)
}
