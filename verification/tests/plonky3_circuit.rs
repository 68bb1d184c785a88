use vsel_proof::constraints::{
    Constraint, ConstraintCategory, ConstraintExpr, ConstraintSystem, PublicInputDecl,
    WitnessVariable, WitnessVariableKind,
};
use vsel_proof::goldilocks::{GoldilocksField, GOLDILOCKS_MODULUS};
use vsel_proof::plonky3_backend::Plonky3CircuitBuilder;
use vsel_proof::plonky3_circuit::{ArithOp, Plonky3Gate};

fn has_key(map: &[(String, usize)], name: &str) -> bool {
    map.iter().any(|(k, _)| k == name)
}


/// Build a minimal constraint system for testing.
fn minimal_constraint_system() -> ConstraintSystem {
    let mut cs = ConstraintSystem::new("1.0.0");

    cs.add_witness_variable(WitnessVariable {
        name: "x".to_string(),
        kind: WitnessVariableKind::Semantic,
        description: "test witness variable".to_string(),
    });

    cs.add_public_input(PublicInputDecl {
        name: "root_init".to_string(),
        description: "initial state commitment".to_string(),
    });

    cs.add_constraint(Constraint {
        id: 0,
        expr: ConstraintExpr::Eq(
            Box::new(ConstraintExpr::WitnessRef("x".to_string())),
            Box::new(ConstraintExpr::Constant(42)),
        ),
        category: ConstraintCategory::Shape,
        description: "x = 42".to_string(),
    });

    cs
}

// -----------------------------------------------------------------------
// build_circuit — basic tests
// -----------------------------------------------------------------------

#[test]
fn test_build_circuit_minimal() {
    let builder = Plonky3CircuitBuilder;
    let cs = minimal_constraint_system();
    let circuit = builder.build_circuit(&cs);

    assert_eq!(circuit.num_private_inputs, 1, "one witness variable: x");
    assert_eq!(circuit.num_public_inputs, 1, "one public input: root_init");
    assert!(!circuit.gates.is_empty(), "should have gates for Eq(WitnessRef, Constant)");
    assert_eq!(circuit.constraint_version, "1.0.0");
}

#[test]
fn test_build_circuit_empty_constraint_system() {
    let builder = Plonky3CircuitBuilder;
    let cs = ConstraintSystem::new("1.0.0");
    let circuit = builder.build_circuit(&cs);

    assert_eq!(circuit.num_private_inputs, 0);
    assert_eq!(circuit.num_public_inputs, 0);
    assert!(circuit.gates.is_empty());
}

#[test]
fn test_build_circuit_witness_wire_allocation() {
    let builder = Plonky3CircuitBuilder;
    let cs = minimal_constraint_system();
    let circuit = builder.build_circuit(&cs);

    assert!(has_key(&circuit.witness_wire_map, "x"));
    assert!(has_key(&circuit.public_input_wire_map, "root_init"));
}

// -----------------------------------------------------------------------
// Gate mapping tests — one per ConstraintExpr variant
// -----------------------------------------------------------------------

#[test]
fn test_gate_constant() {
    let builder = Plonky3CircuitBuilder;
    let mut cs = ConstraintSystem::new("1.0.0");
    cs.add_constraint(Constraint {
        id: 0,
        expr: ConstraintExpr::Constant(99),
        category: ConstraintCategory::Shape,
        description: "constant 99".to_string(),
    });
    let circuit = builder.build_circuit(&cs);

    let has_constant = circuit.gates.iter().any(|g| matches!(
        g,
        Plonky3Gate::Constant { value, .. } if *value == GoldilocksField(99)
    ));
    assert!(has_constant, "should have a Constant gate with value 99");
}

#[test]
fn test_gate_bool_constant_true() {
    let builder = Plonky3CircuitBuilder;
    let mut cs = ConstraintSystem::new("1.0.0");
    cs.add_constraint(Constraint {
        id: 0,
        expr: ConstraintExpr::BoolConstant(true),
        category: ConstraintCategory::Shape,
        description: "true".to_string(),
    });
    let circuit = builder.build_circuit(&cs);

    let has_one = circuit.gates.iter().any(|g| matches!(
        g,
        Plonky3Gate::Constant { value, .. } if *value == GoldilocksField::one()
    ));
    assert!(has_one, "BoolConstant(true) should produce Constant(1)");
}

#[test]
fn test_gate_bool_constant_false() {
    let builder = Plonky3CircuitBuilder;
    let mut cs = ConstraintSystem::new("1.0.0");
    cs.add_constraint(Constraint {
        id: 0,
        expr: ConstraintExpr::BoolConstant(false),
        category: ConstraintCategory::Shape,
        description: "false".to_string(),
    });
    let circuit = builder.build_circuit(&cs);

    let has_zero = circuit.gates.iter().any(|g| matches!(
        g,
        Plonky3Gate::Constant { value, .. } if *value == GoldilocksField::zero()
    ));
    assert!(has_zero, "BoolConstant(false) should produce Constant(0)");
}

#[test]
fn test_gate_equality() {
    let builder = Plonky3CircuitBuilder;
    let mut cs = ConstraintSystem::new("1.0.0");
    cs.add_witness_variable(WitnessVariable {
        name: "a".to_string(),
        kind: WitnessVariableKind::Semantic,
        description: "a".to_string(),
    });
    cs.add_witness_variable(WitnessVariable {
        name: "b".to_string(),
        kind: WitnessVariableKind::Semantic,
        description: "b".to_string(),
    });
    cs.add_constraint(Constraint {
        id: 0,
        expr: ConstraintExpr::Eq(
            Box::new(ConstraintExpr::WitnessRef("a".to_string())),
            Box::new(ConstraintExpr::WitnessRef("b".to_string())),
        ),
        category: ConstraintCategory::Shape,
        description: "a = b".to_string(),
    });
    let circuit = builder.build_circuit(&cs);

    let has_equality = circuit.gates.iter().any(|g| matches!(g, Plonky3Gate::Equality { .. }));
    assert!(has_equality, "Eq should produce an Equality gate");
}

#[test]
fn test_gate_add() {
    let builder = Plonky3CircuitBuilder;
    let mut cs = ConstraintSystem::new("1.0.0");
    cs.add_constraint(Constraint {
        id: 0,
        expr: ConstraintExpr::Add(
            Box::new(ConstraintExpr::Constant(1)),
            Box::new(ConstraintExpr::Constant(2)),
        ),
        category: ConstraintCategory::Shape,
        description: "1 + 2".to_string(),
    });
    let circuit = builder.build_circuit(&cs);

    let has_add = circuit.gates.iter().any(|g| matches!(
        g,
        Plonky3Gate::Arithmetic { op: ArithOp::Add, .. }
    ));
    assert!(has_add, "Add should produce an Arithmetic(Add) gate");
}

#[test]
fn test_gate_sub() {
    let builder = Plonky3CircuitBuilder;
    let mut cs = ConstraintSystem::new("1.0.0");
    cs.add_constraint(Constraint {
        id: 0,
        expr: ConstraintExpr::Sub(
            Box::new(ConstraintExpr::Constant(5)),
            Box::new(ConstraintExpr::Constant(3)),
        ),
        category: ConstraintCategory::Shape,
        description: "5 - 3".to_string(),
    });
    let circuit = builder.build_circuit(&cs);

    let has_sub = circuit.gates.iter().any(|g| matches!(
        g,
        Plonky3Gate::Arithmetic { op: ArithOp::Sub, .. }
    ));
    assert!(has_sub, "Sub should produce an Arithmetic(Sub) gate");
}

#[test]
fn test_gate_mul() {
    let builder = Plonky3CircuitBuilder;
    let mut cs = ConstraintSystem::new("1.0.0");
    cs.add_constraint(Constraint {
        id: 0,
        expr: ConstraintExpr::Mul(
            Box::new(ConstraintExpr::Constant(3)),
            Box::new(ConstraintExpr::Constant(7)),
        ),
        category: ConstraintCategory::Shape,
        description: "3 * 7".to_string(),
    });
    let circuit = builder.build_circuit(&cs);

    let has_mul = circuit.gates.iter().any(|g| matches!(
        g,
        Plonky3Gate::Arithmetic { op: ArithOp::Mul, .. }
    ));
    assert!(has_mul, "Mul should produce an Arithmetic(Mul) gate");
}

#[test]
fn test_gate_and() {
    let builder = Plonky3CircuitBuilder;
    let mut cs = ConstraintSystem::new("1.0.0");
    cs.add_constraint(Constraint {
        id: 0,
        expr: ConstraintExpr::And(
            Box::new(ConstraintExpr::BoolConstant(true)),
            Box::new(ConstraintExpr::BoolConstant(false)),
        ),
        category: ConstraintCategory::Shape,
        description: "true AND false".to_string(),
    });
    let circuit = builder.build_circuit(&cs);

    // And produces Boolean constraints + Arithmetic(Mul).
    let has_boolean = circuit.gates.iter().any(|g| matches!(g, Plonky3Gate::Boolean { .. }));
    let has_mul = circuit.gates.iter().any(|g| matches!(
        g,
        Plonky3Gate::Arithmetic { op: ArithOp::Mul, .. }
    ));
    assert!(has_boolean, "And should produce Boolean constraint gates");
    assert!(has_mul, "And should produce Arithmetic(Mul) gate for a*b");
}

#[test]
fn test_gate_or() {
    let builder = Plonky3CircuitBuilder;
    let mut cs = ConstraintSystem::new("1.0.0");
    cs.add_constraint(Constraint {
        id: 0,
        expr: ConstraintExpr::Or(
            Box::new(ConstraintExpr::BoolConstant(true)),
            Box::new(ConstraintExpr::BoolConstant(false)),
        ),
        category: ConstraintCategory::Shape,
        description: "true OR false".to_string(),
    });
    let circuit = builder.build_circuit(&cs);

    // Or produces Boolean constraints + Add + Mul + Sub.
    let has_boolean = circuit.gates.iter().any(|g| matches!(g, Plonky3Gate::Boolean { .. }));
    let has_add = circuit.gates.iter().any(|g| matches!(
        g,
        Plonky3Gate::Arithmetic { op: ArithOp::Add, .. }
    ));
    assert!(has_boolean, "Or should produce Boolean constraint gates");
    assert!(has_add, "Or should produce Arithmetic(Add) gate for a+b");
}

#[test]
fn test_gate_lt() {
    let builder = Plonky3CircuitBuilder;
    let mut cs = ConstraintSystem::new("1.0.0");
    cs.add_constraint(Constraint {
        id: 0,
        expr: ConstraintExpr::Lt(
            Box::new(ConstraintExpr::Constant(3)),
            Box::new(ConstraintExpr::Constant(10)),
        ),
        category: ConstraintCategory::Shape,
        description: "3 < 10".to_string(),
    });
    let circuit = builder.build_circuit(&cs);

    let has_range = circuit.gates.iter().any(|g| matches!(g, Plonky3Gate::RangeProof { .. }));
    assert!(has_range, "Lt should produce a RangeProof gate");
}

#[test]
fn test_gate_le() {
    let builder = Plonky3CircuitBuilder;
    let mut cs = ConstraintSystem::new("1.0.0");
    cs.add_constraint(Constraint {
        id: 0,
        expr: ConstraintExpr::Le(
            Box::new(ConstraintExpr::Constant(3)),
            Box::new(ConstraintExpr::Constant(10)),
        ),
        category: ConstraintCategory::Shape,
        description: "3 <= 10".to_string(),
    });
    let circuit = builder.build_circuit(&cs);

    let has_range = circuit.gates.iter().any(|g| matches!(g, Plonky3Gate::RangeProof { .. }));
    assert!(has_range, "Le should produce a RangeProof gate");
}

#[test]
fn test_gate_gt() {
    let builder = Plonky3CircuitBuilder;
    let mut cs = ConstraintSystem::new("1.0.0");
    cs.add_constraint(Constraint {
        id: 0,
        expr: ConstraintExpr::Gt(
            Box::new(ConstraintExpr::Constant(10)),
            Box::new(ConstraintExpr::Constant(3)),
        ),
        category: ConstraintCategory::Shape,
        description: "10 > 3".to_string(),
    });
    let circuit = builder.build_circuit(&cs);

    let has_range = circuit.gates.iter().any(|g| matches!(g, Plonky3Gate::RangeProof { .. }));
    assert!(has_range, "Gt should produce a RangeProof gate");
}

#[test]
fn test_gate_ge() {
    let builder = Plonky3CircuitBuilder;
    let mut cs = ConstraintSystem::new("1.0.0");
    cs.add_constraint(Constraint {
        id: 0,
        expr: ConstraintExpr::Ge(
            Box::new(ConstraintExpr::Constant(10)),
            Box::new(ConstraintExpr::Constant(3)),
        ),
        category: ConstraintCategory::Shape,
        description: "10 >= 3".to_string(),
    });
    let circuit = builder.build_circuit(&cs);

    let has_range = circuit.gates.iter().any(|g| matches!(g, Plonky3Gate::RangeProof { .. }));
    assert!(has_range, "Ge should produce a RangeProof gate");
}

#[test]
fn test_gate_neq() {
    let builder = Plonky3CircuitBuilder;
    let mut cs = ConstraintSystem::new("1.0.0");
    cs.add_constraint(Constraint {
        id: 0,
        expr: ConstraintExpr::Neq(
            Box::new(ConstraintExpr::Constant(5)),
            Box::new(ConstraintExpr::Constant(3)),
        ),
        category: ConstraintCategory::Shape,
        description: "5 != 3".to_string(),
    });
    let circuit = builder.build_circuit(&cs);

    // Neq produces Sub + Mul + Constant(1) + Equality.
    let has_sub = circuit.gates.iter().any(|g| matches!(
        g,
        Plonky3Gate::Arithmetic { op: ArithOp::Sub, .. }
    ));
    let has_mul = circuit.gates.iter().any(|g| matches!(
        g,
        Plonky3Gate::Arithmetic { op: ArithOp::Mul, .. }
    ));
    let has_equality = circuit.gates.iter().any(|g| matches!(g, Plonky3Gate::Equality { .. }));
    assert!(has_sub, "Neq should produce Sub gate for a-b");
    assert!(has_mul, "Neq should produce Mul gate for diff*inv");
    assert!(has_equality, "Neq should produce Equality gate for product=1");
}

#[test]
fn test_gate_if_then_else() {
    let builder = Plonky3CircuitBuilder;
    let mut cs = ConstraintSystem::new("1.0.0");
    cs.add_constraint(Constraint {
        id: 0,
        expr: ConstraintExpr::IfThenElse(
            Box::new(ConstraintExpr::BoolConstant(true)),
            Box::new(ConstraintExpr::Constant(10)),
            Box::new(ConstraintExpr::Constant(20)),
        ),
        category: ConstraintCategory::Branch,
        description: "if true then 10 else 20".to_string(),
    });
    let circuit = builder.build_circuit(&cs);

    let has_selector = circuit.gates.iter().any(|g| matches!(g, Plonky3Gate::Selector { .. }));
    let has_boolean = circuit.gates.iter().any(|g| matches!(g, Plonky3Gate::Boolean { .. }));
    assert!(has_selector, "IfThenElse should produce a Selector gate");
    assert!(has_boolean, "IfThenElse should constrain condition to boolean");
}

#[test]
fn test_gate_field_access() {
    let builder = Plonky3CircuitBuilder;
    let mut cs = ConstraintSystem::new("1.0.0");
    cs.add_witness_variable(WitnessVariable {
        name: "state".to_string(),
        kind: WitnessVariableKind::Semantic,
        description: "state".to_string(),
    });
    cs.add_constraint(Constraint {
        id: 0,
        expr: ConstraintExpr::FieldAccess(
            Box::new(ConstraintExpr::WitnessRef("state".to_string())),
            "balance".to_string(),
        ),
        category: ConstraintCategory::Shape,
        description: "state.balance".to_string(),
    });
    let circuit = builder.build_circuit(&cs);

    // FieldAccess creates a derived witness wire.
    assert!(
        circuit.witness_wire_map.len() >= 2,
        "FieldAccess should create a derived witness wire in addition to 'state'"
    );
}

// -----------------------------------------------------------------------
// Complex constraint system tests
// -----------------------------------------------------------------------

#[test]
fn test_complex_constraint_system() {
    let builder = Plonky3CircuitBuilder;
    let mut cs = ConstraintSystem::new("1.0.0");

    cs.add_witness_variable(WitnessVariable {
        name: "balance_pre".to_string(),
        kind: WitnessVariableKind::Semantic,
        description: "pre-state balance".to_string(),
    });
    cs.add_witness_variable(WitnessVariable {
        name: "balance_post".to_string(),
        kind: WitnessVariableKind::Semantic,
        description: "post-state balance".to_string(),
    });
    cs.add_witness_variable(WitnessVariable {
        name: "amount".to_string(),
        kind: WitnessVariableKind::Semantic,
        description: "transfer amount".to_string(),
    });
    cs.add_public_input(PublicInputDecl {
        name: "root_init".to_string(),
        description: "initial state root".to_string(),
    });
    cs.add_public_input(PublicInputDecl {
        name: "root_final".to_string(),
        description: "final state root".to_string(),
    });

    // balance_pre + amount = balance_post
    cs.add_constraint(Constraint {
        id: 0,
        expr: ConstraintExpr::Eq(
            Box::new(ConstraintExpr::Add(
                Box::new(ConstraintExpr::WitnessRef("balance_pre".to_string())),
                Box::new(ConstraintExpr::WitnessRef("amount".to_string())),
            )),
            Box::new(ConstraintExpr::WitnessRef("balance_post".to_string())),
        ),
        category: ConstraintCategory::Shape,
        description: "balance update".to_string(),
    });

    // amount > 0
    cs.add_constraint(Constraint {
        id: 1,
        expr: ConstraintExpr::Gt(
            Box::new(ConstraintExpr::WitnessRef("amount".to_string())),
            Box::new(ConstraintExpr::Constant(0)),
        ),
        category: ConstraintCategory::Semantic,
        description: "positive amount".to_string(),
    });

    let circuit = builder.build_circuit(&cs);

    assert_eq!(circuit.num_private_inputs, 3);
    assert_eq!(circuit.num_public_inputs, 2);
    assert!(circuit.gates.len() >= 3, "should have multiple gates");

    // Verify wire maps contain all declared variables.
    assert!(has_key(&circuit.witness_wire_map, "balance_pre"));
    assert!(has_key(&circuit.witness_wire_map, "balance_post"));
    assert!(has_key(&circuit.witness_wire_map, "amount"));
    assert!(has_key(&circuit.public_input_wire_map, "root_init"));
    assert!(has_key(&circuit.public_input_wire_map, "root_final"));
}

// -----------------------------------------------------------------------
// try_build_circuit — error reporting (Req 2.9)
// -----------------------------------------------------------------------

#[test]
fn test_try_build_circuit_success() {
    let builder = Plonky3CircuitBuilder;
    let cs = minimal_constraint_system();
    let result = builder.try_build_circuit(&cs);
    assert!(result.is_ok(), "minimal constraint system should compile successfully");
}

#[test]
fn test_try_build_circuit_empty() {
    let builder = Plonky3CircuitBuilder;
    let cs = ConstraintSystem::new("1.0.0");
    let result = builder.try_build_circuit(&cs);
    assert!(result.is_ok(), "empty constraint system should compile successfully");
}

// -----------------------------------------------------------------------
// Wire assignment tests
// -----------------------------------------------------------------------

#[test]
fn test_circuit_build_deterministic() {
    let builder = Plonky3CircuitBuilder;
    let cs = minimal_constraint_system();

    let circuit1 = builder.build_circuit(&cs);
    let circuit2 = builder.build_circuit(&cs);

    assert_eq!(circuit1.gates.len(), circuit2.gates.len());
    assert_eq!(circuit1.num_private_inputs, circuit2.num_private_inputs);
    assert_eq!(circuit1.num_public_inputs, circuit2.num_public_inputs);
    assert_eq!(circuit1.constraint_version, circuit2.constraint_version);

    // Gates should be identical.
    for (g1, g2) in circuit1.gates.iter().zip(circuit2.gates.iter()) {
        assert_eq!(g1, g2, "circuit build must be deterministic");
    }
}

// -----------------------------------------------------------------------
// Negative constant test
// -----------------------------------------------------------------------

#[test]
fn test_negative_constant() {
    let builder = Plonky3CircuitBuilder;
    let mut cs = ConstraintSystem::new("1.0.0");
    cs.add_constraint(Constraint {
        id: 0,
        expr: ConstraintExpr::Constant(-1),
        category: ConstraintCategory::Shape,
        description: "constant -1".to_string(),
    });
    let circuit = builder.build_circuit(&cs);

    // -1 mod p = p - 1
    let has_p_minus_1 = circuit.gates.iter().any(|g| matches!(
        g,
        Plonky3Gate::Constant { value, .. }
            if *value == GoldilocksField(GOLDILOCKS_MODULUS - 1)
    ));
    assert!(has_p_minus_1, "Constant(-1) should map to p-1 in Goldilocks field");
}
