//! Constraint systems, as the proof layer reads them: versioned lists of
//! constraints over witness variables and public inputs.

use vstd::prelude::*;

verus! {

/// An algebraic constraint expression.
#[derive(Debug)]
pub enum ConstraintExpr {
    Constant(i64),
    BoolConstant(bool),
    WitnessRef(String),
    PublicInputRef(String),
    Eq(Box<ConstraintExpr>, Box<ConstraintExpr>),
    Neq(Box<ConstraintExpr>, Box<ConstraintExpr>),
    Lt(Box<ConstraintExpr>, Box<ConstraintExpr>),
    Le(Box<ConstraintExpr>, Box<ConstraintExpr>),
    Gt(Box<ConstraintExpr>, Box<ConstraintExpr>),
    Ge(Box<ConstraintExpr>, Box<ConstraintExpr>),
    Add(Box<ConstraintExpr>, Box<ConstraintExpr>),
    Sub(Box<ConstraintExpr>, Box<ConstraintExpr>),
    Mul(Box<ConstraintExpr>, Box<ConstraintExpr>),
    And(Box<ConstraintExpr>, Box<ConstraintExpr>),
    Or(Box<ConstraintExpr>, Box<ConstraintExpr>),
    IfThenElse(Box<ConstraintExpr>, Box<ConstraintExpr>, Box<ConstraintExpr>),
    FieldAccess(Box<ConstraintExpr>, String),
}

/// Category of a constraint (`Shape` is the structural category).
#[derive(Clone, Copy, Debug, PartialEq, Eq, Structural)]
pub enum ConstraintCategory {
    Shape,
    Semantic,
    Invariant,
    CarryOver,
    Branch,
}

/// Kind of a witness variable.
#[derive(Clone, Copy, Debug, PartialEq, Eq, Structural)]
pub enum WitnessVariableKind {
    Semantic,
    Auxiliary,
    Derived,
}

/// One constraint.
#[derive(Debug)]
pub struct Constraint {
    pub id: u64,
    pub category: ConstraintCategory,
    pub description: String,
    pub expr: ConstraintExpr,
}

/// A declared witness variable.
#[derive(Clone, Debug)]
pub struct WitnessVariable {
    pub name: String,
    pub kind: WitnessVariableKind,
    pub description: String,
}

/// A declared public input.
#[derive(Clone, Debug)]
pub struct PublicInputDecl {
    pub name: String,
    pub description: String,
}

/// A constraint system.
#[derive(Debug)]
pub struct ConstraintSystem {
    pub version: String,
    pub constraints: Vec<Constraint>,
    pub witness_variables: Vec<WitnessVariable>,
    pub public_inputs: Vec<PublicInputDecl>,
}

impl ConstraintSystem {
    /// An empty constraint system of the given version.
    pub fn new(version: &str) -> (cs: ConstraintSystem)
        ensures
            cs.version@ == version@,
            cs.constraints@.len() == 0,
            cs.witness_variables@.len() == 0,
            cs.public_inputs@.len() == 0,
    {
        ConstraintSystem {
            version: crate::text::owned(version),
            constraints: Vec::new(),
            witness_variables: Vec::new(),
            public_inputs: Vec::new(),
        }
    }

    /// Appends a constraint.
    pub fn add_constraint(&mut self, constraint: Constraint)
        ensures
            final(self).constraints@ == old(self).constraints@.push(constraint),
            final(self).version == old(self).version,
            final(self).witness_variables == old(self).witness_variables,
            final(self).public_inputs == old(self).public_inputs,
    {
        self.constraints.push(constraint);
    }

    /// Declares a witness variable.
    pub fn add_witness_variable(&mut self, variable: WitnessVariable)
        ensures
            final(self).witness_variables@ == old(self).witness_variables@.push(variable),
            final(self).version == old(self).version,
            final(self).constraints == old(self).constraints,
            final(self).public_inputs == old(self).public_inputs,
    {
        self.witness_variables.push(variable);
    }

    /// Declares a public input.
    pub fn add_public_input(&mut self, input: PublicInputDecl)
        ensures
            final(self).public_inputs@ == old(self).public_inputs@.push(input),
            final(self).version == old(self).version,
            final(self).constraints == old(self).constraints,
            final(self).witness_variables == old(self).witness_variables,
    {
        self.public_inputs.push(input);
    }
}

} // verus!
