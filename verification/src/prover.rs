//! Proof artifacts and the byte encodings the prover commits to.

use vstd::prelude::*;

use crate::cairo_stark::{hashed_str, observables_commit_bytes};
use crate::codec::append_bytes;
use crate::constraints::{
    Constraint, ConstraintCategory, ConstraintExpr, ConstraintSystem, WitnessVariableKind,
};
use crate::encoding::{push_u32_le, push_u64_le, sha3_256, sha3_256_spec, u32_le, u64_le};
use crate::public_inputs::{PublicInputs, PublicInputsModel, Trace};
use crate::text::{concat2, owned, utf8_bytes};
use crate::types::{observables_view, DomainTag, Observable};
use crate::witness::Witness;

verus! {

// ---------------------------------------------------------------------------
// Errors
// ---------------------------------------------------------------------------

/// Failure of proof generation.
#[derive(Debug)]
pub enum ProverError {
    EmptyTrace,
    InvalidTrace(String),
    ConstraintViolation,
    WitnessConstructionFailed(String),
    AuxiliaryDependenceDetected,
    ProofGenerationFailed(String),
}

/// Display text of a prover error.
pub open spec fn prover_error_text(e: ProverError) -> Seq<char> {
    match e {
        ProverError::EmptyTrace => "empty trace: cannot generate proof for a trace with no entries"@,
        ProverError::InvalidTrace(s) => "invalid trace: "@ + s@,
        ProverError::ConstraintViolation =>
            "constraint violation: trace does not satisfy constraint system"@,
        ProverError::WitnessConstructionFailed(s) => "witness construction failed: "@ + s@,
        ProverError::AuxiliaryDependenceDetected =>
            "auxiliary dependence detected: auxiliary variables influence semantic outcome"@,
        ProverError::ProofGenerationFailed(s) => "proof generation failed: "@ + s@,
    }
}

impl ProverError {
    /// The error's display text.
    pub fn message(&self) -> (m: String)
        ensures
            m@ == prover_error_text(*self),
    {
        match self {
            ProverError::EmptyTrace => owned(
                "empty trace: cannot generate proof for a trace with no entries",
            ),
            ProverError::InvalidTrace(s) => concat2("invalid trace: ", s.as_str()),
            ProverError::ConstraintViolation => owned(
                "constraint violation: trace does not satisfy constraint system",
            ),
            ProverError::WitnessConstructionFailed(s) => concat2(
                "witness construction failed: ",
                s.as_str(),
            ),
            ProverError::AuxiliaryDependenceDetected => owned(
                "auxiliary dependence detected: auxiliary variables influence semantic outcome",
            ),
            ProverError::ProofGenerationFailed(s) => concat2("proof generation failed: ", s.as_str()),
        }
    }
}

// ---------------------------------------------------------------------------
// Proof artifacts
// ---------------------------------------------------------------------------

/// Commitments binding a proof to an execution.
#[derive(Clone, Copy, Debug, PartialEq, Eq)]
pub struct ProofCommitments {
    /// Commitment to the full execution trace.
    pub trace_commitment: crate::types::Hash,
    /// Commitment to the witness.
    pub witness_commitment: crate::types::Hash,
    /// Commitment to the constraint system.
    pub constraint_commitment: crate::types::Hash,
}

/// Context in which a proof was generated.
#[derive(Clone, Debug, PartialEq, Eq)]
pub struct ProofMetadata {
    pub prover_version: String,
    pub timestamp: u64,
    pub domain: DomainTag,
    pub proof_system: String,
}

/// A proof: commitments, proof data, public inputs and metadata.
#[derive(Clone, Debug)]
pub struct Proof {
    pub commitments: ProofCommitments,
    pub proof_data: Vec<u8>,
    pub public_inputs: PublicInputs,
    pub metadata: ProofMetadata,
}

/// Bytes the placeholder proof data hashes: the three commitments, the
/// roots, the observables with their complete content, the domain and the
/// version.
pub open spec fn proof_data_preimage(c: ProofCommitments, p: PublicInputsModel) -> Seq<u8> {
    c.trace_commitment@ + c.witness_commitment@ + c.constraint_commitment@ + p.root_init
        + p.root_final + u64_le(p.observables.len() as u64) + observables_commit_bytes(
        p.observables,
    ) + p.domain + u32_le(p.version.major) + u32_le(p.version.minor) + u32_le(p.version.patch)
}

/// Placeholder proof data: SHA3-256 over the commitments and the public
/// inputs.
pub fn generate_proof_data(commitments: &ProofCommitments, public_inputs: &PublicInputs) -> (d:
    Vec<u8>)
    ensures
        d@ == sha3_256_spec(proof_data_preimage(*commitments, public_inputs@)),
        d@.len() == 32,
{
    let mut buf: Vec<u8> = Vec::new();
    append_bytes(&mut buf, commitments.trace_commitment.0.as_slice());
    append_bytes(&mut buf, commitments.witness_commitment.0.as_slice());
    append_bytes(&mut buf, commitments.constraint_commitment.0.as_slice());
    append_bytes(&mut buf, public_inputs.root_init.0.as_slice());
    append_bytes(&mut buf, public_inputs.root_final.0.as_slice());
    push_u64_le(&mut buf, public_inputs.observables.len() as u64);
    crate::cairo_stark::append_observables(&mut buf, public_inputs.observables.as_slice());
    append_bytes(&mut buf, public_inputs.domain.0.0.as_slice());
    push_u32_le(&mut buf, public_inputs.version.major);
    push_u32_le(&mut buf, public_inputs.version.minor);
    push_u32_le(&mut buf, public_inputs.version.patch);
    assert(buf@ =~= proof_data_preimage(*commitments, public_inputs@));
    let d = sha3_256(buf.as_slice());
    let mut out: Vec<u8> = Vec::new();
    append_bytes(&mut out, d.as_slice());
    out
}

// ---------------------------------------------------------------------------
// Canonical constraint and witness encodings
// ---------------------------------------------------------------------------

/// Byte tag of a constraint category.
pub open spec fn category_tag(c: ConstraintCategory) -> u8 {
    match c {
        ConstraintCategory::Shape => 0,
        ConstraintCategory::Semantic => 1,
        ConstraintCategory::Invariant => 2,
        ConstraintCategory::CarryOver => 3,
        ConstraintCategory::Branch => 4,
    }
}

/// Byte tag of a witness variable kind.
pub open spec fn kind_tag(k: WitnessVariableKind) -> u8 {
    match k {
        WitnessVariableKind::Semantic => 0,
        WitnessVariableKind::Auxiliary => 1,
        WitnessVariableKind::Derived => 2,
    }
}

fn encode_constraint_category(category: ConstraintCategory) -> (t: u8)
    ensures
        t == category_tag(category),
{
    match category {
        ConstraintCategory::Shape => 0,
        ConstraintCategory::Semantic => 1,
        ConstraintCategory::Invariant => 2,
        ConstraintCategory::CarryOver => 3,
        ConstraintCategory::Branch => 4,
    }
}

fn encode_witness_kind(kind: WitnessVariableKind) -> (t: u8)
    ensures
        t == kind_tag(kind),
{
    match kind {
        WitnessVariableKind::Semantic => 0,
        WitnessVariableKind::Auxiliary => 1,
        WitnessVariableKind::Derived => 2,
    }
}

/// Little-endian bytes of an `i64` (two's complement).
pub open spec fn i64_le(v: i64) -> Seq<u8> {
    u64_le(v as u64)
}

/// Prefix-free encoding of a constraint expression.
pub open spec fn expr_bytes(e: ConstraintExpr) -> Seq<u8>
    decreases e,
{
    match e {
        ConstraintExpr::Constant(v) => seq![0u8] + i64_le(v),
        ConstraintExpr::BoolConstant(b) => seq![1u8, if b { 1u8 } else { 0u8 }],
        ConstraintExpr::WitnessRef(name) => seq![2u8] + hashed_str(name@),
        ConstraintExpr::PublicInputRef(name) => seq![3u8] + hashed_str(name@),
        ConstraintExpr::Eq(a, b) => seq![4u8] + expr_bytes(*a) + expr_bytes(*b),
        ConstraintExpr::Neq(a, b) => seq![5u8] + expr_bytes(*a) + expr_bytes(*b),
        ConstraintExpr::Lt(a, b) => seq![6u8] + expr_bytes(*a) + expr_bytes(*b),
        ConstraintExpr::Le(a, b) => seq![7u8] + expr_bytes(*a) + expr_bytes(*b),
        ConstraintExpr::Gt(a, b) => seq![8u8] + expr_bytes(*a) + expr_bytes(*b),
        ConstraintExpr::Ge(a, b) => seq![9u8] + expr_bytes(*a) + expr_bytes(*b),
        ConstraintExpr::Add(a, b) => seq![10u8] + expr_bytes(*a) + expr_bytes(*b),
        ConstraintExpr::Sub(a, b) => seq![11u8] + expr_bytes(*a) + expr_bytes(*b),
        ConstraintExpr::Mul(a, b) => seq![12u8] + expr_bytes(*a) + expr_bytes(*b),
        ConstraintExpr::And(a, b) => seq![13u8] + expr_bytes(*a) + expr_bytes(*b),
        ConstraintExpr::Or(a, b) => seq![14u8] + expr_bytes(*a) + expr_bytes(*b),
        ConstraintExpr::IfThenElse(c, t, f) => seq![15u8] + expr_bytes(*c) + expr_bytes(*t)
            + expr_bytes(*f),
        ConstraintExpr::FieldAccess(base, field) => seq![16u8] + expr_bytes(*base) + hashed_str(
            field@,
        ),
    }
}

fn encode_string(buf: &mut Vec<u8>, value: &str)
    ensures
        final(buf)@ == old(buf)@ + hashed_str(value@),
{
    let b = value.as_bytes();
    push_u64_le(buf, b.len() as u64);
    append_bytes(buf, b);
    assert(final(buf)@ =~= old(buf)@ + hashed_str(value@));
}

fn encode_constraint_expr(buf: &mut Vec<u8>, expr: &ConstraintExpr)
    ensures
        final(buf)@ == old(buf)@ + expr_bytes(*expr),
    decreases expr,
{
    match expr {
        ConstraintExpr::Constant(value) => {
            buf.push(0);
            push_u64_le(buf, *value as u64);
        },
        ConstraintExpr::BoolConstant(value) => {
            buf.push(1);
            buf.push(if *value {
                1
            } else {
                0
            });
        },
        ConstraintExpr::WitnessRef(name) => {
            buf.push(2);
            encode_string(buf, name.as_str());
        },
        ConstraintExpr::PublicInputRef(name) => {
            buf.push(3);
            encode_string(buf, name.as_str());
        },
        ConstraintExpr::Eq(l, r) => {
            buf.push(4);
            encode_constraint_expr(buf, l);
            encode_constraint_expr(buf, r);
        },
        ConstraintExpr::Neq(l, r) => {
            buf.push(5);
            encode_constraint_expr(buf, l);
            encode_constraint_expr(buf, r);
        },
        ConstraintExpr::Lt(l, r) => {
            buf.push(6);
            encode_constraint_expr(buf, l);
            encode_constraint_expr(buf, r);
        },
        ConstraintExpr::Le(l, r) => {
            buf.push(7);
            encode_constraint_expr(buf, l);
            encode_constraint_expr(buf, r);
        },
        ConstraintExpr::Gt(l, r) => {
            buf.push(8);
            encode_constraint_expr(buf, l);
            encode_constraint_expr(buf, r);
        },
        ConstraintExpr::Ge(l, r) => {
            buf.push(9);
            encode_constraint_expr(buf, l);
            encode_constraint_expr(buf, r);
        },
        ConstraintExpr::Add(l, r) => {
            buf.push(10);
            encode_constraint_expr(buf, l);
            encode_constraint_expr(buf, r);
        },
        ConstraintExpr::Sub(l, r) => {
            buf.push(11);
            encode_constraint_expr(buf, l);
            encode_constraint_expr(buf, r);
        },
        ConstraintExpr::Mul(l, r) => {
            buf.push(12);
            encode_constraint_expr(buf, l);
            encode_constraint_expr(buf, r);
        },
        ConstraintExpr::And(l, r) => {
            buf.push(13);
            encode_constraint_expr(buf, l);
            encode_constraint_expr(buf, r);
        },
        ConstraintExpr::Or(l, r) => {
            buf.push(14);
            encode_constraint_expr(buf, l);
            encode_constraint_expr(buf, r);
        },
        ConstraintExpr::IfThenElse(c, t, f) => {
            buf.push(15);
            encode_constraint_expr(buf, c);
            encode_constraint_expr(buf, t);
            encode_constraint_expr(buf, f);
        },
        ConstraintExpr::FieldAccess(base, field) => {
            buf.push(16);
            encode_constraint_expr(buf, base);
            encode_string(buf, field.as_str());
        },
    }
    assert(final(buf)@ =~= old(buf)@ + expr_bytes(*expr));
}


/// Bytes of one constraint.
pub open spec fn constraint_bytes(c: Constraint) -> Seq<u8> {
    u64_le(c.id) + seq![category_tag(c.category)] + hashed_str(c.description@) + expr_bytes(c.expr)
}

/// Bytes of a list of constraints, in order.
pub open spec fn constraints_bytes(s: Seq<Constraint>) -> Seq<u8>
    decreases s.len(),
{
    if s.len() == 0 {
        Seq::empty()
    } else {
        constraints_bytes(s.drop_last()) + constraint_bytes(s.last())
    }
}

/// Bytes of the declared witness variables, in order.
pub open spec fn witness_vars_bytes(s: Seq<crate::constraints::WitnessVariable>) -> Seq<u8>
    decreases s.len(),
{
    if s.len() == 0 {
        Seq::empty()
    } else {
        witness_vars_bytes(s.drop_last()) + hashed_str(s.last().name@) + seq![kind_tag(s.last().kind)]
            + hashed_str(s.last().description@)
    }
}

/// Bytes of the declared public inputs, in order.
pub open spec fn public_decls_bytes(s: Seq<crate::constraints::PublicInputDecl>) -> Seq<u8>
    decreases s.len(),
{
    if s.len() == 0 {
        Seq::empty()
    } else {
        public_decls_bytes(s.drop_last()) + hashed_str(s.last().name@) + hashed_str(
            s.last().description@,
        )
    }
}

/// The canonical encoding of a constraint system, which its commitment
/// hashes under the proof domain.
pub open spec fn constraint_system_bytes(cs: ConstraintSystem) -> Seq<u8> {
    hashed_str(cs.version@) + u64_le(cs.constraints@.len() as u64) + u64_le(
        cs.witness_variables@.len() as u64,
    ) + u64_le(cs.public_inputs@.len() as u64) + constraints_bytes(cs.constraints@)
        + witness_vars_bytes(cs.witness_variables@) + public_decls_bytes(cs.public_inputs@)
}

/// The canonical encoding of a constraint system.
pub fn canonical_constraint_data(constraints: &ConstraintSystem) -> (data: Vec<u8>)
    ensures
        data@ == constraint_system_bytes(*constraints),
{
    let mut data: Vec<u8> = Vec::new();
    encode_string(&mut data, constraints.version.as_str());
    push_u64_le(&mut data, constraints.constraints.len() as u64);
    push_u64_le(&mut data, constraints.witness_variables.len() as u64);
    push_u64_le(&mut data, constraints.public_inputs.len() as u64);
    let ghost m0 = data@;
    let mut i: usize = 0;
    while i < constraints.constraints.len()
        invariant
            i <= constraints.constraints@.len(),
            data@ == m0 + constraints_bytes(constraints.constraints@.subrange(0, i as int)),
        decreases constraints.constraints.len() - i,
    {
        let c = &constraints.constraints[i];
        push_u64_le(&mut data, c.id);
        data.push(encode_constraint_category(c.category));
        encode_string(&mut data, c.description.as_str());
        encode_constraint_expr(&mut data, &c.expr);
        proof {
            let s = constraints.constraints@.subrange(0, i + 1);
            assert(s.drop_last() =~= constraints.constraints@.subrange(0, i as int));
        }
        i += 1;
        assert(data@ =~= m0 + constraints_bytes(constraints.constraints@.subrange(0, i as int)));
    }
    assert(constraints.constraints@.subrange(0, i as int) =~= constraints.constraints@);
    let ghost m1 = data@;
    let mut j: usize = 0;
    while j < constraints.witness_variables.len()
        invariant
            j <= constraints.witness_variables@.len(),
            data@ == m1 + witness_vars_bytes(constraints.witness_variables@.subrange(0, j as int)),
        decreases constraints.witness_variables.len() - j,
    {
        let v = &constraints.witness_variables[j];
        encode_string(&mut data, v.name.as_str());
        data.push(encode_witness_kind(v.kind));
        encode_string(&mut data, v.description.as_str());
        proof {
            let s = constraints.witness_variables@.subrange(0, j + 1);
            assert(s.drop_last() =~= constraints.witness_variables@.subrange(0, j as int));
        }
        j += 1;
        assert(data@ =~= m1 + witness_vars_bytes(constraints.witness_variables@.subrange(0, j as int)));
    }
    assert(constraints.witness_variables@.subrange(0, j as int) =~= constraints.witness_variables@);
    let ghost m2 = data@;
    let mut k: usize = 0;
    while k < constraints.public_inputs.len()
        invariant
            k <= constraints.public_inputs@.len(),
            data@ == m2 + public_decls_bytes(constraints.public_inputs@.subrange(0, k as int)),
        decreases constraints.public_inputs.len() - k,
    {
        let p = &constraints.public_inputs[k];
        encode_string(&mut data, p.name.as_str());
        encode_string(&mut data, p.description.as_str());
        proof {
            let s = constraints.public_inputs@.subrange(0, k + 1);
            assert(s.drop_last() =~= constraints.public_inputs@.subrange(0, k as int));
        }
        k += 1;
        assert(data@ =~= m2 + public_decls_bytes(constraints.public_inputs@.subrange(0, k as int)));
    }
    assert(constraints.public_inputs@.subrange(0, k as int) =~= constraints.public_inputs@);
    assert(data@ =~= constraint_system_bytes(*constraints));
    data
}

/// Bytes of the witness inputs, in order.
pub open spec fn witness_inputs_bytes(s: Seq<crate::witness::WitnessInput>) -> Seq<u8>
    decreases s.len(),
{
    if s.len() == 0 {
        Seq::empty()
    } else {
        witness_inputs_bytes(s.drop_last()) + utf8_bytes(s.last().payload_type@) + s.last().data@
            + u64_le(s.last().nonce)
    }
}

/// Bytes of the auxiliary values, in order.
pub open spec fn aux_bytes(s: Seq<(String, Vec<u8>)>) -> Seq<u8>
    decreases s.len(),
{
    if s.len() == 0 {
        Seq::empty()
    } else {
        aux_bytes(s.drop_last()) + utf8_bytes(s.last().0@) + s.last().1@
    }
}

/// Bytes of the intermediate state commitments, in order.
pub open spec fn state_commitments_bytes(s: Seq<crate::types::Hash>) -> Seq<u8>
    decreases s.len(),
{
    if s.len() == 0 {
        Seq::empty()
    } else {
        state_commitments_bytes(s.drop_last()) + s.last()@
    }
}

/// The canonical encoding of a witness, which its commitment hashes under
/// the witness domain.
pub open spec fn witness_bytes(w: Witness) -> Seq<u8> {
    u64_le(w.intermediate_states@.len() as u64) + state_commitments_bytes(w.intermediate_states@)
        + u64_le(w.input_sequence@.len() as u64) + witness_inputs_bytes(w.input_sequence@) + u64_le(
        w.aux_computation.values@.len() as u64,
    ) + aux_bytes(w.aux_computation.values@)
}

/// The canonical encoding of a witness.
pub fn canonical_witness_data(witness: &Witness) -> (data: Vec<u8>)
    ensures
        data@ == witness_bytes(*witness),
{
    let mut data: Vec<u8> = Vec::new();
    push_u64_le(&mut data, witness.intermediate_states.len() as u64);
    let ghost m0 = data@;
    let mut i: usize = 0;
    while i < witness.intermediate_states.len()
        invariant
            i <= witness.intermediate_states@.len(),
            data@ == m0 + state_commitments_bytes(witness.intermediate_states@.subrange(0, i as int)),
        decreases witness.intermediate_states.len() - i,
    {
        append_bytes(&mut data, witness.intermediate_states[i].0.as_slice());
        proof {
            let s = witness.intermediate_states@.subrange(0, i + 1);
            assert(s.drop_last() =~= witness.intermediate_states@.subrange(0, i as int));
        }
        i += 1;
        assert(data@ =~= m0 + state_commitments_bytes(witness.intermediate_states@.subrange(0, i as int)));
    }
    assert(witness.intermediate_states@.subrange(0, i as int) =~= witness.intermediate_states@);
    push_u64_le(&mut data, witness.input_sequence.len() as u64);
    let ghost m1 = data@;
    let mut j: usize = 0;
    while j < witness.input_sequence.len()
        invariant
            j <= witness.input_sequence@.len(),
            data@ == m1 + witness_inputs_bytes(witness.input_sequence@.subrange(0, j as int)),
        decreases witness.input_sequence.len() - j,
    {
        let inp = &witness.input_sequence[j];
        append_bytes(&mut data, inp.payload_type.as_str().as_bytes());
        append_bytes(&mut data, inp.data.as_slice());
        push_u64_le(&mut data, inp.nonce);
        proof {
            let s = witness.input_sequence@.subrange(0, j + 1);
            assert(s.drop_last() =~= witness.input_sequence@.subrange(0, j as int));
        }
        j += 1;
        assert(data@ =~= m1 + witness_inputs_bytes(witness.input_sequence@.subrange(0, j as int)));
    }
    assert(witness.input_sequence@.subrange(0, j as int) =~= witness.input_sequence@);
    push_u64_le(&mut data, witness.aux_computation.values.len() as u64);
    let ghost m2 = data@;
    let mut k: usize = 0;
    while k < witness.aux_computation.values.len()
        invariant
            k <= witness.aux_computation.values@.len(),
            data@ == m2 + aux_bytes(witness.aux_computation.values@.subrange(0, k as int)),
        decreases witness.aux_computation.values.len() - k,
    {
        let entry = &witness.aux_computation.values[k];
        append_bytes(&mut data, entry.0.as_str().as_bytes());
        append_bytes(&mut data, entry.1.as_slice());
        proof {
            let s = witness.aux_computation.values@.subrange(0, k + 1);
            assert(s.drop_last() =~= witness.aux_computation.values@.subrange(0, k as int));
        }
        k += 1;
        assert(data@ =~= m2 + aux_bytes(witness.aux_computation.values@.subrange(0, k as int)));
    }
    assert(witness.aux_computation.values@.subrange(0, k as int) =~= witness.aux_computation.values@);
    assert(data@ =~= witness_bytes(*witness));
    data
}


/// What a proof is generated from: the public inputs and the commitments.
pub struct PreparedProofStatement {
    pub public_inputs: PublicInputs,
    pub commitments: ProofCommitments,
}

/// Why a trace cannot be proved: it is empty, or its witness lets
/// auxiliary values influence the outcome.
pub open spec fn statement_error(trace: Trace, auxiliary_independent: bool) -> Option<ProverError> {
    if trace.entries@.len() == 0 {
        Some(ProverError::EmptyTrace)
    } else if !auxiliary_independent {
        Some(ProverError::AuxiliaryDependenceDetected)
    } else {
        None
    }
}

/// Prepares the statement of a proof of `trace`: the public inputs that
/// the trace determines, bound to its own observables, and the trace,
/// witness and constraint commitments. `auxiliary_independent` is whether
/// the trace's witness keeps auxiliary values out of the outcome.
pub fn prepare_proof_statement(
    trace: &Trace,
    auxiliary_independent: bool,
    trace_commitment: crate::types::Hash,
    witness_commitment: crate::types::Hash,
    constraint_commitment: crate::types::Hash,
) -> (r: Result<PreparedProofStatement, ProverError>)
    ensures
        r is Ok <==> statement_error(*trace, auxiliary_independent) is None,
        r matches Err(e) ==> Some(e) == statement_error(*trace, auxiliary_independent),
        r matches Ok(s) ==> {
            &&& s.public_inputs@ == trace.public_inputs_spec()
            &&& s.commitments.trace_commitment == trace_commitment
            &&& s.commitments.witness_commitment == witness_commitment
            &&& s.commitments.constraint_commitment == constraint_commitment
        },
{
    if trace.entries.len() == 0 {
        return Err(ProverError::EmptyTrace);
    }
    if !auxiliary_independent {
        return Err(ProverError::AuxiliaryDependenceDetected);
    }
    let public_inputs = PublicInputs::from_trace(trace);
    let mut trace_observables: Vec<Observable> = Vec::new();
    let mut i: usize = 0;
    while i < trace.entries.len()
        invariant
            i <= trace.entries.len(),
            trace_observables@.len() == i,
            forall|k: int| 0 <= k < i ==> trace_observables@[k]@ == trace.entries@[k].observable@,
        decreases trace.entries.len() - i,
    {
        trace_observables.push(trace.entries[i].observable.duplicate());
        i += 1;
    }
    assert(observables_view(trace_observables@) =~= public_inputs@.observables);
    if !public_inputs.verify_observable_binding(trace_observables.as_slice()) {
        return Err(
            ProverError::InvalidTrace(
                owned("observable binding failed: trace observables do not match public inputs"),
            ),
        );
    }
    let commitments = ProofCommitments { trace_commitment, witness_commitment, constraint_commitment };
    Ok(PreparedProofStatement { public_inputs, commitments })
}

// ---------------------------------------------------------------------------
// Provers
// ---------------------------------------------------------------------------

/// The placeholder prover: proof data is the SHA3-256 binding of the
/// commitments and public inputs, not a proof of any backend.
pub struct GenericProver {
    /// Version string of the prover.
    pub version: String,
}

/// The prover of the SHA3 placeholder proofs.
pub type DefaultProver = GenericProver;

/// A prover that delegates proof generation to a backend.
pub struct BackendProver<B: crate::backend::ZkBackend> {
    /// Version string of the prover.
    pub version: String,
    /// The backend.
    pub backend: B,
}

impl GenericProver {
    /// A prover with the given version string.
    pub fn new(version: &str) -> (p: GenericProver)
        ensures
            p.version@ == version@,
    {
        GenericProver { version: owned(version) }
    }

    /// Assembles the placeholder proof of a prepared statement (its public
    /// inputs and commitments) under the proof domain tag.
    pub fn assemble_proof(
        &self,
        commitments: ProofCommitments,
        public_inputs: PublicInputs,
        proof_domain: DomainTag,
    ) -> (p: Proof)
        ensures
            p.commitments == commitments,
            p.public_inputs@ == public_inputs@,
            p.proof_data@ == sha3_256_spec(proof_data_preimage(commitments, public_inputs@)),
            p.proof_data@.len() == 32,
            p.metadata.prover_version@ == self.version@,
            p.metadata.timestamp == 0,
            p.metadata.domain == proof_domain,
            p.metadata.proof_system@ == "stark-placeholder"@,
    {
        let proof_data = generate_proof_data(&commitments, &public_inputs);
        let metadata = ProofMetadata {
            prover_version: owned(self.version.as_str()),
            timestamp: 0,
            domain: proof_domain,
            proof_system: owned("stark-placeholder"),
        };
        Proof { commitments, proof_data, public_inputs, metadata }
    }
}

impl<B: crate::backend::ZkBackend> BackendProver<B> {
    /// A prover with the given version string and backend.
    pub fn new(version: &str, backend: B) -> (p: BackendProver<B>)
        ensures
            p.version@ == version@,
            p.backend == backend,
    {
        BackendProver { version: owned(version), backend }
    }
}

/// Why a backend's serialized proof is refused: an empty serialization.
pub open spec fn backend_proof_error(backend_id: Seq<char>, proof_data: Seq<u8>) -> Option<
    Seq<char>,
> {
    if proof_data.len() == 0 {
        Some(backend_id + " produced empty proof serialization"@)
    } else {
        None
    }
}

/// Assembles a backend proof of a prepared statement: the backend's
/// serialization is the proof data, and the metadata names the backend.
pub fn assemble_backend_proof(
    version: &str,
    backend_id: &str,
    proof_data: Vec<u8>,
    commitments: ProofCommitments,
    public_inputs: PublicInputs,
    proof_domain: DomainTag,
) -> (r: Result<Proof, ProverError>)
    ensures
        r is Ok <==> backend_proof_error(backend_id@, proof_data@) is None,
        r matches Err(e) ==> (e matches ProverError::ProofGenerationFailed(m) && Some(m@)
            == backend_proof_error(backend_id@, proof_data@)),
        r matches Ok(p) ==> {
            &&& p.commitments == commitments
            &&& p.public_inputs@ == public_inputs@
            &&& p.proof_data@ == proof_data@
            &&& p.metadata.prover_version@ == version@
            &&& p.metadata.timestamp == 0
            &&& p.metadata.domain == proof_domain
            &&& p.metadata.proof_system@ == backend_id@
        },
{
    if proof_data.len() == 0 {
        return Err(
            ProverError::ProofGenerationFailed(concat2(backend_id, " produced empty proof serialization")),
        );
    }
    let metadata = ProofMetadata {
        prover_version: owned(version),
        timestamp: 0,
        domain: proof_domain,
        proof_system: owned(backend_id),
    };
    Ok(Proof { commitments, proof_data, public_inputs, metadata })
}

} // verus!
