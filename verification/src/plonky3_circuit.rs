//! Compilation of constraint systems into Plonky3 circuit gates over the
//! Goldilocks field.
//!
//! Each constraint expression maps to gates: constants to constant gates,
//! references to input wires, equality to an equality gate, inequality to a
//! difference times an auxiliary inverse equal to one, arithmetic to
//! arithmetic gates, boolean connectives to boolean-constrained arithmetic,
//! comparisons to range proofs on differences, conditionals to selector
//! gates, and field access to a derived witness wire.

use vstd::prelude::*;

use crate::constraints::{ConstraintExpr, ConstraintSystem};
use crate::goldilocks::{GoldilocksField, GOLDILOCKS_MODULUS};
use crate::plonky3_backend::Plonky3CircuitBuilder;
use crate::text::{concat2, decimal, decimal_spec, owned, push_str};

verus! {

/// Identifier of a wire.
pub type WireId = usize;

/// Operation of an arithmetic gate.
#[derive(Clone, Copy, Debug, PartialEq, Eq, Structural)]
pub enum ArithOp {
    Add,
    Sub,
    Mul,
}

/// A gate of the circuit.
#[derive(Clone, Copy, Debug, PartialEq, Eq, Structural)]
pub enum Plonky3Gate {
    /// The wire holds a constant.
    Constant { wire: WireId, value: GoldilocksField },
    /// `left op right = output`.
    Arithmetic { left: WireId, right: WireId, output: WireId, op: ArithOp },
    /// `left - right = 0`.
    Equality { left: WireId, right: WireId },
    /// `wire * (1 - wire) = 0`.
    Boolean { wire: WireId },
    /// `condition * then_val + (1 - condition) * else_val = output`.
    Selector { condition: WireId, then_val: WireId, else_val: WireId, output: WireId },
    /// `wire` lies in `[0, 2^bits)`.
    RangeProof { wire: WireId, bits: u32 },
}

/// A connection between two gates.
#[derive(Clone, Copy, Debug, PartialEq, Eq, Structural)]
pub struct WireConnection {
    pub from_gate: usize,
    pub from_wire: WireId,
    pub to_gate: usize,
    pub to_wire: WireId,
}

/// A compiled circuit.
#[derive(Debug)]
pub struct Plonky3Circuit {
    /// Number of private input wires.
    pub num_private_inputs: usize,
    /// Number of public input wires.
    pub num_public_inputs: usize,
    /// Gates in topological order.
    pub gates: Vec<Plonky3Gate>,
    /// Connections between gates.
    pub wiring: Vec<WireConnection>,
    /// Version of the compiled constraint system.
    pub constraint_version: String,
    /// Witness variable names and their wires, in allocation order.
    pub witness_wire_map: Vec<(String, WireId)>,
    /// Public input names and their wires, in allocation order.
    pub public_input_wire_map: Vec<(String, WireId)>,
}

// ---------------------------------------------------------------------------
// The compilation, abstractly
// ---------------------------------------------------------------------------

/// State of a compilation.
#[verifier::ext_equal]
pub struct CompileState {
    pub next_wire: nat,
    pub gates: Seq<Plonky3Gate>,
    pub witness_wires: Seq<(Seq<char>, WireId)>,
    pub public_input_wires: Seq<(Seq<char>, WireId)>,
}

/// The wire of the first entry with the given name.
pub open spec fn lookup_wire(m: Seq<(Seq<char>, WireId)>, name: Seq<char>) -> Option<WireId>
    decreases m.len(),
{
    if m.len() == 0 {
        None
    } else if m[0].0 == name {
        Some(m[0].1)
    } else {
        lookup_wire(m.drop_first(), name)
    }
}

/// Allocates a fresh wire.
pub open spec fn alloc_spec(s: CompileState) -> (CompileState, WireId) {
    (
        CompileState {
            next_wire: s.next_wire + 1,
            gates: s.gates,
            witness_wires: s.witness_wires,
            public_input_wires: s.public_input_wires,
        },
        s.next_wire as WireId,
    )
}

/// Appends a gate.
pub open spec fn gate_spec(s: CompileState, g: Plonky3Gate) -> CompileState {
    CompileState {
        next_wire: s.next_wire,
        gates: s.gates.push(g),
        witness_wires: s.witness_wires,
        public_input_wires: s.public_input_wires,
    }
}

/// The wire of a witness variable, allocated on first use.
pub open spec fn witness_wire_spec(s: CompileState, name: Seq<char>) -> (CompileState, WireId) {
    match lookup_wire(s.witness_wires, name) {
        Some(w) => (s, w),
        None => (
            CompileState {
                next_wire: s.next_wire + 1,
                gates: s.gates,
                witness_wires: s.witness_wires.push((name, s.next_wire as WireId)),
                public_input_wires: s.public_input_wires,
            },
            s.next_wire as WireId,
        ),
    }
}

/// The wire of a public input, allocated on first use.
pub open spec fn public_wire_spec(s: CompileState, name: Seq<char>) -> (CompileState, WireId) {
    match lookup_wire(s.public_input_wires, name) {
        Some(w) => (s, w),
        None => (
            CompileState {
                next_wire: s.next_wire + 1,
                gates: s.gates,
                witness_wires: s.witness_wires,
                public_input_wires: s.public_input_wires.push((name, s.next_wire as WireId)),
            },
            s.next_wire as WireId,
        ),
    }
}

/// The Goldilocks representative of an integer constant.
pub open spec fn constant_value(v: i64) -> u64 {
    if v >= 0 {
        ((v as int) % (GOLDILOCKS_MODULUS as int)) as u64
    } else {
        let a = (-(v as int)) % (GOLDILOCKS_MODULUS as int);
        if a == 0 {
            0
        } else {
            (GOLDILOCKS_MODULUS - a) as u64
        }
    }
}

/// Range proof width of comparison gates.
pub open spec fn range_bits() -> u32 {
    64
}

/// Gates of an equality node.
pub open spec fn eq_tail(s: CompileState, l: WireId, r: WireId) -> (CompileState, WireId) {
    (gate_spec(s, Plonky3Gate::Equality { left: l, right: r }), l)
}

/// Gates of an inequality node: `(l - r) * inv = 1` with an auxiliary
/// inverse witness.
pub open spec fn neq_tail(s: CompileState, l: WireId, r: WireId) -> (CompileState, WireId) {
    let (s3, diff) = alloc_spec(s);
    let s4 = gate_spec(
        s3,
        Plonky3Gate::Arithmetic { left: l, right: r, output: diff, op: ArithOp::Sub },
    );
    let (s5, inv) = witness_wire_spec(s4, "__neq_inv_"@ + decimal_spec(diff as nat));
    let (s6, prod) = alloc_spec(s5);
    let s7 = gate_spec(
        s6,
        Plonky3Gate::Arithmetic { left: diff, right: inv, output: prod, op: ArithOp::Mul },
    );
    let (s8, one) = alloc_spec(s7);
    let s9 = gate_spec(s8, Plonky3Gate::Constant { wire: one, value: GoldilocksField(1) });
    (gate_spec(s9, Plonky3Gate::Equality { left: prod, right: one }), diff)
}

/// Gates of an arithmetic node.
pub open spec fn arith_tail(s: CompileState, l: WireId, r: WireId, op: ArithOp) -> (
    CompileState,
    WireId,
) {
    let (s3, o) = alloc_spec(s);
    (gate_spec(s3, Plonky3Gate::Arithmetic { left: l, right: r, output: o, op }), o)
}

/// Gates of a conjunction: boolean operands, product.
pub open spec fn and_tail(s: CompileState, l: WireId, r: WireId) -> (CompileState, WireId) {
    let s3 = gate_spec(
        gate_spec(s, Plonky3Gate::Boolean { wire: l }),
        Plonky3Gate::Boolean { wire: r },
    );
    let (s4, o) = alloc_spec(s3);
    (gate_spec(s4, Plonky3Gate::Arithmetic { left: l, right: r, output: o, op: ArithOp::Mul }), o)
}

/// Gates of a disjunction: boolean operands, `l + r - l * r`.
pub open spec fn or_tail(s: CompileState, l: WireId, r: WireId) -> (CompileState, WireId) {
    let s3 = gate_spec(
        gate_spec(s, Plonky3Gate::Boolean { wire: l }),
        Plonky3Gate::Boolean { wire: r },
    );
    let (s4, sum) = alloc_spec(s3);
    let s5 = gate_spec(
        s4,
        Plonky3Gate::Arithmetic { left: l, right: r, output: sum, op: ArithOp::Add },
    );
    let (s6, prod) = alloc_spec(s5);
    let s7 = gate_spec(
        s6,
        Plonky3Gate::Arithmetic { left: l, right: r, output: prod, op: ArithOp::Mul },
    );
    let (s8, o) = alloc_spec(s7);
    (
        gate_spec(
            s8,
            Plonky3Gate::Arithmetic { left: sum, right: prod, output: o, op: ArithOp::Sub },
        ),
        o,
    )
}

/// Gates of a strict comparison `x > y`, given as `(x, y)`: a range proof
/// on `x - y - 1`.
pub open spec fn strict_tail(s: CompileState, x: WireId, y: WireId) -> (CompileState, WireId) {
    let (s3, diff) = alloc_spec(s);
    let s4 = gate_spec(
        s3,
        Plonky3Gate::Arithmetic { left: x, right: y, output: diff, op: ArithOp::Sub },
    );
    let (s5, one) = alloc_spec(s4);
    let s6 = gate_spec(s5, Plonky3Gate::Constant { wire: one, value: GoldilocksField(1) });
    let (s7, res) = alloc_spec(s6);
    let s8 = gate_spec(
        s7,
        Plonky3Gate::Arithmetic { left: diff, right: one, output: res, op: ArithOp::Sub },
    );
    (gate_spec(s8, Plonky3Gate::RangeProof { wire: res, bits: range_bits() }), res)
}

/// Gates of a comparison `x >= y`, given as `(x, y)`: a range proof on
/// `x - y`.
pub open spec fn weak_tail(s: CompileState, x: WireId, y: WireId) -> (CompileState, WireId) {
    let (s3, diff) = alloc_spec(s);
    let s4 = gate_spec(
        s3,
        Plonky3Gate::Arithmetic { left: x, right: y, output: diff, op: ArithOp::Sub },
    );
    (gate_spec(s4, Plonky3Gate::RangeProof { wire: diff, bits: range_bits() }), diff)
}

/// Gates of a conditional: boolean condition, selector.
pub open spec fn ite_tail(s: CompileState, c: WireId, t: WireId, f: WireId) -> (
    CompileState,
    WireId,
) {
    let s4 = gate_spec(s, Plonky3Gate::Boolean { wire: c });
    let (s5, o) = alloc_spec(s4);
    (
        gate_spec(
            s5,
            Plonky3Gate::Selector { condition: c, then_val: t, else_val: f, output: o },
        ),
        o,
    )
}

/// Name of the witness wire of a field access.
pub open spec fn field_wire_name(base: WireId, field: Seq<char>) -> Seq<char> {
    "__field_"@ + decimal_spec(base as nat) + "_"@ + field
}

/// Compiles an expression into gates, returning its output wire.
pub open spec fn compile_spec(s: CompileState, e: ConstraintExpr) -> (CompileState, WireId)
    decreases e,
{
    match e {
        ConstraintExpr::Constant(v) => {
            let (s1, w) = alloc_spec(s);
            (
                gate_spec(
                    s1,
                    Plonky3Gate::Constant { wire: w, value: GoldilocksField(constant_value(v)) },
                ),
                w,
            )
        },
        ConstraintExpr::BoolConstant(b) => {
            let (s1, w) = alloc_spec(s);
            (
                gate_spec(
                    s1,
                    Plonky3Gate::Constant {
                        wire: w,
                        value: GoldilocksField(
                            if b {
                                1
                            } else {
                                0
                            },
                        ),
                    },
                ),
                w,
            )
        },
        ConstraintExpr::WitnessRef(name) => witness_wire_spec(s, name@),
        ConstraintExpr::PublicInputRef(name) => public_wire_spec(s, name@),
        ConstraintExpr::Eq(a, b) => {
            let (s1, l) = compile_spec(s, *a);
            let (s2, r) = compile_spec(s1, *b);
            eq_tail(s2, l, r)
        },
        ConstraintExpr::Neq(a, b) => {
            let (s1, l) = compile_spec(s, *a);
            let (s2, r) = compile_spec(s1, *b);
            neq_tail(s2, l, r)
        },
        ConstraintExpr::Add(a, b) => {
            let (s1, l) = compile_spec(s, *a);
            let (s2, r) = compile_spec(s1, *b);
            arith_tail(s2, l, r, ArithOp::Add)
        },
        ConstraintExpr::Sub(a, b) => {
            let (s1, l) = compile_spec(s, *a);
            let (s2, r) = compile_spec(s1, *b);
            arith_tail(s2, l, r, ArithOp::Sub)
        },
        ConstraintExpr::Mul(a, b) => {
            let (s1, l) = compile_spec(s, *a);
            let (s2, r) = compile_spec(s1, *b);
            arith_tail(s2, l, r, ArithOp::Mul)
        },
        ConstraintExpr::And(a, b) => {
            let (s1, l) = compile_spec(s, *a);
            let (s2, r) = compile_spec(s1, *b);
            and_tail(s2, l, r)
        },
        ConstraintExpr::Or(a, b) => {
            let (s1, l) = compile_spec(s, *a);
            let (s2, r) = compile_spec(s1, *b);
            or_tail(s2, l, r)
        },
        ConstraintExpr::Lt(a, b) => {
            let (s1, l) = compile_spec(s, *a);
            let (s2, r) = compile_spec(s1, *b);
            strict_tail(s2, r, l)
        },
        ConstraintExpr::Le(a, b) => {
            let (s1, l) = compile_spec(s, *a);
            let (s2, r) = compile_spec(s1, *b);
            weak_tail(s2, r, l)
        },
        ConstraintExpr::Gt(a, b) => {
            let (s1, l) = compile_spec(s, *a);
            let (s2, r) = compile_spec(s1, *b);
            strict_tail(s2, l, r)
        },
        ConstraintExpr::Ge(a, b) => {
            let (s1, l) = compile_spec(s, *a);
            let (s2, r) = compile_spec(s1, *b);
            weak_tail(s2, l, r)
        },
        ConstraintExpr::IfThenElse(c, t, f) => {
            let (s1, cond) = compile_spec(s, *c);
            let (s2, tv) = compile_spec(s1, *t);
            let (s3, fv) = compile_spec(s2, *f);
            ite_tail(s3, cond, tv, fv)
        },
        ConstraintExpr::FieldAccess(base, field) => {
            let (s1, bw) = compile_spec(s, *base);
            witness_wire_spec(s1, field_wire_name(bw, field@))
        },
    }
}

/// Upper bound on the wires an expression allocates.
pub open spec fn wire_budget(e: ConstraintExpr) -> nat
    decreases e,
{
    match e {
        ConstraintExpr::Constant(_) => 1,
        ConstraintExpr::BoolConstant(_) => 1,
        ConstraintExpr::WitnessRef(_) => 1,
        ConstraintExpr::PublicInputRef(_) => 1,
        ConstraintExpr::Eq(a, b) => wire_budget(*a) + wire_budget(*b),
        ConstraintExpr::Neq(a, b) => wire_budget(*a) + wire_budget(*b) + 4,
        ConstraintExpr::Add(a, b) => wire_budget(*a) + wire_budget(*b) + 1,
        ConstraintExpr::Sub(a, b) => wire_budget(*a) + wire_budget(*b) + 1,
        ConstraintExpr::Mul(a, b) => wire_budget(*a) + wire_budget(*b) + 1,
        ConstraintExpr::And(a, b) => wire_budget(*a) + wire_budget(*b) + 1,
        ConstraintExpr::Or(a, b) => wire_budget(*a) + wire_budget(*b) + 3,
        ConstraintExpr::Lt(a, b) => wire_budget(*a) + wire_budget(*b) + 3,
        ConstraintExpr::Le(a, b) => wire_budget(*a) + wire_budget(*b) + 1,
        ConstraintExpr::Gt(a, b) => wire_budget(*a) + wire_budget(*b) + 3,
        ConstraintExpr::Ge(a, b) => wire_budget(*a) + wire_budget(*b) + 1,
        ConstraintExpr::IfThenElse(c, t, f) => wire_budget(*c) + wire_budget(*t) + wire_budget(*f)
            + 1,
        ConstraintExpr::FieldAccess(b, _) => wire_budget(*b) + 1,
    }
}


// ---------------------------------------------------------------------------
// Compilation context
// ---------------------------------------------------------------------------

/// Names and wires, abstractly.
pub open spec fn wires_view(m: Seq<(String, WireId)>) -> Seq<(Seq<char>, WireId)> {
    m.map_values(|p: (String, WireId)| (p.0@, p.1))
}

/// Mutable state of a compilation: wire allocation, gates and name maps.
struct CircuitCompilationContext {
    next_wire: WireId,
    gates: Vec<Plonky3Gate>,
    wiring: Vec<WireConnection>,
    witness_wires: Vec<(String, WireId)>,
    public_input_wires: Vec<(String, WireId)>,
    range_proof_bits: u32,
}

fn lookup(map: &Vec<(String, WireId)>, name: &str) -> (r: Option<WireId>)
    ensures
        r == lookup_wire(wires_view(map@), name@),
{
    let ghost m = wires_view(map@);
    let key = owned(name);
    assert(m.subrange(0, m.len() as int) =~= m);
    let mut i: usize = 0;
    while i < map.len()
        invariant
            i <= map.len(),
            m == wires_view(map@),
            key@ == name@,
            lookup_wire(m, name@) == lookup_wire(m.subrange(i as int, m.len() as int), name@),
        decreases map.len() - i,
    {
        let ghost rest = m.subrange(i as int, m.len() as int);
        assert(rest[0] == (map@[i as int].0@, map@[i as int].1));
        assert(rest.drop_first() =~= m.subrange(i + 1, m.len() as int));
        if map[i].0 == key {
            return Some(map[i].1);
        }
        i += 1;
    }
    assert(m.subrange(i as int, m.len() as int) =~= Seq::<(Seq<char>, WireId)>::empty());
    None
}

impl CircuitCompilationContext {
    spec fn model(&self) -> CompileState {
        CompileState {
            next_wire: self.next_wire as nat,
            gates: self.gates@,
            witness_wires: wires_view(self.witness_wires@),
            public_input_wires: wires_view(self.public_input_wires@),
        }
    }

    spec fn inv(&self) -> bool {
        self.range_proof_bits == range_bits() && self.wiring@.len() == 0
    }

    fn new() -> (c: CircuitCompilationContext)
        ensures
            c.inv(),
            c.model() == (CompileState {
                next_wire: 0,
                gates: Seq::empty(),
                witness_wires: Seq::empty(),
                public_input_wires: Seq::empty(),
            }),
    {
        let c = CircuitCompilationContext {
            next_wire: 0,
            gates: Vec::new(),
            wiring: Vec::new(),
            witness_wires: Vec::new(),
            public_input_wires: Vec::new(),
            range_proof_bits: 64,
        };
        assert(c.model() =~= CompileState {
            next_wire: 0,
            gates: Seq::empty(),
            witness_wires: Seq::empty(),
            public_input_wires: Seq::empty(),
        });
        c
    }

    fn alloc_wire(&mut self) -> (w: WireId)
        requires
            old(self).next_wire < usize::MAX,
        ensures
            final(self).model() == alloc_spec(old(self).model()).0,
            w == alloc_spec(old(self).model()).1,
            final(self).inv() == old(self).inv(),
    {
        let w = self.next_wire;
        self.next_wire = self.next_wire + 1;
        assert(self.model() =~= alloc_spec(old(self).model()).0);
        w
    }

    fn add_gate(&mut self, gate: Plonky3Gate) -> (idx: usize)
        ensures
            final(self).model() == gate_spec(old(self).model(), gate),
            idx == old(self).gates@.len(),
            final(self).inv() == old(self).inv(),
    {
        let idx = self.gates.len();
        self.gates.push(gate);
        assert(self.model() =~= gate_spec(old(self).model(), gate));
        idx
    }

    fn witness_wire(&mut self, name: &str) -> (w: WireId)
        requires
            old(self).next_wire < usize::MAX,
        ensures
            final(self).model() == witness_wire_spec(old(self).model(), name@).0,
            w == witness_wire_spec(old(self).model(), name@).1,
            final(self).inv() == old(self).inv(),
    {
        match lookup(&self.witness_wires, name) {
            Some(w) => w,
            None => {
                let w = self.alloc_wire();
                let ghost before = self.witness_wires@;
                self.witness_wires.push((owned(name), w));
                assert(wires_view(self.witness_wires@) =~= wires_view(before).push((name@, w)));
                assert(self.model() =~= witness_wire_spec(old(self).model(), name@).0);
                w
            },
        }
    }

    fn public_input_wire(&mut self, name: &str) -> (w: WireId)
        requires
            old(self).next_wire < usize::MAX,
        ensures
            final(self).model() == public_wire_spec(old(self).model(), name@).0,
            w == public_wire_spec(old(self).model(), name@).1,
            final(self).inv() == old(self).inv(),
    {
        match lookup(&self.public_input_wires, name) {
            Some(w) => w,
            None => {
                let w = self.alloc_wire();
                let ghost before = self.public_input_wires@;
                self.public_input_wires.push((owned(name), w));
                assert(wires_view(self.public_input_wires@) =~= wires_view(before).push((name@, w)));
                assert(self.model() =~= public_wire_spec(old(self).model(), name@).0);
                w
            },
        }
    }

    fn eq_gates(&mut self, left: WireId, right: WireId) -> (w: WireId)
        ensures
            final(self).model() == eq_tail(old(self).model(), left, right).0,
            w == eq_tail(old(self).model(), left, right).1,
            final(self).inv() == old(self).inv(),
    {
        self.add_gate(Plonky3Gate::Equality { left, right });
        left
    }

    fn neq_gates(&mut self, left: WireId, right: WireId) -> (w: WireId)
        requires
            old(self).next_wire + 4 <= usize::MAX,
        ensures
            final(self).model() == neq_tail(old(self).model(), left, right).0,
            w == neq_tail(old(self).model(), left, right).1,
            final(self).inv() == old(self).inv(),
            final(self).next_wire <= old(self).next_wire + 4,
    {
        let diff_wire = self.alloc_wire();
        self.add_gate(Plonky3Gate::Arithmetic { left, right, output: diff_wire, op: ArithOp::Sub });
        let inv_name = concat2("__neq_inv_", decimal(diff_wire as u64).as_str());
        let inv_wire = self.witness_wire(inv_name.as_str());
        let product_wire = self.alloc_wire();
        self.add_gate(
            Plonky3Gate::Arithmetic {
                left: diff_wire,
                right: inv_wire,
                output: product_wire,
                op: ArithOp::Mul,
            },
        );
        let one_wire = self.alloc_wire();
        self.add_gate(Plonky3Gate::Constant { wire: one_wire, value: GoldilocksField(1) });
        self.add_gate(Plonky3Gate::Equality { left: product_wire, right: one_wire });
        diff_wire
    }

    fn arith_gates(&mut self, left: WireId, right: WireId, op: ArithOp) -> (w: WireId)
        requires
            old(self).next_wire + 1 <= usize::MAX,
        ensures
            final(self).model() == arith_tail(old(self).model(), left, right, op).0,
            w == arith_tail(old(self).model(), left, right, op).1,
            final(self).inv() == old(self).inv(),
            final(self).next_wire <= old(self).next_wire + 1,
    {
        let output = self.alloc_wire();
        self.add_gate(Plonky3Gate::Arithmetic { left, right, output, op });
        output
    }

    fn and_gates(&mut self, left: WireId, right: WireId) -> (w: WireId)
        requires
            old(self).next_wire + 1 <= usize::MAX,
        ensures
            final(self).model() == and_tail(old(self).model(), left, right).0,
            w == and_tail(old(self).model(), left, right).1,
            final(self).inv() == old(self).inv(),
            final(self).next_wire <= old(self).next_wire + 1,
    {
        self.add_gate(Plonky3Gate::Boolean { wire: left });
        self.add_gate(Plonky3Gate::Boolean { wire: right });
        let output = self.alloc_wire();
        self.add_gate(Plonky3Gate::Arithmetic { left, right, output, op: ArithOp::Mul });
        output
    }

    fn or_gates(&mut self, left: WireId, right: WireId) -> (w: WireId)
        requires
            old(self).next_wire + 3 <= usize::MAX,
        ensures
            final(self).model() == or_tail(old(self).model(), left, right).0,
            w == or_tail(old(self).model(), left, right).1,
            final(self).inv() == old(self).inv(),
            final(self).next_wire <= old(self).next_wire + 3,
    {
        self.add_gate(Plonky3Gate::Boolean { wire: left });
        self.add_gate(Plonky3Gate::Boolean { wire: right });
        let sum_wire = self.alloc_wire();
        self.add_gate(Plonky3Gate::Arithmetic { left, right, output: sum_wire, op: ArithOp::Add });
        let prod_wire = self.alloc_wire();
        self.add_gate(Plonky3Gate::Arithmetic { left, right, output: prod_wire, op: ArithOp::Mul });
        let output = self.alloc_wire();
        self.add_gate(
            Plonky3Gate::Arithmetic { left: sum_wire, right: prod_wire, output, op: ArithOp::Sub },
        );
        output
    }

    fn strict_gates(&mut self, x: WireId, y: WireId) -> (w: WireId)
        requires
            old(self).inv(),
            old(self).next_wire + 3 <= usize::MAX,
        ensures
            final(self).model() == strict_tail(old(self).model(), x, y).0,
            w == strict_tail(old(self).model(), x, y).1,
            final(self).inv(),
            final(self).next_wire <= old(self).next_wire + 3,
    {
        let diff_wire = self.alloc_wire();
        self.add_gate(Plonky3Gate::Arithmetic { left: x, right: y, output: diff_wire, op: ArithOp::Sub });
        let one_wire = self.alloc_wire();
        self.add_gate(Plonky3Gate::Constant { wire: one_wire, value: GoldilocksField(1) });
        let result_wire = self.alloc_wire();
        self.add_gate(
            Plonky3Gate::Arithmetic {
                left: diff_wire,
                right: one_wire,
                output: result_wire,
                op: ArithOp::Sub,
            },
        );
        let bits = self.range_proof_bits;
        self.add_gate(Plonky3Gate::RangeProof { wire: result_wire, bits });
        result_wire
    }

    fn weak_gates(&mut self, x: WireId, y: WireId) -> (w: WireId)
        requires
            old(self).inv(),
            old(self).next_wire + 1 <= usize::MAX,
        ensures
            final(self).model() == weak_tail(old(self).model(), x, y).0,
            w == weak_tail(old(self).model(), x, y).1,
            final(self).inv(),
            final(self).next_wire <= old(self).next_wire + 1,
    {
        let diff_wire = self.alloc_wire();
        self.add_gate(Plonky3Gate::Arithmetic { left: x, right: y, output: diff_wire, op: ArithOp::Sub });
        let bits = self.range_proof_bits;
        self.add_gate(Plonky3Gate::RangeProof { wire: diff_wire, bits });
        diff_wire
    }

    fn ite_gates(&mut self, c: WireId, t: WireId, f: WireId) -> (w: WireId)
        requires
            old(self).next_wire + 1 <= usize::MAX,
        ensures
            final(self).model() == ite_tail(old(self).model(), c, t, f).0,
            w == ite_tail(old(self).model(), c, t, f).1,
            final(self).inv() == old(self).inv(),
            final(self).next_wire <= old(self).next_wire + 1,
    {
        self.add_gate(Plonky3Gate::Boolean { wire: c });
        let output = self.alloc_wire();
        self.add_gate(Plonky3Gate::Selector { condition: c, then_val: t, else_val: f, output });
        output
    }

    fn field_gates(&mut self, base_wire: WireId, field: &str) -> (w: WireId)
        requires
            old(self).next_wire + 1 <= usize::MAX,
        ensures
            final(self).model() == witness_wire_spec(old(self).model(), field_wire_name(base_wire, field@)).0,
            w == witness_wire_spec(old(self).model(), field_wire_name(base_wire, field@)).1,
            final(self).inv() == old(self).inv(),
            final(self).next_wire <= old(self).next_wire + 1,
    {
        let mut derived = concat2("__field_", decimal(base_wire as u64).as_str());
        push_str(&mut derived, "_");
        push_str(&mut derived, field);
        self.witness_wire(derived.as_str())
    }

    fn constant_gate(&mut self, v: i64) -> (w: WireId)
        requires
            old(self).next_wire + 1 <= usize::MAX,
        ensures
            final(self).model() == compile_spec(old(self).model(), ConstraintExpr::Constant(v)).0,
            w == compile_spec(old(self).model(), ConstraintExpr::Constant(v)).1,
            final(self).inv() == old(self).inv(),
            final(self).next_wire <= old(self).next_wire + 1,
    {
        let wire = self.alloc_wire();
        let value: u64 = if v >= 0 {
            (v as u64) % GOLDILOCKS_MODULUS
        } else {
            let abs_val: u64 = ((-(v + 1)) as u64 + 1) % GOLDILOCKS_MODULUS;
            if abs_val == 0 {
                0
            } else {
                GOLDILOCKS_MODULUS - abs_val
            }
        };
        assert(value == constant_value(v));
        self.add_gate(Plonky3Gate::Constant { wire, value: GoldilocksField(value) });
        wire
    }

    /// Compiles one expression, returning its output wire.
    fn compile_expr(&mut self, expr: &ConstraintExpr) -> (w: WireId)
        requires
            old(self).inv(),
            old(self).next_wire + wire_budget(*expr) <= usize::MAX,
        ensures
            final(self).inv(),
            final(self).model() == compile_spec(old(self).model(), *expr).0,
            w == compile_spec(old(self).model(), *expr).1,
            final(self).next_wire <= old(self).next_wire + wire_budget(*expr),
            state_wf(old(self).model()) ==> state_wf(final(self).model()) && extends(
                old(self).model(),
                final(self).model(),
            ) && w < final(self).next_wire,
        decreases expr,
    {
        proof {
            if state_wf(self.model()) {
                lemma_compile_appends(self.model(), *expr);
            }
        }
        match expr {
            ConstraintExpr::Constant(v) => self.constant_gate(*v),
            ConstraintExpr::BoolConstant(b) => {
                let wire = self.alloc_wire();
                let value: u64 = if *b {
                    1
                } else {
                    0
                };
                self.add_gate(Plonky3Gate::Constant { wire, value: GoldilocksField(value) });
                wire
            },
            ConstraintExpr::WitnessRef(name) => self.witness_wire(name.as_str()),
            ConstraintExpr::PublicInputRef(name) => self.public_input_wire(name.as_str()),
            ConstraintExpr::Eq(a, b) => {
                let left = self.compile_expr(a);
                let right = self.compile_expr(b);
                self.eq_gates(left, right)
            },
            ConstraintExpr::Neq(a, b) => {
                let left = self.compile_expr(a);
                let right = self.compile_expr(b);
                self.neq_gates(left, right)
            },
            ConstraintExpr::Add(a, b) => {
                let left = self.compile_expr(a);
                let right = self.compile_expr(b);
                self.arith_gates(left, right, ArithOp::Add)
            },
            ConstraintExpr::Sub(a, b) => {
                let left = self.compile_expr(a);
                let right = self.compile_expr(b);
                self.arith_gates(left, right, ArithOp::Sub)
            },
            ConstraintExpr::Mul(a, b) => {
                let left = self.compile_expr(a);
                let right = self.compile_expr(b);
                self.arith_gates(left, right, ArithOp::Mul)
            },
            ConstraintExpr::And(a, b) => {
                let left = self.compile_expr(a);
                let right = self.compile_expr(b);
                self.and_gates(left, right)
            },
            ConstraintExpr::Or(a, b) => {
                let left = self.compile_expr(a);
                let right = self.compile_expr(b);
                self.or_gates(left, right)
            },
            ConstraintExpr::Lt(a, b) => {
                let left = self.compile_expr(a);
                let right = self.compile_expr(b);
                self.strict_gates(right, left)
            },
            ConstraintExpr::Le(a, b) => {
                let left = self.compile_expr(a);
                let right = self.compile_expr(b);
                self.weak_gates(right, left)
            },
            ConstraintExpr::Gt(a, b) => {
                let left = self.compile_expr(a);
                let right = self.compile_expr(b);
                self.strict_gates(left, right)
            },
            ConstraintExpr::Ge(a, b) => {
                let left = self.compile_expr(a);
                let right = self.compile_expr(b);
                self.weak_gates(left, right)
            },
            ConstraintExpr::IfThenElse(cond, then_expr, else_expr) => {
                let condition = self.compile_expr(cond);
                let then_val = self.compile_expr(then_expr);
                let else_val = self.compile_expr(else_expr);
                self.ite_gates(condition, then_val, else_val)
            },
            ConstraintExpr::FieldAccess(base, field) => {
                let base_wire = self.compile_expr(base);
                self.field_gates(base_wire, field.as_str())
            },
        }
    }
}


// ---------------------------------------------------------------------------
// Building circuits
// ---------------------------------------------------------------------------

/// Allocates witness wires for declared names, in order.
pub open spec fn declare_witness_spec(s: CompileState, names: Seq<Seq<char>>) -> CompileState
    decreases names.len(),
{
    if names.len() == 0 {
        s
    } else {
        witness_wire_spec(declare_witness_spec(s, names.drop_last()), names.last()).0
    }
}

/// Allocates public input wires for declared names, in order.
pub open spec fn declare_public_spec(s: CompileState, names: Seq<Seq<char>>) -> CompileState
    decreases names.len(),
{
    if names.len() == 0 {
        s
    } else {
        public_wire_spec(declare_public_spec(s, names.drop_last()), names.last()).0
    }
}

/// Compiles expressions in order.
pub open spec fn compile_all_spec(s: CompileState, es: Seq<ConstraintExpr>) -> CompileState
    decreases es.len(),
{
    if es.len() == 0 {
        s
    } else {
        compile_spec(compile_all_spec(s, es.drop_last()), es.last()).0
    }
}

/// Sum of the wire budgets of expressions.
pub open spec fn budget_all(es: Seq<ConstraintExpr>) -> nat
    decreases es.len(),
{
    if es.len() == 0 {
        0
    } else {
        budget_all(es.drop_last()) + wire_budget(es.last())
    }
}

/// The empty compilation state.
pub open spec fn empty_state() -> CompileState {
    CompileState {
        next_wire: 0,
        gates: Seq::empty(),
        witness_wires: Seq::empty(),
        public_input_wires: Seq::empty(),
    }
}

/// Names of the declared witness variables.
pub open spec fn witness_names(cs: ConstraintSystem) -> Seq<Seq<char>> {
    cs.witness_variables@.map_values(|v: crate::constraints::WitnessVariable| v.name@)
}

/// Names of the declared public inputs.
pub open spec fn public_names(cs: ConstraintSystem) -> Seq<Seq<char>> {
    cs.public_inputs@.map_values(|p: crate::constraints::PublicInputDecl| p.name@)
}

/// Expressions of the constraints, in order.
pub open spec fn constraint_exprs(cs: ConstraintSystem) -> Seq<ConstraintExpr> {
    cs.constraints@.map_values(|c: crate::constraints::Constraint| c.expr)
}

/// Compilation state after building a constraint system: declared witness
/// wires, then declared public wires, then the gates of every constraint.
pub open spec fn build_spec(cs: ConstraintSystem) -> CompileState {
    compile_all_spec(
        declare_public_spec(declare_witness_spec(empty_state(), witness_names(cs)), public_names(cs)),
        constraint_exprs(cs),
    )
}

/// The wires a constraint system can need fit in a `usize`.
pub open spec fn build_fits(cs: ConstraintSystem) -> bool {
    cs.witness_variables@.len() + cs.public_inputs@.len() + budget_all(constraint_exprs(cs))
        <= usize::MAX
}

/// The circuit of a finished compilation.
pub open spec fn circuit_matches(c: Plonky3Circuit, st: CompileState, version: Seq<char>) -> bool {
    &&& c.gates@ == st.gates
    &&& wires_view(c.witness_wire_map@) == st.witness_wires
    &&& wires_view(c.public_input_wire_map@) == st.public_input_wires
    &&& c.num_private_inputs == st.witness_wires.len()
    &&& c.num_public_inputs == st.public_input_wires.len()
    &&& c.wiring@.len() == 0
    &&& c.constraint_version@ == version
}

impl CircuitCompilationContext {
    fn declare(&mut self, cs: &ConstraintSystem)
        requires
            old(self).inv(),
            old(self).model() == empty_state(),
            build_fits(*cs),
        ensures
            final(self).inv(),
            final(self).model() == build_spec(*cs),
    {
        let ghost wn = witness_names(*cs);
        let ghost pn = public_names(*cs);
        let ghost es = constraint_exprs(*cs);
        let mut i: usize = 0;
        while i < cs.witness_variables.len()
            invariant
                i <= cs.witness_variables@.len(),
                self.inv(),
                wn == witness_names(*cs),
                build_fits(*cs),
                self.model() == declare_witness_spec(empty_state(), wn.subrange(0, i as int)),
                self.next_wire <= i,
            decreases cs.witness_variables.len() - i,
        {
            proof {
                assert(wn.subrange(0, i + 1).drop_last() =~= wn.subrange(0, i as int));
            }
            self.witness_wire(cs.witness_variables[i].name.as_str());
            i += 1;
        }
        assert(wn.subrange(0, wn.len() as int) =~= wn);
        let ghost after_w = self.model();
        let mut j: usize = 0;
        while j < cs.public_inputs.len()
            invariant
                j <= cs.public_inputs@.len(),
                self.inv(),
                pn == public_names(*cs),
                build_fits(*cs),
                self.model() == declare_public_spec(after_w, pn.subrange(0, j as int)),
                self.next_wire <= cs.witness_variables@.len() + j,
            decreases cs.public_inputs.len() - j,
        {
            proof {
                assert(pn.subrange(0, j + 1).drop_last() =~= pn.subrange(0, j as int));
            }
            self.public_input_wire(cs.public_inputs[j].name.as_str());
            j += 1;
        }
        assert(pn.subrange(0, pn.len() as int) =~= pn);
        let ghost after_p = self.model();
        let mut k: usize = 0;
        while k < cs.constraints.len()
            invariant
                k <= cs.constraints@.len(),
                self.inv(),
                es == constraint_exprs(*cs),
                build_fits(*cs),
                self.model() == compile_all_spec(after_p, es.subrange(0, k as int)),
                self.next_wire <= cs.witness_variables@.len() + cs.public_inputs@.len()
                    + budget_all(es.subrange(0, k as int)),
            decreases cs.constraints.len() - k,
        {
            proof {
                assert(es.subrange(0, k + 1).drop_last() =~= es.subrange(0, k as int));
                lemma_budget_prefix(es, k + 1);
            }
            self.compile_expr(&cs.constraints[k].expr);
            k += 1;
        }
        assert(es.subrange(0, es.len() as int) =~= es);
    }
}

proof fn lemma_budget_prefix(es: Seq<ConstraintExpr>, k: int)
    requires
        0 <= k <= es.len(),
    ensures
        budget_all(es.subrange(0, k)) <= budget_all(es),
    decreases es.len() - k,
{
    if k < es.len() {
        lemma_budget_prefix(es, k + 1);
        assert(es.subrange(0, k + 1).drop_last() =~= es.subrange(0, k));
    } else {
        assert(es.subrange(0, k) =~= es);
    }
}

impl Plonky3CircuitBuilder {
    /// Builds the circuit of a constraint system: wires for the declared
    /// witness variables, then for the declared public inputs, then the
    /// gates of every constraint in order.
    pub fn build_circuit(&self, constraints: &ConstraintSystem) -> (c: Plonky3Circuit)
        requires
            build_fits(*constraints),
        ensures
            circuit_matches(c, build_spec(*constraints), constraints.version@),
    {
        let mut ctx = CircuitCompilationContext::new();
        ctx.declare(constraints);
        Plonky3Circuit {
            num_private_inputs: ctx.witness_wires.len(),
            num_public_inputs: ctx.public_input_wires.len(),
            gates: ctx.gates,
            wiring: ctx.wiring,
            constraint_version: constraints.version.clone(),
            witness_wire_map: ctx.witness_wires,
            public_input_wire_map: ctx.public_input_wires,
        }
    }

    /// Builds the circuit, failing on an unsupported expression; every
    /// expression of the constraint language is supported.
    pub fn try_build_circuit(&self, constraints: &ConstraintSystem) -> (r: Result<
        Plonky3Circuit,
        crate::plonky3_backend::Plonky3Error,
    >)
        requires
            build_fits(*constraints),
        ensures
            r matches Ok(c) && circuit_matches(c, build_spec(*constraints), constraints.version@),
    {
        Ok(self.build_circuit(constraints))
    }
}


// ---------------------------------------------------------------------------
// Well-formedness of compilation
// ---------------------------------------------------------------------------

/// All wires of a gate are smaller than `n`.
pub open spec fn gate_wires_below(g: Plonky3Gate, n: nat) -> bool {
    match g {
        Plonky3Gate::Constant { wire, .. } => wire < n,
        Plonky3Gate::Arithmetic { left, right, output, .. } => left < n && right < n && output < n,
        Plonky3Gate::Equality { left, right } => left < n && right < n,
        Plonky3Gate::Boolean { wire } => wire < n,
        Plonky3Gate::Selector { condition, then_val, else_val, output } => condition < n
            && then_val < n && else_val < n && output < n,
        Plonky3Gate::RangeProof { wire, .. } => wire < n,
    }
}

/// Every wire a name maps to is below `n`.
pub open spec fn map_wires_below(m: Seq<(Seq<char>, WireId)>, n: nat) -> bool {
    forall|i: int| 0 <= i < m.len() ==> (#[trigger] m[i]).1 < n
}

/// A compilation state mentions only allocated wires.
pub open spec fn state_wf(s: CompileState) -> bool {
    &&& forall|i: int| 0 <= i < s.gates.len() ==> gate_wires_below(#[trigger] s.gates[i], s.next_wire)
    &&& map_wires_below(s.witness_wires, s.next_wire)
    &&& map_wires_below(s.public_input_wires, s.next_wire)
    &&& s.next_wire <= usize::MAX
}

/// `t` continues `s`: no wire is freed, and gates and name maps only grow at
/// the end.
pub open spec fn extends(s: CompileState, t: CompileState) -> bool {
    &&& s.next_wire <= t.next_wire
    &&& s.gates.len() <= t.gates.len() && t.gates.subrange(0, s.gates.len() as int) == s.gates
    &&& s.witness_wires.len() <= t.witness_wires.len() && t.witness_wires.subrange(
        0,
        s.witness_wires.len() as int,
    ) == s.witness_wires
    &&& s.public_input_wires.len() <= t.public_input_wires.len() && t.public_input_wires.subrange(
        0,
        s.public_input_wires.len() as int,
    ) == s.public_input_wires
}

proof fn lemma_extends_trans(a: CompileState, b: CompileState, c: CompileState)
    requires
        extends(a, b),
        extends(b, c),
    ensures
        extends(a, c),
{
    assert(c.gates.subrange(0, a.gates.len() as int) =~= c.gates.subrange(0, b.gates.len() as int).subrange(0, a.gates.len() as int));
    assert(c.witness_wires.subrange(0, a.witness_wires.len() as int) =~= c.witness_wires.subrange(0, b.witness_wires.len() as int).subrange(0, a.witness_wires.len() as int));
    assert(c.public_input_wires.subrange(0, a.public_input_wires.len() as int) =~= c.public_input_wires.subrange(0, b.public_input_wires.len() as int).subrange(0, a.public_input_wires.len() as int));
}

proof fn lemma_extends_refl(a: CompileState)
    ensures
        extends(a, a),
{
    assert(a.gates.subrange(0, a.gates.len() as int) =~= a.gates);
    assert(a.witness_wires.subrange(0, a.witness_wires.len() as int) =~= a.witness_wires);
    assert(a.public_input_wires.subrange(0, a.public_input_wires.len() as int) =~= a.public_input_wires);
}

proof fn lemma_alloc_wf(s: CompileState)
    requires
        state_wf(s),
        s.next_wire + 1 <= usize::MAX,
    ensures
        state_wf(alloc_spec(s).0),
        extends(s, alloc_spec(s).0),
        alloc_spec(s).1 == s.next_wire,
        alloc_spec(s).0.next_wire == s.next_wire + 1,
{
    let t = alloc_spec(s).0;
    lemma_extends_refl(s);
    assert forall|i: int| 0 <= i < t.gates.len() implies gate_wires_below(#[trigger] t.gates[i], t.next_wire) by {
        assert(gate_wires_below(s.gates[i], s.next_wire));
    }
}

proof fn lemma_gate_wf(s: CompileState, g: Plonky3Gate)
    requires
        state_wf(s),
        gate_wires_below(g, s.next_wire),
    ensures
        state_wf(gate_spec(s, g)),
        extends(s, gate_spec(s, g)),
        gate_spec(s, g).next_wire == s.next_wire,
{
    let t = gate_spec(s, g);
    assert forall|i: int| 0 <= i < t.gates.len() implies gate_wires_below(#[trigger] t.gates[i], t.next_wire) by {
        if i < s.gates.len() {
            assert(t.gates[i] == s.gates[i]);
        }
    }
    assert(t.gates.subrange(0, s.gates.len() as int) =~= s.gates);
    assert(t.witness_wires.subrange(0, s.witness_wires.len() as int) =~= s.witness_wires);
    assert(t.public_input_wires.subrange(0, s.public_input_wires.len() as int) =~= s.public_input_wires);
}

proof fn lemma_lookup_below(m: Seq<(Seq<char>, WireId)>, name: Seq<char>, n: nat)
    requires
        map_wires_below(m, n),
    ensures
        lookup_wire(m, name) matches Some(w) ==> w < n,
    decreases m.len(),
{
    if m.len() > 0 && m[0].0 != name {
        assert forall|i: int| 0 <= i < m.drop_first().len() implies (#[trigger] m.drop_first()[i]).1 < n by {
            assert(m.drop_first()[i] == m[i + 1]);
        }
        lemma_lookup_below(m.drop_first(), name, n);
    }
}

proof fn lemma_witness_wire_wf(s: CompileState, name: Seq<char>)
    requires
        state_wf(s),
        s.next_wire + 1 <= usize::MAX,
    ensures
        state_wf(witness_wire_spec(s, name).0),
        extends(s, witness_wire_spec(s, name).0),
        witness_wire_spec(s, name).1 < witness_wire_spec(s, name).0.next_wire,
        witness_wire_spec(s, name).0.next_wire <= s.next_wire + 1,
{
    lemma_lookup_below(s.witness_wires, name, s.next_wire);
    lemma_extends_refl(s);
    let t = witness_wire_spec(s, name).0;
    if lookup_wire(s.witness_wires, name) is None {
        assert forall|i: int| 0 <= i < t.gates.len() implies gate_wires_below(#[trigger] t.gates[i], t.next_wire) by {
            assert(gate_wires_below(s.gates[i], s.next_wire));
        }
        assert forall|i: int| 0 <= i < t.witness_wires.len() implies (#[trigger] t.witness_wires[i]).1 < t.next_wire by {
            if i < s.witness_wires.len() {
                assert(t.witness_wires[i] == s.witness_wires[i]);
            }
        }
        assert forall|i: int| 0 <= i < t.public_input_wires.len() implies (#[trigger] t.public_input_wires[i]).1 < t.next_wire by {
            assert(t.public_input_wires[i] == s.public_input_wires[i]);
        }
        assert(t.witness_wires.subrange(0, s.witness_wires.len() as int) =~= s.witness_wires);
    }
}

proof fn lemma_public_wire_wf(s: CompileState, name: Seq<char>)
    requires
        state_wf(s),
        s.next_wire + 1 <= usize::MAX,
    ensures
        state_wf(public_wire_spec(s, name).0),
        extends(s, public_wire_spec(s, name).0),
        public_wire_spec(s, name).1 < public_wire_spec(s, name).0.next_wire,
        public_wire_spec(s, name).0.next_wire <= s.next_wire + 1,
{
    lemma_lookup_below(s.public_input_wires, name, s.next_wire);
    lemma_extends_refl(s);
    let t = public_wire_spec(s, name).0;
    if lookup_wire(s.public_input_wires, name) is None {
        assert forall|i: int| 0 <= i < t.gates.len() implies gate_wires_below(#[trigger] t.gates[i], t.next_wire) by {
            assert(gate_wires_below(s.gates[i], s.next_wire));
        }
        assert forall|i: int| 0 <= i < t.public_input_wires.len() implies (#[trigger] t.public_input_wires[i]).1 < t.next_wire by {
            if i < s.public_input_wires.len() {
                assert(t.public_input_wires[i] == s.public_input_wires[i]);
            }
        }
        assert forall|i: int| 0 <= i < t.witness_wires.len() implies (#[trigger] t.witness_wires[i]).1 < t.next_wire by {
            assert(t.witness_wires[i] == s.witness_wires[i]);
        }
        assert(t.public_input_wires.subrange(0, s.public_input_wires.len() as int) =~= s.public_input_wires);
    }
}

/// What each step that adds gates keeps true.
pub open spec fn tail_ok(s: CompileState, r: (CompileState, WireId), k: nat) -> bool {
    &&& state_wf(r.0)
    &&& extends(s, r.0)
    &&& r.1 < r.0.next_wire
    &&& r.0.next_wire <= s.next_wire + k
}

proof fn lemma_weak_wf(s: CompileState, x: WireId, y: WireId)
    requires
        state_wf(s),
        x < s.next_wire,
        y < s.next_wire,
        s.next_wire + 1 <= usize::MAX,
    ensures
        tail_ok(s, weak_tail(s, x, y), 1),
{
    lemma_alloc_wf(s);
    let (s3, diff) = alloc_spec(s);
    let g4 = Plonky3Gate::Arithmetic { left: x, right: y, output: diff, op: ArithOp::Sub };
    lemma_gate_wf(s3, g4);
    let s4 = gate_spec(s3, g4);
    lemma_extends_trans(s, s3, s4);
    let gw = Plonky3Gate::RangeProof { wire: diff, bits: range_bits() };
    lemma_gate_wf(s4, gw);
    lemma_extends_trans(s, s4, gate_spec(s4, gw));
}

proof fn lemma_neq_wf(s: CompileState, l: WireId, r: WireId)
    requires
        state_wf(s),
        l < s.next_wire,
        r < s.next_wire,
        s.next_wire + 4 <= usize::MAX,
    ensures
        tail_ok(s, neq_tail(s, l, r), 4),
{
    let (s3, diff) = alloc_spec(s);
    lemma_alloc_wf(s);
    let g4 = Plonky3Gate::Arithmetic { left: l, right: r, output: diff, op: ArithOp::Sub };
    lemma_gate_wf(s3, g4);
    let s4 = gate_spec(s3, g4);
    lemma_extends_trans(s, s3, s4);
    let name = "__neq_inv_"@ + decimal_spec(diff as nat);
    lemma_witness_wire_wf(s4, name);
    let (s5, inv) = witness_wire_spec(s4, name);
    lemma_extends_trans(s, s4, s5);
    lemma_alloc_wf(s5);
    let (s6, prod) = alloc_spec(s5);
    lemma_extends_trans(s, s5, s6);
    let g7 = Plonky3Gate::Arithmetic { left: diff, right: inv, output: prod, op: ArithOp::Mul };
    lemma_gate_wf(s6, g7);
    let s7 = gate_spec(s6, g7);
    lemma_extends_trans(s, s6, s7);
    lemma_alloc_wf(s7);
    let (s8, one) = alloc_spec(s7);
    lemma_extends_trans(s, s7, s8);
    let g9 = Plonky3Gate::Constant { wire: one, value: GoldilocksField(1) };
    lemma_gate_wf(s8, g9);
    let s9 = gate_spec(s8, g9);
    lemma_extends_trans(s, s8, s9);
    let g10 = Plonky3Gate::Equality { left: prod, right: one };
    lemma_gate_wf(s9, g10);
    lemma_extends_trans(s, s9, gate_spec(s9, g10));
}

proof fn lemma_arith_wf(s: CompileState, l: WireId, r: WireId, op: ArithOp)
    requires
        state_wf(s),
        l < s.next_wire,
        r < s.next_wire,
        s.next_wire + 1 <= usize::MAX,
    ensures
        tail_ok(s, arith_tail(s, l, r, op), 1),
{
    lemma_alloc_wf(s);
    let (s3, o) = alloc_spec(s);
    let g = Plonky3Gate::Arithmetic { left: l, right: r, output: o, op };
    lemma_gate_wf(s3, g);
    lemma_extends_trans(s, s3, gate_spec(s3, g));
}

proof fn lemma_and_or_wf(s: CompileState, l: WireId, r: WireId)
    requires
        state_wf(s),
        l < s.next_wire,
        r < s.next_wire,
        s.next_wire + 3 <= usize::MAX,
    ensures
        tail_ok(s, and_tail(s, l, r), 1),
        tail_ok(s, or_tail(s, l, r), 3),
{
    let g1 = Plonky3Gate::Boolean { wire: l };
    let g2 = Plonky3Gate::Boolean { wire: r };
    lemma_gate_wf(s, g1);
    let s1 = gate_spec(s, g1);
    lemma_gate_wf(s1, g2);
    let s3 = gate_spec(s1, g2);
    lemma_extends_trans(s, s1, s3);
    lemma_arith_wf(s3, l, r, ArithOp::Mul);
    lemma_extends_trans(s, s3, and_tail(s, l, r).0);
    lemma_alloc_wf(s3);
    let (s4, sum) = alloc_spec(s3);
    lemma_extends_trans(s, s3, s4);
    let g5 = Plonky3Gate::Arithmetic { left: l, right: r, output: sum, op: ArithOp::Add };
    lemma_gate_wf(s4, g5);
    let s5 = gate_spec(s4, g5);
    lemma_extends_trans(s, s4, s5);
    lemma_alloc_wf(s5);
    let (s6, prod) = alloc_spec(s5);
    lemma_extends_trans(s, s5, s6);
    let g7 = Plonky3Gate::Arithmetic { left: l, right: r, output: prod, op: ArithOp::Mul };
    lemma_gate_wf(s6, g7);
    let s7 = gate_spec(s6, g7);
    lemma_extends_trans(s, s6, s7);
    lemma_arith_wf(s7, sum, prod, ArithOp::Sub);
    lemma_extends_trans(s, s7, or_tail(s, l, r).0);
}

proof fn lemma_cmp_wf(s: CompileState, x: WireId, y: WireId)
    requires
        state_wf(s),
        x < s.next_wire,
        y < s.next_wire,
        s.next_wire + 3 <= usize::MAX,
    ensures
        tail_ok(s, strict_tail(s, x, y), 3),
{
    lemma_alloc_wf(s);
    let (s3, diff) = alloc_spec(s);
    let g4 = Plonky3Gate::Arithmetic { left: x, right: y, output: diff, op: ArithOp::Sub };
    lemma_gate_wf(s3, g4);
    let s4 = gate_spec(s3, g4);
    lemma_extends_trans(s, s3, s4);
    lemma_alloc_wf(s4);
    let (s5, one) = alloc_spec(s4);
    lemma_extends_trans(s, s4, s5);
    let g6 = Plonky3Gate::Constant { wire: one, value: GoldilocksField(1) };
    lemma_gate_wf(s5, g6);
    let s6 = gate_spec(s5, g6);
    lemma_extends_trans(s, s5, s6);
    lemma_alloc_wf(s6);
    let (s7, res) = alloc_spec(s6);
    lemma_extends_trans(s, s6, s7);
    let g8 = Plonky3Gate::Arithmetic { left: diff, right: one, output: res, op: ArithOp::Sub };
    lemma_gate_wf(s7, g8);
    let s8 = gate_spec(s7, g8);
    lemma_extends_trans(s, s7, s8);
    let g9 = Plonky3Gate::RangeProof { wire: res, bits: range_bits() };
    lemma_gate_wf(s8, g9);
    lemma_extends_trans(s, s8, gate_spec(s8, g9));
}

proof fn lemma_ite_wf(s: CompileState, c: WireId, t: WireId, f: WireId)
    requires
        state_wf(s),
        c < s.next_wire,
        t < s.next_wire,
        f < s.next_wire,
        s.next_wire + 1 <= usize::MAX,
    ensures
        tail_ok(s, ite_tail(s, c, t, f), 1),
{
    let g1 = Plonky3Gate::Boolean { wire: c };
    lemma_gate_wf(s, g1);
    let s4 = gate_spec(s, g1);
    lemma_alloc_wf(s4);
    let (s5, o) = alloc_spec(s4);
    lemma_extends_trans(s, s4, s5);
    let g = Plonky3Gate::Selector { condition: c, then_val: t, else_val: f, output: o };
    lemma_gate_wf(s5, g);
    lemma_extends_trans(s, s5, gate_spec(s5, g));
}

/// Compilation only adds: it never frees a wire or changes an earlier gate
/// or name binding; every wire a gate or a name binding mentions has been
/// allocated; the output wire has been allocated; and at most the budgeted
/// number of wires is allocated.
pub proof fn lemma_compile_well_formed(s: CompileState, e: ConstraintExpr)
    requires
        state_wf(s),
        s.next_wire + wire_budget(e) <= usize::MAX,
    ensures
        tail_ok(s, compile_spec(s, e), wire_budget(e)),
    decreases e,
{
    match e {
        ConstraintExpr::Constant(v) => {
            lemma_alloc_wf(s);
            let (s1, w) = alloc_spec(s);
            let g = Plonky3Gate::Constant { wire: w, value: GoldilocksField(constant_value(v)) };
            lemma_gate_wf(s1, g);
            lemma_extends_trans(s, s1, gate_spec(s1, g));
        },
        ConstraintExpr::BoolConstant(b) => {
            lemma_alloc_wf(s);
            let (s1, w) = alloc_spec(s);
            let g = Plonky3Gate::Constant {
                wire: w,
                value: GoldilocksField(
                    if b {
                        1
                    } else {
                        0
                    },
                ),
            };
            lemma_gate_wf(s1, g);
            lemma_extends_trans(s, s1, gate_spec(s1, g));
        },
        ConstraintExpr::WitnessRef(name) => {
            lemma_witness_wire_wf(s, name@);
        },
        ConstraintExpr::PublicInputRef(name) => {
            lemma_public_wire_wf(s, name@);
        },
        ConstraintExpr::IfThenElse(c, t, f) => {
            lemma_compile_well_formed(s, *c);
            let (s1, cw) = compile_spec(s, *c);
            lemma_compile_well_formed(s1, *t);
            let (s2, tw) = compile_spec(s1, *t);
            lemma_compile_well_formed(s2, *f);
            let (s3, fw) = compile_spec(s2, *f);
            lemma_extends_trans(s, s1, s2);
            lemma_extends_trans(s, s2, s3);
            lemma_ite_wf(s3, cw, tw, fw);
            lemma_extends_trans(s, s3, ite_tail(s3, cw, tw, fw).0);
        },
        ConstraintExpr::FieldAccess(base, field) => {
            lemma_compile_well_formed(s, *base);
            let (s1, bw) = compile_spec(s, *base);
            lemma_witness_wire_wf(s1, field_wire_name(bw, field@));
            lemma_extends_trans(s, s1, witness_wire_spec(s1, field_wire_name(bw, field@)).0);
        },
        ConstraintExpr::Eq(a, b) | ConstraintExpr::Neq(a, b) | ConstraintExpr::Add(a, b)
        | ConstraintExpr::Sub(a, b) | ConstraintExpr::Mul(a, b) | ConstraintExpr::And(a, b)
        | ConstraintExpr::Or(a, b) | ConstraintExpr::Lt(a, b) | ConstraintExpr::Le(a, b)
        | ConstraintExpr::Gt(a, b) | ConstraintExpr::Ge(a, b) => {
            lemma_compile_well_formed(s, *a);
            let (s1, l) = compile_spec(s, *a);
            lemma_compile_well_formed(s1, *b);
            let (s2, r) = compile_spec(s1, *b);
            lemma_extends_trans(s, s1, s2);
            match e {
                ConstraintExpr::Eq(..) => lemma_gate_wf(s2, Plonky3Gate::Equality { left: l, right: r }),
                ConstraintExpr::Neq(..) => lemma_neq_wf(s2, l, r),
                ConstraintExpr::Add(..) => lemma_arith_wf(s2, l, r, ArithOp::Add),
                ConstraintExpr::Sub(..) => lemma_arith_wf(s2, l, r, ArithOp::Sub),
                ConstraintExpr::Mul(..) => lemma_arith_wf(s2, l, r, ArithOp::Mul),
                ConstraintExpr::And(..) => {
                    let g1 = Plonky3Gate::Boolean { wire: l };
                    let g2 = Plonky3Gate::Boolean { wire: r };
                    lemma_gate_wf(s2, g1);
                    lemma_gate_wf(gate_spec(s2, g1), g2);
                    lemma_extends_trans(s2, gate_spec(s2, g1), gate_spec(gate_spec(s2, g1), g2));
                    lemma_arith_wf(gate_spec(gate_spec(s2, g1), g2), l, r, ArithOp::Mul);
                    lemma_extends_trans(s2, gate_spec(gate_spec(s2, g1), g2), and_tail(s2, l, r).0);
                },
                ConstraintExpr::Or(..) => lemma_and_or_wf(s2, l, r),
                ConstraintExpr::Lt(..) => lemma_cmp_wf(s2, r, l),
                ConstraintExpr::Gt(..) => lemma_cmp_wf(s2, l, r),
                ConstraintExpr::Le(..) => lemma_weak_wf(s2, r, l),
                ConstraintExpr::Ge(..) => lemma_weak_wf(s2, l, r),
                _ => {},
            }
            let t = compile_spec(s, e);
            lemma_extends_trans(s, s2, t.0);
        },
    }
}

/// A name that a list already maps keeps its wire when entries are only
/// appended to the list.
pub proof fn lemma_lookup_kept(m: Seq<(Seq<char>, WireId)>, t: Seq<(Seq<char>, WireId)>, name: Seq<char>)
    requires
        m.len() <= t.len(),
        t.subrange(0, m.len() as int) == m,
        lookup_wire(m, name) is Some,
    ensures
        lookup_wire(t, name) == lookup_wire(m, name),
    decreases m.len(),
{
    assert(t[0] == m[0]);
    if m[0].0 != name {
        assert(t.drop_first().subrange(0, m.drop_first().len() as int) =~= m.drop_first());
        lemma_lookup_kept(m.drop_first(), t.drop_first(), name);
    }
}

/// The state a fresh compilation context starts from is well formed.
pub proof fn lemma_initial_state_wf()
    ensures
        state_wf(
            CompileState {
                next_wire: 0,
                gates: Seq::empty(),
                witness_wires: Seq::empty(),
                public_input_wires: Seq::empty(),
            },
        ),
{
}

/// Compiling an expression from a well-formed state only appends: the
/// earlier gates stay a prefix, no wire is freed, every name keeps the
/// wire it had, the output wire is allocated, the state stays well formed,
/// and a witness that already has a wire is answered with that wire, with
/// no new gate or wire.
pub proof fn lemma_compile_appends(s: CompileState, e: ConstraintExpr)
    requires
        state_wf(s),
        s.next_wire + wire_budget(e) <= usize::MAX,
    ensures
        state_wf(compile_spec(s, e).0),
        extends(s, compile_spec(s, e).0),
        s.next_wire <= compile_spec(s, e).0.next_wire,
        compile_spec(s, e).1 < compile_spec(s, e).0.next_wire,
        forall|name: Seq<char>|
            #![trigger lookup_wire(compile_spec(s, e).0.witness_wires, name)]
            lookup_wire(s.witness_wires, name) is Some ==> lookup_wire(
                compile_spec(s, e).0.witness_wires,
                name,
            ) == lookup_wire(s.witness_wires, name),
        forall|name: Seq<char>|
            #![trigger lookup_wire(compile_spec(s, e).0.public_input_wires, name)]
            lookup_wire(s.public_input_wires, name) is Some ==> lookup_wire(
                compile_spec(s, e).0.public_input_wires,
                name,
            ) == lookup_wire(s.public_input_wires, name),
        e matches ConstraintExpr::WitnessRef(n) ==> (lookup_wire(s.witness_wires, n@) is Some ==> (
        compile_spec(s, e) == (s, lookup_wire(s.witness_wires, n@)->0))),
{
    lemma_compile_well_formed(s, e);
    let t = compile_spec(s, e).0;
    assert forall|name: Seq<char>| lookup_wire(s.witness_wires, name) is Some implies lookup_wire(
        t.witness_wires,
        name,
    ) == lookup_wire(s.witness_wires, name) by {
        lemma_lookup_kept(s.witness_wires, t.witness_wires, name);
    }
    assert forall|name: Seq<char>| lookup_wire(s.public_input_wires, name) is Some implies lookup_wire(
        t.public_input_wires,
        name,
    ) == lookup_wire(s.public_input_wires, name) by {
        lemma_lookup_kept(s.public_input_wires, t.public_input_wires, name);
    }
}

/// The state after compiling the two operands of a binary node, left
/// operand first, with the left and right operand wires.
pub open spec fn operands_compiled(s: CompileState, a: ConstraintExpr, b: ConstraintExpr) -> (
    CompileState,
    WireId,
    WireId,
) {
    let (s1, wa) = compile_spec(s, a);
    let (s2, wb) = compile_spec(s1, b);
    (s2, wa, wb)
}

/// Comparisons compile to range proofs on the right difference: `a < b`
/// range-proves `(b - a) - 1`, `a > b` range-proves `(a - b) - 1`,
/// `a <= b` range-proves `b - a` and `a >= b` range-proves `a - b`. The
/// subtraction gate takes the minuend as its left wire, and the node's
/// output is the range-checked wire.
pub proof fn lemma_comparison_gates(s: CompileState, a: ConstraintExpr, b: ConstraintExpr)
    ensures
        ({
            let (s2, wa, wb) = operands_compiled(s, a, b);
            let n = s2.next_wire;
            let strict = |x: WireId, y: WireId|
                seq![
                    Plonky3Gate::Arithmetic { left: x, right: y, output: n as WireId, op: ArithOp::Sub },
                    Plonky3Gate::Constant { wire: (n + 1) as WireId, value: GoldilocksField(1) },
                    Plonky3Gate::Arithmetic {
                        left: n as WireId,
                        right: (n + 1) as WireId,
                        output: (n + 2) as WireId,
                        op: ArithOp::Sub,
                    },
                    Plonky3Gate::RangeProof { wire: (n + 2) as WireId, bits: 64 },
                ];
            let weak = |x: WireId, y: WireId|
                seq![
                    Plonky3Gate::Arithmetic { left: x, right: y, output: n as WireId, op: ArithOp::Sub },
                    Plonky3Gate::RangeProof { wire: n as WireId, bits: 64 },
                ];
            &&& compile_spec(s, ConstraintExpr::Lt(Box::new(a), Box::new(b))).0.gates == s2.gates
                + strict(wb, wa)
            &&& compile_spec(s, ConstraintExpr::Lt(Box::new(a), Box::new(b))).1 == (n + 2) as WireId
            &&& compile_spec(s, ConstraintExpr::Gt(Box::new(a), Box::new(b))).0.gates == s2.gates
                + strict(wa, wb)
            &&& compile_spec(s, ConstraintExpr::Gt(Box::new(a), Box::new(b))).1 == (n + 2) as WireId
            &&& compile_spec(s, ConstraintExpr::Le(Box::new(a), Box::new(b))).0.gates == s2.gates
                + weak(wb, wa)
            &&& compile_spec(s, ConstraintExpr::Le(Box::new(a), Box::new(b))).1 == n as WireId
            &&& compile_spec(s, ConstraintExpr::Ge(Box::new(a), Box::new(b))).0.gates == s2.gates
                + weak(wa, wb)
            &&& compile_spec(s, ConstraintExpr::Ge(Box::new(a), Box::new(b))).1 == n as WireId
        }),
{
    let (s2, wa, wb) = operands_compiled(s, a, b);
    let n = s2.next_wire;
    assert(compile_spec(s, ConstraintExpr::Lt(Box::new(a), Box::new(b))).0.gates =~= s2.gates + seq![
        Plonky3Gate::Arithmetic { left: wb, right: wa, output: n as WireId, op: ArithOp::Sub },
        Plonky3Gate::Constant { wire: (n + 1) as WireId, value: GoldilocksField(1) },
        Plonky3Gate::Arithmetic {
            left: n as WireId,
            right: (n + 1) as WireId,
            output: (n + 2) as WireId,
            op: ArithOp::Sub,
        },
        Plonky3Gate::RangeProof { wire: (n + 2) as WireId, bits: 64 },
    ]);
    assert(compile_spec(s, ConstraintExpr::Gt(Box::new(a), Box::new(b))).0.gates =~= s2.gates + seq![
        Plonky3Gate::Arithmetic { left: wa, right: wb, output: n as WireId, op: ArithOp::Sub },
        Plonky3Gate::Constant { wire: (n + 1) as WireId, value: GoldilocksField(1) },
        Plonky3Gate::Arithmetic {
            left: n as WireId,
            right: (n + 1) as WireId,
            output: (n + 2) as WireId,
            op: ArithOp::Sub,
        },
        Plonky3Gate::RangeProof { wire: (n + 2) as WireId, bits: 64 },
    ]);
    assert(compile_spec(s, ConstraintExpr::Le(Box::new(a), Box::new(b))).0.gates =~= s2.gates + seq![
        Plonky3Gate::Arithmetic { left: wb, right: wa, output: n as WireId, op: ArithOp::Sub },
        Plonky3Gate::RangeProof { wire: n as WireId, bits: 64 },
    ]);
    assert(compile_spec(s, ConstraintExpr::Ge(Box::new(a), Box::new(b))).0.gates =~= s2.gates + seq![
        Plonky3Gate::Arithmetic { left: wa, right: wb, output: n as WireId, op: ArithOp::Sub },
        Plonky3Gate::RangeProof { wire: n as WireId, bits: 64 },
    ]);
}

/// Arithmetic, equality and selection nodes keep their operands in order:
/// `a - b` subtracts the right operand's wire from the left one's (and
/// likewise for `+` and `*`), `a == b` equates the left wire with the right
/// one, and a conditional selects its then-branch's wire when the
/// condition holds and its else-branch's wire otherwise.
pub proof fn lemma_operand_order(s: CompileState, a: ConstraintExpr, b: ConstraintExpr, c: ConstraintExpr)
    ensures
        ({
            let (s2, wa, wb) = operands_compiled(s, a, b);
            let n = s2.next_wire;
            &&& compile_spec(s, ConstraintExpr::Sub(Box::new(a), Box::new(b))).0.gates == s2.gates.push(
                Plonky3Gate::Arithmetic { left: wa, right: wb, output: n as WireId, op: ArithOp::Sub },
            )
            &&& compile_spec(s, ConstraintExpr::Add(Box::new(a), Box::new(b))).0.gates == s2.gates.push(
                Plonky3Gate::Arithmetic { left: wa, right: wb, output: n as WireId, op: ArithOp::Add },
            )
            &&& compile_spec(s, ConstraintExpr::Mul(Box::new(a), Box::new(b))).0.gates == s2.gates.push(
                Plonky3Gate::Arithmetic { left: wa, right: wb, output: n as WireId, op: ArithOp::Mul },
            )
            &&& compile_spec(s, ConstraintExpr::Sub(Box::new(a), Box::new(b))).1 == n as WireId
            &&& compile_spec(s, ConstraintExpr::Add(Box::new(a), Box::new(b))).1 == n as WireId
            &&& compile_spec(s, ConstraintExpr::Mul(Box::new(a), Box::new(b))).1 == n as WireId
            &&& compile_spec(s, ConstraintExpr::Eq(Box::new(a), Box::new(b))).0.gates == s2.gates.push(
                Plonky3Gate::Equality { left: wa, right: wb },
            )
        }),
        ({
            let (s1, wc) = compile_spec(s, c);
            let (s3, wt, wf) = operands_compiled(s1, a, b);
            let n = s3.next_wire;
            &&& compile_spec(
                s,
                ConstraintExpr::IfThenElse(Box::new(c), Box::new(a), Box::new(b)),
            ).0.gates == s3.gates.push(Plonky3Gate::Boolean { wire: wc }).push(
                Plonky3Gate::Selector { condition: wc, then_val: wt, else_val: wf, output: n as WireId },
            )
            &&& compile_spec(s, ConstraintExpr::IfThenElse(Box::new(c), Box::new(a), Box::new(b))).1
                == n as WireId
        }),
{
}

} // verus!
