//! The Plonky3 STARK backend's configuration, proof artifact and its byte
//! format, and the preconditions of proof composition.

use vstd::prelude::*;
use vstd::utf8::*;
use vstd::arithmetic::power2::pow2;

use crate::codec::{append_bytes, append_var_field, read_exact, read_u32, var_field};
use crate::encoding::{le_u32_value, le_u64_value, push_u32_le, u32_le, u64_from_le, u64_le};
use crate::goldilocks::{GoldilocksField, GOLDILOCKS_MODULUS};
use crate::public_inputs::PublicInputs;
use crate::text::{
    concat2, decimal, decimal_spec, has_prefix, owned, push_str, string_from_utf8, utf8_bytes,
};


verus! {

// ---------------------------------------------------------------------------
// Errors
// ---------------------------------------------------------------------------

/// Failure of the Plonky3 backend. Every message names the backend.
#[derive(Debug)]
pub enum Plonky3Error {
    EmptyWitness,
    ProofGenerationFailed(String),
    DeserializationFailed(String),
    UnsupportedGate(String),
    VersionMismatch { expected: String, actual: String },
    WitnessAssignmentFailed(String),
    CompositionTooFewProofs,
    StateChainBroken { left: usize, right: usize },
    CompositionDomainMismatch { index: usize },
    CompositionVersionMismatch { index: usize },
}

/// Abstract value of an error.
pub enum Plonky3ErrorModel {
    EmptyWitness,
    ProofGenerationFailed(Seq<char>),
    DeserializationFailed(Seq<char>),
    UnsupportedGate(Seq<char>),
    VersionMismatch { expected: Seq<char>, actual: Seq<char> },
    WitnessAssignmentFailed(Seq<char>),
    CompositionTooFewProofs,
    StateChainBroken { left: usize, right: usize },
    CompositionDomainMismatch { index: usize },
    CompositionVersionMismatch { index: usize },
}

impl View for Plonky3Error {
    type V = Plonky3ErrorModel;

    open spec fn view(&self) -> Plonky3ErrorModel {
        match self {
            Plonky3Error::EmptyWitness => Plonky3ErrorModel::EmptyWitness,
            Plonky3Error::ProofGenerationFailed(s) => Plonky3ErrorModel::ProofGenerationFailed(s@),
            Plonky3Error::DeserializationFailed(s) => Plonky3ErrorModel::DeserializationFailed(s@),
            Plonky3Error::UnsupportedGate(s) => Plonky3ErrorModel::UnsupportedGate(s@),
            Plonky3Error::VersionMismatch { expected, actual } => Plonky3ErrorModel::VersionMismatch {
                expected: expected@,
                actual: actual@,
            },
            Plonky3Error::WitnessAssignmentFailed(s) => Plonky3ErrorModel::WitnessAssignmentFailed(
                s@,
            ),
            Plonky3Error::CompositionTooFewProofs => Plonky3ErrorModel::CompositionTooFewProofs,
            Plonky3Error::StateChainBroken { left, right } => Plonky3ErrorModel::StateChainBroken {
                left: *left,
                right: *right,
            },
            Plonky3Error::CompositionDomainMismatch { index } =>
                Plonky3ErrorModel::CompositionDomainMismatch { index: *index },
            Plonky3Error::CompositionVersionMismatch { index } =>
                Plonky3ErrorModel::CompositionVersionMismatch { index: *index },
        }
    }
}

/// Display text of an error.
pub open spec fn plonky3_error_text(e: Plonky3ErrorModel) -> Seq<char> {
    match e {
        Plonky3ErrorModel::EmptyWitness =>
            "plonky3-stark: empty witness: cannot generate proof for a witness with no inputs"@,
        Plonky3ErrorModel::ProofGenerationFailed(s) => "plonky3-stark: proof generation failed: "@
            + s,
        Plonky3ErrorModel::DeserializationFailed(s) => "plonky3-stark: deserialization failed: "@
            + s,
        Plonky3ErrorModel::UnsupportedGate(s) => "plonky3-stark: unsupported gate: "@ + s,
        Plonky3ErrorModel::VersionMismatch { expected, actual } =>
            "plonky3-stark: version mismatch: expected "@ + expected + ", got "@ + actual,
        Plonky3ErrorModel::WitnessAssignmentFailed(s) =>
            "plonky3-stark: witness assignment failed for variable: "@ + s,
        Plonky3ErrorModel::CompositionTooFewProofs =>
            "plonky3-stark: composition requires at least 2 proofs"@,
        Plonky3ErrorModel::StateChainBroken { left, right } =>
            "plonky3-stark: state chain broken: proof["@ + decimal_spec(left as nat)
                + "].root_final != proof["@ + decimal_spec(right as nat) + "].root_init"@,
        Plonky3ErrorModel::CompositionDomainMismatch { index } =>
            "plonky3-stark: domain mismatch: proof[0] domain differs from proof["@ + decimal_spec(
                index as nat,
            ) + "]"@,
        Plonky3ErrorModel::CompositionVersionMismatch { index } =>
            "plonky3-stark: version mismatch: proof[0] version differs from proof["@
                + decimal_spec(index as nat) + "]"@,
    }
}

impl Plonky3Error {
    /// The error's display text.
    pub fn message(&self) -> (m: String)
        ensures
            m@ == plonky3_error_text(self@),
    {
        match self {
            Plonky3Error::EmptyWitness => owned(
                "plonky3-stark: empty witness: cannot generate proof for a witness with no inputs",
            ),
            Plonky3Error::ProofGenerationFailed(s) => concat2(
                "plonky3-stark: proof generation failed: ",
                s.as_str(),
            ),
            Plonky3Error::DeserializationFailed(s) => concat2(
                "plonky3-stark: deserialization failed: ",
                s.as_str(),
            ),
            Plonky3Error::UnsupportedGate(s) => concat2(
                "plonky3-stark: unsupported gate: ",
                s.as_str(),
            ),
            Plonky3Error::VersionMismatch { expected, actual } => {
                let mut m = concat2("plonky3-stark: version mismatch: expected ", expected.as_str());
                push_str(&mut m, ", got ");
                push_str(&mut m, actual.as_str());
                m
            },
            Plonky3Error::WitnessAssignmentFailed(s) => concat2(
                "plonky3-stark: witness assignment failed for variable: ",
                s.as_str(),
            ),
            Plonky3Error::CompositionTooFewProofs => owned(
                "plonky3-stark: composition requires at least 2 proofs",
            ),
            Plonky3Error::StateChainBroken { left, right } => {
                let mut m = owned("plonky3-stark: state chain broken: proof[");
                push_str(&mut m, decimal(*left as u64).as_str());
                push_str(&mut m, "].root_final != proof[");
                push_str(&mut m, decimal(*right as u64).as_str());
                push_str(&mut m, "].root_init");
                m
            },
            Plonky3Error::CompositionDomainMismatch { index } => {
                let mut m = owned(
                    "plonky3-stark: domain mismatch: proof[0] domain differs from proof[",
                );
                push_str(&mut m, decimal(*index as u64).as_str());
                push_str(&mut m, "]");
                m
            },
            Plonky3Error::CompositionVersionMismatch { index } => {
                let mut m = owned(
                    "plonky3-stark: version mismatch: proof[0] version differs from proof[",
                );
                push_str(&mut m, decimal(*index as u64).as_str());
                push_str(&mut m, "]");
                m
            },
        }
    }
}

fn deserialization_failed(msg: &str) -> (e: Plonky3Error)
    ensures
        e@ == Plonky3ErrorModel::DeserializationFailed(msg@),
{
    Plonky3Error::DeserializationFailed(owned(msg))
}

// ---------------------------------------------------------------------------
// Configuration
// ---------------------------------------------------------------------------

/// Security and FRI parameters of the backend.
#[derive(Clone, Copy, Debug)]
pub struct Plonky3Config {
    /// Target security level in bits.
    pub security_bits: u32,
    /// Number of FRI queries.
    pub num_fri_queries: u32,
    /// FRI folding factor (log2).
    pub fri_folding_factor: u32,
    /// Blowup factor of the low-degree extension.
    pub blowup_factor: u32,
}

/// `floor(log2(n))`, and zero for zero.
pub open spec fn floor_log2(n: nat) -> nat
    decreases n,
{
    if n <= 1 {
        0
    } else {
        1 + floor_log2(n / 2)
    }
}

/// FRI soundness in bits: queries times whole bits per query.
pub open spec fn fri_soundness_bits_spec(c: Plonky3Config) -> int {
    c.num_fri_queries * floor_log2(c.blowup_factor as nat)
}

proof fn lemma_floor_log2_le(n: nat)
    ensures
        floor_log2(n) <= n,
        n > 1 ==> floor_log2(n) >= 1,
    decreases n,
{
    if n > 1 {
        lemma_floor_log2_le(n / 2);
    }
}

fn floor_log2_exec(n: u32) -> (r: u32)
    ensures
        r == floor_log2(n as nat),
{
    let mut m = n;
    let mut r: u32 = 0;
    proof {
        lemma_floor_log2_le(n as nat);
    }
    while m > 1
        invariant
            r + floor_log2(m as nat) == floor_log2(n as nat),
            floor_log2(n as nat) <= n,
        decreases m,
    {
        proof {
            lemma_floor_log2_le(m as nat);
        }
        m = m / 2;
        r = r + 1;
    }
    r
}

impl Plonky3Config {
    /// The default: 100-bit target, 34 queries, folding factor 2, blowup 8.
    pub fn default_config() -> (c: Plonky3Config)
        ensures
            c.security_bits == 100,
            c.num_fri_queries == 34,
            c.fri_folding_factor == 2,
            c.blowup_factor == 8,
    {
        Plonky3Config { security_bits: 100, num_fri_queries: 34, fri_folding_factor: 2, blowup_factor: 8 }
    }

    /// FRI soundness in bits: `num_fri_queries * floor(log2(blowup_factor))`.
    pub fn fri_soundness_bits(&self) -> (b: u32)
        requires
            fri_soundness_bits_spec(*self) <= u32::MAX,
        ensures
            b == fri_soundness_bits_spec(*self),
    {
        let bits_per_query = floor_log2_exec(self.blowup_factor);
        self.num_fri_queries * bits_per_query
    }

    /// Whether FRI soundness alone meets the security target.
    pub fn meets_security_target(&self) -> (b: bool)
        requires
            fri_soundness_bits_spec(*self) <= u32::MAX,
        ensures
            b == (fri_soundness_bits_spec(*self) >= self.security_bits),
    {
        self.fri_soundness_bits() >= self.security_bits
    }
}

impl Default for Plonky3Config {
    fn default() -> (c: Plonky3Config)
        ensures
            c.security_bits == 100,
            c.num_fri_queries == 34,
            c.fri_folding_factor == 2,
            c.blowup_factor == 8,
    {
        Plonky3Config::default_config()
    }
}

/// Whether `n` is a power of two.
pub open spec fn is_power_of_two(n: nat) -> bool {
    exists|k: nat| pow2(k) == n
}

proof fn lemma_floor_log2_pow2(k: nat)
    ensures
        floor_log2(pow2(k)) == k,
    decreases k,
{
    vstd::arithmetic::power2::lemma_pow2_pos(k);
    if k > 0 {
        vstd::arithmetic::power2::lemma_pow2_unfold(k);
        vstd::arithmetic::power2::lemma_pow2_pos((k - 1) as nat);
        lemma_floor_log2_pow2((k - 1) as nat);
        assert(pow2(k) / 2 == pow2((k - 1) as nat));
    } else {
        vstd::arithmetic::power2::lemma2_to64();
    }
}

/// The FRI parameters a configuration gives the proving system's FRI
/// commitment scheme, as plain values.
#[derive(Clone, Copy, Debug, PartialEq, Eq)]
pub struct FriParameterValues {
    /// log2 of the blowup factor.
    pub log_blowup: usize,
    /// log2 of the length of the final polynomial.
    pub log_final_poly_len: usize,
    /// Largest folding arity, as a log2.
    pub max_log_arity: usize,
    /// Number of FRI queries.
    pub num_queries: usize,
    /// Grinding bits before each commit-phase challenge.
    pub commit_proof_of_work_bits: usize,
    /// Grinding bits before the queries are sampled.
    pub query_proof_of_work_bits: usize,
}

/// The FRI parameters of a configuration whose blowup factor is a power of
/// two: log2 of the blowup, the folding factor as the largest arity, the
/// query count, a constant final polynomial and no grinding.
pub fn build_fri_param_values(config: &Plonky3Config) -> (p: FriParameterValues)
    requires
        is_power_of_two(config.blowup_factor as nat),
    ensures
        pow2(p.log_blowup as nat) == config.blowup_factor,
        p.log_final_poly_len == 0,
        p.max_log_arity == config.fri_folding_factor,
        p.num_queries == config.num_fri_queries,
        p.commit_proof_of_work_bits == 0,
        p.query_proof_of_work_bits == 0,
{
    let ghost k = choose|k: nat| pow2(k) == config.blowup_factor;
    proof {
        lemma_floor_log2_pow2(k);
    }
    let log_blowup = floor_log2_exec(config.blowup_factor);
    FriParameterValues {
        log_blowup: log_blowup as usize,
        log_final_poly_len: 0,
        max_log_arity: config.fri_folding_factor as usize,
        num_queries: config.num_fri_queries as usize,
        commit_proof_of_work_bits: 0,
        query_proof_of_work_bits: 0,
    }
}

// ---------------------------------------------------------------------------
// Backend
// ---------------------------------------------------------------------------

/// Circuit builder of the backend.
#[derive(Clone, Copy, Debug)]
pub struct Plonky3CircuitBuilder;

/// The Plonky3 STARK backend over the Goldilocks field.
pub struct Plonky3Backend {
    pub circuit_builder: Plonky3CircuitBuilder,
    pub config: Plonky3Config,
}

/// Largest proof accepted for deserialization, in bytes.
pub const MAX_PROOF_SIZE_BYTES: usize = 10_485_760;

/// Largest number of proofs in one composition.
pub const MAX_RECURSION_DEPTH: usize = 100;

/// Largest constraint system accepted for proving.
pub const MAX_CONSTRAINT_SYSTEM_SIZE: usize = 1_000_000;

/// Largest number of intermediate states in a witness.
pub const MAX_WITNESS_INTERMEDIATE_STATES: usize = 100_000;

impl Default for Plonky3Backend {
    fn default() -> (b: Plonky3Backend)
        ensures
            b.config.security_bits == 100,
            b.config.num_fri_queries == 34,
            b.config.fri_folding_factor == 2,
            b.config.blowup_factor == 8,
    {
        Plonky3Backend::new()
    }
}

impl Plonky3Backend {
    /// A backend with the default configuration.
    pub fn new() -> (b: Plonky3Backend)
        ensures
            b.config.security_bits == 100,
            b.config.num_fri_queries == 34,
            b.config.fri_folding_factor == 2,
            b.config.blowup_factor == 8,
    {
        Plonky3Backend { circuit_builder: Plonky3CircuitBuilder, config: Plonky3Config::default_config() }
    }

    /// A backend with the given configuration.
    pub fn with_config(config: Plonky3Config) -> (b: Plonky3Backend)
        ensures
            b.config == config,
    {
        Plonky3Backend { circuit_builder: Plonky3CircuitBuilder, config }
    }

    /// `plonky3-stark`.
    pub fn backend_id(&self) -> (s: &'static str)
        ensures
            s@ == "plonky3-stark"@,
    {
        "plonky3-stark"
    }

    /// STARK proofs are post-quantum.
    pub fn is_post_quantum(&self) -> (b: bool)
        ensures
            b,
    {
        true
    }
}


// ---------------------------------------------------------------------------
// Proof artifact
// ---------------------------------------------------------------------------

/// A STARK proof of the backend.
#[derive(Clone, Debug)]
pub struct StarkProof {
    /// FRI commitment layers.
    pub fri_commitments: Vec<Vec<u8>>,
    /// FRI query responses.
    pub query_responses: Vec<Vec<u8>>,
    /// Public input values committed in the proof.
    pub public_input_values: Vec<GoldilocksField>,
    /// Backend identifier.
    pub backend_id: String,
    /// Cached serialized form.
    pub serialized: Vec<u8>,
    /// Native proof bytes.
    pub native_proof_bytes: Vec<u8>,
}

/// Abstract value of a proof (all fields but the cached serialization).
pub struct StarkModel {
    pub fri_commitments: Seq<Seq<u8>>,
    pub query_responses: Seq<Seq<u8>>,
    pub public_input_values: Seq<u64>,
    pub backend_id: Seq<char>,
    pub native_proof_bytes: Seq<u8>,
}

/// Abstract value of a list of byte strings.
pub open spec fn bytes_list_view(l: Seq<Vec<u8>>) -> Seq<Seq<u8>> {
    l.map_values(|v: Vec<u8>| v@)
}

/// Abstract value of a list of field elements.
pub open spec fn field_list_view(l: Seq<GoldilocksField>) -> Seq<u64> {
    l.map_values(|f: GoldilocksField| f.0)
}

impl View for StarkProof {
    type V = StarkModel;

    open spec fn view(&self) -> StarkModel {
        StarkModel {
            fri_commitments: bytes_list_view(self.fri_commitments@),
            query_responses: bytes_list_view(self.query_responses@),
            public_input_values: field_list_view(self.public_input_values@),
            backend_id: self.backend_id@,
            native_proof_bytes: self.native_proof_bytes@,
        }
    }
}

/// Length-prefixed fields of a list of byte strings, in order.
pub open spec fn var_list_bytes(l: Seq<Seq<u8>>) -> Seq<u8>
    decreases l.len(),
{
    if l.len() == 0 {
        Seq::empty()
    } else {
        var_list_bytes(l.drop_last()) + var_field(l.last())
    }
}

/// Little-endian bytes of a list of values, in order.
pub open spec fn u64_list_bytes(l: Seq<u64>) -> Seq<u8>
    decreases l.len(),
{
    if l.len() == 0 {
        Seq::empty()
    } else {
        u64_list_bytes(l.drop_last()) + u64_le(l.last())
    }
}

/// The magic bytes `STAR`.
pub open spec fn stark_magic() -> Seq<u8> {
    seq![0x53u8, 0x54u8, 0x41u8, 0x52u8]
}

/// The serialized form of a proof.
pub open spec fn stark_encoding(m: StarkModel) -> Seq<u8> {
    (stark_magic() + seq![1u8]) + (u32_le(m.fri_commitments.len() as u32) + (var_list_bytes(
        m.fri_commitments,
    ) + (u32_le(m.query_responses.len() as u32) + (var_list_bytes(m.query_responses) + (u32_le(
        m.public_input_values.len() as u32,
    ) + (u64_list_bytes(m.public_input_values) + (var_field(utf8_bytes(m.backend_id))
        + var_field(m.native_proof_bytes))))))))
}

/// The length-prefixed field at `pos` and the position after it.
pub open spec fn var_at(b: Seq<u8>, pos: int) -> Option<(Seq<u8>, int)> {
    if 0 <= pos && pos + 4 <= b.len() {
        let n = le_u32_value(b.subrange(pos, pos + 4));
        if pos + 4 + n <= b.len() {
            Some((b.subrange(pos + 4, pos + 4 + n), pos + 4 + n))
        } else {
            None
        }
    } else {
        None
    }
}

/// The little-endian `u32` at `pos` and the position after it.
pub open spec fn u32_at(b: Seq<u8>, pos: int) -> Option<(nat, int)> {
    if 0 <= pos && pos + 4 <= b.len() {
        Some((le_u32_value(b.subrange(pos, pos + 4)) as nat, pos + 4))
    } else {
        None
    }
}

/// `n` consecutive length-prefixed fields from `pos`.
pub open spec fn var_list_at(b: Seq<u8>, pos: int, n: nat) -> Option<(Seq<Seq<u8>>, int)>
    decreases n,
{
    if n == 0 {
        Some((Seq::empty(), pos))
    } else {
        match var_list_at(b, pos, (n - 1) as nat) {
            Some((l, p)) => match var_at(b, p) {
                Some((v, q)) => Some((l.push(v), q)),
                None => None,
            },
            None => None,
        }
    }
}

/// `n` consecutive field elements from `pos`, each reduced modulo `p`.
pub open spec fn field_list_at(b: Seq<u8>, pos: int, n: nat) -> Option<(Seq<u64>, int)>
    decreases n,
{
    if n == 0 {
        Some((Seq::empty(), pos))
    } else {
        match field_list_at(b, pos, (n - 1) as nat) {
            Some((l, p)) => if 0 <= p && p + 8 <= b.len() {
                Some(
                    (
                        l.push((le_u64_value(b.subrange(p, p + 8)) % GOLDILOCKS_MODULUS as int) as u64),
                        p + 8,
                    ),
                )
            } else {
                None
            },
            None => None,
        }
    }
}

/// The proof a byte string decodes to: magic and version, the commitment,
/// response and value lists, a UTF-8 backend id, then native proof bytes
/// when any bytes remain (bytes after those are ignored).
pub open spec fn stark_decode(b: Seq<u8>) -> Option<StarkModel> {
    if b.len() < 5 || b.subrange(0, 4) != stark_magic() || b[4] != 1u8 {
        None
    } else {
        match u32_at(b, 5) {
            None => None,
            Some((nf, p1)) => match var_list_at(b, p1, nf) {
                None => None,
                Some((fri, p2)) => match u32_at(b, p2) {
                    None => None,
                    Some((nq, p3)) => match var_list_at(b, p3, nq) {
                        None => None,
                        Some((queries, p4)) => match u32_at(b, p4) {
                            None => None,
                            Some((nv, p5)) => match field_list_at(b, p5, nv) {
                                None => None,
                                Some((values, p6)) => match var_at(b, p6) {
                                    None => None,
                                    Some((id, p7)) => if !valid_utf8(id) {
                                        None
                                    } else if p7 < b.len() {
                                        match var_at(b, p7) {
                                            None => None,
                                            Some((native, _p8)) => Some(
                                                StarkModel {
                                                    fri_commitments: fri,
                                                    query_responses: queries,
                                                    public_input_values: values,
                                                    backend_id: decode_utf8(id),
                                                    native_proof_bytes: native,
                                                },
                                            ),
                                        }
                                    } else {
                                        Some(
                                            StarkModel {
                                                fri_commitments: fri,
                                                query_responses: queries,
                                                public_input_values: values,
                                                backend_id: decode_utf8(id),
                                                native_proof_bytes: Seq::empty(),
                                            },
                                        )
                                    },
                                },
                            },
                        },
                    },
                },
            },
        }
    }
}

fn append_var_list(buf: &mut Vec<u8>, l: &Vec<Vec<u8>>)
    ensures
        final(buf)@ == old(buf)@ + u32_le(l@.len() as u32) + var_list_bytes(bytes_list_view(l@)),
{
    push_u32_le(buf, l.len() as u32);
    let ghost mid = buf@;
    let mut i: usize = 0;
    while i < l.len()
        invariant
            i <= l.len(),
            buf@ == mid + var_list_bytes(bytes_list_view(l@.subrange(0, i as int))),
        decreases l.len() - i,
    {
        append_var_field(buf, l[i].as_slice());
        proof {
            let s = bytes_list_view(l@.subrange(0, i + 1));
            assert(s.drop_last() =~= bytes_list_view(l@.subrange(0, i as int)));
            assert(s.last() == l@[i as int]@);
        }
        i += 1;
        assert(buf@ =~= mid + var_list_bytes(bytes_list_view(l@.subrange(0, i as int))));
    }
    assert(l@.subrange(0, l.len() as int) =~= l@);
}

impl StarkProof {
    /// The serialized form.
    pub fn to_bytes(&self) -> (out: Vec<u8>)
        ensures
            out@ == stark_encoding(self@),
    {
        let mut buf: Vec<u8> = Vec::new();
        buf.push(0x53);
        buf.push(0x54);
        buf.push(0x41);
        buf.push(0x52);
        buf.push(1);
        append_var_list(&mut buf, &self.fri_commitments);
        append_var_list(&mut buf, &self.query_responses);
        push_u32_le(&mut buf, self.public_input_values.len() as u32);
        let ghost mid = buf@;
        let ghost vals = self@.public_input_values;
        let mut i: usize = 0;
        while i < self.public_input_values.len()
            invariant
                i <= self.public_input_values.len(),
                vals == field_list_view(self.public_input_values@),
                buf@ == mid + u64_list_bytes(vals.subrange(0, i as int)),
            decreases self.public_input_values.len() - i,
        {
            let b = self.public_input_values[i].to_bytes();
            append_bytes(&mut buf, b.as_slice());
            proof {
                let s = vals.subrange(0, i + 1);
                assert(s.drop_last() =~= vals.subrange(0, i as int));
            }
            i += 1;
            assert(buf@ =~= mid + u64_list_bytes(vals.subrange(0, i as int)));
        }
        assert(vals.subrange(0, self.public_input_values.len() as int) =~= vals);
        append_var_field(&mut buf, self.backend_id.as_str().as_bytes());
        append_var_field(&mut buf, self.native_proof_bytes.as_slice());
        assert(buf@ =~= stark_encoding(self@));
        buf
    }

    /// The cached serialized form.
    pub fn as_ref(&self) -> (b: &[u8])
        ensures
            b@ == self.serialized@,
    {
        self.serialized.as_slice()
    }
}

/// Text of the error for data that ends before `need` bytes at `pos`.
pub open spec fn truncated_text(pos: int, need: int, total: int) -> Seq<char> {
    "unexpected end of data at offset "@ + decimal_spec(pos as nat) + ", need "@ + decimal_spec(
        need as nat,
    ) + " bytes, have "@ + decimal_spec(
        if total >= pos {
            (total - pos) as nat
        } else {
            0
        },
    )
}

/// Why no length-prefixed field can be read at `pos`: its length or its
/// content runs past the end.
pub open spec fn var_error(b: Seq<u8>, pos: int) -> Seq<char> {
    if pos + 4 > b.len() {
        truncated_text(pos, 4, b.len() as int)
    } else {
        truncated_text(pos + 4, le_u32_value(b.subrange(pos, pos + 4)), b.len() as int)
    }
}

/// Why `n` length-prefixed fields cannot be read from `pos`: the error of
/// the first one that cannot.
pub open spec fn var_list_error(b: Seq<u8>, pos: int, n: nat) -> Option<Seq<char>>
    decreases n,
{
    if n == 0 {
        None
    } else {
        match var_list_at(b, pos, (n - 1) as nat) {
            None => var_list_error(b, pos, (n - 1) as nat),
            Some((_, p)) => if var_at(b, p) is None {
                Some(var_error(b, p))
            } else {
                None
            },
        }
    }
}

/// Why `n` field elements cannot be read from `pos`: the first one runs
/// past the end.
pub open spec fn field_list_error(b: Seq<u8>, pos: int, n: nat) -> Option<Seq<char>>
    decreases n,
{
    if n == 0 {
        None
    } else {
        match field_list_at(b, pos, (n - 1) as nat) {
            None => field_list_error(b, pos, (n - 1) as nat),
            Some((_, p)) => if !(0 <= p && p + 8 <= b.len()) {
                Some(truncated_text(p, 8, b.len() as int))
            } else {
                None
            },
        }
    }
}

/// What goes wrong first when decoding a serialized proof.
pub enum StarkDecodeFailure {
    /// The error's text.
    Text(Seq<char>),
    /// The backend id is not UTF-8; the text is the decoder's report after
    /// a fixed prefix.
    BackendIdNotUtf8,
}

/// What goes wrong first when decoding a serialized proof, if anything,
/// checking the parts in order.
pub open spec fn stark_decode_failure(b: Seq<u8>) -> Option<StarkDecodeFailure> {
    let len = b.len() as int;
    if b.len() < 4 {
        Some(StarkDecodeFailure::Text(truncated_text(0, 4, len)))
    } else if b.subrange(0, 4) != stark_magic() {
        Some(StarkDecodeFailure::Text("invalid magic bytes: expected STAR"@))
    } else if b.len() < 5 {
        Some(StarkDecodeFailure::Text(truncated_text(4, 1, len)))
    } else if b[4] != 1u8 {
        Some(
            StarkDecodeFailure::Text(
                "unsupported proof version: "@ + decimal_spec(b[4] as nat) + ", expected 1"@,
            ),
        )
    } else {
        fri_failure(b, 5)
    }
}

/// The first failure from the commitment list at `pos` on.
pub open spec fn fri_failure(b: Seq<u8>, pos: int) -> Option<StarkDecodeFailure> {
    match u32_at(b, pos) {
        None => Some(StarkDecodeFailure::Text(truncated_text(pos, 4, b.len() as int))),
        Some((n, p)) => match var_list_at(b, p, n) {
            None => Some(StarkDecodeFailure::Text(var_list_error(b, p, n)->0)),
            Some((_, q)) => query_failure(b, q),
        },
    }
}

/// The first failure from the response list at `pos` on.
pub open spec fn query_failure(b: Seq<u8>, pos: int) -> Option<StarkDecodeFailure> {
    match u32_at(b, pos) {
        None => Some(StarkDecodeFailure::Text(truncated_text(pos, 4, b.len() as int))),
        Some((n, p)) => match var_list_at(b, p, n) {
            None => Some(StarkDecodeFailure::Text(var_list_error(b, p, n)->0)),
            Some((_, q)) => value_failure(b, q),
        },
    }
}

/// The first failure from the value list at `pos` on.
pub open spec fn value_failure(b: Seq<u8>, pos: int) -> Option<StarkDecodeFailure> {
    match u32_at(b, pos) {
        None => Some(StarkDecodeFailure::Text(truncated_text(pos, 4, b.len() as int))),
        Some((n, p)) => match field_list_at(b, p, n) {
            None => Some(StarkDecodeFailure::Text(field_list_error(b, p, n)->0)),
            Some((_, q)) => trailer_failure(b, q),
        },
    }
}

/// The first failure from the backend id at `pos` on.
pub open spec fn trailer_failure(b: Seq<u8>, pos: int) -> Option<StarkDecodeFailure> {
    match var_at(b, pos) {
        None => Some(StarkDecodeFailure::Text(var_error(b, pos))),
        Some((id, p)) => if !valid_utf8(id) {
            Some(StarkDecodeFailure::BackendIdNotUtf8)
        } else if p < b.len() && var_at(b, p) is None {
            Some(StarkDecodeFailure::Text(var_error(b, p)))
        } else {
            None
        },
    }
}

/// Whether `msg` is the text of the decoding failure `f`.
pub open spec fn failure_text_matches(f: StarkDecodeFailure, msg: Seq<char>) -> bool {
    match f {
        StarkDecodeFailure::Text(t) => msg == t,
        StarkDecodeFailure::BackendIdNotUtf8 => has_prefix(msg, "invalid backend_id UTF-8: "@),
    }
}

fn truncated(pos: usize, need: usize, total: usize) -> (e: Plonky3Error)
    ensures
        e@ == Plonky3ErrorModel::DeserializationFailed(
            truncated_text(pos as int, need as int, total as int),
        ),
{
    let mut msg = owned("unexpected end of data at offset ");
    push_str(&mut msg, decimal(pos as u64).as_str());
    push_str(&mut msg, ", need ");
    push_str(&mut msg, decimal(need as u64).as_str());
    push_str(&mut msg, " bytes, have ");
    let have: usize = if total >= pos { total - pos } else { 0 };
    push_str(&mut msg, decimal(have as u64).as_str());
    Plonky3Error::DeserializationFailed(msg)
}

fn read_var_exec(bytes: &[u8], cursor: &mut usize) -> (r: Result<Vec<u8>, Plonky3Error>)
    requires
        *old(cursor) <= bytes@.len(),
    ensures
        *final(cursor) <= bytes@.len(),
        r is Ok <==> var_at(bytes@, *old(cursor) as int) is Some,
        r matches Ok(v) ==> var_at(bytes@, *old(cursor) as int) == Some((v@, *final(cursor) as int)),
        r matches Err(e) ==> e@ == Plonky3ErrorModel::DeserializationFailed(
            var_error(bytes@, *old(cursor) as int),
        ),
{
    let start = *cursor;
    let n = match read_u32(bytes, cursor) {
        Some(n) => n,
        None => {
            return Err(truncated(start, 4, bytes.len()));
        },
    };
    let at = *cursor;
    match read_exact(bytes, cursor, n as usize) {
        Some(v) => Ok(v),
        None => Err(truncated(at, n as usize, bytes.len())),
    }
}

fn read_var_list_exec(bytes: &[u8], cursor: &mut usize, n: u32) -> (r: Result<Vec<Vec<u8>>, Plonky3Error>)
    requires
        *old(cursor) <= bytes@.len(),
    ensures
        *final(cursor) <= bytes@.len(),
        r is Ok <==> var_list_at(bytes@, *old(cursor) as int, n as nat) is Some,
        r matches Ok(l) ==> var_list_at(bytes@, *old(cursor) as int, n as nat) == Some(
            (bytes_list_view(l@), *final(cursor) as int),
        ),
        r matches Err(e) ==> var_list_error(bytes@, *old(cursor) as int, n as nat) matches Some(t)
            && e@ == Plonky3ErrorModel::DeserializationFailed(t),
{
    let ghost start = *cursor as int;
    let mut out: Vec<Vec<u8>> = Vec::new();
    let mut i: u32 = 0;
    while i < n
        invariant
            i <= n,
            *cursor <= bytes@.len(),
            start == *old(cursor) as int,
            var_list_at(bytes@, start, i as nat) == Some((bytes_list_view(out@), *cursor as int)),
        decreases n - i,
    {
        let ghost before = out@;
        let ghost at = *cursor as int;
        match read_var_exec(bytes, cursor) {
            Ok(v) => {
                out.push(v);
                assert(bytes_list_view(out@) =~= bytes_list_view(before).push(v@));
            },
            Err(e) => {
                proof {
                    assert(var_at(bytes@, at) is None);
                    assert(var_list_at(bytes@, start, (i + 1) as nat) is None);
                    lemma_var_list_none_extends(bytes@, start, (i + 1) as nat, n as nat);
                    lemma_var_list_error_at(bytes@, start, i as nat, at, n as nat);
                }
                return Err(e);
            },
        }
        i += 1;
    }
    Ok(out)
}

proof fn lemma_var_list_error_at(b: Seq<u8>, pos: int, i: nat, at: int, n: nat)
    requires
        i < n,
        var_list_at(b, pos, i) matches Some((_, p)) && p == at,
        var_at(b, at) is None,
    ensures
        var_list_error(b, pos, n) == Some(var_error(b, at)),
    decreases n,
{
    if n > i + 1 {
        lemma_var_list_none_extends(b, pos, i + 1, (n - 1) as nat);
        lemma_var_list_error_at(b, pos, i, at, (n - 1) as nat);
    }
}

proof fn lemma_field_list_error_at(b: Seq<u8>, pos: int, i: nat, at: int, n: nat)
    requires
        i < n,
        field_list_at(b, pos, i) matches Some((_, p)) && p == at,
        !(0 <= at && at + 8 <= b.len()),
    ensures
        field_list_error(b, pos, n) == Some(truncated_text(at, 8, b.len() as int)),
    decreases n,
{
    if n > i + 1 {
        lemma_field_list_none_extends(b, pos, i + 1, (n - 1) as nat);
        lemma_field_list_error_at(b, pos, i, at, (n - 1) as nat);
    }
}

proof fn lemma_var_list_none_extends(b: Seq<u8>, pos: int, k: nat, n: nat)
    requires
        k <= n,
        var_list_at(b, pos, k) is None,
    ensures
        var_list_at(b, pos, n) is None,
    decreases n - k,
{
    if k < n {
        lemma_var_list_none_extends(b, pos, k + 1, n);
    }
}

proof fn lemma_field_list_none_extends(b: Seq<u8>, pos: int, k: nat, n: nat)
    requires
        k <= n,
        field_list_at(b, pos, k) is None,
    ensures
        field_list_at(b, pos, n) is None,
    decreases n - k,
{
    if k < n {
        lemma_field_list_none_extends(b, pos, k + 1, n);
    }
}

fn read_field_list_exec(bytes: &[u8], cursor: &mut usize, n: u32) -> (r: Result<
    Vec<GoldilocksField>,
    Plonky3Error,
>)
    requires
        *old(cursor) <= bytes@.len(),
    ensures
        *final(cursor) <= bytes@.len(),
        r is Ok <==> field_list_at(bytes@, *old(cursor) as int, n as nat) is Some,
        r matches Ok(l) ==> field_list_at(bytes@, *old(cursor) as int, n as nat) == Some(
            (field_list_view(l@), *final(cursor) as int),
        ),
        r matches Err(e) ==> field_list_error(bytes@, *old(cursor) as int, n as nat) matches Some(t)
            && e@ == Plonky3ErrorModel::DeserializationFailed(t),
{
    let ghost start = *cursor as int;
    let mut out: Vec<GoldilocksField> = Vec::new();
    let mut i: u32 = 0;
    while i < n
        invariant
            i <= n,
            *cursor <= bytes@.len(),
            start == *old(cursor) as int,
            field_list_at(bytes@, start, i as nat) == Some((field_list_view(out@), *cursor as int)),
        decreases n - i,
    {
        let at = *cursor;
        let ghost before = out@;
        match read_exact(bytes, cursor, 8) {
            Some(b) => {
                let val = u64_from_le(b.as_slice());
                out.push(GoldilocksField(val % GOLDILOCKS_MODULUS));
                assert(field_list_view(out@) =~= field_list_view(before).push(
                    (le_u64_value(bytes@.subrange(at as int, at + 8)) % GOLDILOCKS_MODULUS as int) as u64,
                ));
            },
            None => {
                proof {
                    assert(!(0 <= at && at + 8 <= bytes@.len()));
                    assert(field_list_at(bytes@, start, (i + 1) as nat) is None);
                    lemma_field_list_none_extends(bytes@, start, (i + 1) as nat, n as nat);
                    lemma_field_list_error_at(bytes@, start, i as nat, at as int, n as nat);
                }
                return Err(truncated(at, 8, bytes.len()));
            },
        }
        i += 1;
    }
    Ok(out)
}

impl StarkProof {
    /// Decodes a serialized proof; the input becomes the cached
    /// serialization.
    pub fn from_bytes(bytes: &[u8]) -> (r: Result<StarkProof, Plonky3Error>)
        ensures
            r is Ok <==> stark_decode(bytes@) is Some,
            r matches Ok(p) ==> Some(p@) == stark_decode(bytes@) && p.serialized@ == bytes@,
            r matches Err(e) ==> e@ matches Plonky3ErrorModel::DeserializationFailed(m)
                && stark_decode_failure(bytes@) matches Some(f) && failure_text_matches(f, m),
    {
        let mut cursor: usize = 0;
        let magic = match read_exact(bytes, &mut cursor, 4) {
            Some(m) => m,
            None => {
                return Err(truncated(0, 4, bytes.len()));
            },
        };
        if !(magic[0] == 0x53 && magic[1] == 0x54 && magic[2] == 0x41 && magic[3] == 0x52) {
            proof {
                if bytes@.len() >= 5 {
                    assert(bytes@.subrange(0, 4) != stark_magic()) by {
                        if bytes@.subrange(0, 4) == stark_magic() {
                            assert(magic@ == bytes@.subrange(0, 4));
                        }
                    }
                }
            }
            return Err(deserialization_failed("invalid magic bytes: expected STAR"));
        }
        assert(magic@ =~= stark_magic());
        let version = match read_exact(bytes, &mut cursor, 1) {
            Some(v) => v[0],
            None => {
                return Err(truncated(4, 1, bytes.len()));
            },
        };
        if version != 1 {
            let mut msg = owned("unsupported proof version: ");
            push_str(&mut msg, decimal(version as u64).as_str());
            push_str(&mut msg, ", expected 1");
            return Err(Plonky3Error::DeserializationFailed(msg));
        }
        assert(stark_decode_failure(bytes@) == fri_failure(bytes@, 5));
        let num_fri = match read_u32(bytes, &mut cursor) {
            Some(n) => n,
            None => {
                return Err(truncated(cursor, 4, bytes.len()));
            },
        };
        let c1 = cursor;
        let fri_commitments = match read_var_list_exec(bytes, &mut cursor, num_fri) {
            Ok(l) => l,
            Err(e) => {
                return Err(e);
            },
        };
        let c3 = cursor;
        assert(fri_failure(bytes@, 5) == query_failure(bytes@, c3 as int));
        let num_queries = match read_u32(bytes, &mut cursor) {
            Some(n) => n,
            None => {
                return Err(truncated(c3, 4, bytes.len()));
            },
        };
        let query_responses = match read_var_list_exec(bytes, &mut cursor, num_queries) {
            Ok(l) => l,
            Err(e) => {
                return Err(e);
            },
        };
        let c5 = cursor;
        assert(query_failure(bytes@, c3 as int) == value_failure(bytes@, c5 as int));
        let num_pub = match read_u32(bytes, &mut cursor) {
            Some(n) => n,
            None => {
                return Err(truncated(c5, 4, bytes.len()));
            },
        };
        let public_input_values = match read_field_list_exec(bytes, &mut cursor, num_pub) {
            Ok(l) => l,
            Err(e) => {
                return Err(e);
            },
        };
        let c6 = cursor;
        assert(value_failure(bytes@, c5 as int) == trailer_failure(bytes@, c6 as int));
        let id_bytes = match read_var_exec(bytes, &mut cursor) {
            Ok(v) => v,
            Err(e) => {
                return Err(e);
            },
        };
        let ghost id_view = id_bytes@;
        let backend_id = match string_from_utf8(id_bytes) {
            Ok(s) => s,
            Err(text) => {
                let m = concat2("invalid backend_id UTF-8: ", text.as_str());
                assert(m@.subrange(0, "invalid backend_id UTF-8: "@.len() as int) =~= "invalid backend_id UTF-8: "@);
                return Err(Plonky3Error::DeserializationFailed(m));
            },
        };
        let native_proof_bytes = if cursor < bytes.len() {
            match read_var_exec(bytes, &mut cursor) {
                Ok(v) => v,
                Err(e) => {
                    return Err(e);
                },
            }
        } else {
            Vec::new()
        };
        let proof = StarkProof {
            fri_commitments,
            query_responses,
            public_input_values,
            backend_id,
            serialized: crate::types::copy_bytes(bytes),
            native_proof_bytes,
        };
        assert(Some(proof@) == stark_decode(bytes@));
        Ok(proof)
    }
}


/// A proof model that the serialized form carries without loss: list
/// lengths and byte strings fit `u32` lengths, and every value is a reduced
/// field element.
pub open spec fn stark_representable(m: StarkModel) -> bool {
    &&& m.fri_commitments.len() < 0x1_0000_0000
    &&& m.query_responses.len() < 0x1_0000_0000
    &&& m.public_input_values.len() < 0x1_0000_0000
    &&& forall|i: int| 0 <= i < m.fri_commitments.len() ==> (#[trigger] m.fri_commitments[i]).len() < 0x1_0000_0000
    &&& forall|i: int| 0 <= i < m.query_responses.len() ==> (#[trigger] m.query_responses[i]).len() < 0x1_0000_0000
    &&& forall|i: int| 0 <= i < m.public_input_values.len() ==> #[trigger] m.public_input_values[i] < GOLDILOCKS_MODULUS
    &&& utf8_bytes(m.backend_id).len() < 0x1_0000_0000
    &&& m.native_proof_bytes.len() < 0x1_0000_0000
}

proof fn lemma_var_at_field(b: Seq<u8>, pos: int, v: Seq<u8>)
    requires
        0 <= pos,
        v.len() < 0x1_0000_0000,
        pos + var_field(v).len() <= b.len(),
        b.subrange(pos, pos + var_field(v).len()) == var_field(v),
    ensures
        var_at(b, pos) == Some((v, pos + var_field(v).len())),
{
    crate::codec::lemma_var_field_at(b, pos, v);
}

proof fn lemma_var_list_roundtrip(b: Seq<u8>, pos: int, l: Seq<Seq<u8>>)
    requires
        0 <= pos,
        forall|i: int| 0 <= i < l.len() ==> (#[trigger] l[i]).len() < 0x1_0000_0000,
        pos + var_list_bytes(l).len() <= b.len(),
        b.subrange(pos, pos + var_list_bytes(l).len()) == var_list_bytes(l),
    ensures
        var_list_at(b, pos, l.len()) == Some((l, pos + var_list_bytes(l).len())),
    decreases l.len(),
{
    if l.len() > 0 {
        let init = l.drop_last();
        let n0 = var_list_bytes(init).len();
        let f = var_field(l.last());
        assert(var_list_bytes(l) == var_list_bytes(init) + f);
        assert(b.subrange(pos, pos + n0) =~= var_list_bytes(l).subrange(0, n0 as int));
        assert(var_list_bytes(l).subrange(0, n0 as int) =~= var_list_bytes(init));
        lemma_var_list_roundtrip(b, pos, init);
        assert(b.subrange(pos + n0, pos + n0 + f.len()) =~= var_list_bytes(l).subrange(
            n0 as int,
            (n0 + f.len()) as int,
        ));
        assert(var_list_bytes(l).subrange(n0 as int, (n0 + f.len()) as int) =~= f);
        assert(l.last() == l[l.len() - 1]);
        lemma_var_at_field(b, pos + n0, l.last());
        assert(init.push(l.last()) =~= l);
    }
}

proof fn lemma_field_list_roundtrip(b: Seq<u8>, pos: int, l: Seq<u64>)
    requires
        0 <= pos,
        forall|i: int| 0 <= i < l.len() ==> #[trigger] l[i] < GOLDILOCKS_MODULUS,
        pos + u64_list_bytes(l).len() <= b.len(),
        b.subrange(pos, pos + u64_list_bytes(l).len()) == u64_list_bytes(l),
    ensures
        field_list_at(b, pos, l.len()) == Some((l, pos + u64_list_bytes(l).len())),
        u64_list_bytes(l).len() == 8 * l.len(),
    decreases l.len(),
{
    if l.len() > 0 {
        let init = l.drop_last();
        let n0 = u64_list_bytes(init).len();
        let v = l.last();
        assert(u64_list_bytes(l) == u64_list_bytes(init) + u64_le(v));
        crate::encoding::lemma_u64_le_roundtrip(v);
        assert(b.subrange(pos, pos + n0) =~= u64_list_bytes(l).subrange(0, n0 as int));
        assert(u64_list_bytes(l).subrange(0, n0 as int) =~= u64_list_bytes(init));
        lemma_field_list_roundtrip(b, pos, init);
        assert(b.subrange(pos + n0, pos + n0 + 8) =~= u64_list_bytes(l).subrange(n0 as int, (n0 + 8) as int));
        assert(u64_list_bytes(l).subrange(n0 as int, (n0 + 8) as int) =~= u64_le(v));
        assert(l.last() == l[l.len() - 1]);
        assert(v < GOLDILOCKS_MODULUS);
        assert((le_u64_value(u64_le(v)) % GOLDILOCKS_MODULUS as int) as u64 == v);
        assert(init.push(v) =~= l);
    }
}

proof fn lemma_split_tail(b: Seq<u8>, pos: int, x: Seq<u8>, y: Seq<u8>)
    requires
        0 <= pos <= b.len(),
        b.subrange(pos, b.len() as int) == x + y,
    ensures
        pos + x.len() <= b.len(),
        b.subrange(pos, pos + x.len()) == x,
        b.subrange(pos + x.len(), b.len() as int) == y,
{
    assert(b.subrange(pos, b.len() as int).len() == b.len() - pos);
    assert((x + y).len() == x.len() + y.len());
    assert(pos + x.len() <= b.len());
    assert(b.subrange(pos, pos + x.len()) =~= (x + y).subrange(0, x.len() as int));
    assert((x + y).subrange(0, x.len() as int) =~= x);
    assert(b.subrange(pos + x.len(), b.len() as int) =~= (x + y).subrange(
        x.len() as int,
        (x + y).len() as int,
    ));
    assert((x + y).subrange(x.len() as int, (x + y).len() as int) =~= y);
}

/// Offsets of the fields in the serialized form.
pub open spec fn stark_offsets(m: StarkModel) -> (int, int, int, int, int, int, int) {
    let p2: int = 9;
    let p3 = p2 + var_list_bytes(m.fri_commitments).len();
    let p4 = p3 + 4;
    let p5 = p4 + var_list_bytes(m.query_responses).len();
    let p6 = p5 + 4;
    let p7 = p6 + u64_list_bytes(m.public_input_values).len();
    let p8 = p7 + var_field(utf8_bytes(m.backend_id)).len();
    (p3, p4, p5, p6, p7, p8, p2)
}

/// Suffixes of the serialized form from the list counts on.
pub open spec fn stark_rest(m: StarkModel, k: int) -> Seq<u8> {
    let s1 = u32_le(m.fri_commitments.len() as u32);
    let s2 = var_list_bytes(m.fri_commitments);
    let s3 = u32_le(m.query_responses.len() as u32);
    let s4 = var_list_bytes(m.query_responses);
    let s5 = u32_le(m.public_input_values.len() as u32);
    let s6 = u64_list_bytes(m.public_input_values);
    let s7 = var_field(utf8_bytes(m.backend_id));
    let s8 = var_field(m.native_proof_bytes);
    if k == 1 {
        s1 + (s2 + (s3 + (s4 + (s5 + (s6 + (s7 + s8))))))
    } else if k == 2 {
        s2 + (s3 + (s4 + (s5 + (s6 + (s7 + s8)))))
    } else if k == 3 {
        s3 + (s4 + (s5 + (s6 + (s7 + s8))))
    } else if k == 4 {
        s4 + (s5 + (s6 + (s7 + s8)))
    } else if k == 5 {
        s5 + (s6 + (s7 + s8))
    } else if k == 6 {
        s6 + (s7 + s8)
    } else if k == 7 {
        s7 + s8
    } else {
        s8
    }
}

proof fn lemma_stark_header(m: StarkModel)
    ensures
        ({
            let b = stark_encoding(m);
            &&& b.len() >= 5
            &&& b.subrange(0, 4) == stark_magic()
            &&& b[4] == 1u8
            &&& b.subrange(5, b.len() as int) == stark_rest(m, 1)
        }),
{
    let b = stark_encoding(m);
    let r1 = stark_rest(m, 1);
    assert(b == (stark_magic() + seq![1u8]) + r1);
    assert(b.subrange(0, b.len() as int) =~= b);
    lemma_split_tail(b, 0, stark_magic() + seq![1u8], r1);
    assert(b.subrange(0, 4) =~= (stark_magic() + seq![1u8]).subrange(0, 4));
    assert(b[4] == (stark_magic() + seq![1u8])[4]);
}

#[verifier::spinoff_prover]
proof fn lemma_stark_part1(m: StarkModel)
    requires
        stark_representable(m),
    ensures
        ({
            let b = stark_encoding(m);
            let p3: int = 9int + var_list_bytes(m.fri_commitments).len();
            &&& u32_at(b, 5) == Some((m.fri_commitments.len(), 9int))
            &&& b.subrange(9, p3) == var_list_bytes(m.fri_commitments)
            &&& b.subrange(p3, b.len() as int) == stark_rest(m, 3)
        }),
{
    let b = stark_encoding(m);
    lemma_stark_header(m);
    let s1 = u32_le(m.fri_commitments.len() as u32);
    let s2 = var_list_bytes(m.fri_commitments);
    lemma_split_tail(b, 5, s1, stark_rest(m, 2));
    lemma_split_tail(b, 9, s2, stark_rest(m, 3));
    crate::encoding::lemma_u32_le_roundtrip(m.fri_commitments.len() as u32);
}

#[verifier::spinoff_prover]
proof fn lemma_stark_part2(m: StarkModel)
    requires
        stark_representable(m),
    ensures
        ({
            let b = stark_encoding(m);
            let (p3, p4, p5, p6, p7, p8, p2) = stark_offsets(m);
            &&& u32_at(b, p3) == Some((m.query_responses.len(), p4))
            &&& b.subrange(p4, p5) == var_list_bytes(m.query_responses)
            &&& b.subrange(p5, b.len() as int) == stark_rest(m, 5)
        }),
{
    let b = stark_encoding(m);
    lemma_stark_part1(m);
    let (p3, p4, p5, p6, p7, p8, p2) = stark_offsets(m);
    let s3 = u32_le(m.query_responses.len() as u32);
    let s4 = var_list_bytes(m.query_responses);
    lemma_split_tail(b, p3, s3, stark_rest(m, 4));
    lemma_split_tail(b, p4, s4, stark_rest(m, 5));
    crate::encoding::lemma_u32_le_roundtrip(m.query_responses.len() as u32);
}

#[verifier::spinoff_prover]
proof fn lemma_stark_part3(m: StarkModel)
    requires
        stark_representable(m),
    ensures
        ({
            let b = stark_encoding(m);
            let (p3, p4, p5, p6, p7, p8, p2) = stark_offsets(m);
            &&& u32_at(b, p5) == Some((m.public_input_values.len(), p6))
            &&& b.subrange(p6, p7) == u64_list_bytes(m.public_input_values)
            &&& b.subrange(p7, p8) == var_field(utf8_bytes(m.backend_id))
            &&& b.subrange(p8, b.len() as int) == var_field(m.native_proof_bytes)
            &&& p8 + var_field(m.native_proof_bytes).len() == b.len()
            &&& 0 <= p7 <= p8
        }),
{
    let b = stark_encoding(m);
    lemma_stark_part2(m);
    let (p3, p4, p5, p6, p7, p8, p2) = stark_offsets(m);
    let s5 = u32_le(m.public_input_values.len() as u32);
    let s6 = u64_list_bytes(m.public_input_values);
    let s7 = var_field(utf8_bytes(m.backend_id));
    let s8 = var_field(m.native_proof_bytes);
    lemma_split_tail(b, p5, s5, stark_rest(m, 6));
    lemma_split_tail(b, p6, s6, stark_rest(m, 7));
    lemma_split_tail(b, p7, s7, s8);
    crate::encoding::lemma_u32_le_roundtrip(m.public_input_values.len() as u32);
}

proof fn lemma_stark_lists(m: StarkModel)
    requires
        stark_representable(m),
    ensures
        ({
            let b = stark_encoding(m);
            let (p3, p4, p5, p6, p7, p8, p2) = stark_offsets(m);
            &&& var_list_at(b, p2, m.fri_commitments.len()) == Some((m.fri_commitments, p3))
            &&& var_list_at(b, p4, m.query_responses.len()) == Some((m.query_responses, p5))
        }),
{
    let b = stark_encoding(m);
    let (p3, p4, p5, p6, p7, p8, p2) = stark_offsets(m);
    lemma_stark_part1(m);
    lemma_stark_part2(m);
    lemma_var_list_roundtrip(b, p2, m.fri_commitments);
    lemma_var_list_roundtrip(b, p4, m.query_responses);
}

proof fn lemma_stark_values(m: StarkModel)
    requires
        stark_representable(m),
    ensures
        ({
            let b = stark_encoding(m);
            let (p3, p4, p5, p6, p7, p8, p2) = stark_offsets(m);
            &&& field_list_at(b, p6, m.public_input_values.len()) == Some(
                (m.public_input_values, p7),
            )
        }),
{
    let b = stark_encoding(m);
    let (p3, p4, p5, p6, p7, p8, p2) = stark_offsets(m);
    lemma_stark_part3(m);
    lemma_field_list_roundtrip(b, p6, m.public_input_values);
}

proof fn lemma_stark_trailer(m: StarkModel)
    requires
        stark_representable(m),
    ensures
        ({
            let b = stark_encoding(m);
            let (p3, p4, p5, p6, p7, p8, p2) = stark_offsets(m);
            &&& var_at(b, p7) == Some((utf8_bytes(m.backend_id), p8))
            &&& p8 < b.len()
            &&& var_at(b, p8) == Some((m.native_proof_bytes, b.len() as int))
        }),
{
    let b = stark_encoding(m);
    let (p3, p4, p5, p6, p7, p8, p2) = stark_offsets(m);
    lemma_stark_part3(m);
    lemma_var_at_field(b, p7, utf8_bytes(m.backend_id));
    assert(p8 + var_field(m.native_proof_bytes).len() == b.len());
    lemma_var_at_field(b, p8, m.native_proof_bytes);
}

/// Serialization round trip: a representable proof's serialized form
/// decodes to the same proof.
#[verifier::spinoff_prover]
#[verifier::rlimit(40)]
pub proof fn lemma_stark_roundtrip(m: StarkModel)
    requires
        stark_representable(m),
    ensures
        stark_decode(stark_encoding(m)) == Some(m),
{
    lemma_stark_header(m);
    lemma_stark_part1(m);
    lemma_stark_part2(m);
    lemma_stark_part3(m);
    lemma_stark_lists(m);
    lemma_stark_values(m);
    lemma_stark_trailer(m);
    encode_utf8_valid_utf8(m.backend_id);
    encode_utf8_decode_utf8(m.backend_id);
}

// ---------------------------------------------------------------------------
// Composition preconditions
// ---------------------------------------------------------------------------

/// The first composition precondition a pair of statements breaks.
pub open spec fn composition_pair_error(
    left: PublicInputs,
    right: PublicInputs,
    left_index: usize,
    right_index: usize,
) -> Option<Plonky3ErrorModel> {
    if left.domain@ != right.domain@ {
        Some(Plonky3ErrorModel::CompositionDomainMismatch { index: right_index })
    } else if left.version != right.version {
        Some(Plonky3ErrorModel::CompositionVersionMismatch { index: right_index })
    } else if left.root_final@ != right.root_init@ {
        Some(Plonky3ErrorModel::StateChainBroken { left: left_index, right: right_index })
    } else {
        None
    }
}

/// Statements `j` and `j + 1` of a sequence are composable.
pub open spec fn pair_composable(pis: Seq<PublicInputs>, j: int) -> bool {
    composition_pair_error(pis[j], pis[j + 1], j as usize, (j + 1) as usize) is None
}

/// The error of the first composable-pair check that fails, scanning from
/// pair `i`.
pub open spec fn first_pair_error(pis: Seq<PublicInputs>, i: nat) -> Option<Plonky3ErrorModel>
    decreases pis.len() - i,
{
    if i + 1 >= pis.len() {
        None
    } else {
        match composition_pair_error(pis[i as int], pis[i + 1int], i as usize, (i + 1) as usize) {
            Some(e) => Some(e),
            None => first_pair_error(pis, i + 1),
        }
    }
}

/// Text of the error for a composition over the depth bound.
pub open spec fn recursion_depth_text(n: nat) -> Seq<char> {
    "recursion depth exceeds maximum: "@ + decimal_spec(n) + " > "@ + decimal_spec(
        MAX_RECURSION_DEPTH as nat,
    )
}

/// The error a composition sequence fails with, if any, in the order of
/// the checks: too few proofs, too many, a count mismatch, then the first
/// pair that does not compose.
pub open spec fn composition_sequence_error(num_proofs: nat, pis: Seq<PublicInputs>) -> Option<
    Plonky3ErrorModel,
> {
    if num_proofs < 2 {
        Some(Plonky3ErrorModel::CompositionTooFewProofs)
    } else if num_proofs > MAX_RECURSION_DEPTH {
        Some(Plonky3ErrorModel::ProofGenerationFailed(recursion_depth_text(num_proofs)))
    } else if num_proofs != pis.len() {
        Some(
            Plonky3ErrorModel::ProofGenerationFailed(
                "proofs and public_inputs must have the same length"@,
            ),
        )
    } else {
        first_pair_error(pis, 0)
    }
}

/// No pair from `i` on fails exactly when every pair from `i` on composes.
pub proof fn lemma_first_pair_error_none(pis: Seq<PublicInputs>, i: nat)
    ensures
        first_pair_error(pis, i) is None <==> forall|j: int|
            i <= j < pis.len() - 1 ==> #[trigger] pair_composable(pis, j),
    decreases pis.len() - i,
{
    if i + 1 < pis.len() {
        lemma_first_pair_error_none(pis, i + 1);
        if first_pair_error(pis, i) is None {
            assert forall|j: int| i <= j < pis.len() - 1 implies #[trigger] pair_composable(pis, j) by {
                if j > i {
                }
            }
        } else {
            if composition_pair_error(pis[i as int], pis[i + 1int], i as usize, (i + 1) as usize) is None {
                assert(!(forall|j: int| i + 1 <= j < pis.len() - 1 ==> #[trigger] pair_composable(pis, j)));
                let j = choose|j: int| i + 1 <= j < pis.len() - 1 && !#[trigger] pair_composable(pis, j);
                assert(!pair_composable(pis, j));
            } else {
                assert(!pair_composable(pis, i as int));
            }
        }
    }
}

impl Plonky3Backend {
    /// Checks that two consecutive statements share domain and version and
    /// chain: the left final root is the right initial root.
    pub fn validate_composition_pair(
        left_pub: &PublicInputs,
        right_pub: &PublicInputs,
        left_index: usize,
        right_index: usize,
    ) -> (r: Result<(), Plonky3Error>)
        ensures
            r is Ok <==> composition_pair_error(*left_pub, *right_pub, left_index, right_index)
                is None,
            r matches Err(e) ==> Some(e@) == composition_pair_error(
                *left_pub,
                *right_pub,
                left_index,
                right_index,
            ),
    {
        if !left_pub.domain.eq_tag(&right_pub.domain) {
            return Err(Plonky3Error::CompositionDomainMismatch { index: right_index });
        }
        if left_pub.version != right_pub.version {
            return Err(Plonky3Error::CompositionVersionMismatch { index: right_index });
        }
        if !left_pub.root_final.eq_hash(&right_pub.root_init) {
            return Err(Plonky3Error::StateChainBroken { left: left_index, right: right_index });
        }
        Ok(())
    }

    /// Checks a composition sequence: two to `MAX_RECURSION_DEPTH` proofs,
    /// one statement per proof, and every consecutive pair composable; on
    /// failure, the error of the first check that fails.
    pub fn validate_composition_sequence(proofs: &[StarkProof], public_inputs: &[PublicInputs]) -> (r:
        Result<(), Plonky3Error>)
        ensures
            r is Ok <==> composition_sequence_error(proofs@.len(), public_inputs@) is None,
            r matches Err(e) ==> Some(e@) == composition_sequence_error(
                proofs@.len(),
                public_inputs@,
            ),
    {
        if proofs.len() < 2 {
            return Err(Plonky3Error::CompositionTooFewProofs);
        }
        if proofs.len() > MAX_RECURSION_DEPTH {
            let mut msg = owned("recursion depth exceeds maximum: ");
            push_str(&mut msg, decimal(proofs.len() as u64).as_str());
            push_str(&mut msg, " > ");
            push_str(&mut msg, decimal(MAX_RECURSION_DEPTH as u64).as_str());
            assert(msg@ =~= recursion_depth_text(proofs@.len()));
            return Err(Plonky3Error::ProofGenerationFailed(msg));
        }
        if proofs.len() != public_inputs.len() {
            return Err(
                Plonky3Error::ProofGenerationFailed(
                    owned("proofs and public_inputs must have the same length"),
                ),
            );
        }
        let mut i: usize = 0;
        while i < public_inputs.len() - 1
            invariant
                public_inputs@.len() >= 2,
                proofs@.len() == public_inputs@.len(),
                proofs@.len() <= MAX_RECURSION_DEPTH,
                i <= public_inputs@.len() - 1,
                first_pair_error(public_inputs@, 0) == first_pair_error(public_inputs@, i as nat),
            decreases public_inputs.len() - 1 - i,
        {
            match Plonky3Backend::validate_composition_pair(&public_inputs[i], &public_inputs[i + 1], i, i + 1) {
                Ok(()) => {},
                Err(e) => {
                    return Err(e);
                },
            }
            i += 1;
        }
        Ok(())
    }
}

} // verus!
