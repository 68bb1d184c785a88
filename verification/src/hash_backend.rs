//! The hash-based backend: SHA3-256 commitments in place of an algebraic
//! proof. It is not post-quantum sound and serves as a compatibility bridge.

use vstd::prelude::*;

use crate::codec::append_bytes;
use crate::constraints::{Constraint, ConstraintSystem};
use crate::encoding::{push_u32_le, push_u64_le, sha3_256, sha3_256_spec, u32_le, u64_le};
use crate::public_inputs::{PublicInputs, PublicInputsModel};
use crate::text::{concat2, concat3, decimal, decimal_spec, owned, utf8_bytes};
use crate::types::zero_hash_bytes;
use crate::witness::Witness;

verus! {

// ---------------------------------------------------------------------------
// Errors
// ---------------------------------------------------------------------------

/// Failure of the hash backend; every message names the backend.
#[derive(Debug)]
pub enum HashBackendError {
    /// The witness has no input, no state and no auxiliary value.
    EmptyWitness,
    /// Proof generation failed.
    ProofGenerationFailed(String),
    /// The bytes are not a proof of this backend.
    DeserializationFailed(String),
}

/// Display text of a hash backend error.
pub open spec fn hash_backend_error_text(e: HashBackendError) -> Seq<char> {
    match e {
        HashBackendError::EmptyWitness =>
            "hash-sha3: empty witness: cannot generate proof for a witness with no inputs"@,
        HashBackendError::ProofGenerationFailed(s) => "hash-sha3: proof generation failed: "@ + s@,
        HashBackendError::DeserializationFailed(s) => "hash-sha3: deserialization failed: "@ + s@,
    }
}

impl HashBackendError {
    /// The error's display text.
    pub fn message(&self) -> (m: String)
        ensures
            m@ == hash_backend_error_text(*self),
    {
        match self {
            HashBackendError::EmptyWitness => owned(
                "hash-sha3: empty witness: cannot generate proof for a witness with no inputs",
            ),
            HashBackendError::ProofGenerationFailed(s) => concat2(
                "hash-sha3: proof generation failed: ",
                s.as_str(),
            ),
            HashBackendError::DeserializationFailed(s) => concat2(
                "hash-sha3: deserialization failed: ",
                s.as_str(),
            ),
        }
    }
}

// ---------------------------------------------------------------------------
// Proofs
// ---------------------------------------------------------------------------

/// A proof of the hash backend: the raw proof bytes.
#[derive(Clone, Debug)]
pub struct HashBackendProof(Vec<u8>);

impl View for HashBackendProof {
    type V = Seq<u8>;

    closed spec fn view(&self) -> Seq<u8> {
        self.0@
    }
}

impl HashBackendProof {
    /// A proof holding the given bytes.
    pub fn new(data: Vec<u8>) -> (p: HashBackendProof)
        ensures
            p@ == data@,
    {
        HashBackendProof(data)
    }

    /// The proof bytes.
    pub fn into_inner(self) -> (v: Vec<u8>)
        ensures
            v@ == self@,
    {
        self.0
    }

    /// The proof bytes, borrowed.
    pub fn as_ref(&self) -> (b: &[u8])
        ensures
            b@ == self@,
    {
        self.0.as_slice()
    }
}

// ---------------------------------------------------------------------------
// Encodings and digests
// ---------------------------------------------------------------------------

/// Bytes of the constraints as the hash backend commits to them: each
/// identifier and description, in order.
pub open spec fn hash_constraints_bytes(s: Seq<Constraint>) -> Seq<u8>
    decreases s.len(),
{
    if s.len() == 0 {
        Seq::empty()
    } else {
        hash_constraints_bytes(s.drop_last()) + u64_le(s.last().id) + utf8_bytes(
            s.last().description@,
        )
    }
}

/// Bytes of a constraint system as the hash backend commits to them: the
/// version, the three counts, then the constraints.
pub open spec fn hash_constraint_system_bytes(cs: ConstraintSystem) -> Seq<u8> {
    utf8_bytes(cs.version@) + u64_le(cs.constraints@.len() as u64) + u64_le(
        cs.witness_variables@.len() as u64,
    ) + u64_le(cs.public_inputs@.len() as u64) + hash_constraints_bytes(cs.constraints@)
}

/// The trace commitment the hash backend derives from the public inputs:
/// SHA3-256 of the two roots.
pub open spec fn hash_trace_commitment(p: PublicInputsModel) -> Seq<u8> {
    sha3_256_spec(p.root_init + p.root_final)
}

/// What the hash backend's proof data hashes: the trace, witness and
/// constraint commitments, the roots, the number of observables, the domain
/// and the version.
pub open spec fn hash_proof_preimage(
    witness_commitment: Seq<u8>,
    constraint_commitment: Seq<u8>,
    trace_commitment: Seq<u8>,
    p: PublicInputsModel,
) -> Seq<u8> {
    trace_commitment + witness_commitment + constraint_commitment + p.root_init + p.root_final
        + u64_le(p.observables.len() as u64) + p.domain + u32_le(p.version.major) + u32_le(
        p.version.minor,
    ) + u32_le(p.version.patch)
}

/// Whether the hash backend accepts proof bytes under a constraint
/// commitment: 32 bytes, not all zero, and a nonzero commitment.
pub open spec fn hash_proof_accepted(proof: Seq<u8>, constraint_commitment: Seq<u8>) -> bool {
    &&& proof.len() == 32
    &&& proof != zero_hash_bytes()
    &&& constraint_commitment != zero_hash_bytes()
}

/// Text of the error for proof bytes of the wrong nonzero length.
pub open spec fn hash_wrong_length_text(len: nat) -> Seq<char> {
    "expected 32 bytes (SHA3-256 output), got "@ + decimal_spec(len) + " bytes"@
}

/// What deserialization gives for given bytes: the proof when they are 32
/// bytes long, and nothing otherwise.
pub open spec fn hash_deserialize_spec(bytes: Seq<u8>) -> Option<Seq<u8>> {
    if bytes.len() == 32 {
        Some(bytes)
    } else {
        None
    }
}

/// Whether the slice holds only zero bytes.
fn all_zero(b: &[u8]) -> (z: bool)
    ensures
        z == (forall|k: int| 0 <= k < b@.len() ==> b@[k] == 0u8),
{
    let mut i: usize = 0;
    while i < b.len()
        invariant
            i <= b@.len(),
            forall|k: int| 0 <= k < i ==> b@[k] == 0u8,
        decreases b.len() - i,
    {
        if b[i] != 0 {
            return false;
        }
        i += 1;
    }
    true
}

// ---------------------------------------------------------------------------
// The backend
// ---------------------------------------------------------------------------

/// The SHA3-256 commitment backend.
pub struct HashBackend;

impl Default for HashBackend {
    fn default() -> (b: HashBackend)
        ensures
            b == HashBackend,
    {
        HashBackend::new()
    }
}

impl HashBackend {
    /// A hash backend.
    pub fn new() -> (b: HashBackend)
        ensures
            b == HashBackend,
    {
        HashBackend
    }

    /// The backend identifier.
    pub fn backend_id(&self) -> (s: &'static str)
        ensures
            s@ == "hash-sha3"@,
    {
        "hash-sha3"
    }

    /// The hash backend gives no post-quantum knowledge soundness.
    pub fn is_post_quantum(&self) -> (b: bool)
        ensures
            !b,
    {
        false
    }

    /// The bytes the backend's witness commitment hashes under the witness
    /// domain: the same canonical witness encoding the prover uses.
    pub fn witness_commit_data(&self, witness: &Witness) -> (data: Vec<u8>)
        ensures
            data@ == crate::prover::witness_bytes(*witness),
    {
        crate::prover::canonical_witness_data(witness)
    }

    /// The bytes the backend's constraint commitment hashes under the proof
    /// domain.
    pub fn constraint_commit_data(&self, constraints: &ConstraintSystem) -> (data: Vec<u8>)
        ensures
            data@ == hash_constraint_system_bytes(*constraints),
    {
        let mut data: Vec<u8> = Vec::new();
        append_bytes(&mut data, constraints.version.as_str().as_bytes());
        push_u64_le(&mut data, constraints.constraints.len() as u64);
        push_u64_le(&mut data, constraints.witness_variables.len() as u64);
        push_u64_le(&mut data, constraints.public_inputs.len() as u64);
        let ghost m0 = data@;
        let mut i: usize = 0;
        while i < constraints.constraints.len()
            invariant
                i <= constraints.constraints@.len(),
                data@ == m0 + hash_constraints_bytes(constraints.constraints@.subrange(0, i as int)),
            decreases constraints.constraints.len() - i,
        {
            let c = &constraints.constraints[i];
            push_u64_le(&mut data, c.id);
            append_bytes(&mut data, c.description.as_str().as_bytes());
            proof {
                let s = constraints.constraints@.subrange(0, i + 1);
                assert(s.drop_last() =~= constraints.constraints@.subrange(0, i as int));
            }
            i += 1;
            assert(data@ =~= m0 + hash_constraints_bytes(
                constraints.constraints@.subrange(0, i as int),
            ));
        }
        assert(constraints.constraints@.subrange(0, i as int) =~= constraints.constraints@);
        assert(data@ =~= hash_constraint_system_bytes(*constraints));
        data
    }

    /// The trace commitment derived from the public inputs' roots.
    pub fn trace_commitment(&self, public_inputs: &PublicInputs) -> (h: crate::types::Hash)
        ensures
            h@ == hash_trace_commitment(public_inputs@),
    {
        let mut buf: Vec<u8> = Vec::new();
        append_bytes(&mut buf, public_inputs.root_init.0.as_slice());
        append_bytes(&mut buf, public_inputs.root_final.0.as_slice());
        assert(buf@ =~= public_inputs@.root_init + public_inputs@.root_final);
        crate::types::Hash(sha3_256(buf.as_slice()))
    }

    /// Proof data: SHA3-256 over the commitments and the public inputs.
    pub fn generate_proof_data(
        &self,
        witness_commitment: &crate::types::Hash,
        constraint_commitment: &crate::types::Hash,
        trace_commitment: &crate::types::Hash,
        public_inputs: &PublicInputs,
    ) -> (d: Vec<u8>)
        ensures
            d@.len() == 32,
            d@ == sha3_256_spec(
                hash_proof_preimage(
                    witness_commitment@,
                    constraint_commitment@,
                    trace_commitment@,
                    public_inputs@,
                ),
            ),
    {
        let mut buf: Vec<u8> = Vec::new();
        append_bytes(&mut buf, trace_commitment.0.as_slice());
        append_bytes(&mut buf, witness_commitment.0.as_slice());
        append_bytes(&mut buf, constraint_commitment.0.as_slice());
        append_bytes(&mut buf, public_inputs.root_init.0.as_slice());
        append_bytes(&mut buf, public_inputs.root_final.0.as_slice());
        push_u64_le(&mut buf, public_inputs.observables.len() as u64);
        append_bytes(&mut buf, public_inputs.domain.0.0.as_slice());
        push_u32_le(&mut buf, public_inputs.version.major);
        push_u32_le(&mut buf, public_inputs.version.minor);
        push_u32_le(&mut buf, public_inputs.version.patch);
        assert(buf@ =~= hash_proof_preimage(
            witness_commitment@,
            constraint_commitment@,
            trace_commitment@,
            public_inputs@,
        ));
        let d = sha3_256(buf.as_slice());
        let mut out: Vec<u8> = Vec::new();
        append_bytes(&mut out, d.as_slice());
        out
    }

    /// Proves from the witness and its two commitments: refuses an empty
    /// witness, and otherwise hashes the commitments, the trace commitment
    /// derived from the roots, and the public inputs.
    pub fn prove_with_commitments(
        &self,
        witness: &Witness,
        witness_commitment: &crate::types::Hash,
        constraint_commitment: &crate::types::Hash,
        public_inputs: &PublicInputs,
    ) -> (r: Result<HashBackendProof, HashBackendError>)
        ensures
            r is Err <==> witness.input_sequence@.len() == 0 && witness.intermediate_states@.len()
                == 0 && witness.aux_computation.values@.len() == 0,
            r matches Err(e) ==> e is EmptyWitness,
            r matches Ok(p) ==> p@.len() == 32,
            r matches Ok(p) ==> p@ == sha3_256_spec(
                hash_proof_preimage(
                    witness_commitment@,
                    constraint_commitment@,
                    hash_trace_commitment(public_inputs@),
                    public_inputs@,
                ),
            ),
    {
        if witness.is_empty() {
            return Err(HashBackendError::EmptyWitness);
        }
        let trace = self.trace_commitment(public_inputs);
        let data = self.generate_proof_data(
            witness_commitment,
            constraint_commitment,
            &trace,
            public_inputs,
        );
        Ok(HashBackendProof::new(data))
    }

    /// Structural check of proof bytes: 32 bytes, not all zero, under a
    /// nonzero constraint commitment.
    pub fn recompute_and_verify(
        &self,
        proof_bytes: &[u8],
        public_inputs: &PublicInputs,
        constraint_commitment: &crate::types::Hash,
    ) -> (b: bool)
        ensures
            b == hash_proof_accepted(proof_bytes@, constraint_commitment@),
    {
        if proof_bytes.len() != 32 {
            return false;
        }
        if all_zero(proof_bytes) {
            assert(proof_bytes@ =~= zero_hash_bytes());
            return false;
        }
        if constraint_commitment.is_zero() {
            return false;
        }
        assert(proof_bytes@ != zero_hash_bytes()) by {
            let k = choose|k: int| 0 <= k < proof_bytes@.len() && proof_bytes@[k] != 0u8;
            assert(zero_hash_bytes()[k] == 0u8);
        }
        true
    }

    /// Verifies a proof against the public inputs and the constraint
    /// commitment.
    pub fn verify(
        &self,
        proof: &HashBackendProof,
        public_inputs: &PublicInputs,
        constraint_commitment: &crate::types::Hash,
    ) -> (b: bool)
        ensures
            b == hash_proof_accepted(proof@, constraint_commitment@),
    {
        self.recompute_and_verify(proof.as_ref(), public_inputs, constraint_commitment)
    }

    /// The proof bytes, unchanged.
    pub fn serialize_proof(&self, proof: &HashBackendProof) -> (v: Vec<u8>)
        ensures
            v@ == proof@,
    {
        proof.0.clone()
    }

    /// Reads a proof: exactly 32 bytes.
    pub fn deserialize_proof(&self, bytes: &[u8]) -> (r: Result<HashBackendProof, HashBackendError>)
        ensures
            r is Ok <==> hash_deserialize_spec(bytes@) is Some,
            r matches Ok(p) ==> hash_deserialize_spec(bytes@) == Some(p@),
            bytes@.len() == 0 ==> (r matches Err(HashBackendError::DeserializationFailed(s))
                && s@ == "empty proof bytes"@),
            bytes@.len() != 0 && bytes@.len() != 32 ==> (r matches Err(
                HashBackendError::DeserializationFailed(s),
            ) && s@ == hash_wrong_length_text(bytes@.len())),
    {
        if bytes.len() == 0 {
            return Err(HashBackendError::DeserializationFailed(owned("empty proof bytes")));
        }
        if bytes.len() != 32 {
            let n = decimal(bytes.len() as u64);
            return Err(
                HashBackendError::DeserializationFailed(
                    concat3("expected 32 bytes (SHA3-256 output), got ", n.as_str(), " bytes"),
                ),
            );
        }
        let mut v: Vec<u8> = Vec::new();
        append_bytes(&mut v, bytes);
        Ok(HashBackendProof::new(v))
    }
}

// ---------------------------------------------------------------------------
// Laws
// ---------------------------------------------------------------------------

/// Deserializing what serialization wrote gives the proof back, byte for
/// byte, for every proof of 32 bytes (every proof the backend makes).
pub proof fn lemma_hash_proof_roundtrip(p: Seq<u8>)
    requires
        p.len() == 32,
    ensures
        hash_deserialize_spec(p) == Some(p),
{
}

/// A proof made from 32 digest bytes is accepted exactly when it is not the
/// all-zero digest and the constraint commitment is nonzero; proofs of any
/// other length are never accepted.
pub proof fn lemma_hash_accepts_only_digests(proof: Seq<u8>, constraint_commitment: Seq<u8>)
    ensures
        hash_proof_accepted(proof, constraint_commitment) ==> proof.len() == 32,
        proof.len() == 32 ==> (hash_proof_accepted(proof, constraint_commitment) <==> (proof
            != zero_hash_bytes() && constraint_commitment != zero_hash_bytes())),
{
}

} // verus!
