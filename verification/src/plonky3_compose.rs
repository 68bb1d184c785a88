//! The Plonky3 backend's proving and verifying checks, its FRI commitment
//! and query derivations, its proof (de)serialization, and recursive
//! composition of proofs.

use vstd::prelude::*;

use crate::codec::append_bytes;
use crate::constraints::ConstraintSystem;
use crate::encoding::{
    le_u32_value, push_u32_le, push_u64_le, sha3_256, sha3_256_spec, u32_from_le, u32_le, u64_le,
};
use crate::goldilocks::GoldilocksField;
use crate::plonky3_backend::{
    failure_text_matches, field_list_view, stark_decode, stark_decode_failure, stark_encoding,
    u64_list_bytes, Plonky3Backend, Plonky3Error, Plonky3ErrorModel, StarkProof,
    MAX_CONSTRAINT_SYSTEM_SIZE, MAX_PROOF_SIZE_BYTES, MAX_WITNESS_INTERMEDIATE_STATES,
};
use crate::prover::{state_commitments_bytes, witness_inputs_bytes};
use crate::public_inputs::{PublicInputs, PublicInputsModel};
use crate::text::{decimal, decimal_spec, owned, push_str, utf8_bytes};
use crate::types::{observables_view, zero_hash_bytes};
use crate::witness::Witness;

verus! {

// ---------------------------------------------------------------------------
// Digests
// ---------------------------------------------------------------------------

/// SHA3-256 of a domain label followed by data.
pub open spec fn labelled_hash(label: Seq<char>, data: Seq<u8>) -> Seq<u8> {
    sha3_256_spec(utf8_bytes(label) + data)
}

/// SHA3-256 of the label's bytes followed by the data.
fn labelled_digest(label: &str, data: &[u8]) -> (h: Vec<u8>)
    ensures
        h@ == labelled_hash(label@, data@),
        h@.len() == 32,
{
    let mut buf: Vec<u8> = Vec::new();
    append_bytes(&mut buf, label.as_bytes());
    append_bytes(&mut buf, data);
    let d = sha3_256(buf.as_slice());
    let mut out: Vec<u8> = Vec::new();
    append_bytes(&mut out, d.as_slice());
    out
}

/// Concatenation of byte strings, in order.
pub open spec fn concat_all(l: Seq<Seq<u8>>) -> Seq<u8>
    decreases l.len(),
{
    if l.len() == 0 {
        Seq::empty()
    } else {
        concat_all(l.drop_last()) + l.last()
    }
}

// ---------------------------------------------------------------------------
// FRI commitment layers and query responses
// ---------------------------------------------------------------------------

/// Witness bytes the base FRI layer hashes: the state commitments and the
/// inputs, each list after its count.
pub open spec fn fri_witness_bytes(w: Witness) -> Seq<u8> {
    u64_le(w.intermediate_states@.len() as u64) + state_commitments_bytes(w.intermediate_states@)
        + u64_le(w.input_sequence@.len() as u64) + witness_inputs_bytes(w.input_sequence@)
}

/// Data a folding layer hashes: the previous layer, the round, the
/// constraint system's version and size, and the two roots.
pub open spec fn fri_fold_data(
    prev: Seq<u8>,
    round: nat,
    cs: ConstraintSystem,
    p: PublicInputsModel,
) -> Seq<u8> {
    prev + u64_le(round as u64) + utf8_bytes(cs.version@) + u64_le(cs.constraints@.len() as u64)
        + p.root_init + p.root_final
}

/// FRI layer `k`: the base layer over the witness, then each folding layer
/// over the one before.
pub open spec fn fri_layer(w: Witness, cs: ConstraintSystem, p: PublicInputsModel, k: nat) -> Seq<
    u8,
>
    decreases k,
{
    if k == 0 {
        labelled_hash("plonky3-fri-base"@, fri_witness_bytes(w))
    } else {
        labelled_hash("plonky3-fri-fold"@, fri_fold_data(fri_layer(w, cs, p, (k - 1) as nat), k, cs, p))
    }
}

/// Query response `q`: over the query index, every FRI commitment and the
/// public input values.
pub open spec fn query_response(q: nat, fri: Seq<Seq<u8>>, values: Seq<u64>) -> Seq<u8> {
    labelled_hash("plonky3-query"@, u64_le(q as u64) + concat_all(fri) + u64_list_bytes(values))
}

/// Digest binding the complete content of the observables.
pub open spec fn observable_digest_spec(p: PublicInputsModel) -> Seq<u8> {
    labelled_hash(
        "vsel-public-observables-v1"@,
        u64_le(p.observables.len() as u64) + crate::cairo_stark::observables_commit_bytes(
            p.observables,
        ),
    )
}

impl Plonky3Backend {
    /// The FRI commitment layers: one base layer over the witness and one
    /// folding layer per folding round.
    pub fn generate_fri_commitments(
        &self,
        witness: &Witness,
        constraints: &ConstraintSystem,
        public_inputs: &PublicInputs,
    ) -> (c: Vec<Vec<u8>>)
        ensures
            c@.len() == self.config.fri_folding_factor + 1,
            forall|k: int|
                0 <= k < c@.len() ==> (#[trigger] c@[k])@ == fri_layer(
                    *witness,
                    *constraints,
                    public_inputs@,
                    k as nat,
                ),
    {
        let mut witness_data: Vec<u8> = Vec::new();
        push_u64_le(&mut witness_data, witness.intermediate_states.len() as u64);
        let ghost m0 = witness_data@;
        let mut i: usize = 0;
        while i < witness.intermediate_states.len()
            invariant
                i <= witness.intermediate_states@.len(),
                witness_data@ == m0 + state_commitments_bytes(
                    witness.intermediate_states@.subrange(0, i as int),
                ),
            decreases witness.intermediate_states.len() - i,
        {
            append_bytes(&mut witness_data, witness.intermediate_states[i].0.as_slice());
            proof {
                let s = witness.intermediate_states@.subrange(0, i + 1);
                assert(s.drop_last() =~= witness.intermediate_states@.subrange(0, i as int));
            }
            i += 1;
            assert(witness_data@ =~= m0 + state_commitments_bytes(
                witness.intermediate_states@.subrange(0, i as int),
            ));
        }
        assert(witness.intermediate_states@.subrange(0, i as int) =~= witness.intermediate_states@);
        push_u64_le(&mut witness_data, witness.input_sequence.len() as u64);
        let ghost m1 = witness_data@;
        let mut j: usize = 0;
        while j < witness.input_sequence.len()
            invariant
                j <= witness.input_sequence@.len(),
                witness_data@ == m1 + witness_inputs_bytes(witness.input_sequence@.subrange(0, j as int)),
            decreases witness.input_sequence.len() - j,
        {
            let inp = &witness.input_sequence[j];
            append_bytes(&mut witness_data, inp.payload_type.as_str().as_bytes());
            append_bytes(&mut witness_data, inp.data.as_slice());
            push_u64_le(&mut witness_data, inp.nonce);
            proof {
                let s = witness.input_sequence@.subrange(0, j + 1);
                assert(s.drop_last() =~= witness.input_sequence@.subrange(0, j as int));
            }
            j += 1;
            assert(witness_data@ =~= m1 + witness_inputs_bytes(
                witness.input_sequence@.subrange(0, j as int),
            ));
        }
        assert(witness.input_sequence@.subrange(0, j as int) =~= witness.input_sequence@);
        assert(witness_data@ =~= fri_witness_bytes(*witness));

        let ghost pv = public_inputs@;
        let base = labelled_digest("plonky3-fri-base", witness_data.as_slice());
        let mut commitments: Vec<Vec<u8>> = Vec::new();
        commitments.push(base.clone());
        let mut prev = base;
        let rounds: u64 = self.config.fri_folding_factor as u64;
        let mut round: u64 = 1;
        while round <= rounds
            invariant
                1 <= round <= rounds + 1,
                rounds == self.config.fri_folding_factor,
                pv == public_inputs@,
                commitments@.len() == round,
                prev@ == fri_layer(*witness, *constraints, pv, (round - 1) as nat),
                forall|k: int|
                    0 <= k < commitments@.len() ==> (#[trigger] commitments@[k])@ == fri_layer(
                        *witness,
                        *constraints,
                        pv,
                        k as nat,
                    ),
            decreases rounds + 1 - round,
        {
            let mut layer_data: Vec<u8> = Vec::new();
            append_bytes(&mut layer_data, prev.as_slice());
            push_u64_le(&mut layer_data, round);
            append_bytes(&mut layer_data, constraints.version.as_str().as_bytes());
            push_u64_le(&mut layer_data, constraints.constraints.len() as u64);
            append_bytes(&mut layer_data, public_inputs.root_init.0.as_slice());
            append_bytes(&mut layer_data, public_inputs.root_final.0.as_slice());
            assert(layer_data@ =~= fri_fold_data(prev@, round as nat, *constraints, pv));
            let layer = labelled_digest("plonky3-fri-fold", layer_data.as_slice());
            commitments.push(layer.clone());
            prev = layer;
            round += 1;
        }
        commitments
    }

    /// The FRI query responses, one per configured query.
    pub fn generate_query_responses(
        &self,
        fri_commitments: &[Vec<u8>],
        public_input_elements: &[GoldilocksField],
    ) -> (r: Vec<Vec<u8>>)
        ensures
            r@.len() == self.config.num_fri_queries,
            forall|q: int|
                0 <= q < r@.len() ==> (#[trigger] r@[q])@ == query_response(
                    q as nat,
                    crate::plonky3_backend::bytes_list_view(fri_commitments@),
                    field_list_view(public_input_elements@),
                ),
    {
        let ghost fri = crate::plonky3_backend::bytes_list_view(fri_commitments@);
        let ghost vals = field_list_view(public_input_elements@);
        let mut body: Vec<u8> = Vec::new();
        let mut i: usize = 0;
        while i < fri_commitments.len()
            invariant
                i <= fri_commitments@.len(),
                fri == crate::plonky3_backend::bytes_list_view(fri_commitments@),
                body@ == concat_all(fri.subrange(0, i as int)),
            decreases fri_commitments.len() - i,
        {
            append_bytes(&mut body, fri_commitments[i].as_slice());
            proof {
                let s = fri.subrange(0, i + 1);
                assert(s.drop_last() =~= fri.subrange(0, i as int));
            }
            i += 1;
        }
        assert(fri.subrange(0, i as int) =~= fri);
        let ghost mid = body@;
        let mut j: usize = 0;
        while j < public_input_elements.len()
            invariant
                j <= public_input_elements@.len(),
                vals == field_list_view(public_input_elements@),
                body@ == mid + u64_list_bytes(vals.subrange(0, j as int)),
            decreases public_input_elements.len() - j,
        {
            let b = public_input_elements[j].to_bytes();
            append_bytes(&mut body, b.as_slice());
            proof {
                let s = vals.subrange(0, j + 1);
                assert(s.drop_last() =~= vals.subrange(0, j as int));
            }
            j += 1;
            assert(body@ =~= mid + u64_list_bytes(vals.subrange(0, j as int)));
        }
        assert(vals.subrange(0, j as int) =~= vals);
        let n: u64 = self.config.num_fri_queries as u64;
        let mut responses: Vec<Vec<u8>> = Vec::new();
        let mut q: u64 = 0;
        while q < n
            invariant
                q <= n,
                n == self.config.num_fri_queries,
                body@ == concat_all(fri) + u64_list_bytes(vals),
                responses@.len() == q,
                forall|k: int|
                    0 <= k < responses@.len() ==> (#[trigger] responses@[k])@ == query_response(
                        k as nat,
                        fri,
                        vals,
                    ),
            decreases n - q,
        {
            let mut data: Vec<u8> = Vec::new();
            push_u64_le(&mut data, q);
            append_bytes(&mut data, body.as_slice());
            assert(data@ =~= u64_le(q) + concat_all(fri) + u64_list_bytes(vals));
            let h = labelled_digest("plonky3-query", data.as_slice());
            responses.push(h);
            q += 1;
        }
        responses
    }

    /// Digest of the complete content of the public inputs' observables.
    pub fn observable_digest(public_inputs: &PublicInputs) -> (d: Vec<u8>)
        ensures
            d@ == observable_digest_spec(public_inputs@),
            d@.len() == 32,
    {
        let mut data: Vec<u8> = Vec::new();
        push_u64_le(&mut data, public_inputs.observables.len() as u64);
        crate::cairo_stark::append_observables(&mut data, public_inputs.observables.as_slice());
        labelled_digest("vsel-public-observables-v1", data.as_slice())
    }
}

// ---------------------------------------------------------------------------
// Proving and verifying checks
// ---------------------------------------------------------------------------

/// Text of the error for a constraint system over the proving bound.
pub open spec fn oversized_constraints_text(n: nat) -> Seq<char> {
    "constraint system exceeds maximum: "@ + decimal_spec(n) + " > "@ + decimal_spec(
        MAX_CONSTRAINT_SYSTEM_SIZE as nat,
    )
}

/// Text of the error for a witness over the proving bound.
pub open spec fn oversized_witness_text(n: nat) -> Seq<char> {
    "witness exceeds maximum: "@ + decimal_spec(n) + " > "@ + decimal_spec(
        MAX_WITNESS_INTERMEDIATE_STATES as nat,
    )
}

/// Text of the error for proof bytes over the size bound.
pub open spec fn oversized_proof_text(n: nat) -> Seq<char> {
    "proof exceeds maximum size: "@ + decimal_spec(n) + " > "@ + decimal_spec(
        MAX_PROOF_SIZE_BYTES as nat,
    )
}

/// What proving refuses before any work, in the order it checks: an empty
/// witness, then an oversized constraint system, then an oversized witness.
pub open spec fn prove_input_error(w: Witness, cs: ConstraintSystem) -> Option<Plonky3ErrorModel> {
    if w.input_sequence@.len() == 0 && w.intermediate_states@.len() == 0
        && w.aux_computation.values@.len() == 0 {
        Some(Plonky3ErrorModel::EmptyWitness)
    } else if cs.constraints@.len() > MAX_CONSTRAINT_SYSTEM_SIZE {
        Some(
            Plonky3ErrorModel::ProofGenerationFailed(
                oversized_constraints_text(cs.constraints@.len()),
            ),
        )
    } else if w.intermediate_states@.len() > MAX_WITNESS_INTERMEDIATE_STATES {
        Some(
            Plonky3ErrorModel::ProofGenerationFailed(
                oversized_witness_text(w.intermediate_states@.len()),
            ),
        )
    } else {
        None
    }
}

/// The checks verification makes before the native STARK verification.
pub open spec fn proof_structure_ok(
    proof: StarkProof,
    expected_values: Seq<u64>,
    constraint_commitment: Seq<u8>,
) -> bool {
    &&& proof.serialized@.len() <= MAX_PROOF_SIZE_BYTES
    &&& proof.native_proof_bytes@.len() <= MAX_PROOF_SIZE_BYTES
    &&& proof.fri_commitments@.len() > 0
    &&& proof.query_responses@.len() > 0
    &&& proof.backend_id@ == "plonky3-stark"@
    &&& field_list_view(proof.public_input_values@) == expected_values
    &&& constraint_commitment != zero_hash_bytes()
    &&& proof.native_proof_bytes@.len() > 0
}

/// What deserialization gives for given bytes.
pub open spec fn stark_deserialize_error(bytes: Seq<u8>) -> Option<Plonky3ErrorModel> {
    if bytes.len() == 0 {
        Some(Plonky3ErrorModel::DeserializationFailed("empty proof bytes"@))
    } else if bytes.len() > MAX_PROOF_SIZE_BYTES {
        Some(Plonky3ErrorModel::DeserializationFailed(oversized_proof_text(bytes.len())))
    } else {
        None
    }
}

fn bound_message(prefix: &str, n: usize, max: usize) -> (s: String)
    ensures
        s@ == prefix@ + decimal_spec(n as nat) + " > "@ + decimal_spec(max as nat),
{
    let mut s = owned(prefix);
    push_str(&mut s, decimal(n as u64).as_str());
    push_str(&mut s, " > ");
    push_str(&mut s, decimal(max as u64).as_str());
    s
}

impl Plonky3Backend {
    /// The checks proving makes before any work: the witness is not empty
    /// and the constraint system and witness are within the bounds.
    pub fn validate_prove_inputs(witness: &Witness, constraints: &ConstraintSystem) -> (r: Result<
        (),
        Plonky3Error,
    >)
        ensures
            r is Ok <==> prove_input_error(*witness, *constraints) is None,
            r matches Err(e) ==> Some(e@) == prove_input_error(*witness, *constraints),
    {
        if witness.is_empty() {
            return Err(Plonky3Error::EmptyWitness);
        }
        if constraints.constraints.len() > MAX_CONSTRAINT_SYSTEM_SIZE {
            return Err(
                Plonky3Error::ProofGenerationFailed(
                    bound_message(
                        "constraint system exceeds maximum: ",
                        constraints.constraints.len(),
                        MAX_CONSTRAINT_SYSTEM_SIZE,
                    ),
                ),
            );
        }
        if witness.intermediate_states.len() > MAX_WITNESS_INTERMEDIATE_STATES {
            return Err(
                Plonky3Error::ProofGenerationFailed(
                    bound_message(
                        "witness exceeds maximum: ",
                        witness.intermediate_states.len(),
                        MAX_WITNESS_INTERMEDIATE_STATES,
                    ),
                ),
            );
        }
        Ok(())
    }

    /// The checks verification makes before the native STARK verification:
    /// size bounds, nonempty commitments and queries, the backend
    /// identifier, the public input values against the expected encoding,
    /// a nonzero constraint commitment and nonempty native bytes.
    pub fn check_proof_structure(
        &self,
        proof: &StarkProof,
        expected_values: &[GoldilocksField],
        constraint_commitment: &crate::types::Hash,
    ) -> (b: bool)
        ensures
            b == proof_structure_ok(
                *proof,
                field_list_view(expected_values@),
                constraint_commitment@,
            ),
    {
        if proof.serialized.len() > MAX_PROOF_SIZE_BYTES {
            return false;
        }
        if proof.native_proof_bytes.len() > MAX_PROOF_SIZE_BYTES {
            return false;
        }
        if proof.fri_commitments.len() == 0 || proof.query_responses.len() == 0 {
            return false;
        }
        if !crate::text::chars_equal(
            crate::text::str_chars(proof.backend_id.as_str()).as_slice(),
            crate::text::str_chars("plonky3-stark").as_slice(),
        ) {
            return false;
        }
        if !field_lists_equal(proof.public_input_values.as_slice(), expected_values) {
            return false;
        }
        if constraint_commitment.is_zero() {
            return false;
        }
        if proof.native_proof_bytes.len() == 0 {
            return false;
        }
        true
    }

    /// The serialized form of a proof.
    pub fn serialize_proof(&self, proof: &StarkProof) -> (v: Vec<u8>)
        ensures
            v@ == stark_encoding(proof@),
    {
        proof.to_bytes()
    }

    /// Reads a proof: refuses empty and oversized input, then decodes.
    pub fn deserialize_proof(&self, bytes: &[u8]) -> (r: Result<StarkProof, Plonky3Error>)
        ensures
            stark_deserialize_error(bytes@) is Some ==> (r matches Err(e) && Some(e@)
                == stark_deserialize_error(bytes@)),
            stark_deserialize_error(bytes@) is None ==> (r is Ok <==> stark_decode(bytes@) is Some),
            stark_deserialize_error(bytes@) is None ==> (r matches Err(e) ==> e@ matches Plonky3ErrorModel::DeserializationFailed(
                m,
            ) && stark_decode_failure(bytes@) matches Some(f) && failure_text_matches(f, m)),
            r matches Ok(p) ==> Some(p@) == stark_decode(bytes@) && p.serialized@ == bytes@,
            r matches Err(e) ==> e@ is DeserializationFailed,
    {
        if bytes.len() == 0 {
            return Err(Plonky3Error::DeserializationFailed(owned("empty proof bytes")));
        }
        if bytes.len() > MAX_PROOF_SIZE_BYTES {
            return Err(
                Plonky3Error::DeserializationFailed(
                    bound_message("proof exceeds maximum size: ", bytes.len(), MAX_PROOF_SIZE_BYTES),
                ),
            );
        }
        StarkProof::from_bytes(bytes)
    }
}

/// Element-wise equality of two lists of field elements.
fn field_lists_equal(a: &[GoldilocksField], b: &[GoldilocksField]) -> (eq: bool)
    ensures
        eq == (field_list_view(a@) == field_list_view(b@)),
{
    if a.len() != b.len() {
        return false;
    }
    let mut i: usize = 0;
    while i < a.len()
        invariant
            i <= a@.len(),
            a@.len() == b@.len(),
            forall|k: int| 0 <= k < i ==> a@[k].0 == b@[k].0,
        decreases a.len() - i,
    {
        if a[i].0 != b[i].0 {
            assert(field_list_view(a@)[i as int] != field_list_view(b@)[i as int]);
            return false;
        }
        i += 1;
    }
    assert(field_list_view(a@) =~= field_list_view(b@));
    true
}


/// The FRI commitment layers of each proof.
pub open spec fn fri_layers_of(proofs: Seq<StarkProof>) -> Seq<Seq<Seq<u8>>> {
    proofs.map_values(|p: StarkProof| p@.fri_commitments)
}

/// The largest number of layers among the proofs, zero for none.
pub open spec fn most_layers(ls: Seq<Seq<Seq<u8>>>) -> nat
    decreases ls.len(),
{
    if ls.len() == 0 {
        0
    } else {
        max_len(most_layers(ls.drop_last()), ls.last().len())
    }
}

/// Layer `i` of each proof in turn, 32 zero bytes for a proof without it.
pub open spec fn layer_row(ls: Seq<Seq<Seq<u8>>>, i: int) -> Seq<u8>
    decreases ls.len(),
{
    if ls.len() == 0 {
        Seq::empty()
    } else {
        layer_row(ls.drop_last(), i) + layer_or_zero(ls.last(), i)
    }
}

/// FRI commitments composed from any number of proofs: per layer, a
/// domain-separated hash of the layer index, the number of proofs and
/// every proof's commitment at that layer.
pub open spec fn compose_fri_all_spec(ls: Seq<Seq<Seq<u8>>>) -> Seq<Seq<u8>> {
    Seq::new(
        most_layers(ls),
        |i: int|
            labelled_hash(
                "plonky3-stark-compose-fri"@,
                u64_le(i as u64) + u64_le(ls.len() as u64) + layer_row(ls, i),
            ),
    )
}

impl Plonky3Backend {
    /// FRI commitments composed from any number of proofs at once, layer by
    /// layer (the form that preceded pairwise composition).
    pub fn compose_fri_commitments(proofs: &[StarkProof]) -> (c: Vec<Vec<u8>>)
        ensures
            crate::plonky3_backend::bytes_list_view(c@) == compose_fri_all_spec(
                fri_layers_of(proofs@),
            ),
    {
        let ghost ls = fri_layers_of(proofs@);
        let mut max_layers: usize = 0;
        let mut j: usize = 0;
        while j < proofs.len()
            invariant
                j <= proofs.len(),
                ls == fri_layers_of(proofs@),
                max_layers == most_layers(ls.take(j as int)),
            decreases proofs.len() - j,
        {
            assert(ls.take(j + 1).drop_last() =~= ls.take(j as int));
            if proofs[j].fri_commitments.len() > max_layers {
                max_layers = proofs[j].fri_commitments.len();
            }
            j += 1;
        }
        assert(ls.take(proofs.len() as int) =~= ls);
        let zero: [u8; 32] = [0u8; 32];
        assert(zero@ =~= zero_hash_bytes());
        let mut composed: Vec<Vec<u8>> = Vec::new();
        let mut k: usize = 0;
        while k < max_layers
            invariant
                k <= max_layers,
                max_layers == most_layers(ls),
                ls == fri_layers_of(proofs@),
                zero@ == zero_hash_bytes(),
                composed@.len() == k,
                forall|i: int|
                    0 <= i < k ==> (#[trigger] composed@[i])@ == compose_fri_all_spec(ls)[i],
            decreases max_layers - k,
        {
            let mut data: Vec<u8> = Vec::new();
            push_u64_le(&mut data, k as u64);
            push_u64_le(&mut data, proofs.len() as u64);
            let ghost head = data@;
            let mut j: usize = 0;
            while j < proofs.len()
                invariant
                    j <= proofs.len(),
                    ls == fri_layers_of(proofs@),
                    zero@ == zero_hash_bytes(),
                    data@ == head + layer_row(ls.take(j as int), k as int),
                decreases proofs.len() - j,
            {
                assert(ls.take(j + 1).drop_last() =~= ls.take(j as int));
                assert(ls.take(j + 1).last() == proofs@[j as int]@.fri_commitments);
                if k < proofs[j].fri_commitments.len() {
                    append_bytes(&mut data, proofs[j].fri_commitments[k].as_slice());
                } else {
                    append_bytes(&mut data, zero.as_slice());
                }
                j += 1;
                assert(data@ =~= head + layer_row(ls.take(j as int), k as int));
            }
            assert(ls.take(proofs.len() as int) =~= ls);
            assert(ls.len() == proofs.len());
            let h = labelled_digest("plonky3-stark-compose-fri", data.as_slice());
            composed.push(h);
            k += 1;
        }
        assert(crate::plonky3_backend::bytes_list_view(composed@) =~= compose_fri_all_spec(ls));
        composed
    }
}

// ---------------------------------------------------------------------------
// Native proof bundles
// ---------------------------------------------------------------------------

/// A native proof bundle: the length of the constraint system's encoding as
/// four little-endian bytes (the length taken modulo 2^32), that encoding,
/// then the native proof's encoding.
pub open spec fn native_bundle_spec(cs: Seq<u8>, proof: Seq<u8>) -> Seq<u8> {
    u32_le(cs.len() as u32) + cs + proof
}

/// Length of the constraint system's encoding that a bundle declares.
pub open spec fn declared_cs_len(bundle: Seq<u8>) -> int {
    le_u32_value(bundle.subrange(0, 4))
}

/// Why a bundle does not split into its two encodings.
pub open spec fn native_bundle_error(bundle: Seq<u8>) -> Option<Seq<char>> {
    if bundle.len() < 4 {
        Some("native proof bundle too short: missing constraint system length"@)
    } else if 4 + declared_cs_len(bundle) > bundle.len() {
        Some(
            "native proof bundle truncated: constraint system needs "@ + decimal_spec(
                declared_cs_len(bundle) as nat,
            ) + " bytes, have "@ + decimal_spec((bundle.len() - 4) as nat),
        )
    } else {
        None
    }
}

impl Plonky3Backend {
    /// Frames a constraint system's encoding and a native proof's encoding
    /// into one bundle.
    pub fn frame_native_proof_bundle(cs_bytes: &[u8], proof_bytes: &[u8]) -> (b: Vec<u8>)
        ensures
            b@ == native_bundle_spec(cs_bytes@, proof_bytes@),
    {
        let mut bundle: Vec<u8> = Vec::new();
        push_u32_le(&mut bundle, cs_bytes.len() as u32);
        append_bytes(&mut bundle, cs_bytes);
        append_bytes(&mut bundle, proof_bytes);
        assert(bundle@ =~= native_bundle_spec(cs_bytes@, proof_bytes@));
        bundle
    }

    /// Splits a bundle into the constraint system's encoding and the native
    /// proof's encoding.
    pub fn split_native_proof_bundle(bundle: &[u8]) -> (r: Result<(Vec<u8>, Vec<u8>), Plonky3Error>)
        ensures
            r is Ok <==> native_bundle_error(bundle@) is None,
            r matches Err(e) ==> e@ == Plonky3ErrorModel::DeserializationFailed(
                native_bundle_error(bundle@)->0,
            ),
            r matches Ok((cs, proof)) ==> {
                &&& cs@ == bundle@.subrange(4, 4 + declared_cs_len(bundle@))
                &&& proof@ == bundle@.subrange(4 + declared_cs_len(bundle@), bundle@.len() as int)
            },
    {
        if bundle.len() < 4 {
            return Err(
                Plonky3Error::DeserializationFailed(
                    owned("native proof bundle too short: missing constraint system length"),
                ),
            );
        }
        let cs_len = u32_from_le(bundle[0], bundle[1], bundle[2], bundle[3]);
        assert(seq![bundle@[0], bundle@[1], bundle@[2], bundle@[3]] =~= bundle@.subrange(0, 4));
        if cs_len as usize > bundle.len() - 4 {
            let mut msg = owned("native proof bundle truncated: constraint system needs ");
            push_str(&mut msg, decimal(cs_len as u64).as_str());
            push_str(&mut msg, " bytes, have ");
            push_str(&mut msg, decimal((bundle.len() - 4) as u64).as_str());
            return Err(Plonky3Error::DeserializationFailed(msg));
        }
        let cs_end = 4 + cs_len as usize;
        let cs = copy_range(bundle, 4, cs_end);
        let proof = copy_range(bundle, cs_end, bundle.len());
        Ok((cs, proof))
    }
}

fn copy_range(bytes: &[u8], start: usize, end: usize) -> (r: Vec<u8>)
    requires
        start <= end <= bytes@.len(),
    ensures
        r@ == bytes@.subrange(start as int, end as int),
{
    let mut r: Vec<u8> = Vec::new();
    let mut i: usize = start;
    while i < end
        invariant
            start <= i <= end <= bytes@.len(),
            r@ == bytes@.subrange(start as int, i as int),
        decreases end - i,
    {
        r.push(bytes[i]);
        i += 1;
        assert(r@ =~= bytes@.subrange(start as int, i as int));
    }
    r
}

/// Splitting a framed bundle gives back both encodings, when the constraint
/// system's encoding is shorter than 2^32 bytes.
pub proof fn lemma_native_bundle_roundtrip(cs: Seq<u8>, proof: Seq<u8>)
    requires
        cs.len() <= u32::MAX,
    ensures
        native_bundle_error(native_bundle_spec(cs, proof)) is None,
        declared_cs_len(native_bundle_spec(cs, proof)) == cs.len(),
        native_bundle_spec(cs, proof).subrange(4, 4 + cs.len() as int) == cs,
        native_bundle_spec(cs, proof).subrange(
            4 + cs.len() as int,
            native_bundle_spec(cs, proof).len() as int,
        ) == proof,
{
    let b = native_bundle_spec(cs, proof);
    let n = cs.len() as u32;
    crate::encoding::lemma_u32_le_roundtrip(n);
    assert(b.subrange(0, 4) =~= u32_le(n));
    assert(b.subrange(4, 4 + cs.len() as int) =~= cs);
    assert(b.subrange(4 + cs.len() as int, b.len() as int) =~= proof);
}

// ---------------------------------------------------------------------------
// Recursive composition
// ---------------------------------------------------------------------------

/// The statement of two composed consecutive statements: the left initial
/// root, the right final root, the observables of both in order, and the
/// left domain and version.
pub open spec fn compose_public_spec(l: PublicInputsModel, r: PublicInputsModel) -> PublicInputsModel {
    PublicInputsModel {
        root_init: l.root_init,
        root_final: r.root_final,
        observables: l.observables + r.observables,
        domain: l.domain,
        version: l.version,
    }
}

/// The statement of the first `n` statements composed left to right.
pub open spec fn composed_public_spec(pis: Seq<PublicInputsModel>, n: nat) -> PublicInputsModel
    decreases n,
{
    if n <= 1 {
        pis[0]
    } else {
        compose_public_spec(composed_public_spec(pis, (n - 1) as nat), pis[n - 1])
    }
}

/// Layer `i` of a list of FRI commitments, or 32 zero bytes past its end.
pub open spec fn layer_or_zero(l: Seq<Seq<u8>>, i: int) -> Seq<u8> {
    if i < l.len() {
        l[i]
    } else {
        zero_hash_bytes()
    }
}

/// The larger of two lengths.
pub open spec fn max_len(a: nat, b: nat) -> nat {
    if a >= b {
        a
    } else {
        b
    }
}

/// FRI commitments of a composed proof: per layer, a domain-separated hash
/// of the layer index and both proofs' commitments at that layer.
pub open spec fn compose_fri_spec(l: Seq<Seq<u8>>, r: Seq<Seq<u8>>) -> Seq<Seq<u8>> {
    Seq::new(
        max_len(l.len(), r.len()),
        |i: int|
            labelled_hash(
                "plonky3-stark-recursive-compose-fri"@,
                u64_le(i as u64) + layer_or_zero(l, i) + layer_or_zero(r, i),
            ),
    )
}

/// Native bytes of a composed proof: each side's native bytes after its
/// length as a `u32`.
pub open spec fn bundle_spec(l: Seq<u8>, r: Seq<u8>) -> Seq<u8> {
    u32_le(l.len() as u32) + l + u32_le(r.len() as u32) + r
}

/// FRI commitments of the first `n` proofs composed left to right.
pub open spec fn composed_fri_spec(fris: Seq<Seq<Seq<u8>>>, n: nat) -> Seq<Seq<u8>>
    decreases n,
{
    if n <= 1 {
        fris[0]
    } else {
        compose_fri_spec(composed_fri_spec(fris, (n - 1) as nat), fris[n - 1])
    }
}

/// Native bytes of the first `n` proofs composed left to right.
pub open spec fn composed_native_spec(natives: Seq<Seq<u8>>, n: nat) -> Seq<u8>
    decreases n,
{
    if n <= 1 {
        natives[0]
    } else {
        bundle_spec(composed_native_spec(natives, (n - 1) as nat), natives[n - 1])
    }
}

/// The query responses a proof with these commitments and values carries.
pub open spec fn query_responses_spec(count: nat, fri: Seq<Seq<u8>>, values: Seq<u64>) -> Seq<
    Seq<u8>,
> {
    Seq::new(count, |q: int| query_response(q as nat, fri, values))
}

/// Whether `p` is the proof a composition step makes from these FRI
/// commitments and native bytes, with public input values that `encode`
/// gave for the composed statement `statement`.
pub open spec fn is_composed_proof<F: Fn(&PublicInputs) -> Vec<GoldilocksField>>(
    p: StarkProof,
    num_queries: nat,
    fri: Seq<Seq<u8>>,
    native: Seq<u8>,
    statement: PublicInputsModel,
    encode: F,
) -> bool {
    &&& p@.fri_commitments == fri
    &&& p@.native_proof_bytes == native
    &&& p@.backend_id == "plonky3-stark"@
    &&& p@.query_responses == query_responses_spec(num_queries, fri, p@.public_input_values)
    &&& p.serialized@ == stark_encoding(p@)
    &&& exists|q: PublicInputs| q@ == statement && encode.ensures((&q,), p.public_input_values)
}

/// The proofs' FRI commitments, in order.
pub open spec fn proofs_fri(proofs: Seq<StarkProof>) -> Seq<Seq<Seq<u8>>> {
    proofs.map_values(|p: StarkProof| p@.fri_commitments)
}

/// The proofs' native bytes, in order.
pub open spec fn proofs_native(proofs: Seq<StarkProof>) -> Seq<Seq<u8>> {
    proofs.map_values(|p: StarkProof| p@.native_proof_bytes)
}

/// The statements' abstract values, in order.
pub open spec fn statements_view(pis: Seq<PublicInputs>) -> Seq<PublicInputsModel> {
    pis.map_values(|p: PublicInputs| p@)
}

pub(crate) fn copy_observables(dst: &mut Vec<crate::types::Observable>, src: &[crate::types::Observable])
    ensures
        observables_view(final(dst)@) == observables_view(old(dst)@) + observables_view(src@),
{
    let ghost start = observables_view(dst@);
    let mut i: usize = 0;
    while i < src.len()
        invariant
            i <= src@.len(),
            observables_view(dst@) == start + observables_view(src@.subrange(0, i as int)),
        decreases src.len() - i,
    {
        let ghost before = dst@;
        let d = src[i].duplicate();
        dst.push(d);
        assert(observables_view(dst@) =~= observables_view(before).push(src@[i as int]@));
        proof {
            assert(observables_view(src@.subrange(0, i + 1)) =~= observables_view(
                src@.subrange(0, i as int),
            ).push(src@[i as int]@));
        }
        i += 1;
        assert(observables_view(dst@) =~= start + observables_view(src@.subrange(0, i as int)));
    }
    assert(src@.subrange(0, i as int) =~= src@);
}

impl Plonky3Backend {
    /// The composed statement of two consecutive statements.
    pub fn compose_public_inputs(left_pub: &PublicInputs, right_pub: &PublicInputs) -> (p:
        PublicInputs)
        ensures
            p@ == compose_public_spec(left_pub@, right_pub@),
    {
        let mut observables: Vec<crate::types::Observable> = Vec::new();
        copy_observables(&mut observables, left_pub.observables.as_slice());
        copy_observables(&mut observables, right_pub.observables.as_slice());
        let p = PublicInputs {
            root_init: left_pub.root_init,
            root_final: right_pub.root_final,
            observables,
            domain: left_pub.domain,
            version: left_pub.version,
        };
        assert(p@.observables =~= left_pub@.observables + right_pub@.observables);
        p
    }

    /// FRI commitments of the composition of two proofs.
    pub fn compose_fri_commitments_recursive(left: &StarkProof, right: &StarkProof) -> (c: Vec<
        Vec<u8>,
    >)
        ensures
            crate::plonky3_backend::bytes_list_view(c@) == compose_fri_spec(
                left@.fri_commitments,
                right@.fri_commitments,
            ),
    {
        let ghost l = left@.fri_commitments;
        let ghost r = right@.fri_commitments;
        let max_layers: usize = if left.fri_commitments.len() >= right.fri_commitments.len() {
            left.fri_commitments.len()
        } else {
            right.fri_commitments.len()
        };
        let zero: [u8; 32] = [0u8; 32];
        assert(zero@ =~= zero_hash_bytes());
        let mut composed: Vec<Vec<u8>> = Vec::new();
        let mut k: usize = 0;
        while k < max_layers
            invariant
                k <= max_layers,
                max_layers == max_len(l.len(), r.len()),
                l == left@.fri_commitments,
                r == right@.fri_commitments,
                zero@ == zero_hash_bytes(),
                composed@.len() == k,
                forall|i: int|
                    0 <= i < k ==> (#[trigger] composed@[i])@ == compose_fri_spec(l, r)[i],
            decreases max_layers - k,
        {
            let mut data: Vec<u8> = Vec::new();
            push_u64_le(&mut data, k as u64);
            if k < left.fri_commitments.len() {
                append_bytes(&mut data, left.fri_commitments[k].as_slice());
            } else {
                append_bytes(&mut data, zero.as_slice());
            }
            if k < right.fri_commitments.len() {
                append_bytes(&mut data, right.fri_commitments[k].as_slice());
            } else {
                append_bytes(&mut data, zero.as_slice());
            }
            assert(data@ =~= u64_le(k as u64) + layer_or_zero(l, k as int) + layer_or_zero(
                r,
                k as int,
            ));
            let h = labelled_digest("plonky3-stark-recursive-compose-fri", data.as_slice());
            composed.push(h);
            k += 1;
        }
        assert(crate::plonky3_backend::bytes_list_view(composed@) =~= compose_fri_spec(l, r));
        composed
    }

    /// Native bytes of the composition of two proofs.
    pub fn build_recursive_native_bundle(left: &StarkProof, right: &StarkProof) -> (r: Result<
        Vec<u8>,
        Plonky3Error,
    >)
        ensures
            r matches Ok(b) && b@ == bundle_spec(
                left@.native_proof_bytes,
                right@.native_proof_bytes,
            ),
    {
        let mut bundle: Vec<u8> = Vec::new();
        push_u32_le(&mut bundle, left.native_proof_bytes.len() as u32);
        append_bytes(&mut bundle, left.native_proof_bytes.as_slice());
        push_u32_le(&mut bundle, right.native_proof_bytes.len() as u32);
        append_bytes(&mut bundle, right.native_proof_bytes.as_slice());
        Ok(bundle)
    }

    /// One composition step: the composed statement, its encoding by
    /// `encode`, the composed FRI commitments and native bytes, the query
    /// responses over them, and the serialized form.
    pub fn compose_binary<F: Fn(&PublicInputs) -> Vec<GoldilocksField>>(
        &self,
        left: &StarkProof,
        right: &StarkProof,
        left_pub: &PublicInputs,
        right_pub: &PublicInputs,
        encode: &F,
    ) -> (p: StarkProof)
        requires
            forall|q: &PublicInputs| #[trigger] encode.requires((q,)),
        ensures
            is_composed_proof(
                p,
                self.config.num_fri_queries as nat,
                compose_fri_spec(left@.fri_commitments, right@.fri_commitments),
                bundle_spec(left@.native_proof_bytes, right@.native_proof_bytes),
                compose_public_spec(left_pub@, right_pub@),
                *encode,
            ),
    {
        let composed_pub = Plonky3Backend::compose_public_inputs(left_pub, right_pub);
        let values = encode(&composed_pub);
        let fri = Plonky3Backend::compose_fri_commitments_recursive(left, right);
        let queries = self.generate_query_responses(fri.as_slice(), values.as_slice());
        let native = match Plonky3Backend::build_recursive_native_bundle(left, right) {
            Ok(b) => b,
            Err(_) => Vec::new(),
        };
        let mut p = StarkProof {
            fri_commitments: fri,
            query_responses: queries,
            public_input_values: values,
            backend_id: owned("plonky3-stark"),
            serialized: Vec::new(),
            native_proof_bytes: native,
        };
        p.serialized = p.to_bytes();
        assert(p@.query_responses =~= query_responses_spec(
            self.config.num_fri_queries as nat,
            p@.fri_commitments,
            p@.public_input_values,
        ));
        assert(encode.ensures((&composed_pub,), p.public_input_values));
        p
    }
}


impl Plonky3Backend {
    /// Composes an already composed proof with the next proof, after
    /// checking that their statements compose.
    pub fn compose_incremental<F: Fn(&PublicInputs) -> Vec<GoldilocksField>>(
        &self,
        existing: &StarkProof,
        new_proof: &StarkProof,
        existing_pub: &PublicInputs,
        new_pub: &PublicInputs,
        encode: &F,
    ) -> (r: Result<StarkProof, Plonky3Error>)
        requires
            forall|q: &PublicInputs| #[trigger] encode.requires((q,)),
        ensures
            r is Ok <==> crate::plonky3_backend::composition_pair_error(
                *existing_pub,
                *new_pub,
                0,
                1,
            ) is None,
            r matches Err(e) ==> Some(e@) == crate::plonky3_backend::composition_pair_error(
                *existing_pub,
                *new_pub,
                0,
                1,
            ),
            r matches Ok(p) ==> is_composed_proof(
                p,
                self.config.num_fri_queries as nat,
                compose_fri_spec(existing@.fri_commitments, new_proof@.fri_commitments),
                bundle_spec(existing@.native_proof_bytes, new_proof@.native_proof_bytes),
                compose_public_spec(existing_pub@, new_pub@),
                *encode,
            ),
    {
        match Plonky3Backend::validate_composition_pair(existing_pub, new_pub, 0, 1) {
            Ok(()) => {},
            Err(e) => {
                return Err(e);
            },
        }
        Ok(self.compose_binary(existing, new_proof, existing_pub, new_pub, encode))
    }

    /// Composes two or more proofs left to right, after checking the
    /// sequence: each step composes the accumulated proof with the next.
    pub fn compose_proofs<F: Fn(&PublicInputs) -> Vec<GoldilocksField>>(
        &self,
        proofs: &[StarkProof],
        public_inputs: &[PublicInputs],
        encode: &F,
    ) -> (r: Result<StarkProof, Plonky3Error>)
        requires
            forall|q: &PublicInputs| #[trigger] encode.requires((q,)),
        ensures
            r is Ok <==> crate::plonky3_backend::composition_sequence_error(
                proofs@.len(),
                public_inputs@,
            ) is None,
            r matches Err(e) ==> Some(e@) == crate::plonky3_backend::composition_sequence_error(
                proofs@.len(),
                public_inputs@,
            ),
            r matches Ok(p) ==> is_composed_proof(
                p,
                self.config.num_fri_queries as nat,
                composed_fri_spec(proofs_fri(proofs@), proofs@.len()),
                composed_native_spec(proofs_native(proofs@), proofs@.len()),
                composed_public_spec(statements_view(public_inputs@), proofs@.len()),
                *encode,
            ),
    {
        match Plonky3Backend::validate_composition_sequence(proofs, public_inputs) {
            Ok(()) => {},
            Err(e) => {
                return Err(e);
            },
        }
        let ghost fris = proofs_fri(proofs@);
        let ghost natives = proofs_native(proofs@);
        let ghost sv = statements_view(public_inputs@);
        let n = proofs.len();
        let mut acc_proof = self.compose_binary(
            &proofs[0],
            &proofs[1],
            &public_inputs[0],
            &public_inputs[1],
            encode,
        );
        let mut acc_pub = Plonky3Backend::compose_public_inputs(&public_inputs[0], &public_inputs[1]);
        proof {
            assert(composed_fri_spec(fris, 1) == fris[0]);
            assert(composed_native_spec(natives, 1) == natives[0]);
            assert(composed_public_spec(sv, 1) == sv[0]);
        }
        let mut i: usize = 2;
        while i < n
            invariant
                2 <= i <= n,
                n == proofs@.len(),
                n == public_inputs@.len(),
                fris == proofs_fri(proofs@),
                natives == proofs_native(proofs@),
                sv == statements_view(public_inputs@),
                forall|q: &PublicInputs| #[trigger] encode.requires((q,)),
                acc_pub@ == composed_public_spec(sv, i as nat),
                is_composed_proof(
                    acc_proof,
                    self.config.num_fri_queries as nat,
                    composed_fri_spec(fris, i as nat),
                    composed_native_spec(natives, i as nat),
                    composed_public_spec(sv, i as nat),
                    *encode,
                ),
            decreases n - i,
        {
            let next = self.compose_binary(
                &acc_proof,
                &proofs[i],
                &acc_pub,
                &public_inputs[i],
                encode,
            );
            let next_pub = Plonky3Backend::compose_public_inputs(&acc_pub, &public_inputs[i]);
            acc_proof = next;
            acc_pub = next_pub;
            i += 1;
        }
        Ok(acc_proof)
    }
}

// ---------------------------------------------------------------------------
// Laws of composition
// ---------------------------------------------------------------------------

/// The observables of the first `n` statements, concatenated in order.
pub open spec fn observables_concat(
    pis: Seq<PublicInputsModel>,
    n: nat,
) -> Seq<crate::types::ObservableModel>
    decreases n,
{
    if n == 0 {
        Seq::empty()
    } else {
        observables_concat(pis, (n - 1) as nat) + pis[n - 1].observables
    }
}

/// A composed statement starts at the first statement's initial root, ends
/// at the last statement's final root, keeps the first domain and version,
/// and carries every statement's observables, concatenated in order.
pub proof fn lemma_composed_statement(pis: Seq<PublicInputsModel>, n: nat)
    requires
        1 <= n <= pis.len(),
    ensures
        composed_public_spec(pis, n).root_init == pis[0].root_init,
        composed_public_spec(pis, n).root_final == pis[n - 1].root_final,
        composed_public_spec(pis, n).domain == pis[0].domain,
        composed_public_spec(pis, n).version == pis[0].version,
        composed_public_spec(pis, n).observables == observables_concat(pis, n),
    decreases n,
{
    if n > 1 {
        lemma_composed_statement(pis, (n - 1) as nat);
    } else {
        assert(observables_concat(pis, 0) =~= Seq::empty());
        assert(observables_concat(pis, 1) =~= pis[0].observables);
    }
}

/// Incremental composition matches batch composition: composing the
/// composition of the first `n` proofs with proof `n` gives the FRI
/// commitments, native bytes and statement of the composition of the
/// first `n + 1`.
pub proof fn lemma_incremental_matches_batch(
    fris: Seq<Seq<Seq<u8>>>,
    natives: Seq<Seq<u8>>,
    pis: Seq<PublicInputsModel>,
    n: nat,
)
    requires
        1 <= n,
    ensures
        composed_fri_spec(fris, n + 1) == compose_fri_spec(composed_fri_spec(fris, n), fris[n as int]),
        composed_native_spec(natives, n + 1) == bundle_spec(
            composed_native_spec(natives, n),
            natives[n as int],
        ),
        composed_public_spec(pis, n + 1) == compose_public_spec(
            composed_public_spec(pis, n),
            pis[n as int],
        ),
{
}

/// Reading back what serialization wrote gives the proof back: the
/// encoding of a representable proof within the size limit passes the
/// size checks of `deserialize_proof` and decodes to the same proof.
pub proof fn lemma_serialized_proof_reads_back(m: crate::plonky3_backend::StarkModel)
    requires
        crate::plonky3_backend::stark_representable(m),
        stark_encoding(m).len() <= MAX_PROOF_SIZE_BYTES,
    ensures
        stark_deserialize_error(stark_encoding(m)) is None,
        stark_decode(stark_encoding(m)) == Some(m),
{
    crate::plonky3_backend::lemma_stark_roundtrip(m);
    assert(stark_encoding(m).len() > 0);
}

/// An encoder that gives one list of field values per statement.
pub open spec fn encoder_deterministic<F: Fn(&PublicInputs) -> Vec<GoldilocksField>>(encode: F) -> bool {
    forall|a: &PublicInputs, b: &PublicInputs, u: Vec<GoldilocksField>, v: Vec<GoldilocksField>|
        #![trigger encode.ensures((a,), u), encode.ensures((b,), v)]
        a@ == b@ && encode.ensures((a,), u) && encode.ensures((b,), v) ==> u@ == v@
}

/// Two proofs that a composition step makes from the same commitments,
/// native bytes and statement are the same proof, with the same bytes,
/// when the encoder gives one list of values per statement.
pub proof fn lemma_composed_proof_unique<F: Fn(&PublicInputs) -> Vec<GoldilocksField>>(
    p: StarkProof,
    q: StarkProof,
    num_queries: nat,
    fri: Seq<Seq<u8>>,
    native: Seq<u8>,
    statement: PublicInputsModel,
    encode: F,
)
    requires
        encoder_deterministic(encode),
        is_composed_proof(p, num_queries, fri, native, statement, encode),
        is_composed_proof(q, num_queries, fri, native, statement, encode),
    ensures
        p@ == q@,
        p.serialized@ == q.serialized@,
{
    let a = choose|a: PublicInputs| a@ == statement && encode.ensures((&a,), p.public_input_values);
    let b = choose|b: PublicInputs| b@ == statement && encode.ensures((&b,), q.public_input_values);
    assert(encode.ensures((&a,), p.public_input_values) && encode.ensures((&b,), q.public_input_values));
    assert(p.public_input_values@ == q.public_input_values@);
    assert(p@ =~= q@);
}

/// Composing the first `n` entries depends on those entries alone.
proof fn lemma_composed_prefix(
    f1: Seq<Seq<Seq<u8>>>,
    f2: Seq<Seq<Seq<u8>>>,
    n1: Seq<Seq<u8>>,
    n2: Seq<Seq<u8>>,
    s1: Seq<PublicInputsModel>,
    s2: Seq<PublicInputsModel>,
    n: nat,
)
    requires
        1 <= n,
        forall|i: int| 0 <= i < n ==> f1[i] == f2[i] && n1[i] == n2[i] && s1[i] == s2[i],
    ensures
        composed_fri_spec(f1, n) == composed_fri_spec(f2, n),
        composed_native_spec(n1, n) == composed_native_spec(n2, n),
        composed_public_spec(s1, n) == composed_public_spec(s2, n),
    decreases n,
{
    if n > 1 {
        lemma_composed_prefix(f1, f2, n1, n2, s1, s2, (n - 1) as nat);
        assert(f1[n - 1] == f2[n - 1] && n1[n - 1] == n2[n - 1] && s1[n - 1] == s2[n - 1]);
    } else {
        assert(f1[0] == f2[0] && n1[0] == n2[0] && s1[0] == s2[0]);
    }
}

/// Incremental composition agrees with batch composition: composing the
/// batch composition of all proofs but the last with the last proof gives
/// the same proof, with the same bytes, as composing all of them at once,
/// when the encoder gives one list of values per statement.
pub proof fn lemma_incremental_composition_matches_batch<F: Fn(&PublicInputs) -> Vec<
    GoldilocksField,
>>(
    proofs: Seq<StarkProof>,
    pis: Seq<PublicInputs>,
    num_queries: nat,
    acc: StarkProof,
    inc: StarkProof,
    batch: StarkProof,
    encode: F,
)
    requires
        3 <= proofs.len(),
        proofs.len() == pis.len(),
        encoder_deterministic(encode),
        is_composed_proof(
            acc,
            num_queries,
            composed_fri_spec(proofs_fri(proofs.drop_last()), (proofs.len() - 1) as nat),
            composed_native_spec(proofs_native(proofs.drop_last()), (proofs.len() - 1) as nat),
            composed_public_spec(statements_view(pis.drop_last()), (proofs.len() - 1) as nat),
            encode,
        ),
        is_composed_proof(
            inc,
            num_queries,
            compose_fri_spec(acc@.fri_commitments, proofs.last()@.fri_commitments),
            bundle_spec(acc@.native_proof_bytes, proofs.last()@.native_proof_bytes),
            compose_public_spec(
                composed_public_spec(statements_view(pis.drop_last()), (proofs.len() - 1) as nat),
                pis.last()@,
            ),
            encode,
        ),
        is_composed_proof(
            batch,
            num_queries,
            composed_fri_spec(proofs_fri(proofs), proofs.len()),
            composed_native_spec(proofs_native(proofs), proofs.len()),
            composed_public_spec(statements_view(pis), proofs.len()),
            encode,
        ),
    ensures
        inc@ == batch@,
        inc.serialized@ == batch.serialized@,
{
    let m = (proofs.len() - 1) as nat;
    let fris = proofs_fri(proofs);
    let natives = proofs_native(proofs);
    let sv = statements_view(pis);
    lemma_composed_prefix(
        proofs_fri(proofs.drop_last()),
        fris,
        proofs_native(proofs.drop_last()),
        natives,
        statements_view(pis.drop_last()),
        sv,
        m,
    );
    lemma_incremental_matches_batch(fris, natives, sv, m);
    assert(fris[m as int] == proofs.last()@.fri_commitments);
    assert(natives[m as int] == proofs.last()@.native_proof_bytes);
    assert(sv[m as int] == pis.last()@);
    lemma_composed_proof_unique(
        inc,
        batch,
        num_queries,
        composed_fri_spec(fris, proofs.len()),
        composed_native_spec(natives, proofs.len()),
        composed_public_spec(sv, proofs.len()),
        encode,
    );
}


} // verus!
