//! Composition of proofs with consistent state chaining, and recursive
//! proofs that embed an inner proof's commitments.

use vstd::prelude::*;

use crate::codec::append_bytes;
use crate::encoding::{push_u32_le, push_u64_le, sha3_256, sha3_256_spec, u32_le, u64_le};
use crate::plonky3_compose::copy_observables;
use crate::prover::{Proof, ProofCommitments, ProofMetadata, ProverError};
use crate::public_inputs::{PublicInputs, PublicInputsModel};
use crate::text::{decimal, decimal_spec, owned, push_str};
use crate::types::{observables_view, ObservableModel};

verus! {

// ---------------------------------------------------------------------------
// Validation of a composition
// ---------------------------------------------------------------------------

/// The first proof from `i` on whose domain differs from the first proof's.
pub open spec fn first_domain_mismatch(proofs: Seq<Proof>, i: nat) -> Option<nat>
    decreases proofs.len() - i,
{
    if i >= proofs.len() {
        None
    } else if proofs[i as int].public_inputs.domain@ != proofs[0].public_inputs.domain@ {
        Some(i)
    } else {
        first_domain_mismatch(proofs, i + 1)
    }
}

/// The first proof from `i` on whose version differs from the first proof's.
pub open spec fn first_version_mismatch(proofs: Seq<Proof>, i: nat) -> Option<nat>
    decreases proofs.len() - i,
{
    if i >= proofs.len() {
        None
    } else if proofs[i as int].public_inputs.version != proofs[0].public_inputs.version {
        Some(i)
    } else {
        first_version_mismatch(proofs, i + 1)
    }
}

/// The first proof from `i` on whose final root is not the next proof's
/// initial root.
pub open spec fn first_chain_break(proofs: Seq<Proof>, i: nat) -> Option<nat>
    decreases proofs.len() - i,
{
    if i + 1 >= proofs.len() {
        None
    } else if proofs[i as int].public_inputs.root_final@ != proofs[i + 1int].public_inputs.root_init@ {
        Some(i)
    } else {
        first_chain_break(proofs, i + 1)
    }
}

/// Message of the error a composition fails with, if any: too few proofs,
/// then the first domain mismatch, then the first version mismatch, then
/// the first broken link of the state chain.
pub open spec fn compose_error(proofs: Seq<Proof>) -> Option<Seq<char>> {
    if proofs.len() < 2 {
        Some("composition requires at least 2 proofs"@)
    } else if first_domain_mismatch(proofs, 1) is Some {
        Some(
            "domain mismatch: proof[0] domain differs from proof["@ + decimal_spec(
                first_domain_mismatch(proofs, 1)->0,
            ) + "]"@,
        )
    } else if first_version_mismatch(proofs, 1) is Some {
        Some(
            "version mismatch: proof[0] version differs from proof["@ + decimal_spec(
                first_version_mismatch(proofs, 1)->0,
            ) + "]"@,
        )
    } else if first_chain_break(proofs, 0) is Some {
        let i = first_chain_break(proofs, 0)->0;
        Some(
            "state chain broken: proof["@ + decimal_spec(i) + "].root_final != proof["@
                + decimal_spec(i + 1) + "].root_init"@,
        )
    } else {
        None
    }
}

fn index_message(prefix: &str, i: usize, suffix: &str) -> (s: String)
    ensures
        s@ == prefix@ + decimal_spec(i as nat) + suffix@,
{
    let mut s = owned(prefix);
    push_str(&mut s, decimal(i as u64).as_str());
    push_str(&mut s, suffix);
    s
}

/// Checks a composition: at least two proofs, one domain, one version, and
/// each final root equal to the next initial root.
pub fn validate_composition(proofs: &[Proof]) -> (r: Result<(), ProverError>)
    ensures
        r is Ok <==> compose_error(proofs@) is None,
        r matches Err(e) ==> (e matches ProverError::ProofGenerationFailed(m) && Some(m@)
            == compose_error(proofs@)),
{
    if proofs.len() < 2 {
        return Err(ProverError::ProofGenerationFailed(owned("composition requires at least 2 proofs")));
    }
    let mut i: usize = 1;
    while i < proofs.len()
        invariant
            1 <= i <= proofs@.len(),
            first_domain_mismatch(proofs@, 1) == first_domain_mismatch(proofs@, i as nat),
        decreases proofs.len() - i,
    {
        if !proofs[i].public_inputs.domain.eq_tag(&proofs[0].public_inputs.domain) {
            let m = index_message("domain mismatch: proof[0] domain differs from proof[", i, "]");
            return Err(ProverError::ProofGenerationFailed(m));
        }
        i += 1;
    }
    let mut j: usize = 1;
    while j < proofs.len()
        invariant
            1 <= j <= proofs@.len(),
            first_domain_mismatch(proofs@, 1) is None,
            first_version_mismatch(proofs@, 1) == first_version_mismatch(proofs@, j as nat),
        decreases proofs.len() - j,
    {
        if proofs[j].public_inputs.version != proofs[0].public_inputs.version {
            let m = index_message("version mismatch: proof[0] version differs from proof[", j, "]");
            return Err(ProverError::ProofGenerationFailed(m));
        }
        j += 1;
    }
    let mut k: usize = 0;
    while k < proofs.len() - 1
        invariant
            proofs@.len() >= 2,
            k <= proofs@.len() - 1,
            first_domain_mismatch(proofs@, 1) is None,
            first_version_mismatch(proofs@, 1) is None,
            first_chain_break(proofs@, 0) == first_chain_break(proofs@, k as nat),
        decreases proofs.len() - 1 - k,
    {
        if !proofs[k].public_inputs.root_final.eq_hash(&proofs[k + 1].public_inputs.root_init) {
            let mut m = index_message("state chain broken: proof[", k, "].root_final != proof[");
            push_str(&mut m, decimal((k + 1) as u64).as_str());
            push_str(&mut m, "].root_init");
            return Err(ProverError::ProofGenerationFailed(m));
        }
        k += 1;
    }
    Ok(())
}

// ---------------------------------------------------------------------------
// The composed statement, commitments and proof data
// ---------------------------------------------------------------------------

/// The observables of all proofs, concatenated in order.
pub open spec fn proofs_observables(proofs: Seq<Proof>) -> Seq<ObservableModel>
    decreases proofs.len(),
{
    if proofs.len() == 0 {
        Seq::empty()
    } else {
        proofs_observables(proofs.drop_last()) + proofs.last().public_inputs@.observables
    }
}

/// The statement of a composition: the first initial root, the last final
/// root, all observables in order, and the first domain and version.
pub open spec fn composed_statement(proofs: Seq<Proof>) -> PublicInputsModel {
    PublicInputsModel {
        root_init: proofs[0].public_inputs.root_init@,
        root_final: proofs.last().public_inputs.root_final@,
        observables: proofs_observables(proofs),
        domain: proofs[0].public_inputs.domain@,
        version: proofs[0].public_inputs.version,
    }
}

/// The three concatenations the composed commitments hash under the
/// composition domain: all trace, all witness and all constraint
/// commitments, each in order.
pub open spec fn commitment_concat(proofs: Seq<Proof>, which: int) -> Seq<u8>
    decreases proofs.len(),
{
    if proofs.len() == 0 {
        Seq::empty()
    } else {
        let c = proofs.last().commitments;
        commitment_concat(proofs.drop_last(), which) + if which == 0 {
            c.trace_commitment@
        } else if which == 1 {
            c.witness_commitment@
        } else {
            c.constraint_commitment@
        }
    }
}

/// Length and bytes of each proof's data, in order.
pub open spec fn proof_data_list(proofs: Seq<Proof>) -> Seq<u8>
    decreases proofs.len(),
{
    if proofs.len() == 0 {
        Seq::empty()
    } else {
        proof_data_list(proofs.drop_last()) + u64_le(proofs.last().proof_data@.len() as u64)
            + proofs.last().proof_data@
    }
}

/// What the composed proof data hashes: the composed commitments, the
/// composed statement (observable count, not content) and every proof's
/// data.
pub open spec fn composed_data_preimage(
    proofs: Seq<Proof>,
    c: ProofCommitments,
    p: PublicInputsModel,
) -> Seq<u8> {
    c.trace_commitment@ + c.witness_commitment@ + c.constraint_commitment@ + p.root_init
        + p.root_final + u64_le(p.observables.len() as u64) + p.domain + u32_le(p.version.major)
        + u32_le(p.version.minor) + u32_le(p.version.patch) + u64_le(proofs.len() as u64)
        + proof_data_list(proofs)
}

/// The concatenated trace (0), witness (1) or constraint (2) commitments
/// of the proofs, which the composed commitment of that kind hashes under
/// the composition domain.
pub fn composition_commitment_data(proofs: &[Proof], which: u8) -> (data: Vec<u8>)
    requires
        which <= 2,
    ensures
        data@ == commitment_concat(proofs@, which as int),
{
    let mut data: Vec<u8> = Vec::new();
    let mut i: usize = 0;
    while i < proofs.len()
        invariant
            i <= proofs@.len(),
            data@ == commitment_concat(proofs@.subrange(0, i as int), which as int),
        decreases proofs.len() - i,
    {
        let c = &proofs[i].commitments;
        if which == 0 {
            append_bytes(&mut data, c.trace_commitment.0.as_slice());
        } else if which == 1 {
            append_bytes(&mut data, c.witness_commitment.0.as_slice());
        } else {
            append_bytes(&mut data, c.constraint_commitment.0.as_slice());
        }
        proof {
            let s = proofs@.subrange(0, i + 1);
            assert(s.drop_last() =~= proofs@.subrange(0, i as int));
        }
        i += 1;
    }
    assert(proofs@.subrange(0, i as int) =~= proofs@);
    data
}

/// The composed statement of a sequence of at least one proof.
pub fn composed_public_inputs(proofs: &[Proof]) -> (p: PublicInputs)
    requires
        proofs@.len() >= 1,
    ensures
        p@ == composed_statement(proofs@),
{
    let mut observables: Vec<crate::types::Observable> = Vec::new();
    let mut i: usize = 0;
    while i < proofs.len()
        invariant
            i <= proofs@.len(),
            observables_view(observables@) == proofs_observables(proofs@.subrange(0, i as int)),
        decreases proofs.len() - i,
    {
        copy_observables(&mut observables, proofs[i].public_inputs.observables.as_slice());
        proof {
            let s = proofs@.subrange(0, i + 1);
            assert(s.drop_last() =~= proofs@.subrange(0, i as int));
        }
        i += 1;
    }
    assert(proofs@.subrange(0, i as int) =~= proofs@);
    let last = proofs.len() - 1;
    PublicInputs {
        root_init: proofs[0].public_inputs.root_init,
        root_final: proofs[last].public_inputs.root_final,
        observables,
        domain: proofs[0].public_inputs.domain,
        version: proofs[0].public_inputs.version,
    }
}

/// Proof data of a composition: SHA3-256 over the composed commitments,
/// the composed statement and every proof's data.
pub fn compose_proof_data(
    proofs: &[Proof],
    commitments: &ProofCommitments,
    public_inputs: &PublicInputs,
) -> (d: Vec<u8>)
    ensures
        d@ == sha3_256_spec(composed_data_preimage(proofs@, *commitments, public_inputs@)),
        d@.len() == 32,
{
    let mut buf: Vec<u8> = Vec::new();
    append_bytes(&mut buf, commitments.trace_commitment.0.as_slice());
    append_bytes(&mut buf, commitments.witness_commitment.0.as_slice());
    append_bytes(&mut buf, commitments.constraint_commitment.0.as_slice());
    append_bytes(&mut buf, public_inputs.root_init.0.as_slice());
    append_bytes(&mut buf, public_inputs.root_final.0.as_slice());
    push_u64_le(&mut buf, public_inputs.observables.len() as u64);
    append_bytes(&mut buf, public_inputs.domain.0.0.as_slice());
    push_u32_le(&mut buf, public_inputs.version.major);
    push_u32_le(&mut buf, public_inputs.version.minor);
    push_u32_le(&mut buf, public_inputs.version.patch);
    push_u64_le(&mut buf, proofs.len() as u64);
    let ghost mid = buf@;
    let mut i: usize = 0;
    while i < proofs.len()
        invariant
            i <= proofs@.len(),
            buf@ == mid + proof_data_list(proofs@.subrange(0, i as int)),
        decreases proofs.len() - i,
    {
        push_u64_le(&mut buf, proofs[i].proof_data.len() as u64);
        append_bytes(&mut buf, proofs[i].proof_data.as_slice());
        proof {
            let s = proofs@.subrange(0, i + 1);
            assert(s.drop_last() =~= proofs@.subrange(0, i as int));
        }
        i += 1;
        assert(buf@ =~= mid + proof_data_list(proofs@.subrange(0, i as int)));
    }
    assert(proofs@.subrange(0, i as int) =~= proofs@);
    assert(buf@ =~= composed_data_preimage(proofs@, *commitments, public_inputs@));
    let d = sha3_256(buf.as_slice());
    let mut out: Vec<u8> = Vec::new();
    append_bytes(&mut out, d.as_slice());
    out
}

/// Composes proofs under the given composed commitments (each the
/// composition-domain hash of `composition_commitment_data`): validates
/// the sequence, then builds the composed statement, proof data and
/// metadata.
pub fn compose(proofs: &[Proof], composed_commitments: ProofCommitments) -> (r: Result<
    Proof,
    ProverError,
>)
    ensures
        r is Ok <==> compose_error(proofs@) is None,
        r matches Err(e) ==> (e matches ProverError::ProofGenerationFailed(m) && Some(m@)
            == compose_error(proofs@)),
        r matches Ok(p) ==> {
            &&& p.commitments == composed_commitments
            &&& p.public_inputs@ == composed_statement(proofs@)
            &&& p.proof_data@ == sha3_256_spec(
                composed_data_preimage(proofs@, composed_commitments, composed_statement(proofs@)),
            )
            &&& p.proof_data@.len() == 32
            &&& p.metadata.prover_version@ == proofs@[0].metadata.prover_version@
            &&& p.metadata.timestamp == 0
            &&& p.metadata.domain == proofs@[0].metadata.domain
            &&& p.metadata.proof_system@ == "stark-placeholder-composed"@
        },
{
    match validate_composition(proofs) {
        Ok(()) => {},
        Err(e) => {
            return Err(e);
        },
    }
    let public_inputs = composed_public_inputs(proofs);
    let proof_data = compose_proof_data(proofs, &composed_commitments, &public_inputs);
    let metadata = ProofMetadata {
        prover_version: owned(proofs[0].metadata.prover_version.as_str()),
        timestamp: 0,
        domain: proofs[0].metadata.domain,
        proof_system: owned("stark-placeholder-composed"),
    };
    Ok(Proof { commitments: composed_commitments, proof_data, public_inputs, metadata })
}

// ---------------------------------------------------------------------------
// Recursive proofs
// ---------------------------------------------------------------------------

/// The bytes that stand for an inner proof inside an outer proof: its
/// trace, witness and constraint commitments.
pub open spec fn inner_embedding_spec(c: ProofCommitments) -> Seq<u8> {
    c.trace_commitment@ + c.witness_commitment@ + c.constraint_commitment@
}

/// Whether `w` occurs in `data` as a contiguous window.
pub open spec fn contains_window(data: Seq<u8>, w: Seq<u8>) -> bool {
    exists|i: int| 0 <= i && i + w.len() <= data.len() && #[trigger] data.subrange(i, i + w.len()) == w
}

/// The embedding bytes of an inner proof.
pub fn compute_inner_embedding(inner_proof: &Proof) -> (e: Vec<u8>)
    ensures
        e@ == inner_embedding_spec(inner_proof.commitments),
{
    let mut data: Vec<u8> = Vec::new();
    append_bytes(&mut data, inner_proof.commitments.trace_commitment.0.as_slice());
    append_bytes(&mut data, inner_proof.commitments.witness_commitment.0.as_slice());
    append_bytes(&mut data, inner_proof.commitments.constraint_commitment.0.as_slice());
    data
}

/// Whether a nonempty window occurs in the data.
pub fn find_window(data: &[u8], w: &[u8]) -> (b: bool)
    requires
        w@.len() > 0,
    ensures
        b == contains_window(data@, w@),
{
    if w.len() > data.len() {
        return false;
    }
    let last: usize = data.len() - w.len();
    let mut i: usize = 0;
    while i <= last
        invariant
            w@.len() > 0,
            w@.len() <= data@.len(),
            data@.len() <= usize::MAX,
            last == data@.len() - w@.len(),
            i <= last + 1,
            forall|j: int| 0 <= j < i ==> #[trigger] data@.subrange(j, j + w@.len()) != w@,
        decreases data.len() - i,
    {
        let mut k: usize = 0;
        let mut same = true;
        while k < w.len()
            invariant
                k <= w@.len(),
                w@.len() <= data@.len(),
                data@.len() <= usize::MAX,
                i <= last,
                last == data@.len() - w@.len(),
                same == (forall|m: int| 0 <= m < k ==> data@[i + m] == w@[m]),
            decreases w.len() - k,
        {
            if data[i + k] != w[k] {
                same = false;
            }
            k += 1;
        }
        if same {
            assert(data@.subrange(i as int, i + w@.len()) =~= w@);
            return true;
        }
        proof {
            assert(data@.subrange(i as int, i + w@.len()) != w@) by {
                let m = choose|m: int| 0 <= m < w@.len() && data@[i + m] != w@[m];
                assert(data@.subrange(i as int, i + w@.len())[m] == data@[i + m]);
            }
        }
        i += 1;
    }
    assert(!contains_window(data@, w@)) by {
        if contains_window(data@, w@) {
            let j = choose|j: int|
                0 <= j && j + w@.len() <= data@.len() && #[trigger] data@.subrange(j, j + w@.len())
                    == w@;
            assert(j < i);
        }
    }
    false
}

/// Whether an outer proof recursively verifies an inner one: the inner
/// embedding, or its hash under the recursive domain (`inner_hash`),
/// occurs in the outer proof data, and the inner final root is the outer
/// initial root.
pub open spec fn verify_recursive_spec(outer: Proof, inner: Proof, inner_hash: Seq<u8>) -> bool {
    &&& (contains_window(outer.proof_data@, inner_embedding_spec(inner.commitments))
        || contains_window(outer.proof_data@, inner_hash))
    &&& inner.public_inputs.root_final@ == outer.public_inputs.root_init@
}

/// Recursive verification of an inner proof inside an outer proof, where
/// `inner_hash` is the recursive-domain hash of the inner embedding.
pub fn verify_recursive(outer_proof: &Proof, inner_proof: &Proof, inner_hash: &crate::types::Hash) -> (b:
    bool)
    ensures
        b == verify_recursive_spec(*outer_proof, *inner_proof, inner_hash@),
{
    let embedding = compute_inner_embedding(inner_proof);
    let embedded = find_window(outer_proof.proof_data.as_slice(), embedding.as_slice());
    if !embedded {
        let hash_embedded = find_window(outer_proof.proof_data.as_slice(), inner_hash.0.as_slice());
        if !hash_embedded {
            return false;
        }
    }
    inner_proof.public_inputs.root_final.eq_hash(&outer_proof.public_inputs.root_init)
}

/// What a recursive proof's base hash covers: the outer commitments, the
/// outer roots and domain, and the inner hash.
pub open spec fn recursive_base_preimage(
    c: ProofCommitments,
    p: PublicInputsModel,
    inner_hash: Seq<u8>,
) -> Seq<u8> {
    c.trace_commitment@ + c.witness_commitment@ + c.constraint_commitment@ + p.root_init
        + p.root_final + p.domain + inner_hash
}

fn duplicate_public_inputs(p: &PublicInputs) -> (r: PublicInputs)
    ensures
        r@ == p@,
{
    let mut observables: Vec<crate::types::Observable> = Vec::new();
    copy_observables(&mut observables, p.observables.as_slice());
    assert(observables_view(observables@) =~= observables_view(p.observables@));
    PublicInputs {
        root_init: p.root_init,
        root_final: p.root_final,
        observables,
        domain: p.domain,
        version: p.version,
    }
}

/// Builds an outer proof that embeds an inner proof, where `inner_hash` is
/// the recursive-domain hash of the inner embedding: the proof data is the
/// base hash followed by the inner hash.
pub fn create_recursive_proof(
    inner_proof: &Proof,
    outer_public_inputs: PublicInputs,
    outer_commitments: ProofCommitments,
    inner_hash: &crate::types::Hash,
) -> (r: Result<Proof, ProverError>)
    ensures
        r is Ok <==> inner_proof.public_inputs.root_final@ == outer_public_inputs.root_init@,
        r matches Err(e) ==> (e matches ProverError::ProofGenerationFailed(m) && m@
            == "recursive proof state chain broken: inner.root_final != outer.root_init"@),
        r matches Ok(p) ==> {
            &&& p.commitments == outer_commitments
            &&& p.public_inputs@ == outer_public_inputs@
            &&& p.proof_data@ == sha3_256_spec(
                recursive_base_preimage(outer_commitments, outer_public_inputs@, inner_hash@),
            ) + inner_hash@
            &&& p.proof_data@.len() == 64
            &&& verify_recursive_spec(p, *inner_proof, inner_hash@)
            &&& p.metadata.prover_version@ == inner_proof.metadata.prover_version@
            &&& p.metadata.timestamp == 0
            &&& p.metadata.domain == inner_proof.metadata.domain
            &&& p.metadata.proof_system@ == "stark-placeholder-recursive"@
        },
{
    if !inner_proof.public_inputs.root_final.eq_hash(&outer_public_inputs.root_init) {
        return Err(
            ProverError::ProofGenerationFailed(
                owned("recursive proof state chain broken: inner.root_final != outer.root_init"),
            ),
        );
    }
    let mut buf: Vec<u8> = Vec::new();
    append_bytes(&mut buf, outer_commitments.trace_commitment.0.as_slice());
    append_bytes(&mut buf, outer_commitments.witness_commitment.0.as_slice());
    append_bytes(&mut buf, outer_commitments.constraint_commitment.0.as_slice());
    append_bytes(&mut buf, outer_public_inputs.root_init.0.as_slice());
    append_bytes(&mut buf, outer_public_inputs.root_final.0.as_slice());
    append_bytes(&mut buf, outer_public_inputs.domain.0.0.as_slice());
    append_bytes(&mut buf, inner_hash.0.as_slice());
    assert(buf@ =~= recursive_base_preimage(outer_commitments, outer_public_inputs@, inner_hash@));
    let base = sha3_256(buf.as_slice());
    let mut proof_data: Vec<u8> = Vec::new();
    append_bytes(&mut proof_data, base.as_slice());
    append_bytes(&mut proof_data, inner_hash.0.as_slice());
    let metadata = ProofMetadata {
        prover_version: owned(inner_proof.metadata.prover_version.as_str()),
        timestamp: 0,
        domain: inner_proof.metadata.domain,
        proof_system: owned("stark-placeholder-recursive"),
    };
    let outer = Proof { commitments: outer_commitments, proof_data, public_inputs: outer_public_inputs, metadata };
    proof {
        lemma_recursive_proof_verifies(outer, *inner_proof, base@, inner_hash@);
    }
    Ok(outer)
}

// ---------------------------------------------------------------------------
// Laws
// ---------------------------------------------------------------------------

/// A recursive proof built from an inner proof verifies that inner proof
/// under the same inner hash: the inner hash sits in the outer proof data
/// right after the 32-byte base hash, and the state chain holds.
pub proof fn lemma_recursive_proof_verifies(
    outer: Proof,
    inner: Proof,
    base: Seq<u8>,
    inner_hash: Seq<u8>,
)
    requires
        base.len() == 32,
        outer.proof_data@ == base + inner_hash,
        inner.public_inputs.root_final@ == outer.public_inputs.root_init@,
    ensures
        verify_recursive_spec(outer, inner, inner_hash),
{
    let d = outer.proof_data@;
    assert(d.subrange(32, 32 + inner_hash.len() as int) =~= inner_hash);
    assert(contains_window(d, inner_hash));
}

/// A composed statement starts at the first proof's initial root, ends at
/// the last proof's final root, and carries every proof's observables in
/// order, so its observable count is the sum of the counts.
pub proof fn lemma_composed_statement_observables(proofs: Seq<Proof>)
    ensures
        proofs_observables(proofs).len() == proof_observable_count(proofs),
    decreases proofs.len(),
{
    if proofs.len() > 0 {
        lemma_composed_statement_observables(proofs.drop_last());
    }
}

/// Total number of observables over all proofs.
pub open spec fn proof_observable_count(proofs: Seq<Proof>) -> nat
    decreases proofs.len(),
{
    if proofs.len() == 0 {
        0
    } else {
        proof_observable_count(proofs.drop_last()) + proofs.last().public_inputs@.observables.len()
    }
}

/// No domain differs from the first from `i` on exactly when every proof
/// from `i` on shares the first proof's domain.
proof fn lemma_no_domain_mismatch(proofs: Seq<Proof>, i: nat)
    ensures
        first_domain_mismatch(proofs, i) is None <==> forall|j: int|
            i <= j < proofs.len() ==> #[trigger] proofs[j].public_inputs.domain@
                == proofs[0].public_inputs.domain@,
    decreases proofs.len() - i,
{
    if i < proofs.len() {
        lemma_no_domain_mismatch(proofs, i + 1);
    }
}

/// No version differs from the first from `i` on exactly when every proof
/// from `i` on has the first proof's version.
proof fn lemma_no_version_mismatch(proofs: Seq<Proof>, i: nat)
    ensures
        first_version_mismatch(proofs, i) is None <==> forall|j: int|
            i <= j < proofs.len() ==> #[trigger] proofs[j].public_inputs.version
                == proofs[0].public_inputs.version,
    decreases proofs.len() - i,
{
    if i < proofs.len() {
        lemma_no_version_mismatch(proofs, i + 1);
    }
}

/// No link breaks from `i` on exactly when every proof from `i` on, but
/// the last, ends where the next one starts.
proof fn lemma_no_chain_break(proofs: Seq<Proof>, i: nat)
    ensures
        first_chain_break(proofs, i) is None <==> forall|j: int|
            i <= j < proofs.len() - 1 ==> #[trigger] proofs[j].public_inputs.root_final@
                == proofs[j + 1].public_inputs.root_init@,
    decreases proofs.len() - i,
{
    if i + 1 < proofs.len() {
        lemma_no_chain_break(proofs, i + 1);
    }
}

/// Law: composition succeeds exactly on two or more proofs that share the
/// first proof's domain and version and form one unbroken state chain:
/// each proof's final root is the next proof's initial root, for every
/// adjacent pair.
pub proof fn lemma_composition_accepts_chains(proofs: Seq<Proof>)
    ensures
        compose_error(proofs) is None <==> {
            &&& proofs.len() >= 2
            &&& forall|j: int|
                0 <= j < proofs.len() ==> #[trigger] proofs[j].public_inputs.domain@
                    == proofs[0].public_inputs.domain@
            &&& forall|j: int|
                0 <= j < proofs.len() ==> #[trigger] proofs[j].public_inputs.version
                    == proofs[0].public_inputs.version
            &&& forall|j: int|
                0 <= j < proofs.len() - 1 ==> #[trigger] proofs[j].public_inputs.root_final@
                    == proofs[j + 1].public_inputs.root_init@
        },
{
    lemma_no_domain_mismatch(proofs, 1);
    lemma_no_version_mismatch(proofs, 1);
    lemma_no_chain_break(proofs, 0);
}

} // verus!
