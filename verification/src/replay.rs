//! Replay protection: every proof is accepted at most once, within an age
//! window, in the expected domain.

use vstd::prelude::*;

use crate::prover::Proof;
use crate::types::DomainTag;

verus! {

/// Why a proof was refused.
#[derive(Clone, Copy, Debug, PartialEq, Eq, Structural)]
pub enum ReplayRejection {
    /// The trace commitment was accepted before.
    DuplicateCommitment,
    /// The proof is older than the maximum age.
    ProofTooOld,
    /// The proof is newer than the reference time.
    ProofInFuture,
    /// The proof's domains are not the expected ones.
    DomainMismatch,
}

/// Replay guard: the trace commitments already accepted, the age window and
/// reference time, and the expected domain.
pub struct ReplayGuard {
    seen_commitments: Vec<crate::types::Hash>,
    max_proof_age_secs: u64,
    reference_timestamp: u64,
    expected_domain: DomainTag,
}

/// Abstract state of a guard.
pub struct ReplayGuardModel {
    pub seen: Set<Seq<u8>>,
    pub max_proof_age_secs: u64,
    pub reference_timestamp: u64,
    pub expected_domain: Seq<u8>,
}

/// The decision on a proof: its metadata domain and trace commitment,
/// timestamp and public input domain, against the guard and the proof
/// domain tag.
pub open spec fn check_spec(
    g: ReplayGuardModel,
    proof_domain: Seq<u8>,
    public_domain: Seq<u8>,
    trace_commitment: Seq<u8>,
    timestamp: u64,
    expected_proof_domain: Seq<u8>,
) -> Result<(), ReplayRejection> {
    if proof_domain != expected_proof_domain || public_domain != g.expected_domain {
        Err(ReplayRejection::DomainMismatch)
    } else if g.seen.contains(trace_commitment) {
        Err(ReplayRejection::DuplicateCommitment)
    } else if timestamp > g.reference_timestamp {
        Err(ReplayRejection::ProofInFuture)
    } else if g.reference_timestamp - timestamp > g.max_proof_age_secs {
        Err(ReplayRejection::ProofTooOld)
    } else {
        Ok(())
    }
}

impl ReplayGuard {
    /// The guard's abstract state.
    pub closed spec fn model(&self) -> ReplayGuardModel {
        ReplayGuardModel {
            seen: self.seen_commitments@.map_values(|h: crate::types::Hash| h@).to_set(),
            max_proof_age_secs: self.max_proof_age_secs,
            reference_timestamp: self.reference_timestamp,
            expected_domain: self.expected_domain@,
        }
    }

    /// Well-formedness: no commitment is recorded twice.
    pub closed spec fn wf(&self) -> bool {
        forall|i: int, j: int|
            0 <= i < j < self.seen_commitments@.len() ==> self.seen_commitments@[i]@
                != self.seen_commitments@[j]@
    }

    /// A guard that has seen nothing.
    pub fn new(expected_domain: DomainTag, max_proof_age_secs: u64, reference_timestamp: u64) -> (g:
        ReplayGuard)
        ensures
            g.wf(),
            g.model().seen == Set::<Seq<u8>>::empty(),
            g.model().max_proof_age_secs == max_proof_age_secs,
            g.model().reference_timestamp == reference_timestamp,
            g.model().expected_domain == expected_domain@,
    {
        let g = ReplayGuard {
            seen_commitments: Vec::new(),
            max_proof_age_secs,
            reference_timestamp,
            expected_domain,
        };
        assert(g.model().seen =~= Set::<Seq<u8>>::empty());
        g
    }

    /// Whether the commitment was accepted before.
    pub fn is_duplicate(&self, commitment: &crate::types::Hash) -> (b: bool)
        ensures
            b == self.model().seen.contains(commitment@),
    {
        let ghost views = self.seen_commitments@.map_values(|h: crate::types::Hash| h@);
        let mut i: usize = 0;
        while i < self.seen_commitments.len()
            invariant
                i <= self.seen_commitments@.len(),
                views == self.seen_commitments@.map_values(|h: crate::types::Hash| h@),
                forall|k: int| 0 <= k < i ==> views[k] != commitment@,
            decreases self.seen_commitments.len() - i,
        {
            if self.seen_commitments[i].eq_hash(commitment) {
                assert(views[i as int] == commitment@);
                assert(views.to_set().contains(commitment@));
                return true;
            }
            i += 1;
        }
        assert(!views.contains(commitment@));
        false
    }

    /// Decides whether a proof may be accepted: its domains must be the
    /// expected ones, its trace commitment new, and its timestamp within the
    /// age window ending at the reference time. `expected_proof_domain` is
    /// the proof domain tag.
    pub fn check_proof(&self, proof: &Proof, expected_proof_domain: &DomainTag) -> (r: Result<
        (),
        ReplayRejection,
    >)
        ensures
            r == check_spec(
                self.model(),
                proof.metadata.domain@,
                proof.public_inputs.domain@,
                proof.commitments.trace_commitment@,
                proof.metadata.timestamp,
                expected_proof_domain@,
            ),
    {
        if !proof.metadata.domain.eq_tag(expected_proof_domain) {
            return Err(ReplayRejection::DomainMismatch);
        }
        if !proof.public_inputs.domain.eq_tag(&self.expected_domain) {
            return Err(ReplayRejection::DomainMismatch);
        }
        if self.is_duplicate(&proof.commitments.trace_commitment) {
            return Err(ReplayRejection::DuplicateCommitment);
        }
        let ts = proof.metadata.timestamp;
        if ts > self.reference_timestamp {
            return Err(ReplayRejection::ProofInFuture);
        }
        if self.reference_timestamp - ts > self.max_proof_age_secs {
            return Err(ReplayRejection::ProofTooOld);
        }
        Ok(())
    }

    /// Records the proof's trace commitment as seen.
    pub fn accept_proof(&mut self, proof: &Proof)
        requires
            old(self).wf(),
        ensures
            final(self).wf(),
            final(self).model().seen == old(self).model().seen.insert(
                proof.commitments.trace_commitment@,
            ),
            final(self).model().max_proof_age_secs == old(self).model().max_proof_age_secs,
            final(self).model().reference_timestamp == old(self).model().reference_timestamp,
            final(self).model().expected_domain == old(self).model().expected_domain,
    {
        let c = proof.commitments.trace_commitment;
        if !self.is_duplicate(&c) {
            let ghost before = self.seen_commitments@;
            self.seen_commitments.push(c);
            proof {
                let vb = before.map_values(|h: crate::types::Hash| h@);
                let va = self.seen_commitments@.map_values(|h: crate::types::Hash| h@);
                assert(va =~= vb.push(c@));
                assert(va.to_set() =~= vb.to_set().insert(c@)) by {
                    assert forall|x: Seq<u8>| va.to_set().contains(x) <==> vb.to_set().insert(c@).contains(x) by {
                        if va.contains(x) {
                            let k = choose|k: int| 0 <= k < va.len() && va[k] == x;
                            if k < vb.len() {
                                assert(vb[k] == x);
                            }
                        }
                        if vb.contains(x) {
                            let k = choose|k: int| 0 <= k < vb.len() && vb[k] == x;
                            assert(va[k] == x);
                        }
                        if x == c@ {
                            assert(va[vb.len() as int] == x);
                        }
                    }
                }
                assert forall|i: int, j: int|
                    0 <= i < j < self.seen_commitments@.len() implies self.seen_commitments@[i]@
                    != self.seen_commitments@[j]@ by {
                    if j == before.len() {
                        assert(vb[i] == self.seen_commitments@[i]@);
                    }
                }
            }
        } else {
            assert(old(self).model().seen.insert(c@) =~= old(self).model().seen);
        }
    }

    /// Advances the reference time; it never moves back.
    pub fn update_timestamp(&mut self, ts: u64)
        ensures
            final(self).model().reference_timestamp == if ts > old(self).model().reference_timestamp {
                ts
            } else {
                old(self).model().reference_timestamp
            },
            final(self).model().seen == old(self).model().seen,
            final(self).model().max_proof_age_secs == old(self).model().max_proof_age_secs,
            final(self).model().expected_domain == old(self).model().expected_domain,
            final(self).wf() == old(self).wf(),
    {
        if ts > self.reference_timestamp {
            self.reference_timestamp = ts;
        }
    }

    /// Number of distinct commitments accepted.
    pub fn seen_count(&self) -> (n: usize)
        requires
            self.wf(),
        ensures
            n == self.model().seen.len(),
    {
        proof {
            let v = self.seen_commitments@.map_values(|h: crate::types::Hash| h@);
            assert forall|i: int, j: int| 0 <= i < j < v.len() implies v[i] != v[j] by {
                assert(v[i] == self.seen_commitments@[i]@);
                assert(v[j] == self.seen_commitments@[j]@);
            }
            assert(v.no_duplicates());
            v.unique_seq_to_set();
        }
        self.seen_commitments.len()
    }

    /// The reference time.
    pub fn reference_timestamp(&self) -> (t: u64)
        ensures
            t == self.model().reference_timestamp,
    {
        self.reference_timestamp
    }
}

/// After a proof is accepted, its trace commitment is a duplicate, and the
/// guard refuses any proof with that commitment whose domains match.
pub proof fn lemma_accept_then_duplicate(
    before: ReplayGuardModel,
    after: ReplayGuardModel,
    commitment: Seq<u8>,
    proof_domain: Seq<u8>,
    public_domain: Seq<u8>,
    timestamp: u64,
    expected_proof_domain: Seq<u8>,
)
    requires
        after.seen == before.seen.insert(commitment),
        after.expected_domain == before.expected_domain,
        proof_domain == expected_proof_domain,
        public_domain == after.expected_domain,
    ensures
        after.seen.contains(commitment),
        check_spec(after, proof_domain, public_domain, commitment, timestamp, expected_proof_domain)
            == Err::<(), ReplayRejection>(ReplayRejection::DuplicateCommitment),
{
}

/// The reference time never decreases.
pub proof fn lemma_timestamp_monotone(before: u64, ts: u64)
    ensures
        (if ts > before {
            ts
        } else {
            before
        }) >= before,
{
}

} // verus!
