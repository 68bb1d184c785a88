use vsel_proof::prover::{GenericProver, Proof, ProofCommitments};
use vsel_proof::public_inputs::PublicInputs;
use vsel_proof::replay::{ReplayGuard, ReplayRejection};
use vsel_proof::types::{
    DomainTag, Observable, OutputEvent, ProtocolVersion, TransitionClass, TransitionStatus,
};

fn h(b: u8) -> vsel_proof::types::Hash {
    let mut x = [0u8; 32];
    x[0] = b;
    vsel_proof::types::Hash(x)
}

fn test_domain_tag() -> DomainTag {
    DomainTag(h(0xAB))
}

fn proof_domain() -> DomainTag {
    DomainTag(vsel_proof::types::Hash([0x50; 32]))
}

fn test_version() -> ProtocolVersion {
    ProtocolVersion { major: 1, minor: 0, patch: 0 }
}

fn test_observable() -> Observable {
    Observable {
        transition_class: TransitionClass::Update,
        outputs: vec![OutputEvent { event_type: "balance_change".to_string(), data: vec![1, 2, 3] }],
        gas_used: 21_000,
        status: TransitionStatus::Success,
    }
}

fn make_proof(entries: usize, ts: u64) -> Proof {
    let prover = GenericProver::new("0.1.0-test");
    let pi = PublicInputs {
        root_init: h(0),
        root_final: h(entries as u8),
        observables: (0..entries).map(|_| test_observable()).collect(),
        domain: test_domain_tag(),
        version: test_version(),
    };
    let commitments = ProofCommitments {
        trace_commitment: h(100 + entries as u8),
        witness_commitment: h(7),
        constraint_commitment: h(8),
    };
    let mut proof = prover.assemble_proof(commitments, pi, proof_domain());
    proof.metadata.timestamp = ts;
    proof
}

fn make_proof_with_timestamp(ts: u64) -> Proof {
    make_proof(2, ts)
}

fn default_guard() -> ReplayGuard {
    ReplayGuard::new(test_domain_tag(), 3600, 1_000_000)
}

#[test]
fn test_replay_guard_new() {
    let guard = default_guard();
    assert_eq!(guard.seen_count(), 0);
    assert_eq!(guard.reference_timestamp(), 1_000_000);
}

#[test]
fn test_valid_proof_passes_check() {
    let guard = default_guard();
    let proof = make_proof_with_timestamp(1_000_000);
    assert_eq!(guard.check_proof(&proof, &proof_domain()), Ok(()));
}

#[test]
fn test_duplicate_proof_rejected() {
    let mut guard = default_guard();
    let proof = make_proof_with_timestamp(1_000_000);
    assert_eq!(guard.check_proof(&proof, &proof_domain()), Ok(()));
    guard.accept_proof(&proof);
    assert_eq!(
        guard.check_proof(&proof, &proof_domain()),
        Err(ReplayRejection::DuplicateCommitment)
    );
}

#[test]
fn test_different_proofs_not_duplicate() {
    let mut guard = default_guard();
    let proof1 = make_proof_with_timestamp(1_000_000);
    guard.accept_proof(&proof1);
    let proof2 = make_proof(3, 1_000_000);
    assert_eq!(guard.check_proof(&proof2, &proof_domain()), Ok(()));
}

#[test]
fn test_proof_too_old_rejected() {
    let guard = default_guard();
    let proof = make_proof_with_timestamp(990_000);
    assert_eq!(guard.check_proof(&proof, &proof_domain()), Err(ReplayRejection::ProofTooOld));
}

#[test]
fn test_proof_in_future_rejected() {
    let guard = default_guard();
    let proof = make_proof_with_timestamp(2_000_000);
    assert_eq!(guard.check_proof(&proof, &proof_domain()), Err(ReplayRejection::ProofInFuture));
}

#[test]
fn test_proof_at_boundary_accepted() {
    let guard = default_guard();
    let proof = make_proof_with_timestamp(996_400);
    assert_eq!(guard.check_proof(&proof, &proof_domain()), Ok(()));
}

#[test]
fn test_proof_just_past_boundary_rejected() {
    let guard = default_guard();
    let proof = make_proof_with_timestamp(996_399);
    assert_eq!(guard.check_proof(&proof, &proof_domain()), Err(ReplayRejection::ProofTooOld));
}

#[test]
fn test_wrong_domain_rejected() {
    let guard = default_guard();
    let mut proof = make_proof_with_timestamp(1_000_000);
    proof.public_inputs.domain = DomainTag(vsel_proof::types::Hash([0xFF; 32]));
    assert_eq!(guard.check_proof(&proof, &proof_domain()), Err(ReplayRejection::DomainMismatch));
}

#[test]
fn test_wrong_metadata_domain_rejected() {
    let guard = default_guard();
    let mut proof = make_proof_with_timestamp(1_000_000);
    proof.metadata.domain = DomainTag(vsel_proof::types::Hash([0xFF; 32]));
    assert_eq!(guard.check_proof(&proof, &proof_domain()), Err(ReplayRejection::DomainMismatch));
}

#[test]
fn test_update_timestamp_advances() {
    let mut guard = default_guard();
    guard.update_timestamp(2_000_000);
    assert_eq!(guard.reference_timestamp(), 2_000_000);
}

#[test]
fn test_update_timestamp_no_regression() {
    let mut guard = default_guard();
    guard.update_timestamp(500_000);
    assert_eq!(guard.reference_timestamp(), 1_000_000);
}

#[test]
fn test_accept_increments_seen_count() {
    let mut guard = default_guard();
    let proof = make_proof_with_timestamp(1_000_000);
    assert_eq!(guard.seen_count(), 0);
    guard.accept_proof(&proof);
    assert_eq!(guard.seen_count(), 1);
}

#[test]
fn test_is_duplicate_after_accept() {
    let mut guard = default_guard();
    let proof = make_proof_with_timestamp(1_000_000);
    let commitment = proof.commitments.trace_commitment;
    assert!(!guard.is_duplicate(&commitment));
    guard.accept_proof(&proof);
    assert!(guard.is_duplicate(&commitment));
}

#[test]
fn accepting_the_same_proof_twice_records_it_once() {
    let mut guard = default_guard();
    let proof = make_proof_with_timestamp(1_000_000);
    guard.accept_proof(&proof);
    guard.accept_proof(&proof);
    assert_eq!(guard.seen_count(), 1);
}

#[test]
fn domain_mismatch_takes_precedence_over_duplicate() {
    let mut guard = default_guard();
    let proof = make_proof_with_timestamp(1_000_000);
    guard.accept_proof(&proof);
    let mut other = make_proof_with_timestamp(1_000_000);
    other.public_inputs.domain = DomainTag(vsel_proof::types::Hash([0xFF; 32]));
    assert_eq!(guard.check_proof(&other, &proof_domain()), Err(ReplayRejection::DomainMismatch));
}

#[test]
fn assembled_proof_data_is_one_digest() {
    let proof = make_proof(2, 0);
    assert_eq!(proof.proof_data.len(), 32);
}
