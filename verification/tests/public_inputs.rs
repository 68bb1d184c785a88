use vsel_proof::public_inputs::{PublicInputs, Trace, TraceEntry};
use vsel_proof::types::{
    DomainTag, Observable, OutputEvent, ProtocolVersion, TransitionClass, TransitionStatus,
};

type H = vsel_proof::types::Hash;

fn test_domain_tag() -> DomainTag {
    let mut h = [0u8; 32];
    h[0] = 0xAB;
    DomainTag(vsel_proof::types::Hash(h))
}

fn test_version() -> ProtocolVersion {
    ProtocolVersion { major: 1, minor: 0, patch: 0 }
}

fn initial_commitment() -> H {
    vsel_proof::types::Hash([0x5A; 32])
}

fn test_observable() -> Observable {
    Observable {
        transition_class: TransitionClass::Update,
        outputs: vec![OutputEvent { event_type: "balance_change".to_string(), data: vec![1, 2, 3] }],
        gas_used: 21_000,
        status: TransitionStatus::Success,
    }
}

fn test_trace(num_entries: usize) -> Trace {
    let mut entries = Vec::new();
    for i in 0..num_entries {
        let mut post_hash = [0u8; 32];
        post_hash[0] = (i + 1) as u8;
        entries.push(TraceEntry {
            post_state_commitment: vsel_proof::types::Hash(post_hash),
            observable: test_observable(),
        });
    }
    Trace {
        initial_state_commitment: initial_commitment(),
        execution_domain: test_domain_tag(),
        protocol_version: test_version(),
        entries,
    }
}

#[test]
fn test_from_trace_empty() {
    let trace = test_trace(0);
    let pub_inputs = PublicInputs::from_trace(&trace);
    assert_eq!(pub_inputs.root_init, initial_commitment());
    assert_eq!(pub_inputs.root_final, initial_commitment(), "empty trace: root_final == root_init");
    assert!(pub_inputs.observables.is_empty());
    assert_eq!(pub_inputs.domain, test_domain_tag());
    assert_eq!(pub_inputs.version, test_version());
}

#[test]
fn test_from_trace_single_entry() {
    let trace = test_trace(1);
    let pub_inputs = PublicInputs::from_trace(&trace);
    assert_eq!(pub_inputs.root_init, initial_commitment());
    assert_eq!(pub_inputs.root_final, trace.entries[0].post_state_commitment);
    assert_eq!(pub_inputs.observables.len(), 1);
    assert_eq!(pub_inputs.observables[0], test_observable());
}

#[test]
fn test_from_trace_multiple_entries() {
    let trace = test_trace(3);
    let pub_inputs = PublicInputs::from_trace(&trace);
    assert_eq!(pub_inputs.observables.len(), 3);
    assert_eq!(pub_inputs.root_final, trace.entries[2].post_state_commitment);
    for (i, obs) in pub_inputs.observables.iter().enumerate() {
        assert_eq!(obs, &trace.entries[i].observable);
    }
}

#[test]
fn test_from_trace_captures_domain_and_version() {
    let trace = test_trace(1);
    let pub_inputs = PublicInputs::from_trace(&trace);
    assert_eq!(pub_inputs.domain, trace.execution_domain);
    assert_eq!(pub_inputs.version, trace.protocol_version);
}

#[test]
fn test_observable_binding_matches() {
    let trace = test_trace(2);
    let pub_inputs = PublicInputs::from_trace(&trace);
    let trace_obs: Vec<Observable> = trace.entries.iter().map(|e| e.observable.clone()).collect();
    assert!(pub_inputs.verify_observable_binding(&trace_obs));
}

#[test]
fn test_observable_binding_empty() {
    let trace = test_trace(0);
    let pub_inputs = PublicInputs::from_trace(&trace);
    assert!(pub_inputs.verify_observable_binding(&[]));
}

#[test]
fn test_observable_binding_length_mismatch() {
    let trace = test_trace(2);
    let pub_inputs = PublicInputs::from_trace(&trace);
    let partial: Vec<Observable> = vec![test_observable()];
    assert!(!pub_inputs.verify_observable_binding(&partial));
    let extra: Vec<Observable> = vec![test_observable(); 3];
    assert!(!pub_inputs.verify_observable_binding(&extra));
}

#[test]
fn test_observable_binding_content_mismatch() {
    let trace = test_trace(1);
    let pub_inputs = PublicInputs::from_trace(&trace);
    let mut wrong_obs = test_observable();
    wrong_obs.gas_used = 999_999;
    assert!(!pub_inputs.verify_observable_binding(&[wrong_obs]));
}

#[test]
fn test_observable_binding_order_matters() {
    let trace = test_trace(2);
    let pub_inputs = PublicInputs::from_trace(&trace);
    let obs1 = test_observable();
    let mut obs2 = test_observable();
    obs2.gas_used = 42_000;
    let custom_pub = PublicInputs { observables: vec![obs1.clone(), obs2.clone()], ..pub_inputs };
    assert!(!custom_pub.verify_observable_binding(&[obs2, obs1]));
}

#[test]
fn test_matches_trace_valid() {
    let trace = test_trace(2);
    let pub_inputs = PublicInputs::from_trace(&trace);
    assert!(pub_inputs.matches_trace(&trace));
}

#[test]
fn test_matches_trace_empty() {
    let trace = test_trace(0);
    let pub_inputs = PublicInputs::from_trace(&trace);
    assert!(pub_inputs.matches_trace(&trace));
}

#[test]
fn test_matches_trace_wrong_root_init() {
    let trace = test_trace(1);
    let mut pub_inputs = PublicInputs::from_trace(&trace);
    pub_inputs.root_init = vsel_proof::types::Hash([0xFF; 32]);
    assert!(!pub_inputs.matches_trace(&trace));
}

#[test]
fn test_matches_trace_wrong_root_final() {
    let trace = test_trace(1);
    let mut pub_inputs = PublicInputs::from_trace(&trace);
    pub_inputs.root_final = vsel_proof::types::Hash([0xFF; 32]);
    assert!(!pub_inputs.matches_trace(&trace));
}

#[test]
fn test_matches_trace_wrong_observables() {
    let trace = test_trace(1);
    let mut pub_inputs = PublicInputs::from_trace(&trace);
    pub_inputs.observables[0].gas_used = 999_999;
    assert!(!pub_inputs.matches_trace(&trace));
}

#[test]
fn test_matches_trace_wrong_domain() {
    let trace = test_trace(1);
    let mut pub_inputs = PublicInputs::from_trace(&trace);
    pub_inputs.domain = DomainTag(vsel_proof::types::Hash([0xFF; 32]));
    assert!(!pub_inputs.matches_trace(&trace));
}

#[test]
fn test_matches_trace_wrong_version() {
    let trace = test_trace(1);
    let mut pub_inputs = PublicInputs::from_trace(&trace);
    pub_inputs.version = ProtocolVersion { major: 99, minor: 0, patch: 0 };
    assert!(!pub_inputs.matches_trace(&trace));
}

#[test]
fn test_matches_trace_observable_count_mismatch() {
    let trace = test_trace(2);
    let mut pub_inputs = PublicInputs::from_trace(&trace);
    pub_inputs.observables.pop();
    assert!(!pub_inputs.matches_trace(&trace));
}

#[test]
fn test_from_trace_roundtrip() {
    for n in 0..5 {
        let trace = test_trace(n);
        let pub_inputs = PublicInputs::from_trace(&trace);
        assert!(pub_inputs.matches_trace(&trace), "round trip failed for {} entries", n);
    }
}

#[test]
fn test_from_trace_observable_binding_roundtrip() {
    let trace = test_trace(3);
    let pub_inputs = PublicInputs::from_trace(&trace);
    let trace_obs: Vec<Observable> = trace.entries.iter().map(|e| e.observable.clone()).collect();
    assert!(pub_inputs.verify_observable_binding(&trace_obs));
}

#[test]
fn prepared_statement_binds_the_trace() {
    let trace = test_trace(2);
    let prepared = vsel_proof::prover::prepare_proof_statement(
        &trace,
        true,
        vsel_proof::types::Hash([1; 32]),
        vsel_proof::types::Hash([2; 32]),
        vsel_proof::types::Hash([3; 32]),
    )
    .expect("statement");
    assert_eq!(prepared.public_inputs.root_init, initial_commitment());
    assert_eq!(prepared.public_inputs.root_final.0[0], 2);
    assert_eq!(prepared.public_inputs.observables.len(), 2);
    assert_eq!(prepared.commitments.trace_commitment, vsel_proof::types::Hash([1; 32]));
    assert_eq!(prepared.commitments.witness_commitment, vsel_proof::types::Hash([2; 32]));
    assert_eq!(prepared.commitments.constraint_commitment, vsel_proof::types::Hash([3; 32]));
}

#[test]
fn prepared_statement_refuses_empty_or_dependent_traces() {
    let h = vsel_proof::types::Hash([0; 32]);
    let empty = vsel_proof::prover::prepare_proof_statement(&test_trace(0), true, h, h, h);
    assert!(matches!(empty, Err(vsel_proof::prover::ProverError::EmptyTrace)));
    let dependent = vsel_proof::prover::prepare_proof_statement(&test_trace(1), false, h, h, h);
    assert!(matches!(dependent, Err(vsel_proof::prover::ProverError::AuxiliaryDependenceDetected)));
}

#[test]
fn test_default_prover_creation() {
    let prover = vsel_proof::prover::DefaultProver::new("1.0.0");
    assert_eq!(prover.version, "1.0.0");
}
