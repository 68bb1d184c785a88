use sha3::{Digest, Sha3_256};
use vsel_proof::constraints::{Constraint, ConstraintCategory, ConstraintExpr, ConstraintSystem};
use vsel_proof::hash_backend::{HashBackend, HashBackendError, HashBackendProof};
use vsel_proof::public_inputs::PublicInputs;
use vsel_proof::types::{DomainTag, ProtocolVersion};
use vsel_proof::witness::{AuxiliaryComputation, Witness, WitnessInput};

type H = vsel_proof::types::Hash;

fn test_domain_tag() -> DomainTag {
    let mut h = [0u8; 32];
    h[0] = 0xAB;
    DomainTag(vsel_proof::types::Hash(h))
}

fn test_version() -> ProtocolVersion {
    ProtocolVersion { major: 1, minor: 0, patch: 0 }
}

fn test_public_inputs() -> PublicInputs {
    PublicInputs {
        root_init: vsel_proof::types::Hash([1u8; 32]),
        root_final: vsel_proof::types::Hash([2u8; 32]),
        observables: vec![],
        domain: test_domain_tag(),
        version: test_version(),
    }
}

fn test_input(nonce: u64) -> WitnessInput {
    WitnessInput { payload_type: "transfer".to_string(), data: vec![1, 2, 3], nonce }
}

fn test_witness() -> Witness {
    Witness {
        intermediate_states: vec![vsel_proof::types::Hash([9u8; 32])],
        input_sequence: vec![test_input(1)],
        aux_computation: AuxiliaryComputation::empty(),
    }
}

fn empty_witness() -> Witness {
    Witness {
        intermediate_states: vec![],
        input_sequence: vec![],
        aux_computation: AuxiliaryComputation::empty(),
    }
}

fn test_constraint_system() -> ConstraintSystem {
    let mut cs = ConstraintSystem::new("1.0.0");
    cs.add_constraint(Constraint {
        id: 0,
        expr: ConstraintExpr::BoolConstant(true),
        category: ConstraintCategory::Shape,
        description: "test constraint".to_string(),
    });
    cs
}

fn witness_commitment() -> H {
    vsel_proof::types::Hash([0x11; 32])
}

fn constraint_commitment() -> H {
    vsel_proof::types::Hash([0x22; 32])
}

fn prove(backend: &HashBackend, w: &Witness, wc: &H, cc: &H) -> Result<HashBackendProof, HashBackendError> {
    backend.prove_with_commitments(w, wc, cc, &test_public_inputs())
}

#[test]
fn hash_backend_test_backend_id() {
    let backend = HashBackend::new();
    assert_eq!(backend.backend_id(), "hash-sha3");
}

#[test]
fn test_is_not_post_quantum() {
    let backend = HashBackend::new();
    assert!(!backend.is_post_quantum());
}

#[test]
fn test_prove_produces_32_byte_proof() {
    let backend = HashBackend::new();
    let proof = prove(&backend, &test_witness(), &witness_commitment(), &constraint_commitment())
        .expect("prove should succeed");
    assert_eq!(proof.as_ref().len(), 32, "SHA3-256 output is 32 bytes");
}

#[test]
fn hash_backend_test_prove_deterministic() {
    let backend = HashBackend::new();
    let p1 = prove(&backend, &test_witness(), &witness_commitment(), &constraint_commitment()).unwrap();
    let p2 = prove(&backend, &test_witness(), &witness_commitment(), &constraint_commitment()).unwrap();
    assert_eq!(p1.as_ref(), p2.as_ref());
}

#[test]
fn test_prove_different_witnesses_different_proofs() {
    let backend = HashBackend::new();
    let w1 = test_witness();
    let mut w2 = test_witness();
    w2.input_sequence[0].nonce = 999;
    assert_ne!(backend.witness_commit_data(&w1), backend.witness_commit_data(&w2));
    let other_commitment = vsel_proof::types::Hash([0x33; 32]);
    let p1 = prove(&backend, &w1, &witness_commitment(), &constraint_commitment()).unwrap();
    let p2 = prove(&backend, &w2, &other_commitment, &constraint_commitment()).unwrap();
    assert_ne!(p1.as_ref(), p2.as_ref());
}

#[test]
fn test_prove_different_constraints_different_proofs() {
    let backend = HashBackend::new();
    let cs1 = test_constraint_system();
    let mut cs2 = test_constraint_system();
    cs2.add_constraint(Constraint {
        id: 99,
        expr: ConstraintExpr::BoolConstant(false),
        category: ConstraintCategory::Semantic,
        description: "extra constraint".to_string(),
    });
    assert_ne!(backend.constraint_commit_data(&cs1), backend.constraint_commit_data(&cs2));
    let p1 = prove(&backend, &test_witness(), &witness_commitment(), &constraint_commitment()).unwrap();
    let p2 = prove(&backend, &test_witness(), &witness_commitment(), &vsel_proof::types::Hash([0x44; 32])).unwrap();
    assert_ne!(p1.as_ref(), p2.as_ref());
}

#[test]
fn hash_backend_test_prove_empty_witness_rejected() {
    let backend = HashBackend::new();
    let result = prove(&backend, &empty_witness(), &witness_commitment(), &constraint_commitment());
    assert!(result.is_err());
    let msg = result.err().unwrap().message();
    assert!(msg.contains("hash-sha3"), "error must contain backend_id: {}", msg);
}

#[test]
fn test_prove_then_verify_succeeds() {
    let backend = HashBackend::new();
    let proof = prove(&backend, &test_witness(), &witness_commitment(), &constraint_commitment()).unwrap();
    assert!(backend.verify(&proof, &test_public_inputs(), &constraint_commitment()));
}

#[test]
fn test_verify_rejects_empty_proof() {
    let backend = HashBackend::new();
    let proof = HashBackendProof::new(vec![]);
    assert!(!backend.verify(&proof, &test_public_inputs(), &vsel_proof::types::Hash([1u8; 32])));
}

#[test]
fn test_verify_rejects_zero_proof() {
    let backend = HashBackend::new();
    let proof = HashBackendProof::new(vec![0u8; 32]);
    assert!(!backend.verify(&proof, &test_public_inputs(), &vsel_proof::types::Hash([1u8; 32])));
}

#[test]
fn hash_backend_test_verify_rejects_zero_constraint_commitment() {
    let backend = HashBackend::new();
    let proof = prove(&backend, &test_witness(), &witness_commitment(), &constraint_commitment()).unwrap();
    assert!(!backend.verify(&proof, &test_public_inputs(), &vsel_proof::types::Hash([0u8; 32])));
}

#[test]
fn test_verify_rejects_wrong_length_proof() {
    let backend = HashBackend::new();
    let proof = HashBackendProof::new(vec![1u8; 16]);
    assert!(!backend.verify(&proof, &test_public_inputs(), &vsel_proof::types::Hash([1u8; 32])));
}

#[test]
fn hash_backend_test_serialize_deserialize_round_trip() {
    let backend = HashBackend::new();
    let proof = prove(&backend, &test_witness(), &witness_commitment(), &constraint_commitment()).unwrap();
    let serialized = backend.serialize_proof(&proof);
    let deserialized = backend.deserialize_proof(&serialized).expect("deserialize should succeed");
    assert_eq!(proof.as_ref(), deserialized.as_ref());
}

#[test]
fn hash_backend_test_deserialize_empty_fails() {
    let backend = HashBackend::new();
    let result = backend.deserialize_proof(&[]);
    assert!(result.is_err());
    let msg = result.err().unwrap().message();
    assert!(msg.contains("hash-sha3"), "error must contain backend_id: {}", msg);
    assert_eq!(msg, "hash-sha3: deserialization failed: empty proof bytes");
}

#[test]
fn test_deserialize_wrong_length_fails() {
    let backend = HashBackend::new();
    let result = backend.deserialize_proof(&[1u8; 16]);
    assert!(result.is_err());
    let msg = result.err().unwrap().message();
    assert!(msg.contains("hash-sha3"), "error must contain backend_id: {}", msg);
    assert!(msg.contains("32 bytes"), "error should mention expected size: {}", msg);
    assert_eq!(
        msg,
        "hash-sha3: deserialization failed: expected 32 bytes (SHA3-256 output), got 16 bytes"
    );
}

#[test]
fn test_deserialize_valid_32_bytes_succeeds() {
    let backend = HashBackend::new();
    let bytes = [0xABu8; 32];
    let proof = backend.deserialize_proof(&bytes).expect("valid 32 bytes should deserialize");
    assert_eq!(proof.as_ref(), &bytes);
}

#[test]
fn hash_backend_test_all_errors_contain_backend_id() {
    let errors = vec![
        HashBackendError::EmptyWitness,
        HashBackendError::ProofGenerationFailed("test failure".to_string()),
        HashBackendError::DeserializationFailed("test failure".to_string()),
    ];
    for err in errors {
        let msg = err.message();
        assert!(msg.contains("hash-sha3"), "error '{}' must contain 'hash-sha3'", msg);
    }
}

#[test]
fn hash_backend_test_default_creates_valid_backend() {
    let backend = HashBackend::default();
    assert_eq!(backend.backend_id(), "hash-sha3");
}

#[test]
fn hash_proof_is_sha3_of_the_documented_preimage() {
    let backend = HashBackend::new();
    let pi = test_public_inputs();
    let proof = prove(&backend, &test_witness(), &witness_commitment(), &constraint_commitment()).unwrap();
    let trace: [u8; 32] = Sha3_256::digest([[1u8; 32], [2u8; 32]].concat()).into();
    let mut pre = Vec::new();
    pre.extend_from_slice(&trace);
    pre.extend_from_slice(&[0x11; 32]);
    pre.extend_from_slice(&[0x22; 32]);
    pre.extend_from_slice(&[1u8; 32]);
    pre.extend_from_slice(&[2u8; 32]);
    pre.extend_from_slice(&0u64.to_le_bytes());
    pre.extend_from_slice(&pi.domain.0 .0);
    pre.extend_from_slice(&1u32.to_le_bytes());
    pre.extend_from_slice(&0u32.to_le_bytes());
    pre.extend_from_slice(&0u32.to_le_bytes());
    let expected: [u8; 32] = Sha3_256::digest(&pre).into();
    assert_eq!(proof.as_ref(), &expected);
    assert_eq!(backend.trace_commitment(&pi).0, trace);
}

#[test]
fn constraint_commit_data_layout() {
    let backend = HashBackend::new();
    let cs = test_constraint_system();
    let data = backend.constraint_commit_data(&cs);
    let mut expected = b"1.0.0".to_vec();
    expected.extend_from_slice(&1u64.to_le_bytes());
    expected.extend_from_slice(&0u64.to_le_bytes());
    expected.extend_from_slice(&0u64.to_le_bytes());
    expected.extend_from_slice(&0u64.to_le_bytes());
    expected.extend_from_slice(b"test constraint");
    assert_eq!(data, expected);
}

#[test]
fn into_inner_returns_the_bytes() {
    let p = HashBackendProof::new(vec![5, 6, 7]);
    assert_eq!(p.into_inner(), vec![5, 6, 7]);
}
