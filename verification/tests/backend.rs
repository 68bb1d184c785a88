use vsel_proof::backend::ZkBackend;
use vsel_proof::constraints::ConstraintSystem;
use vsel_proof::public_inputs::PublicInputs;
use vsel_proof::types::{DomainTag, ProtocolVersion};
use vsel_proof::witness::{AuxiliaryComputation, Witness};

#[derive(Clone)]
struct MockProof(Vec<u8>);

impl AsRef<[u8]> for MockProof {
    fn as_ref(&self) -> &[u8] {
        &self.0
    }
}

#[derive(Debug)]
struct MockError(String);

struct MockBackend;

impl ZkBackend for MockBackend {
    type Proof = MockProof;
    type Error = MockError;

    fn prove(
        &self,
        _witness: &Witness,
        _constraints: &ConstraintSystem,
        _public_inputs: &PublicInputs,
    ) -> Result<Self::Proof, Self::Error> {
        Ok(MockProof(vec![0xDE, 0xAD]))
    }

    fn verify(
        &self,
        proof: &Self::Proof,
        _public_inputs: &PublicInputs,
        _constraint_commitment: &vsel_proof::types::Hash,
    ) -> bool {
        !proof.0.is_empty()
    }

    fn backend_id(&self) -> &str {
        "mock-test"
    }

    fn is_post_quantum(&self) -> bool {
        false
    }

    fn serialize_proof(&self, proof: &Self::Proof) -> Vec<u8> {
        proof.0.clone()
    }

    fn deserialize_proof(&self, bytes: &[u8]) -> Result<Self::Proof, Self::Error> {
        if bytes.is_empty() {
            return Err(MockError("mock-test: empty proof bytes".to_string()));
        }
        Ok(MockProof(bytes.to_vec()))
    }
}

fn minimal_public_inputs() -> PublicInputs {
    PublicInputs {
        root_init: vsel_proof::types::Hash([1u8; 32]),
        root_final: vsel_proof::types::Hash([2u8; 32]),
        observables: vec![],
        domain: DomainTag(vsel_proof::types::Hash([3u8; 32])),
        version: ProtocolVersion { major: 1, minor: 0, patch: 0 },
    }
}

#[test]
fn test_mock_backend_id() {
    let backend = MockBackend;
    assert_eq!(backend.backend_id(), "mock-test");
}

#[test]
fn test_mock_backend_is_not_post_quantum() {
    let backend = MockBackend;
    assert!(!backend.is_post_quantum());
}

#[test]
fn test_mock_backend_serialize_deserialize_round_trip() {
    let backend = MockBackend;
    let proof = MockProof(vec![1, 2, 3, 4]);
    let serialized = backend.serialize_proof(&proof);
    let deserialized = backend
        .deserialize_proof(&serialized)
        .expect("deserialization should succeed");
    assert_eq!(proof.as_ref(), deserialized.as_ref());
}

#[test]
fn test_mock_backend_deserialize_empty_fails() {
    let backend = MockBackend;
    let result = backend.deserialize_proof(&[]);
    assert!(result.is_err());
    if let Err(MockError(msg)) = result {
        assert!(msg.contains("mock-test"));
    }
}

#[test]
fn test_mock_backend_verify_non_empty_proof() {
    let backend = MockBackend;
    let proof = MockProof(vec![0xDE, 0xAD]);
    let hash = vsel_proof::types::Hash([0u8; 32]);
    assert!(backend.verify(&proof, &minimal_public_inputs(), &hash));
}

#[test]
fn test_mock_backend_verify_empty_proof_rejected() {
    let backend = MockBackend;
    let proof = MockProof(vec![]);
    let hash = vsel_proof::types::Hash([0u8; 32]);
    assert!(!backend.verify(&proof, &minimal_public_inputs(), &hash));
}

fn generic_prove<B: ZkBackend>(
    backend: &B,
    witness: &Witness,
    constraints: &ConstraintSystem,
    public_inputs: &PublicInputs,
) -> Result<B::Proof, B::Error> {
    backend.prove(witness, constraints, public_inputs)
}

#[test]
fn test_trait_usable_as_generic_bound() {
    let backend = MockBackend;
    let witness = Witness {
        intermediate_states: vec![],
        input_sequence: vec![],
        aux_computation: AuxiliaryComputation::empty(),
    };
    let cs = ConstraintSystem::new("1.0.0");
    let result = generic_prove(&backend, &witness, &cs, &minimal_public_inputs());
    assert!(result.is_ok());
}
