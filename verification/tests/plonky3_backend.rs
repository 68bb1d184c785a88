use sha3::{Digest, Sha3_256};
use vsel_proof::constraints::{Constraint, ConstraintCategory, ConstraintExpr, ConstraintSystem};
use vsel_proof::goldilocks::GoldilocksField;
use vsel_proof::plonky3_backend::{Plonky3Backend, Plonky3Config, Plonky3Error, StarkProof};
use vsel_proof::public_inputs::PublicInputs;
use vsel_proof::types::{
    DomainTag, Observable, ProtocolVersion, TransitionClass, TransitionStatus,
};
use vsel_proof::witness::{AuxiliaryComputation, Witness, WitnessInput};

fn test_domain_tag() -> DomainTag {
    let mut h = [0u8; 32];
    h[0] = 0xAB;
    DomainTag(vsel_proof::types::Hash(h))
}

fn test_version() -> ProtocolVersion {
    ProtocolVersion { major: 1, minor: 0, patch: 0 }
}

fn test_public_inputs() -> PublicInputs {
    PublicInputs {
        root_init: vsel_proof::types::Hash([1u8; 32]),
        root_final: vsel_proof::types::Hash([2u8; 32]),
        observables: vec![],
        domain: test_domain_tag(),
        version: test_version(),
    }
}

fn test_witness() -> Witness {
    Witness {
        intermediate_states: vec![vsel_proof::types::Hash([9u8; 32])],
        input_sequence: vec![WitnessInput { payload_type: "transfer".to_string(), data: vec![1, 2, 3], nonce: 1 }],
        aux_computation: AuxiliaryComputation::empty(),
    }
}

fn test_constraint_system() -> ConstraintSystem {
    let mut cs = ConstraintSystem::new("1.0.0");
    cs.add_constraint(Constraint {
        id: 0,
        expr: ConstraintExpr::BoolConstant(true),
        category: ConstraintCategory::Shape,
        description: "test constraint".to_string(),
    });
    cs
}

/// A stand-in encoding of a statement into field elements, for tests of
/// composition: the first byte of each root, the observable count, and the
/// gas of each observable.
fn encode(p: &PublicInputs) -> Vec<GoldilocksField> {
    let mut v = vec![
        GoldilocksField(p.root_init.0[0] as u64),
        GoldilocksField(p.root_final.0[0] as u64),
        GoldilocksField(p.observables.len() as u64),
    ];
    for o in &p.observables {
        v.push(GoldilocksField(o.gas_used));
    }
    v
}

fn make_proof(backend: &Plonky3Backend, pi: &PublicInputs) -> StarkProof {
    let fri = backend.generate_fri_commitments(&test_witness(), &test_constraint_system(), pi);
    let values = encode(pi);
    let queries = backend.generate_query_responses(&fri, &values);
    let mut p = StarkProof {
        fri_commitments: fri,
        query_responses: queries,
        public_input_values: values,
        backend_id: "plonky3-stark".to_string(),
        serialized: Vec::new(),
        native_proof_bytes: vec![0xAA, 0xBB, 0xCC],
    };
    p.serialized = p.to_bytes();
    p
}

fn make_chain_public_inputs(n: usize) -> Vec<PublicInputs> {
    (0..n)
        .map(|i| {
            let mut root_init = [0u8; 32];
            root_init[0] = i as u8;
            let mut root_final = [0u8; 32];
            root_final[0] = (i + 1) as u8;
            PublicInputs {
                root_init: vsel_proof::types::Hash(root_init),
                root_final: vsel_proof::types::Hash(root_final),
                observables: vec![Observable {
                    transition_class: TransitionClass::Update,
                    outputs: vec![],
                    gas_used: (i as u64 + 1) * 100,
                    status: TransitionStatus::Success,
                }],
                domain: test_domain_tag(),
                version: test_version(),
            }
        })
        .collect()
}

fn make_chain_proofs(backend: &Plonky3Backend, n: usize) -> (Vec<StarkProof>, Vec<PublicInputs>) {
    let pis = make_chain_public_inputs(n);
    let proofs = pis.iter().map(|pi| make_proof(backend, pi)).collect();
    (proofs, pis)
}

fn err_text<T>(r: Result<T, Plonky3Error>) -> String {
    match r {
        Err(e) => e.message(),
        Ok(_) => panic!("expected an error"),
    }
}

#[test]
fn plonky3_backend_test_backend_id() {
    let backend = Plonky3Backend::new();
    assert_eq!(backend.backend_id(), "plonky3-stark");
}

#[test]
fn test_is_post_quantum() {
    let backend = Plonky3Backend::new();
    assert!(backend.is_post_quantum());
}

#[test]
fn test_default_config() {
    let config = Plonky3Config::default();
    assert_eq!(config.security_bits, 100);
    assert_eq!(config.num_fri_queries, 34);
    assert_eq!(config.fri_folding_factor, 2);
    assert_eq!(config.blowup_factor, 8);
}

#[test]
fn plonky3_backend_test_prove_empty_witness_rejected() {
    let witness = Witness {
        intermediate_states: vec![],
        input_sequence: vec![],
        aux_computation: AuxiliaryComputation::empty(),
    };
    let err = err_text(Plonky3Backend::validate_prove_inputs(&witness, &test_constraint_system()));
    assert!(err.contains("plonky3-stark"));
    assert!(err.contains("empty witness"));
}

#[test]
fn prove_inputs_within_bounds_are_accepted() {
    assert!(Plonky3Backend::validate_prove_inputs(&test_witness(), &test_constraint_system()).is_ok());
}

#[test]
fn prove_rejects_oversized_witness() {
    let witness = Witness {
        intermediate_states: vec![vsel_proof::types::Hash([0u8; 32]); 100_001],
        input_sequence: vec![],
        aux_computation: AuxiliaryComputation::empty(),
    };
    let err = err_text(Plonky3Backend::validate_prove_inputs(&witness, &test_constraint_system()));
    assert_eq!(err, "plonky3-stark: proof generation failed: witness exceeds maximum: 100001 > 100000");
}

#[test]
fn test_verify_rejects_empty_fri_commitments() {
    let backend = Plonky3Backend::new();
    let public_inputs = test_public_inputs();
    let proof = StarkProof {
        fri_commitments: vec![],
        query_responses: vec![vec![1u8; 32]],
        public_input_values: encode(&public_inputs),
        backend_id: "plonky3-stark".to_string(),
        serialized: vec![1u8; 32],
        native_proof_bytes: Vec::new(),
    };
    let cc = vsel_proof::types::Hash([7u8; 32]);
    assert!(!backend.check_proof_structure(&proof, &encode(&public_inputs), &cc));
}

#[test]
fn test_verify_rejects_wrong_backend_id() {
    let backend = Plonky3Backend::new();
    let pi = test_public_inputs();
    let mut proof = make_proof(&backend, &pi);
    let cc = vsel_proof::types::Hash([7u8; 32]);
    assert!(backend.check_proof_structure(&proof, &encode(&pi), &cc));
    proof.backend_id = "wrong-backend".to_string();
    assert!(!backend.check_proof_structure(&proof, &encode(&pi), &cc));
}

#[test]
fn plonky3_backend_test_verify_rejects_zero_constraint_commitment() {
    let backend = Plonky3Backend::new();
    let pi = test_public_inputs();
    let proof = make_proof(&backend, &pi);
    let zero = vsel_proof::types::Hash([0u8; 32]);
    assert!(!backend.check_proof_structure(&proof, &encode(&pi), &zero));
}

#[test]
fn test_verify_rejects_mismatched_public_inputs() {
    let backend = Plonky3Backend::new();
    let pi = test_public_inputs();
    let proof = make_proof(&backend, &pi);
    let wrong = PublicInputs { root_init: vsel_proof::types::Hash([0xFF; 32]), ..pi };
    let cc = vsel_proof::types::Hash([7u8; 32]);
    assert!(!backend.check_proof_structure(&proof, &encode(&wrong), &cc));
}

#[test]
fn plonky3_backend_test_serialize_deserialize_round_trip() {
    let backend = Plonky3Backend::new();
    let proof = make_proof(&backend, &test_public_inputs());
    let serialized = backend.serialize_proof(&proof);
    let deserialized = backend.deserialize_proof(&serialized).expect("deserialize should succeed");
    assert_eq!(proof.fri_commitments, deserialized.fri_commitments);
    assert_eq!(proof.query_responses, deserialized.query_responses);
    assert_eq!(proof.public_input_values, deserialized.public_input_values);
    assert_eq!(proof.backend_id, deserialized.backend_id);
    assert_eq!(proof.native_proof_bytes, deserialized.native_proof_bytes);
    assert_eq!(deserialized.serialized, serialized);
}

#[test]
fn test_serialize_deterministic() {
    let backend = Plonky3Backend::new();
    let proof = make_proof(&backend, &test_public_inputs());
    assert_eq!(backend.serialize_proof(&proof), backend.serialize_proof(&proof));
}

#[test]
fn plonky3_backend_test_deserialize_empty_fails() {
    let backend = Plonky3Backend::new();
    let err = err_text(backend.deserialize_proof(&[]));
    assert!(err.contains("plonky3-stark"), "error must contain backend_id: {}", err);
    assert_eq!(err, "plonky3-stark: deserialization failed: empty proof bytes");
}

#[test]
fn test_deserialize_invalid_magic_fails() {
    let backend = Plonky3Backend::new();
    let err = err_text(backend.deserialize_proof(&[0x00, 0x00, 0x00, 0x00, 0x01]));
    assert!(err.contains("plonky3-stark"), "error must contain backend_id: {}", err);
}

#[test]
fn test_deserialize_truncated_fails() {
    let backend = Plonky3Backend::new();
    assert!(backend.deserialize_proof(b"STAR").is_err());
}

#[test]
fn deserialize_rejects_oversized_input() {
    let backend = Plonky3Backend::new();
    let big = vec![0u8; 10_485_761];
    let err = err_text(backend.deserialize_proof(&big));
    assert_eq!(err, "plonky3-stark: deserialization failed: proof exceeds maximum size: 10485761 > 10485760");
}

#[test]
fn plonky3_backend_test_all_errors_contain_backend_id() {
    let errors = vec![
        Plonky3Error::EmptyWitness,
        Plonky3Error::ProofGenerationFailed("test failure".to_string()),
        Plonky3Error::DeserializationFailed("test failure".to_string()),
        Plonky3Error::UnsupportedGate("test gate".to_string()),
        Plonky3Error::VersionMismatch { expected: "1.0.0".to_string(), actual: "2.0.0".to_string() },
        Plonky3Error::WitnessAssignmentFailed("test_var".to_string()),
    ];
    for err in errors {
        let msg = err.message();
        assert!(msg.contains("plonky3-stark"), "error '{}' must contain 'plonky3-stark'", msg);
    }
}

#[test]
fn test_stark_proof_has_fri_commitments() {
    let backend = Plonky3Backend::new();
    let fri = backend.generate_fri_commitments(&test_witness(), &test_constraint_system(), &test_public_inputs());
    assert_eq!(fri.len(), 3);
    for c in &fri {
        assert_eq!(c.len(), 32);
    }
}

#[test]
fn test_stark_proof_has_query_responses() {
    let backend = Plonky3Backend::new();
    let proof = make_proof(&backend, &test_public_inputs());
    assert_eq!(proof.query_responses.len(), 34);
    for q in &proof.query_responses {
        assert_eq!(q.len(), 32);
    }
}

#[test]
fn plonky3_backend_test_default_creates_valid_backend() {
    let backend = Plonky3Backend::default();
    assert_eq!(backend.backend_id(), "plonky3-stark");
    assert!(backend.is_post_quantum());
}

#[test]
fn test_custom_config() {
    let config = Plonky3Config { security_bits: 128, num_fri_queries: 40, fri_folding_factor: 4, blowup_factor: 16 };
    let backend = Plonky3Backend::with_config(config);
    let proof = make_proof(&backend, &test_public_inputs());
    assert_eq!(proof.query_responses.len(), 40);
    assert_eq!(proof.fri_commitments.len(), 5);
}

#[test]
fn fri_layers_chain_through_the_fold_digest() {
    let backend = Plonky3Backend::new();
    let w = test_witness();
    let cs = test_constraint_system();
    let pi = test_public_inputs();
    let fri = backend.generate_fri_commitments(&w, &cs, &pi);
    let mut data = Vec::new();
    data.extend_from_slice(&fri[0]);
    data.extend_from_slice(&1u64.to_le_bytes());
    data.extend_from_slice(b"1.0.0");
    data.extend_from_slice(&1u64.to_le_bytes());
    data.extend_from_slice(&[1u8; 32]);
    data.extend_from_slice(&[2u8; 32]);
    let mut h = Sha3_256::new();
    h.update(b"plonky3-fri-fold");
    h.update(&data);
    assert_eq!(fri[1], h.finalize().to_vec());
}

#[test]
fn plonky3_backend_test_compose_two_proofs() {
    let backend = Plonky3Backend::new();
    let (proofs, pub_inputs) = make_chain_proofs(&backend, 2);
    let composed = backend.compose_proofs(&proofs, &pub_inputs, &encode).expect("composition should succeed");
    let composed_pub = PublicInputs {
        root_init: pub_inputs[0].root_init,
        root_final: pub_inputs[1].root_final,
        observables: vec![pub_inputs[0].observables[0].clone(), pub_inputs[1].observables[0].clone()],
        domain: pub_inputs[0].domain,
        version: pub_inputs[0].version,
    };
    assert_eq!(composed.public_input_values, encode(&composed_pub));
    assert_eq!(composed.backend_id, "plonky3-stark");
    assert!(!composed.fri_commitments.is_empty());
    assert!(!composed.query_responses.is_empty());
}

#[test]
fn plonky3_backend_test_compose_three_proofs() {
    let backend = Plonky3Backend::new();
    let (proofs, pub_inputs) = make_chain_proofs(&backend, 3);
    let composed = backend.compose_proofs(&proofs, &pub_inputs, &encode).expect("composition should succeed");
    let composed_pub = PublicInputs {
        root_init: pub_inputs[0].root_init,
        root_final: pub_inputs[2].root_final,
        observables: pub_inputs.iter().flat_map(|p| p.observables.clone()).collect(),
        domain: pub_inputs[0].domain,
        version: pub_inputs[0].version,
    };
    assert_eq!(composed.public_input_values, encode(&composed_pub));
}

#[test]
fn plonky3_backend_test_compose_deterministic() {
    let backend = Plonky3Backend::new();
    let (proofs, pub_inputs) = make_chain_proofs(&backend, 3);
    let c1 = backend.compose_proofs(&proofs, &pub_inputs, &encode).expect("c1");
    let c2 = backend.compose_proofs(&proofs, &pub_inputs, &encode).expect("c2");
    assert_eq!(c1.serialized, c2.serialized);
}

#[test]
fn test_compose_too_few_proofs() {
    let backend = Plonky3Backend::new();
    let (proofs, pub_inputs) = make_chain_proofs(&backend, 1);
    let err = err_text(backend.compose_proofs(&proofs, &pub_inputs, &encode));
    assert!(err.contains("plonky3-stark"));
    assert!(err.contains("at least 2 proofs"));
}

#[test]
fn plonky3_backend_test_compose_broken_state_chain() {
    let backend = Plonky3Backend::new();
    let (proofs, mut pub_inputs) = make_chain_proofs(&backend, 2);
    pub_inputs[1].root_init = vsel_proof::types::Hash([0xFF; 32]);
    let err = err_text(backend.compose_proofs(&proofs, &pub_inputs, &encode));
    assert!(err.contains("plonky3-stark"));
    assert!(err.contains("state chain broken"));
}

#[test]
fn plonky3_backend_test_compose_domain_mismatch() {
    let backend = Plonky3Backend::new();
    let (proofs, mut pub_inputs) = make_chain_proofs(&backend, 2);
    pub_inputs[1].domain = DomainTag(vsel_proof::types::Hash([0xFF; 32]));
    let err = err_text(backend.compose_proofs(&proofs, &pub_inputs, &encode));
    assert!(err.contains("plonky3-stark"));
    assert!(err.contains("domain mismatch"));
}

#[test]
fn plonky3_backend_test_compose_version_mismatch() {
    let backend = Plonky3Backend::new();
    let (proofs, mut pub_inputs) = make_chain_proofs(&backend, 2);
    pub_inputs[1].version = ProtocolVersion { major: 99, minor: 0, patch: 0 };
    let err = err_text(backend.compose_proofs(&proofs, &pub_inputs, &encode));
    assert!(err.contains("plonky3-stark"));
    assert!(err.contains("version mismatch"));
}

#[test]
fn test_compose_incremental_matches_batch() {
    let backend = Plonky3Backend::new();
    let (proofs, pub_inputs) = make_chain_proofs(&backend, 3);
    let batch = backend.compose_proofs(&proofs, &pub_inputs, &encode).expect("batch compose");
    let first_two = backend.compose_proofs(&proofs[..2], &pub_inputs[..2], &encode).expect("first two");
    let first_two_pub = Plonky3Backend::compose_public_inputs(&pub_inputs[0], &pub_inputs[1]);
    let incremental = backend
        .compose_incremental(&first_two, &proofs[2], &first_two_pub, &pub_inputs[2], &encode)
        .expect("incremental compose");
    assert_eq!(batch.public_input_values, incremental.public_input_values);
    assert_eq!(batch.fri_commitments, incremental.fri_commitments);
    assert_eq!(batch.native_proof_bytes, incremental.native_proof_bytes);
    assert_eq!(batch.serialized, incremental.serialized);
}

#[test]
fn test_composition_errors_contain_backend_id() {
    let errors: Vec<Plonky3Error> = vec![
        Plonky3Error::CompositionTooFewProofs,
        Plonky3Error::StateChainBroken { left: 0, right: 1 },
        Plonky3Error::CompositionDomainMismatch { index: 1 },
        Plonky3Error::CompositionVersionMismatch { index: 1 },
    ];
    for err in errors {
        let msg = err.message();
        assert!(msg.contains("plonky3-stark"), "composition error '{}' must contain 'plonky3-stark'", msg);
    }
}

#[test]
fn composed_native_bytes_bundle_both_sides() {
    let backend = Plonky3Backend::new();
    let (proofs, _) = make_chain_proofs(&backend, 2);
    let bundle = Plonky3Backend::build_recursive_native_bundle(&proofs[0], &proofs[1]).unwrap();
    assert_eq!(bundle, vec![3, 0, 0, 0, 0xAA, 0xBB, 0xCC, 3, 0, 0, 0, 0xAA, 0xBB, 0xCC]);
}

#[test]
fn composed_fri_pads_the_shorter_proof_with_zero_layers() {
    let backend = Plonky3Backend::new();
    let (mut proofs, _) = make_chain_proofs(&backend, 2);
    proofs[1].fri_commitments.truncate(1);
    let composed = Plonky3Backend::compose_fri_commitments_recursive(&proofs[0], &proofs[1]);
    assert_eq!(composed.len(), 3);
    let mut h = Sha3_256::new();
    h.update(b"plonky3-stark-recursive-compose-fri");
    h.update(&2u64.to_le_bytes());
    h.update(&proofs[0].fri_commitments[2]);
    h.update(&[0u8; 32]);
    assert_eq!(composed[2], h.finalize().to_vec());
}

#[test]
fn test_default_config_achieves_100_bit_soundness() {
    let config = Plonky3Config::default();
    let fri_bits = config.fri_soundness_bits();
    assert_eq!(fri_bits, 102);
    assert!(config.meets_security_target());
    assert!(fri_bits >= config.security_bits);
}

#[test]
fn test_fri_soundness_bits_calculation() {
    let config = Plonky3Config { security_bits: 100, num_fri_queries: 34, fri_folding_factor: 2, blowup_factor: 8 };
    assert_eq!(config.fri_soundness_bits(), 102);
    let config16 = Plonky3Config { security_bits: 100, num_fri_queries: 25, fri_folding_factor: 2, blowup_factor: 16 };
    assert_eq!(config16.fri_soundness_bits(), 100);
    let config4 = Plonky3Config { security_bits: 100, num_fri_queries: 50, fri_folding_factor: 2, blowup_factor: 4 };
    assert_eq!(config4.fri_soundness_bits(), 100);
}

#[test]
fn test_meets_security_target_boundary() {
    let exact = Plonky3Config { security_bits: 100, num_fri_queries: 50, fri_folding_factor: 2, blowup_factor: 4 };
    assert!(exact.meets_security_target());
    let below = Plonky3Config { security_bits: 100, num_fri_queries: 33, fri_folding_factor: 2, blowup_factor: 8 };
    assert!(!below.meets_security_target());
}

#[test]
fn test_default_config_parameters_match_security_analysis() {
    let config = Plonky3Config::default();
    assert_eq!(config.security_bits, 100);
    assert_eq!(config.num_fri_queries, 34);
    assert_eq!(config.fri_folding_factor, 2);
    assert_eq!(config.blowup_factor, 8);
    assert!(config.fri_soundness_bits() >= 100);
}

#[test]
fn observable_digest_is_over_the_full_observable_content() {
    let pi = test_public_inputs();
    let d1 = Plonky3Backend::observable_digest(&pi);
    let mut pi2 = test_public_inputs();
    pi2.observables.push(Observable {
        transition_class: TransitionClass::Update,
        outputs: vec![],
        gas_used: 1,
        status: TransitionStatus::Success,
    });
    let d2 = Plonky3Backend::observable_digest(&pi2);
    assert_eq!(d1.len(), 32);
    assert_ne!(d1, d2);
}

#[test]
fn test_build_fri_params_values() {
    let config = vsel_proof::plonky3_backend::Plonky3Config::default_config();
    let p = vsel_proof::plonky3_backend::build_fri_param_values(&config);
    assert_eq!(p.log_blowup, 3);
    assert_eq!(p.log_final_poly_len, 0);
    assert_eq!(p.max_log_arity, 2);
    assert_eq!(p.num_queries, 34);
    assert_eq!(p.commit_proof_of_work_bits, 0);
    assert_eq!(p.query_proof_of_work_bits, 0);
    let wide = vsel_proof::plonky3_backend::Plonky3Config {
        security_bits: 100,
        num_fri_queries: 20,
        fri_folding_factor: 1,
        blowup_factor: 1024,
    };
    assert_eq!(vsel_proof::plonky3_backend::build_fri_param_values(&wide).log_blowup, 10);
    let one = vsel_proof::plonky3_backend::Plonky3Config { blowup_factor: 1, ..wide };
    assert_eq!(vsel_proof::plonky3_backend::build_fri_param_values(&one).log_blowup, 0);
}

#[test]
fn native_bundle_frames_and_splits() {
    let bundle = Plonky3Backend::frame_native_proof_bundle(b"cs", b"proof");
    assert_eq!(bundle, vec![2, 0, 0, 0, b'c', b's', b'p', b'r', b'o', b'o', b'f']);
    let (cs, proof) = Plonky3Backend::split_native_proof_bundle(&bundle).expect("splits");
    assert_eq!(cs, b"cs".to_vec());
    assert_eq!(proof, b"proof".to_vec());
    let empty = Plonky3Backend::frame_native_proof_bundle(b"", b"");
    assert_eq!(Plonky3Backend::split_native_proof_bundle(&empty).unwrap(), (vec![], vec![]));
}

#[test]
fn native_bundle_split_errors() {
    match Plonky3Backend::split_native_proof_bundle(&[1, 0, 0]) {
        Err(Plonky3Error::DeserializationFailed(m)) => {
            assert_eq!(m, "native proof bundle too short: missing constraint system length")
        }
        other => panic!("unexpected {:?}", other.is_ok()),
    }
    match Plonky3Backend::split_native_proof_bundle(&[9, 0, 0, 0, 1, 2]) {
        Err(Plonky3Error::DeserializationFailed(m)) => {
            assert_eq!(m, "native proof bundle truncated: constraint system needs 9 bytes, have 2")
        }
        other => panic!("unexpected {:?}", other.is_ok()),
    }
}

fn layered_proof(layers: Vec<Vec<u8>>) -> StarkProof {
    StarkProof {
        fri_commitments: layers,
        query_responses: vec![],
        public_input_values: vec![],
        backend_id: "plonky3-stark".to_string(),
        serialized: vec![],
        native_proof_bytes: vec![],
    }
}

#[test]
fn compose_fri_commitments_hashes_each_layer_of_every_proof() {
    let a = layered_proof(vec![vec![1u8; 32], vec![2u8; 32]]);
    let b = layered_proof(vec![vec![3u8; 32]]);
    let composed = Plonky3Backend::compose_fri_commitments(&[a, b]);
    assert_eq!(composed.len(), 2);
    let expected = |layer: u64, first: Vec<u8>, second: Vec<u8>| {
        let mut h = Sha3_256::new();
        h.update(b"plonky3-stark-compose-fri");
        h.update(layer.to_le_bytes());
        h.update(2u64.to_le_bytes());
        h.update(&first);
        h.update(&second);
        h.finalize().to_vec()
    };
    assert_eq!(composed[0], expected(0, vec![1u8; 32], vec![3u8; 32]));
    assert_eq!(composed[1], expected(1, vec![2u8; 32], vec![0u8; 32]));
    assert!(Plonky3Backend::compose_fri_commitments(&[]).is_empty());
}

fn chain_pub(pub_inputs: &[PublicInputs], last: usize) -> PublicInputs {
    PublicInputs {
        root_init: pub_inputs[0].root_init,
        root_final: pub_inputs[last].root_final,
        observables: pub_inputs[..=last].iter().flat_map(|p| p.observables.clone()).collect(),
        domain: pub_inputs[0].domain,
        version: pub_inputs[0].version,
    }
}

#[test]
fn test_compose_binary_produces_native_proof_bytes() {
    let backend = Plonky3Backend::new();
    let (proofs, pub_inputs) = make_chain_proofs(&backend, 2);
    let composed = backend.compose_proofs(&proofs, &pub_inputs, &encode).expect("composition should succeed");
    assert!(!composed.native_proof_bytes.is_empty());
}

#[test]
fn test_compose_binary_fri_commitments_use_recursive_domain() {
    let backend = Plonky3Backend::new();
    let (proofs, pub_inputs) = make_chain_proofs(&backend, 2);
    let composed = backend.compose_proofs(&proofs, &pub_inputs, &encode).expect("composition should succeed");
    assert!(!composed.fri_commitments.is_empty());
    for commitment in &composed.fri_commitments {
        assert_eq!(commitment.len(), 32);
    }
}

#[test]
fn test_compose_preserves_state_chain_in_public_inputs() {
    let backend = Plonky3Backend::new();
    let (proofs, pub_inputs) = make_chain_proofs(&backend, 2);
    let composed = backend.compose_proofs(&proofs, &pub_inputs, &encode).expect("composition should succeed");
    assert_eq!(composed.public_input_values, encode(&chain_pub(&pub_inputs, 1)));
}

#[test]
fn test_compose_five_proofs_chain() {
    let backend = Plonky3Backend::new();
    let (proofs, pub_inputs) = make_chain_proofs(&backend, 5);
    let composed = backend.compose_proofs(&proofs, &pub_inputs, &encode).expect("5-proof composition should succeed");
    assert_eq!(composed.public_input_values, encode(&chain_pub(&pub_inputs, 4)));
    assert_eq!(composed.backend_id, "plonky3-stark");
}

#[test]
fn test_compose_n_proofs_observables_order_preserved() {
    let backend = Plonky3Backend::new();
    let (proofs, pub_inputs) = make_chain_proofs(&backend, 4);
    let composed = backend.compose_proofs(&proofs, &pub_inputs, &encode).expect("4-proof composition should succeed");
    let expected_pub = chain_pub(&pub_inputs, 3);
    assert_eq!(expected_pub.observables.len(), 4);
    assert_eq!(composed.public_input_values, encode(&expected_pub));
}

#[test]
fn test_compose_n_proofs_native_bundle_grows() {
    let backend = Plonky3Backend::new();
    let (proofs2, pub2) = make_chain_proofs(&backend, 2);
    let (proofs3, pub3) = make_chain_proofs(&backend, 3);
    let composed2 = backend.compose_proofs(&proofs2, &pub2, &encode).expect("2-proof");
    let composed3 = backend.compose_proofs(&proofs3, &pub3, &encode).expect("3-proof");
    assert!(composed3.native_proof_bytes.len() > composed2.native_proof_bytes.len());
}

#[test]
fn test_compose_n_proofs_error_at_position() {
    let backend = Plonky3Backend::new();
    let (proofs, mut pub_inputs) = make_chain_proofs(&backend, 4);
    pub_inputs[3].root_init = vsel_proof::types::Hash([0xFF; 32]);
    let err = err_text(backend.compose_proofs(&proofs, &pub_inputs, &encode));
    assert!(err.contains("state chain broken"));
    assert!(err.contains("proof[2]"));
    assert!(err.contains("proof[3]"));
}

#[test]
fn test_incremental_composition_public_inputs_match() {
    let backend = Plonky3Backend::new();
    let (proofs, pub_inputs) = make_chain_proofs(&backend, 3);
    let batch = backend.compose_proofs(&proofs, &pub_inputs, &encode).expect("batch compose");
    let first_two = backend.compose_proofs(&proofs[..2], &pub_inputs[..2], &encode).expect("compose first two");
    let first_two_pub = chain_pub(&pub_inputs, 1);
    let incremental = backend
        .compose_incremental(&first_two, &proofs[2], &first_two_pub, &pub_inputs[2], &encode)
        .expect("incremental compose");
    assert_eq!(batch.public_input_values, incremental.public_input_values);
}

#[test]
fn test_incremental_composition_without_reproof() {
    let backend = Plonky3Backend::new();
    let (proofs, pub_inputs) = make_chain_proofs(&backend, 3);
    let first_two = backend.compose_proofs(&proofs[..2], &pub_inputs[..2], &encode).expect("compose first two");
    let first_two_pub = chain_pub(&pub_inputs, 1);
    let incremental = backend
        .compose_incremental(&first_two, &proofs[2], &first_two_pub, &pub_inputs[2], &encode)
        .expect("incremental compose");
    assert!(!incremental.native_proof_bytes.is_empty());
    assert!(incremental.native_proof_bytes.len() >= first_two.native_proof_bytes.len());
}

#[test]
fn test_incremental_composition_chain_of_four() {
    let backend = Plonky3Backend::new();
    let (proofs, pub_inputs) = make_chain_proofs(&backend, 4);
    let acc = backend.compose_proofs(&proofs[..2], &pub_inputs[..2], &encode).expect("compose 1+2");
    let acc_pub = chain_pub(&pub_inputs, 1);
    let acc = backend.compose_incremental(&acc, &proofs[2], &acc_pub, &pub_inputs[2], &encode).expect("add third");
    let acc_pub = chain_pub(&pub_inputs, 2);
    let final_proof =
        backend.compose_incremental(&acc, &proofs[3], &acc_pub, &pub_inputs[3], &encode).expect("add fourth");
    assert_eq!(final_proof.public_input_values, encode(&chain_pub(&pub_inputs, 3)));
}

#[test]
fn test_incremental_domain_mismatch_error() {
    let backend = Plonky3Backend::new();
    let (proofs, pub_inputs) = make_chain_proofs(&backend, 2);
    let mut second_pub = pub_inputs[1].clone();
    second_pub.domain = DomainTag(vsel_proof::types::Hash([0xFF; 32]));
    let err = err_text(backend.compose_incremental(&proofs[0], &proofs[1], &pub_inputs[0], &second_pub, &encode));
    assert!(err.contains("plonky3-stark"));
    assert!(err.contains("domain mismatch"));
}

#[test]
fn test_incremental_version_mismatch_error() {
    let backend = Plonky3Backend::new();
    let (proofs, pub_inputs) = make_chain_proofs(&backend, 2);
    let mut second_pub = pub_inputs[1].clone();
    second_pub.version = ProtocolVersion { major: 99, minor: 0, patch: 0 };
    let err = err_text(backend.compose_incremental(&proofs[0], &proofs[1], &pub_inputs[0], &second_pub, &encode));
    assert!(err.contains("plonky3-stark"));
    assert!(err.contains("version mismatch"));
}

#[test]
fn test_incremental_state_chain_broken_error() {
    let backend = Plonky3Backend::new();
    let (proofs, pub_inputs) = make_chain_proofs(&backend, 2);
    let mut second_pub = pub_inputs[1].clone();
    second_pub.root_init = vsel_proof::types::Hash([0xFF; 32]);
    let err = err_text(backend.compose_incremental(&proofs[0], &proofs[1], &pub_inputs[0], &second_pub, &encode));
    assert!(err.contains("plonky3-stark"));
    assert!(err.contains("state chain broken"));
}

#[test]
fn test_compose_empty_proofs_error() {
    let backend = Plonky3Backend::new();
    let err = err_text(backend.compose_proofs(&[], &[], &encode));
    assert!(err.contains("plonky3-stark"));
    assert!(err.contains("at least 2 proofs"));
}

#[test]
fn test_compose_mismatched_lengths_error() {
    let backend = Plonky3Backend::new();
    let (proofs, pub_inputs) = make_chain_proofs(&backend, 2);
    let err = err_text(backend.compose_proofs(&proofs, &pub_inputs[..1], &encode));
    assert!(err.contains("plonky3-stark"));
    assert!(err.contains("same length"));
}

#[test]
fn from_bytes_reports_where_decoding_stops() {
    let text = |bytes: &[u8]| match StarkProof::from_bytes(bytes) {
        Err(Plonky3Error::DeserializationFailed(m)) => m,
        _ => panic!("expected a deserialization failure"),
    };
    assert_eq!(text(b"STA"), "unexpected end of data at offset 0, need 4 bytes, have 3");
    assert_eq!(text(b"STAX\x01"), "invalid magic bytes: expected STAR");
    assert_eq!(text(b"STAR"), "unexpected end of data at offset 4, need 1 bytes, have 0");
    assert_eq!(text(b"STAR\x02"), "unsupported proof version: 2, expected 1");
    assert_eq!(text(b"STAR\x01\x00\x00"), "unexpected end of data at offset 5, need 4 bytes, have 2");
    assert_eq!(text(b"STAR\x01\x01\x00\x00\x00"), "unexpected end of data at offset 9, need 4 bytes, have 0");
    assert_eq!(
        text(b"STAR\x01\x01\x00\x00\x00\x05\x00\x00\x00ab"),
        "unexpected end of data at offset 13, need 5 bytes, have 2"
    );
    let bad_id = b"STAR\x01\x00\x00\x00\x00\x00\x00\x00\x00\x00\x00\x00\x00\x01\x00\x00\x00\xff";
    assert!(text(bad_id).starts_with("invalid backend_id UTF-8: "));
}
