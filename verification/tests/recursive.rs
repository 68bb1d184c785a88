use sha3::{Digest, Sha3_256};
use vsel_proof::prover::{Proof, ProofCommitments, ProofMetadata, ProverError};
use vsel_proof::public_inputs::PublicInputs;
use vsel_proof::recursive::{
    compose, composition_commitment_data, compute_inner_embedding, create_recursive_proof,
    find_window, verify_recursive,
};
use vsel_proof::types::{DomainTag, Observable, ProtocolVersion, TransitionClass, TransitionStatus};

type H = vsel_proof::types::Hash;

fn test_domain() -> DomainTag {
    DomainTag(make_hash(0xAB))
}

fn proof_domain() -> DomainTag {
    DomainTag(vsel_proof::types::Hash([0x50; 32]))
}

fn test_version() -> ProtocolVersion {
    ProtocolVersion { major: 1, minor: 0, patch: 0 }
}

fn make_hash(seed: u8) -> H {
    let mut h = [0u8; 32];
    h[0] = seed;
    vsel_proof::types::Hash(h)
}

fn digest(data: &[u8]) -> H {
    vsel_proof::types::Hash(Sha3_256::digest(data).into())
}

fn obs(class: TransitionClass, gas: u64) -> Observable {
    Observable { transition_class: class, outputs: vec![], gas_used: gas, status: TransitionStatus::Success }
}

fn make_proof(root_init: H, root_final: H) -> Proof {
    Proof {
        commitments: ProofCommitments {
            trace_commitment: make_hash(0x10),
            witness_commitment: make_hash(0x20),
            constraint_commitment: make_hash(0x30),
        },
        proof_data: vec![0xDE, 0xAD],
        public_inputs: PublicInputs {
            root_init,
            root_final,
            observables: vec![obs(TransitionClass::Update, 100)],
            domain: test_domain(),
            version: test_version(),
        },
        metadata: ProofMetadata {
            prover_version: "0.1.0-test".to_string(),
            timestamp: 0,
            domain: proof_domain(),
            proof_system: "stark-placeholder".to_string(),
        },
    }
}

fn make_chain(n: usize) -> Vec<Proof> {
    (0..n).map(|i| make_proof(make_hash(i as u8), make_hash((i + 1) as u8))).collect()
}

fn composed_commitments(proofs: &[Proof]) -> ProofCommitments {
    ProofCommitments {
        trace_commitment: digest(&composition_commitment_data(proofs, 0)),
        witness_commitment: digest(&composition_commitment_data(proofs, 1)),
        constraint_commitment: digest(&composition_commitment_data(proofs, 2)),
    }
}

fn compose_chain(proofs: &[Proof]) -> Result<Proof, ProverError> {
    compose(proofs, composed_commitments(proofs))
}

fn err_text(r: Result<Proof, ProverError>) -> String {
    match r {
        Err(e) => e.message(),
        Ok(_) => panic!("expected an error"),
    }
}

fn inner_hash(inner: &Proof) -> H {
    digest(&compute_inner_embedding(inner))
}

#[test]
fn recursive_test_compose_two_proofs() {
    let proofs = make_chain(2);
    let composed = compose_chain(&proofs).expect("composition should succeed");
    assert_eq!(composed.public_inputs.root_init, proofs[0].public_inputs.root_init);
    assert_eq!(composed.public_inputs.root_final, proofs[1].public_inputs.root_final);
    assert_eq!(composed.public_inputs.observables.len(), 2);
    assert_eq!(composed.public_inputs.domain, test_domain());
    assert_eq!(composed.public_inputs.version, test_version());
    assert!(!composed.proof_data.is_empty());
    assert_ne!(composed.commitments.trace_commitment, vsel_proof::types::Hash([0u8; 32]));
}

#[test]
fn recursive_test_compose_three_proofs() {
    let proofs = make_chain(3);
    let composed = compose_chain(&proofs).expect("composition should succeed");
    assert_eq!(composed.public_inputs.root_init, make_hash(0));
    assert_eq!(composed.public_inputs.root_final, make_hash(3));
    assert_eq!(composed.public_inputs.observables.len(), 3);
}

#[test]
fn test_compose_five_proofs() {
    let proofs = make_chain(5);
    let composed = compose_chain(&proofs).expect("composition should succeed");
    assert_eq!(composed.public_inputs.root_init, make_hash(0));
    assert_eq!(composed.public_inputs.root_final, make_hash(5));
    assert_eq!(composed.public_inputs.observables.len(), 5);
}

#[test]
fn recursive_test_compose_deterministic() {
    let proofs = make_chain(3);
    let c1 = compose_chain(&proofs).expect("c1");
    let c2 = compose_chain(&proofs).expect("c2");
    assert_eq!(c1.commitments, c2.commitments);
    assert_eq!(c1.proof_data, c2.proof_data);
    assert_eq!(c1.public_inputs, c2.public_inputs);
}

#[test]
fn test_compose_preserves_observable_order() {
    let mut proofs = make_chain(2);
    proofs[0].public_inputs.observables = vec![obs(TransitionClass::Init, 1)];
    proofs[1].public_inputs.observables = vec![obs(TransitionClass::Update, 2)];
    let composed = compose_chain(&proofs).expect("compose");
    assert_eq!(composed.public_inputs.observables.len(), 2);
    assert_eq!(composed.public_inputs.observables[0].gas_used, 1);
    assert_eq!(composed.public_inputs.observables[1].gas_used, 2);
}

#[test]
fn test_compose_empty_rejected() {
    let err = err_text(compose_chain(&[]));
    assert!(err.contains("at least 2 proofs"));
}

#[test]
fn test_compose_single_proof_rejected() {
    let err = err_text(compose_chain(&make_chain(1)));
    assert!(err.contains("at least 2 proofs"));
}

#[test]
fn recursive_test_compose_broken_state_chain() {
    let mut proofs = make_chain(3);
    proofs[1].public_inputs.root_init = make_hash(0xFF);
    let err = err_text(compose_chain(&proofs));
    assert!(err.contains("state chain broken"));
    assert_eq!(err, "proof generation failed: state chain broken: proof[0].root_final != proof[1].root_init");
}

#[test]
fn recursive_test_compose_domain_mismatch() {
    let mut proofs = make_chain(2);
    proofs[1].public_inputs.domain = DomainTag(vsel_proof::types::Hash([0xFF; 32]));
    let err = err_text(compose_chain(&proofs));
    assert!(err.contains("domain mismatch"));
    assert!(err.ends_with("domain mismatch: proof[0] domain differs from proof[1]"));
}

#[test]
fn recursive_test_compose_version_mismatch() {
    let mut proofs = make_chain(2);
    proofs[1].public_inputs.version = ProtocolVersion { major: 99, minor: 0, patch: 0 };
    let err = err_text(compose_chain(&proofs));
    assert!(err.contains("version mismatch"));
}

#[test]
fn domain_mismatch_is_reported_before_a_broken_chain() {
    let mut proofs = make_chain(3);
    proofs[1].public_inputs.root_init = make_hash(0xFF);
    proofs[2].public_inputs.domain = DomainTag(vsel_proof::types::Hash([0xFF; 32]));
    let err = err_text(compose_chain(&proofs));
    assert!(err.ends_with("domain mismatch: proof[0] domain differs from proof[2]"));
}

fn outer_inputs(root_init: H) -> PublicInputs {
    PublicInputs {
        root_init,
        root_final: make_hash(2),
        observables: vec![],
        domain: test_domain(),
        version: test_version(),
    }
}

fn outer_commitments() -> ProofCommitments {
    ProofCommitments {
        trace_commitment: make_hash(0x40),
        witness_commitment: make_hash(0x50),
        constraint_commitment: make_hash(0x60),
    }
}

#[test]
fn test_verify_recursive_valid() {
    let inner = make_proof(make_hash(0), make_hash(1));
    let ih = inner_hash(&inner);
    let outer = create_recursive_proof(&inner, outer_inputs(make_hash(1)), outer_commitments(), &ih)
        .expect("recursive proof creation should succeed");
    assert!(verify_recursive(&outer, &inner, &ih));
}

#[test]
fn test_verify_recursive_state_chain_mismatch() {
    let inner = make_proof(make_hash(0), make_hash(1));
    let ih = inner_hash(&inner);
    let outer = create_recursive_proof(&inner, outer_inputs(make_hash(0xFF)), outer_commitments(), &ih);
    assert!(outer.is_err());
}

#[test]
fn test_verify_recursive_no_embedding() {
    let inner = make_proof(make_hash(0), make_hash(1));
    let outer = Proof {
        commitments: outer_commitments(),
        proof_data: vec![0x00, 0x01, 0x02],
        public_inputs: outer_inputs(make_hash(1)),
        metadata: ProofMetadata {
            prover_version: "0.1.0".to_string(),
            timestamp: 0,
            domain: proof_domain(),
            proof_system: "stark-placeholder".to_string(),
        },
    };
    assert!(!verify_recursive(&outer, &inner, &inner_hash(&inner)));
}

#[test]
fn verify_recursive_accepts_a_direct_embedding() {
    let inner = make_proof(make_hash(0), make_hash(1));
    let mut data = vec![9, 9, 9];
    data.extend_from_slice(&compute_inner_embedding(&inner));
    let mut outer = make_proof(make_hash(1), make_hash(2));
    outer.proof_data = data;
    assert!(verify_recursive(&outer, &inner, &vsel_proof::types::Hash([0x77; 32])));
}

#[test]
fn test_create_recursive_proof_metadata() {
    let inner = make_proof(make_hash(0), make_hash(1));
    let ih = inner_hash(&inner);
    let outer = create_recursive_proof(&inner, outer_inputs(make_hash(1)), outer_commitments(), &ih)
        .expect("should succeed");
    assert_eq!(outer.metadata.proof_system, "stark-placeholder-recursive");
    assert!(!outer.proof_data.is_empty());
    assert_eq!(outer.proof_data.len(), 64);
    assert_eq!(&outer.proof_data[32..], &ih.0[..]);
}

#[test]
fn test_composed_commitments_differ_from_individual() {
    let proofs = make_chain(2);
    let composed = compose_chain(&proofs).expect("compose");
    for proof in &proofs {
        assert_ne!(composed.commitments.trace_commitment, proof.commitments.trace_commitment);
    }
}

#[test]
fn test_composed_commitments_order_sensitive() {
    let chain = make_chain(3);
    let c1 = compose_chain(&chain).expect("c1");
    let mut alt_chain = make_chain(3);
    alt_chain[0].commitments.trace_commitment = make_hash(0x99);
    alt_chain[0].public_inputs.root_final = alt_chain[1].public_inputs.root_init;
    let c2 = compose_chain(&alt_chain).expect("c2");
    assert_ne!(c1.commitments.trace_commitment, c2.commitments.trace_commitment);
    assert_ne!(composition_commitment_data(&chain, 0), composition_commitment_data(&alt_chain, 0));
}

#[test]
fn find_window_edges() {
    assert!(find_window(&[1, 2, 3], &[2, 3]));
    assert!(!find_window(&[1, 2], &[1, 2, 3]));
    assert!(find_window(&[1, 2, 3], &[1, 2, 3]));
    assert!(!find_window(&[1, 2, 3], &[3, 1]));
}

#[test]
fn composed_proof_data_is_one_digest() {
    let proofs = make_chain(3);
    let composed = compose_chain(&proofs).expect("composition should succeed");
    assert_eq!(composed.proof_data.len(), 32);
}
