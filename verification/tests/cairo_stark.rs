use sha3::{Digest, Sha3_256};
use vsel_proof::cairo_stark::{
    parse_certificate, prover_reply_outcome, verifier_reply_accepts, CairoProgramCommitments, CairoProofAdapter, CairoProveRequest,
    CairoStarkBackend, CairoStarkError, CairoStarkProof, CairoStatement, CairoVerifierCertificate,
    CairoVerifyRequest,
};
use vsel_proof::encoding::hex_encode;
use vsel_proof::public_inputs::PublicInputs;
use vsel_proof::types::{
    DomainTag, Observable, OutputEvent, ProtocolVersion, TransitionClass, TransitionStatus,
};

type H = vsel_proof::types::Hash;

fn update_string(h: &mut Sha3_256, s: &str) {
    h.update((s.len() as u64).to_le_bytes());
    h.update(s.as_bytes());
}

fn finalize(h: Sha3_256) -> H {
    vsel_proof::types::Hash(h.finalize().into())
}

fn hash_domain_bytes(domain: &[u8], data: &[u8]) -> H {
    let mut h = Sha3_256::new();
    h.update(domain);
    h.update((data.len() as u64).to_le_bytes());
    h.update(data);
    finalize(h)
}

#[derive(Clone)]
struct DeterministicTestAdapter;

impl DeterministicTestAdapter {
    fn make_certificate(&self, statement: &CairoStatement, statement_hash: &H, proof_hash: &H) -> CairoVerifierCertificate {
        let verifier_binary_hash = hash_domain_bytes(b"vsel-cairo-test-verifier-binary-v1", b"deterministic-test");
        let mut hasher = Sha3_256::new();
        hasher.update(b"vsel-cairo-test-certificate-v1");
        update_string(&mut hasher, "deterministic-test");
        update_string(&mut hasher, "deterministic-test/1");
        hasher.update(verifier_binary_hash.0);
        update_string(&mut hasher, &statement.backend_id);
        hasher.update(statement.program.cairo_program_hash.0);
        hasher.update(statement.program.sierra_program_hash.0);
        hasher.update(statement.program.casm_program_hash.0);
        hasher.update(statement.program.executable_program_hash.0);
        hasher.update(statement.program.semantic_binding_hash.0);
        hasher.update(statement.cairo_trace_hash.0);
        hasher.update(statement.public_input_hash.0);
        hasher.update(statement.constraint_commitment.0);
        hasher.update(statement_hash.0);
        hasher.update(proof_hash.0);
        CairoVerifierCertificate {
            adapter_id: "deterministic-test".to_string(),
            verifier_version: "deterministic-test/1".to_string(),
            verifier_binary_hash,
            backend_id: statement.backend_id.clone(),
            program: statement.program.clone(),
            cairo_trace_hash: statement.cairo_trace_hash,
            public_input_hash: statement.public_input_hash,
            constraint_commitment: statement.constraint_commitment,
            statement_hash: *statement_hash,
            proof_hash: *proof_hash,
            transcript_hash: finalize(hasher),
            accepted: true,
        }
    }
}

impl CairoProofAdapter for DeterministicTestAdapter {
    fn adapter_id(&self) -> &str {
        "deterministic-test"
    }

    fn prove(&self, request: &CairoProveRequest) -> Result<CairoStarkProof, CairoStarkError> {
        let mut trace_hasher = Sha3_256::new();
        trace_hasher.update(b"vsel-cairo-test-trace-v1");
        trace_hasher.update(request.expected.public_input_hash.0);
        trace_hasher.update(request.expected.constraint_commitment.0);
        let cairo_trace_hash = finalize(trace_hasher);
        let statement = CairoStatement::from_expected(&request.expected, cairo_trace_hash);
        let statement_hash = statement.hash();
        let mut proof_hasher = Sha3_256::new();
        proof_hasher.update(b"vsel-cairo-test-proof-v1");
        proof_hasher.update(statement_hash.0);
        proof_hasher.update(request.witness_commitment.0);
        let proof_bytes = proof_hasher.finalize().to_vec();
        let proof_hash = hash_domain_bytes(b"vsel-cairo-proof-bytes-v1", &proof_bytes);
        let certificate = self.make_certificate(&statement, &statement_hash, &proof_hash);
        CairoStarkProof::new(
            request.expected.backend_id.clone(),
            request.expected.program.clone(),
            cairo_trace_hash,
            request.expected.public_input_hash,
            request.expected.constraint_commitment,
            proof_bytes,
            certificate,
        )
    }

    fn verify(&self, request: &CairoVerifyRequest) -> Result<CairoVerifierCertificate, CairoStarkError> {
        request.proof.validate_against(&request.expected)?;
        let statement = CairoStatement {
            backend_id: request.proof.backend_id.clone(),
            program: request.proof.program.clone(),
            cairo_trace_hash: request.proof.cairo_trace_hash,
            public_input_hash: request.proof.public_input_hash,
            constraint_commitment: request.proof.constraint_commitment,
        };
        Ok(self.make_certificate(&statement, &request.proof.statement_hash, &request.proof.proof_hash))
    }
}

fn hash(byte: u8) -> H {
    vsel_proof::types::Hash([byte; 32])
}

fn program() -> CairoProgramCommitments {
    CairoProgramCommitments::new(hash(1), hash(2), hash(3), hash(4), hash(5))
}

fn public_inputs() -> PublicInputs {
    PublicInputs {
        root_init: hash(4),
        root_final: hash(5),
        observables: vec![Observable {
            transition_class: TransitionClass::Update,
            outputs: vec![OutputEvent { event_type: "balance_change".to_string(), data: vec![7, 8, 9] }],
            gas_used: 21_000,
            status: TransitionStatus::Success,
        }],
        domain: DomainTag(hash(6)),
        version: ProtocolVersion { major: 0, minor: 0, patch: 0 },
    }
}

fn constraint_commitment() -> H {
    hash(0x31)
}

fn prove(backend: &CairoStarkBackend<DeterministicTestAdapter>) -> CairoStarkProof {
    backend.prove_statement(&public_inputs(), hash(0x21), constraint_commitment()).expect("adapter-backed proof")
}

fn hex_hash(h: &H) -> String {
    hex_encode(&h.0)
}

#[test]
fn cairo_backend_round_trip_accepts_adapter_verified_artifact() {
    let backend = CairoStarkBackend::new(program(), DeterministicTestAdapter);
    let proof = prove(&backend);
    assert_eq!(backend.backend_id(), "cairo-stark/deterministic-test");
    assert!(backend.verify(&proof, &public_inputs(), &constraint_commitment()));
}

#[test]
fn cairo_proof_serialization_is_canonical() {
    let backend = CairoStarkBackend::new(program(), DeterministicTestAdapter);
    let proof = prove(&backend);
    let encoded = backend.serialize_proof(&proof);
    let decoded = backend.deserialize_proof(&encoded).expect("decode");
    assert_eq!(proof, decoded);
    assert_eq!(decoded.as_ref(), encoded.as_slice());
}

#[test]
fn cairo_backend_rejects_wrong_public_inputs() {
    let backend = CairoStarkBackend::new(program(), DeterministicTestAdapter);
    let proof = prove(&backend);
    let mut mutated = public_inputs();
    mutated.observables[0].gas_used += 1;
    assert!(!backend.verify(&proof, &mutated, &constraint_commitment()));
}

#[test]
fn cairo_backend_rejects_wrong_constraint_commitment() {
    let backend = CairoStarkBackend::new(program(), DeterministicTestAdapter);
    let proof = prove(&backend);
    assert!(!backend.verify(&proof, &public_inputs(), &hash(99)));
}

#[test]
fn cairo_certificate_must_bind_all_explicit_artifact_fields() {
    let backend = CairoStarkBackend::new(program(), DeterministicTestAdapter);
    let proof = prove(&backend);
    assert!(proof.validate_static().is_ok());

    let mut p = proof.clone();
    p.verifier_certificate.program.cairo_program_hash = hash(0xaa);
    assert!(p.validate_static().is_err());
    let mut p = proof.clone();
    p.verifier_certificate.program.executable_program_hash = hash(0xab);
    assert!(p.validate_static().is_err());
    let mut p = proof.clone();
    p.verifier_certificate.program.semantic_binding_hash = hash(0xac);
    assert!(p.validate_static().is_err());
    let mut p = proof.clone();
    p.verifier_certificate.cairo_trace_hash = hash(0xbb);
    assert!(p.validate_static().is_err());
    let mut p = proof.clone();
    p.verifier_certificate.public_input_hash = hash(0xcc);
    assert!(p.validate_static().is_err());
    let mut p = proof.clone();
    p.verifier_certificate.constraint_commitment = hash(0xdd);
    assert!(p.validate_static().is_err());
    let mut p = proof.clone();
    p.verifier_certificate.verifier_binary_hash = vsel_proof::types::Hash([0u8; 32]);
    assert!(p.validate_static().is_err());
}

#[test]
fn cairo_certificate_parser_requires_complete_v1_fields() {
    let backend = CairoStarkBackend::new(program(), DeterministicTestAdapter);
    let proof = prove(&backend);
    let cert = &proof.verifier_certificate;
    let text = format!(
        "VSEL_CAIRO_VERIFIER_CERTIFICATE_V1\nadapter_id={}\nverifier_version={}\nverifier_binary_hash={}\nbackend_id={}\ncairo_program_hash={}\nsierra_program_hash={}\ncasm_program_hash={}\nexecutable_program_hash={}\nsemantic_binding_hash={}\ncairo_trace_hash={}\npublic_input_hash={}\nconstraint_commitment={}\nstatement_hash={}\nproof_hash={}\ntranscript_hash={}\naccepted=true\n",
        cert.adapter_id,
        cert.verifier_version,
        hex_hash(&cert.verifier_binary_hash),
        cert.backend_id,
        hex_hash(&cert.program.cairo_program_hash),
        hex_hash(&cert.program.sierra_program_hash),
        hex_hash(&cert.program.casm_program_hash),
        hex_hash(&cert.program.executable_program_hash),
        hex_hash(&cert.program.semantic_binding_hash),
        hex_hash(&cert.cairo_trace_hash),
        hex_hash(&cert.public_input_hash),
        hex_hash(&cert.constraint_commitment),
        hex_hash(&cert.statement_hash),
        hex_hash(&cert.proof_hash),
        hex_hash(&cert.transcript_hash),
    );
    assert_eq!(parse_certificate(&text).expect("certificate"), *cert);
    assert_eq!(vsel_proof::native_identity::format_certificate(cert), text);

    let missing_verifier_hash = text
        .lines()
        .filter(|line| !line.starts_with("verifier_binary_hash="))
        .collect::<Vec<_>>()
        .join("\n");
    assert!(parse_certificate(&missing_verifier_hash).is_err());

    let invalid_accepted = text.replace("accepted=true", "accepted=yes");
    assert!(parse_certificate(&invalid_accepted).is_err());
}

#[test]
fn cairo_deserializer_rejects_legacy_text_envelope() {
    let legacy = b"VSEL-CAIRO-STARK-V1\ncairo_program_hash=aaaaaaaaaaaaaaaaaaaaaaaaaaaaaaaaaaaaaaaaaaaaaaaaaaaaaaaaaaaaaaaa\n";
    assert!(CairoStarkProof::from_bytes(legacy).is_err());
}

#[test]
fn cairo_static_validation_rejects_bare_backend_id() {
    let backend = CairoStarkBackend::new(program(), DeterministicTestAdapter);
    let mut proof = prove(&backend);
    proof.backend_id = "cairo-stark".to_string();
    assert!(proof.validate_static().is_err());
}

#[test]
fn cairo_statement_hash_matches_its_preimage() {
    let st = CairoStatement {
        backend_id: "cairo-stark/x".to_string(),
        program: program(),
        cairo_trace_hash: hash(7),
        public_input_hash: hash(8),
        constraint_commitment: hash(9),
    };
    let mut h = Sha3_256::new();
    h.update(b"vsel-cairo-statement-v1");
    update_string(&mut h, "cairo-stark/x");
    for b in [1u8, 2, 3, 4, 5, 7, 8, 9] {
        h.update([b; 32]);
    }
    assert_eq!(st.hash(), finalize(h));
}

#[test]
fn certificate_parser_names_the_first_unreadable_field() {
    let detail = |text: &str| match parse_certificate(text) {
        Err(CairoStarkError::VerificationFailed(m)) => format!("verification: {}", m),
        Err(CairoStarkError::DeserializationFailed(m)) => format!("deserialization: {}", m),
        Err(other) => panic!("unexpected error {:?}", other),
        Ok(_) => panic!("expected an error"),
    };
    assert_eq!(detail(""), "verification: missing Cairo verifier certificate header");
    let header = "VSEL_CAIRO_VERIFIER_CERTIFICATE_V1\n";
    assert_eq!(detail(header), "verification: missing field adapter_id=");
    let ids = format!("{}adapter_id=a\nverifier_version=1\n", header);
    assert_eq!(detail(&format!("{}verifier_binary_hash=abc\n", ids)), "deserialization: hex string has odd length");
    assert_eq!(detail(&format!("{}verifier_binary_hash=zz\n", ids)), "deserialization: invalid hex character");
    assert_eq!(
        detail(&format!("{}verifier_binary_hash=0011\n", ids)),
        "verification: field verifier_binary_hash= must be 32 bytes"
    );
    let h = "11".repeat(32);
    let mut full = format!("{}verifier_binary_hash={}\nbackend_id=cairo-stark/a\n", ids, h);
    for key in [
        "cairo_program_hash",
        "sierra_program_hash",
        "casm_program_hash",
        "executable_program_hash",
        "semantic_binding_hash",
        "cairo_trace_hash",
        "public_input_hash",
        "constraint_commitment",
        "statement_hash",
        "proof_hash",
        "transcript_hash",
    ] {
        full.push_str(&format!("{}={}\n", key, h));
    }
    assert_eq!(detail(&format!("{}accepted=yes\n", full)), "verification: field accepted= must be true or false, got yes");
    assert!(parse_certificate(&format!("{}accepted=true\n", full)).is_ok());
}

#[test]
fn cairo_decoder_reports_the_first_failure() {
    let detail = |bytes: &[u8]| match CairoStarkProof::from_bytes(bytes) {
        Err(CairoStarkError::DeserializationFailed(m)) => format!("deserialization: {}", m),
        Err(CairoStarkError::VerificationFailed(m)) => format!("verification: {}", m),
        Err(other) => panic!("unexpected error {:?}", other),
        Ok(_) => panic!("expected an error"),
    };
    assert_eq!(detail(b"VCA"), "deserialization: truncated Cairo proof at byte 0; need 4, have 3");
    assert_eq!(detail(b"VCAX\x01"), "deserialization: invalid magic bytes: expected VCAI");
    assert_eq!(detail(b"VCAI"), "deserialization: truncated Cairo proof at byte 4; need 1, have 0");
    assert_eq!(detail(b"VCAI\x02"), "deserialization: unsupported Cairo proof version: 2");
    assert_eq!(detail(b"VCAI\x01"), "deserialization: truncated Cairo proof at byte 5; need 4, have 0");
    assert_eq!(detail(b"VCAI\x01\x00\x00\x00\x00"), "deserialization: empty string field");
    assert_eq!(detail(b"VCAI\x01\x05\x00\x00\x00ab"), "deserialization: truncated Cairo proof at byte 9; need 5, have 2");
    assert!(detail(b"VCAI\x01\x01\x00\x00\x00\xff").starts_with("deserialization: invalid UTF-8: "));

    let backend = CairoStarkBackend::new(program(), DeterministicTestAdapter);
    let proof = prove(&backend);
    let mut trailing = proof.to_bytes();
    trailing.push(0);
    assert_eq!(detail(&trailing), "deserialization: trailing bytes after Cairo proof decode");

    let mut bare = proof.clone();
    bare.backend_id = "cairo-stark".to_string();
    assert_eq!(
        detail(&bare.to_bytes()),
        "verification: Cairo backend id 'cairo-stark' must be concrete cairo-stark/<adapter>"
    );

    let mut flagged = proof.to_bytes();
    let last = flagged.len() - 1;
    flagged[last] = 2;
    assert_eq!(detail(&flagged), "verification: verifier certificate is not bound to all artifact fields");
}

#[test]
fn prover_reply_outcome_passes_errors_and_checks_artifacts() {
    let backend = CairoStarkBackend::new(program(), DeterministicTestAdapter);
    let proof = prove(&backend);
    let expected = backend.expected_statement(&public_inputs(), constraint_commitment());

    let failed = prover_reply_outcome(
        &expected,
        Err(CairoStarkError::CommandFailed("prover exited".to_string())),
    );
    assert_eq!(err_message(failed), "cairo-stark: command adapter failed: prover exited");

    let accepted = prover_reply_outcome(&expected, Ok(proof.clone())).expect("artifact answers the statement");
    assert_eq!(accepted, proof);

    let other = backend.expected_statement(&public_inputs(), hash(99));
    let rejected = prover_reply_outcome(&other, Ok(proof));
    assert_eq!(err_message(rejected), "cairo-stark: verification failed: constraint commitment mismatch");
}

#[test]
fn verifier_reply_accepts_only_the_carried_certificate() {
    let backend = CairoStarkBackend::new(program(), DeterministicTestAdapter);
    let proof = prove(&backend);

    assert!(verifier_reply_accepts(&proof, &Ok(proof.verifier_certificate.clone())));
    assert!(!verifier_reply_accepts(
        &proof,
        &Err(CairoStarkError::CommandFailed("verifier exited".to_string())),
    ));

    let mut drifted = proof.verifier_certificate.clone();
    drifted.transcript_hash = hash(0x77);
    assert!(!verifier_reply_accepts(&proof, &Ok(drifted)));

    let mut refused = proof.verifier_certificate.clone();
    refused.accepted = false;
    let mut p = proof.clone();
    p.verifier_certificate = refused.clone();
    assert!(!verifier_reply_accepts(&p, &Ok(refused)));
}

fn err_message<T>(r: Result<T, CairoStarkError>) -> String {
    match r {
        Err(e) => e.message(),
        Ok(_) => panic!("expected an error"),
    }
}
