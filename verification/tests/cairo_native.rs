use vsel_proof::cairo_native::{
    sha3_256_hex, CommandFile, NativeCairoBackendKind, NativeCairoCommandConfig,
    PinnedNativeCairoAdapter,
};
use vsel_proof::cairo_stark::{CairoProgramCommitments, CairoVerifierCertificate, CommandCairoAdapter};

type H = vsel_proof::types::Hash;

fn hash(b: u8) -> H {
    vsel_proof::types::Hash([b; 32])
}

fn file(bytes: &[u8]) -> CommandFile {
    CommandFile::Contents(bytes.to_vec())
}

fn err_text<T>(r: Result<T, vsel_proof::cairo_stark::CairoStarkError>) -> String {
    match r {
        Err(e) => e.message(),
        Ok(_) => panic!("expected an error"),
    }
}

#[test]
fn native_config_builds_adapter_id_from_pinned_command_hashes() {
    let prover_hash = sha3_256_hex(b"native prover adapter");
    let verifier_hash = sha3_256_hex(b"native verifier adapter");
    let config = NativeCairoCommandConfig {
        kind: NativeCairoBackendKind::Stone,
        version: "1.2.3".to_string(),
        prover_command: "/tmp/prover".to_string(),
        prover_sha3_256: prover_hash.clone(),
        verifier_command: "/tmp/verifier".to_string(),
        verifier_sha3_256: verifier_hash.clone(),
    };
    let pf = file(b"native prover adapter");
    let vf = file(b"native verifier adapter");
    let adapter_id = config.adapter_id(&pf, &vf).expect("valid adapter id");
    assert_eq!(adapter_id, format!("stone-1.2.3-prover-{}-verifier-{}", prover_hash, verifier_hash));
    let adapter = config.into_adapter(&pf, &vf).expect("adapter");
    assert_eq!(adapter.adapter_id(), adapter_id);
}

#[test]
fn pinned_adapter_rejects_certificate_version_or_hash_drift() {
    let adapter_id = "stone-1.2.3-prover-aa-verifier-bb".to_string();
    let verifier_binary_hash = hash(0x22);
    let adapter = PinnedNativeCairoAdapter::new(
        adapter_id.clone(),
        "1.2.3".to_string(),
        verifier_binary_hash,
        CommandCairoAdapter::new(adapter_id.clone(), None, "/tmp/unused".to_string()),
    );
    let certificate = CairoVerifierCertificate {
        adapter_id,
        verifier_version: "1.2.3".to_string(),
        verifier_binary_hash,
        backend_id: "cairo-stark/stone-1.2.3-prover-aa-verifier-bb".to_string(),
        program: CairoProgramCommitments::new(hash(1), hash(2), hash(3), hash(4), hash(0x0b)),
        cairo_trace_hash: hash(5),
        public_input_hash: hash(6),
        constraint_commitment: hash(7),
        statement_hash: hash(8),
        proof_hash: hash(9),
        transcript_hash: hash(0x0a),
        accepted: true,
    };
    adapter.validate_certificate(&certificate).expect("matching certificate pins");
    let mut wrong_version = certificate.clone();
    wrong_version.verifier_version = "1.2.4".to_string();
    assert!(adapter.validate_certificate(&wrong_version).is_err());
    let mut wrong_hash = certificate.clone();
    wrong_hash.verifier_binary_hash = hash(0x23);
    assert!(adapter.validate_certificate(&wrong_hash).is_err());
    let mut wrong_adapter = certificate;
    wrong_adapter.adapter_id = "stwo-1.2.3-prover-aa-verifier-bb".to_string();
    assert!(adapter.validate_certificate(&wrong_adapter).is_err());
}

#[test]
fn native_config_rejects_missing_command_before_adapter_construction() {
    let config = NativeCairoCommandConfig {
        kind: NativeCairoBackendKind::Stwo,
        version: "0.13.0".to_string(),
        prover_command: "/tmp/missing-prover".to_string(),
        prover_sha3_256: "00".repeat(32),
        verifier_command: "/tmp/verifier".to_string(),
        verifier_sha3_256: sha3_256_hex(b"native verifier adapter"),
    };
    let missing = CommandFile::Unavailable("No such file or directory (os error 2)".to_string());
    let err = err_text(config.into_adapter(&missing, &file(b"native verifier adapter")));
    assert!(err.contains("unavailable"), "{}", err);
}

#[test]
fn native_config_rejects_digest_mismatch() {
    let config = NativeCairoCommandConfig {
        kind: NativeCairoBackendKind::Stone,
        version: "1.2.3".to_string(),
        prover_command: "/tmp/prover".to_string(),
        prover_sha3_256: "11".repeat(32),
        verifier_command: "/tmp/verifier".to_string(),
        verifier_sha3_256: sha3_256_hex(b"native verifier adapter"),
    };
    let err = err_text(config.into_adapter(&file(b"native prover adapter"), &file(b"native verifier adapter")));
    assert!(err.contains("digest mismatch"), "{}", err);
}

#[test]
fn native_config_rejects_ambiguous_version_component() {
    let config = NativeCairoCommandConfig {
        kind: NativeCairoBackendKind::Stone,
        version: "1.2.3\naccepted=true".to_string(),
        prover_command: "/tmp/prover".to_string(),
        prover_sha3_256: sha3_256_hex(b"native prover adapter"),
        verifier_command: "/tmp/verifier".to_string(),
        verifier_sha3_256: sha3_256_hex(b"native verifier adapter"),
    };
    let err = err_text(config.into_adapter(&file(b"native prover adapter"), &file(b"native verifier adapter")));
    assert!(err.contains("outside [A-Za-z0-9._-]"), "{}", err);
}

#[test]
fn sha3_256_hex_of_empty_input() {
    assert_eq!(
        sha3_256_hex(b""),
        "a7ffc6f8bf1ed76651c14756a061d662f580ff4de43b49fa82d80a4b80f8434a"
    );
}

#[test]
fn config_from_env_reads_prefixed_variables() {
    let env: Vec<(String, String)> = vec![
        ("VSEL_STONE_CAIRO_VERSION".to_string(), "1.2.3".to_string()),
        ("VSEL_STONE_CAIRO_PROVER".to_string(), "/bin/p".to_string()),
        ("VSEL_STONE_CAIRO_PROVER_SHA3_256".to_string(), "aa".repeat(32)),
        ("VSEL_STONE_CAIRO_VERIFIER".to_string(), "/bin/v".to_string()),
        ("VSEL_STONE_CAIRO_VERIFIER_SHA3_256".to_string(), "bb".repeat(32)),
    ];
    let c = NativeCairoCommandConfig::stone_from_env(&env).expect("config");
    assert_eq!(c.version, "1.2.3");
    assert_eq!(c.prover_command, "/bin/p");
    assert_eq!(c.verifier_sha3_256, "bb".repeat(32));
    let missing = NativeCairoCommandConfig::stwo_from_env(&env);
    assert!(missing.is_err());
}
