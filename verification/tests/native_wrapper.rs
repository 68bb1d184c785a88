use vsel_proof::cairo_stark::{CairoProgramCommitments, CairoStatement};
use vsel_proof::encoding::hex_encode;
use vsel_proof::native_identity::{
    adapter_identity, build_certificate, expected_from_request, format_certificate,
    parse_verifier_hash_from_adapter_id, parse_version_from_adapter_id, require_hash_field,
    require_native_context_attestation, NativeCommandContext,
};
use vsel_proof::native_wrapper::{
    parse_hash_hex, parse_native_attestation, require_attested_hash, require_attested_value,
    validate_manifest_path, validate_semantic_binding_text, validate_source_manifest_text, Request,
};

type H = vsel_proof::types::Hash;

fn chars(s: &str) -> Vec<char> {
    s.chars().collect()
}

fn hash(b: u8) -> H {
    vsel_proof::types::Hash([b; 32])
}

fn hx(b: u8) -> String {
    hex_encode(&[b; 32])
}

fn request_text() -> String {
    format!(
        "VSEL_CAIRO_VERIFY_REQUEST_V1\nbackend_id=cairo-stark/stone-1.0-prover-x\ncairo_program_hash={}\nsierra_program_hash={}\ncasm_program_hash={}\nexecutable_program_hash={}\nsemantic_binding_hash={}\npublic_input_hash={}\nconstraint_commitment={}\n\nEND\nignored\n",
        hx(1), hx(2), hx(3), hx(4), hx(5), hx(6), hx(7)
    )
}

#[test]
fn request_parse_reads_header_and_fields() {
    let r = Request::parse(&request_text()).expect("request");
    assert_eq!(r.header, chars("VSEL_CAIRO_VERIFY_REQUEST_V1"));
    assert_eq!(r.fields.len(), 8);
    assert_eq!(r.required("backend_id").unwrap(), chars("cairo-stark/stone-1.0-prover-x"));
    assert_eq!(r.required("missing").unwrap_err(), "missing request field missing");
}

#[test]
fn request_parse_errors() {
    assert_eq!(Request::parse("").err().unwrap(), "empty VSEL Cairo request");
    assert_eq!(Request::parse("   \nEND\n").err().unwrap(), "empty VSEL Cairo request header");
    assert_eq!(Request::parse("H\na=1\n").err().unwrap(), "request missing END marker");
    assert_eq!(Request::parse("H\nnoequals\nEND\n").err().unwrap(), "malformed request line 'noequals'");
    assert_eq!(Request::parse("H\n=v\nEND\n").err().unwrap(), "malformed empty key/value in line '=v'");
    assert_eq!(Request::parse("H\na=1\na=2\nEND\n").err().unwrap(), "duplicate request field a");
    let r = Request::parse("  H \r\n  a = b=c \nEND").expect("trimmed");
    assert_eq!(r.header, chars("H"));
    assert_eq!(r.required("a ").unwrap(), chars(" b=c"));
}

#[test]
fn expected_statement_from_request() {
    let r = Request::parse(&request_text()).unwrap();
    let e = expected_from_request(&r).expect("expected");
    assert_eq!(e.backend_id, "cairo-stark/stone-1.0-prover-x");
    assert_eq!(e.program, CairoProgramCommitments::new(hash(1), hash(2), hash(3), hash(4), hash(5)));
    assert_eq!(e.public_input_hash, hash(6));
    assert_eq!(e.constraint_commitment, hash(7));
    let bad = request_text().replace(&format!("casm_program_hash={}", hx(3)), "casm_program_hash=abc");
    let r2 = Request::parse(&bad).unwrap();
    assert_eq!(expected_from_request(&r2).err().unwrap(), "hex string has odd length");
    let missing = request_text().replace("backend_id=cairo-stark/stone-1.0-prover-x\n", "");
    let r3 = Request::parse(&missing).unwrap();
    assert_eq!(expected_from_request(&r3).err().unwrap(), "missing request field backend_id");
}

#[test]
fn hash_field_mismatch_names_the_label() {
    let r = Request::parse(&request_text()).unwrap();
    assert!(require_hash_field(&r, "public_input_hash", &hash(6), "x").is_ok());
    let err = require_hash_field(&r, "public_input_hash", &hash(9), "verify request statement_hash").unwrap_err();
    assert_eq!(err, format!("verify request statement_hash mismatch: expected {}, got {}", hx(9), hx(6)));
}

#[test]
fn parse_hash_hex_errors() {
    assert_eq!(parse_hash_hex(&hx(0xab)).unwrap(), hash(0xab));
    assert_eq!(parse_hash_hex("abc").unwrap_err(), "hex string has odd length");
    assert_eq!(parse_hash_hex("zz").unwrap_err(), "invalid hex character");
    assert_eq!(parse_hash_hex("abcd").unwrap_err(), "hash hex must decode to exactly 32 bytes, got 2");
    assert_eq!(parse_hash_hex(&hx(0xAB).to_uppercase()).unwrap(), hash(0xab));
}

fn attestation(extra: &str) -> String {
    format!("noise before\nVSEL_CAIRO_NATIVE_CONTEXT_ATTESTATION_V1\nbackend_id=b\nproof_hash={}\naccepted=true\n{}END\ntrailing\n", hx(1), extra)
}

#[test]
fn attestation_parsing() {
    let f = parse_native_attestation(&attestation("")).expect("attestation");
    assert_eq!(f.len(), 3);
    assert!(require_attested_value(&f, "backend_id", "b").is_ok());
    assert_eq!(
        require_attested_value(&f, "backend_id", "c").unwrap_err(),
        "native context attestation backend_id mismatch: expected c, got b"
    );
    assert_eq!(
        require_attested_value(&f, "nope", "c").unwrap_err(),
        "native context attestation missing field nope"
    );
    assert!(require_attested_hash(&f, "proof_hash", &hash(1)).is_ok());
    assert_eq!(
        require_attested_hash(&f, "proof_hash", &hash(2)).unwrap_err(),
        format!("native context attestation proof_hash mismatch: expected {}, got {}", hx(2), hx(1))
    );
    assert_eq!(
        parse_native_attestation("no header here\n").unwrap_err(),
        "native verifier output missing VSEL_CAIRO_NATIVE_CONTEXT_ATTESTATION_V1"
    );
    assert_eq!(
        parse_native_attestation("VSEL_CAIRO_NATIVE_CONTEXT_ATTESTATION_V1\na=b\n").unwrap_err(),
        "native verifier context attestation missing END marker"
    );
    assert_eq!(
        parse_native_attestation(&attestation("backend_id=x\n")).unwrap_err(),
        "duplicate native context attestation field backend_id"
    );
}

fn manifest() -> String {
    format!(
        "VSEL_CAIRO_SOURCE_MANIFEST_V1\nsemantic_core/lib.cairo {}\n\nexecutable/main.cairo   {}\nScarb.lock {}\n",
        hx(1), hx(2), hx(3)
    )
}

#[test]
fn source_manifest_validation() {
    assert_eq!(validate_source_manifest_text(&manifest()), Ok(()));
    assert_eq!(
        validate_source_manifest_text("WRONG\n").unwrap_err(),
        "VSEL_CAIRO_PROGRAM_PATH must start with VSEL_CAIRO_SOURCE_MANIFEST_V1"
    );
    assert_eq!(
        validate_source_manifest_text("VSEL_CAIRO_SOURCE_MANIFEST_V1\n").unwrap_err(),
        "Cairo source manifest must contain at least one entry"
    );
    let no_lock = manifest().replace("Scarb.lock", "other.txt");
    assert_eq!(
        validate_source_manifest_text(&no_lock).unwrap_err(),
        "Cairo source manifest must bind Scarb.lock dependency resolution"
    );
    let malformed = format!("{}onlyone\n", manifest());
    assert_eq!(
        validate_source_manifest_text(&malformed).unwrap_err(),
        "malformed Cairo source manifest entry at line 6"
    );
    let dup = format!("{}Scarb.lock {}\n", manifest(), hx(4));
    assert_eq!(validate_source_manifest_text(&dup).unwrap_err(), "duplicate Cairo source manifest path Scarb.lock");
    let unsafe_path = format!("{}../x {}\n", manifest(), hx(4));
    assert_eq!(
        validate_source_manifest_text(&unsafe_path).unwrap_err(),
        "unsafe Cairo source manifest path '../x' at line 6"
    );
    let bad_digest = format!("{}x.cairo abc\n", manifest());
    assert_eq!(
        validate_source_manifest_text(&bad_digest).unwrap_err(),
        "invalid Cairo source manifest digest at line 6: hex string has odd length"
    );
}

#[test]
fn manifest_path_rules() {
    assert!(validate_manifest_path(&chars("a/b_c-d.e"), 3).is_ok());
    assert_eq!(
        validate_manifest_path(&chars("/abs"), 3).unwrap_err(),
        "unsafe Cairo source manifest path '/abs' at line 3"
    );
    assert_eq!(
        validate_manifest_path(&chars("a\\b"), 4).unwrap_err(),
        "unsafe Cairo source manifest path 'a\\b' at line 4"
    );
    assert_eq!(
        validate_manifest_path(&chars("a b"), 5).unwrap_err(),
        "Cairo source manifest path 'a b' at line 5 contains unsupported characters"
    );
}

fn binding() -> String {
    format!(
        "VSEL_CAIRO_SEMANTIC_BINDING_V1\nsemantic_core=semantic_core/lib.cairo {}\ncontract_wrapper=contract/w.cairo {}\nexecutable_entrypoint=executable/main.cairo {}\ncore_apply_transition=true\ncore_seal_transition=true\ncore_invariant_predicate=true\ncontract_uses_core_apply=true\ncontract_uses_core_seal=true\ncontract_uses_core_invariant=true\nexecutable_uses_core_apply=true\n",
        hx(1), hx(2), hx(3)
    )
}

#[test]
fn semantic_binding_validation() {
    assert_eq!(validate_semantic_binding_text(&binding()), Ok(()));
    let off = binding().replace("contract_uses_core_seal=true", "contract_uses_core_seal=false");
    assert_eq!(
        validate_semantic_binding_text(&off).unwrap_err(),
        "Cairo semantic binding contract_uses_core_seal must be true"
    );
    let missing = binding().replace("core_apply_transition=true\n", "");
    assert_eq!(
        validate_semantic_binding_text(&missing).unwrap_err(),
        "Cairo semantic binding missing field core_apply_transition"
    );
    let one_word = binding().replace(&format!("contract/w.cairo {}", hx(2)), "contract/w.cairo");
    assert_eq!(
        validate_semantic_binding_text(&one_word).unwrap_err(),
        "Cairo semantic binding field contract_wrapper must contain '<path> <sha3-256>'"
    );
    let malformed = format!("{}junk\n", binding());
    assert_eq!(
        validate_semantic_binding_text(&malformed).unwrap_err(),
        "malformed Cairo semantic binding entry at line 12"
    );
    assert_eq!(
        validate_semantic_binding_text("nope").unwrap_err(),
        "VSEL_CAIRO_SEMANTIC_BINDING_PATH must start with VSEL_CAIRO_SEMANTIC_BINDING_V1"
    );
}

#[test]
fn adapter_id_versions_and_hashes() {
    assert_eq!(parse_version_from_adapter_id(&chars("stone-1.2.3-prover-aa")), Some(chars("1.2.3")));
    assert_eq!(parse_version_from_adapter_id(&chars("stwo-0.13-prover-")), Some(chars("0.13")));
    assert_eq!(parse_version_from_adapter_id(&chars("stone--prover-x")), None);
    assert_eq!(parse_version_from_adapter_id(&chars("other-1-prover-x")), None);
    let id = format!("stone-1-prover-aa-verifier-{}", hx(0xcd));
    assert_eq!(parse_verifier_hash_from_adapter_id(&chars(&id)).unwrap(), Some(hash(0xcd)));
    assert_eq!(parse_verifier_hash_from_adapter_id(&chars("stone-1")).unwrap(), None);
    assert_eq!(
        parse_verifier_hash_from_adapter_id(&chars("x-verifier-abc")).unwrap_err(),
        "verifier hash in adapter id must be a 64-character SHA3-256 hex digest: abc"
    );
}

#[test]
fn adapter_identity_rules() {
    let backend = format!("cairo-stark/stone-1.2-prover-aa-verifier-{}", hx(0x11));
    let id = adapter_identity(&backend, None, None).expect("identity");
    assert_eq!(id.verifier_version, chars("1.2"));
    assert_eq!(id.verifier_binary_hash, hash(0x11));
    assert_eq!(
        adapter_identity("stone-1", None, None).err().unwrap(),
        "backend_id 'stone-1' must use concrete cairo-stark/<adapter-id>"
    );
    assert_eq!(adapter_identity("cairo-stark/", None, None).err().unwrap(), "adapter id must not be empty");
    assert_eq!(
        adapter_identity(&backend, Some("9.9"), None).err().unwrap(),
        "VSEL_CAIRO_NATIVE_VERIFIER_VERSION '9.9' does not match adapter id version '1.2'"
    );
    assert_eq!(
        adapter_identity(&backend, None, Some(&hx(0x12))).err().unwrap(),
        "VSEL_CAIRO_ADAPTER_VERIFIER_SHA3_256 does not match verifier hash encoded in adapter id"
    );
    assert_eq!(
        adapter_identity("cairo-stark/custom", None, None).err().unwrap(),
        "cannot derive verifier version from adapter id custom; set VSEL_CAIRO_NATIVE_VERIFIER_VERSION"
    );
    assert_eq!(
        adapter_identity("cairo-stark/custom", Some("1"), None).err().unwrap(),
        "cannot derive verifier binary hash from adapter id custom; set VSEL_CAIRO_ADAPTER_VERIFIER_SHA3_256"
    );
    let configured = adapter_identity("cairo-stark/custom", Some("1"), Some(&hx(0x13))).unwrap();
    assert_eq!(configured.verifier_binary_hash, hash(0x13));
}

fn statement(backend: &str) -> CairoStatement {
    CairoStatement {
        backend_id: backend.to_string(),
        program: CairoProgramCommitments::new(hash(1), hash(2), hash(3), hash(4), hash(5)),
        cairo_trace_hash: hash(6),
        public_input_hash: hash(7),
        constraint_commitment: hash(8),
    }
}

#[test]
fn certificate_building_and_text() {
    let backend = format!("cairo-stark/stone-1.2-prover-aa-verifier-{}", hx(0x11));
    let st = statement(&backend);
    let ctx = NativeCommandContext { verify_command: "verify".to_string(), workdir: None };
    let cert = build_certificate(&st, &hash(0x21), &hash(0x22), b"proof", &ctx, None, None).expect("certificate");
    assert_eq!(cert.adapter_id, format!("stone-1.2-prover-aa-verifier-{}", hx(0x11)));
    assert_eq!(cert.verifier_version, "1.2");
    assert!(cert.accepted);
    let text = format_certificate(&cert);
    assert!(text.starts_with("VSEL_CAIRO_VERIFIER_CERTIFICATE_V1\nadapter_id=stone-1.2"));
    assert!(text.ends_with("\naccepted=true\n"));
    let parsed = vsel_proof::cairo_stark::parse_certificate(&text).expect("parses back");
    assert_eq!(parsed, cert);
    let ctx2 = NativeCommandContext { verify_command: "verify".to_string(), workdir: Some("/w".to_string()) };
    let cert2 = build_certificate(&st, &hash(0x21), &hash(0x22), b"proof", &ctx2, None, None).unwrap();
    assert_ne!(cert.transcript_hash, cert2.transcript_hash);
}

#[test]
fn context_attestation_requires_every_statement_field() {
    let st = statement("cairo-stark/x");
    let sh = st.hash();
    let stdout = format!(
        "VSEL_CAIRO_NATIVE_CONTEXT_ATTESTATION_V1\nbackend_id=cairo-stark/x\ncairo_program_hash={}\nsierra_program_hash={}\ncasm_program_hash={}\nexecutable_program_hash={}\nsemantic_binding_hash={}\ncairo_trace_hash={}\npublic_input_hash={}\nconstraint_commitment={}\nstatement_hash={}\nproof_hash={}\naccepted=true\nEND\n",
        hx(1), hx(2), hx(3), hx(4), hx(5), hx(6), hx(7), hx(8), hex_encode(&sh.0), hx(9)
    );
    assert_eq!(require_native_context_attestation(&stdout, &st, &hash(9)), Ok(()));
    let not_accepted = stdout.replace("accepted=true", "accepted=false");
    assert_eq!(
        require_native_context_attestation(&not_accepted, &st, &hash(9)).unwrap_err(),
        "native context attestation accepted mismatch: expected true, got false"
    );
    assert!(require_native_context_attestation(&stdout, &st, &hash(10)).is_err());
}

#[test]
fn built_certificate_binds_its_statement() {
    let backend = format!("cairo-stark/stone-1.2-prover-aa-verifier-{}", hx(0x11));
    let st = statement(&backend);
    let ctx = NativeCommandContext { verify_command: "verify".to_string(), workdir: None };
    let cert = build_certificate(&st, &hash(0x21), &hash(0x22), b"proof", &ctx, None, None).expect("certificate");
    assert!(cert.validate_for_statement(&st, &hash(0x21), &hash(0x22)));
    assert!(!cert.validate_for_statement(&st, &hash(0x23), &hash(0x22)));
}
