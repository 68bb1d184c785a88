//! Cairo/STARK proof artifacts: the statement a Cairo proof is bound to,
//! the verifier certificate, the canonical `VCAI` v1 encoding, and the
//! static validation that every accepted artifact must pass.

use vstd::prelude::*;
use vstd::utf8::*;

use crate::codec::{append_bytes, append_var_field, read_exact as read_chunk, var_field};
use crate::encoding::{
    hex_decode_bytes, hex_decode_spec, hex_encode, hex_encode_spec, hex_nibble_spec,
    hex_nibble_value, push_u32_le, push_u64_le, sha3_256, sha3_256_spec, u32_le, u64_le,
};
use crate::public_inputs::{PublicInputs, PublicInputsModel};
use crate::text::{
    chars_equal, concat2, concat3, decimal, decimal_spec, find_field, find_prefixed, has_line,
    has_prefix, lines_spec, owned, push_str, split_lines, str_chars, str_starts_with,
    string_from_utf8, utf8_bytes,
};
use crate::types::{
    observables_view, transition_class_tag, transition_class_tag_spec, transition_status_tag,
    transition_status_tag_spec, zero_hash_bytes, Observable, ObservableModel,
};

verus! {

// ---------------------------------------------------------------------------
// Errors
// ---------------------------------------------------------------------------

/// Failure of a Cairo/STARK operation.
#[derive(Debug)]
pub enum CairoStarkError {
    ProofGenerationFailed(String),
    VerificationFailed(String),
    DeserializationFailed(String),
    CommandFailed(String),
}

/// Abstract value of an error: its kind and detail text.
pub enum CairoStarkErrorModel {
    ProofGenerationFailed(Seq<char>),
    VerificationFailed(Seq<char>),
    DeserializationFailed(Seq<char>),
    CommandFailed(Seq<char>),
}

impl View for CairoStarkError {
    type V = CairoStarkErrorModel;

    open spec fn view(&self) -> CairoStarkErrorModel {
        match self {
            CairoStarkError::ProofGenerationFailed(s) => CairoStarkErrorModel::ProofGenerationFailed(
                s@,
            ),
            CairoStarkError::VerificationFailed(s) => CairoStarkErrorModel::VerificationFailed(s@),
            CairoStarkError::DeserializationFailed(s) => CairoStarkErrorModel::DeserializationFailed(
                s@,
            ),
            CairoStarkError::CommandFailed(s) => CairoStarkErrorModel::CommandFailed(s@),
        }
    }
}

/// Display text of an error.
pub open spec fn cairo_error_text(e: CairoStarkErrorModel) -> Seq<char> {
    match e {
        CairoStarkErrorModel::ProofGenerationFailed(s) => "cairo-stark: proof generation failed: "@
            + s,
        CairoStarkErrorModel::VerificationFailed(s) => "cairo-stark: verification failed: "@ + s,
        CairoStarkErrorModel::DeserializationFailed(s) => "cairo-stark: deserialization failed: "@
            + s,
        CairoStarkErrorModel::CommandFailed(s) => "cairo-stark: command adapter failed: "@ + s,
    }
}

impl CairoStarkError {
    /// The error's display text.
    pub fn message(&self) -> (m: String)
        ensures
            m@ == cairo_error_text(self@),
    {
        match self {
            CairoStarkError::ProofGenerationFailed(s) => concat2("cairo-stark: proof generation failed: ", s.as_str()),
            CairoStarkError::VerificationFailed(s) => concat2("cairo-stark: verification failed: ", s.as_str()),
            CairoStarkError::DeserializationFailed(s) => concat2("cairo-stark: deserialization failed: ", s.as_str()),
            CairoStarkError::CommandFailed(s) => concat2("cairo-stark: command adapter failed: ", s.as_str()),
        }
    }
}

pub(crate) fn verification_failed(msg: &str) -> (e: CairoStarkError)
    ensures
        e@ == CairoStarkErrorModel::VerificationFailed(msg@),
{
    CairoStarkError::VerificationFailed(owned(msg))
}

pub(crate) fn deserialization_failed(msg: &str) -> (e: CairoStarkError)
    ensures
        e@ == CairoStarkErrorModel::DeserializationFailed(msg@),
{
    CairoStarkError::DeserializationFailed(owned(msg))
}

// ---------------------------------------------------------------------------
// Hashing helpers
// ---------------------------------------------------------------------------

/// Bytes of a string as it enters a hash: its UTF-8 length as a
/// little-endian `u64`, then its UTF-8 bytes.
pub open spec fn hashed_str(s: Seq<char>) -> Seq<u8> {
    u64_le(utf8_bytes(s).len() as u64) + utf8_bytes(s)
}

/// Domain-separated digest of a byte string: SHA3-256 of the domain, the
/// data length as a little-endian `u64`, and the data.
pub open spec fn domain_hash_spec(domain: Seq<u8>, data: Seq<u8>) -> Seq<u8> {
    sha3_256_spec(domain + u64_le(data.len() as u64) + data)
}

pub(crate) fn append_hashed_str(buf: &mut Vec<u8>, s: &str)
    ensures
        final(buf)@ == old(buf)@ + hashed_str(s@),
{
    let b = s.as_bytes();
    push_u64_le(buf, b.len() as u64);
    append_bytes(buf, b);
    assert(final(buf)@ =~= old(buf)@ + hashed_str(s@));
}

pub(crate) fn hash_domain_bytes(domain: &[u8], data: &[u8]) -> (h: crate::types::Hash)
    ensures
        h@ == domain_hash_spec(domain@, data@),
{
    let mut buf: Vec<u8> = Vec::new();
    append_bytes(&mut buf, domain);
    push_u64_le(&mut buf, data.len() as u64);
    append_bytes(&mut buf, data);
    assert(buf@ =~= domain@ + u64_le(data.len() as u64) + data@);
    crate::types::Hash(sha3_256(buf.as_slice()))
}

// ---------------------------------------------------------------------------
// Program commitments
// ---------------------------------------------------------------------------

/// Commitments to the Cairo program in each of its compiled forms, and to
/// the binding between the program and the protocol semantics.
#[derive(Clone, Debug, PartialEq, Eq)]
pub struct CairoProgramCommitments {
    pub cairo_program_hash: crate::types::Hash,
    pub sierra_program_hash: crate::types::Hash,
    pub casm_program_hash: crate::types::Hash,
    pub executable_program_hash: crate::types::Hash,
    pub semantic_binding_hash: crate::types::Hash,
}

/// Abstract value of program commitments.
pub struct ProgramModel {
    pub cairo: Seq<u8>,
    pub sierra: Seq<u8>,
    pub casm: Seq<u8>,
    pub executable: Seq<u8>,
    pub semantic_binding: Seq<u8>,
}

impl View for CairoProgramCommitments {
    type V = ProgramModel;

    open spec fn view(&self) -> ProgramModel {
        ProgramModel {
            cairo: self.cairo_program_hash@,
            sierra: self.sierra_program_hash@,
            casm: self.casm_program_hash@,
            executable: self.executable_program_hash@,
            semantic_binding: self.semantic_binding_hash@,
        }
    }
}

/// The five program commitments, concatenated in field order.
pub open spec fn program_bytes(p: ProgramModel) -> Seq<u8> {
    p.cairo + p.sierra + p.casm + p.executable + p.semantic_binding
}

/// Detail text of a zero-commitment error.
pub open spec fn nonzero_message(name: Seq<char>) -> Seq<char> {
    name + " must be non-zero"@
}

/// The first zero program commitment, as the error detail that names it.
pub open spec fn program_zero_error(p: ProgramModel) -> Option<Seq<char>> {
    if p.cairo == zero_hash_bytes() {
        Some(nonzero_message("cairo_program_hash"@))
    } else if p.sierra == zero_hash_bytes() {
        Some(nonzero_message("sierra_program_hash"@))
    } else if p.casm == zero_hash_bytes() {
        Some(nonzero_message("casm_program_hash"@))
    } else if p.executable == zero_hash_bytes() {
        Some(nonzero_message("executable_program_hash"@))
    } else if p.semantic_binding == zero_hash_bytes() {
        Some(nonzero_message("semantic_binding_hash"@))
    } else {
        None
    }
}

fn nonzero_error(name: &str) -> (e: CairoStarkError)
    ensures
        e@ == CairoStarkErrorModel::VerificationFailed(nonzero_message(name@)),
{
    CairoStarkError::VerificationFailed(concat2(name, " must be non-zero"))
}

impl CairoProgramCommitments {
    pub fn new(
        cairo_program_hash: crate::types::Hash,
        sierra_program_hash: crate::types::Hash,
        casm_program_hash: crate::types::Hash,
        executable_program_hash: crate::types::Hash,
        semantic_binding_hash: crate::types::Hash,
    ) -> (p: CairoProgramCommitments)
        ensures
            p == (CairoProgramCommitments {
                cairo_program_hash,
                sierra_program_hash,
                casm_program_hash,
                executable_program_hash,
                semantic_binding_hash,
            }),
    {
        CairoProgramCommitments {
            cairo_program_hash,
            sierra_program_hash,
            casm_program_hash,
            executable_program_hash,
            semantic_binding_hash,
        }
    }

    /// Whether the two hold the same commitments.
    pub fn same_as(&self, other: &CairoProgramCommitments) -> (b: bool)
        ensures
            b == (self@ == other@),
    {
        self.cairo_program_hash.eq_hash(&other.cairo_program_hash)
            && self.sierra_program_hash.eq_hash(&other.sierra_program_hash)
            && self.casm_program_hash.eq_hash(&other.casm_program_hash)
            && self.executable_program_hash.eq_hash(&other.executable_program_hash)
            && self.semantic_binding_hash.eq_hash(&other.semantic_binding_hash)
    }

    /// Rejects a zero commitment, naming the first one.
    pub fn validate_nonzero(&self) -> (r: Result<(), CairoStarkError>)
        ensures
            r is Ok <==> program_zero_error(self@) is None,
            r matches Err(e) ==> e@ == CairoStarkErrorModel::VerificationFailed(
                program_zero_error(self@)->0,
            ),
    {
        if self.cairo_program_hash.is_zero() {
            return Err(nonzero_error("cairo_program_hash"));
        }
        if self.sierra_program_hash.is_zero() {
            return Err(nonzero_error("sierra_program_hash"));
        }
        if self.casm_program_hash.is_zero() {
            return Err(nonzero_error("casm_program_hash"));
        }
        if self.executable_program_hash.is_zero() {
            return Err(nonzero_error("executable_program_hash"));
        }
        if self.semantic_binding_hash.is_zero() {
            return Err(nonzero_error("semantic_binding_hash"));
        }
        Ok(())
    }

    /// A copy of the commitments.
    pub fn duplicate(&self) -> (r: CairoProgramCommitments)
        ensures
            r == *self,
    {
        CairoProgramCommitments {
            cairo_program_hash: self.cairo_program_hash,
            sierra_program_hash: self.sierra_program_hash,
            casm_program_hash: self.casm_program_hash,
            executable_program_hash: self.executable_program_hash,
            semantic_binding_hash: self.semantic_binding_hash,
        }
    }

    fn append_to(&self, buf: &mut Vec<u8>)
        ensures
            final(buf)@ == old(buf)@ + program_bytes(self@),
    {
        append_bytes(buf, self.cairo_program_hash.0.as_slice());
        append_bytes(buf, self.sierra_program_hash.0.as_slice());
        append_bytes(buf, self.casm_program_hash.0.as_slice());
        append_bytes(buf, self.executable_program_hash.0.as_slice());
        append_bytes(buf, self.semantic_binding_hash.0.as_slice());
        assert(final(buf)@ =~= old(buf)@ + program_bytes(self@));
    }
}

// ---------------------------------------------------------------------------
// Statements
// ---------------------------------------------------------------------------

/// What a Cairo proof must be bound to before the Cairo trace is known.
#[derive(Clone, Debug, PartialEq, Eq)]
pub struct CairoExpectedStatement {
    pub backend_id: String,
    pub program: CairoProgramCommitments,
    pub public_input_hash: crate::types::Hash,
    pub constraint_commitment: crate::types::Hash,
}

/// The full statement a Cairo proof attests to.
#[derive(Clone, Debug, PartialEq, Eq)]
pub struct CairoStatement {
    pub backend_id: String,
    pub program: CairoProgramCommitments,
    pub cairo_trace_hash: crate::types::Hash,
    pub public_input_hash: crate::types::Hash,
    pub constraint_commitment: crate::types::Hash,
}

/// Abstract value of a statement.
pub struct StatementModel {
    pub backend_id: Seq<char>,
    pub program: ProgramModel,
    pub cairo_trace_hash: Seq<u8>,
    pub public_input_hash: Seq<u8>,
    pub constraint_commitment: Seq<u8>,
}

impl View for CairoStatement {
    type V = StatementModel;

    open spec fn view(&self) -> StatementModel {
        StatementModel {
            backend_id: self.backend_id@,
            program: self.program@,
            cairo_trace_hash: self.cairo_trace_hash@,
            public_input_hash: self.public_input_hash@,
            constraint_commitment: self.constraint_commitment@,
        }
    }
}

/// Bytes hashed into the statement hash.
pub open spec fn statement_preimage(s: StatementModel) -> Seq<u8> {
    utf8_bytes("vsel-cairo-statement-v1"@) + hashed_str(s.backend_id) + program_bytes(s.program)
        + s.cairo_trace_hash + s.public_input_hash + s.constraint_commitment
}

/// The statement hash.
pub open spec fn statement_hash_spec(s: StatementModel) -> Seq<u8> {
    sha3_256_spec(statement_preimage(s))
}

/// Hash of the native proof bytes.
pub open spec fn proof_bytes_hash_spec(data: Seq<u8>) -> Seq<u8> {
    domain_hash_spec(utf8_bytes("vsel-cairo-proof-bytes-v1"@), data)
}

impl CairoStatement {
    /// The statement for an expected statement and a Cairo trace hash.
    pub fn from_expected(expected: &CairoExpectedStatement, cairo_trace_hash: crate::types::Hash) -> (s:
        CairoStatement)
        ensures
            s.backend_id@ == expected.backend_id@,
            s.program == expected.program,
            s.cairo_trace_hash == cairo_trace_hash,
            s.public_input_hash == expected.public_input_hash,
            s.constraint_commitment == expected.constraint_commitment,
    {
        CairoStatement {
            backend_id: expected.backend_id.clone(),
            program: expected.program.duplicate(),
            cairo_trace_hash,
            public_input_hash: expected.public_input_hash,
            constraint_commitment: expected.constraint_commitment,
        }
    }

    /// The statement hash.
    pub fn hash(&self) -> (h: crate::types::Hash)
        ensures
            h@ == statement_hash_spec(self@),
    {
        let mut buf: Vec<u8> = Vec::new();
        append_bytes(&mut buf, "vsel-cairo-statement-v1".as_bytes());
        append_hashed_str(&mut buf, self.backend_id.as_str());
        self.program.append_to(&mut buf);
        append_bytes(&mut buf, self.cairo_trace_hash.0.as_slice());
        append_bytes(&mut buf, self.public_input_hash.0.as_slice());
        append_bytes(&mut buf, self.constraint_commitment.0.as_slice());
        assert(buf@ =~= statement_preimage(self@));
        crate::types::Hash(sha3_256(buf.as_slice()))
    }
}

// ---------------------------------------------------------------------------
// Verifier certificate
// ---------------------------------------------------------------------------

/// What an adapter's native verifier returns when it accepts a proof.
#[derive(Clone, Debug, PartialEq, Eq)]
pub struct CairoVerifierCertificate {
    pub adapter_id: String,
    pub verifier_version: String,
    pub verifier_binary_hash: crate::types::Hash,
    pub backend_id: String,
    pub program: CairoProgramCommitments,
    pub cairo_trace_hash: crate::types::Hash,
    pub public_input_hash: crate::types::Hash,
    pub constraint_commitment: crate::types::Hash,
    pub statement_hash: crate::types::Hash,
    pub proof_hash: crate::types::Hash,
    pub transcript_hash: crate::types::Hash,
    pub accepted: bool,
}

/// Abstract value of a certificate.
pub struct CertificateModel {
    pub adapter_id: Seq<char>,
    pub verifier_version: Seq<char>,
    pub verifier_binary_hash: Seq<u8>,
    pub backend_id: Seq<char>,
    pub program: ProgramModel,
    pub cairo_trace_hash: Seq<u8>,
    pub public_input_hash: Seq<u8>,
    pub constraint_commitment: Seq<u8>,
    pub statement_hash: Seq<u8>,
    pub proof_hash: Seq<u8>,
    pub transcript_hash: Seq<u8>,
    pub accepted: bool,
}

impl View for CairoVerifierCertificate {
    type V = CertificateModel;

    open spec fn view(&self) -> CertificateModel {
        CertificateModel {
            adapter_id: self.adapter_id@,
            verifier_version: self.verifier_version@,
            verifier_binary_hash: self.verifier_binary_hash@,
            backend_id: self.backend_id@,
            program: self.program@,
            cairo_trace_hash: self.cairo_trace_hash@,
            public_input_hash: self.public_input_hash@,
            constraint_commitment: self.constraint_commitment@,
            statement_hash: self.statement_hash@,
            proof_hash: self.proof_hash@,
            transcript_hash: self.transcript_hash@,
            accepted: self.accepted,
        }
    }
}

/// A certificate string is non-empty and every byte is a printable ASCII
/// character other than `=`.
pub open spec fn valid_certificate_bytes(b: Seq<u8>) -> bool {
    b.len() > 0 && forall|i: int| 0 <= i < b.len() ==> 0x21 <= #[trigger] b[i] <= 0x7e && b[i] != 0x3d
}

/// Whether a string may stand in a certificate field.
pub fn valid_certificate_string(value: &str) -> (b: bool)
    ensures
        b == valid_certificate_bytes(utf8_bytes(value@)),
{
    let bytes = value.as_bytes();
    if bytes.len() == 0 {
        return false;
    }
    let mut i: usize = 0;
    while i < bytes.len()
        invariant
            i <= bytes.len(),
            bytes@ == utf8_bytes(value@),
            forall|k: int| 0 <= k < i ==> 0x21 <= #[trigger] bytes@[k] <= 0x7e && bytes@[k] != 0x3d,
        decreases bytes.len() - i,
    {
        let c = bytes[i];
        if !(c >= 0x21 && c <= 0x7e && c != 0x3d) {
            return false;
        }
        i += 1;
    }
    true
}

/// Whether a certificate binds every field of the statement and the two
/// artifact hashes, with a named verifier and a non-zero transcript.
pub open spec fn certificate_binds(
    c: CertificateModel,
    s: StatementModel,
    statement_hash: Seq<u8>,
    proof_hash: Seq<u8>,
) -> bool {
    &&& c.accepted
    &&& valid_certificate_bytes(utf8_bytes(c.adapter_id))
    &&& valid_certificate_bytes(utf8_bytes(c.verifier_version))
    &&& c.verifier_binary_hash != zero_hash_bytes()
    &&& c.backend_id == s.backend_id
    &&& c.program == s.program
    &&& c.cairo_trace_hash == s.cairo_trace_hash
    &&& c.public_input_hash == s.public_input_hash
    &&& c.constraint_commitment == s.constraint_commitment
    &&& c.statement_hash == statement_hash
    &&& c.proof_hash == proof_hash
    &&& c.transcript_hash != zero_hash_bytes()
}

impl CairoVerifierCertificate {
    /// Whether the two certificates hold the same fields.
    pub fn same_as(&self, other: &CairoVerifierCertificate) -> (b: bool)
        ensures
            b == (self@ == other@),
    {
        self.adapter_id == other.adapter_id && self.verifier_version == other.verifier_version
            && self.verifier_binary_hash.eq_hash(&other.verifier_binary_hash)
            && self.backend_id == other.backend_id && self.program.same_as(&other.program)
            && self.cairo_trace_hash.eq_hash(&other.cairo_trace_hash)
            && self.public_input_hash.eq_hash(&other.public_input_hash)
            && self.constraint_commitment.eq_hash(&other.constraint_commitment)
            && self.statement_hash.eq_hash(&other.statement_hash) && self.proof_hash.eq_hash(
            &other.proof_hash,
        ) && self.transcript_hash.eq_hash(&other.transcript_hash) && self.accepted
            == other.accepted
    }

    /// A copy of the certificate.
    pub fn duplicate(&self) -> (r: CairoVerifierCertificate)
        ensures
            r@ == self@,
    {
        CairoVerifierCertificate {
            adapter_id: self.adapter_id.clone(),
            verifier_version: self.verifier_version.clone(),
            verifier_binary_hash: self.verifier_binary_hash,
            backend_id: self.backend_id.clone(),
            program: self.program.duplicate(),
            cairo_trace_hash: self.cairo_trace_hash,
            public_input_hash: self.public_input_hash,
            constraint_commitment: self.constraint_commitment,
            statement_hash: self.statement_hash,
            proof_hash: self.proof_hash,
            transcript_hash: self.transcript_hash,
            accepted: self.accepted,
        }
    }

    /// Whether the certificate is bound to the statement and hashes.
    pub fn validate_for_statement(
        &self,
        statement: &CairoStatement,
        statement_hash: &crate::types::Hash,
        proof_hash: &crate::types::Hash,
    ) -> (b: bool)
        ensures
            b == certificate_binds(self@, statement@, statement_hash@, proof_hash@),
    {
        self.accepted && valid_certificate_string(self.adapter_id.as_str())
            && valid_certificate_string(self.verifier_version.as_str())
            && !self.verifier_binary_hash.is_zero() && self.backend_id == statement.backend_id
            && self.program.same_as(&statement.program) && self.cairo_trace_hash.eq_hash(
            &statement.cairo_trace_hash,
        ) && self.public_input_hash.eq_hash(&statement.public_input_hash)
            && self.constraint_commitment.eq_hash(&statement.constraint_commitment)
            && self.statement_hash.eq_hash(statement_hash) && self.proof_hash.eq_hash(proof_hash)
            && !self.transcript_hash.is_zero()
    }
}


// ---------------------------------------------------------------------------
// Field lists of the VCAI encoding
// ---------------------------------------------------------------------------

/// One field of an encoded artifact: fixed-size bytes, or a
/// length-prefixed byte string.
pub enum Field {
    Fixed(Seq<u8>),
    Var(Seq<u8>),
}

/// Bytes of one field.
pub open spec fn field_bytes(f: Field) -> Seq<u8> {
    match f {
        Field::Fixed(b) => b,
        Field::Var(b) => var_field(b),
    }
}

/// Bytes of a list of fields, in order.
pub open spec fn fields_bytes(fs: Seq<Field>) -> Seq<u8>
    decreases fs.len(),
{
    if fs.len() == 0 {
        Seq::empty()
    } else {
        field_bytes(fs[0]) + fields_bytes(fs.drop_first())
    }
}

/// Appending a field appends its bytes.
pub proof fn lemma_fields_bytes_push(fs: Seq<Field>, f: Field)
    ensures
        fields_bytes(fs.push(f)) == fields_bytes(fs) + field_bytes(f),
    decreases fs.len(),
{
    if fs.len() == 0 {
        let s1 = fs.push(f);
        assert(s1.drop_first() =~= Seq::<Field>::empty());
        assert(fields_bytes(s1.drop_first()) == Seq::<u8>::empty());
        assert(fields_bytes(s1) == field_bytes(s1[0]) + fields_bytes(s1.drop_first()));
        assert(fields_bytes(s1) =~= field_bytes(f));
        assert(fields_bytes(fs) == Seq::<u8>::empty());
        assert(fields_bytes(fs) + field_bytes(f) =~= field_bytes(f));
    } else {
        lemma_fields_bytes_push(fs.drop_first(), f);
        assert(fs.push(f).drop_first() =~= fs.drop_first().push(f));
        assert(fields_bytes(fs.push(f)) =~= fields_bytes(fs) + field_bytes(f));
    }
}

/// The bytes of a non-empty field list start with the bytes of its first
/// field, and the rest are the bytes of the remaining fields.
proof fn lemma_fields_bytes_split(bytes: Seq<u8>, pos: int, fs: Seq<Field>)
    requires
        0 <= pos <= bytes.len(),
        fs.len() > 0,
        bytes.subrange(pos, bytes.len() as int) == fields_bytes(fs),
    ensures
        pos + field_bytes(fs[0]).len() <= bytes.len(),
        bytes.subrange(pos, pos + field_bytes(fs[0]).len()) == field_bytes(fs[0]),
        bytes.subrange(pos + field_bytes(fs[0]).len(), bytes.len() as int) == fields_bytes(
            fs.drop_first(),
        ),
{
    let n = field_bytes(fs[0]).len();
    assert(fields_bytes(fs) == field_bytes(fs[0]) + fields_bytes(fs.drop_first()));
    assert(n <= bytes.len() - pos);
    assert(bytes.subrange(pos, bytes.len() as int).subrange(0, n as int) =~= bytes.subrange(
        pos,
        pos + n,
    ));
    assert(fields_bytes(fs).subrange(0, n as int) =~= field_bytes(fs[0]));
    assert(bytes.subrange(pos, bytes.len() as int).subrange(n as int, bytes.len() - pos)
        =~= bytes.subrange(pos + n, bytes.len() as int));
    assert(fields_bytes(fs).subrange(n as int, fields_bytes(fs).len() as int) =~= fields_bytes(
        fs.drop_first(),
    ));
}

// ---------------------------------------------------------------------------
// Proof artifact
// ---------------------------------------------------------------------------

/// A Cairo/STARK proof artifact, with the certificate of the native
/// verifier that accepted it and its canonical encoding.
#[derive(Clone, Debug, PartialEq, Eq)]
pub struct CairoStarkProof {
    pub backend_id: String,
    pub program: CairoProgramCommitments,
    pub cairo_trace_hash: crate::types::Hash,
    pub public_input_hash: crate::types::Hash,
    pub constraint_commitment: crate::types::Hash,
    pub statement_hash: crate::types::Hash,
    pub proof_hash: crate::types::Hash,
    pub proof_bytes: Vec<u8>,
    pub verifier_certificate: CairoVerifierCertificate,
    pub serialized: Vec<u8>,
}

/// Abstract value of a proof artifact (all fields but the cached encoding).
pub struct CairoProofModel {
    pub backend_id: Seq<char>,
    pub program: ProgramModel,
    pub cairo_trace_hash: Seq<u8>,
    pub public_input_hash: Seq<u8>,
    pub constraint_commitment: Seq<u8>,
    pub statement_hash: Seq<u8>,
    pub proof_hash: Seq<u8>,
    pub proof_bytes: Seq<u8>,
    pub certificate: CertificateModel,
}

impl View for CairoStarkProof {
    type V = CairoProofModel;

    open spec fn view(&self) -> CairoProofModel {
        CairoProofModel {
            backend_id: self.backend_id@,
            program: self.program@,
            cairo_trace_hash: self.cairo_trace_hash@,
            public_input_hash: self.public_input_hash@,
            constraint_commitment: self.constraint_commitment@,
            statement_hash: self.statement_hash@,
            proof_hash: self.proof_hash@,
            proof_bytes: self.proof_bytes@,
            certificate: self.verifier_certificate@,
        }
    }
}

/// The statement an artifact claims.
pub open spec fn statement_of(p: CairoProofModel) -> StatementModel {
    StatementModel {
        backend_id: p.backend_id,
        program: p.program,
        cairo_trace_hash: p.cairo_trace_hash,
        public_input_hash: p.public_input_hash,
        constraint_commitment: p.constraint_commitment,
    }
}

/// The first reason an artifact fails static validation, as error detail.
pub open spec fn validate_static_spec(p: CairoProofModel) -> Option<Seq<char>> {
    if !has_prefix(p.backend_id, "cairo-stark/"@) {
        Some("Cairo backend id '"@ + p.backend_id + "' must be concrete cairo-stark/<adapter>"@)
    } else if program_zero_error(p.program) is Some {
        program_zero_error(p.program)
    } else if p.cairo_trace_hash == zero_hash_bytes() {
        Some(nonzero_message("cairo_trace_hash"@))
    } else if p.public_input_hash == zero_hash_bytes() {
        Some(nonzero_message("public_input_hash"@))
    } else if p.constraint_commitment == zero_hash_bytes() {
        Some(nonzero_message("constraint_commitment"@))
    } else if p.statement_hash == zero_hash_bytes() {
        Some(nonzero_message("statement_hash"@))
    } else if p.proof_hash == zero_hash_bytes() {
        Some(nonzero_message("proof_hash"@))
    } else if p.proof_bytes.len() == 0 {
        Some("Cairo proof bytes must be non-empty"@)
    } else if p.statement_hash != statement_hash_spec(statement_of(p)) {
        Some("statement hash does not match artifact fields"@)
    } else if p.proof_hash != proof_bytes_hash_spec(p.proof_bytes) {
        Some("proof hash does not match proof bytes"@)
    } else if !certificate_binds(p.certificate, statement_of(p), p.statement_hash, p.proof_hash) {
        Some("verifier certificate is not bound to all artifact fields"@)
    } else {
        None
    }
}

/// The magic bytes `VCAI`.
pub open spec fn cairo_magic() -> Seq<u8> {
    seq![0x56u8, 0x43u8, 0x41u8, 0x49u8]
}

/// The fields of the encoding, in order.
pub open spec fn cairo_fields(p: CairoProofModel) -> Seq<Field> {
    let c = p.certificate;
    seq![
        Field::Var(utf8_bytes(p.backend_id)),
        Field::Fixed(p.program.cairo),
        Field::Fixed(p.program.sierra),
        Field::Fixed(p.program.casm),
        Field::Fixed(p.program.executable),
        Field::Fixed(p.program.semantic_binding),
        Field::Fixed(p.cairo_trace_hash),
        Field::Fixed(p.public_input_hash),
        Field::Fixed(p.constraint_commitment),
        Field::Fixed(p.statement_hash),
        Field::Fixed(p.proof_hash),
        Field::Var(p.proof_bytes),
        Field::Var(utf8_bytes(c.adapter_id)),
        Field::Var(utf8_bytes(c.verifier_version)),
        Field::Fixed(c.verifier_binary_hash),
        Field::Var(utf8_bytes(c.backend_id)),
        Field::Fixed(c.program.cairo),
        Field::Fixed(c.program.sierra),
        Field::Fixed(c.program.casm),
        Field::Fixed(c.program.executable),
        Field::Fixed(c.program.semantic_binding),
        Field::Fixed(c.cairo_trace_hash),
        Field::Fixed(c.public_input_hash),
        Field::Fixed(c.constraint_commitment),
        Field::Fixed(c.statement_hash),
        Field::Fixed(c.proof_hash),
        Field::Fixed(c.transcript_hash),
        Field::Fixed(seq![if c.accepted { 1u8 } else { 0u8 }]),
    ]
}

/// The canonical `VCAI` v1 encoding of an artifact.
pub open spec fn cairo_proof_encoding(p: CairoProofModel) -> Seq<u8> {
    cairo_magic() + seq![1u8] + fields_bytes(cairo_fields(p))
}

/// An abstract artifact that values of the concrete type can hold: every
/// hash has 32 bytes, and every length-prefixed field fits a `u32` length.
pub open spec fn representable(p: CairoProofModel) -> bool {
    let c = p.certificate;
    &&& p.program.cairo.len() == 32 && p.program.sierra.len() == 32 && p.program.casm.len() == 32
    &&& p.program.executable.len() == 32 && p.program.semantic_binding.len() == 32
    &&& p.cairo_trace_hash.len() == 32 && p.public_input_hash.len() == 32
    &&& p.constraint_commitment.len() == 32 && p.statement_hash.len() == 32
    &&& p.proof_hash.len() == 32
    &&& c.verifier_binary_hash.len() == 32
    &&& c.program.cairo.len() == 32 && c.program.sierra.len() == 32 && c.program.casm.len() == 32
    &&& c.program.executable.len() == 32 && c.program.semantic_binding.len() == 32
    &&& c.cairo_trace_hash.len() == 32 && c.public_input_hash.len() == 32
    &&& c.constraint_commitment.len() == 32 && c.statement_hash.len() == 32
    &&& c.proof_hash.len() == 32 && c.transcript_hash.len() == 32
    &&& utf8_bytes(p.backend_id).len() < 0x1_0000_0000
    &&& p.proof_bytes.len() < 0x1_0000_0000
    &&& utf8_bytes(c.adapter_id).len() < 0x1_0000_0000
    &&& utf8_bytes(c.verifier_version).len() < 0x1_0000_0000
    &&& utf8_bytes(c.backend_id).len() < 0x1_0000_0000
}

fn write_hash(buf: &mut Vec<u8>, hash: &crate::types::Hash, Ghost(fs): Ghost<Seq<Field>>)
    requires
        old(buf)@ == cairo_magic() + seq![1u8] + fields_bytes(fs),
    ensures
        final(buf)@ == cairo_magic() + seq![1u8] + fields_bytes(fs.push(Field::Fixed(hash@))),
{
    append_bytes(buf, hash.0.as_slice());
    proof {
        lemma_fields_bytes_push(fs, Field::Fixed(hash@));
    }
    assert(final(buf)@ =~= cairo_magic() + seq![1u8] + fields_bytes(fs.push(Field::Fixed(hash@))));
}

fn write_bytes(buf: &mut Vec<u8>, value: &[u8], Ghost(fs): Ghost<Seq<Field>>)
    requires
        old(buf)@ == cairo_magic() + seq![1u8] + fields_bytes(fs),
    ensures
        final(buf)@ == cairo_magic() + seq![1u8] + fields_bytes(fs.push(Field::Var(value@))),
{
    append_var_field(buf, value);
    proof {
        lemma_fields_bytes_push(fs, Field::Var(value@));
    }
    assert(final(buf)@ =~= cairo_magic() + seq![1u8] + fields_bytes(fs.push(Field::Var(value@))));
}

fn write_string(buf: &mut Vec<u8>, value: &str, Ghost(fs): Ghost<Seq<Field>>)
    requires
        old(buf)@ == cairo_magic() + seq![1u8] + fields_bytes(fs),
    ensures
        final(buf)@ == cairo_magic() + seq![1u8] + fields_bytes(
            fs.push(Field::Var(utf8_bytes(value@))),
        ),
{
    write_bytes(buf, value.as_bytes(), Ghost(fs));
}

fn write_program(buf: &mut Vec<u8>, p: &CairoProgramCommitments, Ghost(fs): Ghost<Seq<Field>>)
    requires
        old(buf)@ == cairo_magic() + seq![1u8] + fields_bytes(fs),
    ensures
        final(buf)@ == cairo_magic() + seq![1u8] + fields_bytes(
            fs.push(Field::Fixed(p@.cairo)).push(Field::Fixed(p@.sierra)).push(
                Field::Fixed(p@.casm),
            ).push(Field::Fixed(p@.executable)).push(Field::Fixed(p@.semantic_binding)),
        ),
{
    let ghost f1 = fs.push(Field::Fixed(p@.cairo));
    write_hash(buf, &p.cairo_program_hash, Ghost(fs));
    let ghost f2 = f1.push(Field::Fixed(p@.sierra));
    write_hash(buf, &p.sierra_program_hash, Ghost(f1));
    let ghost f3 = f2.push(Field::Fixed(p@.casm));
    write_hash(buf, &p.casm_program_hash, Ghost(f2));
    let ghost f4 = f3.push(Field::Fixed(p@.executable));
    write_hash(buf, &p.executable_program_hash, Ghost(f3));
    write_hash(buf, &p.semantic_binding_hash, Ghost(f4));
}

impl CairoStarkProof {
    /// The canonical `VCAI` v1 encoding.
    pub fn to_bytes(&self) -> (out: Vec<u8>)
        ensures
            out@ == cairo_proof_encoding(self@),
    {
        let mut buf: Vec<u8> = Vec::new();
        buf.push(0x56);
        buf.push(0x43);
        buf.push(0x41);
        buf.push(0x49);
        buf.push(1);
        let ghost g0: Seq<Field> = Seq::empty();
        assert(buf@ =~= cairo_magic() + seq![1u8] + fields_bytes(g0));
        let c = &self.verifier_certificate;
        write_string(&mut buf, self.backend_id.as_str(), Ghost(g0));
        let ghost g1 = g0.push(Field::Var(utf8_bytes(self.backend_id@)));
        write_program(&mut buf, &self.program, Ghost(g1));
        let ghost g6 = g1.push(Field::Fixed(self.program@.cairo)).push(
            Field::Fixed(self.program@.sierra),
        ).push(Field::Fixed(self.program@.casm)).push(Field::Fixed(self.program@.executable)).push(
            Field::Fixed(self.program@.semantic_binding),
        );
        write_hash(&mut buf, &self.cairo_trace_hash, Ghost(g6));
        let ghost g7 = g6.push(Field::Fixed(self.cairo_trace_hash@));
        write_hash(&mut buf, &self.public_input_hash, Ghost(g7));
        let ghost g8 = g7.push(Field::Fixed(self.public_input_hash@));
        write_hash(&mut buf, &self.constraint_commitment, Ghost(g8));
        let ghost g9 = g8.push(Field::Fixed(self.constraint_commitment@));
        write_hash(&mut buf, &self.statement_hash, Ghost(g9));
        let ghost g10 = g9.push(Field::Fixed(self.statement_hash@));
        write_hash(&mut buf, &self.proof_hash, Ghost(g10));
        let ghost g11 = g10.push(Field::Fixed(self.proof_hash@));
        write_bytes(&mut buf, self.proof_bytes.as_slice(), Ghost(g11));
        let ghost g12 = g11.push(Field::Var(self.proof_bytes@));
        write_string(&mut buf, c.adapter_id.as_str(), Ghost(g12));
        let ghost g13 = g12.push(Field::Var(utf8_bytes(c.adapter_id@)));
        write_string(&mut buf, c.verifier_version.as_str(), Ghost(g13));
        let ghost g14 = g13.push(Field::Var(utf8_bytes(c.verifier_version@)));
        write_hash(&mut buf, &c.verifier_binary_hash, Ghost(g14));
        let ghost g15 = g14.push(Field::Fixed(c.verifier_binary_hash@));
        write_string(&mut buf, c.backend_id.as_str(), Ghost(g15));
        let ghost g16 = g15.push(Field::Var(utf8_bytes(c.backend_id@)));
        write_program(&mut buf, &c.program, Ghost(g16));
        let ghost g21 = g16.push(Field::Fixed(c.program@.cairo)).push(
            Field::Fixed(c.program@.sierra),
        ).push(Field::Fixed(c.program@.casm)).push(Field::Fixed(c.program@.executable)).push(
            Field::Fixed(c.program@.semantic_binding),
        );
        write_hash(&mut buf, &c.cairo_trace_hash, Ghost(g21));
        let ghost g22 = g21.push(Field::Fixed(c.cairo_trace_hash@));
        write_hash(&mut buf, &c.public_input_hash, Ghost(g22));
        let ghost g23 = g22.push(Field::Fixed(c.public_input_hash@));
        write_hash(&mut buf, &c.constraint_commitment, Ghost(g23));
        let ghost g24 = g23.push(Field::Fixed(c.constraint_commitment@));
        write_hash(&mut buf, &c.statement_hash, Ghost(g24));
        let ghost g25 = g24.push(Field::Fixed(c.statement_hash@));
        write_hash(&mut buf, &c.proof_hash, Ghost(g25));
        let ghost g26 = g25.push(Field::Fixed(c.proof_hash@));
        write_hash(&mut buf, &c.transcript_hash, Ghost(g26));
        let ghost g27 = g26.push(Field::Fixed(c.transcript_hash@));
        let accepted: u8 = if c.accepted {
            1
        } else {
            0
        };
        buf.push(accepted);
        proof {
            lemma_fields_bytes_push(g27, Field::Fixed(seq![accepted]));
            assert(g27.push(Field::Fixed(seq![accepted])) =~= cairo_fields(self@));
            assert(buf@ =~= cairo_magic() + seq![1u8] + fields_bytes(
                g27.push(Field::Fixed(seq![accepted])),
            ));
        }
        buf
    }
}


/// Expected statement, abstractly.
pub struct ExpectedModel {
    pub backend_id: Seq<char>,
    pub program: ProgramModel,
    pub public_input_hash: Seq<u8>,
    pub constraint_commitment: Seq<u8>,
}

impl View for CairoExpectedStatement {
    type V = ExpectedModel;

    open spec fn view(&self) -> ExpectedModel {
        ExpectedModel {
            backend_id: self.backend_id@,
            program: self.program@,
            public_input_hash: self.public_input_hash@,
            constraint_commitment: self.constraint_commitment@,
        }
    }
}

/// The first reason an artifact does not answer an expected statement.
pub open spec fn validate_against_spec(p: CairoProofModel, e: ExpectedModel) -> Option<
    Seq<char>,
> {
    if validate_static_spec(p) is Some {
        validate_static_spec(p)
    } else if p.backend_id != e.backend_id {
        Some(
            "backend id mismatch: artifact="@ + p.backend_id + ", expected="@ + e.backend_id,
        )
    } else if p.program != e.program {
        Some("program commitment mismatch"@)
    } else if p.public_input_hash != e.public_input_hash {
        Some("public input hash mismatch"@)
    } else if p.constraint_commitment != e.constraint_commitment {
        Some("constraint commitment mismatch"@)
    } else {
        None
    }
}

/// The artifact that `CairoStarkProof::new` builds from its arguments.
pub open spec fn new_proof_model(
    backend_id: Seq<char>,
    program: ProgramModel,
    cairo_trace_hash: Seq<u8>,
    public_input_hash: Seq<u8>,
    constraint_commitment: Seq<u8>,
    proof_bytes: Seq<u8>,
    certificate: CertificateModel,
) -> CairoProofModel {
    let stmt = StatementModel {
        backend_id,
        program,
        cairo_trace_hash,
        public_input_hash,
        constraint_commitment,
    };
    CairoProofModel {
        backend_id,
        program,
        cairo_trace_hash,
        public_input_hash,
        constraint_commitment,
        statement_hash: statement_hash_spec(stmt),
        proof_hash: proof_bytes_hash_spec(proof_bytes),
        proof_bytes,
        certificate,
    }
}

impl CairoStarkProof {
    /// The statement the artifact claims.
    pub fn statement(&self) -> (s: CairoStatement)
        ensures
            s@ == statement_of(self@),
    {
        CairoStatement {
            backend_id: self.backend_id.clone(),
            program: self.program.duplicate(),
            cairo_trace_hash: self.cairo_trace_hash,
            public_input_hash: self.public_input_hash,
            constraint_commitment: self.constraint_commitment,
        }
    }

    /// Static validation: a concrete `cairo-stark/` backend id, non-zero
    /// commitments, non-empty proof bytes, hashes that match the fields, and
    /// a certificate bound to all of them.
    pub fn validate_static(&self) -> (r: Result<(), CairoStarkError>)
        ensures
            r is Ok <==> validate_static_spec(self@) is None,
            r matches Err(e) ==> e@ == CairoStarkErrorModel::VerificationFailed(
                validate_static_spec(self@)->0,
            ),
    {
        if !str_starts_with(self.backend_id.as_str(), "cairo-stark/") {
            return Err(
                CairoStarkError::VerificationFailed(
                    concat3(
                        "Cairo backend id '",
                        self.backend_id.as_str(),
                        "' must be concrete cairo-stark/<adapter>",
                    ),
                ),
            );
        }
        match self.program.validate_nonzero() {
            Ok(()) => {},
            Err(e) => {
                return Err(e);
            },
        }
        if self.cairo_trace_hash.is_zero() {
            return Err(nonzero_error("cairo_trace_hash"));
        }
        if self.public_input_hash.is_zero() {
            return Err(nonzero_error("public_input_hash"));
        }
        if self.constraint_commitment.is_zero() {
            return Err(nonzero_error("constraint_commitment"));
        }
        if self.statement_hash.is_zero() {
            return Err(nonzero_error("statement_hash"));
        }
        if self.proof_hash.is_zero() {
            return Err(nonzero_error("proof_hash"));
        }
        if self.proof_bytes.len() == 0 {
            return Err(verification_failed("Cairo proof bytes must be non-empty"));
        }
        let statement = self.statement();
        let expected_statement_hash = statement.hash();
        if !self.statement_hash.eq_hash(&expected_statement_hash) {
            return Err(verification_failed("statement hash does not match artifact fields"));
        }
        let expected_proof_hash = hash_domain_bytes(
            "vsel-cairo-proof-bytes-v1".as_bytes(),
            self.proof_bytes.as_slice(),
        );
        if !self.proof_hash.eq_hash(&expected_proof_hash) {
            return Err(verification_failed("proof hash does not match proof bytes"));
        }
        if !self.verifier_certificate.validate_for_statement(
            &statement,
            &self.statement_hash,
            &self.proof_hash,
        ) {
            return Err(
                verification_failed("verifier certificate is not bound to all artifact fields"),
            );
        }
        Ok(())
    }

    /// Static validation, then agreement with the expected statement.
    pub fn validate_against(&self, expected: &CairoExpectedStatement) -> (r: Result<
        (),
        CairoStarkError,
    >)
        ensures
            r is Ok <==> validate_against_spec(self@, expected@) is None,
            r matches Err(e) ==> e@ == CairoStarkErrorModel::VerificationFailed(
                validate_against_spec(self@, expected@)->0,
            ),
    {
        match self.validate_static() {
            Ok(()) => {},
            Err(e) => {
                return Err(e);
            },
        }
        if self.backend_id != expected.backend_id {
            let mut msg = concat3(
                "backend id mismatch: artifact=",
                self.backend_id.as_str(),
                ", expected=",
            );
            push_str(&mut msg, expected.backend_id.as_str());
            return Err(CairoStarkError::VerificationFailed(msg));
        }
        if !self.program.same_as(&expected.program) {
            return Err(verification_failed("program commitment mismatch"));
        }
        if !self.public_input_hash.eq_hash(&expected.public_input_hash) {
            return Err(verification_failed("public input hash mismatch"));
        }
        if !self.constraint_commitment.eq_hash(&expected.constraint_commitment) {
            return Err(verification_failed("constraint commitment mismatch"));
        }
        Ok(())
    }

    /// Builds an artifact from its fields: computes the statement and
    /// proof hashes, validates statically, and caches the encoding.
    pub fn new(
        backend_id: String,
        program: CairoProgramCommitments,
        cairo_trace_hash: crate::types::Hash,
        public_input_hash: crate::types::Hash,
        constraint_commitment: crate::types::Hash,
        proof_bytes: Vec<u8>,
        verifier_certificate: CairoVerifierCertificate,
    ) -> (r: Result<CairoStarkProof, CairoStarkError>)
        ensures
            ({
                let m = new_proof_model(
                    backend_id@,
                    program@,
                    cairo_trace_hash@,
                    public_input_hash@,
                    constraint_commitment@,
                    proof_bytes@,
                    verifier_certificate@,
                );
                &&& r is Ok <==> validate_static_spec(m) is None
                &&& r matches Ok(p) ==> p@ == m && p.serialized@ == cairo_proof_encoding(m)
                &&& r matches Err(e) ==> e@ == CairoStarkErrorModel::VerificationFailed(
                    validate_static_spec(m)->0,
                )
            }),
    {
        let statement = CairoStatement {
            backend_id: backend_id.clone(),
            program: program.duplicate(),
            cairo_trace_hash,
            public_input_hash,
            constraint_commitment,
        };
        let statement_hash = statement.hash();
        let proof_hash = hash_domain_bytes(
            "vsel-cairo-proof-bytes-v1".as_bytes(),
            proof_bytes.as_slice(),
        );
        let mut proof = CairoStarkProof {
            backend_id,
            program,
            cairo_trace_hash,
            public_input_hash,
            constraint_commitment,
            statement_hash,
            proof_hash,
            proof_bytes,
            verifier_certificate,
            serialized: Vec::new(),
        };
        match proof.validate_static() {
            Ok(()) => {},
            Err(e) => {
                return Err(e);
            },
        }
        proof.serialized = proof.to_bytes();
        Ok(proof)
    }

    /// A copy of the artifact.
    pub fn duplicate(&self) -> (r: CairoStarkProof)
        ensures
            r@ == self@,
            r.serialized@ == self.serialized@,
    {
        CairoStarkProof {
            backend_id: self.backend_id.clone(),
            program: self.program.duplicate(),
            cairo_trace_hash: self.cairo_trace_hash,
            public_input_hash: self.public_input_hash,
            constraint_commitment: self.constraint_commitment,
            statement_hash: self.statement_hash,
            proof_hash: self.proof_hash,
            proof_bytes: crate::types::copy_bytes(self.proof_bytes.as_slice()),
            verifier_certificate: self.verifier_certificate.duplicate(),
            serialized: crate::types::copy_bytes(self.serialized.as_slice()),
        }
    }

    /// The cached canonical encoding.
    pub fn as_ref(&self) -> (b: &[u8])
        ensures
            b@ == self.serialized@,
    {
        self.serialized.as_slice()
    }
}


// ---------------------------------------------------------------------------
// Decoding
// ---------------------------------------------------------------------------

/// Error detail of a read past the end of the input.
pub open spec fn truncated_message(cursor: nat, need: nat, total: nat) -> Seq<char> {
    "truncated Cairo proof at byte "@ + decimal_spec(cursor) + "; need "@ + decimal_spec(need)
        + ", have "@ + decimal_spec(if total >= cursor { (total - cursor) as nat } else { 0 })
}

/// Claim carried through decoding: where `rest` is `Some(fs)`, the bytes
/// from `pos` on are exactly the bytes of the fields `fs`.
pub open spec fn suffix_is(bytes: Seq<u8>, pos: int, rest: Option<Seq<Field>>) -> bool {
    match rest {
        Some(fs) => 0 <= pos <= bytes.len() && bytes.subrange(pos, bytes.len() as int)
            == fields_bytes(fs),
        None => true,
    }
}

/// The claim after one field is consumed.
pub open spec fn next_rest(rest: Option<Seq<Field>>) -> Option<Seq<Field>> {
    match rest {
        Some(fs) => Some(fs.drop_first()),
        None => None,
    }
}

/// Payload of a field.
pub open spec fn field_payload(f: Field) -> Seq<u8> {
    match f {
        Field::Fixed(b) => b,
        Field::Var(b) => b,
    }
}

/// The claim's next field is a fixed field of `n` bytes.
pub open spec fn head_fixed(rest: Option<Seq<Field>>, n: nat) -> bool {
    rest matches Some(fs) ==> fs.len() > 0 && fs[0] is Fixed && field_payload(fs[0]).len() == n
}

/// The claim's next field is a length-prefixed field whose length fits
/// in 32 bits.
pub open spec fn head_var(rest: Option<Seq<Field>>) -> bool {
    rest matches Some(fs) ==> fs.len() > 0 && fs[0] is Var && field_payload(fs[0]).len()
        < 0x1_0000_0000
}

/// The claim's next field is a non-empty length-prefixed UTF-8 string.
pub open spec fn head_string(rest: Option<Seq<Field>>) -> bool {
    head_var(rest) && (rest matches Some(fs) ==> field_payload(fs[0]).len() > 0 && valid_utf8(
        field_payload(fs[0]),
    ))
}

/// Payload of the claim's next field.
pub open spec fn head_payload(rest: Option<Seq<Field>>) -> Seq<u8> {
    match rest {
        Some(fs) => field_payload(fs[0]),
        None => Seq::empty(),
    }
}

fn read_exact(bytes: &[u8], cursor: &mut usize, len: usize) -> (r: Result<Vec<u8>, CairoStarkError>)
    requires
        *old(cursor) <= bytes@.len(),
    ensures
        *final(cursor) <= bytes@.len(),
        r is Ok <==> *old(cursor) + len <= bytes@.len(),
        r matches Ok(v) ==> v@ == bytes@.subrange(*old(cursor) as int, *old(cursor) + len)
            && *final(cursor) == *old(cursor) + len,
        r matches Err(e) ==> e@ == CairoStarkErrorModel::DeserializationFailed(
            truncated_message(*old(cursor) as nat, len as nat, bytes@.len()),
        ),
{
    let start = *cursor;
    match read_chunk(bytes, cursor, len) {
        Some(v) => Ok(v),
        None => {
            let mut msg = owned("truncated Cairo proof at byte ");
            push_str(&mut msg, decimal(start as u64).as_str());
            push_str(&mut msg, "; need ");
            push_str(&mut msg, decimal(len as u64).as_str());
            push_str(&mut msg, ", have ");
            push_str(&mut msg, decimal((bytes.len() - start) as u64).as_str());
            Err(CairoStarkError::DeserializationFailed(msg))
        },
    }
}

fn read_hash(bytes: &[u8], cursor: &mut usize, Ghost(rest): Ghost<Option<Seq<Field>>>) -> (r: Result<
    crate::types::Hash,
    CairoStarkError,
>)
    requires
        *old(cursor) <= bytes@.len(),
        suffix_is(bytes@, *old(cursor) as int, rest),
        head_fixed(rest, 32),
    ensures
        *final(cursor) <= bytes@.len(),
        r matches Ok(h) ==> h@ == bytes@.subrange(*old(cursor) as int, *old(cursor) + 32)
            && *final(cursor) == *old(cursor) + 32,
        r matches Ok(h) ==> read_field_spec(bytes@, *old(cursor) as int, FieldKind::Hash)
            == FieldRead::Read(h@, *final(cursor) as int),
        r matches Err(e) ==> read_field_spec(bytes@, *old(cursor) as int, FieldKind::Hash) matches FieldRead::Failed(f)
            && failure_matches(f, e@),
        r matches Err(e) ==> e@ is DeserializationFailed,
        rest is Some ==> r is Ok && r->Ok_0@ == head_payload(rest) && suffix_is(
            bytes@,
            *final(cursor) as int,
            next_rest(rest),
        ),
{
    proof {
        reveal(read_field_spec);
    }
    proof {
        if let Some(fs) = rest {
            lemma_fields_bytes_split(bytes@, *old(cursor) as int, fs);
        }
    }
    let raw = match read_exact(bytes, cursor, 32) {
        Ok(v) => v,
        Err(e) => {
            return Err(e);
        },
    };
    let mut out = [0u8; 32];
    let mut i: usize = 0;
    while i < 32
        invariant
            i <= 32,
            raw@.len() == 32,
            forall|k: int| 0 <= k < i ==> out@[k] == raw@[k],
        decreases 32 - i,
    {
        out[i] = raw[i];
        i += 1;
    }
    assert(out@ =~= raw@);
    Ok(crate::types::Hash(out))
}

fn read_bytes(bytes: &[u8], cursor: &mut usize, Ghost(rest): Ghost<Option<Seq<Field>>>) -> (r: Result<
    Vec<u8>,
    CairoStarkError,
>)
    requires
        *old(cursor) <= bytes@.len(),
        suffix_is(bytes@, *old(cursor) as int, rest),
        head_var(rest),
    ensures
        *final(cursor) <= bytes@.len(),
        r matches Ok(v) ==> *old(cursor) + 4 <= bytes@.len() && v@ == bytes@.subrange(
            *old(cursor) + 4,
            *old(cursor) + 4 + crate::encoding::le_u32_value(
                bytes@.subrange(*old(cursor) as int, *old(cursor) + 4),
            ),
        ) && *final(cursor) == *old(cursor) + 4 + crate::encoding::le_u32_value(
            bytes@.subrange(*old(cursor) as int, *old(cursor) + 4),
        ),
        r matches Ok(v) ==> v@.len() < 0x1_0000_0000,
        r matches Ok(v) ==> read_field_spec(bytes@, *old(cursor) as int, FieldKind::Bytes)
            == FieldRead::Read(v@, *final(cursor) as int),
        r matches Err(e) ==> read_field_spec(bytes@, *old(cursor) as int, FieldKind::Bytes) matches FieldRead::Failed(f)
            && failure_matches(f, e@),
        r matches Err(e) ==> e@ is DeserializationFailed,
        rest is Some ==> r is Ok && r->Ok_0@ == head_payload(rest) && suffix_is(
            bytes@,
            *final(cursor) as int,
            next_rest(rest),
        ),
{
    proof {
        reveal(read_field_spec);
    }
    proof {
        if let Some(fs) = rest {
            lemma_fields_bytes_split(bytes@, *old(cursor) as int, fs);
            crate::codec::lemma_var_field_at(bytes@, *old(cursor) as int, field_payload(fs[0]));
        }
    }
    let start = *cursor;
    let len_raw = match read_exact(bytes, cursor, 4) {
        Ok(v) => v,
        Err(e) => {
            return Err(e);
        },
    };
    let len = crate::encoding::u32_from_le(len_raw[0], len_raw[1], len_raw[2], len_raw[3]);
    assert(len_raw@ =~= seq![len_raw@[0], len_raw@[1], len_raw@[2], len_raw@[3]]);
    read_exact(bytes, cursor, len as usize)
}

fn read_string(bytes: &[u8], cursor: &mut usize, Ghost(rest): Ghost<Option<Seq<Field>>>) -> (r:
    Result<String, CairoStarkError>)
    requires
        *old(cursor) <= bytes@.len(),
        suffix_is(bytes@, *old(cursor) as int, rest),
        head_string(rest),
    ensures
        *final(cursor) <= bytes@.len(),
        r matches Ok(s) ==> utf8_bytes(s@).len() < 0x1_0000_0000,
        r matches Ok(s) ==> read_field_spec(bytes@, *old(cursor) as int, FieldKind::Text)
            == FieldRead::Read(utf8_bytes(s@), *final(cursor) as int),
        r matches Err(e) ==> read_field_spec(bytes@, *old(cursor) as int, FieldKind::Text) matches FieldRead::Failed(f)
            && failure_matches(f, e@),
        r matches Err(e) ==> e@ is DeserializationFailed,
        rest is Some ==> r is Ok && r->Ok_0@ == decode_utf8(head_payload(rest)) && suffix_is(
            bytes@,
            *final(cursor) as int,
            next_rest(rest),
        ),
{
    proof {
        reveal(read_field_spec);
    }
    let raw = match read_bytes(bytes, cursor, Ghost(rest)) {
        Ok(v) => v,
        Err(e) => {
            return Err(e);
        },
    };
    if raw.len() == 0 {
        return Err(deserialization_failed("empty string field"));
    }
    let ghost raw_view = raw@;
    match string_from_utf8(raw) {
        Ok(s) => {
            proof {
                decode_utf8_encode_utf8(raw_view);
            }
            Ok(s)
        },
        Err(text) => {
            let m = concat2("invalid UTF-8: ", text.as_str());
            assert(m@.subrange(0, "invalid UTF-8: "@.len() as int) =~= "invalid UTF-8: "@);
            Err(CairoStarkError::DeserializationFailed(m))
        },
    }
}

/// The decoding claim at field index `k` of the field list `fs`.
pub open spec fn rest_at(has: bool, fs: Seq<Field>, k: int) -> Option<Seq<Field>> {
    if has {
        Some(fs.subrange(k, fs.len() as int))
    } else {
        None
    }
}

proof fn lemma_rest_step(has: bool, fs: Seq<Field>, k: int)
    requires
        0 <= k < fs.len(),
    ensures
        next_rest(rest_at(has, fs, k)) == rest_at(has, fs, k + 1),
        has ==> rest_at(has, fs, k)->0[0] == fs[k],
{
    if has {
        assert(fs.subrange(k, fs.len() as int).drop_first() =~= fs.subrange(k + 1, fs.len() as int));
    }
}

/// The UTF-8 bytes of a string are valid, decode back to it, and are empty
/// only for the empty string.
proof fn lemma_utf8_string(s: Seq<char>)
    ensures
        valid_utf8(utf8_bytes(s)),
        decode_utf8(utf8_bytes(s)) == s,
        utf8_bytes(s).len() == 0 ==> s.len() == 0,
{
    encode_utf8_valid_utf8(s);
    encode_utf8_decode_utf8(s);
    if utf8_bytes(s).len() == 0 {
        assert(utf8_bytes(s) =~= Seq::<u8>::empty());
        assert(decode_utf8(Seq::<u8>::empty()) =~= Seq::<char>::empty());
    }
}


/// The fields of the encoding, one by one.
proof fn lemma_cairo_fields_at(p: CairoProofModel)
    ensures
        ({
            let fs = cairo_fields(p);
            let c = p.certificate;
            &&& fs.len() == 28
            &&& fs[0] == Field::Var(utf8_bytes(p.backend_id))
            &&& fs[1] == Field::Fixed(p.program.cairo)
            &&& fs[2] == Field::Fixed(p.program.sierra)
            &&& fs[3] == Field::Fixed(p.program.casm)
            &&& fs[4] == Field::Fixed(p.program.executable)
            &&& fs[5] == Field::Fixed(p.program.semantic_binding)
            &&& fs[6] == Field::Fixed(p.cairo_trace_hash)
            &&& fs[7] == Field::Fixed(p.public_input_hash)
            &&& fs[8] == Field::Fixed(p.constraint_commitment)
            &&& fs[9] == Field::Fixed(p.statement_hash)
            &&& fs[10] == Field::Fixed(p.proof_hash)
            &&& fs[11] == Field::Var(p.proof_bytes)
            &&& fs[12] == Field::Var(utf8_bytes(c.adapter_id))
            &&& fs[13] == Field::Var(utf8_bytes(c.verifier_version))
            &&& fs[14] == Field::Fixed(c.verifier_binary_hash)
            &&& fs[15] == Field::Var(utf8_bytes(c.backend_id))
            &&& fs[16] == Field::Fixed(c.program.cairo)
            &&& fs[17] == Field::Fixed(c.program.sierra)
            &&& fs[18] == Field::Fixed(c.program.casm)
            &&& fs[19] == Field::Fixed(c.program.executable)
            &&& fs[20] == Field::Fixed(c.program.semantic_binding)
            &&& fs[21] == Field::Fixed(c.cairo_trace_hash)
            &&& fs[22] == Field::Fixed(c.public_input_hash)
            &&& fs[23] == Field::Fixed(c.constraint_commitment)
            &&& fs[24] == Field::Fixed(c.statement_hash)
            &&& fs[25] == Field::Fixed(c.proof_hash)
            &&& fs[26] == Field::Fixed(c.transcript_hash)
            &&& fs[27] == Field::Fixed(seq![if c.accepted { 1u8 } else { 0u8 }])
        }),
{
}

/// Whether some statically valid, representable artifact encodes to the
/// given bytes.
pub open spec fn encodes_valid_artifact(bytes: Seq<u8>) -> bool {
    exists|m: CairoProofModel|
        representable(m) && validate_static_spec(m) is None && #[trigger] cairo_proof_encoding(m)
            == bytes
}

fn read_program(
    bytes: &[u8],
    cursor: &mut usize,
    Ghost(has): Ghost<bool>,
    Ghost(fs): Ghost<Seq<Field>>,
    Ghost(k): Ghost<int>,
    Ghost(ps): Ghost<Seq<Seq<u8>>>,
) -> (r: Result<CairoProgramCommitments, CairoStarkError>)
    requires
        *old(cursor) <= bytes@.len(),
        0 <= k,
        k + 5 <= fs.len(),
        k + 5 <= 28,
        read_fields_spec(bytes@, 5, k as nat) == FieldsRead::Read(ps, *old(cursor) as int),
        forall|j: int| k <= j < k + 5 ==> #[trigger] cairo_field_kinds()[j] is Hash,
        suffix_is(bytes@, *old(cursor) as int, rest_at(has, fs, k)),
        has ==> forall|j: int| k <= j < k + 5 ==> #[trigger] fs[j] is Fixed && field_payload(fs[j]).len() == 32,
    ensures
        *final(cursor) <= bytes@.len(),
        r matches Err(e) ==> e@ is DeserializationFailed,
        r matches Ok(p) ==> read_fields_spec(bytes@, 5, (k + 5) as nat) == FieldsRead::Read(
            ps + seq![p@.cairo, p@.sierra, p@.casm, p@.executable, p@.semantic_binding],
            *final(cursor) as int,
        ),
        r matches Err(e) ==> read_fields_spec(bytes@, 5, 28) matches FieldsRead::Failed(f)
            && failure_matches(f, e@),
        has ==> r is Ok && suffix_is(bytes@, *final(cursor) as int, rest_at(has, fs, k + 5))
            && r->Ok_0@ == (ProgramModel {
                cairo: field_payload(fs[k]),
                sierra: field_payload(fs[k + 1]),
                casm: field_payload(fs[k + 2]),
                executable: field_payload(fs[k + 3]),
                semantic_binding: field_payload(fs[k + 4]),
            }),
{
    let ghost mut acc = ps;
    proof { lemma_rest_step(has, fs, k); lemma_field_read(bytes@, k as nat, acc, *cursor as int, FieldKind::Hash); }
    let cairo = match read_hash(bytes, cursor, Ghost(rest_at(has, fs, k))) { Ok(h) => h, Err(e) => { return Err(e); } };
    proof { acc = acc.push(cairo@); }
    proof { lemma_rest_step(has, fs, k + 1); lemma_field_read(bytes@, (k + 1) as nat, acc, *cursor as int, FieldKind::Hash); }
    let sierra = match read_hash(bytes, cursor, Ghost(rest_at(has, fs, k + 1))) { Ok(h) => h, Err(e) => { return Err(e); } };
    proof { acc = acc.push(sierra@); }
    proof { lemma_rest_step(has, fs, k + 2); lemma_field_read(bytes@, (k + 2) as nat, acc, *cursor as int, FieldKind::Hash); }
    let casm = match read_hash(bytes, cursor, Ghost(rest_at(has, fs, k + 2))) { Ok(h) => h, Err(e) => { return Err(e); } };
    proof { acc = acc.push(casm@); }
    proof { lemma_rest_step(has, fs, k + 3); lemma_field_read(bytes@, (k + 3) as nat, acc, *cursor as int, FieldKind::Hash); }
    let executable = match read_hash(bytes, cursor, Ghost(rest_at(has, fs, k + 3))) { Ok(h) => h, Err(e) => { return Err(e); } };
    proof { acc = acc.push(executable@); }
    proof { lemma_rest_step(has, fs, k + 4); lemma_field_read(bytes@, (k + 4) as nat, acc, *cursor as int, FieldKind::Hash); }
    let semantic = match read_hash(bytes, cursor, Ghost(rest_at(has, fs, k + 4))) { Ok(h) => h, Err(e) => { return Err(e); } };
    proof {
        acc = acc.push(semantic@);
        assert(acc =~= ps + seq![cairo@, sierra@, casm@, executable@, semantic@]);
    }
    Ok(CairoProgramCommitments {
        cairo_program_hash: cairo,
        sierra_program_hash: sierra,
        casm_program_hash: casm,
        executable_program_hash: executable,
        semantic_binding_hash: semantic,
    })
}


/// Fields of the artifact before the certificate.
struct HeadFields {
    backend_id: String,
    program: CairoProgramCommitments,
    cairo_trace_hash: crate::types::Hash,
    public_input_hash: crate::types::Hash,
    constraint_commitment: crate::types::Hash,
    statement_hash: crate::types::Hash,
    proof_hash: crate::types::Hash,
    proof_bytes: Vec<u8>,
}

/// Payloads of the fields before the certificate, as decoded.
spec fn head_payloads(h: HeadFields) -> Seq<Seq<u8>> {
    seq![
        utf8_bytes(h.backend_id@),
        h.program@.cairo,
        h.program@.sierra,
        h.program@.casm,
        h.program@.executable,
        h.program@.semantic_binding,
        h.cairo_trace_hash@,
        h.public_input_hash@,
        h.constraint_commitment@,
        h.statement_hash@,
        h.proof_hash@,
        h.proof_bytes@,
    ]
}

/// Whether the field list has the shape of the encoding's fields.
pub open spec fn cairo_field_shape(fs: Seq<Field>) -> bool {
    &&& fs.len() == 28
    &&& fs[0] is Var && fs[11] is Var && fs[12] is Var && fs[13] is Var && fs[15] is Var
    &&& forall|j: int|
        0 <= j < 28 && j != 0 && j != 11 && j != 12 && j != 13 && j != 15 && j != 27
            ==> #[trigger] fs[j] is Fixed && field_payload(fs[j]).len() == 32
    &&& fs[27] is Fixed && field_payload(fs[27]).len() == 1
    &&& field_payload(fs[0]).len() < 0x1_0000_0000 && field_payload(fs[0]).len() > 0
        && valid_utf8(field_payload(fs[0]))
    &&& field_payload(fs[11]).len() < 0x1_0000_0000
    &&& field_payload(fs[12]).len() < 0x1_0000_0000 && field_payload(fs[12]).len() > 0
        && valid_utf8(field_payload(fs[12]))
    &&& field_payload(fs[13]).len() < 0x1_0000_0000 && field_payload(fs[13]).len() > 0
        && valid_utf8(field_payload(fs[13]))
    &&& field_payload(fs[15]).len() < 0x1_0000_0000 && field_payload(fs[15]).len() > 0
        && valid_utf8(field_payload(fs[15]))
}

fn decode_head(bytes: &[u8], cursor: &mut usize, Ghost(has): Ghost<bool>, Ghost(fs): Ghost<Seq<Field>>) -> (r: Result<
    HeadFields,
    CairoStarkError,
>)
    requires
        *old(cursor) <= bytes@.len(),
        *old(cursor) == 5,
        has ==> cairo_field_shape(fs),
        fs.len() == 28,
        suffix_is(bytes@, *old(cursor) as int, rest_at(has, fs, 0)),
    ensures
        *final(cursor) <= bytes@.len(),
        r matches Ok(h) ==> utf8_bytes(h.backend_id@).len() < 0x1_0000_0000
            && h.proof_bytes@.len() < 0x1_0000_0000,
        r matches Ok(h) ==> read_fields_spec(bytes@, 5, 12) == FieldsRead::Read(
            head_payloads(h),
            *final(cursor) as int,
        ),
        r matches Err(e) ==> read_fields_spec(bytes@, 5, 28) matches FieldsRead::Failed(f)
            && failure_matches(f, e@),
        r matches Err(e) ==> e@ is DeserializationFailed,
        has ==> r is Ok && suffix_is(bytes@, *final(cursor) as int, rest_at(has, fs, 12)) && {
            let h = r->Ok_0;
            &&& h.backend_id@ == decode_utf8(field_payload(fs[0]))
            &&& h.program@ == (ProgramModel {
                cairo: field_payload(fs[1]),
                sierra: field_payload(fs[2]),
                casm: field_payload(fs[3]),
                executable: field_payload(fs[4]),
                semantic_binding: field_payload(fs[5]),
            })
            &&& h.cairo_trace_hash@ == field_payload(fs[6])
            &&& h.public_input_hash@ == field_payload(fs[7])
            &&& h.constraint_commitment@ == field_payload(fs[8])
            &&& h.statement_hash@ == field_payload(fs[9])
            &&& h.proof_hash@ == field_payload(fs[10])
            &&& h.proof_bytes@ == field_payload(fs[11])
        },
{
    let ghost mut acc = Seq::<Seq<u8>>::empty();
    proof { lemma_field_kinds(); lemma_no_fields_read(bytes@); }
    proof { lemma_rest_step(has, fs, 0); lemma_field_read(bytes@, 0, acc, *cursor as int, FieldKind::Text); }
    let backend_id = match read_string(bytes, cursor, Ghost(rest_at(has, fs, 0))) { Ok(v) => v, Err(e) => { return Err(e); } };
    proof { acc = acc.push(utf8_bytes(backend_id@)); assert(has ==> fs[1] is Fixed); }
    let program = match read_program(bytes, cursor, Ghost(has), Ghost(fs), Ghost(1), Ghost(acc)) { Ok(v) => v, Err(e) => { return Err(e); } };
    proof {
        acc = acc + seq![program@.cairo, program@.sierra, program@.casm, program@.executable, program@.semantic_binding];
        lemma_rest_step(has, fs, 6); assert(has ==> fs[6] is Fixed);
        lemma_field_read(bytes@, 6, acc, *cursor as int, FieldKind::Hash);
    }
    let cairo_trace_hash = match read_hash(bytes, cursor, Ghost(rest_at(has, fs, 6))) { Ok(v) => v, Err(e) => { return Err(e); } };
    proof {
        acc = acc.push(cairo_trace_hash@);
        lemma_rest_step(has, fs, 7); assert(has ==> fs[7] is Fixed);
        lemma_field_read(bytes@, 7, acc, *cursor as int, FieldKind::Hash);
    }
    let public_input_hash = match read_hash(bytes, cursor, Ghost(rest_at(has, fs, 7))) { Ok(v) => v, Err(e) => { return Err(e); } };
    proof {
        acc = acc.push(public_input_hash@);
        lemma_rest_step(has, fs, 8); assert(has ==> fs[8] is Fixed);
        lemma_field_read(bytes@, 8, acc, *cursor as int, FieldKind::Hash);
    }
    let constraint_commitment = match read_hash(bytes, cursor, Ghost(rest_at(has, fs, 8))) { Ok(v) => v, Err(e) => { return Err(e); } };
    proof {
        acc = acc.push(constraint_commitment@);
        lemma_rest_step(has, fs, 9); assert(has ==> fs[9] is Fixed);
        lemma_field_read(bytes@, 9, acc, *cursor as int, FieldKind::Hash);
    }
    let statement_hash = match read_hash(bytes, cursor, Ghost(rest_at(has, fs, 9))) { Ok(v) => v, Err(e) => { return Err(e); } };
    proof {
        acc = acc.push(statement_hash@);
        lemma_rest_step(has, fs, 10); assert(has ==> fs[10] is Fixed);
        lemma_field_read(bytes@, 10, acc, *cursor as int, FieldKind::Hash);
    }
    let proof_hash = match read_hash(bytes, cursor, Ghost(rest_at(has, fs, 10))) { Ok(v) => v, Err(e) => { return Err(e); } };
    proof {
        acc = acc.push(proof_hash@);
        lemma_rest_step(has, fs, 11);
        lemma_field_read(bytes@, 11, acc, *cursor as int, FieldKind::Bytes);
    }
    let proof_bytes = match read_bytes(bytes, cursor, Ghost(rest_at(has, fs, 11))) { Ok(v) => v, Err(e) => { return Err(e); } };
    proof { acc = acc.push(proof_bytes@); }
    let h = HeadFields {
        backend_id,
        program,
        cairo_trace_hash,
        public_input_hash,
        constraint_commitment,
        statement_hash,
        proof_hash,
        proof_bytes,
    };
    assert(acc =~= head_payloads(h));
    Ok(h)
}

fn decode_certificate(
    bytes: &[u8],
    cursor: &mut usize,
    Ghost(has): Ghost<bool>,
    Ghost(fs): Ghost<Seq<Field>>,
    Ghost(ps): Ghost<Seq<Seq<u8>>>,
) -> (r: Result<CairoVerifierCertificate, CairoStarkError>)
    requires
        *old(cursor) <= bytes@.len(),
        has ==> cairo_field_shape(fs),
        fs.len() == 28,
        suffix_is(bytes@, *old(cursor) as int, rest_at(has, fs, 12)),
        read_fields_spec(bytes@, 5, 12) == FieldsRead::Read(ps, *old(cursor) as int),
        ps.len() == 12,
    ensures
        *final(cursor) <= bytes@.len(),
        r matches Ok(c) ==> utf8_bytes(c.adapter_id@).len() < 0x1_0000_0000 && utf8_bytes(
            c.verifier_version@,
        ).len() < 0x1_0000_0000 && utf8_bytes(c.backend_id@).len() < 0x1_0000_0000,
        r matches Ok(c) ==> read_fields_spec(bytes@, 5, 28) matches FieldsRead::Read(all, end)
            && end == *final(cursor) && all.len() == 28 && all.subrange(0, 27) == ps + seq![
            utf8_bytes(c@.adapter_id),
            utf8_bytes(c@.verifier_version),
            c@.verifier_binary_hash,
            utf8_bytes(c@.backend_id),
            c@.program.cairo,
            c@.program.sierra,
            c@.program.casm,
            c@.program.executable,
            c@.program.semantic_binding,
            c@.cairo_trace_hash,
            c@.public_input_hash,
            c@.constraint_commitment,
            c@.statement_hash,
            c@.proof_hash,
            c@.transcript_hash,
        ] && all[27].len() == 1 && (all[27][0] == 1u8) == c@.accepted,
        r matches Err(e) ==> read_fields_spec(bytes@, 5, 28) matches FieldsRead::Failed(f)
            && failure_matches(f, e@),
        r matches Err(e) ==> e@ is DeserializationFailed,
        has ==> r is Ok && *final(cursor) == bytes@.len() && {
            let c = r->Ok_0;
            &&& c.adapter_id@ == decode_utf8(field_payload(fs[12]))
            &&& c.verifier_version@ == decode_utf8(field_payload(fs[13]))
            &&& c.verifier_binary_hash@ == field_payload(fs[14])
            &&& c.backend_id@ == decode_utf8(field_payload(fs[15]))
            &&& c.program@ == (ProgramModel {
                cairo: field_payload(fs[16]),
                sierra: field_payload(fs[17]),
                casm: field_payload(fs[18]),
                executable: field_payload(fs[19]),
                semantic_binding: field_payload(fs[20]),
            })
            &&& c.cairo_trace_hash@ == field_payload(fs[21])
            &&& c.public_input_hash@ == field_payload(fs[22])
            &&& c.constraint_commitment@ == field_payload(fs[23])
            &&& c.statement_hash@ == field_payload(fs[24])
            &&& c.proof_hash@ == field_payload(fs[25])
            &&& c.transcript_hash@ == field_payload(fs[26])
            &&& c.accepted == (field_payload(fs[27])[0] == 1u8)
        },
{
    let ghost mut acc = ps;
    proof { lemma_field_kinds(); }
    proof { lemma_rest_step(has, fs, 12); lemma_field_read(bytes@, 12, acc, *cursor as int, FieldKind::Text); }
    let adapter_id = match read_string(bytes, cursor, Ghost(rest_at(has, fs, 12))) { Ok(v) => v, Err(e) => { return Err(e); } };
    proof {
        acc = acc.push(utf8_bytes(adapter_id@));
        lemma_rest_step(has, fs, 13);
        lemma_field_read(bytes@, 13, acc, *cursor as int, FieldKind::Text);
    }
    let verifier_version = match read_string(bytes, cursor, Ghost(rest_at(has, fs, 13))) { Ok(v) => v, Err(e) => { return Err(e); } };
    proof {
        acc = acc.push(utf8_bytes(verifier_version@));
        lemma_rest_step(has, fs, 14); assert(has ==> fs[14] is Fixed);
        lemma_field_read(bytes@, 14, acc, *cursor as int, FieldKind::Hash);
    }
    let verifier_binary_hash = match read_hash(bytes, cursor, Ghost(rest_at(has, fs, 14))) { Ok(v) => v, Err(e) => { return Err(e); } };
    proof {
        acc = acc.push(verifier_binary_hash@);
        lemma_rest_step(has, fs, 15);
        lemma_field_read(bytes@, 15, acc, *cursor as int, FieldKind::Text);
    }
    let backend_id = match read_string(bytes, cursor, Ghost(rest_at(has, fs, 15))) { Ok(v) => v, Err(e) => { return Err(e); } };
    proof { acc = acc.push(utf8_bytes(backend_id@)); assert(has ==> fs[16] is Fixed); }
    let program = match read_program(bytes, cursor, Ghost(has), Ghost(fs), Ghost(16), Ghost(acc)) { Ok(v) => v, Err(e) => { return Err(e); } };
    proof {
        acc = acc + seq![program@.cairo, program@.sierra, program@.casm, program@.executable, program@.semantic_binding];
        lemma_rest_step(has, fs, 21); assert(has ==> fs[21] is Fixed);
        lemma_field_read(bytes@, 21, acc, *cursor as int, FieldKind::Hash);
    }
    let cairo_trace_hash = match read_hash(bytes, cursor, Ghost(rest_at(has, fs, 21))) { Ok(v) => v, Err(e) => { return Err(e); } };
    proof {
        acc = acc.push(cairo_trace_hash@);
        lemma_rest_step(has, fs, 22); assert(has ==> fs[22] is Fixed);
        lemma_field_read(bytes@, 22, acc, *cursor as int, FieldKind::Hash);
    }
    let public_input_hash = match read_hash(bytes, cursor, Ghost(rest_at(has, fs, 22))) { Ok(v) => v, Err(e) => { return Err(e); } };
    proof {
        acc = acc.push(public_input_hash@);
        lemma_rest_step(has, fs, 23); assert(has ==> fs[23] is Fixed);
        lemma_field_read(bytes@, 23, acc, *cursor as int, FieldKind::Hash);
    }
    let constraint_commitment = match read_hash(bytes, cursor, Ghost(rest_at(has, fs, 23))) { Ok(v) => v, Err(e) => { return Err(e); } };
    proof {
        acc = acc.push(constraint_commitment@);
        lemma_rest_step(has, fs, 24); assert(has ==> fs[24] is Fixed);
        lemma_field_read(bytes@, 24, acc, *cursor as int, FieldKind::Hash);
    }
    let statement_hash = match read_hash(bytes, cursor, Ghost(rest_at(has, fs, 24))) { Ok(v) => v, Err(e) => { return Err(e); } };
    proof {
        acc = acc.push(statement_hash@);
        lemma_rest_step(has, fs, 25); assert(has ==> fs[25] is Fixed);
        lemma_field_read(bytes@, 25, acc, *cursor as int, FieldKind::Hash);
    }
    let proof_hash = match read_hash(bytes, cursor, Ghost(rest_at(has, fs, 25))) { Ok(v) => v, Err(e) => { return Err(e); } };
    proof {
        acc = acc.push(proof_hash@);
        lemma_rest_step(has, fs, 26); assert(has ==> fs[26] is Fixed);
        lemma_field_read(bytes@, 26, acc, *cursor as int, FieldKind::Hash);
    }
    let transcript_hash = match read_hash(bytes, cursor, Ghost(rest_at(has, fs, 26))) { Ok(v) => v, Err(e) => { return Err(e); } };
    proof {
        acc = acc.push(transcript_hash@);
        lemma_field_read(bytes@, 27, acc, *cursor as int, FieldKind::Flag);
        lemma_flag_read(bytes@, *cursor as int);
        lemma_rest_step(has, fs, 27);
        if has {
            lemma_fields_bytes_split(bytes@, *cursor as int, fs.subrange(27, 28));
            assert(fs.subrange(27, 28).drop_first() =~= Seq::<Field>::empty());
        }
    }
    let accepted_raw = match read_exact(bytes, cursor, 1) { Ok(v) => v, Err(e) => { return Err(e); } };
    proof {
        if has {
            assert(bytes@.subrange(*cursor as int, bytes@.len() as int) =~= Seq::<u8>::empty());
        }
        assert(acc.push(accepted_raw@).subrange(0, 27) =~= acc);
        assert(acc =~= ps + seq![
            utf8_bytes(adapter_id@),
            utf8_bytes(verifier_version@),
            verifier_binary_hash@,
            utf8_bytes(backend_id@),
            program@.cairo,
            program@.sierra,
            program@.casm,
            program@.executable,
            program@.semantic_binding,
            cairo_trace_hash@,
            public_input_hash@,
            constraint_commitment@,
            statement_hash@,
            proof_hash@,
            transcript_hash@,
        ]);
    }
    Ok(CairoVerifierCertificate {
        adapter_id,
        verifier_version,
        verifier_binary_hash,
        backend_id,
        program,
        cairo_trace_hash,
        public_input_hash,
        constraint_commitment,
        statement_hash,
        proof_hash,
        transcript_hash,
        accepted: accepted_raw[0] == 1,
    })
}

/// A statically valid, representable artifact has fields of the shape that
/// decoding reads.
proof fn lemma_valid_field_shape(m: CairoProofModel)
    requires
        representable(m),
        validate_static_spec(m) is None,
    ensures
        cairo_field_shape(cairo_fields(m)),
        decode_utf8(utf8_bytes(m.backend_id)) == m.backend_id,
        decode_utf8(utf8_bytes(m.certificate.adapter_id)) == m.certificate.adapter_id,
        decode_utf8(utf8_bytes(m.certificate.verifier_version)) == m.certificate.verifier_version,
        decode_utf8(utf8_bytes(m.certificate.backend_id)) == m.certificate.backend_id,
{
    lemma_cairo_fields_at(m);
    lemma_utf8_string(m.backend_id);
    lemma_utf8_string(m.certificate.adapter_id);
    lemma_utf8_string(m.certificate.verifier_version);
    lemma_utf8_string(m.certificate.backend_id);
    reveal_strlit("cairo-stark/");
    assert(m.backend_id.len() >= 12);
    let fs = cairo_fields(m);
    assert forall|j: int|
        0 <= j < 28 && j != 0 && j != 11 && j != 12 && j != 13 && j != 15 && j != 27
            implies #[trigger] fs[j] is Fixed && field_payload(fs[j]).len() == 32 by {
    }
}

// ---------------------------------------------------------------------------
// Decoding, field by field
// ---------------------------------------------------------------------------

/// How a field of the encoding is read.
pub enum FieldKind {
    /// 32 bytes.
    Hash,
    /// A length-prefixed byte string.
    Bytes,
    /// A length-prefixed, non-empty UTF-8 string.
    Text,
    /// One byte.
    Flag,
}

/// The kinds of the encoding's fields, in order.
#[verifier::opaque]
pub open spec fn cairo_field_kinds() -> Seq<FieldKind> {
    seq![
        FieldKind::Text,
        FieldKind::Hash,
        FieldKind::Hash,
        FieldKind::Hash,
        FieldKind::Hash,
        FieldKind::Hash,
        FieldKind::Hash,
        FieldKind::Hash,
        FieldKind::Hash,
        FieldKind::Hash,
        FieldKind::Hash,
        FieldKind::Bytes,
        FieldKind::Text,
        FieldKind::Text,
        FieldKind::Hash,
        FieldKind::Text,
        FieldKind::Hash,
        FieldKind::Hash,
        FieldKind::Hash,
        FieldKind::Hash,
        FieldKind::Hash,
        FieldKind::Hash,
        FieldKind::Hash,
        FieldKind::Hash,
        FieldKind::Hash,
        FieldKind::Hash,
        FieldKind::Hash,
        FieldKind::Flag,
    ]
}

/// What goes wrong first when decoding an artifact.
pub enum CairoDecodeFailure {
    /// The error.
    Error(CairoStarkErrorModel),
    /// A string field is not UTF-8: a deserialization error whose text is
    /// the decoder's report after a fixed prefix.
    NotUtf8,
}

/// Whether `e` is the error of the decoding failure `f`.
pub open spec fn failure_matches(f: CairoDecodeFailure, e: CairoStarkErrorModel) -> bool {
    match f {
        CairoDecodeFailure::Error(m) => e == m,
        CairoDecodeFailure::NotUtf8 => e matches CairoStarkErrorModel::DeserializationFailed(t)
            && has_prefix(t, "invalid UTF-8: "@),
    }
}

/// The failure of data that ends before `need` bytes at `pos`.
pub open spec fn truncated_failure(b: Seq<u8>, pos: int, need: int) -> CairoDecodeFailure {
    CairoDecodeFailure::Error(
        CairoStarkErrorModel::DeserializationFailed(
            truncated_message(pos as nat, need as nat, b.len()),
        ),
    )
}

/// Reading one field: its payload and the position after it, or why not.
pub enum FieldRead {
    Read(Seq<u8>, int),
    Failed(CairoDecodeFailure),
}

/// Reading `n` bytes at `pos`.
pub open spec fn fixed_read(b: Seq<u8>, pos: int, n: int) -> FieldRead {
    if pos + n <= b.len() {
        FieldRead::Read(b.subrange(pos, pos + n), pos + n)
    } else {
        FieldRead::Failed(truncated_failure(b, pos, n))
    }
}

/// Reading a length-prefixed byte string at `pos`.
pub open spec fn var_read(b: Seq<u8>, pos: int) -> FieldRead {
    if pos + 4 > b.len() {
        FieldRead::Failed(truncated_failure(b, pos, 4))
    } else {
        let n = crate::encoding::le_u32_value(b.subrange(pos, pos + 4));
        fixed_read(b, pos + 4, n)
    }
}

/// Reading a field of the given kind at `pos`.
#[verifier::opaque]
pub open spec fn read_field_spec(b: Seq<u8>, pos: int, k: FieldKind) -> FieldRead {
    match k {
        FieldKind::Hash => fixed_read(b, pos, 32),
        FieldKind::Flag => fixed_read(b, pos, 1),
        FieldKind::Bytes => var_read(b, pos),
        FieldKind::Text => match var_read(b, pos) {
            FieldRead::Failed(f) => FieldRead::Failed(f),
            FieldRead::Read(p, q) => if p.len() == 0 {
                FieldRead::Failed(
                    CairoDecodeFailure::Error(
                        CairoStarkErrorModel::DeserializationFailed("empty string field"@),
                    ),
                )
            } else if !valid_utf8(p) {
                FieldRead::Failed(CairoDecodeFailure::NotUtf8)
            } else {
                FieldRead::Read(p, q)
            },
        },
    }
}

/// Reading the first `n` fields from `pos`: their payloads and the position
/// after them, or the first failure.
pub enum FieldsRead {
    Read(Seq<Seq<u8>>, int),
    Failed(CairoDecodeFailure),
}

/// Reading the first `n` fields of the encoding from `pos`.
#[verifier::opaque]
pub open spec fn read_fields_spec(b: Seq<u8>, pos: int, n: nat) -> FieldsRead
    decreases n,
{
    if n == 0 {
        FieldsRead::Read(Seq::empty(), pos)
    } else {
        match read_fields_spec(b, pos, (n - 1) as nat) {
            FieldsRead::Failed(f) => FieldsRead::Failed(f),
            FieldsRead::Read(ps, q) => match read_field_spec(b, q, cairo_field_kinds()[n - 1]) {
                FieldRead::Failed(f) => FieldsRead::Failed(f),
                FieldRead::Read(p, r) => FieldsRead::Read(ps.push(p), r),
            },
        }
    }
}

/// The artifact that the payloads of the encoding's fields give.
pub open spec fn model_from_payloads(ps: Seq<Seq<u8>>) -> CairoProofModel {
    CairoProofModel {
        backend_id: decode_utf8(ps[0]),
        program: ProgramModel { cairo: ps[1], sierra: ps[2], casm: ps[3], executable: ps[4], semantic_binding: ps[5] },
        cairo_trace_hash: ps[6],
        public_input_hash: ps[7],
        constraint_commitment: ps[8],
        statement_hash: ps[9],
        proof_hash: ps[10],
        proof_bytes: ps[11],
        certificate: CertificateModel {
            adapter_id: decode_utf8(ps[12]),
            verifier_version: decode_utf8(ps[13]),
            verifier_binary_hash: ps[14],
            backend_id: decode_utf8(ps[15]),
            program: ProgramModel {
                cairo: ps[16],
                sierra: ps[17],
                casm: ps[18],
                executable: ps[19],
                semantic_binding: ps[20],
            },
            cairo_trace_hash: ps[21],
            public_input_hash: ps[22],
            constraint_commitment: ps[23],
            statement_hash: ps[24],
            proof_hash: ps[25],
            transcript_hash: ps[26],
            accepted: ps[27][0] == 1u8,
        },
    }
}

/// What goes wrong first when decoding an artifact, if anything: the
/// magic bytes and version, each field in order, trailing bytes, the
/// static validation of the decoded artifact, and canonical form.
#[verifier::opaque]
pub open spec fn cairo_decode_failure(b: Seq<u8>) -> Option<CairoDecodeFailure> {
    if b.len() < 4 {
        Some(truncated_failure(b, 0, 4))
    } else if b.subrange(0, 4) != cairo_magic() {
        Some(
            CairoDecodeFailure::Error(
                CairoStarkErrorModel::DeserializationFailed("invalid magic bytes: expected VCAI"@),
            ),
        )
    } else if b.len() < 5 {
        Some(truncated_failure(b, 4, 1))
    } else if b[4] != 1u8 {
        Some(
            CairoDecodeFailure::Error(
                CairoStarkErrorModel::DeserializationFailed(
                    "unsupported Cairo proof version: "@ + decimal_spec(b[4] as nat),
                ),
            ),
        )
    } else {
        match read_fields_spec(b, 5, 28) {
            FieldsRead::Failed(f) => Some(f),
            FieldsRead::Read(ps, end) => if end != b.len() {
                Some(
                    CairoDecodeFailure::Error(
                        CairoStarkErrorModel::DeserializationFailed(
                            "trailing bytes after Cairo proof decode"@,
                        ),
                    ),
                )
            } else {
                decoded_artifact_failure(b, model_from_payloads(ps))
            },
        }
    }
}

/// What is wrong with the artifact that all of `b` decodes to, if
/// anything: its static validation, then whether `b` is its canonical
/// encoding.
pub open spec fn decoded_artifact_failure(b: Seq<u8>, m: CairoProofModel) -> Option<CairoDecodeFailure> {
    if validate_static_spec(m) is Some {
        Some(CairoDecodeFailure::Error(CairoStarkErrorModel::VerificationFailed(validate_static_spec(m)->0)))
    } else if cairo_proof_encoding(m) != b {
        Some(
            CairoDecodeFailure::Error(
                CairoStarkErrorModel::DeserializationFailed("non-canonical Cairo proof serialization"@),
            ),
        )
    } else {
        None
    }
}

/// The decoding failure of data whose magic bytes and version are right is
/// that of its fields.
proof fn lemma_decode_failure_body(b: Seq<u8>)
    requires
        b.len() >= 5,
        b.subrange(0, 4) == cairo_magic(),
        b[4] == 1u8,
    ensures
        read_fields_spec(b, 5, 28) matches FieldsRead::Failed(f) ==> cairo_decode_failure(b) == Some(f),
        read_fields_spec(b, 5, 28) matches FieldsRead::Read(ps, end) ==> cairo_decode_failure(b) == (
        if end != b.len() {
            Some(
                CairoDecodeFailure::Error(
                    CairoStarkErrorModel::DeserializationFailed(
                        "trailing bytes after Cairo proof decode"@,
                    ),
                ),
            )
        } else {
            decoded_artifact_failure(b, model_from_payloads(ps))
        }),
{
    reveal(cairo_decode_failure);
}

/// The decoding failure of data whose magic bytes or version are wrong.
proof fn lemma_decode_failure_header(b: Seq<u8>)
    ensures
        b.len() < 4 ==> cairo_decode_failure(b) == Some(truncated_failure(b, 0, 4)),
        b.len() >= 4 && b.subrange(0, 4) != cairo_magic() ==> cairo_decode_failure(b) == Some(
            CairoDecodeFailure::Error(
                CairoStarkErrorModel::DeserializationFailed("invalid magic bytes: expected VCAI"@),
            ),
        ),
        b.len() == 4 && b.subrange(0, 4) == cairo_magic() ==> cairo_decode_failure(b) == Some(
            truncated_failure(b, 4, 1),
        ),
        b.len() >= 5 && b.subrange(0, 4) == cairo_magic() && b[4] != 1u8 ==> cairo_decode_failure(b)
            == Some(
            CairoDecodeFailure::Error(
                CairoStarkErrorModel::DeserializationFailed(
                    "unsupported Cairo proof version: "@ + decimal_spec(b[4] as nat),
                ),
            ),
        ),
{
    reveal(cairo_decode_failure);
}

/// One more field read after the first `j`.
proof fn lemma_field_step(b: Seq<u8>, j: nat, ps: Seq<Seq<u8>>, q: int)
    requires
        j < 28,
        read_fields_spec(b, 5, j) == FieldsRead::Read(ps, q),
    ensures
        read_fields_spec(b, 5, j + 1) == match read_field_spec(b, q, cairo_field_kinds()[j as int]) {
            FieldRead::Read(p, r) => FieldsRead::Read(ps.push(p), r),
            FieldRead::Failed(f) => FieldsRead::Failed(f),
        },
{
    reveal(read_fields_spec);
}

/// The artifact that the decoded payloads give is the decoded artifact.
proof fn lemma_model_of_payloads(all: Seq<Seq<u8>>, h: HeadFields, c: CertificateModel)
    requires
        all.len() == 28,
        all.subrange(0, 27) == head_payloads(h) + seq![
            utf8_bytes(c.adapter_id),
            utf8_bytes(c.verifier_version),
            c.verifier_binary_hash,
            utf8_bytes(c.backend_id),
            c.program.cairo,
            c.program.sierra,
            c.program.casm,
            c.program.executable,
            c.program.semantic_binding,
            c.cairo_trace_hash,
            c.public_input_hash,
            c.constraint_commitment,
            c.statement_hash,
            c.proof_hash,
            c.transcript_hash,
        ],
        all[27].len() == 1,
        (all[27][0] == 1u8) == c.accepted,
    ensures
        model_from_payloads(all) == (CairoProofModel {
            backend_id: h.backend_id@,
            program: h.program@,
            cairo_trace_hash: h.cairo_trace_hash@,
            public_input_hash: h.public_input_hash@,
            constraint_commitment: h.constraint_commitment@,
            statement_hash: h.statement_hash@,
            proof_hash: h.proof_hash@,
            proof_bytes: h.proof_bytes@,
            certificate: c,
        }),
{
    let pre = all.subrange(0, 27);
    assert forall|i: int| 0 <= i < 27 implies all[i] == pre[i] by {}
    lemma_utf8_string(h.backend_id@);
    lemma_utf8_string(c.adapter_id);
    lemma_utf8_string(c.verifier_version);
    lemma_utf8_string(c.backend_id);
    assert(all[0] == pre[0]);
    assert(all[12] == pre[12]);
    assert(all[13] == pre[13]);
    assert(all[15] == pre[15]);
    assert(model_from_payloads(all).program == h.program@) by {
        assert(all[1] == pre[1]);
        assert(all[2] == pre[2]);
        assert(all[3] == pre[3]);
        assert(all[4] == pre[4]);
        assert(all[5] == pre[5]);
    }
    assert(model_from_payloads(all).certificate.program == c.program) by {
        assert(all[16] == pre[16]);
        assert(all[17] == pre[17]);
        assert(all[18] == pre[18]);
        assert(all[19] == pre[19]);
        assert(all[20] == pre[20]);
    }
}

/// Reading the flag field reads one byte.
proof fn lemma_flag_read(b: Seq<u8>, q: int)
    ensures
        read_field_spec(b, q, FieldKind::Flag) == fixed_read(b, q, 1),
{
    reveal(read_field_spec);
}

/// Nothing is read before the first field.
proof fn lemma_no_fields_read(b: Seq<u8>)
    ensures
        read_fields_spec(b, 5, 0) == FieldsRead::Read(Seq::empty(), 5),
{
    reveal(read_fields_spec);
}

/// The kinds of the encoding's fields, one by one.
proof fn lemma_field_kinds()
    ensures
        cairo_field_kinds().len() == 28,
        cairo_field_kinds()[0] == FieldKind::Text,
        forall|j: int| 1 <= j <= 10 ==> #[trigger] cairo_field_kinds()[j] == FieldKind::Hash,
        cairo_field_kinds()[11] == FieldKind::Bytes,
        cairo_field_kinds()[12] == FieldKind::Text,
        cairo_field_kinds()[13] == FieldKind::Text,
        cairo_field_kinds()[14] == FieldKind::Hash,
        cairo_field_kinds()[15] == FieldKind::Text,
        forall|j: int| 16 <= j <= 26 ==> #[trigger] cairo_field_kinds()[j] == FieldKind::Hash,
        cairo_field_kinds()[27] == FieldKind::Flag,
{
    reveal(cairo_field_kinds);
}

/// A failure among the first `j` fields is the failure of the first `n`.
proof fn lemma_failed_extends(b: Seq<u8>, j: nat, n: nat)
    requires
        j <= n,
        read_fields_spec(b, 5, j) is Failed,
    ensures
        read_fields_spec(b, 5, n) == read_fields_spec(b, 5, j),
    decreases n - j,
{
    reveal(read_fields_spec);
    if j < n {
        lemma_failed_extends(b, j, (n - 1) as nat);
    }
}

/// Reading field `j`, of kind `k`, after the first `j`: a payload extends
/// the read fields, and a failure is the failure of reading them all.
proof fn lemma_field_read(b: Seq<u8>, j: nat, ps: Seq<Seq<u8>>, q: int, k: FieldKind)
    requires
        j < 28,
        read_fields_spec(b, 5, j) == FieldsRead::Read(ps, q),
        cairo_field_kinds()[j as int] == k,
    ensures
        read_field_spec(b, q, k) matches FieldRead::Read(p, r) ==> read_fields_spec(b, 5, j + 1)
            == FieldsRead::Read(ps.push(p), r),
        read_field_spec(b, q, k) matches FieldRead::Failed(f) ==> read_fields_spec(b, 5, 28)
            == FieldsRead::Failed(f),
{
    lemma_field_step(b, j, ps, q);
    if read_field_spec(b, q, k) is Failed {
        lemma_failed_extends(b, j + 1, 28);
    }
}

impl CairoStarkProof {
    /// Decodes a canonical `VCAI` v1 encoding: succeeds exactly on the
    /// encodings of statically valid artifacts, and caches the input as the
    /// artifact's encoding.
    pub fn from_bytes(bytes: &[u8]) -> (r: Result<CairoStarkProof, CairoStarkError>)
        ensures
            r matches Ok(p) ==> validate_static_spec(p@) is None && cairo_proof_encoding(p@)
                == bytes@ && p.serialized@ == bytes@ && representable(p@),
            encodes_valid_artifact(bytes@) ==> r is Ok,
            r is Ok <==> cairo_decode_failure(bytes@) is None,
            r matches Err(e) ==> cairo_decode_failure(bytes@) matches Some(f) && failure_matches(f, e@),
    {
        let ghost has = encodes_valid_artifact(bytes@);
        let ghost wit = choose|m: CairoProofModel|
            representable(m) && validate_static_spec(m) is None && #[trigger] cairo_proof_encoding(m)
                == bytes@;
        let ghost fs = cairo_fields(wit);
        proof {
            lemma_cairo_fields_at(wit);
            if has {
                lemma_valid_field_shape(wit);
                assert(bytes@.subrange(0, 4) =~= cairo_magic());
                assert(bytes@[4] == 1u8);
                assert(bytes@.subrange(5, bytes@.len() as int) =~= fields_bytes(fs));
                assert(fs.subrange(0, 28) =~= fs);
            }
        }
        proof {
            lemma_decode_failure_header(bytes@);
        }
        let mut cursor: usize = 0;
        let magic = match read_exact(bytes, &mut cursor, 4) {
            Ok(v) => v,
            Err(e) => {
                return Err(e);
            },
        };
        if !(magic[0] == 0x56 && magic[1] == 0x43 && magic[2] == 0x41 && magic[3] == 0x49) {
            proof {
                assert(bytes@.subrange(0, 4) != cairo_magic()) by {
                    if bytes@.subrange(0, 4) == cairo_magic() {
                        assert(magic@ == bytes@.subrange(0, 4));
                    }
                }
            }
            return Err(deserialization_failed("invalid magic bytes: expected VCAI"));
        }
        assert(bytes@.subrange(0, 4) =~= cairo_magic());
        let version_raw = match read_exact(bytes, &mut cursor, 1) {
            Ok(v) => v,
            Err(e) => {
                return Err(e);
            },
        };
        let version = version_raw[0];
        if version != 1 {
            return Err(
                CairoStarkError::DeserializationFailed(
                    concat2("unsupported Cairo proof version: ", decimal(version as u64).as_str()),
                ),
            );
        }
        proof {
            lemma_decode_failure_body(bytes@);
        }
        let head = match decode_head(bytes, &mut cursor, Ghost(has), Ghost(fs)) {
            Ok(h) => h,
            Err(e) => {
                return Err(e);
            },
        };
        let certificate = match decode_certificate(bytes, &mut cursor, Ghost(has), Ghost(fs), Ghost(head_payloads(head))) {
            Ok(c) => c,
            Err(e) => {
                return Err(e);
            },
        };
        let ghost all = read_fields_spec(bytes@, 5, 28)->Read_0;
        if cursor != bytes.len() {
            return Err(deserialization_failed("trailing bytes after Cairo proof decode"));
        }
        proof {
            lemma_model_of_payloads(all, head, certificate@);
        }
        let proof = CairoStarkProof {
            backend_id: head.backend_id,
            program: head.program,
            cairo_trace_hash: head.cairo_trace_hash,
            public_input_hash: head.public_input_hash,
            constraint_commitment: head.constraint_commitment,
            statement_hash: head.statement_hash,
            proof_hash: head.proof_hash,
            proof_bytes: head.proof_bytes,
            verifier_certificate: certificate,
            serialized: crate::types::copy_bytes(bytes),
        };
        proof {
            if has {
                assert(proof@.certificate == wit.certificate);
                assert(proof@ == wit);
            }
            assert(model_from_payloads(all) == proof@);
        }
        match proof.validate_static() {
            Ok(()) => {},
            Err(e) => {
                return Err(e);
            },
        }
        let encoded = proof.to_bytes();
        if !crate::types::bytes_equal(encoded.as_slice(), bytes) {
            return Err(deserialization_failed("non-canonical Cairo proof serialization"));
        }
        Ok(proof)
    }
}


/// Two fields of the same kind whose lengths the encoding determines.
pub open spec fn same_shape(a: Field, b: Field) -> bool {
    match (a, b) {
        (Field::Fixed(x), Field::Fixed(y)) => x.len() == y.len(),
        (Field::Var(x), Field::Var(y)) => x.len() < 0x1_0000_0000 && y.len() < 0x1_0000_0000,
        _ => false,
    }
}

/// Field lists of the same shape with the same bytes are equal.
proof fn lemma_fields_bytes_injective(fs1: Seq<Field>, fs2: Seq<Field>)
    requires
        fs1.len() == fs2.len(),
        forall|i: int| 0 <= i < fs1.len() ==> same_shape(#[trigger] fs1[i], fs2[i]),
        fields_bytes(fs1) == fields_bytes(fs2),
    ensures
        fs1 == fs2,
    decreases fs1.len(),
{
    if fs1.len() > 0 {
        let b = fields_bytes(fs1);
        assert(b.subrange(0, b.len() as int) =~= b);
        lemma_fields_bytes_split(b, 0, fs1);
        lemma_fields_bytes_split(b, 0, fs2);
        assert(same_shape(fs1[0], fs2[0]));
        let x = field_payload(fs1[0]);
        let y = field_payload(fs2[0]);
        if fs1[0] is Fixed {
            assert(field_bytes(fs1[0]) == x && field_bytes(fs2[0]) == y);
            assert(x == y);
        } else {
            assert(field_bytes(fs1[0]) == var_field(x) && field_bytes(fs2[0]) == var_field(y));
            crate::encoding::lemma_u32_le_roundtrip(x.len() as u32);
            crate::encoding::lemma_u32_le_roundtrip(y.len() as u32);
            assert(b.subrange(0, 4) =~= var_field(x).subrange(0, 4));
            assert(b.subrange(0, 4) =~= var_field(y).subrange(0, 4));
            assert(var_field(x).subrange(0, 4) =~= crate::encoding::u32_le(x.len() as u32));
            assert(var_field(y).subrange(0, 4) =~= crate::encoding::u32_le(y.len() as u32));
            assert(x.len() == y.len());
            assert(x =~= var_field(x).subrange(4, var_field(x).len() as int));
            assert(y =~= var_field(y).subrange(4, var_field(y).len() as int));
            assert(x == y);
        }
        assert(fs1[0] == fs2[0]);
        assert forall|i: int| 0 <= i < fs1.drop_first().len() implies same_shape(
            #[trigger] fs1.drop_first()[i],
            fs2.drop_first()[i],
        ) by {
            assert(same_shape(fs1[i + 1], fs2[i + 1]));
        }
        lemma_fields_bytes_injective(fs1.drop_first(), fs2.drop_first());
        assert forall|i: int| 0 <= i < fs1.len() implies fs1[i] == fs2[i] by {
            if i > 0 {
                assert(fs1[i] == fs1.drop_first()[i - 1]);
                assert(fs2[i] == fs2.drop_first()[i - 1]);
            }
        }
        assert(fs1 =~= fs2);
    }
}

/// Canonical encoding round trip: the encoding is one-to-one on
/// representable artifacts, and the encoding of a statically valid one is
/// accepted by decoding. Together with the contracts of `to_bytes` and
/// `from_bytes`, decoding the encoding of a valid artifact yields that
/// artifact.
pub proof fn lemma_cairo_roundtrip(m: CairoProofModel, q: CairoProofModel)
    requires
        representable(m),
        validate_static_spec(m) is None,
        representable(q),
        cairo_proof_encoding(q) == cairo_proof_encoding(m),
    ensures
        q == m,
        encodes_valid_artifact(cairo_proof_encoding(m)),
{
    let e = cairo_proof_encoding(m);
    assert(e.subrange(5, e.len() as int) =~= fields_bytes(cairo_fields(m)));
    assert(cairo_proof_encoding(q).subrange(5, e.len() as int) =~= fields_bytes(cairo_fields(q)));
    lemma_cairo_fields_at(m);
    lemma_cairo_fields_at(q);
    let f1 = cairo_fields(m);
    let f2 = cairo_fields(q);
    assert forall|i: int| 0 <= i < f1.len() implies same_shape(#[trigger] f1[i], f2[i]) by {}
    lemma_fields_bytes_injective(f1, f2);
    assert(f1[0] == f2[0]);
    lemma_utf8_string(m.backend_id);
    lemma_utf8_string(q.backend_id);
    lemma_utf8_string(m.certificate.adapter_id);
    lemma_utf8_string(q.certificate.adapter_id);
    lemma_utf8_string(m.certificate.verifier_version);
    lemma_utf8_string(q.certificate.verifier_version);
    lemma_utf8_string(m.certificate.backend_id);
    lemma_utf8_string(q.certificate.backend_id);
    assert(f1[12] == f2[12]);
    assert(f1[13] == f2[13]);
    assert(f1[15] == f2[15]);
    assert(f1[27] == f2[27]);
    assert(field_payload(f1[27])[0] == field_payload(f2[27])[0]);
    assert(q.certificate == m.certificate);
    assert(q == m);
    assert(representable(m) && validate_static_spec(m) is None && cairo_proof_encoding(m) == e);
}


// ---------------------------------------------------------------------------
// Public input commitment
// ---------------------------------------------------------------------------

/// Bytes of one output event in the public input commitment.
pub open spec fn output_commit_bytes(o: (Seq<char>, Seq<u8>)) -> Seq<u8> {
    hashed_str(o.0) + u64_le(o.1.len() as u64) + o.1
}

/// Bytes of a list of output events, in order.
pub open spec fn outputs_commit_bytes(s: Seq<(Seq<char>, Seq<u8>)>) -> Seq<u8>
    decreases s.len(),
{
    if s.len() == 0 {
        Seq::empty()
    } else {
        outputs_commit_bytes(s.drop_last()) + output_commit_bytes(s.last())
    }
}

/// Bytes of one observable in the public input commitment.
pub open spec fn observable_commit_bytes(o: ObservableModel) -> Seq<u8> {
    seq![transition_class_tag_spec(o.transition_class), transition_status_tag_spec(o.status)]
        + u64_le(o.gas_used) + u64_le(o.outputs.len() as u64) + outputs_commit_bytes(o.outputs)
}

/// Bytes of a list of observables, in order.
pub open spec fn observables_commit_bytes(s: Seq<ObservableModel>) -> Seq<u8>
    decreases s.len(),
{
    if s.len() == 0 {
        Seq::empty()
    } else {
        observables_commit_bytes(s.drop_last()) + observable_commit_bytes(s.last())
    }
}

/// Bytes hashed into the public input commitment.
pub open spec fn public_inputs_preimage(p: PublicInputsModel) -> Seq<u8> {
    utf8_bytes("vsel-cairo-public-inputs-v1"@) + p.root_init + p.root_final + p.domain + u32_le(
        p.version.major,
    ) + u32_le(p.version.minor) + u32_le(p.version.patch) + u64_le(p.observables.len() as u64)
        + observables_commit_bytes(p.observables)
}

fn append_observable(buf: &mut Vec<u8>, o: &Observable)
    ensures
        final(buf)@ == old(buf)@ + observable_commit_bytes(o@),
{
    buf.push(transition_class_tag(o.transition_class));
    buf.push(transition_status_tag(o.status));
    push_u64_le(buf, o.gas_used);
    push_u64_le(buf, o.outputs.len() as u64);
    let ghost mid = buf@;
    let mut i: usize = 0;
    while i < o.outputs.len()
        invariant
            i <= o.outputs.len(),
            buf@ == mid + outputs_commit_bytes(o@.outputs.subrange(0, i as int)),
        decreases o.outputs.len() - i,
    {
        let out = &o.outputs[i];
        append_hashed_str(buf, out.event_type.as_str());
        push_u64_le(buf, out.data.len() as u64);
        append_bytes(buf, out.data.as_slice());
        proof {
            let s = o@.outputs.subrange(0, i + 1);
            assert(s.drop_last() =~= o@.outputs.subrange(0, i as int));
            assert(s.last() == out@);
        }
        i += 1;
        assert(buf@ =~= mid + outputs_commit_bytes(o@.outputs.subrange(0, i as int)));
    }
    assert(o@.outputs.subrange(0, o.outputs.len() as int) =~= o@.outputs);
    assert(final(buf)@ =~= old(buf)@ + observable_commit_bytes(o@));
}

/// Appends the commitment bytes of a list of observables.
pub(crate) fn append_observables(buf: &mut Vec<u8>, obs: &[Observable])
    ensures
        final(buf)@ == old(buf)@ + observables_commit_bytes(observables_view(obs@)),
{
    let ghost mid = buf@;
    let ghost ov = observables_view(obs@);
    let mut i: usize = 0;
    while i < obs.len()
        invariant
            i <= obs.len(),
            ov == observables_view(obs@),
            buf@ == mid + observables_commit_bytes(ov.subrange(0, i as int)),
        decreases obs.len() - i,
    {
        append_observable(buf, &obs[i]);
        proof {
            let s = ov.subrange(0, i + 1);
            assert(s.drop_last() =~= ov.subrange(0, i as int));
            assert(s.last() == obs@[i as int]@);
        }
        i += 1;
        assert(buf@ =~= mid + observables_commit_bytes(ov.subrange(0, i as int)));
    }
    assert(ov.subrange(0, obs.len() as int) =~= ov);
}

/// Commitment to public inputs that a Cairo proof is bound to.
pub fn public_inputs_commitment(public_inputs: &PublicInputs) -> (h: crate::types::Hash)
    ensures
        h@ == sha3_256_spec(public_inputs_preimage(public_inputs@)),
{
    let mut buf: Vec<u8> = Vec::new();
    append_bytes(&mut buf, "vsel-cairo-public-inputs-v1".as_bytes());
    append_bytes(&mut buf, public_inputs.root_init.0.as_slice());
    append_bytes(&mut buf, public_inputs.root_final.0.as_slice());
    append_bytes(&mut buf, public_inputs.domain.0.0.as_slice());
    push_u32_le(&mut buf, public_inputs.version.major);
    push_u32_le(&mut buf, public_inputs.version.minor);
    push_u32_le(&mut buf, public_inputs.version.patch);
    push_u64_le(&mut buf, public_inputs.observables.len() as u64);
    let ghost mid = buf@;
    let ghost obs = public_inputs@.observables;
    let mut i: usize = 0;
    while i < public_inputs.observables.len()
        invariant
            i <= public_inputs.observables.len(),
            obs == observables_view(public_inputs.observables@),
            buf@ == mid + observables_commit_bytes(obs.subrange(0, i as int)),
        decreases public_inputs.observables.len() - i,
    {
        append_observable(&mut buf, &public_inputs.observables[i]);
        proof {
            let s = obs.subrange(0, i + 1);
            assert(s.drop_last() =~= obs.subrange(0, i as int));
            assert(s.last() == public_inputs.observables@[i as int]@);
        }
        i += 1;
        assert(buf@ =~= mid + observables_commit_bytes(obs.subrange(0, i as int)));
    }
    assert(obs.subrange(0, public_inputs.observables.len() as int) =~= obs);
    assert(buf@ =~= public_inputs_preimage(public_inputs@));
    crate::types::Hash(sha3_256(buf.as_slice()))
}


// ---------------------------------------------------------------------------
// Hexadecimal fields and the certificate text format
// ---------------------------------------------------------------------------

/// Value of a hexadecimal digit byte.
pub fn hex_nibble(byte: u8) -> (r: Result<u8, CairoStarkError>)
    ensures
        r is Ok <==> hex_nibble_spec(byte) is Some,
        r matches Ok(n) ==> Some(n) == hex_nibble_spec(byte),
        r matches Err(e) ==> e@ == CairoStarkErrorModel::DeserializationFailed(
            "invalid hex character"@,
        ),
{
    match hex_nibble_value(byte) {
        Some(n) => Ok(n),
        None => Err(deserialization_failed("invalid hex character")),
    }
}

/// Decodes hexadecimal text.
pub fn hex_decode(value: &str) -> (r: Result<Vec<u8>, CairoStarkError>)
    ensures
        r is Ok <==> hex_decode_spec(utf8_bytes(value@)) is Some,
        r matches Ok(v) ==> Some(v@) == hex_decode_spec(utf8_bytes(value@)),
        r matches Err(e) ==> e@ == CairoStarkErrorModel::DeserializationFailed(
            if utf8_bytes(value@).len() % 2 != 0 {
                "hex string has odd length"@
            } else {
                "invalid hex character"@
            },
        ),
{
    let bytes = value.as_bytes();
    if bytes.len() % 2 != 0 {
        return Err(deserialization_failed("hex string has odd length"));
    }
    match hex_decode_bytes(bytes) {
        Some(v) => Ok(v),
        None => Err(deserialization_failed("invalid hex character")),
    }
}

/// The value of the first line of `t` that starts with `key`.
pub open spec fn text_field(t: Seq<char>, key: Seq<char>) -> Option<Seq<char>> {
    find_prefixed(lines_spec(t), key)
}

/// The field holds the hexadecimal text of 32 bytes.
pub open spec fn hash_field_ok(t: Seq<char>, key: Seq<char>) -> bool {
    &&& text_field(t, key) is Some
    &&& hex_decode_spec(utf8_bytes(text_field(t, key)->0)) is Some
    &&& hex_decode_spec(utf8_bytes(text_field(t, key)->0))->0.len() == 32
}

/// The 32 bytes a hash field holds.
pub open spec fn hash_field_value(t: Seq<char>, key: Seq<char>) -> Seq<u8> {
    hex_decode_spec(utf8_bytes(text_field(t, key)->0))->0
}

/// The field holds `true` or `false`.
pub open spec fn bool_field_ok(t: Seq<char>, key: Seq<char>) -> bool {
    text_field(t, key) matches Some(v) && (v == "true"@ || v == "false"@)
}

/// Why a `key=value` field cannot be read: there is no such line.
pub open spec fn text_field_error(t: Seq<char>, key: Seq<char>) -> Option<CairoStarkErrorModel> {
    if text_field(t, key) is None {
        Some(CairoStarkErrorModel::VerificationFailed("missing field "@ + key))
    } else {
        None
    }
}

/// Why a field of hexadecimal text cannot be read: it is missing, or its
/// value is not hexadecimal text.
pub open spec fn hex_field_error(t: Seq<char>, key: Seq<char>) -> Option<CairoStarkErrorModel> {
    match text_field(t, key) {
        None => Some(CairoStarkErrorModel::VerificationFailed("missing field "@ + key)),
        Some(v) => if hex_decode_spec(utf8_bytes(v)) is None {
            Some(
                CairoStarkErrorModel::DeserializationFailed(
                    if utf8_bytes(v).len() % 2 != 0 {
                        "hex string has odd length"@
                    } else {
                        "invalid hex character"@
                    },
                ),
            )
        } else {
            None
        },
    }
}

/// Why a hash field cannot be read: it is missing, its value is not
/// hexadecimal text, or it does not hold 32 bytes.
pub open spec fn hash_field_error(t: Seq<char>, key: Seq<char>) -> Option<CairoStarkErrorModel> {
    match text_field(t, key) {
        None => Some(CairoStarkErrorModel::VerificationFailed("missing field "@ + key)),
        Some(v) => if hex_decode_spec(utf8_bytes(v)) is None {
            Some(
                CairoStarkErrorModel::DeserializationFailed(
                    if utf8_bytes(v).len() % 2 != 0 {
                        "hex string has odd length"@
                    } else {
                        "invalid hex character"@
                    },
                ),
            )
        } else if hex_decode_spec(utf8_bytes(v))->0.len() != 32 {
            Some(CairoStarkErrorModel::VerificationFailed("field "@ + key + " must be 32 bytes"@))
        } else {
            None
        },
    }
}

/// Why a `true`/`false` field cannot be read.
pub open spec fn bool_field_error(t: Seq<char>, key: Seq<char>) -> Option<CairoStarkErrorModel> {
    match text_field(t, key) {
        None => Some(CairoStarkErrorModel::VerificationFailed("missing field "@ + key)),
        Some(v) => if v == "true"@ || v == "false"@ {
            None
        } else {
            Some(
                CairoStarkErrorModel::VerificationFailed(
                    "field "@ + key + " must be true or false, got "@ + v,
                ),
            )
        },
    }
}

/// The first of two possible errors.
pub open spec fn or_else(a: Option<CairoStarkErrorModel>, b: Option<CairoStarkErrorModel>) -> Option<
    CairoStarkErrorModel,
> {
    if a is Some {
        a
    } else {
        b
    }
}

/// Why a verifier's output is not a complete certificate: the header is
/// missing, or the first field, in order, that cannot be read.
pub open spec fn certificate_error(t: Seq<char>) -> Option<CairoStarkErrorModel> {
    if !lines_spec(t).contains("VSEL_CAIRO_VERIFIER_CERTIFICATE_V1"@) {
        Some(CairoStarkErrorModel::VerificationFailed("missing Cairo verifier certificate header"@))
    } else {
        or_else(text_field_error(t, "adapter_id="@),
        or_else(text_field_error(t, "verifier_version="@),
        or_else(hash_field_error(t, "verifier_binary_hash="@),
        or_else(text_field_error(t, "backend_id="@),
        or_else(hash_field_error(t, "cairo_program_hash="@),
        or_else(hash_field_error(t, "sierra_program_hash="@),
        or_else(hash_field_error(t, "casm_program_hash="@),
        or_else(hash_field_error(t, "executable_program_hash="@),
        or_else(hash_field_error(t, "semantic_binding_hash="@),
        or_else(hash_field_error(t, "cairo_trace_hash="@),
        or_else(hash_field_error(t, "public_input_hash="@),
        or_else(hash_field_error(t, "constraint_commitment="@),
        or_else(hash_field_error(t, "statement_hash="@),
        or_else(hash_field_error(t, "proof_hash="@),
        or_else(hash_field_error(t, "transcript_hash="@),
        bool_field_error(t, "accepted="@))))))))))))))))
    }
}

/// Finds the value of a `key=value` line.
pub fn parse_field(text: &str, key: &str) -> (r: Result<String, CairoStarkError>)
    ensures
        r is Ok <==> text_field(text@, key@) is Some,
        r matches Ok(v) ==> v@ == text_field(text@, key@)->0,
        r matches Err(e) ==> e@ == CairoStarkErrorModel::VerificationFailed(
            "missing field "@ + key@,
        ),
{
    let lines = split_lines(text);
    match find_field(&lines, key) {
        Some(v) => Ok(v),
        None => Err(CairoStarkError::VerificationFailed(concat2("missing field ", key))),
    }
}

/// Parses a `true`/`false` field.
pub fn parse_bool_field(text: &str, key: &str) -> (r: Result<bool, CairoStarkError>)
    ensures
        r is Ok <==> bool_field_ok(text@, key@),
        r matches Ok(b) ==> b == (text_field(text@, key@)->0 == "true"@),
        r matches Err(e) ==> Some(e@) == bool_field_error(text@, key@),
{
    let value = match parse_field(text, key) {
        Ok(v) => v,
        Err(e) => {
            return Err(e);
        },
    };
    let vc = str_chars(value.as_str());
    let t = str_chars("true");
    let f = str_chars("false");
    if chars_equal(vc.as_slice(), t.as_slice()) {
        Ok(true)
    } else if chars_equal(vc.as_slice(), f.as_slice()) {
        proof {
            reveal_strlit("true");
            reveal_strlit("false");
        }
        Ok(false)
    } else {
        let mut msg = concat3("field ", key, " must be true or false, got ");
        push_str(&mut msg, value.as_str());
        Err(CairoStarkError::VerificationFailed(msg))
    }
}

/// Parses a field holding the hexadecimal text of a 32-byte hash.
pub fn parse_hash_field(text: &str, key: &str) -> (r: Result<crate::types::Hash, CairoStarkError>)
    ensures
        r is Ok <==> hash_field_ok(text@, key@),
        r matches Ok(h) ==> h@ == hash_field_value(text@, key@),
        r matches Err(e) ==> Some(e@) == hash_field_error(text@, key@),
{
    let value = match parse_field(text, key) {
        Ok(v) => v,
        Err(e) => {
            return Err(e);
        },
    };
    let raw = match hex_decode(value.as_str()) {
        Ok(v) => v,
        Err(e) => {
            return Err(e);
        },
    };
    if raw.len() != 32 {
        return Err(CairoStarkError::VerificationFailed(concat3("field ", key, " must be 32 bytes")));
    }
    let mut out = [0u8; 32];
    let mut i: usize = 0;
    while i < 32
        invariant
            i <= 32,
            raw@.len() == 32,
            forall|k: int| 0 <= k < i ==> out@[k] == raw@[k],
        decreases 32 - i,
    {
        out[i] = raw[i];
        i += 1;
    }
    assert(out@ =~= raw@);
    Ok(crate::types::Hash(out))
}

/// Whether a verifier's output is a complete certificate: the header line
/// and every field, each well formed.
pub open spec fn certificate_text_ok(t: Seq<char>) -> bool {
    &&& lines_spec(t).contains("VSEL_CAIRO_VERIFIER_CERTIFICATE_V1"@)
    &&& text_field(t, "adapter_id="@) is Some
    &&& text_field(t, "verifier_version="@) is Some
    &&& hash_field_ok(t, "verifier_binary_hash="@)
    &&& text_field(t, "backend_id="@) is Some
    &&& hash_field_ok(t, "cairo_program_hash="@)
    &&& hash_field_ok(t, "sierra_program_hash="@)
    &&& hash_field_ok(t, "casm_program_hash="@)
    &&& hash_field_ok(t, "executable_program_hash="@)
    &&& hash_field_ok(t, "semantic_binding_hash="@)
    &&& hash_field_ok(t, "cairo_trace_hash="@)
    &&& hash_field_ok(t, "public_input_hash="@)
    &&& hash_field_ok(t, "constraint_commitment="@)
    &&& hash_field_ok(t, "statement_hash="@)
    &&& hash_field_ok(t, "proof_hash="@)
    &&& hash_field_ok(t, "transcript_hash="@)
    &&& bool_field_ok(t, "accepted="@)
}

/// The certificate a complete certificate text describes.
pub open spec fn certificate_from_text(t: Seq<char>) -> CertificateModel {
    CertificateModel {
        adapter_id: text_field(t, "adapter_id="@)->0,
        verifier_version: text_field(t, "verifier_version="@)->0,
        verifier_binary_hash: hash_field_value(t, "verifier_binary_hash="@),
        backend_id: text_field(t, "backend_id="@)->0,
        program: ProgramModel {
            cairo: hash_field_value(t, "cairo_program_hash="@),
            sierra: hash_field_value(t, "sierra_program_hash="@),
            casm: hash_field_value(t, "casm_program_hash="@),
            executable: hash_field_value(t, "executable_program_hash="@),
            semantic_binding: hash_field_value(t, "semantic_binding_hash="@),
        },
        cairo_trace_hash: hash_field_value(t, "cairo_trace_hash="@),
        public_input_hash: hash_field_value(t, "public_input_hash="@),
        constraint_commitment: hash_field_value(t, "constraint_commitment="@),
        statement_hash: hash_field_value(t, "statement_hash="@),
        proof_hash: hash_field_value(t, "proof_hash="@),
        transcript_hash: hash_field_value(t, "transcript_hash="@),
        accepted: text_field(t, "accepted="@)->0 == "true"@,
    }
}

/// Parses a verifier's certificate output.
pub fn parse_certificate(text: &str) -> (r: Result<CairoVerifierCertificate, CairoStarkError>)
    ensures
        r is Ok <==> certificate_text_ok(text@),
        r matches Ok(c) ==> c@ == certificate_from_text(text@),
        r matches Err(e) ==> Some(e@) == certificate_error(text@),
{
    let lines = split_lines(text);
    if !has_line(&lines, "VSEL_CAIRO_VERIFIER_CERTIFICATE_V1") {
        return Err(verification_failed("missing Cairo verifier certificate header"));
    }
    let adapter_id = match parse_field(text, "adapter_id=") { Ok(v) => v, Err(e) => { return Err(e); } };
    let verifier_version = match parse_field(text, "verifier_version=") { Ok(v) => v, Err(e) => { return Err(e); } };
    let verifier_binary_hash = match parse_hash_field(text, "verifier_binary_hash=") { Ok(v) => v, Err(e) => { return Err(e); } };
    let backend_id = match parse_field(text, "backend_id=") { Ok(v) => v, Err(e) => { return Err(e); } };
    let cairo = match parse_hash_field(text, "cairo_program_hash=") { Ok(v) => v, Err(e) => { return Err(e); } };
    let sierra = match parse_hash_field(text, "sierra_program_hash=") { Ok(v) => v, Err(e) => { return Err(e); } };
    let casm = match parse_hash_field(text, "casm_program_hash=") { Ok(v) => v, Err(e) => { return Err(e); } };
    let executable = match parse_hash_field(text, "executable_program_hash=") { Ok(v) => v, Err(e) => { return Err(e); } };
    let semantic = match parse_hash_field(text, "semantic_binding_hash=") { Ok(v) => v, Err(e) => { return Err(e); } };
    let cairo_trace_hash = match parse_hash_field(text, "cairo_trace_hash=") { Ok(v) => v, Err(e) => { return Err(e); } };
    let public_input_hash = match parse_hash_field(text, "public_input_hash=") { Ok(v) => v, Err(e) => { return Err(e); } };
    let constraint_commitment = match parse_hash_field(text, "constraint_commitment=") { Ok(v) => v, Err(e) => { return Err(e); } };
    let statement_hash = match parse_hash_field(text, "statement_hash=") { Ok(v) => v, Err(e) => { return Err(e); } };
    let proof_hash = match parse_hash_field(text, "proof_hash=") { Ok(v) => v, Err(e) => { return Err(e); } };
    let transcript_hash = match parse_hash_field(text, "transcript_hash=") { Ok(v) => v, Err(e) => { return Err(e); } };
    let accepted = match parse_bool_field(text, "accepted=") { Ok(v) => v, Err(e) => { return Err(e); } };
    Ok(CairoVerifierCertificate {
        adapter_id,
        verifier_version,
        verifier_binary_hash,
        backend_id,
        program: CairoProgramCommitments {
            cairo_program_hash: cairo,
            sierra_program_hash: sierra,
            casm_program_hash: casm,
            executable_program_hash: executable,
            semantic_binding_hash: semantic,
        },
        cairo_trace_hash,
        public_input_hash,
        constraint_commitment,
        statement_hash,
        proof_hash,
        transcript_hash,
        accepted,
    })
}


// ---------------------------------------------------------------------------
// Adapter requests
// ---------------------------------------------------------------------------

/// A request to an adapter to prove an expected statement.
pub struct CairoProveRequest {
    pub expected: CairoExpectedStatement,
    pub witness_commitment: crate::types::Hash,
    pub constraint_system_commitment: crate::types::Hash,
}

/// A request to an adapter to verify an artifact against an expected
/// statement.
pub struct CairoVerifyRequest {
    pub expected: CairoExpectedStatement,
    pub proof: CairoStarkProof,
}

/// Text of the expected-statement part of a request.
pub open spec fn expected_text(header: Seq<char>, e: ExpectedModel) -> Seq<char> {
    header + "\nbackend_id="@ + e.backend_id + "\ncairo_program_hash="@ + hex_encode_spec(
        e.program.cairo,
    ) + "\nsierra_program_hash="@ + hex_encode_spec(e.program.sierra) + "\ncasm_program_hash="@
        + hex_encode_spec(e.program.casm) + "\nexecutable_program_hash="@ + hex_encode_spec(
        e.program.executable,
    ) + "\nsemantic_binding_hash="@ + hex_encode_spec(e.program.semantic_binding)
        + "\npublic_input_hash="@ + hex_encode_spec(e.public_input_hash)
        + "\nconstraint_commitment="@ + hex_encode_spec(e.constraint_commitment) + "\n"@
}

/// Text of a prove request.
pub open spec fn prove_request_text(
    e: ExpectedModel,
    witness_commitment: Seq<u8>,
    constraint_system_commitment: Seq<u8>,
) -> Seq<char> {
    expected_text("VSEL_CAIRO_PROVE_REQUEST_V1"@, e) + "witness_commitment="@ + hex_encode_spec(
        witness_commitment,
    ) + "\nconstraint_system_commitment="@ + hex_encode_spec(constraint_system_commitment)
        + "\nEND\n"@
}

/// Text of a verify request.
pub open spec fn verify_request_text(e: ExpectedModel, p: CairoProofModel) -> Seq<char> {
    expected_text("VSEL_CAIRO_VERIFY_REQUEST_V1"@, e) + "statement_hash="@ + hex_encode_spec(
        p.statement_hash,
    ) + "\nproof_hash="@ + hex_encode_spec(p.proof_hash) + "\nproof_hex="@ + hex_encode_spec(
        cairo_proof_encoding(p),
    ) + "\nEND\n"@
}

fn push_hex(out: &mut String, label: &str, hash: &crate::types::Hash)
    ensures
        final(out)@ == old(out)@ + label@ + hex_encode_spec(hash@),
{
    push_str(out, label);
    let h = hex_encode(hash.0.as_slice());
    push_str(out, h.as_str());
}

fn format_expected(header: &str, expected: &CairoExpectedStatement) -> (s: String)
    ensures
        s@ == expected_text(header@, expected@),
{
    let mut out = owned(header);
    push_str(&mut out, "\nbackend_id=");
    push_str(&mut out, expected.backend_id.as_str());
    push_hex(&mut out, "\ncairo_program_hash=", &expected.program.cairo_program_hash);
    push_hex(&mut out, "\nsierra_program_hash=", &expected.program.sierra_program_hash);
    push_hex(&mut out, "\ncasm_program_hash=", &expected.program.casm_program_hash);
    push_hex(&mut out, "\nexecutable_program_hash=", &expected.program.executable_program_hash);
    push_hex(&mut out, "\nsemantic_binding_hash=", &expected.program.semantic_binding_hash);
    push_hex(&mut out, "\npublic_input_hash=", &expected.public_input_hash);
    push_hex(&mut out, "\nconstraint_commitment=", &expected.constraint_commitment);
    push_str(&mut out, "\n");
    out
}

/// The text sent to a prover command.
pub fn format_prove_request(request: &CairoProveRequest) -> (s: String)
    ensures
        s@ == prove_request_text(
            request.expected@,
            request.witness_commitment@,
            request.constraint_system_commitment@,
        ),
{
    let mut out = format_expected("VSEL_CAIRO_PROVE_REQUEST_V1", &request.expected);
    push_hex(&mut out, "witness_commitment=", &request.witness_commitment);
    push_hex(&mut out, "\nconstraint_system_commitment=", &request.constraint_system_commitment);
    push_str(&mut out, "\nEND\n");
    out
}

/// The text sent to a verifier command.
pub fn format_verify_request(request: &CairoVerifyRequest) -> (s: String)
    ensures
        s@ == verify_request_text(request.expected@, request.proof@),
{
    let mut out = format_expected("VSEL_CAIRO_VERIFY_REQUEST_V1", &request.expected);
    push_hex(&mut out, "statement_hash=", &request.proof.statement_hash);
    push_hex(&mut out, "\nproof_hash=", &request.proof.proof_hash);
    push_str(&mut out, "\nproof_hex=");
    let encoded = request.proof.to_bytes();
    let h = hex_encode(encoded.as_slice());
    push_str(&mut out, h.as_str());
    push_str(&mut out, "\nEND\n");
    out
}

// ---------------------------------------------------------------------------
// Adapters
// ---------------------------------------------------------------------------

/// A Cairo/STARK proof adapter: proves expected statements and verifies
/// artifacts with a native Cairo verifier.
pub trait CairoProofAdapter {
    /// The text `adapter_id` returns. Code generic in the adapter knows it
    /// only through that method; the body is a placeholder that no such
    /// caller sees.
    closed spec fn adapter_id_spec(&self) -> Seq<char> {
        Seq::empty()
    }

    fn adapter_id(&self) -> (id: &str)
        ensures
            id@ == self.adapter_id_spec(),
    ;

    fn prove(&self, request: &CairoProveRequest) -> Result<CairoStarkProof, CairoStarkError>;

    fn verify(&self, request: &CairoVerifyRequest) -> Result<CairoVerifierCertificate, CairoStarkError>;
}

/// An adapter that runs a prover and a verifier command speaking the
/// request and certificate text formats.
pub struct CommandCairoAdapter {
    adapter_id: String,
    prover_command: Option<String>,
    verifier_command: String,
}

/// Abstract value of a command adapter.
pub struct CommandAdapterModel {
    pub adapter_id: Seq<char>,
    pub prover_command: Option<Seq<char>>,
    pub verifier_command: Seq<char>,
}

impl View for CommandCairoAdapter {
    type V = CommandAdapterModel;

    closed spec fn view(&self) -> CommandAdapterModel {
        CommandAdapterModel {
            adapter_id: self.adapter_id@,
            prover_command: match self.prover_command {
                Some(c) => Some(c@),
                None => None,
            },
            verifier_command: self.verifier_command@,
        }
    }
}

/// The artifact a prover command's output carries, if its `proof_hex=`
/// field decodes to the encoding of a statically valid artifact.
pub open spec fn proof_output_ok(stdout: Seq<char>) -> bool {
    &&& text_field(stdout, "proof_hex="@) is Some
    &&& hex_decode_spec(utf8_bytes(text_field(stdout, "proof_hex="@)->0)) is Some
    &&& encodes_valid_artifact(hex_decode_spec(utf8_bytes(text_field(stdout, "proof_hex="@)->0))->0)
}

impl CommandCairoAdapter {
    pub fn new(adapter_id: String, prover_command: Option<String>, verifier_command: String) -> (a:
        CommandCairoAdapter)
        ensures
            a@.adapter_id == adapter_id@,
            a@.prover_command == (match prover_command {
                Some(c) => Some(c@),
                None => None,
            }),
            a@.verifier_command == verifier_command@,
    {
        CommandCairoAdapter { adapter_id, prover_command, verifier_command }
    }

    /// The adapter id.
    pub fn adapter_id(&self) -> (s: &str)
        ensures
            s@ == self@.adapter_id,
    {
        self.adapter_id.as_str()
    }

    /// The prover command, which proving needs.
    pub fn prover_command(&self) -> (r: Result<&str, CairoStarkError>)
        ensures
            r is Ok <==> self@.prover_command is Some,
            r matches Ok(c) ==> c@ == self@.prover_command->0,
            r matches Err(e) ==> e@ == CairoStarkErrorModel::ProofGenerationFailed(
                "no Cairo prover command configured for CommandCairoAdapter"@,
            ),
    {
        match &self.prover_command {
            Some(c) => Ok(c.as_str()),
            None => Err(
                CairoStarkError::ProofGenerationFailed(
                    owned("no Cairo prover command configured for CommandCairoAdapter"),
                ),
            ),
        }
    }

    /// The verifier command.
    pub fn verifier_command(&self) -> (s: &str)
        ensures
            s@ == self@.verifier_command,
    {
        self.verifier_command.as_str()
    }

    /// The artifact carried by a prover command's output.
    pub fn proof_from_output(stdout: &str) -> (r: Result<CairoStarkProof, CairoStarkError>)
        ensures
            r is Ok <==> proof_output_ok(stdout@),
            r matches Ok(p) ==> text_field(stdout@, "proof_hex="@) is Some && hex_decode_spec(
                utf8_bytes(text_field(stdout@, "proof_hex="@)->0),
            ) == Some(cairo_proof_encoding(p@)) && validate_static_spec(p@) is None,
            hex_field_error(stdout@, "proof_hex="@) matches Some(m) ==> (r matches Err(e) && e@ == m),
            hex_field_error(stdout@, "proof_hex="@) is None ==> (r matches Err(e) ==> cairo_decode_failure(
                hex_decode_spec(utf8_bytes(text_field(stdout@, "proof_hex="@)->0))->0,
            ) matches Some(f) && failure_matches(f, e@)),
    {
        let proof_hex = match parse_field(stdout, "proof_hex=") {
            Ok(v) => v,
            Err(e) => {
                return Err(e);
            },
        };
        let proof_bytes = match hex_decode(proof_hex.as_str()) {
            Ok(v) => v,
            Err(e) => {
                return Err(e);
            },
        };
        CairoStarkProof::from_bytes(proof_bytes.as_slice())
    }

    /// The certificate carried by a verifier command's output.
    pub fn certificate_from_output(stdout: &str) -> (r: Result<
        CairoVerifierCertificate,
        CairoStarkError,
    >)
        ensures
            r is Ok <==> certificate_text_ok(stdout@),
            r matches Ok(c) ==> c@ == certificate_from_text(stdout@),
            r matches Err(e) ==> Some(e@) == certificate_error(stdout@),
    {
        parse_certificate(stdout)
    }
}

/// What proving returns for an adapter's reply: the reply's error as it
/// stands; the artifact, once it answers the expected statement; else the
/// reason it does not.
pub fn prover_reply_outcome(
    expected: &CairoExpectedStatement,
    reply: Result<CairoStarkProof, CairoStarkError>,
) -> (r: Result<CairoStarkProof, CairoStarkError>)
    ensures
        reply is Err ==> r == reply,
        reply matches Ok(p) ==> (validate_against_spec(p@, expected@) is None ==> r == reply),
        reply matches Ok(p) ==> (validate_against_spec(p@, expected@) matches Some(m) ==> (
        r matches Err(e) && e@ == CairoStarkErrorModel::VerificationFailed(m))),
{
    match reply {
        Ok(proof) => match proof.validate_against(expected) {
            Ok(()) => Ok(proof),
            Err(e) => Err(e),
        },
        Err(e) => Err(e),
    }
}

/// Whether a verifier's reply accepts the artifact: it is exactly the
/// certificate the artifact carries, and that certificate binds the
/// artifact's statement, statement hash and proof hash.
pub fn verifier_reply_accepts(
    proof: &CairoStarkProof,
    reply: &Result<CairoVerifierCertificate, CairoStarkError>,
) -> (b: bool)
    ensures
        b == (reply matches Ok(c) && c@ == proof@.certificate && certificate_binds(
            c@,
            statement_of(proof@),
            proof@.statement_hash,
            proof@.proof_hash,
        )),
{
    match reply {
        Ok(certificate) => {
            let statement = proof.statement();
            certificate.same_as(&proof.verifier_certificate) && certificate.validate_for_statement(
                &statement,
                &proof.statement_hash,
                &proof.proof_hash,
            )
        },
        Err(_) => false,
    }
}

/// A proof backend that delegates Cairo/STARK proving and verification to
/// an adapter, binding every artifact to the program and statement.
pub struct CairoStarkBackend<A: CairoProofAdapter> {
    backend_id: String,
    program: CairoProgramCommitments,
    adapter: A,
}

impl<A: CairoProofAdapter> CairoStarkBackend<A> {
    /// A backend for the program, identified as `cairo-stark/<adapter id>`.
    pub fn new(program: CairoProgramCommitments, adapter: A) -> (b: CairoStarkBackend<A>)
        ensures
            b.backend_id_spec() == "cairo-stark/"@ + adapter.adapter_id_spec(),
            b.program_spec() == program@,
    {
        let id = concat2("cairo-stark/", adapter.adapter_id());
        CairoStarkBackend { backend_id: id, program, adapter }
    }

    pub closed spec fn backend_id_spec(&self) -> Seq<char> {
        self.backend_id@
    }

    pub closed spec fn program_spec(&self) -> ProgramModel {
        self.program@
    }

    /// The backend id.
    pub fn backend_id(&self) -> (s: &str)
        ensures
            s@ == self.backend_id_spec(),
    {
        self.backend_id.as_str()
    }

    /// Cairo/STARK proofs are post-quantum.
    pub fn is_post_quantum(&self) -> (b: bool)
        ensures
            b,
    {
        true
    }

    /// The statement a proof for these public inputs must be bound to.
    pub fn expected_statement(&self, public_inputs: &PublicInputs, constraint_commitment: crate::types::Hash) -> (e:
        CairoExpectedStatement)
        ensures
            e@ == (ExpectedModel {
                backend_id: self.backend_id_spec(),
                program: self.program_spec(),
                public_input_hash: sha3_256_spec(public_inputs_preimage(public_inputs@)),
                constraint_commitment: constraint_commitment@,
            }),
    {
        CairoExpectedStatement {
            backend_id: self.backend_id.clone(),
            program: self.program.duplicate(),
            public_input_hash: public_inputs_commitment(public_inputs),
            constraint_commitment,
        }
    }

    /// Proves through the adapter and checks the artifact against the
    /// expected statement.
    pub fn prove_statement(
        &self,
        public_inputs: &PublicInputs,
        witness_commitment: crate::types::Hash,
        constraint_commitment: crate::types::Hash,
    ) -> (r: Result<CairoStarkProof, CairoStarkError>)
        ensures
            r matches Ok(p) ==> validate_against_spec(
                p@,
                ExpectedModel {
                    backend_id: self.backend_id_spec(),
                    program: self.program_spec(),
                    public_input_hash: sha3_256_spec(public_inputs_preimage(public_inputs@)),
                    constraint_commitment: constraint_commitment@,
                },
            ) is None,
    {
        let request = CairoProveRequest {
            expected: self.expected_statement(public_inputs, constraint_commitment),
            witness_commitment,
            constraint_system_commitment: constraint_commitment,
        };
        let reply = self.adapter.prove(&request);
        prover_reply_outcome(&request.expected, reply)
    }

    /// Whether the artifact answers the expected statement and the adapter's
    /// verifier returns exactly the certificate the artifact carries.
    pub fn verify(&self, proof: &CairoStarkProof, public_inputs: &PublicInputs, constraint_commitment: &crate::types::Hash) -> (b:
        bool)
        ensures
            b ==> validate_against_spec(
                proof@,
                ExpectedModel {
                    backend_id: self.backend_id_spec(),
                    program: self.program_spec(),
                    public_input_hash: sha3_256_spec(public_inputs_preimage(public_inputs@)),
                    constraint_commitment: constraint_commitment@,
                },
            ) is None && certificate_binds(
                proof@.certificate,
                statement_of(proof@),
                proof@.statement_hash,
                proof@.proof_hash,
            ),
            validate_against_spec(
                proof@,
                ExpectedModel {
                    backend_id: self.backend_id_spec(),
                    program: self.program_spec(),
                    public_input_hash: sha3_256_spec(public_inputs_preimage(public_inputs@)),
                    constraint_commitment: constraint_commitment@,
                },
            ) is Some ==> !b,
    {
        let expected = self.expected_statement(public_inputs, *constraint_commitment);
        match proof.validate_against(&expected) {
            Ok(()) => {},
            Err(_) => {
                return false;
            },
        }
        let request = CairoVerifyRequest { expected, proof: proof.duplicate() };
        let reply = self.adapter.verify(&request);
        verifier_reply_accepts(proof, &reply)
    }

    /// The canonical encoding of an artifact.
    pub fn serialize_proof(&self, proof: &CairoStarkProof) -> (out: Vec<u8>)
        ensures
            out@ == cairo_proof_encoding(proof@),
    {
        proof.to_bytes()
    }

    /// Decodes an artifact.
    pub fn deserialize_proof(&self, bytes: &[u8]) -> (r: Result<CairoStarkProof, CairoStarkError>)
        ensures
            r matches Ok(p) ==> validate_static_spec(p@) is None && cairo_proof_encoding(p@)
                == bytes@ && p.serialized@ == bytes@,
            encodes_valid_artifact(bytes@) ==> r is Ok,
            r is Ok <==> cairo_decode_failure(bytes@) is None,
            r matches Err(e) ==> cairo_decode_failure(bytes@) matches Some(f) && failure_matches(f, e@),
    {
        CairoStarkProof::from_bytes(bytes)
    }
}

/// Law: a certificate binds a statement and the two artifact hashes only
/// if it repeats each of them, accepts, and names its verifier.
pub proof fn lemma_binding_certificate_repeats_artifact(
    c: CertificateModel,
    s: StatementModel,
    statement_hash: Seq<u8>,
    proof_hash: Seq<u8>,
)
    requires
        certificate_binds(c, s, statement_hash, proof_hash),
    ensures
        c.accepted,
        c.backend_id == s.backend_id,
        c.program == s.program,
        c.cairo_trace_hash == s.cairo_trace_hash,
        c.public_input_hash == s.public_input_hash,
        c.constraint_commitment == s.constraint_commitment,
        c.statement_hash == statement_hash,
        c.proof_hash == proof_hash,
        c.verifier_binary_hash != zero_hash_bytes(),
        c.transcript_hash != zero_hash_bytes(),
{
}

/// Law: an artifact passes static validation only if its hashes are those
/// of its fields and bytes, and its certificate accepts and repeats every
/// field of the artifact, its statement hash and its proof hash included;
/// so a certificate issued for other proof bytes, or another statement,
/// fails validation.
pub proof fn lemma_valid_artifact_certificate_matches(p: CairoProofModel)
    requires
        validate_static_spec(p) is None,
    ensures
        p.statement_hash == statement_hash_spec(statement_of(p)),
        p.proof_hash == proof_bytes_hash_spec(p.proof_bytes),
        p.certificate.accepted,
        p.certificate.backend_id == p.backend_id,
        p.certificate.program == p.program,
        p.certificate.cairo_trace_hash == p.cairo_trace_hash,
        p.certificate.public_input_hash == p.public_input_hash,
        p.certificate.constraint_commitment == p.constraint_commitment,
        p.certificate.statement_hash == p.statement_hash,
        p.certificate.proof_hash == p.proof_hash,
{
    lemma_binding_certificate_repeats_artifact(
        p.certificate,
        statement_of(p),
        p.statement_hash,
        p.proof_hash,
    );
}

} // verus!
