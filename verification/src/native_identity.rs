//! The native Cairo wrapper's adapter identity, verifier certificates and
//! the checks of a verifier's context attestation.

use vstd::prelude::*;

use crate::cairo_stark::{
    certificate_from_text, certificate_text_ok, hashed_str, program_bytes, statement_hash_spec,
    text_field, CairoStatement, CairoVerifierCertificate, CertificateModel, StatementModel,
};
use crate::codec::append_bytes;
use crate::encoding::{
    hex_decode_spec, hex_encode, hex_encode_spec, lemma_hex_roundtrip, sha3_256, sha3_256_spec,
};
use crate::native_wrapper::{
    attestation_spec, attested_hash_error, attested_value_error, fields_view, first_error, lookup,
    parse_hash_chars, parse_hash_hex, parse_hash_hex_spec, parse_native_attestation,
    require_attested_hash, require_attested_value, Request,
};
use crate::text::{
    has_prefix, join_lines, key_shaped, lemma_find_prefixed_at, lemma_join_push,
    lemma_lines_of_join, lemma_no_key, lemma_other_key, lines_spec, one_line, owned, push_str,
    str_chars, string_from_chars, utf8_bytes,
};
use crate::words::starts_with;

verus! {

// ---------------------------------------------------------------------------
// Substrings
// ---------------------------------------------------------------------------

/// Whether `p` occurs in `s` at `i`.
pub open spec fn occurs_at(s: Seq<char>, p: Seq<char>, i: int) -> bool {
    0 <= i && i + p.len() <= s.len() && s.subrange(i, i + p.len()) == p
}

/// The first occurrence of `p` in `s` at or after `i`.
pub open spec fn find_sub_from(s: Seq<char>, p: Seq<char>, i: int) -> Option<int>
    decreases s.len() + 1 - i,
{
    if i < 0 || i + p.len() > s.len() {
        None
    } else if occurs_at(s, p, i) {
        Some(i)
    } else {
        find_sub_from(s, p, i + 1)
    }
}

/// The last occurrence of `p` in `s` at or before `j`.
pub open spec fn rfind_sub_from(s: Seq<char>, p: Seq<char>, j: int) -> Option<int>
    decreases j + 1,
{
    if j < 0 {
        None
    } else if occurs_at(s, p, j) {
        Some(j)
    } else {
        rfind_sub_from(s, p, j - 1)
    }
}

/// The last occurrence of `p` in `s`.
pub open spec fn rfind_sub(s: Seq<char>, p: Seq<char>) -> Option<int> {
    rfind_sub_from(s, p, s.len() - p.len())
}

fn occurs_at_exec(s: &[char], p: &[char], i: usize) -> (b: bool)
    requires
        i + p@.len() <= s@.len(),
    ensures
        b == occurs_at(s@, p@, i as int),
{
    let slen = s.len();
    let mut k: usize = 0;
    while k < p.len()
        invariant
            k <= p@.len(),
            i + p@.len() <= s@.len(),
            slen == s@.len(),
            forall|m: int| 0 <= m < k ==> s@[i + m] == p@[m],
        decreases p.len() - k,
    {
        if s[i + k] != p[k] {
            assert(s@.subrange(i as int, i + p@.len())[k as int] != p@[k as int]);
            return false;
        }
        k += 1;
    }
    assert(s@.subrange(i as int, i + p@.len()) =~= p@);
    true
}

/// The first occurrence of a pattern.
pub fn find_sub(s: &[char], p: &[char]) -> (r: Option<usize>)
    ensures
        r matches Some(k) ==> find_sub_from(s@, p@, 0) == Some(k as int),
        r is None ==> find_sub_from(s@, p@, 0) is None,
{
    if p.len() > s.len() {
        return None;
    }
    let last = s.len() - p.len();
    let mut i: usize = 0;
    loop
        invariant
            p@.len() <= s@.len(),
            last == s@.len() - p@.len(),
            i <= last,
            find_sub_from(s@, p@, 0) == find_sub_from(s@, p@, i as int),
        decreases last - i,
    {
        if occurs_at_exec(s, p, i) {
            return Some(i);
        }
        if i == last {
            assert(find_sub_from(s@, p@, i + 1) is None);
            return None;
        }
        i += 1;
    }
}

/// The last occurrence of a pattern.
pub fn rfind_sub_exec(s: &[char], p: &[char]) -> (r: Option<usize>)
    ensures
        r matches Some(k) ==> rfind_sub(s@, p@) == Some(k as int),
        r is None ==> rfind_sub(s@, p@) is None,
{
    if p.len() > s.len() {
        return None;
    }
    let mut j: usize = s.len() - p.len();
    loop
        invariant
            p@.len() <= s@.len(),
            j + p@.len() <= s@.len(),
            rfind_sub(s@, p@) == rfind_sub_from(s@, p@, j as int),
        decreases j,
    {
        if occurs_at_exec(s, p, j) {
            return Some(j);
        }
        if j == 0 {
            assert(rfind_sub_from(s@, p@, -1) is None);
            return None;
        }
        j -= 1;
    }
}

fn subrange_chars(s: &[char], a: usize, b: usize) -> (r: Vec<char>)
    requires
        a <= b <= s@.len(),
    ensures
        r@ == s@.subrange(a as int, b as int),
{
    let mut r: Vec<char> = Vec::new();
    let mut k: usize = a;
    while k < b
        invariant
            a <= k <= b <= s@.len(),
            r@ == s@.subrange(a as int, k as int),
        decreases b - k,
    {
        r.push(s[k]);
        k += 1;
        assert(r@ =~= s@.subrange(a as int, k as int));
    }
    r
}

// ---------------------------------------------------------------------------
// Adapter identity
// ---------------------------------------------------------------------------

/// The version an adapter id names after `prefix`: the text before the
/// first `-prover-`, when not empty.
pub open spec fn version_after(id: Seq<char>, prefix: Seq<char>) -> Option<Seq<char>> {
    if starts_with(id, prefix) {
        let rest = id.subrange(prefix.len() as int, id.len() as int);
        match find_sub_from(rest, "-prover-"@, 0) {
            Some(k) => if k > 0 {
                Some(rest.subrange(0, k))
            } else {
                None
            },
            None => None,
        }
    } else {
        None
    }
}

/// The verifier version an adapter id names, for the `stone-`, `stwo-`
/// and `scarb-` forms in that order.
pub open spec fn adapter_version_spec(id: Seq<char>) -> Option<Seq<char>> {
    if version_after(id, "stone-"@) is Some {
        version_after(id, "stone-"@)
    } else if version_after(id, "stwo-"@) is Some {
        version_after(id, "stwo-"@)
    } else {
        version_after(id, "scarb-"@)
    }
}

fn version_after_exec(id: &[char], prefix: &str) -> (r: Option<Vec<char>>)
    ensures
        r is Some <==> version_after(id@, prefix@) is Some,
        r matches Some(v) ==> v@ == version_after(id@, prefix@)->0,
{
    let pc = str_chars(prefix);
    if !crate::text::chars_start_with(id, pc.as_slice()) {
        return None;
    }
    let rest = subrange_chars(id, pc.len(), id.len());
    let pat = str_chars("-prover-");
    match find_sub(rest.as_slice(), pat.as_slice()) {
        Some(k) => {
            if k > 0 {
                proof {
                    lemma_find_sub_bound(rest@, pat@, 0);
                }
                Some(subrange_chars(rest.as_slice(), 0, k))
            } else {
                None
            }
        },
        None => None,
    }
}

/// The verifier version an adapter id names, if any.
pub fn parse_version_from_adapter_id(adapter_id: &[char]) -> (r: Option<Vec<char>>)
    ensures
        r is Some <==> adapter_version_spec(adapter_id@) is Some,
        r matches Some(v) ==> v@ == adapter_version_spec(adapter_id@)->0,
{
    match version_after_exec(adapter_id, "stone-") {
        Some(v) => {
            return Some(v);
        },
        None => {},
    }
    match version_after_exec(adapter_id, "stwo-") {
        Some(v) => {
            return Some(v);
        },
        None => {},
    }
    version_after_exec(adapter_id, "scarb-")
}

/// An ASCII hexadecimal digit.
pub open spec fn hex_char(c: char) -> bool {
    ('0' <= c && c <= '9') || ('a' <= c && c <= 'f') || ('A' <= c && c <= 'F')
}

/// The verifier binary hash an adapter id names after its last
/// `-verifier-`, if any, or why the text there is not a hash.
pub open spec fn adapter_hash_spec(id: Seq<char>) -> Result<Option<Seq<u8>>, Seq<char>> {
    match rfind_sub(id, "-verifier-"@) {
        None => Ok(None),
        Some(k) => {
            let hex = id.subrange(k + 10, id.len() as int);
            if hex.len() != 64 || !(forall|i: int| 0 <= i < hex.len() ==> #[trigger] hex_char(hex[i])) {
                Err("verifier hash in adapter id must be a 64-character SHA3-256 hex digest: "@ + hex)
            } else {
                match parse_hash_hex_spec(hex) {
                    Ok(h) => Ok(Some(h)),
                    Err(e) => Err(e),
                }
            }
        },
    }
}

fn hex_char_exec(c: char) -> (b: bool)
    ensures
        b == hex_char(c),
{
    ('0' <= c && c <= '9') || ('a' <= c && c <= 'f') || ('A' <= c && c <= 'F')
}

/// The verifier binary hash an adapter id names, if any.
pub fn parse_verifier_hash_from_adapter_id(adapter_id: &[char]) -> (r: Result<
    Option<crate::types::Hash>,
    String,
>)
    ensures
        r is Ok <==> adapter_hash_spec(adapter_id@) is Ok,
        r matches Ok(o) ==> (o is Some <==> adapter_hash_spec(adapter_id@)->Ok_0 is Some),
        r matches Ok(o) ==> (o matches Some(h) ==> adapter_hash_spec(adapter_id@)->Ok_0
            == Some(h@)),
        r matches Err(e) ==> adapter_hash_spec(adapter_id@)->Err_0 == e@,
{
    let pat = str_chars("-verifier-");
    proof {
        reveal_strlit("-verifier-");
    }
    let k = match rfind_sub_exec(adapter_id, pat.as_slice()) {
        None => {
            return Ok(None);
        },
        Some(k) => k,
    };
    proof {
        lemma_rfind_bound(adapter_id@, pat@, adapter_id@.len() - pat@.len());
        assert(pat@.len() == 10);
    }
    let n = adapter_id.len();
    let hex = subrange_chars(adapter_id, k + 10, n);
    let mut ok = hex.len() == 64;
    let mut i: usize = 0;
    while i < hex.len()
        invariant
            i <= hex@.len(),
            ok == (hex@.len() == 64 && forall|m: int| 0 <= m < i ==> #[trigger] hex_char(hex@[m])),
        decreases hex.len() - i,
    {
        if !hex_char_exec(hex[i]) {
            ok = false;
        }
        i += 1;
    }
    if !ok {
        return Err(prefixed("verifier hash in adapter id must be a 64-character SHA3-256 hex digest: ", hex.as_slice()));
    }
    match parse_hash_chars(hex.as_slice()) {
        Ok(h) => Ok(Some(h)),
        Err(e) => Err(e),
    }
}

proof fn lemma_find_sub_bound(s: Seq<char>, p: Seq<char>, i: int)
    ensures
        find_sub_from(s, p, i) matches Some(k) ==> occurs_at(s, p, k) && i <= k,
    decreases s.len() + 1 - i,
{
    if i >= 0 && i + p.len() <= s.len() && !occurs_at(s, p, i) {
        lemma_find_sub_bound(s, p, i + 1);
    }
}

proof fn lemma_rfind_bound(s: Seq<char>, p: Seq<char>, j: int)
    ensures
        rfind_sub_from(s, p, j) matches Some(k) ==> occurs_at(s, p, k) && k <= j,
    decreases j + 1,
{
    if j >= 0 && !occurs_at(s, p, j) {
        lemma_rfind_bound(s, p, j - 1);
    }
}

fn prefixed(prefix: &str, body: &[char]) -> (s: String)
    ensures
        s@ == prefix@ + body@,
{
    let mut s = owned(prefix);
    push_str(&mut s, string_from_chars(body).as_str());
    s
}

/// The identity of a native verifier adapter.
pub struct AdapterIdentity {
    pub adapter_id: Vec<char>,
    pub verifier_version: Vec<char>,
    pub verifier_binary_hash: crate::types::Hash,
}

/// Abstract value of an adapter identity.
pub struct IdentityModel {
    pub adapter_id: Seq<char>,
    pub verifier_version: Seq<char>,
    pub verifier_binary_hash: Seq<u8>,
}

/// The verifier version of an identity, from the configured version and
/// the version the adapter id names, which must agree when both exist.
pub open spec fn identity_version(id: Seq<char>, configured: Option<Seq<char>>) -> Result<
    Seq<char>,
    Seq<char>,
> {
    match (configured, adapter_version_spec(id)) {
        (Some(c), Some(p)) => if c != p {
            Err("VSEL_CAIRO_NATIVE_VERIFIER_VERSION '"@ + c + "' does not match adapter id version '"@
                + p + "'"@)
        } else {
            Ok(c)
        },
        (Some(c), None) => Ok(c),
        (None, Some(p)) => Ok(p),
        (None, None) => Err("cannot derive verifier version from adapter id "@ + id
            + "; set VSEL_CAIRO_NATIVE_VERIFIER_VERSION"@),
    }
}

/// The verifier binary hash of an identity, from the configured hash and
/// the hash the adapter id names, which must agree when both exist.
pub open spec fn identity_hash(id: Seq<char>, configured: Option<Seq<char>>) -> Result<
    Seq<u8>,
    Seq<char>,
> {
    match adapter_hash_spec(id) {
        Err(e) => Err(e),
        Ok(parsed) => match (configured, parsed) {
            (Some(c), Some(p)) => match parse_hash_hex_spec(c) {
                Err(e) => Err(e),
                Ok(ch) => if ch != p {
                    Err("VSEL_CAIRO_ADAPTER_VERIFIER_SHA3_256 does not match verifier hash encoded in adapter id"@)
                } else {
                    Ok(ch)
                },
            },
            (Some(c), None) => parse_hash_hex_spec(c),
            (None, Some(p)) => Ok(p),
            (None, None) => Err("cannot derive verifier binary hash from adapter id "@ + id
                + "; set VSEL_CAIRO_ADAPTER_VERIFIER_SHA3_256"@),
        },
    }
}

/// The adapter identity a backend id names, with the configured verifier
/// version and hash, or why it names none.
pub open spec fn adapter_identity_spec(
    backend_id: Seq<char>,
    configured_version: Option<Seq<char>>,
    configured_hash: Option<Seq<char>>,
) -> Result<IdentityModel, Seq<char>> {
    if !starts_with(backend_id, "cairo-stark/"@) {
        Err("backend_id '"@ + backend_id + "' must use concrete cairo-stark/<adapter-id>"@)
    } else {
        let id = backend_id.subrange(12, backend_id.len() as int);
        if id.len() == 0 {
            Err("adapter id must not be empty"@)
        } else {
            match identity_version(id, configured_version) {
                Err(e) => Err(e),
                Ok(v) => match identity_hash(id, configured_hash) {
                    Err(e) => Err(e),
                    Ok(h) => Ok(IdentityModel { adapter_id: id, verifier_version: v, verifier_binary_hash: h }),
                },
            }
        }
    }
}

/// Option of a string slice, by its characters.
pub open spec fn opt_view(o: Option<&str>) -> Option<Seq<char>> {
    match o {
        Some(s) => Some(s@),
        None => None,
    }
}

/// The identity of the adapter a backend id names, given the configured
/// verifier version and hash (from the environment), if any.
pub fn adapter_identity(
    backend_id: &str,
    configured_version: Option<&str>,
    configured_hash: Option<&str>,
) -> (r: Result<AdapterIdentity, String>)
    ensures
        r is Ok <==> adapter_identity_spec(backend_id@, opt_view(configured_version), opt_view(
            configured_hash,
        )) is Ok,
        r matches Ok(i) ==> adapter_identity_spec(
            backend_id@,
            opt_view(configured_version),
            opt_view(configured_hash),
        )->Ok_0 == (IdentityModel {
            adapter_id: i.adapter_id@,
            verifier_version: i.verifier_version@,
            verifier_binary_hash: i.verifier_binary_hash@,
        }),
        r matches Err(e) ==> adapter_identity_spec(
            backend_id@,
            opt_view(configured_version),
            opt_view(configured_hash),
        )->Err_0 == e@,
{
    let b = str_chars(backend_id);
    let pre = str_chars("cairo-stark/");
    proof {
        reveal_strlit("cairo-stark/");
    }
    if !crate::text::chars_start_with(b.as_slice(), pre.as_slice()) {
        let mut m = owned("backend_id '");
        push_str(&mut m, backend_id);
        push_str(&mut m, "' must use concrete cairo-stark/<adapter-id>");
        return Err(m);
    }
    let id = subrange_chars(b.as_slice(), 12, b.len());
    if id.len() == 0 {
        return Err(owned("adapter id must not be empty"));
    }
    let parsed = parse_version_from_adapter_id(id.as_slice());
    let verifier_version = match (configured_version, parsed) {
        (Some(c), Some(p)) => {
            let cc = str_chars(c);
            if !crate::text::chars_equal(cc.as_slice(), p.as_slice()) {
                let mut m = owned("VSEL_CAIRO_NATIVE_VERIFIER_VERSION '");
                push_str(&mut m, c);
                push_str(&mut m, "' does not match adapter id version '");
                push_str(&mut m, string_from_chars(p.as_slice()).as_str());
                push_str(&mut m, "'");
                return Err(m);
            }
            cc
        },
        (Some(c), None) => str_chars(c),
        (None, Some(p)) => p,
        (None, None) => {
            let mut m = prefixed("cannot derive verifier version from adapter id ", id.as_slice());
            push_str(&mut m, "; set VSEL_CAIRO_NATIVE_VERIFIER_VERSION");
            return Err(m);
        },
    };
    let parsed_hash = match parse_verifier_hash_from_adapter_id(id.as_slice()) {
        Ok(h) => h,
        Err(e) => {
            return Err(e);
        },
    };
    let verifier_binary_hash = match (configured_hash, parsed_hash) {
        (Some(c), Some(p)) => {
            let ch = match parse_hash_hex(c) {
                Ok(h) => h,
                Err(e) => {
                    return Err(e);
                },
            };
            if !ch.eq_hash(&p) {
                return Err(
                    owned(
                        "VSEL_CAIRO_ADAPTER_VERIFIER_SHA3_256 does not match verifier hash encoded in adapter id",
                    ),
                );
            }
            ch
        },
        (Some(c), None) => match parse_hash_hex(c) {
            Ok(h) => h,
            Err(e) => {
                return Err(e);
            },
        },
        (None, Some(p)) => p,
        (None, None) => {
            let mut m = prefixed("cannot derive verifier binary hash from adapter id ", id.as_slice());
            push_str(&mut m, "; set VSEL_CAIRO_ADAPTER_VERIFIER_SHA3_256");
            return Err(m);
        },
    };
    Ok(AdapterIdentity { adapter_id: id, verifier_version, verifier_binary_hash })
}


// ---------------------------------------------------------------------------
// Verifier certificates
// ---------------------------------------------------------------------------

/// How the native verifier was run: its command and working directory.
pub struct NativeCommandContext {
    pub verify_command: String,
    pub workdir: Option<String>,
}

/// The working directory's text, empty when there is none.
pub open spec fn workdir_text(w: Option<String>) -> Seq<char> {
    match w {
        Some(s) => s@,
        None => Seq::empty(),
    }
}

/// What the transcript hash of a certificate covers: the identity, the
/// statement and its hash, the proof hash, the digest of the native proof
/// bytes, and how the native verifier was run.
pub open spec fn transcript_preimage(
    id: IdentityModel,
    st: StatementModel,
    statement_hash: Seq<u8>,
    proof_hash: Seq<u8>,
    proof_bytes: Seq<u8>,
    verify_command: Seq<char>,
    workdir: Seq<char>,
) -> Seq<u8> {
    utf8_bytes("vsel-cairo-native-wrapper-transcript-v1"@) + hashed_str(id.adapter_id) + hashed_str(
        id.verifier_version,
    ) + id.verifier_binary_hash + hashed_str(st.backend_id) + program_bytes(st.program)
        + st.cairo_trace_hash + st.public_input_hash + st.constraint_commitment + statement_hash
        + proof_hash + sha3_256_spec(proof_bytes) + hashed_str(verify_command) + hashed_str(workdir)
}

/// The transcript hash of a certificate.
#[verifier::spinoff_prover]
#[verifier::rlimit(40)]
pub fn transcript_hash(
    identity: &AdapterIdentity,
    statement: &CairoStatement,
    statement_hash: &crate::types::Hash,
    proof_hash: &crate::types::Hash,
    proof_bytes: &[u8],
    native_context: &NativeCommandContext,
) -> (h: crate::types::Hash)
    ensures
        h@ == sha3_256_spec(
            transcript_preimage(
                IdentityModel {
                    adapter_id: identity.adapter_id@,
                    verifier_version: identity.verifier_version@,
                    verifier_binary_hash: identity.verifier_binary_hash@,
                },
                statement@,
                statement_hash@,
                proof_hash@,
                proof_bytes@,
                native_context.verify_command@,
                workdir_text(native_context.workdir),
            ),
        ),
{
    let mut buf: Vec<u8> = Vec::new();
    append_bytes(&mut buf, "vsel-cairo-native-wrapper-transcript-v1".as_bytes());
    crate::cairo_stark::append_hashed_str(
        &mut buf,
        string_from_chars(identity.adapter_id.as_slice()).as_str(),
    );
    crate::cairo_stark::append_hashed_str(
        &mut buf,
        string_from_chars(identity.verifier_version.as_slice()).as_str(),
    );
    append_bytes(&mut buf, identity.verifier_binary_hash.0.as_slice());
    crate::cairo_stark::append_hashed_str(&mut buf, statement.backend_id.as_str());
    append_bytes(&mut buf, statement.program.cairo_program_hash.0.as_slice());
    append_bytes(&mut buf, statement.program.sierra_program_hash.0.as_slice());
    append_bytes(&mut buf, statement.program.casm_program_hash.0.as_slice());
    append_bytes(&mut buf, statement.program.executable_program_hash.0.as_slice());
    append_bytes(&mut buf, statement.program.semantic_binding_hash.0.as_slice());
    append_bytes(&mut buf, statement.cairo_trace_hash.0.as_slice());
    append_bytes(&mut buf, statement.public_input_hash.0.as_slice());
    append_bytes(&mut buf, statement.constraint_commitment.0.as_slice());
    append_bytes(&mut buf, statement_hash.0.as_slice());
    append_bytes(&mut buf, proof_hash.0.as_slice());
    let proof_digest = sha3_256(proof_bytes);
    append_bytes(&mut buf, proof_digest.as_slice());
    crate::cairo_stark::append_hashed_str(&mut buf, native_context.verify_command.as_str());
    match &native_context.workdir {
        Some(w) => crate::cairo_stark::append_hashed_str(&mut buf, w.as_str()),
        None => crate::cairo_stark::append_hashed_str(&mut buf, ""),
    }
    proof {
        reveal_strlit("");
    }
    assert(buf@ =~= transcript_preimage(
        IdentityModel {
            adapter_id: identity.adapter_id@,
            verifier_version: identity.verifier_version@,
            verifier_binary_hash: identity.verifier_binary_hash@,
        },
        statement@,
        statement_hash@,
        proof_hash@,
        proof_bytes@,
        native_context.verify_command@,
        workdir_text(native_context.workdir),
    ));
    crate::types::Hash(sha3_256(buf.as_slice()))
}

/// The certificate the wrapper issues for an accepted statement.
pub open spec fn certificate_spec(
    id: IdentityModel,
    st: StatementModel,
    statement_hash: Seq<u8>,
    proof_hash: Seq<u8>,
    transcript: Seq<u8>,
) -> crate::cairo_stark::CertificateModel {
    crate::cairo_stark::CertificateModel {
        adapter_id: id.adapter_id,
        verifier_version: id.verifier_version,
        verifier_binary_hash: id.verifier_binary_hash,
        backend_id: st.backend_id,
        program: st.program,
        cairo_trace_hash: st.cairo_trace_hash,
        public_input_hash: st.public_input_hash,
        constraint_commitment: st.constraint_commitment,
        statement_hash,
        proof_hash,
        transcript_hash: transcript,
        accepted: true,
    }
}

/// A certificate built for a statement binds that statement, its hash and
/// the proof hash, when its adapter id and verifier version are valid
/// certificate strings and its verifier and transcript hashes are not zero.
pub proof fn lemma_built_certificate_binds(
    id: IdentityModel,
    st: StatementModel,
    statement_hash: Seq<u8>,
    proof_hash: Seq<u8>,
    transcript: Seq<u8>,
)
    requires
        crate::cairo_stark::valid_certificate_bytes(utf8_bytes(id.adapter_id)),
        crate::cairo_stark::valid_certificate_bytes(utf8_bytes(id.verifier_version)),
        id.verifier_binary_hash != crate::types::zero_hash_bytes(),
        transcript != crate::types::zero_hash_bytes(),
    ensures
        crate::cairo_stark::certificate_binds(
            certificate_spec(id, st, statement_hash, proof_hash, transcript),
            st,
            statement_hash,
            proof_hash,
        ),
{
}

/// Builds the certificate for a statement the native verifier accepted:
/// the adapter identity the backend id names (with the configured
/// verifier version and hash), the statement, and the transcript hash.
pub fn build_certificate(
    statement: &CairoStatement,
    statement_hash: &crate::types::Hash,
    proof_hash: &crate::types::Hash,
    proof_bytes: &[u8],
    native_context: &NativeCommandContext,
    configured_version: Option<&str>,
    configured_hash: Option<&str>,
) -> (r: Result<CairoVerifierCertificate, String>)
    ensures
        r is Ok <==> adapter_identity_spec(statement.backend_id@, opt_view(configured_version), opt_view(
            configured_hash,
        )) is Ok,
        r matches Err(e) ==> adapter_identity_spec(
            statement.backend_id@,
            opt_view(configured_version),
            opt_view(configured_hash),
        )->Err_0 == e@,
        r matches Ok(c) ==> {
            let id = adapter_identity_spec(
                statement.backend_id@,
                opt_view(configured_version),
                opt_view(configured_hash),
            )->Ok_0;
            c@ == certificate_spec(
                id,
                statement@,
                statement_hash@,
                proof_hash@,
                sha3_256_spec(
                    transcript_preimage(
                        id,
                        statement@,
                        statement_hash@,
                        proof_hash@,
                        proof_bytes@,
                        native_context.verify_command@,
                        workdir_text(native_context.workdir),
                    ),
                ),
            )
        },
{
    let identity = match adapter_identity(
        statement.backend_id.as_str(),
        configured_version,
        configured_hash,
    ) {
        Ok(i) => i,
        Err(e) => {
            return Err(e);
        },
    };
    let transcript = transcript_hash(
        &identity,
        statement,
        statement_hash,
        proof_hash,
        proof_bytes,
        native_context,
    );
    Ok(
        CairoVerifierCertificate {
            adapter_id: string_from_chars(identity.adapter_id.as_slice()),
            verifier_version: string_from_chars(identity.verifier_version.as_slice()),
            verifier_binary_hash: identity.verifier_binary_hash,
            backend_id: statement.backend_id.clone(),
            program: statement.program.duplicate(),
            cairo_trace_hash: statement.cairo_trace_hash,
            public_input_hash: statement.public_input_hash,
            constraint_commitment: statement.constraint_commitment,
            statement_hash: *statement_hash,
            proof_hash: *proof_hash,
            transcript_hash: transcript,
            accepted: true,
        },
    )
}

/// The certificate's lines, in the order its text gives them.
pub open spec fn certificate_lines(c: crate::cairo_stark::CertificateModel) -> Seq<Seq<char>> {
    seq![
        "VSEL_CAIRO_VERIFIER_CERTIFICATE_V1"@,
        "adapter_id="@ + c.adapter_id,
        "verifier_version="@ + c.verifier_version,
        "verifier_binary_hash="@ + hex_encode_spec(c.verifier_binary_hash),
        "backend_id="@ + c.backend_id,
        "cairo_program_hash="@ + hex_encode_spec(c.program.cairo),
        "sierra_program_hash="@ + hex_encode_spec(c.program.sierra),
        "casm_program_hash="@ + hex_encode_spec(c.program.casm),
        "executable_program_hash="@ + hex_encode_spec(c.program.executable),
        "semantic_binding_hash="@ + hex_encode_spec(c.program.semantic_binding),
        "cairo_trace_hash="@ + hex_encode_spec(c.cairo_trace_hash),
        "public_input_hash="@ + hex_encode_spec(c.public_input_hash),
        "constraint_commitment="@ + hex_encode_spec(c.constraint_commitment),
        "statement_hash="@ + hex_encode_spec(c.statement_hash),
        "proof_hash="@ + hex_encode_spec(c.proof_hash),
        "transcript_hash="@ + hex_encode_spec(c.transcript_hash),
        "accepted="@ + (if c.accepted {
            "true"@
        } else {
            "false"@
        }),
    ]
}

/// The keys of the certificate's field lines, in order.
spec fn certificate_keys() -> Seq<Seq<char>> {
    seq![
        "adapter_id="@,
        "verifier_version="@,
        "verifier_binary_hash="@,
        "backend_id="@,
        "cairo_program_hash="@,
        "sierra_program_hash="@,
        "casm_program_hash="@,
        "executable_program_hash="@,
        "semantic_binding_hash="@,
        "cairo_trace_hash="@,
        "public_input_hash="@,
        "constraint_commitment="@,
        "statement_hash="@,
        "proof_hash="@,
        "transcript_hash="@,
        "accepted="@,
    ]
}

proof fn lemma_certificate_keys()
    ensures
        certificate_keys().len() == 16,
        forall|i: int| 0 <= i < 16 ==> key_shaped(#[trigger] certificate_keys()[i]),
        forall|i: int| 0 <= i < 16 ==> one_line(#[trigger] certificate_keys()[i]),
        forall|i: int, j: int|
            0 <= i < 16 && 0 <= j < 16 && i != j ==> #[trigger] certificate_keys()[i]
                != #[trigger] certificate_keys()[j],
{
    reveal_strlit("adapter_id=");
    reveal_strlit("verifier_version=");
    reveal_strlit("verifier_binary_hash=");
    reveal_strlit("backend_id=");
    reveal_strlit("cairo_program_hash=");
    reveal_strlit("sierra_program_hash=");
    reveal_strlit("casm_program_hash=");
    reveal_strlit("executable_program_hash=");
    reveal_strlit("semantic_binding_hash=");
    reveal_strlit("cairo_trace_hash=");
    reveal_strlit("public_input_hash=");
    reveal_strlit("constraint_commitment=");
    reveal_strlit("statement_hash=");
    reveal_strlit("proof_hash=");
    reveal_strlit("transcript_hash=");
    reveal_strlit("accepted=");
    let k = certificate_keys();
    assert forall|i: int| 0 <= i < 16 implies key_shaped(#[trigger] k[i]) by {
        assert(k[i].len() > 0);
    }
    assert forall|i: int| 0 <= i < 16 implies one_line(#[trigger] k[i]) by {
        assert(k[i].len() > 0);
        assert(k[i].last() == '=');
    }
    assert forall|i: int, j: int|
        0 <= i < 16 && 0 <= j < 16 && i != j implies #[trigger] k[i] != #[trigger] k[j] by {
        if k[i].len() == k[j].len() {
            assert(k[i][0] != k[j][0]);
        }
    }
}

proof fn lemma_one_line_concat(a: Seq<char>, b: Seq<char>)
    requires
        one_line(a),
        one_line(b),
    ensures
        one_line(a + b),
{
    let ab = a + b;
    assert forall|i: int| 0 <= i < ab.len() implies ab[i] != '\n' by {
        if i >= a.len() {
            assert(ab[i] == b[i - a.len()]);
        }
    }
    if b.len() == 0 {
        assert(ab =~= a);
    } else {
        assert(ab.last() == b.last());
    }
}

proof fn lemma_hex_one_line(b: Seq<u8>)
    ensures
        one_line(hex_encode_spec(b)),
{
    let h = hex_encode_spec(b);
    assert forall|i: int| 0 <= i < h.len() implies h[i] != '\n' && h[i] != '\r' by {
        assert(b[i / 2] / 16 < 16);
        assert(b[i / 2] % 16 < 16);
    }
    if h.len() > 0 {
        assert(h.last() == h[h.len() - 1]);
    }
}

/// The text of a hash decodes back to the hash.
proof fn lemma_hex_text_decodes(h: Seq<u8>)
    ensures
        hex_decode_spec(utf8_bytes(hex_encode_spec(h))) == Some(h),
{
    lemma_hex_roundtrip(h);
    let x = hex_encode_spec(h);
    assert(vstd::utf8::is_ascii_chars(x));
    vstd::utf8::is_ascii_chars_encode_utf8(x);
    assert(utf8_bytes(x) =~= Seq::new(2 * h.len(), |i: int| x[i] as u8));
}

proof fn lemma_field_line(
    t: Seq<char>,
    head: Seq<char>,
    keys: Seq<Seq<char>>,
    vals: Seq<Seq<char>>,
    i: int,
)
    requires
        0 <= i < keys.len(),
        vals.len() == keys.len(),
        lines_spec(t).len() == keys.len() + 1,
        lines_spec(t)[0] == head,
        forall|j: int| 0 <= j < head.len() ==> head[j] != '=',
        forall|j: int| 0 <= j < keys.len() ==> lines_spec(t)[j + 1] == keys[j] + vals[j],
        forall|j: int| 0 <= j < keys.len() ==> key_shaped(#[trigger] keys[j]),
        forall|a: int, b: int|
            0 <= a < keys.len() && 0 <= b < keys.len() && a != b ==> #[trigger] keys[a]
                != #[trigger] keys[b],
    ensures
        text_field(t, keys[i]) == Some(vals[i]),
{
    let ls = lines_spec(t);
    let k = keys[i];
    assert(ls[i + 1] == k + vals[i]);
    assert(ls[i + 1].subrange(0, k.len() as int) =~= k);
    assert forall|j: int| 0 <= j < i + 1 implies !has_prefix(#[trigger] ls[j], k) by {
        if j == 0 {
            lemma_no_key(head, k);
        } else {
            assert(ls[j] == keys[j - 1] + vals[j - 1]);
            lemma_other_key(keys[j - 1], vals[j - 1], k);
        }
    }
    lemma_find_prefixed_at(ls, k, i + 1);
    assert(ls[i + 1].subrange(k.len() as int, ls[i + 1].len() as int) =~= vals[i]);
}

/// Every hash of the certificate holds 32 bytes.
pub open spec fn certificate_hashes_sized(c: CertificateModel) -> bool {
    &&& c.verifier_binary_hash.len() == 32
    &&& c.program.cairo.len() == 32
    &&& c.program.sierra.len() == 32
    &&& c.program.casm.len() == 32
    &&& c.program.executable.len() == 32
    &&& c.program.semantic_binding.len() == 32
    &&& c.cairo_trace_hash.len() == 32
    &&& c.public_input_hash.len() == 32
    &&& c.constraint_commitment.len() == 32
    &&& c.statement_hash.len() == 32
    &&& c.proof_hash.len() == 32
    &&& c.transcript_hash.len() == 32
}

/// Parsing the text of a certificate gives the certificate back, when its
/// adapter id, verifier version and backend id each stand as one line: by
/// its contract, `parse_certificate` on that text returns `Ok` of a
/// certificate whose view is `c`.
pub proof fn lemma_certificate_roundtrip(c: CertificateModel)
    requires
        one_line(c.adapter_id),
        one_line(c.verifier_version),
        one_line(c.backend_id),
        certificate_hashes_sized(c),
    ensures
        certificate_text_ok(certificate_text(c)),
        certificate_from_text(certificate_text(c)) == c,
{
    let t = certificate_text(c);
    let ls = certificate_lines(c);
    let head = "VSEL_CAIRO_VERIFIER_CERTIFICATE_V1"@;
    let acc = if c.accepted {
        "true"@
    } else {
        "false"@
    };
    reveal_strlit("VSEL_CAIRO_VERIFIER_CERTIFICATE_V1");
    reveal_strlit("true");
    reveal_strlit("false");
    let keys = certificate_keys();
    let vals = seq![
        c.adapter_id,
        c.verifier_version,
        hex_encode_spec(c.verifier_binary_hash),
        c.backend_id,
        hex_encode_spec(c.program.cairo),
        hex_encode_spec(c.program.sierra),
        hex_encode_spec(c.program.casm),
        hex_encode_spec(c.program.executable),
        hex_encode_spec(c.program.semantic_binding),
        hex_encode_spec(c.cairo_trace_hash),
        hex_encode_spec(c.public_input_hash),
        hex_encode_spec(c.constraint_commitment),
        hex_encode_spec(c.statement_hash),
        hex_encode_spec(c.proof_hash),
        hex_encode_spec(c.transcript_hash),
        acc,
    ];
    lemma_certificate_keys();
    lemma_hex_one_line(c.verifier_binary_hash);
    lemma_hex_one_line(c.program.cairo);
    lemma_hex_one_line(c.program.sierra);
    lemma_hex_one_line(c.program.casm);
    lemma_hex_one_line(c.program.executable);
    lemma_hex_one_line(c.program.semantic_binding);
    lemma_hex_one_line(c.cairo_trace_hash);
    lemma_hex_one_line(c.public_input_hash);
    lemma_hex_one_line(c.constraint_commitment);
    lemma_hex_one_line(c.statement_hash);
    lemma_hex_one_line(c.proof_hash);
    lemma_hex_one_line(c.transcript_hash);
    assert(one_line(acc));
    assert forall|j: int| 0 <= j < 16 implies one_line(#[trigger] vals[j]) by {}
    assert forall|j: int| 0 <= j < 16 implies ls[j + 1] == keys[j] + vals[j] by {}
    assert forall|i: int| 0 <= i < ls.len() implies one_line(#[trigger] ls[i]) by {
        if i == 0 {
            assert(one_line(head));
        } else {
            assert(ls[i] == keys[i - 1] + vals[i - 1]);
            lemma_one_line_concat(keys[i - 1], vals[i - 1]);
        }
    }
    lemma_lines_of_join(ls);
    assert forall|i: int| 0 <= i < 16 implies text_field(t, #[trigger] keys[i]) == Some(vals[i]) by {
        lemma_field_line(t, head, keys, vals, i);
    }
    assert(lines_spec(t)[0] == head);
    lemma_hex_text_decodes(c.verifier_binary_hash);
    lemma_hex_text_decodes(c.program.cairo);
    lemma_hex_text_decodes(c.program.sierra);
    lemma_hex_text_decodes(c.program.casm);
    lemma_hex_text_decodes(c.program.executable);
    lemma_hex_text_decodes(c.program.semantic_binding);
    lemma_hex_text_decodes(c.cairo_trace_hash);
    lemma_hex_text_decodes(c.public_input_hash);
    lemma_hex_text_decodes(c.constraint_commitment);
    lemma_hex_text_decodes(c.statement_hash);
    lemma_hex_text_decodes(c.proof_hash);
    lemma_hex_text_decodes(c.transcript_hash);
    assert(keys[0] == "adapter_id="@);
    assert(keys[15] == "accepted="@);
    assert(certificate_from_text(t).program == c.program);
}

/// The certificate's text: its lines, each followed by a newline.
pub open spec fn certificate_text(c: crate::cairo_stark::CertificateModel) -> Seq<char> {
    join_lines(certificate_lines(c))
}

/// Appends a line and its newline to text made of whole lines.
fn push_line(s: &mut String, Ghost(ls): Ghost<Seq<Seq<char>>>, key: &str, value: &str) -> (r: Ghost<
    Seq<Seq<char>>,
>)
    requires
        old(s)@ == join_lines(ls),
    ensures
        r@ == ls.push(key@ + value@),
        final(s)@ == join_lines(r@),
{
    push_str(s, key);
    push_str(s, value);
    push_str(s, "\n");
    proof {
        lemma_join_push(ls, key@ + value@);
        assert(join_lines(ls) + key@ + value@ + "\n"@ =~= join_lines(ls) + (key@ + value@)
            + "\n"@);
    }
    Ghost(ls.push(key@ + value@))
}

/// The certificate's text.
pub fn format_certificate(certificate: &CairoVerifierCertificate) -> (s: String)
    ensures
        s@ == certificate_text(certificate@),
{
    let c = certificate;
    let mut s = String::new();
    let g = Ghost(Seq::<Seq<char>>::empty());
    proof {
        reveal_with_fuel(join_lines, 1);
        assert(s@ =~= join_lines(g@));
    }
    let g = push_line(&mut s, g, "VSEL_CAIRO_VERIFIER_CERTIFICATE_V1", "");
    let g = push_line(&mut s, g, "adapter_id=", c.adapter_id.as_str());
    let g = push_line(&mut s, g, "verifier_version=", c.verifier_version.as_str());
    let h = hex_encode(c.verifier_binary_hash.0.as_slice());
    let g = push_line(&mut s, g, "verifier_binary_hash=", h.as_str());
    let g = push_line(&mut s, g, "backend_id=", c.backend_id.as_str());
    let h = hex_encode(c.program.cairo_program_hash.0.as_slice());
    let g = push_line(&mut s, g, "cairo_program_hash=", h.as_str());
    let h = hex_encode(c.program.sierra_program_hash.0.as_slice());
    let g = push_line(&mut s, g, "sierra_program_hash=", h.as_str());
    let h = hex_encode(c.program.casm_program_hash.0.as_slice());
    let g = push_line(&mut s, g, "casm_program_hash=", h.as_str());
    let h = hex_encode(c.program.executable_program_hash.0.as_slice());
    let g = push_line(&mut s, g, "executable_program_hash=", h.as_str());
    let h = hex_encode(c.program.semantic_binding_hash.0.as_slice());
    let g = push_line(&mut s, g, "semantic_binding_hash=", h.as_str());
    let h = hex_encode(c.cairo_trace_hash.0.as_slice());
    let g = push_line(&mut s, g, "cairo_trace_hash=", h.as_str());
    let h = hex_encode(c.public_input_hash.0.as_slice());
    let g = push_line(&mut s, g, "public_input_hash=", h.as_str());
    let h = hex_encode(c.constraint_commitment.0.as_slice());
    let g = push_line(&mut s, g, "constraint_commitment=", h.as_str());
    let h = hex_encode(c.statement_hash.0.as_slice());
    let g = push_line(&mut s, g, "statement_hash=", h.as_str());
    let h = hex_encode(c.proof_hash.0.as_slice());
    let g = push_line(&mut s, g, "proof_hash=", h.as_str());
    let h = hex_encode(c.transcript_hash.0.as_slice());
    let g = push_line(&mut s, g, "transcript_hash=", h.as_str());
    let g = if c.accepted {
        push_line(&mut s, g, "accepted=", "true")
    } else {
        push_line(&mut s, g, "accepted=", "false")
    };
    proof {
        reveal_strlit("");
        assert("VSEL_CAIRO_VERIFIER_CERTIFICATE_V1"@ + ""@ =~= "VSEL_CAIRO_VERIFIER_CERTIFICATE_V1"@);
        assert(g@ =~= certificate_lines(certificate@));
    }
    s
}

// ---------------------------------------------------------------------------
// Context attestation and request fields
// ---------------------------------------------------------------------------

/// Why a native verifier's context attestation does not attest the
/// statement and proof, checking the fields in order.
pub open spec fn context_attestation_error(
    stdout: Seq<char>,
    st: StatementModel,
    proof_hash: Seq<u8>,
) -> Option<Seq<char>> {
    match attestation_spec(stdout) {
        Err(e) => Some(e),
        Ok(f) => first_error(
            attested_value_error(f, "backend_id"@, st.backend_id),
            first_error(
                attested_hash_error(f, "cairo_program_hash"@, st.program.cairo),
                first_error(
                    attested_hash_error(f, "sierra_program_hash"@, st.program.sierra),
                    first_error(
                        attested_hash_error(f, "casm_program_hash"@, st.program.casm),
                        first_error(
                            attested_hash_error(f, "executable_program_hash"@, st.program.executable),
                            first_error(
                                attested_hash_error(
                                    f,
                                    "semantic_binding_hash"@,
                                    st.program.semantic_binding,
                                ),
                                first_error(
                                    attested_hash_error(f, "cairo_trace_hash"@, st.cairo_trace_hash),
                                    first_error(
                                        attested_hash_error(
                                            f,
                                            "public_input_hash"@,
                                            st.public_input_hash,
                                        ),
                                        first_error(
                                            attested_hash_error(
                                                f,
                                                "constraint_commitment"@,
                                                st.constraint_commitment,
                                            ),
                                            first_error(
                                                attested_hash_error(
                                                    f,
                                                    "statement_hash"@,
                                                    statement_hash_spec(st),
                                                ),
                                                first_error(
                                                    attested_hash_error(f, "proof_hash"@, proof_hash),
                                                    attested_value_error(f, "accepted"@, "true"@),
                                                ),
                                            ),
                                        ),
                                    ),
                                ),
                            ),
                        ),
                    ),
                ),
            ),
        ),
    }
}

/// Checks that a native verifier's output attests exactly this statement
/// and proof, and acceptance.
pub fn require_native_context_attestation(
    stdout: &str,
    statement: &CairoStatement,
    proof_hash: &crate::types::Hash,
) -> (r: Result<(), String>)
    ensures
        r is Ok <==> context_attestation_error(stdout@, statement@, proof_hash@) is None,
        r matches Err(e) ==> Some(e@) == context_attestation_error(stdout@, statement@, proof_hash@),
{
    let f = match parse_native_attestation(stdout) {
        Ok(f) => f,
        Err(e) => {
            return Err(e);
        },
    };
    match require_attested_value(&f, "backend_id", statement.backend_id.as_str()) {
        Ok(()) => {},
        Err(e) => {
            return Err(e);
        },
    }
    match require_attested_hash(&f, "cairo_program_hash", &statement.program.cairo_program_hash) {
        Ok(()) => {},
        Err(e) => {
            return Err(e);
        },
    }
    match require_attested_hash(&f, "sierra_program_hash", &statement.program.sierra_program_hash) {
        Ok(()) => {},
        Err(e) => {
            return Err(e);
        },
    }
    match require_attested_hash(&f, "casm_program_hash", &statement.program.casm_program_hash) {
        Ok(()) => {},
        Err(e) => {
            return Err(e);
        },
    }
    match require_attested_hash(
        &f,
        "executable_program_hash",
        &statement.program.executable_program_hash,
    ) {
        Ok(()) => {},
        Err(e) => {
            return Err(e);
        },
    }
    match require_attested_hash(
        &f,
        "semantic_binding_hash",
        &statement.program.semantic_binding_hash,
    ) {
        Ok(()) => {},
        Err(e) => {
            return Err(e);
        },
    }
    match require_attested_hash(&f, "cairo_trace_hash", &statement.cairo_trace_hash) {
        Ok(()) => {},
        Err(e) => {
            return Err(e);
        },
    }
    match require_attested_hash(&f, "public_input_hash", &statement.public_input_hash) {
        Ok(()) => {},
        Err(e) => {
            return Err(e);
        },
    }
    match require_attested_hash(&f, "constraint_commitment", &statement.constraint_commitment) {
        Ok(()) => {},
        Err(e) => {
            return Err(e);
        },
    }
    let statement_hash = statement.hash();
    match require_attested_hash(&f, "statement_hash", &statement_hash) {
        Ok(()) => {},
        Err(e) => {
            return Err(e);
        },
    }
    match require_attested_hash(&f, "proof_hash", proof_hash) {
        Ok(()) => {},
        Err(e) => {
            return Err(e);
        },
    }
    require_attested_value(&f, "accepted", "true")
}

/// The hash a request field holds, or why it holds none.
pub open spec fn request_hash_field(fields: Seq<(Seq<char>, Seq<char>)>, key: Seq<char>) -> Result<
    Seq<u8>,
    Seq<char>,
> {
    match lookup(fields, key) {
        None => Err("missing request field "@ + key),
        Some(v) => parse_hash_hex_spec(v),
    }
}

/// The first failure among the fields of an expected statement.
pub open spec fn expected_request_error(f: Seq<(Seq<char>, Seq<char>)>) -> Option<Seq<char>> {
    if lookup(f, "backend_id"@) is None {
        Some("missing request field "@ + "backend_id"@)
    } else if request_hash_field(f, "cairo_program_hash"@) is Err {
        Some(request_hash_field(f, "cairo_program_hash"@)->Err_0)
    } else if request_hash_field(f, "sierra_program_hash"@) is Err {
        Some(request_hash_field(f, "sierra_program_hash"@)->Err_0)
    } else if request_hash_field(f, "casm_program_hash"@) is Err {
        Some(request_hash_field(f, "casm_program_hash"@)->Err_0)
    } else if request_hash_field(f, "executable_program_hash"@) is Err {
        Some(request_hash_field(f, "executable_program_hash"@)->Err_0)
    } else if request_hash_field(f, "semantic_binding_hash"@) is Err {
        Some(request_hash_field(f, "semantic_binding_hash"@)->Err_0)
    } else if request_hash_field(f, "public_input_hash"@) is Err {
        Some(request_hash_field(f, "public_input_hash"@)->Err_0)
    } else if request_hash_field(f, "constraint_commitment"@) is Err {
        Some(request_hash_field(f, "constraint_commitment"@)->Err_0)
    } else {
        None
    }
}

/// The expected statement a request's fields describe.
pub open spec fn expected_from_fields(f: Seq<(Seq<char>, Seq<char>)>) -> crate::cairo_stark::ExpectedModel {
    crate::cairo_stark::ExpectedModel {
        backend_id: lookup(f, "backend_id"@)->0,
        program: crate::cairo_stark::ProgramModel {
            cairo: request_hash_field(f, "cairo_program_hash"@)->Ok_0,
            sierra: request_hash_field(f, "sierra_program_hash"@)->Ok_0,
            casm: request_hash_field(f, "casm_program_hash"@)->Ok_0,
            executable: request_hash_field(f, "executable_program_hash"@)->Ok_0,
            semantic_binding: request_hash_field(f, "semantic_binding_hash"@)->Ok_0,
        },
        public_input_hash: request_hash_field(f, "public_input_hash"@)->Ok_0,
        constraint_commitment: request_hash_field(f, "constraint_commitment"@)->Ok_0,
    }
}

fn required_hash(request: &Request, key: &str) -> (r: Result<crate::types::Hash, String>)
    ensures
        r is Ok <==> request_hash_field(fields_view(request.fields@), key@) is Ok,
        r matches Ok(h) ==> request_hash_field(fields_view(request.fields@), key@)->Ok_0 == h@,
        r matches Err(e) ==> request_hash_field(fields_view(request.fields@), key@)->Err_0 == e@,
{
    let v = match request.required(key) {
        Ok(v) => v,
        Err(e) => {
            return Err(e);
        },
    };
    parse_hash_chars(v.as_slice())
}

/// The expected statement a request names.
pub fn expected_from_request(request: &Request) -> (r: Result<
    crate::cairo_stark::CairoExpectedStatement,
    String,
>)
    ensures
        r is Ok <==> expected_request_error(fields_view(request.fields@)) is None,
        r matches Err(e) ==> Some(e@) == expected_request_error(fields_view(request.fields@)),
        r matches Ok(x) ==> x@ == expected_from_fields(fields_view(request.fields@)),
{
    let backend_id = match request.required("backend_id") {
        Ok(v) => string_from_chars(v.as_slice()),
        Err(e) => {
            return Err(e);
        },
    };
    let cairo = match required_hash(request, "cairo_program_hash") {
        Ok(h) => h,
        Err(e) => {
            return Err(e);
        },
    };
    let sierra = match required_hash(request, "sierra_program_hash") {
        Ok(h) => h,
        Err(e) => {
            return Err(e);
        },
    };
    let casm = match required_hash(request, "casm_program_hash") {
        Ok(h) => h,
        Err(e) => {
            return Err(e);
        },
    };
    let executable = match required_hash(request, "executable_program_hash") {
        Ok(h) => h,
        Err(e) => {
            return Err(e);
        },
    };
    let semantic = match required_hash(request, "semantic_binding_hash") {
        Ok(h) => h,
        Err(e) => {
            return Err(e);
        },
    };
    let public_input_hash = match required_hash(request, "public_input_hash") {
        Ok(h) => h,
        Err(e) => {
            return Err(e);
        },
    };
    let constraint_commitment = match required_hash(request, "constraint_commitment") {
        Ok(h) => h,
        Err(e) => {
            return Err(e);
        },
    };
    Ok(
        crate::cairo_stark::CairoExpectedStatement {
            backend_id,
            program: crate::cairo_stark::CairoProgramCommitments {
                cairo_program_hash: cairo,
                sierra_program_hash: sierra,
                casm_program_hash: casm,
                executable_program_hash: executable,
                semantic_binding_hash: semantic,
            },
            public_input_hash,
            constraint_commitment,
        },
    )
}

/// Why a request's hash field does not match the expected hash, if it
/// does not.
pub open spec fn hash_field_mismatch(
    f: Seq<(Seq<char>, Seq<char>)>,
    key: Seq<char>,
    expected: Seq<u8>,
    label: Seq<char>,
) -> Option<Seq<char>> {
    match request_hash_field(f, key) {
        Err(e) => Some(e),
        Ok(h) => if h != expected {
            Some(label + " mismatch: expected "@ + hex_encode_spec(expected) + ", got "@
                + hex_encode_spec(h))
        } else {
            None
        },
    }
}

/// Checks that a request's hash field holds the expected hash.
pub fn require_hash_field(
    request: &Request,
    key: &str,
    expected: &crate::types::Hash,
    label: &str,
) -> (r: Result<(), String>)
    ensures
        r is Ok <==> hash_field_mismatch(fields_view(request.fields@), key@, expected@, label@) is None,
        r matches Err(e) ==> Some(e@) == hash_field_mismatch(
            fields_view(request.fields@),
            key@,
            expected@,
            label@,
        ),
{
    let actual = match required_hash(request, key) {
        Ok(h) => h,
        Err(e) => {
            return Err(e);
        },
    };
    if !actual.eq_hash(expected) {
        let mut m = owned(label);
        push_str(&mut m, " mismatch: expected ");
        push_str(&mut m, hex_encode(expected.0.as_slice()).as_str());
        push_str(&mut m, ", got ");
        push_str(&mut m, hex_encode(actual.0.as_slice()).as_str());
        return Err(m);
    }
    Ok(())
}


// ---------------------------------------------------------------------------
// Artifact digests
// ---------------------------------------------------------------------------

/// The SHA3-256 digest of bytes, as a hash.
pub fn sha3_256_hash(bytes: &[u8]) -> (h: crate::types::Hash)
    ensures
        h@ == sha3_256_spec(bytes@),
{
    crate::types::Hash(sha3_256(bytes))
}

/// The hash of native proof bytes under the proof-bytes domain.
pub fn proof_bytes_hash(bytes: &[u8]) -> (h: crate::types::Hash)
    ensures
        h@ == crate::cairo_stark::proof_bytes_hash_spec(bytes@),
{
    crate::cairo_stark::hash_domain_bytes("vsel-cairo-proof-bytes-v1".as_bytes(), bytes)
}

/// Why a configured artifact's digest does not match the expected hash.
pub open spec fn file_hash_mismatch(
    env_key: Seq<char>,
    expected: Seq<u8>,
    label: Seq<char>,
    actual: Seq<u8>,
) -> Option<Seq<char>> {
    if actual != expected {
        Some(label + " mismatch from "@ + env_key + ": expected "@ + hex_encode_spec(expected)
            + ", got "@ + hex_encode_spec(actual))
    } else {
        None
    }
}

/// Checks that the digest of a configured artifact is the expected hash.
pub fn require_file_hash(
    env_key: &str,
    expected: &crate::types::Hash,
    label: &str,
    actual: &crate::types::Hash,
) -> (r: Result<(), String>)
    ensures
        r is Ok <==> file_hash_mismatch(env_key@, expected@, label@, actual@) is None,
        r matches Err(e) ==> Some(e@) == file_hash_mismatch(env_key@, expected@, label@, actual@),
{
    if actual.eq_hash(expected) {
        return Ok(());
    }
    let mut m = owned(label);
    push_str(&mut m, " mismatch from ");
    push_str(&mut m, env_key);
    push_str(&mut m, ": expected ");
    push_str(&mut m, hex_encode(expected.0.as_slice()).as_str());
    push_str(&mut m, ", got ");
    push_str(&mut m, hex_encode(actual.0.as_slice()).as_str());
    Err(m)
}

/// Why a Cairo trace does not match the artifact's trace hash.
pub open spec fn trace_hash_mismatch(expected: Seq<u8>, actual: Seq<u8>) -> Option<Seq<char>> {
    if actual != expected {
        Some("VSEL_CAIRO_NATIVE_TRACE_PATH does not match VCAI cairo_trace_hash: expected "@
            + hex_encode_spec(expected) + ", got "@ + hex_encode_spec(actual))
    } else {
        None
    }
}

/// Checks that the configured Cairo trace is the one the artifact names.
pub fn require_trace_hash(expected: &crate::types::Hash, actual: &crate::types::Hash) -> (r: Result<
    (),
    String,
>)
    ensures
        r is Ok <==> trace_hash_mismatch(expected@, actual@) is None,
        r matches Err(e) ==> Some(e@) == trace_hash_mismatch(expected@, actual@),
{
    if actual.eq_hash(expected) {
        return Ok(());
    }
    let mut m = owned("VSEL_CAIRO_NATIVE_TRACE_PATH does not match VCAI cairo_trace_hash: expected ");
    push_str(&mut m, hex_encode(expected.0.as_slice()).as_str());
    push_str(&mut m, ", got ");
    push_str(&mut m, hex_encode(actual.0.as_slice()).as_str());
    Err(m)
}

} // verus!
