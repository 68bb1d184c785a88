//! Fail-closed configuration of native Cairo/STARK command adapters
//! (Stone, Stwo): pinned versions and command digests, adapter ids that
//! bind them, and certificate pin enforcement.
//!
//! Reading the environment and the command files is left to the caller,
//! which hands the library what it read.

use vstd::prelude::*;

use crate::cairo_stark::{
    CairoStarkError, CairoStarkErrorModel, CairoVerifierCertificate, CertificateModel,
    CommandCairoAdapter,
};
use crate::encoding::{
    hex_decode_spec, hex_encode, hex_encode_spec, hex_nibble_spec, hex_nibble_value, sha3_256,
    sha3_256_spec,
};
use crate::text::{concat2, concat3, owned, push_str, str_chars, string_from_chars, utf8_bytes};

verus! {

/// Supported native Cairo/STARK command families.
#[derive(Clone, Copy, Debug, PartialEq, Eq, Structural)]
pub enum NativeCairoBackendKind {
    Stone,
    Stwo,
}

/// Name of a command family in adapter ids.
pub open spec fn adapter_name_spec(kind: NativeCairoBackendKind) -> Seq<char> {
    match kind {
        NativeCairoBackendKind::Stone => "stone"@,
        NativeCairoBackendKind::Stwo => "stwo"@,
    }
}

/// Prefix of a command family's environment variables.
pub open spec fn env_prefix_spec(kind: NativeCairoBackendKind) -> Seq<char> {
    match kind {
        NativeCairoBackendKind::Stone => "VSEL_STONE_CAIRO"@,
        NativeCairoBackendKind::Stwo => "VSEL_STWO_CAIRO"@,
    }
}

impl NativeCairoBackendKind {
    /// `stone` or `stwo`.
    pub fn adapter_name(self) -> (s: &'static str)
        ensures
            s@ == adapter_name_spec(self),
    {
        match self {
            NativeCairoBackendKind::Stone => "stone",
            NativeCairoBackendKind::Stwo => "stwo",
        }
    }

    /// `VSEL_STONE_CAIRO` or `VSEL_STWO_CAIRO`.
    pub fn env_prefix(self) -> (s: &'static str)
        ensures
            s@ == env_prefix_spec(self),
    {
        match self {
            NativeCairoBackendKind::Stone => "VSEL_STONE_CAIRO",
            NativeCairoBackendKind::Stwo => "VSEL_STWO_CAIRO",
        }
    }
}

// ---------------------------------------------------------------------------
// Environment
// ---------------------------------------------------------------------------

/// The value of the first variable named `key`.
pub open spec fn env_lookup(env: Seq<(Seq<char>, Seq<char>)>, key: Seq<char>) -> Option<Seq<char>>
    decreases env.len(),
{
    if env.len() == 0 {
        None
    } else if env[0].0 == key {
        Some(env[0].1)
    } else {
        env_lookup(env.drop_first(), key)
    }
}

/// Abstract value of environment variables.
pub open spec fn env_view(env: Seq<(String, String)>) -> Seq<(Seq<char>, Seq<char>)> {
    env.map_values(|p: (String, String)| (p.0@, p.1@))
}

/// Name of a configuration variable.
pub open spec fn env_key(prefix: Seq<char>, suffix: Seq<char>) -> Seq<char> {
    prefix + "_"@ + suffix
}

/// Error detail of a missing variable.
pub open spec fn missing_env_message(key: Seq<char>) -> Seq<char> {
    "missing required native Cairo/STARK adapter env var "@ + key
}

fn read_env(prefix: &str, suffix: &str, env: &[(String, String)]) -> (r: Result<String, CairoStarkError>)
    ensures
        r is Ok <==> env_lookup(env_view(env@), env_key(prefix@, suffix@)) is Some,
        r matches Ok(v) ==> v@ == env_lookup(env_view(env@), env_key(prefix@, suffix@))->0,
        r matches Err(e) ==> e@ == CairoStarkErrorModel::CommandFailed(
            missing_env_message(env_key(prefix@, suffix@)),
        ),
{
    let key = concat3(prefix, "_", suffix);
    let ghost ev = env_view(env@);
    assert(ev.subrange(0, ev.len() as int) =~= ev);
    let mut i: usize = 0;
    while i < env.len()
        invariant
            i <= env.len(),
            ev == env_view(env@),
            key@ == env_key(prefix@, suffix@),
            env_lookup(ev, key@) == env_lookup(ev.subrange(i as int, ev.len() as int), key@),
        decreases env.len() - i,
    {
        let ghost rest = ev.subrange(i as int, ev.len() as int);
        assert(rest[0] == (env@[i as int].0@, env@[i as int].1@));
        assert(rest.drop_first() =~= ev.subrange(i + 1, ev.len() as int));
        if env[i].0 == key {
            return Ok(env[i].1.clone());
        }
        i += 1;
    }
    assert(ev.subrange(i as int, ev.len() as int) =~= Seq::<(Seq<char>, Seq<char>)>::empty());
    Err(CairoStarkError::CommandFailed(concat2("missing required native Cairo/STARK adapter env var ", key.as_str())))
}

// ---------------------------------------------------------------------------
// Syntax of configuration values
// ---------------------------------------------------------------------------

/// An adapter id component: non-empty, of ASCII letters, digits, `.`, `_`
/// and `-`.
pub open spec fn id_component_byte(b: u8) -> bool {
    (0x30 <= b <= 0x39) || (0x41 <= b <= 0x5a) || (0x61 <= b <= 0x7a) || b == 0x2e || b == 0x5f
        || b == 0x2d
}

/// Error detail for an invalid id component, if any.
pub open spec fn id_component_error(name: Seq<char>, value: Seq<char>) -> Option<Seq<char>> {
    let b = utf8_bytes(value);
    if b.len() == 0 {
        Some(name + " must be non-empty"@)
    } else if !(forall|i: int| 0 <= i < b.len() ==> #[trigger] id_component_byte(b[i])) {
        Some(name + " contains characters outside [A-Za-z0-9._-]"@)
    } else {
        None
    }
}

/// Validates an adapter id component.
pub fn validate_id_component(name: &str, value: &str) -> (r: Result<(), CairoStarkError>)
    ensures
        r is Ok <==> id_component_error(name@, value@) is None,
        r matches Err(e) ==> e@ == CairoStarkErrorModel::CommandFailed(
            id_component_error(name@, value@)->0,
        ),
{
    let bytes = value.as_bytes();
    if bytes.len() == 0 {
        return Err(CairoStarkError::CommandFailed(concat2(name, " must be non-empty")));
    }
    let mut i: usize = 0;
    while i < bytes.len()
        invariant
            i <= bytes.len(),
            bytes@ == utf8_bytes(value@),
            forall|k: int| 0 <= k < i ==> #[trigger] id_component_byte(bytes@[k]),
        decreases bytes.len() - i,
    {
        let b = bytes[i];
        let ok = (b >= 0x30 && b <= 0x39) || (b >= 0x41 && b <= 0x5a) || (b >= 0x61 && b <= 0x7a)
            || b == 0x2e || b == 0x5f || b == 0x2d;
        if !ok {
            assert(!id_component_byte(bytes@[i as int]));
            return Err(
                CairoStarkError::CommandFailed(
                    concat2(name, " contains characters outside [A-Za-z0-9._-]"),
                ),
            );
        }
        i += 1;
    }
    Ok(())
}

/// A SHA3-256 digest in hexadecimal: 64 hexadecimal digits of either case.
pub open spec fn valid_sha3_hex(value: Seq<char>) -> bool {
    let b = utf8_bytes(value);
    b.len() == 64 && forall|i: int| 0 <= i < b.len() ==> (#[trigger] hex_nibble_spec(b[i])) is Some
}

/// Validates a SHA3-256 hex digest.
pub fn validate_sha3_256_hex(name: &str, value: &str) -> (r: Result<(), CairoStarkError>)
    ensures
        r is Ok <==> valid_sha3_hex(value@),
        r matches Err(e) ==> e@ == CairoStarkErrorModel::CommandFailed(
            name@ + " must be a 64-character SHA3-256 hex digest"@,
        ),
{
    let bytes = value.as_bytes();
    if bytes.len() != 64 {
        return Err(
            CairoStarkError::CommandFailed(
                concat2(name, " must be a 64-character SHA3-256 hex digest"),
            ),
        );
    }
    let mut i: usize = 0;
    while i < bytes.len()
        invariant
            i <= bytes.len(),
            bytes@ == utf8_bytes(value@),
            forall|k: int| 0 <= k < i ==> (#[trigger] hex_nibble_spec(bytes@[k])) is Some,
        decreases bytes.len() - i,
    {
        if hex_nibble_value(bytes[i]).is_none() {
            return Err(
                CairoStarkError::CommandFailed(
                    concat2(name, " must be a 64-character SHA3-256 hex digest"),
                ),
            );
        }
        i += 1;
    }
    Ok(())
}

/// Value of a hexadecimal digit byte.
pub fn hex_nibble(byte: u8) -> (r: Result<u8, CairoStarkError>)
    ensures
        r is Ok <==> hex_nibble_spec(byte) is Some,
        r matches Ok(n) ==> Some(n) == hex_nibble_spec(byte),
        r matches Err(e) ==> e@ == CairoStarkErrorModel::CommandFailed(
            "invalid SHA3-256 hex character"@,
        ),
{
    match hex_nibble_value(byte) {
        Some(n) => Ok(n),
        None => Err(CairoStarkError::CommandFailed(owned("invalid SHA3-256 hex character"))),
    }
}

/// The digest a valid SHA3-256 hex string denotes.
pub fn sha3_256_hash_from_hex(value: &str) -> (r: Result<crate::types::Hash, CairoStarkError>)
    ensures
        r is Ok <==> valid_sha3_hex(value@),
        r matches Ok(h) ==> Some(h@) == hex_decode_spec(utf8_bytes(value@)),
        r matches Err(e) ==> e@ == CairoStarkErrorModel::CommandFailed(
            "verifier_sha3_256"@ + " must be a 64-character SHA3-256 hex digest"@,
        ),
{
    match validate_sha3_256_hex("verifier_sha3_256", value) {
        Ok(()) => {},
        Err(e) => {
            return Err(e);
        },
    }
    let bytes = value.as_bytes();
    let mut out = [0u8; 32];
    let mut i: usize = 0;
    while i < 32
        invariant
            i <= 32,
            bytes@ == utf8_bytes(value@),
            valid_sha3_hex(value@),
            forall|j: int|
                0 <= j < i ==> out@[j] == (hex_nibble_spec(bytes@[2 * j])->0 * 16 + hex_nibble_spec(
                    bytes@[2 * j + 1],
                )->0) as u8,
        decreases 32 - i,
    {
        let high = match hex_nibble(bytes[i * 2]) {
            Ok(h) => h,
            Err(e) => {
                return Err(e);
            },
        };
        let low = match hex_nibble(bytes[i * 2 + 1]) {
            Ok(l) => l,
            Err(e) => {
                return Err(e);
            },
        };
        let byte = (high << 4) | low;
        assert(byte == (high * 16 + low) as u8) by (bit_vector)
            requires
                byte == (high << 4) | low,
                high < 16,
                low < 16,
        ;
        out[i] = byte;
        i += 1;
    }
    assert(out@ =~= hex_decode_spec(utf8_bytes(value@))->0);
    Ok(crate::types::Hash(out))
}

// ---------------------------------------------------------------------------
// Command digests
// ---------------------------------------------------------------------------

/// What the caller found at a command path.
pub enum CommandFile {
    /// The path's metadata could not be read; the I/O error's text.
    Unavailable(String),
    /// The path is not a regular file.
    NotRegularFile,
    /// The file could not be read; the I/O error's text.
    Unreadable(String),
    /// The file's contents.
    Contents(Vec<u8>),
}

/// ASCII lowercase of a character.
pub open spec fn ascii_lower(c: char) -> char {
    if 'A' <= c <= 'Z' {
        ((c as u32) + 32) as char
    } else {
        c
    }
}

/// ASCII lowercase of a text.
pub open spec fn ascii_lowercase(s: Seq<char>) -> Seq<char> {
    s.map_values(|c: char| ascii_lower(c))
}

/// ASCII lowercase of a string.
pub fn to_ascii_lowercase(s: &str) -> (r: String)
    ensures
        r@ == ascii_lowercase(s@),
{
    let cs = str_chars(s);
    let mut out: Vec<char> = Vec::new();
    let mut i: usize = 0;
    while i < cs.len()
        invariant
            i <= cs.len(),
            cs@ == s@,
            out@ == ascii_lowercase(s@.subrange(0, i as int)),
        decreases cs.len() - i,
    {
        let c = cs[i];
        let l = if c >= 'A' && c <= 'Z' {
            ((c as u32) + 32) as u8 as char
        } else {
            c
        };
        assert(l == ascii_lower(c)) by {
            if 'A' <= c <= 'Z' {
                assert((c as u32) + 32 < 256);
            }
        }
        out.push(l);
        i += 1;
        assert(out@ =~= ascii_lowercase(s@.subrange(0, i as int)));
    }
    assert(s@.subrange(0, cs.len() as int) =~= s@);
    string_from_chars(out.as_slice())
}

/// Lowercase hexadecimal SHA3-256 digest of bytes.
pub fn sha3_256_hex(bytes: &[u8]) -> (s: String)
    ensures
        s@ == hex_encode_spec(sha3_256_spec(bytes@)),
{
    let digest = sha3_256(bytes);
    hex_encode(digest.as_slice())
}

/// Error detail of a command digest check, if any.
pub open spec fn command_digest_error(
    label: Seq<char>,
    path: Seq<char>,
    expected_hex: Seq<char>,
    file: CommandFileModel,
) -> Option<Seq<char>> {
    match file {
        CommandFileModel::Unavailable(err) => Some(
            label + " command '"@ + path + "' is unavailable: "@ + err,
        ),
        CommandFileModel::NotRegularFile => Some(
            label + " command '"@ + path + "' is not a regular file"@,
        ),
        CommandFileModel::Unreadable(err) => Some(
            label + " command '"@ + path + "' cannot be read for digest pinning: "@ + err,
        ),
        CommandFileModel::Contents(b) => if hex_encode_spec(sha3_256_spec(b)) == ascii_lowercase(
            expected_hex,
        ) {
            None
        } else {
            Some(
                label + " command '"@ + path + "' digest mismatch: expected "@ + expected_hex
                    + ", got "@ + hex_encode_spec(sha3_256_spec(b)),
            )
        },
    }
}

/// Abstract value of what was found at a command path.
pub enum CommandFileModel {
    Unavailable(Seq<char>),
    NotRegularFile,
    Unreadable(Seq<char>),
    Contents(Seq<u8>),
}

impl View for CommandFile {
    type V = CommandFileModel;

    open spec fn view(&self) -> CommandFileModel {
        match self {
            CommandFile::Unavailable(e) => CommandFileModel::Unavailable(e@),
            CommandFile::NotRegularFile => CommandFileModel::NotRegularFile,
            CommandFile::Unreadable(e) => CommandFileModel::Unreadable(e@),
            CommandFile::Contents(b) => CommandFileModel::Contents(b@),
        }
    }
}

/// Checks that the command file exists, is a regular file, and has the
/// pinned SHA3-256 digest (compared case-insensitively).
pub fn validate_command_digest(label: &str, path: &str, expected_hex: &str, file: &CommandFile) -> (r:
    Result<(), CairoStarkError>)
    ensures
        r is Ok <==> command_digest_error(label@, path@, expected_hex@, file@) is None,
        r matches Err(e) ==> e@ == CairoStarkErrorModel::CommandFailed(
            command_digest_error(label@, path@, expected_hex@, file@)->0,
        ),
{
    let mut msg = concat3(label, " command '", path);
    match file {
        CommandFile::Unavailable(err) => {
            push_str(&mut msg, "' is unavailable: ");
            push_str(&mut msg, err.as_str());
            Err(CairoStarkError::CommandFailed(msg))
        },
        CommandFile::NotRegularFile => {
            push_str(&mut msg, "' is not a regular file");
            Err(CairoStarkError::CommandFailed(msg))
        },
        CommandFile::Unreadable(err) => {
            push_str(&mut msg, "' cannot be read for digest pinning: ");
            push_str(&mut msg, err.as_str());
            Err(CairoStarkError::CommandFailed(msg))
        },
        CommandFile::Contents(bytes) => {
            let actual = sha3_256_hex(bytes.as_slice());
            let expected = to_ascii_lowercase(expected_hex);
            if actual == expected {
                Ok(())
            } else {
                push_str(&mut msg, "' digest mismatch: expected ");
                push_str(&mut msg, expected_hex);
                push_str(&mut msg, ", got ");
                push_str(&mut msg, actual.as_str());
                Err(CairoStarkError::CommandFailed(msg))
            }
        },
    }
}

// ---------------------------------------------------------------------------
// Configuration
// ---------------------------------------------------------------------------

/// Fully pinned native Cairo/STARK adapter configuration.
#[derive(Clone, Debug, PartialEq, Eq)]
pub struct NativeCairoCommandConfig {
    pub kind: NativeCairoBackendKind,
    pub version: String,
    pub prover_command: String,
    pub prover_sha3_256: String,
    pub verifier_command: String,
    pub verifier_sha3_256: String,
}

/// Abstract value of a configuration.
pub struct NativeConfigModel {
    pub kind: NativeCairoBackendKind,
    pub version: Seq<char>,
    pub prover_command: Seq<char>,
    pub prover_sha3_256: Seq<char>,
    pub verifier_command: Seq<char>,
    pub verifier_sha3_256: Seq<char>,
}

impl View for NativeCairoCommandConfig {
    type V = NativeConfigModel;

    open spec fn view(&self) -> NativeConfigModel {
        NativeConfigModel {
            kind: self.kind,
            version: self.version@,
            prover_command: self.prover_command@,
            prover_sha3_256: self.prover_sha3_256@,
            verifier_command: self.verifier_command@,
            verifier_sha3_256: self.verifier_sha3_256@,
        }
    }
}

/// The configuration the environment gives, or the first missing variable.
pub open spec fn config_from_env_spec(
    kind: NativeCairoBackendKind,
    prefix: Seq<char>,
    env: Seq<(Seq<char>, Seq<char>)>,
) -> Result<NativeConfigModel, Seq<char>> {
    let version = env_lookup(env, env_key(prefix, "VERSION"@));
    let prover = env_lookup(env, env_key(prefix, "PROVER"@));
    let prover_sha = env_lookup(env, env_key(prefix, "PROVER_SHA3_256"@));
    let verifier = env_lookup(env, env_key(prefix, "VERIFIER"@));
    let verifier_sha = env_lookup(env, env_key(prefix, "VERIFIER_SHA3_256"@));
    if version is None {
        Err(env_key(prefix, "VERSION"@))
    } else if prover is None {
        Err(env_key(prefix, "PROVER"@))
    } else if prover_sha is None {
        Err(env_key(prefix, "PROVER_SHA3_256"@))
    } else if verifier is None {
        Err(env_key(prefix, "VERIFIER"@))
    } else if verifier_sha is None {
        Err(env_key(prefix, "VERIFIER_SHA3_256"@))
    } else {
        Ok(
            NativeConfigModel {
                kind,
                version: version->0,
                prover_command: prover->0,
                prover_sha3_256: prover_sha->0,
                verifier_command: verifier->0,
                verifier_sha3_256: verifier_sha->0,
            },
        )
    }
}

/// The first reason a configuration is invalid, as error detail.
pub open spec fn config_error(
    c: NativeConfigModel,
    prover_file: CommandFileModel,
    verifier_file: CommandFileModel,
) -> Option<Seq<char>> {
    if id_component_error("version"@, c.version) is Some {
        id_component_error("version"@, c.version)
    } else if !valid_sha3_hex(c.prover_sha3_256) {
        Some("prover_sha3_256"@ + " must be a 64-character SHA3-256 hex digest"@)
    } else if !valid_sha3_hex(c.verifier_sha3_256) {
        Some("verifier_sha3_256"@ + " must be a 64-character SHA3-256 hex digest"@)
    } else if command_digest_error("prover"@, c.prover_command, c.prover_sha3_256, prover_file)
        is Some {
        command_digest_error("prover"@, c.prover_command, c.prover_sha3_256, prover_file)
    } else {
        command_digest_error("verifier"@, c.verifier_command, c.verifier_sha3_256, verifier_file)
    }
}

/// The adapter id of a valid configuration.
pub open spec fn adapter_id_spec(c: NativeConfigModel) -> Seq<char> {
    adapter_name_spec(c.kind) + "-"@ + c.version + "-prover-"@ + ascii_lowercase(c.prover_sha3_256)
        + "-verifier-"@ + ascii_lowercase(c.verifier_sha3_256)
}

impl NativeCairoCommandConfig {
    /// The Stone configuration from the environment.
    pub fn stone_from_env(env: &[(String, String)]) -> (r: Result<NativeCairoCommandConfig, CairoStarkError>)
        ensures
            r is Ok <==> config_from_env_spec(
                NativeCairoBackendKind::Stone,
                "VSEL_STONE_CAIRO"@,
                env_view(env@),
            ) is Ok,
            r matches Ok(c) ==> Ok::<NativeConfigModel, Seq<char>>(c@) == config_from_env_spec(
                NativeCairoBackendKind::Stone,
                "VSEL_STONE_CAIRO"@,
                env_view(env@),
            ),
            r matches Err(e) ==> e@ == CairoStarkErrorModel::CommandFailed(
                missing_env_message(
                    config_from_env_spec(
                        NativeCairoBackendKind::Stone,
                        "VSEL_STONE_CAIRO"@,
                        env_view(env@),
                    )->Err_0,
                ),
            ),
    {
        NativeCairoCommandConfig::from_env(NativeCairoBackendKind::Stone, env)
    }

    /// The Stwo configuration from the environment.
    pub fn stwo_from_env(env: &[(String, String)]) -> (r: Result<NativeCairoCommandConfig, CairoStarkError>)
        ensures
            r is Ok <==> config_from_env_spec(
                NativeCairoBackendKind::Stwo,
                "VSEL_STWO_CAIRO"@,
                env_view(env@),
            ) is Ok,
            r matches Ok(c) ==> Ok::<NativeConfigModel, Seq<char>>(c@) == config_from_env_spec(
                NativeCairoBackendKind::Stwo,
                "VSEL_STWO_CAIRO"@,
                env_view(env@),
            ),
            r matches Err(e) ==> e@ == CairoStarkErrorModel::CommandFailed(
                missing_env_message(
                    config_from_env_spec(
                        NativeCairoBackendKind::Stwo,
                        "VSEL_STWO_CAIRO"@,
                        env_view(env@),
                    )->Err_0,
                ),
            ),
    {
        NativeCairoCommandConfig::from_env(NativeCairoBackendKind::Stwo, env)
    }

    /// A pinned configuration from the variables `<PREFIX>_VERSION`,
    /// `<PREFIX>_PROVER`, `<PREFIX>_PROVER_SHA3_256`, `<PREFIX>_VERIFIER` and
    /// `<PREFIX>_VERIFIER_SHA3_256` of the family.
    pub fn from_env(kind: NativeCairoBackendKind, env: &[(String, String)]) -> (r: Result<
        NativeCairoCommandConfig,
        CairoStarkError,
    >)
        ensures
            r is Ok <==> config_from_env_spec(kind, env_prefix_spec(kind), env_view(env@)) is Ok,
            r matches Ok(c) ==> Ok::<NativeConfigModel, Seq<char>>(c@) == config_from_env_spec(
                kind,
                env_prefix_spec(kind),
                env_view(env@),
            ),
            r matches Err(e) ==> e@ == CairoStarkErrorModel::CommandFailed(
                missing_env_message(
                    config_from_env_spec(kind, env_prefix_spec(kind), env_view(env@))->Err_0,
                ),
            ),
    {
        let prefix = kind.env_prefix();
        NativeCairoCommandConfig::from_env_prefix(kind, prefix, env)
    }

    fn from_env_prefix(kind: NativeCairoBackendKind, prefix: &str, env: &[(String, String)]) -> (r:
        Result<NativeCairoCommandConfig, CairoStarkError>)
        ensures
            r is Ok <==> config_from_env_spec(kind, prefix@, env_view(env@)) is Ok,
            r matches Ok(c) ==> Ok::<NativeConfigModel, Seq<char>>(c@) == config_from_env_spec(kind, prefix@, env_view(env@)),
            r matches Err(e) ==> e@ == CairoStarkErrorModel::CommandFailed(
                missing_env_message(config_from_env_spec(kind, prefix@, env_view(env@))->Err_0),
            ),
    {
        let version = match read_env(prefix, "VERSION", env) { Ok(v) => v, Err(e) => { return Err(e); } };
        let prover_command = match read_env(prefix, "PROVER", env) { Ok(v) => v, Err(e) => { return Err(e); } };
        let prover_sha3_256 = match read_env(prefix, "PROVER_SHA3_256", env) { Ok(v) => v, Err(e) => { return Err(e); } };
        let verifier_command = match read_env(prefix, "VERIFIER", env) { Ok(v) => v, Err(e) => { return Err(e); } };
        let verifier_sha3_256 = match read_env(prefix, "VERIFIER_SHA3_256", env) { Ok(v) => v, Err(e) => { return Err(e); } };
        Ok(NativeCairoCommandConfig {
            kind,
            version,
            prover_command,
            prover_sha3_256,
            verifier_command,
            verifier_sha3_256,
        })
    }

    /// Validates the version syntax, the digest syntax, and that each
    /// command file exists, is a regular file and has its pinned digest.
    pub fn validate(&self, prover_file: &CommandFile, verifier_file: &CommandFile) -> (r: Result<
        (),
        CairoStarkError,
    >)
        ensures
            r is Ok <==> config_error(self@, prover_file@, verifier_file@) is None,
            r matches Err(e) ==> e@ == CairoStarkErrorModel::CommandFailed(
                config_error(self@, prover_file@, verifier_file@)->0,
            ),
    {
        match validate_id_component("version", self.version.as_str()) { Ok(()) => {}, Err(e) => { return Err(e); } }
        match validate_sha3_256_hex("prover_sha3_256", self.prover_sha3_256.as_str()) { Ok(()) => {}, Err(e) => { return Err(e); } }
        match validate_sha3_256_hex("verifier_sha3_256", self.verifier_sha3_256.as_str()) { Ok(()) => {}, Err(e) => { return Err(e); } }
        match validate_command_digest("prover", self.prover_command.as_str(), self.prover_sha3_256.as_str(), prover_file) { Ok(()) => {}, Err(e) => { return Err(e); } }
        validate_command_digest("verifier", self.verifier_command.as_str(), self.verifier_sha3_256.as_str(), verifier_file)
    }

    /// The adapter id `<family>-<version>-prover-<digest>-verifier-<digest>`
    /// of a valid configuration, digests in lowercase.
    pub fn adapter_id(&self, prover_file: &CommandFile, verifier_file: &CommandFile) -> (r: Result<
        String,
        CairoStarkError,
    >)
        ensures
            r is Ok <==> config_error(self@, prover_file@, verifier_file@) is None,
            r matches Ok(id) ==> id@ == adapter_id_spec(self@),
            r matches Err(e) ==> e@ == CairoStarkErrorModel::CommandFailed(
                config_error(self@, prover_file@, verifier_file@)->0,
            ),
    {
        match self.validate(prover_file, verifier_file) { Ok(()) => {}, Err(e) => { return Err(e); } }
        let mut id = concat3(self.kind.adapter_name(), "-", self.version.as_str());
        push_str(&mut id, "-prover-");
        let p = to_ascii_lowercase(self.prover_sha3_256.as_str());
        push_str(&mut id, p.as_str());
        push_str(&mut id, "-verifier-");
        let v = to_ascii_lowercase(self.verifier_sha3_256.as_str());
        push_str(&mut id, v.as_str());
        Ok(id)
    }

    /// The pinned adapter of a valid configuration.
    pub fn into_adapter(self, prover_file: &CommandFile, verifier_file: &CommandFile) -> (r: Result<
        PinnedNativeCairoAdapter,
        CairoStarkError,
    >)
        ensures
            r is Ok <==> config_error(self@, prover_file@, verifier_file@) is None,
            r matches Ok(a) ==> a@.adapter_id == adapter_id_spec(self@) && a@.verifier_version
                == self@.version && Some(a@.verifier_binary_hash) == hex_decode_spec(
                utf8_bytes(self@.verifier_sha3_256),
            ),
            r matches Err(e) ==> e@ == CairoStarkErrorModel::CommandFailed(
                config_error(self@, prover_file@, verifier_file@)->0,
            ),
    {
        let adapter_id = match self.adapter_id(prover_file, verifier_file) { Ok(v) => v, Err(e) => { return Err(e); } };
        let verifier_binary_hash = match sha3_256_hash_from_hex(self.verifier_sha3_256.as_str()) { Ok(v) => v, Err(e) => { return Err(e); } };
        let command_adapter = CommandCairoAdapter::new(
            adapter_id.clone(),
            Some(self.prover_command),
            self.verifier_command,
        );
        Ok(PinnedNativeCairoAdapter::new(adapter_id, self.version, verifier_binary_hash, command_adapter))
    }
}

// ---------------------------------------------------------------------------
// Pinned adapter
// ---------------------------------------------------------------------------

/// A command adapter whose every certificate must carry the pinned adapter
/// id, verifier version and verifier binary digest.
pub struct PinnedNativeCairoAdapter {
    adapter_id: String,
    verifier_version: String,
    verifier_binary_hash: crate::types::Hash,
    inner: CommandCairoAdapter,
}

/// Abstract value of a pinned adapter: its pins and the command adapter
/// it runs.
pub struct PinsModel {
    pub adapter_id: Seq<char>,
    pub verifier_version: Seq<char>,
    pub verifier_binary_hash: Seq<u8>,
    pub inner: crate::cairo_stark::CommandAdapterModel,
}

impl View for PinnedNativeCairoAdapter {
    type V = PinsModel;

    closed spec fn view(&self) -> PinsModel {
        PinsModel {
            adapter_id: self.adapter_id@,
            verifier_version: self.verifier_version@,
            verifier_binary_hash: self.verifier_binary_hash@,
            inner: self.inner@,
        }
    }
}

/// The first pin a certificate breaks, as error detail.
pub open spec fn pin_error(p: PinsModel, c: CertificateModel) -> Option<Seq<char>> {
    if c.adapter_id != p.adapter_id {
        Some(
            "native Cairo certificate adapter mismatch: expected "@ + p.adapter_id + ", got "@
                + c.adapter_id,
        )
    } else if c.verifier_version != p.verifier_version {
        Some(
            "native Cairo certificate verifier version mismatch: expected "@ + p.verifier_version
                + ", got "@ + c.verifier_version,
        )
    } else if c.verifier_binary_hash != p.verifier_binary_hash {
        Some("native Cairo certificate verifier binary hash mismatch"@)
    } else {
        None
    }
}

impl PinnedNativeCairoAdapter {
    pub fn new(
        adapter_id: String,
        verifier_version: String,
        verifier_binary_hash: crate::types::Hash,
        inner: CommandCairoAdapter,
    ) -> (a: PinnedNativeCairoAdapter)
        ensures
            a@ == (PinsModel {
                adapter_id: adapter_id@,
                verifier_version: verifier_version@,
                verifier_binary_hash: verifier_binary_hash@,
                inner: inner@,
            }),
    {
        PinnedNativeCairoAdapter { adapter_id, verifier_version, verifier_binary_hash, inner }
    }

    /// The pinned adapter id.
    pub fn adapter_id(&self) -> (s: &str)
        ensures
            s@ == self@.adapter_id,
    {
        self.adapter_id.as_str()
    }

    /// The command adapter that runs the native commands.
    pub fn inner(&self) -> (c: &CommandCairoAdapter)
        ensures
            c@ == self@.inner,
    {
        &self.inner
    }

    /// Rejects a certificate that breaks a pin.
    pub fn validate_certificate(&self, certificate: &CairoVerifierCertificate) -> (r: Result<
        (),
        CairoStarkError,
    >)
        ensures
            r is Ok <==> pin_error(self@, certificate@) is None,
            r matches Err(e) ==> e@ == CairoStarkErrorModel::VerificationFailed(
                pin_error(self@, certificate@)->0,
            ),
    {
        if certificate.adapter_id != self.adapter_id {
            let mut msg = concat3(
                "native Cairo certificate adapter mismatch: expected ",
                self.adapter_id.as_str(),
                ", got ",
            );
            push_str(&mut msg, certificate.adapter_id.as_str());
            return Err(CairoStarkError::VerificationFailed(msg));
        }
        if certificate.verifier_version != self.verifier_version {
            let mut msg = concat3(
                "native Cairo certificate verifier version mismatch: expected ",
                self.verifier_version.as_str(),
                ", got ",
            );
            push_str(&mut msg, certificate.verifier_version.as_str());
            return Err(CairoStarkError::VerificationFailed(msg));
        }
        if !certificate.verifier_binary_hash.eq_hash(&self.verifier_binary_hash) {
            return Err(
                CairoStarkError::VerificationFailed(
                    owned("native Cairo certificate verifier binary hash mismatch"),
                ),
            );
        }
        Ok(())
    }
}

} // verus!
