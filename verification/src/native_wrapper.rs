//! The native Cairo wrapper's text protocol: requests, native verifier
//! attestations, Cairo source manifests and semantic binding reports.

use vstd::prelude::*;

use crate::encoding::hex_decode_spec;
use crate::text::{decimal, decimal_spec, lines_spec, owned, push_str, split_lines, string_from_chars, utf8_bytes};
use crate::words::{
    contains_char, contains_double, ends_with, has_double, split_once_chars, split_once_spec,
    split_words, starts_with, trim, trim_chars, words,
};

verus! {

// ---------------------------------------------------------------------------
// Hash fields
// ---------------------------------------------------------------------------

/// The 32 bytes a hexadecimal hash field denotes, or the reason it does
/// not denote any.
pub open spec fn parse_hash_hex_spec(value: Seq<char>) -> Result<Seq<u8>, Seq<char>> {
    let b = utf8_bytes(value);
    if b.len() % 2 != 0 {
        Err("hex string has odd length"@)
    } else {
        match hex_decode_spec(b) {
            None => Err("invalid hex character"@),
            Some(raw) => if raw.len() != 32 {
                Err("hash hex must decode to exactly 32 bytes, got "@ + decimal_spec(raw.len()))
            } else {
                Ok(raw)
            },
        }
    }
}

/// Parses a hexadecimal hash field.
pub fn parse_hash_hex(value: &str) -> (r: Result<crate::types::Hash, String>)
    ensures
        r is Ok <==> parse_hash_hex_spec(value@) is Ok,
        r matches Ok(h) ==> parse_hash_hex_spec(value@) == Ok::<Seq<u8>, Seq<char>>(h@),
        r matches Err(e) ==> parse_hash_hex_spec(value@) == Err::<Seq<u8>, Seq<char>>(e@),
{
    let bytes = value.as_bytes();
    if bytes.len() % 2 != 0 {
        return Err(owned("hex string has odd length"));
    }
    let raw = match crate::encoding::hex_decode_bytes(bytes) {
        Some(v) => v,
        None => {
            return Err(owned("invalid hex character"));
        },
    };
    if raw.len() != 32 {
        let mut m = owned("hash hex must decode to exactly 32 bytes, got ");
        push_str(&mut m, decimal(raw.len() as u64).as_str());
        return Err(m);
    }
    let mut out = [0u8; 32];
    let mut i: usize = 0;
    while i < 32
        invariant
            i <= 32,
            raw@.len() == 32,
            forall|k: int| 0 <= k < i ==> out@[k] == raw@[k],
        decreases 32 - i,
    {
        out[i] = raw[i];
        i += 1;
    }
    assert(out@ =~= raw@);
    Ok(crate::types::Hash(out))
}

/// Parses a hexadecimal hash field given as characters.
pub fn parse_hash_chars(value: &[char]) -> (r: Result<crate::types::Hash, String>)
    ensures
        r is Ok <==> parse_hash_hex_spec(value@) is Ok,
        r matches Ok(h) ==> parse_hash_hex_spec(value@) == Ok::<Seq<u8>, Seq<char>>(h@),
        r matches Err(e) ==> parse_hash_hex_spec(value@) == Err::<Seq<u8>, Seq<char>>(e@),
{
    let s = string_from_chars(value);
    parse_hash_hex(s.as_str())
}

// ---------------------------------------------------------------------------
// Key/value blocks
// ---------------------------------------------------------------------------

/// Why a block of `key=value` lines is refused.
pub enum ScanFailure {
    /// Line `i` (trimmed) has no `=`.
    Malformed(nat, Seq<char>),
    /// Line `i` (trimmed) has an empty key or value.
    EmptyPart(nat, Seq<char>),
    /// The key occurs twice.
    Duplicate(Seq<char>),
    /// The block has no `END` line.
    MissingEnd,
}

/// The value of `key` in a list of fields, if present.
pub open spec fn lookup(fields: Seq<(Seq<char>, Seq<char>)>, key: Seq<char>) -> Option<Seq<char>>
    decreases fields.len(),
{
    if fields.len() == 0 {
        None
    } else if fields.last().0 == key {
        Some(fields.last().1)
    } else {
        lookup(fields.drop_last(), key)
    }
}

/// Reads `key=value` lines from line `i` on: trimmed, blank lines skipped;
/// when `until_end`, a line `END` closes the block and is required.
pub open spec fn scan_fields(
    lines: Seq<Seq<char>>,
    i: int,
    until_end: bool,
    acc: Seq<(Seq<char>, Seq<char>)>,
) -> Result<Seq<(Seq<char>, Seq<char>)>, ScanFailure>
    decreases lines.len() - i,
{
    if i < 0 || i >= lines.len() {
        if until_end {
            Err(ScanFailure::MissingEnd)
        } else {
            Ok(acc)
        }
    } else {
        let line = trim(lines[i]);
        if line.len() == 0 {
            scan_fields(lines, i + 1, until_end, acc)
        } else if until_end && line == "END"@ {
            Ok(acc)
        } else {
            match split_once_spec(line, '=') {
                None => Err(ScanFailure::Malformed(i as nat, line)),
                Some(kv) => if kv.0.len() == 0 || kv.1.len() == 0 {
                    Err(ScanFailure::EmptyPart(i as nat, line))
                } else if lookup(acc, kv.0) is Some {
                    Err(ScanFailure::Duplicate(kv.0))
                } else {
                    scan_fields(lines, i + 1, until_end, acc.push(kv))
                },
            }
        }
    }
}

/// The line a scan failure names lies below `n`.
pub open spec fn scan_index_below(f: ScanFailure, n: nat) -> bool {
    match f {
        ScanFailure::Malformed(i, _) => i < n,
        ScanFailure::EmptyPart(i, _) => i < n,
        _ => true,
    }
}

/// Exec counterpart of `ScanFailure`.
pub enum ScanError {
    Malformed(usize, Vec<char>),
    EmptyPart(usize, Vec<char>),
    Duplicate(Vec<char>),
    MissingEnd,
}

impl View for ScanError {
    type V = ScanFailure;

    open spec fn view(&self) -> ScanFailure {
        match self {
            ScanError::Malformed(i, l) => ScanFailure::Malformed(*i as nat, l@),
            ScanError::EmptyPart(i, l) => ScanFailure::EmptyPart(*i as nat, l@),
            ScanError::Duplicate(k) => ScanFailure::Duplicate(k@),
            ScanError::MissingEnd => ScanFailure::MissingEnd,
        }
    }
}

/// Abstract value of a list of fields.
pub open spec fn fields_view(f: Seq<(Vec<char>, Vec<char>)>) -> Seq<(Seq<char>, Seq<char>)> {
    f.map_values(|p: (Vec<char>, Vec<char>)| (p.0@, p.1@))
}

/// Abstract value of a list of lines.
pub open spec fn lines_view(l: Seq<Vec<char>>) -> Seq<Seq<char>> {
    l.map_values(|v: Vec<char>| v@)
}

fn chars_eq_str(a: &[char], b: &str) -> (eq: bool)
    ensures
        eq == (a@ == b@),
{
    let bc = crate::text::str_chars(b);
    crate::text::chars_equal(a, bc.as_slice())
}

/// The value of `key` among the fields.
pub fn lookup_exec(fields: &Vec<(Vec<char>, Vec<char>)>, key: &[char]) -> (r: Option<Vec<char>>)
    ensures
        r is Some <==> lookup(fields_view(fields@), key@) is Some,
        r matches Some(v) ==> v@ == lookup(fields_view(fields@), key@)->0,
{
    let ghost fv = fields_view(fields@);
    let mut i: usize = fields.len();
    assert(fv.subrange(0, fv.len() as int) =~= fv);
    while i > 0
        invariant
            i <= fields@.len(),
            fv == fields_view(fields@),
            lookup(fv, key@) == lookup(fv.subrange(0, i as int), key@),
        decreases i,
    {
        let ghost s = fv.subrange(0, i as int);
        assert(s.drop_last() =~= fv.subrange(0, i - 1));
        if crate::text::chars_equal(fields[i - 1].0.as_slice(), key) {
            let mut v: Vec<char> = Vec::new();
            let val = &fields[i - 1].1;
            let mut k: usize = 0;
            while k < val.len()
                invariant
                    k <= val@.len(),
                    v@ == val@.subrange(0, k as int),
                decreases val.len() - k,
            {
                v.push(val[k]);
                k += 1;
                assert(v@ =~= val@.subrange(0, k as int));
            }
            assert(v@ =~= val@);
            return Some(v);
        }
        i -= 1;
    }
    None
}

/// Reads a block of `key=value` lines from line `start` on.
pub fn scan_fields_exec(lines: &Vec<Vec<char>>, start: usize, until_end: bool) -> (r: Result<
    Vec<(Vec<char>, Vec<char>)>,
    ScanError,
>)
    ensures
        r is Ok <==> scan_fields(lines_view(lines@), start as int, until_end, Seq::empty()) is Ok,
        r matches Ok(f) ==> scan_fields(lines_view(lines@), start as int, until_end, Seq::empty())
            == Ok::<Seq<(Seq<char>, Seq<char>)>, ScanFailure>(fields_view(f@)),
        r matches Err(e) ==> scan_fields(lines_view(lines@), start as int, until_end, Seq::empty())
            == Err::<Seq<(Seq<char>, Seq<char>)>, ScanFailure>(e@),
        r matches Err(e) ==> scan_index_below(e@, lines@.len()),
{
    let ghost lv = lines_view(lines@);
    let mut acc: Vec<(Vec<char>, Vec<char>)> = Vec::new();
    let mut i: usize = start;
    assert(fields_view(acc@) =~= Seq::<(Seq<char>, Seq<char>)>::empty());
    while i < lines.len()
        invariant
            start <= i,
            lv == lines_view(lines@),
            scan_fields(lv, start as int, until_end, Seq::empty()) == scan_fields(
                lv,
                i as int,
                until_end,
                fields_view(acc@),
            ),
        decreases lines.len() - i,
    {
        let line = trim_chars(lines[i].as_slice());
        assert(line@ == trim(lv[i as int]));
        if line.len() == 0 {
            i += 1;
            continue;
        }
        if until_end && chars_eq_str(line.as_slice(), "END") {
            return Ok(acc);
        }
        match split_once_chars(line.as_slice(), '=') {
            None => {
                return Err(ScanError::Malformed(i, line));
            },
            Some(kv) => {
                if kv.0.len() == 0 || kv.1.len() == 0 {
                    return Err(ScanError::EmptyPart(i, line));
                }
                match lookup_exec(&acc, kv.0.as_slice()) {
                    Some(_) => {
                        return Err(ScanError::Duplicate(kv.0));
                    },
                    None => {},
                }
                let ghost before = fields_view(acc@);
                acc.push(kv);
                assert(fields_view(acc@) =~= before.push((acc@.last().0@, acc@.last().1@)));
                i += 1;
            },
        }
    }
    if until_end {
        Err(ScanError::MissingEnd)
    } else {
        Ok(acc)
    }
}

fn prefixed_message(prefix: &str, body: &[char]) -> (s: String)
    ensures
        s@ == prefix@ + body@,
{
    let mut s = owned(prefix);
    let b = string_from_chars(body);
    push_str(&mut s, b.as_str());
    s
}

fn quoted_message(prefix: &str, body: &[char], suffix: &str) -> (s: String)
    ensures
        s@ == prefix@ + body@ + suffix@,
{
    let mut s = owned(prefix);
    let b = string_from_chars(body);
    push_str(&mut s, b.as_str());
    push_str(&mut s, suffix);
    s
}

// ---------------------------------------------------------------------------
// Requests
// ---------------------------------------------------------------------------

/// A request to the wrapper: its header line and its fields.
pub struct Request {
    pub header: Vec<char>,
    pub fields: Vec<(Vec<char>, Vec<char>)>,
}

/// Text of a request field scan failure.
pub open spec fn request_scan_text(f: ScanFailure) -> Seq<char> {
    match f {
        ScanFailure::Malformed(_, l) => "malformed request line '"@ + l + "'"@,
        ScanFailure::EmptyPart(_, l) => "malformed empty key/value in line '"@ + l + "'"@,
        ScanFailure::Duplicate(k) => "duplicate request field "@ + k,
        ScanFailure::MissingEnd => "request missing END marker"@,
    }
}

/// What a request text parses to: the trimmed header line and the fields
/// up to the `END` line, or the reason it is refused.
pub open spec fn request_parse_spec(text: Seq<char>) -> Result<
    (Seq<char>, Seq<(Seq<char>, Seq<char>)>),
    Seq<char>,
> {
    let ls = lines_spec(text);
    if ls.len() == 0 {
        Err("empty VSEL Cairo request"@)
    } else if trim(ls[0]).len() == 0 {
        Err("empty VSEL Cairo request header"@)
    } else {
        match scan_fields(ls, 1, true, Seq::empty()) {
            Ok(f) => Ok((trim(ls[0]), f)),
            Err(e) => Err(request_scan_text(e)),
        }
    }
}

impl Request {
    /// Parses a request text.
    pub fn parse(text: &str) -> (r: Result<Request, String>)
        ensures
            r is Ok <==> request_parse_spec(text@) is Ok,
            r matches Ok(q) ==> request_parse_spec(text@) == Ok::<
                (Seq<char>, Seq<(Seq<char>, Seq<char>)>),
                Seq<char>,
            >((q.header@, fields_view(q.fields@))),
            r matches Err(e) ==> request_parse_spec(text@) == Err::<
                (Seq<char>, Seq<(Seq<char>, Seq<char>)>),
                Seq<char>,
            >(e@),
    {
        let lines = split_lines(text);
        assert(lines_view(lines@) == lines_spec(text@));
        if lines.len() == 0 {
            return Err(owned("empty VSEL Cairo request"));
        }
        let header = trim_chars(lines[0].as_slice());
        if header.len() == 0 {
            return Err(owned("empty VSEL Cairo request header"));
        }
        match scan_fields_exec(&lines, 1, true) {
            Ok(fields) => Ok(Request { header, fields }),
            Err(e) => Err(request_scan_message(&e)),
        }
    }

    /// The value of a required field.
    pub fn required(&self, key: &str) -> (r: Result<Vec<char>, String>)
        ensures
            r is Ok <==> lookup(fields_view(self.fields@), key@) is Some,
            r matches Ok(v) ==> v@ == lookup(fields_view(self.fields@), key@)->0,
            r matches Err(e) ==> e@ == "missing request field "@ + key@,
    {
        let k = crate::text::str_chars(key);
        match lookup_exec(&self.fields, k.as_slice()) {
            Some(v) => Ok(v),
            None => {
                let mut m = owned("missing request field ");
                push_str(&mut m, key);
                Err(m)
            },
        }
    }
}

fn request_scan_message(e: &ScanError) -> (m: String)
    ensures
        m@ == request_scan_text(e@),
{
    match e {
        ScanError::Malformed(_, l) => quoted_message("malformed request line '", l.as_slice(), "'"),
        ScanError::EmptyPart(_, l) => quoted_message(
            "malformed empty key/value in line '",
            l.as_slice(),
            "'",
        ),
        ScanError::Duplicate(k) => prefixed_message("duplicate request field ", k.as_slice()),
        ScanError::MissingEnd => owned("request missing END marker"),
    }
}

// ---------------------------------------------------------------------------
// Native verifier attestations
// ---------------------------------------------------------------------------

/// The first line from `i` on that, trimmed, is `header`.
pub open spec fn find_header(lines: Seq<Seq<char>>, i: int, header: Seq<char>) -> Option<int>
    decreases lines.len() - i,
{
    if i < 0 || i >= lines.len() {
        None
    } else if trim(lines[i]) == header {
        Some(i)
    } else {
        find_header(lines, i + 1, header)
    }
}

/// Text of an attestation field scan failure.
pub open spec fn attestation_scan_text(f: ScanFailure) -> Seq<char> {
    match f {
        ScanFailure::Malformed(_, l) => "malformed native context attestation line '"@ + l + "'"@,
        ScanFailure::EmptyPart(_, l) => "empty key/value in native context attestation line '"@ + l
            + "'"@,
        ScanFailure::Duplicate(k) => "duplicate native context attestation field "@ + k,
        ScanFailure::MissingEnd => "native verifier context attestation missing END marker"@,
    }
}

/// What a native verifier's output attests: the fields between the
/// attestation header line and `END`, or the reason it attests nothing.
pub open spec fn attestation_spec(stdout: Seq<char>) -> Result<Seq<(Seq<char>, Seq<char>)>, Seq<char>> {
    let ls = lines_spec(stdout);
    match find_header(ls, 0, "VSEL_CAIRO_NATIVE_CONTEXT_ATTESTATION_V1"@) {
        None => Err("native verifier output missing VSEL_CAIRO_NATIVE_CONTEXT_ATTESTATION_V1"@),
        Some(h) => match scan_fields(ls, h + 1, true, Seq::empty()) {
            Ok(f) => Ok(f),
            Err(e) => Err(attestation_scan_text(e)),
        },
    }
}

fn attestation_scan_message(e: &ScanError) -> (m: String)
    ensures
        m@ == attestation_scan_text(e@),
{
    match e {
        ScanError::Malformed(_, l) => quoted_message(
            "malformed native context attestation line '",
            l.as_slice(),
            "'",
        ),
        ScanError::EmptyPart(_, l) => quoted_message(
            "empty key/value in native context attestation line '",
            l.as_slice(),
            "'",
        ),
        ScanError::Duplicate(k) => prefixed_message(
            "duplicate native context attestation field ",
            k.as_slice(),
        ),
        ScanError::MissingEnd => owned("native verifier context attestation missing END marker"),
    }
}

/// Parses the context attestation in a native verifier's output.
pub fn parse_native_attestation(stdout: &str) -> (r: Result<Vec<(Vec<char>, Vec<char>)>, String>)
    ensures
        r is Ok <==> attestation_spec(stdout@) is Ok,
        r matches Ok(f) ==> attestation_spec(stdout@) == Ok::<
            Seq<(Seq<char>, Seq<char>)>,
            Seq<char>,
        >(fields_view(f@)),
        r matches Err(e) ==> attestation_spec(stdout@) == Err::<
            Seq<(Seq<char>, Seq<char>)>,
            Seq<char>,
        >(e@),
{
    let lines = split_lines(stdout);
    let ghost lv = lines_view(lines@);
    assert(lv == lines_spec(stdout@));
    let mut i: usize = 0;
    while i < lines.len()
        invariant
            lv == lines_view(lines@),
            lv == lines_spec(stdout@),
            find_header(lv, 0, "VSEL_CAIRO_NATIVE_CONTEXT_ATTESTATION_V1"@) == find_header(
                lv,
                i as int,
                "VSEL_CAIRO_NATIVE_CONTEXT_ATTESTATION_V1"@,
            ),
        decreases lines.len() - i,
    {
        let line = trim_chars(lines[i].as_slice());
        assert(lv[i as int] == lines@[i as int]@);
        if chars_eq_str(line.as_slice(), "VSEL_CAIRO_NATIVE_CONTEXT_ATTESTATION_V1") {
            return match scan_fields_exec(&lines, i + 1, true) {
                Ok(f) => Ok(f),
                Err(e) => Err(attestation_scan_message(&e)),
            };
        }
        i += 1;
    }
    Err(owned("native verifier output missing VSEL_CAIRO_NATIVE_CONTEXT_ATTESTATION_V1"))
}

/// Checks that an attested field holds the expected text.
/// Why an attested field does not hold the expected text, if it does not.
pub open spec fn attested_value_error(
    fields: Seq<(Seq<char>, Seq<char>)>,
    key: Seq<char>,
    expected: Seq<char>,
) -> Option<Seq<char>> {
    match lookup(fields, key) {
        None => Some("native context attestation missing field "@ + key),
        Some(v) => if v != expected {
            Some("native context attestation "@ + key + " mismatch: expected "@ + expected + ", got "@ + v)
        } else {
            None
        },
    }
}

/// Why an attested field does not hold the expected hash, if it does not.
pub open spec fn attested_hash_error(
    fields: Seq<(Seq<char>, Seq<char>)>,
    key: Seq<char>,
    expected: Seq<u8>,
) -> Option<Seq<char>> {
    match lookup(fields, key) {
        None => Some("native context attestation missing field "@ + key),
        Some(v) => match parse_hash_hex_spec(v) {
            Err(m) => Some(m),
            Ok(h) => if h != expected {
                Some(
                    "native context attestation "@ + key + " mismatch: expected "@
                        + crate::encoding::hex_encode_spec(expected) + ", got "@
                        + crate::encoding::hex_encode_spec(h),
                )
            } else {
                None
            },
        },
    }
}

/// Checks that an attested field holds the expected text.
pub fn require_attested_value(
    fields: &Vec<(Vec<char>, Vec<char>)>,
    key: &str,
    expected: &str,
) -> (r: Result<(), String>)
    ensures
        r is Ok <==> attested_value_error(fields_view(fields@), key@, expected@) is None,
        r matches Err(e) ==> Some(e@) == attested_value_error(fields_view(fields@), key@, expected@),
{
    let k = crate::text::str_chars(key);
    match lookup_exec(fields, k.as_slice()) {
        None => {
            let mut m = owned("native context attestation missing field ");
            push_str(&mut m, key);
            Err(m)
        },
        Some(v) => {
            if chars_eq_str(v.as_slice(), expected) {
                Ok(())
            } else {
                let mut m = owned("native context attestation ");
                push_str(&mut m, key);
                push_str(&mut m, " mismatch: expected ");
                push_str(&mut m, expected);
                push_str(&mut m, ", got ");
                push_str(&mut m, string_from_chars(v.as_slice()).as_str());
                Err(m)
            }
        },
    }
}

/// Checks that an attested field holds the expected hash.
pub fn require_attested_hash(
    fields: &Vec<(Vec<char>, Vec<char>)>,
    key: &str,
    expected: &crate::types::Hash,
) -> (r: Result<(), String>)
    ensures
        r is Ok <==> attested_hash_error(fields_view(fields@), key@, expected@) is None,
        r matches Err(e) ==> Some(e@) == attested_hash_error(fields_view(fields@), key@, expected@),
{
    let k = crate::text::str_chars(key);
    match lookup_exec(fields, k.as_slice()) {
        None => {
            let mut m = owned("native context attestation missing field ");
            push_str(&mut m, key);
            Err(m)
        },
        Some(v) => {
            let actual = match parse_hash_chars(v.as_slice()) {
                Ok(h) => h,
                Err(e) => {
                    return Err(e);
                },
            };
            if actual.eq_hash(expected) {
                Ok(())
            } else {
                let mut m = owned("native context attestation ");
                push_str(&mut m, key);
                push_str(&mut m, " mismatch: expected ");
                push_str(&mut m, crate::encoding::hex_encode(expected.0.as_slice()).as_str());
                push_str(&mut m, ", got ");
                push_str(&mut m, crate::encoding::hex_encode(actual.0.as_slice()).as_str());
                Err(m)
            }
        },
    }
}


// ---------------------------------------------------------------------------
// Cairo source manifests
// ---------------------------------------------------------------------------

/// A character a manifest path may hold: ASCII letters and digits, `/`,
/// `.`, `_` and `-`.
pub open spec fn path_char_ok(c: char) -> bool {
    ||| ('a' <= c && c <= 'z')
    ||| ('A' <= c && c <= 'Z')
    ||| ('0' <= c && c <= '9')
    ||| c == '/'
    ||| c == '.'
    ||| c == '_'
    ||| c == '-'
}

/// Why a manifest path is refused, if it is.
pub open spec fn manifest_path_error(path: Seq<char>, line: nat) -> Option<Seq<char>> {
    if (path.len() > 0 && path[0] == '/') || has_double(path, '.') || path.contains('\\') {
        Some(
            "unsafe Cairo source manifest path '"@ + path + "' at line "@ + decimal_spec(line),
        )
    } else if !(forall|i: int| 0 <= i < path.len() ==> #[trigger] path_char_ok(path[i])) {
        Some(
            "Cairo source manifest path '"@ + path + "' at line "@ + decimal_spec(line)
                + " contains unsupported characters"@,
        )
    } else {
        None
    }
}

fn path_char_ok_exec(c: char) -> (b: bool)
    ensures
        b == path_char_ok(c),
{
    ('a' <= c && c <= 'z') || ('A' <= c && c <= 'Z') || ('0' <= c && c <= '9') || c == '/' || c
        == '.' || c == '_' || c == '-'
}

/// Checks a manifest path: relative, without `..` or backslashes, and of
/// safe characters only.
pub fn validate_manifest_path(path: &[char], line_number: usize) -> (r: Result<(), String>)
    ensures
        r is Ok <==> manifest_path_error(path@, line_number as nat) is None,
        r matches Err(e) ==> Some(e@) == manifest_path_error(path@, line_number as nat),
{
    if (path.len() > 0 && path[0] == '/') || contains_double(path, '.') || contains_char(
        path,
        '\\',
    ) {
        let mut m = quoted_message("unsafe Cairo source manifest path '", path, "' at line ");
        push_str(&mut m, decimal(line_number as u64).as_str());
        return Err(m);
    }
    let mut i: usize = 0;
    while i < path.len()
        invariant
            i <= path@.len(),
            !((path@.len() > 0 && path@[0] == '/') || has_double(path@, '.') || path@.contains('\\')),
            forall|k: int| 0 <= k < i ==> #[trigger] path_char_ok(path@[k]),
        decreases path.len() - i,
    {
        if !path_char_ok_exec(path[i]) {
            assert(!path_char_ok(path@[i as int]));
            let mut m = quoted_message("Cairo source manifest path '", path, "' at line ");
            push_str(&mut m, decimal(line_number as u64).as_str());
            push_str(&mut m, " contains unsupported characters");
            return Err(m);
        }
        i += 1;
    }
    Ok(())
}

/// What the entries of a source manifest from line `i` on give: the
/// paths seen, and whether a path binds the semantic core, the executable
/// target and the lockfile; or the first error.
pub open spec fn manifest_scan(
    lines: Seq<Seq<char>>,
    i: int,
    seen: Seq<Seq<char>>,
    core: bool,
    exe: bool,
    lock: bool,
) -> Result<(Seq<Seq<char>>, bool, bool, bool), Seq<char>>
    decreases lines.len() - i,
{
    if i < 0 || i >= lines.len() {
        Ok((seen, core, exe, lock))
    } else {
        let line = trim(lines[i]);
        if line.len() == 0 {
            manifest_scan(lines, i + 1, seen, core, exe, lock)
        } else {
            let ws = words(line);
            if ws.len() != 2 {
                Err("malformed Cairo source manifest entry at line "@ + decimal_spec((i + 1) as nat))
            } else if manifest_path_error(ws[0], (i + 1) as nat) is Some {
                Err(manifest_path_error(ws[0], (i + 1) as nat)->0)
            } else if parse_hash_hex_spec(ws[1]) is Err {
                Err(
                    "invalid Cairo source manifest digest at line "@ + decimal_spec((i + 1) as nat)
                        + ": "@ + parse_hash_hex_spec(ws[1])->Err_0,
                )
            } else if seen.contains(ws[0]) {
                Err("duplicate Cairo source manifest path "@ + ws[0])
            } else {
                manifest_scan(
                    lines,
                    i + 1,
                    seen.push(ws[0]),
                    core || starts_with(ws[0], "semantic_core/"@),
                    exe || starts_with(ws[0], "executable/"@),
                    lock || ends_with(ws[0], "Scarb.lock"@),
                )
            }
        }
    }
}

/// Why a Cairo source manifest is refused, if it is: it must start with
/// its header line and bind, by path and SHA3-256 digest, at least one
/// file, the semantic core sources, the executable target and the
/// lockfile.
pub open spec fn source_manifest_error(text: Seq<char>) -> Option<Seq<char>> {
    let ls = lines_spec(text);
    let header = if ls.len() > 0 {
        trim(ls[0])
    } else {
        Seq::empty()
    };
    if header != "VSEL_CAIRO_SOURCE_MANIFEST_V1"@ {
        Some("VSEL_CAIRO_PROGRAM_PATH must start with VSEL_CAIRO_SOURCE_MANIFEST_V1"@)
    } else {
        match manifest_scan(ls, 1, Seq::empty(), false, false, false) {
            Err(e) => Some(e),
            Ok(r) => if r.0.len() == 0 {
                Some("Cairo source manifest must contain at least one entry"@)
            } else if !r.1 {
                Some("Cairo source manifest must bind semantic_core sources"@)
            } else if !r.2 {
                Some("Cairo source manifest must bind executable proof-target sources"@)
            } else if !r.3 {
                Some("Cairo source manifest must bind Scarb.lock dependency resolution"@)
            } else {
                None
            },
        }
    }
}


/// A copy of the characters.
pub fn copy_chars(s: &[char]) -> (r: Vec<char>)
    ensures
        r@ == s@,
{
    let mut r: Vec<char> = Vec::new();
    let mut k: usize = 0;
    while k < s.len()
        invariant
            k <= s@.len(),
            r@ == s@.subrange(0, k as int),
        decreases s.len() - k,
    {
        r.push(s[k]);
        k += 1;
        assert(r@ =~= s@.subrange(0, k as int));
    }
    assert(r@ =~= s@);
    r
}

fn contains_line(seen: &Vec<Vec<char>>, p: &[char]) -> (b: bool)
    ensures
        b == lines_view(seen@).contains(p@),
{
    let mut i: usize = 0;
    while i < seen.len()
        invariant
            i <= seen@.len(),
            forall|k: int| 0 <= k < i ==> seen@[k]@ != p@,
        decreases seen.len() - i,
    {
        if crate::text::chars_equal(seen[i].as_slice(), p) {
            assert(lines_view(seen@)[i as int] == p@);
            return true;
        }
        i += 1;
    }
    assert(!lines_view(seen@).contains(p@)) by {
        if lines_view(seen@).contains(p@) {
            let k = choose|k: int| 0 <= k < lines_view(seen@).len() && lines_view(seen@)[k] == p@;
            assert(seen@[k]@ == p@);
        }
    }
    false
}

fn chars_start_with_str(s: &[char], p: &str) -> (b: bool)
    ensures
        b == starts_with(s@, p@),
{
    let pc = crate::text::str_chars(p);
    crate::text::chars_start_with(s, pc.as_slice())
}

fn line_message(prefix: &str, line: usize) -> (m: String)
    ensures
        m@ == prefix@ + decimal_spec(line as nat),
{
    let mut m = owned(prefix);
    push_str(&mut m, decimal(line as u64).as_str());
    m
}

/// Checks the text of a Cairo source manifest.
pub fn validate_source_manifest_text(text: &str) -> (r: Result<(), String>)
    ensures
        r is Ok <==> source_manifest_error(text@) is None,
        r matches Err(e) ==> Some(e@) == source_manifest_error(text@),
{
    let lines = split_lines(text);
    let ghost lv = lines_view(lines@);
    assert(lv == lines_spec(text@));
    let header = if lines.len() > 0 {
        trim_chars(lines[0].as_slice())
    } else {
        Vec::new()
    };
    assert(lines@.len() > 0 ==> lv[0] == lines@[0]@);
    if !chars_eq_str(header.as_slice(), "VSEL_CAIRO_SOURCE_MANIFEST_V1") {
        return Err(owned("VSEL_CAIRO_PROGRAM_PATH must start with VSEL_CAIRO_SOURCE_MANIFEST_V1"));
    }
    proof {
        reveal_strlit("VSEL_CAIRO_SOURCE_MANIFEST_V1");
    }
    let mut seen: Vec<Vec<char>> = Vec::new();
    let mut core = false;
    let mut exe = false;
    let mut lock = false;
    let mut i: usize = 1;
    assert(lines_view(seen@) =~= Seq::<Seq<char>>::empty());
    while i < lines.len()
        invariant
            1 <= i,
            lv == lines_view(lines@),
            lv == lines_spec(text@),
            lv.len() > 0,
            trim(lv[0]) == "VSEL_CAIRO_SOURCE_MANIFEST_V1"@,
            manifest_scan(lv, 1, Seq::empty(), false, false, false) == manifest_scan(
                lv,
                i as int,
                lines_view(seen@),
                core,
                exe,
                lock,
            ),
        decreases lines.len() - i,
    {
        let line = trim_chars(lines[i].as_slice());
        assert(lv[i as int] == lines@[i as int]@);
        if line.len() == 0 {
            i += 1;
            continue;
        }
        let ws = split_words(line.as_slice());
        let ghost wv = ws@.map_values(|w: Vec<char>| w@);
        assert(line@ == trim(lv[i as int]));
        assert(wv == words(trim(lv[i as int])));
        assert(wv.len() == ws@.len());
        if ws.len() != 2 {
            return Err(line_message("malformed Cairo source manifest entry at line ", i + 1));
        }
        assert(wv[0] == ws@[0]@ && wv[1] == ws@[1]@);
        match validate_manifest_path(ws[0].as_slice(), i + 1) {
            Ok(()) => {},
            Err(e) => {
                return Err(e);
            },
        }
        match parse_hash_chars(ws[1].as_slice()) {
            Ok(_) => {},
            Err(e) => {
                let mut m = line_message("invalid Cairo source manifest digest at line ", i + 1);
                push_str(&mut m, ": ");
                push_str(&mut m, e.as_str());
                return Err(m);
            },
        }
        if contains_line(&seen, ws[0].as_slice()) {
            return Err(prefixed_message("duplicate Cairo source manifest path ", ws[0].as_slice()));
        }
        core = core || chars_start_with_str(ws[0].as_slice(), "semantic_core/");
        exe = exe || chars_start_with_str(ws[0].as_slice(), "executable/");
        lock = lock || crate::words::chars_end_with(ws[0].as_slice(), "Scarb.lock");
        let ghost before = lines_view(seen@);
        seen.push(copy_chars(ws[0].as_slice()));
        assert(lines_view(seen@) =~= before.push(wv[0]));
        i += 1;
    }
    if seen.len() == 0 {
        return Err(owned("Cairo source manifest must contain at least one entry"));
    }
    if !core {
        return Err(owned("Cairo source manifest must bind semantic_core sources"));
    }
    if !exe {
        return Err(owned("Cairo source manifest must bind executable proof-target sources"));
    }
    if !lock {
        return Err(owned("Cairo source manifest must bind Scarb.lock dependency resolution"));
    }
    Ok(())
}


// ---------------------------------------------------------------------------
// Cairo semantic binding reports
// ---------------------------------------------------------------------------

/// Text of a semantic binding field scan failure.
pub open spec fn binding_scan_text(f: ScanFailure) -> Seq<char> {
    match f {
        ScanFailure::Malformed(i, _) => "malformed Cairo semantic binding entry at line "@
            + decimal_spec(i + 1),
        ScanFailure::EmptyPart(i, _) => "empty Cairo semantic binding key/value at line "@
            + decimal_spec(i + 1),
        ScanFailure::Duplicate(k) => "duplicate Cairo semantic binding field "@ + k,
        ScanFailure::MissingEnd => Seq::empty(),
    }
}

/// Why a semantic binding file field (`<path> <sha3-256>`) is refused.
pub open spec fn binding_file_field_error(key: Seq<char>, value: Seq<char>) -> Option<Seq<char>> {
    let ws = words(value);
    if ws.len() != 2 {
        Some("Cairo semantic binding field "@ + key + " must contain '<path> <sha3-256>'"@)
    } else if manifest_path_error(ws[0], 0) is Some {
        manifest_path_error(ws[0], 0)
    } else if parse_hash_hex_spec(ws[1]) is Err {
        Some("Cairo semantic binding "@ + key + " has invalid digest: "@ + parse_hash_hex_spec(
            ws[1],
        )->Err_0)
    } else {
        None
    }
}

/// Why a required file field is refused: missing, or not a path and
/// digest.
pub open spec fn file_field_error(fields: Seq<(Seq<char>, Seq<char>)>, key: Seq<char>) -> Option<
    Seq<char>,
> {
    match lookup(fields, key) {
        None => Some("Cairo semantic binding missing field "@ + key),
        Some(v) => binding_file_field_error(key, v),
    }
}

/// Why a required flag field is refused: missing, or not `true`.
pub open spec fn true_field_error(fields: Seq<(Seq<char>, Seq<char>)>, key: Seq<char>) -> Option<
    Seq<char>,
> {
    match lookup(fields, key) {
        None => Some("Cairo semantic binding missing field "@ + key),
        Some(v) => if v != "true"@ {
            Some("Cairo semantic binding "@ + key + " must be true"@)
        } else {
            None
        },
    }
}

/// The first of two possible errors.
pub open spec fn first_error(a: Option<Seq<char>>, b: Option<Seq<char>>) -> Option<Seq<char>> {
    if a is Some {
        a
    } else {
        b
    }
}

/// Why the fields of a semantic binding report are refused, checking the
/// three file fields and then the seven flags in order.
pub open spec fn binding_fields_error(f: Seq<(Seq<char>, Seq<char>)>) -> Option<Seq<char>> {
    first_error(
        file_field_error(f, "semantic_core"@),
        first_error(
            file_field_error(f, "contract_wrapper"@),
            first_error(
                file_field_error(f, "executable_entrypoint"@),
                first_error(
                    true_field_error(f, "core_apply_transition"@),
                    first_error(
                        true_field_error(f, "core_seal_transition"@),
                        first_error(
                            true_field_error(f, "core_invariant_predicate"@),
                            first_error(
                                true_field_error(f, "contract_uses_core_apply"@),
                                first_error(
                                    true_field_error(f, "contract_uses_core_seal"@),
                                    first_error(
                                        true_field_error(f, "contract_uses_core_invariant"@),
                                        true_field_error(f, "executable_uses_core_apply"@),
                                    ),
                                ),
                            ),
                        ),
                    ),
                ),
            ),
        ),
    )
}

/// Why a Cairo semantic binding report is refused, if it is: its header,
/// then its `key=value` lines, then the required fields.
pub open spec fn semantic_binding_error(text: Seq<char>) -> Option<Seq<char>> {
    let ls = lines_spec(text);
    let header = if ls.len() > 0 {
        trim(ls[0])
    } else {
        Seq::empty()
    };
    if header != "VSEL_CAIRO_SEMANTIC_BINDING_V1"@ {
        Some("VSEL_CAIRO_SEMANTIC_BINDING_PATH must start with VSEL_CAIRO_SEMANTIC_BINDING_V1"@)
    } else {
        match scan_fields(ls, 1, false, Seq::empty()) {
            Err(e) => Some(binding_scan_text(e)),
            Ok(f) => binding_fields_error(f),
        }
    }
}

/// Checks a semantic binding file field: a path and a SHA3-256 digest.
pub fn validate_semantic_binding_file_field(key: &str, value: &[char]) -> (r: Result<(), String>)
    ensures
        r is Ok <==> binding_file_field_error(key@, value@) is None,
        r matches Err(e) ==> Some(e@) == binding_file_field_error(key@, value@),
{
    let ws = split_words(value);
    let ghost wv = ws@.map_values(|w: Vec<char>| w@);
    assert(wv.len() == ws@.len());
    if ws.len() != 2 {
        let mut m = owned("Cairo semantic binding field ");
        push_str(&mut m, key);
        push_str(&mut m, " must contain '<path> <sha3-256>'");
        return Err(m);
    }
    assert(wv[0] == ws@[0]@ && wv[1] == ws@[1]@);
    match validate_manifest_path(ws[0].as_slice(), 0) {
        Ok(()) => {},
        Err(e) => {
            return Err(e);
        },
    }
    match parse_hash_chars(ws[1].as_slice()) {
        Ok(_) => Ok(()),
        Err(e) => {
            let mut m = owned("Cairo semantic binding ");
            push_str(&mut m, key);
            push_str(&mut m, " has invalid digest: ");
            push_str(&mut m, e.as_str());
            Err(m)
        },
    }
}

fn check_file_field(fields: &Vec<(Vec<char>, Vec<char>)>, key: &str) -> (r: Result<(), String>)
    ensures
        r is Ok <==> file_field_error(fields_view(fields@), key@) is None,
        r matches Err(e) ==> Some(e@) == file_field_error(fields_view(fields@), key@),
{
    let k = crate::text::str_chars(key);
    match lookup_exec(fields, k.as_slice()) {
        None => {
            let mut m = owned("Cairo semantic binding missing field ");
            push_str(&mut m, key);
            Err(m)
        },
        Some(v) => validate_semantic_binding_file_field(key, v.as_slice()),
    }
}

fn check_true_field(fields: &Vec<(Vec<char>, Vec<char>)>, key: &str) -> (r: Result<(), String>)
    ensures
        r is Ok <==> true_field_error(fields_view(fields@), key@) is None,
        r matches Err(e) ==> Some(e@) == true_field_error(fields_view(fields@), key@),
{
    let k = crate::text::str_chars(key);
    match lookup_exec(fields, k.as_slice()) {
        None => {
            let mut m = owned("Cairo semantic binding missing field ");
            push_str(&mut m, key);
            Err(m)
        },
        Some(v) => {
            if chars_eq_str(v.as_slice(), "true") {
                Ok(())
            } else {
                let mut m = owned("Cairo semantic binding ");
                push_str(&mut m, key);
                push_str(&mut m, " must be true");
                Err(m)
            }
        },
    }
}

fn binding_scan_message(e: &ScanError, n: usize) -> (m: String)
    requires
        !(e@ is MissingEnd),
        scan_index_below(e@, n as nat),
    ensures
        m@ == binding_scan_text(e@),
{
    match e {
        ScanError::Malformed(i, _) => line_message(
            "malformed Cairo semantic binding entry at line ",
            *i + 1,
        ),
        ScanError::EmptyPart(i, _) => line_message(
            "empty Cairo semantic binding key/value at line ",
            *i + 1,
        ),
        ScanError::Duplicate(k) => prefixed_message(
            "duplicate Cairo semantic binding field ",
            k.as_slice(),
        ),
        ScanError::MissingEnd => owned(""),
    }
}


/// A block read without an `END` line never fails for a missing `END`.
proof fn lemma_scan_without_end(lines: Seq<Seq<char>>, i: int, acc: Seq<(Seq<char>, Seq<char>)>)
    ensures
        scan_fields(lines, i, false, acc) matches Err(e) ==> !(e is MissingEnd),
    decreases lines.len() - i,
{
    if 0 <= i < lines.len() {
        let line = trim(lines[i]);
        lemma_scan_without_end(lines, i + 1, acc);
        if let Some(kv) = split_once_spec(line, '=') {
            lemma_scan_without_end(lines, i + 1, acc.push(kv));
        }
    }
}

/// Checks the text of a Cairo semantic binding report.
pub fn validate_semantic_binding_text(text: &str) -> (r: Result<(), String>)
    ensures
        r is Ok <==> semantic_binding_error(text@) is None,
        r matches Err(e) ==> Some(e@) == semantic_binding_error(text@),
{
    let lines = split_lines(text);
    let ghost lv = lines_view(lines@);
    assert(lv == lines_spec(text@));
    let header = if lines.len() > 0 {
        trim_chars(lines[0].as_slice())
    } else {
        Vec::new()
    };
    assert(lines@.len() > 0 ==> lv[0] == lines@[0]@);
    if !chars_eq_str(header.as_slice(), "VSEL_CAIRO_SEMANTIC_BINDING_V1") {
        return Err(
            owned("VSEL_CAIRO_SEMANTIC_BINDING_PATH must start with VSEL_CAIRO_SEMANTIC_BINDING_V1"),
        );
    }
    proof {
        reveal_strlit("VSEL_CAIRO_SEMANTIC_BINDING_V1");
        lemma_scan_without_end(lv, 1, Seq::empty());
    }
    let fields = match scan_fields_exec(&lines, 1, false) {
        Ok(f) => f,
        Err(e) => {
            return Err(binding_scan_message(&e, lines.len()));
        },
    };
    match check_file_field(&fields, "semantic_core") {
        Ok(()) => {},
        Err(e) => {
            return Err(e);
        },
    }
    match check_file_field(&fields, "contract_wrapper") {
        Ok(()) => {},
        Err(e) => {
            return Err(e);
        },
    }
    match check_file_field(&fields, "executable_entrypoint") {
        Ok(()) => {},
        Err(e) => {
            return Err(e);
        },
    }
    match check_true_field(&fields, "core_apply_transition") {
        Ok(()) => {},
        Err(e) => {
            return Err(e);
        },
    }
    match check_true_field(&fields, "core_seal_transition") {
        Ok(()) => {},
        Err(e) => {
            return Err(e);
        },
    }
    match check_true_field(&fields, "core_invariant_predicate") {
        Ok(()) => {},
        Err(e) => {
            return Err(e);
        },
    }
    match check_true_field(&fields, "contract_uses_core_apply") {
        Ok(()) => {},
        Err(e) => {
            return Err(e);
        },
    }
    match check_true_field(&fields, "contract_uses_core_seal") {
        Ok(()) => {},
        Err(e) => {
            return Err(e);
        },
    }
    match check_true_field(&fields, "contract_uses_core_invariant") {
        Ok(()) => {},
        Err(e) => {
            return Err(e);
        },
    }
    check_true_field(&fields, "executable_uses_core_apply")
}

} // verus!
