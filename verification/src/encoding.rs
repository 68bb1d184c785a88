//! Byte encodings shared by the proof artifacts: SHA3-256 digests,
//! lowercase hexadecimal, and little-endian integers.

use sha3::{Digest, Sha3_256};
use vstd::prelude::*;

use crate::text::push_char;

verus! {

// ---------------------------------------------------------------------------
// SHA3-256
// ---------------------------------------------------------------------------

/// The SHA3-256 digest of a byte sequence (FIPS 202).
pub uninterp spec fn sha3_256_spec(data: Seq<u8>) -> Seq<u8>;

/// `Sha3_256::digest` from the `sha3` crate: the 32-byte SHA3-256 digest of
/// `data`. The contract names the digest and says nothing more of it.
#[verifier::external_body]
pub(crate) fn sha3_256(data: &[u8]) -> (out: [u8; 32])
    ensures
        out@ == sha3_256_spec(data@),
{
    Sha3_256::digest(data).into()
}

// ---------------------------------------------------------------------------
// Little-endian integers
// ---------------------------------------------------------------------------

/// Little-endian bytes of a `u32`.
pub open spec fn u32_le(v: u32) -> Seq<u8> {
    seq![
        (v % 0x100) as u8,
        ((v / 0x100) % 0x100) as u8,
        ((v / 0x1_0000) % 0x100) as u8,
        ((v / 0x100_0000) % 0x100) as u8,
    ]
}

/// Little-endian bytes of a `u64`.
pub open spec fn u64_le(v: u64) -> Seq<u8> {
    seq![
        (v % 0x100) as u8,
        ((v / 0x100) % 0x100) as u8,
        ((v / 0x1_0000) % 0x100) as u8,
        ((v / 0x100_0000) % 0x100) as u8,
        ((v / 0x1_0000_0000) % 0x100) as u8,
        ((v / 0x100_0000_0000) % 0x100) as u8,
        ((v / 0x1_0000_0000_0000) % 0x100) as u8,
        ((v / 0x100_0000_0000_0000) % 0x100) as u8,
    ]
}

/// The value of four little-endian bytes.
pub open spec fn le_u32_value(b: Seq<u8>) -> int {
    b[0] + 0x100 * b[1] + 0x1_0000 * b[2] + 0x100_0000 * b[3]
}

/// Appends the little-endian bytes of `v`.
pub fn push_u32_le(buf: &mut Vec<u8>, v: u32)
    ensures
        final(buf)@ == old(buf)@ + u32_le(v),
{
    let b0 = (v & 0xff) as u8;
    let b1 = ((v >> 8) & 0xff) as u8;
    let b2 = ((v >> 16) & 0xff) as u8;
    let b3 = ((v >> 24) & 0xff) as u8;
    assert(b0 == (v % 0x100) as u8) by (bit_vector)
        requires
            b0 == (v & 0xff) as u8,
    ;
    assert(b1 == ((v / 0x100) % 0x100) as u8) by (bit_vector)
        requires
            b1 == ((v >> 8) & 0xff) as u8,
    ;
    assert(b2 == ((v / 0x1_0000) % 0x100) as u8) by (bit_vector)
        requires
            b2 == ((v >> 16) & 0xff) as u8,
    ;
    assert(b3 == ((v / 0x100_0000) % 0x100) as u8) by (bit_vector)
        requires
            b3 == ((v >> 24) & 0xff) as u8,
    ;
    buf.push(b0);
    buf.push(b1);
    buf.push(b2);
    buf.push(b3);
    assert(buf@ =~= old(buf)@ + u32_le(v));
}

/// Appends the little-endian bytes of `v`.
pub fn push_u64_le(buf: &mut Vec<u8>, v: u64)
    ensures
        final(buf)@ == old(buf)@ + u64_le(v),
{
    let lo = (v & 0xffff_ffff) as u32;
    let hi = (v >> 32) as u32;
    push_u32_le(buf, lo);
    push_u32_le(buf, hi);
    assert(u32_le(lo) + u32_le(hi) =~= u64_le(v)) by {
        assert((lo % 0x100) as u8 == (v % 0x100) as u8) by (bit_vector)
            requires
                lo == (v & 0xffff_ffff) as u32,
        ;
        assert(((lo / 0x100) % 0x100) as u8 == ((v / 0x100) % 0x100) as u8) by (bit_vector)
            requires
                lo == (v & 0xffff_ffff) as u32,
        ;
        assert(((lo / 0x1_0000) % 0x100) as u8 == ((v / 0x1_0000) % 0x100) as u8)
            by (bit_vector)
            requires
                lo == (v & 0xffff_ffff) as u32,
        ;
        assert(((lo / 0x100_0000) % 0x100) as u8 == ((v / 0x100_0000) % 0x100) as u8)
            by (bit_vector)
            requires
                lo == (v & 0xffff_ffff) as u32,
        ;
        assert((hi % 0x100) as u8 == ((v / 0x1_0000_0000) % 0x100) as u8) by (bit_vector)
            requires
                hi == (v >> 32) as u32,
        ;
        assert(((hi / 0x100) % 0x100) as u8 == ((v / 0x100_0000_0000) % 0x100) as u8)
            by (bit_vector)
            requires
                hi == (v >> 32) as u32,
        ;
        assert(((hi / 0x1_0000) % 0x100) as u8 == ((v / 0x1_0000_0000_0000) % 0x100) as u8)
            by (bit_vector)
            requires
                hi == (v >> 32) as u32,
        ;
        assert(((hi / 0x100_0000) % 0x100) as u8 == ((v / 0x100_0000_0000_0000) % 0x100) as u8)
            by (bit_vector)
            requires
                hi == (v >> 32) as u32,
        ;
    }
    assert(final(buf)@ =~= old(buf)@ + u64_le(v));
}

/// Reads four little-endian bytes as a `u32`.
pub fn u32_from_le(b0: u8, b1: u8, b2: u8, b3: u8) -> (v: u32)
    ensures
        v == le_u32_value(seq![b0, b1, b2, b3]),
{
    let v: u32 = (b0 as u32) | ((b1 as u32) << 8) | ((b2 as u32) << 16) | ((b3 as u32) << 24);
    assert(v == b0 + 0x100 * b1 + 0x1_0000 * b2 + 0x100_0000 * b3) by (bit_vector)
        requires
            v == (b0 as u32) | ((b1 as u32) << 8) | ((b2 as u32) << 16) | ((b3 as u32) << 24),
    ;
    v
}

/// Reading back the little-endian bytes of a `u32` gives the `u32`.
pub proof fn lemma_u32_le_roundtrip(v: u32)
    ensures
        le_u32_value(u32_le(v)) == v,
        u32_le(v).len() == 4,
{
    let b = u32_le(v);
    assert(b[0] + 0x100 * b[1] + 0x1_0000 * b[2] + 0x100_0000 * b[3] == v) by (nonlinear_arith)
        requires
            b[0] == v % 0x100,
            b[1] == (v / 0x100) % 0x100,
            b[2] == (v / 0x1_0000) % 0x100,
            b[3] == (v / 0x100_0000) % 0x100,
            v < 0x1_0000_0000,
    ;
}

/// The value of eight little-endian bytes.
pub open spec fn le_u64_value(b: Seq<u8>) -> int {
    b[0] + 0x100 * b[1] + 0x1_0000 * b[2] + 0x100_0000 * b[3] + 0x1_0000_0000 * b[4]
        + 0x100_0000_0000 * b[5] + 0x1_0000_0000_0000 * b[6] + 0x100_0000_0000_0000 * b[7]
}

/// Reads eight little-endian bytes as a `u64`.
pub fn u64_from_le(b: &[u8]) -> (v: u64)
    requires
        b@.len() == 8,
    ensures
        v == le_u64_value(b@),
{
    let b0 = b[0] as u64;
    let b1 = b[1] as u64;
    let b2 = b[2] as u64;
    let b3 = b[3] as u64;
    let b4 = b[4] as u64;
    let b5 = b[5] as u64;
    let b6 = b[6] as u64;
    let b7 = b[7] as u64;
    let v: u64 = b0 | (b1 << 8) | (b2 << 16) | (b3 << 24) | (b4 << 32) | (b5 << 40) | (b6 << 48) | (
    b7 << 56);
    assert(v == b0 + 0x100 * b1 + 0x1_0000 * b2 + 0x100_0000 * b3 + 0x1_0000_0000 * b4
        + 0x100_0000_0000 * b5 + 0x1_0000_0000_0000 * b6 + 0x100_0000_0000_0000 * b7)
        by (bit_vector)
        requires
            v == b0 | (b1 << 8) | (b2 << 16) | (b3 << 24) | (b4 << 32) | (b5 << 40) | (b6 << 48)
                | (b7 << 56),
            b0 < 0x100,
            b1 < 0x100,
            b2 < 0x100,
            b3 < 0x100,
            b4 < 0x100,
            b5 < 0x100,
            b6 < 0x100,
            b7 < 0x100,
    ;
    v
}

/// Reading back the little-endian bytes of a `u64` gives the `u64`.
pub proof fn lemma_u64_le_roundtrip(v: u64)
    ensures
        le_u64_value(u64_le(v)) == v,
        u64_le(v).len() == 8,
{
    let b = u64_le(v);
    assert(v == (v % 0x100) + 0x100 * ((v / 0x100) % 0x100) + 0x1_0000 * ((v / 0x1_0000) % 0x100)
        + 0x100_0000 * ((v / 0x100_0000) % 0x100) + 0x1_0000_0000 * ((v / 0x1_0000_0000) % 0x100)
        + 0x100_0000_0000 * ((v / 0x100_0000_0000) % 0x100) + 0x1_0000_0000_0000 * ((v
        / 0x1_0000_0000_0000) % 0x100) + 0x100_0000_0000_0000 * ((v / 0x100_0000_0000_0000)
        % 0x100)) by (bit_vector);
}

// ---------------------------------------------------------------------------
// Hexadecimal
// ---------------------------------------------------------------------------

/// Lowercase hexadecimal digit for a value below 16.
pub open spec fn hex_digit(n: u8) -> char {
    if n < 10 {
        ((48 + n) as u8) as char
    } else {
        ((87 + n) as u8) as char
    }
}

/// Lowercase hexadecimal text of a byte sequence, two digits per byte,
/// high nibble first.
pub open spec fn hex_encode_spec(bytes: Seq<u8>) -> Seq<char> {
    Seq::new(
        2 * bytes.len(),
        |i: int|
            if i % 2 == 0 {
                hex_digit(bytes[i / 2] / 16)
            } else {
                hex_digit(bytes[i / 2] % 16)
            },
    )
}

/// Value of an ASCII hexadecimal digit (either case), if it is one.
pub open spec fn hex_nibble_spec(b: u8) -> Option<u8> {
    if 48 <= b <= 57 {
        Some((b - 48) as u8)
    } else if 97 <= b <= 102 {
        Some((b - 87) as u8)
    } else if 65 <= b <= 70 {
        Some((b - 55) as u8)
    } else {
        None
    }
}

/// Whether every byte is an ASCII hexadecimal digit.
pub open spec fn all_hex_digits(b: Seq<u8>) -> bool {
    forall|i: int| 0 <= i < b.len() ==> (#[trigger] hex_nibble_spec(b[i])) is Some
}

/// Bytes denoted by hexadecimal text: `None` for odd length or a byte that
/// is not a hexadecimal digit.
pub open spec fn hex_decode_spec(text: Seq<u8>) -> Option<Seq<u8>> {
    if text.len() % 2 != 0 || !all_hex_digits(text) {
        None
    } else {
        Some(
            Seq::new(
                text.len() / 2,
                |i: int|
                    (hex_nibble_spec(text[2 * i])->0 * 16 + hex_nibble_spec(
                        text[2 * i + 1],
                    )->0) as u8,
            ),
        )
    }
}

/// Value of a hexadecimal digit byte.
pub fn hex_nibble_value(b: u8) -> (r: Option<u8>)
    ensures
        r == hex_nibble_spec(b),
        r matches Some(n) ==> n < 16,
{
    if b >= 48 && b <= 57 {
        Some(b - 48)
    } else if b >= 97 && b <= 102 {
        Some(b - 87)
    } else if b >= 65 && b <= 70 {
        Some(b - 55)
    } else {
        None
    }
}

fn hex_digit_exec(n: u8) -> (c: char)
    requires
        n < 16,
    ensures
        c == hex_digit(n),
{
    if n < 10 {
        ((48 + n) as u8) as char
    } else {
        ((87 + n) as u8) as char
    }
}

/// Lowercase hexadecimal text of `bytes`.
pub fn hex_encode(bytes: &[u8]) -> (s: String)
    ensures
        s@ == hex_encode_spec(bytes@),
{
    let mut s = String::new();
    let mut i: usize = 0;
    while i < bytes.len()
        invariant
            i <= bytes.len(),
            s@ =~= hex_encode_spec(bytes@.subrange(0, i as int)),
        decreases bytes.len() - i,
    {
        let b = bytes[i];
        assert(b >> 4 == b / 16) by (bit_vector);
        assert(b & 0x0f == b % 16) by (bit_vector);
        push_char(&mut s, hex_digit_exec(b >> 4));
        push_char(&mut s, hex_digit_exec(b & 0x0f));
        i += 1;
        assert(s@ =~= hex_encode_spec(bytes@.subrange(0, i as int)));
    }
    assert(bytes@.subrange(0, bytes.len() as int) =~= bytes@);
    s
}

/// Decodes hexadecimal text given by its bytes.
pub fn hex_decode_bytes(text: &[u8]) -> (r: Option<Vec<u8>>)
    ensures
        r matches Some(v) ==> hex_decode_spec(text@) == Some(v@),
        r is None ==> hex_decode_spec(text@) is None,
{
    if text.len() % 2 != 0 {
        return None;
    }
    let mut out: Vec<u8> = Vec::new();
    let mut i: usize = 0;
    while i < text.len()
        invariant
            text.len() % 2 == 0,
            i % 2 == 0,
            i <= text.len(),
            out@.len() == i / 2,
            forall|k: int| 0 <= k < i ==> (#[trigger] hex_nibble_spec(text@[k])) is Some,
            forall|j: int|
                0 <= j < i / 2 ==> out@[j] == (hex_nibble_spec(text@[2 * j])->0 * 16
                    + hex_nibble_spec(text@[2 * j + 1])->0) as u8,
        decreases text.len() - i,
    {
        let high = match hex_nibble_value(text[i]) {
            Some(h) => h,
            None => {
                assert(!all_hex_digits(text@));
                return None;
            },
        };
        let low = match hex_nibble_value(text[i + 1]) {
            Some(l) => l,
            None => {
                assert(!all_hex_digits(text@));
                return None;
            },
        };
        let byte = (high << 4) | low;
        assert(byte == (high * 16 + low) as u8) by (bit_vector)
            requires
                byte == (high << 4) | low,
                high < 16,
                low < 16,
        ;
        out.push(byte);
        proof {
            assert(2 * (i as int / 2) == i as int);
        }
        i += 2;
    }
    assert(all_hex_digits(text@));
    assert(out@ =~= hex_decode_spec(text@)->0);
    Some(out)
}

/// Hexadecimal digits of a byte are ASCII hexadecimal digits that decode
/// back to the byte.
proof fn lemma_hex_digit_roundtrip(b: u8)
    ensures
        (hex_digit(b / 16) as u8) as u32 == hex_digit(b / 16) as u32,
        hex_nibble_spec(hex_digit(b / 16) as u8) == Some(b / 16),
        hex_nibble_spec(hex_digit(b % 16) as u8) == Some(b % 16),
        ((b / 16) * 16 + b % 16) as u8 == b,
        hex_digit(b / 16) as u32 <= 0x7f,
        hex_digit(b % 16) as u32 <= 0x7f,
{
}

/// Decoding the hexadecimal text of a byte sequence gives the byte
/// sequence back (the text is ASCII, so its characters are its bytes).
pub proof fn lemma_hex_roundtrip(bytes: Seq<u8>)
    ensures
        hex_decode_spec(Seq::new(2 * bytes.len(), |i: int| hex_encode_spec(bytes)[i] as u8))
            == Some(bytes),
        forall|i: int|
            0 <= i < hex_encode_spec(bytes).len() ==> (#[trigger] hex_encode_spec(bytes)[i]) as u32
                <= 0x7f,
{
    let text = Seq::new(2 * bytes.len(), |i: int| hex_encode_spec(bytes)[i] as u8);
    assert forall|i: int| 0 <= i < text.len() implies (#[trigger] hex_nibble_spec(text[i])) is Some by {
        lemma_hex_digit_roundtrip(bytes[i / 2]);
    }
    assert forall|i: int| 0 <= i < hex_encode_spec(bytes).len() implies (#[trigger] hex_encode_spec(
        bytes,
    )[i]) as u32 <= 0x7f by {
        lemma_hex_digit_roundtrip(bytes[i / 2]);
    }
    let dec = hex_decode_spec(text)->0;
    assert forall|j: int| 0 <= j < bytes.len() implies dec[j] == bytes[j] by {
        lemma_hex_digit_roundtrip(bytes[j]);
        assert((2 * j) / 2 == j);
        assert((2 * j + 1) / 2 == j);
        assert((2 * j) % 2 == 0);
        assert((2 * j + 1) % 2 == 1);
    }
    assert(dec =~= bytes);
}

} // verus!
