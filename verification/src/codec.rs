//! Building and reading byte buffers: appending, and cursor-based reads of
//! fixed-size chunks and `u32`-length-prefixed fields.

use vstd::prelude::*;

use crate::encoding::{le_u32_value, lemma_u32_le_roundtrip, push_u32_le, u32_from_le, u32_le};

verus! {

/// A length-prefixed field: the little-endian `u32` length (truncated to 32
/// bits, as a cast does) followed by the bytes.
pub open spec fn var_field(data: Seq<u8>) -> Seq<u8> {
    u32_le(data.len() as u32) + data
}

/// Appends `data` to `buf`.
pub fn append_bytes(buf: &mut Vec<u8>, data: &[u8])
    ensures
        final(buf)@ == old(buf)@ + data@,
{
    let mut i: usize = 0;
    while i < data.len()
        invariant
            i <= data.len(),
            buf@ == old(buf)@ + data@.subrange(0, i as int),
        decreases data.len() - i,
    {
        buf.push(data[i]);
        i += 1;
        assert(buf@ =~= old(buf)@ + data@.subrange(0, i as int));
    }
    assert(data@.subrange(0, data.len() as int) =~= data@);
}

/// Appends a length-prefixed field.
pub fn append_var_field(buf: &mut Vec<u8>, data: &[u8])
    ensures
        final(buf)@ == old(buf)@ + var_field(data@),
{
    push_u32_le(buf, data.len() as u32);
    append_bytes(buf, data);
    assert(final(buf)@ =~= old(buf)@ + var_field(data@));
}

/// Reads `len` bytes at the cursor and advances it; `None`, with the cursor
/// unchanged, when fewer than `len` bytes remain.
pub fn read_exact(bytes: &[u8], cursor: &mut usize, len: usize) -> (r: Option<Vec<u8>>)
    requires
        *old(cursor) <= bytes@.len(),
    ensures
        r is Some <==> *old(cursor) + len <= bytes@.len(),
        r matches Some(v) ==> v@ == bytes@.subrange(*old(cursor) as int, *old(cursor) + len)
            && *final(cursor) == *old(cursor) + len,
        r is None ==> *final(cursor) == *old(cursor),
{
    if len > bytes.len() - *cursor {
        return None;
    }
    let start = *cursor;
    let slice = &bytes[start..start + len];
    let mut v: Vec<u8> = Vec::new();
    append_bytes(&mut v, slice);
    *cursor = start + len;
    assert(v@ =~= bytes@.subrange(start as int, start + len));
    Some(v)
}

/// Reads a little-endian `u32` at the cursor.
pub fn read_u32(bytes: &[u8], cursor: &mut usize) -> (r: Option<u32>)
    requires
        *old(cursor) <= bytes@.len(),
    ensures
        r is Some <==> *old(cursor) + 4 <= bytes@.len(),
        r matches Some(v) ==> v == le_u32_value(bytes@.subrange(*old(cursor) as int, *old(cursor) + 4))
            && *final(cursor) == *old(cursor) + 4,
        r is None ==> *final(cursor) == *old(cursor),
{
    match read_exact(bytes, cursor, 4) {
        Some(b) => {
            let v = u32_from_le(b[0], b[1], b[2], b[3]);
            assert(b@ =~= seq![b@[0], b@[1], b@[2], b@[3]]);
            Some(v)
        },
        None => None,
    }
}

/// Reads a length-prefixed field at the cursor.
pub fn read_var(bytes: &[u8], cursor: &mut usize) -> (r: Option<Vec<u8>>)
    requires
        *old(cursor) <= bytes@.len(),
    ensures
        r is Some <==> (*old(cursor) + 4 <= bytes@.len() && *old(cursor) + 4 + le_u32_value(
            bytes@.subrange(*old(cursor) as int, *old(cursor) + 4),
        ) <= bytes@.len()),
        r matches Some(v) ==> {
            let n = le_u32_value(bytes@.subrange(*old(cursor) as int, *old(cursor) + 4));
            &&& v@ == bytes@.subrange(*old(cursor) + 4, *old(cursor) + 4 + n)
            &&& *final(cursor) == *old(cursor) + 4 + n
        },
        r is None ==> *final(cursor) == *old(cursor),
        *final(cursor) <= bytes@.len(),
{
    let start = *cursor;
    let n = match read_u32(bytes, cursor) {
        Some(n) => n,
        None => return None,
    };
    match read_exact(bytes, cursor, n as usize) {
        Some(v) => Some(v),
        None => {
            *cursor = start;
            None
        },
    }
}

/// If the bytes at the cursor are a length-prefixed field whose length fits
/// in 32 bits, `read_var` reads exactly that field.
pub proof fn lemma_var_field_at(bytes: Seq<u8>, pos: int, data: Seq<u8>)
    requires
        0 <= pos,
        data.len() < 0x1_0000_0000,
        pos + var_field(data).len() <= bytes.len(),
        bytes.subrange(pos, pos + var_field(data).len()) == var_field(data),
    ensures
        le_u32_value(bytes.subrange(pos, pos + 4)) == data.len(),
        bytes.subrange(pos + 4, pos + 4 + data.len()) == data,
{
    lemma_u32_le_roundtrip(data.len() as u32);
    let f = var_field(data);
    assert(bytes.subrange(pos, pos + 4) =~= f.subrange(0, 4));
    assert(f.subrange(0, 4) =~= u32_le(data.len() as u32));
    assert(bytes.subrange(pos + 4, pos + 4 + data.len()) =~= f.subrange(4, f.len() as int));
    assert(f.subrange(4, f.len() as int) =~= data);
}

} // verus!
