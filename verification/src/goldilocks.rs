//! Elements of the Goldilocks field `p = 2^64 - 2^32 + 1`, as proofs carry
//! them.

use vstd::prelude::*;

use crate::encoding::u64_le;

verus! {

/// The Goldilocks prime.
pub const GOLDILOCKS_MODULUS: u64 = 0xFFFF_FFFF_0000_0001;

/// A Goldilocks field element, held as its `u64` representative.
#[derive(Clone, Copy, Debug, PartialEq, Eq, Structural)]
pub struct GoldilocksField(pub u64);

impl GoldilocksField {
    /// Zero.
    pub fn zero() -> (z: GoldilocksField)
        ensures
            z.0 == 0,
    {
        GoldilocksField(0)
    }

    /// One.
    pub fn one() -> (o: GoldilocksField)
        ensures
            o.0 == 1,
    {
        GoldilocksField(1)
    }

    /// The element's eight little-endian bytes.
    pub fn to_bytes(&self) -> (b: [u8; 8])
        ensures
            b@ == u64_le(self.0),
    {
        let v = self.0;
        let mut b = [0u8; 8];
        b[0] = (v & 0xff) as u8;
        b[1] = ((v >> 8) & 0xff) as u8;
        b[2] = ((v >> 16) & 0xff) as u8;
        b[3] = ((v >> 24) & 0xff) as u8;
        b[4] = ((v >> 32) & 0xff) as u8;
        b[5] = ((v >> 40) & 0xff) as u8;
        b[6] = ((v >> 48) & 0xff) as u8;
        b[7] = ((v >> 56) & 0xff) as u8;
        assert((v & 0xff) as u8 == (v % 0x100) as u8) by (bit_vector);
        assert(((v >> 8) & 0xff) as u8 == ((v / 0x100) % 0x100) as u8) by (bit_vector);
        assert(((v >> 16) & 0xff) as u8 == ((v / 0x1_0000) % 0x100) as u8) by (bit_vector);
        assert(((v >> 24) & 0xff) as u8 == ((v / 0x100_0000) % 0x100) as u8) by (bit_vector);
        assert(((v >> 32) & 0xff) as u8 == ((v / 0x1_0000_0000) % 0x100) as u8) by (bit_vector);
        assert(((v >> 40) & 0xff) as u8 == ((v / 0x100_0000_0000) % 0x100) as u8) by (bit_vector);
        assert(((v >> 48) & 0xff) as u8 == ((v / 0x1_0000_0000_0000) % 0x100) as u8)
            by (bit_vector);
        assert(((v >> 56) & 0xff) as u8 == ((v / 0x100_0000_0000_0000) % 0x100) as u8)
            by (bit_vector);
        assert(b@ =~= u64_le(v));
        b
    }
}

} // verus!
