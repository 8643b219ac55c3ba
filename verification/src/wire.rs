//! Big-endian byte-order helpers shared by the packet codec.
use vstd::prelude::*;

verus! {

/// The big-endian bytes of a 32-bit value, most significant first.
pub open spec fn u32_be_bytes(x: u32) -> Seq<u8> {
    seq![
        ((x >> 24) & 0xff) as u8,
        ((x >> 16) & 0xff) as u8,
        ((x >> 8) & 0xff) as u8,
        (x & 0xff) as u8,
    ]
}

/// The 32-bit value read big-endian from four bytes.
pub open spec fn be_u32(b0: u8, b1: u8, b2: u8, b3: u8) -> u32 {
    ((b0 as u32) << 24) | ((b1 as u32) << 16) | ((b2 as u32) << 8) | (b3 as u32)
}

/// The big-endian bytes of a 16-bit value.
pub open spec fn u16_be_bytes(x: u16) -> Seq<u8> {
    seq![((x >> 8) & 0xff) as u8, (x & 0xff) as u8]
}

/// The 16-bit value read big-endian from two bytes.
pub open spec fn be_u16(b0: u8, b1: u8) -> u16 {
    ((b0 as u16) << 8) | (b1 as u16)
}

/// Reading back the big-endian bytes of a 32-bit value gives the value.
pub proof fn lemma_u32_be_roundtrip(x: u32)
    ensures
        be_u32(
            ((x >> 24) & 0xff) as u8,
            ((x >> 16) & 0xff) as u8,
            ((x >> 8) & 0xff) as u8,
            (x & 0xff) as u8,
        ) == x,
{
    assert((((((x >> 24) & 0xff) as u8) as u32) << 24) | (((((x >> 16) & 0xff) as u8) as u32)
        << 16) | (((((x >> 8) & 0xff) as u8) as u32) << 8) | (((x & 0xff) as u8) as u32) == x)
        by (bit_vector);
}

/// Reading back the big-endian bytes of a 16-bit value gives the value.
pub proof fn lemma_u16_be_roundtrip(x: u16)
    ensures
        be_u16(((x >> 8) & 0xff) as u8, (x & 0xff) as u8) == x,
{
    assert((((((x >> 8) & 0xff) as u8) as u16) << 8) | (((x & 0xff) as u8) as u16) == x)
        by (bit_vector);
}

} // verus!
