//! Big-endian integer encodings shared by the wire formats.

use vstd::prelude::*;

verus! {

/// The value of two big-endian bytes.
pub open spec fn be16(b0: u8, b1: u8) -> u16 {
    ((b0 as u16) << 8u16) | (b1 as u16)
}

/// The value of four big-endian bytes.
pub open spec fn be32(b0: u8, b1: u8, b2: u8, b3: u8) -> u32 {
    ((b0 as u32) << 24u32) | ((b1 as u32) << 16u32) | ((b2 as u32) << 8u32) | (b3 as u32)
}

/// Big-endian bytes of a 16-bit value.
pub open spec fn u16_be(x: u16) -> Seq<u8> {
    seq![(x >> 8u16) as u8, x as u8]
}

/// Big-endian bytes of a 32-bit value.
pub open spec fn u32_be(x: u32) -> Seq<u8> {
    seq![(x >> 24u32) as u8, (x >> 16u32) as u8, (x >> 8u32) as u8, x as u8]
}

/// Big-endian bytes of a 64-bit value.
pub open spec fn u64_be(x: u64) -> Seq<u8> {
    seq![
        (x >> 56u64) as u8,
        (x >> 48u64) as u8,
        (x >> 40u64) as u8,
        (x >> 32u64) as u8,
        (x >> 24u64) as u8,
        (x >> 16u64) as u8,
        (x >> 8u64) as u8,
        x as u8,
    ]
}

pub fn read_be16(b0: u8, b1: u8) -> (r: u16)
    ensures
        r == be16(b0, b1),
{
    ((b0 as u16) << 8u16) | (b1 as u16)
}

pub fn read_be32(b0: u8, b1: u8, b2: u8, b3: u8) -> (r: u32)
    ensures
        r == be32(b0, b1, b2, b3),
{
    ((b0 as u32) << 24u32) | ((b1 as u32) << 16u32) | ((b2 as u32) << 8u32) | (b3 as u32)
}

pub fn u16_to_be(x: u16) -> (r: [u8; 2])
    ensures
        r@ == u16_be(x),
{
    let r = [(x >> 8u16) as u8, x as u8];
    proof {
        assert(r@ =~= u16_be(x));
    }
    r
}

pub fn u32_to_be(x: u32) -> (r: [u8; 4])
    ensures
        r@ == u32_be(x),
{
    let r = [(x >> 24u32) as u8, (x >> 16u32) as u8, (x >> 8u32) as u8, x as u8];
    proof {
        assert(r@ =~= u32_be(x));
    }
    r
}

/// Writing a 16-bit value and reading it back gives the value.
/// Xoring the same byte twice gives the byte back.
pub proof fn lemma_xor_twice(a: u8, k: u8)
    ensures
        (a ^ k) ^ k == a,
{
    assert((a ^ k) ^ k == a) by (bit_vector);
}

pub proof fn lemma_be16_round_trip(x: u16)
    ensures
        be16(u16_be(x)[0], u16_be(x)[1]) == x,
{
    let b0 = (x >> 8u16) as u8;
    let b1 = x as u8;
    assert((((b0 as u16) << 8u16) | (b1 as u16)) == x) by (bit_vector)
        requires
            b0 == (x >> 8u16) as u8,
            b1 == x as u8,
    ;
}

/// Reading two bytes and writing the value back gives the bytes.
pub proof fn lemma_be16_bytes(b0: u8, b1: u8)
    ensures
        u16_be(be16(b0, b1)) == seq![b0, b1],
{
    let x = be16(b0, b1);
    assert(((x >> 8u16) as u8) == b0 && (x as u8) == b1) by (bit_vector)
        requires
            x == (((b0 as u16) << 8u16) | (b1 as u16)),
    ;
    assert(u16_be(x) =~= seq![b0, b1]);
}

/// Writing a 32-bit value and reading it back gives the value.
pub proof fn lemma_be32_round_trip(x: u32)
    ensures
        be32(u32_be(x)[0], u32_be(x)[1], u32_be(x)[2], u32_be(x)[3]) == x,
{
    let b0 = (x >> 24u32) as u8;
    let b1 = (x >> 16u32) as u8;
    let b2 = (x >> 8u32) as u8;
    let b3 = x as u8;
    assert((((b0 as u32) << 24u32) | ((b1 as u32) << 16u32) | ((b2 as u32) << 8u32) | (b3 as u32))
        == x) by (bit_vector)
        requires
            b0 == (x >> 24u32) as u8,
            b1 == (x >> 16u32) as u8,
            b2 == (x >> 8u32) as u8,
            b3 == x as u8,
    ;
}

/// Reading four bytes and writing the value back gives the bytes.
pub proof fn lemma_be32_bytes(b0: u8, b1: u8, b2: u8, b3: u8)
    ensures
        u32_be(be32(b0, b1, b2, b3)) == seq![b0, b1, b2, b3],
{
    let x = be32(b0, b1, b2, b3);
    assert(((x >> 24u32) as u8) == b0 && ((x >> 16u32) as u8) == b1 && ((x >> 8u32) as u8) == b2
        && (x as u8) == b3) by (bit_vector)
        requires
            x == (((b0 as u32) << 24u32) | ((b1 as u32) << 16u32) | ((b2 as u32) << 8u32) | (
            b3 as u32)),
    ;
    assert(u32_be(x) =~= seq![b0, b1, b2, b3]);
}

} // verus!
