//! Big-endian packing of 16-, 32- and 48-bit unsigned integers.
//!
//! Each width has a spec function giving the byte sequence of a value, a
//! spec function joining bytes back into a value, verified executable
//! writers and readers, and a proof that joining the bytes of a value
//! yields the value back.

use vstd::prelude::*;

verus! {

/// The two big-endian bytes of a 16-bit integer, most significant first.
pub open spec fn be16_bytes(x: u16) -> Seq<u8> {
    seq![(x >> 8) as u8, x as u8]
}

/// The 16-bit integer whose big-endian bytes are `b0 b1`.
pub open spec fn be16_join(b0: u8, b1: u8) -> u16 {
    ((b0 as u16) << 8) | (b1 as u16)
}

/// The four big-endian bytes of a 32-bit integer, most significant first.
pub open spec fn be32_bytes(x: u32) -> Seq<u8> {
    seq![(x >> 24) as u8, (x >> 16) as u8, (x >> 8) as u8, x as u8]
}

/// The 32-bit integer whose big-endian bytes are `b0 b1 b2 b3`.
pub open spec fn be32_join(b0: u8, b1: u8, b2: u8, b3: u8) -> u32 {
    ((b0 as u32) << 24) | ((b1 as u32) << 16) | ((b2 as u32) << 8) | (b3 as u32)
}

/// The six big-endian bytes of the low 48 bits of a 64-bit integer,
/// most significant first.
pub open spec fn be48_bytes(x: u64) -> Seq<u8> {
    seq![
        (x >> 40) as u8,
        (x >> 32) as u8,
        (x >> 24) as u8,
        (x >> 16) as u8,
        (x >> 8) as u8,
        x as u8,
    ]
}

/// The 64-bit integer (below 2^48) whose big-endian bytes are `b0 .. b5`.
pub open spec fn be48_join(b0: u8, b1: u8, b2: u8, b3: u8, b4: u8, b5: u8) -> u64 {
    ((b0 as u64) << 40) | ((b1 as u64) << 32) | ((b2 as u64) << 24) | ((b3 as u64) << 16) | (
    (b4 as u64) << 8) | (b5 as u64)
}

/// Joining the two big-endian bytes of a 16-bit integer gives it back.
pub proof fn lemma_be16_round_trip(x: u16)
    ensures
        be16_join(be16_bytes(x)[0], be16_bytes(x)[1]) == x,
{
    assert(((((x >> 8) as u8) as u16) << 8) | ((x as u8) as u16) == x) by (bit_vector);
}

/// Joining the four big-endian bytes of a 32-bit integer gives it back.
pub proof fn lemma_be32_round_trip(x: u32)
    ensures
        be32_join(be32_bytes(x)[0], be32_bytes(x)[1], be32_bytes(x)[2], be32_bytes(x)[3]) == x,
{
    assert(((((x >> 24) as u8) as u32) << 24) | ((((x >> 16) as u8) as u32) << 16) | ((((x
        >> 8) as u8) as u32) << 8) | ((x as u8) as u32) == x) by (bit_vector);
}

/// Joining the six big-endian bytes of the low 48 bits of a 64-bit integer
/// gives back the low 48 bits.
pub proof fn lemma_be48_round_trip(x: u64)
    ensures
        be48_join(
            be48_bytes(x)[0],
            be48_bytes(x)[1],
            be48_bytes(x)[2],
            be48_bytes(x)[3],
            be48_bytes(x)[4],
            be48_bytes(x)[5],
        ) == x & 0xffff_ffff_ffff,
        x < 0x1_0000_0000_0000 ==> be48_join(
            be48_bytes(x)[0],
            be48_bytes(x)[1],
            be48_bytes(x)[2],
            be48_bytes(x)[3],
            be48_bytes(x)[4],
            be48_bytes(x)[5],
        ) == x,
{
    assert(((((x >> 40) as u8) as u64) << 40) | ((((x >> 32) as u8) as u64) << 32) | ((((x
        >> 24) as u8) as u64) << 24) | ((((x >> 16) as u8) as u64) << 16) | ((((x
        >> 8) as u8) as u64) << 8) | ((x as u8) as u64) == x & 0xffff_ffff_ffff) by (bit_vector);
    assert(x < 0x1_0000_0000_0000 ==> x & 0xffff_ffff_ffff == x) by (bit_vector);
}

/// Appends the two big-endian bytes of `x` to `buf`.
pub fn push_be16(buf: &mut Vec<u8>, x: u16)
    ensures
        final(buf)@ == old(buf)@ + be16_bytes(x),
{
    buf.push((x >> 8) as u8);
    buf.push(x as u8);
    proof {
        assert(buf@ =~= old(buf)@ + be16_bytes(x));
    }
}

/// Appends the four big-endian bytes of `x` to `buf`.
pub fn push_be32(buf: &mut Vec<u8>, x: u32)
    ensures
        final(buf)@ == old(buf)@ + be32_bytes(x),
{
    buf.push((x >> 24) as u8);
    buf.push((x >> 16) as u8);
    buf.push((x >> 8) as u8);
    buf.push(x as u8);
    proof {
        assert(buf@ =~= old(buf)@ + be32_bytes(x));
    }
}

/// Appends the six big-endian bytes of the low 48 bits of `x` to `buf`.
pub fn push_be48(buf: &mut Vec<u8>, x: u64)
    ensures
        final(buf)@ == old(buf)@ + be48_bytes(x),
{
    buf.push((x >> 40) as u8);
    buf.push((x >> 32) as u8);
    buf.push((x >> 24) as u8);
    buf.push((x >> 16) as u8);
    buf.push((x >> 8) as u8);
    buf.push(x as u8);
    proof {
        assert(buf@ =~= old(buf)@ + be48_bytes(x));
    }
}

/// Reads a 16-bit integer from two big-endian bytes.
pub fn read_be16(b0: u8, b1: u8) -> (x: u16)
    ensures
        x == be16_join(b0, b1),
{
    ((b0 as u16) << 8) | (b1 as u16)
}

/// Reads a 32-bit integer from four big-endian bytes.
pub fn read_be32(b0: u8, b1: u8, b2: u8, b3: u8) -> (x: u32)
    ensures
        x == be32_join(b0, b1, b2, b3),
{
    ((b0 as u32) << 24) | ((b1 as u32) << 16) | ((b2 as u32) << 8) | (b3 as u32)
}

/// Reads a 48-bit integer from six big-endian bytes into a 64-bit value.
pub fn read_be48(b0: u8, b1: u8, b2: u8, b3: u8, b4: u8, b5: u8) -> (x: u64)
    ensures
        x == be48_join(b0, b1, b2, b3, b4, b5),
{
    ((b0 as u64) << 40) | ((b1 as u64) << 32) | ((b2 as u64) << 24) | ((b3 as u64) << 16) | ((
    b4 as u64) << 8) | (b5 as u64)
}

} // verus!
