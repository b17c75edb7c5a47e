//! Fixed-width integers as bytes.
use vstd::prelude::*;

verus! {

/// The two bytes of `x`, least significant first.
pub open spec fn le16(x: u16) -> Seq<u8> {
    seq![(x % 256) as u8, (x / 256) as u8]
}

/// The eight bytes of `x`, least significant first.
pub open spec fn le64(x: u64) -> Seq<u8> {
    seq![
        (x % 256) as u8,
        (x / 0x100 % 256) as u8,
        (x / 0x1_0000 % 256) as u8,
        (x / 0x100_0000 % 256) as u8,
        (x / 0x1_0000_0000 % 256) as u8,
        (x / 0x100_0000_0000 % 256) as u8,
        (x / 0x1_0000_0000_0000 % 256) as u8,
        (x / 0x100_0000_0000_0000) as u8,
    ]
}

/// The four bytes of `x`, most significant first.
pub open spec fn be32(x: u32) -> Seq<u8> {
    seq![
        (x / 0x100_0000) as u8,
        (x / 0x1_0000 % 256) as u8,
        (x / 0x100 % 256) as u8,
        (x % 256) as u8,
    ]
}

/// The number whose bytes, most significant first, are the four bytes of `b`.
pub open spec fn from_be32(b: Seq<u8>) -> int {
    b[0] * 0x100_0000 + b[1] * 0x1_0000 + b[2] * 0x100 + b[3]
}

/// Little-endian bytes of a 16-bit number.
pub fn u16_to_le(x: u16) -> (b: [u8; 2])
    ensures
        b@ == le16(x),
{
    let b: [u8; 2] = [(x % 256) as u8, (x / 256) as u8];
    assert(b@ =~= le16(x));
    b
}

/// Little-endian bytes of a 64-bit number.
pub fn u64_to_le(x: u64) -> (b: [u8; 8])
    ensures
        b@ == le64(x),
{
    let b: [u8; 8] = [
        (x % 256) as u8,
        (x / 0x100 % 256) as u8,
        (x / 0x1_0000 % 256) as u8,
        (x / 0x100_0000 % 256) as u8,
        (x / 0x1_0000_0000 % 256) as u8,
        (x / 0x100_0000_0000 % 256) as u8,
        (x / 0x1_0000_0000_0000 % 256) as u8,
        (x / 0x100_0000_0000_0000) as u8,
    ];
    assert(b@ =~= le64(x));
    b
}

/// Big-endian bytes of a 32-bit number.
pub fn u32_to_be(x: u32) -> (b: [u8; 4])
    ensures
        b@ == be32(x),
{
    let b: [u8; 4] = [
        (x / 0x100_0000) as u8,
        (x / 0x1_0000 % 256) as u8,
        (x / 0x100 % 256) as u8,
        (x % 256) as u8,
    ];
    assert(b@ =~= be32(x));
    b
}

/// The 32-bit number with the given big-endian bytes.
pub fn u32_from_be(b: &[u8; 4]) -> (x: u32)
    ensures
        x == from_be32(b@),
{
    b[0] as u32 * 0x100_0000 + b[1] as u32 * 0x1_0000 + b[2] as u32 * 0x100 + b[3] as u32
}

/// Reading back the big-endian bytes of a number gives that number.
pub proof fn law_be32_reads_back(x: u32)
    ensures
        from_be32(be32(x)) == x,
{
}

/// Different 16-bit numbers have different bytes.
pub proof fn law_le16_injective(x: u16, y: u16)
    requires
        le16(x) == le16(y),
    ensures
        x == y,
{
    assert(le16(x)[0] == le16(y)[0] && le16(x)[1] == le16(y)[1]);
}

/// A 64-bit number is the sum of its bytes, each times its weight.
proof fn lemma_le64_sum(x: u64)
    ensures
        x == le64(x)[0] + le64(x)[1] * 0x100 + le64(x)[2] * 0x1_0000 + le64(x)[3] * 0x100_0000
            + le64(x)[4] * 0x1_0000_0000 + le64(x)[5] * 0x100_0000_0000 + le64(x)[6]
            * 0x1_0000_0000_0000 + le64(x)[7] * 0x100_0000_0000_0000,
{
    let x1 = x / 0x100;
    let x2 = x1 / 0x100;
    let x3 = x2 / 0x100;
    let x4 = x3 / 0x100;
    let x5 = x4 / 0x100;
    let x6 = x5 / 0x100;
    assert(x2 == x / 0x1_0000 && x3 == x / 0x100_0000 && x4 == x / 0x1_0000_0000);
    assert(x5 == x / 0x100_0000_0000 && x6 == x / 0x1_0000_0000_0000);
    assert(x6 / 0x100 == x / 0x100_0000_0000_0000);
}

/// Different 64-bit numbers have different bytes.
pub proof fn law_le64_injective(x: u64, y: u64)
    requires
        le64(x) == le64(y),
    ensures
        x == y,
{
    lemma_le64_sum(x);
    lemma_le64_sum(y);
}

/// A number is the sum of its bytes, each times the weight of its position: the least
/// significant byte first in the two little-endian layouts, the most significant in the other.
pub proof fn law_bytes_have_their_weights(a: u16, b: u64, c: u32, d: Seq<u8>)
    ensures
        le16(a).len() == 2,
        le64(b).len() == 8,
        be32(c).len() == 4,
        a == le16(a)[0] + le16(a)[1] * 0x100,
        b == le64(b)[0] + le64(b)[1] * 0x100 + le64(b)[2] * 0x1_0000 + le64(b)[3] * 0x100_0000
            + le64(b)[4] * 0x1_0000_0000 + le64(b)[5] * 0x100_0000_0000 + le64(b)[6]
            * 0x1_0000_0000_0000 + le64(b)[7] * 0x100_0000_0000_0000,
        c == be32(c)[0] * 0x100_0000 + be32(c)[1] * 0x1_0000 + be32(c)[2] * 0x100 + be32(c)[3],
        from_be32(d) == d[0] * 0x100_0000 + d[1] * 0x1_0000 + d[2] * 0x100 + d[3],
{
    lemma_le64_sum(b);
}

} // verus!
