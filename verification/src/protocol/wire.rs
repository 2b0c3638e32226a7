//! Big-endian integers, as the header and the publish payload carry them.

use vstd::prelude::*;

verus! {

/// The two bytes of `v`, most significant first.
pub open spec fn be_u16(v: u16) -> Seq<u8> {
    seq![(v / 0x100) as u8, (v % 0x100) as u8]
}

/// The four bytes of `v`, most significant first.
pub open spec fn be_u32(v: u32) -> Seq<u8> {
    seq![
        (v / 0x100_0000) as u8,
        (v / 0x1_0000 % 0x100) as u8,
        (v / 0x100 % 0x100) as u8,
        (v % 0x100) as u8,
    ]
}

/// The eight bytes of `v`, most significant first.
pub open spec fn be_u64(v: u64) -> Seq<u8> {
    seq![
        (v / 0x100_0000_0000_0000) as u8,
        (v / 0x1_0000_0000_0000 % 0x100) as u8,
        (v / 0x100_0000_0000 % 0x100) as u8,
        (v / 0x1_0000_0000 % 0x100) as u8,
        (v / 0x100_0000 % 0x100) as u8,
        (v / 0x1_0000 % 0x100) as u8,
        (v / 0x100 % 0x100) as u8,
        (v % 0x100) as u8,
    ]
}

/// The number whose big-endian bytes are `b`: each byte weighs 256 times the
/// one after it.
pub open spec fn be_value(b: Seq<u8>) -> nat
    decreases b.len(),
{
    if b.len() == 0 {
        0
    } else {
        be_value(b.drop_last()) * 0x100 + b.last() as nat
    }
}

/// The value of two bytes.
pub proof fn lemma_be_value_2(b: Seq<u8>)
    requires
        b.len() == 2,
    ensures
        be_value(b) == b[0] * 0x100 + b[1],
{
    reveal_with_fuel(be_value, 3);
}

/// The value of four bytes.
pub proof fn lemma_be_value_4(b: Seq<u8>)
    requires
        b.len() == 4,
    ensures
        be_value(b) == b[0] * 0x100_0000 + b[1] * 0x1_0000 + b[2] * 0x100 + b[3],
{
    lemma_be_value_2(b.subrange(0, 2));
    assert(b.drop_last().drop_last() =~= b.subrange(0, 2));
    reveal_with_fuel(be_value, 2);
}

/// The value of eight bytes.
pub proof fn lemma_be_value_8(b: Seq<u8>)
    requires
        b.len() == 8,
    ensures
        be_value(b) == b[0] * 0x100_0000_0000_0000 + b[1] * 0x1_0000_0000_0000 + b[2]
            * 0x100_0000_0000 + b[3] * 0x1_0000_0000 + b[4] * 0x100_0000 + b[5] * 0x1_0000 + b[6]
            * 0x100 + b[7],
{
    let hi = b.subrange(0, 4);
    lemma_be_value_4(hi);
    let b7 = b.drop_last();
    let b6 = b7.drop_last();
    let b5 = b6.drop_last();
    assert(b5.drop_last() =~= hi);
    reveal_with_fuel(be_value, 2);
    assert(be_value(b5) == be_value(hi) * 0x100 + b[4]);
    assert(be_value(b6) == be_value(b5) * 0x100 + b[5]);
    assert(be_value(b7) == be_value(b6) * 0x100 + b[6]);
    assert(be_value(b) == be_value(b7) * 0x100 + b[7]);
}

/// Reading back what was written gives the number again.
pub proof fn lemma_be_round_trip(a: u16, b: u32, c: u64)
    ensures
        be_value(be_u16(a)) == a,
        be_value(be_u32(b)) == b,
        be_value(be_u64(c)) == c,
{
    lemma_be_value_2(be_u16(a));
    lemma_be_value_4(be_u32(b));
    lemma_be_value_8(be_u64(c));
    assert((b / 0x100_0000) * 0x100_0000 + (b / 0x1_0000 % 0x100) * 0x1_0000 + (b / 0x100 % 0x100)
        * 0x100 + b % 0x100 == b && b / 0x100_0000 < 0x100) by (bit_vector);
    assert((c / 0x100_0000_0000_0000) * 0x100_0000_0000_0000 + (c / 0x1_0000_0000_0000 % 0x100)
        * 0x1_0000_0000_0000 + (c / 0x100_0000_0000 % 0x100) * 0x100_0000_0000 + (c
        / 0x1_0000_0000 % 0x100) * 0x1_0000_0000 + (c / 0x100_0000 % 0x100) * 0x100_0000 + (c
        / 0x1_0000 % 0x100) * 0x1_0000 + (c / 0x100 % 0x100) * 0x100 + c % 0x100 == c && c
        / 0x100_0000_0000_0000 < 0x100) by (bit_vector);
}

proof fn lemma_split_u32(b0: u8, b1: u8, b2: u8, b3: u8, v: u32)
    by (bit_vector)
    requires
        v == b0 * 0x100_0000 + b1 * 0x1_0000 + b2 * 0x100 + b3,
    ensures
        v / 0x100_0000 == b0,
        v / 0x1_0000 % 0x100 == b1,
        v / 0x100 % 0x100 == b2,
        v % 0x100 == b3,
{
}

proof fn lemma_split_u64(b0: u8, b1: u8, b2: u8, b3: u8, b4: u8, b5: u8, b6: u8, b7: u8, v: u64)
    by (bit_vector)
    requires
        v == b0 * 0x100_0000_0000_0000 + b1 * 0x1_0000_0000_0000 + b2 * 0x100_0000_0000 + b3
            * 0x1_0000_0000 + b4 * 0x100_0000 + b5 * 0x1_0000 + b6 * 0x100 + b7,
    ensures
        v / 0x100_0000_0000_0000 == b0,
        v / 0x1_0000_0000_0000 % 0x100 == b1,
        v / 0x100_0000_0000 % 0x100 == b2,
        v / 0x1_0000_0000 % 0x100 == b3,
        v / 0x100_0000 % 0x100 == b4,
        v / 0x1_0000 % 0x100 == b5,
        v / 0x100 % 0x100 == b6,
        v % 0x100 == b7,
{
}

/// Two bytes hold a number that fits in 16 bits, and writing it gives the
/// bytes again.
pub proof fn lemma_be_u16_of_value(b: Seq<u8>)
    requires
        b.len() == 2,
    ensures
        be_value(b) <= u16::MAX,
        be_u16(be_value(b) as u16) == b,
{
    lemma_be_value_2(b);
    assert(be_u16(be_value(b) as u16) =~= b);
}

/// Four bytes hold a number that fits in 32 bits, and writing it gives the
/// bytes again.
pub proof fn lemma_be_u32_of_value(b: Seq<u8>)
    requires
        b.len() == 4,
    ensures
        be_value(b) <= u32::MAX,
        be_u32(be_value(b) as u32) == b,
{
    lemma_be_value_4(b);
    lemma_split_u32(b[0], b[1], b[2], b[3], be_value(b) as u32);
    assert(be_u32(be_value(b) as u32) =~= b);
}

/// Eight bytes hold a number that fits in 64 bits, and writing it gives the
/// bytes again.
pub proof fn lemma_be_u64_of_value(b: Seq<u8>)
    requires
        b.len() == 8,
    ensures
        be_value(b) <= u64::MAX,
        be_u64(be_value(b) as u64) == b,
{
    lemma_be_value_8(b);
    lemma_split_u64(b[0], b[1], b[2], b[3], b[4], b[5], b[6], b[7], be_value(b) as u64);
    assert(be_u64(be_value(b) as u64) =~= b);
}

/// Writes `v` as two bytes, most significant first.
pub fn u16_to_be(v: u16) -> (b: [u8; 2])
    ensures
        b@ == be_u16(v),
{
    let b = [(v / 0x100) as u8, (v % 0x100) as u8];
    assert(b@ =~= be_u16(v));
    b
}

/// Writes `v` as four bytes, most significant first.
pub fn u32_to_be(v: u32) -> (b: [u8; 4])
    ensures
        b@ == be_u32(v),
{
    let b = [
        (v / 0x100_0000) as u8,
        (v / 0x1_0000 % 0x100) as u8,
        (v / 0x100 % 0x100) as u8,
        (v % 0x100) as u8,
    ];
    assert(b@ =~= be_u32(v));
    b
}

/// Writes `v` as eight bytes, most significant first.
pub fn u64_to_be(v: u64) -> (b: [u8; 8])
    ensures
        b@ == be_u64(v),
{
    let b = [
        (v / 0x100_0000_0000_0000) as u8,
        (v / 0x1_0000_0000_0000 % 0x100) as u8,
        (v / 0x100_0000_0000 % 0x100) as u8,
        (v / 0x1_0000_0000 % 0x100) as u8,
        (v / 0x100_0000 % 0x100) as u8,
        (v / 0x1_0000 % 0x100) as u8,
        (v / 0x100 % 0x100) as u8,
        (v % 0x100) as u8,
    ];
    assert(b@ =~= be_u64(v));
    b
}

/// Reads two bytes, most significant first.
pub fn u16_from_be(b: [u8; 2]) -> (v: u16)
    ensures
        v == be_value(b@),
        be_u16(v) == b@,
{
    let v = b[0] as u16 * 0x100 + b[1] as u16;
    proof {
        lemma_be_value_2(b@);
        lemma_be_u16_of_value(b@);
    }
    v
}

/// Reads four bytes, most significant first.
pub fn u32_from_be(b: [u8; 4]) -> (v: u32)
    ensures
        v == be_value(b@),
        be_u32(v) == b@,
{
    let v = b[0] as u32 * 0x100_0000 + b[1] as u32 * 0x1_0000 + b[2] as u32 * 0x100 + b[3] as u32;
    proof {
        lemma_be_value_4(b@);
        lemma_be_u32_of_value(b@);
    }
    v
}

/// Reads eight bytes, most significant first.
pub fn u64_from_be(b: [u8; 8]) -> (v: u64)
    ensures
        v == be_value(b@),
        be_u64(v) == b@,
{
    let v = b[0] as u64 * 0x100_0000_0000_0000 + b[1] as u64 * 0x1_0000_0000_0000 + b[2] as u64
        * 0x100_0000_0000 + b[3] as u64 * 0x1_0000_0000 + b[4] as u64 * 0x100_0000 + b[5] as u64
        * 0x1_0000 + b[6] as u64 * 0x100 + b[7] as u64;
    proof {
        lemma_be_value_8(b@);
        lemma_be_u64_of_value(b@);
    }
    v
}

} // verus!
