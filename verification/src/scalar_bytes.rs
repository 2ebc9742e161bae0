//! Byte representations of the scalar values the wire carries.
//!
//! The leading call identifier and the schema frame length travel in
//! big-endian form; payload scalars travel in the little-endian form that
//! the supported hosts use in memory. Signed values are carried through
//! their two's-complement bit pattern.

use vstd::prelude::*;

verus! {

/// The two's-complement bit pattern of a signed 32-bit value.
pub open spec fn spec_i32_bits(x: i32) -> u32 {
    if x >= 0 {
        x as u32
    } else {
        (x + 0x1_0000_0000int) as u32
    }
}

/// The signed 32-bit value whose two's-complement bit pattern is `u`.
pub open spec fn spec_i32_from_bits(u: u32) -> i32 {
    if u <= 0x7fff_ffffu32 {
        u as i32
    } else {
        (u - 0x1_0000_0000int) as i32
    }
}

pub proof fn lemma_i32_bits_round_trip()
    ensures
        forall|x: i32| #[trigger] spec_i32_from_bits(spec_i32_bits(x)) == x,
        forall|u: u32| #[trigger] spec_i32_bits(spec_i32_from_bits(u)) == u,
{
}

/// The two's-complement bit pattern of a signed 32-bit value.
pub fn i32_bits(x: i32) -> (r: u32)
    ensures
        r == spec_i32_bits(x),
{
    if x >= 0 {
        x as u32
    } else {
        ((x as i64) + 0x1_0000_0000i64) as u32
    }
}

/// The signed 32-bit value whose two's-complement bit pattern is `u`.
pub fn i32_from_bits(u: u32) -> (r: i32)
    ensures
        r == spec_i32_from_bits(u),
{
    if u <= 0x7fff_ffffu32 {
        u as i32
    } else {
        ((u as i64) - 0x1_0000_0000i64) as i32
    }
}

/// The four big-endian bytes of an unsigned 32-bit value.
pub open spec fn spec_u32_to_be_bytes(x: u32) -> Seq<u8> {
    seq![
        ((x >> 24) & 0xff) as u8,
        ((x >> 16) & 0xff) as u8,
        ((x >> 8) & 0xff) as u8,
        (x & 0xff) as u8,
    ]
}

/// The unsigned 32-bit value read from four big-endian bytes.
pub open spec fn spec_u32_from_be_bytes(s: Seq<u8>) -> u32
    recommends
        s.len() == 4,
{
    ((s[0] as u32) << 24) | ((s[1] as u32) << 16) | ((s[2] as u32) << 8) | (s[3] as u32)
}

pub proof fn lemma_u32_be_bytes_round_trip()
    ensures
        forall|x: u32|
            {
                &&& (#[trigger] spec_u32_to_be_bytes(x)).len() == 4
                &&& spec_u32_from_be_bytes(spec_u32_to_be_bytes(x)) == x
            },
        forall|s: Seq<u8>|
            s.len() == 4 ==> #[trigger] spec_u32_to_be_bytes(spec_u32_from_be_bytes(s)) == s,
{
    assert forall|x: u32|
        {
            &&& (#[trigger] spec_u32_to_be_bytes(x)).len() == 4
            &&& spec_u32_from_be_bytes(spec_u32_to_be_bytes(x)) == x
        } by {
        assert((x >> 24) & 0xff < 256 && (x >> 16) & 0xff < 256 && (x >> 8) & 0xff < 256 && x & 0xff
            < 256) by (bit_vector);
        assert(((x >> 24) & 0xff) << 24 | ((x >> 16) & 0xff) << 16 | ((x >> 8) & 0xff) << 8 | (x
            & 0xff) == x) by (bit_vector);
    }
    assert forall|s: Seq<u8>| s.len() == 4 implies #[trigger] spec_u32_to_be_bytes(
        spec_u32_from_be_bytes(s),
    ) == s by {
        let x = spec_u32_from_be_bytes(s);
        let s0 = s[0] as u32;
        let s1 = s[1] as u32;
        let s2 = s[2] as u32;
        let s3 = s[3] as u32;
        assert(((x == (s0 << 24) | (s1 << 16) | (s2 << 8) | s3) && s0 < 256 && s1 < 256 && s2 < 256
            && s3 < 256) ==> (s0 == (x >> 24) & 0xff && s1 == (x >> 16) & 0xff && s2 == (x >> 8)
            & 0xff && s3 == x & 0xff)) by (bit_vector);
        assert(spec_u32_to_be_bytes(spec_u32_from_be_bytes(s)) =~= s);
    }
}

/// Appends the four big-endian bytes of `x` to `out`.
pub fn push_u32_be(out: &mut Vec<u8>, x: u32)
    ensures
        final(out)@ == old(out)@ + spec_u32_to_be_bytes(x),
{
    proof {
        assert((x >> 24) & 0xff < 256 && (x >> 16) & 0xff < 256 && (x >> 8) & 0xff < 256 && x & 0xff
            < 256) by (bit_vector);
    }
    out.push(((x >> 24) & 0xff) as u8);
    out.push(((x >> 16) & 0xff) as u8);
    out.push(((x >> 8) & 0xff) as u8);
    out.push((x & 0xff) as u8);
    assert(final(out)@ =~= old(out)@ + spec_u32_to_be_bytes(x));
}

/// Reads an unsigned 32-bit value from four big-endian bytes starting at
/// `at` in `s`.
pub fn read_u32_be(s: &[u8], at: usize) -> (r: u32)
    requires
        at + 4 <= s@.len(),
    ensures
        r == spec_u32_from_be_bytes(s@.subrange(at as int, at + 4)),
{
    let b0 = s[at];
    let b1 = s[at + 1];
    let b2 = s[at + 2];
    let b3 = s[at + 3];
    let ghost sub = s@.subrange(at as int, at + 4);
    assert(sub[0] == b0 && sub[1] == b1 && sub[2] == b2 && sub[3] == b3);
    ((b0 as u32) << 24) | ((b1 as u32) << 16) | ((b2 as u32) << 8) | (b3 as u32)
}

/// Appends the four big-endian bytes of the bit pattern of `x` to `out`.
pub fn push_i32_be(out: &mut Vec<u8>, x: i32)
    ensures
        final(out)@ == old(out)@ + spec_u32_to_be_bytes(spec_i32_bits(x)),
{
    let bits = i32_bits(x);
    push_u32_be(out, bits);
}

/// Reads a signed 32-bit value from four big-endian bytes starting at `at`
/// in `s`.
pub fn read_i32_be(s: &[u8], at: usize) -> (r: i32)
    requires
        at + 4 <= s@.len(),
    ensures
        r == spec_i32_from_bits(spec_u32_from_be_bytes(s@.subrange(at as int, at + 4))),
{
    let bits = read_u32_be(s, at);
    i32_from_bits(bits)
}

/// The four little-endian bytes of an unsigned 32-bit value: the in-memory
/// representation of the scalar on the supported hosts.
pub open spec fn spec_u32_to_raw_bytes(x: u32) -> Seq<u8> {
    seq![
        (x & 0xff) as u8,
        ((x >> 8) & 0xff) as u8,
        ((x >> 16) & 0xff) as u8,
        ((x >> 24) & 0xff) as u8,
    ]
}

/// The unsigned 32-bit value read from four little-endian bytes.
pub open spec fn spec_u32_from_raw_bytes(s: Seq<u8>) -> u32
    recommends
        s.len() == 4,
{
    (s[0] as u32) | ((s[1] as u32) << 8) | ((s[2] as u32) << 16) | ((s[3] as u32) << 24)
}

pub proof fn lemma_u32_raw_bytes_round_trip()
    ensures
        forall|x: u32|
            {
                &&& (#[trigger] spec_u32_to_raw_bytes(x)).len() == 4
                &&& spec_u32_from_raw_bytes(spec_u32_to_raw_bytes(x)) == x
            },
        forall|s: Seq<u8>|
            s.len() == 4 ==> #[trigger] spec_u32_to_raw_bytes(spec_u32_from_raw_bytes(s)) == s,
{
    assert forall|x: u32|
        {
            &&& (#[trigger] spec_u32_to_raw_bytes(x)).len() == 4
            &&& spec_u32_from_raw_bytes(spec_u32_to_raw_bytes(x)) == x
        } by {
        assert((x >> 24) & 0xff < 256 && (x >> 16) & 0xff < 256 && (x >> 8) & 0xff < 256 && x & 0xff
            < 256) by (bit_vector);
        assert((x & 0xff) | ((x >> 8) & 0xff) << 8 | ((x >> 16) & 0xff) << 16 | ((x >> 24) & 0xff)
            << 24 == x) by (bit_vector);
    }
    assert forall|s: Seq<u8>| s.len() == 4 implies #[trigger] spec_u32_to_raw_bytes(
        spec_u32_from_raw_bytes(s),
    ) == s by {
        let x = spec_u32_from_raw_bytes(s);
        let s0 = s[0] as u32;
        let s1 = s[1] as u32;
        let s2 = s[2] as u32;
        let s3 = s[3] as u32;
        assert(((x == s0 | (s1 << 8) | (s2 << 16) | (s3 << 24)) && s0 < 256 && s1 < 256 && s2 < 256
            && s3 < 256) ==> (s0 == x & 0xff && s1 == (x >> 8) & 0xff && s2 == (x >> 16) & 0xff
            && s3 == (x >> 24) & 0xff)) by (bit_vector);
        assert(spec_u32_to_raw_bytes(spec_u32_from_raw_bytes(s)) =~= s);
    }
}

/// Appends the four little-endian bytes of `x` to `out`.
pub fn push_u32_raw(out: &mut Vec<u8>, x: u32)
    ensures
        final(out)@ == old(out)@ + spec_u32_to_raw_bytes(x),
{
    proof {
        assert((x >> 24) & 0xff < 256 && (x >> 16) & 0xff < 256 && (x >> 8) & 0xff < 256 && x & 0xff
            < 256) by (bit_vector);
    }
    out.push((x & 0xff) as u8);
    out.push(((x >> 8) & 0xff) as u8);
    out.push(((x >> 16) & 0xff) as u8);
    out.push(((x >> 24) & 0xff) as u8);
    assert(final(out)@ =~= old(out)@ + spec_u32_to_raw_bytes(x));
}

/// Reads an unsigned 32-bit value from four little-endian bytes starting
/// at `at` in `s`.
pub fn read_u32_raw(s: &[u8], at: usize) -> (r: u32)
    requires
        at + 4 <= s@.len(),
    ensures
        r == spec_u32_from_raw_bytes(s@.subrange(at as int, at + 4)),
{
    let b0 = s[at];
    let b1 = s[at + 1];
    let b2 = s[at + 2];
    let b3 = s[at + 3];
    let ghost sub = s@.subrange(at as int, at + 4);
    assert(sub[0] == b0 && sub[1] == b1 && sub[2] == b2 && sub[3] == b3);
    (b0 as u32) | ((b1 as u32) << 8) | ((b2 as u32) << 16) | ((b3 as u32) << 24)
}

} // verus!
