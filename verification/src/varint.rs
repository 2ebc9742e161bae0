//! Base-128 variable-length integers, the scalar encoding of the
//! schema-based wire format.
//!
//! Encoding is canonical: seven value bits per byte, least significant
//! group first, a set high bit on every byte but the last, and no
//! trailing zero group. Decoding accepts exactly the canonical encodings.

use vstd::prelude::*;

verus! {

/// The canonical base-128 encoding of a value.
pub open spec fn spec_varint(n: u64) -> Seq<u8>
    decreases n,
{
    if n < 128 {
        seq![n as u8]
    } else {
        seq![(n % 128 + 128) as u8] + spec_varint(n / 128)
    }
}

/// What a canonical base-128 prefix of `s` decodes to, with the number of
/// bytes it occupies; `None` when no canonical encoding starts `s`.
pub open spec fn spec_varint_decode(s: Seq<u8>) -> Option<(u64, int)>
    decreases s.len(),
{
    if s.len() == 0 {
        None
    } else if s[0] < 128 {
        Some((s[0] as u64, 1))
    } else {
        match spec_varint_decode(s.skip(1)) {
            Option::None => None,
            Option::Some((v, k)) => if 1 <= v && v <= (u64::MAX - ((s[0] - 128) as u64)) / 128 {
                Some(((((s[0] - 128) as u64) + 128 * v) as u64, k + 1))
            } else {
                None
            },
        }
    }
}

/// A canonical encoding never takes more than ten bytes: nine divisions
/// by 128 take any 64-bit value below 128.
pub proof fn lemma_varint_len(n: u64)
    ensures
        1 <= spec_varint(n).len() <= 10,
{
    let n1 = n / 128;
    let n2 = n1 / 128;
    let n3 = n2 / 128;
    let n4 = n3 / 128;
    let n5 = n4 / 128;
    let n6 = n5 / 128;
    let n7 = n6 / 128;
    let n8 = n7 / 128;
    let n9 = n8 / 128;
    vstd::arithmetic::div_mod::lemma_div_is_ordered(n as int, u64::MAX as int, 128);
    vstd::arithmetic::div_mod::lemma_div_is_ordered(n1 as int, u64::MAX as int / 128, 128);
    vstd::arithmetic::div_mod::lemma_div_is_ordered(n2 as int, u64::MAX as int / 128 / 128, 128);
    vstd::arithmetic::div_mod::lemma_div_is_ordered(
        n3 as int,
        u64::MAX as int / 128 / 128 / 128,
        128,
    );
    vstd::arithmetic::div_mod::lemma_div_is_ordered(
        n4 as int,
        u64::MAX as int / 128 / 128 / 128 / 128,
        128,
    );
    vstd::arithmetic::div_mod::lemma_div_is_ordered(
        n5 as int,
        u64::MAX as int / 128 / 128 / 128 / 128 / 128,
        128,
    );
    vstd::arithmetic::div_mod::lemma_div_is_ordered(
        n6 as int,
        u64::MAX as int / 128 / 128 / 128 / 128 / 128 / 128,
        128,
    );
    vstd::arithmetic::div_mod::lemma_div_is_ordered(
        n7 as int,
        u64::MAX as int / 128 / 128 / 128 / 128 / 128 / 128 / 128,
        128,
    );
    vstd::arithmetic::div_mod::lemma_div_is_ordered(
        n8 as int,
        u64::MAX as int / 128 / 128 / 128 / 128 / 128 / 128 / 128 / 128,
        128,
    );
    assert(n9 < 128);
    assert(spec_varint(n9).len() == 1);
    assert(spec_varint(n8).len() <= 2);
    assert(spec_varint(n7).len() <= 3);
    assert(spec_varint(n6).len() <= 4);
    assert(spec_varint(n5).len() <= 5);
    assert(spec_varint(n4).len() <= 6);
    assert(spec_varint(n3).len() <= 7);
    assert(spec_varint(n2).len() <= 8);
    assert(spec_varint(n1).len() <= 9);
    assert(spec_varint(n).len() <= 10);
}

/// A canonical encoding, followed by anything, decodes back to its value
/// and its own length.
pub proof fn lemma_varint_round_trip(n: u64, rest: Seq<u8>)
    ensures
        spec_varint(n).len() >= 1,
        spec_varint_decode(spec_varint(n) + rest) == Some((n, spec_varint(n).len() as int)),
    decreases n,
{
    let s = spec_varint(n) + rest;
    if n < 128 {
        assert(s[0] == n as u8);
    } else {
        lemma_varint_round_trip(n / 128, rest);
        assert(s[0] == (n % 128 + 128) as u8);
        assert(s.skip(1) =~= spec_varint(n / 128) + rest);
        let v = n / 128;
        let low = (s[0] - 128) as u64;
        assert(low == n % 128);
        assert(v >= 1);
        assert(n == 128 * v + low);
        assert(128 * v <= u64::MAX - low);
        assert(v <= (u64::MAX - low) / 128) by (nonlinear_arith)
            requires
                128 * v <= u64::MAX - low,
                v >= 0,
        ;
        assert(spec_varint_decode(s) == Some((n, spec_varint(n / 128).len() as int + 1)));
    }
}

/// Only the canonical encoding of its value decodes: the decoded prefix
/// reads back as the encoding of the decoded value.
pub proof fn lemma_varint_canonical(s: Seq<u8>)
    ensures
        spec_varint_decode(s) matches Some((v, k)) ==> 1 <= k <= s.len() && s.take(k)
            == spec_varint(v),
    decreases s.len(),
{
    if spec_varint_decode(s) is Some {
        let (v, k) = spec_varint_decode(s).unwrap();
        if s[0] < 128 {
            assert(s.take(1) =~= seq![s[0]]);
        } else {
            lemma_varint_canonical(s.skip(1));
            let (v2, k2) = spec_varint_decode(s.skip(1)).unwrap();
            assert(s.skip(1).take(k2) == spec_varint(v2));
            let low = (s[0] - 128) as u64;
            assert(v == low + 128 * v2 && k == k2 + 1);
            assert(v >= 128 * v2 >= 128) by (nonlinear_arith)
                requires
                    v2 >= 1,
                    v == low + 128 * v2,
                    low >= 0,
            ;
            assert(v % 128 == low && v / 128 == v2) by (nonlinear_arith)
                requires
                    v == low + 128 * v2,
                    0 <= low < 128,
            ;
            assert(s.take(k) =~= seq![s[0]] + s.skip(1).take(k2));
            assert(s.take(k) =~= spec_varint(v));
        }
    }
}

/// Appends the canonical encoding of `n`.
pub fn encode_varint(out: &mut Vec<u8>, n: u64)
    ensures
        final(out)@ == old(out)@ + spec_varint(n),
    decreases n,
{
    if n < 128 {
        out.push(n as u8);
        assert(final(out)@ =~= old(out)@ + spec_varint(n));
    } else {
        out.push((n % 128 + 128) as u8);
        let ghost mid = out@;
        encode_varint(out, n / 128);
        assert(final(out)@ =~= old(out)@ + spec_varint(n));
    }
}

/// Reads the canonical encoding starting at `at`; rejects anything else.
pub fn decode_varint(s: &[u8], at: usize) -> (r: Option<(u64, usize)>)
    requires
        at <= s@.len(),
    ensures
        r matches Some((v, next)) ==> at < next <= s@.len() && spec_varint_decode(s@.skip(at as int))
            == Some((v, next - at)),
        r is None ==> spec_varint_decode(s@.skip(at as int)) is None,
    decreases s@.len() - at,
{
    if at >= s.len() {
        proof {
            assert(s@.skip(at as int).len() == 0);
        }
        return None;
    }
    proof {
        assert(s@.skip(at as int)[0] == s@[at as int]);
        assert(s@.skip(at as int).skip(1) =~= s@.skip(at + 1));
    }
    let b = s[at];
    if b < 128 {
        Some((b as u64, at + 1))
    } else {
        match decode_varint(s, at + 1) {
            None => None,
            Some((v, next)) => {
                let low = (b - 128) as u64;
                if 1 <= v && v <= (u64::MAX - low) / 128 {
                    proof {
                        assert(128 * v <= u64::MAX - low) by (nonlinear_arith)
                            requires
                                1 <= v,
                                low < 128,
                                v <= (u64::MAX - low) / 128,
                        ;
                    }
                    Some((low + 128 * v, next))
                } else {
                    None
                }
            },
        }
    }
}

} // verus!
