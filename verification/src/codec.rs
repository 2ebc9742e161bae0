//! Encoding and decoding of the schema-based envelopes.
//!
//! An envelope is one tagged union field: the variant's tag byte, the
//! body length, then the body, whose single field carries the payload
//! scalar. An envelope with no set variant encodes to no bytes at all.
//! Decoding accepts exactly the canonical encodings, so a decoded value
//! re-encodes to the very bytes it came from, and an encoded value
//! decodes back field for field.

use crate::varint::{
    decode_varint, encode_varint, lemma_varint_canonical, lemma_varint_round_trip, spec_varint,
    spec_varint_decode,
};
use crate::wire::{
    FuncCall, FuncCallType, FuncResult, FuncResultType, NvmlInitWithFlagsFuncCall,
    NvmlInitWithFlagsFuncResult, NvmlShutdownFuncCall, NvmlShutdownFuncResult,
};
use vstd::prelude::*;

verus! {

/// The sign-extended 64-bit wire form of a signed 32-bit value.
pub open spec fn spec_i32_wire64(x: i32) -> u64 {
    if x >= 0 {
        x as u64
    } else {
        (x + 0x1_0000_0000_0000_0000int) as u64
    }
}

/// Whether a 64-bit wire value is the sign-extended form of some signed
/// 32-bit value.
pub open spec fn spec_wire64_is_i32(v: u64) -> bool {
    v <= 0x7fff_ffffu64 || v >= 0xffff_ffff_8000_0000u64
}

/// The signed 32-bit value behind a sign-extended 64-bit wire value.
pub open spec fn spec_wire64_to_i32(v: u64) -> i32
    recommends
        spec_wire64_is_i32(v),
{
    if v <= 0x7fff_ffffu64 {
        v as i32
    } else {
        (v - 0x1_0000_0000_0000_0000int) as i32
    }
}

/// The sign-extended 64-bit wire form of a signed 32-bit value.
pub fn i32_to_wire64(x: i32) -> (r: u64)
    ensures
        r == spec_i32_wire64(x),
        spec_wire64_is_i32(r),
        spec_wire64_to_i32(r) == x,
{
    if x >= 0 {
        x as u64
    } else {
        ((x as i128) + 0x1_0000_0000_0000_0000i128) as u64
    }
}

/// The signed 32-bit value behind a 64-bit wire value, if it is the
/// sign-extended form of one.
pub fn wire64_to_i32(v: u64) -> (r: Option<i32>)
    ensures
        r matches Some(x) ==> spec_wire64_is_i32(v) && x == spec_wire64_to_i32(v)
            && spec_i32_wire64(x) == v,
        r is None <==> !spec_wire64_is_i32(v),
{
    if v <= 0x7fff_ffffu64 {
        Some(v as i32)
    } else if v >= 0xffff_ffff_8000_0000u64 {
        Some(((v as i128) - 0x1_0000_0000_0000_0000i128) as i32)
    } else {
        None
    }
}

/// The encoded body of a call or result whose single field carries the
/// 64-bit wire value `v`.
pub open spec fn spec_scalar_body(v: u64) -> Seq<u8> {
    seq![8u8] + spec_varint(v)
}

/// The canonical encoding of a call envelope.
pub open spec fn spec_encode_call(c: FuncCall) -> Seq<u8> {
    match c.call_type {
        Option::None => Seq::empty(),
        Option::Some(FuncCallType::NvmlInitWithFlags(ic)) => {
            let body = spec_scalar_body(ic.flags as u64);
            seq![0x0au8] + spec_varint(body.len() as u64) + body
        },
        Option::Some(FuncCallType::NvmlShutdown(_)) => seq![0x12u8] + spec_varint(0),
    }
}

/// The canonical encoding of a result envelope.
pub open spec fn spec_encode_result(res: FuncResult) -> Seq<u8> {
    match res.result_type {
        Option::None => Seq::empty(),
        Option::Some(FuncResultType::NvmlInitWithFlags(ir)) => {
            let body = spec_scalar_body(spec_i32_wire64(ir.return_value));
            seq![0x0au8] + spec_varint(body.len() as u64) + body
        },
        Option::Some(FuncResultType::NvmlShutdown(sr)) => {
            let body = spec_scalar_body(spec_i32_wire64(sr.return_value));
            seq![0x12u8] + spec_varint(body.len() as u64) + body
        },
    }
}

/// What a length-delimited variant body starting behind the tag byte
/// decodes to: the 64-bit wire value of its single field, provided the
/// length is exact and the body is canonical.
pub open spec fn spec_decode_variant_scalar(s: Seq<u8>) -> Option<u64> {
    match spec_varint_decode(s) {
        Option::None => None,
        Option::Some((len, k)) => {
            let body = s.skip(k);
            if len == body.len() && body.len() >= 1 && body[0] == 8u8 {
                match spec_varint_decode(body.skip(1)) {
                    Option::None => None,
                    Option::Some((v, k2)) => if k2 == body.len() - 1 {
                        Some(v)
                    } else {
                        None
                    },
                }
            } else {
                None
            }
        },
    }
}

/// What a whole byte string decodes to as a call envelope; `None` when it
/// is not a canonical encoding.
pub open spec fn spec_decode_call(s: Seq<u8>) -> Option<FuncCall> {
    if s.len() == 0 {
        Some(FuncCall { call_type: None })
    } else if s[0] == 0x0au8 {
        match spec_decode_variant_scalar(s.skip(1)) {
            Option::None => None,
            Option::Some(v) => if v <= u32::MAX as u64 {
                Some(
                    FuncCall {
                        call_type: Some(
                            FuncCallType::NvmlInitWithFlags(
                                NvmlInitWithFlagsFuncCall { flags: v as u32 },
                            ),
                        ),
                    },
                )
            } else {
                None
            },
        }
    } else if s[0] == 0x12u8 {
        if s.len() == 2 && s[1] == 0u8 {
            Some(FuncCall { call_type: Some(FuncCallType::NvmlShutdown(NvmlShutdownFuncCall {  })) })
        } else {
            None
        }
    } else {
        None
    }
}

/// What a whole byte string decodes to as a result envelope; `None` when
/// it is not a canonical encoding.
pub open spec fn spec_decode_result(s: Seq<u8>) -> Option<FuncResult> {
    if s.len() == 0 {
        Some(FuncResult { result_type: None })
    } else if s[0] == 0x0au8 {
        match spec_decode_variant_scalar(s.skip(1)) {
            Option::None => None,
            Option::Some(v) => if spec_wire64_is_i32(v) {
                Some(
                    FuncResult {
                        result_type: Some(
                            FuncResultType::NvmlInitWithFlags(
                                NvmlInitWithFlagsFuncResult { return_value: spec_wire64_to_i32(v) },
                            ),
                        ),
                    },
                )
            } else {
                None
            },
        }
    } else if s[0] == 0x12u8 {
        match spec_decode_variant_scalar(s.skip(1)) {
            Option::None => None,
            Option::Some(v) => if spec_wire64_is_i32(v) {
                Some(
                    FuncResult {
                        result_type: Some(
                            FuncResultType::NvmlShutdown(
                                NvmlShutdownFuncResult { return_value: spec_wire64_to_i32(v) },
                            ),
                        ),
                    },
                )
            } else {
                None
            },
        }
    } else {
        None
    }
}

/// A canonical scalar-variant body decodes back to its wire value.
proof fn lemma_variant_scalar_round_trip(v: u64)
    ensures
        ({
            let body = spec_scalar_body(v);
            spec_decode_variant_scalar(spec_varint(body.len() as u64) + body) == Some(v)
        }),
{
    let body = spec_scalar_body(v);
    crate::varint::lemma_varint_len(v);
    let s = spec_varint(body.len() as u64) + body;
    lemma_varint_round_trip(body.len() as u64, body);
    let k = spec_varint(body.len() as u64).len() as int;
    assert(s.skip(k) =~= body);
    lemma_varint_round_trip(v, Seq::empty());
    assert(body.skip(1) =~= spec_varint(v) + Seq::empty());
    assert(spec_varint_decode(body.skip(1)) == Some((v, spec_varint(v).len() as int)));
}

/// Only a canonical scalar-variant body decodes: the bytes must be the
/// exact length prefix and body of the decoded wire value.
proof fn lemma_variant_scalar_canonical(s: Seq<u8>)
    ensures
        spec_decode_variant_scalar(s) matches Some(v) ==> s == spec_varint(
            spec_scalar_body(v).len() as u64,
        ) + spec_scalar_body(v),
{
    if spec_decode_variant_scalar(s) is Some {
        let v = spec_decode_variant_scalar(s).unwrap();
        let (len, k) = spec_varint_decode(s).unwrap();
        lemma_varint_canonical(s);
        let body = s.skip(k);
        let (v2, k2) = spec_varint_decode(body.skip(1)).unwrap();
        lemma_varint_canonical(body.skip(1));
        assert(body.skip(1).take(k2) == spec_varint(v2));
        assert(body.skip(1).len() == k2);
        assert(body.skip(1).take(k2) =~= body.skip(1));
        assert(body =~= seq![body[0]] + body.skip(1));
        assert(body =~= spec_scalar_body(v));
        assert(len == spec_scalar_body(v).len());
        assert(s =~= s.take(k) + s.skip(k));
        assert(s =~= spec_varint(spec_scalar_body(v).len() as u64) + spec_scalar_body(v));
    }
}

/// Encoding a call envelope and decoding the bytes yields the envelope
/// back, field for field.
pub proof fn lemma_call_round_trip(c: FuncCall)
    ensures
        spec_decode_call(spec_encode_call(c)) == Some(c),
{
    match c.call_type {
        Option::None => {},
        Option::Some(FuncCallType::NvmlInitWithFlags(ic)) => {
            let body = spec_scalar_body(ic.flags as u64);
            let s = spec_encode_call(c);
            assert(s[0] == 0x0au8);
            lemma_variant_scalar_round_trip(ic.flags as u64);
            assert(s.skip(1) =~= spec_varint(body.len() as u64) + body);
        },
        Option::Some(FuncCallType::NvmlShutdown(_)) => {
            let s = spec_encode_call(c);
            assert(spec_varint(0) =~= seq![0u8]);
            assert(s.len() == 2 && s[0] == 0x12u8 && s[1] == 0u8);
        },
    }
}

/// Only a canonical encoding decodes as a call envelope: the decoded
/// envelope re-encodes to the very bytes it came from.
pub proof fn lemma_call_canonical(s: Seq<u8>)
    ensures
        spec_decode_call(s) matches Some(c) ==> s == spec_encode_call(c),
{
    if spec_decode_call(s) is Some {
        let c = spec_decode_call(s).unwrap();
        if s.len() == 0 {
            assert(s =~= spec_encode_call(c));
        } else if s[0] == 0x0au8 {
            let v = spec_decode_variant_scalar(s.skip(1)).unwrap();
            lemma_variant_scalar_canonical(s.skip(1));
            assert(s =~= seq![s[0]] + s.skip(1));
            assert((v as u32) as u64 == v);
            assert(s =~= spec_encode_call(c));
        } else {
            assert(spec_varint(0) =~= seq![0u8]);
            assert(s =~= spec_encode_call(c));
        }
    }
}

/// Encoding a result envelope and decoding the bytes yields the envelope
/// back, field for field.
pub proof fn lemma_result_round_trip(res: FuncResult)
    ensures
        spec_decode_result(spec_encode_result(res)) == Some(res),
{
    match res.result_type {
        Option::None => {},
        Option::Some(FuncResultType::NvmlInitWithFlags(ir)) => {
            let w = spec_i32_wire64(ir.return_value);
            let body = spec_scalar_body(w);
            let s = spec_encode_result(res);
            assert(s[0] == 0x0au8);
            lemma_variant_scalar_round_trip(w);
            assert(s.skip(1) =~= spec_varint(body.len() as u64) + body);
        },
        Option::Some(FuncResultType::NvmlShutdown(sr)) => {
            let w = spec_i32_wire64(sr.return_value);
            let body = spec_scalar_body(w);
            let s = spec_encode_result(res);
            assert(s[0] == 0x12u8);
            lemma_variant_scalar_round_trip(w);
            assert(s.skip(1) =~= spec_varint(body.len() as u64) + body);
        },
    }
}

/// Only a canonical encoding decodes as a result envelope: the decoded
/// envelope re-encodes to the very bytes it came from.
pub proof fn lemma_result_canonical(s: Seq<u8>)
    ensures
        spec_decode_result(s) matches Some(res) ==> s == spec_encode_result(res),
{
    if spec_decode_result(s) is Some {
        let res = spec_decode_result(s).unwrap();
        if s.len() == 0 {
            assert(s =~= spec_encode_result(res));
        } else {
            let v = spec_decode_variant_scalar(s.skip(1)).unwrap();
            lemma_variant_scalar_canonical(s.skip(1));
            assert(s =~= seq![s[0]] + s.skip(1));
            assert(spec_i32_wire64(spec_wire64_to_i32(v)) == v);
            assert(s =~= spec_encode_result(res));
        }
    }
}

/// Appends every byte of `other`.
pub fn append_bytes(out: &mut Vec<u8>, other: &Vec<u8>)
    ensures
        final(out)@ == old(out)@ + other@,
{
    let mut i: usize = 0;
    while i < other.len()
        invariant
            0 <= i <= other@.len(),
            out@ == old(out)@ + other@.take(i as int),
        decreases other@.len() - i,
    {
        out.push(other[i]);
        proof {
            assert(old(out)@ + other@.take(i + 1) =~= (old(out)@ + other@.take(i as int)).push(
                other@[i as int],
            ));
        }
        i = i + 1;
    }
    proof {
        assert(other@.take(i as int) =~= other@);
    }
}

/// Encodes the tag byte, length and body of a scalar-carrying variant.
fn encode_variant_scalar(out: &mut Vec<u8>, tag: u8, v: u64)
    ensures
        final(out)@ == old(out)@ + seq![tag] + spec_varint(spec_scalar_body(v).len() as u64)
            + spec_scalar_body(v),
{
    let mut body: Vec<u8> = Vec::new();
    body.push(8u8);
    encode_varint(&mut body, v);
    proof {
        assert(body@ =~= spec_scalar_body(v));
    }
    out.push(tag);
    encode_varint(out, body.len() as u64);
    append_bytes(out, &body);
    proof {
        assert(final(out)@ =~= old(out)@ + seq![tag] + spec_varint(spec_scalar_body(v).len() as u64)
            + spec_scalar_body(v));
    }
}

/// Encodes a call envelope canonically.
pub fn encode_func_call(c: &FuncCall) -> (r: Vec<u8>)
    ensures
        r@ == spec_encode_call(*c),
{
    let mut out: Vec<u8> = Vec::new();
    match &c.call_type {
        None => {},
        Some(FuncCallType::NvmlInitWithFlags(ic)) => {
            encode_variant_scalar(&mut out, 0x0au8, ic.flags as u64);
            proof {
                assert(out@ =~= spec_encode_call(*c));
            }
        },
        Some(FuncCallType::NvmlShutdown(_)) => {
            out.push(0x12u8);
            out.push(0u8);
            proof {
                assert(spec_varint(0) =~= seq![0u8]);
                assert(out@ =~= spec_encode_call(*c));
            }
        },
    }
    out
}

/// Encodes a result envelope canonically.
pub fn encode_func_result(res: &FuncResult) -> (r: Vec<u8>)
    ensures
        r@ == spec_encode_result(*res),
{
    let mut out: Vec<u8> = Vec::new();
    match &res.result_type {
        None => {},
        Some(FuncResultType::NvmlInitWithFlags(ir)) => {
            let w = i32_to_wire64(ir.return_value);
            encode_variant_scalar(&mut out, 0x0au8, w);
            proof {
                assert(out@ =~= spec_encode_result(*res));
            }
        },
        Some(FuncResultType::NvmlShutdown(sr)) => {
            let w = i32_to_wire64(sr.return_value);
            encode_variant_scalar(&mut out, 0x12u8, w);
            proof {
                assert(out@ =~= spec_encode_result(*res));
            }
        },
    }
    out
}

/// Decodes the length and scalar body of a variant, starting at `at`.
fn decode_variant_scalar(s: &[u8], at: usize) -> (r: Option<u64>)
    requires
        at <= s@.len(),
    ensures
        r == spec_decode_variant_scalar(s@.skip(at as int)),
{
    let ghost tail = s@.skip(at as int);
    match decode_varint(s, at) {
        None => None,
        Some((len, next)) => {
            proof {
                assert(spec_varint_decode(tail) == Some((len, next - at)));
                assert(tail.skip(next - at) =~= s@.skip(next as int));
            }
            let ghost body = tail.skip(next - at);
            let body_len = s.len() - next;
            if len != body_len as u64 || body_len < 1 {
                return None;
            }
            if s[next] != 8u8 {
                proof {
                    assert(body[0] == s@[next as int]);
                }
                return None;
            }
            proof {
                assert(body[0] == s@[next as int]);
                assert(body.skip(1) =~= s@.skip(next + 1));
            }
            match decode_varint(s, next + 1) {
                None => None,
                Some((v, after)) => {
                    if after == s.len() {
                        proof {
                            assert(spec_varint_decode(body.skip(1)) == Some(
                                (v, after - next - 1),
                            ));
                        }
                        Some(v)
                    } else {
                        proof {
                            assert(spec_varint_decode(body.skip(1)) == Some(
                                (v, after - next - 1),
                            ));
                        }
                        None
                    }
                },
            }
        },
    }
}

/// Decodes a whole byte string as a call envelope; anything but a
/// canonical encoding is rejected.
pub fn decode_func_call(s: &[u8]) -> (r: Option<FuncCall>)
    ensures
        r == spec_decode_call(s@),
        r matches Some(c) ==> s@ == spec_encode_call(c),
{
    proof {
        lemma_call_canonical(s@);
    }
    if s.len() == 0 {
        return Some(FuncCall { call_type: None });
    }
    let tag = s[0];
    proof {
        assert(s@.skip(1) =~= s@.skip(1));
    }
    if tag == 0x0au8 {
        match decode_variant_scalar(s, 1) {
            None => None,
            Some(v) => {
                if v <= 0xffff_ffffu64 {
                    Some(
                        FuncCall {
                            call_type: Some(
                                FuncCallType::NvmlInitWithFlags(
                                    NvmlInitWithFlagsFuncCall { flags: v as u32 },
                                ),
                            ),
                        },
                    )
                } else {
                    None
                }
            },
        }
    } else if tag == 0x12u8 {
        if s.len() == 2 && s[1] == 0u8 {
            Some(FuncCall { call_type: Some(FuncCallType::NvmlShutdown(NvmlShutdownFuncCall {  })) })
        } else {
            None
        }
    } else {
        None
    }
}

/// Decodes a whole byte string as a result envelope; anything but a
/// canonical encoding is rejected.
pub fn decode_func_result(s: &[u8]) -> (r: Option<FuncResult>)
    ensures
        r == spec_decode_result(s@),
        r matches Some(res) ==> s@ == spec_encode_result(res),
{
    proof {
        lemma_result_canonical(s@);
    }
    if s.len() == 0 {
        return Some(FuncResult { result_type: None });
    }
    let tag = s[0];
    if tag == 0x0au8 {
        match decode_variant_scalar(s, 1) {
            None => None,
            Some(v) => match wire64_to_i32(v) {
                None => None,
                Some(x) => Some(
                    FuncResult {
                        result_type: Some(
                            FuncResultType::NvmlInitWithFlags(
                                NvmlInitWithFlagsFuncResult { return_value: x },
                            ),
                        ),
                    },
                ),
            },
        }
    } else if tag == 0x12u8 {
        match decode_variant_scalar(s, 1) {
            None => None,
            Some(v) => match wire64_to_i32(v) {
                None => None,
                Some(x) => Some(
                    FuncResult {
                        result_type: Some(
                            FuncResultType::NvmlShutdown(
                                NvmlShutdownFuncResult { return_value: x },
                            ),
                        ),
                    },
                ),
            },
        }
    } else {
        None
    }
}

} // verus!
