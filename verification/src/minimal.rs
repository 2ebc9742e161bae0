//! The minimal fixed-layout wire format.
//!
//! A request is a four-byte big-endian call identifier followed by the
//! raw bytes of each IN-direction parameter, back to back, in declaration
//! order; a response is the raw bytes of the return value followed by the
//! raw bytes of each OUT-direction parameter. Raw bytes are the scalars'
//! in-memory form on the supported hosts. The receiver knows from the
//! contract set exactly how many bytes each identifier's call occupies.

use crate::contract::{FunctionDef, FunctionDefV};
use crate::descriptor::{spec_find_param, ParameterDirection};
use crate::header::{CParam, CType};
use crate::rpc::{spec_rpc_id, RPC};
use crate::scalar_bytes::{
    i32_bits, i32_from_bits, push_u32_be, push_u32_raw, read_i32_be, read_u32_raw, spec_i32_bits,
    spec_i32_from_bits, spec_u32_from_be_bytes, spec_u32_from_raw_bytes, spec_u32_to_be_bytes,
    spec_u32_to_raw_bytes,
};
use crate::schema::spec_param_is_in;
use crate::views::seq_view;
use vstd::prelude::*;

verus! {

/// Why a minimal-format request could not be read.
#[derive(PartialEq, Eq, Structural, Clone, Copy, Debug)]
pub enum MinimalError {
    /// The leading identifier names no contract.
    UnknownId,
    /// The bytes end before the contract's parameters do.
    Truncated,
    /// Bytes follow the last parameter.
    TrailingBytes,
}

/// One scalar travelling in the minimal format, typed as the wire maps
/// the native types.
#[derive(PartialEq, Eq, Structural, Clone, Copy, Debug)]
pub enum WireValue {
    U32(u32),
    I32(i32),
}

/// The raw bytes of one wire scalar.
pub open spec fn spec_value_bytes(v: WireValue) -> Seq<u8> {
    match v {
        WireValue::U32(x) => spec_u32_to_raw_bytes(x),
        WireValue::I32(x) => spec_u32_to_raw_bytes(spec_i32_bits(x)),
    }
}

/// The raw bytes of a value sequence, back to back.
pub open spec fn spec_values_bytes(vs: Seq<WireValue>) -> Seq<u8>
    decreases vs.len(),
{
    if vs.len() == 0 {
        Seq::empty()
    } else {
        spec_value_bytes(vs[0]) + spec_values_bytes(vs.skip(1))
    }
}

/// Whether a wire scalar carries a value of the given native type.
pub open spec fn spec_value_matches(v: WireValue, ty: CType) -> bool {
    match (v, ty) {
        (WireValue::U32(_), CType::UInt) => true,
        (WireValue::I32(_), CType::Elaborated { .. }) => true,
        _ => false,
    }
}

/// The types of a contract's IN-direction parameters, in declaration
/// order.
pub open spec fn spec_in_types(
    described: Seq<crate::descriptor::FunctionParameter>,
    params: Seq<CParam>,
) -> Seq<CType>
    decreases params.len(),
{
    if params.len() == 0 {
        Seq::empty()
    } else {
        let rest = spec_in_types(described, params.skip(1));
        if spec_param_is_in(described, params[0]) {
            seq![params[0].ty] + rest
        } else {
            rest
        }
    }
}

/// Whether the described direction of the native parameter `p` is OUT.
pub open spec fn spec_param_is_out(
    described: Seq<crate::descriptor::FunctionParameter>,
    p: CParam,
) -> bool {
    spec_find_param(described, p.name@) matches Some(fp) && fp.direction is OUT
}

/// The types of a contract's OUT-direction parameters, in declaration
/// order.
pub open spec fn spec_out_types(
    described: Seq<crate::descriptor::FunctionParameter>,
    params: Seq<CParam>,
) -> Seq<CType>
    decreases params.len(),
{
    if params.len() == 0 {
        Seq::empty()
    } else {
        let rest = spec_out_types(described, params.skip(1));
        if spec_param_is_out(described, params[0]) {
            seq![params[0].ty] + rest
        } else {
            rest
        }
    }
}

/// The IN-direction parameter types of one contract.
pub fn in_types(fd: &FunctionDef) -> (r: Vec<CType>)
    requires
        crate::contract::spec_contract_wf(fd@),
    ensures
        r@ == spec_in_types(fd@.description.params, fd@.c_function.params),
{
    let ghost described = fd@.description.params;
    let ghost cparams = fd@.c_function.params;
    let mut out: Vec<CType> = Vec::new();
    let mut i: usize = 0;
    proof {
        assert(cparams.skip(0) =~= cparams);
    }
    while i < fd.c_function.params.len()
        invariant
            0 <= i <= cparams.len(),
            described == fd@.description.params,
            cparams == fd@.c_function.params,
            cparams.len() == fd.c_function.params@.len(),
            crate::contract::spec_contract_wf(fd@),
            spec_in_types(described, cparams) == out@ + spec_in_types(
                described,
                cparams.skip(i as int),
            ),
        decreases cparams.len() - i,
    {
        proof {
            assert(cparams.skip(i as int)[0] == cparams[i as int]);
            assert(cparams.skip(i as int).skip(1) =~= cparams.skip(i + 1));
        }
        let p = &fd.c_function.params[i];
        let described_param = fd.description.get_param(&p.name);
        if matches!(described_param.direction, ParameterDirection::IN) {
            let ghost out_pre = out@;
            out.push(p.ty.clone());
            proof {
                assert(out@ =~= out_pre + seq![cparams[i as int].ty]);
            }
        }
        i = i + 1;
    }
    proof {
        assert(cparams.skip(i as int).len() == 0);
        assert(out@ + spec_in_types(described, cparams.skip(i as int)) =~= out@);
    }
    out
}

/// The OUT-direction parameter types of one contract.
pub fn out_types(fd: &FunctionDef) -> (r: Vec<CType>)
    requires
        crate::contract::spec_contract_wf(fd@),
    ensures
        r@ == spec_out_types(fd@.description.params, fd@.c_function.params),
{
    let ghost described = fd@.description.params;
    let ghost cparams = fd@.c_function.params;
    let mut out: Vec<CType> = Vec::new();
    let mut i: usize = 0;
    proof {
        assert(cparams.skip(0) =~= cparams);
    }
    while i < fd.c_function.params.len()
        invariant
            0 <= i <= cparams.len(),
            described == fd@.description.params,
            cparams == fd@.c_function.params,
            cparams.len() == fd.c_function.params@.len(),
            crate::contract::spec_contract_wf(fd@),
            spec_out_types(described, cparams) == out@ + spec_out_types(
                described,
                cparams.skip(i as int),
            ),
        decreases cparams.len() - i,
    {
        proof {
            assert(cparams.skip(i as int)[0] == cparams[i as int]);
            assert(cparams.skip(i as int).skip(1) =~= cparams.skip(i + 1));
        }
        let p = &fd.c_function.params[i];
        let described_param = fd.description.get_param(&p.name);
        if matches!(described_param.direction, ParameterDirection::OUT) {
            let ghost out_pre = out@;
            out.push(p.ty.clone());
            proof {
                assert(out@ =~= out_pre + seq![cparams[i as int].ty]);
            }
        }
        i = i + 1;
    }
    proof {
        assert(cparams.skip(i as int).len() == 0);
        assert(out@ + spec_out_types(described, cparams.skip(i as int)) =~= out@);
    }
    out
}

/// Appends the raw bytes of one wire scalar.
fn push_value(out: &mut Vec<u8>, v: WireValue)
    ensures
        final(out)@ == old(out)@ + spec_value_bytes(v),
{
    match v {
        WireValue::U32(x) => push_u32_raw(out, x),
        WireValue::I32(x) => {
            let bits = i32_bits(x);
            push_u32_raw(out, bits);
        },
    }
}

/// Appends the raw bytes of a value sequence.
fn push_values(out: &mut Vec<u8>, values: &Vec<WireValue>)
    ensures
        final(out)@ == old(out)@ + spec_values_bytes(values@),
{
    let mut i: usize = 0;
    proof {
        assert(values@.skip(0) =~= values@);
    }
    while i < values.len()
        invariant
            0 <= i <= values@.len(),
            old(out)@ + spec_values_bytes(values@) == out@ + spec_values_bytes(
                values@.skip(i as int),
            ),
        decreases values@.len() - i,
    {
        proof {
            assert(values@.skip(i as int)[0] == values@[i as int]);
            assert(values@.skip(i as int).skip(1) =~= values@.skip(i + 1));
        }
        let ghost out_pre = out@;
        push_value(out, values[i]);
        proof {
            assert(out@ =~= out_pre + spec_value_bytes(values@[i as int]));
        }
        i = i + 1;
    }
    proof {
        assert(values@.skip(i as int).len() == 0);
        assert(out@ + spec_values_bytes(values@.skip(i as int)) =~= out@);
    }
}

/// Marshals one minimal-format request: the big-endian call identifier,
/// then the raw bytes of the IN-direction parameter values, in order.
pub fn encode_minimal_call(id: u32, in_values: &Vec<WireValue>) -> (r: Vec<u8>)
    ensures
        r@ == spec_u32_to_be_bytes(id) + spec_values_bytes(in_values@),
{
    let mut out: Vec<u8> = Vec::new();
    push_u32_be(&mut out, id);
    push_values(&mut out, in_values);
    proof {
        assert(out@ =~= spec_u32_to_be_bytes(id) + spec_values_bytes(in_values@));
    }
    out
}

/// The wire scalar read from four raw bytes at `at` under the given
/// native type.
pub open spec fn spec_value_from(s: Seq<u8>, at: int, ty: CType) -> WireValue
    recommends
        0 <= at,
        at + 4 <= s.len(),
        ty.spec_supported(),
{
    match ty {
        CType::UInt => WireValue::U32(spec_u32_from_raw_bytes(s.subrange(at, at + 4))),
        _ => WireValue::I32(spec_i32_from_bits(spec_u32_from_raw_bytes(s.subrange(at, at + 4)))),
    }
}

/// The wire scalars read from raw bytes at `at`, one per type.
pub open spec fn spec_values_from(s: Seq<u8>, at: int, types: Seq<CType>) -> Seq<WireValue>
    recommends
        0 <= at,
        at + 4 * types.len() <= s.len(),
    decreases types.len(),
{
    if types.len() == 0 {
        Seq::empty()
    } else {
        seq![spec_value_from(s, at, types[0])] + spec_values_from(s, at + 4, types.skip(1))
    }
}

/// Reads one wire scalar per type, four raw bytes each, starting at `at`.
fn read_values(s: &[u8], at: usize, types: &Vec<CType>) -> (r: Result<Vec<WireValue>, MinimalError>)
    requires
        at <= s@.len(),
        forall|k: int| 0 <= k < types@.len() ==> (#[trigger] types@[k]).spec_supported(),
    ensures
        r matches Ok(vals) ==> {
            &&& at + 4 * types@.len() <= s@.len()
            &&& vals@ == spec_values_from(s@, at as int, types@)
            &&& vals@.len() == types@.len()
        },
        r == Result::<Vec<WireValue>, MinimalError>::Err(MinimalError::Truncated) <==> at + 4
            * types@.len() > s@.len(),
        r is Err ==> r == Result::<Vec<WireValue>, MinimalError>::Err(MinimalError::Truncated),
{
    let total = s.len();
    if (total - at) / 4 < types.len() {
        proof {
            vstd::arithmetic::div_mod::lemma_fundamental_div_mod(total - at, 4);
            assert(4 * types@.len() > total - at) by (nonlinear_arith)
                requires
                    (total - at) / 4 < types@.len(),
                    4 * ((total - at) / 4) + (total - at) % 4 == total - at,
                    0 <= (total - at) % 4 < 4,
            ;
        }
        return Err(MinimalError::Truncated);
    }
    proof {
        vstd::arithmetic::div_mod::lemma_fundamental_div_mod(total - at, 4);
        assert(4 * types@.len() <= total - at) by (nonlinear_arith)
            requires
                (total - at) / 4 >= types@.len(),
                4 * ((total - at) / 4) + (total - at) % 4 == total - at,
                0 <= (total - at) % 4 < 4,
        ;
    }
    let mut vals: Vec<WireValue> = Vec::new();
    let mut i: usize = 0;
    proof {
        assert(types@.skip(0) =~= types@);
    }
    while i < types.len()
        invariant
            0 <= i <= types@.len(),
            total == s@.len(),
            at + 4 * types@.len() <= total,
            forall|k: int| 0 <= k < types@.len() ==> (#[trigger] types@[k]).spec_supported(),
            vals@.len() == i,
            spec_values_from(s@, at as int, types@) == vals@ + spec_values_from(
                s@,
                at + 4 * i,
                types@.skip(i as int),
            ),
        decreases types@.len() - i,
    {
        proof {
            assert(types@.skip(i as int)[0] == types@[i as int]);
            assert(types@.skip(i as int).skip(1) =~= types@.skip(i + 1));
        }
        let ghost vals_pre = vals@;
        let pos = at + 4 * i;
        let raw = read_u32_raw(s, pos);
        let v = match &types[i] {
            CType::UInt => WireValue::U32(raw),
            _ => WireValue::I32(i32_from_bits(raw)),
        };
        vals.push(v);
        proof {
            assert(v == spec_value_from(s@, pos as int, types@[i as int]));
            assert(vals@ =~= vals_pre + seq![v]);
        }
        i = i + 1;
    }
    proof {
        assert(types@.skip(i as int).len() == 0);
        assert(vals@ + spec_values_from(s@, at + 4 * i, types@.skip(i as int)) =~= vals@);
    }
    Ok(vals)
}

/// The index of the first contract whose identifier is `id`, if any.
pub fn find_contract_by_id(contracts: &Vec<FunctionDef>, id: u32) -> (r: Option<usize>)
    ensures
        r matches Some(idx) ==> 0 <= idx < contracts@.len() && seq_view(
            contracts@,
        )[idx as int].description.id == id && (forall|j: int|
            0 <= j < idx ==> (#[trigger] seq_view(contracts@)[j]).description.id != id),
        r is None <==> forall|j: int|
            0 <= j < contracts@.len() ==> (#[trigger] seq_view(contracts@)[j]).description.id != id,
{
    let ghost fds = seq_view(contracts@);
    let mut i: usize = 0;
    while i < contracts.len()
        invariant
            0 <= i <= contracts@.len(),
            fds == seq_view(contracts@),
            fds.len() == contracts@.len(),
            forall|j: int| 0 <= j < i ==> (#[trigger] fds[j]).description.id != id,
        decreases contracts@.len() - i,
    {
        proof {
            assert(fds[i as int] == contracts@[i as int]@);
        }
        if contracts[i].description.id == id {
            return Some(i);
        }
        i = i + 1;
    }
    None
}

/// The first contract whose identifier is `id`, if any: the one the
/// identifier leading a request names.
pub open spec fn spec_contract_for_id(fds: Seq<FunctionDefV>, id: u32) -> Option<FunctionDefV>
    decreases fds.len(),
{
    if fds.len() == 0 {
        None
    } else if fds[0].description.id == id {
        Some(fds[0])
    } else {
        spec_contract_for_id(fds.skip(1), id)
    }
}

proof fn lemma_contract_for_id_index(fds: Seq<FunctionDefV>, id: u32, idx: int)
    requires
        0 <= idx < fds.len(),
        fds[idx].description.id == id,
        forall|j: int| 0 <= j < idx ==> (#[trigger] fds[j]).description.id != id,
    ensures
        spec_contract_for_id(fds, id) == Some(fds[idx]),
    decreases idx,
{
    if idx > 0 {
        assert(forall|j: int| 0 <= j < fds.skip(1).len() ==> fds.skip(1)[j] == fds[j + 1]);
        lemma_contract_for_id_index(fds.skip(1), id, idx - 1);
    }
}

proof fn lemma_contract_for_id_none(fds: Seq<FunctionDefV>, id: u32)
    requires
        forall|j: int| 0 <= j < fds.len() ==> (#[trigger] fds[j]).description.id != id,
    ensures
        spec_contract_for_id(fds, id) is None,
    decreases fds.len(),
{
    if fds.len() > 0 {
        assert(forall|j: int| 0 <= j < fds.skip(1).len() ==> fds.skip(1)[j] == fds[j + 1]);
        lemma_contract_for_id_none(fds.skip(1), id);
    }
}

/// The decoded form of one minimal-format request: which contract it
/// names, and its IN-direction parameter values.
#[derive(Debug)]
pub struct MinimalCall {
    pub contract_index: usize,
    pub in_values: Vec<WireValue>,
}

/// Unmarshals one minimal-format request against the contract set: the
/// identifier picks the contract, and exactly its IN-direction parameter
/// bytes must follow. An unknown identifier, missing bytes and left-over
/// bytes are told apart exactly.
pub fn decode_minimal_call(contracts: &Vec<FunctionDef>, s: &[u8]) -> (r: Result<
    MinimalCall,
    MinimalError,
>)
    requires
        forall|j: int| 0 <= j < contracts@.len() ==> crate::contract::spec_contract_wf(
            (#[trigger] seq_view(contracts@)[j]),
        ),
    ensures
        ({
            let fds = seq_view(contracts@);
            let id = spec_u32_from_be_bytes(s@.subrange(0, 4));
            &&& r matches Ok(mc) ==> {
                let fd = fds[mc.contract_index as int];
                let types = spec_in_types(fd.description.params, fd.c_function.params);
                &&& s@.len() >= 4
                &&& 0 <= mc.contract_index < fds.len()
                &&& Some(fd) == spec_contract_for_id(fds, id)
                &&& fd.description.id == id
                &&& mc.in_values@ == spec_values_from(s@, 4, types)
                &&& mc.in_values@.len() == types.len()
                &&& s@.len() == 4 + 4 * types.len()
            }
            &&& r == Result::<MinimalCall, MinimalError>::Err(MinimalError::UnknownId) <==> (
            s@.len() >= 4 && spec_contract_for_id(fds, id) is None)
            &&& r == Result::<MinimalCall, MinimalError>::Err(MinimalError::Truncated) <==> (
            s@.len() < 4 || (spec_contract_for_id(fds, id) matches Some(fd) && s@.len() < 4 + 4
                * spec_in_types(fd.description.params, fd.c_function.params).len()))
            &&& r == Result::<MinimalCall, MinimalError>::Err(MinimalError::TrailingBytes) <==> (
            s@.len() >= 4 && (spec_contract_for_id(fds, id) matches Some(fd) && s@.len() > 4 + 4
                * spec_in_types(fd.description.params, fd.c_function.params).len()))
        }),
{
    if s.len() < 4 {
        return Err(MinimalError::Truncated);
    }
    let id = crate::scalar_bytes::read_u32_be(s, 0);
    proof {
        assert(s@.subrange(0, 4) =~= s@.subrange(0int, 4int));
    }
    match find_contract_by_id(contracts, id) {
        None => {
            proof {
                lemma_contract_for_id_none(seq_view(contracts@), id);
            }
            Err(MinimalError::UnknownId)
        },
        Some(idx) => {
            proof {
                lemma_contract_for_id_index(seq_view(contracts@), id, idx as int);
                assert(seq_view(contracts@)[idx as int].description.id == spec_u32_from_be_bytes(
                    s@.subrange(0, 4),
                ));
            }
            let types = in_types(&contracts[idx]);
            proof {
                assert(seq_view(contracts@)[idx as int] == contracts@[idx as int]@);
                assert(forall|k: int|
                    0 <= k < types@.len() ==> (#[trigger] types@[k]).spec_supported()) by {
                    lemma_in_types_supported(
                        contracts@[idx as int]@.description.params,
                        contracts@[idx as int]@.c_function.params,
                    );
                }
            }
            match read_values(s, 4, &types) {
                Err(e) => Err(e),
                Ok(vals) => {
                    if s.len() > 4 + 4 * types.len() {
                        return Err(MinimalError::TrailingBytes);
                    }
                    Ok(MinimalCall { contract_index: idx, in_values: vals })
                },
            }
        },
    }
}

/// Every IN-direction type of a well-formed contract is supported.
proof fn lemma_in_types_supported(
    described: Seq<crate::descriptor::FunctionParameter>,
    params: Seq<CParam>,
)
    requires
        forall|i: int| 0 <= i < params.len() ==> (#[trigger] params[i]).ty.spec_supported(),
    ensures
        forall|k: int|
            0 <= k < spec_in_types(described, params).len() ==> (#[trigger] spec_in_types(
                described,
                params,
            )[k]).spec_supported(),
    decreases params.len(),
{
    if params.len() > 0 {
        lemma_in_types_supported(described, params.skip(1));
        assert(forall|i: int| 0 <= i < params.skip(1).len() ==> params.skip(1)[i] == params[i + 1]);
        let fields = spec_in_types(described, params);
        let rest = spec_in_types(described, params.skip(1));
        assert forall|k: int| 0 <= k < fields.len() implies (#[trigger] fields[k]).spec_supported()
            by {
            if spec_param_is_in(described, params[0]) {
                if k == 0 {
                    assert(fields[0] == params[0].ty);
                } else {
                    assert(fields[k] == rest[k - 1]);
                }
            } else {
                assert(fields[k] == rest[k]);
            }
        }
    }
}

/// Marshals one minimal-format response: the raw bytes of the return
/// value, then the raw bytes of the OUT-direction parameter values.
pub fn encode_minimal_response(return_value: i32, out_values: &Vec<WireValue>) -> (r: Vec<u8>)
    ensures
        r@ == spec_u32_to_raw_bytes(spec_i32_bits(return_value)) + spec_values_bytes(out_values@),
{
    let mut out: Vec<u8> = Vec::new();
    let bits = i32_bits(return_value);
    push_u32_raw(&mut out, bits);
    push_values(&mut out, out_values);
    proof {
        assert(out@ =~= spec_u32_to_raw_bytes(spec_i32_bits(return_value)) + spec_values_bytes(
            out_values@,
        ));
    }
    out
}

/// Unmarshals one minimal-format response: the return value and one wire
/// scalar per OUT-direction type; the byte count must be exact.
pub fn decode_minimal_response(s: &[u8], types: &Vec<CType>) -> (r: Result<
    (i32, Vec<WireValue>),
    MinimalError,
>)
    requires
        forall|k: int| 0 <= k < types@.len() ==> (#[trigger] types@[k]).spec_supported(),
    ensures
        r is Ok <==> s@.len() == 4 + 4 * types@.len(),
        r matches Ok((ret, vals)) ==> {
            &&& ret == spec_i32_from_bits(spec_u32_from_raw_bytes(s@.subrange(0, 4)))
            &&& vals@ == spec_values_from(s@, 4, types@)
            &&& vals@.len() == types@.len()
        },
        r == Result::<(i32, Vec<WireValue>), MinimalError>::Err(MinimalError::Truncated) <==> s@.len()
            < 4 + 4 * types@.len(),
        r == Result::<(i32, Vec<WireValue>), MinimalError>::Err(MinimalError::TrailingBytes)
            <==> s@.len() > 4 + 4 * types@.len(),
{
    let total = s.len();
    if total < 4 {
        return Err(MinimalError::Truncated);
    }
    if (total - 4) / 4 < types.len() {
        proof {
            vstd::arithmetic::div_mod::lemma_fundamental_div_mod(total - 4, 4);
            assert(4 * types@.len() > total - 4) by (nonlinear_arith)
                requires
                    (total - 4) / 4 < types@.len(),
                    4 * ((total - 4) / 4) + (total - 4) % 4 == total - 4,
                    0 <= (total - 4) % 4 < 4,
            ;
        }
        return Err(MinimalError::Truncated);
    }
    proof {
        vstd::arithmetic::div_mod::lemma_fundamental_div_mod(total - 4, 4);
        assert(4 * types@.len() <= total - 4) by (nonlinear_arith)
            requires
                (total - 4) / 4 >= types@.len(),
                4 * ((total - 4) / 4) + (total - 4) % 4 == total - 4,
                0 <= (total - 4) % 4 < 4,
        ;
    }
    if total > 4 + 4 * types.len() {
        return Err(MinimalError::TrailingBytes);
    }
    let raw = read_u32_raw(s, 0);
    let ret = i32_from_bits(raw);
    proof {
        assert(s@.subrange(0, 4) =~= s@.subrange(0int, 4int));
    }
    match read_values(s, 4, types) {
        Err(e) => {
            proof {
                assert(false);
            }
            Err(e)
        },
        Ok(vals) => Ok((ret, vals)),
    }
}

/// Reads the call identifier that leads a minimal-format request and maps
/// it to the call it names; an identifier that names none is a reported
/// error, never a crash.
pub fn parse_minimal_call_id(s: &[u8]) -> (r: Result<RPC, MinimalError>)
    ensures
        r matches Ok(rpc) ==> s@.len() >= 4 && spec_rpc_id(rpc) == spec_i32_from_bits(
            spec_u32_from_be_bytes(s@.subrange(0, 4)),
        ),
        r == Result::<RPC, MinimalError>::Err(MinimalError::Truncated) <==> s@.len() < 4,
        r == Result::<RPC, MinimalError>::Err(MinimalError::UnknownId) <==> (s@.len() >= 4
            && (forall|rpc: RPC|
            spec_rpc_id(rpc) != spec_i32_from_bits(spec_u32_from_be_bytes(s@.subrange(0, 4))))),
{
    if s.len() < 4 {
        return Err(MinimalError::Truncated);
    }
    let id = read_i32_be(s, 0);
    proof {
        assert(s@.subrange(0, 4) =~= s@.subrange(0int, 4int));
    }
    match RPC::try_parse(id) {
        Some(rpc) => Ok(rpc),
        None => Err(MinimalError::UnknownId),
    }
}

/// Marshals the version query's request: its identifier and, it having no
/// IN-direction parameter, nothing else.
pub fn cu_driver_get_version_request() -> (r: Vec<u8>)
    ensures
        r@ == spec_u32_to_be_bytes(spec_i32_bits(spec_rpc_id(RPC::cuDriverGetVersion))),
        r@.len() == 4,
{
    let rpc = RPC::cuDriverGetVersion;
    let id = rpc.id();
    let bits = i32_bits(id);
    let mut out: Vec<u8> = Vec::new();
    push_u32_be(&mut out, bits);
    proof {
        crate::scalar_bytes::lemma_u32_be_bytes_round_trip();
        assert(out@ =~= spec_u32_to_be_bytes(spec_i32_bits(spec_rpc_id(RPC::cuDriverGetVersion))));
    }
    out
}

/// Marshals the version query's response: the raw return value, then the
/// raw bytes its one OUT-direction parameter was filled with.
pub fn cu_driver_get_version_response(return_value: i32, driver_version: i32) -> (r: Vec<u8>)
    ensures
        r@ == spec_u32_to_raw_bytes(spec_i32_bits(return_value)) + spec_u32_to_raw_bytes(
            spec_i32_bits(driver_version),
        ),
        r@.len() == 8,
{
    let mut out_values: Vec<WireValue> = Vec::new();
    out_values.push(WireValue::I32(driver_version));
    let r = encode_minimal_response(return_value, &out_values);
    proof {
        assert(out_values@.skip(1).len() == 0);
        assert(spec_values_bytes(out_values@.skip(1)) =~= Seq::<u8>::empty());
        assert(spec_values_bytes(out_values@) =~= spec_u32_to_raw_bytes(
            spec_i32_bits(driver_version),
        ));
        assert(r@ =~= spec_u32_to_raw_bytes(spec_i32_bits(return_value)) + spec_u32_to_raw_bytes(
            spec_i32_bits(driver_version),
        ));
    }
    r
}

/// Unmarshals the version query's response: the returned value and the
/// value written through the OUT-direction parameter. Exactly eight bytes
/// are owed; a short buffer is a truncation, a long one trailing bytes.
pub fn cu_driver_get_version_parse_response(s: &[u8]) -> (r: Result<(i32, i32), MinimalError>)
    ensures
        r is Ok <==> s@.len() == 8,
        r matches Ok((ret, dv)) ==> {
            &&& ret == spec_i32_from_bits(spec_u32_from_raw_bytes(s@.subrange(0, 4)))
            &&& dv == spec_i32_from_bits(spec_u32_from_raw_bytes(s@.subrange(4, 8)))
        },
        r == Result::<(i32, i32), MinimalError>::Err(MinimalError::Truncated) <==> s@.len() < 8,
        r == Result::<(i32, i32), MinimalError>::Err(MinimalError::TrailingBytes) <==> s@.len() > 8,
{
    let mut types: Vec<CType> = Vec::new();
    types.push(CType::Elaborated { name: String::from_str("int") });
    match decode_minimal_response(s, &types) {
        Err(e) => Err(e),
        Ok((ret, vals)) => {
            proof {
                assert(types@.skip(1).len() == 0);
                assert(vals@[0] == spec_value_from(s@, 4, types@[0]));
                assert(s@.subrange(4int, 8int) =~= s@.subrange(4, 8));
            }
            let dv = match vals[0] {
                WireValue::I32(x) => x,
                WireValue::U32(_) => unreached(),
            };
            Ok((ret, dv))
        },
    }
}

/// A marshaled response unmarshals to the values it was built from: the
/// round trip of the version query's response.
pub proof fn lemma_cu_driver_get_version_response_round_trip(return_value: i32, driver_version: i32)
    ensures
        ({
            let bytes = spec_u32_to_raw_bytes(spec_i32_bits(return_value)) + spec_u32_to_raw_bytes(
                spec_i32_bits(driver_version),
            );
            &&& spec_i32_from_bits(spec_u32_from_raw_bytes(bytes.subrange(0, 4))) == return_value
            &&& spec_i32_from_bits(spec_u32_from_raw_bytes(bytes.subrange(4, 8))) == driver_version
        }),
{
    let bytes = spec_u32_to_raw_bytes(spec_i32_bits(return_value)) + spec_u32_to_raw_bytes(
        spec_i32_bits(driver_version),
    );
    crate::scalar_bytes::lemma_u32_raw_bytes_round_trip();
    crate::scalar_bytes::lemma_i32_bits_round_trip();
    assert(bytes.subrange(0, 4) =~= spec_u32_to_raw_bytes(spec_i32_bits(return_value)));
    assert(bytes.subrange(4, 8) =~= spec_u32_to_raw_bytes(spec_i32_bits(driver_version)));
}

/// A marshaled request unmarshals to the values it was built from: the
/// round trip of the minimal wire format, for every call identifier and
/// every value list matching a contract's IN-direction types.
pub proof fn lemma_minimal_request_round_trip(id: u32, values: Seq<WireValue>, types: Seq<CType>)
    requires
        values.len() == types.len(),
        forall|k: int| 0 <= k < values.len() ==> spec_value_matches(
            #[trigger] values[k],
            types[k],
        ) && types[k].spec_supported(),
    ensures
        ({
            let s = spec_u32_to_be_bytes(id) + spec_values_bytes(values);
            &&& spec_u32_from_be_bytes(s.subrange(0, 4)) == id
            &&& spec_values_from(s, 4, types) == values
        }),
{
    let s = spec_u32_to_be_bytes(id) + spec_values_bytes(values);
    crate::scalar_bytes::lemma_u32_be_bytes_round_trip();
    assert(s.subrange(0, 4) =~= spec_u32_to_be_bytes(id));
    lemma_minimal_values_round_trip(values, types, 4);
    assert(s =~= spec_u32_to_be_bytes(id) + spec_values_bytes(values) + Seq::<u8>::empty());
}

/// Raw value bytes read back as the values they were written from, behind
/// any prefix of the length they start at.
pub proof fn lemma_minimal_values_round_trip(values: Seq<WireValue>, types: Seq<CType>, at: int)
    requires
        values.len() == types.len(),
        forall|k: int| 0 <= k < values.len() ==> spec_value_matches(
            #[trigger] values[k],
            types[k],
        ) && types[k].spec_supported(),
        at >= 0,
    ensures
        forall|prefix: Seq<u8>, suffix: Seq<u8>|
            prefix.len() == at ==> spec_values_from(
                prefix + spec_values_bytes(values) + suffix,
                at,
                types,
            ) == values,
    decreases values.len(),
{
    assert forall|prefix: Seq<u8>, suffix: Seq<u8>| prefix.len() == at implies spec_values_from(
        prefix + spec_values_bytes(values) + suffix,
        at,
        types,
    ) == values by {
        let s = prefix + spec_values_bytes(values) + suffix;
        if values.len() > 0 {
            crate::scalar_bytes::lemma_u32_raw_bytes_round_trip();
            crate::scalar_bytes::lemma_i32_bits_round_trip();
            assert(s.subrange(at, at + 4) =~= spec_value_bytes(values[0]));
            assert(spec_value_from(s, at, types[0]) == values[0]);
            lemma_minimal_values_round_trip(values.skip(1), types.skip(1), at + 4);
            assert(forall|i: int|
                0 <= i < values.skip(1).len() ==> #[trigger] values.skip(1)[i] == values[i + 1]
                    && types.skip(1)[i] == types[i + 1]);
            let prefix2 = prefix + spec_value_bytes(values[0]);
            assert(s =~= prefix2 + spec_values_bytes(values.skip(1)) + suffix);
            assert(spec_values_from(s, at + 4, types.skip(1)) == values.skip(1));
            assert(spec_values_from(s, at, types) =~= seq![values[0]] + values.skip(1));
            assert(seq![values[0]] + values.skip(1) =~= values);
        } else {
            assert(spec_values_from(s, at, types) =~= values);
        }
    }
}

} // verus!
