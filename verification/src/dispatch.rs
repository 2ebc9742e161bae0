//! The server dispatcher's decisions.
//!
//! Decoding a call envelope yields at most one set variant; the variant
//! names the native function to resolve and carries its decoded IN
//! parameters. Resolving and invoking the native symbol is the unsafe
//! outer layer's business; the decisions — which symbol, which arguments,
//! and how the returned value is wrapped — stand here, and hold whatever
//! value the native call returns.

use crate::wire::{
    FuncCall, FuncCallType, FuncResult, FuncResultType, NvmlInitWithFlagsFuncCall,
    NvmlInitWithFlagsFuncResult, NvmlShutdownFuncCall, NvmlShutdownFuncResult,
};
use vstd::prelude::*;

verus! {

/// Why a decoded call envelope cannot be dispatched.
#[derive(PartialEq, Eq, Structural, Clone, Copy, Debug)]
pub enum DispatchError {
    /// The envelope decoded, but no variant was set: a reported error,
    /// never a crash.
    NoTypeProvided,
}

/// What the dispatcher decides for a call envelope: the set variant, or
/// the error reported for an envelope without one.
pub open spec fn spec_plan_call(call: FuncCall) -> Result<FuncCallType, DispatchError> {
    match call.call_type {
        Option::Some(t) => Ok(t),
        Option::None => Err(DispatchError::NoTypeProvided),
    }
}

/// Decides what a call envelope asks for: its set variant, which names
/// the native function and carries the decoded IN parameters; an envelope
/// with no set variant earns a reported error.
pub fn plan_call(call: &FuncCall) -> (r: Result<FuncCallType, DispatchError>)
    ensures
        r == spec_plan_call(*call),
        r is Err <==> call.call_type is None,
{
    match &call.call_type {
        Some(t) => Ok(*t),
        None => Err(DispatchError::NoTypeProvided),
    }
}

/// The exported name of the native symbol a call variant resolves to.
pub open spec fn spec_symbol_name(t: FuncCallType) -> Seq<char> {
    match t {
        FuncCallType::NvmlInitWithFlags(_) => "nvmlInitWithFlags"@,
        FuncCallType::NvmlShutdown(_) => "nvmlShutdown"@,
    }
}

/// The exported name of the native symbol a call variant resolves to.
pub fn symbol_name(t: &FuncCallType) -> (r: String)
    ensures
        r@ == spec_symbol_name(*t),
{
    match t {
        FuncCallType::NvmlInitWithFlags(_) => String::from_str("nvmlInitWithFlags"),
        FuncCallType::NvmlShutdown(_) => String::from_str("nvmlShutdown"),
    }
}

/// Whether a result variant answers a call variant: both name the same
/// function.
pub open spec fn spec_same_function(t: FuncCallType, rt: FuncResultType) -> bool {
    match (t, rt) {
        (FuncCallType::NvmlInitWithFlags(_), FuncResultType::NvmlInitWithFlags(_)) => true,
        (FuncCallType::NvmlShutdown(_), FuncResultType::NvmlShutdown(_)) => true,
        _ => false,
    }
}

/// The value a result variant carries.
pub open spec fn spec_result_value(rt: FuncResultType) -> i32 {
    match rt {
        FuncResultType::NvmlInitWithFlags(ir) => ir.return_value,
        FuncResultType::NvmlShutdown(sr) => sr.return_value,
    }
}

/// The result envelope that answers the call variant `t` when the native
/// call returned `ret`.
pub open spec fn spec_wrap_result(t: FuncCallType, ret: i32) -> FuncResult {
    match t {
        FuncCallType::NvmlInitWithFlags(_) => FuncResult {
            result_type: Some(
                FuncResultType::NvmlInitWithFlags(
                    NvmlInitWithFlagsFuncResult { return_value: ret },
                ),
            ),
        },
        FuncCallType::NvmlShutdown(_) => FuncResult {
            result_type: Some(
                FuncResultType::NvmlShutdown(NvmlShutdownFuncResult { return_value: ret }),
            ),
        },
    }
}

/// Wraps the value the native initialization call returned, whatever it
/// was, in the matching result variant.
#[allow(non_snake_case)]
pub fn handle_NvmlInitWithFlags(call: &NvmlInitWithFlagsFuncCall, native_return: i32) -> (r:
    FuncResult)
    ensures
        r == spec_wrap_result(FuncCallType::NvmlInitWithFlags(*call), native_return),
{
    FuncResult {
        result_type: Some(
            FuncResultType::NvmlInitWithFlags(
                NvmlInitWithFlagsFuncResult { return_value: native_return },
            ),
        ),
    }
}

/// Wraps the value the native shutdown call returned, whatever it was, in
/// the matching result variant.
#[allow(non_snake_case)]
pub fn handle_NvmlShutdown(call: &NvmlShutdownFuncCall, native_return: i32) -> (r: FuncResult)
    ensures
        r == spec_wrap_result(FuncCallType::NvmlShutdown(*call), native_return),
{
    FuncResult {
        result_type: Some(
            FuncResultType::NvmlShutdown(NvmlShutdownFuncResult { return_value: native_return }),
        ),
    }
}

/// Wraps the value the native call returned in the result variant that
/// answers the dispatched call variant.
pub fn wrap_result(t: &FuncCallType, native_return: i32) -> (r: FuncResult)
    ensures
        r == spec_wrap_result(*t, native_return),
{
    match t {
        FuncCallType::NvmlInitWithFlags(c) => handle_NvmlInitWithFlags(c, native_return),
        FuncCallType::NvmlShutdown(c) => handle_NvmlShutdown(c, native_return),
    }
}

/// Dispatch correctness: for every call envelope with a set variant and
/// every value the native call may return, the planned dispatch resolves
/// that variant, and the wrapped answer is tagged for the same function
/// and carries exactly the returned value. An envelope with no variant
/// earns the reported error instead.
pub proof fn lemma_dispatch_correct(call: FuncCall, ret: i32)
    ensures
        call.call_type matches Some(t) ==> {
            &&& spec_plan_call(call) == Result::<FuncCallType, DispatchError>::Ok(t)
            &&& spec_wrap_result(t, ret).result_type matches Some(rt)
            &&& spec_same_function(t, spec_wrap_result(t, ret).result_type.unwrap())
            &&& spec_result_value(spec_wrap_result(t, ret).result_type.unwrap()) == ret
        },
        call.call_type is None ==> spec_plan_call(call) == Result::<
            FuncCallType,
            DispatchError,
        >::Err(DispatchError::NoTypeProvided),
{
}

} // verus!
