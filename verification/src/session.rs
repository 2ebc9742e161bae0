//! The ordering law of one connection.
//!
//! A connection carries at most one call at a time: a result always
//! answers the most recently sent call. Over a whole session this means
//! the stream of results answers the stream of calls position by
//! position, so two callers that serialize their calls — in either order
//! — each read back a result tagged for their own call, carrying the
//! value their call earned. The lock that serializes the callers lives in
//! the outer layer; the law it buys is stated and proved here.

use crate::dispatch::{spec_result_value, spec_same_function, spec_wrap_result};
use crate::wire::{FuncCall, FuncResult};
use vstd::prelude::*;

verus! {

/// Whether every call of a session carries a set variant.
pub open spec fn spec_calls_wf(calls: Seq<FuncCall>) -> bool {
    forall|i: int| 0 <= i < calls.len() ==> (#[trigger] calls[i]).call_type is Some
}

/// The results a session's server sends back, in order: the `i`-th result
/// wraps what the native library returned for the `i`-th call.
pub open spec fn spec_session_results(calls: Seq<FuncCall>, rets: Seq<i32>) -> Seq<FuncResult>
    recommends
        spec_calls_wf(calls),
        rets.len() == calls.len(),
{
    Seq::new(calls.len(), |i: int| spec_wrap_result(calls[i].call_type.unwrap(), rets[i]))
}

/// No cross-talk on a serialized connection: in a session whose calls and
/// results are strictly ordered and paired, the result at every position
/// is tagged for the function the call at that position named, and
/// carries exactly the value that call's native invocation returned —
/// whichever order concurrent callers serialized their calls in.
pub proof fn lemma_session_pairing(calls: Seq<FuncCall>, rets: Seq<i32>)
    requires
        spec_calls_wf(calls),
        rets.len() == calls.len(),
    ensures
        spec_session_results(calls, rets).len() == calls.len(),
        forall|i: int|
            0 <= i < calls.len() ==> {
                let res = #[trigger] spec_session_results(calls, rets)[i];
                &&& res.result_type is Some
                &&& spec_same_function(calls[i].call_type.unwrap(), res.result_type.unwrap())
                &&& spec_result_value(res.result_type.unwrap()) == rets[i]
            },
{
    assert forall|i: int| 0 <= i < calls.len() implies {
        let res = #[trigger] spec_session_results(calls, rets)[i];
        &&& res.result_type is Some
        &&& spec_same_function(calls[i].call_type.unwrap(), res.result_type.unwrap())
        &&& spec_result_value(res.result_type.unwrap()) == rets[i]
    } by {
        let t = calls[i].call_type.unwrap();
        let res = spec_session_results(calls, rets)[i];
        assert(res == spec_wrap_result(t, rets[i]));
    }
}

} // verus!
