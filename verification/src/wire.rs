//! The envelope messages of the schema-based wire format, as the schema
//! derives them for the covered function set: one call and one result
//! variant per function, and an envelope that may carry no variant at
//! all, which the dispatcher reports rather than crashes on.

use vstd::prelude::*;

verus! {

/// The call payload of the initialization function: its one IN-direction
/// parameter.
#[derive(PartialEq, Eq, Structural, Clone, Copy, Debug)]
pub struct NvmlInitWithFlagsFuncCall {
    pub flags: u32,
}

/// The call payload of the shutdown function: it has no IN-direction
/// parameter.
#[derive(PartialEq, Eq, Structural, Clone, Copy, Debug)]
pub struct NvmlShutdownFuncCall {
}

/// The result payload of the initialization function: the returned value.
#[derive(PartialEq, Eq, Structural, Clone, Copy, Debug)]
pub struct NvmlInitWithFlagsFuncResult {
    pub return_value: i32,
}

/// The result payload of the shutdown function: the returned value.
#[derive(PartialEq, Eq, Structural, Clone, Copy, Debug)]
pub struct NvmlShutdownFuncResult {
    pub return_value: i32,
}

/// The set variant of a call envelope, one case per function.
#[derive(PartialEq, Eq, Structural, Clone, Copy, Debug)]
pub enum FuncCallType {
    NvmlInitWithFlags(NvmlInitWithFlagsFuncCall),
    NvmlShutdown(NvmlShutdownFuncCall),
}

/// A call envelope: a tagged union that may also arrive with no variant
/// set.
#[derive(PartialEq, Eq, Structural, Clone, Copy, Debug)]
pub struct FuncCall {
    pub call_type: Option<FuncCallType>,
}

/// The set variant of a result envelope, one case per function.
#[derive(PartialEq, Eq, Structural, Clone, Copy, Debug)]
pub enum FuncResultType {
    NvmlInitWithFlags(NvmlInitWithFlagsFuncResult),
    NvmlShutdown(NvmlShutdownFuncResult),
}

/// A result envelope: a tagged union that may also arrive with no variant
/// set.
#[derive(PartialEq, Eq, Structural, Clone, Copy, Debug)]
pub struct FuncResult {
    pub result_type: Option<FuncResultType>,
}

} // verus!
