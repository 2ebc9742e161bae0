//! Call identifiers of the minimal fixed-layout wire format.
//!
//! Each remotely callable function has one stable numeric identifier; the
//! identifier leads every request so the receiver knows which call follows.

use vstd::prelude::*;

verus! {

/// The calls the minimal wire format knows, one variant per function.
#[allow(non_camel_case_types)]
#[derive(PartialEq, Eq, Structural, Clone, Copy, Debug)]
pub enum RPC {
    cuDriverGetVersion,
}

/// The numeric identifier a call is announced by on the wire.
pub open spec fn spec_rpc_id(rpc: RPC) -> i32 {
    match rpc {
        RPC::cuDriverGetVersion => 1,
    }
}

impl RPC {
    /// The numeric identifier of this call.
    pub fn id(&self) -> (r: i32)
        ensures
            r == spec_rpc_id(*self),
    {
        match self {
            RPC::cuDriverGetVersion => 1,
        }
    }

    /// Maps a wire identifier back to its call, if the identifier is known.
    pub fn try_parse(value: i32) -> (r: Option<RPC>)
        ensures
            r matches Some(rpc) ==> spec_rpc_id(rpc) == value,
            r is None <==> (forall|rpc: RPC| spec_rpc_id(rpc) != value),
    {
        if value == 1 {
            Some(RPC::cuDriverGetVersion)
        } else {
            assert(forall|rpc: RPC| spec_rpc_id(rpc) != value);
            None
        }
    }

    /// Maps a wire identifier back to its call; only identifiers that name
    /// a call are accepted.
    pub fn parse(value: i32) -> (r: Self)
        requires
            exists|rpc: RPC| spec_rpc_id(rpc) == value,
        ensures
            spec_rpc_id(r) == value,
    {
        if value == 1 {
            RPC::cuDriverGetVersion
        } else {
            assert(forall|rpc: RPC| spec_rpc_id(rpc) != value);
            proof {
                let rpc = choose|rpc: RPC| spec_rpc_id(rpc) == value;
                assert(spec_rpc_id(rpc) == value);
            }
            unreached()
        }
    }
}

} // verus!
