//! Remote execution of native GPU-management API calls.
//!
//! An interface compiler joins hand-authored function descriptors with a
//! model of the native header's declarations, validates the join, and
//! renders three artifacts: a wire schema, a client stub source and a
//! server dispatcher source. A small runtime carries calls and results
//! over a byte stream: a schema-based envelope codec, a length-prefixed
//! framing layer, a minimal fixed-layout framing, and a dispatcher that
//! plans the native call and wraps its return value.

pub mod casing;
pub mod codec;
pub mod contract;
pub mod decimal;
pub mod descriptor;
pub mod dispatch;
pub mod framing;
pub mod header;
pub mod minimal;
pub mod names;
pub mod rpc;
pub mod scalar_bytes;
pub mod schema;
pub mod schema_text;
pub mod session;
pub mod stub_text;
pub mod varint;
pub mod views;
pub mod wire;
