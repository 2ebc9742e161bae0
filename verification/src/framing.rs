//! Length-prefixed framing over a byte stream.
//!
//! A frame is a four-byte big-endian length followed by exactly that many
//! payload bytes. Reading distinguishes three outcomes that the session
//! layer treats differently: a clean end of the stream at a frame
//! boundary (the peer disconnected, the expected way to end a session), a
//! stream cut inside the length header, and a stream cut inside the
//! payload; the latter two are errors, never partial decodes.

use crate::scalar_bytes::{push_u32_be, read_u32_be, spec_u32_from_be_bytes, spec_u32_to_be_bytes};
use vstd::prelude::*;

verus! {

/// Why no frame could be read.
#[derive(PartialEq, Eq, Structural, Clone, Copy, Debug)]
pub enum FrameError {
    /// The stream ended exactly at a frame boundary: a normal session
    /// end, not an error.
    CleanEof,
    /// The stream ended inside the four length bytes.
    TruncatedHeader,
    /// The stream ended inside the payload the length announced.
    TruncatedPayload,
}

/// The payload length the header starting at `at` announces.
pub open spec fn spec_frame_len(s: Seq<u8>, at: int) -> int
    recommends
        0 <= at,
        at + 4 <= s.len(),
{
    spec_u32_from_be_bytes(s.subrange(at, at + 4)) as int
}

/// Wraps a payload in one frame: its length in four big-endian bytes,
/// then the payload itself.
pub fn encode_frame(payload: &Vec<u8>) -> (r: Vec<u8>)
    requires
        payload@.len() <= u32::MAX,
    ensures
        r@ == spec_u32_to_be_bytes(payload@.len() as u32) + payload@,
        r@.len() == payload@.len() + 4,
{
    let mut out: Vec<u8> = Vec::new();
    push_u32_be(&mut out, payload.len() as u32);
    crate::codec::append_bytes(&mut out, payload);
    proof {
        crate::scalar_bytes::lemma_u32_be_bytes_round_trip();
    }
    out
}

/// Reads the frame starting at `at` in the received stream `s`: its
/// payload and the position behind it. The three failure modes are told
/// apart exactly: a clean end of stream at the boundary, a cut inside the
/// header, and a cut inside the announced payload.
pub fn read_frame(s: &[u8], at: usize) -> (r: Result<(Vec<u8>, usize), FrameError>)
    requires
        at <= s@.len(),
    ensures
        r is Ok <==> (at + 4 <= s@.len() && at + 4 + spec_frame_len(s@, at as int) <= s@.len()),
        r matches Ok((payload, next)) ==> {
            &&& at + 4 <= s@.len()
            &&& payload@.len() == spec_frame_len(s@, at as int)
            &&& next == at + 4 + payload@.len()
            &&& next <= s@.len()
            &&& payload@ == s@.subrange(at + 4, next as int)
        },
        r == Result::<(Vec<u8>, usize), FrameError>::Err(FrameError::CleanEof) <==> at == s@.len(),
        r == Result::<(Vec<u8>, usize), FrameError>::Err(FrameError::TruncatedHeader) <==> (at
            < s@.len() && at + 4 > s@.len()),
        r == Result::<(Vec<u8>, usize), FrameError>::Err(FrameError::TruncatedPayload) <==> (at + 4
            <= s@.len() && at + 4 + spec_frame_len(s@, at as int) > s@.len()),
{
    if at == s.len() {
        return Err(FrameError::CleanEof);
    }
    if s.len() - at < 4 {
        return Err(FrameError::TruncatedHeader);
    }
    let len = read_u32_be(s, at) as usize;
    if s.len() - at - 4 < len {
        return Err(FrameError::TruncatedPayload);
    }
    let end: usize = at + 4 + len;
    let mut payload: Vec<u8> = Vec::new();
    let mut i: usize = at + 4;
    while i < end
        invariant
            at + 4 <= i <= end,
            end == at + 4 + len,
            end <= s@.len(),
            payload@ == s@.subrange(at + 4, i as int),
        decreases end - i,
    {
        payload.push(s[i]);
        proof {
            assert(payload@ =~= s@.subrange(at + 4, i + 1));
        }
        i = i + 1;
    }
    Ok((payload, end))
}

} // verus!
