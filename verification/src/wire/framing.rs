//! Direct-TCP framing: a zero byte and a 24-bit length before each packet.

use crate::bytes::put_bytes;
use crate::wire::error::WireError;
use vstd::prelude::*;

verus! {

/// Length of the prefix of a frame.
pub const DIRECT_TCP_HEADER_SIZE: usize = 4;

/// The longest payload that the length field can announce.
pub const DIRECT_TCP_MAX_PAYLOAD: usize = 0x00FF_FFFF;

/// The prefix of a frame with a payload of `n` bytes.
pub open spec fn frame_prefix(n: nat) -> Seq<u8> {
    seq![0u8, (n / 65536) as u8, (n / 256 % 256) as u8, (n % 256) as u8]
}

/// The frame of a payload.
pub open spec fn frame_of(payload: Seq<u8>) -> Seq<u8> {
    frame_prefix(payload.len()) + payload
}

/// The payload length that a prefix announces.
pub open spec fn announced_length(prefix: Seq<u8>) -> int {
    65536 * prefix[1] + 256 * prefix[2] + prefix[3]
}

/// Puts a payload into a frame.
pub fn encode_direct_tcp_frame(payload: &[u8]) -> (r: Result<Vec<u8>, WireError>)
    ensures
        payload@.len() > DIRECT_TCP_MAX_PAYLOAD ==> r == Err::<Vec<u8>, _>(
            WireError::TooLong("a direct-TCP payload"),
        ),
        payload@.len() <= DIRECT_TCP_MAX_PAYLOAD ==> r is Ok && r->Ok_0@ == frame_of(payload@),
{
    let n: usize = payload.len();
    if n > DIRECT_TCP_MAX_PAYLOAD {
        return Err(WireError::TooLong("a direct-TCP payload"));
    }
    let mut out: Vec<u8> = Vec::new();
    out.push(0);
    out.push((n / 65536) as u8);
    out.push((n / 256 % 256) as u8);
    out.push((n % 256) as u8);
    assert(out@ =~= frame_prefix(payload@.len()));
    put_bytes(&mut out, payload);
    Ok(out)
}

/// Reads the payload length from the beginning of a frame.
pub fn decode_direct_tcp_length(frame: &[u8]) -> (r: Result<usize, WireError>)
    ensures
        frame@.len() < DIRECT_TCP_HEADER_SIZE ==> r == Err::<usize, _>(
            WireError::Truncated("the direct-TCP prefix"),
        ),
        frame@.len() >= DIRECT_TCP_HEADER_SIZE && frame@[0] != 0 ==> r == Err::<usize, _>(
            WireError::Invalid("direct-TCP prefix"),
        ),
        frame@.len() >= DIRECT_TCP_HEADER_SIZE && frame@[0] == 0 ==> r is Ok && r->Ok_0
            == announced_length(frame@),
{
    if frame.len() < DIRECT_TCP_HEADER_SIZE {
        return Err(WireError::Truncated("the direct-TCP prefix"));
    }
    if frame[0] != 0 {
        return Err(WireError::Invalid("direct-TCP prefix"));
    }
    Ok(65536 * (frame[1] as usize) + 256 * (frame[2] as usize) + frame[3] as usize)
}

/// The prefix of a frame announces the length of its payload, and the payload follows it.
pub proof fn law_frame_roundtrip(payload: Seq<u8>, rest: Seq<u8>)
    requires
        payload.len() <= DIRECT_TCP_MAX_PAYLOAD,
    ensures
        (frame_of(payload) + rest)[0] == 0,
        announced_length(frame_of(payload) + rest) == payload.len(),
        (frame_of(payload) + rest).subrange(4, 4 + payload.len() as int) == payload,
{
    assert((frame_of(payload) + rest).subrange(4, 4 + payload.len() as int) =~= payload);
}

} // verus!
