//! What the bodies of all packets have in common.

use crate::bytes::get_u16;
use crate::bytes::u16_at;
use crate::wire::error::WireError;
use crate::wire::header::header_error;
use crate::wire::header::header_of;
use crate::wire::header::Command;
use crate::wire::header::Smb2Header;
use vstd::prelude::*;

verus! {

/// Why a packet does not hold a body of `fixed` bytes of a command, if it does not.
pub open spec fn body_error(m: Seq<u8>, command: Command, fixed: int, size: u16) -> Option<
    WireError,
> {
    match header_error(m) {
        Some(e) => Some(e),
        None => if header_of(m).command != command {
            Some(WireError::Invalid("command for this body"))
        } else if m.len() < 64 + fixed {
            Some(WireError::Truncated("the body"))
        } else if u16_at(m, 64) != size {
            Some(WireError::Invalid("body structure size"))
        } else {
            None
        },
    }
}

/// Checks the header and the fixed part of the body of a packet.
pub fn check_body(m: &[u8], command: Command, fixed: usize, size: u16) -> (r: Result<
    Smb2Header,
    WireError,
>)
    requires
        2 <= fixed <= 1024,
    ensures
        match body_error(m@, command, fixed as int, size) {
            Some(e) => r == Err::<Smb2Header, WireError>(e),
            None => r == Ok::<Smb2Header, WireError>(header_of(m@)),
        },
{
    let header = Smb2Header::decode(m)?;
    if header.command != command {
        return Err(WireError::Invalid("command for this body"));
    }
    if m.len() < 64 + fixed {
        return Err(WireError::Truncated("the body"));
    }
    if get_u16(m, 64) != size {
        return Err(WireError::Invalid("body structure size"));
    }
    Ok(header)
}

/// Whether a variable part lies inside a packet, behind its fixed part. An empty one always does.
pub open spec fn buffer_inside(m: Seq<u8>, offset: int, len: int, earliest: int) -> bool {
    len == 0 || (earliest <= offset && offset + len <= m.len())
}

/// A variable part of a packet.
pub open spec fn buffer_of(m: Seq<u8>, offset: int, len: int) -> Seq<u8> {
    if len == 0 {
        Seq::empty()
    } else {
        m.subrange(offset, offset + len)
    }
}

/// Copies a variable part out of a packet.
pub fn take_buffer(
    m: &[u8],
    offset: u32,
    len: u32,
    earliest: u32,
    part: &'static str,
) -> (r: Result<Vec<u8>, WireError>)
    ensures
        buffer_inside(m@, offset as int, len as int, earliest as int) ==> r is Ok && r->Ok_0@
            == buffer_of(m@, offset as int, len as int),
        !buffer_inside(m@, offset as int, len as int, earliest as int) ==> r == Err::<Vec<u8>, _>(
            WireError::Truncated(part),
        ),
{
    let mut out: Vec<u8> = Vec::new();
    if len == 0 {
        assert(out@ =~= Seq::empty());
        return Ok(out);
    }
    if offset < earliest {
        return Err(WireError::Truncated(part));
    }
    let end: u64 = offset as u64 + len as u64;
    if end > m.len() as u64 {
        return Err(WireError::Truncated(part));
    }
    out.extend_from_slice(&m[offset as usize..end as usize]);
    Ok(out)
}

} // verus!
