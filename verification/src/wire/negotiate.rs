//! NEGOTIATE packets.

use crate::bytes::copy_16;
use crate::bytes::get_u16;
use crate::bytes::get_u32;
use crate::bytes::le16;
use crate::bytes::le32;
use crate::bytes::put_bytes;
use crate::bytes::put_u16;
use crate::bytes::put_u32;
use crate::bytes::put_zeros;
use crate::bytes::u16_at;
use crate::bytes::u32_at;
use crate::bytes::zeros;
use crate::wire::body::body_error;
use crate::wire::body::check_body;
use crate::wire::context::context_views;
use crate::wire::context::contexts_fit;
use crate::wire::context::negotiate_contexts_bytes;
use crate::wire::context::pad8;
use crate::wire::context::padding;
use crate::wire::context::put_negotiate_contexts;
use crate::wire::context::NegotiateContext;
use crate::wire::context::NegotiateContextView;
use crate::wire::error::WireError;
use crate::wire::header::encode_request_header;
use crate::wire::header::header_bytes;
use crate::wire::header::header_of;
use crate::wire::header::lemma_header_len;
use crate::wire::header::request_header;
use crate::wire::header::Command;
use crate::wire::header::Smb2Header;
use vstd::prelude::*;

verus! {

/// SMB2 and SMB3 dialects.
#[derive(Clone, Copy, Debug, PartialEq, Eq, Structural)]
pub enum Dialect {
    Smb202,
    Smb210,
    Smb300,
    Smb302,
    Smb311,
}

impl Dialect {
    /// The revision number of a dialect.
    pub open spec fn code(self) -> u16 {
        match self {
            Dialect::Smb202 => 0x0202,
            Dialect::Smb210 => 0x0210,
            Dialect::Smb300 => 0x0300,
            Dialect::Smb302 => 0x0302,
            Dialect::Smb311 => 0x0311,
        }
    }

    /// The dialect with a revision number.
    pub open spec fn with_code(code: u16) -> Option<Dialect> {
        if code == 0x0202 {
            Some(Dialect::Smb202)
        } else if code == 0x0210 {
            Some(Dialect::Smb210)
        } else if code == 0x0300 {
            Some(Dialect::Smb300)
        } else if code == 0x0302 {
            Some(Dialect::Smb302)
        } else if code == 0x0311 {
            Some(Dialect::Smb311)
        } else {
            None
        }
    }

    /// The revision number of this dialect.
    pub fn to_u16(self) -> (r: u16)
        ensures
            r == self.code(),
    {
        match self {
            Dialect::Smb202 => 0x0202,
            Dialect::Smb210 => 0x0210,
            Dialect::Smb300 => 0x0300,
            Dialect::Smb302 => 0x0302,
            Dialect::Smb311 => 0x0311,
        }
    }

    /// The dialect with this revision number.
    pub fn from_u16(code: u16) -> (r: Option<Dialect>)
        ensures
            r == Dialect::with_code(code),
    {
        match code {
            0x0202 => Some(Dialect::Smb202),
            0x0210 => Some(Dialect::Smb210),
            0x0300 => Some(Dialect::Smb300),
            0x0302 => Some(Dialect::Smb302),
            0x0311 => Some(Dialect::Smb311),
            _ => None,
        }
    }
}

/// Whether a list of dialects holds one.
pub fn dialects_contain(dialects: &Vec<Dialect>, wanted: Dialect) -> (r: bool)
    ensures
        r == dialects@.contains(wanted),
{
    let mut i: usize = 0;
    while i < dialects.len()
        invariant
            i <= dialects@.len(),
            forall|j: int| 0 <= j < i ==> dialects@[j] != wanted,
        decreases dialects@.len() - i,
    {
        if dialects[i] == wanted {
            return true;
        }
        i = i + 1;
    }
    false
}

/// A NEGOTIATE request.
#[derive(Debug, Clone, PartialEq, Eq)]
pub struct NegotiateRequest {
    pub security_mode: u16,
    pub capabilities: u32,
    pub client_guid: [u8; 16],
    pub dialects: Vec<Dialect>,
    pub contexts: Vec<NegotiateContext>,
}

/// What a NEGOTIATE request says.
pub struct NegotiateRequestView {
    pub security_mode: u16,
    pub capabilities: u32,
    pub client_guid: Seq<u8>,
    pub dialects: Seq<Dialect>,
    pub contexts: Seq<NegotiateContextView>,
}

impl View for NegotiateRequest {
    type V = NegotiateRequestView;

    open spec fn view(&self) -> NegotiateRequestView {
        NegotiateRequestView {
            security_mode: self.security_mode,
            capabilities: self.capabilities,
            client_guid: self.client_guid@,
            dialects: self.dialects@,
            contexts: context_views(self.contexts@),
        }
    }
}

/// The bytes of a list of dialects.
pub open spec fn dialect_bytes(dialects: Seq<Dialect>) -> Seq<u8>
    decreases dialects.len(),
{
    if dialects.len() == 0 {
        Seq::empty()
    } else {
        dialect_bytes(dialects.drop_last()) + le16(dialects.last().code())
    }
}

proof fn lemma_dialect_bytes_len(dialects: Seq<Dialect>)
    ensures
        dialect_bytes(dialects).len() == 2 * dialects.len(),
    decreases dialects.len(),
{
    broadcast use crate::bytes::group_int_len;

    if dialects.len() > 0 {
        lemma_dialect_bytes_len(dialects.drop_last());
    }
}

/// Where the contexts of a NEGOTIATE request with `n` dialects begin.
pub open spec fn negotiate_context_offset(n: int) -> int {
    100 + 2 * n + pad8(100 + 2 * n)
}

/// The fixed part of a NEGOTIATE request, with the offset that it announces.
#[verifier::opaque]
pub open spec fn negotiate_fixed_bytes(
    q: NegotiateRequestView,
    message_id: u64,
    credits: u16,
    offset: u32,
) -> Seq<u8> {
    header_bytes(request_header(Command::Negotiate, message_id, 0, 0, 0, credits)) + le16(36)
        + le16(q.dialects.len() as u16) + le16(q.security_mode) + le16(0) + le32(q.capabilities)
        + q.client_guid + le32(offset) + le16(q.contexts.len() as u16) + le16(0)
}

/// The bytes of a NEGOTIATE request. The contexts are announced only where there are any.
pub open spec fn negotiate_request_bytes(
    q: NegotiateRequestView,
    message_id: u64,
    credits: u16,
) -> Seq<u8> {
    let n = q.dialects.len() as int;
    let offset = if q.contexts.len() == 0 {
        0
    } else {
        negotiate_context_offset(n)
    };
    let fixed = negotiate_fixed_bytes(q, message_id, credits, offset as u32) + dialect_bytes(
        q.dialects,
    );
    if q.contexts.len() == 0 {
        fixed
    } else {
        fixed + zeros(pad8(100 + 2 * n)) + negotiate_contexts_bytes(q.contexts)
    }
}

/// Why a NEGOTIATE request cannot be encoded, if it cannot.
pub open spec fn negotiate_request_error(q: NegotiateRequestView) -> Option<WireError> {
    if q.dialects.len() > u16::MAX {
        Some(WireError::TooLong("the dialect list"))
    } else if q.contexts.len() > u16::MAX {
        Some(WireError::TooLong("the negotiate context list"))
    } else if !contexts_fit(q.contexts) {
        Some(WireError::TooLong("a negotiate context"))
    } else {
        None
    }
}

/// Appends a list of dialects.
fn put_dialects(out: &mut Vec<u8>, dialects: &Vec<Dialect>)
    ensures
        final(out)@ == old(out)@ + dialect_bytes(dialects@),
{
    let ghost before = out@;
    let mut i: usize = 0;
    assert(out@ =~= before + dialect_bytes(dialects@.take(0)));
    while i < dialects.len()
        invariant
            i <= dialects@.len(),
            out@ == before + dialect_bytes(dialects@.take(i as int)),
        decreases dialects@.len() - i,
    {
        put_u16(out, dialects[i].to_u16());
        proof {
            let next = dialects@.take(i + 1);
            assert(next.drop_last() =~= dialects@.take(i as int));
            assert(out@ =~= before + dialect_bytes(next));
        }
        i = i + 1;
    }
    assert(dialects@.take(i as int) =~= dialects@);
}

impl NegotiateRequest {
    /// Encodes the header and the fixed part of the body.
    fn encode_fixed(&self, message_id: u64, credits: u16, offset: u32) -> (r: Vec<u8>)
        requires
            self.dialects@.len() <= u16::MAX,
            self.contexts@.len() <= u16::MAX,
        ensures
            r@ == negotiate_fixed_bytes(self@, message_id, credits, offset),
            r@.len() == 100,
    {
        broadcast use crate::bytes::group_int_len;

        proof {
            reveal(negotiate_fixed_bytes);
            lemma_header_len(request_header(Command::Negotiate, message_id, 0, 0, 0, credits));
        }
        let mut out = encode_request_header(Command::Negotiate, message_id, 0, 0, 0, credits);
        put_u16(&mut out, 36);
        put_u16(&mut out, self.dialects.len() as u16);
        put_u16(&mut out, self.security_mode);
        put_u16(&mut out, 0);
        put_u32(&mut out, self.capabilities);
        put_bytes(&mut out, &self.client_guid);
        put_u32(&mut out, offset);
        put_u16(&mut out, self.contexts.len() as u16);
        put_u16(&mut out, 0);
        out
    }

    /// Encodes the request with its header.
    #[verifier::spinoff_prover]
    pub fn encode_message(&self, message_id: u64, credits: u16) -> (r: Result<Vec<u8>, WireError>)
        ensures
            match negotiate_request_error(self@) {
                Some(e) => r == Err::<Vec<u8>, WireError>(e),
                None => r is Ok && r->Ok_0@ == negotiate_request_bytes(self@, message_id, credits),
            },
    {
        assert(context_views(self.contexts@).len() == self.contexts@.len());
        if self.dialects.len() > u16::MAX as usize {
            return Err(WireError::TooLong("the dialect list"));
        }
        if self.contexts.len() > u16::MAX as usize {
            return Err(WireError::TooLong("the negotiate context list"));
        }
        let n: usize = self.dialects.len();
        let offset: u32 = if self.contexts.len() == 0 {
            0
        } else {
            (100 + 2 * n + padding(100 + 2 * n)) as u32
        };
        let mut out = self.encode_fixed(message_id, credits, offset);
        put_dialects(&mut out, &self.dialects);
        if self.contexts.len() > 0 {
            proof {
                lemma_dialect_bytes_len(self.dialects@);
            }
            let pad: usize = padding(100 + 2 * n);
            put_zeros(&mut out, pad);
            put_negotiate_contexts(&mut out, &self.contexts)?;
        }
        Ok(out)
    }
}

/// A NEGOTIATE response.
#[derive(Debug, Clone, PartialEq, Eq)]
pub struct NegotiateResponse {
    pub header: Smb2Header,
    pub security_mode: u16,
    pub dialect: Dialect,
    pub server_guid: [u8; 16],
    pub capabilities: u32,
    pub max_transact_size: u32,
    pub max_read_size: u32,
    pub max_write_size: u32,
    pub contexts: Vec<NegotiateContext>,
}

/// The `n` negotiate contexts that begin at `at`, each aligned to eight bytes.
pub open spec fn negotiate_contexts_of(m: Seq<u8>, at: int, n: nat) -> Option<
    Seq<NegotiateContextView>,
>
    decreases n,
{
    if n == 0 {
        Some(Seq::empty())
    } else if at + 8 > m.len() || at + 8 + u16_at(m, at + 2) > m.len() {
        None
    } else {
        let end = at + 8 + u16_at(m, at + 2);
        match negotiate_contexts_of(m, end + pad8(end), (n - 1) as nat) {
            Some(rest) => Some(
                seq![
                    NegotiateContextView {
                        context_type: u16_at(m, at),
                        data: m.subrange(at + 8, end),
                    },
                ] + rest,
            ),
            None => None,
        }
    }
}

/// The contexts of a NEGOTIATE response. Only SMB 3.1.1 has any.
pub open spec fn negotiate_response_contexts(m: Seq<u8>) -> Option<Seq<NegotiateContextView>> {
    if u16_at(m, 68) != 0x0311 {
        Some(Seq::empty())
    } else if u16_at(m, 70) > 0 && u32_at(m, 124) < 128 {
        None
    } else {
        negotiate_contexts_of(m, u32_at(m, 124) as int, u16_at(m, 70) as nat)
    }
}

/// Why a packet is no NEGOTIATE response, if it is none.
pub open spec fn negotiate_response_error(m: Seq<u8>) -> Option<WireError> {
    match body_error(m, Command::Negotiate, 64, 65) {
        Some(e) => Some(e),
        None => if Dialect::with_code(u16_at(m, 68)) is None {
            Some(WireError::Invalid("dialect revision"))
        } else if negotiate_response_contexts(m) is None {
            Some(WireError::Truncated("the negotiate contexts"))
        } else {
            None
        },
    }
}

/// Decodes `n` negotiate contexts from index `at` on.
fn decode_negotiate_contexts(m: &[u8], at: usize, n: usize) -> (r: Option<Vec<NegotiateContext>>)
    ensures
        r is Some <==> negotiate_contexts_of(m@, at as int, n as nat) is Some,
        r is Some ==> context_views(r->0@) == negotiate_contexts_of(m@, at as int, n as nat)->0,
{
    let mut out: Vec<NegotiateContext> = Vec::new();
    let mut next: usize = at;
    let mut left: usize = n;
    let ghost whole = negotiate_contexts_of(m@, at as int, n as nat);
    assert(context_views(out@) =~= Seq::empty());
    proof {
        if whole is Some {
            assert(context_views(out@) + whole->0 =~= whole->0);
        }
    }
    while left > 0
        invariant
            whole == negotiate_contexts_of(m@, at as int, n as nat),
            whole is Some <==> negotiate_contexts_of(m@, next as int, left as nat) is Some,
            whole is Some ==> whole->0 == context_views(out@) + negotiate_contexts_of(
                m@,
                next as int,
                left as nat,
            )->0,
        decreases left,
    {
        assert(m.len() == m@.len());
        if m.len() < 8 || next > m.len() - 8 {
            return None;
        }
        let len: usize = get_u16(m, next + 2) as usize;
        if len > m.len() - 8 - next {
            return None;
        }
        let end: usize = next + 8 + len;
        let mut data: Vec<u8> = Vec::new();
        data.extend_from_slice(&m[next + 8..end]);
        assert(data@ =~= m@.subrange(next + 8, end as int));
        let pad: usize = padding(end);
        if end > usize::MAX - pad {
            if left > 1 {
                proof {
                    reveal_with_fuel(negotiate_contexts_of, 3);
                }
                return None;
            }
        }
        let ghost before = context_views(out@);
        let context = NegotiateContext { context_type: get_u16(m, next), data };
        out.push(context);
        proof {
            let rest = negotiate_contexts_of(m@, end + pad8(end as int), (left - 1) as nat);
            assert(context_views(out@) =~= before.push(context@));
            if rest is Some {
                assert(context_views(out@) + rest->0 =~= before + (seq![context@] + rest->0));
            }
        }
        left = left - 1;
        if left > 0 {
            next = end + pad;
        } else {
            next = end;
            assert(negotiate_contexts_of(m@, end + pad8(end as int), 0) == negotiate_contexts_of(
                m@,
                end as int,
                0,
            ));
        }
    }
    assert(context_views(out@) + Seq::empty() =~= context_views(out@));
    Some(out)
}

impl NegotiateResponse {
    /// Decodes a NEGOTIATE response with its header.
    pub fn decode_message(m: &[u8]) -> (r: Result<NegotiateResponse, WireError>)
        ensures
            match negotiate_response_error(m@) {
                Some(e) => r == Err::<NegotiateResponse, WireError>(e),
                None => r is Ok && {
                    let p = r->Ok_0;
                    &&& p.header == header_of(m@)
                    &&& p.security_mode == u16_at(m@, 66)
                    &&& p.dialect == Dialect::with_code(u16_at(m@, 68))->0
                    &&& p.server_guid@ == m@.subrange(72, 88)
                    &&& p.capabilities == u32_at(m@, 88)
                    &&& p.max_transact_size == u32_at(m@, 92)
                    &&& p.max_read_size == u32_at(m@, 96)
                    &&& p.max_write_size == u32_at(m@, 100)
                    &&& context_views(p.contexts@) == negotiate_response_contexts(m@)->0
                },
            },
    {
        let header = check_body(m, Command::Negotiate, 64, 65)?;
        let dialect = match Dialect::from_u16(get_u16(m, 68)) {
            Some(dialect) => dialect,
            None => {
                return Err(WireError::Invalid("dialect revision"));
            },
        };
        let contexts = if dialect != Dialect::Smb311 {
            let none: Vec<NegotiateContext> = Vec::new();
            assert(context_views(none@) =~= Seq::empty());
            none
        } else {
            let count: u16 = get_u16(m, 70);
            let offset: u32 = get_u32(m, 124);
            if count > 0 && offset < 128 {
                return Err(WireError::Truncated("the negotiate contexts"));
            }
            match decode_negotiate_contexts(m, offset as usize, count as usize) {
                Some(contexts) => contexts,
                None => {
                    return Err(WireError::Truncated("the negotiate contexts"));
                },
            }
        };
        Ok(
            NegotiateResponse {
                header,
                security_mode: get_u16(m, 66),
                dialect,
                server_guid: copy_16(m, 72),
                capabilities: get_u32(m, 88),
                max_transact_size: get_u32(m, 92),
                max_read_size: get_u32(m, 96),
                max_write_size: get_u32(m, 100),
                contexts,
            },
        )
    }
}

} // verus!
