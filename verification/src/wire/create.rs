//! CREATE packets and create contexts.

use crate::bytes::get_u16;
use crate::bytes::get_u32;
use crate::bytes::get_u64;
use crate::bytes::le16;
use crate::bytes::le32;
use crate::bytes::le64;
use crate::bytes::put_bytes;
use crate::bytes::put_u16;
use crate::bytes::put_u32;
use crate::bytes::put_u64;
use crate::bytes::put_u8;
use crate::bytes::put_zeros;
use crate::bytes::u16_at;
use crate::bytes::u32_at;
use crate::bytes::u64_at;
use crate::bytes::zeros;
use crate::text::utf16le;
use crate::text::utf16le_of;
use crate::wire::body::body_error;
use crate::wire::body::buffer_inside;
use crate::wire::body::buffer_of;
use crate::wire::body::check_body;
use crate::wire::body::take_buffer;
use crate::wire::context::pad8;
use crate::wire::context::padding;
use crate::wire::error::WireError;
use crate::wire::file_io::file_id_at;
use crate::wire::file_io::get_file_id;
use crate::wire::file_io::put_file_id;
use crate::wire::file_io::FileId;
use crate::wire::header::encode_request_header;
use crate::wire::header::header_bytes;
use crate::wire::header::header_of;
use crate::wire::header::request_header;
use crate::wire::header::Command;
use crate::wire::header::Smb2Header;
use vstd::prelude::*;

verus! {

/// The longest name that leaves room for the data offset.
pub const CREATE_CONTEXT_MAX_NAME: usize = 65_504;

/// A named byte string that accompanies a CREATE request or response.
#[derive(Debug, PartialEq, Eq)]
pub struct CreateContext {
    pub name: Vec<u8>,
    pub data: Vec<u8>,
}

/// What a create context says.
pub struct CreateContextView {
    pub name: Seq<u8>,
    pub data: Seq<u8>,
}

impl View for CreateContext {
    type V = CreateContextView;

    open spec fn view(&self) -> CreateContextView {
        CreateContextView { name: self.name@, data: self.data@ }
    }
}

impl Clone for CreateContext {
    fn clone(&self) -> (r: Self)
        ensures
            r@ == self@,
    {
        CreateContext { name: self.name.clone(), data: self.data.clone() }
    }
}

/// What each of several create contexts says.
pub open spec fn create_context_views(contexts: Seq<CreateContext>) -> Seq<CreateContextView> {
    contexts.map_values(|c: CreateContext| c@)
}

/// Why a name and data make no create context, if they make none.
pub open spec fn create_context_error(name: Seq<u8>, data: Seq<u8>) -> Option<WireError> {
    if name.len() == 0 {
        Some(WireError::Invalid("create context name"))
    } else if name.len() > CREATE_CONTEXT_MAX_NAME {
        Some(WireError::TooLong("a create context name"))
    } else if data.len() > u32::MAX {
        Some(WireError::TooLong("create context data"))
    } else {
        None
    }
}

impl CreateContext {
    /// Joins a name and data.
    pub fn new(name: Vec<u8>, data: Vec<u8>) -> (r: Result<CreateContext, WireError>)
        ensures
            match create_context_error(name@, data@) {
                Some(e) => r == Err::<CreateContext, WireError>(e),
                None => r == Ok::<CreateContext, WireError>(CreateContext { name, data }),
            },
    {
        if name.len() == 0 {
            return Err(WireError::Invalid("create context name"));
        }
        if name.len() > CREATE_CONTEXT_MAX_NAME {
            return Err(WireError::TooLong("a create context name"));
        }
        if data.len() > u32::MAX as usize {
            return Err(WireError::TooLong("create context data"));
        }
        Ok(CreateContext { name, data })
    }
}

/// Where the data of a create context begins, from the beginning of the context on.
pub open spec fn create_context_data_offset(c: CreateContextView) -> int {
    (16 + c.name.len() + pad8(c.name.len() as int)) as int
}

/// The length of a create context.
pub open spec fn create_context_len(c: CreateContextView) -> int {
    create_context_data_offset(c) + c.data.len()
}

/// The bytes of one create context. All but the last are padded to eight bytes and point behind
/// themselves.
pub open spec fn create_context_bytes(c: CreateContextView, is_last: bool) -> Seq<u8> {
    let len = create_context_len(c);
    let padding = if is_last {
        0
    } else {
        pad8(len)
    };
    let next = if is_last {
        0
    } else {
        len + padding
    };
    let data_offset = if c.data.len() == 0 {
        0
    } else {
        create_context_data_offset(c)
    };
    le32(next as u32) + le16(16) + le16(c.name.len() as u16) + le16(0) + le16(data_offset as u16)
        + le32(c.data.len() as u32) + c.name + zeros(pad8(c.name.len() as int)) + c.data + zeros(
        padding,
    )
}

/// The bytes of several create contexts.
pub open spec fn create_contexts_bytes(cs: Seq<CreateContextView>) -> Seq<u8>
    decreases cs.len(),
{
    if cs.len() == 0 {
        Seq::empty()
    } else {
        create_context_bytes(cs[0], cs.len() == 1) + create_contexts_bytes(cs.drop_first())
    }
}

/// Whether every context could have been made by `CreateContext::new`.
pub open spec fn create_contexts_fit(cs: Seq<CreateContextView>) -> bool {
    forall|i: int|
        0 <= i < cs.len() ==> create_context_error((#[trigger] cs[i]).name, cs[i].data) is None
}

/// Appends one create context.
fn put_create_context(out: &mut Vec<u8>, c: &CreateContext, is_last: bool)
    requires
        create_context_error(c.name@, c.data@) is None,
    ensures
        final(out)@ == old(out)@ + create_context_bytes(c@, is_last),
{
    let name_len: usize = c.name.len();
    let name_pad: usize = padding(name_len);
    let data_at: usize = 16 + name_len + name_pad;
    let len: u64 = data_at as u64 + c.data.len() as u64;
    let tail: usize = if is_last {
        0
    } else {
        ((8 - len % 8) % 8) as usize
    };
    let next: u64 = if is_last {
        0
    } else {
        len + tail as u64
    };
    let data_offset: usize = if c.data.len() == 0 {
        0
    } else {
        data_at
    };
    let mut piece: Vec<u8> = Vec::new();
    put_u32(&mut piece, next as u32);
    assert(piece@ =~= le32(next as u32));
    put_u16(&mut piece, 16);
    put_u16(&mut piece, name_len as u16);
    put_u16(&mut piece, 0);
    put_u16(&mut piece, data_offset as u16);
    put_u32(&mut piece, c.data.len() as u32);
    put_bytes(&mut piece, &c.name);
    put_zeros(&mut piece, name_pad);
    put_bytes(&mut piece, &c.data);
    put_zeros(&mut piece, tail);
    assert(piece@ == create_context_bytes(c@, is_last));
    put_bytes(out, &piece);
}

/// Appends several create contexts.
fn put_create_contexts(out: &mut Vec<u8>, contexts: &[CreateContext]) -> (r: Result<(), WireError>)
    ensures
        r is Ok <==> create_contexts_fit(create_context_views(contexts@)),
        r is Err ==> r->Err_0 == WireError::Invalid("create context"),
        r is Ok ==> final(out)@ == old(out)@ + create_contexts_bytes(
            create_context_views(contexts@),
        ),
{
    let ghost start = out@;
    let ghost views = create_context_views(contexts@);
    let mut i: usize = 0;
    assert(views.skip(0) =~= views);
    while i < contexts.len()
        invariant
            i <= contexts@.len(),
            views == create_context_views(contexts@),
            forall|j: int|
                0 <= j < i ==> create_context_error((#[trigger] views[j]).name, views[j].data) is None,
            start + create_contexts_bytes(views) == out@ + create_contexts_bytes(
                views.skip(i as int),
            ),
        decreases contexts@.len() - i,
    {
        let context = &contexts[i];
        assert(views[i as int] == context@);
        if context.name.len() == 0 || context.name.len() > CREATE_CONTEXT_MAX_NAME
            || context.data.len() > u32::MAX as usize {
            return Err(WireError::Invalid("create context"));
        }
        let ghost before = out@;
        let ghost left = views.skip(i as int);
        put_create_context(out, context, i + 1 == contexts.len());
        proof {
            assert(left.drop_first() =~= views.skip(i + 1));
            assert(left[0] == context@);
            assert(out@ + create_contexts_bytes(views.skip(i + 1)) =~= before + (
            create_context_bytes(context@, left.len() == 1) + create_contexts_bytes(
                left.drop_first(),
            )));
        }
        i = i + 1;
    }
    assert(views.skip(i as int).len() == 0);
    assert(create_contexts_bytes(views.skip(i as int)) =~= Seq::empty());
    assert(out@ =~= start + create_contexts_bytes(views));
    Ok(())
}

/// The create contexts that a byte string holds, chained by their offsets.
pub open spec fn create_contexts_of(b: Seq<u8>) -> Option<Seq<CreateContextView>>
    decreases b.len(),
{
    if b.len() < 16 {
        None
    } else {
        let next = u32_at(b, 0) as int;
        let end = if next == 0 {
            b.len() as int
        } else {
            next
        };
        let name_at = u16_at(b, 4) as int;
        let name_len = u16_at(b, 6) as int;
        let data_at = u16_at(b, 10) as int;
        let data_len = u32_at(b, 12) as int;
        if next != 0 && (next % 8 != 0 || next < 16 || next > b.len()) {
            None
        } else if !buffer_inside(b.take(end), name_at, name_len, 16) || !buffer_inside(
            b.take(end),
            data_at,
            data_len,
            16,
        ) {
            None
        } else {
            let first = CreateContextView {
                name: buffer_of(b, name_at, name_len),
                data: buffer_of(b, data_at, data_len),
            };
            if next == 0 {
                Some(seq![first])
            } else {
                match create_contexts_of(b.skip(next)) {
                    Some(rest) => Some(seq![first] + rest),
                    None => None,
                }
            }
        }
    }
}

/// Decodes the create contexts that a byte string holds.
pub fn decode_create_contexts(b: &[u8]) -> (r: Option<Vec<CreateContext>>)
    ensures
        r is Some <==> create_contexts_of(b@) is Some,
        r is Some ==> create_context_views(r->0@) == create_contexts_of(b@)->0,
{
    let mut out: Vec<CreateContext> = Vec::new();
    let mut at: usize = 0;
    let ghost whole = create_contexts_of(b@);
    assert(b@.skip(0) =~= b@);
    assert(create_context_views(out@) =~= Seq::empty());
    proof {
        if whole is Some {
            assert(create_context_views(out@) + whole->0 =~= whole->0);
        }
    }
    loop
        invariant
            at <= b@.len(),
            whole == create_contexts_of(b@),
            whole is Some <==> create_contexts_of(b@.skip(at as int)) is Some,
            whole is Some ==> whole->0 == create_context_views(out@) + create_contexts_of(
                b@.skip(at as int),
            )->0,
        decreases b@.len() - at,
    {
        assert(b.len() == b@.len());
        let rest = &b[at..b.len()];
        assert(rest@ =~= b@.skip(at as int));
        if rest.len() < 16 {
            return None;
        }
        let next: usize = get_u32(rest, 0) as usize;
        if next != 0 && (next % 8 != 0 || next < 16 || next > rest.len()) {
            return None;
        }
        let end: usize = if next == 0 {
            rest.len()
        } else {
            next
        };
        let window = &rest[0..end];
        assert(window@ =~= rest@.take(end as int));
        let ghost name_at = u16_at(rest@, 4) as int;
        let ghost name_len = u16_at(rest@, 6) as int;
        let ghost data_at = u16_at(rest@, 10) as int;
        let ghost data_len = u32_at(rest@, 12) as int;
        let name = match take_buffer(
            window,
            get_u16(rest, 4) as u32,
            get_u16(rest, 6) as u32,
            16,
            "a create context name",
        ) {
            Ok(name) => name,
            Err(_) => {
                return None;
            },
        };
        let data = match take_buffer(
            window,
            get_u16(rest, 10) as u32,
            get_u32(rest, 12),
            16,
            "create context data",
        ) {
            Ok(data) => data,
            Err(_) => {
                return None;
            },
        };
        assert(name@ =~= buffer_of(rest@, name_at, name_len));
        assert(data@ =~= buffer_of(rest@, data_at, data_len));
        let ghost before = create_context_views(out@);
        let context = CreateContext { name, data };
        out.push(context);
        assert(create_context_views(out@) =~= before.push(context@));
        if next == 0 {
            assert(create_context_views(out@) =~= before + seq![context@]);
            return Some(out);
        }
        proof {
            let more = create_contexts_of(rest@.skip(next as int));
            assert(rest@.skip(next as int) =~= b@.skip(at + next));
            if more is Some {
                assert(create_context_views(out@) + more->0 =~= before + (seq![context@]
                    + more->0));
            }
        }
        at = at + next;
    }
}

/// A CREATE request.
#[derive(Debug)]
pub struct CreateRequest<'a> {
    pub requested_oplock_level: u8,
    pub impersonation_level: u32,
    pub desired_access: u32,
    pub file_attributes: u32,
    pub share_access: u32,
    pub create_disposition: u32,
    pub create_options: u32,
    pub name: &'a str,
    pub contexts: &'a [CreateContext],
}

/// What a CREATE request says.
pub struct CreateRequestView {
    pub requested_oplock_level: u8,
    pub impersonation_level: u32,
    pub desired_access: u32,
    pub file_attributes: u32,
    pub share_access: u32,
    pub create_disposition: u32,
    pub create_options: u32,
    pub name: Seq<char>,
    pub contexts: Seq<CreateContextView>,
}

impl<'a> View for CreateRequest<'a> {
    type V = CreateRequestView;

    open spec fn view(&self) -> CreateRequestView {
        CreateRequestView {
            requested_oplock_level: self.requested_oplock_level,
            impersonation_level: self.impersonation_level,
            desired_access: self.desired_access,
            file_attributes: self.file_attributes,
            share_access: self.share_access,
            create_disposition: self.create_disposition,
            create_options: self.create_options,
            name: self.name@,
            contexts: create_context_views(self.contexts@),
        }
    }
}

/// Where the contexts of a CREATE request with a name of `n` bytes begin.
pub open spec fn create_contexts_offset(n: int) -> int {
    120 + n + pad8(120 + n)
}

/// The bytes of a CREATE request. Contexts are announced only where there are any.
pub open spec fn create_request_bytes(
    q: CreateRequestView,
    message_id: u64,
    session_id: u64,
    tree_id: u32,
    credit_charge: u16,
    credits: u16,
) -> Seq<u8> {
    let name = utf16le_of(q.name);
    let n = name.len() as int;
    let contexts = create_contexts_bytes(q.contexts);
    let offset = if q.contexts.len() == 0 {
        0
    } else {
        create_contexts_offset(n)
    };
    let fixed = header_bytes(
        request_header(Command::Create, message_id, session_id, tree_id, credit_charge, credits),
    ) + le16(57) + seq![0u8] + seq![q.requested_oplock_level] + le32(q.impersonation_level) + le64(
        0,
    ) + le64(0) + le32(q.desired_access) + le32(q.file_attributes) + le32(q.share_access) + le32(
        q.create_disposition,
    ) + le32(q.create_options) + le16(120) + le16(n as u16) + le32(offset as u32) + le32(
        contexts.len() as u32,
    ) + name;
    if q.contexts.len() == 0 {
        fixed
    } else {
        fixed + zeros(pad8(120 + n)) + contexts
    }
}

/// Why a CREATE request cannot be encoded, if it cannot.
pub open spec fn create_request_error(q: CreateRequestView) -> Option<WireError> {
    if utf16le_of(q.name).len() > u16::MAX {
        Some(WireError::TooLong("the file name"))
    } else if !create_contexts_fit(q.contexts) {
        Some(WireError::Invalid("create context"))
    } else if create_contexts_bytes(q.contexts).len() > u32::MAX {
        Some(WireError::TooLong("the create contexts"))
    } else {
        None
    }
}

impl<'a> CreateRequest<'a> {
    /// Encodes the request with its header.
    pub fn encode_message(
        &self,
        message_id: u64,
        session_id: u64,
        tree_id: u32,
        credit_charge: u16,
        credits: u16,
    ) -> (r: Result<Vec<u8>, WireError>)
        ensures
            match create_request_error(self@) {
                Some(e) => r == Err::<Vec<u8>, WireError>(e),
                None => r is Ok && r->Ok_0@ == create_request_bytes(
                    self@,
                    message_id,
                    session_id,
                    tree_id,
                    credit_charge,
                    credits,
                ),
            },
    {
        let name = utf16le(self.name);
        if name.len() > u16::MAX as usize {
            return Err(WireError::TooLong("the file name"));
        }
        let mut contexts: Vec<u8> = Vec::new();
        put_create_contexts(&mut contexts, self.contexts)?;
        assert(contexts@ =~= create_contexts_bytes(self@.contexts));
        if contexts.len() > u32::MAX as usize {
            return Err(WireError::TooLong("the create contexts"));
        }
        let n: usize = name.len();
        let offset: usize = if self.contexts.len() == 0 {
            0
        } else {
            120 + n + padding(120 + n)
        };
        let mut out = encode_request_header(
            Command::Create,
            message_id,
            session_id,
            tree_id,
            credit_charge,
            credits,
        );
        put_u16(&mut out, 57);
        put_u8(&mut out, 0);
        put_u8(&mut out, self.requested_oplock_level);
        put_u32(&mut out, self.impersonation_level);
        put_u64(&mut out, 0);
        put_u64(&mut out, 0);
        put_u32(&mut out, self.desired_access);
        put_u32(&mut out, self.file_attributes);
        put_u32(&mut out, self.share_access);
        put_u32(&mut out, self.create_disposition);
        put_u32(&mut out, self.create_options);
        put_u16(&mut out, 120);
        put_u16(&mut out, n as u16);
        put_u32(&mut out, offset as u32);
        put_u32(&mut out, contexts.len() as u32);
        put_bytes(&mut out, &name);
        if self.contexts.len() > 0 {
            put_zeros(&mut out, padding(120 + n));
            put_bytes(&mut out, &contexts);
        }
        Ok(out)
    }
}

/// A CREATE response.
#[derive(Debug, PartialEq, Eq)]
pub struct CreateResponse {
    pub header: Smb2Header,
    pub oplock_level: u8,
    pub create_action: u32,
    pub creation_time: u64,
    pub last_access_time: u64,
    pub last_write_time: u64,
    pub change_time: u64,
    pub allocation_size: u64,
    pub end_of_file: u64,
    pub file_attributes: u32,
    pub file_id: FileId,
    pub contexts: Vec<CreateContext>,
}

/// The contexts of a CREATE response.
pub open spec fn create_response_contexts(m: Seq<u8>) -> Option<Seq<CreateContextView>> {
    let offset = u32_at(m, 144) as int;
    let len = u32_at(m, 148) as int;
    if len == 0 {
        Some(Seq::empty())
    } else if !buffer_inside(m, offset, len, 152) {
        None
    } else {
        create_contexts_of(buffer_of(m, offset, len))
    }
}

/// Why a packet is no CREATE response, if it is none.
pub open spec fn create_response_error(m: Seq<u8>) -> Option<WireError> {
    match body_error(m, Command::Create, 88, 89) {
        Some(e) => Some(e),
        None => if create_response_contexts(m) is None {
            Some(WireError::Truncated("the create contexts"))
        } else {
            None
        },
    }
}

impl CreateResponse {
    /// Decodes a CREATE response with its header.
    pub fn decode_message(m: &[u8]) -> (r: Result<CreateResponse, WireError>)
        ensures
            match create_response_error(m@) {
                Some(e) => r == Err::<CreateResponse, WireError>(e),
                None => r is Ok && {
                    let p = r->Ok_0;
                    &&& p.header == header_of(m@)
                    &&& p.oplock_level == m@[66]
                    &&& p.create_action == u32_at(m@, 68)
                    &&& p.creation_time == u64_at(m@, 72)
                    &&& p.last_access_time == u64_at(m@, 80)
                    &&& p.last_write_time == u64_at(m@, 88)
                    &&& p.change_time == u64_at(m@, 96)
                    &&& p.allocation_size == u64_at(m@, 104)
                    &&& p.end_of_file == u64_at(m@, 112)
                    &&& p.file_attributes == u32_at(m@, 120)
                    &&& p.file_id == file_id_at(m@, 128)
                    &&& create_context_views(p.contexts@) == create_response_contexts(m@)->0
                },
            },
    {
        let header = check_body(m, Command::Create, 88, 89)?;
        let contexts = if get_u32(m, 148) == 0 {
            let none: Vec<CreateContext> = Vec::new();
            assert(create_context_views(none@) =~= Seq::empty());
            none
        } else {
            let buffer = take_buffer(
                m,
                get_u32(m, 144),
                get_u32(m, 148),
                152,
                "the create contexts",
            )?;
            match decode_create_contexts(&buffer) {
                Some(contexts) => contexts,
                None => {
                    return Err(WireError::Truncated("the create contexts"));
                },
            }
        };
        Ok(
            CreateResponse {
                header,
                oplock_level: m[66],
                create_action: get_u32(m, 68),
                creation_time: get_u64(m, 72),
                last_access_time: get_u64(m, 80),
                last_write_time: get_u64(m, 88),
                change_time: get_u64(m, 96),
                allocation_size: get_u64(m, 104),
                end_of_file: get_u64(m, 112),
                file_attributes: get_u32(m, 120),
                file_id: get_file_id(m, 128),
                contexts,
            },
        )
    }
}

/// The name of the context that requests and grants a durable handle: `DH2Q`.
pub const DURABLE_HANDLE_REQUEST_V2_NAME: [u8; 4] = [0x44, 0x48, 0x32, 0x51];

/// The name of the context that reconnects a durable handle: `DH2C`.
pub const DURABLE_HANDLE_RECONNECT_V2_NAME: [u8; 4] = [0x44, 0x48, 0x32, 0x43];

/// The name of the context that requests and grants a durable handle.
pub open spec fn dh2q() -> Seq<u8> {
    seq![0x44u8, 0x48u8, 0x32u8, 0x51u8]
}

/// The name of the context that reconnects a durable handle.
pub open spec fn dh2c() -> Seq<u8> {
    seq![0x44u8, 0x48u8, 0x32u8, 0x43u8]
}

/// A request for a durable handle.
#[derive(Debug, Clone, Copy, PartialEq, Eq)]
pub struct DurableHandleRequestV2 {
    pub timeout_ms: u32,
    pub flags: u32,
    pub create_guid: [u8; 16],
}

/// The context of a request for a durable handle.
pub open spec fn durable_request_view(timeout_ms: u32, flags: u32, create_guid: Seq<u8>) -> CreateContextView {
    CreateContextView {
        name: dh2q(),
        data: le32(timeout_ms) + le32(flags) + zeros(8) + create_guid,
    }
}

impl DurableHandleRequestV2 {
    /// The create context of the request.
    pub fn into_context(self) -> (r: CreateContext)
        ensures
            r@ == durable_request_view(self.timeout_ms, self.flags, self.create_guid@),
    {
        let mut name: Vec<u8> = Vec::new();
        put_bytes(&mut name, &DURABLE_HANDLE_REQUEST_V2_NAME);
        assert(name@ =~= dh2q());
        let mut data: Vec<u8> = Vec::new();
        put_u32(&mut data, self.timeout_ms);
        assert(data@ =~= le32(self.timeout_ms));
        put_u32(&mut data, self.flags);
        put_zeros(&mut data, 8);
        put_bytes(&mut data, &self.create_guid);
        CreateContext { name, data }
    }
}

/// A request to take a durable handle up again.
#[derive(Debug, Clone, Copy, PartialEq, Eq)]
pub struct DurableHandleReconnectV2 {
    pub file_id: FileId,
    pub create_guid: [u8; 16],
    pub flags: u32,
}

/// The context of a request to take a durable handle up again.
pub open spec fn durable_reconnect_view(file_id: FileId, create_guid: Seq<u8>, flags: u32) -> CreateContextView {
    CreateContextView { name: dh2c(), data: file_id.bytes() + create_guid + le32(flags) }
}

impl DurableHandleReconnectV2 {
    /// The create context of the request.
    pub fn into_context(self) -> (r: CreateContext)
        ensures
            r@ == durable_reconnect_view(self.file_id, self.create_guid@, self.flags),
    {
        let mut name: Vec<u8> = Vec::new();
        put_bytes(&mut name, &DURABLE_HANDLE_RECONNECT_V2_NAME);
        assert(name@ =~= dh2c());
        let mut data: Vec<u8> = Vec::new();
        put_file_id(&mut data, self.file_id);
        assert(data@ =~= self.file_id.bytes());
        put_bytes(&mut data, &self.create_guid);
        put_u32(&mut data, self.flags);
        CreateContext { name, data }
    }
}

/// What a server says of a durable handle that it granted.
#[derive(Debug, Clone, Copy, PartialEq, Eq)]
pub struct DurableHandleResponseV2 {
    pub timeout_ms: u32,
    pub flags: u32,
}

/// What the data of a granting context says.
pub open spec fn durable_response_of(data: Seq<u8>) -> DurableHandleResponseV2 {
    DurableHandleResponseV2 { timeout_ms: u32_at(data, 0), flags: u32_at(data, 4) }
}

impl DurableHandleResponseV2 {
    /// Reads the grant out of its context.
    pub fn from_context(context: &CreateContext) -> (r: Result<DurableHandleResponseV2, WireError>)
        ensures
            context.data@.len() < 8 ==> r == Err::<DurableHandleResponseV2, _>(
                WireError::Truncated("the durable handle response"),
            ),
            context.data@.len() >= 8 ==> r == Ok::<_, WireError>(
                durable_response_of(context.data@),
            ),
    {
        if context.data.len() < 8 {
            return Err(WireError::Truncated("the durable handle response"));
        }
        Ok(
            DurableHandleResponseV2 {
                timeout_ms: get_u32(&context.data, 0),
                flags: get_u32(&context.data, 4),
            },
        )
    }
}

} // verus!
