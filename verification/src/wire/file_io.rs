//! READ, CLOSE and CANCEL packets.

use crate::wire::constants::CLOSE_FLAG_POSTQUERY_ATTRIB;
use crate::wire::constants::FLAG_ASYNC_COMMAND;
use crate::wire::header::HeaderId;
use crate::bytes::get_u16;
use crate::bytes::get_u32;
use crate::bytes::get_u64;
use crate::bytes::le16;
use crate::bytes::le32;
use crate::bytes::le64;
use crate::bytes::put_u16;
use crate::bytes::put_u32;
use crate::bytes::put_u64;
use crate::bytes::put_u8;
use crate::bytes::u16_at;
use crate::bytes::u32_at;
use crate::bytes::u64_at;
use crate::wire::body::body_error;
use crate::wire::body::buffer_inside;
use crate::wire::body::buffer_of;
use crate::wire::body::check_body;
use crate::wire::body::take_buffer;
use crate::wire::error::WireError;
use crate::wire::header::encode_request_header;
use crate::wire::header::header_bytes;
use crate::wire::header::header_of;
use crate::wire::header::request_header;
use crate::wire::header::Command;
use crate::wire::header::Smb2Header;
use vstd::prelude::*;

verus! {

/// The two halves of an SMB2 file identifier.
#[derive(Debug, Clone, Copy, PartialEq, Eq, Structural)]
pub struct FileId {
    pub persistent: u64,
    pub volatile: u64,
}

impl FileId {
    /// The bytes of a file identifier.
    pub open spec fn bytes(self) -> Seq<u8> {
        le64(self.persistent) + le64(self.volatile)
    }

    /// Whether both halves are zero.
    pub fn is_zero(&self) -> (r: bool)
        ensures
            r == (self.persistent == 0 && self.volatile == 0),
    {
        self.persistent == 0 && self.volatile == 0
    }
}

/// Appends a file identifier.
pub fn put_file_id(out: &mut Vec<u8>, id: FileId)
    ensures
        final(out)@ == old(out)@ + id.bytes(),
{
    put_u64(out, id.persistent);
    put_u64(out, id.volatile);
    assert(out@ =~= old(out)@ + id.bytes());
}

/// The file identifier at index `i`.
pub open spec fn file_id_at(m: Seq<u8>, i: int) -> FileId {
    FileId { persistent: u64_at(m, i), volatile: u64_at(m, i + 8) }
}

/// Reads the file identifier at index `i`.
pub fn get_file_id(m: &[u8], i: usize) -> (r: FileId)
    requires
        i + 16 <= m@.len(),
    ensures
        r == file_id_at(m@, i as int),
{
    assert(m.len() == m@.len());
    FileId { persistent: get_u64(m, i), volatile: get_u64(m, i + 8) }
}

/// A READ request.
#[derive(Debug, Clone, Copy, PartialEq, Eq)]
pub struct ReadRequest {
    pub file_id: FileId,
    pub offset: u64,
    pub length: u32,
}

/// The bytes of a READ request. The server is asked to place the data behind its own header.
pub open spec fn read_request_bytes(
    q: ReadRequest,
    message_id: u64,
    session_id: u64,
    tree_id: u32,
    credit_charge: u16,
    credits: u16,
) -> Seq<u8> {
    header_bytes(
        request_header(Command::Read, message_id, session_id, tree_id, credit_charge, credits),
    ) + le16(49) + seq![0x50u8] + seq![0u8] + le32(q.length) + le64(q.offset) + q.file_id.bytes()
        + le32(0) + le32(0) + le32(0) + le16(0) + le16(0) + seq![0u8]
}

impl ReadRequest {
    /// A READ over the connection itself.
    pub fn direct(file_id: FileId, offset: u64, length: u32) -> (r: ReadRequest)
        ensures
            r == (ReadRequest { file_id, offset, length }),
    {
        ReadRequest { file_id, offset, length }
    }

    /// Encodes the request with its header.
    pub fn encode_message(
        &self,
        message_id: u64,
        session_id: u64,
        tree_id: u32,
        credit_charge: u16,
        credits: u16,
    ) -> (r: Vec<u8>)
        ensures
            r@ == read_request_bytes(
                *self,
                message_id,
                session_id,
                tree_id,
                credit_charge,
                credits,
            ),
    {
        let mut out = encode_request_header(
            Command::Read,
            message_id,
            session_id,
            tree_id,
            credit_charge,
            credits,
        );
        put_u16(&mut out, 49);
        put_u8(&mut out, 0x50);
        put_u8(&mut out, 0);
        put_u32(&mut out, self.length);
        put_u64(&mut out, self.offset);
        put_file_id(&mut out, self.file_id);
        put_u32(&mut out, 0);
        put_u32(&mut out, 0);
        put_u32(&mut out, 0);
        put_u16(&mut out, 0);
        put_u16(&mut out, 0);
        put_u8(&mut out, 0);
        out
    }
}

/// A READ response.
#[derive(Debug, Clone, PartialEq, Eq)]
pub struct ReadResponse {
    pub header: Smb2Header,
    pub data: Vec<u8>,
}

/// Why a packet is no READ response, if it is none.
pub open spec fn read_response_error(m: Seq<u8>) -> Option<WireError> {
    match body_error(m, Command::Read, 16, 17) {
        Some(e) => Some(e),
        None => if !buffer_inside(m, m[66] as int, u32_at(m, 68) as int, 80) {
            Some(WireError::Truncated("the READ data"))
        } else {
            None
        },
    }
}

/// The data of a READ response.
pub open spec fn read_response_data(m: Seq<u8>) -> Seq<u8> {
    buffer_of(m, m[66] as int, u32_at(m, 68) as int)
}

impl ReadResponse {
    /// Decodes a READ response with its header.
    pub fn decode_message(m: &[u8]) -> (r: Result<ReadResponse, WireError>)
        ensures
            match read_response_error(m@) {
                Some(e) => r == Err::<ReadResponse, WireError>(e),
                None => r is Ok && r->Ok_0.header == header_of(m@) && r->Ok_0.data@
                    == read_response_data(m@),
            },
    {
        let header = check_body(m, Command::Read, 16, 17)?;
        let data = take_buffer(m, m[66] as u32, get_u32(m, 68), 80, "the READ data")?;
        Ok(ReadResponse { header, data })
    }
}

/// A CLOSE request.
#[derive(Debug, Clone, Copy, PartialEq, Eq)]
pub struct CloseRequest {
    pub flags: u16,
    pub file_id: FileId,
}

/// The bytes of a CLOSE request.
pub open spec fn close_request_bytes(
    q: CloseRequest,
    message_id: u64,
    session_id: u64,
    tree_id: u32,
    credit_charge: u16,
    credits: u16,
) -> Seq<u8> {
    header_bytes(
        request_header(Command::Close, message_id, session_id, tree_id, credit_charge, credits),
    ) + le16(24) + le16(q.flags) + le32(0) + q.file_id.bytes()
}

impl CloseRequest {
    /// A CLOSE that asks for no attributes.
    pub fn new(file_id: FileId) -> (r: CloseRequest)
        ensures
            r == (CloseRequest { flags: 0, file_id }),
    {
        CloseRequest { flags: 0, file_id }
    }

    /// Encodes the request with its header.
    pub fn encode_message(
        &self,
        message_id: u64,
        session_id: u64,
        tree_id: u32,
        credit_charge: u16,
        credits: u16,
    ) -> (r: Vec<u8>)
        ensures
            r@ == close_request_bytes(
                *self,
                message_id,
                session_id,
                tree_id,
                credit_charge,
                credits,
            ),
    {
        let mut out = encode_request_header(
            Command::Close,
            message_id,
            session_id,
            tree_id,
            credit_charge,
            credits,
        );
        put_u16(&mut out, 24);
        put_u16(&mut out, self.flags);
        put_u32(&mut out, 0);
        put_file_id(&mut out, self.file_id);
        out
    }
}

/// A CLOSE response.
#[derive(Debug, Clone, Copy, PartialEq, Eq)]
pub struct CloseResponse {
    pub header: Smb2Header,
    pub flags: u16,
    pub creation_time: u64,
    pub last_access_time: u64,
    pub last_write_time: u64,
    pub change_time: u64,
    pub allocation_size: u64,
    pub end_of_file: u64,
    pub file_attributes: u32,
}

/// Why a packet is no CLOSE response, if it is none.
pub open spec fn close_response_error(m: Seq<u8>) -> Option<WireError> {
    body_error(m, Command::Close, 60, 60)
}

/// What a CLOSE response says.
pub open spec fn close_response_of(m: Seq<u8>) -> CloseResponse {
    CloseResponse {
        header: header_of(m),
        flags: u16_at(m, 66),
        creation_time: u64_at(m, 72),
        last_access_time: u64_at(m, 80),
        last_write_time: u64_at(m, 88),
        change_time: u64_at(m, 96),
        allocation_size: u64_at(m, 104),
        end_of_file: u64_at(m, 112),
        file_attributes: u32_at(m, 120),
    }
}

impl CloseResponse {
    /// Decodes a CLOSE response with its header.
    pub fn decode_message(m: &[u8]) -> (r: Result<CloseResponse, WireError>)
        ensures
            match close_response_error(m@) {
                Some(e) => r == Err::<CloseResponse, WireError>(e),
                None => r == Ok::<CloseResponse, WireError>(close_response_of(m@)),
            },
    {
        let header = check_body(m, Command::Close, 60, 60)?;
        Ok(
            CloseResponse {
                header,
                flags: get_u16(m, 66),
                creation_time: get_u64(m, 72),
                last_access_time: get_u64(m, 80),
                last_write_time: get_u64(m, 88),
                change_time: get_u64(m, 96),
                allocation_size: get_u64(m, 104),
                end_of_file: get_u64(m, 112),
                file_attributes: get_u32(m, 120),
            },
        )
    }

    /// Whether the server filled the attribute fields.
    pub fn has_postquery_attributes(&self) -> (r: bool)
        ensures
            r == (self.flags & CLOSE_FLAG_POSTQUERY_ATTRIB != 0),
    {
        self.flags & CLOSE_FLAG_POSTQUERY_ATTRIB != 0
    }
}

/// The header of a CANCEL request: it names the message, and the AsyncId once the server has
/// given one.
pub open spec fn cancel_header(message_id: u64, session_id: u64, async_id: Option<u64>) -> Smb2Header {
    let plain = request_header(Command::Cancel, message_id, session_id, 0, 0, 0);
    match async_id {
        None => plain,
        Some(async_id) => Smb2Header {
            flags: FLAG_ASYNC_COMMAND,
            id: HeaderId::Async { async_id },
            ..plain
        },
    }
}

/// The bytes of a CANCEL request.
pub open spec fn cancel_request_bytes(
    message_id: u64,
    session_id: u64,
    async_id: Option<u64>,
) -> Seq<u8> {
    header_bytes(cancel_header(message_id, session_id, async_id)) + le16(4) + le16(0)
}

/// A CANCEL request.
#[derive(Debug, Clone, Copy, PartialEq, Eq)]
pub struct CancelRequest;

impl CancelRequest {
    /// Encodes a CANCEL of a request that the server still handles synchronously.
    pub fn encode_sync_message(&self, message_id: u64, session_id: u64) -> (r: Vec<u8>)
        ensures
            r@ == cancel_request_bytes(message_id, session_id, None),
    {
        let mut out = encode_request_header(Command::Cancel, message_id, session_id, 0, 0, 0);
        put_u16(&mut out, 4);
        put_u16(&mut out, 0);
        out
    }

    /// Encodes a CANCEL of a request that the server has given an AsyncId.
    pub fn encode_async_message(&self, message_id: u64, session_id: u64, async_id: u64) -> (r: Vec<
        u8,
    >)
        ensures
            r@ == cancel_request_bytes(message_id, session_id, Some(async_id)),
    {
        let mut header = Smb2Header::request(Command::Cancel, message_id, 0, 0);
        header.session_id = session_id;
        header.flags = FLAG_ASYNC_COMMAND;
        header.id = HeaderId::Async { async_id };
        let mut out = header.encode();
        put_u16(&mut out, 4);
        put_u16(&mut out, 0);
        out
    }
}

} // verus!
