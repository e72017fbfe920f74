//! QUERY_INFO and QUERY_DIRECTORY packets.

use crate::text::utf16le;
use crate::text::utf16le_of;
use crate::wire::file_io::put_file_id;
use crate::wire::file_io::FileId;
use crate::bytes::get_u16;
use crate::bytes::get_u32;
use crate::bytes::le16;
use crate::bytes::le32;
use crate::bytes::put_bytes;
use crate::bytes::put_u16;
use crate::bytes::put_u32;
use crate::bytes::put_u8;
use crate::bytes::u16_at;
use crate::bytes::u32_at;
use crate::wire::body::body_error;
use crate::wire::body::buffer_inside;
use crate::wire::body::buffer_of;
use crate::wire::body::check_body;
use crate::wire::body::take_buffer;
use crate::wire::error::WireError;
use crate::wire::header::encode_request_header;
use crate::wire::header::header_bytes;
use crate::wire::header::header_of;
use crate::wire::header::request_header;
use crate::wire::header::Command;
use crate::wire::header::Smb2Header;
use vstd::prelude::*;

verus! {

/// A QUERY_INFO request.
#[derive(Debug, Clone, PartialEq, Eq)]
pub struct QueryInfoRequest {
    pub info_type: u8,
    pub file_info_class: u8,
    pub output_buffer_length: u32,
    pub input_buffer: Vec<u8>,
    pub additional_information: u32,
    pub flags: u32,
    pub file_id: FileId,
}

/// The bytes of a QUERY_INFO request. The input buffer is announced only where there is one.
pub open spec fn query_info_request_bytes(
    q: QueryInfoRequest,
    message_id: u64,
    session_id: u64,
    tree_id: u32,
    credit_charge: u16,
    credits: u16,
) -> Seq<u8> {
    header_bytes(
        request_header(Command::QueryInfo, message_id, session_id, tree_id, credit_charge, credits),
    ) + le16(41) + seq![q.info_type] + seq![q.file_info_class] + le32(q.output_buffer_length)
        + le16(
        if q.input_buffer@.len() == 0 {
            0
        } else {
            104
        },
    ) + le16(0) + le32(q.input_buffer@.len() as u32) + le32(q.additional_information) + le32(
        q.flags,
    ) + q.file_id.bytes() + q.input_buffer@
}

impl QueryInfoRequest {
    /// Encodes the request with its header.
    pub fn encode_message(
        &self,
        message_id: u64,
        session_id: u64,
        tree_id: u32,
        credit_charge: u16,
        credits: u16,
    ) -> (r: Result<Vec<u8>, WireError>)
        ensures
            self.input_buffer@.len() > u32::MAX ==> r == Err::<Vec<u8>, _>(
                WireError::TooLong("the QUERY_INFO input buffer"),
            ),
            self.input_buffer@.len() <= u32::MAX ==> r is Ok && r->Ok_0@
                == query_info_request_bytes(
                *self,
                message_id,
                session_id,
                tree_id,
                credit_charge,
                credits,
            ),
    {
        if self.input_buffer.len() > u32::MAX as usize {
            return Err(WireError::TooLong("the QUERY_INFO input buffer"));
        }
        let mut out = encode_request_header(
            Command::QueryInfo,
            message_id,
            session_id,
            tree_id,
            credit_charge,
            credits,
        );
        put_u16(&mut out, 41);
        put_u8(&mut out, self.info_type);
        put_u8(&mut out, self.file_info_class);
        put_u32(&mut out, self.output_buffer_length);
        let input_offset: u16 = if self.input_buffer.len() == 0 {
            0
        } else {
            104
        };
        put_u16(&mut out, input_offset);
        put_u16(&mut out, 0);
        put_u32(&mut out, self.input_buffer.len() as u32);
        put_u32(&mut out, self.additional_information);
        put_u32(&mut out, self.flags);
        put_file_id(&mut out, self.file_id);
        put_bytes(&mut out, &self.input_buffer);
        Ok(out)
    }
}

/// A QUERY_DIRECTORY request.
#[derive(Debug, Clone, PartialEq, Eq)]
pub struct QueryDirectoryRequest {
    pub file_information_class: u8,
    pub flags: u8,
    pub file_index: u32,
    pub file_id: FileId,
    pub file_name: String,
    pub output_buffer_length: u32,
}

/// The bytes of a QUERY_DIRECTORY request.
pub open spec fn query_directory_request_bytes(
    q: QueryDirectoryRequest,
    message_id: u64,
    session_id: u64,
    tree_id: u32,
    credit_charge: u16,
    credits: u16,
) -> Seq<u8> {
    header_bytes(
        request_header(
            Command::QueryDirectory,
            message_id,
            session_id,
            tree_id,
            credit_charge,
            credits,
        ),
    ) + le16(33) + seq![q.file_information_class] + seq![q.flags] + le32(q.file_index)
        + q.file_id.bytes() + le16(96) + le16(utf16le_of(q.file_name@).len() as u16) + le32(
        q.output_buffer_length,
    ) + utf16le_of(q.file_name@)
}

impl QueryDirectoryRequest {
    /// Encodes the request with its header.
    pub fn encode_message(
        &self,
        message_id: u64,
        session_id: u64,
        tree_id: u32,
        credit_charge: u16,
        credits: u16,
    ) -> (r: Result<Vec<u8>, WireError>)
        ensures
            utf16le_of(self.file_name@).len() > u16::MAX ==> r == Err::<Vec<u8>, _>(
                WireError::TooLong("the directory search pattern"),
            ),
            utf16le_of(self.file_name@).len() <= u16::MAX ==> r is Ok && r->Ok_0@
                == query_directory_request_bytes(
                *self,
                message_id,
                session_id,
                tree_id,
                credit_charge,
                credits,
            ),
    {
        let name = utf16le(&self.file_name);
        if name.len() > u16::MAX as usize {
            return Err(WireError::TooLong("the directory search pattern"));
        }
        let mut out = encode_request_header(
            Command::QueryDirectory,
            message_id,
            session_id,
            tree_id,
            credit_charge,
            credits,
        );
        put_u16(&mut out, 33);
        put_u8(&mut out, self.file_information_class);
        put_u8(&mut out, self.flags);
        put_u32(&mut out, self.file_index);
        put_file_id(&mut out, self.file_id);
        put_u16(&mut out, 96);
        put_u16(&mut out, name.len() as u16);
        put_u32(&mut out, self.output_buffer_length);
        put_bytes(&mut out, &name);
        Ok(out)
    }
}

/// A response that carries one output buffer.
#[derive(Debug, Clone, PartialEq, Eq)]
pub struct QueryInfoResponse {
    pub header: Smb2Header,
    pub output_buffer: Vec<u8>,
}

/// A response that carries directory entries.
#[derive(Debug, Clone, PartialEq, Eq)]
pub struct QueryDirectoryResponse {
    pub header: Smb2Header,
    pub output_buffer: Vec<u8>,
}

/// Why a packet is no response to a query of this command, if it is none.
pub open spec fn query_response_error(m: Seq<u8>, command: Command) -> Option<WireError> {
    match body_error(m, command, 8, 9) {
        Some(e) => Some(e),
        None => if !buffer_inside(m, u16_at(m, 66) as int, u32_at(m, 68) as int, 72) {
            Some(WireError::Truncated("the query output"))
        } else {
            None
        },
    }
}

/// The output buffer of a response to a query.
pub open spec fn query_response_output(m: Seq<u8>) -> Seq<u8> {
    buffer_of(m, u16_at(m, 66) as int, u32_at(m, 68) as int)
}

impl QueryInfoResponse {
    /// Decodes a QUERY_INFO response with its header.
    pub fn decode_message(m: &[u8]) -> (r: Result<QueryInfoResponse, WireError>)
        ensures
            match query_response_error(m@, Command::QueryInfo) {
                Some(e) => r == Err::<QueryInfoResponse, WireError>(e),
                None => r is Ok && r->Ok_0.header == header_of(m@) && r->Ok_0.output_buffer@
                    == query_response_output(m@),
            },
    {
        let header = check_body(m, Command::QueryInfo, 8, 9)?;
        let output_buffer = take_buffer(
            m,
            get_u16(m, 66) as u32,
            get_u32(m, 68),
            72,
            "the query output",
        )?;
        Ok(QueryInfoResponse { header, output_buffer })
    }
}

impl QueryDirectoryResponse {
    /// Decodes a QUERY_DIRECTORY response with its header.
    pub fn decode_message(m: &[u8]) -> (r: Result<QueryDirectoryResponse, WireError>)
        ensures
            match query_response_error(m@, Command::QueryDirectory) {
                Some(e) => r == Err::<QueryDirectoryResponse, WireError>(e),
                None => r is Ok && r->Ok_0.header == header_of(m@) && r->Ok_0.output_buffer@
                    == query_response_output(m@),
            },
    {
        let header = check_body(m, Command::QueryDirectory, 8, 9)?;
        let output_buffer = take_buffer(
            m,
            get_u16(m, 66) as u32,
            get_u32(m, 68),
            72,
            "the query output",
        )?;
        Ok(QueryDirectoryResponse { header, output_buffer })
    }
}

} // verus!
