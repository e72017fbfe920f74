//! TREE_CONNECT packets.

use crate::text::law_utf16le_roundtrip;
use crate::text::text_from_utf16le;
use crate::text::utf16le;
use crate::text::utf16le_of;
use crate::text::utf16le_text_of;
use crate::bytes::get_u16;
use crate::bytes::get_u32;
use crate::bytes::le16;
use crate::bytes::put_bytes;
use crate::bytes::put_u16;
use crate::bytes::u16_at;
use crate::bytes::u32_at;
use crate::wire::body::body_error;
use crate::wire::body::buffer_inside;
use crate::wire::body::buffer_of;
use crate::wire::body::check_body;
use crate::wire::body::take_buffer;
use crate::wire::error::WireError;
use crate::wire::header::encode_request_header;
use crate::wire::header::header_bytes;
use crate::wire::header::header_of;
use crate::wire::header::law_header_roundtrip;
use crate::wire::header::lemma_header_len;
use crate::wire::header::request_header;
use crate::wire::header::Command;
use crate::wire::header::Smb2Header;
use vstd::prelude::*;

verus! {

/// A TREE_CONNECT request.
#[derive(Debug, Clone, PartialEq, Eq)]
pub struct TreeConnectRequest {
    pub flags: u16,
    pub path: String,
}

/// The bytes of a TREE_CONNECT request.
pub open spec fn tree_connect_request_bytes(
    flags: u16,
    path: Seq<char>,
    message_id: u64,
    session_id: u64,
    credit_charge: u16,
    credits: u16,
) -> Seq<u8> {
    header_bytes(
        request_header(Command::TreeConnect, message_id, session_id, 0, credit_charge, credits),
    ) + le16(9) + le16(flags) + le16(72) + le16(utf16le_of(path).len() as u16) + utf16le_of(path)
}

/// Why a packet is no TREE_CONNECT request, if it is none.
pub open spec fn tree_connect_request_error(m: Seq<u8>) -> Option<WireError> {
    match body_error(m, Command::TreeConnect, 8, 9) {
        Some(e) => Some(e),
        None => if !buffer_inside(m, u16_at(m, 68) as int, u16_at(m, 70) as int, 72) {
            Some(WireError::Truncated("the share path"))
        } else if utf16le_text_of(tree_connect_request_path(m)) is None {
            Some(WireError::Invalid("share path"))
        } else {
            None
        },
    }
}

/// The UTF-16 bytes of the path in a TREE_CONNECT request.
pub open spec fn tree_connect_request_path(m: Seq<u8>) -> Seq<u8> {
    buffer_of(m, u16_at(m, 68) as int, u16_at(m, 70) as int)
}

impl TreeConnectRequest {
    /// Encodes the request with its header.
    pub fn encode_message(
        &self,
        message_id: u64,
        session_id: u64,
        credit_charge: u16,
        credits: u16,
    ) -> (r: Result<Vec<u8>, WireError>)
        ensures
            utf16le_of(self.path@).len() > u16::MAX ==> r == Err::<Vec<u8>, _>(
                WireError::TooLong("the share path"),
            ),
            utf16le_of(self.path@).len() <= u16::MAX ==> r is Ok && r->Ok_0@
                == tree_connect_request_bytes(
                self.flags,
                self.path@,
                message_id,
                session_id,
                credit_charge,
                credits,
            ),
    {
        let path = utf16le(&self.path);
        if path.len() > u16::MAX as usize {
            return Err(WireError::TooLong("the share path"));
        }
        let mut out = encode_request_header(
            Command::TreeConnect,
            message_id,
            session_id,
            0,
            credit_charge,
            credits,
        );
        put_u16(&mut out, 9);
        put_u16(&mut out, self.flags);
        put_u16(&mut out, 72);
        put_u16(&mut out, path.len() as u16);
        put_bytes(&mut out, &path);
        Ok(out)
    }

    /// Decodes a TREE_CONNECT request with its header.
    pub fn decode_message(m: &[u8]) -> (r: Result<TreeConnectRequest, WireError>)
        ensures
            match tree_connect_request_error(m@) {
                Some(e) => r == Err::<TreeConnectRequest, WireError>(e),
                None => r is Ok && r->Ok_0.flags == u16_at(m@, 66) && r->Ok_0.path@
                    == utf16le_text_of(tree_connect_request_path(m@))->0,
            },
    {
        let _header = check_body(m, Command::TreeConnect, 8, 9)?;
        let path = take_buffer(
            m,
            get_u16(m, 68) as u32,
            get_u16(m, 70) as u32,
            72,
            "the share path",
        )?;
        match text_from_utf16le(&path) {
            Some(path) => Ok(TreeConnectRequest { flags: get_u16(m, 66), path }),
            None => Err(WireError::Invalid("share path")),
        }
    }
}

/// The fields of a TREE_CONNECT request behind any 64 bytes.
proof fn lemma_tree_connect_fields(head: Seq<u8>, flags: u16, path: Seq<u8>)
    requires
        head.len() == 64,
        path.len() <= u16::MAX,
    ensures
        ({
            let m = head + (le16(9) + le16(flags) + le16(72) + le16(path.len() as u16) + path);
            &&& m.len() == 72 + path.len()
            &&& u16_at(m, 64) == 9
            &&& u16_at(m, 66) == flags
            &&& u16_at(m, 68) == 72
            &&& u16_at(m, 70) == path.len()
            &&& m.subrange(72, 72 + path.len() as int) == path
        }),
{
    broadcast use crate::bytes::group_byte_layout;

    let m = head + (le16(9) + le16(flags) + le16(72) + le16(path.len() as u16) + path);
    assert(m.subrange(72, 72 + path.len() as int) =~= path);
}

/// Decoding an encoded TREE_CONNECT request gives its flags and path back.
pub proof fn law_tree_connect_request_roundtrip(
    flags: u16,
    path: Seq<char>,
    message_id: u64,
    session_id: u64,
    credit_charge: u16,
    credits: u16,
)
    requires
        utf16le_of(path).len() <= u16::MAX,
    ensures
        ({
            let m = tree_connect_request_bytes(
                flags,
                path,
                message_id,
                session_id,
                credit_charge,
                credits,
            );
            &&& tree_connect_request_error(m) is None
            &&& u16_at(m, 66) == flags
            &&& utf16le_text_of(tree_connect_request_path(m)) == Some(path)
        }),
{
    let h = request_header(Command::TreeConnect, message_id, session_id, 0, credit_charge, credits);
    let name = utf16le_of(path);
    let head = header_bytes(h);
    let body = le16(9) + le16(flags) + le16(72) + le16(name.len() as u16) + name;
    let m = tree_connect_request_bytes(
        flags,
        path,
        message_id,
        session_id,
        credit_charge,
        credits,
    );
    assert(m =~= head + body);
    lemma_header_len(h);
    assert(0u32 & 1 == 0 && 0u32 & 2 == 0) by (bit_vector);
    law_header_roundtrip(h, body);
    lemma_tree_connect_fields(head, flags, name);
    law_utf16le_roundtrip(path);
    assert(tree_connect_request_path(m) =~= name);
}

/// A TREE_CONNECT response.
#[derive(Debug, Clone, Copy, PartialEq, Eq)]
pub struct TreeConnectResponse {
    pub header: Smb2Header,
    pub share_type: u8,
    pub share_flags: u32,
    pub capabilities: u32,
    pub maximal_access: u32,
}

/// Why a packet is no TREE_CONNECT response, if it is none.
pub open spec fn tree_connect_response_error(m: Seq<u8>) -> Option<WireError> {
    body_error(m, Command::TreeConnect, 16, 16)
}

/// What a TREE_CONNECT response says.
pub open spec fn tree_connect_response_of(m: Seq<u8>) -> TreeConnectResponse {
    TreeConnectResponse {
        header: header_of(m),
        share_type: m[66],
        share_flags: u32_at(m, 68),
        capabilities: u32_at(m, 72),
        maximal_access: u32_at(m, 76),
    }
}

impl TreeConnectResponse {
    /// Decodes a TREE_CONNECT response with its header.
    pub fn decode_message(m: &[u8]) -> (r: Result<TreeConnectResponse, WireError>)
        ensures
            match tree_connect_response_error(m@) {
                Some(e) => r == Err::<TreeConnectResponse, WireError>(e),
                None => r == Ok::<TreeConnectResponse, WireError>(tree_connect_response_of(m@)),
            },
    {
        let header = check_body(m, Command::TreeConnect, 16, 16)?;
        Ok(
            TreeConnectResponse {
                header,
                share_type: m[66],
                share_flags: get_u32(m, 68),
                capabilities: get_u32(m, 72),
                maximal_access: get_u32(m, 76),
            },
        )
    }
}

} // verus!
