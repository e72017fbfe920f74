//! SESSION_SETUP packets.

use crate::bytes::get_u16;
use crate::bytes::le16;
use crate::bytes::le32;
use crate::bytes::le64;
use crate::bytes::put_bytes;
use crate::bytes::put_u16;
use crate::bytes::put_u32;
use crate::bytes::put_u64;
use crate::bytes::put_u8;
use crate::bytes::u16_at;
use crate::wire::body::body_error;
use crate::wire::body::buffer_inside;
use crate::wire::body::buffer_of;
use crate::wire::body::check_body;
use crate::wire::body::take_buffer;
use crate::wire::error::WireError;
use crate::wire::header::encode_request_header;
use crate::wire::header::header_bytes;
use crate::wire::header::header_of;
use crate::wire::header::request_header;
use crate::wire::header::Command;
use crate::wire::header::Smb2Header;
use vstd::prelude::*;

verus! {

/// A SESSION_SETUP request.
#[derive(Debug, Clone, PartialEq, Eq)]
pub struct SessionSetupRequest {
    pub flags: u8,
    pub security_mode: u8,
    pub capabilities: u32,
    pub previous_session_id: u64,
    pub security_blob: Vec<u8>,
}

/// The bytes of a SESSION_SETUP request.
pub open spec fn session_setup_request_bytes(
    flags: u8,
    security_mode: u8,
    capabilities: u32,
    previous_session_id: u64,
    blob: Seq<u8>,
    message_id: u64,
    session_id: u64,
    credit_charge: u16,
    credits: u16,
) -> Seq<u8> {
    header_bytes(
        request_header(Command::SessionSetup, message_id, session_id, 0, credit_charge, credits),
    ) + le16(25) + seq![flags] + seq![security_mode] + le32(capabilities) + le32(0) + le16(88)
        + le16(blob.len() as u16) + le64(previous_session_id) + blob
}

impl SessionSetupRequest {
    /// Encodes the request with its header.
    pub fn encode_message(
        &self,
        message_id: u64,
        session_id: u64,
        credit_charge: u16,
        credits: u16,
    ) -> (r: Result<Vec<u8>, WireError>)
        ensures
            self.security_blob@.len() > u16::MAX ==> r == Err::<Vec<u8>, _>(
                WireError::TooLong("the security blob"),
            ),
            self.security_blob@.len() <= u16::MAX ==> r is Ok && r->Ok_0@
                == session_setup_request_bytes(
                self.flags,
                self.security_mode,
                self.capabilities,
                self.previous_session_id,
                self.security_blob@,
                message_id,
                session_id,
                credit_charge,
                credits,
            ),
    {
        if self.security_blob.len() > u16::MAX as usize {
            return Err(WireError::TooLong("the security blob"));
        }
        let mut out = encode_request_header(
            Command::SessionSetup,
            message_id,
            session_id,
            0,
            credit_charge,
            credits,
        );
        put_u16(&mut out, 25);
        put_u8(&mut out, self.flags);
        put_u8(&mut out, self.security_mode);
        put_u32(&mut out, self.capabilities);
        put_u32(&mut out, 0);
        put_u16(&mut out, 88);
        put_u16(&mut out, self.security_blob.len() as u16);
        put_u64(&mut out, self.previous_session_id);
        put_bytes(&mut out, &self.security_blob);
        Ok(out)
    }
}

/// A SESSION_SETUP response.
#[derive(Debug, Clone, PartialEq, Eq)]
pub struct SessionSetupResponse {
    pub header: Smb2Header,
    pub session_flags: u16,
    pub security_blob: Vec<u8>,
}

/// Why a packet is no SESSION_SETUP response, if it is none.
pub open spec fn session_setup_response_error(m: Seq<u8>) -> Option<WireError> {
    match body_error(m, Command::SessionSetup, 8, 9) {
        Some(e) => Some(e),
        None => if !buffer_inside(m, u16_at(m, 68) as int, u16_at(m, 70) as int, 72) {
            Some(WireError::Truncated("the security blob"))
        } else {
            None
        },
    }
}

/// The security blob of a SESSION_SETUP response.
pub open spec fn session_setup_response_blob(m: Seq<u8>) -> Seq<u8> {
    buffer_of(m, u16_at(m, 68) as int, u16_at(m, 70) as int)
}

impl SessionSetupResponse {
    /// Decodes a SESSION_SETUP response with its header.
    pub fn decode_message(m: &[u8]) -> (r: Result<SessionSetupResponse, WireError>)
        ensures
            match session_setup_response_error(m@) {
                Some(e) => r == Err::<SessionSetupResponse, WireError>(e),
                None => r is Ok && r->Ok_0.header == header_of(m@) && r->Ok_0.session_flags
                    == u16_at(m@, 66) && r->Ok_0.security_blob@ == session_setup_response_blob(m@),
            },
    {
        let header = check_body(m, Command::SessionSetup, 8, 9)?;
        let security_blob = take_buffer(
            m,
            get_u16(m, 68) as u32,
            get_u16(m, 70) as u32,
            72,
            "the security blob",
        )?;
        Ok(SessionSetupResponse { header, session_flags: get_u16(m, 66), security_blob })
    }
}

} // verus!
