//! Why an SMB operation failed.

use crate::auth::provider::AuthError;
use crate::text::append_text;
use crate::text::append_upper_hex32;
use crate::text::copy_text;
use crate::text::text_begins_with;
use crate::text::upper_hex32_of;
use crate::wire::error::WireError;
use vstd::prelude::*;

verus! {

#[verifier::external_type_specification]
#[verifier::external_body]
pub struct ExIoError(std::io::Error);

/// Why an SMB operation failed.
#[derive(Debug)]
pub enum ClientError {
    /// The transport failed.
    Io(std::io::Error),
    /// A packet could not be encoded or decoded.
    Wire(WireError),
    /// Authentication failed.
    Auth(AuthError),
    /// The named stage took too long.
    Timeout(&'static str),
    /// The server answered with this NTSTATUS.
    ServerStatus(u32),
    /// A peer or a caller broke a rule of the protocol.
    Protocol(&'static str),
    /// The work was invalidated before it was done.
    Cancelled,
    /// An optional feature is not available.
    Capability(&'static str),
}

impl From<std::io::Error> for ClientError {
    fn from(value: std::io::Error) -> (r: Self) {
        ClientError::Io(value)
    }
}

impl vstd::std_specs::convert::FromSpecImpl<std::io::Error> for ClientError {
    open spec fn obeys_from_spec() -> bool {
        true
    }

    open spec fn from_spec(value: std::io::Error) -> Self {
        ClientError::Io(value)
    }
}

impl From<WireError> for ClientError {
    fn from(value: WireError) -> (r: Self) {
        ClientError::Wire(value)
    }
}

impl vstd::std_specs::convert::FromSpecImpl<WireError> for ClientError {
    open spec fn obeys_from_spec() -> bool {
        true
    }

    open spec fn from_spec(value: WireError) -> Self {
        ClientError::Wire(value)
    }
}

impl From<AuthError> for ClientError {
    fn from(value: AuthError) -> (r: Self) {
        ClientError::Auth(value)
    }
}

impl vstd::std_specs::convert::FromSpecImpl<AuthError> for ClientError {
    open spec fn obeys_from_spec() -> bool {
        true
    }

    open spec fn from_spec(value: AuthError) -> Self {
        ClientError::Auth(value)
    }
}

/// A wire result as a client result.
pub open spec fn wire_result<T>(r: Result<T, WireError>) -> Result<T, ClientError> {
    match r {
        Ok(value) => Ok(value),
        Err(e) => Err(ClientError::Wire(e)),
    }
}

/// Turns a wire result into a client result.
pub fn from_wire<T>(r: Result<T, WireError>) -> (q: Result<T, ClientError>)
    ensures
        q == wire_result(r),
{
    match r {
        Ok(value) => Ok(value),
        Err(e) => Err(ClientError::Wire(e)),
    }
}

/// The `Display` form of `std::io::Error`. Nothing is claimed of the text: it is worded by the
/// operating system, or by whoever made the error.
#[verifier::external_body]
pub(crate) fn io_error_text(error: &std::io::Error) -> String {
    format!("{error}")
}

impl ClientError {
    /// The text that describes an error. What an I/O error says of itself is left open.
    pub open spec fn has_message(self, text: Seq<char>) -> bool {
        match self {
            ClientError::Io(_) => text_begins_with(text, "SMB transport I/O failed: "@),
            ClientError::Wire(e) => text == "SMB wire error: "@ + e.message(),
            ClientError::Auth(e) => text == "SMB authentication error: "@ + e.message(),
            ClientError::Timeout(stage) => text == "SMB operation timed out during "@ + stage@,
            ClientError::ServerStatus(status) => text == "SMB server returned NTSTATUS 0x"@
                + upper_hex32_of(status),
            ClientError::Protocol(m) => text == "SMB protocol error: "@ + m@,
            ClientError::Cancelled => text == "SMB operation cancelled"@,
            ClientError::Capability(m) => text == "SMB capability unavailable: "@ + m@,
        }
    }

    /// Describes the error.
    pub fn to_text(&self) -> (r: String)
        ensures
            self.has_message(r@),
    {
        match self {
            ClientError::Io(error) => {
                let mut out = copy_text("SMB transport I/O failed: ");
                let detail = io_error_text(error);
                append_text(&mut out, detail.as_str());
                assert(out@.take("SMB transport I/O failed: "@.len() as int)
                    =~= "SMB transport I/O failed: "@);
                out
            },
            ClientError::Wire(error) => {
                let mut out = copy_text("SMB wire error: ");
                append_text(&mut out, error.to_text().as_str());
                out
            },
            ClientError::Auth(error) => {
                let mut out = copy_text("SMB authentication error: ");
                append_text(&mut out, error.to_text().as_str());
                out
            },
            ClientError::Timeout(stage) => {
                let mut out = copy_text("SMB operation timed out during ");
                append_text(&mut out, stage);
                out
            },
            ClientError::ServerStatus(status) => {
                let mut out = copy_text("SMB server returned NTSTATUS 0x");
                append_upper_hex32(&mut out, *status);
                out
            },
            ClientError::Protocol(message) => {
                let mut out = copy_text("SMB protocol error: ");
                append_text(&mut out, message);
                out
            },
            ClientError::Cancelled => copy_text("SMB operation cancelled"),
            ClientError::Capability(message) => {
                let mut out = copy_text("SMB capability unavailable: ");
                append_text(&mut out, message);
                out
            },
        }
    }
}

} // verus!
