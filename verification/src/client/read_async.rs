//! Asynchronous READ responses.

use crate::client::error::ClientError;
use crate::wire::header::Command;
use crate::wire::header::HeaderId;
use crate::wire::header::Smb2Header;
use crate::wire::header::StatusField;
use vstd::prelude::*;

verus! {

/// NTSTATUS returned by an interim response when the server continues a request asynchronously.
pub const STATUS_PENDING: u32 = 0x0000_0103;

/// What a READ response is to its request.
#[derive(Debug, Clone, Copy, PartialEq, Eq, Structural)]
pub enum ReadResponsePhase {
    InterimPending,
    Final,
}

impl ReadResponsePhase {
    /// Whether a response owes a signature.
    pub open spec fn owes_signature(self, signing_required: bool) -> bool {
        signing_required && self == ReadResponsePhase::Final
    }

    /// SMB2 async STATUS_PENDING is an interim response. Servers are permitted to leave that
    /// response unsigned even when the session requires signing; final responses remain subject to
    /// the normal signing requirement.
    pub fn requires_signature(self, signing_required: bool) -> (r: bool)
        ensures
            r == self.owes_signature(signing_required),
    {
        signing_required && self == ReadResponsePhase::Final
    }
}

/// Per-request asynchronous state learned from SMB2_FLAGS_ASYNC_COMMAND responses.
///
/// The MessageId remains the primary correlation key. Once the server supplies a nonzero AsyncId,
/// subsequent async responses for the request must carry the same identifier. This state is also
/// used by SMB2 CANCEL so a cancellation after STATUS_PENDING targets the server's AsyncId.
#[derive(Debug, Clone, Copy, PartialEq, Eq, Structural)]
pub struct AsyncReadState {
    pub async_id: Option<u64>,
}

/// Why a READ response does not continue its request, if it does not.
pub open spec fn read_response_refusal(
    state: AsyncReadState,
    tree_id: u32,
    session_id: u64,
    message_id: u64,
    h: Smb2Header,
) -> Option<ClientError> {
    if h.command != Command::Read {
        Some(ClientError::Protocol("READ response command does not match request"))
    } else if h.message_id != message_id {
        Some(ClientError::Protocol("READ response MessageId does not match request"))
    } else if h.session_id != session_id {
        Some(ClientError::Protocol("READ response SessionId does not match session"))
    } else {
        match (h.status, h.id) {
            (StatusField::ChannelSequence { .. }, _) => Some(
                ClientError::Protocol("READ response used request header form"),
            ),
            (
                StatusField::Status(status),
                HeaderId::Sync { tree_id: received, .. },
            ) => if state.async_id is Some {
                Some(
                    ClientError::Protocol(
                        "asynchronous READ final response reverted to sync header form",
                    ),
                )
            } else if status == STATUS_PENDING {
                Some(
                    ClientError::Protocol(
                        "STATUS_PENDING READ response did not use async header form",
                    ),
                )
            } else if received != tree_id {
                Some(ClientError::Protocol("READ response TreeId does not match file tree"))
            } else {
                None
            },
            (StatusField::Status(_), HeaderId::Async { async_id }) => if async_id == 0 {
                Some(ClientError::Protocol("asynchronous READ response has a zero AsyncId"))
            } else if state.async_id is Some && state.async_id->0 != async_id {
                Some(
                    ClientError::Protocol(
                        "asynchronous READ response AsyncId changed before completion",
                    ),
                )
            } else {
                None
            },
        }
    }
}

/// What an accepted READ response is: interim where it is asynchronous and pending.
pub open spec fn read_response_phase(h: Smb2Header) -> ReadResponsePhase {
    if h.id is Async && h.status == StatusField::Status(STATUS_PENDING) {
        ReadResponsePhase::InterimPending
    } else {
        ReadResponsePhase::Final
    }
}

/// The asynchronous state after an accepted READ response.
pub open spec fn async_state_after(state: AsyncReadState, h: Smb2Header) -> AsyncReadState {
    match h.id {
        HeaderId::Sync { .. } => state,
        HeaderId::Async { async_id } => AsyncReadState { async_id: Some(async_id) },
    }
}

impl AsyncReadState {
    /// The AsyncId that the server gave.
    pub fn async_id(self) -> (r: Option<u64>)
        ensures
            r == self.async_id,
    {
        self.async_id
    }

    /// Checks that a READ response continues its request, and learns its AsyncId.
    pub fn validate(
        &mut self,
        tree_id: u32,
        session_id: u64,
        message_id: u64,
        header: &Smb2Header,
    ) -> (r: Result<ReadResponsePhase, ClientError>)
        ensures
            match read_response_refusal(*old(self), tree_id, session_id, message_id, *header) {
                Some(e) => r == Err::<ReadResponsePhase, ClientError>(e) && *final(self)
                    == *old(self),
                None => r == Ok::<ReadResponsePhase, ClientError>(read_response_phase(*header))
                    && *final(self) == async_state_after(*old(self), *header),
            },
    {
        if header.command != Command::Read {
            return Err(ClientError::Protocol("READ response command does not match request"));
        }
        if header.message_id != message_id {
            return Err(ClientError::Protocol("READ response MessageId does not match request"));
        }
        if header.session_id != session_id {
            return Err(ClientError::Protocol("READ response SessionId does not match session"));
        }
        let status: u32 = match header.status {
            StatusField::Status(status) => status,
            StatusField::ChannelSequence { .. } => {
                return Err(ClientError::Protocol("READ response used request header form"));
            },
        };
        match header.id {
            HeaderId::Sync { tree_id: received_tree_id, .. } => {
                if self.async_id.is_some() {
                    return Err(
                        ClientError::Protocol(
                            "asynchronous READ final response reverted to sync header form",
                        ),
                    );
                }
                if status == STATUS_PENDING {
                    return Err(
                        ClientError::Protocol(
                            "STATUS_PENDING READ response did not use async header form",
                        ),
                    );
                }
                if received_tree_id != tree_id {
                    return Err(
                        ClientError::Protocol("READ response TreeId does not match file tree"),
                    );
                }
                Ok(ReadResponsePhase::Final)
            },
            HeaderId::Async { async_id } => {
                if async_id == 0 {
                    return Err(
                        ClientError::Protocol("asynchronous READ response has a zero AsyncId"),
                    );
                }
                match self.async_id {
                    Some(expected) => {
                        if expected != async_id {
                            return Err(
                                ClientError::Protocol(
                                    "asynchronous READ response AsyncId changed before completion",
                                ),
                            );
                        }
                    },
                    None => {
                        self.async_id = Some(async_id);
                    },
                }
                if status == STATUS_PENDING {
                    Ok(ReadResponsePhase::InterimPending)
                } else {
                    Ok(ReadResponsePhase::Final)
                }
            },
        }
    }
}

impl Default for AsyncReadState {
    fn default() -> (r: Self)
        ensures
            r.async_id is None,
    {
        AsyncReadState { async_id: None }
    }
}

/// An AsyncId that was learned stays the same through every accepted response, and is never zero.
pub proof fn law_async_id_stable(
    state: AsyncReadState,
    tree_id: u32,
    session_id: u64,
    message_id: u64,
    h: Smb2Header,
)
    requires
        read_response_refusal(state, tree_id, session_id, message_id, h) is None,
    ensures
        state.async_id is Some ==> async_state_after(state, h) == state,
        h.id is Async ==> async_state_after(state, h).async_id is Some,
        state.async_id is None && h.id is Async ==> async_state_after(state, h).async_id->0 != 0,
{
}

} // verus!
