//! What the exchanges of a session have in common.

use crate::client::error::ClientError;
use crate::wire::header::Command;
use crate::wire::header::HeaderId;
use crate::wire::header::Smb2Header;
use vstd::prelude::*;

verus! {

/// What to say of a response that does not answer its request.
pub struct MismatchTexts {
    pub command: &'static str,
    pub message_id: &'static str,
    pub session_id: &'static str,
}

/// Why a response does not answer a request, if it does not.
pub open spec fn answer_error(
    h: Smb2Header,
    command: Command,
    message_id: u64,
    session_id: u64,
    texts: MismatchTexts,
) -> Option<ClientError> {
    if h.command != command {
        Some(ClientError::Protocol(texts.command))
    } else if h.message_id != message_id {
        Some(ClientError::Protocol(texts.message_id))
    } else if h.session_id != session_id {
        Some(ClientError::Protocol(texts.session_id))
    } else {
        None
    }
}

/// Checks that a response answers a request.
pub fn check_answer(
    h: &Smb2Header,
    command: Command,
    message_id: u64,
    session_id: u64,
    texts: MismatchTexts,
) -> (r: Result<(), ClientError>)
    ensures
        match answer_error(*h, command, message_id, session_id, texts) {
            Some(e) => r == Err::<(), ClientError>(e),
            None => r is Ok,
        },
{
    if h.command != command {
        return Err(ClientError::Protocol(texts.command));
    }
    if h.message_id != message_id {
        return Err(ClientError::Protocol(texts.message_id));
    }
    if h.session_id != session_id {
        return Err(ClientError::Protocol(texts.session_id));
    }
    Ok(())
}

/// Why a response is not on a tree, if it is not.
pub open spec fn tree_error(
    id: HeaderId,
    tree_id: u32,
    wrong_tree: &'static str,
    asynchronous: &'static str,
) -> Option<ClientError> {
    match id {
        HeaderId::Sync { tree_id: received, .. } => if received == tree_id {
            None
        } else {
            Some(ClientError::Protocol(wrong_tree))
        },
        HeaderId::Async { .. } => Some(ClientError::Protocol(asynchronous)),
    }
}

/// Checks that a response is on a tree.
pub fn check_tree(
    id: HeaderId,
    tree_id: u32,
    wrong_tree: &'static str,
    asynchronous: &'static str,
) -> (r: Result<(), ClientError>)
    ensures
        match tree_error(id, tree_id, wrong_tree, asynchronous) {
            Some(e) => r == Err::<(), ClientError>(e),
            None => r is Ok,
        },
{
    match id {
        HeaderId::Sync { tree_id: received, .. } => {
            if received == tree_id {
                Ok(())
            } else {
                Err(ClientError::Protocol(wrong_tree))
            }
        },
        HeaderId::Async { .. } => Err(ClientError::Protocol(asynchronous)),
    }
}

} // verus!
