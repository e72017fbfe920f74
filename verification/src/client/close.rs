//! CLOSE: closing files.

use crate::client::connection::check_status;
use crate::client::connection::status_error;
use crate::client::error::from_wire;
use crate::client::error::ClientError;
use crate::client::exchange::answer_error;
use crate::client::exchange::check_answer;
use crate::client::exchange::check_tree;
use crate::client::exchange::tree_error;
use crate::client::exchange::MismatchTexts;
use crate::client::file::FileHandle;
use crate::client::session::SessionConnection;
use crate::laws::messages::close_sent;
use crate::laws::messages::law_close_message;
use crate::laws::answers::close_stands;
use crate::laws::answers::closes_file;
use crate::laws::answers::law_close_answer;
use crate::laws::limits::credited;
use crate::laws::limits::law_charged_message_is_paid_for;
use crate::laws::limits::law_granted_response_is_credited;
use crate::laws::limits::paid_for;
use crate::wire::constants::CLOSE_FLAG_POSTQUERY_ATTRIB;
use crate::wire::file_io::close_request_bytes;
use crate::wire::file_io::close_response_error;
use crate::wire::file_io::close_response_of;
use crate::wire::file_io::CloseRequest;
use crate::wire::file_io::CloseResponse;
use crate::wire::file_io::FileId;
use crate::wire::header::header_error;
use crate::wire::header::header_of;
use crate::wire::header::Command;
use crate::wire::header::Smb2Header;
use vstd::prelude::*;

verus! {

/// How a file is closed.
#[derive(Debug, Clone, Copy)]
pub struct CloseOptions {
    pub postquery_attributes: bool,
    pub credit_request: u16,
}

impl Default for CloseOptions {
    fn default() -> (r: Self)
        ensures
            r == (CloseOptions { postquery_attributes: false, credit_request: 8 }),
    {
        CloseOptions { postquery_attributes: false, credit_request: 8 }
    }
}

/// What a server says of a file that it closed.
#[derive(Debug, Clone, Copy, PartialEq, Eq)]
pub struct CloseInfo {
    pub has_postquery_attributes: bool,
    pub creation_time: u64,
    pub last_access_time: u64,
    pub last_write_time: u64,
    pub change_time: u64,
    pub allocation_size: u64,
    pub end_of_file: u64,
    pub file_attributes: u32,
}

/// A CLOSE request that was sent.
#[derive(Debug, Clone, Copy)]
pub struct PendingClose {
    pub message_id: u64,
    pub tree_id: u32,
}

/// The CLOSE request before it is signed.
pub open spec fn close_plain<T>(
    session: SessionConnection<T>,
    file_id: FileId,
    tree_id: u32,
    options: CloseOptions,
) -> Seq<u8> {
    let charge = session.connection.single_charge();
    close_request_bytes(
        CloseRequest {
            flags: if options.postquery_attributes {
                CLOSE_FLAG_POSTQUERY_ATTRIB
            } else {
                0
            },
            file_id,
        },
        session.connection.message_ids.next,
        session.session_id,
        tree_id,
        charge,
        session.connection.credit_request(charge, options.credit_request),
    )
}

/// Why closing is refused before anything is charged, if it is.
pub open spec fn close_refusal<T>(session: SessionConnection<T>) -> Option<ClientError> {
    if session.encrypts() {
        Some(ClientError::Protocol("encrypted SMB sessions are not implemented yet"))
    } else if session.connection.negotiated is None {
        Some(ClientError::Protocol("credit calculation requires negotiated parameters"))
    } else {
        None
    }
}

/// Why no CLOSE request can be sent, if none can.
pub open spec fn close_begin_error<T>(
    session: SessionConnection<T>,
    file_id: FileId,
    tree_id: u32,
    options: CloseOptions,
) -> Option<ClientError> {
    let charge = session.connection.single_charge();
    if close_refusal(session) is Some {
        close_refusal(session)
    } else if session.connection.charge_error(charge) is Some {
        session.connection.charge_error(charge)
    } else {
        session.request_sign_error(
            session.signing_required,
            close_plain(session, file_id, tree_id, options),
            "CLOSE requires signing but the session has no signing key",
        )
    }
}

/// What to say of a CLOSE response that answers something else.
pub open spec fn close_texts() -> MismatchTexts {
    MismatchTexts {
        command: "CLOSE response command does not match request",
        message_id: "CLOSE response MessageId does not match request",
        session_id: "CLOSE response SessionId does not match session",
    }
}

/// Why a CLOSE response does not answer the request, if it does not.
pub open spec fn close_answer_error<T>(
    session: SessionConnection<T>,
    pending: PendingClose,
    m: Seq<u8>,
) -> Option<ClientError> {
    let mismatch = answer_error(
        header_of(m),
        Command::Close,
        pending.message_id,
        session.session_id,
        close_texts(),
    );
    if header_error(m) is Some {
        Some(ClientError::Wire(header_error(m)->0))
    } else if mismatch is Some {
        mismatch
    } else {
        tree_error(
            header_of(m).id,
            pending.tree_id,
            "CLOSE response TreeId does not match file tree",
            "CLOSE response unexpectedly used async header form",
        )
    }
}

/// Why a CLOSE response is not accepted, if it is not.
pub open spec fn close_finish_error<T>(
    session: SessionConnection<T>,
    pending: PendingClose,
    m: Seq<u8>,
) -> Option<ClientError> {
    let h = header_of(m);
    let form = "CLOSE response used request header form";
    let signature = session.response_signature_error(
        session.signing_required,
        m,
        "server signed CLOSE without an available signing key",
        "server omitted a required CLOSE signature",
    );
    if close_answer_error(session, pending, m) is Some {
        close_answer_error(session, pending, m)
    } else if session.connection.grant_error(h.credits) is Some {
        session.connection.grant_error(h.credits)
    } else if status_error(h.status, form) is Some {
        status_error(h.status, form)
    } else if signature is Some {
        signature
    } else if close_response_error(m) is Some {
        Some(ClientError::Wire(close_response_error(m)->0))
    } else {
        None
    }
}

/// What an accepted CLOSE response says of the file.
pub open spec fn close_info_of(m: Seq<u8>) -> CloseInfo {
    let said = close_response_of(m);
    CloseInfo {
        has_postquery_attributes: said.flags & CLOSE_FLAG_POSTQUERY_ATTRIB != 0,
        creation_time: said.creation_time,
        last_access_time: said.last_access_time,
        last_write_time: said.last_write_time,
        change_time: said.change_time,
        allocation_size: said.allocation_size,
        end_of_file: said.end_of_file,
        file_attributes: said.file_attributes,
    }
}

impl<T> SessionConnection<T> {
    /// Builds the request that closes a file, and consumes the local `FileHandle` so it cannot be
    /// reused.
    pub fn begin_close_file(&mut self, file: FileHandle, options: CloseOptions) -> (r: Result<
        (Vec<u8>, PendingClose),
        ClientError,
    >)
        ensures
            match close_begin_error(*old(self), file.file_id, file.tree_id, options) {
                Some(e) => r == Err::<(Vec<u8>, PendingClose), ClientError>(e),
                None => r is Ok && r->Ok_0.0@ == old(self).request_signed(
                    old(self).signing_required,
                    close_plain(*old(self), file.file_id, file.tree_id, options),
                ) && r->Ok_0.1 == (PendingClose {
                    message_id: old(self).connection.message_ids.next,
                    tree_id: file.tree_id,
                }),
            },
            r is Ok ==> close_sent(r->Ok_0.0@, *old(self), file.file_id, file.tree_id, options),
            r is Ok ==> paid_for(*old(self), *final(self), r->Ok_0.0@),
            *final(self) == (SessionConnection {
                connection: if close_refusal(*old(self)) is Some {
                    old(self).connection
                } else {
                    old(self).connection.charged(old(self).connection.single_charge())
                },
                ..*old(self)
            }),
    {
        self.ensure_not_encrypted()?;
        let mut request = CloseRequest::new(file.file_id);
        if options.postquery_attributes {
            request.flags = CLOSE_FLAG_POSTQUERY_ATTRIB;
        }
        let credit_charge: u16 = self.connection.single_request_credit_charge()?;
        let (message_id, credit_request) = self.connection.charge_request(
            credit_charge,
            options.credit_request,
        )?;
        let mut message = request.encode_message(
            message_id,
            self.session_id,
            file.tree_id,
            credit_charge,
            credit_request,
        );
        self.sign_request(
            self.signing_required,
            &mut message,
            "CLOSE requires signing but the session has no signing key",
        )?;
        proof {
            law_close_message(*old(self), file.file_id, file.tree_id, options);
            law_charged_message_is_paid_for(*old(self), credit_charge, message@);
        }
        Ok((message, PendingClose { message_id, tree_id: file.tree_id }))
    }

    /// Takes the response to a CLOSE request.
    pub fn finish_close_file(&mut self, pending: PendingClose, response_message: &[u8]) -> (r: Result<
        CloseInfo,
        ClientError,
    >)
        ensures
            match close_finish_error(*old(self), pending, response_message@) {
                Some(e) => r == Err::<CloseInfo, ClientError>(e),
                None => r == Ok::<CloseInfo, ClientError>(close_info_of(response_message@)),
            },
            r is Ok <==> closes_file(response_message@, *old(self), pending),
            r is Ok ==> close_stands(r->Ok_0, response_message@),
            r is Ok ==> credited(*old(self), *final(self), response_message@),
            *final(self) == (SessionConnection {
                connection: if close_answer_error(
                    *old(self),
                    pending,
                    response_message@,
                ) is Some {
                    old(self).connection
                } else {
                    old(self).connection.granted(header_of(response_message@).credits)
                },
                ..*old(self)
            }),
    {
        proof {
            law_close_answer(*self, pending, response_message@);
            if closes_file(response_message@, *self, pending) {
                law_granted_response_is_credited(*self, response_message@);
            }
        }
        let header = from_wire(Smb2Header::decode(response_message))?;
        check_answer(
            &header,
            Command::Close,
            pending.message_id,
            self.session_id,
            MismatchTexts {
                command: "CLOSE response command does not match request",
                message_id: "CLOSE response MessageId does not match request",
                session_id: "CLOSE response SessionId does not match session",
            },
        )?;
        check_tree(
            header.id,
            pending.tree_id,
            "CLOSE response TreeId does not match file tree",
            "CLOSE response unexpectedly used async header form",
        )?;
        self.connection.grant_credits(header.credits)?;
        check_status(header.status, "CLOSE response used request header form")?;
        self.verify_response(
            self.signing_required,
            response_message,
            &header,
            "server signed CLOSE without an available signing key",
            "server omitted a required CLOSE signature",
        )?;
        let response = from_wire(CloseResponse::decode_message(response_message))?;
        Ok(
            CloseInfo {
                has_postquery_attributes: response.has_postquery_attributes(),
                creation_time: response.creation_time,
                last_access_time: response.last_access_time,
                last_write_time: response.last_write_time,
                change_time: response.change_time,
                allocation_size: response.allocation_size,
                end_of_file: response.end_of_file,
                file_attributes: response.file_attributes,
            },
        )
    }
}

} // verus!
