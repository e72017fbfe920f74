//! TREE_CONNECT: binding a session to a share.

use crate::auth::provider::AuthMechanism;
use crate::client::connection::check_status;
use crate::client::connection::status_error;
use crate::client::error::from_wire;
use crate::client::error::ClientError;
use crate::client::exchange::answer_error;
use crate::client::exchange::check_answer;
use crate::client::exchange::MismatchTexts;
use crate::client::session::SessionConnection;
use crate::laws::messages::law_tree_connect_message;
use crate::laws::messages::tree_connect_sent;
use crate::laws::answers::connects_tree;
use crate::laws::answers::law_tree_connect_answer;
use crate::laws::answers::tree_stands;
use crate::laws::limits::credited;
use crate::laws::limits::law_charged_message_is_paid_for;
use crate::laws::limits::law_granted_response_is_credited;
use crate::laws::limits::paid_for;
use crate::text::copy_text;
use crate::text::utf16le_of;
use crate::wire::constants::SESSION_FLAG_IS_GUEST;
use crate::wire::constants::SESSION_FLAG_IS_NULL;
use crate::wire::constants::TREE_CONNECT_FLAG_EXTENSION_PRESENT;
use crate::wire::error::WireError;
use crate::wire::header::header_error;
use crate::wire::header::header_of;
use crate::wire::header::Command;
use crate::wire::header::HeaderId;
use crate::wire::header::Smb2Header;
use crate::wire::negotiate::Dialect;
use crate::wire::tree::tree_connect_request_bytes;
use crate::wire::tree::tree_connect_response_error;
use crate::wire::tree::tree_connect_response_of;
use crate::wire::tree::TreeConnectRequest;
use crate::wire::tree::TreeConnectResponse;
use vstd::prelude::*;

verus! {

/// How a share is connected.
#[derive(Debug, Clone, Copy)]
pub struct TreeConnectOptions {
    pub flags: u16,
    pub credit_request: u16,
}

impl Default for TreeConnectOptions {
    fn default() -> (r: Self)
        ensures
            r == (TreeConnectOptions { flags: 0, credit_request: 16 }),
    {
        TreeConnectOptions { flags: 0, credit_request: 16 }
    }
}

/// A connected share.
#[derive(Debug, Clone, PartialEq, Eq)]
pub struct TreeHandle {
    pub tree_id: u32,
    pub path: String,
    pub share_type: u8,
    pub share_flags: u32,
    pub capabilities: u32,
    pub maximal_access: u32,
}

impl TreeHandle {
    pub fn tree_id(&self) -> (r: u32)
        ensures
            r == self.tree_id,
    {
        self.tree_id
    }

    pub fn path(&self) -> (r: &str)
        ensures
            r@ == self.path@,
    {
        self.path.as_str()
    }

    pub fn share_type(&self) -> (r: u8)
        ensures
            r == self.share_type,
    {
        self.share_type
    }

    pub fn share_flags(&self) -> (r: u32)
        ensures
            r == self.share_flags,
    {
        self.share_flags
    }

    pub fn capabilities(&self) -> (r: u32)
        ensures
            r == self.capabilities,
    {
        self.capabilities
    }

    pub fn maximal_access(&self) -> (r: u32)
        ensures
            r == self.maximal_access,
    {
        self.maximal_access
    }
}

/// A TREE_CONNECT request that was sent.
#[derive(Debug)]
pub struct PendingTreeConnect {
    pub message_id: u64,
    pub path: String,
}

/// Whether TREE_CONNECT is signed. Under SMB 3.1.1 it is for every authenticated session, even where
/// signing is otherwise optional.
pub open spec fn tree_connect_signs<T>(session: SessionConnection<T>) -> bool {
    session.signing_required || (session.connection.negotiated->0.dialect == Dialect::Smb311
        && session.mechanism != AuthMechanism::Anonymous && session.session_flags & (
    SESSION_FLAG_IS_GUEST | SESSION_FLAG_IS_NULL) == 0)
}

/// The TREE_CONNECT request before it is signed.
pub open spec fn tree_connect_plain<T>(
    session: SessionConnection<T>,
    path: Seq<char>,
    options: TreeConnectOptions,
) -> Seq<u8> {
    let charge = session.connection.single_charge();
    tree_connect_request_bytes(
        options.flags,
        path,
        session.connection.message_ids.next,
        session.session_id,
        charge,
        session.connection.credit_request(charge, options.credit_request),
    )
}

/// Why TREE_CONNECT is refused before anything is charged, if it is.
pub open spec fn tree_connect_refusal<T>(
    session: SessionConnection<T>,
    options: TreeConnectOptions,
) -> Option<ClientError> {
    if session.connection.negotiated is None {
        Some(ClientError::Protocol("TREE_CONNECT requires negotiated parameters"))
    } else if session.connection.negotiated->0.dialect != Dialect::Smb311 && options.flags != 0 {
        Some(ClientError::Protocol("TREE_CONNECT flags are only valid for SMB 3.1.1"))
    } else if options.flags & TREE_CONNECT_FLAG_EXTENSION_PRESENT != 0 {
        Some(ClientError::Protocol("TREE_CONNECT extensions are not implemented yet"))
    } else if session.encrypts() {
        Some(ClientError::Protocol("encrypted SMB sessions are not implemented yet"))
    } else {
        None
    }
}

/// Why no TREE_CONNECT request can be sent, if none can.
pub open spec fn tree_connect_begin_error<T>(
    session: SessionConnection<T>,
    path: Seq<char>,
    options: TreeConnectOptions,
) -> Option<ClientError> {
    let charge = session.connection.single_charge();
    if tree_connect_refusal(session, options) is Some {
        tree_connect_refusal(session, options)
    } else if session.connection.charge_error(charge) is Some {
        session.connection.charge_error(charge)
    } else if utf16le_of(path).len() > u16::MAX {
        Some(ClientError::Wire(WireError::TooLong("the share path")))
    } else {
        session.request_sign_error(
            tree_connect_signs(session),
            tree_connect_plain(session, path, options),
            "TREE_CONNECT requires signing but the session has no signing key",
        )
    }
}

/// What to say of a TREE_CONNECT response that answers something else.
pub open spec fn tree_connect_texts() -> MismatchTexts {
    MismatchTexts {
        command: "TREE_CONNECT response command does not match request",
        message_id: "TREE_CONNECT response MessageId does not match request",
        session_id: "TREE_CONNECT response SessionId does not match session",
    }
}

/// Why a TREE_CONNECT response does not answer the request, if it does not.
pub open spec fn tree_connect_answer_error<T>(
    session: SessionConnection<T>,
    message_id: u64,
    m: Seq<u8>,
) -> Option<ClientError> {
    if header_error(m) is Some {
        Some(ClientError::Wire(header_error(m)->0))
    } else {
        answer_error(
            header_of(m),
            Command::TreeConnect,
            message_id,
            session.session_id,
            tree_connect_texts(),
        )
    }
}

/// Why a TREE_CONNECT response is not accepted, if it is not.
pub open spec fn tree_connect_finish_error<T>(
    session: SessionConnection<T>,
    message_id: u64,
    m: Seq<u8>,
) -> Option<ClientError> {
    let h = header_of(m);
    let form = "TREE_CONNECT response used request header form";
    let signature = session.response_signature_error(
        session.signing_required,
        m,
        "server signed TREE_CONNECT without an available signing key",
        "server omitted a required TREE_CONNECT signature",
    );
    if tree_connect_answer_error(session, message_id, m) is Some {
        tree_connect_answer_error(session, message_id, m)
    } else if session.connection.grant_error(h.credits) is Some {
        session.connection.grant_error(h.credits)
    } else if status_error(h.status, form) is Some {
        status_error(h.status, form)
    } else if signature is Some {
        signature
    } else if tree_connect_response_error(m) is Some {
        Some(ClientError::Wire(tree_connect_response_error(m)->0))
    } else {
        match h.id {
            HeaderId::Sync { tree_id, .. } => if tree_id == 0 {
                Some(
                    ClientError::Protocol("successful TREE_CONNECT response has a zero TreeId"),
                )
            } else {
                None
            },
            HeaderId::Async { .. } => Some(
                ClientError::Protocol("TREE_CONNECT response unexpectedly used async header form"),
            ),
        }
    }
}

impl<T> SessionConnection<T> {
    /// Builds the request that connects the session to a UNC share such as `\\server\video`.
    ///
    /// SMB 3.1.1 TREE_CONNECT is signed for authenticated non-encrypted sessions even when the
    /// general session signing policy is optional.
    pub fn begin_tree_connect(&mut self, path: &str, options: TreeConnectOptions) -> (r: Result<
        (Vec<u8>, PendingTreeConnect),
        ClientError,
    >)
        ensures
            match tree_connect_begin_error(*old(self), path@, options) {
                Some(e) => r == Err::<(Vec<u8>, PendingTreeConnect), ClientError>(e),
                None => r is Ok && r->Ok_0.0@ == old(self).request_signed(
                    tree_connect_signs(*old(self)),
                    tree_connect_plain(*old(self), path@, options),
                ) && r->Ok_0.1.message_id == old(self).connection.message_ids.next
                    && r->Ok_0.1.path@ == path@,
            },
            r is Ok ==> tree_connect_sent(r->Ok_0.0@, *old(self), path@, options),
            r is Ok ==> paid_for(*old(self), *final(self), r->Ok_0.0@),
            *final(self) == (SessionConnection {
                connection: if tree_connect_refusal(*old(self), options) is Some {
                    old(self).connection
                } else {
                    old(self).connection.charged(old(self).connection.single_charge())
                },
                ..*old(self)
            }),
    {
        let dialect = match &self.connection.negotiated {
            Some(negotiated) => negotiated.dialect,
            None => {
                return Err(ClientError::Protocol("TREE_CONNECT requires negotiated parameters"));
            },
        };
        if dialect != Dialect::Smb311 && options.flags != 0 {
            return Err(ClientError::Protocol("TREE_CONNECT flags are only valid for SMB 3.1.1"));
        }
        if options.flags & TREE_CONNECT_FLAG_EXTENSION_PRESENT != 0 {
            return Err(ClientError::Protocol("TREE_CONNECT extensions are not implemented yet"));
        }
        self.ensure_not_encrypted()?;
        let must_sign: bool = self.signing_required || (dialect == Dialect::Smb311
            && self.mechanism != AuthMechanism::Anonymous && self.session_flags & (
        SESSION_FLAG_IS_GUEST | SESSION_FLAG_IS_NULL) == 0);
        let request = TreeConnectRequest { flags: options.flags, path: copy_text(path) };
        let credit_charge: u16 = self.connection.single_request_credit_charge()?;
        let (message_id, credit_request) = self.connection.charge_request(
            credit_charge,
            options.credit_request,
        )?;
        let mut message = from_wire(
            request.encode_message(message_id, self.session_id, credit_charge, credit_request),
        )?;
        self.sign_request(
            must_sign,
            &mut message,
            "TREE_CONNECT requires signing but the session has no signing key",
        )?;
        proof {
            law_tree_connect_message(*old(self), path@, options);
            law_charged_message_is_paid_for(*old(self), credit_charge, message@);
        }
        Ok((message, PendingTreeConnect { message_id, path: request.path }))
    }

    /// Takes the response to a TREE_CONNECT request.
    pub fn finish_tree_connect(
        &mut self,
        pending: PendingTreeConnect,
        response_message: &[u8],
    ) -> (r: Result<TreeHandle, ClientError>)
        ensures
            match tree_connect_finish_error(*old(self), pending.message_id, response_message@) {
                Some(e) => r == Err::<TreeHandle, ClientError>(e),
                None => r is Ok && {
                    let said = tree_connect_response_of(response_message@);
                    &&& r->Ok_0.tree_id == said.header.id->tree_id
                    &&& r->Ok_0.tree_id != 0
                    &&& r->Ok_0.path@ == pending.path@
                    &&& r->Ok_0.share_type == said.share_type
                    &&& r->Ok_0.share_flags == said.share_flags
                    &&& r->Ok_0.capabilities == said.capabilities
                    &&& r->Ok_0.maximal_access == said.maximal_access
                },
            },
            r is Ok <==> connects_tree(response_message@, *old(self), pending.message_id),
            r is Ok ==> tree_stands(r->Ok_0, response_message@),
            r is Ok ==> credited(*old(self), *final(self), response_message@),
            *final(self) == (SessionConnection {
                connection: if tree_connect_answer_error(
                    *old(self),
                    pending.message_id,
                    response_message@,
                ) is Some {
                    old(self).connection
                } else {
                    old(self).connection.granted(header_of(response_message@).credits)
                },
                ..*old(self)
            }),
    {
        proof {
            law_tree_connect_answer(*self, pending.message_id, response_message@);
            if connects_tree(response_message@, *self, pending.message_id) {
                law_granted_response_is_credited(*self, response_message@);
            }
        }
        let header = from_wire(Smb2Header::decode(response_message))?;
        check_answer(
            &header,
            Command::TreeConnect,
            pending.message_id,
            self.session_id,
            MismatchTexts {
                command: "TREE_CONNECT response command does not match request",
                message_id: "TREE_CONNECT response MessageId does not match request",
                session_id: "TREE_CONNECT response SessionId does not match session",
            },
        )?;
        self.connection.grant_credits(header.credits)?;
        check_status(header.status, "TREE_CONNECT response used request header form")?;
        self.verify_response(
            self.signing_required,
            response_message,
            &header,
            "server signed TREE_CONNECT without an available signing key",
            "server omitted a required TREE_CONNECT signature",
        )?;
        let response = from_wire(TreeConnectResponse::decode_message(response_message))?;
        let tree_id: u32 = match response.header.id {
            HeaderId::Sync { tree_id, .. } => {
                if tree_id == 0 {
                    return Err(
                        ClientError::Protocol(
                            "successful TREE_CONNECT response has a zero TreeId",
                        ),
                    );
                }
                tree_id
            },
            HeaderId::Async { .. } => {
                return Err(
                    ClientError::Protocol(
                        "TREE_CONNECT response unexpectedly used async header form",
                    ),
                );
            },
        };
        Ok(
            TreeHandle {
                tree_id,
                path: pending.path,
                share_type: response.share_type,
                share_flags: response.share_flags,
                capabilities: response.capabilities,
                maximal_access: response.maximal_access,
            },
        )
    }
}

} // verus!
