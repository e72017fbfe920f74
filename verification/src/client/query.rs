//! QUERY_INFO and QUERY_DIRECTORY.

use crate::client::error::from_wire;
use crate::client::error::ClientError;
use crate::client::exchange::answer_error;
use crate::client::exchange::check_answer;
use crate::client::exchange::check_tree;
use crate::client::exchange::tree_error;
use crate::client::exchange::MismatchTexts;
use crate::client::file::FileHandle;
use crate::client::session::SessionConnection;
use crate::laws::messages::law_query_directory_message;
use crate::laws::messages::law_query_info_message;
use crate::laws::messages::query_directory_sent;
use crate::laws::messages::query_info_sent;
use crate::laws::answers::answers_query;
use crate::laws::answers::law_query_answer;
use crate::laws::answers::output_stands;
use crate::laws::limits::credited;
use crate::laws::limits::law_charged_message_is_paid_for;
use crate::laws::limits::law_granted_response_is_credited;
use crate::laws::limits::paid_for;
use crate::text::utf16le_of;
use crate::wire::constants::INFO_TYPE_FILE;
use crate::wire::constants::QUERY_DIRECTORY_FLAG_NONE;
use crate::wire::constants::QUERY_INFO_FLAG_NONE;
use crate::wire::error::WireError;
use crate::wire::file_io::FileId;
use crate::wire::header::header_error;
use crate::wire::header::header_of;
use crate::wire::header::Command;
use crate::wire::header::Smb2Header;
use crate::wire::header::StatusField;
use crate::wire::query::query_directory_request_bytes;
use crate::wire::query::query_info_request_bytes;
use crate::wire::query::query_response_error;
use crate::wire::query::query_response_output;
use crate::wire::query::QueryDirectoryRequest;
use crate::wire::query::QueryDirectoryResponse;
use crate::wire::query::QueryInfoRequest;
use crate::wire::query::QueryInfoResponse;
use vstd::prelude::*;

verus! {

const CREDIT_UNIT_BYTES: u32 = 65_536;

pub const STATUS_NO_MORE_FILES: u32 = 0x8000_0006;

/// What QUERY_INFO asks for.
#[derive(Debug, Clone, PartialEq, Eq)]
pub struct QueryInfoOptions {
    pub info_type: u8,
    pub file_info_class: u8,
    pub output_buffer_length: u32,
    pub input_buffer: Vec<u8>,
    pub additional_information: u32,
    pub flags: u32,
    pub credit_request: u16,
}

impl QueryInfoOptions {
    /// Asks for one class of information about a file.
    pub fn file(file_info_class: u8, output_buffer_length: u32) -> (r: Self)
        ensures
            r.info_type == INFO_TYPE_FILE,
            r.file_info_class == file_info_class,
            r.output_buffer_length == output_buffer_length,
            r.input_buffer@.len() == 0,
            r.additional_information == 0,
            r.flags == QUERY_INFO_FLAG_NONE,
            r.credit_request == 16,
    {
        QueryInfoOptions {
            info_type: INFO_TYPE_FILE,
            file_info_class,
            output_buffer_length,
            input_buffer: Vec::new(),
            additional_information: 0,
            flags: QUERY_INFO_FLAG_NONE,
            credit_request: 16,
        }
    }
}

/// What QUERY_DIRECTORY asks for.
#[derive(Debug, Clone, PartialEq, Eq)]
pub struct QueryDirectoryOptions {
    pub file_information_class: u8,
    pub flags: u8,
    pub file_index: u32,
    pub file_name: String,
    pub output_buffer_length: u32,
    pub credit_request: u16,
}

impl QueryDirectoryOptions {
    /// Asks for one class of information about the entries that match a pattern.
    pub fn new(file_information_class: u8, file_name: String, output_buffer_length: u32) -> (r: Self)
        ensures
            r == (QueryDirectoryOptions {
                file_information_class,
                flags: QUERY_DIRECTORY_FLAG_NONE,
                file_index: 0,
                file_name,
                output_buffer_length,
                credit_request: 16,
            }),
    {
        QueryDirectoryOptions {
            file_information_class,
            flags: QUERY_DIRECTORY_FLAG_NONE,
            file_index: 0,
            file_name,
            output_buffer_length,
            credit_request: 16,
        }
    }
}

/// The two queries.
#[derive(Clone, Copy, Debug, PartialEq, Eq, Structural)]
pub enum QueryKind {
    Info,
    Directory,
}

impl QueryKind {
    /// The command of a query.
    pub open spec fn command(self) -> Command {
        match self {
            QueryKind::Info => Command::QueryInfo,
            QueryKind::Directory => Command::QueryDirectory,
        }
    }

    /// What to say of a payload that one credit does not cover.
    pub open spec fn too_large_text(self) -> &'static str {
        match self {
            QueryKind::Info => "QUERY_INFO payload exceeds single-credit 64 KiB limit",
            QueryKind::Directory => "QUERY_DIRECTORY payload exceeds single-credit 64 KiB limit",
        }
    }

    /// What to say of a response that answers something else.
    pub open spec fn mismatch_texts(self) -> MismatchTexts {
        match self {
            QueryKind::Info => MismatchTexts {
                command: "QUERY_INFO response command does not match request",
                message_id: "QUERY_INFO response MessageId does not match request",
                session_id: "QUERY_INFO response SessionId does not match session",
            },
            QueryKind::Directory => MismatchTexts {
                command: "QUERY_DIRECTORY response command does not match request",
                message_id: "QUERY_DIRECTORY response MessageId does not match request",
                session_id: "QUERY_DIRECTORY response SessionId does not match session",
            },
        }
    }

    /// What to say of a response on another tree.
    pub open spec fn wrong_tree_text(self) -> &'static str {
        match self {
            QueryKind::Info => "QUERY_INFO response TreeId does not match tree",
            QueryKind::Directory => "QUERY_DIRECTORY response TreeId does not match tree",
        }
    }

    /// What to say of an asynchronous response.
    pub open spec fn asynchronous_text(self) -> &'static str {
        match self {
            QueryKind::Info => "QUERY_INFO response unexpectedly used async header form",
            QueryKind::Directory => "QUERY_DIRECTORY response unexpectedly used async header form",
        }
    }

    /// What to say of a response without the signature that it owes.
    pub open spec fn unsigned_text(self) -> &'static str {
        match self {
            QueryKind::Info => "server omitted a required QUERY_INFO signature",
            QueryKind::Directory => "server omitted a required QUERY_DIRECTORY signature",
        }
    }

    /// What to say of a response with the header of a request.
    pub open spec fn form_text(self) -> &'static str {
        match self {
            QueryKind::Info => "QUERY_INFO response used request header form",
            QueryKind::Directory => "QUERY_DIRECTORY response used request header form",
        }
    }

    /// What to say of a response that is longer than was asked for.
    pub open spec fn overlong_text(self) -> &'static str {
        match self {
            QueryKind::Info => "QUERY_INFO response exceeded requested output buffer length",
            QueryKind::Directory => "QUERY_DIRECTORY response exceeded requested output buffer length",
        }
    }
}

/// Why an output length is not accepted, if it is not.
pub open spec fn query_length_error<T>(session: SessionConnection<T>, length: u32) -> Option<
    ClientError,
> {
    if length == 0 {
        Some(
            ClientError::Protocol("SMB query output buffer length must be greater than zero"),
        )
    } else if session.connection.negotiated is None {
        Some(ClientError::Protocol("SMB query requires negotiated parameters"))
    } else if length > session.connection.negotiated->0.max_transact_size {
        Some(
            ClientError::Protocol("SMB query output buffer exceeds negotiated MaxTransactSize"),
        )
    } else {
        None
    }
}

/// The charge of a query: one credit for each begun unit of payload.
pub open spec fn query_charge_of(multi_credit: bool, payload: u32) -> Result<u16, ClientError> {
    let units = (if payload == 0 {
        0
    } else {
        payload - 1
    }) / 65_536 + 1;
    if !multi_credit {
        Ok(0)
    } else if units > u16::MAX {
        Err(ClientError::Protocol("SMB query CreditCharge exceeds u16"))
    } else {
        Ok(units as u16)
    }
}

/// Why a query is refused before anything is charged, if it is.
pub open spec fn query_refusal<T>(
    session: SessionConnection<T>,
    kind: QueryKind,
    output: u32,
    payload: u32,
) -> Option<ClientError> {
    let multi_credit = session.connection.negotiated->0.multi_credit();
    if query_length_error(session, output) is Some {
        query_length_error(session, output)
    } else if !multi_credit && payload > 65_536 {
        Some(ClientError::Protocol(kind.too_large_text()))
    } else if query_charge_of(multi_credit, payload) is Err {
        Some(query_charge_of(multi_credit, payload)->Err_0)
    } else {
        None
    }
}

/// The larger of two lengths.
pub open spec fn larger(a: u32, b: u32) -> u32 {
    if a >= b {
        a
    } else {
        b
    }
}

/// Why QUERY_INFO is refused before anything is charged, if it is.
pub open spec fn query_info_refusal<T>(
    session: SessionConnection<T>,
    options: QueryInfoOptions,
) -> Option<ClientError> {
    if session.encrypts() {
        Some(ClientError::Protocol("encrypted SMB sessions are not implemented yet"))
    } else if options.input_buffer@.len() > u32::MAX {
        Some(ClientError::Protocol("QUERY_INFO input buffer exceeds u32 length"))
    } else {
        query_refusal(
            session,
            QueryKind::Info,
            options.output_buffer_length,
            larger(options.output_buffer_length, options.input_buffer@.len() as u32),
        )
    }
}

/// The charge of a QUERY_INFO request that is not refused.
pub open spec fn query_info_charge<T>(
    session: SessionConnection<T>,
    options: QueryInfoOptions,
) -> u16 {
    query_charge_of(
        session.connection.negotiated->0.multi_credit(),
        larger(options.output_buffer_length, options.input_buffer@.len() as u32),
    )->Ok_0
}

/// The QUERY_INFO request before it is signed.
pub open spec fn query_info_plain<T>(
    session: SessionConnection<T>,
    file_id: FileId,
    tree_id: u32,
    options: QueryInfoOptions,
) -> Seq<u8> {
    let charge = query_info_charge(session, options);
    query_info_request_bytes(
        QueryInfoRequest {
            info_type: options.info_type,
            file_info_class: options.file_info_class,
            output_buffer_length: options.output_buffer_length,
            input_buffer: options.input_buffer,
            additional_information: options.additional_information,
            flags: options.flags,
            file_id,
        },
        session.connection.message_ids.next,
        session.session_id,
        tree_id,
        charge,
        session.connection.credit_request(charge, options.credit_request),
    )
}

/// Why no QUERY_INFO request can be sent, if none can.
pub open spec fn query_info_begin_error<T>(
    session: SessionConnection<T>,
    file_id: FileId,
    tree_id: u32,
    options: QueryInfoOptions,
) -> Option<ClientError> {
    let charge = query_info_charge(session, options);
    if query_info_refusal(session, options) is Some {
        query_info_refusal(session, options)
    } else if session.connection.charge_error(charge) is Some {
        session.connection.charge_error(charge)
    } else {
        session.request_sign_error(
            session.signing_required,
            query_info_plain(session, file_id, tree_id, options),
            "SMB query requires signing but the session has no signing key",
        )
    }
}

/// Why QUERY_DIRECTORY is refused before anything is charged, if it is.
pub open spec fn query_directory_refusal<T>(
    session: SessionConnection<T>,
    options: QueryDirectoryOptions,
) -> Option<ClientError> {
    if session.encrypts() {
        Some(ClientError::Protocol("encrypted SMB sessions are not implemented yet"))
    } else {
        query_refusal(
            session,
            QueryKind::Directory,
            options.output_buffer_length,
            options.output_buffer_length,
        )
    }
}

/// The charge of a QUERY_DIRECTORY request that is not refused.
pub open spec fn query_directory_charge<T>(
    session: SessionConnection<T>,
    options: QueryDirectoryOptions,
) -> u16 {
    query_charge_of(
        session.connection.negotiated->0.multi_credit(),
        options.output_buffer_length,
    )->Ok_0
}

/// The QUERY_DIRECTORY request before it is signed.
pub open spec fn query_directory_plain<T>(
    session: SessionConnection<T>,
    file_id: FileId,
    tree_id: u32,
    options: QueryDirectoryOptions,
) -> Seq<u8> {
    let charge = query_directory_charge(session, options);
    query_directory_request_bytes(
        QueryDirectoryRequest {
            file_information_class: options.file_information_class,
            flags: options.flags,
            file_index: options.file_index,
            file_id,
            file_name: options.file_name,
            output_buffer_length: options.output_buffer_length,
        },
        session.connection.message_ids.next,
        session.session_id,
        tree_id,
        charge,
        session.connection.credit_request(charge, options.credit_request),
    )
}

/// Why no QUERY_DIRECTORY request can be sent, if none can.
pub open spec fn query_directory_begin_error<T>(
    session: SessionConnection<T>,
    file_id: FileId,
    tree_id: u32,
    options: QueryDirectoryOptions,
) -> Option<ClientError> {
    let charge = query_directory_charge(session, options);
    if query_directory_refusal(session, options) is Some {
        query_directory_refusal(session, options)
    } else if session.connection.charge_error(charge) is Some {
        session.connection.charge_error(charge)
    } else if utf16le_of(options.file_name@).len() > u16::MAX {
        Some(ClientError::Wire(WireError::TooLong("the directory search pattern")))
    } else {
        session.request_sign_error(
            session.signing_required,
            query_directory_plain(session, file_id, tree_id, options),
            "SMB query requires signing but the session has no signing key",
        )
    }
}

/// A query that was sent.
#[derive(Debug, Clone, Copy, PartialEq, Eq)]
pub struct PendingQuery {
    pub kind: QueryKind,
    pub message_id: u64,
    pub tree_id: u32,
    pub output_buffer_length: u32,
}

/// Why a response does not answer a query, if it does not.
pub open spec fn query_answer_error<T>(
    session: SessionConnection<T>,
    pending: PendingQuery,
    m: Seq<u8>,
) -> Option<ClientError> {
    let mismatch = answer_error(
        header_of(m),
        pending.kind.command(),
        pending.message_id,
        session.session_id,
        pending.kind.mismatch_texts(),
    );
    if header_error(m) is Some {
        Some(ClientError::Wire(header_error(m)->0))
    } else if mismatch is Some {
        mismatch
    } else {
        tree_error(
            header_of(m).id,
            pending.tree_id,
            pending.kind.wrong_tree_text(),
            pending.kind.asynchronous_text(),
        )
    }
}

/// What a response to a query gives: its output, nothing where a directory has no more entries, or
/// an error.
pub open spec fn query_output_of<T>(
    session: SessionConnection<T>,
    pending: PendingQuery,
    m: Seq<u8>,
) -> Result<Seq<u8>, ClientError> {
    let h = header_of(m);
    let signature = session.response_signature_error(
        session.signing_required,
        m,
        "server signed SMB query without an available signing key",
        pending.kind.unsigned_text(),
    );
    if query_answer_error(session, pending, m) is Some {
        Err(query_answer_error(session, pending, m)->0)
    } else if session.connection.grant_error(h.credits) is Some {
        Err(session.connection.grant_error(h.credits)->0)
    } else if signature is Some {
        Err(signature->0)
    } else {
        match h.status {
            StatusField::ChannelSequence { .. } => Err(
                ClientError::Protocol(pending.kind.form_text()),
            ),
            StatusField::Status(status) => if status == STATUS_NO_MORE_FILES && pending.kind
                == QueryKind::Directory {
                Ok(Seq::empty())
            } else if status != 0 {
                Err(ClientError::ServerStatus(status))
            } else if query_response_error(m, pending.kind.command()) is Some {
                Err(
                    ClientError::Wire(
                        query_response_error(m, pending.kind.command())->0,
                    ),
                )
            } else if query_response_output(m).len() > pending.output_buffer_length {
                Err(ClientError::Protocol(pending.kind.overlong_text()))
            } else {
                Ok(query_response_output(m))
            },
        }
    }
}

impl<T> SessionConnection<T> {
    /// Checks an output length.
    fn validate_query_output_length(&self, output_buffer_length: u32) -> (r: Result<
        (),
        ClientError,
    >)
        ensures
            match query_length_error(*self, output_buffer_length) {
                Some(e) => r == Err::<(), ClientError>(e),
                None => r is Ok && self.connection.negotiated is Some,
            },
    {
        if output_buffer_length == 0 {
            return Err(
                ClientError::Protocol("SMB query output buffer length must be greater than zero"),
            );
        }
        match &self.connection.negotiated {
            None => Err(ClientError::Protocol("SMB query requires negotiated parameters")),
            Some(negotiated) => {
                if output_buffer_length > negotiated.max_transact_size {
                    return Err(
                        ClientError::Protocol(
                            "SMB query output buffer exceeds negotiated MaxTransactSize",
                        ),
                    );
                }
                Ok(())
            },
        }
    }

    /// Checks the lengths of a query and works out its charge.
    fn query_credit_charge(&self, kind: QueryKind, output: u32, payload: u32) -> (r: Result<
        u16,
        ClientError,
    >)
        ensures
            match query_refusal(*self, kind, output, payload) {
                Some(e) => r == Err::<u16, ClientError>(e),
                None => r == query_charge_of(
                    self.connection.negotiated->0.multi_credit(),
                    payload,
                ) && r is Ok,
            },
    {
        self.validate_query_output_length(output)?;
        let multi_credit: bool = match &self.connection.negotiated {
            Some(negotiated) => negotiated.supports_multi_credit(),
            None => {
                return Err(ClientError::Protocol("SMB query requires negotiated parameters"));
            },
        };
        if !multi_credit {
            if payload > CREDIT_UNIT_BYTES {
                return Err(
                    ClientError::Protocol(
                        match kind {
                            QueryKind::Info => "QUERY_INFO payload exceeds single-credit 64 KiB limit",
                            QueryKind::Directory => "QUERY_DIRECTORY payload exceeds single-credit 64 KiB limit",
                        },
                    ),
                );
            }
            return Ok(0);
        }
        let before: u32 = if payload == 0 {
            0
        } else {
            payload - 1
        };
        let units: u32 = before / CREDIT_UNIT_BYTES + 1;
        if units > u16::MAX as u32 {
            return Err(ClientError::Protocol("SMB query CreditCharge exceeds u16"));
        }
        Ok(units as u16)
    }

    /// Builds a QUERY_INFO request.
    pub fn begin_query_info(&mut self, file: &FileHandle, options: QueryInfoOptions) -> (r: Result<
        (Vec<u8>, PendingQuery),
        ClientError,
    >)
        ensures
            match query_info_begin_error(*old(self), file.file_id, file.tree_id, options) {
                Some(e) => r == Err::<(Vec<u8>, PendingQuery), ClientError>(e),
                None => r is Ok && r->Ok_0.0@ == old(self).request_signed(
                    old(self).signing_required,
                    query_info_plain(*old(self), file.file_id, file.tree_id, options),
                ) && r->Ok_0.1 == (PendingQuery {
                    kind: QueryKind::Info,
                    message_id: old(self).connection.message_ids.next,
                    tree_id: file.tree_id,
                    output_buffer_length: options.output_buffer_length,
                }),
            },
            r is Ok ==> paid_for(*old(self), *final(self), r->Ok_0.0@),
            r is Ok ==> query_info_sent(
                r->Ok_0.0@,
                *old(self),
                file.file_id,
                file.tree_id,
                options,
            ),
            *final(self) == (SessionConnection {
                connection: if query_info_refusal(*old(self), options) is Some {
                    old(self).connection
                } else {
                    old(self).connection.charged(query_info_charge(*old(self), options))
                },
                ..*old(self)
            }),
    {
        self.ensure_not_encrypted()?;
        if options.input_buffer.len() > u32::MAX as usize {
            return Err(ClientError::Protocol("QUERY_INFO input buffer exceeds u32 length"));
        }
        let input_length: u32 = options.input_buffer.len() as u32;
        let output_buffer_length: u32 = options.output_buffer_length;
        let payload: u32 = if output_buffer_length >= input_length {
            output_buffer_length
        } else {
            input_length
        };
        let credit_charge: u16 = self.query_credit_charge(
            QueryKind::Info,
            output_buffer_length,
            payload,
        )?;
        let request = QueryInfoRequest {
            info_type: options.info_type,
            file_info_class: options.file_info_class,
            output_buffer_length,
            input_buffer: options.input_buffer,
            additional_information: options.additional_information,
            flags: options.flags,
            file_id: file.file_id,
        };
        let (message_id, credit_request) = self.connection.charge_request(
            credit_charge,
            options.credit_request,
        )?;
        let mut message = from_wire(
            request.encode_message(
                message_id,
                self.session_id,
                file.tree_id,
                credit_charge,
                credit_request,
            ),
        )?;
        self.sign_request(
            self.signing_required,
            &mut message,
            "SMB query requires signing but the session has no signing key",
        )?;
        proof {
            law_query_info_message(*old(self), file.file_id, file.tree_id, options);
            law_charged_message_is_paid_for(*old(self), credit_charge, message@);
        }
        Ok(
            (
                message,
                PendingQuery {
                    kind: QueryKind::Info,
                    message_id,
                    tree_id: file.tree_id,
                    output_buffer_length,
                },
            ),
        )
    }

    /// Builds a QUERY_DIRECTORY request.
    pub fn begin_query_directory(
        &mut self,
        file: &FileHandle,
        options: QueryDirectoryOptions,
    ) -> (r: Result<(Vec<u8>, PendingQuery), ClientError>)
        ensures
            match query_directory_begin_error(*old(self), file.file_id, file.tree_id, options) {
                Some(e) => r == Err::<(Vec<u8>, PendingQuery), ClientError>(e),
                None => r is Ok && r->Ok_0.0@ == old(self).request_signed(
                    old(self).signing_required,
                    query_directory_plain(*old(self), file.file_id, file.tree_id, options),
                ) && r->Ok_0.1 == (PendingQuery {
                    kind: QueryKind::Directory,
                    message_id: old(self).connection.message_ids.next,
                    tree_id: file.tree_id,
                    output_buffer_length: options.output_buffer_length,
                }),
            },
            r is Ok ==> paid_for(*old(self), *final(self), r->Ok_0.0@),
            r is Ok ==> query_directory_sent(
                r->Ok_0.0@,
                *old(self),
                file.file_id,
                file.tree_id,
                options.file_information_class,
                options.flags,
                options.file_index,
                options.output_buffer_length,
                options.file_name@,
                options.credit_request,
            ),
            *final(self) == (SessionConnection {
                connection: if query_directory_refusal(*old(self), options) is Some {
                    old(self).connection
                } else {
                    old(self).connection.charged(query_directory_charge(*old(self), options))
                },
                ..*old(self)
            }),
    {
        self.ensure_not_encrypted()?;
        let output_buffer_length: u32 = options.output_buffer_length;
        let credit_charge: u16 = self.query_credit_charge(
            QueryKind::Directory,
            output_buffer_length,
            output_buffer_length,
        )?;
        let request = QueryDirectoryRequest {
            file_information_class: options.file_information_class,
            flags: options.flags,
            file_index: options.file_index,
            file_id: file.file_id,
            file_name: options.file_name,
            output_buffer_length,
        };
        let (message_id, credit_request) = self.connection.charge_request(
            credit_charge,
            options.credit_request,
        )?;
        let mut message = from_wire(
            request.encode_message(
                message_id,
                self.session_id,
                file.tree_id,
                credit_charge,
                credit_request,
            ),
        )?;
        self.sign_request(
            self.signing_required,
            &mut message,
            "SMB query requires signing but the session has no signing key",
        )?;
        proof {
            law_query_directory_message(*old(self), file.file_id, file.tree_id, options);
            law_charged_message_is_paid_for(*old(self), credit_charge, message@);
        }
        Ok(
            (
                message,
                PendingQuery {
                    kind: QueryKind::Directory,
                    message_id,
                    tree_id: file.tree_id,
                    output_buffer_length,
                },
            ),
        )
    }

    /// Checks that a response answers a query.
    fn validate_query_response_header(&self, header: &Smb2Header, pending: PendingQuery) -> (r: Result<
        (),
        ClientError,
    >)
        ensures
            match answer_error(
                *header,
                pending.kind.command(),
                pending.message_id,
                self.session_id,
                pending.kind.mismatch_texts(),
            ) {
                Some(e) => r == Err::<(), ClientError>(e),
                None => match tree_error(
                    header.id,
                    pending.tree_id,
                    pending.kind.wrong_tree_text(),
                    pending.kind.asynchronous_text(),
                ) {
                    Some(e) => r == Err::<(), ClientError>(e),
                    None => r is Ok,
                },
            },
    {
        match pending.kind {
            QueryKind::Info => {
                check_answer(
                    header,
                    Command::QueryInfo,
                    pending.message_id,
                    self.session_id,
                    MismatchTexts {
                        command: "QUERY_INFO response command does not match request",
                        message_id: "QUERY_INFO response MessageId does not match request",
                        session_id: "QUERY_INFO response SessionId does not match session",
                    },
                )?;
                check_tree(
                    header.id,
                    pending.tree_id,
                    "QUERY_INFO response TreeId does not match tree",
                    "QUERY_INFO response unexpectedly used async header form",
                )
            },
            QueryKind::Directory => {
                check_answer(
                    header,
                    Command::QueryDirectory,
                    pending.message_id,
                    self.session_id,
                    MismatchTexts {
                        command: "QUERY_DIRECTORY response command does not match request",
                        message_id: "QUERY_DIRECTORY response MessageId does not match request",
                        session_id: "QUERY_DIRECTORY response SessionId does not match session",
                    },
                )?;
                check_tree(
                    header.id,
                    pending.tree_id,
                    "QUERY_DIRECTORY response TreeId does not match tree",
                    "QUERY_DIRECTORY response unexpectedly used async header form",
                )
            },
        }
    }

    /// Takes the response to a query.
    pub fn finish_query(&mut self, pending: PendingQuery, response_message: &[u8]) -> (r: Result<
        Vec<u8>,
        ClientError,
    >)
        ensures
            match query_output_of(*old(self), pending, response_message@) {
                Err(e) => r == Err::<Vec<u8>, ClientError>(e),
                Ok(output) => r is Ok && r->Ok_0@ == output,
            },
            r is Ok <==> answers_query(response_message@, *old(self), pending),
            r is Ok ==> output_stands(r->Ok_0@, response_message@, pending),
            r is Ok ==> credited(*old(self), *final(self), response_message@),
            *final(self) == (SessionConnection {
                connection: if query_answer_error(
                    *old(self),
                    pending,
                    response_message@,
                ) is Some {
                    old(self).connection
                } else {
                    old(self).connection.granted(header_of(response_message@).credits)
                },
                ..*old(self)
            }),
    {
        proof {
            law_query_answer(*self, pending, response_message@);
            if answers_query(response_message@, *self, pending) {
                law_granted_response_is_credited(*self, response_message@);
            }
        }
        let header = from_wire(Smb2Header::decode(response_message))?;
        self.validate_query_response_header(&header, pending)?;
        self.connection.grant_credits(header.credits)?;
        self.verify_response(
            self.signing_required,
            response_message,
            &header,
            "server signed SMB query without an available signing key",
            match pending.kind {
                QueryKind::Info => "server omitted a required QUERY_INFO signature",
                QueryKind::Directory => "server omitted a required QUERY_DIRECTORY signature",
            },
        )?;
        match header.status {
            StatusField::ChannelSequence { .. } => {
                return Err(
                    ClientError::Protocol(
                        match pending.kind {
                            QueryKind::Info => "QUERY_INFO response used request header form",
                            QueryKind::Directory => "QUERY_DIRECTORY response used request header form",
                        },
                    ),
                );
            },
            StatusField::Status(status) => {
                if status == STATUS_NO_MORE_FILES && pending.kind == QueryKind::Directory {
                    let none: Vec<u8> = Vec::new();
                    assert(none@ =~= Seq::empty());
                    return Ok(none);
                }
                if status != 0 {
                    return Err(ClientError::ServerStatus(status));
                }
            },
        }
        let output_buffer = match pending.kind {
            QueryKind::Info => {
                from_wire(QueryInfoResponse::decode_message(response_message))?.output_buffer
            },
            QueryKind::Directory => {
                from_wire(QueryDirectoryResponse::decode_message(response_message))?.output_buffer
            },
        };
        if output_buffer.len() as u64 > pending.output_buffer_length as u64 {
            return Err(
                ClientError::Protocol(
                    match pending.kind {
                        QueryKind::Info => "QUERY_INFO response exceeded requested output buffer length",
                        QueryKind::Directory => "QUERY_DIRECTORY response exceeded requested output buffer length",
                    },
                ),
            );
        }
        Ok(output_buffer)
    }
}

} // verus!
