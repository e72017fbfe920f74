//! CREATE: opening files.

use crate::bytes::u32_at;
use crate::bytes::u64_at;
use crate::client::connection::check_status;
use crate::client::connection::status_error;
use crate::client::error::from_wire;
use crate::client::error::ClientError;
use crate::client::exchange::answer_error;
use crate::client::exchange::check_answer;
use crate::client::exchange::check_tree;
use crate::client::exchange::tree_error;
use crate::client::exchange::MismatchTexts;
use crate::client::session::SessionConnection;
use crate::client::tree::TreeHandle;
use crate::laws::messages::law_open_message;
use crate::laws::messages::open_sent;
use crate::laws::answers::file_stands;
use crate::laws::answers::law_open_answer;
use crate::laws::answers::opens_file;
use crate::laws::limits::credited;
use crate::laws::limits::law_charged_message_is_paid_for;
use crate::laws::limits::law_granted_response_is_credited;
use crate::laws::limits::paid_for;
use crate::text::copy_text;
use crate::text::text_contains;
use crate::wire::constants::ACCESS_GENERIC_READ;
use crate::wire::constants::CREATE_DISPOSITION_OPEN;
use crate::wire::constants::CREATE_OPTION_NON_DIRECTORY_FILE;
use crate::wire::constants::CREATE_OPTION_RANDOM_ACCESS;
use crate::wire::constants::IMPERSONATION_LEVEL_IMPERSONATION;
use crate::wire::constants::OPLOCK_LEVEL_NONE;
use crate::wire::constants::SHARE_ACCESS_DELETE;
use crate::wire::constants::SHARE_ACCESS_READ;
use crate::wire::constants::SHARE_ACCESS_WRITE;
use crate::wire::create::create_context_views;
use crate::wire::create::create_request_bytes;
use crate::wire::create::create_request_error;
use crate::wire::create::create_response_contexts;
use crate::wire::create::create_response_error;
use crate::wire::create::CreateContext;
use crate::wire::create::CreateContextView;
use crate::wire::create::CreateRequest;
use crate::wire::create::CreateRequestView;
use crate::wire::create::CreateResponse;
use crate::wire::file_io::file_id_at;
use crate::wire::file_io::FileId;
use crate::wire::header::header_error;
use crate::wire::header::header_of;
use crate::wire::header::Command;
use crate::wire::header::Smb2Header;
use vstd::prelude::*;

verus! {

/// How a file is opened.
#[derive(Debug, Clone, Copy, PartialEq, Eq)]
pub struct FileOpenOptions {
    pub requested_oplock_level: u8,
    pub impersonation_level: u32,
    pub desired_access: u32,
    pub file_attributes: u32,
    pub share_access: u32,
    pub create_disposition: u32,
    pub create_options: u32,
    pub credit_request: u16,
}

/// The options that open an existing file for reading at random positions.
pub open spec fn read_existing_random_options() -> FileOpenOptions {
    FileOpenOptions {
        requested_oplock_level: OPLOCK_LEVEL_NONE,
        impersonation_level: IMPERSONATION_LEVEL_IMPERSONATION,
        desired_access: ACCESS_GENERIC_READ,
        file_attributes: 0,
        share_access: SHARE_ACCESS_READ | SHARE_ACCESS_WRITE | SHARE_ACCESS_DELETE,
        create_disposition: CREATE_DISPOSITION_OPEN,
        create_options: CREATE_OPTION_NON_DIRECTORY_FILE | CREATE_OPTION_RANDOM_ACCESS,
        credit_request: 16,
    }
}

impl FileOpenOptions {
    /// Opens an existing file for reading at random positions, and lets others do as they like.
    pub fn read_existing_random() -> (r: Self)
        ensures
            r == read_existing_random_options(),
    {
        FileOpenOptions {
            requested_oplock_level: OPLOCK_LEVEL_NONE,
            impersonation_level: IMPERSONATION_LEVEL_IMPERSONATION,
            desired_access: ACCESS_GENERIC_READ,
            file_attributes: 0,
            share_access: SHARE_ACCESS_READ | SHARE_ACCESS_WRITE | SHARE_ACCESS_DELETE,
            create_disposition: CREATE_DISPOSITION_OPEN,
            create_options: CREATE_OPTION_NON_DIRECTORY_FILE | CREATE_OPTION_RANDOM_ACCESS,
            credit_request: 16,
        }
    }
}

impl Default for FileOpenOptions {
    fn default() -> (r: Self)
        ensures
            r == read_existing_random_options(),
    {
        FileOpenOptions::read_existing_random()
    }
}

/// An open file.
#[derive(Debug, PartialEq, Eq)]
pub struct FileHandle {
    pub file_id: FileId,
    pub tree_id: u32,
    pub path: String,
    pub oplock_level: u8,
    pub allocation_size: u64,
    pub end_of_file: u64,
    pub file_attributes: u32,
    pub creation_time: u64,
    pub last_access_time: u64,
    pub last_write_time: u64,
    pub change_time: u64,
    pub create_action: u32,
}

/// What an open file is.
pub struct FileView {
    pub file_id: FileId,
    pub tree_id: u32,
    pub path: Seq<char>,
    pub oplock_level: u8,
    pub allocation_size: u64,
    pub end_of_file: u64,
    pub file_attributes: u32,
    pub creation_time: u64,
    pub last_access_time: u64,
    pub last_write_time: u64,
    pub change_time: u64,
    pub create_action: u32,
}

impl View for FileHandle {
    type V = FileView;

    open spec fn view(&self) -> FileView {
        FileView {
            file_id: self.file_id,
            tree_id: self.tree_id,
            path: self.path@,
            oplock_level: self.oplock_level,
            allocation_size: self.allocation_size,
            end_of_file: self.end_of_file,
            file_attributes: self.file_attributes,
            creation_time: self.creation_time,
            last_access_time: self.last_access_time,
            last_write_time: self.last_write_time,
            change_time: self.change_time,
            create_action: self.create_action,
        }
    }
}

impl Clone for FileHandle {
    fn clone(&self) -> (r: Self)
        ensures
            r@ == self@,
    {
        FileHandle {
            file_id: self.file_id,
            tree_id: self.tree_id,
            path: copy_text(self.path.as_str()),
            oplock_level: self.oplock_level,
            allocation_size: self.allocation_size,
            end_of_file: self.end_of_file,
            file_attributes: self.file_attributes,
            creation_time: self.creation_time,
            last_access_time: self.last_access_time,
            last_write_time: self.last_write_time,
            change_time: self.change_time,
            create_action: self.create_action,
        }
    }
}

impl FileHandle {
    pub fn file_id(&self) -> (r: FileId)
        ensures
            r == self.file_id,
    {
        self.file_id
    }

    pub fn tree_id(&self) -> (r: u32)
        ensures
            r == self.tree_id,
    {
        self.tree_id
    }

    pub fn path(&self) -> (r: &str)
        ensures
            r@ == self.path@,
    {
        self.path.as_str()
    }

    pub fn len(&self) -> (r: u64)
        ensures
            r == self.end_of_file,
    {
        self.end_of_file
    }

    pub fn is_empty(&self) -> (r: bool)
        ensures
            r == (self.end_of_file == 0),
    {
        self.end_of_file == 0
    }

    pub fn oplock_level(&self) -> (r: u8)
        ensures
            r == self.oplock_level,
    {
        self.oplock_level
    }

    pub fn allocation_size(&self) -> (r: u64)
        ensures
            r == self.allocation_size,
    {
        self.allocation_size
    }

    pub fn file_attributes(&self) -> (r: u32)
        ensures
            r == self.file_attributes,
    {
        self.file_attributes
    }

    pub fn creation_time(&self) -> (r: u64)
        ensures
            r == self.creation_time,
    {
        self.creation_time
    }

    pub fn last_access_time(&self) -> (r: u64)
        ensures
            r == self.last_access_time,
    {
        self.last_access_time
    }

    pub fn last_write_time(&self) -> (r: u64)
        ensures
            r == self.last_write_time,
    {
        self.last_write_time
    }

    pub fn change_time(&self) -> (r: u64)
        ensures
            r == self.change_time,
    {
        self.change_time
    }

    pub fn create_action(&self) -> (r: u32)
        ensures
            r == self.create_action,
    {
        self.create_action
    }
}

/// An open file and the contexts that came with it.
#[derive(Debug, PartialEq, Eq)]
pub struct FileOpenResult {
    pub file: FileHandle,
    pub response_contexts: Vec<CreateContext>,
}

/// A path with backslashes between its parts.
pub open spec fn backslashed(path: Seq<char>) -> Seq<char> {
    path.map_values(
        |c: char|
            if c == '/' {
                '\\'
            } else {
                c
            },
    )
}

/// The path as the server wants it, relative to the connected tree.
pub open spec fn relative_path_of(path: Seq<char>) -> Result<Seq<char>, ClientError> {
    if path.len() == 0 {
        Err(ClientError::Protocol("file path must not be empty"))
    } else if path[0] == '/' || path[0] == '\\' {
        Err(ClientError::Protocol("file path must be relative to the connected tree"))
    } else if path.contains('\0') {
        Err(ClientError::Protocol("file path must not contain NUL"))
    } else {
        Ok(backslashed(path))
    }
}

/// Puts backslashes between the parts of a path and checks that it is relative.
pub fn normalize_relative_path(path: &str) -> (r: Result<String, ClientError>)
    ensures
        match relative_path_of(path@) {
            Err(e) => r == Err::<String, ClientError>(e),
            Ok(relative) => r is Ok && r->Ok_0@ == relative,
        },
{
    if path.is_empty() {
        return Err(ClientError::Protocol("file path must not be empty"));
    }
    let mut out = String::new();
    let mut first: char = 'x';
    assert(out@ =~= backslashed(path@.take(0)));
    for c in iter: path.chars()
        invariant
            iter.seq() == path@,
            out@ == backslashed(path@.take(iter.index())),
            iter.index() > 0 ==> first == path@[0],
    {
        if out.as_str().is_empty() {
            first = c;
        }
        if c == '/' {
            out.push('\\');
        } else {
            out.push(c);
        }
        proof {
            assert(path@.take(iter.index() + 1) =~= path@.take(iter.index()).push(c));
            assert(out@ =~= backslashed(path@.take(iter.index() + 1)));
        }
    }
    assert(path@.take(path@.len() as int) =~= path@);
    if first == '/' || first == '\\' {
        return Err(ClientError::Protocol("file path must be relative to the connected tree"));
    }
    if text_contains(path, '\0') {
        return Err(ClientError::Protocol("file path must not contain NUL"));
    }
    Ok(out)
}

/// A normalized path is left as it is when it is normalized again.
pub proof fn law_normalize_idempotent(path: Seq<char>)
    requires
        relative_path_of(path) is Ok,
    ensures
        relative_path_of(relative_path_of(path)->Ok_0) == relative_path_of(path),
{
    let once = backslashed(path);
    assert(once.len() == path.len());
    assert forall|i: int| 0 <= i < once.len() implies once[i] != '/' && (once[i] == '\0'
        ==> path[i] == '\0') by {}
    assert(!once.contains('\0')) by {
        if once.contains('\0') {
            let i = choose|i: int| 0 <= i < once.len() && once[i] == '\0';
            assert(path[i] == '\0');
        }
    }
    assert(backslashed(once) =~= once);
}

/// A CREATE request that was sent.
#[derive(Debug)]
pub struct PendingOpen {
    pub message_id: u64,
    pub tree_id: u32,
    pub path: String,
}

/// What a CREATE request says.
pub open spec fn create_request_of(
    path: Seq<char>,
    options: FileOpenOptions,
    contexts: Seq<CreateContextView>,
) -> CreateRequestView {
    CreateRequestView {
        requested_oplock_level: options.requested_oplock_level,
        impersonation_level: options.impersonation_level,
        desired_access: options.desired_access,
        file_attributes: options.file_attributes,
        share_access: options.share_access,
        create_disposition: options.create_disposition,
        create_options: options.create_options,
        name: path,
        contexts,
    }
}

/// The CREATE request before it is signed.
pub open spec fn open_plain<T>(
    session: SessionConnection<T>,
    tree_id: u32,
    request: CreateRequestView,
    minimum: u16,
) -> Seq<u8> {
    let charge = session.connection.single_charge();
    create_request_bytes(
        request,
        session.connection.message_ids.next,
        session.session_id,
        tree_id,
        charge,
        session.connection.credit_request(charge, minimum),
    )
}

/// Why opening a file is refused before anything is charged, if it is.
pub open spec fn open_refusal<T>(session: SessionConnection<T>, path: Seq<char>) -> Option<
    ClientError,
> {
    if relative_path_of(path) is Err {
        Some(relative_path_of(path)->Err_0)
    } else if session.encrypts() {
        Some(ClientError::Protocol("encrypted SMB sessions are not implemented yet"))
    } else if session.connection.negotiated is None {
        Some(ClientError::Protocol("credit calculation requires negotiated parameters"))
    } else {
        None
    }
}

/// Why no CREATE request can be sent, if none can.
pub open spec fn open_begin_error<T>(
    session: SessionConnection<T>,
    tree_id: u32,
    path: Seq<char>,
    options: FileOpenOptions,
    contexts: Seq<CreateContextView>,
) -> Option<ClientError> {
    let charge = session.connection.single_charge();
    let request = create_request_of(relative_path_of(path)->Ok_0, options, contexts);
    if open_refusal(session, path) is Some {
        open_refusal(session, path)
    } else if session.connection.charge_error(charge) is Some {
        session.connection.charge_error(charge)
    } else if create_request_error(request) is Some {
        Some(ClientError::Wire(create_request_error(request)->0))
    } else {
        session.request_sign_error(
            session.signing_required,
            open_plain(session, tree_id, request, options.credit_request),
            "CREATE requires signing but the session has no signing key",
        )
    }
}

/// What to say of a CREATE response that answers something else.
pub open spec fn create_texts() -> MismatchTexts {
    MismatchTexts {
        command: "CREATE response command does not match request",
        message_id: "CREATE response MessageId does not match request",
        session_id: "CREATE response SessionId does not match session",
    }
}

/// Why a CREATE response does not answer the request, if it does not.
pub open spec fn open_answer_error<T>(
    session: SessionConnection<T>,
    message_id: u64,
    tree_id: u32,
    m: Seq<u8>,
) -> Option<ClientError> {
    let mismatch = answer_error(
        header_of(m),
        Command::Create,
        message_id,
        session.session_id,
        create_texts(),
    );
    if header_error(m) is Some {
        Some(ClientError::Wire(header_error(m)->0))
    } else if mismatch is Some {
        mismatch
    } else {
        tree_error(
            header_of(m).id,
            tree_id,
            "CREATE response TreeId does not match tree",
            "CREATE response unexpectedly used async header form",
        )
    }
}

/// Why a CREATE response is not accepted, if it is not.
pub open spec fn open_finish_error<T>(
    session: SessionConnection<T>,
    message_id: u64,
    tree_id: u32,
    m: Seq<u8>,
) -> Option<ClientError> {
    let h = header_of(m);
    let form = "CREATE response used request header form";
    let signature = session.response_signature_error(
        session.signing_required,
        m,
        "server signed CREATE without an available signing key",
        "server omitted a required CREATE signature",
    );
    if open_answer_error(session, message_id, tree_id, m) is Some {
        open_answer_error(session, message_id, tree_id, m)
    } else if session.connection.grant_error(h.credits) is Some {
        session.connection.grant_error(h.credits)
    } else if status_error(h.status, form) is Some {
        status_error(h.status, form)
    } else if signature is Some {
        signature
    } else if create_response_error(m) is Some {
        Some(ClientError::Wire(create_response_error(m)->0))
    } else if file_id_at(m, 128).persistent == 0 && file_id_at(m, 128).volatile == 0 {
        Some(ClientError::Protocol("successful CREATE response has a zero FileId"))
    } else {
        None
    }
}

/// The file that an accepted CREATE response opens.
pub open spec fn opened_file_of(m: Seq<u8>, tree_id: u32, path: Seq<char>) -> FileView {
    FileView {
        file_id: file_id_at(m, 128),
        tree_id,
        path,
        oplock_level: m[66],
        allocation_size: u64_at(m, 104),
        end_of_file: u64_at(m, 112),
        file_attributes: u32_at(m, 120),
        creation_time: u64_at(m, 72),
        last_access_time: u64_at(m, 80),
        last_write_time: u64_at(m, 88),
        change_time: u64_at(m, 96),
        create_action: u32_at(m, 68),
    }
}

impl<T> SessionConnection<T> {
    /// Builds the request that opens a file.
    pub fn begin_open_file(
        &mut self,
        tree: &TreeHandle,
        path: &str,
        options: FileOpenOptions,
    ) -> (r: Result<(Vec<u8>, PendingOpen), ClientError>)
        ensures
            open_begun(r, *old(self), tree.tree_id, path@, options, Seq::empty()),
            r is Ok ==> open_sent(
                r->Ok_0.0@,
                *old(self),
                tree.tree_id,
                path@,
                options,
                Seq::empty(),
            ),
            r is Ok ==> paid_for(*old(self), *final(self), r->Ok_0.0@),
            *final(self) == open_charged(*old(self), path@),
    {
        let none: [CreateContext; 0] = [];
        let r = self.begin_open_file_with_contexts(tree, path, options, &none);
        assert(create_context_views(none@) =~= Seq::empty());
        r
    }

    /// Builds the request that opens a file, with contexts.
    pub fn begin_open_file_with_contexts(
        &mut self,
        tree: &TreeHandle,
        path: &str,
        options: FileOpenOptions,
        contexts: &[CreateContext],
    ) -> (r: Result<(Vec<u8>, PendingOpen), ClientError>)
        ensures
            open_begun(
                r,
                *old(self),
                tree.tree_id,
                path@,
                options,
                create_context_views(contexts@),
            ),
            r is Ok ==> open_sent(
                r->Ok_0.0@,
                *old(self),
                tree.tree_id,
                path@,
                options,
                create_context_views(contexts@),
            ),
            r is Ok ==> paid_for(*old(self), *final(self), r->Ok_0.0@),
            *final(self) == open_charged(*old(self), path@),
    {
        let ghost given = path@;
        let path = normalize_relative_path(path)?;
        self.ensure_not_encrypted()?;
        let credit_charge: u16 = self.connection.single_request_credit_charge()?;
        let (message_id, credit_request) = self.connection.charge_request(
            credit_charge,
            options.credit_request,
        )?;
        let request = CreateRequest {
            requested_oplock_level: options.requested_oplock_level,
            impersonation_level: options.impersonation_level,
            desired_access: options.desired_access,
            file_attributes: options.file_attributes,
            share_access: options.share_access,
            create_disposition: options.create_disposition,
            create_options: options.create_options,
            name: path.as_str(),
            contexts,
        };
        let mut message = from_wire(
            request.encode_message(
                message_id,
                self.session_id,
                tree.tree_id,
                credit_charge,
                credit_request,
            ),
        )?;
        self.sign_request(
            self.signing_required,
            &mut message,
            "CREATE requires signing but the session has no signing key",
        )?;
        let r: Result<(Vec<u8>, PendingOpen), ClientError> = Ok(
            (message, PendingOpen { message_id, tree_id: tree.tree_id, path }),
        );
        proof {
            law_open_message(
                r,
                *old(self),
                tree.tree_id,
                given,
                options,
                create_context_views(contexts@),
            );
            law_charged_message_is_paid_for(*old(self), credit_charge, message@);
        }
        r
    }

    /// Takes the response to a CREATE request.
    pub fn finish_open_file(&mut self, pending: PendingOpen, response_message: &[u8]) -> (r: Result<
        FileOpenResult,
        ClientError,
    >)
        ensures
            match open_finish_error(
                *old(self),
                pending.message_id,
                pending.tree_id,
                response_message@,
            ) {
                Some(e) => r == Err::<FileOpenResult, ClientError>(e),
                None => r is Ok && r->Ok_0.file@ == opened_file_of(
                    response_message@,
                    pending.tree_id,
                    pending.path@,
                ) && create_context_views(r->Ok_0.response_contexts@) == create_response_contexts(
                    response_message@,
                )->0,
            },
            r is Ok <==> opens_file(
                response_message@,
                *old(self),
                pending.message_id,
                pending.tree_id,
            ),
            r is Ok ==> file_stands(r->Ok_0.file@, response_message@),
            r is Ok ==> credited(*old(self), *final(self), response_message@),
            *final(self) == (SessionConnection {
                connection: if open_answer_error(
                    *old(self),
                    pending.message_id,
                    pending.tree_id,
                    response_message@,
                ) is Some {
                    old(self).connection
                } else {
                    old(self).connection.granted(header_of(response_message@).credits)
                },
                ..*old(self)
            }),
    {
        proof {
            law_open_answer(
                *self,
                pending.message_id,
                pending.tree_id,
                pending.path@,
                response_message@,
            );
            if opens_file(response_message@, *self, pending.message_id, pending.tree_id) {
                law_granted_response_is_credited(*self, response_message@);
            }
        }
        let header = from_wire(Smb2Header::decode(response_message))?;
        check_answer(
            &header,
            Command::Create,
            pending.message_id,
            self.session_id,
            MismatchTexts {
                command: "CREATE response command does not match request",
                message_id: "CREATE response MessageId does not match request",
                session_id: "CREATE response SessionId does not match session",
            },
        )?;
        check_tree(
            header.id,
            pending.tree_id,
            "CREATE response TreeId does not match tree",
            "CREATE response unexpectedly used async header form",
        )?;
        self.connection.grant_credits(header.credits)?;
        check_status(header.status, "CREATE response used request header form")?;
        self.verify_response(
            self.signing_required,
            response_message,
            &header,
            "server signed CREATE without an available signing key",
            "server omitted a required CREATE signature",
        )?;
        let response = from_wire(CreateResponse::decode_message(response_message))?;
        if response.file_id.is_zero() {
            return Err(ClientError::Protocol("successful CREATE response has a zero FileId"));
        }
        let file = FileHandle {
            file_id: response.file_id,
            tree_id: pending.tree_id,
            path: pending.path,
            oplock_level: response.oplock_level,
            allocation_size: response.allocation_size,
            end_of_file: response.end_of_file,
            file_attributes: response.file_attributes,
            creation_time: response.creation_time,
            last_access_time: response.last_access_time,
            last_write_time: response.last_write_time,
            change_time: response.change_time,
            create_action: response.create_action,
        };
        Ok(FileOpenResult { file, response_contexts: response.contexts })
    }
}

/// Whether a result is that of beginning to open a file.
pub open spec fn open_begun<T>(
    r: Result<(Vec<u8>, PendingOpen), ClientError>,
    session: SessionConnection<T>,
    tree_id: u32,
    path: Seq<char>,
    options: FileOpenOptions,
    contexts: Seq<CreateContextView>,
) -> bool {
    match open_begin_error(session, tree_id, path, options, contexts) {
        Some(e) => r == Err::<(Vec<u8>, PendingOpen), ClientError>(e),
        None => r is Ok && {
            let relative = relative_path_of(path)->Ok_0;
            &&& r->Ok_0.0@ == session.request_signed(
                session.signing_required,
                open_plain(
                    session,
                    tree_id,
                    create_request_of(relative, options, contexts),
                    options.credit_request,
                ),
            )
            &&& r->Ok_0.1.message_id == session.connection.message_ids.next
            &&& r->Ok_0.1.tree_id == tree_id
            &&& r->Ok_0.1.path@ == relative
        },
    }
}

/// The session after an attempt to send a CREATE request.
pub open spec fn open_charged<T>(
    session: SessionConnection<T>,
    path: Seq<char>,
) -> SessionConnection<T> {
    SessionConnection {
        connection: if open_refusal(session, path) is Some {
            session.connection
        } else {
            session.connection.charged(session.connection.single_charge())
        },
        ..session
    }
}

} // verus!
