//! Durable Handle V2: opens that outlive their connection.

use crate::bytes::same_bytes;
use crate::client::error::ClientError;
use crate::client::file::open_begun;
use crate::client::file::open_charged;
use crate::client::file::open_finish_error;
use crate::client::file::open_answer_error;
use crate::client::file::opened_file_of;
use crate::client::file::FileHandle;
use crate::client::file::FileOpenOptions;
use crate::client::file::FileView;
use crate::client::file::PendingOpen;
use crate::client::session::SessionConnection;
use crate::client::tree::TreeHandle;
use crate::laws::messages::durable_open_sent;
use crate::laws::messages::durable_reconnect_sent;
use crate::laws::messages::law_durable_open_message;
use crate::laws::messages::law_durable_reconnect_message;
use crate::wire::constants::CAPABILITY_PERSISTENT_HANDLES;
use crate::wire::constants::DURABLE_HANDLE_FLAG_PERSISTENT;
use crate::wire::constants::OPLOCK_LEVEL_BATCH;
use crate::wire::constants::SHARE_CAPABILITY_CONTINUOUS_AVAILABILITY;
use crate::wire::create::create_context_views;
use crate::wire::create::create_response_contexts;
use crate::wire::create::dh2q;
use crate::wire::create::durable_reconnect_view;
use crate::wire::create::durable_request_view;
use crate::wire::create::durable_response_of;
use crate::wire::create::CreateContext;
use crate::wire::create::CreateContextView;
use crate::wire::create::DurableHandleReconnectV2;
use crate::wire::create::DurableHandleRequestV2;
use crate::wire::create::DurableHandleResponseV2;
use crate::wire::create::DURABLE_HANDLE_REQUEST_V2_NAME;
use crate::wire::error::WireError;
use crate::wire::header::header_of;
use vstd::prelude::*;

verus! {

/// How long and how firmly a handle is to be durable.
#[derive(Debug, Clone, Copy, PartialEq, Eq)]
pub struct DurableHandleV2Options {
    /// Requested durable timeout in milliseconds. Zero lets the server choose its default.
    pub timeout_ms: u32,
    /// Requests a persistent handle. This requires both server support and a continuously
    /// available share; ordinary media shares should normally leave this false.
    pub persistent: bool,
}

impl Default for DurableHandleV2Options {
    fn default() -> (r: Self)
        ensures
            r == (DurableHandleV2Options { timeout_ms: 0, persistent: false }),
    {
        DurableHandleV2Options { timeout_ms: 0, persistent: false }
    }
}

/// A file open for which the server granted SMB2 Durable Handle V2 state.
///
/// The effective CREATE parameters and CreateGuid are retained because SMB2 durable reconnect must
/// replay those identity parameters rather than silently degrading into a path-only reopen.
#[derive(Debug)]
pub struct DurableFileHandle {
    pub file: FileHandle,
    pub create_guid: [u8; 16],
    pub open_options: FileOpenOptions,
    pub server_timeout_ms: u32,
    pub server_flags: u32,
}

/// What a durable open is.
pub struct DurableView {
    pub file: FileView,
    pub create_guid: Seq<u8>,
    pub open_options: FileOpenOptions,
    pub server_timeout_ms: u32,
    pub server_flags: u32,
}

impl View for DurableFileHandle {
    type V = DurableView;

    open spec fn view(&self) -> DurableView {
        DurableView {
            file: self.file@,
            create_guid: self.create_guid@,
            open_options: self.open_options,
            server_timeout_ms: self.server_timeout_ms,
            server_flags: self.server_flags,
        }
    }
}

impl Clone for DurableFileHandle {
    fn clone(&self) -> (r: Self)
        ensures
            r@ == self@,
    {
        DurableFileHandle {
            file: self.file.clone(),
            create_guid: self.create_guid,
            open_options: self.open_options,
            server_timeout_ms: self.server_timeout_ms,
            server_flags: self.server_flags,
        }
    }
}

/// Whether server flags announce a persistent handle.
pub open spec fn persistent_flag(flags: u32) -> bool {
    flags & DURABLE_HANDLE_FLAG_PERSISTENT != 0
}

impl DurableFileHandle {
    pub fn file(&self) -> (r: &FileHandle)
        ensures
            *r == self.file,
    {
        &self.file
    }

    pub fn into_file(self) -> (r: FileHandle)
        ensures
            r == self.file,
    {
        self.file
    }

    pub fn create_guid(&self) -> (r: [u8; 16])
        ensures
            r == self.create_guid,
    {
        self.create_guid
    }

    pub fn open_options(&self) -> (r: FileOpenOptions)
        ensures
            r == self.open_options,
    {
        self.open_options
    }

    pub fn server_timeout_ms(&self) -> (r: u32)
        ensures
            r == self.server_timeout_ms,
    {
        self.server_timeout_ms
    }

    pub fn server_flags(&self) -> (r: u32)
        ensures
            r == self.server_flags,
    {
        self.server_flags
    }

    /// Whether the server granted a persistent handle.
    pub fn persistent(&self) -> (r: bool)
        ensures
            r == persistent_flag(self.server_flags),
    {
        self.server_flags & DURABLE_HANDLE_FLAG_PERSISTENT != 0
    }
}

/// Why durable handles cannot be had, if they cannot.
pub open spec fn durable_refusal<T>(
    session: SessionConnection<T>,
    tree_capabilities: u32,
    persistent: bool,
) -> Option<ClientError> {
    let negotiated = session.connection.negotiated->0;
    if session.connection.negotiated is None {
        Some(ClientError::Protocol("durable handle requires negotiated SMB parameters"))
    } else if negotiated.dialect.code() < 0x0300 {
        Some(ClientError::Protocol("Durable Handle V2 requires SMB 3.x"))
    } else if persistent && negotiated.capabilities & CAPABILITY_PERSISTENT_HANDLES == 0 {
        Some(ClientError::Protocol("server did not negotiate persistent-handle capability"))
    } else if persistent && tree_capabilities & SHARE_CAPABILITY_CONTINUOUS_AVAILABILITY == 0 {
        Some(
            ClientError::Protocol(
                "persistent durable handles require a continuously available share",
            ),
        )
    } else {
        None
    }
}

/// What the contexts of a CREATE response say of a durable handle, on top of what is known.
pub open spec fn durable_scan(
    contexts: Seq<CreateContextView>,
    matched: Option<DurableHandleResponseV2>,
) -> Result<Option<DurableHandleResponseV2>, ClientError>
    decreases contexts.len(),
{
    if contexts.len() == 0 {
        Ok(matched)
    } else {
        let first = contexts[0];
        let rest = contexts.drop_first();
        if first.name != dh2q() {
            durable_scan(rest, matched)
        } else if matched is Some {
            Err(ClientError::Protocol("CREATE response contained duplicate DH2Q contexts"))
        } else if first.data.len() < 8 {
            Err(ClientError::Wire(WireError::Truncated("the durable handle response")))
        } else {
            durable_scan(rest, Some(durable_response_of(first.data)))
        }
    }
}

/// The grant of a durable handle among contexts, which must be there.
pub open spec fn required_grant_of(contexts: Seq<CreateContextView>) -> Result<
    DurableHandleResponseV2,
    ClientError,
> {
    match durable_scan(contexts, None) {
        Err(e) => Err(e),
        Ok(Some(grant)) => Ok(grant),
        Ok(None) => Err(ClientError::Protocol("server did not grant SMB2 Durable Handle V2")),
    }
}

/// Finds the grant of a durable handle among contexts.
pub fn optional_durable_response(contexts: &[CreateContext]) -> (r: Result<
    Option<DurableHandleResponseV2>,
    ClientError,
>)
    ensures
        r == durable_scan(create_context_views(contexts@), None),
{
    let ghost views = create_context_views(contexts@);
    let mut matched: Option<DurableHandleResponseV2> = None;
    let mut i: usize = 0;
    assert(views.skip(0) =~= views);
    while i < contexts.len()
        invariant
            i <= contexts@.len(),
            views == create_context_views(contexts@),
            durable_scan(views, None) == durable_scan(views.skip(i as int), matched),
        decreases contexts@.len() - i,
    {
        let context = &contexts[i];
        proof {
            let left = views.skip(i as int);
            assert(left[0] == context@);
            assert(left.drop_first() =~= views.skip(i + 1));
            assert(DURABLE_HANDLE_REQUEST_V2_NAME@ =~= dh2q());
        }
        if same_bytes(&context.name, &DURABLE_HANDLE_REQUEST_V2_NAME) {
            if matched.is_some() {
                return Err(
                    ClientError::Protocol("CREATE response contained duplicate DH2Q contexts"),
                );
            }
            match DurableHandleResponseV2::from_context(context) {
                Ok(response) => {
                    matched = Some(response);
                },
                Err(e) => {
                    return Err(ClientError::Wire(e));
                },
            }
        }
        i = i + 1;
    }
    assert(views.skip(i as int).len() == 0);
    Ok(matched)
}

/// Finds the grant of a durable handle among contexts, which must be there.
pub fn required_durable_response(contexts: &[CreateContext]) -> (r: Result<
    DurableHandleResponseV2,
    ClientError,
>)
    ensures
        r == required_grant_of(create_context_views(contexts@)),
{
    match optional_durable_response(contexts)? {
        Some(response) => Ok(response),
        None => Err(ClientError::Protocol("server did not grant SMB2 Durable Handle V2")),
    }
}

/// The options that a durable open is made with. Without a persistent handle, a batch oplock gives
/// the server handle-caching state that it can preserve across a transport disconnect.
pub open spec fn durable_options_of(options: FileOpenOptions, persistent: bool) -> FileOpenOptions {
    if persistent {
        options
    } else {
        FileOpenOptions { requested_oplock_level: OPLOCK_LEVEL_BATCH, ..options }
    }
}

/// The flags that a durable open asks for.
pub open spec fn durable_flags_of(persistent: bool) -> u32 {
    if persistent {
        DURABLE_HANDLE_FLAG_PERSISTENT
    } else {
        0
    }
}

/// A durable open that was sent.
#[derive(Debug)]
pub struct PendingDurableOpen {
    pub open: PendingOpen,
    pub create_guid: [u8; 16],
    pub open_options: FileOpenOptions,
    pub persistent: bool,
}

/// A durable reconnect that was sent.
#[derive(Debug)]
pub struct PendingDurableReconnect {
    pub open: PendingOpen,
    pub create_guid: [u8; 16],
    pub open_options: FileOpenOptions,
    pub server_timeout_ms: u32,
    pub server_flags: u32,
}

/// The options that a durable open is taken up with: the original ones, with the oplock that was
/// granted and no impersonation.
pub open spec fn reconnect_options_of(durable: DurableFileHandle) -> FileOpenOptions {
    FileOpenOptions {
        requested_oplock_level: durable.file.oplock_level,
        impersonation_level: 0,
        ..durable.open_options
    }
}

/// The grant after a reconnect: the server's new one, or else the old one.
pub open spec fn refreshed_grant(
    refreshed: Option<DurableHandleResponseV2>,
    timeout_ms: u32,
    flags: u32,
) -> (u32, u32) {
    match refreshed {
        Some(response) => (response.timeout_ms, response.flags),
        None => (timeout_ms, flags),
    }
}

/// The connection part of a session after a CREATE response.
pub open spec fn open_granted<T>(
    session: SessionConnection<T>,
    pending: PendingOpen,
    m: Seq<u8>,
) -> SessionConnection<T> {
    SessionConnection {
        connection: if open_answer_error(session, pending.message_id, pending.tree_id, m) is Some {
            session.connection
        } else {
            session.connection.granted(header_of(m).credits)
        },
        ..session
    }
}

/// Checks that durable handles can be had.
pub fn ensure_durable_v2_supported<T>(
    session: &SessionConnection<T>,
    tree: &TreeHandle,
    persistent: bool,
) -> (r: Result<(), ClientError>)
    ensures
        match durable_refusal(*session, tree.capabilities, persistent) {
            Some(e) => r == Err::<(), ClientError>(e),
            None => r is Ok,
        },
{
    match &session.connection.negotiated {
        None => Err(ClientError::Protocol("durable handle requires negotiated SMB parameters")),
        Some(negotiated) => {
            if negotiated.dialect.to_u16() < 0x0300 {
                return Err(ClientError::Protocol("Durable Handle V2 requires SMB 3.x"));
            }
            if persistent {
                if negotiated.capabilities & CAPABILITY_PERSISTENT_HANDLES == 0 {
                    return Err(
                        ClientError::Protocol(
                            "server did not negotiate persistent-handle capability",
                        ),
                    );
                }
                if tree.capabilities & SHARE_CAPABILITY_CONTINUOUS_AVAILABILITY == 0 {
                    return Err(
                        ClientError::Protocol(
                            "persistent durable handles require a continuously available share",
                        ),
                    );
                }
            }
            Ok(())
        },
    }
}

impl<T> SessionConnection<T> {
    /// Builds the request that opens a file and asks for Durable Handle V2 (`DH2Q`).
    pub fn begin_open_file_durable_v2(
        &mut self,
        tree: &TreeHandle,
        path: &str,
        open_options: FileOpenOptions,
        create_guid: [u8; 16],
        durable_options: DurableHandleV2Options,
    ) -> (r: Result<(Vec<u8>, PendingDurableOpen), ClientError>)
        ensures
            match durable_refusal(*old(self), tree.capabilities, durable_options.persistent) {
                Some(e) => r == Err::<(Vec<u8>, PendingDurableOpen), ClientError>(e)
                    && *final(self) == *old(self),
                None => {
                    let options = durable_options_of(open_options, durable_options.persistent);
                    let contexts = seq![
                        durable_request_view(
                            durable_options.timeout_ms,
                            durable_flags_of(durable_options.persistent),
                            create_guid@,
                        ),
                    ];
                    let plain: Result<(Vec<u8>, PendingOpen), ClientError> = match r {
                        Ok((message, pending)) => Ok((message, pending.open)),
                        Err(e) => Err(e),
                    };
                    &&& open_begun(plain, *old(self), tree.tree_id, path@, options, contexts)
                    &&& r is Ok ==> durable_open_sent(
                        r->Ok_0.0@,
                        *old(self),
                        tree.tree_id,
                        path@,
                        open_options,
                        create_guid@,
                        durable_options,
                    )
                    &&& *final(self) == open_charged(*old(self), path@)
                    &&& r is Ok ==> r->Ok_0.1.create_guid == create_guid && r->Ok_0.1.open_options
                        == options && r->Ok_0.1.persistent == durable_options.persistent
                },
            },
    {
        ensure_durable_v2_supported(self, tree, durable_options.persistent)?;
        let mut effective = open_options;
        if !durable_options.persistent {
            effective.requested_oplock_level = OPLOCK_LEVEL_BATCH;
        }
        let request = DurableHandleRequestV2 {
            timeout_ms: durable_options.timeout_ms,
            flags: if durable_options.persistent {
                DURABLE_HANDLE_FLAG_PERSISTENT
            } else {
                0
            },
            create_guid,
        };
        let contexts: [CreateContext; 1] = [request.into_context()];
        assert(create_context_views(contexts@) =~= seq![contexts@[0]@]);
        let (message, open) = self.begin_open_file_with_contexts(tree, path, effective, &contexts)?;
        proof {
            law_durable_open_message(
                Ok((message, open)),
                *old(self),
                tree.tree_id,
                path@,
                open_options,
                create_guid@,
                durable_options,
            );
        }
        Ok(
            (
                message,
                PendingDurableOpen {
                    open,
                    create_guid,
                    open_options: effective,
                    persistent: durable_options.persistent,
                },
            ),
        )
    }

    /// Takes the response to a durable open. The server must grant what was asked for.
    pub fn finish_open_file_durable_v2(
        &mut self,
        pending: PendingDurableOpen,
        response_message: &[u8],
    ) -> (r: Result<DurableFileHandle, ClientError>)
        ensures
            durable_opened(r, *old(self), pending, response_message@),
            *final(self) == open_granted(*old(self), pending.open, response_message@),
    {
        let ghost tree_id = pending.open.tree_id;
        let ghost path = pending.open.path@;
        let result = self.finish_open_file(pending.open, response_message)?;
        let response = required_durable_response(&result.response_contexts)?;
        if pending.persistent && response.flags & DURABLE_HANDLE_FLAG_PERSISTENT == 0 {
            return Err(
                ClientError::Protocol(
                    "server did not grant the requested persistent durable handle",
                ),
            );
        }
        Ok(
            DurableFileHandle {
                file: result.file,
                create_guid: pending.create_guid,
                open_options: pending.open_options,
                server_timeout_ms: response.timeout_ms,
                server_flags: response.flags,
            },
        )
    }

    /// Builds the request that takes an already granted Durable Handle V2 up again (`DH2C`).
    ///
    /// This is deliberately distinct from path-only recovery. It reuses the original FileId,
    /// CreateGuid and CREATE parameters, with ImpersonationLevel reset to zero as required by the
    /// durable reconnect request form.
    pub fn begin_reconnect_file_durable_v2(
        &mut self,
        tree: &TreeHandle,
        durable: &DurableFileHandle,
    ) -> (r: Result<(Vec<u8>, PendingDurableReconnect), ClientError>)
        ensures
            match durable_refusal(
                *old(self),
                tree.capabilities,
                persistent_flag(durable.server_flags),
            ) {
                Some(e) => r == Err::<(Vec<u8>, PendingDurableReconnect), ClientError>(e)
                    && *final(self) == *old(self),
                None => {
                    let contexts = seq![
                        durable_reconnect_view(
                            durable.file.file_id,
                            durable.create_guid@,
                            durable_flags_of(persistent_flag(durable.server_flags)),
                        ),
                    ];
                    let plain: Result<(Vec<u8>, PendingOpen), ClientError> = match r {
                        Ok((message, pending)) => Ok((message, pending.open)),
                        Err(e) => Err(e),
                    };
                    &&& open_begun(
                        plain,
                        *old(self),
                        tree.tree_id,
                        durable.file.path@,
                        reconnect_options_of(*durable),
                        contexts,
                    )
                    &&& r is Ok ==> durable_reconnect_sent(
                        r->Ok_0.0@,
                        *old(self),
                        tree.tree_id,
                        *durable,
                    )
                    &&& *final(self) == open_charged(*old(self), durable.file.path@)
                    &&& r is Ok ==> r->Ok_0.1.create_guid == durable.create_guid
                        && r->Ok_0.1.open_options == durable.open_options
                        && r->Ok_0.1.server_timeout_ms == durable.server_timeout_ms
                        && r->Ok_0.1.server_flags == durable.server_flags
                },
            },
    {
        ensure_durable_v2_supported(self, tree, durable.persistent())?;
        let reconnect = DurableHandleReconnectV2 {
            file_id: durable.file.file_id,
            create_guid: durable.create_guid,
            flags: if durable.persistent() {
                DURABLE_HANDLE_FLAG_PERSISTENT
            } else {
                0
            },
        };
        let contexts: [CreateContext; 1] = [reconnect.into_context()];
        assert(create_context_views(contexts@) =~= seq![contexts@[0]@]);
        let mut options = durable.open_options;
        options.requested_oplock_level = durable.file.oplock_level;
        options.impersonation_level = 0;
        let (message, open) = self.begin_open_file_with_contexts(
            tree,
            durable.file.path.as_str(),
            options,
            &contexts,
        )?;
        proof {
            law_durable_reconnect_message(
                Ok((message, open)),
                *old(self),
                tree.tree_id,
                *durable,
            );
        }
        Ok(
            (
                message,
                PendingDurableReconnect {
                    open,
                    create_guid: durable.create_guid,
                    open_options: durable.open_options,
                    server_timeout_ms: durable.server_timeout_ms,
                    server_flags: durable.server_flags,
                },
            ),
        )
    }

    /// Takes the response to a durable reconnect. A persistent handle must stay persistent.
    pub fn finish_reconnect_file_durable_v2(
        &mut self,
        pending: PendingDurableReconnect,
        response_message: &[u8],
    ) -> (r: Result<DurableFileHandle, ClientError>)
        ensures
            durable_reconnected(r, *old(self), pending, response_message@),
            *final(self) == open_granted(*old(self), pending.open, response_message@),
    {
        let result = self.finish_open_file(pending.open, response_message)?;
        let refreshed = optional_durable_response(&result.response_contexts)?;
        let (server_timeout_ms, server_flags) = match refreshed {
            Some(response) => (response.timeout_ms, response.flags),
            None => (pending.server_timeout_ms, pending.server_flags),
        };
        if pending.server_flags & DURABLE_HANDLE_FLAG_PERSISTENT != 0 && server_flags
            & DURABLE_HANDLE_FLAG_PERSISTENT == 0 {
            return Err(
                ClientError::Protocol("durable reconnect lost persistent-handle state"),
            );
        }
        Ok(
            DurableFileHandle {
                file: result.file,
                create_guid: pending.create_guid,
                open_options: pending.open_options,
                server_timeout_ms,
                server_flags,
            },
        )
    }
}

/// Whether a result is that of a durable open.
pub open spec fn durable_opened<T>(
    r: Result<DurableFileHandle, ClientError>,
    session: SessionConnection<T>,
    pending: PendingDurableOpen,
    m: Seq<u8>,
) -> bool {
    let failed = open_finish_error(session, pending.open.message_id, pending.open.tree_id, m);
    let grant = required_grant_of(create_response_contexts(m)->0);
    if failed is Some {
        r == Err::<DurableFileHandle, ClientError>(failed->0)
    } else if grant is Err {
        r == Err::<DurableFileHandle, ClientError>(grant->Err_0)
    } else if pending.persistent && !persistent_flag(grant->Ok_0.flags) {
        r == Err::<DurableFileHandle, _>(
            ClientError::Protocol("server did not grant the requested persistent durable handle"),
        )
    } else {
        r is Ok && r->Ok_0@ == (DurableView {
            file: opened_file_of(m, pending.open.tree_id, pending.open.path@),
            create_guid: pending.create_guid@,
            open_options: pending.open_options,
            server_timeout_ms: grant->Ok_0.timeout_ms,
            server_flags: grant->Ok_0.flags,
        })
    }
}

/// Whether a result is that of a durable reconnect.
pub open spec fn durable_reconnected<T>(
    r: Result<DurableFileHandle, ClientError>,
    session: SessionConnection<T>,
    pending: PendingDurableReconnect,
    m: Seq<u8>,
) -> bool {
    let failed = open_finish_error(session, pending.open.message_id, pending.open.tree_id, m);
    let scan = durable_scan(create_response_contexts(m)->0, None);
    let grant = refreshed_grant(scan->Ok_0, pending.server_timeout_ms, pending.server_flags);
    if failed is Some {
        r == Err::<DurableFileHandle, ClientError>(failed->0)
    } else if scan is Err {
        r == Err::<DurableFileHandle, ClientError>(scan->Err_0)
    } else if persistent_flag(pending.server_flags) && !persistent_flag(grant.1) {
        r == Err::<DurableFileHandle, _>(
            ClientError::Protocol("durable reconnect lost persistent-handle state"),
        )
    } else {
        r is Ok && r->Ok_0@ == (DurableView {
            file: opened_file_of(m, pending.open.tree_id, pending.open.path@),
            create_guid: pending.create_guid@,
            open_options: pending.open_options,
            server_timeout_ms: grant.0,
            server_flags: grant.1,
        })
    }
}

} // verus!
