//! What goes out for each operation, read from the bytes of the message.

use crate::auth::provider::AuthStep;
use crate::bytes::u16_at;
use crate::bytes::u32_at;
use crate::bytes::u64_at;
use crate::client::cancel::cancel_plain;
use crate::client::cancel::CancelablePending;
use crate::client::close::close_plain;
use crate::client::close::CloseOptions;
use crate::client::credits::CreditManager;
use crate::client::durable_open::durable_flags_of;
use crate::client::durable_open::durable_options_of;
use crate::client::durable_open::persistent_flag;
use crate::client::durable_open::reconnect_options_of;
use crate::client::durable_open::DurableFileHandle;
use crate::client::durable_open::DurableHandleV2Options;
use crate::client::error::ClientError;
use crate::client::file::create_request_of;
use crate::client::file::open_begun;
use crate::client::file::open_plain;
use crate::client::file::relative_path_of;
use crate::client::file::FileOpenOptions;
use crate::client::file::PendingOpen;
use crate::client::query::query_directory_begin_error;
use crate::client::query::query_directory_charge;
use crate::client::query::query_directory_plain;
use crate::client::query::query_info_begin_error;
use crate::client::query::query_info_charge;
use crate::client::query::query_info_plain;
use crate::client::query::QueryDirectoryOptions;
use crate::client::query::QueryInfoOptions;
use crate::client::read::issue_error;
use crate::client::read::issued_read;
use crate::client::read::read_charge_of;
use crate::client::read::read_plain;
use crate::client::session::setup_sent;
use crate::client::session::SessionConnection;
use crate::client::session::SessionSetup;
use crate::client::tree::tree_connect_begin_error;
use crate::client::tree::tree_connect_plain;
use crate::client::tree::tree_connect_signs;
use crate::client::tree::TreeConnectOptions;
use crate::laws::contexts::law_create_contexts_read_back;
use crate::laws::contexts::law_durable_reconnect_context;
use crate::laws::contexts::law_durable_request_context;
use crate::laws::requests::close_asked;
use crate::laws::requests::create_asked;
use crate::laws::requests::create_context_region;
use crate::laws::requests::lemma_close_bytes;
use crate::laws::requests::lemma_create_bytes;
use crate::laws::requests::lemma_query_directory_bytes;
use crate::laws::requests::lemma_query_info_bytes;
use crate::laws::requests::lemma_read_bytes;
use crate::laws::requests::lemma_request_rides;
use crate::laws::requests::lemma_rides_reads;
use crate::laws::requests::lemma_session_setup_bytes;
use crate::laws::requests::lemma_tree_connect_bytes;
use crate::laws::requests::query_directory_asked;
use crate::laws::requests::query_info_asked;
use crate::laws::requests::read_asked;
use crate::laws::requests::request_head;
use crate::laws::requests::session_setup_asked;
use crate::laws::requests::tree_connect_asked;
use crate::wire::create::create_contexts_of;
use crate::wire::create::durable_reconnect_view;
use crate::wire::create::durable_request_view;
use crate::wire::create::CreateContextView;
use crate::wire::file_io::FileId;
use crate::wire::file_io::ReadRequest;
use crate::wire::negotiate::Dialect;
use crate::wire::query::QueryDirectoryRequest;
use crate::wire::query::QueryInfoRequest;
use vstd::prelude::*;

verus! {

/// Whether a request asks for as many credits as it has to: the largest of one, the caller's minimum
/// and what is missing to the target once the request is paid, as far as the field holds it.
pub open spec fn credits_asked(asked: u16, window: CreditManager, charge: int, minimum: u16) -> bool {
    let left = window.available - if charge == 0 {
        1
    } else {
        charge
    };
    let missing = window.target - left;
    &&& asked >= 1
    &&& asked >= minimum
    &&& asked >= missing || asked == 65_535
    &&& asked == 1 || asked == minimum || asked == missing || missing > 65_535
}

/// Whether requests on a session may cost more than one credit: from SMB 2.1 on, where the server
/// has the large-transfer capability, bit 2.
pub open spec fn multi_credit_session<T>(session: SessionConnection<T>) -> bool {
    let negotiated = session.connection.negotiated->0;
    negotiated.dialect != Dialect::Smb202 && negotiated.capabilities & 4 != 0
}

/// Whether a message has the header of the next request of a session: the session's next MessageId
/// and its SessionId, the tree, the charge, a request for credits, and the signed flag where it is to
/// be signed and no other.
pub open spec fn request_sent<T>(
    m: Seq<u8>,
    session: SessionConnection<T>,
    signs: bool,
    command: u16,
    tree_id: u32,
    charge: int,
    minimum: u16,
) -> bool {
    &&& 0 <= charge <= u16::MAX
    &&& request_head(
        m,
        command,
        charge as u16,
        u16_at(m, 14),
        session.connection.message_ids.next,
        tree_id,
        session.session_id,
    )
    &&& u32_at(m, 16) == if signs {
        8int
    } else {
        0
    }
    &&& credits_asked(u16_at(m, 14), session.connection.credits->0, charge, minimum)
}

/// A charged request asks for the credits that it has to.
proof fn lemma_credits_asked<T>(session: SessionConnection<T>, charge: u16, minimum: u16)
    requires
        session.connection.charge_error(charge) is None,
    ensures
        credits_asked(
            session.connection.credit_request(charge, minimum),
            session.connection.credits->0,
            charge as int,
            minimum,
        ),
{
}

/// A signed or plain request has the header that was encoded, with the flag of its signature.
proof fn lemma_sent<T>(
    session: SessionConnection<T>,
    signs: bool,
    plain: Seq<u8>,
    no_key: &'static str,
    command: u16,
    tree_id: u32,
    charge: u16,
    minimum: u16,
)
    requires
        session.connection.charge_error(charge) is None,
        session.request_sign_error(signs, plain, no_key) is None,
        request_head(
            plain,
            command,
            charge,
            session.connection.credit_request(charge, minimum),
            session.connection.message_ids.next,
            tree_id,
            session.session_id,
        ),
        u32_at(plain, 16) == 0,
    ensures
        request_sent(
            session.request_signed(signs, plain),
            session,
            signs,
            command,
            tree_id,
            charge as int,
            minimum,
        ),
{
    lemma_request_rides(session, signs, plain);
    lemma_rides_reads(session.request_signed(signs, plain), plain);
    lemma_credits_asked(session, charge, minimum);
    assert(0u32 | 8 == 8) by (bit_vector);
}

/// What a path is on the wire: each slash is a backslash, and nothing else changes.
pub open spec fn path_on_wire(path: Seq<char>, name: Seq<char>) -> bool {
    &&& name.len() == path.len()
    &&& forall|i: int|
        0 <= i < path.len() ==> #[trigger] name[i] == if path[i] == '/' {
            '\\'
        } else {
            path[i]
        }
}

/// Whether a message opens a file on a tree: the CREATE request with every option in the field of
/// its own name, the path on the wire as its name, and the contexts.
pub open spec fn open_sent<T>(
    m: Seq<u8>,
    session: SessionConnection<T>,
    tree_id: u32,
    path: Seq<char>,
    options: FileOpenOptions,
    contexts: Seq<CreateContextView>,
) -> bool {
    &&& request_sent(
        m,
        session,
        session.signing_required,
        5,
        tree_id,
        if multi_credit_session(session) {
            1
        } else {
            0
        },
        options.credit_request,
    )
    &&& exists|name: Seq<char>| #[trigger]
        path_on_wire(path, name) && create_asked(
            m,
            options.requested_oplock_level,
            options.impersonation_level,
            options.desired_access,
            options.file_attributes,
            options.share_access,
            options.create_disposition,
            options.create_options,
            name,
        )
    &&& if contexts.len() == 0 {
        u32_at(m, 112) == 0 && u32_at(m, 116) == 0 && m.len() == 120 + u16_at(m, 110)
    } else {
        &&& u32_at(m, 112) % 8 == 0
        &&& 120 + u16_at(m, 110) <= u32_at(m, 112)
        &&& m.len() == u32_at(m, 112) + u32_at(m, 116)
        &&& create_contexts_of(create_context_region(m)) == Some(contexts)
    }
}

/// The message that opens a file holds, read back from its bytes, the DesiredAccess of the options at
/// offset 88, their ShareAccess at 96, every other option in the field of its own name, the path with
/// backslashes as its name, and the contexts in their order.
pub proof fn law_open_message<T>(
    r: Result<(Vec<u8>, PendingOpen), ClientError>,
    session: SessionConnection<T>,
    tree_id: u32,
    path: Seq<char>,
    options: FileOpenOptions,
    contexts: Seq<CreateContextView>,
)
    requires
        open_begun(r, session, tree_id, path, options, contexts),
        r is Ok,
    ensures
        open_sent(r->Ok_0.0@, session, tree_id, path, options, contexts),
        r->Ok_0.0@[67] == options.requested_oplock_level,
        u32_at(r->Ok_0.0@, 68) == options.impersonation_level,
        u32_at(r->Ok_0.0@, 88) == options.desired_access,
        u32_at(r->Ok_0.0@, 92) == options.file_attributes,
        u32_at(r->Ok_0.0@, 96) == options.share_access,
        u32_at(r->Ok_0.0@, 100) == options.create_disposition,
        u32_at(r->Ok_0.0@, 104) == options.create_options,
        r->Ok_0.1.message_id == u64_at(r->Ok_0.0@, 24),
        r->Ok_0.1.tree_id == tree_id,
        path_on_wire(path, r->Ok_0.1.path@),
{
    let m = r->Ok_0.0@;
    let name = relative_path_of(path)->Ok_0;
    let request = create_request_of(name, options, contexts);
    let plain = open_plain(session, tree_id, request, options.credit_request);
    let charge = session.connection.single_charge();
    lemma_create_bytes(
        request,
        session.connection.message_ids.next,
        session.session_id,
        tree_id,
        charge,
        session.connection.credit_request(charge, options.credit_request),
    );
    lemma_sent(
        session,
        session.signing_required,
        plain,
        "CREATE requires signing but the session has no signing key",
        5,
        tree_id,
        charge,
        options.credit_request,
    );
    lemma_request_rides(session, session.signing_required, plain);
    lemma_rides_reads(m, plain);
    assert(path_on_wire(path, name));
    if contexts.len() > 0 {
        law_create_contexts_read_back(contexts);
        assert(create_context_region(m) == create_context_region(plain));
    }
}

/// Whether a message asks for a durable handle along with an open: the options are the caller's, but
/// for a batch oplock, level 9, where the handle is not to be persistent, and the one context is
/// `DH2Q` with the timeout, the persistent flag, bit 1, where it is asked for, and the GUID.
pub open spec fn durable_open_sent<T>(
    m: Seq<u8>,
    session: SessionConnection<T>,
    tree_id: u32,
    path: Seq<char>,
    options: FileOpenOptions,
    guid: Seq<u8>,
    durable: DurableHandleV2Options,
) -> bool {
    exists|c: CreateContextView|
        {
            &&& #[trigger] durable_context(
                c,
                durable.timeout_ms,
                durable.persistent,
                guid,
            )
            &&& open_sent(
                m,
                session,
                tree_id,
                path,
                FileOpenOptions {
                    requested_oplock_level: if durable.persistent {
                        options.requested_oplock_level
                    } else {
                        9
                    },
                    ..options
                },
                seq![c],
            )
        }
}

/// Whether a context is the `DH2Q` context with a timeout, the persistent flag and a GUID.
pub open spec fn durable_context(
    c: CreateContextView,
    timeout_ms: u32,
    persistent: bool,
    guid: Seq<u8>,
) -> bool {
    &&& c.name == seq![0x44u8, 0x48u8, 0x32u8, 0x51u8]
    &&& c.data.len() == 32
    &&& u32_at(c.data, 0) == timeout_ms
    &&& u32_at(c.data, 4) == if persistent {
        2int
    } else {
        0
    }
    &&& forall|i: int| 8 <= i < 16 ==> #[trigger] c.data[i] == 0
    &&& c.data.subrange(16, 32) == guid
}

/// The message of a durable open asks for just what the caller asked for.
pub proof fn law_durable_open_message<T>(
    r: Result<(Vec<u8>, PendingOpen), ClientError>,
    session: SessionConnection<T>,
    tree_id: u32,
    path: Seq<char>,
    options: FileOpenOptions,
    guid: Seq<u8>,
    durable: DurableHandleV2Options,
)
    requires
        guid.len() == 16,
        open_begun(
            r,
            session,
            tree_id,
            path,
            durable_options_of(options, durable.persistent),
            seq![
                durable_request_view(
                    durable.timeout_ms,
                    durable_flags_of(durable.persistent),
                    guid,
                ),
            ],
        ),
        r is Ok,
    ensures
        durable_open_sent(r->Ok_0.0@, session, tree_id, path, options, guid, durable),
{
    let c = durable_request_view(
        durable.timeout_ms,
        durable_flags_of(durable.persistent),
        guid,
    );
    law_open_message(
        r,
        session,
        tree_id,
        path,
        durable_options_of(options, durable.persistent),
        seq![c],
    );
    law_durable_request_context(
        durable.timeout_ms,
        durable_flags_of(durable.persistent),
        guid,
    );
    assert(durable_context(
        c,
        durable.timeout_ms,
        durable.persistent,
        guid,
    ));
}

/// Whether a context is the `DH2C` context of a file, a GUID and the persistent flag.
pub open spec fn reconnect_context(
    c: CreateContextView,
    file_id: FileId,
    guid: Seq<u8>,
    server_flags: u32,
) -> bool {
    &&& c.name == seq![0x44u8, 0x48u8, 0x32u8, 0x43u8]
    &&& c.data.len() == 36
    &&& u64_at(c.data, 0) == file_id.persistent
    &&& u64_at(c.data, 8) == file_id.volatile
    &&& c.data.subrange(16, 32) == guid
    &&& u32_at(c.data, 32) == if server_flags & 2 != 0 {
        2int
    } else {
        0
    }
}

/// Whether a message takes a durable handle up again: the path and the options of its open, with the
/// oplock that was granted and no impersonation, and the one context `DH2C` with its FileId, its GUID
/// and the persistent flag, bit 1, where the server granted a persistent handle.
pub open spec fn durable_reconnect_sent<T>(
    m: Seq<u8>,
    session: SessionConnection<T>,
    tree_id: u32,
    durable: DurableFileHandle,
) -> bool {
    exists|c: CreateContextView|
        {
            &&& #[trigger] reconnect_context(
                c,
                durable.file.file_id,
                durable.create_guid@,
                durable.server_flags,
            )
            &&& open_sent(
                m,
                session,
                tree_id,
                durable.file.path@,
                FileOpenOptions {
                    requested_oplock_level: durable.file.oplock_level,
                    impersonation_level: 0,
                    ..durable.open_options
                },
                seq![c],
            )
        }
}

/// The message of a durable reconnect asks for just the handle that was granted.
pub proof fn law_durable_reconnect_message<T>(
    r: Result<(Vec<u8>, PendingOpen), ClientError>,
    session: SessionConnection<T>,
    tree_id: u32,
    durable: DurableFileHandle,
)
    requires
        open_begun(
            r,
            session,
            tree_id,
            durable.file.path@,
            reconnect_options_of(durable),
            seq![
                durable_reconnect_view(
                    durable.file.file_id,
                    durable.create_guid@,
                    durable_flags_of(persistent_flag(durable.server_flags)),
                ),
            ],
        ),
        r is Ok,
    ensures
        durable_reconnect_sent(r->Ok_0.0@, session, tree_id, durable),
{
    let flags = durable_flags_of(persistent_flag(durable.server_flags));
    let c = durable_reconnect_view(durable.file.file_id, durable.create_guid@, flags);
    law_open_message(
        r,
        session,
        tree_id,
        durable.file.path@,
        reconnect_options_of(durable),
        seq![c],
    );
    assert(durable.create_guid@.len() == 16);
    law_durable_reconnect_context(durable.file.file_id, durable.create_guid@, flags);
    assert(reconnect_context(
        c,
        durable.file.file_id,
        durable.create_guid@,
        durable.server_flags,
    ));
}

/// Whether a message closes a file: the CLOSE request with the file's identifier, and the flag that
/// asks for attributes, bit 0, where they are asked for.
pub open spec fn close_sent<T>(
    m: Seq<u8>,
    session: SessionConnection<T>,
    file_id: FileId,
    tree_id: u32,
    options: CloseOptions,
) -> bool {
    &&& request_sent(
        m,
        session,
        session.signing_required,
        6,
        tree_id,
        if multi_credit_session(session) {
            1
        } else {
            0
        },
        options.credit_request,
    )
    &&& close_asked(
        m,
        file_id,
        if options.postquery_attributes {
            1
        } else {
            0
        },
    )
}

/// The message that closes a file names just that file.
pub proof fn law_close_message<T>(
    session: SessionConnection<T>,
    file_id: FileId,
    tree_id: u32,
    options: CloseOptions,
)
    requires
        crate::client::close::close_begin_error(session, file_id, tree_id, options) is None,
    ensures
        close_sent(
            session.request_signed(
                session.signing_required,
                close_plain(session, file_id, tree_id, options),
            ),
            session,
            file_id,
            tree_id,
            options,
        ),
{
    let plain = close_plain(session, file_id, tree_id, options);
    let charge = session.connection.single_charge();
    lemma_close_bytes(
        crate::wire::file_io::CloseRequest {
            flags: if options.postquery_attributes {
                1
            } else {
                0
            },
            file_id,
        },
        session.connection.message_ids.next,
        session.session_id,
        tree_id,
        charge,
        session.connection.credit_request(charge, options.credit_request),
    );
    lemma_sent(
        session,
        session.signing_required,
        plain,
        "CLOSE requires signing but the session has no signing key",
        6,
        tree_id,
        charge,
        options.credit_request,
    );
    lemma_request_rides(session, session.signing_required, plain);
    lemma_rides_reads(session.request_signed(session.signing_required, plain), plain);
}

/// Whether TREE_CONNECT is to be signed: where the session signs, and under SMB 3.1.1 for everybody
/// but anonymous users, guests, bit 0, and null sessions, bit 1.
pub open spec fn tree_signs<T>(session: SessionConnection<T>) -> bool {
    session.signing_required || (session.connection.negotiated->0.dialect == Dialect::Smb311
        && session.mechanism != crate::auth::provider::AuthMechanism::Anonymous
        && session.session_flags & 1 == 0 && session.session_flags & 2 == 0)
}

/// Whether a message connects a session to a share: the TREE_CONNECT request on no tree, with the
/// flags and the path that the caller gave.
pub open spec fn tree_connect_sent<T>(
    m: Seq<u8>,
    session: SessionConnection<T>,
    path: Seq<char>,
    options: TreeConnectOptions,
) -> bool {
    &&& request_sent(
        m,
        session,
        tree_signs(session),
        3,
        0,
        if multi_credit_session(session) {
            1
        } else {
            0
        },
        options.credit_request,
    )
    &&& tree_connect_asked(m, options.flags, path)
}

/// The message that connects to a share names just that share.
pub proof fn law_tree_connect_message<T>(
    session: SessionConnection<T>,
    path: Seq<char>,
    options: TreeConnectOptions,
)
    requires
        tree_connect_begin_error(session, path, options) is None,
    ensures
        tree_connect_sent(
            session.request_signed(
                tree_connect_signs(session),
                tree_connect_plain(session, path, options),
            ),
            session,
            path,
            options,
        ),
{
    let flags = session.session_flags;
    assert((flags & 3 == 0) == (flags & 1 == 0 && flags & 2 == 0)) by (bit_vector);
    assert(1u16 | 2 == 3) by (bit_vector);
    let signs = tree_connect_signs(session);
    let plain = tree_connect_plain(session, path, options);
    let charge = session.connection.single_charge();
    lemma_tree_connect_bytes(
        options.flags,
        path,
        session.connection.message_ids.next,
        session.session_id,
        charge,
        session.connection.credit_request(charge, options.credit_request),
    );
    lemma_sent(
        session,
        signs,
        plain,
        "TREE_CONNECT requires signing but the session has no signing key",
        3,
        0,
        charge,
        options.credit_request,
    );
    lemma_request_rides(session, signs, plain);
    lemma_rides_reads(session.request_signed(signs, plain), plain);
}

/// Whether a charge covers a payload: one credit for each begun unit of 64 KiB where requests may
/// cost more than one, and none at all otherwise.
pub open spec fn charge_covers(charge: int, multi_credit: bool, payload: int) -> bool {
    if multi_credit {
        &&& charge >= 1
        &&& payload <= 65_536 * charge
        &&& charge > 1 ==> payload > 65_536 * (charge - 1)
    } else {
        charge == 0
    }
}

/// Whether a message asks for bytes of a file: the READ request with the file, the place and the
/// length, charged for the length.
pub open spec fn read_sent<T>(
    m: Seq<u8>,
    session: SessionConnection<T>,
    file_id: FileId,
    tree_id: u32,
    offset: int,
    length: int,
    multi_credit: bool,
    minimum: u16,
) -> bool {
    &&& request_sent(
        m,
        session,
        session.signing_required,
        8,
        tree_id,
        u16_at(m, 6) as int,
        minimum,
    )
    &&& charge_covers(u16_at(m, 6) as int, multi_credit, length)
    &&& read_asked(m, file_id, offset, length)
}

/// The message that asks for a chunk of a file names just that chunk.
pub proof fn law_read_message<T>(
    session: SessionConnection<T>,
    file_id: FileId,
    tree_id: u32,
    offset: int,
    length: int,
    multi_credit: bool,
    minimum: u16,
)
    requires
        0 <= offset <= u64::MAX,
        0 < length <= u32::MAX,
        issue_error(session, file_id, tree_id, offset, length, multi_credit, minimum) is None,
    ensures
        read_sent(
            issued_read(session, file_id, tree_id, offset, length, multi_credit, minimum),
            session,
            file_id,
            tree_id,
            offset,
            length,
            multi_credit,
            minimum,
        ),
{
    let charge = read_charge_of(multi_credit, length)->Ok_0;
    let plain = read_plain(session, file_id, tree_id, offset, length, charge, minimum);
    lemma_read_bytes(
        ReadRequest { file_id, offset: offset as u64, length: length as u32 },
        session.connection.message_ids.next,
        session.session_id,
        tree_id,
        charge,
        session.connection.credit_request(charge, minimum),
    );
    lemma_sent(
        session,
        session.signing_required,
        plain,
        "READ requires signing but the session has no signing key",
        8,
        tree_id,
        charge,
        minimum,
    );
    lemma_request_rides(session, session.signing_required, plain);
    lemma_rides_reads(session.request_signed(session.signing_required, plain), plain);
}

/// Whether a message asks for information about a file: the QUERY_INFO request with every option in
/// the field of its own name, charged for the longer of its input and its output.
pub open spec fn query_info_sent<T>(
    m: Seq<u8>,
    session: SessionConnection<T>,
    file_id: FileId,
    tree_id: u32,
    options: QueryInfoOptions,
) -> bool {
    &&& request_sent(
        m,
        session,
        session.signing_required,
        16,
        tree_id,
        u16_at(m, 6) as int,
        options.credit_request,
    )
    &&& charge_covers(
        u16_at(m, 6) as int,
        multi_credit_session(session),
        if options.output_buffer_length >= options.input_buffer@.len() {
            options.output_buffer_length as int
        } else {
            options.input_buffer@.len() as int
        },
    )
    &&& query_info_asked(
        m,
        file_id,
        options.info_type,
        options.file_info_class,
        options.output_buffer_length,
        options.additional_information,
        options.flags,
        options.input_buffer@,
    )
}

/// The message of a QUERY_INFO asks for just what the options ask for.
pub proof fn law_query_info_message<T>(
    session: SessionConnection<T>,
    file_id: FileId,
    tree_id: u32,
    options: QueryInfoOptions,
)
    requires
        query_info_begin_error(session, file_id, tree_id, options) is None,
    ensures
        query_info_sent(
            session.request_signed(
                session.signing_required,
                query_info_plain(session, file_id, tree_id, options),
            ),
            session,
            file_id,
            tree_id,
            options,
        ),
{
    let plain = query_info_plain(session, file_id, tree_id, options);
    let charge = query_info_charge(session, options);
    lemma_query_info_bytes(
        QueryInfoRequest {
            info_type: options.info_type,
            file_info_class: options.file_info_class,
            output_buffer_length: options.output_buffer_length,
            input_buffer: options.input_buffer,
            additional_information: options.additional_information,
            flags: options.flags,
            file_id,
        },
        session.connection.message_ids.next,
        session.session_id,
        tree_id,
        charge,
        session.connection.credit_request(charge, options.credit_request),
    );
    lemma_sent(
        session,
        session.signing_required,
        plain,
        "SMB query requires signing but the session has no signing key",
        16,
        tree_id,
        charge,
        options.credit_request,
    );
    lemma_request_rides(session, session.signing_required, plain);
    lemma_rides_reads(session.request_signed(session.signing_required, plain), plain);
}

/// Whether a message asks for entries of a directory: the QUERY_DIRECTORY request with every option
/// in the field of its own name, and the pattern as its name.
pub open spec fn query_directory_sent<T>(
    m: Seq<u8>,
    session: SessionConnection<T>,
    file_id: FileId,
    tree_id: u32,
    information_class: u8,
    flags: u8,
    file_index: u32,
    output_length: u32,
    pattern: Seq<char>,
    minimum: u16,
) -> bool {
    &&& request_sent(
        m,
        session,
        session.signing_required,
        14,
        tree_id,
        u16_at(m, 6) as int,
        minimum,
    )
    &&& charge_covers(
        u16_at(m, 6) as int,
        multi_credit_session(session),
        output_length as int,
    )
    &&& query_directory_asked(
        m,
        file_id,
        information_class,
        flags,
        file_index,
        output_length,
        pattern,
    )
}

/// The message of a QUERY_DIRECTORY asks for just what the options ask for.
pub proof fn law_query_directory_message<T>(
    session: SessionConnection<T>,
    file_id: FileId,
    tree_id: u32,
    options: QueryDirectoryOptions,
)
    requires
        query_directory_begin_error(session, file_id, tree_id, options) is None,
    ensures
        query_directory_sent(
            session.request_signed(
                session.signing_required,
                query_directory_plain(session, file_id, tree_id, options),
            ),
            session,
            file_id,
            tree_id,
            options.file_information_class,
            options.flags,
            options.file_index,
            options.output_buffer_length,
            options.file_name@,
            options.credit_request,
        ),
{
    let plain = query_directory_plain(session, file_id, tree_id, options);
    let charge = query_directory_charge(session, options);
    lemma_query_directory_bytes(
        QueryDirectoryRequest {
            file_information_class: options.file_information_class,
            flags: options.flags,
            file_index: options.file_index,
            file_id,
            file_name: options.file_name,
            output_buffer_length: options.output_buffer_length,
        },
        session.connection.message_ids.next,
        session.session_id,
        tree_id,
        charge,
        session.connection.credit_request(charge, options.credit_request),
    );
    lemma_sent(
        session,
        session.signing_required,
        plain,
        "SMB query requires signing but the session has no signing key",
        14,
        tree_id,
        charge,
        options.credit_request,
    );
    lemma_request_rides(session, session.signing_required, plain);
    lemma_rides_reads(session.request_signed(session.signing_required, plain), plain);
}

/// Whether a message carries a token of an exchange: the SESSION_SETUP request, unsigned and on no tree,
/// with the SessionId that is known so far, the configured security mode, capabilities and previous
/// session, and the token as its security buffer.
pub open spec fn session_setup_sent<T>(m: Seq<u8>, setup: SessionSetup<T>, token: Seq<u8>) -> bool {
    let negotiated = setup.connection.negotiated->0;
    &&& request_head(
        m,
        1,
        if negotiated.dialect != Dialect::Smb202 && negotiated.capabilities & 4 != 0 {
            1
        } else {
            0
        },
        u16_at(m, 14),
        setup.connection.message_ids.next,
        0,
        setup.session_id,
    )
    &&& u32_at(m, 16) == 0
    &&& credits_asked(
        u16_at(m, 14),
        setup.connection.credits->0,
        u16_at(m, 6) as int,
        setup.config.credit_request,
    )
    &&& session_setup_asked(
        m,
        setup.config.security_mode,
        setup.config.capabilities,
        setup.config.previous_session_id,
        token,
    )
}

/// The message that carries a token of an exchange: the SESSION_SETUP request, unsigned and on no
/// tree, with the SessionId that is known so far, the configured security mode, capabilities and
/// previous session, and the token as its security buffer.
pub proof fn law_session_setup_message<T>(
    setup: SessionSetup<T>,
    step: AuthStep,
    next: SessionSetup<T>,
    m: Seq<u8>,
)
    requires
        setup_sent(setup, step, next, m),
    ensures
        session_setup_sent(m, setup, step.token@),
        next.message_id == u64_at(m, 24),
{
    let charge = setup.connection.single_charge();
    lemma_session_setup_bytes(
        setup.config.security_mode,
        setup.config.capabilities,
        setup.config.previous_session_id,
        step.token@,
        setup.connection.message_ids.next,
        setup.session_id,
        charge,
        setup.connection.credit_request(charge, setup.config.credit_request),
    );
}

/// Whether a message cancels a request: the CANCEL request with the MessageId of the request that it
/// cancels, no charge and no credits, and the AsyncId, with its flag, bit 1, where there is one.
pub open spec fn cancel_sent<T>(
    m: Seq<u8>,
    session: SessionConnection<T>,
    message_id: u64,
    async_id: Option<u64>,
) -> bool {
    &&& m.len() == 68
    &&& u16_at(m, 4) == 64
    &&& u16_at(m, 6) == 0
    &&& u16_at(m, 12) == 12
    &&& u16_at(m, 14) == 0
    &&& u64_at(m, 24) == message_id
    &&& u64_at(m, 40) == session.session_id
    &&& u16_at(m, 64) == 4
    &&& u16_at(m, 66) == 0
    &&& match async_id {
        Some(async_id) => u64_at(m, 32) == async_id && u32_at(m, 16) == if session.signing_required {
            10int
        } else {
            2
        },
        None => u64_at(m, 32) == 0 && u32_at(m, 16) == if session.signing_required {
            8int
        } else {
            0
        },
    }
}

/// The message that cancels a request names just that request.
pub proof fn law_cancel_message<T>(session: SessionConnection<T>, pending: CancelablePending)
    requires
        session.signing_required ==> session.signing is Some,
    ensures
        cancel_sent(
            session.request_signed(session.signing_required, cancel_plain(session, pending)),
            session,
            pending.message_id,
            pending.async_state.async_id,
        ),
{
    broadcast use crate::bytes::group_byte_layout;

    let plain = cancel_plain(session, pending);
    let h = crate::wire::file_io::cancel_header(
        pending.message_id,
        session.session_id,
        pending.async_state.async_id,
    );
    crate::wire::header::lemma_header_len(h);
    let head = crate::wire::header::header_bytes(h);
    assert({
        &&& u16_at(head, 4) == 64
        &&& u16_at(head, 6) == 0
        &&& u16_at(head, 12) == 12
        &&& u16_at(head, 14) == 0
        &&& u32_at(head, 16) == h.flags
        &&& u64_at(head, 24) == pending.message_id
        &&& u64_at(head, 40) == session.session_id
        &&& match pending.async_state.async_id {
            Some(async_id) => u64_at(head, 32) == async_id,
            None => u32_at(head, 32) == 0 && u32_at(head, 36) == 0,
        }
    }) by {
        reveal(crate::wire::header::header_bytes);
    }
    assert(pending.async_state.async_id is None ==> u64_at(head, 32) == 0) by {
        reveal(u64_at);
    }
    assert(u16_at(plain, 64) == 4);
    assert(u16_at(plain, 66) == 0);
    lemma_request_rides(session, session.signing_required, plain);
    lemma_rides_reads(session.request_signed(session.signing_required, plain), plain);
    assert(0u32 | 8 == 8 && 2u32 | 8 == 10) by (bit_vector);
}

} // verus!
