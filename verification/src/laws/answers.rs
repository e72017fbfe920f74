//! Which responses are accepted, and what is taken from them, read from their bytes.

use crate::auth::provider::AuthMechanism;
use crate::bytes::begins_with;
use crate::bytes::u16_at;
use crate::bytes::u32_at;
use crate::bytes::u64_at;
use crate::client::close::close_finish_error;
use crate::client::close::close_info_of;
use crate::client::close::CloseInfo;
use crate::client::close::PendingClose;
use crate::client::connection::Connection;
use crate::client::durable_open::durable_opened;
use crate::client::durable_open::durable_reconnected;
use crate::client::durable_open::durable_scan;
use crate::client::durable_open::DurableFileHandle;
use crate::client::durable_open::PendingDurableOpen;
use crate::client::durable_open::PendingDurableReconnect;
use crate::client::error::ClientError;
use crate::client::file::open_finish_error;
use crate::client::file::opened_file_of;
use crate::client::file::FileView;
use crate::client::negotiate::negotiate_finish_error;
use crate::client::negotiate::negotiated_by;
use crate::client::negotiate::NegotiateConfig;
use crate::client::negotiate::NegotiatedParameters;
use crate::client::negotiate::PendingNegotiate;
use crate::client::query::query_output_of;
use crate::client::query::PendingQuery;
use crate::client::query::QueryKind;
use crate::client::read::read_payload_of;
use crate::client::read::read_refusal;
use crate::client::read_async::async_state_after;
use crate::client::read_async::read_response_phase;
use crate::client::read_async::AsyncReadState;
use crate::client::read_async::ReadResponsePhase;
use crate::client::session::guest_or_null;
use crate::client::session::session_id_after;
use crate::client::session::session_signs;
use crate::client::session::setup_receive_error;
use crate::client::session::SessionConnection;
use crate::client::session::SessionSetup;
use crate::client::signing::verify_error;
use crate::client::tree::tree_connect_finish_error;
use crate::client::tree::TreeHandle;
use crate::laws::limits::grants;
use crate::laws::limits::law_durable_grant;
use crate::wire::create::create_response_contexts;
use crate::wire::create::CreateContextView;
use crate::wire::create::DurableHandleResponseV2;
use crate::wire::header::header_error;
use crate::wire::header::header_of;
use crate::wire::header::protocol_id;
use crate::wire::negotiate::Dialect;
use crate::wire::session::session_setup_response_blob;
use crate::wire::tree::tree_connect_response_of;
use vstd::prelude::*;

verus! {

/// Whether bytes begin with an SMB2 header: 64 bytes with the identifier `FE 'S' 'M' 'B'`, the
/// structure size, and one of the nineteen commands.
pub open spec fn has_head(m: Seq<u8>) -> bool {
    &&& m.len() >= 64
    &&& m[0] == 0xFE
    &&& m[1] == 0x53
    &&& m[2] == 0x4D
    &&& m[3] == 0x42
    &&& u16_at(m, 4) == 64
    &&& u16_at(m, 12) <= 18
}

/// A header is read if and only if there is one, and every field of it at its own place. Bit 0 of the
/// flags marks a response, which has a status, bit 1 one that has an AsyncId in place of a tree.
pub proof fn law_header_is_read(m: Seq<u8>)
    ensures
        header_error(m) is None <==> has_head(m),
        header_error(m) is None ==> {
            let h = header_of(m);
            &&& h.command.code() == u16_at(m, 12)
            &&& h.credit_charge == u16_at(m, 6)
            &&& h.credits == u16_at(m, 14)
            &&& h.flags == u32_at(m, 16)
            &&& h.next_command == u32_at(m, 20)
            &&& h.message_id == u64_at(m, 24)
            &&& h.session_id == u64_at(m, 40)
            &&& h.status is Status <==> u32_at(m, 16) & 1 != 0
            &&& h.status is Status ==> h.status->Status_0 == u32_at(m, 8)
            &&& h.id is Async <==> u32_at(m, 16) & 2 != 0
            &&& h.id is Async ==> h.id->async_id == u64_at(m, 32)
            &&& h.id is Sync ==> h.id->tree_id == u32_at(m, 36) && h.id->process_id == u32_at(m, 32)
        },
{
    let id = protocol_id();
    if m.len() >= 64 {
        if begins_with(m, id) {
            assert(m.take(4)[0] == m[0] && m.take(4)[1] == m[1] && m.take(4)[2] == m[2] && m.take(
                4,
            )[3] == m[3]);
        }
        if m[0] == 0xFE && m[1] == 0x53 && m[2] == 0x4D && m[3] == 0x42 {
            assert(m.take(4) =~= id);
        }
    }
}

/// Whether the window of a connection can take the credits that a response grants.
pub open spec fn takes_grant<T>(connection: Connection<T>, m: Seq<u8>) -> bool {
    &&& connection.credits is Some
    &&& connection.credits->0.available + u16_at(m, 14) <= u32::MAX
}

/// Whether the signature of a response is in order: one that is there, bit 3 of the flags, is valid
/// under the key of the session, and one that is owed is there.
pub open spec fn signature_in_order<T>(session: SessionConnection<T>, m: Seq<u8>, owed: bool) -> bool {
    if u32_at(m, 16) & 8 != 0 {
        session.signing is Some && verify_error(
            session.signing->0.algorithm,
            session.signing->0.key@,
            m,
        ) is None
    } else {
        !owed
    }
}

/// Whether a message is the response of a server to a request of a session: a response, bit 0 of the
/// flags, to this command, with the MessageId of the request and the SessionId of the session, whose
/// grant can be taken and whose signature is in order.
pub open spec fn answers<T>(
    m: Seq<u8>,
    session: SessionConnection<T>,
    command: u16,
    message_id: u64,
) -> bool {
    &&& has_head(m)
    &&& u16_at(m, 12) == command
    &&& u32_at(m, 16) & 1 != 0
    &&& u64_at(m, 24) == message_id
    &&& u64_at(m, 40) == session.session_id
    &&& takes_grant(session.connection, m)
    &&& signature_in_order(session, m, session.signing_required)
}

/// Whether a response is on a tree: without an AsyncId, and with the TreeId.
pub open spec fn on_tree(m: Seq<u8>, tree_id: u32) -> bool {
    u32_at(m, 16) & 2 == 0 && u32_at(m, 36) == tree_id
}

/// Whether a message is the response that opens a file: it answers the CREATE request on its tree with
/// success, has the fixed part of its kind, contexts that can be read and a FileId that is not zero.
pub open spec fn opens_file<T>(
    m: Seq<u8>,
    session: SessionConnection<T>,
    message_id: u64,
    tree_id: u32,
) -> bool {
    &&& answers(m, session, 5, message_id)
    &&& on_tree(m, tree_id)
    &&& u32_at(m, 8) == 0
    &&& m.len() >= 152
    &&& u16_at(m, 64) == 89
    &&& create_response_contexts(m) is Some
    &&& u64_at(m, 128) != 0 || u64_at(m, 136) != 0
}

/// Whether a file is what a CREATE response says: its identifier stands at 128, and every other property
/// in the field of its own name.
pub open spec fn file_stands(file: FileView, m: Seq<u8>) -> bool {
    &&& file.file_id.persistent == u64_at(m, 128)
    &&& file.file_id.volatile == u64_at(m, 136)
    &&& file.oplock_level == m[66]
    &&& file.create_action == u32_at(m, 68)
    &&& file.creation_time == u64_at(m, 72)
    &&& file.last_access_time == u64_at(m, 80)
    &&& file.last_write_time == u64_at(m, 88)
    &&& file.change_time == u64_at(m, 96)
    &&& file.allocation_size == u64_at(m, 104)
    &&& file.end_of_file == u64_at(m, 112)
    &&& file.file_attributes == u32_at(m, 120)
}

/// A CREATE response is accepted if and only if it answers the request on its tree with success, has
/// the fixed part of its kind, contexts that can be read and a FileId that is not zero. The file has
/// its identifier from offset 128 and every other property from the field of its own name.
pub proof fn law_open_answer<T>(
    session: SessionConnection<T>,
    message_id: u64,
    tree_id: u32,
    path: Seq<char>,
    m: Seq<u8>,
)
    ensures
        open_finish_error(session, message_id, tree_id, m) is None <==> opens_file(
            m,
            session,
            message_id,
            tree_id,
        ),
        file_stands(opened_file_of(m, tree_id, path), m),
        opened_file_of(m, tree_id, path).tree_id == tree_id,
        opened_file_of(m, tree_id, path).path == path,
        open_finish_error(session, message_id, tree_id, m) is Some && answers(
            m,
            session,
            5,
            message_id,
        ) && on_tree(m, tree_id) && u32_at(m, 8) != 0 ==> open_finish_error(
            session,
            message_id,
            tree_id,
            m,
        ) == Some(ClientError::ServerStatus(u32_at(m, 8))),
{
    law_header_is_read(m);
}

/// Whether a message is the response that connects a tree: it answers the TREE_CONNECT request with
/// success, has the fixed part of its kind and gives a TreeId that is not zero.
pub open spec fn connects_tree<T>(m: Seq<u8>, session: SessionConnection<T>, message_id: u64) -> bool {
    &&& answers(m, session, 3, message_id)
    &&& u32_at(m, 8) == 0
    &&& m.len() >= 80
    &&& u16_at(m, 64) == 16
    &&& u32_at(m, 16) & 2 == 0
    &&& u32_at(m, 36) != 0
}

/// Whether a tree is what a TREE_CONNECT response says: its identifier stands in the header, and every
/// other property in the field of its own name.
pub open spec fn tree_stands(tree: TreeHandle, m: Seq<u8>) -> bool {
    &&& tree.tree_id == u32_at(m, 36)
    &&& tree.share_type == m[66]
    &&& tree.share_flags == u32_at(m, 68)
    &&& tree.capabilities == u32_at(m, 72)
    &&& tree.maximal_access == u32_at(m, 76)
}

/// A TREE_CONNECT response is accepted if and only if it answers the request with success, has the
/// fixed part of its kind and gives a TreeId that is not zero. The tree has its identifier from the
/// header and every other property from the field of its own name.
pub proof fn law_tree_connect_answer<T>(
    session: SessionConnection<T>,
    message_id: u64,
    m: Seq<u8>,
)
    ensures
        tree_connect_finish_error(session, message_id, m) is None <==> connects_tree(
            m,
            session,
            message_id,
        ),
        answers(m, session, 3, message_id) && u32_at(m, 8) != 0 ==> tree_connect_finish_error(
            session,
            message_id,
            m,
        ) == Some(ClientError::ServerStatus(u32_at(m, 8))),
        tree_connect_finish_error(session, message_id, m) is None ==> {
            let said = tree_connect_response_of(m);
            &&& said.header.id->tree_id == u32_at(m, 36)
            &&& said.share_type == m[66]
            &&& said.share_flags == u32_at(m, 68)
            &&& said.capabilities == u32_at(m, 72)
            &&& said.maximal_access == u32_at(m, 76)
        },
{
    law_header_is_read(m);
}

/// Whether a message is the response that closes a file: it answers the CLOSE request on its tree with
/// success and has the fixed part of its kind.
pub open spec fn closes_file<T>(m: Seq<u8>, session: SessionConnection<T>, pending: PendingClose) -> bool {
    &&& answers(m, session, 6, pending.message_id)
    &&& on_tree(m, pending.tree_id)
    &&& u32_at(m, 8) == 0
    &&& m.len() >= 124
    &&& u16_at(m, 64) == 60
}

/// Whether what is said of a closed file is what a CLOSE response says, each in the field of its own
/// name.
pub open spec fn close_stands(info: CloseInfo, m: Seq<u8>) -> bool {
    &&& info.has_postquery_attributes == (u16_at(m, 66) & 1 != 0)
    &&& info.creation_time == u64_at(m, 72)
    &&& info.last_access_time == u64_at(m, 80)
    &&& info.last_write_time == u64_at(m, 88)
    &&& info.change_time == u64_at(m, 96)
    &&& info.allocation_size == u64_at(m, 104)
    &&& info.end_of_file == u64_at(m, 112)
    &&& info.file_attributes == u32_at(m, 120)
}

/// A CLOSE response is accepted if and only if it answers the request on its tree with success and
/// has the fixed part of its kind. What it says of the file comes from the fields of their own names.
pub proof fn law_close_answer<T>(session: SessionConnection<T>, pending: PendingClose, m: Seq<u8>)
    ensures
        close_finish_error(session, pending, m) is None <==> closes_file(m, session, pending),
        close_stands(close_info_of(m), m),
        answers(m, session, 6, pending.message_id) && on_tree(m, pending.tree_id) && u32_at(m, 8)
            != 0 ==> close_finish_error(session, pending, m) == Some(
            ClientError::ServerStatus(u32_at(m, 8)),
        ),
{
    law_header_is_read(m);
}

/// The number of the command of a query.
pub open spec fn query_command(kind: QueryKind) -> u16 {
    match kind {
        QueryKind::Directory => 14,
        QueryKind::Info => 16,
    }
}

/// Whether a response says that a directory has no more entries, status 0x80000006.
pub open spec fn no_more_entries(m: Seq<u8>, pending: PendingQuery) -> bool {
    pending.kind == QueryKind::Directory && u32_at(m, 8) == 0x8000_0006
}

/// Whether a message is a response that gives the output of a query: it answers the query on its tree,
/// and either says that a directory has no more entries, or succeeds with an output inside the message,
/// behind the fixed part, and no longer than was asked for.
pub open spec fn answers_query<T>(m: Seq<u8>, session: SessionConnection<T>, pending: PendingQuery) -> bool {
    let at = u16_at(m, 66) as int;
    let n = u32_at(m, 68) as int;
    &&& answers(m, session, query_command(pending.kind), pending.message_id)
    &&& on_tree(m, pending.tree_id)
    &&& no_more_entries(m, pending) || {
        &&& u32_at(m, 8) == 0
        &&& m.len() >= 72
        &&& u16_at(m, 64) == 9
        &&& n == 0 || (72 <= at && at + n <= m.len())
        &&& n <= pending.output_buffer_length
    }
}

/// Whether an output is that of a response: nothing where a directory has no more entries, and else what
/// stands where the field at 66 says and is as long as the field at 68 says.
pub open spec fn output_stands(output: Seq<u8>, m: Seq<u8>, pending: PendingQuery) -> bool {
    let at = u16_at(m, 66) as int;
    let n = u32_at(m, 68) as int;
    if no_more_entries(m, pending) {
        output.len() == 0
    } else {
        output.len() == n && (n > 0 ==> output == m.subrange(at, at + n))
    }
}

/// A response to a query gives an output if and only if it answers the query on its tree, and either
/// says that a directory has no more entries, which gives nothing, or succeeds with an output inside
/// the message, behind the fixed part, and no longer than was asked for, which is what is given.
pub proof fn law_query_answer<T>(session: SessionConnection<T>, pending: PendingQuery, m: Seq<u8>)
    ensures
        query_output_of(session, pending, m) is Ok <==> answers_query(m, session, pending),
        query_output_of(session, pending, m) is Ok ==> output_stands(
            query_output_of(session, pending, m)->Ok_0,
            m,
            pending,
        ),
        answers(m, session, query_command(pending.kind), pending.message_id) && on_tree(
            m,
            pending.tree_id,
        ) && u32_at(m, 8) != 0 && !no_more_entries(m, pending) ==> query_output_of(
            session,
            pending,
            m,
        ) == Err::<Seq<u8>, _>(ClientError::ServerStatus(u32_at(m, 8))),
{
    law_header_is_read(m);
}

/// A READ response is taken if and only if it answers the request: with an AsyncId that is not zero
/// and stays the same, or, where the server has given none, on the tree and not as pending. It owes a
/// signature unless it is the interim response, pending with an AsyncId, which is the only one that
/// is waited through; the AsyncId is remembered.
pub proof fn law_read_answer<T>(
    session: SessionConnection<T>,
    tree_id: u32,
    message_id: u64,
    state: AsyncReadState,
    m: Seq<u8>,
)
    ensures
        ({
            let with_id = u32_at(m, 16) & 2 != 0;
            let interim = with_id && u32_at(m, 8) == 0x103;
            &&& read_refusal(session, tree_id, message_id, state, m) is None <==> {
                &&& has_head(m)
                &&& u16_at(m, 12) == 8
                &&& u32_at(m, 16) & 1 != 0
                &&& u64_at(m, 24) == message_id
                &&& u64_at(m, 40) == session.session_id
                &&& takes_grant(session.connection, m)
                &&& signature_in_order(session, m, session.signing_required && !interim)
                &&& if with_id {
                    u64_at(m, 32) != 0 && (state.async_id is Some ==> state.async_id->0 == u64_at(
                        m,
                        32,
                    ))
                } else {
                    state.async_id is None && u32_at(m, 8) != 0x103 && u32_at(m, 36) == tree_id
                }
            }
            &&& read_refusal(session, tree_id, message_id, state, m) is None ==> {
                &&& (read_response_phase(header_of(m)) == ReadResponsePhase::InterimPending)
                    == interim
                &&& async_state_after(state, header_of(m)).async_id == if with_id {
                    Some(u64_at(m, 32))
                } else {
                    state.async_id
                }
            }
        }),
{
    law_header_is_read(m);
}

/// The data of a READ response are taken if and only if it has the fixed part of its kind, they lie
/// inside it behind the fixed part, and they are no more than was asked for; they stand where the
/// byte at 66 says and are as long as the field at 68 says.
pub proof fn law_read_data(m: Seq<u8>, asked: int)
    ensures
        ({
            let at = m[66] as int;
            let n = u32_at(m, 68) as int;
            &&& read_payload_of(m, asked) is Ok <==> {
                &&& has_head(m)
                &&& u16_at(m, 12) == 8
                &&& m.len() >= 80
                &&& u16_at(m, 64) == 17
                &&& n == 0 || (80 <= at && at + n <= m.len())
                &&& n <= asked
            }
            &&& read_payload_of(m, asked) is Ok ==> read_payload_of(m, asked)->Ok_0.len() == n
            &&& read_payload_of(m, asked) is Ok && n > 0 ==> read_payload_of(m, asked)->Ok_0
                == m.subrange(at, at + n)
        }),
{
    law_header_is_read(m);
}

/// Whether a message is a response that carries an exchange on: it answers the SESSION_SETUP request with
/// success or asks for more, status 0xC0000016, has the fixed part of its kind and a token inside it, and
/// does not change a SessionId that was assigned; one that asks for more must have assigned one.
pub open spec fn answers_setup<T>(m: Seq<u8>, setup: SessionSetup<T>) -> bool {
    let at = u16_at(m, 68) as int;
    let n = u16_at(m, 70) as int;
    let given = u64_at(m, 40);
    &&& has_head(m)
    &&& u16_at(m, 12) == 1
    &&& u32_at(m, 16) & 1 != 0
    &&& u64_at(m, 24) == setup.message_id
    &&& takes_grant(setup.connection, m)
    &&& u32_at(m, 8) == 0 || u32_at(m, 8) == 0xC000_0016
    &&& m.len() >= 72
    &&& u16_at(m, 64) == 9
    &&& n == 0 || (72 <= at && at + n <= m.len())
    &&& setup.session_id == 0 || given == setup.session_id
    &&& u32_at(m, 8) == 0xC000_0016 ==> setup.session_id != 0 || given != 0
}

/// Whether a token is that of a SESSION_SETUP response: it stands where the field at 68 says and is as
/// long as the field at 70 says.
pub open spec fn token_stands(token: Seq<u8>, m: Seq<u8>) -> bool {
    let at = u16_at(m, 68) as int;
    let n = u16_at(m, 70) as int;
    token.len() == n && (n > 0 ==> token == m.subrange(at, at + n))
}

/// A SESSION_SETUP response is accepted if and only if it answers the request with success or asks
/// for more, has the fixed part of its kind and a token inside it, and does not change a SessionId
/// that was assigned; one that asks for more must have assigned one. The token stands where the field
/// at 68 says and is as long as the field at 70 says.
pub proof fn law_session_setup_answer<T>(setup: SessionSetup<T>, m: Seq<u8>)
    ensures
        setup_receive_error(setup, m) is None <==> answers_setup(m, setup),
        setup_receive_error(setup, m) is None ==> token_stands(session_setup_response_blob(m), m),
        setup_receive_error(setup, m) is None ==> session_id_after(setup.session_id, u64_at(m, 40))
            == if setup.session_id != 0 {
            setup.session_id
        } else {
            u64_at(m, 40)
        },
{
    law_header_is_read(m);
}

/// A session signs its messages if and only if signing was negotiated as required and the session is
/// neither a guest's, bit 0 of its flags, nor a null session, bit 1, nor anonymous, nor encrypted,
/// bit 2.
pub proof fn law_session_signs(
    negotiated: NegotiatedParameters,
    mechanism: AuthMechanism,
    session_flags: u16,
)
    ensures
        guest_or_null(mechanism, session_flags) <==> session_flags & 1 != 0 || session_flags & 2
            != 0 || mechanism == AuthMechanism::Anonymous,
        session_signs(negotiated, mechanism, session_flags) <==> {
            &&& negotiated.require_signing
            &&& session_flags & 1 == 0
            &&& session_flags & 2 == 0
            &&& session_flags & 4 == 0
            &&& mechanism != AuthMechanism::Anonymous
        },
{
}

/// Which dialect a revision number stands for.
pub open spec fn dialect_numbered(dialect: Dialect, number: u16) -> bool {
    match dialect {
        Dialect::Smb202 => number == 0x0202,
        Dialect::Smb210 => number == 0x0210,
        Dialect::Smb300 => number == 0x0300,
        Dialect::Smb302 => number == 0x0302,
        Dialect::Smb311 => number == 0x0311,
    }
}

/// Whether parameters are what a NEGOTIATE response says: a dialect that was offered, by its revision
/// number at 68, limits that are not zero, and every other one in the field of its own name. Signing is
/// required where either side requires it, bit 1 of its security mode.
pub open spec fn parameters_stand(
    parameters: NegotiatedParameters,
    config: NegotiateConfig,
    m: Seq<u8>,
) -> bool {
    &&& dialect_numbered(parameters.dialect, u16_at(m, 68))
    &&& config.dialects@.contains(parameters.dialect)
    &&& parameters.security_mode == u16_at(m, 66)
    &&& parameters.server_guid@ == m.subrange(72, 88)
    &&& parameters.capabilities == u32_at(m, 88)
    &&& parameters.max_transact_size == u32_at(m, 92)
    &&& parameters.max_read_size == u32_at(m, 96)
    &&& parameters.max_write_size == u32_at(m, 100)
    &&& parameters.initial_credits == u16_at(m, 14)
    &&& parameters.max_transact_size > 0
    &&& parameters.max_read_size > 0
    &&& parameters.max_write_size > 0
    &&& parameters.initial_credits > 0
    &&& parameters.require_signing <==> u16_at(m, 66) & 2 != 0 || config.security_mode & 2 != 0
}

/// What an accepted NEGOTIATE response gives: a dialect that was offered, by its revision number at
/// 68, limits that are not zero, and every parameter from the field of its own name. Signing is
/// required where either side requires it, bit 1 of its security mode.
pub proof fn law_negotiate_answer(
    parameters: NegotiatedParameters,
    config: NegotiateConfig,
    pending: PendingNegotiate,
    m: Seq<u8>,
)
    requires
        negotiate_finish_error(config, pending, m) is None,
        negotiated_by(parameters, config, m),
    ensures
        has_head(m),
        u16_at(m, 12) == 0,
        u32_at(m, 16) & 1 != 0,
        u32_at(m, 8) == 0,
        u64_at(m, 24) == pending.message_id,
        m.len() >= 128,
        u16_at(m, 64) == 65,
        parameters_stand(parameters, config, m),
{
    law_header_is_read(m);
}

/// Whether a grant is the one that contexts give: exactly one of them is named `DH2Q`, and it gives the
/// timeout at 0 and the flags at 4.
pub open spec fn grant_stands(
    contexts: Seq<CreateContextView>,
    i: int,
    timeout_ms: u32,
    flags: u32,
) -> bool {
    &&& 0 <= i < contexts.len()
    &&& grants(contexts[i])
    &&& contexts[i].data.len() >= 8
    &&& timeout_ms == u32_at(contexts[i].data, 0)
    &&& flags == u32_at(contexts[i].data, 4)
    &&& forall|j: int| 0 <= j < contexts.len() && grants(#[trigger] contexts[j]) ==> j == i
}

/// Whether none of the contexts is named `DH2Q`.
pub open spec fn nothing_granted(contexts: Seq<CreateContextView>) -> bool {
    forall|j: int| 0 <= j < contexts.len() ==> !grants(#[trigger] contexts[j])
}

/// A scan that knows a grant keeps it, and only where no other is found.
proof fn lemma_scan_with_a_grant(contexts: Seq<CreateContextView>, known: DurableHandleResponseV2)
    ensures
        durable_scan(contexts, Some(known)) is Ok <==> nothing_granted(contexts),
        durable_scan(contexts, Some(known)) is Ok ==> durable_scan(contexts, Some(known))->Ok_0
            == Some(known),
    decreases contexts.len(),
{
    if contexts.len() > 0 {
        let rest = contexts.drop_first();
        lemma_scan_with_a_grant(rest, known);
        assert(contexts =~= seq![contexts[0]] + rest);
        law_durable_grant(contexts[0], rest, Some(known));
        if nothing_granted(contexts) {
            assert forall|j: int| 0 <= j < rest.len() implies !grants(#[trigger] rest[j]) by {
                assert(rest[j] == contexts[j + 1]);
            }
        }
        if nothing_granted(rest) && !grants(contexts[0]) {
            assert forall|j: int| 0 <= j < contexts.len() implies !grants(
                #[trigger] contexts[j],
            ) by {
                if j > 0 {
                    assert(contexts[j] == rest[j - 1]);
                }
            }
        }
    }
}

/// What a scan finds among contexts: nothing where none is named `DH2Q`, and else the one that is.
proof fn lemma_scan(contexts: Seq<CreateContextView>) -> (i: int)
    ensures
        durable_scan(contexts, None) == Ok::<Option<DurableHandleResponseV2>, ClientError>(None)
            <==> nothing_granted(contexts),
        durable_scan(contexts, None) is Ok && durable_scan(contexts, None)->Ok_0 is Some
            ==> grant_stands(
            contexts,
            i,
            durable_scan(contexts, None)->Ok_0->0.timeout_ms,
            durable_scan(contexts, None)->Ok_0->0.flags,
        ),
    decreases contexts.len(),
{
    if contexts.len() == 0 {
        0
    } else {
        let rest = contexts.drop_first();
        let first = contexts[0];
        assert(contexts =~= seq![first] + rest);
        law_durable_grant(first, rest, None);
        assert(forall|j: int| 0 < j < contexts.len() ==> #[trigger] contexts[j] == rest[j - 1]);
        assert(forall|j: int| 0 <= j < rest.len() ==> #[trigger] rest[j] == contexts[j + 1]);
        if grants(first) {
            if first.data.len() >= 8 {
                lemma_scan_with_a_grant(
                    rest,
                    DurableHandleResponseV2 {
                        timeout_ms: u32_at(first.data, 0),
                        flags: u32_at(first.data, 4),
                    },
                );
            }
            0
        } else {
            lemma_scan(rest) + 1
        }
    }
}

/// A durable open succeeds only on a response that opens the file and grants the handle in exactly one
/// context, and a persistent one only where the grant says so, bit 1 of its flags. The handle is of the
/// file of the response, keeps what was asked for, and has the timeout and the flags of the grant.
pub proof fn law_durable_open_answer<T>(
    r: Result<DurableFileHandle, ClientError>,
    session: SessionConnection<T>,
    pending: PendingDurableOpen,
    m: Seq<u8>,
) -> (i: int)
    requires
        durable_opened(r, session, pending, m),
        r is Ok,
    ensures
        opens_file(m, session, pending.open.message_id, pending.open.tree_id),
        file_stands(r->Ok_0@.file, m),
        r->Ok_0@.file.tree_id == pending.open.tree_id,
        r->Ok_0@.file.path == pending.open.path@,
        r->Ok_0@.create_guid == pending.create_guid@,
        r->Ok_0@.open_options == pending.open_options,
        grant_stands(
            create_response_contexts(m)->0,
            i,
            r->Ok_0@.server_timeout_ms,
            r->Ok_0@.server_flags,
        ),
        pending.persistent ==> r->Ok_0@.server_flags & 2 != 0,
{
    law_open_answer(
        session,
        pending.open.message_id,
        pending.open.tree_id,
        pending.open.path@,
        m,
    );
    lemma_scan(create_response_contexts(m)->0)
}

/// A durable open fails only where the response does not open the file, where the grant is missing, or
/// cannot be read, or where a persistent handle was asked for and not granted.
pub proof fn law_durable_open_is_granted<T>(
    r: Result<DurableFileHandle, ClientError>,
    session: SessionConnection<T>,
    pending: PendingDurableOpen,
    m: Seq<u8>,
    first: CreateContextView,
)
    requires
        durable_opened(r, session, pending, m),
        opens_file(m, session, pending.open.message_id, pending.open.tree_id),
        create_response_contexts(m) == Some(seq![first]),
        grants(first),
        first.data.len() >= 8,
    ensures
        r is Ok <==> !pending.persistent || u32_at(first.data, 4) & 2 != 0,
{
    law_open_answer(
        session,
        pending.open.message_id,
        pending.open.tree_id,
        pending.open.path@,
        m,
    );
    law_durable_grant(first, Seq::empty(), None);
    law_durable_grant(
        first,
        Seq::empty(),
        Some(
            DurableHandleResponseV2 {
                timeout_ms: u32_at(first.data, 0),
                flags: u32_at(first.data, 4),
            },
        ),
    );
    assert(seq![first] + Seq::empty() =~= seq![first]);
}

/// A durable reconnect succeeds only on a response that opens the file. The handle keeps the GUID and the
/// options it had; its timeout and flags are those of the one context that grants anew, or stay where
/// there is none. A persistent handle, bit 1 of its flags, stays persistent.
pub proof fn law_durable_reconnect_answer<T>(
    r: Result<DurableFileHandle, ClientError>,
    session: SessionConnection<T>,
    pending: PendingDurableReconnect,
    m: Seq<u8>,
) -> (i: int)
    requires
        durable_reconnected(r, session, pending, m),
        r is Ok,
    ensures
        opens_file(m, session, pending.open.message_id, pending.open.tree_id),
        file_stands(r->Ok_0@.file, m),
        r->Ok_0@.file.tree_id == pending.open.tree_id,
        r->Ok_0@.file.path == pending.open.path@,
        r->Ok_0@.create_guid == pending.create_guid@,
        r->Ok_0@.open_options == pending.open_options,
        nothing_granted(create_response_contexts(m)->0) ==> r->Ok_0@.server_timeout_ms
            == pending.server_timeout_ms && r->Ok_0@.server_flags == pending.server_flags,
        !nothing_granted(create_response_contexts(m)->0) ==> grant_stands(
            create_response_contexts(m)->0,
            i,
            r->Ok_0@.server_timeout_ms,
            r->Ok_0@.server_flags,
        ),
        pending.server_flags & 2 != 0 ==> r->Ok_0@.server_flags & 2 != 0,
{
    law_open_answer(
        session,
        pending.open.message_id,
        pending.open.tree_id,
        pending.open.path@,
        m,
    );
    lemma_scan(create_response_contexts(m)->0)
}

} // verus!
