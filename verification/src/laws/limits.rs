//! Which requests are refused, what requests cost, and how the credit window moves.

use crate::bytes::u16_at;
use crate::bytes::u32_at;
use crate::bytes::u64_at;
use crate::client::close::close_refusal;
use crate::client::connection::Connection;
use crate::client::credits::credit_cost;
use crate::client::credits::CreditManager;
use crate::client::durable_open::durable_refusal;
use crate::client::durable_open::durable_scan;
use crate::client::durable_open::open_granted;
use crate::client::error::ClientError;
use crate::client::file::open_answer_error;
use crate::client::file::open_charged;
use crate::client::file::open_refusal;
use crate::client::file::read_existing_random_options;
use crate::client::file::relative_path_of;
use crate::client::file::PendingOpen;
use crate::client::negotiate::NegotiateConfig;
use crate::client::query::query_charge_of;
use crate::client::query::query_directory_refusal;
use crate::client::query::query_info_refusal;
use crate::client::query::QueryDirectoryOptions;
use crate::client::query::QueryInfoOptions;
use crate::client::read::credit_limit_of;
use crate::client::read::read_charge_of;
use crate::client::read::read_charged;
use crate::client::read::smaller;
use crate::client::session::SessionConnection;
use crate::client::signing::SigningAlgorithm;
use crate::client::tree::tree_connect_refusal;
use crate::client::tree::TreeConnectOptions;
use crate::laws::answers::law_header_is_read;
use crate::laws::messages::charge_covers;
use crate::laws::messages::multi_credit_session;
use crate::wire::create::CreateContextView;
use crate::wire::create::DurableHandleResponseV2;
use crate::wire::error::WireError;
use crate::wire::header::header_error;
use crate::wire::header::header_of;
use crate::wire::negotiate::Dialect;
use vstd::prelude::*;

verus! {

/// Of two numbers the smaller is one of them, and above neither.
pub proof fn law_smaller(a: int, b: int)
    ensures
        smaller(a, b) <= a,
        smaller(a, b) <= b,
        smaller(a, b) == a || smaller(a, b) == b,
{
}

/// A READ is charged one credit for each begun unit of 64 KiB, where requests may cost more than one,
/// and nothing otherwise. It cannot be charged only where it is empty or would cost more than the
/// field holds.
pub proof fn law_read_charge(multi_credit: bool, length: int)
    requires
        length >= 0,
    ensures
        read_charge_of(multi_credit, length) is Ok <==> !multi_credit || 0 < length <= 65_536
            * 65_535,
        read_charge_of(multi_credit, length) is Ok && length > 0 ==> charge_covers(
            read_charge_of(multi_credit, length)->Ok_0 as int,
            multi_credit,
            length,
        ),
{
}

/// A query is charged one credit for each begun unit of 64 KiB of its payload, where requests may cost
/// more than one, and nothing otherwise.
pub proof fn law_query_charge(multi_credit: bool, payload: u32)
    ensures
        query_charge_of(multi_credit, payload) is Ok <==> !multi_credit || payload <= 65_536
            * 65_535,
        query_charge_of(multi_credit, payload) is Ok ==> charge_covers(
            query_charge_of(multi_credit, payload)->Ok_0 as int,
            multi_credit,
            payload as int,
        ),
{
}

/// The available credits cover 64 KiB each where requests may cost more than one, and otherwise one
/// unit as long as there is any.
pub proof fn law_credit_limit(multi_credit: bool, credits: u32)
    ensures
        credits == 0 ==> credit_limit_of(multi_credit, credits) == 0,
        credits > 0 && !multi_credit ==> credit_limit_of(multi_credit, credits) == 65_536,
        multi_credit && credits * 65_536 <= usize::MAX ==> credit_limit_of(multi_credit, credits)
            == credits * 65_536,
        multi_credit && credits * 65_536 > usize::MAX ==> credit_limit_of(multi_credit, credits)
            == usize::MAX,
{
}

/// A request that is charged pays its charge, or one credit where it has none, and takes as many
/// MessageIds: its own is the next one, and the next request has the one behind its last. It is
/// refused if and only if the credits are not there or the MessageIds are at their end.
pub proof fn law_charge_is_exact<T>(connection: Connection<T>, charge: u16)
    ensures
        ({
            let cost: int = if charge == 0 {
                1
            } else {
                charge as int
            };
            let after = connection.charged(charge);
            &&& credit_cost(charge) == cost
            &&& connection.charge_error(charge) is None <==> {
                &&& connection.credits is Some
                &&& cost <= connection.credits->0.available
                &&& connection.message_ids.next + cost <= u64::MAX
            }
            &&& connection.charge_error(charge) is None ==> {
                &&& after.credits is Some
                &&& after.credits->0.available == connection.credits->0.available - cost
                &&& after.credits->0.target == connection.credits->0.target
                &&& after.message_ids.next == connection.message_ids.next + cost
                &&& after.negotiated == connection.negotiated
                &&& after.preauth_hash == connection.preauth_hash
                &&& after.transport == connection.transport
            }
        }),
{
}

/// A grant adds just its credits to the window and changes nothing else; it is refused if and only if
/// there is no window or it would overflow.
pub proof fn law_grant_is_exact<T>(connection: Connection<T>, credits: u16)
    ensures
        connection.grant_error(credits) is None <==> connection.credits is Some
            && connection.credits->0.available + credits <= u32::MAX,
        connection.grant_error(credits) is None ==> connection.granted(credits) == (Connection {
            credits: Some(
                CreditManager {
                    available: (connection.credits->0.available + credits) as u32,
                    target: connection.credits->0.target,
                },
            ),
            ..connection
        }),
        connection.grant_error(credits) is Some ==> connection.granted(credits) == connection,
{
}

/// How many credits a request asks for is the largest of one, the minimum and what is missing to the
/// target, as far as sixteen bits hold it.
pub proof fn law_credit_request(window: CreditManager, minimum: u16)
    ensures
        ({
            let asked = window.hint(minimum);
            let missing = window.target - window.available;
            &&& asked >= 1
            &&& asked >= minimum
            &&& asked >= missing || asked == 65_535
            &&& asked == 1 || asked == minimum || asked == missing || (missing > 65_535 && asked
                == 65_535)
        }),
{
}

/// A path is accepted if and only if it is not empty, does not begin with a separator and holds no NUL.
pub proof fn law_accepted_paths(path: Seq<char>)
    ensures
        relative_path_of(path) is Ok <==> {
            &&& path.len() > 0
            &&& path[0] != '/'
            &&& path[0] != '\\'
            &&& forall|i: int| 0 <= i < path.len() ==> #[trigger] path[i] != '\0'
        },
{
    if path.contains('\0') {
        let i = choose|i: int| 0 <= i < path.len() && path[i] == '\0';
        assert(path[i] == '\0');
    } else {
        assert forall|i: int| 0 <= i < path.len() implies #[trigger] path[i] != '\0' by {}
    }
}

/// Whether a session encrypts: bit 2 of its flags.
pub open spec fn encrypts<T>(session: SessionConnection<T>) -> bool {
    session.session_flags & 4 != 0
}

/// Opening and closing are refused before anything is charged if and only if the session encrypts or
/// has negotiated nothing, and opening also where its path is not accepted.
pub proof fn law_open_and_close_refusals<T>(session: SessionConnection<T>, path: Seq<char>)
    ensures
        open_refusal(session, path) is None <==> relative_path_of(path) is Ok && !encrypts(session)
            && session.connection.negotiated is Some,
        close_refusal(session) is None <==> !encrypts(session) && session.connection.negotiated
            is Some,
{
}

/// TREE_CONNECT is refused before anything is charged if and only if the session encrypts or has
/// negotiated nothing, or flags are set: any before SMB 3.1.1, and there the extension, bit 2.
pub proof fn law_tree_connect_refusal<T>(
    session: SessionConnection<T>,
    options: TreeConnectOptions,
)
    ensures
        tree_connect_refusal(session, options) is None <==> {
            &&& session.connection.negotiated is Some
            &&& !encrypts(session)
            &&& options.flags == 0 || session.connection.negotiated->0.dialect == Dialect::Smb311
            &&& options.flags & 4 == 0
        },
{
    assert(0u16 & 4 == 0) by (bit_vector);
}

/// A query is refused before anything is charged if and only if the session encrypts or has negotiated
/// nothing, its output is empty or above the negotiated limit, or its payload costs more than it may:
/// one unit of 64 KiB, or as many as the charge holds where requests may cost more than one credit.
pub proof fn law_query_refusals<T>(
    session: SessionConnection<T>,
    info: QueryInfoOptions,
    directory: QueryDirectoryOptions,
)
    ensures
        query_info_refusal(session, info) is None <==> {
            &&& !encrypts(session)
            &&& session.connection.negotiated is Some
            &&& 0 < info.output_buffer_length
            &&& info.output_buffer_length <= session.connection.negotiated->0.max_transact_size
            &&& info.input_buffer@.len() <= u32::MAX
            &&& if multi_credit_session(session) {
                info.output_buffer_length <= 65_536 * 65_535 && info.input_buffer@.len() <= 65_536
                    * 65_535
            } else {
                info.output_buffer_length <= 65_536 && info.input_buffer@.len() <= 65_536
            }
        },
        query_directory_refusal(session, directory) is None <==> {
            &&& !encrypts(session)
            &&& session.connection.negotiated is Some
            &&& 0 < directory.output_buffer_length
            &&& directory.output_buffer_length
                <= session.connection.negotiated->0.max_transact_size
            &&& directory.output_buffer_length <= if multi_credit_session(session) {
                65_536int * 65_535
            } else {
                65_536int
            }
        },
{
}

/// Durable handles are refused if and only if nothing or a dialect before SMB 3 was negotiated, or a
/// persistent one is asked for and the server, bit 4 of its capabilities, or the share, bit 4 of its
/// own, lacks them.
pub proof fn law_durable_refusal<T>(
    session: SessionConnection<T>,
    tree_capabilities: u32,
    persistent: bool,
)
    ensures
        durable_refusal(session, tree_capabilities, persistent) is None <==> {
            let negotiated = session.connection.negotiated->0;
            &&& session.connection.negotiated is Some
            &&& negotiated.dialect != Dialect::Smb202
            &&& negotiated.dialect != Dialect::Smb210
            &&& persistent ==> negotiated.capabilities & 16 != 0 && tree_capabilities & 16 != 0
        },
{
}

/// Whether a context grants a durable handle: it is named `DH2Q`.
pub open spec fn grants(c: CreateContextView) -> bool {
    c.name == seq![0x44u8, 0x48u8, 0x32u8, 0x51u8]
}

/// The grant of a durable handle is looked for in every context, in any order with others: where none
/// is named `DH2Q` what is known stays, and one that is gives its timeout at 0 and its flags at 4, once.
pub proof fn law_durable_grant(
    first: CreateContextView,
    rest: Seq<CreateContextView>,
    known: Option<DurableHandleResponseV2>,
)
    ensures
        durable_scan(Seq::empty(), known) == Ok::<_, ClientError>(known),
        !grants(first) ==> durable_scan(seq![first] + rest, known) == durable_scan(rest, known),
        grants(first) && known is Some ==> durable_scan(seq![first] + rest, known) is Err,
        grants(first) && known is None && first.data.len() < 8 ==> durable_scan(
            seq![first] + rest,
            known,
        ) == Err::<Option<DurableHandleResponseV2>, _>(
            ClientError::Wire(WireError::Truncated("the durable handle response")),
        ),
        grants(first) && known is None && first.data.len() >= 8 ==> durable_scan(
            seq![first] + rest,
            known,
        ) == durable_scan(
            rest,
            Some(
                DurableHandleResponseV2 {
                    timeout_ms: u32_at(first.data, 0),
                    flags: u32_at(first.data, 4),
                },
            ),
        ),
{
    let all = seq![first] + rest;
    assert(all[0] == first);
    assert(all.drop_first() =~= rest);
}

/// The usual way to open a file asks for read access alone, 0x80000000, lets others read, write and
/// delete, 7, takes a file that exists, 1, and no directory, 0x40, at random places, 0x800, without an
/// oplock, as an impersonated user, 2.
pub proof fn law_usual_open()
    ensures
        ({
            let options = read_existing_random_options();
            &&& options.requested_oplock_level == 0
            &&& options.impersonation_level == 2
            &&& options.desired_access == 0x8000_0000u32
            &&& options.file_attributes == 0
            &&& options.share_access == 7
            &&& options.create_disposition == 1
            &&& options.create_options == 0x840
            &&& options.credit_request == 16
        }),
{
    assert(1u32 | 2 | 4 == 7 && 0x40u32 | 0x800 == 0x840) by (bit_vector);
}

/// The usual way to negotiate offers every dialect from SMB 2.0.2 to 3.1.1, signing but not as required,
/// 1, large transfers, 4, and AES-CMAC before HMAC-SHA256.
pub proof fn law_usual_negotiation(config: NegotiateConfig)
    requires
        config.is_modern(),
    ensures
        config.dialects@ == seq![
            Dialect::Smb202,
            Dialect::Smb210,
            Dialect::Smb300,
            Dialect::Smb302,
            Dialect::Smb311,
        ],
        config.security_mode == 1,
        config.capabilities == 4,
        config.signing_algorithms@ == seq![SigningAlgorithm::AesCmac, SigningAlgorithm::HmacSha256],
        config.credit_request == 64,
{
}

/// Whether a session has paid for a message that it sent, and nothing else has changed of it: the message
/// has the next MessageId, and the CreditCharge at 6, or one where that is zero, is gone from the
/// credits and from the MessageIds.
pub open spec fn paid_for<T>(
    before: SessionConnection<T>,
    after: SessionConnection<T>,
    m: Seq<u8>,
) -> bool {
    let charge = u16_at(m, 6) as int;
    let cost = if charge == 0 {
        1
    } else {
        charge
    };
    &&& u64_at(m, 24) == before.connection.message_ids.next
    &&& after.connection.message_ids.next == before.connection.message_ids.next + cost
    &&& after.connection.credits is Some
    &&& after.connection.credits->0.available == before.connection.credits->0.available - cost
    &&& after.connection.credits->0.target == before.connection.credits->0.target
    &&& after.connection.negotiated == before.connection.negotiated
    &&& after.connection.preauth_hash == before.connection.preauth_hash
    &&& after.connection.transport == before.connection.transport
    &&& same_session(before, after)
}

/// Whether a session has taken the credits that a response grants at 14, and nothing else has changed of it.
pub open spec fn credited<T>(
    before: SessionConnection<T>,
    after: SessionConnection<T>,
    m: Seq<u8>,
) -> bool {
    &&& after.connection.credits is Some
    &&& after.connection.credits->0.available == before.connection.credits->0.available + u16_at(
        m,
        14,
    )
    &&& after.connection.credits->0.target == before.connection.credits->0.target
    &&& after.connection.message_ids == before.connection.message_ids
    &&& after.connection.negotiated == before.connection.negotiated
    &&& after.connection.preauth_hash == before.connection.preauth_hash
    &&& after.connection.transport == before.connection.transport
    &&& same_session(before, after)
}

/// Whether a session is the same but for its connection.
pub open spec fn same_session<T>(before: SessionConnection<T>, after: SessionConnection<T>) -> bool {
    &&& after.session_id == before.session_id
    &&& after.session_flags == before.session_flags
    &&& after.mechanism == before.mechanism
    &&& after.session_key == before.session_key
    &&& after.signing == before.signing
    &&& after.signing_required == before.signing_required
}

/// A session whose connection was charged what a message announces has paid for the message.
pub proof fn law_charged_message_is_paid_for<T>(
    session: SessionConnection<T>,
    charge: u16,
    m: Seq<u8>,
)
    requires
        session.connection.charge_error(charge) is None,
        u16_at(m, 6) == charge,
        u64_at(m, 24) == session.connection.message_ids.next,
    ensures
        paid_for(
            session,
            SessionConnection { connection: session.connection.charged(charge), ..session },
            m,
        ),
{
    law_charge_is_exact(session.connection, charge);
}

/// A session whose connection was granted what a response says has taken its credits.
pub proof fn law_granted_response_is_credited<T>(session: SessionConnection<T>, m: Seq<u8>)
    requires
        header_error(m) is None,
        session.connection.credits is Some,
        session.connection.credits->0.available + u16_at(m, 14) <= u32::MAX,
    ensures
        credited(
            session,
            SessionConnection {
                connection: session.connection.granted(header_of(m).credits),
                ..session
            },
            m,
        ),
{
    law_header_is_read(m);
    law_grant_is_exact(session.connection, u16_at(m, 14));
}

/// A file that is opened is paid for, and a read chunk too; the response to either is credited, and to a
/// durable open as to any other.
pub proof fn law_opens_and_reads_are_accounted_for<T>(
    session: SessionConnection<T>,
    path: Seq<char>,
    multi_credit: bool,
    length: int,
    opened: Seq<u8>,
    read: Seq<u8>,
    pending: PendingOpen,
    m: Seq<u8>,
)
    requires
        open_refusal(session, path) is None,
        session.connection.charge_error(session.connection.single_charge()) is None,
        u16_at(opened, 6) == session.connection.single_charge(),
        u64_at(opened, 24) == session.connection.message_ids.next,
        read_charge_of(multi_credit, length) is Ok,
        session.connection.charge_error(read_charge_of(multi_credit, length)->Ok_0) is None,
        u16_at(read, 6) == read_charge_of(multi_credit, length)->Ok_0,
        u64_at(read, 24) == session.connection.message_ids.next,
        open_answer_error(session, pending.message_id, pending.tree_id, m) is None,
        session.connection.grant_error(u16_at(m, 14)) is None,
    ensures
        paid_for(session, open_charged(session, path), opened),
        paid_for(session, read_charged(session, multi_credit, length), read),
        credited(session, open_granted(session, pending, m), m),
{
    law_charged_message_is_paid_for(session, session.connection.single_charge(), opened);
    law_charged_message_is_paid_for(session, read_charge_of(multi_credit, length)->Ok_0, read);
    law_header_is_read(m);
    law_grant_is_exact(session.connection, u16_at(m, 14));
    law_granted_response_is_credited(session, m);
}

} // verus!
