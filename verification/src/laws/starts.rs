//! Which operations begin: what a connection, a session and a request need for it, and nothing else.

use crate::client::close::close_begin_error;
use crate::client::close::close_plain;
use crate::client::close::CloseOptions;
use crate::client::connection::Connection;
use crate::client::file::create_request_of;
use crate::client::file::open_begin_error;
use crate::client::file::open_plain;
use crate::client::file::relative_path_of;
use crate::client::file::FileOpenOptions;
use crate::client::negotiate::negotiate_begin_error;
use crate::client::negotiate::offered_request_of;
use crate::client::negotiate::NegotiateConfig;
use crate::client::query::query_directory_begin_error;
use crate::client::query::query_directory_charge;
use crate::client::query::query_directory_plain;
use crate::client::query::query_directory_refusal;
use crate::client::query::query_info_begin_error;
use crate::client::query::query_info_charge;
use crate::client::query::query_info_plain;
use crate::client::query::query_info_refusal;
use crate::client::query::QueryDirectoryOptions;
use crate::client::query::QueryInfoOptions;
use crate::client::read::issue_error;
use crate::client::read::read_charge_of;
use crate::client::read::read_plain;
use crate::client::session::setup_send_error;
use crate::client::session::setup_start_error;
use crate::client::session::SessionConnection;
use crate::client::session::SessionSetup;
use crate::client::session::SessionSetupConfig;
use crate::client::signing::sign_error;
use crate::client::signing::SigningAlgorithm;
use crate::client::transport::TcpTransportConfig;
use crate::client::tree::tree_connect_begin_error;
use crate::client::tree::tree_connect_plain;
use crate::client::tree::tree_connect_refusal;
use crate::client::tree::tree_connect_signs;
use crate::client::tree::TreeConnectOptions;
use crate::laws::answers::has_head;
use crate::laws::answers::law_header_is_read;
use crate::laws::limits::encrypts;
use crate::laws::limits::law_charge_is_exact;
use crate::laws::limits::law_open_and_close_refusals;
use crate::laws::limits::law_read_charge;
use crate::laws::requests::lemma_close_bytes;
use crate::laws::requests::lemma_create_bytes;
use crate::laws::requests::lemma_query_directory_bytes;
use crate::laws::requests::lemma_query_info_bytes;
use crate::laws::requests::lemma_read_bytes;
use crate::laws::requests::lemma_tree_connect_bytes;
use crate::probe::hex_error;
use crate::text::utf16le_of;
use crate::wire::create::create_contexts_bytes;
use crate::wire::create::create_request_error;
use crate::wire::create::CreateContextView;
use crate::wire::file_io::CloseRequest;
use crate::wire::file_io::FileId;
use crate::wire::file_io::ReadRequest;
use crate::wire::negotiate::negotiate_request_error;
use crate::wire::query::QueryDirectoryRequest;
use crate::wire::query::QueryInfoRequest;
use vstd::prelude::*;

verus! {

/// Whether a connection can pay for a request of some cost: the credits are there, and as many MessageIds
/// are left.
pub open spec fn can_pay<T>(connection: Connection<T>, cost: int) -> bool {
    &&& connection.credits is Some
    &&& cost <= connection.credits->0.available
    &&& connection.message_ids.next + cost <= u64::MAX
}

/// Whether a key can sign under an algorithm: with HMAC-SHA256 every key, with AES-CMAC one of sixteen
/// bytes, and with AES-GMAC none.
pub open spec fn key_signs(algorithm: SigningAlgorithm, key: Seq<u8>) -> bool {
    match algorithm {
        SigningAlgorithm::HmacSha256 => true,
        SigningAlgorithm::AesCmac => key.len() == 16,
        SigningAlgorithm::AesGmac => false,
    }
}

/// Whether a session can sign.
pub open spec fn can_sign<T>(session: SessionConnection<T>) -> bool {
    session.signing is Some && key_signs(session.signing->0.algorithm, session.signing->0.key@)
}

/// A message is signed if and only if it is one and the key can sign under the algorithm.
pub proof fn law_signing_is_possible(algorithm: SigningAlgorithm, key: Seq<u8>, m: Seq<u8>)
    ensures
        sign_error(algorithm, key, m) is None <==> has_head(m) && key_signs(algorithm, key),
{
    law_header_is_read(m);
}

/// A request that has a head is signed where the session can sign.
proof fn lemma_request_is_signed<T>(
    session: SessionConnection<T>,
    signs: bool,
    plain: Seq<u8>,
    no_key: &'static str,
)
    requires
        has_head(plain),
    ensures
        session.request_sign_error(signs, plain, no_key) is None <==> signs ==> can_sign(session),
{
    if session.signing is Some {
        law_signing_is_possible(session.signing->0.algorithm, session.signing->0.key@, plain);
    }
}

/// A file is opened, as far as the client decides, if and only if the path is one on the tree, the session
/// does not encrypt and has negotiated, one credit is there, the name and the contexts can be encoded,
/// and the session can sign where it must.
pub proof fn law_open_begins<T>(
    session: SessionConnection<T>,
    tree_id: u32,
    path: Seq<char>,
    options: FileOpenOptions,
    contexts: Seq<CreateContextView>,
)
    ensures
        open_begin_error(session, tree_id, path, options, contexts) is None <==> {
            &&& relative_path_of(path) is Ok
            &&& !encrypts(session)
            &&& session.connection.negotiated is Some
            &&& can_pay(session.connection, 1)
            &&& utf16le_of(relative_path_of(path)->Ok_0).len() <= u16::MAX
            &&& forall|i: int|
                0 <= i < contexts.len() ==> 0 < (#[trigger] contexts[i]).name.len() <= 65_504
                    && contexts[i].data.len() <= u32::MAX
            &&& create_contexts_bytes(contexts).len() <= u32::MAX
            &&& session.signing_required ==> can_sign(session)
        },
{
    let charge = session.connection.single_charge();
    let request = create_request_of(relative_path_of(path)->Ok_0, options, contexts);
    law_open_and_close_refusals(session, path);
    law_charge_is_exact(session.connection, charge);
    if create_request_error(request) is None {
        lemma_create_bytes(
            request,
            session.connection.message_ids.next,
            session.session_id,
            tree_id,
            charge,
            session.connection.credit_request(charge, options.credit_request),
        );
        lemma_request_is_signed(
            session,
            session.signing_required,
            open_plain(session, tree_id, request, options.credit_request),
            "CREATE requires signing but the session has no signing key",
        );
    }
}

/// A file is closed, as far as the client decides, if and only if the session does not encrypt and has
/// negotiated, one credit is there, and the session can sign where it must.
pub proof fn law_close_begins<T>(
    session: SessionConnection<T>,
    file_id: FileId,
    tree_id: u32,
    options: CloseOptions,
)
    ensures
        close_begin_error(session, file_id, tree_id, options) is None <==> {
            &&& !encrypts(session)
            &&& session.connection.negotiated is Some
            &&& can_pay(session.connection, 1)
            &&& session.signing_required ==> can_sign(session)
        },
{
    let charge = session.connection.single_charge();
    law_open_and_close_refusals(session, Seq::empty());
    law_charge_is_exact(session.connection, charge);
    lemma_close_bytes(
        CloseRequest {
            flags: if options.postquery_attributes {
                1
            } else {
                0
            },
            file_id,
        },
        session.connection.message_ids.next,
        session.session_id,
        tree_id,
        charge,
        session.connection.credit_request(charge, options.credit_request),
    );
    lemma_request_is_signed(
        session,
        session.signing_required,
        close_plain(session, file_id, tree_id, options),
        "CLOSE requires signing but the session has no signing key",
    );
}

/// A share is connected, as far as the client decides, if and only if its options are not refused, one
/// credit is there, the path can be encoded, and the session can sign where the request is to be
/// signed.
pub proof fn law_tree_connect_begins<T>(
    session: SessionConnection<T>,
    path: Seq<char>,
    options: TreeConnectOptions,
)
    ensures
        tree_connect_begin_error(session, path, options) is None <==> {
            &&& tree_connect_refusal(session, options) is None
            &&& can_pay(session.connection, 1)
            &&& utf16le_of(path).len() <= u16::MAX
            &&& tree_connect_signs(session) ==> can_sign(session)
        },
{
    let charge = session.connection.single_charge();
    law_charge_is_exact(session.connection, charge);
    if utf16le_of(path).len() <= u16::MAX {
        lemma_tree_connect_bytes(
            options.flags,
            path,
            session.connection.message_ids.next,
            session.session_id,
            charge,
            session.connection.credit_request(charge, options.credit_request),
        );
        lemma_request_is_signed(
            session,
            tree_connect_signs(session),
            tree_connect_plain(session, path, options),
            "TREE_CONNECT requires signing but the session has no signing key",
        );
    }
}

/// A chunk is asked for if and only if it can be charged, the credits that it costs are there, and the
/// session can sign where it must.
pub proof fn law_chunk_is_asked_for<T>(
    session: SessionConnection<T>,
    file_id: FileId,
    tree_id: u32,
    offset: int,
    length: int,
    multi_credit: bool,
    minimum: u16,
)
    requires
        length > 0,
    ensures
        issue_error(session, file_id, tree_id, offset, length, multi_credit, minimum) is None
            <==> {
            &&& multi_credit ==> length <= 65_536 * 65_535
            &&& can_pay(
                session.connection,
                if multi_credit {
                    (length + 65_535) / 65_536
                } else {
                    1
                },
            )
            &&& session.signing_required ==> can_sign(session)
        },
{
    law_read_charge(multi_credit, length);
    if read_charge_of(multi_credit, length) is Ok {
        let charge = read_charge_of(multi_credit, length)->Ok_0;
        law_charge_is_exact(session.connection, charge);
        lemma_read_bytes(
            ReadRequest { file_id, offset: offset as u64, length: length as u32 },
            session.connection.message_ids.next,
            session.session_id,
            tree_id,
            charge,
            session.connection.credit_request(charge, minimum),
        );
        lemma_request_is_signed(
            session,
            session.signing_required,
            read_plain(session, file_id, tree_id, offset, length, charge, minimum),
            "READ requires signing but the session has no signing key",
        );
    }
}

/// A file is asked about if and only if the query is not refused, the credits that it is charged, or one,
/// are there, and the session can sign where it must.
pub proof fn law_query_info_begins<T>(
    session: SessionConnection<T>,
    file_id: FileId,
    tree_id: u32,
    options: QueryInfoOptions,
)
    ensures
        query_info_begin_error(session, file_id, tree_id, options) is None <==> {
            let charge = query_info_charge(session, options);
            &&& query_info_refusal(session, options) is None
            &&& can_pay(
                session.connection,
                if charge == 0 {
                    1
                } else {
                    charge as int
                },
            )
            &&& session.signing_required ==> can_sign(session)
        },
{
    let charge = query_info_charge(session, options);
    law_charge_is_exact(session.connection, charge);
    if query_info_refusal(session, options) is None {
        lemma_query_info_bytes(
            QueryInfoRequest {
                info_type: options.info_type,
                file_info_class: options.file_info_class,
                output_buffer_length: options.output_buffer_length,
                input_buffer: options.input_buffer,
                additional_information: options.additional_information,
                flags: options.flags,
                file_id,
            },
            session.connection.message_ids.next,
            session.session_id,
            tree_id,
            charge,
            session.connection.credit_request(charge, options.credit_request),
        );
        lemma_request_is_signed(
            session,
            session.signing_required,
            query_info_plain(session, file_id, tree_id, options),
            "SMB query requires signing but the session has no signing key",
        );
    }
}

/// A directory is asked about if and only if the query is not refused, the credits that it is charged, or
/// one, are there, the pattern can be encoded, and the session can sign where it must.
pub proof fn law_query_directory_begins<T>(
    session: SessionConnection<T>,
    file_id: FileId,
    tree_id: u32,
    options: QueryDirectoryOptions,
)
    ensures
        query_directory_begin_error(session, file_id, tree_id, options) is None <==> {
            let charge = query_directory_charge(session, options);
            &&& query_directory_refusal(session, options) is None
            &&& can_pay(
                session.connection,
                if charge == 0 {
                    1
                } else {
                    charge as int
                },
            )
            &&& utf16le_of(options.file_name@).len() <= u16::MAX
            &&& session.signing_required ==> can_sign(session)
        },
{
    let charge = query_directory_charge(session, options);
    law_charge_is_exact(session.connection, charge);
    if utf16le_of(options.file_name@).len() <= u16::MAX {
        lemma_query_directory_bytes(
            QueryDirectoryRequest {
                file_information_class: options.file_information_class,
                flags: options.flags,
                file_index: options.file_index,
                file_id,
                file_name: options.file_name,
                output_buffer_length: options.output_buffer_length,
            },
            session.connection.message_ids.next,
            session.session_id,
            tree_id,
            charge,
            session.connection.credit_request(charge, options.credit_request),
        );
        lemma_request_is_signed(
            session,
            session.signing_required,
            query_directory_plain(session, file_id, tree_id, options),
            "SMB query requires signing but the session has no signing key",
        );
    }
}

/// An exchange begins if and only if the connection has negotiated and any round is allowed. Each of its
/// requests is sent if and only if a round is left, one credit is there, and the token fits its length
/// field.
pub proof fn law_exchange_begins<T>(
    connection: Connection<T>,
    config: SessionSetupConfig,
    setup: SessionSetup<T>,
    token: Seq<u8>,
)
    ensures
        setup_start_error(connection, config) is None <==> connection.negotiated is Some
            && config.max_rounds > 0,
        setup_send_error(setup, token) is None <==> {
            &&& setup.rounds_left > 0
            &&& setup.connection.negotiated is Some
            &&& can_pay(setup.connection, 1)
            &&& token.len() <= u16::MAX
        },
{
    law_charge_is_exact(setup.connection, setup.connection.single_charge());
}

/// A connection negotiates if and only if it has not yet, the configuration can be offered and encoded, and
/// a MessageId is left.
pub proof fn law_negotiation_begins<T>(connection: Connection<T>, config: NegotiateConfig)
    ensures
        negotiate_begin_error(connection, config) is None <==> {
            &&& connection.negotiated is None
            &&& offered_request_of(config) is Ok
            &&& connection.message_ids.next < u64::MAX
            &&& negotiate_request_error(offered_request_of(config)->Ok_0) is None
        },
{
}

/// A transport receives if and only if its messages have a limit that the 24-bit length of a frame holds.
pub proof fn law_transport_receives(config: TcpTransportConfig)
    ensures
        config.size_error() is None <==> 0 < config.max_message_size <= 0x00FF_FFFF,
{
}

/// Digits are read as bytes if and only if there are any, in pairs, and each is hexadecimal in either case.
pub proof fn law_hex_is_read(digits: Seq<u8>)
    ensures
        hex_error(digits) is None <==> {
            &&& digits.len() > 0
            &&& digits.len() % 2 == 0
            &&& forall|i: int|
                0 <= i < digits.len() ==> {
                    ||| '0' as int <= #[trigger] digits[i] <= '9' as int
                    ||| 'a' as int <= digits[i] <= 'f' as int
                    ||| 'A' as int <= digits[i] <= 'F' as int
                }
        },
{
}

} // verus!
