//! How requests read from their bytes.

use crate::bytes::le16;
use crate::bytes::le32;
use crate::bytes::le64;
use crate::bytes::u16_at;
use crate::bytes::u32_at;
use crate::bytes::u64_at;
use crate::bytes::zeros;
use crate::client::session::SessionConnection;
use crate::client::signing::signed_message;
use crate::client::signing::with_blank_signature;
use crate::client::signing::with_signed_flag;
use crate::text::law_utf16le_roundtrip;
use crate::text::utf16le_of;
use crate::text::utf16le_text_of;
use crate::wire::context::pad8;
use crate::wire::create::create_contexts_bytes;
use crate::wire::create::create_contexts_offset;
use crate::wire::create::create_request_bytes;
use crate::wire::create::create_request_error;
use crate::wire::create::CreateRequestView;
use crate::wire::file_io::close_request_bytes;
use crate::wire::file_io::read_request_bytes;
use crate::wire::file_io::CloseRequest;
use crate::wire::file_io::FileId;
use crate::wire::file_io::ReadRequest;
use crate::wire::header::header_bytes;
use crate::wire::header::request_header;
use crate::wire::header::Command;
use crate::wire::query::query_directory_request_bytes;
use crate::wire::query::query_info_request_bytes;
use crate::wire::query::QueryDirectoryRequest;
use crate::wire::query::QueryInfoRequest;
use crate::wire::session::session_setup_request_bytes;
use crate::wire::tree::tree_connect_request_bytes;
use vstd::prelude::*;

verus! {

/// Whether a message begins with the header of a request, as a server reads it: the identifier
/// `FE 'S' 'M' 'B'`, the structure size, and each field where the protocol places it.
pub open spec fn request_head(
    m: Seq<u8>,
    command: u16,
    charge: u16,
    credits: u16,
    message_id: u64,
    tree_id: u32,
    session_id: u64,
) -> bool {
    &&& m.len() >= 64
    &&& m[0] == 0xFE
    &&& m[1] == 0x53
    &&& m[2] == 0x4D
    &&& m[3] == 0x42
    &&& u16_at(m, 4) == 64
    &&& u16_at(m, 6) == charge
    &&& u32_at(m, 8) == 0
    &&& u16_at(m, 12) == command
    &&& u16_at(m, 14) == credits
    &&& u32_at(m, 20) == 0
    &&& u64_at(m, 24) == message_id
    &&& u32_at(m, 32) == 0
    &&& u32_at(m, 36) == tree_id
    &&& u64_at(m, 40) == session_id
}

/// The bytes of a request header read as the header.
pub(crate) proof fn lemma_request_head(
    command: Command,
    message_id: u64,
    session_id: u64,
    tree_id: u32,
    charge: u16,
    credits: u16,
)
    ensures
        ({
            let head = header_bytes(
                request_header(command, message_id, session_id, tree_id, charge, credits),
            );
            &&& head.len() == 64
            &&& request_head(
                head,
                command.code(),
                charge,
                credits,
                message_id,
                tree_id,
                session_id,
            )
            &&& u32_at(head, 16) == 0
        }),
{
    broadcast use crate::bytes::group_byte_layout;

    reveal(header_bytes);
    let head = header_bytes(
        request_header(command, message_id, session_id, tree_id, charge, credits),
    );
    let status = le16(0) + le16(0);
    assert(u32_at(head, 8) == u32_at(status, 0));
    assert(u32_at(status, 0) == 0) by {
        reveal(le16);
        reveal(u32_at);
    }
    assert(u16_at(head, 4) == 64);
    assert(u16_at(head, 6) == charge);
    assert(u16_at(head, 12) == command.code());
    assert(u16_at(head, 14) == credits);
    assert(u32_at(head, 16) == 0);
    assert(u32_at(head, 20) == 0);
    assert(u64_at(head, 24) == message_id);
    assert(u32_at(head, 32) == 0);
    assert(u32_at(head, 36) == tree_id);
    assert(u64_at(head, 40) == session_id);
}

/// Whether a message is another one but for the flags and the signature in its header.
pub open spec fn rides(m: Seq<u8>, plain: Seq<u8>) -> bool {
    &&& m.len() == plain.len()
    &&& forall|i: int|
        0 <= i < m.len() && !(16 <= i < 20) && !(48 <= i < 64) ==> #[trigger] m[i] == plain[i]
}

/// Whether a field of some width at some place is neither the flags nor the signature.
pub open spec fn untouched(i: int, width: int) -> bool {
    0 <= i && (i + width <= 16 || (20 <= i && i + width <= 48) || 64 <= i)
}

/// What stands beside the flags and the signature reads alike.
pub(crate) proof fn lemma_rides_reads(m: Seq<u8>, plain: Seq<u8>)
    requires
        rides(m, plain),
    ensures
        forall|i: int|
            untouched(i, 2) && i + 2 <= m.len() ==> #[trigger] u16_at(m, i) == u16_at(plain, i),
        forall|i: int|
            untouched(i, 4) && i + 4 <= m.len() ==> #[trigger] u32_at(m, i) == u32_at(plain, i),
        forall|i: int|
            untouched(i, 8) && i + 8 <= m.len() ==> #[trigger] u64_at(m, i) == u64_at(plain, i),
        forall|i: int, j: int|
            64 <= i <= j <= m.len() ==> #[trigger] m.subrange(i, j) == plain.subrange(i, j),
{
    reveal(u16_at);
    reveal(u32_at);
    reveal(u64_at);
    assert forall|i: int, j: int| 64 <= i <= j <= m.len() implies #[trigger] m.subrange(i, j)
        == plain.subrange(i, j) by {
        assert(m.subrange(i, j) =~= plain.subrange(i, j));
    }
}

/// The flags of a signed message are those of the plain one with the signed flag.
pub(crate) proof fn lemma_signed_rides(
    algorithm: crate::client::signing::SigningAlgorithm,
    key: Seq<u8>,
    plain: Seq<u8>,
)
    requires
        plain.len() >= 64,
    ensures
        rides(signed_message(algorithm, key, plain), plain),
        u32_at(signed_message(algorithm, key, plain), 16) == u32_at(plain, 16) | 8,
{
    let flags = u32_at(plain, 16) | 8;
    crate::bytes::lemma_le32_len(flags);
    let m = signed_message(algorithm, key, plain);
    let flagged = with_signed_flag(plain);
    crate::bytes::lemma_overwrite_has(plain, 16, le32(flags));
    crate::bytes::law_u32_roundtrip(flagged, 16, flags);
    assert(u32_at(m, 16) == u32_at(flagged, 16)) by {
        reveal(u32_at);
        assert(with_blank_signature(flagged)[16] == flagged[16]);
    }
}

/// A request goes out as it was encoded, but for the flags and the signature where it is signed.
pub(crate) proof fn lemma_request_rides<T>(
    session: SessionConnection<T>,
    must_sign: bool,
    plain: Seq<u8>,
)
    requires
        plain.len() >= 64,
    ensures
        rides(session.request_signed(must_sign, plain), plain),
        u32_at(session.request_signed(must_sign, plain), 16) == if must_sign && session.signing
            is Some {
            u32_at(plain, 16) | 8
        } else {
            u32_at(plain, 16)
        },
{
    if must_sign && session.signing is Some {
        let state = session.signing->0;
        lemma_signed_rides(state.algorithm, state.key@, plain);
    }
}

/// What a READ request asks for, as a server reads it.
pub open spec fn read_asked(m: Seq<u8>, file_id: FileId, offset: int, length: int) -> bool {
    &&& m.len() == 113
    &&& u16_at(m, 64) == 49
    &&& m[66] == 0x50
    &&& m[67] == 0
    &&& u32_at(m, 68) == length
    &&& u64_at(m, 72) == offset
    &&& u64_at(m, 80) == file_id.persistent
    &&& u64_at(m, 88) == file_id.volatile
    &&& u32_at(m, 96) == 0
    &&& u32_at(m, 100) == 0
    &&& u32_at(m, 104) == 0
    &&& u16_at(m, 108) == 0
    &&& u16_at(m, 110) == 0
}

pub(crate) proof fn lemma_read_bytes(
    q: ReadRequest,
    message_id: u64,
    session_id: u64,
    tree_id: u32,
    charge: u16,
    credits: u16,
)
    ensures
        ({
            let m = read_request_bytes(q, message_id, session_id, tree_id, charge, credits);
            &&& request_head(m, 8, charge, credits, message_id, tree_id, session_id)
            &&& u32_at(m, 16) == 0
            &&& read_asked(m, q.file_id, q.offset as int, q.length as int)
        }),
{
    broadcast use crate::bytes::group_byte_layout;

    let m = read_request_bytes(q, message_id, session_id, tree_id, charge, credits);
    lemma_request_head(Command::Read, message_id, session_id, tree_id, charge, credits);
    assert(u32_at(m, 68) == q.length);
    assert(u64_at(m, 72) == q.offset);
    assert(u64_at(m, 80) == u64_at(q.file_id.bytes(), 0));
    assert(u64_at(m, 88) == u64_at(q.file_id.bytes(), 8));
}

/// What a CLOSE request asks for, as a server reads it.
pub open spec fn close_asked(m: Seq<u8>, file_id: FileId, flags: u16) -> bool {
    &&& m.len() == 88
    &&& u16_at(m, 64) == 24
    &&& u16_at(m, 66) == flags
    &&& u32_at(m, 68) == 0
    &&& u64_at(m, 72) == file_id.persistent
    &&& u64_at(m, 80) == file_id.volatile
}

pub(crate) proof fn lemma_close_bytes(
    q: CloseRequest,
    message_id: u64,
    session_id: u64,
    tree_id: u32,
    charge: u16,
    credits: u16,
)
    ensures
        ({
            let m = close_request_bytes(q, message_id, session_id, tree_id, charge, credits);
            &&& request_head(m, 6, charge, credits, message_id, tree_id, session_id)
            &&& u32_at(m, 16) == 0
            &&& close_asked(m, q.file_id, q.flags)
        }),
{
    broadcast use crate::bytes::group_byte_layout;

    let m = close_request_bytes(q, message_id, session_id, tree_id, charge, credits);
    lemma_request_head(Command::Close, message_id, session_id, tree_id, charge, credits);
    assert(u64_at(m, 72) == u64_at(q.file_id.bytes(), 0));
    assert(u64_at(m, 80) == u64_at(q.file_id.bytes(), 8));
}

/// What a TREE_CONNECT request asks for, as a server reads it.
pub open spec fn tree_connect_asked(m: Seq<u8>, flags: u16, path: Seq<char>) -> bool {
    &&& m.len() == 72 + u16_at(m, 70)
    &&& u16_at(m, 64) == 9
    &&& u16_at(m, 66) == flags
    &&& u16_at(m, 68) == 72
    &&& utf16le_text_of(m.subrange(72, 72 + u16_at(m, 70))) == Some(path)
}

pub(crate) proof fn lemma_tree_connect_bytes(
    flags: u16,
    path: Seq<char>,
    message_id: u64,
    session_id: u64,
    charge: u16,
    credits: u16,
)
    requires
        utf16le_of(path).len() <= u16::MAX,
    ensures
        ({
            let m = tree_connect_request_bytes(
                flags,
                path,
                message_id,
                session_id,
                charge,
                credits,
            );
            &&& request_head(m, 3, charge, credits, message_id, 0, session_id)
            &&& u32_at(m, 16) == 0
            &&& tree_connect_asked(m, flags, path)
        }),
{
    broadcast use crate::bytes::group_byte_layout;

    let m = tree_connect_request_bytes(flags, path, message_id, session_id, charge, credits);
    let name = utf16le_of(path);
    lemma_request_head(Command::TreeConnect, message_id, session_id, 0, charge, credits);
    law_utf16le_roundtrip(path);
    assert(u16_at(m, 70) == name.len());
    assert(m.subrange(72, 72 + name.len() as int) =~= name);
}

/// What a SESSION_SETUP request asks for, as a server reads it.
pub open spec fn session_setup_asked(
    m: Seq<u8>,
    security_mode: u8,
    capabilities: u32,
    previous_session_id: u64,
    token: Seq<u8>,
) -> bool {
    &&& m.len() == 88 + u16_at(m, 78)
    &&& u16_at(m, 64) == 25
    &&& m[66] == 0
    &&& m[67] == security_mode
    &&& u32_at(m, 68) == capabilities
    &&& u32_at(m, 72) == 0
    &&& u16_at(m, 76) == 88
    &&& u64_at(m, 80) == previous_session_id
    &&& m.subrange(88, 88 + u16_at(m, 78)) == token
}

pub(crate) proof fn lemma_session_setup_bytes(
    security_mode: u8,
    capabilities: u32,
    previous_session_id: u64,
    token: Seq<u8>,
    message_id: u64,
    session_id: u64,
    charge: u16,
    credits: u16,
)
    requires
        token.len() <= u16::MAX,
    ensures
        ({
            let m = session_setup_request_bytes(
                0,
                security_mode,
                capabilities,
                previous_session_id,
                token,
                message_id,
                session_id,
                charge,
                credits,
            );
            &&& request_head(m, 1, charge, credits, message_id, 0, session_id)
            &&& u32_at(m, 16) == 0
            &&& session_setup_asked(m, security_mode, capabilities, previous_session_id, token)
        }),
{
    broadcast use crate::bytes::group_byte_layout;

    let m = session_setup_request_bytes(
        0,
        security_mode,
        capabilities,
        previous_session_id,
        token,
        message_id,
        session_id,
        charge,
        credits,
    );
    lemma_request_head(Command::SessionSetup, message_id, session_id, 0, charge, credits);
    assert(u16_at(m, 78) == token.len());
    assert(m.subrange(88, 88 + token.len() as int) =~= token);
}

/// What a QUERY_INFO request asks for, as a server reads it.
pub open spec fn query_info_asked(
    m: Seq<u8>,
    file_id: FileId,
    info_type: u8,
    file_info_class: u8,
    output_length: u32,
    additional: u32,
    flags: u32,
    input: Seq<u8>,
) -> bool {
    &&& m.len() == 104 + u32_at(m, 76)
    &&& u16_at(m, 64) == 41
    &&& m[66] == info_type
    &&& m[67] == file_info_class
    &&& u32_at(m, 68) == output_length
    &&& u16_at(m, 72) == if input.len() == 0 {
        0int
    } else {
        104
    }
    &&& u16_at(m, 74) == 0
    &&& u32_at(m, 80) == additional
    &&& u32_at(m, 84) == flags
    &&& u64_at(m, 88) == file_id.persistent
    &&& u64_at(m, 96) == file_id.volatile
    &&& m.subrange(104, 104 + u32_at(m, 76)) == input
}

pub(crate) proof fn lemma_query_info_bytes(
    q: QueryInfoRequest,
    message_id: u64,
    session_id: u64,
    tree_id: u32,
    charge: u16,
    credits: u16,
)
    requires
        q.input_buffer@.len() <= u32::MAX,
    ensures
        ({
            let m = query_info_request_bytes(
                q,
                message_id,
                session_id,
                tree_id,
                charge,
                credits,
            );
            &&& request_head(m, 16, charge, credits, message_id, tree_id, session_id)
            &&& u32_at(m, 16) == 0
            &&& query_info_asked(
                m,
                q.file_id,
                q.info_type,
                q.file_info_class,
                q.output_buffer_length,
                q.additional_information,
                q.flags,
                q.input_buffer@,
            )
        }),
{
    broadcast use crate::bytes::group_byte_layout;

    let m = query_info_request_bytes(q, message_id, session_id, tree_id, charge, credits);
    lemma_request_head(Command::QueryInfo, message_id, session_id, tree_id, charge, credits);
    assert(u32_at(m, 76) == q.input_buffer@.len());
    assert(u64_at(m, 88) == u64_at(q.file_id.bytes(), 0));
    assert(u64_at(m, 96) == u64_at(q.file_id.bytes(), 8));
    assert(m.subrange(104, 104 + q.input_buffer@.len() as int) =~= q.input_buffer@);
}

/// What a QUERY_DIRECTORY request asks for, as a server reads it.
pub open spec fn query_directory_asked(
    m: Seq<u8>,
    file_id: FileId,
    information_class: u8,
    flags: u8,
    file_index: u32,
    output_length: u32,
    pattern: Seq<char>,
) -> bool {
    &&& m.len() == 96 + u16_at(m, 90)
    &&& u16_at(m, 64) == 33
    &&& m[66] == information_class
    &&& m[67] == flags
    &&& u32_at(m, 68) == file_index
    &&& u64_at(m, 72) == file_id.persistent
    &&& u64_at(m, 80) == file_id.volatile
    &&& u16_at(m, 88) == 96
    &&& u32_at(m, 92) == output_length
    &&& utf16le_text_of(m.subrange(96, 96 + u16_at(m, 90))) == Some(pattern)
}

pub(crate) proof fn lemma_query_directory_bytes(
    q: QueryDirectoryRequest,
    message_id: u64,
    session_id: u64,
    tree_id: u32,
    charge: u16,
    credits: u16,
)
    requires
        utf16le_of(q.file_name@).len() <= u16::MAX,
    ensures
        ({
            let m = query_directory_request_bytes(
                q,
                message_id,
                session_id,
                tree_id,
                charge,
                credits,
            );
            &&& request_head(m, 14, charge, credits, message_id, tree_id, session_id)
            &&& u32_at(m, 16) == 0
            &&& query_directory_asked(
                m,
                q.file_id,
                q.file_information_class,
                q.flags,
                q.file_index,
                q.output_buffer_length,
                q.file_name@,
            )
        }),
{
    broadcast use crate::bytes::group_byte_layout;

    let m = query_directory_request_bytes(q, message_id, session_id, tree_id, charge, credits);
    let name = utf16le_of(q.file_name@);
    lemma_request_head(Command::QueryDirectory, message_id, session_id, tree_id, charge, credits);
    law_utf16le_roundtrip(q.file_name@);
    assert(u16_at(m, 90) == name.len());
    assert(u64_at(m, 72) == u64_at(q.file_id.bytes(), 0));
    assert(u64_at(m, 80) == u64_at(q.file_id.bytes(), 8));
    assert(m.subrange(96, 96 + name.len() as int) =~= name);
}

/// What a CREATE request asks for, as a server reads it. Contexts are announced where there are any,
/// at a place that is a multiple of eight.
pub open spec fn create_asked(
    m: Seq<u8>,
    oplock_level: u8,
    impersonation_level: u32,
    desired_access: u32,
    file_attributes: u32,
    share_access: u32,
    create_disposition: u32,
    create_options: u32,
    name: Seq<char>,
) -> bool {
    &&& m.len() >= 120 + u16_at(m, 110)
    &&& u16_at(m, 64) == 57
    &&& m[66] == 0
    &&& m[67] == oplock_level
    &&& u32_at(m, 68) == impersonation_level
    &&& u64_at(m, 72) == 0
    &&& u64_at(m, 80) == 0
    &&& u32_at(m, 88) == desired_access
    &&& u32_at(m, 92) == file_attributes
    &&& u32_at(m, 96) == share_access
    &&& u32_at(m, 100) == create_disposition
    &&& u32_at(m, 104) == create_options
    &&& u16_at(m, 108) == 120
    &&& utf16le_text_of(m.subrange(120, 120 + u16_at(m, 110))) == Some(name)
}

/// The fixed part and the name of a CREATE request read as what they were written from.
#[verifier::spinoff_prover]
proof fn lemma_create_fixed(
    head: Seq<u8>,
    q: CreateRequestView,
    name: Seq<u8>,
    offset: u32,
    length: u32,
)
    requires
        head.len() == 64,
        name == utf16le_of(q.name),
        name.len() <= u16::MAX,
    ensures
        ({
            let m = head + le16(57) + seq![0u8] + seq![q.requested_oplock_level] + le32(
                q.impersonation_level,
            ) + le64(0) + le64(0) + le32(q.desired_access) + le32(q.file_attributes) + le32(
                q.share_access,
            ) + le32(q.create_disposition) + le32(q.create_options) + le16(120) + le16(
                name.len() as u16,
            ) + le32(offset) + le32(length) + name;
            &&& m.len() == 120 + name.len()
            &&& create_asked(
                m,
                q.requested_oplock_level,
                q.impersonation_level,
                q.desired_access,
                q.file_attributes,
                q.share_access,
                q.create_disposition,
                q.create_options,
                q.name,
            )
            &&& u16_at(m, 110) == name.len()
            &&& u32_at(m, 112) == offset
            &&& u32_at(m, 116) == length
            &&& m.take(64) == head
        }),
{
    broadcast use crate::bytes::group_byte_layout;

    let m = head + le16(57) + seq![0u8] + seq![q.requested_oplock_level] + le32(
        q.impersonation_level,
    ) + le64(0) + le64(0) + le32(q.desired_access) + le32(q.file_attributes) + le32(q.share_access)
        + le32(q.create_disposition) + le32(q.create_options) + le16(120) + le16(name.len() as u16)
        + le32(offset) + le32(length) + name;
    law_utf16le_roundtrip(q.name);
    assert(u16_at(m, 110) == name.len());
    assert(m.subrange(120, 120 + name.len() as int) =~= name);
    assert(m.take(64) =~= head);
}

/// The bytes of a CREATE request read as what they were written from.
pub(crate) proof fn lemma_create_bytes(
    q: CreateRequestView,
    message_id: u64,
    session_id: u64,
    tree_id: u32,
    charge: u16,
    credits: u16,
)
    requires
        create_request_error(q) is None,
    ensures
        ({
            let m = create_request_bytes(q, message_id, session_id, tree_id, charge, credits);
            &&& request_head(m, 5, charge, credits, message_id, tree_id, session_id)
            &&& u32_at(m, 16) == 0
            &&& create_asked(
                m,
                q.requested_oplock_level,
                q.impersonation_level,
                q.desired_access,
                q.file_attributes,
                q.share_access,
                q.create_disposition,
                q.create_options,
                q.name,
            )
            &&& if q.contexts.len() == 0 {
                u32_at(m, 112) == 0 && u32_at(m, 116) == 0 && m.len() == 120 + u16_at(m, 110)
            } else {
                &&& u32_at(m, 112) % 8 == 0
                &&& 120 + u16_at(m, 110) <= u32_at(m, 112) < 128 + u16_at(m, 110)
                &&& m.len() == u32_at(m, 112) + u32_at(m, 116)
                &&& create_context_region(m) == create_contexts_bytes(q.contexts)
            }
        }),
{
    broadcast use crate::bytes::group_byte_layout;

    let m = create_request_bytes(q, message_id, session_id, tree_id, charge, credits);
    let head = header_bytes(
        request_header(Command::Create, message_id, session_id, tree_id, charge, credits),
    );
    let name = utf16le_of(q.name);
    let n = name.len() as int;
    let contexts = create_contexts_bytes(q.contexts);
    let offset = if q.contexts.len() == 0 {
        0
    } else {
        create_contexts_offset(n)
    };
    lemma_request_head(Command::Create, message_id, session_id, tree_id, charge, credits);
    lemma_create_fixed(head, q, name, offset as u32, contexts.len() as u32);
    let fixed = head + le16(57) + seq![0u8] + seq![q.requested_oplock_level] + le32(
        q.impersonation_level,
    ) + le64(0) + le64(0) + le32(q.desired_access) + le32(q.file_attributes) + le32(q.share_access)
        + le32(q.create_disposition) + le32(q.create_options) + le16(120) + le16(n as u16) + le32(
        offset as u32,
    ) + le32(contexts.len() as u32) + name;
    assert forall|i: int| 0 <= i < 64 implies #[trigger] m[i] == head[i] by {
        assert(fixed.take(64)[i] == fixed[i]);
    }
    lemma_same_prefix(m, head);
    if q.contexts.len() > 0 {
        let rest = zeros(pad8(120 + n)) + contexts;
        assert(m =~= fixed + rest);
        assert(m.subrange(120, 120 + n) =~= fixed.subrange(120, 120 + n));
        assert(u16_at(m, 110) == n);
        assert(u32_at(m, 112) == offset);
        assert(u32_at(m, 116) == contexts.len());
        assert(create_context_region(m) =~= contexts);
        assert forall|i: int| 66 <= i <= 67 implies #[trigger] m[i] == fixed[i] by {}
    }
}

/// A message that begins with a header reads as the header.
pub(crate) proof fn lemma_same_prefix(m: Seq<u8>, head: Seq<u8>)
    requires
        m.len() >= 64,
        head.len() == 64,
        forall|i: int| 0 <= i < 64 ==> #[trigger] m[i] == head[i],
    ensures
        forall|i: int| 0 <= i && i + 2 <= 64 ==> #[trigger] u16_at(m, i) == u16_at(head, i),
        forall|i: int| 0 <= i && i + 4 <= 64 ==> #[trigger] u32_at(m, i) == u32_at(head, i),
        forall|i: int| 0 <= i && i + 8 <= 64 ==> #[trigger] u64_at(m, i) == u64_at(head, i),
{
    reveal(u16_at);
    reveal(u32_at);
    reveal(u64_at);
}

/// The bytes of the contexts of a CREATE request, where it announces them.
pub open spec fn create_context_region(m: Seq<u8>) -> Seq<u8> {
    m.subrange(u32_at(m, 112) as int, u32_at(m, 112) + u32_at(m, 116))
}

} // verus!
