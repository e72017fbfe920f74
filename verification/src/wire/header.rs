//! The SMB2 packet header.

use crate::bytes::begins_with;
use crate::bytes::get_u16;
use crate::bytes::get_u32;
use crate::bytes::get_u64;
use crate::bytes::has_prefix;
use crate::bytes::le16;
use crate::bytes::le32;
use crate::bytes::le64;
use crate::bytes::put_bytes;
use crate::bytes::put_u16;
use crate::bytes::put_u32;
use crate::bytes::put_u64;
use crate::bytes::put_zeros;
use crate::bytes::u16_at;
use crate::bytes::u32_at;
use crate::bytes::u64_at;
use crate::bytes::zeros;
use crate::wire::constants::FLAG_ASYNC_COMMAND;
use crate::wire::constants::FLAG_SERVER_TO_REDIR;
use crate::wire::constants::SMB2_HEADER_SIZE;
use crate::wire::error::WireError;
use vstd::prelude::*;

verus! {

/// SMB2 commands.
#[derive(Clone, Copy, Debug, PartialEq, Eq, Structural)]
pub enum Command {
    Negotiate,
    SessionSetup,
    Logoff,
    TreeConnect,
    TreeDisconnect,
    Create,
    Close,
    Flush,
    Read,
    Write,
    Lock,
    Ioctl,
    Cancel,
    Echo,
    QueryDirectory,
    ChangeNotify,
    QueryInfo,
    SetInfo,
    OplockBreak,
}

impl Command {
    /// The code of a command.
    pub open spec fn code(self) -> u16 {
        match self {
            Command::Negotiate => 0,
            Command::SessionSetup => 1,
            Command::Logoff => 2,
            Command::TreeConnect => 3,
            Command::TreeDisconnect => 4,
            Command::Create => 5,
            Command::Close => 6,
            Command::Flush => 7,
            Command::Read => 8,
            Command::Write => 9,
            Command::Lock => 10,
            Command::Ioctl => 11,
            Command::Cancel => 12,
            Command::Echo => 13,
            Command::QueryDirectory => 14,
            Command::ChangeNotify => 15,
            Command::QueryInfo => 16,
            Command::SetInfo => 17,
            Command::OplockBreak => 18,
        }
    }

    /// The command with a given code.
    pub open spec fn with_code(code: u16) -> Option<Command> {
        if code == 0 {
            Some(Command::Negotiate)
        } else if code == 1 {
            Some(Command::SessionSetup)
        } else if code == 2 {
            Some(Command::Logoff)
        } else if code == 3 {
            Some(Command::TreeConnect)
        } else if code == 4 {
            Some(Command::TreeDisconnect)
        } else if code == 5 {
            Some(Command::Create)
        } else if code == 6 {
            Some(Command::Close)
        } else if code == 7 {
            Some(Command::Flush)
        } else if code == 8 {
            Some(Command::Read)
        } else if code == 9 {
            Some(Command::Write)
        } else if code == 10 {
            Some(Command::Lock)
        } else if code == 11 {
            Some(Command::Ioctl)
        } else if code == 12 {
            Some(Command::Cancel)
        } else if code == 13 {
            Some(Command::Echo)
        } else if code == 14 {
            Some(Command::QueryDirectory)
        } else if code == 15 {
            Some(Command::ChangeNotify)
        } else if code == 16 {
            Some(Command::QueryInfo)
        } else if code == 17 {
            Some(Command::SetInfo)
        } else if code == 18 {
            Some(Command::OplockBreak)
        } else {
            None
        }
    }

    /// The code of this command.
    pub fn to_u16(self) -> (r: u16)
        ensures
            r == self.code(),
    {
        match self {
            Command::Negotiate => 0,
            Command::SessionSetup => 1,
            Command::Logoff => 2,
            Command::TreeConnect => 3,
            Command::TreeDisconnect => 4,
            Command::Create => 5,
            Command::Close => 6,
            Command::Flush => 7,
            Command::Read => 8,
            Command::Write => 9,
            Command::Lock => 10,
            Command::Ioctl => 11,
            Command::Cancel => 12,
            Command::Echo => 13,
            Command::QueryDirectory => 14,
            Command::ChangeNotify => 15,
            Command::QueryInfo => 16,
            Command::SetInfo => 17,
            Command::OplockBreak => 18,
        }
    }

    /// The command with this code.
    pub fn from_u16(code: u16) -> (r: Option<Command>)
        ensures
            r == Command::with_code(code),
    {
        match code {
            0 => Some(Command::Negotiate),
            1 => Some(Command::SessionSetup),
            2 => Some(Command::Logoff),
            3 => Some(Command::TreeConnect),
            4 => Some(Command::TreeDisconnect),
            5 => Some(Command::Create),
            6 => Some(Command::Close),
            7 => Some(Command::Flush),
            8 => Some(Command::Read),
            9 => Some(Command::Write),
            10 => Some(Command::Lock),
            11 => Some(Command::Ioctl),
            12 => Some(Command::Cancel),
            13 => Some(Command::Echo),
            14 => Some(Command::QueryDirectory),
            15 => Some(Command::ChangeNotify),
            16 => Some(Command::QueryInfo),
            17 => Some(Command::SetInfo),
            18 => Some(Command::OplockBreak),
            _ => None,
        }
    }
}

/// Header bytes 8 to 12: a channel sequence in a request, an NTSTATUS in a response.
#[derive(Clone, Copy, Debug, PartialEq, Eq, Structural)]
pub enum StatusField {
    ChannelSequence { channel_sequence: u16, reserved: u16 },
    Status(u32),
}

/// Header bytes 32 to 40: a tree in a synchronous packet, an AsyncId in an asynchronous one.
#[derive(Clone, Copy, Debug, PartialEq, Eq, Structural)]
pub enum HeaderId {
    Sync { process_id: u32, tree_id: u32 },
    Async { async_id: u64 },
}

/// The SMB2 packet header, without its signature.
#[derive(Clone, Copy, Debug, PartialEq, Eq, Structural)]
pub struct Smb2Header {
    pub credit_charge: u16,
    pub status: StatusField,
    pub command: Command,
    /// Credits requested in a request, granted in a response.
    pub credits: u16,
    pub flags: u32,
    pub next_command: u32,
    pub message_id: u64,
    pub id: HeaderId,
    pub session_id: u64,
}

/// The bytes that every SMB2 packet begins with.
pub open spec fn protocol_id() -> Seq<u8> {
    seq![0xFEu8, 0x53u8, 0x4Du8, 0x42u8]
}

/// The bytes that every SMB2 packet begins with.
pub const SMB2_PROTOCOL_ID: [u8; 4] = [0xFE, 0x53, 0x4D, 0x42];

/// The bytes of a status field.
pub open spec fn status_bytes(status: StatusField) -> Seq<u8> {
    match status {
        StatusField::ChannelSequence { channel_sequence, reserved } => le16(channel_sequence)
            + le16(reserved),
        StatusField::Status(status) => le32(status),
    }
}

/// The bytes of a header id.
pub open spec fn header_id_bytes(id: HeaderId) -> Seq<u8> {
    match id {
        HeaderId::Sync { process_id, tree_id } => le32(process_id) + le32(tree_id),
        HeaderId::Async { async_id } => le64(async_id),
    }
}

/// The bytes of a header. The signature is left zero.
#[verifier::opaque]
pub open spec fn header_bytes(h: Smb2Header) -> Seq<u8> {
    protocol_id() + le16(64) + le16(h.credit_charge) + status_bytes(h.status) + le16(
        h.command.code(),
    ) + le16(h.credits) + le32(h.flags) + le32(h.next_command) + le64(h.message_id)
        + header_id_bytes(h.id) + le64(h.session_id) + zeros(16)
}

/// Why bytes do not begin with a header, if they do not.
pub open spec fn header_error(m: Seq<u8>) -> Option<WireError> {
    if m.len() < 64 {
        Some(WireError::Truncated("the SMB2 header"))
    } else if !begins_with(m, protocol_id()) {
        Some(WireError::Invalid("SMB2 protocol identifier"))
    } else if u16_at(m, 4) != 64 {
        Some(WireError::Invalid("SMB2 header structure size"))
    } else if Command::with_code(u16_at(m, 12)) is None {
        Some(WireError::Invalid("SMB2 command"))
    } else {
        None
    }
}

/// The header at the beginning of bytes.
pub open spec fn header_of(m: Seq<u8>) -> Smb2Header {
    let flags = u32_at(m, 16);
    Smb2Header {
        credit_charge: u16_at(m, 6),
        status: if flags & FLAG_SERVER_TO_REDIR != 0 {
            StatusField::Status(u32_at(m, 8))
        } else {
            StatusField::ChannelSequence {
                channel_sequence: u16_at(m, 8),
                reserved: u16_at(m, 10),
            }
        },
        command: Command::with_code(u16_at(m, 12))->0,
        credits: u16_at(m, 14),
        flags,
        next_command: u32_at(m, 20),
        message_id: u64_at(m, 24),
        id: if flags & FLAG_ASYNC_COMMAND != 0 {
            HeaderId::Async { async_id: u64_at(m, 32) }
        } else {
            HeaderId::Sync { process_id: u32_at(m, 32), tree_id: u32_at(m, 36) }
        },
        session_id: u64_at(m, 40),
    }
}

/// Whether the forms of the status and of the id are those that the flags announce.
pub open spec fn header_forms_match(h: Smb2Header) -> bool {
    &&& h.status is Status <==> h.flags & FLAG_SERVER_TO_REDIR != 0
    &&& h.id is Async <==> h.flags & FLAG_ASYNC_COMMAND != 0
}

impl Smb2Header {
    /// A request header without session, tree or flags.
    pub open spec fn request_spec(
        command: Command,
        message_id: u64,
        credit_charge: u16,
        credits: u16,
    ) -> Smb2Header {
        Smb2Header {
            credit_charge,
            status: StatusField::ChannelSequence { channel_sequence: 0, reserved: 0 },
            command,
            credits,
            flags: 0,
            next_command: 0,
            message_id,
            id: HeaderId::Sync { process_id: 0, tree_id: 0 },
            session_id: 0,
        }
    }

    /// A request header without session, tree or flags.
    pub fn request(command: Command, message_id: u64, credit_charge: u16, credits: u16) -> (r: Self)
        ensures
            r == Smb2Header::request_spec(command, message_id, credit_charge, credits),
    {
        Smb2Header {
            credit_charge,
            status: StatusField::ChannelSequence { channel_sequence: 0, reserved: 0 },
            command,
            credits,
            flags: 0,
            next_command: 0,
            message_id,
            id: HeaderId::Sync { process_id: 0, tree_id: 0 },
            session_id: 0,
        }
    }

    /// Encodes the header. The signature is left zero.
    pub fn encode(&self) -> (r: Vec<u8>)
        ensures
            r@ == header_bytes(*self),
    {
        let mut out: Vec<u8> = Vec::new();
        put_bytes(&mut out, &SMB2_PROTOCOL_ID);
        assert(out@ =~= protocol_id());
        put_u16(&mut out, 64);
        put_u16(&mut out, self.credit_charge);
        let ghost before = out@;
        match self.status {
            StatusField::ChannelSequence { channel_sequence, reserved } => {
                put_u16(&mut out, channel_sequence);
                put_u16(&mut out, reserved);
            },
            StatusField::Status(status) => {
                put_u32(&mut out, status);
            },
        }
        assert(out@ =~= before + status_bytes(self.status));
        put_u16(&mut out, self.command.to_u16());
        put_u16(&mut out, self.credits);
        put_u32(&mut out, self.flags);
        put_u32(&mut out, self.next_command);
        put_u64(&mut out, self.message_id);
        let ghost before = out@;
        match self.id {
            HeaderId::Sync { process_id, tree_id } => {
                put_u32(&mut out, process_id);
                put_u32(&mut out, tree_id);
            },
            HeaderId::Async { async_id } => {
                put_u64(&mut out, async_id);
            },
        }
        assert(out@ =~= before + header_id_bytes(self.id));
        put_u64(&mut out, self.session_id);
        put_zeros(&mut out, 16);
        proof {
            reveal(header_bytes);
        }
        out
    }

    /// Decodes the header at the beginning of a packet.
    pub fn decode(message: &[u8]) -> (r: Result<Smb2Header, WireError>)
        ensures
            match header_error(message@) {
                Some(e) => r == Err::<Smb2Header, WireError>(e),
                None => r == Ok::<Smb2Header, WireError>(header_of(message@)),
            },
    {
        if message.len() < SMB2_HEADER_SIZE {
            return Err(WireError::Truncated("the SMB2 header"));
        }
        assert(SMB2_PROTOCOL_ID@ =~= protocol_id());
        if !has_prefix(message, &SMB2_PROTOCOL_ID) {
            return Err(WireError::Invalid("SMB2 protocol identifier"));
        }
        if get_u16(message, 4) != 64 {
            return Err(WireError::Invalid("SMB2 header structure size"));
        }
        let command = match Command::from_u16(get_u16(message, 12)) {
            Some(command) => command,
            None => {
                return Err(WireError::Invalid("SMB2 command"));
            },
        };
        let flags: u32 = get_u32(message, 16);
        let status = if flags & FLAG_SERVER_TO_REDIR != 0 {
            StatusField::Status(get_u32(message, 8))
        } else {
            StatusField::ChannelSequence {
                channel_sequence: get_u16(message, 8),
                reserved: get_u16(message, 10),
            }
        };
        let id = if flags & FLAG_ASYNC_COMMAND != 0 {
            HeaderId::Async { async_id: get_u64(message, 32) }
        } else {
            HeaderId::Sync { process_id: get_u32(message, 32), tree_id: get_u32(message, 36) }
        };
        Ok(
            Smb2Header {
                credit_charge: get_u16(message, 6),
                status,
                command,
                credits: get_u16(message, 14),
                flags,
                next_command: get_u32(message, 20),
                message_id: get_u64(message, 24),
                id,
                session_id: get_u64(message, 40),
            },
        )
    }
}

/// The header of a request on a session and a tree.
pub open spec fn request_header(
    command: Command,
    message_id: u64,
    session_id: u64,
    tree_id: u32,
    credit_charge: u16,
    credits: u16,
) -> Smb2Header {
    Smb2Header {
        session_id,
        id: HeaderId::Sync { process_id: 0, tree_id },
        ..Smb2Header::request_spec(command, message_id, credit_charge, credits)
    }
}

/// Encodes the header of a request on a session and a tree.
pub fn encode_request_header(
    command: Command,
    message_id: u64,
    session_id: u64,
    tree_id: u32,
    credit_charge: u16,
    credits: u16,
) -> (r: Vec<u8>)
    ensures
        r@ == header_bytes(
            request_header(command, message_id, session_id, tree_id, credit_charge, credits),
        ),
{
    let mut header = Smb2Header::request(command, message_id, credit_charge, credits);
    header.session_id = session_id;
    header.id = HeaderId::Sync { process_id: 0, tree_id };
    header.encode()
}

/// A header is 64 bytes long.
pub proof fn lemma_header_len(h: Smb2Header)
    ensures
        header_bytes(h).len() == 64,
{
    broadcast use crate::bytes::group_byte_layout;

    reveal(header_bytes);
}

/// Decoding the bytes of a header, whatever follows them, gives the header back.
pub proof fn law_header_roundtrip(h: Smb2Header, rest: Seq<u8>)
    requires
        header_forms_match(h),
    ensures
        header_error(header_bytes(h) + rest) is None,
        header_of(header_bytes(h) + rest) == h,
{
    broadcast use crate::bytes::group_byte_layout;

    reveal(header_bytes);
    let m = header_bytes(h) + rest;
    assert(m.take(4) =~= protocol_id());
    match h.status {
        StatusField::ChannelSequence { channel_sequence, reserved } => {
            assert(u16_at(m, 8) == channel_sequence);
            assert(u16_at(m, 10) == reserved);
        },
        StatusField::Status(status) => {
            assert(u32_at(m, 8) == status);
        },
    }
    match h.id {
        HeaderId::Sync { process_id, tree_id } => {
            assert(u32_at(m, 32) == process_id);
            assert(u32_at(m, 36) == tree_id);
        },
        HeaderId::Async { async_id } => {
            assert(u64_at(m, 32) == async_id);
        },
    }
    assert(u16_at(m, 4) == 64);
    assert(u16_at(m, 6) == h.credit_charge);
    assert(u16_at(m, 12) == h.command.code());
    assert(u16_at(m, 14) == h.credits);
    assert(u32_at(m, 16) == h.flags);
    assert(u32_at(m, 20) == h.next_command);
    assert(u64_at(m, 24) == h.message_id);
    assert(u64_at(m, 40) == h.session_id);
}

} // verus!
