//! Numeric values of SMB2 fields.

use vstd::prelude::*;

verus! {

/// Length of the SMB2 packet header.
pub const SMB2_HEADER_SIZE: usize = 64;

/// The packet was sent by the server.
pub const FLAG_SERVER_TO_REDIR: u32 = 0x0000_0001;

/// The header carries an AsyncId in place of a TreeId.
pub const FLAG_ASYNC_COMMAND: u32 = 0x0000_0002;

/// The packet carries a signature.
pub const FLAG_SIGNED: u32 = 0x0000_0008;

pub const SECURITY_MODE_SIGNING_ENABLED: u16 = 0x0001;

pub const SECURITY_MODE_SIGNING_REQUIRED: u16 = 0x0002;

pub const CAPABILITY_LARGE_MTU: u32 = 0x0000_0004;

pub const CAPABILITY_PERSISTENT_HANDLES: u32 = 0x0000_0010;

pub const CONTEXT_PREAUTH_INTEGRITY_CAPABILITIES: u16 = 0x0001;

pub const CONTEXT_SIGNING_CAPABILITIES: u16 = 0x0008;

pub const PREAUTH_HASH_SHA_512: u16 = 0x0001;

pub const SESSION_FLAG_IS_GUEST: u16 = 0x0001;

pub const SESSION_FLAG_IS_NULL: u16 = 0x0002;

pub const SESSION_FLAG_ENCRYPT_DATA: u16 = 0x0004;

pub const TREE_CONNECT_FLAG_EXTENSION_PRESENT: u16 = 0x0004;

pub const SHARE_TYPE_DISK: u8 = 0x01;

pub const SHARE_FLAG_NO_CACHING: u32 = 0x0000_0030;

pub const SHARE_CAPABILITY_CONTINUOUS_AVAILABILITY: u32 = 0x0000_0010;

pub const OPLOCK_LEVEL_NONE: u8 = 0x00;

pub const OPLOCK_LEVEL_BATCH: u8 = 0x09;

pub const IMPERSONATION_LEVEL_IMPERSONATION: u32 = 0x0000_0002;

pub const ACCESS_GENERIC_READ: u32 = 0x8000_0000;

pub const ACCESS_LIST_DIRECTORY: u32 = 0x0000_0001;

pub const ACCESS_READ_ATTRIBUTES: u32 = 0x0000_0080;

pub const ACCESS_SYNCHRONIZE: u32 = 0x0010_0000;

pub const SHARE_ACCESS_READ: u32 = 0x0000_0001;

pub const SHARE_ACCESS_WRITE: u32 = 0x0000_0002;

pub const SHARE_ACCESS_DELETE: u32 = 0x0000_0004;

pub const CREATE_DISPOSITION_OPEN: u32 = 0x0000_0001;

pub const CREATE_OPTION_DIRECTORY_FILE: u32 = 0x0000_0001;

pub const CREATE_OPTION_NON_DIRECTORY_FILE: u32 = 0x0000_0040;

pub const CREATE_OPTION_RANDOM_ACCESS: u32 = 0x0000_0800;

pub const CREATE_ACTION_OPENED: u32 = 0x0000_0001;

pub const CLOSE_FLAG_POSTQUERY_ATTRIB: u16 = 0x0001;

pub const INFO_TYPE_FILE: u8 = 0x01;

pub const QUERY_INFO_FLAG_NONE: u32 = 0x0000_0000;

pub const QUERY_DIRECTORY_FLAG_NONE: u8 = 0x00;

pub const QUERY_DIRECTORY_FLAG_RESTART_SCANS: u8 = 0x01;

pub const DURABLE_HANDLE_FLAG_PERSISTENT: u32 = 0x0000_0002;

} // verus!
