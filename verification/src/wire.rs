//! SMB2/SMB3 packet layouts and direct-TCP framing.

pub mod body;
pub mod constants;
pub mod context;
pub mod create;
pub mod error;
pub mod file_io;
pub mod framing;
pub mod header;
pub mod negotiate;
pub mod query;
pub mod session;
pub mod tree;
