//! SMB2/SMB3 client engine: wire formats, authentication, credits, signing, read scheduling,
//! reconnect decisions and read-ahead caching, as verified functions on plain values.

pub mod android;
pub mod auth;
pub mod bytes;
pub mod client;
pub mod clock;
pub mod crypto;
pub mod fs;
pub mod laws;
pub mod probe;
pub mod stream;
pub mod testkit;
pub mod text;
pub mod wire;
