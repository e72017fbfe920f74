//! SMB client protocol state and request engine: negotiation, session and tree state, MessageIds,
//! credits, outstanding requests, signing, cancellation and reconnect decisions.

pub mod cancel;
pub mod cancellation;
pub mod close;
pub mod connection;
pub mod credits;
pub mod durable_open;
pub mod error;
pub mod exchange;
pub mod file;
pub mod message_id;
pub mod negotiate;
pub mod pipeline;
pub mod preauth;
pub mod query;
pub mod read;
pub mod read_async;
pub mod reconnect;
pub mod recovering_read;
pub mod session;
pub mod signing;
pub mod transport;
pub mod tree;
