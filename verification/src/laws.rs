//! What the messages, keys and reads of the library are, read from their bytes and results alone.

pub mod answers;
pub mod authenticate;
pub mod bridge;
pub mod contexts;
pub mod encodings;
pub mod keys;
pub mod limits;
pub mod listing;
pub mod messages;
pub mod negotiation;
pub mod reads;
pub mod recovery;
pub mod requests;
pub mod sessions;
pub mod starts;
pub mod streams;
pub mod texts;
pub mod tokens;
