//! Authentication of SMB sessions: SPNEGO, NTLMv2 and anonymous NTLM.

pub mod anonymous;
pub mod ntlm;
pub mod provider;
pub mod secret;
pub mod spnego;
