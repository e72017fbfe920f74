//! What the SESSION_SETUP exchange asks of an authentication mechanism.

use crate::auth::secret::SecretBytes;
use crate::text::append_text;
use crate::text::copy_text;
use vstd::prelude::*;

verus! {

/// Authentication mechanisms.
#[derive(Clone, Copy, Debug, PartialEq, Eq, Structural)]
pub enum AuthMechanism {
    Anonymous,
    NtlmV2,
    Kerberos,
}

/// Whether the mechanism expects another token from the server.
#[derive(Clone, Copy, Debug, PartialEq, Eq, Structural)]
pub enum AuthState {
    Continue,
    Complete,
}

/// One client token and the state that producing it led to.
#[derive(Debug, PartialEq, Eq)]
pub struct AuthStep {
    pub token: Vec<u8>,
    pub state: AuthState,
}

/// Why authentication failed.
#[derive(Clone, Copy, Debug, PartialEq, Eq)]
pub enum AuthError {
    InvalidToken(&'static str),
    InvalidState(&'static str),
    Unsupported(&'static str),
    Failed(&'static str),
}

impl AuthError {
    /// The text that describes the error.
    pub open spec fn message(self) -> Seq<char> {
        match self {
            AuthError::InvalidToken(m) => "invalid authentication token: "@ + m@,
            AuthError::InvalidState(m) => "invalid authentication state: "@ + m@,
            AuthError::Unsupported(m) => "unsupported authentication feature: "@ + m@,
            AuthError::Failed(m) => "authentication failed: "@ + m@,
        }
    }

    /// Describes the error.
    pub fn to_text(&self) -> (r: String)
        ensures
            r@ == self.message(),
    {
        match self {
            AuthError::InvalidToken(m) => {
                let mut out = copy_text("invalid authentication token: ");
                append_text(&mut out, m);
                out
            },
            AuthError::InvalidState(m) => {
                let mut out = copy_text("invalid authentication state: ");
                append_text(&mut out, m);
                out
            },
            AuthError::Unsupported(m) => {
                let mut out = copy_text("unsupported authentication feature: ");
                append_text(&mut out, m);
                out
            },
            AuthError::Failed(m) => {
                let mut out = copy_text("authentication failed: ");
                append_text(&mut out, m);
                out
            },
        }
    }
}

/// A session key by its bytes.
pub open spec fn key_view(key: Option<SecretBytes>) -> Option<Seq<u8>> {
    match key {
        Some(key) => Some(key@),
        None => None,
    }
}

/// Authentication mechanism plugged into the SESSION_SETUP exchange.
///
/// Implementations own SPNEGO/NTLM/Kerberos token semantics. The client only transports the
/// returned opaque tokens and consumes the final session key after authentication completes.
///
/// The spec functions say how an implementation behaves. One that leaves them out promises nothing of
/// its tokens and its key.
pub trait AuthProvider {
    /// The mechanism that this provider speaks.
    open spec fn speaks(&self) -> AuthMechanism {
        arbitrary()
    }

    /// Whether a provider in one state can open an exchange so, and then be in the other state.
    open spec fn opens(before: &Self, after: &Self, answer: Result<AuthStep, AuthError>) -> bool {
        true
    }

    /// Whether a provider in one state can answer a server token so, and then be in the other state.
    open spec fn answers(
        before: &Self,
        after: &Self,
        server_token: Seq<u8>,
        answer: Result<AuthStep, AuthError>,
    ) -> bool {
        true
    }

    /// Whether a provider in one state can hand this key over, and then be in the other state.
    open spec fn hands_over(before: &Self, after: &Self, key: Option<Seq<u8>>) -> bool {
        true
    }

    /// The mechanism that this provider speaks.
    fn mechanism(&self) -> (r: AuthMechanism)
        ensures
            r == self.speaks(),
    ;

    /// Produces the first token sent in SESSION_SETUP.
    fn initial_token(&mut self) -> (r: Result<AuthStep, AuthError>)
        ensures
            Self::opens(&*old(self), &*final(self), r),
    ;

    /// Processes one server security blob and optionally produces the next client token.
    fn next_token(&mut self, server_token: &[u8]) -> (r: Result<AuthStep, AuthError>)
        ensures
            Self::answers(&*old(self), &*final(self), server_token@, r),
    ;

    /// Hands over the session key, which is there only after the mechanism has completed.
    fn take_session_key(&mut self) -> (r: Option<SecretBytes>)
        ensures
            Self::hands_over(&*old(self), &*final(self), key_view(r)),
    ;
}

} // verus!
