//! Anonymous NTLM.

use crate::auth::ntlm::put_security_field;
use crate::auth::ntlm::security_field_of;
use crate::auth::ntlm::AUTHENTICATE_MESSAGE_TYPE;
use crate::auth::ntlm::CHALLENGE_MESSAGE_TYPE;
use crate::auth::ntlm::CLIENT_NEGOTIATE_FLAGS;
use crate::auth::ntlm::NEGOTIATE_MESSAGE_TYPE;
use crate::auth::ntlm::REQUIRED_CHALLENGE_FLAGS;
use crate::auth::provider::AuthError;
use crate::auth::provider::AuthMechanism;
use crate::auth::provider::AuthProvider;
use crate::auth::provider::AuthState;
use crate::auth::provider::AuthStep;
use crate::auth::secret::SecretBytes;
use crate::auth::spnego::encode_neg_token_init_ntlm;
use crate::auth::spnego::encode_neg_token_resp_ntlm;
use crate::auth::spnego::extract_ntlm_of;
use crate::auth::spnego::extract_ntlm_token;
use crate::auth::spnego::neg_token_init_of;
use crate::auth::spnego::neg_token_resp_of;
use crate::auth::spnego::ntlmssp;
use crate::auth::spnego::NTLMSSP_SIGNATURE;
use crate::bytes::begins_with;
use crate::bytes::get_u32;
use crate::bytes::has_prefix;
use crate::bytes::le32;
use crate::bytes::put_bytes;
use crate::bytes::put_u32;
use crate::bytes::put_u8;
use crate::bytes::put_zeros;
use crate::bytes::u32_at;
use crate::bytes::zeros;
use vstd::prelude::*;

verus! {

/// The flag by which a client asks for an anonymous session.
pub const NEGOTIATE_ANONYMOUS: u32 = 0x0000_0800;

/// What the client offers: everything that it offers with credentials, and anonymity.
pub const CLIENT_FLAGS: u32 = CLIENT_NEGOTIATE_FLAGS | NEGOTIATE_ANONYMOUS;

/// How far the exchange has come.
#[derive(Clone, Copy, Debug, PartialEq, Eq, Structural)]
pub enum AnonymousState {
    New,
    NegotiateSent,
    Complete,
}

/// NTLM NullSession provider transported through SPNEGO.
///
/// Anonymous authentication is an NTLM AUTHENTICATE message with an empty user, an empty NT
/// challenge response, and a one-byte zero LM challenge response. Anonymous sessions intentionally
/// have no usable SMB signing/session key.
#[derive(Debug)]
pub struct AnonymousNtlmProvider {
    pub state: AnonymousState,
}

impl AnonymousNtlmProvider {
    /// A provider at the beginning of its exchange.
    pub fn new() -> (r: Self)
        ensures
            r.state == AnonymousState::New,
    {
        AnonymousNtlmProvider { state: AnonymousState::New }
    }
}

impl Default for AnonymousNtlmProvider {
    fn default() -> (r: Self)
        ensures
            r.state == AnonymousState::New,
    {
        AnonymousNtlmProvider::new()
    }
}

/// The NTLM message that opens an anonymous exchange.
pub open spec fn anonymous_negotiate_bytes() -> Seq<u8> {
    ntlmssp() + le32(NEGOTIATE_MESSAGE_TYPE) + le32(CLIENT_FLAGS) + zeros(16)
}

/// The NTLM message that completes an anonymous exchange: only the LM response holds a byte.
pub open spec fn anonymous_authenticate_bytes(challenge_flags: u32) -> Seq<u8> {
    ntlmssp() + le32(AUTHENTICATE_MESSAGE_TYPE) + security_field_of(1, 72) + security_field_of(0, 73)
        + security_field_of(0, 73) + security_field_of(0, 73) + security_field_of(0, 73)
        + security_field_of(0, 73) + le32(challenge_flags & CLIENT_FLAGS) + zeros(8) + seq![0u8]
}

/// Why an NTLM message is no challenge that an anonymous client accepts, if it is none.
pub open spec fn anonymous_challenge_error(m: Seq<u8>) -> Option<AuthError> {
    if m.len() < 24 {
        Some(AuthError::InvalidToken("anonymous NTLM CHALLENGE is truncated"))
    } else if !begins_with(m, ntlmssp()) {
        Some(AuthError::InvalidToken("invalid NTLMSSP signature"))
    } else if u32_at(m, 8) != CHALLENGE_MESSAGE_TYPE {
        Some(AuthError::InvalidToken("expected NTLM CHALLENGE message"))
    } else if u32_at(m, 20) & REQUIRED_CHALLENGE_FLAGS != REQUIRED_CHALLENGE_FLAGS {
        Some(
            AuthError::Unsupported(
                "server NTLM challenge lacks Unicode, NTLM, or extended-session-security support",
            ),
        )
    } else {
        None
    }
}

/// Builds the NTLM message that opens an anonymous exchange.
fn build_negotiate_message() -> (r: Vec<u8>)
    ensures
        r@ == anonymous_negotiate_bytes(),
{
    let mut message: Vec<u8> = Vec::new();
    put_bytes(&mut message, &NTLMSSP_SIGNATURE);
    assert(message@ =~= ntlmssp());
    put_u32(&mut message, NEGOTIATE_MESSAGE_TYPE);
    put_u32(&mut message, CLIENT_FLAGS);
    put_zeros(&mut message, 16);
    message
}

/// Reads the flags of a challenge.
pub fn parse_challenge_flags(message: &[u8]) -> (r: Result<u32, AuthError>)
    ensures
        match anonymous_challenge_error(message@) {
            Some(e) => r == Err::<u32, AuthError>(e),
            None => r == Ok::<u32, AuthError>(u32_at(message@, 20)),
        },
{
    if message.len() < 24 {
        return Err(AuthError::InvalidToken("anonymous NTLM CHALLENGE is truncated"));
    }
    assert(NTLMSSP_SIGNATURE@ =~= ntlmssp());
    if !has_prefix(message, &NTLMSSP_SIGNATURE) {
        return Err(AuthError::InvalidToken("invalid NTLMSSP signature"));
    }
    if get_u32(message, 8) != CHALLENGE_MESSAGE_TYPE {
        return Err(AuthError::InvalidToken("expected NTLM CHALLENGE message"));
    }
    let challenge_flags: u32 = get_u32(message, 20);
    if challenge_flags & REQUIRED_CHALLENGE_FLAGS != REQUIRED_CHALLENGE_FLAGS {
        return Err(
            AuthError::Unsupported(
                "server NTLM challenge lacks Unicode, NTLM, or extended-session-security support",
            ),
        );
    }
    Ok(challenge_flags)
}

/// Builds the NTLM message that completes an anonymous exchange.
pub fn build_authenticate_message(challenge_flags: u32) -> (r: Vec<u8>)
    ensures
        r@ == anonymous_authenticate_bytes(challenge_flags),
{
    let mut message: Vec<u8> = Vec::new();
    put_bytes(&mut message, &NTLMSSP_SIGNATURE);
    assert(message@ =~= ntlmssp());
    put_u32(&mut message, AUTHENTICATE_MESSAGE_TYPE);
    put_security_field(&mut message, 1, 72);
    put_security_field(&mut message, 0, 73);
    put_security_field(&mut message, 0, 73);
    put_security_field(&mut message, 0, 73);
    put_security_field(&mut message, 0, 73);
    put_security_field(&mut message, 0, 73);
    put_u32(&mut message, challenge_flags & CLIENT_FLAGS);
    put_zeros(&mut message, 8);
    put_u8(&mut message, 0);
    message
}

/// What an anonymous provider makes of a server token.
pub open spec fn anonymous_next(state: AnonymousState, server_token: Seq<u8>) -> Result<
    (Seq<u8>, AuthState),
    AuthError,
> {
    match state {
        AnonymousState::New => Err(
            AuthError::InvalidState("anonymous NTLM CHALLENGE arrived before NEGOTIATE was sent"),
        ),
        AnonymousState::Complete => Ok((Seq::empty(), AuthState::Complete)),
        AnonymousState::NegotiateSent => match extract_ntlm_of(server_token) {
            Err(e) => Err(e),
            Ok(challenge) => match anonymous_challenge_error(challenge) {
                Some(e) => Err(e),
                None => Ok(
                    (
                        neg_token_resp_of(anonymous_authenticate_bytes(u32_at(challenge, 20))),
                        AuthState::Complete,
                    ),
                ),
            },
        },
    }
}

impl AuthProvider for AnonymousNtlmProvider {
    open spec fn speaks(&self) -> AuthMechanism {
        AuthMechanism::Anonymous
    }

    open spec fn opens(before: &Self, after: &Self, answer: Result<AuthStep, AuthError>) -> bool {
        if before.state == AnonymousState::New {
            &&& answer is Ok
            &&& answer->Ok_0.token@ == neg_token_init_of(anonymous_negotiate_bytes())
            &&& answer->Ok_0.state == AuthState::Continue
            &&& after.state == AnonymousState::NegotiateSent
        } else {
            &&& answer == Err::<AuthStep, _>(
                AuthError::InvalidState("anonymous NTLM NEGOTIATE token has already been emitted"),
            )
            &&& after.state == before.state
        }
    }

    open spec fn answers(
        before: &Self,
        after: &Self,
        server_token: Seq<u8>,
        answer: Result<AuthStep, AuthError>,
    ) -> bool {
        match anonymous_next(before.state, server_token) {
            Err(e) => answer == Err::<AuthStep, AuthError>(e) && after.state == before.state,
            Ok((token, state)) => answer is Ok && answer->Ok_0.token@ == token && answer->Ok_0.state
                == state && after.state == AnonymousState::Complete,
        }
    }

    open spec fn hands_over(before: &Self, after: &Self, key: Option<Seq<u8>>) -> bool {
        key is None && after.state == before.state
    }

    fn mechanism(&self) -> (r: AuthMechanism)
        ensures
            r == AuthMechanism::Anonymous,
    {
        AuthMechanism::Anonymous
    }

    fn initial_token(&mut self) -> (r: Result<AuthStep, AuthError>)
        ensures
            Self::opens(&*old(self), &*final(self), r),
    {
        if self.state != AnonymousState::New {
            return Err(
                AuthError::InvalidState("anonymous NTLM NEGOTIATE token has already been emitted"),
            );
        }
        self.state = AnonymousState::NegotiateSent;
        Ok(
            AuthStep {
                token: encode_neg_token_init_ntlm(&build_negotiate_message()),
                state: AuthState::Continue,
            },
        )
    }

    fn next_token(&mut self, server_token: &[u8]) -> (r: Result<AuthStep, AuthError>)
        ensures
            Self::answers(&*old(self), &*final(self), server_token@, r),
    {
        match self.state {
            AnonymousState::New => Err(
                AuthError::InvalidState(
                    "anonymous NTLM CHALLENGE arrived before NEGOTIATE was sent",
                ),
            ),
            AnonymousState::Complete => {
                let token: Vec<u8> = Vec::new();
                assert(token@ =~= Seq::empty());
                Ok(AuthStep { token, state: AuthState::Complete })
            },
            AnonymousState::NegotiateSent => {
                let challenge = extract_ntlm_token(server_token)?;
                let challenge_flags: u32 = parse_challenge_flags(challenge)?;
                self.state = AnonymousState::Complete;
                Ok(
                    AuthStep {
                        token: encode_neg_token_resp_ntlm(
                            &build_authenticate_message(challenge_flags),
                        ),
                        state: AuthState::Complete,
                    },
                )
            },
        }
    }

    fn take_session_key(&mut self) -> (r: Option<SecretBytes>)
        ensures
            r is None,
            final(self).state == old(self).state,
    {
        None
    }
}

} // verus!
