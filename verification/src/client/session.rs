//! SESSION_SETUP: the token exchange that turns a connection into a session.

use crate::auth::provider::key_view;
use crate::auth::provider::AuthError;
use crate::auth::provider::AuthMechanism;
use crate::auth::provider::AuthProvider;
use crate::auth::provider::AuthState;
use crate::auth::provider::AuthStep;
use crate::auth::secret::SecretBytes;
use crate::bytes::u16_at;
use crate::client::connection::Connection;
use crate::client::error::from_wire;
use crate::client::error::ClientError;
use crate::client::negotiate::NegotiatedParameters;
use crate::client::preauth::preauth_next;
use crate::client::preauth::PreauthIntegrityHash;
use crate::client::signing::derive_error;
use crate::client::signing::dialect_algorithm;
use crate::client::signing::preauth_view;
use crate::client::signing::sign_error;
use crate::client::signing::signed_message;
use crate::client::signing::signing_key_of;
use crate::client::signing::unsigned_rest;
use crate::client::signing::verify_error;
use crate::client::signing::SigningAlgorithm;
use crate::client::signing::SigningState;
use crate::laws::messages::law_session_setup_message;
use crate::laws::messages::session_setup_sent;
use crate::laws::answers::answers_setup;
use crate::laws::answers::law_session_setup_answer;
use crate::laws::answers::token_stands;
use crate::wire::constants::FLAG_SIGNED;
use crate::wire::constants::SECURITY_MODE_SIGNING_ENABLED;
use crate::wire::constants::SESSION_FLAG_ENCRYPT_DATA;
use crate::wire::constants::SESSION_FLAG_IS_GUEST;
use crate::wire::constants::SESSION_FLAG_IS_NULL;
use crate::wire::error::WireError;
use crate::wire::header::header_error;
use crate::wire::header::header_of;
use crate::wire::header::Command;
use crate::wire::header::Smb2Header;
use crate::wire::header::StatusField;
use crate::wire::session::session_setup_request_bytes;
use crate::wire::session::session_setup_response_blob;
use crate::wire::session::session_setup_response_error;
use crate::wire::session::SessionSetupRequest;
use crate::wire::session::SessionSetupResponse;
use vstd::prelude::*;

verus! {

pub const STATUS_SUCCESS: u32 = 0x0000_0000;

pub const STATUS_MORE_PROCESSING_REQUIRED: u32 = 0xC000_0016;

/// How a session is set up.
#[derive(Debug, Clone, Copy)]
pub struct SessionSetupConfig {
    /// Client signing policy encoded with SMB2_NEGOTIATE_SIGNING_* values.
    pub security_mode: u8,
    /// SESSION_SETUP currently only defines the DFS capability bit. Keep this zero unless needed.
    pub capabilities: u32,
    pub previous_session_id: u64,
    pub credit_request: u16,
    pub max_rounds: usize,
}

impl Default for SessionSetupConfig {
    fn default() -> (r: Self)
        ensures
            r == (SessionSetupConfig {
                security_mode: 1,
                capabilities: 0,
                previous_session_id: 0,
                credit_request: 32,
                max_rounds: 8,
            }),
    {
        SessionSetupConfig {
            security_mode: SECURITY_MODE_SIGNING_ENABLED as u8,
            capabilities: 0,
            previous_session_id: 0,
            credit_request: 32,
            max_rounds: 8,
        }
    }
}

/// An authenticated session on a connection.
pub struct SessionConnection<T> {
    pub connection: Connection<T>,
    pub session_id: u64,
    pub session_flags: u16,
    pub mechanism: AuthMechanism,
    pub session_key: Option<SecretBytes>,
    pub signing: Option<SigningState>,
    pub signing_required: bool,
}

/// How messages are signed: the algorithm and the key.
pub open spec fn signing_view(signing: Option<SigningState>) -> Option<
    (SigningAlgorithm, Seq<u8>),
> {
    match signing {
        Some(state) => Some((state.algorithm, state.key@)),
        None => None,
    }
}

impl<T> SessionConnection<T> {
    pub fn session_id(&self) -> (r: u64)
        ensures
            r == self.session_id,
    {
        self.session_id
    }

    pub fn session_flags(&self) -> (r: u16)
        ensures
            r == self.session_flags,
    {
        self.session_flags
    }

    pub fn mechanism(&self) -> (r: AuthMechanism)
        ensures
            r == self.mechanism,
    {
        self.mechanism
    }

    pub fn has_session_key(&self) -> (r: bool)
        ensures
            r == (self.session_key is Some),
    {
        self.session_key.is_some()
    }

    pub fn signing_required(&self) -> (r: bool)
        ensures
            r == self.signing_required,
    {
        self.signing_required
    }

    pub fn signing_algorithm(&self) -> (r: Option<SigningAlgorithm>)
        ensures
            r == match self.signing {
                Some(state) => Some(state.algorithm),
                None => None,
            },
    {
        match &self.signing {
            Some(state) => Some(state.algorithm()),
            None => None,
        }
    }

    pub fn negotiated(&self) -> (r: Option<&NegotiatedParameters>)
        ensures
            r is Some <==> self.connection.negotiated is Some,
            r is Some ==> *r->0 == self.connection.negotiated->0,
    {
        self.connection.negotiated()
    }

    pub fn available_credits(&self) -> (r: Option<u32>)
        ensures
            r == self.connection.credit_window(),
    {
        self.connection.available_credits()
    }

    /// SMB 3.1.1 session preauthentication hash used for key derivation.
    ///
    /// It covers the final SESSION_SETUP request but intentionally not the final successful
    /// SESSION_SETUP response, whose signature is verified with the key derived from this value.
    pub fn preauth_hash(&self) -> (r: Option<&PreauthIntegrityHash>)
        ensures
            r is Some <==> self.connection.preauth_hash is Some,
            r is Some ==> *r->0 == self.connection.preauth_hash->0,
    {
        self.connection.preauth_hash()
    }

    /// Signs a message with the session's key.
    pub fn sign_message(&self, message: &mut Vec<u8>) -> (r: Result<(), ClientError>)
        ensures
            match signing_view(self.signing) {
                None => r == Err::<(), _>(
                    ClientError::Protocol("SMB session does not have signing state"),
                ) && final(message)@ == old(message)@,
                Some((algorithm, key)) => match sign_error(algorithm, key, old(message)@) {
                    Some(e) => r == Err::<(), ClientError>(e) && final(message)@
                        == unsigned_rest(old(message)@),
                    None => r is Ok && final(message)@ == signed_message(
                        algorithm,
                        key,
                        old(message)@,
                    ) && verify_error(algorithm, key, final(message)@) is None,
                },
            },
    {
        match &self.signing {
            None => Err(ClientError::Protocol("SMB session does not have signing state")),
            Some(signing) => signing.sign(message),
        }
    }

    /// Verifies the signature of a message with the session's key.
    pub fn verify_message(&self, message: &[u8]) -> (r: Result<(), ClientError>)
        ensures
            match signing_view(self.signing) {
                None => r == Err::<(), _>(
                    ClientError::Protocol("SMB session does not have signing state"),
                ),
                Some((algorithm, key)) => match verify_error(algorithm, key, message@) {
                    Some(e) => r == Err::<(), ClientError>(e),
                    None => r is Ok,
                },
            },
    {
        match &self.signing {
            None => Err(ClientError::Protocol("SMB session does not have signing state")),
            Some(signing) => signing.verify(message),
        }
    }

    /// Gives the connection back.
    pub fn into_connection(self) -> (r: Connection<T>)
        ensures
            r == self.connection,
    {
        self.connection
    }

    /// Why a request cannot be signed where it has to be, if it cannot.
    pub open spec fn request_sign_error(
        self,
        must_sign: bool,
        m: Seq<u8>,
        no_key: &'static str,
    ) -> Option<ClientError> {
        if !must_sign {
            None
        } else {
            match signing_view(self.signing) {
                None => Some(ClientError::Protocol(no_key)),
                Some((algorithm, key)) => sign_error(algorithm, key, m),
            }
        }
    }

    /// A request as it is sent: signed where it has to be.
    pub open spec fn request_signed(self, must_sign: bool, m: Seq<u8>) -> Seq<u8> {
        match (must_sign, signing_view(self.signing)) {
            (true, Some((algorithm, key))) => signed_message(algorithm, key, m),
            _ => m,
        }
    }

    /// Signs a request where it has to be signed.
    pub fn sign_request(
        &self,
        must_sign: bool,
        message: &mut Vec<u8>,
        no_key: &'static str,
    ) -> (r: Result<(), ClientError>)
        ensures
            match self.request_sign_error(must_sign, old(message)@, no_key) {
                Some(e) => r == Err::<(), ClientError>(e) && final(message)@ == if self.signing is None {
                    old(message)@
                } else {
                    unsigned_rest(old(message)@)
                },
                None => r is Ok && final(message)@ == self.request_signed(
                    must_sign,
                    old(message)@,
                ),
            },
    {
        if must_sign {
            match &self.signing {
                None => {
                    return Err(ClientError::Protocol(no_key));
                },
                Some(signing) => {
                    signing.sign(message)?;
                },
            }
        }
        Ok(())
    }

    /// Why a response is not accepted for its signature, if it is not: a signature that is there
    /// must be valid, and one that is owed must be there.
    pub open spec fn response_signature_error(
        self,
        owed: bool,
        m: Seq<u8>,
        no_key: &'static str,
        omitted: &'static str,
    ) -> Option<ClientError> {
        if header_of(m).flags & FLAG_SIGNED != 0 {
            match signing_view(self.signing) {
                None => Some(ClientError::Protocol(no_key)),
                Some((algorithm, key)) => verify_error(algorithm, key, m),
            }
        } else if owed {
            Some(ClientError::Protocol(omitted))
        } else {
            None
        }
    }

    /// Checks the signature of a response.
    pub fn verify_response(
        &self,
        owed: bool,
        message: &[u8],
        header: &Smb2Header,
        no_key: &'static str,
        omitted: &'static str,
    ) -> (r: Result<(), ClientError>)
        requires
            *header == header_of(message@),
        ensures
            match self.response_signature_error(owed, message@, no_key, omitted) {
                Some(e) => r == Err::<(), ClientError>(e),
                None => r is Ok,
            },
    {
        if header.flags & FLAG_SIGNED != 0 {
            match &self.signing {
                None => Err(ClientError::Protocol(no_key)),
                Some(signing) => signing.verify(message),
            }
        } else if owed {
            Err(ClientError::Protocol(omitted))
        } else {
            Ok(())
        }
    }

    /// Whether the session encrypts its messages.
    pub open spec fn encrypts(self) -> bool {
        self.session_flags & SESSION_FLAG_ENCRYPT_DATA != 0
    }

    /// Refuses to work on a session that encrypts its messages.
    pub fn ensure_not_encrypted(&self) -> (r: Result<(), ClientError>)
        ensures
            self.encrypts() ==> r == Err::<(), _>(
                ClientError::Protocol("encrypted SMB sessions are not implemented yet"),
            ),
            !self.encrypts() ==> r is Ok,
    {
        if self.session_flags & SESSION_FLAG_ENCRYPT_DATA != 0 {
            return Err(ClientError::Protocol("encrypted SMB sessions are not implemented yet"));
        }
        Ok(())
    }
}

/// Why a SessionId is not accepted, if it is not: once assigned it never changes.
pub open spec fn session_id_error(current: u64, received: u64) -> Option<ClientError> {
    if current != 0 && received != current {
        Some(ClientError::Protocol("server changed SessionId during SESSION_SETUP"))
    } else {
        None
    }
}

/// Checks that a SessionId that was assigned stays as it is.
pub fn validate_session_id(current: u64, received: u64) -> (r: Result<(), ClientError>)
    ensures
        match session_id_error(current, received) {
            Some(e) => r == Err::<(), ClientError>(e),
            None => r is Ok,
        },
{
    if current != 0 && received != current {
        return Err(ClientError::Protocol("server changed SessionId during SESSION_SETUP"));
    }
    Ok(())
}

/// A preauthentication hash after a message, where there is one.
pub open spec fn preauth_after(hash: Option<Seq<u8>>, m: Seq<u8>) -> Option<Seq<u8>> {
    match hash {
        Some(hash) => Some(preauth_next(hash, m)),
        None => None,
    }
}

/// Takes a message into the preauthentication hash, where there is one.
fn update_preauth(hash: Option<PreauthIntegrityHash>, message: &[u8]) -> (r: Option<
    PreauthIntegrityHash,
>)
    ensures
        preauth_view(r) == preauth_after(preauth_view(hash), message@),
{
    match hash {
        Some(hash) => {
            let mut hash = hash;
            hash.update(message);
            Some(hash)
        },
        None => None,
    }
}

/// A token exchange in progress.
pub struct SessionSetup<T> {
    pub connection: Connection<T>,
    pub config: SessionSetupConfig,
    pub mechanism: AuthMechanism,
    /// The state of the authentication after the token that was sent last.
    pub step_state: AuthState,
    /// The SessionId that the server assigned, or zero.
    pub session_id: u64,
    /// How many more requests may be sent.
    pub rounds_left: usize,
    /// The MessageId of the request that was sent last.
    pub message_id: u64,
}

/// What a SESSION_SETUP response asks for.
pub enum SetupReply {
    /// The server wants another token in answer to this one.
    More(Vec<u8>),
    /// The server accepts; this token, where there is one, is left to be checked.
    Accepted { session_flags: u16, token: Vec<u8> },
}

/// Why no token exchange can be started, if none can.
pub open spec fn setup_start_error<T>(
    connection: Connection<T>,
    config: SessionSetupConfig,
) -> Option<ClientError> {
    if connection.negotiated is None {
        Some(ClientError::Protocol("SESSION_SETUP requires a negotiated SMB connection"))
    } else if config.max_rounds == 0 {
        Some(ClientError::Protocol("SESSION_SETUP max_rounds must be greater than zero"))
    } else {
        None
    }
}

/// Why no request can be sent with a token, if none can.
pub open spec fn setup_send_error<T>(setup: SessionSetup<T>, token: Seq<u8>) -> Option<ClientError> {
    let charge = setup.connection.single_charge();
    if setup.rounds_left == 0 {
        Some(
            ClientError::Protocol(
                "SESSION_SETUP exceeded the configured authentication round limit",
            ),
        )
    } else if setup.connection.negotiated is None {
        Some(ClientError::Protocol("credit calculation requires negotiated parameters"))
    } else if setup.connection.charge_error(charge) is Some {
        setup.connection.charge_error(charge)
    } else if token.len() > u16::MAX {
        Some(ClientError::Wire(WireError::TooLong("the security blob")))
    } else {
        None
    }
}

/// The request that carries a token.
pub open spec fn setup_request_bytes<T>(setup: SessionSetup<T>, token: Seq<u8>) -> Seq<u8> {
    let charge = setup.connection.single_charge();
    session_setup_request_bytes(
        0,
        setup.config.security_mode,
        setup.config.capabilities,
        setup.config.previous_session_id,
        token,
        setup.connection.message_ids.next,
        setup.session_id,
        charge,
        setup.connection.credit_request(charge, setup.config.credit_request),
    )
}

/// Whether two connections differ at most in their preauthentication hash.
pub open spec fn same_but_preauth<T>(a: Connection<T>, b: Connection<T>) -> bool {
    &&& a.transport == b.transport
    &&& a.message_ids == b.message_ids
    &&& a.negotiated == b.negotiated
    &&& a.credits == b.credits
}

/// The NTSTATUS of a response header.
pub open spec fn status_of(status: StatusField) -> u32 {
    status->Status_0
}

/// Why a SESSION_SETUP response is not accepted, if it is not.
pub open spec fn setup_receive_error<T>(setup: SessionSetup<T>, m: Seq<u8>) -> Option<ClientError> {
    let h = header_of(m);
    if header_error(m) is Some {
        Some(ClientError::Wire(header_error(m)->0))
    } else if setup.connection.grant_error(h.credits) is Some {
        setup.connection.grant_error(h.credits)
    } else if h.command != Command::SessionSetup {
        Some(ClientError::Protocol("SESSION_SETUP response command does not match request"))
    } else if h.message_id != setup.message_id {
        Some(ClientError::Protocol("SESSION_SETUP response MessageId does not match request"))
    } else if !(h.status is Status) {
        Some(ClientError::Protocol("SESSION_SETUP response used request header form"))
    } else if status_of(h.status) != STATUS_SUCCESS && status_of(h.status)
        != STATUS_MORE_PROCESSING_REQUIRED {
        Some(ClientError::ServerStatus(status_of(h.status)))
    } else if session_setup_response_error(m) is Some {
        Some(ClientError::Wire(session_setup_response_error(m)->0))
    } else if session_id_error(setup.session_id, h.session_id) is Some {
        session_id_error(setup.session_id, h.session_id)
    } else if status_of(h.status) == STATUS_MORE_PROCESSING_REQUIRED && setup.session_id == 0
        && h.session_id == 0 {
        Some(ClientError::Protocol("server did not assign a SessionId during authentication"))
    } else {
        None
    }
}

/// The SessionId after a response.
pub open spec fn session_id_after(current: u64, received: u64) -> u64 {
    if received != 0 {
        received
    } else {
        current
    }
}

/// Whether a session is a guest's or nobody's. Servers may leave the null flag out for an anonymous
/// context, so the mechanism counts as well as the flag.
pub open spec fn guest_or_null(mechanism: AuthMechanism, session_flags: u16) -> bool {
    session_flags & SESSION_FLAG_IS_GUEST != 0 || mechanism == AuthMechanism::Anonymous
        || session_flags & SESSION_FLAG_IS_NULL != 0
}

/// Whether the messages of a session must be signed.
pub open spec fn session_signs(
    negotiated: NegotiatedParameters,
    mechanism: AuthMechanism,
    session_flags: u16,
) -> bool {
    negotiated.require_signing && !guest_or_null(mechanism, session_flags) && session_flags
        & SESSION_FLAG_ENCRYPT_DATA == 0
}

/// Why an accepted exchange does not lead to a session, if it does not.
pub open spec fn setup_complete_error<T>(
    setup: SessionSetup<T>,
    session_flags: u16,
    session_key: Option<Seq<u8>>,
    m: Seq<u8>,
) -> Option<ClientError> {
    let negotiated = setup.connection.negotiated->0;
    let preauth = preauth_view(setup.connection.preauth_hash);
    let unkeyed = guest_or_null(setup.mechanism, session_flags);
    let failed = derive_error(negotiated.dialect, negotiated.signing_algorithm, preauth);
    if setup.connection.negotiated is None {
        Some(
            ClientError::Protocol("negotiated parameters disappeared during SESSION_SETUP"),
        )
    } else if !unkeyed && session_key is None {
        Some(ClientError::Protocol("authenticated session completed without a session key"))
    } else if !unkeyed && failed is Some {
        failed
    } else if header_of(m).flags & FLAG_SIGNED != 0 {
        if unkeyed {
            Some(
                ClientError::Protocol(
                    "server signed SESSION_SETUP without an available signing key",
                ),
            )
        } else {
            verify_error(
                dialect_algorithm(negotiated.dialect, negotiated.signing_algorithm),
                signing_key_of(negotiated.dialect, session_key->0, preauth),
                m,
            )
        }
    } else if session_signs(negotiated, setup.mechanism, session_flags) {
        Some(ClientError::Protocol("server omitted a required SESSION_SETUP signature"))
    } else {
        None
    }
}

/// Whether a session is the one that an accepted exchange leads to.
pub open spec fn set_up_by<T>(
    session: SessionConnection<T>,
    setup: SessionSetup<T>,
    session_flags: u16,
    session_key: Option<Seq<u8>>,
) -> bool {
    let negotiated = setup.connection.negotiated->0;
    let unkeyed = guest_or_null(setup.mechanism, session_flags);
    &&& session.connection == setup.connection
    &&& session.session_id == setup.session_id
    &&& session.session_flags == session_flags
    &&& session.mechanism == setup.mechanism
    &&& key_view(session.session_key) == if unkeyed {
        None
    } else {
        session_key
    }
    &&& signing_view(session.signing) == if unkeyed {
        None
    } else {
        Some(
            (
                dialect_algorithm(negotiated.dialect, negotiated.signing_algorithm),
                signing_key_of(
                    negotiated.dialect,
                    session_key->0,
                    preauth_view(setup.connection.preauth_hash),
                ),
            ),
        )
    }
    &&& session.signing_required == session_signs(negotiated, setup.mechanism, session_flags)
}

/// Why the final state of an exchange is not accepted, if it is not.
pub open spec fn final_state_error(final_state: AuthState, session_id: u64) -> Option<ClientError> {
    if final_state != AuthState::Complete {
        Some(
            ClientError::Protocol(
                "server completed SESSION_SETUP before authentication provider completed",
            ),
        )
    } else if session_id == 0 {
        Some(
            ClientError::Protocol("successful SESSION_SETUP response has a zero SessionId"),
        )
    } else {
        None
    }
}

/// A token exchange before its first request.
pub open spec fn started_setup<T>(
    connection: Connection<T>,
    mechanism: AuthMechanism,
    config: SessionSetupConfig,
) -> SessionSetup<T> {
    SessionSetup {
        connection,
        config,
        mechanism,
        step_state: AuthState::Continue,
        session_id: 0,
        rounds_left: config.max_rounds,
        message_id: 0,
    }
}

/// Whether an exchange goes on as it does when a step's token is sent in a request.
pub open spec fn setup_sent<T>(
    setup: SessionSetup<T>,
    step: AuthStep,
    next: SessionSetup<T>,
    message: Seq<u8>,
) -> bool {
    &&& setup_send_error(setup, step.token@) is None
    &&& message == setup_request_bytes(setup, step.token@)
    &&& same_but_preauth(
        next.connection,
        setup.connection.charged(setup.connection.single_charge()),
    )
    &&& preauth_view(next.connection.preauth_hash) == preauth_after(
        preauth_view(setup.connection.preauth_hash),
        message,
    )
    &&& next.config == setup.config
    &&& next.mechanism == setup.mechanism
    &&& next.step_state == step.state
    &&& next.session_id == setup.session_id
    &&& next.rounds_left == setup.rounds_left - 1
    &&& next.message_id == setup.connection.message_ids.next
}

/// Whether a response asks for another token.
pub open spec fn asks_for_more(m: Seq<u8>) -> bool {
    status_of(header_of(m).status) == STATUS_MORE_PROCESSING_REQUIRED
}

/// Whether an exchange goes on as it does when a response is accepted. Every response but the
/// final one takes part in the preauthentication hash.
pub open spec fn setup_received<T>(setup: SessionSetup<T>, m: Seq<u8>, next: SessionSetup<T>) -> bool {
    &&& setup_receive_error(setup, m) is None
    &&& same_but_preauth(next.connection, setup.connection.granted(header_of(m).credits))
    &&& preauth_view(next.connection.preauth_hash) == if asks_for_more(m) {
        preauth_after(preauth_view(setup.connection.preauth_hash), m)
    } else {
        preauth_view(setup.connection.preauth_hash)
    }
    &&& next.session_id == session_id_after(setup.session_id, header_of(m).session_id)
    &&& next.config == setup.config
    &&& next.mechanism == setup.mechanism
    &&& next.step_state == setup.step_state
    &&& next.rounds_left == setup.rounds_left
    &&& next.message_id == setup.message_id
}

/// Whether a result is what the answer of a provider comes to in an exchange: its error, or the
/// request that carries its token.
pub open spec fn setup_answered<T>(
    r: Result<(SessionSetup<T>, Vec<u8>), ClientError>,
    setup: SessionSetup<T>,
    answer: Result<AuthStep, AuthError>,
) -> bool {
    match answer {
        Err(e) => r == Err::<(SessionSetup<T>, Vec<u8>), _>(ClientError::Auth(e)),
        Ok(step) => match setup_send_error(setup, step.token@) {
            Some(e) => r == Err::<(SessionSetup<T>, Vec<u8>), ClientError>(e),
            None => r is Ok && setup_sent(setup, step, r->Ok_0.0, r->Ok_0.1@),
        },
    }
}

/// Whether a result is what the beginning of an exchange comes to: the provider's mechanism is
/// spoken, and its first token is sent. Where none can be started, the provider is not asked.
pub open spec fn setup_begun<T, P: AuthProvider>(
    r: Result<(SessionSetup<T>, Vec<u8>), ClientError>,
    connection: Connection<T>,
    config: SessionSetupConfig,
    before: P,
    after: P,
) -> bool {
    match setup_start_error(connection, config) {
        Some(e) => r == Err::<(SessionSetup<T>, Vec<u8>), ClientError>(e) && after == before,
        None => exists|answer: Result<AuthStep, AuthError>| #[trigger]
            P::opens(&before, &after, answer) && setup_answered(
                r,
                started_setup(connection, before.speaks(), config),
                answer,
            ),
    }
}

/// Whether a result is a request that goes out, or the error in its place.
pub open spec fn request_step<T>(
    r: Result<SetupStep<T>, ClientError>,
    sent: Result<(SessionSetup<T>, Vec<u8>), ClientError>,
) -> bool {
    match sent {
        Ok((next, message)) => r == Ok::<_, ClientError>(SetupStep::Send(next, message)),
        Err(e) => r == Err::<SetupStep<T>, ClientError>(e),
    }
}

/// Whether a response that asks for more leads to a result: the provider answers the server's
/// token, and its answer is sent.
pub open spec fn setup_went_on<T, P: AuthProvider>(
    r: Result<SetupStep<T>, ClientError>,
    mid: SessionSetup<T>,
    m: Seq<u8>,
    before: P,
    after: P,
) -> bool {
    exists|answer: Result<AuthStep, AuthError>, sent: Result<(SessionSetup<T>, Vec<u8>), ClientError>|
        {
            &&& #[trigger] P::answers(&before, &after, session_setup_response_blob(m), answer)
            &&& #[trigger] setup_answered(sent, mid, answer)
            &&& request_step(r, sent)
        }
}

/// Whether an exchange that ends in a state leads to a result: where both sides hold it to be over,
/// the provider hands its key over, and the session that the key leads to stands.
pub open spec fn setup_ended<T, P: AuthProvider>(
    r: Result<SetupStep<T>, ClientError>,
    mid: SessionSetup<T>,
    state: AuthState,
    m: Seq<u8>,
    before: P,
    after: P,
) -> bool {
    let flags = u16_at(m, 66);
    match final_state_error(state, mid.session_id) {
        Some(e) => r == Err::<SetupStep<T>, ClientError>(e) && after == before,
        None => exists|key: Option<Seq<u8>>| #[trigger]
            P::hands_over(&before, &after, key) && match setup_complete_error(mid, flags, key, m) {
                Some(e) => r == Err::<SetupStep<T>, ClientError>(e),
                None => r is Ok && r->Ok_0 is Done && set_up_by(r->Ok_0->Done_0, mid, flags, key),
            },
    }
}

/// Whether the provider's answer to the last token of the server leads to a result: it must not
/// carry another token.
pub open spec fn last_token_answered<T, P: AuthProvider>(
    r: Result<SetupStep<T>, ClientError>,
    mid: SessionSetup<T>,
    m: Seq<u8>,
    answer: Result<AuthStep, AuthError>,
    before: P,
    after: P,
) -> bool {
    match answer {
        Err(e) => r == Err::<SetupStep<T>, _>(ClientError::Auth(e)) && after == before,
        Ok(step) => if step.token@.len() > 0 {
            r == Err::<SetupStep<T>, _>(
                ClientError::Protocol(
                    "authentication provider produced another token after STATUS_SUCCESS",
                ),
            ) && after == before
        } else {
            setup_ended(r, mid, step.state, m, before, after)
        },
    }
}

/// Whether a final response leads to a result. A last token, where the server sent one, is answered
/// by the provider; where it sent none, the exchange ends in the state of the last token.
pub open spec fn setup_accepted<T, P: AuthProvider>(
    r: Result<SetupStep<T>, ClientError>,
    mid: SessionSetup<T>,
    m: Seq<u8>,
    before: P,
    after: P,
) -> bool {
    if session_setup_response_blob(m).len() == 0 {
        setup_ended(r, mid, mid.step_state, m, before, after)
    } else {
        exists|asked: P, answer: Result<AuthStep, AuthError>| #[trigger]
            P::answers(&before, &asked, session_setup_response_blob(m), answer)
                && last_token_answered(r, mid, m, answer, asked, after)
    }
}

/// Whether a result is what a response comes to. The provider is asked about the token of a response
/// that is accepted, and about no other.
pub open spec fn setup_advanced<T, P: AuthProvider>(
    r: Result<SetupStep<T>, ClientError>,
    setup: SessionSetup<T>,
    m: Seq<u8>,
    before: P,
    after: P,
) -> bool {
    match setup_receive_error(setup, m) {
        Some(e) => r == Err::<SetupStep<T>, ClientError>(e) && after == before,
        None => exists|mid: SessionSetup<T>| #[trigger]
            setup_received(setup, m, mid) && if asks_for_more(m) {
                setup_went_on(r, mid, m, before, after)
            } else {
                setup_accepted(r, mid, m, before, after)
            },
    }
}

impl<T> SessionSetup<T> {
    /// Starts a token exchange on a negotiated connection.
    pub fn new(
        connection: Connection<T>,
        mechanism: AuthMechanism,
        config: SessionSetupConfig,
    ) -> (r: Result<Self, ClientError>)
        ensures
            match setup_start_error(connection, config) {
                Some(e) => r == Err::<Self, ClientError>(e),
                None => r == Ok::<Self, ClientError>(started_setup(connection, mechanism, config)),
            },
    {
        if connection.negotiated.is_none() {
            return Err(
                ClientError::Protocol("SESSION_SETUP requires a negotiated SMB connection"),
            );
        }
        if config.max_rounds == 0 {
            return Err(
                ClientError::Protocol("SESSION_SETUP max_rounds must be greater than zero"),
            );
        }
        Ok(
            SessionSetup {
                connection,
                config,
                mechanism,
                step_state: AuthState::Continue,
                session_id: 0,
                rounds_left: config.max_rounds,
                message_id: 0,
            },
        )
    }

    /// Builds the request that carries a token.
    pub fn send(self, step: AuthStep) -> (r: Result<(Self, Vec<u8>), ClientError>)
        ensures
            match setup_send_error(self, step.token@) {
                Some(e) => r == Err::<(Self, Vec<u8>), ClientError>(e),
                None => r is Ok && setup_sent(self, step, r->Ok_0.0, r->Ok_0.1@),
            },
            r is Ok ==> session_setup_sent(r->Ok_0.1@, self, step.token@),
    {
        let mut next = self;
        if next.rounds_left == 0 {
            return Err(
                ClientError::Protocol(
                    "SESSION_SETUP exceeded the configured authentication round limit",
                ),
            );
        }
        let request = SessionSetupRequest {
            flags: 0,
            security_mode: next.config.security_mode,
            capabilities: next.config.capabilities,
            previous_session_id: next.config.previous_session_id,
            security_blob: step.token,
        };
        let credit_charge: u16 = next.connection.single_request_credit_charge()?;
        let (message_id, credit_request) = next.connection.charge_request(
            credit_charge,
            next.config.credit_request,
        )?;
        let message = from_wire(
            request.encode_message(message_id, next.session_id, credit_charge, credit_request),
        )?;
        next.connection.preauth_hash = update_preauth(next.connection.preauth_hash, &message);
        next.step_state = step.state;
        next.rounds_left = next.rounds_left - 1;
        next.message_id = message_id;
        proof {
            law_session_setup_message(self, step, next, message@);
        }
        Ok((next, message))
    }

    /// Takes a response. Every response but the final one takes part in the preauthentication
    /// hash.
    pub fn receive(self, response_message: &[u8]) -> (r: Result<(Self, SetupReply), ClientError>)
        ensures
            match setup_receive_error(self, response_message@) {
                Some(e) => r == Err::<(Self, SetupReply), ClientError>(e),
                None => r is Ok && {
                    let m = response_message@;
                    let next = r->Ok_0.0;
                    &&& setup_received(self, m, next)
                    &&& asks_for_more(m) ==> r->Ok_0.1 is More && r->Ok_0.1->More_0@
                        == session_setup_response_blob(m) && next.session_id != 0
                    &&& !asks_for_more(m) ==> r->Ok_0.1 is Accepted && r->Ok_0.1->session_flags
                        == u16_at(m, 66) && r->Ok_0.1->token@ == session_setup_response_blob(m)
                    &&& self.session_id != 0 ==> next.session_id == self.session_id
                },
            },
            r is Ok <==> answers_setup(response_message@, self),
            r is Ok ==> token_stands(
                match r->Ok_0.1 {
                    SetupReply::More(token) => token@,
                    SetupReply::Accepted { token, .. } => token@,
                },
                response_message@,
            ),
    {
        proof {
            law_session_setup_answer(self, response_message@);
        }
        let mut next = self;
        let header = from_wire(Smb2Header::decode(response_message))?;
        next.connection.grant_credits(header.credits)?;
        if header.command != Command::SessionSetup {
            return Err(
                ClientError::Protocol("SESSION_SETUP response command does not match request"),
            );
        }
        if header.message_id != next.message_id {
            return Err(
                ClientError::Protocol("SESSION_SETUP response MessageId does not match request"),
            );
        }
        let status: u32 = match header.status {
            StatusField::Status(status) => status,
            StatusField::ChannelSequence { .. } => {
                return Err(
                    ClientError::Protocol("SESSION_SETUP response used request header form"),
                );
            },
        };
        if status != STATUS_SUCCESS && status != STATUS_MORE_PROCESSING_REQUIRED {
            return Err(ClientError::ServerStatus(status));
        }
        let response = from_wire(SessionSetupResponse::decode_message(response_message))?;
        validate_session_id(next.session_id, response.header.session_id)?;
        if response.header.session_id != 0 {
            next.session_id = response.header.session_id;
        }
        if status == STATUS_MORE_PROCESSING_REQUIRED {
            next.connection.preauth_hash = update_preauth(
                next.connection.preauth_hash,
                response_message,
            );
            if next.session_id == 0 {
                return Err(
                    ClientError::Protocol(
                        "server did not assign a SessionId during authentication",
                    ),
                );
            }
            return Ok((next, SetupReply::More(response.security_blob)));
        }
        Ok(
            (
                next,
                SetupReply::Accepted {
                    session_flags: response.session_flags,
                    token: response.security_blob,
                },
            ),
        )
    }

    /// The state in which an accepted exchange ends: that of the last token, or of the answer to
    /// the server's last token, which must be empty.
    pub fn final_state(&self, final_step: Option<AuthStep>) -> (r: Result<AuthState, ClientError>)
        ensures
            match final_step {
                None => r == Ok::<AuthState, ClientError>(self.step_state),
                Some(step) => if step.token@.len() > 0 {
                    r == Err::<AuthState, _>(
                        ClientError::Protocol(
                            "authentication provider produced another token after STATUS_SUCCESS",
                        ),
                    )
                } else {
                    r == Ok::<AuthState, ClientError>(step.state)
                },
            },
    {
        match final_step {
            None => Ok(self.step_state),
            Some(step) => {
                if step.token.len() > 0 {
                    return Err(
                        ClientError::Protocol(
                            "authentication provider produced another token after STATUS_SUCCESS",
                        ),
                    );
                }
                Ok(step.state)
            },
        }
    }

    /// Checks that both sides hold the exchange to be over.
    pub fn check_final_state(&self, final_state: AuthState) -> (r: Result<(), ClientError>)
        ensures
            match final_state_error(final_state, self.session_id) {
                Some(e) => r == Err::<(), ClientError>(e),
                None => r is Ok,
            },
    {
        if final_state != AuthState::Complete {
            return Err(
                ClientError::Protocol(
                    "server completed SESSION_SETUP before authentication provider completed",
                ),
            );
        }
        if self.session_id == 0 {
            return Err(
                ClientError::Protocol("successful SESSION_SETUP response has a zero SessionId"),
            );
        }
        Ok(())
    }

    /// Turns an accepted exchange into a session: derives its signing key and checks the signature
    /// of the final response. Anonymous and guest sessions have no usable key.
    pub fn complete(
        self,
        session_flags: u16,
        session_key: Option<SecretBytes>,
        response_message: &[u8],
    ) -> (r: Result<SessionConnection<T>, ClientError>)
        requires
            header_error(response_message@) is None,
        ensures
            match setup_complete_error(
                self,
                session_flags,
                key_view(session_key),
                response_message@,
            ) {
                Some(e) => r == Err::<SessionConnection<T>, ClientError>(e),
                None => r is Ok && set_up_by(r->Ok_0, self, session_flags, key_view(session_key)),
            },
    {
        let header = match Smb2Header::decode(response_message) {
            Ok(header) => header,
            Err(e) => {
                return Err(ClientError::Wire(e));
            },
        };
        let negotiated = match self.connection.negotiated {
            Some(negotiated) => negotiated,
            None => {
                return Err(
                    ClientError::Protocol(
                        "negotiated parameters disappeared during SESSION_SETUP",
                    ),
                );
            },
        };
        let is_guest: bool = session_flags & SESSION_FLAG_IS_GUEST != 0;
        let is_null: bool = session_flags & SESSION_FLAG_IS_NULL != 0;
        let is_anonymous: bool = self.mechanism == AuthMechanism::Anonymous || is_null;
        let is_guest_or_null: bool = is_guest || is_anonymous;
        let is_encrypted: bool = session_flags & SESSION_FLAG_ENCRYPT_DATA != 0;
        if !is_guest_or_null && session_key.is_none() {
            return Err(
                ClientError::Protocol("authenticated session completed without a session key"),
            );
        }
        let session_key = if is_guest_or_null {
            None
        } else {
            session_key
        };
        let signing_required: bool = negotiated.require_signing && !is_guest_or_null
            && !is_encrypted;
        let signing = match &session_key {
            Some(key) => Some(
                SigningState::derive(
                    negotiated.dialect,
                    negotiated.signing_algorithm,
                    key,
                    self.connection.preauth_hash.as_ref(),
                )?,
            ),
            None => None,
        };
        if header.flags & FLAG_SIGNED != 0 {
            match &signing {
                None => {
                    return Err(
                        ClientError::Protocol(
                            "server signed SESSION_SETUP without an available signing key",
                        ),
                    );
                },
                Some(signing) => {
                    signing.verify(response_message)?;
                },
            }
        } else if signing_required {
            return Err(
                ClientError::Protocol("server omitted a required SESSION_SETUP signature"),
            );
        }
        Ok(
            SessionConnection {
                connection: self.connection,
                session_id: self.session_id,
                session_flags,
                mechanism: self.mechanism,
                session_key,
                signing,
                signing_required,
            },
        )
    }
}

/// What to do next in a token exchange.
pub enum SetupStep<T> {
    /// Send this request and hand the response back.
    Send(SessionSetup<T>, Vec<u8>),
    /// The session stands.
    Done(SessionConnection<T>),
}

impl<T> Connection<T> {
    /// Begins the token exchange of a provider.
    pub fn begin_session_setup<P: AuthProvider>(
        self,
        provider: &mut P,
        config: SessionSetupConfig,
    ) -> (r: Result<(SessionSetup<T>, Vec<u8>), ClientError>)
        ensures
            setup_begun(r, self, config, *old(provider), *final(provider)),
            r is Ok ==> r->Ok_0.0.mechanism == old(provider).speaks(),
    {
        let setup = SessionSetup::new(self, provider.mechanism(), config)?;
        let answer = provider.initial_token();
        let ghost answered = answer;
        assert(P::opens(&*old(provider), &*provider, answered));
        match answer {
            Ok(step) => setup.send(step),
            Err(e) => Err(ClientError::Auth(e)),
        }
    }
}

impl<T> SessionSetup<T> {
    /// Takes a response and lets the provider answer it.
    pub fn advance<P: AuthProvider>(self, provider: &mut P, response_message: &[u8]) -> (r: Result<
        SetupStep<T>,
        ClientError,
    >)
        ensures
            setup_advanced(r, self, response_message@, *old(provider), *final(provider)),
    {
        let (setup, reply) = self.receive(response_message)?;
        assert(setup_received(self, response_message@, setup));
        match reply {
            SetupReply::More(token) => setup.go_on(provider, &token, response_message),
            SetupReply::Accepted { session_flags, token } => setup.accept(
                provider,
                session_flags,
                &token,
                response_message,
            ),
        }
    }

    /// Lets the provider answer the token of a response that asks for more.
    fn go_on<P: AuthProvider>(self, provider: &mut P, token: &[u8], response_message: &[u8]) -> (r:
        Result<SetupStep<T>, ClientError>)
        requires
            token@ == session_setup_response_blob(response_message@),
        ensures
            setup_went_on(r, self, response_message@, *old(provider), *final(provider)),
    {
        let answer = provider.next_token(token);
        let ghost answered = answer;
        let sent = match answer {
            Ok(step) => self.send(step),
            Err(e) => Err(ClientError::Auth(e)),
        };
        assert(P::answers(
            &*old(provider),
            &*provider,
            session_setup_response_blob(response_message@),
            answered,
        ));
        assert(setup_answered(sent, self, answered));
        let ghost request = sent;
        match sent {
            Ok((next, message)) => {
                let r = Ok(SetupStep::Send(next, message));
                assert(request_step(r, request));
                r
            },
            Err(e) => Err(e),
        }
    }

    /// Brings an exchange that the server has accepted to its end.
    fn accept<P: AuthProvider>(
        self,
        provider: &mut P,
        session_flags: u16,
        token: &[u8],
        response_message: &[u8],
    ) -> (r: Result<SetupStep<T>, ClientError>)
        requires
            header_error(response_message@) is None,
            token@ == session_setup_response_blob(response_message@),
            session_flags == u16_at(response_message@, 66),
        ensures
            setup_accepted(r, self, response_message@, *old(provider), *final(provider)),
    {
        if token.len() == 0 {
            let state = self.final_state(None)?;
            return self.end(provider, session_flags, state, response_message);
        }
        let answer = provider.next_token(token);
        let ghost answered = answer;
        let ghost asked = *provider;
        assert(P::answers(
            &*old(provider),
            &asked,
            session_setup_response_blob(response_message@),
            answered,
        ));
        match answer {
            Err(e) => Err(ClientError::Auth(e)),
            Ok(step) => {
                let state = self.final_state(Some(step))?;
                self.end(provider, session_flags, state, response_message)
            },
        }
    }

    /// Ends an exchange in a state: takes the provider's key and sets the session up.
    fn end<P: AuthProvider>(
        self,
        provider: &mut P,
        session_flags: u16,
        state: AuthState,
        response_message: &[u8],
    ) -> (r: Result<SetupStep<T>, ClientError>)
        requires
            header_error(response_message@) is None,
            session_flags == u16_at(response_message@, 66),
        ensures
            setup_ended(r, self, state, response_message@, *old(provider), *final(provider)),
    {
        self.check_final_state(state)?;
        let key = provider.take_session_key();
        let ghost key_bytes = key_view(key);
        assert(P::hands_over(&*old(provider), &*provider, key_bytes));
        let session = self.complete(session_flags, key, response_message)?;
        Ok(SetupStep::Done(session))
    }
}

/// A SessionId that was assigned stays the same through every accepted response.
pub proof fn law_session_id_stable<T>(setup: SessionSetup<T>, m: Seq<u8>)
    requires
        setup.session_id != 0,
        setup_receive_error(setup, m) is None,
    ensures
        header_of(m).session_id == setup.session_id,
        session_id_after(setup.session_id, header_of(m).session_id) == setup.session_id,
{
}

/// Where no answer of the provider decides, an accepted exchange leads to a session: the server has
/// sent no last token, the last one of the provider was complete, and a guest, null or anonymous
/// session needs no key.
pub proof fn law_unkeyed_session_is_owed<T, P: AuthProvider>(
    r: Result<SetupStep<T>, ClientError>,
    setup: SessionSetup<T>,
    m: Seq<u8>,
    before: P,
    after: P,
)
    requires
        setup_advanced(r, setup, m, before, after),
        setup_receive_error(setup, m) is None,
        !asks_for_more(m),
        session_setup_response_blob(m).len() == 0,
        setup.step_state == AuthState::Complete,
        session_id_after(setup.session_id, header_of(m).session_id) != 0,
        setup.connection.negotiated is Some,
        guest_or_null(setup.mechanism, u16_at(m, 66)),
        header_of(m).flags & FLAG_SIGNED == 0,
    ensures
        r is Ok,
        r->Ok_0 is Done,
        r->Ok_0->Done_0.session_key is None,
{
}

/// Guest, null and anonymous sessions have neither a key nor signing, and never owe a signature.
pub proof fn law_unkeyed_sessions_never_sign<T>(
    session: SessionConnection<T>,
    setup: SessionSetup<T>,
    session_flags: u16,
    session_key: Option<Seq<u8>>,
)
    requires
        set_up_by(session, setup, session_flags, session_key),
        guest_or_null(setup.mechanism, session_flags),
    ensures
        session.session_key is None,
        session.signing is None,
        !session.signing_required,
{
}

} // verus!
