//! What a session is made of: the exchange that led to it, and the keys.

use crate::auth::provider::AuthError;
use crate::auth::provider::AuthMechanism;
use crate::auth::provider::AuthProvider;
use crate::auth::provider::AuthStep;
use crate::bytes::u16_at;
use crate::bytes::u32_at;
use crate::bytes::u64_at;
use crate::client::connection::Connection;
use crate::client::error::ClientError;
use crate::client::session::request_step;
use crate::client::session::set_up_by;
use crate::client::session::setup_advanced;
use crate::client::session::setup_answered;
use crate::client::session::setup_begun;
use crate::client::session::setup_complete_error;
use crate::client::session::setup_received;
use crate::client::session::setup_sent;
use crate::client::session::setup_went_on;
use crate::client::session::started_setup;
use crate::client::session::SessionConnection;
use crate::client::session::SessionSetup;
use crate::client::session::SessionSetupConfig;
use crate::client::session::SetupStep;
use crate::client::signing::preauth_view;
use crate::client::signing::verify_error;
use crate::client::signing::SigningAlgorithm;
use crate::crypto::sha512_of;
use crate::laws::answers::answers_setup;
use crate::laws::answers::law_header_is_read;
use crate::laws::answers::law_session_setup_answer;
use crate::laws::keys::law_signs_with;
use crate::laws::keys::signs_with;
use crate::laws::limits::law_grant_is_exact;
use crate::laws::messages::law_session_setup_message;
use crate::wire::negotiate::Dialect;
use crate::wire::session::session_setup_response_blob;
use vstd::prelude::*;

verus! {

/// Whether nobody stands behind a session: a guest, bit 0 of its flags, a null session, bit 1, or an
/// anonymous exchange.
pub open spec fn nobodys(mechanism: AuthMechanism, flags: u16) -> bool {
    flags & 1 != 0 || flags & 2 != 0 || mechanism == AuthMechanism::Anonymous
}

/// A session of somebody has the key of the exchange and signs with what the dialect derives from it and
/// from the preauthentication hash after the last request; a session of nobody has neither. It has the
/// identifier that the server assigned and the flags of the final response.
pub proof fn law_session_has_the_derived_key<T>(
    session: SessionConnection<T>,
    setup: SessionSetup<T>,
    flags: u16,
    session_key: Seq<u8>,
    m: Seq<u8>,
)
    requires
        set_up_by(session, setup, flags, Some(session_key)),
        setup_complete_error(setup, flags, Some(session_key), m) is None,
    ensures
        session.session_id == setup.session_id,
        session.session_flags == flags,
        session.mechanism == setup.mechanism,
        session.connection == setup.connection,
        nobodys(setup.mechanism, flags) <==> session.session_key is None,
        nobodys(setup.mechanism, flags) <==> session.signing is None,
        !nobodys(setup.mechanism, flags) ==> {
            let negotiated = setup.connection.negotiated->0;
            let signing = session.signing->0;
            &&& session.session_key->0@ == session_key
            &&& signs_with(
                signing.key@,
                negotiated.dialect,
                session_key,
                preauth_view(setup.connection.preauth_hash),
            )
            &&& match negotiated.dialect {
                Dialect::Smb202 | Dialect::Smb210 => signing.algorithm
                    == SigningAlgorithm::HmacSha256,
                Dialect::Smb300 | Dialect::Smb302 => signing.algorithm == SigningAlgorithm::AesCmac,
                Dialect::Smb311 => signing.algorithm == negotiated.signing_algorithm,
            }
        },
        session.signing_required <==> setup.connection.negotiated->0.require_signing && !nobodys(
            setup.mechanism,
            flags,
        ) && flags & 4 == 0,
{
    let negotiated = setup.connection.negotiated->0;
    let hash = preauth_view(setup.connection.preauth_hash);
    if !nobodys(setup.mechanism, flags) {
        law_signs_with(negotiated.dialect, session_key, hash);
    }
}

/// The final response of an exchange is accepted only in order: one that is signed, bit 3 of its flags,
/// must be valid under the key of the session it leads to, and so belongs to somebody; one that is not
/// is accepted only where the session does not sign.
pub proof fn law_final_response_is_checked<T>(
    session: SessionConnection<T>,
    setup: SessionSetup<T>,
    flags: u16,
    session_key: Option<Seq<u8>>,
    m: Seq<u8>,
)
    requires
        set_up_by(session, setup, flags, session_key),
        setup_complete_error(setup, flags, session_key, m) is None,
    ensures
        !nobodys(setup.mechanism, flags) ==> session_key is Some,
        u32_at(m, 16) & 8 != 0 ==> session.signing is Some && verify_error(
            session.signing->0.algorithm,
            session.signing->0.key@,
            m,
        ) is None,
        u32_at(m, 16) & 8 == 0 ==> !session.signing_required,
{
}

/// The preauthentication hash of an exchange takes in every request, and every response that asks for
/// more, but not the final one; each is hashed behind the hash so far. Where there is no hash there
/// stays none.
pub proof fn law_exchange_is_hashed<T>(
    setup: SessionSetup<T>,
    step: AuthStep,
    sent: SessionSetup<T>,
    request: Seq<u8>,
    response: Seq<u8>,
    received: SessionSetup<T>,
)
    requires
        setup_sent(setup, step, sent, request),
        setup_received(sent, response, received),
    ensures
        ({
            let before = preauth_view(setup.connection.preauth_hash);
            let after = preauth_view(received.connection.preauth_hash);
            let more = u32_at(response, 8) == 0xC000_0016u32;
            &&& before is None <==> after is None
            &&& before is Some && more ==> after == Some(
                sha512_of(sha512_of(before->0 + request) + response),
            )
            &&& before is Some && !more ==> after == Some(sha512_of(before->0 + request))
        }),
        received.rounds_left == setup.rounds_left - 1,
        received.step_state == step.state,
        received.session_id == if u64_at(response, 40) != 0 {
            u64_at(response, 40)
        } else {
            setup.session_id
        },
{
    law_header_is_read(response);
}

/// An exchange goes on with another request exactly where the response asks for more, and ends in a session
/// only where it does not. The session has the SessionId that the server assigned, which is not zero,
/// the flags that stand at 66 of the final response, and the mechanism of the exchange.
pub proof fn law_exchange_ends_in_its_session<T, P: AuthProvider>(
    r: Result<SetupStep<T>, ClientError>,
    setup: SessionSetup<T>,
    m: Seq<u8>,
    before: P,
    after: P,
)
    requires
        setup_advanced(r, setup, m, before, after),
        r is Ok,
    ensures
        answers_setup(m, setup),
        r->Ok_0 is Send <==> u32_at(m, 8) == 0xC000_0016u32,
        r->Ok_0 is Done ==> {
            let session = r->Ok_0->Done_0;
            &&& session.session_id == u64_at(m, 40)
            &&& session.session_id != 0
            &&& session.session_flags == u16_at(m, 66)
            &&& session.mechanism == setup.mechanism
            &&& session.connection.negotiated == setup.connection.negotiated
            &&& session.connection.message_ids == setup.connection.message_ids
            &&& session.connection.credits->0.available == setup.connection.credits->0.available
                + u16_at(m, 14)
        },
        r->Ok_0 is Send ==> {
            let next = r->Ok_0->Send_0;
            &&& next.session_id == u64_at(m, 40)
            &&& next.rounds_left == setup.rounds_left - 1
            &&& next.message_id == setup.connection.message_ids.next
            &&& u64_at(r->Ok_0->Send_1@, 40) == u64_at(m, 40)
        },
{
    law_session_setup_answer(setup, m);
    law_header_is_read(m);
    law_grant_is_exact(setup.connection, u16_at(m, 14));
    if r->Ok_0 is Send {
        let mid = choose|mid: SessionSetup<T>| #[trigger]
            setup_received(setup, m, mid) && setup_went_on(r, mid, m, before, after);
        assert(setup_received(setup, m, mid));
        let (answer, sent) = choose|
            answer: Result<AuthStep, AuthError>,
            sent: Result<(SessionSetup<T>, Vec<u8>), ClientError>,
        |
            {
                &&& #[trigger] P::answers(&before, &after, session_setup_response_blob(m), answer)
                &&& #[trigger] setup_answered(sent, mid, answer)
                &&& request_step(r, sent)
            };
        law_session_setup_message(mid, answer->Ok_0, sent->Ok_0.0, sent->Ok_0.1@);
    }
}

/// An exchange begins with the first token of the provider, before there is a SessionId, and with one round
/// of those that the configuration allows.
pub proof fn law_exchange_begins_at_its_first_token<T, P: AuthProvider>(
    r: Result<(SessionSetup<T>, Vec<u8>), ClientError>,
    connection: Connection<T>,
    config: SessionSetupConfig,
    before: P,
    after: P,
)
    requires
        setup_begun(r, connection, config, before, after),
        r is Ok,
    ensures
        r->Ok_0.0.session_id == 0,
        r->Ok_0.0.mechanism == before.speaks(),
        r->Ok_0.0.config == config,
        r->Ok_0.0.rounds_left == config.max_rounds - 1,
        u64_at(r->Ok_0.1@, 40) == 0,
        u64_at(r->Ok_0.1@, 24) == connection.message_ids.next,
        exists|step: AuthStep|
            {
                &&& #[trigger] P::opens(&before, &after, Ok(step))
                &&& token_sent(r->Ok_0.1@, step.token@)
                &&& r->Ok_0.0.step_state == step.state
            },
{
    let answer = choose|answer: Result<AuthStep, AuthError>| #[trigger]
        P::opens(&before, &after, answer) && setup_answered(
            r,
            started_setup(connection, before.speaks(), config),
            answer,
        );
    let step = answer->Ok_0;
    assert(P::opens(&before, &after, Ok(step)));
    law_session_setup_message(
        started_setup(connection, before.speaks(), config),
        step,
        r->Ok_0.0,
        r->Ok_0.1@,
    );
}

/// Whether a message carries a token: as long as the field at 78 says, where the field at 76 says.
pub open spec fn token_sent(m: Seq<u8>, token: Seq<u8>) -> bool {
    let at = u16_at(m, 76) as int;
    let n = u16_at(m, 78) as int;
    token.len() == n && (n > 0 ==> at + n <= m.len() && token == m.subrange(at, at + n))
}

} // verus!
