//! What the messages of an NTLM exchange hold, read from their bytes.

use crate::auth::ntlm::authenticate_fields_of;
use crate::auth::ntlm::authenticate_of;
use crate::auth::ntlm::challenge_of;
use crate::auth::ntlm::client_blob_of;
use crate::auth::ntlm::negotiate_message_bytes;
use crate::auth::ntlm::ntlmv2_response_of;
use crate::auth::ntlm::response_key_of;
use crate::auth::ntlm::security_field_of;
use crate::auth::ntlm::CLIENT_NEGOTIATE_FLAGS;
use crate::auth::ntlm::ChallengeView;
use crate::auth::ntlm::NtlmCredentials;
use crate::auth::ntlm::REQUIRED_CHALLENGE_FLAGS;
use crate::auth::ntlm::ResponseView;
use crate::auth::provider::AuthError;
use crate::auth::spnego::ntlmssp;
use crate::bytes::le32;
use crate::bytes::u16_at;
use crate::bytes::u32_at;
use crate::bytes::u64_at;
use crate::bytes::zeros;
use crate::crypto::hmac_md5_of;
use crate::crypto::md4_of;
use crate::text::law_utf16le_roundtrip;
use crate::text::uppercase_of;
use crate::text::utf16le_of;
use crate::text::utf16le_text_of;
use vstd::prelude::*;

verus! {

/// Whether the field at a place announces a payload, as a server reads it: its length twice, then
/// where it stands in the message.
pub open spec fn announces(m: Seq<u8>, at: int, payload: Seq<u8>) -> bool {
    let length = u16_at(m, at) as int;
    let place = u32_at(m, at + 4) as int;
    &&& at + 8 <= m.len()
    &&& u16_at(m, at + 2) == length
    &&& length == payload.len()
    &&& place + length <= m.len()
    &&& m.subrange(place, place + length) == payload
}

/// A field holds its length twice and the place.
pub(crate) proof fn lemma_field(length: u16, offset: u32)
    ensures
        security_field_of(length, offset).len() == 8,
        u16_at(security_field_of(length, offset), 0) == length,
        u16_at(security_field_of(length, offset), 2) == length,
        u32_at(security_field_of(length, offset), 4) == offset,
{
    broadcast use crate::bytes::group_byte_layout;

    let field = security_field_of(length, offset);
    assert(u16_at(field, 0) == length);
    assert(u16_at(field, 2) == length);
    assert(u32_at(field, 4) == offset);
}

/// Where the fixed part of an AUTHENTICATE message holds what.
#[verifier::spinoff_prover]
proof fn lemma_fixed(
    f1: Seq<u8>,
    f2: Seq<u8>,
    f3: Seq<u8>,
    f4: Seq<u8>,
    f5: Seq<u8>,
    f6: Seq<u8>,
    flags: u32,
)
    requires
        f1.len() == 8,
        f2.len() == 8,
        f3.len() == 8,
        f4.len() == 8,
        f5.len() == 8,
        f6.len() == 8,
    ensures
        ({
            let m = ntlmssp() + le32(3) + f1 + f2 + f3 + f4 + f5 + f6 + le32(flags) + zeros(8);
            &&& m.len() == 72
            &&& m.subrange(0, 8) == ntlmssp()
            &&& u32_at(m, 8) == 3
            &&& m.subrange(12, 20) == f1
            &&& m.subrange(20, 28) == f2
            &&& m.subrange(28, 36) == f3
            &&& m.subrange(36, 44) == f4
            &&& m.subrange(44, 52) == f5
            &&& m.subrange(52, 60) == f6
            &&& u32_at(m, 60) == flags
            &&& m.subrange(64, 72) == zeros(8)
        }),
{
    broadcast use crate::bytes::group_byte_layout;

    let m = ntlmssp() + le32(3) + f1 + f2 + f3 + f4 + f5 + f6 + le32(flags) + zeros(8);
    assert(m.len() == 72);
    assert(m.subrange(0, 8) =~= ntlmssp());
    assert(m.subrange(12, 20) =~= f1);
    assert(m.subrange(20, 28) =~= f2);
    assert(m.subrange(28, 36) =~= f3);
    assert(m.subrange(36, 44) =~= f4);
    assert(m.subrange(44, 52) =~= f5);
    assert(m.subrange(52, 60) =~= f6);
    assert(m.subrange(64, 72) =~= zeros(8));
    assert(u32_at(m, 8) == 3);
    assert(u32_at(m, 60) == flags);
}

/// A field in a message announces the payload that stands at its place.
pub(crate) proof fn lemma_announced(m: Seq<u8>, at: int, payload: Seq<u8>, place: int)
    requires
        0 <= at,
        at + 8 <= m.len(),
        m.subrange(at, at + 8) == security_field_of(payload.len() as u16, place as u32),
        payload.len() <= u16::MAX,
        0 <= place <= u32::MAX,
        place + payload.len() <= m.len(),
        m.subrange(place, place + payload.len()) == payload,
    ensures
        announces(m, at, payload),
        u32_at(m, at + 4) == place,
{
    lemma_field(payload.len() as u16, place as u32);
    let field = m.subrange(at, at + 8);
    assert(u16_at(m, at) == u16_at(field, 0) && u16_at(m, at + 2) == u16_at(field, 2) && u32_at(
        m,
        at + 4,
    ) == u32_at(field, 4)) by {
        reveal(u16_at);
        reveal(u32_at);
        assert forall|i: int| 0 <= i < 8 implies #[trigger] field[i] == m[at + i] by {}
        assert(field[0] == m[at]);
        assert(field[1] == m[at + 1]);
        assert(field[2] == m[at + 2]);
        assert(field[3] == m[at + 3]);
        assert(field[4] == m[at + 4]);
        assert(field[5] == m[at + 5]);
        assert(field[6] == m[at + 6]);
        assert(field[7] == m[at + 7]);
    }
}

/// Whether an AUTHENTICATE message holds some payloads and flags, as a server reads it. What lies
/// between the fixed part and the payloads is left open.
pub open spec fn authenticate_holds(
    m: Seq<u8>,
    lm_response: Seq<u8>,
    nt_response: Seq<u8>,
    domain: Seq<u8>,
    username: Seq<u8>,
    workstation: Seq<u8>,
    flags: u32,
) -> bool {
    &&& m.len() >= 72
    &&& m.subrange(0, 8) == seq![0x4Eu8, 0x54u8, 0x4Cu8, 0x4Du8, 0x53u8, 0x53u8, 0x50u8, 0u8]
    &&& u32_at(m, 8) == 3
    &&& announces(m, 12, lm_response)
    &&& announces(m, 20, nt_response)
    &&& announces(m, 28, domain)
    &&& announces(m, 36, username)
    &&& announces(m, 44, workstation)
    &&& announces(m, 52, Seq::empty())
    &&& u32_at(m, 60) == flags
}

/// The fields of an AUTHENTICATE message announce its payloads.
#[verifier::spinoff_prover]
proof fn lemma_authenticate_fields(
    response: ResponseView,
    domain: Seq<u8>,
    username: Seq<u8>,
    workstation: Seq<u8>,
    flags: u32,
    code: Seq<u8>,
    m: Seq<u8>,
)
    requires
        crate::auth::ntlm::authenticate_fits(response, domain, username, workstation),
        code.len() <= 16,
        ({
            let blank = authenticate_fields_of(
                response,
                domain,
                username,
                workstation,
                flags,
                code,
            );
            &&& m.len() == blank.len()
            &&& forall|i: int|
                0 <= i < m.len() && !(72 <= i < 72 + code.len()) ==> #[trigger] m[i] == blank[i]
        }),
    ensures
        authenticate_holds(
            m,
            response.lm_response,
            response.nt_response,
            domain,
            username,
            workstation,
            flags,
        ),
        u32_at(m, 16) == 72 + code.len(),
{
    reveal(authenticate_fields_of);
    let lm = response.lm_response;
    let nt = response.nt_response;
    let lm_at = (72 + code.len()) as int;
    let nt_at = (lm_at + lm.len()) as int;
    let domain_at = (nt_at + nt.len()) as int;
    let username_at = (domain_at + domain.len()) as int;
    let workstation_at = (username_at + username.len()) as int;
    let end = (workstation_at + workstation.len()) as int;
    let f1 = security_field_of(lm.len() as u16, lm_at as u32);
    let f2 = security_field_of(nt.len() as u16, nt_at as u32);
    let f3 = security_field_of(domain.len() as u16, domain_at as u32);
    let f4 = security_field_of(username.len() as u16, username_at as u32);
    let f5 = security_field_of(workstation.len() as u16, workstation_at as u32);
    let f6 = security_field_of(0, end as u32);
    lemma_field(lm.len() as u16, lm_at as u32);
    lemma_field(nt.len() as u16, nt_at as u32);
    lemma_field(domain.len() as u16, domain_at as u32);
    lemma_field(username.len() as u16, username_at as u32);
    lemma_field(workstation.len() as u16, workstation_at as u32);
    lemma_field(0, end as u32);
    lemma_fixed(f1, f2, f3, f4, f5, f6, flags);
    let fixed = ntlmssp() + le32(3) + f1 + f2 + f3 + f4 + f5 + f6 + le32(flags) + zeros(8);
    let blank = authenticate_fields_of(response, domain, username, workstation, flags, code);
    let tail = code + lm + nt + domain + username + workstation;
    assert(blank =~= fixed + tail);
    assert(m.len() == end);
    assert(m.subrange(0, 72) =~= fixed);
    assert forall|i: int, j: int| 0 <= i <= j <= 72 implies #[trigger] m.subrange(i, j)
        == fixed.subrange(i, j) by {
        assert forall|k: int| i <= k < j implies m[k] == #[trigger] fixed[k] by {
            assert(m.subrange(0, 72)[k] == m[k]);
        }
        assert(m.subrange(i, j) =~= fixed.subrange(i, j));
    }
    assert(m.subrange(lm_at, nt_at) =~= lm);
    assert(m.subrange(nt_at, domain_at) =~= nt);
    assert(m.subrange(domain_at, username_at) =~= domain);
    assert(m.subrange(username_at, workstation_at) =~= username);
    assert(m.subrange(workstation_at, end) =~= workstation);
    assert(m.subrange(end, end) =~= Seq::<u8>::empty());
    lemma_announced(m, 12, lm, lm_at);
    lemma_announced(m, 20, nt, nt_at);
    lemma_announced(m, 28, domain, domain_at);
    lemma_announced(m, 36, username, username_at);
    lemma_announced(m, 44, workstation, workstation_at);
    lemma_announced(m, 52, Seq::<u8>::empty(), end);
    assert(u32_at(m, 8) == u32_at(fixed, 8) && u32_at(m, 60) == u32_at(fixed, 60)) by {
        reveal(u32_at);
        assert forall|k: int| 0 <= k < 72 implies m[k] == #[trigger] fixed[k] by {
            assert(m.subrange(0, 72)[k] == m[k]);
        }
        assert(m[8] == fixed[8] && m[9] == fixed[9] && m[10] == fixed[10] && m[11] == fixed[11]);
        assert(m[60] == fixed[60] && m[61] == fixed[61] && m[62] == fixed[62] && m[63]
            == fixed[63]);
    }
}

/// Whether bytes are what the client adds to the server's challenge: twice the version 1, six zeros,
/// the time, the client's challenge, four zeros, the target information and four zeros.
pub open spec fn is_client_blob(
    blob: Seq<u8>,
    timestamp: u64,
    client_challenge: Seq<u8>,
    target_info: Seq<u8>,
) -> bool {
    &&& blob.len() == 32 + target_info.len()
    &&& blob[0] == 1
    &&& blob[1] == 1
    &&& forall|i: int| 2 <= i < 8 ==> #[trigger] blob[i] == 0
    &&& u64_at(blob, 8) == timestamp
    &&& blob.subrange(16, 24) == client_challenge
    &&& forall|i: int| 24 <= i < 28 ==> #[trigger] blob[i] == 0
    &&& blob.subrange(28, 28 + target_info.len() as int) == target_info
    &&& forall|i: int| 28 + target_info.len() <= i < blob.len() ==> #[trigger] blob[i] == 0
}

pub(crate) proof fn lemma_client_blob(timestamp: u64, client_challenge: Seq<u8>, target_info: Seq<u8>)
    requires
        client_challenge.len() == 8,
    ensures
        is_client_blob(
            client_blob_of(timestamp, client_challenge, target_info),
            timestamp,
            client_challenge,
            target_info,
        ),
{
    broadcast use crate::bytes::group_byte_layout;

    let blob = client_blob_of(timestamp, client_challenge, target_info);
    assert(blob.subrange(16, 24) =~= client_challenge);
    assert(blob.subrange(28, 28 + target_info.len() as int) =~= target_info);
}

/// Reading the security buffers of the AUTHENTICATE message back gives, at offset 28, the UTF-16 text
/// of the credentials' domain, at 36 that of the user name and at 44 that of the workstation. At 20
/// stand the proof and what the client adds to the challenge, at 12 the LMv2 response, at 60 those
/// flags of the challenge that the client offers. The proof is the code, under the key that password,
/// user and domain give, of the server's challenge and what the client adds; the session key is the
/// code of the proof. Where a message integrity code is asked for it stands in bytes 72 to 87.
pub proof fn law_authenticate_message(
    credentials: NtlmCredentials,
    negotiate: Seq<u8>,
    challenge_bytes: Seq<u8>,
    challenge: ChallengeView,
    mic_required: bool,
    timestamp: u64,
    client_challenge: Seq<u8>,
    message: Seq<u8>,
    key: Seq<u8>,
    blob: Seq<u8>,
)
    requires
        authenticate_of(
            credentials,
            negotiate,
            challenge_bytes,
            challenge,
            mic_required,
            timestamp,
            client_challenge,
        ) == Ok::<_, AuthError>((message, key)),
        client_challenge.len() == 8,
        is_client_blob(blob, timestamp, client_challenge, challenge.target_info),
    ensures
        ({
            let secret = hmac_md5_of(
                md4_of(utf16le_of(credentials.password@)),
                utf16le_of(uppercase_of(credentials.username@) + credentials.domain@),
            );
            let nt_proof = hmac_md5_of(secret, challenge.server_challenge + blob);
            &&& authenticate_holds(
                message,
                if challenge.target_info.len() == 0 {
                    hmac_md5_of(secret, challenge.server_challenge + client_challenge)
                        + client_challenge
                } else {
                    zeros(24)
                },
                nt_proof + blob,
                utf16le_of(credentials.domain@),
                utf16le_of(credentials.username@),
                utf16le_of(credentials.workstation@),
                challenge.flags & 0xA088_8205,
            )
            &&& key == hmac_md5_of(secret, nt_proof)
        }),
        texts_announced(
            message,
            credentials.domain@,
            credentials.username@,
            credentials.workstation@,
        ),
        u32_at(message, 16) == if mic_required {
            88int
        } else {
            72
        },
        mic_required ==> forall|blank: Seq<u8>|
            code_blanked(blank, message) ==> forall|i: int|
                0 <= i < 16 ==> #[trigger] message[72 + i] == #[trigger] hmac_md5_of(
                    key,
                    negotiate + challenge_bytes + blank,
                )[i],
{
    reveal(authenticate_of);
    lemma_client_blob(timestamp, client_challenge, challenge.target_info);
    let made = client_blob_of(timestamp, client_challenge, challenge.target_info);
    lemma_same_blob(made, blob, timestamp, client_challenge, challenge.target_info);
    assert(CLIENT_NEGOTIATE_FLAGS == 0xA088_8205u32) by (bit_vector);
    let secret = response_key_of(
        credentials.password@,
        credentials.username@,
        credentials.domain@,
    );
    let response = ntlmv2_response_of(secret, challenge, timestamp, client_challenge);
    let domain = utf16le_of(credentials.domain@);
    let username = utf16le_of(credentials.username@);
    let workstation = utf16le_of(credentials.workstation@);
    let flags = challenge.flags & CLIENT_NEGOTIATE_FLAGS;
    law_utf16le_roundtrip(credentials.domain@);
    law_utf16le_roundtrip(credentials.username@);
    law_utf16le_roundtrip(credentials.workstation@);
    if mic_required {
        let blank = authenticate_fields_of(
            response,
            domain,
            username,
            workstation,
            flags,
            zeros(16),
        );
        lemma_authenticate_fields(
            response,
            domain,
            username,
            workstation,
            flags,
            zeros(16),
            message,
        );
        assert forall|other: Seq<u8>| code_blanked(other, message) implies forall|i: int|
            0 <= i < 16 ==> #[trigger] message[72 + i] == #[trigger] hmac_md5_of(
                key,
                negotiate + challenge_bytes + other,
            )[i] by {
            assert(blank.len() >= 88 && forall|i: int| 72 <= i < 88 ==> #[trigger] blank[i] == 0)
                by {
                reveal(authenticate_fields_of);
                broadcast use crate::bytes::group_int_len;

            }
            assert(other =~= blank);
        }
    } else {
        lemma_authenticate_fields(
            response,
            domain,
            username,
            workstation,
            flags,
            Seq::empty(),
            message,
        );
    }
}

/// Whether the domain, the user name and the workstation are read as these texts.
pub open spec fn texts_announced(
    m: Seq<u8>,
    domain: Seq<char>,
    username: Seq<char>,
    workstation: Seq<char>,
) -> bool {
    &&& utf16le_text_of(m.subrange(u32_at(m, 32) as int, u32_at(m, 32) + u16_at(m, 28))) == Some(
        domain,
    )
    &&& utf16le_text_of(m.subrange(u32_at(m, 40) as int, u32_at(m, 40) + u16_at(m, 36))) == Some(
        username,
    )
    &&& utf16le_text_of(m.subrange(u32_at(m, 48) as int, u32_at(m, 48) + u16_at(m, 44))) == Some(
        workstation,
    )
}

/// An AUTHENTICATE message names the domain, the user and the workstation of the credentials, each in its
/// own field.
pub proof fn law_texts_announced(
    credentials: NtlmCredentials,
    negotiate: Seq<u8>,
    challenge_bytes: Seq<u8>,
    challenge: ChallengeView,
    mic_required: bool,
    timestamp: u64,
    client_challenge: Seq<u8>,
)
    requires
        client_challenge.len() == 8,
    ensures
        ({
            let answer = authenticate_of(
                credentials,
                negotiate,
                challenge_bytes,
                challenge,
                mic_required,
                timestamp,
                client_challenge,
            );
            answer is Ok ==> texts_announced(
                answer->Ok_0.0,
                credentials.domain@,
                credentials.username@,
                credentials.workstation@,
            )
        }),
{
    let answer = authenticate_of(
        credentials,
        negotiate,
        challenge_bytes,
        challenge,
        mic_required,
        timestamp,
        client_challenge,
    );
    if answer is Ok {
        lemma_client_blob(timestamp, client_challenge, challenge.target_info);
        law_authenticate_message(
            credentials,
            negotiate,
            challenge_bytes,
            challenge,
            mic_required,
            timestamp,
            client_challenge,
            answer->Ok_0.0,
            answer->Ok_0.1,
            client_blob_of(timestamp, client_challenge, challenge.target_info),
        );
    }
}

/// Whether a message is another one with zeros in place of its message integrity code.
pub open spec fn code_blanked(blank: Seq<u8>, m: Seq<u8>) -> bool {
    &&& blank.len() == m.len()
    &&& forall|i: int|
        0 <= i < m.len() ==> #[trigger] blank[i] == if 72 <= i < 88 {
            0
        } else {
            m[i]
        }
}

/// What the client adds to a challenge is fixed by the time, the two challenges and the target
/// information.
proof fn lemma_same_blob(
    a: Seq<u8>,
    b: Seq<u8>,
    timestamp: u64,
    client_challenge: Seq<u8>,
    target_info: Seq<u8>,
)
    requires
        client_challenge.len() == 8,
        is_client_blob(a, timestamp, client_challenge, target_info),
        is_client_blob(b, timestamp, client_challenge, target_info),
    ensures
        a == b,
{
    let n = target_info.len() as int;
    assert forall|i: int| 8 <= i < 16 implies a[i] == b[i] by {
        lemma_u64_same_bytes(a, b, 8);
    }
    assert forall|i: int| 16 <= i < 24 implies a[i] == b[i] by {
        assert(a.subrange(16, 24)[i - 16] == b.subrange(16, 24)[i - 16]);
    }
    assert forall|i: int| 28 <= i < 28 + n implies a[i] == b[i] by {
        assert(a.subrange(28, 28 + n)[i - 28] == b.subrange(28, 28 + n)[i - 28]);
    }
    assert(a =~= b);
}

/// Bytes that hold the same 32-bit value are the same.
proof fn lemma_u32_same_bytes(a: Seq<u8>, b: Seq<u8>, at: int)
    requires
        0 <= at,
        at + 4 <= a.len(),
        at + 4 <= b.len(),
        u32_at(a, at) == u32_at(b, at),
    ensures
        forall|i: int| at <= i < at + 4 ==> #[trigger] a[i] == b[i],
{
    reveal(u32_at);
    let (a0, a1, a2, a3) = (
        a[at] as int,
        a[at + 1] as int,
        a[at + 2] as int,
        a[at + 3] as int,
    );
    let (b0, b1, b2, b3) = (
        b[at] as int,
        b[at + 1] as int,
        b[at + 2] as int,
        b[at + 3] as int,
    );
    assert(a0 + 256 * a1 + 65536 * a2 + 16777216 * a3 == b0 + 256 * b1 + 65536 * b2 + 16777216
        * b3);
    assert(a0 == b0);
    assert(a1 == b1);
    assert(a2 == b2);
    assert(a3 == b3);
}

/// Bytes that hold the same 64-bit value are the same.
proof fn lemma_u64_same_bytes(a: Seq<u8>, b: Seq<u8>, at: int)
    requires
        0 <= at,
        at + 8 <= a.len(),
        at + 8 <= b.len(),
        u64_at(a, at) == u64_at(b, at),
    ensures
        forall|i: int| at <= i < at + 8 ==> #[trigger] a[i] == b[i],
{
    reveal(u64_at);
    assert(u32_at(a, at) == u32_at(b, at));
    assert(u32_at(a, at + 4) == u32_at(b, at + 4));
    lemma_u32_same_bytes(a, b, at);
    lemma_u32_same_bytes(a, b, at + 4);
}

/// The message that opens an NTLM exchange is the signature, the type 1, the flags that the client
/// offers and two empty fields.
pub proof fn law_negotiate_message()
    ensures
        ({
            let m = negotiate_message_bytes();
            &&& m.len() == 32
            &&& m.subrange(0, 8) == seq![
                0x4Eu8,
                0x54u8,
                0x4Cu8,
                0x4Du8,
                0x53u8,
                0x53u8,
                0x50u8,
                0u8,
            ]
            &&& u32_at(m, 8) == 1
            &&& u32_at(m, 12) == 0xA088_8205u32
            &&& forall|i: int| 16 <= i < 32 ==> #[trigger] m[i] == 0
        }),
{
    broadcast use crate::bytes::group_byte_layout;

    let m = negotiate_message_bytes();
    assert(CLIENT_NEGOTIATE_FLAGS == 0xA088_8205u32) by (bit_vector);
    assert(m.subrange(0, 8) =~= ntlmssp());
    assert(u32_at(m, 8) == 1);
    assert(u32_at(m, 12) == CLIENT_NEGOTIATE_FLAGS);
}

/// A message that is taken for a challenge begins with the NTLM signature and the type 2, offers
/// Unicode, NTLM and extended session security, and is read at its own places: the flags at 20, the
/// server's challenge at 24, and the target information where the field at 40 says.
pub proof fn law_challenge_message(m: Seq<u8>)
    requires
        challenge_of(m) is Ok,
    ensures
        m.len() >= 48,
        m.subrange(0, 8) == seq![0x4Eu8, 0x54u8, 0x4Cu8, 0x4Du8, 0x53u8, 0x53u8, 0x50u8, 0u8],
        u32_at(m, 8) == 2,
        u32_at(m, 20) & 0x8_0201 == 0x8_0201,
        challenge_of(m)->Ok_0.flags == u32_at(m, 20),
        challenge_of(m)->Ok_0.server_challenge == m.subrange(24, 32),
        challenge_of(m)->Ok_0.target_info.len() == u16_at(m, 40),
        u16_at(m, 40) > 0 ==> challenge_of(m)->Ok_0.target_info == m.subrange(
            u32_at(m, 44) as int,
            u32_at(m, 44) + u16_at(m, 40),
        ),
{
    assert(REQUIRED_CHALLENGE_FLAGS == 0x8_0201u32) by (bit_vector);
    assert(m.subrange(0, 8) =~= m.take(8));
}

} // verus!
