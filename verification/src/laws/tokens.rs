//! What the tokens of an authentication exchange hold, read from their bytes.

use crate::auth::anonymous::anonymous_authenticate_bytes;
use crate::auth::anonymous::anonymous_challenge_error;
use crate::auth::anonymous::anonymous_negotiate_bytes;
use crate::auth::anonymous::AnonymousNtlmProvider;
use crate::auth::anonymous::AnonymousState;
use crate::auth::anonymous::CLIENT_FLAGS;
use crate::auth::ntlm::authenticate_of;
use crate::auth::ntlm::client_blob_of;
use crate::auth::ntlm::filetime_of;
use crate::auth::ntlm::is_ntlm_answer;
use crate::auth::ntlm::security_field_of;
use crate::auth::ntlm::target_info_of;
use crate::auth::ntlm::target_pairs_of;
use crate::auth::ntlm::token_challenge_of;
use crate::auth::ntlm::NtlmCredentials;
use crate::auth::ntlm::NtlmV2Provider;
use crate::auth::ntlm::REQUIRED_CHALLENGE_FLAGS;
use crate::auth::ntlm::TargetInfoMeta;
use crate::auth::provider::AuthError;
use crate::auth::provider::AuthProvider;
use crate::auth::provider::AuthState;
use crate::auth::provider::AuthStep;
use crate::auth::spnego::be_bytes_of;
use crate::auth::spnego::der_tlv_of;
use crate::auth::spnego::extract_ntlm_of;
use crate::auth::spnego::neg_token_init_of;
use crate::auth::spnego::neg_token_resp_of;
use crate::auth::spnego::ntlmssp;
use crate::auth::spnego::ntlmssp_oid;
use crate::auth::spnego::spnego_oid;
use crate::bytes::le16;
use crate::bytes::le32;
use crate::bytes::le64;
use crate::bytes::u16_at;
use crate::bytes::u32_at;
use crate::bytes::u64_at;
use crate::crypto::hmac_md5_of;
use crate::crypto::md4_of;
use crate::laws::authenticate::announces;
use crate::laws::authenticate::is_client_blob;
use crate::laws::authenticate::law_authenticate_message;
use crate::laws::authenticate::lemma_client_blob;
use crate::laws::authenticate::texts_announced;
use crate::text::uppercase_of;
use crate::text::utf16le_of;
use vstd::prelude::*;

verus! {

/// Whether bytes are one DER element with a tag and a content: the tag, the length, and the content. A
/// length below 128 is one byte; a longer one is the number of its bytes with bit 7, and then they,
/// most significant first.
#[verifier::opaque]
pub open spec fn is_element(b: Seq<u8>, tag: u8, content: Seq<u8>) -> bool {
    let n = content.len() as int;
    &&& b.len() >= 2
    &&& b[0] == tag
    &&& if n < 128 {
        b[1] == n && b.skip(2) == content
    } else if n < 256 {
        b[1] == 0x81 && b[2] == n && b.skip(3) == content
    } else if n < 65_536 {
        b[1] == 0x82 && b[2] == n / 256 && b[3] == n % 256 && b.skip(4) == content
    } else if n < 16_777_216 {
        b[1] == 0x83 && b[2] == n / 65_536 && b[3] == n / 256 % 256 && b[4] == n % 256 && b.skip(5)
            == content
    } else {
        b[1] >= 0x84 && b.len() >= n && b.skip(b.len() - n) == content
    }
}

/// The length octets of numbers of up to three bytes.
proof fn lemma_be_bytes_short(n: nat)
    ensures
        0 < n < 256 ==> be_bytes_of(n) == seq![n as u8],
        256 <= n < 65_536 ==> be_bytes_of(n) == seq![(n / 256) as u8, (n % 256) as u8],
        65_536 <= n < 16_777_216 ==> be_bytes_of(n) == seq![
            (n / 65_536) as u8,
            (n / 256 % 256) as u8,
            (n % 256) as u8,
        ],
{
    reveal_with_fuel(be_bytes_of, 4);
    if 0 < n < 256 {
        assert(be_bytes_of(n) =~= seq![n as u8]);
    } else if 256 <= n < 65_536 {
        assert(be_bytes_of(n) =~= seq![(n / 256) as u8, (n % 256) as u8]);
    } else if 65_536 <= n < 16_777_216 {
        assert(n / 256 / 256 == n / 65_536);
        assert(be_bytes_of(n) =~= seq![
            (n / 65_536) as u8,
            (n / 256 % 256) as u8,
            (n % 256) as u8,
        ]);
    }
}

/// Numbers of more than three bytes have at least four, and none that fits a machine word has more
/// than eight.
proof fn lemma_be_bytes_long(n: nat)
    requires
        16_777_216 <= n <= u64::MAX,
    ensures
        4 <= be_bytes_of(n).len() <= 8,
{
    reveal_with_fuel(be_bytes_of, 10);
}

/// A DER element is its tag, its length and its content.
pub proof fn law_der_element(tag: u8, content: Seq<u8>)
    requires
        content.len() <= u64::MAX,
    ensures
        is_element(der_tlv_of(tag, content), tag, content),
{
    reveal(is_element);
    let n = content.len();
    let b = der_tlv_of(tag, content);
    lemma_be_bytes_short(n);
    if n < 128 {
        assert(b.skip(2) =~= content);
    } else if n < 256 {
        assert(b.skip(3) =~= content);
    } else if n < 65_536 {
        assert(b.skip(4) =~= content);
    } else if n < 16_777_216 {
        assert(b.skip(5) =~= content);
    } else {
        lemma_be_bytes_long(n);
        assert(b.skip(b.len() - n) =~= content);
    }
}

/// Whether elements lie in one another: a continuing token is the element 0xA1 around a sequence, 0x30,
/// around the element 0xA2 around an octet string, 0x04, with an NTLM message.
pub open spec fn continues_with(
    token: Seq<u8>,
    sequence: Seq<u8>,
    field: Seq<u8>,
    octets: Seq<u8>,
    ntlm: Seq<u8>,
) -> bool {
    &&& is_element(token, 0xA1, sequence)
    &&& is_element(sequence, 0x30, field)
    &&& is_element(field, 0xA2, octets)
    &&& is_element(octets, 0x04, ntlm)
}

/// A continuing token holds its NTLM message in the response field of a NegTokenResp.
pub proof fn law_continuing_token(ntlm: Seq<u8>)
    requires
        neg_token_resp_of(ntlm).len() <= u64::MAX,
    ensures
        exists|sequence: Seq<u8>, field: Seq<u8>, octets: Seq<u8>| #[trigger]
            continues_with(neg_token_resp_of(ntlm), sequence, field, octets, ntlm),
{
    let octets = der_tlv_of(0x04, ntlm);
    let field = der_tlv_of(0xa2, octets);
    let sequence = der_tlv_of(0x30, field);
    law_der_element(0x04, ntlm);
    law_der_element(0xa2, octets);
    law_der_element(0x30, field);
    law_der_element(0xa1, sequence);
    assert(continues_with(neg_token_resp_of(ntlm), sequence, field, octets, ntlm));
}

/// Whether elements lie in one another: an opening token is the element 0x60 with the identifier of
/// SPNEGO, 1.3.6.1.5.5.2, and the element 0xA0 around a sequence, 0x30, of the mechanisms, which are
/// NTLM, 1.3.6.1.4.1.311.2.2.10, alone, and the element 0xA2 around an octet string, 0x04, with an
/// NTLM message.
pub open spec fn opens_with(
    token: Seq<u8>,
    gss: Seq<u8>,
    sequence: Seq<u8>,
    body: Seq<u8>,
    octets: Seq<u8>,
    ntlm: Seq<u8>,
) -> bool {
    &&& is_element(token, 0x60, gss)
    &&& gss.take(8) == seq![0x06u8, 0x06u8, 0x2Bu8, 0x06u8, 0x01u8, 0x05u8, 0x05u8, 0x02u8]
    &&& is_element(gss.skip(8), 0xA0, sequence)
    &&& is_element(sequence, 0x30, body)
    &&& body.take(16) == seq![
        0xA0u8,
        0x0Eu8,
        0x30u8,
        0x0Cu8,
        0x06u8,
        0x0Au8,
        0x2Bu8,
        0x06u8,
        0x01u8,
        0x04u8,
        0x01u8,
        0x82u8,
        0x37u8,
        0x02u8,
        0x02u8,
        0x0Au8,
    ]
    &&& is_element(body.skip(16), 0xA2, octets)
    &&& is_element(octets, 0x04, ntlm)
}

/// The identifier of SPNEGO.
proof fn lemma_spnego_identifier()
    ensures
        spnego_oid() == seq![0x06u8, 0x06u8, 0x2Bu8, 0x06u8, 0x01u8, 0x05u8, 0x05u8, 0x02u8],
{
    assert(spnego_oid() =~= seq![
        0x06u8,
        0x06u8,
        0x2Bu8,
        0x06u8,
        0x01u8,
        0x05u8,
        0x05u8,
        0x02u8,
    ]);
}

/// The list of mechanisms with NTLM alone.
proof fn lemma_mechanisms()
    ensures
        der_tlv_of(0xa0, der_tlv_of(0x30, ntlmssp_oid())) == seq![
            0xA0u8,
            0x0Eu8,
            0x30u8,
            0x0Cu8,
            0x06u8,
            0x0Au8,
            0x2Bu8,
            0x06u8,
            0x01u8,
            0x04u8,
            0x01u8,
            0x82u8,
            0x37u8,
            0x02u8,
            0x02u8,
            0x0Au8,
        ],
{
    let list = der_tlv_of(0x30, ntlmssp_oid());
    assert(ntlmssp_oid().len() == 12);
    assert(list.len() == 14);
    assert(der_tlv_of(0xa0, list) =~= seq![
        0xA0u8,
        0x0Eu8,
        0x30u8,
        0x0Cu8,
        0x06u8,
        0x0Au8,
        0x2Bu8,
        0x06u8,
        0x01u8,
        0x04u8,
        0x01u8,
        0x82u8,
        0x37u8,
        0x02u8,
        0x02u8,
        0x0Au8,
    ]);
}

/// What an element holds is no longer than it.
proof fn lemma_element_holds(tag: u8, content: Seq<u8>)
    ensures
        der_tlv_of(tag, content).len() > content.len(),
{
}

/// The parts of a list stand in it one behind the other.
proof fn lemma_parts(a: Seq<u8>, b: Seq<u8>)
    ensures
        (a + b).take(a.len() as int) == a,
        (a + b).skip(a.len() as int) == b,
{
    assert((a + b).take(a.len() as int) =~= a);
    assert((a + b).skip(a.len() as int) =~= b);
}

/// An opening token names SPNEGO and offers NTLM alone, with its message.
pub proof fn law_opening_token(ntlm: Seq<u8>)
    requires
        neg_token_init_of(ntlm).len() <= u64::MAX,
    ensures
        exists|gss: Seq<u8>, sequence: Seq<u8>, body: Seq<u8>, octets: Seq<u8>| #[trigger]
            opens_with(neg_token_init_of(ntlm), gss, sequence, body, octets, ntlm),
{
    let octets = der_tlv_of(0x04, ntlm);
    let mech_types = der_tlv_of(0xa0, der_tlv_of(0x30, ntlmssp_oid()));
    let mech_token = der_tlv_of(0xa2, octets);
    let body = mech_types + mech_token;
    let sequence = der_tlv_of(0x30, body);
    let init = der_tlv_of(0xa0, sequence);
    let gss = spnego_oid() + init;
    lemma_element_holds(0x04, ntlm);
    lemma_element_holds(0xa2, octets);
    lemma_element_holds(0x30, body);
    lemma_element_holds(0xa0, sequence);
    lemma_element_holds(0x60, gss);
    law_der_element(0x04, ntlm);
    law_der_element(0xa2, octets);
    law_der_element(0x30, body);
    law_der_element(0xa0, sequence);
    law_der_element(0x60, gss);
    lemma_spnego_identifier();
    lemma_mechanisms();
    lemma_parts(spnego_oid(), init);
    lemma_parts(mech_types, mech_token);
    assert(opens_with(neg_token_init_of(ntlm), gss, sequence, body, octets, ntlm));
}

/// Attribute pairs are read one by one: the identifier, the length, the value. Pair 7 gives the server's
/// time, pair 6 asks for a message integrity code by bit 1, others say nothing, and pair 0 without a
/// value ends them.
pub proof fn law_target_info_pairs(
    rest: Seq<u8>,
    meta: TargetInfoMeta,
    time: u64,
    flags: u32,
    id: u16,
    value: Seq<u8>,
)
    requires
        value.len() <= u16::MAX,
        id != 0,
        id != 6,
        id != 7,
    ensures
        target_pairs_of(le16(7) + le16(8) + le64(time) + rest, meta) == target_pairs_of(
            rest,
            TargetInfoMeta { timestamp: Some(time), ..meta },
        ),
        target_pairs_of(le16(6) + le16(4) + le32(flags) + rest, meta) == target_pairs_of(
            rest,
            TargetInfoMeta { mic_required: flags & 2 != 0, ..meta },
        ),
        target_pairs_of(le16(id) + le16(value.len() as u16) + value + rest, meta)
            == target_pairs_of(rest, meta),
        target_pairs_of(le16(0) + le16(0), meta) == Ok::<_, AuthError>(meta),
        target_info_of(Seq::empty()) == Ok::<_, AuthError>(
            TargetInfoMeta { timestamp: None, mic_required: false },
        ),
{
    broadcast use crate::bytes::group_byte_layout;

    let timed = le16(7) + le16(8) + le64(time) + rest;
    assert(u16_at(timed, 0) == 7);
    assert(u16_at(timed, 2) == 8);
    assert(u64_at(timed, 4) == time);
    assert(timed.skip(12) =~= rest);
    let flagged = le16(6) + le16(4) + le32(flags) + rest;
    assert(u16_at(flagged, 0) == 6);
    assert(u16_at(flagged, 2) == 4);
    assert(u32_at(flagged, 4) == flags);
    assert(flagged.skip(8) =~= rest);
    let other = le16(id) + le16(value.len() as u16) + value + rest;
    assert(u16_at(other, 0) == id);
    assert(u16_at(other, 2) == value.len());
    assert(other.skip(4 + value.len() as int) =~= rest);
    let end = le16(0) + le16(0);
    assert(u16_at(end, 0) == 0);
    assert(u16_at(end, 2) == 0);
    assert(end.skip(4).len() == 0);
}

/// The Windows clock counts units of 100 nanoseconds from 1601 on, which is 11644473600 seconds before
/// the Unix epoch, and ends where 64 bits do.
pub proof fn law_filetime(nanos: nat)
    ensures
        filetime_of(nanos) is Ok <==> 11_644_473_600 * 10_000_000 + nanos / 100 <= u64::MAX,
        filetime_of(nanos) is Ok ==> {
            let units = filetime_of(nanos)->Ok_0 - 11_644_473_600 * 10_000_000;
            100 * units <= nanos < 100 * (units + 1)
        },
{
}

/// The answer of a provider to a challenge is a continuing token around an AUTHENTICATE message that
/// names, as a server reads it, the domain, the user and the workstation of the credentials, and whose
/// proof covers what the client adds to the challenge. That tells the server's own time where the server
/// gave one, and repeats its target information. There is room for a message integrity code exactly where
/// the target information asks for one.
pub proof fn law_provider_names_its_credentials(
    credentials: NtlmCredentials,
    negotiate: Seq<u8>,
    server_token: Seq<u8>,
    timestamp: u64,
    client_challenge: Seq<u8>,
    token: Seq<u8>,
    key: Seq<u8>,
)
    requires
        is_ntlm_answer(
            credentials,
            negotiate,
            server_token,
            timestamp,
            client_challenge,
            token,
            key,
        ),
    ensures
        ({
            let challenge = token_challenge_of(server_token)->Ok_0.1;
            let meta = target_info_of(challenge.target_info)->Ok_0;
            let secret = hmac_md5_of(
                md4_of(utf16le_of(credentials.password@)),
                utf16le_of(uppercase_of(credentials.username@) + credentials.domain@),
            );
            &&& meta.timestamp is Some ==> timestamp == meta.timestamp->0
            &&& exists|message: Seq<u8>, blob: Seq<u8>|
                {
                    let nt_proof = hmac_md5_of(secret, challenge.server_challenge + blob);
                    &&& token == #[trigger] neg_token_resp_of(message)
                    &&& #[trigger] is_client_blob(
                        blob,
                        timestamp,
                        client_challenge,
                        challenge.target_info,
                    )
                    &&& texts_announced(
                        message,
                        credentials.domain@,
                        credentials.username@,
                        credentials.workstation@,
                    )
                    &&& announces(message, 20, nt_proof + blob)
                    &&& key == hmac_md5_of(secret, nt_proof)
                    &&& u32_at(message, 16) == if meta.mic_required {
                        88int
                    } else {
                        72
                    }
                }
        }),
{
    let (bytes, challenge) = token_challenge_of(server_token)->Ok_0;
    let meta = target_info_of(challenge.target_info)->Ok_0;
    let (message, secret) = authenticate_of(
        credentials,
        negotiate,
        bytes,
        challenge,
        meta.mic_required,
        timestamp,
        client_challenge,
    )->Ok_0;
    let blob = client_blob_of(timestamp, client_challenge, challenge.target_info);
    lemma_client_blob(timestamp, client_challenge, challenge.target_info);
    law_authenticate_message(
        credentials,
        negotiate,
        bytes,
        challenge,
        meta.mic_required,
        timestamp,
        client_challenge,
        message,
        secret,
        blob,
    );
    assert(token == neg_token_resp_of(message));
}

/// The messages of an anonymous exchange: the first offers what the client offers otherwise and
/// anonymity, and names nobody; the last has a single zero as its LM response, nothing else at all,
/// and those flags of the challenge that the client offers.
pub proof fn law_anonymous_messages(flags: u32)
    ensures
        ({
            let m = anonymous_negotiate_bytes();
            &&& m.len() == 32
            &&& m.take(8) == seq![0x4Eu8, 0x54u8, 0x4Cu8, 0x4Du8, 0x53u8, 0x53u8, 0x50u8, 0u8]
            &&& u32_at(m, 8) == 1
            &&& u32_at(m, 12) == 0xA088_8A05u32
            &&& forall|i: int| 16 <= i < 32 ==> #[trigger] m[i] == 0
        }),
        ({
            let m = anonymous_authenticate_bytes(flags);
            &&& m.len() == 73
            &&& m.take(8) == seq![0x4Eu8, 0x54u8, 0x4Cu8, 0x4Du8, 0x53u8, 0x53u8, 0x50u8, 0u8]
            &&& u32_at(m, 8) == 3
            &&& announces(m, 12, seq![0u8])
            &&& announces(m, 20, Seq::empty())
            &&& announces(m, 28, Seq::empty())
            &&& announces(m, 36, Seq::empty())
            &&& announces(m, 44, Seq::empty())
            &&& announces(m, 52, Seq::empty())
            &&& u32_at(m, 60) == flags & 0xA088_8A05
        }),
{
    broadcast use crate::bytes::group_byte_layout;

    let first = anonymous_negotiate_bytes();
    assert(first.take(8) =~= ntlmssp());
    assert(u32_at(first, 8) == 1);
    assert(u32_at(first, 12) == CLIENT_FLAGS);
    assert(CLIENT_FLAGS == 0xA088_8A05u32) by (bit_vector);
    let m = anonymous_authenticate_bytes(flags);
    let f1 = security_field_of(1, 72);
    let f0 = security_field_of(0, 73);
    crate::laws::authenticate::lemma_field(1, 72);
    crate::laws::authenticate::lemma_field(0, 73);
    assert(m.take(8) =~= ntlmssp());
    assert(u32_at(m, 8) == 3);
    assert(m.subrange(12, 20) =~= f1);
    assert(m.subrange(20, 28) =~= f0);
    assert(m.subrange(28, 36) =~= f0);
    assert(m.subrange(36, 44) =~= f0);
    assert(m.subrange(44, 52) =~= f0);
    assert(m.subrange(52, 60) =~= f0);
    assert(m.subrange(72, 73) =~= seq![0u8]);
    assert(m.subrange(73, 73) =~= Seq::<u8>::empty());
    crate::laws::authenticate::lemma_announced(m, 12, seq![0u8], 72);
    crate::laws::authenticate::lemma_announced(m, 20, Seq::<u8>::empty(), 73);
    crate::laws::authenticate::lemma_announced(m, 28, Seq::<u8>::empty(), 73);
    crate::laws::authenticate::lemma_announced(m, 36, Seq::<u8>::empty(), 73);
    crate::laws::authenticate::lemma_announced(m, 44, Seq::<u8>::empty(), 73);
    crate::laws::authenticate::lemma_announced(m, 52, Seq::<u8>::empty(), 73);
    assert(u32_at(m, 60) == flags & CLIENT_FLAGS);
}

/// An anonymous client accepts a challenge if and only if it is one: the signature, the type 2 at 8, and
/// Unicode, NTLM and extended session security among the flags at 20.
pub proof fn law_anonymous_challenge(m: Seq<u8>)
    ensures
        anonymous_challenge_error(m) is None <==> {
            &&& m.len() >= 24
            &&& m.take(8) == seq![0x4Eu8, 0x54u8, 0x4Cu8, 0x4Du8, 0x53u8, 0x53u8, 0x50u8, 0u8]
            &&& u32_at(m, 8) == 2
            &&& u32_at(m, 20) & 0x8_0201 == 0x8_0201
        },
{
    assert(REQUIRED_CHALLENGE_FLAGS == 0x8_0201u32) by (bit_vector);
}

/// A provider opens an exchange once: the first time, where there is a user name, with a token to go on
/// from, and then never again. An answer comes only after that, ends the exchange, and brings the
/// session key; after it there is nothing more to say.
pub proof fn law_ntlm_exchange(
    a: NtlmV2Provider,
    b: NtlmV2Provider,
    c: NtlmV2Provider,
    d: NtlmV2Provider,
    first: Result<AuthStep, AuthError>,
    second: Result<AuthStep, AuthError>,
    server_token: Seq<u8>,
    answer: Result<AuthStep, AuthError>,
)
    requires
        NtlmV2Provider::opens(&a, &b, first),
        NtlmV2Provider::answers(&b, &c, server_token, answer),
        NtlmV2Provider::opens(&c, &d, second),
    ensures
        first is Ok <==> a.state is New && a.credentials.username@.len() > 0,
        first is Ok ==> first->Ok_0.state == AuthState::Continue && b.state is NegotiateSent
            && first->Ok_0.token@ == neg_token_init_of(b.state->NegotiateSent_0@) && second is Err
            && d == c,
        first is Err ==> b == a,
        a.state is New && first is Err ==> answer is Err && c == a,
        first is Ok && answer is Ok ==> answer->Ok_0.state == AuthState::Complete && c.state
            is Complete && c.session_key is Some,
        answer is Err ==> c == b,
        a.state is Complete ==> answer is Ok && answer->Ok_0.token@.len() == 0 && c == a,
        c.credentials == a.credentials,
{
}

/// An anonymous provider goes the same way and never has a key. Its answer is a continuing token around the
/// message that takes over the flags at 20 of the challenge.
pub proof fn law_anonymous_exchange(
    a: AnonymousNtlmProvider,
    b: AnonymousNtlmProvider,
    c: AnonymousNtlmProvider,
    d: AnonymousNtlmProvider,
    first: Result<AuthStep, AuthError>,
    second: Result<AuthStep, AuthError>,
    server_token: Seq<u8>,
    answer: Result<AuthStep, AuthError>,
    key: Option<Seq<u8>>,
)
    requires
        AnonymousNtlmProvider::opens(&a, &b, first),
        AnonymousNtlmProvider::answers(&b, &c, server_token, answer),
        AnonymousNtlmProvider::opens(&c, &d, second),
        AnonymousNtlmProvider::hands_over(&c, &d, key),
    ensures
        key is None,
        first is Ok <==> a.state == AnonymousState::New,
        first is Ok ==> first->Ok_0.state == AuthState::Continue && first->Ok_0.token@
            == neg_token_init_of(anonymous_negotiate_bytes()) && second is Err,
        first is Ok && answer is Ok ==> answer->Ok_0.state == AuthState::Complete && {
            let challenge = extract_ntlm_of(server_token)->Ok_0;
            &&& extract_ntlm_of(server_token) is Ok
            &&& anonymous_challenge_error(challenge) is None
            &&& answer->Ok_0.token@ == neg_token_resp_of(
                anonymous_authenticate_bytes(u32_at(challenge, 20)),
            )
        },
        first is Ok && extract_ntlm_of(server_token) is Ok && anonymous_challenge_error(
            extract_ntlm_of(server_token)->Ok_0,
        ) is None ==> answer is Ok,
        a.state == AnonymousState::Complete ==> answer is Ok && answer->Ok_0.token@.len() == 0,
{
}

} // verus!
