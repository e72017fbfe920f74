//! NTLMv2.

use crate::auth::provider::key_view;
use crate::auth::provider::AuthError;
use crate::auth::provider::AuthMechanism;
use crate::auth::provider::AuthProvider;
use crate::auth::provider::AuthState;
use crate::auth::provider::AuthStep;
use crate::auth::secret::SecretBytes;
use crate::auth::secret::SecretText;
use crate::auth::spnego::encode_neg_token_init_ntlm;
use crate::auth::spnego::encode_neg_token_resp_ntlm;
use crate::auth::spnego::extract_ntlm_of;
use crate::auth::spnego::extract_ntlm_token;
use crate::auth::spnego::neg_token_init_of;
use crate::auth::spnego::neg_token_resp_of;
use crate::auth::spnego::ntlmssp;
use crate::auth::spnego::NTLMSSP_SIGNATURE;
use crate::bytes::begins_with;
use crate::bytes::copy_8;
use crate::bytes::copy_bytes;
use crate::bytes::get_u16;
use crate::bytes::get_u32;
use crate::bytes::get_u64;
use crate::bytes::has_prefix;
use crate::bytes::law_u16_roundtrip;
use crate::bytes::law_u32_roundtrip;
use crate::bytes::le16;
use crate::bytes::le32;
use crate::bytes::le64;
use crate::bytes::overwrite;
use crate::bytes::put_bytes;
use crate::bytes::put_u16;
use crate::bytes::put_u32;
use crate::bytes::put_u64;
use crate::bytes::put_zeros;
use crate::bytes::u16_at;
use crate::bytes::u32_at;
use crate::bytes::u64_at;
use crate::bytes::write_at;
use crate::bytes::zeros;
use crate::clock::since_unix_epoch;
use crate::clock::span_nanos;
use crate::crypto::hmac_md5_code;
use crate::crypto::hmac_md5_of;
use crate::crypto::md4;
use crate::crypto::md4_of;
use crate::crypto::random_bytes;
use crate::laws::authenticate::law_texts_announced;
use crate::laws::authenticate::texts_announced;
use crate::text::append_text;
use crate::text::copy_text;
use crate::text::debug_text;
use crate::text::debug_text_of;
use crate::text::uppercase;
use crate::text::uppercase_of;
use crate::text::utf16le;
use crate::text::utf16le_of;
use std::time::SystemTime;
use vstd::prelude::*;

verus! {

pub const NEGOTIATE_MESSAGE_TYPE: u32 = 1;

pub const CHALLENGE_MESSAGE_TYPE: u32 = 2;

pub const AUTHENTICATE_MESSAGE_TYPE: u32 = 3;

/// The Unix epoch on the Windows clock, in units of 100 nanoseconds.
pub const WINDOWS_EPOCH_OFFSET_100NS: u64 = 116_444_736_000_000_000;

pub const NEGOTIATE_UNICODE: u32 = 0x0000_0001;

pub const REQUEST_TARGET: u32 = 0x0000_0004;

pub const NEGOTIATE_SIGN: u32 = 0x0000_0010;

pub const NEGOTIATE_SEAL: u32 = 0x0000_0020;

pub const NEGOTIATE_NTLM: u32 = 0x0000_0200;

pub const NEGOTIATE_ALWAYS_SIGN: u32 = 0x0000_8000;

pub const NEGOTIATE_EXTENDED_SESSIONSECURITY: u32 = 0x0008_0000;

pub const NEGOTIATE_TARGET_INFO: u32 = 0x0080_0000;

pub const NEGOTIATE_VERSION: u32 = 0x0200_0000;

pub const NEGOTIATE_128: u32 = 0x2000_0000;

pub const NEGOTIATE_KEY_EXCH: u32 = 0x4000_0000;

pub const NEGOTIATE_56: u32 = 0x8000_0000;

const AV_ID_EOL: u16 = 0;

const AV_ID_FLAGS: u16 = 6;

const AV_ID_TIMESTAMP: u16 = 7;

/// The bit by which a server asks for a message integrity code.
pub const MSV_AV_FLAGS_MIC_PRESENT: u32 = 0x0000_0002;

/// What the client offers.
pub const CLIENT_NEGOTIATE_FLAGS: u32 = NEGOTIATE_UNICODE | REQUEST_TARGET | NEGOTIATE_NTLM
    | NEGOTIATE_ALWAYS_SIGN | NEGOTIATE_EXTENDED_SESSIONSECURITY | NEGOTIATE_TARGET_INFO
    | NEGOTIATE_128 | NEGOTIATE_56;

/// What a server must offer.
pub const REQUIRED_CHALLENGE_FLAGS: u32 = NEGOTIATE_UNICODE | NEGOTIATE_NTLM
    | NEGOTIATE_EXTENDED_SESSIONSECURITY;

/// NTLM credentials. Password memory is zeroized on drop and never part of the text form.
pub struct NtlmCredentials {
    pub username: String,
    pub domain: String,
    pub workstation: String,
    pub password: SecretText,
}

impl NtlmCredentials {
    /// Credentials without domain and workstation.
    pub fn new(username: String, password: String) -> (r: Self)
        ensures
            r.username@ == username@,
            r.password@ == password@,
            r.domain@.len() == 0,
            r.workstation@.len() == 0,
    {
        NtlmCredentials {
            username,
            domain: String::new(),
            workstation: String::new(),
            password: SecretText::new(password),
        }
    }

    /// The same credentials in a domain.
    pub fn with_domain(self, domain: String) -> (r: Self)
        ensures
            r.domain@ == domain@,
            r.username@ == self.username@,
            r.workstation@ == self.workstation@,
            r.password@ == self.password@,
    {
        NtlmCredentials {
            username: self.username,
            domain,
            workstation: self.workstation,
            password: self.password,
        }
    }

    /// The same credentials on a workstation.
    pub fn with_workstation(self, workstation: String) -> (r: Self)
        ensures
            r.workstation@ == workstation@,
            r.username@ == self.username@,
            r.domain@ == self.domain@,
            r.password@ == self.password@,
    {
        NtlmCredentials {
            username: self.username,
            domain: self.domain,
            workstation,
            password: self.password,
        }
    }

    pub fn username(&self) -> (r: &str)
        ensures
            r@ == self.username@,
    {
        self.username.as_str()
    }

    pub fn domain(&self) -> (r: &str)
        ensures
            r@ == self.domain@,
    {
        self.domain.as_str()
    }

    pub fn workstation(&self) -> (r: &str)
        ensures
            r@ == self.workstation@,
    {
        self.workstation.as_str()
    }

    /// A text form that shows everything but the password.
    pub fn redacted_text(&self) -> (r: String)
        ensures
            r@ == redacted_credentials(self.username@, self.domain@, self.workstation@),
    {
        let mut out = copy_text("NtlmCredentials { username: ");
        append_text(&mut out, debug_text(self.username.as_str()).as_str());
        append_text(&mut out, ", domain: ");
        append_text(&mut out, debug_text(self.domain.as_str()).as_str());
        append_text(&mut out, ", workstation: ");
        append_text(&mut out, debug_text(self.workstation.as_str()).as_str());
        append_text(&mut out, ", password: \"<redacted>\" }");
        out
    }
}

/// The text form of credentials: the password has no part in it.
pub open spec fn redacted_credentials(
    username: Seq<char>,
    domain: Seq<char>,
    workstation: Seq<char>,
) -> Seq<char> {
    "NtlmCredentials { username: "@ + debug_text_of(username) + ", domain: "@ + debug_text_of(domain)
        + ", workstation: "@ + debug_text_of(workstation) + ", password: \"<redacted>\" }"@
}

/// What a server says in an NTLM challenge.
#[derive(Debug)]
pub struct ChallengeMessage {
    pub flags: u32,
    pub server_challenge: [u8; 8],
    pub target_info: Vec<u8>,
}

/// What the target information of a challenge asks for.
#[derive(Clone, Copy, Debug, PartialEq, Eq, Structural)]
pub struct TargetInfoMeta {
    pub timestamp: Option<u64>,
    pub mic_required: bool,
}

/// What a client answers to an NTLM challenge.
pub struct ComputedResponse {
    pub lm_response: Vec<u8>,
    pub nt_response: Vec<u8>,
    pub session_base_key: SecretBytes,
}

/// A field that announces a payload: its length twice, and where it begins.
pub open spec fn security_field_of(length: u16, offset: u32) -> Seq<u8> {
    le16(length) + le16(length) + le32(offset)
}

/// Appends a field that announces a payload.
pub fn put_security_field(out: &mut Vec<u8>, length: u16, offset: u32)
    ensures
        final(out)@ == old(out)@ + security_field_of(length, offset),
{
    put_u16(out, length);
    put_u16(out, length);
    put_u32(out, offset);
    assert(out@ =~= old(out)@ + security_field_of(length, offset));
}

/// Why a field that announces a payload cannot be set in a message, if it cannot.
pub open spec fn security_field_error(
    message_len: nat,
    at: int,
    length: nat,
    offset: nat,
) -> Option<AuthError> {
    if length > u16::MAX {
        Some(AuthError::Failed("NTLM payload field exceeds 65535 bytes"))
    } else if offset > u32::MAX {
        Some(AuthError::Failed("NTLM message exceeds 4 GiB"))
    } else if at + 8 > message_len {
        Some(AuthError::Failed("NTLM security-buffer header is truncated"))
    } else {
        None
    }
}

/// Sets the field at `field_offset` that announces a payload.
pub fn set_security_buffer(
    message: &mut Vec<u8>,
    field_offset: usize,
    length: usize,
    payload_offset: usize,
) -> (r: Result<(), AuthError>)
    ensures
        match security_field_error(
            old(message)@.len(),
            field_offset as int,
            length as nat,
            payload_offset as nat,
        ) {
            Some(e) => r == Err::<(), AuthError>(e) && final(message)@ == old(message)@,
            None => r is Ok && final(message)@ == overwrite(
                old(message)@,
                field_offset as int,
                security_field_of(length as u16, payload_offset as u32),
            ),
        },
{
    broadcast use crate::bytes::group_int_len;

    if length > u16::MAX as usize {
        return Err(AuthError::Failed("NTLM payload field exceeds 65535 bytes"));
    }
    if payload_offset as u64 > u32::MAX as u64 {
        return Err(AuthError::Failed("NTLM message exceeds 4 GiB"));
    }
    assert(message.len() == message@.len());
    if message.len() < 8 || field_offset > message.len() - 8 {
        return Err(AuthError::Failed("NTLM security-buffer header is truncated"));
    }
    let mut field: Vec<u8> = Vec::new();
    put_security_field(&mut field, length as u16, payload_offset as u32);
    assert(field@ =~= security_field_of(length as u16, payload_offset as u32));
    write_at(message, field_offset, &field);
    Ok(())
}

/// A message with a payload at its end, which the field at `at` announces.
pub open spec fn with_security_buffer(m: Seq<u8>, at: int, value: Seq<u8>) -> Seq<u8> {
    overwrite(m, at, security_field_of(value.len() as u16, m.len() as u32)) + value
}

/// Appends a payload and announces it in the field at `field_offset`.
pub fn append_security_buffer(message: &mut Vec<u8>, field_offset: usize, value: &[u8]) -> (r: Result<
    (),
    AuthError,
>)
    ensures
        match security_field_error(
            old(message)@.len(),
            field_offset as int,
            value@.len(),
            old(message)@.len(),
        ) {
            Some(e) => r == Err::<(), AuthError>(e) && final(message)@ == old(message)@,
            None => r is Ok && final(message)@ == with_security_buffer(
                old(message)@,
                field_offset as int,
                value@,
            ) && security_buffer_of(final(message)@, field_offset as int) == Ok::<_, AuthError>(
                value@,
            ),
        },
{
    let payload_offset: usize = message.len();
    assert(value.len() == value@.len());
    set_security_buffer(message, field_offset, value.len(), payload_offset)?;
    put_bytes(message, value);
    proof {
        law_security_buffer_reads_back(old(message)@, field_offset as int, value@);
    }
    Ok(())
}

/// A payload that was appended and announced in a field is what the field is read as, and nothing
/// but the field changes in what stood before.
pub proof fn law_security_buffer_reads_back(m: Seq<u8>, at: int, value: Seq<u8>)
    requires
        0 <= at,
        security_field_error(m.len(), at, value.len(), m.len()) is None,
    ensures
        security_buffer_of(with_security_buffer(m, at, value), at) == Ok::<_, AuthError>(value),
        with_security_buffer(m, at, value).len() == m.len() + value.len(),
        forall|i: int|
            0 <= i < m.len() && !(at <= i < at + 8) ==> #[trigger] with_security_buffer(
                m,
                at,
                value,
            )[i] == m[i],
{
    broadcast use crate::bytes::group_int_len;

    let length = value.len() as u16;
    let offset = m.len() as u32;
    let field = security_field_of(length, offset);
    let w = with_security_buffer(m, at, value);
    assert(w.subrange(at, at + 2) =~= le16(length));
    assert(w.subrange(at + 2, at + 4) =~= le16(length));
    assert(w.subrange(at + 4, at + 8) =~= le32(offset));
    law_u16_roundtrip(w, at, length);
    law_u16_roundtrip(w, at + 2, length);
    law_u32_roundtrip(w, at + 4, offset);
    if value.len() == 0 {
        assert(value =~= Seq::empty());
    } else {
        assert(w.subrange(m.len() as int, (m.len() + value.len()) as int) =~= value);
    }
}

/// The NTLM message that opens an exchange.
pub open spec fn negotiate_message_bytes() -> Seq<u8> {
    ntlmssp() + le32(NEGOTIATE_MESSAGE_TYPE) + le32(CLIENT_NEGOTIATE_FLAGS) + zeros(16)
}

/// Builds the NTLM message that opens an exchange. Domain and workstation follow later.
pub fn build_negotiate_message() -> (r: Vec<u8>)
    ensures
        r@ == negotiate_message_bytes(),
{
    let mut message: Vec<u8> = Vec::new();
    put_bytes(&mut message, &NTLMSSP_SIGNATURE);
    assert(message@ =~= ntlmssp());
    put_u32(&mut message, NEGOTIATE_MESSAGE_TYPE);
    put_u32(&mut message, CLIENT_NEGOTIATE_FLAGS);
    put_zeros(&mut message, 16);
    message
}

/// The payload that the field at `at` announces.
pub open spec fn security_buffer_of(m: Seq<u8>, at: int) -> Result<Seq<u8>, AuthError> {
    if at + 8 > m.len() {
        Err(AuthError::InvalidToken("truncated NTLM security buffer"))
    } else if u16_at(m, at + 2) < u16_at(m, at) {
        Err(
            AuthError::InvalidToken("NTLM security buffer max length is smaller than its length"),
        )
    } else if u16_at(m, at) == 0 {
        Ok(Seq::empty())
    } else if u32_at(m, at + 4) + u16_at(m, at) > m.len() {
        Err(AuthError::InvalidToken("NTLM security buffer points outside message"))
    } else {
        Ok(m.subrange(u32_at(m, at + 4) as int, u32_at(m, at + 4) + u16_at(m, at)))
    }
}

/// Copies the payload that the field at `at` announces.
pub fn read_security_buffer(message: &[u8], at: usize) -> (r: Result<Vec<u8>, AuthError>)
    ensures
        match security_buffer_of(message@, at as int) {
            Err(e) => r == Err::<Vec<u8>, AuthError>(e),
            Ok(payload) => r is Ok && r->Ok_0@ == payload,
        },
{
    assert(message.len() == message@.len());
    if message.len() < 8 || at > message.len() - 8 {
        return Err(AuthError::InvalidToken("truncated NTLM security buffer"));
    }
    let length: u16 = get_u16(message, at);
    if get_u16(message, at + 2) < length {
        return Err(
            AuthError::InvalidToken("NTLM security buffer max length is smaller than its length"),
        );
    }
    if length == 0 {
        let none: Vec<u8> = Vec::new();
        assert(none@ =~= Seq::empty());
        return Ok(none);
    }
    let start: u64 = get_u32(message, at + 4) as u64;
    let end: u64 = start + length as u64;
    if end > message.len() as u64 {
        return Err(AuthError::InvalidToken("NTLM security buffer points outside message"));
    }
    Ok(copy_bytes(&message[start as usize..end as usize]))
}

/// What attribute/value pairs say on top of what is known. Pairs end with an empty one.
pub open spec fn target_pairs_of(s: Seq<u8>, meta: TargetInfoMeta) -> Result<
    TargetInfoMeta,
    AuthError,
>
    decreases s.len(),
{
    if s.len() == 0 {
        Err(AuthError::InvalidToken("NTLM TargetInfo is missing MsvAvEOL"))
    } else if s.len() < 4 {
        Err(AuthError::InvalidToken("truncated NTLM TargetInfo AV pair"))
    } else {
        let id = u16_at(s, 0);
        let len = u16_at(s, 2) as int;
        let rest = s.skip(4 + len);
        if 4 + len > s.len() {
            Err(AuthError::InvalidToken("NTLM TargetInfo AV pair is truncated"))
        } else if id == 0 {
            if len != 0 {
                Err(AuthError::InvalidToken("MsvAvEOL must have zero length"))
            } else if rest.len() != 0 {
                Err(AuthError::InvalidToken("data follows MsvAvEOL"))
            } else {
                Ok(meta)
            }
        } else if id == 6 {
            if len != 4 {
                Err(AuthError::InvalidToken("MsvAvFlags has invalid length"))
            } else {
                target_pairs_of(
                    rest,
                    TargetInfoMeta {
                        mic_required: u32_at(s, 4) & MSV_AV_FLAGS_MIC_PRESENT != 0,
                        ..meta
                    },
                )
            }
        } else if id == 7 {
            if len != 8 {
                Err(AuthError::InvalidToken("MsvAvTimestamp has invalid length"))
            } else {
                target_pairs_of(rest, TargetInfoMeta { timestamp: Some(u64_at(s, 4)), ..meta })
            }
        } else {
            target_pairs_of(rest, meta)
        }
    }
}

/// What target information asks for. None at all asks for nothing.
pub open spec fn target_info_of(s: Seq<u8>) -> Result<TargetInfoMeta, AuthError> {
    let nothing = TargetInfoMeta { timestamp: None, mic_required: false };
    if s.len() == 0 {
        Ok(nothing)
    } else {
        target_pairs_of(s, nothing)
    }
}

/// Checks target information and reads what it asks for.
pub fn validate_target_info(target_info: &[u8]) -> (r: Result<TargetInfoMeta, AuthError>)
    ensures
        r == target_info_of(target_info@),
{
    let mut meta = TargetInfoMeta { timestamp: None, mic_required: false };
    if target_info.len() == 0 {
        return Ok(meta);
    }
    let mut offset: usize = 0;
    assert(target_info@.skip(0) =~= target_info@);
    while offset < target_info.len()
        invariant
            offset <= target_info@.len(),
            target_info@.len() > 0,
            target_info_of(target_info@) == target_pairs_of(
                target_info@.skip(offset as int),
                meta,
            ),
        decreases target_info@.len() - offset,
    {
        assert(target_info.len() == target_info@.len());
        let rest = &target_info[offset..target_info.len()];
        assert(rest@ =~= target_info@.skip(offset as int));
        if rest.len() < 4 {
            return Err(AuthError::InvalidToken("truncated NTLM TargetInfo AV pair"));
        }
        let id: u16 = get_u16(rest, 0);
        let length: usize = get_u16(rest, 2) as usize;
        if length > rest.len() - 4 {
            return Err(AuthError::InvalidToken("NTLM TargetInfo AV pair is truncated"));
        }
        if id == AV_ID_EOL {
            if length != 0 {
                return Err(AuthError::InvalidToken("MsvAvEOL must have zero length"));
            }
            if rest.len() != 4 {
                return Err(AuthError::InvalidToken("data follows MsvAvEOL"));
            }
            return Ok(meta);
        }
        if id == AV_ID_FLAGS {
            if length != 4 {
                return Err(AuthError::InvalidToken("MsvAvFlags has invalid length"));
            }
            meta.mic_required = get_u32(rest, 4) & MSV_AV_FLAGS_MIC_PRESENT != 0;
        } else if id == AV_ID_TIMESTAMP {
            if length != 8 {
                return Err(AuthError::InvalidToken("MsvAvTimestamp has invalid length"));
            }
            meta.timestamp = Some(get_u64(rest, 4));
        }
        assert(rest@.skip(4 + length as int) =~= target_info@.skip(offset + 4 + length));
        offset = offset + 4 + length;
    }
    Err(AuthError::InvalidToken("NTLM TargetInfo is missing MsvAvEOL"))
}

/// What an NTLM challenge says.
pub struct ChallengeView {
    pub flags: u32,
    pub server_challenge: Seq<u8>,
    pub target_info: Seq<u8>,
}

impl View for ChallengeMessage {
    type V = ChallengeView;

    open spec fn view(&self) -> ChallengeView {
        ChallengeView {
            flags: self.flags,
            server_challenge: self.server_challenge@,
            target_info: self.target_info@,
        }
    }
}

/// The challenge that an NTLM message holds.
pub open spec fn challenge_of(m: Seq<u8>) -> Result<ChallengeView, AuthError> {
    if m.len() < 48 {
        Err(AuthError::InvalidToken("NTLM CHALLENGE is truncated"))
    } else if !begins_with(m, ntlmssp()) {
        Err(AuthError::InvalidToken("invalid NTLMSSP signature"))
    } else if u32_at(m, 8) != CHALLENGE_MESSAGE_TYPE {
        Err(AuthError::InvalidToken("expected NTLM CHALLENGE message"))
    } else if u32_at(m, 20) & REQUIRED_CHALLENGE_FLAGS != REQUIRED_CHALLENGE_FLAGS {
        Err(
            AuthError::Unsupported(
                "server NTLM challenge lacks Unicode, NTLM, or extended-session-security support",
            ),
        )
    } else {
        match security_buffer_of(m, 40) {
            Err(e) => Err(e),
            Ok(target_info) => match target_info_of(target_info) {
                Err(e) => Err(e),
                Ok(_) => Ok(
                    ChallengeView {
                        flags: u32_at(m, 20),
                        server_challenge: m.subrange(24, 32),
                        target_info,
                    },
                ),
            },
        }
    }
}

/// Parses an NTLM challenge.
pub fn parse_challenge_message(message: &[u8]) -> (r: Result<ChallengeMessage, AuthError>)
    ensures
        match challenge_of(message@) {
            Err(e) => r == Err::<ChallengeMessage, AuthError>(e),
            Ok(challenge) => r is Ok && r->Ok_0@ == challenge,
        },
{
    if message.len() < 48 {
        return Err(AuthError::InvalidToken("NTLM CHALLENGE is truncated"));
    }
    assert(NTLMSSP_SIGNATURE@ =~= ntlmssp());
    if !has_prefix(message, &NTLMSSP_SIGNATURE) {
        return Err(AuthError::InvalidToken("invalid NTLMSSP signature"));
    }
    if get_u32(message, 8) != CHALLENGE_MESSAGE_TYPE {
        return Err(AuthError::InvalidToken("expected NTLM CHALLENGE message"));
    }
    let challenge_flags: u32 = get_u32(message, 20);
    if challenge_flags & REQUIRED_CHALLENGE_FLAGS != REQUIRED_CHALLENGE_FLAGS {
        return Err(
            AuthError::Unsupported(
                "server NTLM challenge lacks Unicode, NTLM, or extended-session-security support",
            ),
        );
    }
    let server_challenge = copy_8(message, 24);
    let target_info = read_security_buffer(message, 40)?;
    let _meta = validate_target_info(&target_info)?;
    Ok(ChallengeMessage { flags: challenge_flags, server_challenge, target_info })
}

/// The HMAC-MD5 code of an input under a key.
pub fn hmac_md5(key: &[u8], input: &[u8]) -> (r: Result<[u8; 16], AuthError>)
    ensures
        r is Ok,
        r->Ok_0@ == hmac_md5_of(key@, input@),
{
    match hmac_md5_code(key, input) {
        Some(code) => Ok(code),
        None => Err(AuthError::Failed("failed to initialize HMAC-MD5")),
    }
}

/// The key that a password, user and domain give: the user name counts in upper case.
pub open spec fn response_key_of(password: Seq<char>, username: Seq<char>, domain: Seq<char>) -> Seq<
    u8,
> {
    hmac_md5_of(md4_of(utf16le_of(password)), utf16le_of(uppercase_of(username) + domain))
}

/// What the client adds to the server's challenge.
pub open spec fn client_blob_of(
    timestamp: u64,
    client_challenge: Seq<u8>,
    target_info: Seq<u8>,
) -> Seq<u8> {
    seq![1u8, 1u8, 0u8, 0u8, 0u8, 0u8, 0u8, 0u8] + le64(timestamp) + client_challenge + zeros(4)
        + target_info + zeros(4)
}

/// The proof that the client knows the key.
pub open spec fn nt_proof_of(key: Seq<u8>, server_challenge: Seq<u8>, blob: Seq<u8>) -> Seq<u8> {
    hmac_md5_of(key, server_challenge + blob)
}

/// The LMv2 response: none but zeros where the server gave target information.
pub open spec fn lm_response_of(
    key: Seq<u8>,
    server_challenge: Seq<u8>,
    client_challenge: Seq<u8>,
    target_info: Seq<u8>,
) -> Seq<u8> {
    if target_info.len() == 0 {
        hmac_md5_of(key, server_challenge + client_challenge) + client_challenge
    } else {
        zeros(24)
    }
}

/// What a client answers to an NTLM challenge.
pub struct ResponseView {
    pub lm_response: Seq<u8>,
    pub nt_response: Seq<u8>,
    pub session_base_key: Seq<u8>,
}

/// The answer to a challenge at a time, with a random challenge of the client's own.
pub open spec fn ntlmv2_response_of(
    key: Seq<u8>,
    challenge: ChallengeView,
    timestamp: u64,
    client_challenge: Seq<u8>,
) -> ResponseView {
    let blob = client_blob_of(timestamp, client_challenge, challenge.target_info);
    let nt_proof = nt_proof_of(key, challenge.server_challenge, blob);
    ResponseView {
        lm_response: lm_response_of(
            key,
            challenge.server_challenge,
            client_challenge,
            challenge.target_info,
        ),
        nt_response: nt_proof + blob,
        session_base_key: hmac_md5_of(key, nt_proof),
    }
}

impl View for ComputedResponse {
    type V = ResponseView;

    open spec fn view(&self) -> ResponseView {
        ResponseView {
            lm_response: self.lm_response@,
            nt_response: self.nt_response@,
            session_base_key: self.session_base_key@,
        }
    }
}

/// The key that credentials give.
pub fn compute_response_key(credentials: &NtlmCredentials) -> (r: Result<SecretBytes, AuthError>)
    ensures
        r is Ok,
        r->Ok_0@ == response_key_of(
            credentials.password@,
            credentials.username@,
            credentials.domain@,
        ),
{
    let password_utf16 = SecretBytes::new(utf16le(credentials.password.expose()));
    let nt_hash = SecretBytes::new(copy_bytes(&md4(password_utf16.expose())));
    let mut identity = uppercase(credentials.username.as_str());
    append_text(&mut identity, credentials.domain.as_str());
    let key = hmac_md5(nt_hash.expose(), &utf16le(identity.as_str()))?;
    Ok(SecretBytes::new(copy_bytes(&key)))
}

/// Answers a challenge at a time, with a random challenge of the client's own.
pub fn compute_ntlmv2_response(
    credentials: &NtlmCredentials,
    challenge: &ChallengeMessage,
    timestamp: u64,
    client_challenge: [u8; 8],
) -> (r: Result<ComputedResponse, AuthError>)
    ensures
        r is Ok,
        r->Ok_0@ == ntlmv2_response_of(
            response_key_of(
                credentials.password@,
                credentials.username@,
                credentials.domain@,
            ),
            challenge@,
            timestamp,
            client_challenge@,
        ),
        r->Ok_0.session_base_key@.len() == 16,
{
    let response_key = compute_response_key(credentials)?;
    let mut blob: Vec<u8> = Vec::new();
    put_bytes(&mut blob, &[1u8, 1, 0, 0, 0, 0, 0, 0]);
    assert(blob@ =~= seq![1u8, 1u8, 0u8, 0u8, 0u8, 0u8, 0u8, 0u8]);
    put_u64(&mut blob, timestamp);
    put_bytes(&mut blob, &client_challenge);
    put_zeros(&mut blob, 4);
    put_bytes(&mut blob, &challenge.target_info);
    put_zeros(&mut blob, 4);

    let mut proof_input = copy_bytes(&challenge.server_challenge);
    put_bytes(&mut proof_input, &blob);
    let nt_proof = hmac_md5(response_key.expose(), &proof_input)?;
    let mut nt_response = copy_bytes(&nt_proof);
    put_bytes(&mut nt_response, &blob);

    let lm_response = if challenge.target_info.len() == 0 {
        let mut input = copy_bytes(&challenge.server_challenge);
        put_bytes(&mut input, &client_challenge);
        let lm_proof = hmac_md5(response_key.expose(), &input)?;
        let mut response = copy_bytes(&lm_proof);
        put_bytes(&mut response, &client_challenge);
        response
    } else {
        let mut response: Vec<u8> = Vec::new();
        put_zeros(&mut response, 24);
        assert(response@ =~= zeros(24));
        response
    };

    let session_base_key = hmac_md5(response_key.expose(), &nt_proof)?;
    Ok(
        ComputedResponse {
            lm_response,
            nt_response,
            session_base_key: SecretBytes::new(copy_bytes(&session_base_key)),
        },
    )
}

/// The NTLM message that completes an exchange, with a given message integrity code.
#[verifier::opaque]
pub open spec fn authenticate_fields_of(
    response: ResponseView,
    domain: Seq<u8>,
    username: Seq<u8>,
    workstation: Seq<u8>,
    flags: u32,
    code: Seq<u8>,
) -> Seq<u8> {
    let lm_at = 72 + code.len();
    let nt_at = lm_at + response.lm_response.len();
    let domain_at = nt_at + response.nt_response.len();
    let username_at = domain_at + domain.len();
    let workstation_at = username_at + username.len();
    let end = workstation_at + workstation.len();
    ntlmssp() + le32(AUTHENTICATE_MESSAGE_TYPE) + security_field_of(
        response.lm_response.len() as u16,
        lm_at as u32,
    ) + security_field_of(response.nt_response.len() as u16, nt_at as u32) + security_field_of(
        domain.len() as u16,
        domain_at as u32,
    ) + security_field_of(username.len() as u16, username_at as u32) + security_field_of(
        workstation.len() as u16,
        workstation_at as u32,
    ) + security_field_of(0, end as u32) + le32(flags) + zeros(8) + code + response.lm_response
        + response.nt_response + domain + username + workstation
}

/// A message with a message integrity code behind its fixed part.
pub open spec fn with_message_code(m: Seq<u8>, code: Seq<u8>) -> Seq<u8> {
    Seq::new(m.len(), |i: int| if 72 <= i < 88 { code[i - 72] } else { m[i] })
}

/// The NTLM message that completes an exchange. Where the server asks for it, a code over all
/// three messages stands behind the fixed part, computed while it is still zero.
pub open spec fn authenticate_message_of(
    negotiate: Seq<u8>,
    challenge_bytes: Seq<u8>,
    response: ResponseView,
    domain: Seq<u8>,
    username: Seq<u8>,
    workstation: Seq<u8>,
    flags: u32,
    mic_required: bool,
) -> Seq<u8> {
    if mic_required {
        let blank = authenticate_fields_of(
            response,
            domain,
            username,
            workstation,
            flags,
            zeros(16),
        );
        with_message_code(
            blank,
            hmac_md5_of(response.session_base_key, negotiate + challenge_bytes + blank),
        )
    } else {
        authenticate_fields_of(response, domain, username, workstation, flags, Seq::empty())
    }
}

/// Whether every payload fits its length field.
pub open spec fn authenticate_fits(
    response: ResponseView,
    domain: Seq<u8>,
    username: Seq<u8>,
    workstation: Seq<u8>,
) -> bool {
    &&& response.lm_response.len() <= u16::MAX
    &&& response.nt_response.len() <= u16::MAX
    &&& domain.len() <= u16::MAX
    &&& username.len() <= u16::MAX
    &&& workstation.len() <= u16::MAX
}

/// Setting the first of several fields that are still zero.
proof fn lemma_set_first_field(done: Seq<u8>, left: nat, rest: Seq<u8>, field: Seq<u8>)
    requires
        field.len() == 8,
    ensures
        overwrite(done + zeros(8 * (left + 1)) + rest, done.len() as int, field) == (done + field)
            + zeros(8 * left) + rest,
{
    assert(overwrite(done + zeros(8 * (left + 1)) + rest, done.len() as int, field) =~= (done
        + field) + zeros(8 * left) + rest);
}

/// Appends a payload and announces it in the first of several fields that are still zero.
fn append_next_buffer(
    message: &mut Vec<u8>,
    field_offset: usize,
    value: &[u8],
    Ghost(done): Ghost<Seq<u8>>,
    Ghost(left): Ghost<nat>,
    Ghost(rest): Ghost<Seq<u8>>,
) -> (r: Result<(), AuthError>)
    requires
        old(message)@ == done + zeros(8 * (left + 1)) + rest,
        field_offset == done.len(),
        old(message)@.len() <= u32::MAX,
    ensures
        if value@.len() > u16::MAX {
            r == Err::<(), _>(AuthError::Failed("NTLM payload field exceeds 65535 bytes"))
        } else {
            r is Ok && final(message)@ == (done + security_field_of(
                value@.len() as u16,
                old(message)@.len() as u32,
            )) + zeros(8 * left) + (rest + value@)
        },
{
    broadcast use crate::bytes::group_int_len;

    append_security_buffer(message, field_offset, value)?;
    proof {
        let field = security_field_of(value@.len() as u16, old(message)@.len() as u32);
        lemma_set_first_field(done, left, rest, field);
        assert(message@ =~= (done + field) + zeros(8 * left) + (rest + value@));
    }
    Ok(())
}

/// Lays out the NTLM message that completes an exchange, with room for a message integrity code
/// where there is to be one.
fn authenticate_fields(
    response: &ComputedResponse,
    domain: &[u8],
    username: &[u8],
    workstation: &[u8],
    flags: u32,
    code_len: usize,
) -> (r: Result<Vec<u8>, AuthError>)
    requires
        code_len <= 16,
    ensures
        if authenticate_fits(response@, domain@, username@, workstation@) {
            &&& r is Ok
            &&& r->Ok_0@ == authenticate_fields_of(
                response@,
                domain@,
                username@,
                workstation@,
                flags,
                zeros(code_len as nat),
            )
            &&& r->Ok_0@.len() >= 72 + code_len
        } else {
            r == Err::<Vec<u8>, _>(AuthError::Failed("NTLM payload field exceeds 65535 bytes"))
        },
{
    broadcast use crate::bytes::group_int_len;

    proof {
        reveal(authenticate_fields_of);
    }
    let mut message: Vec<u8> = Vec::new();
    put_bytes(&mut message, &NTLMSSP_SIGNATURE);
    assert(message@ =~= ntlmssp());
    put_u32(&mut message, AUTHENTICATE_MESSAGE_TYPE);
    let ghost mut done = message@;
    put_zeros(&mut message, 48);
    put_u32(&mut message, flags);
    put_zeros(&mut message, 8);
    put_zeros(&mut message, code_len);
    let ghost mut rest = le32(flags) + zeros(8) + zeros(code_len as nat);
    assert(message@ =~= done + zeros(48) + rest);

    let ghost mut at = message@.len();
    append_next_buffer(
        &mut message,
        12,
        &response.lm_response,
        Ghost(done),
        Ghost(5),
        Ghost(rest),
    )?;
    proof {
        done = done + security_field_of(response.lm_response@.len() as u16, at as u32);
        rest = rest + response.lm_response@;
        at = message@.len();
    }
    append_next_buffer(
        &mut message,
        20,
        &response.nt_response,
        Ghost(done),
        Ghost(4),
        Ghost(rest),
    )?;
    proof {
        done = done + security_field_of(response.nt_response@.len() as u16, at as u32);
        rest = rest + response.nt_response@;
        at = message@.len();
    }
    append_next_buffer(&mut message, 28, domain, Ghost(done), Ghost(3), Ghost(rest))?;
    proof {
        done = done + security_field_of(domain@.len() as u16, at as u32);
        rest = rest + domain@;
        at = message@.len();
    }
    append_next_buffer(&mut message, 36, username, Ghost(done), Ghost(2), Ghost(rest))?;
    proof {
        done = done + security_field_of(username@.len() as u16, at as u32);
        rest = rest + username@;
        at = message@.len();
    }
    append_next_buffer(&mut message, 44, workstation, Ghost(done), Ghost(1), Ghost(rest))?;
    proof {
        done = done + security_field_of(workstation@.len() as u16, at as u32);
        rest = rest + workstation@;
        at = message@.len();
    }
    let end: usize = message.len();
    set_security_buffer(&mut message, 52, 0, end)?;
    proof {
        let field = security_field_of(0, at as u32);
        lemma_set_first_field(done, 0, rest, field);
        assert(message@ =~= authenticate_fields_of(
            response@,
            domain@,
            username@,
            workstation@,
            flags,
            zeros(code_len as nat),
        ));
    }
    Ok(message)
}

/// The answer to a challenge as a whole: the message to send and the session key.
#[verifier::opaque]
pub open spec fn authenticate_of(
    credentials: NtlmCredentials,
    negotiate: Seq<u8>,
    challenge_bytes: Seq<u8>,
    challenge: ChallengeView,
    mic_required: bool,
    timestamp: u64,
    client_challenge: Seq<u8>,
) -> Result<(Seq<u8>, Seq<u8>), AuthError> {
    let key = response_key_of(
        credentials.password@,
        credentials.username@,
        credentials.domain@,
    );
    let response = ntlmv2_response_of(key, challenge, timestamp, client_challenge);
    let domain = utf16le_of(credentials.domain@);
    let username = utf16le_of(credentials.username@);
    let workstation = utf16le_of(credentials.workstation@);
    if !authenticate_fits(response, domain, username, workstation) {
        Err(AuthError::Failed("NTLM payload field exceeds 65535 bytes"))
    } else {
        Ok(
            (
                authenticate_message_of(
                    negotiate,
                    challenge_bytes,
                    response,
                    domain,
                    username,
                    workstation,
                    challenge.flags & CLIENT_NEGOTIATE_FLAGS,
                    mic_required,
                ),
                response.session_base_key,
            ),
        )
    }
}

/// Answers a challenge at a time, with a random challenge of the client's own: the message to send
/// and the session key.
pub fn build_authenticate_message(
    credentials: &NtlmCredentials,
    negotiate_message: &[u8],
    challenge_message: &[u8],
    challenge: &ChallengeMessage,
    mic_required: bool,
    timestamp: u64,
    client_challenge: [u8; 8],
) -> (r: Result<(Vec<u8>, SecretBytes), AuthError>)
    ensures
        match authenticate_of(
            *credentials,
            negotiate_message@,
            challenge_message@,
            challenge@,
            mic_required,
            timestamp,
            client_challenge@,
        ) {
            Err(e) => r == Err::<(Vec<u8>, SecretBytes), AuthError>(e),
            Ok((message, key)) => r is Ok && r->Ok_0.0@ == message && r->Ok_0.1@ == key
                && r->Ok_0.1@.len() == 16,
        },
        r is Ok ==> texts_announced(
            r->Ok_0.0@,
            credentials.domain@,
            credentials.username@,
            credentials.workstation@,
        ),
{
    proof {
        law_texts_announced(
            *credentials,
            negotiate_message@,
            challenge_message@,
            challenge@,
            mic_required,
            timestamp,
            client_challenge@,
        );
    }
    proof {
        reveal(authenticate_of);
    }
    let computed = compute_ntlmv2_response(credentials, challenge, timestamp, client_challenge)?;
    let negotiated_flags: u32 = challenge.flags & CLIENT_NEGOTIATE_FLAGS;
    let domain = utf16le(credentials.domain.as_str());
    let username = utf16le(credentials.username.as_str());
    let workstation = utf16le(credentials.workstation.as_str());
    if mic_required {
        let mut message = authenticate_fields(
            &computed,
            &domain,
            &username,
            &workstation,
            negotiated_flags,
            16,
        )?;
        let mut transcript = copy_bytes(negotiate_message);
        put_bytes(&mut transcript, challenge_message);
        put_bytes(&mut transcript, &message);
        let mic = hmac_md5(computed.session_base_key.expose(), &transcript)?;
        let ghost blank = message@;
        write_at(&mut message, 72, &mic);
        assert(message@ =~= with_message_code(blank, mic@));
        Ok((message, computed.session_base_key))
    } else {
        let message = authenticate_fields(
            &computed,
            &domain,
            &username,
            &workstation,
            negotiated_flags,
            0,
        )?;
        assert(zeros(0) =~= Seq::<u8>::empty());
        Ok((message, computed.session_base_key))
    }
}

/// The Windows clock at a number of nanoseconds after the Unix epoch.
pub open spec fn filetime_of(nanos: nat) -> Result<u64, AuthError> {
    if nanos / 100 > u64::MAX {
        Err(AuthError::Failed("system time overflow"))
    } else if WINDOWS_EPOCH_OFFSET_100NS + nanos / 100 > u64::MAX {
        Err(AuthError::Failed("Windows FILETIME overflow"))
    } else {
        Ok((WINDOWS_EPOCH_OFFSET_100NS + nanos / 100) as u64)
    }
}

/// The Windows clock at a number of nanoseconds after the Unix epoch.
pub fn filetime_from_unix(nanos: u128) -> (r: Result<u64, AuthError>)
    ensures
        r == filetime_of(nanos as nat),
{
    let ticks: u128 = nanos / 100;
    if ticks > u64::MAX as u128 {
        return Err(AuthError::Failed("system time overflow"));
    }
    match WINDOWS_EPOCH_OFFSET_100NS.checked_add(ticks as u64) {
        Some(time) => Ok(time),
        None => Err(AuthError::Failed("Windows FILETIME overflow")),
    }
}

/// Reads the system clock as the Windows clock. What it shows is not stated: only that it is a
/// time that the Windows clock can show, and on which inputs of the clock there is none.
pub fn current_filetime() -> (r: Result<u64, AuthError>)
    ensures
        r is Ok ==> exists|nanos: nat| #[trigger] filetime_of(nanos) == r,
        r is Err ==> is_clock_error(r->Err_0),
{
    match since_unix_epoch(SystemTime::now()) {
        None => Err(AuthError::Failed("system clock predates the Unix epoch")),
        Some(elapsed) => {
            let nanos: u128 = span_nanos(elapsed);
            let r = filetime_from_unix(nanos);
            assert(filetime_of(nanos as nat) == r);
            r
        },
    }
}

/// How far the exchange has come.
#[derive(Debug)]
pub enum NtlmState {
    New,
    NegotiateSent(Vec<u8>),
    Complete,
}

/// Connection-oriented NTLMv2 provider transported through SPNEGO.
pub struct NtlmV2Provider {
    pub credentials: NtlmCredentials,
    pub state: NtlmState,
    pub session_key: Option<SecretBytes>,
}

impl NtlmV2Provider {
    /// A provider at the beginning of its exchange.
    pub fn new(credentials: NtlmCredentials) -> (r: Self)
        ensures
            r.credentials == credentials,
            r.state is New,
            r.session_key is None,
    {
        NtlmV2Provider { credentials, state: NtlmState::New, session_key: None }
    }
}

/// Why the first token cannot be produced, if it cannot.
pub open spec fn ntlm_initial_error(state: NtlmState, username: Seq<char>) -> Option<AuthError> {
    if !(state is New) {
        Some(AuthError::InvalidState("NTLM NEGOTIATE token has already been emitted"))
    } else if username.len() == 0 {
        Some(AuthError::Failed("NTLM username must not be empty"))
    } else {
        None
    }
}

/// The challenge in a server token.
pub open spec fn token_challenge_of(server_token: Seq<u8>) -> Result<
    (Seq<u8>, ChallengeView),
    AuthError,
> {
    match extract_ntlm_of(server_token) {
        Err(e) => Err(e),
        Ok(bytes) => match challenge_of(bytes) {
            Err(e) => Err(e),
            Ok(challenge) => Ok((bytes, challenge)),
        },
    }
}

/// Whether an answer to a server token is one that the credentials give at some time and with some
/// random challenge. The time is the server's where the server gave one.
pub open spec fn is_ntlm_answer(
    credentials: NtlmCredentials,
    negotiate: Seq<u8>,
    server_token: Seq<u8>,
    timestamp: u64,
    client_challenge: Seq<u8>,
    token: Seq<u8>,
    key: Seq<u8>,
) -> bool {
    match token_challenge_of(server_token) {
        Err(_) => false,
        Ok((bytes, challenge)) => {
            let meta = target_info_of(challenge.target_info)->Ok_0;
            let answer = authenticate_of(
                credentials,
                negotiate,
                bytes,
                challenge,
                meta.mic_required,
                timestamp,
                client_challenge,
            );
            &&& meta.timestamp is Some ==> timestamp == meta.timestamp->0
            &&& client_challenge.len() == 8
            &&& answer is Ok
            &&& token == neg_token_resp_of(answer->Ok_0.0)
            &&& key == answer->Ok_0.1
            &&& key.len() == 16
        },
    }
}

/// Whether a token and a key answer a server token at some time and with some random challenge.
pub open spec fn ntlm_answered(
    credentials: NtlmCredentials,
    negotiate: Seq<u8>,
    server_token: Seq<u8>,
    token: Seq<u8>,
    key: Seq<u8>,
) -> bool {
    exists|timestamp: u64, client_challenge: Seq<u8>| #[trigger]
        is_ntlm_answer(
            credentials,
            negotiate,
            server_token,
            timestamp,
            client_challenge,
            token,
            key,
        )
}

/// Whether the clock can fail with this error.
pub open spec fn is_clock_error(e: AuthError) -> bool {
    ||| e == AuthError::Failed("system clock predates the Unix epoch")
    ||| exists|nanos: nat| #[trigger] filetime_of(nanos) == Err::<u64, AuthError>(e)
}

/// Whether a challenge that was understood can be left unanswered for this reason: the random
/// source fails, the clock fails where the server gave no time, or the answer does not fit.
pub open spec fn ntlm_unanswered(
    credentials: NtlmCredentials,
    negotiate: Seq<u8>,
    bytes: Seq<u8>,
    challenge: ChallengeView,
    e: AuthError,
) -> bool {
    let meta = target_info_of(challenge.target_info)->Ok_0;
    ||| e == AuthError::Failed("operating-system random source failed")
    ||| meta.timestamp is None && is_clock_error(e)
    ||| exists|timestamp: u64, client_challenge: Seq<u8>|
        #[trigger] authenticate_of(
            credentials,
            negotiate,
            bytes,
            challenge,
            meta.mic_required,
            timestamp,
            client_challenge,
        ) == Err::<(Seq<u8>, Seq<u8>), AuthError>(e)
}

impl AuthProvider for NtlmV2Provider {
    open spec fn speaks(&self) -> AuthMechanism {
        AuthMechanism::NtlmV2
    }

    open spec fn opens(before: &Self, after: &Self, answer: Result<AuthStep, AuthError>) -> bool {
        match ntlm_initial_error(before.state, before.credentials.username@) {
            Some(e) => answer == Err::<AuthStep, AuthError>(e) && *after == *before,
            None => {
                &&& answer is Ok
                &&& answer->Ok_0.token@ == neg_token_init_of(negotiate_message_bytes())
                &&& answer->Ok_0.state == AuthState::Continue
                &&& after.state is NegotiateSent
                &&& after.state->NegotiateSent_0@ == negotiate_message_bytes()
                &&& after.credentials == before.credentials
                &&& after.session_key == before.session_key
            },
        }
    }

    /// The random challenge, and the time where the server gives none, come from outside: any value
    /// of them can be answered with.
    open spec fn answers(
        before: &Self,
        after: &Self,
        server_token: Seq<u8>,
        answer: Result<AuthStep, AuthError>,
    ) -> bool {
        &&& after.credentials == before.credentials
        &&& answer is Err ==> *after == *before
        &&& match before.state {
            NtlmState::Complete => answer is Ok && answer->Ok_0.token@.len() == 0
                && answer->Ok_0.state == AuthState::Complete && *after == *before,
            NtlmState::New => answer == Err::<AuthStep, _>(
                AuthError::InvalidState("NTLM CHALLENGE arrived before NEGOTIATE was sent"),
            ),
            NtlmState::NegotiateSent(negotiate) => match token_challenge_of(server_token) {
                Err(e) => answer == Err::<AuthStep, AuthError>(e),
                Ok((bytes, challenge)) => match answer {
                    Ok(step) => {
                        &&& step.state == AuthState::Complete
                        &&& after.state is Complete
                        &&& after.session_key is Some
                        &&& after.session_key->0@.len() == 16
                        &&& ntlm_answered(
                            before.credentials,
                            negotiate@,
                            server_token,
                            step.token@,
                            after.session_key->0@,
                        )
                    },
                    Err(e) => ntlm_unanswered(before.credentials, negotiate@, bytes, challenge, e),
                },
            },
        }
    }

    open spec fn hands_over(before: &Self, after: &Self, key: Option<Seq<u8>>) -> bool {
        &&& key == key_view(before.session_key)
        &&& after.session_key is None
        &&& after.credentials == before.credentials
        &&& after.state == before.state
    }

    fn mechanism(&self) -> (r: AuthMechanism)
        ensures
            r == AuthMechanism::NtlmV2,
    {
        AuthMechanism::NtlmV2
    }

    fn initial_token(&mut self) -> (r: Result<AuthStep, AuthError>)
        ensures
            Self::opens(&*old(self), &*final(self), r),
    {
        match self.state {
            NtlmState::New => {},
            _ => {
                return Err(
                    AuthError::InvalidState("NTLM NEGOTIATE token has already been emitted"),
                );
            },
        }
        if self.credentials.username.as_str().is_empty() {
            return Err(AuthError::Failed("NTLM username must not be empty"));
        }
        let negotiate = build_negotiate_message();
        let token = encode_neg_token_init_ntlm(&negotiate);
        self.state = NtlmState::NegotiateSent(negotiate);
        Ok(AuthStep { token, state: AuthState::Continue })
    }

    /// The random challenge, and the time where the server gives none, come from outside: what is
    /// stated holds of every value of them.
    fn next_token(&mut self, server_token: &[u8]) -> (r: Result<AuthStep, AuthError>)
        ensures
            Self::answers(&*old(self), &*final(self), server_token@, r),
    {
        let negotiate = match &self.state {
            NtlmState::Complete => {
                return Ok(AuthStep { token: Vec::new(), state: AuthState::Complete });
            },
            NtlmState::New => {
                return Err(
                    AuthError::InvalidState("NTLM CHALLENGE arrived before NEGOTIATE was sent"),
                );
            },
            NtlmState::NegotiateSent(message) => copy_bytes(message),
        };
        let challenge_bytes = extract_ntlm_token(server_token)?;
        let challenge = parse_challenge_message(challenge_bytes)?;
        let meta = validate_target_info(&challenge.target_info)?;
        let timestamp: u64 = match meta.timestamp {
            Some(value) => value,
            None => match current_filetime() {
                Ok(now) => now,
                Err(e) => {
                    return Err(e);
                },
            },
        };
        let client_challenge = match random_bytes(8) {
            Some(bytes) => copy_8(&bytes, 0),
            None => {
                return Err(AuthError::Failed("operating-system random source failed"));
            },
        };
        let (authenticate, session_key) = build_authenticate_message(
            &self.credentials,
            &negotiate,
            challenge_bytes,
            &challenge,
            meta.mic_required,
            timestamp,
            client_challenge,
        )?;
        let token = encode_neg_token_resp_ntlm(&authenticate);
        self.session_key = Some(session_key);
        self.state = NtlmState::Complete;
        assert(is_ntlm_answer(
            old(self).credentials,
            old(self).state->NegotiateSent_0@,
            server_token@,
            timestamp,
            client_challenge@,
            token@,
            self.session_key->0@,
        ));
        assert(ntlm_answered(
            old(self).credentials,
            old(self).state->NegotiateSent_0@,
            server_token@,
            token@,
            self.session_key->0@,
        ));
        Ok(AuthStep { token, state: AuthState::Complete })
    }

    fn take_session_key(&mut self) -> (r: Option<SecretBytes>)
        ensures
            r == old(self).session_key,
            final(self).session_key is None,
            final(self).credentials == old(self).credentials,
            final(self).state == old(self).state,
    {
        self.session_key.take()
    }
}

/// Whether some call takes a provider from one state to another.
pub open spec fn ntlm_called(before: NtlmV2Provider, after: NtlmV2Provider) -> bool {
    ||| exists|answer: Result<AuthStep, AuthError>| #[trigger]
        NtlmV2Provider::opens(&before, &after, answer)
    ||| exists|server_token: Seq<u8>, answer: Result<AuthStep, AuthError>| #[trigger]
        NtlmV2Provider::answers(&before, &after, server_token, answer)
    ||| exists|key: Option<Seq<u8>>| #[trigger] NtlmV2Provider::hands_over(&before, &after, key)
}

/// Whether a provider goes through these states, from a new one on.
pub open spec fn ntlm_history(states: Seq<NtlmV2Provider>) -> bool {
    &&& states.len() > 0
    &&& states[0].state is New
    &&& states[0].session_key is None
    &&& forall|i: int|
        0 <= i < states.len() - 1 ==> #[trigger] ntlm_called(states[i], states[i + 1])
}

/// A provider has no key before it has answered a challenge, and never one of another length than 16
/// bytes.
pub proof fn law_no_key_before_the_answer(states: Seq<NtlmV2Provider>, i: int)
    requires
        ntlm_history(states),
        0 <= i < states.len(),
    ensures
        !(states[i].state is Complete) ==> states[i].session_key is None,
        states[i].session_key is Some ==> states[i].session_key->0@.len() == 16,
    decreases i,
{
    if i > 0 {
        law_no_key_before_the_answer(states, i - 1);
        assert(ntlm_called(states[i - 1], states[i - 1 + 1]));
    }
}

/// A provider whose key was taken after its answer has none any more, whatever is called.
pub proof fn law_key_is_handed_over_once(states: Seq<NtlmV2Provider>, taken: int, i: int)
    requires
        ntlm_history(states),
        0 <= taken <= i < states.len(),
        states[taken].state is Complete,
        states[taken].session_key is None,
    ensures
        states[i].state is Complete,
        states[i].session_key is None,
    decreases i - taken,
{
    if i > taken {
        law_key_is_handed_over_once(states, taken, i - 1);
        assert(ntlm_called(states[i - 1], states[i - 1 + 1]));
    }
}

/// What single calls do to the key: the answer to a challenge brings one of 16 bytes, a failed answer
/// changes nothing, and taking it gives just that key and leaves none.
pub proof fn law_answer_brings_the_key(
    before: NtlmV2Provider,
    after: NtlmV2Provider,
    server_token: Seq<u8>,
    answer: Result<AuthStep, AuthError>,
    taken: NtlmV2Provider,
    key: Option<Seq<u8>>,
)
    requires
        NtlmV2Provider::answers(&before, &after, server_token, answer),
        NtlmV2Provider::hands_over(&after, &taken, key),
    ensures
        answer is Err ==> after == before && key == key_view(before.session_key),
        before.state is NegotiateSent && answer is Ok ==> key is Some && key->0.len() == 16,
        taken.session_key is None,
        taken.state == after.state,
{
}

} // verus!
