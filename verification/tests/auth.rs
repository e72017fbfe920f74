use smb_io::auth::anonymous;
use smb_io::auth::anonymous::AnonymousNtlmProvider;
use smb_io::auth::ntlm::append_security_buffer;
use smb_io::auth::ntlm::build_negotiate_message;
use smb_io::auth::ntlm::compute_ntlmv2_response;
use smb_io::auth::ntlm::compute_response_key;
use smb_io::auth::ntlm::current_filetime;
use smb_io::auth::ntlm::filetime_from_unix;
use smb_io::auth::ntlm::hmac_md5;
use smb_io::auth::ntlm::parse_challenge_message;
use smb_io::auth::ntlm::read_security_buffer;
use smb_io::auth::ntlm::set_security_buffer;
use smb_io::auth::ntlm::validate_target_info;
use smb_io::auth::ntlm::ChallengeMessage;
use smb_io::auth::ntlm::NtlmCredentials;
use smb_io::auth::ntlm::NtlmV2Provider;
use smb_io::auth::ntlm::AUTHENTICATE_MESSAGE_TYPE;
use smb_io::auth::ntlm::CHALLENGE_MESSAGE_TYPE;
use smb_io::auth::ntlm::CLIENT_NEGOTIATE_FLAGS;
use smb_io::auth::provider::AuthError;
use smb_io::auth::provider::AuthMechanism;
use smb_io::auth::provider::AuthProvider;
use smb_io::auth::provider::AuthState;
use smb_io::auth::secret::SecretBytes;
use smb_io::auth::secret::SecretText;
use smb_io::auth::spnego::der_tlv;
use smb_io::auth::spnego::encode_neg_token_init_ntlm;
use smb_io::auth::spnego::encode_neg_token_resp_ntlm;
use smb_io::auth::spnego::extract_ntlm_token;
use smb_io::auth::spnego::parse_tlv;
use smb_io::text::utf16le;

fn text(value: &str) -> String {
    value.to_string()
}

fn vector_credentials() -> NtlmCredentials {
    NtlmCredentials::new(text("User"), text("Password"))
        .with_domain(text("Domain"))
        .with_workstation(text("COMPUTER"))
}

fn vector_target_info() -> Vec<u8> {
    vec![
        0x02, 0x00, 0x0c, 0x00, 0x44, 0x00, 0x6f, 0x00, 0x6d, 0x00, 0x61, 0x00, 0x69, 0x00, 0x6e,
        0x00, 0x01, 0x00, 0x0c, 0x00, 0x53, 0x00, 0x65, 0x00, 0x72, 0x00, 0x76, 0x00, 0x65, 0x00,
        0x72, 0x00, 0x00, 0x00, 0x00, 0x00,
    ]
}

fn challenge_message(target_info: &[u8]) -> Vec<u8> {
    let mut message = Vec::new();
    message.extend_from_slice(b"NTLMSSP\0");
    message.extend_from_slice(&CHALLENGE_MESSAGE_TYPE.to_le_bytes());
    message.extend_from_slice(&0u16.to_le_bytes());
    message.extend_from_slice(&0u16.to_le_bytes());
    message.extend_from_slice(&48u32.to_le_bytes());
    message.extend_from_slice(&CLIENT_NEGOTIATE_FLAGS.to_le_bytes());
    message.extend_from_slice(&[0x01, 0x23, 0x45, 0x67, 0x89, 0xab, 0xcd, 0xef]);
    message.extend_from_slice(&[0u8; 8]);
    message.extend_from_slice(&(target_info.len() as u16).to_le_bytes());
    message.extend_from_slice(&(target_info.len() as u16).to_le_bytes());
    message.extend_from_slice(&48u32.to_le_bytes());
    message.extend_from_slice(target_info);
    message
}

#[test]
fn anonymous_authenticate_uses_null_session_response_shape() {
    let message = anonymous::build_authenticate_message(anonymous::CLIENT_FLAGS);
    assert_eq!(&message[0..8], b"NTLMSSP\0");
    assert_eq!(
        u32::from_le_bytes([message[8], message[9], message[10], message[11]]),
        AUTHENTICATE_MESSAGE_TYPE
    );
    assert_eq!(u16::from_le_bytes([message[12], message[13]]), 1);
    assert_eq!(u16::from_le_bytes([message[20], message[21]]), 0);
    assert_eq!(u16::from_le_bytes([message[36], message[37]]), 0);
    assert_eq!(message[72], 0);
}

#[test]
fn provider_reports_anonymous_mechanism_and_no_session_key() {
    let mut provider = AnonymousNtlmProvider::new();
    assert_eq!(provider.mechanism(), AuthMechanism::Anonymous);
    assert!(provider.take_session_key().is_none());
}

#[test]
fn ntowfv2_matches_ms_nlmp_vector() {
    let expected = [
        0x0c, 0x86, 0x8a, 0x40, 0x3b, 0xfd, 0x7a, 0x93, 0xa3, 0x00, 0x1e, 0xf2, 0x2e, 0xf0, 0x2e,
        0x3f,
    ];
    // The MD4 digest of the password of the published vector.
    let nt_digest = [
        0xa4, 0xf4, 0x9c, 0x40, 0x65, 0x10, 0xbd, 0xca, 0xb6, 0x82, 0x4e, 0xe7, 0xc3, 0x0f, 0xd8,
        0x52,
    ];
    let identity = utf16le("USERDomain");
    let response_key = hmac_md5(&nt_digest, &identity).unwrap();
    assert_eq!(response_key, expected);
    let from_credentials = compute_response_key(&vector_credentials()).unwrap();
    assert_eq!(from_credentials.expose(), &expected);
}

#[test]
fn ntlmv2_proof_and_session_key_match_ms_nlmp_vector() {
    let credentials = vector_credentials();
    let challenge = ChallengeMessage {
        flags: CLIENT_NEGOTIATE_FLAGS,
        server_challenge: [0x01, 0x23, 0x45, 0x67, 0x89, 0xab, 0xcd, 0xef],
        target_info: vector_target_info(),
    };
    let response = compute_ntlmv2_response(
        &credentials,
        &challenge,
        0,
        [0xaa, 0xaa, 0xaa, 0xaa, 0xaa, 0xaa, 0xaa, 0xaa],
    )
    .unwrap();
    assert_eq!(
        &response.nt_response[..16],
        &[
            0x68, 0xcd, 0x0a, 0xb8, 0x51, 0xe5, 0x1c, 0x96, 0xaa, 0xbc, 0x92, 0x7b, 0xeb, 0xef,
            0x6a, 0x1c,
        ]
    );
    assert_eq!(
        response.session_base_key.expose(),
        &[
            0x8d, 0xe4, 0x0c, 0xca, 0xdb, 0xc1, 0x4a, 0x82, 0xf1, 0x5c, 0xb0, 0xad, 0x0d, 0xe9,
            0x5c, 0xa3,
        ]
    );
    assert_eq!(response.lm_response, vec![0u8; 24]);
}

#[test]
fn malformed_target_info_is_rejected() {
    assert!(validate_target_info(&[1, 0, 8, 0, 1, 2]).is_err());
}

#[test]
fn target_info_gives_timestamp_and_integrity_flag() {
    let mut info = Vec::new();
    info.extend_from_slice(&7u16.to_le_bytes());
    info.extend_from_slice(&8u16.to_le_bytes());
    info.extend_from_slice(&0x0102_0304_0506_0708u64.to_le_bytes());
    info.extend_from_slice(&6u16.to_le_bytes());
    info.extend_from_slice(&4u16.to_le_bytes());
    info.extend_from_slice(&2u32.to_le_bytes());
    info.extend_from_slice(&[0u8; 4]);
    let meta = validate_target_info(&info).unwrap();
    assert_eq!(meta.timestamp, Some(0x0102_0304_0506_0708));
    assert!(meta.mic_required);
}

#[test]
fn credentials_debug_redacts_password() {
    let credentials =
        NtlmCredentials::new(text("alice"), text("super-secret")).with_domain(text("LAB"));
    let rendered = credentials.redacted_text();
    assert!(rendered.contains("<redacted>"));
    assert!(!rendered.contains("super-secret"));
    assert!(rendered.contains("alice"));
    assert!(rendered.contains("LAB"));
}

#[test]
fn debug_never_contains_secret_material() {
    let secret = SecretBytes::new(b"top-secret-session-key".to_vec());
    let rendered = secret.redacted_text();
    assert!(rendered.contains("<redacted>"));
    assert!(!rendered.contains("top-secret"));
    assert_eq!(rendered, "SecretBytes { len: 22, contents: \"<redacted>\" }");
}

#[test]
fn secrets_hold_what_they_were_given() {
    let bytes = SecretBytes::new(vec![1, 2, 3]);
    assert_eq!(bytes.expose(), &[1, 2, 3]);
    assert_eq!(bytes.len(), 3);
    assert!(!bytes.is_empty());
    assert!(SecretBytes::new(Vec::new()).is_empty());
    assert_eq!(SecretText::new(text("pass")).expose(), "pass");
}

#[test]
fn initial_token_roundtrips_embedded_ntlm() {
    let ntlm = b"NTLMSSP\0\x01\x00\x00\x00test";
    let wrapped = encode_neg_token_init_ntlm(ntlm);
    assert_eq!(extract_ntlm_token(&wrapped).unwrap(), ntlm);
}

#[test]
fn response_token_roundtrips_embedded_ntlm() {
    let ntlm = b"NTLMSSP\0\x03\x00\x00\x00test";
    let wrapped = encode_neg_token_resp_ntlm(ntlm);
    assert_eq!(extract_ntlm_token(&wrapped).unwrap(), ntlm);
}

#[test]
fn raw_ntlm_is_accepted() {
    let ntlm = b"NTLMSSP\0\x02\x00\x00\x00";
    assert_eq!(extract_ntlm_token(ntlm).unwrap(), ntlm);
}

#[test]
fn long_tokens_survive_both_wrappings() {
    let mut ntlm = b"NTLMSSP\0".to_vec();
    ntlm.extend((0..70_000).map(|i| (i % 251) as u8));
    let initial = encode_neg_token_init_ntlm(&ntlm);
    assert_eq!(extract_ntlm_token(&initial).unwrap(), &ntlm[..]);
    let response = encode_neg_token_resp_ntlm(&ntlm);
    assert_eq!(extract_ntlm_token(&response).unwrap(), &ntlm[..]);
}

#[test]
fn garbage_is_no_token() {
    assert!(matches!(
        extract_ntlm_token(b"\x30\x05hello"),
        Err(AuthError::InvalidToken(_))
    ));
    assert!(extract_ntlm_token(&[]).is_err());
    assert!(extract_ntlm_token(&[0x60, 0x84, 0xff, 0xff, 0xff, 0xff]).is_err());
}

#[test]
fn ntlm_provider_goes_through_its_exchange() {
    let mut provider = NtlmV2Provider::new(vector_credentials());
    assert_eq!(provider.mechanism(), AuthMechanism::NtlmV2);
    assert!(provider.take_session_key().is_none());

    let first = provider.initial_token().unwrap();
    assert_eq!(first.state, AuthState::Continue);
    assert_eq!(
        extract_ntlm_token(&first.token).unwrap(),
        &build_negotiate_message()[..]
    );

    let challenge = challenge_message(&vector_target_info());
    let wrapped = encode_neg_token_resp_ntlm(&challenge);
    let second = provider.next_token(&wrapped).unwrap();
    assert_eq!(second.state, AuthState::Complete);
    let authenticate = extract_ntlm_token(&second.token).unwrap();
    assert_eq!(&authenticate[0..8], b"NTLMSSP\0");
    assert_eq!(
        u32::from_le_bytes([
            authenticate[8],
            authenticate[9],
            authenticate[10],
            authenticate[11]
        ]),
        AUTHENTICATE_MESSAGE_TYPE
    );
    assert_eq!(provider.take_session_key().unwrap().len(), 16);
    assert!(provider.take_session_key().is_none());
}

#[test]
fn two_exchanges_draw_different_challenges() {
    let challenge = challenge_message(&vector_target_info());
    let mut tokens = Vec::new();
    for _ in 0..2 {
        let mut provider = NtlmV2Provider::new(vector_credentials());
        provider.initial_token().unwrap();
        tokens.push(provider.next_token(&challenge).unwrap().token);
    }
    assert_ne!(tokens[0], tokens[1]);
}

#[test]
fn challenge_fields_are_read_back() {
    let parsed = parse_challenge_message(&challenge_message(&vector_target_info())).unwrap();
    assert_eq!(parsed.flags, CLIENT_NEGOTIATE_FLAGS);
    assert_eq!(
        parsed.server_challenge,
        [0x01, 0x23, 0x45, 0x67, 0x89, 0xab, 0xcd, 0xef]
    );
    assert_eq!(parsed.target_info, vector_target_info());
    assert!(parse_challenge_message(b"NTLMSSP\0").is_err());
    let mut wrong_type = challenge_message(&vector_target_info());
    wrong_type[8] = 3;
    assert!(parse_challenge_message(&wrong_type).is_err());
}

#[test]
fn anonymous_provider_goes_through_its_exchange() {
    let mut provider = AnonymousNtlmProvider::new();
    let first = provider.initial_token().unwrap();
    assert_eq!(first.state, AuthState::Continue);
    assert!(provider.initial_token().is_err());
    let challenge = challenge_message(&vector_target_info());
    let second = provider.next_token(&challenge).unwrap();
    assert_eq!(second.state, AuthState::Complete);
    assert!(provider.take_session_key().is_none());
}

#[test]
fn filetimes_count_from_the_windows_epoch() {
    assert_eq!(filetime_from_unix(0).unwrap(), 116_444_736_000_000_000);
    assert_eq!(
        filetime_from_unix(1_000_000_000).unwrap(),
        116_444_736_010_000_000
    );
    assert!(filetime_from_unix(u128::MAX).is_err());
    // The clock of a machine that runs these tests is past the year 2020.
    assert!(current_filetime().unwrap() > 132_223_104_000_000_000);
}

#[test]
fn auth_errors_say_what_failed() {
    assert_eq!(
        AuthError::InvalidToken("x").to_text(),
        "invalid authentication token: x"
    );
    assert_eq!(
        AuthError::InvalidState("x").to_text(),
        "invalid authentication state: x"
    );
    assert_eq!(
        AuthError::Unsupported("x").to_text(),
        "unsupported authentication feature: x"
    );
    assert_eq!(AuthError::Failed("x").to_text(), "authentication failed: x");
}

#[test]
fn a_security_buffer_reads_back() {
    let mut message = vec![0xEE; 24];
    append_security_buffer(&mut message, 8, b"payload").unwrap();
    assert_eq!(message.len(), 31);
    assert_eq!(&message[..8], &[0xEE; 8]);
    assert_eq!(&message[8..16], &[7, 0, 7, 0, 24, 0, 0, 0]);
    assert_eq!(&message[16..24], &[0xEE; 8]);
    assert_eq!(read_security_buffer(&message, 8).unwrap(), b"payload");
    append_security_buffer(&mut message, 0, &[]).unwrap();
    assert_eq!(message.len(), 31);
    assert_eq!(read_security_buffer(&message, 0).unwrap(), b"");
    let longest = vec![0x5A; 65535];
    append_security_buffer(&mut message, 16, &longest).unwrap();
    assert_eq!(read_security_buffer(&message, 16).unwrap(), longest);
}

#[test]
fn a_security_buffer_that_does_not_fit_changes_nothing() {
    let mut message = vec![0xEE; 12];
    assert_eq!(
        append_security_buffer(&mut message, 0, &vec![0; 65536]),
        Err(AuthError::Failed("NTLM payload field exceeds 65535 bytes"))
    );
    assert_eq!(
        append_security_buffer(&mut message, 5, b"x"),
        Err(AuthError::Failed("NTLM security-buffer header is truncated"))
    );
    assert_eq!(
        append_security_buffer(&mut message, usize::MAX, b"x"),
        Err(AuthError::Failed("NTLM security-buffer header is truncated"))
    );
    if usize::BITS == 64 {
        assert_eq!(
            set_security_buffer(&mut message, 0, 0, u32::MAX as usize + 1),
            Err(AuthError::Failed("NTLM message exceeds 4 GiB"))
        );
    }
    assert_eq!(message, vec![0xEE; 12]);
}

#[test]
fn der_elements_parse_back_from_their_only_encoding() {
    for length in [0usize, 1, 127, 128, 255, 256, 65536] {
        let content = vec![0x33; length];
        let mut input = der_tlv(0x04, &content);
        let consumed = input.len();
        input.extend_from_slice(&[1, 2, 3]);
        assert_eq!(
            parse_tlv(&input).unwrap(),
            (0x04, content.as_slice(), consumed)
        );
    }
    assert_eq!(
        parse_tlv(&[4, 0x80, 0]),
        Err(AuthError::InvalidToken("invalid DER length"))
    );
    let mut padded = vec![4, 0x82, 0, 0x80];
    padded.extend_from_slice(&[0; 128]);
    assert_eq!(
        parse_tlv(&padded),
        Err(AuthError::InvalidToken("non-minimal DER length"))
    );
    let mut long_form = vec![4, 0x81, 0x7F];
    long_form.extend_from_slice(&[0; 127]);
    assert_eq!(
        parse_tlv(&long_form),
        Err(AuthError::InvalidToken("non-minimal DER long-form length"))
    );
    assert_eq!(
        parse_tlv(&[4, 2, 0]),
        Err(AuthError::InvalidToken("truncated DER content"))
    );
}

#[test]
fn the_session_key_is_handed_over_once() {
    let mut provider = NtlmV2Provider::new(vector_credentials());
    assert!(provider.take_session_key().is_none());
    provider.initial_token().unwrap();
    assert!(provider.take_session_key().is_none());
    assert!(provider.next_token(b"no challenge").is_err());
    assert!(provider.take_session_key().is_none());
    provider
        .next_token(&challenge_message(&vector_target_info()))
        .unwrap();
    assert_eq!(provider.take_session_key().unwrap().len(), 16);
    assert!(provider.take_session_key().is_none());
    provider.next_token(b"anything").unwrap();
    assert!(provider.take_session_key().is_none());
}

#[test]
fn the_text_form_of_credentials_escapes_names() {
    let credentials = NtlmCredentials::new(text("al\"ice\n"), text("super-secret"))
        .with_domain(text("LAB\\x"))
        .with_workstation(text("w"));
    assert_eq!(
        credentials.redacted_text(),
        "NtlmCredentials { username: \"al\\\"ice\\n\", domain: \"LAB\\\\x\", \
         workstation: \"w\", password: \"<redacted>\" }"
    );
}

#[test]
fn an_extracted_token_stands_in_its_input() {
    let ntlm = b"NTLMSSP\0and more";
    let token = encode_neg_token_resp_ntlm(ntlm);
    let found = extract_ntlm_token(&token).unwrap();
    assert!(token.windows(found.len()).any(|window| window == found));
    assert_eq!(found, ntlm);
}
