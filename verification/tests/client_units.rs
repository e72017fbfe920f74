use smb_io::client::cancellation::ReadCancellationToken;
use smb_io::client::credits::CreditManager;
use smb_io::client::durable_open::optional_durable_response;
use smb_io::client::durable_open::required_durable_response;
use smb_io::client::error::ClientError;
use smb_io::client::file::normalize_relative_path;
use smb_io::client::file::FileOpenOptions;
use smb_io::client::message_id::MessageIdAllocator;
use smb_io::client::negotiate::select_signing_algorithm;
use smb_io::client::negotiate::validate_server_preauth_sha512;
use smb_io::client::negotiate::NegotiateConfig;
use smb_io::client::pipeline::OutstandingReads;
use smb_io::client::pipeline::PendingRead;
use smb_io::client::preauth::PreauthIntegrityHash;
use smb_io::client::query::QueryDirectoryOptions;
use smb_io::client::query::QueryInfoOptions;
use smb_io::client::read::credit_limited_payload;
use smb_io::client::read::read_credit_charge;
use smb_io::client::read_async::AsyncReadState;
use smb_io::client::read_async::ReadResponsePhase;
use smb_io::client::read_async::STATUS_PENDING;
use smb_io::client::session::validate_session_id;
use smb_io::client::signing::SigningAlgorithm;
use smb_io::client::signing::SigningState;
use smb_io::client::transport::FrameBuffer;
use smb_io::client::transport::TcpTransportConfig;
use smb_io::auth::provider::AuthError;
use smb_io::auth::secret::SecretBytes;
use smb_io::wire::constants::CONTEXT_PREAUTH_INTEGRITY_CAPABILITIES;
use smb_io::wire::constants::CONTEXT_SIGNING_CAPABILITIES;
use smb_io::wire::constants::DURABLE_HANDLE_FLAG_PERSISTENT;
use smb_io::wire::constants::FLAG_ASYNC_COMMAND;
use smb_io::wire::constants::FLAG_SERVER_TO_REDIR;
use smb_io::wire::constants::FLAG_SIGNED;
use smb_io::wire::constants::INFO_TYPE_FILE;
use smb_io::wire::constants::QUERY_DIRECTORY_FLAG_NONE;
use smb_io::wire::context::NegotiateContext;
use smb_io::wire::create::CreateContext;
use smb_io::wire::create::DURABLE_HANDLE_REQUEST_V2_NAME;
use smb_io::wire::error::WireError;
use smb_io::wire::framing::encode_direct_tcp_frame;
use smb_io::wire::framing::DIRECT_TCP_MAX_PAYLOAD;
use smb_io::wire::header::Command;
use smb_io::wire::header::HeaderId;
use smb_io::wire::header::Smb2Header;
use smb_io::wire::header::StatusField;
use smb_io::wire::negotiate::Dialect;
use std::time::Duration;

const TREE_ID: u32 = 0x1122_3344;
const SESSION_ID: u64 = 0x0102_0304_0506_0708;
const MESSAGE_ID: u64 = 42;

#[test]
fn reserve_and_grant_update_available_window() {
    let mut credits = CreditManager::new(8).unwrap();
    credits.reserve(4).unwrap();
    assert_eq!(credits.available(), 4);
    credits.grant(6).unwrap();
    assert_eq!(credits.available(), 10);
}

#[test]
fn cannot_reserve_past_server_grant() {
    let mut credits = CreditManager::new(2).unwrap();
    assert!(credits.reserve(3).is_err());
    assert_eq!(credits.available(), 2);
}

#[test]
fn request_hint_grows_toward_target() {
    let credits = CreditManager::new(32).unwrap();
    assert_eq!(credits.request_hint(1), 96);
}

#[test]
fn a_window_needs_a_first_credit() {
    assert!(matches!(
        CreditManager::new(0),
        Err(ClientError::Protocol(_))
    ));
}

#[test]
fn durable_response_can_coexist_with_unknown_create_contexts() {
    let contexts = vec![
        CreateContext::new(b"QFid".to_vec(), Vec::new()).unwrap(),
        CreateContext::new(
            DURABLE_HANDLE_REQUEST_V2_NAME.to_vec(),
            45_000u32
                .to_le_bytes()
                .into_iter()
                .chain(0u32.to_le_bytes())
                .collect::<Vec<_>>(),
        )
        .unwrap(),
    ];
    let response = required_durable_response(&contexts).unwrap();
    assert_eq!(response.timeout_ms, 45_000);
    assert_eq!(response.flags, 0);
}

#[test]
fn missing_dh2q_is_not_silently_accepted() {
    let contexts = vec![CreateContext::new(b"QFid".to_vec(), Vec::new()).unwrap()];
    assert!(required_durable_response(&contexts).is_err());
    assert!(optional_durable_response(&contexts).unwrap().is_none());
}

#[test]
fn duplicate_dh2q_is_rejected() {
    let data = [0u8; 8];
    let contexts = vec![
        CreateContext::new(DURABLE_HANDLE_REQUEST_V2_NAME.to_vec(), data.to_vec()).unwrap(),
        CreateContext::new(DURABLE_HANDLE_REQUEST_V2_NAME.to_vec(), data.to_vec()).unwrap(),
    ];
    assert!(optional_durable_response(&contexts).is_err());
}

#[test]
fn persistent_response_flag_is_exposed() {
    let mut data = Vec::new();
    data.extend_from_slice(&60_000u32.to_le_bytes());
    data.extend_from_slice(&DURABLE_HANDLE_FLAG_PERSISTENT.to_le_bytes());
    let contexts =
        vec![CreateContext::new(DURABLE_HANDLE_REQUEST_V2_NAME.to_vec(), data).unwrap()];
    let response = required_durable_response(&contexts).unwrap();
    assert_eq!(response.flags, DURABLE_HANDLE_FLAG_PERSISTENT);
}

#[test]
fn forward_slashes_are_normalized_for_smb() {
    assert_eq!(
        normalize_relative_path("movies/sub/sample.mkv").unwrap(),
        "movies\\sub\\sample.mkv"
    );
}

#[test]
fn absolute_paths_are_rejected() {
    assert!(normalize_relative_path("\\movies\\sample.mkv").is_err());
    assert!(normalize_relative_path("/movies/sample.mkv").is_err());
    assert!(normalize_relative_path("").is_err());
    assert!(normalize_relative_path("movies\0sample").is_err());
}

#[test]
fn normalizing_twice_changes_nothing() {
    let once = normalize_relative_path("a/b\\c/d e/ü.mkv").unwrap();
    assert_eq!(normalize_relative_path(&once).unwrap(), once);
}

#[test]
fn zero_charge_still_advances_one_id() {
    let mut ids = MessageIdAllocator::new();
    assert_eq!(ids.allocate(0).unwrap(), 0);
    assert_eq!(ids.allocate(0).unwrap(), 1);
}

#[test]
fn multi_credit_request_reserves_a_sequence_span() {
    let mut ids = MessageIdAllocator::new();
    assert_eq!(ids.allocate(4).unwrap(), 0);
    assert_eq!(ids.allocate(1).unwrap(), 4);
    assert_eq!(ids.peek(), 5);
}

#[test]
fn message_ids_run_out() {
    let mut ids = MessageIdAllocator { next: u64::MAX };
    assert!(ids.allocate(2).is_err());
    assert_eq!(ids.peek(), u64::MAX);
}

#[test]
fn modern_config_offers_all_initial_dialects_and_signing_context() {
    let config = NegotiateConfig::modern([1; 16], vec![2; 32]);
    assert_eq!(config.dialects.first(), Some(&Dialect::Smb202));
    assert_eq!(config.dialects.last(), Some(&Dialect::Smb311));
    let request = config.request().unwrap();
    assert_eq!(request.contexts.len(), 2);
    assert!(request
        .contexts
        .iter()
        .any(|context| context.context_type == CONTEXT_SIGNING_CAPABILITIES));
}

#[test]
fn sha512_server_context_is_accepted() {
    let context = NegotiateContext::preauth_sha512(vec![0x11; 32]).unwrap();
    validate_server_preauth_sha512(&[context]).unwrap();
}

#[test]
fn missing_sha512_is_rejected() {
    let context = NegotiateContext {
        context_type: CONTEXT_PREAUTH_INTEGRITY_CAPABILITIES,
        data: vec![1, 0, 0, 0, 2, 0],
    };
    assert!(validate_server_preauth_sha512(&[context]).is_err());
}

#[test]
fn smb311_defaults_to_cmac_when_server_omits_signing_context() {
    assert_eq!(
        select_signing_algorithm(
            Dialect::Smb311,
            &[],
            &vec![SigningAlgorithm::AesCmac, SigningAlgorithm::HmacSha256]
        )
        .unwrap(),
        SigningAlgorithm::AesCmac
    );
}

#[test]
fn smb311_accepts_offered_signing_algorithm() {
    // HMAC-SHA256 is algorithm 0 on the wire.
    let context = NegotiateContext {
        context_type: CONTEXT_SIGNING_CAPABILITIES,
        data: vec![1, 0, 0, 0],
    };
    assert_eq!(
        select_signing_algorithm(
            Dialect::Smb311,
            &[context],
            &vec![SigningAlgorithm::AesCmac, SigningAlgorithm::HmacSha256]
        )
        .unwrap(),
        SigningAlgorithm::HmacSha256
    );
}

#[test]
fn starts_with_zero_hash() {
    assert_eq!(PreauthIntegrityHash::new().current(), &[0; 64]);
}

#[test]
fn exact_message_bytes_affect_state() {
    let mut left = PreauthIntegrityHash::new();
    let mut right = PreauthIntegrityHash::new();
    left.update(b"request");
    right.update(b"request");
    assert_eq!(left, right);
    right.update(b"response-b");
    left.update(b"response-a");
    assert_ne!(left, right);
}

#[test]
fn preauth_hash_is_sha512_of_the_state_and_the_message() {
    let mut hash = PreauthIntegrityHash::new();
    hash.update(b"");
    // SHA-512 of 64 zero bytes.
    assert_eq!(
        &hash.current()[0..8],
        &[0x7b, 0xe9, 0xfd, 0xa4, 0x8f, 0x41, 0x79, 0xe6]
    );
}

#[test]
fn query_option_builders_use_sane_defaults() {
    let info = QueryInfoOptions::file(0x12, 64 * 1024);
    assert_eq!(info.info_type, INFO_TYPE_FILE);
    assert_eq!(info.credit_request, 16);

    let directory = QueryDirectoryOptions::new(0x25, "*".to_string(), 64 * 1024);
    assert_eq!(directory.flags, QUERY_DIRECTORY_FLAG_NONE);
    assert_eq!(directory.file_name, "*");
    assert_eq!(directory.credit_request, 16);
}

#[test]
fn one_mib_read_costs_sixteen_credits() {
    assert_eq!(read_credit_charge(true, 1024 * 1024).unwrap(), 16);
}

#[test]
fn legacy_read_uses_zero_credit_charge() {
    assert_eq!(read_credit_charge(false, 64 * 1024).unwrap(), 0);
}

#[test]
fn zero_credit_window_cannot_schedule_payload() {
    assert_eq!(credit_limited_payload(true, 0), 0);
    assert_eq!(credit_limited_payload(false, 0), 0);
}

#[test]
fn one_multi_credit_unit_limits_payload_to_64k() {
    assert_eq!(credit_limited_payload(true, 1), 65_536);
}

#[test]
fn outstanding_table_rejects_duplicate_message_id() {
    let mut outstanding = OutstandingReads::with_capacity(2);
    let request = PendingRead {
        position: 0,
        chunk_len: 64 * 1024,
        async_state: AsyncReadState::default(),
    };
    outstanding.insert(7, request).unwrap();
    assert!(outstanding.insert(7, request).is_err());
    assert_eq!(outstanding.len(), 1);
}

#[test]
fn finishing_outstanding_request_removes_message_id() {
    let mut outstanding = OutstandingReads::with_capacity(1);
    outstanding
        .insert(
            11,
            PendingRead {
                position: 3,
                chunk_len: 128 * 1024,
                async_state: AsyncReadState::default(),
            },
        )
        .unwrap();
    let finished = outstanding.finish(11).unwrap();
    assert_eq!(finished.position, 3);
    assert!(outstanding.is_empty());
    assert!(outstanding.finish(11).is_err());
}

fn response(status: u32, id: HeaderId) -> Smb2Header {
    let mut header = Smb2Header::request(Command::Read, MESSAGE_ID, 0, 0);
    header.flags = FLAG_SERVER_TO_REDIR;
    if matches!(id, HeaderId::Async { .. }) {
        header.flags |= FLAG_ASYNC_COMMAND;
    }
    header.status = StatusField::Status(status);
    header.session_id = SESSION_ID;
    header.id = id;
    header
}

#[test]
fn sync_final_response_is_accepted() {
    let mut state = AsyncReadState::default();
    let header = response(
        0,
        HeaderId::Sync {
            process_id: 0,
            tree_id: TREE_ID,
        },
    );
    assert_eq!(
        state
            .validate(TREE_ID, SESSION_ID, MESSAGE_ID, &header)
            .unwrap(),
        ReadResponsePhase::Final
    );
    assert_eq!(state.async_id(), None);
}

#[test]
fn pending_then_matching_async_final_is_accepted() {
    let mut state = AsyncReadState::default();
    let pending = response(STATUS_PENDING, HeaderId::Async { async_id: 99 });
    assert_eq!(
        state
            .validate(TREE_ID, SESSION_ID, MESSAGE_ID, &pending)
            .unwrap(),
        ReadResponsePhase::InterimPending
    );
    assert_eq!(state.async_id(), Some(99));

    let final_response = response(0, HeaderId::Async { async_id: 99 });
    assert_eq!(
        state
            .validate(TREE_ID, SESSION_ID, MESSAGE_ID, &final_response)
            .unwrap(),
        ReadResponsePhase::Final
    );
}

#[test]
fn direct_async_final_is_accepted_and_records_async_id() {
    let mut state = AsyncReadState::default();
    let final_response = response(0, HeaderId::Async { async_id: 77 });
    assert_eq!(
        state
            .validate(TREE_ID, SESSION_ID, MESSAGE_ID, &final_response)
            .unwrap(),
        ReadResponsePhase::Final
    );
    assert_eq!(state.async_id(), Some(77));
}

#[test]
fn changed_async_id_is_rejected() {
    let mut state = AsyncReadState::default();
    let pending = response(STATUS_PENDING, HeaderId::Async { async_id: 7 });
    state
        .validate(TREE_ID, SESSION_ID, MESSAGE_ID, &pending)
        .unwrap();
    let final_response = response(0, HeaderId::Async { async_id: 8 });
    assert!(state
        .validate(TREE_ID, SESSION_ID, MESSAGE_ID, &final_response)
        .is_err());
}

#[test]
fn pending_with_sync_header_is_rejected() {
    let mut state = AsyncReadState::default();
    let pending = response(
        STATUS_PENDING,
        HeaderId::Sync {
            process_id: 0,
            tree_id: TREE_ID,
        },
    );
    assert!(state
        .validate(TREE_ID, SESSION_ID, MESSAGE_ID, &pending)
        .is_err());
}

#[test]
fn async_final_cannot_revert_to_sync() {
    let mut state = AsyncReadState::default();
    let pending = response(STATUS_PENDING, HeaderId::Async { async_id: 11 });
    state
        .validate(TREE_ID, SESSION_ID, MESSAGE_ID, &pending)
        .unwrap();
    let final_response = response(
        0,
        HeaderId::Sync {
            process_id: 0,
            tree_id: TREE_ID,
        },
    );
    assert!(state
        .validate(TREE_ID, SESSION_ID, MESSAGE_ID, &final_response)
        .is_err());
}

#[test]
fn unsigned_interim_is_allowed_but_final_still_requires_signing() {
    assert!(!ReadResponsePhase::InterimPending.requires_signature(true));
    assert!(ReadResponsePhase::Final.requires_signature(true));
    assert!(!ReadResponsePhase::Final.requires_signature(false));
}

#[test]
fn session_id_must_remain_stable_after_assignment() {
    assert!(validate_session_id(0, 7).is_ok());
    assert!(validate_session_id(7, 7).is_ok());
    assert!(validate_session_id(7, 8).is_err());
}

#[test]
fn smb300_kdf_matches_microsoft_vector() {
    let session_key = SecretBytes::new(
        [
            0x7c, 0xd4, 0x51, 0x82, 0x5d, 0x04, 0x50, 0xd2, 0x35, 0x42, 0x4e, 0x44, 0xba, 0x6e,
            0x78, 0xcc,
        ]
        .to_vec(),
    );
    let signing = SigningState::derive(
        Dialect::Smb300,
        SigningAlgorithm::AesCmac,
        &session_key,
        None,
    )
    .unwrap();
    assert_eq!(
        signing.key.expose(),
        &[
            0x0b, 0x7e, 0x9c, 0x5c, 0xac, 0x36, 0xc0, 0xf6, 0xea, 0x9a, 0xb2, 0x75, 0x29, 0x8c,
            0xed, 0xce,
        ]
    );
}

#[test]
fn hmac_sign_and_verify_roundtrip() {
    let key = SecretBytes::new(vec![0x11; 16]);
    let signing =
        SigningState::derive(Dialect::Smb210, SigningAlgorithm::HmacSha256, &key, None).unwrap();
    let mut message = Smb2Header::request(Command::Echo, 7, 0, 1).encode();
    message.extend_from_slice(&[4, 0, 0, 0]);
    signing.sign(&mut message).unwrap();
    assert_ne!(&message[48..64], &[0; 16]);
    signing.verify(&message).unwrap();
    message.push(0x99);
    assert!(signing.verify(&message).is_err());
}

#[test]
fn cmac_sign_and_verify_roundtrip() {
    let key = SecretBytes::new(vec![0x22; 16]);
    let signing =
        SigningState::derive(Dialect::Smb302, SigningAlgorithm::AesCmac, &key, None).unwrap();
    let mut message = Smb2Header::request(Command::Echo, 8, 0, 1).encode();
    message.extend_from_slice(&[4, 0, 0, 0]);
    signing.sign(&mut message).unwrap();
    signing.verify(&message).unwrap();
}

#[test]
fn signing_touches_only_the_flags_and_the_signature() {
    let key = SecretBytes::new(vec![0x33; 16]);
    let signing =
        SigningState::derive(Dialect::Smb302, SigningAlgorithm::AesCmac, &key, None).unwrap();
    let plain = {
        let mut message = Smb2Header::request(Command::Echo, 9, 0, 1).encode();
        message.extend_from_slice(&[4, 0, 0, 0]);
        message
    };
    let mut once = plain.clone();
    signing.sign(&mut once).unwrap();
    assert_eq!(&once[0..16], &plain[0..16]);
    assert_eq!(&once[20..48], &plain[20..48]);
    assert_eq!(&once[64..], &plain[64..]);
    let flags = u32::from_le_bytes([once[16], once[17], once[18], once[19]]);
    assert_eq!(flags & FLAG_SIGNED, FLAG_SIGNED);
    let mut twice = once.clone();
    signing.sign(&mut twice).unwrap();
    assert_eq!(twice, once);
    assert!(signing.verify(&plain).is_err());
    assert!(signing.sign(&mut vec![0u8; 10]).is_err());
}

#[test]
fn a_new_generation_is_another_one() {
    let mut token = ReadCancellationToken::new();
    let generation = token.generation();
    assert_eq!(token.advance(), generation + 1);
    assert!(!token.is_current(generation));
    let mut last = ReadCancellationToken { generation: u64::MAX };
    assert_eq!(last.advance(), 0);
}

#[test]
fn client_errors_say_what_failed() {
    let io = ClientError::Io(std::io::Error::new(
        std::io::ErrorKind::ConnectionReset,
        "reset by peer",
    ));
    assert_eq!(io.to_text(), "SMB transport I/O failed: reset by peer");
    assert_eq!(
        ClientError::Wire(WireError::TooLong("a direct-TCP payload")).to_text(),
        format!(
            "SMB wire error: {}",
            WireError::TooLong("a direct-TCP payload").to_text()
        )
    );
    assert_eq!(
        ClientError::Auth(AuthError::Failed("no")).to_text(),
        "SMB authentication error: authentication failed: no"
    );
    assert_eq!(
        ClientError::Timeout("TCP connect").to_text(),
        "SMB operation timed out during TCP connect"
    );
    assert_eq!(
        ClientError::ServerStatus(0xC000_0034).to_text(),
        "SMB server returned NTSTATUS 0xC0000034"
    );
    assert_eq!(
        ClientError::Protocol("bad frame").to_text(),
        "SMB protocol error: bad frame"
    );
    assert_eq!(ClientError::Cancelled.to_text(), "SMB operation cancelled");
    assert_eq!(
        ClientError::Capability("durable handles").to_text(),
        "SMB capability unavailable: durable handles"
    );
    assert!(matches!(
        ClientError::from(WireError::Invalid("x")),
        ClientError::Wire(WireError::Invalid("x"))
    ));
}

#[test]
fn default_transport_waits_and_sizes() {
    let config = TcpTransportConfig::default();
    assert_eq!(config.connect_timeout, Duration::from_secs(8));
    assert_eq!(config.io_timeout, Duration::from_secs(30));
    assert_eq!(config.max_message_size, DIRECT_TCP_MAX_PAYLOAD);
    assert!(config.tcp_nodelay);
    assert!(config.receive_buffer().is_ok());
    let zero = TcpTransportConfig {
        max_message_size: 0,
        ..config
    };
    assert!(zero.receive_buffer().is_err());
    let large = TcpTransportConfig {
        max_message_size: DIRECT_TCP_MAX_PAYLOAD + 1,
        ..config
    };
    assert!(large.receive_buffer().is_err());
}

#[test]
fn cancelled_receive_preserves_partial_direct_tcp_frame() {
    let payload = vec![0xFE, b'S', b'M', b'B', 1, 2, 3, 4, 5, 6, 7, 8, 9, 10];
    let frame = encode_direct_tcp_frame(&payload).unwrap();
    let split_at = 9;
    let mut buffer = TcpTransportConfig::default().receive_buffer().unwrap();

    assert!(buffer.accept_chunk(&frame[..split_at]));
    // A wait that is given up here leaves the part that has come.
    assert_eq!(buffer.try_take_message().unwrap(), None);
    assert_eq!(buffer.received.len(), split_at);

    assert!(buffer.accept_chunk(&frame[split_at..]));
    assert_eq!(buffer.try_take_message().unwrap(), Some(payload));
    assert!(buffer.received.is_empty());
}

#[test]
fn frames_that_come_together_are_taken_one_by_one() {
    let mut buffer = FrameBuffer {
        max_message_size: 1000,
        received: Vec::new(),
    };
    let mut stream = encode_direct_tcp_frame(&[1; 300]).unwrap();
    stream.extend(encode_direct_tcp_frame(&[]).unwrap());
    stream.extend(encode_direct_tcp_frame(&[2; 5]).unwrap());
    assert!(buffer.accept_chunk(&stream[..stream.len() - 1]));
    assert_eq!(buffer.try_take_message().unwrap(), Some(vec![1; 300]));
    assert_eq!(buffer.try_take_message().unwrap(), Some(Vec::new()));
    assert_eq!(buffer.try_take_message().unwrap(), None);
    assert!(buffer.accept_chunk(&stream[stream.len() - 1..]));
    assert_eq!(buffer.try_take_message().unwrap(), Some(vec![2; 5]));
    assert!(!buffer.accept_chunk(&[]));
}

#[test]
fn broken_and_oversized_frames_are_refused() {
    let mut buffer = FrameBuffer {
        max_message_size: 10,
        received: vec![1, 0, 0, 1, 0],
    };
    assert!(matches!(
        buffer.try_take_message(),
        Err(ClientError::Wire(_))
    ));
    buffer.received = vec![0, 0, 0, 11];
    assert!(matches!(
        buffer.try_take_message(),
        Err(ClientError::Protocol(_))
    ));
    assert!(buffer.frame_message(&[0; 11]).is_err());
    assert_eq!(
        buffer.frame_message(&[9, 9]).unwrap(),
        vec![0, 0, 0, 2, 9, 9]
    );
    let unbounded = FrameBuffer {
        max_message_size: usize::MAX,
        received: Vec::new(),
    };
    assert!(matches!(
        unbounded.frame_message(&vec![0; DIRECT_TCP_MAX_PAYLOAD + 1]),
        Err(ClientError::Wire(WireError::TooLong(_)))
    ));
}

#[test]
fn headers_are_read_back_as_they_were_written() {
    let mut header = response(STATUS_PENDING, HeaderId::Async { async_id: 0x0102_0304_0506 });
    header.credit_charge = 3;
    header.credits = 77;
    let encoded = header.encode();
    assert_eq!(encoded.len(), 64);
    assert_eq!(Smb2Header::decode(&encoded).unwrap(), header);
    assert!(matches!(
        Smb2Header::decode(&encoded[..63]),
        Err(WireError::Truncated(_))
    ));
    let mut wrong = encoded.clone();
    wrong[0] = 0xFD;
    assert!(matches!(
        Smb2Header::decode(&wrong),
        Err(WireError::Invalid(_))
    ));
}

#[test]
fn files_are_opened_for_reading_at_random() {
    let options = FileOpenOptions::read_existing_random();
    assert_eq!(options.desired_access, 0x8000_0000);
    assert_eq!(options.share_access, 7);
    assert_eq!(options.create_options, 0x840);
    assert_eq!(options.create_disposition, 1);
    assert_eq!(FileOpenOptions::default(), options);
}
