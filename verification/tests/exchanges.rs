use smb_io::auth::provider::AuthError;
use smb_io::auth::provider::AuthMechanism;
use smb_io::auth::provider::AuthProvider;
use smb_io::auth::provider::AuthState;
use smb_io::auth::provider::AuthStep;
use smb_io::auth::secret::SecretBytes;
use smb_io::client::close::CloseOptions;
use smb_io::client::connection::Connection;
use smb_io::client::error::ClientError;
use smb_io::client::file::FileHandle;
use smb_io::client::file::FileOpenOptions;
use smb_io::client::negotiate::NegotiateConfig;
use smb_io::client::negotiate::NegotiatedParameters;
use smb_io::client::preauth::PreauthIntegrityHash;
use smb_io::client::read::ReadOptions;
use smb_io::client::read::SerialStep;
use smb_io::client::session::SessionConnection;
use smb_io::client::session::SessionSetupConfig;
use smb_io::client::session::SetupStep;
use smb_io::client::session::STATUS_MORE_PROCESSING_REQUIRED;
use smb_io::client::session::STATUS_SUCCESS;
use smb_io::client::signing::SigningAlgorithm;
use smb_io::client::signing::SigningState;
use smb_io::client::tree::TreeConnectOptions;
use smb_io::client::tree::TreeHandle;
use smb_io::testkit::FixtureName;
use smb_io::testkit::ScriptedTransport;
use smb_io::wire::constants::CAPABILITY_LARGE_MTU;
use smb_io::wire::constants::CONTEXT_PREAUTH_INTEGRITY_CAPABILITIES;
use smb_io::wire::constants::CREATE_ACTION_OPENED;
use smb_io::wire::constants::FLAG_SERVER_TO_REDIR;
use smb_io::wire::constants::FLAG_SIGNED;
use smb_io::wire::constants::PREAUTH_HASH_SHA_512;
use smb_io::wire::constants::SECURITY_MODE_SIGNING_ENABLED;
use smb_io::wire::constants::SECURITY_MODE_SIGNING_REQUIRED;
use smb_io::wire::constants::SHARE_FLAG_NO_CACHING;
use smb_io::wire::constants::SHARE_TYPE_DISK;
use smb_io::wire::header::Command;
use smb_io::wire::header::HeaderId;
use smb_io::wire::header::Smb2Header;
use smb_io::wire::header::StatusField;
use smb_io::wire::header::SMB2_PROTOCOL_ID;
use smb_io::wire::negotiate::Dialect;
use smb_io::wire::tree::TreeConnectRequest;

const MIB: usize = 1024 * 1024;
const GIB: u64 = 1024 * 1024 * 1024;

fn put_u16(out: &mut [u8], offset: usize, value: u16) {
    out[offset..offset + 2].copy_from_slice(&value.to_le_bytes());
}

fn put_u32(out: &mut [u8], offset: usize, value: u32) {
    out[offset..offset + 4].copy_from_slice(&value.to_le_bytes());
}

fn put_u64(out: &mut [u8], offset: usize, value: u64) {
    out[offset..offset + 8].copy_from_slice(&value.to_le_bytes());
}

fn negotiate_response(
    dialect: Dialect,
    message_id: u64,
    with_preauth: bool,
    security_mode: u16,
) -> Vec<u8> {
    let mut message = vec![0u8; 128];
    message[0..4].copy_from_slice(&SMB2_PROTOCOL_ID);
    put_u16(&mut message, 4, 64);
    put_u16(&mut message, 12, 0); // NEGOTIATE
    put_u16(&mut message, 14, 32); // initial credits
    put_u32(&mut message, 16, 1); // SERVER_TO_REDIR
    put_u64(&mut message, 24, message_id);

    let body = 64;
    put_u16(&mut message, body, 65);
    put_u16(&mut message, body + 2, security_mode);
    put_u16(&mut message, body + 4, dialect.to_u16());
    message[body + 8..body + 24].copy_from_slice(&[0x42; 16]);
    put_u32(&mut message, body + 24, CAPABILITY_LARGE_MTU);
    put_u32(&mut message, body + 28, 1024 * 1024);
    put_u32(&mut message, body + 32, 4 * 1024 * 1024);
    put_u32(&mut message, body + 36, 4 * 1024 * 1024);

    if with_preauth {
        put_u16(&mut message, body + 6, 1);
        put_u32(&mut message, body + 60, 128);

        let salt = [0x5A; 32];
        let mut context = Vec::new();
        context.extend_from_slice(&CONTEXT_PREAUTH_INTEGRITY_CAPABILITIES.to_le_bytes());
        context.extend_from_slice(&38u16.to_le_bytes());
        context.extend_from_slice(&0u32.to_le_bytes());
        context.extend_from_slice(&1u16.to_le_bytes());
        context.extend_from_slice(&32u16.to_le_bytes());
        context.extend_from_slice(&PREAUTH_HASH_SHA_512.to_le_bytes());
        context.extend_from_slice(&salt);
        message.extend_from_slice(&context);
    }

    message
}

fn negotiate(
    connection: &mut Connection<ScriptedTransport>,
    config: &NegotiateConfig,
) -> Result<NegotiatedParameters, ClientError> {
    let (message, pending) = connection.begin_negotiate(config)?;
    connection.transport.send_message(&message);
    let response = connection.transport.receive_message()?;
    connection.finish_negotiate(config, pending, &response)
}

fn session_setup<P: AuthProvider>(
    connection: Connection<ScriptedTransport>,
    provider: &mut P,
    config: SessionSetupConfig,
) -> Result<SessionConnection<ScriptedTransport>, ClientError> {
    let (mut setup, mut message) = connection.begin_session_setup(provider, config)?;
    loop {
        setup.connection.transport.send_message(&message);
        let response = setup.connection.transport.receive_message()?;
        match setup.advance(provider, &response)? {
            SetupStep::Send(next, request) => {
                setup = next;
                message = request;
            }
            SetupStep::Done(session) => return Ok(session),
        }
    }
}

fn roundtrip(
    session: &mut SessionConnection<ScriptedTransport>,
    message: &[u8],
) -> Result<Vec<u8>, ClientError> {
    session.connection.transport.send_message(message);
    session.connection.transport.receive_message()
}

fn tree_connect(
    session: &mut SessionConnection<ScriptedTransport>,
    path: &str,
    options: TreeConnectOptions,
) -> Result<TreeHandle, ClientError> {
    let (message, pending) = session.begin_tree_connect(path, options)?;
    let response = roundtrip(session, &message)?;
    session.finish_tree_connect(pending, &response)
}

fn open_file(
    session: &mut SessionConnection<ScriptedTransport>,
    tree: &TreeHandle,
    path: &str,
    options: FileOpenOptions,
) -> Result<FileHandle, ClientError> {
    let (message, pending) = session.begin_open_file(tree, path, options)?;
    let response = roundtrip(session, &message)?;
    Ok(session.finish_open_file(pending, &response)?.file)
}

fn read_at(
    session: &mut SessionConnection<ScriptedTransport>,
    file: &FileHandle,
    offset: u64,
    length: usize,
) -> Result<Vec<u8>, ClientError> {
    let mut step = session.begin_read_at(file, offset, length, ReadOptions::default())?;
    loop {
        let read = match step {
            SerialStep::Send(read, message) => {
                session.connection.transport.send_message(&message);
                read
            }
            SerialStep::Receive(read) => read,
            SerialStep::Done(data) => return Ok(data),
        };
        let response = session.connection.transport.receive_message()?;
        step = session.continue_read_at(read, &response)?;
    }
}

#[test]
fn negotiates_smb302_and_records_exact_request() {
    let transport = ScriptedTransport::new(vec![negotiate_response(
        Dialect::Smb302,
        0,
        false,
        SECURITY_MODE_SIGNING_ENABLED,
    )]);
    let mut connection = Connection::new(transport);
    let config = NegotiateConfig {
        dialects: vec![Dialect::Smb210, Dialect::Smb302],
        security_mode: SECURITY_MODE_SIGNING_ENABLED,
        capabilities: CAPABILITY_LARGE_MTU,
        client_guid: [0x11; 16],
        preauth_salt: Vec::new(),
        signing_algorithms: Vec::new(),
        credit_request: 32,
    };

    let negotiated = negotiate(&mut connection, &config).unwrap();
    assert_eq!(negotiated.dialect, Dialect::Smb302);
    assert_eq!(negotiated.max_read_size, 4 * 1024 * 1024);
    assert_eq!(negotiated.initial_credits, 32);
    assert!(connection.preauth_hash().is_none());

    let transport = connection.into_transport();
    assert_eq!(transport.sent_messages().len(), 1);
    assert_eq!(&transport.sent_messages()[0][0..4], &SMB2_PROTOCOL_ID);
}

#[test]
fn smb311_keeps_negotiate_preauth_hash() {
    let transport = ScriptedTransport::new(vec![negotiate_response(
        Dialect::Smb311,
        0,
        true,
        SECURITY_MODE_SIGNING_ENABLED,
    )]);
    let mut connection = Connection::new(transport);
    let config = NegotiateConfig::modern([0x22; 16], vec![0x33; 32]);

    let negotiated = negotiate(&mut connection, &config).unwrap();
    assert_eq!(negotiated.dialect, Dialect::Smb311);
    assert_ne!(connection.preauth_hash().unwrap().current(), &[0; 64]);
}

#[test]
fn mismatched_message_id_is_rejected() {
    let transport = ScriptedTransport::new(vec![negotiate_response(
        Dialect::Smb302,
        77,
        false,
        SECURITY_MODE_SIGNING_ENABLED,
    )]);
    let mut connection = Connection::new(transport);
    let config = NegotiateConfig {
        dialects: vec![Dialect::Smb302],
        security_mode: SECURITY_MODE_SIGNING_ENABLED,
        capabilities: CAPABILITY_LARGE_MTU,
        client_guid: [0x44; 16],
        preauth_salt: Vec::new(),
        signing_algorithms: Vec::new(),
        credit_request: 8,
    };

    assert!(negotiate(&mut connection, &config).is_err());
}

#[test]
fn a_connection_is_negotiated_once() {
    let transport = ScriptedTransport::new(vec![negotiate_response(
        Dialect::Smb302,
        0,
        false,
        SECURITY_MODE_SIGNING_ENABLED,
    )]);
    let mut connection = Connection::new(transport);
    let config = NegotiateConfig::modern([0x22; 16], vec![0x33; 32]);
    negotiate(&mut connection, &config).unwrap();
    assert!(matches!(
        negotiate(&mut connection, &config),
        Err(ClientError::Protocol("SMB connection is already negotiated"))
    ));
}

#[test]
fn an_empty_script_has_no_answer() {
    let mut transport = ScriptedTransport::new(Vec::new());
    assert_eq!(transport.remaining_messages(), 0);
    assert!(matches!(
        transport.receive_message(),
        Err(ClientError::Protocol("scripted transport has no queued response"))
    ));
    assert_eq!(ScriptedTransport::default().remaining_messages(), 0);
    let mut transport = ScriptedTransport::new(vec![vec![1], vec![2], vec![3]]);
    assert_eq!(transport.remaining_messages(), 3);
    assert_eq!(transport.receive_message().unwrap(), vec![1]);
    assert_eq!(transport.receive_message().unwrap(), vec![2]);
    transport.send_message(&[9]);
    assert_eq!(transport.receive_message().unwrap(), vec![3]);
    assert_eq!(transport.sent_messages(), &[vec![9]]);
    assert_eq!(FixtureName("negotiate").0, "negotiate");
}

struct FakeNtlm {
    key: Option<SecretBytes>,
}

impl FakeNtlm {
    fn new() -> Self {
        Self { key: None }
    }
}

impl AuthProvider for FakeNtlm {
    fn mechanism(&self) -> AuthMechanism {
        AuthMechanism::NtlmV2
    }

    fn initial_token(&mut self) -> Result<AuthStep, AuthError> {
        Ok(AuthStep {
            token: b"negotiate-token".to_vec(),
            state: AuthState::Continue,
        })
    }

    fn next_token(&mut self, server_token: &[u8]) -> Result<AuthStep, AuthError> {
        if server_token != b"challenge-token" {
            return Err(AuthError::InvalidToken("unexpected fake challenge"));
        }
        self.key = Some(SecretBytes::new(vec![0xA5; 16]));
        Ok(AuthStep {
            token: b"authenticate-token".to_vec(),
            state: AuthState::Complete,
        })
    }

    fn take_session_key(&mut self) -> Option<SecretBytes> {
        self.key.take()
    }
}

fn session_response(
    message_id: u64,
    session_id: u64,
    status: u32,
    session_flags: u16,
    security_blob: &[u8],
) -> Vec<u8> {
    let mut header = Smb2Header::request(Command::SessionSetup, message_id, 0, 16);
    header.flags = FLAG_SERVER_TO_REDIR;
    header.status = StatusField::Status(status);
    header.session_id = session_id;
    let mut message = header.encode();

    let mut body = vec![0u8; 8];
    put_u16(&mut body, 0, 9);
    put_u16(&mut body, 2, session_flags);
    if !security_blob.is_empty() {
        put_u16(&mut body, 4, 72);
        put_u16(&mut body, 6, security_blob.len() as u16);
    }
    message.extend_from_slice(&body);
    message.extend_from_slice(security_blob);
    message
}

#[test]
fn a_token_exchange_of_two_rounds_ends_in_a_signed_session() {
    let session_id = 0x1122_3344_5566_7788;
    let challenge = session_response(
        1,
        session_id,
        STATUS_MORE_PROCESSING_REQUIRED,
        0,
        b"challenge-token",
    );
    let transport = ScriptedTransport::new(vec![
        negotiate_response(Dialect::Smb311, 0, true, SECURITY_MODE_SIGNING_ENABLED),
        challenge.clone(),
    ]);

    let mut connection = Connection::new(transport);
    negotiate(
        &mut connection,
        &NegotiateConfig::modern([0x11; 16], vec![0x22; 32]),
    )
    .unwrap();
    let negotiate_hash: PreauthIntegrityHash = connection.preauth_hash().unwrap().clone();

    let mut auth = FakeNtlm::new();
    let (mut setup, first) = connection
        .begin_session_setup(&mut auth, SessionSetupConfig::default())
        .unwrap();
    setup.connection.transport.send_message(&first);
    let response = setup.connection.transport.receive_message().unwrap();
    let (mut setup, second) = match setup.advance(&mut auth, &response).unwrap() {
        SetupStep::Send(setup, message) => (setup, message),
        SetupStep::Done(_) => panic!("the exchange has another round"),
    };
    setup.connection.transport.send_message(&second);

    // The server signs its last response with the key of everything before it.
    let mut hash = negotiate_hash.clone();
    hash.update(&first);
    hash.update(&challenge);
    hash.update(&second);
    let signing = SigningState::derive(
        Dialect::Smb311,
        SigningAlgorithm::AesCmac,
        &SecretBytes::new(vec![0xA5; 16]),
        Some(&hash),
    )
    .unwrap();
    let mut last = session_response(2, session_id, STATUS_SUCCESS, 0, &[]);
    signing.sign(&mut last).unwrap();
    let session = match setup.advance(&mut auth, &last).unwrap() {
        SetupStep::Done(session) => session,
        SetupStep::Send(..) => panic!("the exchange is over"),
    };

    assert_eq!(session.session_id(), session_id);
    assert_eq!(session.mechanism(), AuthMechanism::NtlmV2);
    assert!(session.has_session_key());
    assert_ne!(session.preauth_hash().unwrap(), &negotiate_hash);
    assert_eq!(session.preauth_hash().unwrap(), &hash);

    let transport = session.into_connection().into_transport();
    assert_eq!(transport.sent_messages().len(), 3);

    let first_setup = Smb2Header::decode(&transport.sent_messages()[1]).unwrap();
    let second_setup = Smb2Header::decode(&transport.sent_messages()[2]).unwrap();
    assert_eq!(first_setup.message_id, 1);
    assert_eq!(first_setup.session_id, 0);
    assert_eq!(second_setup.message_id, 2);
    assert_eq!(second_setup.session_id, session_id);
}

#[test]
fn multi_round_session_setup_reuses_server_session_id_and_extends_preauth_hash() {
    let session_id = 0x1122_3344_5566_7788;
    let transport = ScriptedTransport::new(vec![
        negotiate_response(Dialect::Smb311, 0, true, SECURITY_MODE_SIGNING_ENABLED),
        session_response(
            1,
            session_id,
            STATUS_MORE_PROCESSING_REQUIRED,
            0,
            b"challenge-token",
        ),
        session_response(2, session_id, STATUS_SUCCESS, 0, &[]),
    ]);

    let mut connection = Connection::new(transport);
    negotiate(
        &mut connection,
        &NegotiateConfig::modern([0x11; 16], vec![0x22; 32]),
    )
    .unwrap();
    let negotiate_hash = connection.preauth_hash().unwrap().clone();

    let mut auth = FakeNtlm::new();
    let session = session_setup(connection, &mut auth, SessionSetupConfig::default()).unwrap();

    assert_eq!(session.session_id(), session_id);
    assert_eq!(session.mechanism(), AuthMechanism::NtlmV2);
    assert!(session.has_session_key());
    assert_ne!(session.preauth_hash().unwrap(), &negotiate_hash);

    let transport = session.into_connection().into_transport();
    assert_eq!(transport.sent_messages().len(), 3);

    let first_setup = Smb2Header::decode(&transport.sent_messages()[1]).unwrap();
    let second_setup = Smb2Header::decode(&transport.sent_messages()[2]).unwrap();
    assert_eq!(first_setup.message_id, 1);
    assert_eq!(first_setup.session_id, 0);
    assert_eq!(second_setup.message_id, 2);
    assert_eq!(second_setup.session_id, session_id);
}

#[test]
fn an_unsigned_last_response_is_refused_where_the_session_must_sign() {
    let transport = ScriptedTransport::new(vec![
        negotiate_response(Dialect::Smb311, 0, true, SECURITY_MODE_SIGNING_REQUIRED),
        session_response(1, 7, STATUS_MORE_PROCESSING_REQUIRED, 0, b"challenge-token"),
        session_response(2, 7, STATUS_SUCCESS, 0, &[]),
    ]);
    let mut connection = Connection::new(transport);
    negotiate(
        &mut connection,
        &NegotiateConfig::modern([0x33; 16], vec![0x44; 32]),
    )
    .unwrap();
    assert!(matches!(
        session_setup(
            connection,
            &mut FakeNtlm::new(),
            SessionSetupConfig::default()
        ),
        Err(ClientError::Protocol(
            "server omitted a required SESSION_SETUP signature"
        ))
    ));
}

#[test]
fn what_the_provider_refuses_ends_the_exchange() {
    let transport = ScriptedTransport::new(vec![
        negotiate_response(Dialect::Smb311, 0, true, SECURITY_MODE_SIGNING_ENABLED),
        session_response(1, 7, STATUS_MORE_PROCESSING_REQUIRED, 0, b"another-token"),
    ]);
    let mut connection = Connection::new(transport);
    negotiate(
        &mut connection,
        &NegotiateConfig::modern([0x33; 16], vec![0x44; 32]),
    )
    .unwrap();
    assert!(matches!(
        session_setup(
            connection,
            &mut FakeNtlm::new(),
            SessionSetupConfig::default()
        ),
        Err(ClientError::Auth(AuthError::InvalidToken(
            "unexpected fake challenge"
        )))
    ));
}

#[test]
fn a_guest_session_has_no_key_and_owes_no_signature() {
    let transport = ScriptedTransport::new(vec![
        negotiate_response(Dialect::Smb311, 0, true, SECURITY_MODE_SIGNING_ENABLED),
        session_response(1, 7, STATUS_MORE_PROCESSING_REQUIRED, 0, b"challenge-token"),
        session_response(2, 7, STATUS_SUCCESS, 1, &[]),
    ]);
    let mut connection = Connection::new(transport);
    negotiate(
        &mut connection,
        &NegotiateConfig::modern([0x33; 16], vec![0x44; 32]),
    )
    .unwrap();
    let session = session_setup(
        connection,
        &mut FakeNtlm::new(),
        SessionSetupConfig::default(),
    )
    .unwrap();
    assert!(!session.has_session_key());
    assert!(!session.signing_required());
    assert_eq!(session.session_flags(), 1);
}

#[test]
fn server_cannot_change_session_id_mid_exchange() {
    let transport = ScriptedTransport::new(vec![
        negotiate_response(Dialect::Smb311, 0, true, SECURITY_MODE_SIGNING_ENABLED),
        session_response(
            1,
            0xAA,
            STATUS_MORE_PROCESSING_REQUIRED,
            0,
            b"challenge-token",
        ),
        session_response(2, 0xBB, STATUS_SUCCESS, 0, &[]),
    ]);

    let mut connection = Connection::new(transport);
    negotiate(
        &mut connection,
        &NegotiateConfig::modern([0x33; 16], vec![0x44; 32]),
    )
    .unwrap();

    let mut auth = FakeNtlm::new();
    assert!(matches!(
        session_setup(connection, &mut auth, SessionSetupConfig::default()),
        Err(ClientError::Protocol(
            "server changed SessionId during SESSION_SETUP"
        ))
    ));
}

struct StaticAuth {
    key: Option<SecretBytes>,
}

impl StaticAuth {
    fn new(key: [u8; 16]) -> Self {
        Self {
            key: Some(SecretBytes::new(key.to_vec())),
        }
    }
}

impl AuthProvider for StaticAuth {
    fn mechanism(&self) -> AuthMechanism {
        AuthMechanism::NtlmV2
    }

    fn initial_token(&mut self) -> Result<AuthStep, AuthError> {
        Ok(AuthStep {
            token: b"static-auth".to_vec(),
            state: AuthState::Complete,
        })
    }

    fn next_token(&mut self, _server_token: &[u8]) -> Result<AuthStep, AuthError> {
        Ok(AuthStep {
            token: Vec::new(),
            state: AuthState::Complete,
        })
    }

    fn take_session_key(&mut self) -> Option<SecretBytes> {
        self.key.take()
    }
}

fn signed_response(
    command: Command,
    message_id: u64,
    charge: u16,
    credits: u16,
    session_id: u64,
    tree_id: u32,
    body: &[u8],
    signing: &SigningState,
) -> Vec<u8> {
    let mut header = Smb2Header::request(command, message_id, charge, credits);
    header.flags = FLAG_SERVER_TO_REDIR;
    header.status = StatusField::Status(0);
    header.session_id = session_id;
    header.id = HeaderId::Sync {
        process_id: 0,
        tree_id,
    };
    let mut message = header.encode();
    message.extend_from_slice(body);
    signing.sign(&mut message).unwrap();
    message
}

fn tree_body() -> Vec<u8> {
    let mut body = vec![0u8; 16];
    put_u16(&mut body, 0, 16);
    body[2] = SHARE_TYPE_DISK;
    put_u32(&mut body, 4, SHARE_FLAG_NO_CACHING);
    put_u32(&mut body, 8, 0);
    put_u32(&mut body, 12, 0x001f_01ff);
    body
}

fn create_body() -> Vec<u8> {
    let mut body = vec![0u8; 88];
    put_u16(&mut body, 0, 89);
    put_u32(&mut body, 4, CREATE_ACTION_OPENED);
    put_u64(&mut body, 40, 6 * GIB + MIB as u64);
    put_u64(&mut body, 48, 6 * GIB);
    put_u32(&mut body, 56, 0x20);
    put_u64(&mut body, 64, 0x1111_2222_3333_4444);
    put_u64(&mut body, 72, 0x5555_6666_7777_8888);
    body
}

fn read_body(data: &[u8]) -> Vec<u8> {
    let mut body = vec![0u8; 16];
    put_u16(&mut body, 0, 17);
    body[2] = 0x50;
    put_u32(&mut body, 4, data.len() as u32);
    body.extend_from_slice(data);
    body
}

#[test]
fn authenticated_session_reads_one_mib_above_four_gib_with_signing() {
    let session_key = [0xA5; 16];
    let session_id = 0x1122_3344_5566_7788;
    let tree_id = 0x42;
    let read_offset = 4 * GIB + 12_345;
    let signing = SigningState::derive(
        Dialect::Smb302,
        SigningAlgorithm::AesCmac,
        &SecretBytes::new(session_key.to_vec()),
        None,
    )
    .unwrap();

    let mut setup = session_response(1, session_id, 0, 0, &[]);
    signing.sign(&mut setup).unwrap();
    let mut close_body = vec![0u8; 60];
    put_u16(&mut close_body, 0, 60);
    let transport = ScriptedTransport::new(vec![
        negotiate_response(
            Dialect::Smb302,
            0,
            false,
            SECURITY_MODE_SIGNING_ENABLED | SECURITY_MODE_SIGNING_REQUIRED,
        ),
        setup,
        signed_response(
            Command::TreeConnect,
            2,
            0,
            16,
            session_id,
            tree_id,
            &tree_body(),
            &signing,
        ),
        signed_response(
            Command::Create,
            3,
            0,
            16,
            session_id,
            tree_id,
            &create_body(),
            &signing,
        ),
        signed_response(
            Command::Read,
            4,
            16,
            32,
            session_id,
            tree_id,
            &read_body(&vec![0xA7; MIB]),
            &signing,
        ),
        signed_response(
            Command::Close,
            20,
            1,
            8,
            session_id,
            tree_id,
            &close_body,
            &signing,
        ),
    ]);
    let mut connection = Connection::new(transport);
    let config = NegotiateConfig {
        dialects: vec![Dialect::Smb302],
        security_mode: SECURITY_MODE_SIGNING_REQUIRED,
        capabilities: CAPABILITY_LARGE_MTU,
        client_guid: [0x11; 16],
        preauth_salt: Vec::new(),
        signing_algorithms: Vec::new(),
        credit_request: 32,
    };
    negotiate(&mut connection, &config).unwrap();

    let mut auth = StaticAuth::new(session_key);
    let mut session = session_setup(connection, &mut auth, SessionSetupConfig::default()).unwrap();
    assert!(session.signing_required());
    assert_eq!(session.signing_algorithm(), Some(SigningAlgorithm::AesCmac));

    let tree = tree_connect(
        &mut session,
        "\\\\nas\\video",
        TreeConnectOptions::default(),
    )
    .unwrap();
    assert_eq!(tree.tree_id(), tree_id);
    assert_eq!(tree.path(), "\\\\nas\\video");
    assert_eq!(tree.share_type(), SHARE_TYPE_DISK);
    assert_eq!(tree.share_flags(), SHARE_FLAG_NO_CACHING);
    assert_eq!(tree.maximal_access(), 0x001f_01ff);

    let file = open_file(
        &mut session,
        &tree,
        "movies/sample.mkv",
        FileOpenOptions::read_existing_random(),
    )
    .unwrap();
    assert_eq!(file.tree_id(), tree_id);
    assert_eq!(file.path(), "movies\\sample.mkv");
    assert_eq!(file.len(), 6 * GIB);
    assert_eq!(file.allocation_size(), 6 * GIB + MIB as u64);
    assert_eq!(file.file_id().persistent, 0x1111_2222_3333_4444);
    assert_eq!(file.file_id().volatile, 0x5555_6666_7777_8888);

    let data = read_at(&mut session, &file, read_offset, MIB).unwrap();
    assert_eq!(data.len(), MIB);
    assert!(data.iter().all(|byte| *byte == 0xA7));
    // Nothing is sent for what lies behind the end.
    assert!(read_at(&mut session, &file, 6 * GIB, 1).unwrap().is_empty());

    let (message, pending) = session
        .begin_close_file(file, CloseOptions::default())
        .unwrap();
    let response = roundtrip(&mut session, &message).unwrap();
    let info = session.finish_close_file(pending, &response).unwrap();
    assert!(!info.has_postquery_attributes);

    let transport = session.into_connection().into_transport();
    assert_eq!(transport.sent_messages().len(), 6);

    let tree_request_message = &transport.sent_messages()[2];
    let tree_header = Smb2Header::decode(tree_request_message).unwrap();
    assert_eq!(tree_header.command, Command::TreeConnect);
    assert_eq!(tree_header.credit_charge, 1);
    assert_eq!(tree_header.session_id, session_id);
    assert_ne!(tree_header.flags & FLAG_SIGNED, 0);
    let request = TreeConnectRequest::decode_message(tree_request_message).unwrap();
    assert_eq!(request.path, "\\\\nas\\video");

    let create_header = Smb2Header::decode(&transport.sent_messages()[3]).unwrap();
    assert_eq!(create_header.command, Command::Create);
    assert_eq!(create_header.credit_charge, 1);
    assert_eq!(create_header.session_id, session_id);
    assert_ne!(create_header.flags & FLAG_SIGNED, 0);

    let read_request = &transport.sent_messages()[4];
    let read_header = Smb2Header::decode(read_request).unwrap();
    assert_eq!(read_header.command, Command::Read);
    assert_eq!(read_header.message_id, 4);
    assert_eq!(read_header.credit_charge, 16);
    assert_eq!(read_header.session_id, session_id);
    assert_ne!(read_header.flags & FLAG_SIGNED, 0);

    let body = &read_request[64..];
    assert_eq!(body[2], 0x50);
    assert_eq!(
        u32::from_le_bytes(body[4..8].try_into().unwrap()),
        MIB as u32
    );
    assert_eq!(
        u64::from_le_bytes(body[8..16].try_into().unwrap()),
        read_offset
    );
    assert_eq!(
        u64::from_le_bytes(body[16..24].try_into().unwrap()),
        0x1111_2222_3333_4444
    );
    assert_eq!(
        u64::from_le_bytes(body[24..32].try_into().unwrap()),
        0x5555_6666_7777_8888
    );
}
