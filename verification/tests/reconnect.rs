use smb_io::android::reconnect::is_retryable_stream_error;
use smb_io::android::reconnect::ReconnectRecipe;
use smb_io::client::durable_open::DurableFileHandle;
use smb_io::client::error::ClientError;
use smb_io::client::file::FileHandle;
use smb_io::client::file::FileOpenOptions;
use smb_io::client::reconnect::drawn_guid;
use smb_io::client::reconnect::is_retryable_client_error;
use smb_io::client::reconnect::random_guid;
use smb_io::client::reconnect::unc_share;
use smb_io::client::reconnect::ConnectStage;
use smb_io::client::reconnect::ConnectStep;
use smb_io::client::reconnect::FileIdentity;
use smb_io::client::reconnect::ReadOnlyReconnectRecipe;
use smb_io::client::reconnect::ReconnectError;
use smb_io::client::reconnect::RestoreStep;
use smb_io::client::reconnect::STATUS_NETWORK_NAME_DELETED;
use smb_io::client::reconnect::STATUS_NETWORK_SESSION_EXPIRED;
use smb_io::client::reconnect::STATUS_OBJECT_NAME_NOT_FOUND;
use smb_io::client::reconnect::STATUS_USER_SESSION_DELETED;
use smb_io::client::recovering_read::is_retryable_reconnect_error;
use smb_io::client::recovering_read::map_client_error;
use smb_io::client::recovering_read::ReadReconnectPolicy;
use smb_io::client::recovering_read::ReadRecovery;
use smb_io::client::recovering_read::RecoveryStep;
use smb_io::stream::video::StreamError;
use smb_io::wire::file_io::FileId;
use std::io;
use std::time::Duration;

fn recipe() -> ReadOnlyReconnectRecipe {
    ReadOnlyReconnectRecipe::new(
        "nas.local".to_string(),
        445,
        "video".to_string(),
        "movie.mkv".to_string(),
        "user".to_string(),
        "password".to_string(),
        String::new(),
        String::new(),
    )
}

fn file(len: u64, creation_time: u64, last_write_time: u64) -> FileHandle {
    FileHandle {
        file_id: FileId {
            persistent: 1,
            volatile: 2,
        },
        tree_id: 3,
        path: "movie.mkv".to_string(),
        oplock_level: 0,
        allocation_size: len,
        end_of_file: len,
        file_attributes: 0x20,
        creation_time,
        last_access_time: 0,
        last_write_time,
        change_time: 0,
        create_action: 1,
    }
}

fn durable(file: FileHandle) -> DurableFileHandle {
    DurableFileHandle {
        file,
        create_guid: [7; 16],
        open_options: FileOpenOptions::read_existing_random(),
        server_timeout_ms: 60_000,
        server_flags: 0,
    }
}

fn lost() -> ClientError {
    ClientError::Io(io::Error::new(io::ErrorKind::ConnectionReset, "reset"))
}

#[test]
fn reconnect_transport_and_session_lifetime_failures_are_retryable() {
    assert!(is_retryable_client_error(&ClientError::Io(io::Error::new(
        io::ErrorKind::ConnectionReset,
        "reset",
    ))));
    assert!(is_retryable_client_error(&ClientError::Timeout("read")));
    assert!(is_retryable_client_error(&ClientError::ServerStatus(
        STATUS_NETWORK_SESSION_EXPIRED,
    )));
    assert!(is_retryable_client_error(&ClientError::ServerStatus(
        STATUS_USER_SESSION_DELETED,
    )));
    assert!(is_retryable_client_error(&ClientError::ServerStatus(
        STATUS_NETWORK_NAME_DELETED,
    )));
}

#[test]
fn security_and_protocol_failures_are_never_retried() {
    assert!(!is_retryable_client_error(&ClientError::Protocol(
        "bad frame"
    )));
    assert!(!is_retryable_client_error(&ClientError::Cancelled));
    assert!(!is_retryable_client_error(&ClientError::ServerStatus(
        0xC000_0022,
    )));
}

#[test]
fn security_protocol_and_capability_failures_are_never_retried_as_transport() {
    assert!(!is_retryable_client_error(&ClientError::Protocol(
        "bad frame"
    )));
    assert!(!is_retryable_client_error(&ClientError::Capability(
        "optional feature unavailable"
    )));
    assert!(!is_retryable_client_error(&ClientError::Cancelled));
    assert!(!is_retryable_client_error(&ClientError::ServerStatus(
        0xC000_0022,
    )));
}

#[test]
fn durable_v2_recovery_is_explicitly_opt_in() {
    assert!(!recipe().durable_v2_enabled());
    assert!(recipe().with_durable_v2(true).durable_v2_enabled());
}

#[test]
fn reconnect_reconnect_identity_accepts_the_same_static_file() {
    let original = FileIdentity {
        len: 4_500_000_000,
        creation_time: 100,
        last_write_time: 200,
    };
    assert!(original.is_compatible_with(original));
}

#[test]
fn reconnect_reconnect_identity_rejects_replacement_or_mutation() {
    let original = FileIdentity {
        len: 1_000,
        creation_time: 100,
        last_write_time: 200,
    };
    assert!(!original.is_compatible_with(FileIdentity {
        len: 999,
        ..original
    }));
    assert!(!original.is_compatible_with(FileIdentity {
        creation_time: 101,
        ..original
    }));
    assert!(!original.is_compatible_with(FileIdentity {
        last_write_time: 201,
        ..original
    }));
}

#[test]
fn reconnect_reconnect_identity_treats_zero_timestamps_as_unknown() {
    let original = FileIdentity {
        len: 1_000,
        creation_time: 0,
        last_write_time: 200,
    };
    let reopened = FileIdentity {
        len: 1_000,
        creation_time: 123,
        last_write_time: 0,
    };
    assert!(original.is_compatible_with(reopened));
}

#[test]
fn default_policy_keeps_single_connect_attempt() {
    assert_eq!(
        ReadReconnectPolicy::default(),
        ReadReconnectPolicy {
            max_connect_attempts: 1,
            backoff: Duration::ZERO,
        }
    );
}

#[test]
fn only_retryable_client_failures_repeat_the_connect_handshake() {
    assert!(is_retryable_reconnect_error(&ReconnectError::Client(
        ClientError::Io(io::Error::new(io::ErrorKind::ConnectionRefused, "offline")),
    )));
    assert!(!is_retryable_reconnect_error(&ReconnectError::Client(
        ClientError::Protocol("bad frame"),
    )));
    assert!(!is_retryable_reconnect_error(&ReconnectError::Cancelled));
    assert!(!is_retryable_reconnect_error(&ReconnectError::RandomSource));
}

#[test]
fn cancelled_client_error_maps_to_reconnect_cancellation() {
    assert!(matches!(
        map_client_error(ClientError::Cancelled),
        ReconnectError::Cancelled
    ));
    assert!(matches!(
        map_client_error(ClientError::Timeout("read")),
        ReconnectError::Client(ClientError::Timeout("read"))
    ));
}

#[test]
fn reconnect_backoff_is_cancelled_by_generation_change() {
    let recovery = ReadRecovery {
        policy: ReadReconnectPolicy {
            max_connect_attempts: 3,
            backoff: Duration::from_secs(30),
        },
        attempts: 1,
        replaying: false,
    };
    let waiting = match recovery.on_connect(Err(ReconnectError::Client(lost())), true) {
        RecoveryStep::Backoff(next) => next,
        other => panic!("expected a backoff, got {other:?}"),
    };
    assert!(matches!(
        waiting.on_backoff_over(false),
        RecoveryStep::Fail(ReconnectError::Cancelled)
    ));
    assert!(matches!(
        waiting.on_backoff_over(true),
        RecoveryStep::Connect(ReadRecovery { attempts: 2, .. })
    ));
}

#[test]
fn a_lost_connection_is_restored_and_the_read_replayed_once() {
    let policy = ReadReconnectPolicy {
        max_connect_attempts: 2,
        backoff: Duration::ZERO,
    };
    let recovery = match ReadRecovery::begin(policy, true) {
        RecoveryStep::Read(recovery) => recovery,
        other => panic!("expected a read, got {other:?}"),
    };
    let recovery = match recovery.on_read(Err(lost()), true) {
        RecoveryStep::Connect(recovery) => recovery,
        other => panic!("expected a connect, got {other:?}"),
    };
    let recovery = match recovery.on_connect(Err(ReconnectError::Client(lost())), true) {
        RecoveryStep::Connect(recovery) => recovery,
        other => panic!("expected another connect, got {other:?}"),
    };
    assert_eq!(recovery.attempts, 2);
    assert!(matches!(
        recovery.on_connect(Err(ReconnectError::Client(lost())), true),
        RecoveryStep::Fail(ReconnectError::Client(ClientError::Io(_)))
    ));
    let replay = match recovery.on_connect(Ok(()), true) {
        RecoveryStep::Read(recovery) => recovery,
        other => panic!("expected the replay, got {other:?}"),
    };
    assert!(matches!(
        replay.on_read(Err(lost()), true),
        RecoveryStep::Fail(ReconnectError::Client(ClientError::Io(_)))
    ));
    assert!(matches!(
        replay.on_read(Ok(vec![1]), true),
        RecoveryStep::Done(data) if data == vec![1]
    ));
}

#[test]
fn reads_are_not_recovered_without_attempts_or_after_a_cancellation() {
    let none = ReadReconnectPolicy {
        max_connect_attempts: 0,
        backoff: Duration::ZERO,
    };
    assert!(matches!(
        ReadRecovery::begin(none, false),
        RecoveryStep::Fail(ReconnectError::Cancelled)
    ));
    let recovery = ReadRecovery {
        policy: none,
        attempts: 0,
        replaying: false,
    };
    assert!(matches!(
        recovery.on_read(Err(lost()), true),
        RecoveryStep::Fail(ReconnectError::Client(ClientError::Io(_)))
    ));
    let recovery = ReadRecovery {
        policy: ReadReconnectPolicy::default(),
        ..recovery
    };
    assert!(matches!(
        recovery.on_read(Err(ClientError::Cancelled), true),
        RecoveryStep::Fail(ReconnectError::Cancelled)
    ));
    assert!(matches!(
        recovery.on_read(Err(lost()), false),
        RecoveryStep::Fail(ReconnectError::Cancelled)
    ));
    assert!(matches!(
        recovery.on_read(Err(ClientError::Protocol("bad")), true),
        RecoveryStep::Fail(ReconnectError::Client(ClientError::Protocol("bad")))
    ));
}

#[test]
fn stages_of_a_connection_follow_one_another() {
    let mut recipe = recipe();
    let config = recipe.negotiate_config().unwrap();
    assert_eq!(config.preauth_salt.len(), 32);
    // The GUID of a recipe stays, the salt is fresh.
    let again = recipe.negotiate_config().unwrap();
    assert_eq!(again.client_guid, config.client_guid);
    assert_ne!(again.preauth_salt, config.preauth_salt);

    assert!(matches!(
        recipe.on_stage(ConnectStage::Transport, Ok(()), None),
        ConnectStep::Negotiate
    ));
    match recipe.on_stage(ConnectStage::Negotiate, Ok(()), None) {
        ConnectStep::SetUpSession(Some(credentials)) => {
            assert_eq!(credentials.username(), "user");
            assert_eq!(credentials.password.expose(), "password");
            assert_eq!(credentials.domain(), "");
        }
        _ => panic!("expected credentials"),
    }
    match recipe.on_stage(ConnectStage::Session, Ok(()), None) {
        ConnectStep::ConnectTree(path) => assert_eq!(path, "\\\\nas.local\\video"),
        _ => panic!("expected a tree"),
    }
    assert!(matches!(
        recipe.on_stage(ConnectStage::Tree, Ok(()), None),
        ConnectStep::Restore(RestoreStep::OpenPath)
    ));
    assert!(matches!(
        recipe.on_stage(ConnectStage::Session, Err(lost()), None),
        ConnectStep::Fail(ReconnectError::Client(ClientError::Io(_)))
    ));
    recipe.username = String::new();
    assert!(matches!(
        recipe.on_stage(ConnectStage::Negotiate, Ok(()), None),
        ConnectStep::SetUpSession(None)
    ));
    assert_eq!(unc_share("h", "s"), "\\\\h\\s");
    assert_ne!(random_guid().unwrap(), random_guid().unwrap());
}

#[test]
fn a_durable_open_is_tried_before_the_path() {
    let mut recipe = recipe().with_durable_v2(true);
    let guid = [9u8; 16];
    assert!(matches!(
        recipe.first_step(Some(guid)),
        RestoreStep::OpenDurable(drawn) if drawn == guid
    ));
    assert!(matches!(
        recipe.first_step(None),
        RestoreStep::Fail(ReconnectError::RandomSource)
    ));
    assert!(matches!(
        recipe.on_durable_open(Ok(durable(file(100, 5, 6)))),
        RestoreStep::Done(_)
    ));
    assert!(matches!(
        recipe.first_step(Some(guid)),
        RestoreStep::ReconnectDurable
    ));
    assert_eq!(recipe.durable_handle().unwrap().server_timeout_ms(), 60_000);

    // Another failure keeps the durable open and ends the attempt.
    assert!(matches!(
        recipe.on_durable_reconnect(Err(ClientError::Protocol("bad")), Some(guid)),
        RestoreStep::Fail(ReconnectError::Client(ClientError::Protocol("bad")))
    ));
    assert!(recipe.durable_handle().is_some());
    // A file that has changed is closed, and its durable open forgotten.
    match recipe.on_durable_reconnect(Ok(durable(file(101, 5, 6))), Some(guid)) {
        RestoreStep::CloseThenFail(closed, ReconnectError::Client(ClientError::Protocol(_))) => {
            assert_eq!(closed.len(), 101)
        }
        other => panic!("expected a close, got {other:?}"),
    }
    assert!(recipe.durable_handle().is_none());
    // A durable open that the server has lost is made anew.
    assert!(matches!(
        recipe.on_durable_reconnect(
            Err(ClientError::ServerStatus(STATUS_OBJECT_NAME_NOT_FOUND)),
            Some(guid)
        ),
        RestoreStep::OpenDurable(_)
    ));
    // A server that cannot do it is not asked again.
    assert!(matches!(
        recipe.on_durable_open(Err(ClientError::Capability("no"))),
        RestoreStep::OpenPath
    ));
    assert!(matches!(recipe.first_step(Some(guid)), RestoreStep::OpenPath));
    assert!(matches!(
        recipe.on_path_open(Ok(file(100, 5, 7))),
        RestoreStep::Fail(ReconnectError::Client(ClientError::Protocol(
            "SMB file changed while reconnecting by path"
        )))
    ));
    assert!(matches!(
        recipe.on_path_open(Ok(file(100, 0, 6))),
        RestoreStep::Done(_)
    ));
}

#[test]
fn videos_are_opened_by_path_as_a_new_client() {
    let mut recipe = ReconnectRecipe::new(
        "nas".to_string(),
        445,
        "video".to_string(),
        "movie.mkv".to_string(),
        String::new(),
        String::new(),
        String::new(),
        String::new(),
    );
    let first = recipe.negotiate_config().unwrap();
    let second = recipe.negotiate_config().unwrap();
    assert_ne!(first.client_guid, second.client_guid);
    assert!(matches!(
        recipe.on_path_open(Ok(file(10, 1, 2))),
        RestoreStep::Done(_)
    ));
    assert!(matches!(
        recipe.on_path_open(Ok(file(11, 1, 2))),
        RestoreStep::Fail(_)
    ));
    assert!(is_retryable_stream_error(&StreamError::Client(lost())));
    assert!(!is_retryable_stream_error(&StreamError::Reconnect(
        ReconnectError::Client(lost())
    )));
    assert!(!is_retryable_stream_error(&StreamError::OffsetOverflow));
}

#[test]
fn reconnect_errors_say_what_failed() {
    assert_eq!(
        ReconnectError::from(ClientError::Cancelled).to_text(),
        "SMB reconnect client error: SMB operation cancelled"
    );
    assert_eq!(
        ReconnectError::Cancelled.to_text(),
        "SMB reconnect cancelled"
    );
    assert_eq!(
        ReconnectError::RandomSource.to_text(),
        "failed to obtain secure random bytes for reconnect"
    );
}

#[test]
fn drawn_bytes_are_the_guid() {
    let bytes: Vec<u8> = (1..=16).collect();
    assert_eq!(drawn_guid(Some(bytes.clone())).unwrap().to_vec(), bytes);
    assert!(matches!(
        drawn_guid(None),
        Err(ReconnectError::RandomSource)
    ));
}
