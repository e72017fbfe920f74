use smb_io::android::engine::open_file_of;
use smb_io::android::engine::plan_open;
use smb_io::android::engine::take_open_file;
use smb_io::android::engine::validate_open_request;
use smb_io::android::engine::AndroidBridgeError;
use smb_io::android::engine::AndroidEngine;
use smb_io::android::engine::AndroidEngineConfig;
use smb_io::android::engine::HandleTable;
use smb_io::android::engine::VideoHandle;
use smb_io::android::engine::VideoOpenRequest;
use smb_io::android::engine::VideoRead;
use smb_io::android::engine::VideoStep;
use smb_io::android::jni::as_jbytes;
use smb_io::android::jni::generation_value;
use smb_io::android::jni::length_value;
use smb_io::android::jni::native_api_version;
use smb_io::android::jni::native_close;
use smb_io::android::jni::native_len;
use smb_io::android::jni::native_open_video;
use smb_io::android::jni::native_prefetch;
use smb_io::android::jni::native_read_at;
use smb_io::android::jni::native_seek;
use smb_io::android::jni::opened_handle;
use smb_io::android::jni::read_count;
use smb_io::android::jni::throw_bridge_error;
use smb_io::android::jni::ExceptionClass;
use smb_io::client::error::ClientError;
use smb_io::client::reconnect::ReconnectError;
use smb_io::stream::video::CachedWindow;
use smb_io::stream::video::StreamError;
use smb_io::stream::video::VideoReader;
use smb_io::stream::video::VideoReaderConfig;
use std::time::Duration;

fn request(host: &str, share: &str, path: &str, username: &str, password: &str) -> VideoOpenRequest {
    VideoOpenRequest::new(
        host.to_string(),
        share.to_string(),
        path.to_string(),
        username.to_string(),
        password.to_string(),
    )
}

#[test]
fn opaque_handle_table_never_reuses_live_handle() {
    let mut table = HandleTable::new();
    let first = table.insert("first");
    let second = table.insert("second");
    assert_ne!(first, second);
    assert_eq!(table.get(first).unwrap(), &"first");
    assert_eq!(table.get(second).unwrap(), &"second");
    assert_eq!(table.len(), 2);
    assert_eq!(table.remove(first).unwrap(), "first");
    assert_eq!(table.len(), 1);
    assert!(matches!(
        table.get(first),
        Err(AndroidBridgeError::InvalidHandle(handle)) if handle == first
    ));
}

#[test]
fn handles_start_over_without_zero_and_without_live_ones() {
    let mut table = HandleTable::new();
    let one = table.insert('a');
    assert_eq!(one.raw(), 1);
    table.next = u64::MAX;
    assert_eq!(table.insert('b').raw(), u64::MAX);
    // Zero is skipped, and so is the handle that is in use.
    assert_eq!(table.insert('c').raw(), 2);
    assert!(table.remove(VideoHandle::from_raw(77)).is_err());
    assert_eq!(table.remove(one).unwrap(), 'a');
}

#[test]
fn invalid_engine_limits_are_rejected() {
    assert!(AndroidEngine::<()>::new(AndroidEngineConfig {
        runtime_worker_threads: 0,
        ..AndroidEngineConfig::default()
    })
    .is_err());
    assert!(AndroidEngine::<()>::new(AndroidEngineConfig {
        max_read_bytes: 0,
        ..AndroidEngineConfig::default()
    })
    .is_err());
}

#[test]
fn reconnect_policy_defaults_to_one_recovery_episode_with_two_connect_attempts() {
    let config = AndroidEngineConfig::default();
    assert_eq!(config.read_reconnect_attempts, 2);
    assert_eq!(config.reconnect_backoff, Duration::from_millis(250));
}

#[test]
fn open_request_validation_rejects_unc_share_input() {
    let request = request(
        "nas.local",
        "\\\\nas.local\\video",
        "movies/sample.mkv",
        "user",
        "password",
    );
    assert!(validate_open_request(&request).is_err());
}

#[test]
fn open_request_validation_accepts_blank_username_for_anonymous() {
    let request = request("nas.local", "video", "movies/sample.mkv", "", "");
    assert!(validate_open_request(&request).is_ok());
}

#[test]
fn other_broken_open_requests_are_rejected() {
    for broken in [
        request("", "video", "m", "", ""),
        request("a/b", "video", "m", "", ""),
        request("nas", "", "m", "", ""),
        request("nas", "vi\0deo", "m", "", ""),
        request("nas", "video", "", "", ""),
    ] {
        assert!(matches!(
            validate_open_request(&broken),
            Err(AndroidBridgeError::InvalidConfig(_))
        ));
    }
    let mut no_port = request("nas", "video", "m", "", "");
    no_port.port = 0;
    assert!(plan_open(no_port).is_err());
    let mut no_cache = request("nas", "video", "m", "", "");
    no_cache.stream.max_cache_bytes = 0;
    assert!(matches!(
        plan_open(no_cache),
        Err(AndroidBridgeError::Stream(StreamError::InvalidConfig(_)))
    ));
    let (reader, recipe) = plan_open(request("nas", "video", "m", "u", "p")).unwrap();
    assert_eq!(reader.generation(), 0);
    assert_eq!(recipe.port, 445);
    assert_eq!(recipe.host, "nas");
    assert!(!recipe.durable_v2_enabled());
}

fn lost() -> ClientError {
    ClientError::Timeout("TCP message read")
}

#[test]
fn a_video_read_recovers_once() {
    let mut engine = AndroidEngine::<u8>::new(AndroidEngineConfig::default()).unwrap();
    let handle = engine.videos.insert(5);
    assert!(matches!(
        engine.begin_read(handle, engine.max_read_bytes + 1),
        Err(AndroidBridgeError::ReadTooLarge {
            requested: 8_388_609,
            maximum: 8_388_608
        })
    ));
    assert!(matches!(
        engine.begin_read(VideoHandle::from_raw(9), 1),
        Err(AndroidBridgeError::InvalidHandle(_))
    ));
    let (video, read) = engine.begin_read(handle, 1).unwrap();
    assert_eq!(*video, 5);

    let mut reader = VideoReader::new(VideoReaderConfig::default()).unwrap();
    reader.cache = Some(CachedWindow {
        generation: 0,
        start: 0,
        data: vec![1; 4],
    });
    assert!(matches!(
        read.on_read(Err(StreamError::Client(lost())), false, &mut reader),
        VideoStep::Fail(AndroidBridgeError::Stream(StreamError::Client(
            ClientError::Cancelled
        )))
    ));
    assert_eq!(reader.cached_bytes(), 4);
    let read = match read.on_read(Err(StreamError::Client(lost())), true, &mut reader) {
        VideoStep::Connect(read) => read,
        other => panic!("expected a connect, got {other:?}"),
    };
    assert_eq!(reader.cached_bytes(), 0);
    let waiting = match read.on_connect(Err(ReconnectError::Client(lost())), true) {
        VideoStep::Backoff(read) => read,
        other => panic!("expected a backoff, got {other:?}"),
    };
    let read = match waiting.on_backoff_over() {
        VideoStep::Connect(read) => read,
        other => panic!("expected another connect, got {other:?}"),
    };
    assert_eq!(read.attempts, 2);
    assert!(matches!(
        read.on_connect(Err(ReconnectError::Client(lost())), true),
        VideoStep::Fail(AndroidBridgeError::Client(ClientError::Timeout(_)))
    ));
    assert!(matches!(
        read.on_connect(Err(ReconnectError::RandomSource), true),
        VideoStep::Fail(AndroidBridgeError::RandomSource)
    ));
    let again = match read.on_connect(Ok(()), true) {
        VideoStep::Read(read) => read,
        other => panic!("expected the read, got {other:?}"),
    };
    assert!(matches!(
        again.on_read(Err(StreamError::Client(lost())), true, &mut reader),
        VideoStep::Fail(AndroidBridgeError::Stream(StreamError::Client(
            ClientError::Timeout(_)
        )))
    ));
    assert!(matches!(
        again.on_read(Ok(vec![3]), true, &mut reader),
        VideoStep::Done(data) if data == vec![3]
    ));
    let never = VideoRead {
        max_attempts: 0,
        backoff: Duration::ZERO,
        attempts: 0,
        recovery_used: false,
    };
    assert!(matches!(
        never.on_read(Err(StreamError::Client(lost())), true, &mut reader),
        VideoStep::Fail(_)
    ));
}

#[test]
fn closed_videos_have_no_file() {
    assert!(matches!(
        open_file_of(&None),
        Err(AndroidBridgeError::InternalState("video handle is closed"))
    ));
    assert!(matches!(
        take_open_file(None),
        Err(AndroidBridgeError::InternalState(
            "video handle is already closed"
        ))
    ));
}

#[test]
fn bridge_errors_say_what_failed() {
    let runtime = AndroidBridgeError::Runtime(std::io::Error::new(
        std::io::ErrorKind::Other,
        "no threads",
    ));
    assert_eq!(runtime.to_text(), "Android SMB runtime error: no threads");
    assert_eq!(
        AndroidBridgeError::from(ClientError::Cancelled).to_text(),
        "SMB client error: SMB operation cancelled"
    );
    assert_eq!(
        AndroidBridgeError::from(StreamError::OffsetOverflow).to_text(),
        "SMB stream error: stream offset overflow"
    );
    assert_eq!(
        AndroidBridgeError::InvalidHandle(VideoHandle::from_raw(120)).to_text(),
        "invalid SMB video handle 120"
    );
    assert_eq!(
        AndroidBridgeError::InvalidConfig("x").to_text(),
        "invalid Android SMB configuration: x"
    );
    assert_eq!(
        AndroidBridgeError::ReadTooLarge {
            requested: 10,
            maximum: 9
        }
        .to_text(),
        "Android SMB read request is too large: requested 10 bytes, maximum 9"
    );
    assert_eq!(
        AndroidBridgeError::InternalState("x").to_text(),
        "Android SMB internal state error: x"
    );
    assert_eq!(
        AndroidBridgeError::RandomSource.to_text(),
        "failed to obtain secure random bytes"
    );
}

#[test]
fn java_arguments_are_checked() {
    assert_eq!(native_api_version(), 1);
    assert_eq!(native_len(7).unwrap().raw(), 7);
    let thrown = native_len(0).unwrap_err();
    assert_eq!(thrown.class, ExceptionClass::IllegalArgument);
    assert_eq!(thrown.message, "SMB video handle must be positive");
    assert_eq!(thrown.returned, -1);
    assert!(native_close(-3).is_err());
    assert_eq!(native_close(3).unwrap().raw(), 3);
    assert_eq!(
        native_seek(3, -1).unwrap_err().message,
        "SMB seek position must not be negative"
    );
    assert_eq!(native_seek(3, 0).unwrap().raw(), 3);

    let open = |port: i32| {
        native_open_video(
            "h".to_string(),
            port,
            "s".to_string(),
            "p".to_string(),
            "u".to_string(),
            "w".to_string(),
            "d".to_string(),
            "k".to_string(),
        )
    };
    for port in [i32::MIN, -1, 0, 65_536, i32::MAX] {
        match open(port) {
            Err(thrown) => assert_eq!(thrown.message, "SMB port must be between 1 and 65535"),
            Ok(_) => panic!("port {port} was accepted"),
        }
    }
    match open(65_535) {
        Ok(request) => {
            assert_eq!(request.port, 65_535);
            assert_eq!(request.domain, "d");
            assert_eq!(request.workstation, "k");
        }
        Err(_) => panic!("the greatest port was refused"),
    }
}

#[test]
fn java_reads_stay_inside_their_array() {
    let call = native_read_at(1, 5, 2, 8, 10).unwrap().unwrap();
    assert_eq!(call.handle.raw(), 1);
    assert_eq!(call.position, 5);
    assert_eq!(call.destination_offset, 2);
    assert_eq!(call.length, 8);
    assert!(native_read_at(1, 5, 100, 0, 10).unwrap().is_none());
    assert_eq!(
        native_read_at(1, 5, 3, 8, 10).unwrap_err().message,
        "SMB read buffer range exceeds destination array"
    );
    assert_eq!(
        native_read_at(1, -5, 0, 1, 10).unwrap_err().message,
        "SMB read position must not be negative"
    );
    assert_eq!(
        native_read_at(1, 0, -1, 1, 10).unwrap_err().message,
        "SMB read buffer offset/length must not be negative"
    );
    assert_eq!(native_read_at(-1, 0, 0, 1, 10).unwrap_err().returned, -1);
    assert_eq!(read_count(12).unwrap(), 12);
    assert!(read_count(usize::MAX).is_err());

    let hint = native_prefetch(4, 9, 16).unwrap().unwrap();
    assert_eq!((hint.handle.raw(), hint.position, hint.length), (4, 9, 16));
    assert!(native_prefetch(4, 9, 0).unwrap().is_none());
    assert_eq!(
        native_prefetch(4, -9, 1).unwrap_err().message,
        "SMB prefetch position must not be negative"
    );
    assert_eq!(
        native_prefetch(4, 9, -1).unwrap_err().message,
        "SMB prefetch length must not be negative"
    );
}

#[test]
fn numbers_that_java_cannot_hold_are_refused() {
    assert_eq!(length_value(i64::MAX as u64).unwrap(), i64::MAX);
    let thrown = length_value(i64::MAX as u64 + 1).unwrap_err();
    assert_eq!(thrown.class, ExceptionClass::Io);
    assert_eq!(thrown.message, "SMB file length exceeds Java Long range");
    assert!(generation_value(u64::MAX).is_err());
    assert!(opened_handle(VideoHandle::from_raw(u64::MAX)).is_err());
    assert_eq!(opened_handle(VideoHandle::from_raw(8)).unwrap(), 8);
    assert_eq!(as_jbytes(&[0, 127, 128, 255]), vec![0, 127, -128, -1]);
    let thrown = throw_bridge_error(&AndroidBridgeError::RandomSource, 0i64);
    assert_eq!(thrown.message, "failed to obtain secure random bytes");
}
