use smb_io::client::cancellation::ReadCancellationToken;
use smb_io::client::error::ClientError;
use smb_io::client::read::PipelinedReadOptions;
use smb_io::client::reconnect::ReconnectError;
use smb_io::stream::broker::next_turn;
use smb_io::stream::broker::prefetch_outcome;
use smb_io::stream::broker::validate_queue_capacity;
use smb_io::stream::broker::video_broker;
use smb_io::stream::broker::BrokerError;
use smb_io::stream::broker::PrefetchCommand;
use smb_io::stream::broker::QueueOutcome;
use smb_io::stream::broker::QueueState;
use smb_io::stream::broker::Turn;
use smb_io::stream::broker::VideoBrokerConfig;
use smb_io::stream::broker::VideoBrokerHandle;
use smb_io::stream::broker::VideoBrokerRunner;
use smb_io::stream::video::ensure_not_cancelled;
use smb_io::stream::video::CachedWindow;
use smb_io::stream::video::PreparedRead;
use smb_io::stream::video::StreamError;
use smb_io::stream::video::VideoReader;
use smb_io::stream::video::VideoReaderConfig;
use smb_io::stream::video::VideoReaderMetrics;
use smb_io::stream::IoPriority;
use std::time::Duration;
use tokio::sync::mpsc;

#[test]
fn aggregate_throughput_metrics_use_successful_fetch_time() {
    let mut metrics = VideoReaderMetrics::default();
    metrics.record_foreground_fetch(1_000_000, Duration::from_millis(500));
    metrics.record_prefetch_fetch(500_000, Duration::from_millis(250));

    assert_eq!(
        metrics.foreground_throughput_bytes_per_second(),
        Some(2_000_000)
    );
    assert_eq!(
        metrics.prefetch_throughput_bytes_per_second(),
        Some(2_000_000)
    );
    assert_eq!(metrics.total_throughput_bytes_per_second(), Some(2_000_000));
    assert_eq!(metrics.foreground_fetches, 1);
    assert_eq!(metrics.prefetch_fetches, 1);
}

#[test]
fn throughput_needs_bytes_and_time_and_keeps_within_its_type() {
    let mut metrics = VideoReaderMetrics::default();
    assert_eq!(metrics.total_throughput_bytes_per_second(), None);
    metrics.record_foreground_fetch(usize::MAX, Duration::from_micros(1));
    assert_eq!(
        metrics.foreground_throughput_bytes_per_second(),
        Some(u64::MAX)
    );
    metrics.record_foreground_fetch(usize::MAX, Duration::MAX);
    assert_eq!(metrics.foreground_fetch_micros, u64::MAX);
    assert_eq!(metrics.foreground_fetch_bytes, u64::MAX);
}

#[test]
fn cache_hit_and_miss_metrics_follow_read_plans() {
    let mut reader = VideoReader::new(VideoReaderConfig::default()).unwrap();
    reader.cache = Some(CachedWindow {
        generation: 0,
        start: 100,
        data: (0u8..32).collect(),
    });

    assert!(matches!(
        reader.prepare_read(1_000, 108, 4, None).unwrap(),
        PreparedRead::Cached(_)
    ));
    assert!(matches!(
        reader.prepare_read(1_000, 500, 4, None).unwrap(),
        PreparedRead::Fetch { .. }
    ));

    let metrics = reader.metrics();
    assert_eq!(metrics.cache_hits, 1);
    assert_eq!(metrics.cache_misses, 1);
}

#[test]
fn cached_window_returns_positional_slice() {
    let cache = CachedWindow {
        generation: 3,
        start: 100,
        data: (0u8..32).collect(),
    };
    assert_eq!(cache.slice(108, 4).unwrap(), Some(vec![8, 9, 10, 11]));
    assert_eq!(cache.slice(95, 4).unwrap(), None);
    assert_eq!(cache.slice(128, 8).unwrap(), None);
}

#[test]
fn windows_at_the_end_of_all_offsets_overflow() {
    let cache = CachedWindow {
        generation: 0,
        start: u64::MAX - 1,
        data: vec![0; 4],
    };
    assert!(matches!(cache.end(), Err(StreamError::OffsetOverflow)));
    assert!(matches!(
        cache.slice(u64::MAX, 0),
        Err(StreamError::OffsetOverflow)
    ));
    assert!(matches!(
        cache.contains(u64::MAX, 1),
        Err(StreamError::OffsetOverflow)
    ));
    assert!(matches!(cache.contains(3, 1), Ok(false)));
}

#[test]
fn seek_invalidates_cache_and_changes_generation() {
    let mut reader = VideoReader::new(VideoReaderConfig::default()).unwrap();
    reader.cache = Some(CachedWindow {
        generation: 0,
        start: 0,
        data: vec![1; 1024],
    });
    let generation = reader.seek(4 * 1024 * 1024 * 1024);
    assert_eq!(generation, 1);
    assert_eq!(reader.cached_bytes(), 0);
    assert!(reader.is_current_generation(1));
    assert!(!reader.is_current_generation(0));
}

#[test]
fn invalid_pipeline_depth_is_rejected() {
    let config = VideoReaderConfig {
        pipeline: PipelinedReadOptions {
            max_in_flight: 0,
            ..PipelinedReadOptions::default()
        },
        ..VideoReaderConfig::default()
    };
    assert!(VideoReader::new(config).is_err());
}

#[test]
fn other_empty_limits_are_rejected() {
    let base = VideoReaderConfig::default();
    for config in [
        VideoReaderConfig {
            read_ahead_bytes: 0,
            ..base
        },
        VideoReaderConfig {
            max_cache_bytes: 0,
            ..base
        },
        VideoReaderConfig {
            pipeline: PipelinedReadOptions {
                chunk_size: 0,
                ..base.pipeline
            },
            ..base
        },
    ] {
        assert!(matches!(
            VideoReader::new(config),
            Err(StreamError::InvalidConfig(_))
        ));
    }
}

#[test]
fn stale_external_generation_is_rejected_before_network_io() {
    let mut token = ReadCancellationToken::new();
    let generation = token.generation();
    token.advance();
    assert!(matches!(
        ensure_not_cancelled(Some((&token, generation))),
        Err(StreamError::Client(ClientError::Cancelled))
    ));
    let mut reader = VideoReader::new(VideoReaderConfig::default()).unwrap();
    assert!(reader
        .prepare_read(100, 0, 10, Some((&token, generation)))
        .unwrap_err()
        .is_cancelled());
    assert!(reader
        .finish_fetch(0, 10, 0, vec![0; 10], Some((&token, generation)))
        .is_err());
    assert_eq!(reader.cached_bytes(), 0);
}

#[test]
fn reconnect_cancellation_is_recognized_as_stream_cancellation() {
    let error = StreamError::Reconnect(ReconnectError::Cancelled);
    assert!(error.is_cancelled());
}

#[test]
fn cache_hit_and_network_fetch_share_one_read_plan() {
    let mut reader = VideoReader::new(VideoReaderConfig::default()).unwrap();
    reader.cache = Some(CachedWindow {
        generation: 0,
        start: 100,
        data: (0u8..32).collect(),
    });

    let cached = reader.prepare_read(1_000, 108, 4, None).unwrap();
    assert!(matches!(cached, PreparedRead::Cached(data) if data == vec![8, 9, 10, 11]));

    let fetch = reader.prepare_read(1_000, 500, 4, None).unwrap();
    assert!(matches!(fetch, PreparedRead::Fetch { target: 4, .. }));
}

#[test]
fn cache_miss_prefetch_is_bounded_to_one_pipeline_wave() {
    let mut reader = VideoReader::new(VideoReaderConfig::default()).unwrap();
    let plan = reader
        .prepare_read(64 * 1024 * 1024, 0, 64 * 1024, None)
        .unwrap();

    assert!(matches!(
        plan,
        PreparedRead::Fetch {
            target: 65_536,
            fetch_len: 1_048_576,
            ..
        }
    ));
}

#[test]
fn configured_read_ahead_caps_the_foreground_pipeline_wave() {
    let config = VideoReaderConfig {
        read_ahead_bytes: 512 * 1024,
        ..VideoReaderConfig::default()
    };
    let mut reader = VideoReader::new(config).unwrap();
    let plan = reader
        .prepare_read(64 * 1024 * 1024, 0, 64 * 1024, None)
        .unwrap();

    assert!(matches!(
        plan,
        PreparedRead::Fetch {
            target: 65_536,
            fetch_len: 524_288,
            ..
        }
    ));
}

#[test]
fn caller_demand_larger_than_one_wave_is_not_shortened() {
    let mut reader = VideoReader::new(VideoReaderConfig::default()).unwrap();
    let plan = reader
        .prepare_read(64 * 1024 * 1024, 0, 1536 * 1024, None)
        .unwrap();

    assert!(matches!(
        plan,
        PreparedRead::Fetch {
            target: 1_572_864,
            fetch_len: 1_572_864,
            ..
        }
    ));
}

#[test]
fn prefetch_extends_from_cache_end_within_budget() {
    let config = VideoReaderConfig {
        read_ahead_bytes: 2 * 1024,
        max_cache_bytes: 8 * 1024,
        ..VideoReaderConfig::default()
    };
    let mut reader = VideoReader::new(config).unwrap();
    reader.cache = Some(CachedWindow {
        generation: 0,
        start: 100,
        data: vec![1; 2 * 1024],
    });
    reader.last_request_end = Some(132);

    let plan = reader
        .prepare_prefetch_extension(20_000, 132, 512, None)
        .unwrap()
        .unwrap();
    assert_eq!(plan.offset, 100 + 2 * 1024);
    assert_eq!(plan.fetch_len, 2 * 1024);
}

#[test]
fn prefetch_does_not_replace_full_or_unrelated_cache() {
    let config = VideoReaderConfig {
        read_ahead_bytes: 2 * 1024,
        max_cache_bytes: 8 * 1024,
        ..VideoReaderConfig::default()
    };
    let mut reader = VideoReader::new(config).unwrap();
    reader.cache = Some(CachedWindow {
        generation: 0,
        start: 1_000,
        data: vec![1; 8 * 1024],
    });
    assert!(reader
        .prepare_prefetch_extension(50_000, 1_100, 512, None)
        .unwrap()
        .is_none());

    reader.cache.as_mut().unwrap().data.truncate(2 * 1024);
    assert!(reader
        .prepare_prefetch_extension(50_000, 10_000, 512, None)
        .unwrap()
        .is_none());
    assert_eq!(reader.cached_range().unwrap(), Some((1_000, 3_048)));
}

#[test]
fn finishing_prefetch_appends_without_moving_foreground_cursor() {
    let config = VideoReaderConfig {
        read_ahead_bytes: 4,
        max_cache_bytes: 16,
        ..VideoReaderConfig::default()
    };
    let mut reader = VideoReader::new(config).unwrap();
    reader.cache = Some(CachedWindow {
        generation: 0,
        start: 100,
        data: vec![1, 2, 3, 4],
    });
    reader.last_request_end = Some(102);
    let plan = reader
        .prepare_prefetch_extension(1_000, 102, 1, None)
        .unwrap()
        .unwrap();

    assert_eq!(
        reader
            .finish_prefetch_extension(plan, vec![5, 6, 7, 8], None)
            .unwrap(),
        4
    );
    assert_eq!(reader.cached_range().unwrap(), Some((100, 108)));
    assert_eq!(reader.last_request_end, Some(102));
}

#[test]
fn automatic_prefetch_starts_at_low_water_mark() {
    let config = VideoReaderConfig {
        read_ahead_bytes: 8,
        max_cache_bytes: 32,
        ..VideoReaderConfig::default()
    };
    let mut reader = VideoReader::new(config).unwrap();
    reader.cache = Some(CachedWindow {
        generation: 0,
        start: 100,
        data: vec![1; 16],
    });

    reader.last_request_end = Some(108);
    assert_eq!(reader.automatic_prefetch_hint(1_000).unwrap(), None);
    reader.last_request_end = Some(112);
    assert_eq!(
        reader.automatic_prefetch_hint(1_000).unwrap(),
        Some((112, 8))
    );
}

#[test]
fn successful_prefetch_rolls_full_cache_forward() {
    let config = VideoReaderConfig {
        read_ahead_bytes: 4,
        max_cache_bytes: 12,
        ..VideoReaderConfig::default()
    };
    let mut reader = VideoReader::new(config).unwrap();
    reader.cache = Some(CachedWindow {
        generation: 0,
        start: 100,
        data: (0u8..12).collect(),
    });
    reader.last_request_end = Some(110);

    let plan = reader
        .prepare_prefetch_extension(1_000, 110, 1, None)
        .unwrap()
        .unwrap();
    assert_eq!(plan.offset, 112);
    assert_eq!(plan.fetch_len, 4);
    assert_eq!(plan.drop_prefix, 6);

    assert_eq!(
        reader
            .finish_prefetch_extension(plan, vec![12, 13, 14, 15], None)
            .unwrap(),
        4
    );
    assert_eq!(reader.cached_range().unwrap(), Some((106, 116)));
    assert_eq!(reader.cached_bytes(), 10);
    assert_eq!(reader.last_request_end, Some(110));
}

#[test]
fn explicit_prefetch_never_drops_unconsumed_bytes() {
    let config = VideoReaderConfig {
        read_ahead_bytes: 4,
        max_cache_bytes: 12,
        ..VideoReaderConfig::default()
    };
    let mut reader = VideoReader::new(config).unwrap();
    reader.cache = Some(CachedWindow {
        generation: 0,
        start: 100,
        data: (0u8..12).collect(),
    });
    reader.last_request_end = Some(104);

    let plan = reader
        .prepare_prefetch_extension(1_000, 110, 1, None)
        .unwrap();
    assert!(plan.is_none());
    assert_eq!(reader.cached_range().unwrap(), Some((100, 112)));
}

#[test]
fn stale_prefetch_plan_never_appends() {
    let config = VideoReaderConfig {
        read_ahead_bytes: 4,
        max_cache_bytes: 16,
        ..VideoReaderConfig::default()
    };
    let mut reader = VideoReader::new(config).unwrap();
    reader.cache = Some(CachedWindow {
        generation: 0,
        start: 100,
        data: vec![1, 2, 3, 4],
    });
    let plan = reader
        .prepare_prefetch_extension(1_000, 102, 1, None)
        .unwrap()
        .unwrap();
    reader.seek(500);

    assert_eq!(
        reader
            .finish_prefetch_extension(plan, vec![5, 6, 7, 8], None)
            .unwrap(),
        0
    );
    assert_eq!(reader.cached_bytes(), 0);
}

#[test]
fn reads_of_a_whole_file_give_its_bytes() {
    let content: Vec<u8> = (0..10_000u32).map(|i| (i * 7 % 251) as u8).collect();
    let config = VideoReaderConfig {
        read_ahead_bytes: 700,
        max_cache_bytes: 1_500,
        pipeline: PipelinedReadOptions {
            chunk_size: 100,
            max_in_flight: 3,
            credit_request: 32,
        },
    };
    let mut reader = VideoReader::new(config).unwrap();
    let file_len = content.len() as u64;
    let mut position = 0u64;
    for step in 0..200u64 {
        // Mostly forward, with a jump now and then and reads across the end.
        let offset = if step % 17 == 16 {
            step * 613 % 10_050
        } else {
            position
        };
        let length = (step * 37 % 400 + 1) as usize;
        let data = match reader.prepare_read(file_len, offset, length, None).unwrap() {
            PreparedRead::Empty => Vec::new(),
            PreparedRead::Cached(data) => data,
            PreparedRead::Fetch {
                target,
                fetch_len,
                reader_generation,
            } => {
                let end = (offset as usize + fetch_len).min(content.len());
                let fetched = content[offset as usize..end].to_vec();
                reader
                    .complete_read(
                        offset,
                        target,
                        reader_generation,
                        fetched,
                        Duration::from_micros(10),
                        None,
                    )
                    .unwrap()
            }
        };
        let begin = (offset as usize).min(content.len());
        let end = (offset as usize + length).min(content.len());
        assert_eq!(data, &content[begin..end.max(begin)]);
        assert!(reader.cached_bytes() <= 1_500);
        position = (end % content.len()) as u64;

        if let Some((hint, hint_len)) = reader.automatic_prefetch_hint(file_len).unwrap() {
            if let Some(plan) = reader
                .prepare_prefetch_extension(file_len, hint, hint_len, None)
                .unwrap()
            {
                let from = plan.offset as usize;
                let fetched = content[from..from + plan.fetch_len].to_vec();
                let added = reader
                    .complete_prefetch(plan, fetched, Duration::from_micros(10), None)
                    .unwrap();
                assert_eq!(added, plan.fetch_len);
            }
        }
        if let Some((start, end)) = reader.cached_range().unwrap() {
            assert_eq!(
                reader.cache.as_ref().unwrap().data,
                &content[start as usize..end as usize]
            );
        }
    }
    let metrics = reader.metrics();
    assert!(metrics.cache_hits > 0);
    assert!(metrics.prefetch_fetches > 0);
    assert_eq!(
        metrics.foreground_fetches, metrics.cache_misses,
        "every miss is fetched once"
    );
}

#[test]
fn stream_errors_say_what_failed() {
    assert_eq!(
        StreamError::from(ClientError::Cancelled).to_text(),
        "SMB client error: SMB operation cancelled"
    );
    assert_eq!(
        StreamError::from(ReconnectError::Cancelled).to_text(),
        "SMB reconnect error: SMB reconnect cancelled"
    );
    assert_eq!(
        StreamError::InvalidConfig("x").to_text(),
        "invalid stream configuration: x"
    );
    assert_eq!(
        StreamError::OffsetOverflow.to_text(),
        "stream offset overflow"
    );
    assert!(!StreamError::OffsetOverflow.is_cancelled());
}

#[test]
fn interactive_work_is_the_most_urgent() {
    assert!(IoPriority::Background < IoPriority::Transfer);
    assert!(IoPriority::Transfer < IoPriority::SequentialPrefetch);
    assert!(IoPriority::SequentialPrefetch < IoPriority::Control);
    assert!(IoPriority::Control < IoPriority::Interactive);
}

#[test]
fn seek_token_invalidates_old_work_immediately() {
    let mut token = ReadCancellationToken::new();
    let initial = token.generation();
    assert!(token.is_current(initial));
    let next = token.advance();
    assert_eq!(next, initial + 1);
    assert!(!token.is_current(initial));
    assert!(token.is_current(next));
}

#[test]
fn zero_queue_capacity_is_invalid_by_contract() {
    assert!(matches!(
        validate_queue_capacity(0),
        Err(BrokerError::InvalidConfig(_))
    ));
    assert!(video_broker(
        VideoBrokerConfig {
            queue_capacity: 0,
            ..VideoBrokerConfig::default()
        },
        1
    )
    .is_err());
}

#[test]
fn foreground_read_invalidates_prefetch_before_enqueue() {
    let mut handle = VideoBrokerHandle::new(123);
    let old = handle.prefetch(0, 1);
    let (_, mut runner) = video_broker(VideoBrokerConfig::default(), 123).unwrap();
    assert!(runner.prepare_prefetch(&handle, old).is_ok());

    let command = handle.read(4, 1);
    assert_eq!(command.offset, 4);
    assert_eq!(command.length, 1);
    assert_eq!(command.generation, handle.generation());
    assert!(!handle
        .prefetch_cancellation
        .is_current(old.prefetch_generation));
    assert!(matches!(
        runner.prepare_prefetch(&handle, old),
        Err(BrokerError::StaleGeneration)
    ));
}

#[test]
fn full_prefetch_queue_drops_new_hint_without_waiting() {
    let handle = VideoBrokerHandle::new(123);
    let (background_tx, mut background_rx) = mpsc::channel::<PrefetchCommand>(1);
    let send = |command: PrefetchCommand| {
        prefetch_outcome(match background_tx.try_send(command) {
            Ok(()) => QueueOutcome::Queued,
            Err(mpsc::error::TrySendError::Full(_)) => QueueOutcome::Full,
            Err(mpsc::error::TrySendError::Closed(_)) => QueueOutcome::Closed,
        })
    };

    send(handle.prefetch(10, 4)).unwrap();
    send(handle.prefetch(20, 4)).unwrap();

    let queued = background_rx.try_recv().unwrap();
    assert_eq!(queued.offset, 10);
    assert!(matches!(
        background_rx.try_recv(),
        Err(mpsc::error::TryRecvError::Empty)
    ));
    drop(background_rx);
    assert!(matches!(
        send(handle.prefetch(30, 4)),
        Err(BrokerError::Closed)
    ));
}

#[test]
fn stale_reads_are_answered_as_stale_and_leave_no_cache() {
    let (mut handle, mut runner) = video_broker(VideoBrokerConfig::default(), 500).unwrap();
    assert_eq!(handle.len(), 500);
    assert!(!handle.is_empty());
    let command = handle.read(0, 10);
    runner
        .prepare_generation(&handle.cancellation, command.generation, command.offset)
        .unwrap();
    runner.reader.cache = Some(CachedWindow {
        generation: 0,
        start: 0,
        data: vec![1; 10],
    });
    assert_eq!(
        runner.settle_read(Ok(vec![1; 10]), true).unwrap(),
        vec![1; 10]
    );
    assert_eq!(runner.reader.cached_bytes(), 10);

    handle.seek();
    assert!(matches!(
        runner.prepare_generation(&handle.cancellation, command.generation, command.offset),
        Err(BrokerError::StaleGeneration)
    ));
    assert!(matches!(
        runner.settle_read(Ok(vec![1; 10]), false),
        Err(BrokerError::StaleGeneration)
    ));
    assert_eq!(runner.reader.cached_bytes(), 0);
    assert!(matches!(
        runner.settle_read(
            Err(BrokerError::Stream(StreamError::Client(
                ClientError::Cancelled
            ))),
            true
        ),
        Err(BrokerError::StaleGeneration)
    ));
    assert!(matches!(
        runner.settle_read(Err(BrokerError::Closed), false),
        Err(BrokerError::Closed)
    ));
    runner
        .prepare_generation(&handle.cancellation, handle.generation(), 77)
        .unwrap();
    assert_eq!(runner.active_generation, handle.generation());
    assert_eq!(runner.reader.last_request_end, Some(77));
}

#[test]
fn speculative_work_is_settled_by_both_generations() {
    let mut handle = VideoBrokerHandle::new(9);
    let command = handle.prefetch(0, 4);
    assert!(VideoBrokerRunner::settle_prefetch(&handle, command, Ok(4)).is_ok());
    assert!(matches!(
        VideoBrokerRunner::settle_prefetch(
            &handle,
            command,
            Err(BrokerError::Stream(StreamError::OffsetOverflow))
        ),
        Err(BrokerError::Stream(StreamError::OffsetOverflow))
    ));
    handle.close();
    assert!(matches!(
        VideoBrokerRunner::settle_prefetch(&handle, command, Ok(4)),
        Err(BrokerError::StaleGeneration)
    ));
}

#[test]
fn broker_errors_say_what_failed() {
    assert_eq!(
        BrokerError::from(StreamError::OffsetOverflow).to_text(),
        "stream error: stream offset overflow"
    );
    assert_eq!(BrokerError::Closed.to_text(), "video broker is closed");
    assert_eq!(
        BrokerError::StaleGeneration.to_text(),
        "video broker request belongs to a stale seek generation"
    );
    assert_eq!(
        BrokerError::InvalidConfig("x").to_text(),
        "invalid broker configuration: x"
    );
}

#[test]
fn foreground_commands_take_the_next_turn() {
    for background in [QueueState::Ready, QueueState::Empty, QueueState::Closed] {
        assert_eq!(next_turn(QueueState::Ready, background), Turn::Interactive);
    }
    assert_eq!(next_turn(QueueState::Empty, QueueState::Ready), Turn::Background);
    assert_eq!(next_turn(QueueState::Closed, QueueState::Ready), Turn::Background);
    assert_eq!(next_turn(QueueState::Empty, QueueState::Empty), Turn::Wait);
    assert_eq!(next_turn(QueueState::Closed, QueueState::Empty), Turn::Wait);
    assert_eq!(next_turn(QueueState::Empty, QueueState::Closed), Turn::Wait);
    assert_eq!(next_turn(QueueState::Closed, QueueState::Closed), Turn::Stop);
}

#[test]
fn a_served_read_is_followed_by_a_refill_at_low_water() {
    let config = VideoBrokerConfig {
        reader: VideoReaderConfig {
            read_ahead_bytes: 100,
            max_cache_bytes: 400,
            pipeline: PipelinedReadOptions {
                chunk_size: 50,
                max_in_flight: 2,
                credit_request: 32,
            },
        },
        queue_capacity: 1,
    };
    let (mut handle, mut runner) = video_broker(config, 1_000).unwrap();
    let command = handle.read(0, 40);
    assert_eq!(runner.refill_after_read(&handle, command), None);

    let plan = runner.reader.prepare_read(1_000, 0, 40, None).unwrap();
    let PreparedRead::Fetch {
        target,
        fetch_len,
        reader_generation,
    } = plan
    else {
        panic!("nothing is cached yet");
    };
    assert_eq!(fetch_len, 100);
    runner
        .reader
        .complete_read(
            0,
            target,
            reader_generation,
            vec![7; 100],
            Duration::from_millis(1),
            None,
        )
        .unwrap();
    // Sixty bytes lie ahead of the cursor, and the low-water mark is at fifty.
    assert_eq!(runner.refill_after_read(&handle, command), None);

    let command = handle.read(40, 10);
    let cached = runner.reader.prepare_read(1_000, 40, 10, None).unwrap();
    assert!(matches!(cached, PreparedRead::Cached(_)));
    assert_eq!(
        runner.refill_after_read(&handle, command),
        Some(PrefetchCommand {
            playback_generation: handle.generation(),
            prefetch_generation: handle.prefetch_cancellation.generation(),
            offset: 50,
            length: 100,
        })
    );
    handle.seek();
    assert_eq!(runner.refill_after_read(&handle, command), None);
}
