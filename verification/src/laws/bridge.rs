//! Which calls from outside are accepted, and what becomes of the work behind them.

use crate::android::engine::engine_config_error;
use crate::android::engine::is_free;
use crate::android::engine::mapped_reconnect_error;
use crate::android::engine::open_request_error;
use crate::android::engine::wrapped;
use crate::android::engine::AndroidBridgeError;
use crate::android::engine::AndroidEngine;
use crate::android::engine::AndroidEngineConfig;
use crate::android::engine::VideoHandle;
use crate::android::engine::VideoOpenRequest;
use crate::android::jni::java_byte;
use crate::android::jni::prefetch_call;
use crate::android::jni::prefetch_call_error;
use crate::android::jni::read_call_error;
use crate::android::jni::read_called;
use crate::android::jni::ReadCall;
use crate::android::reconnect::stream_retryable;
use crate::auth::ntlm::NtlmCredentials;
use crate::client::error::ClientError;
use crate::client::reconnect::retryable;
use crate::client::reconnect::stage_settled;
use crate::client::reconnect::ConnectStage;
use crate::client::reconnect::ConnectStep;
use crate::client::reconnect::ReconnectError;
use crate::client::recovering_read::mapped_error;
use crate::client::recovering_read::reconnect_retryable;
use crate::laws::recovery::law_tree_of_a_recipe;
use crate::probe::range_error;
use crate::stream::broker::command_prepared;
use crate::stream::broker::fresh_handle;
use crate::stream::broker::fresh_runner;
use crate::stream::broker::prefetch_answer;
use crate::stream::broker::read_is_stale;
use crate::stream::broker::read_settled;
use crate::stream::broker::turn_of;
use crate::stream::broker::BrokerError;
use crate::stream::broker::QueueState;
use crate::stream::broker::RunnerView;
use crate::stream::broker::Turn;
use crate::stream::broker::VideoBrokerHandle;
use crate::stream::video::config_error;
use crate::stream::video::ReaderView;
use crate::stream::video::StreamError;
use crate::stream::video::VideoReaderConfig;
use vstd::prelude::*;

verus! {

/// A read from outside is accepted if and only if its handle is positive, its position is not negative,
/// and what it asks for fits the array from its offset on; a read of nothing fits everywhere. Only a
/// refused handle is answered with -1.
pub proof fn law_read_call(
    handle: i64,
    position: i64,
    destination_offset: i32,
    length: i32,
    array_len: usize,
)
    ensures
        ({
            let error = read_call_error(handle, position, destination_offset, length, array_len);
            &&& error is None <==> {
                &&& handle > 0
                &&& position >= 0
                &&& destination_offset >= 0
                &&& length >= 0
                &&& length == 0 || destination_offset + length <= array_len
            }
            &&& error is Some && handle <= 0 ==> (error->Some_0).1 == -1
            &&& error is Some && handle > 0 ==> (error->Some_0).1 == 0
        }),
{
}

/// An accepted read is the one that the raw values ask for, and stays inside the array.
pub proof fn law_read_call_stays_inside(
    call: ReadCall,
    handle: i64,
    position: i64,
    destination_offset: i32,
    length: i32,
    array_len: usize,
)
    requires
        read_called(call, handle, position, destination_offset, length),
        read_call_error(handle, position, destination_offset, length, array_len) is None,
        length > 0,
    ensures
        call.handle.value > 0,
        call.destination_offset + call.length <= array_len,
        call.position == position,
        call.handle.value == handle,
        call.length == length,
        call.destination_offset == destination_offset,
{
}

/// A hint from outside is accepted if and only if its handle is positive and neither its position nor its
/// length is negative.
pub proof fn law_prefetch_call(handle: i64, position: i64, length: i32)
    ensures
        prefetch_call_error(handle, position, length) is None <==> handle > 0 && position >= 0
            && length >= 0,
{
}

/// Whether a text is one name: not empty, and without separators and NUL.
pub open spec fn is_name(s: Seq<char>) -> bool {
    &&& s.len() > 0
    &&& forall|i: int|
        0 <= i < s.len() ==> #[trigger] s[i] != '/' && s[i] != '\\' && s[i] != '\0'
}

/// A video is asked for in order if and only if its host and its share are names, its port is not zero
/// and its path is not empty.
pub proof fn law_open_request(request: VideoOpenRequest)
    ensures
        open_request_error(request) is None <==> {
            &&& is_name(request.host@)
            &&& request.port != 0
            &&& is_name(request.share@)
            &&& request.path@.len() > 0
        },
{
    lemma_single_name(request.host@);
    lemma_single_name(request.share@);
}

/// A single name holds no separator anywhere.
proof fn lemma_single_name(s: Seq<char>)
    ensures
        crate::android::engine::is_single_name(s) == is_name(s),
{
    if crate::android::engine::is_single_name(s) {
        assert forall|i: int| 0 <= i < s.len() implies #[trigger] s[i] != '/' && s[i] != '\\'
            && s[i] != '\0' by {
            assert(s.contains(s[i]));
        }
    }
    if is_name(s) {
        assert(!s.contains('/') && !s.contains('\\') && !s.contains('\0'));
    }
}

/// A reader is configured in order if and only if it reads ahead, caches, and has chunks and requests in
/// flight, each at all.
pub proof fn law_reader_configuration(config: VideoReaderConfig)
    ensures
        config_error(config) is None <==> {
            &&& config.read_ahead_bytes > 0
            &&& config.max_cache_bytes > 0
            &&& config.pipeline.chunk_size > 0
            &&& config.pipeline.max_in_flight > 0
        },
{
}

/// A foreground read is answered as stale if and only if it gave data after its generation was over, or was
/// cancelled on its way; every other failure is its own answer.
pub proof fn law_stale_reads(data: Vec<u8>, error: BrokerError, current: bool)
    ensures
        read_is_stale(Ok(data), current) <==> !current,
        read_is_stale(Err(error), current) <==> {
            ||| error == BrokerError::Stream(StreamError::Client(ClientError::Cancelled))
            ||| error == BrokerError::Stream(StreamError::Reconnect(ReconnectError::Cancelled))
        },
{
}

/// A command of the running generation leaves its runner as it is. One of another moves the head to where
/// it reads and drops the cache, so that nothing of the old position is served; and so does a read that
/// was answered as stale, which also forgets the head.
pub proof fn law_runner_follows_generations(runner: RunnerView, generation: u64, offset: u64)
    ensures
        generation == runner.active_generation ==> runner.prepared(generation, offset) == runner,
        generation != runner.active_generation ==> {
            let now = runner.prepared(generation, offset);
            &&& now.active_generation == generation
            &&& now.reader.last_request_end == Some(offset)
            &&& now.reader.cache is None
            &&& now.reader.generation != runner.reader.generation
            &&& now.reader.config == runner.reader.config
            &&& now.reader.metrics == runner.reader.metrics
        },
        runner.dropped().active_generation == runner.active_generation,
        runner.dropped().reader.last_request_end is None,
        runner.dropped().reader.cache is None,
        runner.dropped().reader.generation != runner.reader.generation,
        runner.dropped().reader.config == runner.reader.config,
        runner.dropped().reader.metrics == runner.reader.metrics,
{
}

/// A foreground read is run as long as no seek and no close came between: it then is answered with its own
/// data, and else refused before it touches the runner. Another read does not end it.
pub proof fn law_reads_live_until_the_next_seek(
    handle: VideoBrokerHandle,
    offset: u64,
    length: usize,
    before: RunnerView,
    after: RunnerView,
    r: Result<(), BrokerError>,
    later: VideoBrokerHandle,
)
    requires
        command_prepared(
            r,
            before,
            after,
            later.cancellation.generation == handle.read_command(offset, length).generation,
            handle.read_command(offset, length).generation,
            handle.read_command(offset, length).offset,
        ),
    ensures
        handle.read_command(offset, length).offset == offset,
        handle.read_command(offset, length).length == length,
        later == handle || later == handle.prefetch_invalidated() ==> r is Ok
            && after.active_generation == handle.cancellation.generation && (
        before.active_generation == handle.cancellation.generation ==> after == before),
        later == handle.all_invalidated() ==> r == Err::<(), _>(BrokerError::StaleGeneration)
            && after == before,
{
}

/// Speculative work is run as long as no foreground read, no seek and no close came between, and is refused
/// else; where one came while it ran, it is answered as stale although it succeeded.
pub proof fn law_prefetch_lives_until_the_next_read(
    handle: VideoBrokerHandle,
    offset: u64,
    length: usize,
    taken: usize,
)
    ensures
        ({
            let command = handle.prefetch_command(offset, length);
            let stale = Err::<(), _>(BrokerError::StaleGeneration);
            let read = handle.prefetch_invalidated();
            let sought = handle.all_invalidated();
            &&& command.offset == offset
            &&& command.length == length
            &&& handle.wants(command)
            &&& !read.wants(command)
            &&& !sought.wants(command)
            &&& prefetch_answer(Ok(taken), handle.wants(command)) is Ok
            &&& prefetch_answer(Ok(taken), read.wants(command)) == stale
            &&& prefetch_answer(Ok(taken), sought.wants(command)) == stale
        }),
{
}

/// A foreground read that succeeded in its own generation is answered with its data and leaves what was
/// cached; one that was overtaken or cancelled is answered as stale, and nothing stays cached. Every
/// other failure is answered as it is.
pub proof fn law_read_answers(
    r: Result<Vec<u8>, BrokerError>,
    before: RunnerView,
    after: RunnerView,
    outcome: Result<Vec<u8>, BrokerError>,
    current: bool,
)
    requires
        read_settled(r, before, after, outcome, current),
    ensures
        r is Ok <==> outcome is Ok && current,
        r is Ok ==> r == outcome && after == before,
        outcome is Ok && !current ==> r == Err::<Vec<u8>, _>(BrokerError::StaleGeneration)
            && after.reader.cache is None,
        outcome == Err::<Vec<u8>, _>(
            BrokerError::Stream(StreamError::Client(ClientError::Cancelled)),
        ) ==> r == Err::<Vec<u8>, _>(BrokerError::StaleGeneration) && after.reader.cache is None,
        outcome == Err::<Vec<u8>, _>(BrokerError::Closed) ==> r == outcome && after == before,
{
}

/// Failures of speculative work: a cancelled one is answered as stale, every other one as it is.
pub proof fn law_prefetch_failures(error: BrokerError, wanted: bool)
    ensures
        prefetch_answer(Err(error), wanted) == Err::<(), _>(
            if error == BrokerError::Stream(StreamError::Client(ClientError::Cancelled)) || error
                == BrokerError::Stream(StreamError::Reconnect(ReconnectError::Cancelled)) {
                BrokerError::StaleGeneration
            } else {
                error
            },
        ),
{
}

/// An engine is configured in order if and only if it has worker threads and reads anything at all.
pub proof fn law_engine_configuration(config: AndroidEngineConfig)
    ensures
        engine_config_error(config) is None <==> config.runtime_worker_threads > 0
            && config.max_read_bytes > 0,
{
}

/// An error keeps what it is on its way out: only a cancellation becomes a cancellation, and every other
/// failure of the client stays that failure, to be retried or not as before.
pub proof fn law_errors_on_their_way_out(error: ClientError, other: ReconnectError)
    ensures
        mapped_error(error) == ReconnectError::Cancelled <==> error == ClientError::Cancelled,
        error != ClientError::Cancelled ==> mapped_error(error) == ReconnectError::Client(error),
        error != ClientError::Cancelled ==> reconnect_retryable(mapped_error(error)) == retryable(
            error,
        ),
        !reconnect_retryable(ReconnectError::Cancelled),
        !reconnect_retryable(ReconnectError::RandomSource),
        stream_retryable(StreamError::Client(error)) == retryable(error),
        !stream_retryable(StreamError::Reconnect(other)),
        mapped_reconnect_error(ReconnectError::Client(error)) == AndroidBridgeError::Client(error),
        mapped_reconnect_error(ReconnectError::Cancelled) == AndroidBridgeError::Stream(
            StreamError::Client(ClientError::Cancelled),
        ),
        mapped_reconnect_error(ReconnectError::RandomSource) == AndroidBridgeError::RandomSource,
{
}

/// Handles are counted on, start over behind the greatest one, and zero is never free.
pub proof fn law_handles<T>(entries: Map<u64, T>, n: u64)
    ensures
        n < u64::MAX ==> wrapped(n + 1) == n + 1,
        wrapped(u64::MAX + 1) == 0,
        !is_free(entries, 0),
        is_free(entries, n) <==> n != 0 && !entries.contains_key(n),
{
}

/// A byte of Java's signed byte type has the same eight bits: it differs by nothing or by 256 and lies
/// between -128 and 127, so that no two bytes become the same.
pub proof fn law_java_bytes(byte: u8, other: u8)
    ensures
        -128 <= java_byte(byte) <= 127,
        (java_byte(byte) - byte) % 256 == 0,
        java_byte(byte) == java_byte(other) <==> byte == other,
{
}

/// A video that is asked for is connected by a recipe of the same host, port, share and path, for the same
/// user, password, domain and workstation, which then sets its session up as that user.
pub proof fn law_video_is_connected_as_asked(
    request: VideoOpenRequest,
    host: Seq<char>,
    port: u16,
    share: Seq<char>,
    path: Seq<char>,
    username: Seq<char>,
    password: Seq<char>,
    domain: Seq<char>,
    workstation: Seq<char>,
    credentials: NtlmCredentials,
    tree: ConnectStep,
)
    requires
        request.asks_for(host, port, share, path, username, password, domain, workstation),
        username.len() > 0,
        stage_settled(
            ConnectStep::SetUpSession(Some(credentials)),
            request.recipe(),
            ConnectStage::Negotiate,
            Ok(()),
            None,
        ),
        stage_settled(tree, request.recipe(), ConnectStage::Session, Ok(()), None),
    ensures
        request.recipe().host == host,
        request.recipe().port == port,
        request.recipe().path == path,
        credentials.username@ == username,
        credentials.password@ == password,
        credentials.domain@ == domain,
        credentials.workstation@ == workstation,
        tree is ConnectTree,
        tree->ConnectTree_0@.subrange(2, 2 + host.len() as int) == host,
        tree->ConnectTree_0@.skip(3 + host.len() as int) == share,
{
    law_tree_of_a_recipe(host, share);
}

/// A read of a video is begun if and only if it asks for no more than the engine reads at once and its
/// handle is live. It has the attempts of the engine before it, all of them.
pub proof fn law_video_reads<V>(engine: AndroidEngine<V>, handle: VideoHandle, length: usize)
    ensures
        engine.read_error(handle, length) is None <==> length <= engine.max_read_bytes
            && engine.videos@.contains_key(handle.value),
        length > engine.max_read_bytes ==> engine.read_error(handle, length) == Some(
            AndroidBridgeError::ReadTooLarge { requested: length, maximum: engine.max_read_bytes },
        ),
        engine.fresh_read().max_attempts - engine.fresh_read().attempts
            == engine.read_reconnect_attempts,
        !engine.fresh_read().recovery_used,
        engine.fresh_read().backoff == engine.reconnect_backoff,
{
}

/// A hint is one for the handle, the position and the length that it was made for.
pub proof fn law_hints_from_outside(handle: i64, position: i64, length: i32)
    requires
        prefetch_call_error(handle, position, length) is None,
    ensures
        prefetch_call(handle, position, length).handle.value == handle,
        prefetch_call(handle, position, length).position == position,
        prefetch_call(handle, position, length).length == length,
{
}

/// A new broker serves its first read without moving a head, and has nothing cached to serve it from.
pub proof fn law_new_broker(
    config: VideoReaderConfig,
    file_len: u64,
    offset: u64,
    length: usize,
    r: Result<(), BrokerError>,
    after: RunnerView,
)
    requires
        command_prepared(
            r,
            fresh_runner(config),
            after,
            fresh_handle(file_len).cancellation.generation == fresh_handle(file_len).read_command(
                offset,
                length,
            ).generation,
            fresh_handle(file_len).read_command(offset, length).generation,
            offset,
        ),
    ensures
        r is Ok,
        after == fresh_runner(config),
        after.reader.config == config,
        after.reader.cache is None,
        after.reader.last_request_end is None,
        after.reader.cached_range() == Ok::<Option<(u64, u64)>, StreamError>(None),
        fresh_handle(file_len).file_len == file_len,
{
}

/// What is cached ends as far behind its beginning as there are bytes.
pub proof fn law_cached_range(reader: ReaderView)
    requires
        reader.cached_range() is Ok,
    ensures
        reader.cached_range()->Ok_0 is Some <==> reader.cache is Some,
        reader.cache is Some ==> {
            let range = reader.cached_range()->Ok_0->0;
            &&& range.0 == reader.cache->0.start
            &&& range.1 - range.0 == reader.cache->0.data.len()
        },
{
}

/// A broker serves a foreground command whenever one is ready, a background command only where none is,
/// and stops only where neither queue can bring another.
pub proof fn law_turns(interactive: QueueState, background: QueueState)
    ensures
        interactive == QueueState::Ready <==> turn_of(interactive, background) == Turn::Interactive,
        turn_of(interactive, background) == Turn::Background <==> interactive != QueueState::Ready
            && background == QueueState::Ready,
        turn_of(interactive, background) == Turn::Stop <==> interactive == QueueState::Closed
            && background == QueueState::Closed,
{
}

/// A range can be read whole if and only if it ends inside the file.
pub proof fn law_whole_ranges(offset: u64, length: usize, file_len: u64)
    ensures
        range_error(offset, length, file_len) is None <==> offset + length <= file_len,
        range_error(offset, length, file_len) is Some && offset + length <= u64::MAX ==> {
            let e = range_error(offset, length, file_len)->0;
            &&& e is OutsideFile
            &&& e->OutsideFile_offset == offset
            &&& e->OutsideFile_end == offset + length
            &&& e->OutsideFile_file_len == file_len
        },
{
}

} // verus!
