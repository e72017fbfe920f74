//! One connection shared by foreground reads and background prefetch.

use crate::client::cancellation::next_generation;
use crate::client::cancellation::ReadCancellationToken;
use crate::client::read::PipelinedReadOptions;
use crate::stream::video::config_error;
use crate::stream::video::fresh_reader;
use crate::stream::video::ReaderView;
use crate::stream::video::StreamError;
use crate::stream::video::VideoReader;
use crate::stream::video::VideoReaderConfig;
use crate::text::append_text;
use crate::text::copy_text;
use crate::text::text_begins_with;
use vstd::prelude::*;

verus! {

/// How a broker reads, and how many commands may wait.
#[derive(Debug, Clone, Copy)]
pub struct VideoBrokerConfig {
    pub reader: VideoReaderConfig,
    pub queue_capacity: usize,
}

impl Default for VideoBrokerConfig {
    fn default() -> (r: Self)
        ensures
            config_error(r.reader) is None,
            r.reader == (VideoReaderConfig {
                read_ahead_bytes: 2_097_152,
                max_cache_bytes: 8_388_608,
                pipeline: PipelinedReadOptions {
                    chunk_size: 262_144,
                    max_in_flight: 4,
                    credit_request: 32,
                },
            }),
            r.queue_capacity == 32,
    {
        VideoBrokerConfig { reader: VideoReaderConfig::default(), queue_capacity: 32 }
    }
}

/// Why a broker failed.
#[derive(Debug)]
pub enum BrokerError {
    Stream(StreamError),
    Closed,
    StaleGeneration,
    InvalidConfig(&'static str),
}

impl From<StreamError> for BrokerError {
    fn from(value: StreamError) -> (r: Self) {
        BrokerError::Stream(value)
    }
}

impl vstd::std_specs::convert::FromSpecImpl<StreamError> for BrokerError {
    open spec fn obeys_from_spec() -> bool {
        true
    }

    open spec fn from_spec(value: StreamError) -> Self {
        BrokerError::Stream(value)
    }
}

impl BrokerError {
    /// The text that describes an error. What an I/O error says of itself is left open.
    pub open spec fn has_message(self, text: Seq<char>) -> bool {
        match self {
            BrokerError::Stream(e) => {
                &&& text_begins_with(text, "stream error: "@)
                &&& e.has_message(text.skip("stream error: "@.len() as int))
            },
            BrokerError::Closed => text == "video broker is closed"@,
            BrokerError::StaleGeneration => text
                == "video broker request belongs to a stale seek generation"@,
            BrokerError::InvalidConfig(m) => text == "invalid broker configuration: "@ + m@,
        }
    }

    /// Describes the error.
    pub fn to_text(&self) -> (r: String)
        ensures
            self.has_message(r@),
    {
        match self {
            BrokerError::Stream(error) => {
                let mut out = copy_text("stream error: ");
                let detail = error.to_text();
                append_text(&mut out, detail.as_str());
                proof {
                    let n = "stream error: "@.len() as int;
                    assert(out@.take(n) =~= "stream error: "@);
                    assert(out@.skip(n) =~= detail@);
                }
                out
            },
            BrokerError::Closed => copy_text("video broker is closed"),
            BrokerError::StaleGeneration => copy_text(
                "video broker request belongs to a stale seek generation",
            ),
            BrokerError::InvalidConfig(message) => {
                let mut out = copy_text("invalid broker configuration: ");
                append_text(&mut out, message);
                out
            },
        }
    }
}

/// Checks how many commands may wait.
pub fn validate_queue_capacity(queue_capacity: usize) -> (r: Result<(), BrokerError>)
    ensures
        if queue_capacity == 0 {
            r == Err::<(), _>(
                BrokerError::InvalidConfig("queue_capacity must be greater than zero"),
            )
        } else {
            r is Ok
        },
{
    if queue_capacity == 0 {
        return Err(BrokerError::InvalidConfig("queue_capacity must be greater than zero"));
    }
    Ok(())
}

/// A foreground read that waits for its turn.
#[derive(Debug, Clone, Copy, PartialEq, Eq, Structural)]
pub struct ReadCommand {
    pub generation: u64,
    pub offset: u64,
    pub length: usize,
}

/// Speculative work that waits for its turn.
#[derive(Debug, Clone, Copy, PartialEq, Eq, Structural)]
pub struct PrefetchCommand {
    pub playback_generation: u64,
    pub prefetch_generation: u64,
    pub offset: u64,
    pub length: usize,
}

/// What became of a command that was put into the background queue without waiting.
#[derive(Debug, Clone, Copy, PartialEq, Eq, Structural)]
pub enum QueueOutcome {
    Queued,
    Full,
    Closed,
}

/// Prefetch is a hint: a full queue drops it. A closed broker remains an error.
pub fn prefetch_outcome(outcome: QueueOutcome) -> (r: Result<(), BrokerError>)
    ensures
        r == (if outcome == QueueOutcome::Closed {
            Err(BrokerError::Closed)
        } else {
            Ok(())
        }),
{
    match outcome {
        QueueOutcome::Queued => Ok(()),
        QueueOutcome::Full => Ok(()),
        QueueOutcome::Closed => Err(BrokerError::Closed),
    }
}

/// What a queue of commands shows.
#[derive(Debug, Clone, Copy, PartialEq, Eq, Structural)]
pub enum QueueState {
    Ready,
    Empty,
    Closed,
}

/// What a broker does next.
#[derive(Debug, Clone, Copy, PartialEq, Eq, Structural)]
pub enum Turn {
    /// Serve the first foreground command.
    Interactive,
    /// Serve the first background command.
    Background,
    /// Wait until one of the queues shows something else.
    Wait,
    /// No command can come any more.
    Stop,
}

/// What a broker does next.
pub open spec fn turn_of(interactive: QueueState, background: QueueState) -> Turn {
    match (interactive, background) {
        (QueueState::Ready, _) => Turn::Interactive,
        (_, QueueState::Ready) => Turn::Background,
        (QueueState::Closed, QueueState::Closed) => Turn::Stop,
        _ => Turn::Wait,
    }
}

/// Chooses what a broker does next. Foreground commands are served before background commands that
/// are ready, and a broker stops by itself only when both queues are closed.
pub fn next_turn(interactive: QueueState, background: QueueState) -> (r: Turn)
    ensures
        r == turn_of(interactive, background),
        r == Turn::Interactive <==> interactive == QueueState::Ready,
        r == Turn::Background <==> interactive != QueueState::Ready && background
            == QueueState::Ready,
        r == Turn::Stop <==> interactive == QueueState::Closed && background == QueueState::Closed,
{
    match (interactive, background) {
        (QueueState::Ready, _) => Turn::Interactive,
        (_, QueueState::Ready) => Turn::Background,
        (QueueState::Closed, QueueState::Closed) => Turn::Stop,
        _ => Turn::Wait,
    }
}

/// Control surface used by a player or an adapter.
///
/// Starting a foreground read also invalidates the speculative-I/O generation, which causes an
/// in-flight prefetch READ, reconnect, or reconnect backoff to stop before the foreground request is
/// run.
#[derive(Debug, PartialEq, Eq, Structural)]
pub struct VideoBrokerHandle {
    pub cancellation: ReadCancellationToken,
    pub prefetch_cancellation: ReadCancellationToken,
    pub file_len: u64,
}

impl VideoBrokerHandle {
    /// The handle after the speculative generation was advanced.
    pub open spec fn prefetch_invalidated(self) -> VideoBrokerHandle {
        VideoBrokerHandle {
            prefetch_cancellation: ReadCancellationToken {
                generation: next_generation(self.prefetch_cancellation.generation),
            },
            ..self
        }
    }

    /// The handle after both generations were advanced.
    pub open spec fn all_invalidated(self) -> VideoBrokerHandle {
        VideoBrokerHandle {
            cancellation: ReadCancellationToken {
                generation: next_generation(self.cancellation.generation),
            },
            ..self.prefetch_invalidated()
        }
    }

    /// A foreground read of the current playback generation.
    pub open spec fn read_command(self, offset: u64, length: usize) -> ReadCommand {
        ReadCommand { generation: self.cancellation.generation, offset, length }
    }

    /// Speculative work of the current generations.
    pub open spec fn prefetch_command(self, offset: u64, length: usize) -> PrefetchCommand {
        PrefetchCommand {
            playback_generation: self.cancellation.generation,
            prefetch_generation: self.prefetch_cancellation.generation,
            offset,
            length,
        }
    }

    /// Whether both generations of speculative work still are current.
    pub open spec fn wants(self, command: PrefetchCommand) -> bool {
        &&& self.prefetch_cancellation.generation == command.prefetch_generation
        &&& self.cancellation.generation == command.playback_generation
    }

    /// A handle in its first generations.
    pub fn new(file_len: u64) -> (r: Self)
        ensures
            r == fresh_handle(file_len),
    {
        VideoBrokerHandle {
            cancellation: ReadCancellationToken::new(),
            prefetch_cancellation: ReadCancellationToken::new(),
            file_len,
        }
    }

    pub fn generation(&self) -> (r: u64)
        ensures
            r == self.cancellation.generation,
    {
        self.cancellation.generation()
    }

    pub fn len(&self) -> (r: u64)
        ensures
            r == self.file_len,
    {
        self.file_len
    }

    pub fn is_empty(&self) -> (r: bool)
        ensures
            r == (self.file_len == 0),
    {
        self.file_len == 0
    }

    /// Invalidates all work issued under the previous logical playback position.
    pub fn seek(&mut self) -> (r: u64)
        ensures
            *final(self) == old(self).all_invalidated(),
            r == final(self).cancellation.generation,
    {
        self.prefetch_cancellation.advance();
        self.cancellation.advance()
    }

    /// Begins a foreground read.
    pub fn read(&mut self, offset: u64, length: usize) -> (r: ReadCommand)
        ensures
            *final(self) == old(self).prefetch_invalidated(),
            r == old(self).read_command(offset, length),
    {
        self.prefetch_cancellation.advance();
        ReadCommand { generation: self.cancellation.generation(), offset, length }
    }

    /// Begins speculative work for the current playback and prefetch generations.
    pub fn prefetch(&self, offset: u64, length: usize) -> (r: PrefetchCommand)
        ensures
            r == self.prefetch_command(offset, length),
    {
        PrefetchCommand {
            playback_generation: self.cancellation.generation(),
            prefetch_generation: self.prefetch_cancellation.generation(),
            offset,
            length,
        }
    }

    /// Invalidates all work before the broker is stopped.
    pub fn close(&mut self)
        ensures
            *final(self) == old(self).all_invalidated(),
    {
        self.prefetch_cancellation.advance();
        self.cancellation.advance();
    }
}

/// Owns the read-ahead and cache state of a broker.
#[derive(Debug)]
pub struct VideoBrokerRunner {
    pub reader: VideoReader,
    pub active_generation: u64,
}

/// What a runner is.
pub struct RunnerView {
    pub reader: ReaderView,
    pub active_generation: u64,
}

impl View for VideoBrokerRunner {
    type V = RunnerView;

    open spec fn view(&self) -> RunnerView {
        RunnerView { reader: self.reader@, active_generation: self.active_generation }
    }
}

impl RunnerView {
    /// The runner in a generation: one that is new to it moves the playback head.
    pub open spec fn prepared(self, generation: u64, offset: u64) -> RunnerView {
        if generation == self.active_generation {
            self
        } else {
            RunnerView {
                reader: ReaderView { last_request_end: Some(offset), ..self.reader.bumped() },
                active_generation: generation,
            }
        }
    }

    /// The runner with nothing cached.
    pub open spec fn dropped(self) -> RunnerView {
        RunnerView {
            reader: ReaderView { last_request_end: None, ..self.reader.bumped() },
            ..self
        }
    }
}

/// Whether a foreground read that has come to an end is answered as stale.
pub open spec fn read_is_stale(outcome: Result<Vec<u8>, BrokerError>, current: bool) -> bool {
    match outcome {
        Ok(_) => !current,
        Err(BrokerError::Stream(error)) => error.says_cancelled(),
        Err(_) => false,
    }
}

/// What becomes of a command that is to be run: one that is no longer wanted is refused.
pub open spec fn command_prepared(
    r: Result<(), BrokerError>,
    before: RunnerView,
    after: RunnerView,
    wanted: bool,
    generation: u64,
    offset: u64,
) -> bool {
    if wanted {
        r is Ok && after == before.prepared(generation, offset)
    } else {
        r == Err::<(), _>(BrokerError::StaleGeneration) && after == before
    }
}

/// What becomes of a foreground read that has come to an end.
pub open spec fn read_settled(
    r: Result<Vec<u8>, BrokerError>,
    before: RunnerView,
    after: RunnerView,
    outcome: Result<Vec<u8>, BrokerError>,
    current: bool,
) -> bool {
    if read_is_stale(outcome, current) {
        r == Err::<Vec<u8>, _>(BrokerError::StaleGeneration) && after == before.dropped()
    } else {
        r == outcome && after == before
    }
}

/// How speculative work that has come to an end is answered.
pub open spec fn prefetch_answer(outcome: Result<usize, BrokerError>, wanted: bool) -> Result<
    (),
    BrokerError,
> {
    match outcome {
        Ok(_) => if wanted {
            Ok(())
        } else {
            Err(BrokerError::StaleGeneration)
        },
        Err(BrokerError::Stream(error)) => if error.says_cancelled() {
            Err(BrokerError::StaleGeneration)
        } else {
            Err(BrokerError::Stream(error))
        },
        Err(error) => Err(error),
    }
}

/// The speculative work that refills the cache after a foreground read was served, if there is any.
/// A hint that cannot be had is none.
pub open spec fn refill_of(
    runner: RunnerView,
    handle: VideoBrokerHandle,
    served: ReadCommand,
) -> Option<PrefetchCommand> {
    if handle.cancellation.generation != served.generation {
        None
    } else {
        match runner.reader.hint(handle.file_len) {
            Ok(Some((offset, length))) => Some(
                PrefetchCommand {
                    playback_generation: served.generation,
                    prefetch_generation: handle.prefetch_cancellation.generation,
                    offset,
                    length,
                },
            ),
            _ => None,
        }
    }
}

/// A handle in its first generations.
pub open spec fn fresh_handle(file_len: u64) -> VideoBrokerHandle {
    VideoBrokerHandle {
        cancellation: ReadCancellationToken { generation: 0 },
        prefetch_cancellation: ReadCancellationToken { generation: 0 },
        file_len,
    }
}

/// A runner in its first generation.
pub open spec fn fresh_runner(config: VideoReaderConfig) -> RunnerView {
    RunnerView { reader: fresh_reader(config), active_generation: 0 }
}

/// Checks a configuration, and makes the two ends of a broker over a file of some length.
pub fn video_broker(config: VideoBrokerConfig, file_len: u64) -> (r: Result<
    (VideoBrokerHandle, VideoBrokerRunner),
    BrokerError,
>)
    ensures
        if config.queue_capacity == 0 {
            r == Err::<(VideoBrokerHandle, VideoBrokerRunner), _>(
                BrokerError::InvalidConfig("queue_capacity must be greater than zero"),
            )
        } else {
            match config_error(config.reader) {
                Some(e) => r == Err::<(VideoBrokerHandle, VideoBrokerRunner), _>(
                    BrokerError::Stream(e),
                ),
                None => r is Ok && r->Ok_0.0 == fresh_handle(file_len) && r->Ok_0.1@
                    == fresh_runner(config.reader),
            }
        },
{
    validate_queue_capacity(config.queue_capacity)?;
    match VideoReader::new(config.reader) {
        Err(e) => Err(BrokerError::Stream(e)),
        Ok(reader) => Ok(
            (VideoBrokerHandle::new(file_len), VideoBrokerRunner { reader, active_generation: 0 }),
        ),
    }
}

impl VideoBrokerRunner {
    /// Moves to the generation of a command, where it still is current.
    pub fn prepare_generation(
        &mut self,
        cancellation: &ReadCancellationToken,
        generation: u64,
        offset: u64,
    ) -> (r: Result<(), BrokerError>)
        ensures
            command_prepared(
                r,
                old(self)@,
                final(self)@,
                cancellation.generation == generation,
                generation,
                offset,
            ),
    {
        if !cancellation.is_current(generation) {
            return Err(BrokerError::StaleGeneration);
        }
        if generation != self.active_generation {
            self.reader.seek(offset);
            self.active_generation = generation;
        }
        Ok(())
    }

    /// Answers a foreground read. One whose generation is over gives nothing, and nothing of it
    /// stays cached.
    pub fn settle_read(&mut self, outcome: Result<Vec<u8>, BrokerError>, current: bool) -> (r: Result<
        Vec<u8>,
        BrokerError,
    >)
        ensures
            read_settled(r, old(self)@, final(self)@, outcome, current),
    {
        match outcome {
            Ok(data) => {
                if current {
                    return Ok(data);
                }
                self.reader.invalidate();
                Err(BrokerError::StaleGeneration)
            },
            Err(BrokerError::Stream(error)) => {
                if error.is_cancelled() {
                    self.reader.invalidate();
                    return Err(BrokerError::StaleGeneration);
                }
                Err(BrokerError::Stream(error))
            },
            Err(error) => Err(error),
        }
    }

    /// The speculative work that refills the cache after a foreground read was served: what the
    /// reader's low-water hint asks for, where the read's generation still is current. Without a hint
    /// there is none.
    pub fn refill_after_read(&self, handle: &VideoBrokerHandle, served: ReadCommand) -> (r: Option<
        PrefetchCommand,
    >)
        ensures
            r == refill_of(self@, *handle, served),
    {
        if !handle.cancellation.is_current(served.generation) {
            return None;
        }
        match self.reader.automatic_prefetch_hint(handle.file_len) {
            Ok(Some((offset, length))) => Some(handle.prefetch(offset, length)),
            Ok(None) => None,
            Err(_) => None,
        }
    }

    /// Moves to the generation of speculative work, where its generations still are current.
    pub fn prepare_prefetch(&mut self, handle: &VideoBrokerHandle, command: PrefetchCommand) -> (r:
        Result<(), BrokerError>)
        ensures
            command_prepared(
                r,
                old(self)@,
                final(self)@,
                handle.wants(command),
                command.playback_generation,
                command.offset,
            ),
    {
        if !handle.prefetch_cancellation.is_current(command.prefetch_generation) {
            return Err(BrokerError::StaleGeneration);
        }
        self.prepare_generation(&handle.cancellation, command.playback_generation, command.offset)
    }

    /// Answers speculative work.
    pub fn settle_prefetch(
        handle: &VideoBrokerHandle,
        command: PrefetchCommand,
        outcome: Result<usize, BrokerError>,
    ) -> (r: Result<(), BrokerError>)
        ensures
            r == prefetch_answer(outcome, handle.wants(command)),
    {
        match outcome {
            Ok(_) => {
                if handle.cancellation.is_current(command.playback_generation)
                    && handle.prefetch_cancellation.is_current(command.prefetch_generation) {
                    Ok(())
                } else {
                    Err(BrokerError::StaleGeneration)
                }
            },
            Err(BrokerError::Stream(error)) => {
                if error.is_cancelled() {
                    return Err(BrokerError::StaleGeneration);
                }
                Err(BrokerError::Stream(error))
            },
            Err(error) => Err(error),
        }
    }
}

/// A refill is current when it is made, begins at the cursor inside the cached window, and is stale
/// once the next foreground read begins. It extends the window where the file goes on behind it and
/// the cache has room.
pub proof fn law_refill_extends_the_window(
    runner: RunnerView,
    handle: VideoBrokerHandle,
    served: ReadCommand,
)
    requires
        runner.reader.wf(),
        refill_of(runner, handle, served) is Some,
    ensures
        ({
            let refill = refill_of(runner, handle, served)->0;
            let window = runner.reader.live_cache()->0;
            let extension = runner.reader.extension(handle.file_len, refill.offset, refill.length);
            &&& refill.playback_generation == handle.cancellation.generation
            &&& refill.prefetch_generation == handle.prefetch_cancellation.generation
            &&& refill.prefetch_generation
                != handle.prefetch_invalidated().prefetch_cancellation.generation
            &&& runner.reader.live_cache() is Some
            &&& window.start <= refill.offset <= window.end()
            &&& runner.reader.last_request_end == Some(refill.offset)
            &&& extension matches Ok(Some(plan)) ==> plan.offset == window.end()
            &&& refill.length > 0 && window.end() < handle.file_len && window.data.len()
                < runner.reader.config.max_cache_bytes ==> extension matches Ok(Some(_))
        }),
{
}

/// A foreground read makes every earlier prefetch stale and leaves earlier reads valid; a seek or a
/// close makes both stale.
pub proof fn law_foreground_work_comes_first(handle: VideoBrokerHandle)
    ensures
        handle.prefetch_invalidated().prefetch_cancellation.generation
            != handle.prefetch_cancellation.generation,
        handle.prefetch_invalidated().cancellation == handle.cancellation,
        handle.all_invalidated().prefetch_cancellation.generation
            != handle.prefetch_cancellation.generation,
        handle.all_invalidated().cancellation.generation != handle.cancellation.generation,
        handle.all_invalidated().file_len == handle.file_len,
{
}

} // verus!
