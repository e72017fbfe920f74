//! Read-ahead and caching for video playback.

use crate::bytes::copy_bytes;
use crate::bytes::put_bytes;
use crate::client::cancellation::next_generation;
use crate::client::cancellation::ReadCancellationToken;
use crate::client::error::ClientError;
use crate::client::read::smaller;
use crate::client::read::smaller_of;
use crate::client::read::PipelinedReadOptions;
use crate::client::reconnect::ReconnectError;
use crate::clock::nanos_of;
use crate::clock::span_nanos;
use crate::text::append_text;
use crate::text::copy_text;
use crate::text::text_begins_with;
use std::time::Duration;
use vstd::prelude::*;

verus! {

/// How far a video reader reads ahead.
#[derive(Debug, Clone, Copy, PartialEq, Eq)]
pub struct VideoReaderConfig {
    /// Target speculative read-ahead window. Cache misses fetch at most one configured
    /// pipeline wave beyond caller demand; background prefetch grows the rolling cache farther.
    pub read_ahead_bytes: usize,
    /// Maximum bytes retained in the single contiguous cache window.
    pub max_cache_bytes: usize,
    /// SMB request sizing and in-flight depth used to fill the window.
    pub pipeline: PipelinedReadOptions,
}

impl Default for VideoReaderConfig {
    fn default() -> (r: Self)
        ensures
            r.read_ahead_bytes == 2_097_152,
            r.max_cache_bytes == 8_388_608,
            r.pipeline == (PipelinedReadOptions {
                chunk_size: 262_144,
                max_in_flight: 4,
                credit_request: 32,
            }),
            config_error(r) is None,
    {
        VideoReaderConfig {
            read_ahead_bytes: 2 * 1024 * 1024,
            max_cache_bytes: 8 * 1024 * 1024,
            pipeline: PipelinedReadOptions::default(),
        }
    }
}

/// Cumulative workload measurements for one video-reader lifetime.
///
/// Timings cover successful SMB fetches end-to-end, including any reconnect delay that happened
/// before the read eventually completed. Cache-only reads never contribute network timing.
#[derive(Debug, Clone, Copy, PartialEq, Eq, Structural)]
pub struct VideoReaderMetrics {
    pub cache_hits: u64,
    pub cache_misses: u64,
    pub foreground_fetches: u64,
    pub foreground_fetch_bytes: u64,
    pub foreground_fetch_micros: u64,
    pub prefetch_fetches: u64,
    pub prefetch_fetch_bytes: u64,
    pub prefetch_fetch_micros: u64,
}

impl Default for VideoReaderMetrics {
    fn default() -> (r: Self)
        ensures
            r == no_metrics(),
    {
        VideoReaderMetrics {
            cache_hits: 0,
            cache_misses: 0,
            foreground_fetches: 0,
            foreground_fetch_bytes: 0,
            foreground_fetch_micros: 0,
            prefetch_fetches: 0,
            prefetch_fetch_bytes: 0,
            prefetch_fetch_micros: 0,
        }
    }
}

/// The measurements before anything was done.
pub open spec fn no_metrics() -> VideoReaderMetrics {
    VideoReaderMetrics {
        cache_hits: 0,
        cache_misses: 0,
        foreground_fetches: 0,
        foreground_fetch_bytes: 0,
        foreground_fetch_micros: 0,
        prefetch_fetches: 0,
        prefetch_fetch_bytes: 0,
        prefetch_fetch_micros: 0,
    }
}

/// A number, or the greatest 64-bit number where it is greater.
pub open spec fn capped(n: int) -> u64 {
    if n > u64::MAX {
        u64::MAX
    } else {
        n as u64
    }
}

/// How many bytes per second a number of bytes in a number of microseconds is.
pub open spec fn throughput_of(bytes: u64, micros: u64) -> Option<u64> {
    if bytes == 0 || micros == 0 {
        None
    } else {
        Some(capped(bytes * 1_000_000 / (micros as int)))
    }
}

/// How many bytes per second a number of bytes in a number of microseconds is.
pub fn throughput_bytes_per_second(bytes: u64, micros: u64) -> (r: Option<u64>)
    ensures
        r == throughput_of(bytes, micros),
{
    if bytes == 0 || micros == 0 {
        return None;
    }
    let per_second: u128 = (bytes as u128) * 1_000_000 / (micros as u128);
    if per_second > 0xFFFF_FFFF_FFFF_FFFF {
        Some(u64::MAX)
    } else {
        Some(per_second as u64)
    }
}

/// The length of a span in whole microseconds.
pub fn duration_micros(duration: Duration) -> (r: u64)
    ensures
        r == capped(nanos_of(duration) as int / 1000),
{
    let micros: u128 = span_nanos(duration) / 1000;
    if micros > 0xFFFF_FFFF_FFFF_FFFF {
        u64::MAX
    } else {
        micros as u64
    }
}

impl VideoReaderMetrics {
    pub fn foreground_throughput_bytes_per_second(self) -> (r: Option<u64>)
        ensures
            r == throughput_of(self.foreground_fetch_bytes, self.foreground_fetch_micros),
    {
        throughput_bytes_per_second(self.foreground_fetch_bytes, self.foreground_fetch_micros)
    }

    pub fn prefetch_throughput_bytes_per_second(self) -> (r: Option<u64>)
        ensures
            r == throughput_of(self.prefetch_fetch_bytes, self.prefetch_fetch_micros),
    {
        throughput_bytes_per_second(self.prefetch_fetch_bytes, self.prefetch_fetch_micros)
    }

    pub fn total_throughput_bytes_per_second(self) -> (r: Option<u64>)
        ensures
            r == throughput_of(
                capped(self.foreground_fetch_bytes + self.prefetch_fetch_bytes),
                capped(self.foreground_fetch_micros + self.prefetch_fetch_micros),
            ),
    {
        throughput_bytes_per_second(
            self.foreground_fetch_bytes.saturating_add(self.prefetch_fetch_bytes),
            self.foreground_fetch_micros.saturating_add(self.prefetch_fetch_micros),
        )
    }

    /// The measurements after a foreground fetch.
    pub open spec fn with_foreground(self, bytes: nat, elapsed: Duration) -> VideoReaderMetrics {
        VideoReaderMetrics {
            foreground_fetches: capped(self.foreground_fetches + 1),
            foreground_fetch_bytes: capped(self.foreground_fetch_bytes + bytes),
            foreground_fetch_micros: capped(
                self.foreground_fetch_micros + capped(nanos_of(elapsed) as int / 1000),
            ),
            ..self
        }
    }

    /// The measurements after a background fetch.
    pub open spec fn with_prefetch(self, bytes: nat, elapsed: Duration) -> VideoReaderMetrics {
        VideoReaderMetrics {
            prefetch_fetches: capped(self.prefetch_fetches + 1),
            prefetch_fetch_bytes: capped(self.prefetch_fetch_bytes + bytes),
            prefetch_fetch_micros: capped(
                self.prefetch_fetch_micros + capped(nanos_of(elapsed) as int / 1000),
            ),
            ..self
        }
    }

    /// Counts a foreground fetch.
    pub fn record_foreground_fetch(&mut self, bytes: usize, elapsed: Duration)
        ensures
            *final(self) == old(self).with_foreground(bytes as nat, elapsed),
    {
        self.foreground_fetches = self.foreground_fetches.saturating_add(1);
        self.foreground_fetch_bytes = self.foreground_fetch_bytes.saturating_add(bytes as u64);
        self.foreground_fetch_micros = self.foreground_fetch_micros.saturating_add(
            duration_micros(elapsed),
        );
    }

    /// Counts a background fetch.
    pub fn record_prefetch_fetch(&mut self, bytes: usize, elapsed: Duration)
        ensures
            *final(self) == old(self).with_prefetch(bytes as nat, elapsed),
    {
        self.prefetch_fetches = self.prefetch_fetches.saturating_add(1);
        self.prefetch_fetch_bytes = self.prefetch_fetch_bytes.saturating_add(bytes as u64);
        self.prefetch_fetch_micros = self.prefetch_fetch_micros.saturating_add(
            duration_micros(elapsed),
        );
    }
}

/// Why a stream operation failed.
#[derive(Debug)]
pub enum StreamError {
    Client(ClientError),
    Reconnect(ReconnectError),
    InvalidConfig(&'static str),
    OffsetOverflow,
}

impl From<ClientError> for StreamError {
    fn from(value: ClientError) -> (r: Self) {
        StreamError::Client(value)
    }
}

impl vstd::std_specs::convert::FromSpecImpl<ClientError> for StreamError {
    open spec fn obeys_from_spec() -> bool {
        true
    }

    open spec fn from_spec(value: ClientError) -> Self {
        StreamError::Client(value)
    }
}

impl From<ReconnectError> for StreamError {
    fn from(value: ReconnectError) -> (r: Self) {
        StreamError::Reconnect(value)
    }
}

impl vstd::std_specs::convert::FromSpecImpl<ReconnectError> for StreamError {
    open spec fn obeys_from_spec() -> bool {
        true
    }

    open spec fn from_spec(value: ReconnectError) -> Self {
        StreamError::Reconnect(value)
    }
}

impl StreamError {
    /// Whether the error says that the work was invalidated.
    pub open spec fn says_cancelled(self) -> bool {
        self == StreamError::Client(ClientError::Cancelled) || self == StreamError::Reconnect(
            ReconnectError::Cancelled,
        )
    }

    /// Whether the error says that the work was invalidated.
    pub fn is_cancelled(&self) -> (r: bool)
        ensures
            r == self.says_cancelled(),
    {
        match self {
            StreamError::Client(ClientError::Cancelled) => true,
            StreamError::Reconnect(ReconnectError::Cancelled) => true,
            _ => false,
        }
    }

    /// The text that describes an error. What an I/O error says of itself is left open.
    pub open spec fn has_message(self, text: Seq<char>) -> bool {
        match self {
            StreamError::Client(e) => {
                &&& text_begins_with(text, "SMB client error: "@)
                &&& e.has_message(text.skip("SMB client error: "@.len() as int))
            },
            StreamError::Reconnect(e) => {
                &&& text_begins_with(text, "SMB reconnect error: "@)
                &&& e.has_message(text.skip("SMB reconnect error: "@.len() as int))
            },
            StreamError::InvalidConfig(m) => text == "invalid stream configuration: "@ + m@,
            StreamError::OffsetOverflow => text == "stream offset overflow"@,
        }
    }

    /// Describes the error.
    pub fn to_text(&self) -> (r: String)
        ensures
            self.has_message(r@),
    {
        match self {
            StreamError::Client(error) => {
                let mut out = copy_text("SMB client error: ");
                let detail = error.to_text();
                append_text(&mut out, detail.as_str());
                proof {
                    let n = "SMB client error: "@.len() as int;
                    assert(out@.take(n) =~= "SMB client error: "@);
                    assert(out@.skip(n) =~= detail@);
                }
                out
            },
            StreamError::Reconnect(error) => {
                let mut out = copy_text("SMB reconnect error: ");
                let detail = error.to_text();
                append_text(&mut out, detail.as_str());
                proof {
                    let n = "SMB reconnect error: "@.len() as int;
                    assert(out@.take(n) =~= "SMB reconnect error: "@);
                    assert(out@.skip(n) =~= detail@);
                }
                out
            },
            StreamError::InvalidConfig(message) => {
                let mut out = copy_text("invalid stream configuration: ");
                append_text(&mut out, message);
                out
            },
            StreamError::OffsetOverflow => copy_text("stream offset overflow"),
        }
    }
}

/// Bytes of a file from some position on.
#[derive(Debug)]
pub struct CachedWindow {
    pub generation: u64,
    pub start: u64,
    pub data: Vec<u8>,
}

/// What a window is.
#[verifier::ext_equal]
pub struct WindowView {
    pub generation: u64,
    pub start: u64,
    pub data: Seq<u8>,
}

impl View for CachedWindow {
    type V = WindowView;

    open spec fn view(&self) -> WindowView {
        WindowView { generation: self.generation, start: self.start, data: self.data@ }
    }
}

impl WindowView {
    /// The position behind the window.
    pub open spec fn end(self) -> int {
        self.start + self.data.len()
    }

    /// Whether the window holds bytes, or why that cannot be said.
    pub open spec fn covers(self, offset: u64, length: int) -> Result<bool, StreamError> {
        if offset + length > u64::MAX {
            Err(StreamError::OffsetOverflow)
        } else if offset < self.start {
            Ok(false)
        } else if self.end() > u64::MAX {
            Err(StreamError::OffsetOverflow)
        } else {
            Ok(offset + length <= self.end())
        }
    }

    /// Bytes of the window.
    pub open spec fn part(self, offset: u64, length: int) -> Seq<u8> {
        self.data.subrange(offset - self.start, offset - self.start + length)
    }
}

impl CachedWindow {
    /// The position behind the window.
    pub fn end(&self) -> (r: Result<u64, StreamError>)
        ensures
            if self@.end() > u64::MAX {
                r == Err::<u64, _>(StreamError::OffsetOverflow)
            } else {
                r is Ok && r->Ok_0 == self@.end()
            },
    {
        match self.start.checked_add(self.data.len() as u64) {
            Some(end) => Ok(end),
            None => Err(StreamError::OffsetOverflow),
        }
    }

    /// Whether the window holds bytes.
    pub fn contains(&self, offset: u64, length: usize) -> (r: Result<bool, StreamError>)
        ensures
            r == self@.covers(offset, length as int),
    {
        let requested_end: u64 = request_end(offset, length)?;
        if offset < self.start {
            return Ok(false);
        }
        let end: u64 = self.end()?;
        Ok(requested_end <= end)
    }

    /// Bytes of the window, where it holds them.
    pub fn slice(&self, offset: u64, length: usize) -> (r: Result<Option<Vec<u8>>, StreamError>)
        ensures
            match self@.covers(offset, length as int) {
                Err(e) => r == Err::<Option<Vec<u8>>, StreamError>(e),
                Ok(false) => r == Ok::<Option<Vec<u8>>, StreamError>(None),
                Ok(true) => r is Ok && r->Ok_0 is Some && r->Ok_0->0@ == self@.part(
                    offset,
                    length as int,
                ),
            },
    {
        if !self.contains(offset, length)? {
            return Ok(None);
        }
        assert(self.data.len() == self.data@.len());
        let relative: usize = (offset - self.start) as usize;
        let end: usize = relative + length;
        Ok(Some(copy_bytes(&self.data.as_slice()[relative..end])))
    }
}

/// How a read goes on.
#[derive(Debug)]
pub enum PreparedRead {
    /// There is nothing to read.
    Empty,
    /// The cache has all of it.
    Cached(Vec<u8>),
    /// It has to be fetched.
    Fetch { target: usize, fetch_len: usize, reader_generation: u64 },
}

/// How the cache is extended in the background.
#[derive(Debug, Clone, Copy, PartialEq, Eq, Structural)]
pub struct PrefetchExtension {
    pub offset: u64,
    pub fetch_len: usize,
    pub reader_generation: u64,
    pub expected_cache_start: u64,
    pub expected_cache_len: usize,
    pub drop_prefix: usize,
}

/// Stateful video-oriented reader layered on positional SMB reads.
///
/// It keeps one bounded contiguous read-ahead window. Sequential requests are normally served from
/// that window without touching the network. A seek invalidates the window and increments a
/// generation token so future background-prefetch work can discard stale results safely.
#[derive(Debug)]
pub struct VideoReader {
    pub config: VideoReaderConfig,
    pub generation: u64,
    pub last_request_end: Option<u64>,
    pub cache: Option<CachedWindow>,
    pub metrics: VideoReaderMetrics,
}

/// What a reader is.
#[verifier::ext_equal]
pub struct ReaderView {
    pub config: VideoReaderConfig,
    pub generation: u64,
    pub last_request_end: Option<u64>,
    pub cache: Option<WindowView>,
    pub metrics: VideoReaderMetrics,
}

/// What a cache is.
pub open spec fn cache_view(cache: Option<CachedWindow>) -> Option<WindowView> {
    match cache {
        Some(window) => Some(window@),
        None => None,
    }
}

impl View for VideoReader {
    type V = ReaderView;

    open spec fn view(&self) -> ReaderView {
        ReaderView {
            config: self.config,
            generation: self.generation,
            last_request_end: self.last_request_end,
            cache: cache_view(self.cache),
            metrics: self.metrics,
        }
    }
}

/// Whether work was invalidated.
pub open spec fn invalidated(cancellation: Option<(&ReadCancellationToken, u64)>) -> bool {
    match cancellation {
        Some((token, generation)) => token.generation != generation,
        None => false,
    }
}

/// The larger of two numbers.
pub open spec fn larger(a: int, b: int) -> int {
    if a >= b {
        a
    } else {
        b
    }
}

/// The larger of two lengths.
fn larger_of(a: usize, b: usize) -> (r: usize)
    ensures
        r == larger(a as int, b as int),
{
    if a >= b {
        a
    } else {
        b
    }
}

/// The product of two lengths, or the greatest length where it is greater.
fn capped_product(a: usize, b: usize) -> (r: usize)
    ensures
        r == smaller(a * b, usize::MAX as int),
{
    match a.checked_mul(b) {
        Some(product) => product,
        None => usize::MAX,
    }
}

/// A length of a file as a length in memory.
fn capped_len(n: u64) -> (r: usize)
    ensures
        r == smaller(n as int, usize::MAX as int),
{
    if n > usize::MAX as u64 {
        usize::MAX
    } else {
        n as usize
    }
}

impl ReaderView {
    /// Where what is cached begins and ends.
    pub open spec fn cached_range(self) -> Result<Option<(u64, u64)>, StreamError> {
        match self.cache {
            None => Ok(None),
            Some(window) => if window.end() > u64::MAX {
                Err(StreamError::OffsetOverflow)
            } else {
                Ok(Some((window.start, window.end() as u64)))
            },
        }
    }

    /// Whether the cache keeps within its bound.
    pub open spec fn wf(self) -> bool {
        self.cache is Some ==> self.cache->0.data.len() <= self.config.max_cache_bytes
    }

    /// The cache, where it is not stale.
    pub open spec fn live_cache(self) -> Option<WindowView> {
        match self.cache {
            Some(window) => if window.generation == self.generation {
                Some(window)
            } else {
                None
            },
            None => None,
        }
    }

    /// The reader in its next generation, without a cache.
    pub open spec fn bumped(self) -> ReaderView {
        ReaderView { generation: next_generation(self.generation), cache: None, ..self }
    }

    /// Whether a read outside the cache is a jump, or why that cannot be said.
    pub open spec fn jumps(self, offset: u64) -> Result<bool, StreamError> {
        if self.last_request_end is None || self.last_request_end == Some(offset) {
            Ok(false)
        } else {
            match self.live_cache() {
                None => Ok(true),
                Some(window) => if window.end() > u64::MAX {
                    Err(StreamError::OffsetOverflow)
                } else {
                    Ok(!(window.start <= offset <= window.end()))
                },
            }
        }
    }

    /// How much a miss fetches: what is wanted, one pipeline wave where that is more, and never more
    /// than the file has or the cache takes unless that much is wanted.
    pub open spec fn fetch_len_of(self, target: int, remaining: int) -> int {
        let wave = smaller(
            smaller(
                self.config.pipeline.chunk_size * self.config.pipeline.max_in_flight,
                usize::MAX as int,
            ),
            self.config.read_ahead_bytes as int,
        );
        if target > self.config.max_cache_bytes {
            target
        } else {
            smaller(
                smaller(larger(target, wave), self.config.max_cache_bytes as int),
                smaller(remaining, usize::MAX as int),
            )
        }
    }

    /// What a hit leaves behind.
    pub open spec fn hit(self, end: int) -> ReaderView {
        ReaderView {
            last_request_end: Some(end as u64),
            metrics: VideoReaderMetrics {
                cache_hits: capped(self.metrics.cache_hits + 1),
                ..self.metrics
            },
            ..self
        }
    }

    /// What a miss leaves behind, before its jump is looked at.
    pub open spec fn missed(self) -> ReaderView {
        ReaderView {
            metrics: VideoReaderMetrics {
                cache_misses: capped(self.metrics.cache_misses + 1),
                ..self.metrics
            },
            ..self
        }
    }

    /// The low-water hint for the current cursor, or why there is none to be had.
    pub open spec fn hint(self, file_len: u64) -> Result<Option<(u64, usize)>, StreamError> {
        if self.last_request_end is None || self.last_request_end->0 >= file_len {
            Ok(None)
        } else {
            let cursor = self.last_request_end->0;
            match self.live_cache() {
                None => Ok(None),
                Some(window) => if window.end() > u64::MAX {
                    Err(StreamError::OffsetOverflow)
                } else if cursor < window.start || cursor > window.end() {
                    Ok(None)
                } else if window.end() - cursor > larger(self.config.read_ahead_bytes as int / 2, 1) {
                    Ok(None)
                } else {
                    Ok(Some((cursor, self.config.read_ahead_bytes)))
                },
            }
        }
    }

    /// How many bytes of the window lie so far behind the cursor that they may go.
    pub open spec fn droppable(self, window: WindowView) -> int {
        let cursor = match self.last_request_end {
            Some(cursor) => cursor,
            None => window.start,
        };
        let back = smaller(
            self.config.read_ahead_bytes as int,
            self.config.max_cache_bytes as int,
        );
        larger(larger(cursor - back, 0), window.start as int) - window.start
    }

    /// The plan of a background extension, or why there is none to be had.
    pub open spec fn extension(self, file_len: u64, hint_offset: u64, hint_length: usize) -> Result<
        Option<PrefetchExtension>,
        StreamError,
    > {
        if hint_length == 0 || hint_offset >= file_len {
            Ok(None)
        } else {
            match self.live_cache() {
                None => Ok(None),
                Some(window) => {
                    let dropped = self.droppable(window);
                    let retained = window.data.len() - dropped;
                    let room = self.config.max_cache_bytes - retained;
                    let fetch = smaller(
                        smaller(self.config.read_ahead_bytes as int, room),
                        smaller(file_len - window.end(), usize::MAX as int),
                    );
                    if window.end() > u64::MAX {
                        Err(StreamError::OffsetOverflow)
                    } else if hint_offset < window.start || hint_offset > window.end()
                        || window.end() >= file_len {
                        Ok(None)
                    } else if retained < 0 || room < 0 {
                        Err(StreamError::OffsetOverflow)
                    } else if fetch == 0 {
                        Ok(None)
                    } else {
                        Ok(
                            Some(
                                PrefetchExtension {
                                    offset: window.end() as u64,
                                    fetch_len: fetch as usize,
                                    reader_generation: self.generation,
                                    expected_cache_start: window.start,
                                    expected_cache_len: window.data.len() as usize,
                                    drop_prefix: dropped as usize,
                                },
                            ),
                        )
                    }
                },
            }
        }
    }

    /// Whether the cache is as it was when a plan was made.
    pub open spec fn still_fits(self, plan: PrefetchExtension) -> bool {
        &&& plan.reader_generation == self.generation
        &&& self.live_cache() is Some
        &&& self.cache->0.start == plan.expected_cache_start
        &&& self.cache->0.data.len() == plan.expected_cache_len
        &&& self.cache->0.end() == plan.offset
        &&& plan.drop_prefix <= self.cache->0.data.len()
    }

    /// How much of what was fetched goes into the cache.
    pub open spec fn append_len(self, plan: PrefetchExtension, fetched: Seq<u8>) -> int {
        smaller(
            fetched.len() as int,
            self.config.max_cache_bytes - (self.cache->0.data.len() - plan.drop_prefix),
        )
    }

    /// The reader after a background extension.
    pub open spec fn extended(self, plan: PrefetchExtension, fetched: Seq<u8>) -> ReaderView {
        let window = self.cache->0;
        ReaderView {
            cache: Some(
                WindowView {
                    generation: window.generation,
                    start: (window.start + plan.drop_prefix) as u64,
                    data: window.data.skip(plan.drop_prefix as int) + fetched.take(
                        self.append_len(plan, fetched),
                    ),
                },
            ),
            ..self
        }
    }

    /// The reader after what a read fetched was taken.
    pub open spec fn fetched(self, offset: u64, target: int, fetched: Seq<u8>) -> ReaderView {
        ReaderView {
            last_request_end: Some((offset + smaller(target, fetched.len() as int)) as u64),
            cache: if fetched.len() <= self.config.max_cache_bytes {
                Some(WindowView { generation: self.generation, start: offset, data: fetched })
            } else {
                None
            },
            ..self
        }
    }
}

/// What a read of a reader comes to: its plan, and the reader afterwards.
pub open spec fn read_planned(
    r: Result<PreparedRead, StreamError>,
    reader: ReaderView,
    after: ReaderView,
    file_len: u64,
    offset: u64,
    length: usize,
    stale: bool,
) -> bool {
    let target = smaller(length as int, file_len - offset);
    let live = reader.live_cache();
    let covered = match live {
        Some(window) => window.covers(offset, target),
        None => Ok(false),
    };
    let missed = reader.missed();
    if stale {
        r == Err::<PreparedRead, _>(StreamError::Client(ClientError::Cancelled)) && after == reader
    } else if length == 0 || offset >= file_len {
        r == Ok::<PreparedRead, StreamError>(PreparedRead::Empty) && after == reader
    } else if covered is Err {
        r == Err::<PreparedRead, StreamError>(covered->Err_0) && after == reader
    } else if covered->Ok_0 {
        &&& r is Ok && r->Ok_0 is Cached && r->Ok_0->Cached_0@ == live->0.part(offset, target)
        &&& after == reader.hit(offset + target)
    } else {
        match reader.jumps(offset) {
            Err(e) => r == Err::<PreparedRead, StreamError>(e) && after == missed,
            Ok(jumped) => {
                &&& after == if jumped {
                    missed.bumped()
                } else {
                    missed
                }
                &&& r == Ok::<PreparedRead, StreamError>(
                    PreparedRead::Fetch {
                        target: target as usize,
                        fetch_len: reader.fetch_len_of(target, file_len - offset) as usize,
                        reader_generation: after.generation,
                    },
                )
            },
        }
    }
}

/// Whether what a read fetched was taken as it should be.
pub open spec fn fetch_taken(
    r: Result<Vec<u8>, StreamError>,
    reader: ReaderView,
    after: ReaderView,
    offset: u64,
    target: usize,
    reader_generation: u64,
    fetched: Seq<u8>,
    stale: bool,
) -> bool {
    let returned = smaller(target as int, fetched.len() as int);
    if stale {
        r == Err::<Vec<u8>, _>(StreamError::Client(ClientError::Cancelled)) && after == reader
    } else if reader_generation != reader.generation {
        r is Ok && r->Ok_0@.len() == 0 && after == reader
    } else if offset + returned > u64::MAX {
        r == Err::<Vec<u8>, _>(StreamError::OffsetOverflow) && after == reader
    } else {
        r is Ok && r->Ok_0@ == fetched.take(returned) && after == reader.fetched(
            offset,
            target as int,
            fetched,
        )
    }
}

/// Whether what was fetched in the background was taken as it should be.
pub open spec fn extension_taken(
    r: Result<usize, StreamError>,
    reader: ReaderView,
    after: ReaderView,
    plan: PrefetchExtension,
    fetched: Seq<u8>,
    stale: bool,
) -> bool {
    if stale {
        r == Err::<usize, _>(StreamError::Client(ClientError::Cancelled)) && after == reader
    } else if plan.reader_generation == reader.generation && reader.live_cache() is Some
        && reader.cache->0.start == plan.expected_cache_start && reader.cache->0.data.len()
        == plan.expected_cache_len && reader.cache->0.end() > u64::MAX {
        r == Err::<usize, _>(StreamError::OffsetOverflow) && after == reader
    } else if !reader.still_fits(plan) {
        r == Ok::<usize, StreamError>(0) && after == reader
    } else {
        r is Ok && r->Ok_0 == reader.append_len(plan, fetched) && after == reader.extended(
            plan,
            fetched,
        )
    }
}

/// The position behind a read.
pub fn request_end(offset: u64, length: usize) -> (r: Result<u64, StreamError>)
    ensures
        if offset + length > u64::MAX {
            r == Err::<u64, _>(StreamError::OffsetOverflow)
        } else {
            r is Ok && r->Ok_0 == offset + length
        },
{
    match offset.checked_add(length as u64) {
        Some(end) => Ok(end),
        None => Err(StreamError::OffsetOverflow),
    }
}

/// How much of a read lies inside the file.
pub fn target_len(file_len: u64, offset: u64, length: usize) -> (r: usize)
    requires
        offset <= file_len,
    ensures
        r == smaller(length as int, file_len - offset),
{
    let remaining: u64 = file_len - offset;
    if length as u64 <= remaining {
        length
    } else {
        remaining as usize
    }
}

/// Checks that work was not invalidated.
pub fn ensure_not_cancelled(cancellation: Option<(&ReadCancellationToken, u64)>) -> (r: Result<
    (),
    StreamError,
>)
    ensures
        if invalidated(cancellation) {
            r == Err::<(), _>(StreamError::Client(ClientError::Cancelled))
        } else {
            r is Ok
        },
{
    match cancellation {
        Some((token, generation)) => {
            if token.is_current(generation) {
                Ok(())
            } else {
                Err(StreamError::Client(ClientError::Cancelled))
            }
        },
        None => Ok(()),
    }
}

/// Why a configuration is not accepted, if it is not.
pub open spec fn config_error(config: VideoReaderConfig) -> Option<StreamError> {
    if config.read_ahead_bytes == 0 {
        Some(StreamError::InvalidConfig("read_ahead_bytes must be greater than zero"))
    } else if config.max_cache_bytes == 0 {
        Some(StreamError::InvalidConfig("max_cache_bytes must be greater than zero"))
    } else if config.pipeline.chunk_size == 0 {
        Some(StreamError::InvalidConfig("pipeline chunk_size must be greater than zero"))
    } else if config.pipeline.max_in_flight == 0 {
        Some(StreamError::InvalidConfig("pipeline max_in_flight must be greater than zero"))
    } else {
        None
    }
}

/// A reader that has read nothing yet.
pub open spec fn fresh_reader(config: VideoReaderConfig) -> ReaderView {
    ReaderView {
        config,
        generation: 0,
        last_request_end: None,
        cache: None,
        metrics: no_metrics(),
    }
}

/// Checks a configuration.
pub fn validate_config(config: VideoReaderConfig) -> (r: Result<(), StreamError>)
    ensures
        match config_error(config) {
            Some(e) => r == Err::<(), StreamError>(e),
            None => r is Ok,
        },
{
    if config.read_ahead_bytes == 0 {
        return Err(StreamError::InvalidConfig("read_ahead_bytes must be greater than zero"));
    }
    if config.max_cache_bytes == 0 {
        return Err(StreamError::InvalidConfig("max_cache_bytes must be greater than zero"));
    }
    if config.pipeline.chunk_size == 0 {
        return Err(StreamError::InvalidConfig("pipeline chunk_size must be greater than zero"));
    }
    if config.pipeline.max_in_flight == 0 {
        return Err(StreamError::InvalidConfig("pipeline max_in_flight must be greater than zero"));
    }
    Ok(())
}

impl VideoReader {
    /// A reader with nothing cached.
    pub fn new(config: VideoReaderConfig) -> (r: Result<Self, StreamError>)
        ensures
            match config_error(config) {
                Some(e) => r == Err::<VideoReader, StreamError>(e),
                None => r is Ok && r->Ok_0@ == fresh_reader(config) && r->Ok_0@.wf(),
            },
    {
        validate_config(config)?;
        Ok(
            VideoReader {
                config,
                generation: 0,
                last_request_end: None,
                cache: None,
                metrics: VideoReaderMetrics::default(),
            },
        )
    }

    pub fn generation(&self) -> (r: u64)
        ensures
            r == self@.generation,
    {
        self.generation
    }

    pub fn is_current_generation(&self, generation: u64) -> (r: bool)
        ensures
            r == (self@.generation == generation),
    {
        self.generation == generation
    }

    pub fn cached_bytes(&self) -> (r: usize)
        ensures
            r == match self@.cache {
                Some(window) => window.data.len(),
                None => 0,
            },
    {
        match &self.cache {
            Some(cache) => cache.data.len(),
            None => 0,
        }
    }

    pub fn metrics(&self) -> (r: VideoReaderMetrics)
        ensures
            r == self@.metrics,
    {
        self.metrics
    }

    /// Where the cached bytes begin and end in the file.
    pub fn cached_range(&self) -> (r: Result<Option<(u64, u64)>, StreamError>)
        ensures
            r == self@.cached_range(),
    {
        match &self.cache {
            None => Ok(None),
            Some(cache) => {
                let end: u64 = cache.end()?;
                Ok(Some((cache.start, end)))
            },
        }
    }

    /// Returns a low-water speculative refill hint for the current sequential cursor.
    ///
    /// The broker uses this after delivering a foreground read. No network I/O happens here.
    pub fn automatic_prefetch_hint(&self, file_len: u64) -> (r: Result<
        Option<(u64, usize)>,
        StreamError,
    >)
        ensures
            r == self@.hint(file_len),
    {
        let cursor: u64 = match self.last_request_end {
            Some(cursor) => cursor,
            None => {
                return Ok(None);
            },
        };
        if cursor >= file_len {
            return Ok(None);
        }
        match &self.cache {
            None => Ok(None),
            Some(cache) => {
                if cache.generation != self.generation {
                    return Ok(None);
                }
                let cache_end: u64 = cache.end()?;
                if cursor < cache.start || cursor > cache_end {
                    return Ok(None);
                }
                let low_water: usize = larger_of(self.config.read_ahead_bytes / 2, 1);
                if capped_len(cache_end - cursor) > low_water {
                    return Ok(None);
                }
                Ok(Some((cursor, self.config.read_ahead_bytes)))
            },
        }
    }

    /// Explicitly moves the logical playback head and invalidates stale read-ahead data.
    pub fn seek(&mut self, offset: u64) -> (r: u64)
        ensures
            final(self)@ == (ReaderView { last_request_end: Some(offset), ..old(self)@.bumped() }),
            r == final(self)@.generation,
    {
        self.bump_generation();
        self.cache = None;
        self.last_request_end = Some(offset);
        self.generation
    }

    /// Forgets the playback head and invalidates stale read-ahead data.
    pub fn invalidate(&mut self) -> (r: u64)
        ensures
            final(self)@ == (ReaderView { last_request_end: None, ..old(self)@.bumped() }),
            r == final(self)@.generation,
    {
        self.bump_generation();
        self.cache = None;
        self.last_request_end = None;
        self.generation
    }

    fn bump_generation(&mut self)
        ensures
            final(self)@ == (ReaderView {
                generation: next_generation(old(self)@.generation),
                ..old(self)@
            }),
            final(self).cache == old(self).cache,
    {
        self.generation = self.generation.wrapping_add(1);
    }

    /// Whether a read outside the cache is a jump.
    fn is_seek_miss(&self, offset: u64) -> (r: Result<bool, StreamError>)
        ensures
            r == self@.jumps(offset),
    {
        let last_end: u64 = match self.last_request_end {
            Some(last_end) => last_end,
            None => {
                return Ok(false);
            },
        };
        if offset == last_end {
            return Ok(false);
        }
        match &self.cache {
            Some(cache) => {
                if cache.generation == self.generation {
                    let cache_end: u64 = cache.end()?;
                    if offset >= cache.start && offset <= cache_end {
                        return Ok(false);
                    }
                }
            },
            None => {},
        }
        Ok(true)
    }

    /// How much a miss fetches.
    fn fetch_len(&self, target: usize, remaining: u64) -> (r: usize)
        ensures
            r == self@.fetch_len_of(target as int, remaining as int),
    {
        // Keep foreground miss/seek latency to one configured pipeline wave. The broker's
        // low-water refill extends the cache in the background after the requested bytes return.
        let wave: usize = smaller_of(
            capped_product(self.config.pipeline.chunk_size, self.config.pipeline.max_in_flight),
            self.config.read_ahead_bytes,
        );
        if target > self.config.max_cache_bytes {
            target
        } else {
            smaller_of(
                smaller_of(larger_of(target, wave), self.config.max_cache_bytes),
                capped_len(remaining),
            )
        }
    }

    /// Plans a read: from the cache where it has all of it, and otherwise as one fetch.
    pub fn prepare_read(
        &mut self,
        file_len: u64,
        offset: u64,
        length: usize,
        cancellation: Option<(&ReadCancellationToken, u64)>,
    ) -> (r: Result<PreparedRead, StreamError>)
        ensures
            read_planned(
                r,
                old(self)@,
                final(self)@,
                file_len,
                offset,
                length,
                invalidated(cancellation),
            ),
            old(self)@.wf() ==> final(self)@.wf(),
    {
        ensure_not_cancelled(cancellation)?;
        if length == 0 || offset >= file_len {
            return Ok(PreparedRead::Empty);
        }
        let target: usize = target_len(file_len, offset, length);
        let cached: Option<Vec<u8>> = match &self.cache {
            Some(cache) => {
                if cache.generation == self.generation {
                    cache.slice(offset, target)?
                } else {
                    None
                }
            },
            None => None,
        };
        match cached {
            Some(data) => {
                self.last_request_end = Some(offset + target as u64);
                self.metrics.cache_hits = self.metrics.cache_hits.saturating_add(1);
                return Ok(PreparedRead::Cached(data));
            },
            None => {},
        }
        self.metrics.cache_misses = self.metrics.cache_misses.saturating_add(1);
        if self.is_seek_miss(offset)? {
            self.bump_generation();
            self.cache = None;
        }
        let fetch_len: usize = self.fetch_len(target, file_len - offset);
        Ok(PreparedRead::Fetch { target, fetch_len, reader_generation: self.generation })
    }

    /// Plans a background extension of the cache from its end on. The plan moves nothing yet.
    ///
    /// The hint must point inside the current cache or exactly at its end. Unrelated/far-away hints,
    /// EOF, and absent caches are ignored. A full cache may roll forward only when already-consumed
    /// prefix bytes can be reclaimed without evicting data around the foreground cursor.
    pub fn prepare_prefetch_extension(
        &self,
        file_len: u64,
        hint_offset: u64,
        hint_length: usize,
        cancellation: Option<(&ReadCancellationToken, u64)>,
    ) -> (r: Result<Option<PrefetchExtension>, StreamError>)
        ensures
            r == (if invalidated(cancellation) {
                Err(StreamError::Client(ClientError::Cancelled))
            } else {
                self@.extension(file_len, hint_offset, hint_length)
            }),
    {
        ensure_not_cancelled(cancellation)?;
        if hint_length == 0 || hint_offset >= file_len {
            return Ok(None);
        }
        let cache = match &self.cache {
            Some(cache) => cache,
            None => {
                return Ok(None);
            },
        };
        if cache.generation != self.generation {
            return Ok(None);
        }
        let cache_end: u64 = cache.end()?;
        if hint_offset < cache.start || hint_offset > cache_end || cache_end >= file_len {
            return Ok(None);
        }
        // Drop only data safely behind the actual foreground cursor. An explicit prefetch hint is
        // allowed to point farther ahead, but it must never evict bytes the player has not consumed.
        let cursor: u64 = match self.last_request_end {
            Some(cursor) => cursor,
            None => cache.start,
        };
        let retain_back: usize = smaller_of(
            self.config.read_ahead_bytes,
            self.config.max_cache_bytes,
        );
        let behind: u64 = cursor.saturating_sub(retain_back as u64);
        let keep_from: u64 = if behind >= cache.start {
            behind
        } else {
            cache.start
        };
        let dropped: u64 = keep_from - cache.start;
        let len: usize = cache.data.len();
        if dropped > len as u64 {
            return Err(StreamError::OffsetOverflow);
        }
        let retained_len: usize = len - dropped as usize;
        if retained_len > self.config.max_cache_bytes {
            return Err(StreamError::OffsetOverflow);
        }
        let fetch_len: usize = smaller_of(
            smaller_of(self.config.read_ahead_bytes, self.config.max_cache_bytes - retained_len),
            capped_len(file_len - cache_end),
        );
        if fetch_len == 0 {
            return Ok(None);
        }
        Ok(
            Some(
                PrefetchExtension {
                    offset: cache_end,
                    fetch_len,
                    reader_generation: self.generation,
                    expected_cache_start: cache.start,
                    expected_cache_len: len,
                    drop_prefix: dropped as usize,
                },
            ),
        )
    }

    /// Takes what a read fetched: the wanted part is handed out, and all of it is cached where it
    /// fits.
    pub fn finish_fetch(
        &mut self,
        offset: u64,
        target: usize,
        reader_generation: u64,
        fetched: Vec<u8>,
        cancellation: Option<(&ReadCancellationToken, u64)>,
    ) -> (r: Result<Vec<u8>, StreamError>)
        ensures
            fetch_taken(
                r,
                old(self)@,
                final(self)@,
                offset,
                target,
                reader_generation,
                fetched@,
                invalidated(cancellation),
            ),
            old(self)@.wf() ==> final(self)@.wf(),
    {
        ensure_not_cancelled(cancellation)?;
        if reader_generation != self.generation {
            return Ok(Vec::new());
        }
        let returned_len: usize = smaller_of(target, fetched.len());
        let result = copy_bytes(&fetched.as_slice()[0..returned_len]);
        assert(result@ =~= fetched@.take(returned_len as int));
        let end: u64 = request_end(offset, returned_len)?;
        self.last_request_end = Some(end);
        if fetched.len() <= self.config.max_cache_bytes {
            self.cache = Some(
                CachedWindow { generation: reader_generation, start: offset, data: fetched },
            );
        } else {
            self.cache = None;
        }
        Ok(result)
    }

    /// Takes what was fetched in the background: it joins the cache, where that is as it was when
    /// the plan was made.
    pub fn finish_prefetch_extension(
        &mut self,
        plan: PrefetchExtension,
        fetched: Vec<u8>,
        cancellation: Option<(&ReadCancellationToken, u64)>,
    ) -> (r: Result<usize, StreamError>)
        requires
            old(self)@.wf(),
        ensures
            extension_taken(
                r,
                old(self)@,
                final(self)@,
                plan,
                fetched@,
                invalidated(cancellation),
            ),
            final(self)@.wf(),
    {
        ensure_not_cancelled(cancellation)?;
        if plan.reader_generation != self.generation {
            return Ok(0);
        }
        let kept: Option<(u64, u64, Vec<u8>)> = match &self.cache {
            None => None,
            Some(cache) => {
                if cache.generation != plan.reader_generation || cache.start
                    != plan.expected_cache_start || cache.data.len() != plan.expected_cache_len {
                    None
                } else {
                    let end: u64 = cache.end()?;
                    let len: usize = cache.data.len();
                    if end != plan.offset || plan.drop_prefix > len {
                        None
                    } else {
                        let rest = copy_bytes(&cache.data.as_slice()[plan.drop_prefix..len]);
                        assert(rest@ =~= cache.data@.skip(plan.drop_prefix as int));
                        Some((cache.generation, cache.start + plan.drop_prefix as u64, rest))
                    }
                }
            },
        };
        match kept {
            None => Ok(0),
            Some((generation, start, data)) => {
                let mut data = data;
                let capacity: usize = self.config.max_cache_bytes - data.len();
                let append_len: usize = smaller_of(fetched.len(), capacity);
                let more = &fetched.as_slice()[0..append_len];
                assert(more@ =~= fetched@.take(append_len as int));
                put_bytes(&mut data, more);
                self.cache = Some(CachedWindow { generation, start, data });
                Ok(append_len)
            },
        }
    }

    /// Counts a foreground fetch and takes what it gave.
    pub fn complete_read(
        &mut self,
        offset: u64,
        target: usize,
        reader_generation: u64,
        fetched: Vec<u8>,
        elapsed: Duration,
        cancellation: Option<(&ReadCancellationToken, u64)>,
    ) -> (r: Result<Vec<u8>, StreamError>)
        ensures
            fetch_taken(
                r,
                ReaderView {
                    metrics: old(self)@.metrics.with_foreground(fetched@.len(), elapsed),
                    ..old(self)@
                },
                final(self)@,
                offset,
                target,
                reader_generation,
                fetched@,
                invalidated(cancellation),
            ),
            old(self)@.wf() ==> final(self)@.wf(),
    {
        self.metrics.record_foreground_fetch(fetched.len(), elapsed);
        self.finish_fetch(offset, target, reader_generation, fetched, cancellation)
    }

    /// Counts a background fetch and takes what it gave.
    pub fn complete_prefetch(
        &mut self,
        plan: PrefetchExtension,
        fetched: Vec<u8>,
        elapsed: Duration,
        cancellation: Option<(&ReadCancellationToken, u64)>,
    ) -> (r: Result<usize, StreamError>)
        requires
            old(self)@.wf(),
        ensures
            extension_taken(
                r,
                ReaderView {
                    metrics: old(self)@.metrics.with_prefetch(fetched@.len(), elapsed),
                    ..old(self)@
                },
                final(self)@,
                plan,
                fetched@,
                invalidated(cancellation),
            ),
            final(self)@.wf(),
    {
        self.metrics.record_prefetch_fetch(fetched.len(), elapsed);
        self.finish_prefetch_extension(plan, fetched, cancellation)
    }
}

/// Whether the bytes that a reader would serve from its cache are those of a file.
pub open spec fn caches_file(reader: ReaderView, content: Seq<u8>) -> bool {
    match reader.live_cache() {
        None => true,
        Some(window) => window.end() <= content.len() && window.data == content.subrange(
            window.start as int,
            window.end(),
        ),
    }
}

/// A read that is served from the cache gives exactly the bytes of the file, up to its end, and
/// planning a read leaves in the cache nothing but bytes of the file.
pub proof fn law_cached_reads_are_file_bytes(
    r: Result<PreparedRead, StreamError>,
    reader: ReaderView,
    after: ReaderView,
    content: Seq<u8>,
    file_len: u64,
    offset: u64,
    length: usize,
    stale: bool,
)
    requires
        file_len == content.len(),
        caches_file(reader, content),
        read_planned(r, reader, after, file_len, offset, length, stale),
    ensures
        caches_file(after, content),
        r is Ok && r->Ok_0 is Cached ==> r->Ok_0->Cached_0@ == content.subrange(
            offset as int,
            offset + smaller(length as int, file_len - offset),
        ),
{
    let target = smaller(length as int, file_len - offset);
    if r is Ok && r->Ok_0 is Cached {
        let window = reader.live_cache()->0;
        assert(window.part(offset, target) =~= content.subrange(offset as int, offset + target));
    }
}

/// What a read that was fetched from the file hands out is what stands in the file, and its cache
/// then holds nothing but bytes of the file.
pub proof fn law_fetched_reads_are_file_bytes(
    r: Result<Vec<u8>, StreamError>,
    reader: ReaderView,
    after: ReaderView,
    content: Seq<u8>,
    offset: u64,
    target: usize,
    reader_generation: u64,
    fetched: Seq<u8>,
    stale: bool,
)
    requires
        caches_file(reader, content),
        offset + fetched.len() <= content.len(),
        fetched == content.subrange(offset as int, offset + fetched.len()),
        fetch_taken(r, reader, after, offset, target, reader_generation, fetched, stale),
    ensures
        caches_file(after, content),
        r is Ok && reader_generation == reader.generation ==> r->Ok_0@ == content.subrange(
            offset as int,
            offset + smaller(target as int, fetched.len() as int),
        ),
{
    let n = smaller(target as int, fetched.len() as int);
    assert(fetched.take(n) =~= content.subrange(offset as int, offset + n));
}

/// A background extension with bytes of the file leaves in the cache nothing but bytes of the file,
/// and it never moves the playback cursor or the generation.
pub proof fn law_extensions_are_file_bytes(
    r: Result<usize, StreamError>,
    reader: ReaderView,
    after: ReaderView,
    content: Seq<u8>,
    plan: PrefetchExtension,
    fetched: Seq<u8>,
    stale: bool,
)
    requires
        reader.wf(),
        caches_file(reader, content),
        plan.offset + fetched.len() <= content.len(),
        fetched == content.subrange(plan.offset as int, plan.offset + fetched.len()),
        extension_taken(r, reader, after, plan, fetched, stale),
    ensures
        caches_file(after, content),
        after.last_request_end == reader.last_request_end,
        after.generation == reader.generation,
{
    if !stale && reader.still_fits(plan) && reader.cache->0.end() <= u64::MAX {
        let window = after.cache->0;
        assert(window.data =~= content.subrange(window.start as int, window.end()));
    }
}

/// A background extension that was planned for a reader keeps every cached byte that the player has
/// not consumed, and adds behind them.
pub proof fn law_extensions_keep_unconsumed_bytes(
    reader: ReaderView,
    file_len: u64,
    hint_offset: u64,
    hint_length: usize,
    fetched: Seq<u8>,
)
    requires
        reader.wf(),
        reader.extension(file_len, hint_offset, hint_length) is Ok,
        reader.extension(file_len, hint_offset, hint_length)->Ok_0 is Some,
    ensures
        ({
            let plan = reader.extension(file_len, hint_offset, hint_length)->Ok_0->0;
            let before = reader.cache->0;
            let after = reader.extended(plan, fetched).cache->0;
            let cursor = match reader.last_request_end {
                Some(cursor) => cursor,
                None => before.start,
            };
            &&& reader.still_fits(plan)
            &&& before.start <= after.start
            &&& after.start <= larger(cursor as int, before.start as int)
            &&& after.end() >= before.end()
            &&& after.data.take(before.end() - after.start) == before.data.skip(
                after.start - before.start,
            )
            &&& after.data.len() <= reader.config.max_cache_bytes
            &&& plan.offset + plan.fetch_len <= file_len
        }),
{
    let plan = reader.extension(file_len, hint_offset, hint_length)->Ok_0->0;
    let before = reader.cache->0;
    let after = reader.extended(plan, fetched).cache->0;
    assert(after.data.take(before.end() - after.start) =~= before.data.skip(
        after.start - before.start,
    ));
}

/// A seek or an invalidation makes every plan that was made before it stale: what such a plan
/// fetched is neither handed out nor cached.
pub proof fn law_stale_plans_change_nothing(
    reader: ReaderView,
    last_request_end: Option<u64>,
    plan: PrefetchExtension,
    appended: Result<usize, StreamError>,
    read: Result<Vec<u8>, StreamError>,
    after: ReaderView,
    after_read: ReaderView,
    offset: u64,
    target: usize,
    fetched: Seq<u8>,
)
    requires
        plan.reader_generation == reader.generation,
        extension_taken(
            appended,
            ReaderView { last_request_end, ..reader.bumped() },
            after,
            plan,
            fetched,
            false,
        ),
        fetch_taken(
            read,
            ReaderView { last_request_end, ..reader.bumped() },
            after_read,
            offset,
            target,
            reader.generation,
            fetched,
            false,
        ),
    ensures
        appended == Ok::<usize, StreamError>(0),
        after == (ReaderView { last_request_end, ..reader.bumped() }),
        read is Ok && read->Ok_0@.len() == 0,
        after_read == after,
{
}

} // verus!
