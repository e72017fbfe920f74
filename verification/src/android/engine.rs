//! Long-lived owner of open videos behind opaque handles.

use crate::android::reconnect::is_retryable_stream_error;
use crate::android::reconnect::stream_retryable;
use crate::client::error::ClientError;
use crate::client::error::io_error_text;
use crate::client::file::FileHandle;
use crate::client::read::PipelinedReadOptions;
use crate::client::reconnect::fresh_recipe;
use crate::client::reconnect::is_retryable_client_error;
use crate::client::reconnect::retryable;
use crate::client::reconnect::ReadOnlyReconnectRecipe;
use crate::client::reconnect::RecipeView;
use crate::client::reconnect::ReconnectError;
use crate::clock::nanos_of;
use crate::clock::span_from_millis;
use crate::clock::span_nanos;
use crate::stream::video::config_error;
use crate::stream::video::fresh_reader;
use crate::stream::video::ReaderView;
use crate::stream::video::StreamError;
use crate::stream::video::VideoReader;
use crate::stream::video::VideoReaderConfig;
use crate::text::append_decimal;
use crate::text::append_text;
use crate::text::copy_text;
use crate::text::decimal_of;
use crate::text::text_begins_with;
use crate::text::text_contains;
use std::collections::HashMap;
use std::time::Duration;
use vstd::prelude::*;
use vstd::set_lib::lemma_int_range;
use vstd::set_lib::lemma_len_subset;
use vstd::set_lib::lemma_map_size;
use vstd::set_lib::set_int_range;

verus! {

broadcast use vstd::std_specs::hash::group_hash_axioms;

/// The limits of an engine.
#[derive(Debug, Clone, Copy)]
pub struct AndroidEngineConfig {
    pub runtime_worker_threads: usize,
    pub max_read_bytes: usize,
    /// Number of transport reconnect attempts allowed after one retryable read failure.
    ///
    /// The original read is retried only once after a connection has been re-established, so a
    /// permanently failing server cannot trap the caller in an unbounded reconnect loop.
    pub read_reconnect_attempts: usize,
    /// Delay inserted before the second and later reconnect attempts.
    pub reconnect_backoff: Duration,
}

impl Default for AndroidEngineConfig {
    fn default() -> (r: Self)
        ensures
            r.runtime_worker_threads == 2,
            r.max_read_bytes == 8_388_608,
            r.read_reconnect_attempts == 2,
            nanos_of(r.reconnect_backoff) == 250_000_000,
    {
        AndroidEngineConfig {
            runtime_worker_threads: 2,
            max_read_bytes: 8 * 1024 * 1024,
            read_reconnect_attempts: 2,
            reconnect_backoff: span_from_millis(250),
        }
    }
}

/// Stable opaque identifier intended to cross JNI as a `jlong`/Kotlin `Long`.
#[derive(Debug, Clone, Copy, PartialEq, Eq, Hash, Structural)]
pub struct VideoHandle {
    pub value: u64,
}

impl VideoHandle {
    pub fn from_raw(value: u64) -> (r: Self)
        ensures
            r.value == value,
    {
        VideoHandle { value }
    }

    pub fn raw(self) -> (r: u64)
        ensures
            r == self.value,
    {
        self.value
    }
}

/// Why a call into the engine failed.
#[derive(Debug)]
pub enum AndroidBridgeError {
    Runtime(std::io::Error),
    Client(ClientError),
    Stream(StreamError),
    InvalidHandle(VideoHandle),
    InvalidConfig(&'static str),
    ReadTooLarge { requested: usize, maximum: usize },
    InternalState(&'static str),
    RandomSource,
}

impl From<ClientError> for AndroidBridgeError {
    fn from(value: ClientError) -> (r: Self) {
        AndroidBridgeError::Client(value)
    }
}

impl vstd::std_specs::convert::FromSpecImpl<ClientError> for AndroidBridgeError {
    open spec fn obeys_from_spec() -> bool {
        true
    }

    open spec fn from_spec(value: ClientError) -> Self {
        AndroidBridgeError::Client(value)
    }
}

impl From<StreamError> for AndroidBridgeError {
    fn from(value: StreamError) -> (r: Self) {
        AndroidBridgeError::Stream(value)
    }
}

impl vstd::std_specs::convert::FromSpecImpl<StreamError> for AndroidBridgeError {
    open spec fn obeys_from_spec() -> bool {
        true
    }

    open spec fn from_spec(value: StreamError) -> Self {
        AndroidBridgeError::Stream(value)
    }
}

impl AndroidBridgeError {
    /// The text that describes an error. What an I/O error says of itself is left open.
    pub open spec fn has_message(self, text: Seq<char>) -> bool {
        match self {
            AndroidBridgeError::Runtime(_) => text_begins_with(
                text,
                "Android SMB runtime error: "@,
            ),
            AndroidBridgeError::Client(e) => {
                &&& text_begins_with(text, "SMB client error: "@)
                &&& e.has_message(text.skip("SMB client error: "@.len() as int))
            },
            AndroidBridgeError::Stream(e) => {
                &&& text_begins_with(text, "SMB stream error: "@)
                &&& e.has_message(text.skip("SMB stream error: "@.len() as int))
            },
            AndroidBridgeError::InvalidHandle(handle) => text == "invalid SMB video handle "@
                + decimal_of(handle.value as nat),
            AndroidBridgeError::InvalidConfig(m) => text == "invalid Android SMB configuration: "@
                + m@,
            AndroidBridgeError::ReadTooLarge { requested, maximum } => text
                == "Android SMB read request is too large: requested "@ + decimal_of(
                requested as nat,
            ) + " bytes, maximum "@ + decimal_of(maximum as nat),
            AndroidBridgeError::InternalState(m) => text == "Android SMB internal state error: "@
                + m@,
            AndroidBridgeError::RandomSource => text == "failed to obtain secure random bytes"@,
        }
    }

    /// Describes the error.
    pub fn to_text(&self) -> (r: String)
        ensures
            self.has_message(r@),
    {
        match self {
            AndroidBridgeError::Runtime(error) => {
                let mut out = copy_text("Android SMB runtime error: ");
                let detail = io_error_text(error);
                append_text(&mut out, detail.as_str());
                assert(out@.take("Android SMB runtime error: "@.len() as int)
                    =~= "Android SMB runtime error: "@);
                out
            },
            AndroidBridgeError::Client(error) => {
                let mut out = copy_text("SMB client error: ");
                let detail = error.to_text();
                append_text(&mut out, detail.as_str());
                proof {
                    let n = "SMB client error: "@.len() as int;
                    assert(out@.take(n) =~= "SMB client error: "@);
                    assert(out@.skip(n) =~= detail@);
                }
                out
            },
            AndroidBridgeError::Stream(error) => {
                let mut out = copy_text("SMB stream error: ");
                let detail = error.to_text();
                append_text(&mut out, detail.as_str());
                proof {
                    let n = "SMB stream error: "@.len() as int;
                    assert(out@.take(n) =~= "SMB stream error: "@);
                    assert(out@.skip(n) =~= detail@);
                }
                out
            },
            AndroidBridgeError::InvalidHandle(handle) => {
                let mut out = copy_text("invalid SMB video handle ");
                append_decimal(&mut out, handle.raw());
                out
            },
            AndroidBridgeError::InvalidConfig(message) => {
                let mut out = copy_text("invalid Android SMB configuration: ");
                append_text(&mut out, message);
                out
            },
            AndroidBridgeError::ReadTooLarge { requested, maximum } => {
                let mut out = copy_text("Android SMB read request is too large: requested ");
                append_decimal(&mut out, *requested as u64);
                append_text(&mut out, " bytes, maximum ");
                append_decimal(&mut out, *maximum as u64);
                out
            },
            AndroidBridgeError::InternalState(message) => {
                let mut out = copy_text("Android SMB internal state error: ");
                append_text(&mut out, message);
                out
            },
            AndroidBridgeError::RandomSource => copy_text("failed to obtain secure random bytes"),
        }
    }
}

/// Connection settings accepted by the Android boundary.
///
/// This type intentionally does not implement `Debug` or `Clone`: it contains a plaintext password
/// only until `plan_open` moves it into a zeroizing reconnect recipe. Anonymous sessions ignore
/// the password field.
pub struct VideoOpenRequest {
    pub host: String,
    pub port: u16,
    pub share: String,
    pub path: String,
    pub username: String,
    pub password: String,
    pub domain: String,
    pub workstation: String,
    pub stream: VideoReaderConfig,
}

impl VideoOpenRequest {
    /// Whether a request asks for a path of a share, for a user.
    pub open spec fn asks_for(
        self,
        host: Seq<char>,
        port: u16,
        share: Seq<char>,
        path: Seq<char>,
        username: Seq<char>,
        password: Seq<char>,
        domain: Seq<char>,
        workstation: Seq<char>,
    ) -> bool {
        &&& self.host@ == host
        &&& self.port == port
        &&& self.share@ == share
        &&& self.path@ == path
        &&& self.username@ == username
        &&& self.password@ == password
        &&& self.domain@ == domain
        &&& self.workstation@ == workstation
    }

    /// The recipe that connects a video.
    pub open spec fn recipe(self) -> RecipeView {
        fresh_recipe(
            self.host@,
            self.port,
            self.share@,
            self.path@,
            self.username@,
            self.password@,
            self.domain@,
            self.workstation@,
        )
    }

    /// A request to the usual port, without domain and workstation.
    pub fn new(host: String, share: String, path: String, username: String, password: String) -> (r:
        Self)
        ensures
            r.host@ == host@,
            r.port == 445,
            r.share@ == share@,
            r.path@ == path@,
            r.username@ == username@,
            r.password@ == password@,
            r.domain@.len() == 0,
            r.workstation@.len() == 0,
            r.stream == (VideoReaderConfig {
                read_ahead_bytes: 2_097_152,
                max_cache_bytes: 8_388_608,
                pipeline: PipelinedReadOptions {
                    chunk_size: 262_144,
                    max_in_flight: 4,
                    credit_request: 32,
                },
            }),
            config_error(r.stream) is None,
    {
        VideoOpenRequest {
            host,
            port: 445,
            share,
            path,
            username,
            password,
            domain: String::new(),
            workstation: String::new(),
            stream: VideoReaderConfig::default(),
        }
    }
}

/// Whether a text is one name, without separators.
pub open spec fn is_single_name(s: Seq<char>) -> bool {
    s.len() > 0 && !s.contains('\\') && !s.contains('/') && !s.contains('\0')
}

/// Whether a text is one name, without separators.
fn single_name(s: &str) -> (r: bool)
    ensures
        r == is_single_name(s@),
{
    !s.is_empty() && !text_contains(s, '\\') && !text_contains(s, '/') && !text_contains(s, '\0')
}

/// Why a request to open a video is not accepted, if it is not.
pub open spec fn open_request_error(request: VideoOpenRequest) -> Option<AndroidBridgeError> {
    if !is_single_name(request.host@) {
        Some(AndroidBridgeError::InvalidConfig("host must be a non-empty DNS name or IP address"))
    } else if request.port == 0 {
        Some(AndroidBridgeError::InvalidConfig("port must be greater than zero"))
    } else if !is_single_name(request.share@) {
        Some(AndroidBridgeError::InvalidConfig("share must be a single non-empty share name"))
    } else if request.path@.len() == 0 {
        Some(AndroidBridgeError::InvalidConfig("path must not be empty"))
    } else {
        None
    }
}

/// Checks a request to open a video.
pub fn validate_open_request(request: &VideoOpenRequest) -> (r: Result<(), AndroidBridgeError>)
    ensures
        match open_request_error(*request) {
            Some(e) => r == Err::<(), AndroidBridgeError>(e),
            None => r is Ok,
        },
{
    if !single_name(request.host.as_str()) {
        return Err(
            AndroidBridgeError::InvalidConfig("host must be a non-empty DNS name or IP address"),
        );
    }
    if request.port == 0 {
        return Err(AndroidBridgeError::InvalidConfig("port must be greater than zero"));
    }
    if !single_name(request.share.as_str()) {
        return Err(
            AndroidBridgeError::InvalidConfig("share must be a single non-empty share name"),
        );
    }
    if request.path.as_str().is_empty() {
        return Err(AndroidBridgeError::InvalidConfig("path must not be empty"));
    }
    Ok(())
}

/// Checks a request to open a video, and makes its reader and the recipe that connects it.
pub fn plan_open(request: VideoOpenRequest) -> (r: Result<
    (VideoReader, ReadOnlyReconnectRecipe),
    AndroidBridgeError,
>)
    ensures
        match open_request_error(request) {
            Some(e) => r == Err::<(VideoReader, ReadOnlyReconnectRecipe), AndroidBridgeError>(e),
            None => match config_error(request.stream) {
                Some(e) => r == Err::<(VideoReader, ReadOnlyReconnectRecipe), _>(
                    AndroidBridgeError::Stream(e),
                ),
                None => r is Ok && r->Ok_0.0@ == fresh_reader(request.stream) && r->Ok_0.1@
                    == request.recipe(),
            },
        },
{
    validate_open_request(&request)?;
    match VideoReader::new(request.stream) {
        Err(e) => Err(AndroidBridgeError::Stream(e)),
        Ok(reader) => Ok(
            (
                reader,
                ReadOnlyReconnectRecipe::new(
                    request.host,
                    request.port,
                    request.share,
                    request.path,
                    request.username,
                    request.password,
                    request.domain,
                    request.workstation,
                ),
            ),
        ),
    }
}

/// Values behind opaque handles.
#[derive(Debug)]
pub struct HandleTable<T> {
    /// The handle that is tried next.
    pub next: u64,
    pub entries: HashMap<u64, T>,
}

impl<T> View for HandleTable<T> {
    type V = Map<u64, T>;

    open spec fn view(&self) -> Map<u64, T> {
        self.entries@
    }
}

/// A count that starts over behind the greatest 64-bit number.
pub open spec fn wrapped(n: int) -> u64 {
    (n % 0x1_0000_0000_0000_0000) as u64
}

/// Whether a handle may be given out.
pub open spec fn is_free<T>(entries: Map<u64, T>, raw: u64) -> bool {
    raw != 0 && !entries.contains_key(raw)
}

/// Where fewer values are stored than there are handles, one is free.
proof fn lemma_some_handle_is_free<T>(entries: Map<u64, T>) -> (k: u64)
    requires
        entries.dom().finite(),
        entries.len() < u64::MAX,
    ensures
        is_free(entries, k),
{
    if forall|k: u64| !is_free(entries, k) {
        let all = set_int_range(1, 0x1_0000_0000_0000_0000);
        let f = |k: u64| k as int;
        let used = entries.dom().map(f);
        lemma_int_range(1, 0x1_0000_0000_0000_0000);
        assert(vstd::relations::injective_on(f, entries.dom()));
        lemma_map_size(entries.dom(), used, f);
        assert forall|n: int| all.contains(n) implies used.contains(n) by {
            let k = n as u64;
            assert(!is_free(entries, k));
            assert(entries.dom().contains(k) && f(k) == n);
        }
        lemma_len_subset(all, used);
    }
    choose|k: u64| is_free(entries, k)
}

impl<T> HandleTable<T> {
    /// An empty table.
    pub fn new() -> (r: Self)
        ensures
            r@ == Map::<u64, T>::empty(),
            r.next == 1,
    {
        HandleTable { next: 1, entries: HashMap::new() }
    }

    /// Stores a value behind the next handle that is free. No handle is given out that is in use,
    /// and zero never is.
    pub fn insert(&mut self, value: T) -> (r: VideoHandle)
        requires
            old(self)@.len() < u64::MAX,
        ensures
            is_free(old(self)@, r.value),
            final(self)@ == old(self)@.insert(r.value, value),
            final(self).next == wrapped(r.value + 1),
            forall|j: int|
                0 <= j < (r.value - old(self).next) % 0x1_0000_0000_0000_0000 ==> !is_free(
                    old(self)@,
                    #[trigger] wrapped(old(self).next + j),
                ),
    {
        let ghost entries = self@;
        let ghost first = self.next;
        let ghost k = lemma_some_handle_is_free(entries);
        let ghost distance = (k - first) % 0x1_0000_0000_0000_0000;
        let ghost mut j: int = 0;
        assert(wrapped(first as int) == first);
        loop
            invariant
                self@ == entries,
                self.next == wrapped(first + j),
                0 <= j <= distance,
                distance == (k - first) % 0x1_0000_0000_0000_0000,
                is_free(entries, k),
                entries == old(self)@,
                first == old(self).next,
                forall|i: int|
                    0 <= i < j ==> !is_free(entries, #[trigger] wrapped(first + i)),
            decreases distance - j,
        {
            let raw: u64 = self.next;
            proof {
                assert(wrapped(first + j) == raw);
                if j == distance {
                    assert(wrapped(first + distance) == k);
                }
            }
            self.next = if raw == u64::MAX {
                0
            } else {
                raw + 1
            };
            proof {
                assert(self.next == wrapped(raw + 1));
                assert(self.next == wrapped(first + (j + 1)));
            }
            if raw != 0 && !self.entries.contains_key(&raw) {
                self.entries.insert(raw, value);
                proof {
                    assert((raw - first) % 0x1_0000_0000_0000_0000 == j);
                }
                return VideoHandle { value: raw };
            }
            proof {
                assert(!is_free(entries, raw));
                j = j + 1;
            }
        }
    }

    /// The value behind a handle.
    pub fn get(&self, handle: VideoHandle) -> (r: Result<&T, AndroidBridgeError>)
        ensures
            if self@.contains_key(handle.value) {
                r is Ok && *r->Ok_0 == self@[handle.value]
            } else {
                r == Err::<&T, _>(AndroidBridgeError::InvalidHandle(handle))
            },
    {
        match self.entries.get(&handle.value) {
            Some(value) => Ok(value),
            None => Err(AndroidBridgeError::InvalidHandle(handle)),
        }
    }

    /// Takes out the value behind a handle.
    pub fn remove(&mut self, handle: VideoHandle) -> (r: Result<T, AndroidBridgeError>)
        ensures
            if old(self)@.contains_key(handle.value) {
                r == Ok::<T, AndroidBridgeError>(old(self)@[handle.value]) && final(self)@
                    == old(self)@.remove(handle.value)
            } else {
                r == Err::<T, _>(AndroidBridgeError::InvalidHandle(handle)) && final(self)@
                    == old(self)@
            },
            final(self).next == old(self).next,
    {
        match self.entries.remove(&handle.value) {
            Some(value) => Ok(value),
            None => {
                assert(self@ =~= old(self)@);
                Err(AndroidBridgeError::InvalidHandle(handle))
            },
        }
    }

    /// How many values are stored.
    pub fn len(&self) -> (r: usize)
        ensures
            r == self@.len(),
    {
        self.entries.len()
    }
}

/// The open videos of an engine and the limits of its reads.
#[derive(Debug)]
pub struct AndroidEngine<V> {
    pub videos: HandleTable<V>,
    pub max_read_bytes: usize,
    pub read_reconnect_attempts: usize,
    pub reconnect_backoff: Duration,
}

/// Why a configuration is not accepted, if it is not.
pub open spec fn engine_config_error(config: AndroidEngineConfig) -> Option<AndroidBridgeError> {
    if config.runtime_worker_threads == 0 {
        Some(AndroidBridgeError::InvalidConfig("runtime_worker_threads must be greater than zero"))
    } else if config.max_read_bytes == 0 {
        Some(AndroidBridgeError::InvalidConfig("max_read_bytes must be greater than zero"))
    } else {
        None
    }
}

/// What a reconnect that failed is reported as.
pub open spec fn mapped_reconnect_error(error: ReconnectError) -> AndroidBridgeError {
    match error {
        ReconnectError::Client(error) => AndroidBridgeError::Client(error),
        ReconnectError::Cancelled => cancelled_error(),
        ReconnectError::RandomSource => AndroidBridgeError::RandomSource,
    }
}

/// What a read that was invalidated is reported as.
pub open spec fn cancelled_error() -> AndroidBridgeError {
    AndroidBridgeError::Stream(StreamError::Client(ClientError::Cancelled))
}

/// Reports a reconnect that failed.
pub fn map_reconnect_error(error: ReconnectError) -> (r: AndroidBridgeError)
    ensures
        r == mapped_reconnect_error(error),
{
    match error {
        ReconnectError::Client(error) => AndroidBridgeError::Client(error),
        ReconnectError::Cancelled => cancelled_bridge_error(),
        ReconnectError::RandomSource => AndroidBridgeError::RandomSource,
    }
}

/// Reports a read that was invalidated.
pub fn cancelled_bridge_error() -> (r: AndroidBridgeError)
    ensures
        r == cancelled_error(),
{
    AndroidBridgeError::Stream(StreamError::Client(ClientError::Cancelled))
}

impl<V> AndroidEngine<V> {
    /// An engine without videos.
    pub fn new(config: AndroidEngineConfig) -> (r: Result<Self, AndroidBridgeError>)
        ensures
            match engine_config_error(config) {
                Some(e) => r == Err::<AndroidEngine<V>, AndroidBridgeError>(e),
                None => r is Ok && r->Ok_0.videos@ == Map::<u64, V>::empty() && r->Ok_0.videos.next
                    == 1 && r->Ok_0.max_read_bytes == config.max_read_bytes
                    && r->Ok_0.read_reconnect_attempts == config.read_reconnect_attempts
                    && r->Ok_0.reconnect_backoff == config.reconnect_backoff,
            },
    {
        if config.runtime_worker_threads == 0 {
            return Err(
                AndroidBridgeError::InvalidConfig(
                    "runtime_worker_threads must be greater than zero",
                ),
            );
        }
        if config.max_read_bytes == 0 {
            return Err(
                AndroidBridgeError::InvalidConfig("max_read_bytes must be greater than zero"),
            );
        }
        Ok(
            AndroidEngine {
                videos: HandleTable::new(),
                max_read_bytes: config.max_read_bytes,
                read_reconnect_attempts: config.read_reconnect_attempts,
                reconnect_backoff: config.reconnect_backoff,
            },
        )
    }

    /// Why a read of a video is not begun, if it is not.
    pub open spec fn read_error(self, handle: VideoHandle, length: usize) -> Option<
        AndroidBridgeError,
    > {
        if length > self.max_read_bytes {
            Some(
                AndroidBridgeError::ReadTooLarge {
                    requested: length,
                    maximum: self.max_read_bytes,
                },
            )
        } else if !self.videos@.contains_key(handle.value) {
            Some(AndroidBridgeError::InvalidHandle(handle))
        } else {
            None
        }
    }

    /// A read that has not been tried again.
    pub open spec fn fresh_read(self) -> VideoRead {
        VideoRead {
            max_attempts: self.read_reconnect_attempts,
            backoff: self.reconnect_backoff,
            attempts: 0,
            recovery_used: false,
        }
    }

    /// Begins a read: checks its length and finds its video.
    pub fn begin_read(&self, handle: VideoHandle, length: usize) -> (r: Result<
        (&V, VideoRead),
        AndroidBridgeError,
    >)
        ensures
            match self.read_error(handle, length) {
                Some(e) => r == Err::<(&V, VideoRead), AndroidBridgeError>(e),
                None => r is Ok && *r->Ok_0.0 == self.videos@[handle.value] && r->Ok_0.1
                    == self.fresh_read(),
            },
    {
        if length > self.max_read_bytes {
            return Err(
                AndroidBridgeError::ReadTooLarge {
                    requested: length,
                    maximum: self.max_read_bytes,
                },
            );
        }
        let video = self.videos.get(handle)?;
        Ok(
            (
                video,
                VideoRead {
                    max_attempts: self.read_reconnect_attempts,
                    backoff: self.reconnect_backoff,
                    attempts: 0,
                    recovery_used: false,
                },
            ),
        )
    }
}

/// The open file of a video.
pub fn open_file_of(file: &Option<FileHandle>) -> (r: Result<&FileHandle, AndroidBridgeError>)
    ensures
        match *file {
            Some(open) => r is Ok && *r->Ok_0 == open,
            None => r == Err::<&FileHandle, _>(
                AndroidBridgeError::InternalState("video handle is closed"),
            ),
        },
{
    match file {
        Some(open) => Ok(open),
        None => Err(AndroidBridgeError::InternalState("video handle is closed")),
    }
}

/// Takes the open file of a video, which is then closed.
pub fn take_open_file(file: Option<FileHandle>) -> (r: Result<FileHandle, AndroidBridgeError>)
    ensures
        r == match file {
            Some(open) => Ok(open),
            None => Err(AndroidBridgeError::InternalState("video handle is already closed")),
        },
{
    match file {
        Some(open) => Ok(open),
        None => Err(AndroidBridgeError::InternalState("video handle is already closed")),
    }
}

/// A read of a video that may restore its connection once.
#[derive(Debug, Clone, Copy)]
pub struct VideoRead {
    pub max_attempts: usize,
    pub backoff: Duration,
    /// How many connection attempts were begun.
    pub attempts: usize,
    pub recovery_used: bool,
}

/// What to do next in a read of a video.
#[derive(Debug)]
pub enum VideoStep {
    /// Read and hand the outcome back.
    Read(VideoRead),
    /// Restore the connection and hand the outcome back.
    Connect(VideoRead),
    /// Wait for the backoff and say when it is over.
    Backoff(VideoRead),
    Done(Vec<u8>),
    Fail(AndroidBridgeError),
}

impl VideoRead {
    /// Whether an error of the read calls for its recovery.
    pub open spec fn recovers(self, error: StreamError) -> bool {
        !self.recovery_used && self.max_attempts > 0 && stream_retryable(error)
    }

    /// The read after one more connection attempt was begun.
    pub open spec fn attempted(self) -> VideoRead {
        VideoRead { attempts: (self.attempts + 1) as usize, ..self }
    }
}

/// The step that the outcome of a read calls for.
pub open spec fn video_read_step(
    read: VideoRead,
    outcome: Result<Vec<u8>, StreamError>,
    current: bool,
) -> VideoStep {
    match outcome {
        Ok(data) => VideoStep::Done(data),
        Err(error) => if !read.recovers(error) {
            VideoStep::Fail(AndroidBridgeError::Stream(error))
        } else if !current {
            VideoStep::Fail(cancelled_error())
        } else {
            VideoStep::Connect(VideoRead { attempts: 1, recovery_used: true, ..read })
        },
    }
}

/// The step that the outcome of a connection attempt calls for.
pub open spec fn video_connect_step(
    read: VideoRead,
    outcome: Result<(), ReconnectError>,
    current: bool,
) -> VideoStep {
    match outcome {
        Ok(()) => VideoStep::Read(read),
        Err(error) => if !(error is Client && retryable(error->Client_0)) || read.attempts
            >= read.max_attempts {
            VideoStep::Fail(mapped_reconnect_error(error))
        } else if !current {
            VideoStep::Fail(cancelled_error())
        } else if nanos_of(read.backoff) > 0 {
            VideoStep::Backoff(read)
        } else {
            VideoStep::Connect(read.attempted())
        },
    }
}

impl VideoRead {
    /// Takes the outcome of the read. Before the connection is restored the reader forgets what it
    /// has cached.
    pub fn on_read(
        self,
        outcome: Result<Vec<u8>, StreamError>,
        current: bool,
        reader: &mut VideoReader,
    ) -> (r: VideoStep)
        ensures
            r == video_read_step(self, outcome, current),
            final(reader)@ == (if r is Connect {
                ReaderView { last_request_end: None, ..old(reader)@.bumped() }
            } else {
                old(reader)@
            }),
    {
        match outcome {
            Ok(data) => VideoStep::Done(data),
            Err(error) => {
                if self.recovery_used || self.max_attempts == 0 || !is_retryable_stream_error(
                    &error,
                ) {
                    return VideoStep::Fail(AndroidBridgeError::Stream(error));
                }
                if !current {
                    return VideoStep::Fail(cancelled_bridge_error());
                }
                reader.invalidate();
                VideoStep::Connect(
                    VideoRead {
                        max_attempts: self.max_attempts,
                        backoff: self.backoff,
                        attempts: 1,
                        recovery_used: true,
                    },
                )
            },
        }
    }

    /// Takes the outcome of a connection attempt.
    pub fn on_connect(self, outcome: Result<(), ReconnectError>, current: bool) -> (r: VideoStep)
        ensures
            r == video_connect_step(self, outcome, current),
    {
        match outcome {
            Ok(()) => VideoStep::Read(self),
            Err(error) => {
                let again: bool = match &error {
                    ReconnectError::Client(client) => is_retryable_client_error(client),
                    ReconnectError::Cancelled => false,
                    ReconnectError::RandomSource => false,
                };
                if !again || self.attempts >= self.max_attempts {
                    return VideoStep::Fail(map_reconnect_error(error));
                }
                if !current {
                    return VideoStep::Fail(cancelled_bridge_error());
                }
                if span_nanos(self.backoff) > 0 {
                    return VideoStep::Backoff(self);
                }
                self.on_backoff_over()
            },
        }
    }

    /// Goes on after a backoff.
    pub fn on_backoff_over(self) -> (r: VideoStep)
        requires
            self.attempts < self.max_attempts,
        ensures
            r == VideoStep::Connect(self.attempted()),
    {
        VideoStep::Connect(
            VideoRead {
                max_attempts: self.max_attempts,
                backoff: self.backoff,
                attempts: self.attempts + 1,
                recovery_used: self.recovery_used,
            },
        )
    }
}

/// A read of a video is repeated at most once, after one recovery, and never for a failure that does
/// not say that the connection or the session is gone.
pub proof fn law_video_read_recovers_once(
    read: VideoRead,
    outcome: Result<Vec<u8>, StreamError>,
    current: bool,
)
    ensures
        !(video_read_step(read, outcome, current) is Read),
        !(video_read_step(read, outcome, current) is Backoff),
        video_read_step(read, outcome, current) is Connect ==> !read.recovery_used
            && stream_retryable(outcome->Err_0)
            && video_read_step(read, outcome, current)->Connect_0.recovery_used,
{
}

/// A server that fails for good cannot hold a read up: each connection attempt counts, and there
/// are never more of them than the engine allows.
pub proof fn law_video_attempts_are_bounded(
    read: VideoRead,
    outcome: Result<Vec<u8>, StreamError>,
    connected: Result<(), ReconnectError>,
    current: bool,
)
    requires
        read.attempts <= read.max_attempts,
    ensures
        video_read_step(read, outcome, current) matches VideoStep::Connect(next)
            ==> next.max_attempts == read.max_attempts && next.attempts == 1 && next.attempts
            <= next.max_attempts,
        video_connect_step(read, connected, current) matches VideoStep::Connect(next)
            ==> next.max_attempts == read.max_attempts && next.attempts == read.attempts + 1
            && next.attempts <= next.max_attempts,
        video_connect_step(read, connected, current) matches VideoStep::Backoff(next) ==> next
            == read && next.attempts < next.max_attempts,
        video_connect_step(read, connected, current) matches VideoStep::Read(next) ==> next == read,
{
}

/// A handle that is in use is never given out again, and every other handle keeps its value.
pub proof fn law_live_handles_are_not_reused<T>(
    entries: Map<u64, T>,
    raw: u64,
    value: T,
    other: u64,
)
    requires
        is_free(entries, raw),
        entries.contains_key(other),
    ensures
        raw != other,
        entries.insert(raw, value).contains_key(other),
        entries.insert(raw, value)[other] == entries[other],
        entries.insert(raw, value)[raw] == value,
        entries.insert(raw, value).remove(raw)[other] == entries[other],
{
}

} // verus!
