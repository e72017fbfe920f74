//! What crosses the Java boundary.
//!
//! This module is intentionally mechanical. Protocol behavior, authentication, cancellation,
//! caching, and SMB handle lifetime stay in the engine. Here are only argument validation, value
//! conversion, opaque-handle transport, and the choice of the exception that is thrown.

use crate::android::engine::AndroidBridgeError;
use crate::android::engine::VideoHandle;
use crate::android::engine::VideoOpenRequest;
use crate::android::API_VERSION;
use crate::client::read::PipelinedReadOptions;
use crate::stream::video::config_error;
use crate::stream::video::VideoReaderConfig;
use crate::text::copy_text;
use vstd::prelude::*;

verus! {

/// The Java exceptions that are thrown.
#[derive(Debug, Clone, Copy, PartialEq, Eq, Structural)]
pub enum ExceptionClass {
    /// `java.io.IOException`
    Io,
    /// `java.lang.IllegalArgumentException`
    IllegalArgument,
}

/// A Java exception, and the value that is returned while it is pending.
#[derive(Debug)]
pub struct Thrown<R> {
    pub class: ExceptionClass,
    pub message: String,
    pub returned: R,
}

impl<R> Thrown<R> {
    /// Whether this is an exception of some class and message, with some value.
    pub open spec fn says(self, class: ExceptionClass, message: Seq<char>, returned: R) -> bool {
        self.class == class && self.message@ == message && self.returned == returned
    }
}

/// An `IllegalArgumentException`.
fn throw_argument<R>(message: &str, returned: R) -> (r: Thrown<R>)
    ensures
        r.says(ExceptionClass::IllegalArgument, message@, returned),
{
    Thrown { class: ExceptionClass::IllegalArgument, message: copy_text(message), returned }
}

/// An `IOException`.
fn throw_io<R>(message: &str, returned: R) -> (r: Thrown<R>)
    ensures
        r.says(ExceptionClass::Io, message@, returned),
{
    Thrown { class: ExceptionClass::Io, message: copy_text(message), returned }
}

/// An `IOException` that reports an error of the engine.
pub fn throw_bridge_error<R>(error: &AndroidBridgeError, returned: R) -> (r: Thrown<R>)
    ensures
        r.class == ExceptionClass::Io,
        error.has_message(r.message@),
        r.returned == returned,
{
    Thrown { class: ExceptionClass::Io, message: error.to_text(), returned }
}

/// The handle of a raw Java value, which must be positive.
pub fn video_handle<R>(raw: i64, returned: R) -> (r: Result<VideoHandle, Thrown<R>>)
    ensures
        if raw <= 0 {
            r is Err && r->Err_0.says(
                ExceptionClass::IllegalArgument,
                "SMB video handle must be positive"@,
                returned,
            )
        } else {
            r == Ok::<VideoHandle, Thrown<R>>(VideoHandle { value: raw as u64 })
        },
{
    if raw <= 0 {
        return Err(throw_argument("SMB video handle must be positive", returned));
    }
    Ok(VideoHandle::from_raw(raw as u64))
}

/// The byte of Java's signed byte type with the same bits.
pub open spec fn java_byte(byte: u8) -> int {
    if byte < 128 {
        byte as int
    } else {
        byte - 256
    }
}

/// The bytes of Java's signed byte type with the same bits.
pub fn as_jbytes(bytes: &[u8]) -> (r: Vec<i8>)
    ensures
        r@.len() == bytes@.len(),
        forall|i: int|
            0 <= i < bytes@.len() ==> #[trigger] r@[i] == java_byte(bytes@[i]),
{
    let mut out: Vec<i8> = Vec::new();
    let mut i: usize = 0;
    while i < bytes.len()
        invariant
            i <= bytes@.len(),
            out@.len() == i,
            forall|j: int|
                0 <= j < i ==> #[trigger] out@[j] == java_byte(bytes@[j]),
        decreases bytes@.len() - i,
    {
        let byte: i16 = bytes[i] as i16;
        let signed: i8 = if byte < 128 {
            byte as i8
        } else {
            (byte - 256) as i8
        };
        out.push(signed);
        i = i + 1;
    }
    out
}

/// A Java `Long` of a 64-bit number, or an `IOException` where it does not fit.
pub fn to_jlong(value: u64, too_large: &str) -> (r: Result<i64, Thrown<i64>>)
    ensures
        if value > i64::MAX {
            r is Err && r->Err_0.says(ExceptionClass::Io, too_large@, 0)
        } else {
            r == Ok::<i64, Thrown<i64>>(value as i64)
        },
{
    if value > 0x7FFF_FFFF_FFFF_FFFF {
        return Err(throw_io(too_large, 0));
    }
    Ok(value as i64)
}

/// The API generation.
pub fn native_api_version() -> (r: i32)
    ensures
        r == API_VERSION,
{
    API_VERSION as i32
}

/// The port of a raw Java value.
pub fn native_port(port: i32) -> (r: Result<u16, Thrown<i64>>)
    ensures
        if port <= 0 || port > 65535 {
            r is Err && r->Err_0.says(
                ExceptionClass::IllegalArgument,
                "SMB port must be between 1 and 65535"@,
                0,
            )
        } else {
            r == Ok::<u16, Thrown<i64>>(port as u16)
        },
{
    if port <= 0 || port > 65535 {
        return Err(throw_argument("SMB port must be between 1 and 65535", 0));
    }
    Ok(port as u16)
}

/// The request that opens a video.
pub fn native_open_video(
    host: String,
    port: i32,
    share: String,
    path: String,
    username: String,
    password: String,
    domain: String,
    workstation: String,
) -> (r: Result<VideoOpenRequest, Thrown<i64>>)
    ensures
        if port <= 0 || port > 65535 {
            r is Err && r->Err_0.says(
                ExceptionClass::IllegalArgument,
                "SMB port must be between 1 and 65535"@,
                0,
            )
        } else {
            &&& r is Ok
            &&& r->Ok_0.asks_for(
                host@,
                port as u16,
                share@,
                path@,
                username@,
                password@,
                domain@,
                workstation@,
            )
            &&& r->Ok_0.stream == (VideoReaderConfig {
                read_ahead_bytes: 2_097_152,
                max_cache_bytes: 8_388_608,
                pipeline: PipelinedReadOptions {
                    chunk_size: 262_144,
                    max_in_flight: 4,
                    credit_request: 32,
                },
            })
            &&& config_error(r->Ok_0.stream) is None
        },
{
    let port: u16 = native_port(port)?;
    let mut request = VideoOpenRequest::new(host, share, path, username, password);
    request.port = port;
    request.domain = domain;
    request.workstation = workstation;
    Ok(request)
}

/// The Java value of a handle that was opened.
pub fn opened_handle(handle: VideoHandle) -> (r: Result<i64, Thrown<i64>>)
    ensures
        if handle.value > i64::MAX {
            r is Err && r->Err_0.says(
                ExceptionClass::Io,
                "SMB native handle space exceeded Java Long range"@,
                0,
            )
        } else {
            r == Ok::<i64, Thrown<i64>>(handle.value as i64)
        },
{
    to_jlong(handle.raw(), "SMB native handle space exceeded Java Long range")
}

/// Whose length is asked for.
pub fn native_len(handle: i64) -> (r: Result<VideoHandle, Thrown<i64>>)
    ensures
        if handle <= 0 {
            r is Err && r->Err_0.says(
                ExceptionClass::IllegalArgument,
                "SMB video handle must be positive"@,
                (-1) as i64,
            )
        } else {
            r == Ok::<VideoHandle, Thrown<i64>>(VideoHandle { value: handle as u64 })
        },
{
    video_handle(handle, -1)
}

/// The Java value of a length.
pub fn length_value(length: u64) -> (r: Result<i64, Thrown<i64>>)
    ensures
        if length > i64::MAX {
            r is Err && r->Err_0.says(
                ExceptionClass::Io,
                "SMB file length exceeds Java Long range"@,
                0,
            )
        } else {
            r == Ok::<i64, Thrown<i64>>(length as i64)
        },
{
    to_jlong(length, "SMB file length exceeds Java Long range")
}

/// A read into a part of a Java array.
#[derive(Debug, Clone, Copy, PartialEq, Eq, Structural)]
pub struct ReadCall {
    pub handle: VideoHandle,
    pub position: u64,
    pub destination_offset: usize,
    pub length: usize,
}

/// Why a read is not accepted, if it is not: the message, and the value that is returned.
pub open spec fn read_call_error(
    handle: i64,
    position: i64,
    destination_offset: i32,
    length: i32,
    array_len: usize,
) -> Option<(&'static str, i32)> {
    if handle <= 0 {
        Some(("SMB video handle must be positive", (-1) as i32))
    } else if position < 0 {
        Some(("SMB read position must not be negative", 0i32))
    } else if destination_offset < 0 || length < 0 {
        Some(("SMB read buffer offset/length must not be negative", 0i32))
    } else if length == 0 {
        None
    } else if destination_offset + length > usize::MAX {
        Some(("SMB read buffer range overflow", 0i32))
    } else if destination_offset + length > array_len {
        Some(("SMB read buffer range exceeds destination array", 0i32))
    } else {
        None
    }
}

/// Whether a read is the one that raw Java values ask for.
pub open spec fn read_called(
    call: ReadCall,
    handle: i64,
    position: i64,
    destination_offset: i32,
    length: i32,
) -> bool {
    &&& call.handle.value == handle
    &&& call.position == position
    &&& call.destination_offset == destination_offset
    &&& call.length == length
}

/// What is to be read into an array of some length: nothing where nothing is asked for.
pub fn native_read_at(
    handle: i64,
    position: i64,
    destination_offset: i32,
    length: i32,
    array_len: usize,
) -> (r: Result<Option<ReadCall>, Thrown<i32>>)
    ensures
        match read_call_error(handle, position, destination_offset, length, array_len) {
            Some((message, returned)) => r is Err && r->Err_0.says(
                ExceptionClass::IllegalArgument,
                message@,
                returned,
            ),
            None => if length == 0 {
                r == Ok::<Option<ReadCall>, Thrown<i32>>(None)
            } else {
                r is Ok && r->Ok_0 is Some && read_called(
                    r->Ok_0->0,
                    handle,
                    position,
                    destination_offset,
                    length,
                )
            },
        },
{
    let handle = match video_handle::<i32>(handle, -1) {
        Ok(handle) => handle,
        Err(thrown) => {
            return Err(thrown);
        },
    };
    if position < 0 {
        return Err(throw_argument("SMB read position must not be negative", 0));
    }
    if destination_offset < 0 || length < 0 {
        return Err(throw_argument("SMB read buffer offset/length must not be negative", 0));
    }
    if length == 0 {
        return Ok(None);
    }
    let end: usize = match (destination_offset as usize).checked_add(length as usize) {
        Some(end) => end,
        None => {
            return Err(throw_argument("SMB read buffer range overflow", 0));
        },
    };
    if end > array_len {
        return Err(throw_argument("SMB read buffer range exceeds destination array", 0));
    }
    Ok(
        Some(
            ReadCall {
                handle,
                position: position as u64,
                destination_offset: destination_offset as usize,
                length: length as usize,
            },
        ),
    )
}

/// The Java value of how many bytes were read.
pub fn read_count(count: usize) -> (r: Result<i32, Thrown<i32>>)
    ensures
        if count > i32::MAX {
            r is Err && r->Err_0.says(
                ExceptionClass::Io,
                "SMB native read result exceeds Java Int range"@,
                0,
            )
        } else {
            r == Ok::<i32, Thrown<i32>>(count as i32)
        },
{
    if count > 0x7FFF_FFFF {
        return Err(throw_io("SMB native read result exceeds Java Int range", 0));
    }
    Ok(count as i32)
}

/// A hint about what will be read.
#[derive(Debug, Clone, Copy, PartialEq, Eq, Structural)]
pub struct PrefetchCall {
    pub handle: VideoHandle,
    pub position: u64,
    pub length: usize,
}

/// Why a hint is not accepted, if it is not.
pub open spec fn prefetch_call_error(handle: i64, position: i64, length: i32) -> Option<
    &'static str,
> {
    if handle <= 0 {
        Some("SMB video handle must be positive")
    } else if position < 0 {
        Some("SMB prefetch position must not be negative")
    } else if length < 0 {
        Some("SMB prefetch length must not be negative")
    } else {
        None
    }
}

/// The hint of raw Java values that are not negative.
pub open spec fn prefetch_call(handle: i64, position: i64, length: i32) -> PrefetchCall {
    PrefetchCall {
        handle: VideoHandle { value: handle as u64 },
        position: position as u64,
        length: length as usize,
    }
}

/// What is to be prefetched: nothing where nothing is hinted at.
pub fn native_prefetch(handle: i64, position: i64, length: i32) -> (r: Result<
    Option<PrefetchCall>,
    Thrown<()>,
>)
    ensures
        match prefetch_call_error(handle, position, length) {
            Some(message) => r is Err && r->Err_0.says(
                ExceptionClass::IllegalArgument,
                message@,
                (),
            ),
            None => r == Ok::<Option<PrefetchCall>, Thrown<()>>(
                if length == 0 {
                    None
                } else {
                    Some(prefetch_call(handle, position, length))
                },
            ),
        },
{
    let handle = match video_handle::<()>(handle, ()) {
        Ok(handle) => handle,
        Err(thrown) => {
            return Err(thrown);
        },
    };
    if position < 0 {
        return Err(throw_argument("SMB prefetch position must not be negative", ()));
    }
    if length < 0 {
        return Err(throw_argument("SMB prefetch length must not be negative", ()));
    }
    if length == 0 {
        return Ok(None);
    }
    Ok(Some(PrefetchCall { handle, position: position as u64, length: length as usize }))
}

/// Where the playback head moves.
pub fn native_seek(handle: i64, position: i64) -> (r: Result<VideoHandle, Thrown<i64>>)
    ensures
        if handle <= 0 {
            r is Err && r->Err_0.says(
                ExceptionClass::IllegalArgument,
                "SMB video handle must be positive"@,
                (-1) as i64,
            )
        } else if position < 0 {
            r is Err && r->Err_0.says(
                ExceptionClass::IllegalArgument,
                "SMB seek position must not be negative"@,
                0,
            )
        } else {
            r == Ok::<VideoHandle, Thrown<i64>>(VideoHandle { value: handle as u64 })
        },
{
    let handle = match video_handle::<i64>(handle, -1) {
        Ok(handle) => handle,
        Err(thrown) => {
            return Err(thrown);
        },
    };
    if position < 0 {
        return Err(throw_argument("SMB seek position must not be negative", 0));
    }
    Ok(handle)
}

/// The Java value of a generation.
pub fn generation_value(generation: u64) -> (r: Result<i64, Thrown<i64>>)
    ensures
        if generation > i64::MAX {
            r is Err && r->Err_0.says(
                ExceptionClass::Io,
                "SMB seek generation exceeds Java Long range"@,
                0,
            )
        } else {
            r == Ok::<i64, Thrown<i64>>(generation as i64)
        },
{
    to_jlong(generation, "SMB seek generation exceeds Java Long range")
}

/// What is closed.
pub fn native_close(handle: i64) -> (r: Result<VideoHandle, Thrown<()>>)
    ensures
        if handle <= 0 {
            r is Err && r->Err_0.says(
                ExceptionClass::IllegalArgument,
                "SMB video handle must be positive"@,
                (),
            )
        } else {
            r == Ok::<VideoHandle, Thrown<()>>(VideoHandle { value: handle as u64 })
        },
{
    video_handle(handle, ())
}

} // verus!
