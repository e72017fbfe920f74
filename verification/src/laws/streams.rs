//! What a reader of a video fetches, keeps and asks for ahead.

use crate::client::cancellation::next_generation;
use crate::client::error::ClientError;
use crate::clock::nanos_of;
use crate::stream::broker::refill_of;
use crate::stream::broker::ReadCommand;
use crate::stream::broker::RunnerView;
use crate::stream::broker::VideoBrokerHandle;
use crate::stream::video::capped;
use crate::stream::video::extension_taken;
use crate::stream::video::fetch_taken;
use crate::stream::video::read_planned;
use crate::stream::video::throughput_of;
use crate::stream::video::PrefetchExtension;
use crate::stream::video::PreparedRead;
use crate::stream::video::ReaderView;
use crate::stream::video::StreamError;
use crate::stream::video::VideoReaderMetrics;
use crate::stream::video::WindowView;
use std::time::Duration;
use vstd::prelude::*;

verus! {

/// A miss fetches all that is wanted and never beyond the end of the file, nor more than the cache
/// takes unless that much is wanted. More than is wanted is fetched only within one wave of requests
/// and the read-ahead, and as much of those as the cache and the file allow.
pub proof fn law_fetch_length(reader: ReaderView, target: int, remaining: int)
    requires
        0 < target <= remaining,
        target <= usize::MAX,
        reader.config.max_cache_bytes > 0,
    ensures
        ({
            let n = reader.fetch_len_of(target, remaining);
            let cache = reader.config.max_cache_bytes as int;
            let ahead = reader.config.read_ahead_bytes as int;
            let wave = reader.config.pipeline.chunk_size * reader.config.pipeline.max_in_flight;
            &&& target <= n <= remaining
            &&& n <= usize::MAX
            &&& target > cache ==> n == target
            &&& target <= cache ==> n <= cache
            &&& n > target ==> n <= wave && n <= ahead
            &&& target <= cache && n < cache && n < remaining && n < usize::MAX ==> n >= wave || n
                >= ahead
        }),
{
    assert(reader.config.pipeline.chunk_size * reader.config.pipeline.max_in_flight >= 0)
        by (nonlinear_arith)
        requires
            reader.config.pipeline.chunk_size >= 0,
            reader.config.pipeline.max_in_flight >= 0,
    ;
}

/// Whether a window that is not stale holds a run of bytes.
pub open spec fn holds_run(reader: ReaderView, offset: int, n: int) -> bool {
    &&& reader.cache is Some
    &&& reader.cache->0.generation == reader.generation
    &&& reader.cache->0.start <= offset
    &&& offset + n <= reader.cache->0.start + reader.cache->0.data.len()
}

/// Whether a position lies in a window that is not stale, or right behind it.
pub open spec fn at_window(reader: ReaderView, offset: int) -> bool {
    &&& reader.cache is Some
    &&& reader.cache->0.generation == reader.generation
    &&& reader.cache->0.start <= offset
    &&& offset <= reader.cache->0.start + reader.cache->0.data.len()
}

/// A read of a file that a reader knows to the end of 64-bit positions: an invalidated one changes
/// nothing, one of nothing gives nothing, one that the cache holds as a whole is served from it, and
/// any other is fetched whole. The head moves behind a read that was served. A read that neither
/// follows the last one nor begins in the cache or right behind it starts a new generation without a
/// cache; every other keeps both.
pub proof fn law_read_plan(
    r: Result<PreparedRead, StreamError>,
    reader: ReaderView,
    after: ReaderView,
    file_len: u64,
    offset: u64,
    length: usize,
    stale: bool,
)
    requires
        read_planned(r, reader, after, file_len, offset, length, stale),
        reader.cache is Some ==> reader.cache->0.start + reader.cache->0.data.len() <= u64::MAX,
    ensures
        ({
            let n = if offset + length <= file_len {
                length as int
            } else {
                file_len - offset
            };
            let jumps = reader.last_request_end is Some && reader.last_request_end->0 != offset
                && !at_window(reader, offset as int);
            if stale {
                r == Err::<PreparedRead, _>(StreamError::Client(ClientError::Cancelled)) && after
                    == reader
            } else if length == 0 || offset >= file_len {
                r == Ok::<_, StreamError>(PreparedRead::Empty) && after == reader
            } else if holds_run(reader, offset as int, n) {
                let window = reader.cache->0;
                &&& r is Ok && r->Ok_0 is Cached
                &&& r->Ok_0->Cached_0@.len() == n
                &&& forall|i: int|
                    0 <= i < n ==> #[trigger] r->Ok_0->Cached_0@[i] == window.data[offset
                        - window.start + i]
                &&& after.last_request_end == Some((offset + n) as u64)
                &&& after.cache == reader.cache
                &&& after.generation == reader.generation
                &&& after.metrics.cache_misses == reader.metrics.cache_misses
                &&& reader.metrics.cache_hits < u64::MAX ==> after.metrics.cache_hits
                    == reader.metrics.cache_hits + 1
            } else {
                &&& r is Ok && r->Ok_0 is Fetch
                &&& r->Ok_0->target == n
                &&& r->Ok_0->reader_generation == after.generation
                &&& after.last_request_end == reader.last_request_end
                &&& after.metrics.cache_hits == reader.metrics.cache_hits
                &&& reader.metrics.cache_misses < u64::MAX ==> after.metrics.cache_misses
                    == reader.metrics.cache_misses + 1
                &&& jumps ==> after.cache is None && after.generation != reader.generation
                &&& !jumps ==> after.cache == reader.cache && after.generation
                    == reader.generation
            }
        }),
{
}

/// What a fetch gives is handed out up to what was wanted, the head moves behind it, and all of it
/// becomes the cache where it fits, and nothing where it does not. What an earlier generation fetched
/// is dropped and changes nothing.
pub proof fn law_fetch_is_taken(
    r: Result<Vec<u8>, StreamError>,
    reader: ReaderView,
    after: ReaderView,
    offset: u64,
    target: usize,
    generation: u64,
    fetched: Seq<u8>,
)
    requires
        fetch_taken(r, reader, after, offset, target, generation, fetched, false),
        offset + fetched.len() <= u64::MAX,
    ensures
        r is Ok,
        generation != reader.generation ==> r->Ok_0@.len() == 0 && after == reader,
        generation == reader.generation ==> {
            let n = r->Ok_0@.len() as int;
            &&& n <= target && n <= fetched.len()
            &&& n == target || n == fetched.len()
            &&& forall|i: int| 0 <= i < n ==> #[trigger] r->Ok_0@[i] == fetched[i]
            &&& after.last_request_end == Some((offset + n) as u64)
            &&& after.generation == reader.generation
            &&& fetched.len() <= reader.config.max_cache_bytes ==> after.cache == Some(
                WindowView { generation: reader.generation, start: offset, data: fetched },
            )
            &&& fetched.len() > reader.config.max_cache_bytes ==> after.cache is None
        },
{
}

/// A reader asks for more ahead if and only if its head lies in its window or right behind it, before
/// the end of the file, and no more than half of the read-ahead, or a single byte, is left behind the
/// head. It then asks for the read-ahead from the head on.
pub proof fn law_hint(reader: ReaderView, file_len: u64)
    requires
        reader.cache is Some ==> reader.cache->0.start + reader.cache->0.data.len() <= u64::MAX,
    ensures
        reader.hint(file_len) is Ok,
        reader.hint(file_len)->Ok_0 is Some <==> {
            let head = reader.last_request_end->0 as int;
            let left = reader.cache->0.start + reader.cache->0.data.len() - head;
            &&& reader.last_request_end is Some
            &&& head < file_len
            &&& at_window(reader, head)
            &&& 2 * left <= reader.config.read_ahead_bytes || left <= 1
        },
        reader.hint(file_len)->Ok_0 is Some ==> reader.hint(file_len)->Ok_0->0 == (
            reader.last_request_end->0,
            reader.config.read_ahead_bytes,
        ),
{
}

/// A background extension begins right behind the window. It drops just those bytes that lie further
/// behind the head than the read-ahead, or than the cache is large. With what it fetches the cache is
/// never over its bound and never beyond the end of the file, and it fetches the whole read-ahead
/// unless one of the two stops it.
pub proof fn law_extension_plan(
    reader: ReaderView,
    file_len: u64,
    hint_offset: u64,
    hint_length: usize,
)
    requires
        reader.wf(),
        reader.extension(file_len, hint_offset, hint_length) is Ok,
        reader.extension(file_len, hint_offset, hint_length)->Ok_0 is Some,
    ensures
        ({
            let plan = reader.extension(file_len, hint_offset, hint_length)->Ok_0->0;
            let window = reader.cache->0;
            let end = window.start + window.data.len();
            let head = if reader.last_request_end is Some {
                reader.last_request_end->0
            } else {
                window.start
            };
            let ahead = reader.config.read_ahead_bytes as int;
            let cache = reader.config.max_cache_bytes as int;
            let back = if ahead <= cache {
                ahead
            } else {
                cache
            };
            let kept = window.data.len() - plan.drop_prefix;
            &&& hint_length > 0
            &&& hint_offset < file_len
            &&& at_window(reader, hint_offset as int)
            &&& plan.offset == end
            &&& plan.reader_generation == reader.generation
            &&& plan.expected_cache_start == window.start
            &&& plan.expected_cache_len == window.data.len()
            &&& plan.drop_prefix == if head - back > window.start {
                head - back - window.start
            } else {
                0
            }
            &&& 0 < plan.fetch_len <= ahead
            &&& kept + plan.fetch_len <= cache
            &&& end + plan.fetch_len <= file_len
            &&& plan.fetch_len == ahead || kept + plan.fetch_len == cache || end + plan.fetch_len
                == file_len || plan.fetch_len == usize::MAX
        }),
{
}

/// A background extension joins the cache byte for byte: the window moves by what is dropped, what
/// stays is as it was, and what was fetched follows it, as far as the cache takes it. Where the cache
/// is not as it was when the plan was made, nothing changes.
pub proof fn law_extension_is_taken(
    r: Result<usize, StreamError>,
    reader: ReaderView,
    after: ReaderView,
    plan: PrefetchExtension,
    fetched: Seq<u8>,
)
    requires
        reader.wf(),
        extension_taken(r, reader, after, plan, fetched, false),
        reader.cache is Some ==> reader.cache->0.start + reader.cache->0.data.len() <= u64::MAX,
    ensures
        r is Ok,
        ({
            let window = reader.cache->0;
            let fits = {
                &&& reader.cache is Some
                &&& window.generation == reader.generation
                &&& plan.reader_generation == reader.generation
                &&& window.start == plan.expected_cache_start
                &&& window.data.len() == plan.expected_cache_len
                &&& window.start + window.data.len() == plan.offset
                &&& plan.drop_prefix <= window.data.len()
            };
            let kept = window.data.len() - plan.drop_prefix;
            let n = r->Ok_0 as int;
            &&& !fits ==> n == 0 && after == reader
            &&& fits ==> {
                let now = after.cache->0;
                &&& after.cache is Some
                &&& now.start == window.start + plan.drop_prefix
                &&& now.data.len() == kept + n
                &&& n <= fetched.len()
                &&& kept + n <= reader.config.max_cache_bytes
                &&& n == fetched.len() || kept + n == reader.config.max_cache_bytes
                &&& forall|i: int|
                    0 <= i < kept ==> #[trigger] now.data[i] == window.data[plan.drop_prefix + i]
                &&& forall|i: int| 0 <= i < n ==> #[trigger] now.data[kept + i] == fetched[i]
                &&& after.last_request_end == reader.last_request_end
                &&& after.generation == reader.generation
                &&& now.generation == window.generation
            }
        }),
{
}

/// The throughput is the number of whole bytes in a second: none without bytes or time, and as much as
/// fits otherwise.
pub proof fn law_throughput(bytes: u64, micros: u64)
    ensures
        throughput_of(bytes, micros) is None <==> bytes == 0 || micros == 0,
        throughput_of(bytes, micros) is Some ==> {
            let q = throughput_of(bytes, micros)->0 as int;
            &&& q * micros <= bytes * 1_000_000
            &&& bytes * 1_000_000 < (q + 1) * micros || q == u64::MAX
        },
{
    if bytes > 0 && micros > 0 {
        let total = bytes * 1_000_000;
        let d = micros as int;
        let whole = total / d;
        assert(whole * d <= total < (whole + 1) * d) by (nonlinear_arith)
            requires
                d > 0,
                whole == total / d,
        ;
        let q = throughput_of(bytes, micros)->0 as int;
        assert(q <= whole);
        assert(q * d <= whole * d) by (nonlinear_arith)
            requires
                q <= whole,
                d > 0,
        ;
    }
}

/// A fetch is counted once, with its bytes and its time in whole microseconds, on the side that made
/// it and on no other.
pub proof fn law_fetches_are_counted(before: VideoReaderMetrics, bytes: nat, elapsed: Duration)
    requires
        before.foreground_fetches < u64::MAX,
        before.prefetch_fetches < u64::MAX,
        before.foreground_fetch_bytes + bytes <= u64::MAX,
        before.prefetch_fetch_bytes + bytes <= u64::MAX,
        before.foreground_fetch_micros + nanos_of(elapsed) / 1000 <= u64::MAX,
        before.prefetch_fetch_micros + nanos_of(elapsed) / 1000 <= u64::MAX,
    ensures
        before.with_foreground(bytes, elapsed) == (VideoReaderMetrics {
            foreground_fetches: (before.foreground_fetches + 1) as u64,
            foreground_fetch_bytes: (before.foreground_fetch_bytes + bytes) as u64,
            foreground_fetch_micros: (before.foreground_fetch_micros + nanos_of(elapsed)
                / 1000) as u64,
            ..before
        }),
        before.with_prefetch(bytes, elapsed) == (VideoReaderMetrics {
            prefetch_fetches: (before.prefetch_fetches + 1) as u64,
            prefetch_fetch_bytes: (before.prefetch_fetch_bytes + bytes) as u64,
            prefetch_fetch_micros: (before.prefetch_fetch_micros + nanos_of(elapsed)
                / 1000) as u64,
            ..before
        }),
{
}

/// A count that is capped never falls, never exceeds what it counts, and is exact where it fits.
pub proof fn law_capped(n: int)
    requires
        n >= 0,
    ensures
        capped(n) <= n,
        n <= u64::MAX ==> capped(n) == n,
        n > u64::MAX ==> capped(n) == 0xFFFF_FFFF_FFFF_FFFF,
{
}

/// After a read that was served, its broker asks for more ahead if and only if the read's generation is
/// current and the reader's head is near the end of its window; it asks for the read-ahead from the
/// head on, in the generations of the handle.
pub proof fn law_refill(runner: RunnerView, handle: VideoBrokerHandle, served: ReadCommand)
    requires
        runner.reader.cache is Some ==> runner.reader.cache->0.start
            + runner.reader.cache->0.data.len() <= u64::MAX,
    ensures
        refill_of(runner, handle, served) is Some <==> {
            let reader = runner.reader;
            let head = reader.last_request_end->0 as int;
            let left = reader.cache->0.start + reader.cache->0.data.len() - head;
            &&& handle.cancellation.generation == served.generation
            &&& reader.last_request_end is Some
            &&& head < handle.file_len
            &&& at_window(reader, head)
            &&& 2 * left <= reader.config.read_ahead_bytes || left <= 1
        },
        refill_of(runner, handle, served) is Some ==> {
            let refill = refill_of(runner, handle, served)->0;
            &&& refill.offset == runner.reader.last_request_end->0
            &&& refill.length == runner.reader.config.read_ahead_bytes
            &&& refill.playback_generation == served.generation
            &&& refill.prefetch_generation == handle.prefetch_cancellation.generation
        },
{
    law_hint(runner.reader, handle.file_len);
}

/// A generation is never followed by itself, and different generations are followed by different ones.
pub proof fn law_generations_differ(a: u64, b: u64)
    ensures
        next_generation(a) != a,
        next_generation(a) == next_generation(b) ==> a == b,
        a < u64::MAX ==> next_generation(a) == a + 1,
{
}

} // verus!
