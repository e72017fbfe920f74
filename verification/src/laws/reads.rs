//! What a read returns over its whole run: the bytes of the file, as many as were asked for.
//!
//! A run is followed through the messages alone. What a request asks for is read from its bytes, and
//! of a response only this is known: the data of a success are what stands in the file where the
//! request with its MessageId asked.

use crate::bytes::u16_at;
use crate::bytes::u32_at;
use crate::bytes::u64_at;
use crate::client::cancel::cancelable_accepted;
use crate::client::cancel::cancelable_begin_error;
use crate::client::cancel::cancelable_issue_error;
use crate::client::cancel::cancelable_polled;
use crate::client::cancel::cancelable_started;
use crate::client::cancel::chunk_lens;
use crate::client::cancel::law_batch_extends_file_bytes;
use crate::client::cancel::lemma_every_slot;
use crate::client::cancel::lemma_position_bound;
use crate::client::cancel::position_of;
use crate::client::cancel::BatchPhase;
use crate::client::cancel::CancelablePending;
use crate::client::cancel::CancelableRead;
use crate::client::cancel::CancelableStep;
use crate::client::cancel::CancelableView;
use crate::client::error::ClientError;
use crate::client::file::FileHandle;
use crate::client::pipeline::joined;
use crate::client::pipeline::law_pipelined_read_returns_file_bytes;
use crate::client::pipeline::lemma_slots_fill;
use crate::client::pipeline::lemma_slots_push;
use crate::client::pipeline::lemma_total_take;
use crate::client::pipeline::pipelined_accepted;
use crate::client::pipeline::pipelined_begin_error;
use crate::client::pipeline::pipelined_polled;
use crate::client::pipeline::pipelined_started;
use crate::client::pipeline::slots_are_from;
use crate::client::pipeline::total;
use crate::client::pipeline::PipelinedRead;
use crate::client::pipeline::PipelinedStep;
use crate::client::pipeline::PipelinedView;
use crate::client::read::chunk_data_of;
use crate::client::read::serial_after;
use crate::client::read::serial_answered;
use crate::client::read::serial_chunk_of;
use crate::client::read::serial_continues;
use crate::client::read::serial_started;
use crate::client::read::PipelinedReadOptions;
use crate::client::read::ReadOptions;
use crate::client::read::SerialRead;
use crate::client::read::SerialStep;
use crate::client::session::SessionConnection;
use crate::laws::limits::law_credit_limit;
use crate::laws::messages::cancel_sent;
use crate::laws::messages::law_cancel_message;
use crate::laws::messages::law_read_message;
use crate::laws::messages::multi_credit_session;
use crate::laws::messages::read_sent;
use crate::wire::header::header_of;
use vstd::prelude::*;

verus! {

/// What the READ requests that were sent ask for, by their MessageIds: a place and a length.
pub type Requests = Map<u64, (int, int)>;

/// The requests after a message: a READ, command 8, asks for the place at 72 and the length at 68,
/// under the MessageId at 24. Another message asks for nothing.
pub open spec fn requests_after(sent: Requests, m: Seq<u8>) -> Requests {
    if u16_at(m, 12) == 8 {
        sent.insert(u64_at(m, 24), (u64_at(m, 72) as int, u32_at(m, 68) as int))
    } else {
        sent
    }
}

/// Whether a response speaks the truth of a file: the data of a success, status 0, which stand where
/// the byte at 66 says and are as long as the field at 68 says, are what stands in the file where
/// the request with the MessageId at 24 asked.
pub open spec fn truthful(m: Seq<u8>, sent: Requests, content: Seq<u8>) -> bool {
    let at = m[66] as int;
    let n = u32_at(m, 68) as int;
    let place = sent[u64_at(m, 24)].0;
    u32_at(m, 8) == 0 && n > 0 && at + n <= m.len() && sent.contains_key(u64_at(m, 24)) ==> {
        &&& 0 <= place
        &&& place + n <= content.len()
        &&& m.subrange(at, at + n) == content.subrange(place, place + n)
    }
}

/// How many bytes a read is after: as many as it asks for, or what is left of the file.
pub open spec fn wanted(end_of_file: u64, offset: u64, length: usize) -> int {
    if offset + length <= end_of_file {
        length as int
    } else {
        end_of_file - offset
    }
}

/// Whether the requests of a batch asked for what lies behind a place, one behind the other.
pub open spec fn placed(
    start: int,
    pending: Seq<CancelablePending>,
    sent: Requests,
    next_id: u64,
) -> bool {
    &&& forall|p: int|
        0 <= p < pending.len() ==> {
            &&& (#[trigger] pending[p]).message_id < next_id
            &&& sent.contains_key(pending[p].message_id)
            &&& sent[pending[p].message_id] == (
                start + total(chunk_lens(pending).take(p)) as int,
                pending[p].chunk_len as int,
            )
        }
    &&& forall|p: int, q: int|
        0 <= p < q < pending.len() ==> #[trigger] pending[p].message_id != #[trigger] pending[q].message_id
}

/// Whether a cancelable read is on its way to what is wanted of a file.
pub open spec fn on_track(
    read: CancelableView,
    next_id: u64,
    sent: Requests,
    content: Seq<u8>,
    offset: u64,
    want: int,
) -> bool {
    &&& read.wf()
    &&& read.offset == offset
    &&& read.target == want
    &&& offset + want <= content.len()
    &&& read.out == content.subrange(offset as int, offset + read.out.len())
    &&& slots_are_from(
        offset + read.out.len() as int,
        chunk_lens(read.pending),
        read.completed,
        content,
    )
    &&& placed(offset + read.out.len() as int, read.pending, sent, next_id)
}

/// Requests stay where they are when only the asynchronous part of one changes.
proof fn lemma_placed_update(
    start: int,
    pending: Seq<CancelablePending>,
    sent: Requests,
    next_id: u64,
    position: int,
    request: CancelablePending,
)
    requires
        placed(start, pending, sent, next_id),
        0 <= position < pending.len(),
        request.message_id == pending[position].message_id,
        request.chunk_len == pending[position].chunk_len,
    ensures
        placed(start, pending.update(position, request), sent, next_id),
        chunk_lens(pending.update(position, request)) == chunk_lens(pending),
{
    let after = pending.update(position, request);
    assert(chunk_lens(after) =~= chunk_lens(pending));
    assert forall|p: int| 0 <= p < after.len() implies {
        &&& (#[trigger] after[p]).message_id < next_id
        &&& sent.contains_key(after[p].message_id)
        &&& sent[after[p].message_id] == (
            start + total(chunk_lens(after).take(p)) as int,
            after[p].chunk_len as int,
        )
    } by {
        assert(pending[p].message_id < next_id);
    }
    assert forall|p: int, q: int| 0 <= p < q < after.len() implies #[trigger] after[p].message_id
        != #[trigger] after[q].message_id by {
        assert(pending[p].message_id != pending[q].message_id);
    }
}

/// A request that follows the others asks for what lies behind them.
proof fn lemma_placed_push(
    start: int,
    pending: Seq<CancelablePending>,
    sent: Requests,
    next_id: u64,
    request: CancelablePending,
    later: u64,
)
    requires
        placed(start, pending, sent, next_id),
        request.message_id == next_id,
        next_id < later,
    ensures
        placed(
            start,
            pending.push(request),
            sent.insert(
                next_id,
                (start + total(chunk_lens(pending)) as int, request.chunk_len as int),
            ),
            later,
        ),
{
    let after = pending.push(request);
    let place = start + total(chunk_lens(pending)) as int;
    let known = sent.insert(next_id, (place, request.chunk_len as int));
    let n = pending.len() as int;
    assert(chunk_lens(after).take(n) =~= chunk_lens(pending));
    assert forall|p: int| 0 <= p < after.len() implies {
        &&& (#[trigger] after[p]).message_id < later
        &&& known.contains_key(after[p].message_id)
        &&& known[after[p].message_id] == (
            start + total(chunk_lens(after).take(p)) as int,
            after[p].chunk_len as int,
        )
    } by {
        if p < n {
            assert(pending[p].message_id < next_id);
            assert(chunk_lens(after).take(p) =~= chunk_lens(pending).take(p));
        }
    }
    assert forall|p: int, q: int| 0 <= p < q < after.len() implies #[trigger] after[p].message_id
        != #[trigger] after[q].message_id by {
        assert(pending[p].message_id < next_id);
        if q < n {
            assert(pending[p].message_id != pending[q].message_id);
        }
    }
}

/// Requests that were placed before a MessageId were placed before a later one.
proof fn lemma_placed_later(
    start: int,
    pending: Seq<CancelablePending>,
    sent: Requests,
    next_id: u64,
    later: u64,
)
    requires
        placed(start, pending, sent, next_id),
        next_id <= later,
    ensures
        placed(start, pending, sent, later),
{
    assert forall|p: int| 0 <= p < pending.len() implies (#[trigger] pending[p]).message_id
        < later by {}
}

/// Whether a chunk is the longest that limits allow: no longer than what is missing, the chunk size, the
/// negotiated limit and 64 KiB for each credit, or once where a request costs one at most, and as long
/// as one of these.
pub open spec fn longest(
    n: int,
    missing: int,
    chunk_size: int,
    max_read_size: int,
    multi_credit: bool,
    credits: int,
) -> bool {
    let paid = if credits == 0 {
        0
    } else if multi_credit {
        credits * 65_536
    } else {
        65_536
    };
    &&& n <= missing
    &&& n <= chunk_size
    &&& n <= max_read_size
    &&& n <= paid
    &&& n == missing || n == chunk_size || n == max_read_size || n == paid
}

/// The READ request of a cancelable read asks, read back from its bytes, for the file of the read, for
/// what lies right behind all that was asked for before, and for as much as is missing, or as the chunk
/// size, the negotiated limit and the credits allow.
pub proof fn law_cancelable_request<T>(
    r: Result<CancelableStep, ClientError>,
    session: SessionConnection<T>,
    after: SessionConnection<T>,
    read: CancelableView,
    current: bool,
)
    requires
        read.wf(),
        read.phase is Filling,
        cancelable_polled(r, session, after, read, current),
        r is Ok,
        r->Ok_0 is Send,
    ensures
        ({
            let m = r->Ok_0->Send_1@;
            let n = u32_at(m, 68) as int;
            &&& current
            &&& n > 0
            &&& longest(
                n,
                read.target - read.out.len() - read.scheduled,
                read.options.chunk_size as int,
                session.connection.negotiated->0.max_read_size as int,
                session.connection.negotiated->0.multi_credit(),
                session.connection.credits->0.available as int,
            )
            &&& read.pending.len() < read.options.max_in_flight
            &&& read_sent(
                m,
                session,
                read.file_id,
                read.tree_id,
                read.offset + read.out.len() + read.scheduled,
                n,
                session.connection.negotiated->0.multi_credit(),
                read.options.credit_request,
            )
            &&& after.connection.message_ids.next > session.connection.message_ids.next
            &&& r->Ok_0->Send_0@ == read.sent(session.connection.message_ids.next, n)
        }),
{
    let chunk = read.next_chunk(session);
    let multi = session.connection.negotiated->0.multi_credit();
    let place = read.offset + read.out.len() + read.scheduled;
    assert(cancelable_issue_error(session, read, chunk) is None);
    assert(crate::client::read::issue_error(
        session,
        read.file_id,
        read.tree_id,
        place,
        chunk,
        multi,
        read.options.credit_request,
    ) is None);
    law_read_message(
        session,
        read.file_id,
        read.tree_id,
        place,
        chunk,
        multi,
        read.options.credit_request,
    );
}

/// A cancelable read at one moment: the session, the read, and what was asked for so far.
pub struct CancelableMoment<T> {
    pub session: SessionConnection<T>,
    pub read: CancelableView,
    pub sent: Requests,
}

/// Whether asking what to do leads from one moment to the next.
pub open spec fn cancelable_asks<T>(
    a: CancelableMoment<T>,
    b: CancelableMoment<T>,
    r: Result<CancelableStep, ClientError>,
    current: bool,
) -> bool {
    &&& cancelable_polled(r, a.session, b.session, a.read, current)
    &&& r is Ok
    &&& match r->Ok_0 {
        CancelableStep::Send(read, m) => b.read == read@ && b.sent == requests_after(a.sent, m@),
        CancelableStep::Again(read) => b.read == read@ && b.sent == a.sent,
        CancelableStep::Receive(read) => b.read == read@ && b.sent == a.sent,
        CancelableStep::Done(_) => false,
    }
}

/// Whether a truthful response leads from one moment to the next.
pub open spec fn cancelable_hears<T>(
    a: CancelableMoment<T>,
    b: CancelableMoment<T>,
    r: Result<CancelableRead, ClientError>,
    m: Seq<u8>,
    content: Seq<u8>,
) -> bool {
    &&& a.read.phase is Receiving
    &&& cancelable_accepted(r, a.session, b.session, a.read, m)
    &&& truthful(m, a.sent, content)
    &&& r is Ok
    &&& b.read == r->Ok_0@
    &&& b.sent == a.sent
}

/// Whether one moment of a cancelable read follows another.
pub open spec fn cancelable_moves<T>(
    a: CancelableMoment<T>,
    b: CancelableMoment<T>,
    content: Seq<u8>,
) -> bool {
    &&& b.read.wf()
    &&& {
        ||| exists|r: Result<CancelableStep, ClientError>, current: bool| #[trigger]
            cancelable_asks(a, b, r, current)
        ||| exists|r: Result<CancelableRead, ClientError>, m: Seq<u8>| #[trigger]
            cancelable_hears(a, b, r, m, content)
    }
}

/// Asking what to do keeps a read on its way.
#[verifier::spinoff_prover]
proof fn lemma_asking_keeps<T>(
    a: CancelableMoment<T>,
    b: CancelableMoment<T>,
    r: Result<CancelableStep, ClientError>,
    current: bool,
    content: Seq<u8>,
    offset: u64,
    want: int,
)
    requires
        on_track(a.read, a.session.connection.message_ids.next, a.sent, content, offset, want),
        b.read.wf(),
        cancelable_asks(a, b, r, current),
    ensures
        on_track(b.read, b.session.connection.message_ids.next, b.sent, content, offset, want),
{
    let read = a.read;
    let next = a.session.connection.message_ids.next;
    let start = offset + read.out.len() as int;
    match read.phase {
        BatchPhase::Filling => {
            if r->Ok_0 is Send {
                law_cancelable_request(r, a.session, b.session, read, current);
                let m = r->Ok_0->Send_1@;
                let chunk = u32_at(m, 68) as int;
                lemma_slots_push(
                    start,
                    chunk_lens(read.pending),
                    read.completed,
                    content,
                    chunk as nat,
                );
                assert(chunk_lens(b.read.pending) =~= chunk_lens(read.pending).push(chunk as nat));
                lemma_placed_push(
                    start,
                    read.pending,
                    a.sent,
                    next,
                    b.read.pending.last(),
                    b.session.connection.message_ids.next,
                );
                assert(b.read.pending =~= read.pending.push(b.read.pending.last()));
            }
        },
        BatchPhase::CancelAll(from) => {
            if r->Ok_0 is Send {
                let position = from as int;
                law_cancel_message(a.session, read.pending[position]);
                lemma_placed_update(
                    start,
                    read.pending,
                    a.sent,
                    next,
                    position,
                    b.read.pending[position],
                );
                assert(b.read.pending =~= read.pending.update(position, b.read.pending[position]));
            }
        },
        BatchPhase::CancelOne(position) => {
            let position = position as int;
            law_cancel_message(a.session, read.pending[position]);
            lemma_placed_update(
                start,
                read.pending,
                a.sent,
                next,
                position,
                b.read.pending[position],
            );
            assert(b.read.pending =~= read.pending.update(position, b.read.pending[position]));
        },
        BatchPhase::Receiving => {
            if r->Ok_0 is Again && b.read.phase is Filling {
                crate::client::pipeline::lemma_filled_bound(read.completed);
                law_batch_extends_file_bytes(read, content);
                assert(read.take_count() == read.completed.len());
                assert(b.read.out == read.out + joined(read.completed, read.take_count()));
            }
        },
    }
}

/// A truthful response keeps a read on its way.
#[verifier::spinoff_prover]
proof fn lemma_hearing_keeps<T>(
    a: CancelableMoment<T>,
    b: CancelableMoment<T>,
    r: Result<CancelableRead, ClientError>,
    m: Seq<u8>,
    content: Seq<u8>,
    offset: u64,
    want: int,
)
    requires
        on_track(a.read, a.session.connection.message_ids.next, a.sent, content, offset, want),
        b.read.wf(),
        cancelable_hears(a, b, r, m, content),
    ensures
        on_track(b.read, b.session.connection.message_ids.next, b.sent, content, offset, want),
{
    let read = a.read;
    let next = a.session.connection.message_ids.next;
    let start = offset + read.out.len() as int;
    let id = header_of(m).message_id;
    let p = position_of(read.pending, id)->0;
    lemma_position_bound(read.pending, id);
    assert(read.pending[p].message_id == id);
    let place = start + total(chunk_lens(read.pending).take(p)) as int;
    assert(a.sent[id].0 == place);
    lemma_total_take(chunk_lens(read.pending), p);
    assert(place <= content.len());
    lemma_placed_update(start, read.pending, a.sent, next, p, b.read.pending[p]);
    assert(b.read.pending =~= read.pending.update(p, b.read.pending[p]));
    if b.read.completed[p] is Some {
        let data = b.read.completed[p]->0;
        assert(data == content.subrange(place, place + data.len())) by {
            if data.len() == 0 {
                assert(data =~= content.subrange(place, place));
            }
        }
        lemma_slots_fill(
            start,
            chunk_lens(read.pending),
            read.completed,
            content,
            p,
            data,
        );
        assert(b.read.completed =~= read.completed.update(p, Some(data)));
    }
}

/// Every moment of a cancelable read is on its way to what is wanted of the file: the target of a read
/// that has begun is the smaller of the length that was asked for and what lies between the offset
/// and the end of the file, for every chunk size, and stays so.
pub proof fn law_cancelable_read_stays_on_track<T>(
    moments: Seq<CancelableMoment<T>>,
    i: int,
    file: FileHandle,
    offset: u64,
    length: usize,
    options: PipelinedReadOptions,
    content: Seq<u8>,
)
    requires
        0 <= i < moments.len(),
        length > 0,
        offset < file.end_of_file,
        content.len() == file.end_of_file,
        moments[0].read == cancelable_started(file, offset, length, options),
        moments[0].read.wf(),
        forall|k: int|
            0 <= k < moments.len() - 1 ==> #[trigger] cancelable_moves(
                moments[k],
                moments[k + 1],
                content,
            ),
    ensures
        on_track(
            moments[i].read,
            moments[i].session.connection.message_ids.next,
            moments[i].sent,
            content,
            offset,
            wanted(file.end_of_file, offset, length),
        ),
        moments[i].read.target == wanted(file.end_of_file, offset, length),
    decreases i,
{
    let want = wanted(file.end_of_file, offset, length);
    if i == 0 {
        assert(moments[0].read.out =~= content.subrange(offset as int, offset as int));
    } else {
        law_cancelable_read_stays_on_track(
            moments,
            i - 1,
            file,
            offset,
            length,
            options,
            content,
        );
        let a = moments[i - 1];
        let b = moments[i];
        assert(cancelable_moves(a, moments[i - 1 + 1], content));
        if exists|r: Result<CancelableStep, ClientError>, current: bool| #[trigger]
            cancelable_asks(a, b, r, current) {
            let (r, current) = choose|r: Result<CancelableStep, ClientError>, current: bool|
             #[trigger]
                cancelable_asks(a, b, r, current);
            lemma_asking_keeps(a, b, r, current, content, offset, want);
        } else {
            let (r, m) = choose|r: Result<CancelableRead, ClientError>, m: Seq<u8>| #[trigger]
                cancelable_hears(a, b, r, m, content);
            lemma_hearing_keeps(a, b, r, m, content, offset, want);
        }
    }
}

/// A cancelable read that ends with data returns the bytes of the file from its offset on: where no
/// response came back short, just as many as were asked for, or all that is left of the file; and
/// never more.
pub proof fn law_cancelable_read_returns_the_file<T>(
    moments: Seq<CancelableMoment<T>>,
    file: FileHandle,
    offset: u64,
    length: usize,
    options: PipelinedReadOptions,
    content: Seq<u8>,
    r: Result<CancelableStep, ClientError>,
    after: SessionConnection<T>,
    current: bool,
)
    requires
        moments.len() > 0,
        length > 0,
        offset < file.end_of_file,
        content.len() == file.end_of_file,
        moments[0].read == cancelable_started(file, offset, length, options),
        moments[0].read.wf(),
        forall|k: int|
            0 <= k < moments.len() - 1 ==> #[trigger] cancelable_moves(
                moments[k],
                moments[k + 1],
                content,
            ),
        cancelable_polled(r, moments.last().session, after, moments.last().read, current),
        r is Ok,
        r->Ok_0 is Done,
    ensures
        ({
            let data = r->Ok_0->Done_0@;
            &&& data.len() <= length
            &&& offset + data.len() <= content.len()
            &&& data == content.subrange(offset as int, offset + data.len())
            &&& moments.last().read.short_response_at is None ==> data.len() == wanted(
                file.end_of_file,
                offset,
                length,
            )
        }),
{
    let i = moments.len() - 1;
    law_cancelable_read_stays_on_track(moments, i, file, offset, length, options, content);
    let read = moments.last().read;
    if read.phase is Receiving {
        crate::client::pipeline::lemma_filled_bound(read.completed);
        law_batch_extends_file_bytes(read, content);
        let n = read.take_count();
        assert forall|p: int| 0 <= p < read.completed.len() implies #[trigger] read.completed[
            p
        ] is Some by {
            lemma_every_slot(read.completed, p);
        }
        crate::client::cancel::lemma_joined_bound(read, n);
        lemma_total_take(chunk_lens(read.pending), n);
    }
}

/// A read is marked as cut short only by a response that was: one that reports the end of the file,
/// or a success with less data than its request asked for.
pub proof fn law_short_only_where_a_response_was<T>(
    a: CancelableMoment<T>,
    b: CancelableMoment<T>,
    r: Result<CancelableRead, ClientError>,
    m: Seq<u8>,
    content: Seq<u8>,
    offset: u64,
    want: int,
)
    requires
        on_track(a.read, a.session.connection.message_ids.next, a.sent, content, offset, want),
        cancelable_hears(a, b, r, m, content),
        a.read.short_response_at is None,
        b.read.short_response_at is Some,
    ensures
        u32_at(m, 8) == 0xC000_0011 || (u32_at(m, 8) == 0 && u32_at(m, 68) < a.sent[u64_at(
            m,
            24,
        )].1),
{
    let id = header_of(m).message_id;
    let p = position_of(a.read.pending, id)->0;
    lemma_position_bound(a.read.pending, id);
    assert(a.read.pending[p].message_id == id);
}

/// Whether the outstanding requests of a pipelined read asked for what their slots wait for.
pub open spec fn slots_asked(read: PipelinedView, sent: Requests) -> bool {
    forall|id: u64| #[trigger]
        read.outstanding.contains_key(id) ==> {
            let request = read.outstanding[id];
            &&& sent.contains_key(id)
            &&& sent[id] == (
                read.offset + total(read.chunks.take(request.position as int)) as int,
                request.chunk_len as int,
            )
        }
}

/// Whether a pipelined read is on its way to what is wanted of a file.
pub open spec fn pipelined_on_track(
    read: PipelinedView,
    next_id: u64,
    sent: Requests,
    content: Seq<u8>,
    offset: u64,
    want: int,
) -> bool {
    &&& read.wf()
    &&& read.ids_before(next_id)
    &&& read.offset == offset
    &&& read.target == want
    &&& offset + want <= content.len()
    &&& slots_are_from(offset as int, read.chunks, read.completed, content)
    &&& slots_asked(read, sent)
}

/// The READ request of a pipelined read asks, read back from its bytes, for the file of the read, for
/// what lies right behind all that was asked for before, and for as much as is missing, or as the chunk
/// size, the negotiated limit and the credits allow.
pub proof fn law_pipelined_request<T>(
    r: Result<PipelinedStep, ClientError>,
    session: SessionConnection<T>,
    after: SessionConnection<T>,
    read: PipelinedView,
)
    requires
        read.wf(),
        pipelined_polled(r, session, after, read),
        r is Ok,
        r->Ok_0 is Send,
    ensures
        ({
            let m = r->Ok_0->Send_1@;
            let n = u32_at(m, 68) as int;
            &&& n > 0
            &&& longest(
                n,
                read.target - read.scheduled_bytes,
                read.options.chunk_size as int,
                read.max_read_size as int,
                read.multi_credit,
                session.connection.credits->0.available as int,
            )
            &&& read.outstanding.len() < read.options.max_in_flight
            &&& read_sent(
                m,
                session,
                read.file_id,
                read.tree_id,
                read.offset + read.scheduled_bytes,
                n,
                read.multi_credit,
                read.options.credit_request,
            )
            &&& after.connection.message_ids.next > session.connection.message_ids.next
            &&& r->Ok_0->Send_0@ == read.sent(session.connection.message_ids.next, n)
        }),
{
    let chunk = read.next_chunk(session.connection.credit_window()->0);
    law_read_message(
        session,
        read.file_id,
        read.tree_id,
        read.offset + read.scheduled_bytes,
        chunk,
        read.multi_credit,
        read.options.credit_request,
    );
}

/// A pipelined read at one moment: the session, the read, and what was asked for so far.
pub struct PipelinedMoment<T> {
    pub session: SessionConnection<T>,
    pub read: PipelinedView,
    pub sent: Requests,
}

/// Whether asking what to do leads from one moment to the next.
pub open spec fn pipelined_asks<T>(
    a: PipelinedMoment<T>,
    b: PipelinedMoment<T>,
    r: Result<PipelinedStep, ClientError>,
) -> bool {
    &&& pipelined_polled(r, a.session, b.session, a.read)
    &&& r is Ok
    &&& match r->Ok_0 {
        PipelinedStep::Send(read, m) => b.read == read@ && b.sent == requests_after(a.sent, m@),
        PipelinedStep::Receive(read) => b.read == read@ && b.sent == a.sent,
        PipelinedStep::Done(_) => false,
    }
}

/// Whether a truthful response leads from one moment to the next.
pub open spec fn pipelined_hears<T>(
    a: PipelinedMoment<T>,
    b: PipelinedMoment<T>,
    r: Result<PipelinedRead, ClientError>,
    m: Seq<u8>,
    content: Seq<u8>,
) -> bool {
    &&& pipelined_accepted(r, a.session, b.session, a.read, m)
    &&& truthful(m, a.sent, content)
    &&& r is Ok
    &&& b.read == r->Ok_0@
    &&& b.sent == a.sent
}

/// Whether one moment of a pipelined read follows another.
pub open spec fn pipelined_moves<T>(
    a: PipelinedMoment<T>,
    b: PipelinedMoment<T>,
    content: Seq<u8>,
) -> bool {
    &&& b.read.wf()
    &&& b.read.ids_before(b.session.connection.message_ids.next)
    &&& {
        ||| exists|r: Result<PipelinedStep, ClientError>| #[trigger] pipelined_asks(a, b, r)
        ||| exists|r: Result<PipelinedRead, ClientError>, m: Seq<u8>| #[trigger]
            pipelined_hears(a, b, r, m, content)
    }
}

/// Asking what to do keeps a pipelined read on its way.
#[verifier::spinoff_prover]
proof fn lemma_pipelined_asking<T>(
    a: PipelinedMoment<T>,
    b: PipelinedMoment<T>,
    r: Result<PipelinedStep, ClientError>,
    content: Seq<u8>,
    offset: u64,
    want: int,
)
    requires
        pipelined_on_track(
            a.read,
            a.session.connection.message_ids.next,
            a.sent,
            content,
            offset,
            want,
        ),
        b.read.wf(),
        b.read.ids_before(b.session.connection.message_ids.next),
        pipelined_asks(a, b, r),
    ensures
        pipelined_on_track(
            b.read,
            b.session.connection.message_ids.next,
            b.sent,
            content,
            offset,
            want,
        ),
{
    let read = a.read;
    if r->Ok_0 is Send {
        law_pipelined_request(r, a.session, b.session, read);
        let m = r->Ok_0->Send_1@;
        let chunk = u32_at(m, 68) as int;
        let new_id = a.session.connection.message_ids.next;
        lemma_slots_push(offset as int, read.chunks, read.completed, content, chunk as nat);
        assert forall|id: u64| #[trigger] b.read.outstanding.contains_key(id) implies {
            let request = b.read.outstanding[id];
            &&& b.sent.contains_key(id)
            &&& b.sent[id] == (
                b.read.offset + total(b.read.chunks.take(request.position as int)) as int,
                request.chunk_len as int,
            )
        } by {
            if id != new_id {
                assert(read.outstanding.contains_key(id));
                assert(read.waits(id));
                let p = read.outstanding[id].position as int;
                assert(b.read.chunks.take(p) =~= read.chunks.take(p));
            }
        }
    }
}

/// A truthful response keeps a pipelined read on its way.
#[verifier::spinoff_prover]
proof fn lemma_pipelined_hearing<T>(
    a: PipelinedMoment<T>,
    b: PipelinedMoment<T>,
    r: Result<PipelinedRead, ClientError>,
    m: Seq<u8>,
    content: Seq<u8>,
    offset: u64,
    want: int,
)
    requires
        pipelined_on_track(
            a.read,
            a.session.connection.message_ids.next,
            a.sent,
            content,
            offset,
            want,
        ),
        b.read.wf(),
        b.read.ids_before(b.session.connection.message_ids.next),
        pipelined_hears(a, b, r, m, content),
    ensures
        pipelined_on_track(
            b.read,
            b.session.connection.message_ids.next,
            b.sent,
            content,
            offset,
            want,
        ),
{
    let read = a.read;
    let id = header_of(m).message_id;
    assert(read.outstanding.contains_key(id));
    assert(read.waits(id));
    let p = read.outstanding[id].position as int;
    let place = offset + total(read.chunks.take(p)) as int;
    assert(a.sent[id].0 == place);
    lemma_total_take(read.chunks, p);
    assert(place <= content.len());
    assert forall|other: u64| #[trigger] b.read.outstanding.contains_key(other) implies {
        let request = b.read.outstanding[other];
        &&& b.sent.contains_key(other)
        &&& b.sent[other] == (
            b.read.offset + total(b.read.chunks.take(request.position as int)) as int,
            request.chunk_len as int,
        )
    } by {
        assert(read.outstanding.contains_key(other));
    }
    if b.read.completed != read.completed {
        let data = b.read.completed[p]->0;
        assert(data == content.subrange(place, place + data.len())) by {
            if data.len() == 0 {
                assert(data =~= content.subrange(place, place));
            }
        }
        lemma_slots_fill(offset as int, read.chunks, read.completed, content, p, data);
        assert(b.read.completed =~= read.completed.update(p, Some(data)));
    }
}

/// Every moment of a pipelined read is on its way to what is wanted of the file.
pub proof fn law_pipelined_read_stays_on_track<T>(
    moments: Seq<PipelinedMoment<T>>,
    i: int,
    file: FileHandle,
    offset: u64,
    length: usize,
    options: PipelinedReadOptions,
    content: Seq<u8>,
)
    requires
        0 <= i < moments.len(),
        length > 0,
        offset < file.end_of_file,
        content.len() == file.end_of_file,
        moments[0].read == pipelined_started(moments[0].session, file, offset, length, options),
        moments[0].read.wf(),
        forall|k: int|
            0 <= k < moments.len() - 1 ==> #[trigger] pipelined_moves(
                moments[k],
                moments[k + 1],
                content,
            ),
    ensures
        pipelined_on_track(
            moments[i].read,
            moments[i].session.connection.message_ids.next,
            moments[i].sent,
            content,
            offset,
            wanted(file.end_of_file, offset, length),
        ),
        moments[i].read.target == wanted(file.end_of_file, offset, length),
    decreases i,
{
    let want = wanted(file.end_of_file, offset, length);
    if i > 0 {
        law_pipelined_read_stays_on_track(moments, i - 1, file, offset, length, options, content);
        let a = moments[i - 1];
        let b = moments[i];
        assert(pipelined_moves(a, moments[i - 1 + 1], content));
        if exists|r: Result<PipelinedStep, ClientError>| #[trigger] pipelined_asks(a, b, r) {
            let r = choose|r: Result<PipelinedStep, ClientError>| #[trigger] pipelined_asks(a, b, r);
            lemma_pipelined_asking(a, b, r, content, offset, want);
        } else {
            let (r, m) = choose|r: Result<PipelinedRead, ClientError>, m: Seq<u8>| #[trigger]
                pipelined_hears(a, b, r, m, content);
            lemma_pipelined_hearing(a, b, r, m, content, offset, want);
        }
    }
}

/// A pipelined read that ends with data returns the bytes of the file from its offset on: where no
/// response came back short, just as many as were asked for, or all that is left of the file; and
/// never more.
pub proof fn law_pipelined_read_returns_the_file<T>(
    moments: Seq<PipelinedMoment<T>>,
    file: FileHandle,
    offset: u64,
    length: usize,
    options: PipelinedReadOptions,
    content: Seq<u8>,
    r: Result<PipelinedStep, ClientError>,
    after: SessionConnection<T>,
)
    requires
        moments.len() > 0,
        length > 0,
        offset < file.end_of_file,
        content.len() == file.end_of_file,
        moments[0].read == pipelined_started(moments[0].session, file, offset, length, options),
        moments[0].read.wf(),
        forall|k: int|
            0 <= k < moments.len() - 1 ==> #[trigger] pipelined_moves(
                moments[k],
                moments[k + 1],
                content,
            ),
        pipelined_polled(r, moments.last().session, after, moments.last().read),
        r is Ok,
        r->Ok_0 is Done,
    ensures
        ({
            let data = r->Ok_0->Done_0.data@;
            &&& data.len() <= length
            &&& offset + data.len() <= content.len()
            &&& data == content.subrange(offset as int, offset + data.len())
            &&& moments.last().read.short_response_at is None ==> data.len() == wanted(
                file.end_of_file,
                offset,
                length,
            )
        }),
{
    let i = moments.len() - 1;
    law_pipelined_read_stays_on_track(moments, i, file, offset, length, options, content);
    law_pipelined_read_returns_file_bytes(moments.last().read, content);
}

/// Whether a serial read is on its way to what is wanted of a file, and the request that it waits for
/// asked for what comes next.
pub open spec fn serial_on_track(
    read: SerialRead,
    sent: Requests,
    content: Seq<u8>,
    offset: u64,
    want: int,
) -> bool {
    &&& read.target == want
    &&& offset + want <= content.len()
    &&& read.out@.len() <= want
    &&& read.chunk_len <= want - read.out@.len()
    &&& read.next_offset == offset + read.out@.len()
    &&& read.out@ == content.subrange(offset as int, offset + read.out@.len())
    &&& sent.contains_key(read.message_id)
    &&& sent[read.message_id] == (read.next_offset as int, read.chunk_len as int)
}

/// Whether a serial read has what it has from a file.
pub open spec fn serial_holds(
    read: SerialRead,
    content: Seq<u8>,
    offset: u64,
    want: int,
) -> bool {
    &&& read.target == want
    &&& offset + want <= content.len()
    &&& read.out@.len() <= want
    &&& read.next_offset == offset + read.out@.len()
    &&& read.out@ == content.subrange(offset as int, offset + read.out@.len())
}

/// The READ request of a serial read asks, read back from its bytes, for what comes next, and for as much
/// as is missing, or as the negotiated limit and the credits allow.
proof fn lemma_serial_continues<T>(
    r: Result<SerialStep, ClientError>,
    session: SessionConnection<T>,
    read: SerialRead,
    sent: Requests,
    content: Seq<u8>,
    offset: u64,
    want: int,
)
    requires
        serial_holds(read, content, offset, want),
        offset + want <= u64::MAX,
        serial_continues(r, session, read),
        r is Ok,
    ensures
        match r->Ok_0 {
            SerialStep::Send(next, m) => {
                &&& serial_on_track(next, requests_after(sent, m@), content, offset, want)
                &&& read_sent(
                    m@,
                    session,
                    read.file_id,
                    read.tree_id,
                    read.next_offset as int,
                    next.chunk_len as int,
                    session.connection.negotiated->0.multi_credit(),
                    read.options.credit_request,
                )
                &&& longest(
                    next.chunk_len as int,
                    want - read.out@.len(),
                    want - read.out@.len(),
                    session.connection.negotiated->0.max_read_size as int,
                    session.connection.negotiated->0.multi_credit(),
                    session.connection.credits->0.available as int,
                )
                &&& next.file_id == read.file_id
                &&& next.tree_id == read.tree_id
                &&& next.options == read.options
            },
            SerialStep::Receive(_) => false,
            SerialStep::Done(data) => data@ == content.subrange(offset as int, offset + want),
        },
{
    if r->Ok_0 is Send {
        let chunk = serial_chunk_of(session, read.target - read.out@.len());
        law_read_message(
            session,
            read.file_id,
            read.tree_id,
            read.next_offset as int,
            chunk,
            session.connection.negotiated->0.multi_credit(),
            read.options.credit_request,
        );
    }
}

/// A serial read begins with a request for the bytes at its offset, and is after the smaller of the
/// length that was asked for and what lies between the offset and the end of the file.
pub proof fn law_serial_read_begins<T>(
    r: Result<SerialStep, ClientError>,
    session: SessionConnection<T>,
    read: SerialRead,
    sent: Requests,
    file: FileHandle,
    offset: u64,
    length: usize,
    options: ReadOptions,
    content: Seq<u8>,
)
    requires
        length > 0,
        offset < file.end_of_file,
        content.len() == file.end_of_file,
        serial_started(read, file, offset, length, options),
        serial_continues(r, session, read),
        r is Ok,
    ensures
        r->Ok_0 is Send,
        serial_on_track(
            r->Ok_0->Send_0,
            requests_after(sent, r->Ok_0->Send_1@),
            content,
            offset,
            wanted(file.end_of_file, offset, length),
        ),
        read_sent(
            r->Ok_0->Send_1@,
            session,
            file.file_id,
            file.tree_id,
            offset as int,
            u32_at(r->Ok_0->Send_1@, 68) as int,
            session.connection.negotiated->0.multi_credit(),
            options.credit_request,
        ),
        longest(
            u32_at(r->Ok_0->Send_1@, 68) as int,
            wanted(file.end_of_file, offset, length),
            wanted(file.end_of_file, offset, length),
            session.connection.negotiated->0.max_read_size as int,
            session.connection.negotiated->0.multi_credit(),
            session.connection.credits->0.available as int,
        ),
{
    let want = wanted(file.end_of_file, offset, length);
    assert(read.out@ =~= content.subrange(offset as int, offset as int));
    lemma_serial_continues(r, session, read, sent, content, offset, want);
}

/// A serial read that is on its way stays so through every truthful response: an interim response
/// changes nothing of it, a full one leads to a request for what comes next, and the end is the bytes
/// of the file, as many as are wanted unless the last response came back short.
pub proof fn law_serial_read_returns_the_file<T>(
    r: Result<SerialStep, ClientError>,
    session: SessionConnection<T>,
    after: SessionConnection<T>,
    read: SerialRead,
    m: Seq<u8>,
    sent: Requests,
    content: Seq<u8>,
    offset: u64,
    want: int,
)
    requires
        serial_on_track(read, sent, content, offset, want),
        offset + want <= u64::MAX,
        serial_answered(r, session, after, read, m),
        truthful(m, sent, content),
        r is Ok,
    ensures
        match r->Ok_0 {
            SerialStep::Send(next, message) => serial_on_track(
                next,
                requests_after(sent, message@),
                content,
                offset,
                want,
            ),
            SerialStep::Receive(next) => serial_on_track(next, sent, content, offset, want),
            SerialStep::Done(data) => {
                let n = data@.len();
                &&& n <= want
                &&& data@ == content.subrange(offset as int, offset + n)
                &&& u32_at(m, 8) == 0 && u32_at(m, 68) == sent[u64_at(m, 24)].1 ==> n == want
            },
        },
{
    let data = chunk_data_of(m, read.chunk_len as int);
    let place = read.next_offset as int;
    if !(r->Ok_0 is Receive) {
        let got = data->Ok_0;
        assert(place + got.len() <= content.len() && got == content.subrange(
            place,
            place + got.len(),
        )) by {
            if got.len() == 0 {
                assert(got =~= content.subrange(place, place));
            }
        }
        assert(read.out@ + got =~= content.subrange(
            offset as int,
            offset + read.out@.len() + got.len(),
        ));
        if got.len() >= read.chunk_len {
            let granted = crate::client::read::read_granted(
                session,
                read.tree_id,
                read.message_id,
                read.async_state,
                m,
            );
            let next = choose|next: SerialRead|
                {
                    &&& #[trigger] serial_after(read, next, got)
                    &&& serial_continues(r, granted, next)
                    &&& after == crate::client::read::serial_charged(granted, next)
                };
            lemma_serial_continues(r, granted, next, sent, content, offset, want);
        }
    }
}

/// A cancelable read sends READ requests only while it is wanted and being filled. Once it is cancelled it
/// sends nothing but CANCELs, and only for requests that still lack their final response, each by its
/// own MessageId and AsyncId.
pub proof fn law_cancelled_reads_only_cancel<T>(
    r: Result<CancelableStep, ClientError>,
    session: SessionConnection<T>,
    after: SessionConnection<T>,
    read: CancelableView,
    current: bool,
)
    requires
        read.wf(),
        cancelable_polled(r, session, after, read, current),
        r is Ok,
        r->Ok_0 is Send,
    ensures
        ({
            let m = r->Ok_0->Send_1@;
            match read.phase {
                BatchPhase::Filling => u16_at(m, 12) == 8 && current && !read.cancelled,
                BatchPhase::CancelAll(p) => {
                    let request = read.pending[p as int];
                    &&& p < read.pending.len()
                    &&& read.completed[p as int] is None
                    &&& cancel_sent(m, session, request.message_id, request.async_state.async_id)
                    &&& r->Ok_0->Send_0@.phase == BatchPhase::CancelAll((p + 1) as usize)
                    &&& after == session
                },
                BatchPhase::CancelOne(p) => {
                    let request = read.pending[p as int];
                    &&& request.async_state.async_id is Some
                    &&& cancel_sent(m, session, request.message_id, request.async_state.async_id)
                    &&& r->Ok_0->Send_0@.phase is Receiving
                    &&& after == session
                },
                BatchPhase::Receiving => false,
            }
        }),
{
    match read.phase {
        BatchPhase::Filling => {
            law_cancelable_request(r, session, after, read, current);
        },
        BatchPhase::CancelAll(p) => {
            law_cancel_message(session, read.pending[p as int]);
        },
        BatchPhase::CancelOne(p) => {
            law_cancel_message(session, read.pending[p as int]);
        },
        BatchPhase::Receiving => {},
    }
}

/// Every request of a cancelled batch is looked at in its turn: one that lacks its final response is
/// cancelled, one that has it is passed over, and only behind the last one responses are waited for.
pub proof fn law_cancelling_reaches_every_request<T>(
    r: Result<CancelableStep, ClientError>,
    session: SessionConnection<T>,
    after: SessionConnection<T>,
    read: CancelableView,
    current: bool,
    p: usize,
)
    requires
        cancelable_polled(r, session, after, read, current),
        read.phase == BatchPhase::CancelAll(p),
        r is Ok,
    ensures
        p < read.pending.len() && read.completed[p as int] is None <==> r->Ok_0 is Send,
        p < read.pending.len() && read.completed[p as int] is Some ==> r->Ok_0 is Again
            && r->Ok_0->Again_0@.phase == BatchPhase::CancelAll((p + 1) as usize),
        p >= read.pending.len() ==> r->Ok_0 is Again && r->Ok_0->Again_0@.phase is Receiving,
{
}

/// A read that is no longer wanted is cancelled at once where requests are outstanding, from the first of
/// them on, and ends where none is. One that is cancelled, or that the server has failed, never returns
/// data: when its last response has come it ends with the cancellation, or else with the first failure
/// of the server.
pub proof fn law_cancelled_read_returns_nothing<T>(
    r: Result<CancelableStep, ClientError>,
    session: SessionConnection<T>,
    after: SessionConnection<T>,
    read: CancelableView,
    current: bool,
)
    requires
        read.wf(),
        read.out.len() < read.target,
        cancelable_polled(r, session, after, read, current),
    ensures
        read.cancelled || read.first_status_error is Some || !current ==> !(r is Ok && r->Ok_0 is Done),
        !current && !read.cancelled && read.phase is Filling && read.pending.len() > 0 ==> r is Ok
            && r->Ok_0 is Again && r->Ok_0->Again_0@.cancelled && r->Ok_0->Again_0@.phase
            == BatchPhase::CancelAll(0),
        !current && !read.cancelled && read.phase is Receiving && read.received
            < read.pending.len() ==> r is Ok && r->Ok_0 is Again && r->Ok_0->Again_0@.cancelled
            && r->Ok_0->Again_0@.phase == BatchPhase::CancelAll(0),
        !current && read.phase is Filling && read.pending.len() == 0 ==> r == Err::<
            CancelableStep,
            _,
        >(ClientError::Cancelled),
        read.phase is Receiving && read.received == read.pending.len() && (read.cancelled
            || !current) ==> r == Err::<CancelableStep, _>(ClientError::Cancelled),
        read.phase is Receiving && read.received == read.pending.len() && !read.cancelled && current
            && read.first_status_error is Some ==> r == Err::<CancelableStep, _>(
            ClientError::ServerStatus(read.first_status_error->0),
        ),
{
}

/// A final response marks a read by what it is: success, status 0, with its data alone; the end of the file,
/// 0xC0000011, as cut short; 0xC0000120 as cancelled; any other status as a failure of the server, of
/// which the first is kept.
pub proof fn law_final_response_marks_the_read<T>(
    a: CancelableMoment<T>,
    b: CancelableMoment<T>,
    r: Result<CancelableRead, ClientError>,
    m: Seq<u8>,
    content: Seq<u8>,
)
    requires
        a.read.wf(),
        cancelable_hears(a, b, r, m, content),
        b.read.received == a.read.received + 1,
    ensures
        ({
            let status = u32_at(m, 8);
            &&& b.read.cancelled == (a.read.cancelled || status == 0xC000_0120u32)
            &&& b.read.first_status_error == if a.read.first_status_error is Some {
                a.read.first_status_error
            } else if status == 0 || status == 0xC000_0011u32 || status == 0xC000_0120u32 {
                None
            } else {
                Some(status)
            }
            &&& status == 0xC000_0011u32 ==> b.read.short_response_at is Some
            &&& b.read.out == a.read.out
            &&& b.read.target == a.read.target
        }),
{
}

/// A batch is filled until the window of the options is full, all that is wanted was asked for, or no credit
/// is left; only where none of these holds and the read is still wanted another request follows.
pub proof fn law_batches_are_filled<T>(
    r: Result<CancelableStep, ClientError>,
    session: SessionConnection<T>,
    after: SessionConnection<T>,
    read: CancelableView,
)
    requires
        read.wf(),
        read.phase is Filling,
        cancelable_polled(r, session, after, read, true),
        r is Ok,
        r->Ok_0 is Again,
        read.options.chunk_size > 0,
        session.connection.negotiated is Some,
        session.connection.negotiated->0.max_read_size > 0,
    ensures
        r->Ok_0->Again_0@.phase is Receiving,
        read.pending.len() > 0,
        ({
            ||| read.pending.len() >= read.options.max_in_flight
            ||| read.out.len() + read.scheduled == read.target
            ||| session.connection.credits->0.available == 0
        }),
{
    law_credit_limit(
        session.connection.negotiated->0.multi_credit(),
        session.connection.credits->0.available,
    );
}

/// A pipelined read waits for a response only where one is outstanding, and where the window of the options
/// is full, all that is wanted was asked for, the server has failed, a response came back short, or
/// no credit is left.
pub proof fn law_pipelines_are_filled<T>(
    r: Result<PipelinedStep, ClientError>,
    session: SessionConnection<T>,
    after: SessionConnection<T>,
    read: PipelinedView,
)
    requires
        read.wf(),
        pipelined_polled(r, session, after, read),
        r is Ok,
        r->Ok_0 is Receive,
        read.options.chunk_size > 0,
        read.max_read_size > 0,
    ensures
        read.outstanding.len() > 0,
        ({
            ||| read.outstanding.len() >= read.options.max_in_flight
            ||| read.scheduled_bytes == read.target
            ||| read.first_server_error is Some
            ||| read.short_response_at is Some
            ||| session.connection.credits->0.available == 0
        }),
{
    law_credit_limit(read.multi_credit, session.connection.credits->0.available);
}

/// A read of several requests begins if and only if its chunks and its window are not zero and the session
/// does not encrypt, bit 2 of its flags; one that can be cancelled must still be wanted, the other one
/// must know the negotiated limits. It is a read of the file it was begun for, with the options it was
/// given.
pub proof fn law_reads_begin_as_asked<T>(
    session: SessionConnection<T>,
    file: FileHandle,
    offset: u64,
    length: usize,
    options: PipelinedReadOptions,
    current: bool,
)
    ensures
        pipelined_begin_error(session, options) is None <==> {
            &&& options.chunk_size > 0
            &&& options.max_in_flight > 0
            &&& session.session_flags & 4 == 0
            &&& session.connection.negotiated is Some
        },
        cancelable_begin_error(session, options, current) is None <==> {
            &&& options.chunk_size > 0
            &&& options.max_in_flight > 0
            &&& session.session_flags & 4 == 0
            &&& current
        },
        ({
            let read = cancelable_started(file, offset, length, options);
            &&& read.file_id == file.file_id
            &&& read.tree_id == file.tree_id
            &&& read.offset == offset
            &&& read.options == options
        }),
        ({
            let read = pipelined_started(session, file, offset, length, options);
            let negotiated = session.connection.negotiated->0;
            &&& read.file_id == file.file_id
            &&& read.tree_id == file.tree_id
            &&& read.offset == offset
            &&& read.options == options
            &&& read.max_read_size == negotiated.max_read_size
            &&& read.multi_credit <==> multi_credit_session(session)
        }),
{
}

/// Whatever happens to a read, it stays a read of its file, its place and its options.
pub proof fn law_reads_keep_their_file<T>(
    a: CancelableMoment<T>,
    b: CancelableMoment<T>,
    c: PipelinedMoment<T>,
    d: PipelinedMoment<T>,
    content: Seq<u8>,
)
    ensures
        cancelable_moves(a, b, content) ==> {
            &&& b.read.file_id == a.read.file_id
            &&& b.read.tree_id == a.read.tree_id
            &&& b.read.offset == a.read.offset
            &&& b.read.target == a.read.target
            &&& b.read.options == a.read.options
        },
        pipelined_moves(c, d, content) ==> {
            &&& d.read.file_id == c.read.file_id
            &&& d.read.tree_id == c.read.tree_id
            &&& d.read.offset == c.read.offset
            &&& d.read.target == c.read.target
            &&& d.read.options == c.read.options
            &&& d.read.multi_credit == c.read.multi_credit
            &&& d.read.max_read_size == c.read.max_read_size
        },
{
}

} // verus!
