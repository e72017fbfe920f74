//! READ with several requests outstanding.
//!
//! The scheduler is credit-driven rather than batch-driven: it fills the current credit and window
//! allowance, consumes whichever response arrives next, applies that response's credit grant, and
//! immediately fills newly available capacity. Responses are correlated through an explicit
//! MessageId table and reassembled in file order. On a terminal server-status error no new READs
//! are issued and every already-sent READ is drained before the first error is returned, so that
//! the framed transport is not left with stale responses.

use crate::bytes::put_bytes;
use crate::client::credits::credit_cost;
use crate::client::error::from_wire;
use crate::client::error::ClientError;
use crate::client::file::FileHandle;
use crate::client::read::credit_limit_of;
use crate::client::read::credit_limited_payload;
use crate::client::read::decode_chunk;
use crate::client::read::issue_error;
use crate::client::read::issued_read;
use crate::client::read::read_charge_of;
use crate::client::read::read_charged;
use crate::client::read::read_granted;
use crate::client::read::read_limits_error;
use crate::client::read::read_payload_of;
use crate::client::read::read_refusal;
use crate::client::read::read_target_len;
use crate::client::read::smaller;
use crate::client::read::smaller_of;
use crate::client::read::target_of;
use crate::client::read::PipelinedReadOptions;
use crate::client::read::PipelinedReadResult;
use crate::client::read::PipelinedReadStats;
use crate::client::read::STATUS_END_OF_FILE;
use crate::client::read_async::async_state_after;
use crate::client::read_async::read_response_phase;
use crate::client::read_async::AsyncReadState;
use crate::client::read_async::ReadResponsePhase;
use crate::client::session::SessionConnection;
use crate::laws::reads::wanted;
use crate::wire::file_io::FileId;
use crate::wire::header::header_error;
use crate::wire::header::header_of;
use crate::wire::header::Smb2Header;
use crate::wire::header::StatusField;
use std::collections::HashMap;
use vstd::prelude::*;

verus! {

broadcast use vstd::std_specs::hash::group_hash_axioms;

/// A READ request that is outstanding.
#[derive(Debug, Clone, Copy, PartialEq, Eq, Structural)]
pub struct PendingRead {
    /// Which output slot its data belongs to.
    pub position: usize,
    pub chunk_len: usize,
    pub async_state: AsyncReadState,
}

/// The outstanding READ requests by MessageId.
#[derive(Debug)]
pub struct OutstandingReads {
    pub by_message_id: HashMap<u64, PendingRead>,
}

impl View for OutstandingReads {
    type V = Map<u64, PendingRead>;

    open spec fn view(&self) -> Map<u64, PendingRead> {
        self.by_message_id@
    }
}

impl OutstandingReads {
    /// An empty table, with room for a few requests.
    pub fn with_capacity(capacity: usize) -> (r: Self)
        ensures
            r@ == Map::<u64, PendingRead>::empty(),
    {
        OutstandingReads {
            by_message_id: HashMap::with_capacity(
                if capacity > 64 {
                    64
                } else {
                    capacity
                },
            ),
        }
    }

    /// How many requests are outstanding.
    pub fn len(&self) -> (r: usize)
        ensures
            r == self@.len(),
    {
        self.by_message_id.len()
    }

    /// Whether no request is outstanding.
    pub fn is_empty(&self) -> (r: bool)
        ensures
            r == (self@.len() == 0),
    {
        self.by_message_id.len() == 0
    }

    /// Adds a request. A MessageId that is outstanding is never reused.
    pub fn insert(&mut self, message_id: u64, request: PendingRead) -> (r: Result<(), ClientError>)
        ensures
            old(self)@.contains_key(message_id) ==> final(self)@ == old(self)@ && r == Err::<(), _>(
                ClientError::Protocol("pipelined READ reused an outstanding MessageId"),
            ),
            !old(self)@.contains_key(message_id) ==> r is Ok && final(self)@ == old(self)@.insert(
                message_id,
                request,
            ),
    {
        if self.by_message_id.contains_key(&message_id) {
            return Err(ClientError::Protocol("pipelined READ reused an outstanding MessageId"));
        }
        self.by_message_id.insert(message_id, request);
        Ok(())
    }

    /// The request with a MessageId.
    pub fn get(&self, message_id: u64) -> (r: Result<PendingRead, ClientError>)
        ensures
            self@.contains_key(message_id) ==> r == Ok::<PendingRead, ClientError>(
                self@[message_id],
            ),
            !self@.contains_key(message_id) ==> r == Err::<PendingRead, _>(
                ClientError::Protocol("pipelined READ response MessageId is not outstanding"),
            ),
    {
        match self.by_message_id.get(&message_id) {
            Some(request) => Ok(*request),
            None => Err(
                ClientError::Protocol("pipelined READ response MessageId is not outstanding"),
            ),
        }
    }

    /// Remembers the asynchronous state of a request.
    fn set_async_state(&mut self, message_id: u64, state: AsyncReadState)
        requires
            old(self)@.contains_key(message_id),
        ensures
            final(self)@ == old(self)@.insert(
                message_id,
                PendingRead { async_state: state, ..old(self)@[message_id] },
            ),
    {
        match self.by_message_id.get(&message_id) {
            Some(request) => {
                let mut request = *request;
                request.async_state = state;
                self.by_message_id.insert(message_id, request);
            },
            None => {},
        }
    }

    /// Takes a request out that has been answered for good.
    pub fn finish(&mut self, message_id: u64) -> (r: Result<PendingRead, ClientError>)
        ensures
            old(self)@.contains_key(message_id) ==> r == Ok::<PendingRead, ClientError>(
                old(self)@[message_id],
            ) && final(self)@ == old(self)@.remove(message_id),
            !old(self)@.contains_key(message_id) ==> final(self)@ == old(self)@ && r == Err::<
                PendingRead,
                _,
            >(
                ClientError::Protocol(
                    "pipelined READ received a duplicate or unknown final response",
                ),
            ),
    {
        match self.by_message_id.remove(&message_id) {
            Some(request) => Ok(request),
            None => {
                assert(self@ =~= old(self)@);
                Err(
                    ClientError::Protocol(
                        "pipelined READ received a duplicate or unknown final response",
                    ),
                )
            },
        }
    }
}

/// A pipelined read in progress.
pub struct PipelinedRead {
    pub file_id: FileId,
    pub tree_id: u32,
    pub offset: u64,
    /// How many bytes the read is after.
    pub target: usize,
    pub multi_credit: bool,
    pub max_read_size: usize,
    pub options: PipelinedReadOptions,
    pub outstanding: OutstandingReads,
    /// One slot for each request that was sent, in file order, with its data once it has come.
    pub completed: Vec<Option<Vec<u8>>>,
    /// How many bytes have been asked for.
    pub scheduled_bytes: usize,
    /// The first slot, in file order, that came back short.
    pub short_response_at: Option<usize>,
    /// The first NTSTATUS, in order of arrival, that was an error.
    pub first_server_error: Option<u32>,
    pub stats: PipelinedReadStats,
    /// How many bytes each slot was asked for.
    pub chunks: Ghost<Seq<nat>>,
}

/// What a pipelined read is.
pub struct PipelinedView {
    pub file_id: FileId,
    pub tree_id: u32,
    pub offset: u64,
    pub target: usize,
    pub multi_credit: bool,
    pub max_read_size: usize,
    pub options: PipelinedReadOptions,
    pub outstanding: Map<u64, PendingRead>,
    pub completed: Seq<Option<Seq<u8>>>,
    pub scheduled_bytes: usize,
    pub short_response_at: Option<usize>,
    pub first_server_error: Option<u32>,
    pub stats: PipelinedReadStats,
    pub chunks: Seq<nat>,
}

/// The data of one slot.
pub open spec fn slot_view(slot: Option<Vec<u8>>) -> Option<Seq<u8>> {
    match slot {
        Some(data) => Some(data@),
        None => None,
    }
}

/// The data of several slots.
pub open spec fn slot_views(slots: Seq<Option<Vec<u8>>>) -> Seq<Option<Seq<u8>>> {
    slots.map_values(|slot: Option<Vec<u8>>| slot_view(slot))
}

impl View for PipelinedRead {
    type V = PipelinedView;

    open spec fn view(&self) -> PipelinedView {
        PipelinedView {
            file_id: self.file_id,
            tree_id: self.tree_id,
            offset: self.offset,
            target: self.target,
            multi_credit: self.multi_credit,
            max_read_size: self.max_read_size,
            options: self.options,
            outstanding: self.outstanding@,
            completed: slot_views(self.completed@),
            scheduled_bytes: self.scheduled_bytes,
            short_response_at: self.short_response_at,
            first_server_error: self.first_server_error,
            stats: self.stats,
            chunks: self.chunks@,
        }
    }
}

/// The sum of the first chunks: where the slot behind them begins.
pub open spec fn total(chunks: Seq<nat>) -> nat
    decreases chunks.len(),
{
    if chunks.len() == 0 {
        0
    } else {
        total(chunks.drop_last()) + chunks.last()
    }
}

/// How many slots hold data.
pub open spec fn filled(slots: Seq<Option<Seq<u8>>>) -> nat
    decreases slots.len(),
{
    if slots.len() == 0 {
        0
    } else {
        filled(slots.drop_last()) + if slots.last() is Some {
            1nat
        } else {
            0nat
        }
    }
}

impl PipelinedView {
    /// Whether an outstanding request belongs to a slot that waits for it.
    pub open spec fn waits(self, id: u64) -> bool {
        let request = self.outstanding[id];
        &&& request.position < self.completed.len()
        &&& self.completed[request.position as int] is None
        &&& request.chunk_len == self.chunks[request.position as int]
    }

    /// Whether a slot that waits has an outstanding request.
    pub open spec fn awaited(self, position: int) -> bool {
        exists|id: u64| #[trigger]
            self.outstanding.contains_key(id) && self.outstanding[id].position == position
    }

    /// Whether a slot that is filled holds no more than it was asked for, and a short one is marked.
    pub open spec fn filled_in_order(self, position: int) -> bool {
        let data = self.completed[position]->0;
        &&& data.len() <= self.chunks[position]
        &&& self.first_server_error is None && data.len() < self.chunks[position] ==> {
            &&& self.short_response_at is Some
            &&& self.short_response_at->0 <= position
        }
    }

    /// Whether the parts of a read belong together.
    pub open spec fn wf(self) -> bool {
        &&& self.completed.len() == self.chunks.len()
        &&& forall|p: int| 0 <= p < self.chunks.len() ==> #[trigger] self.chunks[p] > 0
        &&& self.scheduled_bytes == total(self.chunks)
        &&& self.scheduled_bytes <= self.target
        &&& self.offset + self.target <= u64::MAX
        &&& self.max_read_size <= u32::MAX
        &&& self.outstanding.dom().finite()
        &&& forall|id: u64| #[trigger] self.outstanding.contains_key(id) ==> self.waits(id)
        &&& forall|a: u64, b: u64|
            #![trigger self.outstanding[a], self.outstanding[b]]
            self.outstanding.contains_key(a) && self.outstanding.contains_key(b) && a != b
                ==> self.outstanding[a].position != self.outstanding[b].position
        &&& forall|p: int|
            0 <= p < self.completed.len() && #[trigger] self.completed[p] is None ==> self.awaited(
                p,
            )
        &&& forall|p: int|
            0 <= p < self.completed.len() && #[trigger] self.completed[p] is Some
                ==> self.filled_in_order(p)
        &&& self.short_response_at is Some ==> {
            &&& self.short_response_at->0 < self.completed.len()
            &&& self.completed[self.short_response_at->0 as int] is Some
            &&& self.completed[self.short_response_at->0 as int]->0.len()
                < self.chunks[self.short_response_at->0 as int]
        }
        &&& self.outstanding.len() <= self.options.max_in_flight
        &&& self.stats.peak_in_flight <= self.options.max_in_flight
        &&& self.stats.requests_sent == self.completed.len()
        &&& self.stats.responses_completed == filled(self.completed)
    }

    /// Whether every outstanding MessageId lies before the next one of a connection.
    pub open spec fn ids_before(self, next: u64) -> bool {
        forall|id: u64| #[trigger] self.outstanding.contains_key(id) ==> id < next
    }

    /// Whether another request may be sent as far as the read is concerned.
    pub open spec fn wants_more(self) -> bool {
        &&& self.first_server_error is None
        &&& self.short_response_at is None
        &&& self.outstanding.len() < self.options.max_in_flight
        &&& self.scheduled_bytes < self.target
    }

    /// How long the next chunk is under a credit window.
    pub open spec fn next_chunk(self, credits: u32) -> int {
        smaller(
            smaller(
                smaller(self.target - self.scheduled_bytes, self.options.chunk_size as int),
                self.max_read_size as int,
            ),
            credit_limit_of(self.multi_credit, credits),
        )
    }

    /// How many slots the result is made of: up to the first short one.
    pub open spec fn take_count(self) -> int {
        match self.short_response_at {
            Some(position) => position + 1,
            None => self.completed.len() as int,
        }
    }

    /// The read after a request for a chunk was sent under a MessageId.
    pub open spec fn sent(self, message_id: u64, chunk: int) -> PipelinedView {
        let outstanding = self.outstanding.insert(
            message_id,
            PendingRead {
                position: self.completed.len() as usize,
                chunk_len: chunk as usize,
                async_state: AsyncReadState { async_id: None },
            },
        );
        PipelinedView {
            outstanding,
            completed: self.completed.push(None),
            scheduled_bytes: (self.scheduled_bytes + chunk) as usize,
            stats: PipelinedReadStats {
                requests_sent: (self.stats.requests_sent + 1) as usize,
                peak_in_flight: if self.stats.peak_in_flight as int >= outstanding.len() as int {
                    self.stats.peak_in_flight
                } else {
                    outstanding.len() as usize
                },
                ..self.stats
            },
            chunks: self.chunks.push(chunk as nat),
            ..self
        }
    }

    /// The read after a turn in which no credit was available.
    pub open spec fn stalled(self) -> PipelinedView {
        PipelinedView {
            stats: PipelinedReadStats {
                credit_stalls: if self.stats.credit_stalls == usize::MAX {
                    usize::MAX
                } else {
                    (self.stats.credit_stalls + 1) as usize
                },
                ..self.stats
            },
            ..self
        }
    }

    /// The read after an interim response.
    pub open spec fn interim(self, message_id: u64, state: AsyncReadState) -> PipelinedView {
        PipelinedView {
            outstanding: self.outstanding.insert(
                message_id,
                PendingRead { async_state: state, ..self.outstanding[message_id] },
            ),
            ..self
        }
    }

    /// The read after a final response that gave data, with a mark where it came back short, and
    /// perhaps a server error.
    pub open spec fn answered(
        self,
        message_id: u64,
        data: Seq<u8>,
        short: bool,
        server_error: Option<u32>,
    ) -> PipelinedView {
        let position = self.outstanding[message_id].position;
        PipelinedView {
            outstanding: self.outstanding.remove(message_id),
            completed: self.completed.update(position as int, Some(data)),
            short_response_at: if short {
                match self.short_response_at {
                    Some(current) => if current <= position {
                        Some(current)
                    } else {
                        Some(position)
                    },
                    None => Some(position),
                }
            } else {
                self.short_response_at
            },
            first_server_error: match self.first_server_error {
                Some(status) => Some(status),
                None => server_error,
            },
            stats: PipelinedReadStats {
                responses_completed: (self.stats.responses_completed + 1) as usize,
                ..self.stats
            },
            ..self
        }
    }
}

/// The data of the first slots, one after the other.
pub open spec fn joined(slots: Seq<Option<Seq<u8>>>, n: int) -> Seq<u8>
    decreases n,
{
    if n <= 0 {
        Seq::empty()
    } else {
        joined(slots, n - 1) + slots[n - 1]->0
    }
}

/// What to do next in a pipelined read.
pub enum PipelinedStep {
    /// Send this request and ask again.
    Send(PipelinedRead, Vec<u8>),
    /// Hand a response back.
    Receive(PipelinedRead),
    /// The read is over.
    Done(PipelinedReadResult),
}

/// How a pipelined read begins.
pub enum PipelinedStart {
    /// There is nothing to read.
    Done(PipelinedReadResult),
    /// There is; ask what to do.
    Running(PipelinedRead),
}

/// Why a pipelined read cannot begin, if it cannot.
pub open spec fn pipelined_begin_error<T>(
    session: SessionConnection<T>,
    options: PipelinedReadOptions,
) -> Option<ClientError> {
    if options.chunk_size == 0 {
        Some(ClientError::Protocol("pipelined READ chunk_size must be greater than zero"))
    } else if options.max_in_flight == 0 {
        Some(ClientError::Protocol("pipelined READ max_in_flight must be greater than zero"))
    } else if session.encrypts() {
        Some(ClientError::Protocol("encrypted SMB sessions are not implemented yet"))
    } else {
        read_limits_error(session)
    }
}

/// A pipelined read that has just begun.
pub open spec fn pipelined_started<T>(
    session: SessionConnection<T>,
    file: FileHandle,
    offset: u64,
    length: usize,
    options: PipelinedReadOptions,
) -> PipelinedView {
    let negotiated = session.connection.negotiated->0;
    PipelinedView {
        file_id: file.file_id,
        tree_id: file.tree_id,
        offset,
        target: target_of(file.end_of_file, offset, length) as usize,
        multi_credit: negotiated.multi_credit(),
        max_read_size: negotiated.max_read_size as usize,
        options,
        outstanding: Map::empty(),
        completed: Seq::empty(),
        scheduled_bytes: 0,
        short_response_at: None,
        first_server_error: None,
        stats: PipelinedReadStats {
            requests_sent: 0,
            responses_completed: 0,
            peak_in_flight: 0,
            credit_stalls: 0,
        },
        chunks: Seq::empty(),
    }
}

/// Whether a step is the one that a pipelined read calls for.
///
/// While it wants more and credits are there, the next chunk is asked for, right behind the last.
/// Else a response is waited for as long as one is outstanding. When none is, the first server error
/// is returned, or the result, which is the data of the slots in file order up to the first short
/// one.
pub open spec fn pipelined_polled<T>(
    r: Result<PipelinedStep, ClientError>,
    session: SessionConnection<T>,
    after: SessionConnection<T>,
    read: PipelinedView,
) -> bool {
    let window = session.connection.credit_window();
    let chunk = read.next_chunk(window->0);
    let failed = issue_error(
        session,
        read.file_id,
        read.tree_id,
        read.offset + read.scheduled_bytes,
        chunk,
        read.multi_credit,
        read.options.credit_request,
    );
    if read.wants_more() && window is None {
        r == Err::<PipelinedStep, _>(
            ClientError::Protocol("SMB credit window is not initialized"),
        ) && after == session
    } else if read.wants_more() && chunk > 0 {
        &&& after == read_charged(session, read.multi_credit, chunk)
        &&& failed is Some ==> r == Err::<PipelinedStep, ClientError>(failed->0)
        &&& failed is None ==> r is Ok && r->Ok_0 is Send && r->Ok_0->Send_0@ == read.sent(
            session.connection.message_ids.next,
            chunk,
        ) && r->Ok_0->Send_1@ == issued_read(
            session,
            read.file_id,
            read.tree_id,
            read.offset + read.scheduled_bytes,
            chunk,
            read.multi_credit,
            read.options.credit_request,
        )
    } else if read.outstanding.len() > 0 {
        &&& after == session
        &&& r is Ok && r->Ok_0 is Receive && r->Ok_0->Receive_0@ == if read.wants_more() {
            read.stalled()
        } else {
            read
        }
    } else if read.first_server_error is Some {
        r == Err::<PipelinedStep, _>(ClientError::ServerStatus(read.first_server_error->0))
            && after == session
    } else if read.short_response_at is Some || read.scheduled_bytes >= read.target {
        &&& after == session
        &&& r is Ok && r->Ok_0 is Done && r->Ok_0->Done_0.data@ == joined(
            read.completed,
            read.take_count(),
        ) && r->Ok_0->Done_0.stats == read.stats
    } else {
        r == Err::<PipelinedStep, _>(
            ClientError::Protocol(
                "SMB connection exhausted credits with no outstanding READ able to restore them",
            ),
        ) && after == session
    }
}

/// Whether a result is that of a response in a pipelined read.
pub open spec fn pipelined_accepted<T>(
    r: Result<PipelinedRead, ClientError>,
    session: SessionConnection<T>,
    after: SessionConnection<T>,
    read: PipelinedView,
    m: Seq<u8>,
) -> bool {
    let h = header_of(m);
    let id = h.message_id;
    let request = read.outstanding[id];
    let refused = read_refusal(session, read.tree_id, id, request.async_state, m);
    let granted = read_granted(session, read.tree_id, id, request.async_state, m);
    let payload = read_payload_of(m, request.chunk_len as int);
    if header_error(m) is Some {
        r == Err::<PipelinedRead, ClientError>(ClientError::Wire(header_error(m)->0)) && after
            == session
    } else if !read.outstanding.contains_key(id) {
        r == Err::<PipelinedRead, _>(
            ClientError::Protocol("pipelined READ response MessageId is not outstanding"),
        ) && after == session
    } else {
        &&& after == granted
        &&& if refused is Some {
            r == Err::<PipelinedRead, ClientError>(refused->0)
        } else if read_response_phase(h) == ReadResponsePhase::InterimPending {
            r is Ok && r->Ok_0@ == read.interim(id, async_state_after(request.async_state, h))
        } else {
            match h.status {
                StatusField::ChannelSequence { .. } => r == Err::<PipelinedRead, _>(
                    ClientError::Protocol("READ response used request header form"),
                ),
                StatusField::Status(status) => if status == 0 && read.first_server_error is None {
                    match payload {
                        Err(e) => r == Err::<PipelinedRead, ClientError>(e),
                        Ok(data) => r is Ok && r->Ok_0@ == read.answered(
                            id,
                            data,
                            data.len() < request.chunk_len,
                            None,
                        ),
                    }
                } else if status == 0 {
                    r is Ok && r->Ok_0@ == read.answered(id, Seq::empty(), false, None)
                } else if status == STATUS_END_OF_FILE {
                    r is Ok && r->Ok_0@ == read.answered(
                        id,
                        Seq::empty(),
                        read.first_server_error is None,
                        None,
                    )
                } else {
                    r is Ok && r->Ok_0@ == read.answered(id, Seq::empty(), false, Some(status))
                },
            }
        }
    }
}

/// What a response leaves of the slots that are not its own.
pub proof fn lemma_filled_update(slots: Seq<Option<Seq<u8>>>, position: int, data: Seq<u8>)
    requires
        0 <= position < slots.len(),
        slots[position] is None,
    ensures
        filled(slots.update(position, Some(data))) == filled(slots) + 1,
    decreases slots.len(),
{
    let updated = slots.update(position, Some(data));
    if position == slots.len() - 1 {
        assert(updated.drop_last() =~= slots.drop_last());
    } else {
        assert(updated.drop_last() =~= slots.drop_last().update(position, Some(data)));
        lemma_filled_update(slots.drop_last(), position, data);
    }
}

/// Chunks that hold something are no more than the bytes that they hold.
pub proof fn lemma_total_bound(chunks: Seq<nat>)
    requires
        forall|p: int| 0 <= p < chunks.len() ==> #[trigger] chunks[p] > 0,
    ensures
        chunks.len() <= total(chunks),
    decreases chunks.len(),
{
    if chunks.len() > 0 {
        let before = chunks.drop_last();
        assert forall|p: int| 0 <= p < before.len() implies #[trigger] before[p] > 0 by {
            assert(chunks[p] > 0);
        }
        lemma_total_bound(before);
        assert(chunks[chunks.len() - 1] > 0);
    }
}

/// No more slots are filled than there are.
pub proof fn lemma_filled_bound(slots: Seq<Option<Seq<u8>>>)
    ensures
        filled(slots) <= slots.len(),
    decreases slots.len(),
{
    if slots.len() > 0 {
        lemma_filled_bound(slots.drop_last());
    }
}

/// A slot that waits is one more than those that are filled.
pub proof fn lemma_filled_short(slots: Seq<Option<Seq<u8>>>, position: int)
    requires
        0 <= position < slots.len(),
        slots[position] is None,
    ensures
        filled(slots) < slots.len(),
    decreases slots.len(),
{
    if position == slots.len() - 1 {
        lemma_filled_bound(slots.drop_last());
    } else {
        lemma_filled_short(slots.drop_last(), position);
    }
}

/// Sending a request keeps the parts of a read together.
proof fn lemma_sent(read: PipelinedView, message_id: u64, chunk: int)
    requires
        read.wf(),
        read.ids_before(message_id),
        read.completed.len() < usize::MAX,
        read.outstanding.len() < read.options.max_in_flight,
        0 < chunk <= read.target - read.scheduled_bytes,
    ensures
        read.sent(message_id, chunk).wf(),
        forall|next: u64| next > message_id ==> read.sent(message_id, chunk).ids_before(next),
{
    let next = read.sent(message_id, chunk);
    assert forall|p: int| 0 <= p < next.chunks.len() implies #[trigger] next.chunks[p] > 0 by {
        if p < read.chunks.len() {
            assert(read.chunks[p] > 0);
        }
    }
    assert(next.chunks.drop_last() =~= read.chunks);
    assert(next.completed.drop_last() =~= read.completed);
    assert(!read.outstanding.contains_key(message_id));
    assert(next.outstanding.len() == read.outstanding.len() + 1);
    assert forall|id: u64| #[trigger] next.outstanding.contains_key(id) implies next.waits(id) by {
        if id != message_id {
            assert(read.outstanding.contains_key(id));
            assert(read.waits(id));
        }
    }
    assert forall|p: int| 0 <= p < next.completed.len() && #[trigger] next.completed[p] is None
        implies next.awaited(p) by {
        if p == read.completed.len() {
            assert(next.outstanding.contains_key(message_id));
        } else {
            assert(read.completed[p] is None);
            assert(read.awaited(p));
            let id = choose|id: u64| #[trigger]
                read.outstanding.contains_key(id) && read.outstanding[id].position == p;
            assert(next.outstanding.contains_key(id));
        }
    }
    assert forall|p: int| 0 <= p < next.completed.len() && #[trigger] next.completed[p] is Some
        implies next.filled_in_order(p) by {
        assert(read.completed[p] is Some);
        assert(read.filled_in_order(p));
    }
    assert forall|a: u64, b: u64|
        #![trigger next.outstanding[a], next.outstanding[b]]
        next.outstanding.contains_key(a) && next.outstanding.contains_key(b) && a != b implies next.outstanding[a].position
        != next.outstanding[b].position by {
        if a != message_id {
            assert(read.outstanding.contains_key(a));
            assert(read.waits(a));
        }
        if b != message_id {
            assert(read.outstanding.contains_key(b));
            assert(read.waits(b));
        }
    }
}

/// An interim response keeps the parts of a read together.
proof fn lemma_interim(read: PipelinedView, message_id: u64, state: AsyncReadState)
    requires
        read.wf(),
        read.outstanding.contains_key(message_id),
    ensures
        read.interim(message_id, state).wf(),
        forall|next: u64|
            read.ids_before(next) ==> read.interim(message_id, state).ids_before(next),
{
    let next = read.interim(message_id, state);
    assert(read.waits(message_id));
    assert forall|id: u64| #[trigger] next.outstanding.contains_key(id) implies next.waits(id) by {
        assert(read.outstanding.contains_key(id));
        assert(read.waits(id));
    }
    assert forall|p: int| 0 <= p < next.completed.len() && #[trigger] next.completed[p] is None
        implies next.awaited(p) by {
        assert(read.completed[p] is None);
        assert(read.awaited(p));
        let id = choose|id: u64| #[trigger]
            read.outstanding.contains_key(id) && read.outstanding[id].position == p;
        assert(next.outstanding.contains_key(id) && next.outstanding[id].position == p);
    }
    assert forall|p: int| 0 <= p < next.completed.len() && #[trigger] next.completed[p] is Some
        implies next.filled_in_order(p) by {
        assert(read.completed[p] is Some);
        assert(read.filled_in_order(p));
    }
    assert forall|a: u64, b: u64|
        #![trigger next.outstanding[a], next.outstanding[b]]
        next.outstanding.contains_key(a) && next.outstanding.contains_key(b) && a != b implies next.outstanding[a].position
        != next.outstanding[b].position by {
        assert(read.outstanding.contains_key(a) && read.outstanding.contains_key(b));
        assert(read.outstanding[a].position != read.outstanding[b].position);
    }
    assert forall|bound: u64| read.ids_before(bound) implies next.ids_before(bound) by {
        assert forall|id: u64| #[trigger] next.outstanding.contains_key(id) implies id < bound by {
            assert(read.outstanding.contains_key(id));
        }
    }
}

/// A final response keeps the parts of a read together.
proof fn lemma_answered(
    read: PipelinedView,
    message_id: u64,
    data: Seq<u8>,
    short: bool,
    server_error: Option<u32>,
)
    requires
        read.wf(),
        read.outstanding.contains_key(message_id),
        data.len() <= read.outstanding[message_id].chunk_len,
        short ==> data.len() < read.outstanding[message_id].chunk_len,
        read.first_server_error is None && server_error is None ==> short == (data.len()
            < read.outstanding[message_id].chunk_len),
        read.stats.responses_completed < usize::MAX,
    ensures
        read.answered(message_id, data, short, server_error).wf(),
        forall|next: u64|
            read.ids_before(next) ==> read.answered(
                message_id,
                data,
                short,
                server_error,
            ).ids_before(next),
{
    let next = read.answered(message_id, data, short, server_error);
    let position = read.outstanding[message_id].position as int;
    assert(read.waits(message_id));
    lemma_filled_update(read.completed, position, data);
    assert forall|id: u64| #[trigger] next.outstanding.contains_key(id) implies next.waits(id) by {
        assert(read.outstanding.contains_key(id));
        assert(read.waits(id));
        assert(read.outstanding[id].position != read.outstanding[message_id].position);
    }
    assert forall|p: int| 0 <= p < next.completed.len() && #[trigger] next.completed[p] is None
        implies next.awaited(p) by {
        assert(p != position);
        assert(read.completed[p] is None);
        assert(read.awaited(p));
        let id = choose|id: u64| #[trigger]
            read.outstanding.contains_key(id) && read.outstanding[id].position == p;
        assert(next.outstanding.contains_key(id));
    }
    assert forall|p: int| 0 <= p < next.completed.len() && #[trigger] next.completed[p] is Some
        implies next.filled_in_order(p) by {
        if p != position {
            assert(read.completed[p] is Some);
            assert(read.filled_in_order(p));
        }
    }
    assert forall|a: u64, b: u64|
        #![trigger next.outstanding[a], next.outstanding[b]]
        next.outstanding.contains_key(a) && next.outstanding.contains_key(b) && a != b implies next.outstanding[a].position
        != next.outstanding[b].position by {
        assert(read.outstanding.contains_key(a) && read.outstanding.contains_key(b));
        assert(read.outstanding[a].position != read.outstanding[b].position);
    }
    assert forall|bound: u64| read.ids_before(bound) implies next.ids_before(bound) by {
        assert forall|id: u64| #[trigger] next.outstanding.contains_key(id) implies id < bound by {
            assert(read.outstanding.contains_key(id));
        }
    }
}

/// Where nothing is outstanding, every slot is filled.
proof fn lemma_all_filled(read: PipelinedView, position: int)
    requires
        read.wf(),
        read.outstanding.len() == 0,
        0 <= position < read.completed.len(),
    ensures
        read.completed[position] is Some,
{
    if read.completed[position] is None {
        assert(read.awaited(position));
        let id = choose|id: u64| #[trigger]
            read.outstanding.contains_key(id) && read.outstanding[id].position == position;
        assert(read.outstanding.dom().contains(id));
        assert(read.outstanding.dom().len() == 0);
        assert(read.outstanding.dom() =~= Set::empty());
    }
}

/// Joins the data of the first slots.
pub fn join_slots(slots: &Vec<Option<Vec<u8>>>, n: usize) -> (r: Vec<u8>)
    requires
        n <= slots@.len(),
        forall|p: int| 0 <= p < n ==> #[trigger] slots@[p] is Some,
    ensures
        r@ == joined(slot_views(slots@), n as int),
{
    let mut out: Vec<u8> = Vec::new();
    assert(out@ =~= joined(slot_views(slots@), 0));
    let mut i: usize = 0;
    while i < n
        invariant
            i <= n <= slots@.len(),
            forall|p: int| 0 <= p < n ==> #[trigger] slots@[p] is Some,
            out@ == joined(slot_views(slots@), i as int),
        decreases n - i,
    {
        assert(slots@[i as int] is Some);
        match &slots[i] {
            Some(data) => {
                put_bytes(&mut out, data);
            },
            None => {},
        }
        assert(slot_views(slots@)[i as int] == slot_view(slots@[i as int]));
        i = i + 1;
    }
    out
}

impl<T> SessionConnection<T> {
    /// Begins to read a random-access window while keeping several READ requests outstanding.
    pub fn begin_read_at_pipelined(
        &self,
        file: &FileHandle,
        offset: u64,
        length: usize,
        options: PipelinedReadOptions,
    ) -> (r: Result<PipelinedStart, ClientError>)
        ensures
            if length == 0 || offset >= file.end_of_file {
                r is Ok && r->Ok_0 is Done && r->Ok_0->Done_0.data@.len() == 0
                    && r->Ok_0->Done_0.stats == (PipelinedReadStats {
                    requests_sent: 0,
                    responses_completed: 0,
                    peak_in_flight: 0,
                    credit_stalls: 0,
                })
            } else {
                match pipelined_begin_error(*self, options) {
                    Some(e) => r == Err::<PipelinedStart, ClientError>(e),
                    None => r is Ok && r->Ok_0 is Running && r->Ok_0->Running_0@
                        == pipelined_started(*self, *file, offset, length, options)
                        && r->Ok_0->Running_0@.wf(),
                }
            },
            r is Ok && r->Ok_0 is Running ==> r->Ok_0->Running_0@.target == wanted(
                file.end_of_file,
                offset,
                length,
            ),
    {
        if length == 0 || offset >= file.len() {
            return Ok(
                PipelinedStart::Done(
                    PipelinedReadResult { data: Vec::new(), stats: PipelinedReadStats::default() },
                ),
            );
        }
        if options.chunk_size == 0 {
            return Err(
                ClientError::Protocol("pipelined READ chunk_size must be greater than zero"),
            );
        }
        if options.max_in_flight == 0 {
            return Err(
                ClientError::Protocol("pipelined READ max_in_flight must be greater than zero"),
            );
        }
        self.ensure_not_encrypted()?;
        let target: usize = read_target_len(file, offset, length);
        let (multi_credit, max_read_size) = self.read_limits()?;
        let read = PipelinedRead {
            file_id: file.file_id,
            tree_id: file.tree_id,
            offset,
            target,
            multi_credit,
            max_read_size,
            options,
            outstanding: OutstandingReads::with_capacity(options.max_in_flight),
            completed: Vec::new(),
            scheduled_bytes: 0,
            short_response_at: None,
            first_server_error: None,
            stats: PipelinedReadStats::default(),
            chunks: Ghost(Seq::empty()),
        };
        assert(read@.completed =~= Seq::empty());
        Ok(PipelinedStart::Running(read))
    }

    /// Works out what a pipelined read does next.
    pub fn poll_read_at_pipelined(&mut self, read: PipelinedRead) -> (r: Result<
        PipelinedStep,
        ClientError,
    >)
        requires
            read@.wf(),
            read@.ids_before(old(self).connection.message_ids.next),
        ensures
            pipelined_polled(r, *old(self), *final(self), read@),
            r is Ok && r->Ok_0 is Send ==> r->Ok_0->Send_0@.wf() && r->Ok_0->Send_0@.ids_before(
                final(self).connection.message_ids.next,
            ),
            r is Ok && r->Ok_0 is Receive ==> r->Ok_0->Receive_0@.wf()
                && r->Ok_0->Receive_0@.ids_before(final(self).connection.message_ids.next),
    {
        let ghost before = read@;
        let mut read = read;
        let mut stalled_for_credit: bool = false;
        if read.first_server_error.is_none() && read.short_response_at.is_none()
            && read.outstanding.len() < read.options.max_in_flight && read.scheduled_bytes
            < read.target {
            assert(before.wants_more());
            let available_credits: u32 = match self.connection.available_credits() {
                None => {
                    return Err(ClientError::Protocol("SMB credit window is not initialized"));
                },
                Some(credits) => credits,
            };
            let chunk_len: usize = smaller_of(
                smaller_of(
                    smaller_of(read.target - read.scheduled_bytes, read.options.chunk_size),
                    read.max_read_size,
                ),
                credit_limited_payload(read.multi_credit, available_credits),
            );
            if chunk_len == 0 {
                stalled_for_credit = true;
            } else {
                let request_offset: u64 = read.offset + read.scheduled_bytes as u64;
                let (message, message_id) = self.issue_read(
                    read.file_id,
                    read.tree_id,
                    request_offset,
                    chunk_len,
                    read.multi_credit,
                    read.options.credit_request,
                )?;
                proof {
                    lemma_total_bound(before.chunks);
                    lemma_sent(before, message_id, chunk_len as int);
                }
                let position: usize = read.completed.len();
                read.completed.push(None);
                read.outstanding.insert(
                    message_id,
                    PendingRead {
                        position,
                        chunk_len,
                        async_state: AsyncReadState { async_id: None },
                    },
                )?;
                read.scheduled_bytes = read.scheduled_bytes + chunk_len;
                read.stats.requests_sent = read.stats.requests_sent + 1;
                if read.stats.peak_in_flight < read.outstanding.len() {
                    read.stats.peak_in_flight = read.outstanding.len();
                }
                read.chunks = Ghost(before.chunks.push(chunk_len as nat));
                assert(read@.completed =~= before.completed.push(None));
                assert(read@ == before.sent(message_id, chunk_len as int));
                return Ok(PipelinedStep::Send(read, message));
            }
        }
        if !read.outstanding.is_empty() {
            if stalled_for_credit && read.stats.credit_stalls < usize::MAX {
                read.stats.credit_stalls = read.stats.credit_stalls + 1;
            }
            proof {
                let next = read@;
                assert(forall|id: u64| #[trigger]
                    next.outstanding.contains_key(id) ==> before.waits(id) && next.waits(id));
                assert forall|p: int|
                    0 <= p < next.completed.len() && #[trigger] next.completed[p] is None implies next.awaited(
                p) by {
                    assert(before.awaited(p));
                }
                assert forall|p: int|
                    0 <= p < next.completed.len()
                        && #[trigger] next.completed[p] is Some implies next.filled_in_order(p) by {
                    assert(before.filled_in_order(p));
                }
            }
            return Ok(PipelinedStep::Receive(read));
        }
        match read.first_server_error {
            Some(status) => {
                return Err(ClientError::ServerStatus(status));
            },
            None => {},
        }
        if read.short_response_at.is_none() && read.scheduled_bytes < read.target {
            return Err(
                ClientError::Protocol(
                    "SMB connection exhausted credits with no outstanding READ able to restore them",
                ),
            );
        }
        let take_count: usize = match read.short_response_at {
            Some(position) => position + 1,
            None => read.completed.len(),
        };
        assert forall|p: int| 0 <= p < take_count implies #[trigger] read.completed@[p] is Some by {
            lemma_all_filled(before, p);
            assert(before.completed[p] == slot_view(read.completed@[p]));
        }
        let data = join_slots(&read.completed, take_count);
        Ok(PipelinedStep::Done(PipelinedReadResult { data, stats: read.stats }))
    }

    /// Takes a response in a pipelined read.
    pub fn accept_read_at_pipelined(&mut self, read: PipelinedRead, response_message: &[u8]) -> (r:
        Result<PipelinedRead, ClientError>)
        requires
            read@.wf(),
            read@.ids_before(old(self).connection.message_ids.next),
        ensures
            pipelined_accepted(r, *old(self), *final(self), read@, response_message@),
            r is Ok ==> r->Ok_0@.wf() && r->Ok_0@.ids_before(
                final(self).connection.message_ids.next,
            ),
    {
        let ghost before = read@;
        let mut read = read;
        let header = from_wire(Smb2Header::decode(response_message))?;
        let message_id: u64 = header.message_id;
        let request = read.outstanding.get(message_id)?;
        assert(before.waits(message_id));
        let (_, phase, state) = self.take_read_response(
            read.tree_id,
            message_id,
            request.async_state,
            response_message,
        )?;
        if phase == ReadResponsePhase::InterimPending {
            read.outstanding.set_async_state(message_id, state);
            proof {
                lemma_interim(before, message_id, state);
                assert(read@ == before.interim(message_id, state));
            }
            return Ok(read);
        }
        let position: usize = request.position;
        let chunk_len: usize = request.chunk_len;
        let mut short: bool = false;
        let mut server_error: Option<u32> = None;
        let data: Vec<u8> = match header.status {
            StatusField::ChannelSequence { .. } => {
                return Err(ClientError::Protocol("READ response used request header form"));
            },
            StatusField::Status(status) => {
                if status == 0 && read.first_server_error.is_none() {
                    let data = decode_chunk(response_message, chunk_len)?;
                    short = data.len() < chunk_len;
                    data
                } else {
                    if status == STATUS_END_OF_FILE {
                        short = read.first_server_error.is_none();
                    } else if status != 0 {
                        server_error = Some(status);
                    }
                    let none: Vec<u8> = Vec::new();
                    assert(none@ =~= Seq::empty());
                    none
                }
            },
        };
        let ghost data_view = data@;
        proof {
            assert(before.chunks[position as int] > 0);
            lemma_filled_short(before.completed, position as int);
            lemma_answered(before, message_id, data_view, short, server_error);
        }
        let _finished = read.outstanding.finish(message_id)?;
        if short {
            read.short_response_at = match read.short_response_at {
                Some(current) => {
                    if current <= position {
                        Some(current)
                    } else {
                        Some(position)
                    }
                },
                None => Some(position),
            };
        }
        if read.first_server_error.is_none() {
            read.first_server_error = server_error;
        }
        read.completed.set(position, Some(data));
        read.stats.responses_completed = read.stats.responses_completed + 1;
        proof {
            assert(read@.completed =~= before.completed.update(position as int, Some(data_view)));
            assert(read@ == before.answered(message_id, data_view, short, server_error));
        }
        Ok(read)
    }
}

/// Whether the data of one slot is what stands in a file where it was asked for.
pub open spec fn slot_is_from(
    start: int,
    chunks: Seq<nat>,
    slots: Seq<Option<Seq<u8>>>,
    content: Seq<u8>,
    p: int,
) -> bool {
    let at = start + total(chunks.take(p));
    let data = slots[p]->0;
    &&& at + data.len() <= content.len()
    &&& data == content.subrange(at, at + data.len())
}

/// Whether the data of every slot is what stands in a file where it was asked for.
pub open spec fn slots_are_from(
    start: int,
    chunks: Seq<nat>,
    slots: Seq<Option<Seq<u8>>>,
    content: Seq<u8>,
) -> bool {
    forall|p: int|
        0 <= p < slots.len() && #[trigger] slots[p] is Some ==> slot_is_from(
            start,
            chunks,
            slots,
            content,
            p,
        )
}

/// The joined data of full slots is what stands in the file, without a gap.
pub proof fn lemma_joined_full(
    start: int,
    chunks: Seq<nat>,
    slots: Seq<Option<Seq<u8>>>,
    content: Seq<u8>,
    n: int,
)
    requires
        chunks.len() == slots.len(),
        slots_are_from(start, chunks, slots, content),
        0 <= n <= slots.len(),
        forall|p: int|
            0 <= p < n ==> #[trigger] slots[p] is Some && slots[p]->0.len() == chunks[p],
        0 <= start <= content.len(),
    ensures
        joined(slots, n).len() == total(chunks.take(n)),
        start + total(chunks.take(n)) <= content.len(),
        joined(slots, n) == content.subrange(start, start + total(chunks.take(n))),
    decreases n,
{
    if n == 0 {
        assert(chunks.take(0).len() == 0);
        assert(joined(slots, 0) =~= content.subrange(start, start));
    } else {
        assert(slots[n - 1] is Some);
        assert(slot_is_from(start, chunks, slots, content, n - 1));
        lemma_joined_full(start, chunks, slots, content, n - 1);
        assert(chunks.take(n).drop_last() =~= chunks.take(n - 1));
        assert(joined(slots, n) =~= content.subrange(start, start + total(chunks.take(n))));
    }
}

/// The joined data up to a short slot is what stands in the file, without a gap.
pub proof fn lemma_joined_short(
    start: int,
    chunks: Seq<nat>,
    slots: Seq<Option<Seq<u8>>>,
    content: Seq<u8>,
    n: int,
)
    requires
        chunks.len() == slots.len(),
        slots_are_from(start, chunks, slots, content),
        0 <= n < slots.len(),
        forall|p: int|
            0 <= p < n ==> #[trigger] slots[p] is Some && slots[p]->0.len() == chunks[p],
        slots[n] is Some,
        slots[n]->0.len() <= chunks[n],
        0 <= start <= content.len(),
    ensures
        joined(slots, n + 1).len() <= total(chunks),
        start + joined(slots, n + 1).len() <= content.len(),
        joined(slots, n + 1) == content.subrange(start, start + joined(slots, n + 1).len()),
{
    lemma_joined_full(start, chunks, slots, content, n);
    assert(slot_is_from(start, chunks, slots, content, n));
    let data = joined(slots, n + 1);
    assert(data == joined(slots, n) + slots[n]->0);
    assert(data =~= content.subrange(start, start + data.len()));
    lemma_total_take(chunks, n + 1);
    assert(chunks.take(n + 1).drop_last() =~= chunks.take(n));
}

/// Slots stay true to a file where an empty one is added behind them.
pub proof fn lemma_slots_push(
    start: int,
    chunks: Seq<nat>,
    slots: Seq<Option<Seq<u8>>>,
    content: Seq<u8>,
    chunk: nat,
)
    requires
        chunks.len() == slots.len(),
        slots_are_from(start, chunks, slots, content),
    ensures
        slots_are_from(start, chunks.push(chunk), slots.push(None), content),
        total(chunks.push(chunk).take(slots.len() as int)) == total(chunks),
{
    let more = chunks.push(chunk);
    assert(more.take(slots.len() as int) =~= chunks);
    assert forall|p: int|
        0 <= p < slots.push(None).len() && #[trigger] slots.push(None)[p] is Some implies slot_is_from(
        start,
        more,
        slots.push(None),
        content,
        p,
    ) by {
        assert(slots[p] is Some);
        assert(slot_is_from(start, chunks, slots, content, p));
        assert(more.take(p) =~= chunks.take(p));
    }
}

/// Slots stay true to a file where one is filled with what stands where it was asked for.
pub proof fn lemma_slots_fill(
    start: int,
    chunks: Seq<nat>,
    slots: Seq<Option<Seq<u8>>>,
    content: Seq<u8>,
    position: int,
    data: Seq<u8>,
)
    requires
        slots_are_from(start, chunks, slots, content),
        0 <= position < slots.len(),
        start + total(chunks.take(position)) + data.len() <= content.len(),
        data == content.subrange(
            start + total(chunks.take(position)),
            start + total(chunks.take(position)) + data.len(),
        ),
    ensures
        slots_are_from(start, chunks, slots.update(position, Some(data)), content),
{
    let after = slots.update(position, Some(data));
    assert forall|p: int| 0 <= p < after.len() && #[trigger] after[p] is Some implies slot_is_from(
        start,
        chunks,
        after,
        content,
        p,
    ) by {
        if p != position {
            assert(slots[p] is Some);
            assert(slot_is_from(start, chunks, slots, content, p));
        }
    }
}

/// Every step of a pipelined read keeps its slots true to the file. A request asks for what stands
/// behind the requests before it, and its slot waits for just that; data that stands in the file
/// where its request asked for it goes into the slot of that request, in whatever order it comes.
pub proof fn law_pipelined_steps_keep_file_bytes(
    read: PipelinedView,
    content: Seq<u8>,
    new_id: u64,
    chunk: int,
    id: u64,
    state: AsyncReadState,
    data: Seq<u8>,
    short: bool,
    server_error: Option<u32>,
)
    requires
        read.wf(),
        slots_are_from(read.offset as int, read.chunks, read.completed, content),
        chunk > 0,
        read.outstanding.contains_key(id),
        ({
            let at = read.offset + total(read.chunks.take(read.outstanding[id].position as int));
            &&& at + data.len() <= content.len()
            &&& data == content.subrange(at as int, at + data.len())
        }),
    ensures
        ({
            let sent = read.sent(new_id, chunk);
            &&& slots_are_from(sent.offset as int, sent.chunks, sent.completed, content)
            &&& total(sent.chunks.take(sent.outstanding[new_id].position as int))
                == read.scheduled_bytes
        }),
        ({
            let interim = read.interim(id, state);
            slots_are_from(interim.offset as int, interim.chunks, interim.completed, content)
        }),
        ({
            let answered = read.answered(id, data, short, server_error);
            slots_are_from(answered.offset as int, answered.chunks, answered.completed, content)
        }),
{
    assert(read.waits(id));
    assert(read.completed.len() == read.stats.requests_sent);
    lemma_slots_push(read.offset as int, read.chunks, read.completed, content, chunk as nat);
    lemma_slots_fill(
        read.offset as int,
        read.chunks,
        read.completed,
        content,
        read.outstanding[id].position as int,
        data,
    );
}

/// What a pipelined read returns is what stands in the file where the read begins, whatever the
/// order in which the responses arrived: all of it where no response came back short, and otherwise
/// up to the end of the first short response.
pub proof fn law_pipelined_read_returns_file_bytes(read: PipelinedView, content: Seq<u8>)
    requires
        read.wf(),
        read.outstanding.len() == 0,
        read.first_server_error is None,
        read.short_response_at is Some || read.scheduled_bytes >= read.target,
        read.offset <= content.len(),
        slots_are_from(read.offset as int, read.chunks, read.completed, content),
    ensures
        ({
            let data = joined(read.completed, read.take_count());
            &&& read.offset + data.len() <= content.len()
            &&& data == content.subrange(read.offset as int, read.offset + data.len())
            &&& read.short_response_at is None ==> data.len() == read.target
            &&& data.len() <= read.target
        }),
{
    assert forall|p: int| 0 <= p < read.completed.len() implies #[trigger] read.completed[
        p
    ] is Some by {
        lemma_all_filled(read, p);
    }
    let n = match read.short_response_at {
        None => read.completed.len() as int,
        Some(position) => position as int,
    };
    assert forall|p: int| 0 <= p < n implies #[trigger] read.completed[p] is Some
        && read.completed[p]->0.len() == read.chunks[p] by {
        assert(read.filled_in_order(p));
    }
    match read.short_response_at {
        None => {
            lemma_joined_full(read.offset as int, read.chunks, read.completed, content, n);
            assert(read.chunks.take(n) =~= read.chunks);
        },
        Some(_) => {
            lemma_joined_short(read.offset as int, read.chunks, read.completed, content, n);
        },
    }
}

/// The first chunks hold no more than all of them.
pub proof fn lemma_total_take(chunks: Seq<nat>, n: int)
    requires
        0 <= n <= chunks.len(),
    ensures
        total(chunks.take(n)) <= total(chunks),
    decreases chunks.len(),
{
    if n == chunks.len() {
        assert(chunks.take(n) =~= chunks);
    } else {
        assert(chunks.drop_last().take(n) =~= chunks.take(n));
        lemma_total_take(chunks.drop_last(), n);
    }
}

/// Once the server has reported an error, no request is sent any more, and the error is returned
/// only when nothing is outstanding.
pub proof fn law_pipelined_error_drains<T>(
    r: Result<PipelinedStep, ClientError>,
    session: SessionConnection<T>,
    after: SessionConnection<T>,
    read: PipelinedView,
)
    requires
        pipelined_polled(r, session, after, read),
        read.first_server_error is Some,
    ensures
        after == session,
        read.outstanding.len() > 0 ==> r is Ok && r->Ok_0 is Receive,
        read.outstanding.len() == 0 ==> r == Err::<PipelinedStep, _>(
            ClientError::ServerStatus(read.first_server_error->0),
        ),
{
}

/// Slots that are all filled count as many as there are.
proof fn lemma_filled_all(slots: Seq<Option<Seq<u8>>>)
    requires
        forall|p: int| 0 <= p < slots.len() ==> #[trigger] slots[p] is Some,
    ensures
        filled(slots) == slots.len(),
    decreases slots.len(),
{
    if slots.len() > 0 {
        let front = slots.drop_last();
        assert forall|p: int| 0 <= p < front.len() implies #[trigger] front[p] is Some by {
            assert(slots[p] is Some);
        }
        lemma_filled_all(front);
    }
}

/// The statistics of a pipelined read: there are never more requests in flight than the options
/// allow, never more responses than requests, and as many when nothing is outstanding.
pub proof fn law_pipelined_statistics(read: PipelinedView)
    requires
        read.wf(),
    ensures
        read.outstanding.len() <= read.options.max_in_flight,
        read.stats.peak_in_flight <= read.options.max_in_flight,
        read.stats.responses_completed <= read.stats.requests_sent,
        read.outstanding.len() == 0 ==> read.stats.responses_completed == read.stats.requests_sent,
{
    lemma_filled_bound(read.completed);
    if read.outstanding.len() == 0 {
        assert forall|p: int| 0 <= p < read.completed.len() implies #[trigger] read.completed[
            p
        ] is Some by {
            lemma_all_filled(read, p);
        }
        lemma_filled_all(read.completed);
    }
}

/// A request is never sent beyond the window of the options or without the credits that it costs,
/// and its MessageId is none of the outstanding ones.
pub proof fn law_pipelined_requests_within_limits<T>(
    r: Result<PipelinedStep, ClientError>,
    session: SessionConnection<T>,
    after: SessionConnection<T>,
    read: PipelinedView,
)
    requires
        pipelined_polled(r, session, after, read),
        read.ids_before(session.connection.message_ids.next),
        r is Ok,
        r->Ok_0 is Send,
    ensures
        read.outstanding.len() < read.options.max_in_flight,
        credit_cost(
            read_charge_of(
                read.multi_credit,
                read.next_chunk(session.connection.credit_window()->0),
            )->Ok_0,
        ) <= session.connection.credit_window()->0,
        !read.outstanding.contains_key(session.connection.message_ids.next),
        read.next_chunk(session.connection.credit_window()->0) <= read.options.chunk_size,
        read.next_chunk(session.connection.credit_window()->0) <= read.max_read_size,
{
}

} // verus!
