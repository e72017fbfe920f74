//! Pipelined READ that can be invalidated by a seek.
//!
//! When the generation that the read was started in is over, SMB2 CANCEL is sent for every
//! outstanding READ. If a request has transitioned through STATUS_PENDING, its AsyncId is used in
//! the CANCEL header. Every final READ response is drained before the read ends as cancelled,
//! which preserves transport framing for the next request.

use crate::bytes::put_bytes;
use crate::client::error::from_wire;
use crate::client::error::ClientError;
use crate::client::file::FileHandle;
use crate::client::pipeline::filled;
use crate::client::pipeline::join_slots;
use crate::client::pipeline::joined;
use crate::client::pipeline::lemma_filled_bound;
use crate::client::pipeline::lemma_filled_short;
use crate::client::pipeline::lemma_filled_update;
use crate::client::pipeline::lemma_joined_full;
use crate::client::pipeline::lemma_joined_short;
use crate::client::pipeline::lemma_total_bound;
use crate::client::pipeline::slot_view;
use crate::client::pipeline::slot_views;
use crate::client::pipeline::lemma_slots_fill;
use crate::client::pipeline::lemma_slots_push;
use crate::client::pipeline::slots_are_from;
use crate::client::pipeline::total;
use crate::client::read::credit_limit_of;
use crate::client::read::credit_limited_payload;
use crate::client::read::decode_chunk;
use crate::client::read::read_charge_of;
use crate::client::read::read_charged;
use crate::client::read::read_credit_charge;
use crate::client::read::read_granted;
use crate::client::read::read_limits_error;
use crate::client::read::read_payload_of;
use crate::client::read::read_plain;
use crate::client::read::read_refusal;
use crate::client::read::read_target_len;
use crate::client::read::smaller;
use crate::client::read::smaller_of;
use crate::client::read::target_of;
use crate::client::read::PipelinedReadOptions;
use crate::client::read::STATUS_END_OF_FILE;
use crate::client::read_async::async_state_after;
use crate::client::read_async::read_response_phase;
use crate::client::read_async::AsyncReadState;
use crate::client::read_async::ReadResponsePhase;
use crate::client::session::signing_view;
use crate::client::session::SessionConnection;
use crate::client::signing::sign_error;
use crate::laws::reads::wanted;
use crate::wire::file_io::cancel_request_bytes;
use crate::wire::file_io::CancelRequest;
use crate::wire::file_io::FileId;
use crate::wire::file_io::ReadRequest;
use crate::wire::header::header_error;
use crate::wire::header::header_of;
use crate::wire::header::Smb2Header;
use crate::wire::header::StatusField;
use vstd::prelude::*;

verus! {

pub const STATUS_CANCELLED: u32 = 0xC000_0120;

/// A READ request of the current batch.
#[derive(Debug, Clone, Copy, PartialEq, Eq, Structural)]
pub struct CancelablePending {
    pub message_id: u64,
    pub chunk_len: usize,
    pub async_state: AsyncReadState,
    pub async_cancel_sent: bool,
}

/// What a batch is about.
#[derive(Debug, Clone, Copy, PartialEq, Eq, Structural)]
pub enum BatchPhase {
    /// Requests are being sent.
    Filling,
    /// CANCELs are being sent for every request from this one on.
    CancelAll(usize),
    /// A CANCEL is due for this request, which has just been given an AsyncId.
    CancelOne(usize),
    /// Responses are being waited for.
    Receiving,
}

/// A cancelable read in progress. Batches follow one another until all is read.
pub struct CancelableRead {
    pub file_id: FileId,
    pub tree_id: u32,
    pub offset: u64,
    /// How many bytes the read is after.
    pub target: usize,
    pub options: PipelinedReadOptions,
    /// What the batches before this one gave.
    pub out: Vec<u8>,
    pub phase: BatchPhase,
    pub pending: Vec<CancelablePending>,
    /// One slot for each request of the batch, with its data once it has come.
    pub completed: Vec<Option<Vec<u8>>>,
    /// How many bytes the batch has asked for.
    pub scheduled: usize,
    /// How many final responses have come.
    pub received: usize,
    pub short_response_at: Option<usize>,
    pub first_status_error: Option<u32>,
    pub cancelled: bool,
}

/// What a cancelable read is.
pub struct CancelableView {
    pub file_id: FileId,
    pub tree_id: u32,
    pub offset: u64,
    pub target: usize,
    pub options: PipelinedReadOptions,
    pub out: Seq<u8>,
    pub phase: BatchPhase,
    pub pending: Seq<CancelablePending>,
    pub completed: Seq<Option<Seq<u8>>>,
    pub scheduled: usize,
    pub received: usize,
    pub short_response_at: Option<usize>,
    pub first_status_error: Option<u32>,
    pub cancelled: bool,
}

impl View for CancelableRead {
    type V = CancelableView;

    open spec fn view(&self) -> CancelableView {
        CancelableView {
            file_id: self.file_id,
            tree_id: self.tree_id,
            offset: self.offset,
            target: self.target,
            options: self.options,
            out: self.out@,
            phase: self.phase,
            pending: self.pending@,
            completed: slot_views(self.completed@),
            scheduled: self.scheduled,
            received: self.received,
            short_response_at: self.short_response_at,
            first_status_error: self.first_status_error,
            cancelled: self.cancelled,
        }
    }
}

/// How many bytes each request of a batch asks for.
pub open spec fn chunk_lens(pending: Seq<CancelablePending>) -> Seq<nat> {
    pending.map_values(|p: CancelablePending| p.chunk_len as nat)
}

/// The first request with a MessageId.
pub open spec fn position_of(pending: Seq<CancelablePending>, message_id: u64) -> Option<int>
    decreases pending.len(),
{
    if pending.len() == 0 {
        None
    } else {
        match position_of(pending.drop_last(), message_id) {
            Some(position) => Some(position),
            None => if pending.last().message_id == message_id {
                Some(pending.len() - 1)
            } else {
                None
            },
        }
    }
}

pub proof fn lemma_position_bound(pending: Seq<CancelablePending>, message_id: u64)
    ensures
        position_of(pending, message_id) is Some ==> 0 <= position_of(pending, message_id)->0
            < pending.len() && pending[position_of(pending, message_id)->0].message_id
            == message_id,
    decreases pending.len(),
{
    if pending.len() > 0 {
        lemma_position_bound(pending.drop_last(), message_id);
    }
}

impl CancelableView {
    /// How many bytes are left for this batch and those after it.
    pub open spec fn remaining(self) -> int {
        self.target - self.out.len()
    }

    /// Whether a slot that is filled holds no more than it was asked for, and a short one is marked
    /// unless the read fails anyway.
    pub open spec fn filled_in_order(self, p: int) -> bool {
        let data = self.completed[p]->0;
        &&& data.len() <= self.pending[p].chunk_len
        &&& self.first_status_error is None && !self.cancelled && data.len()
            < self.pending[p].chunk_len ==> {
            &&& self.short_response_at is Some
            &&& self.short_response_at->0 <= p
        }
    }

    /// Whether the parts of a read belong together.
    pub open spec fn wf(self) -> bool {
        &&& self.out.len() <= self.target
        &&& self.offset + self.target <= u64::MAX
        &&& self.completed.len() == self.pending.len()
        &&& forall|p: int| 0 <= p < self.pending.len() ==> #[trigger] self.pending[p].chunk_len > 0
        &&& self.scheduled == total(chunk_lens(self.pending))
        &&& self.scheduled <= self.remaining()
        &&& self.received == filled(self.completed)
        &&& forall|p: int|
            0 <= p < self.completed.len() && #[trigger] self.completed[p] is Some
                ==> self.filled_in_order(p)
        &&& self.short_response_at is Some ==> {
            &&& self.short_response_at->0 < self.completed.len()
            &&& self.completed[self.short_response_at->0 as int] is Some
            &&& self.completed[self.short_response_at->0 as int]->0.len()
                < self.pending[self.short_response_at->0 as int].chunk_len
        }
        &&& match self.phase {
            BatchPhase::Filling => self.received == 0 && !self.cancelled
                && self.short_response_at is None && self.first_status_error is None,
            BatchPhase::CancelAll(_) => self.cancelled && self.pending.len() > 0,
            BatchPhase::CancelOne(p) => self.cancelled && p < self.pending.len()
                && self.pending[p as int].async_state.async_id is Some,
            BatchPhase::Receiving => self.pending.len() > 0,
        }
    }

    /// How long the next chunk is under the limits of a session.
    pub open spec fn next_chunk<T>(self, session: SessionConnection<T>) -> int {
        let negotiated = session.connection.negotiated->0;
        smaller(
            smaller(
                smaller(self.remaining() - self.scheduled, self.options.chunk_size as int),
                negotiated.max_read_size as int,
            ),
            credit_limit_of(negotiated.multi_credit(), session.connection.credit_window()->0),
        )
    }

    /// How many slots the result of the batch is made of: up to the first short one.
    pub open spec fn take_count(self) -> int {
        match self.short_response_at {
            Some(position) => position + 1,
            None => self.completed.len() as int,
        }
    }

    /// The read after a request for a chunk was sent under a MessageId.
    pub open spec fn sent(self, message_id: u64, chunk: int) -> CancelableView {
        CancelableView {
            pending: self.pending.push(
                CancelablePending {
                    message_id,
                    chunk_len: chunk as usize,
                    async_state: AsyncReadState { async_id: None },
                    async_cancel_sent: false,
                },
            ),
            completed: self.completed.push(None),
            scheduled: (self.scheduled + chunk) as usize,
            ..self
        }
    }

    /// The read after a CANCEL for one request.
    pub open spec fn cancel_sent(self, position: int, phase: BatchPhase) -> CancelableView {
        CancelableView {
            pending: self.pending.update(
                position,
                CancelablePending {
                    async_cancel_sent: self.pending[position].async_state.async_id is Some,
                    ..self.pending[position]
                },
            ),
            phase,
            ..self
        }
    }

    /// The read after an interim response. Where the read is cancelled and the server has not been
    /// told with an AsyncId, it is told now.
    pub open spec fn interim(self, position: int, state: AsyncReadState) -> CancelableView {
        CancelableView {
            pending: self.pending.update(
                position,
                CancelablePending { async_state: state, ..self.pending[position] },
            ),
            phase: if self.cancelled && !self.pending[position].async_cancel_sent {
                BatchPhase::CancelOne(position as usize)
            } else {
                self.phase
            },
            ..self
        }
    }

    /// The read after a final response that gave data, with a mark where it came back short, and
    /// perhaps a server error or the news that it was cancelled.
    pub open spec fn answered(
        self,
        position: int,
        state: AsyncReadState,
        data: Seq<u8>,
        short: bool,
        server_error: Option<u32>,
        cancelled: bool,
    ) -> CancelableView {
        CancelableView {
            pending: self.pending.update(
                position,
                CancelablePending { async_state: state, ..self.pending[position] },
            ),
            completed: self.completed.update(position, Some(data)),
            received: (self.received + 1) as usize,
            short_response_at: if short {
                match self.short_response_at {
                    Some(current) => if current <= position {
                        Some(current)
                    } else {
                        Some(position as usize)
                    },
                    None => Some(position as usize),
                }
            } else {
                self.short_response_at
            },
            first_status_error: match self.first_status_error {
                Some(status) => Some(status),
                None => server_error,
            },
            cancelled: self.cancelled || cancelled,
            ..self
        }
    }

    /// The read at the beginning of the next batch.
    pub open spec fn next_batch(self) -> CancelableView {
        CancelableView {
            out: self.out + joined(self.completed, self.completed.len() as int),
            phase: BatchPhase::Filling,
            pending: Seq::empty(),
            completed: Seq::empty(),
            scheduled: 0,
            received: 0,
            ..self
        }
    }
}

/// What to do next in a cancelable read.
pub enum CancelableStep {
    /// Send this request and ask again.
    Send(CancelableRead, Vec<u8>),
    /// Ask again.
    Again(CancelableRead),
    /// Hand a response back. Where the read is still wanted, ask again instead as soon as its
    /// generation is over.
    Receive(CancelableRead),
    /// The read is over.
    Done(Vec<u8>),
}

/// How a cancelable read begins.
pub enum CancelableStart {
    /// There is nothing to read.
    Done(Vec<u8>),
    /// There is; ask what to do.
    Running(CancelableRead),
}

/// Why a request of a cancelable read cannot be signed, if it cannot.
pub open spec fn cancelable_sign_error<T>(
    session: SessionConnection<T>,
    m: Seq<u8>,
    failed: &'static str,
) -> Option<ClientError> {
    if !session.signing_required {
        None
    } else {
        match signing_view(session.signing) {
            None => Some(ClientError::Protocol("signed request requires a session signing key")),
            Some((algorithm, key)) => match sign_error(algorithm, key, m) {
                None => None,
                Some(ClientError::Protocol(_)) => Some(ClientError::Protocol(failed)),
                Some(e) => Some(e),
            },
        }
    }
}

/// Why no READ request can be sent for a chunk of a cancelable read, if none can.
pub open spec fn cancelable_issue_error<T>(
    session: SessionConnection<T>,
    read: CancelableView,
    chunk: int,
) -> Option<ClientError> {
    let charge = read_charge_of(session.connection.negotiated->0.multi_credit(), chunk);
    if charge is Err {
        Some(charge->Err_0)
    } else if session.connection.charge_error(charge->Ok_0) is Some {
        session.connection.charge_error(charge->Ok_0)
    } else {
        cancelable_sign_error(
            session,
            read_plain(
                session,
                read.file_id,
                read.tree_id,
                read.offset + read.out.len() + read.scheduled,
                chunk,
                charge->Ok_0,
                read.options.credit_request,
            ),
            "READ signing failed",
        )
    }
}

/// The READ request of a chunk of a cancelable read as it is sent.
pub open spec fn cancelable_issued<T>(
    session: SessionConnection<T>,
    read: CancelableView,
    chunk: int,
) -> Seq<u8> {
    session.request_signed(
        session.signing_required,
        read_plain(
            session,
            read.file_id,
            read.tree_id,
            read.offset + read.out.len() + read.scheduled,
            chunk,
            read_charge_of(session.connection.negotiated->0.multi_credit(), chunk)->Ok_0,
            read.options.credit_request,
        ),
    )
}

/// The CANCEL of a request before it is signed.
pub open spec fn cancel_plain<T>(
    session: SessionConnection<T>,
    pending: CancelablePending,
) -> Seq<u8> {
    cancel_request_bytes(pending.message_id, session.session_id, pending.async_state.async_id)
}

/// Why a cancelable read cannot begin, if it cannot.
pub open spec fn cancelable_begin_error<T>(
    session: SessionConnection<T>,
    options: PipelinedReadOptions,
    current: bool,
) -> Option<ClientError> {
    if options.chunk_size == 0 {
        Some(ClientError::Protocol("pipelined READ chunk_size must be greater than zero"))
    } else if options.max_in_flight == 0 {
        Some(ClientError::Protocol("pipelined READ max_in_flight must be greater than zero"))
    } else if session.encrypts() {
        Some(ClientError::Protocol("encrypted SMB sessions are not implemented yet"))
    } else if !current {
        Some(ClientError::Cancelled)
    } else {
        None
    }
}

/// A cancelable read that has just begun.
pub open spec fn cancelable_started(
    file: FileHandle,
    offset: u64,
    length: usize,
    options: PipelinedReadOptions,
) -> CancelableView {
    CancelableView {
        file_id: file.file_id,
        tree_id: file.tree_id,
        offset,
        target: target_of(file.end_of_file, offset, length) as usize,
        options,
        out: Seq::empty(),
        phase: BatchPhase::Filling,
        pending: Seq::empty(),
        completed: Seq::empty(),
        scheduled: 0,
        received: 0,
        short_response_at: None,
        first_status_error: None,
        cancelled: false,
    }
}

/// Whether a step is the one that a batch that is being filled calls for: requests follow one
/// another while the read is wanted and credits are there.
pub open spec fn filling_polled<T>(
    r: Result<CancelableStep, ClientError>,
    session: SessionConnection<T>,
    after: SessionConnection<T>,
    read: CancelableView,
    current: bool,
) -> bool {
    let window = session.connection.credit_window();
    let chunk = read.next_chunk(session);
    let room = read.pending.len() < read.options.max_in_flight && read.scheduled
        < read.remaining();
    let failed = cancelable_issue_error(session, read, chunk);
    if read.out.len() >= read.target {
        r is Ok && r->Ok_0 is Done && r->Ok_0->Done_0@ == read.out && after == session
    } else if !current && read.pending.len() == 0 {
        r == Err::<CancelableStep, _>(ClientError::Cancelled) && after == session
    } else if current && room && read_limits_error(session) is Some {
        r == Err::<CancelableStep, ClientError>(read_limits_error(session)->0) && after == session
    } else if current && room && window is None {
        r == Err::<CancelableStep, _>(
            ClientError::Protocol("SMB credit window is not initialized"),
        ) && after == session
    } else if current && room && chunk > 0 {
        &&& after == read_charged(session, session.connection.negotiated->0.multi_credit(), chunk)
        &&& failed is Some ==> r == Err::<CancelableStep, ClientError>(failed->0)
        &&& failed is None ==> r is Ok && r->Ok_0 is Send && r->Ok_0->Send_0@ == read.sent(
            session.connection.message_ids.next,
            chunk,
        ) && r->Ok_0->Send_1@ == cancelable_issued(session, read, chunk)
    } else if read.pending.len() == 0 {
        r == Err::<CancelableStep, _>(
            ClientError::Protocol("SMB connection has no credits available for pipelined READ"),
        ) && after == session
    } else {
        &&& after == session
        &&& r is Ok && r->Ok_0 is Again && r->Ok_0->Again_0@ == (CancelableView {
            phase: if current {
                BatchPhase::Receiving
            } else {
                BatchPhase::CancelAll(0)
            },
            cancelled: !current,
            ..read
        })
    }
}

/// Whether a step is the one that a batch that is being cancelled calls for: every request without
/// its final response is cancelled, by its AsyncId where it has one.
pub open spec fn cancel_all_polled<T>(
    r: Result<CancelableStep, ClientError>,
    session: SessionConnection<T>,
    after: SessionConnection<T>,
    read: CancelableView,
    from: usize,
) -> bool {
    let failed = cancelable_sign_error(
        session,
        cancel_plain(session, read.pending[from as int]),
        "CANCEL signing failed",
    );
    &&& after == session
    &&& if from >= read.pending.len() {
        r is Ok && r->Ok_0 is Again && r->Ok_0->Again_0@ == (CancelableView {
            phase: BatchPhase::Receiving,
            ..read
        })
    } else if read.completed[from as int] is Some {
        r is Ok && r->Ok_0 is Again && r->Ok_0->Again_0@ == (CancelableView {
            phase: BatchPhase::CancelAll((from + 1) as usize),
            ..read
        })
    } else if failed is Some {
        r == Err::<CancelableStep, ClientError>(failed->0)
    } else {
        r is Ok && r->Ok_0 is Send && r->Ok_0->Send_0@ == read.cancel_sent(
            from as int,
            BatchPhase::CancelAll((from + 1) as usize),
        ) && r->Ok_0->Send_1@ == session.request_signed(
            session.signing_required,
            cancel_plain(session, read.pending[from as int]),
        )
    }
}

/// Whether a step is the one that a request with a new AsyncId calls for in a cancelled batch.
pub open spec fn cancel_one_polled<T>(
    r: Result<CancelableStep, ClientError>,
    session: SessionConnection<T>,
    after: SessionConnection<T>,
    read: CancelableView,
    position: usize,
) -> bool {
    let failed = cancelable_sign_error(
        session,
        cancel_plain(session, read.pending[position as int]),
        "CANCEL signing failed",
    );
    &&& after == session
    &&& if failed is Some {
        r == Err::<CancelableStep, ClientError>(failed->0)
    } else {
        r is Ok && r->Ok_0 is Send && r->Ok_0->Send_0@ == read.cancel_sent(
            position as int,
            BatchPhase::Receiving,
        ) && r->Ok_0->Send_1@ == session.request_signed(
            session.signing_required,
            cancel_plain(session, read.pending[position as int]),
        )
    }
}

/// Whether a step is the one that a batch that waits for responses calls for.
pub open spec fn receiving_polled(
    r: Result<CancelableStep, ClientError>,
    read: CancelableView,
    current: bool,
) -> bool {
    if read.received < read.pending.len() {
        if !read.cancelled && !current {
            r is Ok && r->Ok_0 is Again && r->Ok_0->Again_0@ == (CancelableView {
                cancelled: true,
                phase: BatchPhase::CancelAll(0),
                ..read
            })
        } else {
            r is Ok && r->Ok_0 is Receive && r->Ok_0->Receive_0@ == read
        }
    } else if read.cancelled || !current {
        r == Err::<CancelableStep, _>(ClientError::Cancelled)
    } else if read.first_status_error is Some {
        r == Err::<CancelableStep, _>(ClientError::ServerStatus(read.first_status_error->0))
    } else if read.short_response_at is Some {
        r is Ok && r->Ok_0 is Done && r->Ok_0->Done_0@ == read.out + joined(
            read.completed,
            read.take_count(),
        )
    } else {
        r is Ok && r->Ok_0 is Again && r->Ok_0->Again_0@ == read.next_batch()
    }
}

/// Whether a step is the one that a cancelable read calls for.
pub open spec fn cancelable_polled<T>(
    r: Result<CancelableStep, ClientError>,
    session: SessionConnection<T>,
    after: SessionConnection<T>,
    read: CancelableView,
    current: bool,
) -> bool {
    match read.phase {
        BatchPhase::Filling => filling_polled(r, session, after, read, current),
        BatchPhase::CancelAll(from) => cancel_all_polled(r, session, after, read, from),
        BatchPhase::CancelOne(position) => cancel_one_polled(r, session, after, read, position),
        BatchPhase::Receiving => after == session && receiving_polled(r, read, current),
    }
}

/// Whether a result is that of a response in a cancelable read.
pub open spec fn cancelable_accepted<T>(
    r: Result<CancelableRead, ClientError>,
    session: SessionConnection<T>,
    after: SessionConnection<T>,
    read: CancelableView,
    m: Seq<u8>,
) -> bool {
    let h = header_of(m);
    let id = h.message_id;
    let found = position_of(read.pending, id);
    let p = found->0;
    let request = read.pending[p];
    let refused = read_refusal(session, read.tree_id, id, request.async_state, m);
    let granted = read_granted(session, read.tree_id, id, request.async_state, m);
    let state = async_state_after(request.async_state, h);
    let payload = read_payload_of(m, request.chunk_len as int);
    if header_error(m) is Some {
        r == Err::<CancelableRead, ClientError>(ClientError::Wire(header_error(m)->0)) && after
            == session
    } else if found is None {
        r == Err::<CancelableRead, _>(
            ClientError::Protocol("pipelined READ response MessageId is not outstanding"),
        ) && after == session
    } else if read.completed[p] is Some {
        r == Err::<CancelableRead, _>(
            ClientError::Protocol("pipelined READ received a duplicate final response"),
        ) && after == session
    } else {
        &&& after == granted
        &&& if refused is Some {
            r == Err::<CancelableRead, ClientError>(refused->0)
        } else if read_response_phase(h) == ReadResponsePhase::InterimPending {
            r is Ok && r->Ok_0@ == read.interim(p, state)
        } else {
            match h.status {
                StatusField::ChannelSequence { .. } => r == Err::<CancelableRead, _>(
                    ClientError::Protocol("READ response used request header form"),
                ),
                StatusField::Status(status) => if status == 0 {
                    match payload {
                        Err(e) => r == Err::<CancelableRead, ClientError>(e),
                        Ok(data) => r is Ok && r->Ok_0@ == read.answered(
                            p,
                            state,
                            data,
                            data.len() < request.chunk_len,
                            None,
                            false,
                        ),
                    }
                } else if status == STATUS_CANCELLED {
                    r is Ok && r->Ok_0@ == read.answered(
                        p,
                        state,
                        Seq::empty(),
                        false,
                        None,
                        true,
                    )
                } else if status == STATUS_END_OF_FILE {
                    r is Ok && r->Ok_0@ == read.answered(
                        p,
                        state,
                        Seq::empty(),
                        true,
                        None,
                        false,
                    )
                } else {
                    r is Ok && r->Ok_0@ == read.answered(
                        p,
                        state,
                        Seq::empty(),
                        false,
                        Some(status),
                        false,
                    )
                },
            }
        }
    }
}

/// The first request with a MessageId.
fn find_position(pending: &Vec<CancelablePending>, message_id: u64) -> (r: Option<usize>)
    ensures
        r is Some <==> position_of(pending@, message_id) is Some,
        r is Some ==> r->0 == position_of(pending@, message_id)->0 && r->0 < pending@.len(),
{
    let mut i: usize = 0;
    while i < pending.len()
        invariant
            i <= pending@.len(),
            position_of(pending@.take(i as int), message_id) is None,
        decreases pending@.len() - i,
    {
        proof {
            assert(pending@.take(i + 1).drop_last() =~= pending@.take(i as int));
        }
        if pending[i].message_id == message_id {
            proof {
                lemma_position_extends(pending@, message_id, i + 1);
            }
            return Some(i);
        }
        i = i + 1;
    }
    assert(pending@.take(i as int) =~= pending@);
    None
}

/// A request that is found among the first ones is found among all.
proof fn lemma_position_extends(pending: Seq<CancelablePending>, message_id: u64, n: int)
    requires
        0 <= n <= pending.len(),
        position_of(pending.take(n), message_id) is Some,
    ensures
        position_of(pending, message_id) == position_of(pending.take(n), message_id),
    decreases pending.len(),
{
    if n < pending.len() {
        assert(pending.drop_last().take(n) =~= pending.take(n));
        lemma_position_extends(pending.drop_last(), message_id, n);
    } else {
        assert(pending.take(n) =~= pending);
    }
}

/// Sending a request keeps the parts of a read together.
proof fn lemma_sent(read: CancelableView, message_id: u64, chunk: int)
    requires
        read.wf(),
        read.phase is Filling,
        read.pending.len() < usize::MAX,
        0 < chunk <= read.remaining() - read.scheduled,
    ensures
        read.sent(message_id, chunk).wf(),
{
    let next = read.sent(message_id, chunk);
    assert(chunk_lens(next.pending).drop_last() =~= chunk_lens(read.pending));
    assert(next.completed.drop_last() =~= read.completed);
    assert forall|p: int| 0 <= p < next.pending.len() implies #[trigger] next.pending[p].chunk_len
        > 0 by {
        if p < read.pending.len() {
            assert(read.pending[p].chunk_len > 0);
        }
    }
    assert forall|p: int| 0 <= p < next.completed.len() && #[trigger] next.completed[p] is Some
        implies next.filled_in_order(p) by {
        assert(read.completed[p] is Some);
        assert(read.filled_in_order(p));
    }
}

/// A request that changes only in its asynchronous part keeps the parts of a read together.
proof fn lemma_pending_updated(
    read: CancelableView,
    position: int,
    request: CancelablePending,
    phase: BatchPhase,
)
    requires
        read.wf(),
        !(read.phase is Filling),
        0 <= position < read.pending.len(),
        request.chunk_len == read.pending[position].chunk_len,
        match phase {
            BatchPhase::Filling => false,
            BatchPhase::CancelAll(_) => read.cancelled,
            BatchPhase::CancelOne(p) => read.cancelled && p == position
                && request.async_state.async_id is Some,
            BatchPhase::Receiving => true,
        },
    ensures
        (CancelableView { pending: read.pending.update(position, request), phase, ..read }).wf(),
{
    let next = CancelableView { pending: read.pending.update(position, request), phase, ..read };
    assert(chunk_lens(next.pending) =~= chunk_lens(read.pending));
    assert forall|p: int| 0 <= p < next.pending.len() implies #[trigger] next.pending[p].chunk_len
        > 0 by {
        assert(read.pending[p].chunk_len > 0);
    }
    assert forall|p: int| 0 <= p < next.completed.len() && #[trigger] next.completed[p] is Some
        implies next.filled_in_order(p) by {
        assert(read.filled_in_order(p));
    }
}

/// A change of phase keeps the parts of a read together.
proof fn lemma_phase_changed(read: CancelableView, phase: BatchPhase, cancelled: bool)
    requires
        read.wf(),
        read.pending.len() > 0,
        read.cancelled ==> cancelled,
        match phase {
            BatchPhase::Filling => false,
            BatchPhase::CancelAll(_) => cancelled,
            BatchPhase::CancelOne(_) => false,
            BatchPhase::Receiving => true,
        },
    ensures
        (CancelableView { phase, cancelled, ..read }).wf(),
{
    let next = CancelableView { phase, cancelled, ..read };
    assert forall|p: int| 0 <= p < next.completed.len() && #[trigger] next.completed[p] is Some
        implies next.filled_in_order(p) by {
        assert(read.filled_in_order(p));
    }
}

/// A final response keeps the parts of a read together.
proof fn lemma_answered(
    read: CancelableView,
    position: int,
    state: AsyncReadState,
    data: Seq<u8>,
    short: bool,
    server_error: Option<u32>,
    cancelled: bool,
)
    requires
        read.wf(),
        read.phase is Receiving,
        0 <= position < read.pending.len(),
        position <= usize::MAX,
        read.completed[position] is None,
        data.len() <= read.pending[position].chunk_len,
        short ==> data.len() < read.pending[position].chunk_len,
        !cancelled && server_error is None ==> short == (data.len()
            < read.pending[position].chunk_len),
        read.received < usize::MAX,
    ensures
        read.answered(position, state, data, short, server_error, cancelled).wf(),
{
    let next = read.answered(position, state, data, short, server_error, cancelled);
    lemma_filled_update(read.completed, position, data);
    assert(chunk_lens(next.pending) =~= chunk_lens(read.pending));
    assert forall|p: int| 0 <= p < next.pending.len() implies #[trigger] next.pending[p].chunk_len
        > 0 by {
        assert(read.pending[p].chunk_len > 0);
    }
    assert forall|p: int| 0 <= p < next.completed.len() && #[trigger] next.completed[p] is Some
        implies next.filled_in_order(p) by {
        if p != position {
            assert(read.completed[p] is Some);
            assert(read.filled_in_order(p));
        }
    }
}

/// Where as many slots are filled as there are, every one is.
pub proof fn lemma_every_slot(slots: Seq<Option<Seq<u8>>>, p: int)
    requires
        filled(slots) >= slots.len(),
        0 <= p < slots.len(),
    ensures
        slots[p] is Some,
{
    if slots[p] is None {
        lemma_filled_short(slots, p);
    }
}

/// The joined data of slots is no longer than what was asked for.
pub proof fn lemma_joined_bound(read: CancelableView, n: int)
    requires
        read.wf(),
        0 <= n <= read.completed.len(),
        forall|p: int| 0 <= p < n ==> #[trigger] read.completed[p] is Some,
    ensures
        joined(read.completed, n).len() <= total(chunk_lens(read.pending).take(n)),
    decreases n,
{
    if n > 0 {
        lemma_joined_bound(read, n - 1);
        assert(read.completed[n - 1] is Some);
        assert(read.filled_in_order(n - 1));
        assert(chunk_lens(read.pending).take(n).drop_last() =~= chunk_lens(read.pending).take(
            n - 1,
        ));
    }
}

impl<T> SessionConnection<T> {
    /// Signs a request of a cancelable read where the session requires it.
    fn sign_cancelable(&self, message: &mut Vec<u8>, failed: &'static str) -> (r: Result<
        (),
        ClientError,
    >)
        ensures
            match cancelable_sign_error(*self, old(message)@, failed) {
                Some(e) => r == Err::<(), ClientError>(e),
                None => r is Ok && final(message)@ == self.request_signed(
                    self.signing_required,
                    old(message)@,
                ),
            },
    {
        if self.signing_required {
            match &self.signing {
                None => {
                    return Err(
                        ClientError::Protocol("signed request requires a session signing key"),
                    );
                },
                Some(signing) => match signing.sign(message) {
                    Ok(()) => {},
                    Err(ClientError::Protocol(_)) => {
                        return Err(ClientError::Protocol(failed));
                    },
                    Err(e) => {
                        return Err(e);
                    },
                },
            }
        }
        Ok(())
    }

    /// Builds the CANCEL of a request.
    fn cancel_message(&self, pending: CancelablePending) -> (r: Result<Vec<u8>, ClientError>)
        ensures
            match cancelable_sign_error(
                *self,
                cancel_plain(*self, pending),
                "CANCEL signing failed",
            ) {
                Some(e) => r == Err::<Vec<u8>, ClientError>(e),
                None => r is Ok && r->Ok_0@ == self.request_signed(
                    self.signing_required,
                    cancel_plain(*self, pending),
                ),
            },
    {
        let mut message = match pending.async_state.async_id() {
            Some(async_id) => CancelRequest.encode_async_message(
                pending.message_id,
                self.session_id,
                async_id,
            ),
            None => CancelRequest.encode_sync_message(pending.message_id, self.session_id),
        };
        self.sign_cancelable(&mut message, "CANCEL signing failed")?;
        Ok(message)
    }

    /// Begins a pipelined positional READ that can be invalidated by a seek generation change.
    pub fn begin_read_at_cancelable(
        &self,
        file: &FileHandle,
        offset: u64,
        length: usize,
        options: PipelinedReadOptions,
        current: bool,
    ) -> (r: Result<CancelableStart, ClientError>)
        ensures
            if length == 0 || offset >= file.end_of_file {
                r is Ok && r->Ok_0 is Done && r->Ok_0->Done_0@.len() == 0
            } else {
                match cancelable_begin_error(*self, options, current) {
                    Some(e) => r == Err::<CancelableStart, ClientError>(e),
                    None => r is Ok && r->Ok_0 is Running && r->Ok_0->Running_0@
                        == cancelable_started(*file, offset, length, options)
                        && r->Ok_0->Running_0@.wf(),
                }
            },
            r is Ok && r->Ok_0 is Running ==> r->Ok_0->Running_0@.target == wanted(
                file.end_of_file,
                offset,
                length,
            ),
    {
        if length == 0 || offset >= file.len() {
            return Ok(CancelableStart::Done(Vec::new()));
        }
        if options.chunk_size == 0 {
            return Err(
                ClientError::Protocol("pipelined READ chunk_size must be greater than zero"),
            );
        }
        if options.max_in_flight == 0 {
            return Err(
                ClientError::Protocol("pipelined READ max_in_flight must be greater than zero"),
            );
        }
        self.ensure_not_encrypted()?;
        if !current {
            return Err(ClientError::Cancelled);
        }
        let read = CancelableRead {
            file_id: file.file_id,
            tree_id: file.tree_id,
            offset,
            target: read_target_len(file, offset, length),
            options,
            out: Vec::new(),
            phase: BatchPhase::Filling,
            pending: Vec::new(),
            completed: Vec::new(),
            scheduled: 0,
            received: 0,
            short_response_at: None,
            first_status_error: None,
            cancelled: false,
        };
        assert(read@.completed =~= Seq::empty());
        assert(read@.out =~= Seq::empty());
        assert(read@.pending =~= Seq::empty());
        assert(chunk_lens(read@.pending).len() == 0);
        Ok(CancelableStart::Running(read))
    }

    /// Sends the next request of a batch that is being filled, or ends the filling.
    fn poll_filling(&mut self, read: CancelableRead, current: bool) -> (r: Result<
        CancelableStep,
        ClientError,
    >)
        requires
            read@.wf(),
            read@.phase is Filling,
        ensures
            filling_polled(r, *old(self), *final(self), read@, current),
            r is Ok && r->Ok_0 is Send ==> r->Ok_0->Send_0@.wf(),
            r is Ok && r->Ok_0 is Again ==> r->Ok_0->Again_0@.wf(),
    {
        let ghost before = read@;
        let mut read = read;
        if read.out.len() >= read.target {
            return Ok(CancelableStep::Done(read.out));
        }
        if !current && read.pending.len() == 0 {
            return Err(ClientError::Cancelled);
        }
        let remaining: usize = read.target - read.out.len();
        if current && read.pending.len() < read.options.max_in_flight && read.scheduled
            < remaining {
            let (multi_credit, max_read_size) = self.read_limits()?;
            let available_credits: u32 = match self.connection.available_credits() {
                None => {
                    return Err(ClientError::Protocol("SMB credit window is not initialized"));
                },
                Some(credits) => credits,
            };
            let chunk_len: usize = smaller_of(
                smaller_of(
                    smaller_of(remaining - read.scheduled, read.options.chunk_size),
                    max_read_size,
                ),
                credit_limited_payload(multi_credit, available_credits),
            );
            if chunk_len > 0 {
                let credit_charge: u16 = read_credit_charge(multi_credit, chunk_len)?;
                let (message_id, credit_request) = self.connection.charge_request(
                    credit_charge,
                    read.options.credit_request,
                )?;
                let request_offset: u64 = read.offset + (read.out.len() + read.scheduled) as u64;
                let request = ReadRequest::direct(read.file_id, request_offset, chunk_len as u32);
                let mut message = request.encode_message(
                    message_id,
                    self.session_id,
                    read.tree_id,
                    credit_charge,
                    credit_request,
                );
                self.sign_cancelable(&mut message, "READ signing failed")?;
                proof {
                    assert forall|p: int|
                        0 <= p < chunk_lens(before.pending).len() implies #[trigger] chunk_lens(
                        before.pending,
                    )[p] > 0 by {
                        assert(before.pending[p].chunk_len > 0);
                    }
                    lemma_total_bound(chunk_lens(before.pending));
                    lemma_sent(before, message_id, chunk_len as int);
                }
                read.pending.push(
                    CancelablePending {
                        message_id,
                        chunk_len,
                        async_state: AsyncReadState { async_id: None },
                        async_cancel_sent: false,
                    },
                );
                read.completed.push(None);
                read.scheduled = read.scheduled + chunk_len;
                proof {
                    assert(read@.completed =~= before.completed.push(None));
                    assert(read@ == before.sent(message_id, chunk_len as int));
                }
                return Ok(CancelableStep::Send(read, message));
            }
        }
        if read.pending.len() == 0 {
            return Err(
                ClientError::Protocol(
                    "SMB connection has no credits available for pipelined READ",
                ),
            );
        }
        read.cancelled = !current;
        read.phase = if current {
            BatchPhase::Receiving
        } else {
            BatchPhase::CancelAll(0)
        };
        proof {
            lemma_phase_changed(before, read.phase, !current);
        }
        Ok(CancelableStep::Again(read))
    }

    /// Sends the next CANCEL of a batch that is being cancelled, or ends the cancelling.
    fn poll_cancel_all(&self, read: CancelableRead, from: usize) -> (r: Result<
        CancelableStep,
        ClientError,
    >)
        requires
            read@.wf(),
            read@.phase == BatchPhase::CancelAll(from),
        ensures
            cancel_all_polled(r, *self, *self, read@, from),
            r is Ok && r->Ok_0 is Send ==> r->Ok_0->Send_0@.wf(),
            r is Ok && r->Ok_0 is Again ==> r->Ok_0->Again_0@.wf(),
    {
        let ghost before = read@;
        let mut read = read;
        if from >= read.pending.len() {
            read.phase = BatchPhase::Receiving;
            proof {
                lemma_phase_changed(before, BatchPhase::Receiving, before.cancelled);
            }
            return Ok(CancelableStep::Again(read));
        }
        assert(before.completed[from as int] == slot_view(read.completed@[from as int]));
        if read.completed[from].is_some() {
            read.phase = BatchPhase::CancelAll(from + 1);
            proof {
                lemma_phase_changed(before, read.phase, before.cancelled);
            }
            return Ok(CancelableStep::Again(read));
        }
        let mut request = read.pending[from];
        let message = self.cancel_message(request)?;
        request.async_cancel_sent = request.async_state.async_id().is_some();
        read.pending.set(from, request);
        read.phase = BatchPhase::CancelAll(from + 1);
        proof {
            lemma_pending_updated(before, from as int, request, read.phase);
        }
        Ok(CancelableStep::Send(read, message))
    }

    /// Sends the CANCEL of a request that has just been given an AsyncId.
    fn poll_cancel_one(&self, read: CancelableRead, position: usize) -> (r: Result<
        CancelableStep,
        ClientError,
    >)
        requires
            read@.wf(),
            read@.phase == BatchPhase::CancelOne(position),
        ensures
            cancel_one_polled(r, *self, *self, read@, position),
            r is Ok && r->Ok_0 is Send ==> r->Ok_0->Send_0@.wf(),
            r is Ok ==> r->Ok_0 is Send,
    {
        let ghost before = read@;
        let mut read = read;
        let mut request = read.pending[position];
        let message = self.cancel_message(request)?;
        request.async_cancel_sent = request.async_state.async_id().is_some();
        read.pending.set(position, request);
        read.phase = BatchPhase::Receiving;
        proof {
            lemma_pending_updated(before, position as int, request, BatchPhase::Receiving);
        }
        Ok(CancelableStep::Send(read, message))
    }

    /// Works out what a cancelable read does next. `current` says whether its generation still is.
    pub fn poll_read_at_cancelable(&mut self, read: CancelableRead, current: bool) -> (r: Result<
        CancelableStep,
        ClientError,
    >)
        requires
            read@.wf(),
        ensures
            cancelable_polled(r, *old(self), *final(self), read@, current),
            r is Ok && r->Ok_0 is Send ==> r->Ok_0->Send_0@.wf(),
            r is Ok && r->Ok_0 is Again ==> r->Ok_0->Again_0@.wf(),
            r is Ok && r->Ok_0 is Receive ==> r->Ok_0->Receive_0@.wf(),
    {
        match read.phase {
            BatchPhase::Filling => self.poll_filling(read, current),
            BatchPhase::CancelAll(from) => self.poll_cancel_all(read, from),
            BatchPhase::CancelOne(position) => self.poll_cancel_one(read, position),
            BatchPhase::Receiving => poll_receiving(read, current),
        }
    }

    /// Takes a response in a cancelable read.
    pub fn accept_read_at_cancelable(&mut self, read: CancelableRead, response_message: &[u8]) -> (r:
        Result<CancelableRead, ClientError>)
        requires
            read@.wf(),
            read@.phase is Receiving,
        ensures
            cancelable_accepted(r, *old(self), *final(self), read@, response_message@),
            r is Ok ==> r->Ok_0@.wf(),
    {
        let ghost before = read@;
        let mut read = read;
        let header = from_wire(Smb2Header::decode(response_message))?;
        let position: usize = match find_position(&read.pending, header.message_id) {
            Some(position) => position,
            None => {
                return Err(
                    ClientError::Protocol("pipelined READ response MessageId is not outstanding"),
                );
            },
        };
        proof {
            lemma_position_bound(before.pending, header.message_id);
            assert(before.completed[position as int] == slot_view(
                read.completed@[position as int],
            ));
        }
        if read.completed[position].is_some() {
            return Err(
                ClientError::Protocol("pipelined READ received a duplicate final response"),
            );
        }
        let mut request = read.pending[position];
        let (_, phase, state) = self.take_read_response(
            read.tree_id,
            header.message_id,
            request.async_state,
            response_message,
        )?;
        request.async_state = state;
        if phase == ReadResponsePhase::InterimPending {
            if read.cancelled && !request.async_cancel_sent {
                read.phase = BatchPhase::CancelOne(position);
            }
            read.pending.set(position, request);
            proof {
                lemma_pending_updated(before, position as int, request, read.phase);
                assert(read@ == before.interim(position as int, state));
            }
            return Ok(read);
        }
        let chunk_len: usize = request.chunk_len;
        let mut short: bool = false;
        let mut server_error: Option<u32> = None;
        let mut cancelled: bool = false;
        let data: Vec<u8> = match header.status {
            StatusField::ChannelSequence { .. } => {
                return Err(ClientError::Protocol("READ response used request header form"));
            },
            StatusField::Status(status) => {
                if status == 0 {
                    let data = decode_chunk(response_message, chunk_len)?;
                    short = data.len() < chunk_len;
                    data
                } else {
                    if status == STATUS_CANCELLED {
                        cancelled = true;
                    } else if status == STATUS_END_OF_FILE {
                        short = true;
                    } else {
                        server_error = Some(status);
                    }
                    let none: Vec<u8> = Vec::new();
                    assert(none@ =~= Seq::empty());
                    none
                }
            },
        };
        let ghost data_view = data@;
        proof {
            assert(before.pending[position as int].chunk_len > 0);
            lemma_filled_short(before.completed, position as int);
            assert(read.completed.len() == before.completed.len());
            lemma_answered(
                before,
                position as int,
                state,
                data_view,
                short,
                server_error,
                cancelled,
            );
        }
        read.pending.set(position, request);
        read.completed.set(position, Some(data));
        if short {
            read.short_response_at = match read.short_response_at {
                Some(current) => {
                    if current <= position {
                        Some(current)
                    } else {
                        Some(position)
                    }
                },
                None => Some(position),
            };
        }
        if read.first_status_error.is_none() {
            read.first_status_error = server_error;
        }
        if cancelled {
            read.cancelled = true;
        }
        read.received = read.received + 1;
        proof {
            assert(read@.completed =~= before.completed.update(position as int, Some(data_view)));
            assert(read@ == before.answered(
                position as int,
                state,
                data_view,
                short,
                server_error,
                cancelled,
            ));
        }
        Ok(read)
    }
}

/// Waits for the next response of a batch, or ends the batch.
fn poll_receiving(read: CancelableRead, current: bool) -> (r: Result<CancelableStep, ClientError>)
    requires
        read@.wf(),
        read@.phase is Receiving,
    ensures
        receiving_polled(r, read@, current),
        r is Ok && r->Ok_0 is Again ==> r->Ok_0->Again_0@.wf(),
        r is Ok && r->Ok_0 is Receive ==> r->Ok_0->Receive_0@.wf(),
        r is Ok ==> !(r->Ok_0 is Send),
{
    let ghost before = read@;
    let mut read = read;
    if read.received < read.pending.len() {
        if !read.cancelled && !current {
            read.cancelled = true;
            read.phase = BatchPhase::CancelAll(0);
            proof {
                lemma_phase_changed(before, read.phase, true);
            }
            return Ok(CancelableStep::Again(read));
        }
        return Ok(CancelableStep::Receive(read));
    }
    if read.cancelled || !current {
        return Err(ClientError::Cancelled);
    }
    match read.first_status_error {
        Some(status) => {
            return Err(ClientError::ServerStatus(status));
        },
        None => {},
    }
    assert forall|p: int| 0 <= p < read.completed@.len() implies #[trigger] read.completed@[
        p
    ] is Some by {
        lemma_every_slot(before.completed, p);
        assert(before.completed[p] == slot_view(read.completed@[p]));
    }
    match read.short_response_at {
        Some(position) => {
            let data = join_slots(&read.completed, position + 1);
            put_bytes(&mut read.out, &data);
            Ok(CancelableStep::Done(read.out))
        },
        None => {
            let n: usize = read.completed.len();
            let data = join_slots(&read.completed, n);
            proof {
                assert forall|p: int| 0 <= p < n implies #[trigger] before.completed[p] is Some by {
                    lemma_every_slot(before.completed, p);
                }
                lemma_joined_bound(before, n as int);
                assert(chunk_lens(before.pending).take(n as int) =~= chunk_lens(before.pending));
            }
            put_bytes(&mut read.out, &data);
            read.phase = BatchPhase::Filling;
            read.pending = Vec::new();
            read.completed = Vec::new();
            read.scheduled = 0;
            read.received = 0;
            proof {
                assert(read@.pending =~= Seq::empty());
                assert(read@.completed =~= Seq::empty());
                assert(chunk_lens(read@.pending).len() == 0);
                assert(read@ == before.next_batch());
            }
            Ok(CancelableStep::Again(read))
        },
    }
}

/// Every step of a batch keeps its slots true to the file. A request asks for what stands behind
/// the requests before it, and its slot waits for just that; data that stands in the file where its
/// request asked for it goes into the slot of that request, in whatever order it comes.
pub proof fn law_batch_steps_keep_file_bytes(
    read: CancelableView,
    content: Seq<u8>,
    new_id: u64,
    chunk: int,
    position: int,
    state: AsyncReadState,
    data: Seq<u8>,
    short: bool,
    server_error: Option<u32>,
    cancelled: bool,
)
    requires
        read.wf(),
        slots_are_from(
            read.offset + read.out.len(),
            chunk_lens(read.pending),
            read.completed,
            content,
        ),
        0 < chunk <= usize::MAX,
        0 <= position < read.pending.len(),
        ({
            let at = read.offset + read.out.len() + total(chunk_lens(read.pending).take(position));
            &&& at + data.len() <= content.len()
            &&& data == content.subrange(at as int, at + data.len())
        }),
    ensures
        ({
            let sent = read.sent(new_id, chunk);
            &&& slots_are_from(
                sent.offset + sent.out.len(),
                chunk_lens(sent.pending),
                sent.completed,
                content,
            )
            &&& total(chunk_lens(sent.pending).take(read.pending.len() as int)) == read.scheduled
        }),
        ({
            let interim = read.interim(position, state);
            slots_are_from(
                interim.offset + interim.out.len(),
                chunk_lens(interim.pending),
                interim.completed,
                content,
            )
        }),
        ({
            let answered = read.answered(position, state, data, short, server_error, cancelled);
            slots_are_from(
                answered.offset + answered.out.len(),
                chunk_lens(answered.pending),
                answered.completed,
                content,
            )
        }),
{
    let start = read.offset + read.out.len();
    let chunks = chunk_lens(read.pending);
    lemma_slots_push(start as int, chunks, read.completed, content, chunk as nat);
    lemma_slots_fill(start as int, chunks, read.completed, content, position, data);
    assert(chunk_lens(read.sent(new_id, chunk).pending) =~= chunks.push(chunk as nat));
    assert(chunk_lens(read.interim(position, state).pending) =~= chunks);
    assert(chunk_lens(
        read.answered(position, state, data, short, server_error, cancelled).pending,
    ) =~= chunks);
}

/// A batch adds to what the batches before it gave what stands in the file behind it, whatever the
/// order in which the responses arrived.
pub proof fn law_batch_extends_file_bytes(read: CancelableView, content: Seq<u8>)
    requires
        read.wf(),
        read.phase is Receiving,
        read.received == read.pending.len(),
        !read.cancelled,
        read.first_status_error is None,
        read.offset + read.out.len() <= content.len(),
        read.out == content.subrange(read.offset as int, read.offset + read.out.len()),
        slots_are_from(
            read.offset + read.out.len(),
            chunk_lens(read.pending),
            read.completed,
            content,
        ),
    ensures
        ({
            let data = read.out + joined(read.completed, read.take_count());
            &&& read.offset + data.len() <= content.len()
            &&& data == content.subrange(read.offset as int, read.offset + data.len())
        }),
{
    let start = read.offset + read.out.len();
    let chunks = chunk_lens(read.pending);
    assert forall|p: int| 0 <= p < read.completed.len() implies #[trigger] read.completed[
        p
    ] is Some by {
        lemma_every_slot(read.completed, p);
    }
    let n = match read.short_response_at {
        None => read.completed.len() as int,
        Some(position) => position as int,
    };
    assert forall|p: int| 0 <= p < n implies #[trigger] read.completed[p] is Some
        && read.completed[p]->0.len() == chunks[p] by {
        assert(read.filled_in_order(p));
    }
    match read.short_response_at {
        None => {
            lemma_joined_full(start as int, chunks, read.completed, content, n);
        },
        Some(_) => {
            lemma_joined_short(start as int, chunks, read.completed, content, n);
        },
    }
    let data = read.out + joined(read.completed, read.take_count());
    assert(data =~= content.subrange(read.offset as int, read.offset + data.len()));
}

/// A read ends as cancelled only where nothing is outstanding: before anything was sent, or when
/// every final response of the batch has come.
pub proof fn law_cancelled_only_when_drained<T>(
    r: Result<CancelableStep, ClientError>,
    session: SessionConnection<T>,
    after: SessionConnection<T>,
    read: CancelableView,
    current: bool,
)
    requires
        read.wf(),
        cancelable_polled(r, session, after, read, current),
        r == Err::<CancelableStep, _>(ClientError::Cancelled),
    ensures
        read.pending.len() == 0 || read.received == read.pending.len(),
{
    if read.phase is Receiving {
        lemma_filled_bound(read.completed);
    }
}

} // verus!
