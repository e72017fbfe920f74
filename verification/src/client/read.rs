//! READ: positional reads, one request at a time or several at once.

use crate::bytes::put_bytes;
use crate::client::error::from_wire;
use crate::client::error::ClientError;
use crate::client::file::FileHandle;
use crate::client::read_async::async_state_after;
use crate::client::read_async::read_response_phase;
use crate::client::read_async::read_response_refusal;
use crate::client::read_async::AsyncReadState;
use crate::client::read_async::ReadResponsePhase;
use crate::client::session::SessionConnection;
use crate::laws::messages::law_read_message;
use crate::laws::messages::read_sent;
use crate::laws::reads::wanted;
use crate::laws::limits::law_charged_message_is_paid_for;
use crate::laws::limits::law_read_charge;
use crate::laws::limits::paid_for;
use crate::wire::file_io::read_request_bytes;
use crate::wire::file_io::read_response_data;
use crate::wire::file_io::read_response_error;
use crate::wire::file_io::FileId;
use crate::wire::file_io::ReadRequest;
use crate::wire::file_io::ReadResponse;
use crate::wire::header::header_error;
use crate::wire::header::header_of;
use crate::wire::header::Smb2Header;
use crate::wire::header::StatusField;
use vstd::prelude::*;

verus! {

pub const STATUS_END_OF_FILE: u32 = 0xC000_0011;

const CREDIT_UNIT_BYTES: usize = 65_536;

const DEFAULT_PIPELINE_CHUNK_SIZE: usize = 262_144;

const DEFAULT_MAX_IN_FLIGHT: usize = 4;

/// How a serial read asks for credits.
#[derive(Debug, Clone, Copy, PartialEq, Eq)]
pub struct ReadOptions {
    /// Minimum number of credits to request back from the server on each READ.
    pub credit_request: u16,
}

impl Default for ReadOptions {
    fn default() -> (r: Self)
        ensures
            r.credit_request == 32,
    {
        ReadOptions { credit_request: 32 }
    }
}

/// How a pipelined read is cut up.
#[derive(Debug, Clone, Copy, PartialEq, Eq)]
pub struct PipelinedReadOptions {
    /// Maximum payload carried by one outstanding READ request.
    pub chunk_size: usize,
    /// Maximum number of READ requests simultaneously outstanding on the connection.
    pub max_in_flight: usize,
    /// Minimum number of credits to request back from the server on each READ.
    pub credit_request: u16,
}

impl Default for PipelinedReadOptions {
    fn default() -> (r: Self)
        ensures
            r == (PipelinedReadOptions {
                chunk_size: 262_144,
                max_in_flight: 4,
                credit_request: 32,
            }),
    {
        PipelinedReadOptions {
            chunk_size: DEFAULT_PIPELINE_CHUNK_SIZE,
            max_in_flight: DEFAULT_MAX_IN_FLIGHT,
            credit_request: 32,
        }
    }
}

/// How a pipelined read went.
#[derive(Debug, Clone, Copy, PartialEq, Eq, Structural)]
pub struct PipelinedReadStats {
    pub requests_sent: usize,
    pub responses_completed: usize,
    pub peak_in_flight: usize,
    /// Number of scheduler turns where no credit was available while at least one READ was still
    /// outstanding. In that state the scheduler waits for a response and resumes from its grant.
    pub credit_stalls: usize,
}

impl Default for PipelinedReadStats {
    fn default() -> (r: Self)
        ensures
            r == (PipelinedReadStats {
                requests_sent: 0,
                responses_completed: 0,
                peak_in_flight: 0,
                credit_stalls: 0,
            }),
    {
        PipelinedReadStats {
            requests_sent: 0,
            responses_completed: 0,
            peak_in_flight: 0,
            credit_stalls: 0,
        }
    }
}

/// What a pipelined read gives.
#[derive(Debug, Clone, PartialEq, Eq)]
pub struct PipelinedReadResult {
    pub data: Vec<u8>,
    pub stats: PipelinedReadStats,
}

/// The smaller of two numbers.
pub open spec fn smaller(a: int, b: int) -> int {
    if a <= b {
        a
    } else {
        b
    }
}

/// The smaller of two lengths.
pub fn smaller_of(a: usize, b: usize) -> (r: usize)
    ensures
        r == smaller(a as int, b as int),
{
    if a <= b {
        a
    } else {
        b
    }
}

/// How many bytes a read is after: no more than asked for, and none beyond the end of the file.
pub open spec fn target_of(end_of_file: u64, offset: u64, length: usize) -> int {
    smaller(length as int, end_of_file - offset)
}

/// How many bytes a read is after.
pub fn read_target_len(file: &FileHandle, offset: u64, length: usize) -> (r: usize)
    requires
        offset < file.end_of_file,
    ensures
        r == target_of(file.end_of_file, offset, length),
{
    let left: u64 = file.end_of_file - offset;
    if length as u64 <= left {
        length
    } else {
        left as usize
    }
}

/// How many bytes the available credits cover. Without multi-credit requests it is one unit.
pub open spec fn credit_limit_of(multi_credit: bool, credits: u32) -> int {
    if multi_credit {
        smaller(credits * 65_536, usize::MAX as int)
    } else if credits > 0 {
        65_536
    } else {
        0
    }
}

/// How many bytes the available credits cover.
pub fn credit_limited_payload(supports_multi_credit: bool, available_credits: u32) -> (r: usize)
    ensures
        r == credit_limit_of(supports_multi_credit, available_credits),
{
    if supports_multi_credit {
        let bytes: u64 = available_credits as u64 * 65_536;
        if bytes > usize::MAX as u64 {
            usize::MAX
        } else {
            bytes as usize
        }
    } else if available_credits > 0 {
        CREDIT_UNIT_BYTES
    } else {
        0
    }
}

/// The charge of a READ: one credit for each begun unit.
pub open spec fn read_charge_of(multi_credit: bool, length: int) -> Result<u16, ClientError> {
    if !multi_credit {
        Ok(0)
    } else if length == 0 {
        Err(ClientError::Protocol("READ CreditCharge cannot be calculated for zero bytes"))
    } else if (length - 1) / 65_536 + 1 > u16::MAX {
        Err(ClientError::Protocol("READ CreditCharge exceeds u16"))
    } else {
        Ok(((length - 1) / 65_536 + 1) as u16)
    }
}

/// The charge of a READ.
pub fn read_credit_charge(supports_multi_credit: bool, length: usize) -> (r: Result<
    u16,
    ClientError,
>)
    ensures
        r == read_charge_of(supports_multi_credit, length as int),
{
    if !supports_multi_credit {
        return Ok(0);
    }
    if length == 0 {
        return Err(
            ClientError::Protocol("READ CreditCharge cannot be calculated for zero bytes"),
        );
    }
    let units: usize = (length - 1) / CREDIT_UNIT_BYTES + 1;
    if units > u16::MAX as usize {
        return Err(ClientError::Protocol("READ CreditCharge exceeds u16"));
    }
    Ok(units as u16)
}

/// The credits that a chunk within the credit limit costs are available.
pub proof fn law_limited_chunk_is_affordable(multi_credit: bool, credits: u32, length: int)
    requires
        0 < length <= credit_limit_of(multi_credit, credits),
        read_charge_of(multi_credit, length) is Ok,
    ensures
        crate::client::credits::credit_cost(read_charge_of(multi_credit, length)->Ok_0) <= credits,
{
    if multi_credit {
        assert((length - 1) / 65_536 + 1 <= credits) by {
            assert(length <= credits * 65_536);
        }
    }
}

/// Why a session does not say how it reads, if it does not.
pub open spec fn read_limits_error<T>(session: SessionConnection<T>) -> Option<ClientError> {
    if session.connection.negotiated is None {
        Some(ClientError::Protocol("READ requires negotiated parameters"))
    } else {
        None
    }
}

/// The READ request before it is signed.
pub open spec fn read_plain<T>(
    session: SessionConnection<T>,
    file_id: FileId,
    tree_id: u32,
    offset: int,
    length: int,
    charge: u16,
    minimum: u16,
) -> Seq<u8> {
    read_request_bytes(
        ReadRequest { file_id, offset: offset as u64, length: length as u32 },
        session.connection.message_ids.next,
        session.session_id,
        tree_id,
        charge,
        session.connection.credit_request(charge, minimum),
    )
}

/// Why no READ request can be sent for a chunk, if none can.
pub open spec fn issue_error<T>(
    session: SessionConnection<T>,
    file_id: FileId,
    tree_id: u32,
    offset: int,
    length: int,
    multi_credit: bool,
    minimum: u16,
) -> Option<ClientError> {
    let charge = read_charge_of(multi_credit, length);
    if charge is Err {
        Some(charge->Err_0)
    } else if session.connection.charge_error(charge->Ok_0) is Some {
        session.connection.charge_error(charge->Ok_0)
    } else {
        session.request_sign_error(
            session.signing_required,
            read_plain(session, file_id, tree_id, offset, length, charge->Ok_0, minimum),
            "READ requires signing but the session has no signing key",
        )
    }
}

/// The session after an attempt to send a READ request.
pub open spec fn read_charged<T>(
    session: SessionConnection<T>,
    multi_credit: bool,
    length: int,
) -> SessionConnection<T> {
    let charge = read_charge_of(multi_credit, length);
    SessionConnection {
        connection: if charge is Err {
            session.connection
        } else {
            session.connection.charged(charge->Ok_0)
        },
        ..session
    }
}

/// The READ request of a chunk as it is sent.
pub open spec fn issued_read<T>(
    session: SessionConnection<T>,
    file_id: FileId,
    tree_id: u32,
    offset: int,
    length: int,
    multi_credit: bool,
    minimum: u16,
) -> Seq<u8> {
    session.request_signed(
        session.signing_required,
        read_plain(
            session,
            file_id,
            tree_id,
            offset,
            length,
            read_charge_of(multi_credit, length)->Ok_0,
            minimum,
        ),
    )
}

/// Why a READ response is not accepted before its status counts, if it is not.
pub open spec fn read_refusal<T>(
    session: SessionConnection<T>,
    tree_id: u32,
    message_id: u64,
    state: AsyncReadState,
    m: Seq<u8>,
) -> Option<ClientError> {
    let h = header_of(m);
    let refused = read_response_refusal(state, tree_id, session.session_id, message_id, h);
    let signature = session.response_signature_error(
        read_response_phase(h).owes_signature(session.signing_required),
        m,
        "server signed READ without an available signing key",
        "server omitted a required READ signature",
    );
    if header_error(m) is Some {
        Some(ClientError::Wire(header_error(m)->0))
    } else if refused is Some {
        refused
    } else if session.connection.grant_error(h.credits) is Some {
        session.connection.grant_error(h.credits)
    } else {
        signature
    }
}

/// The session after a READ response.
pub open spec fn read_granted<T>(
    session: SessionConnection<T>,
    tree_id: u32,
    message_id: u64,
    state: AsyncReadState,
    m: Seq<u8>,
) -> SessionConnection<T> {
    let h = header_of(m);
    SessionConnection {
        connection: if header_error(m) is Some || read_response_refusal(
            state,
            tree_id,
            session.session_id,
            message_id,
            h,
        ) is Some {
            session.connection
        } else {
            session.connection.granted(h.credits)
        },
        ..session
    }
}

/// What the data of a final READ response with status success is.
pub open spec fn read_payload_of(m: Seq<u8>, chunk_len: int) -> Result<Seq<u8>, ClientError> {
    if read_response_error(m) is Some {
        Err(ClientError::Wire(read_response_error(m)->0))
    } else if read_response_data(m).len() > chunk_len {
        Err(ClientError::Protocol("READ response returned more data than requested"))
    } else {
        Ok(read_response_data(m))
    }
}

/// What a final READ response gives of a chunk: at the end of the file nothing.
pub open spec fn chunk_data_of(m: Seq<u8>, chunk_len: int) -> Result<Seq<u8>, ClientError> {
    match header_of(m).status {
        StatusField::ChannelSequence { .. } => Err(
            ClientError::Protocol("READ response used request header form"),
        ),
        StatusField::Status(status) => if status == 0 {
            read_payload_of(m, chunk_len)
        } else if status == STATUS_END_OF_FILE {
            Ok(Seq::empty())
        } else {
            Err(ClientError::ServerStatus(status))
        },
    }
}

/// Decodes the data of a final READ response with status success.
pub fn decode_chunk(message: &[u8], chunk_len: usize) -> (r: Result<Vec<u8>, ClientError>)
    ensures
        match read_payload_of(message@, chunk_len as int) {
            Err(e) => r == Err::<Vec<u8>, ClientError>(e),
            Ok(data) => r is Ok && r->Ok_0@ == data,
        },
{
    let response = from_wire(ReadResponse::decode_message(message))?;
    if response.data.len() > chunk_len {
        return Err(ClientError::Protocol("READ response returned more data than requested"));
    }
    Ok(response.data)
}

impl<T> SessionConnection<T> {
    /// How the session reads: whether requests may cost more than one credit, and how much one may
    /// ask for.
    pub fn read_limits(&self) -> (r: Result<(bool, usize), ClientError>)
        ensures
            match read_limits_error(*self) {
                Some(e) => r == Err::<(bool, usize), ClientError>(e),
                None => r is Ok && r->Ok_0.0 == self.connection.negotiated->0.multi_credit()
                    && r->Ok_0.1 == self.connection.negotiated->0.max_read_size,
            },
    {
        match &self.connection.negotiated {
            None => Err(ClientError::Protocol("READ requires negotiated parameters")),
            Some(negotiated) => Ok(
                (negotiated.supports_multi_credit(), negotiated.max_read_size as usize),
            ),
        }
    }

    /// Builds the READ request of a chunk. Returns it with its MessageId.
    pub fn issue_read(
        &mut self,
        file_id: FileId,
        tree_id: u32,
        offset: u64,
        length: usize,
        multi_credit: bool,
        minimum: u16,
    ) -> (r: Result<(Vec<u8>, u64), ClientError>)
        requires
            length <= u32::MAX,
        ensures
            match issue_error(
                *old(self),
                file_id,
                tree_id,
                offset as int,
                length as int,
                multi_credit,
                minimum,
            ) {
                Some(e) => r == Err::<(Vec<u8>, u64), ClientError>(e),
                None => r is Ok && r->Ok_0.0@ == issued_read(
                    *old(self),
                    file_id,
                    tree_id,
                    offset as int,
                    length as int,
                    multi_credit,
                    minimum,
                ) && r->Ok_0.1 == old(self).connection.message_ids.next,
            },
            r is Ok && length > 0 ==> read_sent(
                r->Ok_0.0@,
                *old(self),
                file_id,
                tree_id,
                offset as int,
                length as int,
                multi_credit,
                minimum,
            ),
            r is Ok && length > 0 ==> paid_for(*old(self), *final(self), r->Ok_0.0@),
            *final(self) == read_charged(*old(self), multi_credit, length as int),
    {
        let credit_charge: u16 = read_credit_charge(multi_credit, length)?;
        let (message_id, credit_request) = self.connection.charge_request(credit_charge, minimum)?;
        let request = ReadRequest::direct(file_id, offset, length as u32);
        let mut message = request.encode_message(
            message_id,
            self.session_id,
            tree_id,
            credit_charge,
            credit_request,
        );
        self.sign_request(
            self.signing_required,
            &mut message,
            "READ requires signing but the session has no signing key",
        )?;
        proof {
            if length > 0 {
                law_read_message(
                    *old(self),
                    file_id,
                    tree_id,
                    offset as int,
                    length as int,
                    multi_credit,
                    minimum,
                );
                law_read_charge(multi_credit, length as int);
                law_charged_message_is_paid_for(*old(self), credit_charge, message@);
            }
        }
        Ok((message, message_id))
    }

    /// Checks a READ response up to its status, and takes its grant. Returns its header, its phase
    /// and the asynchronous state after it.
    pub fn take_read_response(
        &mut self,
        tree_id: u32,
        message_id: u64,
        state: AsyncReadState,
        message: &[u8],
    ) -> (r: Result<(Smb2Header, ReadResponsePhase, AsyncReadState), ClientError>)
        ensures
            match read_refusal(*old(self), tree_id, message_id, state, message@) {
                Some(e) => r == Err::<
                    (Smb2Header, ReadResponsePhase, AsyncReadState),
                    ClientError,
                >(e),
                None => r == Ok::<(Smb2Header, ReadResponsePhase, AsyncReadState), ClientError>(
                    (
                        header_of(message@),
                        read_response_phase(header_of(message@)),
                        async_state_after(state, header_of(message@)),
                    ),
                ),
            },
            *final(self) == read_granted(*old(self), tree_id, message_id, state, message@),
    {
        let header = from_wire(Smb2Header::decode(message))?;
        let mut state = state;
        let phase = state.validate(tree_id, self.session_id, message_id, &header)?;
        self.connection.grant_credits(header.credits)?;
        self.verify_response(
            phase.requires_signature(self.signing_required),
            message,
            &header,
            "server signed READ without an available signing key",
            "server omitted a required READ signature",
        )?;
        Ok((header, phase, state))
    }
}

/// A serial read with one request outstanding.
#[derive(Debug)]
pub struct SerialRead {
    pub file_id: FileId,
    pub tree_id: u32,
    pub options: ReadOptions,
    /// How many bytes the read is after.
    pub target: usize,
    /// What came so far.
    pub out: Vec<u8>,
    /// Where the outstanding chunk begins.
    pub next_offset: u64,
    pub message_id: u64,
    pub chunk_len: usize,
    pub async_state: AsyncReadState,
}

impl SerialRead {
    /// Whether a read is in order between two chunks.
    pub open spec fn wf(self) -> bool {
        &&& self.out@.len() <= self.target
        &&& self.next_offset + (self.target - self.out@.len()) <= u64::MAX
        &&& self.chunk_len <= self.target - self.out@.len()
    }
}

/// What to do next in a serial read.
pub enum SerialStep {
    /// Send this request and hand the response back.
    Send(SerialRead, Vec<u8>),
    /// Hand another response back.
    Receive(SerialRead),
    /// The read is over.
    Done(Vec<u8>),
}

/// How long the next chunk of a serial read is: what is left, within the negotiated and the credit
/// limit.
pub open spec fn serial_chunk_of<T>(session: SessionConnection<T>, remaining: int) -> int {
    let negotiated = session.connection.negotiated->0;
    smaller(
        smaller(remaining, negotiated.max_read_size as int),
        credit_limit_of(negotiated.multi_credit(), session.connection.credit_window()->0),
    )
}

/// Why no further chunk can be asked for, if none can.
pub open spec fn serial_issue_error<T>(
    session: SessionConnection<T>,
    read: SerialRead,
) -> Option<ClientError> {
    let window = session.connection.credit_window();
    let chunk = serial_chunk_of(session, read.target - read.out@.len());
    if read_limits_error(session) is Some {
        read_limits_error(session)
    } else if window is None {
        Some(ClientError::Protocol("SMB credit window is not initialized"))
    } else if window->0 == 0 {
        Some(ClientError::Protocol("SMB connection has no credits available for READ"))
    } else if chunk == 0 {
        Some(ClientError::Protocol("READ chunk size resolved to zero"))
    } else {
        issue_error(
            session,
            read.file_id,
            read.tree_id,
            read.next_offset as int,
            chunk,
            session.connection.negotiated->0.multi_credit(),
            read.options.credit_request,
        )
    }
}

/// The session after an attempt to ask for a further chunk.
pub open spec fn serial_charged<T>(
    session: SessionConnection<T>,
    read: SerialRead,
) -> SessionConnection<T> {
    let window = session.connection.credit_window();
    let chunk = serial_chunk_of(session, read.target - read.out@.len());
    if read.out@.len() >= read.target || read_limits_error(session) is Some || window is None
        || window->0 == 0 || chunk == 0 {
        session
    } else {
        read_charged(session, session.connection.negotiated->0.multi_credit(), chunk)
    }
}

/// Whether a step is the one that follows a chunk: the end, or a request for the next chunk where
/// the last one ended.
pub open spec fn serial_continues<T>(
    r: Result<SerialStep, ClientError>,
    session: SessionConnection<T>,
    read: SerialRead,
) -> bool {
    let chunk = serial_chunk_of(session, read.target - read.out@.len());
    if read.out@.len() >= read.target {
        r is Ok && r->Ok_0 is Done && r->Ok_0->Done_0@ == read.out@
    } else if serial_issue_error(session, read) is Some {
        r == Err::<SerialStep, ClientError>(serial_issue_error(session, read)->0)
    } else {
        r is Ok && r->Ok_0 is Send && {
            let next = r->Ok_0->Send_0;
            &&& r->Ok_0->Send_1@ == issued_read(
                session,
                read.file_id,
                read.tree_id,
                read.next_offset as int,
                chunk,
                session.connection.negotiated->0.multi_credit(),
                read.options.credit_request,
            )
            &&& next.wf()
            &&& next.chunk_len == chunk
            &&& next.chunk_len > 0
            &&& next.message_id == session.connection.message_ids.next
            &&& next.async_state.async_id is None
            &&& next.out@ == read.out@
            &&& next.target == read.target
            &&& next.next_offset == read.next_offset
            &&& next.file_id == read.file_id
            &&& next.tree_id == read.tree_id
            &&& next.options == read.options
        }
    }
}

/// A serial read after the data of a chunk.
pub open spec fn serial_after(read: SerialRead, next: SerialRead, data: Seq<u8>) -> bool {
    &&& next.out@ == read.out@ + data
    &&& next.next_offset == read.next_offset + data.len()
    &&& next.target == read.target
    &&& next.file_id == read.file_id
    &&& next.tree_id == read.tree_id
    &&& next.options == read.options
}

impl<T> SessionConnection<T> {
    /// Asks for the next chunk of a serial read, or ends it.
    fn next_serial_chunk(&mut self, read: SerialRead) -> (r: Result<SerialStep, ClientError>)
        requires
            read.out@.len() <= read.target,
            read.next_offset + (read.target - read.out@.len()) <= u64::MAX,
        ensures
            serial_continues(r, *old(self), read),
            *final(self) == serial_charged(*old(self), read),
    {
        let mut read = read;
        if read.out.len() >= read.target {
            return Ok(SerialStep::Done(read.out));
        }
        let remaining: usize = read.target - read.out.len();
        let (multi_credit, max_read_size) = self.read_limits()?;
        let available_credits: u32 = match self.connection.available_credits() {
            None => {
                return Err(ClientError::Protocol("SMB credit window is not initialized"));
            },
            Some(credits) => {
                if credits == 0 {
                    return Err(
                        ClientError::Protocol("SMB connection has no credits available for READ"),
                    );
                }
                credits
            },
        };
        let chunk_len: usize = smaller_of(
            smaller_of(remaining, max_read_size),
            credit_limited_payload(multi_credit, available_credits),
        );
        if chunk_len == 0 {
            return Err(ClientError::Protocol("READ chunk size resolved to zero"));
        }
        let (message, message_id) = self.issue_read(
            read.file_id,
            read.tree_id,
            read.next_offset,
            chunk_len,
            multi_credit,
            read.options.credit_request,
        )?;
        read.message_id = message_id;
        read.chunk_len = chunk_len;
        read.async_state = AsyncReadState { async_id: None };
        Ok(SerialStep::Send(read, message))
    }

    /// Begins to read bytes from an already-open file without changing any shared file position.
    ///
    /// Large reads are split to respect both the negotiated MaxReadSize and the credits currently
    /// available on the connection.
    pub fn begin_read_at(
        &mut self,
        file: &FileHandle,
        offset: u64,
        length: usize,
        options: ReadOptions,
    ) -> (r: Result<SerialStep, ClientError>)
        ensures
            length == 0 || offset >= file.end_of_file ==> r is Ok && r->Ok_0 is Done
                && r->Ok_0->Done_0@.len() == 0 && *final(self) == *old(self),
            length > 0 && offset < file.end_of_file && old(self).encrypts() ==> r == Err::<
                SerialStep,
                _,
            >(ClientError::Protocol("encrypted SMB sessions are not implemented yet"))
                && *final(self) == *old(self),
            length > 0 && offset < file.end_of_file && !old(self).encrypts() ==> exists|
                read: SerialRead,
            |
                {
                    &&& #[trigger] serial_started(read, *file, offset, length, options)
                    &&& serial_continues(r, *old(self), read)
                    &&& *final(self) == serial_charged(*old(self), read)
                },
            r is Ok && r->Ok_0 is Send ==> r->Ok_0->Send_0.target == wanted(
                file.end_of_file,
                offset,
                length,
            ),
    {
        if length == 0 || offset >= file.len() {
            return Ok(SerialStep::Done(Vec::new()));
        }
        self.ensure_not_encrypted()?;
        let read = SerialRead {
            file_id: file.file_id,
            tree_id: file.tree_id,
            options,
            target: read_target_len(file, offset, length),
            out: Vec::new(),
            next_offset: offset,
            message_id: 0,
            chunk_len: 0,
            async_state: AsyncReadState { async_id: None },
        };
        assert(serial_started(read, *file, offset, length, options));
        self.next_serial_chunk(read)
    }

    /// Takes a response in a serial read.
    pub fn continue_read_at(&mut self, read: SerialRead, response_message: &[u8]) -> (r: Result<
        SerialStep,
        ClientError,
    >)
        requires
            read.wf(),
        ensures
            serial_answered(r, *old(self), *final(self), read, response_message@),
    {
        let mut read = read;
        let (header, phase, state) = self.take_read_response(
            read.tree_id,
            read.message_id,
            read.async_state,
            response_message,
        )?;
        if phase == ReadResponsePhase::InterimPending {
            read.async_state = state;
            return Ok(SerialStep::Receive(read));
        }
        let data = match header.status {
            StatusField::ChannelSequence { .. } => {
                return Err(ClientError::Protocol("READ response used request header form"));
            },
            StatusField::Status(status) => {
                if status == 0 {
                    decode_chunk(response_message, read.chunk_len)?
                } else if status == STATUS_END_OF_FILE {
                    let none: Vec<u8> = Vec::new();
                    assert(none@ =~= Seq::empty());
                    none
                } else {
                    return Err(ClientError::ServerStatus(status));
                }
            },
        };
        let ghost before = read;
        let received: usize = data.len();
        put_bytes(&mut read.out, &data);
        if received < read.chunk_len {
            return Ok(SerialStep::Done(read.out));
        }
        read.next_offset = read.next_offset + received as u64;
        assert(serial_after(before, read, data@));
        self.next_serial_chunk(read)
    }
}

/// Whether a serial read is one that has just begun.
pub open spec fn serial_started(
    read: SerialRead,
    file: FileHandle,
    offset: u64,
    length: usize,
    options: ReadOptions,
) -> bool {
    &&& read.file_id == file.file_id
    &&& read.tree_id == file.tree_id
    &&& read.options == options
    &&& read.target == target_of(file.end_of_file, offset, length)
    &&& read.out@.len() == 0
    &&& read.next_offset == offset
}

/// Whether a result is that of a response in a serial read: an interim response is waited through,
/// a short chunk ends the read, a full one leads to the next.
pub open spec fn serial_answered<T>(
    r: Result<SerialStep, ClientError>,
    session: SessionConnection<T>,
    after: SessionConnection<T>,
    read: SerialRead,
    m: Seq<u8>,
) -> bool {
    let refused = read_refusal(session, read.tree_id, read.message_id, read.async_state, m);
    let granted = read_granted(session, read.tree_id, read.message_id, read.async_state, m);
    let data = chunk_data_of(m, read.chunk_len as int);
    if refused is Some {
        r == Err::<SerialStep, ClientError>(refused->0) && after == granted
    } else if read_response_phase(header_of(m)) == ReadResponsePhase::InterimPending {
        r is Ok && r->Ok_0 is Receive && after == granted && r->Ok_0->Receive_0 == (SerialRead {
            async_state: async_state_after(read.async_state, header_of(m)),
            ..read
        })
    } else if data is Err {
        r == Err::<SerialStep, ClientError>(data->Err_0) && after == granted
    } else if data->Ok_0.len() < read.chunk_len {
        r is Ok && r->Ok_0 is Done && r->Ok_0->Done_0@ == read.out@ + data->Ok_0 && after == granted
    } else {
        exists|next: SerialRead|
            {
                &&& #[trigger] serial_after(read, next, data->Ok_0)
                &&& serial_continues(r, granted, next)
                &&& after == serial_charged(granted, next)
            }
    }
}

/// A serial read asks for the bytes of a file in order: where what came so far is the file's bytes
/// from the beginning of the read on, and the next chunk is the file's bytes where it was asked for,
/// what both make together is so too, whether it is returned or read on behind.
pub proof fn law_serial_read_in_order(
    content: Seq<u8>,
    offset: int,
    read: SerialRead,
    next: SerialRead,
    data: Seq<u8>,
)
    requires
        0 <= offset,
        read.next_offset == offset + read.out@.len(),
        offset + read.out@.len() + data.len() <= content.len(),
        read.out@ == content.subrange(offset, offset + read.out@.len()),
        data == content.subrange(
            read.next_offset as int,
            read.next_offset as int + data.len() as int,
        ),
        serial_after(read, next, data),
    ensures
        read.out@ + data == content.subrange(offset, offset + read.out@.len() + data.len()),
        next.next_offset == offset + next.out@.len(),
        next.out@ == content.subrange(offset, offset + next.out@.len()),
{
    assert(read.out@ + data =~= content.subrange(offset, offset + read.out@.len() + data.len()));
    assert(next.out@ =~= content.subrange(offset, offset + next.out@.len()));
}

} // verus!
