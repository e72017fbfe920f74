//! Direct-TCP transport: its configuration, and the frames of the byte stream.

use crate::bytes::copy_bytes;
use crate::bytes::put_bytes;
use crate::client::error::from_wire;
use crate::client::error::ClientError;
use crate::clock::nanos_of;
use crate::clock::span_from_secs;
use crate::wire::error::WireError;
use crate::wire::framing::announced_length;
use crate::wire::framing::decode_direct_tcp_length;
use crate::wire::framing::encode_direct_tcp_frame;
use crate::wire::framing::frame_of;
use crate::wire::framing::law_frame_roundtrip;
use crate::wire::framing::DIRECT_TCP_HEADER_SIZE;
use crate::wire::framing::DIRECT_TCP_MAX_PAYLOAD;
use std::time::Duration;
use vstd::prelude::*;

verus! {

/// How a TCP connection is made and used.
#[derive(Debug, Clone, Copy)]
pub struct TcpTransportConfig {
    pub connect_timeout: Duration,
    pub io_timeout: Duration,
    pub max_message_size: usize,
    pub tcp_nodelay: bool,
}

impl Default for TcpTransportConfig {
    fn default() -> (r: Self)
        ensures
            nanos_of(r.connect_timeout) == 8_000_000_000,
            nanos_of(r.io_timeout) == 30_000_000_000,
            r.max_message_size == DIRECT_TCP_MAX_PAYLOAD,
            r.tcp_nodelay,
            r.size_error() is None,
    {
        TcpTransportConfig {
            connect_timeout: span_from_secs(8),
            io_timeout: span_from_secs(30),
            max_message_size: DIRECT_TCP_MAX_PAYLOAD,
            tcp_nodelay: true,
        }
    }
}

impl TcpTransportConfig {
    /// Why no connection is made with this configuration, if none is.
    pub open spec fn size_error(self) -> Option<ClientError> {
        if self.max_message_size == 0 || self.max_message_size > DIRECT_TCP_MAX_PAYLOAD {
            Some(
                ClientError::Protocol(
                    "TCP max_message_size must fit the 24-bit direct-TCP length field",
                ),
            )
        } else {
            None
        }
    }

    /// Checks that the longest message can be announced, and makes an empty receive buffer.
    pub fn receive_buffer(&self) -> (r: Result<FrameBuffer, ClientError>)
        ensures
            match self.size_error() {
                Some(e) => r == Err::<FrameBuffer, ClientError>(e),
                None => r is Ok && r->Ok_0.max_message_size == self.max_message_size
                    && r->Ok_0.received@.len() == 0,
            },
    {
        if self.max_message_size == 0 || self.max_message_size > DIRECT_TCP_MAX_PAYLOAD {
            return Err(
                ClientError::Protocol(
                    "TCP max_message_size must fit the 24-bit direct-TCP length field",
                ),
            );
        }
        Ok(FrameBuffer { max_message_size: self.max_message_size, received: Vec::new() })
    }
}

/// What was received of a connection and not yet taken.
///
/// A wait for more bytes can be given up at any time: what was received stays, and a later wait
/// goes on from the same byte.
#[derive(Debug)]
pub struct FrameBuffer {
    pub max_message_size: usize,
    pub received: Vec<u8>,
}

/// What can be taken from received bytes, and the bytes that stay.
pub open spec fn taken(max_message_size: usize, received: Seq<u8>) -> (
    Result<Option<Seq<u8>>, ClientError>,
    Seq<u8>,
) {
    let n = announced_length(received);
    if received.len() < DIRECT_TCP_HEADER_SIZE {
        (Ok(None), received)
    } else if received[0] != 0 {
        (Err(ClientError::Wire(WireError::Invalid("direct-TCP prefix"))), received)
    } else if n > max_message_size {
        (
            Err(
                ClientError::Protocol(
                    "SMB peer advertised a frame larger than configured transport maximum",
                ),
            ),
            received,
        )
    } else if received.len() < DIRECT_TCP_HEADER_SIZE + n {
        (Ok(None), received)
    } else {
        (Ok(Some(received.subrange(4, 4 + n))), received.subrange(4 + n, received.len() as int))
    }
}

impl FrameBuffer {
    /// Takes the next message, where all of it has been received.
    pub fn try_take_message(&mut self) -> (r: Result<Option<Vec<u8>>, ClientError>)
        ensures
            match taken(old(self).max_message_size, old(self).received@).0 {
                Err(e) => r == Err::<Option<Vec<u8>>, ClientError>(e),
                Ok(None) => r == Ok::<Option<Vec<u8>>, ClientError>(None),
                Ok(Some(message)) => r is Ok && r->Ok_0 is Some && r->Ok_0->0@ == message,
            },
            final(self).received@ == taken(old(self).max_message_size, old(self).received@).1,
            final(self).max_message_size == old(self).max_message_size,
    {
        if self.received.len() < DIRECT_TCP_HEADER_SIZE {
            return Ok(None);
        }
        let payload_len: usize = from_wire(decode_direct_tcp_length(self.received.as_slice()))?;
        if payload_len > self.max_message_size {
            return Err(
                ClientError::Protocol(
                    "SMB peer advertised a frame larger than configured transport maximum",
                ),
            );
        }
        let frame_len: usize = DIRECT_TCP_HEADER_SIZE + payload_len;
        let end: usize = self.received.len();
        if end < frame_len {
            return Ok(None);
        }
        let received = self.received.as_slice();
        let message = copy_bytes(&received[DIRECT_TCP_HEADER_SIZE..frame_len]);
        let rest = copy_bytes(&received[frame_len..end]);
        self.received = rest;
        Ok(Some(message))
    }

    /// Adds a chunk that was read. An empty one says that the connection was closed.
    pub fn accept_chunk(&mut self, chunk: &[u8]) -> (still_open: bool)
        ensures
            still_open == (chunk@.len() > 0),
            final(self).received@ == old(self).received@ + chunk@,
            final(self).max_message_size == old(self).max_message_size,
    {
        put_bytes(&mut self.received, chunk);
        chunk.len() > 0
    }

    /// The frame of a message that is to be sent.
    pub fn frame_message(&self, message: &[u8]) -> (r: Result<Vec<u8>, ClientError>)
        ensures
            message@.len() > self.max_message_size ==> r == Err::<Vec<u8>, _>(
                ClientError::Protocol("SMB message exceeds configured transport maximum"),
            ),
            message@.len() <= self.max_message_size && message@.len() > DIRECT_TCP_MAX_PAYLOAD
                ==> r == Err::<Vec<u8>, _>(
                ClientError::Wire(WireError::TooLong("a direct-TCP payload")),
            ),
            message@.len() <= self.max_message_size && message@.len() <= DIRECT_TCP_MAX_PAYLOAD
                ==> r is Ok && r->Ok_0@ == frame_of(message@),
    {
        if message.len() > self.max_message_size {
            return Err(ClientError::Protocol("SMB message exceeds configured transport maximum"));
        }
        from_wire(encode_direct_tcp_frame(message))
    }
}

/// The byte stream of messages that follow one another.
pub open spec fn stream_of(messages: Seq<Seq<u8>>) -> Seq<u8>
    decreases messages.len(),
{
    if messages.len() == 0 {
        Seq::empty()
    } else {
        frame_of(messages[0]) + stream_of(messages.drop_first())
    }
}

/// However a stream of messages is cut into chunks, nothing of it is lost: of its first `k` bytes
/// the first message can be taken exactly where all of it is there, what stays then is the
/// beginning of the stream of the other messages, and before that the bytes stay as they are.
pub proof fn law_partial_frames_are_kept(messages: Seq<Seq<u8>>, k: int, max_message_size: usize)
    requires
        messages.len() > 0,
        messages[0].len() <= max_message_size,
        max_message_size <= DIRECT_TCP_MAX_PAYLOAD,
        0 <= k <= stream_of(messages).len(),
    ensures
        ({
            let received = stream_of(messages).take(k);
            let n = 4 + messages[0].len();
            if k < n {
                taken(max_message_size, received) == (
                    Ok::<Option<Seq<u8>>, ClientError>(None),
                    received,
                )
            } else {
                taken(max_message_size, received) == (
                    Ok::<Option<Seq<u8>>, ClientError>(Some(messages[0])),
                    stream_of(messages.drop_first()).take(k - n),
                )
            }
        }),
{
    let stream = stream_of(messages);
    let rest = stream_of(messages.drop_first());
    let received = stream.take(k);
    let n = 4 + messages[0].len();
    law_frame_roundtrip(messages[0], rest);
    assert(stream == frame_of(messages[0]) + rest);
    if k >= 4 {
        assert(received[0] == stream[0]);
        assert(received[1] == stream[1]);
        assert(received[2] == stream[2]);
        assert(received[3] == stream[3]);
        assert(announced_length(received) == messages[0].len());
    }
    if k >= n {
        assert(received.subrange(4, n as int) =~= stream.subrange(4, n as int));
        assert(received.subrange(n as int, k) =~= rest.take(k - n));
    }
}

} // verus!
