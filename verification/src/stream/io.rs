//! Reading, writing and closing a stream.

use super::pool::{PoolView, StreamPool};
use super::{Stream, StreamState, StreamView};
use crate::buffer::bytes_contents;
use crate::channel::{offered, Offer, Outbound, SendOutcome};
use crate::error::Error;
use crate::frame::{
    data_frame, end_frame, window_update_frame, Frame, FrameType, FrameView, FLAG_END_STREAM,
};
use bytes::Bytes;
use vstd::prelude::*;

verus! {

/// What the queue of frames for a reader has to give.
#[derive(Debug)]
pub enum Inbound {
    /// The next frame.
    Frame(Frame),
    /// Nothing yet.
    Empty,
    /// Nothing any more.
    Ended,
}

/// What the queue of frames for a reader has to give, as a value.
pub enum InboundView {
    Frame(FrameView),
    Empty,
    Ended,
}

impl View for Inbound {
    type V = InboundView;

    open spec fn view(&self) -> InboundView {
        match self {
            Inbound::Frame(f) => InboundView::Frame(f@),
            Inbound::Empty => InboundView::Empty,
            Inbound::Ended => InboundView::Ended,
        }
    }
}

/// What a read gives.
#[derive(Debug)]
pub enum ReadPoll {
    /// Bytes for the reader, and the window update that is to be sent for
    /// them, if one is due.
    Data { payload: Bytes, window_update: Option<Bytes> },
    /// The peer has ended its side and everything that it sent was read.
    Eof,
    /// Nothing yet.
    Pending,
}

/// What a read gives, as a value.
pub enum ReadView {
    Data { payload: Seq<u8>, window_update: Option<Seq<u8>> },
    Eof,
    Pending,
}

impl View for ReadPoll {
    type V = ReadView;

    open spec fn view(&self) -> ReadView {
        match self {
            ReadPoll::Data { payload, window_update } => ReadView::Data {
                payload: bytes_contents(*payload),
                window_update: match window_update {
                    Some(b) => Some(bytes_contents(*b)),
                    None => None,
                },
            },
            ReadPoll::Eof => ReadView::Eof,
            ReadPoll::Pending => ReadView::Pending,
        }
    }
}

/// The outcome of a read, as a value.
pub open spec fn read_outcome(r: Result<ReadPoll, Error>) -> Result<ReadView, Error> {
    match r {
        Ok(p) => Ok(p@),
        Err(e) => Err(e),
    }
}

/// The outcome of a write, as a value.
pub open spec fn bytes_outcome(r: Result<Bytes, Error>) -> Result<Seq<u8>, Error> {
    match r {
        Ok(b) => Ok(bytes_contents(b)),
        Err(e) => Err(e),
    }
}

impl PoolView {
    /// Whether a stream is closed on both sides.
    pub open spec fn closed(self, s: StreamView) -> bool {
        self.control(s.slot).state == StreamState::Closed
    }

    /// Whether a read may look at the queue of frames of a stream.
    pub open spec fn readable(self, s: StreamView) -> Result<(), Error> {
        if self.closed(s) {
            Err(Error::NotReadable)
        } else {
            Ok(())
        }
    }

    /// A read with room for `room` bytes.
    pub open spec fn read(self, s: StreamView, event: InboundView, room: nat) -> (
        Self,
        Result<ReadView, Error>,
    ) {
        let c = self.control(s.slot);
        if c.state == StreamState::Closed {
            (self, Err(Error::NotReadable))
        } else {
            match event {
                InboundView::Frame(f) => if f.payload.len() > room {
                    (self, Err(Error::NotEnoughSpace))
                } else {
                    (
                        self.with_control(s.slot, c.with_window(c.window.read(f.payload.len()))),
                        Ok(
                            ReadView::Data {
                                payload: f.payload,
                                window_update: match c.window.due(f.payload.len()) {
                                    Some(n) => Some(window_update_frame(s.id, n as u32).encoded()),
                                    None => None,
                                },
                            },
                        ),
                    )
                },
                InboundView::Empty => if c.state == StreamState::HalfClosedRemote {
                    (self, Ok(ReadView::Eof))
                } else {
                    (self, Ok(ReadView::Pending))
                },
                InboundView::Ended => if c.state == StreamState::HalfClosedRemote {
                    (self, Ok(ReadView::Eof))
                } else {
                    (self, Err(Error::ClosedByPeer))
                },
            }
        }
    }

    /// A write of `data`: the bytes to queue for the peer.
    pub open spec fn write(self, s: StreamView, data: Seq<u8>) -> (Self, Result<Seq<u8>, Error>) {
        let c = self.control(s.slot);
        if !c.state.can_write() {
            (self, Err(Error::NotWritable))
        } else {
            match c.window.spent(data.len()) {
                Err(e) => (self, Err(e)),
                Ok(w) => (
                    self.with_control(s.slot, c.with_window(w)),
                    Ok(data_frame(s.id, data).encoded()),
                ),
            }
        }
    }

    /// What the outcome of queueing `len` written bytes means: they are
    /// written, they have to be tried again, or the connection is gone.
    pub open spec fn write_done(self, s: StreamView, len: usize, outcome: SendOutcome) -> (
        Self,
        Result<Option<usize>, Error>,
    ) {
        let c = self.control(s.slot);
        match outcome {
            SendOutcome::Sent => (self, Ok(Some(len))),
            SendOutcome::Full => (
                self.with_control(s.slot, c.with_window(c.window.restored(len as nat))),
                Ok(None),
            ),
            SendOutcome::Closed => (self, Err(Error::ConnectionClosed)),
        }
    }

    /// A write of `data` that queues its bytes with that outcome.
    pub open spec fn write_through(self, s: StreamView, data: Seq<u8>, outcome: SendOutcome) -> (
        Self,
        Result<Option<usize>, Error>,
    ) {
        let (pool, r) = self.write(s, data);
        match r {
            Err(e) => (pool, Err(e)),
            Ok(_) => pool.write_done(s, data.len() as usize, outcome),
        }
    }

    /// What was offered to the queue for the peer once `data` was written: if
    /// the write is allowed its frame as well, with that outcome.
    pub open spec fn offered_by_write(
        self,
        s: StreamView,
        data: Seq<u8>,
        offers: Seq<Offer>,
        outcome: SendOutcome,
    ) -> Seq<Offer> {
        match self.write(s, data).1 {
            Err(_) => offers,
            Ok(bytes) => offered(offers, bytes, outcome),
        }
    }

    /// What the outcome of queueing the end frame means for a shutdown: it is
    /// done, it has to be tried again, or the connection is gone.
    pub open spec fn shutdown(self, s: StreamView, outcome: SendOutcome) -> (
        Self,
        Result<bool, Error>,
    ) {
        let c = self.control(s.slot);
        match outcome {
            SendOutcome::Sent => (
                self.with_control(s.slot, c.with_state(c.state.local_ended())),
                Ok(true),
            ),
            SendOutcome::Full => (self, Ok(false)),
            SendOutcome::Closed => (self, Err(Error::ConnectionClosed)),
        }
    }

    /// What the outcome of sending the end frame means for a close.
    pub open spec fn close(self, s: StreamView, sent: bool) -> (Self, Result<(), Error>) {
        if sent {
            (
                self.with_control(
                    s.slot,
                    self.control(s.slot).with_state(StreamState::Closed),
                ),
                Ok(()),
            )
        } else {
            (self, Err(Error::CloseNotSent))
        }
    }
}

impl Stream {
    /// Whether the stream is closed on both sides.
    pub fn is_closed(&self, pool: &StreamPool) -> (r: bool)
        requires
            pool@.owns(self@),
        ensures
            r == pool@.closed(self@),
    {
        matches!(pool.control(self.slot()).get_state(), StreamState::Closed)
    }

    /// The bytes of the frame that ends this side of the stream.
    pub fn end_bytes(&self) -> (r: Bytes)
        ensures
            bytes_contents(r) == end_frame(self@.id).encoded(),
    {
        let frame = Frame::new(FrameType::Data, FLAG_END_STREAM, self.id(), Bytes::new());
        assert(frame@ =~= end_frame(self@.id));
        frame.encode()
    }

    /// Closes the stream. Called once the end frame was sent, or could not be.
    pub fn close(&self, pool: &mut StreamPool, sent: bool) -> (r: Result<(), Error>)
        requires
            old(pool)@.wf(),
            old(pool)@.owns(self@),
        ensures
            (final(pool)@, r) == old(pool)@.close(self@, sent),
            final(pool)@.wf(),
    {
        if !sent {
            return Err(Error::CloseNotSent);
        }
        pool.control_mut(self.slot()).set_state(StreamState::Closed);
        Ok(())
    }

    /// Whether a read may look at the queue of frames.
    pub fn check_readable(&self, pool: &StreamPool) -> (r: Result<(), Error>)
        requires
            pool@.owns(self@),
        ensures
            r == pool@.readable(self@),
    {
        match pool.control(self.slot()).get_state() {
            StreamState::Closed => Err(Error::NotReadable),
            _ => Ok(()),
        }
    }

    /// Reads into room for `room` bytes what the queue of frames had to give.
    /// A frame that does not fit is lost.
    pub fn poll_read(&self, pool: &mut StreamPool, event: Inbound, room: usize) -> (r: Result<
        ReadPoll,
        Error,
    >)
        requires
            old(pool)@.wf(),
            old(pool)@.owns(self@),
        ensures
            (final(pool)@, read_outcome(r)) == old(pool)@.read(self@, event@, room as nat),
            final(pool)@.wf(),
    {
        let control = pool.control_mut(self.slot());
        let state = control.get_state();
        match state {
            StreamState::Closed => {
                return Err(Error::NotReadable);
            },
            _ => {},
        }
        match event {
            Inbound::Frame(frame) => {
                let len: usize = frame.payload.len();
                if room < len {
                    return Err(Error::NotEnoughSpace);
                }
                let window_update = match control.window.should_update_recv_window(len) {
                    Some(increment) => Some(
                        Frame::window_update(self.id(), increment as u32).encode(),
                    ),
                    None => None,
                };
                Ok(ReadPoll::Data { payload: frame.payload, window_update })
            },
            Inbound::Empty => match state {
                StreamState::HalfClosedRemote => Ok(ReadPoll::Eof),
                _ => Ok(ReadPoll::Pending),
            },
            Inbound::Ended => match state {
                StreamState::HalfClosedRemote => Ok(ReadPoll::Eof),
                _ => Err(Error::ClosedByPeer),
            },
        }
    }

    /// Writes bytes: queues them for the peer, as far as the send window
    /// allows. `None` means that the queue has no room and that they have to
    /// be written again.
    pub fn poll_write(&self, pool: &mut StreamPool, outbound: &mut Outbound, buf: &[u8]) -> (r:
        Result<Option<usize>, Error>)
        requires
            old(pool)@.wf(),
            old(pool)@.owns(self@),
        ensures
            exists|outcome: SendOutcome|
                {
                    &&& (final(pool)@, r) == #[trigger] old(pool)@.write_through(
                        self@,
                        buf@,
                        outcome,
                    )
                    &&& final(outbound)@ == old(pool)@.offered_by_write(
                        self@,
                        buf@,
                        old(outbound)@,
                        outcome,
                    )
                },
            final(pool)@.wf(),
    {
        match self.write_bytes(pool, buf) {
            Ok(data) => {
                let outcome = outbound.try_send(data);
                let r = self.write_sent(pool, buf.len(), outcome);
                assert((pool@, r) == old(pool)@.write_through(self@, buf@, outcome));
                r
            },
            Err(e) => {
                assert((pool@, Err::<Option<usize>, Error>(e)) == old(pool)@.write_through(
                    self@,
                    buf@,
                    SendOutcome::Closed,
                ));
                Err(e)
            },
        }
    }

    /// The bytes to queue for the peer for a write, which then count against
    /// the send window. What became of them is told to
    /// [`Stream::write_sent`].
    pub fn write_bytes(&self, pool: &mut StreamPool, buf: &[u8]) -> (r: Result<Bytes, Error>)
        requires
            old(pool)@.wf(),
            old(pool)@.owns(self@),
        ensures
            (final(pool)@, bytes_outcome(r)) == old(pool)@.write(self@, buf@),
            final(pool)@.wf(),
    {
        let control = pool.control_mut(self.slot());
        match control.get_state() {
            StreamState::Closed | StreamState::HalfClosedLocal => {
                return Err(Error::NotWritable);
            },
            _ => {},
        }
        match control.window.consume_send_window(buf.len()) {
            Ok(()) => {},
            Err(e) => return Err(e),
        }
        let frame = Frame::with_data_payload(self.id(), Bytes::copy_from_slice(buf));
        Ok(frame.encode())
    }

    /// Tells what became of `len` bytes that were written. `None` means that
    /// they have to be written again; they no longer count against the send
    /// window then.
    pub fn write_sent(&self, pool: &mut StreamPool, len: usize, outcome: SendOutcome) -> (r: Result<
        Option<usize>,
        Error,
    >)
        requires
            old(pool)@.wf(),
            old(pool)@.owns(self@),
            outcome == SendOutcome::Full ==> old(pool)@.control(self@.slot).window.send + len
                <= old(pool)@.control(self@.slot).window.max,
        ensures
            (final(pool)@, r) == old(pool)@.write_done(self@, len, outcome),
            final(pool)@.wf(),
    {
        match outcome {
            SendOutcome::Sent => Ok(Some(len)),
            SendOutcome::Full => {
                pool.control_mut(self.slot()).window.restore_send_window(len);
                Ok(None)
            },
            SendOutcome::Closed => Err(Error::ConnectionClosed),
        }
    }

    /// Ends this side of the stream: queues the end frame for the peer.
    /// `false` means that the queue has no room and that it has to be tried
    /// again.
    pub fn poll_shutdown(&self, pool: &mut StreamPool, outbound: &mut Outbound) -> (r: Result<
        bool,
        Error,
    >)
        requires
            old(pool)@.wf(),
            old(pool)@.owns(self@),
        ensures
            exists|outcome: SendOutcome|
                {
                    &&& (final(pool)@, r) == #[trigger] old(pool)@.shutdown(self@, outcome)
                    &&& final(outbound)@ == offered(
                        old(outbound)@,
                        end_frame(self@.id).encoded(),
                        outcome,
                    )
                },
            final(pool)@.wf(),
    {
        let outcome = outbound.try_send(self.end_bytes());
        self.shutdown_sent(pool, outcome)
    }

    /// Tells what became of the end frame of a shutdown. `false` means that it
    /// has to be sent again.
    pub fn shutdown_sent(&self, pool: &mut StreamPool, outcome: SendOutcome) -> (r: Result<
        bool,
        Error,
    >)
        requires
            old(pool)@.wf(),
            old(pool)@.owns(self@),
        ensures
            (final(pool)@, r) == old(pool)@.shutdown(self@, outcome),
            final(pool)@.wf(),
    {
        match outcome {
            SendOutcome::Sent => {
                pool.control_mut(self.slot()).local_end();
                Ok(true)
            },
            SendOutcome::Full => Ok(false),
            SendOutcome::Closed => Err(Error::ConnectionClosed),
        }
    }
}

} // verus!
