//! One end of a multiplexed connection.
//!
//! A [`Connection`] decides what every frame of the peer means and what is to
//! be sent. It does no input or output of its own: where something has to be
//! sent or handed on, it says so in what it returns, and takes the outcome in
//! a second call. Bytes of the transport become frames in [`read_frame`].

use crate::buffer::{buffer_contents, bytes_contents};
use crate::error::Error;
use crate::frame::{
    decode_rest, decode_result, go_away_frame, ping_frame, pong_frame, Frame, FrameType, FrameView,
};
use crate::stream::io::bytes_outcome;
use crate::stream::pool::{delivery_outcome, Delivery, DeliveryView, PoolView, StreamPool};
use crate::stream::{Stream, StreamId, StreamView};
use bytes::{Bytes, BytesMut};
use vstd::prelude::*;

verus! {

/// The ping that waits for its answer, if there is one. `W` is whatever the
/// answer is to be given to.
pub struct PingTracker<W> {
    pub pending_ping: Option<W>,
}

/// One end of a multiplexed connection.
pub struct Connection<W> {
    pool: StreamPool,
    ping_tracker: PingTracker<W>,
}

/// One end of a multiplexed connection, as a value.
pub struct ConnectionView<W> {
    pub pool: PoolView,
    pub pending: Option<W>,
}

impl<W> View for Connection<W> {
    type V = ConnectionView<W>;

    closed spec fn view(&self) -> ConnectionView<W> {
        ConnectionView { pool: self.pool@, pending: self.ping_tracker.pending_ping }
    }
}

/// What is to be done about a frame of the peer.
pub enum Step<W> {
    /// Nothing more.
    Done,
    /// Send these bytes, an answer to a ping. The outcome goes to
    /// [`Connection::pong_sent`].
    Pong(Bytes),
    /// Tell the waiting ping that its answer came.
    PingAnswered(W),
    /// Hand the frame to the reader of the stream. The outcome goes to
    /// [`StreamPool::delivered`].
    Deliver(Delivery),
    /// The peer opened a stream: hand the stream to whoever accepts it. The
    /// outcome goes, with the frame, to [`Connection::accepted`].
    Accept { stream: Stream, frame: Frame },
}

/// What is to be done about a frame of the peer, as a value.
pub enum StepView<W> {
    Done,
    Pong(Seq<u8>),
    PingAnswered(W),
    Deliver(DeliveryView),
    Accept { stream: StreamView, frame: FrameView },
}

impl<W> View for Step<W> {
    type V = StepView<W>;

    open spec fn view(&self) -> StepView<W> {
        match self {
            Step::Done => StepView::Done,
            Step::Pong(b) => StepView::Pong(bytes_contents(*b)),
            Step::PingAnswered(w) => StepView::PingAnswered(*w),
            Step::Deliver(d) => StepView::Deliver(d@),
            Step::Accept { stream, frame } => StepView::Accept { stream: stream@, frame: frame@ },
        }
    }
}

/// The outcome of taking in a frame, as a value.
pub open spec fn step_outcome<W>(r: Result<Step<W>, Error>) -> Result<StepView<W>, Error> {
    match r {
        Ok(s) => Ok(s@),
        Err(e) => Err(e),
    }
}

/// What sending bytes comes to: nothing more to say, or that failure.
pub open spec fn sent_or(sent: bool, failure: Error) -> Result<(), Error> {
    if sent {
        Ok(())
    } else {
        Err(failure)
    }
}

/// How the wait for the answer to a ping ended.
pub enum PingAnswer<D> {
    /// The answer came, after this time.
    Answered(D),
    /// Nobody will answer any more.
    Abandoned,
    /// It took too long.
    TimedOut,
}

/// What the bytes that came so far give.
#[derive(Debug)]
pub enum ReadStep {
    /// A frame.
    Frame(Frame),
    /// Nothing before more bytes come.
    NeedMore,
    /// Nothing any more: the input ended between two frames.
    EndOfInput,
}

/// What the bytes that came so far give, as a value.
pub enum ReadStepView {
    Frame(FrameView),
    NeedMore,
    EndOfInput,
}

impl View for ReadStep {
    type V = ReadStepView;

    open spec fn view(&self) -> ReadStepView {
        match self {
            ReadStep::Frame(f) => ReadStepView::Frame(f@),
            ReadStep::NeedMore => ReadStepView::NeedMore,
            ReadStep::EndOfInput => ReadStepView::EndOfInput,
        }
    }
}

/// The outcome of looking for a frame, as a value.
pub open spec fn read_step_outcome(r: Result<ReadStep, Error>) -> Result<ReadStepView, Error> {
    match r {
        Ok(s) => Ok(s@),
        Err(e) => Err(e),
    }
}

/// Whether the last look at the transport found the end of the input.
pub open spec fn input_ended(received: Option<usize>) -> bool {
    received == Some(0usize)
}

/// What the bytes `b` give, after the transport last gave `received` bytes. The
/// end of the input counts only where no whole frame is left.
pub open spec fn read_step(b: Seq<u8>, received: Option<usize>) -> Result<ReadStepView, Error> {
    match decode_result(b) {
        Ok(Some(f)) => Ok(ReadStepView::Frame(f)),
        Err(e) => Err(e),
        Ok(None) => if !input_ended(received) {
            Ok(ReadStepView::NeedMore)
        } else if b.len() == 0 {
            Ok(ReadStepView::EndOfInput)
        } else {
            Err(Error::MidFrame)
        },
    }
}

/// Looks for a frame at the front of the bytes that came. `received` is how
/// many bytes the transport has just added to them: none were asked for yet,
/// or zero at the end of the input.
pub fn read_frame(buf: &mut BytesMut, received: Option<usize>) -> (r: Result<ReadStep, Error>)
    ensures
        read_step_outcome(r) == read_step(buffer_contents(*old(buf)), received),
        buffer_contents(*final(buf)) == decode_rest(buffer_contents(*old(buf))),
{
    match Frame::decode(buf) {
        Ok(Some(frame)) => Ok(ReadStep::Frame(frame)),
        Err(e) => Err(e),
        Ok(None) => match received {
            Some(0) => {
                if buf.is_empty() {
                    Ok(ReadStep::EndOfInput)
                } else {
                    Err(Error::MidFrame)
                }
            },
            _ => Ok(ReadStep::NeedMore),
        },
    }
}

/// `rand::random` for the payload of a ping: eight bytes, of which nothing
/// is promised.
#[verifier::external_body]
fn random_payload() -> (r: [u8; 8]) {
    rand::random::<[u8; 8]>()
}

impl<W> ConnectionView<W> {
    /// A new client end: one stream, the control stream, and ids from 1 on.
    pub open spec fn initial() -> Self {
        ConnectionView { pool: PoolView::initial(1).created(0), pending: None }
    }

    /// A new server end: one stream, the control stream, and ids from 2 on.
    pub open spec fn initial_server() -> Self {
        ConnectionView { pool: PoolView::initial(2).created(0), pending: None }
    }

    /// The streams are in order.
    pub open spec fn wf(self) -> bool {
        self.pool.wf()
    }

    /// The connection with other streams.
    pub open spec fn with_pool(self, pool: PoolView) -> Self {
        ConnectionView { pool, ..self }
    }

    /// Whether the answer to the frame can be formed: a ping carries at
    /// least eight bytes.
    pub open spec fn answerable(f: FrameView) -> bool {
        f.stream_id == 0 && f.frame_type == FrameType::Ping && !f.ack() ==> f.payload.len() >= 8
    }

    /// Opening a stream.
    pub open spec fn open(self) -> (Self, Result<StreamView, Error>) {
        let taken = self.with_pool(self.pool.id_taken());
        match self.pool.id_offer() {
            None => (taken, Err(Error::StreamIdExhausted)),
            Some(id) => (
                taken.with_pool(taken.pool.created(id)),
                Ok(taken.pool.next_handle(id)),
            ),
        }
    }

    /// Starting a ping with that payload.
    pub open spec fn ping(self, payload: Seq<u8>, waiter: W) -> (Self, Result<Seq<u8>, Error>) {
        if self.pending is Some {
            (self, Err(Error::PingInProgress))
        } else {
            (
                ConnectionView { pending: Some(waiter), ..self },
                if self.pool.has(0) {
                    Ok(ping_frame(payload).encoded())
                } else {
                    Err(Error::ControlStreamNotFound)
                },
            )
        }
    }

    /// The end of the wait for the answer to a ping.
    pub open spec fn ping_end<D>(self, answer: PingAnswer<D>) -> (Self, Result<D, Error>) {
        match answer {
            PingAnswer::Answered(time) => (self, Ok(time)),
            PingAnswer::Abandoned => (self, Err(Error::PingChannelClosed)),
            PingAnswer::TimedOut => (
                ConnectionView { pending: None, ..self },
                Err(Error::PingTimedOut),
            ),
        }
    }

    /// The bytes of the farewell, if there is a control stream.
    pub open spec fn farewell(self) -> Option<Seq<u8>> {
        if self.pool.has(0) {
            Some(go_away_frame(0, 0).encoded())
        } else {
            None
        }
    }

    /// The frame that opened a stream, once the stream was accepted or was not.
    pub open spec fn accept(self, f: FrameView, accepted: bool) -> (
        Self,
        Result<Option<DeliveryView>, Error>,
    ) {
        if accepted {
            let (pool, outcome) = self.pool.receive(f);
            (self.with_pool(pool), outcome)
        } else {
            (self, Err(Error::AcceptFailed))
        }
    }

    /// A frame for one of the streams.
    pub open spec fn stream_frame(self, f: FrameView) -> (Self, Result<StepView<W>, Error>) {
        let (pool, outcome) = self.pool.receive(f);
        (
            self.with_pool(pool),
            match outcome {
                Err(e) => Err(e),
                Ok(None) => Ok(StepView::Done),
                Ok(Some(d)) => Ok(StepView::Deliver(d)),
            },
        )
    }

    /// A frame for the connection.
    pub open spec fn connection_frame(self, f: FrameView) -> (Self, Result<StepView<W>, Error>) {
        match f.frame_type {
            FrameType::Ping => if f.ack() {
                match self.pending {
                    Some(w) => (
                        ConnectionView { pending: None, ..self },
                        Ok(StepView::PingAnswered(w)),
                    ),
                    None => (self, Ok(StepView::Done)),
                }
            } else if self.pool.has(0) {
                (self, Ok(StepView::Pong(pong_frame(f.payload.take(8)).encoded())))
            } else {
                (self, Ok(StepView::Done))
            },
            FrameType::GoAway => (self, Ok(StepView::Done)),
            FrameType::Settings => (self, Ok(StepView::Done)),
            _ => (self, Err(Error::UnexpectedConnectionFrameType)),
        }
    }

    /// A frame of the peer.
    pub open spec fn frame(self, f: FrameView) -> (Self, Result<StepView<W>, Error>) {
        if f.stream_id == 0 {
            self.connection_frame(f)
        } else {
            match f.frame_type {
                FrameType::Data => if self.pool.has(f.stream_id) {
                    self.stream_frame(f)
                } else {
                    (
                        self.with_pool(self.pool.created(f.stream_id)),
                        Ok(
                            StepView::Accept {
                                stream: self.pool.next_handle(f.stream_id),
                                frame: f,
                            },
                        ),
                    )
                },
                FrameType::WindowUpdate => if self.pool.has(f.stream_id) {
                    self.stream_frame(f)
                } else {
                    (self, Err(Error::StreamNotFound))
                },
                FrameType::RstStream => if self.pool.has(f.stream_id) {
                    self.stream_frame(f)
                } else {
                    (self, Ok(StepView::Done))
                },
                _ => (self, Err(Error::UnexpectedFrameType)),
            }
        }
    }
}

impl<W> Connection<W> {
    /// The client end of a new connection, with its control stream. It opens
    /// streams under odd ids.
    pub fn new() -> (r: Self)
        ensures
            r@ == ConnectionView::<W>::initial(),
            r@.wf(),
    {
        let mut pool = StreamPool::new(1);
        let _ = pool.create_stream(0);
        Connection { pool, ping_tracker: PingTracker { pending_ping: None } }
    }

    /// The server end of a new connection, with its control stream. It opens
    /// streams under even ids.
    pub fn server() -> (r: Self)
        ensures
            r@ == ConnectionView::<W>::initial_server(),
            r@.wf(),
    {
        let mut pool = StreamPool::new(2);
        let _ = pool.create_stream(0);
        Connection { pool, ping_tracker: PingTracker { pending_ping: None } }
    }

    /// The streams.
    pub fn pool(&self) -> (r: &StreamPool)
        ensures
            r@ == self@.pool,
    {
        &self.pool
    }

    /// The streams, to read, write and close them.
    pub fn pool_mut(&mut self) -> (r: &mut StreamPool)
        ensures
            r@ == old(self)@.pool,
            final(self)@ == old(self)@.with_pool(final(r)@),
    {
        &mut self.pool
    }

    /// Opens a stream under the next id.
    pub fn open_stream(&mut self) -> (r: Result<Stream, Error>)
        requires
            old(self)@.wf(),
        ensures
            final(self)@ == old(self)@.open().0,
            match old(self)@.open().1 {
                Ok(s) => r matches Ok(stream) && stream@ == s && final(self)@.pool.owns(stream@),
                Err(e) => r == Err::<Stream, Error>(e),
            },
            final(self)@.wf(),
    {
        match self.next_stream_id() {
            Some(stream_id) => self.pool.create_stream(stream_id),
            None => Err(Error::StreamIdExhausted),
        }
    }

    /// Takes the next id, if there is one left.
    pub fn next_stream_id(&mut self) -> (r: Option<StreamId>)
        ensures
            r == old(self)@.pool.id_offer(),
            final(self)@ == old(self)@.with_pool(old(self)@.pool.id_taken()),
    {
        self.pool.next_stream_id()
    }

    /// The bytes of the farewell, if there is a control stream to send it on.
    /// The outcome goes to [`Connection::close_sent`].
    pub fn close(&self) -> (r: Option<Bytes>)
        ensures
            r is Some <==> self@.farewell() is Some,
            r matches Some(b) ==> self@.farewell() == Some(bytes_contents(b)),
    {
        let frame = Frame::go_away(0, 0);
        match self.pool.get(0) {
            Some(_) => Some(frame.encode()),
            None => None,
        }
    }

    /// Tells whether the farewell was sent.
    pub fn close_sent(sent: bool) -> (r: Result<(), Error>)
        ensures
            r == sent_or(sent, Error::GoAwayNotSent),
    {
        if sent {
            Ok(())
        } else {
            Err(Error::GoAwayNotSent)
        }
    }

    /// Starts a ping with a random payload: gives the bytes to send. The
    /// outcome goes to [`Connection::ping_sent`].
    pub fn ping(&mut self, waiter: W) -> (r: Result<Bytes, Error>)
        ensures
            exists|payload: [u8; 8]|
                (final(self)@, bytes_outcome(r)) == #[trigger] old(self)@.ping(payload@, waiter),
    {
        let payload: [u8; 8] = random_payload();
        self.ping_with(payload, waiter)
    }

    /// Starts a ping with that payload: gives the bytes to send. While a ping
    /// waits for its answer no other one can start.
    pub fn ping_with(&mut self, payload: [u8; 8], waiter: W) -> (r: Result<Bytes, Error>)
        ensures
            (final(self)@, bytes_outcome(r)) == old(self)@.ping(payload@, waiter),
    {
        let frame = Frame::ping(payload);
        if self.ping_tracker.pending_ping.is_some() {
            return Err(Error::PingInProgress);
        }
        self.ping_tracker.pending_ping = Some(waiter);
        match self.pool.get(0) {
            Some(_) => Ok(frame.encode()),
            None => Err(Error::ControlStreamNotFound),
        }
    }

    /// Tells whether a ping was sent. One that was not keeps waiting.
    pub fn ping_sent(sent: bool) -> (r: Result<(), Error>)
        ensures
            r == sent_or(sent, Error::PingNotSent),
    {
        if sent {
            Ok(())
        } else {
            Err(Error::PingNotSent)
        }
    }

    /// Tells how the wait for the answer to a ping ended. Only a ping that
    /// took too long makes room for the next one here; an answer has made it
    /// when it came.
    pub fn ping_ended<D>(&mut self, answer: PingAnswer<D>) -> (r: Result<D, Error>)
        ensures
            (final(self)@, r) == old(self)@.ping_end(answer),
    {
        match answer {
            PingAnswer::Answered(time) => Ok(time),
            PingAnswer::Abandoned => Err(Error::PingChannelClosed),
            PingAnswer::TimedOut => {
                self.ping_tracker.pending_ping = None;
                Err(Error::PingTimedOut)
            },
        }
    }

    /// Takes in a frame of the peer.
    pub fn handle_frame(&mut self, frame: Frame) -> (r: Result<Step<W>, Error>)
        requires
            old(self)@.wf(),
            ConnectionView::<W>::answerable(frame@),
        ensures
            (final(self)@, step_outcome(r)) == old(self)@.frame(frame@),
            final(self)@.wf(),
    {
        if frame.is_connection_control() {
            return self.handle_connection_frame(frame);
        }
        match frame.frame_type {
            FrameType::Data | FrameType::WindowUpdate => match self.pool.get(frame.stream_id) {
                Some(_) => self.handle_stream_frame(frame),
                None => {
                    if frame.frame_type == FrameType::Data {
                        match self.pool.create_stream(frame.stream_id) {
                            Ok(stream) => Ok(Step::Accept { stream, frame }),
                            Err(e) => Err(e),
                        }
                    } else {
                        Err(Error::StreamNotFound)
                    }
                },
            },
            FrameType::RstStream => match self.pool.get(frame.stream_id) {
                Some(_) => self.handle_stream_frame(frame),
                None => Ok(Step::Done),
            },
            _ => Err(Error::UnexpectedFrameType),
        }
    }

    /// Takes in a frame of the peer for one of the streams.
    fn handle_stream_frame(&mut self, frame: Frame) -> (r: Result<Step<W>, Error>)
        requires
            old(self)@.wf(),
        ensures
            (final(self)@, step_outcome(r)) == old(self)@.stream_frame(frame@),
            final(self)@.wf(),
    {
        match self.pool.handle_frame(frame) {
            Ok(Some(delivery)) => Ok(Step::Deliver(delivery)),
            Ok(None) => Ok(Step::Done),
            Err(e) => Err(e),
        }
    }

    /// Takes in a frame of the peer for the connection as a whole.
    pub fn handle_connection_frame(&mut self, frame: Frame) -> (r: Result<Step<W>, Error>)
        requires
            frame@.frame_type == FrameType::Ping && !frame@.ack() ==> frame@.payload.len() >= 8,
        ensures
            (final(self)@, step_outcome(r)) == old(self)@.connection_frame(frame@),
    {
        match frame.frame_type {
            FrameType::Ping => {
                if frame.is_ack() {
                    match self.ping_tracker.pending_ping.take() {
                        Some(waiter) => Ok(Step::PingAnswered(waiter)),
                        None => Ok(Step::Done),
                    }
                } else {
                    let p: &[u8] = &frame.payload;
                    let payload: [u8; 8] = [p[0], p[1], p[2], p[3], p[4], p[5], p[6], p[7]];
                    assert(payload@ =~= frame@.payload.take(8));
                    let pong = Frame::ping_ack(payload);
                    match self.pool.get(0) {
                        Some(_) => Ok(Step::Pong(pong.encode())),
                        None => Ok(Step::Done),
                    }
                }
            },
            FrameType::GoAway => Ok(Step::Done),
            FrameType::Settings => Ok(Step::Done),
            _ => Err(Error::UnexpectedConnectionFrameType),
        }
    }

    /// Tells whether the answer to a ping was sent.
    pub fn pong_sent(sent: bool) -> (r: Result<(), Error>)
        ensures
            r == sent_or(sent, Error::PongNotSent),
    {
        if sent {
            Ok(())
        } else {
            Err(Error::PongNotSent)
        }
    }

    /// Tells whether a stream that the peer opened was accepted, and takes in
    /// the frame that opened it if so.
    pub fn accepted(&mut self, frame: Frame, accepted: bool) -> (r: Result<Option<Delivery>, Error>)
        requires
            old(self)@.wf(),
        ensures
            (final(self)@, delivery_outcome(r)) == old(self)@.accept(frame@, accepted),
            final(self)@.wf(),
    {
        if !accepted {
            return Err(Error::AcceptFailed);
        }
        self.pool.handle_frame(frame)
    }
}

} // verus!
