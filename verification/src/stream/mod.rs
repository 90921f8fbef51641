//! The streams of a connection.
//!
//! A stream's state and windows live in the [`pool::StreamPool`] of its
//! connection; a [`Stream`] is the handle by which its user reads and writes.
//! Nothing here waits: an operation either queues its bytes at once or not at
//! all, or it returns the bytes to send and takes the outcome of sending them
//! in a second call.

pub mod io;
pub mod pool;
pub mod window;

use crate::error::Error;
use crate::frame::{Frame, FrameType, FrameView};
use vstd::prelude::*;
use window::{WindowControl, WindowView};

verus! {

/// The number that a stream goes by on its connection.
pub type StreamId = u32;

/// Which sides of a stream are still open.
#[derive(Debug, Clone, Copy, PartialEq, Eq, Structural)]
pub enum StreamState {
    Open,
    HalfClosedLocal,
    HalfClosedRemote,
    Closed,
}

impl StreamState {
    /// Whether the peer may still send.
    pub open spec fn takes_data(self) -> bool {
        self == StreamState::Open || self == StreamState::HalfClosedLocal
    }

    /// Whether this side may still send.
    pub open spec fn can_write(self) -> bool {
        self == StreamState::Open || self == StreamState::HalfClosedRemote
    }

    /// The state once the peer has ended its side.
    pub open spec fn remote_ended(self) -> StreamState {
        match self {
            StreamState::Open => StreamState::HalfClosedRemote,
            StreamState::HalfClosedLocal => StreamState::Closed,
            _ => self,
        }
    }

    /// The state once this side has ended.
    pub open spec fn local_ended(self) -> StreamState {
        match self {
            StreamState::Open => StreamState::HalfClosedLocal,
            StreamState::HalfClosedRemote => StreamState::Closed,
            _ => self,
        }
    }
}

/// The state and the windows of one stream.
pub struct StreamControl {
    pub state: StreamState,
    pub window: WindowControl,
}

/// The state and the windows of one stream, as a value.
pub struct ControlView {
    pub state: StreamState,
    pub window: WindowView,
}

impl View for StreamControl {
    type V = ControlView;

    open spec fn view(&self) -> ControlView {
        ControlView { state: self.state, window: self.window@ }
    }
}

impl ControlView {
    /// A new stream.
    pub open spec fn initial() -> Self {
        ControlView { state: StreamState::Open, window: WindowView::initial() }
    }

    /// The same stream in another state.
    pub open spec fn with_state(self, state: StreamState) -> Self {
        ControlView { state, ..self }
    }

    /// The same stream with other windows.
    pub open spec fn with_window(self, window: WindowView) -> Self {
        ControlView { window, ..self }
    }

    /// What a frame of the peer does to the stream, and what becomes of the
    /// frame: `true` is for the reader.
    pub open spec fn receive(self, f: FrameView) -> (Self, Result<bool, Error>) {
        match f.frame_type {
            FrameType::Data => if !self.state.takes_data() {
                (self, Err(Error::DataNotReadable))
            } else {
                match self.window.arrived(f.payload.len()) {
                    Err(e) => (self, Err(e)),
                    Ok(w) => (self.with_window(w), Ok(true)),
                }
            },
            FrameType::WindowUpdate => match f.increment() {
                Err(e) => (self, Err(e)),
                Ok(n) => match self.window.granted(n as nat) {
                    Err(e) => (self, Err(e)),
                    Ok(w) => (self.with_window(w), Ok(false)),
                },
            },
            FrameType::RstStream => (
                self.with_state(StreamState::Closed),
                Err(Error::StreamReset),
            ),
            _ => (self, Err(Error::UnexpectedFrameType)),
        }
    }
}

impl StreamControl {
    /// A new stream.
    pub fn new() -> (r: Self)
        ensures
            r@ == ControlView::initial(),
    {
        StreamControl { state: StreamState::Open, window: WindowControl::new() }
    }

    pub fn set_state(&mut self, new_state: StreamState)
        ensures
            final(self)@ == old(self)@.with_state(new_state),
    {
        self.state = new_state;
    }

    pub fn get_state(&self) -> (r: StreamState)
        ensures
            r == self@.state,
    {
        self.state
    }

    /// Takes in a frame of the peer. `Ok(true)` means that the frame is for
    /// the reader of the stream.
    pub fn receive(&mut self, frame: &Frame) -> (r: Result<bool, Error>)
        ensures
            (final(self)@, r) == old(self)@.receive(frame@),
    {
        match frame.frame_type {
            FrameType::Data => {
                match self.get_state() {
                    StreamState::Closed | StreamState::HalfClosedRemote => {
                        return Err(Error::DataNotReadable);
                    },
                    _ => {},
                }
                match self.window.consume_recv_window(frame.payload.len()) {
                    Ok(()) => Ok(true),
                    Err(e) => Err(e),
                }
            },
            FrameType::WindowUpdate => {
                let increment: u32 = match frame.window_update_increment() {
                    Ok(increment) => increment,
                    Err(e) => return Err(e),
                };
                match self.window.update_send_window(increment as usize) {
                    Ok(()) => Ok(false),
                    Err(e) => Err(e),
                }
            },
            FrameType::RstStream => {
                self.set_state(StreamState::Closed);
                Err(Error::StreamReset)
            },
            _ => Err(Error::UnexpectedFrameType),
        }
    }

    /// Notes that the peer has ended its side.
    pub fn remote_end(&mut self)
        ensures
            final(self)@ == old(self)@.with_state(old(self)@.state.remote_ended()),
    {
        match self.get_state() {
            StreamState::Open => self.set_state(StreamState::HalfClosedRemote),
            StreamState::HalfClosedLocal => self.set_state(StreamState::Closed),
            _ => {},
        }
    }

    /// Notes that this side has ended.
    pub fn local_end(&mut self)
        ensures
            final(self)@ == old(self)@.with_state(old(self)@.state.local_ended()),
    {
        match self.get_state() {
            StreamState::Open => self.set_state(StreamState::HalfClosedLocal),
            StreamState::HalfClosedRemote => self.set_state(StreamState::Closed),
            _ => {},
        }
    }
}

/// The handle of a stream.
pub struct Stream {
    id: StreamId,
    slot: usize,
}

/// What a stream's handle says: its id, and where its pool keeps it.
pub struct StreamView {
    pub id: StreamId,
    pub slot: usize,
}

impl View for Stream {
    type V = StreamView;

    closed spec fn view(&self) -> StreamView {
        StreamView { id: self.id, slot: self.slot }
    }
}

impl Stream {
    pub(crate) fn new(id: StreamId, slot: usize) -> (r: Self)
        ensures
            r@ == (StreamView { id, slot }),
    {
        Stream { id, slot }
    }

    /// The number that the stream goes by.
    pub fn id(&self) -> (r: StreamId)
        ensures
            r == self@.id,
    {
        self.id
    }

    /// Where the pool keeps the stream.
    pub fn slot(&self) -> (r: usize)
        ensures
            r == self@.slot,
    {
        self.slot
    }
}

} // verus!
