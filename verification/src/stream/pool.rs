//! The streams of one connection, by id.
//!
//! Every stream that was ever created keeps a slot. The table says which slot
//! an id leads to; creating a stream under an id that is taken leads the id to
//! a new slot, and the handle of the old stream keeps its own.

use super::{ControlView, Stream, StreamControl, StreamId, StreamView};
use crate::error::Error;
use crate::frame::{Frame, FrameView};
use std::collections::HashMap;
use vstd::prelude::*;

verus! {

broadcast use vstd::std_specs::hash::group_hash_axioms;

/// The largest id that is handed out.
pub const MAX_STREAM_ID: StreamId = 0x7fff_ffff;

/// The streams of one connection.
pub struct StreamPool {
    streams: HashMap<StreamId, usize>,
    controls: Vec<StreamControl>,
    next_stream_id: StreamId,
}

/// The streams of one connection, as a value.
#[verifier::ext_equal]
pub struct PoolView {
    pub table: Map<StreamId, usize>,
    pub controls: Seq<ControlView>,
    pub next_id: StreamId,
}

/// A frame on its way to the reader of a stream.
#[derive(Debug)]
pub struct Delivery {
    pub slot: usize,
    pub end_stream: bool,
    pub frame: Frame,
}

/// A frame on its way to the reader of a stream, as a value.
pub struct DeliveryView {
    pub slot: usize,
    pub end_stream: bool,
    pub frame: FrameView,
}

impl View for Delivery {
    type V = DeliveryView;

    open spec fn view(&self) -> DeliveryView {
        DeliveryView { slot: self.slot, end_stream: self.end_stream, frame: self.frame@ }
    }
}

/// The outcome of taking in a frame, as a value.
pub open spec fn delivery_outcome(r: Result<Option<Delivery>, Error>) -> Result<
    Option<DeliveryView>,
    Error,
> {
    match r {
        Ok(Some(d)) => Ok(Some(d@)),
        Ok(None) => Ok(None),
        Err(e) => Err(e),
    }
}

impl View for StreamPool {
    type V = PoolView;

    closed spec fn view(&self) -> PoolView {
        PoolView {
            table: self.streams@,
            controls: self.controls@.map_values(|c: StreamControl| c@),
            next_id: self.next_stream_id,
        }
    }
}

impl PoolView {
    /// No streams yet.
    pub open spec fn initial(init_stream_id: StreamId) -> Self {
        PoolView { table: Map::empty(), controls: Seq::empty(), next_id: init_stream_id }
    }

    /// Slots can be counted, every id leads to one of its own, and every
    /// stream's windows are in bounds.
    pub open spec fn wf(self) -> bool {
        &&& self.controls.len() <= usize::MAX
        &&& forall|id: StreamId| #[trigger]
            self.table.contains_key(id) ==> self.table[id] < self.controls.len()
        &&& forall|a: StreamId, b: StreamId|
            self.table.contains_key(a) && self.table.contains_key(b) && a != b
                ==> #[trigger] self.table[a] != #[trigger] self.table[b]
        &&& forall|slot: int|
            0 <= slot < self.controls.len() ==> (#[trigger] self.controls[slot]).window.wf()
    }

    /// Whether an id leads to a stream.
    pub open spec fn has(self, id: StreamId) -> bool {
        self.table.contains_key(id)
    }

    /// Whether the pool has the slot that the handle names. That is so of
    /// every handle that this pool gave out, but a handle of another pool can
    /// name such a slot too.
    pub open spec fn owns(self, stream: StreamView) -> bool {
        stream.slot < self.controls.len()
    }

    /// The stream in a slot.
    pub open spec fn control(self, slot: usize) -> ControlView {
        self.controls[slot as int]
    }

    /// The pool with another stream in a slot.
    pub open spec fn with_control(self, slot: usize, control: ControlView) -> Self {
        PoolView { controls: self.controls.update(slot as int, control), ..self }
    }

    /// The pool with a new stream under an id.
    pub open spec fn created(self, id: StreamId) -> Self {
        PoolView {
            table: self.table.insert(id, self.controls.len() as usize),
            controls: self.controls.push(ControlView::initial()),
            ..self
        }
    }

    /// The pool without an id.
    pub open spec fn removed(self, id: StreamId) -> Self {
        PoolView { table: self.table.remove(id), ..self }
    }

    /// The handle of the stream that is created next.
    pub open spec fn next_handle(self, id: StreamId) -> StreamView {
        StreamView { id, slot: self.controls.len() as usize }
    }

    /// The pool once an id was taken.
    pub open spec fn id_taken(self) -> Self {
        PoolView { next_id: self.next_id.wrapping_add(2), ..self }
    }

    /// The id that is handed out next.
    pub open spec fn id_offer(self) -> Option<StreamId> {
        if self.next_id > MAX_STREAM_ID {
            None
        } else {
            Some(self.next_id)
        }
    }

    /// The slot that an id leads to, if it leads to one.
    pub open spec fn found(self, id: StreamId) -> Option<usize> {
        if self.has(id) {
            Some(self.table[id])
        } else {
            None
        }
    }

    /// What becomes of the stream in a slot whose frame was handed to its
    /// reader, or could not be.
    pub open spec fn delivered(self, slot: usize, end_stream: bool, accepted: bool) -> (
        Self,
        Result<(), Error>,
    ) {
        if !accepted {
            (self, Err(Error::StreamClosed))
        } else if end_stream {
            let c = self.control(slot);
            (self.with_control(slot, c.with_state(c.state.remote_ended())), Ok(()))
        } else {
            (self, Ok(()))
        }
    }

    /// What a frame of the peer does to the streams.
    pub open spec fn receive(self, f: FrameView) -> (Self, Result<Option<DeliveryView>, Error>) {
        if !self.has(f.stream_id) {
            (self, Err(Error::StreamNotFound))
        } else {
            let slot = self.table[f.stream_id];
            let (control, outcome) = self.control(slot).receive(f);
            (
                self.with_control(slot, control),
                match outcome {
                    Err(e) => Err(e),
                    Ok(false) => Ok(None),
                    Ok(true) => Ok(
                        Some(DeliveryView { slot, end_stream: f.end_stream(), frame: f }),
                    ),
                },
            )
        }
    }
}

impl StreamPool {
    /// No streams yet. Ids are handed out from `init_stream_id` on, every
    /// second one.
    pub fn new(init_stream_id: StreamId) -> (r: Self)
        ensures
            r@ == PoolView::initial(init_stream_id),
            r@.wf(),
    {
        let r = StreamPool {
            streams: HashMap::new(),
            controls: Vec::new(),
            next_stream_id: init_stream_id,
        };
        assert(r@ =~= PoolView::initial(init_stream_id));
        r
    }

    /// Takes the next id, if there is one left.
    pub fn next_stream_id(&mut self) -> (r: Option<StreamId>)
        ensures
            r == old(self)@.id_offer(),
            final(self)@ == old(self)@.id_taken(),
    {
        let id: StreamId = self.next_stream_id;
        self.next_stream_id = id.wrapping_add(2);
        if id > MAX_STREAM_ID {
            return None;
        }
        Some(id)
    }

    /// Creates a stream under an id. An older stream of that id is cut off
    /// from it.
    pub fn create_stream(&mut self, stream_id: StreamId) -> (r: Result<Stream, Error>)
        requires
            old(self)@.wf(),
        ensures
            final(self)@ == old(self)@.created(stream_id),
            final(self)@.wf(),
            r matches Ok(stream) && stream@ == old(self)@.next_handle(stream_id)
                && final(self)@.owns(stream@),
    {
        let slot: usize = self.controls.len();
        self.controls.push(StreamControl::new());
        self.streams.insert(stream_id, slot);
        assert(self@ =~= old(self)@.created(stream_id));
        assert(self.controls.len() == self@.controls.len());
        Ok(Stream::new(stream_id, slot))
    }

    /// Takes in a frame of the peer for one of the streams. A frame that
    /// comes back is to be handed to the reader of the stream; what became of
    /// that is told to [`StreamPool::delivered`].
    pub fn handle_frame(&mut self, frame: Frame) -> (r: Result<Option<Delivery>, Error>)
        requires
            old(self)@.wf(),
        ensures
            (final(self)@, delivery_outcome(r)) == old(self)@.receive(frame@),
            final(self)@.wf(),
    {
        let slot: usize = match self.streams.get(&frame.stream_id) {
            Some(slot) => *slot,
            None => return Err(Error::StreamNotFound),
        };
        assert(old(self)@.has(frame.stream_id));
        let outcome = self.controls[slot].receive(&frame);
        assert(self@.controls =~= old(self)@.controls.update(
            slot as int,
            old(self)@.control(slot).receive(frame@).0,
        ));
        match outcome {
            Ok(true) => {
                let end_stream: bool = frame.is_end_stream();
                Ok(Some(Delivery { slot, end_stream, frame }))
            },
            Ok(false) => Ok(None),
            Err(e) => Err(e),
        }
    }

    /// Tells what became of a frame that was to be handed to a reader. With
    /// the last frame of the peer handed over, its side of the stream ends.
    pub fn delivered(&mut self, slot: usize, end_stream: bool, accepted: bool) -> (r: Result<
        (),
        Error,
    >)
        requires
            old(self)@.wf(),
            slot < old(self)@.controls.len(),
        ensures
            (final(self)@, r) == old(self)@.delivered(slot, end_stream, accepted),
            final(self)@.wf(),
    {
        if !accepted {
            return Err(Error::StreamClosed);
        }
        if end_stream {
            self.controls[slot].remote_end();
            assert(self@ =~= old(self)@.delivered(slot, end_stream, accepted).0);
        }
        Ok(())
    }

    /// Forgets an id. Gives the slot that it led to.
    pub fn remove(&mut self, stream_id: StreamId) -> (r: Option<usize>)
        requires
            old(self)@.wf(),
        ensures
            r == old(self)@.found(stream_id),
            final(self)@ == old(self)@.removed(stream_id),
            final(self)@.wf(),
    {
        self.streams.remove(&stream_id)
    }

    /// The slot that an id leads to.
    pub fn get(&self, stream_id: StreamId) -> (r: Option<usize>)
        ensures
            r == self@.found(stream_id),
    {
        match self.streams.get(&stream_id) {
            Some(slot) => Some(*slot),
            None => None,
        }
    }

    /// Forgets an id.
    pub fn remove_stream(&mut self, stream_id: StreamId)
        requires
            old(self)@.wf(),
        ensures
            final(self)@ == old(self)@.removed(stream_id),
            final(self)@.wf(),
    {
        let _ = self.remove(stream_id);
    }

    /// The stream that an id leads to.
    pub fn get_control(&self, stream_id: StreamId) -> (r: Option<&StreamControl>)
        requires
            self@.wf(),
        ensures
            r is Some <==> self@.has(stream_id),
            r matches Some(c) ==> c@ == self@.control(self@.table[stream_id]),
    {
        match self.get(stream_id) {
            Some(slot) => Some(self.control(slot)),
            None => None,
        }
    }

    /// The stream in a slot.
    pub fn control(&self, slot: usize) -> (r: &StreamControl)
        requires
            slot < self@.controls.len(),
        ensures
            r@ == self@.control(slot),
    {
        &self.controls[slot]
    }

    /// The stream in a slot, to be changed.
    pub(crate) fn control_mut(&mut self, slot: usize) -> (r: &mut StreamControl)
        requires
            slot < old(self)@.controls.len(),
        ensures
            r@ == old(self)@.control(slot),
            final(self)@ == old(self)@.with_control(slot, final(r)@),
    {
        let r = &mut self.controls[slot];
        assert(after_borrow(self)@.controls =~= old(self)@.controls.update(slot as int, final(r)@));
        r
    }

    /// The number of slots.
    pub fn slots(&self) -> (r: usize)
        ensures
            r == self@.controls.len(),
    {
        self.controls.len()
    }
}

} // verus!
