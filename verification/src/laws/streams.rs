//! What each operation on the streams of a connection comes to, told by the
//! states, the windows and the bytes themselves.

use crate::buffer::bytes_contents;
use crate::channel::{offered, Offer, SendOutcome};
use crate::error::Error;
use crate::frame::{
    data_frame, decode_result, end_frame, frame_of, law_decode_encoded, law_flag_bits,
    law_increment, window_update_frame, FrameType, FrameView,
};
use crate::stream::io::{bytes_outcome, read_outcome, Inbound, InboundView, ReadPoll, ReadView};
use crate::stream::pool::{delivery_outcome, Delivery, DeliveryView, PoolView};
use crate::stream::window::{law_granting, WindowView};
use crate::stream::{ControlView, StreamId, StreamState, StreamView};
use crate::wire::{be32, law_layout};
use bytes::Bytes;
use vstd::prelude::*;

verus! {

/// Whether two pools are the same but for the stream in one slot.
pub open spec fn same_but(p: PoolView, q: PoolView, slot: usize) -> bool {
    &&& q.table == p.table
    &&& q.next_id == p.next_id
    &&& q.controls.len() == p.controls.len()
    &&& forall|i: int| 0 <= i < p.controls.len() && i != slot ==> q.controls[i] == p.controls[i]
}

/// Whether a handle leads to a stream of the pool.
pub open spec fn valid(p: PoolView, s: StreamView) -> bool {
    p.wf() && s.slot < p.controls.len()
}

/// The stream that a handle leads to.
pub open spec fn stream(p: PoolView, s: StreamView) -> ControlView {
    p.controls[s.slot as int]
}

// ---------------------------------------------------------------------------
// The parts of a pool
// ---------------------------------------------------------------------------

/// Which sides each state leaves open, and what the end of a side makes of it.
pub proof fn law_states(state: StreamState)
    ensures
        state.takes_data() <==> state == StreamState::Open || state == StreamState::HalfClosedLocal,
        state.can_write() <==> state == StreamState::Open || state == StreamState::HalfClosedRemote,
        !state.remote_ended().takes_data(),
        state.remote_ended().can_write() == state.can_write(),
        !state.takes_data() ==> state.remote_ended() == state,
        !state.local_ended().can_write(),
        state.local_ended().takes_data() == state.takes_data(),
        !state.can_write() ==> state.local_ended() == state,
        StreamState::Open.remote_ended() == StreamState::HalfClosedRemote,
        StreamState::HalfClosedLocal.remote_ended() == StreamState::Closed,
        StreamState::Open.local_ended() == StreamState::HalfClosedLocal,
        StreamState::HalfClosedRemote.local_ended() == StreamState::Closed,
{
}

/// What a pool says of an id and of a handle, and what changing one stream
/// does to it.
pub proof fn law_pool_parts(
    p: PoolView,
    id: StreamId,
    s: StreamView,
    c: ControlView,
    state: StreamState,
    window: WindowView,
)
    ensures
        p.has(id) <==> p.table.contains_key(id),
        p.found(id) == (if p.table.contains_key(id) {
            Some(p.table[id])
        } else {
            None::<usize>
        }),
        p.owns(s) <==> s.slot < p.controls.len(),
        p.control(s.slot) == stream(p, s),
        p.owns(s) ==> same_but(p, p.with_control(s.slot, c), s.slot),
        p.owns(s) ==> stream(p.with_control(s.slot, c), s) == c,
        c.with_state(state).state == state,
        c.with_state(state).window == c.window,
        c.with_window(window).window == window,
        c.with_window(window).state == c.state,
        p.closed(s) <==> stream(p, s).state == StreamState::Closed,
        p.readable(s) is Ok <==> stream(p, s).state != StreamState::Closed,
        p.readable(s) matches Err(e) ==> e == Error::NotReadable,
{
}

/// A stream that is created is the only change: it is new and open, its windows
/// are full, its id leads to it, and it is in a slot of its own. Other ids and
/// other streams stay.
pub proof fn law_creating(p: PoolView, id: StreamId, other: StreamId)
    requires
        p.wf(),
        p.controls.len() < usize::MAX,
    ensures
        ({
            let q = p.created(id);
            let h = p.next_handle(id);
            &&& h.id == id
            &&& h.slot == p.controls.len()
            &&& q.wf()
            &&& q.controls.len() == p.controls.len() + 1
            &&& q.controls.take(p.controls.len() as int) == p.controls
            &&& q.next_id == p.next_id
            &&& q.table.contains_key(id) && q.table[id] == h.slot
            &&& stream(q, h).state == StreamState::Open
            &&& stream(q, h).window.send == 65_535
            &&& stream(q, h).window.recv == 65_535
            &&& stream(q, h).window.max == 1_073_741_823
            &&& other != id ==> (q.table.contains_key(other) <==> p.table.contains_key(other))
            &&& other != id && p.table.contains_key(other) ==> q.table[other] == p.table[other]
        }),
{
    assert(p.created(id).controls.take(p.controls.len() as int) =~= p.controls);
}

/// Forgetting an id forgets that id and changes nothing else.
pub proof fn law_removing(p: PoolView, id: StreamId, other: StreamId)
    ensures
        ({
            let q = p.removed(id);
            &&& !q.table.contains_key(id)
            &&& other != id ==> (q.table.contains_key(other) <==> p.table.contains_key(other))
            &&& other != id && p.table.contains_key(other) ==> q.table[other] == p.table[other]
            &&& q.controls == p.controls
            &&& q.next_id == p.next_id
        }),
{
}

/// A new pool has no streams. The next id is offered as long as it is at most
/// 2^31 - 1; taking it moves on by two, around the end of the numbers, and
/// changes nothing else.
pub proof fn law_taking_ids(p: PoolView, start: StreamId)
    ensures
        PoolView::initial(start).table == Map::<StreamId, usize>::empty(),
        PoolView::initial(start).controls.len() == 0,
        PoolView::initial(start).next_id == start,
        p.id_offer() is Some <==> p.next_id <= 0x7fff_ffff,
        p.id_offer() matches Some(id) ==> id == p.next_id,
        p.next_id + 2 <= u32::MAX ==> p.id_taken().next_id == p.next_id + 2,
        p.next_id + 2 > u32::MAX ==> p.id_taken().next_id == p.next_id + 2 - 0x1_0000_0000,
        p.id_taken().table == p.table,
        p.id_taken().controls == p.controls,
{
}

// ---------------------------------------------------------------------------
// Frames of the peer
// ---------------------------------------------------------------------------

/// Data is taken exactly if its stream is known, the peer has not ended its
/// side, and the receive window has room. The frame then goes to the reader of
/// that stream as it is, and counts against that window and nothing else. Each
/// refusal says which of these failed, and changes nothing.
pub proof fn law_data_comes_in(p: PoolView, f: FrameView)
    requires
        p.wf(),
        f.frame_type == FrameType::Data,
    ensures
        ({
            let (q, r) = p.receive(f);
            let h = StreamView { id: f.stream_id, slot: p.table[f.stream_id] };
            let known = p.table.contains_key(f.stream_id);
            let open = stream(p, h).state == StreamState::Open || stream(p, h).state
                == StreamState::HalfClosedLocal;
            let room = f.payload.len() <= stream(p, h).window.recv;
            &&& r is Ok <==> known && open && room
            &&& r == Err::<Option<DeliveryView>, Error>(Error::StreamNotFound) <==> !known
            &&& r == Err::<Option<DeliveryView>, Error>(Error::DataNotReadable) <==> known && !open
            &&& r == Err::<Option<DeliveryView>, Error>(Error::WindowInsufficient) <==> known
                && open && !room
            &&& r is Err ==> q == p
            &&& r is Ok ==> {
                &&& r matches Ok(Some(d)) && d.slot == h.slot && d.frame == f && (d.end_stream
                    <==> f.flags & 0x1 == 0x1)
                &&& same_but(p, q, h.slot)
                &&& stream(q, h).state == stream(p, h).state
                &&& stream(q, h).window.recv + f.payload.len() == stream(p, h).window.recv
                &&& stream(q, h).window.send == stream(p, h).window.send
                &&& stream(q, h).window.max == stream(p, h).window.max
            }
        }),
{
    law_flag_bits(f);
    if p.has(f.stream_id) {
        let slot = p.table[f.stream_id];
        assert(p.with_control(slot, p.control(slot)) =~= p);
    }
}

/// A window update is taken exactly if its stream is known, it grants
/// something, and the send window stays within 2^30 - 1. It then adds what it
/// grants to that window, whatever was left of it and whatever state the stream
/// is in, and changes nothing else. Otherwise nothing changes.
pub proof fn law_window_update_comes_in(p: PoolView, f: FrameView)
    requires
        p.wf(),
        f.frame_type == FrameType::WindowUpdate,
    ensures
        ({
            let (q, r) = p.receive(f);
            let h = StreamView { id: f.stream_id, slot: p.table[f.stream_id] };
            let known = p.table.contains_key(f.stream_id);
            &&& !known ==> r == Err::<Option<DeliveryView>, Error>(Error::StreamNotFound)
            &&& known ==> (f.increment() matches Err(e) ==> r == Err::<
                Option<DeliveryView>,
                Error,
            >(e))
            &&& known ==> (f.increment() matches Ok(n) ==> if stream(p, h).window.send + n
                <= 1_073_741_823 {
                &&& r == Ok::<Option<DeliveryView>, Error>(None)
                &&& same_but(p, q, h.slot)
                &&& stream(q, h).state == stream(p, h).state
                &&& stream(q, h).window.send == stream(p, h).window.send + n
                &&& stream(q, h).window.recv == stream(p, h).window.recv
                &&& stream(q, h).window.max == stream(p, h).window.max
            } else {
                r == Err::<Option<DeliveryView>, Error>(
                    if stream(p, h).window.send + n > usize::MAX {
                        Error::WindowOverflow
                    } else {
                        Error::WindowExceeded
                    },
                )
            })
            &&& r is Err ==> q == p
        }),
{
    if p.has(f.stream_id) {
        let slot = p.table[f.stream_id];
        assert(p.with_control(slot, p.control(slot)) =~= p);
        if let Ok(n) = f.increment() {
            law_granting(p.control(slot).window, n as nat);
        }
    }
}

/// A reset of a known stream closes it from every state, whatever it carries,
/// and is reported; its windows and everything else stay.
pub proof fn law_reset_comes_in(p: PoolView, f: FrameView)
    requires
        p.wf(),
        f.frame_type == FrameType::RstStream,
    ensures
        ({
            let (q, r) = p.receive(f);
            let h = StreamView { id: f.stream_id, slot: p.table[f.stream_id] };
            if p.table.contains_key(f.stream_id) {
                &&& r == Err::<Option<DeliveryView>, Error>(Error::StreamReset)
                &&& same_but(p, q, h.slot)
                &&& stream(q, h).state == StreamState::Closed
                &&& stream(q, h).window == stream(p, h).window
            } else {
                r == Err::<Option<DeliveryView>, Error>(Error::StreamNotFound) && q == p
            }
        }),
{
}

/// No other frame means anything to a stream.
pub proof fn law_other_frames_are_refused(p: PoolView, f: FrameView)
    requires
        p.wf(),
        f.frame_type == FrameType::Ping || f.frame_type == FrameType::GoAway || f.frame_type
            == FrameType::Settings,
    ensures
        p.receive(f).0 == p,
        p.receive(f).1 == Err::<Option<DeliveryView>, Error>(
            if p.table.contains_key(f.stream_id) {
                Error::UnexpectedFrameType
            } else {
                Error::StreamNotFound
            },
        ),
{
    if p.has(f.stream_id) {
        let slot = p.table[f.stream_id];
        assert(p.with_control(slot, p.control(slot)) =~= p);
    }
}

/// Handing a frame over succeeds exactly if the reader takes it. The last frame
/// of the peer then ends the peer's side and leaves the own side as it is; any
/// other frame, and any that the reader does not take, changes nothing.
pub proof fn law_handing_over(p: PoolView, s: StreamView, end_stream: bool, accepted: bool)
    requires
        valid(p, s),
    ensures
        ({
            let (q, r) = p.delivered(s.slot, end_stream, accepted);
            let before = stream(p, s).state;
            let after = stream(q, s).state;
            &&& r is Ok <==> accepted
            &&& r matches Err(e) ==> e == Error::StreamClosed
            &&& !(accepted && end_stream) ==> q == p
            &&& same_but(p, q, s.slot)
            &&& stream(q, s).window == stream(p, s).window
            &&& accepted && end_stream ==> {
                &&& before == StreamState::Open ==> after == StreamState::HalfClosedRemote
                &&& before == StreamState::HalfClosedRemote ==> after
                    == StreamState::HalfClosedRemote
                &&& before == StreamState::HalfClosedLocal ==> after == StreamState::Closed
                &&& before == StreamState::Closed ==> after == StreamState::Closed
            }
        }),
{
}

// ---------------------------------------------------------------------------
// Reading
// ---------------------------------------------------------------------------

/// As long as the peer has not ended its side, a read of an empty queue waits,
/// though this side may have been shut down, and a queue that is gone is an
/// error. Nothing changes.
pub proof fn law_read_waits_for_the_peer(p: PoolView, s: StreamView, room: nat)
    requires
        valid(p, s),
        stream(p, s).state == StreamState::Open || stream(p, s).state
            == StreamState::HalfClosedLocal,
    ensures
        p.read(s, InboundView::Empty, room) == (p, Ok::<ReadView, Error>(ReadView::Pending)),
        p.read(s, InboundView::Ended, room) == (p, Err::<ReadView, Error>(Error::ClosedByPeer)),
{
}

/// A read gives the end of the stream exactly if the peer has ended its side,
/// this side has not, and no frame is left. It waits exactly if the peer has
/// not ended and the queue is empty. Neither changes anything.
pub proof fn law_end_of_stream_is_the_peers(
    p: PoolView,
    s: StreamView,
    event: InboundView,
    room: nat,
)
    requires
        valid(p, s),
    ensures
        ({
            let (q, r) = p.read(s, event, room);
            let state = stream(p, s).state;
            &&& r == Ok::<ReadView, Error>(ReadView::Eof) <==> state
                == StreamState::HalfClosedRemote && !(event is Frame)
            &&& r == Ok::<ReadView, Error>(ReadView::Pending) <==> (state == StreamState::Open
                || state == StreamState::HalfClosedLocal) && event is Empty
            &&& r matches Ok(ReadView::Data { .. }) ==> event is Frame
            &&& !(r matches Ok(ReadView::Data { .. })) ==> q == p
        }),
{
}

/// Each failure of a read, with all that it comes from.
pub proof fn law_read_failures(p: PoolView, s: StreamView, event: InboundView, room: nat)
    requires
        valid(p, s),
    ensures
        ({
            let r = p.read(s, event, room).1;
            let state = stream(p, s).state;
            &&& r == Err::<ReadView, Error>(Error::NotReadable) <==> state == StreamState::Closed
            &&& r == Err::<ReadView, Error>(Error::NotEnoughSpace) <==> state
                != StreamState::Closed && (event matches InboundView::Frame(f) && f.payload.len()
                > room)
            &&& r == Err::<ReadView, Error>(Error::ClosedByPeer) <==> event is Ended && (state
                == StreamState::Open || state == StreamState::HalfClosedLocal)
            &&& r matches Err(e) ==> e == Error::NotReadable || e == Error::NotEnoughSpace || e
                == Error::ClosedByPeer
        }),
{
}

/// On a stream that is not closed, a frame that fits is read whole: the reader
/// gets its payload, the bytes are counted off the receive window as far as
/// that goes, and nothing else changes. If at most 32,767 bytes of the window
/// are left then, and only then, there is a window update to send: for this
/// stream, and for all that is missing from 65,535.
pub proof fn law_read_gives_the_frame(p: PoolView, s: StreamView, f: FrameView, room: nat)
    requires
        valid(p, s),
        stream(p, s).state != StreamState::Closed,
        f.payload.len() <= room,
    ensures
        ({
            let (q, r) = p.read(s, InboundView::Frame(f), room);
            let before = stream(p, s).window;
            let after = stream(q, s).window;
            &&& same_but(p, q, s.slot)
            &&& stream(q, s).state == stream(p, s).state
            &&& after.send == before.send
            &&& after.max == before.max
            &&& f.payload.len() <= before.recv ==> after.recv + f.payload.len() == before.recv
            &&& f.payload.len() >= before.recv ==> after.recv == 0
            &&& match r {
                Ok(ReadView::Data { payload, window_update: None }) => payload == f.payload
                    && after.recv > 32_767,
                Ok(ReadView::Data { payload, window_update: Some(bytes) }) => {
                    &&& payload == f.payload
                    &&& after.recv <= 32_767
                    &&& decode_result(bytes) matches Ok(Some(g)) && g.frame_type
                        == FrameType::WindowUpdate && g.stream_id == s.id && g.flags == 0
                        && g.increment() == Ok::<u32, Error>((65_535 - after.recv) as u32)
                    &&& bytes.len() == 13
                },
                _ => false,
            }
        }),
{
    let left = p.control(s.slot).window.read(f.payload.len()).recv;
    if left <= 32_767 {
        let n = (65_535 - left) as u32;
        let g = window_update_frame(s.id, n);
        law_decode_encoded(g, Seq::empty());
        assert(g.encoded() + Seq::<u8>::empty() =~= g.encoded());
        law_increment(s.id, n);
        law_layout(g.parts());
        assert(be32(n as int).len() == 4);
    }
}

// ---------------------------------------------------------------------------
// Writing
// ---------------------------------------------------------------------------

/// A write is allowed exactly if this side has not ended and the send window
/// has room. It then takes up that much of that window and nothing else, and
/// what goes to the peer is one frame: a data frame of this stream that carries
/// exactly the data. Each refusal says which of the two failed, and changes
/// nothing.
pub proof fn law_writing(p: PoolView, s: StreamView, data: Seq<u8>)
    requires
        valid(p, s),
    ensures
        ({
            let (q, r) = p.write(s, data);
            let open = stream(p, s).state == StreamState::Open || stream(p, s).state
                == StreamState::HalfClosedRemote;
            let room = data.len() <= stream(p, s).window.send;
            &&& r is Ok <==> open && room
            &&& r == Err::<Seq<u8>, Error>(Error::NotWritable) <==> !open
            &&& r == Err::<Seq<u8>, Error>(Error::WindowInsufficient) <==> open && !room
            &&& r is Err ==> q == p
            &&& r matches Ok(bytes) ==> {
                &&& same_but(p, q, s.slot)
                &&& stream(q, s).state == stream(p, s).state
                &&& stream(q, s).window.send + data.len() == stream(p, s).window.send
                &&& stream(q, s).window.recv == stream(p, s).window.recv
                &&& stream(q, s).window.max == stream(p, s).window.max
                &&& bytes.len() == 9 + data.len()
                &&& bytes.skip(9) == data
                &&& bytes == frame_of(FrameType::Data, 0, s.id, data).encoded()
                &&& data.len() < 16_777_216 ==> decode_result(bytes) == Ok::<
                    Option<FrameView>,
                    Error,
                >(
                    Some(
                        FrameView {
                            frame_type: FrameType::Data,
                            flags: 0,
                            stream_id: s.id,
                            payload: data,
                        },
                    ),
                )
            }
        }),
{
    let f = data_frame(s.id, data);
    law_layout(f.parts());
    if f.fits() {
        law_decode_encoded(f, Seq::empty());
        assert(f.encoded() + Seq::<u8>::empty() =~= f.encoded());
    }
}

/// What became of bytes is reported as it is, in every state: queued bytes are
/// written, all of them; bytes that found no room are to be written again and
/// count no longer; and if the connection is gone the write fails.
pub proof fn law_write_is_reported(p: PoolView, s: StreamView, len: usize)
    requires
        valid(p, s),
    ensures
        p.write_done(s, len, SendOutcome::Sent) == (p, Ok::<Option<usize>, Error>(Some(len))),
        p.write_done(s, len, SendOutcome::Closed) == (
            p,
            Err::<Option<usize>, Error>(Error::ConnectionClosed),
        ),
        ({
            let (q, r) = p.write_done(s, len, SendOutcome::Full);
            &&& r == Ok::<Option<usize>, Error>(None)
            &&& same_but(p, q, s.slot)
            &&& stream(q, s).state == stream(p, s).state
            &&& stream(q, s).window.send == stream(p, s).window.send + len
            &&& stream(q, s).window.recv == stream(p, s).window.recv
            &&& stream(q, s).window.max == stream(p, s).window.max
        }),
{
}

/// A write reports its bytes as written exactly if it was allowed and its frame
/// was queued, and then all of them. It asks to be repeated exactly if it was
/// allowed and there was no room, and then nothing has changed. Otherwise it
/// fails: as it was refused, or because the connection is gone.
pub proof fn law_write_through(p: PoolView, s: StreamView, data: Seq<u8>, outcome: SendOutcome)
    requires
        valid(p, s),
        data.len() <= usize::MAX,
    ensures
        ({
            let allowed = p.write(s, data).1 is Ok;
            let (q, r) = p.write_through(s, data, outcome);
            &&& r is Ok && r->Ok_0 is Some <==> allowed && outcome == SendOutcome::Sent
            &&& r matches Ok(Some(n)) ==> n == data.len() && q == p.write(s, data).0
            &&& r == Ok::<Option<usize>, Error>(None) <==> allowed && outcome == SendOutcome::Full
            &&& r == Ok::<Option<usize>, Error>(None) ==> q == p
            &&& allowed && outcome == SendOutcome::Closed ==> r == Err::<Option<usize>, Error>(
                Error::ConnectionClosed,
            ) && q == p.write(s, data).0
            &&& p.write(s, data).1 matches Err(e) ==> r == Err::<Option<usize>, Error>(e) && q == p
        }),
{
    let c = p.control(s.slot);
    if p.write(s, data).1 is Ok && outcome == SendOutcome::Full {
        assert(p.write_through(s, data, outcome).0.controls =~= p.controls);
    }
}

/// A write offers the peer's queue its frame exactly if it is allowed, once,
/// whatever becomes of the offer.
pub proof fn law_write_offers(
    p: PoolView,
    s: StreamView,
    data: Seq<u8>,
    offers: Seq<Offer>,
    outcome: SendOutcome,
)
    ensures
        ({
            let after = p.offered_by_write(s, data, offers, outcome);
            match p.write(s, data).1 {
                Ok(bytes) => after.len() == offers.len() + 1 && after.take(offers.len() as int)
                    == offers && after.last().data == bytes && after.last().outcome == outcome,
                Err(_) => after == offers,
            }
        }),
{
    if let Ok(bytes) = p.write(s, data).1 {
        assert(offered(offers, bytes, outcome).take(offers.len() as int) =~= offers);
    }
}

// ---------------------------------------------------------------------------
// Ending
// ---------------------------------------------------------------------------

/// The frame that ends a stream is an empty data frame with the end mark.
pub proof fn law_end_frame(id: StreamId)
    ensures
        decode_result(end_frame(id).encoded()) == Ok::<Option<FrameView>, Error>(
            Some(
                FrameView {
                    frame_type: FrameType::Data,
                    flags: 0x1,
                    stream_id: id,
                    payload: Seq::empty(),
                },
            ),
        ),
        end_frame(id).encoded().len() == 9,
{
    let f = end_frame(id);
    law_decode_encoded(f, Seq::empty());
    assert(f.encoded() + Seq::<u8>::empty() =~= f.encoded());
    law_layout(f.parts());
    assert(f =~= FrameView {
        frame_type: FrameType::Data,
        flags: 0x1,
        stream_id: id,
        payload: Seq::empty(),
    });
}

/// A shutdown is done exactly if its end frame was queued, and to be tried
/// again exactly if there was no room. Done, it ends this side from every state
/// and leaves the peer's side as it is; nothing else changes. Not done, it
/// changes nothing.
pub proof fn law_shutting_down(p: PoolView, s: StreamView, outcome: SendOutcome)
    requires
        valid(p, s),
    ensures
        ({
            let (q, r) = p.shutdown(s, outcome);
            let before = stream(p, s).state;
            let after = stream(q, s).state;
            &&& r == Ok::<bool, Error>(true) <==> outcome == SendOutcome::Sent
            &&& r == Ok::<bool, Error>(false) <==> outcome == SendOutcome::Full
            &&& r == Err::<bool, Error>(Error::ConnectionClosed) <==> outcome
                == SendOutcome::Closed
            &&& outcome != SendOutcome::Sent ==> q == p
            &&& same_but(p, q, s.slot)
            &&& stream(q, s).window == stream(p, s).window
            &&& outcome == SendOutcome::Sent ==> {
                &&& before == StreamState::Open ==> after == StreamState::HalfClosedLocal
                &&& before == StreamState::HalfClosedLocal ==> after
                    == StreamState::HalfClosedLocal
                &&& before == StreamState::HalfClosedRemote ==> after == StreamState::Closed
                &&& before == StreamState::Closed ==> after == StreamState::Closed
            }
        }),
{
}

/// A close succeeds exactly if its end frame was sent. The stream is closed
/// then, from every state: it says so, nothing can be written or read, and data
/// that still comes is refused. Nothing else changes. A close that was not sent
/// changes nothing.
pub proof fn law_closing(
    p: PoolView,
    s: StreamView,
    sent: bool,
    data: Seq<u8>,
    event: InboundView,
    room: nat,
    f: FrameView,
)
    requires
        valid(p, s),
    ensures
        ({
            let (q, r) = p.close(s, sent);
            &&& r is Ok <==> sent
            &&& r matches Err(e) ==> e == Error::CloseNotSent
            &&& !sent ==> q == p
            &&& same_but(p, q, s.slot)
            &&& stream(q, s).window == stream(p, s).window
            &&& sent ==> {
                &&& stream(q, s).state == StreamState::Closed
                &&& q.closed(s)
                &&& q.write(s, data).1 == Err::<Seq<u8>, Error>(Error::NotWritable)
                &&& q.read(s, event, room).1 == Err::<ReadView, Error>(Error::NotReadable)
                &&& f.frame_type == FrameType::Data && p.table.contains_key(f.stream_id)
                    && p.table[f.stream_id] == s.slot ==> q.receive(f).1 == Err::<
                    Option<DeliveryView>,
                    Error,
                >(Error::DataNotReadable)
            }
        }),
{
}

// ---------------------------------------------------------------------------
// Values
// ---------------------------------------------------------------------------

/// What the operations hand out and take is told as it is: no case is mixed
/// with another, and no bytes are left out.
pub proof fn law_values(
    read: Result<ReadPoll, Error>,
    bytes: Result<Bytes, Error>,
    delivery: Result<Option<Delivery>, Error>,
    event: Inbound,
)
    ensures
        read matches Err(e) ==> read_outcome(read) == Err::<ReadView, Error>(e),
        read matches Ok(ReadPoll::Eof) <==> read_outcome(read) == Ok::<ReadView, Error>(
            ReadView::Eof,
        ),
        read matches Ok(ReadPoll::Pending) <==> read_outcome(read) == Ok::<ReadView, Error>(
            ReadView::Pending,
        ),
        read matches Ok(ReadPoll::Data { payload, window_update }) ==> (read_outcome(
            read,
        ) matches Ok(ReadView::Data { payload: b, window_update: u }) && b == bytes_contents(payload) && (u is Some <==> window_update is Some) && (
        window_update matches Some(w) ==> u == Some(bytes_contents(w)))),
        bytes matches Ok(b) ==> bytes_outcome(bytes) == Ok::<Seq<u8>, Error>(bytes_contents(b)),
        bytes matches Err(e) ==> bytes_outcome(bytes) == Err::<Seq<u8>, Error>(e),
        delivery matches Err(e) ==> delivery_outcome(delivery) == Err::<
            Option<DeliveryView>,
            Error,
        >(e),
        delivery matches Ok(None) ==> delivery_outcome(delivery) == Ok::<
            Option<DeliveryView>,
            Error,
        >(None),
        delivery matches Ok(Some(d)) ==> (delivery_outcome(delivery) matches Ok(Some(v)) && v.slot
            == d.slot && v.end_stream == d.end_stream && v.frame == d.frame@),
        event is Empty <==> event@ is Empty,
        event is Ended <==> event@ is Ended,
        event matches Inbound::Frame(f) ==> event@ == InboundView::Frame(f@),
{
}

} // verus!
