//! What each operation on a connection comes to, told by its streams, its ping
//! and the bytes themselves.

use super::streams::{same_but, stream};
use crate::buffer::bytes_contents;
use crate::connection::{
    input_ended, read_step, read_step_outcome, sent_or, step_outcome, ConnectionView, PingAnswer,
    ReadStep, ReadStepView, Step, StepView,
};
use crate::error::Error;
use crate::frame::{
    decode_rest, decode_result, go_away_frame, law_decode_encoded, law_flag_bits, law_increment,
    law_partial_frame, law_unknown_type, ping_frame, pong_frame, window_update_frame, FrameType,
    FrameView,
};
use crate::stream::pool::{DeliveryView, PoolView};
use crate::stream::window::law_granting;
use crate::stream::{StreamId, StreamState, StreamView};
use crate::wire::{frame_bytes, law_layout, Parts};
use vstd::prelude::*;

verus! {

// ---------------------------------------------------------------------------
// Frames off the transport
// ---------------------------------------------------------------------------

/// Until the transport has said that the input ended, a frame that is not all
/// there is waited for, however much of it has come and in however large a
/// piece. Once it has said so, what is left of a frame is an error and nothing
/// left is the end. Either way the bytes stay.
pub proof fn law_partial_frames_are_waited_for(f: FrameView, k: int, received: Option<usize>)
    requires
        f.fits(),
        0 <= k < f.encoded().len(),
    ensures
        ({
            let b = f.encoded().take(k);
            &&& received != Some(0usize) ==> read_step(b, received) == Ok::<ReadStepView, Error>(
                ReadStepView::NeedMore,
            )
            &&& received == Some(0usize) && k > 0 ==> read_step(b, received) == Err::<
                ReadStepView,
                Error,
            >(Error::MidFrame)
            &&& received == Some(0usize) && k == 0 ==> read_step(b, received) == Ok::<
                ReadStepView,
                Error,
            >(ReadStepView::EndOfInput)
            &&& decode_rest(b) == b
        }),
{
    law_partial_frame(f, k);
}

/// A whole frame is handed out whatever the transport said last and whatever
/// follows it, and a frame of an unknown type is refused in the same way.
pub proof fn law_whole_frames_are_handed_out(
    f: FrameView,
    p: Parts,
    rest: Seq<u8>,
    received: Option<usize>,
)
    requires
        f.fits(),
        p.payload.len() < 16_777_216,
        p.code > 5,
    ensures
        read_step(f.encoded() + rest, received) == Ok::<ReadStepView, Error>(
            ReadStepView::Frame(f),
        ),
        decode_rest(f.encoded() + rest) == rest,
        read_step(frame_bytes(p) + rest, received) == Err::<ReadStepView, Error>(
            Error::UnknownFrameType(p.code),
        ),
{
    law_decode_encoded(f, rest);
    law_unknown_type(p, rest);
}

/// Of any bytes: more are asked for exactly if no whole frame is there and the
/// input has not ended; the end is told exactly if nothing is left and it has;
/// and the input is cut short exactly if something is left, no whole frame is
/// there, and it has.
pub proof fn law_read_step_is_exact(b: Seq<u8>, received: Option<usize>)
    ensures
        ({
            let r = read_step(b, received);
            let partial = decode_result(b) == Ok::<Option<FrameView>, Error>(None);
            let ended = received matches Some(n) && n == 0;
            &&& input_ended(received) <==> ended
            &&& r == Ok::<ReadStepView, Error>(ReadStepView::NeedMore) <==> partial && !ended
            &&& r == Ok::<ReadStepView, Error>(ReadStepView::EndOfInput) <==> b.len() == 0 && ended
            &&& r == Err::<ReadStepView, Error>(Error::MidFrame) <==> partial && ended && b.len()
                > 0
            &&& r matches Ok(ReadStepView::Frame(f)) ==> decode_result(b) == Ok::<
                Option<FrameView>,
                Error,
            >(Some(f))
            &&& decode_result(b) matches Ok(Some(f)) ==> r == Ok::<ReadStepView, Error>(
                ReadStepView::Frame(f),
            )
            &&& decode_result(b) matches Err(e) ==> r == Err::<ReadStepView, Error>(e)
        }),
{
}

// ---------------------------------------------------------------------------
// New connections and new streams
// ---------------------------------------------------------------------------

/// A new end has its control stream, open and with full windows, and nothing
/// else: no other stream and no ping. The client starts at id 1, the server at
/// id 2.
pub proof fn law_new_ends<W>(id: StreamId)
    ensures
        ({
            let client = ConnectionView::<W>::initial();
            let server = ConnectionView::<W>::initial_server();
            let control = StreamView { id: 0, slot: 0 };
            &&& client.pool.next_id == 1
            &&& server.pool.next_id == 2
            &&& client.pending is None
            &&& server.pending is None
            &&& client.pool.table.contains_key(id) <==> id == 0
            &&& server.pool.table.contains_key(id) <==> id == 0
            &&& client.pool.controls.len() == 1 && client.pool.table[0] == 0
            &&& server.pool.controls.len() == 1 && server.pool.table[0] == 0
            &&& stream(client.pool, control).state == StreamState::Open
            &&& stream(client.pool, control).window.send == 65_535
            &&& stream(client.pool, control).window.recv == 65_535
            &&& stream(client.pool, control).window.max == 1_073_741_823
            &&& server.pool.controls == client.pool.controls
            &&& client.wf() && server.wf()
        }),
{
}

/// A connection is in order exactly if its streams are, and replacing them
/// replaces nothing else.
pub proof fn law_connection_parts<W>(c: ConnectionView<W>, pool: PoolView)
    ensures
        c.wf() <==> c.pool.wf(),
        c.with_pool(pool).pool == pool,
        c.with_pool(pool).pending == c.pending,
{
}

/// A stream is opened exactly if the next id is at most 2^31 - 1. It goes by
/// that id, is open with full windows, and is in a slot of its own. Either way
/// the next id moves on by two, around the end of the numbers, and nothing else
/// changes.
pub proof fn law_opening<W>(c: ConnectionView<W>, other: StreamId)
    requires
        c.wf(),
        c.pool.controls.len() < usize::MAX,
    ensures
        ({
            let (d, r) = c.open();
            let id = c.pool.next_id;
            &&& r is Ok <==> id <= 0x7fff_ffff
            &&& r matches Err(e) ==> e == Error::StreamIdExhausted
            &&& d.pending == c.pending
            &&& id + 2 <= u32::MAX ==> d.pool.next_id == id + 2
            &&& id + 2 > u32::MAX ==> d.pool.next_id == id + 2 - 0x1_0000_0000
            &&& r is Err ==> d.pool.table == c.pool.table && d.pool.controls == c.pool.controls
            &&& r matches Ok(h) ==> {
                &&& h.id == id
                &&& h.slot == c.pool.controls.len()
                &&& d.pool.controls.len() == c.pool.controls.len() + 1
                &&& d.pool.controls.take(c.pool.controls.len() as int) == c.pool.controls
                &&& stream(d.pool, h).state == StreamState::Open
                &&& stream(d.pool, h).window.send == 65_535
                &&& stream(d.pool, h).window.recv == 65_535
                &&& d.pool.table.contains_key(id) && d.pool.table[id] == h.slot
                &&& other != id ==> (d.pool.table.contains_key(other)
                    <==> c.pool.table.contains_key(other))
                &&& other != id && c.pool.table.contains_key(other) ==> d.pool.table[other]
                    == c.pool.table[other]
            }
        }),
{
    let q = c.open().0.pool;
    assert(q.controls.take(c.pool.controls.len() as int) =~= c.pool.controls);
}

// ---------------------------------------------------------------------------
// Frames of the peer
// ---------------------------------------------------------------------------

/// Data, window updates and resets of a stream that is known go to that stream,
/// whatever its state and its windows are: the streams become what the frame
/// makes of them, the outcome is the stream's, and the ping stays.
pub proof fn law_known_streams_get_their_frames<W>(c: ConnectionView<W>, f: FrameView)
    requires
        f.stream_id != 0,
        c.pool.table.contains_key(f.stream_id),
        f.frame_type == FrameType::Data || f.frame_type == FrameType::WindowUpdate || f.frame_type
            == FrameType::RstStream,
    ensures
        ({
            let (d, r) = c.frame(f);
            let (pool, outcome) = c.pool.receive(f);
            &&& d.pool == pool
            &&& d.pending == c.pending
            &&& outcome matches Ok(Some(delivery)) ==> r == Ok::<StepView<W>, Error>(
                StepView::Deliver(delivery),
            )
            &&& outcome matches Ok(None) ==> r == Ok::<StepView<W>, Error>(StepView::Done)
            &&& outcome matches Err(e) ==> r == Err::<StepView<W>, Error>(e)
        }),
{
}

/// A window update raises the send window of its stream by what it grants, also
/// where nothing was left of it, so that what did not fit before can be written
/// then. Nothing else changes.
pub proof fn law_window_update_lets_writing_go_on<W>(
    c: ConnectionView<W>,
    id: StreamId,
    n: u32,
    data: Seq<u8>,
)
    requires
        c.wf(),
        id != 0,
        n != 0,
        c.pool.table.contains_key(id),
        c.pool.controls[c.pool.table[id] as int].window.send + n <= 1_073_741_823,
    ensures
        ({
            let h = StreamView { id, slot: c.pool.table[id] };
            let (d, r) = c.frame(window_update_frame(id, n));
            &&& r == Ok::<StepView<W>, Error>(StepView::Done)
            &&& d.pending == c.pending
            &&& same_but(c.pool, d.pool, h.slot)
            &&& stream(d.pool, h).state == stream(c.pool, h).state
            &&& stream(d.pool, h).window.send == stream(c.pool, h).window.send + n
            &&& stream(d.pool, h).window.recv == stream(c.pool, h).window.recv
            &&& d.pool.write(h, data).1 is Ok <==> (stream(c.pool, h).state == StreamState::Open
                || stream(c.pool, h).state == StreamState::HalfClosedRemote) && data.len()
                <= stream(c.pool, h).window.send + n
        }),
{
    law_increment(id, n);
    law_granting(c.pool.control(c.pool.table[id]).window, n as nat);
}

/// Data for a stream that is not known opens one: it is offered with the frame
/// as it came, it is open with full windows under the frame's id, and the frame
/// has not been counted yet. Nothing else changes.
pub proof fn law_data_opens_a_stream<W>(c: ConnectionView<W>, f: FrameView, other: StreamId)
    requires
        c.wf(),
        c.pool.controls.len() < usize::MAX,
        f.stream_id != 0,
        f.frame_type == FrameType::Data,
        !c.pool.table.contains_key(f.stream_id),
    ensures
        ({
            let (d, r) = c.frame(f);
            let h = StreamView { id: f.stream_id, slot: c.pool.controls.len() as usize };
            &&& r == Ok::<StepView<W>, Error>(StepView::Accept { stream: h, frame: f })
            &&& d.pending == c.pending
            &&& d.pool.next_id == c.pool.next_id
            &&& d.pool.controls.len() == c.pool.controls.len() + 1
            &&& d.pool.controls.take(c.pool.controls.len() as int) == c.pool.controls
            &&& stream(d.pool, h).state == StreamState::Open
            &&& stream(d.pool, h).window.send == 65_535
            &&& stream(d.pool, h).window.recv == 65_535
            &&& stream(d.pool, h).window.max == 1_073_741_823
            &&& d.pool.table.contains_key(f.stream_id) && d.pool.table[f.stream_id] == h.slot
            &&& other != f.stream_id ==> (d.pool.table.contains_key(other)
                <==> c.pool.table.contains_key(other))
            &&& other != f.stream_id && c.pool.table.contains_key(other) ==> d.pool.table[other]
                == c.pool.table[other]
        }),
{
    assert(c.frame(f).0.pool.controls.take(c.pool.controls.len() as int) =~= c.pool.controls);
}

/// A stream that is accepted gets the frame that opened it, as any known stream
/// gets its frames. If it is not accepted that is an error, and nothing
/// changes.
pub proof fn law_accepting<W>(c: ConnectionView<W>, f: FrameView)
    ensures
        c.accept(f, true).0.pool == c.pool.receive(f).0,
        c.accept(f, true).0.pending == c.pending,
        c.accept(f, true).1 == c.pool.receive(f).1,
        c.accept(f, false) == (c, Err::<Option<DeliveryView>, Error>(Error::AcceptFailed)),
{
}

/// For a stream that is not known a window update is an error and a reset is
/// not. A frame that speaks of the connection is an error on any stream. None
/// of them changes anything.
pub proof fn law_frames_without_a_stream<W>(c: ConnectionView<W>, f: FrameView)
    requires
        f.stream_id != 0,
    ensures
        !c.pool.table.contains_key(f.stream_id) && f.frame_type == FrameType::WindowUpdate
            ==> c.frame(f) == (c, Err::<StepView<W>, Error>(Error::StreamNotFound)),
        !c.pool.table.contains_key(f.stream_id) && f.frame_type == FrameType::RstStream ==> c.frame(
            f,
        ) == (c, Ok::<StepView<W>, Error>(StepView::Done)),
        f.frame_type == FrameType::Ping || f.frame_type == FrameType::GoAway || f.frame_type
            == FrameType::Settings ==> c.frame(f) == (
            c,
            Err::<StepView<W>, Error>(Error::UnexpectedFrameType),
        ),
{
}

/// What speaks of the connection as a whole is a ping, its answer, a farewell
/// or settings; the last two change nothing, and anything else is an error that
/// changes nothing. The frame's stream id plays no part here.
pub proof fn law_connection_frames<W>(c: ConnectionView<W>, f: FrameView)
    ensures
        f.stream_id == 0 ==> c.frame(f) == c.connection_frame(f),
        f.frame_type == FrameType::GoAway || f.frame_type == FrameType::Settings
            ==> c.connection_frame(f) == (c, Ok::<StepView<W>, Error>(StepView::Done)),
        f.frame_type == FrameType::Data || f.frame_type == FrameType::WindowUpdate || f.frame_type
            == FrameType::RstStream ==> c.connection_frame(f) == (
            c,
            Err::<StepView<W>, Error>(Error::UnexpectedConnectionFrameType),
        ),
{
}

/// Every ping of at least eight bytes is answered with its first eight, as long
/// as there is a control stream; without one nothing is sent. Nothing changes,
/// and a ping of this end that waits for its answer goes on waiting.
pub proof fn law_pings_are_answered<W>(c: ConnectionView<W>, f: FrameView)
    requires
        f.frame_type == FrameType::Ping,
        f.flags & 0x2 != 0x2,
        f.payload.len() >= 8,
    ensures
        ({
            let (d, r) = c.connection_frame(f);
            &&& d == c
            &&& !c.pool.table.contains_key(0) ==> r == Ok::<StepView<W>, Error>(StepView::Done)
            &&& c.pool.table.contains_key(0) ==> {
                &&& r matches Ok(StepView::Pong(bytes)) && bytes.len() == 17 && decode_result(bytes)
                    == Ok::<Option<FrameView>, Error>(
                    Some(
                        FrameView {
                            frame_type: FrameType::Ping,
                            flags: 0x2,
                            stream_id: 0,
                            payload: f.payload.take(8),
                        },
                    ),
                )
            }
            &&& ConnectionView::<W>::answerable(f)
        }),
{
    law_flag_bits(f);
    let g = pong_frame(f.payload.take(8));
    law_decode_encoded(g, Seq::empty());
    assert(g.encoded() + Seq::<u8>::empty() =~= g.encoded());
    law_layout(g.parts());
}

/// Only a ping with less than eight bytes cannot be answered.
pub proof fn law_what_cannot_be_answered<W>(f: FrameView)
    ensures
        !ConnectionView::<W>::answerable(f) <==> f.stream_id == 0 && f.frame_type
            == FrameType::Ping && f.flags & 0x2 != 0x2 && f.payload.len() < 8,
{
    law_flag_bits(f);
}

/// An answer goes to the ping that waits for it, whatever it carries, and then
/// no ping waits any more. If none waits nothing happens. The streams stay.
pub proof fn law_answers_reach_their_ping<W>(c: ConnectionView<W>, f: FrameView)
    requires
        f.frame_type == FrameType::Ping,
        f.flags & 0x2 == 0x2,
    ensures
        ({
            let (d, r) = c.connection_frame(f);
            &&& d.pool == c.pool
            &&& d.pending is None
            &&& c.pending matches Some(w) ==> r == Ok::<StepView<W>, Error>(
                StepView::PingAnswered(w),
            )
            &&& c.pending is None ==> r == Ok::<StepView<W>, Error>(StepView::Done)
        }),
{
    law_flag_bits(f);
}

// ---------------------------------------------------------------------------
// Pings and the farewell
// ---------------------------------------------------------------------------

/// A ping starts exactly if none waits, and then waits for its answer. What is
/// sent is one ping of the connection with exactly that payload. Without a
/// control stream it cannot be sent, and waits all the same. The streams stay.
pub proof fn law_pinging<W>(c: ConnectionView<W>, payload: Seq<u8>, waiter: W)
    requires
        payload.len() == 8,
    ensures
        ({
            let (d, r) = c.ping(payload, waiter);
            &&& d.pool == c.pool
            &&& c.pending is Some ==> d.pending == c.pending && r == Err::<Seq<u8>, Error>(
                Error::PingInProgress,
            )
            &&& c.pending is None ==> d.pending == Some(waiter)
            &&& c.pending is None && !c.pool.table.contains_key(0) ==> r == Err::<Seq<u8>, Error>(
                Error::ControlStreamNotFound,
            )
            &&& c.pending is None && c.pool.table.contains_key(0) ==> {
                &&& r matches Ok(bytes) && bytes.len() == 17 && decode_result(bytes) == Ok::<
                    Option<FrameView>,
                    Error,
                >(
                    Some(
                        FrameView {
                            frame_type: FrameType::Ping,
                            flags: 0,
                            stream_id: 0,
                            payload,
                        },
                    ),
                )
            }
        }),
{
    let f = ping_frame(payload);
    law_decode_encoded(f, Seq::empty());
    assert(f.encoded() + Seq::<u8>::empty() =~= f.encoded());
    law_layout(f.parts());
}

/// An answer gives its time; a wait that was given up or took too long is an
/// error. Only a wait that took too long makes room for the next ping, and then
/// the next ping can start. The streams stay.
pub proof fn law_ping_ends<W, D>(
    c: ConnectionView<W>,
    answer: PingAnswer<D>,
    payload: Seq<u8>,
    waiter: W,
)
    ensures
        ({
            let (d, r) = c.ping_end(answer);
            &&& d.pool == c.pool
            &&& answer matches PingAnswer::Answered(time) ==> r == Ok::<D, Error>(time)
            &&& answer is Abandoned ==> r == Err::<D, Error>(Error::PingChannelClosed)
            &&& answer is TimedOut ==> r == Err::<D, Error>(Error::PingTimedOut)
            &&& !(answer is TimedOut) ==> d.pending == c.pending
            &&& answer is TimedOut ==> d.pending is None && d.ping(payload, waiter).0.pending
                == Some(waiter)
        }),
{
}

/// There is a farewell exactly if there is a control stream: one frame of the
/// connection that names stream 0 and no error.
pub proof fn law_saying_farewell<W>(c: ConnectionView<W>)
    ensures
        c.farewell() is Some <==> c.pool.table.contains_key(0),
        c.farewell() matches Some(bytes) ==> bytes.len() == 17 && (decode_result(bytes) matches Ok(
            Some(f),
        ) && f.frame_type == FrameType::GoAway && f.flags == 0 && f.stream_id == 0 && f.payload
            == seq![0u8, 0u8, 0u8, 0u8, 0u8, 0u8, 0u8, 0u8]),
{
    let f = go_away_frame(0, 0);
    law_decode_encoded(f, Seq::empty());
    assert(f.encoded() + Seq::<u8>::empty() =~= f.encoded());
    law_layout(f.parts());
    assert(f.payload =~= seq![0u8, 0u8, 0u8, 0u8, 0u8, 0u8, 0u8, 0u8]);
}

/// Bytes that were sent are no failure; bytes that were not are the failure
/// that was named.
pub proof fn law_sent_or(sent: bool, failure: Error)
    ensures
        sent_or(sent, failure) is Ok <==> sent,
        sent_or(sent, failure) matches Err(e) ==> e == failure,
{
}

/// What the operations hand out is told as it is: no case is mixed with
/// another, and nothing is left out.
pub proof fn law_values<W>(step: Result<Step<W>, Error>, read: Result<ReadStep, Error>)
    ensures
        step matches Err(e) ==> step_outcome(step) == Err::<StepView<W>, Error>(e),
        step matches Ok(Step::Done) ==> step_outcome(step) == Ok::<StepView<W>, Error>(
            StepView::Done,
        ),
        step matches Ok(Step::Pong(b)) ==> step_outcome(step) == Ok::<StepView<W>, Error>(
            StepView::Pong(bytes_contents(b)),
        ),
        step matches Ok(Step::PingAnswered(w)) ==> step_outcome(step) == Ok::<StepView<W>, Error>(
            StepView::PingAnswered(w),
        ),
        step matches Ok(Step::Deliver(d)) ==> step_outcome(step) == Ok::<StepView<W>, Error>(
            StepView::Deliver(d@),
        ),
        step matches Ok(Step::Accept { stream: s, frame }) ==> step_outcome(step) == Ok::<
            StepView<W>,
            Error,
        >(StepView::Accept { stream: s@, frame: frame@ }),
        read matches Err(e) ==> read_step_outcome(read) == Err::<ReadStepView, Error>(e),
        read matches Ok(ReadStep::Frame(f)) ==> read_step_outcome(read) == Ok::<
            ReadStepView,
            Error,
        >(ReadStepView::Frame(f@)),
        read matches Ok(ReadStep::NeedMore) ==> read_step_outcome(read) == Ok::<
            ReadStepView,
            Error,
        >(ReadStepView::NeedMore),
        read matches Ok(ReadStep::EndOfInput) ==> read_step_outcome(read) == Ok::<
            ReadStepView,
            Error,
        >(ReadStepView::EndOfInput),
{
}

} // verus!
