//! What holds of the multiplexer as a whole.
//!
//! Every law is stated over the same functions that the operations' own
//! contracts are.

pub mod connections;
pub mod streams;

use crate::channel::SendOutcome;
use crate::connection::{read_step, ConnectionView, ReadStepView, StepView};
use crate::error::Error;
use crate::frame::{
    data_frame, decode_rest, decode_result, decoded, decoded_rest, encoded_all, end_frame,
    go_away_frame, law_decode_all, law_decode_encoded, law_decode_pieces, law_flags, law_increment,
    law_partial_frame, ping_frame, pong_frame, rst_stream_frame, window_update_frame, FrameType,
    FrameView,
};
use crate::stream::io::{InboundView, ReadView};
use crate::stream::pool::{DeliveryView, PoolView, MAX_STREAM_ID};
use crate::stream::window::{WindowView, DEFAULT_WINDOW_SIZE};
use crate::stream::{ControlView, StreamId, StreamState, StreamView};
use crate::wire::LENGTH_MODULUS;
use vstd::prelude::*;

verus! {

// ---------------------------------------------------------------------------
// From one end to the other
// ---------------------------------------------------------------------------

/// What a write puts on the wire, the other end reads as that data, for that
/// stream: a stream that it knows gets a frame for its reader, and for one
/// that it does not know it first offers a new stream. A read with enough
/// room then gives back exactly the bytes that were written.
pub proof fn law_write_is_read<W>(
    writer: PoolView,
    s: StreamView,
    data: Seq<u8>,
    rest: Seq<u8>,
    reader: ConnectionView<W>,
    room: nat,
)
    requires
        writer.wf() && writer.owns(s) && reader.wf(),
        s.id != 0,
        data.len() < LENGTH_MODULUS,
        writer.control(s.slot).state.can_write(),
        data.len() <= writer.control(s.slot).window.send,
        reader.pool.has(s.id) ==> {
            let c = reader.pool.control(reader.pool.table[s.id]);
            c.state.takes_data() && data.len() <= c.window.recv
        },
        !reader.pool.has(s.id) ==> data.len() <= DEFAULT_WINDOW_SIZE
            && reader.pool.controls.len() < usize::MAX,
        data.len() <= room,
    ensures
        ({
            let f = data_frame(s.id, data);
            let bytes = f.encoded();
            &&& writer.write(s, data).1 == Ok::<Seq<u8>, Error>(bytes)
            &&& decode_result(bytes + rest) == Ok::<Option<FrameView>, Error>(Some(f))
            &&& decode_rest(bytes + rest) == rest
            &&& if reader.pool.has(s.id) {
                let slot = reader.pool.table[s.id];
                let h = StreamView { id: s.id, slot };
                let (after, step) = reader.frame(f);
                &&& step == Ok::<StepView<W>, Error>(
                    StepView::Deliver(DeliveryView { slot, end_stream: false, frame: f }),
                )
                &&& after.pool.read(h, InboundView::Frame(f), room).1 matches Ok(
                    ReadView::Data { payload, .. },
                ) && payload == data
            } else {
                let h = reader.pool.next_handle(s.id);
                let (offered, step) = reader.frame(f);
                let (after, delivery) = offered.pool.receive(f);
                &&& step == Ok::<StepView<W>, Error>(StepView::Accept { stream: h, frame: f })
                &&& delivery == Ok::<Option<DeliveryView>, Error>(
                    Some(DeliveryView { slot: h.slot, end_stream: false, frame: f }),
                )
                &&& after.read(h, InboundView::Frame(f), room).1 matches Ok(
                    ReadView::Data { payload, .. },
                ) && payload == data
            }
        }),
{
    let f = data_frame(s.id, data);
    law_decode_encoded(f, rest);
    law_flags(s.id, data);
}

/// The pool after a frame was taken in and, if it was for a reader, handed
/// over to it; and the frame that was handed over.
pub open spec fn take_in(p: PoolView, f: FrameView) -> (PoolView, Option<DeliveryView>) {
    let (after, outcome) = p.receive(f);
    match outcome {
        Ok(Some(d)) => (handed_over(after, d), Some(d)),
        _ => (after, None),
    }
}

/// The pool once a frame was handed over to the reader of its stream.
pub open spec fn handed_over(p: PoolView, d: DeliveryView) -> PoolView {
    p.delivered(d.slot, d.end_stream, true).0
}

/// The pool after several frames.
pub open spec fn take_in_all(p: PoolView, fs: Seq<FrameView>) -> PoolView
    decreases fs.len(),
{
    if fs.len() == 0 {
        p
    } else {
        take_in_all(take_in(p, fs[0]).0, fs.drop_first())
    }
}

/// What the readers are handed of several frames, in order.
pub open spec fn deliveries(p: PoolView, fs: Seq<FrameView>) -> Seq<Option<DeliveryView>>
    decreases fs.len(),
{
    if fs.len() == 0 {
        Seq::empty()
    } else {
        seq![take_in(p, fs[0]).1] + deliveries(take_in(p, fs[0]).0, fs.drop_first())
    }
}

/// The data frames of one stream.
pub open spec fn data_frames(id: StreamId, ds: Seq<Seq<u8>>) -> Seq<FrameView> {
    Seq::new(ds.len(), |i: int| data_frame(id, ds[i]))
}

/// The number of bytes in several pieces.
pub open spec fn total(ds: Seq<Seq<u8>>) -> nat
    decreases ds.len(),
{
    if ds.len() == 0 {
        0
    } else {
        ds[0].len() + total(ds.drop_first())
    }
}

/// Several pieces, one after the other.
pub open spec fn joined(ds: Seq<Seq<u8>>) -> Seq<u8>
    decreases ds.len(),
{
    if ds.len() == 0 {
        Seq::empty()
    } else {
        ds[0] + joined(ds.drop_first())
    }
}

/// The bytes that several writes put on the wire, up to the first that fails.
pub open spec fn written(p: PoolView, s: StreamView, ds: Seq<Seq<u8>>) -> Seq<u8>
    decreases ds.len(),
{
    if ds.len() == 0 {
        Seq::empty()
    } else {
        match p.write(s, ds[0]) {
            (after, Ok(bytes)) => bytes + written(after, s, ds.drop_first()),
            _ => Seq::empty(),
        }
    }
}

/// The bytes that reading one frame after the other gives, up to the first
/// read that gives none. Each read has all the room that it needs.
pub open spec fn read_in_order(p: PoolView, s: StreamView, fs: Seq<FrameView>) -> Seq<u8>
    decreases fs.len(),
{
    if fs.len() == 0 {
        Seq::empty()
    } else {
        match p.read(s, InboundView::Frame(fs[0]), fs[0].payload.len()) {
            (after, Ok(ReadView::Data { payload, .. })) => payload + read_in_order(
                after,
                s,
                fs.drop_first(),
            ),
            _ => Seq::empty(),
        }
    }
}

/// Writes that the send window allows put their data frames on the wire, in
/// order and complete.
pub proof fn law_writes_are_sent(p: PoolView, s: StreamView, ds: Seq<Seq<u8>>)
    requires
        p.wf() && p.owns(s),
        p.control(s.slot).state.can_write(),
        total(ds) <= p.control(s.slot).window.send,
    ensures
        written(p, s, ds) == encoded_all(data_frames(s.id, ds)),
    decreases ds.len(),
{
    if ds.len() > 0 {
        let after = p.write(s, ds[0]).0;
        law_writes_are_sent(after, s, ds.drop_first());
        assert(data_frames(s.id, ds).drop_first() =~= data_frames(s.id, ds.drop_first()));
    } else {
        assert(data_frames(s.id, ds) =~= Seq::empty());
    }
}

/// Data frames that the receive window allows reach the reader of their
/// stream, in order and complete.
pub proof fn law_data_is_delivered(p: PoolView, id: StreamId, ds: Seq<Seq<u8>>)
    requires
        p.wf() && p.has(id),
        p.control(p.table[id]).state.takes_data(),
        total(ds) <= p.control(p.table[id]).window.recv,
    ensures
        deliveries(p, data_frames(id, ds)) == Seq::new(
            ds.len(),
            |i: int|
                Some(
                    DeliveryView {
                        slot: p.table[id],
                        end_stream: false,
                        frame: data_frame(id, ds[i]),
                    },
                ),
        ),
    decreases ds.len(),
{
    let fs = data_frames(id, ds);
    let expected = Seq::new(
        ds.len(),
        |i: int|
            Some(
                DeliveryView { slot: p.table[id], end_stream: false, frame: data_frame(id, ds[i]) },
            ),
    );
    if ds.len() > 0 {
        law_flags(id, ds[0]);
        let after = take_in(p, fs[0]).0;
        law_data_is_delivered(after, id, ds.drop_first());
        assert(fs.drop_first() =~= data_frames(id, ds.drop_first()));
        assert(deliveries(p, fs) =~= expected);
    } else {
        assert(deliveries(p, fs) =~= expected);
    }
}

/// Reading what was delivered gives the bytes in order and complete.
pub proof fn law_reads_are_in_order(p: PoolView, s: StreamView, ds: Seq<Seq<u8>>)
    requires
        p.wf() && p.owns(s),
        p.control(s.slot).state != StreamState::Closed,
    ensures
        read_in_order(p, s, data_frames(s.id, ds)) == joined(ds),
    decreases ds.len(),
{
    let fs = data_frames(s.id, ds);
    if ds.len() > 0 {
        let after = p.read(s, InboundView::Frame(fs[0]), fs[0].payload.len()).0;
        law_reads_are_in_order(after, s, ds.drop_first());
        assert(fs.drop_first() =~= data_frames(s.id, ds.drop_first()));
    }
}

/// Whatever one end writes to a stream, in however many pieces, the other end
/// reads: the same bytes in the same order, as long as the writer's send window
/// and the reader's receive window allow them and no piece is too long for a
/// frame.
pub proof fn law_stream_is_kept_whole(
    writer: PoolView,
    s: StreamView,
    ds: Seq<Seq<u8>>,
    reader: PoolView,
)
    requires
        writer.wf() && writer.owns(s) && reader.wf() && reader.has(s.id),
        writer.control(s.slot).state.can_write(),
        total(ds) <= writer.control(s.slot).window.send,
        reader.control(reader.table[s.id]).state.takes_data(),
        total(ds) <= reader.control(reader.table[s.id]).window.recv,
        forall|i: int| 0 <= i < ds.len() ==> (#[trigger] ds[i]).len() < LENGTH_MODULUS,
    ensures
        ({
            let fs = decoded(written(writer, s, ds));
            let h = StreamView { id: s.id, slot: reader.table[s.id] };
            let after = take_in_all(reader, fs);
            &&& fs == data_frames(s.id, ds)
            &&& decoded_rest(written(writer, s, ds)) == Seq::<u8>::empty()
            &&& deliveries(reader, fs) == Seq::new(
                fs.len(),
                |i: int| Some(DeliveryView { slot: h.slot, end_stream: false, frame: fs[i] }),
            )
            &&& read_in_order(after, h, fs) == joined(ds)
        }),
{
    let fs = data_frames(s.id, ds);
    let h = StreamView { id: s.id, slot: reader.table[s.id] };
    law_writes_are_sent(writer, s, ds);
    law_decode_all(fs);
    law_data_is_delivered(reader, s.id, ds);
    assert(deliveries(reader, fs) =~= Seq::new(
        fs.len(),
        |i: int| Some(DeliveryView { slot: h.slot, end_stream: false, frame: fs[i] }),
    ));
    lemma_take_in_keeps_the_rest(reader, s.id, ds);
    law_reads_are_in_order(take_in_all(reader, fs), h, ds);
}

/// Data that is written to the stream of an id.
pub struct Piece {
    pub id: StreamId,
    pub data: Seq<u8>,
}

/// The handle of the stream that an id leads to.
pub open spec fn handle(p: PoolView, id: StreamId) -> StreamView {
    StreamView { id, slot: p.table[id] }
}

/// The data frames of several pieces, whichever streams they are for.
pub open spec fn piece_frames(ps: Seq<Piece>) -> Seq<FrameView> {
    Seq::new(ps.len(), |i: int| data_frame(ps[i].id, ps[i].data))
}

/// What of several pieces is for one stream, in order.
pub open spec fn pieces_of(ps: Seq<Piece>, id: StreamId) -> Seq<Seq<u8>>
    decreases ps.len(),
{
    if ps.len() == 0 {
        Seq::empty()
    } else if ps[0].id == id {
        seq![ps[0].data] + pieces_of(ps.drop_first(), id)
    } else {
        pieces_of(ps.drop_first(), id)
    }
}

/// The bytes that writes to several streams put on the wire, up to the first
/// that fails.
pub open spec fn all_written(p: PoolView, ps: Seq<Piece>) -> Seq<u8>
    decreases ps.len(),
{
    if ps.len() == 0 {
        Seq::empty()
    } else {
        match p.write(handle(p, ps[0].id), ps[0].data) {
            (after, Ok(bytes)) => bytes + all_written(after, ps.drop_first()),
            _ => Seq::empty(),
        }
    }
}

/// What of several deliveries goes to one slot, in order.
pub open spec fn delivered_to(ds: Seq<Option<DeliveryView>>, slot: usize) -> Seq<FrameView>
    decreases ds.len(),
{
    if ds.len() == 0 {
        Seq::empty()
    } else {
        match ds[0] {
            Some(d) if d.slot == slot => seq![d.frame] + delivered_to(ds.drop_first(), slot),
            _ => delivered_to(ds.drop_first(), slot),
        }
    }
}

/// Whether the pieces can all be written: their streams are known and can be
/// written to, and the send window of each allows what is for it.
pub open spec fn can_send(p: PoolView, ps: Seq<Piece>) -> bool {
    &&& forall|i: int|
        0 <= i < ps.len() ==> p.has((#[trigger] ps[i]).id) && p.control(
            p.table[ps[i].id],
        ).state.can_write()
    &&& forall|id: StreamId|
        p.has(id) ==> total(#[trigger] pieces_of(ps, id)) <= p.control(p.table[id]).window.send
}

/// Whether the pieces can all come in: their streams are known and take data,
/// and the receive window of each allows what is for it.
pub open spec fn can_take(p: PoolView, ps: Seq<Piece>) -> bool {
    &&& forall|i: int|
        0 <= i < ps.len() ==> p.has((#[trigger] ps[i]).id) && p.control(
            p.table[ps[i].id],
        ).state.takes_data()
    &&& forall|id: StreamId|
        p.has(id) ==> total(#[trigger] pieces_of(ps, id)) <= p.control(p.table[id]).window.recv
}

/// Many streams share one transport without mixing: whatever is written to
/// several streams, in however many pieces and in whatever order, the frames
/// come out at the other end in that order, the reader of each stream is handed
/// that stream's frames and no others, and it reads exactly the bytes that were
/// written to its stream.
pub proof fn law_streams_are_kept_whole(
    writer: PoolView,
    ps: Seq<Piece>,
    reader: PoolView,
    id: StreamId,
)
    requires
        writer.wf() && can_send(writer, ps),
        reader.wf() && can_take(reader, ps),
        forall|i: int| 0 <= i < ps.len() ==> (#[trigger] ps[i]).data.len() < LENGTH_MODULUS,
        reader.has(id),
    ensures
        ({
            let bytes = all_written(writer, ps);
            let fs = decoded(bytes);
            let h = handle(reader, id);
            let mine = delivered_to(deliveries(reader, fs), h.slot);
            &&& fs == piece_frames(ps)
            &&& decoded_rest(bytes) == Seq::<u8>::empty()
            &&& mine == data_frames(id, pieces_of(ps, id))
            &&& read_in_order(take_in_all(reader, fs), h, mine) == joined(pieces_of(ps, id))
        }),
{
    let fs = piece_frames(ps);
    lemma_all_written(writer, ps);
    law_decode_all(fs);
    lemma_pieces_are_delivered(reader, ps, id);
    if pieces_of(ps, id).len() > 0 {
        law_reads_are_in_order(take_in_all(reader, fs), handle(reader, id), pieces_of(ps, id));
    }
}

proof fn lemma_pieces_total(ps: Seq<Piece>, id: StreamId)
    requires
        ps.len() > 0,
    ensures
        total(pieces_of(ps, id)) == total(pieces_of(ps.drop_first(), id)) + (if ps[0].id == id {
            ps[0].data.len()
        } else {
            0
        }),
{
    let rest = pieces_of(ps.drop_first(), id);
    assert((seq![ps[0].data] + rest).drop_first() =~= rest);
}

proof fn lemma_all_written(p: PoolView, ps: Seq<Piece>)
    requires
        p.wf() && can_send(p, ps),
    ensures
        all_written(p, ps) == encoded_all(piece_frames(ps)),
    decreases ps.len(),
{
    let fs = piece_frames(ps);
    if ps.len() > 0 {
        let rest = ps.drop_first();
        let first = ps[0].id;
        assert(p.has(first));
        lemma_pieces_total(ps, first);
        assert(total(pieces_of(ps, first)) <= p.control(p.table[first]).window.send);
        let after = p.write(handle(p, first), ps[0].data).0;
        assert forall|i: int| 0 <= i < rest.len() implies after.has((#[trigger] rest[i]).id)
            && after.control(after.table[rest[i].id]).state.can_write() by {
            assert(rest[i] == ps[i + 1]);
        }
        assert forall|id: StreamId| after.has(id) implies total(#[trigger] pieces_of(rest, id))
            <= after.control(after.table[id]).window.send by {
            lemma_pieces_total(ps, id);
            assert(total(pieces_of(ps, id)) <= p.control(p.table[id]).window.send);
        }
        lemma_all_written(after, rest);
        assert(fs.drop_first() =~= piece_frames(rest));
    }
}

proof fn lemma_pieces_are_delivered(p: PoolView, ps: Seq<Piece>, id: StreamId)
    requires
        p.wf() && can_take(p, ps) && p.has(id),
    ensures
        ({
            let fs = piece_frames(ps);
            let after = take_in_all(p, fs);
            &&& delivered_to(deliveries(p, fs), p.table[id]) == data_frames(id, pieces_of(ps, id))
            &&& after.wf()
            &&& after.controls.len() == p.controls.len()
            &&& after.control(p.table[id]).state == p.control(p.table[id]).state
            &&& pieces_of(ps, id).len() > 0 ==> p.control(p.table[id]).state.takes_data()
        }),
    decreases ps.len(),
{
    let fs = piece_frames(ps);
    let slot = p.table[id];
    if ps.len() > 0 {
        let rest = ps.drop_first();
        let first = ps[0].id;
        law_flags(first, ps[0].data);
        assert(p.has(first));
        lemma_pieces_total(ps, first);
        assert(total(pieces_of(ps, first)) <= p.control(p.table[first]).window.recv);
        let (after, d) = take_in(p, fs[0]);
        assert forall|i: int| 0 <= i < rest.len() implies after.has((#[trigger] rest[i]).id)
            && after.control(after.table[rest[i].id]).state.takes_data() by {
            assert(rest[i] == ps[i + 1]);
        }
        assert forall|other: StreamId| after.has(other) implies total(
            #[trigger] pieces_of(rest, other),
        ) <= after.control(after.table[other]).window.recv by {
            lemma_pieces_total(ps, other);
            assert(total(pieces_of(ps, other)) <= p.control(p.table[other]).window.recv);
        }
        lemma_pieces_are_delivered(after, rest, id);
        assert(fs.drop_first() =~= piece_frames(rest));
        let later = deliveries(after, fs.drop_first());
        assert(deliveries(p, fs).drop_first() =~= later);
        assert(deliveries(p, fs)[0] == d);
        assert(delivered_to(deliveries(p, fs), slot) =~= data_frames(id, pieces_of(ps, id)));
    } else {
        assert(delivered_to(deliveries(p, fs), slot) =~= data_frames(id, pieces_of(ps, id)));
    }
}

/// Frames that are for readers go to the streams that they name, in the order
/// in which they came, whichever streams they are for.
pub proof fn law_frames_are_routed(p: PoolView, fs: Seq<FrameView>)
    requires
        p.wf(),
        forall|i: int| 0 <= i < fs.len() ==> (#[trigger] deliveries(p, fs)[i]) is Some,
    ensures
        deliveries(p, fs) == Seq::new(
            fs.len(),
            |i: int|
                Some(
                    DeliveryView {
                        slot: p.table[fs[i].stream_id],
                        end_stream: fs[i].end_stream(),
                        frame: fs[i],
                    },
                ),
        ),
    decreases fs.len(),
{
    let expected = Seq::new(
        fs.len(),
        |i: int|
            Some(
                DeliveryView {
                    slot: p.table[fs[i].stream_id],
                    end_stream: fs[i].end_stream(),
                    frame: fs[i],
                },
            ),
    );
    if fs.len() > 0 {
        let after = take_in(p, fs[0]).0;
        let rest = fs.drop_first();
        assert(deliveries(p, fs)[0] is Some);
        assert(after.wf());
        lemma_deliveries_len(after, rest);
        assert forall|i: int| 0 <= i < rest.len() implies (#[trigger] deliveries(
            after,
            rest,
        )[i]) is Some by {
            assert(deliveries(p, fs)[i + 1] is Some);
        }
        law_frames_are_routed(after, rest);
    }
    assert(deliveries(p, fs) =~= expected);
}

proof fn lemma_deliveries_len(p: PoolView, fs: Seq<FrameView>)
    ensures
        deliveries(p, fs).len() == fs.len(),
    decreases fs.len(),
{
    if fs.len() > 0 {
        lemma_deliveries_len(take_in(p, fs[0]).0, fs.drop_first());
    }
}

proof fn lemma_take_in_keeps_the_rest(p: PoolView, id: StreamId, ds: Seq<Seq<u8>>)
    requires
        p.wf() && p.has(id),
        p.control(p.table[id]).state.takes_data(),
        total(ds) <= p.control(p.table[id]).window.recv,
    ensures
        ({
            let after = take_in_all(p, data_frames(id, ds));
            &&& after.wf()
            &&& after.table == p.table
            &&& after.controls.len() == p.controls.len()
            &&& after.control(p.table[id]).state == p.control(p.table[id]).state
        }),
    decreases ds.len(),
{
    let fs = data_frames(id, ds);
    if ds.len() > 0 {
        law_flags(id, ds[0]);
        let after = take_in(p, fs[0]).0;
        lemma_take_in_keeps_the_rest(after, id, ds.drop_first());
        assert(fs.drop_first() =~= data_frames(id, ds.drop_first()));
    }
}

// ---------------------------------------------------------------------------
// Streams do not disturb each other
// ---------------------------------------------------------------------------

/// A frame touches no stream but the one that it names: every other slot, and
/// with it every other stream, stays as it was.
pub proof fn law_streams_are_apart(p: PoolView, f: FrameView, slot: usize)
    requires
        p.wf(),
        slot < p.controls.len(),
        p.has(f.stream_id) ==> slot != p.table[f.stream_id],
    ensures
        p.receive(f).0.control(slot) == p.control(slot),
        p.receive(f).0.table == p.table,
        take_in(p, f).0.control(slot) == p.control(slot),
{
}

/// Two ids never share a slot, so a frame for one id does not touch the
/// stream of another.
pub proof fn law_ids_are_apart(p: PoolView, f: FrameView, other: StreamId)
    requires
        p.wf(),
        p.has(other),
        other != f.stream_id,
    ensures
        p.receive(f).0.control(p.table[other]) == p.control(p.table[other]),
{
}

/// Using one stream, by whatever operation, leaves every other one as it was.
pub proof fn law_handles_are_apart(
    p: PoolView,
    s: StreamView,
    slot: usize,
    event: InboundView,
    room: nat,
    data: Seq<u8>,
    len: usize,
    outcome: SendOutcome,
    sent: bool,
)
    requires
        p.wf() && p.owns(s),
        slot < p.controls.len(),
        slot != s.slot,
    ensures
        p.read(s, event, room).0.control(slot) == p.control(slot),
        p.write(s, data).0.control(slot) == p.control(slot),
        p.write_done(s, len, outcome).0.control(slot) == p.control(slot),
        p.shutdown(s, outcome).0.control(slot) == p.control(slot),
        p.close(s, sent).0.control(slot) == p.control(slot),
{
}

/// Creating a stream under an id that is taken cuts the old stream off: what
/// comes for the id reaches the new one, and the old one stays as it was.
pub proof fn law_new_stream_takes_the_id_over(p: PoolView, id: StreamId, f: FrameView)
    requires
        p.wf(),
        p.controls.len() < usize::MAX,
        p.has(id),
        f.stream_id == id,
    ensures
        p.created(id).wf(),
        p.created(id).control(p.created(id).table[id]) == ControlView::initial(),
        p.created(id).control(p.table[id]) == p.control(p.table[id]),
        p.created(id).receive(f).0.control(p.table[id]) == p.control(p.table[id]),
{
}

// ---------------------------------------------------------------------------
// The life of a stream
// ---------------------------------------------------------------------------

/// Whether a side that is open after was open before.
pub open spec fn no_side_reopens(before: StreamState, after: StreamState) -> bool {
    &&& after.can_write() ==> before.can_write()
    &&& after.takes_data() ==> before.takes_data()
}

/// No operation opens a side of a stream again once it has ended. So a closed
/// stream stays closed.
pub proof fn law_streams_only_close(
    p: PoolView,
    s: StreamView,
    f: FrameView,
    d: DeliveryView,
    event: InboundView,
    room: nat,
    data: Seq<u8>,
    len: usize,
    outcome: SendOutcome,
    sent: bool,
)
    requires
        p.wf() && p.owns(s),
        d.slot < p.controls.len(),
    ensures
        ({
            let before = p.control(s.slot).state;
            &&& no_side_reopens(before, p.receive(f).0.control(s.slot).state)
            &&& no_side_reopens(before, handed_over(p, d).control(s.slot).state)
            &&& no_side_reopens(before, p.shutdown(s, outcome).0.control(s.slot).state)
            &&& no_side_reopens(before, p.close(s, sent).0.control(s.slot).state)
            &&& before == p.read(s, event, room).0.control(s.slot).state
            &&& before == p.write(s, data).0.control(s.slot).state
            &&& before == p.write_done(s, len, outcome).0.control(s.slot).state
        }),
{
}

/// The pool after reading one frame after the other, each with all the room
/// that it needs.
pub open spec fn after_reads(p: PoolView, s: StreamView, fs: Seq<FrameView>) -> PoolView
    decreases fs.len(),
{
    if fs.len() == 0 {
        p
    } else {
        after_reads(
            p.read(s, InboundView::Frame(fs[0]), fs[0].payload.len()).0,
            s,
            fs.drop_first(),
        )
    }
}

/// What one end writes to a stream and then closes, the other end reads to
/// its end: all of the bytes, in order, though the end frame had come before
/// the first read; then the end of the stream, however often it asks. It can
/// still write.
pub proof fn law_close_gives_end_of_stream(
    writer: PoolView,
    s: StreamView,
    ds: Seq<Seq<u8>>,
    reader: PoolView,
    room: nat,
    data: Seq<u8>,
)
    requires
        writer.wf() && writer.owns(s) && reader.wf() && reader.has(s.id),
        writer.control(s.slot).state.can_write(),
        total(ds) <= writer.control(s.slot).window.send,
        reader.control(reader.table[s.id]).state == StreamState::Open,
        total(ds) <= reader.control(reader.table[s.id]).window.recv,
        forall|i: int| 0 <= i < ds.len() ==> (#[trigger] ds[i]).len() < LENGTH_MODULUS,
        data.len() <= reader.control(reader.table[s.id]).window.send,
    ensures
        ({
            let end = end_frame(s.id);
            let fs = decoded(written(writer, s, ds) + end.encoded());
            let h = StreamView { id: s.id, slot: reader.table[s.id] };
            let came = take_in_all(reader, fs);
            let done = after_reads(came, h, fs);
            &&& fs == data_frames(s.id, ds).push(end)
            &&& deliveries(reader, fs) == Seq::new(
                fs.len(),
                |i: int|
                    Some(
                        DeliveryView { slot: h.slot, end_stream: i == ds.len(), frame: fs[i] },
                    ),
            )
            &&& came.control(h.slot).state == StreamState::HalfClosedRemote
            &&& read_in_order(came, h, fs) == joined(ds)
            &&& done.read(h, InboundView::Empty, room) == (
                done,
                Ok::<ReadView, Error>(ReadView::Eof),
            )
            &&& done.write(h, data).1 is Ok
        }),
{
    let end = end_frame(s.id);
    let fs = data_frames(s.id, ds).push(end);
    let h = StreamView { id: s.id, slot: reader.table[s.id] };
    law_writes_are_sent(writer, s, ds);
    lemma_encoded_push(data_frames(s.id, ds), end);
    law_decode_all(fs);
    lemma_close_is_delivered(reader, s.id, ds);
    let came = take_in_all(reader, fs);
    lemma_reads_to_the_end(came, h, ds);
}

proof fn lemma_encoded_push(fs: Seq<FrameView>, f: FrameView)
    ensures
        encoded_all(fs.push(f)) == encoded_all(fs) + f.encoded(),
    decreases fs.len(),
{
    if fs.len() == 0 {
        assert(fs.push(f).drop_first() =~= fs);
        assert(encoded_all(fs) =~= Seq::empty());
        assert(encoded_all(fs.push(f)) =~= encoded_all(fs) + f.encoded());
    } else {
        lemma_encoded_push(fs.drop_first(), f);
        assert(fs.push(f).drop_first() =~= fs.drop_first().push(f));
        assert(encoded_all(fs.push(f)) =~= encoded_all(fs) + f.encoded());
    }
}

proof fn lemma_close_is_delivered(p: PoolView, id: StreamId, ds: Seq<Seq<u8>>)
    requires
        p.wf() && p.has(id),
        p.control(p.table[id]).state == StreamState::Open,
        total(ds) <= p.control(p.table[id]).window.recv,
    ensures
        ({
            let fs = data_frames(id, ds).push(end_frame(id));
            let c = p.control(p.table[id]);
            let after = take_in_all(p, fs);
            &&& deliveries(p, fs) == Seq::new(
                fs.len(),
                |i: int|
                    Some(
                        DeliveryView {
                            slot: p.table[id],
                            end_stream: i == ds.len(),
                            frame: fs[i],
                        },
                    ),
            )
            &&& after.wf()
            &&& after.controls.len() == p.controls.len()
            &&& after.control(p.table[id]).state == StreamState::HalfClosedRemote
            &&& after.control(p.table[id]).window.send == c.window.send
        }),
    decreases ds.len(),
{
    let end = end_frame(id);
    let fs = data_frames(id, ds).push(end);
    let expected = Seq::new(
        fs.len(),
        |i: int|
            Some(DeliveryView { slot: p.table[id], end_stream: i == ds.len(), frame: fs[i] }),
    );
    let after = take_in(p, fs[0]).0;
    let rest = ds.drop_first();
    law_flags(id, fs[0].payload);
    if ds.len() == 0 {
        assert(fs.drop_first() =~= Seq::empty());
        assert(take_in_all(after, fs.drop_first()) == after);
        assert(deliveries(after, fs.drop_first()) =~= Seq::empty());
    } else {
        lemma_close_is_delivered(after, id, rest);
        assert(fs.drop_first() =~= data_frames(id, rest).push(end));
    }
    assert(deliveries(p, fs) =~= expected);
}

proof fn lemma_reads_to_the_end(p: PoolView, s: StreamView, ds: Seq<Seq<u8>>)
    requires
        p.wf() && p.owns(s),
        p.control(s.slot).state == StreamState::HalfClosedRemote,
    ensures
        ({
            let fs = data_frames(s.id, ds).push(end_frame(s.id));
            let after = after_reads(p, s, fs);
            &&& read_in_order(p, s, fs) == joined(ds)
            &&& after.controls.len() == p.controls.len()
            &&& after.control(s.slot).state == StreamState::HalfClosedRemote
            &&& after.control(s.slot).window.send == p.control(s.slot).window.send
        }),
    decreases ds.len(),
{
    let end = end_frame(s.id);
    let fs = data_frames(s.id, ds).push(end);
    let after = p.read(s, InboundView::Frame(fs[0]), fs[0].payload.len()).0;
    let rest = ds.drop_first();
    if ds.len() == 0 {
        assert(fs.drop_first() =~= Seq::empty());
        assert(after_reads(after, s, fs.drop_first()) == after);
        assert(read_in_order(after, s, fs.drop_first()) =~= Seq::empty());
    } else {
        lemma_reads_to_the_end(after, s, rest);
        assert(fs.drop_first() =~= data_frames(s.id, rest).push(end));
    }
    assert(read_in_order(p, s, fs) =~= joined(ds));
}

/// After a shutdown nothing more can be written, but reading goes on. With
/// the other side ended as well the stream is closed.
pub proof fn law_shutdown_ends_writing(p: PoolView, s: StreamView, data: Seq<u8>)
    requires
        p.wf() && p.owns(s),
    ensures
        ({
            let after = p.shutdown(s, SendOutcome::Sent).0;
            &&& after.write(s, data) == (after, Err::<Seq<u8>, Error>(Error::NotWritable))
            &&& after.control(s.slot).state.takes_data() == p.control(s.slot).state.takes_data()
            &&& p.control(s.slot).state == StreamState::HalfClosedRemote ==> after.control(
                s.slot,
            ).state == StreamState::Closed
        }),
{
}

/// On a closed stream every operation is refused and changes nothing.
pub proof fn law_closed_stream_refuses(
    p: PoolView,
    id: StreamId,
    f: FrameView,
    event: InboundView,
    room: nat,
    data: Seq<u8>,
)
    requires
        p.wf() && p.has(id),
        p.control(p.table[id]).state == StreamState::Closed,
        f.stream_id == id && f.frame_type == FrameType::Data,
    ensures
        ({
            let h = StreamView { id, slot: p.table[id] };
            &&& p.read(h, event, room) == (p, Err::<ReadView, Error>(Error::NotReadable))
            &&& p.write(h, data) == (p, Err::<Seq<u8>, Error>(Error::NotWritable))
            &&& p.receive(f) == (p, Err::<Option<DeliveryView>, Error>(Error::DataNotReadable))
        }),
{
    assert(p.with_control(p.table[id], p.control(p.table[id])) =~= p);
}

/// A reset closes the stream at once, and is reported.
pub proof fn law_reset_closes(p: PoolView, id: StreamId, error_code: u32)
    requires
        p.wf() && p.has(id),
    ensures
        ({
            let f = rst_stream_frame(id, error_code);
            &&& decode_result(f.encoded()) == Ok::<Option<FrameView>, Error>(Some(f))
            &&& p.receive(f).1 == Err::<Option<DeliveryView>, Error>(Error::StreamReset)
            &&& p.receive(f).0.control(p.table[id]).state == StreamState::Closed
        }),
{
    let f = rst_stream_frame(id, error_code);
    law_decode_encoded(f, Seq::empty());
    assert(f.encoded() + Seq::<u8>::empty() =~= f.encoded());
}

/// Bytes that could not be queued leave the windows as they were: the same
/// write can be tried again.
pub proof fn law_write_can_be_retried(p: PoolView, s: StreamView, data: Seq<u8>)
    requires
        p.wf() && p.owns(s),
        data.len() <= usize::MAX,
    ensures
        p.write_through(s, data, SendOutcome::Full).0 == p,
{
    let c = p.control(s.slot);
    if p.write(s, data).1 is Ok {
        assert(p.write_through(s, data, SendOutcome::Full).0.controls =~= p.controls.update(
            s.slot as int,
            c,
        ));
    }
    assert(p.controls.update(s.slot as int, c) =~= p.controls);
}

/// The window update that a read sends is one that the peer accepts and adds
/// to its send window, as long as that stays within its maximum.
pub proof fn law_grant_reaches_the_peer(
    reader: PoolView,
    s: StreamView,
    f: FrameView,
    room: nat,
    peer: PoolView,
)
    requires
        reader.wf() && reader.owns(s) && peer.wf() && peer.has(s.id),
        reader.control(s.slot).state != StreamState::Closed,
        f.payload.len() <= room,
    ensures
        match reader.read(s, InboundView::Frame(f), room).1 {
            Ok(ReadView::Data { window_update: Some(bytes), .. }) => {
                let n = DEFAULT_WINDOW_SIZE - reader.control(s.slot).window.read(
                    f.payload.len(),
                ).recv;
                let c = peer.control(peer.table[s.id]);
                let g = window_update_frame(s.id, n as u32);
                &&& decode_result(bytes) == Ok::<Option<FrameView>, Error>(Some(g))
                &&& c.window.send + n <= c.window.max ==> peer.receive(g) == (
                    peer.with_control(
                        peer.table[s.id],
                        c.with_window(WindowView { send: (c.window.send + n) as nat, ..c.window }),
                    ),
                    Ok::<Option<DeliveryView>, Error>(None),
                )
            },
            Ok(ReadView::Data { window_update: None, .. }) => reader.control(s.slot).window.read(
                f.payload.len(),
            ).recv > DEFAULT_WINDOW_SIZE / 2,
            _ => false,
        },
{
    let left = reader.control(s.slot).window.read(f.payload.len()).recv;
    if left <= DEFAULT_WINDOW_SIZE / 2 {
        let n = (DEFAULT_WINDOW_SIZE - left) as u32;
        let g = window_update_frame(s.id, n);
        law_decode_encoded(g, Seq::empty());
        assert(g.encoded() + Seq::<u8>::empty() =~= g.encoded());
        law_increment(s.id, n);
    }
}

// ---------------------------------------------------------------------------
// Ids
// ---------------------------------------------------------------------------

/// The pool after `k` ids were taken.
pub open spec fn ids_taken(p: PoolView, k: nat) -> PoolView
    decreases k,
{
    if k == 0 {
        p
    } else {
        ids_taken(p, (k - 1) as nat).id_taken()
    }
}

proof fn lemma_ids(p: PoolView, k: nat)
    ensures
        ids_taken(p, k).next_id == (p.next_id + 2 * k) % 0x1_0000_0000,
    decreases k,
{
    if k > 0 {
        lemma_ids(p, (k - 1) as nat);
    }
}

/// The ids of a connection are the odd ones if it starts at an odd one, the
/// even ones otherwise; each is at most 2^31 - 1; and none comes twice within
/// 2^31 takings.
pub proof fn law_ids_are_new(p: PoolView, i: nat, j: nat)
    requires
        i < j < i + 0x8000_0000,
    ensures
        ids_taken(p, i).id_offer() matches Some(a) ==> a % 2 == p.next_id % 2 && a
            <= MAX_STREAM_ID,
        ids_taken(p, i).id_offer() is Some ==> ids_taken(p, i).id_offer() != ids_taken(
            p,
            j,
        ).id_offer(),
{
    lemma_ids(p, i);
    lemma_ids(p, j);
}

/// Two ends of which one starts at an odd id and the other at an even one
/// never open a stream under the same id.
pub proof fn law_ends_do_not_collide(here: PoolView, there: PoolView, i: nat, j: nat)
    requires
        here.next_id % 2 != there.next_id % 2,
    ensures
        ids_taken(here, i).id_offer() is Some ==> ids_taken(here, i).id_offer() != ids_taken(
            there,
            j,
        ).id_offer(),
{
    lemma_ids(here, i);
    lemma_ids(there, j);
}

/// The client end and the server end of a connection never open a stream under
/// the same id.
pub proof fn law_client_and_server_do_not_collide<W, V>(i: nat, j: nat)
    ensures
        ({
            let client = ids_taken(ConnectionView::<W>::initial().pool, i).id_offer();
            let server = ids_taken(ConnectionView::<V>::initial_server().pool, j).id_offer();
            client is Some || server is Some ==> client != server
        }),
{
    law_ends_do_not_collide(
        ConnectionView::<W>::initial().pool,
        ConnectionView::<V>::initial_server().pool,
        i,
        j,
    );
}

/// The streams that a new client end opens are 1, 3, 5 and so on, and those
/// that a new server end opens are 2, 4, 6 and so on, up to the largest id.
pub proof fn law_first_ids<W>(k: nat)
    ensures
        1 + 2 * k <= MAX_STREAM_ID ==> ids_taken(
            ConnectionView::<W>::initial().pool,
            k,
        ).id_offer() == Some((1 + 2 * k) as u32),
        2 + 2 * k <= MAX_STREAM_ID ==> ids_taken(
            ConnectionView::<W>::initial_server().pool,
            k,
        ).id_offer() == Some((2 + 2 * k) as u32),
{
    lemma_ids(ConnectionView::<W>::initial().pool, k);
    lemma_ids(ConnectionView::<W>::initial_server().pool, k);
}

/// A stream that was just opened is open, with full windows, and its id leads
/// to it; nothing else changes.
pub proof fn law_opened_stream_is_open<W>(c: ConnectionView<W>)
    requires
        c.wf(),
        c.pool.controls.len() < usize::MAX,
        c.pool.id_offer() is Some,
    ensures
        ({
            let (after, r) = c.open();
            &&& r matches Ok(s) && after.pool.owns(s) && after.pool.has(s.id)
                && after.pool.table[s.id] == s.slot && after.pool.control(s.slot)
                == ControlView::initial() && (forall|slot: usize|
                slot < c.pool.controls.len() ==> #[trigger] after.pool.control(slot)
                    == c.pool.control(slot))
            &&& after.wf()
            &&& after.pending == c.pending
        }),
{
}

// ---------------------------------------------------------------------------
// The connection
// ---------------------------------------------------------------------------

/// A ping that is sent is answered by the other end, and the answer reaches
/// the ping that waits for it. Then the next ping can start.
pub proof fn law_ping_is_answered<W, V>(
    here: ConnectionView<W>,
    there: ConnectionView<V>,
    payload: Seq<u8>,
    waiter: W,
    next: W,
)
    requires
        payload.len() == 8,
        here.pool.has(0) && there.pool.has(0),
        here.pending is None,
    ensures
        ({
            let (waiting, sent) = here.ping(payload, waiter);
            let ping = ping_frame(payload);
            let pong = pong_frame(payload);
            &&& sent == Ok::<Seq<u8>, Error>(ping.encoded())
            &&& decode_result(ping.encoded()) == Ok::<Option<FrameView>, Error>(Some(ping))
            &&& there.frame(ping) == (
                there,
                Ok::<StepView<V>, Error>(StepView::Pong(pong.encoded())),
            )
            &&& decode_result(pong.encoded()) == Ok::<Option<FrameView>, Error>(Some(pong))
            &&& waiting.frame(pong) == (
                here,
                Ok::<StepView<W>, Error>(StepView::PingAnswered(waiter)),
            )
            &&& waiting.ping(payload, next) == (
                waiting,
                Err::<Seq<u8>, Error>(Error::PingInProgress),
            )
        }),
{
    let ping = ping_frame(payload);
    let pong = pong_frame(payload);
    law_decode_encoded(ping, Seq::empty());
    law_decode_encoded(pong, Seq::empty());
    assert(ping.encoded() + Seq::<u8>::empty() =~= ping.encoded());
    assert(pong.encoded() + Seq::<u8>::empty() =~= pong.encoded());
    law_flags(0, payload);
    assert(payload.take(8) =~= payload);
}

/// The input may end between two frames, and nowhere else.
pub proof fn law_end_of_input(fs: Seq<FrameView>, last: FrameView, k: int)
    requires
        forall|i: int| 0 <= i < fs.len() ==> (#[trigger] fs[i]).fits(),
        last.fits(),
        0 < k < last.encoded().len(),
    ensures
        read_step(decoded_rest(encoded_all(fs)), Some(0)) == Ok::<ReadStepView, Error>(
            ReadStepView::EndOfInput,
        ),
        read_step(decoded_rest(encoded_all(fs) + last.encoded().take(k)), Some(0)) == Err::<
            ReadStepView,
            Error,
        >(Error::MidFrame),
{
    let cut = last.encoded().take(k);
    law_decode_all(fs);
    law_decode_pieces(encoded_all(fs), cut);
    law_partial_frame(last, k);
    assert(Seq::<u8>::empty() + cut =~= cut);
}

/// An answer that nobody waits for, a farewell and settings change nothing.
pub proof fn law_idle_frames<W>(c: ConnectionView<W>, f: FrameView)
    requires
        f.stream_id == 0,
        f.frame_type == FrameType::GoAway || f.frame_type == FrameType::Settings || (f.frame_type
            == FrameType::Ping && f.ack() && c.pending is None),
    ensures
        c.frame(f) == (c, Ok::<StepView<W>, Error>(StepView::Done)),
{
}

/// A frame that is refused leaves the connection as it was, except that a
/// reset closes its stream.
pub proof fn law_refused_frame_changes_nothing<W>(c: ConnectionView<W>, f: FrameView)
    requires
        c.wf(),
        c.frame(f).1 matches Err(e) && e != Error::StreamReset,
    ensures
        c.frame(f).0 == c,
{
    if c.pool.has(f.stream_id) {
        let slot = c.pool.table[f.stream_id];
        assert(c.pool.with_control(slot, c.pool.control(slot)) =~= c.pool);
    }
}

/// The control stream is there from the start, and no frame of the peer takes
/// it, or any other stream, away.
pub proof fn law_streams_stay<W>(c: ConnectionView<W>, f: FrameView, id: StreamId)
    requires
        c.wf(),
        c.pool.has(id),
    ensures
        ConnectionView::<W>::initial().pool.has(0),
        ConnectionView::<W>::initial_server().pool.has(0),
        c.frame(f).0.pool.has(id),
        c.frame(f).0.pool.table[id] == c.pool.table[id],
{
}

/// The farewell of a connection is a frame that the other end takes in.
pub proof fn law_farewell<W>(there: ConnectionView<W>)
    ensures
        ({
            let f = go_away_frame(0, 0);
            &&& decode_result(f.encoded()) == Ok::<Option<FrameView>, Error>(Some(f))
            &&& there.frame(f) == (there, Ok::<StepView<W>, Error>(StepView::Done))
        }),
{
    let f = go_away_frame(0, 0);
    law_decode_encoded(f, Seq::empty());
    assert(f.encoded() + Seq::<u8>::empty() =~= f.encoded());
}

} // verus!
