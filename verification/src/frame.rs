//! The frames of the multiplexing protocol.

use crate::buffer::{buffer_contents, bytes_contents};
use crate::error::Error;
use crate::stream::StreamId;
use crate::wire::{
    after_first, be32, complete, complete_length, encode_parts, first_length, first_parts,
    frame_bytes, law_lay_out_again, law_no_look_ahead, law_partial_frame_waits, law_read_back,
    lemma_bytes_of_value32, lemma_value_of_bytes32, take_frame, u32_at, u32_bytes, value32, Parts,
    HEADER_LENGTH, LENGTH_MODULUS,
};
use bytes::{Bytes, BytesMut};
use vstd::prelude::*;

verus! {

/// What a frame is for.
#[derive(Debug, Clone, Copy, PartialEq, Eq, Structural)]
pub enum FrameType {
    Data,
    Ping,
    GoAway,
    WindowUpdate,
    Settings,
    RstStream,
}

/// Flag of the last frame that a side sends on a stream.
pub const FLAG_END_STREAM: u8 = 0x1;

/// Flag of a frame that answers another one.
pub const FLAG_ACK: u8 = 0x2;

/// The byte that stands for a frame type.
pub open spec fn type_code(t: FrameType) -> u8 {
    match t {
        FrameType::Data => 0,
        FrameType::Ping => 1,
        FrameType::GoAway => 2,
        FrameType::WindowUpdate => 3,
        FrameType::Settings => 4,
        FrameType::RstStream => 5,
    }
}

/// The frame type that a byte stands for.
pub open spec fn type_of_code(code: u8) -> Result<FrameType, Error> {
    match code {
        0 => Ok(FrameType::Data),
        1 => Ok(FrameType::Ping),
        2 => Ok(FrameType::GoAway),
        3 => Ok(FrameType::WindowUpdate),
        4 => Ok(FrameType::Settings),
        5 => Ok(FrameType::RstStream),
        _ => Err(Error::UnknownFrameType(code)),
    }
}

impl TryFrom<u8> for FrameType {
    type Error = Error;

    fn try_from(value: u8) -> (r: Result<Self, Error>) {
        match value {
            0 => Ok(FrameType::Data),
            1 => Ok(FrameType::Ping),
            2 => Ok(FrameType::GoAway),
            3 => Ok(FrameType::WindowUpdate),
            4 => Ok(FrameType::Settings),
            5 => Ok(FrameType::RstStream),
            _ => Err(Error::UnknownFrameType(value)),
        }
    }
}

impl vstd::std_specs::convert::TryFromSpecImpl<u8> for FrameType {
    open spec fn obeys_try_from_spec() -> bool {
        true
    }

    open spec fn try_from_spec(value: u8) -> Result<Self, Error> {
        type_of_code(value)
    }
}

impl From<FrameType> for u8 {
    fn from(frame_type: FrameType) -> (r: u8) {
        match frame_type {
            FrameType::Data => 0,
            FrameType::Ping => 1,
            FrameType::GoAway => 2,
            FrameType::WindowUpdate => 3,
            FrameType::Settings => 4,
            FrameType::RstStream => 5,
        }
    }
}

impl vstd::std_specs::convert::FromSpecImpl<FrameType> for u8 {
    open spec fn obeys_from_spec() -> bool {
        true
    }

    open spec fn from_spec(frame_type: FrameType) -> u8 {
        type_code(frame_type)
    }
}

/// One frame.
#[derive(Debug)]
pub struct Frame {
    pub frame_type: FrameType,
    pub flags: u8,
    pub stream_id: StreamId,
    pub payload: Bytes,
}

/// What a frame says.
#[verifier::ext_equal]
pub struct FrameView {
    pub frame_type: FrameType,
    pub flags: u8,
    pub stream_id: StreamId,
    pub payload: Seq<u8>,
}

impl View for Frame {
    type V = FrameView;

    open spec fn view(&self) -> FrameView {
        FrameView {
            frame_type: self.frame_type,
            flags: self.flags,
            stream_id: self.stream_id,
            payload: bytes_contents(self.payload),
        }
    }
}

impl FrameView {
    /// What the frame says, by its bytes.
    pub open spec fn parts(self) -> Parts {
        Parts {
            code: type_code(self.frame_type),
            flags: self.flags,
            stream_id: self.stream_id,
            payload: self.payload,
        }
    }

    /// The bytes that the frame is sent as.
    pub open spec fn encoded(self) -> Seq<u8> {
        frame_bytes(self.parts())
    }

    /// Whether the length field can hold the length of the payload.
    pub open spec fn fits(self) -> bool {
        self.payload.len() < LENGTH_MODULUS
    }

    /// Whether the frame is the last one of its sender on its stream.
    pub open spec fn end_stream(self) -> bool {
        self.flags % 2 == 1
    }

    /// Whether the frame answers another one.
    pub open spec fn ack(self) -> bool {
        (self.flags / 2) % 2 == 1
    }

    /// The number of bytes that a window update grants.
    pub open spec fn increment(self) -> Result<u32, Error> {
        if self.frame_type != FrameType::WindowUpdate {
            Err(Error::NotWindowUpdate)
        } else if self.payload.len() != 4 {
            Err(Error::WindowUpdateLength)
        } else if value32(self.payload, 0) == 0 {
            Err(Error::WindowUpdateZero)
        } else {
            Ok(value32(self.payload, 0) as u32)
        }
    }
}

/// A frame that says these things.
pub open spec fn frame_of(
    frame_type: FrameType,
    flags: u8,
    stream_id: StreamId,
    payload: Seq<u8>,
) -> FrameView {
    FrameView { frame_type, flags, stream_id, payload }
}

/// A frame that carries data.
pub open spec fn data_frame(stream_id: StreamId, payload: Seq<u8>) -> FrameView {
    FrameView { frame_type: FrameType::Data, flags: 0, stream_id, payload }
}

/// The frame that ends a stream.
pub open spec fn end_frame(stream_id: StreamId) -> FrameView {
    FrameView {
        frame_type: FrameType::Data,
        flags: FLAG_END_STREAM,
        stream_id,
        payload: Seq::empty(),
    }
}

/// A frame that grants the peer more window.
pub open spec fn window_update_frame(stream_id: StreamId, increment: u32) -> FrameView {
    FrameView {
        frame_type: FrameType::WindowUpdate,
        flags: 0,
        stream_id,
        payload: be32(increment as int),
    }
}

/// A ping.
pub open spec fn ping_frame(payload: Seq<u8>) -> FrameView {
    FrameView { frame_type: FrameType::Ping, flags: 0, stream_id: 0, payload }
}

/// The answer to a ping.
pub open spec fn pong_frame(payload: Seq<u8>) -> FrameView {
    FrameView { frame_type: FrameType::Ping, flags: FLAG_ACK, stream_id: 0, payload }
}

/// The farewell of a connection.
pub open spec fn go_away_frame(last_stream_id: StreamId, error_code: u32) -> FrameView {
    FrameView {
        frame_type: FrameType::GoAway,
        flags: 0,
        stream_id: 0,
        payload: be32(last_stream_id as int) + be32(error_code as int),
    }
}

/// A frame that tears a stream down.
pub open spec fn rst_stream_frame(stream_id: StreamId, error_code: u32) -> FrameView {
    FrameView {
        frame_type: FrameType::RstStream,
        flags: 0,
        stream_id,
        payload: be32(error_code as int),
    }
}

/// What reading the front of `b` gives: nothing yet, a frame, or a failure.
pub open spec fn decode_result(b: Seq<u8>) -> Result<Option<FrameView>, Error> {
    if !complete(b) {
        Ok(None)
    } else {
        let p = first_parts(b);
        match type_of_code(p.code) {
            Err(e) => Err(e),
            Ok(frame_type) => Ok(
                Some(
                    FrameView {
                        frame_type,
                        flags: p.flags,
                        stream_id: p.stream_id,
                        payload: p.payload,
                    },
                ),
            ),
        }
    }
}

/// What reading the front of `b` leaves: only a frame that was read is gone.
pub open spec fn decode_rest(b: Seq<u8>) -> Seq<u8> {
    if decode_result(b) matches Ok(Some(_)) {
        after_first(b)
    } else {
        b
    }
}

/// Every frame that reading `b` again and again gives, up to the first
/// failure or partial frame.
pub open spec fn decoded(b: Seq<u8>) -> Seq<FrameView>
    decreases b.len(),
{
    match decode_result(b) {
        Ok(Some(f)) => seq![f] + decoded(after_first(b)),
        _ => Seq::empty(),
    }
}

/// What is left in the end of reading `b` again and again.
pub open spec fn decoded_rest(b: Seq<u8>) -> Seq<u8>
    decreases b.len(),
{
    match decode_result(b) {
        Ok(Some(f)) => decoded_rest(after_first(b)),
        _ => b,
    }
}

/// The bytes of several frames, one after the other.
pub open spec fn encoded_all(fs: Seq<FrameView>) -> Seq<u8>
    decreases fs.len(),
{
    if fs.len() == 0 {
        Seq::empty()
    } else {
        fs[0].encoded() + encoded_all(fs.drop_first())
    }
}

/// The outcome of reading a frame, by what it says.
pub open spec fn frame_outcome(r: Result<Option<Frame>, Error>) -> Result<
    Option<FrameView>,
    Error,
> {
    match r {
        Ok(Some(f)) => Ok(Some(f@)),
        Ok(None) => Ok(None),
        Err(e) => Err(e),
    }
}

impl Frame {
    /// The number of bytes before the payload.
    pub const HEADER_LENGTH: usize = 9;

    pub fn new(frame_type: FrameType, flags: u8, stream_id: StreamId, payload: Bytes) -> (r: Self)
        ensures
            r.frame_type == frame_type,
            r.flags == flags,
            r.stream_id == stream_id,
            r.payload == payload,
            r@ == frame_of(frame_type, flags, stream_id, bytes_contents(payload)),
    {
        Frame { frame_type, flags, stream_id, payload }
    }

    /// A frame that carries data.
    pub fn with_data_payload(stream_id: StreamId, payload: Bytes) -> (r: Self)
        ensures
            r@ == data_frame(stream_id, bytes_contents(payload)),
            r.payload == payload,
    {
        Self::new(FrameType::Data, 0, stream_id, payload)
    }

    /// A frame that grants the peer `increment` more bytes of window.
    pub fn window_update(stream_id: StreamId, increment: u32) -> (r: Self)
        ensures
            r@ == window_update_frame(stream_id, increment),
    {
        let mut payload = BytesMut::with_capacity(4);
        let bytes: [u8; 4] = u32_bytes(increment);
        payload.extend_from_slice(&bytes);
        assert(buffer_contents(payload) =~= be32(increment as int));
        Self::new(FrameType::WindowUpdate, 0, stream_id, payload.freeze())
    }

    /// A ping with an opaque payload.
    pub fn ping(payload: [u8; 8]) -> (r: Self)
        ensures
            r@ == ping_frame(payload@),
    {
        Self::new(FrameType::Ping, 0, 0, Bytes::copy_from_slice(&payload))
    }

    /// The answer to the ping with that payload.
    pub fn ping_ack(payload: [u8; 8]) -> (r: Self)
        ensures
            r@ == pong_frame(payload@),
    {
        Self::new(FrameType::Ping, FLAG_ACK, 0, Bytes::copy_from_slice(&payload))
    }

    /// The farewell of a connection.
    pub fn go_away(last_stream_id: StreamId, error_code: u32) -> (r: Self)
        ensures
            r@ == go_away_frame(last_stream_id, error_code),
    {
        let mut payload = BytesMut::with_capacity(8);
        let id: [u8; 4] = u32_bytes(last_stream_id);
        let code: [u8; 4] = u32_bytes(error_code);
        payload.extend_from_slice(&id);
        payload.extend_from_slice(&code);
        assert(buffer_contents(payload) =~= be32(last_stream_id as int) + be32(error_code as int));
        Self::new(FrameType::GoAway, 0, 0, payload.freeze())
    }

    /// A frame that tears a stream down.
    pub fn rst_stream(stream_id: StreamId, error_code: u32) -> (r: Self)
        ensures
            r@ == rst_stream_frame(stream_id, error_code),
    {
        let mut payload = BytesMut::with_capacity(4);
        let code: [u8; 4] = u32_bytes(error_code);
        payload.extend_from_slice(&code);
        assert(buffer_contents(payload) =~= be32(error_code as int));
        Self::new(FrameType::RstStream, 0, stream_id, payload.freeze())
    }

    /// The bytes to send for the frame. A payload of more bytes than the
    /// length field can count is still sent whole, behind a length that is
    /// cut to 24 bits.
    pub fn encode(&self) -> (r: Bytes)
        requires
            self@.payload.len() + HEADER_LENGTH <= isize::MAX,
        ensures
            bytes_contents(r) == self@.encoded(),
    {
        encode_parts(u8::from(self.frame_type), self.flags, self.stream_id, &self.payload)
    }

    /// Reads one frame off the front of the buffer. `None` means that the
    /// frame is not all there yet. Unless a frame comes back the buffer stays
    /// as it is.
    pub fn decode(buf: &mut BytesMut) -> (r: Result<Option<Frame>, Error>)
        ensures
            frame_outcome(r) == decode_result(buffer_contents(*old(buf))),
            buffer_contents(*final(buf)) == decode_rest(buffer_contents(*old(buf))),
    {
        let length: usize = match complete_length(buf) {
            Some(length) => length,
            None => return Ok(None),
        };
        let frame_type = match FrameType::try_from(buf[3]) {
            Ok(frame_type) => frame_type,
            Err(e) => return Err(e),
        };
        let (flags, stream_id, payload) = take_frame(buf, length);
        Ok(Some(Frame { frame_type, flags, stream_id, payload }))
    }

    /// Whether the frame speaks of the connection, not of one stream.
    pub fn is_connection_control(&self) -> (r: bool)
        ensures
            r == (self.stream_id == 0),
    {
        self.stream_id == 0
    }

    /// The number of bytes that a window update grants.
    pub fn window_update_increment(&self) -> (r: Result<u32, Error>)
        ensures
            r == self@.increment(),
    {
        if self.frame_type != FrameType::WindowUpdate {
            return Err(Error::NotWindowUpdate);
        }
        if self.payload.len() != 4 {
            return Err(Error::WindowUpdateLength);
        }
        let increment: u32 = u32_at(&self.payload, 0);
        if increment == 0 {
            return Err(Error::WindowUpdateZero);
        }
        Ok(increment)
    }

    /// Whether the frame is the last one of its sender on its stream.
    pub fn is_end_stream(&self) -> (r: bool)
        ensures
            r == self@.end_stream(),
    {
        let flags: u8 = self.flags;
        assert((flags & 0x1 != 0) == (flags % 2 == 1)) by (bit_vector);
        flags & FLAG_END_STREAM != 0
    }

    /// Whether the frame answers another one.
    pub fn is_ack(&self) -> (r: bool)
        ensures
            r == self@.ack(),
    {
        let flags: u8 = self.flags;
        assert((flags & 0x2 != 0) == ((flags / 2) % 2 == 1)) by (bit_vector);
        flags & FLAG_ACK != 0
    }
}

/// Each frame type has a byte of its own, and only those bytes have a type.
pub proof fn law_type_codes(t: FrameType, code: u8)
    ensures
        type_of_code(type_code(t)) == Ok::<FrameType, Error>(t),
        type_of_code(code) == Ok::<FrameType, Error>(t) ==> type_code(t) == code,
        type_of_code(code) is Ok <==> code <= 5,
{
}

/// A frame that was sent is read as the same frame, and only its own bytes
/// are used up.
pub proof fn law_decode_encoded(f: FrameView, rest: Seq<u8>)
    requires
        f.fits(),
    ensures
        decode_result(f.encoded() + rest) == Ok::<Option<FrameView>, Error>(Some(f)),
        decode_rest(f.encoded() + rest) == rest,
{
    law_read_back(f.parts(), rest);
}

/// The bytes that a frame was read from are the ones it is sent as.
pub proof fn law_encode_decoded(b: Seq<u8>, f: FrameView)
    requires
        decode_result(b) == Ok::<Option<FrameView>, Error>(Some(f)),
    ensures
        f.encoded() + decode_rest(b) == b,
        f.fits(),
{
    law_lay_out_again(b);
    assert(f.parts() =~= first_parts(b));
    assert(b.take(first_length(b)) + after_first(b) =~= b);
}

/// A frame is not seen before its last byte has come.
pub proof fn law_partial_frame(f: FrameView, k: int)
    requires
        f.fits(),
        0 <= k < f.encoded().len(),
    ensures
        decode_result(f.encoded().take(k)) == Ok::<Option<FrameView>, Error>(None),
        decode_rest(f.encoded().take(k)) == f.encoded().take(k),
{
    law_partial_frame_waits(f.parts(), k);
}

/// A frame of an unknown type is refused, and stays in the buffer.
pub proof fn law_unknown_type(p: Parts, rest: Seq<u8>)
    requires
        p.payload.len() < LENGTH_MODULUS,
        p.code > 5,
    ensures
        decode_result(frame_bytes(p) + rest) == Err::<Option<FrameView>, Error>(
            Error::UnknownFrameType(p.code),
        ),
        decode_rest(frame_bytes(p) + rest) == frame_bytes(p) + rest,
{
    law_read_back(p, rest);
}

/// Frames that were sent one after the other are read one after the other,
/// and nothing is left over.
pub proof fn law_decode_all(fs: Seq<FrameView>)
    requires
        forall|i: int| 0 <= i < fs.len() ==> (#[trigger] fs[i]).fits(),
    ensures
        decoded(encoded_all(fs)) == fs,
        decoded_rest(encoded_all(fs)) == Seq::<u8>::empty(),
    decreases fs.len(),
{
    if fs.len() == 0 {
        assert(decoded(encoded_all(fs)) =~= fs);
    } else {
        law_decode_encoded(fs[0], encoded_all(fs.drop_first()));
        law_decode_all(fs.drop_first());
        assert(decoded(encoded_all(fs)) =~= fs);
    }
}

/// Where the transport cuts the bytes into pieces makes no difference.
pub proof fn law_decode_pieces(b: Seq<u8>, more: Seq<u8>)
    ensures
        decoded(b + more) == decoded(b) + decoded(decoded_rest(b) + more),
        decoded_rest(b + more) == decoded_rest(decoded_rest(b) + more),
    decreases b.len(),
{
    match decode_result(b) {
        Ok(Some(f)) => {
            law_no_look_ahead(b, more);
            law_decode_pieces(after_first(b), more);
        },
        _ => {},
    }
    assert(decoded(b + more) =~= decoded(b) + decoded(decoded_rest(b) + more));
}

/// What a window update was made with is read out of it, unless it is zero,
/// which is refused.
pub proof fn law_increment(stream_id: StreamId, increment: u32)
    ensures
        increment != 0 ==> window_update_frame(stream_id, increment).increment() == Ok::<
            u32,
            Error,
        >(increment),
        window_update_frame(stream_id, 0).increment() == Err::<u32, Error>(Error::WindowUpdateZero),
{
    lemma_value_of_bytes32(increment as int);
    lemma_value_of_bytes32(0);
}

/// Only the answer to a ping is an answer, and only the end frame ends a
/// stream.
pub proof fn law_flags(stream_id: StreamId, payload: Seq<u8>)
    ensures
        !ping_frame(payload).ack(),
        pong_frame(payload).ack(),
        !data_frame(stream_id, payload).end_stream(),
        end_frame(stream_id).end_stream(),
{
}

/// Bytes are read as a frame exactly if they start with what that frame is sent
/// as, and then those bytes are used up and no others.
pub proof fn law_decode_is_exact(b: Seq<u8>, f: FrameView)
    ensures
        decode_result(b) == Ok::<Option<FrameView>, Error>(Some(f)) <==> f.fits()
            && f.encoded().len() <= b.len() && b.take(f.encoded().len() as int) == f.encoded(),
        decode_result(b) == Ok::<Option<FrameView>, Error>(Some(f)) ==> decode_rest(b) == b.skip(
            f.encoded().len() as int,
        ),
{
    let n = f.encoded().len() as int;
    if f.fits() && n <= b.len() && b.take(n) == f.encoded() {
        assert(f.encoded() + b.skip(n) =~= b);
        law_decode_encoded(f, b.skip(n));
    }
    if decode_result(b) == Ok::<Option<FrameView>, Error>(Some(f)) {
        law_encode_decoded(b, f);
        assert(b.take(n) =~= f.encoded());
        assert(b.skip(n) =~= decode_rest(b));
    }
}

/// Reading waits exactly while the header, or what the header announces, is not
/// all there; a frame that is all there is refused exactly if no type has its
/// type byte. Either way the bytes stay.
pub proof fn law_decode_waits_or_refuses(b: Seq<u8>)
    ensures
        ({
            let whole = b.len() >= 9 && b.len() >= 9 + b[0] * 65_536 + b[1] * 256 + b[2];
            &&& decode_result(b) == Ok::<Option<FrameView>, Error>(None) <==> !whole
            &&& decode_result(b) is Err <==> whole && b[3] > 5
            &&& decode_result(b) matches Err(e) ==> e == Error::UnknownFrameType(b[3])
            &&& !(decode_result(b) matches Ok(Some(_))) ==> decode_rest(b) == b
        }),
{
}

/// The byte of each frame type.
pub proof fn law_type_bytes()
    ensures
        type_code(FrameType::Data) == 0,
        type_code(FrameType::Ping) == 1,
        type_code(FrameType::GoAway) == 2,
        type_code(FrameType::WindowUpdate) == 3,
        type_code(FrameType::Settings) == 4,
        type_code(FrameType::RstStream) == 5,
{
}

/// A frame is laid out with the byte of its type and everything else that it
/// says.
pub proof fn law_parts(f: FrameView)
    ensures
        f.parts().code == type_code(f.frame_type),
        f.parts().flags == f.flags,
        f.parts().stream_id == f.stream_id,
        f.parts().payload == f.payload,
        f.encoded() == frame_bytes(f.parts()),
        f.fits() <==> f.payload.len() < 16_777_216,
{
}

/// The last bit of the flags ends a stream and the one before it marks an
/// answer, whatever the other bits are.
pub proof fn law_flag_bits(f: FrameView)
    ensures
        f.end_stream() <==> f.flags & 0x1 == 0x1,
        f.ack() <==> f.flags & 0x2 == 0x2,
{
    let flags = f.flags;
    assert((flags & 0x1 == 0x1) == (flags % 2 == 1)) by (bit_vector);
    assert((flags & 0x2 == 0x2) == ((flags / 2) % 2 == 1)) by (bit_vector);
}

/// What each kind of frame is made of.
pub proof fn law_frame_fields(
    frame_type: FrameType,
    flags: u8,
    id: StreamId,
    payload: Seq<u8>,
    n: u32,
)
    ensures
        ({
            let f = frame_of(frame_type, flags, id, payload);
            f.frame_type == frame_type && f.flags == flags && f.stream_id == id && f.payload
                == payload
        }),
        ({
            let f = data_frame(id, payload);
            f.frame_type == FrameType::Data && f.flags == 0 && f.stream_id == id && f.payload
                == payload
        }),
        ({
            let f = end_frame(id);
            f.frame_type == FrameType::Data && f.flags == 0x1 && f.stream_id == id
                && f.payload.len() == 0
        }),
        ({
            let f = ping_frame(payload);
            f.frame_type == FrameType::Ping && f.flags == 0 && f.stream_id == 0 && f.payload
                == payload
        }),
        ({
            let f = pong_frame(payload);
            f.frame_type == FrameType::Ping && f.flags == 0x2 && f.stream_id == 0 && f.payload
                == payload
        }),
        ({
            let f = window_update_frame(id, n);
            f.frame_type == FrameType::WindowUpdate && f.flags == 0 && f.stream_id == id
                && f.payload == be32(n as int)
        }),
        ({
            let f = go_away_frame(id, n);
            f.frame_type == FrameType::GoAway && f.flags == 0 && f.stream_id == 0 && f.payload
                == be32(id as int) + be32(n as int)
        }),
        ({
            let f = rst_stream_frame(id, n);
            f.frame_type == FrameType::RstStream && f.flags == 0 && f.stream_id == id && f.payload
                == be32(n as int)
        }),
{
}

/// A frame grants `n` bytes exactly if it is a window update whose payload is
/// the four bytes of `n`, and `n` is not zero. Of any other frame the failure
/// says what is wrong with it, its type before its length before its value.
pub proof fn law_increment_is_exact(f: FrameView, n: u32)
    ensures
        f.increment() == Ok::<u32, Error>(n) <==> f.frame_type == FrameType::WindowUpdate
            && f.payload == be32(n as int) && n != 0,
        f.increment() == Err::<u32, Error>(Error::NotWindowUpdate) <==> f.frame_type
            != FrameType::WindowUpdate,
        f.increment() == Err::<u32, Error>(Error::WindowUpdateLength) <==> f.frame_type
            == FrameType::WindowUpdate && f.payload.len() != 4,
        f.increment() == Err::<u32, Error>(Error::WindowUpdateZero) <==> f.frame_type
            == FrameType::WindowUpdate && f.payload == seq![0u8, 0u8, 0u8, 0u8],
        f.increment() matches Err(e) ==> e == Error::NotWindowUpdate || e
            == Error::WindowUpdateLength || e == Error::WindowUpdateZero,
{
    lemma_value_of_bytes32(n as int);
    let p = f.payload;
    if p.len() == 4 {
        lemma_bytes_of_value32(p[0], p[1], p[2], p[3]);
        assert(p =~= seq![p[0], p[1], p[2], p[3]]);
        assert(be32(value32(p, 0)) == p);
        assert(be32(0) =~= seq![0u8, 0u8, 0u8, 0u8]);
    }
}

/// What came of reading a frame is told as it is.
pub proof fn law_frame_outcome(r: Result<Option<Frame>, Error>)
    ensures
        r matches Ok(Some(f)) ==> frame_outcome(r) == Ok::<Option<FrameView>, Error>(Some(f@)),
        r matches Ok(None) ==> frame_outcome(r) == Ok::<Option<FrameView>, Error>(None),
        r matches Err(e) ==> frame_outcome(r) == Err::<Option<FrameView>, Error>(e),
        r matches Ok(Some(f)) ==> f@.frame_type == f.frame_type && f@.flags == f.flags
            && f@.stream_id == f.stream_id && f@.payload == bytes_contents(f.payload),
{
}

} // verus!
