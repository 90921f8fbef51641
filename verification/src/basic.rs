//! A smaller set of frames on the same layout, without flow control.

use crate::buffer::{buffer_contents, bytes_contents};
use crate::error::Error;
use crate::wire::{
    after_first, complete, complete_length, encode_parts, first_length, first_parts, frame_bytes,
    law_lay_out_again, law_no_look_ahead, law_partial_frame_waits, law_read_back, take_frame,
    Parts, HEADER_LENGTH, LENGTH_MODULUS,
};
use bytes::{Bytes, BytesMut};
use vstd::prelude::*;

verus! {

/// What a frame is for.
#[derive(Debug, Clone, Copy, PartialEq, Eq, Structural)]
pub enum FrameType {
    Data,
    Ping,
    Headers,
    GoAway,
}

/// The byte that stands for a frame type.
pub open spec fn type_code(t: FrameType) -> u8 {
    match t {
        FrameType::Data => 0,
        FrameType::Ping => 1,
        FrameType::Headers => 2,
        FrameType::GoAway => 3,
    }
}

/// The frame type that a byte stands for.
pub open spec fn type_of_code(code: u8) -> Result<FrameType, Error> {
    match code {
        0 => Ok(FrameType::Data),
        1 => Ok(FrameType::Ping),
        2 => Ok(FrameType::Headers),
        3 => Ok(FrameType::GoAway),
        _ => Err(Error::UnknownFrameType(code)),
    }
}

impl TryFrom<u8> for FrameType {
    type Error = Error;

    fn try_from(value: u8) -> (r: Result<Self, Error>) {
        match value {
            0 => Ok(FrameType::Data),
            1 => Ok(FrameType::Ping),
            2 => Ok(FrameType::Headers),
            3 => Ok(FrameType::GoAway),
            _ => Err(Error::UnknownFrameType(value)),
        }
    }
}

impl vstd::std_specs::convert::TryFromSpecImpl<u8> for FrameType {
    open spec fn obeys_try_from_spec() -> bool {
        true
    }

    open spec fn try_from_spec(value: u8) -> Result<Self, Error> {
        type_of_code(value)
    }
}

impl From<FrameType> for u8 {
    fn from(frame_type: FrameType) -> (r: u8) {
        match frame_type {
            FrameType::Data => 0,
            FrameType::Ping => 1,
            FrameType::Headers => 2,
            FrameType::GoAway => 3,
        }
    }
}

impl vstd::std_specs::convert::FromSpecImpl<FrameType> for u8 {
    open spec fn obeys_from_spec() -> bool {
        true
    }

    open spec fn from_spec(frame_type: FrameType) -> u8 {
        type_code(frame_type)
    }
}

/// One frame.
#[derive(Debug)]
pub struct Frame {
    pub stream_id: u32,
    pub frame_type: FrameType,
    pub flags: u8,
    pub payload: Bytes,
}

/// What a frame says.
#[verifier::ext_equal]
pub struct FrameView {
    pub stream_id: u32,
    pub frame_type: FrameType,
    pub flags: u8,
    pub payload: Seq<u8>,
}

impl View for Frame {
    type V = FrameView;

    open spec fn view(&self) -> FrameView {
        FrameView {
            stream_id: self.stream_id,
            frame_type: self.frame_type,
            flags: self.flags,
            payload: bytes_contents(self.payload),
        }
    }
}

impl FrameView {
    /// What the frame says, by its bytes.
    pub open spec fn parts(self) -> Parts {
        Parts {
            code: type_code(self.frame_type),
            flags: self.flags,
            stream_id: self.stream_id,
            payload: self.payload,
        }
    }

    /// The bytes that the frame is sent as.
    pub open spec fn encoded(self) -> Seq<u8> {
        frame_bytes(self.parts())
    }

    /// Whether the length field can hold the length of the payload.
    pub open spec fn fits(self) -> bool {
        self.payload.len() < LENGTH_MODULUS
    }
}

/// What reading the front of `b` gives: nothing yet, a frame, or a failure.
pub open spec fn decode_result(b: Seq<u8>) -> Result<Option<FrameView>, Error> {
    if !complete(b) {
        Ok(None)
    } else {
        let p = first_parts(b);
        match type_of_code(p.code) {
            Err(e) => Err(e),
            Ok(frame_type) => Ok(
                Some(
                    FrameView {
                        stream_id: p.stream_id,
                        frame_type,
                        flags: p.flags,
                        payload: p.payload,
                    },
                ),
            ),
        }
    }
}

/// What reading the front of `b` leaves: only a frame that was read is gone.
pub open spec fn decode_rest(b: Seq<u8>) -> Seq<u8> {
    if decode_result(b) matches Ok(Some(_)) {
        after_first(b)
    } else {
        b
    }
}

/// Every frame that reading `b` again and again gives, up to the first
/// failure or partial frame.
pub open spec fn decoded(b: Seq<u8>) -> Seq<FrameView>
    decreases b.len(),
{
    match decode_result(b) {
        Ok(Some(f)) => seq![f] + decoded(after_first(b)),
        _ => Seq::empty(),
    }
}

/// What is left in the end of reading `b` again and again.
pub open spec fn decoded_rest(b: Seq<u8>) -> Seq<u8>
    decreases b.len(),
{
    match decode_result(b) {
        Ok(Some(f)) => decoded_rest(after_first(b)),
        _ => b,
    }
}

/// The bytes of several frames, one after the other.
pub open spec fn encoded_all(fs: Seq<FrameView>) -> Seq<u8>
    decreases fs.len(),
{
    if fs.len() == 0 {
        Seq::empty()
    } else {
        fs[0].encoded() + encoded_all(fs.drop_first())
    }
}

/// The outcome of reading a frame, by what it says.
pub open spec fn frame_outcome(r: Result<Option<Frame>, Error>) -> Result<
    Option<FrameView>,
    Error,
> {
    match r {
        Ok(Some(f)) => Ok(Some(f@)),
        Ok(None) => Ok(None),
        Err(e) => Err(e),
    }
}

impl Frame {
    /// The number of bytes before the payload.
    pub const HEADER_LENGTH: usize = 9;

    /// The bytes to send for the frame. A payload of more bytes than the
    /// length field can count is still sent whole, behind a length that is
    /// cut to 24 bits.
    pub fn encode(&self) -> (r: Bytes)
        requires
            self@.payload.len() + HEADER_LENGTH <= isize::MAX,
        ensures
            bytes_contents(r) == self@.encoded(),
    {
        encode_parts(u8::from(self.frame_type), self.flags, self.stream_id, &self.payload)
    }

    /// Reads one frame off the front of the buffer. `None` means that the
    /// frame is not all there yet. Unless a frame comes back the buffer stays
    /// as it is.
    pub fn decode(buf: &mut BytesMut) -> (r: Result<Option<Frame>, Error>)
        ensures
            frame_outcome(r) == decode_result(buffer_contents(*old(buf))),
            buffer_contents(*final(buf)) == decode_rest(buffer_contents(*old(buf))),
    {
        let length: usize = match complete_length(buf) {
            Some(length) => length,
            None => return Ok(None),
        };
        let frame_type = match FrameType::try_from(buf[3]) {
            Ok(frame_type) => frame_type,
            Err(e) => return Err(e),
        };
        let (flags, stream_id, payload) = take_frame(buf, length);
        Ok(Some(Frame { stream_id, frame_type, flags, payload }))
    }
}

/// Each frame type has a byte of its own, and only those bytes have a type.
pub proof fn law_type_codes(t: FrameType, code: u8)
    ensures
        type_of_code(type_code(t)) == Ok::<FrameType, Error>(t),
        type_of_code(code) == Ok::<FrameType, Error>(t) ==> type_code(t) == code,
        type_of_code(code) is Ok <==> code <= 3,
{
}

/// A frame that was sent is read as the same frame, and only its own bytes
/// are used up.
pub proof fn law_decode_encoded(f: FrameView, rest: Seq<u8>)
    requires
        f.fits(),
    ensures
        decode_result(f.encoded() + rest) == Ok::<Option<FrameView>, Error>(Some(f)),
        decode_rest(f.encoded() + rest) == rest,
{
    law_read_back(f.parts(), rest);
}

/// The bytes that a frame was read from are the ones it is sent as.
pub proof fn law_encode_decoded(b: Seq<u8>, f: FrameView)
    requires
        decode_result(b) == Ok::<Option<FrameView>, Error>(Some(f)),
    ensures
        f.encoded() + decode_rest(b) == b,
        f.fits(),
{
    law_lay_out_again(b);
    assert(f.parts() =~= first_parts(b));
    assert(b.take(first_length(b)) + after_first(b) =~= b);
}

/// A frame is not seen before its last byte has come.
pub proof fn law_partial_frame(f: FrameView, k: int)
    requires
        f.fits(),
        0 <= k < f.encoded().len(),
    ensures
        decode_result(f.encoded().take(k)) == Ok::<Option<FrameView>, Error>(None),
        decode_rest(f.encoded().take(k)) == f.encoded().take(k),
{
    law_partial_frame_waits(f.parts(), k);
}

/// A frame of an unknown type is refused, and stays in the buffer.
pub proof fn law_unknown_type(p: Parts, rest: Seq<u8>)
    requires
        p.payload.len() < LENGTH_MODULUS,
        p.code > 3,
    ensures
        decode_result(frame_bytes(p) + rest) == Err::<Option<FrameView>, Error>(
            Error::UnknownFrameType(p.code),
        ),
        decode_rest(frame_bytes(p) + rest) == frame_bytes(p) + rest,
{
    law_read_back(p, rest);
}

/// Frames that were sent one after the other are read one after the other,
/// and nothing is left over.
pub proof fn law_decode_all(fs: Seq<FrameView>)
    requires
        forall|i: int| 0 <= i < fs.len() ==> (#[trigger] fs[i]).fits(),
    ensures
        decoded(encoded_all(fs)) == fs,
        decoded_rest(encoded_all(fs)) == Seq::<u8>::empty(),
    decreases fs.len(),
{
    if fs.len() == 0 {
        assert(decoded(encoded_all(fs)) =~= fs);
    } else {
        law_decode_encoded(fs[0], encoded_all(fs.drop_first()));
        law_decode_all(fs.drop_first());
        assert(decoded(encoded_all(fs)) =~= fs);
    }
}

/// Where the transport cuts the bytes into pieces makes no difference.
pub proof fn law_decode_pieces(b: Seq<u8>, more: Seq<u8>)
    ensures
        decoded(b + more) == decoded(b) + decoded(decoded_rest(b) + more),
        decoded_rest(b + more) == decoded_rest(decoded_rest(b) + more),
    decreases b.len(),
{
    match decode_result(b) {
        Ok(Some(f)) => {
            law_no_look_ahead(b, more);
            law_decode_pieces(after_first(b), more);
        },
        _ => {},
    }
    assert(decoded(b + more) =~= decoded(b) + decoded(decoded_rest(b) + more));
}

/// Bytes are read as a frame exactly if they start with what that frame is sent
/// as, and then those bytes are used up and no others.
pub proof fn law_decode_is_exact(b: Seq<u8>, f: FrameView)
    ensures
        decode_result(b) == Ok::<Option<FrameView>, Error>(Some(f)) <==> f.fits()
            && f.encoded().len() <= b.len() && b.take(f.encoded().len() as int) == f.encoded(),
        decode_result(b) == Ok::<Option<FrameView>, Error>(Some(f)) ==> decode_rest(b) == b.skip(
            f.encoded().len() as int,
        ),
{
    let n = f.encoded().len() as int;
    if f.fits() && n <= b.len() && b.take(n) == f.encoded() {
        assert(f.encoded() + b.skip(n) =~= b);
        law_decode_encoded(f, b.skip(n));
    }
    if decode_result(b) == Ok::<Option<FrameView>, Error>(Some(f)) {
        law_encode_decoded(b, f);
        assert(b.take(n) =~= f.encoded());
        assert(b.skip(n) =~= decode_rest(b));
    }
}

/// Reading waits exactly while the header, or what the header announces, is not
/// all there; a frame that is all there is refused exactly if no type has its
/// type byte. Either way the bytes stay.
pub proof fn law_decode_waits_or_refuses(b: Seq<u8>)
    ensures
        ({
            let whole = b.len() >= 9 && b.len() >= 9 + b[0] * 65_536 + b[1] * 256 + b[2];
            &&& decode_result(b) == Ok::<Option<FrameView>, Error>(None) <==> !whole
            &&& decode_result(b) is Err <==> whole && b[3] > 3
            &&& decode_result(b) matches Err(e) ==> e == Error::UnknownFrameType(b[3])
            &&& !(decode_result(b) matches Ok(Some(_))) ==> decode_rest(b) == b
        }),
{
}

/// The byte of each frame type.
pub proof fn law_type_bytes()
    ensures
        type_code(FrameType::Data) == 0,
        type_code(FrameType::Ping) == 1,
        type_code(FrameType::Headers) == 2,
        type_code(FrameType::GoAway) == 3,
{
}

/// A frame is laid out with the byte of its type and everything else that it
/// says.
pub proof fn law_parts(f: FrameView)
    ensures
        f.parts().code == type_code(f.frame_type),
        f.parts().flags == f.flags,
        f.parts().stream_id == f.stream_id,
        f.parts().payload == f.payload,
        f.encoded() == frame_bytes(f.parts()),
        f.fits() <==> f.payload.len() < 16_777_216,
{
}

/// What came of reading a frame is told as it is.
pub proof fn law_frame_outcome(r: Result<Option<Frame>, Error>)
    ensures
        r matches Ok(Some(f)) ==> frame_outcome(r) == Ok::<Option<FrameView>, Error>(Some(f@)),
        r matches Ok(None) ==> frame_outcome(r) == Ok::<Option<FrameView>, Error>(None),
        r matches Err(e) ==> frame_outcome(r) == Err::<Option<FrameView>, Error>(e),
        r matches Ok(Some(f)) ==> f@.frame_type == f.frame_type && f@.flags == f.flags
            && f@.stream_id == f.stream_id && f@.payload == bytes_contents(f.payload),
{
}

} // verus!
