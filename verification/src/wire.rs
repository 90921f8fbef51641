//! The layout of a frame on the wire.
//!
//! ```text
//! +-----------------------------------------------+
//! |                Length (24 bits)               |
//! +---------------+---------------+---------------+
//! |   Type (8)    |   Flags (8)   |
//! +---------------+---------------+-------------------------------+
//! |                        Stream id (32)                         |
//! +---------------------------------------------------------------+
//! |                          Payload (*)                          |
//! +---------------------------------------------------------------+
//! ```
//!
//! Numbers are big-endian. The length counts the payload only. What the type
//! byte means is left to the frame sets built on this layout.

use crate::buffer::{buffer_contents, bytes_contents};
use bytes::{Bytes, BytesMut};
use vstd::prelude::*;

verus! {

/// The number of bytes before the payload.
pub const HEADER_LENGTH: usize = 9;

/// The number of payload lengths that the length field can tell apart.
pub const LENGTH_MODULUS: usize = 0x100_0000;

/// What the bytes of one frame say.
#[verifier::ext_equal]
pub struct Parts {
    pub code: u8,
    pub flags: u8,
    pub stream_id: u32,
    pub payload: Seq<u8>,
}

/// The low 24 bits of `n`, most significant byte first.
pub open spec fn be24(n: int) -> Seq<u8> {
    seq![((n / 0x10000) % 256) as u8, ((n / 0x100) % 256) as u8, (n % 256) as u8]
}

/// The low 32 bits of `n`, most significant byte first.
pub open spec fn be32(n: int) -> Seq<u8> {
    seq![
        ((n / 0x100_0000) % 256) as u8,
        ((n / 0x10000) % 256) as u8,
        ((n / 0x100) % 256) as u8,
        (n % 256) as u8,
    ]
}

/// The number that the three bytes of `b` from `at` on spell.
pub open spec fn value24(b: Seq<u8>, at: int) -> int {
    b[at] * 0x10000 + b[at + 1] * 0x100 + b[at + 2]
}

/// The number that the four bytes of `b` from `at` on spell.
pub open spec fn value32(b: Seq<u8>, at: int) -> int {
    b[at] * 0x100_0000 + b[at + 1] * 0x10000 + b[at + 2] * 0x100 + b[at + 3]
}

/// The bytes of a frame. Of the payload's length the field keeps 24 bits.
pub open spec fn frame_bytes(p: Parts) -> Seq<u8> {
    be24(p.payload.len() as int) + seq![p.code, p.flags] + be32(p.stream_id as int) + p.payload
}

/// The number of bytes that the frame at the front of `b` takes.
pub open spec fn first_length(b: Seq<u8>) -> int {
    HEADER_LENGTH + value24(b, 0)
}

/// Whether a whole frame stands at the front of `b`.
pub open spec fn complete(b: Seq<u8>) -> bool {
    b.len() >= HEADER_LENGTH && b.len() >= first_length(b)
}

/// What the frame at the front of `b` says.
pub open spec fn first_parts(b: Seq<u8>) -> Parts {
    Parts {
        code: b[3],
        flags: b[4],
        stream_id: value32(b, 5) as u32,
        payload: b.subrange(HEADER_LENGTH as int, first_length(b)),
    }
}

/// What follows the frame at the front of `b`.
pub open spec fn after_first(b: Seq<u8>) -> Seq<u8> {
    b.skip(first_length(b))
}

/// The four bytes of `v`, most significant first.
pub fn u32_bytes(v: u32) -> (r: [u8; 4])
    ensures
        r@ == be32(v as int),
{
    let r: [u8; 4] = [
        (v / 0x100_0000) as u8,
        ((v / 0x10000) % 256) as u8,
        ((v / 0x100) % 256) as u8,
        (v % 256) as u8,
    ];
    assert(r@ =~= be32(v as int));
    r
}

/// The number that the four bytes of `b` from `at` on spell.
pub fn u32_at(b: &[u8], at: usize) -> (r: u32)
    requires
        at + 4 <= b@.len(),
    ensures
        r == value32(b@, at as int),
{
    b[at] as u32 * 0x100_0000 + b[at + 1] as u32 * 0x10000 + b[at + 2] as u32 * 0x100
        + b[at + 3] as u32
}

/// Lays a frame out in bytes.
pub fn encode_parts(code: u8, flags: u8, stream_id: u32, payload: &Bytes) -> (r: Bytes)
    requires
        bytes_contents(*payload).len() + HEADER_LENGTH <= isize::MAX,
    ensures
        bytes_contents(r) == frame_bytes(
            (Parts { code, flags, stream_id, payload: bytes_contents(*payload) }),
        ),
{
    let len: usize = payload.len();
    let mut buf = BytesMut::with_capacity(HEADER_LENGTH + len);
    let length: [u8; 3] = [
        ((len / 0x10000) % 256) as u8,
        ((len / 0x100) % 256) as u8,
        (len % 256) as u8,
    ];
    let kind: [u8; 2] = [code, flags];
    let id: [u8; 4] = u32_bytes(stream_id);
    buf.extend_from_slice(&length);
    buf.extend_from_slice(&kind);
    buf.extend_from_slice(&id);
    buf.extend_from_slice(payload);
    assert(length@ =~= be24(len as int));
    assert(kind@ =~= seq![code, flags]);
    assert(buffer_contents(buf) =~= be24(len as int) + seq![code, flags] + be32(stream_id as int)
        + bytes_contents(*payload));
    buf.freeze()
}

/// The number of bytes of the frame at the front of the buffer, once all of
/// them are there.
pub fn complete_length(buf: &BytesMut) -> (r: Option<usize>)
    ensures
        r is Some <==> complete(buffer_contents(*buf)),
        r matches Some(n) ==> n == first_length(buffer_contents(*buf)),
{
    if buf.len() < HEADER_LENGTH {
        return None;
    }
    let payload_len: usize = buf[0] as usize * 0x10000 + buf[1] as usize * 0x100 + buf[2] as usize;
    if buf.len() < HEADER_LENGTH + payload_len {
        return None;
    }
    Some(HEADER_LENGTH + payload_len)
}

/// Takes the frame at the front of the buffer, which is `length` bytes long,
/// off it: its flags, its stream id and its payload.
pub fn take_frame(buf: &mut BytesMut, length: usize) -> (r: (u8, u32, Bytes))
    requires
        complete(buffer_contents(*old(buf))),
        length == first_length(buffer_contents(*old(buf))),
    ensures
        r.0 == first_parts(buffer_contents(*old(buf))).flags,
        r.1 == first_parts(buffer_contents(*old(buf))).stream_id,
        bytes_contents(r.2) == first_parts(buffer_contents(*old(buf))).payload,
        buffer_contents(*final(buf)) == after_first(buffer_contents(*old(buf))),
{
    let ghost b = buffer_contents(*buf);
    let flags: u8 = buf[4];
    let stream_id: u32 = u32_at(buf, 5);
    let mut frame = buf.split_to(length);
    let payload = frame.split_off(HEADER_LENGTH);
    assert(buffer_contents(*buf) =~= after_first(b));
    assert(buffer_contents(payload) =~= first_parts(b).payload);
    (flags, stream_id, payload.freeze())
}

proof fn lemma_value_of_bytes24(n: int)
    requires
        0 <= n < 0x100_0000,
    ensures
        value24(be24(n), 0) == n,
{
    let high = n / 0x10000;
    let mid = n / 0x100;
    assert(mid == high * 0x100 + mid % 256);
    assert(n == mid * 0x100 + n % 256);
    assert(high % 256 == high);
}

/// The four bytes of a number spell it.
pub proof fn lemma_value_of_bytes32(n: int)
    requires
        0 <= n < 0x1_0000_0000,
    ensures
        value32(be32(n), 0) == n,
{
    let top = n / 0x100_0000;
    let high = n / 0x10000;
    let mid = n / 0x100;
    assert(high == top * 0x100 + high % 256);
    assert(mid == high * 0x100 + mid % 256);
    assert(n == mid * 0x100 + n % 256);
    assert(top % 256 == top);
}

/// What was laid out as bytes reads back the same, whatever follows it, and
/// exactly its own bytes are used up. The payload's length has to fit its
/// field.
pub proof fn law_read_back(p: Parts, rest: Seq<u8>)
    requires
        p.payload.len() < LENGTH_MODULUS,
    ensures
        complete(frame_bytes(p) + rest),
        first_parts(frame_bytes(p) + rest) == p,
        after_first(frame_bytes(p) + rest) == rest,
{
    let b = frame_bytes(p) + rest;
    let n = p.payload.len() as int;
    lemma_value_of_bytes24(n);
    lemma_value_of_bytes32(p.stream_id as int);
    assert(value24(b, 0) == value24(be24(n), 0));
    assert(value32(b, 5) == value32(be32(p.stream_id as int), 0));
    assert(b.len() == HEADER_LENGTH + n + rest.len());
    assert(first_parts(b).payload =~= p.payload);
    assert(first_parts(b) =~= p);
    assert(after_first(b) =~= rest);
}

proof fn lemma_bytes_of_value24(x: u8, y: u8, z: u8)
    ensures
        be24(x * 0x10000 + y * 0x100 + z) == seq![x, y, z],
{
    let n = x * 0x10000 + y * 0x100 + z;
    assert(n / 0x10000 == x);
    assert(n / 0x100 == x * 0x100 + y);
    assert(be24(n) =~= seq![x, y, z]);
}

/// Four bytes are those of the number that they spell.
pub proof fn lemma_bytes_of_value32(x: u8, y: u8, z: u8, w: u8)
    ensures
        be32(x * 0x100_0000 + y * 0x10000 + z * 0x100 + w) == seq![x, y, z, w],
        0 <= x * 0x100_0000 + y * 0x10000 + z * 0x100 + w < 0x1_0000_0000,
{
    let n = x * 0x100_0000 + y * 0x10000 + z * 0x100 + w;
    assert(n / 0x100_0000 == x);
    assert(n / 0x10000 == x * 0x100 + y);
    assert(n / 0x100 == x * 0x10000 + y * 0x100 + z);
    assert(be32(n) =~= seq![x, y, z, w]);
}

/// The bytes that a frame was read from are the ones that it is laid out as.
pub proof fn law_lay_out_again(b: Seq<u8>)
    requires
        complete(b),
    ensures
        frame_bytes(first_parts(b)) == b.take(first_length(b)),
        first_parts(b).payload.len() < LENGTH_MODULUS,
{
    let p = first_parts(b);
    lemma_bytes_of_value24(b[0], b[1], b[2]);
    lemma_bytes_of_value32(b[5], b[6], b[7], b[8]);
    assert(p.payload.len() == value24(b, 0));
    let header = be24(value24(b, 0)) + seq![p.code, p.flags] + be32(value32(b, 5));
    assert(header =~= b.take(HEADER_LENGTH as int));
    assert(frame_bytes(p) == header + p.payload);
    assert(header + p.payload =~= b.take(first_length(b)));
}

/// No frame is seen before its last byte has come.
pub proof fn law_partial_frame_waits(p: Parts, k: int)
    requires
        p.payload.len() < LENGTH_MODULUS,
        0 <= k < frame_bytes(p).len(),
    ensures
        !complete(frame_bytes(p).take(k)),
{
    let b = frame_bytes(p).take(k);
    lemma_value_of_bytes24(p.payload.len() as int);
    if b.len() >= HEADER_LENGTH {
        assert(value24(b, 0) == value24(be24(p.payload.len() as int), 0));
    }
}

/// A frame that is there stays the same when more bytes come.
pub proof fn law_no_look_ahead(b: Seq<u8>, more: Seq<u8>)
    requires
        complete(b),
    ensures
        complete(b + more),
        first_parts(b + more) == first_parts(b),
        after_first(b + more) == after_first(b) + more,
{
    assert(first_length(b + more) == first_length(b));
    assert(first_parts(b + more).payload =~= first_parts(b).payload);
    assert(after_first(b + more) =~= after_first(b) + more);
}

/// Where everything stands in the bytes of a frame: the length of the payload
/// in the first three, cut to 24 bits; the type and the flags in one each; the
/// stream id in four; and then the payload, whole. Numbers have their most
/// significant byte first.
pub proof fn law_layout(p: Parts)
    ensures
        ({
            let b = frame_bytes(p);
            &&& b.len() == 9 + p.payload.len()
            &&& b[0] * 65_536 + b[1] * 256 + b[2] == p.payload.len() % 16_777_216
            &&& b[3] == p.code
            &&& b[4] == p.flags
            &&& b[5] * 16_777_216 + b[6] * 65_536 + b[7] * 256 + b[8] == p.stream_id
            &&& b.skip(9) == p.payload
        }),
{
    let b = frame_bytes(p);
    let n = p.payload.len() as int;
    let m = n % 16_777_216;
    let q = n / 16_777_216;
    lemma_value_of_bytes24(m);
    lemma_value_of_bytes32(p.stream_id as int);
    assert(n == q * 16_777_216 + m);
    assert(n / 65_536 == q * 256 + m / 65_536);
    assert(n / 256 == q * 65_536 + m / 256);
    assert(be24(n) =~= be24(m));
    assert(value24(b, 0) == value24(be24(m), 0));
    assert(value32(b, 5) == value32(be32(p.stream_id as int), 0));
    assert(b.skip(9) =~= p.payload);
}

/// Four bytes that stand for a number have its most significant byte first.
pub proof fn law_four_bytes(n: u32)
    ensures
        ({
            let b = be32(n as int);
            &&& b.len() == 4
            &&& b[0] * 16_777_216 + b[1] * 65_536 + b[2] * 256 + b[3] == n
        }),
{
    lemma_value_of_bytes32(n as int);
}

} // verus!
