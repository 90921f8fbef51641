//! The byte buffers of the `bytes` crate, as seen from verified code.
//!
//! Everything in this file is a statement about that crate which is believed,
//! not proved. `Bytes` is an immutable run of bytes and `BytesMut` a growable
//! one; both are modelled by the sequence of bytes they hold.

use bytes::{Bytes, BytesMut};
use vstd::prelude::*;

verus! {

/// `bytes::Bytes`, opaque.
#[verifier::external_type_specification]
#[verifier::external_body]
pub struct ExBytes(bytes::Bytes);

/// `bytes::BytesMut`, opaque.
#[verifier::external_type_specification]
#[verifier::external_body]
pub struct ExBytesMut(bytes::BytesMut);

/// The bytes that a `Bytes` holds.
pub uninterp spec fn bytes_contents(b: Bytes) -> Seq<u8>;

/// The bytes that a `BytesMut` holds.
pub uninterp spec fn buffer_contents(b: BytesMut) -> Seq<u8>;

/// The capacity that a `BytesMut` was made with.
pub uninterp spec fn buffer_limit(b: BytesMut) -> nat;

/// `Bytes::new`: holds no bytes.
pub assume_specification[ bytes::Bytes::new ]() -> (b: Bytes)
    ensures
        bytes_contents(b) == Seq::<u8>::empty(),
;

/// `Bytes::copy_from_slice`: holds a copy of the slice.
pub assume_specification[ bytes::Bytes::copy_from_slice ](data: &[u8]) -> (b: Bytes)
    ensures
        bytes_contents(b) == data@,
;

/// `Bytes::len`: the number of bytes held.
pub assume_specification[ bytes::Bytes::len ](b: &Bytes) -> (n: usize)
    ensures
        n == bytes_contents(*b).len(),
;

/// `Deref for Bytes`: the bytes held, as a slice.
pub assume_specification[ <bytes::Bytes as core::ops::Deref>::deref ](b: &Bytes) -> (s: &[u8])
    ensures
        s@ == bytes_contents(*b),
;

/// `BytesMut::with_capacity`: holds no bytes, with room for `capacity` of
/// them. Larger capacities than `isize::MAX` make it panic.
pub assume_specification[ bytes::BytesMut::with_capacity ](capacity: usize) -> (b: BytesMut)
    requires
        capacity <= isize::MAX,
    ensures
        buffer_contents(b) == Seq::<u8>::empty(),
        buffer_limit(b) == capacity,
;

/// `BytesMut::len`: the number of bytes held.
pub assume_specification[ bytes::BytesMut::len ](b: &BytesMut) -> (n: usize)
    ensures
        n == buffer_contents(*b).len(),
;

/// `BytesMut::is_empty`: whether no bytes are held.
pub assume_specification[ bytes::BytesMut::is_empty ](b: &BytesMut) -> (r: bool)
    ensures
        r == (buffer_contents(*b).len() == 0),
;

/// `Deref for BytesMut`: the bytes held, as a slice.
pub assume_specification[ <bytes::BytesMut as core::ops::Deref>::deref ](b: &BytesMut) -> (s:
    &[u8])
    ensures
        s@ == buffer_contents(*b),
;

/// `BytesMut::extend_from_slice`: appends the slice. Stated where the result
/// fits the capacity that the buffer was made with: nothing is allocated
/// then, so nothing can overflow.
pub assume_specification[ bytes::BytesMut::extend_from_slice ](b: &mut BytesMut, extend: &[u8])
    requires
        buffer_contents(*old(b)).len() + extend@.len() <= buffer_limit(*old(b)),
    ensures
        buffer_contents(*final(b)) == buffer_contents(*old(b)) + extend@,
        buffer_limit(*final(b)) == buffer_limit(*old(b)),
;

/// `BytesMut::freeze`: the same bytes, immutable.
pub assume_specification[ bytes::BytesMut::freeze ](b: BytesMut) -> (r: Bytes)
    ensures
        bytes_contents(r) == buffer_contents(b),
;

/// `BytesMut::split_to`: takes the first `at` bytes off the front and returns
/// them. It panics where fewer are held.
pub assume_specification[ bytes::BytesMut::split_to ](b: &mut BytesMut, at: usize) -> (r: BytesMut)
    requires
        at <= buffer_contents(*old(b)).len(),
    ensures
        buffer_contents(r) == buffer_contents(*old(b)).subrange(0, at as int),
        buffer_contents(*final(b)) == buffer_contents(*old(b)).subrange(
            at as int,
            buffer_contents(*old(b)).len() as int,
        ),
;

/// `BytesMut::split_off`: keeps the first `at` bytes and returns the others.
/// Stated where at least `at` are held.
pub assume_specification[ bytes::BytesMut::split_off ](b: &mut BytesMut, at: usize) -> (r: BytesMut)
    requires
        at <= buffer_contents(*old(b)).len(),
    ensures
        buffer_contents(*final(b)) == buffer_contents(*old(b)).subrange(0, at as int),
        buffer_contents(r) == buffer_contents(*old(b)).subrange(
            at as int,
            buffer_contents(*old(b)).len() as int,
        ),
;

} // verus!
