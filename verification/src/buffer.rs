//! The byte buffer in which message payloads are put together.

use bytes::BytesMut;
use vstd::prelude::*;

verus! {

/// `bytes::BytesMut`, a growable buffer of bytes. Nothing is seen inside it:
/// what it holds is `buffer_bytes`.
#[verifier::external_type_specification]
#[verifier::external_body]
pub struct ExBytesMut(BytesMut);

/// The bytes that a buffer holds, first to last.
pub uninterp spec fn buffer_bytes(buf: BytesMut) -> Seq<u8>;

/// `BytesMut::new` gives a buffer of length zero.
pub assume_specification[ BytesMut::new ]() -> (buf: BytesMut)
    ensures
        buffer_bytes(buf) == Seq::<u8>::empty(),
;

/// `BytesMut::extend_from_slice` appends the given bytes, in order, to what
/// the buffer held; it grows the buffer as needed. As with the growth of a
/// `Vec`, nothing is asked of the lengths: the buffer gives up only where the
/// new length is beyond `usize`, which the lengths of two buffers that exist
/// side by side do not reach.
pub assume_specification[ BytesMut::extend_from_slice ](buf: &mut BytesMut, extend: &[u8])
    ensures
        buffer_bytes(*final(buf)) == buffer_bytes(*old(buf)) + extend@,
;

/// Dereferencing a `BytesMut` gives the slice of the bytes that it holds.
pub assume_specification<'a>[ <BytesMut as core::ops::Deref>::deref ](buf: &'a BytesMut) -> (bytes:
    &'a [u8])
    ensures
        bytes@ == buffer_bytes(*buf),
;

/// The bytes of `buf`, copied out.
pub fn buffer_to_vec(buf: &BytesMut) -> (r: Vec<u8>)
    ensures
        r@ == buffer_bytes(*buf),
{
    let bytes: &[u8] = core::ops::Deref::deref(buf);
    vstd::slice::slice_to_vec(bytes)
}

} // verus!
