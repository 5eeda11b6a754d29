//! Packet data in the shared byte buffers of the `bytes` crate.
use bytes::Bytes;
use std::time::Instant;
use vstd::prelude::*;

verus! {

/// A reference-counted buffer of bytes.
#[verifier::external_type_specification]
#[verifier::external_body]
pub struct ExBytes(Bytes);

/// A reading of the monotonic clock.
#[verifier::external_type_specification]
#[verifier::external_body]
pub struct ExInstant(Instant);

/// The bytes that a buffer holds.
pub uninterp spec fn contents(b: Bytes) -> Seq<u8>;

/// `Bytes::new` makes a buffer without bytes.
pub assume_specification[ Bytes::new ]() -> (b: Bytes)
    ensures
        contents(b) == Seq::<u8>::empty(),
;

/// `Bytes::copy_from_slice` makes a buffer with the bytes of the slice.
pub assume_specification[ Bytes::copy_from_slice ](data: &[u8]) -> (b: Bytes)
    ensures
        contents(b) == data@,
;

/// `Bytes::from` turns a vector into a buffer with the same bytes.
pub assume_specification[ <Bytes as From<Vec<u8>>>::from ](vec: Vec<u8>) -> (b: Bytes)
    ensures
        contents(b) == vec@,
;

/// `Bytes::len` is the number of bytes in the buffer.
pub assume_specification[ Bytes::len ](b: &Bytes) -> (n: usize)
    ensures
        n == contents(*b).len(),
;

/// `Bytes::is_empty` tells whether the buffer holds no byte.
pub assume_specification[ Bytes::is_empty ](b: &Bytes) -> (r: bool)
    ensures
        r == (contents(*b).len() == 0),
;

/// `Bytes::clone` gives another handle on the same bytes.
pub assume_specification[ <Bytes as Clone>::clone ](b: &Bytes) -> (r: Bytes)
    ensures
        contents(r) == contents(*b),
;

/// `Bytes::deref` gives the bytes of the buffer as a slice.
pub assume_specification[ <Bytes as std::ops::Deref>::deref ](b: &Bytes) -> (r: &[u8])
    ensures
        r@ == contents(*b),
;

/// `Instant::now` reads the clock: nothing is known of what it shows.
pub assume_specification[ Instant::now ]() -> (r: Instant)
;

/// The bytes of a buffer as a vector.
pub fn bytes_to_vec(b: &Bytes) -> (r: Vec<u8>)
    ensures
        r@ == contents(*b),
{
    let s: &[u8] = std::ops::Deref::deref(b);
    vstd::slice::slice_to_vec(s)
}

} // verus!
