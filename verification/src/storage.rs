//! Reference-counted byte buffers, as the `bytes` crate provides them.
//!
//! The buffers are opaque to the proofs. What a buffer holds goes by [`contents`] and
//! [`mut_contents`]; how much memory stands behind it, and whether another handle
//! shares that memory, is left open.
use bytes::{Bytes, BytesMut};
use vstd::prelude::*;

verus! {

#[verifier::external_type_specification]
#[verifier::external_body]
pub struct ExBytes(Bytes);

#[verifier::external_type_specification]
#[verifier::external_body]
pub struct ExBytesMut(BytesMut);

/// The bytes that an immutable buffer holds.
pub uninterp spec fn contents(buffer: Bytes) -> Seq<u8>;

/// The bytes that a mutable buffer holds.
pub uninterp spec fn mut_contents(buffer: BytesMut) -> Seq<u8>;

/// `Bytes::deref`: the slice of a buffer is what it holds.
#[verifier::external_body]
pub(crate) fn as_slice(buffer: &Bytes) -> (slice: &[u8])
    ensures
        slice@ == contents(*buffer),
{
    buffer
}

/// `Bytes::from(Vec<u8>)`: the buffer holds the bytes of the vector.
#[verifier::external_body]
pub(crate) fn from_vec(vector: Vec<u8>) -> (buffer: Bytes)
    ensures
        contents(buffer) == vector@,
{
    Bytes::from(vector)
}

/// `Bytes::copy_from_slice`: the buffer holds a copy of the slice.
#[verifier::external_body]
pub(crate) fn copy_from_slice(slice: &[u8]) -> (buffer: Bytes)
    ensures
        contents(buffer) == slice@,
{
    Bytes::copy_from_slice(slice)
}

/// `Bytes::is_unique`: whether no other handle shares the memory. That depends on the
/// other handles alive, so nothing is claimed of the answer.
#[verifier::external_body]
pub(crate) fn is_unique(buffer: &Bytes) -> (unique: bool)
{
    buffer.is_unique()
}

/// `Bytes::try_into_mut`: turns a buffer that nobody shares into a mutable one, and
/// hands any other back. Either way the bytes stay the same.
#[verifier::external_body]
pub(crate) fn try_into_mut(buffer: Bytes) -> (result: Result<BytesMut, Bytes>)
    ensures
        match result {
            Ok(mutable) => mut_contents(mutable) == contents(buffer),
            Err(shared) => contents(shared) == contents(buffer),
        },
{
    buffer.try_into_mut()
}

/// `BytesMut::capacity`: how many bytes fit, which is at least how many there are, and no
/// more than an allocation can have.
#[verifier::external_body]
pub(crate) fn capacity(buffer: &BytesMut) -> (bytes: usize)
    ensures
        mut_contents(*buffer).len() <= bytes <= isize::MAX,
{
    buffer.capacity()
}

/// `BytesMut::freeze`: the immutable buffer holds what the mutable one held.
#[verifier::external_body]
pub(crate) fn freeze(buffer: BytesMut) -> (frozen: Bytes)
    ensures
        contents(frozen) == mut_contents(buffer),
{
    buffer.freeze()
}

/// `BytesMut::clear`: nothing is left in the buffer.
#[verifier::external_body]
pub(crate) fn clear(buffer: &mut BytesMut)
    ensures
        mut_contents(*final(buffer)) == Seq::<u8>::empty(),
{
    buffer.clear()
}

/// `BytesMut::extend_from_slice`: appends the slice. A buffer of more than `isize::MAX`
/// bytes cannot be had, and asking for one makes it panic.
#[verifier::external_body]
pub(crate) fn extend_from_slice(buffer: &mut BytesMut, slice: &[u8])
    requires
        mut_contents(*old(buffer)).len() + slice@.len() <= isize::MAX,
    ensures
        mut_contents(*final(buffer)) == mut_contents(*old(buffer)) + slice@,
{
    buffer.extend_from_slice(slice)
}

/// `BytesMut::new`: an empty buffer.
#[verifier::external_body]
pub(crate) fn new_buffer() -> (buffer: BytesMut)
    ensures
        mut_contents(buffer) == Seq::<u8>::empty(),
{
    BytesMut::new()
}

/// `BytesMut::len`: how many bytes the buffer holds.
#[verifier::external_body]
pub(crate) fn buffer_len(buffer: &BytesMut) -> (length: usize)
    ensures
        length == mut_contents(*buffer).len(),
{
    buffer.len()
}

/// `BytesMut::from(&[u8])`: a buffer with a copy of the slice.
#[verifier::external_body]
pub(crate) fn buffer_from_slice(slice: &[u8]) -> (buffer: BytesMut)
    ensures
        mut_contents(buffer) == slice@,
{
    BytesMut::from(slice)
}

/// `Bytes::clone`: another handle on the same bytes.
#[verifier::external_body]
pub(crate) fn share(buffer: &Bytes) -> (shared: Bytes)
    ensures
        contents(shared) == contents(*buffer),
{
    buffer.clone()
}

/// `Bytes::split_off`: cuts the buffer in two at a place within it. The buffer keeps the
/// front, and the back is returned. A place behind its end makes it panic.
#[verifier::external_body]
pub(crate) fn split_off(buffer: &mut Bytes, at: usize) -> (back: Bytes)
    requires
        at <= contents(*old(buffer)).len(),
    ensures
        contents(*final(buffer)) == contents(*old(buffer)).take(at as int),
        contents(back) == contents(*old(buffer)).skip(at as int),
{
    buffer.split_off(at)
}

/// Whether two slices hold the same bytes.
pub fn equal(left: &[u8], right: &[u8]) -> (same: bool)
    ensures
        same == (left@ == right@),
{
    if left.len() != right.len() {
        return false;
    }
    let mut at: usize = 0;
    while at < left.len()
        invariant
            at <= left@.len(),
            left@.len() == right@.len(),
            forall|i: int| 0 <= i < at ==> left@[i] == right@[i],
        decreases left@.len() - at,
    {
        if left[at] != right[at] {
            assert(left@[at as int] != right@[at as int]);
            return false;
        }
        at += 1;
    }
    assert(left@ =~= right@);
    true
}

}
