//! The byte buffers of the `bytes` crate, `Bytes` and `BytesMut`, as the
//! library sees them: by the bytes that they hold.
use vstd::prelude::*;
use bytes::{Bytes, BytesMut};

verus! {

#[verifier::external_type_specification]
#[verifier::external_body]
pub struct ExBytes(bytes::Bytes);

#[verifier::external_type_specification]
#[verifier::external_body]
pub struct ExBytesMut(bytes::BytesMut);

/// The bytes that a `Bytes` holds.
pub uninterp spec fn bytes_content(b: Bytes) -> Seq<u8>;

/// The bytes that a `BytesMut` holds.
pub uninterp spec fn bytes_mut_content(b: BytesMut) -> Seq<u8>;

/// Calls `Bytes::from(Vec<u8>)`, which holds the bytes of the vector.
#[verifier::external_body]
pub(crate) fn bytes_from_vec(v: Vec<u8>) -> (r: Bytes)
    ensures
        bytes_content(r) == v@,
{
    Bytes::from(v)
}

/// Calls `Bytes::len`: the number of bytes held.
#[verifier::external_body]
pub(crate) fn bytes_len(b: &Bytes) -> (r: usize)
    ensures
        r == bytes_content(*b).len(),
{
    b.len()
}

/// Calls `<Bytes as Deref>::deref`: the bytes held, as a slice.
#[verifier::external_body]
pub(crate) fn bytes_as_slice(b: &Bytes) -> (r: &[u8])
    ensures
        r@ == bytes_content(*b),
{
    b
}

/// Calls `Bytes::clone`: another handle on the same bytes.
#[verifier::external_body]
pub(crate) fn bytes_clone(b: &Bytes) -> (r: Bytes)
    ensures
        bytes_content(r) == bytes_content(*b),
{
    b.clone()
}

/// Calls `Bytes::split_to`, which keeps the bytes from `at` on and hands back
/// those before `at`. It panics when `at` exceeds the length.
#[verifier::external_body]
pub(crate) fn bytes_split_to(b: &mut Bytes, at: usize) -> (r: Bytes)
    requires
        at <= bytes_content(*old(b)).len(),
    ensures
        bytes_content(r) == bytes_content(*old(b)).take(at as int),
        bytes_content(*final(b)) == bytes_content(*old(b)).skip(at as int),
{
    b.split_to(at)
}

/// Calls `Bytes::split_off`, which keeps the bytes before `at` and hands back
/// those from `at` on. It panics when `at` exceeds the length.
#[verifier::external_body]
pub(crate) fn bytes_split_off(b: &mut Bytes, at: usize) -> (r: Bytes)
    requires
        at <= bytes_content(*old(b)).len(),
    ensures
        bytes_content(*final(b)) == bytes_content(*old(b)).take(at as int),
        bytes_content(r) == bytes_content(*old(b)).skip(at as int),
{
    b.split_off(at)
}

/// Calls `BytesMut::new`: an empty buffer.
#[verifier::external_body]
pub(crate) fn bytes_mut_new() -> (r: BytesMut)
    ensures
        bytes_mut_content(r) == Seq::<u8>::empty(),
{
    BytesMut::new()
}

/// Calls `BytesMut::with_capacity`: an empty buffer with room for at least
/// `cap` bytes. Allocating more than `isize::MAX` bytes panics.
#[verifier::external_body]
pub(crate) fn bytes_mut_with_capacity(cap: usize) -> (r: BytesMut)
    requires
        cap <= isize::MAX,
    ensures
        bytes_mut_content(r) == Seq::<u8>::empty(),
{
    BytesMut::with_capacity(cap)
}

/// Calls `BytesMut::clone`: a new buffer holding the same bytes.
#[verifier::external_body]
pub(crate) fn bytes_mut_clone(b: &BytesMut) -> (r: BytesMut)
    ensures
        bytes_mut_content(r) == bytes_mut_content(*b),
{
    b.clone()
}

/// Calls `BytesMut::clear`, which drops every byte held.
#[verifier::external_body]
pub(crate) fn bytes_mut_clear(b: &mut BytesMut)
    ensures
        bytes_mut_content(*final(b)) == Seq::<u8>::empty(),
{
    b.clear()
}

/// Calls `BytesMut::len`: the number of bytes held.
#[verifier::external_body]
pub(crate) fn bytes_mut_len(b: &BytesMut) -> (r: usize)
    ensures
        r == bytes_mut_content(*b).len(),
{
    b.len()
}

/// Calls `BytesMut::capacity`: how many bytes the buffer can hold without
/// growing. Only that it holds at least its length is stated: the rest
/// depends on what the allocator gave.
#[verifier::external_body]
pub(crate) fn bytes_mut_capacity(b: &BytesMut) -> (r: usize)
    ensures
        r >= bytes_mut_content(*b).len(),
{
    b.capacity()
}

/// Calls `<BytesMut as Deref>::deref`: the bytes held, as a slice.
#[verifier::external_body]
pub(crate) fn bytes_mut_as_slice(b: &BytesMut) -> (r: &[u8])
    ensures
        r@ == bytes_mut_content(*b),
{
    b
}

/// Calls `BytesMut::extend_from_slice`, which appends the bytes of `s`,
/// growing the buffer as needed. Growing past `isize::MAX` bytes panics.
#[verifier::external_body]
pub(crate) fn bytes_mut_extend_from_slice(b: &mut BytesMut, s: &[u8])
    requires
        bytes_mut_content(*old(b)).len() + s@.len() <= isize::MAX,
    ensures
        bytes_mut_content(*final(b)) == bytes_mut_content(*old(b)) + s@,
{
    b.extend_from_slice(s)
}

/// Calls `BytesMut::freeze`, which turns the buffer into a `Bytes` holding the
/// same bytes.
#[verifier::external_body]
pub(crate) fn bytes_mut_freeze(b: BytesMut) -> (r: Bytes)
    ensures
        bytes_content(r) == bytes_mut_content(b),
{
    b.freeze()
}

} // verus!
