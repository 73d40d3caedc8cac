//! Specifications of the `bytes` crate's two buffer types, as far as this
//! crate uses them.

use vstd::prelude::*;
use bytes::{Bytes, BytesMut};

verus! {

/// `bytes::BytesMut`, a growable buffer of bytes, as an opaque type.
#[verifier::external_type_specification]
#[verifier::external_body]
pub struct ExBytesMut(bytes::BytesMut);

/// `bytes::Bytes`, an immutable run of bytes that is cheap to clone, as an
/// opaque type.
#[verifier::external_type_specification]
#[verifier::external_body]
pub struct ExBytes(bytes::Bytes);

/// The bytes that a `BytesMut` holds, front first.
pub uninterp spec fn mut_bytes(b: BytesMut) -> Seq<u8>;

/// The bytes that a `Bytes` holds, front first.
pub uninterp spec fn shared_bytes(b: Bytes) -> Seq<u8>;

/// `BytesMut::new`: a buffer that holds nothing.
#[verifier::external_body]
pub(crate) fn bytes_mut_new() -> (b: BytesMut)
    ensures
        mut_bytes(b) == Seq::<u8>::empty(),
{
    BytesMut::new()
}

/// `BytesMut::len`: the number of bytes held.
#[verifier::external_body]
pub(crate) fn bytes_mut_len(b: &BytesMut) -> (n: usize)
    ensures
        n == mut_bytes(*b).len(),
{
    b.len()
}

/// `BytesMut::deref`: the held bytes as a slice.
#[verifier::external_body]
pub(crate) fn bytes_mut_slice(b: &BytesMut) -> (s: &[u8])
    ensures
        s@ == mut_bytes(*b),
{
    &b[..]
}

/// `BytesMut::extend_from_slice`: appends `src` behind what is held.
#[verifier::external_body]
pub(crate) fn bytes_mut_extend(b: &mut BytesMut, src: &[u8])
    ensures
        mut_bytes(*final(b)) == mut_bytes(*old(b)) + src@,
{
    b.extend_from_slice(src)
}

/// `BytesMut::split_to`: takes the first `at` bytes out and returns them;
/// the buffer keeps the rest. The outside function panics when `at` exceeds
/// the length, which `requires` leaves out.
#[verifier::external_body]
pub(crate) fn bytes_mut_split_to(b: &mut BytesMut, at: usize) -> (front: BytesMut)
    requires
        at <= mut_bytes(*old(b)).len(),
    ensures
        mut_bytes(front) == mut_bytes(*old(b)).take(at as int),
        mut_bytes(*final(b)) == mut_bytes(*old(b)).skip(at as int),
{
    b.split_to(at)
}

/// `BytesMut::freeze`: the same bytes, made immutable.
#[verifier::external_body]
pub(crate) fn bytes_mut_freeze(b: BytesMut) -> (r: Bytes)
    ensures
        shared_bytes(r) == mut_bytes(b),
{
    b.freeze()
}

/// `Bytes::new`: a value that holds nothing.
#[verifier::external_body]
pub(crate) fn bytes_new() -> (b: Bytes)
    ensures
        shared_bytes(b) == Seq::<u8>::empty(),
{
    Bytes::new()
}

/// `Bytes::len`: the number of bytes held.
#[verifier::external_body]
pub(crate) fn bytes_len(b: &Bytes) -> (n: usize)
    ensures
        n == shared_bytes(*b).len(),
{
    b.len()
}

/// `Bytes::deref`: the held bytes as a slice.
#[verifier::external_body]
pub(crate) fn bytes_slice(b: &Bytes) -> (s: &[u8])
    ensures
        s@ == shared_bytes(*b),
{
    &b[..]
}

/// `Bytes::split_to`: takes the first `at` bytes out and returns them; the
/// value keeps the rest. The outside function panics when `at` exceeds the
/// length, which `requires` leaves out.
#[verifier::external_body]
pub(crate) fn bytes_split_to(b: &mut Bytes, at: usize) -> (front: Bytes)
    requires
        at <= shared_bytes(*old(b)).len(),
    ensures
        shared_bytes(front) == shared_bytes(*old(b)).take(at as int),
        shared_bytes(*final(b)) == shared_bytes(*old(b)).skip(at as int),
{
    b.split_to(at)
}

/// `Bytes::from(Vec<u8>)`: the vector's bytes, in its order.
#[verifier::external_body]
pub(crate) fn bytes_from_vec(v: Vec<u8>) -> (r: Bytes)
    ensures
        shared_bytes(r) == v@,
{
    Bytes::from(v)
}

} // verus!
