//! Trusted boundary around `bytes::Bytes`, the reference-counted immutable
//! byte buffer that every parser in this crate slices without copying.
//!
//! `Bytes` is opaque to the verifier; the uninterpreted function [`contents`]
//! names the byte sequence a `Bytes` value holds, and each wrapper below
//! states over `contents` what the corresponding `bytes` method does, as its
//! source shows.

use vstd::prelude::*;

verus! {

#[verifier::external_type_specification]
#[verifier::external_body]
pub struct ExBytes(bytes::Bytes);

/// The byte sequence a `Bytes` buffer holds.
pub uninterp spec fn contents(b: bytes::Bytes) -> Seq<u8>;

/// Relies on `bytes::Bytes::new`: an empty buffer.
#[verifier::external_body]
pub fn bytes_new() -> (r: bytes::Bytes)
    ensures
        contents(r) == Seq::<u8>::empty(),
{
    bytes::Bytes::new()
}

/// Relies on `bytes::Bytes::len`: the number of bytes in the buffer.
#[verifier::external_body]
pub fn bytes_len(b: &bytes::Bytes) -> (r: usize)
    ensures
        r == contents(*b).len(),
{
    b.len()
}

/// Relies on `<bytes::Bytes as Deref>::deref`: a borrowed view of all bytes.
#[verifier::external_body]
pub fn bytes_as_slice(b: &bytes::Bytes) -> (r: &[u8])
    ensures
        r@ == contents(*b),
{
    b
}

/// Relies on `bytes::Bytes::split_to`: splits off the first `at` bytes as a
/// new zero-copy view, leaving the rest. Panics if `at` exceeds the length,
/// which the precondition rules out.
#[verifier::external_body]
pub fn bytes_split_to(b: &mut bytes::Bytes, at: usize) -> (r: bytes::Bytes)
    requires
        at <= contents(*old(b)).len(),
    ensures
        contents(r) == contents(*old(b)).take(at as int),
        contents(*final(b)) == contents(*old(b)).skip(at as int),
{
    b.split_to(at)
}

/// Relies on `<bytes::Bytes as bytes::Buf>::advance`: drops the first `cnt`
/// bytes from the view. Panics if `cnt` exceeds the length, which the
/// precondition rules out.
#[verifier::external_body]
pub fn bytes_advance(b: &mut bytes::Bytes, cnt: usize)
    requires
        cnt <= contents(*old(b)).len(),
    ensures
        contents(*final(b)) == contents(*old(b)).skip(cnt as int),
{
    bytes::Buf::advance(b, cnt)
}

/// Relies on `<bytes::Bytes as From<Vec<u8>>>::from`: a buffer owning
/// exactly the vector's bytes.
#[verifier::external_body]
pub fn bytes_from_vec(v: Vec<u8>) -> (r: bytes::Bytes)
    ensures
        contents(r) == v@,
{
    bytes::Bytes::from(v)
}

/// Relies on `bytes::Bytes::copy_from_slice`: a buffer holding a copy of the
/// slice.
#[verifier::external_body]
pub fn bytes_copy_from_slice(data: &[u8]) -> (r: bytes::Bytes)
    ensures
        contents(r) == data@,
{
    bytes::Bytes::copy_from_slice(data)
}

/// The byte at a given position, read through the borrowed slice view.
pub fn bytes_at(b: &bytes::Bytes, i: usize) -> (r: u8)
    requires
        i < contents(*b).len(),
    ensures
        r == contents(*b)[i as int],
{
    let s = bytes_as_slice(b);
    s[i]
}

} // verus!
