//! The byte buffer that the codec reads frames from and writes frames to:
//! `BytesMut` of the `bytes` crate (as re-exported by `tokio_util`), with the
//! operations that the codec calls.

use tokio_util::bytes::{Buf, BufMut, BytesMut};
use vstd::prelude::*;

verus! {

#[verifier::external_type_specification]
#[verifier::external_body]
pub struct ExBytesMut(BytesMut);

/// The bytes that a `BytesMut` holds, in order.
pub uninterp spec fn bytes_mut_contents(b: BytesMut) -> Seq<u8>;

/// `BytesMut::len`: the number of bytes held.
#[verifier::external_body]
pub(crate) fn buf_len(b: &BytesMut) -> (n: usize)
    ensures
        n == bytes_mut_contents(*b).len(),
{
    b.len()
}

/// `<BytesMut as Deref>::deref`: the bytes held, as a slice.
#[verifier::external_body]
pub(crate) fn buf_as_slice(b: &BytesMut) -> (s: &[u8])
    ensures
        s@ == bytes_mut_contents(*b),
{
    &b[..]
}

/// `<BytesMut as Buf>::advance`: drops the first `n` bytes (it panics past the end).
#[verifier::external_body]
pub(crate) fn buf_advance(b: &mut BytesMut, n: usize)
    requires
        n <= bytes_mut_contents(*old(b)).len(),
    ensures
        bytes_mut_contents(*final(b)) == bytes_mut_contents(*old(b)).skip(n as int),
{
    b.advance(n)
}

/// `<BytesMut as Buf>::get_u8`: takes the first byte (it panics when empty).
#[verifier::external_body]
pub(crate) fn buf_get_u8(b: &mut BytesMut) -> (v: u8)
    requires
        bytes_mut_contents(*old(b)).len() >= 1,
    ensures
        v == bytes_mut_contents(*old(b))[0],
        bytes_mut_contents(*final(b)) == bytes_mut_contents(*old(b)).skip(1),
{
    b.get_u8()
}

/// `<BytesMut as Buf>::get_u16`: takes the first two bytes as a big-endian number
/// (it panics with fewer than two).
#[verifier::external_body]
pub(crate) fn buf_get_u16(b: &mut BytesMut) -> (v: u16)
    requires
        bytes_mut_contents(*old(b)).len() >= 2,
    ensures
        v == bytes_mut_contents(*old(b))[0] * 256 + bytes_mut_contents(*old(b))[1],
        bytes_mut_contents(*final(b)) == bytes_mut_contents(*old(b)).skip(2),
{
    b.get_u16()
}

/// `<BytesMut as Buf>::copy_to_slice` into ten bytes: takes the first ten bytes
/// (it panics with fewer than ten).
#[verifier::external_body]
pub(crate) fn buf_copy_to_ten(b: &mut BytesMut) -> (v: [u8; 10])
    requires
        bytes_mut_contents(*old(b)).len() >= 10,
    ensures
        v@ == bytes_mut_contents(*old(b)).take(10),
        bytes_mut_contents(*final(b)) == bytes_mut_contents(*old(b)).skip(10),
{
    let mut v = [0u8; 10];
    b.copy_to_slice(&mut v);
    v
}

/// `BytesMut::split_to`, its result copied into a `Vec`: takes the first `n` bytes
/// (it panics past the end).
#[verifier::external_body]
pub(crate) fn buf_split_to_vec(b: &mut BytesMut, n: usize) -> (v: Vec<u8>)
    requires
        n <= bytes_mut_contents(*old(b)).len(),
    ensures
        v@ == bytes_mut_contents(*old(b)).take(n as int),
        bytes_mut_contents(*final(b)) == bytes_mut_contents(*old(b)).skip(n as int),
{
    b.split_to(n).to_vec()
}

/// `BytesMut::reserve`: makes room for `additional` more bytes; the bytes held stay.
/// It panics when the allocation would pass `isize::MAX` bytes; that allocation also
/// counts bytes already consumed from the front of the buffer, which this contract does
/// not model, so the bound required here is on the bytes held alone.
#[verifier::external_body]
pub(crate) fn buf_reserve(b: &mut BytesMut, additional: usize)
    requires
        bytes_mut_contents(*old(b)).len() + additional <= isize::MAX,
    ensures
        bytes_mut_contents(*final(b)) == bytes_mut_contents(*old(b)),
{
    b.reserve(additional)
}

/// `<BytesMut as BufMut>::put_u8`: appends one byte (it reserves room first, as
/// `buf_reserve` does).
#[verifier::external_body]
pub(crate) fn buf_put_u8(b: &mut BytesMut, v: u8)
    requires
        bytes_mut_contents(*old(b)).len() + 1 <= isize::MAX,
    ensures
        bytes_mut_contents(*final(b)) == bytes_mut_contents(*old(b)).push(v),
{
    b.put_u8(v)
}

/// `<BytesMut as BufMut>::put_slice`: appends the bytes of `s` (it reserves room first,
/// as `buf_reserve` does).
#[verifier::external_body]
pub(crate) fn buf_put_slice(b: &mut BytesMut, s: &[u8])
    requires
        bytes_mut_contents(*old(b)).len() + s@.len() <= isize::MAX,
    ensures
        bytes_mut_contents(*final(b)) == bytes_mut_contents(*old(b)) + s@,
{
    b.put_slice(s)
}

/// `<BytesMut as BufMut>::put_u16`: appends a number as two big-endian bytes (it
/// reserves room first, as `buf_reserve` does).
#[verifier::external_body]
pub(crate) fn buf_put_u16(b: &mut BytesMut, v: u16)
    requires
        bytes_mut_contents(*old(b)).len() + 2 <= isize::MAX,
    ensures
        bytes_mut_contents(*final(b)) == bytes_mut_contents(*old(b)).push((v / 256) as u8).push(
            (v % 256) as u8,
        ),
{
    b.put_u16(v)
}

} // verus!
