//! The `bytes` crate's buffers as Verus sees them: what a buffer holds, and what each
//! buffer operation that this library calls does to it. Nothing in this file is proved;
//! every contract restates the behaviour of the `bytes` crate.
use vstd::prelude::*;
use ::bytes::{Buf, BufMut, Bytes, BytesMut, TryGetError};
use crate::endian::{be_octets, be_value};

verus! {

/// `bytes::Bytes`: a shared, immutable run of octets with a read cursor. Verus sees
/// nothing inside it but `unread`.
#[verifier::external_type_specification]
#[verifier::external_body]
pub struct ExBytes(Bytes);

/// `bytes::BytesMut`: a growable run of octets that is written at its end. Verus sees
/// nothing inside it but `written`.
#[verifier::external_type_specification]
#[verifier::external_body]
pub struct ExBytesMut(BytesMut);

/// `bytes::TryGetError`: the error of a read that asked for more octets than were left.
/// It is carried through as it comes.
#[verifier::external_type_specification]
#[verifier::external_body]
pub struct ExTryGetError(TryGetError);

/// The octets of a `Bytes` from its cursor to its end, in order: what is still to be read.
pub uninterp spec fn unread(buf: Bytes) -> Seq<u8>;

/// The octets that a `BytesMut` holds, in the order in which they were written.
pub uninterp spec fn written(buf: BytesMut) -> Seq<u8>;

/// What a fallible fixed-width read does to a cursor: with at least `width` octets left it
/// succeeds and moves past them, otherwise it fails and the cursor stays in place.
pub open spec fn fixed_read<T>(
    before: Seq<u8>,
    after: Seq<u8>,
    r: Result<T, TryGetError>,
    width: nat,
) -> bool {
    if before.len() >= width {
        r is Ok && after == before.skip(width as int)
    } else {
        r is Err && after == before
    }
}

/// `Bytes::copy_from_slice`: a new buffer that holds a copy of `data`, nothing read yet.
pub assume_specification[ Bytes::copy_from_slice ](data: &[u8]) -> (buf: Bytes)
    ensures
        unread(buf) == data@,
;

/// `Buf::remaining` on a `Bytes`: the number of octets between the cursor and the end.
#[verifier::external_body]
pub(crate) fn remaining(buf: &Bytes) -> (n: usize)
    ensures
        n == unread(*buf).len(),
{
    buf.remaining()
}

/// `Buf::try_get_u8` on a `Bytes`: hands out the next octet and moves past it; with
/// nothing left it fails and the cursor stays in place.
#[verifier::external_body]
pub(crate) fn try_get_u8(buf: &mut Bytes) -> (r: Result<u8, TryGetError>)
    ensures
        fixed_read(unread(*old(buf)), unread(*final(buf)), r, 1),
        r is Ok ==> r->Ok_0 == unread(*old(buf))[0],
{
    buf.try_get_u8()
}

/// `Buf::try_get_u16` on a `Bytes`: reads the next two octets as a number in network
/// order and moves past them; with fewer left it fails and the cursor stays in place.
#[verifier::external_body]
pub(crate) fn try_get_u16(buf: &mut Bytes) -> (r: Result<u16, TryGetError>)
    ensures
        fixed_read(unread(*old(buf)), unread(*final(buf)), r, 2),
        r is Ok ==> r->Ok_0 == be_value(unread(*old(buf)).take(2)),
{
    buf.try_get_u16()
}

/// `Buf::try_get_u32` on a `Bytes`: reads the next four octets as a number in network
/// order and moves past them; with fewer left it fails and the cursor stays in place.
#[verifier::external_body]
pub(crate) fn try_get_u32(buf: &mut Bytes) -> (r: Result<u32, TryGetError>)
    ensures
        fixed_read(unread(*old(buf)), unread(*final(buf)), r, 4),
        r is Ok ==> r->Ok_0 == be_value(unread(*old(buf)).take(4)),
{
    buf.try_get_u32()
}

/// `Buf::try_get_u128` on a `Bytes`: reads the next sixteen octets as a number in network
/// order and moves past them; with fewer left it fails and the cursor stays in place.
#[verifier::external_body]
pub(crate) fn try_get_u128(buf: &mut Bytes) -> (r: Result<u128, TryGetError>)
    ensures
        fixed_read(unread(*old(buf)), unread(*final(buf)), r, 16),
        r is Ok ==> r->Ok_0 == be_value(unread(*old(buf)).take(16)),
{
    buf.try_get_u128()
}

/// `Buf::try_copy_to_slice` on a `Bytes`, the destination being a fresh array of `N`
/// octets: copies the next `N` octets into it and moves past them; with fewer left it
/// fails and the cursor stays in place.
#[verifier::external_body]
pub(crate) fn try_copy_to_array<const N: usize>(buf: &mut Bytes) -> (r: Result<
    [u8; N],
    TryGetError,
>)
    ensures
        fixed_read(unread(*old(buf)), unread(*final(buf)), r, N as nat),
        r is Ok ==> r->Ok_0@ == unread(*old(buf)).take(N as int),
{
    let mut dst = [0u8; N];
    buf.try_copy_to_slice(&mut dst)?;
    Ok(dst)
}

/// `BufMut::put_slice` on a `BytesMut`: appends the octets of `src`. The buffer grows as
/// needed; the room that the crate reports for a `BytesMut` is `isize::MAX` less its
/// length, and a write beyond that panics. The same bound stands on the other writes.
#[verifier::external_body]
pub(crate) fn put_slice(buf: &mut BytesMut, src: &[u8])
    requires
        written(*old(buf)).len() + src@.len() <= isize::MAX,
    ensures
        written(*final(buf)) == written(*old(buf)) + src@,
{
    buf.put_slice(src)
}

/// `BufMut::put_u8` on a `BytesMut`: appends one octet.
#[verifier::external_body]
pub(crate) fn put_u8(buf: &mut BytesMut, n: u8)
    requires
        written(*old(buf)).len() + 1 <= isize::MAX,
    ensures
        written(*final(buf)) == written(*old(buf)).push(n),
{
    buf.put_u8(n)
}

/// `BufMut::put_u16` on a `BytesMut`: appends the two octets of `n` in network order.
#[verifier::external_body]
pub(crate) fn put_u16(buf: &mut BytesMut, n: u16)
    requires
        written(*old(buf)).len() + 2 <= isize::MAX,
    ensures
        written(*final(buf)) == written(*old(buf)) + be_octets(n as nat, 2),
{
    buf.put_u16(n)
}

/// `BufMut::put_u32` on a `BytesMut`: appends the four octets of `n` in network order.
#[verifier::external_body]
pub(crate) fn put_u32(buf: &mut BytesMut, n: u32)
    requires
        written(*old(buf)).len() + 4 <= isize::MAX,
    ensures
        written(*final(buf)) == written(*old(buf)) + be_octets(n as nat, 4),
{
    buf.put_u32(n)
}

/// `BufMut::put_u128` on a `BytesMut`: appends the sixteen octets of `n` in network order.
#[verifier::external_body]
pub(crate) fn put_u128(buf: &mut BytesMut, n: u128)
    requires
        written(*old(buf)).len() + 16 <= isize::MAX,
    ensures
        written(*final(buf)) == written(*old(buf)) + be_octets(n as nat, 16),
{
    buf.put_u128(n)
}

} // verus!
