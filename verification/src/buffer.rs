//! The byte buffer of a connection: `bytes::BytesMut`, seen as the sequence
//! of bytes it holds.

use bytes::BytesMut;
use vstd::prelude::*;

verus! {

/// `bytes::BytesMut`, whose inside is not looked into: a buffer is known by
/// its `contents` alone.
#[verifier::external_type_specification]
#[verifier::external_body]
pub struct ExBytesMut(bytes::BytesMut);

/// The bytes that a buffer holds, front first.
pub uninterp spec fn contents(buf: BytesMut) -> Seq<u8>;

/// `BytesMut`'s `Deref` to `[u8]`: the slice is the buffer's contents.
#[verifier::external_body]
pub(crate) fn as_slice(buf: &BytesMut) -> (bytes: &[u8])
    ensures
        bytes@ == contents(*buf),
{
    let bytes: &[u8] = buf;
    bytes
}

/// `BytesMut::split_to`: the bytes `[0, at)` leave the buffer and are
/// returned, the buffer keeps `[at, len)`. The call panics for `at > len`,
/// which the precondition leaves out.
#[verifier::external_body]
pub(crate) fn split_to(buf: &mut BytesMut, at: usize) -> (head: BytesMut)
    requires
        at <= contents(*old(buf)).len(),
    ensures
        contents(head) == contents(*old(buf)).take(at as int),
        contents(*final(buf)) == contents(*old(buf)).skip(at as int),
{
    buf.split_to(at)
}

/// `BytesMut`'s `Extend<&u8>`: the given bytes are appended at the tail, the
/// buffer growing as needed.
#[verifier::external_body]
pub(crate) fn extend(buf: &mut BytesMut, bytes: &[u8])
    ensures
        contents(*final(buf)) == contents(*old(buf)) + bytes@,
{
    buf.extend(bytes)
}

} // verus!
