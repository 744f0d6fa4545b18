//! The receive/transmit byte buffer of the stream transports, `BytesMut`
//! from the `bytes` crate (re-exported by `tokio_util`).

use vstd::prelude::*;
use tokio_util::bytes::{Buf, BytesMut};

verus! {

#[verifier::external_type_specification]
#[verifier::external_body]
pub struct ExBytesMut(BytesMut);

/// The bytes that a buffer holds, from its read position to its end.
pub uninterp spec fn buffered(b: BytesMut) -> Seq<u8>;

/// Relies on `BytesMut`'s `Deref<Target = [u8]>`: the slice is exactly the
/// buffered bytes.
#[verifier::external_body]
pub(crate) fn contents(b: &BytesMut) -> (r: &[u8])
    ensures
        r@ == buffered(*b),
{
    &b[..]
}

/// Relies on `Buf::advance` for `BytesMut`: it drops the first `n` buffered
/// bytes, and panics when `n` exceeds what is buffered.
#[verifier::external_body]
pub(crate) fn discard_front(b: &mut BytesMut, n: usize)
    requires
        n <= buffered(*old(b)).len(),
    ensures
        buffered(*final(b)) == buffered(*old(b)).skip(n as int),
{
    b.advance(n)
}

/// Relies on `BytesMut::extend_from_slice`: it appends the slice after the
/// buffered bytes. It grows the allocation first, which panics when the
/// needed capacity exceeds `isize::MAX` bytes.
#[verifier::external_body]
pub(crate) fn append(b: &mut BytesMut, s: &[u8])
    requires
        buffered(*old(b)).len() + s@.len() <= isize::MAX,
    ensures
        buffered(*final(b)) == buffered(*old(b)) + s@,
{
    b.extend_from_slice(s)
}

} // verus!
