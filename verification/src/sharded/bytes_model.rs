//! What the byte buffers of the `bytes` crate hold.

use bytes::buf::ext::Chain;
use bytes::Bytes;
use vstd::prelude::*;

verus! {

#[verifier::external_type_specification]
#[verifier::external_body]
pub struct ExBytes(Bytes);

#[verifier::external_type_specification]
#[verifier::external_body]
#[verifier::reject_recursive_types(T)]
#[verifier::reject_recursive_types(U)]
pub struct ExChain<T, U>(Chain<T, U>);

/// The bytes that the buffer holds.
pub uninterp spec fn contents(buffer: Bytes) -> Seq<u8>;

/// The bytes that the two chained buffers hold, those of the first one first.
pub uninterp spec fn chain_contents(chain: Chain<Bytes, Bytes>) -> Seq<u8>;

/// `Bytes::from_static` makes a buffer of the slice it is given.
pub assume_specification[ Bytes::from_static ](bytes: &'static [u8]) -> (buffer: Bytes)
    ensures
        contents(buffer) == bytes@,
;

/// `Bytes::split_to` returns the bytes before the position and leaves those from it
/// on. It panics when the position is past the end.
pub assume_specification[ Bytes::split_to ](buffer: &mut Bytes, at: usize) -> (front: Bytes)
    requires
        at <= contents(*old(buffer)).len(),
    ensures
        contents(front) == contents(*old(buffer)).take(at as int),
        contents(*final(buffer)) == contents(*old(buffer)).skip(at as int),
;

/// `Bytes::clone` makes another handle to the same bytes.
pub assume_specification[ <Bytes as Clone>::clone ](buffer: &Bytes) -> (copy: Bytes)
    ensures
        contents(copy) == contents(*buffer),
;

/// Calls `Bytes::as_ref`, which gives the bytes as a slice.
#[verifier::external_body]
pub(crate) fn as_slice(buffer: &Bytes) -> (bytes: &[u8])
    ensures
        bytes@ == contents(*buffer),
{
    buffer.as_ref()
}

/// Calls `Chain::new`, which sequences the two buffers.
#[verifier::external_body]
pub(crate) fn chain(first: Bytes, second: Bytes) -> (chain: Chain<Bytes, Bytes>)
    ensures
        chain_contents(chain) == contents(first) + contents(second),
{
    Chain::new(first, second)
}

} // verus!
