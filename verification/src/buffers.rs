//! The byte containers of the `bytes` crate, as far as the handshake uses them.

use bytes::BufMut;
use vstd::prelude::*;

verus! {

// The growable buffer of `bytes`; what it holds is spoken of through
// `buffer_bytes`.
#[verifier::external_type_specification]
#[verifier::external_body]
pub struct ExBytesMut(bytes::BytesMut);

// The shared byte string of `bytes`; what it holds is spoken of through
// `shared_bytes`.
#[verifier::external_type_specification]
#[verifier::external_body]
pub struct ExBytes(bytes::Bytes);

/// The bytes that a shared byte string holds.
pub uninterp spec fn shared_bytes(bytes: bytes::Bytes) -> Seq<u8>;

/// The bytes that a buffer holds.
pub uninterp spec fn buffer_bytes(buffer: bytes::BytesMut) -> Seq<u8>;

/// Calls `BytesMut::clear`.
///
/// Believed of bytes: the buffer is empty afterwards.
#[verifier::external_body]
pub(crate) fn buffer_clear(buffer: &mut bytes::BytesMut)
    ensures
        buffer_bytes(*final(buffer)) == Seq::<u8>::empty(),
{
    buffer.clear();
}

/// Calls `BytesMut::reserve`.
///
/// Believed of bytes: the bytes in the buffer stay as they are. The call
/// panics only where the capacity asked for overflows, which the bound
/// required here rules out.
#[verifier::external_body]
pub(crate) fn buffer_reserve(buffer: &mut bytes::BytesMut, additional: usize)
    requires
        buffer_bytes(*old(buffer)).len() + additional <= isize::MAX,
    ensures
        buffer_bytes(*final(buffer)) == buffer_bytes(*old(buffer)),
{
    buffer.reserve(additional);
}

/// Calls `BufMut::put_slice` on a `BytesMut`.
///
/// Believed of bytes: the given bytes are added behind those in the buffer,
/// which grows as needed.
#[verifier::external_body]
pub(crate) fn buffer_put_slice(buffer: &mut bytes::BytesMut, src: &[u8])
    ensures
        buffer_bytes(*final(buffer)) == buffer_bytes(*old(buffer)) + src@,
{
    buffer.put_slice(src);
}

/// Calls `Bytes::from` on a vector.
///
/// Believed of bytes: the byte string holds the bytes of the vector.
#[verifier::external_body]
pub(crate) fn bytes_from_vec(bytes: Vec<u8>) -> (r: bytes::Bytes)
    ensures
        shared_bytes(r) == bytes@,
{
    bytes::Bytes::from(bytes)
}

} // verus!
