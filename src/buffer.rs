//! Byte buffers of the `bytes` crate, as sequences of bytes.
use vstd::prelude::*;

use bytes::{Bytes, BytesMut};

verus! {

#[verifier::external_type_specification]
#[verifier::external_body]
pub struct ExBytes(Bytes);

#[verifier::external_type_specification]
#[verifier::external_body]
pub struct ExBytesMut(BytesMut);

/// The bytes that a `Bytes` holds.
pub uninterp spec fn bytes_content(b: Bytes) -> Seq<u8>;

/// The bytes that a `BytesMut` holds.
pub uninterp spec fn bytes_mut_content(b: BytesMut) -> Seq<u8>;

/// Relies on `<Bytes as From<Vec<u8>>>::from`: the buffer holds the vector's bytes.
#[verifier::external_body]
pub fn bytes_from_vec(v: Vec<u8>) -> (r: Bytes)
    ensures
        bytes_content(r) == v@,
{
    Bytes::from(v)
}

/// Relies on `Bytes`'s `Deref` to `[u8]` (and `<[u8]>::to_vec`): a copy of its bytes.
#[verifier::external_body]
pub fn bytes_to_vec(b: &Bytes) -> (r: Vec<u8>)
    ensures
        r@ == bytes_content(*b),
{
    b.to_vec()
}

/// Relies on `Bytes::len`: the number of bytes held.
#[verifier::external_body]
pub fn bytes_len(b: &Bytes) -> (r: usize)
    ensures
        r == bytes_content(*b).len(),
{
    b.len()
}

/// Relies on `<Bytes as Clone>::clone`: a handle to the same bytes.
pub assume_specification[ <Bytes as Clone>::clone ](b: &Bytes) -> (r: Bytes)
    ensures
        bytes_content(r) == bytes_content(*b),
;

/// Relies on `BytesMut::extend_from_slice`: appends the bytes at the end.
#[verifier::external_body]
pub fn bytes_mut_extend(buf: &mut BytesMut, data: &Vec<u8>)
    ensures
        bytes_mut_content(*final(buf)) == bytes_mut_content(*old(buf)) + data@,
{
    buf.extend_from_slice(data.as_slice())
}

} // verus!
