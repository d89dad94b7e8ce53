//! `bytes::Bytes` at the library's boundary.
//!
//! Serialised records leave the library as `Bytes` and may come back as
//! such. Inside, all work is done on `Vec<u8>` and `&[u8]`; the two
//! conversions below are the only places where a `Bytes` is made or opened.

use bytes::Bytes;
use vstd::prelude::*;

verus! {

/// `bytes::Bytes`, an immutable byte buffer whose inside Verus does not see.
#[verifier::external_type_specification]
#[verifier::external_body]
pub struct ExBytes(bytes::Bytes);

/// The bytes that a `Bytes` holds, in order.
pub uninterp spec fn bytes_contents(b: Bytes) -> Seq<u8>;

/// `Bytes::from(Vec<u8>)`: taken as given that the buffer holds exactly the
/// vector's bytes, in the vector's order.
#[verifier::external_body]
pub(crate) fn bytes_from_vec(v: Vec<u8>) -> (b: Bytes)
    ensures
        bytes_contents(b) == v@,
{
    Bytes::from(v)
}

/// `Bytes::as_ref`: taken as given that the slice is the buffer's whole
/// contents.
#[verifier::external_body]
pub(crate) fn bytes_as_slice(b: &Bytes) -> (s: &[u8])
    ensures
        s@ == bytes_contents(*b),
{
    b.as_ref()
}

} // verus!
