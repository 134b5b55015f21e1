//! What verified code may assume about `bytes::Bytes`, the shared buffer that
//! carries media payloads.
//!
//! Nothing in this file is proved. Each item describes a function of the
//! `bytes` crate; everything the library knows about payload buffers rests on
//! these statements.

use vstd::prelude::*;

verus! {

/// `bytes::Bytes`, taken as it is: verified code carries such a buffer
/// around and learns of its contents through the functions below only.
#[verifier::external_type_specification]
#[verifier::external_body]
pub struct ExBytes(bytes::Bytes);

/// The bytes that a payload buffer holds, in order.
pub uninterp spec fn payload_bytes(b: bytes::Bytes) -> Seq<u8>;

/// `Bytes::copy_from_slice` copies the slice into a fresh buffer, so the
/// buffer holds exactly the bytes of the slice.
pub assume_specification[ bytes::Bytes::copy_from_slice ](data: &[u8]) -> (b: bytes::Bytes)
    ensures
        payload_bytes(b) == data@,
;

/// `Bytes::from(Vec<u8>)` takes over the vector's storage without changing
/// its contents.
pub assume_specification[ <bytes::Bytes as core::convert::From<Vec<u8>>>::from ](
    v: Vec<u8>,
) -> (b: bytes::Bytes)
    ensures
        payload_bytes(b) == v@,
;

/// `Bytes::as_ref` borrows the buffer's contents as a slice.
pub assume_specification[ <bytes::Bytes as core::convert::AsRef<[u8]>>::as_ref ](
    b: &bytes::Bytes,
) -> (s: &[u8])
    ensures
        s@ == payload_bytes(*b),
;

/// `Bytes::clone` hands out another handle on the same bytes.
pub assume_specification[ <bytes::Bytes as core::clone::Clone>::clone ](b: &bytes::Bytes) -> (c:
    bytes::Bytes)
    ensures
        payload_bytes(c) == payload_bytes(*b),
;

} // verus!
