//! Byte strings: the shared buffers of the `bytes` crate and a few slice
//! helpers.

use bytes::Bytes;
use vstd::prelude::*;

verus! {

/// The shared, immutable byte buffer of the `bytes` crate.
#[verifier::external_type_specification]
#[verifier::external_body]
pub struct ExBytes(Bytes);

/// The bytes that a `Bytes` buffer holds.
pub uninterp spec fn contents(buffer: Bytes) -> Seq<u8>;

/// `Bytes::copy_from_slice` makes a buffer that holds a copy of the slice.
pub assume_specification[ Bytes::copy_from_slice ](data: &[u8]) -> (buffer: Bytes)
    ensures
        contents(buffer) == data@,
;

/// `Bytes::new` makes an empty buffer.
pub assume_specification[ Bytes::new ]() -> (buffer: Bytes)
    ensures
        contents(buffer) == Seq::<u8>::empty(),
;

/// `Bytes::clone` makes a buffer that holds the same bytes.
pub assume_specification[ <Bytes as Clone>::clone ](buffer: &Bytes) -> (copy: Bytes)
    ensures
        contents(copy) == contents(*buffer),
;

/// `Bytes::as_ref` (as `AsRef<[u8]>`) lends out exactly the bytes that the
/// buffer holds.
#[verifier::external_body]
pub(crate) fn as_slice(buffer: &Bytes) -> (slice: &[u8])
    ensures
        slice@ == contents(*buffer),
{
    buffer.as_ref()
}

/// `std::str::from_utf8` succeeds exactly on well-formed UTF-8, and then gives
/// the characters that the bytes encode.
#[verifier::external_body]
pub(crate) fn text(bytes: &[u8]) -> (decoded: Option<&str>)
    ensures
        decoded is Some <==> vstd::utf8::valid_utf8(bytes@),
        decoded matches Some(s) ==> s@ == vstd::utf8::decode_utf8(bytes@),
{
    std::str::from_utf8(bytes).ok()
}

/// Whether `data` begins with `prefix`.
pub fn starts_with(data: &[u8], prefix: &[u8]) -> (found: bool)
    ensures
        found == prefix@.is_prefix_of(data@),
{
    if data.len() < prefix.len() {
        return false;
    }
    let mut i: usize = 0;
    while i < prefix.len()
        invariant
            i <= prefix.len() <= data.len(),
            prefix@.take(i as int) =~= data@.take(i as int),
        decreases prefix.len() - i,
    {
        if data[i] != prefix[i] {
            assert(data@.take(prefix@.len() as int)[i as int] == data@[i as int]);
            return false;
        }
        assert(prefix@.take(i + 1) =~= data@.take(i + 1));
        i += 1;
    }
    assert(prefix@.take(prefix@.len() as int) =~= prefix@);
    true
}

/// A copy of `data`.
pub fn copied(data: &[u8]) -> (copy: Vec<u8>)
    ensures
        copy@ == data@,
{
    let mut copy: Vec<u8> = Vec::new();
    copy.extend_from_slice(data);
    copy
}

} // verus!
