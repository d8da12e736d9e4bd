//! The byte container that backs every buffer of this crate.
//!
//! Buffers are `bytes::Bytes` values. Verus cannot look inside one, so this
//! module names what a value holds and states, for each operation the crate
//! uses, how the operation relates the contents before and after. These
//! statements are taken on trust: they are read off the `bytes` crate and are
//! not proved here.

use bytes::Bytes;
use vstd::prelude::*;

verus! {

#[verifier::external_type_specification]
#[verifier::external_body]
pub struct ExBytes(bytes::Bytes);

/// The bytes that a `Bytes` handle refers to, first byte first.
pub uninterp spec fn bytes_contents(b: Bytes) -> Seq<u8>;

/// The largest length a buffer may grow to: allocations of more than
/// `isize::MAX` bytes are refused by the allocator interface.
pub open spec fn max_len() -> int {
    isize::MAX as int
}

/// `Bytes::new`: a handle that holds no bytes.
#[verifier::external_body]
pub(crate) fn bytes_new() -> (r: Bytes)
    ensures
        bytes_contents(r) == Seq::<u8>::empty(),
{
    Bytes::new()
}

/// `Bytes::len`: the number of bytes held.
#[verifier::external_body]
pub(crate) fn bytes_len(b: &Bytes) -> (r: usize)
    ensures
        r == bytes_contents(*b).len(),
{
    b.len()
}

/// `Bytes::extend_from_slice`: the given bytes are added behind those already
/// held, which stay as they are. The call panics when the new length
/// overflows, which the precondition rules out.
#[verifier::external_body]
pub(crate) fn bytes_extend(b: &mut Bytes, extend: &[u8])
    requires
        bytes_contents(*old(b)).len() + extend@.len() <= max_len(),
    ensures
        bytes_contents(*final(b)) == bytes_contents(*old(b)) + extend@,
{
    b.extend_from_slice(extend)
}

/// `Bytes::slice`: a handle to the bytes at positions `begin..end`. The call
/// panics unless `begin <= end <= len`.
#[verifier::external_body]
pub(crate) fn bytes_slice(b: &Bytes, begin: usize, end: usize) -> (r: Bytes)
    requires
        begin <= end <= bytes_contents(*b).len(),
    ensures
        bytes_contents(r) == bytes_contents(*b).subrange(begin as int, end as int),
{
    b.slice(begin, end)
}

/// `Bytes::clone`: a second handle to the same bytes.
pub assume_specification[ <Bytes as Clone>::clone ](b: &Bytes) -> (r: Bytes)
    ensures
        bytes_contents(r) == bytes_contents(*b),
;

/// `Bytes::from(Vec<u8>)`: a handle that holds the vector's elements in order.
#[verifier::external_body]
pub(crate) fn bytes_from_vec(v: Vec<u8>) -> (r: Bytes)
    ensures
        bytes_contents(r) == v@,
{
    Bytes::from(v)
}

/// `Bytes::from(String)`: a handle that holds the string's UTF-8 encoding.
#[verifier::external_body]
pub(crate) fn bytes_from_string(s: String) -> (r: Bytes)
    ensures
        bytes_contents(r) == vstd::utf8::encode_utf8(s@),
{
    Bytes::from(s)
}

} // verus!
