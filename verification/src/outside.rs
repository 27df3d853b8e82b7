//! The functions of other crates that the library calls, with what it relies on.

use bytes::{Bytes, BytesMut};
use crate::text::{hex_text, parsed_usize};
use vstd::prelude::*;

verus! {

/// A cheaply cloneable, immutable byte buffer of the `bytes` crate.
#[verifier::external_type_specification]
#[verifier::external_body]
pub struct ExBytes(bytes::Bytes);

/// A growable byte buffer of the `bytes` crate.
#[verifier::external_type_specification]
#[verifier::external_body]
pub struct ExBytesMut(bytes::BytesMut);

/// The bytes that a `Bytes` holds.
pub uninterp spec fn bytes_contents(buffer: Bytes) -> Seq<u8>;

/// The bytes that a `BytesMut` holds, its length long.
pub uninterp spec fn bytes_mut_contents(buffer: BytesMut) -> Seq<u8>;

/// `bytes::Bytes::len`: the number of bytes held.
pub assume_specification[ bytes::Bytes::len ](buffer: &Bytes) -> (len: usize)
    ensures
        len == bytes_contents(*buffer).len(),
;

/// `bytes::BytesMut::len`: the number of bytes held.
pub assume_specification[ bytes::BytesMut::len ](buffer: &BytesMut) -> (len: usize)
    ensures
        len == bytes_mut_contents(*buffer).len(),
;

/// `bytes::BytesMut::with_capacity`: a buffer that holds nothing yet. A capacity above
/// `isize::MAX` is left out, as no allocation can be that large.
pub assume_specification[ bytes::BytesMut::with_capacity ](capacity: usize) -> (buffer: BytesMut)
    requires
        capacity <= isize::MAX,
    ensures
        bytes_mut_contents(buffer) == Seq::<u8>::empty(),
;

/// `bytes::BytesMut::split_off`: the bytes from `at` on are handed out, and those before
/// it stay. It panics where `at` is above the capacity; only positions up to the length
/// are admitted here.
pub assume_specification[ bytes::BytesMut::split_off ](buffer: &mut BytesMut, at: usize) -> (tail:
    BytesMut)
    requires
        at <= bytes_mut_contents(*old(buffer)).len(),
    ensures
        bytes_mut_contents(tail) == bytes_mut_contents(*old(buffer)).skip(at as int),
        bytes_mut_contents(*final(buffer)) == bytes_mut_contents(*old(buffer)).take(at as int),
;

/// `bytes::BytesMut::freeze`: the same bytes, no longer growable.
pub assume_specification[ bytes::BytesMut::freeze ](buffer: BytesMut) -> (frozen: Bytes)
    ensures
        bytes_contents(frozen) == bytes_mut_contents(buffer),
;

/// `bytes::BytesMut::extend_from_slice`, fed from a `Bytes`: the bytes of `chunk` are
/// added at the end. Contents that no allocation can hold are left out.
#[verifier::external_body]
pub(crate) fn extend_from_bytes(buffer: &mut BytesMut, chunk: &Bytes)
    requires
        bytes_mut_contents(*old(buffer)).len() + bytes_contents(*chunk).len() <= isize::MAX,
    ensures
        bytes_mut_contents(*final(buffer)) == bytes_mut_contents(*old(buffer))
            + bytes_contents(*chunk),
{
    buffer.extend_from_slice(chunk.as_ref());
}

/// `hex::encode`: two lower-case hexadecimal digits for each byte.
#[verifier::external_body]
pub(crate) fn hex_encode(data: &[u8]) -> (text: String)
    ensures
        text@ == hex_text(data@),
{
    hex::encode(data)
}

/// `chrono::Utc::now` in milliseconds since the epoch, which are never negative: the time is
/// that passed since the epoch. What the clock shows is left unsaid.
#[verifier::external_body]
pub(crate) fn now_millis() -> (now: i64)
    ensures
        now >= 0,
{
    chrono::Utc::now().timestamp_millis()
}

/// `str::parse::<usize>`: an optional plus sign followed by decimal digits only, whose
/// value fits; anything else is an error, for which `None` stands.
#[verifier::external_body]
pub(crate) fn parse_usize(text: &str) -> (number: Option<usize>)
    ensures
        number == parsed_usize(text@),
{
    text.parse::<usize>().ok()
}

} // verus!
