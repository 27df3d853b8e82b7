//! Payloads: how they are named in the object store, and how they are read.

use bytes::{Bytes, BytesMut};
use crate::error::{ObjectCall, StoreError};
use crate::immutable::statements::StoreRules;
use crate::outside::{bytes_contents, bytes_mut_contents, extend_from_bytes, hex_encode};
use crate::text::{hex_digit, hex_text, hex_text_injective};
use crate::types::{
    lemma_hash_bytes, zero_context_address, Address, ContentHash, Fragment, FRAGMENT_HEADER_SIZE,
};
use vstd::prelude::*;

verus! {

/// The key of a payload in the object store: the hash in hexadecimal digits.
pub open spec fn object_key(hash: ContentHash) -> Seq<char> {
    hex_text(hash@)
}

/// The key of a payload in the object store.
pub fn hash_to_hex(hash: ContentHash) -> (key: String)
    ensures
        key@ == object_key(hash),
{
    let bytes = hash.to_vec();
    hex_encode(bytes.as_slice())
}

/// Different hashes have different keys.
pub proof fn object_key_injective(a: ContentHash, b: ContentHash)
    requires
        object_key(a) == object_key(b),
    ensures
        a == b,
{
    hex_text_injective(a@, b@);
    lemma_hash_bytes(a, b);
}

/// How reading a payload from the object store can fail.
#[derive(Debug, PartialEq, Eq)]
pub enum ObjectFault {
    /// There is no object with the key.
    NoSuchKey,
    /// The object store has answered with another error.
    Service,
    /// The object store has not answered.
    Request(String),
    /// The answer broke off.
    Read(String),
}

/// The error for a payload that could not be read.
pub open spec fn object_error(hash: ContentHash, fault: ObjectFault) -> StoreError {
    match fault {
        ObjectFault::NoSuchKey => StoreError::AddressNotFound {
            address: zero_context_address(hash),
        },
        ObjectFault::Service => StoreError::SlowDown,
        ObjectFault::Request(cause) => StoreError::Object { operation: ObjectCall::Get, cause },
        ObjectFault::Read(cause) => StoreError::Object { operation: ObjectCall::Read, cause },
    }
}

/// The error for a payload that could not be read.
pub fn object_failure(hash: ContentHash, fault: ObjectFault) -> (error: StoreError)
    ensures
        error == object_error(hash, fault),
{
    match fault {
        ObjectFault::NoSuchKey => StoreError::AddressNotFound {
            address: Address::zero_context_hash(hash),
        },
        ObjectFault::Service => StoreError::SlowDown,
        ObjectFault::Request(cause) => StoreError::Object { operation: ObjectCall::Get, cause },
        ObjectFault::Read(cause) => StoreError::Object { operation: ObjectCall::Read, cause },
    }
}

/// The contents of an object, as far as they have come in.
#[derive(Debug)]
pub struct ObjectContents {
    buffer: BytesMut,
}

impl View for ObjectContents {
    type V = Seq<u8>;

    closed spec fn view(&self) -> Seq<u8> {
        bytes_mut_contents(self.buffer)
    }
}

impl ObjectContents {
    /// No contents yet, with room for as many bytes as are expected.
    pub fn with_capacity(capacity: usize) -> (contents: Self)
        requires
            capacity <= isize::MAX,
        ensures
            contents@ == Seq::<u8>::empty(),
    {
        ObjectContents { buffer: BytesMut::with_capacity(capacity) }
    }

    /// Adds the next chunk. A chunk that would make the contents larger than memory can
    /// hold is not added.
    pub fn add_chunk(&mut self, chunk: &Bytes) -> (added: bool)
        ensures
            added == (old(self)@.len() + bytes_contents(*chunk).len() <= isize::MAX),
            added ==> final(self)@ == old(self)@ + bytes_contents(*chunk),
            !added ==> final(self)@ == old(self)@,
    {
        let held: usize = self.buffer.len();
        let limit: usize = isize::MAX as usize;
        if held <= limit && chunk.len() <= limit - held {
            extend_from_bytes(&mut self.buffer, chunk);
            true
        } else {
            false
        }
    }

    /// The number of bytes that have come in.
    pub fn read(&self) -> (read: usize)
        ensures
            read == self@.len(),
    {
        self.buffer.len()
    }
}

/// The payload in the contents of an object: all of it, or what follows a fragment header
/// where payloads with a header in front are accepted. It must have the size that the
/// fragment states.
pub open spec fn payload_in(
    force_write: bool,
    contents: Seq<u8>,
    hash: ContentHash,
    fragment: Fragment,
) -> Result<Seq<u8>, StoreError> {
    let size = fragment.size_payload as nat;
    if contents.len() == size {
        Ok(contents)
    } else if force_write && contents.len() == size + FRAGMENT_HEADER_SIZE {
        Ok(contents.skip(FRAGMENT_HEADER_SIZE as int))
    } else {
        Err(
            StoreError::LoadSize {
                loaded: contents.len() as usize,
                expected: size as usize,
                hash,
            },
        )
    }
}

/// A payload that was read, in terms of its bytes.
pub open spec fn payload_view(payload: Result<Bytes, StoreError>) -> Result<Seq<u8>, StoreError> {
    match payload {
        Ok(bytes) => Ok(bytes_contents(bytes)),
        Err(e) => Err(e),
    }
}

/// The payload in the contents of an object.
pub fn read_payload(
    rules: StoreRules,
    contents: ObjectContents,
    hash: ContentHash,
    fragment: Fragment,
) -> (payload: Result<Bytes, StoreError>)
    ensures
        payload_view(payload) == payload_in(rules.force_write, contents@, hash, fragment),
{
    let payload_size: usize = fragment.size_payload as usize;
    let mut buffer = contents.buffer;
    let buffer_size: usize = buffer.len();
    let payload = if buffer_size > payload_size && buffer_size - payload_size
        == FRAGMENT_HEADER_SIZE && rules.force_write {
        buffer.split_off(FRAGMENT_HEADER_SIZE).freeze()
    } else {
        buffer.freeze()
    };
    if payload.len() == payload_size {
        Ok(payload)
    } else {
        Err(StoreError::LoadSize { loaded: buffer_size, expected: payload_size, hash })
    }
}

/// The key of a payload has two hexadecimal digits for each byte of the hash, in order, the
/// high half of the byte first.
pub proof fn object_key_digits(hash: ContentHash, key: String, i: int)
    requires
        call_ensures(hash_to_hex, (hash,), key),
        0 <= i < 32,
    ensures
        key@.len() == 64,
        key@[2 * i] == hex_digit(hash@[i] as int / 16),
        key@[2 * i + 1] == hex_digit(hash@[i] as int % 16),
{
    assert((2 * i) / 2 == i && (2 * i + 1) / 2 == i);
    assert((2 * i) % 2 == 0 && (2 * i + 1) % 2 == 1);
}

/// Contents are empty before anything has come in, and what is said to have come in is what
/// has.
pub proof fn contents_read(
    capacity: usize,
    fresh: ObjectContents,
    contents: ObjectContents,
    none: usize,
    read: usize,
)
    requires
        call_ensures(ObjectContents::with_capacity, (capacity,), fresh),
        call_ensures(ObjectContents::read, (&fresh,), none),
        call_ensures(ObjectContents::read, (&contents,), read),
    ensures
        none == 0,
        read == contents@.len(),
{
}

/// A chunk that comes in goes behind those that have come in before, byte for byte, unless
/// memory cannot hold it; nothing changes where it cannot.
pub proof fn chunks_add_up(contents: &mut ObjectContents, chunk: &Bytes, added: bool)
    requires
        call_ensures(ObjectContents::add_chunk, (contents, chunk), added),
    ensures
        added <==> old(contents)@.len() + bytes_contents(*chunk).len() <= isize::MAX,
        added ==> final(contents)@.len() == old(contents)@.len() + bytes_contents(*chunk).len(),
        added ==> forall|i: int|
            0 <= i < old(contents)@.len() ==> final(contents)@[i] == #[trigger] old(contents)@[i],
        added ==> forall|i: int|
            0 <= i < bytes_contents(*chunk).len() ==> final(contents)@[old(contents)@.len() + i]
                == #[trigger] bytes_contents(*chunk)[i],
        !added ==> final(contents)@ == old(contents)@,
{
}

} // verus!
