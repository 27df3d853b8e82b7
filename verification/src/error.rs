//! What the stores report when they fail.

use crate::sql::{call_message, call_message_text, Fault, SqlCall};
use crate::text::{decimal, decimal_text};
use crate::types::{Address, ContentHash};
use vstd::prelude::*;

verus! {

/// A failure of the lock store.
#[derive(Debug, PartialEq, Eq)]
pub enum LockError {
    /// A lock is held by another owner.
    LockNotOwned,
    /// There is no such lock.
    LockNotFound,
    /// A call to Postgres failed.
    Sql { call: SqlCall, cause: String },
    /// A stored hash has the wrong number of bytes.
    HashLength { len: usize },
    /// A stored branch has the wrong number of bytes.
    BranchLength { len: usize },
    /// A lock row stood in the way of an insert and was gone when it was looked up.
    RowDisappeared,
}

impl LockError {
    /// The message of an internal error; the two errors that callers act on have none.
    pub open spec fn message_text(self) -> Option<Seq<char>> {
        match self {
            LockError::LockNotOwned => None,
            LockError::LockNotFound => None,
            LockError::Sql { call, cause } => Some(call_message_text(call, cause@)),
            LockError::HashLength { len } => Some(
                "pg: expected 32-byte hash, got "@ + decimal_text(len as nat),
            ),
            LockError::BranchLength { len } => Some(
                "pg: expected 16-byte branch, got "@ + decimal_text(len as nat),
            ),
            LockError::RowDisappeared => Some(
                "pg: lock row disappeared between insert and select"@,
            ),
        }
    }

    /// The message of an internal error; `None` for the two errors that callers act on.
    pub fn message(&self) -> (message: Option<String>)
        ensures
            message is Some <==> self.message_text() is Some,
            message matches Some(m) ==> m@ == self.message_text()->0,
    {
        match self {
            LockError::LockNotOwned => None,
            LockError::LockNotFound => None,
            LockError::Sql { call, cause } => Some(call_message(*call, cause.as_str())),
            LockError::HashLength { len } => Some(
                "pg: expected 32-byte hash, got ".to_owned().concat(decimal(*len).as_str()),
            ),
            LockError::BranchLength { len } => Some(
                "pg: expected 16-byte branch, got ".to_owned().concat(decimal(*len).as_str()),
            ),
            LockError::RowDisappeared => Some(
                "pg: lock row disappeared between insert and select".to_owned(),
            ),
        }
    }
}

/// The calls that are made to the object store.
#[derive(Clone, Copy, Debug, PartialEq, Eq, Structural)]
pub enum ObjectCall {
    Put,
    Delete,
    Get,
    Read,
}

/// A failure of the immutable or the mutable store.
#[derive(Debug, PartialEq, Eq)]
pub enum StoreError {
    /// Nothing is stored at the address.
    AddressNotFound { address: Address },
    /// The object store asks to be called less often.
    SlowDown,
    /// A fragment was refused by the host's validation.
    Invalid { cause: String },
    /// A call to Postgres failed.
    Sql { call: SqlCall, cause: String },
    /// A call to the object store failed.
    Object { operation: ObjectCall, cause: String },
    /// A stored hash has the wrong number of bytes.
    HashLength { len: usize },
    /// The metadata of a fragment could not be loaded although the fragment was found.
    Metadata { inner: Box<StoreError> },
    /// Metadata was changed by someone else in the meantime.
    MetadataConflict,
    /// A payload does not have the size that its fragment states.
    PayloadSize { hash: ContentHash },
    /// A stored payload does not have the size that its fragment states.
    LoadSize { loaded: usize, expected: usize, hash: ContentHash },
    /// The fragment is being obliterated, or its parts could not be.
    Obliterate { address: Address },
    /// Two different contents under one hash.
    HashCollision,
    /// The payload has to be supplied.
    PayloadRequired,
}

impl StoreError {
    /// What went wrong in front of the cause, for an error that wraps another one.
    pub open spec fn context_text(self) -> Option<Seq<char>> {
        match self {
            StoreError::Object { operation, .. } => Some(
                match operation {
                    ObjectCall::Put => "S3 put object failed"@,
                    ObjectCall::Delete => "S3 delete object failed"@,
                    ObjectCall::Get => "S3 get object failed"@,
                    ObjectCall::Read => "Failed to read bytes from S3 response stream"@,
                },
            ),
            StoreError::Metadata { .. } => Some("Failed to load metadata after fragment lookup"@),
            _ => None,
        }
    }

    /// What went wrong in front of the cause, for an error that wraps another one.
    pub fn context(&self) -> (context: Option<&'static str>)
        ensures
            context is Some <==> self.context_text() is Some,
            context matches Some(c) ==> c@ == self.context_text()->0,
    {
        match self {
            StoreError::Object { operation, .. } => Some(
                match *operation {
                    ObjectCall::Put => "S3 put object failed",
                    ObjectCall::Delete => "S3 delete object failed",
                    ObjectCall::Get => "S3 get object failed",
                    ObjectCall::Read => "Failed to read bytes from S3 response stream",
                },
            ),
            StoreError::Metadata { .. } => Some("Failed to load metadata after fragment lookup"),
            _ => None,
        }
    }

    /// The message of an internal error. `shown` is how the hash or the address that the
    /// error carries is written out. Errors that callers act on, and those that wrap
    /// another one, have no message of their own.
    pub open spec fn message_text(self, shown: Seq<char>) -> Option<Seq<char>> {
        match self {
            StoreError::Sql { call, cause } => Some(call_message_text(call, cause@)),
            StoreError::HashLength { len } => Some(
                "pg: expected 32-byte hash, got "@ + decimal_text(len as nat),
            ),
            StoreError::MetadataConflict => Some("Failed to update metadata due to conflict"@),
            StoreError::PayloadSize { .. } => Some(
                "Failed to store in immutable store for put "@ + shown,
            ),
            StoreError::LoadSize { loaded, expected, .. } => Some(
                "Failed to load from immutable store, size mismatch (load "@ + decimal_text(
                    loaded as nat,
                ) + ", expected "@ + decimal_text(expected as nat) + ") for get "@ + shown,
            ),
            StoreError::Obliterate { .. } => Some("Failed to obliterate immutable "@ + shown),
            StoreError::HashCollision => Some("Hash collision"@),
            StoreError::PayloadRequired => Some("Payload buffer required"@),
            StoreError::AddressNotFound { .. } => None,
            StoreError::SlowDown => None,
            StoreError::Invalid { .. } => None,
            StoreError::Object { .. } => None,
            StoreError::Metadata { .. } => None,
        }
    }

    /// The message of an internal error, with `shown` for the hash or the address that the
    /// error carries.
    pub fn message(&self, shown: &str) -> (message: Option<String>)
        ensures
            message is Some <==> self.message_text(shown@) is Some,
            message matches Some(m) ==> m@ == self.message_text(shown@)->0,
    {
        match self {
            StoreError::Sql { call, cause } => Some(call_message(*call, cause.as_str())),
            StoreError::HashLength { len } => Some(
                "pg: expected 32-byte hash, got ".to_owned().concat(decimal(*len).as_str()),
            ),
            StoreError::MetadataConflict => Some(
                "Failed to update metadata due to conflict".to_owned(),
            ),
            StoreError::PayloadSize { .. } => Some(
                "Failed to store in immutable store for put ".to_owned().concat(shown),
            ),
            StoreError::LoadSize { loaded, expected, .. } => {
                let mut message =
                    "Failed to load from immutable store, size mismatch (load ".to_owned();
                message.append(decimal(*loaded).as_str());
                message.append(", expected ");
                message.append(decimal(*expected).as_str());
                message.append(") for get ");
                message.append(shown);
                Some(message)
            },
            StoreError::Obliterate { .. } => Some(
                "Failed to obliterate immutable ".to_owned().concat(shown),
            ),
            StoreError::HashCollision => Some("Hash collision".to_owned()),
            StoreError::PayloadRequired => Some("Payload buffer required".to_owned()),
            StoreError::AddressNotFound { .. } => None,
            StoreError::SlowDown => None,
            StoreError::Invalid { .. } => None,
            StoreError::Object { .. } => None,
            StoreError::Metadata { .. } => None,
        }
    }

    /// The error for a statement that failed in the given call.
    pub open spec fn of_fault(fault: Fault, call: SqlCall) -> StoreError {
        match fault {
            Fault::Pool(cause) => StoreError::Sql { call: SqlCall::Pool, cause },
            Fault::Statement(cause) => StoreError::Sql { call, cause },
        }
    }

    /// The error for a statement that failed in the given call: where no connection was to
    /// be had, the pool is named instead of the call.
    pub fn from_fault(fault: Fault, call: SqlCall) -> (error: StoreError)
        ensures
            error == StoreError::of_fault(fault, call),
    {
        match fault {
            Fault::Pool(cause) => StoreError::Sql { call: SqlCall::Pool, cause },
            Fault::Statement(cause) => StoreError::Sql { call, cause },
        }
    }
}

impl LockError {
    /// The error for a statement that failed in the given call.
    pub open spec fn of_fault(fault: Fault, call: SqlCall) -> LockError {
        match fault {
            Fault::Pool(cause) => LockError::Sql { call: SqlCall::Pool, cause },
            Fault::Statement(cause) => LockError::Sql { call, cause },
        }
    }

    /// The error for a statement that failed in the given call: where no connection was to
    /// be had, the pool is named instead of the call.
    pub fn from_fault(fault: Fault, call: SqlCall) -> (error: LockError)
        ensures
            error == LockError::of_fault(fault, call),
    {
        match fault {
            Fault::Pool(cause) => LockError::Sql { call: SqlCall::Pool, cause },
            Fault::Statement(cause) => LockError::Sql { call, cause },
        }
    }
}

/// The message of a failed call to Postgres names the call and ends with the cause, word for
/// word, whichever store it was.
pub proof fn failed_calls_told(
    call: SqlCall,
    label: &'static str,
    cause: String,
    shown: &str,
    lock_message: Option<String>,
    store_message: Option<String>,
)
    requires
        call_ensures(SqlCall::label, (&call,), label),
        call_ensures(LockError::message, (&LockError::Sql { call, cause },), lock_message),
        call_ensures(
            StoreError::message,
            (&StoreError::Sql { call, cause }, shown),
            store_message,
        ),
    ensures
        lock_message matches Some(m) && m@ == "pg "@ + label@ + " error: "@ + cause@,
        store_message matches Some(m) && m@ == "pg "@ + label@ + " error: "@ + cause@,
{
}

/// The message about a column of the wrong length tells the length, in decimal.
pub proof fn wrong_lengths_told(
    len: usize,
    shown: &str,
    lock_hash: Option<String>,
    lock_branch: Option<String>,
    store_hash: Option<String>,
)
    requires
        call_ensures(LockError::message, (&LockError::HashLength { len },), lock_hash),
        call_ensures(LockError::message, (&LockError::BranchLength { len },), lock_branch),
        call_ensures(StoreError::message, (&StoreError::HashLength { len }, shown), store_hash),
    ensures
        lock_hash matches Some(m) && m@ == "pg: expected 32-byte hash, got "@ + decimal_text(
            len as nat,
        ),
        lock_branch matches Some(m) && m@ == "pg: expected 16-byte branch, got "@ + decimal_text(
            len as nat,
        ),
        store_hash matches Some(m) && m@ == "pg: expected 32-byte hash, got "@ + decimal_text(
            len as nat,
        ),
{
}

/// The message about a payload or a fragment shows which one it is about; one about a payload
/// that was read tells both sizes, the one that was read first.
pub proof fn payloads_shown(
    hash: ContentHash,
    address: Address,
    loaded: usize,
    expected: usize,
    shown: &str,
    put: Option<String>,
    load: Option<String>,
    obliterate: Option<String>,
)
    requires
        call_ensures(StoreError::message, (&StoreError::PayloadSize { hash }, shown), put),
        call_ensures(
            StoreError::message,
            (&StoreError::LoadSize { loaded, expected, hash }, shown),
            load,
        ),
        call_ensures(StoreError::message, (&StoreError::Obliterate { address }, shown), obliterate),
    ensures
        put matches Some(m) && m@ == "Failed to store in immutable store for put "@ + shown@,
        load matches Some(m) && m@
            == "Failed to load from immutable store, size mismatch (load "@ + decimal_text(
            loaded as nat,
        ) + ", expected "@ + decimal_text(expected as nat) + ") for get "@ + shown@,
        obliterate matches Some(m) && m@ == "Failed to obliterate immutable "@ + shown@,
{
}

/// Errors that callers act on have no message of their own, whatever they carry.
pub proof fn no_message_needed(
    lock: LockError,
    lock_message: Option<String>,
    error: StoreError,
    shown: &str,
    message: Option<String>,
)
    requires
        lock is LockNotOwned || lock is LockNotFound,
        error is AddressNotFound || error is SlowDown || error is Invalid || error is Object
            || error is Metadata,
        call_ensures(LockError::message, (&lock,), lock_message),
        call_ensures(StoreError::message, (&error, shown), message),
    ensures
        lock_message is None,
        message is None,
{
}

/// An error that wraps another one says what went wrong, whatever the cause; other errors say
/// nothing of the kind.
pub proof fn contexts_told(error: StoreError, context: Option<&'static str>)
    requires
        call_ensures(StoreError::context, (&error,), context),
    ensures
        context is Some <==> error is Object || error is Metadata,
        error is Metadata ==> context->0@ == "Failed to load metadata after fragment lookup"@,
        error matches StoreError::Object { operation, .. } ==> context->0@ == match operation {
            ObjectCall::Put => "S3 put object failed"@,
            ObjectCall::Delete => "S3 delete object failed"@,
            ObjectCall::Get => "S3 get object failed"@,
            ObjectCall::Read => "Failed to read bytes from S3 response stream"@,
        },
{
}

} // verus!
