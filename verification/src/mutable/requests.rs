//! The operations of the mutable store.

use crate::error::StoreError;
use crate::mutable::statements::{MutableStatement, PgMutableStore};
use crate::sql::{Fault, SqlCall};
use crate::types::{
    lemma_hash_bytes, zero_context_address, zero_hash, Address, ContentHash, KeyType, Partition,
    RepositoryId,
};
use vstd::prelude::*;

verus! {

/// The bytes of a key of the given kind: the first byte tells the kind.
pub open spec fn typed_bytes(key: ContentHash, key_type: KeyType) -> Seq<u8> {
    key@.update(0, key_type.code)
}

/// The key under which a key of the given kind is stored.
pub fn typed_key(key: ContentHash, key_type: KeyType) -> (typed: ContentHash)
    ensures
        typed@ == typed_bytes(key, key_type),
{
    let mut data: [u8; 32] = key.data;
    data[0] = key_type.code;
    let typed = ContentHash { data };
    assert(typed@ =~= typed_bytes(key, key_type));
    typed
}

/// The hash in a column.
pub fn hash_from_bytes(bytes: &[u8]) -> (hash: Result<ContentHash, StoreError>)
    ensures
        hash is Ok <==> bytes@.len() == 32,
        hash matches Ok(h) ==> h@ == bytes@,
        hash matches Err(e) ==> e == (StoreError::HashLength { len: bytes@.len() as usize }),
{
    match ContentHash::from_slice(bytes) {
        Some(hash) => Ok(hash),
        None => Err(StoreError::HashLength { len: bytes.len() }),
    }
}

/// The column holds this hash; one that is not 32 bytes long is an error.
pub open spec fn column_hash(bytes: Seq<u8>, result: Result<ContentHash, StoreError>) -> bool {
    if bytes.len() == 32 {
        result is Ok && result->Ok_0@ == bytes
    } else {
        result == Err::<ContentHash, StoreError>(
            StoreError::HashLength { len: bytes.len() as usize },
        )
    }
}

// ---------------------------------------------------------------------------
// Loading
// ---------------------------------------------------------------------------

/// A request for the value of a key.
#[derive(Clone, Copy, Debug, PartialEq, Eq)]
pub struct LoadRequest {
    pub repository: RepositoryId,
    pub key: ContentHash,
}

impl LoadRequest {
    /// The error for a key without a value.
    pub open spec fn not_found(self) -> StoreError {
        StoreError::AddressNotFound { address: zero_context_address(self.key) }
    }

    /// What is made of the column that was read, if there was a row: a value of all zeros
    /// counts as none.
    pub open spec fn loaded(
        self,
        column: Option<Seq<u8>>,
        result: Result<ContentHash, StoreError>,
    ) -> bool {
        match column {
            None => result == Err::<ContentHash, StoreError>(self.not_found()),
            Some(bytes) => if bytes == zero_hash()@ {
                result == Err::<ContentHash, StoreError>(self.not_found())
            } else {
                column_hash(bytes, result)
            },
        }
    }

    /// The statement to execute.
    pub fn statement(&self) -> (statement: MutableStatement)
        ensures
            statement == (MutableStatement::Select { repository: self.repository, key: self.key }),
    {
        MutableStatement::Select { repository: self.repository, key: self.key }
    }

    /// The value, from the column of the row that was found, if any.
    pub fn reply(&self, reply: Result<Option<Vec<u8>>, Fault>) -> (result: Result<
        ContentHash,
        StoreError,
    >)
        ensures
            match reply {
                Ok(None) => self.loaded(None, result),
                Ok(Some(bytes)) => self.loaded(Some(bytes@), result),
                Err(fault) => result == Err::<ContentHash, StoreError>(
                    StoreError::of_fault(fault, SqlCall::Select),
                ),
            },
    {
        let bytes = match reply {
            Ok(Some(bytes)) => bytes,
            Ok(None) => {
                return Err(
                    StoreError::AddressNotFound { address: Address::zero_context_hash(self.key) },
                );
            },
            Err(fault) => {
                return Err(StoreError::from_fault(fault, SqlCall::Select));
            },
        };
        match hash_from_bytes(bytes.as_slice()) {
            Ok(value) => {
                proof {
                    lemma_hash_bytes(value, zero_hash());
                }
                if value.is_zero() {
                    Err(StoreError::AddressNotFound { address: Address::zero_context_hash(self.key) })
                } else {
                    Ok(value)
                }
            },
            Err(e) => Err(e),
        }
    }
}

// ---------------------------------------------------------------------------
// Storing
// ---------------------------------------------------------------------------

/// A request to set the value of a key.
#[derive(Clone, Copy, Debug, PartialEq, Eq)]
pub struct StoreRequest {
    pub repository: RepositoryId,
    pub key: ContentHash,
    pub value: ContentHash,
}

impl StoreRequest {
    /// Storing the zero hash removes the key.
    pub open spec fn plan(self) -> MutableStatement {
        if self.value == zero_hash() {
            MutableStatement::Delete { repository: self.repository, key: self.key }
        } else {
            MutableStatement::Upsert {
                repository: self.repository,
                key: self.key,
                value: self.value,
            }
        }
    }

    /// The call to Postgres, as errors name it.
    pub open spec fn call(self) -> SqlCall {
        if self.value == zero_hash() {
            SqlCall::Delete
        } else {
            SqlCall::Upsert
        }
    }

    /// The statement to execute.
    pub fn statement(&self) -> (statement: MutableStatement)
        ensures
            statement == self.plan(),
    {
        if self.value.is_zero() {
            MutableStatement::Delete { repository: self.repository, key: self.key }
        } else {
            MutableStatement::Upsert {
                repository: self.repository,
                key: self.key,
                value: self.value,
            }
        }
    }

    /// The result, once the statement was executed.
    pub fn reply(&self, reply: Result<(), Fault>) -> (result: Result<(), StoreError>)
        ensures
            result == match reply {
                Ok(()) => Ok::<(), StoreError>(()),
                Err(fault) => Err(StoreError::of_fault(fault, self.call())),
            },
    {
        match reply {
            Ok(()) => Ok(()),
            Err(fault) => {
                if self.value.is_zero() {
                    Err(StoreError::from_fault(fault, SqlCall::Delete))
                } else {
                    Err(StoreError::from_fault(fault, SqlCall::Upsert))
                }
            },
        }
    }
}

// ---------------------------------------------------------------------------
// Compare and swap
// ---------------------------------------------------------------------------

/// A request to set the value of a key, provided that it has the expected value; the zero
/// hash stands for having none.
#[derive(Clone, Copy, Debug, PartialEq, Eq)]
pub struct SwapRequest {
    pub repository: RepositoryId,
    pub key: ContentHash,
    pub expected: ContentHash,
    pub value: ContentHash,
}

/// What is to be done next about a compare and swap.
#[derive(Debug, PartialEq, Eq)]
pub enum SwapStep {
    /// Execute the statement of the request again.
    Again,
    /// The value that the key had, or why it is not known.
    Finish(Result<ContentHash, StoreError>),
}

impl SwapRequest {
    /// One statement compares and writes, and answers the value that the key had and whether
    /// the swap was made.
    pub open spec fn plan(self) -> MutableStatement {
        if self.expected == zero_hash() {
            MutableStatement::InsertIfAbsent {
                repository: self.repository,
                key: self.key,
                value: self.value,
            }
        } else {
            MutableStatement::UpdateIfMatches {
                repository: self.repository,
                key: self.key,
                value: self.value,
                expected: self.expected,
            }
        }
    }

    /// The call to Postgres, as errors name it.
    pub open spec fn call(self) -> SqlCall {
        if self.expected == zero_hash() {
            SqlCall::CasInsert
        } else {
            SqlCall::CasUpdate
        }
    }

    /// The statement to execute.
    pub fn statement(&self) -> (statement: MutableStatement)
        ensures
            statement == self.plan(),
    {
        if self.expected.is_zero() {
            MutableStatement::InsertIfAbsent {
                repository: self.repository,
                key: self.key,
                value: self.value,
            }
        } else {
            MutableStatement::UpdateIfMatches {
                repository: self.repository,
                key: self.key,
                value: self.value,
                expected: self.expected,
            }
        }
    }

    /// What is made of the answer. A statement reads the value as it was when the statement
    /// started, but writes to the row as it is when its turn comes. Where somebody else has
    /// changed the key in between, the answer can be the expected value, or none at all,
    /// although nothing was swapped; it says nothing of the key then, and the statement has
    /// to be executed again.
    pub open spec fn settled(self, made: bool, column: Option<Seq<u8>>, step: SwapStep) -> bool {
        match column {
            Some(bytes) => if !made && self.expected != zero_hash() && bytes == self.expected@ {
                step is Again
            } else {
                step matches SwapStep::Finish(result) && column_hash(bytes, result)
            },
            None => if made {
                step == SwapStep::Finish(Ok(self.expected))
            } else {
                step is Again
            },
        }
    }

    /// The value that the key had, from the column that was answered and from whether the
    /// swap was made.
    pub fn reply(&self, reply: Result<(Option<Vec<u8>>, bool), Fault>) -> (step: SwapStep)
        ensures
            match reply {
                Ok((Some(bytes), made)) => self.settled(made, Some(bytes@), step),
                Ok((None, made)) => self.settled(made, None, step),
                Err(fault) => step == SwapStep::Finish(
                    Err(StoreError::of_fault(fault, self.call())),
                ),
            },
    {
        match reply {
            Ok((Some(bytes), made)) => {
                let result = hash_from_bytes(bytes.as_slice());
                if let Ok(value) = &result {
                    proof {
                        lemma_hash_bytes(*value, self.expected);
                    }
                    if !made && !self.expected.is_zero() && *value == self.expected {
                        return SwapStep::Again;
                    }
                }
                SwapStep::Finish(result)
            },
            Ok((None, made)) => {
                if made {
                    SwapStep::Finish(Ok(self.expected))
                } else {
                    SwapStep::Again
                }
            },
            Err(fault) => {
                if self.expected.is_zero() {
                    SwapStep::Finish(Err(StoreError::from_fault(fault, SqlCall::CasInsert)))
                } else {
                    SwapStep::Finish(Err(StoreError::from_fault(fault, SqlCall::CasUpdate)))
                }
            },
        }
    }
}

// ---------------------------------------------------------------------------
// Listing
// ---------------------------------------------------------------------------

/// A request for the keys of one kind.
#[derive(Clone, Copy, Debug, PartialEq, Eq)]
pub struct ListRequest {
    pub repository: RepositoryId,
    pub code: u8,
}

/// What is to be done about a request for the keys of one kind.
#[derive(Clone, Copy, Debug, PartialEq, Eq)]
pub enum ListStep {
    /// Execute the statement of the request.
    Query(ListRequest),
    /// There are no keys of that kind.
    Nothing,
}

/// The first key of a kind, in the order of their bytes.
pub open spec fn first_bytes(code: u8) -> Seq<u8> {
    Seq::new(32, |i: int| if i == 0 { code } else { 0x00u8 })
}

/// The last key of a kind, in the order of their bytes.
pub open spec fn last_bytes(code: u8) -> Seq<u8> {
    Seq::new(32, |i: int| if i == 0 { code } else { 0xffu8 })
}

/// A row is a key and a value of 32 bytes each, the value not all zeros.
pub open spec fn row_listed(row: (Seq<u8>, Seq<u8>)) -> bool {
    row.0.len() == 32 && row.1.len() == 32 && row.1 != zero_hash()@
}

/// The listed rows, in order; the other rows are passed over.
pub open spec fn listed_rows(rows: Seq<(Seq<u8>, Seq<u8>)>) -> Seq<(Seq<u8>, Seq<u8>)>
    decreases rows.len(),
{
    if rows.len() == 0 {
        seq![]
    } else {
        let before = listed_rows(rows.drop_last());
        if row_listed(rows.last()) {
            before.push(rows.last())
        } else {
            before
        }
    }
}

/// The rows of a list, in terms of their bytes.
pub open spec fn list_rows_view(rows: Seq<(Vec<u8>, Vec<u8>)>) -> Seq<(Seq<u8>, Seq<u8>)> {
    Seq::new(rows.len(), |i: int| (rows[i].0@, rows[i].1@))
}

/// The keys and values of a list, in terms of their bytes.
pub open spec fn pairs_view(pairs: Seq<(ContentHash, ContentHash)>) -> Seq<(Seq<u8>, Seq<u8>)> {
    Seq::new(pairs.len(), |i: int| (pairs[i].0@, pairs[i].1@))
}

impl ListRequest {
    /// The statement to execute.
    pub fn statement(&self) -> (statement: MutableStatement)
        ensures
            statement matches MutableStatement::List { repository, first, last } && repository
                == self.repository && first@ == first_bytes(self.code) && last@ == last_bytes(
                self.code,
            ),
    {
        let mut first: [u8; 32] = [0u8; 32];
        first[0] = self.code;
        let mut last: [u8; 32] = [0xffu8; 32];
        last[0] = self.code;
        assert(first@ =~= first_bytes(self.code));
        assert(last@ =~= last_bytes(self.code));
        MutableStatement::List {
            repository: self.repository,
            first: ContentHash { data: first },
            last: ContentHash { data: last },
        }
    }

    /// The keys and their values, from the rows that were found. A failure is a listing that
    /// has come to its end.
    pub fn reply(&self, reply: Result<Vec<(Vec<u8>, Vec<u8>)>, Fault>) -> (pairs: Vec<
        (ContentHash, ContentHash),
    >)
        ensures
            match reply {
                Ok(rows) => pairs_view(pairs@) == listed_rows(list_rows_view(rows@)),
                Err(_) => pairs@.len() == 0,
            },
    {
        let mut pairs: Vec<(ContentHash, ContentHash)> = Vec::new();
        let rows = match reply {
            Ok(rows) => rows,
            Err(_) => {
                return pairs;
            },
        };
        let ghost view = list_rows_view(rows@);
        let mut i: usize = 0;
        assert(pairs_view(pairs@) =~= listed_rows(view.take(0)));
        while i < rows.len()
            invariant
                0 <= i <= rows@.len(),
                view == list_rows_view(rows@),
                pairs_view(pairs@) == listed_rows(view.take(i as int)),
            decreases rows@.len() - i,
        {
            proof {
                assert(view.take(i + 1).drop_last() =~= view.take(i as int));
                assert(view.take(i + 1).last() == view[i as int]);
            }
            let key = hash_from_bytes(rows[i].0.as_slice());
            let value = hash_from_bytes(rows[i].1.as_slice());
            if let Ok(key) = key {
                if let Ok(value) = value {
                    proof {
                        lemma_hash_bytes(value, zero_hash());
                    }
                    if !value.is_zero() {
                        let ghost before = pairs_view(pairs@);
                        pairs.push((key, value));
                        assert(pairs_view(pairs@) =~= before.push(view[i as int]));
                    }
                }
            }
            i = i + 1;
        }
        assert(view.take(i as int) =~= view);
        pairs
    }
}

impl PgMutableStore {
    /// Asks for the value of a key of the given kind.
    pub fn load(&self, partition: Partition, key: ContentHash, key_type: KeyType) -> (request:
        LoadRequest)
        ensures
            request.repository == partition,
            request.key@ == typed_bytes(key, key_type),
    {
        LoadRequest { repository: partition, key: typed_key(key, key_type) }
    }

    /// Sets the value of a key of the given kind; the zero hash removes it.
    pub fn store(
        &self,
        partition: Partition,
        key: ContentHash,
        value: ContentHash,
        key_type: KeyType,
    ) -> (request: StoreRequest)
        ensures
            request.repository == partition,
            request.key@ == typed_bytes(key, key_type),
            request.value == value,
    {
        StoreRequest { repository: partition, key: typed_key(key, key_type), value }
    }

    /// Sets the value of a key of the given kind, provided that it has the expected value.
    pub fn compare_and_swap(
        &self,
        partition: Partition,
        key: ContentHash,
        expected: ContentHash,
        value: ContentHash,
        key_type: KeyType,
    ) -> (request: SwapRequest)
        ensures
            request.repository == partition,
            request.key@ == typed_bytes(key, key_type),
            request.expected == expected,
            request.value == value,
    {
        SwapRequest { repository: partition, key: typed_key(key, key_type), expected, value }
    }

    /// Asks for all keys of the given kind.
    pub fn list(&self, partition: Partition, key_type: KeyType) -> (step: ListStep)
        ensures
            step == if key_type.untyped {
                ListStep::Nothing
            } else {
                ListStep::Query(ListRequest { repository: partition, code: key_type.code })
            },
    {
        if key_type.untyped {
            ListStep::Nothing
        } else {
            ListStep::Query(ListRequest { repository: partition, code: key_type.code })
        }
    }

    /// There is nothing to flush: what Postgres has answered is durable.
    pub fn flush(&self, _sync_data: bool) -> (result: Result<(), StoreError>)
        ensures
            result == Ok::<(), StoreError>(()),
    {
        Ok(())
    }
}

} // verus!
