//! What comes of the calls to the mutable store, once their statements are executed.

use crate::error::StoreError;
use crate::mutable::requests::{
    first_bytes, last_bytes, list_rows_view, listed_rows, pairs_view, ListRequest, ListStep,
    LoadRequest, StoreRequest, SwapRequest, SwapStep,
};
use crate::mutable::statements::{MutableStatement, PgMutableStore};
use crate::mutable::table::{
    answer, answered, lemma_listed_rows_contains, listing_exact, swap_effect, table_after,
    value_of, MutableKey, MutableTable,
};
use crate::sql::{Fault, SqlCall};
use crate::types::{
    lemma_hash_bytes, zero_context, zero_hash, Address, ContentHash, KeyType, Partition,
    RepositoryId,
};
use vstd::prelude::*;

verus! {

/// A column, or none, in terms of its bytes.
pub open spec fn column_view(column: Option<Vec<u8>>) -> Option<Seq<u8>> {
    match column {
        Some(bytes) => Some(bytes@),
        None => None,
    }
}

/// The key of a kind: the first byte is that of the kind, the others are as they were.
pub open spec fn of_kind(key: ContentHash, key_type: KeyType, typed: ContentHash) -> bool {
    &&& typed@[0] == key_type.code
    &&& forall|i: int| 1 <= i < 32 ==> #[trigger] typed@[i] == key@[i]
}

proof fn lemma_of_kind(key: ContentHash, key_type: KeyType, typed: ContentHash, made: ContentHash)
    requires
        of_kind(key, key_type, typed),
        made@ == key@.update(0, key_type.code),
    ensures
        made == typed,
{
    assert(made@ =~= typed@) by {
        assert forall|i: int| 0 <= i < 32 implies made@[i] == typed@[i] by {
            if i > 0 {
                assert(typed@[i] == key@[i]);
            }
        }
    }
    lemma_hash_bytes(made, typed);
}

/// Loading gives the value that the key has in the repository; a key that has none, or whose
/// value is all zeros, is not found, under its hash in the zero context.
pub proof fn load_reads(
    store: PgMutableStore,
    table: MutableTable,
    partition: Partition,
    key: ContentHash,
    key_type: KeyType,
    typed: ContentHash,
    request: LoadRequest,
    statement: MutableStatement,
    column: Option<Vec<u8>>,
    result: Result<ContentHash, StoreError>,
)
    requires
        of_kind(key, key_type, typed),
        call_ensures(PgMutableStore::load, (&store, partition, key, key_type), request),
        call_ensures(LoadRequest::statement, (&request,), statement),
        column_view(column) == answer(table, statement),
        call_ensures(
            LoadRequest::reply,
            (&request, Ok::<Option<Vec<u8>>, Fault>(column)),
            result,
        ),
    ensures
        ({
            let value = value_of(table, MutableKey { repository: partition, key: typed });
            result == if value == zero_hash() {
                Err::<ContentHash, StoreError>(
                    StoreError::AddressNotFound {
                        address: Address { hash: typed, context: zero_context() },
                    },
                )
            } else {
                Ok(value)
            }
        }),
        table_after(table, statement) == table,
{
    lemma_of_kind(key, key_type, typed, request.key);
    let value = value_of(table, MutableKey { repository: partition, key: typed });
    lemma_hash_bytes(value, zero_hash());
    if value != zero_hash() {
        lemma_hash_bytes(result->Ok_0, value);
    }
}

/// Storing a value gives it to the key; the zero hash takes the key away. No other key
/// changes.
pub proof fn store_writes(
    store: PgMutableStore,
    table: MutableTable,
    partition: Partition,
    key: ContentHash,
    value: ContentHash,
    key_type: KeyType,
    typed: ContentHash,
    request: StoreRequest,
    statement: MutableStatement,
    result: Result<(), StoreError>,
)
    requires
        of_kind(key, key_type, typed),
        call_ensures(PgMutableStore::store, (&store, partition, key, value, key_type), request),
        call_ensures(StoreRequest::statement, (&request,), statement),
        call_ensures(StoreRequest::reply, (&request, Ok::<(), Fault>(())), result),
    ensures
        result == Ok::<(), StoreError>(()),
        ({
            let at = MutableKey { repository: partition, key: typed };
            table_after(table, statement) == if value == zero_hash() {
                table.remove(at)
            } else {
                table.insert(at, value)
            }
        }),
{
    lemma_of_kind(key, key_type, typed, request.key);
}

/// A compare and swap reports the value that the key had, with the zero hash for none. It sets
/// the new value where the key had the expected one, or had none where the zero hash was
/// expected; otherwise nothing changes, and no other key ever does.
pub proof fn swap_swaps(
    store: PgMutableStore,
    table: MutableTable,
    partition: Partition,
    key: ContentHash,
    expected: ContentHash,
    value: ContentHash,
    key_type: KeyType,
    typed: ContentHash,
    request: SwapRequest,
    statement: MutableStatement,
    column: Option<Vec<u8>>,
    made: bool,
    step: SwapStep,
)
    requires
        of_kind(key, key_type, typed),
        call_ensures(
            PgMutableStore::compare_and_swap,
            (&store, partition, key, expected, value, key_type),
            request,
        ),
        call_ensures(SwapRequest::statement, (&request,), statement),
        column_view(column) == answer(table, statement),
        made == request.applies(table),
        call_ensures(
            SwapRequest::reply,
            (&request, Ok::<(Option<Vec<u8>>, bool), Fault>((column, made))),
            step,
        ),
    ensures
        ({
            let at = MutableKey { repository: partition, key: typed };
            let applies = if expected == zero_hash() {
                !table.contains_key(at)
            } else {
                table.contains_key(at) && table[at] == expected
            };
            &&& step == SwapStep::Finish(Ok(value_of(table, at)))
            &&& table_after(table, statement) == if applies {
                table.insert(at, value)
            } else {
                table
            }
            &&& made == applies
        }),
{
    lemma_of_kind(key, key_type, typed, request.key);
    swap_effect(table, request, step);
}

/// A listing of one kind reports the keys of that kind that have a value in the repository,
/// each of them once with its value, and no others.
pub proof fn list_lists(
    store: PgMutableStore,
    table: MutableTable,
    partition: Partition,
    key_type: KeyType,
    request: ListRequest,
    repository: RepositoryId,
    first: ContentHash,
    last: ContentHash,
    keys: Seq<MutableKey>,
    rows: Vec<(Vec<u8>, Vec<u8>)>,
    pairs: Vec<(ContentHash, ContentHash)>,
    key: ContentHash,
    value: ContentHash,
)
    requires
        !key_type.untyped,
        call_ensures(
            PgMutableStore::list,
            (&store, partition, key_type),
            ListStep::Query(request),
        ),
        call_ensures(
            ListRequest::statement,
            (&request,),
            MutableStatement::List { repository, first, last },
        ),
        answered(table, repository, first@, last@, keys, list_rows_view(rows@)),
        call_ensures(
            ListRequest::reply,
            (&request, Ok::<Vec<(Vec<u8>, Vec<u8>)>, Fault>(rows)),
            pairs,
        ),
    ensures
        pairs@.no_duplicates(),
        pairs@.contains((key, value)) <==> {
            let at = MutableKey { repository: partition, key };
            &&& key@[0] == key_type.code
            &&& table.contains_key(at)
            &&& table[at] == value
            &&& value != zero_hash()
        },
{
    assert(first@ == first_bytes(request.code) && last@ == last_bytes(request.code));
    let view = list_rows_view(rows@);
    listing_exact(table, request, keys, view, key, value);
    let listed = listed_rows(view);
    assert(pairs_view(pairs@) == listed);
    assert forall|i: int, j: int| 0 <= i < j < pairs@.len() implies pairs@[i] != pairs@[j] by {
        assert(pairs_view(pairs@)[i] == listed[i] && pairs_view(pairs@)[j] == listed[j]);
        assert(listed[i] != listed[j]);
    }
    if pairs@.contains((key, value)) {
        let i = choose|i: int| 0 <= i < pairs@.len() && pairs@[i] == (key, value);
        assert(pairs_view(pairs@)[i] == (key@, value@));
        assert(listed.contains((key@, value@)));
    }
    if listed.contains((key@, value@)) {
        let i = choose|i: int| 0 <= i < listed.len() && listed[i] == (key@, value@);
        assert(pairs_view(pairs@)[i] == (pairs@[i].0@, pairs@[i].1@));
        lemma_hash_bytes(pairs@[i].0, key);
        lemma_hash_bytes(pairs@[i].1, value);
        assert(pairs@[i] == (key, value));
    }
}

/// Keys of no kind are never listed, and nothing is asked for them; of every kind they are.
pub proof fn list_of_no_kind(
    store: PgMutableStore,
    partition: Partition,
    key_type: KeyType,
    step: ListStep,
)
    requires
        call_ensures(PgMutableStore::list, (&store, partition, key_type), step),
    ensures
        step is Nothing <==> key_type.untyped,
{
}

/// A statement that fails is an error that names what was to be done and passes the cause on;
/// where no connection was to be had, it names the pool. A listing that fails is empty.
pub proof fn failures_named(
    load: LoadRequest,
    store: StoreRequest,
    swap: SwapRequest,
    list: ListRequest,
    fault: Fault,
    loaded: Result<ContentHash, StoreError>,
    stored: Result<(), StoreError>,
    swapped: SwapStep,
    listed: Vec<(ContentHash, ContentHash)>,
)
    requires
        call_ensures(LoadRequest::reply, (&load, Err::<Option<Vec<u8>>, Fault>(fault)), loaded),
        call_ensures(StoreRequest::reply, (&store, Err::<(), Fault>(fault)), stored),
        call_ensures(
            SwapRequest::reply,
            (&swap, Err::<(Option<Vec<u8>>, bool), Fault>(fault)),
            swapped,
        ),
        call_ensures(
            ListRequest::reply,
            (&list, Err::<Vec<(Vec<u8>, Vec<u8>)>, Fault>(fault)),
            listed,
        ),
    ensures
        fault matches Fault::Pool(cause) ==> {
            let error = StoreError::Sql { call: SqlCall::Pool, cause };
            &&& loaded == Err::<ContentHash, StoreError>(error)
            &&& stored == Err::<(), StoreError>(error)
            &&& swapped == SwapStep::Finish(Err(error))
        },
        fault matches Fault::Statement(cause) ==> {
            &&& loaded == Err::<ContentHash, StoreError>(
                StoreError::Sql { call: SqlCall::Select, cause },
            )
            &&& stored == Err::<(), StoreError>(
                StoreError::Sql {
                    call: if store.value == zero_hash() {
                        SqlCall::Delete
                    } else {
                        SqlCall::Upsert
                    },
                    cause,
                },
            )
            &&& swapped == SwapStep::Finish(
                Err(
                    StoreError::Sql {
                        call: if swap.expected == zero_hash() {
                            SqlCall::CasInsert
                        } else {
                            SqlCall::CasUpdate
                        },
                        cause,
                    },
                ),
            )
        },
        listed@.len() == 0,
{
}

/// There is never anything to flush.
pub proof fn flush_is_idle(store: PgMutableStore, sync: bool, result: Result<(), StoreError>)
    requires
        call_ensures(PgMutableStore::flush, (&store, sync), result),
    ensures
        result is Ok,
{
}

/// A value of the wrong length is an error that tells the length.
pub proof fn defective_values_reported(
    load: LoadRequest,
    swap: SwapRequest,
    bytes: Vec<u8>,
    made: bool,
    loaded: Result<ContentHash, StoreError>,
    swapped: SwapStep,
)
    requires
        bytes@.len() != 32,
        call_ensures(
            LoadRequest::reply,
            (&load, Ok::<Option<Vec<u8>>, Fault>(Some(bytes))),
            loaded,
        ),
        call_ensures(
            SwapRequest::reply,
            (&swap, Ok::<(Option<Vec<u8>>, bool), Fault>((Some(bytes), made))),
            swapped,
        ),
    ensures
        loaded == Err::<ContentHash, StoreError>(
            StoreError::HashLength { len: bytes@.len() as usize },
        ),
        swapped == SwapStep::Finish(
            Err(StoreError::HashLength { len: bytes@.len() as usize }),
        ),
{
}

/// Of the rows of a listing those are reported that hold a key and a value of 32 bytes each,
/// the value not all zeros; the others are passed over.
pub proof fn defective_rows_passed_over(
    request: ListRequest,
    rows: Vec<(Vec<u8>, Vec<u8>)>,
    pairs: Vec<(ContentHash, ContentHash)>,
    key: ContentHash,
    value: ContentHash,
)
    requires
        call_ensures(
            ListRequest::reply,
            (&request, Ok::<Vec<(Vec<u8>, Vec<u8>)>, Fault>(rows)),
            pairs,
        ),
    ensures
        pairs@.contains((key, value)) <==> value != zero_hash() && list_rows_view(rows@).contains(
            (key@, value@),
        ),
{
    let view = list_rows_view(rows@);
    let listed = listed_rows(view);
    lemma_listed_rows_contains(view, (key@, value@));
    lemma_hash_bytes(value, zero_hash());
    if pairs@.contains((key, value)) {
        let i = choose|i: int| 0 <= i < pairs@.len() && pairs@[i] == (key, value);
        assert(pairs_view(pairs@)[i] == (key@, value@));
        assert(listed.contains((key@, value@)));
    }
    if listed.contains((key@, value@)) {
        let i = choose|i: int| 0 <= i < listed.len() && listed[i] == (key@, value@);
        assert(pairs_view(pairs@)[i] == (pairs@[i].0@, pairs@[i].1@));
        lemma_hash_bytes(pairs@[i].0, key);
        lemma_hash_bytes(pairs@[i].1, value);
        assert(pairs@[i] == (key, value));
    }
}

/// What was answered is what is reported. Only an answer that says nothing of the key has the
/// statement executed again: no value where no swap was made, or the expected one where one was
/// expected and no swap was made.
pub proof fn swap_answers_told(
    swap: SwapRequest,
    value: ContentHash,
    bytes: Vec<u8>,
    made: bool,
    seen: SwapStep,
    unseen: SwapStep,
)
    requires
        bytes@ == value@,
        call_ensures(
            SwapRequest::reply,
            (&swap, Ok::<(Option<Vec<u8>>, bool), Fault>((Some(bytes), made))),
            seen,
        ),
        call_ensures(
            SwapRequest::reply,
            (&swap, Ok::<(Option<Vec<u8>>, bool), Fault>((None, made))),
            unseen,
        ),
    ensures
        seen == if !made && value == swap.expected && value != zero_hash() {
            SwapStep::Again
        } else {
            SwapStep::Finish(Ok(value))
        },
        unseen == if made {
            SwapStep::Finish(Ok(swap.expected))
        } else {
            SwapStep::Again
        },
{
    lemma_hash_bytes(value, swap.expected);
    if let SwapStep::Finish(Ok(told)) = seen {
        lemma_hash_bytes(told, value);
    }
}

} // verus!
