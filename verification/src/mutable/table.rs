//! What the statements of the mutable store mean for a table of keys, and what follows for
//! the operations as a whole.
//!
//! The meaning given to a statement here is that of its SQL text, where nobody else writes
//! to the table while it is executed. What becomes of swaps that overlap stands in
//! [`crate::mutable::overlap`].

use crate::bytes_order::lex_le;
use crate::error::StoreError;
use crate::mutable::requests::{
    first_bytes, last_bytes, listed_rows, row_listed, typed_bytes, ListRequest, LoadRequest,
    StoreRequest, SwapRequest, SwapStep,
};
use crate::mutable::statements::MutableStatement;
use crate::types::{lemma_hash_bytes, zero_hash, ContentHash, KeyType, RepositoryId};
use vstd::prelude::*;

verus! {

/// A key of a repository.
pub struct MutableKey {
    pub repository: RepositoryId,
    pub key: ContentHash,
}

/// The values of the keys. The primary key admits one value for a key.
pub type MutableTable = Map<MutableKey, ContentHash>;

/// The key that a statement is about; a listing is about none.
pub open spec fn subject(statement: MutableStatement) -> Option<MutableKey> {
    match statement {
        MutableStatement::Select { repository, key } => Some(MutableKey { repository, key }),
        MutableStatement::Delete { repository, key } => Some(MutableKey { repository, key }),
        MutableStatement::Upsert { repository, key, .. } => Some(MutableKey { repository, key }),
        MutableStatement::InsertIfAbsent { repository, key, .. } => Some(
            MutableKey { repository, key },
        ),
        MutableStatement::UpdateIfMatches { repository, key, .. } => Some(
            MutableKey { repository, key },
        ),
        MutableStatement::List { .. } => None,
    }
}

/// The table after a statement.
pub open spec fn table_after(table: MutableTable, statement: MutableStatement) -> MutableTable {
    match statement {
        MutableStatement::Select { .. } => table,
        MutableStatement::Delete { repository, key } => table.remove(
            MutableKey { repository, key },
        ),
        MutableStatement::Upsert { repository, key, value } => table.insert(
            MutableKey { repository, key },
            value,
        ),
        MutableStatement::InsertIfAbsent { repository, key, value } => {
            let at = MutableKey { repository, key };
            if table.contains_key(at) {
                table
            } else {
                table.insert(at, value)
            }
        },
        MutableStatement::UpdateIfMatches { repository, key, value, expected } => {
            let at = MutableKey { repository, key };
            if table.contains_key(at) && table[at] == expected {
                table.insert(at, value)
            } else {
                table
            }
        },
        MutableStatement::List { .. } => table,
    }
}

/// The first column that a statement about one key answers, if it answers a row.
pub open spec fn answer(table: MutableTable, statement: MutableStatement) -> Option<Seq<u8>> {
    match statement {
        MutableStatement::Select { repository, key } => {
            let at = MutableKey { repository, key };
            if table.contains_key(at) {
                Some(table[at]@)
            } else {
                None
            }
        },
        MutableStatement::InsertIfAbsent { repository, key, .. } => {
            let at = MutableKey { repository, key };
            if table.contains_key(at) {
                Some(table[at]@)
            } else {
                Some(zero_hash()@)
            }
        },
        MutableStatement::UpdateIfMatches { repository, key, expected, .. } => {
            let at = MutableKey { repository, key };
            if table.contains_key(at) && table[at] == expected {
                Some(expected@)
            } else if table.contains_key(at) {
                Some(table[at]@)
            } else {
                Some(zero_hash()@)
            }
        },
        _ => None,
    }
}

/// A statement about one key leaves all other keys as they are.
pub proof fn other_keys_kept(table: MutableTable, statement: MutableStatement, at: MutableKey)
    requires
        subject(statement) != Some(at),
    ensures
        table_after(table, statement).contains_key(at) == table.contains_key(at),
        table.contains_key(at) ==> table_after(table, statement)[at] == table[at],
{
}

// ---------------------------------------------------------------------------
// Typed keys
// ---------------------------------------------------------------------------

/// Keys of different kinds never meet.
pub proof fn kinds_disjoint(a: ContentHash, b: ContentHash, s: KeyType, t: KeyType)
    requires
        s.code != t.code,
    ensures
        typed_bytes(a, s) != typed_bytes(b, t),
{
    assert(typed_bytes(a, s)[0] == s.code);
    assert(typed_bytes(b, t)[0] == t.code);
}

/// Of one kind, two keys meet if and only if they differ in the first byte at most.
pub proof fn kind_keeps_rest(a: ContentHash, b: ContentHash, t: KeyType)
    ensures
        typed_bytes(a, t) == typed_bytes(b, t) <==> (forall|i: int|
            1 <= i < 32 ==> #[trigger] a@[i] == b@[i]),
{
    let x = typed_bytes(a, t);
    let y = typed_bytes(b, t);
    if forall|i: int| 1 <= i < 32 ==> #[trigger] a@[i] == b@[i] {
        assert(x =~= y);
    }
    if x == y {
        assert forall|i: int| 1 <= i < 32 implies #[trigger] a@[i] == b@[i] by {
            assert(x[i] == a@[i]);
            assert(y[i] == b@[i]);
        }
    }
}

/// A key that is of a kind already keeps its bytes.
pub proof fn typing_idempotent(key: ContentHash, typed: ContentHash, t: KeyType)
    requires
        typed@ == typed_bytes(key, t),
    ensures
        typed_bytes(typed, t) == typed@,
{
    assert(typed_bytes(typed, t) =~= typed@);
}

proof fn lemma_below_all_ones(a: Seq<u8>, b: Seq<u8>)
    requires
        a.len() == b.len(),
        forall|i: int| 0 <= i < b.len() ==> b[i] == 0xff,
    ensures
        lex_le(a, b),
    decreases a.len(),
{
    if a.len() == 0 {
        assert(a =~= b);
    } else if a[0] == b[0] {
        lemma_below_all_ones(a.drop_first(), b.drop_first());
        if a.drop_first() == b.drop_first() {
            assert(a =~= seq![a[0]] + a.drop_first());
            assert(b =~= seq![b[0]] + b.drop_first());
        }
    }
}

proof fn lemma_above_all_zeros(a: Seq<u8>, b: Seq<u8>)
    requires
        a.len() == b.len(),
        forall|i: int| 0 <= i < a.len() ==> a[i] == 0,
    ensures
        lex_le(a, b),
    decreases a.len(),
{
    if a.len() == 0 {
        assert(a =~= b);
    } else if a[0] == b[0] {
        lemma_above_all_zeros(a.drop_first(), b.drop_first());
        if a.drop_first() == b.drop_first() {
            assert(a =~= seq![a[0]] + a.drop_first());
            assert(b =~= seq![b[0]] + b.drop_first());
        }
    }
}

/// The keys of a kind are those between its first and its last key, in the order in which
/// Postgres compares byte strings.
pub proof fn kind_is_range(key: ContentHash, code: u8)
    ensures
        lex_le(first_bytes(code), key@) && lex_le(key@, last_bytes(code)) <==> key@[0] == code,
{
    let first = first_bytes(code);
    let last = last_bytes(code);
    assert(first[0] == code && last[0] == code);
    if key@[0] == code {
        let rest = key@.drop_first();
        lemma_above_all_zeros(first.drop_first(), rest);
        lemma_below_all_ones(rest, last.drop_first());
        if first.drop_first() == rest {
            assert(first =~= seq![code] + first.drop_first());
            assert(key@ =~= seq![code] + rest);
        }
        if last.drop_first() == rest {
            assert(last =~= seq![code] + last.drop_first());
            assert(key@ =~= seq![code] + rest);
        }
    }
}

// ---------------------------------------------------------------------------
// Loading and storing
// ---------------------------------------------------------------------------

/// What has been stored is what is loaded; once the zero hash has been stored, nothing is
/// found.
pub proof fn store_then_load(
    table: MutableTable,
    store: StoreRequest,
    load: LoadRequest,
    result: Result<ContentHash, StoreError>,
)
    requires
        load.repository == store.repository,
        load.key == store.key,
        load.loaded(
            answer(
                table_after(table, store.plan()),
                MutableStatement::Select { repository: load.repository, key: load.key },
            ),
            result,
        ),
    ensures
        store.value != zero_hash() ==> result == Ok::<ContentHash, StoreError>(store.value),
        store.value == zero_hash() ==> result == Err::<ContentHash, StoreError>(load.not_found()),
{
    lemma_hash_bytes(store.value, zero_hash());
    if store.value != zero_hash() {
        lemma_hash_bytes(result->Ok_0, store.value);
    }
}

/// A key that was never stored is not found.
pub proof fn load_absent(
    table: MutableTable,
    load: LoadRequest,
    result: Result<ContentHash, StoreError>,
)
    requires
        !table.contains_key(MutableKey { repository: load.repository, key: load.key }),
        load.loaded(
            answer(
                table,
                MutableStatement::Select { repository: load.repository, key: load.key },
            ),
            result,
        ),
    ensures
        result == Err::<ContentHash, StoreError>(load.not_found()),
{
}

// ---------------------------------------------------------------------------
// Compare and swap
// ---------------------------------------------------------------------------

/// The value of a key, with the zero hash for a key that has none.
pub open spec fn value_of(table: MutableTable, at: MutableKey) -> ContentHash {
    if table.contains_key(at) {
        table[at]
    } else {
        zero_hash()
    }
}

impl SwapRequest {
    /// The key that the request is about.
    pub open spec fn at(self) -> MutableKey {
        MutableKey { repository: self.repository, key: self.key }
    }

    /// The request changes the table: the key has the expected value, or has none where
    /// none is expected.
    pub open spec fn applies(self, table: MutableTable) -> bool {
        if self.expected == zero_hash() {
            !table.contains_key(self.at())
        } else {
            table.contains_key(self.at()) && table[self.at()] == self.expected
        }
    }
}

/// A compare and swap reports the value that the key had. It sets the new value if the key
/// had the expected one, and leaves the table alone otherwise.
pub proof fn swap_effect(table: MutableTable, swap: SwapRequest, step: SwapStep)
    requires
        swap.settled(swap.applies(table), answer(table, swap.plan()), step),
    ensures
        step == SwapStep::Finish(Ok(value_of(table, swap.at()))),
        table_after(table, swap.plan()) == if swap.applies(table) {
            table.insert(swap.at(), swap.value)
        } else {
            table
        },
{
    lemma_hash_bytes(value_of(table, swap.at()), swap.expected);
    lemma_hash_bytes(step->Finish_0->Ok_0, value_of(table, swap.at()));
}

/// The reported value is the expected one if and only if the swap was made, unless no value
/// is expected where the zero hash is stored.
pub proof fn swap_witness(table: MutableTable, swap: SwapRequest, step: SwapStep)
    requires
        swap.settled(swap.applies(table), answer(table, swap.plan()), step),
        swap.expected == zero_hash() ==> !(table.contains_key(swap.at()) && table[swap.at()]
            == zero_hash()),
    ensures
        swap.applies(table) <==> step == SwapStep::Finish(Ok(swap.expected)),
{
    swap_effect(table, swap, step);
}

/// Of two swaps that expect the same value, the second one fails once the first one was
/// made, and reports the value that the first one set.
pub proof fn swap_once(
    table: MutableTable,
    first: SwapRequest,
    second: SwapRequest,
    step: SwapStep,
)
    requires
        first.at() == second.at(),
        first.expected == second.expected,
        first.value != first.expected,
        first.applies(table),
        ({
            let after = table_after(table, first.plan());
            second.settled(second.applies(after), answer(after, second.plan()), step)
        }),
    ensures
        !second.applies(table_after(table, first.plan())),
        step == SwapStep::Finish(Ok(first.value)),
        table_after(table_after(table, first.plan()), second.plan()) == table_after(
            table,
            first.plan(),
        ),
{
    swap_effect(table_after(table, first.plan()), second, step);
}

/// After a swap that was made, the new value is what is loaded.
pub proof fn swap_then_load(
    table: MutableTable,
    swap: SwapRequest,
    load: LoadRequest,
    result: Result<ContentHash, StoreError>,
)
    requires
        load.repository == swap.repository,
        load.key == swap.key,
        swap.applies(table),
        load.loaded(
            answer(
                table_after(table, swap.plan()),
                MutableStatement::Select { repository: load.repository, key: load.key },
            ),
            result,
        ),
    ensures
        swap.value != zero_hash() ==> result == Ok::<ContentHash, StoreError>(swap.value),
        swap.value == zero_hash() ==> result == Err::<ContentHash, StoreError>(load.not_found()),
{
    lemma_hash_bytes(swap.value, zero_hash());
    if swap.value != zero_hash() {
        lemma_hash_bytes(result->Ok_0, swap.value);
    }
}

// ---------------------------------------------------------------------------
// Listing
// ---------------------------------------------------------------------------

/// The listing of a repository and a range of keys is answered with these rows, which stand
/// under these keys: every key in the range, once, in some order.
pub open spec fn answered(
    table: MutableTable,
    repository: RepositoryId,
    first: Seq<u8>,
    last: Seq<u8>,
    keys: Seq<MutableKey>,
    rows: Seq<(Seq<u8>, Seq<u8>)>,
) -> bool {
    &&& rows.len() == keys.len()
    &&& keys.no_duplicates()
    &&& forall|at: MutableKey|
        #[trigger] keys.contains(at) <==> {
            &&& table.contains_key(at)
            &&& at.repository == repository
            &&& lex_le(first, at.key@)
            &&& lex_le(at.key@, last)
        }
    &&& forall|i: int|
        0 <= i < keys.len() ==> #[trigger] rows[i] == (keys[i].key@, table[keys[i]]@)
}

pub(crate) proof fn lemma_listed_rows_contains(rows: Seq<(Seq<u8>, Seq<u8>)>, row: (Seq<u8>, Seq<u8>))
    ensures
        listed_rows(rows).contains(row) <==> rows.contains(row) && row_listed(row),
    decreases rows.len(),
{
    if rows.len() > 0 {
        let init = rows.drop_last();
        lemma_listed_rows_contains(init, row);
        assert(rows =~= init.push(rows.last()));
        if rows.contains(row) {
            let i = choose|i: int| 0 <= i < rows.len() && rows[i] == row;
            if i < rows.len() - 1 {
                assert(init[i] == row);
                assert(init.contains(row));
            }
        }
        if init.contains(row) {
            let i = choose|i: int| 0 <= i < init.len() && init[i] == row;
            assert(rows[i] == row);
        }
        let before = listed_rows(init);
        if row_listed(rows.last()) {
            let all = before.push(rows.last());
            assert(all[all.len() - 1] == rows.last());
            if all.contains(row) {
                let i = choose|i: int| 0 <= i < all.len() && all[i] == row;
                if i < before.len() {
                    assert(before[i] == row);
                } else {
                    assert(rows[rows.len() - 1] == row);
                }
            }
            if before.contains(row) {
                let i = choose|i: int| 0 <= i < before.len() && before[i] == row;
                assert(all[i] == row);
            }
            if row == rows.last() {
                assert(all.contains(row));
            }
        }
    }
}

proof fn lemma_listed_rows_once(rows: Seq<(Seq<u8>, Seq<u8>)>)
    requires
        rows.no_duplicates(),
    ensures
        listed_rows(rows).no_duplicates(),
    decreases rows.len(),
{
    if rows.len() > 0 {
        let init = rows.drop_last();
        lemma_listed_rows_once(init);
        lemma_listed_rows_contains(init, rows.last());
        if init.contains(rows.last()) {
            let i = choose|i: int| 0 <= i < init.len() && init[i] == rows.last();
            assert(rows[i] == rows[rows.len() - 1]);
        }
    }
}

/// A listing of one kind reports the keys of that kind that have a value, each of them once
/// with its value, and no others.
pub proof fn listing_exact(
    table: MutableTable,
    request: ListRequest,
    keys: Seq<MutableKey>,
    rows: Seq<(Seq<u8>, Seq<u8>)>,
    key: ContentHash,
    value: ContentHash,
)
    requires
        answered(
            table,
            request.repository,
            first_bytes(request.code),
            last_bytes(request.code),
            keys,
            rows,
        ),
    ensures
        listed_rows(rows).no_duplicates(),
        listed_rows(rows).contains((key@, value@)) <==> {
            let at = MutableKey { repository: request.repository, key };
            &&& key@[0] == request.code
            &&& table.contains_key(at)
            &&& table[at] == value
            &&& value != zero_hash()
        },
{
    let at = MutableKey { repository: request.repository, key };
    let row = (key@, value@);
    lemma_listed_rows_contains(rows, row);
    lemma_hash_bytes(value, zero_hash());
    kind_is_range(key, request.code);
    if rows.contains(row) {
        let i = choose|i: int| 0 <= i < rows.len() && rows[i] == row;
        lemma_hash_bytes(keys[i].key, key);
        lemma_hash_bytes(table[keys[i]], value);
        assert(keys.contains(keys[i]));
        assert(keys[i] == at);
    }
    if keys.contains(at) && table[at] == value {
        let i = choose|i: int| 0 <= i < keys.len() && keys[i] == at;
        assert(rows[i] == row);
        assert(rows.contains(row));
    }
    assert forall|i: int, j: int| 0 <= i < j < rows.len() implies rows[i] != rows[j] by {
        assert(keys.contains(keys[i]));
        assert(keys.contains(keys[j]));
        lemma_hash_bytes(keys[i].key, keys[j].key);
    }
    lemma_listed_rows_once(rows);
}

} // verus!
