//! The mutable store, carried out against a table in memory.

use std::collections::BTreeMap;

use lore_pg::error::StoreError;
use lore_pg::mutable::requests::{hash_from_bytes, typed_key, ListStep, SwapRequest, SwapStep};
use lore_pg::mutable::statements::{MutableStatement, PgMutableStore, PgMutableStoreSettings};
use lore_pg::sql::{Fault, SqlCall, SqlParam};
use lore_pg::types::{Address, ContentHash, Context, KeyType, Partition};

const BRANCH_LATEST_POINTER: KeyType = KeyType { code: 3, untyped: false };
const UNTYPED: KeyType = KeyType { code: 0, untyped: true };

type Rows = BTreeMap<(Vec<u8>, Vec<u8>), Vec<u8>>;

struct Keys {
    store: PgMutableStore,
    rows: Rows,
}

impl Keys {
    fn new() -> Keys {
        let settings = PgMutableStoreSettings::new("mutable_store_test".to_string());
        Keys { store: PgMutableStore::new(&settings), rows: BTreeMap::new() }
    }

    fn execute(&mut self, statement: MutableStatement) -> Option<Vec<u8>> {
        match statement {
            MutableStatement::Select { repository, key } => {
                self.rows.get(&(repository.to_vec(), key.to_vec())).cloned()
            }
            MutableStatement::Delete { repository, key } => {
                self.rows.remove(&(repository.to_vec(), key.to_vec()));
                None
            }
            MutableStatement::Upsert { repository, key, value } => {
                self.rows.insert((repository.to_vec(), key.to_vec()), value.to_vec());
                None
            }
            other => panic!("not a plain statement about one key: {other:?}"),
        }
    }

    /// Executes the statement of a swap that has started when the rows were as in `snapshot`.
    fn swap_on(&mut self, snapshot: &Rows, statement: MutableStatement) -> (Option<Vec<u8>>, bool) {
        match statement {
            MutableStatement::InsertIfAbsent { repository, key, value } => {
                let at = (repository.to_vec(), key.to_vec());
                if self.rows.contains_key(&at) {
                    (snapshot.get(&at).cloned(), false)
                } else {
                    self.rows.insert(at, value.to_vec());
                    (Some(vec![0; 32]), true)
                }
            }
            MutableStatement::UpdateIfMatches { repository, key, value, expected } => {
                let at = (repository.to_vec(), key.to_vec());
                let matches = |rows: &Rows| rows.get(&at) == Some(&expected.to_vec());
                if matches(snapshot) && matches(&self.rows) {
                    self.rows.insert(at, value.to_vec());
                    (Some(expected.to_vec()), true)
                } else {
                    (Some(snapshot.get(&at).cloned().unwrap_or(vec![0; 32])), false)
                }
            }
            other => panic!("not a swap: {other:?}"),
        }
    }

    fn attempt(&mut self, snapshot: &Rows, request: SwapRequest) -> SwapStep {
        let answer = self.swap_on(snapshot, request.statement());
        request.reply(Ok(answer))
    }

    fn load(
        &mut self,
        partition: Partition,
        key: ContentHash,
        key_type: KeyType,
    ) -> Result<ContentHash, StoreError> {
        let request = self.store.load(partition, key, key_type);
        let answer = self.execute(request.statement());
        request.reply(Ok(answer))
    }

    fn store(
        &mut self,
        partition: Partition,
        key: ContentHash,
        value: ContentHash,
        key_type: KeyType,
    ) -> Result<(), StoreError> {
        let request = self.store.store(partition, key, value, key_type);
        self.execute(request.statement());
        request.reply(Ok(()))
    }

    fn compare_and_swap(
        &mut self,
        partition: Partition,
        key: ContentHash,
        expected: ContentHash,
        value: ContentHash,
        key_type: KeyType,
    ) -> Result<ContentHash, StoreError> {
        let request = self.store.compare_and_swap(partition, key, expected, value, key_type);
        let snapshot = self.rows.clone();
        match self.attempt(&snapshot, request) {
            SwapStep::Finish(result) => result,
            SwapStep::Again => panic!("nobody else has changed the key"),
        }
    }

    fn list(&self, partition: Partition, key_type: KeyType) -> Vec<(ContentHash, ContentHash)> {
        match self.store.list(partition, key_type) {
            ListStep::Nothing => Vec::new(),
            ListStep::Query(request) => {
                let (repository, first, last) = match request.statement() {
                    MutableStatement::List { repository, first, last } => {
                        (repository.to_vec(), first.to_vec(), last.to_vec())
                    }
                    other => panic!("{other:?}"),
                };
                let rows = self
                    .rows
                    .iter()
                    .filter(|(at, _)| at.0 == repository && at.1 >= first && at.1 <= last)
                    .map(|(at, value)| (at.1.clone(), value.clone()))
                    .collect();
                request.reply(Ok(rows))
            }
        }
    }
}

fn hash(n: u8) -> ContentHash {
    ContentHash { data: [n; 32] }
}

fn partition(n: u8) -> Partition {
    Context { data: [n; 16] }
}

fn zero() -> ContentHash {
    ContentHash::default()
}

#[test]
fn test_compare_and_swap_mutable() {
    let mut keys = Keys::new();
    let (p, key, value) = (partition(1), hash(2), hash(3));
    let prior = keys.compare_and_swap(p, key, zero(), value, BRANCH_LATEST_POINTER).unwrap();
    assert_eq!(prior, ContentHash::default());
    let loaded = keys.load(p, key, BRANCH_LATEST_POINTER).unwrap();
    assert_eq!(loaded, value);
}

#[test]
fn test_compare_and_swap_mismatch() {
    let mut keys = Keys::new();
    let (p, key, value1, value2) = (partition(1), hash(2), hash(3), hash(4));
    keys.store(p, key, value1, BRANCH_LATEST_POINTER).unwrap();
    let witness = keys.compare_and_swap(p, key, zero(), value2, BRANCH_LATEST_POINTER).unwrap();
    assert_eq!(witness, value1);
    let loaded = keys.load(p, key, BRANCH_LATEST_POINTER).unwrap();
    assert_eq!(loaded, value1);
}

#[test]
fn test_compare_and_swap_not_found() {
    let mut keys = Keys::new();
    let (p, key, expected, value) = (partition(1), hash(2), hash(3), hash(4));
    let witness = keys.compare_and_swap(p, key, expected, value, BRANCH_LATEST_POINTER).unwrap();
    assert_eq!(witness, ContentHash::default());
}

#[test]
fn test_compare_and_swap_not_found_expected() {
    let mut keys = Keys::new();
    let (p, key) = (partition(1), hash(2));
    let (actual_value, wrong_expected, new_value) = (hash(3), hash(4), hash(5));
    keys.store(p, key, actual_value, BRANCH_LATEST_POINTER).unwrap();
    let witness = keys
        .compare_and_swap(p, key, wrong_expected, new_value, BRANCH_LATEST_POINTER)
        .unwrap();
    assert_eq!(witness, actual_value);
}

#[test]
fn swap_succeeds_once() {
    let mut keys = Keys::new();
    let (p, key) = (partition(1), hash(2));
    keys.store(p, key, hash(3), BRANCH_LATEST_POINTER).unwrap();
    let swap = |keys: &mut Keys, value| {
        keys.compare_and_swap(p, key, hash(3), value, BRANCH_LATEST_POINTER).unwrap()
    };
    assert_eq!(swap(&mut keys, hash(4)), hash(3));
    assert_eq!(swap(&mut keys, hash(5)), hash(4));
    assert_eq!(keys.load(p, key, BRANCH_LATEST_POINTER), Ok(hash(4)));
}

#[test]
fn one_of_two_overlapping_swaps_wins() {
    let mut keys = Keys::new();
    let (p, key) = (partition(1), hash(2));
    keys.store(p, key, hash(3), BRANCH_LATEST_POINTER).unwrap();
    let a = keys.store.compare_and_swap(p, key, hash(3), hash(4), BRANCH_LATEST_POINTER);
    let b = keys.store.compare_and_swap(p, key, hash(3), hash(5), BRANCH_LATEST_POINTER);
    // Both start before either has its turn.
    let snapshot = keys.rows.clone();
    assert_eq!(keys.attempt(&snapshot, a), SwapStep::Finish(Ok(hash(3))));
    assert_eq!(keys.attempt(&snapshot, b), SwapStep::Again);
    let snapshot = keys.rows.clone();
    assert_eq!(keys.attempt(&snapshot, b), SwapStep::Finish(Ok(hash(4))));
    assert_eq!(keys.load(p, key, BRANCH_LATEST_POINTER), Ok(hash(4)));
}

#[test]
fn one_of_two_overlapping_inserts_wins() {
    let mut keys = Keys::new();
    let (p, key) = (partition(1), hash(2));
    let a = keys.store.compare_and_swap(p, key, zero(), hash(4), BRANCH_LATEST_POINTER);
    let b = keys.store.compare_and_swap(p, key, zero(), hash(5), BRANCH_LATEST_POINTER);
    let snapshot = keys.rows.clone();
    assert_eq!(keys.attempt(&snapshot, b), SwapStep::Finish(Ok(zero())));
    assert_eq!(keys.swap_on(&snapshot, a.statement()), (None, false));
    assert_eq!(keys.attempt(&snapshot, a), SwapStep::Again);
    let snapshot = keys.rows.clone();
    assert_eq!(keys.attempt(&snapshot, a), SwapStep::Finish(Ok(hash(5))));
    assert_eq!(keys.load(p, key, BRANCH_LATEST_POINTER), Ok(hash(5)));
}

#[test]
fn a_swap_that_was_made_reports_the_expected_value() {
    let keys = Keys::new();
    let p = partition(1);
    let swap = keys.store.compare_and_swap(p, hash(1), hash(3), hash(2), BRANCH_LATEST_POINTER);
    let expected = SwapStep::Finish(Ok(hash(3)));
    assert_eq!(swap.reply(Ok((Some(vec![3; 32]), true))), expected);
    assert_eq!(swap.reply(Ok((None, true))), expected);
    assert_eq!(swap.reply(Ok((Some(vec![9; 32]), false))), SwapStep::Finish(Ok(hash(9))));
}

#[test]
fn storing_zero_removes() {
    let mut keys = Keys::new();
    let (p, key) = (partition(1), hash(2));
    keys.store(p, key, hash(3), BRANCH_LATEST_POINTER).unwrap();
    assert_eq!(keys.rows.len(), 1);
    keys.store(p, key, zero(), BRANCH_LATEST_POINTER).unwrap();
    assert_eq!(keys.rows.len(), 0);
    let typed = typed_key(key, BRANCH_LATEST_POINTER);
    let missing = StoreError::AddressNotFound { address: Address::zero_context_hash(typed) };
    assert_eq!(keys.load(p, key, BRANCH_LATEST_POINTER), Err(missing));
}

#[test]
fn a_stored_zero_counts_as_missing() {
    let mut keys = Keys::new();
    let (p, key) = (partition(1), hash(2));
    keys.store(p, key, hash(3), BRANCH_LATEST_POINTER).unwrap();
    let witness = keys.compare_and_swap(p, key, hash(3), zero(), BRANCH_LATEST_POINTER).unwrap();
    assert_eq!(witness, hash(3));
    assert_eq!(keys.rows.len(), 1);
    assert!(keys.load(p, key, BRANCH_LATEST_POINTER).is_err());
    assert_eq!(keys.list(p, BRANCH_LATEST_POINTER), vec![]);
    // The witness is the expected value, and yet nothing was swapped.
    let witness = keys.compare_and_swap(p, key, zero(), hash(9), BRANCH_LATEST_POINTER).unwrap();
    assert_eq!(witness, zero());
    assert!(keys.load(p, key, BRANCH_LATEST_POINTER).is_err());
}

#[test]
fn kinds_do_not_meet() {
    let mut keys = Keys::new();
    let p = partition(1);
    let other = KeyType { code: 4, untyped: false };
    keys.store(p, hash(2), hash(3), BRANCH_LATEST_POINTER).unwrap();
    assert!(keys.load(p, hash(2), other).is_err());
    assert!(keys.load(partition(2), hash(2), BRANCH_LATEST_POINTER).is_err());
    // Only the first byte is lost.
    let mut near = hash(2);
    near.data[0] = 77;
    assert_eq!(keys.load(p, near, BRANCH_LATEST_POINTER), Ok(hash(3)));
    near.data[31] = 77;
    assert!(keys.load(p, near, BRANCH_LATEST_POINTER).is_err());
}

#[test]
fn typed_key_sets_the_first_byte() {
    let typed = typed_key(hash(2), BRANCH_LATEST_POINTER);
    let mut expected = [2; 32];
    expected[0] = 3;
    assert_eq!(typed.data, expected);
    assert_eq!(typed_key(typed, BRANCH_LATEST_POINTER), typed);
}

#[test]
fn list_returns_the_keys_of_one_kind() {
    let mut keys = Keys::new();
    let p = partition(1);
    let other = KeyType { code: 4, untyped: false };
    keys.store(p, hash(0), hash(10), BRANCH_LATEST_POINTER).unwrap();
    keys.store(p, hash(0xff), hash(11), BRANCH_LATEST_POINTER).unwrap();
    keys.store(p, hash(5), hash(12), other).unwrap();
    keys.store(partition(2), hash(5), hash(13), BRANCH_LATEST_POINTER).unwrap();
    let listed = keys.list(p, BRANCH_LATEST_POINTER);
    let expected = vec![
        (typed_key(hash(0), BRANCH_LATEST_POINTER), hash(10)),
        (typed_key(hash(0xff), BRANCH_LATEST_POINTER), hash(11)),
    ];
    assert_eq!(listed, expected);
    assert_eq!(keys.list(p, UNTYPED), vec![]);
    assert_eq!(keys.store.list(p, UNTYPED), ListStep::Nothing);
}

#[test]
fn list_passes_over_bad_rows_and_failures() {
    let keys = Keys::new();
    let request = match keys.store.list(partition(1), BRANCH_LATEST_POINTER) {
        ListStep::Query(request) => request,
        other => panic!("{other:?}"),
    };
    let rows = vec![
        (vec![3; 31], vec![1; 32]),
        (vec![3; 32], vec![1; 33]),
        (vec![3; 32], vec![0; 32]),
        (vec![3; 32], vec![1; 32]),
    ];
    assert_eq!(request.reply(Ok(rows)), vec![(hash(3), hash(1))]);
    assert_eq!(request.reply(Err(Fault::Pool("down".to_string()))), vec![]);
    assert_eq!(request.reply(Err(Fault::Statement("down".to_string()))), vec![]);
}

#[test]
fn mutable_failures() {
    let keys = Keys::new();
    let p = partition(1);
    let statement = || Fault::Statement("down".to_string());
    let pool = || Fault::Pool("down".to_string());
    let sql = |call: SqlCall| StoreError::Sql { call, cause: "down".to_string() };
    let load = keys.store.load(p, hash(1), BRANCH_LATEST_POINTER);
    assert_eq!(load.reply(Err(statement())), Err(sql(SqlCall::Select)));
    assert_eq!(load.reply(Err(pool())), Err(sql(SqlCall::Pool)));
    assert_eq!(load.reply(Ok(Some(vec![1; 5]))), Err(StoreError::HashLength { len: 5 }));
    let store = keys.store.store(p, hash(1), hash(2), BRANCH_LATEST_POINTER);
    assert_eq!(store.reply(Err(statement())), Err(sql(SqlCall::Upsert)));
    let remove = keys.store.store(p, hash(1), zero(), BRANCH_LATEST_POINTER);
    assert_eq!(remove.reply(Err(statement())), Err(sql(SqlCall::Delete)));
    assert_eq!(remove.reply(Err(pool())), Err(sql(SqlCall::Pool)));
    let swap = keys.store.compare_and_swap(p, hash(1), zero(), hash(2), BRANCH_LATEST_POINTER);
    assert_eq!(swap.reply(Err(statement())), SwapStep::Finish(Err(sql(SqlCall::CasInsert))));
    let short = SwapStep::Finish(Err(StoreError::HashLength { len: 0 }));
    assert_eq!(swap.reply(Ok((Some(vec![]), false))), short);
    let swap = keys.store.compare_and_swap(p, hash(1), hash(3), hash(2), BRANCH_LATEST_POINTER);
    assert_eq!(swap.reply(Err(statement())), SwapStep::Finish(Err(sql(SqlCall::CasUpdate))));
    assert_eq!(swap.reply(Err(pool())), SwapStep::Finish(Err(sql(SqlCall::Pool))));
    assert_eq!(hash_from_bytes(&[4; 32]), Ok(hash(4)));
    assert_eq!(keys.store.flush(true), Ok(()));
}

#[test]
fn mutable_statements_as_sql() {
    let store = PgMutableStore::new(&PgMutableStoreSettings::default());
    let (repository, key, value) = (partition(1), hash(2), hash(3));
    let bytes = |n: u8, len: usize| SqlParam::Bytes(vec![n; len]);
    let sql = store.sql(&MutableStatement::Select { repository, key });
    assert_eq!(sql.text, "SELECT value FROM mutable_store WHERE repository_id = $1 AND key = $2");
    assert_eq!(sql.params, vec![bytes(1, 16), bytes(2, 32)]);
    let sql = store.sql(&MutableStatement::Delete { repository, key });
    assert_eq!(sql.text, "DELETE FROM mutable_store WHERE repository_id = $1 AND key = $2");
    let sql = store.sql(&MutableStatement::InsertIfAbsent { repository, key, value });
    let text = "WITH ins AS (
                     INSERT INTO mutable_store (repository_id, key, value) VALUES ($1, $2, $3)
                     ON CONFLICT (repository_id, key) DO NOTHING
                     RETURNING value
                 )
                 SELECT CASE WHEN EXISTS(SELECT 1 FROM ins)
                             THEN $4
                             ELSE (SELECT value FROM mutable_store WHERE repository_id = $1 AND key = $2)
                        END,
                        EXISTS(SELECT 1 FROM ins)";
    assert_eq!(sql.text, text);
    assert_eq!(sql.params, vec![bytes(1, 16), bytes(2, 32), bytes(3, 32), bytes(0, 32)]);
    let expected = hash(4);
    let sql = store.sql(&MutableStatement::UpdateIfMatches { repository, key, value, expected });
    let text = "WITH upd AS (
                     UPDATE mutable_store SET value = $3
                     WHERE repository_id = $1 AND key = $2 AND value = $4
                     RETURNING value
                 )
                 SELECT CASE WHEN EXISTS(SELECT 1 FROM upd)
                             THEN $4
                             ELSE COALESCE(
                                     (SELECT value FROM mutable_store WHERE repository_id = $1 AND key = $2),
                                     $5
                                  )
                        END,
                        EXISTS(SELECT 1 FROM upd)";
    assert_eq!(sql.text, text);
    let params =
        vec![bytes(1, 16), bytes(2, 32), bytes(3, 32), bytes(4, 32), bytes(0, 32)];
    assert_eq!(sql.params, params);
    let request = match store.list(repository, BRANCH_LATEST_POINTER) {
        ListStep::Query(request) => request,
        other => panic!("{other:?}"),
    };
    let sql = store.sql(&request.statement());
    let text = "SELECT key, value FROM mutable_store
                     WHERE repository_id = $1
                       AND key >= $2
                       AND key <= $3
                       AND value IS NOT NULL";
    assert_eq!(sql.text, text);
    let mut first = vec![0; 32];
    first[0] = 3;
    let mut last = vec![0xff; 32];
    last[0] = 3;
    let params = vec![bytes(1, 16), SqlParam::Bytes(first), SqlParam::Bytes(last)];
    assert_eq!(sql.params, params);
    let text = "CREATE TABLE IF NOT EXISTS mutable_store (
                repository_id BYTEA NOT NULL,
                key           BYTEA NOT NULL,
                value         BYTEA NOT NULL,
                PRIMARY KEY (repository_id, key)
            )";
    assert_eq!(store.ensure_schema(), text);
    let sql = store.sql(&MutableStatement::Upsert { repository, key, value });
    let text = "INSERT INTO mutable_store (repository_id, key, value)
                     VALUES ($1, $2, $3)
                     ON CONFLICT (repository_id, key) DO UPDATE SET value = EXCLUDED.value";
    assert_eq!(sql.text, text);
}
