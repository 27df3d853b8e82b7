//! The lock store, carried out against a table in memory.

use std::collections::BTreeMap;

use lore_pg::error::LockError;
use lore_pg::lock::acquire::AcquireStep;
use lore_pg::lock::records::{canonical_order, LockData, LockKey, LockResource};
use lore_pg::lock::release::ReleaseStep;
use lore_pg::lock::report::{
    branch_from_pg, hash_from_pg, lock_data_from_row, listed_locks, LockRow, StatusStep,
};
use lore_pg::lock::statements::{LockQuery, LockStatement, PgLockStore, PgLockStoreSettings};
use lore_pg::sql::{Fault, SqlCall, SqlParam};
use lore_pg::types::{BranchId, ContentHash, Context, RepositoryId};

type Key = ([u8; 16], [u8; 16], [u8; 32]);
type Entry = (String, String, i64);

#[derive(Clone, Debug, Default, PartialEq)]
struct Table {
    rows: BTreeMap<Key, Entry>,
}

fn key_of(key: &LockKey) -> Key {
    (key.repository.data, key.branch.data, key.hash.data)
}

impl Table {
    fn execute(&mut self, statement: &LockStatement) -> u64 {
        match statement {
            LockStatement::Insert { key, owner_id, description, locked_at } => {
                if self.rows.contains_key(&key_of(key)) {
                    0
                } else {
                    let entry = (owner_id.clone(), description.clone(), *locked_at);
                    self.rows.insert(key_of(key), entry);
                    1
                }
            }
            LockStatement::DeleteOwned { key, owner_id } => {
                let held = match self.rows.get(&key_of(key)) {
                    Some(entry) => entry.0 == *owner_id,
                    None => false,
                };
                if held {
                    self.rows.remove(&key_of(key));
                    1
                } else {
                    0
                }
            }
            LockStatement::Delete { key } => match self.rows.remove(&key_of(key)) {
                Some(_) => 1,
                None => 0,
            },
            other => panic!("not a change: {other:?}"),
        }
    }

    fn owner(&self, statement: &LockStatement) -> Option<String> {
        match statement {
            LockStatement::SelectOwner { key } => {
                self.rows.get(&key_of(key)).map(|entry| entry.0.clone())
            }
            other => panic!("not a question for an owner: {other:?}"),
        }
    }

    fn list(&self, statement: &LockStatement) -> Vec<LockRow> {
        let mut rows = Vec::new();
        for (key, entry) in &self.rows {
            let chosen = match statement {
                LockStatement::Query(query) => match query {
                    LockQuery::Hash(h) => key.2 == h.data,
                    LockQuery::HashRepository(h, r) => key.2 == h.data && key.0 == r.data,
                    LockQuery::HashRepositoryBranch(h, r, b) => {
                        key.2 == h.data && key.0 == r.data && key.1 == b.data
                    }
                    LockQuery::Owner(o) => entry.0 == *o,
                    LockQuery::OwnerRepository(o, r) => entry.0 == *o && key.0 == r.data,
                    LockQuery::OwnerRepositoryBranch(o, r, b) => {
                        entry.0 == *o && key.0 == r.data && key.1 == b.data
                    }
                    LockQuery::Repository(r) => key.0 == r.data,
                    LockQuery::RepositoryBranch(r, b) => key.0 == r.data && key.1 == b.data,
                    LockQuery::RepositoryBranchDescription(r, b, d) => {
                        key.0 == r.data && key.1 == b.data && entry.1 == *d
                    }
                },
                LockStatement::Status { repository, branches, hashes } => {
                    key.0 == repository.data
                        && branches
                            .iter()
                            .zip(hashes.iter())
                            .any(|(b, h)| key.1 == b.data && key.2 == h.data)
                }
                other => panic!("not a listing: {other:?}"),
            };
            if chosen {
                rows.push(LockRow {
                    hash: key.2.to_vec(),
                    branch: key.1.to_vec(),
                    owner_id: entry.0.clone(),
                    description: entry.1.clone(),
                    locked_at: entry.2,
                });
            }
        }
        rows
    }
}

struct Locks {
    store: PgLockStore,
    table: Table,
}

impl Locks {
    fn new() -> Locks {
        Locks {
            store: PgLockStore::new(&PgLockStoreSettings::new("locks_test".to_string())),
            table: Table::default(),
        }
    }

    fn follow_acquire(&mut self, step: AcquireStep) -> Result<Vec<LockData>, LockError> {
        let mut working = self.table.clone();
        let mut step = step;
        loop {
            step = match step {
                AcquireStep::Begin(s) => {
                    working = self.table.clone();
                    s.reply(Ok(()))
                }
                AcquireStep::Insert(s) => {
                    let rows = working.execute(&s.statement());
                    s.reply(Ok(rows))
                }
                AcquireStep::SelectOwner(s) => {
                    let owner = working.owner(&s.statement());
                    s.reply(Ok(owner))
                }
                AcquireStep::Commit(s) => {
                    self.table = working.clone();
                    s.reply(Ok(()))
                }
                AcquireStep::RollBack(e) => return Err(e),
                AcquireStep::Finish(result) => return result,
            };
        }
    }

    fn lock_resources(
        &mut self,
        owner: &str,
        repository: RepositoryId,
        resources: &[LockResource],
    ) -> Result<Vec<LockData>, LockError> {
        let step = self.store.lock_resources(owner, repository, resources).connected(Ok(()));
        self.follow_acquire(step)
    }

    fn lock_at(
        &mut self,
        owner: &str,
        repository: RepositoryId,
        resources: &[LockResource],
        at: i64,
    ) -> Result<Vec<LockData>, LockError> {
        let request = self.store.lock_resources(owner, repository, resources);
        let step = request.connected_at(Ok(()), at);
        self.follow_acquire(step)
    }

    fn unlock_resources(
        &mut self,
        owner: &str,
        validate_user: bool,
        repository: RepositoryId,
        resources: &[LockResource],
    ) -> Result<Vec<LockResource>, LockError> {
        let request = self.store.unlock_resources(owner, validate_user, repository, resources);
        let mut working = self.table.clone();
        let mut step = request.connected(Ok(()));
        loop {
            step = match step {
                ReleaseStep::Begin(s) => s.reply(Ok(())),
                ReleaseStep::Delete(s) => {
                    let rows = working.execute(&s.statement());
                    s.reply(Ok(rows))
                }
                ReleaseStep::SelectOwner(s) => {
                    let owner = working.owner(&s.statement());
                    s.reply(Ok(owner))
                }
                ReleaseStep::Commit(s) => {
                    self.table = working.clone();
                    s.reply(Ok(()))
                }
                ReleaseStep::RollBack(e) => return Err(e),
                ReleaseStep::Finish(result) => return result,
            };
        }
    }

    fn query_locks(&self, query: LockQuery) -> Result<Vec<LockData>, LockError> {
        let statement = self.store.query_locks(query);
        listed_locks(Ok(self.table.list(&statement)))
    }

    fn check_locks_status(
        &self,
        repository: RepositoryId,
        resources: &[LockResource],
    ) -> Result<Vec<LockData>, LockError> {
        match self.store.check_locks_status(repository, resources) {
            StatusStep::Query(statement) => listed_locks(Ok(self.table.list(&statement))),
            StatusStep::Nothing => Ok(Vec::new()),
        }
    }
}

fn context(n: u8) -> Context {
    Context { data: [n; 16] }
}

fn hash(n: u8) -> ContentHash {
    ContentHash { data: [n; 32] }
}

fn make_resource(branch: BranchId, hash: ContentHash, desc: &str) -> LockResource {
    LockResource { branch, hash, description: desc.to_string() }
}

#[test]
fn test_acquire_success() {
    let mut locks = Locks::new();
    let resource = make_resource(context(2), hash(3), "/a/file.txt");
    let taken = locks.lock_resources("alice", context(1), &[resource.clone()]).unwrap();
    assert_eq!(taken.len(), 1);
    assert_eq!(taken[0].owner, "alice");
    assert_eq!(taken[0].resource, resource);
}

#[test]
fn test_acquire_idempotent_same_owner() {
    let mut locks = Locks::new();
    let resource = make_resource(context(2), hash(3), "/b/file.txt");
    locks.lock_resources("alice", context(1), &[resource.clone()]).unwrap();
    let taken = locks.lock_resources("alice", context(1), &[resource.clone()]).unwrap();
    assert_eq!(taken.len(), 0);
}

#[test]
fn test_acquire_conflict_other_owner() {
    let mut locks = Locks::new();
    let resource = make_resource(context(2), hash(3), "/c/file.txt");
    locks.lock_resources("alice", context(1), &[resource.clone()]).unwrap();
    let err = locks.lock_resources("bob", context(1), &[resource.clone()]).unwrap_err();
    assert!(matches!(err, LockError::LockNotOwned), "expected LockNotOwned, got {err:?}");
    let status = locks.check_locks_status(context(1), &[resource.clone()]).unwrap();
    assert_eq!(status.len(), 1);
    assert_eq!(status[0].owner, "alice");
}

#[test]
fn test_query_hash() {
    let mut locks = Locks::new();
    let shared = hash(9);
    locks
        .lock_resources(
            "alice",
            context(1),
            &[
                make_resource(context(2), shared, "/h1.txt"),
                make_resource(context(3), shared, "/h2.txt"),
            ],
        )
        .unwrap();
    let found = locks.query_locks(LockQuery::Hash(shared)).unwrap();
    assert_eq!(found.len(), 2);
    assert!(found.iter().all(|l| l.resource.hash == shared));
}

#[test]
fn test_query_owner() {
    let mut locks = Locks::new();
    locks
        .lock_resources(
            "alice",
            context(1),
            &[
                make_resource(context(2), hash(3), "/o1.txt"),
                make_resource(context(2), hash(4), "/o2.txt"),
            ],
        )
        .unwrap();
    let found = locks.query_locks(LockQuery::Owner("alice".to_string())).unwrap();
    assert!(found.len() >= 2);
    assert!(found.iter().all(|l| l.owner == "alice"));
}

#[test]
fn test_query_repository() {
    let mut locks = Locks::new();
    locks
        .lock_resources(
            "alice",
            context(1),
            &[
                make_resource(context(2), hash(3), "/r1.txt"),
                make_resource(context(2), hash(4), "/r2.txt"),
            ],
        )
        .unwrap();
    let found = locks.query_locks(LockQuery::Repository(context(1))).unwrap();
    assert_eq!(found.len(), 2);
}

#[test]
fn test_query_repository_branch() {
    let mut locks = Locks::new();
    let branch_a = context(2);
    let branch_b = context(3);
    locks
        .lock_resources(
            "alice",
            context(1),
            &[
                make_resource(branch_a, hash(3), "/rb1.txt"),
                make_resource(branch_b, hash(4), "/rb2.txt"),
            ],
        )
        .unwrap();
    let found = locks.query_locks(LockQuery::RepositoryBranch(context(1), branch_a)).unwrap();
    assert_eq!(found.len(), 1);
    assert_eq!(found[0].resource.branch, branch_a);
}

#[test]
fn test_query_repository_branch_description() {
    let mut locks = Locks::new();
    let branch = context(2);
    let desc = "/rbd-unique.txt";
    locks
        .lock_resources(
            "alice",
            context(1),
            &[
                make_resource(branch, hash(3), desc),
                make_resource(branch, hash(4), "/rbd-other.txt"),
            ],
        )
        .unwrap();
    let query = LockQuery::RepositoryBranchDescription(context(1), branch, desc.to_string());
    let found = locks.query_locks(query).unwrap();
    assert_eq!(found.len(), 1);
    assert_eq!(found[0].resource.description, desc);
}

#[test]
fn test_check_locks_status() {
    let mut locks = Locks::new();
    let branch = context(2);
    let locked_hash = hash(3);
    let unlocked_hash = hash(4);
    locks
        .lock_resources("alice", context(1), &[make_resource(branch, locked_hash, "/locked.txt")])
        .unwrap();
    let status = locks
        .check_locks_status(
            context(1),
            &[
                make_resource(branch, locked_hash, "/locked.txt"),
                make_resource(branch, unlocked_hash, "/unlocked.txt"),
            ],
        )
        .unwrap();
    assert_eq!(status.len(), 1);
    assert_eq!(status[0].resource.hash, locked_hash);
}

#[test]
fn test_unlock_no_validate() {
    let mut locks = Locks::new();
    let resource = make_resource(context(2), hash(3), "/unv.txt");
    locks.lock_resources("alice", context(1), &[resource.clone()]).unwrap();
    locks.unlock_resources("bob", false, context(1), &[resource.clone()]).unwrap();
    locks.unlock_resources("bob", false, context(1), &[resource.clone()]).unwrap();
}

#[test]
fn test_unlock_validate_success() {
    let mut locks = Locks::new();
    let resource = make_resource(context(2), hash(3), "/vs.txt");
    locks.lock_resources("alice", context(1), &[resource.clone()]).unwrap();
    let result = locks.unlock_resources("alice", true, context(1), &[resource.clone()]).unwrap();
    assert_eq!(result.len(), 1);
    let status = locks.check_locks_status(context(1), &[resource.clone()]).unwrap();
    assert!(status.is_empty());
}

#[test]
fn test_unlock_validate_wrong_owner() {
    let mut locks = Locks::new();
    let resource = make_resource(context(2), hash(3), "/vwo.txt");
    locks.lock_resources("alice", context(1), &[resource.clone()]).unwrap();
    let err = locks.unlock_resources("bob", true, context(1), &[resource.clone()]).unwrap_err();
    assert!(matches!(err, LockError::LockNotOwned), "expected LockNotOwned, got {err:?}");
    let status = locks.check_locks_status(context(1), &[resource.clone()]).unwrap();
    assert_eq!(status.len(), 1);
}

#[test]
fn test_unlock_validate_not_found() {
    let mut locks = Locks::new();
    let resource = make_resource(context(2), hash(3), "/vnf.txt");
    let err = locks.unlock_resources("alice", true, context(1), &[resource.clone()]).unwrap_err();
    assert!(matches!(err, LockError::LockNotFound), "expected LockNotFound, got {err:?}");
}

#[test]
fn acquire_rolls_back_the_whole_request() {
    let mut locks = Locks::new();
    let a = make_resource(context(2), hash(3), "/a");
    let b = make_resource(context(2), hash(4), "/b");
    locks.lock_resources("bob", context(1), &[b.clone()]).unwrap();
    let before = locks.table.clone();
    let err = locks.lock_resources("alice", context(1), &[a.clone(), b.clone()]).unwrap_err();
    assert_eq!(err, LockError::LockNotOwned);
    assert_eq!(locks.table, before);
}

#[test]
fn acquire_reports_only_new_locks_in_canonical_order() {
    let mut locks = Locks::new();
    let a = make_resource(context(2), hash(3), "/a");
    let b = make_resource(context(2), hash(4), "/b");
    let c = make_resource(context(1), hash(9), "/c");
    locks.lock_at("alice", context(1), &[b.clone()], 5).unwrap();
    let request = [b.clone(), a.clone(), c.clone(), a.clone()];
    let taken = locks.lock_at("alice", context(1), &request, 7).unwrap();
    let expected = vec![
        LockData { resource: c, owner: "alice".to_string(), locked_at: 7 },
        LockData { resource: a, owner: "alice".to_string(), locked_at: 7 },
    ];
    assert_eq!(taken, expected);
}

#[test]
fn acquire_stamps_the_present_time() {
    let mut locks = Locks::new();
    let a = make_resource(context(2), hash(3), "/a");
    let taken = locks.lock_resources("alice", context(1), &[a]).unwrap();
    // 2020-01-01 in milliseconds since the epoch.
    assert!(taken[0].locked_at > 1_577_836_800_000);
}

#[test]
fn acquire_then_release_restores_the_table() {
    let mut locks = Locks::new();
    let other = make_resource(context(2), hash(8), "/other");
    locks.lock_resources("bob", context(1), &[other]).unwrap();
    let before = locks.table.clone();
    let a = make_resource(context(2), hash(3), "/a");
    let b = make_resource(context(2), hash(4), "/b");
    locks.lock_resources("alice", context(1), &[a.clone(), b.clone()]).unwrap();
    let released = locks.unlock_resources("alice", true, context(1), &[b.clone(), a.clone()]);
    assert_eq!(released, Ok(vec![a, b]));
    assert_eq!(locks.table, before);
}

#[test]
fn giving_back_the_new_locks_undoes_a_request() {
    let mut locks = Locks::new();
    let a = make_resource(context(2), hash(3), "/a");
    let b = make_resource(context(2), hash(4), "/b");
    let again = make_resource(context(2), hash(4), "/c");
    locks.lock_resources("alice", context(1), &[a.clone()]).unwrap();
    let before = locks.table.clone();
    let taken = locks.lock_resources("alice", context(1), &[a, b.clone(), again]).unwrap();
    let new: Vec<LockResource> = taken.into_iter().map(|lock| lock.resource).collect();
    assert_eq!(new, vec![b]);
    locks.unlock_resources("alice", true, context(1), &new).unwrap();
    assert_eq!(locks.table, before);
}

#[test]
fn release_is_all_or_nothing() {
    let mut locks = Locks::new();
    let a = make_resource(context(2), hash(3), "/a");
    let b = make_resource(context(2), hash(4), "/b");
    locks.lock_resources("alice", context(1), &[a.clone()]).unwrap();
    let before = locks.table.clone();
    let err = locks.unlock_resources("alice", true, context(1), &[a.clone(), b.clone()]);
    assert_eq!(err, Err(LockError::LockNotFound));
    assert_eq!(locks.table, before);
}

#[test]
fn release_of_one_lock_under_two_descriptions_fails() {
    let mut locks = Locks::new();
    let a = make_resource(context(2), hash(3), "/a");
    let again = make_resource(context(2), hash(3), "/b");
    locks.lock_resources("alice", context(1), &[a.clone(), again.clone()]).unwrap();
    assert_eq!(locks.table.rows.len(), 1);
    let before = locks.table.clone();
    let err = locks.unlock_resources("alice", true, context(1), &[a, again]);
    assert_eq!(err, Err(LockError::LockNotFound));
    assert_eq!(locks.table, before);
}

#[test]
fn acquire_failures() {
    let store = PgLockStore::new(&PgLockStoreSettings::default());
    let a = make_resource(context(2), hash(3), "/a");
    let sql = |call: SqlCall| LockError::Sql { call, cause: "down".to_string() };
    let request = || store.lock_resources("alice", context(1), &[a.clone()]);

    match request().connected(Err("down".to_string())) {
        AcquireStep::Finish(result) => assert_eq!(result, Err(sql(SqlCall::Pool))),
        other => panic!("{other:?}"),
    }
    let begin = |step: AcquireStep| match step {
        AcquireStep::Begin(s) => s,
        other => panic!("{other:?}"),
    };
    match begin(request().connected(Ok(()))).reply(Err("down".to_string())) {
        AcquireStep::Finish(result) => assert_eq!(result, Err(sql(SqlCall::Begin))),
        other => panic!("{other:?}"),
    }
    let insert = |step: AcquireStep| match step {
        AcquireStep::Insert(s) => s,
        other => panic!("{other:?}"),
    };
    let first = || insert(begin(request().connected(Ok(()))).reply(Ok(())));
    match first().reply(Err("down".to_string())) {
        AcquireStep::Finish(result) => assert_eq!(result, Err(sql(SqlCall::Insert))),
        other => panic!("{other:?}"),
    }
    let owner = || match first().reply(Ok(0)) {
        AcquireStep::SelectOwner(s) => s,
        other => panic!("{other:?}"),
    };
    match owner().reply(Err("down".to_string())) {
        AcquireStep::Finish(result) => assert_eq!(result, Err(sql(SqlCall::Select))),
        other => panic!("{other:?}"),
    }
    match owner().reply(Ok(None)) {
        AcquireStep::RollBack(e) => assert_eq!(e, LockError::RowDisappeared),
        other => panic!("{other:?}"),
    }
    match first().reply(Ok(1)) {
        AcquireStep::Commit(s) => match s.reply(Err("down".to_string())) {
            AcquireStep::Finish(result) => assert_eq!(result, Err(sql(SqlCall::Commit))),
            other => panic!("{other:?}"),
        },
        other => panic!("{other:?}"),
    }
}

#[test]
fn release_failures() {
    let store = PgLockStore::new(&PgLockStoreSettings::default());
    let a = make_resource(context(2), hash(3), "/a");
    let sql = |call: SqlCall| LockError::Sql { call, cause: "down".to_string() };
    let request = || store.unlock_resources("alice", true, context(1), &[a.clone()]);
    match request().connected(Err("down".to_string())) {
        ReleaseStep::Finish(result) => assert_eq!(result, Err(sql(SqlCall::Pool))),
        other => panic!("{other:?}"),
    }
    let delete = || match request().connected(Ok(())) {
        ReleaseStep::Begin(s) => match s.reply(Ok(())) {
            ReleaseStep::Delete(s) => s,
            other => panic!("{other:?}"),
        },
        other => panic!("{other:?}"),
    };
    match delete().reply(Err("down".to_string())) {
        ReleaseStep::Finish(result) => assert_eq!(result, Err(sql(SqlCall::Delete))),
        other => panic!("{other:?}"),
    }
    match delete().reply(Ok(0)) {
        ReleaseStep::SelectOwner(s) => match s.reply(Err("down".to_string())) {
            ReleaseStep::Finish(result) => assert_eq!(result, Err(sql(SqlCall::Select))),
            other => panic!("{other:?}"),
        },
        other => panic!("{other:?}"),
    }
}

#[test]
fn every_query_has_its_own_condition() {
    let mut locks = Locks::new();
    let r = |b: u8, h: u8, d: &str| make_resource(context(b), hash(h), d);
    locks.lock_at("alice", context(1), &[r(2, 3, "/x"), r(2, 4, "/y")], 1).unwrap();
    locks.lock_at("alice", context(5), &[r(6, 3, "/x")], 2).unwrap();
    locks.lock_at("bob", context(5), &[r(6, 7, "/z")], 3).unwrap();
    let count = |query: LockQuery| locks.query_locks(query).unwrap().len();
    assert_eq!(count(LockQuery::Hash(hash(3))), 2);
    assert_eq!(count(LockQuery::HashRepository(hash(3), context(5))), 1);
    assert_eq!(count(LockQuery::HashRepositoryBranch(hash(3), context(5), context(6))), 1);
    assert_eq!(count(LockQuery::HashRepositoryBranch(hash(3), context(5), context(2))), 0);
    assert_eq!(count(LockQuery::Owner("alice".to_string())), 3);
    assert_eq!(count(LockQuery::OwnerRepository("alice".to_string(), context(5))), 1);
    let query = LockQuery::OwnerRepositoryBranch("alice".to_string(), context(1), context(2));
    assert_eq!(count(query), 2);
}

#[test]
fn status_asks_about_each_resource_once() {
    let store = PgLockStore::new(&PgLockStoreSettings::default());
    let a = make_resource(context(2), hash(3), "/a");
    let b = make_resource(context(2), hash(4), "/b");
    let step = store.check_locks_status(context(1), &[b.clone(), a.clone(), b.clone()]);
    let expected = LockStatement::Status {
        repository: context(1),
        branches: vec![context(2), context(2)],
        hashes: vec![hash(3), hash(4)],
    };
    assert_eq!(step, StatusStep::Query(expected));
    assert_eq!(store.check_locks_status(context(1), &[]), StatusStep::Nothing);
}

#[test]
fn canonical_order_sorts_and_drops_duplicates() {
    let a = make_resource(context(1), hash(9), "/z");
    let b = make_resource(context(2), hash(1), "/a");
    let c = make_resource(context(2), hash(1), "/ab");
    let d = make_resource(context(2), hash(2), "");
    let order = canonical_order(&[d.clone(), c.clone(), a.clone(), b.clone(), a.clone()]);
    assert_eq!(order, vec![a, b, c, d]);
}

#[test]
fn rows_of_the_wrong_length_are_errors() {
    assert_eq!(hash_from_pg(&[0; 31]), Err(LockError::HashLength { len: 31 }));
    assert_eq!(hash_from_pg(&[7; 32]), Ok(hash(7)));
    assert_eq!(branch_from_pg(&[0; 17]), Err(LockError::BranchLength { len: 17 }));
    assert_eq!(branch_from_pg(&[7; 16]), Ok(context(7)));
    let row = |hash: usize, branch: usize| LockRow {
        hash: vec![3; hash],
        branch: vec![2; branch],
        owner_id: "alice".to_string(),
        description: "/a".to_string(),
        locked_at: -1,
    };
    let lock = lock_data_from_row(&row(32, 16)).unwrap();
    assert_eq!(lock.locked_at, u64::MAX);
    let listing = listed_locks(Ok(vec![row(32, 16), row(1, 2), row(32, 3)]));
    assert_eq!(listing, Err(LockError::HashLength { len: 1 }));
    let listing = listed_locks(Ok(vec![row(32, 16), row(32, 3)]));
    assert_eq!(listing, Err(LockError::BranchLength { len: 3 }));
    let fault = Fault::Statement("down".to_string());
    let expected = LockError::Sql { call: SqlCall::Query, cause: "down".to_string() };
    assert_eq!(listed_locks(Err(fault)), Err(expected));
    let fault = Fault::Pool("down".to_string());
    let expected = LockError::Sql { call: SqlCall::Pool, cause: "down".to_string() };
    assert_eq!(listed_locks(Err(fault)), Err(expected));
}

#[test]
fn lock_messages() {
    assert_eq!(LockError::LockNotOwned.message(), None);
    assert_eq!(LockError::LockNotFound.message(), None);
    let sql = LockError::Sql { call: SqlCall::Insert, cause: "boom".to_string() };
    assert_eq!(sql.message(), Some("pg insert error: boom".to_string()));
    let length = LockError::HashLength { len: 120 };
    assert_eq!(length.message(), Some("pg: expected 32-byte hash, got 120".to_string()));
    let length = LockError::BranchLength { len: 0 };
    assert_eq!(length.message(), Some("pg: expected 16-byte branch, got 0".to_string()));
    assert_eq!(
        LockError::RowDisappeared.message(),
        Some("pg: lock row disappeared between insert and select".to_string())
    );
}

#[test]
fn lock_statements_as_sql() {
    let store = PgLockStore::new(&PgLockStoreSettings::new("locks".to_string()));
    let key = LockKey { repository: context(1), branch: context(2), hash: hash(3) };
    let insert = store.sql(&LockStatement::Insert {
        key,
        owner_id: "alice".to_string(),
        description: "/a".to_string(),
        locked_at: 7,
    });
    let text = "INSERT INTO locks (repository, branch, hash, owner_id, description, locked_at)
             VALUES ($1, $2, $3, $4, $5, $6)
             ON CONFLICT (repository, branch, hash) DO NOTHING";
    assert_eq!(insert.text, text);
    let key_params = || {
        vec![
            SqlParam::Bytes(vec![1; 16]),
            SqlParam::Bytes(vec![2; 16]),
            SqlParam::Bytes(vec![3; 32]),
        ]
    };
    let mut params = key_params();
    params.push(SqlParam::Text("alice".to_string()));
    params.push(SqlParam::Text("/a".to_string()));
    params.push(SqlParam::BigInt(7));
    assert_eq!(insert.params, params);

    let owner = store.sql(&LockStatement::SelectOwner { key });
    assert_eq!(
        owner.text,
        "SELECT owner_id FROM locks WHERE repository = $1 AND branch = $2 AND hash = $3"
    );
    assert_eq!(owner.params, key_params());

    let status = store.sql(&LockStatement::Status {
        repository: context(1),
        branches: vec![context(2)],
        hashes: vec![hash(3)],
    });
    let text = "SELECT hash, branch, owner_id, description, locked_at FROM locks
             WHERE repository = $1
               AND (branch, hash) IN (
                   SELECT * FROM unnest($2::bytea[], $3::bytea[])
               )";
    assert_eq!(status.text, text);
    assert_eq!(
        status.params,
        vec![
            SqlParam::Bytes(vec![1; 16]),
            SqlParam::ByteList(vec![vec![2; 16]]),
            SqlParam::ByteList(vec![vec![3; 32]]),
        ]
    );

    let query = store.sql(&LockStatement::Query(LockQuery::OwnerRepository(
        "o".to_string(),
        context(1),
    )));
    assert_eq!(
        query.text,
        "SELECT hash, branch, owner_id, description, locked_at FROM locks WHERE owner_id = $1 AND repository = $2"
    );
    let owned = store.sql(&LockStatement::DeleteOwned { key, owner_id: "o".to_string() });
    let text = "DELETE FROM locks
                 WHERE repository = $1 AND branch = $2 AND hash = $3 AND owner_id = $4";
    assert_eq!(owned.text, text);
}

#[test]
fn lock_schema() {
    let store = PgLockStore::new(&PgLockStoreSettings::default());
    let text = "CREATE TABLE IF NOT EXISTS locks (
                repository  BYTEA  NOT NULL,
                branch      BYTEA  NOT NULL,
                hash        BYTEA  NOT NULL,
                owner_id    TEXT   NOT NULL,
                description TEXT   NOT NULL,
                locked_at   BIGINT NOT NULL,
                PRIMARY KEY (repository, branch, hash)
            );
            CREATE INDEX IF NOT EXISTS locks_hash_idx  ON locks (hash);
            CREATE INDEX IF NOT EXISTS locks_owner_idx ON locks (owner_id);
            CREATE INDEX IF NOT EXISTS locks_repo_idx  ON locks (repository);";
    assert_eq!(store.ensure_schema(), text);
}
