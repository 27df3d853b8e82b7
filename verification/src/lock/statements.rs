//! The statements of the lock store.

use crate::lock::records::LockKey;
use crate::sql::{byte_list_view, params_view, splice, SqlParam, SqlParamView, SqlStatement, SqlStatementView};
use crate::types::{BranchId, ContentHash, RepositoryId};
use vstd::prelude::*;

verus! {

/// How the lock store is set up.
#[derive(Debug, PartialEq, Eq)]
pub struct PgLockStoreSettings {
    pub table_name: String,
}

impl Clone for PgLockStoreSettings {
    fn clone(&self) -> (copy: Self)
        ensures
            copy == *self,
    {
        PgLockStoreSettings { table_name: self.table_name.clone() }
    }
}

impl PgLockStoreSettings {
    /// Settings for the given table.
    pub fn new(table_name: String) -> (settings: Self)
        ensures
            settings.table_name == table_name,
    {
        PgLockStoreSettings { table_name }
    }
}

impl Default for PgLockStoreSettings {
    /// Settings for the table `locks`.
    fn default() -> (settings: Self)
        ensures
            settings.table_name@ == "locks"@,
    {
        PgLockStoreSettings::new("locks".to_owned())
    }
}

/// The lock store: what it asks of Postgres and what it makes of the answers.
#[derive(Debug, PartialEq, Eq)]
pub struct PgLockStore {
    table_name: String,
}

/// The locks to list.
#[derive(Debug, PartialEq, Eq)]
pub enum LockQuery {
    Hash(ContentHash),
    HashRepository(ContentHash, RepositoryId),
    HashRepositoryBranch(ContentHash, RepositoryId, BranchId),
    Owner(String),
    OwnerRepository(String, RepositoryId),
    OwnerRepositoryBranch(String, RepositoryId, BranchId),
    Repository(RepositoryId),
    RepositoryBranch(RepositoryId, BranchId),
    RepositoryBranchDescription(RepositoryId, BranchId, String),
}

/// The locks to list, in terms of what is asked for.
pub enum LockQueryView {
    Hash(ContentHash),
    HashRepository(ContentHash, RepositoryId),
    HashRepositoryBranch(ContentHash, RepositoryId, BranchId),
    Owner(Seq<char>),
    OwnerRepository(Seq<char>, RepositoryId),
    OwnerRepositoryBranch(Seq<char>, RepositoryId, BranchId),
    Repository(RepositoryId),
    RepositoryBranch(RepositoryId, BranchId),
    RepositoryBranchDescription(RepositoryId, BranchId, Seq<char>),
}

impl View for LockQuery {
    type V = LockQueryView;

    open spec fn view(&self) -> LockQueryView {
        match *self {
            LockQuery::Hash(h) => LockQueryView::Hash(h),
            LockQuery::HashRepository(h, r) => LockQueryView::HashRepository(h, r),
            LockQuery::HashRepositoryBranch(h, r, b) => LockQueryView::HashRepositoryBranch(
                h,
                r,
                b,
            ),
            LockQuery::Owner(o) => LockQueryView::Owner(o@),
            LockQuery::OwnerRepository(o, r) => LockQueryView::OwnerRepository(o@, r),
            LockQuery::OwnerRepositoryBranch(o, r, b) => LockQueryView::OwnerRepositoryBranch(
                o@,
                r,
                b,
            ),
            LockQuery::Repository(r) => LockQueryView::Repository(r),
            LockQuery::RepositoryBranch(r, b) => LockQueryView::RepositoryBranch(r, b),
            LockQuery::RepositoryBranchDescription(r, b, d) => {
                LockQueryView::RepositoryBranchDescription(r, b, d@)
            },
        }
    }
}

/// A statement of the lock store.
#[derive(Debug, PartialEq, Eq)]
pub enum LockStatement {
    /// Add a lock, unless the key is locked already.
    Insert { key: LockKey, owner_id: String, description: String, locked_at: i64 },
    /// Find out who holds a lock.
    SelectOwner { key: LockKey },
    /// Remove a lock that the given owner holds.
    DeleteOwned { key: LockKey, owner_id: String },
    /// Remove a lock, whoever holds it.
    Delete { key: LockKey },
    /// List locks.
    Query(LockQuery),
    /// List those of the given locks that are held; branches and hashes go in pairs.
    Status { repository: RepositoryId, branches: Vec<BranchId>, hashes: Vec<ContentHash> },
}

/// A statement of the lock store, in terms of what it carries.
pub enum LockStatementView {
    Insert { key: LockKey, owner_id: Seq<char>, description: Seq<char>, locked_at: i64 },
    SelectOwner { key: LockKey },
    DeleteOwned { key: LockKey, owner_id: Seq<char> },
    Delete { key: LockKey },
    Query(LockQueryView),
    Status { repository: RepositoryId, branches: Seq<BranchId>, hashes: Seq<ContentHash> },
}

impl View for LockStatement {
    type V = LockStatementView;

    open spec fn view(&self) -> LockStatementView {
        match *self {
            LockStatement::Insert { key, owner_id, description, locked_at } => {
                LockStatementView::Insert {
                    key,
                    owner_id: owner_id@,
                    description: description@,
                    locked_at,
                }
            },
            LockStatement::SelectOwner { key } => LockStatementView::SelectOwner { key },
            LockStatement::DeleteOwned { key, owner_id } => LockStatementView::DeleteOwned {
                key,
                owner_id: owner_id@,
            },
            LockStatement::Delete { key } => LockStatementView::Delete { key },
            LockStatement::Query(query) => LockStatementView::Query(query@),
            LockStatement::Status { repository, branches, hashes } => LockStatementView::Status {
                repository,
                branches: branches@,
                hashes: hashes@,
            },
        }
    }
}

pub const SCHEMA_1: &'static str = "CREATE TABLE IF NOT EXISTS ";

pub const SCHEMA_2: &'static str = " (
                repository  BYTEA  NOT NULL,
                branch      BYTEA  NOT NULL,
                hash        BYTEA  NOT NULL,
                owner_id    TEXT   NOT NULL,
                description TEXT   NOT NULL,
                locked_at   BIGINT NOT NULL,
                PRIMARY KEY (repository, branch, hash)
            );
            CREATE INDEX IF NOT EXISTS ";

pub const SCHEMA_3: &'static str = "_hash_idx  ON ";

pub const SCHEMA_4: &'static str = " (hash);
            CREATE INDEX IF NOT EXISTS ";

pub const SCHEMA_5: &'static str = "_owner_idx ON ";

pub const SCHEMA_6: &'static str = " (owner_id);
            CREATE INDEX IF NOT EXISTS ";

pub const SCHEMA_7: &'static str = "_repo_idx  ON ";

pub const SCHEMA_8: &'static str = " (repository);";

pub const INSERT_INTO: &'static str = "INSERT INTO ";

pub const INSERT_VALUES: &'static str = " (repository, branch, hash, owner_id, description, locked_at)
             VALUES ($1, $2, $3, $4, $5, $6)
             ON CONFLICT (repository, branch, hash) DO NOTHING";

pub const SELECT_OWNER_FROM: &'static str = "SELECT owner_id FROM ";

pub const WHERE_KEY: &'static str = " WHERE repository = $1 AND branch = $2 AND hash = $3";

pub const DELETE_FROM: &'static str = "DELETE FROM ";

pub const DELETE_OWNED: &'static str = "
                 WHERE repository = $1 AND branch = $2 AND hash = $3 AND owner_id = $4";

pub const DELETE_ANY: &'static str = "
                 WHERE repository = $1 AND branch = $2 AND hash = $3";

pub const SELECT_LOCKS_FROM: &'static str = "SELECT hash, branch, owner_id, description, locked_at FROM ";

pub const STATUS: &'static str = "
             WHERE repository = $1
               AND (branch, hash) IN (
                   SELECT * FROM unnest($2::bytea[], $3::bytea[])
               )";

pub const WHERE_HASH: &'static str = " WHERE hash = $1";

pub const WHERE_HASH_REPOSITORY: &'static str = " WHERE hash = $1 AND repository = $2";

pub const WHERE_HASH_REPOSITORY_BRANCH: &'static str = " WHERE hash = $1 AND repository = $2 AND branch = $3";

pub const WHERE_OWNER: &'static str = " WHERE owner_id = $1";

pub const WHERE_OWNER_REPOSITORY: &'static str = " WHERE owner_id = $1 AND repository = $2";

pub const WHERE_OWNER_REPOSITORY_BRANCH: &'static str = " WHERE owner_id = $1 AND repository = $2 AND branch = $3";

pub const WHERE_REPOSITORY: &'static str = " WHERE repository = $1";

pub const WHERE_REPOSITORY_BRANCH: &'static str = " WHERE repository = $1 AND branch = $2";

pub const WHERE_REPOSITORY_BRANCH_DESCRIPTION: &'static str = " WHERE repository = $1 AND branch = $2 AND description = $3";

/// The text that creates the lock table and its indexes where they are missing.
pub open spec fn lock_schema_text(table: Seq<char>) -> Seq<char> {
    SCHEMA_1@ + table + SCHEMA_2@ + table + SCHEMA_3@ + table + SCHEMA_4@ + table + SCHEMA_5@
        + table + SCHEMA_6@ + table + SCHEMA_7@ + table + SCHEMA_8@
}

/// The condition on the listed rows, and its parameters.
pub open spec fn lock_query_condition(query: LockQueryView) -> (Seq<char>, Seq<SqlParamView>) {
    match query {
        LockQueryView::Hash(h) => (WHERE_HASH@, seq![SqlParamView::Bytes(h@)]),
        LockQueryView::HashRepository(h, r) => (
            WHERE_HASH_REPOSITORY@,
            seq![SqlParamView::Bytes(h@), SqlParamView::Bytes(r@)],
        ),
        LockQueryView::HashRepositoryBranch(h, r, b) => (
            WHERE_HASH_REPOSITORY_BRANCH@,
            seq![SqlParamView::Bytes(h@), SqlParamView::Bytes(r@), SqlParamView::Bytes(b@)],
        ),
        LockQueryView::Owner(o) => (WHERE_OWNER@, seq![SqlParamView::Text(o)]),
        LockQueryView::OwnerRepository(o, r) => (
            WHERE_OWNER_REPOSITORY@,
            seq![SqlParamView::Text(o), SqlParamView::Bytes(r@)],
        ),
        LockQueryView::OwnerRepositoryBranch(o, r, b) => (
            WHERE_OWNER_REPOSITORY_BRANCH@,
            seq![SqlParamView::Text(o), SqlParamView::Bytes(r@), SqlParamView::Bytes(b@)],
        ),
        LockQueryView::Repository(r) => (WHERE_REPOSITORY@, seq![SqlParamView::Bytes(r@)]),
        LockQueryView::RepositoryBranch(r, b) => (
            WHERE_REPOSITORY_BRANCH@,
            seq![SqlParamView::Bytes(r@), SqlParamView::Bytes(b@)],
        ),
        LockQueryView::RepositoryBranchDescription(r, b, d) => (
            WHERE_REPOSITORY_BRANCH_DESCRIPTION@,
            seq![SqlParamView::Bytes(r@), SqlParamView::Bytes(b@), SqlParamView::Text(d)],
        ),
    }
}

/// The byte strings of a list of branches.
pub open spec fn branch_bytes(list: Seq<BranchId>) -> Seq<Seq<u8>> {
    Seq::new(list.len(), |i: int| list[i]@)
}

/// The byte strings of a list of hashes.
pub open spec fn hash_bytes(list: Seq<ContentHash>) -> Seq<Seq<u8>> {
    Seq::new(list.len(), |i: int| list[i]@)
}

/// The parameters that make up a key.
pub open spec fn key_params(key: LockKey) -> Seq<SqlParamView> {
    seq![
        SqlParamView::Bytes(key.repository@),
        SqlParamView::Bytes(key.branch@),
        SqlParamView::Bytes(key.hash@),
    ]
}

/// A statement of the lock store as Postgres gets it, for the given table.
pub open spec fn lock_sql(table: Seq<char>, statement: LockStatementView) -> SqlStatementView {
    match statement {
        LockStatementView::Insert { key, owner_id, description, locked_at } => SqlStatementView {
            text: INSERT_INTO@ + table + INSERT_VALUES@,
            params: key_params(key) + seq![
                SqlParamView::Text(owner_id),
                SqlParamView::Text(description),
                SqlParamView::BigInt(locked_at as int),
            ],
        },
        LockStatementView::SelectOwner { key } => SqlStatementView {
            text: SELECT_OWNER_FROM@ + table + WHERE_KEY@,
            params: key_params(key),
        },
        LockStatementView::DeleteOwned { key, owner_id } => SqlStatementView {
            text: DELETE_FROM@ + table + DELETE_OWNED@,
            params: key_params(key) + seq![SqlParamView::Text(owner_id)],
        },
        LockStatementView::Delete { key } => SqlStatementView {
            text: DELETE_FROM@ + table + DELETE_ANY@,
            params: key_params(key),
        },
        LockStatementView::Query(query) => SqlStatementView {
            text: SELECT_LOCKS_FROM@ + table + lock_query_condition(query).0,
            params: lock_query_condition(query).1,
        },
        LockStatementView::Status { repository, branches, hashes } => SqlStatementView {
            text: SELECT_LOCKS_FROM@ + table + STATUS@,
            params: seq![
                SqlParamView::Bytes(repository@),
                SqlParamView::ByteList(branch_bytes(branches)),
                SqlParamView::ByteList(hash_bytes(hashes)),
            ],
        },
    }
}

/// The statement is of the same form, whatever values it carries.
pub open spec fn same_form(a: LockStatementView, b: LockStatementView) -> bool {
    match (a, b) {
        (LockStatementView::Insert { .. }, LockStatementView::Insert { .. }) => true,
        (LockStatementView::SelectOwner { .. }, LockStatementView::SelectOwner { .. }) => true,
        (LockStatementView::DeleteOwned { .. }, LockStatementView::DeleteOwned { .. }) => true,
        (LockStatementView::Delete { .. }, LockStatementView::Delete { .. }) => true,
        (LockStatementView::Query(p), LockStatementView::Query(q)) => match (p, q) {
            (LockQueryView::Hash(_), LockQueryView::Hash(_)) => true,
            (LockQueryView::HashRepository(_, _), LockQueryView::HashRepository(_, _)) => true,
            (
                LockQueryView::HashRepositoryBranch(_, _, _),
                LockQueryView::HashRepositoryBranch(_, _, _),
            ) => true,
            (LockQueryView::Owner(_), LockQueryView::Owner(_)) => true,
            (LockQueryView::OwnerRepository(_, _), LockQueryView::OwnerRepository(_, _)) => true,
            (
                LockQueryView::OwnerRepositoryBranch(_, _, _),
                LockQueryView::OwnerRepositoryBranch(_, _, _),
            ) => true,
            (LockQueryView::Repository(_), LockQueryView::Repository(_)) => true,
            (LockQueryView::RepositoryBranch(_, _), LockQueryView::RepositoryBranch(_, _)) => true,
            (
                LockQueryView::RepositoryBranchDescription(_, _, _),
                LockQueryView::RepositoryBranchDescription(_, _, _),
            ) => true,
            _ => false,
        },
        (LockStatementView::Status { .. }, LockStatementView::Status { .. }) => true,
        _ => false,
    }
}

/// Values that come with a request are bound, never written into the text: statements of one
/// form have one text.
pub proof fn values_are_bound(table: Seq<char>, a: LockStatementView, b: LockStatementView)
    requires
        same_form(a, b),
    ensures
        lock_sql(table, a).text == lock_sql(table, b).text,
{
}

fn key_values(key: &LockKey) -> (params: Vec<SqlParam>)
    ensures
        params_view(params@) == key_params(*key),
{
    let mut params: Vec<SqlParam> = Vec::new();
    params.push(SqlParam::Bytes(key.repository.to_vec()));
    params.push(SqlParam::Bytes(key.branch.to_vec()));
    params.push(SqlParam::Bytes(key.hash.to_vec()));
    assert(params_view(params@) =~= key_params(*key));
    params
}

fn branch_values(list: &Vec<BranchId>) -> (values: Vec<Vec<u8>>)
    ensures
        byte_list_view(values@) == branch_bytes(list@),
{
    let mut values: Vec<Vec<u8>> = Vec::new();
    let mut i: usize = 0;
    while i < list.len()
        invariant
            0 <= i <= list@.len(),
            values@.len() == i,
            forall|j: int| 0 <= j < i ==> #[trigger] values@[j]@ == list@[j]@,
        decreases list@.len() - i,
    {
        values.push(list[i].to_vec());
        i = i + 1;
    }
    assert(byte_list_view(values@) =~= branch_bytes(list@));
    values
}

fn hash_values(list: &Vec<ContentHash>) -> (values: Vec<Vec<u8>>)
    ensures
        byte_list_view(values@) == hash_bytes(list@),
{
    let mut values: Vec<Vec<u8>> = Vec::new();
    let mut i: usize = 0;
    while i < list.len()
        invariant
            0 <= i <= list@.len(),
            values@.len() == i,
            forall|j: int| 0 <= j < i ==> #[trigger] values@[j]@ == list@[j]@,
        decreases list@.len() - i,
    {
        values.push(list[i].to_vec());
        i = i + 1;
    }
    assert(byte_list_view(values@) =~= hash_bytes(list@));
    values
}

fn condition_of(query: &LockQuery) -> (condition: (&'static str, Vec<SqlParam>))
    ensures
        condition.0@ == lock_query_condition(query@).0,
        params_view(condition.1@) == lock_query_condition(query@).1,
{
    let mut params: Vec<SqlParam> = Vec::new();
    let text = match query {
        LockQuery::Hash(h) => {
            params.push(SqlParam::Bytes(h.to_vec()));
            WHERE_HASH
        },
        LockQuery::HashRepository(h, r) => {
            params.push(SqlParam::Bytes(h.to_vec()));
            params.push(SqlParam::Bytes(r.to_vec()));
            WHERE_HASH_REPOSITORY
        },
        LockQuery::HashRepositoryBranch(h, r, b) => {
            params.push(SqlParam::Bytes(h.to_vec()));
            params.push(SqlParam::Bytes(r.to_vec()));
            params.push(SqlParam::Bytes(b.to_vec()));
            WHERE_HASH_REPOSITORY_BRANCH
        },
        LockQuery::Owner(o) => {
            params.push(SqlParam::Text(o.clone()));
            WHERE_OWNER
        },
        LockQuery::OwnerRepository(o, r) => {
            params.push(SqlParam::Text(o.clone()));
            params.push(SqlParam::Bytes(r.to_vec()));
            WHERE_OWNER_REPOSITORY
        },
        LockQuery::OwnerRepositoryBranch(o, r, b) => {
            params.push(SqlParam::Text(o.clone()));
            params.push(SqlParam::Bytes(r.to_vec()));
            params.push(SqlParam::Bytes(b.to_vec()));
            WHERE_OWNER_REPOSITORY_BRANCH
        },
        LockQuery::Repository(r) => {
            params.push(SqlParam::Bytes(r.to_vec()));
            WHERE_REPOSITORY
        },
        LockQuery::RepositoryBranch(r, b) => {
            params.push(SqlParam::Bytes(r.to_vec()));
            params.push(SqlParam::Bytes(b.to_vec()));
            WHERE_REPOSITORY_BRANCH
        },
        LockQuery::RepositoryBranchDescription(r, b, d) => {
            params.push(SqlParam::Bytes(r.to_vec()));
            params.push(SqlParam::Bytes(b.to_vec()));
            params.push(SqlParam::Text(d.clone()));
            WHERE_REPOSITORY_BRANCH_DESCRIPTION
        },
    };
    assert(params_view(params@) =~= lock_query_condition(query@).1);
    (text, params)
}

impl PgLockStore {
    /// The table that holds the locks.
    pub closed spec fn table(self) -> Seq<char> {
        self.table_name@
    }

    /// A store on the table that the settings name.
    pub fn new(settings: &PgLockStoreSettings) -> (store: Self)
        ensures
            store.table() == settings.table_name@,
    {
        PgLockStore { table_name: settings.table_name.clone() }
    }

    /// The statements that create the lock table and its indexes where they are missing.
    pub fn ensure_schema(&self) -> (text: String)
        ensures
            text@ == lock_schema_text(self.table()),
    {
        let table = self.table_name.as_str();
        let mut text = SCHEMA_1.to_owned();
        text.append(table);
        text.append(SCHEMA_2);
        text.append(table);
        text.append(SCHEMA_3);
        text.append(table);
        text.append(SCHEMA_4);
        text.append(table);
        text.append(SCHEMA_5);
        text.append(table);
        text.append(SCHEMA_6);
        text.append(table);
        text.append(SCHEMA_7);
        text.append(table);
        text.append(SCHEMA_8);
        text
    }

    /// The statement as Postgres gets it.
    pub fn sql(&self, statement: &LockStatement) -> (sql: SqlStatement)
        ensures
            sql@ == lock_sql(self.table(), statement@),
    {
        let table = self.table_name.as_str();
        let sql = match statement {
            LockStatement::Insert { key, owner_id, description, locked_at } => {
                let mut params = key_values(key);
                params.push(SqlParam::Text(owner_id.clone()));
                params.push(SqlParam::Text(description.clone()));
                params.push(SqlParam::BigInt(*locked_at));
                SqlStatement { text: splice(INSERT_INTO, table, INSERT_VALUES), params }
            },
            LockStatement::SelectOwner { key } => SqlStatement {
                text: splice(SELECT_OWNER_FROM, table, WHERE_KEY),
                params: key_values(key),
            },
            LockStatement::DeleteOwned { key, owner_id } => {
                let mut params = key_values(key);
                params.push(SqlParam::Text(owner_id.clone()));
                SqlStatement { text: splice(DELETE_FROM, table, DELETE_OWNED), params }
            },
            LockStatement::Delete { key } => SqlStatement {
                text: splice(DELETE_FROM, table, DELETE_ANY),
                params: key_values(key),
            },
            LockStatement::Query(query) => {
                let (condition, params) = condition_of(query);
                SqlStatement { text: splice(SELECT_LOCKS_FROM, table, condition), params }
            },
            LockStatement::Status { repository, branches, hashes } => {
                let mut params: Vec<SqlParam> = Vec::new();
                params.push(SqlParam::Bytes(repository.to_vec()));
                params.push(SqlParam::ByteList(branch_values(branches)));
                params.push(SqlParam::ByteList(hash_values(hashes)));
                SqlStatement { text: splice(SELECT_LOCKS_FROM, table, STATUS), params }
            },
        };
        assert(sql@.params =~= lock_sql(self.table(), statement@).params);
        sql
    }
}

/// Settings name the table that they were made for, and the usual one where none was given.
pub proof fn table_named(
    table_name: String,
    given: PgLockStoreSettings,
    usual: PgLockStoreSettings,
    copy: PgLockStoreSettings,
)
    requires
        call_ensures(PgLockStoreSettings::new, (table_name,), given),
        call_ensures(PgLockStoreSettings::default, (), usual),
        call_ensures(PgLockStoreSettings::clone, (&given,), copy),
    ensures
        given.table_name@ == table_name@,
        usual.table_name@ == "locks"@,
        copy.table_name@ == given.table_name@,
{
}

} // verus!
