//! The statements of the mutable store.

use crate::sql::{params_view, splice, SqlParam, SqlParamView, SqlStatement, SqlStatementView};
use crate::types::{zero_hash, ContentHash, RepositoryId};
use vstd::prelude::*;

verus! {

/// How the mutable store is set up.
#[derive(Debug, PartialEq, Eq)]
pub struct PgMutableStoreSettings {
    pub table_name: String,
}

impl Clone for PgMutableStoreSettings {
    fn clone(&self) -> (copy: Self)
        ensures
            copy == *self,
    {
        PgMutableStoreSettings { table_name: self.table_name.clone() }
    }
}

impl PgMutableStoreSettings {
    /// Settings for the given table.
    pub fn new(table_name: String) -> (settings: Self)
        ensures
            settings.table_name == table_name,
    {
        PgMutableStoreSettings { table_name }
    }
}

impl Default for PgMutableStoreSettings {
    /// Settings for the table `mutable_store`.
    fn default() -> (settings: Self)
        ensures
            settings.table_name@ == "mutable_store"@,
    {
        PgMutableStoreSettings::new("mutable_store".to_owned())
    }
}

/// The mutable store: what it asks of Postgres and what it makes of the answers.
#[derive(Debug, PartialEq, Eq)]
pub struct PgMutableStore {
    table_name: String,
}

/// A statement of the mutable store.
#[derive(Clone, Copy, Debug, PartialEq, Eq)]
pub enum MutableStatement {
    /// Read the value of a key.
    Select { repository: RepositoryId, key: ContentHash },
    /// Remove a key.
    Delete { repository: RepositoryId, key: ContentHash },
    /// Set the value of a key.
    Upsert { repository: RepositoryId, key: ContentHash, value: ContentHash },
    /// Set the value of a key that has none. The answer is the zero hash where that was
    /// done, and the value that stands in the way otherwise; and whether it was done.
    InsertIfAbsent { repository: RepositoryId, key: ContentHash, value: ContentHash },
    /// Replace the expected value of a key. The answer is the expected value where that was
    /// done, otherwise the value that the key has, or the zero hash if it has none; and
    /// whether it was done.
    UpdateIfMatches {
        repository: RepositoryId,
        key: ContentHash,
        value: ContentHash,
        expected: ContentHash,
    },
    /// List the keys in a range, both ends included, with their values.
    List { repository: RepositoryId, first: ContentHash, last: ContentHash },
}

pub const SCHEMA_1: &'static str = "CREATE TABLE IF NOT EXISTS ";

pub const SCHEMA_2: &'static str = " (
                repository_id BYTEA NOT NULL,
                key           BYTEA NOT NULL,
                value         BYTEA NOT NULL,
                PRIMARY KEY (repository_id, key)
            )";

pub const SELECT_1: &'static str = "SELECT value FROM ";

pub const SELECT_2: &'static str = " WHERE repository_id = $1 AND key = $2";

pub const DELETE_1: &'static str = "DELETE FROM ";

pub const DELETE_2: &'static str = " WHERE repository_id = $1 AND key = $2";

pub const UPSERT_1: &'static str = "INSERT INTO ";

pub const UPSERT_2: &'static str = " (repository_id, key, value)
                     VALUES ($1, $2, $3)
                     ON CONFLICT (repository_id, key) DO UPDATE SET value = EXCLUDED.value";

pub const INSERT_IF_ABSENT_1: &'static str = "WITH ins AS (
                     INSERT INTO ";

pub const INSERT_IF_ABSENT_2: &'static str = " (repository_id, key, value) VALUES ($1, $2, $3)
                     ON CONFLICT (repository_id, key) DO NOTHING
                     RETURNING value
                 )
                 SELECT CASE WHEN EXISTS(SELECT 1 FROM ins)
                             THEN $4
                             ELSE (SELECT value FROM ";

pub const INSERT_IF_ABSENT_3: &'static str = " WHERE repository_id = $1 AND key = $2)
                        END,
                        EXISTS(SELECT 1 FROM ins)";

pub const UPDATE_IF_MATCHES_1: &'static str = "WITH upd AS (
                     UPDATE ";

pub const UPDATE_IF_MATCHES_2: &'static str = " SET value = $3
                     WHERE repository_id = $1 AND key = $2 AND value = $4
                     RETURNING value
                 )
                 SELECT CASE WHEN EXISTS(SELECT 1 FROM upd)
                             THEN $4
                             ELSE COALESCE(
                                     (SELECT value FROM ";

pub const UPDATE_IF_MATCHES_3: &'static str = " WHERE repository_id = $1 AND key = $2),
                                     $5
                                  )
                        END,
                        EXISTS(SELECT 1 FROM upd)";

pub const LIST_1: &'static str = "SELECT key, value FROM ";

pub const LIST_2: &'static str = "
                     WHERE repository_id = $1
                       AND key >= $2
                       AND key <= $3
                       AND value IS NOT NULL";

/// The text that creates the table where it is missing.
pub open spec fn mutable_schema_text(table: Seq<char>) -> Seq<char> {
    SCHEMA_1@ + table + SCHEMA_2@
}

/// A statement of the mutable store as Postgres gets it, for the given table.
pub open spec fn mutable_sql(table: Seq<char>, statement: MutableStatement) -> SqlStatementView {
    match statement {
        MutableStatement::Select { repository, key } => SqlStatementView {
            text: SELECT_1@ + table + SELECT_2@,
            params: seq![SqlParamView::Bytes(repository@), SqlParamView::Bytes(key@)],
        },
        MutableStatement::Delete { repository, key } => SqlStatementView {
            text: DELETE_1@ + table + DELETE_2@,
            params: seq![SqlParamView::Bytes(repository@), SqlParamView::Bytes(key@)],
        },
        MutableStatement::Upsert { repository, key, value } => SqlStatementView {
            text: UPSERT_1@ + table + UPSERT_2@,
            params: seq![
                SqlParamView::Bytes(repository@),
                SqlParamView::Bytes(key@),
                SqlParamView::Bytes(value@),
            ],
        },
        MutableStatement::InsertIfAbsent { repository, key, value } => SqlStatementView {
            text: INSERT_IF_ABSENT_1@ + table + INSERT_IF_ABSENT_2@ + table + INSERT_IF_ABSENT_3@,
            params: seq![
                SqlParamView::Bytes(repository@),
                SqlParamView::Bytes(key@),
                SqlParamView::Bytes(value@),
                SqlParamView::Bytes(zero_hash()@),
            ],
        },
        MutableStatement::UpdateIfMatches { repository, key, value, expected } => {
            SqlStatementView {
                text: UPDATE_IF_MATCHES_1@ + table + UPDATE_IF_MATCHES_2@ + table
                    + UPDATE_IF_MATCHES_3@,
                params: seq![
                    SqlParamView::Bytes(repository@),
                    SqlParamView::Bytes(key@),
                    SqlParamView::Bytes(value@),
                    SqlParamView::Bytes(expected@),
                    SqlParamView::Bytes(zero_hash()@),
                ],
            }
        },
        MutableStatement::List { repository, first, last } => SqlStatementView {
            text: LIST_1@ + table + LIST_2@,
            params: seq![
                SqlParamView::Bytes(repository@),
                SqlParamView::Bytes(first@),
                SqlParamView::Bytes(last@),
            ],
        },
    }
}

/// The statement is of the same form, whatever values it carries.
pub open spec fn same_form(a: MutableStatement, b: MutableStatement) -> bool {
    match (a, b) {
        (MutableStatement::Select { .. }, MutableStatement::Select { .. }) => true,
        (MutableStatement::Delete { .. }, MutableStatement::Delete { .. }) => true,
        (MutableStatement::Upsert { .. }, MutableStatement::Upsert { .. }) => true,
        (MutableStatement::InsertIfAbsent { .. }, MutableStatement::InsertIfAbsent { .. }) => true,
        (MutableStatement::UpdateIfMatches { .. }, MutableStatement::UpdateIfMatches { .. }) => {
            true
        },
        (MutableStatement::List { .. }, MutableStatement::List { .. }) => true,
        _ => false,
    }
}

/// Values that come with a request are bound, never written into the text: statements of one
/// form have one text.
pub proof fn values_are_bound(table: Seq<char>, a: MutableStatement, b: MutableStatement)
    requires
        same_form(a, b),
    ensures
        mutable_sql(table, a).text == mutable_sql(table, b).text,
{
}

impl PgMutableStore {
    /// The table that holds the keys.
    pub closed spec fn table(self) -> Seq<char> {
        self.table_name@
    }

    /// A store on the table that the settings name.
    pub fn new(settings: &PgMutableStoreSettings) -> (store: Self)
        ensures
            store.table() == settings.table_name@,
    {
        PgMutableStore { table_name: settings.table_name.clone() }
    }

    /// The statement that creates the table where it is missing.
    pub fn ensure_schema(&self) -> (text: String)
        ensures
            text@ == mutable_schema_text(self.table()),
    {
        splice(SCHEMA_1, self.table_name.as_str(), SCHEMA_2)
    }

    /// The statement as Postgres gets it.
    pub fn sql(&self, statement: &MutableStatement) -> (sql: SqlStatement)
        ensures
            sql@ == mutable_sql(self.table(), *statement),
    {
        let table = self.table_name.as_str();
        let mut params: Vec<SqlParam> = Vec::new();
        let text = match *statement {
            MutableStatement::Select { repository, key } => {
                params.push(SqlParam::Bytes(repository.to_vec()));
                params.push(SqlParam::Bytes(key.to_vec()));
                splice(SELECT_1, table, SELECT_2)
            },
            MutableStatement::Delete { repository, key } => {
                params.push(SqlParam::Bytes(repository.to_vec()));
                params.push(SqlParam::Bytes(key.to_vec()));
                splice(DELETE_1, table, DELETE_2)
            },
            MutableStatement::Upsert { repository, key, value } => {
                params.push(SqlParam::Bytes(repository.to_vec()));
                params.push(SqlParam::Bytes(key.to_vec()));
                params.push(SqlParam::Bytes(value.to_vec()));
                splice(UPSERT_1, table, UPSERT_2)
            },
            MutableStatement::InsertIfAbsent { repository, key, value } => {
                params.push(SqlParam::Bytes(repository.to_vec()));
                params.push(SqlParam::Bytes(key.to_vec()));
                params.push(SqlParam::Bytes(value.to_vec()));
                params.push(SqlParam::Bytes(ContentHash::default().to_vec()));
                let mut text = splice(INSERT_IF_ABSENT_1, table, INSERT_IF_ABSENT_2);
                text.append(table);
                text.append(INSERT_IF_ABSENT_3);
                text
            },
            MutableStatement::UpdateIfMatches { repository, key, value, expected } => {
                params.push(SqlParam::Bytes(repository.to_vec()));
                params.push(SqlParam::Bytes(key.to_vec()));
                params.push(SqlParam::Bytes(value.to_vec()));
                params.push(SqlParam::Bytes(expected.to_vec()));
                params.push(SqlParam::Bytes(ContentHash::default().to_vec()));
                let mut text = splice(UPDATE_IF_MATCHES_1, table, UPDATE_IF_MATCHES_2);
                text.append(table);
                text.append(UPDATE_IF_MATCHES_3);
                text
            },
            MutableStatement::List { repository, first, last } => {
                params.push(SqlParam::Bytes(repository.to_vec()));
                params.push(SqlParam::Bytes(first.to_vec()));
                params.push(SqlParam::Bytes(last.to_vec()));
                splice(LIST_1, table, LIST_2)
            },
        };
        assert(params_view(params@) =~= mutable_sql(self.table(), *statement).params);
        SqlStatement { text, params }
    }
}

/// Settings name the table that they were made for, and the usual one where none was given.
pub proof fn table_named(
    table_name: String,
    given: PgMutableStoreSettings,
    usual: PgMutableStoreSettings,
    copy: PgMutableStoreSettings,
)
    requires
        call_ensures(PgMutableStoreSettings::new, (table_name,), given),
        call_ensures(PgMutableStoreSettings::default, (), usual),
        call_ensures(PgMutableStoreSettings::clone, (&given,), copy),
    ensures
        given.table_name@ == table_name@,
        usual.table_name@ == "mutable_store"@,
        copy.table_name@ == given.table_name@,
{
}

} // verus!
