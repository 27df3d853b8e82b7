//! That the statements of the lock store, as Postgres gets them, do to the table what the rest
//! of the store takes them to do.

use crate::lock::records::LockKey;
use crate::lock::report::LockRowView;
use crate::lock::spelling::{
    delete_any_words, delete_from_words, delete_owned_words, insert_into_words,
    insert_values_words, lemma_delete_any_reads, lemma_delete_from_reads,
    lemma_delete_owned_reads, lemma_insert_into_reads, lemma_insert_values_reads,
    lemma_schema_1_reads, lemma_schema_2_reads, lemma_schema_3_reads, lemma_schema_4_reads,
    lemma_schema_5_reads, lemma_schema_6_reads, lemma_schema_7_reads, lemma_schema_8_reads,
    lemma_select_locks_from_reads, lemma_select_owner_from_reads, lemma_status_reads,
    lemma_where_hash_reads, lemma_where_hash_repository_branch_reads,
    lemma_where_hash_repository_reads, lemma_where_key_reads, lemma_where_owner_reads,
    lemma_where_owner_repository_branch_reads, lemma_where_owner_repository_reads,
    lemma_where_repository_branch_description_reads, lemma_where_repository_branch_reads,
    lemma_where_repository_reads, schema_1_words, schema_2_words, schema_3_words, schema_4_words,
    schema_5_words, schema_6_words, schema_7_words, schema_8_words, select_locks_from_words,
    select_owner_from_words, status_words, where_hash_repository_branch_words,
    where_hash_repository_words, where_hash_words, where_key_words,
    where_owner_repository_branch_words, where_owner_repository_words, where_owner_words,
    where_repository_branch_description_words, where_repository_branch_words,
    where_repository_words,
};
use crate::lock::statements::{
    lock_schema_text, lock_sql, LockQueryView, LockStatement, LockStatementView, PgLockStore,
    DELETE_ANY, DELETE_FROM, DELETE_OWNED, INSERT_INTO, INSERT_VALUES, SCHEMA_1, SCHEMA_2, SCHEMA_3,
    SCHEMA_4, SCHEMA_5, SCHEMA_6, SCHEMA_7, SCHEMA_8, SELECT_LOCKS_FROM, SELECT_OWNER_FROM, STATUS,
    WHERE_HASH, WHERE_HASH_REPOSITORY, WHERE_HASH_REPOSITORY_BRANCH, WHERE_KEY, WHERE_OWNER,
    WHERE_OWNER_REPOSITORY, WHERE_OWNER_REPOSITORY_BRANCH, WHERE_REPOSITORY,
    WHERE_REPOSITORY_BRANCH, WHERE_REPOSITORY_BRANCH_DESCRIPTION,
};
use crate::lock::table::{
    among_pairs, execute, owner_of, row_of, selects, LockEntry, LockTable,
};
use crate::relational::{
    agree, all_of, askable, bracketed, bracketed_end, cells, comes_of, declared, definitions,
    executes, highest, indexes_words, insertable, lemma_named, lemma_spliced, meets, names, places,
    primaries, row_with, spells, word, Answer, Column, ColumnType, Command, Condition, Conflict,
    Database, Definition, Index, Outcome, Pairs, Relation, Row, Test, Words,
};
use crate::sql::{SqlParamView, SqlStatement, SqlStatementView};
use crate::types::{lemma_context_bytes, lemma_hash_bytes, BranchId, ContentHash, RepositoryId};
use vstd::prelude::*;

verus! {

// ---------------------------------------------------------------------------
// The table
// ---------------------------------------------------------------------------

/// The row of a lock.
pub open spec fn lock_row(key: LockKey, entry: LockEntry) -> Row {
    map![
        Column::Repository => SqlParamView::Bytes(key.repository@),
        Column::Branch => SqlParamView::Bytes(key.branch@),
        Column::Hash => SqlParamView::Bytes(key.hash@),
        Column::OwnerId => SqlParamView::Text(entry.owner_id),
        Column::Description => SqlParamView::Text(entry.description),
        Column::LockedAt => SqlParamView::BigInt(entry.locked_at as int),
    ]
}

/// The rows of a table of locks.
pub open spec fn lock_rows(table: LockTable) -> Set<Row> {
    Set::new(
        |r: Row|
            exists|key: LockKey|
                #[trigger] table.contains_key(key) && r == lock_row(key, table[key]),
    )
}

/// The table of locks, as it is in Postgres.
pub open spec fn lock_relation(table: LockTable) -> Relation {
    Relation {
        columns: map![
            Column::Repository => ColumnType::Bytes,
            Column::Branch => ColumnType::Bytes,
            Column::Hash => ColumnType::Bytes,
            Column::OwnerId => ColumnType::Text,
            Column::Description => ColumnType::Text,
            Column::LockedAt => ColumnType::BigInt,
        ],
        key: set![Column::Repository, Column::Branch, Column::Hash],
        rows: lock_rows(table),
    }
}

/// Postgres has the table of locks under the name.
pub open spec fn stands(database: Database, name: Seq<char>, table: LockTable) -> bool {
    database.contains_key(name) && database[name] == lock_relation(table)
}

/// Executing the statement, as Postgres gets it, leaves the locks like this, adds or removes
/// so many rows, answers this, and touches no other table.
pub open spec fn statement_does(
    name: Seq<char>,
    database: Database,
    statement: LockStatementView,
    after: LockTable,
    changed: nat,
    answer: Answer,
) -> bool {
    exists|outcome: Outcome|
        #[trigger] executes(lock_sql(name, statement), database, outcome) && outcome.database
            == database.insert(name, lock_relation(after)) && outcome.changed == changed
            && outcome.answer == answer
}

/// The key that a row stands for.
spec fn key_of(table: LockTable, row: Row) -> LockKey {
    choose|key: LockKey| #[trigger] table.contains_key(key) && row == lock_row(key, table[key])
}

proof fn lemma_rows(table: LockTable)
    ensures
        forall|r: Row| #[trigger]
            lock_rows(table).contains(r) ==> table.contains_key(key_of(table, r)) && r == lock_row(
                key_of(table, r),
                table[key_of(table, r)],
            ),
        forall|key: LockKey| #[trigger]
            table.contains_key(key) ==> lock_rows(table).contains(lock_row(key, table[key])),
{
    assert forall|r: Row| #[trigger] lock_rows(table).contains(r) implies table.contains_key(
        key_of(table, r),
    ) && r == lock_row(key_of(table, r), table[key_of(table, r)]) by {
        let key = choose|key: LockKey| #[trigger]
            table.contains_key(key) && r == lock_row(key, table[key]);
        assert(table.contains_key(key) && r == lock_row(key, table[key]));
    }
}

proof fn lemma_row(a: LockKey, v: LockEntry, b: LockKey, w: LockEntry)
    ensures
        lock_row(a, v) == lock_row(b, w) <==> a == b && v == w,
        agree(
            lock_row(a, v),
            lock_row(b, w),
            set![Column::Repository, Column::Branch, Column::Hash],
        ) <==> a == b,
{
    lemma_context_bytes(a.repository, b.repository);
    lemma_context_bytes(a.branch, b.branch);
    lemma_hash_bytes(a.hash, b.hash);
    let (x, y) = (lock_row(a, v), lock_row(b, w));
    assert(x[Column::Repository] == SqlParamView::Bytes(a.repository@));
    assert(y[Column::Repository] == SqlParamView::Bytes(b.repository@));
    assert(x[Column::Branch] == SqlParamView::Bytes(a.branch@));
    assert(y[Column::Branch] == SqlParamView::Bytes(b.branch@));
    assert(x[Column::Hash] == SqlParamView::Bytes(a.hash@));
    assert(y[Column::Hash] == SqlParamView::Bytes(b.hash@));
    assert(x[Column::OwnerId] == SqlParamView::Text(v.owner_id));
    assert(y[Column::OwnerId] == SqlParamView::Text(w.owner_id));
    assert(x[Column::Description] == SqlParamView::Text(v.description));
    assert(y[Column::Description] == SqlParamView::Text(w.description));
    assert(x[Column::LockedAt] == SqlParamView::BigInt(v.locked_at as int));
    assert(y[Column::LockedAt] == SqlParamView::BigInt(w.locked_at as int));
    let key = set![Column::Repository, Column::Branch, Column::Hash];
    assert(key.contains(Column::Repository) && key.contains(Column::Branch) && key.contains(
        Column::Hash,
    ));
}

proof fn lemma_key_columns()
    ensures
        seq![Column::Repository, Column::Branch, Column::Hash].to_set() == set![
            Column::Repository,
            Column::Branch,
            Column::Hash,
        ],
{
    let list = seq![Column::Repository, Column::Branch, Column::Hash];
    assert(list[0] == Column::Repository && list[1] == Column::Branch && list[2]
        == Column::Hash);
    assert(list.to_set() =~= set![Column::Repository, Column::Branch, Column::Hash]);
}

/// A column is equal to the parameter that has the number.
spec fn equals(column: Column, number: nat) -> Condition {
    Condition { column, test: Test::Equal, number }
}

/// The conditions that pick one lock.
spec fn key_conditions() -> Seq<Condition> {
    seq![equals(Column::Repository, 1), equals(Column::Branch, 2), equals(Column::Hash, 3)]
}

/// The conditions that pick one lock, provided that an owner holds it.
spec fn owned_conditions() -> Seq<Condition> {
    seq![
        equals(Column::Repository, 1),
        equals(Column::Branch, 2),
        equals(Column::Hash, 3),
        equals(Column::OwnerId, 4),
    ]
}

// ---------------------------------------------------------------------------
// Adding and removing locks
// ---------------------------------------------------------------------------

/// Adding a lock, as Postgres gets it, adds it under its key if nobody holds that, tells by
/// the number of rows whether it did, and leaves all other locks alone.
pub proof fn insert_does(
    name: Seq<char>,
    database: Database,
    table: LockTable,
    key: LockKey,
    entry: LockEntry,
)
    requires
        stands(database, name, table),
    ensures
        statement_does(
            name,
            database,
            LockStatementView::Insert {
                key,
                owner_id: entry.owner_id,
                description: entry.description,
                locked_at: entry.locked_at,
            },
            if table.contains_key(key) {
                table
            } else {
                table.insert(key, entry)
            },
            if table.contains_key(key) {
                0
            } else {
                1
            },
            Answer::Nothing,
        ),
{
    let columns = seq![
        Column::Repository,
        Column::Branch,
        Column::Hash,
        Column::OwnerId,
        Column::Description,
        Column::LockedAt,
    ];
    let command = Command::Insert {
        table: name,
        columns,
        conflict: Conflict::Skip(seq![Column::Repository, Column::Branch, Column::Hash]),
    };
    let sql = lock_sql(
        name,
        LockStatementView::Insert {
            key,
            owner_id: entry.owner_id,
            description: entry.description,
            locked_at: entry.locked_at,
        },
    );
    lemma_insert_into_reads();
    lemma_insert_values_reads();
    lemma_named(
        INSERT_INTO@,
        name,
        INSERT_VALUES@,
        insert_into_words(),
        insert_values_words(),
        1,
    );
    assert(insert_into_words().followed_by(word(name, insert_values_words())) == command.words(
        Words::End,
    )) by {
        reveal_with_fuel(Words::followed_by, 3);
        reveal_with_fuel(bracketed, 7);
        reveal_with_fuel(places, 7);
    }
    let row = lock_row(key, entry);
    let relation = lock_relation(table);
    let after = if table.contains_key(key) {
        table
    } else {
        table.insert(key, entry)
    };
    assert(row_with(columns, 0, sql.params) =~= row) by {
        reveal_with_fuel(row_with, 7);
    }
    assert(insertable(columns, 0, sql.params, relation)) by {
        reveal_with_fuel(insertable, 7);
    }
    assert(row.dom() =~= relation.columns.dom());
    lemma_key_columns();
    lemma_rows(table);
    lemma_rows(after);
    assert forall|r: Row| #[trigger] relation.rows.contains(r) implies (agree(
        r,
        row,
        relation.key,
    ) <==> key_of(table, r) == key) by {
        lemma_row(key_of(table, r), table[key_of(table, r)], key, entry);
    }
    let outcome = command.run(sql.params, database)->0;
    if table.contains_key(key) {
        let old = lock_row(key, table[key]);
        lemma_row(key, table[key], key, entry);
        assert(relation.rows.contains(old) && agree(old, row, relation.key));
    } else {
        let rows = outcome.database[name].rows;
        assert forall|r: Row| rows.contains(r) <==> #[trigger] lock_rows(after).contains(r) by {
            if lock_rows(after).contains(r) && r != row {
                assert(table.contains_key(key_of(after, r)));
            }
            if lock_rows(table).contains(r) {
                assert(after.contains_key(key_of(table, r)));
            }
            assert(after.contains_key(key));
        }
        assert(rows =~= lock_rows(after));
    }
    assert(outcome.database =~= database.insert(name, lock_relation(after)));
    assert(comes_of(command, sql, database, outcome));
    assert(executes(sql, database, outcome));
}

/// Removing the rows that meet some conditions removes one lock, or none.
proof fn lemma_removes(
    name: Seq<char>,
    database: Database,
    table: LockTable,
    wanted: Seq<Condition>,
    params: Seq<SqlParamView>,
    key: LockKey,
    hit: bool,
)
    requires
        stands(database, name, table),
        askable(wanted, 0, params, lock_relation(table)),
        hit ==> table.contains_key(key),
        forall|k: LockKey| #[trigger]
            table.contains_key(k) ==> (meets(wanted, 0, params, lock_row(k, table[k])) <==> hit
                && k == key),
    ensures
        ({
            let after = if hit {
                table.remove(key)
            } else {
                table
            };
            Command::Delete { table: name, wanted }.run(params, database) == Some(
                Outcome {
                    database: database.insert(name, lock_relation(after)),
                    changed: if hit {
                        1
                    } else {
                        0
                    },
                    answer: Answer::Nothing,
                },
            )
        }),
{
    let relation = lock_relation(table);
    let after = if hit {
        table.remove(key)
    } else {
        table
    };
    lemma_rows(table);
    lemma_rows(after);
    let outcome = Command::Delete { table: name, wanted }.run(params, database)->0;
    let rows = outcome.database[name].rows;
    assert forall|r: Row| rows.contains(r) <==> #[trigger] lock_rows(after).contains(r) by {
        if lock_rows(table).contains(r) {
            let a = key_of(table, r);
            if !(hit && a == key) {
                assert(after.contains_key(a));
            }
            if lock_rows(after).contains(r) {
                let b = key_of(after, r);
                lemma_row(a, table[a], b, after[b]);
            }
        }
        if lock_rows(after).contains(r) {
            assert(table.contains_key(key_of(after, r)));
        }
    }
    assert(rows =~= lock_rows(after));
    let gone = relation.rows.filter(|r: Row| meets(wanted, 0, params, r));
    if hit {
        let row = lock_row(key, table[key]);
        assert(gone.contains(row));
        assert forall|r: Row| #[trigger] gone.contains(r) implies r == row by {
            assert(table.contains_key(key_of(table, r)));
        }
        assert(gone =~= set![row]);
    } else {
        assert forall|r: Row| !#[trigger] gone.contains(r) by {
            if gone.contains(r) {
                assert(table.contains_key(key_of(table, r)));
            }
        }
        assert(gone =~= Set::empty());
    }
    assert(outcome.database =~= database.insert(name, lock_relation(after)));
}

/// Removing a lock without regard to its owner, as Postgres gets it, removes the one under the
/// key if there is one, tells by the number of rows whether it did, and leaves all other locks
/// alone.
pub proof fn delete_does(
    name: Seq<char>,
    database: Database,
    table: LockTable,
    key: LockKey,
)
    requires
        stands(database, name, table),
    ensures
        statement_does(
            name,
            database,
            LockStatementView::Delete { key },
            table.remove(key),
            if table.contains_key(key) {
                1
            } else {
                0
            },
            Answer::Nothing,
        ),
{
    let command = Command::Delete { table: name, wanted: key_conditions() };
    let sql = lock_sql(name, LockStatementView::Delete { key });
    lemma_delete_from_reads();
    lemma_delete_any_reads();
    lemma_named(DELETE_FROM@, name, DELETE_ANY@, delete_from_words(), delete_any_words(), 18);
    assert(delete_from_words().followed_by(word(name, delete_any_words())) == command.words(
        Words::End,
    )) by {
        reveal_with_fuel(Words::followed_by, 3);
        reveal_with_fuel(all_of, 4);
    }
    reveal_with_fuel(askable, 4);
    reveal_with_fuel(highest, 4);
    assert forall|k: LockKey| #[trigger] table.contains_key(k) implies (meets(
        key_conditions(),
        0,
        sql.params,
        lock_row(k, table[k]),
    ) <==> k == key) by {
        reveal_with_fuel(meets, 4);
        lemma_context_bytes(k.repository, key.repository);
        lemma_context_bytes(k.branch, key.branch);
        lemma_hash_bytes(k.hash, key.hash);
    }
    let hit = table.contains_key(key);
    lemma_removes(name, database, table, key_conditions(), sql.params, key, hit);
    if !hit {
        assert(table.remove(key) =~= table);
    }
    let outcome = command.run(sql.params, database)->0;
    assert(comes_of(command, sql, database, outcome));
    assert(executes(sql, database, outcome));
}

/// Removing an owner's lock, as Postgres gets it, removes the one under the key if that owner
/// holds it, tells by the number of rows whether it did, and leaves all other locks alone.
pub proof fn delete_owned_does(
    name: Seq<char>,
    database: Database,
    table: LockTable,
    key: LockKey,
    owner_id: Seq<char>,
)
    requires
        stands(database, name, table),
    ensures
        ({
            let held = table.contains_key(key) && table[key].owner_id == owner_id;
            statement_does(
                name,
                database,
                LockStatementView::DeleteOwned { key, owner_id },
                if held {
                    table.remove(key)
                } else {
                    table
                },
                if held {
                    1
                } else {
                    0
                },
                Answer::Nothing,
            )
        }),
{
    let command = Command::Delete { table: name, wanted: owned_conditions() };
    let sql = lock_sql(name, LockStatementView::DeleteOwned { key, owner_id });
    lemma_delete_from_reads();
    lemma_delete_owned_reads();
    lemma_named(
        DELETE_FROM@,
        name,
        DELETE_OWNED@,
        delete_from_words(),
        delete_owned_words(),
        18,
    );
    assert(delete_from_words().followed_by(word(name, delete_owned_words())) == command.words(
        Words::End,
    )) by {
        reveal_with_fuel(Words::followed_by, 3);
        reveal_with_fuel(all_of, 5);
    }
    reveal_with_fuel(askable, 5);
    reveal_with_fuel(highest, 5);
    let held = table.contains_key(key) && table[key].owner_id == owner_id;
    assert forall|k: LockKey| #[trigger] table.contains_key(k) implies (meets(
        owned_conditions(),
        0,
        sql.params,
        lock_row(k, table[k]),
    ) <==> held && k == key) by {
        reveal_with_fuel(meets, 5);
        lemma_context_bytes(k.repository, key.repository);
        lemma_context_bytes(k.branch, key.branch);
        lemma_hash_bytes(k.hash, key.hash);
    }
    lemma_removes(name, database, table, owned_conditions(), sql.params, key, held);
    let outcome = command.run(sql.params, database)->0;
    assert(comes_of(command, sql, database, outcome));
    assert(executes(sql, database, outcome));
}

/// Asking for the owner of a lock, as Postgres gets it, answers who holds it, or no row where
/// nobody does.
pub proof fn select_owner_does(
    name: Seq<char>,
    database: Database,
    table: LockTable,
    key: LockKey,
)
    requires
        stands(database, name, table),
    ensures
        statement_does(
            name,
            database,
            LockStatementView::SelectOwner { key },
            table,
            0,
            Answer::Rows(
                if table.contains_key(key) {
                    map![
                        lock_row(key, table[key]) => seq![SqlParamView::Text(table[key].owner_id)],
                    ]
                } else {
                    Map::empty()
                },
            ),
        ),
{
    let columns = seq![Column::OwnerId];
    let command = Command::Select {
        table: name,
        columns,
        wanted: key_conditions(),
        filled: None,
        pairs: None,
    };
    let sql = lock_sql(name, LockStatementView::SelectOwner { key });
    lemma_select_owner_from_reads();
    lemma_where_key_reads();
    lemma_named(
        SELECT_OWNER_FROM@,
        name,
        WHERE_KEY@,
        select_owner_from_words(),
        where_key_words(),
        1,
    );
    assert(select_owner_from_words().followed_by(word(name, where_key_words())) == command.words(
        Words::End,
    )) by {
        reveal_with_fuel(Words::followed_by, 4);
        reveal_with_fuel(names, 2);
        reveal_with_fuel(all_of, 4);
    }
    reveal_with_fuel(askable, 4);
    reveal_with_fuel(highest, 4);
    lemma_rows(table);
    let outcome = command.run(sql.params, database)->0;
    let shown = outcome.answer->Rows_0;
    assert forall|r: Row| #[trigger] lock_rows(table).contains(r) implies (shown.contains_key(r)
        <==> key_of(table, r) == key) && (shown.contains_key(r) ==> shown[r] == seq![
        SqlParamView::Text(table[key].owner_id),
    ]) by {
        let a = key_of(table, r);
        reveal_with_fuel(meets, 4);
        reveal_with_fuel(cells, 2);
        lemma_context_bytes(a.repository, key.repository);
        lemma_context_bytes(a.branch, key.branch);
        lemma_hash_bytes(a.hash, key.hash);
        if a == key {
            assert(cells(columns, 0, r) =~= seq![SqlParamView::Text(table[key].owner_id)]);
        }
    }
    if table.contains_key(key) {
        let row = lock_row(key, table[key]);
        assert(lock_rows(table).contains(row));
        lemma_row(key_of(table, row), table[key_of(table, row)], key, table[key]);
        assert(shown =~= map![row => seq![SqlParamView::Text(table[key].owner_id)]]);
    } else {
        assert(shown =~= Map::empty());
    }
    assert(outcome.database =~= database.insert(name, lock_relation(table)));
    assert(comes_of(command, sql, database, outcome));
    assert(executes(sql, database, outcome));
}

// ---------------------------------------------------------------------------
// Listing locks
// ---------------------------------------------------------------------------

/// The columns of a listed row, in the order in which they are read.
pub open spec fn row_cells(row: LockRowView) -> Seq<SqlParamView> {
    seq![
        SqlParamView::Bytes(row.hash),
        SqlParamView::Bytes(row.branch),
        SqlParamView::Text(row.owner_id),
        SqlParamView::Text(row.description),
        SqlParamView::BigInt(row.locked_at as int),
    ]
}

/// A listing shows these locks: every one that the statement selects, as it stands in the
/// table, and no others.
pub open spec fn shows_selected(
    table: LockTable,
    statement: LockStatementView,
    shown: Map<Row, Seq<SqlParamView>>,
) -> bool {
    &&& forall|key: LockKey|
        #[trigger] table.contains_key(key) && selects(statement, key, table[key])
            ==> shown.contains_key(lock_row(key, table[key])) && shown[lock_row(key, table[key])]
            == row_cells(row_of(key, table[key]))
    &&& forall|r: Row| #[trigger]
        shown.contains_key(r) ==> exists|key: LockKey|
            #[trigger] table.contains_key(key) && selects(statement, key, table[key]) && r
                == lock_row(key, table[key])
}

/// The columns that a listing shows.
spec fn listed_columns() -> Seq<Column> {
    seq![
        Column::Hash,
        Column::Branch,
        Column::OwnerId,
        Column::Description,
        Column::LockedAt,
    ]
}

proof fn lemma_lists(
    name: Seq<char>,
    database: Database,
    table: LockTable,
    statement: LockStatementView,
    wanted: Seq<Condition>,
    pairs: Option<Pairs>,
)
    requires
        stands(database, name, table),
        ({
            let sql = lock_sql(name, statement);
            let command = Command::Select {
                table: name,
                columns: listed_columns(),
                wanted,
                filled: None,
                pairs,
            };
            &&& spells(sql.text, command.words(Words::End))
            &&& sql.params.len() == command.arity()
            &&& askable(wanted, 0, sql.params, lock_relation(table))
            &&& pairs matches Some(pairs) ==> pairs.usable(sql.params)
            &&& forall|key: LockKey|
                #[trigger] table.contains_key(key) ==> (selects(statement, key, table[key])
                    <==> meets(wanted, 0, sql.params, lock_row(key, table[key])) && (
                pairs matches Some(pairs) ==> pairs.among(
                    sql.params,
                    lock_row(key, table[key]),
                )))
        }),
    ensures
        exists|shown: Map<Row, Seq<SqlParamView>>|
            statement_does(name, database, statement, table, 0, Answer::Rows(shown))
                && #[trigger] shows_selected(table, statement, shown),
{
    let sql = lock_sql(name, statement);
    let columns = listed_columns();
    let command = Command::Select { table: name, columns, wanted, filled: None, pairs };
    lemma_rows(table);
    let outcome = command.run(sql.params, database)->0;
    let shown = outcome.answer->Rows_0;
    assert forall|key: LockKey|
        #[trigger] table.contains_key(key) && selects(statement, key, table[key]) implies
        shown.contains_key(lock_row(key, table[key])) && shown[lock_row(key, table[key])]
        == row_cells(row_of(key, table[key])) by {
        let r = lock_row(key, table[key]);
        assert(lock_rows(table).contains(r));
        reveal_with_fuel(cells, 6);
        assert(cells(columns, 0, r) =~= row_cells(row_of(key, table[key])));
    }
    assert forall|r: Row| #[trigger] shown.contains_key(r) implies exists|key: LockKey|
        #[trigger] table.contains_key(key) && selects(statement, key, table[key]) && r
            == lock_row(key, table[key]) by {
        assert(table.contains_key(key_of(table, r)));
    }
    assert(outcome.database =~= database.insert(name, lock_relation(table)));
    assert(comes_of(command, sql, database, outcome));
    assert(executes(sql, database, outcome));
    assert(statement_does(name, database, statement, table, 0, Answer::Rows(shown)));
    assert(shows_selected(table, statement, shown));
}

/// The conditions of a query.
spec fn query_conditions(query: LockQueryView) -> Seq<Condition> {
    match query {
        LockQueryView::Hash(_) => seq![
            equals(Column::Hash, 1),
        ],
        LockQueryView::HashRepository(_, _) => seq![
            equals(Column::Hash, 1),
            equals(Column::Repository, 2),
        ],
        LockQueryView::HashRepositoryBranch(_, _, _) => seq![
            equals(Column::Hash, 1),
            equals(Column::Repository, 2),
            equals(Column::Branch, 3),
        ],
        LockQueryView::Owner(_) => seq![
            equals(Column::OwnerId, 1),
        ],
        LockQueryView::OwnerRepository(_, _) => seq![
            equals(Column::OwnerId, 1),
            equals(Column::Repository, 2),
        ],
        LockQueryView::OwnerRepositoryBranch(_, _, _) => seq![
            equals(Column::OwnerId, 1),
            equals(Column::Repository, 2),
            equals(Column::Branch, 3),
        ],
        LockQueryView::Repository(_) => seq![
            equals(Column::Repository, 1),
        ],
        LockQueryView::RepositoryBranch(_, _) => seq![
            equals(Column::Repository, 1),
            equals(Column::Branch, 2),
        ],
        LockQueryView::RepositoryBranchDescription(_, _, _) => seq![
            equals(Column::Repository, 1),
            equals(Column::Branch, 2),
            equals(Column::Description, 3),
        ],
    }
}

proof fn lemma_query_reads(name: Seq<char>, query: LockQueryView)
    ensures
        spells(
            lock_sql(name, LockStatementView::Query(query)).text,
            Command::Select {
                table: name,
                columns: listed_columns(),
                wanted: query_conditions(query),
                filled: None,
                pairs: None,
            }.words(Words::End),
        ),
{
    let command = Command::Select {
        table: name,
        columns: listed_columns(),
        wanted: query_conditions(query),
        filled: None,
        pairs: None,
    };
    let head = SELECT_LOCKS_FROM@;
    let words = select_locks_from_words();
    lemma_select_locks_from_reads();
    reveal_with_fuel(Words::followed_by, 8);
    reveal_with_fuel(names, 6);
    reveal_with_fuel(all_of, 4);
    match query {
        LockQueryView::Hash(_) => {
            lemma_where_hash_reads();
            lemma_named(head, name, WHERE_HASH@, words, where_hash_words(), 1);
            assert(words.followed_by(word(name, where_hash_words())) == command.words(Words::End));
        },
        LockQueryView::HashRepository(_, _) => {
            lemma_where_hash_repository_reads();
            lemma_named(head, name, WHERE_HASH_REPOSITORY@, words, where_hash_repository_words(),
                1);
            assert(words.followed_by(word(name, where_hash_repository_words()))
                == command.words(Words::End));
        },
        LockQueryView::HashRepositoryBranch(_, _, _) => {
            lemma_where_hash_repository_branch_reads();
            lemma_named(head, name, WHERE_HASH_REPOSITORY_BRANCH@, words,
                where_hash_repository_branch_words(), 1);
            assert(words.followed_by(word(name, where_hash_repository_branch_words()))
                == command.words(Words::End));
        },
        LockQueryView::Owner(_) => {
            lemma_where_owner_reads();
            lemma_named(head, name, WHERE_OWNER@, words, where_owner_words(), 1);
            assert(words.followed_by(word(name, where_owner_words())) == command.words(Words::End));
        },
        LockQueryView::OwnerRepository(_, _) => {
            lemma_where_owner_repository_reads();
            lemma_named(head, name, WHERE_OWNER_REPOSITORY@, words, where_owner_repository_words(),
                1);
            assert(words.followed_by(word(name, where_owner_repository_words()))
                == command.words(Words::End));
        },
        LockQueryView::OwnerRepositoryBranch(_, _, _) => {
            lemma_where_owner_repository_branch_reads();
            lemma_named(head, name, WHERE_OWNER_REPOSITORY_BRANCH@, words,
                where_owner_repository_branch_words(), 1);
            assert(words.followed_by(word(name, where_owner_repository_branch_words()))
                == command.words(Words::End));
        },
        LockQueryView::Repository(_) => {
            lemma_where_repository_reads();
            lemma_named(head, name, WHERE_REPOSITORY@, words, where_repository_words(), 1);
            assert(words.followed_by(word(name, where_repository_words()))
                == command.words(Words::End));
        },
        LockQueryView::RepositoryBranch(_, _) => {
            lemma_where_repository_branch_reads();
            lemma_named(head, name, WHERE_REPOSITORY_BRANCH@, words,
                where_repository_branch_words(), 1);
            assert(words.followed_by(word(name, where_repository_branch_words()))
                == command.words(Words::End));
        },
        LockQueryView::RepositoryBranchDescription(_, _, _) => {
            lemma_where_repository_branch_description_reads();
            lemma_named(head, name, WHERE_REPOSITORY_BRANCH_DESCRIPTION@, words,
                where_repository_branch_description_words(), 1);
            assert(words.followed_by(word(name, where_repository_branch_description_words()))
                == command.words(Words::End));
        },
    }
}

proof fn lemma_query_meets(
    name: Seq<char>,
    query: LockQueryView,
    key: LockKey,
    entry: LockEntry,
)
    ensures
        meets(
            query_conditions(query),
            0,
            lock_sql(name, LockStatementView::Query(query)).params,
            lock_row(key, entry),
        ) <==> selects(LockStatementView::Query(query), key, entry),
{
    reveal_with_fuel(meets, 4);
    match query {
        LockQueryView::Hash(h) => {
            lemma_hash_bytes(key.hash, h);
        },
        LockQueryView::HashRepository(h, r) => {
            lemma_hash_bytes(key.hash, h);
            lemma_context_bytes(key.repository, r);
        },
        LockQueryView::HashRepositoryBranch(h, r, b) => {
            lemma_hash_bytes(key.hash, h);
            lemma_context_bytes(key.repository, r);
            lemma_context_bytes(key.branch, b);
        },
        LockQueryView::Owner(_) => {
        },
        LockQueryView::OwnerRepository(_, r) => {
            lemma_context_bytes(key.repository, r);
        },
        LockQueryView::OwnerRepositoryBranch(_, r, b) => {
            lemma_context_bytes(key.repository, r);
            lemma_context_bytes(key.branch, b);
        },
        LockQueryView::Repository(r) => {
            lemma_context_bytes(key.repository, r);
        },
        LockQueryView::RepositoryBranch(r, b) => {
            lemma_context_bytes(key.repository, r);
            lemma_context_bytes(key.branch, b);
        },
        LockQueryView::RepositoryBranchDescription(r, b, _) => {
            lemma_context_bytes(key.repository, r);
            lemma_context_bytes(key.branch, b);
        },
    }
}

/// A query for locks, as Postgres gets it, shows every lock that it asks for, as it stands in
/// the table, and no others.
pub proof fn query_does(
    name: Seq<char>,
    database: Database,
    table: LockTable,
    query: LockQueryView,
)
    requires
        stands(database, name, table),
    ensures
        exists|shown: Map<Row, Seq<SqlParamView>>|
            statement_does(
                name,
                database,
                LockStatementView::Query(query),
                table,
                0,
                Answer::Rows(shown),
            ) && #[trigger] shows_selected(table, LockStatementView::Query(query), shown),
{
    let statement = LockStatementView::Query(query);
    lemma_query_reads(name, query);
    reveal_with_fuel(askable, 4);
    reveal_with_fuel(highest, 4);
    assert forall|key: LockKey| #[trigger] table.contains_key(key) implies (selects(
        statement,
        key,
        table[key],
    ) <==> meets(
        query_conditions(query),
        0,
        lock_sql(name, statement).params,
        lock_row(key, table[key]),
    )) by {
        lemma_query_meets(name, query, key, table[key]);
    }
    lemma_lists(name, database, table, statement, query_conditions(query), None);
}

/// A question which of some resources are locked, as Postgres gets it, shows the locks of
/// just these, as they stand in the table.
pub proof fn status_does(
    name: Seq<char>,
    database: Database,
    table: LockTable,
    repository: RepositoryId,
    branches: Seq<BranchId>,
    hashes: Seq<ContentHash>,
)
    requires
        stands(database, name, table),
        branches.len() == hashes.len(),
    ensures
        ({
            let statement = LockStatementView::Status { repository, branches, hashes };
            exists|shown: Map<Row, Seq<SqlParamView>>|
                statement_does(name, database, statement, table, 0, Answer::Rows(shown))
                    && #[trigger] shows_selected(table, statement, shown)
        }),
{
    let statement = LockStatementView::Status { repository, branches, hashes };
    let wanted = seq![equals(Column::Repository, 1)];
    let pairs = Pairs {
        first: Column::Branch,
        second: Column::Hash,
        first_number: 2,
        second_number: 3,
    };
    let command = Command::Select {
        table: name,
        columns: listed_columns(),
        wanted,
        filled: None,
        pairs: Some(pairs),
    };
    let sql = lock_sql(name, statement);
    lemma_select_locks_from_reads();
    lemma_status_reads();
    lemma_named(
        SELECT_LOCKS_FROM@,
        name,
        STATUS@,
        select_locks_from_words(),
        status_words(),
        14,
    );
    assert(select_locks_from_words().followed_by(word(name, status_words())) == command.words(
        Words::End,
    )) by {
        reveal_with_fuel(Words::followed_by, 8);
        reveal_with_fuel(names, 6);
        reveal_with_fuel(all_of, 2);
    }
    reveal_with_fuel(askable, 2);
    reveal_with_fuel(highest, 2);
    assert forall|key: LockKey| #[trigger] table.contains_key(key) implies (selects(
        statement,
        key,
        table[key],
    ) <==> meets(wanted, 0, sql.params, lock_row(key, table[key])) && pairs.among(
        sql.params,
        lock_row(key, table[key]),
    )) by {
        let r = lock_row(key, table[key]);
        reveal_with_fuel(meets, 2);
        lemma_context_bytes(key.repository, repository);
        if among_pairs(branches, hashes, key) {
            let i = choose|i: int|
                #![trigger branches[i]]
                0 <= i < branches.len() && branches[i] == key.branch && hashes[i] == key.hash;
            assert(pairs.at(sql.params, r, i));
        }
        if pairs.among(sql.params, r) {
            let i = choose|i: int|
                0 <= i < sql.params[1]->ByteList_0.len() && #[trigger] pairs.at(
                    sql.params,
                    r,
                    i,
                );
            lemma_context_bytes(branches[i], key.branch);
            lemma_hash_bytes(hashes[i], key.hash);
        }
    }
    lemma_lists(name, database, table, statement, wanted, Some(pairs));
}

// ---------------------------------------------------------------------------
// As a whole
// ---------------------------------------------------------------------------

/// The answer to the question who holds a lock.
pub open spec fn owner_answer(table: LockTable, key: LockKey) -> Answer {
    Answer::Rows(
        match owner_of(table, key) {
            Some(owner) => map![lock_row(key, table[key]) => seq![SqlParamView::Text(owner)]],
            None => Map::empty(),
        },
    )
}

/// Every statement that adds or removes a lock, as Postgres gets it, leaves the table, and
/// counts the rows, as [`execute`] says; the one that asks for an owner answers what
/// [`owner_of`] says.
pub proof fn statement_effect(
    name: Seq<char>,
    database: Database,
    table: LockTable,
    statement: LockStatementView,
)
    requires
        stands(database, name, table),
        statement is Insert || statement is Delete || statement is DeleteOwned
            || statement is SelectOwner,
    ensures
        statement_does(
            name,
            database,
            statement,
            execute(table, statement).0,
            execute(table, statement).1 as nat,
            match statement {
                LockStatementView::SelectOwner { key } => owner_answer(table, key),
                _ => Answer::Nothing,
            },
        ),
{
    match statement {
        LockStatementView::Insert { key, owner_id, description, locked_at } => {
            let entry = LockEntry { owner_id, description, locked_at };
            insert_does(name, database, table, key, entry);
        },
        LockStatementView::Delete { key } => {
            delete_does(name, database, table, key);
            if !table.contains_key(key) {
                assert(table.remove(key) =~= table);
            }
        },
        LockStatementView::DeleteOwned { key, owner_id } => {
            delete_owned_does(name, database, table, key, owner_id);
        },
        LockStatementView::SelectOwner { key } => {
            select_owner_does(name, database, table, key);
        },
        _ => {},
    }
}

/// Removing a lock leaves every other lock as it is, whether or not that is in the same
/// repository.
pub proof fn delete_keeps_others(
    name: Seq<char>,
    database: Database,
    table: LockTable,
    key: LockKey,
    other: LockKey,
)
    requires
        stands(database, name, table),
        table.contains_key(other),
        other != key,
    ensures
        exists|outcome: Outcome|
            #[trigger] executes(
                lock_sql(name, LockStatementView::Delete { key }),
                database,
                outcome,
            ) && outcome.database[name].rows.contains(lock_row(other, table[other])) && !(exists|
                entry: LockEntry,
            | outcome.database[name].rows.contains(#[trigger] lock_row(key, entry))),
{
    delete_does(name, database, table, key);
    let after = table.remove(key);
    let outcome = choose|outcome: Outcome|
        #[trigger] executes(lock_sql(name, LockStatementView::Delete { key }), database, outcome)
            && outcome.database == database.insert(name, lock_relation(after));
    lemma_rows(after);
    assert(after.contains_key(other));
    assert forall|entry: LockEntry| !lock_rows(after).contains(#[trigger] lock_row(key, entry)) by {
        let r = lock_row(key, entry);
        if lock_rows(after).contains(r) {
            lemma_row(key_of(after, r), after[key_of(after, r)], key, entry);
        }
    }
    assert(executes(lock_sql(name, LockStatementView::Delete { key }), database, outcome));
}

// ---------------------------------------------------------------------------
// The schema
// ---------------------------------------------------------------------------

/// A column that always has a value.
spec fn declares(column: Column, kind: ColumnType) -> Definition {
    Definition { column, kind, primary: false, zero: false }
}

/// The command that creates the table of locks.
spec fn create_command(name: Seq<char>) -> Command {
    Command::Create {
        table: name,
        declares: seq![
            declares(Column::Repository, ColumnType::Bytes),
            declares(Column::Branch, ColumnType::Bytes),
            declares(Column::Hash, ColumnType::Bytes),
            declares(Column::OwnerId, ColumnType::Text),
            declares(Column::Description, ColumnType::Text),
            declares(Column::LockedAt, ColumnType::BigInt),
        ],
        key: seq![Column::Repository, Column::Branch, Column::Hash],
        indexes: seq![
            Index { suffix: "_hash_idx"@, columns: seq![Column::Hash] },
            Index { suffix: "_owner_idx"@, columns: seq![Column::OwnerId] },
            Index { suffix: "_repo_idx"@, columns: seq![Column::Repository] },
        ],
    }
}

proof fn lemma_schema_reads(name: Seq<char>)
    ensures
        spells(lock_schema_text(name), create_command(name).words(Words::End)),
{
    lemma_schema_1_reads();
    lemma_schema_2_reads();
    lemma_schema_3_reads();
    lemma_schema_4_reads();
    lemma_schema_5_reads();
    lemma_schema_6_reads();
    lemma_schema_7_reads();
    lemma_schema_8_reads();
    let text = SCHEMA_1@;
    let words = schema_1_words();
    lemma_named(text, name, SCHEMA_2@, words, schema_2_words(), 1);
    let text = text + name + SCHEMA_2@;
    let words = words.followed_by(word(name, schema_2_words()));
    assert(text.last() == SCHEMA_2@.last());
    lemma_spliced(text, name, SCHEMA_3@, words, schema_3_words(), 9, 11);
    let text = text + name + SCHEMA_3@;
    let words = words.followed_by(word(name + "_hash_idx"@, schema_3_words()));
    assert(text.last() == SCHEMA_3@.last());
    lemma_named(text, name, SCHEMA_4@, words, schema_4_words(), 1);
    let text = text + name + SCHEMA_4@;
    let words = words.followed_by(word(name, schema_4_words()));
    assert(text.last() == SCHEMA_4@.last());
    lemma_spliced(text, name, SCHEMA_5@, words, schema_5_words(), 10, 11);
    let text = text + name + SCHEMA_5@;
    let words = words.followed_by(word(name + "_owner_idx"@, schema_5_words()));
    assert(text.last() == SCHEMA_5@.last());
    lemma_named(text, name, SCHEMA_6@, words, schema_6_words(), 1);
    let text = text + name + SCHEMA_6@;
    let words = words.followed_by(word(name, schema_6_words()));
    assert(text.last() == SCHEMA_6@.last());
    lemma_spliced(text, name, SCHEMA_7@, words, schema_7_words(), 9, 11);
    let text = text + name + SCHEMA_7@;
    let words = words.followed_by(word(name + "_repo_idx"@, schema_7_words()));
    assert(text.last() == SCHEMA_7@.last());
    lemma_named(text, name, SCHEMA_8@, words, schema_8_words(), 1);
    let words = words.followed_by(word(name, schema_8_words()));
    reveal_with_fuel(Words::followed_by, 75);
    reveal_with_fuel(definitions, 7);
    reveal_with_fuel(bracketed, 4);
    reveal_with_fuel(bracketed_end, 2);
    reveal_with_fuel(indexes_words, 4);
    assert(words == create_command(name).words(Words::End));
}

/// The schema creates the table that the statements are about, without locks, where it is
/// missing, and leaves it alone otherwise.
pub proof fn schema_does(name: Seq<char>, database: Database)
    ensures
        executes(
            SqlStatementView { text: lock_schema_text(name), params: seq![] },
            database,
            Outcome {
                database: if database.contains_key(name) {
                    database
                } else {
                    database.insert(name, lock_relation(Map::empty()))
                },
                changed: 0,
                answer: Answer::Nothing,
            },
        ),
{
    let sql = SqlStatementView { text: lock_schema_text(name), params: seq![] };
    let command = create_command(name);
    lemma_schema_reads(name);
    reveal_with_fuel(declared, 7);
    reveal_with_fuel(primaries, 7);
    let relation = lock_relation(Map::empty());
    let list = command->Create_declares;
    assert(declared(list, 0) =~= relation.columns);
    lemma_key_columns();
    assert(command->Create_key.to_set().union(primaries(list, 0)) =~= relation.key);
    assert(relation.rows =~= Set::empty());
    let outcome = command.run(sql.params, database)->0;
    assert(comes_of(command, sql, database, outcome));
}


// ---------------------------------------------------------------------------
// What is sent
// ---------------------------------------------------------------------------

/// What the store hands out for a statement does what the statement does: it is executed on
/// the table of the store, with the same effect and the same answer.
pub proof fn sent_as_meant(
    store: PgLockStore,
    statement: LockStatement,
    sql: SqlStatement,
    database: Database,
    after: LockTable,
    changed: nat,
    answer: Answer,
)
    requires
        call_ensures(PgLockStore::sql, (&store, &statement), sql),
        statement_does(store.table(), database, statement@, after, changed, answer),
    ensures
        exists|outcome: Outcome|
            #[trigger] executes(sql@, database, outcome) && outcome.database == database.insert(
                store.table(),
                lock_relation(after),
            ) && outcome.changed == changed && outcome.answer == answer,
{
}

/// What the store hands out to delete a lock, whoever holds it, deletes that lock if it is
/// there and leaves all others alone.
pub proof fn sent_delete(
    store: PgLockStore,
    key: LockKey,
    sql: SqlStatement,
    database: Database,
    table: LockTable,
)
    requires
        call_ensures(PgLockStore::sql, (&store, &LockStatement::Delete { key }), sql),
        stands(database, store.table(), table),
    ensures
        exists|outcome: Outcome|
            #[trigger] executes(sql@, database, outcome) && outcome.database == database.insert(
                store.table(),
                lock_relation(table.remove(key)),
            ) && outcome.changed == if table.contains_key(key) {
                1nat
            } else {
                0nat
            },
{
    let statement = LockStatementView::Delete { key };
    delete_does(store.table(), database, table, key);
    statement_effect(store.table(), database, table, statement);
}

/// What the store hands out as its schema creates its table, without locks, where it is
/// missing, and leaves it alone otherwise.
pub proof fn sent_schema(store: PgLockStore, text: String, database: Database)
    requires
        call_ensures(PgLockStore::ensure_schema, (&store,), text),
    ensures
        executes(
            SqlStatementView { text: text@, params: seq![] },
            database,
            Outcome {
                database: if database.contains_key(store.table()) {
                    database
                } else {
                    database.insert(store.table(), lock_relation(Map::empty()))
                },
                changed: 0,
                answer: Answer::Nothing,
            },
        ),
{
    schema_does(store.table(), database);
}

} // verus!
