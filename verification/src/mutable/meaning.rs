//! That the statements of the mutable store, as Postgres gets them, do to the table what the
//! rest of the store takes them to do.

use crate::bytes_order::lex_le;
use crate::mutable::requests::SwapRequest;
use crate::mutable::spelling::{
    delete_1_words, delete_2_words, insert_if_absent_1_words, insert_if_absent_2_words,
    insert_if_absent_3_words, lemma_delete_1_reads, lemma_delete_2_reads,
    lemma_insert_if_absent_1_reads, lemma_insert_if_absent_2_reads,
    lemma_insert_if_absent_3_reads, lemma_list_1_reads, lemma_list_2_reads, lemma_schema_1_reads,
    lemma_schema_2_reads, lemma_select_1_reads, lemma_select_2_reads,
    lemma_update_if_matches_1_reads, lemma_update_if_matches_2_reads,
    lemma_update_if_matches_3_reads, lemma_upsert_1_reads, lemma_upsert_2_reads, list_1_words,
    list_2_words, schema_1_words, schema_2_words, select_1_words, select_2_words,
    update_if_matches_1_words, update_if_matches_2_words, update_if_matches_3_words,
    upsert_1_words, upsert_2_words,
};
use crate::mutable::statements::{
    mutable_schema_text, mutable_sql, MutableStatement, PgMutableStore, DELETE_1, DELETE_2,
    INSERT_IF_ABSENT_1, INSERT_IF_ABSENT_2, INSERT_IF_ABSENT_3, LIST_1, LIST_2, SCHEMA_1, SCHEMA_2,
    SELECT_1, SELECT_2, UPDATE_IF_MATCHES_1, UPDATE_IF_MATCHES_2, UPDATE_IF_MATCHES_3, UPSERT_1,
    UPSERT_2,
};
use crate::mutable::table::{answer, table_after, value_of, MutableKey, MutableTable};
use crate::relational::{
    agree, all_of, askable, bracketed, cells, comes_of, declared, definitions, excluded, executes,
    highest, highest_set, insertable, lemma_named, meets, names, overwritten, picked, places,
    primaries, row_set, row_with, settable, settings, spells, word, Answer, Column, ColumnType,
    Command, Condition, Conflict, Database, Definition, Outcome, Relation, Row, Test, Words,
};
use crate::sql::{SqlParamView, SqlStatement, SqlStatementView};
use crate::types::{
    lemma_context_bytes, lemma_hash_bytes, zero_hash, ContentHash, RepositoryId,
};
use vstd::prelude::*;

verus! {

/// The row of a key that has a value.
pub open spec fn key_row(at: MutableKey, value: ContentHash) -> Row {
    map![
        Column::RepositoryId => SqlParamView::Bytes(at.repository@),
        Column::Key => SqlParamView::Bytes(at.key@),
        Column::Value => SqlParamView::Bytes(value@),
    ]
}

/// The rows of a table of keys.
pub open spec fn key_rows(table: MutableTable) -> Set<Row> {
    Set::new(
        |r: Row|
            exists|at: MutableKey| #[trigger] table.contains_key(at) && r == key_row(at, table[at]),
    )
}

/// The table of keys, as it is in Postgres.
pub open spec fn key_relation(table: MutableTable) -> Relation {
    Relation {
        columns: map![
            Column::RepositoryId => ColumnType::Bytes,
            Column::Key => ColumnType::Bytes,
            Column::Value => ColumnType::Bytes,
        ],
        key: set![Column::RepositoryId, Column::Key],
        rows: key_rows(table),
    }
}

/// Postgres has the table of keys under the name.
pub open spec fn stands(database: Database, name: Seq<char>, table: MutableTable) -> bool {
    database.contains_key(name) && database[name] == key_relation(table)
}

/// Executing the statement, as Postgres gets it, leaves the keys like this, answers this, and
/// touches no other table.
pub open spec fn statement_does(
    name: Seq<char>,
    database: Database,
    statement: MutableStatement,
    after: MutableTable,
    answer: Answer,
) -> bool {
    exists|outcome: Outcome|
        #[trigger] executes(mutable_sql(name, statement), database, outcome) && outcome.database
            == database.insert(name, key_relation(after)) && outcome.answer == answer
}

/// The key that a row stands for.
spec fn key_of(table: MutableTable, row: Row) -> MutableKey {
    choose|at: MutableKey| #[trigger] table.contains_key(at) && row == key_row(at, table[at])
}

proof fn lemma_row(a: MutableKey, v: ContentHash, b: MutableKey, w: ContentHash)
    ensures
        agree(key_row(a, v), key_row(b, w), set![Column::RepositoryId, Column::Key]) <==> a == b,
        key_row(a, v) == key_row(b, w) <==> a == b && v == w,
{
    lemma_context_bytes(a.repository, b.repository);
    lemma_hash_bytes(a.key, b.key);
    lemma_hash_bytes(v, w);
    let (x, y) = (key_row(a, v), key_row(b, w));
    assert(x[Column::RepositoryId] == SqlParamView::Bytes(a.repository@));
    assert(y[Column::RepositoryId] == SqlParamView::Bytes(b.repository@));
    assert(x[Column::Key] == SqlParamView::Bytes(a.key@));
    assert(y[Column::Key] == SqlParamView::Bytes(b.key@));
    assert(x[Column::Value] == SqlParamView::Bytes(v@));
    assert(y[Column::Value] == SqlParamView::Bytes(w@));
    let key = set![Column::RepositoryId, Column::Key];
    assert(key.contains(Column::RepositoryId) && key.contains(Column::Key));
}

/// Storing a value, as Postgres gets it, gives the key the value and leaves all other keys
/// alone.
pub proof fn upsert_does(
    name: Seq<char>,
    database: Database,
    table: MutableTable,
    repository: RepositoryId,
    key: ContentHash,
    value: ContentHash,
)
    requires
        stands(database, name, table),
    ensures
        statement_does(
            name,
            database,
            MutableStatement::Upsert { repository, key, value },
            table.insert(MutableKey { repository, key }, value),
            Answer::Nothing,
        ),
{
    let command = Command::Insert {
        table: name,
        columns: seq![Column::RepositoryId, Column::Key, Column::Value],
        conflict: Conflict::Replace(
            seq![Column::RepositoryId, Column::Key],
            seq![Column::Value],
        ),
    };
    let sql = mutable_sql(name, MutableStatement::Upsert { repository, key, value });
    lemma_upsert_1_reads();
    lemma_upsert_2_reads();
    lemma_named(UPSERT_1@, name, UPSERT_2@, upsert_1_words(), upsert_2_words(), 1);
    assert(upsert_1_words().followed_by(word(name, upsert_2_words())) == command.words(
        Words::End,
    )) by {
        reveal_with_fuel(Words::followed_by, 3);
        reveal_with_fuel(bracketed, 4);
        reveal_with_fuel(places, 4);
        reveal_with_fuel(excluded, 2);
    }
    let at = MutableKey { repository, key };
    let row = key_row(at, value);
    let relation = key_relation(table);
    let after = table.insert(at, value);
    assert(row_with(command->Insert_columns, 0, sql.params) =~= row) by {
        reveal_with_fuel(row_with, 4);
    }
    assert(insertable(command->Insert_columns, 0, sql.params, relation)) by {
        reveal_with_fuel(insertable, 4);
    }
    assert(row.dom() =~= relation.columns.dom());
    assert(seq![Column::RepositoryId, Column::Key].to_set() =~= relation.key) by {
        lemma_key_set();
    }
    let outcome = command.run(sql.params, database)->0;
    let rows = outcome.database[name].rows;
    if table.contains_key(at) {
        let old = key_row(at, table[at]);
        assert(relation.rows.contains(old));
        lemma_row(at, table[at], at, value);
        assert(agree(old, row, relation.key));
    }
    assert forall|r: Row| #[trigger]
        relation.rows.contains(r) implies r == key_row(key_of(table, r), table[key_of(table, r)])
        && table.contains_key(key_of(table, r)) && (agree(r, row, relation.key) <==> key_of(
        table,
        r,
    ) == at) && (key_of(table, r) == at ==> overwritten(seq![Column::Value], 0, r, row) == row) by {
        let a = key_of(table, r);
        assert(table.contains_key(a) && r == key_row(a, table[a]));
        lemma_row(a, table[a], at, value);
        reveal_with_fuel(overwritten, 2);
        assert(key_of(table, r) == at ==> overwritten(seq![Column::Value], 0, r, row) =~= row);
    }
    assert forall|r: Row| rows.contains(r) <==> #[trigger] key_rows(after).contains(r) by {
        if key_rows(after).contains(r) {
            let a = key_of(after, r);
            assert(after.contains_key(a) && r == key_row(a, after[a]));
            if a != at {
                assert(relation.rows.contains(r));
                lemma_row(a, table[a], key_of(table, r), table[key_of(table, r)]);
            }
        }
        if rows.contains(r) {
            if relation.rows.contains(r) && !agree(r, row, relation.key) {
                assert(after.contains_key(key_of(table, r)));
            } else {
                assert(r == row);
                assert(after.contains_key(at));
            }
        }
    }
    assert(rows =~= key_rows(after));
    assert(outcome.database =~= database.insert(name, key_relation(after)));
    assert(comes_of(command, sql, database, outcome));
    assert(executes(sql, database, outcome));
}

proof fn lemma_key_set()
    ensures
        seq![Column::RepositoryId, Column::Key].to_set() == set![Column::RepositoryId, Column::Key],
{
    let list = seq![Column::RepositoryId, Column::Key];
    assert(list[0] == Column::RepositoryId && list[1] == Column::Key);
    assert(list.to_set() =~= set![Column::RepositoryId, Column::Key]);
}

/// Each row is that of its key.
proof fn lemma_rows(table: MutableTable)
    ensures
        forall|r: Row| #[trigger]
            key_rows(table).contains(r) ==> table.contains_key(key_of(table, r)) && r == key_row(
                key_of(table, r),
                table[key_of(table, r)],
            ),
        forall|at: MutableKey| #[trigger]
            table.contains_key(at) ==> key_rows(table).contains(key_row(at, table[at])),
{
    assert forall|r: Row| #[trigger] key_rows(table).contains(r) implies table.contains_key(
        key_of(table, r),
    ) && r == key_row(key_of(table, r), table[key_of(table, r)]) by {
        let at = choose|at: MutableKey| #[trigger]
            table.contains_key(at) && r == key_row(at, table[at]);
        assert(table.contains_key(at) && r == key_row(at, table[at]));
    }
}

/// The conditions that pick one key.
spec fn key_conditions() -> Seq<Condition> {
    seq![
        Condition { column: Column::RepositoryId, test: Test::Equal, number: 1 },
        Condition { column: Column::Key, test: Test::Equal, number: 2 },
    ]
}

proof fn lemma_key_conditions(
    params: Seq<SqlParamView>,
    table: MutableTable,
    at: MutableKey,
    a: MutableKey,
    v: ContentHash,
)
    requires
        params.len() >= 2,
        params[0] == SqlParamView::Bytes(at.repository@),
        params[1] == SqlParamView::Bytes(at.key@),
    ensures
        askable(key_conditions(), 0, params, key_relation(table)),
        highest(key_conditions(), 0) == 2,
        meets(key_conditions(), 0, params, key_row(a, v)) <==> a == at,
{
    reveal_with_fuel(meets, 3);
    reveal_with_fuel(askable, 3);
    reveal_with_fuel(highest, 3);
    lemma_context_bytes(a.repository, at.repository);
    lemma_hash_bytes(a.key, at.key);
}

/// Removing a key, as Postgres gets it, removes that key and no other.
pub proof fn delete_does(
    name: Seq<char>,
    database: Database,
    table: MutableTable,
    repository: RepositoryId,
    key: ContentHash,
)
    requires
        stands(database, name, table),
    ensures
        statement_does(
            name,
            database,
            MutableStatement::Delete { repository, key },
            table.remove(MutableKey { repository, key }),
            Answer::Nothing,
        ),
{
    let command = Command::Delete { table: name, wanted: key_conditions() };
    let sql = mutable_sql(name, MutableStatement::Delete { repository, key });
    lemma_delete_1_reads();
    lemma_delete_2_reads();
    lemma_named(DELETE_1@, name, DELETE_2@, delete_1_words(), delete_2_words(), 1);
    assert(delete_1_words().followed_by(word(name, delete_2_words())) == command.words(
        Words::End,
    )) by {
        reveal_with_fuel(Words::followed_by, 3);
        reveal_with_fuel(all_of, 3);
    }
    let at = MutableKey { repository, key };
    let after = table.remove(at);
    lemma_key_conditions(sql.params, table, at, at, zero_hash());
    let outcome = command.run(sql.params, database)->0;
    let rows = outcome.database[name].rows;
    lemma_rows(table);
    lemma_rows(after);
    assert forall|r: Row| rows.contains(r) <==> #[trigger] key_rows(after).contains(r) by {
        if key_rows(table).contains(r) {
            let a = key_of(table, r);
            lemma_key_conditions(sql.params, table, at, a, table[a]);
            if a != at {
                assert(after.contains_key(a));
            }
            if key_rows(after).contains(r) {
                let b = key_of(after, r);
                lemma_row(a, table[a], b, after[b]);
            }
        }
        if key_rows(after).contains(r) {
            let b = key_of(after, r);
            assert(table.contains_key(b));
        }
    }
    assert(rows =~= key_rows(after));
    assert(outcome.database =~= database.insert(name, key_relation(after)));
    assert(comes_of(command, sql, database, outcome));
    assert(executes(sql, database, outcome));
}

/// Reading a key, as Postgres gets it, answers the value of that key, or no row where it has
/// none.
pub proof fn select_does(
    name: Seq<char>,
    database: Database,
    table: MutableTable,
    repository: RepositoryId,
    key: ContentHash,
)
    requires
        stands(database, name, table),
    ensures
        ({
            let at = MutableKey { repository, key };
            statement_does(
                name,
                database,
                MutableStatement::Select { repository, key },
                table,
                Answer::Rows(
                    if table.contains_key(at) {
                        map![key_row(at, table[at]) => seq![SqlParamView::Bytes(table[at]@)]]
                    } else {
                        Map::empty()
                    },
                ),
            )
        }),
{
    let command = Command::Select {
        table: name,
        columns: seq![Column::Value],
        wanted: key_conditions(),
        filled: None,
        pairs: None,
    };
    let sql = mutable_sql(name, MutableStatement::Select { repository, key });
    lemma_select_1_reads();
    lemma_select_2_reads();
    lemma_named(SELECT_1@, name, SELECT_2@, select_1_words(), select_2_words(), 1);
    assert(select_1_words().followed_by(word(name, select_2_words())) == command.words(
        Words::End,
    )) by {
        reveal_with_fuel(Words::followed_by, 4);
        reveal_with_fuel(names, 2);
        reveal_with_fuel(all_of, 3);
    }
    let at = MutableKey { repository, key };
    lemma_key_conditions(sql.params, table, at, at, zero_hash());
    let outcome = command.run(sql.params, database)->0;
    let shown = outcome.answer->Rows_0;
    lemma_rows(table);
    assert forall|r: Row| #[trigger] key_rows(table).contains(r) implies (shown.contains_key(r)
        <==> key_of(table, r) == at) && (shown.contains_key(r) ==> shown[r] == seq![
        SqlParamView::Bytes(table[at]@),
    ]) by {
        let a = key_of(table, r);
        lemma_key_conditions(sql.params, table, at, a, table[a]);
        reveal_with_fuel(cells, 2);
        if a == at {
            assert(cells(seq![Column::Value], 0, r) =~= seq![SqlParamView::Bytes(table[at]@)]);
        }
    }
    if table.contains_key(at) {
        let row = key_row(at, table[at]);
        assert(key_rows(table).contains(row));
        lemma_row(key_of(table, row), table[key_of(table, row)], at, table[at]);
        assert(shown =~= map![row => seq![SqlParamView::Bytes(table[at]@)]]);
    } else {
        assert(shown =~= Map::empty());
    }
    assert(outcome.database =~= database.insert(name, key_relation(table)));
    assert(comes_of(command, sql, database, outcome));
    assert(executes(sql, database, outcome));
}

/// What is stored is what is read: once a value was stored, as Postgres gets it, reading the
/// key answers that value and nothing else.
pub proof fn stored_is_read(
    name: Seq<char>,
    database: Database,
    table: MutableTable,
    repository: RepositoryId,
    key: ContentHash,
    value: ContentHash,
)
    requires
        stands(database, name, table),
    ensures
        exists|stored: Outcome, read: Outcome|
            #[trigger] executes(
                mutable_sql(name, MutableStatement::Upsert { repository, key, value }),
                database,
                stored,
            ) && #[trigger] executes(
                mutable_sql(name, MutableStatement::Select { repository, key }),
                stored.database,
                read,
            ) && read.answer == Answer::Rows(
                map![
                    key_row(MutableKey { repository, key }, value) => seq![
                        SqlParamView::Bytes(value@),
                    ],
                ],
            ),
{
    let store = mutable_sql(name, MutableStatement::Upsert { repository, key, value });
    let load = mutable_sql(name, MutableStatement::Select { repository, key });
    let after = table.insert(MutableKey { repository, key }, value);
    upsert_does(name, database, table, repository, key, value);
    let stored = choose|outcome: Outcome|
        #[trigger] executes(store, database, outcome) && outcome.database == database.insert(
            name,
            key_relation(after),
        ) && outcome.answer == Answer::Nothing;
    select_does(name, stored.database, after, repository, key);
    let read = choose|outcome: Outcome|
        #[trigger] executes(load, stored.database, outcome) && outcome.database
            == stored.database.insert(name, key_relation(after)) && outcome.answer == Answer::Rows(
            map![
                key_row(MutableKey { repository, key }, value) => seq![SqlParamView::Bytes(value@)],
            ],
        );
    assert(executes(store, database, stored));
    assert(executes(load, stored.database, read));
}

/// The conditions that pick one key, provided that it has an expected value.
spec fn match_conditions() -> Seq<Condition> {
    seq![
        Condition { column: Column::RepositoryId, test: Test::Equal, number: 1 },
        Condition { column: Column::Key, test: Test::Equal, number: 2 },
        Condition { column: Column::Value, test: Test::Equal, number: 4 },
    ]
}

/// What a row that is picked by its key holds.
proof fn lemma_picked(table: MutableTable, at: MutableKey, params: Seq<SqlParamView>)
    requires
        params.len() >= 2,
        params[0] == SqlParamView::Bytes(at.repository@),
        params[1] == SqlParamView::Bytes(at.key@),
    ensures
        forall|r: Row| #[trigger]
            key_rows(table).contains(r) && meets(key_conditions(), 0, params, r)
                ==> table.contains_key(at) && r == key_row(at, table[at]),
        table.contains_key(at) ==> key_rows(table).contains(key_row(at, table[at])) && meets(
            key_conditions(),
            0,
            params,
            key_row(at, table[at]),
        ),
{
    lemma_rows(table);
    assert forall|r: Row| #[trigger]
        key_rows(table).contains(r) && meets(key_conditions(), 0, params, r) implies
        table.contains_key(at) && r == key_row(at, table[at]) by {
        let a = key_of(table, r);
        lemma_key_conditions(params, table, at, a, table[a]);
    }
    lemma_key_conditions(params, table, at, at, table[at]);
}

proof fn lemma_insert_reads(name: Seq<char>, command: Command)
    requires
        command == (Command::Swap {
            alias: "ins"@,
            change: Box::new(
                Command::Insert {
                    table: name,
                    columns: seq![Column::RepositoryId, Column::Key, Column::Value],
                    conflict: Conflict::Skip(seq![Column::RepositoryId, Column::Key]),
                },
            ),
            column: Column::Value,
            table: name,
            wanted: key_conditions(),
            changed: 4,
            otherwise: None,
        }),
    ensures
        spells(
            INSERT_IF_ABSENT_1@ + name + INSERT_IF_ABSENT_2@ + name + INSERT_IF_ABSENT_3@,
            command.words(Words::End),
        ),
{
    lemma_insert_if_absent_1_reads();
    lemma_insert_if_absent_2_reads();
    lemma_insert_if_absent_3_reads();
    let (one, two, three) = (
        insert_if_absent_1_words(),
        insert_if_absent_2_words(),
        insert_if_absent_3_words(),
    );
    lemma_named(INSERT_IF_ABSENT_1@, name, INSERT_IF_ABSENT_2@, one, two, 1);
    let head = INSERT_IF_ABSENT_1@ + name + INSERT_IF_ABSENT_2@;
    let words = one.followed_by(word(name, two));
    assert(head.last() == INSERT_IF_ABSENT_2@.last());
    lemma_named(head, name, INSERT_IF_ABSENT_3@, words, three, 1);
    reveal_with_fuel(Words::followed_by, 45);
    reveal_with_fuel(Command::words, 2);
    reveal_with_fuel(bracketed, 4);
    reveal_with_fuel(places, 4);
    reveal_with_fuel(all_of, 3);
    assert(words.followed_by(word(name, three)) == command.words(Words::End));
}

proof fn lemma_insert_if_absent_does(
    name: Seq<char>,
    database: Database,
    table: MutableTable,
    at: MutableKey,
    value: ContentHash,
)
    requires
        stands(database, name, table),
    ensures
        statement_does(
            name,
            database,
            MutableStatement::InsertIfAbsent { repository: at.repository, key: at.key, value },
            if table.contains_key(at) {
                table
            } else {
                table.insert(at, value)
            },
            Answer::Swapped(
                Some(SqlParamView::Bytes(value_of(table, at)@)),
                !table.contains_key(at),
            ),
        ),
{
    let change = Command::Insert {
        table: name,
        columns: seq![Column::RepositoryId, Column::Key, Column::Value],
        conflict: Conflict::Skip(seq![Column::RepositoryId, Column::Key]),
    };
    let command = Command::Swap {
        alias: "ins"@,
        change: Box::new(change),
        column: Column::Value,
        table: name,
        wanted: key_conditions(),
        changed: 4,
        otherwise: None,
    };
    let sql = mutable_sql(
        name,
        MutableStatement::InsertIfAbsent { repository: at.repository, key: at.key, value },
    );
    lemma_insert_reads(name, command);
    let row = key_row(at, value);
    let relation = key_relation(table);
    let after = if table.contains_key(at) {
        table
    } else {
        table.insert(at, value)
    };
    reveal_with_fuel(Command::run, 2);
    reveal_with_fuel(Command::arity, 2);
    assert(row_with(change->Insert_columns, 0, sql.params) =~= row) by {
        reveal_with_fuel(row_with, 4);
    }
    assert(insertable(change->Insert_columns, 0, sql.params, relation)) by {
        reveal_with_fuel(insertable, 4);
    }
    assert(row.dom() =~= relation.columns.dom());
    lemma_key_set();
    lemma_key_conditions(sql.params, table, at, at, value);
    lemma_picked(table, at, sql.params);
    lemma_rows(table);
    lemma_rows(after);
    assert forall|r: Row| #[trigger] relation.rows.contains(r) implies (agree(
        r,
        row,
        relation.key,
    ) <==> key_of(table, r) == at) by {
        let a = key_of(table, r);
        lemma_row(a, table[a], at, value);
    }
    let outcome = command.run(sql.params, database)->0;
    if table.contains_key(at) {
        let old = key_row(at, table[at]);
        lemma_row(at, table[at], at, value);
        assert(relation.rows.contains(old) && agree(old, row, relation.key));
        assert(picked(relation, key_conditions(), sql.params, old));
        assert(outcome.database =~= database.insert(name, key_relation(after)));
    } else {
        let rows = outcome.database[name].rows;
        assert forall|r: Row| rows.contains(r) <==> #[trigger] key_rows(after).contains(r) by {
            if key_rows(after).contains(r) && r != row {
                let a = key_of(after, r);
                assert(table.contains_key(a));
            }
            if key_rows(table).contains(r) {
                assert(after.contains_key(key_of(table, r)));
            }
            assert(after.contains_key(at));
        }
        assert(rows =~= key_rows(after));
        assert(outcome.database =~= database.insert(name, key_relation(after)));
    }
    assert(comes_of(command, sql, database, outcome));
    assert(executes(sql, database, outcome));
}

proof fn lemma_update_reads(name: Seq<char>, command: Command)
    requires
        command == (Command::Swap {
            alias: "upd"@,
            change: Box::new(
                Command::Update {
                    table: name,
                    set: seq![(Column::Value, 3nat)],
                    wanted: match_conditions(),
                },
            ),
            column: Column::Value,
            table: name,
            wanted: key_conditions(),
            changed: 4,
            otherwise: Some(5),
        }),
    ensures
        spells(
            UPDATE_IF_MATCHES_1@ + name + UPDATE_IF_MATCHES_2@ + name + UPDATE_IF_MATCHES_3@,
            command.words(Words::End),
        ),
{
    lemma_update_if_matches_1_reads();
    lemma_update_if_matches_2_reads();
    lemma_update_if_matches_3_reads();
    let (one, two, three) = (
        update_if_matches_1_words(),
        update_if_matches_2_words(),
        update_if_matches_3_words(),
    );
    lemma_named(UPDATE_IF_MATCHES_1@, name, UPDATE_IF_MATCHES_2@, one, two, 1);
    let head = UPDATE_IF_MATCHES_1@ + name + UPDATE_IF_MATCHES_2@;
    let words = one.followed_by(word(name, two));
    assert(head.last() == UPDATE_IF_MATCHES_2@.last());
    lemma_named(head, name, UPDATE_IF_MATCHES_3@, words, three, 1);
    reveal_with_fuel(Words::followed_by, 45);
    reveal_with_fuel(Command::words, 2);
    reveal_with_fuel(settings, 2);
    reveal_with_fuel(all_of, 4);
    assert(words.followed_by(word(name, three)) == command.words(Words::End));
}

proof fn lemma_update_if_matches_does(
    name: Seq<char>,
    database: Database,
    table: MutableTable,
    at: MutableKey,
    value: ContentHash,
    expected: ContentHash,
)
    requires
        stands(database, name, table),
    ensures
        ({
            let matches = table.contains_key(at) && table[at] == expected;
            statement_does(
                name,
                database,
                MutableStatement::UpdateIfMatches {
                    repository: at.repository,
                    key: at.key,
                    value,
                    expected,
                },
                if matches {
                    table.insert(at, value)
                } else {
                    table
                },
                Answer::Swapped(Some(SqlParamView::Bytes(value_of(table, at)@)), matches),
            )
        }),
{
    let change = Command::Update {
        table: name,
        set: seq![(Column::Value, 3nat)],
        wanted: match_conditions(),
    };
    let command = Command::Swap {
        alias: "upd"@,
        change: Box::new(change),
        column: Column::Value,
        table: name,
        wanted: key_conditions(),
        changed: 4,
        otherwise: Some(5),
    };
    let sql = mutable_sql(
        name,
        MutableStatement::UpdateIfMatches {
            repository: at.repository,
            key: at.key,
            value,
            expected,
        },
    );
    lemma_update_reads(name, command);
    let row = key_row(at, value);
    let relation = key_relation(table);
    let matches = table.contains_key(at) && table[at] == expected;
    let after = if matches {
        table.insert(at, value)
    } else {
        table
    };
    reveal_with_fuel(Command::run, 2);
    reveal_with_fuel(Command::arity, 2);
    reveal_with_fuel(settable, 2);
    reveal_with_fuel(highest_set, 2);
    reveal_with_fuel(highest, 4);
    reveal_with_fuel(askable, 4);
    lemma_key_conditions(sql.params, table, at, at, value);
    lemma_picked(table, at, sql.params);
    lemma_rows(table);
    lemma_rows(after);
    let wanted = match_conditions();
    let set = seq![(Column::Value, 3nat)];
    assert forall|r: Row| #[trigger] relation.rows.contains(r) implies (meets(
        wanted,
        0,
        sql.params,
        r,
    ) <==> key_of(table, r) == at && matches) && (key_of(table, r) == at ==> row_set(
        set,
        0,
        sql.params,
        r,
    ) == row) by {
        let a = key_of(table, r);
        reveal_with_fuel(meets, 4);
        reveal_with_fuel(row_set, 2);
        lemma_context_bytes(a.repository, at.repository);
        lemma_hash_bytes(a.key, at.key);
        lemma_hash_bytes(table[a], expected);
        assert(a == at ==> row_set(set, 0, sql.params, r) =~= row);
    }
    let outcome = command.run(sql.params, database)->0;
    let rows = outcome.database[name].rows;
    let replaced = relation.rows.filter(|r: Row| meets(wanted, 0, sql.params, r));
    if table.contains_key(at) {
        let old = key_row(at, table[at]);
        assert(picked(relation, key_conditions(), sql.params, old));
        lemma_row(key_of(table, old), table[key_of(table, old)], at, table[at]);
        if matches {
            assert(replaced =~= set![old]);
        }
    }
    if !matches {
        assert(replaced =~= Set::empty());
    }
    assert forall|r: Row| rows.contains(r) <==> #[trigger] key_rows(after).contains(r) by {
        if key_rows(after).contains(r) {
            let a = key_of(after, r);
            if matches && a == at {
                assert(relation.rows.contains(key_row(at, table[at])));
            } else {
                assert(table.contains_key(a));
                assert(relation.rows.contains(r));
                lemma_row(a, table[a], key_of(table, r), table[key_of(table, r)]);
            }
        }
        if rows.contains(r) {
            if relation.rows.contains(r) && !meets(wanted, 0, sql.params, r) {
                assert(after.contains_key(key_of(table, r)));
            } else {
                assert(r == row);
                assert(after.contains_key(at));
            }
        }
    }
    assert(rows =~= key_rows(after));
    assert(outcome.database =~= database.insert(name, key_relation(after)));
    assert(comes_of(command, sql, database, outcome));
    assert(executes(sql, database, outcome));
}

/// A compare and swap, as Postgres gets it, sets the new value if and only if the key has the
/// expected one, or has none where none is expected. It answers the value that the key had
/// and whether the swap was made, and leaves all other keys alone.
pub proof fn swap_does(
    name: Seq<char>,
    database: Database,
    table: MutableTable,
    swap: SwapRequest,
)
    requires
        stands(database, name, table),
    ensures
        statement_does(
            name,
            database,
            swap.plan(),
            if swap.applies(table) {
                table.insert(swap.at(), swap.value)
            } else {
                table
            },
            Answer::Swapped(
                Some(SqlParamView::Bytes(value_of(table, swap.at())@)),
                swap.applies(table),
            ),
        ),
{
    if swap.expected == zero_hash() {
        lemma_insert_if_absent_does(name, database, table, swap.at(), swap.value);
    } else {
        lemma_update_if_matches_does(
            name,
            database,
            table,
            swap.at(),
            swap.value,
            swap.expected,
        );
    }
}

/// The key is one of those that a listing asks for.
pub open spec fn in_range(
    at: MutableKey,
    repository: RepositoryId,
    first: ContentHash,
    last: ContentHash,
) -> bool {
    at.repository == repository && lex_le(first@, at.key@) && lex_le(at.key@, last@)
}

/// The keys of a repository from the first one to the last, with their values.
pub open spec fn list_answer(
    table: MutableTable,
    repository: RepositoryId,
    first: ContentHash,
    last: ContentHash,
) -> Answer {
    Answer::Rows(
        Map::new(
            |r: Row|
                exists|at: MutableKey|
                    #[trigger] table.contains_key(at) && in_range(at, repository, first, last)
                        && r == key_row(at, table[at]),
            |r: Row| seq![r[Column::Key], r[Column::Value]],
        ),
    )
}

/// A listing, as Postgres gets it, shows the keys of the repository from the first one to the
/// last, with their values, and no others.
pub proof fn list_does(
    name: Seq<char>,
    database: Database,
    table: MutableTable,
    repository: RepositoryId,
    first: ContentHash,
    last: ContentHash,
)
    requires
        stands(database, name, table),
    ensures
        statement_does(
            name,
            database,
            MutableStatement::List { repository, first, last },
            table,
            list_answer(table, repository, first, last),
        ),
{
    let wanted = seq![
        Condition { column: Column::RepositoryId, test: Test::Equal, number: 1 },
        Condition { column: Column::Key, test: Test::AtLeast, number: 2 },
        Condition { column: Column::Key, test: Test::AtMost, number: 3 },
    ];
    let command = Command::Select {
        table: name,
        columns: seq![Column::Key, Column::Value],
        wanted,
        filled: Some(Column::Value),
        pairs: None,
    };
    let sql = mutable_sql(name, MutableStatement::List { repository, first, last });
    lemma_list_1_reads();
    lemma_list_2_reads();
    lemma_named(LIST_1@, name, LIST_2@, list_1_words(), list_2_words(), 22);
    assert(list_1_words().followed_by(word(name, list_2_words())) == command.words(
        Words::End,
    )) by {
        reveal_with_fuel(Words::followed_by, 5);
        reveal_with_fuel(names, 3);
        reveal_with_fuel(all_of, 4);
    }
    reveal_with_fuel(askable, 4);
    reveal_with_fuel(highest, 4);
    let outcome = command.run(sql.params, database)->0;
    let shown = outcome.answer->Rows_0;
    lemma_rows(table);
    let expected = list_answer(table, repository, first, last)->Rows_0;
    assert forall|at: MutableKey| #[trigger] table.contains_key(at) implies (meets(
        wanted,
        0,
        sql.params,
        key_row(at, table[at]),
    ) <==> in_range(at, repository, first, last)) by {
        reveal_with_fuel(meets, 4);
        lemma_context_bytes(at.repository, repository);
    }
    assert forall|r: Row| #[trigger] shown.contains_key(r) <==> expected.contains_key(r) by {
        if shown.contains_key(r) {
            let a = key_of(table, r);
            assert(table.contains_key(a));
        }
    }
    assert forall|r: Row| #[trigger] shown.contains_key(r) implies shown[r] == expected[r] by {
        reveal_with_fuel(cells, 3);
        assert(cells(seq![Column::Key, Column::Value], 0, r) =~= seq![
            r[Column::Key],
            r[Column::Value],
        ]);
    }
    assert(shown =~= expected);
    assert(outcome.database =~= database.insert(name, key_relation(table)));
    assert(comes_of(command, sql, database, outcome));
    assert(executes(sql, database, outcome));
}

/// What Postgres answers shows this value, or none.
pub open spec fn shows(answer: Answer, column: Option<Seq<u8>>) -> bool {
    match answer {
        Answer::Rows(shown) => match column {
            Some(value) => {
                &&& shown.dom().finite()
                &&& shown.dom().len() == 1
                &&& forall|r: Row| #[trigger]
                    shown.contains_key(r) ==> shown[r] == seq![SqlParamView::Bytes(value)]
            },
            None => shown == Map::<Row, Seq<SqlParamView>>::empty(),
        },
        Answer::Swapped(Some(value), _) => column matches Some(bytes) && value
            == SqlParamView::Bytes(bytes),
        _ => column is None,
    }
}

/// Executing the statement, as Postgres gets it, leaves the keys as [`table_after`] says and,
/// where it is about the value of one key, answers what [`answer`] says.
pub open spec fn takes_effect(
    name: Seq<char>,
    database: Database,
    table: MutableTable,
    statement: MutableStatement,
) -> bool {
    exists|told: Answer|
        #[trigger] statement_does(
            name,
            database,
            statement,
            table_after(table, statement),
            told,
        ) && (statement is List || shows(told, answer(table, statement)))
}

proof fn lemma_takes_effect(
    name: Seq<char>,
    database: Database,
    table: MutableTable,
    statement: MutableStatement,
    told: Answer,
)
    requires
        statement_does(name, database, statement, table_after(table, statement), told),
        statement is List || shows(told, answer(table, statement)),
    ensures
        takes_effect(name, database, table, statement),
{
}

/// Every statement, as Postgres gets it, does to the keys, and answers, what the model of the
/// table says.
pub proof fn statement_effect(
    name: Seq<char>,
    database: Database,
    table: MutableTable,
    statement: MutableStatement,
)
    requires
        stands(database, name, table),
    ensures
        takes_effect(name, database, table, statement),
{
    match statement {
        MutableStatement::Select { repository, key } => {
            let at = MutableKey { repository, key };
            select_does(name, database, table, repository, key);
            if table.contains_key(at) {
                let row = key_row(at, table[at]);
                let shown = map![row => seq![SqlParamView::Bytes(table[at]@)]];
                assert(shown.dom() =~= Set::empty().insert(row));
                lemma_takes_effect(name, database, table, statement, Answer::Rows(shown));
            } else {
                lemma_takes_effect(
                    name,
                    database,
                    table,
                    statement,
                    Answer::Rows(Map::empty()),
                );
            }
        },
        MutableStatement::Delete { repository, key } => {
            delete_does(name, database, table, repository, key);
            lemma_takes_effect(name, database, table, statement, Answer::Nothing);
        },
        MutableStatement::Upsert { repository, key, value } => {
            upsert_does(name, database, table, repository, key, value);
            lemma_takes_effect(name, database, table, statement, Answer::Nothing);
        },
        MutableStatement::InsertIfAbsent { repository, key, value } => {
            let at = MutableKey { repository, key };
            lemma_insert_if_absent_does(name, database, table, at, value);
            let seen = SqlParamView::Bytes(value_of(table, at)@);
            let told = Answer::Swapped(Some(seen), !table.contains_key(at));
            lemma_takes_effect(name, database, table, statement, told);
        },
        MutableStatement::UpdateIfMatches { repository, key, value, expected } => {
            let at = MutableKey { repository, key };
            lemma_update_if_matches_does(name, database, table, at, value, expected);
            let seen = SqlParamView::Bytes(value_of(table, at)@);
            let told = Answer::Swapped(
                Some(seen),
                table.contains_key(at) && table[at] == expected,
            );
            lemma_takes_effect(name, database, table, statement, told);
        },
        MutableStatement::List { repository, first, last } => {
            list_does(name, database, table, repository, first, last);
            let told = list_answer(table, repository, first, last);
            lemma_takes_effect(name, database, table, statement, told);
        },
    }
}

/// The schema creates the table that the statements are about, without keys, where it is
/// missing, and leaves it alone otherwise.
pub proof fn schema_does(name: Seq<char>, database: Database)
    ensures
        executes(
            SqlStatementView { text: mutable_schema_text(name), params: seq![] },
            database,
            Outcome {
                database: if database.contains_key(name) {
                    database
                } else {
                    database.insert(name, key_relation(Map::empty()))
                },
                changed: 0,
                answer: Answer::Nothing,
            },
        ),
{
    let declares = seq![
        Definition {
            column: Column::RepositoryId,
            kind: ColumnType::Bytes,
            primary: false,
            zero: false,
        },
        Definition { column: Column::Key, kind: ColumnType::Bytes, primary: false, zero: false },
        Definition { column: Column::Value, kind: ColumnType::Bytes, primary: false, zero: false },
    ];
    let command = Command::Create {
        table: name,
        declares,
        key: seq![Column::RepositoryId, Column::Key],
        indexes: seq![],
    };
    let sql = SqlStatementView { text: mutable_schema_text(name), params: seq![] };
    lemma_schema_1_reads();
    lemma_schema_2_reads();
    lemma_named(SCHEMA_1@, name, SCHEMA_2@, schema_1_words(), schema_2_words(), 1);
    assert(schema_1_words().followed_by(word(name, schema_2_words())) == command.words(
        Words::End,
    )) by {
        reveal_with_fuel(Words::followed_by, 6);
        reveal_with_fuel(definitions, 4);
        reveal_with_fuel(bracketed, 3);
    }
    reveal_with_fuel(declared, 4);
    reveal_with_fuel(primaries, 4);
    let relation = key_relation(Map::empty());
    assert(declared(declares, 0) =~= relation.columns);
    lemma_key_set();
    assert(command->Create_key.to_set().union(primaries(declares, 0)) =~= relation.key);
    assert(relation.rows =~= Set::empty());
    let outcome = command.run(sql.params, database)->0;
    assert(comes_of(command, sql, database, outcome));
}


/// What the store hands out for a statement does what the statement does: it is executed on
/// the table of the store, with the same effect and the same answer.
pub proof fn sent_as_meant(
    store: PgMutableStore,
    statement: MutableStatement,
    sql: SqlStatement,
    database: Database,
    after: MutableTable,
    told: Answer,
)
    requires
        call_ensures(PgMutableStore::sql, (&store, &statement), sql),
        statement_does(store.table(), database, statement, after, told),
    ensures
        exists|outcome: Outcome|
            #[trigger] executes(sql@, database, outcome) && outcome.database == database.insert(
                store.table(),
                key_relation(after),
            ) && outcome.answer == told,
{
}

/// What the store hands out to set a value sets it, for this key and no other, whatever the
/// key had before.
pub proof fn sent_upsert(
    store: PgMutableStore,
    repository: RepositoryId,
    key: ContentHash,
    value: ContentHash,
    sql: SqlStatement,
    database: Database,
    table: MutableTable,
)
    requires
        call_ensures(
            PgMutableStore::sql,
            (&store, &MutableStatement::Upsert { repository, key, value }),
            sql,
        ),
        stands(database, store.table(), table),
    ensures
        exists|outcome: Outcome|
            #[trigger] executes(sql@, database, outcome) && outcome.database == database.insert(
                store.table(),
                key_relation(table.insert(MutableKey { repository, key }, value)),
            ),
{
    upsert_does(store.table(), database, table, repository, key, value);
}

/// What the store hands out as its schema creates its table, without keys, where it is
/// missing, and leaves it alone otherwise.
pub proof fn sent_schema(store: PgMutableStore, text: String, database: Database)
    requires
        call_ensures(PgMutableStore::ensure_schema, (&store,), text),
    ensures
        executes(
            SqlStatementView { text: text@, params: seq![] },
            database,
            Outcome {
                database: if database.contains_key(store.table()) {
                    database
                } else {
                    database.insert(store.table(), key_relation(Map::empty()))
                },
                changed: 0,
                answer: Answer::Nothing,
            },
        ),
{
    schema_does(store.table(), database);
}

} // verus!
