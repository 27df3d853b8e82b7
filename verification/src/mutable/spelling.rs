//! How the statements of the mutable store read, word for word.

use crate::mutable::statements::{
    SCHEMA_1, SCHEMA_2, SELECT_1, SELECT_2, DELETE_1, DELETE_2, UPSERT_1, UPSERT_2,
    INSERT_IF_ABSENT_1, INSERT_IF_ABSENT_2, INSERT_IF_ABSENT_3, UPDATE_IF_MATCHES_1,
    UPDATE_IF_MATCHES_2, UPDATE_IF_MATCHES_3, LIST_1, LIST_2,
};
use crate::relational::{
    blank, item, lemma_word, listed, place, reads, word, Column, ColumnType, Words,
};
use vstd::prelude::*;

verus! {

/// The words of [`SCHEMA_1`].
pub(crate) open spec fn schema_1_words() -> Words {
    word("CREATE"@, word("TABLE"@, word("IF"@, word("NOT"@, word("EXISTS"@, Words::End)))))
}

pub(crate) proof fn lemma_schema_1_reads()
    ensures
        SCHEMA_1@.len() == 27,
        blank(SCHEMA_1@.last()),
        reads(SCHEMA_1@, 0, schema_1_words(), 27),
{
    reveal_strlit("CREATE TABLE IF NOT EXISTS ");
    reveal_strlit("CREATE");
    reveal_strlit("TABLE");
    reveal_strlit("IF");
    reveal_strlit("NOT");
    reveal_strlit("EXISTS");
    let text = SCHEMA_1@;
    let rest = Words::End;
    let rest = lemma_word(text, 20, "EXISTS"@, 27, rest, 27);
    let rest = lemma_word(text, 16, "NOT"@, 20, rest, 27);
    let rest = lemma_word(text, 13, "IF"@, 16, rest, 27);
    let rest = lemma_word(text, 7, "TABLE"@, 13, rest, 27);
    let rest = lemma_word(text, 0, "CREATE"@, 7, rest, 27);
}

/// The words of [`SCHEMA_2`].
pub(crate) open spec fn schema_2_words() -> Words {
    word("("@, word(Column::RepositoryId.name(), word(ColumnType::Bytes.name(), word("NOT"@,
        word(listed("NULL"@, false), word(Column::Key.name(), word(ColumnType::Bytes.name(),
        word("NOT"@, word(listed("NULL"@, false), word(Column::Value.name(),
        word(ColumnType::Bytes.name(), word("NOT"@, word(listed("NULL"@, false), word("PRIMARY"@,
        word("KEY"@, word(item(true, Column::RepositoryId.name(), false), word(item(false,
        Column::Key.name(), true), word(")"@, Words::End))))))))))))))))))
}

pub(crate) proof fn lemma_schema_2_reads()
    ensures
        SCHEMA_2@.len() == 203,
        forall|j: int| 0 <= j < 1 ==> blank(#[trigger] SCHEMA_2@[j]),
        reads(SCHEMA_2@, 1, schema_2_words(), 203),
{
    reveal_strlit(
        " (
                repository_id BYTEA NOT NULL,
                key           BYTEA NOT NULL,
                value         BYTEA NOT NULL,
                PRIMARY KEY (repository_id, key)
            )",
    );
    reveal_strlit("(");
    reveal_strlit("repository_id");
    reveal_strlit("BYTEA");
    reveal_strlit("NOT");
    reveal_strlit("NULL");
    reveal_strlit(",");
    reveal_strlit("key");
    reveal_strlit("value");
    reveal_strlit("PRIMARY");
    reveal_strlit("KEY");
    reveal_strlit(")");
    let text = SCHEMA_2@;
    let rest = Words::End;
    let rest = lemma_word(text, 202, ")"@, 203, rest, 203);
    let rest = lemma_word(text, 185, item(false, Column::Key.name(), true), 202, rest, 203);
    let rest = lemma_word(text, 169, item(true, Column::RepositoryId.name(), false), 185, rest,
        203);
    let rest = lemma_word(text, 165, "KEY"@, 169, rest, 203);
    let rest = lemma_word(text, 157, "PRIMARY"@, 165, rest, 203);
    let rest = lemma_word(text, 135, listed("NULL"@, false), 157, rest, 203);
    let rest = lemma_word(text, 131, "NOT"@, 135, rest, 203);
    let rest = lemma_word(text, 125, ColumnType::Bytes.name(), 131, rest, 203);
    let rest = lemma_word(text, 111, Column::Value.name(), 125, rest, 203);
    let rest = lemma_word(text, 89, listed("NULL"@, false), 111, rest, 203);
    let rest = lemma_word(text, 85, "NOT"@, 89, rest, 203);
    let rest = lemma_word(text, 79, ColumnType::Bytes.name(), 85, rest, 203);
    let rest = lemma_word(text, 65, Column::Key.name(), 79, rest, 203);
    let rest = lemma_word(text, 43, listed("NULL"@, false), 65, rest, 203);
    let rest = lemma_word(text, 39, "NOT"@, 43, rest, 203);
    let rest = lemma_word(text, 33, ColumnType::Bytes.name(), 39, rest, 203);
    let rest = lemma_word(text, 19, Column::RepositoryId.name(), 33, rest, 203);
    let rest = lemma_word(text, 1, "("@, 19, rest, 203);
}

/// The words of [`SELECT_1`].
pub(crate) open spec fn select_1_words() -> Words {
    word("SELECT"@, word(listed(Column::Value.name(), true), word("FROM"@, Words::End)))
}

pub(crate) proof fn lemma_select_1_reads()
    ensures
        SELECT_1@.len() == 18,
        blank(SELECT_1@.last()),
        reads(SELECT_1@, 0, select_1_words(), 18),
{
    reveal_strlit("SELECT value FROM ");
    reveal_strlit("SELECT");
    reveal_strlit("value");
    reveal_strlit("FROM");
    let text = SELECT_1@;
    let rest = Words::End;
    let rest = lemma_word(text, 13, "FROM"@, 18, rest, 18);
    let rest = lemma_word(text, 7, listed(Column::Value.name(), true), 13, rest, 18);
    let rest = lemma_word(text, 0, "SELECT"@, 7, rest, 18);
}

/// The words of [`SELECT_2`].
pub(crate) open spec fn select_2_words() -> Words {
    word("WHERE"@, word(Column::RepositoryId.name(), word("="@, word(place(1), word("AND"@,
        word(Column::Key.name(), word("="@, word(place(2) + Seq::empty(), Words::End))))))))
}

pub(crate) proof fn lemma_select_2_reads()
    ensures
        SELECT_2@.len() == 38,
        forall|j: int| 0 <= j < 1 ==> blank(#[trigger] SELECT_2@[j]),
        reads(SELECT_2@, 1, select_2_words(), 38),
{
    reveal_strlit(" WHERE repository_id = $1 AND key = $2");
    reveal_strlit("WHERE");
    reveal_strlit("repository_id");
    reveal_strlit("=");
    reveal_strlit("$");
    reveal_strlit("AND");
    reveal_strlit("key");
    let text = SELECT_2@;
    let rest = Words::End;
    let rest = lemma_word(text, 36, place(2) + Seq::empty(), 38, rest, 38);
    let rest = lemma_word(text, 34, "="@, 36, rest, 38);
    let rest = lemma_word(text, 30, Column::Key.name(), 34, rest, 38);
    let rest = lemma_word(text, 26, "AND"@, 30, rest, 38);
    let rest = lemma_word(text, 23, place(1), 26, rest, 38);
    let rest = lemma_word(text, 21, "="@, 23, rest, 38);
    let rest = lemma_word(text, 7, Column::RepositoryId.name(), 21, rest, 38);
    let rest = lemma_word(text, 1, "WHERE"@, 7, rest, 38);
}

/// The words of [`DELETE_1`].
pub(crate) open spec fn delete_1_words() -> Words {
    word("DELETE"@, word("FROM"@, Words::End))
}

pub(crate) proof fn lemma_delete_1_reads()
    ensures
        DELETE_1@.len() == 12,
        blank(DELETE_1@.last()),
        reads(DELETE_1@, 0, delete_1_words(), 12),
{
    reveal_strlit("DELETE FROM ");
    reveal_strlit("DELETE");
    reveal_strlit("FROM");
    let text = DELETE_1@;
    let rest = Words::End;
    let rest = lemma_word(text, 7, "FROM"@, 12, rest, 12);
    let rest = lemma_word(text, 0, "DELETE"@, 7, rest, 12);
}

/// The words of [`DELETE_2`].
pub(crate) open spec fn delete_2_words() -> Words {
    word("WHERE"@, word(Column::RepositoryId.name(), word("="@, word(place(1), word("AND"@,
        word(Column::Key.name(), word("="@, word(place(2) + Seq::empty(), Words::End))))))))
}

pub(crate) proof fn lemma_delete_2_reads()
    ensures
        DELETE_2@.len() == 38,
        forall|j: int| 0 <= j < 1 ==> blank(#[trigger] DELETE_2@[j]),
        reads(DELETE_2@, 1, delete_2_words(), 38),
{
    reveal_strlit(" WHERE repository_id = $1 AND key = $2");
    reveal_strlit("WHERE");
    reveal_strlit("repository_id");
    reveal_strlit("=");
    reveal_strlit("$");
    reveal_strlit("AND");
    reveal_strlit("key");
    let text = DELETE_2@;
    let rest = Words::End;
    let rest = lemma_word(text, 36, place(2) + Seq::empty(), 38, rest, 38);
    let rest = lemma_word(text, 34, "="@, 36, rest, 38);
    let rest = lemma_word(text, 30, Column::Key.name(), 34, rest, 38);
    let rest = lemma_word(text, 26, "AND"@, 30, rest, 38);
    let rest = lemma_word(text, 23, place(1), 26, rest, 38);
    let rest = lemma_word(text, 21, "="@, 23, rest, 38);
    let rest = lemma_word(text, 7, Column::RepositoryId.name(), 21, rest, 38);
    let rest = lemma_word(text, 1, "WHERE"@, 7, rest, 38);
}

/// The words of [`UPSERT_1`].
pub(crate) open spec fn upsert_1_words() -> Words {
    word("INSERT"@, word("INTO"@, Words::End))
}

pub(crate) proof fn lemma_upsert_1_reads()
    ensures
        UPSERT_1@.len() == 12,
        blank(UPSERT_1@.last()),
        reads(UPSERT_1@, 0, upsert_1_words(), 12),
{
    reveal_strlit("INSERT INTO ");
    reveal_strlit("INSERT");
    reveal_strlit("INTO");
    let text = UPSERT_1@;
    let rest = Words::End;
    let rest = lemma_word(text, 7, "INTO"@, 12, rest, 12);
    let rest = lemma_word(text, 0, "INSERT"@, 7, rest, 12);
}

/// The words of [`UPSERT_2`].
pub(crate) open spec fn upsert_2_words() -> Words {
    word(item(true, Column::RepositoryId.name(), false), word(item(false, Column::Key.name(),
        false), word(item(false, Column::Value.name(), true), word("VALUES"@, word(item(true,
        place(1), false), word(item(false, place(2), false), word(item(false, place(3), true),
        word("ON"@, word("CONFLICT"@, word(item(true, Column::RepositoryId.name(), false),
        word(item(false, Column::Key.name(), true), word("DO"@, word("UPDATE"@, word("SET"@,
        word(Column::Value.name(), word("="@, word(listed("EXCLUDED."@ + Column::Value.name(),
        true), Words::End)))))))))))))))))
}

pub(crate) proof fn lemma_upsert_2_reads()
    ensures
        UPSERT_2@.len() == 160,
        forall|j: int| 0 <= j < 1 ==> blank(#[trigger] UPSERT_2@[j]),
        reads(UPSERT_2@, 1, upsert_2_words(), 160),
{
    reveal_strlit(
        " (repository_id, key, value)
                     VALUES ($1, $2, $3)
                     ON CONFLICT (repository_id, key) DO UPDATE SET value = EXCLUDED.value",
    );
    reveal_strlit("repository_id");
    reveal_strlit("(");
    reveal_strlit(",");
    reveal_strlit("key");
    reveal_strlit("value");
    reveal_strlit(")");
    reveal_strlit("VALUES");
    reveal_strlit("$");
    reveal_strlit("ON");
    reveal_strlit("CONFLICT");
    reveal_strlit("DO");
    reveal_strlit("UPDATE");
    reveal_strlit("SET");
    reveal_strlit("=");
    reveal_strlit("EXCLUDED.");
    let text = UPSERT_2@;
    let rest = Words::End;
    let rest = lemma_word(text, 146, listed("EXCLUDED."@ + Column::Value.name(), true), 160, rest,
        160);
    let rest = lemma_word(text, 144, "="@, 146, rest, 160);
    let rest = lemma_word(text, 138, Column::Value.name(), 144, rest, 160);
    let rest = lemma_word(text, 134, "SET"@, 138, rest, 160);
    let rest = lemma_word(text, 127, "UPDATE"@, 134, rest, 160);
    let rest = lemma_word(text, 124, "DO"@, 127, rest, 160);
    let rest = lemma_word(text, 119, item(false, Column::Key.name(), true), 124, rest, 160);
    let rest = lemma_word(text, 103, item(true, Column::RepositoryId.name(), false), 119, rest,
        160);
    let rest = lemma_word(text, 94, "CONFLICT"@, 103, rest, 160);
    let rest = lemma_word(text, 91, "ON"@, 94, rest, 160);
    let rest = lemma_word(text, 66, item(false, place(3), true), 91, rest, 160);
    let rest = lemma_word(text, 62, item(false, place(2), false), 66, rest, 160);
    let rest = lemma_word(text, 57, item(true, place(1), false), 62, rest, 160);
    let rest = lemma_word(text, 50, "VALUES"@, 57, rest, 160);
    let rest = lemma_word(text, 22, item(false, Column::Value.name(), true), 50, rest, 160);
    let rest = lemma_word(text, 17, item(false, Column::Key.name(), false), 22, rest, 160);
    let rest = lemma_word(text, 1, item(true, Column::RepositoryId.name(), false), 17, rest, 160);
}

/// The words of [`INSERT_IF_ABSENT_1`].
pub(crate) open spec fn insert_if_absent_1_words() -> Words {
    word("WITH"@, word("ins"@, word("AS"@, word("("@, word("INSERT"@, word("INTO"@, Words::End))))))
}

pub(crate) proof fn lemma_insert_if_absent_1_reads()
    ensures
        INSERT_IF_ABSENT_1@.len() == 47,
        blank(INSERT_IF_ABSENT_1@.last()),
        reads(INSERT_IF_ABSENT_1@, 0, insert_if_absent_1_words(), 47),
{
    reveal_strlit(
        "WITH ins AS (
                     INSERT INTO ",
    );
    reveal_strlit("WITH");
    reveal_strlit("ins");
    reveal_strlit("AS");
    reveal_strlit("(");
    reveal_strlit("INSERT");
    reveal_strlit("INTO");
    let text = INSERT_IF_ABSENT_1@;
    let rest = Words::End;
    let rest = lemma_word(text, 42, "INTO"@, 47, rest, 47);
    let rest = lemma_word(text, 35, "INSERT"@, 42, rest, 47);
    let rest = lemma_word(text, 12, "("@, 35, rest, 47);
    let rest = lemma_word(text, 9, "AS"@, 12, rest, 47);
    let rest = lemma_word(text, 5, "ins"@, 9, rest, 47);
    let rest = lemma_word(text, 0, "WITH"@, 5, rest, 47);
}

/// The words of [`INSERT_IF_ABSENT_2`].
pub(crate) open spec fn insert_if_absent_2_words() -> Words {
    word(item(true, Column::RepositoryId.name(), false), word(item(false, Column::Key.name(),
        false), word(item(false, Column::Value.name(), true), word("VALUES"@, word(item(true,
        place(1), false), word(item(false, place(2), false), word(item(false, place(3), true),
        word("ON"@, word("CONFLICT"@, word(item(true, Column::RepositoryId.name(), false),
        word(item(false, Column::Key.name(), true), word("DO"@, word("NOTHING"@, word("RETURNING"@,
        word(Column::Value.name(), word(")"@, word("SELECT"@, word("CASE"@, word("WHEN"@,
        word("EXISTS(SELECT"@, word("1"@, word("FROM"@, word("ins"@ + ")"@, word("THEN"@,
        word(place(4), word("ELSE"@, word("(SELECT"@, word(Column::Value.name(), word("FROM"@,
        Words::End)))))))))))))))))))))))))))))
}

pub(crate) proof fn lemma_insert_if_absent_2_reads()
    ensures
        INSERT_IF_ABSENT_2@.len() == 320,
        forall|j: int| 0 <= j < 1 ==> blank(#[trigger] INSERT_IF_ABSENT_2@[j]),
        blank(INSERT_IF_ABSENT_2@.last()),
        reads(INSERT_IF_ABSENT_2@, 1, insert_if_absent_2_words(), 320),
{
    reveal_strlit(
        " (repository_id, key, value) VALUES ($1, $2, $3)
                     ON CONFLICT (repository_id, key) DO NOTHING
                     RETURNING value
                 )
                 SELECT CASE WHEN EXISTS(SELECT 1 FROM ins)
                             THEN $4
                             ELSE (SELECT value FROM ",
    );
    reveal_strlit("repository_id");
    reveal_strlit("(");
    reveal_strlit(",");
    reveal_strlit("key");
    reveal_strlit("value");
    reveal_strlit(")");
    reveal_strlit("VALUES");
    reveal_strlit("$");
    reveal_strlit("ON");
    reveal_strlit("CONFLICT");
    reveal_strlit("DO");
    reveal_strlit("NOTHING");
    reveal_strlit("RETURNING");
    reveal_strlit("SELECT");
    reveal_strlit("CASE");
    reveal_strlit("WHEN");
    reveal_strlit("EXISTS(SELECT");
    reveal_strlit("1");
    reveal_strlit("FROM");
    reveal_strlit("ins");
    reveal_strlit("THEN");
    reveal_strlit("ELSE");
    reveal_strlit("(SELECT");
    let text = INSERT_IF_ABSENT_2@;
    let rest = Words::End;
    let rest = lemma_word(text, 315, "FROM"@, 320, rest, 320);
    let rest = lemma_word(text, 309, Column::Value.name(), 315, rest, 320);
    let rest = lemma_word(text, 301, "(SELECT"@, 309, rest, 320);
    let rest = lemma_word(text, 296, "ELSE"@, 301, rest, 320);
    let rest = lemma_word(text, 264, place(4), 296, rest, 320);
    let rest = lemma_word(text, 259, "THEN"@, 264, rest, 320);
    let rest = lemma_word(text, 225, "ins"@ + ")"@, 259, rest, 320);
    let rest = lemma_word(text, 220, "FROM"@, 225, rest, 320);
    let rest = lemma_word(text, 218, "1"@, 220, rest, 320);
    let rest = lemma_word(text, 204, "EXISTS(SELECT"@, 218, rest, 320);
    let rest = lemma_word(text, 199, "WHEN"@, 204, rest, 320);
    let rest = lemma_word(text, 194, "CASE"@, 199, rest, 320);
    let rest = lemma_word(text, 187, "SELECT"@, 194, rest, 320);
    let rest = lemma_word(text, 168, ")"@, 187, rest, 320);
    let rest = lemma_word(text, 145, Column::Value.name(), 168, rest, 320);
    let rest = lemma_word(text, 135, "RETURNING"@, 145, rest, 320);
    let rest = lemma_word(text, 106, "NOTHING"@, 135, rest, 320);
    let rest = lemma_word(text, 103, "DO"@, 106, rest, 320);
    let rest = lemma_word(text, 98, item(false, Column::Key.name(), true), 103, rest, 320);
    let rest = lemma_word(text, 82, item(true, Column::RepositoryId.name(), false), 98, rest, 320);
    let rest = lemma_word(text, 73, "CONFLICT"@, 82, rest, 320);
    let rest = lemma_word(text, 70, "ON"@, 73, rest, 320);
    let rest = lemma_word(text, 45, item(false, place(3), true), 70, rest, 320);
    let rest = lemma_word(text, 41, item(false, place(2), false), 45, rest, 320);
    let rest = lemma_word(text, 36, item(true, place(1), false), 41, rest, 320);
    let rest = lemma_word(text, 29, "VALUES"@, 36, rest, 320);
    let rest = lemma_word(text, 22, item(false, Column::Value.name(), true), 29, rest, 320);
    let rest = lemma_word(text, 17, item(false, Column::Key.name(), false), 22, rest, 320);
    let rest = lemma_word(text, 1, item(true, Column::RepositoryId.name(), false), 17, rest, 320);
}

/// The words of [`INSERT_IF_ABSENT_3`].
pub(crate) open spec fn insert_if_absent_3_words() -> Words {
    word("WHERE"@, word(Column::RepositoryId.name(), word("="@, word(place(1), word("AND"@,
        word(Column::Key.name(), word("="@, word(place(2) + ")"@, word("END,"@,
        word("EXISTS(SELECT"@, word("1"@, word("FROM"@, word("ins"@ + ")"@, Words::End)))))))))))))
}

pub(crate) proof fn lemma_insert_if_absent_3_reads()
    ensures
        INSERT_IF_ABSENT_3@.len() == 118,
        forall|j: int| 0 <= j < 1 ==> blank(#[trigger] INSERT_IF_ABSENT_3@[j]),
        reads(INSERT_IF_ABSENT_3@, 1, insert_if_absent_3_words(), 118),
{
    reveal_strlit(
        " WHERE repository_id = $1 AND key = $2)
                        END,
                        EXISTS(SELECT 1 FROM ins)",
    );
    reveal_strlit("WHERE");
    reveal_strlit("repository_id");
    reveal_strlit("=");
    reveal_strlit("$");
    reveal_strlit("AND");
    reveal_strlit("key");
    reveal_strlit(")");
    reveal_strlit("END,");
    reveal_strlit("EXISTS(SELECT");
    reveal_strlit("1");
    reveal_strlit("FROM");
    reveal_strlit("ins");
    let text = INSERT_IF_ABSENT_3@;
    let rest = Words::End;
    let rest = lemma_word(text, 114, "ins"@ + ")"@, 118, rest, 118);
    let rest = lemma_word(text, 109, "FROM"@, 114, rest, 118);
    let rest = lemma_word(text, 107, "1"@, 109, rest, 118);
    let rest = lemma_word(text, 93, "EXISTS(SELECT"@, 107, rest, 118);
    let rest = lemma_word(text, 64, "END,"@, 93, rest, 118);
    let rest = lemma_word(text, 36, place(2) + ")"@, 64, rest, 118);
    let rest = lemma_word(text, 34, "="@, 36, rest, 118);
    let rest = lemma_word(text, 30, Column::Key.name(), 34, rest, 118);
    let rest = lemma_word(text, 26, "AND"@, 30, rest, 118);
    let rest = lemma_word(text, 23, place(1), 26, rest, 118);
    let rest = lemma_word(text, 21, "="@, 23, rest, 118);
    let rest = lemma_word(text, 7, Column::RepositoryId.name(), 21, rest, 118);
    let rest = lemma_word(text, 1, "WHERE"@, 7, rest, 118);
}

/// The words of [`UPDATE_IF_MATCHES_1`].
pub(crate) open spec fn update_if_matches_1_words() -> Words {
    word("WITH"@, word("upd"@, word("AS"@, word("("@, word("UPDATE"@, Words::End)))))
}

pub(crate) proof fn lemma_update_if_matches_1_reads()
    ensures
        UPDATE_IF_MATCHES_1@.len() == 42,
        blank(UPDATE_IF_MATCHES_1@.last()),
        reads(UPDATE_IF_MATCHES_1@, 0, update_if_matches_1_words(), 42),
{
    reveal_strlit(
        "WITH upd AS (
                     UPDATE ",
    );
    reveal_strlit("WITH");
    reveal_strlit("upd");
    reveal_strlit("AS");
    reveal_strlit("(");
    reveal_strlit("UPDATE");
    let text = UPDATE_IF_MATCHES_1@;
    let rest = Words::End;
    let rest = lemma_word(text, 35, "UPDATE"@, 42, rest, 42);
    let rest = lemma_word(text, 12, "("@, 35, rest, 42);
    let rest = lemma_word(text, 9, "AS"@, 12, rest, 42);
    let rest = lemma_word(text, 5, "upd"@, 9, rest, 42);
    let rest = lemma_word(text, 0, "WITH"@, 5, rest, 42);
}

/// The words of [`UPDATE_IF_MATCHES_2`].
pub(crate) open spec fn update_if_matches_2_words() -> Words {
    word("SET"@, word(Column::Value.name(), word("="@, word(listed(place(3), true), word("WHERE"@,
        word(Column::RepositoryId.name(), word("="@, word(place(1), word("AND"@,
        word(Column::Key.name(), word("="@, word(place(2), word("AND"@, word(Column::Value.name(),
        word("="@, word(place(4) + Seq::empty(), word("RETURNING"@, word(Column::Value.name(),
        word(")"@, word("SELECT"@, word("CASE"@, word("WHEN"@, word("EXISTS(SELECT"@, word("1"@,
        word("FROM"@, word("upd"@ + ")"@, word("THEN"@, word(place(4), word("ELSE"@,
        word("COALESCE("@, word("(SELECT"@, word(Column::Value.name(), word("FROM"@,
        Words::End)))))))))))))))))))))))))))))))))
}

pub(crate) proof fn lemma_update_if_matches_2_reads()
    ensures
        UPDATE_IF_MATCHES_2@.len() == 343,
        forall|j: int| 0 <= j < 1 ==> blank(#[trigger] UPDATE_IF_MATCHES_2@[j]),
        blank(UPDATE_IF_MATCHES_2@.last()),
        reads(UPDATE_IF_MATCHES_2@, 1, update_if_matches_2_words(), 343),
{
    reveal_strlit(
        " SET value = $3
                     WHERE repository_id = $1 AND key = $2 AND value = $4
                     RETURNING value
                 )
                 SELECT CASE WHEN EXISTS(SELECT 1 FROM upd)
                             THEN $4
                             ELSE COALESCE(
                                     (SELECT value FROM ",
    );
    reveal_strlit("SET");
    reveal_strlit("value");
    reveal_strlit("=");
    reveal_strlit("$");
    reveal_strlit("WHERE");
    reveal_strlit("repository_id");
    reveal_strlit("AND");
    reveal_strlit("key");
    reveal_strlit("RETURNING");
    reveal_strlit(")");
    reveal_strlit("SELECT");
    reveal_strlit("CASE");
    reveal_strlit("WHEN");
    reveal_strlit("EXISTS(SELECT");
    reveal_strlit("1");
    reveal_strlit("FROM");
    reveal_strlit("upd");
    reveal_strlit("THEN");
    reveal_strlit("ELSE");
    reveal_strlit("COALESCE(");
    reveal_strlit("(SELECT");
    let text = UPDATE_IF_MATCHES_2@;
    let rest = Words::End;
    let rest = lemma_word(text, 338, "FROM"@, 343, rest, 343);
    let rest = lemma_word(text, 332, Column::Value.name(), 338, rest, 343);
    let rest = lemma_word(text, 324, "(SELECT"@, 332, rest, 343);
    let rest = lemma_word(text, 277, "COALESCE("@, 324, rest, 343);
    let rest = lemma_word(text, 272, "ELSE"@, 277, rest, 343);
    let rest = lemma_word(text, 240, place(4), 272, rest, 343);
    let rest = lemma_word(text, 235, "THEN"@, 240, rest, 343);
    let rest = lemma_word(text, 201, "upd"@ + ")"@, 235, rest, 343);
    let rest = lemma_word(text, 196, "FROM"@, 201, rest, 343);
    let rest = lemma_word(text, 194, "1"@, 196, rest, 343);
    let rest = lemma_word(text, 180, "EXISTS(SELECT"@, 194, rest, 343);
    let rest = lemma_word(text, 175, "WHEN"@, 180, rest, 343);
    let rest = lemma_word(text, 170, "CASE"@, 175, rest, 343);
    let rest = lemma_word(text, 163, "SELECT"@, 170, rest, 343);
    let rest = lemma_word(text, 144, ")"@, 163, rest, 343);
    let rest = lemma_word(text, 121, Column::Value.name(), 144, rest, 343);
    let rest = lemma_word(text, 111, "RETURNING"@, 121, rest, 343);
    let rest = lemma_word(text, 87, place(4) + Seq::empty(), 111, rest, 343);
    let rest = lemma_word(text, 85, "="@, 87, rest, 343);
    let rest = lemma_word(text, 79, Column::Value.name(), 85, rest, 343);
    let rest = lemma_word(text, 75, "AND"@, 79, rest, 343);
    let rest = lemma_word(text, 72, place(2), 75, rest, 343);
    let rest = lemma_word(text, 70, "="@, 72, rest, 343);
    let rest = lemma_word(text, 66, Column::Key.name(), 70, rest, 343);
    let rest = lemma_word(text, 62, "AND"@, 66, rest, 343);
    let rest = lemma_word(text, 59, place(1), 62, rest, 343);
    let rest = lemma_word(text, 57, "="@, 59, rest, 343);
    let rest = lemma_word(text, 43, Column::RepositoryId.name(), 57, rest, 343);
    let rest = lemma_word(text, 37, "WHERE"@, 43, rest, 343);
    let rest = lemma_word(text, 13, listed(place(3), true), 37, rest, 343);
    let rest = lemma_word(text, 11, "="@, 13, rest, 343);
    let rest = lemma_word(text, 5, Column::Value.name(), 11, rest, 343);
    let rest = lemma_word(text, 1, "SET"@, 5, rest, 343);
}

/// The words of [`UPDATE_IF_MATCHES_3`].
pub(crate) open spec fn update_if_matches_3_words() -> Words {
    word("WHERE"@, word(Column::RepositoryId.name(), word("="@, word(place(1), word("AND"@,
        word(Column::Key.name(), word("="@, word(place(2) + "),"@, word(place(5), word(")"@,
        word("END,"@, word("EXISTS(SELECT"@, word("1"@, word("FROM"@, word("upd"@ + ")"@,
        Words::End)))))))))))))))
}

pub(crate) proof fn lemma_update_if_matches_3_reads()
    ensures
        UPDATE_IF_MATCHES_3@.len() == 195,
        forall|j: int| 0 <= j < 1 ==> blank(#[trigger] UPDATE_IF_MATCHES_3@[j]),
        reads(UPDATE_IF_MATCHES_3@, 1, update_if_matches_3_words(), 195),
{
    reveal_strlit(
        " WHERE repository_id = $1 AND key = $2),
                                     $5
                                  )
                        END,
                        EXISTS(SELECT 1 FROM upd)",
    );
    reveal_strlit("WHERE");
    reveal_strlit("repository_id");
    reveal_strlit("=");
    reveal_strlit("$");
    reveal_strlit("AND");
    reveal_strlit("key");
    reveal_strlit("),");
    reveal_strlit(")");
    reveal_strlit("END,");
    reveal_strlit("EXISTS(SELECT");
    reveal_strlit("1");
    reveal_strlit("FROM");
    reveal_strlit("upd");
    let text = UPDATE_IF_MATCHES_3@;
    let rest = Words::End;
    let rest = lemma_word(text, 191, "upd"@ + ")"@, 195, rest, 195);
    let rest = lemma_word(text, 186, "FROM"@, 191, rest, 195);
    let rest = lemma_word(text, 184, "1"@, 186, rest, 195);
    let rest = lemma_word(text, 170, "EXISTS(SELECT"@, 184, rest, 195);
    let rest = lemma_word(text, 141, "END,"@, 170, rest, 195);
    let rest = lemma_word(text, 115, ")"@, 141, rest, 195);
    let rest = lemma_word(text, 78, place(5), 115, rest, 195);
    let rest = lemma_word(text, 36, place(2) + "),"@, 78, rest, 195);
    let rest = lemma_word(text, 34, "="@, 36, rest, 195);
    let rest = lemma_word(text, 30, Column::Key.name(), 34, rest, 195);
    let rest = lemma_word(text, 26, "AND"@, 30, rest, 195);
    let rest = lemma_word(text, 23, place(1), 26, rest, 195);
    let rest = lemma_word(text, 21, "="@, 23, rest, 195);
    let rest = lemma_word(text, 7, Column::RepositoryId.name(), 21, rest, 195);
    let rest = lemma_word(text, 1, "WHERE"@, 7, rest, 195);
}

/// The words of [`LIST_1`].
pub(crate) open spec fn list_1_words() -> Words {
    word("SELECT"@, word(listed(Column::Key.name(), false), word(listed(Column::Value.name(), true),
        word("FROM"@, Words::End))))
}

pub(crate) proof fn lemma_list_1_reads()
    ensures
        LIST_1@.len() == 23,
        blank(LIST_1@.last()),
        reads(LIST_1@, 0, list_1_words(), 23),
{
    reveal_strlit("SELECT key, value FROM ");
    reveal_strlit("SELECT");
    reveal_strlit("key");
    reveal_strlit(",");
    reveal_strlit("value");
    reveal_strlit("FROM");
    let text = LIST_1@;
    let rest = Words::End;
    let rest = lemma_word(text, 18, "FROM"@, 23, rest, 23);
    let rest = lemma_word(text, 12, listed(Column::Value.name(), true), 18, rest, 23);
    let rest = lemma_word(text, 7, listed(Column::Key.name(), false), 12, rest, 23);
    let rest = lemma_word(text, 0, "SELECT"@, 7, rest, 23);
}

/// The words of [`LIST_2`].
pub(crate) open spec fn list_2_words() -> Words {
    word("WHERE"@, word(Column::RepositoryId.name(), word("="@, word(place(1), word("AND"@,
        word(Column::Key.name(), word(">="@, word(place(2), word("AND"@, word(Column::Key.name(),
        word("<="@, word(place(3) + Seq::empty(), word("AND"@, word(Column::Value.name(),
        word("IS"@, word("NOT"@, word("NULL"@, Words::End)))))))))))))))))
}

pub(crate) proof fn lemma_list_2_reads()
    ensures
        LIST_2@.len() == 165,
        forall|j: int| 0 <= j < 22 ==> blank(#[trigger] LIST_2@[j]),
        reads(LIST_2@, 22, list_2_words(), 165),
{
    reveal_strlit(
        "
                     WHERE repository_id = $1
                       AND key >= $2
                       AND key <= $3
                       AND value IS NOT NULL",
    );
    reveal_strlit("WHERE");
    reveal_strlit("repository_id");
    reveal_strlit("=");
    reveal_strlit("$");
    reveal_strlit("AND");
    reveal_strlit("key");
    reveal_strlit(">=");
    reveal_strlit("<=");
    reveal_strlit("value");
    reveal_strlit("IS");
    reveal_strlit("NOT");
    reveal_strlit("NULL");
    let text = LIST_2@;
    let rest = Words::End;
    let rest = lemma_word(text, 161, "NULL"@, 165, rest, 165);
    let rest = lemma_word(text, 157, "NOT"@, 161, rest, 165);
    let rest = lemma_word(text, 154, "IS"@, 157, rest, 165);
    let rest = lemma_word(text, 148, Column::Value.name(), 154, rest, 165);
    let rest = lemma_word(text, 144, "AND"@, 148, rest, 165);
    let rest = lemma_word(text, 118, place(3) + Seq::empty(), 144, rest, 165);
    let rest = lemma_word(text, 115, "<="@, 118, rest, 165);
    let rest = lemma_word(text, 111, Column::Key.name(), 115, rest, 165);
    let rest = lemma_word(text, 107, "AND"@, 111, rest, 165);
    let rest = lemma_word(text, 81, place(2), 107, rest, 165);
    let rest = lemma_word(text, 78, ">="@, 81, rest, 165);
    let rest = lemma_word(text, 74, Column::Key.name(), 78, rest, 165);
    let rest = lemma_word(text, 70, "AND"@, 74, rest, 165);
    let rest = lemma_word(text, 44, place(1), 70, rest, 165);
    let rest = lemma_word(text, 42, "="@, 44, rest, 165);
    let rest = lemma_word(text, 28, Column::RepositoryId.name(), 42, rest, 165);
    let rest = lemma_word(text, 22, "WHERE"@, 28, rest, 165);
}

} // verus!
