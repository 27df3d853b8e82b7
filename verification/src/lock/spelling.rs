//! How the statements of the lock store read, word for word.

use crate::lock::statements::{
    SCHEMA_1, SCHEMA_2, SCHEMA_3, SCHEMA_4, SCHEMA_5, SCHEMA_6, SCHEMA_7, SCHEMA_8, INSERT_INTO,
    INSERT_VALUES, SELECT_OWNER_FROM, WHERE_KEY, DELETE_FROM, DELETE_OWNED, DELETE_ANY,
    SELECT_LOCKS_FROM, STATUS, WHERE_HASH, WHERE_HASH_REPOSITORY, WHERE_HASH_REPOSITORY_BRANCH,
    WHERE_OWNER, WHERE_OWNER_REPOSITORY, WHERE_OWNER_REPOSITORY_BRANCH, WHERE_REPOSITORY,
    WHERE_REPOSITORY_BRANCH, WHERE_REPOSITORY_BRANCH_DESCRIPTION,
};
use crate::relational::{
    blank, item, lemma_word, listed, place, reads, word, Column, ColumnType, Words,
};
use vstd::prelude::*;

verus! {

/// The words of [`SCHEMA_1`].
pub(crate) open spec fn schema_1_words() -> Words {
    word("CREATE"@, word("TABLE"@, word("IF"@, word("NOT"@, word("EXISTS"@, Words::End)))))
}

pub(crate) proof fn lemma_schema_1_reads()
    ensures
        SCHEMA_1@.len() == 27,
        blank(SCHEMA_1@.last()),
        reads(SCHEMA_1@, 0, schema_1_words(), 27),
{
    reveal_strlit("CREATE TABLE IF NOT EXISTS ");
    reveal_strlit("CREATE");
    reveal_strlit("TABLE");
    reveal_strlit("IF");
    reveal_strlit("NOT");
    reveal_strlit("EXISTS");
    let text = SCHEMA_1@;
    let rest = Words::End;
    let rest = lemma_word(text, 20, "EXISTS"@, 27, rest, 27);
    let rest = lemma_word(text, 16, "NOT"@, 20, rest, 27);
    let rest = lemma_word(text, 13, "IF"@, 16, rest, 27);
    let rest = lemma_word(text, 7, "TABLE"@, 13, rest, 27);
    let rest = lemma_word(text, 0, "CREATE"@, 7, rest, 27);
}

/// The words of [`SCHEMA_2`].
pub(crate) open spec fn schema_2_words() -> Words {
    word("("@, word(Column::Repository.name(), word(ColumnType::Bytes.name(), word("NOT"@,
        word(listed("NULL"@, false), word(Column::Branch.name(), word(ColumnType::Bytes.name(),
        word("NOT"@, word(listed("NULL"@, false), word(Column::Hash.name(),
        word(ColumnType::Bytes.name(), word("NOT"@, word(listed("NULL"@, false),
        word(Column::OwnerId.name(), word(ColumnType::Text.name(), word("NOT"@, word(listed("NULL"@,
        false), word(Column::Description.name(), word(ColumnType::Text.name(), word("NOT"@,
        word(listed("NULL"@, false), word(Column::LockedAt.name(), word(ColumnType::BigInt.name(),
        word("NOT"@, word(listed("NULL"@, false), word("PRIMARY"@, word("KEY"@, word(item(true,
        Column::Repository.name(), false), word(item(false, Column::Branch.name(), false),
        word(item(false, Column::Hash.name(), true), word(");"@, word("CREATE"@, word("INDEX"@,
        word("IF"@, word("NOT"@, word("EXISTS"@, Words::End))))))))))))))))))))))))))))))))))))
}

pub(crate) proof fn lemma_schema_2_reads()
    ensures
        SCHEMA_2@.len() == 382,
        forall|j: int| 0 <= j < 1 ==> blank(#[trigger] SCHEMA_2@[j]),
        blank(SCHEMA_2@.last()),
        reads(SCHEMA_2@, 1, schema_2_words(), 382),
{
    reveal_strlit(
        " (
                repository  BYTEA  NOT NULL,
                branch      BYTEA  NOT NULL,
                hash        BYTEA  NOT NULL,
                owner_id    TEXT   NOT NULL,
                description TEXT   NOT NULL,
                locked_at   BIGINT NOT NULL,
                PRIMARY KEY (repository, branch, hash)
            );
            CREATE INDEX IF NOT EXISTS ",
    );
    reveal_strlit("(");
    reveal_strlit("repository");
    reveal_strlit("BYTEA");
    reveal_strlit("NOT");
    reveal_strlit("NULL");
    reveal_strlit(",");
    reveal_strlit("branch");
    reveal_strlit("hash");
    reveal_strlit("owner_id");
    reveal_strlit("TEXT");
    reveal_strlit("description");
    reveal_strlit("locked_at");
    reveal_strlit("BIGINT");
    reveal_strlit("PRIMARY");
    reveal_strlit("KEY");
    reveal_strlit(")");
    reveal_strlit(");");
    reveal_strlit("CREATE");
    reveal_strlit("INDEX");
    reveal_strlit("IF");
    reveal_strlit("EXISTS");
    let text = SCHEMA_2@;
    let rest = Words::End;
    let rest = lemma_word(text, 375, "EXISTS"@, 382, rest, 382);
    let rest = lemma_word(text, 371, "NOT"@, 375, rest, 382);
    let rest = lemma_word(text, 368, "IF"@, 371, rest, 382);
    let rest = lemma_word(text, 362, "INDEX"@, 368, rest, 382);
    let rest = lemma_word(text, 355, "CREATE"@, 362, rest, 382);
    let rest = lemma_word(text, 340, ");"@, 355, rest, 382);
    let rest = lemma_word(text, 322, item(false, Column::Hash.name(), true), 340, rest, 382);
    let rest = lemma_word(text, 314, item(false, Column::Branch.name(), false), 322, rest, 382);
    let rest = lemma_word(text, 301, item(true, Column::Repository.name(), false), 314, rest, 382);
    let rest = lemma_word(text, 297, "KEY"@, 301, rest, 382);
    let rest = lemma_word(text, 289, "PRIMARY"@, 297, rest, 382);
    let rest = lemma_word(text, 267, listed("NULL"@, false), 289, rest, 382);
    let rest = lemma_word(text, 263, "NOT"@, 267, rest, 382);
    let rest = lemma_word(text, 256, ColumnType::BigInt.name(), 263, rest, 382);
    let rest = lemma_word(text, 244, Column::LockedAt.name(), 256, rest, 382);
    let rest = lemma_word(text, 222, listed("NULL"@, false), 244, rest, 382);
    let rest = lemma_word(text, 218, "NOT"@, 222, rest, 382);
    let rest = lemma_word(text, 211, ColumnType::Text.name(), 218, rest, 382);
    let rest = lemma_word(text, 199, Column::Description.name(), 211, rest, 382);
    let rest = lemma_word(text, 177, listed("NULL"@, false), 199, rest, 382);
    let rest = lemma_word(text, 173, "NOT"@, 177, rest, 382);
    let rest = lemma_word(text, 166, ColumnType::Text.name(), 173, rest, 382);
    let rest = lemma_word(text, 154, Column::OwnerId.name(), 166, rest, 382);
    let rest = lemma_word(text, 132, listed("NULL"@, false), 154, rest, 382);
    let rest = lemma_word(text, 128, "NOT"@, 132, rest, 382);
    let rest = lemma_word(text, 121, ColumnType::Bytes.name(), 128, rest, 382);
    let rest = lemma_word(text, 109, Column::Hash.name(), 121, rest, 382);
    let rest = lemma_word(text, 87, listed("NULL"@, false), 109, rest, 382);
    let rest = lemma_word(text, 83, "NOT"@, 87, rest, 382);
    let rest = lemma_word(text, 76, ColumnType::Bytes.name(), 83, rest, 382);
    let rest = lemma_word(text, 64, Column::Branch.name(), 76, rest, 382);
    let rest = lemma_word(text, 42, listed("NULL"@, false), 64, rest, 382);
    let rest = lemma_word(text, 38, "NOT"@, 42, rest, 382);
    let rest = lemma_word(text, 31, ColumnType::Bytes.name(), 38, rest, 382);
    let rest = lemma_word(text, 19, Column::Repository.name(), 31, rest, 382);
    let rest = lemma_word(text, 1, "("@, 19, rest, 382);
}

/// The words of [`SCHEMA_3`] behind the name in front.
pub(crate) open spec fn schema_3_words() -> Words {
    word("ON"@, Words::End)
}

pub(crate) proof fn lemma_schema_3_reads()
    ensures
        SCHEMA_3@.len() == 14,
        forall|j: int| 9 <= j < 11 ==> blank(#[trigger] SCHEMA_3@[j]),
        blank(SCHEMA_3@.last()),
        SCHEMA_3@.take(9) == "_hash_idx"@,
        reads(SCHEMA_3@, 11, schema_3_words(), 14),
{
    reveal_strlit("_hash_idx  ON ");
    reveal_strlit("ON");
    reveal_strlit("_hash_idx");
    let text = SCHEMA_3@;
    assert(text.take(9) =~= "_hash_idx"@);
    let rest = Words::End;
    let rest = lemma_word(text, 11, "ON"@, 14, rest, 14);
}

/// The words of [`SCHEMA_4`].
pub(crate) open spec fn schema_4_words() -> Words {
    word(item(true, Column::Hash.name(), true) + ";"@, word("CREATE"@, word("INDEX"@, word("IF"@,
        word("NOT"@, word("EXISTS"@, Words::End))))))
}

pub(crate) proof fn lemma_schema_4_reads()
    ensures
        SCHEMA_4@.len() == 48,
        forall|j: int| 0 <= j < 1 ==> blank(#[trigger] SCHEMA_4@[j]),
        blank(SCHEMA_4@.last()),
        reads(SCHEMA_4@, 1, schema_4_words(), 48),
{
    reveal_strlit(
        " (hash);
            CREATE INDEX IF NOT EXISTS ",
    );
    reveal_strlit("hash");
    reveal_strlit("(");
    reveal_strlit(")");
    reveal_strlit(";");
    reveal_strlit("CREATE");
    reveal_strlit("INDEX");
    reveal_strlit("IF");
    reveal_strlit("NOT");
    reveal_strlit("EXISTS");
    let text = SCHEMA_4@;
    let rest = Words::End;
    let rest = lemma_word(text, 41, "EXISTS"@, 48, rest, 48);
    let rest = lemma_word(text, 37, "NOT"@, 41, rest, 48);
    let rest = lemma_word(text, 34, "IF"@, 37, rest, 48);
    let rest = lemma_word(text, 28, "INDEX"@, 34, rest, 48);
    let rest = lemma_word(text, 21, "CREATE"@, 28, rest, 48);
    let rest = lemma_word(text, 1, item(true, Column::Hash.name(), true) + ";"@, 21, rest, 48);
}

/// The words of [`SCHEMA_5`] behind the name in front.
pub(crate) open spec fn schema_5_words() -> Words {
    word("ON"@, Words::End)
}

pub(crate) proof fn lemma_schema_5_reads()
    ensures
        SCHEMA_5@.len() == 14,
        forall|j: int| 10 <= j < 11 ==> blank(#[trigger] SCHEMA_5@[j]),
        blank(SCHEMA_5@.last()),
        SCHEMA_5@.take(10) == "_owner_idx"@,
        reads(SCHEMA_5@, 11, schema_5_words(), 14),
{
    reveal_strlit("_owner_idx ON ");
    reveal_strlit("ON");
    reveal_strlit("_owner_idx");
    let text = SCHEMA_5@;
    assert(text.take(10) =~= "_owner_idx"@);
    let rest = Words::End;
    let rest = lemma_word(text, 11, "ON"@, 14, rest, 14);
}

/// The words of [`SCHEMA_6`].
pub(crate) open spec fn schema_6_words() -> Words {
    word(item(true, Column::OwnerId.name(), true) + ";"@, word("CREATE"@, word("INDEX"@, word("IF"@,
        word("NOT"@, word("EXISTS"@, Words::End))))))
}

pub(crate) proof fn lemma_schema_6_reads()
    ensures
        SCHEMA_6@.len() == 52,
        forall|j: int| 0 <= j < 1 ==> blank(#[trigger] SCHEMA_6@[j]),
        blank(SCHEMA_6@.last()),
        reads(SCHEMA_6@, 1, schema_6_words(), 52),
{
    reveal_strlit(
        " (owner_id);
            CREATE INDEX IF NOT EXISTS ",
    );
    reveal_strlit("owner_id");
    reveal_strlit("(");
    reveal_strlit(")");
    reveal_strlit(";");
    reveal_strlit("CREATE");
    reveal_strlit("INDEX");
    reveal_strlit("IF");
    reveal_strlit("NOT");
    reveal_strlit("EXISTS");
    let text = SCHEMA_6@;
    let rest = Words::End;
    let rest = lemma_word(text, 45, "EXISTS"@, 52, rest, 52);
    let rest = lemma_word(text, 41, "NOT"@, 45, rest, 52);
    let rest = lemma_word(text, 38, "IF"@, 41, rest, 52);
    let rest = lemma_word(text, 32, "INDEX"@, 38, rest, 52);
    let rest = lemma_word(text, 25, "CREATE"@, 32, rest, 52);
    let rest = lemma_word(text, 1, item(true, Column::OwnerId.name(), true) + ";"@, 25, rest, 52);
}

/// The words of [`SCHEMA_7`] behind the name in front.
pub(crate) open spec fn schema_7_words() -> Words {
    word("ON"@, Words::End)
}

pub(crate) proof fn lemma_schema_7_reads()
    ensures
        SCHEMA_7@.len() == 14,
        forall|j: int| 9 <= j < 11 ==> blank(#[trigger] SCHEMA_7@[j]),
        blank(SCHEMA_7@.last()),
        SCHEMA_7@.take(9) == "_repo_idx"@,
        reads(SCHEMA_7@, 11, schema_7_words(), 14),
{
    reveal_strlit("_repo_idx  ON ");
    reveal_strlit("ON");
    reveal_strlit("_repo_idx");
    let text = SCHEMA_7@;
    assert(text.take(9) =~= "_repo_idx"@);
    let rest = Words::End;
    let rest = lemma_word(text, 11, "ON"@, 14, rest, 14);
}

/// The words of [`SCHEMA_8`].
pub(crate) open spec fn schema_8_words() -> Words {
    word(item(true, Column::Repository.name(), true) + ";"@, Words::End)
}

pub(crate) proof fn lemma_schema_8_reads()
    ensures
        SCHEMA_8@.len() == 14,
        forall|j: int| 0 <= j < 1 ==> blank(#[trigger] SCHEMA_8@[j]),
        reads(SCHEMA_8@, 1, schema_8_words(), 14),
{
    reveal_strlit(" (repository);");
    reveal_strlit("repository");
    reveal_strlit("(");
    reveal_strlit(")");
    reveal_strlit(";");
    let text = SCHEMA_8@;
    let rest = Words::End;
    let rest = lemma_word(text, 1, item(true, Column::Repository.name(), true) + ";"@, 14, rest,
        14);
}

/// The words of [`INSERT_INTO`].
pub(crate) open spec fn insert_into_words() -> Words {
    word("INSERT"@, word("INTO"@, Words::End))
}

pub(crate) proof fn lemma_insert_into_reads()
    ensures
        INSERT_INTO@.len() == 12,
        blank(INSERT_INTO@.last()),
        reads(INSERT_INTO@, 0, insert_into_words(), 12),
{
    reveal_strlit("INSERT INTO ");
    reveal_strlit("INSERT");
    reveal_strlit("INTO");
    let text = INSERT_INTO@;
    let rest = Words::End;
    let rest = lemma_word(text, 7, "INTO"@, 12, rest, 12);
    let rest = lemma_word(text, 0, "INSERT"@, 7, rest, 12);
}

/// The words of [`INSERT_VALUES`].
pub(crate) open spec fn insert_values_words() -> Words {
    word(item(true, Column::Repository.name(), false), word(item(false, Column::Branch.name(),
        false), word(item(false, Column::Hash.name(), false), word(item(false,
        Column::OwnerId.name(), false), word(item(false, Column::Description.name(), false),
        word(item(false, Column::LockedAt.name(), true), word("VALUES"@, word(item(true, place(1),
        false), word(item(false, place(2), false), word(item(false, place(3), false),
        word(item(false, place(4), false), word(item(false, place(5), false), word(item(false,
        place(6), true), word("ON"@, word("CONFLICT"@, word(item(true, Column::Repository.name(),
        false), word(item(false, Column::Branch.name(), false), word(item(false,
        Column::Hash.name(), true), word("DO"@, word("NOTHING"@, Words::End))))))))))))))))))))
}

pub(crate) proof fn lemma_insert_values_reads()
    ensures
        INSERT_VALUES@.len() == 169,
        forall|j: int| 0 <= j < 1 ==> blank(#[trigger] INSERT_VALUES@[j]),
        reads(INSERT_VALUES@, 1, insert_values_words(), 169),
{
    reveal_strlit(
        " (repository, branch, hash, owner_id, description, locked_at)
             VALUES ($1, $2, $3, $4, $5, $6)
             ON CONFLICT (repository, branch, hash) DO NOTHING",
    );
    reveal_strlit("repository");
    reveal_strlit("(");
    reveal_strlit(",");
    reveal_strlit("branch");
    reveal_strlit("hash");
    reveal_strlit("owner_id");
    reveal_strlit("description");
    reveal_strlit("locked_at");
    reveal_strlit(")");
    reveal_strlit("VALUES");
    reveal_strlit("$");
    reveal_strlit("ON");
    reveal_strlit("CONFLICT");
    reveal_strlit("DO");
    reveal_strlit("NOTHING");
    let text = INSERT_VALUES@;
    let rest = Words::End;
    let rest = lemma_word(text, 162, "NOTHING"@, 169, rest, 169);
    let rest = lemma_word(text, 159, "DO"@, 162, rest, 169);
    let rest = lemma_word(text, 153, item(false, Column::Hash.name(), true), 159, rest, 169);
    let rest = lemma_word(text, 145, item(false, Column::Branch.name(), false), 153, rest, 169);
    let rest = lemma_word(text, 132, item(true, Column::Repository.name(), false), 145, rest, 169);
    let rest = lemma_word(text, 123, "CONFLICT"@, 132, rest, 169);
    let rest = lemma_word(text, 120, "ON"@, 123, rest, 169);
    let rest = lemma_word(text, 103, item(false, place(6), true), 120, rest, 169);
    let rest = lemma_word(text, 99, item(false, place(5), false), 103, rest, 169);
    let rest = lemma_word(text, 95, item(false, place(4), false), 99, rest, 169);
    let rest = lemma_word(text, 91, item(false, place(3), false), 95, rest, 169);
    let rest = lemma_word(text, 87, item(false, place(2), false), 91, rest, 169);
    let rest = lemma_word(text, 82, item(true, place(1), false), 87, rest, 169);
    let rest = lemma_word(text, 75, "VALUES"@, 82, rest, 169);
    let rest = lemma_word(text, 51, item(false, Column::LockedAt.name(), true), 75, rest, 169);
    let rest = lemma_word(text, 38, item(false, Column::Description.name(), false), 51, rest, 169);
    let rest = lemma_word(text, 28, item(false, Column::OwnerId.name(), false), 38, rest, 169);
    let rest = lemma_word(text, 22, item(false, Column::Hash.name(), false), 28, rest, 169);
    let rest = lemma_word(text, 14, item(false, Column::Branch.name(), false), 22, rest, 169);
    let rest = lemma_word(text, 1, item(true, Column::Repository.name(), false), 14, rest, 169);
}

/// The words of [`SELECT_OWNER_FROM`].
pub(crate) open spec fn select_owner_from_words() -> Words {
    word("SELECT"@, word(listed(Column::OwnerId.name(), true), word("FROM"@, Words::End)))
}

pub(crate) proof fn lemma_select_owner_from_reads()
    ensures
        SELECT_OWNER_FROM@.len() == 21,
        blank(SELECT_OWNER_FROM@.last()),
        reads(SELECT_OWNER_FROM@, 0, select_owner_from_words(), 21),
{
    reveal_strlit("SELECT owner_id FROM ");
    reveal_strlit("SELECT");
    reveal_strlit("owner_id");
    reveal_strlit("FROM");
    let text = SELECT_OWNER_FROM@;
    let rest = Words::End;
    let rest = lemma_word(text, 16, "FROM"@, 21, rest, 21);
    let rest = lemma_word(text, 7, listed(Column::OwnerId.name(), true), 16, rest, 21);
    let rest = lemma_word(text, 0, "SELECT"@, 7, rest, 21);
}

/// The words of [`WHERE_KEY`].
pub(crate) open spec fn where_key_words() -> Words {
    word("WHERE"@, word(Column::Repository.name(), word("="@, word(place(1), word("AND"@,
        word(Column::Branch.name(), word("="@, word(place(2), word("AND"@, word(Column::Hash.name(),
        word("="@, word(place(3) + Seq::empty(), Words::End))))))))))))
}

pub(crate) proof fn lemma_where_key_reads()
    ensures
        WHERE_KEY@.len() == 52,
        forall|j: int| 0 <= j < 1 ==> blank(#[trigger] WHERE_KEY@[j]),
        reads(WHERE_KEY@, 1, where_key_words(), 52),
{
    reveal_strlit(" WHERE repository = $1 AND branch = $2 AND hash = $3");
    reveal_strlit("WHERE");
    reveal_strlit("repository");
    reveal_strlit("=");
    reveal_strlit("$");
    reveal_strlit("AND");
    reveal_strlit("branch");
    reveal_strlit("hash");
    let text = WHERE_KEY@;
    let rest = Words::End;
    let rest = lemma_word(text, 50, place(3) + Seq::empty(), 52, rest, 52);
    let rest = lemma_word(text, 48, "="@, 50, rest, 52);
    let rest = lemma_word(text, 43, Column::Hash.name(), 48, rest, 52);
    let rest = lemma_word(text, 39, "AND"@, 43, rest, 52);
    let rest = lemma_word(text, 36, place(2), 39, rest, 52);
    let rest = lemma_word(text, 34, "="@, 36, rest, 52);
    let rest = lemma_word(text, 27, Column::Branch.name(), 34, rest, 52);
    let rest = lemma_word(text, 23, "AND"@, 27, rest, 52);
    let rest = lemma_word(text, 20, place(1), 23, rest, 52);
    let rest = lemma_word(text, 18, "="@, 20, rest, 52);
    let rest = lemma_word(text, 7, Column::Repository.name(), 18, rest, 52);
    let rest = lemma_word(text, 1, "WHERE"@, 7, rest, 52);
}

/// The words of [`DELETE_FROM`].
pub(crate) open spec fn delete_from_words() -> Words {
    word("DELETE"@, word("FROM"@, Words::End))
}

pub(crate) proof fn lemma_delete_from_reads()
    ensures
        DELETE_FROM@.len() == 12,
        blank(DELETE_FROM@.last()),
        reads(DELETE_FROM@, 0, delete_from_words(), 12),
{
    reveal_strlit("DELETE FROM ");
    reveal_strlit("DELETE");
    reveal_strlit("FROM");
    let text = DELETE_FROM@;
    let rest = Words::End;
    let rest = lemma_word(text, 7, "FROM"@, 12, rest, 12);
    let rest = lemma_word(text, 0, "DELETE"@, 7, rest, 12);
}

/// The words of [`DELETE_OWNED`].
pub(crate) open spec fn delete_owned_words() -> Words {
    word("WHERE"@, word(Column::Repository.name(), word("="@, word(place(1), word("AND"@,
        word(Column::Branch.name(), word("="@, word(place(2), word("AND"@, word(Column::Hash.name(),
        word("="@, word(place(3), word("AND"@, word(Column::OwnerId.name(), word("="@,
        word(place(4) + Seq::empty(), Words::End))))))))))))))))
}

pub(crate) proof fn lemma_delete_owned_reads()
    ensures
        DELETE_OWNED@.len() == 87,
        forall|j: int| 0 <= j < 18 ==> blank(#[trigger] DELETE_OWNED@[j]),
        reads(DELETE_OWNED@, 18, delete_owned_words(), 87),
{
    reveal_strlit(
        "
                 WHERE repository = $1 AND branch = $2 AND hash = $3 AND owner_id = $4",
    );
    reveal_strlit("WHERE");
    reveal_strlit("repository");
    reveal_strlit("=");
    reveal_strlit("$");
    reveal_strlit("AND");
    reveal_strlit("branch");
    reveal_strlit("hash");
    reveal_strlit("owner_id");
    let text = DELETE_OWNED@;
    let rest = Words::End;
    let rest = lemma_word(text, 85, place(4) + Seq::empty(), 87, rest, 87);
    let rest = lemma_word(text, 83, "="@, 85, rest, 87);
    let rest = lemma_word(text, 74, Column::OwnerId.name(), 83, rest, 87);
    let rest = lemma_word(text, 70, "AND"@, 74, rest, 87);
    let rest = lemma_word(text, 67, place(3), 70, rest, 87);
    let rest = lemma_word(text, 65, "="@, 67, rest, 87);
    let rest = lemma_word(text, 60, Column::Hash.name(), 65, rest, 87);
    let rest = lemma_word(text, 56, "AND"@, 60, rest, 87);
    let rest = lemma_word(text, 53, place(2), 56, rest, 87);
    let rest = lemma_word(text, 51, "="@, 53, rest, 87);
    let rest = lemma_word(text, 44, Column::Branch.name(), 51, rest, 87);
    let rest = lemma_word(text, 40, "AND"@, 44, rest, 87);
    let rest = lemma_word(text, 37, place(1), 40, rest, 87);
    let rest = lemma_word(text, 35, "="@, 37, rest, 87);
    let rest = lemma_word(text, 24, Column::Repository.name(), 35, rest, 87);
    let rest = lemma_word(text, 18, "WHERE"@, 24, rest, 87);
}

/// The words of [`DELETE_ANY`].
pub(crate) open spec fn delete_any_words() -> Words {
    word("WHERE"@, word(Column::Repository.name(), word("="@, word(place(1), word("AND"@,
        word(Column::Branch.name(), word("="@, word(place(2), word("AND"@, word(Column::Hash.name(),
        word("="@, word(place(3) + Seq::empty(), Words::End))))))))))))
}

pub(crate) proof fn lemma_delete_any_reads()
    ensures
        DELETE_ANY@.len() == 69,
        forall|j: int| 0 <= j < 18 ==> blank(#[trigger] DELETE_ANY@[j]),
        reads(DELETE_ANY@, 18, delete_any_words(), 69),
{
    reveal_strlit(
        "
                 WHERE repository = $1 AND branch = $2 AND hash = $3",
    );
    reveal_strlit("WHERE");
    reveal_strlit("repository");
    reveal_strlit("=");
    reveal_strlit("$");
    reveal_strlit("AND");
    reveal_strlit("branch");
    reveal_strlit("hash");
    let text = DELETE_ANY@;
    let rest = Words::End;
    let rest = lemma_word(text, 67, place(3) + Seq::empty(), 69, rest, 69);
    let rest = lemma_word(text, 65, "="@, 67, rest, 69);
    let rest = lemma_word(text, 60, Column::Hash.name(), 65, rest, 69);
    let rest = lemma_word(text, 56, "AND"@, 60, rest, 69);
    let rest = lemma_word(text, 53, place(2), 56, rest, 69);
    let rest = lemma_word(text, 51, "="@, 53, rest, 69);
    let rest = lemma_word(text, 44, Column::Branch.name(), 51, rest, 69);
    let rest = lemma_word(text, 40, "AND"@, 44, rest, 69);
    let rest = lemma_word(text, 37, place(1), 40, rest, 69);
    let rest = lemma_word(text, 35, "="@, 37, rest, 69);
    let rest = lemma_word(text, 24, Column::Repository.name(), 35, rest, 69);
    let rest = lemma_word(text, 18, "WHERE"@, 24, rest, 69);
}

/// The words of [`SELECT_LOCKS_FROM`].
pub(crate) open spec fn select_locks_from_words() -> Words {
    word("SELECT"@, word(listed(Column::Hash.name(), false), word(listed(Column::Branch.name(),
        false), word(listed(Column::OwnerId.name(), false), word(listed(Column::Description.name(),
        false), word(listed(Column::LockedAt.name(), true), word("FROM"@, Words::End)))))))
}

pub(crate) proof fn lemma_select_locks_from_reads()
    ensures
        SELECT_LOCKS_FROM@.len() == 59,
        blank(SELECT_LOCKS_FROM@.last()),
        reads(SELECT_LOCKS_FROM@, 0, select_locks_from_words(), 59),
{
    reveal_strlit("SELECT hash, branch, owner_id, description, locked_at FROM ");
    reveal_strlit("SELECT");
    reveal_strlit("hash");
    reveal_strlit(",");
    reveal_strlit("branch");
    reveal_strlit("owner_id");
    reveal_strlit("description");
    reveal_strlit("locked_at");
    reveal_strlit("FROM");
    let text = SELECT_LOCKS_FROM@;
    let rest = Words::End;
    let rest = lemma_word(text, 54, "FROM"@, 59, rest, 59);
    let rest = lemma_word(text, 44, listed(Column::LockedAt.name(), true), 54, rest, 59);
    let rest = lemma_word(text, 31, listed(Column::Description.name(), false), 44, rest, 59);
    let rest = lemma_word(text, 21, listed(Column::OwnerId.name(), false), 31, rest, 59);
    let rest = lemma_word(text, 13, listed(Column::Branch.name(), false), 21, rest, 59);
    let rest = lemma_word(text, 7, listed(Column::Hash.name(), false), 13, rest, 59);
    let rest = lemma_word(text, 0, "SELECT"@, 7, rest, 59);
}

/// The words of [`STATUS`].
pub(crate) open spec fn status_words() -> Words {
    word("WHERE"@, word(Column::Repository.name(), word("="@, word(place(1) + Seq::empty(),
        word("AND"@, word(item(true, Column::Branch.name(), false), word(item(false,
        Column::Hash.name(), true), word("IN"@, word("("@, word("SELECT"@, word("*"@, word("FROM"@,
        word("unnest("@ + place(2) + "::bytea[],"@, word(place(3) + "::bytea[])"@, word(")"@,
        Words::End)))))))))))))))
}

pub(crate) proof fn lemma_status_reads()
    ensures
        STATUS@.len() == 157,
        forall|j: int| 0 <= j < 14 ==> blank(#[trigger] STATUS@[j]),
        reads(STATUS@, 14, status_words(), 157),
{
    reveal_strlit(
        "
             WHERE repository = $1
               AND (branch, hash) IN (
                   SELECT * FROM unnest($2::bytea[], $3::bytea[])
               )",
    );
    reveal_strlit("WHERE");
    reveal_strlit("repository");
    reveal_strlit("=");
    reveal_strlit("$");
    reveal_strlit("AND");
    reveal_strlit("branch");
    reveal_strlit("(");
    reveal_strlit(",");
    reveal_strlit("hash");
    reveal_strlit(")");
    reveal_strlit("IN");
    reveal_strlit("SELECT");
    reveal_strlit("*");
    reveal_strlit("FROM");
    reveal_strlit("unnest(");
    reveal_strlit("::bytea[],");
    reveal_strlit("::bytea[])");
    let text = STATUS@;
    let rest = Words::End;
    let rest = lemma_word(text, 156, ")"@, 157, rest, 157);
    let rest = lemma_word(text, 128, place(3) + "::bytea[])"@, 156, rest, 157);
    let rest = lemma_word(text, 108, "unnest("@ + place(2) + "::bytea[],"@, 128, rest, 157);
    let rest = lemma_word(text, 103, "FROM"@, 108, rest, 157);
    let rest = lemma_word(text, 101, "*"@, 103, rest, 157);
    let rest = lemma_word(text, 94, "SELECT"@, 101, rest, 157);
    let rest = lemma_word(text, 73, "("@, 94, rest, 157);
    let rest = lemma_word(text, 70, "IN"@, 73, rest, 157);
    let rest = lemma_word(text, 64, item(false, Column::Hash.name(), true), 70, rest, 157);
    let rest = lemma_word(text, 55, item(true, Column::Branch.name(), false), 64, rest, 157);
    let rest = lemma_word(text, 51, "AND"@, 55, rest, 157);
    let rest = lemma_word(text, 33, place(1) + Seq::empty(), 51, rest, 157);
    let rest = lemma_word(text, 31, "="@, 33, rest, 157);
    let rest = lemma_word(text, 20, Column::Repository.name(), 31, rest, 157);
    let rest = lemma_word(text, 14, "WHERE"@, 20, rest, 157);
}

/// The words of [`WHERE_HASH`].
pub(crate) open spec fn where_hash_words() -> Words {
    word("WHERE"@, word(Column::Hash.name(), word("="@, word(place(1) + Seq::empty(), Words::End))))
}

pub(crate) proof fn lemma_where_hash_reads()
    ensures
        WHERE_HASH@.len() == 16,
        forall|j: int| 0 <= j < 1 ==> blank(#[trigger] WHERE_HASH@[j]),
        reads(WHERE_HASH@, 1, where_hash_words(), 16),
{
    reveal_strlit(" WHERE hash = $1");
    reveal_strlit("WHERE");
    reveal_strlit("hash");
    reveal_strlit("=");
    reveal_strlit("$");
    let text = WHERE_HASH@;
    let rest = Words::End;
    let rest = lemma_word(text, 14, place(1) + Seq::empty(), 16, rest, 16);
    let rest = lemma_word(text, 12, "="@, 14, rest, 16);
    let rest = lemma_word(text, 7, Column::Hash.name(), 12, rest, 16);
    let rest = lemma_word(text, 1, "WHERE"@, 7, rest, 16);
}

/// The words of [`WHERE_HASH_REPOSITORY`].
pub(crate) open spec fn where_hash_repository_words() -> Words {
    word("WHERE"@, word(Column::Hash.name(), word("="@, word(place(1), word("AND"@,
        word(Column::Repository.name(), word("="@, word(place(2) + Seq::empty(), Words::End))))))))
}

pub(crate) proof fn lemma_where_hash_repository_reads()
    ensures
        WHERE_HASH_REPOSITORY@.len() == 36,
        forall|j: int| 0 <= j < 1 ==> blank(#[trigger] WHERE_HASH_REPOSITORY@[j]),
        reads(WHERE_HASH_REPOSITORY@, 1, where_hash_repository_words(), 36),
{
    reveal_strlit(" WHERE hash = $1 AND repository = $2");
    reveal_strlit("WHERE");
    reveal_strlit("hash");
    reveal_strlit("=");
    reveal_strlit("$");
    reveal_strlit("AND");
    reveal_strlit("repository");
    let text = WHERE_HASH_REPOSITORY@;
    let rest = Words::End;
    let rest = lemma_word(text, 34, place(2) + Seq::empty(), 36, rest, 36);
    let rest = lemma_word(text, 32, "="@, 34, rest, 36);
    let rest = lemma_word(text, 21, Column::Repository.name(), 32, rest, 36);
    let rest = lemma_word(text, 17, "AND"@, 21, rest, 36);
    let rest = lemma_word(text, 14, place(1), 17, rest, 36);
    let rest = lemma_word(text, 12, "="@, 14, rest, 36);
    let rest = lemma_word(text, 7, Column::Hash.name(), 12, rest, 36);
    let rest = lemma_word(text, 1, "WHERE"@, 7, rest, 36);
}

/// The words of [`WHERE_HASH_REPOSITORY_BRANCH`].
pub(crate) open spec fn where_hash_repository_branch_words() -> Words {
    word("WHERE"@, word(Column::Hash.name(), word("="@, word(place(1), word("AND"@,
        word(Column::Repository.name(), word("="@, word(place(2), word("AND"@,
        word(Column::Branch.name(), word("="@, word(place(3) + Seq::empty(), Words::End))))))))))))
}

pub(crate) proof fn lemma_where_hash_repository_branch_reads()
    ensures
        WHERE_HASH_REPOSITORY_BRANCH@.len() == 52,
        forall|j: int| 0 <= j < 1 ==> blank(#[trigger] WHERE_HASH_REPOSITORY_BRANCH@[j]),
        reads(WHERE_HASH_REPOSITORY_BRANCH@, 1, where_hash_repository_branch_words(), 52),
{
    reveal_strlit(" WHERE hash = $1 AND repository = $2 AND branch = $3");
    reveal_strlit("WHERE");
    reveal_strlit("hash");
    reveal_strlit("=");
    reveal_strlit("$");
    reveal_strlit("AND");
    reveal_strlit("repository");
    reveal_strlit("branch");
    let text = WHERE_HASH_REPOSITORY_BRANCH@;
    let rest = Words::End;
    let rest = lemma_word(text, 50, place(3) + Seq::empty(), 52, rest, 52);
    let rest = lemma_word(text, 48, "="@, 50, rest, 52);
    let rest = lemma_word(text, 41, Column::Branch.name(), 48, rest, 52);
    let rest = lemma_word(text, 37, "AND"@, 41, rest, 52);
    let rest = lemma_word(text, 34, place(2), 37, rest, 52);
    let rest = lemma_word(text, 32, "="@, 34, rest, 52);
    let rest = lemma_word(text, 21, Column::Repository.name(), 32, rest, 52);
    let rest = lemma_word(text, 17, "AND"@, 21, rest, 52);
    let rest = lemma_word(text, 14, place(1), 17, rest, 52);
    let rest = lemma_word(text, 12, "="@, 14, rest, 52);
    let rest = lemma_word(text, 7, Column::Hash.name(), 12, rest, 52);
    let rest = lemma_word(text, 1, "WHERE"@, 7, rest, 52);
}

/// The words of [`WHERE_OWNER`].
pub(crate) open spec fn where_owner_words() -> Words {
    word("WHERE"@, word(Column::OwnerId.name(), word("="@, word(place(1) + Seq::empty(),
        Words::End))))
}

pub(crate) proof fn lemma_where_owner_reads()
    ensures
        WHERE_OWNER@.len() == 20,
        forall|j: int| 0 <= j < 1 ==> blank(#[trigger] WHERE_OWNER@[j]),
        reads(WHERE_OWNER@, 1, where_owner_words(), 20),
{
    reveal_strlit(" WHERE owner_id = $1");
    reveal_strlit("WHERE");
    reveal_strlit("owner_id");
    reveal_strlit("=");
    reveal_strlit("$");
    let text = WHERE_OWNER@;
    let rest = Words::End;
    let rest = lemma_word(text, 18, place(1) + Seq::empty(), 20, rest, 20);
    let rest = lemma_word(text, 16, "="@, 18, rest, 20);
    let rest = lemma_word(text, 7, Column::OwnerId.name(), 16, rest, 20);
    let rest = lemma_word(text, 1, "WHERE"@, 7, rest, 20);
}

/// The words of [`WHERE_OWNER_REPOSITORY`].
pub(crate) open spec fn where_owner_repository_words() -> Words {
    word("WHERE"@, word(Column::OwnerId.name(), word("="@, word(place(1), word("AND"@,
        word(Column::Repository.name(), word("="@, word(place(2) + Seq::empty(), Words::End))))))))
}

pub(crate) proof fn lemma_where_owner_repository_reads()
    ensures
        WHERE_OWNER_REPOSITORY@.len() == 40,
        forall|j: int| 0 <= j < 1 ==> blank(#[trigger] WHERE_OWNER_REPOSITORY@[j]),
        reads(WHERE_OWNER_REPOSITORY@, 1, where_owner_repository_words(), 40),
{
    reveal_strlit(" WHERE owner_id = $1 AND repository = $2");
    reveal_strlit("WHERE");
    reveal_strlit("owner_id");
    reveal_strlit("=");
    reveal_strlit("$");
    reveal_strlit("AND");
    reveal_strlit("repository");
    let text = WHERE_OWNER_REPOSITORY@;
    let rest = Words::End;
    let rest = lemma_word(text, 38, place(2) + Seq::empty(), 40, rest, 40);
    let rest = lemma_word(text, 36, "="@, 38, rest, 40);
    let rest = lemma_word(text, 25, Column::Repository.name(), 36, rest, 40);
    let rest = lemma_word(text, 21, "AND"@, 25, rest, 40);
    let rest = lemma_word(text, 18, place(1), 21, rest, 40);
    let rest = lemma_word(text, 16, "="@, 18, rest, 40);
    let rest = lemma_word(text, 7, Column::OwnerId.name(), 16, rest, 40);
    let rest = lemma_word(text, 1, "WHERE"@, 7, rest, 40);
}

/// The words of [`WHERE_OWNER_REPOSITORY_BRANCH`].
pub(crate) open spec fn where_owner_repository_branch_words() -> Words {
    word("WHERE"@, word(Column::OwnerId.name(), word("="@, word(place(1), word("AND"@,
        word(Column::Repository.name(), word("="@, word(place(2), word("AND"@,
        word(Column::Branch.name(), word("="@, word(place(3) + Seq::empty(), Words::End))))))))))))
}

pub(crate) proof fn lemma_where_owner_repository_branch_reads()
    ensures
        WHERE_OWNER_REPOSITORY_BRANCH@.len() == 56,
        forall|j: int| 0 <= j < 1 ==> blank(#[trigger] WHERE_OWNER_REPOSITORY_BRANCH@[j]),
        reads(WHERE_OWNER_REPOSITORY_BRANCH@, 1, where_owner_repository_branch_words(), 56),
{
    reveal_strlit(" WHERE owner_id = $1 AND repository = $2 AND branch = $3");
    reveal_strlit("WHERE");
    reveal_strlit("owner_id");
    reveal_strlit("=");
    reveal_strlit("$");
    reveal_strlit("AND");
    reveal_strlit("repository");
    reveal_strlit("branch");
    let text = WHERE_OWNER_REPOSITORY_BRANCH@;
    let rest = Words::End;
    let rest = lemma_word(text, 54, place(3) + Seq::empty(), 56, rest, 56);
    let rest = lemma_word(text, 52, "="@, 54, rest, 56);
    let rest = lemma_word(text, 45, Column::Branch.name(), 52, rest, 56);
    let rest = lemma_word(text, 41, "AND"@, 45, rest, 56);
    let rest = lemma_word(text, 38, place(2), 41, rest, 56);
    let rest = lemma_word(text, 36, "="@, 38, rest, 56);
    let rest = lemma_word(text, 25, Column::Repository.name(), 36, rest, 56);
    let rest = lemma_word(text, 21, "AND"@, 25, rest, 56);
    let rest = lemma_word(text, 18, place(1), 21, rest, 56);
    let rest = lemma_word(text, 16, "="@, 18, rest, 56);
    let rest = lemma_word(text, 7, Column::OwnerId.name(), 16, rest, 56);
    let rest = lemma_word(text, 1, "WHERE"@, 7, rest, 56);
}

/// The words of [`WHERE_REPOSITORY`].
pub(crate) open spec fn where_repository_words() -> Words {
    word("WHERE"@, word(Column::Repository.name(), word("="@, word(place(1) + Seq::empty(),
        Words::End))))
}

pub(crate) proof fn lemma_where_repository_reads()
    ensures
        WHERE_REPOSITORY@.len() == 22,
        forall|j: int| 0 <= j < 1 ==> blank(#[trigger] WHERE_REPOSITORY@[j]),
        reads(WHERE_REPOSITORY@, 1, where_repository_words(), 22),
{
    reveal_strlit(" WHERE repository = $1");
    reveal_strlit("WHERE");
    reveal_strlit("repository");
    reveal_strlit("=");
    reveal_strlit("$");
    let text = WHERE_REPOSITORY@;
    let rest = Words::End;
    let rest = lemma_word(text, 20, place(1) + Seq::empty(), 22, rest, 22);
    let rest = lemma_word(text, 18, "="@, 20, rest, 22);
    let rest = lemma_word(text, 7, Column::Repository.name(), 18, rest, 22);
    let rest = lemma_word(text, 1, "WHERE"@, 7, rest, 22);
}

/// The words of [`WHERE_REPOSITORY_BRANCH`].
pub(crate) open spec fn where_repository_branch_words() -> Words {
    word("WHERE"@, word(Column::Repository.name(), word("="@, word(place(1), word("AND"@,
        word(Column::Branch.name(), word("="@, word(place(2) + Seq::empty(), Words::End))))))))
}

pub(crate) proof fn lemma_where_repository_branch_reads()
    ensures
        WHERE_REPOSITORY_BRANCH@.len() == 38,
        forall|j: int| 0 <= j < 1 ==> blank(#[trigger] WHERE_REPOSITORY_BRANCH@[j]),
        reads(WHERE_REPOSITORY_BRANCH@, 1, where_repository_branch_words(), 38),
{
    reveal_strlit(" WHERE repository = $1 AND branch = $2");
    reveal_strlit("WHERE");
    reveal_strlit("repository");
    reveal_strlit("=");
    reveal_strlit("$");
    reveal_strlit("AND");
    reveal_strlit("branch");
    let text = WHERE_REPOSITORY_BRANCH@;
    let rest = Words::End;
    let rest = lemma_word(text, 36, place(2) + Seq::empty(), 38, rest, 38);
    let rest = lemma_word(text, 34, "="@, 36, rest, 38);
    let rest = lemma_word(text, 27, Column::Branch.name(), 34, rest, 38);
    let rest = lemma_word(text, 23, "AND"@, 27, rest, 38);
    let rest = lemma_word(text, 20, place(1), 23, rest, 38);
    let rest = lemma_word(text, 18, "="@, 20, rest, 38);
    let rest = lemma_word(text, 7, Column::Repository.name(), 18, rest, 38);
    let rest = lemma_word(text, 1, "WHERE"@, 7, rest, 38);
}

/// The words of [`WHERE_REPOSITORY_BRANCH_DESCRIPTION`].
pub(crate) open spec fn where_repository_branch_description_words() -> Words {
    word("WHERE"@, word(Column::Repository.name(), word("="@, word(place(1), word("AND"@,
        word(Column::Branch.name(), word("="@, word(place(2), word("AND"@,
        word(Column::Description.name(), word("="@, word(place(3) + Seq::empty(),
        Words::End))))))))))))
}

pub(crate) proof fn lemma_where_repository_branch_description_reads()
    ensures
        WHERE_REPOSITORY_BRANCH_DESCRIPTION@.len() == 59,
        forall|j: int| 0 <= j < 1 ==> blank(#[trigger] WHERE_REPOSITORY_BRANCH_DESCRIPTION@[j]),
        reads(WHERE_REPOSITORY_BRANCH_DESCRIPTION@, 1, where_repository_branch_description_words(),
            59),
{
    reveal_strlit(" WHERE repository = $1 AND branch = $2 AND description = $3");
    reveal_strlit("WHERE");
    reveal_strlit("repository");
    reveal_strlit("=");
    reveal_strlit("$");
    reveal_strlit("AND");
    reveal_strlit("branch");
    reveal_strlit("description");
    let text = WHERE_REPOSITORY_BRANCH_DESCRIPTION@;
    let rest = Words::End;
    let rest = lemma_word(text, 57, place(3) + Seq::empty(), 59, rest, 59);
    let rest = lemma_word(text, 55, "="@, 57, rest, 59);
    let rest = lemma_word(text, 43, Column::Description.name(), 55, rest, 59);
    let rest = lemma_word(text, 39, "AND"@, 43, rest, 59);
    let rest = lemma_word(text, 36, place(2), 39, rest, 59);
    let rest = lemma_word(text, 34, "="@, 36, rest, 59);
    let rest = lemma_word(text, 27, Column::Branch.name(), 34, rest, 59);
    let rest = lemma_word(text, 23, "AND"@, 27, rest, 59);
    let rest = lemma_word(text, 20, place(1), 23, rest, 59);
    let rest = lemma_word(text, 18, "="@, 20, rest, 59);
    let rest = lemma_word(text, 7, Column::Repository.name(), 18, rest, 59);
    let rest = lemma_word(text, 1, "WHERE"@, 7, rest, 59);
}

} // verus!
