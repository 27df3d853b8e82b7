//! How the statements of the immutable store read, word for word.

use crate::immutable::statements::{
    FRAGMENTS_SCHEMA_1, FRAGMENTS_SCHEMA_2, FRAGMENTS_SCHEMA_3, FRAGMENTS_SCHEMA_4,
    FRAGMENTS_SCHEMA_5, FRAGMENTS_SCHEMA_6, METADATA_SCHEMA_1, METADATA_SCHEMA_2, EXISTS_EXACT_1,
    EXISTS_EXACT_2, EXISTS_REPOSITORY_1, EXISTS_REPOSITORY_2, EXISTS_HASH_1, EXISTS_HASH_2,
    COUNT_ASSOCIATIONS_1, COUNT_ASSOCIATIONS_2, BATCH_EXACT_1, BATCH_EXACT_2, WRITE_METADATA_1,
    WRITE_METADATA_2, UPDATE_METADATA_1, UPDATE_METADATA_2, LOAD_METADATA_1, LOAD_METADATA_2,
    ASSOCIATE_1, ASSOCIATE_2, DELETE_ASSOCIATION_1, DELETE_ASSOCIATION_2, COUNT_METADATA_1,
};
use crate::relational::{
    blank, item, lemma_word, listed, place, reads, word, Column, ColumnType, Words,
};
use vstd::prelude::*;

verus! {

/// The words of [`FRAGMENTS_SCHEMA_1`].
pub(crate) open spec fn fragments_schema_1_words() -> Words {
    word("CREATE"@, word("TABLE"@, word("IF"@, word("NOT"@, word("EXISTS"@, Words::End)))))
}

pub(crate) proof fn lemma_fragments_schema_1_reads()
    ensures
        FRAGMENTS_SCHEMA_1@.len() == 27,
        blank(FRAGMENTS_SCHEMA_1@.last()),
        reads(FRAGMENTS_SCHEMA_1@, 0, fragments_schema_1_words(), 27),
{
    reveal_strlit("CREATE TABLE IF NOT EXISTS ");
    reveal_strlit("CREATE");
    reveal_strlit("TABLE");
    reveal_strlit("IF");
    reveal_strlit("NOT");
    reveal_strlit("EXISTS");
    let text = FRAGMENTS_SCHEMA_1@;
    let rest = Words::End;
    let rest = lemma_word(text, 20, "EXISTS"@, 27, rest, 27);
    let rest = lemma_word(text, 16, "NOT"@, 20, rest, 27);
    let rest = lemma_word(text, 13, "IF"@, 16, rest, 27);
    let rest = lemma_word(text, 7, "TABLE"@, 13, rest, 27);
    let rest = lemma_word(text, 0, "CREATE"@, 7, rest, 27);
}

/// The words of [`FRAGMENTS_SCHEMA_2`].
pub(crate) open spec fn fragments_schema_2_words() -> Words {
    word("("@, word(Column::Hash.name(), word(ColumnType::Bytes.name(), word("NOT"@,
        word(listed("NULL"@, false), word(Column::Repository.name(), word(ColumnType::Bytes.name(),
        word("NOT"@, word(listed("NULL"@, false), word(Column::Context.name(),
        word(ColumnType::Bytes.name(), word("NOT"@, word(listed("NULL"@, false), word("PRIMARY"@,
        word("KEY"@, word(item(true, Column::Hash.name(), false), word(item(false,
        Column::Repository.name(), false), word(item(false, Column::Context.name(), true),
        word(");"@, word("CREATE"@, word("INDEX"@, word("IF"@, word("NOT"@, word("EXISTS"@,
        Words::End))))))))))))))))))))))))
}

pub(crate) proof fn lemma_fragments_schema_2_reads()
    ensures
        FRAGMENTS_SCHEMA_2@.len() == 251,
        forall|j: int| 0 <= j < 1 ==> blank(#[trigger] FRAGMENTS_SCHEMA_2@[j]),
        blank(FRAGMENTS_SCHEMA_2@.last()),
        reads(FRAGMENTS_SCHEMA_2@, 1, fragments_schema_2_words(), 251),
{
    reveal_strlit(
        " (
                hash        BYTEA   NOT NULL,
                repository  BYTEA   NOT NULL,
                context     BYTEA   NOT NULL,
                PRIMARY KEY (hash, repository, context)
            );
            CREATE INDEX IF NOT EXISTS ",
    );
    reveal_strlit("(");
    reveal_strlit("hash");
    reveal_strlit("BYTEA");
    reveal_strlit("NOT");
    reveal_strlit("NULL");
    reveal_strlit(",");
    reveal_strlit("repository");
    reveal_strlit("context");
    reveal_strlit("PRIMARY");
    reveal_strlit("KEY");
    reveal_strlit(")");
    reveal_strlit(");");
    reveal_strlit("CREATE");
    reveal_strlit("INDEX");
    reveal_strlit("IF");
    reveal_strlit("EXISTS");
    let text = FRAGMENTS_SCHEMA_2@;
    let rest = Words::End;
    let rest = lemma_word(text, 244, "EXISTS"@, 251, rest, 251);
    let rest = lemma_word(text, 240, "NOT"@, 244, rest, 251);
    let rest = lemma_word(text, 237, "IF"@, 240, rest, 251);
    let rest = lemma_word(text, 231, "INDEX"@, 237, rest, 251);
    let rest = lemma_word(text, 224, "CREATE"@, 231, rest, 251);
    let rest = lemma_word(text, 209, ");"@, 224, rest, 251);
    let rest = lemma_word(text, 188, item(false, Column::Context.name(), true), 209, rest, 251);
    let rest = lemma_word(text, 176, item(false, Column::Repository.name(), false), 188, rest, 251);
    let rest = lemma_word(text, 169, item(true, Column::Hash.name(), false), 176, rest, 251);
    let rest = lemma_word(text, 165, "KEY"@, 169, rest, 251);
    let rest = lemma_word(text, 157, "PRIMARY"@, 165, rest, 251);
    let rest = lemma_word(text, 135, listed("NULL"@, false), 157, rest, 251);
    let rest = lemma_word(text, 131, "NOT"@, 135, rest, 251);
    let rest = lemma_word(text, 123, ColumnType::Bytes.name(), 131, rest, 251);
    let rest = lemma_word(text, 111, Column::Context.name(), 123, rest, 251);
    let rest = lemma_word(text, 89, listed("NULL"@, false), 111, rest, 251);
    let rest = lemma_word(text, 85, "NOT"@, 89, rest, 251);
    let rest = lemma_word(text, 77, ColumnType::Bytes.name(), 85, rest, 251);
    let rest = lemma_word(text, 65, Column::Repository.name(), 77, rest, 251);
    let rest = lemma_word(text, 43, listed("NULL"@, false), 65, rest, 251);
    let rest = lemma_word(text, 39, "NOT"@, 43, rest, 251);
    let rest = lemma_word(text, 31, ColumnType::Bytes.name(), 39, rest, 251);
    let rest = lemma_word(text, 19, Column::Hash.name(), 31, rest, 251);
    let rest = lemma_word(text, 1, "("@, 19, rest, 251);
}

/// The words of [`FRAGMENTS_SCHEMA_3`] behind the name in front.
pub(crate) open spec fn fragments_schema_3_words() -> Words {
    word("ON"@, Words::End)
}

pub(crate) proof fn lemma_fragments_schema_3_reads()
    ensures
        FRAGMENTS_SCHEMA_3@.len() == 36,
        forall|j: int| 16 <= j < 33 ==> blank(#[trigger] FRAGMENTS_SCHEMA_3@[j]),
        blank(FRAGMENTS_SCHEMA_3@.last()),
        FRAGMENTS_SCHEMA_3@.take(16) == "_hash_repository"@,
        reads(FRAGMENTS_SCHEMA_3@, 33, fragments_schema_3_words(), 36),
{
    reveal_strlit(
        "_hash_repository
                ON ",
    );
    reveal_strlit("ON");
    reveal_strlit("_hash_repository");
    let text = FRAGMENTS_SCHEMA_3@;
    assert(text.take(16) =~= "_hash_repository"@);
    let rest = Words::End;
    let rest = lemma_word(text, 33, "ON"@, 36, rest, 36);
}

/// The words of [`FRAGMENTS_SCHEMA_4`].
pub(crate) open spec fn fragments_schema_4_words() -> Words {
    word(item(true, Column::Hash.name(), false), word(item(false, Column::Repository.name(),
        true) + ";"@, word("CREATE"@, word("INDEX"@, word("IF"@, word("NOT"@, word("EXISTS"@,
        Words::End)))))))
}

pub(crate) proof fn lemma_fragments_schema_4_reads()
    ensures
        FRAGMENTS_SCHEMA_4@.len() == 60,
        forall|j: int| 0 <= j < 1 ==> blank(#[trigger] FRAGMENTS_SCHEMA_4@[j]),
        blank(FRAGMENTS_SCHEMA_4@.last()),
        reads(FRAGMENTS_SCHEMA_4@, 1, fragments_schema_4_words(), 60),
{
    reveal_strlit(
        " (hash, repository);
            CREATE INDEX IF NOT EXISTS ",
    );
    reveal_strlit("hash");
    reveal_strlit("(");
    reveal_strlit(",");
    reveal_strlit("repository");
    reveal_strlit(")");
    reveal_strlit(";");
    reveal_strlit("CREATE");
    reveal_strlit("INDEX");
    reveal_strlit("IF");
    reveal_strlit("NOT");
    reveal_strlit("EXISTS");
    let text = FRAGMENTS_SCHEMA_4@;
    let rest = Words::End;
    let rest = lemma_word(text, 53, "EXISTS"@, 60, rest, 60);
    let rest = lemma_word(text, 49, "NOT"@, 53, rest, 60);
    let rest = lemma_word(text, 46, "IF"@, 49, rest, 60);
    let rest = lemma_word(text, 40, "INDEX"@, 46, rest, 60);
    let rest = lemma_word(text, 33, "CREATE"@, 40, rest, 60);
    let rest = lemma_word(text, 8, item(false, Column::Repository.name(), true) + ";"@, 33, rest,
        60);
    let rest = lemma_word(text, 1, item(true, Column::Hash.name(), false), 8, rest, 60);
}

/// The words of [`FRAGMENTS_SCHEMA_5`] behind the name in front.
pub(crate) open spec fn fragments_schema_5_words() -> Words {
    word("ON"@, Words::End)
}

pub(crate) proof fn lemma_fragments_schema_5_reads()
    ensures
        FRAGMENTS_SCHEMA_5@.len() == 29,
        forall|j: int| 9 <= j < 26 ==> blank(#[trigger] FRAGMENTS_SCHEMA_5@[j]),
        blank(FRAGMENTS_SCHEMA_5@.last()),
        FRAGMENTS_SCHEMA_5@.take(9) == "_hash_idx"@,
        reads(FRAGMENTS_SCHEMA_5@, 26, fragments_schema_5_words(), 29),
{
    reveal_strlit(
        "_hash_idx
                ON ",
    );
    reveal_strlit("ON");
    reveal_strlit("_hash_idx");
    let text = FRAGMENTS_SCHEMA_5@;
    assert(text.take(9) =~= "_hash_idx"@);
    let rest = Words::End;
    let rest = lemma_word(text, 26, "ON"@, 29, rest, 29);
}

/// The words of [`FRAGMENTS_SCHEMA_6`].
pub(crate) open spec fn fragments_schema_6_words() -> Words {
    word(item(true, Column::Hash.name(), true) + ";"@, Words::End)
}

pub(crate) proof fn lemma_fragments_schema_6_reads()
    ensures
        FRAGMENTS_SCHEMA_6@.len() == 8,
        forall|j: int| 0 <= j < 1 ==> blank(#[trigger] FRAGMENTS_SCHEMA_6@[j]),
        reads(FRAGMENTS_SCHEMA_6@, 1, fragments_schema_6_words(), 8),
{
    reveal_strlit(" (hash);");
    reveal_strlit("hash");
    reveal_strlit("(");
    reveal_strlit(")");
    reveal_strlit(";");
    let text = FRAGMENTS_SCHEMA_6@;
    let rest = Words::End;
    let rest = lemma_word(text, 1, item(true, Column::Hash.name(), true) + ";"@, 8, rest, 8);
}

/// The words of [`METADATA_SCHEMA_1`].
pub(crate) open spec fn metadata_schema_1_words() -> Words {
    word("CREATE"@, word("TABLE"@, word("IF"@, word("NOT"@, word("EXISTS"@, Words::End)))))
}

pub(crate) proof fn lemma_metadata_schema_1_reads()
    ensures
        METADATA_SCHEMA_1@.len() == 27,
        blank(METADATA_SCHEMA_1@.last()),
        reads(METADATA_SCHEMA_1@, 0, metadata_schema_1_words(), 27),
{
    reveal_strlit("CREATE TABLE IF NOT EXISTS ");
    reveal_strlit("CREATE");
    reveal_strlit("TABLE");
    reveal_strlit("IF");
    reveal_strlit("NOT");
    reveal_strlit("EXISTS");
    let text = METADATA_SCHEMA_1@;
    let rest = Words::End;
    let rest = lemma_word(text, 20, "EXISTS"@, 27, rest, 27);
    let rest = lemma_word(text, 16, "NOT"@, 20, rest, 27);
    let rest = lemma_word(text, 13, "IF"@, 16, rest, 27);
    let rest = lemma_word(text, 7, "TABLE"@, 13, rest, 27);
    let rest = lemma_word(text, 0, "CREATE"@, 7, rest, 27);
}

/// The words of [`METADATA_SCHEMA_2`].
pub(crate) open spec fn metadata_schema_2_words() -> Words {
    word("("@, word(Column::Hash.name(), word(ColumnType::Bytes.name(), word("NOT"@, word("NULL"@,
        word("PRIMARY"@, word(listed("KEY"@, false), word(Column::Flags.name(),
        word(ColumnType::BigInt.name(), word("NOT"@, word("NULL"@, word("DEFAULT"@,
        word(listed("0"@, false), word(Column::SizePayload.name(), word(ColumnType::BigInt.name(),
        word("NOT"@, word("NULL"@, word("DEFAULT"@, word(listed("0"@, false),
        word(Column::SizeContent.name(), word(ColumnType::BigInt.name(), word("NOT"@, word("NULL"@,
        word("DEFAULT"@, word(listed("0"@, true), word(")"@, Words::End))))))))))))))))))))))))))
}

pub(crate) proof fn lemma_metadata_schema_2_reads()
    ensures
        METADATA_SCHEMA_2@.len() == 245,
        forall|j: int| 0 <= j < 1 ==> blank(#[trigger] METADATA_SCHEMA_2@[j]),
        reads(METADATA_SCHEMA_2@, 1, metadata_schema_2_words(), 245),
{
    reveal_strlit(
        " (
                hash         BYTEA   NOT NULL PRIMARY KEY,
                flags        BIGINT  NOT NULL DEFAULT 0,
                size_payload BIGINT  NOT NULL DEFAULT 0,
                size_content BIGINT  NOT NULL DEFAULT 0
            )",
    );
    reveal_strlit("(");
    reveal_strlit("hash");
    reveal_strlit("BYTEA");
    reveal_strlit("NOT");
    reveal_strlit("NULL");
    reveal_strlit("PRIMARY");
    reveal_strlit("KEY");
    reveal_strlit(",");
    reveal_strlit("flags");
    reveal_strlit("BIGINT");
    reveal_strlit("DEFAULT");
    reveal_strlit("0");
    reveal_strlit("size_payload");
    reveal_strlit("size_content");
    reveal_strlit(")");
    let text = METADATA_SCHEMA_2@;
    let rest = Words::End;
    let rest = lemma_word(text, 244, ")"@, 245, rest, 245);
    let rest = lemma_word(text, 230, listed("0"@, true), 244, rest, 245);
    let rest = lemma_word(text, 222, "DEFAULT"@, 230, rest, 245);
    let rest = lemma_word(text, 217, "NULL"@, 222, rest, 245);
    let rest = lemma_word(text, 213, "NOT"@, 217, rest, 245);
    let rest = lemma_word(text, 205, ColumnType::BigInt.name(), 213, rest, 245);
    let rest = lemma_word(text, 192, Column::SizeContent.name(), 205, rest, 245);
    let rest = lemma_word(text, 173, listed("0"@, false), 192, rest, 245);
    let rest = lemma_word(text, 165, "DEFAULT"@, 173, rest, 245);
    let rest = lemma_word(text, 160, "NULL"@, 165, rest, 245);
    let rest = lemma_word(text, 156, "NOT"@, 160, rest, 245);
    let rest = lemma_word(text, 148, ColumnType::BigInt.name(), 156, rest, 245);
    let rest = lemma_word(text, 135, Column::SizePayload.name(), 148, rest, 245);
    let rest = lemma_word(text, 116, listed("0"@, false), 135, rest, 245);
    let rest = lemma_word(text, 108, "DEFAULT"@, 116, rest, 245);
    let rest = lemma_word(text, 103, "NULL"@, 108, rest, 245);
    let rest = lemma_word(text, 99, "NOT"@, 103, rest, 245);
    let rest = lemma_word(text, 91, ColumnType::BigInt.name(), 99, rest, 245);
    let rest = lemma_word(text, 78, Column::Flags.name(), 91, rest, 245);
    let rest = lemma_word(text, 57, listed("KEY"@, false), 78, rest, 245);
    let rest = lemma_word(text, 49, "PRIMARY"@, 57, rest, 245);
    let rest = lemma_word(text, 44, "NULL"@, 49, rest, 245);
    let rest = lemma_word(text, 40, "NOT"@, 44, rest, 245);
    let rest = lemma_word(text, 32, ColumnType::Bytes.name(), 40, rest, 245);
    let rest = lemma_word(text, 19, Column::Hash.name(), 32, rest, 245);
    let rest = lemma_word(text, 1, "("@, 19, rest, 245);
}

/// The words of [`EXISTS_EXACT_1`].
pub(crate) open spec fn exists_exact_1_words() -> Words {
    word("SELECT"@, word("1"@, word("FROM"@, Words::End)))
}

pub(crate) proof fn lemma_exists_exact_1_reads()
    ensures
        EXISTS_EXACT_1@.len() == 14,
        blank(EXISTS_EXACT_1@.last()),
        reads(EXISTS_EXACT_1@, 0, exists_exact_1_words(), 14),
{
    reveal_strlit("SELECT 1 FROM ");
    reveal_strlit("SELECT");
    reveal_strlit("1");
    reveal_strlit("FROM");
    let text = EXISTS_EXACT_1@;
    let rest = Words::End;
    let rest = lemma_word(text, 9, "FROM"@, 14, rest, 14);
    let rest = lemma_word(text, 7, "1"@, 9, rest, 14);
    let rest = lemma_word(text, 0, "SELECT"@, 7, rest, 14);
}

/// The words of [`EXISTS_EXACT_2`].
pub(crate) open spec fn exists_exact_2_words() -> Words {
    word("WHERE"@, word(Column::Hash.name(), word("="@, word(place(1), word("AND"@,
        word(Column::Repository.name(), word("="@, word(place(2), word("AND"@,
        word(Column::Context.name(), word("="@, word(place(3) + Seq::empty(), word("LIMIT"@,
        word("1"@, Words::End))))))))))))))
}

pub(crate) proof fn lemma_exists_exact_2_reads()
    ensures
        EXISTS_EXACT_2@.len() == 61,
        forall|j: int| 0 <= j < 1 ==> blank(#[trigger] EXISTS_EXACT_2@[j]),
        reads(EXISTS_EXACT_2@, 1, exists_exact_2_words(), 61),
{
    reveal_strlit(" WHERE hash = $1 AND repository = $2 AND context = $3 LIMIT 1");
    reveal_strlit("WHERE");
    reveal_strlit("hash");
    reveal_strlit("=");
    reveal_strlit("$");
    reveal_strlit("AND");
    reveal_strlit("repository");
    reveal_strlit("context");
    reveal_strlit("LIMIT");
    reveal_strlit("1");
    let text = EXISTS_EXACT_2@;
    let rest = Words::End;
    let rest = lemma_word(text, 60, "1"@, 61, rest, 61);
    let rest = lemma_word(text, 54, "LIMIT"@, 60, rest, 61);
    let rest = lemma_word(text, 51, place(3) + Seq::empty(), 54, rest, 61);
    let rest = lemma_word(text, 49, "="@, 51, rest, 61);
    let rest = lemma_word(text, 41, Column::Context.name(), 49, rest, 61);
    let rest = lemma_word(text, 37, "AND"@, 41, rest, 61);
    let rest = lemma_word(text, 34, place(2), 37, rest, 61);
    let rest = lemma_word(text, 32, "="@, 34, rest, 61);
    let rest = lemma_word(text, 21, Column::Repository.name(), 32, rest, 61);
    let rest = lemma_word(text, 17, "AND"@, 21, rest, 61);
    let rest = lemma_word(text, 14, place(1), 17, rest, 61);
    let rest = lemma_word(text, 12, "="@, 14, rest, 61);
    let rest = lemma_word(text, 7, Column::Hash.name(), 12, rest, 61);
    let rest = lemma_word(text, 1, "WHERE"@, 7, rest, 61);
}

/// The words of [`EXISTS_REPOSITORY_1`].
pub(crate) open spec fn exists_repository_1_words() -> Words {
    word("SELECT"@, word("1"@, word("FROM"@, Words::End)))
}

pub(crate) proof fn lemma_exists_repository_1_reads()
    ensures
        EXISTS_REPOSITORY_1@.len() == 14,
        blank(EXISTS_REPOSITORY_1@.last()),
        reads(EXISTS_REPOSITORY_1@, 0, exists_repository_1_words(), 14),
{
    reveal_strlit("SELECT 1 FROM ");
    reveal_strlit("SELECT");
    reveal_strlit("1");
    reveal_strlit("FROM");
    let text = EXISTS_REPOSITORY_1@;
    let rest = Words::End;
    let rest = lemma_word(text, 9, "FROM"@, 14, rest, 14);
    let rest = lemma_word(text, 7, "1"@, 9, rest, 14);
    let rest = lemma_word(text, 0, "SELECT"@, 7, rest, 14);
}

/// The words of [`EXISTS_REPOSITORY_2`].
pub(crate) open spec fn exists_repository_2_words() -> Words {
    word("WHERE"@, word(Column::Hash.name(), word("="@, word(place(1), word("AND"@,
        word(Column::Repository.name(), word("="@, word(place(2) + Seq::empty(), word("LIMIT"@,
        word("1"@, Words::End))))))))))
}

pub(crate) proof fn lemma_exists_repository_2_reads()
    ensures
        EXISTS_REPOSITORY_2@.len() == 44,
        forall|j: int| 0 <= j < 1 ==> blank(#[trigger] EXISTS_REPOSITORY_2@[j]),
        reads(EXISTS_REPOSITORY_2@, 1, exists_repository_2_words(), 44),
{
    reveal_strlit(" WHERE hash = $1 AND repository = $2 LIMIT 1");
    reveal_strlit("WHERE");
    reveal_strlit("hash");
    reveal_strlit("=");
    reveal_strlit("$");
    reveal_strlit("AND");
    reveal_strlit("repository");
    reveal_strlit("LIMIT");
    reveal_strlit("1");
    let text = EXISTS_REPOSITORY_2@;
    let rest = Words::End;
    let rest = lemma_word(text, 43, "1"@, 44, rest, 44);
    let rest = lemma_word(text, 37, "LIMIT"@, 43, rest, 44);
    let rest = lemma_word(text, 34, place(2) + Seq::empty(), 37, rest, 44);
    let rest = lemma_word(text, 32, "="@, 34, rest, 44);
    let rest = lemma_word(text, 21, Column::Repository.name(), 32, rest, 44);
    let rest = lemma_word(text, 17, "AND"@, 21, rest, 44);
    let rest = lemma_word(text, 14, place(1), 17, rest, 44);
    let rest = lemma_word(text, 12, "="@, 14, rest, 44);
    let rest = lemma_word(text, 7, Column::Hash.name(), 12, rest, 44);
    let rest = lemma_word(text, 1, "WHERE"@, 7, rest, 44);
}

/// The words of [`EXISTS_HASH_1`].
pub(crate) open spec fn exists_hash_1_words() -> Words {
    word("SELECT"@, word("1"@, word("FROM"@, Words::End)))
}

pub(crate) proof fn lemma_exists_hash_1_reads()
    ensures
        EXISTS_HASH_1@.len() == 14,
        blank(EXISTS_HASH_1@.last()),
        reads(EXISTS_HASH_1@, 0, exists_hash_1_words(), 14),
{
    reveal_strlit("SELECT 1 FROM ");
    reveal_strlit("SELECT");
    reveal_strlit("1");
    reveal_strlit("FROM");
    let text = EXISTS_HASH_1@;
    let rest = Words::End;
    let rest = lemma_word(text, 9, "FROM"@, 14, rest, 14);
    let rest = lemma_word(text, 7, "1"@, 9, rest, 14);
    let rest = lemma_word(text, 0, "SELECT"@, 7, rest, 14);
}

/// The words of [`EXISTS_HASH_2`].
pub(crate) open spec fn exists_hash_2_words() -> Words {
    word("WHERE"@, word(Column::Hash.name(), word("="@, word(place(1) + Seq::empty(), word("LIMIT"@,
        word("1"@, Words::End))))))
}

pub(crate) proof fn lemma_exists_hash_2_reads()
    ensures
        EXISTS_HASH_2@.len() == 24,
        forall|j: int| 0 <= j < 1 ==> blank(#[trigger] EXISTS_HASH_2@[j]),
        reads(EXISTS_HASH_2@, 1, exists_hash_2_words(), 24),
{
    reveal_strlit(" WHERE hash = $1 LIMIT 1");
    reveal_strlit("WHERE");
    reveal_strlit("hash");
    reveal_strlit("=");
    reveal_strlit("$");
    reveal_strlit("LIMIT");
    reveal_strlit("1");
    let text = EXISTS_HASH_2@;
    let rest = Words::End;
    let rest = lemma_word(text, 23, "1"@, 24, rest, 24);
    let rest = lemma_word(text, 17, "LIMIT"@, 23, rest, 24);
    let rest = lemma_word(text, 14, place(1) + Seq::empty(), 17, rest, 24);
    let rest = lemma_word(text, 12, "="@, 14, rest, 24);
    let rest = lemma_word(text, 7, Column::Hash.name(), 12, rest, 24);
    let rest = lemma_word(text, 1, "WHERE"@, 7, rest, 24);
}

/// The words of [`COUNT_ASSOCIATIONS_1`].
pub(crate) open spec fn count_associations_1_words() -> Words {
    word("SELECT"@, word("COUNT(*)"@, word("FROM"@, Words::End)))
}

pub(crate) proof fn lemma_count_associations_1_reads()
    ensures
        COUNT_ASSOCIATIONS_1@.len() == 21,
        blank(COUNT_ASSOCIATIONS_1@.last()),
        reads(COUNT_ASSOCIATIONS_1@, 0, count_associations_1_words(), 21),
{
    reveal_strlit("SELECT COUNT(*) FROM ");
    reveal_strlit("SELECT");
    reveal_strlit("COUNT(*)");
    reveal_strlit("FROM");
    let text = COUNT_ASSOCIATIONS_1@;
    let rest = Words::End;
    let rest = lemma_word(text, 16, "FROM"@, 21, rest, 21);
    let rest = lemma_word(text, 7, "COUNT(*)"@, 16, rest, 21);
    let rest = lemma_word(text, 0, "SELECT"@, 7, rest, 21);
}

/// The words of [`COUNT_ASSOCIATIONS_2`].
pub(crate) open spec fn count_associations_2_words() -> Words {
    word("WHERE"@, word(Column::Hash.name(), word("="@, word(place(1) + Seq::empty(), Words::End))))
}

pub(crate) proof fn lemma_count_associations_2_reads()
    ensures
        COUNT_ASSOCIATIONS_2@.len() == 16,
        forall|j: int| 0 <= j < 1 ==> blank(#[trigger] COUNT_ASSOCIATIONS_2@[j]),
        reads(COUNT_ASSOCIATIONS_2@, 1, count_associations_2_words(), 16),
{
    reveal_strlit(" WHERE hash = $1");
    reveal_strlit("WHERE");
    reveal_strlit("hash");
    reveal_strlit("=");
    reveal_strlit("$");
    let text = COUNT_ASSOCIATIONS_2@;
    let rest = Words::End;
    let rest = lemma_word(text, 14, place(1) + Seq::empty(), 16, rest, 16);
    let rest = lemma_word(text, 12, "="@, 14, rest, 16);
    let rest = lemma_word(text, 7, Column::Hash.name(), 12, rest, 16);
    let rest = lemma_word(text, 1, "WHERE"@, 7, rest, 16);
}

/// The words of [`BATCH_EXACT_1`].
pub(crate) open spec fn batch_exact_1_words() -> Words {
    word("SELECT"@, word("i.hash,"@, word("i.ctx"@, word("FROM"@,
        word("unnest("@ + place(1) + "::bytea[],"@, word(place(2) + "::bytea[])"@, word("AS"@,
        word("i(hash,"@, word("ctx)"@, word("WHERE"@, word("EXISTS"@, word("("@, word("SELECT"@,
        word("1"@, word("FROM"@, Words::End)))))))))))))))
}

pub(crate) proof fn lemma_batch_exact_1_reads()
    ensures
        BATCH_EXACT_1@.len() == 149,
        blank(BATCH_EXACT_1@.last()),
        reads(BATCH_EXACT_1@, 0, batch_exact_1_words(), 149),
{
    reveal_strlit(
        "SELECT i.hash, i.ctx FROM
                unnest($1::bytea[], $2::bytea[]) AS i(hash, ctx)
             WHERE EXISTS (
                SELECT 1 FROM ",
    );
    reveal_strlit("SELECT");
    reveal_strlit("i.hash,");
    reveal_strlit("i.ctx");
    reveal_strlit("FROM");
    reveal_strlit("unnest(");
    reveal_strlit("$");
    reveal_strlit("::bytea[],");
    reveal_strlit("::bytea[])");
    reveal_strlit("AS");
    reveal_strlit("i(hash,");
    reveal_strlit("ctx)");
    reveal_strlit("WHERE");
    reveal_strlit("EXISTS");
    reveal_strlit("(");
    reveal_strlit("1");
    let text = BATCH_EXACT_1@;
    let rest = Words::End;
    let rest = lemma_word(text, 144, "FROM"@, 149, rest, 149);
    let rest = lemma_word(text, 142, "1"@, 144, rest, 149);
    let rest = lemma_word(text, 135, "SELECT"@, 142, rest, 149);
    let rest = lemma_word(text, 117, "("@, 135, rest, 149);
    let rest = lemma_word(text, 110, "EXISTS"@, 117, rest, 149);
    let rest = lemma_word(text, 104, "WHERE"@, 110, rest, 149);
    let rest = lemma_word(text, 86, "ctx)"@, 104, rest, 149);
    let rest = lemma_word(text, 78, "i(hash,"@, 86, rest, 149);
    let rest = lemma_word(text, 75, "AS"@, 78, rest, 149);
    let rest = lemma_word(text, 62, place(2) + "::bytea[])"@, 75, rest, 149);
    let rest = lemma_word(text, 42, "unnest("@ + place(1) + "::bytea[],"@, 62, rest, 149);
    let rest = lemma_word(text, 21, "FROM"@, 42, rest, 149);
    let rest = lemma_word(text, 15, "i.ctx"@, 21, rest, 149);
    let rest = lemma_word(text, 7, "i.hash,"@, 15, rest, 149);
    let rest = lemma_word(text, 0, "SELECT"@, 7, rest, 149);
}

/// The words of [`BATCH_EXACT_2`].
pub(crate) open spec fn batch_exact_2_words() -> Words {
    word("f"@, word("WHERE"@, word("f."@ + Column::Hash.name(), word("="@, word("i.hash"@,
        word("AND"@, word("f."@ + Column::Repository.name(), word("="@, word(place(3), word("AND"@,
        word("f."@ + Column::Context.name(), word("="@, word("i.ctx"@, word(")"@,
        Words::End))))))))))))))
}

pub(crate) proof fn lemma_batch_exact_2_reads()
    ensures
        BATCH_EXACT_2@.len() == 135,
        forall|j: int| 0 <= j < 1 ==> blank(#[trigger] BATCH_EXACT_2@[j]),
        reads(BATCH_EXACT_2@, 1, batch_exact_2_words(), 135),
{
    reveal_strlit(
        " f
                WHERE f.hash = i.hash
                  AND f.repository = $3
                  AND f.context = i.ctx
             )",
    );
    reveal_strlit("f");
    reveal_strlit("WHERE");
    reveal_strlit("f.");
    reveal_strlit("hash");
    reveal_strlit("=");
    reveal_strlit("i.hash");
    reveal_strlit("AND");
    reveal_strlit("repository");
    reveal_strlit("$");
    reveal_strlit("context");
    reveal_strlit("i.ctx");
    reveal_strlit(")");
    let text = BATCH_EXACT_2@;
    let rest = Words::End;
    let rest = lemma_word(text, 134, ")"@, 135, rest, 135);
    let rest = lemma_word(text, 115, "i.ctx"@, 134, rest, 135);
    let rest = lemma_word(text, 113, "="@, 115, rest, 135);
    let rest = lemma_word(text, 103, "f."@ + Column::Context.name(), 113, rest, 135);
    let rest = lemma_word(text, 99, "AND"@, 103, rest, 135);
    let rest = lemma_word(text, 78, place(3), 99, rest, 135);
    let rest = lemma_word(text, 76, "="@, 78, rest, 135);
    let rest = lemma_word(text, 63, "f."@ + Column::Repository.name(), 76, rest, 135);
    let rest = lemma_word(text, 59, "AND"@, 63, rest, 135);
    let rest = lemma_word(text, 34, "i.hash"@, 59, rest, 135);
    let rest = lemma_word(text, 32, "="@, 34, rest, 135);
    let rest = lemma_word(text, 25, "f."@ + Column::Hash.name(), 32, rest, 135);
    let rest = lemma_word(text, 19, "WHERE"@, 25, rest, 135);
    let rest = lemma_word(text, 1, "f"@, 19, rest, 135);
}

/// The words of [`WRITE_METADATA_1`].
pub(crate) open spec fn write_metadata_1_words() -> Words {
    word("INSERT"@, word("INTO"@, Words::End))
}

pub(crate) proof fn lemma_write_metadata_1_reads()
    ensures
        WRITE_METADATA_1@.len() == 12,
        blank(WRITE_METADATA_1@.last()),
        reads(WRITE_METADATA_1@, 0, write_metadata_1_words(), 12),
{
    reveal_strlit("INSERT INTO ");
    reveal_strlit("INSERT");
    reveal_strlit("INTO");
    let text = WRITE_METADATA_1@;
    let rest = Words::End;
    let rest = lemma_word(text, 7, "INTO"@, 12, rest, 12);
    let rest = lemma_word(text, 0, "INSERT"@, 7, rest, 12);
}

/// The words of [`WRITE_METADATA_2`].
pub(crate) open spec fn write_metadata_2_words() -> Words {
    word(item(true, Column::Hash.name(), false), word(item(false, Column::Flags.name(), false),
        word(item(false, Column::SizePayload.name(), false), word(item(false,
        Column::SizeContent.name(), true), word("VALUES"@, word(item(true, place(1), false),
        word(item(false, place(2), false), word(item(false, place(3), false), word(item(false,
        place(4), true), word("ON"@, word("CONFLICT"@, word(item(true, Column::Hash.name(), true),
        word("DO"@, word("UPDATE"@, word("SET"@, word(Column::Flags.name(), word("="@,
        word(listed("EXCLUDED."@ + Column::Flags.name(), false), word(Column::SizePayload.name(),
        word("="@, word(listed("EXCLUDED."@ + Column::SizePayload.name(), false),
        word(Column::SizeContent.name(), word("="@,
        word(listed("EXCLUDED."@ + Column::SizeContent.name(), true),
        Words::End))))))))))))))))))))))))
}

pub(crate) proof fn lemma_write_metadata_2_reads()
    ensures
        WRITE_METADATA_2@.len() == 277,
        forall|j: int| 0 <= j < 1 ==> blank(#[trigger] WRITE_METADATA_2@[j]),
        reads(WRITE_METADATA_2@, 1, write_metadata_2_words(), 277),
{
    reveal_strlit(
        " (hash, flags, size_payload, size_content)
             VALUES ($1, $2, $3, $4)
             ON CONFLICT (hash) DO UPDATE
               SET flags = EXCLUDED.flags,
                   size_payload = EXCLUDED.size_payload,
                   size_content = EXCLUDED.size_content",
    );
    reveal_strlit("hash");
    reveal_strlit("(");
    reveal_strlit(",");
    reveal_strlit("flags");
    reveal_strlit("size_payload");
    reveal_strlit("size_content");
    reveal_strlit(")");
    reveal_strlit("VALUES");
    reveal_strlit("$");
    reveal_strlit("ON");
    reveal_strlit("CONFLICT");
    reveal_strlit("DO");
    reveal_strlit("UPDATE");
    reveal_strlit("SET");
    reveal_strlit("=");
    reveal_strlit("EXCLUDED.");
    let text = WRITE_METADATA_2@;
    let rest = Words::End;
    let rest = lemma_word(text, 256, listed("EXCLUDED."@ + Column::SizeContent.name(), true), 277,
        rest, 277);
    let rest = lemma_word(text, 254, "="@, 256, rest, 277);
    let rest = lemma_word(text, 241, Column::SizeContent.name(), 254, rest, 277);
    let rest = lemma_word(text, 199, listed("EXCLUDED."@ + Column::SizePayload.name(), false), 241,
        rest, 277);
    let rest = lemma_word(text, 197, "="@, 199, rest, 277);
    let rest = lemma_word(text, 184, Column::SizePayload.name(), 197, rest, 277);
    let rest = lemma_word(text, 149, listed("EXCLUDED."@ + Column::Flags.name(), false), 184, rest,
        277);
    let rest = lemma_word(text, 147, "="@, 149, rest, 277);
    let rest = lemma_word(text, 141, Column::Flags.name(), 147, rest, 277);
    let rest = lemma_word(text, 137, "SET"@, 141, rest, 277);
    let rest = lemma_word(text, 115, "UPDATE"@, 137, rest, 277);
    let rest = lemma_word(text, 112, "DO"@, 115, rest, 277);
    let rest = lemma_word(text, 105, item(true, Column::Hash.name(), true), 112, rest, 277);
    let rest = lemma_word(text, 96, "CONFLICT"@, 105, rest, 277);
    let rest = lemma_word(text, 93, "ON"@, 96, rest, 277);
    let rest = lemma_word(text, 76, item(false, place(4), true), 93, rest, 277);
    let rest = lemma_word(text, 72, item(false, place(3), false), 76, rest, 277);
    let rest = lemma_word(text, 68, item(false, place(2), false), 72, rest, 277);
    let rest = lemma_word(text, 63, item(true, place(1), false), 68, rest, 277);
    let rest = lemma_word(text, 56, "VALUES"@, 63, rest, 277);
    let rest = lemma_word(text, 29, item(false, Column::SizeContent.name(), true), 56, rest, 277);
    let rest = lemma_word(text, 15, item(false, Column::SizePayload.name(), false), 29, rest, 277);
    let rest = lemma_word(text, 8, item(false, Column::Flags.name(), false), 15, rest, 277);
    let rest = lemma_word(text, 1, item(true, Column::Hash.name(), false), 8, rest, 277);
}

/// The words of [`UPDATE_METADATA_1`].
pub(crate) open spec fn update_metadata_1_words() -> Words {
    word("UPDATE"@, Words::End)
}

pub(crate) proof fn lemma_update_metadata_1_reads()
    ensures
        UPDATE_METADATA_1@.len() == 7,
        blank(UPDATE_METADATA_1@.last()),
        reads(UPDATE_METADATA_1@, 0, update_metadata_1_words(), 7),
{
    reveal_strlit("UPDATE ");
    reveal_strlit("UPDATE");
    let text = UPDATE_METADATA_1@;
    let rest = Words::End;
    let rest = lemma_word(text, 0, "UPDATE"@, 7, rest, 7);
}

/// The words of [`UPDATE_METADATA_2`].
pub(crate) open spec fn update_metadata_2_words() -> Words {
    word("SET"@, word(Column::Flags.name(), word("="@, word(listed(place(1), false),
        word(Column::SizePayload.name(), word("="@, word(listed(place(2), false),
        word(Column::SizeContent.name(), word("="@, word(listed(place(3), true), word("WHERE"@,
        word(Column::Hash.name(), word("="@, word(place(4), word("AND"@, word(Column::Flags.name(),
        word("="@, word(place(5), word("AND"@, word(Column::SizePayload.name(), word("="@,
        word(place(6), word("AND"@, word(Column::SizeContent.name(), word("="@,
        word(place(7) + Seq::empty(), Words::End))))))))))))))))))))))))))
}

pub(crate) proof fn lemma_update_metadata_2_reads()
    ensures
        UPDATE_METADATA_2@.len() == 199,
        forall|j: int| 0 <= j < 14 ==> blank(#[trigger] UPDATE_METADATA_2@[j]),
        reads(UPDATE_METADATA_2@, 14, update_metadata_2_words(), 199),
{
    reveal_strlit(
        "
             SET flags = $1, size_payload = $2, size_content = $3
             WHERE hash = $4
               AND flags = $5
               AND size_payload = $6
               AND size_content = $7",
    );
    reveal_strlit("SET");
    reveal_strlit("flags");
    reveal_strlit("=");
    reveal_strlit("$");
    reveal_strlit(",");
    reveal_strlit("size_payload");
    reveal_strlit("size_content");
    reveal_strlit("WHERE");
    reveal_strlit("hash");
    reveal_strlit("AND");
    let text = UPDATE_METADATA_2@;
    let rest = Words::End;
    let rest = lemma_word(text, 197, place(7) + Seq::empty(), 199, rest, 199);
    let rest = lemma_word(text, 195, "="@, 197, rest, 199);
    let rest = lemma_word(text, 182, Column::SizeContent.name(), 195, rest, 199);
    let rest = lemma_word(text, 178, "AND"@, 182, rest, 199);
    let rest = lemma_word(text, 160, place(6), 178, rest, 199);
    let rest = lemma_word(text, 158, "="@, 160, rest, 199);
    let rest = lemma_word(text, 145, Column::SizePayload.name(), 158, rest, 199);
    let rest = lemma_word(text, 141, "AND"@, 145, rest, 199);
    let rest = lemma_word(text, 123, place(5), 141, rest, 199);
    let rest = lemma_word(text, 121, "="@, 123, rest, 199);
    let rest = lemma_word(text, 115, Column::Flags.name(), 121, rest, 199);
    let rest = lemma_word(text, 111, "AND"@, 115, rest, 199);
    let rest = lemma_word(text, 93, place(4), 111, rest, 199);
    let rest = lemma_word(text, 91, "="@, 93, rest, 199);
    let rest = lemma_word(text, 86, Column::Hash.name(), 91, rest, 199);
    let rest = lemma_word(text, 80, "WHERE"@, 86, rest, 199);
    let rest = lemma_word(text, 64, listed(place(3), true), 80, rest, 199);
    let rest = lemma_word(text, 62, "="@, 64, rest, 199);
    let rest = lemma_word(text, 49, Column::SizeContent.name(), 62, rest, 199);
    let rest = lemma_word(text, 45, listed(place(2), false), 49, rest, 199);
    let rest = lemma_word(text, 43, "="@, 45, rest, 199);
    let rest = lemma_word(text, 30, Column::SizePayload.name(), 43, rest, 199);
    let rest = lemma_word(text, 26, listed(place(1), false), 30, rest, 199);
    let rest = lemma_word(text, 24, "="@, 26, rest, 199);
    let rest = lemma_word(text, 18, Column::Flags.name(), 24, rest, 199);
    let rest = lemma_word(text, 14, "SET"@, 18, rest, 199);
}

/// The words of [`LOAD_METADATA_1`].
pub(crate) open spec fn load_metadata_1_words() -> Words {
    word("SELECT"@, word(listed(Column::Flags.name(), false),
        word(listed(Column::SizePayload.name(), false), word(listed(Column::SizeContent.name(),
        true), word("FROM"@, Words::End)))))
}

pub(crate) proof fn lemma_load_metadata_1_reads()
    ensures
        LOAD_METADATA_1@.len() == 46,
        blank(LOAD_METADATA_1@.last()),
        reads(LOAD_METADATA_1@, 0, load_metadata_1_words(), 46),
{
    reveal_strlit("SELECT flags, size_payload, size_content FROM ");
    reveal_strlit("SELECT");
    reveal_strlit("flags");
    reveal_strlit(",");
    reveal_strlit("size_payload");
    reveal_strlit("size_content");
    reveal_strlit("FROM");
    let text = LOAD_METADATA_1@;
    let rest = Words::End;
    let rest = lemma_word(text, 41, "FROM"@, 46, rest, 46);
    let rest = lemma_word(text, 28, listed(Column::SizeContent.name(), true), 41, rest, 46);
    let rest = lemma_word(text, 14, listed(Column::SizePayload.name(), false), 28, rest, 46);
    let rest = lemma_word(text, 7, listed(Column::Flags.name(), false), 14, rest, 46);
    let rest = lemma_word(text, 0, "SELECT"@, 7, rest, 46);
}

/// The words of [`LOAD_METADATA_2`].
pub(crate) open spec fn load_metadata_2_words() -> Words {
    word("WHERE"@, word(Column::Hash.name(), word("="@, word(place(1) + Seq::empty(), Words::End))))
}

pub(crate) proof fn lemma_load_metadata_2_reads()
    ensures
        LOAD_METADATA_2@.len() == 16,
        forall|j: int| 0 <= j < 1 ==> blank(#[trigger] LOAD_METADATA_2@[j]),
        reads(LOAD_METADATA_2@, 1, load_metadata_2_words(), 16),
{
    reveal_strlit(" WHERE hash = $1");
    reveal_strlit("WHERE");
    reveal_strlit("hash");
    reveal_strlit("=");
    reveal_strlit("$");
    let text = LOAD_METADATA_2@;
    let rest = Words::End;
    let rest = lemma_word(text, 14, place(1) + Seq::empty(), 16, rest, 16);
    let rest = lemma_word(text, 12, "="@, 14, rest, 16);
    let rest = lemma_word(text, 7, Column::Hash.name(), 12, rest, 16);
    let rest = lemma_word(text, 1, "WHERE"@, 7, rest, 16);
}

/// The words of [`ASSOCIATE_1`].
pub(crate) open spec fn associate_1_words() -> Words {
    word("INSERT"@, word("INTO"@, Words::End))
}

pub(crate) proof fn lemma_associate_1_reads()
    ensures
        ASSOCIATE_1@.len() == 12,
        blank(ASSOCIATE_1@.last()),
        reads(ASSOCIATE_1@, 0, associate_1_words(), 12),
{
    reveal_strlit("INSERT INTO ");
    reveal_strlit("INSERT");
    reveal_strlit("INTO");
    let text = ASSOCIATE_1@;
    let rest = Words::End;
    let rest = lemma_word(text, 7, "INTO"@, 12, rest, 12);
    let rest = lemma_word(text, 0, "INSERT"@, 7, rest, 12);
}

/// The words of [`ASSOCIATE_2`].
pub(crate) open spec fn associate_2_words() -> Words {
    word(item(true, Column::Hash.name(), false), word(item(false, Column::Repository.name(), false),
        word(item(false, Column::Context.name(), true), word("VALUES"@, word(item(true, place(1),
        false), word(item(false, place(2), false), word(item(false, place(3), true), word("ON"@,
        word("CONFLICT"@, word("DO"@, word("NOTHING"@, Words::End)))))))))))
}

pub(crate) proof fn lemma_associate_2_reads()
    ensures
        ASSOCIATE_2@.len() == 97,
        forall|j: int| 0 <= j < 1 ==> blank(#[trigger] ASSOCIATE_2@[j]),
        reads(ASSOCIATE_2@, 1, associate_2_words(), 97),
{
    reveal_strlit(
        " (hash, repository, context)
             VALUES ($1, $2, $3)
             ON CONFLICT DO NOTHING",
    );
    reveal_strlit("hash");
    reveal_strlit("(");
    reveal_strlit(",");
    reveal_strlit("repository");
    reveal_strlit("context");
    reveal_strlit(")");
    reveal_strlit("VALUES");
    reveal_strlit("$");
    reveal_strlit("ON");
    reveal_strlit("CONFLICT");
    reveal_strlit("DO");
    reveal_strlit("NOTHING");
    let text = ASSOCIATE_2@;
    let rest = Words::End;
    let rest = lemma_word(text, 90, "NOTHING"@, 97, rest, 97);
    let rest = lemma_word(text, 87, "DO"@, 90, rest, 97);
    let rest = lemma_word(text, 78, "CONFLICT"@, 87, rest, 97);
    let rest = lemma_word(text, 75, "ON"@, 78, rest, 97);
    let rest = lemma_word(text, 58, item(false, place(3), true), 75, rest, 97);
    let rest = lemma_word(text, 54, item(false, place(2), false), 58, rest, 97);
    let rest = lemma_word(text, 49, item(true, place(1), false), 54, rest, 97);
    let rest = lemma_word(text, 42, "VALUES"@, 49, rest, 97);
    let rest = lemma_word(text, 20, item(false, Column::Context.name(), true), 42, rest, 97);
    let rest = lemma_word(text, 8, item(false, Column::Repository.name(), false), 20, rest, 97);
    let rest = lemma_word(text, 1, item(true, Column::Hash.name(), false), 8, rest, 97);
}

/// The words of [`DELETE_ASSOCIATION_1`].
pub(crate) open spec fn delete_association_1_words() -> Words {
    word("DELETE"@, word("FROM"@, Words::End))
}

pub(crate) proof fn lemma_delete_association_1_reads()
    ensures
        DELETE_ASSOCIATION_1@.len() == 12,
        blank(DELETE_ASSOCIATION_1@.last()),
        reads(DELETE_ASSOCIATION_1@, 0, delete_association_1_words(), 12),
{
    reveal_strlit("DELETE FROM ");
    reveal_strlit("DELETE");
    reveal_strlit("FROM");
    let text = DELETE_ASSOCIATION_1@;
    let rest = Words::End;
    let rest = lemma_word(text, 7, "FROM"@, 12, rest, 12);
    let rest = lemma_word(text, 0, "DELETE"@, 7, rest, 12);
}

/// The words of [`DELETE_ASSOCIATION_2`].
pub(crate) open spec fn delete_association_2_words() -> Words {
    word("WHERE"@, word(Column::Hash.name(), word("="@, word(place(1), word("AND"@,
        word(Column::Repository.name(), word("="@, word(place(2), word("AND"@,
        word(Column::Context.name(), word("="@, word(place(3) + Seq::empty(), Words::End))))))))))))
}

pub(crate) proof fn lemma_delete_association_2_reads()
    ensures
        DELETE_ASSOCIATION_2@.len() == 53,
        forall|j: int| 0 <= j < 1 ==> blank(#[trigger] DELETE_ASSOCIATION_2@[j]),
        reads(DELETE_ASSOCIATION_2@, 1, delete_association_2_words(), 53),
{
    reveal_strlit(" WHERE hash = $1 AND repository = $2 AND context = $3");
    reveal_strlit("WHERE");
    reveal_strlit("hash");
    reveal_strlit("=");
    reveal_strlit("$");
    reveal_strlit("AND");
    reveal_strlit("repository");
    reveal_strlit("context");
    let text = DELETE_ASSOCIATION_2@;
    let rest = Words::End;
    let rest = lemma_word(text, 51, place(3) + Seq::empty(), 53, rest, 53);
    let rest = lemma_word(text, 49, "="@, 51, rest, 53);
    let rest = lemma_word(text, 41, Column::Context.name(), 49, rest, 53);
    let rest = lemma_word(text, 37, "AND"@, 41, rest, 53);
    let rest = lemma_word(text, 34, place(2), 37, rest, 53);
    let rest = lemma_word(text, 32, "="@, 34, rest, 53);
    let rest = lemma_word(text, 21, Column::Repository.name(), 32, rest, 53);
    let rest = lemma_word(text, 17, "AND"@, 21, rest, 53);
    let rest = lemma_word(text, 14, place(1), 17, rest, 53);
    let rest = lemma_word(text, 12, "="@, 14, rest, 53);
    let rest = lemma_word(text, 7, Column::Hash.name(), 12, rest, 53);
    let rest = lemma_word(text, 1, "WHERE"@, 7, rest, 53);
}

/// The words of [`COUNT_METADATA_1`].
pub(crate) open spec fn count_metadata_1_words() -> Words {
    word("SELECT"@, word("COUNT(*)"@, word("FROM"@, Words::End)))
}

pub(crate) proof fn lemma_count_metadata_1_reads()
    ensures
        COUNT_METADATA_1@.len() == 21,
        blank(COUNT_METADATA_1@.last()),
        reads(COUNT_METADATA_1@, 0, count_metadata_1_words(), 21),
{
    reveal_strlit("SELECT COUNT(*) FROM ");
    reveal_strlit("SELECT");
    reveal_strlit("COUNT(*)");
    reveal_strlit("FROM");
    let text = COUNT_METADATA_1@;
    let rest = Words::End;
    let rest = lemma_word(text, 16, "FROM"@, 21, rest, 21);
    let rest = lemma_word(text, 7, "COUNT(*)"@, 16, rest, 21);
    let rest = lemma_word(text, 0, "SELECT"@, 7, rest, 21);
}

} // verus!
