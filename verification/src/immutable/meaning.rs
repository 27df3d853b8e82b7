//! That the statements of the immutable store, as Postgres gets them, do to the tables what
//! the rest of the store takes them to do.

use crate::immutable::metadata::{row_of, MetadataRow};
use crate::immutable::put::Association;
use crate::immutable::spelling::{
    associate_1_words, associate_2_words, batch_exact_1_words, batch_exact_2_words,
    count_associations_1_words, count_associations_2_words, count_metadata_1_words,
    delete_association_1_words, delete_association_2_words, exists_exact_1_words,
    exists_exact_2_words, exists_hash_1_words, exists_hash_2_words, exists_repository_1_words,
    exists_repository_2_words, fragments_schema_1_words, fragments_schema_2_words,
    fragments_schema_3_words, fragments_schema_4_words, fragments_schema_5_words,
    fragments_schema_6_words, lemma_associate_1_reads, lemma_associate_2_reads,
    lemma_batch_exact_1_reads, lemma_batch_exact_2_reads, lemma_count_associations_1_reads,
    lemma_count_associations_2_reads, lemma_count_metadata_1_reads,
    lemma_delete_association_1_reads, lemma_delete_association_2_reads,
    lemma_exists_exact_1_reads, lemma_exists_exact_2_reads, lemma_exists_hash_1_reads,
    lemma_exists_hash_2_reads, lemma_exists_repository_1_reads, lemma_exists_repository_2_reads,
    lemma_fragments_schema_1_reads, lemma_fragments_schema_2_reads,
    lemma_fragments_schema_3_reads, lemma_fragments_schema_4_reads,
    lemma_fragments_schema_5_reads, lemma_fragments_schema_6_reads, lemma_load_metadata_1_reads,
    lemma_load_metadata_2_reads, lemma_metadata_schema_1_reads, lemma_metadata_schema_2_reads,
    lemma_update_metadata_1_reads, lemma_update_metadata_2_reads, lemma_write_metadata_1_reads,
    lemma_write_metadata_2_reads, load_metadata_1_words, load_metadata_2_words,
    metadata_schema_1_words, metadata_schema_2_words, update_metadata_1_words,
    update_metadata_2_words, write_metadata_1_words, write_metadata_2_words,
};
use crate::immutable::statements::{
    address_contexts, address_hashes, batch_sql_view, fragments_schema_text, immutable_sql,
    metadata_schema_text, ImmutableStatement, PgImmutableStore, ASSOCIATE_1, ASSOCIATE_2,
    BATCH_EXACT_1, BATCH_EXACT_2, COUNT_ASSOCIATIONS_1, COUNT_ASSOCIATIONS_2, COUNT_METADATA_1,
    DELETE_ASSOCIATION_1, DELETE_ASSOCIATION_2, EXISTS_EXACT_1, EXISTS_EXACT_2, EXISTS_HASH_1,
    EXISTS_HASH_2, EXISTS_REPOSITORY_1, EXISTS_REPOSITORY_2, FRAGMENTS_SCHEMA_1,
    FRAGMENTS_SCHEMA_2, FRAGMENTS_SCHEMA_3, FRAGMENTS_SCHEMA_4, FRAGMENTS_SCHEMA_5,
    FRAGMENTS_SCHEMA_6, LOAD_METADATA_1, LOAD_METADATA_2, METADATA_SCHEMA_1, METADATA_SCHEMA_2,
    UPDATE_METADATA_1, UPDATE_METADATA_2, WRITE_METADATA_1, WRITE_METADATA_2,
};
use crate::immutable::storing::batch_answered;
use crate::immutable::world::World;
use crate::relational::{
    agree, all_of, askable, bracketed, bracketed_end, cells, comes_of, declared, definitions,
    excluded, executes, highest, highest_set, indexes_words, insertable, lemma_named,
    lemma_spliced, meets, names, overwritten, places, primaries, reads, row_set, row_with,
    settable, settings, spells, word, Answer, Column, ColumnType, Command, Condition, Conflict,
    Database, Definition, Index, Outcome, Pairs, Relation, Row, Test, Words,
};
use crate::sql::{SqlParamView, SqlStatement, SqlStatementView};
use crate::types::{
    lemma_context_bytes, lemma_hash_bytes, Address, ContentHash, Context, Fragment, RepositoryId,
};
use vstd::prelude::*;

verus! {

// ---------------------------------------------------------------------------
// The two tables
// ---------------------------------------------------------------------------

/// The row of an association.
pub open spec fn association_row(a: Association) -> Row {
    map![
        Column::Hash => SqlParamView::Bytes(a.address.hash@),
        Column::Repository => SqlParamView::Bytes(a.repository@),
        Column::Context => SqlParamView::Bytes(a.address.context@),
    ]
}

/// The rows of associations.
pub open spec fn association_rows(associations: Set<Association>) -> Set<Row> {
    Set::new(
        |r: Row|
            exists|a: Association| #[trigger] associations.contains(a) && r == association_row(a),
    )
}

/// The table of associations, as it is in Postgres.
pub open spec fn association_relation(associations: Set<Association>) -> Relation {
    Relation {
        columns: map![
            Column::Hash => ColumnType::Bytes,
            Column::Repository => ColumnType::Bytes,
            Column::Context => ColumnType::Bytes,
        ],
        key: set![Column::Hash, Column::Repository, Column::Context],
        rows: association_rows(associations),
    }
}

/// The row of the metadata of a hash.
pub open spec fn metadata_row(hash: ContentHash, row: MetadataRow) -> Row {
    map![
        Column::Hash => SqlParamView::Bytes(hash@),
        Column::Flags => SqlParamView::BigInt(row.flags as int),
        Column::SizePayload => SqlParamView::BigInt(row.size_payload as int),
        Column::SizeContent => SqlParamView::BigInt(row.size_content as int),
    ]
}

/// The rows of the metadata of hashes.
pub open spec fn metadata_rows(metadata: Map<ContentHash, MetadataRow>) -> Set<Row> {
    Set::new(
        |r: Row|
            exists|hash: ContentHash|
                #[trigger] metadata.contains_key(hash) && r == metadata_row(hash, metadata[hash]),
    )
}

/// The table of metadata, as it is in Postgres.
pub open spec fn metadata_relation(metadata: Map<ContentHash, MetadataRow>) -> Relation {
    Relation {
        columns: map![
            Column::Hash => ColumnType::Bytes,
            Column::Flags => ColumnType::BigInt,
            Column::SizePayload => ColumnType::BigInt,
            Column::SizeContent => ColumnType::BigInt,
        ],
        key: set![Column::Hash],
        rows: metadata_rows(metadata),
    }
}

/// Postgres has the two tables under their names, which differ.
pub open spec fn stands(
    database: Database,
    fragments: Seq<char>,
    metadata: Seq<char>,
    world: World,
) -> bool {
    &&& fragments != metadata
    &&& database.contains_key(fragments)
    &&& database[fragments] == association_relation(world.associations)
    &&& database.contains_key(metadata)
    &&& database[metadata] == metadata_relation(world.metadata)
}

/// Executing the statement, as Postgres gets it, leaves the two tables like this, adds,
/// changes or removes so many rows, answers this, and touches no other table.
pub open spec fn statement_does(
    fragments: Seq<char>,
    metadata: Seq<char>,
    database: Database,
    statement: ImmutableStatement,
    after: World,
    changed: nat,
    answer: Answer,
) -> bool {
    exists|outcome: Outcome|
        #[trigger] executes(immutable_sql(fragments, metadata, statement), database, outcome)
            && outcome.database == database.insert(
            fragments,
            association_relation(after.associations),
        ).insert(metadata, metadata_relation(after.metadata)) && outcome.changed == changed
            && outcome.answer == answer
}

/// The association that a row stands for.
spec fn association_of(associations: Set<Association>, row: Row) -> Association {
    choose|a: Association| #[trigger] associations.contains(a) && row == association_row(a)
}

proof fn lemma_association_rows(associations: Set<Association>)
    ensures
        forall|r: Row| #[trigger]
            association_rows(associations).contains(r) ==> associations.contains(
                association_of(associations, r),
            ) && r == association_row(association_of(associations, r)),
        forall|a: Association| #[trigger]
            associations.contains(a) ==> association_rows(associations).contains(
                association_row(a),
            ),
{
    assert forall|r: Row| #[trigger] association_rows(associations).contains(r) implies
        associations.contains(association_of(associations, r)) && r == association_row(
        association_of(associations, r),
    ) by {
        let a = choose|a: Association| #[trigger]
            associations.contains(a) && r == association_row(a);
        assert(associations.contains(a) && r == association_row(a));
    }
}

proof fn lemma_association_row(a: Association, b: Association)
    ensures
        association_row(a) == association_row(b) <==> a == b,
        agree(
            association_row(a),
            association_row(b),
            set![Column::Hash, Column::Repository, Column::Context],
        ) <==> a == b,
{
    lemma_hash_bytes(a.address.hash, b.address.hash);
    lemma_context_bytes(a.repository, b.repository);
    lemma_context_bytes(a.address.context, b.address.context);
    let (x, y) = (association_row(a), association_row(b));
    assert(x[Column::Hash] == SqlParamView::Bytes(a.address.hash@));
    assert(y[Column::Hash] == SqlParamView::Bytes(b.address.hash@));
    assert(x[Column::Repository] == SqlParamView::Bytes(a.repository@));
    assert(y[Column::Repository] == SqlParamView::Bytes(b.repository@));
    assert(x[Column::Context] == SqlParamView::Bytes(a.address.context@));
    assert(y[Column::Context] == SqlParamView::Bytes(b.address.context@));
    let key = set![Column::Hash, Column::Repository, Column::Context];
    assert(key.contains(Column::Hash) && key.contains(Column::Repository) && key.contains(
        Column::Context,
    ));
}

/// The hash that a row of metadata stands for.
spec fn hash_of(metadata: Map<ContentHash, MetadataRow>, row: Row) -> ContentHash {
    choose|hash: ContentHash| #[trigger]
        metadata.contains_key(hash) && row == metadata_row(hash, metadata[hash])
}

proof fn lemma_metadata_rows(metadata: Map<ContentHash, MetadataRow>)
    ensures
        forall|r: Row| #[trigger]
            metadata_rows(metadata).contains(r) ==> metadata.contains_key(hash_of(metadata, r))
                && r == metadata_row(hash_of(metadata, r), metadata[hash_of(metadata, r)]),
        forall|hash: ContentHash| #[trigger]
            metadata.contains_key(hash) ==> metadata_rows(metadata).contains(
                metadata_row(hash, metadata[hash]),
            ),
{
    assert forall|r: Row| #[trigger] metadata_rows(metadata).contains(r) implies
        metadata.contains_key(hash_of(metadata, r)) && r == metadata_row(
        hash_of(metadata, r),
        metadata[hash_of(metadata, r)],
    ) by {
        let hash = choose|hash: ContentHash| #[trigger]
            metadata.contains_key(hash) && r == metadata_row(hash, metadata[hash]);
        assert(metadata.contains_key(hash) && r == metadata_row(hash, metadata[hash]));
    }
}

proof fn lemma_metadata_row(a: ContentHash, v: MetadataRow, b: ContentHash, w: MetadataRow)
    ensures
        metadata_row(a, v) == metadata_row(b, w) <==> a == b && v == w,
        agree(metadata_row(a, v), metadata_row(b, w), set![Column::Hash]) <==> a == b,
{
    lemma_hash_bytes(a, b);
    let (x, y) = (metadata_row(a, v), metadata_row(b, w));
    assert(x[Column::Hash] == SqlParamView::Bytes(a@));
    assert(y[Column::Hash] == SqlParamView::Bytes(b@));
    assert(x[Column::Flags] == SqlParamView::BigInt(v.flags as int));
    assert(y[Column::Flags] == SqlParamView::BigInt(w.flags as int));
    assert(x[Column::SizePayload] == SqlParamView::BigInt(v.size_payload as int));
    assert(y[Column::SizePayload] == SqlParamView::BigInt(w.size_payload as int));
    assert(x[Column::SizeContent] == SqlParamView::BigInt(v.size_content as int));
    assert(y[Column::SizeContent] == SqlParamView::BigInt(w.size_content as int));
    let key = set![Column::Hash];
    assert(key.contains(Column::Hash));
}

// ---------------------------------------------------------------------------
// Associations
// ---------------------------------------------------------------------------

/// The conditions that pick one association.
spec fn exact_conditions() -> Seq<Condition> {
    seq![
        Condition { column: Column::Hash, test: Test::Equal, number: 1 },
        Condition { column: Column::Repository, test: Test::Equal, number: 2 },
        Condition { column: Column::Context, test: Test::Equal, number: 3 },
    ]
}

/// The conditions that pick the associations of a hash in one repository.
spec fn repository_conditions() -> Seq<Condition> {
    seq![
        Condition { column: Column::Hash, test: Test::Equal, number: 1 },
        Condition { column: Column::Repository, test: Test::Equal, number: 2 },
    ]
}

/// The conditions that pick what there is of a hash.
spec fn hash_conditions() -> Seq<Condition> {
    seq![Condition { column: Column::Hash, test: Test::Equal, number: 1 }]
}

proof fn lemma_exact_conditions(
    params: Seq<SqlParamView>,
    associations: Set<Association>,
    wanted: Association,
    a: Association,
)
    requires
        params == seq![
            SqlParamView::Bytes(wanted.address.hash@),
            SqlParamView::Bytes(wanted.repository@),
            SqlParamView::Bytes(wanted.address.context@),
        ],
    ensures
        askable(exact_conditions(), 0, params, association_relation(associations)),
        highest(exact_conditions(), 0) == 3,
        meets(exact_conditions(), 0, params, association_row(a)) <==> a == wanted,
{
    reveal_with_fuel(meets, 4);
    reveal_with_fuel(askable, 4);
    reveal_with_fuel(highest, 4);
    lemma_hash_bytes(a.address.hash, wanted.address.hash);
    lemma_context_bytes(a.repository, wanted.repository);
    lemma_context_bytes(a.address.context, wanted.address.context);
}

proof fn lemma_association_columns()
    ensures
        seq![Column::Hash, Column::Repository, Column::Context].to_set() == set![
            Column::Hash,
            Column::Repository,
            Column::Context,
        ],
{
    let list = seq![Column::Hash, Column::Repository, Column::Context];
    assert(list[0] == Column::Hash && list[1] == Column::Repository && list[2]
        == Column::Context);
    assert(list.to_set() =~= set![Column::Hash, Column::Repository, Column::Context]);
}

/// Associating, as Postgres gets it, adds the association of the hash with the repository
/// and the context, and nothing else.
pub proof fn associate_does(
    fragments: Seq<char>,
    metadata: Seq<char>,
    database: Database,
    world: World,
    hash: ContentHash,
    repository: RepositoryId,
    context: Context,
)
    requires
        stands(database, fragments, metadata, world),
    ensures
        ({
            let a = Association { repository, address: Address { hash, context } };
            statement_does(
                fragments,
                metadata,
                database,
                ImmutableStatement::Associate { hash, repository, context },
                World { associations: world.associations.insert(a), ..world },
                if world.associations.contains(a) {
                    0
                } else {
                    1
                },
                Answer::Nothing,
            )
        }),
{
    let command = Command::Insert {
        table: fragments,
        columns: seq![Column::Hash, Column::Repository, Column::Context],
        conflict: Conflict::Ignore,
    };
    let sql = immutable_sql(
        fragments,
        metadata,
        ImmutableStatement::Associate { hash, repository, context },
    );
    lemma_associate_1_reads();
    lemma_associate_2_reads();
    lemma_named(
        ASSOCIATE_1@,
        fragments,
        ASSOCIATE_2@,
        associate_1_words(),
        associate_2_words(),
        1,
    );
    assert(associate_1_words().followed_by(word(fragments, associate_2_words()))
        == command.words(Words::End)) by {
        reveal_with_fuel(Words::followed_by, 3);
        reveal_with_fuel(bracketed, 4);
        reveal_with_fuel(places, 4);
    }
    let a = Association { repository, address: Address { hash, context } };
    let row = association_row(a);
    let relation = association_relation(world.associations);
    let after = world.associations.insert(a);
    assert(row_with(command->Insert_columns, 0, sql.params) =~= row) by {
        reveal_with_fuel(row_with, 4);
    }
    assert(insertable(command->Insert_columns, 0, sql.params, relation)) by {
        reveal_with_fuel(insertable, 4);
    }
    assert(row.dom() =~= relation.columns.dom());
    lemma_association_rows(world.associations);
    lemma_association_rows(after);
    assert forall|r: Row| #[trigger] relation.rows.contains(r) implies (agree(
        r,
        row,
        relation.key,
    ) <==> association_of(world.associations, r) == a) by {
        lemma_association_row(association_of(world.associations, r), a);
    }
    lemma_association_row(a, a);
    let outcome = command.run(sql.params, database)->0;
    if world.associations.contains(a) {
        assert(relation.rows.contains(row) && agree(row, row, relation.key));
        assert(after =~= world.associations);
    } else {
        let rows = outcome.database[fragments].rows;
        assert forall|r: Row| rows.contains(r) <==> #[trigger] association_rows(after).contains(
            r,
        ) by {
            if association_rows(after).contains(r) && r != row {
                assert(world.associations.contains(association_of(after, r)));
            }
            if association_rows(world.associations).contains(r) {
                assert(after.contains(association_of(world.associations, r)));
            }
            assert(after.contains(a));
        }
        assert(rows =~= association_rows(after));
    }
    assert(outcome.database =~= database.insert(fragments, association_relation(after)).insert(
        metadata,
        metadata_relation(world.metadata),
    ));
    assert(comes_of(command, sql, database, outcome));
    assert(executes(sql, database, outcome));
}

/// Removing an association, as Postgres gets it, removes that of the hash with the repository
/// and the context, and no other.
pub proof fn delete_association_does(
    fragments: Seq<char>,
    metadata: Seq<char>,
    database: Database,
    world: World,
    hash: ContentHash,
    repository: RepositoryId,
    context: Context,
)
    requires
        stands(database, fragments, metadata, world),
    ensures
        ({
            let a = Association { repository, address: Address { hash, context } };
            statement_does(
                fragments,
                metadata,
                database,
                ImmutableStatement::DeleteAssociation { hash, repository, context },
                World { associations: world.associations.remove(a), ..world },
                if world.associations.contains(a) {
                    1
                } else {
                    0
                },
                Answer::Nothing,
            )
        }),
{
    let command = Command::Delete { table: fragments, wanted: exact_conditions() };
    let sql = immutable_sql(
        fragments,
        metadata,
        ImmutableStatement::DeleteAssociation { hash, repository, context },
    );
    lemma_delete_association_1_reads();
    lemma_delete_association_2_reads();
    lemma_named(
        DELETE_ASSOCIATION_1@,
        fragments,
        DELETE_ASSOCIATION_2@,
        delete_association_1_words(),
        delete_association_2_words(),
        1,
    );
    assert(delete_association_1_words().followed_by(
        word(fragments, delete_association_2_words()),
    ) == command.words(Words::End)) by {
        reveal_with_fuel(Words::followed_by, 3);
        reveal_with_fuel(all_of, 4);
    }
    let a = Association { repository, address: Address { hash, context } };
    let relation = association_relation(world.associations);
    let after = world.associations.remove(a);
    lemma_exact_conditions(sql.params, world.associations, a, a);
    lemma_association_rows(world.associations);
    lemma_association_rows(after);
    assert forall|r: Row| #[trigger] relation.rows.contains(r) implies (meets(
        exact_conditions(),
        0,
        sql.params,
        r,
    ) <==> r == association_row(a)) && (r == association_row(a) <==> association_of(
        world.associations,
        r,
    ) == a) by {
        let b = association_of(world.associations, r);
        lemma_exact_conditions(sql.params, world.associations, a, b);
        lemma_association_row(b, a);
    }
    let outcome = command.run(sql.params, database)->0;
    let rows = outcome.database[fragments].rows;
    assert forall|r: Row| rows.contains(r) <==> #[trigger] association_rows(after).contains(r) by {
        if association_rows(after).contains(r) {
            let b = association_of(after, r);
            assert(world.associations.contains(b));
            lemma_association_row(b, a);
        }
        if rows.contains(r) {
            assert(after.contains(association_of(world.associations, r)));
        }
    }
    assert(rows =~= association_rows(after));
    let gone = relation.rows.filter(|r: Row| meets(exact_conditions(), 0, sql.params, r));
    if world.associations.contains(a) {
        assert(gone =~= set![association_row(a)]);
    } else {
        assert(gone =~= Set::empty());
    }
    assert(outcome.database =~= database.insert(fragments, association_relation(after)).insert(
        metadata,
        metadata_relation(world.metadata),
    ));
    assert(comes_of(command, sql, database, outcome));
    assert(executes(sql, database, outcome));
}

/// The association is one that a question asks for.
spec fn asked_for(statement: ImmutableStatement, a: Association) -> bool {
    match statement {
        ImmutableStatement::ExistsExact { hash, repository, context } => a.address.hash@ == hash@
            && a.repository@ == repository@ && a.address.context@ == context@,
        ImmutableStatement::ExistsRepository { hash, repository } => a.address.hash@ == hash@
            && a.repository@ == repository@,
        ImmutableStatement::ExistsHash { hash } => a.address.hash@ == hash@,
        _ => false,
    }
}

proof fn lemma_asked_for(statement: ImmutableStatement, a: Association)
    ensures
        match statement {
            ImmutableStatement::ExistsExact { hash, repository, context } => asked_for(
                statement,
                a,
            ) <==> a == (Association { repository, address: Address { hash, context } }),
            ImmutableStatement::ExistsRepository { hash, repository } => asked_for(statement, a)
                <==> a.repository == repository && a.address.hash == hash,
            ImmutableStatement::ExistsHash { hash } => asked_for(statement, a) <==> a.address.hash
                == hash,
            _ => true,
        },
{
    match statement {
        ImmutableStatement::ExistsExact { hash, repository, context } => {
            lemma_hash_bytes(a.address.hash, hash);
            lemma_context_bytes(a.repository, repository);
            lemma_context_bytes(a.address.context, context);
        },
        ImmutableStatement::ExistsRepository { hash, repository } => {
            lemma_hash_bytes(a.address.hash, hash);
            lemma_context_bytes(a.repository, repository);
        },
        ImmutableStatement::ExistsHash { hash } => {
            lemma_hash_bytes(a.address.hash, hash);
        },
        _ => {},
    }
}

proof fn lemma_found(world: World, statement: ImmutableStatement)
    requires
        statement is ExistsExact || statement is ExistsRepository || statement is ExistsHash,
    ensures
        world.found(statement) <==> exists|a: Association| #[trigger]
            world.associations.contains(a) && asked_for(statement, a),
{
    assert forall|a: Association| #[trigger] world.associations.contains(a) implies (
    statement matches ImmutableStatement::ExistsExact { hash, repository, context } ==> (asked_for(
        statement,
        a,
    ) <==> a == (Association { repository, address: Address { hash, context } }))) && (
    statement matches ImmutableStatement::ExistsRepository { hash, repository } ==> (asked_for(
        statement,
        a,
    ) <==> a.repository == repository && a.address.hash == hash)) && (
    statement matches ImmutableStatement::ExistsHash { hash } ==> (asked_for(statement, a)
        <==> a.address.hash == hash)) by {
        lemma_asked_for(statement, a);
    }
}

proof fn lemma_exact_does(
    fragments: Seq<char>,
    metadata: Seq<char>,
    database: Database,
    world: World,
    statement: ImmutableStatement,
)
    requires
        stands(database, fragments, metadata, world),
        statement is ExistsExact,
    ensures
        statement_does(
            fragments,
            metadata,
            database,
            statement,
            world,
            0,
            Answer::Found(world.found(statement)),
        ),
{
    let command = Command::Find { table: fragments, wanted: exact_conditions() };
    let sql = immutable_sql(fragments, metadata, statement);
    lemma_exists_exact_1_reads();
    lemma_exists_exact_2_reads();
    lemma_named(
        EXISTS_EXACT_1@,
        fragments,
        EXISTS_EXACT_2@,
        exists_exact_1_words(),
        exists_exact_2_words(),
        1,
    );
    assert(exists_exact_1_words().followed_by(word(fragments, exists_exact_2_words()))
        == command.words(Words::End)) by {
        reveal_with_fuel(Words::followed_by, 4);
        reveal_with_fuel(all_of, 4);
    }
    reveal_with_fuel(askable, 4);
    reveal_with_fuel(highest, 4);
    lemma_association_rows(world.associations);
    assert(askable(exact_conditions(), 0, sql.params, association_relation(world.associations)));
    lemma_found(world, statement);
    let outcome = command.run(sql.params, database)->0;
    assert(outcome.answer is Found);
    assert forall|a: Association| #[trigger] world.associations.contains(a) implies (meets(
        exact_conditions(),
        0,
        sql.params,
        association_row(a),
    ) <==> asked_for(statement, a)) by {
        reveal_with_fuel(meets, 4);
        lemma_asked_for(statement, a);
    }
    if world.found(statement) {
        let a = choose|a: Association| #[trigger]
            world.associations.contains(a) && asked_for(statement, a);
        assert(world.associations.contains(a) && asked_for(statement, a));
        assert(database[fragments].rows.contains(association_row(a)));
        assert(meets(exact_conditions(), 0, sql.params, association_row(a)));
    }
    if outcome.answer->Found_0 {
        let r = choose|r: Row| #[trigger]
            association_rows(world.associations).contains(r) && meets(
                exact_conditions(),
                0,
                sql.params,
                r,
            );
        assert(asked_for(statement, association_of(world.associations, r)));
    }
    assert(outcome.answer == Answer::Found(world.found(statement)));
    assert(outcome.database =~= database.insert(
        fragments,
        association_relation(world.associations),
    ).insert(metadata, metadata_relation(world.metadata)));
    assert(comes_of(command, sql, database, outcome));
    assert(executes(sql, database, outcome));
}

proof fn lemma_repository_does(
    fragments: Seq<char>,
    metadata: Seq<char>,
    database: Database,
    world: World,
    statement: ImmutableStatement,
)
    requires
        stands(database, fragments, metadata, world),
        statement is ExistsRepository,
    ensures
        statement_does(
            fragments,
            metadata,
            database,
            statement,
            world,
            0,
            Answer::Found(world.found(statement)),
        ),
{
    let command = Command::Find { table: fragments, wanted: repository_conditions() };
    let sql = immutable_sql(fragments, metadata, statement);
    lemma_exists_repository_1_reads();
    lemma_exists_repository_2_reads();
    lemma_named(
        EXISTS_REPOSITORY_1@,
        fragments,
        EXISTS_REPOSITORY_2@,
        exists_repository_1_words(),
        exists_repository_2_words(),
        1,
    );
    assert(exists_repository_1_words().followed_by(word(fragments, exists_repository_2_words()))
        == command.words(Words::End)) by {
        reveal_with_fuel(Words::followed_by, 4);
        reveal_with_fuel(all_of, 3);
    }
    reveal_with_fuel(askable, 3);
    reveal_with_fuel(highest, 3);
    lemma_association_rows(world.associations);
    assert(askable(repository_conditions(), 0, sql.params,
        association_relation(world.associations)));
    lemma_found(world, statement);
    let outcome = command.run(sql.params, database)->0;
    assert(outcome.answer is Found);
    assert forall|a: Association| #[trigger] world.associations.contains(a) implies (meets(
        repository_conditions(),
        0,
        sql.params,
        association_row(a),
    ) <==> asked_for(statement, a)) by {
        reveal_with_fuel(meets, 3);
        lemma_asked_for(statement, a);
    }
    if world.found(statement) {
        let a = choose|a: Association| #[trigger]
            world.associations.contains(a) && asked_for(statement, a);
        assert(world.associations.contains(a) && asked_for(statement, a));
        assert(database[fragments].rows.contains(association_row(a)));
        assert(meets(repository_conditions(), 0, sql.params, association_row(a)));
    }
    if outcome.answer->Found_0 {
        let r = choose|r: Row| #[trigger]
            association_rows(world.associations).contains(r) && meets(
                repository_conditions(),
                0,
                sql.params,
                r,
            );
        assert(asked_for(statement, association_of(world.associations, r)));
    }
    assert(outcome.answer == Answer::Found(world.found(statement)));
    assert(outcome.database =~= database.insert(
        fragments,
        association_relation(world.associations),
    ).insert(metadata, metadata_relation(world.metadata)));
    assert(comes_of(command, sql, database, outcome));
    assert(executes(sql, database, outcome));
}

proof fn lemma_hash_does(
    fragments: Seq<char>,
    metadata: Seq<char>,
    database: Database,
    world: World,
    statement: ImmutableStatement,
)
    requires
        stands(database, fragments, metadata, world),
        statement is ExistsHash,
    ensures
        statement_does(
            fragments,
            metadata,
            database,
            statement,
            world,
            0,
            Answer::Found(world.found(statement)),
        ),
{
    let command = Command::Find { table: fragments, wanted: hash_conditions() };
    let sql = immutable_sql(fragments, metadata, statement);
    lemma_exists_hash_1_reads();
    lemma_exists_hash_2_reads();
    lemma_named(
        EXISTS_HASH_1@,
        fragments,
        EXISTS_HASH_2@,
        exists_hash_1_words(),
        exists_hash_2_words(),
        1,
    );
    assert(exists_hash_1_words().followed_by(word(fragments, exists_hash_2_words()))
        == command.words(Words::End)) by {
        reveal_with_fuel(Words::followed_by, 4);
        reveal_with_fuel(all_of, 2);
    }
    reveal_with_fuel(askable, 2);
    reveal_with_fuel(highest, 2);
    lemma_association_rows(world.associations);
    assert(askable(hash_conditions(), 0, sql.params, association_relation(world.associations)));
    lemma_found(world, statement);
    let outcome = command.run(sql.params, database)->0;
    assert(outcome.answer is Found);
    assert forall|a: Association| #[trigger] world.associations.contains(a) implies (meets(
        hash_conditions(),
        0,
        sql.params,
        association_row(a),
    ) <==> asked_for(statement, a)) by {
        reveal_with_fuel(meets, 2);
        lemma_asked_for(statement, a);
    }
    if world.found(statement) {
        let a = choose|a: Association| #[trigger]
            world.associations.contains(a) && asked_for(statement, a);
        assert(world.associations.contains(a) && asked_for(statement, a));
        assert(database[fragments].rows.contains(association_row(a)));
        assert(meets(hash_conditions(), 0, sql.params, association_row(a)));
    }
    if outcome.answer->Found_0 {
        let r = choose|r: Row| #[trigger]
            association_rows(world.associations).contains(r) && meets(
                hash_conditions(),
                0,
                sql.params,
                r,
            );
        assert(asked_for(statement, association_of(world.associations, r)));
    }
    assert(outcome.answer == Answer::Found(world.found(statement)));
    assert(outcome.database =~= database.insert(
        fragments,
        association_relation(world.associations),
    ).insert(metadata, metadata_relation(world.metadata)));
    assert(comes_of(command, sql, database, outcome));
    assert(executes(sql, database, outcome));
}

/// A question whether a hash is associated, as Postgres gets it, is answered truthfully: of
/// the hash alone, of the hash and the repository, or of hash, repository and context.
pub proof fn question_does(
    fragments: Seq<char>,
    metadata: Seq<char>,
    database: Database,
    world: World,
    statement: ImmutableStatement,
)
    requires
        stands(database, fragments, metadata, world),
        statement is ExistsExact || statement is ExistsRepository || statement is ExistsHash,
    ensures
        statement_does(
            fragments,
            metadata,
            database,
            statement,
            world,
            0,
            Answer::Found(
                match statement {
                    ImmutableStatement::ExistsExact { hash, repository, context } => {
                        world.associated(repository, Address { hash, context })
                    },
                    ImmutableStatement::ExistsRepository { hash, repository } => {
                        world.in_repository(repository, hash)
                    },
                    ImmutableStatement::ExistsHash { hash } => world.anywhere(hash),
                    _ => false,
                },
            ),
        ),
{
    match statement {
        ImmutableStatement::ExistsExact { .. } => {
            lemma_exact_does(fragments, metadata, database, world, statement);
        },
        ImmutableStatement::ExistsRepository { .. } => {
            lemma_repository_does(fragments, metadata, database, world, statement);
        },
        _ => {
            lemma_hash_does(fragments, metadata, database, world, statement);
        },
    }
}

/// Counting the associations of a hash, as Postgres gets it, answers how many there are.
pub proof fn count_associations_does(
    fragments: Seq<char>,
    metadata: Seq<char>,
    database: Database,
    world: World,
    hash: ContentHash,
)
    requires
        stands(database, fragments, metadata, world),
        world.countable(),
    ensures
        statement_does(
            fragments,
            metadata,
            database,
            ImmutableStatement::CountAssociations { hash },
            world,
            0,
            Answer::Count(world.association_count(hash)),
        ),
{
    let command = Command::Count { table: fragments, wanted: hash_conditions() };
    let sql = immutable_sql(
        fragments,
        metadata,
        ImmutableStatement::CountAssociations { hash },
    );
    lemma_count_associations_1_reads();
    lemma_count_associations_2_reads();
    lemma_named(
        COUNT_ASSOCIATIONS_1@,
        fragments,
        COUNT_ASSOCIATIONS_2@,
        count_associations_1_words(),
        count_associations_2_words(),
        1,
    );
    assert(count_associations_1_words().followed_by(
        word(fragments, count_associations_2_words()),
    ) == command.words(Words::End)) by {
        reveal_with_fuel(Words::followed_by, 4);
        reveal_with_fuel(all_of, 2);
    }
    reveal_with_fuel(askable, 2);
    reveal_with_fuel(highest, 2);
    lemma_association_rows(world.associations);
    let relation = association_relation(world.associations);
    let some = world.associations.filter(|a: Association| a.address.hash == hash);
    let rows = relation.rows.filter(|r: Row| meets(hash_conditions(), 0, sql.params, r));
    let f = |a: Association| association_row(a);
    assert forall|a: Association| #[trigger] world.associations.contains(a) implies (meets(
        hash_conditions(),
        0,
        sql.params,
        association_row(a),
    ) <==> a.address.hash == hash) by {
        reveal_with_fuel(meets, 2);
        lemma_hash_bytes(a.address.hash, hash);
    }
    assert forall|r: Row| rows.contains(r) <==> #[trigger] some.map(f).contains(r) by {
        if rows.contains(r) {
            let a = association_of(world.associations, r);
            assert(world.associations.contains(a) && r == association_row(a));
            assert(some.contains(a) && f(a) == r);
        }
        if some.map(f).contains(r) {
            let a = choose|a: Association| some.contains(a) && r == f(a);
            assert(world.associations.contains(a));
        }
    }
    assert(some.map(f) =~= rows);
    assert forall|a: Association, b: Association|
        some.contains(a) && some.contains(b) && #[trigger] f(a) == #[trigger] f(b) implies a
        == b by {
        lemma_association_row(a, b);
    }
    vstd::set_lib::lemma_map_size(some, rows, f);
    let outcome = command.run(sql.params, database)->0;
    assert(outcome.database =~= database.insert(
        fragments,
        association_relation(world.associations),
    ).insert(metadata, metadata_relation(world.metadata)));
    assert(comes_of(command, sql, database, outcome));
    assert(executes(sql, database, outcome));
}

/// What is associated is found: once an association was made, as Postgres gets it, the
/// question for the same hash, repository and context finds it.
pub proof fn associated_is_found(
    fragments: Seq<char>,
    metadata: Seq<char>,
    database: Database,
    world: World,
    hash: ContentHash,
    repository: RepositoryId,
    context: Context,
)
    requires
        stands(database, fragments, metadata, world),
    ensures
        exists|made: Outcome, asked: Outcome|
            #[trigger] executes(
                immutable_sql(
                    fragments,
                    metadata,
                    ImmutableStatement::Associate { hash, repository, context },
                ),
                database,
                made,
            ) && #[trigger] executes(
                immutable_sql(
                    fragments,
                    metadata,
                    ImmutableStatement::ExistsExact { hash, repository, context },
                ),
                made.database,
                asked,
            ) && asked.answer == Answer::Found(true),
{
    let a = Association { repository, address: Address { hash, context } };
    let associate = ImmutableStatement::Associate { hash, repository, context };
    let ask = ImmutableStatement::ExistsExact { hash, repository, context };
    let after = World { associations: world.associations.insert(a), ..world };
    associate_does(fragments, metadata, database, world, hash, repository, context);
    let made = choose|outcome: Outcome|
        #[trigger] executes(immutable_sql(fragments, metadata, associate), database, outcome)
            && outcome.database == database.insert(
            fragments,
            association_relation(after.associations),
        ).insert(metadata, metadata_relation(after.metadata));
    assert(stands(made.database, fragments, metadata, after));
    question_does(fragments, metadata, made.database, after, ask);
    let asked = choose|outcome: Outcome|
        #[trigger] executes(immutable_sql(fragments, metadata, ask), made.database, outcome)
            && outcome.answer == Answer::Found(true);
    assert(executes(immutable_sql(fragments, metadata, associate), database, made));
    assert(executes(immutable_sql(fragments, metadata, ask), made.database, asked));
}

/// What is removed is gone: once an association was removed, as Postgres gets it, the
/// question for the same hash, repository and context does not find it.
pub proof fn removed_is_gone(
    fragments: Seq<char>,
    metadata: Seq<char>,
    database: Database,
    world: World,
    hash: ContentHash,
    repository: RepositoryId,
    context: Context,
)
    requires
        stands(database, fragments, metadata, world),
    ensures
        exists|removed: Outcome, asked: Outcome|
            #[trigger] executes(
                immutable_sql(
                    fragments,
                    metadata,
                    ImmutableStatement::DeleteAssociation { hash, repository, context },
                ),
                database,
                removed,
            ) && #[trigger] executes(
                immutable_sql(
                    fragments,
                    metadata,
                    ImmutableStatement::ExistsExact { hash, repository, context },
                ),
                removed.database,
                asked,
            ) && asked.answer == Answer::Found(false),
{
    let a = Association { repository, address: Address { hash, context } };
    let remove = ImmutableStatement::DeleteAssociation { hash, repository, context };
    let ask = ImmutableStatement::ExistsExact { hash, repository, context };
    let after = World { associations: world.associations.remove(a), ..world };
    delete_association_does(fragments, metadata, database, world, hash, repository, context);
    let removed = choose|outcome: Outcome|
        #[trigger] executes(immutable_sql(fragments, metadata, remove), database, outcome)
            && outcome.database == database.insert(
            fragments,
            association_relation(after.associations),
        ).insert(metadata, metadata_relation(after.metadata));
    assert(stands(removed.database, fragments, metadata, after));
    question_does(fragments, metadata, removed.database, after, ask);
    let asked = choose|outcome: Outcome|
        #[trigger] executes(immutable_sql(fragments, metadata, ask), removed.database, outcome)
            && outcome.answer == Answer::Found(false);
    assert(executes(immutable_sql(fragments, metadata, remove), database, removed));
    assert(executes(immutable_sql(fragments, metadata, ask), removed.database, asked));
}

// ---------------------------------------------------------------------------
// Metadata
// ---------------------------------------------------------------------------

proof fn lemma_hash_picked(
    params: Seq<SqlParamView>,
    metadata: Map<ContentHash, MetadataRow>,
    hash: ContentHash,
    a: ContentHash,
    v: MetadataRow,
)
    requires
        params == seq![SqlParamView::Bytes(hash@)],
    ensures
        askable(hash_conditions(), 0, params, metadata_relation(metadata)),
        highest(hash_conditions(), 0) == 1,
        meets(hash_conditions(), 0, params, metadata_row(a, v)) <==> a == hash,
{
    reveal_with_fuel(meets, 2);
    reveal_with_fuel(askable, 2);
    reveal_with_fuel(highest, 2);
    lemma_hash_bytes(a, hash);
}

/// Writing metadata, as Postgres gets it, gives the hash the flags and sizes of the fragment,
/// whatever it had, and leaves all other hashes alone.
pub proof fn write_metadata_does(
    fragments: Seq<char>,
    metadata: Seq<char>,
    database: Database,
    world: World,
    hash: ContentHash,
    fragment: Fragment,
)
    requires
        stands(database, fragments, metadata, world),
    ensures
        statement_does(
            fragments,
            metadata,
            database,
            ImmutableStatement::WriteMetadata { hash, fragment },
            World {
                metadata: world.metadata.insert(
                    hash,
                    MetadataRow {
                        flags: fragment.flags as i64,
                        size_payload: fragment.size_payload as i64,
                        size_content: fragment.size_content as i64,
                    },
                ),
                ..world
            },
            1,
            Answer::Nothing,
        ),
{
    let sizes = seq![Column::Flags, Column::SizePayload, Column::SizeContent];
    let command = Command::Insert {
        table: metadata,
        columns: seq![
            Column::Hash,
            Column::Flags,
            Column::SizePayload,
            Column::SizeContent,
        ],
        conflict: Conflict::Replace(seq![Column::Hash], sizes),
    };
    let sql = immutable_sql(
        fragments,
        metadata,
        ImmutableStatement::WriteMetadata { hash, fragment },
    );
    lemma_write_metadata_1_reads();
    lemma_write_metadata_2_reads();
    lemma_named(
        WRITE_METADATA_1@,
        metadata,
        WRITE_METADATA_2@,
        write_metadata_1_words(),
        write_metadata_2_words(),
        1,
    );
    assert(write_metadata_1_words().followed_by(word(metadata, write_metadata_2_words()))
        == command.words(Words::End)) by {
        reveal_with_fuel(Words::followed_by, 3);
        reveal_with_fuel(bracketed, 5);
        reveal_with_fuel(places, 5);
        reveal_with_fuel(excluded, 4);
    }
    let entry = row_of(fragment);
    let row = metadata_row(hash, entry);
    let table = world.metadata;
    let relation = metadata_relation(table);
    let after = table.insert(hash, entry);
    assert(row_with(command->Insert_columns, 0, sql.params) =~= row) by {
        reveal_with_fuel(row_with, 5);
    }
    assert(insertable(command->Insert_columns, 0, sql.params, relation)) by {
        reveal_with_fuel(insertable, 5);
    }
    assert(row.dom() =~= relation.columns.dom());
    assert(seq![Column::Hash].to_set() =~= relation.key) by {
        assert(seq![Column::Hash][0] == Column::Hash);
    }
    lemma_metadata_rows(table);
    lemma_metadata_rows(after);
    assert forall|r: Row| #[trigger] relation.rows.contains(r) implies (agree(
        r,
        row,
        relation.key,
    ) <==> hash_of(table, r) == hash) && (hash_of(table, r) == hash ==> overwritten(
        sizes,
        0,
        r,
        row,
    ) == row) by {
        let a = hash_of(table, r);
        lemma_metadata_row(a, table[a], hash, entry);
        lemma_hash_bytes(a, hash);
        reveal_with_fuel(overwritten, 4);
        assert(a == hash ==> overwritten(sizes, 0, r, row) =~= row);
    }
    let outcome = command.run(sql.params, database)->0;
    let rows = outcome.database[metadata].rows;
    if table.contains_key(hash) {
        let old = metadata_row(hash, table[hash]);
        assert(relation.rows.contains(old));
        lemma_metadata_row(hash_of(table, old), table[hash_of(table, old)], hash, table[hash]);
        assert(agree(old, row, relation.key));
        let clashing = relation.rows.filter(|r: Row| agree(r, row, relation.key));
        assert(clashing =~= set![old]);
    }
    assert forall|r: Row| rows.contains(r) <==> #[trigger] metadata_rows(after).contains(r) by {
        if metadata_rows(after).contains(r) {
            let a = hash_of(after, r);
            if a == hash {
                assert(r == row);
                if table.contains_key(hash) {
                    assert(relation.rows.contains(metadata_row(hash, table[hash])));
                }
            } else {
                assert(table.contains_key(a));
                assert(relation.rows.contains(r));
                lemma_metadata_row(a, table[a], hash_of(table, r), table[hash_of(table, r)]);
            }
        }
        if rows.contains(r) {
            if relation.rows.contains(r) && !agree(r, row, relation.key) {
                assert(after.contains_key(hash_of(table, r)));
            } else {
                assert(r == row);
                assert(after.contains_key(hash));
            }
        }
    }
    assert(rows =~= metadata_rows(after));
    assert(outcome.database =~= database.insert(
        fragments,
        association_relation(world.associations),
    ).insert(metadata, metadata_relation(after)));
    assert(comes_of(command, sql, database, outcome));
    assert(executes(sql, database, outcome));
}

/// The conditions that pick the metadata of a hash, provided that it is the expected one.
spec fn expected_conditions() -> Seq<Condition> {
    seq![
        Condition { column: Column::Hash, test: Test::Equal, number: 4 },
        Condition { column: Column::Flags, test: Test::Equal, number: 5 },
        Condition { column: Column::SizePayload, test: Test::Equal, number: 6 },
        Condition { column: Column::SizeContent, test: Test::Equal, number: 7 },
    ]
}

/// Replacing metadata, as Postgres gets it, gives the hash the new flags and sizes if and
/// only if it has the expected ones, tells by the number of rows whether it did, and leaves
/// all other hashes alone.
pub proof fn update_metadata_does(
    fragments: Seq<char>,
    metadata: Seq<char>,
    database: Database,
    world: World,
    hash: ContentHash,
    updated: Fragment,
    expected: Fragment,
)
    requires
        stands(database, fragments, metadata, world),
    ensures
        ({
            let matches = world.row(hash) == Some(row_of(expected));
            statement_does(
                fragments,
                metadata,
                database,
                ImmutableStatement::UpdateMetadata { hash, updated, expected },
                if matches {
                    World { metadata: world.metadata.insert(hash, row_of(updated)), ..world }
                } else {
                    world
                },
                if matches {
                    1
                } else {
                    0
                },
                Answer::Nothing,
            )
        }),
{
    let set = seq![
        (Column::Flags, 1nat),
        (Column::SizePayload, 2nat),
        (Column::SizeContent, 3nat),
    ];
    let wanted = expected_conditions();
    let command = Command::Update { table: metadata, set, wanted };
    let sql = immutable_sql(
        fragments,
        metadata,
        ImmutableStatement::UpdateMetadata { hash, updated, expected },
    );
    lemma_update_metadata_1_reads();
    lemma_update_metadata_2_reads();
    lemma_named(
        UPDATE_METADATA_1@,
        metadata,
        UPDATE_METADATA_2@,
        update_metadata_1_words(),
        update_metadata_2_words(),
        14,
    );
    assert(update_metadata_1_words().followed_by(word(metadata, update_metadata_2_words()))
        == command.words(Words::End)) by {
        reveal_with_fuel(Words::followed_by, 2);
        reveal_with_fuel(settings, 4);
        reveal_with_fuel(all_of, 5);
    }
    reveal_with_fuel(settable, 4);
    reveal_with_fuel(highest_set, 4);
    reveal_with_fuel(highest, 5);
    reveal_with_fuel(askable, 5);
    let (old_entry, entry) = (row_of(expected), row_of(updated));
    let row = metadata_row(hash, entry);
    let table = world.metadata;
    let relation = metadata_relation(table);
    assert(settable(set, 0, sql.params, relation));
    assert(askable(wanted, 0, sql.params, relation));
    let matches = world.row(hash) == Some(old_entry);
    let after = if matches {
        table.insert(hash, entry)
    } else {
        table
    };
    lemma_metadata_rows(table);
    lemma_metadata_rows(after);
    assert forall|r: Row| #[trigger] relation.rows.contains(r) implies (meets(
        wanted,
        0,
        sql.params,
        r,
    ) <==> hash_of(table, r) == hash && matches) && (hash_of(table, r) == hash ==> row_set(
        set,
        0,
        sql.params,
        r,
    ) == row) by {
        let a = hash_of(table, r);
        reveal_with_fuel(meets, 5);
        reveal_with_fuel(row_set, 4);
        lemma_hash_bytes(a, hash);
        lemma_metadata_row(a, table[a], a, old_entry);
        assert(a == hash ==> row_set(set, 0, sql.params, r) =~= row);
    }
    let outcome = command.run(sql.params, database)->0;
    let rows = outcome.database[metadata].rows;
    let replaced = relation.rows.filter(|r: Row| meets(wanted, 0, sql.params, r));
    if matches {
        let old = metadata_row(hash, table[hash]);
        assert(relation.rows.contains(old));
        lemma_metadata_row(hash_of(table, old), table[hash_of(table, old)], hash, table[hash]);
        assert(replaced =~= set![old]);
    } else {
        assert(replaced =~= Set::empty());
    }
    assert forall|r: Row| rows.contains(r) <==> #[trigger] metadata_rows(after).contains(r) by {
        if metadata_rows(after).contains(r) {
            let a = hash_of(after, r);
            if matches && a == hash {
                assert(relation.rows.contains(metadata_row(hash, table[hash])));
            } else {
                assert(table.contains_key(a));
                assert(relation.rows.contains(r));
                lemma_metadata_row(a, table[a], hash_of(table, r), table[hash_of(table, r)]);
            }
        }
        if rows.contains(r) {
            if relation.rows.contains(r) && !meets(wanted, 0, sql.params, r) {
                assert(after.contains_key(hash_of(table, r)));
            } else {
                assert(r == row);
                assert(after.contains_key(hash));
            }
        }
    }
    assert(rows =~= metadata_rows(after));
    assert(outcome.database =~= database.insert(
        fragments,
        association_relation(world.associations),
    ).insert(metadata, metadata_relation(after)));
    assert(comes_of(command, sql, database, outcome));
    assert(executes(sql, database, outcome));
}

/// The flags and the two sizes of a hash, in this order, or no row where it has none.
pub open spec fn metadata_answer(world: World, hash: ContentHash) -> Answer {
    Answer::Rows(
        match world.row(hash) {
            Some(row) => map![
                metadata_row(hash, row) => seq![
                    SqlParamView::BigInt(row.flags as int),
                    SqlParamView::BigInt(row.size_payload as int),
                    SqlParamView::BigInt(row.size_content as int),
                ],
            ],
            None => Map::empty(),
        },
    )
}

/// Reading metadata, as Postgres gets it, answers the flags and the two sizes of the hash, in
/// this order, or no row where it has none.
pub proof fn load_metadata_does(
    fragments: Seq<char>,
    metadata: Seq<char>,
    database: Database,
    world: World,
    hash: ContentHash,
)
    requires
        stands(database, fragments, metadata, world),
    ensures
        statement_does(
            fragments,
            metadata,
            database,
            ImmutableStatement::LoadMetadata { hash },
            world,
            0,
            metadata_answer(world, hash),
        ),
{
    let columns = seq![Column::Flags, Column::SizePayload, Column::SizeContent];
    let command = Command::Select {
        table: metadata,
        columns,
        wanted: hash_conditions(),
        filled: None,
        pairs: None,
    };
    let sql = immutable_sql(fragments, metadata, ImmutableStatement::LoadMetadata { hash });
    lemma_load_metadata_1_reads();
    lemma_load_metadata_2_reads();
    lemma_named(
        LOAD_METADATA_1@,
        metadata,
        LOAD_METADATA_2@,
        load_metadata_1_words(),
        load_metadata_2_words(),
        1,
    );
    assert(load_metadata_1_words().followed_by(word(metadata, load_metadata_2_words()))
        == command.words(Words::End)) by {
        reveal_with_fuel(Words::followed_by, 6);
        reveal_with_fuel(names, 4);
        reveal_with_fuel(all_of, 2);
    }
    let table = world.metadata;
    lemma_metadata_rows(table);
    lemma_hash_picked(sql.params, table, hash, hash, row_of(Fragment {
        flags: 0,
        size_payload: 0,
        size_content: 0,
    }));
    let outcome = command.run(sql.params, database)->0;
    let shown = outcome.answer->Rows_0;
    assert forall|r: Row| #[trigger] metadata_rows(table).contains(r) implies (shown.contains_key(
        r,
    ) <==> hash_of(table, r) == hash) && (shown.contains_key(r) ==> shown[r] == seq![
        SqlParamView::BigInt(table[hash].flags as int),
        SqlParamView::BigInt(table[hash].size_payload as int),
        SqlParamView::BigInt(table[hash].size_content as int),
    ]) by {
        let a = hash_of(table, r);
        lemma_hash_picked(sql.params, table, hash, a, table[a]);
        reveal_with_fuel(cells, 4);
        if a == hash {
            assert(cells(columns, 0, r) =~= seq![
                SqlParamView::BigInt(table[hash].flags as int),
                SqlParamView::BigInt(table[hash].size_payload as int),
                SqlParamView::BigInt(table[hash].size_content as int),
            ]);
        }
    }
    match world.row(hash) {
        Some(entry) => {
            let row = metadata_row(hash, entry);
            assert(metadata_rows(table).contains(row));
            lemma_metadata_row(hash_of(table, row), table[hash_of(table, row)], hash, entry);
            assert(shown =~= map![
                row => seq![
                    SqlParamView::BigInt(entry.flags as int),
                    SqlParamView::BigInt(entry.size_payload as int),
                    SqlParamView::BigInt(entry.size_content as int),
                ],
            ]);
        },
        None => {
            assert(shown =~= Map::empty());
        },
    }
    assert(outcome.database =~= database.insert(
        fragments,
        association_relation(world.associations),
    ).insert(metadata, metadata_relation(table)));
    assert(comes_of(command, sql, database, outcome));
    assert(executes(sql, database, outcome));
}

/// Counting the hashes, as Postgres gets it, answers how many have metadata.
pub proof fn count_metadata_does(
    fragments: Seq<char>,
    metadata: Seq<char>,
    database: Database,
    world: World,
)
    requires
        stands(database, fragments, metadata, world),
        world.countable(),
    ensures
        statement_does(
            fragments,
            metadata,
            database,
            ImmutableStatement::CountMetadata,
            world,
            0,
            Answer::Count(world.metadata.dom().len()),
        ),
{
    let command = Command::Count { table: metadata, wanted: seq![] };
    let sql = immutable_sql(fragments, metadata, ImmutableStatement::CountMetadata);
    lemma_count_metadata_1_reads();
    let nothing = Seq::<char>::empty();
    assert(reads(nothing, 0, Words::End, 0));
    lemma_named(
        COUNT_METADATA_1@,
        metadata,
        nothing,
        count_metadata_1_words(),
        Words::End,
        0,
    );
    assert(COUNT_METADATA_1@ + metadata + nothing =~= sql.text);
    assert(count_metadata_1_words().followed_by(word(metadata, Words::End)) == command.words(
        Words::End,
    )) by {
        reveal_with_fuel(Words::followed_by, 4);
    }
    let table = world.metadata;
    let relation = metadata_relation(table);
    let rows = relation.rows.filter(|r: Row| meets(seq![], 0, sql.params, r));
    let f = |hash: ContentHash| metadata_row(hash, table[hash]);
    lemma_metadata_rows(table);
    assert forall|r: Row| rows.contains(r) <==> #[trigger] table.dom().map(f).contains(r) by {
        if rows.contains(r) {
            let hash = hash_of(table, r);
            assert(table.dom().contains(hash) && f(hash) == r);
        }
        if table.dom().map(f).contains(r) {
            let hash = choose|hash: ContentHash| table.dom().contains(hash) && r == f(hash);
            assert(table.contains_key(hash));
        }
    }
    assert(table.dom().map(f) =~= rows);
    assert forall|a: ContentHash, b: ContentHash|
        table.dom().contains(a) && table.dom().contains(b) && #[trigger] f(a) == #[trigger] f(
            b,
        ) implies a == b by {
        lemma_metadata_row(a, table[a], b, table[b]);
    }
    vstd::set_lib::lemma_map_size(table.dom(), rows, f);
    let outcome = command.run(sql.params, database)->0;
    assert(outcome.database =~= database.insert(
        fragments,
        association_relation(world.associations),
    ).insert(metadata, metadata_relation(table)));
    assert(comes_of(command, sql, database, outcome));
    assert(executes(sql, database, outcome));
}

// ---------------------------------------------------------------------------
// As a whole
// ---------------------------------------------------------------------------

/// Executing the statement, as Postgres gets it, leaves the two tables as [`World::after`]
/// says, and touches no other table. A replacement of metadata changes as many rows as
/// [`World::changed`] says.
pub open spec fn takes_effect(
    fragments: Seq<char>,
    metadata: Seq<char>,
    database: Database,
    world: World,
    statement: ImmutableStatement,
) -> bool {
    exists|changed: nat, answer: Answer|
        #[trigger] statement_does(
            fragments,
            metadata,
            database,
            statement,
            world.after(statement),
            changed,
            answer,
        ) && (statement is UpdateMetadata ==> changed == world.changed(statement))
}

proof fn lemma_takes_effect(
    fragments: Seq<char>,
    metadata: Seq<char>,
    database: Database,
    world: World,
    statement: ImmutableStatement,
    changed: nat,
    answer: Answer,
)
    requires
        statement_does(
            fragments,
            metadata,
            database,
            statement,
            world.after(statement),
            changed,
            answer,
        ),
        statement is UpdateMetadata ==> changed == world.changed(statement),
    ensures
        takes_effect(fragments, metadata, database, world, statement),
{
}

/// Every statement, as Postgres gets it, does to the two tables what the model of them says.
pub proof fn statement_effect(
    fragments: Seq<char>,
    metadata: Seq<char>,
    database: Database,
    world: World,
    statement: ImmutableStatement,
)
    requires
        stands(database, fragments, metadata, world),
        world.countable(),
    ensures
        takes_effect(fragments, metadata, database, world, statement),
{
    let (changed, answer) = match statement {
        ImmutableStatement::CountAssociations { hash } => {
            count_associations_does(fragments, metadata, database, world, hash);
            (0nat, Answer::Count(world.association_count(hash)))
        },
        ImmutableStatement::WriteMetadata { hash, fragment } => {
            write_metadata_does(fragments, metadata, database, world, hash, fragment);
            (1nat, Answer::Nothing)
        },
        ImmutableStatement::UpdateMetadata { hash, updated, expected } => {
            update_metadata_does(fragments, metadata, database, world, hash, updated, expected);
            (world.changed(statement) as nat, Answer::Nothing)
        },
        ImmutableStatement::LoadMetadata { hash } => {
            load_metadata_does(fragments, metadata, database, world, hash);
            (0nat, metadata_answer(world, hash))
        },
        ImmutableStatement::Associate { hash, repository, context } => {
            associate_does(fragments, metadata, database, world, hash, repository, context);
            let there = world.associated(repository, Address { hash, context });
            (if there { 0nat } else { 1nat }, Answer::Nothing)
        },
        ImmutableStatement::DeleteAssociation { hash, repository, context } => {
            delete_association_does(
                fragments,
                metadata,
                database,
                world,
                hash,
                repository,
                context,
            );
            let there = world.associated(repository, Address { hash, context });
            (if there { 1nat } else { 0nat }, Answer::Nothing)
        },
        ImmutableStatement::CountMetadata => {
            count_metadata_does(fragments, metadata, database, world);
            (0nat, Answer::Count(world.metadata.dom().len()))
        },
        _ => {
            question_does(fragments, metadata, database, world, statement);
            (0nat, Answer::Found(world.found(statement)))
        },
    };
    lemma_takes_effect(fragments, metadata, database, world, statement, changed, answer);
}

// ---------------------------------------------------------------------------
// Batches
// ---------------------------------------------------------------------------

/// One question about many addresses, as Postgres gets it, is answered with the hashes and
/// contexts of those that are associated with the repository, and with no others.
pub proof fn batch_does(
    fragments: Seq<char>,
    metadata: Seq<char>,
    database: Database,
    world: World,
    repository: RepositoryId,
    addresses: Seq<Address>,
)
    requires
        stands(database, fragments, metadata, world),
    ensures
        exists|outcome: Outcome|
            #[trigger] executes(
                batch_sql_view(fragments, repository, addresses),
                database,
                outcome,
            ) && outcome.database == database && (outcome.answer matches Answer::Pairs(pairs)
                && forall|rows: Seq<(Seq<u8>, Seq<u8>)>|
                #![trigger batch_answered(world, repository, addresses, rows)]
                rows.to_set() == pairs ==> batch_answered(world, repository, addresses, rows)),
{
    let lists = Pairs {
        first: Column::Hash,
        second: Column::Context,
        first_number: 1,
        second_number: 2,
    };
    let command = Command::Match {
        table: fragments,
        lists,
        fixed: Column::Repository,
        number: 3,
    };
    let sql = batch_sql_view(fragments, repository, addresses);
    lemma_batch_exact_1_reads();
    lemma_batch_exact_2_reads();
    lemma_named(
        BATCH_EXACT_1@,
        fragments,
        BATCH_EXACT_2@,
        batch_exact_1_words(),
        batch_exact_2_words(),
        1,
    );
    assert(batch_exact_1_words().followed_by(word(fragments, batch_exact_2_words()))
        == command.words(Words::End)) by {
        reveal_with_fuel(Words::followed_by, 20);
    }
    let relation = association_relation(world.associations);
    let outcome = command.run(sql.params, database)->0;
    let pairs = outcome.answer->Pairs_0;
    let hashes = address_hashes(addresses);
    let contexts = address_contexts(addresses);
    lemma_association_rows(world.associations);
    assert forall|address: Address|
        pairs.contains((address.hash@, address.context@)) <==> #[trigger] addresses.contains(
            address,
        ) && world.associated(repository, address) by {
        let pair = (address.hash@, address.context@);
        if pairs.contains(pair) {
            let (i, r) = choose|i: int, r: Row|
                0 <= i < hashes.len() && pair == (hashes[i], contexts[i])
                    && #[trigger] relation.rows.contains(r) && #[trigger] lists.at(
                    sql.params,
                    r,
                    i,
                ) && r[Column::Repository] == sql.params[2];
            let a = association_of(world.associations, r);
            lemma_hash_bytes(addresses[i].hash, address.hash);
            lemma_context_bytes(addresses[i].context, address.context);
            assert(addresses[i] == address);
            lemma_hash_bytes(a.address.hash, address.hash);
            lemma_context_bytes(a.address.context, address.context);
            lemma_context_bytes(a.repository, repository);
            assert(a == (Association { repository, address }));
        }
        if addresses.contains(address) && world.associated(repository, address) {
            let i = choose|i: int| 0 <= i < addresses.len() && addresses[i] == address;
            let r = association_row(Association { repository, address });
            assert(relation.rows.contains(r));
            assert(lists.at(sql.params, r, i));
            assert(pair == (hashes[i], contexts[i]));
        }
    }
    assert forall|rows: Seq<(Seq<u8>, Seq<u8>)>|
        rows.to_set() == pairs implies #[trigger] batch_answered(
        world,
        repository,
        addresses,
        rows,
    ) by {
        assert forall|address: Address| #[trigger]
            rows.contains((address.hash@, address.context@)) <==> addresses.contains(address)
                && world.associated(repository, address) by {
            let pair = (address.hash@, address.context@);
            assert(rows.contains(pair) <==> rows.to_set().contains(pair));
        }
    }
    assert(comes_of(command, sql, database, outcome));
    assert(executes(sql, database, outcome));
}

// ---------------------------------------------------------------------------
// The schema
// ---------------------------------------------------------------------------

/// A column of byte strings.
spec fn bytes_column(column: Column) -> Definition {
    Definition { column, kind: ColumnType::Bytes, primary: false, zero: false }
}

/// A column of numbers that are zero where nothing is said of them.
spec fn number_column(column: Column) -> Definition {
    Definition { column, kind: ColumnType::BigInt, primary: false, zero: true }
}

/// The command that creates the table of associations.
spec fn fragments_command(name: Seq<char>) -> Command {
    Command::Create {
        table: name,
        declares: seq![
            bytes_column(Column::Hash),
            bytes_column(Column::Repository),
            bytes_column(Column::Context),
        ],
        key: seq![Column::Hash, Column::Repository, Column::Context],
        indexes: seq![
            Index {
                suffix: "_hash_repository"@,
                columns: seq![Column::Hash, Column::Repository],
            },
            Index { suffix: "_hash_idx"@, columns: seq![Column::Hash] },
        ],
    }
}

proof fn lemma_fragments_schema_reads(name: Seq<char>)
    ensures
        spells(fragments_schema_text(name), fragments_command(name).words(Words::End)),
{
    lemma_fragments_schema_1_reads();
    lemma_fragments_schema_2_reads();
    lemma_fragments_schema_3_reads();
    lemma_fragments_schema_4_reads();
    lemma_fragments_schema_5_reads();
    lemma_fragments_schema_6_reads();
    let text = FRAGMENTS_SCHEMA_1@;
    let words = fragments_schema_1_words();
    lemma_named(text, name, FRAGMENTS_SCHEMA_2@, words, fragments_schema_2_words(), 1);
    let text = text + name + FRAGMENTS_SCHEMA_2@;
    let words = words.followed_by(word(name, fragments_schema_2_words()));
    assert(text.last() == FRAGMENTS_SCHEMA_2@.last());
    lemma_spliced(text, name, FRAGMENTS_SCHEMA_3@, words, fragments_schema_3_words(), 16, 33);
    let text = text + name + FRAGMENTS_SCHEMA_3@;
    let words = words.followed_by(
        word(name + "_hash_repository"@, fragments_schema_3_words()),
    );
    assert(text.last() == FRAGMENTS_SCHEMA_3@.last());
    lemma_named(text, name, FRAGMENTS_SCHEMA_4@, words, fragments_schema_4_words(), 1);
    let text = text + name + FRAGMENTS_SCHEMA_4@;
    let words = words.followed_by(word(name, fragments_schema_4_words()));
    assert(text.last() == FRAGMENTS_SCHEMA_4@.last());
    lemma_spliced(text, name, FRAGMENTS_SCHEMA_5@, words, fragments_schema_5_words(), 9, 26);
    let text = text + name + FRAGMENTS_SCHEMA_5@;
    let words = words.followed_by(word(name + "_hash_idx"@, fragments_schema_5_words()));
    assert(text.last() == FRAGMENTS_SCHEMA_5@.last());
    lemma_named(text, name, FRAGMENTS_SCHEMA_6@, words, fragments_schema_6_words(), 1);
    let words = words.followed_by(word(name, fragments_schema_6_words()));
    reveal_with_fuel(Words::followed_by, 45);
    reveal_with_fuel(definitions, 4);
    reveal_with_fuel(bracketed, 4);
    reveal_with_fuel(bracketed_end, 3);
    reveal_with_fuel(indexes_words, 3);
    assert(words == fragments_command(name).words(Words::End));
}

/// The schema creates the two tables that the statements are about, without rows, where they
/// are missing, and leaves them alone otherwise.
pub proof fn schema_does(fragments: Seq<char>, metadata: Seq<char>, database: Database)
    ensures
        ({
            let first = if database.contains_key(fragments) {
                database
            } else {
                database.insert(fragments, association_relation(Set::empty()))
            };
            &&& executes(
                SqlStatementView { text: fragments_schema_text(fragments), params: seq![] },
                database,
                Outcome { database: first, changed: 0, answer: Answer::Nothing },
            )
            &&& executes(
                SqlStatementView { text: metadata_schema_text(metadata), params: seq![] },
                first,
                Outcome {
                    database: if first.contains_key(metadata) {
                        first
                    } else {
                        first.insert(metadata, metadata_relation(Map::empty()))
                    },
                    changed: 0,
                    answer: Answer::Nothing,
                },
            )
        }),
{
    let first = if database.contains_key(fragments) {
        database
    } else {
        database.insert(fragments, association_relation(Set::empty()))
    };
    let sql = SqlStatementView { text: fragments_schema_text(fragments), params: seq![] };
    let command = fragments_command(fragments);
    lemma_fragments_schema_reads(fragments);
    reveal_with_fuel(declared, 5);
    reveal_with_fuel(primaries, 5);
    let relation = association_relation(Set::empty());
    let declares = command->Create_declares;
    assert(declared(declares, 0) =~= relation.columns);
    lemma_association_columns();
    assert(command->Create_key.to_set().union(primaries(declares, 0)) =~= relation.key);
    assert(relation.rows =~= Set::empty());
    let outcome = command.run(sql.params, database)->0;
    assert(comes_of(command, sql, database, outcome));

    let declares = seq![
        Definition { column: Column::Hash, kind: ColumnType::Bytes, primary: true, zero: false },
        number_column(Column::Flags),
        number_column(Column::SizePayload),
        number_column(Column::SizeContent),
    ];
    let command = Command::Create {
        table: metadata,
        declares,
        key: seq![],
        indexes: seq![],
    };
    let sql = SqlStatementView { text: metadata_schema_text(metadata), params: seq![] };
    lemma_metadata_schema_1_reads();
    lemma_metadata_schema_2_reads();
    lemma_named(
        METADATA_SCHEMA_1@,
        metadata,
        METADATA_SCHEMA_2@,
        metadata_schema_1_words(),
        metadata_schema_2_words(),
        1,
    );
    assert(metadata_schema_1_words().followed_by(word(metadata, metadata_schema_2_words()))
        == command.words(Words::End)) by {
        reveal_with_fuel(Words::followed_by, 6);
        reveal_with_fuel(definitions, 5);
    }
    let relation = metadata_relation(Map::empty());
    assert(declared(declares, 0) =~= relation.columns);
    assert(command->Create_key.to_set().union(primaries(declares, 0)) =~= relation.key);
    assert(relation.rows =~= Set::empty());
    let outcome = command.run(sql.params, first)->0;
    assert(comes_of(command, sql, first, outcome));
}


// ---------------------------------------------------------------------------
// What is sent
// ---------------------------------------------------------------------------

/// What the store hands out for a statement does what the statement does: it is executed on
/// the tables of the store, with the same effect and the same answer.
pub proof fn sent_as_meant(
    store: PgImmutableStore,
    statement: ImmutableStatement,
    sql: SqlStatement,
    database: Database,
    after: World,
    changed: nat,
    answer: Answer,
)
    requires
        call_ensures(PgImmutableStore::sql, (&store, &statement), sql),
        statement_does(
            store.fragments(),
            store.metadata(),
            database,
            statement,
            after,
            changed,
            answer,
        ),
    ensures
        exists|outcome: Outcome|
            #[trigger] executes(sql@, database, outcome) && outcome.database == database.insert(
                store.fragments(),
                association_relation(after.associations),
            ).insert(store.metadata(), metadata_relation(after.metadata)) && outcome.changed
                == changed && outcome.answer == answer,
{
}

/// What the store hands out to associate a hash makes that association, and what it hands out
/// to remove one removes that one; no other association comes or goes.
pub proof fn sent_associations(
    store: PgImmutableStore,
    association: Association,
    add: SqlStatement,
    take: SqlStatement,
    database: Database,
    world: World,
)
    requires
        call_ensures(
            PgImmutableStore::sql,
            (
                &store,
                &ImmutableStatement::Associate {
                    hash: association.address.hash,
                    repository: association.repository,
                    context: association.address.context,
                },
            ),
            add,
        ),
        call_ensures(
            PgImmutableStore::sql,
            (
                &store,
                &ImmutableStatement::DeleteAssociation {
                    hash: association.address.hash,
                    repository: association.repository,
                    context: association.address.context,
                },
            ),
            take,
        ),
        stands(database, store.fragments(), store.metadata(), world),
    ensures
        exists|outcome: Outcome|
            #[trigger] executes(add@, database, outcome) && outcome.database == database.insert(
                store.fragments(),
                association_relation(world.associations.insert(association)),
            ),
        exists|outcome: Outcome|
            #[trigger] executes(take@, database, outcome) && outcome.database == database.insert(
                store.fragments(),
                association_relation(world.associations.remove(association)),
            ),
{
    let (fragments, metadata) = (store.fragments(), store.metadata());
    let (hash, repository, context) = (
        association.address.hash,
        association.repository,
        association.address.context,
    );
    associate_does(fragments, metadata, database, world, hash, repository, context);
    delete_association_does(fragments, metadata, database, world, hash, repository, context);
    assert forall|after: Set<Association>|
        #![trigger association_relation(after)]
        database.insert(fragments, association_relation(after)).insert(
            metadata,
            metadata_relation(world.metadata),
        ) == database.insert(fragments, association_relation(after)) by {
        assert(database.insert(fragments, association_relation(after)).insert(
            metadata,
            metadata_relation(world.metadata),
        ) =~= database.insert(fragments, association_relation(after)));
    }
}

/// What the store hands out to ask about many addresses at once is answered with those that
/// are associated with the repository, and changes nothing.
pub proof fn sent_batch(
    store: PgImmutableStore,
    repository: RepositoryId,
    addresses: &[Address],
    sql: SqlStatement,
    database: Database,
    world: World,
)
    requires
        call_ensures(PgImmutableStore::batch_sql, (&store, repository, addresses), sql),
        stands(database, store.fragments(), store.metadata(), world),
    ensures
        exists|outcome: Outcome|
            #[trigger] executes(sql@, database, outcome) && outcome.database == database && (
            outcome.answer matches Answer::Pairs(pairs) && forall|rows: Seq<(Seq<u8>, Seq<u8>)>|
                #![trigger batch_answered(world, repository, addresses@, rows)]
                rows.to_set() == pairs ==> batch_answered(world, repository, addresses@, rows)),
{
    batch_does(
        store.fragments(),
        store.metadata(),
        database,
        world,
        repository,
        addresses@,
    );
}

/// What the store hands out as its schema creates its two tables, without rows, where they are
/// missing, and leaves them alone otherwise.
pub proof fn sent_schema(store: PgImmutableStore, texts: (String, String), database: Database)
    requires
        call_ensures(PgImmutableStore::ensure_schema, (&store,), texts),
    ensures
        ({
            let first = if database.contains_key(store.fragments()) {
                database
            } else {
                database.insert(store.fragments(), association_relation(Set::empty()))
            };
            &&& executes(
                SqlStatementView { text: texts.0@, params: seq![] },
                database,
                Outcome { database: first, changed: 0, answer: Answer::Nothing },
            )
            &&& executes(
                SqlStatementView { text: texts.1@, params: seq![] },
                first,
                Outcome {
                    database: if first.contains_key(store.metadata()) {
                        first
                    } else {
                        first.insert(store.metadata(), metadata_relation(Map::empty()))
                    },
                    changed: 0,
                    answer: Answer::Nothing,
                },
            )
        }),
{
    schema_does(store.fragments(), store.metadata(), database);
}

} // verus!
