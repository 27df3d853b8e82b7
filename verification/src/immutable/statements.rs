//! The settings of the immutable store and its SQL statements.

use crate::sql::{
    byte_list_view, params_view, splice, SqlParam, SqlParamView, SqlStatement, SqlStatementView,
};
use crate::text::copied_name;
use crate::types::{Address, ContentHash, Context, Fragment, FragmentFlags, RepositoryId};
use vstd::prelude::*;

verus! {

/// How the immutable store is set up.
#[derive(Debug, PartialEq, Eq)]
pub struct PgImmutableStoreSettings {
    /// The table of the associations of hashes with repositories and contexts.
    pub fragments_table: String,
    /// The table of flags and sizes, one row for a hash.
    pub metadata_table: String,
    /// The bucket of the payloads.
    pub bucket: String,
    /// The endpoint of the object store, where it is not the default one.
    pub endpoint_url: Option<String>,
    /// The region of the object store, where it is not the default one.
    pub region: Option<String>,
    /// Write a payload whatever is stored already, and accept stored payloads that carry a
    /// fragment header in front.
    pub force_write: bool,
}

impl Clone for PgImmutableStoreSettings {
    fn clone(&self) -> (copy: Self)
        ensures
            copy == *self,
    {
        PgImmutableStoreSettings {
            fragments_table: self.fragments_table.clone(),
            metadata_table: self.metadata_table.clone(),
            bucket: self.bucket.clone(),
            endpoint_url: copied_name(&self.endpoint_url),
            region: copied_name(&self.region),
            force_write: self.force_write,
        }
    }
}

impl PgImmutableStoreSettings {
    /// Settings for the given tables and bucket, with defaults for the rest.
    pub fn new(fragments_table: String, metadata_table: String, bucket: String) -> (settings: Self)
        ensures
            settings == (PgImmutableStoreSettings {
                fragments_table,
                metadata_table,
                bucket,
                endpoint_url: None,
                region: None,
                force_write: false,
            }),
    {
        PgImmutableStoreSettings {
            fragments_table,
            metadata_table,
            bucket,
            endpoint_url: None,
            region: None,
            force_write: false,
        }
    }

    /// The same settings with another endpoint.
    pub fn with_endpoint(self, endpoint_url: String) -> (settings: Self)
        ensures
            settings == (PgImmutableStoreSettings { endpoint_url: Some(endpoint_url), ..self }),
    {
        PgImmutableStoreSettings { endpoint_url: Some(endpoint_url), ..self }
    }

    /// The same settings with another region.
    pub fn with_region(self, region: String) -> (settings: Self)
        ensures
            settings == (PgImmutableStoreSettings { region: Some(region), ..self }),
    {
        PgImmutableStoreSettings { region: Some(region), ..self }
    }

    /// The same settings with another choice about writing.
    pub fn with_force_write(self, force_write: bool) -> (settings: Self)
        ensures
            settings == (PgImmutableStoreSettings { force_write, ..self }),
    {
        PgImmutableStoreSettings { force_write, ..self }
    }
}

/// What the store's decisions depend on besides the stored data.
#[derive(Clone, Copy, Debug, PartialEq, Eq, Structural)]
pub struct StoreRules {
    pub force_write: bool,
    pub flags: FragmentFlags,
}

/// The immutable store: what it asks of Postgres and of the object store, and what it makes
/// of the answers.
#[derive(Debug, PartialEq, Eq)]
pub struct PgImmutableStore {
    bucket: String,
    fragments_table: String,
    metadata_table: String,
    rules: StoreRules,
}

/// A statement of the immutable store.
#[derive(Clone, Copy, Debug, PartialEq, Eq)]
pub enum ImmutableStatement {
    /// Is the hash associated with the repository and the context?
    ExistsExact { hash: ContentHash, repository: RepositoryId, context: Context },
    /// Is the hash associated with the repository?
    ExistsRepository { hash: ContentHash, repository: RepositoryId },
    /// Is the hash associated with anything?
    ExistsHash { hash: ContentHash },
    /// Count the associations of a hash.
    CountAssociations { hash: ContentHash },
    /// Set the metadata of a hash.
    WriteMetadata { hash: ContentHash, fragment: Fragment },
    /// Replace the expected metadata of a hash.
    UpdateMetadata { hash: ContentHash, updated: Fragment, expected: Fragment },
    /// Read the metadata of a hash.
    LoadMetadata { hash: ContentHash },
    /// Associate a hash with a repository and a context.
    Associate { hash: ContentHash, repository: RepositoryId, context: Context },
    /// Remove an association.
    DeleteAssociation { hash: ContentHash, repository: RepositoryId, context: Context },
    /// Count the hashes that have metadata.
    CountMetadata,
}

pub const FRAGMENTS_SCHEMA_1: &'static str = "CREATE TABLE IF NOT EXISTS ";

pub const FRAGMENTS_SCHEMA_2: &'static str = " (
                hash        BYTEA   NOT NULL,
                repository  BYTEA   NOT NULL,
                context     BYTEA   NOT NULL,
                PRIMARY KEY (hash, repository, context)
            );
            CREATE INDEX IF NOT EXISTS ";

pub const FRAGMENTS_SCHEMA_3: &'static str = "_hash_repository
                ON ";

pub const FRAGMENTS_SCHEMA_4: &'static str = " (hash, repository);
            CREATE INDEX IF NOT EXISTS ";

pub const FRAGMENTS_SCHEMA_5: &'static str = "_hash_idx
                ON ";

pub const FRAGMENTS_SCHEMA_6: &'static str = " (hash);";

pub const METADATA_SCHEMA_1: &'static str = "CREATE TABLE IF NOT EXISTS ";

pub const METADATA_SCHEMA_2: &'static str = " (
                hash         BYTEA   NOT NULL PRIMARY KEY,
                flags        BIGINT  NOT NULL DEFAULT 0,
                size_payload BIGINT  NOT NULL DEFAULT 0,
                size_content BIGINT  NOT NULL DEFAULT 0
            )";

pub const EXISTS_EXACT_1: &'static str = "SELECT 1 FROM ";

pub const EXISTS_EXACT_2: &'static str = " WHERE hash = $1 AND repository = $2 AND context = $3 LIMIT 1";

pub const EXISTS_REPOSITORY_1: &'static str = "SELECT 1 FROM ";

pub const EXISTS_REPOSITORY_2: &'static str = " WHERE hash = $1 AND repository = $2 LIMIT 1";

pub const EXISTS_HASH_1: &'static str = "SELECT 1 FROM ";

pub const EXISTS_HASH_2: &'static str = " WHERE hash = $1 LIMIT 1";

pub const COUNT_ASSOCIATIONS_1: &'static str = "SELECT COUNT(*) FROM ";

pub const COUNT_ASSOCIATIONS_2: &'static str = " WHERE hash = $1";

pub const BATCH_EXACT_1: &'static str = "SELECT i.hash, i.ctx FROM
                unnest($1::bytea[], $2::bytea[]) AS i(hash, ctx)
             WHERE EXISTS (
                SELECT 1 FROM ";

pub const BATCH_EXACT_2: &'static str = " f
                WHERE f.hash = i.hash
                  AND f.repository = $3
                  AND f.context = i.ctx
             )";

pub const WRITE_METADATA_1: &'static str = "INSERT INTO ";

pub const WRITE_METADATA_2: &'static str = " (hash, flags, size_payload, size_content)
             VALUES ($1, $2, $3, $4)
             ON CONFLICT (hash) DO UPDATE
               SET flags = EXCLUDED.flags,
                   size_payload = EXCLUDED.size_payload,
                   size_content = EXCLUDED.size_content";

pub const UPDATE_METADATA_1: &'static str = "UPDATE ";

pub const UPDATE_METADATA_2: &'static str = "
             SET flags = $1, size_payload = $2, size_content = $3
             WHERE hash = $4
               AND flags = $5
               AND size_payload = $6
               AND size_content = $7";

pub const LOAD_METADATA_1: &'static str = "SELECT flags, size_payload, size_content FROM ";

pub const LOAD_METADATA_2: &'static str = " WHERE hash = $1";

pub const ASSOCIATE_1: &'static str = "INSERT INTO ";

pub const ASSOCIATE_2: &'static str = " (hash, repository, context)
             VALUES ($1, $2, $3)
             ON CONFLICT DO NOTHING";

pub const DELETE_ASSOCIATION_1: &'static str = "DELETE FROM ";

pub const DELETE_ASSOCIATION_2: &'static str = " WHERE hash = $1 AND repository = $2 AND context = $3";

pub const COUNT_METADATA_1: &'static str = "SELECT COUNT(*) FROM ";

/// The text that creates the table of associations and its indexes where they are missing.
pub open spec fn fragments_schema_text(table: Seq<char>) -> Seq<char> {
    FRAGMENTS_SCHEMA_1@ + table + FRAGMENTS_SCHEMA_2@ + table + FRAGMENTS_SCHEMA_3@ + table
        + FRAGMENTS_SCHEMA_4@ + table + FRAGMENTS_SCHEMA_5@ + table + FRAGMENTS_SCHEMA_6@
}

/// The text that creates the table of metadata where it is missing.
pub open spec fn metadata_schema_text(table: Seq<char>) -> Seq<char> {
    METADATA_SCHEMA_1@ + table + METADATA_SCHEMA_2@
}

/// The parameters for the metadata of a fragment.
pub open spec fn fragment_params(fragment: Fragment) -> Seq<SqlParamView> {
    seq![
        SqlParamView::BigInt(fragment.flags as i64 as int),
        SqlParamView::BigInt(fragment.size_payload as i64 as int),
        SqlParamView::BigInt(fragment.size_content as i64 as int),
    ]
}

/// The parameters for an association.
pub open spec fn association_params(
    hash: ContentHash,
    repository: RepositoryId,
    context: Context,
) -> Seq<SqlParamView> {
    seq![
        SqlParamView::Bytes(hash@),
        SqlParamView::Bytes(repository@),
        SqlParamView::Bytes(context@),
    ]
}

/// A statement of the immutable store as Postgres gets it, for the given tables.
pub open spec fn immutable_sql(
    fragments: Seq<char>,
    metadata: Seq<char>,
    statement: ImmutableStatement,
) -> SqlStatementView {
    match statement {
        ImmutableStatement::ExistsExact { hash, repository, context } => SqlStatementView {
            text: EXISTS_EXACT_1@ + fragments + EXISTS_EXACT_2@,
            params: association_params(hash, repository, context),
        },
        ImmutableStatement::ExistsRepository { hash, repository } => SqlStatementView {
            text: EXISTS_REPOSITORY_1@ + fragments + EXISTS_REPOSITORY_2@,
            params: seq![SqlParamView::Bytes(hash@), SqlParamView::Bytes(repository@)],
        },
        ImmutableStatement::ExistsHash { hash } => SqlStatementView {
            text: EXISTS_HASH_1@ + fragments + EXISTS_HASH_2@,
            params: seq![SqlParamView::Bytes(hash@)],
        },
        ImmutableStatement::CountAssociations { hash } => SqlStatementView {
            text: COUNT_ASSOCIATIONS_1@ + fragments + COUNT_ASSOCIATIONS_2@,
            params: seq![SqlParamView::Bytes(hash@)],
        },
        ImmutableStatement::WriteMetadata { hash, fragment } => SqlStatementView {
            text: WRITE_METADATA_1@ + metadata + WRITE_METADATA_2@,
            params: seq![SqlParamView::Bytes(hash@)] + fragment_params(fragment),
        },
        ImmutableStatement::UpdateMetadata { hash, updated, expected } => SqlStatementView {
            text: UPDATE_METADATA_1@ + metadata + UPDATE_METADATA_2@,
            params: fragment_params(updated) + seq![SqlParamView::Bytes(hash@)] + fragment_params(
                expected,
            ),
        },
        ImmutableStatement::LoadMetadata { hash } => SqlStatementView {
            text: LOAD_METADATA_1@ + metadata + LOAD_METADATA_2@,
            params: seq![SqlParamView::Bytes(hash@)],
        },
        ImmutableStatement::Associate { hash, repository, context } => SqlStatementView {
            text: ASSOCIATE_1@ + fragments + ASSOCIATE_2@,
            params: association_params(hash, repository, context),
        },
        ImmutableStatement::DeleteAssociation { hash, repository, context } => SqlStatementView {
            text: DELETE_ASSOCIATION_1@ + fragments + DELETE_ASSOCIATION_2@,
            params: association_params(hash, repository, context),
        },
        ImmutableStatement::CountMetadata => SqlStatementView {
            text: COUNT_METADATA_1@ + metadata,
            params: seq![],
        },
    }
}

/// The byte strings of the hashes of addresses.
pub open spec fn address_hashes(addresses: Seq<Address>) -> Seq<Seq<u8>> {
    Seq::new(addresses.len(), |i: int| addresses[i].hash@)
}

/// The byte strings of the contexts of addresses.
pub open spec fn address_contexts(addresses: Seq<Address>) -> Seq<Seq<u8>> {
    Seq::new(addresses.len(), |i: int| addresses[i].context@)
}

/// The question which of the addresses are associated with the repository, as Postgres gets
/// it.
pub open spec fn batch_sql_view(
    fragments: Seq<char>,
    repository: RepositoryId,
    addresses: Seq<Address>,
) -> SqlStatementView {
    SqlStatementView {
        text: BATCH_EXACT_1@ + fragments + BATCH_EXACT_2@,
        params: seq![
            SqlParamView::ByteList(address_hashes(addresses)),
            SqlParamView::ByteList(address_contexts(addresses)),
            SqlParamView::Bytes(repository@),
        ],
    }
}

/// The statement is of the same form, whatever values it carries.
pub open spec fn same_form(a: ImmutableStatement, b: ImmutableStatement) -> bool {
    match (a, b) {
        (ImmutableStatement::ExistsExact { .. }, ImmutableStatement::ExistsExact { .. }) => true,
        (ImmutableStatement::ExistsRepository { .. }, ImmutableStatement::ExistsRepository { .. }) => true,
        (ImmutableStatement::ExistsHash { .. }, ImmutableStatement::ExistsHash { .. }) => true,
        (ImmutableStatement::CountAssociations { .. }, ImmutableStatement::CountAssociations { .. }) => true,
        (ImmutableStatement::WriteMetadata { .. }, ImmutableStatement::WriteMetadata { .. }) => true,
        (ImmutableStatement::UpdateMetadata { .. }, ImmutableStatement::UpdateMetadata { .. }) => true,
        (ImmutableStatement::LoadMetadata { .. }, ImmutableStatement::LoadMetadata { .. }) => true,
        (ImmutableStatement::Associate { .. }, ImmutableStatement::Associate { .. }) => true,
        (ImmutableStatement::DeleteAssociation { .. }, ImmutableStatement::DeleteAssociation { .. }) => true,
        (ImmutableStatement::CountMetadata, ImmutableStatement::CountMetadata) => true,
        _ => false,
    }
}

/// Values that come with a request are bound, never written into the text: statements of one
/// form have one text.
pub proof fn values_are_bound(
    fragments: Seq<char>,
    metadata: Seq<char>,
    a: ImmutableStatement,
    b: ImmutableStatement,
)
    requires
        same_form(a, b),
    ensures
        immutable_sql(fragments, metadata, a).text == immutable_sql(fragments, metadata, b).text,
{
}

fn push_fragment(params: &mut Vec<SqlParam>, fragment: Fragment)
    ensures
        params_view(final(params)@) == params_view(old(params)@) + fragment_params(fragment),
{
    params.push(SqlParam::BigInt(fragment.flags as i64));
    params.push(SqlParam::BigInt(fragment.size_payload as i64));
    params.push(SqlParam::BigInt(fragment.size_content as i64));
    assert(params_view(params@) =~= params_view(old(params)@) + fragment_params(fragment));
}

fn association_values(hash: ContentHash, repository: RepositoryId, context: Context) -> (params: Vec<
    SqlParam,
>)
    ensures
        params_view(params@) == association_params(hash, repository, context),
{
    let mut params: Vec<SqlParam> = Vec::new();
    params.push(SqlParam::Bytes(hash.to_vec()));
    params.push(SqlParam::Bytes(repository.to_vec()));
    params.push(SqlParam::Bytes(context.to_vec()));
    assert(params_view(params@) =~= association_params(hash, repository, context));
    params
}

impl PgImmutableStore {
    /// The table of the associations.
    pub closed spec fn fragments(self) -> Seq<char> {
        self.fragments_table@
    }

    /// The table of the metadata.
    pub closed spec fn metadata(self) -> Seq<char> {
        self.metadata_table@
    }

    /// The bucket of the payloads.
    pub closed spec fn payloads(self) -> Seq<char> {
        self.bucket@
    }

    /// What the store's decisions depend on.
    pub closed spec fn spec_rules(self) -> StoreRules {
        self.rules
    }

    /// A store with the given settings. The flags are those of the host's fragment format.
    pub fn new(settings: &PgImmutableStoreSettings, flags: FragmentFlags) -> (store: Self)
        ensures
            store.fragments() == settings.fragments_table@,
            store.metadata() == settings.metadata_table@,
            store.payloads() == settings.bucket@,
            store.spec_rules() == (StoreRules { force_write: settings.force_write, flags }),
    {
        PgImmutableStore {
            bucket: settings.bucket.clone(),
            fragments_table: settings.fragments_table.clone(),
            metadata_table: settings.metadata_table.clone(),
            rules: StoreRules { force_write: settings.force_write, flags },
        }
    }

    /// What the store's decisions depend on.
    pub fn rules(&self) -> (rules: StoreRules)
        ensures
            rules == self.spec_rules(),
    {
        self.rules
    }

    /// The bucket that payloads are written to and read from.
    pub fn bucket(&self) -> (bucket: &str)
        ensures
            bucket@ == self.payloads(),
    {
        self.bucket.as_str()
    }

    /// The statements that create the tables where they are missing: first those for the
    /// associations, then the one for the metadata.
    pub fn ensure_schema(&self) -> (texts: (String, String))
        ensures
            texts.0@ == fragments_schema_text(self.fragments()),
            texts.1@ == metadata_schema_text(self.metadata()),
    {
        let table = self.fragments_table.as_str();
        let mut text = splice(FRAGMENTS_SCHEMA_1, table, FRAGMENTS_SCHEMA_2);
        text.append(table);
        text.append(FRAGMENTS_SCHEMA_3);
        text.append(table);
        text.append(FRAGMENTS_SCHEMA_4);
        text.append(table);
        text.append(FRAGMENTS_SCHEMA_5);
        text.append(table);
        text.append(FRAGMENTS_SCHEMA_6);
        (text, splice(METADATA_SCHEMA_1, self.metadata_table.as_str(), METADATA_SCHEMA_2))
    }

    /// The statement as Postgres gets it.
    pub fn sql(&self, statement: &ImmutableStatement) -> (sql: SqlStatement)
        ensures
            sql@ == immutable_sql(self.fragments(), self.metadata(), *statement),
    {
        let fragments = self.fragments_table.as_str();
        let metadata = self.metadata_table.as_str();
        let sql = match *statement {
            ImmutableStatement::ExistsExact { hash, repository, context } => SqlStatement {
                text: splice(EXISTS_EXACT_1, fragments, EXISTS_EXACT_2),
                params: association_values(hash, repository, context),
            },
            ImmutableStatement::ExistsRepository { hash, repository } => {
                let mut params: Vec<SqlParam> = Vec::new();
                params.push(SqlParam::Bytes(hash.to_vec()));
                params.push(SqlParam::Bytes(repository.to_vec()));
                SqlStatement {
                    text: splice(EXISTS_REPOSITORY_1, fragments, EXISTS_REPOSITORY_2),
                    params,
                }
            },
            ImmutableStatement::ExistsHash { hash } => {
                let mut params: Vec<SqlParam> = Vec::new();
                params.push(SqlParam::Bytes(hash.to_vec()));
                SqlStatement { text: splice(EXISTS_HASH_1, fragments, EXISTS_HASH_2), params }
            },
            ImmutableStatement::CountAssociations { hash } => {
                let mut params: Vec<SqlParam> = Vec::new();
                params.push(SqlParam::Bytes(hash.to_vec()));
                SqlStatement {
                    text: splice(COUNT_ASSOCIATIONS_1, fragments, COUNT_ASSOCIATIONS_2),
                    params,
                }
            },
            ImmutableStatement::WriteMetadata { hash, fragment } => {
                let mut params: Vec<SqlParam> = Vec::new();
                params.push(SqlParam::Bytes(hash.to_vec()));
                assert(params_view(params@) =~= seq![SqlParamView::Bytes(hash@)]);
                push_fragment(&mut params, fragment);
                SqlStatement { text: splice(WRITE_METADATA_1, metadata, WRITE_METADATA_2), params }
            },
            ImmutableStatement::UpdateMetadata { hash, updated, expected } => {
                let mut params: Vec<SqlParam> = Vec::new();
                assert(params_view(params@) =~= seq![]);
                push_fragment(&mut params, updated);
                assert(params_view(params@) =~= fragment_params(updated));
                params.push(SqlParam::Bytes(hash.to_vec()));
                assert(params_view(params@) =~= fragment_params(updated)
                    + seq![SqlParamView::Bytes(hash@)]);
                push_fragment(&mut params, expected);
                SqlStatement {
                    text: splice(UPDATE_METADATA_1, metadata, UPDATE_METADATA_2),
                    params,
                }
            },
            ImmutableStatement::LoadMetadata { hash } => {
                let mut params: Vec<SqlParam> = Vec::new();
                params.push(SqlParam::Bytes(hash.to_vec()));
                SqlStatement { text: splice(LOAD_METADATA_1, metadata, LOAD_METADATA_2), params }
            },
            ImmutableStatement::Associate { hash, repository, context } => SqlStatement {
                text: splice(ASSOCIATE_1, fragments, ASSOCIATE_2),
                params: association_values(hash, repository, context),
            },
            ImmutableStatement::DeleteAssociation { hash, repository, context } => SqlStatement {
                text: splice(DELETE_ASSOCIATION_1, fragments, DELETE_ASSOCIATION_2),
                params: association_values(hash, repository, context),
            },
            ImmutableStatement::CountMetadata => SqlStatement {
                text: COUNT_METADATA_1.to_owned().concat(metadata),
                params: Vec::new(),
            },
        };
        assert(sql@.params =~= immutable_sql(
            self.fragments(),
            self.metadata(),
            *statement,
        ).params);
        sql
    }

    /// The question which of the addresses are associated with the repository, as Postgres
    /// gets it.
    pub fn batch_sql(&self, repository: RepositoryId, addresses: &[Address]) -> (sql: SqlStatement)
        ensures
            sql@ == batch_sql_view(self.fragments(), repository, addresses@),
    {
        let mut hashes: Vec<Vec<u8>> = Vec::new();
        let mut contexts: Vec<Vec<u8>> = Vec::new();
        let mut i: usize = 0;
        while i < addresses.len()
            invariant
                0 <= i <= addresses@.len(),
                hashes@.len() == i,
                contexts@.len() == i,
                forall|j: int| 0 <= j < i ==> #[trigger] hashes@[j]@ == addresses@[j].hash@,
                forall|j: int| 0 <= j < i ==> #[trigger] contexts@[j]@ == addresses@[j].context@,
            decreases addresses@.len() - i,
        {
            hashes.push(addresses[i].hash.to_vec());
            contexts.push(addresses[i].context.to_vec());
            i = i + 1;
        }
        assert(byte_list_view(hashes@) =~= address_hashes(addresses@));
        assert(byte_list_view(contexts@) =~= address_contexts(addresses@));
        let mut params: Vec<SqlParam> = Vec::new();
        params.push(SqlParam::ByteList(hashes));
        params.push(SqlParam::ByteList(contexts));
        params.push(SqlParam::Bytes(repository.to_vec()));
        let sql = SqlStatement {
            text: splice(BATCH_EXACT_1, self.fragments_table.as_str(), BATCH_EXACT_2),
            params,
        };
        assert(sql@.params =~= batch_sql_view(self.fragments(), repository, addresses@).params);
        sql
    }
}

} // verus!
