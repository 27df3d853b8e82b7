//! The plugins through which a server gets the three stores.
//!
//! All three read the same table of settings and pass over what belongs to the others.

use crate::immutable::statements::{PgImmutableStore, PgImmutableStoreSettings, StoreRules};
use crate::lock::statements::{PgLockStore, PgLockStoreSettings};
use crate::mutable::statements::{PgMutableStore, PgMutableStoreSettings};
use crate::text::copied_name;
use crate::types::FragmentFlags;
use vstd::prelude::*;

verus! {

/// The name under which the plugins are chosen.
pub const PLUGIN_NAME: &'static str = "pg";

/// The region of the object store where none is set.
pub const DEFAULT_REGION: &'static str = "auto";

// ---------------------------------------------------------------------------
// Settings
// ---------------------------------------------------------------------------

/// Settings of the immutable store plugin.
#[derive(Debug, PartialEq, Eq)]
pub struct PgImmutableStorePluginConfig {
    /// How to connect to Postgres.
    pub dsn: String,
    /// The bucket of the payloads.
    pub s3_bucket: String,
    /// The endpoint of the object store, where it is not the default one.
    pub s3_endpoint_url: Option<String>,
    /// The region of the object store, where it is not the default one.
    pub s3_region: Option<String>,
    /// Address buckets by path, as most stores other than that of AWS need it.
    pub s3_force_path_style: bool,
    /// The table of the associations.
    pub fragments_table: String,
    /// The table of the metadata.
    pub metadata_table: String,
    /// Write payloads whatever is stored already.
    pub force_write: bool,
}

impl Clone for PgImmutableStorePluginConfig {
    fn clone(&self) -> (copy: Self)
        ensures
            copy == *self,
    {
        PgImmutableStorePluginConfig {
            dsn: self.dsn.clone(),
            s3_bucket: self.s3_bucket.clone(),
            s3_endpoint_url: copied_name(&self.s3_endpoint_url),
            s3_region: copied_name(&self.s3_region),
            s3_force_path_style: self.s3_force_path_style,
            fragments_table: self.fragments_table.clone(),
            metadata_table: self.metadata_table.clone(),
            force_write: self.force_write,
        }
    }
}

/// Settings of the mutable store plugin.
#[derive(Debug, PartialEq, Eq)]
pub struct PgMutableStorePluginConfig {
    /// How to connect to Postgres.
    pub dsn: String,
    /// The table of the keys.
    pub mutable_table: String,
}

impl Clone for PgMutableStorePluginConfig {
    fn clone(&self) -> (copy: Self)
        ensures
            copy == *self,
    {
        PgMutableStorePluginConfig {
            dsn: self.dsn.clone(),
            mutable_table: self.mutable_table.clone(),
        }
    }
}

/// Settings of the lock store plugin.
#[derive(Debug, PartialEq, Eq)]
pub struct PgLockStorePluginConfig {
    /// How to connect to Postgres.
    pub dsn: String,
    /// The table of the locks.
    pub locks_table: String,
}

impl Clone for PgLockStorePluginConfig {
    fn clone(&self) -> (copy: Self)
        ensures
            copy == *self,
    {
        PgLockStorePluginConfig {
            dsn: self.dsn.clone(),
            locks_table: self.locks_table.clone(),
        }
    }
}

/// What addresses buckets by path, unless it is set otherwise.
pub fn default_true() -> (value: bool)
    ensures
        value,
{
    true
}

/// The table of the associations, unless another one is set.
pub fn default_fragments_table() -> (name: String)
    ensures
        name@ == "fragments"@,
{
    "fragments".to_owned()
}

/// The table of the metadata, unless another one is set.
pub fn default_metadata_table() -> (name: String)
    ensures
        name@ == "fragments_meta"@,
{
    "fragments_meta".to_owned()
}

/// The table of the keys, unless another one is set.
pub fn default_mutable_table() -> (name: String)
    ensures
        name@ == "mutable_store"@,
{
    "mutable_store".to_owned()
}

/// The table of the locks, unless another one is set.
pub fn default_locks_table() -> (name: String)
    ensures
        name@ == "locks"@,
{
    "locks".to_owned()
}

/// A name that was set, or the default one.
pub open spec fn name_or(name: Option<String>, default: Seq<char>) -> Seq<char> {
    match name {
        Some(name) => name@,
        None => default,
    }
}

/// The settings of the immutable store as they are written down, with those that may be
/// left out.
#[derive(Debug, PartialEq, Eq)]
pub struct ImmutableSettings {
    pub dsn: String,
    pub s3_bucket: String,
    pub s3_endpoint_url: Option<String>,
    pub s3_region: Option<String>,
    pub s3_force_path_style: Option<bool>,
    pub fragments_table: Option<String>,
    pub metadata_table: Option<String>,
    pub force_write: Option<bool>,
}

impl PgImmutableStorePluginConfig {
    /// These are the settings as they were written down, with defaults for those that were
    /// left out.
    pub open spec fn made_from(self, settings: ImmutableSettings) -> bool {
        &&& self.dsn == settings.dsn
        &&& self.s3_bucket == settings.s3_bucket
        &&& self.s3_endpoint_url == settings.s3_endpoint_url
        &&& self.s3_region == settings.s3_region
        &&& self.s3_force_path_style == (settings.s3_force_path_style != Some(false))
        &&& self.fragments_table@ == name_or(settings.fragments_table, "fragments"@)
        &&& self.metadata_table@ == name_or(settings.metadata_table, "fragments_meta"@)
        &&& self.force_write == (settings.force_write == Some(true))
    }

    /// The settings, with defaults for those that were left out.
    pub fn from_settings(settings: ImmutableSettings) -> (config: Self)
        ensures
            config.made_from(settings),
    {
        PgImmutableStorePluginConfig {
            dsn: settings.dsn,
            s3_bucket: settings.s3_bucket,
            s3_endpoint_url: settings.s3_endpoint_url,
            s3_region: settings.s3_region,
            s3_force_path_style: match settings.s3_force_path_style {
                Some(force) => force,
                None => default_true(),
            },
            fragments_table: match settings.fragments_table {
                Some(name) => name,
                None => default_fragments_table(),
            },
            metadata_table: match settings.metadata_table {
                Some(name) => name,
                None => default_metadata_table(),
            },
            force_write: match settings.force_write {
                Some(force) => force,
                None => false,
            },
        }
    }

    /// The region to use.
    pub fn region(&self) -> (region: &str)
        ensures
            region@ == match self.s3_region {
                Some(region) => region@,
                None => DEFAULT_REGION@,
            },
    {
        match &self.s3_region {
            Some(region) => region.as_str(),
            None => DEFAULT_REGION,
        }
    }

    /// The settings of the store.
    pub fn store_settings(self) -> (settings: PgImmutableStoreSettings)
        ensures
            settings == (PgImmutableStoreSettings {
                fragments_table: self.fragments_table,
                metadata_table: self.metadata_table,
                bucket: self.s3_bucket,
                endpoint_url: self.s3_endpoint_url,
                region: self.s3_region,
                force_write: self.force_write,
            }),
    {
        let mut settings = PgImmutableStoreSettings::new(
            self.fragments_table,
            self.metadata_table,
            self.s3_bucket,
        );
        if let Some(endpoint) = self.s3_endpoint_url {
            settings = settings.with_endpoint(endpoint);
        }
        if let Some(region) = self.s3_region {
            settings = settings.with_region(region);
        }
        settings.with_force_write(self.force_write)
    }
}

impl PgMutableStorePluginConfig {
    /// The settings, with a default for the table if it was left out.
    pub fn from_settings(dsn: String, mutable_table: Option<String>) -> (config: Self)
        ensures
            config.dsn == dsn,
            config.mutable_table@ == name_or(mutable_table, "mutable_store"@),
    {
        PgMutableStorePluginConfig {
            dsn,
            mutable_table: match mutable_table {
                Some(name) => name,
                None => default_mutable_table(),
            },
        }
    }

    /// The settings of the store.
    pub fn store_settings(self) -> (settings: PgMutableStoreSettings)
        ensures
            settings.table_name == self.mutable_table,
    {
        PgMutableStoreSettings::new(self.mutable_table)
    }
}

impl PgLockStorePluginConfig {
    /// The settings, with a default for the table if it was left out.
    pub fn from_settings(dsn: String, locks_table: Option<String>) -> (config: Self)
        ensures
            config.dsn == dsn,
            config.locks_table@ == name_or(locks_table, "locks"@),
    {
        PgLockStorePluginConfig {
            dsn,
            locks_table: match locks_table {
                Some(name) => name,
                None => default_locks_table(),
            },
        }
    }

    /// The settings of the store.
    pub fn store_settings(self) -> (settings: PgLockStoreSettings)
        ensures
            settings.table_name == self.locks_table,
    {
        PgLockStoreSettings::new(self.locks_table)
    }
}

// ---------------------------------------------------------------------------
// Errors
// ---------------------------------------------------------------------------

/// The kinds of stores, as error messages name them.
#[derive(Clone, Copy, Debug, PartialEq, Eq, Structural)]
pub enum StoreKind {
    Immutable,
    Mutable,
    Lock,
}

impl StoreKind {
    /// The name of the kind.
    pub open spec fn spec_label(self) -> Seq<char> {
        match self {
            StoreKind::Immutable => "immutable"@,
            StoreKind::Mutable => "mutable"@,
            StoreKind::Lock => "lock"@,
        }
    }

    /// The name of the kind.
    pub fn label(&self) -> (label: &'static str)
        ensures
            label@ == self.spec_label(),
    {
        match *self {
            StoreKind::Immutable => "immutable",
            StoreKind::Mutable => "mutable",
            StoreKind::Lock => "lock",
        }
    }
}

/// Why a plugin could not provide its store.
#[derive(Debug, PartialEq, Eq)]
pub enum PluginError {
    /// The settings cannot be read.
    Config { plugin_name: String, message: String },
    /// The store cannot be set up.
    Init { plugin_name: String, message: String },
}

/// Why a plugin could not provide its store, in terms of the texts.
pub enum PluginErrorView {
    Config { plugin_name: Seq<char>, message: Seq<char> },
    Init { plugin_name: Seq<char>, message: Seq<char> },
}

impl View for PluginError {
    type V = PluginErrorView;

    open spec fn view(&self) -> PluginErrorView {
        match *self {
            PluginError::Config { plugin_name, message } => PluginErrorView::Config {
                plugin_name: plugin_name@,
                message: message@,
            },
            PluginError::Init { plugin_name, message } => PluginErrorView::Init {
                plugin_name: plugin_name@,
                message: message@,
            },
        }
    }
}

/// The error for settings that cannot be read.
pub open spec fn config_failure(kind: StoreKind, cause: Seq<char>) -> PluginErrorView {
    PluginErrorView::Config {
        plugin_name: PLUGIN_NAME@,
        message: "Failed to deserialize pg "@ + kind.spec_label() + " store config: "@ + cause,
    }
}

/// The error for a store that cannot be set up.
pub open spec fn init_failure(kind: StoreKind, cause: Seq<char>) -> PluginErrorView {
    PluginErrorView::Init {
        plugin_name: PLUGIN_NAME@,
        message: "Failed to create pg "@ + kind.spec_label() + " store: "@ + cause,
    }
}

/// The error for settings that cannot be read.
pub fn config_error(kind: StoreKind, cause: &str) -> (error: PluginError)
    ensures
        error@ == config_failure(kind, cause@),
{
    let mut message = "Failed to deserialize pg ".to_owned();
    message.append(kind.label());
    message.append(" store config: ");
    message.append(cause);
    PluginError::Config { plugin_name: PLUGIN_NAME.to_owned(), message }
}

/// The error for a store that cannot be set up.
pub fn init_error(kind: StoreKind, cause: &str) -> (error: PluginError)
    ensures
        error@ == init_failure(kind, cause@),
{
    let mut message = "Failed to create pg ".to_owned();
    message.append(kind.label());
    message.append(" store: ");
    message.append(cause);
    PluginError::Init { plugin_name: PLUGIN_NAME.to_owned(), message }
}

// ---------------------------------------------------------------------------
// Factories
// ---------------------------------------------------------------------------

/// Provides immutable stores.
#[derive(Clone, Copy, Debug, PartialEq, Eq, Structural)]
pub struct PgImmutableStorePluginFactory;

/// Provides mutable stores.
#[derive(Clone, Copy, Debug, PartialEq, Eq, Structural)]
pub struct PgMutableStorePluginFactory;

/// Provides lock stores.
#[derive(Clone, Copy, Debug, PartialEq, Eq, Structural)]
pub struct PgLockStorePluginFactory;

impl PgImmutableStorePluginFactory {
    /// The name of the plugin.
    pub fn name(&self) -> (name: &'static str)
        ensures
            name@ == PLUGIN_NAME@,
    {
        PLUGIN_NAME
    }

    /// The settings to create a store with, from those that were read, or could not be.
    pub fn configure(&self, read: Result<ImmutableSettings, String>) -> (config: Result<
        PgImmutableStorePluginConfig,
        PluginError,
    >)
        ensures
            config is Ok <==> read is Ok,
            config matches Ok(c) ==> c.made_from(read->Ok_0),
            config matches Err(e) ==> e@ == config_failure(StoreKind::Immutable, read->Err_0@),
    {
        match read {
            Ok(settings) => Ok(PgImmutableStorePluginConfig::from_settings(settings)),
            Err(cause) => Err(config_error(StoreKind::Immutable, cause.as_str())),
        }
    }

    /// Whether the settings can be read.
    pub fn validate_config(&self, read: Result<ImmutableSettings, String>) -> (result: Result<
        (),
        PluginError,
    >)
        ensures
            result is Ok <==> read is Ok,
            result matches Err(e) ==> e@ == config_failure(StoreKind::Immutable, read->Err_0@),
    {
        match self.configure(read) {
            Ok(_) => Ok(()),
            Err(e) => Err(e),
        }
    }
}

impl PgMutableStorePluginFactory {
    /// The name of the plugin.
    pub fn name(&self) -> (name: &'static str)
        ensures
            name@ == PLUGIN_NAME@,
    {
        PLUGIN_NAME
    }

    /// The settings to create a store with, from the connection and the table that were
    /// read, or could not be.
    pub fn configure(&self, read: Result<(String, Option<String>), String>) -> (config: Result<
        PgMutableStorePluginConfig,
        PluginError,
    >)
        ensures
            config is Ok <==> read is Ok,
            config matches Ok(c) ==> c.dsn == read->Ok_0.0 && c.mutable_table@ == name_or(
                read->Ok_0.1,
                "mutable_store"@,
            ),
            config matches Err(e) ==> e@ == config_failure(StoreKind::Mutable, read->Err_0@),
    {
        match read {
            Ok(settings) => Ok(PgMutableStorePluginConfig::from_settings(settings.0, settings.1)),
            Err(cause) => Err(config_error(StoreKind::Mutable, cause.as_str())),
        }
    }

    /// Whether the settings can be read.
    pub fn validate_config(&self, read: Result<(String, Option<String>), String>) -> (result:
        Result<(), PluginError>)
        ensures
            result is Ok <==> read is Ok,
            result matches Err(e) ==> e@ == config_failure(StoreKind::Mutable, read->Err_0@),
    {
        match self.configure(read) {
            Ok(_) => Ok(()),
            Err(e) => Err(e),
        }
    }
}

impl PgLockStorePluginFactory {
    /// The name of the plugin.
    pub fn name(&self) -> (name: &'static str)
        ensures
            name@ == PLUGIN_NAME@,
    {
        PLUGIN_NAME
    }

    /// The settings to create a store with, from the connection and the table that were
    /// read, or could not be.
    pub fn configure(&self, read: Result<(String, Option<String>), String>) -> (config: Result<
        PgLockStorePluginConfig,
        PluginError,
    >)
        ensures
            config is Ok <==> read is Ok,
            config matches Ok(c) ==> c.dsn == read->Ok_0.0 && c.locks_table@ == name_or(
                read->Ok_0.1,
                "locks"@,
            ),
            config matches Err(e) ==> e@ == config_failure(StoreKind::Lock, read->Err_0@),
    {
        match read {
            Ok(settings) => Ok(PgLockStorePluginConfig::from_settings(settings.0, settings.1)),
            Err(cause) => Err(config_error(StoreKind::Lock, cause.as_str())),
        }
    }

    /// Whether the settings can be read.
    pub fn validate_config(&self, read: Result<(String, Option<String>), String>) -> (result:
        Result<(), PluginError>)
        ensures
            result is Ok <==> read is Ok,
            result matches Err(e) ==> e@ == config_failure(StoreKind::Lock, read->Err_0@),
    {
        match self.configure(read) {
            Ok(_) => Ok(()),
            Err(e) => Err(e),
        }
    }
}

// ---------------------------------------------------------------------------
// Registration
// ---------------------------------------------------------------------------

/// The factories that a server knows, by the kind of their stores.
#[derive(Debug, PartialEq, Eq)]
pub struct PluginRegistry {
    pub immutable_stores: Vec<PgImmutableStorePluginFactory>,
    pub mutable_stores: Vec<PgMutableStorePluginFactory>,
    pub lock_stores: Vec<PgLockStorePluginFactory>,
}

/// Adds the factories of all three stores to those that the server knows.
pub fn register(registry: &mut PluginRegistry)
    ensures
        final(registry).immutable_stores@ == old(registry).immutable_stores@.push(
            PgImmutableStorePluginFactory,
        ),
        final(registry).mutable_stores@ == old(registry).mutable_stores@.push(
            PgMutableStorePluginFactory,
        ),
        final(registry).lock_stores@ == old(registry).lock_stores@.push(PgLockStorePluginFactory),
{
    registry.immutable_stores.push(PgImmutableStorePluginFactory);
    registry.mutable_stores.push(PgMutableStorePluginFactory);
    registry.lock_stores.push(PgLockStorePluginFactory);
}

// ---------------------------------------------------------------------------
// From settings to stores
// ---------------------------------------------------------------------------

/// What is set counts as it is set. What is left out has its default: buckets are addressed by
/// path, payloads are not written over, and the tables have their usual names.
pub proof fn immutable_settings_count(
    settings: ImmutableSettings,
    config: PgImmutableStorePluginConfig,
)
    requires
        call_ensures(PgImmutableStorePluginConfig::from_settings, (settings,), config),
    ensures
        config.dsn@ == settings.dsn@,
        config.s3_bucket@ == settings.s3_bucket@,
        config.s3_endpoint_url == settings.s3_endpoint_url,
        config.s3_region == settings.s3_region,
        settings.s3_force_path_style matches Some(set) ==> config.s3_force_path_style == set,
        settings.s3_force_path_style is None ==> config.s3_force_path_style,
        settings.force_write matches Some(set) ==> config.force_write == set,
        settings.force_write is None ==> !config.force_write,
        settings.fragments_table matches Some(set) ==> config.fragments_table@ == set@,
        settings.fragments_table is None ==> config.fragments_table@ == "fragments"@,
        settings.metadata_table matches Some(set) ==> config.metadata_table@ == set@,
        settings.metadata_table is None ==> config.metadata_table@ == "fragments_meta"@,
{
}

/// What is set counts as it is set; a table that is left out has its usual name.
pub proof fn table_settings_count(
    dsn: String,
    table: Option<String>,
    mutable: PgMutableStorePluginConfig,
    lock: PgLockStorePluginConfig,
)
    requires
        call_ensures(PgMutableStorePluginConfig::from_settings, (dsn, table), mutable),
        call_ensures(PgLockStorePluginConfig::from_settings, (dsn, table), lock),
    ensures
        mutable.dsn@ == dsn@,
        lock.dsn@ == dsn@,
        table matches Some(set) ==> mutable.mutable_table@ == set@ && lock.locks_table@ == set@,
        table is None ==> mutable.mutable_table@ == "mutable_store"@ && lock.locks_table@
            == "locks"@,
{
}

/// A store works on the tables and the bucket that its plugin was set up with, and writes over
/// payloads where that was chosen.
pub proof fn immutable_store_as_set_up(
    config: PgImmutableStorePluginConfig,
    settings: PgImmutableStoreSettings,
    flags: FragmentFlags,
    store: PgImmutableStore,
    bucket: &str,
    region: &str,
)
    requires
        call_ensures(PgImmutableStorePluginConfig::store_settings, (config,), settings),
        call_ensures(PgImmutableStore::new, (&settings, flags), store),
        call_ensures(PgImmutableStore::bucket, (&store,), bucket),
        call_ensures(PgImmutableStorePluginConfig::region, (&config,), region),
    ensures
        store.fragments() == config.fragments_table@,
        store.metadata() == config.metadata_table@,
        store.spec_rules() == (StoreRules { force_write: config.force_write, flags }),
        bucket@ == config.s3_bucket@,
        settings.endpoint_url == config.s3_endpoint_url,
        settings.region == config.s3_region,
        config.s3_region matches Some(set) ==> region@ == set@,
        config.s3_region is None ==> region@ == "auto"@,
{
}

/// A store works on the table that its plugin was set up with.
pub proof fn stores_as_set_up(
    mutable_config: PgMutableStorePluginConfig,
    mutable_settings: PgMutableStoreSettings,
    mutable_store: PgMutableStore,
    lock_config: PgLockStorePluginConfig,
    lock_settings: PgLockStoreSettings,
    lock_store: PgLockStore,
)
    requires
        call_ensures(
            PgMutableStorePluginConfig::store_settings,
            (mutable_config,),
            mutable_settings,
        ),
        call_ensures(PgMutableStore::new, (&mutable_settings,), mutable_store),
        call_ensures(PgLockStorePluginConfig::store_settings, (lock_config,), lock_settings),
        call_ensures(PgLockStore::new, (&lock_settings,), lock_store),
    ensures
        mutable_store.table() == mutable_config.mutable_table@,
        lock_store.table() == lock_config.locks_table@,
{
}

/// A plugin that fails says whose it is, for which store it was, and why: settings that cannot
/// be read are one thing, a store that cannot be set up is another.
pub proof fn plugin_failures_told(
    kind: StoreKind,
    cause: &str,
    unread: PluginError,
    unmade: PluginError,
)
    requires
        call_ensures(config_error, (kind, cause), unread),
        call_ensures(init_error, (kind, cause), unmade),
    ensures
        ({
            let store = match kind {
                StoreKind::Immutable => "immutable"@,
                StoreKind::Mutable => "mutable"@,
                StoreKind::Lock => "lock"@,
            };
            &&& unread@ == (PluginErrorView::Config {
                plugin_name: "pg"@,
                message: "Failed to deserialize pg "@ + store + " store config: "@ + cause@,
            })
            &&& unmade@ == (PluginErrorView::Init {
                plugin_name: "pg"@,
                message: "Failed to create pg "@ + store + " store: "@ + cause@,
            })
        }),
{
}

/// Settings that were read are what a store is created with, and settings that could not be
/// read are refused, each by the factory of its own kind of store. Validating them comes to
/// the same verdict.
pub proof fn configured_as_read(
    immutable: PgImmutableStorePluginFactory,
    read: Result<ImmutableSettings, String>,
    config: Result<PgImmutableStorePluginConfig, PluginError>,
    verdict: Result<(), PluginError>,
    mutable: PgMutableStorePluginFactory,
    lock: PgLockStorePluginFactory,
    table: Result<(String, Option<String>), String>,
    mutable_config: Result<PgMutableStorePluginConfig, PluginError>,
    mutable_verdict: Result<(), PluginError>,
    lock_config: Result<PgLockStorePluginConfig, PluginError>,
    lock_verdict: Result<(), PluginError>,
)
    requires
        call_ensures(PgImmutableStorePluginFactory::configure, (&immutable, read), config),
        call_ensures(PgImmutableStorePluginFactory::validate_config, (&immutable, read), verdict),
        call_ensures(PgMutableStorePluginFactory::configure, (&mutable, table), mutable_config),
        call_ensures(
            PgMutableStorePluginFactory::validate_config,
            (&mutable, table),
            mutable_verdict,
        ),
        call_ensures(PgLockStorePluginFactory::configure, (&lock, table), lock_config),
        call_ensures(PgLockStorePluginFactory::validate_config, (&lock, table), lock_verdict),
    ensures
        read matches Ok(settings) ==> verdict is Ok && (config matches Ok(made) && made.made_from(
            settings,
        )),
        read matches Err(cause) ==> (config matches Err(e) && e@ == config_failure(
            StoreKind::Immutable,
            cause@,
        )) && (verdict matches Err(e) && e@ == config_failure(StoreKind::Immutable, cause@)),
        table matches Ok(settings) ==> mutable_verdict is Ok && lock_verdict is Ok && (
        mutable_config matches Ok(made) && made.dsn@ == settings.0@ && (
        settings.1 matches Some(set) ==> made.mutable_table@ == set@)) && (
        lock_config matches Ok(made) && made.dsn@ == settings.0@ && (
        settings.1 matches Some(set) ==> made.locks_table@ == set@)),
        table matches Err(cause) ==> (mutable_config matches Err(e) && e@ == config_failure(
            StoreKind::Mutable,
            cause@,
        )) && (mutable_verdict matches Err(e) && e@ == config_failure(StoreKind::Mutable, cause@))
            && (lock_config matches Err(e) && e@ == config_failure(StoreKind::Lock, cause@)) && (
        lock_verdict matches Err(e) && e@ == config_failure(StoreKind::Lock, cause@)),
{
}

/// All three plugins go by one name.
pub proof fn plugins_named(
    immutable: PgImmutableStorePluginFactory,
    mutable: PgMutableStorePluginFactory,
    lock: PgLockStorePluginFactory,
    names: (&'static str, &'static str, &'static str),
)
    requires
        call_ensures(PgImmutableStorePluginFactory::name, (&immutable,), names.0),
        call_ensures(PgMutableStorePluginFactory::name, (&mutable,), names.1),
        call_ensures(PgLockStorePluginFactory::name, (&lock,), names.2),
    ensures
        names.0@ == "pg"@,
        names.1@ == "pg"@,
        names.2@ == "pg"@,
{
}

/// Registering adds one factory for each kind of store, behind those that are known already.
pub proof fn factories_added(registry: &mut PluginRegistry)
    requires
        call_ensures(register, (registry,), ()),
    ensures
        final(registry).immutable_stores@.len() == old(registry).immutable_stores@.len() + 1,
        final(registry).mutable_stores@.len() == old(registry).mutable_stores@.len() + 1,
        final(registry).lock_stores@.len() == old(registry).lock_stores@.len() + 1,
        old(registry).immutable_stores@.is_prefix_of(final(registry).immutable_stores@),
        old(registry).mutable_stores@.is_prefix_of(final(registry).mutable_stores@),
        old(registry).lock_stores@.is_prefix_of(final(registry).lock_stores@),
{
}

} // verus!
