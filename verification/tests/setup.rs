//! Settings, plugins and the small helpers underneath.

use lore_pg::bytes_order::{compare_bytes, ByteOrder};
use lore_pg::plugin::{
    init_error, register, ImmutableSettings, PgImmutableStorePluginConfig,
    PgImmutableStorePluginFactory, PgLockStorePluginFactory, PgMutableStorePluginFactory,
    PluginError, PluginRegistry, StoreKind,
};
use lore_pg::pool::{pool_max_size, roots_loaded, DEFAULT_POOL_MAX_SIZE};
use lore_pg::sql::SqlCall;
use lore_pg::text::decimal;
use lore_pg::types::{ContentHash, Context, StoreMatch};

#[test]
fn pool_size_is_a_positive_number() {
    assert_eq!(DEFAULT_POOL_MAX_SIZE, 5);
    assert_eq!(pool_max_size(None), 5);
    assert_eq!(pool_max_size(Some("12")), 12);
    assert_eq!(pool_max_size(Some("+7")), 7);
    assert_eq!(pool_max_size(Some("007")), 7);
    assert_eq!(pool_max_size(Some("0")), 5);
    assert_eq!(pool_max_size(Some("-3")), 5);
    assert_eq!(pool_max_size(Some("")), 5);
    assert_eq!(pool_max_size(Some("+")), 5);
    assert_eq!(pool_max_size(Some(" 8")), 5);
    assert_eq!(pool_max_size(Some("8 connections")), 5);
    assert_eq!(pool_max_size(Some("99999999999999999999999")), 5);
    assert_eq!(pool_max_size(Some("18446744073709551615")), usize::MAX);
    assert_eq!(pool_max_size(Some("18446744073709551616")), 5);
}

#[test]
fn roots_must_be_loaded() {
    assert_eq!(roots_loaded(1, "[]"), Ok(()));
    let message = "no native root certificates could be loaded (errors: [\"x\"])".to_string();
    assert_eq!(roots_loaded(0, "[\"x\"]"), Err(message));
}

fn settings() -> ImmutableSettings {
    ImmutableSettings {
        dsn: "host=localhost".to_string(),
        s3_bucket: "bucket".to_string(),
        s3_endpoint_url: None,
        s3_region: None,
        s3_force_path_style: None,
        fragments_table: None,
        metadata_table: None,
        force_write: None,
    }
}

#[test]
fn immutable_plugin_defaults() {
    let config = PgImmutableStorePluginFactory.configure(Ok(settings())).unwrap();
    let expected = PgImmutableStorePluginConfig {
        dsn: "host=localhost".to_string(),
        s3_bucket: "bucket".to_string(),
        s3_endpoint_url: None,
        s3_region: None,
        s3_force_path_style: true,
        fragments_table: "fragments".to_string(),
        metadata_table: "fragments_meta".to_string(),
        force_write: false,
    };
    assert_eq!(config, expected);
    assert_eq!(config.clone(), expected);
    assert_eq!(config.region(), "auto");
    let store = config.store_settings();
    assert_eq!(store.fragments_table, "fragments");
    assert_eq!(store.metadata_table, "fragments_meta");
    assert_eq!(store.bucket, "bucket");
    assert_eq!(store.endpoint_url, None);
    assert!(!store.force_write);
}

#[test]
fn immutable_plugin_settings_take_effect() {
    let written = ImmutableSettings {
        s3_endpoint_url: Some("http://localhost:9000".to_string()),
        s3_region: Some("eu".to_string()),
        s3_force_path_style: Some(false),
        fragments_table: Some("f".to_string()),
        metadata_table: Some("m".to_string()),
        force_write: Some(true),
        ..settings()
    };
    let config = PgImmutableStorePluginConfig::from_settings(written);
    assert!(!config.s3_force_path_style);
    assert_eq!(config.region(), "eu");
    let store = config.store_settings();
    assert_eq!(store.fragments_table, "f");
    assert_eq!(store.metadata_table, "m");
    assert_eq!(store.endpoint_url, Some("http://localhost:9000".to_string()));
    assert_eq!(store.region, Some("eu".to_string()));
    assert!(store.force_write);
}

#[test]
fn mutable_and_lock_plugin_settings() {
    let dsn = || "host=localhost".to_string();
    let config = PgMutableStorePluginFactory.configure(Ok((dsn(), None))).unwrap();
    assert_eq!(config.dsn, "host=localhost");
    assert_eq!(config.store_settings().table_name, "mutable_store");
    let named = Ok((dsn(), Some("keys".to_string())));
    let config = PgMutableStorePluginFactory.configure(named).unwrap();
    assert_eq!(config.clone(), config);
    assert_eq!(config.store_settings().clone().table_name, "keys");
    let config = PgLockStorePluginFactory.configure(Ok((dsn(), None))).unwrap();
    assert_eq!(config.store_settings().table_name, "locks");
    let named = Ok((dsn(), Some("mine".to_string())));
    let config = PgLockStorePluginFactory.configure(named).unwrap();
    assert_eq!(config.clone(), config);
    assert_eq!(config.store_settings().clone().table_name, "mine");
}

#[test]
fn plugin_errors() {
    let config = |message: &str| PluginError::Config {
        plugin_name: "pg".to_string(),
        message: message.to_string(),
    };
    let bad = || "missing field `dsn`".to_string();
    assert_eq!(
        PgImmutableStorePluginFactory.validate_config(Err(bad())),
        Err(config("Failed to deserialize pg immutable store config: missing field `dsn`"))
    );
    assert_eq!(
        PgMutableStorePluginFactory.validate_config(Err(bad())),
        Err(config("Failed to deserialize pg mutable store config: missing field `dsn`"))
    );
    assert_eq!(
        PgLockStorePluginFactory.validate_config(Err(bad())),
        Err(config("Failed to deserialize pg lock store config: missing field `dsn`"))
    );
    assert_eq!(PgImmutableStorePluginFactory.validate_config(Ok(settings())), Ok(()));
    let init = PluginError::Init {
        plugin_name: "pg".to_string(),
        message: "Failed to create pg lock store: no route".to_string(),
    };
    assert_eq!(init_error(StoreKind::Lock, "no route"), init);
}

#[test]
fn registering_adds_one_factory_of_each_kind() {
    let mut registry = PluginRegistry {
        immutable_stores: Vec::new(),
        mutable_stores: vec![PgMutableStorePluginFactory],
        lock_stores: Vec::new(),
    };
    register(&mut registry);
    assert_eq!(registry.immutable_stores, vec![PgImmutableStorePluginFactory]);
    assert_eq!(registry.mutable_stores.len(), 2);
    assert_eq!(registry.lock_stores, vec![PgLockStorePluginFactory]);
    assert_eq!(registry.immutable_stores[0].name(), "pg");
    assert_eq!(registry.mutable_stores[0].name(), "pg");
    assert_eq!(registry.lock_stores[0].name(), "pg");
}

#[test]
fn bytes_compare_lexicographically() {
    assert_eq!(compare_bytes(b"ab", b"abc"), ByteOrder::Before);
    assert_eq!(compare_bytes(b"b", b"abc"), ByteOrder::After);
    assert_eq!(compare_bytes(b"abc", b"abc"), ByteOrder::Same);
    assert_eq!(compare_bytes(b"", b""), ByteOrder::Same);
}

#[test]
fn numbers_in_decimal() {
    assert_eq!(decimal(0), "0");
    assert_eq!(decimal(1907), "1907");
    assert_eq!(decimal(usize::MAX), format!("{}", usize::MAX));
}

#[test]
fn identifiers() {
    assert!(ContentHash::default().is_zero());
    let mut hash = ContentHash::default();
    hash.data[31] = 1;
    assert!(!hash.is_zero());
    assert_eq!(ContentHash::from_slice(&hash.to_vec()), Some(hash));
    assert_eq!(ContentHash::from_slice(&[0; 33]), None);
    assert_eq!(Context::from_slice(&[5; 16]), Some(Context { data: [5; 16] }));
    assert_eq!(Context::from_slice(&[5; 15]), None);
    assert_eq!(StoreMatch::MatchFull.prev(), Some(StoreMatch::MatchPartition));
    assert_eq!(StoreMatch::MatchPartition.prev(), Some(StoreMatch::MatchHash));
    assert_eq!(StoreMatch::MatchHash.prev(), Some(StoreMatch::MatchNone));
    assert_eq!(StoreMatch::MatchNone.prev(), None);
}

#[test]
fn calls_by_name() {
    let labels = [
        (SqlCall::Pool, "pool"),
        (SqlCall::Begin, "begin"),
        (SqlCall::Commit, "commit"),
        (SqlCall::Select, "select"),
        (SqlCall::Insert, "insert"),
        (SqlCall::Upsert, "upsert"),
        (SqlCall::Delete, "delete"),
        (SqlCall::Query, "query"),
        (SqlCall::CasInsert, "cas insert"),
        (SqlCall::CasUpdate, "cas update"),
        (SqlCall::ExistsExact, "exists_exact"),
        (SqlCall::ExistsRepository, "exists_repository"),
        (SqlCall::ExistsHash, "exists_hash"),
        (SqlCall::ExistBatchExact, "exist_batch_exact"),
        (SqlCall::CountAssociations, "count_associations"),
        (SqlCall::WriteMetadata, "write_metadata"),
        (SqlCall::UpdateMetadataCas, "update_metadata_cas"),
        (SqlCall::LoadMetadata, "load_metadata"),
        (SqlCall::AssociateFragment, "associate_fragment"),
        (SqlCall::DeleteAssociation, "delete_association"),
    ];
    for (call, label) in labels {
        assert_eq!(call.label(), label);
    }
}
