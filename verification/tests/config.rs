use helix_db::config::cache::{
    CacheConfig, CacheMode, FtsHybridCacheConfig, FtsMemoryCacheConfig, FtsWarmConfig,
    SimHasherCacheSettings, SlateHybridCacheConfig, SlateMemoryCacheConfig,
    SlateObjectStoreCacheSettings, SlateWarmConfig, VectorMemoryBudget, VectorMemoryHydrationMode,
    VectorMemorySettings, DEFAULT_VECTOR_MEMORY_BUDGET_BYTES,
};
use helix_db::config::db::{
    DbConfig, EdgeEncoding, EdgeUpdatePolicy, EmbeddedStorageProfile, OpenAttribution,
};
use helix_db::config::limits::{DiskCacheConfig, NonEmptyPathBuf, PositiveU64, PositiveUsize};
use helix_db::config::warm_mode::{CacheWarmMode, ObjectStoreWarmLevel, PreloadLevel};

#[test]
fn settings_are_trimmed_of_every_white_space() {
    let mut white: Vec<u32> = vec![0x20, 0x85, 0xa0, 0x1680, 0x2028, 0x2029, 0x202f, 0x205f, 0x3000];
    white.extend(0x09..=0x0d);
    white.extend(0x2000..=0x200a);
    white.sort_unstable();
    let found: Vec<u32> = ('\0'..=char::MAX)
        .filter(|character| {
            matches!(CacheWarmMode::parse(&format!("{character}off")), Ok(CacheWarmMode::Off))
        })
        .map(u32::from)
        .collect();
    assert_eq!(found, white);
}

#[test]
fn positive_numbers_reject_zero() {
    assert!(PositiveU64::new(0).is_none());
    assert!(PositiveUsize::new(0).is_none());
    assert_eq!(PositiveU64::new(3).unwrap().get(), 3);
    let error = PositiveU64::checked(0, "must be nonzero").unwrap_err();
    assert_eq!(error.message(), "must be nonzero");
    assert!(NonEmptyPathBuf::try_new(String::new()).is_err());
    assert!(DiskCacheConfig::try_new("cache".to_string(), 0).is_err());
    let disk = DiskCacheConfig::try_new("cache".to_string(), 9).unwrap();
    assert_eq!((disk.root(), disk.bytes()), ("cache", 9));
}

#[test]
fn warm_modes_are_read_in_any_case() {
    assert!(matches!(CacheWarmMode::parse(" Blocking "), Ok(CacheWarmMode::Blocking)));
    assert!(matches!("background".parse::<CacheWarmMode>(), Ok(CacheWarmMode::Background)));
    assert!(matches!(CacheWarmMode::parse("OFF"), Ok(CacheWarmMode::Off)));
    assert_eq!(
        CacheWarmMode::parse("never").unwrap_err(),
        "invalid cache warm mode 'never', expected blocking, background, or off"
    );
    assert!(matches!(ObjectStoreWarmLevel::parse("L0"), Ok(ObjectStoreWarmLevel::L0)));
    assert!(matches!("all".parse::<ObjectStoreWarmLevel>(), Ok(ObjectStoreWarmLevel::All)));
    assert!(ObjectStoreWarmLevel::parse("most").is_err());
    assert_eq!(ObjectStoreWarmLevel::L0.to_slate_preload(), Some(PreloadLevel::L0Sst));
    assert_eq!(ObjectStoreWarmLevel::default().to_slate_preload(), None);
}

#[test]
fn cache_sizes_are_validated() {
    assert!(SlateHybridCacheConfig::try_new(0, "cache".to_string(), 1).is_err());
    assert!(SlateHybridCacheConfig::try_new(1, "cache".to_string(), 1).is_ok());
    assert!(SlateMemoryCacheConfig::try_new(0, 1).is_err());
    assert!(SlateMemoryCacheConfig::try_new(1, 0).is_err());
    assert_eq!(SlateMemoryCacheConfig::try_new(2, 3).unwrap().total_bytes(), 5);
    assert_eq!(SlateMemoryCacheConfig::try_new(u64::MAX, 3).unwrap().total_bytes(), u64::MAX);
    assert!(SlateWarmConfig::background(0, 1).is_err());
    assert!(SlateWarmConfig::blocking(1, 0).is_err());
    assert!(FtsWarmConfig::background(1, Some(0)).is_err());
    assert!(FtsMemoryCacheConfig::try_new(0, FtsWarmConfig::Off, 1).is_err());
    assert!(FtsMemoryCacheConfig::try_new(1, FtsWarmConfig::Off, 0).is_err());
    assert!(VectorMemoryBudget::bounded(0).is_err());
    assert_eq!(VectorMemoryBudget::unbounded_for_test().bytes(), None);
    assert!(SimHasherCacheSettings::try_new(0, 1).is_err());
    assert_eq!(SimHasherCacheSettings::try_new(1000, 1).unwrap().maximum_f32_dimension(), 3);
    assert!(VectorMemoryHydrationMode::background(0).is_err());
}

#[test]
fn object_store_options_follow_their_settings() {
    let settings = SlateObjectStoreCacheSettings::try_new(
        "cache".to_string(),
        Some(64),
        16,
        true,
        ObjectStoreWarmLevel::All,
        None,
        8,
    )
    .unwrap();
    let options = settings.to_slate_options();
    assert_eq!(options.root_folder, "cache");
    assert_eq!(options.max_cache_size_bytes, Some(64));
    assert_eq!(options.part_size_bytes, 16);
    assert!(options.cache_puts);
    assert_eq!(options.preload_disk_cache_on_startup, Some(PreloadLevel::AllSst));
    assert_eq!(options.max_open_file_handles, 8);
    let config = DbConfig::new();
    assert!(config.slate().to_reader_options(None).is_none());
    assert!(config.slate().to_writer_settings(Some(&settings)).object_store_cache_options.is_some());
}

#[test]
fn default_caches_take_the_engine_defaults() {
    let cache = CacheConfig::default();
    assert_eq!(cache.vector_memory().budget().bytes(), Some(DEFAULT_VECTOR_MEMORY_BUDGET_BYTES));
    match cache.mode() {
        CacheMode::Memory { slate_db, fts, .. } => {
            assert_eq!(slate_db.block_bytes(), slatedb::db_cache::DEFAULT_BLOCK_CACHE_CAPACITY);
            assert_eq!(slate_db.metadata_bytes(), slatedb::db_cache::DEFAULT_META_CACHE_CAPACITY);
            assert_eq!(fts.as_ref().unwrap().memory_bytes(), 64 * 1024 * 1024);
        }
        _ => panic!("the default cache is in memory"),
    }
    assert_eq!(cache.fts_memory_bytes(), 64 * 1024 * 1024);
    assert_eq!(cache.fts_disk_root(), None);
    assert_eq!(cache.fts_disk_bytes(), 0);
    assert_eq!(cache.fts_generation_grace_period(), 300);
    assert!(cache.object_store_cache().is_none());
}

#[test]
fn the_cache_mode_decides_what_is_cached() {
    let cache = CacheConfig::default().with_mode(CacheMode::VectorMemoryOnly);
    assert_eq!(cache.fts_memory_bytes(), 0);
    assert!(cache.slate_warm().is_none());
    let fts = FtsHybridCacheConfig::try_new(
        10,
        "splits".to_string(),
        20,
        FtsWarmConfig::blocking(3, Some(5)).unwrap(),
        7,
    )
    .unwrap();
    let hybrid = CacheMode::Hybrid {
        slate_db: SlateHybridCacheConfig::try_new(1, "blocks".to_string(), 1).unwrap(),
        object_store: SlateObjectStoreCacheSettings::try_new(
            "objects".to_string(),
            None,
            1,
            false,
            ObjectStoreWarmLevel::Off,
            None,
            1,
        )
        .unwrap(),
        slate_warm: SlateWarmConfig::blocking(2, 4).unwrap(),
        fts: Some(fts),
    };
    let cache = cache.with_mode(hybrid);
    assert_eq!(cache.fts_memory_bytes(), 10);
    assert_eq!(cache.fts_disk_root(), Some("splits".to_string()));
    assert_eq!(cache.fts_disk_bytes(), 20);
    assert!(matches!(cache.fts_warm_mode(), CacheWarmMode::Blocking));
    assert_eq!(cache.fts_warm_concurrency(), 3);
    assert_eq!(cache.fts_startup_generation_limit(), Some(5));
    assert_eq!(cache.fts_generation_grace_period(), 7);
    assert_eq!(cache.object_store_cache().unwrap().root(), "objects");
    assert_eq!(cache.slate_warm().unwrap().startup_sst_limit(), 4);
}

#[test]
fn edge_bytes_are_read_back() {
    for encoding in [EdgeEncoding::Uncompressed, EdgeEncoding::Efp] {
        assert_eq!(EdgeEncoding::try_from(encoding.as_u8()).unwrap(), encoding);
    }
    for policy in [EdgeUpdatePolicy::Eager, EdgeUpdatePolicy::Lazy, EdgeUpdatePolicy::Adaptive] {
        assert_eq!(EdgeUpdatePolicy::try_from(policy.as_u8()).unwrap(), policy);
    }
    assert_eq!(
        EdgeEncoding::try_from(9).unwrap_err().message(),
        "invalid edge encoding type 9; expected none or efp"
    );
    assert_eq!(
        EdgeUpdatePolicy::try_from(9).unwrap_err().message(),
        "invalid edge update policy 9; expected eager, lazy, or adaptive"
    );
}

#[test]
fn a_configuration_is_built_step_by_step() {
    let config = DbConfig::default();
    assert!(config.enable_wal());
    assert_eq!(config.max_concurrent_reads(), 64);
    assert_eq!(config.id_lease_size(), 1000);
    let config = config
        .with_wal(false)
        .with_max_concurrent_reads(0)
        .with_adaptive_updates(77)
        .try_with_encoding_type_u8(1)
        .unwrap()
        .try_with_id_lease_size(5)
        .unwrap()
        .with_open_attribution(OpenAttribution::default());
    assert!(!config.enable_wal());
    assert_eq!(config.max_concurrent_reads(), 1);
    assert_eq!(config.edge_update_policy(), EdgeUpdatePolicy::Adaptive);
    assert_eq!(config.high_degree_threshold(), 77);
    assert_eq!(config.default_encoding_type(), EdgeEncoding::Efp);
    assert_eq!(config.id_lease_size(), 5);
    assert!(config.open_attribution().is_some());
    assert!(config.try_with_id_lease_size(0).is_err());
    assert!(DbConfig::new().try_with_encoding_type_u8(2).is_err());
    assert!(DbConfig::new().try_with_edge_update_policy_u8(3).is_err());
}

#[test]
fn embedded_profiles_differ_in_flushing_and_caching() {
    let memory = DbConfig::embedded_default(EmbeddedStorageProfile::InMemory);
    let disk = DbConfig::embedded_default(EmbeddedStorageProfile::Disk);
    let settings = memory.slate().to_writer_settings(None).settings;
    assert_eq!(settings.flush_interval, Some(1));
    assert_eq!(settings.l0_sst_size_bytes, Some(16 * 1024 * 1024));
    assert_eq!(settings.max_unflushed_bytes, Some(64 * 1024 * 1024));
    assert_eq!(disk.slate().to_writer_settings(None).settings.flush_interval, Some(3));
    assert_eq!(disk.cache().fts_memory_bytes(), 16 * 1024 * 1024);
    assert_eq!(EmbeddedStorageProfile::Disk.slate_cache(), (48 << 20, 16 << 20));
    assert_eq!(EmbeddedStorageProfile::InMemory.slate_cache(), (16 << 20, 8 << 20));
}

#[test]
fn vector_memory_settings_have_defaults() {
    let settings = VectorMemorySettings::default();
    assert_eq!(settings.budget().bytes(), Some(DEFAULT_VECTOR_MEMORY_BUDGET_BYTES));
    assert_eq!(settings.poll_interval_secs(), 5);
    assert_eq!(settings.simhasher_cache().entries(), 64);
    assert_eq!(settings.simhasher_cache().bytes(), 32 * 1024 * 1024);
    let tuned = settings.with_simhasher_cache(SimHasherCacheSettings::try_new(512, 2).unwrap());
    assert_eq!(tuned.simhasher_cache().maximum_f32_dimension(), 2);
}
