//! Validated runtime cache policy for the storage engine and vector search.
//!
//! These settings control process memory and startup behavior only. They are
//! never persisted into index catalogs or physical row formats.

use vstd::prelude::*;

use crate::config::limits::{DiskCacheConfig, NonEmptyPathBuf, PositiveU64, PositiveUsize};
use crate::config::warm_mode::{CacheWarmMode, ObjectStoreWarmLevel, PreloadLevel};
use crate::error::ConfigResult;

verus! {

/// Checked settings for the storage engine's block and metadata hybrid cache.
#[derive(Debug, Clone, PartialEq, Eq)]
pub struct SlateHybridCacheConfig {
    memory_bytes: PositiveUsize,
    disk: DiskCacheConfig,
}

impl SlateHybridCacheConfig {
    pub closed spec fn spec_memory_bytes(self) -> usize {
        self.memory_bytes@
    }

    pub closed spec fn spec_disk(self) -> DiskCacheConfig {
        self.disk
    }

    /// Builds hybrid cache settings.
    pub fn try_new(
        memory_bytes: usize,
        disk_root: String,
        disk_bytes: usize,
    ) -> (checked: ConfigResult<Self>)
        ensures
            match checked {
                Ok(config) => {
                    &&& memory_bytes > 0 && disk_root@.len() > 0 && disk_bytes > 0
                    &&& config.spec_memory_bytes() == memory_bytes
                    &&& config.spec_disk().spec_root() == disk_root@
                    &&& config.spec_disk().spec_bytes() == disk_bytes
                },
                Err(error) => if memory_bytes == 0 {
                    error@ == "Slate hybrid cache memory must be nonzero"@
                } else if disk_root@.len() == 0 {
                    error@ == "path must not be empty"@
                } else {
                    disk_bytes == 0 && error@ == "disk cache capacity must be nonzero"@
                },
            },
    {
        let memory_bytes = match PositiveUsize::checked(
            memory_bytes,
            "Slate hybrid cache memory must be nonzero",
        ) {
            Ok(bytes) => bytes,
            Err(error) => {
                return Err(error);
            },
        };
        match DiskCacheConfig::try_new(disk_root, disk_bytes) {
            Ok(disk) => Ok(SlateHybridCacheConfig { memory_bytes, disk }),
            Err(error) => Err(error),
        }
    }

    /// Resident memory capacity in bytes.
    pub fn memory_bytes(&self) -> (bytes: usize)
        ensures
            bytes == self.spec_memory_bytes(),
            bytes > 0,
    {
        self.memory_bytes.get()
    }

    /// Disk tier settings.
    pub fn disk(&self) -> (disk: &DiskCacheConfig)
        ensures
            *disk == self.spec_disk(),
    {
        &self.disk
    }
}

/// Checked capacities for the storage engine's in-memory block and metadata
/// caches.
#[derive(Debug, Clone, Copy, PartialEq, Eq)]
pub struct SlateMemoryCacheConfig {
    block_bytes: PositiveU64,
    metadata_bytes: PositiveU64,
}

impl SlateMemoryCacheConfig {
    pub closed spec fn spec_block_bytes(self) -> u64 {
        self.block_bytes@
    }

    pub closed spec fn spec_metadata_bytes(self) -> u64 {
        self.metadata_bytes@
    }

    /// Builds independently bounded block and metadata cache tiers.
    pub fn try_new(block_bytes: u64, metadata_bytes: u64) -> (checked: ConfigResult<Self>)
        ensures
            match checked {
                Ok(config) => {
                    &&& block_bytes > 0 && metadata_bytes > 0
                    &&& config.spec_block_bytes() == block_bytes
                    &&& config.spec_metadata_bytes() == metadata_bytes
                },
                Err(error) => if block_bytes == 0 {
                    error@ == "Slate block cache must be nonzero"@
                } else {
                    metadata_bytes == 0 && error@ == "Slate metadata cache must be nonzero"@
                },
            },
    {
        let block_bytes = match PositiveU64::checked(
            block_bytes,
            "Slate block cache must be nonzero",
        ) {
            Ok(bytes) => bytes,
            Err(error) => {
                return Err(error);
            },
        };
        match PositiveU64::checked(metadata_bytes, "Slate metadata cache must be nonzero") {
            Ok(metadata_bytes) => Ok(SlateMemoryCacheConfig { block_bytes, metadata_bytes }),
            Err(error) => Err(error),
        }
    }

    /// Resident block-cache capacity.
    pub fn block_bytes(self) -> (bytes: u64)
        ensures
            bytes == self.spec_block_bytes(),
            bytes > 0,
    {
        self.block_bytes.get()
    }

    /// Resident metadata-cache capacity.
    pub fn metadata_bytes(self) -> (bytes: u64)
        ensures
            bytes == self.spec_metadata_bytes(),
            bytes > 0,
    {
        self.metadata_bytes.get()
    }

    /// Combined resident capacity, at most the largest 64-bit number.
    pub fn total_bytes(self) -> (bytes: u64)
        ensures
            bytes == if self.spec_block_bytes() + self.spec_metadata_bytes() > u64::MAX {
                u64::MAX as int
            } else {
                self.spec_block_bytes() + self.spec_metadata_bytes()
            },
    {
        self.block_bytes.get().saturating_add(self.metadata_bytes.get())
    }
}

const DEFAULT_SLATE_WARM_CONCURRENCY: usize = 4;

const DEFAULT_SLATE_WARM_SST_LIMIT: usize = 256;

/// Startup policy for block and metadata cache warming.
///
/// Warming targets immutable table index, filter, and stats entries only. Data
/// blocks remain demand-filled until there is a trustworthy hot-range signal.
#[derive(Debug, Clone, Copy, PartialEq, Eq)]
pub enum SlateWarmConfig {
    /// Do not proactively warm cache entries.
    Off,
    /// Warm after open returns.
    Background {
        /// Maximum concurrent table warm operations.
        concurrency: PositiveUsize,
        /// Maximum newest physical tables considered by one pass.
        startup_sst_limit: PositiveUsize,
    },
    /// Warm before open returns.
    Blocking {
        /// Maximum concurrent table warm operations.
        concurrency: PositiveUsize,
        /// Maximum newest physical tables considered by one pass.
        startup_sst_limit: PositiveUsize,
    },
}

impl SlateWarmConfig {
    fn checked_limits(concurrency: usize, startup_sst_limit: usize) -> (checked: ConfigResult<
        (PositiveUsize, PositiveUsize),
    >)
        ensures
            match checked {
                Ok((c, l)) => concurrency > 0 && startup_sst_limit > 0 && c@ == concurrency && l@
                    == startup_sst_limit,
                Err(error) => if concurrency == 0 {
                    error@ == "Slate warm concurrency must be nonzero"@
                } else {
                    startup_sst_limit == 0 && error@ == "Slate warm SST limit must be nonzero"@
                },
            },
    {
        let concurrency = match PositiveUsize::checked(
            concurrency,
            "Slate warm concurrency must be nonzero",
        ) {
            Ok(concurrency) => concurrency,
            Err(error) => {
                return Err(error);
            },
        };
        match PositiveUsize::checked(startup_sst_limit, "Slate warm SST limit must be nonzero") {
            Ok(limit) => Ok((concurrency, limit)),
            Err(error) => Err(error),
        }
    }

    /// Builds a checked background warm policy.
    pub fn background(concurrency: usize, startup_sst_limit: usize) -> (checked: ConfigResult<Self>)
        ensures
            match checked {
                Ok(config) => {
                    &&& concurrency > 0 && startup_sst_limit > 0
                    &&& config matches SlateWarmConfig::Background {
                        concurrency: c,
                        startup_sst_limit: l,
                    }
                    &&& c@ == concurrency && l@ == startup_sst_limit
                },
                Err(error) => if concurrency == 0 {
                    error@ == "Slate warm concurrency must be nonzero"@
                } else {
                    startup_sst_limit == 0 && error@ == "Slate warm SST limit must be nonzero"@
                },
            },
    {
        match Self::checked_limits(concurrency, startup_sst_limit) {
            Ok((concurrency, startup_sst_limit)) => Ok(
                SlateWarmConfig::Background { concurrency, startup_sst_limit },
            ),
            Err(error) => Err(error),
        }
    }

    /// Builds a checked blocking warm policy.
    pub fn blocking(concurrency: usize, startup_sst_limit: usize) -> (checked: ConfigResult<Self>)
        ensures
            match checked {
                Ok(config) => {
                    &&& concurrency > 0 && startup_sst_limit > 0
                    &&& config matches SlateWarmConfig::Blocking {
                        concurrency: c,
                        startup_sst_limit: l,
                    }
                    &&& c@ == concurrency && l@ == startup_sst_limit
                },
                Err(error) => if concurrency == 0 {
                    error@ == "Slate warm concurrency must be nonzero"@
                } else {
                    startup_sst_limit == 0 && error@ == "Slate warm SST limit must be nonzero"@
                },
            },
    {
        match Self::checked_limits(concurrency, startup_sst_limit) {
            Ok((concurrency, startup_sst_limit)) => Ok(
                SlateWarmConfig::Blocking { concurrency, startup_sst_limit },
            ),
            Err(error) => Err(error),
        }
    }

    /// Resolved warm mode.
    pub fn mode(&self) -> (mode: CacheWarmMode)
        ensures
            mode == match *self {
                SlateWarmConfig::Off => CacheWarmMode::Off,
                SlateWarmConfig::Background { .. } => CacheWarmMode::Background,
                SlateWarmConfig::Blocking { .. } => CacheWarmMode::Blocking,
            },
    {
        match self {
            SlateWarmConfig::Off => CacheWarmMode::Off,
            SlateWarmConfig::Background { .. } => CacheWarmMode::Background,
            SlateWarmConfig::Blocking { .. } => CacheWarmMode::Blocking,
        }
    }

    /// Maximum concurrent table operations. Off resolves to one for callers
    /// constructing a semaphore before checking the mode.
    pub fn concurrency(&self) -> (count: usize)
        ensures
            count > 0,
            count == match *self {
                SlateWarmConfig::Off => 1,
                SlateWarmConfig::Background { concurrency, .. } => concurrency@,
                SlateWarmConfig::Blocking { concurrency, .. } => concurrency@,
            },
    {
        match self {
            SlateWarmConfig::Off => 1,
            SlateWarmConfig::Background { concurrency, .. } => concurrency.get(),
            SlateWarmConfig::Blocking { concurrency, .. } => concurrency.get(),
        }
    }

    /// Maximum newest physical tables considered by one warm pass.
    pub fn startup_sst_limit(&self) -> (limit: usize)
        ensures
            limit == match *self {
                SlateWarmConfig::Off => 0,
                SlateWarmConfig::Background { startup_sst_limit, .. } => startup_sst_limit@,
                SlateWarmConfig::Blocking { startup_sst_limit, .. } => startup_sst_limit@,
            },
            !(*self is Off) ==> limit > 0,
    {
        match self {
            SlateWarmConfig::Off => 0,
            SlateWarmConfig::Background { startup_sst_limit, .. } => startup_sst_limit.get(),
            SlateWarmConfig::Blocking { startup_sst_limit, .. } => startup_sst_limit.get(),
        }
    }
}

impl Default for SlateWarmConfig {
    fn default() -> (config: Self)
        ensures
            config matches SlateWarmConfig::Background { concurrency, startup_sst_limit }
                && concurrency@ == 4 && startup_sst_limit@ == 256,
    {
        match Self::background(DEFAULT_SLATE_WARM_CONCURRENCY, DEFAULT_SLATE_WARM_SST_LIMIT) {
            Ok(config) => config,
            Err(_) => SlateWarmConfig::Off,
        }
    }
}

/// Object-store disk-cache options in the storage engine's terms.
#[derive(Debug, PartialEq, Eq)]
pub struct ObjectStoreCacheOptions {
    pub root_folder: String,
    pub max_cache_size_bytes: Option<usize>,
    pub part_size_bytes: usize,
    pub cache_puts: bool,
    pub preload_disk_cache_on_startup: Option<PreloadLevel>,
    /// Interval between scans of the cache folder, in nanoseconds.
    pub scan_interval: Option<u128>,
    pub max_open_file_handles: usize,
}

/// Checked settings for the storage engine's object-store disk cache.
#[derive(Debug, Clone, PartialEq, Eq)]
pub struct SlateObjectStoreCacheSettings {
    root: NonEmptyPathBuf,
    max_cache_size_bytes: Option<PositiveUsize>,
    part_size_bytes: PositiveUsize,
    cache_puts: bool,
    warm: ObjectStoreWarmLevel,
    scan_interval: Option<u128>,
    max_open_file_handles: PositiveUsize,
}

impl SlateObjectStoreCacheSettings {
    pub closed spec fn spec_root(self) -> Seq<char> {
        self.root@
    }

    pub closed spec fn spec_max_cache_size_bytes(self) -> Option<usize> {
        match self.max_cache_size_bytes {
            Some(bytes) => Some(bytes@),
            None => None,
        }
    }

    pub closed spec fn spec_part_size_bytes(self) -> usize {
        self.part_size_bytes@
    }

    pub closed spec fn spec_cache_puts(self) -> bool {
        self.cache_puts
    }

    pub closed spec fn spec_warm(self) -> ObjectStoreWarmLevel {
        self.warm
    }

    pub closed spec fn spec_scan_interval(self) -> Option<u128> {
        self.scan_interval
    }

    pub closed spec fn spec_max_open_file_handles(self) -> usize {
        self.max_open_file_handles@
    }

    /// Builds object-store cache settings. The root, the optional size cap,
    /// the part size and the file-handle count are checked in this order.
    pub fn try_new(
        root: String,
        max_cache_size_bytes: Option<usize>,
        part_size_bytes: usize,
        cache_puts: bool,
        warm: ObjectStoreWarmLevel,
        scan_interval: Option<u128>,
        max_open_file_handles: usize,
    ) -> (checked: ConfigResult<Self>)
        ensures
            match checked {
                Ok(settings) => {
                    &&& root@.len() > 0 && max_cache_size_bytes != Some(0usize)
                    &&& part_size_bytes > 0 && max_open_file_handles > 0
                    &&& settings.spec_root() == root@
                    &&& settings.spec_max_cache_size_bytes() == max_cache_size_bytes
                    &&& settings.spec_part_size_bytes() == part_size_bytes
                    &&& settings.spec_cache_puts() == cache_puts
                    &&& settings.spec_warm() == warm
                    &&& settings.spec_scan_interval() == scan_interval
                    &&& settings.spec_max_open_file_handles() == max_open_file_handles
                },
                Err(error) => if root@.len() == 0 {
                    error@ == "path must not be empty"@
                } else if max_cache_size_bytes == Some(0usize) {
                    error@ == "object-store cache max size must be nonzero"@
                } else if part_size_bytes == 0 {
                    error@ == "object-store cache part size must be nonzero"@
                } else {
                    max_open_file_handles == 0 && error@
                        == "object-store cache file-handle count must be nonzero"@
                },
            },
    {
        let root = match NonEmptyPathBuf::try_new(root) {
            Ok(root) => root,
            Err(error) => {
                return Err(error);
            },
        };
        let max_cache_size_bytes = match checked_optional_limit(
            max_cache_size_bytes,
            "object-store cache max size must be nonzero",
        ) {
            Ok(bytes) => bytes,
            Err(error) => {
                return Err(error);
            },
        };
        let part_size_bytes = match PositiveUsize::checked(
            part_size_bytes,
            "object-store cache part size must be nonzero",
        ) {
            Ok(bytes) => bytes,
            Err(error) => {
                return Err(error);
            },
        };
        match PositiveUsize::checked(
            max_open_file_handles,
            "object-store cache file-handle count must be nonzero",
        ) {
            Ok(max_open_file_handles) => Ok(
                SlateObjectStoreCacheSettings {
                    root,
                    max_cache_size_bytes,
                    part_size_bytes,
                    cache_puts,
                    warm,
                    scan_interval,
                    max_open_file_handles,
                },
            ),
            Err(error) => Err(error),
        }
    }

    /// Converts to the shape used by writer and reader opens.
    pub fn to_slate_options(&self) -> (options: ObjectStoreCacheOptions)
        ensures
            options.root_folder@ == self.spec_root(),
            options.max_cache_size_bytes == self.spec_max_cache_size_bytes(),
            options.part_size_bytes == self.spec_part_size_bytes(),
            options.cache_puts == self.spec_cache_puts(),
            options.preload_disk_cache_on_startup == match self.spec_warm() {
                ObjectStoreWarmLevel::Off => None::<PreloadLevel>,
                ObjectStoreWarmLevel::L0 => Some(PreloadLevel::L0Sst),
                ObjectStoreWarmLevel::All => Some(PreloadLevel::AllSst),
            },
            options.scan_interval == self.spec_scan_interval(),
            options.max_open_file_handles == self.spec_max_open_file_handles(),
    {
        ObjectStoreCacheOptions {
            root_folder: self.root.as_path().to_owned(),
            max_cache_size_bytes: match self.max_cache_size_bytes {
                Some(bytes) => Some(bytes.get()),
                None => None,
            },
            part_size_bytes: self.part_size_bytes.get(),
            cache_puts: self.cache_puts,
            preload_disk_cache_on_startup: self.warm.to_slate_preload(),
            scan_interval: self.scan_interval,
            max_open_file_handles: self.max_open_file_handles.get(),
        }
    }

    /// Cache root directory.
    pub fn root(&self) -> (root: &str)
        ensures
            root@ == self.spec_root(),
            root@.len() > 0,
    {
        self.root.as_path()
    }

    /// Startup preload level for the object-store cache.
    pub fn warm(&self) -> (warm: ObjectStoreWarmLevel)
        ensures
            warm == self.spec_warm(),
    {
        self.warm
    }
}

/// The storage-engine settings that this configuration sets itself; all others
/// keep the engine's defaults.
#[derive(Debug, Clone, Copy, PartialEq, Eq)]
pub struct SlateSettings {
    /// Interval between flushes, in milliseconds.
    pub flush_interval: Option<u64>,
    pub l0_sst_size_bytes: Option<usize>,
    pub max_unflushed_bytes: Option<usize>,
}

/// What an open hands to the storage engine.
#[derive(Debug, PartialEq, Eq)]
pub struct SlateOpenSettings {
    pub settings: SlateSettings,
    /// Object-store cache options; `None` switches that cache off.
    pub object_store_cache_options: Option<ObjectStoreCacheOptions>,
}

/// Storage-engine runtime settings.
#[derive(Debug, Clone, Copy, PartialEq, Eq)]
pub struct SlateRuntimeConfig {
    runtime_settings: SlateSettings,
}

impl SlateRuntimeConfig {
    pub closed spec fn spec_settings(self) -> SlateSettings {
        self.runtime_settings
    }

    /// Builds default runtime settings.
    pub fn new() -> (config: Self)
        ensures
            config.spec_settings() == (SlateSettings {
                flush_interval: None,
                l0_sst_size_bytes: None,
                max_unflushed_bytes: None,
            }),
    {
        SlateRuntimeConfig {
            runtime_settings: SlateSettings {
                flush_interval: None,
                l0_sst_size_bytes: None,
                max_unflushed_bytes: None,
            },
        }
    }

    /// Builds the settings that a writer opens with.
    pub fn to_writer_settings(
        &self,
        object_store_cache: Option<&SlateObjectStoreCacheSettings>,
    ) -> (open: SlateOpenSettings)
        ensures
            open.settings == self.spec_settings(),
            options_match(open.object_store_cache_options, object_store_cache),
    {
        SlateOpenSettings {
            settings: self.runtime_settings,
            object_store_cache_options: object_store_options(object_store_cache),
        }
    }

    /// Builds the object-store cache options that a reader opens with; a reader
    /// takes nothing else from the runtime settings.
    pub fn to_reader_options(
        &self,
        object_store_cache: Option<&SlateObjectStoreCacheSettings>,
    ) -> (options: Option<ObjectStoreCacheOptions>)
        ensures
            options_match(options, object_store_cache),
    {
        object_store_options(object_store_cache)
    }

    /// Replaces the runtime settings.
    pub fn with_runtime_settings(self, settings: SlateSettings) -> (config: Self)
        ensures
            config.spec_settings() == settings,
    {
        SlateRuntimeConfig { runtime_settings: settings }
    }
}

/// Whether the options are those that the cache settings ask for.
pub open spec fn options_match(
    options: Option<ObjectStoreCacheOptions>,
    cache: Option<&SlateObjectStoreCacheSettings>,
) -> bool {
    match (options, cache) {
        (None, None) => true,
        (Some(options), Some(cache)) => {
            &&& options.root_folder@ == cache.spec_root()
            &&& options.max_cache_size_bytes == cache.spec_max_cache_size_bytes()
            &&& options.part_size_bytes == cache.spec_part_size_bytes()
            &&& options.cache_puts == cache.spec_cache_puts()
            &&& options.preload_disk_cache_on_startup == match cache.spec_warm() {
                ObjectStoreWarmLevel::Off => None::<PreloadLevel>,
                ObjectStoreWarmLevel::L0 => Some(PreloadLevel::L0Sst),
                ObjectStoreWarmLevel::All => Some(PreloadLevel::AllSst),
            }
            &&& options.scan_interval == cache.spec_scan_interval()
            &&& options.max_open_file_handles == cache.spec_max_open_file_handles()
        },
        _ => false,
    }
}

fn object_store_options(cache: Option<&SlateObjectStoreCacheSettings>) -> (options: Option<
    ObjectStoreCacheOptions,
>)
    ensures
        options_match(options, cache),
{
    match cache {
        None => None,
        Some(cache) => Some(cache.to_slate_options()),
    }
}

impl Default for SlateRuntimeConfig {
    fn default() -> (config: Self)
        ensures
            config.spec_settings() == (SlateSettings {
                flush_interval: None,
                l0_sst_size_bytes: None,
                max_unflushed_bytes: None,
            }),
    {
        Self::new()
    }
}

const DEFAULT_FTS_MEMORY_BYTES: u64 = 67_108_864;

const DEFAULT_FTS_GENERATION_GRACE_PERIOD_SECS: u64 = 300;

const DEFAULT_FTS_WARM_CONCURRENCY: usize = 4;

/// Startup warm behavior for the full-text split cache.
#[derive(Debug, Clone, Copy, PartialEq, Eq)]
pub enum FtsWarmConfig {
    /// Do not proactively open or hydrate splits.
    Off,
    /// Warm splits after open returns.
    Background {
        /// Maximum concurrent split opens and hydrations.
        concurrency: PositiveUsize,
        /// Optional cap on active generations enumerated by one pass.
        startup_generation_limit: Option<PositiveUsize>,
    },
    /// Warm splits before open returns.
    Blocking {
        /// Maximum concurrent split opens and hydrations.
        concurrency: PositiveUsize,
        /// Optional cap on active generations enumerated by one pass.
        startup_generation_limit: Option<PositiveUsize>,
    },
}

/// The number that an optional checked limit holds.
pub open spec fn limit_value(limit: Option<PositiveUsize>) -> Option<usize> {
    match limit {
        Some(limit) => Some(limit@),
        None => None,
    }
}

impl Default for FtsWarmConfig {
    fn default() -> (config: Self)
        ensures
            config == FtsWarmConfig::Off,
    {
        FtsWarmConfig::Off
    }
}

impl FtsWarmConfig {
    pub open spec fn spec_mode(self) -> CacheWarmMode {
        match self {
            FtsWarmConfig::Off => CacheWarmMode::Off,
            FtsWarmConfig::Background { .. } => CacheWarmMode::Background,
            FtsWarmConfig::Blocking { .. } => CacheWarmMode::Blocking,
        }
    }

    pub open spec fn spec_concurrency(self) -> usize {
        match self {
            FtsWarmConfig::Off => 1,
            FtsWarmConfig::Background { concurrency, .. } => concurrency@,
            FtsWarmConfig::Blocking { concurrency, .. } => concurrency@,
        }
    }

    pub open spec fn spec_startup_generation_limit(self) -> Option<usize> {
        match self {
            FtsWarmConfig::Off => None,
            FtsWarmConfig::Background { startup_generation_limit, .. } => limit_value(
                startup_generation_limit,
            ),
            FtsWarmConfig::Blocking { startup_generation_limit, .. } => limit_value(
                startup_generation_limit,
            ),
        }
    }

    fn checked_limits(
        concurrency: usize,
        startup_generation_limit: Option<usize>,
    ) -> (checked: ConfigResult<(PositiveUsize, Option<PositiveUsize>)>)
        ensures
            match checked {
                Ok((c, l)) => concurrency > 0 && startup_generation_limit != Some(0usize) && c@
                    == concurrency && limit_value(l) == startup_generation_limit,
                Err(error) => if concurrency == 0 {
                    error@ == "FTS warm concurrency must be nonzero"@
                } else {
                    startup_generation_limit == Some(0usize) && error@
                        == "FTS warm generation limit must be nonzero"@
                },
            },
    {
        let concurrency = match PositiveUsize::checked(
            concurrency,
            "FTS warm concurrency must be nonzero",
        ) {
            Ok(concurrency) => concurrency,
            Err(error) => {
                return Err(error);
            },
        };
        match checked_optional_limit(
            startup_generation_limit,
            "FTS warm generation limit must be nonzero",
        ) {
            Ok(limit) => Ok((concurrency, limit)),
            Err(error) => Err(error),
        }
    }

    /// Builds a checked background warm policy.
    pub fn background(
        concurrency: usize,
        startup_generation_limit: Option<usize>,
    ) -> (checked: ConfigResult<Self>)
        ensures
            match checked {
                Ok(config) => {
                    &&& concurrency > 0 && startup_generation_limit != Some(0usize)
                    &&& config.spec_mode() == CacheWarmMode::Background
                    &&& config.spec_concurrency() == concurrency
                    &&& config.spec_startup_generation_limit() == startup_generation_limit
                },
                Err(error) => if concurrency == 0 {
                    error@ == "FTS warm concurrency must be nonzero"@
                } else {
                    startup_generation_limit == Some(0usize) && error@
                        == "FTS warm generation limit must be nonzero"@
                },
            },
    {
        match Self::checked_limits(concurrency, startup_generation_limit) {
            Ok((concurrency, startup_generation_limit)) => Ok(
                FtsWarmConfig::Background { concurrency, startup_generation_limit },
            ),
            Err(error) => Err(error),
        }
    }

    /// Builds a checked blocking warm policy.
    pub fn blocking(
        concurrency: usize,
        startup_generation_limit: Option<usize>,
    ) -> (checked: ConfigResult<Self>)
        ensures
            match checked {
                Ok(config) => {
                    &&& concurrency > 0 && startup_generation_limit != Some(0usize)
                    &&& config.spec_mode() == CacheWarmMode::Blocking
                    &&& config.spec_concurrency() == concurrency
                    &&& config.spec_startup_generation_limit() == startup_generation_limit
                },
                Err(error) => if concurrency == 0 {
                    error@ == "FTS warm concurrency must be nonzero"@
                } else {
                    startup_generation_limit == Some(0usize) && error@
                        == "FTS warm generation limit must be nonzero"@
                },
            },
    {
        match Self::checked_limits(concurrency, startup_generation_limit) {
            Ok((concurrency, startup_generation_limit)) => Ok(
                FtsWarmConfig::Blocking { concurrency, startup_generation_limit },
            ),
            Err(error) => Err(error),
        }
    }

    /// Resolved warm mode.
    pub fn mode(&self) -> (mode: CacheWarmMode)
        ensures
            mode == self.spec_mode(),
    {
        match self {
            FtsWarmConfig::Off => CacheWarmMode::Off,
            FtsWarmConfig::Background { .. } => CacheWarmMode::Background,
            FtsWarmConfig::Blocking { .. } => CacheWarmMode::Blocking,
        }
    }

    /// Maximum concurrent warm operations.
    pub fn concurrency(&self) -> (count: usize)
        ensures
            count == self.spec_concurrency(),
            count > 0,
    {
        match self {
            FtsWarmConfig::Off => 1,
            FtsWarmConfig::Background { concurrency, .. } => concurrency.get(),
            FtsWarmConfig::Blocking { concurrency, .. } => concurrency.get(),
        }
    }

    /// Optional active-generation cap.
    pub fn startup_generation_limit(&self) -> (limit: Option<usize>)
        ensures
            limit == self.spec_startup_generation_limit(),
            limit != Some(0usize),
    {
        let limit = match self {
            FtsWarmConfig::Off => {
                return None;
            },
            FtsWarmConfig::Background { startup_generation_limit, .. } => startup_generation_limit,
            FtsWarmConfig::Blocking { startup_generation_limit, .. } => startup_generation_limit,
        };
        match limit {
            Some(limit) => Some(limit.get()),
            None => None,
        }
    }
}

fn checked_optional_limit(limit: Option<usize>, message: &str) -> (checked: ConfigResult<
    Option<PositiveUsize>,
>)
    ensures
        match checked {
            Ok(checked) => limit != Some(0usize) && limit_value(checked) == limit,
            Err(error) => limit == Some(0usize) && error@ == message@,
        },
{
    match limit {
        None => Ok(None),
        Some(value) => match PositiveUsize::checked(value, message) {
            Ok(checked) => Ok(Some(checked)),
            Err(error) => Err(error),
        },
    }
}

/// Checked in-memory split-cache settings.
#[derive(Debug, Clone, Copy, PartialEq, Eq)]
pub struct FtsMemoryCacheConfig {
    memory_bytes: PositiveU64,
    warm: FtsWarmConfig,
    generation_grace_period: PositiveU64,
}

impl FtsMemoryCacheConfig {
    pub closed spec fn spec_memory_bytes(self) -> u64 {
        self.memory_bytes@
    }

    pub closed spec fn spec_warm(self) -> FtsWarmConfig {
        self.warm
    }

    pub closed spec fn spec_grace_period(self) -> u64 {
        self.generation_grace_period@
    }

    /// Builds checked in-memory cache settings.
    pub fn try_new(
        memory_bytes: u64,
        warm: FtsWarmConfig,
        generation_grace_period_secs: u64,
    ) -> (checked: ConfigResult<Self>)
        ensures
            match checked {
                Ok(config) => {
                    &&& memory_bytes > 0 && generation_grace_period_secs > 0
                    &&& config.spec_memory_bytes() == memory_bytes
                    &&& config.spec_warm() == warm
                    &&& config.spec_grace_period() == generation_grace_period_secs
                },
                Err(error) => if memory_bytes == 0 {
                    error@ == "FTS split memory cache must be nonzero"@
                } else {
                    generation_grace_period_secs == 0 && error@
                        == "FTS cache grace period must be nonzero"@
                },
            },
    {
        let memory_bytes = match PositiveU64::checked(
            memory_bytes,
            "FTS split memory cache must be nonzero",
        ) {
            Ok(bytes) => bytes,
            Err(error) => {
                return Err(error);
            },
        };
        match PositiveU64::checked(
            generation_grace_period_secs,
            "FTS cache grace period must be nonzero",
        ) {
            Ok(generation_grace_period) => Ok(
                FtsMemoryCacheConfig { memory_bytes, warm, generation_grace_period },
            ),
            Err(error) => Err(error),
        }
    }

    /// Resident-memory ceiling.
    pub fn memory_bytes(&self) -> (bytes: u64)
        ensures
            bytes == self.spec_memory_bytes(),
            bytes > 0,
    {
        self.memory_bytes.get()
    }

    /// Startup warm policy.
    pub fn warm(&self) -> (warm: &FtsWarmConfig)
        ensures
            *warm == self.spec_warm(),
    {
        &self.warm
    }

    /// Resolved startup warm mode.
    pub fn warm_mode(&self) -> (mode: CacheWarmMode)
        ensures
            mode == self.spec_warm().spec_mode(),
    {
        self.warm.mode()
    }

    /// Maximum concurrent split warm operations.
    pub fn warm_concurrency(&self) -> (count: usize)
        ensures
            count == self.spec_warm().spec_concurrency(),
            count > 0,
    {
        self.warm.concurrency()
    }

    /// Optional active-generation cap for one startup pass.
    pub fn startup_generation_limit(&self) -> (limit: Option<usize>)
        ensures
            limit == self.spec_warm().spec_startup_generation_limit(),
    {
        self.warm.startup_generation_limit()
    }

    /// Minimum local-artifact age, in seconds, before budget cleanup may evict
    /// it.
    pub fn generation_grace_period(&self) -> (seconds: u64)
        ensures
            seconds == self.spec_grace_period(),
            seconds > 0,
    {
        self.generation_grace_period.get()
    }
}

impl Default for FtsMemoryCacheConfig {
    fn default() -> (config: Self)
        ensures
            config.spec_memory_bytes() == 64 * 1024 * 1024,
            config.spec_warm().spec_mode() == CacheWarmMode::Background,
            config.spec_warm().spec_concurrency() == 4,
            config.spec_warm().spec_startup_generation_limit() is None,
            config.spec_grace_period() == 300,
    {
        let warm = match FtsWarmConfig::background(DEFAULT_FTS_WARM_CONCURRENCY, None) {
            Ok(warm) => warm,
            Err(_) => FtsWarmConfig::Off,
        };
        let memory = PositiveU64::new(DEFAULT_FTS_MEMORY_BYTES).unwrap();
        let grace = PositiveU64::new(DEFAULT_FTS_GENERATION_GRACE_PERIOD_SECS).unwrap();
        FtsMemoryCacheConfig { memory_bytes: memory, warm, generation_grace_period: grace }
    }
}

/// Checked memory-plus-disk split-cache settings.
#[derive(Debug, Clone, PartialEq, Eq)]
pub struct FtsHybridCacheConfig {
    memory_bytes: PositiveU64,
    disk: DiskCacheConfig,
    warm: FtsWarmConfig,
    generation_grace_period: PositiveU64,
}

impl FtsHybridCacheConfig {
    pub closed spec fn spec_memory_bytes(self) -> u64 {
        self.memory_bytes@
    }

    pub closed spec fn spec_disk(self) -> DiskCacheConfig {
        self.disk
    }

    pub closed spec fn spec_warm(self) -> FtsWarmConfig {
        self.warm
    }

    pub closed spec fn spec_grace_period(self) -> u64 {
        self.generation_grace_period@
    }

    /// Builds checked memory-plus-disk split-cache settings.
    pub fn try_new(
        memory_bytes: u64,
        disk_root: String,
        disk_bytes: usize,
        warm: FtsWarmConfig,
        generation_grace_period_secs: u64,
    ) -> (checked: ConfigResult<Self>)
        ensures
            match checked {
                Ok(config) => {
                    &&& memory_bytes > 0 && disk_root@.len() > 0 && disk_bytes > 0
                    &&& generation_grace_period_secs > 0
                    &&& config.spec_memory_bytes() == memory_bytes
                    &&& config.spec_disk().spec_root() == disk_root@
                    &&& config.spec_disk().spec_bytes() == disk_bytes
                    &&& config.spec_warm() == warm
                    &&& config.spec_grace_period() == generation_grace_period_secs
                },
                Err(error) => if memory_bytes == 0 {
                    error@ == "FTS split memory cache must be nonzero"@
                } else if disk_root@.len() == 0 {
                    error@ == "path must not be empty"@
                } else if disk_bytes == 0 {
                    error@ == "disk cache capacity must be nonzero"@
                } else {
                    generation_grace_period_secs == 0 && error@
                        == "FTS cache grace period must be nonzero"@
                },
            },
    {
        let memory_bytes = match PositiveU64::checked(
            memory_bytes,
            "FTS split memory cache must be nonzero",
        ) {
            Ok(bytes) => bytes,
            Err(error) => {
                return Err(error);
            },
        };
        let disk = match DiskCacheConfig::try_new(disk_root, disk_bytes) {
            Ok(disk) => disk,
            Err(error) => {
                return Err(error);
            },
        };
        match PositiveU64::checked(
            generation_grace_period_secs,
            "FTS cache grace period must be nonzero",
        ) {
            Ok(generation_grace_period) => Ok(
                FtsHybridCacheConfig { memory_bytes, disk, warm, generation_grace_period },
            ),
            Err(error) => Err(error),
        }
    }

    /// Resident-memory ceiling.
    pub fn memory_bytes(&self) -> (bytes: u64)
        ensures
            bytes == self.spec_memory_bytes(),
            bytes > 0,
    {
        self.memory_bytes.get()
    }

    /// Local-disk tier settings.
    pub fn disk(&self) -> (disk: &DiskCacheConfig)
        ensures
            *disk == self.spec_disk(),
    {
        &self.disk
    }

    /// Startup warm policy.
    pub fn warm(&self) -> (warm: &FtsWarmConfig)
        ensures
            *warm == self.spec_warm(),
    {
        &self.warm
    }

    /// Resolved startup warm mode.
    pub fn warm_mode(&self) -> (mode: CacheWarmMode)
        ensures
            mode == self.spec_warm().spec_mode(),
    {
        self.warm.mode()
    }

    /// Maximum concurrent split warm operations.
    pub fn warm_concurrency(&self) -> (count: usize)
        ensures
            count == self.spec_warm().spec_concurrency(),
            count > 0,
    {
        self.warm.concurrency()
    }

    /// Optional active-generation cap for one startup pass.
    pub fn startup_generation_limit(&self) -> (limit: Option<usize>)
        ensures
            limit == self.spec_warm().spec_startup_generation_limit(),
    {
        self.warm.startup_generation_limit()
    }

    /// Minimum local-artifact age, in seconds, before budget cleanup may evict
    /// it.
    pub fn generation_grace_period(&self) -> (seconds: u64)
        ensures
            seconds == self.spec_grace_period(),
            seconds > 0,
    {
        self.generation_grace_period.get()
    }

    /// Owned local-disk root for runtime construction.
    pub fn disk_root(&self) -> (root: String)
        ensures
            root@ == self.spec_disk().spec_root(),
    {
        self.disk.root().to_owned()
    }

    /// Local-disk ceiling.
    pub fn disk_bytes(&self) -> (bytes: u64)
        ensures
            bytes == self.spec_disk().spec_bytes(),
    {
        self.disk.bytes() as u64
    }
}

/// Default production-wide resident-vector admission budget (256 MiB).
pub const DEFAULT_VECTOR_MEMORY_BUDGET_BYTES: u64 = 268_435_456;

const DEFAULT_VECTOR_MEMORY_POLL_INTERVAL_SECS: u64 = 5;

const DEFAULT_SIMHASHER_CACHE_BYTES: usize = 33_554_432;

const DEFAULT_SIMHASHER_CACHE_ENTRIES: usize = 64;

/// Resident memory budget for vector memory stores.
#[derive(Debug, Clone, Copy, PartialEq, Eq)]
pub struct VectorMemoryBudget {
    bytes: Option<PositiveU64>,
}

impl VectorMemoryBudget {
    pub closed spec fn spec_bytes(self) -> Option<u64> {
        match self.bytes {
            Some(bytes) => Some(bytes@),
            None => None,
        }
    }

    /// Builds a bounded budget, rejecting zero.
    pub fn bounded(bytes: u64) -> (checked: ConfigResult<Self>)
        ensures
            match checked {
                Ok(budget) => bytes > 0 && budget.spec_bytes() == Some(bytes),
                Err(error) => bytes == 0 && error@ == "vector memory budget must be nonzero"@,
            },
    {
        match PositiveU64::checked(bytes, "vector memory budget must be nonzero") {
            Ok(bytes) => Ok(VectorMemoryBudget { bytes: Some(bytes) }),
            Err(error) => Err(error),
        }
    }

    /// Builds the unbounded policy used by exhaustive cache fixtures.
    pub fn unbounded_for_test() -> (budget: Self)
        ensures
            budget.spec_bytes() is None,
    {
        VectorMemoryBudget { bytes: None }
    }

    /// Positive budget bytes, or `None` when unbounded.
    pub fn bytes(self) -> (bytes: Option<u64>)
        ensures
            bytes == self.spec_bytes(),
            bytes != Some(0u64),
    {
        match self.bytes {
            Some(bytes) => Some(bytes.get()),
            None => None,
        }
    }
}

/// Checked retention limits for deterministic SimHash projection tables.
#[derive(Debug, Clone, Copy, PartialEq, Eq)]
pub struct SimHasherCacheSettings {
    bytes: PositiveUsize,
    entries: PositiveUsize,
}

impl SimHasherCacheSettings {
    pub closed spec fn spec_bytes(self) -> usize {
        self.bytes@
    }

    pub closed spec fn spec_entries(self) -> usize {
        self.entries@
    }

    /// Builds runtime-only byte and entry caps for the projection cache.
    ///
    /// Both limits must be positive because a zero-capacity registry could not
    /// satisfy any vector operation. A candidate larger than `bytes` is later
    /// rejected before allocation.
    pub fn try_new(bytes: usize, entries: usize) -> (checked: ConfigResult<Self>)
        ensures
            match checked {
                Ok(settings) => {
                    &&& bytes > 0 && entries > 0
                    &&& settings.spec_bytes() == bytes
                    &&& settings.spec_entries() == entries
                },
                Err(error) => if bytes == 0 {
                    error@ == "SimHasher cache bytes must be nonzero"@
                } else {
                    entries == 0 && error@ == "SimHasher cache entries must be nonzero"@
                },
            },
    {
        let bytes = match PositiveUsize::checked(bytes, "SimHasher cache bytes must be nonzero") {
            Ok(bytes) => bytes,
            Err(error) => {
                return Err(error);
            },
        };
        match PositiveUsize::checked(entries, "SimHasher cache entries must be nonzero") {
            Ok(entries) => Ok(SimHasherCacheSettings { bytes, entries }),
            Err(error) => Err(error),
        }
    }

    /// Maximum bytes retained or reserved by the registry.
    pub fn bytes(self) -> (bytes: usize)
        ensures
            bytes == self.spec_bytes(),
            bytes > 0,
    {
        self.bytes.get()
    }

    /// Maximum ready, failed, or constructing identities in the registry.
    pub fn entries(self) -> (entries: usize)
        ensures
            entries == self.spec_entries(),
            entries > 0,
    {
        self.entries.get()
    }

    /// Largest vector dimension whose 64 four-byte projections fit this byte
    /// cap.
    pub fn maximum_f32_dimension(self) -> (dimension: usize)
        ensures
            dimension == self.spec_bytes() / 256,
            dimension * 64 * 4 <= self.spec_bytes(),
            (dimension + 1) * 64 * 4 > self.spec_bytes(),
    {
        self.bytes.get() / 256
    }
}

impl Default for SimHasherCacheSettings {
    fn default() -> (settings: Self)
        ensures
            settings.spec_bytes() == 32 * 1024 * 1024,
            settings.spec_entries() == 64,
    {
        SimHasherCacheSettings {
            bytes: PositiveUsize::new(DEFAULT_SIMHASHER_CACHE_BYTES).unwrap(),
            entries: PositiveUsize::new(DEFAULT_SIMHASHER_CACHE_ENTRIES).unwrap(),
        }
    }
}

/// Startup and refresh behavior for vector memory stores.
#[derive(Debug, Clone, Copy, PartialEq, Eq)]
pub enum VectorMemoryHydrationMode {
    /// Return from open immediately and hydrate vector memory stores in the
    /// background.
    Background {
        /// Background refresh interval.
        poll_interval_secs: PositiveU64,
    },
    /// Hydrate once before open returns, then refresh in the background.
    BlockingThenBackground {
        /// Background refresh interval.
        poll_interval_secs: PositiveU64,
    },
}

impl VectorMemoryHydrationMode {
    pub open spec fn spec_poll_interval_secs(self) -> u64 {
        match self {
            VectorMemoryHydrationMode::Background { poll_interval_secs } => poll_interval_secs@,
            VectorMemoryHydrationMode::BlockingThenBackground { poll_interval_secs } =>
                poll_interval_secs@,
        }
    }

    /// Builds background vector-memory hydration.
    pub fn background(poll_interval_secs: u64) -> (checked: ConfigResult<Self>)
        ensures
            match checked {
                Ok(mode) => poll_interval_secs > 0 && mode is Background
                    && mode.spec_poll_interval_secs() == poll_interval_secs,
                Err(error) => poll_interval_secs == 0 && error@
                    == "vector memory poll interval must be nonzero"@,
            },
    {
        match PositiveU64::checked(
            poll_interval_secs,
            "vector memory poll interval must be nonzero",
        ) {
            Ok(poll_interval_secs) => Ok(
                VectorMemoryHydrationMode::Background { poll_interval_secs },
            ),
            Err(error) => Err(error),
        }
    }

    /// Builds blocking startup hydration followed by background refreshes.
    pub fn blocking_then_background(poll_interval_secs: u64) -> (checked: ConfigResult<Self>)
        ensures
            match checked {
                Ok(mode) => poll_interval_secs > 0 && mode is BlockingThenBackground
                    && mode.spec_poll_interval_secs() == poll_interval_secs,
                Err(error) => poll_interval_secs == 0 && error@
                    == "vector memory poll interval must be nonzero"@,
            },
    {
        match PositiveU64::checked(
            poll_interval_secs,
            "vector memory poll interval must be nonzero",
        ) {
            Ok(poll_interval_secs) => Ok(
                VectorMemoryHydrationMode::BlockingThenBackground { poll_interval_secs },
            ),
            Err(error) => Err(error),
        }
    }

    /// Background refresh interval in seconds.
    pub fn poll_interval_secs(self) -> (seconds: u64)
        ensures
            seconds == self.spec_poll_interval_secs(),
            seconds > 0,
    {
        match self {
            VectorMemoryHydrationMode::Background { poll_interval_secs } =>
                poll_interval_secs.get(),
            VectorMemoryHydrationMode::BlockingThenBackground { poll_interval_secs } =>
                poll_interval_secs.get(),
        }
    }
}

/// Checked settings for vector memory store pinning.
#[derive(Debug, Clone, Copy, PartialEq, Eq)]
pub struct VectorMemorySettings {
    budget: VectorMemoryBudget,
    hydration: VectorMemoryHydrationMode,
    simhasher_cache: SimHasherCacheSettings,
}

impl VectorMemorySettings {
    pub closed spec fn spec_budget(self) -> VectorMemoryBudget {
        self.budget
    }

    pub closed spec fn spec_hydration(self) -> VectorMemoryHydrationMode {
        self.hydration
    }

    pub closed spec fn spec_simhasher_cache(self) -> SimHasherCacheSettings {
        self.simhasher_cache
    }

    /// Builds vector memory settings.
    pub fn try_new(
        budget: VectorMemoryBudget,
        poll_interval_secs: u64,
    ) -> (checked: ConfigResult<Self>)
        ensures
            match checked {
                Ok(settings) => {
                    &&& poll_interval_secs > 0
                    &&& settings.spec_budget() == budget
                    &&& settings.spec_hydration() is Background
                    &&& settings.spec_hydration().spec_poll_interval_secs() == poll_interval_secs
                    &&& settings.spec_simhasher_cache().spec_bytes() == 32 * 1024 * 1024
                    &&& settings.spec_simhasher_cache().spec_entries() == 64
                },
                Err(error) => poll_interval_secs == 0 && error@
                    == "vector memory poll interval must be nonzero"@,
            },
    {
        match VectorMemoryHydrationMode::background(poll_interval_secs) {
            Ok(hydration) => Self::try_new_with_hydration(budget, hydration),
            Err(error) => Err(error),
        }
    }

    /// Builds vector memory settings with explicit startup hydration behavior.
    pub fn try_new_with_hydration(
        budget: VectorMemoryBudget,
        hydration: VectorMemoryHydrationMode,
    ) -> (checked: ConfigResult<Self>)
        ensures
            checked matches Ok(settings) && {
                &&& settings.spec_budget() == budget
                &&& settings.spec_hydration() == hydration
                &&& settings.spec_simhasher_cache().spec_bytes() == 32 * 1024 * 1024
                &&& settings.spec_simhasher_cache().spec_entries() == 64
            },
    {
        Ok(
            VectorMemorySettings {
                budget,
                hydration,
                simhasher_cache: SimHasherCacheSettings::default(),
            },
        )
    }

    /// Replaces only the runtime SimHasher retention limits.
    pub fn with_simhasher_cache(self, simhasher_cache: SimHasherCacheSettings) -> (settings: Self)
        ensures
            settings.spec_budget() == self.spec_budget(),
            settings.spec_hydration() == self.spec_hydration(),
            settings.spec_simhasher_cache() == simhasher_cache,
    {
        VectorMemorySettings { budget: self.budget, hydration: self.hydration, simhasher_cache }
    }

    /// Resident memory budget.
    pub fn budget(&self) -> (budget: VectorMemoryBudget)
        ensures
            budget == self.spec_budget(),
    {
        self.budget
    }

    /// Startup and refresh behavior.
    pub fn hydration(&self) -> (hydration: VectorMemoryHydrationMode)
        ensures
            hydration == self.spec_hydration(),
    {
        self.hydration
    }

    /// Background refresh interval in seconds.
    pub fn poll_interval_secs(&self) -> (seconds: u64)
        ensures
            seconds == self.spec_hydration().spec_poll_interval_secs(),
            seconds > 0,
    {
        self.hydration.poll_interval_secs()
    }

    /// Runtime-only SimHasher retention limits.
    pub fn simhasher_cache(&self) -> (cache: SimHasherCacheSettings)
        ensures
            cache == self.spec_simhasher_cache(),
    {
        self.simhasher_cache
    }
}

impl VectorMemorySettings {
    /// Whether these are the production defaults.
    pub open spec fn is_default(self) -> bool {
        &&& self.spec_budget().spec_bytes() == Some(DEFAULT_VECTOR_MEMORY_BUDGET_BYTES)
        &&& self.spec_hydration() is Background
        &&& self.spec_hydration().spec_poll_interval_secs() == 5
        &&& self.spec_simhasher_cache().spec_bytes() == 32 * 1024 * 1024
        &&& self.spec_simhasher_cache().spec_entries() == 64
    }
}

impl Default for VectorMemorySettings {
    fn default() -> (settings: Self)
        ensures
            settings.is_default(),
    {
        VectorMemorySettings {
            budget: VectorMemoryBudget {
                bytes: Some(PositiveU64::new(DEFAULT_VECTOR_MEMORY_BUDGET_BYTES).unwrap()),
            },
            hydration: VectorMemoryHydrationMode::Background {
                poll_interval_secs: PositiveU64::new(
                    DEFAULT_VECTOR_MEMORY_POLL_INTERVAL_SECS,
                ).unwrap(),
            },
            simhasher_cache: SimHasherCacheSettings::default(),
        }
    }
}

/// Runtime cache mode. The vector memory store is always enabled through
/// [`CacheConfig::vector_memory`]; this enum controls every other cache.
#[derive(Debug, Clone, PartialEq, Eq)]
pub enum CacheMode {
    /// Keep only vector memory stores enabled.
    VectorMemoryOnly,
    /// Use bounded in-memory block and metadata caches and an optional split
    /// cache.
    Memory {
        /// Block and metadata cache capacities.
        slate_db: SlateMemoryCacheConfig,
        /// Metadata warm policy.
        slate_warm: SlateWarmConfig,
        /// Optional shared split cache.
        fts: Option<FtsMemoryCacheConfig>,
    },
    /// Use disk-backed cache tiers for blocks, object-store reads, and splits.
    Hybrid {
        /// Hybrid-cache settings.
        slate_db: SlateHybridCacheConfig,
        /// Object-store disk-cache settings.
        object_store: SlateObjectStoreCacheSettings,
        /// Metadata warm policy.
        slate_warm: SlateWarmConfig,
        /// Optional shared split cache.
        fts: Option<FtsHybridCacheConfig>,
    },
}

/// Database cache configuration.
#[derive(Debug, Clone, PartialEq, Eq)]
pub struct CacheConfig {
    vector_memory: VectorMemorySettings,
    mode: CacheMode,
}

impl CacheConfig {
    pub closed spec fn spec_vector_memory(self) -> VectorMemorySettings {
        self.vector_memory
    }

    pub closed spec fn spec_mode(self) -> CacheMode {
        self.mode
    }

    /// Builds a cache config with checked vector-memory settings and mode.
    pub fn new(vector_memory: VectorMemorySettings, mode: CacheMode) -> (config: Self)
        ensures
            config.spec_vector_memory() == vector_memory,
            config.spec_mode() == mode,
    {
        CacheConfig { vector_memory, mode }
    }

    /// Cache mode for all caches except vector memory.
    pub fn mode(&self) -> (mode: &CacheMode)
        ensures
            *mode == self.spec_mode(),
    {
        &self.mode
    }

    /// Vector memory settings. Vector memory is always enabled.
    pub fn vector_memory(&self) -> (settings: &VectorMemorySettings)
        ensures
            *settings == self.spec_vector_memory(),
    {
        &self.vector_memory
    }

    /// Replaces the vector memory settings.
    pub fn with_vector_memory(self, vector_memory: VectorMemorySettings) -> (config: Self)
        ensures
            config.spec_vector_memory() == vector_memory,
            config.spec_mode() == self.spec_mode(),
    {
        CacheConfig { vector_memory, mode: self.mode }
    }

    /// Replaces the non-vector cache mode.
    pub fn with_mode(self, mode: CacheMode) -> (config: Self)
        ensures
            config.spec_vector_memory() == self.spec_vector_memory(),
            config.spec_mode() == mode,
    {
        CacheConfig { vector_memory: self.vector_memory, mode }
    }

    /// Object-store cache settings, if the mode enables them.
    pub fn object_store_cache(&self) -> (cache: Option<&SlateObjectStoreCacheSettings>)
        ensures
            cache == match self.spec_mode() {
                CacheMode::Hybrid { object_store, .. } => Some(&object_store),
                _ => None,
            },
    {
        match &self.mode {
            CacheMode::Hybrid { object_store, .. } => Some(object_store),
            _ => None,
        }
    }

    /// Startup warm policy when a block and metadata cache is enabled.
    pub fn slate_warm(&self) -> (warm: Option<&SlateWarmConfig>)
        ensures
            warm == match self.spec_mode() {
                CacheMode::VectorMemoryOnly => None,
                CacheMode::Memory { slate_warm, .. } => Some(&slate_warm),
                CacheMode::Hybrid { slate_warm, .. } => Some(&slate_warm),
            },
    {
        match &self.mode {
            CacheMode::VectorMemoryOnly => None,
            CacheMode::Memory { slate_warm, .. } => Some(slate_warm),
            CacheMode::Hybrid { slate_warm, .. } => Some(slate_warm),
        }
    }

    /// Split-cache memory capacity, or zero when the shared cache is disabled.
    pub fn fts_memory_bytes(&self) -> (bytes: u64)
        ensures
            bytes == match self.spec_mode() {
                CacheMode::Memory { fts: Some(fts), .. } => fts.spec_memory_bytes(),
                CacheMode::Hybrid { fts: Some(fts), .. } => fts.spec_memory_bytes(),
                _ => 0,
            },
    {
        match &self.mode {
            CacheMode::Memory { fts: Some(fts), .. } => fts.memory_bytes(),
            CacheMode::Hybrid { fts: Some(fts), .. } => fts.memory_bytes(),
            _ => 0,
        }
    }

    /// Split-cache disk root when the hybrid split cache is enabled.
    pub fn fts_disk_root(&self) -> (root: Option<String>)
        ensures
            match (root, self.spec_mode()) {
                (Some(root), CacheMode::Hybrid { fts: Some(fts), .. }) => root@
                    == fts.spec_disk().spec_root(),
                (Some(_), _) => false,
                (None, CacheMode::Hybrid { fts: Some(_), .. }) => false,
                (None, _) => true,
            },
    {
        match &self.mode {
            CacheMode::Hybrid { fts: Some(fts), .. } => Some(fts.disk_root()),
            _ => None,
        }
    }

    /// Split-cache disk capacity, or zero without an enabled disk tier.
    pub fn fts_disk_bytes(&self) -> (bytes: u64)
        ensures
            bytes == match self.spec_mode() {
                CacheMode::Hybrid { fts: Some(fts), .. } => fts.spec_disk().spec_bytes() as int,
                _ => 0,
            },
    {
        match &self.mode {
            CacheMode::Hybrid { fts: Some(fts), .. } => fts.disk_bytes(),
            _ => 0,
        }
    }

    /// Split warm policy; a disabled cache warms nothing.
    pub open spec fn spec_fts_warm(self) -> FtsWarmConfig {
        match self.spec_mode() {
            CacheMode::Memory { fts: Some(fts), .. } => fts.spec_warm(),
            CacheMode::Hybrid { fts: Some(fts), .. } => fts.spec_warm(),
            _ => FtsWarmConfig::Off,
        }
    }

    /// Split warm mode, resolving a disabled cache to off.
    pub fn fts_warm_mode(&self) -> (mode: CacheWarmMode)
        ensures
            mode == self.spec_fts_warm().spec_mode(),
    {
        match &self.mode {
            CacheMode::Memory { fts: Some(fts), .. } => fts.warm_mode(),
            CacheMode::Hybrid { fts: Some(fts), .. } => fts.warm_mode(),
            _ => CacheWarmMode::Off,
        }
    }

    /// Maximum split warm concurrency, resolving a disabled cache to one.
    pub fn fts_warm_concurrency(&self) -> (count: usize)
        ensures
            count == self.spec_fts_warm().spec_concurrency(),
            count > 0,
    {
        match &self.mode {
            CacheMode::Memory { fts: Some(fts), .. } => fts.warm_concurrency(),
            CacheMode::Hybrid { fts: Some(fts), .. } => fts.warm_concurrency(),
            _ => 1,
        }
    }

    /// Optional active-generation cap for startup warming.
    pub fn fts_startup_generation_limit(&self) -> (limit: Option<usize>)
        ensures
            limit == self.spec_fts_warm().spec_startup_generation_limit(),
    {
        match &self.mode {
            CacheMode::Memory { fts: Some(fts), .. } => fts.startup_generation_limit(),
            CacheMode::Hybrid { fts: Some(fts), .. } => fts.startup_generation_limit(),
            _ => None,
        }
    }

    /// Stale-artifact grace period in seconds.
    pub fn fts_generation_grace_period(&self) -> (seconds: u64)
        ensures
            seconds == match self.spec_mode() {
                CacheMode::Memory { fts: Some(fts), .. } => fts.spec_grace_period(),
                CacheMode::Hybrid { fts: Some(fts), .. } => fts.spec_grace_period(),
                _ => 300,
            },
    {
        match &self.mode {
            CacheMode::Memory { fts: Some(fts), .. } => fts.generation_grace_period(),
            CacheMode::Hybrid { fts: Some(fts), .. } => fts.generation_grace_period(),
            _ => DEFAULT_FTS_GENERATION_GRACE_PERIOD_SECS,
        }
    }
}

/// `slatedb::db_cache::DEFAULT_BLOCK_CACHE_CAPACITY`: 512 MiB.
#[verifier::external_body]
fn default_block_cache_capacity() -> (bytes: u64)
    ensures
        bytes == 512 * 1024 * 1024,
{
    slatedb::db_cache::DEFAULT_BLOCK_CACHE_CAPACITY
}

/// `slatedb::db_cache::DEFAULT_META_CACHE_CAPACITY`: 128 MiB.
#[verifier::external_body]
fn default_meta_cache_capacity() -> (bytes: u64)
    ensures
        bytes == 128 * 1024 * 1024,
{
    slatedb::db_cache::DEFAULT_META_CACHE_CAPACITY
}

impl CacheConfig {
    /// Whether this is the production default: the storage engine's own cache
    /// capacities, background warming, and a split cache in memory.
    pub open spec fn is_default(self) -> bool {
        &&& self.spec_vector_memory().is_default()
        &&& self.spec_mode() matches CacheMode::Memory { slate_db, slate_warm, fts: Some(fts) }
        &&& slate_db.spec_block_bytes() == 512 * 1024 * 1024
        &&& slate_db.spec_metadata_bytes() == 128 * 1024 * 1024
        &&& slate_warm matches SlateWarmConfig::Background { concurrency, startup_sst_limit }
        &&& concurrency@ == 4 && startup_sst_limit@ == 256
        &&& fts.spec_memory_bytes() == 64 * 1024 * 1024
        &&& fts.spec_warm().spec_mode() == CacheWarmMode::Background
        &&& fts.spec_warm().spec_concurrency() == 4
        &&& fts.spec_warm().spec_startup_generation_limit() is None
        &&& fts.spec_grace_period() == 300
    }
}

impl Default for CacheConfig {
    fn default() -> (config: Self)
        ensures
            config.is_default(),
    {
        let block_bytes = PositiveU64::new(default_block_cache_capacity()).unwrap();
        let metadata_bytes = PositiveU64::new(default_meta_cache_capacity()).unwrap();
        CacheConfig {
            vector_memory: VectorMemorySettings::default(),
            mode: CacheMode::Memory {
                slate_db: SlateMemoryCacheConfig { block_bytes, metadata_bytes },
                slate_warm: SlateWarmConfig::default(),
                fts: Some(FtsMemoryCacheConfig::default()),
            },
        }
    }
}

/// A hybrid cache has the capacities and the root that it was built with; none of
/// them may be empty.
pub proof fn law_hybrid_caches_read_back(
    memory_bytes: usize,
    disk_root: String,
    disk_bytes: usize,
    checked: ConfigResult<SlateHybridCacheConfig>,
    memory: usize,
    disk: &DiskCacheConfig,
)
    requires
        call_ensures(
            SlateHybridCacheConfig::try_new,
            (memory_bytes, disk_root, disk_bytes),
            checked,
        ),
        checked matches Ok(config) ==> call_ensures(
            SlateHybridCacheConfig::memory_bytes,
            (&config,),
            memory,
        ),
        checked matches Ok(config) ==> call_ensures(
            SlateHybridCacheConfig::disk,
            (&config,),
            disk,
        ),
    ensures
        checked is Ok <==> memory_bytes > 0 && disk_root@.len() > 0 && disk_bytes > 0,
        checked is Ok ==> memory == memory_bytes && disk.spec_root() == disk_root@
            && disk.spec_bytes() == disk_bytes,
{
}

/// A memory cache has the block and the metadata capacity that it was built with,
/// and their sum in all, as far as it fits.
pub proof fn law_memory_caches_read_back(
    block_bytes: u64,
    metadata_bytes: u64,
    checked: ConfigResult<SlateMemoryCacheConfig>,
    block: u64,
    metadata: u64,
    total: u64,
)
    requires
        call_ensures(SlateMemoryCacheConfig::try_new, (block_bytes, metadata_bytes), checked),
        checked matches Ok(config) ==> call_ensures(
            SlateMemoryCacheConfig::block_bytes,
            (config,),
            block,
        ),
        checked matches Ok(config) ==> call_ensures(
            SlateMemoryCacheConfig::metadata_bytes,
            (config,),
            metadata,
        ),
        checked matches Ok(config) ==> call_ensures(
            SlateMemoryCacheConfig::total_bytes,
            (config,),
            total,
        ),
    ensures
        checked is Ok <==> block_bytes > 0 && metadata_bytes > 0,
        checked is Ok ==> block == block_bytes && metadata == metadata_bytes,
        checked is Ok && block_bytes + metadata_bytes <= u64::MAX ==> total == block_bytes
            + metadata_bytes,
        checked is Ok && block_bytes + metadata_bytes > u64::MAX ==> total == u64::MAX,
{
}

/// What a metadata warm policy reads as.
pub open spec fn slate_warm_reads(
    config: SlateWarmConfig,
    mode: CacheWarmMode,
    concurrency: usize,
    limit: usize,
) -> bool {
    &&& call_ensures(SlateWarmConfig::mode, (&config,), mode)
    &&& call_ensures(SlateWarmConfig::concurrency, (&config,), concurrency)
    &&& call_ensures(SlateWarmConfig::startup_sst_limit, (&config,), limit)
}

/// A metadata warm policy has the mode and the limits that it was built with; no
/// limit may be zero. Without warming the concurrency is one and no tables are
/// considered.
pub proof fn law_metadata_warming_reads_back(
    concurrency: usize,
    startup_sst_limit: usize,
    background: ConfigResult<SlateWarmConfig>,
    blocking: ConfigResult<SlateWarmConfig>,
    mode: CacheWarmMode,
    read_concurrency: usize,
    read_limit: usize,
)
    requires
        call_ensures(SlateWarmConfig::background, (concurrency, startup_sst_limit), background),
        call_ensures(SlateWarmConfig::blocking, (concurrency, startup_sst_limit), blocking),
    ensures
        background is Ok <==> concurrency > 0 && startup_sst_limit > 0,
        blocking is Ok <==> concurrency > 0 && startup_sst_limit > 0,
        background is Ok && slate_warm_reads(
            background->Ok_0,
            mode,
            read_concurrency,
            read_limit,
        ) ==> mode is Background && read_concurrency == concurrency && read_limit
            == startup_sst_limit,
        blocking is Ok && slate_warm_reads(
            blocking->Ok_0,
            mode,
            read_concurrency,
            read_limit,
        ) ==> mode is Blocking && read_concurrency == concurrency && read_limit
            == startup_sst_limit,
        slate_warm_reads(SlateWarmConfig::Off, mode, read_concurrency, read_limit) ==> mode is Off
            && read_concurrency == 1 && read_limit == 0,
{
}

/// An object-store cache is handed to the storage engine as it was built, each
/// setting under its own name.
pub proof fn law_object_store_caches_read_back(
    root: String,
    max_cache_size_bytes: Option<usize>,
    part_size_bytes: usize,
    cache_puts: bool,
    warm: ObjectStoreWarmLevel,
    scan_interval: Option<u128>,
    max_open_file_handles: usize,
    checked: ConfigResult<SlateObjectStoreCacheSettings>,
    options: ObjectStoreCacheOptions,
    read_root: &str,
    read_warm: ObjectStoreWarmLevel,
)
    requires
        call_ensures(
            SlateObjectStoreCacheSettings::try_new,
            (
                root,
                max_cache_size_bytes,
                part_size_bytes,
                cache_puts,
                warm,
                scan_interval,
                max_open_file_handles,
            ),
            checked,
        ),
        checked matches Ok(settings) ==> call_ensures(
            SlateObjectStoreCacheSettings::to_slate_options,
            (&settings,),
            options,
        ),
        checked matches Ok(settings) ==> call_ensures(
            SlateObjectStoreCacheSettings::root,
            (&settings,),
            read_root,
        ),
        checked matches Ok(settings) ==> call_ensures(
            SlateObjectStoreCacheSettings::warm,
            (&settings,),
            read_warm,
        ),
    ensures
        checked is Ok <==> root@.len() > 0 && max_cache_size_bytes != Some(0usize)
            && part_size_bytes > 0 && max_open_file_handles > 0,
        checked is Ok ==> {
            &&& read_root@ == root@
            &&& read_warm == warm
            &&& options.root_folder@ == root@
            &&& options.max_cache_size_bytes == max_cache_size_bytes
            &&& options.part_size_bytes == part_size_bytes
            &&& options.cache_puts == cache_puts
            &&& options.scan_interval == scan_interval
            &&& options.max_open_file_handles == max_open_file_handles
            &&& warm is Off ==> options.preload_disk_cache_on_startup is None
            &&& warm is L0 ==> options.preload_disk_cache_on_startup == Some(PreloadLevel::L0Sst)
            &&& warm is All ==> options.preload_disk_cache_on_startup == Some(PreloadLevel::AllSst)
        },
{
}

/// The settings that a writer opens with are the runtime settings; its cache options
/// and those of a reader are those of the configured cache, and none without one.
pub proof fn law_opens_take_the_runtime_settings(
    config: SlateRuntimeConfig,
    settings: SlateSettings,
    changed: SlateRuntimeConfig,
    cache: Option<&SlateObjectStoreCacheSettings>,
    own: ObjectStoreCacheOptions,
    open: SlateOpenSettings,
    reader: Option<ObjectStoreCacheOptions>,
)
    requires
        call_ensures(SlateRuntimeConfig::with_runtime_settings, (config, settings), changed),
        call_ensures(SlateRuntimeConfig::to_writer_settings, (&changed, cache), open),
        call_ensures(SlateRuntimeConfig::to_reader_options, (&changed, cache), reader),
        cache matches Some(cache) ==> call_ensures(
            SlateObjectStoreCacheSettings::to_slate_options,
            (cache,),
            own,
        ),
    ensures
        open.settings == settings,
        cache is None ==> open.object_store_cache_options is None && reader is None,
        cache is Some ==> {
            &&& open.object_store_cache_options is Some && reader is Some
            &&& open.object_store_cache_options->Some_0.root_folder@ == own.root_folder@
            &&& reader->Some_0.root_folder@ == own.root_folder@
            &&& same_limits(open.object_store_cache_options->Some_0, own)
            &&& same_limits(reader->Some_0, own)
        },
{
}

/// The same options but for the folder.
pub open spec fn same_limits(a: ObjectStoreCacheOptions, b: ObjectStoreCacheOptions) -> bool {
    &&& a.max_cache_size_bytes == b.max_cache_size_bytes
    &&& a.part_size_bytes == b.part_size_bytes
    &&& a.cache_puts == b.cache_puts
    &&& a.preload_disk_cache_on_startup == b.preload_disk_cache_on_startup
    &&& a.scan_interval == b.scan_interval
    &&& a.max_open_file_handles == b.max_open_file_handles
}

/// What a split warm policy reads as.
pub open spec fn fts_warm_reads(
    config: FtsWarmConfig,
    mode: CacheWarmMode,
    concurrency: usize,
    limit: Option<usize>,
) -> bool {
    &&& call_ensures(FtsWarmConfig::mode, (&config,), mode)
    &&& call_ensures(FtsWarmConfig::concurrency, (&config,), concurrency)
    &&& call_ensures(FtsWarmConfig::startup_generation_limit, (&config,), limit)
}

/// A split warm policy has the mode and the limits that it was built with; no limit
/// may be zero. Without warming the concurrency is one and there is no limit.
pub proof fn law_split_warming_reads_back(
    concurrency: usize,
    startup_generation_limit: Option<usize>,
    background: ConfigResult<FtsWarmConfig>,
    blocking: ConfigResult<FtsWarmConfig>,
    mode: CacheWarmMode,
    read_concurrency: usize,
    read_limit: Option<usize>,
)
    requires
        call_ensures(FtsWarmConfig::background, (concurrency, startup_generation_limit), background),
        call_ensures(FtsWarmConfig::blocking, (concurrency, startup_generation_limit), blocking),
    ensures
        background is Ok <==> concurrency > 0 && startup_generation_limit != Some(0usize),
        blocking is Ok <==> concurrency > 0 && startup_generation_limit != Some(0usize),
        background is Ok && fts_warm_reads(
            background->Ok_0,
            mode,
            read_concurrency,
            read_limit,
        ) ==> mode is Background && read_concurrency == concurrency && read_limit
            == startup_generation_limit,
        blocking is Ok && fts_warm_reads(blocking->Ok_0, mode, read_concurrency, read_limit)
            ==> mode is Blocking && read_concurrency == concurrency && read_limit
            == startup_generation_limit,
        fts_warm_reads(FtsWarmConfig::Off, mode, read_concurrency, read_limit) ==> mode is Off
            && read_concurrency == 1 && read_limit is None,
{
}

/// A split cache in memory has the capacity, the warm policy and the grace period
/// that it was built with.
pub proof fn law_memory_split_caches_read_back(
    memory_bytes: u64,
    warm: FtsWarmConfig,
    grace_secs: u64,
    checked: ConfigResult<FtsMemoryCacheConfig>,
    memory: u64,
    read_warm: &FtsWarmConfig,
    grace: u64,
    modes: (CacheWarmMode, CacheWarmMode),
    counts: (usize, usize),
    limits: (Option<usize>, Option<usize>),
)
    requires
        call_ensures(FtsMemoryCacheConfig::try_new, (memory_bytes, warm, grace_secs), checked),
        checked matches Ok(config) ==> {
            &&& call_ensures(FtsMemoryCacheConfig::memory_bytes, (&config,), memory)
            &&& call_ensures(FtsMemoryCacheConfig::warm, (&config,), read_warm)
            &&& call_ensures(FtsMemoryCacheConfig::generation_grace_period, (&config,), grace)
            &&& call_ensures(FtsMemoryCacheConfig::warm_mode, (&config,), modes.0)
            &&& call_ensures(FtsMemoryCacheConfig::warm_concurrency, (&config,), counts.0)
            &&& call_ensures(FtsMemoryCacheConfig::startup_generation_limit, (&config,), limits.0)
        },
        fts_warm_reads(warm, modes.1, counts.1, limits.1),
    ensures
        checked is Ok <==> memory_bytes > 0 && grace_secs > 0,
        checked is Ok ==> {
            &&& memory == memory_bytes
            &&& *read_warm == warm
            &&& grace == grace_secs
            &&& modes.0 == modes.1 && counts.0 == counts.1 && limits.0 == limits.1
        },
{
}

/// A split cache with a disk tier has the capacities, the root, the warm policy and
/// the grace period that it was built with.
pub proof fn law_hybrid_split_caches_read_back(
    memory_bytes: u64,
    disk_root: String,
    disk_bytes: usize,
    warm: FtsWarmConfig,
    grace_secs: u64,
    checked: ConfigResult<FtsHybridCacheConfig>,
    memory: u64,
    disk: &DiskCacheConfig,
    root: String,
    bytes: u64,
    read_warm: &FtsWarmConfig,
    grace: u64,
    modes: (CacheWarmMode, CacheWarmMode),
    counts: (usize, usize),
    limits: (Option<usize>, Option<usize>),
)
    requires
        call_ensures(
            FtsHybridCacheConfig::try_new,
            (memory_bytes, disk_root, disk_bytes, warm, grace_secs),
            checked,
        ),
        checked matches Ok(config) ==> {
            &&& call_ensures(FtsHybridCacheConfig::memory_bytes, (&config,), memory)
            &&& call_ensures(FtsHybridCacheConfig::disk, (&config,), disk)
            &&& call_ensures(FtsHybridCacheConfig::disk_root, (&config,), root)
            &&& call_ensures(FtsHybridCacheConfig::disk_bytes, (&config,), bytes)
            &&& call_ensures(FtsHybridCacheConfig::warm, (&config,), read_warm)
            &&& call_ensures(FtsHybridCacheConfig::generation_grace_period, (&config,), grace)
            &&& call_ensures(FtsHybridCacheConfig::warm_mode, (&config,), modes.0)
            &&& call_ensures(FtsHybridCacheConfig::warm_concurrency, (&config,), counts.0)
            &&& call_ensures(FtsHybridCacheConfig::startup_generation_limit, (&config,), limits.0)
        },
        fts_warm_reads(warm, modes.1, counts.1, limits.1),
    ensures
        checked is Ok <==> memory_bytes > 0 && disk_root@.len() > 0 && disk_bytes > 0
            && grace_secs > 0,
        checked is Ok ==> {
            &&& memory == memory_bytes
            &&& disk.spec_root() == disk_root@ && disk.spec_bytes() == disk_bytes
            &&& root@ == disk_root@ && bytes == disk_bytes
            &&& *read_warm == warm
            &&& grace == grace_secs
            &&& modes.0 == modes.1 && counts.0 == counts.1 && limits.0 == limits.1
        },
{
}

/// Vector memory has the budget, the hydration and the retention limits that it was
/// built with; replacing the limits replaces nothing else.
pub proof fn law_vector_memory_reads_back(
    bytes: u64,
    bounded: ConfigResult<VectorMemoryBudget>,
    unbounded: VectorMemoryBudget,
    bound: Option<u64>,
    no_bound: Option<u64>,
    hydration: VectorMemoryHydrationMode,
    settings: ConfigResult<VectorMemorySettings>,
    limits: SimHasherCacheSettings,
    changed: VectorMemorySettings,
)
    requires
        call_ensures(VectorMemoryBudget::bounded, (bytes,), bounded),
        call_ensures(VectorMemoryBudget::unbounded_for_test, (), unbounded),
        bounded matches Ok(budget) ==> call_ensures(VectorMemoryBudget::bytes, (budget,), bound),
        call_ensures(VectorMemoryBudget::bytes, (unbounded,), no_bound),
        call_ensures(
            VectorMemorySettings::try_new_with_hydration,
            (unbounded, hydration),
            settings,
        ),
        settings is Ok ==> call_ensures(
            VectorMemorySettings::with_simhasher_cache,
            (settings->Ok_0, limits),
            changed,
        ),
    ensures
        bounded is Ok <==> bytes > 0,
        bounded is Ok ==> bound == Some(bytes),
        no_bound is None,
        settings is Ok,
        settings->Ok_0.spec_budget() == unbounded && settings->Ok_0.spec_hydration() == hydration,
        changed.spec_budget() == unbounded && changed.spec_hydration() == hydration
            && changed.spec_simhasher_cache() == limits,
{
}

/// Vector memory is hydrated in the background, or blocking at first, as asked for,
/// and refreshed at the interval that was given.
pub proof fn law_hydration_modes_read_back(
    interval: u64,
    budget: VectorMemoryBudget,
    background: ConfigResult<VectorMemoryHydrationMode>,
    blocking: ConfigResult<VectorMemoryHydrationMode>,
    settings: ConfigResult<VectorMemorySettings>,
    read_background: u64,
    read_blocking: u64,
    read: u64,
    hydration: VectorMemoryHydrationMode,
    read_budget: VectorMemoryBudget,
)
    requires
        call_ensures(VectorMemoryHydrationMode::background, (interval,), background),
        call_ensures(VectorMemoryHydrationMode::blocking_then_background, (interval,), blocking),
        call_ensures(VectorMemorySettings::try_new, (budget, interval), settings),
        background matches Ok(mode) ==> call_ensures(
            VectorMemoryHydrationMode::poll_interval_secs,
            (mode,),
            read_background,
        ),
        blocking matches Ok(mode) ==> call_ensures(
            VectorMemoryHydrationMode::poll_interval_secs,
            (mode,),
            read_blocking,
        ),
        settings matches Ok(settings) ==> {
            &&& call_ensures(VectorMemorySettings::poll_interval_secs, (&settings,), read)
            &&& call_ensures(VectorMemorySettings::hydration, (&settings,), hydration)
            &&& call_ensures(VectorMemorySettings::budget, (&settings,), read_budget)
        },
    ensures
        background is Ok <==> interval > 0,
        blocking is Ok <==> interval > 0,
        settings is Ok <==> interval > 0,
        background is Ok ==> background->Ok_0 is Background && read_background == interval,
        blocking is Ok ==> blocking->Ok_0 is BlockingThenBackground && read_blocking == interval,
        settings is Ok ==> read == interval && hydration is Background && read_budget == budget,
{
}

/// Retention limits read back as they were built; the largest dimension is the
/// largest whose sixty-four projections of four bytes a component fit the bytes.
pub proof fn law_retention_limits_read_back(
    bytes: usize,
    entries: usize,
    checked: ConfigResult<SimHasherCacheSettings>,
    read_bytes: usize,
    read_entries: usize,
    dimension: usize,
)
    requires
        call_ensures(SimHasherCacheSettings::try_new, (bytes, entries), checked),
        checked matches Ok(settings) ==> {
            &&& call_ensures(SimHasherCacheSettings::bytes, (settings,), read_bytes)
            &&& call_ensures(SimHasherCacheSettings::entries, (settings,), read_entries)
            &&& call_ensures(SimHasherCacheSettings::maximum_f32_dimension, (settings,), dimension)
        },
    ensures
        checked is Ok <==> bytes > 0 && entries > 0,
        checked is Ok ==> read_bytes == bytes && read_entries == entries,
        checked is Ok ==> 256 * dimension <= bytes < 256 * (dimension + 1),
{
}

/// A cache configuration has the settings and the mode that it was built with;
/// replacing one leaves the other.
pub proof fn law_cache_configurations_read_back(
    vector_memory: VectorMemorySettings,
    mode: CacheMode,
    other_vector_memory: VectorMemorySettings,
    other_mode: CacheMode,
    config: CacheConfig,
    with_vector: CacheConfig,
    with_mode: CacheConfig,
    read_mode: &CacheMode,
    read_vector: &VectorMemorySettings,
)
    requires
        call_ensures(CacheConfig::new, (vector_memory, mode), config),
        call_ensures(CacheConfig::with_vector_memory, (config, other_vector_memory), with_vector),
        call_ensures(CacheConfig::with_mode, (config, other_mode), with_mode),
        call_ensures(CacheConfig::mode, (&config,), read_mode),
        call_ensures(CacheConfig::vector_memory, (&config,), read_vector),
    ensures
        *read_mode == mode,
        *read_vector == vector_memory,
        with_vector.spec_vector_memory() == other_vector_memory,
        with_vector.spec_mode() == mode,
        with_mode.spec_vector_memory() == vector_memory,
        with_mode.spec_mode() == other_mode,
{
}

/// The object-store cache and the metadata warm policy are those of the mode; only
/// a hybrid mode has the former, and vector memory alone has neither.
pub proof fn law_modes_decide_the_storage_caches(
    config: CacheConfig,
    cache: Option<&SlateObjectStoreCacheSettings>,
    warm: Option<&SlateWarmConfig>,
)
    requires
        call_ensures(CacheConfig::object_store_cache, (&config,), cache),
        call_ensures(CacheConfig::slate_warm, (&config,), warm),
    ensures
        config.spec_mode() is VectorMemoryOnly ==> cache is None && warm is None,
        config.spec_mode() is Memory ==> cache is None && warm == Some(
            &config.spec_mode()->Memory_slate_warm,
        ),
        config.spec_mode() is Hybrid ==> cache == Some(&config.spec_mode()->object_store) && warm
            == Some(&config.spec_mode()->Hybrid_slate_warm),
{
}

/// What a cache configuration reads as for splits.
pub open spec fn split_cache_reads(
    config: CacheConfig,
    memory: u64,
    disk_root: Option<String>,
    disk_bytes: u64,
    mode: CacheWarmMode,
    concurrency: usize,
    limit: Option<usize>,
    grace: u64,
) -> bool {
    &&& call_ensures(CacheConfig::fts_memory_bytes, (&config,), memory)
    &&& call_ensures(CacheConfig::fts_disk_root, (&config,), disk_root)
    &&& call_ensures(CacheConfig::fts_disk_bytes, (&config,), disk_bytes)
    &&& call_ensures(CacheConfig::fts_warm_mode, (&config,), mode)
    &&& call_ensures(CacheConfig::fts_warm_concurrency, (&config,), concurrency)
    &&& call_ensures(CacheConfig::fts_startup_generation_limit, (&config,), limit)
    &&& call_ensures(CacheConfig::fts_generation_grace_period, (&config,), grace)
}

/// Without a split cache there is no memory, no disk tier and no warming, and the
/// grace period is five minutes.
pub proof fn law_absent_split_caches_hold_nothing(
    config: CacheConfig,
    memory: u64,
    disk_root: Option<String>,
    disk_bytes: u64,
    mode: CacheWarmMode,
    concurrency: usize,
    limit: Option<usize>,
    grace: u64,
)
    requires
        split_cache_reads(config, memory, disk_root, disk_bytes, mode, concurrency, limit, grace),
        config.spec_mode() is VectorMemoryOnly || config.spec_mode() is Memory
            && config.spec_mode()->Memory_fts is None || config.spec_mode() is Hybrid
            && config.spec_mode()->Hybrid_fts is None,
    ensures
        memory == 0,
        disk_root is None && disk_bytes == 0,
        mode is Off && concurrency == 1 && limit is None,
        grace == 300,
{
}

/// A split cache in memory is read as it is configured, and has no disk tier.
pub proof fn law_memory_split_caches_are_taken(
    config: CacheConfig,
    fts: FtsMemoryCacheConfig,
    memory: u64,
    disk_root: Option<String>,
    disk_bytes: u64,
    mode: CacheWarmMode,
    concurrency: usize,
    limit: Option<usize>,
    grace: u64,
    own: (u64, CacheWarmMode, usize, Option<usize>, u64),
)
    requires
        split_cache_reads(config, memory, disk_root, disk_bytes, mode, concurrency, limit, grace),
        config.spec_mode() is Memory && config.spec_mode()->Memory_fts == Some(fts),
        call_ensures(FtsMemoryCacheConfig::memory_bytes, (&fts,), own.0),
        call_ensures(FtsMemoryCacheConfig::warm_mode, (&fts,), own.1),
        call_ensures(FtsMemoryCacheConfig::warm_concurrency, (&fts,), own.2),
        call_ensures(FtsMemoryCacheConfig::startup_generation_limit, (&fts,), own.3),
        call_ensures(FtsMemoryCacheConfig::generation_grace_period, (&fts,), own.4),
    ensures
        (memory, mode, concurrency, limit, grace) == own,
        disk_root is None && disk_bytes == 0,
{
}

/// A split cache with a disk tier is read as it is configured.
pub proof fn law_hybrid_split_caches_are_taken(
    config: CacheConfig,
    fts: FtsHybridCacheConfig,
    memory: u64,
    disk_root: Option<String>,
    disk_bytes: u64,
    mode: CacheWarmMode,
    concurrency: usize,
    limit: Option<usize>,
    grace: u64,
    own: (u64, CacheWarmMode, usize, Option<usize>, u64),
    own_root: String,
    own_bytes: u64,
)
    requires
        split_cache_reads(config, memory, disk_root, disk_bytes, mode, concurrency, limit, grace),
        config.spec_mode() is Hybrid && config.spec_mode()->Hybrid_fts == Some(fts),
        call_ensures(FtsHybridCacheConfig::memory_bytes, (&fts,), own.0),
        call_ensures(FtsHybridCacheConfig::warm_mode, (&fts,), own.1),
        call_ensures(FtsHybridCacheConfig::warm_concurrency, (&fts,), own.2),
        call_ensures(FtsHybridCacheConfig::startup_generation_limit, (&fts,), own.3),
        call_ensures(FtsHybridCacheConfig::generation_grace_period, (&fts,), own.4),
        call_ensures(FtsHybridCacheConfig::disk_root, (&fts,), own_root),
        call_ensures(FtsHybridCacheConfig::disk_bytes, (&fts,), own_bytes),
    ensures
        (memory, mode, concurrency, limit, grace) == own,
        disk_root is Some && disk_root->Some_0@ == own_root@,
        disk_bytes == own_bytes,
{
}

/// The production defaults: 256 MiB of vectors refreshed every five seconds, 512
/// MiB of blocks and 128 MiB of metadata warmed in the background, and 64 MiB of
/// splits warmed in the background.
pub proof fn law_production_cache_defaults(config: CacheConfig)
    requires
        call_ensures(CacheConfig::default, (), config),
    ensures
        ({
            let vector = config.spec_vector_memory();
            let mode = config.spec_mode();
            &&& vector.spec_budget().spec_bytes() == Some(268_435_456u64)
            &&& vector.spec_hydration() is Background
            &&& vector.spec_hydration().spec_poll_interval_secs() == 5
            &&& vector.spec_simhasher_cache().spec_bytes() == 33_554_432
            &&& vector.spec_simhasher_cache().spec_entries() == 64
            &&& mode is Memory
            &&& mode->Memory_slate_db.spec_block_bytes() == 536_870_912
            &&& mode->Memory_slate_db.spec_metadata_bytes() == 134_217_728
            &&& mode->Memory_slate_warm is Background
            &&& mode->Memory_slate_warm->Background_concurrency@ == 4
            &&& mode->Memory_slate_warm->Background_startup_sst_limit@ == 256
            &&& mode->Memory_fts is Some
            &&& mode->Memory_fts->Some_0.spec_memory_bytes() == 67_108_864
            &&& mode->Memory_fts->Some_0.spec_warm() is Background
            &&& mode->Memory_fts->Some_0.spec_warm().spec_concurrency() == 4
            &&& mode->Memory_fts->Some_0.spec_warm().spec_startup_generation_limit() is None
            &&& mode->Memory_fts->Some_0.spec_grace_period() == 300
        }),
{
}

/// The retention limits of vector memory read back as they were set.
pub proof fn law_retention_limits_are_set(
    settings: VectorMemorySettings,
    limits: SimHasherCacheSettings,
    changed: VectorMemorySettings,
    read: SimHasherCacheSettings,
)
    requires
        call_ensures(VectorMemorySettings::with_simhasher_cache, (settings, limits), changed),
        call_ensures(VectorMemorySettings::simhasher_cache, (&changed,), read),
    ensures
        read == limits,
{
}

} // verus!
