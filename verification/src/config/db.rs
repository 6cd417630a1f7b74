//! Runtime settings of an opened database.

use vstd::prelude::*;

use crate::config::cache::{
    CacheConfig, CacheMode, FtsMemoryCacheConfig, FtsWarmConfig, SimHasherCacheSettings,
    SlateMemoryCacheConfig, SlateRuntimeConfig, SlateSettings, SlateWarmConfig, VectorMemoryBudget,
    VectorMemorySettings,
};
use crate::config::limits::{PositiveU64, PositiveUsize};
use crate::error::{ConfigError, ConfigResult};
use crate::render::{decimal, decimal_string};

verus! {

const EMBEDDED_VECTOR_MEMORY_BYTES: u64 = 67_108_864;

const EMBEDDED_VECTOR_MEMORY_POLL_INTERVAL_SECS: u64 = 5;

const EMBEDDED_SIMHASHER_MEMORY_BYTES: usize = 8_388_608;

const EMBEDDED_SIMHASHER_ENTRIES: usize = 16;

const EMBEDDED_FTS_MEMORY_BYTES: u64 = 16_777_216;

const EMBEDDED_FTS_GENERATION_GRACE_PERIOD_SECS: u64 = 300;

const EMBEDDED_IN_MEMORY_SLATE_BLOCK_BYTES: u64 = 16_777_216;

const EMBEDDED_IN_MEMORY_SLATE_METADATA_BYTES: u64 = 8_388_608;

const EMBEDDED_DISK_SLATE_BLOCK_BYTES: u64 = 50_331_648;

const EMBEDDED_DISK_SLATE_METADATA_BYTES: u64 = 16_777_216;

const EMBEDDED_L0_SST_BYTES: usize = 16_777_216;

const EMBEDDED_MAX_UNFLUSHED_BYTES: usize = 67_108_864;

/// Where an embedded database keeps its data.
#[derive(Debug, Clone, Copy, PartialEq, Eq, Structural)]
pub enum EmbeddedStorageProfile {
    InMemory,
    Disk,
}

impl EmbeddedStorageProfile {
    /// Milliseconds between flushes.
    pub open spec fn spec_flush_interval(self) -> u64 {
        match self {
            EmbeddedStorageProfile::InMemory => 1,
            EmbeddedStorageProfile::Disk => 3,
        }
    }

    /// Bytes of the block cache and of the metadata cache.
    pub open spec fn spec_slate_cache(self) -> (nat, nat) {
        match self {
            EmbeddedStorageProfile::InMemory => (16 * 1024 * 1024, 8 * 1024 * 1024),
            EmbeddedStorageProfile::Disk => (48 * 1024 * 1024, 16 * 1024 * 1024),
        }
    }

    /// Milliseconds between flushes.
    pub fn flush_interval(self) -> (milliseconds: u64)
        ensures
            milliseconds == self.spec_flush_interval(),
    {
        match self {
            EmbeddedStorageProfile::InMemory => 1,
            EmbeddedStorageProfile::Disk => 3,
        }
    }

    /// Bytes of the block cache and of the metadata cache.
    pub fn slate_cache(self) -> (bytes: (u64, u64))
        ensures
            bytes.0 == self.spec_slate_cache().0,
            bytes.1 == self.spec_slate_cache().1,
    {
        match self {
            EmbeddedStorageProfile::InMemory => (
                EMBEDDED_IN_MEMORY_SLATE_BLOCK_BYTES,
                EMBEDDED_IN_MEMORY_SLATE_METADATA_BYTES,
            ),
            EmbeddedStorageProfile::Disk => (
                EMBEDDED_DISK_SLATE_BLOCK_BYTES,
                EMBEDDED_DISK_SLATE_METADATA_BYTES,
            ),
        }
    }
}

/// `head`, the byte in decimal and `tail`, as a rejected byte is reported.
fn rejected_byte(head: &str, byte: u8, tail: &str) -> (error: ConfigError)
    ensures
        error@ == head@ + decimal(byte as nat) + tail@,
{
    let mut message = head.to_owned();
    let digits = decimal_string(byte as u64);
    message.append(digits.as_str());
    message.append(tail);
    ConfigError::new(message.as_str())
}

/// Edge storage encoding selected for newly written edge lists.
#[derive(Debug, Clone, Copy, PartialEq, Eq, Structural)]
pub enum EdgeEncoding {
    /// Store edge lists without compression.
    Uncompressed,
    /// Store edge lists using EFP compression.
    Efp,
}

impl Default for EdgeEncoding {
    fn default() -> (encoding: Self)
        ensures
            encoding == EdgeEncoding::Uncompressed,
    {
        EdgeEncoding::Uncompressed
    }
}

impl EdgeEncoding {
    /// The byte used by the edge encoding layer: this library writes zero for
    /// none and one for EFP.
    pub open spec fn byte(self) -> u8 {
        match self {
            EdgeEncoding::Uncompressed => 0,
            EdgeEncoding::Efp => 1,
        }
    }

    /// The encoding that a byte selects, out of the bytes that this library
    /// writes.
    pub open spec fn of_byte(byte: u8) -> Option<EdgeEncoding> {
        if byte == 0 {
            Some(EdgeEncoding::Uncompressed)
        } else if byte == 1 {
            Some(EdgeEncoding::Efp)
        } else {
            None
        }
    }

    /// The byte used by the edge encoding layer.
    pub fn as_u8(self) -> (byte: u8)
        ensures
            byte == self.byte(),
    {
        match self {
            EdgeEncoding::Uncompressed => 0,
            EdgeEncoding::Efp => 1,
        }
    }
}

impl TryFrom<u8> for EdgeEncoding {
    type Error = ConfigError;

    fn try_from(value: u8) -> (checked: ConfigResult<Self>)
        ensures
            match checked {
                Ok(encoding) => EdgeEncoding::of_byte(value) == Some(encoding),
                Err(error) => EdgeEncoding::of_byte(value) is None && error@
                    == "invalid edge encoding type "@ + decimal(value as nat)
                    + "; expected none or efp"@,
            },
    {
        match value {
            0 => Ok(EdgeEncoding::Uncompressed),
            1 => Ok(EdgeEncoding::Efp),
            other => Err(
                rejected_byte("invalid edge encoding type ", other, "; expected none or efp"),
            ),
        }
    }
}

impl vstd::std_specs::convert::TryFromSpecImpl<u8> for EdgeEncoding {
    open spec fn obeys_try_from_spec() -> bool {
        false
    }

    open spec fn try_from_spec(value: u8) -> ConfigResult<Self> {
        arbitrary()
    }
}

/// Edge update policy for maintaining adjacency rows.
#[derive(Debug, Clone, Copy, PartialEq, Eq, Structural)]
pub enum EdgeUpdatePolicy {
    /// Always use read-modify-write.
    Eager,
    /// Always append deltas.
    Lazy,
    /// Choose eager or lazy by approximate vertex degree.
    Adaptive,
}

impl Default for EdgeUpdatePolicy {
    fn default() -> (policy: Self)
        ensures
            policy == EdgeUpdatePolicy::Eager,
    {
        EdgeUpdatePolicy::Eager
    }
}

impl EdgeUpdatePolicy {
    /// The byte used by the edge update layer: this library numbers the policies
    /// from zero in the order in which they are declared.
    pub open spec fn byte(self) -> u8 {
        match self {
            EdgeUpdatePolicy::Eager => 0,
            EdgeUpdatePolicy::Lazy => 1,
            EdgeUpdatePolicy::Adaptive => 2,
        }
    }

    /// The policy that a byte selects, out of the bytes that this library writes.
    pub open spec fn of_byte(byte: u8) -> Option<EdgeUpdatePolicy> {
        if byte == 0 {
            Some(EdgeUpdatePolicy::Eager)
        } else if byte == 1 {
            Some(EdgeUpdatePolicy::Lazy)
        } else if byte == 2 {
            Some(EdgeUpdatePolicy::Adaptive)
        } else {
            None
        }
    }

    /// The byte used by the edge update layer.
    pub fn as_u8(self) -> (byte: u8)
        ensures
            byte == self.byte(),
    {
        match self {
            EdgeUpdatePolicy::Eager => 0,
            EdgeUpdatePolicy::Lazy => 1,
            EdgeUpdatePolicy::Adaptive => 2,
        }
    }
}

impl TryFrom<u8> for EdgeUpdatePolicy {
    type Error = ConfigError;

    fn try_from(value: u8) -> (checked: ConfigResult<Self>)
        ensures
            match checked {
                Ok(policy) => EdgeUpdatePolicy::of_byte(value) == Some(policy),
                Err(error) => EdgeUpdatePolicy::of_byte(value) is None && error@
                    == "invalid edge update policy "@ + decimal(value as nat)
                    + "; expected eager, lazy, or adaptive"@,
            },
    {
        match value {
            0 => Ok(EdgeUpdatePolicy::Eager),
            1 => Ok(EdgeUpdatePolicy::Lazy),
            2 => Ok(EdgeUpdatePolicy::Adaptive),
            other => Err(
                rejected_byte(
                    "invalid edge update policy ",
                    other,
                    "; expected eager, lazy, or adaptive",
                ),
            ),
        }
    }
}

impl vstd::std_specs::convert::TryFromSpecImpl<u8> for EdgeUpdatePolicy {
    open spec fn obeys_try_from_spec() -> bool {
        false
    }

    open spec fn try_from_spec(value: u8) -> ConfigResult<Self> {
        arbitrary()
    }
}

/// The byte of an edge encoding selects that encoding.
pub proof fn law_edge_encoding_byte_round_trip(encoding: EdgeEncoding)
    ensures
        EdgeEncoding::of_byte(encoding.byte()) == Some(encoding),
{
}

/// The byte of an edge update policy selects that policy, and no other policy
/// has this byte.
pub proof fn law_edge_update_policy_byte_round_trip(policy: EdgeUpdatePolicy, byte: u8)
    ensures
        EdgeUpdatePolicy::of_byte(policy.byte()) == Some(policy),
        EdgeUpdatePolicy::of_byte(byte) == Some(policy) <==> byte == policy.byte(),
{
}

/// Who opens the database and why.
#[derive(Debug, Clone, PartialEq, Eq)]
pub struct OpenAttribution {
    /// Stable identity for a specific opened client instance.
    pub db_client_id: Option<String>,
    /// Correlation ID for a specific writer-open attempt.
    pub writer_open_id: Option<String>,
    /// Human-readable reason for opening storage.
    pub open_reason: Option<String>,
    /// Requested control-plane term, when present.
    pub requested_term: Option<u64>,
    /// Correlates a sequence of election actions within one gateway tick.
    pub election_tick_id: Option<String>,
    /// Correlates demote, fence and promote decisions from one control-plane
    /// action.
    pub fence_op_id: Option<String>,
    /// Identifies the gateway process issuing the control-plane action.
    pub gateway_instance_id: Option<String>,
}

impl Default for OpenAttribution {
    fn default() -> (attribution: Self)
        ensures
            attribution == (OpenAttribution {
                db_client_id: None,
                writer_open_id: None,
                open_reason: None,
                requested_term: None,
                election_tick_id: None,
                fence_op_id: None,
                gateway_instance_id: None,
            }),
    {
        OpenAttribution {
            db_client_id: None,
            writer_open_id: None,
            open_reason: None,
            requested_term: None,
            election_tick_id: None,
            fence_op_id: None,
            gateway_instance_id: None,
        }
    }
}

/// Full runtime configuration for an opened database.
#[derive(Debug, Clone, PartialEq, Eq)]
pub struct HelixConfig {
    db: DbConfig,
}

impl HelixConfig {
    pub closed spec fn spec_db(self) -> DbConfig {
        self.db
    }

    /// Builds a full runtime config from database settings.
    pub fn new(db: DbConfig) -> (config: Self)
        ensures
            config.spec_db() == db,
    {
        HelixConfig { db }
    }

    /// Borrows the user-facing database settings.
    pub fn db(&self) -> (db: &DbConfig)
        ensures
            *db == self.spec_db(),
    {
        &self.db
    }
}

/// User and runtime database settings.
///
/// Indexes are deliberately excluded. Dynamic index definitions live in runtime
/// metadata and are loaded into the runtime state when the database opens.
#[derive(Debug, Clone, PartialEq, Eq)]
pub struct DbConfig {
    default_encoding_type: EdgeEncoding,
    enable_wal: bool,
    max_concurrent_reads: PositiveUsize,
    edge_update_policy: EdgeUpdatePolicy,
    high_degree_threshold: u64,
    id_lease_size: PositiveU64,
    slate: SlateRuntimeConfig,
    cache: CacheConfig,
    open_attribution: Option<OpenAttribution>,
}

/// The settings that a [`DbConfig`] holds.
pub ghost struct DbConfigView {
    pub default_encoding_type: EdgeEncoding,
    pub enable_wal: bool,
    pub max_concurrent_reads: usize,
    pub edge_update_policy: EdgeUpdatePolicy,
    pub high_degree_threshold: u64,
    pub id_lease_size: u64,
    pub slate: SlateSettings,
    pub cache: CacheConfig,
    pub open_attribution: Option<OpenAttribution>,
}

impl View for DbConfig {
    type V = DbConfigView;

    closed spec fn view(&self) -> DbConfigView {
        DbConfigView {
            default_encoding_type: self.default_encoding_type,
            enable_wal: self.enable_wal,
            max_concurrent_reads: self.max_concurrent_reads@,
            edge_update_policy: self.edge_update_policy,
            high_degree_threshold: self.high_degree_threshold,
            id_lease_size: self.id_lease_size@,
            slate: self.slate.spec_settings(),
            cache: self.cache,
            open_attribution: self.open_attribution,
        }
    }
}

impl DbConfigView {
    /// Whether every setting but the storage-engine settings and the cache
    /// settings has its default.
    pub open spec fn has_default_tuning(self) -> bool {
        &&& self.default_encoding_type == EdgeEncoding::Uncompressed
        &&& self.enable_wal
        &&& self.max_concurrent_reads == 64
        &&& self.edge_update_policy == EdgeUpdatePolicy::Eager
        &&& self.high_degree_threshold == 1000
        &&& self.id_lease_size == 1000
        &&& self.open_attribution is None
    }
}

/// Whether these are the local cache settings of an embedded database.
pub open spec fn is_embedded_cache(cache: CacheConfig, profile: EmbeddedStorageProfile) -> bool {
    let vector = cache.spec_vector_memory();
    &&& vector.spec_budget().spec_bytes() == Some((64 * 1024 * 1024) as u64)
    &&& vector.spec_hydration() is Background
    &&& vector.spec_hydration().spec_poll_interval_secs() == 5
    &&& vector.spec_simhasher_cache().spec_bytes() == 8 * 1024 * 1024
    &&& vector.spec_simhasher_cache().spec_entries() == 16
    &&& cache.spec_mode() matches CacheMode::Memory { slate_db, slate_warm, fts: Some(fts) }
    &&& slate_db.spec_block_bytes() == profile.spec_slate_cache().0
    &&& slate_db.spec_metadata_bytes() == profile.spec_slate_cache().1
    &&& slate_warm == SlateWarmConfig::Off
    &&& fts.spec_memory_bytes() == 16 * 1024 * 1024
    &&& fts.spec_warm() == FtsWarmConfig::Off
    &&& fts.spec_grace_period() == 300
}

impl DbConfig {
    /// Creates a configuration with default tuning.
    pub fn new() -> (config: Self)
        ensures
            config@.has_default_tuning(),
            config@.slate == (SlateSettings {
                flush_interval: None,
                l0_sst_size_bytes: None,
                max_unflushed_bytes: None,
            }),
            config@.cache.is_default(),
    {
        DbConfig {
            default_encoding_type: EdgeEncoding::Uncompressed,
            enable_wal: true,
            max_concurrent_reads: PositiveUsize::new(64).unwrap(),
            edge_update_policy: EdgeUpdatePolicy::Eager,
            high_degree_threshold: 1000,
            id_lease_size: PositiveU64::new(1000).unwrap(),
            slate: SlateRuntimeConfig::new(),
            cache: CacheConfig::default(),
            open_attribution: None,
        }
    }

    /// Builds source-specific local defaults for an embedded handle.
    pub fn embedded_default(profile: EmbeddedStorageProfile) -> (config: Self)
        ensures
            config@.has_default_tuning(),
            config@.slate.flush_interval == Some(profile.spec_flush_interval()),
            config@.slate.l0_sst_size_bytes == Some((16 * 1024 * 1024) as usize),
            config@.slate.max_unflushed_bytes == Some((64 * 1024 * 1024) as usize),
            is_embedded_cache(config@.cache, profile),
    {
        let slate = SlateSettings {
            flush_interval: Some(profile.flush_interval()),
            l0_sst_size_bytes: Some(EMBEDDED_L0_SST_BYTES),
            max_unflushed_bytes: Some(EMBEDDED_MAX_UNFLUSHED_BYTES),
        };
        let (block_bytes, metadata_bytes) = profile.slate_cache();
        let simhasher_cache = SimHasherCacheSettings::try_new(
            EMBEDDED_SIMHASHER_MEMORY_BYTES,
            EMBEDDED_SIMHASHER_ENTRIES,
        ).unwrap();
        let vector_memory = VectorMemorySettings::try_new(
            VectorMemoryBudget::bounded(EMBEDDED_VECTOR_MEMORY_BYTES).unwrap(),
            EMBEDDED_VECTOR_MEMORY_POLL_INTERVAL_SECS,
        ).unwrap().with_simhasher_cache(simhasher_cache);
        let slate_db = SlateMemoryCacheConfig::try_new(block_bytes, metadata_bytes).unwrap();
        let fts = FtsMemoryCacheConfig::try_new(
            EMBEDDED_FTS_MEMORY_BYTES,
            FtsWarmConfig::Off,
            EMBEDDED_FTS_GENERATION_GRACE_PERIOD_SECS,
        ).unwrap();
        let cache = CacheConfig::new(
            vector_memory,
            CacheMode::Memory { slate_db, slate_warm: SlateWarmConfig::Off, fts: Some(fts) },
        );
        DbConfig::new().with_slate_settings(slate).with_cache(cache)
    }

    /// Edge encoding used for newly written edge lists.
    pub fn default_encoding_type(&self) -> (encoding: EdgeEncoding)
        ensures
            encoding == self@.default_encoding_type,
    {
        self.default_encoding_type
    }

    /// Raw edge encoding byte used by the storage layer.
    pub fn default_encoding_type_byte(&self) -> (byte: u8)
        ensures
            byte == self@.default_encoding_type.byte(),
    {
        self.default_encoding_type.as_u8()
    }

    /// Whether write-ahead logging is enabled.
    pub fn enable_wal(&self) -> (enabled: bool)
        ensures
            enabled == self@.enable_wal,
    {
        self.enable_wal
    }

    /// Maximum concurrent reads during traversal.
    pub fn max_concurrent_reads(&self) -> (reads: usize)
        ensures
            reads == self@.max_concurrent_reads,
            reads > 0,
    {
        self.max_concurrent_reads.get()
    }

    /// Edge update policy for adjacency maintenance.
    pub fn edge_update_policy(&self) -> (policy: EdgeUpdatePolicy)
        ensures
            policy == self@.edge_update_policy,
    {
        self.edge_update_policy
    }

    /// Raw edge update policy byte used by the storage layer.
    pub fn edge_update_policy_byte(&self) -> (byte: u8)
        ensures
            byte == self@.edge_update_policy.byte(),
    {
        self.edge_update_policy.as_u8()
    }

    /// Degree above which the adaptive policy updates lazily.
    pub fn high_degree_threshold(&self) -> (threshold: u64)
        ensures
            threshold == self@.high_degree_threshold,
    {
        self.high_degree_threshold
    }

    /// Number of IDs to lease at a time for automatic ID allocation.
    pub fn id_lease_size(&self) -> (size: u64)
        ensures
            size == self@.id_lease_size,
            size > 0,
    {
        self.id_lease_size.get()
    }

    /// Storage-engine runtime settings.
    pub fn slate(&self) -> (slate: &SlateRuntimeConfig)
        ensures
            slate.spec_settings() == self@.slate,
    {
        &self.slate
    }

    /// Runtime cache settings.
    pub fn cache(&self) -> (cache: &CacheConfig)
        ensures
            *cache == self@.cache,
    {
        &self.cache
    }

    /// Attribution fields for the next storage open, if any.
    pub fn open_attribution(&self) -> (attribution: &Option<OpenAttribution>)
        ensures
            *attribution == self@.open_attribution,
    {
        &self.open_attribution
    }

    /// Sets the default encoding type for edges.
    pub fn with_encoding_type(self, encoding_type: EdgeEncoding) -> (config: Self)
        ensures
            config@ == (DbConfigView { default_encoding_type: encoding_type, ..self@ }),
    {
        let mut config = self;
        config.default_encoding_type = encoding_type;
        config
    }

    /// Sets the default edge encoding from a raw byte.
    pub fn try_with_encoding_type_u8(self, encoding_type: u8) -> (checked: ConfigResult<Self>)
        ensures
            match checked {
                Ok(config) => EdgeEncoding::of_byte(encoding_type) is Some && config@ == (
                DbConfigView {
                    default_encoding_type: EdgeEncoding::of_byte(encoding_type)->0,
                    ..self@
                }),
                Err(error) => EdgeEncoding::of_byte(encoding_type) is None && error@
                    == "invalid edge encoding type "@ + decimal(encoding_type as nat)
                    + "; expected none or efp"@,
            },
    {
        match EdgeEncoding::try_from(encoding_type) {
            Ok(encoding) => Ok(self.with_encoding_type(encoding)),
            Err(error) => Err(error),
        }
    }

    /// Enables or disables write-ahead logging.
    pub fn with_wal(self, enable: bool) -> (config: Self)
        ensures
            config@ == (DbConfigView { enable_wal: enable, ..self@ }),
    {
        let mut config = self;
        config.enable_wal = enable;
        config
    }

    /// Sets the maximum concurrent reads during traversal; zero becomes one.
    pub fn with_max_concurrent_reads(self, max: usize) -> (config: Self)
        ensures
            config@ == (DbConfigView {
                max_concurrent_reads: if max == 0 {
                    1
                } else {
                    max
                },
                ..self@
            }),
    {
        let mut config = self;
        config.max_concurrent_reads =
        match PositiveUsize::new(max) {
            Some(max) => max,
            None => PositiveUsize::new(1).unwrap(),
        };
        config
    }

    /// Attaches structured attribution fields to the next storage open.
    pub fn with_open_attribution(self, attribution: OpenAttribution) -> (config: Self)
        ensures
            config@ == (DbConfigView { open_attribution: Some(attribution), ..self@ }),
    {
        let mut config = self;
        config.open_attribution = Some(attribution);
        config
    }

    /// Sets the edge update policy.
    pub fn with_edge_update_policy(self, policy: EdgeUpdatePolicy) -> (config: Self)
        ensures
            config@ == (DbConfigView { edge_update_policy: policy, ..self@ }),
    {
        let mut config = self;
        config.edge_update_policy = policy;
        config
    }

    /// Sets the edge update policy from a raw byte.
    pub fn try_with_edge_update_policy_u8(self, policy: u8) -> (checked: ConfigResult<Self>)
        ensures
            match checked {
                Ok(config) => EdgeUpdatePolicy::of_byte(policy) is Some && config@ == (
                DbConfigView {
                    edge_update_policy: EdgeUpdatePolicy::of_byte(policy)->0,
                    ..self@
                }),
                Err(error) => EdgeUpdatePolicy::of_byte(policy) is None && error@
                    == "invalid edge update policy "@ + decimal(policy as nat)
                    + "; expected eager, lazy, or adaptive"@,
            },
    {
        match EdgeUpdatePolicy::try_from(policy) {
            Ok(policy) => Ok(self.with_edge_update_policy(policy)),
            Err(error) => Err(error),
        }
    }

    /// Sets the high-degree threshold for the adaptive policy.
    ///
    /// Vertices with approximate degree above this threshold use lazy updates
    /// in adaptive mode.
    pub fn with_high_degree_threshold(self, threshold: u64) -> (config: Self)
        ensures
            config@ == (DbConfigView { high_degree_threshold: threshold, ..self@ }),
    {
        let mut config = self;
        config.high_degree_threshold = threshold;
        config
    }

    /// Enables adaptive edge updates above the given degree.
    pub fn with_adaptive_updates(self, threshold: u64) -> (config: Self)
        ensures
            config@ == (DbConfigView {
                edge_update_policy: EdgeUpdatePolicy::Adaptive,
                high_degree_threshold: threshold,
                ..self@
            }),
    {
        let mut config = self;
        config.edge_update_policy = EdgeUpdatePolicy::Adaptive;
        config.high_degree_threshold = threshold;
        config
    }

    /// Sets the ID lease size for automatic ID allocation.
    ///
    /// Higher values reduce storage operations but may waste IDs when the
    /// database is closed before the lease is exhausted.
    pub fn with_id_lease_size(self, size: PositiveU64) -> (config: Self)
        ensures
            config@ == (DbConfigView { id_lease_size: size@, ..self@ }),
    {
        let mut config = self;
        config.id_lease_size = size;
        config
    }

    /// Sets the ID lease size from a raw integer, rejecting zero.
    pub fn try_with_id_lease_size(self, size: u64) -> (checked: ConfigResult<Self>)
        ensures
            match checked {
                Ok(config) => size > 0 && config@ == (DbConfigView {
                    id_lease_size: size,
                    ..self@
                }),
                Err(error) => size == 0 && error@ == "id lease size must be nonzero"@,
            },
    {
        match PositiveU64::checked(size, "id lease size must be nonzero") {
            Ok(size) => Ok(self.with_id_lease_size(size)),
            Err(error) => Err(error),
        }
    }

    /// Sets custom storage-engine runtime settings.
    pub fn with_slate_settings(self, settings: SlateSettings) -> (config: Self)
        ensures
            config@ == (DbConfigView { slate: settings, ..self@ }),
    {
        let mut config = self;
        config.slate = config.slate.with_runtime_settings(settings);
        config
    }

    /// Sets the runtime cache configuration.
    pub fn with_cache(self, cache: CacheConfig) -> (config: Self)
        ensures
            config@ == (DbConfigView { cache, ..self@ }),
    {
        let mut config = self;
        config.cache = cache;
        config
    }
}

impl Default for DbConfig {
    fn default() -> (config: Self)
        ensures
            config@.has_default_tuning(),
            config@.slate == (SlateSettings {
                flush_interval: None,
                l0_sst_size_bytes: None,
                max_unflushed_bytes: None,
            }),
            config@.cache.is_default(),
    {
        DbConfig::new()
    }
}

/// Both hold the same settings but for those that are named.
pub open spec fn differs_only_in(
    a: DbConfigView,
    b: DbConfigView,
    encoding: bool,
    wal: bool,
    reads: bool,
    policy: bool,
    threshold: bool,
    lease: bool,
    slate: bool,
    cache: bool,
    attribution: bool,
) -> bool {
    &&& !encoding ==> a.default_encoding_type == b.default_encoding_type
    &&& !wal ==> a.enable_wal == b.enable_wal
    &&& !reads ==> a.max_concurrent_reads == b.max_concurrent_reads
    &&& !policy ==> a.edge_update_policy == b.edge_update_policy
    &&& !threshold ==> a.high_degree_threshold == b.high_degree_threshold
    &&& !lease ==> a.id_lease_size == b.id_lease_size
    &&& !slate ==> a.slate == b.slate
    &&& !cache ==> a.cache == b.cache
    &&& !attribution ==> a.open_attribution == b.open_attribution
}

/// An encoding is set and read back; nothing else changes.
pub proof fn law_encodings_are_set(
    base: DbConfig,
    config: DbConfig,
    encoding: EdgeEncoding,
    read: EdgeEncoding,
    byte: u8,
    own_byte: u8,
)
    requires
        call_ensures(DbConfig::with_encoding_type, (base, encoding), config),
        call_ensures(DbConfig::default_encoding_type, (&config,), read),
        call_ensures(DbConfig::default_encoding_type_byte, (&config,), byte),
        call_ensures(EdgeEncoding::as_u8, (encoding,), own_byte),
    ensures
        read == encoding,
        byte == own_byte,
        differs_only_in(
            base@,
            config@,
            true,
            false,
            false,
            false,
            false,
            false,
            false,
            false,
            false,
        ),
{
}

/// Write-ahead logging is switched and read back; nothing else changes.
pub proof fn law_wal_is_set(
    base: DbConfig,
    config: DbConfig,
    enable: bool,
    read: bool,
)
    requires
        call_ensures(DbConfig::with_wal, (base, enable), config),
        call_ensures(DbConfig::enable_wal, (&config,), read),
    ensures
        read == enable,
        differs_only_in(
            base@,
            config@,
            false,
            true,
            false,
            false,
            false,
            false,
            false,
            false,
            false,
        ),
{
}

/// The concurrent reads are set and read back, at least one; nothing else changes.
pub proof fn law_concurrent_reads_are_set(
    base: DbConfig,
    config: DbConfig,
    max: usize,
    read: usize,
)
    requires
        call_ensures(DbConfig::with_max_concurrent_reads, (base, max), config),
        call_ensures(DbConfig::max_concurrent_reads, (&config,), read),
    ensures
        max > 0 ==> read == max,
        max == 0 ==> read == 1,
        differs_only_in(
            base@,
            config@,
            false,
            false,
            true,
            false,
            false,
            false,
            false,
            false,
            false,
        ),
{
}

/// An update policy is set and read back; nothing else changes.
pub proof fn law_policies_are_set(
    base: DbConfig,
    config: DbConfig,
    policy: EdgeUpdatePolicy,
    read: EdgeUpdatePolicy,
    byte: u8,
    own_byte: u8,
)
    requires
        call_ensures(DbConfig::with_edge_update_policy, (base, policy), config),
        call_ensures(DbConfig::edge_update_policy, (&config,), read),
        call_ensures(DbConfig::edge_update_policy_byte, (&config,), byte),
        call_ensures(EdgeUpdatePolicy::as_u8, (policy,), own_byte),
    ensures
        read == policy,
        byte == own_byte,
        differs_only_in(
            base@,
            config@,
            false,
            false,
            false,
            true,
            false,
            false,
            false,
            false,
            false,
        ),
{
}

/// A degree threshold is set and read back; nothing else changes.
pub proof fn law_thresholds_are_set(
    base: DbConfig,
    config: DbConfig,
    threshold: u64,
    read: u64,
)
    requires
        call_ensures(DbConfig::with_high_degree_threshold, (base, threshold), config),
        call_ensures(DbConfig::high_degree_threshold, (&config,), read),
    ensures
        read == threshold,
        differs_only_in(
            base@,
            config@,
            false,
            false,
            false,
            false,
            true,
            false,
            false,
            false,
            false,
        ),
{
}

/// Adaptive updates set the policy and the threshold; nothing else changes.
pub proof fn law_adaptive_updates_are_set(
    base: DbConfig,
    config: DbConfig,
    threshold: u64,
    read: u64,
    policy: EdgeUpdatePolicy,
)
    requires
        call_ensures(DbConfig::with_adaptive_updates, (base, threshold), config),
        call_ensures(DbConfig::high_degree_threshold, (&config,), read),
        call_ensures(DbConfig::edge_update_policy, (&config,), policy),
    ensures
        read == threshold,
        policy is Adaptive,
        differs_only_in(
            base@,
            config@,
            false,
            false,
            false,
            true,
            true,
            false,
            false,
            false,
            false,
        ),
{
}

/// A lease size other than zero is set and read back, and zero is rejected; nothing
/// else changes.
pub proof fn law_lease_sizes_are_set(
    base: DbConfig,
    size: u64,
    checked: ConfigResult<DbConfig>,
    read: u64,
)
    requires
        call_ensures(DbConfig::try_with_id_lease_size, (base, size), checked),
        checked matches Ok(config) ==> call_ensures(DbConfig::id_lease_size, (&config,), read),
    ensures
        checked is Ok <==> size > 0,
        checked is Ok ==> read == size,
        checked matches Ok(config) ==> differs_only_in(
            base@,
            config@,
            false,
            false,
            false,
            false,
            false,
            true,
            false,
            false,
            false,
        ),
{
}

/// Storage settings are set and read back; nothing else changes.
pub proof fn law_storage_settings_are_set(
    base: DbConfig,
    config: DbConfig,
    settings: SlateSettings,
    read: &SlateRuntimeConfig,
)
    requires
        call_ensures(DbConfig::with_slate_settings, (base, settings), config),
        call_ensures(DbConfig::slate, (&config,), read),
    ensures
        read.spec_settings() == settings,
        differs_only_in(
            base@,
            config@,
            false,
            false,
            false,
            false,
            false,
            false,
            true,
            false,
            false,
        ),
{
}

/// The caches are set and read back; nothing else changes.
pub proof fn law_caches_are_set(
    base: DbConfig,
    config: DbConfig,
    cache: CacheConfig,
    read: &CacheConfig,
)
    requires
        call_ensures(DbConfig::with_cache, (base, cache), config),
        call_ensures(DbConfig::cache, (&config,), read),
    ensures
        *read == cache,
        differs_only_in(
            base@,
            config@,
            false,
            false,
            false,
            false,
            false,
            false,
            false,
            true,
            false,
        ),
{
}

/// An attribution is attached and read back; nothing else changes.
pub proof fn law_attributions_are_set(
    base: DbConfig,
    config: DbConfig,
    attribution: OpenAttribution,
    read: &Option<OpenAttribution>,
)
    requires
        call_ensures(DbConfig::with_open_attribution, (base, attribution), config),
        call_ensures(DbConfig::open_attribution, (&config,), read),
    ensures
        *read == Some(attribution),
        differs_only_in(
            base@,
            config@,
            false,
            false,
            false,
            false,
            false,
            false,
            false,
            false,
            true,
        ),
{
}

/// Raw bytes select the encoding and the policy whose bytes they are, and others
/// are rejected; a rejected byte changes nothing, and an accepted one nothing else.
pub proof fn law_raw_bytes_select(
    base: DbConfig,
    byte: u8,
    encoding: EdgeEncoding,
    policy: EdgeUpdatePolicy,
    encoding_byte: u8,
    policy_byte: u8,
    by_encoding: ConfigResult<DbConfig>,
    by_policy: ConfigResult<DbConfig>,
)
    requires
        call_ensures(EdgeEncoding::as_u8, (encoding,), encoding_byte),
        call_ensures(EdgeUpdatePolicy::as_u8, (policy,), policy_byte),
        call_ensures(DbConfig::try_with_encoding_type_u8, (base, byte), by_encoding),
        call_ensures(DbConfig::try_with_edge_update_policy_u8, (base, byte), by_policy),
    ensures
        encoding is Uncompressed ==> encoding_byte == 0,
        encoding is Efp ==> encoding_byte == 1,
        policy is Eager ==> policy_byte == 0,
        policy is Lazy ==> policy_byte == 1,
        policy is Adaptive ==> policy_byte == 2,
        by_encoding is Ok <==> byte <= 1,
        by_policy is Ok <==> byte <= 2,
        by_encoding is Ok && byte == encoding_byte ==> by_encoding->Ok_0@.default_encoding_type
            == encoding,
        by_policy is Ok && byte == policy_byte ==> by_policy->Ok_0@.edge_update_policy == policy,
        by_encoding matches Ok(config) ==> differs_only_in(
            base@,
            config@,
            true,
            false,
            false,
            false,
            false,
            false,
            false,
            false,
            false,
        ),
        by_policy matches Ok(config) ==> differs_only_in(
            base@,
            config@,
            false,
            false,
            false,
            true,
            false,
            false,
            false,
            false,
            false,
        ),
{
}

/// The default tuning: no compression, logging on, 64 concurrent reads, eager
/// updates, thresholds and leases of 1000, nothing attributed, and the storage
/// engine's own settings.
pub proof fn law_default_tuning(config: DbConfig, default: DbConfig)
    requires
        call_ensures(DbConfig::new, (), config),
        call_ensures(DbConfig::default, (), default),
    ensures
        config@.default_encoding_type is Uncompressed && default@.default_encoding_type is Uncompressed,
        config@.enable_wal && default@.enable_wal,
        config@.max_concurrent_reads == 64 && default@.max_concurrent_reads == 64,
        config@.edge_update_policy is Eager && default@.edge_update_policy is Eager,
        config@.high_degree_threshold == 1000 && default@.high_degree_threshold == 1000,
        config@.id_lease_size == 1000 && default@.id_lease_size == 1000,
        config@.open_attribution is None && default@.open_attribution is None,
        config@.slate.flush_interval is None && default@.slate.flush_interval is None,
        config@.slate.l0_sst_size_bytes is None && default@.slate.l0_sst_size_bytes is None,
        config@.slate.max_unflushed_bytes is None && default@.slate.max_unflushed_bytes is None,
{
}

/// An embedded database has the default tuning, tables of 16 MiB, at most 64 MiB
/// unflushed, and small caches that are not warmed; on disk it flushes every three
/// milliseconds with larger storage caches, in memory every millisecond.
pub proof fn law_embedded_defaults(profile: EmbeddedStorageProfile, config: DbConfig)
    requires
        call_ensures(DbConfig::embedded_default, (profile,), config),
    ensures
        config@.has_default_tuning(),
        config@.slate.l0_sst_size_bytes == Some(16_777_216usize),
        config@.slate.max_unflushed_bytes == Some(67_108_864usize),
        profile is InMemory ==> config@.slate.flush_interval == Some(1u64),
        profile is Disk ==> config@.slate.flush_interval == Some(3u64),
        ({
            let vector = config@.cache.spec_vector_memory();
            let mode = config@.cache.spec_mode();
            &&& vector.spec_budget().spec_bytes() == Some(67_108_864u64)
            &&& vector.spec_hydration() is Background
            &&& vector.spec_hydration().spec_poll_interval_secs() == 5
            &&& vector.spec_simhasher_cache().spec_bytes() == 8_388_608
            &&& vector.spec_simhasher_cache().spec_entries() == 16
            &&& mode is Memory
            &&& profile is InMemory ==> mode->Memory_slate_db.spec_block_bytes() == 16_777_216
                && mode->Memory_slate_db.spec_metadata_bytes() == 8_388_608
            &&& profile is Disk ==> mode->Memory_slate_db.spec_block_bytes() == 50_331_648
                && mode->Memory_slate_db.spec_metadata_bytes() == 16_777_216
            &&& mode->Memory_slate_warm is Off
            &&& mode->Memory_fts is Some
            &&& mode->Memory_fts->Some_0.spec_memory_bytes() == 16_777_216
            &&& mode->Memory_fts->Some_0.spec_warm() is Off
            &&& mode->Memory_fts->Some_0.spec_grace_period() == 300
        }),
{
}

/// A runtime configuration has the database settings that it was built with.
pub proof fn law_runtime_configurations_read_back(db: DbConfig, config: HelixConfig, read: &DbConfig)
    requires
        call_ensures(HelixConfig::new, (db,), config),
        call_ensures(HelixConfig::db, (&config,), read),
    ensures
        *read == db,
{
}

/// An embedded database flushes every millisecond in memory and every three on disk,
/// and has larger storage caches on disk.
pub proof fn law_embedded_profiles(
    profile: EmbeddedStorageProfile,
    milliseconds: u64,
    bytes: (u64, u64),
)
    requires
        call_ensures(EmbeddedStorageProfile::flush_interval, (profile,), milliseconds),
        call_ensures(EmbeddedStorageProfile::slate_cache, (profile,), bytes),
    ensures
        profile is InMemory ==> milliseconds == 1 && bytes == (16_777_216u64, 8_388_608u64),
        profile is Disk ==> milliseconds == 3 && bytes == (50_331_648u64, 16_777_216u64),
{
}

/// A checked lease size is set and read back; nothing else changes.
pub proof fn law_checked_lease_sizes_are_set(
    base: DbConfig,
    size: PositiveU64,
    config: DbConfig,
    read: u64,
)
    requires
        call_ensures(DbConfig::with_id_lease_size, (base, size), config),
        call_ensures(DbConfig::id_lease_size, (&config,), read),
    ensures
        read == size@,
        differs_only_in(
            base@,
            config@,
            false,
            false,
            false,
            false,
            false,
            true,
            false,
            false,
            false,
        ),
{
}

} // verus!
