//! Tiers, counters and observable state of the split cache.

use vstd::prelude::*;

use crate::config::cache::{FtsHybridCacheConfig, FtsMemoryCacheConfig};
use crate::config::limits::DiskCacheConfig;
use crate::order::{sort_ranked, sort_values, Rank, Ranked};
use crate::split_cache::disk::DiskUsage;
use crate::split_cache::key::{
    key_of, namespace_root, namespaced_root, TextSplitCacheKey, TextSplitRef,
};

verus! {

/// Validated cache tier of the text runtime.
#[derive(Debug, Clone, PartialEq, Eq)]
pub enum FtsCacheConfig {
    /// Memory-only split caching.
    Memory(FtsMemoryCacheConfig),
    /// Memory plus complete local split artifacts.
    Hybrid(FtsHybridCacheConfig),
}

impl FtsCacheConfig {
    pub open spec fn spec_memory_bytes(self) -> u64 {
        match self {
            FtsCacheConfig::Memory(config) => config.spec_memory_bytes(),
            FtsCacheConfig::Hybrid(config) => config.spec_memory_bytes(),
        }
    }

    pub open spec fn spec_disk(self) -> Option<DiskCacheConfig> {
        match self {
            FtsCacheConfig::Memory(_) => None,
            FtsCacheConfig::Hybrid(config) => Some(config.spec_disk()),
        }
    }

    /// Resident-memory ceiling.
    pub fn memory_bytes(&self) -> (bytes: u64)
        ensures
            bytes == self.spec_memory_bytes(),
    {
        match self {
            FtsCacheConfig::Memory(config) => config.memory_bytes(),
            FtsCacheConfig::Hybrid(config) => config.memory_bytes(),
        }
    }

    /// Local-disk tier settings, if there is such a tier.
    pub fn disk(&self) -> (disk: Option<&DiskCacheConfig>)
        ensures
            match disk {
                Some(disk) => self.spec_disk() == Some(*disk),
                None => self.spec_disk() is None,
            },
    {
        match self {
            FtsCacheConfig::Memory(_) => None,
            FtsCacheConfig::Hybrid(config) => Some(config.disk()),
        }
    }

    /// Maximum concurrent split warm operations.
    pub fn warm_concurrency(&self) -> (count: usize)
        ensures
            count == match *self {
                FtsCacheConfig::Memory(config) => config.spec_warm().spec_concurrency(),
                FtsCacheConfig::Hybrid(config) => config.spec_warm().spec_concurrency(),
            },
    {
        match self {
            FtsCacheConfig::Memory(config) => config.warm_concurrency(),
            FtsCacheConfig::Hybrid(config) => config.warm_concurrency(),
        }
    }

    /// Minimum artifact age, in seconds, before cleanup may evict it.
    pub fn generation_grace_period(&self) -> (seconds: u64)
        ensures
            seconds == match *self {
                FtsCacheConfig::Memory(config) => config.spec_grace_period(),
                FtsCacheConfig::Hybrid(config) => config.spec_grace_period(),
            },
    {
        match self {
            FtsCacheConfig::Memory(config) => config.generation_grace_period(),
            FtsCacheConfig::Hybrid(config) => config.generation_grace_period(),
        }
    }
}

/// Event counters of one cache.
#[derive(Debug, Clone, Copy, PartialEq, Eq, Structural)]
pub struct FtsStats {
    pub memory_hits: u64,
    pub memory_misses: u64,
    pub memory_evictions: u64,
    pub disk_hits: u64,
    pub disk_misses: u64,
    pub disk_corruptions: u64,
    pub disk_evictions: u64,
    pub remote_opens: u64,
    pub open_failures: u64,
    pub singleflight_followers: u64,
    pub hydration_attempts: u64,
    pub hydration_completions: u64,
    pub hydration_failures: u64,
}

/// The sum modulo 2^64, as counters advance.
pub open spec fn advanced(counter: u64, by: int) -> u64 {
    ((counter + by) % 0x1_0000_0000_0000_0000) as u64
}

impl Default for FtsStats {
    fn default() -> (stats: Self)
        ensures
            stats == (FtsStats {
                memory_hits: 0,
                memory_misses: 0,
                memory_evictions: 0,
                disk_hits: 0,
                disk_misses: 0,
                disk_corruptions: 0,
                disk_evictions: 0,
                remote_opens: 0,
                open_failures: 0,
                singleflight_followers: 0,
                hydration_attempts: 0,
                hydration_completions: 0,
                hydration_failures: 0,
            }),
    {
        FtsStats {
            memory_hits: 0,
            memory_misses: 0,
            memory_evictions: 0,
            disk_hits: 0,
            disk_misses: 0,
            disk_corruptions: 0,
            disk_evictions: 0,
            remote_opens: 0,
            open_failures: 0,
            singleflight_followers: 0,
            hydration_attempts: 0,
            hydration_completions: 0,
            hydration_failures: 0,
        }
    }
}

impl FtsStats {
    /// Counts splits that left memory.
    pub fn count_memory_evictions(&mut self, evicted: usize)
        ensures
            *final(self) == (FtsStats {
                memory_evictions: advanced(old(self).memory_evictions, evicted as int),
                ..*old(self)
            }),
    {
        self.memory_evictions = self.memory_evictions.wrapping_add(evicted as u64);
    }

    /// Counts an artifact that cleanup removed.
    pub fn count_disk_eviction(&mut self)
        ensures
            *final(self) == (FtsStats {
                disk_evictions: advanced(old(self).disk_evictions, 1),
                ..*old(self)
            }),
    {
        self.disk_evictions = self.disk_evictions.wrapping_add(1);
    }

    /// Counts a hydration that begins.
    pub fn count_hydration_attempt(&mut self)
        ensures
            *final(self) == (FtsStats {
                hydration_attempts: advanced(old(self).hydration_attempts, 1),
                ..*old(self)
            }),
    {
        self.hydration_attempts = self.hydration_attempts.wrapping_add(1);
    }

    /// Counts how a hydration ended.
    pub fn count_hydration_end(&mut self, completed: bool)
        ensures
            *final(self) == if completed {
                FtsStats {
                    hydration_completions: advanced(old(self).hydration_completions, 1),
                    ..*old(self)
                }
            } else {
                FtsStats {
                    hydration_failures: advanced(old(self).hydration_failures, 1),
                    ..*old(self)
                }
            },
    {
        if completed {
            self.hydration_completions = self.hydration_completions.wrapping_add(1);
        } else {
            self.hydration_failures = self.hydration_failures.wrapping_add(1);
        }
    }
}

/// Runtime state of the split cache.
#[derive(Debug, Clone, PartialEq, Eq)]
pub struct FtsCacheStateSnapshot {
    /// Whether this process has a cache.
    pub enabled: bool,
    /// Configured resident-memory ceiling.
    pub resolved_memory_budget_bytes: u64,
    /// Configured local-disk ceiling.
    pub resolved_disk_budget_bytes: u64,
    /// Namespaced disk-cache root, when enabled.
    pub disk_root: Option<String>,
    /// Split readers retained in memory.
    pub retained_split_count: u64,
    /// Conservative bytes charged to retained split readers.
    pub retained_split_bytes: u64,
    /// Complete validated split artifacts on local disk.
    pub disk_artifact_count: u64,
    /// Bytes occupied by complete split artifacts on local disk.
    pub disk_artifact_bytes: u64,
    /// Exact-key memory hits.
    pub memory_hits: u64,
    /// Exact-key memory misses.
    pub memory_misses: u64,
    /// Least-recently-used memory evictions.
    pub memory_evictions: u64,
    /// Validated local-artifact hits.
    pub disk_hits: u64,
    /// Missing local-artifact lookups.
    pub disk_misses: u64,
    /// Corrupt local artifacts discarded before fallback.
    pub disk_corruptions: u64,
    /// Local artifacts removed to enforce the disk budget.
    pub disk_evictions: u64,
    /// Split readers opened against remote range storage.
    pub remote_opens: u64,
    /// Split open failures across local and remote paths.
    pub open_failures: u64,
    /// Concurrent callers that joined an existing exact-key open.
    pub singleflight_followers: u64,
    /// Full-artifact hydration attempts.
    pub hydration_attempts: u64,
    /// Successful full-artifact hydrations.
    pub hydration_completions: u64,
    /// Failed full-artifact hydrations.
    pub hydration_failures: u64,
}

impl Default for FtsCacheStateSnapshot {
    fn default() -> (state: Self)
        ensures
            !state.enabled,
            state.resolved_memory_budget_bytes == 0,
            state.resolved_disk_budget_bytes == 0,
            state.disk_root is None,
            state.retained_split_count == 0,
            state.retained_split_bytes == 0,
            state.disk_artifact_count == 0,
            state.disk_artifact_bytes == 0,
            state.spec_stats() == (FtsStats {
                memory_hits: 0,
                memory_misses: 0,
                memory_evictions: 0,
                disk_hits: 0,
                disk_misses: 0,
                disk_corruptions: 0,
                disk_evictions: 0,
                remote_opens: 0,
                open_failures: 0,
                singleflight_followers: 0,
                hydration_attempts: 0,
                hydration_completions: 0,
                hydration_failures: 0,
            }),
    {
        FtsCacheStateSnapshot {
            enabled: false,
            resolved_memory_budget_bytes: 0,
            resolved_disk_budget_bytes: 0,
            disk_root: None,
            retained_split_count: 0,
            retained_split_bytes: 0,
            disk_artifact_count: 0,
            disk_artifact_bytes: 0,
            memory_hits: 0,
            memory_misses: 0,
            memory_evictions: 0,
            disk_hits: 0,
            disk_misses: 0,
            disk_corruptions: 0,
            disk_evictions: 0,
            remote_opens: 0,
            open_failures: 0,
            singleflight_followers: 0,
            hydration_attempts: 0,
            hydration_completions: 0,
            hydration_failures: 0,
        }
    }
}

impl FtsCacheStateSnapshot {
    /// The counters in the snapshot.
    pub open spec fn spec_stats(self) -> FtsStats {
        FtsStats {
            memory_hits: self.memory_hits,
            memory_misses: self.memory_misses,
            memory_evictions: self.memory_evictions,
            disk_hits: self.disk_hits,
            disk_misses: self.disk_misses,
            disk_corruptions: self.disk_corruptions,
            disk_evictions: self.disk_evictions,
            remote_opens: self.remote_opens,
            open_failures: self.open_failures,
            singleflight_followers: self.singleflight_followers,
            hydration_attempts: self.hydration_attempts,
            hydration_completions: self.hydration_completions,
            hydration_failures: self.hydration_failures,
        }
    }
}

/// The observable state of the cache of a database.
pub fn snapshot(
    config: &FtsCacheConfig,
    db_path: &str,
    retained_split_count: usize,
    retained_split_bytes: u64,
    usage: DiskUsage,
    stats: FtsStats,
) -> (state: FtsCacheStateSnapshot)
    ensures
        state.enabled,
        state.resolved_memory_budget_bytes == config.spec_memory_bytes(),
        match (config.spec_disk(), state.disk_root) {
            (Some(disk), Some(root)) => root@ == namespaced_root(disk.spec_root(), db_path@)
                && state.resolved_disk_budget_bytes == disk.spec_bytes(),
            (None, None) => state.resolved_disk_budget_bytes == 0,
            _ => false,
        },
        state.retained_split_count == retained_split_count,
        state.retained_split_bytes == retained_split_bytes,
        state.disk_artifact_count == usage.count,
        state.disk_artifact_bytes == usage.bytes,
        state.spec_stats() == stats,
{
    let (disk_bytes, disk_root) = match config.disk() {
        Some(disk) => (disk.bytes() as u64, Some(namespace_root(disk.root(), db_path))),
        None => (0, None),
    };
    FtsCacheStateSnapshot {
        enabled: true,
        resolved_memory_budget_bytes: config.memory_bytes(),
        resolved_disk_budget_bytes: disk_bytes,
        disk_root,
        retained_split_count: retained_split_count as u64,
        retained_split_bytes,
        disk_artifact_count: usage.count,
        disk_artifact_bytes: usage.bytes,
        memory_hits: stats.memory_hits,
        memory_misses: stats.memory_misses,
        memory_evictions: stats.memory_evictions,
        disk_hits: stats.disk_hits,
        disk_misses: stats.disk_misses,
        disk_corruptions: stats.disk_corruptions,
        disk_evictions: stats.disk_evictions,
        remote_opens: stats.remote_opens,
        open_failures: stats.open_failures,
        singleflight_followers: stats.singleflight_followers,
        hydration_attempts: stats.hydration_attempts,
        hydration_completions: stats.hydration_completions,
        hydration_failures: stats.hydration_failures,
    }
}

/// Splits are ordered by their identity.
impl Ranked for TextSplitRef {
    open spec fn ranked(&self, other: &Self) -> Rank {
        key_of(*self).ranked(&key_of(*other))
    }

    proof fn rank_reflexive(a: &Self) {
        TextSplitCacheKey::rank_reflexive(&key_of(*a));
    }

    proof fn rank_antisymmetric(a: &Self, b: &Self) {
        TextSplitCacheKey::rank_antisymmetric(&key_of(*a), &key_of(*b));
    }

    proof fn rank_transitive(a: &Self, b: &Self, c: &Self) {
        TextSplitCacheKey::rank_transitive(&key_of(*a), &key_of(*b), &key_of(*c));
    }

    fn rank(&self, other: &Self) -> (rank: Rank) {
        let key = TextSplitCacheKey::from(self);
        let other_key = TextSplitCacheKey::from(other);
        key.rank(&other_key)
    }
}

/// The splits without those that repeat their predecessor.
pub open spec fn without_repeats(splits: Seq<TextSplitRef>) -> Seq<TextSplitRef>
    decreases splits.len(),
{
    if splits.len() <= 1 {
        splits
    } else {
        let front = without_repeats(splits.drop_last());
        if front.last() == splits.last() {
            front
        } else {
            front.push(splits.last())
        }
    }
}

proof fn lemma_without_repeats_nonempty(splits: Seq<TextSplitRef>)
    requires
        splits.len() > 0,
    ensures
        without_repeats(splits).len() > 0,
        without_repeats(splits).last() == splits.last(),
    decreases splits.len(),
{
    if splits.len() > 1 {
        lemma_without_repeats_nonempty(splits.drop_last());
    }
}

/// The distinct splits in the order of their identities.
pub fn unique_splits(splits: Vec<TextSplitRef>) -> (unique: Vec<TextSplitRef>)
    ensures
        unique@ == without_repeats(sort_ranked(splits@)),
{
    let mut sorted = splits;
    sort_values(&mut sorted);
    let mut unique: Vec<TextSplitRef> = Vec::new();
    let mut i: usize = 0;
    while i < sorted.len()
        invariant
            i <= sorted.len(),
            sorted@ == sort_ranked(splits@),
            unique@ == without_repeats(sorted@.take(i as int)),
        decreases sorted.len() - i,
    {
        let split = sorted[i];
        proof {
            assert(sorted@.take(i as int + 1).drop_last() =~= sorted@.take(i as int));
            if i > 0 {
                lemma_without_repeats_nonempty(sorted@.take(i as int));
            } else {
                assert(sorted@.take(0) =~= Seq::<TextSplitRef>::empty());
                assert(sorted@.take(1) =~= seq![split]);
            }
        }
        let repeats = if unique.len() > 0 {
            let last = TextSplitCacheKey::from(&unique[unique.len() - 1]);
            let key = TextSplitCacheKey::from(&split);
            last.same(&key)
        } else {
            false
        };
        if !repeats {
            unique.push(split);
        }
        assert(unique@ =~= without_repeats(sorted@.take(i as int + 1)));
        i = i + 1;
    }
    assert(sorted@.take(i as int) =~= sorted@);
    unique
}

/// Splits in strictly ascending order of their identities.
pub open spec fn strictly_ascending(splits: Seq<TextSplitRef>) -> bool {
    forall|i: int, j: int|
        #![trigger splits[i], splits[j]]
        0 <= i < j < splits.len() ==> splits[i].ranked(&splits[j]) == Rank::Less
}

proof fn lemma_without_repeats(splits: Seq<TextSplitRef>)
    requires
        crate::order::is_sorted(splits),
    ensures
        strictly_ascending(without_repeats(splits)),
        without_repeats(splits).to_set() == splits.to_set(),
    decreases splits.len(),
{
    if splits.len() <= 1 {
    } else {
        let front = splits.drop_last();
        assert(crate::order::is_sorted(front)) by {
            assert forall|i: int, j: int|
                #![trigger front[i], front[j]]
                0 <= i < j < front.len() implies front[i].ranked(&front[j]) != Rank::Greater by {
                assert(front[i] == splits[i] && front[j] == splits[j]);
            }
        }
        lemma_without_repeats(front);
        lemma_without_repeats_nonempty(front);
        let kept = without_repeats(front);
        let last = splits.last();
        let all = without_repeats(splits);
        assert(splits =~= front.push(last));
        assert(splits[front.len() - 1] == front.last());
        if kept.last() == last {
            assert(all == kept);
            assert forall|x: TextSplitRef| #[trigger] splits.to_set().contains(x) <==> kept.to_set().contains(x) by {
                if splits.contains(x) {
                    let i = choose|i: int| 0 <= i < splits.len() && splits[i] == x;
                    if i < front.len() {
                        assert(front[i] == x);
                        assert(front.to_set().contains(x));
                    } else {
                        assert(kept[kept.len() - 1] == x);
                    }
                }
                if kept.to_set().contains(x) {
                    assert(front.to_set().contains(x));
                    let i = choose|i: int| 0 <= i < front.len() && front[i] == x;
                    assert(splits[i] == x);
                }
            }
            assert(all.to_set() =~= splits.to_set());
        } else {
            assert(all == kept.push(last));
            assert(splits[front.len() - 1].ranked(&splits[front.len() as int]) != Rank::Greater);
            lemma_key_tie(front.last(), last);
            assert forall|i: int, j: int|
                #![trigger all[i], all[j]]
                0 <= i < j < all.len() implies all[i].ranked(&all[j]) == Rank::Less by {
                if j < kept.len() {
                    assert(all[i] == kept[i] && all[j] == kept[j]);
                } else if i < kept.len() - 1 {
                    assert(kept[i].ranked(&kept[kept.len() - 1]) == Rank::Less);
                    TextSplitRef::rank_transitive(&kept[i], &kept.last(), &last);
                }
            }
            assert forall|x: TextSplitRef| #[trigger] splits.to_set().contains(x) <==> all.to_set().contains(x) by {
                if splits.contains(x) {
                    let i = choose|i: int| 0 <= i < splits.len() && splits[i] == x;
                    if i < front.len() {
                        assert(front[i] == x);
                        assert(front.to_set().contains(x));
                        let k = choose|k: int| 0 <= k < kept.len() && kept[k] == x;
                        assert(all[k] == x);
                    } else {
                        assert(all[kept.len() as int] == x);
                    }
                }
                if all.contains(x) {
                    let k = choose|k: int| 0 <= k < all.len() && all[k] == x;
                    if k < kept.len() {
                        assert(kept[k] == x);
                        assert(kept.to_set().contains(x));
                        let i = choose|i: int| 0 <= i < front.len() && front[i] == x;
                        assert(splits[i] == x);
                    } else {
                        assert(splits[splits.len() - 1] == x);
                    }
                }
            }
            assert(all.to_set() =~= splits.to_set());
        }
    }
}

/// Splits that tie are the same split.
proof fn lemma_key_tie(a: TextSplitRef, b: TextSplitRef)
    ensures
        a.ranked(&b) == Rank::Equal ==> a == b,
{
    if a.ranked(&b) == Rank::Equal {
        crate::text_map::lemma_rank_bytes_equal(a.blob.sha256@, b.blob.sha256@);
        assert forall|i: int| 0 <= i < 32 implies a.blob.sha256[i] == b.blob.sha256[i] by {
            assert(a.blob.sha256@[i] == b.blob.sha256@[i]);
        }
        assert(a.blob.sha256 =~= b.blob.sha256);
    }
}

/// A warm pass takes every split that it is given exactly once.
pub proof fn law_warm_pass_takes_each_split_once(splits: Seq<TextSplitRef>)
    ensures
        strictly_ascending(without_repeats(sort_ranked(splits))),
        without_repeats(sort_ranked(splits)).to_set() == splits.to_set(),
{
    crate::order::lemma_sort_ranked(splits);
    lemma_without_repeats(sort_ranked(splits));
    broadcast use vstd::seq_lib::group_to_multiset_ensures;

    let sorted = sort_ranked(splits);
    assert forall|x: TextSplitRef| #[trigger] sorted.to_set().contains(x) <==> splits.to_set().contains(x) by {
        assert(sorted.contains(x) <==> sorted.to_multiset().count(x) > 0);
        assert(splits.contains(x) <==> splits.to_multiset().count(x) > 0);
    }
    assert(sorted.to_set() =~= splits.to_set());
}

/// Summary of one explicit or startup warm pass.
#[derive(Debug, Clone, Copy, PartialEq, Eq, Structural)]
pub struct FtsWarmSummary {
    /// Active text generations considered.
    pub generation_count: usize,
    /// Unique exact split identities considered.
    pub split_count: usize,
    /// Split readers opened successfully.
    pub opened_splits: usize,
    /// New complete disk artifacts published.
    pub hydrated_splits: usize,
    /// Remote bytes written into newly published artifacts.
    pub hydrated_bytes: u64,
    /// Best-effort open, hydration, cleanup, or lease errors.
    pub warm_errors: u64,
    /// End-to-end elapsed milliseconds for this warm pass.
    pub warm_elapsed_ms: u64,
}

impl Default for FtsWarmSummary {
    fn default() -> (summary: Self)
        ensures
            summary == (FtsWarmSummary {
                generation_count: 0,
                split_count: 0,
                opened_splits: 0,
                hydrated_splits: 0,
                hydrated_bytes: 0,
                warm_errors: 0,
                warm_elapsed_ms: 0,
            }),
    {
        FtsWarmSummary {
            generation_count: 0,
            split_count: 0,
            opened_splits: 0,
            hydrated_splits: 0,
            hydrated_bytes: 0,
            warm_errors: 0,
            warm_elapsed_ms: 0,
        }
    }
}

/// What a warm pass did for one split.
#[derive(Debug, Clone, Copy, PartialEq, Eq, Structural)]
pub struct WarmOutcome {
    pub hydration: WarmHydration,
    pub opened: bool,
}

/// What became of one split's local copy in a warm pass.
#[derive(Debug, Clone, Copy, PartialEq, Eq, Structural)]
pub enum WarmHydration {
    /// There is no disk tier.
    Skipped,
    /// The artifact is there; the number is that of the bytes written into it,
    /// zero unless this pass has published it.
    Complete { bytes: u64 },
    Failed,
}

/// The bytes written into newly published artifacts, all together.
pub open spec fn published_bytes(outcomes: Seq<WarmOutcome>) -> nat
    decreases outcomes.len(),
{
    if outcomes.len() == 0 {
        0
    } else {
        published_bytes(outcomes.drop_last()) + match outcomes.last().hydration {
            WarmHydration::Complete { bytes } => bytes as nat,
            _ => 0,
        }
    }
}

/// How many outcomes have the property.
pub open spec fn count_outcomes(
    outcomes: Seq<WarmOutcome>,
    property: spec_fn(WarmOutcome) -> bool,
) -> nat
    decreases outcomes.len(),
{
    if outcomes.len() == 0 {
        0
    } else {
        count_outcomes(outcomes.drop_last(), property) + if property(outcomes.last()) {
            1nat
        } else {
            0
        }
    }
}

/// Whether the split has a newly published artifact.
pub open spec fn publishes(outcome: WarmOutcome) -> bool {
    outcome.hydration matches WarmHydration::Complete { bytes } && bytes > 0
}

/// The summary of a warm pass. Byte and error counts are kept modulo 2^64.
pub fn warm_summary(
    generation_count: usize,
    outcomes: &Vec<WarmOutcome>,
    cleanup_failed: bool,
    warm_elapsed_ms: u64,
) -> (summary: FtsWarmSummary)
    ensures
        summary.generation_count == generation_count,
        summary.split_count == outcomes@.len(),
        summary.opened_splits == count_outcomes(outcomes@, |o: WarmOutcome| o.opened),
        summary.hydrated_splits == count_outcomes(outcomes@, |o: WarmOutcome| publishes(o)),
        summary.hydrated_bytes == published_bytes(outcomes@) % 0x1_0000_0000_0000_0000,
        summary.warm_errors == (count_outcomes(
            outcomes@,
            |o: WarmOutcome| o.hydration == WarmHydration::Failed,
        ) + count_outcomes(outcomes@, |o: WarmOutcome| !o.opened) + if cleanup_failed {
            1nat
        } else {
            0
        }) % 0x1_0000_0000_0000_0000,
        summary.warm_elapsed_ms == warm_elapsed_ms,
{
    let ghost is_opened = |o: WarmOutcome| o.opened;
    let ghost is_published = |o: WarmOutcome| publishes(o);
    let ghost is_failed = |o: WarmOutcome| o.hydration == WarmHydration::Failed;
    let ghost is_unopened = |o: WarmOutcome| !o.opened;
    let mut opened_splits: usize = 0;
    let mut hydrated_splits: usize = 0;
    let mut hydrated_bytes: u64 = 0;
    let mut warm_errors: u64 = 0;
    let mut i: usize = 0;
    while i < outcomes.len()
        invariant
            i <= outcomes.len(),
            opened_splits <= i,
            hydrated_splits <= i,
            is_opened == (|o: WarmOutcome| o.opened),
            is_published == (|o: WarmOutcome| publishes(o)),
            is_failed == (|o: WarmOutcome| o.hydration == WarmHydration::Failed),
            is_unopened == (|o: WarmOutcome| !o.opened),
            opened_splits == count_outcomes(outcomes@.take(i as int), is_opened),
            hydrated_splits == count_outcomes(outcomes@.take(i as int), is_published),
            hydrated_bytes == published_bytes(outcomes@.take(i as int)) % 0x1_0000_0000_0000_0000,
            warm_errors == (count_outcomes(outcomes@.take(i as int), is_failed) + count_outcomes(
                outcomes@.take(i as int),
                is_unopened,
            )) % 0x1_0000_0000_0000_0000,
        decreases outcomes.len() - i,
    {
        let outcome = outcomes[i];
        proof {
            assert(outcomes@.take(i as int + 1).drop_last() =~= outcomes@.take(i as int));
        }
        match outcome.hydration {
            WarmHydration::Skipped => {},
            WarmHydration::Complete { bytes } => {
                if bytes > 0 {
                    hydrated_splits = hydrated_splits + 1;
                    hydrated_bytes = hydrated_bytes.wrapping_add(bytes);
                }
            },
            WarmHydration::Failed => {
                warm_errors = warm_errors.wrapping_add(1);
            },
        }
        if outcome.opened {
            opened_splits = opened_splits + 1;
        } else {
            warm_errors = warm_errors.wrapping_add(1);
        }
        i = i + 1;
    }
    assert(outcomes@.take(i as int) =~= outcomes@);
    if cleanup_failed {
        warm_errors = warm_errors.wrapping_add(1);
    }
    FtsWarmSummary {
        generation_count,
        split_count: outcomes.len(),
        opened_splits,
        hydrated_splits,
        hydrated_bytes,
        warm_errors,
        warm_elapsed_ms,
    }
}

/// A cache's tiers are those of its configuration: memory alone, or memory with
/// the configured disk tier.
pub proof fn law_tiers_follow_the_configuration(
    memory: FtsMemoryCacheConfig,
    hybrid: FtsHybridCacheConfig,
    memory_bytes: u64,
    hybrid_bytes: u64,
    memory_disk: Option<&DiskCacheConfig>,
    hybrid_disk: Option<&DiskCacheConfig>,
    own_memory_bytes: u64,
    own_hybrid_bytes: u64,
    own_disk: &DiskCacheConfig,
)
    requires
        call_ensures(
            FtsCacheConfig::memory_bytes,
            (&FtsCacheConfig::Memory(memory),),
            memory_bytes,
        ),
        call_ensures(
            FtsCacheConfig::memory_bytes,
            (&FtsCacheConfig::Hybrid(hybrid),),
            hybrid_bytes,
        ),
        call_ensures(FtsCacheConfig::disk, (&FtsCacheConfig::Memory(memory),), memory_disk),
        call_ensures(FtsCacheConfig::disk, (&FtsCacheConfig::Hybrid(hybrid),), hybrid_disk),
        call_ensures(FtsMemoryCacheConfig::memory_bytes, (&memory,), own_memory_bytes),
        call_ensures(FtsHybridCacheConfig::memory_bytes, (&hybrid,), own_hybrid_bytes),
        call_ensures(FtsHybridCacheConfig::disk, (&hybrid,), own_disk),
    ensures
        memory_bytes == own_memory_bytes,
        hybrid_bytes == own_hybrid_bytes,
        memory_disk is None,
        hybrid_disk == Some(own_disk),
{
}

/// The concurrency and the grace period are those of the configuration, with and
/// without a disk tier.
pub proof fn law_warming_follows_the_configuration(
    memory: FtsMemoryCacheConfig,
    hybrid: FtsHybridCacheConfig,
    counts: (usize, usize, usize, usize),
    periods: (u64, u64, u64, u64),
)
    requires
        call_ensures(
            FtsCacheConfig::warm_concurrency,
            (&FtsCacheConfig::Memory(memory),),
            counts.0,
        ),
        call_ensures(FtsMemoryCacheConfig::warm_concurrency, (&memory,), counts.1),
        call_ensures(
            FtsCacheConfig::warm_concurrency,
            (&FtsCacheConfig::Hybrid(hybrid),),
            counts.2,
        ),
        call_ensures(FtsHybridCacheConfig::warm_concurrency, (&hybrid,), counts.3),
        call_ensures(
            FtsCacheConfig::generation_grace_period,
            (&FtsCacheConfig::Memory(memory),),
            periods.0,
        ),
        call_ensures(FtsMemoryCacheConfig::generation_grace_period, (&memory,), periods.1),
        call_ensures(
            FtsCacheConfig::generation_grace_period,
            (&FtsCacheConfig::Hybrid(hybrid),),
            periods.2,
        ),
        call_ensures(FtsHybridCacheConfig::generation_grace_period, (&hybrid,), periods.3),
    ensures
        counts.0 == counts.1 && counts.2 == counts.3,
        periods.0 == periods.1 && periods.2 == periods.3,
{
}

/// The counters but those of evictions and of hydrations.
pub open spec fn same_open_counters(a: FtsStats, b: FtsStats) -> bool {
    &&& a.memory_hits == b.memory_hits
    &&& a.memory_misses == b.memory_misses
    &&& a.disk_hits == b.disk_hits
    &&& a.disk_misses == b.disk_misses
    &&& a.disk_corruptions == b.disk_corruptions
    &&& a.remote_opens == b.remote_opens
    &&& a.open_failures == b.open_failures
    &&& a.singleflight_followers == b.singleflight_followers
}

/// Splits that left memory are counted as such, by their number.
pub proof fn law_memory_evictions_are_counted(stats: &mut FtsStats, evicted: usize)
    requires
        call_ensures(FtsStats::count_memory_evictions, (stats, evicted), ()),
    ensures
        same_open_counters(*old(stats), *final(stats)),
        old(stats).memory_evictions + evicted <= u64::MAX ==> final(stats).memory_evictions == old(stats).memory_evictions + evicted,
        final(stats).disk_evictions == old(stats).disk_evictions,
        final(stats).hydration_attempts == old(stats).hydration_attempts,
        final(stats).hydration_completions == old(stats).hydration_completions,
        final(stats).hydration_failures == old(stats).hydration_failures,
{
}

/// An artifact that was removed is counted as such.
pub proof fn law_disk_evictions_are_counted(stats: &mut FtsStats)
    requires
        call_ensures(FtsStats::count_disk_eviction, (stats,), ()),
    ensures
        same_open_counters(*old(stats), *final(stats)),
        old(stats).disk_evictions < u64::MAX ==> final(stats).disk_evictions == old(stats).disk_evictions + 1,
        final(stats).memory_evictions == old(stats).memory_evictions,
        final(stats).hydration_attempts == old(stats).hydration_attempts,
        final(stats).hydration_completions == old(stats).hydration_completions,
        final(stats).hydration_failures == old(stats).hydration_failures,
{
}

/// A hydration is counted when it begins.
pub proof fn law_hydration_attempts_are_counted(stats: &mut FtsStats)
    requires
        call_ensures(FtsStats::count_hydration_attempt, (stats,), ()),
    ensures
        same_open_counters(*old(stats), *final(stats)),
        old(stats).hydration_attempts < u64::MAX ==> final(stats).hydration_attempts == old(stats).hydration_attempts + 1,
        final(stats).memory_evictions == old(stats).memory_evictions,
        final(stats).disk_evictions == old(stats).disk_evictions,
        final(stats).hydration_completions == old(stats).hydration_completions,
        final(stats).hydration_failures == old(stats).hydration_failures,
{
}

/// A hydration is counted as completed or as failed when it ends.
pub proof fn law_hydration_ends_are_counted(stats: &mut FtsStats, completed: bool)
    requires
        call_ensures(FtsStats::count_hydration_end, (stats, completed), ()),
    ensures
        same_open_counters(*old(stats), *final(stats)),
        completed && old(stats).hydration_completions < u64::MAX ==> final(stats).hydration_completions == old(stats).hydration_completions + 1,
        completed ==> final(stats).hydration_failures == old(stats).hydration_failures,
        !completed && old(stats).hydration_failures < u64::MAX ==> final(stats).hydration_failures
            == old(stats).hydration_failures + 1,
        !completed ==> final(stats).hydration_completions == old(stats).hydration_completions,
        final(stats).memory_evictions == old(stats).memory_evictions,
        final(stats).disk_evictions == old(stats).disk_evictions,
        final(stats).hydration_attempts == old(stats).hydration_attempts,
{
}

/// The observable state shows every counter and every size under its own name,
/// and the budgets and the root of the configured tiers.
pub proof fn law_snapshots_show_the_state(
    config: FtsCacheConfig,
    db_path: &str,
    retained_split_count: usize,
    retained_split_bytes: u64,
    usage: DiskUsage,
    stats: FtsStats,
    memory_bytes: u64,
    disk: Option<&DiskCacheConfig>,
    state: FtsCacheStateSnapshot,
)
    requires
        call_ensures(FtsCacheConfig::memory_bytes, (&config,), memory_bytes),
        call_ensures(FtsCacheConfig::disk, (&config,), disk),
        call_ensures(
            snapshot,
            (&config, db_path, retained_split_count, retained_split_bytes, usage, stats),
            state,
        ),
    ensures
        state.enabled,
        state.resolved_memory_budget_bytes == memory_bytes,
        disk is None ==> state.disk_root is None && state.resolved_disk_budget_bytes == 0,
        disk matches Some(disk) ==> state.disk_root is Some && state.disk_root->Some_0@
            == namespaced_root(disk.spec_root(), db_path@) && state.resolved_disk_budget_bytes
            == disk.spec_bytes(),
        state.retained_split_count == retained_split_count,
        state.retained_split_bytes == retained_split_bytes,
        state.disk_artifact_count == usage.count,
        state.disk_artifact_bytes == usage.bytes,
        state.memory_hits == stats.memory_hits,
        state.memory_misses == stats.memory_misses,
        state.memory_evictions == stats.memory_evictions,
        state.disk_hits == stats.disk_hits,
        state.disk_misses == stats.disk_misses,
        state.disk_corruptions == stats.disk_corruptions,
        state.disk_evictions == stats.disk_evictions,
        state.remote_opens == stats.remote_opens,
        state.open_failures == stats.open_failures,
        state.singleflight_followers == stats.singleflight_followers,
        state.hydration_attempts == stats.hydration_attempts,
        state.hydration_completions == stats.hydration_completions,
        state.hydration_failures == stats.hydration_failures,
{
}

/// Every split is taken once and no other, in the order of their identities.
pub proof fn law_unique_splits_are_all_splits(
    splits: Vec<TextSplitRef>,
    unique: Vec<TextSplitRef>,
)
    requires
        call_ensures(unique_splits, (splits,), unique),
    ensures
        unique@.to_set() == splits@.to_set(),
        unique@.no_duplicates(),
        forall|i: int, j: int|
            #![trigger unique@[i], unique@[j]]
            0 <= i < j < unique@.len() ==> unique@[i].ranked(&unique@[j]) == Rank::Less,
{
    law_warm_pass_takes_each_split_once(splits@);
    assert forall|i: int, j: int|
        0 <= i < unique@.len() && 0 <= j < unique@.len() && i != j implies unique@[i]
        != unique@[j] by {
        TextSplitRef::rank_reflexive(&unique@[i]);
        if i < j {
            assert(unique@[i].ranked(&unique@[j]) == Rank::Less);
        } else {
            assert(unique@[j].ranked(&unique@[i]) == Rank::Less);
        }
    }
}

/// Counting takes the outcomes that have the property.
proof fn lemma_count_outcomes(outcomes: Seq<WarmOutcome>, property: spec_fn(WarmOutcome) -> bool)
    ensures
        count_outcomes(outcomes, property) == outcomes.filter(property).len(),
    decreases outcomes.len(),
{
    reveal(Seq::filter);
    if outcomes.len() > 0 {
        lemma_count_outcomes(outcomes.drop_last(), property);
    }
}

proof fn lemma_published_bytes(outcomes: Seq<WarmOutcome>)
    ensures
        published_bytes(outcomes) == outcomes.fold_left(
            0,
            |sum: int, outcome: WarmOutcome|
                if outcome.hydration is Complete {
                    sum + outcome.hydration->bytes
                } else {
                    sum
                },
        ),
    decreases outcomes.len(),
{
    if outcomes.len() > 0 {
        lemma_published_bytes(outcomes.drop_last());
    }
}

/// A summary counts the splits, those that were opened and those with a newly
/// published artifact, adds up the published bytes, and counts as errors the
/// failed copies, the splits that could not be opened and a failed cleanup.
pub proof fn law_summaries_count_outcomes(
    generation_count: usize,
    outcomes: Vec<WarmOutcome>,
    cleanup_failed: bool,
    warm_elapsed_ms: u64,
    summary: FtsWarmSummary,
)
    requires
        call_ensures(
            warm_summary,
            (generation_count, &outcomes, cleanup_failed, warm_elapsed_ms),
            summary,
        ),
    ensures
        summary.generation_count == generation_count,
        summary.warm_elapsed_ms == warm_elapsed_ms,
        summary.split_count == outcomes@.len(),
        summary.opened_splits == outcomes@.filter(|outcome: WarmOutcome| outcome.opened).len(),
        summary.hydrated_splits == outcomes@.filter(
            |outcome: WarmOutcome|
                outcome.hydration is Complete && outcome.hydration->bytes > 0,
        ).len(),
        ({
            let bytes = outcomes@.fold_left(
                0,
                |sum: int, outcome: WarmOutcome|
                    if outcome.hydration is Complete {
                        sum + outcome.hydration->bytes
                    } else {
                        sum
                    },
            );
            bytes <= u64::MAX ==> summary.hydrated_bytes == bytes
        }),
        ({
            let errors = outcomes@.filter(
                |outcome: WarmOutcome| outcome.hydration is Failed,
            ).len() + outcomes@.filter(|outcome: WarmOutcome| !outcome.opened).len()
                + if cleanup_failed {
                1nat
            } else {
                0
            };
            errors <= u64::MAX ==> summary.warm_errors == errors
        }),
{
    let all = outcomes@;
    lemma_published_bytes(all);
    lemma_count_outcomes(all, |o: WarmOutcome| o.opened);
    lemma_count_outcomes(all, |o: WarmOutcome| publishes(o));
    lemma_count_outcomes(all, |o: WarmOutcome| o.hydration == WarmHydration::Failed);
    lemma_count_outcomes(all, |o: WarmOutcome| !o.opened);
    assert((|o: WarmOutcome| publishes(o)) =~= (|outcome: WarmOutcome|
        outcome.hydration is Complete && outcome.hydration->bytes > 0));
    assert((|o: WarmOutcome| o.hydration == WarmHydration::Failed) =~= (|outcome: WarmOutcome|
        outcome.hydration is Failed));
}

} // verus!
