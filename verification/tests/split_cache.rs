use helix_db::config::cache::{FtsHybridCacheConfig, FtsMemoryCacheConfig, FtsWarmConfig};
use helix_db::digest::hex_digest;
use helix_db::error::HelixDbError;
use helix_db::split_cache::demand::{
    admits_hydration, AccessWrites, ArtifactLeases, DemandTracker, ValidatedSplits,
};
use helix_db::split_cache::disk::{
    check_artifact_hash, checked_artifact_holds, cleanup_plan, disk_usage, listed_entries,
    split_cache_capacity, unix_ms, DiskEntry, DiskUsage, ListedFile,
};
use helix_db::split_cache::hydration::{continue_hydration, start_hydration, HydrationStep};
use helix_db::split_cache::key::{
    artifact_file_name, metadata_file_name, namespace_root, parse_sha, sha_hex, staging_file_name,
    TextBlobRef, TextSplitCacheKey, TextSplitRef,
};
use helix_db::split_cache::memory::MemoryState;
use helix_db::split_cache::opening::{continue_open, OpenReport, OpenStep};
use helix_db::split_cache::state::{
    snapshot, unique_splits, warm_summary, FtsCacheConfig, FtsStats, WarmHydration, WarmOutcome,
};

fn split(seed: u8) -> TextSplitRef {
    TextSplitRef {
        blob: TextBlobRef { sha256: [seed; 32], size_bytes: 100 },
        footer_offset: 80,
        footer_len: 20,
        hotcache_len: 10,
        total_size_bytes: 100,
    }
}

fn key(seed: u8) -> TextSplitCacheKey {
    TextSplitCacheKey::from(&split(seed))
}

#[test]
fn exact_split_key_includes_layout_and_blob_length() {
    let base = split(1);
    let mut changed = base;
    changed.footer_offset += 1;
    assert_ne!(TextSplitCacheKey::from(&base), TextSplitCacheKey::from(&changed));

    changed = base;
    changed.blob.size_bytes += 1;
    assert_ne!(TextSplitCacheKey::from(&base), TextSplitCacheKey::from(&changed));
}

#[test]
fn demand_admission_triggers_only_on_second_success() {
    let key = TextSplitCacheKey::from(&split(2));
    let mut tracker = DemandTracker::default();

    assert!(!tracker.record_success(key));
    assert!(tracker.record_success(key));
    assert!(!tracker.record_success(key));
}

#[test]
fn a_demand_is_forgotten_after_as_many_admissions_as_are_remembered() {
    let numbered = |number: u64| {
        let mut split = split(1);
        split.footer_offset = number;
        TextSplitCacheKey::from(&split)
    };
    for later in [4095, 4096] {
        let mut tracker = DemandTracker::default();
        assert!(!tracker.record_success(numbered(0)));
        for number in 1..=later {
            assert!(!tracker.record_success(numbered(number)));
        }
        assert_eq!(tracker.record_success(numbered(0)), later < 4096);
    }
}

#[test]
fn content_hash_file_names_roundtrip() {
    let hash = [0xab; 32];
    assert_eq!(parse_sha(&sha_hex(hash)), Some(hash));
    assert_eq!(parse_sha("not-a-hash"), None);
}

#[test]
fn hash_names_take_only_lower_and_upper_hex_digits() {
    let name = sha_hex([0x0f; 32]);
    assert_eq!(name, "0f".repeat(32));
    assert_eq!(parse_sha(&name.to_uppercase()), Some([0x0f; 32]));
    assert_eq!(parse_sha(&name[1..]), None);
    assert_eq!(parse_sha(&format!("{}zz", &name[2..])), None);
    assert_eq!(artifact_file_name([0x0f; 32]), format!("{name}.split"));
    assert_eq!(metadata_file_name([0x0f; 32]), format!("{name}.json"));
    assert!(staging_file_name([0x0f; 32], "u1").starts_with(&name));
}

#[test]
fn only_a_disk_tier_admits_hydration() {
    let mut tracker = DemandTracker::default();
    assert!(!admits_hydration(&mut tracker, false, key(1)));
    assert!(!admits_hydration(&mut tracker, false, key(1)));
    assert!(!admits_hydration(&mut tracker, true, key(1)));
    assert!(admits_hydration(&mut tracker, true, key(1)));
    assert!(!admits_hydration(&mut tracker, true, key(2)));
}

#[test]
fn a_full_demand_tracker_forgets_before_it_grows() {
    let mut tracker = DemandTracker::default();
    let mut at = key(1);
    for number in 0..5000u64 {
        at.total_size = number;
        assert!(!tracker.record_success(at));
    }
}

#[test]
fn leases_are_counted() {
    let mut leases = ArtifactLeases::default();
    let sha = [7; 32];
    assert!(!leases.is_leased(&sha));
    leases.acquire(sha);
    leases.acquire(sha);
    leases.release(sha);
    assert!(leases.is_leased(&sha));
    leases.release(sha);
    assert!(!leases.is_leased(&sha));
}

#[test]
fn a_removed_artifact_has_to_be_validated_again() {
    let mut validated = ValidatedSplits::default();
    validated.insert(key(1));
    validated.insert(key(2));
    assert!(validated.contains(&key(1)));
    validated.forget_artifact(&[1; 32]);
    assert!(!validated.contains(&key(1)));
    assert!(validated.contains(&key(2)));
}

#[test]
fn access_metadata_are_written_at_most_once_a_while() {
    let mut writes = AccessWrites::default();
    let second = 1_000_000_000u128;
    assert!(writes.note_access([1; 32], 1000 * second));
    assert!(!writes.note_access([1; 32], 1000 * second + 1));
    assert!(writes.note_access([2; 32], 1000 * second + 1));
    assert!(writes.note_access([1; 32], 100_000 * second));
}

#[test]
fn memory_budget_evicts_the_least_recently_used_split() {
    let mut memory: MemoryState<&str> = MemoryState::new(250);
    assert_eq!(memory.insert_memory(key(1), "first", 100), 0);
    assert_eq!(memory.insert_memory(key(2), "second", 100), 0);
    assert_eq!(memory.memory_hit(&key(1)), Some(&"first"));
    assert_eq!(memory.insert_memory(key(3), "third", 100), 1);
    assert_eq!(memory.memory_hit(&key(2)), None);
    assert_eq!(memory.memory_hit(&key(1)), Some(&"first"));
    assert_eq!(memory.memory_hit(&key(3)), Some(&"third"));
    assert_eq!(memory.retained_split_count(), 2);
    assert_eq!(memory.retained_split_bytes(), 200);
}

#[test]
fn oversized_memory_entries_remain_usable_without_retention() {
    let mut memory: MemoryState<&str> = MemoryState::new(50);
    memory.insert_memory(key(1), "large", 100);
    assert_eq!(memory.memory_hit(&key(1)), None);
    assert_eq!(memory.retained_split_count(), 0);
    assert_eq!(memory.retained_split_bytes(), 0);
}

fn run_open(reports: Vec<OpenReport>, disk: bool, stats: &mut FtsStats) -> OpenStep {
    let mut step = OpenStep::LookUp;
    for report in reports {
        step = continue_open(step, report, disk, stats);
    }
    step
}

#[test]
fn remote_open_is_retained_and_exact_key_hits_memory() {
    let mut stats = FtsStats::default();
    let step = run_open(
        vec![OpenReport::No, OpenReport::No, OpenReport::No, OpenReport::Yes, OpenReport::Yes],
        false,
        &mut stats,
    );
    assert!(matches!(step, OpenStep::UseOpened));
    assert_eq!(stats.remote_opens, 1);
    assert_eq!(stats.memory_misses, 1);
    let step = run_open(vec![OpenReport::Yes], false, &mut stats);
    assert!(matches!(step, OpenStep::UseRetained));
    assert_eq!(stats.memory_hits, 1);
    assert_eq!(stats.remote_opens, 1);
}

#[test]
fn corrupt_disk_artifact_is_removed_before_remote_fallback() {
    let mut stats = FtsStats::default();
    let corrupt = HelixDbError::InvariantViolation("corrupt".to_string());
    let mut step = run_open(
        vec![OpenReport::No, OpenReport::No, OpenReport::No, OpenReport::Yes],
        true,
        &mut stats,
    );
    assert!(matches!(step, OpenStep::ValidateDisk));
    step = continue_open(step, OpenReport::Failed(corrupt), true, &mut stats);
    assert!(matches!(step, OpenStep::DiscardArtifact));
    assert_eq!(stats.disk_corruptions, 1);
    step = continue_open(step, OpenReport::Yes, true, &mut stats);
    assert!(matches!(step, OpenStep::OpenRemote));
    assert_eq!(stats.remote_opens, 1);
    assert_eq!(stats.open_failures, 1);
}

#[test]
fn open_failures_span_the_local_and_the_remote_path() {
    let mut stats = FtsStats::default();
    let failed = |text: &str| OpenReport::Failed(HelixDbError::Query(text.to_string()));
    let step = run_open(
        vec![
            OpenReport::No,
            OpenReport::No,
            OpenReport::No,
            OpenReport::Yes,
            OpenReport::Yes,
            failed("unreadable"),
            OpenReport::Yes,
            failed("gone"),
        ],
        true,
        &mut stats,
    );
    assert!(matches!(step, OpenStep::Fail { error } if error.message() == "gone"));
    assert_eq!(stats.open_failures, 2);
    assert_eq!(stats.disk_corruptions, 1);
    assert_eq!(stats.disk_hits, 0);
}

#[test]
fn a_failed_remote_open_is_reported() {
    let mut stats = FtsStats::default();
    let gone = HelixDbError::Query("gone".to_string());
    let step = run_open(
        vec![OpenReport::No, OpenReport::Yes, OpenReport::No, OpenReport::Failed(gone)],
        false,
        &mut stats,
    );
    assert!(matches!(step, OpenStep::Fail { error } if error.message() == "gone"));
    assert_eq!(stats.open_failures, 1);
    assert_eq!(stats.singleflight_followers, 1);
}

fn run_hydration(
    reports: Vec<Result<u64, HelixDbError>>,
    usage: &mut DiskUsage,
) -> HydrationStep {
    let mut step = start_hydration(true);
    for report in reports {
        step = continue_hydration(step, report, 100, usage);
    }
    step
}

#[test]
fn hydration_publishes_once_and_reuses_the_validated_artifact() {
    let mut usage = DiskUsage { count: 0, bytes: 0 };
    let step = run_hydration(
        vec![Ok(0), Ok(0), Ok(0), Ok(0), Ok(0), Ok(100), Ok(0)],
        &mut usage,
    );
    assert!(matches!(step, HydrationStep::Complete { bytes: 100 }));
    assert_eq!(usage.count, 1);
    assert_eq!(usage.bytes, 100);
    let step = run_hydration(vec![Ok(1), Ok(0), Ok(0)], &mut usage);
    assert!(matches!(step, HydrationStep::Complete { bytes: 0 }));
    assert_eq!(usage.count, 1);
    assert!(matches!(start_hydration(false), HydrationStep::Complete { bytes: 0 }));
}

#[test]
fn a_failed_download_drops_its_staging_file() {
    let mut usage = DiskUsage { count: 0, bytes: 0 };
    let broken = HelixDbError::Query("broken".to_string());
    let mut step = run_hydration(vec![Ok(0), Err(broken)], &mut usage);
    assert!(matches!(step, HydrationStep::DropFailedStaging { .. }));
    step = continue_hydration(step, Ok(0), 100, &mut usage);
    assert!(matches!(step, HydrationStep::Failed { error } if error.message() == "broken"));
    assert_eq!(usage.count, 0);
}

#[test]
fn a_lost_publication_is_no_failure() {
    let mut usage = DiskUsage { count: 1, bytes: 100 };
    let taken = HelixDbError::Query("taken".to_string());
    let mut step = run_hydration(vec![Ok(0), Ok(0), Ok(0), Err(taken)], &mut usage);
    assert!(matches!(step, HydrationStep::ProbePublished { .. }));
    step = continue_hydration(step, Ok(1), 100, &mut usage);
    assert!(matches!(step, HydrationStep::DropLostStaging));
    for _ in 0..3 {
        step = continue_hydration(step, Ok(0), 100, &mut usage);
    }
    assert!(matches!(step, HydrationStep::Complete { bytes: 0 }));
    assert_eq!(usage.count, 1);
    assert_eq!(usage.bytes, 100);
}

fn entry(seed: u8, at: u64, place: usize) -> DiskEntry {
    DiskEntry { sha256: [seed; 32], size: 100, last_access_unix_ms: at, listed_at: place }
}

#[test]
fn disk_cleanup_preserves_leased_artifacts() {
    let mut leases = ArtifactLeases::default();
    leases.acquire([1; 32]);
    let now = 1_000_000_000_000_000_000u128;
    let plan = cleanup_plan(vec![entry(1, 1, 0), entry(2, 2, 1)], &leases, now, 1, 100);
    assert_eq!(plan.len(), 1);
    assert_eq!(plan[0].sha256, [2; 32]);
}

#[test]
fn grace_period_defers_oldest_access_eviction() {
    let leases = ArtifactLeases::default();
    let now_ms = 1_000_000_000u64;
    let now = u128::from(now_ms) * 1_000_000;
    let entries = || vec![entry(1, now_ms - 2000, 0), entry(2, now_ms - 1000, 1)];
    assert!(cleanup_plan(entries(), &leases, now, 300, 100).is_empty());
    let plan = cleanup_plan(entries(), &leases, now, 1, 100);
    assert_eq!(plan.len(), 1);
    assert_eq!(plan[0].sha256, [1; 32]);
    assert!(cleanup_plan(entries(), &leases, now, 1, 200).is_empty());
}

fn listed(stem: &str, extension: &str, len: u64) -> ListedFile {
    ListedFile {
        stem: Some(stem.to_string()),
        extension: Some(extension.to_string()),
        is_file: true,
        len,
        last_access_unix_ms: None,
    }
}

#[test]
fn only_complete_artifacts_are_counted() {
    let sha = sha_hex([3; 32]);
    let mut directory = listed(&sha, "split", 9);
    directory.is_file = false;
    let files = vec![
        listed(&sha, "split", 40),
        listed("other", "split", 50),
        listed(&sha, "json", 60),
        directory,
    ];
    let usage = disk_usage(&files);
    assert_eq!((usage.count, usage.bytes), (1, 40));
}

#[test]
fn artifacts_are_listed_with_their_last_access() {
    let mut newer = listed(&sha_hex([3; 32]), "split", 40);
    newer.last_access_unix_ms = Some(9);
    let older = listed(&sha_hex([4; 32]), "split", 50);
    let entries = listed_entries(&vec![newer, listed("other", "split", 1), older]);
    assert_eq!(entries.len(), 2);
    assert_eq!(entries[0].sha256, [3; 32]);
    assert_eq!(entries[0].size, 40);
    assert_eq!(entries[0].last_access_unix_ms, 9);
    assert_eq!(entries[1].sha256, [4; 32]);
    assert_eq!(entries[1].last_access_unix_ms, 0);
    assert_eq!(entries[1].listed_at, 2);
    let now = 1_000_000_000_000_000_000u128;
    let plan = cleanup_plan(entries, &ArtifactLeases::default(), now, 1, 40);
    assert_eq!(plan.len(), 1);
    assert_eq!(plan[0].sha256, [4; 32]);
}

#[test]
fn disk_usage_follows_publication_and_removal() {
    let mut usage = DiskUsage { count: 2, bytes: 30 };
    usage.published(12);
    assert_eq!((usage.count, usage.bytes), (3, 42));
    usage.removed(Some(12));
    assert_eq!((usage.count, usage.bytes), (2, 30));
}

#[test]
fn artifacts_are_checked_against_their_content_hash() {
    let mut abc = split(1);
    let digest = "ba7816bf8f01cfea414140de5dae2223b00361a396177a9cb410ff61f20015ad";
    abc.blob.sha256 = parse_sha(digest).unwrap();
    assert!(check_artifact_hash(b"abc", &abc, "path").is_ok());
    assert!(check_artifact_hash(b"abd", &abc, "path").is_err());
    assert!(checked_artifact_holds(true, 100, &split(1)));
    assert!(!checked_artifact_holds(true, 99, &split(1)));
    assert!(!checked_artifact_holds(false, 100, &split(1)));
}

#[test]
fn capacities_and_times_are_converted() {
    assert!(split_cache_capacity(0).is_err());
    assert!(split_cache_capacity(1 << 20).is_ok());
    assert_eq!(unix_ms(Some(1_999_999)), 1);
    assert_eq!(unix_ms(None), 0);
    assert_eq!(unix_ms(Some(u128::MAX)), u64::MAX);
}

#[test]
fn a_snapshot_shows_configuration_and_counters() {
    let memory = FtsMemoryCacheConfig::try_new(4096, FtsWarmConfig::Off, 60).unwrap();
    let mut stats = FtsStats::default();
    stats.count_memory_evictions(3);
    stats.count_hydration_attempt();
    stats.count_hydration_end(false);
    stats.count_disk_eviction();
    let state = snapshot(
        &FtsCacheConfig::Memory(memory),
        "db",
        2,
        50,
        DiskUsage { count: 0, bytes: 0 },
        stats,
    );
    assert!(state.enabled);
    assert_eq!(state.resolved_memory_budget_bytes, 4096);
    assert_eq!(state.resolved_disk_budget_bytes, 0);
    assert_eq!(state.disk_root, None);
    assert_eq!(state.retained_split_count, 2);
    assert_eq!(state.retained_split_bytes, 50);
    assert_eq!(state.memory_evictions, 3);
    assert_eq!(state.hydration_failures, 1);
    assert_eq!(state.hydration_completions, 0);
    assert_eq!(state.disk_evictions, 1);

    let hybrid =
        FtsHybridCacheConfig::try_new(4096, "cache".to_string(), 8192, FtsWarmConfig::Off, 60)
            .unwrap();
    let config = FtsCacheConfig::Hybrid(hybrid);
    assert_eq!(config.memory_bytes(), 4096);
    assert_eq!(config.disk().unwrap().root(), "cache");
    assert_eq!(config.generation_grace_period(), 60);
    let usage = DiskUsage { count: 1, bytes: 7 };
    let state = snapshot(&config, "tenants/db", 0, 0, usage, FtsStats::default());
    let root = std::path::Path::new("cache")
        .join("fts-split-cache-v2")
        .join(hex_digest(b"tenants/db"));
    assert_eq!(state.disk_root, Some(root.display().to_string()));
    assert_eq!(state.resolved_disk_budget_bytes, 8192);
    assert_eq!(state.disk_artifact_count, 1);
    assert_eq!(state.disk_artifact_bytes, 7);
    for root in ["/", "/var/cache/", "cache", "a/b"] {
        let joined = std::path::Path::new(root).join("fts-split-cache-v2").join(hex_digest(b"db"));
        assert_eq!(namespace_root(root, "db"), joined.display().to_string());
    }
}

#[test]
fn a_warm_pass_takes_each_split_once() {
    let mut moved = split(1);
    moved.footer_offset = 7;
    let unique = unique_splits(vec![split(2), split(1), split(2), moved]);
    assert_eq!(unique.len(), 3);
    let outcomes = vec![
        WarmOutcome { hydration: WarmHydration::Complete { bytes: 10 }, opened: true },
        WarmOutcome { hydration: WarmHydration::Complete { bytes: 0 }, opened: true },
        WarmOutcome { hydration: WarmHydration::Failed, opened: false },
        WarmOutcome { hydration: WarmHydration::Skipped, opened: true },
    ];
    let summary = warm_summary(2, &outcomes, true, 5);
    assert_eq!(summary.generation_count, 2);
    assert_eq!(summary.split_count, 4);
    assert_eq!(summary.opened_splits, 3);
    assert_eq!(summary.hydrated_splits, 1);
    assert_eq!(summary.hydrated_bytes, 10);
    assert_eq!(summary.warm_errors, 3);
    assert_eq!(summary.warm_elapsed_ms, 5);
}
