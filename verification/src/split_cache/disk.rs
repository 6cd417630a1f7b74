//! Complete split artifacts on local disk: accounting, checks and cleanup.

use vstd::prelude::*;

use crate::config::limits::PositiveUsize;
use crate::digest::{sha256, sha256_of};
use crate::error::{config_error, HelixDbError, HelixDbErrorView};
use crate::order::{
    law_sorting_orders_all_elements, Rank, rank_int, Ranked,
    same_bytes, same_text, sort_ranked, sort_values,
};
use crate::split_cache::demand::ArtifactLeases;
use crate::split_cache::key::{parse_sha, parsed_sha, TextSplitRef};
use crate::split_cache::memory::{saturating_difference, saturating_sum};

verus! {

/// One artifact found in the cache directory.
#[derive(Debug, Clone, Copy, PartialEq, Eq)]
pub struct DiskEntry {
    pub sha256: [u8; 32],
    pub size: u64,
    /// Milliseconds from the Unix epoch to the last access; zero if unknown.
    pub last_access_unix_ms: u64,
    /// Where the entry stands in the directory listing.
    pub listed_at: usize,
}

/// Entries are ordered by their last access.
impl Ranked for DiskEntry {
    open spec fn ranked(&self, other: &Self) -> Rank {
        rank_int(self.last_access_unix_ms as int, other.last_access_unix_ms as int)
    }

    proof fn rank_reflexive(a: &Self) {
    }

    proof fn rank_antisymmetric(a: &Self, b: &Self) {
    }

    proof fn rank_transitive(a: &Self, b: &Self, c: &Self) {
    }

    fn rank(&self, other: &Self) -> (rank: Rank) {
        if self.last_access_unix_ms < other.last_access_unix_ms {
            Rank::Less
        } else if self.last_access_unix_ms == other.last_access_unix_ms {
            Rank::Equal
        } else {
            Rank::Greater
        }
    }
}

/// A directory entry before its name has been understood.
#[derive(Debug)]
pub struct ListedFile {
    /// The file name without its extension, if it is text.
    pub stem: Option<String>,
    /// The extension, if there is one and it is text.
    pub extension: Option<String>,
    pub is_file: bool,
    pub len: u64,
    /// The last access that the file's metadata records, if they can be read.
    pub last_access_unix_ms: Option<u64>,
}

/// The entry that a listed file makes, if its stem spells a digest. A file
/// without metadata was never accessed.
pub open spec fn entry_of_file(file: ListedFile, at: int) -> Option<(Seq<u8>, u64, u64, int)> {
    match file.stem {
        Some(stem) => match parsed_sha(stem@) {
            Some(sha256) => Some(
                (
                    sha256,
                    file.len,
                    match file.last_access_unix_ms {
                        Some(ms) => ms,
                        None => 0,
                    },
                    at,
                ),
            ),
            None => None,
        },
        None => None,
    }
}

/// The entries that the first `count` listed files make.
pub open spec fn entries_of_files(files: Seq<ListedFile>, count: nat) -> Seq<
    (Seq<u8>, u64, u64, int),
>
    decreases count,
{
    if count == 0 {
        Seq::empty()
    } else {
        let front = entries_of_files(files, (count - 1) as nat);
        match entry_of_file(files[count - 1], count - 1) {
            Some(entry) => front.push(entry),
            None => front,
        }
    }
}

/// What an entry says, with its digest as a sequence.
pub open spec fn entry_model(entry: DiskEntry) -> (Seq<u8>, u64, u64, int) {
    (entry.sha256@, entry.size, entry.last_access_unix_ms, entry.listed_at as int)
}

/// The artifacts among the listed files, in the order of the listing. Files
/// whose stem spells no digest are passed over.
pub fn listed_entries(files: &Vec<ListedFile>) -> (entries: Vec<DiskEntry>)
    ensures
        entries@.map_values(|entry: DiskEntry| entry_model(entry)) == entries_of_files(
            files@,
            files@.len(),
        ),
{
    let mut entries: Vec<DiskEntry> = Vec::new();
    let mut i: usize = 0;
    assert(entries@.map_values(|entry: DiskEntry| entry_model(entry)) =~= entries_of_files(
        files@,
        0,
    ));
    while i < files.len()
        invariant
            i <= files.len(),
            entries@.map_values(|entry: DiskEntry| entry_model(entry)) == entries_of_files(
                files@,
                i as nat,
            ),
        decreases files.len() - i,
    {
        let ghost before = entries@;
        let file = &files[i];
        match &file.stem {
            Some(stem) => match parse_sha(stem.as_str()) {
                Some(sha256) => {
                    let last_access_unix_ms = match file.last_access_unix_ms {
                        Some(ms) => ms,
                        None => 0,
                    };
                    let entry = DiskEntry {
                        sha256,
                        size: file.len,
                        last_access_unix_ms,
                        listed_at: i,
                    };
                    entries.push(entry);
                    proof {
                        assert(entries@.map_values(|entry: DiskEntry| entry_model(entry))
                            =~= before.map_values(|entry: DiskEntry| entry_model(entry)).push(
                            entry_model(entry),
                        ));
                    }
                },
                None => {},
            },
            None => {},
        }
        i = i + 1;
    }
    entries
}

/// The sizes of all entries together.
pub open spec fn total_size(entries: Seq<DiskEntry>) -> nat
    decreases entries.len(),
{
    if entries.len() == 0 {
        0
    } else {
        total_size(entries.drop_first()) + entries[0].size as nat
    }
}

/// Nanoseconds since the entry's last access; none if it lies in the future.
pub open spec fn age_nanos(entry: DiskEntry, now_nanos: u128) -> int {
    if now_nanos < entry.last_access_unix_ms * 1_000_000 {
        0
    } else {
        now_nanos - entry.last_access_unix_ms * 1_000_000
    }
}

/// Whether cleanup may remove the entry: no reader holds it, and its grace
/// period is over.
pub open spec fn is_evictable(
    entry: DiskEntry,
    leases: ArtifactLeases,
    now_nanos: u128,
    grace_secs: u64,
) -> bool {
    leases.spec_count(entry.sha256) == 0 && age_nanos(entry, now_nanos) >= grace_secs
        * 1_000_000_000
}

/// The entries that cleanup removes, in this order: going through the entries,
/// every evictable one, until the rest fits the budget.
pub open spec fn evictions(
    entries: Seq<DiskEntry>,
    total: nat,
    leases: ArtifactLeases,
    now_nanos: u128,
    grace_secs: u64,
    budget: u64,
) -> Seq<DiskEntry>
    decreases entries.len(),
{
    if entries.len() == 0 || total <= budget {
        Seq::empty()
    } else if is_evictable(entries[0], leases, now_nanos, grace_secs) {
        seq![entries[0]] + evictions(
            entries.drop_first(),
            (total - entries[0].size) as nat,
            leases,
            now_nanos,
            grace_secs,
            budget,
        )
    } else {
        evictions(entries.drop_first(), total, leases, now_nanos, grace_secs, budget)
    }
}

fn evictable(
    entry: &DiskEntry,
    leases: &ArtifactLeases,
    now_nanos: u128,
    grace_secs: u64,
) -> (yes: bool)
    ensures
        yes == is_evictable(*entry, *leases, now_nanos, grace_secs),
{
    if leases.is_leased(&entry.sha256) {
        return false;
    }
    let accessed: u128 = entry.last_access_unix_ms as u128 * 1_000_000;
    let grace: u128 = grace_secs as u128 * 1_000_000_000;
    let age: u128 = if now_nanos < accessed {
        0
    } else {
        now_nanos - accessed
    };
    age >= grace
}

/// The sum of a prefix is no larger than the whole.
proof fn lemma_total_size_take(entries: Seq<DiskEntry>, count: int)
    requires
        0 <= count < entries.len(),
    ensures
        total_size(entries.skip(count)) == total_size(entries.skip(count + 1))
            + entries[count].size,
{
    assert(entries.skip(count).drop_first() =~= entries.skip(count + 1));
}

proof fn lemma_total_size_insert(s: Seq<DiskEntry>, x: DiskEntry)
    ensures
        total_size(crate::order::insert_ranked(s, x)) == total_size(s) + x.size,
    decreases s.len(),
{
    let whole = crate::order::insert_ranked(s, x);
    if s.len() == 0 || s.last().ranked(&x) != Rank::Greater {
        lemma_total_size_push(s, x);
    } else {
        lemma_total_size_insert(s.drop_last(), x);
        lemma_total_size_push(crate::order::insert_ranked(s.drop_last(), x), s.last());
        lemma_total_size_push(s.drop_last(), s.last());
        assert(s.drop_last().push(s.last()) =~= s);
    }
}

proof fn lemma_total_size_push(s: Seq<DiskEntry>, x: DiskEntry)
    ensures
        total_size(s.push(x)) == total_size(s) + x.size,
    decreases s.len(),
{
    if s.len() == 0 {
        assert(s.push(x).drop_first() =~= s);
    } else {
        assert(s.push(x).drop_first() =~= s.drop_first().push(x));
        lemma_total_size_push(s.drop_first(), x);
    }
}

/// Sorting keeps the total.
proof fn lemma_total_size_sorted(s: Seq<DiskEntry>)
    ensures
        total_size(sort_ranked(s)) == total_size(s),
    decreases s.len(),
{
    if s.len() > 0 {
        lemma_total_size_sorted(s.drop_last());
        lemma_total_size_insert(sort_ranked(s.drop_last()), s.last());
        lemma_total_size_push(s.drop_last(), s.last());
        assert(s.drop_last().push(s.last()) =~= s);
    }
}

/// The artifacts that cleanup removes to bring the cache within its budget,
/// least recently accessed first.
pub fn cleanup_plan(
    entries: Vec<DiskEntry>,
    leases: &ArtifactLeases,
    now_nanos: u128,
    grace_secs: u64,
    budget: u64,
) -> (plan: Vec<DiskEntry>)
    requires
        total_size(entries@) <= u64::MAX,
    ensures
        plan@ == evictions(
            sort_ranked(entries@),
            total_size(entries@),
            *leases,
            now_nanos,
            grace_secs,
            budget,
        ),
{
    let ghost listed = entries@;
    let mut sorted = entries;
    sort_values(&mut sorted);
    let ghost all = sorted@;
    proof {
        lemma_total_size_sorted(listed);
        assert(all.skip(0) =~= all);
    }
    let mut total: u64 = 0;
    let mut i: usize = 0;
    while i < sorted.len()
        invariant
            i <= sorted.len(),
            sorted@ == all,
            total + total_size(all.skip(i as int)) == total_size(all),
            total_size(all) <= u64::MAX,
        decreases sorted.len() - i,
    {
        proof {
            lemma_total_size_take(all, i as int);
        }
        total = total + sorted[i].size;
        i = i + 1;
    }
    assert(all.skip(i as int) =~= Seq::<DiskEntry>::empty());
    let mut plan: Vec<DiskEntry> = Vec::new();
    let ghost whole = evictions(all, total as nat, *leases, now_nanos, grace_secs, budget);
    proof {
        assert(plan@ + whole =~= whole);
    }
    let mut k: usize = 0;
    while k < sorted.len() && total > budget
        invariant
            k <= sorted.len(),
            sorted@ == all,
            total >= total_size(all.skip(k as int)),
            whole == plan@ + evictions(
                all.skip(k as int),
                total as nat,
                *leases,
                now_nanos,
                grace_secs,
                budget,
            ),
        decreases sorted.len() - k,
    {
        proof {
            lemma_total_size_take(all, k as int);
            assert(all.skip(k as int).drop_first() =~= all.skip(k as int + 1));
            assert(all.skip(k as int)[0] == all[k as int]);
        }
        let entry = sorted[k];
        let ghost before = plan@;
        if evictable(&entry, leases, now_nanos, grace_secs) {
            plan.push(entry);
            total = total - entry.size;
            proof {
                let rest = evictions(
                    all.skip(k as int + 1),
                    total as nat,
                    *leases,
                    now_nanos,
                    grace_secs,
                    budget,
                );
                assert(before + (seq![entry] + rest) =~= plan@ + rest);
            }
        }
        k = k + 1;
    }
    assert(plan@ + Seq::<DiskEntry>::empty() =~= plan@);
    plan
}

/// Cleanup removes nothing that a reader holds or whose grace period runs.
pub proof fn law_cleanup_spares_protected_artifacts(
    entries: Seq<DiskEntry>,
    total: nat,
    leases: ArtifactLeases,
    now_nanos: u128,
    grace_secs: u64,
    budget: u64,
    at: int,
)
    requires
        0 <= at < evictions(entries, total, leases, now_nanos, grace_secs, budget).len(),
    ensures
        ({
            let gone = evictions(entries, total, leases, now_nanos, grace_secs, budget)[at];
            &&& leases.spec_count(gone.sha256) == 0
            &&& age_nanos(gone, now_nanos) >= grace_secs * 1_000_000_000
            &&& entries.contains(gone)
        }),
    decreases entries.len(),
{
    let rest = entries.drop_first();
    let gone = evictions(entries, total, leases, now_nanos, grace_secs, budget)[at];
    if is_evictable(entries[0], leases, now_nanos, grace_secs) {
        if at == 0 {
            assert(entries[0] == gone);
        } else {
            law_cleanup_spares_protected_artifacts(
                rest,
                (total - entries[0].size) as nat,
                leases,
                now_nanos,
                grace_secs,
                budget,
                at - 1,
            );
            let i = choose|i: int| 0 <= i < rest.len() && rest[i] == gone;
            assert(entries[i + 1] == gone);
        }
    } else {
        law_cleanup_spares_protected_artifacts(
            rest,
            total,
            leases,
            now_nanos,
            grace_secs,
            budget,
            at,
        );
        let i = choose|i: int| 0 <= i < rest.len() && rest[i] == gone;
        assert(entries[i + 1] == gone);
    }
}

/// Cleanup ends within the budget, unless everything that is left is
/// protected; and it removes nothing from a cache within its budget.
pub proof fn law_cleanup_reaches_budget(
    entries: Seq<DiskEntry>,
    total: nat,
    leases: ArtifactLeases,
    now_nanos: u128,
    grace_secs: u64,
    budget: u64,
)
    requires
        total_size(entries) <= total,
    ensures
        ({
            let gone = evictions(entries, total, leases, now_nanos, grace_secs, budget);
            &&& total <= budget ==> gone.len() == 0
            &&& total_size(gone) <= total_size(entries)
            &&& total - total_size(gone) <= budget || forall|i: int|
                #![trigger entries[i]]
                0 <= i < entries.len() && is_evictable(entries[i], leases, now_nanos, grace_secs)
                    ==> gone.contains(entries[i])
        }),
    decreases entries.len(),
{
    let gone = evictions(entries, total, leases, now_nanos, grace_secs, budget);
    if entries.len() > 0 && total > budget {
        let rest = entries.drop_first();
        if is_evictable(entries[0], leases, now_nanos, grace_secs) {
            let left = (total - entries[0].size) as nat;
            law_cleanup_reaches_budget(rest, left, leases, now_nanos, grace_secs, budget);
            let later = evictions(rest, left, leases, now_nanos, grace_secs, budget);
            assert(gone.drop_first() =~= later);
            if total - total_size(gone) > budget {
                assert forall|i: int|
                    #![trigger entries[i]]
                    0 <= i < entries.len() && is_evictable(
                        entries[i],
                        leases,
                        now_nanos,
                        grace_secs,
                    ) implies gone.contains(entries[i]) by {
                    if i == 0 {
                        assert(gone[0] == entries[0]);
                    } else {
                        assert(rest[i - 1] == entries[i]);
                        let at = choose|at: int| 0 <= at < later.len() && later[at] == rest[i - 1];
                        assert(gone[at + 1] == entries[i]);
                    }
                }
            }
        } else {
            law_cleanup_reaches_budget(rest, total, leases, now_nanos, grace_secs, budget);
            if total - total_size(gone) > budget {
                assert forall|i: int|
                    #![trigger entries[i]]
                    0 <= i < entries.len() && is_evictable(
                        entries[i],
                        leases,
                        now_nanos,
                        grace_secs,
                    ) implies gone.contains(entries[i]) by {
                    assert(i > 0);
                    assert(rest[i - 1] == entries[i]);
                }
            }
        }
    }
}

/// How many artifacts are on disk, and how large they are together.
#[derive(Debug, Clone, Copy, PartialEq, Eq, Structural)]
pub struct DiskUsage {
    pub count: u64,
    pub bytes: u64,
}

/// Whether a listed file is a complete artifact.
pub open spec fn is_artifact(file: ListedFile) -> bool {
    &&& file.extension matches Some(extension) && extension@ == "split"@
    &&& file.stem matches Some(stem) && parsed_sha(stem@) is Some
    &&& file.is_file
}

/// The usage with one more file of the given length.
pub open spec fn usage_with(usage: DiskUsage, len: u64) -> DiskUsage {
    DiskUsage { count: saturating_sum(usage.count, 1), bytes: saturating_sum(usage.bytes, len) }
}

/// The usage of the first `count` listed files.
pub open spec fn usage_of_files(files: Seq<ListedFile>, count: nat) -> DiskUsage
    decreases count,
{
    if count == 0 {
        DiskUsage { count: 0, bytes: 0 }
    } else {
        let front = usage_of_files(files, (count - 1) as nat);
        if is_artifact(files[count - 1]) {
            usage_with(front, files[count - 1].len)
        } else {
            front
        }
    }
}

/// Counts the complete artifacts among the listed files and adds their
/// lengths; neither number passes 64 bits.
pub fn disk_usage(files: &Vec<ListedFile>) -> (usage: DiskUsage)
    ensures
        usage == usage_of_files(files@, files@.len()),
{
    let mut usage = DiskUsage { count: 0, bytes: 0 };
    let mut i: usize = 0;
    while i < files.len()
        invariant
            i <= files.len(),
            usage == usage_of_files(files@, i as nat),
        decreases files.len() - i,
    {
        let file = &files[i];
        let valid_name = match &file.stem {
            Some(stem) => parse_sha(stem.as_str()).is_some(),
            None => false,
        };
        let valid_extension = match &file.extension {
            Some(extension) => same_text(extension.as_str(), "split"),
            None => false,
        };
        if valid_extension && valid_name && file.is_file {
            usage =
            DiskUsage {
                count: usage.count.saturating_add(1),
                bytes: usage.bytes.saturating_add(file.len),
            };
        }
        i = i + 1;
    }
    usage
}

impl DiskUsage {
    /// Accounts for a published artifact.
    pub fn published(&mut self, size: u64)
        ensures
            final(self).count == (old(self).count + 1) % 0x1_0000_0000_0000_0000,
            final(self).bytes == (old(self).bytes + size) % 0x1_0000_0000_0000_0000,
    {
        self.count = self.count.wrapping_add(1);
        self.bytes = self.bytes.wrapping_add(size);
    }

    /// Accounts for a removed artifact; its size may be unknown.
    pub fn removed(&mut self, size: Option<u64>)
        ensures
            final(self).count == saturating_difference(old(self).count, 1),
            final(self).bytes == match size {
                Some(size) => saturating_difference(old(self).bytes, size),
                None => old(self).bytes,
            },
    {
        self.count = self.count.saturating_sub(1);
        match size {
            Some(size) => {
                self.bytes = self.bytes.saturating_sub(size);
            },
            None => {},
        }
    }
}

/// Removing an artifact undoes publishing it, unless a counter wraps.
pub proof fn law_removal_undoes_publication(usage: DiskUsage, size: u64)
    requires
        usage.count < u64::MAX,
        usage.bytes + size <= u64::MAX,
    ensures
        saturating_difference(((usage.count + 1) % 0x1_0000_0000_0000_0000) as u64, 1)
            == usage.count,
        saturating_difference(((usage.bytes + size) % 0x1_0000_0000_0000_0000) as u64, size)
            == usage.bytes,
{
}

/// Whether an artifact that has been checked before needs no second check: its
/// size is still that of the split.
pub fn checked_artifact_holds(checked: bool, size: u64, split: &TextSplitRef) -> (holds: bool)
    ensures
        holds == (checked && size == split.total_size_bytes),
{
    checked && size == split.total_size_bytes
}

/// Checks an artifact's content against the digest in the split's identity.
pub fn check_artifact_hash(content: &[u8], split: &TextSplitRef, path: &str) -> (checked: Result<
    (),
    HelixDbError,
>)
    ensures
        match checked {
            Ok(_) => sha256_of(content@) == split.blob.sha256@,
            Err(error) => sha256_of(content@) != split.blob.sha256@ && error@
                == HelixDbErrorView::Config(
                "cached FTS split '"@ + path@ + "' hash mismatch"@,
            ),
        },
{
    let actual = sha256(content);
    if same_bytes(actual.as_slice(), split.blob.sha256.as_slice()) {
        Ok(())
    } else {
        let mut message = "cached FTS split '".to_owned();
        message.append(path);
        message.append("' hash mismatch");
        Err(config_error(message.as_str()))
    }
}

/// The capacity of the range cache in front of one split.
pub fn split_cache_capacity(size_bytes: u64) -> (capacity: Result<PositiveUsize, HelixDbError>)
    ensures
        match capacity {
            Ok(capacity) => size_bytes > 0 && capacity@ == size_bytes,
            Err(error) => if size_bytes > usize::MAX {
                error@ == HelixDbErrorView::Config("text split size exceeds platform limits"@)
            } else {
                size_bytes == 0 && error@ == HelixDbErrorView::Config(
                    "text split cache size must be non-zero"@,
                )
            },
        },
{
    if size_bytes > usize::MAX as u64 {
        return Err(config_error("text split size exceeds platform limits"));
    }
    match PositiveUsize::new(size_bytes as usize) {
        Some(capacity) => Ok(capacity),
        None => Err(config_error("text split cache size must be non-zero")),
    }
}

/// Whole milliseconds since the Unix epoch, from nanoseconds: zero before the
/// epoch, and never more than 64 bits.
pub fn unix_ms(nanos_since_epoch: Option<u128>) -> (ms: u64)
    ensures
        ms == match nanos_since_epoch {
            Some(nanos) => if nanos / 1_000_000 > u64::MAX {
                u64::MAX as int
            } else {
                (nanos / 1_000_000) as int
            },
            None => 0,
        },
{
    match nanos_since_epoch {
        Some(nanos) => {
            let ms: u128 = nanos / 1_000_000;
            if ms > u64::MAX as u128 {
                u64::MAX
            } else {
                ms as u64
            }
        },
        None => 0,
    }
}

/// A listed file whose stem spells a digest, with its place in the listing.
pub open spec fn is_listed_artifact(files: Seq<ListedFile>, at: int) -> bool {
    &&& 0 <= at < files.len()
    &&& files[at].stem is Some
    &&& parsed_sha(files[at].stem->Some_0@) is Some
}

proof fn lemma_entries_of_files(files: Seq<ListedFile>, count: nat)
    requires
        count <= files.len(),
    ensures
        ({
            let entries = entries_of_files(files, count);
            &&& forall|i: int|
                #![trigger entries[i]]
                0 <= i < entries.len() ==> {
                    let at = entries[i].3;
                    &&& at < count
                    &&& is_listed_artifact(files, at)
                    &&& entries[i].0 == parsed_sha(files[at].stem->Some_0@)->Some_0
                    &&& entries[i].1 == files[at].len
                    &&& files[at].last_access_unix_ms is Some ==> entries[i].2
                        == files[at].last_access_unix_ms->Some_0
                    &&& files[at].last_access_unix_ms is None ==> entries[i].2 == 0
                }
            &&& forall|i: int, j: int|
                #![trigger entries[i], entries[j]]
                0 <= i < j < entries.len() ==> entries[i].3 < entries[j].3
            &&& forall|at: int| #[trigger]
                is_listed_artifact(files, at) && at < count ==> exists|i: int|
                    0 <= i < entries.len() && (#[trigger] entries[i]).3 == at
        }),
    decreases count,
{
    if count > 0 {
        let last = count - 1;
        lemma_entries_of_files(files, last as nat);
        let front = entries_of_files(files, last as nat);
        let entries = entries_of_files(files, count);
        assert forall|at: int| #[trigger]
            is_listed_artifact(files, at) && at < count implies exists|i: int|
            0 <= i < entries.len() && (#[trigger] entries[i]).3 == at by {
            if at < last {
                let i = choose|i: int| 0 <= i < front.len() && (#[trigger] front[i]).3 == at;
                assert(entries[i].3 == at);
            } else {
                assert(entries[front.len() as int].3 == at);
            }
        }
        assert forall|i: int|
            #![trigger entries[i]]
            0 <= i < entries.len() implies {
            let at = entries[i].3;
            &&& at < count
            &&& is_listed_artifact(files, at)
            &&& entries[i].0 == parsed_sha(files[at].stem->Some_0@)->Some_0
            &&& entries[i].1 == files[at].len
            &&& files[at].last_access_unix_ms is Some ==> entries[i].2
                == files[at].last_access_unix_ms->Some_0
            &&& files[at].last_access_unix_ms is None ==> entries[i].2 == 0
        } by {
            if i < front.len() {
                assert(entries[i] == front[i]);
            }
        }
        assert forall|i: int, j: int|
            #![trigger entries[i], entries[j]]
            0 <= i < j < entries.len() implies entries[i].3 < entries[j].3 by {
            assert(entries[i] == front[i]);
            if j < front.len() {
                assert(entries[j] == front[j]);
            }
        }
    }
}

/// The entries are the listed files whose stem spells a digest, all of them, in
/// the order of the listing, each with the length and the last access of its file.
pub proof fn law_entries_are_the_named_files(files: Vec<ListedFile>, entries: Vec<DiskEntry>)
    requires
        call_ensures(listed_entries, (&files,), entries),
    ensures
        forall|i: int|
            #![trigger entries@[i]]
            0 <= i < entries@.len() ==> {
                let at = entries@[i].listed_at as int;
                &&& is_listed_artifact(files@, at)
                &&& entries@[i].sha256@ == parsed_sha(files@[at].stem->Some_0@)->Some_0
                &&& entries@[i].size == files@[at].len
                &&& files@[at].last_access_unix_ms is Some ==> entries@[i].last_access_unix_ms
                    == files@[at].last_access_unix_ms->Some_0
                &&& files@[at].last_access_unix_ms is None ==> entries@[i].last_access_unix_ms == 0
            },
        forall|i: int, j: int|
            #![trigger entries@[i], entries@[j]]
            0 <= i < j < entries@.len() ==> entries@[i].listed_at < entries@[j].listed_at,
        forall|at: int| #[trigger]
            is_listed_artifact(files@, at) ==> exists|i: int|
                0 <= i < entries@.len() && (#[trigger] entries@[i]).listed_at == at,
{
    let models = entries_of_files(files@, files@.len());
    lemma_entries_of_files(files@, files@.len());
    assert(models.len() == entries@.len());
    assert forall|i: int| 0 <= i < entries@.len() implies #[trigger] entry_model(entries@[i])
        == models[i] by {
        assert(entries@.map_values(|entry: DiskEntry| entry_model(entry))[i] == models[i]);
    }
    assert forall|i: int|
        #![trigger entries@[i]]
        0 <= i < entries@.len() implies {
        let at = entries@[i].listed_at as int;
        &&& is_listed_artifact(files@, at)
        &&& entries@[i].sha256@ == parsed_sha(files@[at].stem->Some_0@)->Some_0
        &&& entries@[i].size == files@[at].len
        &&& files@[at].last_access_unix_ms is Some ==> entries@[i].last_access_unix_ms
            == files@[at].last_access_unix_ms->Some_0
        &&& files@[at].last_access_unix_ms is None ==> entries@[i].last_access_unix_ms == 0
    } by {
        assert(entry_model(entries@[i]) == models[i]);
    }
    assert forall|i: int, j: int|
        #![trigger entries@[i], entries@[j]]
        0 <= i < j < entries@.len() implies entries@[i].listed_at < entries@[j].listed_at by {
        assert(entry_model(entries@[i]) == models[i]);
        assert(entry_model(entries@[j]) == models[j]);
    }
    assert forall|at: int| #[trigger] is_listed_artifact(files@, at) implies exists|i: int|
        0 <= i < entries@.len() && (#[trigger] entries@[i]).listed_at == at by {
        let i = choose|i: int| 0 <= i < models.len() && (#[trigger] models[i]).3 == at;
        assert(entry_model(entries@[i]) == models[i]);
        assert(entries@[i].listed_at == at);
    }
}

/// The planned entries come in the order of the entries.
proof fn lemma_evictions_sorted(
    entries: Seq<DiskEntry>,
    total: nat,
    leases: ArtifactLeases,
    now_nanos: u128,
    grace_secs: u64,
    budget: u64,
)
    requires
        crate::order::is_sorted(entries),
    ensures
        ({
            let gone = evictions(entries, total, leases, now_nanos, grace_secs, budget);
            &&& forall|i: int, j: int|
                #![trigger gone[i], gone[j]]
                0 <= i < j < gone.len() ==> gone[i].last_access_unix_ms
                    <= gone[j].last_access_unix_ms
            &&& forall|i: int| 0 <= i < gone.len() ==> entries.contains(#[trigger] gone[i])
            &&& total_size(entries) <= total && gone.len() > 0 ==> total - total_size(
                gone.drop_last(),
            ) > budget
        }),
    decreases entries.len(),
{
    let gone = evictions(entries, total, leases, now_nanos, grace_secs, budget);
    if entries.len() > 0 && total > budget {
        let rest = entries.drop_first();
        assert(crate::order::is_sorted(rest)) by {
            assert forall|i: int, j: int|
                #![trigger rest[i], rest[j]]
                0 <= i < j < rest.len() implies rest[i].ranked(&rest[j]) != Rank::Greater by {
                assert(rest[i] == entries[i + 1] && rest[j] == entries[j + 1]);
            }
        }
        let evicts = is_evictable(entries[0], leases, now_nanos, grace_secs);
        let left = if evicts {
            (total - entries[0].size) as nat
        } else {
            total
        };
        lemma_evictions_sorted(rest, left, leases, now_nanos, grace_secs, budget);
        let later = evictions(rest, left, leases, now_nanos, grace_secs, budget);
        assert forall|i: int| 0 <= i < later.len() implies entries.contains(#[trigger] later[i])
            && entries[0].last_access_unix_ms <= later[i].last_access_unix_ms by {
            assert(rest.contains(later[i]));
            let k = choose|k: int| 0 <= k < rest.len() && rest[k] == later[i];
            assert(entries[k + 1] == later[i]);
            assert(entries[0].ranked(&entries[k + 1]) != Rank::Greater);
        }
        if evicts {
            assert(gone =~= seq![entries[0]] + later);
            assert(entries.contains(entries[0]));
            assert forall|i: int| 0 <= i < gone.len() implies entries.contains(
                #[trigger] gone[i],
            ) by {
                if i > 0 {
                    assert(gone[i] == later[i - 1]);
                }
            }
            assert forall|i: int, j: int|
                #![trigger gone[i], gone[j]]
                0 <= i < j < gone.len() implies gone[i].last_access_unix_ms
                <= gone[j].last_access_unix_ms by {
                assert(gone[j] == later[j - 1]);
                if i > 0 {
                    assert(gone[i] == later[i - 1]);
                }
            }
            if total_size(entries) <= total {
                if later.len() == 0 {
                    assert(gone.drop_last() =~= Seq::<DiskEntry>::empty());
                } else {
                    assert(gone.drop_last().drop_first() =~= later.drop_last());
                    assert(gone.drop_last()[0] == entries[0]);
                }
            }
        } else {
            assert(gone == later);
        }
    }
}

/// Cleanup removes listed artifacts only, none that a reader holds or whose grace
/// period runs, the least recently accessed first, and none once the rest fits the
/// budget; where the rest does not fit, all that may go is removed.
pub proof fn law_cleanup_removes_the_oldest(
    entries: Vec<DiskEntry>,
    leases: ArtifactLeases,
    now_nanos: u128,
    grace_secs: u64,
    budget: u64,
    plan: Vec<DiskEntry>,
)
    requires
        total_size(entries@) <= u64::MAX,
        call_ensures(cleanup_plan, (entries, &leases, now_nanos, grace_secs, budget), plan),
    ensures
        forall|i: int|
            #![trigger plan@[i]]
            0 <= i < plan@.len() ==> {
                &&& entries@.contains(plan@[i])
                &&& leases.spec_count(plan@[i].sha256) == 0
                &&& plan@[i].last_access_unix_ms * 1_000_000 + grace_secs * 1_000_000_000
                    <= now_nanos || grace_secs == 0
            },
        forall|i: int, j: int|
            #![trigger plan@[i], plan@[j]]
            0 <= i < j < plan@.len() ==> plan@[i].last_access_unix_ms
                <= plan@[j].last_access_unix_ms,
        total_size(entries@) <= budget ==> plan@.len() == 0,
        plan@.len() > 0 ==> total_size(entries@) - total_size(plan@.drop_last()) > budget,
        total_size(entries@) - total_size(plan@) <= budget || forall|i: int|
            #![trigger entries@[i]]
            0 <= i < entries@.len() && leases.spec_count(entries@[i].sha256) == 0
                && entries@[i].last_access_unix_ms * 1_000_000 + grace_secs * 1_000_000_000
                <= now_nanos ==> plan@.contains(entries@[i]),
{
    broadcast use vstd::seq_lib::group_to_multiset_ensures;

    let sorted = sort_ranked(entries@);
    let total = total_size(entries@);
    lemma_total_size_sorted(entries@);
    law_sorting_orders_all_elements(entries@);
    crate::order::lemma_sort_ranked(entries@);
    lemma_evictions_sorted(sorted, total, leases, now_nanos, grace_secs, budget);
    law_cleanup_reaches_budget(sorted, total, leases, now_nanos, grace_secs, budget);
    assert forall|i: int|
        #![trigger plan@[i]]
        0 <= i < plan@.len() implies {
        &&& entries@.contains(plan@[i])
        &&& leases.spec_count(plan@[i].sha256) == 0
        &&& plan@[i].last_access_unix_ms * 1_000_000 + grace_secs * 1_000_000_000 <= now_nanos
            || grace_secs == 0
    } by {
        law_cleanup_spares_protected_artifacts(
            sorted,
            total,
            leases,
            now_nanos,
            grace_secs,
            budget,
            i,
        );
        assert(sorted.to_multiset().count(plan@[i]) > 0);
        assert(entries@.to_multiset().count(plan@[i]) > 0);
    }
    if total - total_size(plan@) > budget {
        assert forall|i: int|
            #![trigger entries@[i]]
            0 <= i < entries@.len() && leases.spec_count(entries@[i].sha256) == 0
                && entries@[i].last_access_unix_ms * 1_000_000 + grace_secs * 1_000_000_000
                <= now_nanos implies plan@.contains(entries@[i]) by {
            let entry = entries@[i];
            assert(entries@.to_multiset().count(entry) > 0);
            assert(sorted.to_multiset().count(entry) > 0);
            assert(sorted.contains(entry));
            let k = choose|k: int| 0 <= k < sorted.len() && sorted[k] == entry;
            assert(is_evictable(sorted[k], leases, now_nanos, grace_secs));
        }
    }
}

/// A listed file that is a complete artifact: a file, with the ending of artifacts,
/// whose stem spells a digest.
pub open spec fn is_complete_artifact(file: ListedFile) -> bool {
    &&& file.is_file
    &&& file.extension is Some && file.extension->Some_0@ == "split"@
    &&& file.stem is Some && parsed_sha(file.stem->Some_0@) is Some
}

proof fn lemma_usage_of_files(files: Seq<ListedFile>, count: nat)
    requires
        count <= files.len(),
    ensures
        ({
            let artifacts = files.take(count as int).filter(
                |file: ListedFile| is_complete_artifact(file),
            );
            let bytes = artifacts.fold_left(0, |sum: int, file: ListedFile| sum + file.len);
            let usage = usage_of_files(files, count);
            &&& usage.count == if artifacts.len() > u64::MAX {
                u64::MAX as int
            } else {
                artifacts.len() as int
            }
            &&& usage.bytes == if bytes > u64::MAX {
                u64::MAX as int
            } else {
                bytes
            }
            &&& bytes >= 0
        }),
    decreases count,
{
    reveal(Seq::filter);
    let complete = |file: ListedFile| is_complete_artifact(file);
    let longer = |sum: int, file: ListedFile| sum + file.len;
    let taken = files.take(count as int);
    if count == 0 {
        assert(taken.filter(complete) =~= Seq::<ListedFile>::empty());
    } else {
        lemma_usage_of_files(files, (count - 1) as nat);
        assert(taken.drop_last() =~= files.take(count - 1));
        let front = files.take(count - 1).filter(complete);
        if is_complete_artifact(files[count - 1]) {
            assert(taken.filter(complete) =~= front.push(files[count - 1]));
            assert(front.push(files[count - 1]).drop_last() =~= front);
        } else {
            assert(taken.filter(complete) =~= front);
        }
    }
}

/// The usage is the number of the complete artifacts among the files and the sum
/// of their lengths, as far as they fit.
pub proof fn law_usage_counts_complete_artifacts(files: Vec<ListedFile>, usage: DiskUsage)
    requires
        call_ensures(disk_usage, (&files,), usage),
    ensures
        ({
            let artifacts = files@.filter(|file: ListedFile| is_complete_artifact(file));
            let bytes = artifacts.fold_left(0, |sum: int, file: ListedFile| sum + file.len);
            &&& artifacts.len() <= u64::MAX ==> usage.count == artifacts.len()
            &&& bytes <= u64::MAX ==> usage.bytes == bytes
            &&& bytes > u64::MAX ==> usage.bytes == u64::MAX
        }),
{
    lemma_usage_of_files(files@, files@.len());
    assert(files@.take(files@.len() as int) =~= files@);
}

/// A published artifact adds one and its size to the usage.
pub proof fn law_publications_are_accounted_for(usage: &mut DiskUsage, size: u64)
    requires
        call_ensures(DiskUsage::published, (usage, size), ()),
        old(usage).count < u64::MAX,
        old(usage).bytes + size <= u64::MAX,
    ensures
        final(usage).count == old(usage).count + 1,
        final(usage).bytes == old(usage).bytes + size,
{
}

/// A removed artifact takes one and its size off the usage, as far as there is
/// anything; an unknown size takes nothing off.
pub proof fn law_removals_are_accounted_for(usage: &mut DiskUsage, size: Option<u64>)
    requires
        call_ensures(DiskUsage::removed, (usage, size), ()),
    ensures
        old(usage).count > 0 ==> final(usage).count == old(usage).count - 1,
        old(usage).count == 0 ==> final(usage).count == 0,
        size is None ==> final(usage).bytes == old(usage).bytes,
        size is Some && size->Some_0 <= old(usage).bytes ==> final(usage).bytes == old(usage).bytes
            - size->Some_0,
        size is Some && size->Some_0 > old(usage).bytes ==> final(usage).bytes == 0,
{
}

/// An artifact is accepted if and only if its content has the digest of its split;
/// one that was checked before, if and only if its size is still that of the split.
pub proof fn law_artifacts_have_their_digest(
    content: &[u8],
    split: TextSplitRef,
    path: &str,
    checked: Result<(), HelixDbError>,
    before: bool,
    size: u64,
    holds: bool,
)
    requires
        call_ensures(check_artifact_hash, (content, &split, path), checked),
        call_ensures(checked_artifact_holds, (before, size, &split), holds),
    ensures
        checked is Ok <==> sha256_of(content@) == split.blob.sha256@,
        checked is Err ==> checked->Err_0@ is Config,
        holds <==> before && size == split.total_size_bytes,
{
}

/// The cache in front of a split is as large as the split; there is none for an
/// empty split, nor for one that does not fit the platform.
pub proof fn law_split_caches_fit_their_split(
    size_bytes: u64,
    capacity: Result<PositiveUsize, HelixDbError>,
)
    requires
        call_ensures(split_cache_capacity, (size_bytes,), capacity),
    ensures
        capacity is Ok ==> capacity->Ok_0@ == size_bytes,
        0 < size_bytes <= usize::MAX ==> capacity is Ok,
        size_bytes == 0 ==> capacity is Err,
        capacity is Err ==> capacity->Err_0@ is Config,
{
}

/// Times are whole milliseconds, rounded down, as far as they fit; there are none
/// before the epoch.
pub proof fn law_times_are_whole_milliseconds(nanos: Option<u128>, ms: u64)
    requires
        call_ensures(unix_ms, (nanos,), ms),
    ensures
        nanos is None ==> ms == 0,
        nanos is Some && ms < u64::MAX ==> ms * 1_000_000 <= nanos->Some_0 < (ms + 1) * 1_000_000,
        nanos is Some && ms == u64::MAX ==> nanos->Some_0 >= u64::MAX * 1_000_000,
{
}

} // verus!
