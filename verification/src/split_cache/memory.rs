//! Opened splits retained in memory, least recently used first out.

use vstd::prelude::*;

use crate::split_cache::key::TextSplitCacheKey;

verus! {

/// One retained split.
#[derive(Debug)]
pub struct MemoryEntry<T> {
    pub key: TextSplitCacheKey,
    pub split: T,
    pub size_bytes: u64,
    pub access_tick: u64,
}

/// The largest 64-bit number, or the sum where it is no larger.
pub open spec fn saturating_sum(a: u64, b: u64) -> u64 {
    if a + b > u64::MAX {
        u64::MAX
    } else {
        (a + b) as u64
    }
}

/// Zero, or the difference where it is not negative.
pub open spec fn saturating_difference(a: u64, b: u64) -> u64 {
    if a < b {
        0
    } else {
        (a - b) as u64
    }
}

/// The tick after `tick`; the largest is followed by zero.
pub open spec fn next_tick(tick: u64) -> u64 {
    if tick == u64::MAX {
        0
    } else {
        (tick + 1) as u64
    }
}

/// No two entries have the same key.
pub open spec fn unique_keys<T>(entries: Seq<MemoryEntry<T>>) -> bool {
    forall|i: int, j: int|
        #![trigger entries[i], entries[j]]
        0 <= i < j < entries.len() ==> entries[i].key != entries[j].key
}

/// Whether an entry of `key` is retained.
pub open spec fn retains<T>(entries: Seq<MemoryEntry<T>>, key: TextSplitCacheKey) -> bool {
    exists|i: int| 0 <= i < entries.len() && (#[trigger] entries[i]).key == key
}

/// The bytes of all entries together.
pub open spec fn total_bytes<T>(entries: Seq<MemoryEntry<T>>) -> nat
    decreases entries.len(),
{
    if entries.len() == 0 {
        0
    } else {
        total_bytes(entries.drop_last()) + entries.last().size_bytes as nat
    }
}

/// Where the first of the least recently used entries stands.
pub open spec fn oldest<T>(entries: Seq<MemoryEntry<T>>) -> int
    decreases entries.len(),
{
    if entries.len() <= 1 {
        0
    } else {
        let front = oldest(entries.drop_last());
        if entries.last().access_tick < entries[front].access_tick {
            entries.len() - 1
        } else {
            front
        }
    }
}

/// What is left after the least recently used entries have gone one by one
/// until the charged bytes fit the budget.
pub open spec fn fitted<T>(entries: Seq<MemoryEntry<T>>, bytes: u64, budget: u64) -> (
    Seq<MemoryEntry<T>>,
    u64,
)
    decreases entries.len(),
{
    if bytes <= budget || entries.len() == 0 {
        (entries, bytes)
    } else {
        let victim = oldest(entries);
        if 0 <= victim < entries.len() {
            fitted(
                entries.remove(victim),
                saturating_difference(bytes, entries[victim].size_bytes),
                budget,
            )
        } else {
            (entries, bytes)
        }
    }
}

proof fn lemma_oldest_bounds<T>(entries: Seq<MemoryEntry<T>>)
    requires
        entries.len() > 0,
    ensures
        0 <= oldest(entries) < entries.len(),
        forall|i: int|
            0 <= i < entries.len() ==> entries[oldest(entries)].access_tick <= (
            #[trigger] entries[i]).access_tick,
    decreases entries.len(),
{
    if entries.len() > 1 {
        lemma_oldest_bounds(entries.drop_last());
        let front = oldest(entries.drop_last());
        assert forall|i: int| 0 <= i < entries.len() implies entries[oldest(entries)].access_tick
            <= (#[trigger] entries[i]).access_tick by {
            if i < entries.len() - 1 {
                assert(entries.drop_last()[i] == entries[i]);
            }
            assert(entries.drop_last()[front] == entries[front]);
        }
    }
}

proof fn lemma_total_remove<T>(entries: Seq<MemoryEntry<T>>, at: int)
    requires
        0 <= at < entries.len(),
    ensures
        total_bytes(entries.remove(at)) + entries[at].size_bytes == total_bytes(entries),
    decreases entries.len(),
{
    if at == entries.len() - 1 {
        assert(entries.remove(at) =~= entries.drop_last());
    } else {
        lemma_total_remove(entries.drop_last(), at);
        assert(entries.remove(at).drop_last() =~= entries.drop_last().remove(at));
        assert(entries.remove(at).last() == entries.last());
    }
}

/// Fitting keeps uniqueness and ends within the budget; the charge is exact
/// afterwards if it was exact before.
proof fn lemma_fitted<T>(entries: Seq<MemoryEntry<T>>, bytes: u64, budget: u64)
    requires
        unique_keys(entries),
        bytes <= total_bytes(entries),
    ensures
        unique_keys(fitted(entries, bytes, budget).0),
        fitted(entries, bytes, budget).1 <= total_bytes(fitted(entries, bytes, budget).0),
        fitted(entries, bytes, budget).1 <= budget,
        bytes == total_bytes(entries) ==> fitted(entries, bytes, budget).1 == total_bytes(
            fitted(entries, bytes, budget).0,
        ),
        fitted(entries, bytes, budget).0.len() <= entries.len(),
    decreases entries.len(),
{
    if bytes > budget && entries.len() > 0 {
        lemma_oldest_bounds(entries);
        let victim = oldest(entries);
        lemma_total_remove(entries, victim);
        let rest = entries.remove(victim);
        assert forall|i: int, j: int|
            #![trigger rest[i], rest[j]]
            0 <= i < j < rest.len() implies rest[i].key != rest[j].key by {
            let a = if i < victim {
                i
            } else {
                i + 1
            };
            let b = if j < victim {
                j
            } else {
                j + 1
            };
            assert(rest[i] == entries[a] && rest[j] == entries[b]);
        }
        lemma_fitted(
            rest,
            saturating_difference(bytes, entries[victim].size_bytes),
            budget,
        );
    }
}

/// An entry that is newer than all others stays as long as it fits the budget
/// alone.
proof fn lemma_fitted_keeps_newest<T>(
    entries: Seq<MemoryEntry<T>>,
    bytes: u64,
    budget: u64,
    newest: int,
)
    requires
        0 <= newest < entries.len(),
        unique_keys(entries),
        bytes <= total_bytes(entries),
        entries[newest].size_bytes <= budget,
        forall|i: int|
            0 <= i < entries.len() && i != newest ==> (#[trigger] entries[i]).access_tick
                < entries[newest].access_tick,
    ensures
        retains(fitted(entries, bytes, budget).0, entries[newest].key),
    decreases entries.len(),
{
    if bytes > budget {
        lemma_oldest_bounds(entries);
        let victim = oldest(entries);
        if victim == newest {
            if entries.len() > 1 {
                let other = if newest == 0 {
                    1
                } else {
                    0
                };
                assert(entries[other].access_tick < entries[newest].access_tick);
            }
            assert(entries.drop_last() =~= Seq::<MemoryEntry<T>>::empty());
            assert(total_bytes(entries.drop_last()) == 0);
            assert(total_bytes(entries) == entries[0].size_bytes);
        } else {
            let rest = entries.remove(victim);
            let moved = if newest < victim {
                newest
            } else {
                newest - 1
            };
            lemma_total_remove(entries, victim);
            assert(rest[moved] == entries[newest]);
            assert forall|i: int| 0 <= i < rest.len() && i != moved implies (
            #[trigger] rest[i]).access_tick < rest[moved].access_tick by {
                let a = if i < victim {
                    i
                } else {
                    i + 1
                };
                assert(rest[i] == entries[a]);
            }
            assert forall|i: int, j: int|
                #![trigger rest[i], rest[j]]
                0 <= i < j < rest.len() implies rest[i].key != rest[j].key by {
                let a = if i < victim {
                    i
                } else {
                    i + 1
                };
                let b = if j < victim {
                    j
                } else {
                    j + 1
                };
                assert(rest[i] == entries[a] && rest[j] == entries[b]);
            }
            lemma_fitted_keeps_newest(
                rest,
                saturating_difference(bytes, entries[victim].size_bytes),
                budget,
                moved,
            );
        }
    } else {
        assert(entries[newest].key == entries[newest].key);
    }
}

/// Splits retained within a byte budget.
#[derive(Debug)]
pub struct MemoryState<T> {
    entries: Vec<MemoryEntry<T>>,
    bytes: u64,
    tick: u64,
    budget: u64,
}

impl<T> MemoryState<T> {
    /// The retained entries, in the order of their insertion.
    pub closed spec fn spec_entries(self) -> Seq<MemoryEntry<T>> {
        self.entries@
    }

    /// The bytes charged for them.
    pub closed spec fn spec_bytes(self) -> u64 {
        self.bytes
    }

    /// The tick of the last lookup or insertion.
    pub closed spec fn spec_tick(self) -> u64 {
        self.tick
    }

    /// The most bytes that may stay charged.
    pub closed spec fn spec_budget(self) -> u64 {
        self.budget
    }

    #[verifier::type_invariant]
    spec fn well_formed(self) -> bool {
        state_is_valid(self.entries@, self.bytes, self.budget)
    }

    /// Makes an empty state with the given budget.
    pub fn new(budget: u64) -> (state: Self)
        ensures
            state.spec_entries() == Seq::<MemoryEntry<T>>::empty(),
            state.spec_bytes() == 0,
            state.spec_tick() == 0,
            state.spec_budget() == budget,
    {
        MemoryState { entries: Vec::new(), bytes: 0, tick: 0, budget }
    }

    /// The number of retained splits.
    pub fn retained_split_count(&self) -> (count: usize)
        ensures
            count == self.spec_entries().len(),
    {
        self.entries.len()
    }

    /// The bytes charged for the retained splits. They fit the budget, and
    /// they are exact unless the sum of two budgets exceeds 64 bits.
    pub fn retained_split_bytes(&self) -> (bytes: u64)
        ensures
            bytes == self.spec_bytes(),
            bytes <= self.spec_budget(),
            2 * self.spec_budget() <= u64::MAX ==> bytes == total_bytes(self.spec_entries()),
    {
        proof {
            use_type_invariant(self);
        }
        self.bytes
    }

    fn position(&self, key: &TextSplitCacheKey) -> (at: Option<usize>)
        ensures
            match at {
                Some(at) => at < self.spec_entries().len() && self.spec_entries()[at as int].key
                    == *key,
                None => !retains(self.spec_entries(), *key),
            },
    {
        let mut i: usize = 0;
        while i < self.entries.len()
            invariant
                i <= self.entries.len(),
                forall|k: int| 0 <= k < i ==> (#[trigger] self.entries@[k]).key != *key,
            decreases self.entries.len() - i,
        {
            if self.entries[i].key.same(key) {
                return Some(i);
            }
            i = i + 1;
        }
        None
    }

    /// Looks a split up and makes it the most recently used one. Every lookup
    /// takes a tick.
    pub fn memory_hit(&mut self, key: &TextSplitCacheKey) -> (hit: Option<&T>)
        ensures
            final(self).spec_tick() == next_tick(old(self).spec_tick()),
            final(self).spec_bytes() == old(self).spec_bytes(),
            final(self).spec_budget() == old(self).spec_budget(),
            final(self).spec_entries() == touched(
                old(self).spec_entries(),
                *key,
                next_tick(old(self).spec_tick()),
            ),
            match hit {
                Some(split) => exists|i: int|
                    0 <= i < old(self).spec_entries().len() && (
                    #[trigger] old(self).spec_entries()[i]).key == *key
                        && old(self).spec_entries()[i].split == *split,
                None => !retains(old(self).spec_entries(), *key),
            },
    {
        proof {
            use_type_invariant(&*self);
        }
        let ghost before = self.entries@;
        let tick = self.tick.wrapping_add(1);
        self.tick = tick;
        let at = match self.position(key) {
            Some(at) => at,
            None => {
                proof {
                    assert(touched(before, *key, tick) =~= before);
                }
                return None;
            },
        };
        let mut state = MemoryState::new(self.budget);
        std::mem::swap(&mut state, self);
        let bytes = state.bytes;
        let budget = state.budget;
        let mut entries = state.entries;
        let entry = entries.remove(at);
        entries.insert(
            at,
            MemoryEntry {
                key: entry.key,
                split: entry.split,
                size_bytes: entry.size_bytes,
                access_tick: tick,
            },
        );
        proof {
            assert(entries@ =~= touched(before, *key, tick)) by {
                assert forall|i: int| 0 <= i < before.len() implies entries@[i] == touched(
                    before,
                    *key,
                    tick,
                )[i] by {
                    if i != at {
                        if i < at {
                            assert(before[i].key != before[at as int].key);
                        } else {
                            assert(before[at as int].key != before[i].key);
                        }
                    }
                }
            }
            lemma_touched_total(before, *key, tick);
            assert forall|i: int, j: int|
                #![trigger entries@[i], entries@[j]]
                0 <= i < j < entries@.len() implies entries@[i].key != entries@[j].key by {
                assert(entries@[i].key == before[i].key && entries@[j].key == before[j].key);
            }
        }
        *self = MemoryState { entries, bytes, tick, budget };
        proof {
            let found = old(self).spec_entries()[at as int];
            assert(found.key == *key);
            assert(self.entries@[at as int].split == found.split);
        }
        Some(&self.entries[at].split)
    }

    /// Retains a split that fits the budget and is not retained yet, as the
    /// most recently used one. The least recently used splits make room; how
    /// many went is returned.
    pub fn insert_memory(
        &mut self,
        key: TextSplitCacheKey,
        split: T,
        size_bytes: u64,
    ) -> (evicted: usize)
        ensures
            final(self).spec_budget() == old(self).spec_budget(),
            if size_bytes > old(self).spec_budget() {
                &&& *final(self) == *old(self)
                &&& evicted == 0
            } else {
                &&& final(self).spec_tick() == next_tick(old(self).spec_tick())
                &&& if retains(old(self).spec_entries(), key) {
                    &&& final(self).spec_entries() == old(self).spec_entries()
                    &&& final(self).spec_bytes() == old(self).spec_bytes()
                    &&& evicted == 0
                } else {
                    let entry = MemoryEntry {
                        key,
                        split,
                        size_bytes,
                        access_tick: next_tick(old(self).spec_tick()),
                    };
                    let grown = old(self).spec_entries().push(entry);
                    let left = fitted(
                        grown,
                        saturating_sum(old(self).spec_bytes(), size_bytes),
                        old(self).spec_budget(),
                    );
                    &&& final(self).spec_entries() == left.0
                    &&& final(self).spec_bytes() == left.1
                    &&& evicted == grown.len() - left.0.len()
                }
            },
    {
        proof {
            use_type_invariant(&*self);
        }
        if size_bytes > self.budget {
            return 0;
        }
        let tick = self.tick.wrapping_add(1);
        self.tick = tick;
        if self.position(&key).is_some() {
            return 0;
        }
        let ghost before = self.entries@;
        let mut state = MemoryState::new(self.budget);
        std::mem::swap(&mut state, self);
        let budget = state.budget;
        let mut bytes = state.bytes.saturating_add(size_bytes);
        let mut entries = state.entries;
        let entry = MemoryEntry { key, split, size_bytes, access_tick: tick };
        let ghost grown = before.push(entry);
        entries.push(entry);
        let ghost charged = bytes;
        proof {
            assert(grown.drop_last() =~= before);
            assert(total_bytes(grown) == total_bytes(before) + size_bytes);
            assert forall|i: int, j: int|
                #![trigger grown[i], grown[j]]
                0 <= i < j < grown.len() implies grown[i].key != grown[j].key by {
                if j == before.len() {
                    assert(before[i].key != key);
                } else {
                    assert(before[i].key != before[j].key);
                }
            }
            lemma_fitted(grown, charged, budget);
        }
        let count = entries.len();
        let mut evicted: usize = 0;
        while bytes > budget && entries.len() > 0
            invariant
                fitted(entries@, bytes, budget) == fitted(grown, charged, budget),
                evicted + entries@.len() == grown.len() == count,
            decreases entries.len(),
        {
            let victim = oldest_position(&entries);
            proof {
                lemma_oldest_bounds(entries@);
            }
            let entry = entries.remove(victim);
            bytes = bytes.saturating_sub(entry.size_bytes);
            evicted = evicted + 1;
        }
        *self = MemoryState { entries, bytes, tick, budget };
        evicted
    }
}

/// Keys are unique, and the charged bytes fit the budget; they are exact as
/// long as no sum saturates.
pub open spec fn state_is_valid<T>(
    entries: Seq<MemoryEntry<T>>,
    bytes: u64,
    budget: u64,
) -> bool {
    &&& unique_keys(entries)
    &&& bytes <= budget
    &&& bytes <= total_bytes(entries)
    &&& 2 * budget <= u64::MAX ==> bytes == total_bytes(entries)
}

/// The entries with the tick of the given key's entry replaced.
pub open spec fn touched<T>(
    entries: Seq<MemoryEntry<T>>,
    key: TextSplitCacheKey,
    tick: u64,
) -> Seq<MemoryEntry<T>> {
    entries.map_values(
        |entry: MemoryEntry<T>|
            if entry.key == key {
                MemoryEntry { access_tick: tick, ..entry }
            } else {
                entry
            },
    )
}

proof fn lemma_touched_total<T>(
    entries: Seq<MemoryEntry<T>>,
    key: TextSplitCacheKey,
    tick: u64,
)
    ensures
        total_bytes(touched(entries, key, tick)) == total_bytes(entries),
    decreases entries.len(),
{
    if entries.len() > 0 {
        lemma_touched_total(entries.drop_last(), key, tick);
        assert(touched(entries, key, tick).drop_last() =~= touched(entries.drop_last(), key, tick));
    }
}

/// Where the first of the least recently used entries stands.
fn oldest_position<T>(entries: &Vec<MemoryEntry<T>>) -> (at: usize)
    requires
        entries.len() > 0,
    ensures
        at == oldest(entries@),
        at < entries.len(),
{
    let mut at: usize = 0;
    let mut i: usize = 1;
    while i < entries.len()
        invariant
            1 <= i <= entries.len(),
            at < i,
            at == oldest(entries@.take(i as int)),
        decreases entries.len() - i,
    {
        proof {
            assert(entries@.take(i as int + 1).drop_last() =~= entries@.take(i as int));
        }
        if entries[i].access_tick < entries[at].access_tick {
            at = i;
        }
        i = i + 1;
    }
    assert(entries@.take(i as int) =~= entries@);
    at
}

/// Whatever the insertion, the charged bytes fit the budget, and a split that
/// fits the budget is retained afterwards, until ticks wrap around.
pub proof fn law_insertion_retains_within_budget<T>(
    entries: Seq<MemoryEntry<T>>,
    bytes: u64,
    budget: u64,
    entry: MemoryEntry<T>,
)
    requires
        state_is_valid(entries, bytes, budget),
        !retains(entries, entry.key),
        entry.size_bytes <= budget,
        forall|i: int|
            0 <= i < entries.len() ==> (#[trigger] entries[i]).access_tick < entry.access_tick,
    ensures
        ({
            let left = fitted(
                entries.push(entry),
                saturating_sum(bytes, entry.size_bytes),
                budget,
            );
            &&& state_is_valid(left.0, left.1, budget)
            &&& retains(left.0, entry.key)
        }),
{
    let grown = entries.push(entry);
    let charged = saturating_sum(bytes, entry.size_bytes);
    assert(grown.drop_last() =~= entries);
    assert forall|i: int, j: int|
        #![trigger grown[i], grown[j]]
        0 <= i < j < grown.len() implies grown[i].key != grown[j].key by {
        if j == entries.len() {
            assert(entries[i].key != entry.key);
        } else {
            assert(entries[i].key != entries[j].key);
        }
    }
    lemma_fitted(grown, charged, budget);
    assert forall|i: int| 0 <= i < grown.len() && i != entries.len() implies (
    #[trigger] grown[i]).access_tick < grown[entries.len() as int].access_tick by {
        assert(grown[i] == entries[i]);
    }
    lemma_fitted_keeps_newest(grown, charged, budget, entries.len() as int);
}

/// The split that leaves first is a least recently used one.
pub proof fn law_eviction_takes_least_recently_used<T>(entries: Seq<MemoryEntry<T>>)
    requires
        entries.len() > 0,
    ensures
        0 <= oldest(entries) < entries.len(),
        forall|i: int|
            0 <= i < entries.len() ==> entries[oldest(entries)].access_tick <= (
            #[trigger] entries[i]).access_tick,
{
    lemma_oldest_bounds(entries);
}

/// A lookup finds a retained split by its key and makes it the most recently used
/// one; everything else about the entries stays.
pub proof fn law_lookups_touch_what_they_find<T>(
    state: &mut MemoryState<T>,
    key: TextSplitCacheKey,
    hit: Option<&T>,
)
    requires
        call_ensures(MemoryState::<T>::memory_hit, (state, &key), hit),
    ensures
        ({
            let before = old(state).spec_entries();
            let after = final(state).spec_entries();
            &&& hit is Some <==> exists|i: int| 0 <= i < before.len() && (#[trigger] before[i]).key
                == key
            &&& hit is Some ==> exists|i: int|
                0 <= i < before.len() && (#[trigger] before[i]).key == key && before[i].split
                    == *hit->Some_0
            &&& after.len() == before.len()
            &&& forall|i: int|
                0 <= i < before.len() ==> {
                    &&& (#[trigger] after[i]).key == before[i].key
                    &&& after[i].split == before[i].split
                    &&& after[i].size_bytes == before[i].size_bytes
                    &&& before[i].key == key ==> after[i].access_tick == final(state).spec_tick()
                    &&& before[i].key != key ==> after[i].access_tick == before[i].access_tick
                }
        }),
        final(state).spec_tick() == (old(state).spec_tick() + 1) % 0x1_0000_0000_0000_0000,
        final(state).spec_bytes() == old(state).spec_bytes(),
        final(state).spec_budget() == old(state).spec_budget(),
{
}

/// Whatever leaves is no more recently used than what stays, and nothing leaves
/// that did not have to.
proof fn lemma_fitted_order<T>(entries: Seq<MemoryEntry<T>>, bytes: u64, budget: u64)
    requires
        unique_keys(entries),
    ensures
        ({
            let left = fitted(entries, bytes, budget);
            &&& forall|i: int|
                0 <= i < left.0.len() ==> entries.contains(#[trigger] left.0[i])
            &&& forall|i: int, j: int|
                #![trigger entries[i], left.0[j]]
                0 <= i < entries.len() && !left.0.contains(entries[i]) && 0 <= j < left.0.len()
                    ==> entries[i].access_tick <= left.0[j].access_tick
            &&& bytes <= budget ==> left.0 == entries
            &&& bytes > budget && entries.len() > 0 ==> exists|i: int|
                0 <= i < entries.len() && !left.0.contains(#[trigger] entries[i]) && left.1
                    + entries[i].size_bytes > budget
        }),
    decreases entries.len(),
{
    let left = fitted(entries, bytes, budget);
    if bytes <= budget || entries.len() == 0 {
        assert forall|i: int| 0 <= i < entries.len() implies left.0.contains(
            #[trigger] entries[i],
        ) by {
            assert(left.0[i] == entries[i]);
        }
    } else {
        lemma_oldest_bounds(entries);
        let victim = oldest(entries);
        let rest = entries.remove(victim);
        let after = saturating_difference(bytes, entries[victim].size_bytes);
        assert forall|i: int| 0 <= i < rest.len() implies entries.contains(#[trigger] rest[i])
            && rest[i].key != entries[victim].key by {
            let a = if i < victim {
                i
            } else {
                i + 1
            };
            assert(rest[i] == entries[a]);
            if a < victim {
                assert(entries[a].key != entries[victim].key);
            } else {
                assert(entries[victim].key != entries[a].key);
            }
        }
        assert forall|i: int, j: int|
            #![trigger rest[i], rest[j]]
            0 <= i < j < rest.len() implies rest[i].key != rest[j].key by {
            let a = if i < victim {
                i
            } else {
                i + 1
            };
            let b = if j < victim {
                j
            } else {
                j + 1
            };
            assert(rest[i] == entries[a] && rest[j] == entries[b]);
        }
        lemma_fitted_order(rest, after, budget);
        assert forall|i: int| 0 <= i < left.0.len() implies entries.contains(
            #[trigger] left.0[i],
        ) && left.0[i].key != entries[victim].key by {
            assert(rest.contains(left.0[i]));
            let k = choose|k: int| 0 <= k < rest.len() && rest[k] == left.0[i];
            assert(entries.contains(rest[k]));
        }
        assert(!left.0.contains(entries[victim]));
        assert forall|i: int, j: int|
            #![trigger entries[i], left.0[j]]
            0 <= i < entries.len() && !left.0.contains(entries[i]) && 0 <= j
                < left.0.len() implies entries[i].access_tick <= left.0[j].access_tick by {
            if i == victim {
                assert(entries.contains(left.0[j]));
                let k = choose|k: int| 0 <= k < entries.len() && entries[k] == left.0[j];
                assert(entries[victim].access_tick <= entries[k].access_tick);
            } else {
                let a = if i < victim {
                    i
                } else {
                    i - 1
                };
                assert(rest[a] == entries[i]);
            }
        }
        if after > budget && rest.len() > 0 {
            let k = choose|k: int|
                0 <= k < rest.len() && !left.0.contains(#[trigger] rest[k]) && left.1
                    + rest[k].size_bytes > budget;
            assert(entries.contains(rest[k]));
            let i = choose|i: int| 0 <= i < entries.len() && entries[i] == rest[k];
            assert(!left.0.contains(entries[i]));
        } else {
            assert(left == fitted(rest, after, budget));
            assert(fitted(rest, after, budget) == (rest, after));
            assert(!left.0.contains(entries[victim]));
        }
    }
}

/// A split that is too large for the budget or retained already changes no entry.
/// Another one joins the entries; where the budget needs it, the least recently
/// used ones leave, no more than needed, and how many is returned.
pub proof fn law_insertions_evict_the_least_recent<T>(
    state: &mut MemoryState<T>,
    key: TextSplitCacheKey,
    split: T,
    size_bytes: u64,
    evicted: usize,
)
    requires
        state_is_valid(
            old(state).spec_entries(),
            old(state).spec_bytes(),
            old(state).spec_budget(),
        ),
        call_ensures(MemoryState::<T>::insert_memory, (state, key, split, size_bytes), evicted),
    ensures
        ({
            let before = old(state).spec_entries();
            let after = final(state).spec_entries();
            let budget = old(state).spec_budget();
            let kept = size_bytes > budget || exists|i: int|
                0 <= i < before.len() && (#[trigger] before[i]).key == key;
            let grown = before.push(
                MemoryEntry { key, split, size_bytes, access_tick: final(state).spec_tick() },
            );
            &&& final(state).spec_budget() == budget
            &&& kept ==> after == before && evicted == 0 && final(state).spec_bytes() == old(state).spec_bytes()
            &&& !kept ==> {
                &&& old(state).spec_tick() < u64::MAX ==> final(state).spec_tick() == old(state).spec_tick() + 1
                &&& evicted + after.len() == before.len() + 1
                &&& final(state).spec_bytes() <= budget
                &&& old(state).spec_bytes() + size_bytes <= budget ==> after == grown && final(state).spec_bytes() == old(state).spec_bytes() + size_bytes
                &&& forall|i: int| 0 <= i < after.len() ==> grown.contains(#[trigger] after[i])
                &&& forall|i: int, j: int|
                    #![trigger grown[i], after[j]]
                    0 <= i < grown.len() && !after.contains(grown[i]) && 0 <= j < after.len()
                        ==> grown[i].access_tick <= after[j].access_tick
                &&& evicted > 0 ==> exists|i: int|
                    0 <= i < grown.len() && !after.contains(#[trigger] grown[i]) && final(state).spec_bytes() + grown[i].size_bytes > budget
            }
        }),
{
    let before = old(state).spec_entries();
    let budget = old(state).spec_budget();
    if size_bytes <= budget && !retains(before, key) {
        let entry = MemoryEntry { key, split, size_bytes, access_tick: final(state).spec_tick() };
        let grown = before.push(entry);
        let charged = saturating_sum(old(state).spec_bytes(), size_bytes);
        assert forall|i: int, j: int|
            #![trigger grown[i], grown[j]]
            0 <= i < j < grown.len() implies grown[i].key != grown[j].key by {
            if j == before.len() {
                assert(before[i].key != key);
            } else {
                assert(before[i].key != before[j].key);
            }
        }
        assert(grown.drop_last() =~= before);
        lemma_fitted(grown, charged, budget);
        lemma_fitted_order(grown, charged, budget);
    }
}

/// The state starts empty within its budget, and reports the number of its entries
/// and the bytes charged for them.
pub proof fn law_memory_reports_its_entries<T>(
    budget: u64,
    fresh: MemoryState<T>,
    state: MemoryState<T>,
    count: usize,
    bytes: u64,
)
    requires
        call_ensures(MemoryState::<T>::new, (budget,), fresh),
        call_ensures(MemoryState::<T>::retained_split_count, (&state,), count),
        call_ensures(MemoryState::<T>::retained_split_bytes, (&state,), bytes),
    ensures
        fresh.spec_entries().len() == 0 && fresh.spec_bytes() == 0,
        fresh.spec_budget() == budget,
        count == state.spec_entries().len(),
        bytes == state.spec_bytes() && bytes <= state.spec_budget(),
{
}

} // verus!
