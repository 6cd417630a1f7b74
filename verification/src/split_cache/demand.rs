//! Which splits earn a local copy, which local copies are in use, and which of
//! them are known to be good.

use vstd::prelude::*;

use crate::split_cache::key::{same_digest, TextSplitCacheKey};

verus! {

/// The most splits whose demand is remembered.
pub const DEMAND_TRACKER_LIMIT: usize = 4096;

/// Nanoseconds between two writes of one artifact's access metadata.
pub const ACCESS_WRITE_INTERVAL_NANOS: u128 = 60_000_000_000;

/// Remembered demand: the split and how many of its successes counted.
pub type Demand = (TextSplitCacheKey, u8);

/// Where the demand of a split is remembered.
pub open spec fn demand_index(demands: Seq<Demand>, key: TextSplitCacheKey) -> int {
    choose|i: int| 0 <= i < demands.len() && (#[trigger] demands[i]).0 == key
}

/// Whether the demand of a split is remembered.
pub open spec fn demand_known(demands: Seq<Demand>, key: TextSplitCacheKey) -> bool {
    exists|i: int| 0 <= i < demands.len() && (#[trigger] demands[i]).0 == key
}

/// How many successes of a split counted; none for one that is not remembered.
pub open spec fn demand_count(demands: Seq<Demand>, key: TextSplitCacheKey) -> u8 {
    if demand_known(demands, key) {
        demands[demand_index(demands, key)].1
    } else {
        0
    }
}

/// Each split is remembered once, with one or two successes, and there are not
/// too many.
pub open spec fn demands_are_valid(demands: Seq<Demand>) -> bool {
    &&& demands.len() <= DEMAND_TRACKER_LIMIT
    &&& forall|i: int|
        0 <= i < demands.len() ==> (#[trigger] demands[i]).1 == 1 || demands[i].1 == 2
    &&& forall|i: int, j: int|
        #![trigger demands[i], demands[j]]
        0 <= i < j < demands.len() ==> demands[i].0 != demands[j].0
}

/// The demand after one more success of a split: the second success of a
/// remembered split counts, further ones do not. A split that is not
/// remembered enters behind all others, and the first one gives way if there
/// are too many.
pub open spec fn demands_after(demands: Seq<Demand>, key: TextSplitCacheKey) -> Seq<Demand> {
    if demand_known(demands, key) {
        demands.update(demand_index(demands, key), (key, 2))
    } else if demands.len() < DEMAND_TRACKER_LIMIT {
        demands.push((key, 1))
    } else {
        demands.push((key, 1)).drop_first()
    }
}

/// Counts the successful searches of each split.
#[derive(Debug)]
pub struct DemandTracker {
    demands: Vec<Demand>,
}

impl View for DemandTracker {
    type V = Seq<Demand>;

    closed spec fn view(&self) -> Seq<Demand> {
        self.demands@
    }
}

impl Default for DemandTracker {
    fn default() -> (tracker: Self)
        ensures
            tracker@ == Seq::<Demand>::empty(),
    {
        DemandTracker { demands: Vec::new() }
    }
}

impl DemandTracker {
    #[verifier::type_invariant]
    spec fn well_formed(self) -> bool {
        demands_are_valid(self.demands@)
    }

    /// Records a successful search and tells whether it is the split's second
    /// one.
    pub fn record_success(&mut self, key: TextSplitCacheKey) -> (second: bool)
        ensures
            final(self)@ == demands_after(old(self)@, key),
            second == (demand_count(old(self)@, key) == 1),
            demands_are_valid(old(self)@),
            demands_are_valid(final(self)@),
    {
        proof {
            use_type_invariant(&*self);
        }
        let mut demands: Vec<Demand> = Vec::new();
        std::mem::swap(&mut demands, &mut self.demands);
        let ghost before = demands@;
        let mut i: usize = 0;
        while i < demands.len()
            invariant
                i <= demands.len(),
                demands@ == before,
                demands_are_valid(before),
                forall|k: int| 0 <= k < i ==> (#[trigger] before[k]).0 != key,
                self.demands@.len() == 0,
                before == old(self)@,
            decreases demands.len() - i,
        {
            if demands[i].0.same(&key) {
                let second = demands[i].1 == 1;
                proof {
                    let at = demand_index(before, key);
                    assert(before[i as int].0 == key);
                    assert(at == i) by {
                        if at < i {
                            assert(before[at].0 != key);
                        } else if at > i {
                            assert(before[i as int].0 != before[at].0);
                        }
                    }
                }
                demands.set(i, (key, 2));
                proof {
                    assert forall|a: int, b: int|
                        #![trigger demands@[a], demands@[b]]
                        0 <= a < b < demands@.len() implies demands@[a].0 != demands@[b].0 by {
                        assert(demands@[a].0 == before[a].0 && demands@[b].0 == before[b].0);
                    }
                }
                self.demands = demands;
                return second;
            }
            i = i + 1;
        }
        demands.push((key, 1));
        let ghost grown = demands@;
        proof {
            assert forall|a: int, b: int|
                #![trigger grown[a], grown[b]]
                0 <= a < b < grown.len() implies grown[a].0 != grown[b].0 by {
                if b == before.len() {
                    assert(before[a].0 != key);
                } else {
                    assert(before[a].0 != before[b].0);
                }
            }
        }
        if demands.len() > DEMAND_TRACKER_LIMIT {
            let _ = demands.remove(0);
            proof {
                assert(demands@ =~= grown.drop_first());
                assert forall|a: int, b: int|
                    #![trigger demands@[a], demands@[b]]
                    0 <= a < b < demands@.len() implies demands@[a].0 != demands@[b].0 by {
                    assert(demands@[a] == grown[a + 1] && demands@[b] == grown[b + 1]);
                }
            }
        }
        self.demands = demands;
        false
    }
}

/// A split is admitted by exactly its second success: not by the first, by the
/// second, and by none after that, as long as it is remembered.
pub proof fn law_only_second_success_admits(demands: Seq<Demand>, key: TextSplitCacheKey)
    requires
        demands_are_valid(demands),
        !demand_known(demands, key),
    ensures
        demand_count(demands, key) == 0,
        demand_count(demands_after(demands, key), key) == 1,
        demand_count(demands_after(demands_after(demands, key), key), key) == 2,
        demands_after(demands_after(demands_after(demands, key), key), key) == demands_after(
            demands_after(demands, key),
            key,
        ),
{
    let first = demands_after(demands, key);
    let last = first.len() - 1;
    assert(first[last] == (key, 1u8));
    assert(forall|i: int| 0 <= i < demands.len() ==> (#[trigger] demands[i]).0 != key);
    assert(demand_index(first, key) == last) by {
        let at = demand_index(first, key);
        if at < last {
            if demands.len() < DEMAND_TRACKER_LIMIT {
                assert(first[at] == demands[at]);
            } else {
                assert(first[at] == demands[at + 1]);
            }
        }
    }
    let second = demands_after(first, key);
    assert(second[last] == (key, 2u8));
    assert(demand_index(second, key) == last) by {
        let at = demand_index(second, key);
        if at < last {
            assert(second[at] == first[at]);
            if demands.len() < DEMAND_TRACKER_LIMIT {
                assert(first[at] == demands[at]);
            } else {
                assert(first[at] == demands[at + 1]);
            }
        }
    }
    assert(demands_after(second, key) =~= second);
}

/// A success of one split changes the count of no other split that stays
/// remembered.
pub proof fn law_success_leaves_other_splits(
    demands: Seq<Demand>,
    key: TextSplitCacheKey,
    other: TextSplitCacheKey,
)
    requires
        demands_are_valid(demands),
        key != other,
        demand_known(demands_after(demands, key), other),
    ensures
        demand_count(demands_after(demands, key), other) == demand_count(demands, other),
{
    let after = demands_after(demands, key);
    let at = demand_index(after, other);
    assert(after[at].0 == other);
    if demand_known(demands, key) {
        let of_key = demand_index(demands, key);
        assert(demands[of_key].0 == key);
        assert(after[at] == demands[at]);
        lemma_demand_index(demands, at);
    } else if demands.len() < DEMAND_TRACKER_LIMIT {
        assert(after[at] == demands[at]);
        lemma_demand_index(demands, at);
    } else {
        assert(after[at] == demands.push((key, 1u8))[at + 1]);
        assert(after[at] == demands[at + 1]);
        lemma_demand_index(demands, at + 1);
    }
}

proof fn lemma_demand_index(demands: Seq<Demand>, at: int)
    requires
        demands_are_valid(demands),
        0 <= at < demands.len(),
    ensures
        demand_known(demands, demands[at].0),
        demand_index(demands, demands[at].0) == at,
{
    let found = demand_index(demands, demands[at].0);
    assert(demands[found].0 == demands[at].0);
    if found < at {
        assert(demands[found].0 != demands[at].0);
    } else if found > at {
        assert(demands[at].0 != demands[found].0);
    }
}

/// The demand that a sequence of successes leaves behind.
pub open spec fn demands_of(calls: Seq<TextSplitCacheKey>) -> Seq<Demand>
    decreases calls.len(),
{
    if calls.len() == 0 {
        Seq::empty()
    } else {
        demands_after(demands_of(calls.drop_last()), calls.last())
    }
}

/// Whether the last success admits its split: the split was not remembered.
pub open spec fn admits_last(calls: Seq<TextSplitCacheKey>) -> bool {
    !demand_known(demands_of(calls.drop_last()), calls.last())
}

/// The success that admitted the split last.
pub open spec fn last_admission(calls: Seq<TextSplitCacheKey>, key: TextSplitCacheKey) -> Option<int>
    decreases calls.len(),
{
    if calls.len() == 0 {
        None
    } else if calls.last() == key && admits_last(calls) {
        Some(calls.len() - 1)
    } else {
        last_admission(calls.drop_last(), key)
    }
}

/// How many successes behind the one at `at` admitted their splits.
pub open spec fn admissions_behind(calls: Seq<TextSplitCacheKey>, at: int) -> nat
    decreases calls.len(),
{
    if calls.len() <= at + 1 || calls.len() == 0 {
        0
    } else {
        admissions_behind(calls.drop_last(), at) + if admits_last(calls) {
            1nat
        } else {
            0
        }
    }
}

/// How many successes the split had from the one at `at` on.
pub open spec fn successes_since(
    calls: Seq<TextSplitCacheKey>,
    key: TextSplitCacheKey,
    at: int,
) -> nat
    decreases calls.len(),
{
    if calls.len() <= at || calls.len() == 0 {
        0
    } else {
        successes_since(calls.drop_last(), key, at) + if calls.last() == key {
            1nat
        } else {
            0
        }
    }
}

proof fn lemma_demands_after_valid(demands: Seq<Demand>, key: TextSplitCacheKey)
    requires
        demands_are_valid(demands),
    ensures
        demands_are_valid(demands_after(demands, key)),
{
    let after = demands_after(demands, key);
    if demand_known(demands, key) {
        let at = demand_index(demands, key);
        assert(demands[at].0 == key);
        assert forall|i: int, j: int|
            #![trigger after[i], after[j]]
            0 <= i < j < after.len() implies after[i].0 != after[j].0 by {
            assert(after[i].0 == demands[i].0 && after[j].0 == demands[j].0);
        }
    } else {
        let grown = demands.push((key, 1u8));
        assert forall|i: int, j: int|
            #![trigger grown[i], grown[j]]
            0 <= i < j < grown.len() implies grown[i].0 != grown[j].0 by {
            assert(grown[i] == demands[i]);
            if j < demands.len() {
                assert(grown[j] == demands[j]);
            }
        }
        if demands.len() >= DEMAND_TRACKER_LIMIT {
            assert forall|i: int, j: int|
                #![trigger after[i], after[j]]
                0 <= i < j < after.len() implies after[i].0 != after[j].0 by {
                assert(after[i] == grown[i + 1] && after[j] == grown[j + 1]);
            }
            assert forall|i: int| 0 <= i < after.len() implies (#[trigger] after[i]).1 == 1
                || after[i].1 == 2 by {
                assert(after[i] == grown[i + 1]);
            }
        }
    }
}

proof fn lemma_demands_of_valid(calls: Seq<TextSplitCacheKey>)
    ensures
        demands_are_valid(demands_of(calls)),
    decreases calls.len(),
{
    if calls.len() > 0 {
        lemma_demands_of_valid(calls.drop_last());
        lemma_demands_after_valid(demands_of(calls.drop_last()), calls.last());
    }
}

/// A split that was never admitted, or that gave way, is not remembered; any
/// other one stands as far from the end as splits were admitted behind it.
proof fn lemma_standing(calls: Seq<TextSplitCacheKey>, key: TextSplitCacheKey)
    ensures
        ({
            let demands = demands_of(calls);
            match last_admission(calls, key) {
                None => !demand_known(demands, key),
                Some(at) => {
                    let behind = admissions_behind(calls, at);
                    &&& 0 <= at < calls.len()
                    &&& successes_since(calls, key, at) >= 1
                    &&& behind < DEMAND_TRACKER_LIMIT ==> {
                        &&& behind < demands.len()
                        &&& demands[demands.len() - 1 - behind] == (
                            key,
                            if successes_since(calls, key, at) == 1 {
                                1u8
                            } else {
                                2u8
                            },
                        )
                    }
                    &&& behind >= DEMAND_TRACKER_LIMIT ==> !demand_known(demands, key)
                },
            }
        }),
    decreases calls.len(),
{
    if calls.len() > 0 {
        let front = calls.drop_last();
        let k = calls.last();
        let before = demands_of(front);
        let after = demands_of(calls);
        lemma_demands_of_valid(front);
        lemma_demands_of_valid(calls);
        lemma_standing(front, key);
        if k == key && admits_last(calls) {
            let at = calls.len() - 1;
            assert(after.last() == (key, 1u8));
            assert(successes_since(front, key, at) == 0);
        } else {
            match last_admission(front, key) {
                None => {
                    assert(k != key);
                    lemma_other_unknown(before, k, key);
                },
                Some(at) => {
                    let behind = admissions_behind(front, at);
                    if behind < DEMAND_TRACKER_LIMIT {
                        let place = before.len() - 1 - behind;
                        lemma_demand_index(before, place);
                        assert(demand_known(before, key));
                        if demand_known(before, k) {
                            let of_k = demand_index(before, k);
                            assert(before[of_k].0 == k);
                        } else if before.len() >= DEMAND_TRACKER_LIMIT {
                            if behind + 1 == DEMAND_TRACKER_LIMIT {
                                assert(place == 0);
                                assert forall|i: int| 0 <= i < after.len() implies (
                                #[trigger] after[i]).0 != key by {
                                    assert(after[i] == before.push((k, 1u8))[i + 1]);
                                    if i + 1 < before.len() {
                                        assert(before[0].0 != before[i + 1].0);
                                    }
                                }
                            } else {
                                assert(after[after.len() - 2 - behind] == before[place]);
                            }
                        }
                    } else {
                        assert(k != key);
                        lemma_other_unknown(before, k, key);
                    }
                },
            }
        }
    }
}

/// A success of another split makes no unknown split known.
proof fn lemma_other_unknown(
    demands: Seq<Demand>,
    key: TextSplitCacheKey,
    other: TextSplitCacheKey,
)
    requires
        key != other,
        !demand_known(demands, other),
    ensures
        !demand_known(demands_after(demands, key), other),
{
    let after = demands_after(demands, key);
    assert forall|i: int| 0 <= i < after.len() implies (#[trigger] after[i]).0 != other by {
        if demand_known(demands, key) {
            if i != demand_index(demands, key) {
                assert(after[i] == demands[i]);
            }
        } else if demands.len() < DEMAND_TRACKER_LIMIT {
            if i < demands.len() {
                assert(after[i] == demands[i]);
            }
        } else {
            assert(after[i] == demands.push((key, 1u8))[i + 1]);
            if i + 1 < demands.len() {
                assert(after[i] == demands[i + 1]);
            }
        }
    }
}

/// What any sequence of successes leaves behind. At most as many splits as the
/// limit says are remembered. A split is remembered exactly if it has been
/// admitted and fewer splits than the limit have been admitted behind it; so it
/// is forgotten once that many are, and not before. Its next success is the
/// second one exactly if it is remembered and had one success since it was
/// admitted; the next success of a split that is not remembered admits it.
pub proof fn law_demand_follows_admissions(
    calls: Seq<TextSplitCacheKey>,
    key: TextSplitCacheKey,
)
    ensures
        demands_are_valid(demands_of(calls)),
        demands_of(calls).len() <= DEMAND_TRACKER_LIMIT,
        demand_known(demands_of(calls), key) <==> {
            &&& last_admission(calls, key) matches Some(at)
            &&& admissions_behind(calls, at) < DEMAND_TRACKER_LIMIT
        },
        demand_count(demands_of(calls), key) == 1 <==> {
            &&& last_admission(calls, key) matches Some(at)
            &&& admissions_behind(calls, at) < DEMAND_TRACKER_LIMIT
            &&& successes_since(calls, key, at) == 1
        },
        !demand_known(demands_of(calls), key) ==> {
            &&& demand_count(demands_of(calls), key) == 0
            &&& last_admission(calls.push(key), key) == Some(calls.len() as int)
        },
{
    lemma_demands_of_valid(calls);
    lemma_standing(calls, key);
    assert(calls.push(key).drop_last() =~= calls);
    if let Some(at) = last_admission(calls, key) {
        let behind = admissions_behind(calls, at);
        if behind < DEMAND_TRACKER_LIMIT {
            lemma_demand_index(demands_of(calls), demands_of(calls).len() - 1 - behind);
        }
    }
}

/// Whether a successful search asks for a local copy of the split. Without a
/// disk tier nothing is recorded.
pub fn admits_hydration(
    tracker: &mut DemandTracker,
    disk_enabled: bool,
    key: TextSplitCacheKey,
) -> (admits: bool)
    ensures
        if disk_enabled {
            &&& final(tracker)@ == demands_after(old(tracker)@, key)
            &&& admits == (demand_count(old(tracker)@, key) == 1)
        } else {
            &&& final(tracker)@ == old(tracker)@
            &&& !admits
        },
{
    if !disk_enabled {
        return false;
    }
    tracker.record_success(key)
}

/// How many readers hold each local artifact.
#[derive(Debug)]
pub struct ArtifactLeases {
    leases: Vec<([u8; 32], usize)>,
}

/// Each artifact is listed once, and only while it is held.
pub open spec fn leases_are_valid(leases: Seq<([u8; 32], usize)>) -> bool {
    &&& forall|i: int| 0 <= i < leases.len() ==> (#[trigger] leases[i]).1 > 0
    &&& forall|i: int, j: int|
        #![trigger leases[i], leases[j]]
        0 <= i < j < leases.len() ==> leases[i].0 != leases[j].0
}

/// Where an artifact is listed.
pub open spec fn lease_index(leases: Seq<([u8; 32], usize)>, sha256: [u8; 32]) -> int {
    choose|i: int| 0 <= i < leases.len() && (#[trigger] leases[i]).0 == sha256
}

/// The number listed for an artifact.
pub open spec fn lease_count(leases: Seq<([u8; 32], usize)>, sha256: [u8; 32]) -> nat {
    if exists|i: int| 0 <= i < leases.len() && (#[trigger] leases[i]).0 == sha256 {
        leases[lease_index(leases, sha256)].1 as nat
    } else {
        0
    }
}

proof fn lemma_lease_count(leases: Seq<([u8; 32], usize)>, at: int)
    requires
        leases_are_valid(leases),
        0 <= at < leases.len(),
    ensures
        lease_count(leases, leases[at].0) == leases[at].1,
{
    let found = lease_index(leases, leases[at].0);
    assert(leases[found].0 == leases[at].0);
    if found < at {
        assert(leases[found].0 != leases[at].0);
    } else if found > at {
        assert(leases[at].0 != leases[found].0);
    }
}

/// Two lists with the same entry or none for an artifact count it alike.
proof fn lemma_lease_count_same(
    a: Seq<([u8; 32], usize)>,
    b: Seq<([u8; 32], usize)>,
    sha256: [u8; 32],
)
    requires
        leases_are_valid(a),
        leases_are_valid(b),
        forall|i: int|
            0 <= i < a.len() && (#[trigger] a[i]).0 == sha256 ==> exists|j: int|
                0 <= j < b.len() && #[trigger] b[j] == a[i],
        forall|j: int|
            0 <= j < b.len() && (#[trigger] b[j]).0 == sha256 ==> exists|i: int|
                0 <= i < a.len() && #[trigger] a[i] == b[j],
    ensures
        lease_count(a, sha256) == lease_count(b, sha256),
{
    if exists|i: int| 0 <= i < a.len() && (#[trigger] a[i]).0 == sha256 {
        let i = lease_index(a, sha256);
        let j = choose|j: int| 0 <= j < b.len() && #[trigger] b[j] == a[i];
        lemma_lease_count(a, i);
        lemma_lease_count(b, j);
    } else if exists|j: int| 0 <= j < b.len() && (#[trigger] b[j]).0 == sha256 {
        let j = lease_index(b, sha256);
        let i = choose|i: int| 0 <= i < a.len() && #[trigger] a[i] == b[j];
        assert(a[i].0 == sha256);
    }
}

impl Default for ArtifactLeases {
    fn default() -> (leases: Self)
        ensures
            forall|sha256: [u8; 32]| #[trigger] leases.spec_count(sha256) == 0,
    {
        ArtifactLeases { leases: Vec::new() }
    }
}

impl ArtifactLeases {
    #[verifier::type_invariant]
    spec fn well_formed(self) -> bool {
        leases_are_valid(self.leases@)
    }

    /// How many readers hold an artifact.
    pub closed spec fn spec_count(self, sha256: [u8; 32]) -> nat {
        lease_count(self.leases@, sha256)
    }

    fn position(&self, sha256: &[u8; 32]) -> (at: Option<usize>)
        ensures
            match at {
                Some(at) => at < self.leases@.len() && self.leases@[at as int].0 == *sha256
                    && self.spec_count(*sha256) == self.leases@[at as int].1,
                None => self.spec_count(*sha256) == 0 && forall|k: int|
                    0 <= k < self.leases@.len() ==> (#[trigger] self.leases@[k]).0 != *sha256,
            },
    {
        proof {
            use_type_invariant(self);
        }
        let mut i: usize = 0;
        while i < self.leases.len()
            invariant
                i <= self.leases.len(),
                leases_are_valid(self.leases@),
                forall|k: int| 0 <= k < i ==> (#[trigger] self.leases@[k]).0 != *sha256,
            decreases self.leases.len() - i,
        {
            if same_digest(&self.leases[i].0, sha256) {
                proof {
                    lemma_lease_count(self.leases@, i as int);
                }
                return Some(i);
            }
            i = i + 1;
        }
        None
    }

    /// Whether a reader holds the artifact.
    pub fn is_leased(&self, sha256: &[u8; 32]) -> (leased: bool)
        ensures
            leased == (self.spec_count(*sha256) > 0),
    {
        let at = self.position(sha256);
        proof {
            use_type_invariant(self);
        }
        at.is_some()
    }

    /// Counts one more reader of the artifact.
    pub fn acquire(&mut self, sha256: [u8; 32])
        requires
            old(self).spec_count(sha256) < usize::MAX,
        ensures
            acquired(*old(self), *final(self), sha256),
    {
        proof {
            use_type_invariant(&*self);
        }
        let at = self.position(&sha256);
        let mut leases: Vec<([u8; 32], usize)> = Vec::new();
        std::mem::swap(&mut leases, &mut self.leases);
        let ghost before = leases@;
        match at {
            Some(at) => {
                let count = leases[at].1;
                leases.set(at, (sha256, count + 1));
                proof {
                    let after = leases@;
                    assert forall|a: int, b: int|
                        #![trigger after[a], after[b]]
                        0 <= a < b < after.len() implies after[a].0 != after[b].0 by {
                        assert(after[a].0 == before[a].0 && after[b].0 == before[b].0);
                    }
                    lemma_lease_count(after, at as int);
                    assert forall|other: [u8; 32]| other != sha256 implies #[trigger] lease_count(
                        after,
                        other,
                    ) == lease_count(before, other) by {
                        assert forall|i: int|
                            0 <= i < before.len() && (#[trigger] before[i]).0
                                == other implies exists|j: int|
                            0 <= j < after.len() && #[trigger] after[j] == before[i] by {
                            assert(after[i] == before[i]);
                        }
                        assert forall|j: int|
                            0 <= j < after.len() && (#[trigger] after[j]).0
                                == other implies exists|i: int|
                            0 <= i < before.len() && #[trigger] before[i] == after[j] by {
                            assert(before[j] == after[j]);
                        }
                        lemma_lease_count_same(before, after, other);
                    }
                }
            },
            None => {
                leases.push((sha256, 1));
                proof {
                    let after = leases@;
                    assert forall|a: int, b: int|
                        #![trigger after[a], after[b]]
                        0 <= a < b < after.len() implies after[a].0 != after[b].0 by {
                        if b == before.len() {
                            assert(before[a].0 != sha256);
                        } else {
                            assert(before[a].0 != before[b].0);
                        }
                    }
                    lemma_lease_count(after, before.len() as int);
                    assert forall|other: [u8; 32]| other != sha256 implies #[trigger] lease_count(
                        after,
                        other,
                    ) == lease_count(before, other) by {
                        assert forall|i: int|
                            0 <= i < before.len() && (#[trigger] before[i]).0
                                == other implies exists|j: int|
                            0 <= j < after.len() && #[trigger] after[j] == before[i] by {
                            assert(after[i] == before[i]);
                        }
                        assert forall|j: int|
                            0 <= j < after.len() && (#[trigger] after[j]).0
                                == other implies exists|i: int|
                            0 <= i < before.len() && #[trigger] before[i] == after[j] by {
                            assert(before[j] == after[j]);
                        }
                        lemma_lease_count_same(before, after, other);
                    }
                }
            },
        }
        self.leases = leases;
    }

    /// Counts one reader of the artifact less, if there is one.
    pub fn release(&mut self, sha256: [u8; 32])
        ensures
            released(*old(self), *final(self), sha256),
    {
        proof {
            use_type_invariant(&*self);
        }
        let at = match self.position(&sha256) {
            Some(at) => at,
            None => {
                return ;
            },
        };
        let mut leases: Vec<([u8; 32], usize)> = Vec::new();
        std::mem::swap(&mut leases, &mut self.leases);
        let ghost before = leases@;
        let count = leases[at].1;
        if count == 1 {
            let _ = leases.remove(at);
            proof {
                let after = leases@;
                assert forall|a: int, b: int|
                    #![trigger after[a], after[b]]
                    0 <= a < b < after.len() implies after[a].0 != after[b].0 by {
                    let x = if a < at {
                        a
                    } else {
                        a + 1
                    };
                    let y = if b < at {
                        b
                    } else {
                        b + 1
                    };
                    assert(after[a] == before[x] && after[b] == before[y]);
                }
                assert forall|i: int| 0 <= i < after.len() implies (#[trigger] after[i]).1 > 0
                    && after[i].0 != sha256 by {
                    if i < at {
                        assert(after[i] == before[i]);
                        assert(before[i].0 != before[at as int].0);
                    } else {
                        assert(after[i] == before[i + 1]);
                        assert(before[at as int].0 != before[i + 1].0);
                    }
                }
                assert(lease_count(after, sha256) == 0);
                assert forall|other: [u8; 32]| other != sha256 implies #[trigger] lease_count(
                    after,
                    other,
                ) == lease_count(before, other) by {
                    assert forall|i: int|
                        0 <= i < before.len() && (#[trigger] before[i]).0 == other implies exists|
                        j: int,
                    |
                        0 <= j < after.len() && #[trigger] after[j] == before[i] by {
                        if i < at {
                            assert(after[i] == before[i]);
                        } else {
                            assert(after[i - 1] == before[i]);
                        }
                    }
                    assert forall|j: int|
                        0 <= j < after.len() && (#[trigger] after[j]).0 == other implies exists|
                        i: int,
                    |
                        0 <= i < before.len() && #[trigger] before[i] == after[j] by {
                        if j < at {
                            assert(before[j] == after[j]);
                        } else {
                            assert(before[j + 1] == after[j]);
                        }
                    }
                    lemma_lease_count_same(before, after, other);
                }
            }
        } else {
            leases.set(at, (sha256, count - 1));
            proof {
                let after = leases@;
                assert forall|a: int, b: int|
                    #![trigger after[a], after[b]]
                    0 <= a < b < after.len() implies after[a].0 != after[b].0 by {
                    assert(after[a].0 == before[a].0 && after[b].0 == before[b].0);
                }
                lemma_lease_count(after, at as int);
                assert forall|other: [u8; 32]| other != sha256 implies #[trigger] lease_count(
                    after,
                    other,
                ) == lease_count(before, other) by {
                    assert forall|i: int|
                        0 <= i < before.len() && (#[trigger] before[i]).0 == other implies exists|
                        j: int,
                    |
                        0 <= j < after.len() && #[trigger] after[j] == before[i] by {
                        assert(after[i] == before[i]);
                    }
                    assert forall|j: int|
                        0 <= j < after.len() && (#[trigger] after[j]).0 == other implies exists|
                        i: int,
                    |
                        0 <= i < before.len() && #[trigger] before[i] == after[j] by {
                        assert(before[j] == after[j]);
                    }
                    lemma_lease_count_same(before, after, other);
                }
            }
        }
        self.leases = leases;
    }
}

/// One more reader of the artifact, and nothing else.
pub open spec fn acquired(
    before: ArtifactLeases,
    after: ArtifactLeases,
    sha256: [u8; 32],
) -> bool {
    &&& after.spec_count(sha256) == before.spec_count(sha256) + 1
    &&& forall|other: [u8; 32]|
        other != sha256 ==> #[trigger] after.spec_count(other) == before.spec_count(other)
}

/// One reader of the artifact less, if there was one, and nothing else.
pub open spec fn released(
    before: ArtifactLeases,
    after: ArtifactLeases,
    sha256: [u8; 32],
) -> bool {
    &&& after.spec_count(sha256) == if before.spec_count(sha256) == 0 {
        0
    } else {
        before.spec_count(sha256) - 1
    }
    &&& forall|other: [u8; 32]|
        other != sha256 ==> #[trigger] after.spec_count(other) == before.spec_count(other)
}

/// Giving a lease back undoes taking it.
pub proof fn law_release_undoes_acquire(
    before: ArtifactLeases,
    during: ArtifactLeases,
    after: ArtifactLeases,
    sha256: [u8; 32],
    any: [u8; 32],
)
    requires
        acquired(before, during, sha256),
        released(during, after, sha256),
    ensures
        after.spec_count(any) == before.spec_count(any),
{
}

/// Splits whose local artifact has been checked in full.
#[derive(Debug)]
pub struct ValidatedSplits {
    keys: Vec<TextSplitCacheKey>,
}

impl View for ValidatedSplits {
    type V = Set<TextSplitCacheKey>;

    closed spec fn view(&self) -> Set<TextSplitCacheKey> {
        self.keys@.to_set()
    }
}

impl Default for ValidatedSplits {
    fn default() -> (validated: Self)
        ensures
            validated@ == Set::<TextSplitCacheKey>::empty(),
    {
        let validated = ValidatedSplits { keys: Vec::new() };
        assert(validated@ =~= Set::<TextSplitCacheKey>::empty());
        validated
    }
}

impl ValidatedSplits {
    /// Whether the split's artifact has been checked.
    pub fn contains(&self, key: &TextSplitCacheKey) -> (checked: bool)
        ensures
            checked == self@.contains(*key),
    {
        let mut i: usize = 0;
        while i < self.keys.len()
            invariant
                i <= self.keys.len(),
                forall|k: int| 0 <= k < i ==> self.keys@[k] != *key,
            decreases self.keys.len() - i,
        {
            if self.keys[i].same(key) {
                assert(self.keys@.contains(*key));
                return true;
            }
            i = i + 1;
        }
        assert(!self.keys@.contains(*key));
        false
    }

    /// Notes that the split's artifact has been checked.
    pub fn insert(&mut self, key: TextSplitCacheKey)
        ensures
            final(self)@ == old(self)@.insert(key),
    {
        let ghost before = self.keys@;
        if self.contains(&key) {
            assert(self@ =~= old(self)@.insert(key));
            return ;
        }
        self.keys.push(key);
        proof {
            assert forall|k: TextSplitCacheKey| #[trigger]
                self.keys@.contains(k) <==> before.contains(k) || k == key by {
                if before.contains(k) {
                    let i = choose|i: int| 0 <= i < before.len() && before[i] == k;
                    assert(self.keys@[i] == k);
                }
                if k == key {
                    assert(self.keys@[before.len() as int] == k);
                }
            }
            assert(self@ =~= old(self)@.insert(key));
        }
    }

    /// Forgets every split of the artifact.
    pub fn forget_artifact(&mut self, sha256: &[u8; 32])
        ensures
            final(self)@ == old(self)@.filter(|key: TextSplitCacheKey| key.sha256 != *sha256),
    {
        let ghost before = self.keys@;
        let mut kept: Vec<TextSplitCacheKey> = Vec::new();
        let mut i: usize = 0;
        while i < self.keys.len()
            invariant
                i <= self.keys.len(),
                self.keys@ == before,
                forall|k: int|
                    0 <= k < kept@.len() ==> before.contains(#[trigger] kept@[k])
                        && kept@[k].sha256 != *sha256,
                forall|k: int|
                    0 <= k < i && (#[trigger] before[k]).sha256 != *sha256 ==> kept@.contains(
                        before[k],
                    ),
            decreases self.keys.len() - i,
        {
            if !same_digest(&self.keys[i].sha256, sha256) {
                let ghost shorter = kept@;
                kept.push(self.keys[i]);
                proof {
                    assert(before.contains(before[i as int]));
                    assert(kept@.last() == before[i as int]);
                    assert(kept@.contains(before[i as int]));
                    assert forall|k: int|
                        0 <= k < i && (#[trigger] before[k]).sha256
                            != *sha256 implies kept@.contains(before[k]) by {
                        let at = choose|at: int|
                            0 <= at < shorter.len() && shorter[at] == before[k];
                        assert(kept@[at] == before[k]);
                    }
                }
            }
            i = i + 1;
        }
        self.keys = kept;
        proof {
            let wanted = old(self)@.filter(|key: TextSplitCacheKey| key.sha256 != *sha256);
            assert forall|key: TextSplitCacheKey| #[trigger] self@.contains(key) <==> wanted.contains(key) by {
                if self.keys@.contains(key) {
                    let k = choose|k: int| 0 <= k < self.keys@.len() && self.keys@[k] == key;
                    assert(before.contains(self.keys@[k]));
                }
                if wanted.contains(key) {
                    let k = choose|k: int| 0 <= k < before.len() && before[k] == key;
                    assert(before[k].sha256 != *sha256);
                }
            }
            assert(self@ =~= wanted);
        }
    }
}

/// When each artifact's access metadata was last written, in nanoseconds of a
/// clock that never goes back.
#[derive(Debug)]
pub struct AccessWrites {
    writes: Vec<([u8; 32], u128)>,
}

/// Where the last write of an artifact is listed.
pub open spec fn write_index(writes: Seq<([u8; 32], u128)>, sha256: [u8; 32]) -> int {
    choose|i: int| 0 <= i < writes.len() && (#[trigger] writes[i]).0 == sha256
}

/// When an artifact's metadata was last written.
pub open spec fn last_write(writes: Seq<([u8; 32], u128)>, sha256: [u8; 32]) -> Option<u128> {
    if exists|i: int| 0 <= i < writes.len() && (#[trigger] writes[i]).0 == sha256 {
        Some(writes[write_index(writes, sha256)].1)
    } else {
        None
    }
}

/// Each artifact is listed once.
pub open spec fn writes_are_valid(writes: Seq<([u8; 32], u128)>) -> bool {
    forall|i: int, j: int|
        #![trigger writes[i], writes[j]]
        0 <= i < j < writes.len() ==> writes[i].0 != writes[j].0
}

proof fn lemma_last_write(writes: Seq<([u8; 32], u128)>, at: int)
    requires
        writes_are_valid(writes),
        0 <= at < writes.len(),
    ensures
        last_write(writes, writes[at].0) == Some(writes[at].1),
{
    let found = write_index(writes, writes[at].0);
    assert(writes[found].0 == writes[at].0);
    if found < at {
        assert(writes[found].0 != writes[at].0);
    } else if found > at {
        assert(writes[at].0 != writes[found].0);
    }
}

impl Default for AccessWrites {
    fn default() -> (writes: Self)
        ensures
            forall|sha256: [u8; 32]| #[trigger] writes.spec_last(sha256) is None,
    {
        AccessWrites { writes: Vec::new() }
    }
}

impl AccessWrites {
    #[verifier::type_invariant]
    spec fn well_formed(self) -> bool {
        writes_are_valid(self.writes@)
    }

    /// When an artifact's metadata was last written.
    pub closed spec fn spec_last(self, sha256: [u8; 32]) -> Option<u128> {
        last_write(self.writes@, sha256)
    }

    /// Tells whether the access metadata is due for a write, and notes the
    /// write if it is. It is due unless the last one was less than a minute
    /// ago.
    pub fn note_access(&mut self, sha256: [u8; 32], now_nanos: u128) -> (due: bool)
        ensures
            due == write_is_due(old(self).spec_last(sha256), now_nanos),
            final(self).spec_last(sha256) == if due {
                Some(now_nanos)
            } else {
                old(self).spec_last(sha256)
            },
            forall|other: [u8; 32]|
                other != sha256 ==> #[trigger] final(self).spec_last(other) == old(self).spec_last(
                    other,
                ),
    {
        proof {
            use_type_invariant(&*self);
        }
        let mut writes: Vec<([u8; 32], u128)> = Vec::new();
        std::mem::swap(&mut writes, &mut self.writes);
        let ghost before = writes@;
        let mut i: usize = 0;
        while i < writes.len()
            invariant
                i <= writes.len(),
                writes@ == before,
                writes_are_valid(before),
                forall|k: int| 0 <= k < i ==> (#[trigger] before[k]).0 != sha256,
                self.writes@.len() == 0,
                before == old(self).writes@,
            decreases writes.len() - i,
        {
            if same_digest(&writes[i].0, &sha256) {
                proof {
                    lemma_last_write(before, i as int);
                }
                let last = writes[i].1;
                if now_nanos < last || now_nanos - last < ACCESS_WRITE_INTERVAL_NANOS {
                    self.writes = writes;
                    return false;
                }
                writes.set(i, (sha256, now_nanos));
                proof {
                    let after = writes@;
                    assert forall|a: int, b: int|
                        #![trigger after[a], after[b]]
                        0 <= a < b < after.len() implies after[a].0 != after[b].0 by {
                        assert(after[a].0 == before[a].0 && after[b].0 == before[b].0);
                    }
                    lemma_last_write(after, i as int);
                    assert forall|other: [u8; 32]| other != sha256 implies #[trigger] last_write(
                        after,
                        other,
                    ) == last_write(before, other) by {
                        if exists|k: int| 0 <= k < before.len() && (#[trigger] before[k]).0 == other {
                            let k = write_index(before, other);
                            assert(after[k] == before[k]);
                            lemma_last_write(after, k);
                            lemma_last_write(before, k);
                        } else if exists|k: int|
                            0 <= k < after.len() && (#[trigger] after[k]).0 == other {
                            let k = write_index(after, other);
                            assert(after[k] == before[k]);
                        }
                    }
                }
                self.writes = writes;
                return true;
            }
            i = i + 1;
        }
        writes.push((sha256, now_nanos));
        proof {
            let after = writes@;
            assert forall|a: int, b: int|
                #![trigger after[a], after[b]]
                0 <= a < b < after.len() implies after[a].0 != after[b].0 by {
                if b == before.len() {
                    assert(before[a].0 != sha256);
                } else {
                    assert(before[a].0 != before[b].0);
                }
            }
            lemma_last_write(after, before.len() as int);
            assert forall|other: [u8; 32]| other != sha256 implies #[trigger] last_write(
                after,
                other,
            ) == last_write(before, other) by {
                if exists|k: int| 0 <= k < before.len() && (#[trigger] before[k]).0 == other {
                    let k = write_index(before, other);
                    assert(after[k] == before[k]);
                    lemma_last_write(after, k);
                    lemma_last_write(before, k);
                } else if exists|k: int| 0 <= k < after.len() && (#[trigger] after[k]).0 == other {
                    let k = write_index(after, other);
                    assert(after[k] == before[k]);
                }
            }
        }
        self.writes = writes;
        true
    }
}

/// Whether access metadata is due for a write.
pub open spec fn write_is_due(last: Option<u128>, now_nanos: u128) -> bool {
    match last {
        Some(last) => now_nanos - last >= ACCESS_WRITE_INTERVAL_NANOS,
        None => true,
    }
}

/// A success is told to be the second if and only if exactly one is remembered of
/// the split. A remembered split keeps its place and then has two; another one
/// enters last with one, and of 4096 splits the first gives way.
pub proof fn law_second_successes_are_told(
    tracker: &mut DemandTracker,
    key: TextSplitCacheKey,
    at: int,
    second: bool,
)
    requires
        call_ensures(DemandTracker::record_success, (tracker, key), second),
    ensures
        second <==> old(tracker)@.contains((key, 1u8)),
        0 <= at < old(tracker)@.len() && old(tracker)@[at].0 == key ==> final(tracker)@ == old(tracker)@.update(at, (key, 2u8)),
        (forall|i: int| 0 <= i < old(tracker)@.len() ==> (#[trigger] old(tracker)@[i]).0 != key)
            && old(tracker)@.len() < 4096 ==> final(tracker)@ == old(tracker)@.push((key, 1u8)),
        (forall|i: int| 0 <= i < old(tracker)@.len() ==> (#[trigger] old(tracker)@[i]).0 != key)
            && old(tracker)@.len() == 4096 ==> final(tracker)@ == old(tracker)@.skip(1).push(
            (key, 1u8),
        ),
        old(tracker)@.len() <= 4096,
{
    let before = old(tracker)@;
    if 0 <= at < before.len() && before[at].0 == key {
        lemma_demand_index(before, at);
    }
    if before.contains((key, 1u8)) {
        let i = choose|i: int| 0 <= i < before.len() && before[i] == (key, 1u8);
        lemma_demand_index(before, i);
    }
    if second {
        let i = demand_index(before, key);
        assert(before[i] == (key, 1u8));
    }
    if before.len() == 4096 {
        assert(before.push((key, 1u8)).drop_first() =~= before.skip(1).push((key, 1u8)));
    }
}

/// A local copy is asked for by the second success of a split; without a disk tier
/// none is, and nothing is recorded.
pub proof fn law_second_successes_ask_for_copies(
    tracker: &mut DemandTracker,
    disk_enabled: bool,
    key: TextSplitCacheKey,
    admits: bool,
)
    requires
        demands_are_valid(old(tracker)@),
        call_ensures(admits_hydration, (tracker, disk_enabled, key), admits),
    ensures
        admits <==> disk_enabled && old(tracker)@.contains((key, 1u8)),
        !disk_enabled ==> final(tracker)@ == old(tracker)@,
        disk_enabled ==> exists|i: int|
            0 <= i < final(tracker)@.len() && (#[trigger] final(tracker)@[i]).0 == key,
{
    let before = old(tracker)@;
    let after = final(tracker)@;
    if before.contains((key, 1u8)) {
        let i = choose|i: int| 0 <= i < before.len() && before[i] == (key, 1u8);
        lemma_demand_index(before, i);
    }
    if demand_known(before, key) {
        let i = demand_index(before, key);
        assert(before[i].0 == key);
        if disk_enabled {
            assert(after[i].0 == key);
        }
    } else if disk_enabled {
        assert(after[after.len() - 1].0 == key);
    }
}

/// Taking a lease counts one more reader of the artifact and of no other; an
/// artifact is leased if and only if it has a reader.
pub proof fn law_leases_count_readers(
    leases: &mut ArtifactLeases,
    sha256: [u8; 32],
    other: [u8; 32],
    now: ArtifactLeases,
    leased: bool,
)
    requires
        call_ensures(ArtifactLeases::acquire, (leases, sha256), ()),
        call_ensures(ArtifactLeases::is_leased, (&now, &sha256), leased),
    ensures
        final(leases).spec_count(sha256) == old(leases).spec_count(sha256) + 1,
        other != sha256 ==> final(leases).spec_count(other) == old(leases).spec_count(other),
        leased <==> now.spec_count(sha256) > 0,
{
}

/// Giving a lease back counts one reader of the artifact less, if there is one,
/// and of no other.
pub proof fn law_released_leases_count_no_more(
    leases: &mut ArtifactLeases,
    sha256: [u8; 32],
    other: [u8; 32],
)
    requires
        call_ensures(ArtifactLeases::release, (leases, sha256), ()),
    ensures
        old(leases).spec_count(sha256) > 0 ==> final(leases).spec_count(sha256) == old(leases).spec_count(sha256) - 1,
        old(leases).spec_count(sha256) == 0 ==> final(leases).spec_count(sha256) == 0,
        other != sha256 ==> final(leases).spec_count(other) == old(leases).spec_count(other),
{
}

/// A split counts as checked from its noting on, and no longer once its artifact is
/// forgotten; splits of other artifacts stay.
pub proof fn law_checked_splits_are_remembered(
    validated: &mut ValidatedSplits,
    key: TextSplitCacheKey,
    other: TextSplitCacheKey,
    now: ValidatedSplits,
    checked: bool,
)
    requires
        call_ensures(ValidatedSplits::insert, (validated, key), ()),
        call_ensures(ValidatedSplits::contains, (&now, &key), checked),
    ensures
        final(validated)@.contains(key),
        other != key ==> (final(validated)@.contains(other) <==> old(validated)@.contains(other)),
        checked <==> now@.contains(key),
{
}

/// Forgetting an artifact forgets its splits and no others.
pub proof fn law_forgotten_artifacts_take_their_splits(
    validated: &mut ValidatedSplits,
    sha256: [u8; 32],
    key: TextSplitCacheKey,
)
    requires
        call_ensures(ValidatedSplits::forget_artifact, (validated, &sha256), ()),
    ensures
        final(validated)@.contains(key) <==> old(validated)@.contains(key) && key.sha256 != sha256,
{
}

/// Access metadata is written at the first access, and then only where the last
/// write is sixty seconds ago or more; a write is noted for its artifact alone.
pub proof fn law_access_is_written_once_a_minute(
    writes: &mut AccessWrites,
    sha256: [u8; 32],
    other: [u8; 32],
    now_nanos: u128,
    due: bool,
)
    requires
        call_ensures(AccessWrites::note_access, (writes, sha256, now_nanos), due),
    ensures
        old(writes).spec_last(sha256) is None ==> due,
        old(writes).spec_last(sha256) matches Some(last) ==> (due <==> now_nanos >= last
            + 60_000_000_000),
        due ==> final(writes).spec_last(sha256) == Some(now_nanos),
        !due ==> final(writes).spec_last(sha256) == old(writes).spec_last(sha256),
        other != sha256 ==> final(writes).spec_last(other) == old(writes).spec_last(other),
{
}

} // verus!
