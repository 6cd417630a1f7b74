//! Scored hits: their order, and merging them into the best few.
//!
//! A score is a single-precision number, held as its bits.

use vstd::prelude::*;

use crate::error::{catalog_corruption, HelixDbError, HelixDbErrorView};
use crate::order::{is_sorted, lemma_sort_ranked, rank_int, sort_ranked, sort_values, Rank, Ranked};

verus! {

/// One live result of a text search.
#[derive(Debug, Clone, Copy, PartialEq, Eq, Structural)]
pub struct TextSearchHit {
    pub entity_id: u64,
    /// Bits of the score.
    pub score: u32,
}

/// One result of searching a split, before it is known to be live.
#[derive(Debug, Clone, Copy, PartialEq, Eq, Structural)]
pub struct TextSearchCandidate {
    pub entity_id: u64,
    /// Bits of the score.
    pub score: u32,
}

/// The bits without the sign.
pub open spec fn magnitude(bits: u32) -> int {
    if bits >= 0x8000_0000 {
        bits - 0x8000_0000
    } else {
        bits as int
    }
}

/// Whether the bits are no number.
pub open spec fn is_nan(bits: u32) -> bool {
    magnitude(bits) > 0x7f80_0000
}

/// A number that orders scores as their values are ordered; the two zeros are
/// the same.
pub open spec fn score_value(bits: u32) -> int {
    if bits >= 0x8000_0000 {
        -magnitude(bits)
    } else {
        magnitude(bits)
    }
}

/// A number that orders scores totally: as their values, with the negative
/// zero before the positive one and what is no number at the ends.
pub open spec fn score_total_value(bits: u32) -> int {
    if bits >= 0x8000_0000 {
        -magnitude(bits) - 1
    } else {
        magnitude(bits)
    }
}

fn exec_score_value(bits: u32) -> (value: i64)
    ensures
        value == score_value(bits),
{
    if bits >= 0x8000_0000 {
        -((bits - 0x8000_0000) as i64)
    } else {
        bits as i64
    }
}

fn exec_score_total_value(bits: u32) -> (value: i64)
    ensures
        value == score_total_value(bits),
{
    if bits >= 0x8000_0000 {
        -((bits - 0x8000_0000) as i64) - 1
    } else {
        bits as i64
    }
}

/// Whether the first score is no higher than the second.
pub fn score_at_most(a: u32, b: u32) -> (at_most: bool)
    ensures
        at_most == (score_value(a) <= score_value(b)),
{
    exec_score_value(a) <= exec_score_value(b)
}

/// Better hits come first: a higher score, or a smaller identifier on a tie.
impl Ranked for TextSearchHit {
    open spec fn ranked(&self, other: &Self) -> Rank {
        rank_int(score_value(other.score), score_value(self.score)).refined(
            rank_int(self.entity_id as int, other.entity_id as int),
        )
    }

    proof fn rank_reflexive(a: &Self) {
    }

    proof fn rank_antisymmetric(a: &Self, b: &Self) {
    }

    proof fn rank_transitive(a: &Self, b: &Self, c: &Self) {
    }

    fn rank(&self, other: &Self) -> (rank: Rank) {
        let own = exec_score_value(self.score);
        let others = exec_score_value(other.score);
        if others < own {
            Rank::Less
        } else if own < others {
            Rank::Greater
        } else if self.entity_id < other.entity_id {
            Rank::Less
        } else if other.entity_id < self.entity_id {
            Rank::Greater
        } else {
            Rank::Equal
        }
    }
}

/// Better candidates come first: a higher score in the total order, or a
/// smaller identifier on a tie.
impl Ranked for TextSearchCandidate {
    open spec fn ranked(&self, other: &Self) -> Rank {
        rank_int(score_total_value(other.score), score_total_value(self.score)).refined(
            rank_int(self.entity_id as int, other.entity_id as int),
        )
    }

    proof fn rank_reflexive(a: &Self) {
    }

    proof fn rank_antisymmetric(a: &Self, b: &Self) {
    }

    proof fn rank_transitive(a: &Self, b: &Self, c: &Self) {
    }

    fn rank(&self, other: &Self) -> (rank: Rank) {
        let own = exec_score_total_value(self.score);
        let others = exec_score_total_value(other.score);
        if others < own {
            Rank::Less
        } else if own < others {
            Rank::Greater
        } else if self.entity_id < other.entity_id {
            Rank::Less
        } else if other.entity_id < self.entity_id {
            Rank::Greater
        } else {
            Rank::Equal
        }
    }
}

/// The first `k` elements, or all of them if there are fewer.
pub open spec fn at_most<T>(items: Seq<T>, k: nat) -> Seq<T> {
    if items.len() <= k {
        items
    } else {
        items.take(k as int)
    }
}

/// Whether a hit of the entity is among the hits.
pub open spec fn has_entity(hits: Seq<TextSearchHit>, entity_id: u64) -> bool {
    exists|i: int| 0 <= i < hits.len() && (#[trigger] hits[i]).entity_id == entity_id
}

/// The hits without those of an entity that has an earlier one.
pub open spec fn first_of_each(hits: Seq<TextSearchHit>) -> Seq<TextSearchHit>
    decreases hits.len(),
{
    if hits.len() == 0 {
        Seq::empty()
    } else {
        let front = first_of_each(hits.drop_last());
        if has_entity(hits.drop_last(), hits.last().entity_id) {
            front
        } else {
            front.push(hits.last())
        }
    }
}

/// Whether two hits of one entity have different scores.
pub open spec fn scores_conflict(hits: Seq<TextSearchHit>) -> bool {
    exists|i: int, j: int|
        #![trigger hits[i], hits[j]]
        0 <= i < j < hits.len() && hits[i].entity_id == hits[j].entity_id && hits[i].score
            != hits[j].score
}

/// The best `k` of the hits, one for each entity.
pub open spec fn best_hits(hits: Seq<TextSearchHit>, k: nat) -> Seq<TextSearchHit> {
    at_most(sort_ranked(first_of_each(hits)), k)
}

/// The entities of the hits are those of the first hits.
proof fn lemma_first_of_each(hits: Seq<TextSearchHit>)
    ensures
        forall|i: int|
            0 <= i < first_of_each(hits).len() ==> hits.contains(#[trigger] first_of_each(hits)[i]),
        forall|id: u64| #[trigger]
            has_entity(first_of_each(hits), id) <==> has_entity(hits, id),
        forall|i: int, j: int|
            #![trigger first_of_each(hits)[i], first_of_each(hits)[j]]
            0 <= i < j < first_of_each(hits).len() ==> first_of_each(hits)[i].entity_id
                != first_of_each(hits)[j].entity_id,
    decreases hits.len(),
{
    if hits.len() > 0 {
        let before = hits.drop_last();
        lemma_first_of_each(before);
        let front = first_of_each(before);
        let all = first_of_each(hits);
        let last = hits.last();
        assert forall|i: int| 0 <= i < all.len() implies hits.contains(#[trigger] all[i]) by {
            if i < front.len() {
                assert(before.contains(front[i]));
                let k = choose|k: int| 0 <= k < before.len() && before[k] == front[i];
                assert(hits[k] == all[i]);
            } else {
                assert(hits[hits.len() - 1] == all[i]);
            }
        }
        assert forall|id: u64| #[trigger] has_entity(all, id) <==> has_entity(hits, id) by {
            if has_entity(all, id) {
                let i = choose|i: int| 0 <= i < all.len() && (#[trigger] all[i]).entity_id == id;
                assert(hits.contains(all[i]));
                let k = choose|k: int| 0 <= k < hits.len() && hits[k] == all[i];
                assert(hits[k].entity_id == id);
            }
            if has_entity(hits, id) {
                let i = choose|i: int| 0 <= i < hits.len() && (#[trigger] hits[i]).entity_id == id;
                if i < before.len() {
                    assert(before[i].entity_id == id);
                    assert(has_entity(before, id));
                    assert(has_entity(front, id));
                    let k = choose|k: int| 0 <= k < front.len() && (#[trigger] front[k]).entity_id == id;
                    assert(all[k].entity_id == id);
                } else if has_entity(before, id) {
                    assert(has_entity(front, id));
                } else {
                    assert(all[front.len() as int].entity_id == id);
                }
            }
        }
        assert forall|i: int, j: int|
            #![trigger all[i], all[j]]
            0 <= i < j < all.len() implies all[i].entity_id != all[j].entity_id by {
            if j < front.len() {
                assert(all[i] == front[i] && all[j] == front[j]);
            } else {
                assert(front[i].entity_id == all[i].entity_id);
                assert(has_entity(front, all[i].entity_id));
            }
        }
    }
}

/// Merges one page's hits into the retained ones and keeps the best `k` of
/// them. Hits of one entity have to agree on the score; if they do not, nothing
/// is retained.
pub fn retain_best_text_hits(
    retained: &mut Vec<TextSearchHit>,
    page_hits: Vec<TextSearchHit>,
    k: usize,
) -> (merged: Result<(), HelixDbError>)
    requires
        forall|i: int|
            0 <= i < old(retained)@.len() ==> !is_nan((#[trigger] old(retained)@[i]).score),
        forall|i: int| 0 <= i < page_hits@.len() ==> !is_nan((#[trigger] page_hits@[i]).score),
    ensures
        match merged {
            Ok(_) => {
                &&& !scores_conflict(old(retained)@ + page_hits@)
                &&& final(retained)@ == best_hits(old(retained)@ + page_hits@, k as nat)
            },
            Err(error) => {
                &&& scores_conflict(old(retained)@ + page_hits@)
                &&& final(retained)@.len() == 0
                &&& error@ == HelixDbErrorView::IndexCatalogCorruption(
                    "duplicate live text versions have different cross-page BM25 score bits"@,
                )
            },
        },
{
    let ghost all = old(retained)@ + page_hits@;
    let mut hits: Vec<TextSearchHit> = Vec::new();
    std::mem::swap(&mut hits, retained);
    let mut page = page_hits;
    hits.append(&mut page);
    assert(hits@ =~= all);
    let mut distinct: Vec<TextSearchHit> = Vec::new();
    let mut i: usize = 0;
    proof {
        assert(all.take(0) =~= Seq::<TextSearchHit>::empty());
    }
    while i < hits.len()
        invariant
            i <= hits.len(),
            hits@ == all,
            all == old(retained)@ + page_hits@,
            distinct@ == first_of_each(all.take(i as int)),
            !scores_conflict(all.take(i as int)),
            retained@.len() == 0,
        decreases hits.len() - i,
    {
        let hit = hits[i];
        let ghost before = all.take(i as int);
        let ghost after = all.take(i as int + 1);
        proof {
            assert(after.drop_last() =~= before);
            lemma_first_of_each(before);
        }
        let mut k: usize = 0;
        let mut known = false;
        while k < distinct.len()
            invariant
                k <= distinct.len(),
                i < hits.len(),
                hits@ == all,
                all == old(retained)@ + page_hits@,
                hit == all[i as int],
                before == all.take(i as int),
                distinct@ == first_of_each(before),
                !scores_conflict(before),
                retained@.len() == 0,
                !known ==> forall|n: int|
                    0 <= n < k ==> (#[trigger] distinct@[n]).entity_id != hit.entity_id,
                known ==> exists|n: int|
                    0 <= n < distinct@.len() && (#[trigger] distinct@[n]).entity_id
                        == hit.entity_id && distinct@[n].score == hit.score,
                forall|n: int|
                    0 <= n < first_of_each(before).len() ==> before.contains(
                        #[trigger] first_of_each(before)[n],
                    ),
            decreases distinct.len() - k,
        {
            if distinct[k].entity_id == hit.entity_id {
                if distinct[k].score != hit.score {
                    proof {
                        assert(before.contains(first_of_each(before)[k as int]));
                        let n = choose|n: int|
                            0 <= n < before.len() && before[n] == distinct@[k as int];
                        assert(all[n] == before[n]);
                        assert(all[i as int] == hit);
                        assert(scores_conflict(all));
                    }
                    return Err(
                        catalog_corruption(
                            "duplicate live text versions have different cross-page BM25 score bits",
                        ),
                    );
                }
                known = true;
            }
            k = k + 1;
        }
        proof {
            if known {
                let n = choose|n: int|
                    0 <= n < distinct@.len() && (#[trigger] distinct@[n]).entity_id
                        == hit.entity_id && distinct@[n].score == hit.score;
                assert(has_entity(first_of_each(before), hit.entity_id));
                assert(before.contains(first_of_each(before)[n]));
            } else {
                assert(!has_entity(first_of_each(before), hit.entity_id));
            }
            assert(known == has_entity(before, hit.entity_id));
            assert forall|a: int, b: int|
                #![trigger after[a], after[b]]
                0 <= a < b < after.len() && after[a].entity_id == after[b].entity_id implies after[a].score
                == after[b].score by {
                assert(after[a] == before[a]);
                if b < before.len() {
                    assert(after[b] == before[b]);
                } else {
                    assert(has_entity(before, hit.entity_id));
                    let n = choose|n: int|
                        0 <= n < distinct@.len() && (#[trigger] distinct@[n]).entity_id
                            == hit.entity_id && distinct@[n].score == hit.score;
                    let m = choose|m: int| 0 <= m < before.len() && before[m] == distinct@[n];
                    if m < a {
                        assert(before[m].entity_id == before[a].entity_id);
                    } else if a < m {
                        assert(before[a].entity_id == before[m].entity_id);
                    }
                }
            }
        }
        if !known {
            distinct.push(hit);
        }
        i = i + 1;
    }
    assert(all.take(i as int) =~= all);
    sort_values(&mut distinct);
    if distinct.len() > k {
        distinct.truncate(k);
    }
    proof {
        assert(distinct@ =~= best_hits(all, k as nat));
    }
    *retained = distinct;
    Ok(())
}

/// The entities that have hits.
pub open spec fn entities_of(hits: Seq<TextSearchHit>) -> Set<u64> {
    Set::new(|entity_id: u64| has_entity(hits, entity_id))
}

/// The last hit adds its entity.
proof fn lemma_entities_of(hits: Seq<TextSearchHit>)
    requires
        hits.len() > 0,
    ensures
        entities_of(hits) == entities_of(hits.drop_last()).insert(hits.last().entity_id),
{
    let front = hits.drop_last();
    let last = hits.last().entity_id;
    assert forall|id: u64| #[trigger] entities_of(hits).contains(id) <==> entities_of(front).insert(
        last,
    ).contains(id) by {
        if has_entity(hits, id) {
            let i = choose|i: int| 0 <= i < hits.len() && (#[trigger] hits[i]).entity_id == id;
            if i < front.len() {
                assert(front[i] == hits[i]);
            }
        }
        if has_entity(front, id) {
            let i = choose|i: int| 0 <= i < front.len() && (#[trigger] front[i]).entity_id == id;
            assert(hits[i] == front[i]);
        }
        if id == last {
            assert(hits[hits.len() - 1].entity_id == id);
        }
    }
    assert(entities_of(hits) =~= entities_of(front).insert(last));
}

/// There are as many first hits as entities.
proof fn lemma_first_of_each_len(hits: Seq<TextSearchHit>)
    ensures
        entities_of(hits).finite(),
        first_of_each(hits).len() == entities_of(hits).len(),
    decreases hits.len(),
{
    if hits.len() == 0 {
        assert(entities_of(hits) =~= Set::<u64>::empty());
    } else {
        let front = hits.drop_last();
        lemma_first_of_each_len(front);
        lemma_entities_of(hits);
        if has_entity(front, hits.last().entity_id) {
            assert(entities_of(hits) =~= entities_of(front));
        }
    }
}

/// No two hits are for the same entity.
pub open spec fn distinct_entities(hits: Seq<TextSearchHit>) -> bool {
    forall|i: int, j: int|
        #![trigger hits[i], hits[j]]
        0 <= i < j < hits.len() ==> hits[i].entity_id != hits[j].entity_id
}

/// Hits for distinct entities are as many as their entities.
pub proof fn lemma_distinct_entities_len(hits: Seq<TextSearchHit>)
    requires
        distinct_entities(hits),
    ensures
        entities_of(hits).finite(),
        entities_of(hits).len() == hits.len(),
    decreases hits.len(),
{
    if hits.len() == 0 {
        assert(entities_of(hits) =~= Set::<u64>::empty());
    } else {
        let front = hits.drop_last();
        assert forall|i: int, j: int|
            #![trigger front[i], front[j]]
            0 <= i < j < front.len() implies front[i].entity_id != front[j].entity_id by {
            assert(front[i] == hits[i] && front[j] == hits[j]);
        }
        lemma_distinct_entities_len(front);
        lemma_entities_of(hits);
        if has_entity(front, hits.last().entity_id) {
            let i = choose|i: int|
                0 <= i < front.len() && (#[trigger] front[i]).entity_id == hits.last().entity_id;
            assert(hits[i].entity_id != hits[hits.len() - 1].entity_id);
        }
    }
}

/// Hits for distinct entities are so in order too.
pub proof fn lemma_sorted_distinct_entities(hits: Seq<TextSearchHit>)
    requires
        distinct_entities(hits),
    ensures
        distinct_entities(sort_ranked(hits)),
{
    let sorted = sort_ranked(hits);
    lemma_sort_ranked(hits);
    broadcast use vstd::seq_lib::group_to_multiset_ensures;

    assert forall|i: int, j: int|
        #![trigger sorted[i], sorted[j]]
        0 <= i < j < sorted.len() implies sorted[i].entity_id != sorted[j].entity_id by {
        if sorted[i].entity_id == sorted[j].entity_id {
            assert(sorted.contains(sorted[i]) && sorted.contains(sorted[j]));
            assert(hits.to_multiset().count(sorted[i]) > 0);
            assert(hits.to_multiset().count(sorted[j]) > 0);
            let a = choose|a: int| 0 <= a < hits.len() && hits[a] == sorted[i];
            let b = choose|b: int| 0 <= b < hits.len() && hits[b] == sorted[j];
            if a < b {
                assert(hits[a].entity_id != hits[b].entity_id);
            } else if b < a {
                assert(hits[b].entity_id != hits[a].entity_id);
            }
            lemma_multiset_twice(sorted, i, j);
            lemma_count_once(hits, a);
        }
    }
}

/// Every hit is for another entity, better ones come first, there are `k` of
/// them or one for each entity if those are fewer, and no hit that is left out
/// is better than one that is kept.
pub proof fn law_best_hits_are_best(hits: Seq<TextSearchHit>, k: nat)
    ensures
        is_sorted(best_hits(hits, k)),
        entities_of(hits).finite(),
        best_hits(hits, k).len() == if entities_of(hits).len() < k {
            entities_of(hits).len()
        } else {
            k
        },
        forall|i: int|
            0 <= i < best_hits(hits, k).len() ==> hits.contains(#[trigger] best_hits(hits, k)[i]),
        distinct_entities(best_hits(hits, k)),
        forall|i: int, n: int|
            #![trigger best_hits(hits, k)[i], first_of_each(hits)[n]]
            0 <= i < best_hits(hits, k).len() && 0 <= n < first_of_each(hits).len()
                && !best_hits(hits, k).contains(first_of_each(hits)[n]) ==> best_hits(
                hits,
                k,
            )[i].ranked(&first_of_each(hits)[n]) != Rank::Greater,
{
    let first = first_of_each(hits);
    let sorted = sort_ranked(first);
    let best = best_hits(hits, k);
    lemma_first_of_each(hits);
    lemma_first_of_each_len(hits);
    lemma_sort_ranked(first);
    lemma_sorted_distinct_entities(first);
    broadcast use vstd::seq_lib::group_to_multiset_ensures;

    assert forall|i: int| 0 <= i < sorted.len() implies first.contains(#[trigger] sorted[i]) by {
        assert(sorted.contains(sorted[i]));
        assert(sorted.to_multiset().count(sorted[i]) > 0);
    }
    assert forall|i: int, j: int|
        #![trigger best[i], best[j]]
        0 <= i < j < best.len() implies best[i].ranked(&best[j]) != Rank::Greater by {
        assert(best[i] == sorted[i] && best[j] == sorted[j]);
    }
    assert forall|i: int| 0 <= i < best.len() implies hits.contains(#[trigger] best[i]) by {
        assert(best[i] == sorted[i]);
        let n = choose|n: int| 0 <= n < first.len() && first[n] == sorted[i];
        assert(hits.contains(first[n]));
    }
    assert forall|i: int, j: int|
        #![trigger best[i], best[j]]
        0 <= i < j < best.len() implies best[i].entity_id != best[j].entity_id by {
        assert(best[i] == sorted[i] && best[j] == sorted[j]);
    }
    assert forall|i: int, n: int|
        #![trigger best[i], first[n]]
        0 <= i < best.len() && 0 <= n < first.len() && !best.contains(
            first[n],
        ) implies best[i].ranked(&first[n]) != Rank::Greater by {
        assert(first.contains(first[n]));
        assert(first.to_multiset().count(first[n]) > 0);
        assert(sorted.contains(first[n]));
        let m = choose|m: int| 0 <= m < sorted.len() && sorted[m] == first[n];
        assert(best[i] == sorted[i]);
        if m < best.len() {
            assert(best[m] == sorted[m]);
        } else {
            assert(sorted[i].ranked(&sorted[m]) != Rank::Greater);
        }
    }
}

/// An element that stands at two places occurs twice.
proof fn lemma_multiset_twice(hits: Seq<TextSearchHit>, i: int, j: int)
    requires
        0 <= i < j < hits.len(),
        hits[i] == hits[j],
    ensures
        hits.to_multiset().count(hits[i]) >= 2,
    decreases hits.len(),
{
    broadcast use vstd::seq_lib::group_to_multiset_ensures;

    assert(hits =~= hits.drop_last().push(hits.last()));
    if j == hits.len() - 1 {
        assert(hits.drop_last()[i] == hits[i]);
        assert(hits.drop_last().contains(hits[i]));
        assert(hits.drop_last().to_multiset().count(hits[i]) > 0);
    } else {
        lemma_multiset_twice(hits.drop_last(), i, j);
    }
}

/// An element whose entity stands at one place occurs once.
proof fn lemma_count_once(hits: Seq<TextSearchHit>, at: int)
    requires
        0 <= at < hits.len(),
        forall|i: int, j: int|
            #![trigger hits[i], hits[j]]
            0 <= i < j < hits.len() ==> hits[i].entity_id != hits[j].entity_id,
    ensures
        hits.to_multiset().count(hits[at]) == 1,
    decreases hits.len(),
{
    broadcast use vstd::seq_lib::group_to_multiset_ensures;

    let front = hits.drop_last();
    assert(hits =~= front.push(hits.last()));
    assert forall|i: int, j: int|
        #![trigger front[i], front[j]]
        0 <= i < j < front.len() implies front[i].entity_id != front[j].entity_id by {
        assert(front[i] == hits[i] && front[j] == hits[j]);
    }
    if at == hits.len() - 1 {
        if front.contains(hits[at]) {
            let i = choose|i: int| 0 <= i < front.len() && front[i] == hits[at];
            assert(hits[i].entity_id != hits[at].entity_id);
        }
        assert(front.to_multiset().count(hits[at]) == 0);
    } else {
        lemma_count_once(front, at);
        assert(hits[at].entity_id != hits[hits.len() - 1].entity_id);
    }
}

/// Whether a candidate of the entity is among the candidates.
pub open spec fn has_candidate(hits: Seq<TextSearchCandidate>, entity_id: u64) -> bool {
    exists|i: int| 0 <= i < hits.len() && (#[trigger] hits[i]).entity_id == entity_id
}

/// The candidates without those of an entity that has an earlier one.
pub open spec fn first_candidates(hits: Seq<TextSearchCandidate>) -> Seq<TextSearchCandidate>
    decreases hits.len(),
{
    if hits.len() == 0 {
        Seq::empty()
    } else {
        let front = first_candidates(hits.drop_last());
        if has_candidate(hits.drop_last(), hits.last().entity_id) {
            front
        } else {
            front.push(hits.last())
        }
    }
}

proof fn lemma_first_candidates(hits: Seq<TextSearchCandidate>)
    ensures
        forall|id: u64| #[trigger]
            has_candidate(first_candidates(hits), id) <==> has_candidate(hits, id),
    decreases hits.len(),
{
    if hits.len() > 0 {
        let before = hits.drop_last();
        lemma_first_candidates(before);
        let front = first_candidates(before);
        let all = first_candidates(hits);
        assert forall|id: u64| #[trigger] has_candidate(all, id) <==> has_candidate(hits, id) by {
            if has_candidate(all, id) {
                let i = choose|i: int| 0 <= i < all.len() && (#[trigger] all[i]).entity_id == id;
                if i < front.len() {
                    assert(front[i].entity_id == id);
                    assert(has_candidate(front, id));
                    assert(has_candidate(before, id));
                    let k = choose|k: int| 0 <= k < before.len() && (#[trigger] before[k]).entity_id == id;
                    assert(hits[k].entity_id == id);
                } else {
                    assert(hits[hits.len() - 1].entity_id == id);
                }
            }
            if has_candidate(hits, id) {
                let i = choose|i: int| 0 <= i < hits.len() && (#[trigger] hits[i]).entity_id == id;
                if i < before.len() {
                    assert(before[i].entity_id == id);
                    assert(has_candidate(before, id));
                    assert(has_candidate(front, id));
                    let k = choose|k: int| 0 <= k < front.len() && (#[trigger] front[k]).entity_id == id;
                    assert(all[k].entity_id == id);
                } else if has_candidate(before, id) {
                    assert(has_candidate(front, id));
                } else {
                    assert(all[front.len() as int].entity_id == id);
                }
            }
        }
    }
}

/// The best `k` candidates, the best one for each entity.
pub open spec fn best_candidates(hits: Seq<TextSearchCandidate>, k: nat) -> Seq<
    TextSearchCandidate,
> {
    at_most(first_candidates(sort_ranked(hits)), k)
}

/// Merges the candidates of all splits into the best `k`.
pub fn merge_candidates(hits: Vec<TextSearchCandidate>, k: usize) -> (best: Vec<
    TextSearchCandidate,
>)
    ensures
        best@ == best_candidates(hits@, k as nat),
{
    let mut sorted = hits;
    sort_values(&mut sorted);
    let ghost all = sorted@;
    let mut best: Vec<TextSearchCandidate> = Vec::new();
    let mut i: usize = 0;
    proof {
        assert(all.take(0) =~= Seq::<TextSearchCandidate>::empty());
    }
    while i < sorted.len()
        invariant
            i <= sorted.len(),
            sorted@ == all,
            best@ == first_candidates(all.take(i as int)),
        decreases sorted.len() - i,
    {
        let hit = sorted[i];
        let ghost before = all.take(i as int);
        proof {
            assert(all.take(i as int + 1).drop_last() =~= before);
            lemma_first_candidates(before);
        }
        let mut known = false;
        let mut n: usize = 0;
        while n < best.len()
            invariant
                n <= best.len(),
                known == exists|m: int|
                    0 <= m < n && (#[trigger] best@[m]).entity_id == hit.entity_id,
            decreases best.len() - n,
        {
            if best[n].entity_id == hit.entity_id {
                known = true;
                assert(best@[n as int].entity_id == hit.entity_id);
            }
            n = n + 1;
        }
        proof {
            assert(known == has_candidate(first_candidates(before), hit.entity_id));
        }
        if !known {
            best.push(hit);
        }
        i = i + 1;
    }
    assert(all.take(i as int) =~= all);
    if best.len() > k {
        best.truncate(k);
    }
    assert(best@ =~= best_candidates(hits@, k as nat));
    best
}

/// Scores are ordered as the numbers that their bits are: without the sign bit
/// by their bits, with it the other way round and before all others; the two
/// zeros are the same score.
pub proof fn law_scores_are_ordered_as_numbers(a: u32, b: u32, at_most: bool)
    requires
        call_ensures(score_at_most, (a, b), at_most),
    ensures
        a < 0x8000_0000 && b < 0x8000_0000 ==> (at_most <==> a <= b),
        a >= 0x8000_0000 && b >= 0x8000_0000 ==> (at_most <==> a >= b),
        a >= 0x8000_0000 && b < 0x8000_0000 ==> at_most,
        a < 0x8000_0000 && b >= 0x8000_0000 ==> (at_most <==> a == 0 && b == 0x8000_0000),
{
}

/// Whether the bits of one score are of a higher number than those of another.
pub open spec fn scores_higher(a: u32, b: u32) -> bool {
    if a < 0x8000_0000 {
        if b < 0x8000_0000 {
            a > b
        } else {
            a > 0 || b > 0x8000_0000
        }
    } else {
        b >= 0x8000_0000 && a < b
    }
}

/// Of two hits the one with the higher score is better, and on a tie the one
/// with the smaller identifier.
pub proof fn law_higher_scores_rank_first(a: TextSearchHit, b: TextSearchHit)
    ensures
        a.ranked(&b) == Rank::Less <==> scores_higher(a.score, b.score) || (!scores_higher(
            b.score,
            a.score,
        ) && a.entity_id < b.entity_id),
        a.ranked(&b) == Rank::Equal <==> !scores_higher(a.score, b.score) && !scores_higher(
            b.score,
            a.score,
        ) && a.entity_id == b.entity_id,
{
}

/// Of two candidates the one with the higher score is better, the positive zero
/// before the negative one, and on a tie the one with the smaller identifier.
pub proof fn law_higher_candidates_rank_first(a: TextSearchCandidate, b: TextSearchCandidate)
    ensures
        scores_higher(a.score, b.score) ==> a.ranked(&b) == Rank::Less,
        a.score == 0 && b.score == 0x8000_0000 ==> a.ranked(&b) == Rank::Less,
        a.score == b.score ==> (a.ranked(&b) == Rank::Less <==> a.entity_id < b.entity_id),
        a.ranked(&b) == Rank::Equal <==> a == b,
{
}

/// Merging a page's hits into the retained ones gives the best hits of both:
/// better ones first, one for each entity, each of them one of the hits; `k` of
/// them or one for each entity if those are fewer; and no entity that is left
/// out has a better hit than one that is kept. It fails exactly if two hits of
/// one entity differ in their score, and then retains nothing.
pub proof fn law_pages_are_merged_into_the_best(
    retained: &mut Vec<TextSearchHit>,
    page_hits: Vec<TextSearchHit>,
    k: usize,
    merged: Result<(), HelixDbError>,
)
    requires
        call_ensures(retain_best_text_hits, (retained, page_hits, k), merged),
    ensures
        ({
            let all = old(retained)@ + page_hits@;
            let best = final(retained)@;
            &&& merged is Err <==> exists|i: int, j: int|
                #![trigger all[i], all[j]]
                0 <= i < j < all.len() && all[i].entity_id == all[j].entity_id && all[i].score
                    != all[j].score
            &&& merged matches Err(error) ==> best.len() == 0 && error@ is IndexCatalogCorruption
            &&& merged is Ok ==> {
                &&& best.len() == if entities_of(all).len() < k {
                    entities_of(all).len()
                } else {
                    k as nat
                }
                &&& distinct_entities(best)
                &&& forall|i: int| 0 <= i < best.len() ==> all.contains(#[trigger] best[i])
                &&& forall|i: int, j: int|
                    #![trigger best[i], best[j]]
                    0 <= i < j < best.len() ==> scores_higher(best[i].score, best[j].score) || (
                    !scores_higher(best[j].score, best[i].score) && best[i].entity_id
                        < best[j].entity_id)
                &&& forall|i: int, n: int|
                    #![trigger best[i], all[n]]
                    0 <= i < best.len() && 0 <= n < all.len() && !has_entity(
                        best,
                        all[n].entity_id,
                    ) ==> scores_higher(best[i].score, all[n].score) || (!scores_higher(
                        all[n].score,
                        best[i].score,
                    ) && best[i].entity_id < all[n].entity_id)
            }
        }),
{
    let all = old(retained)@ + page_hits@;
    let best = final(retained)@;
    if merged is Ok {
        law_best_hits_are_best(all, k as nat);
        lemma_first_of_each(all);
        assert forall|i: int, j: int|
            #![trigger best[i], best[j]]
            0 <= i < j < best.len() implies scores_higher(best[i].score, best[j].score) || (
        !scores_higher(best[j].score, best[i].score) && best[i].entity_id < best[j].entity_id) by {
            assert(best[i].ranked(&best[j]) != Rank::Greater);
            assert(best[i].entity_id != best[j].entity_id);
        }
        assert forall|i: int, n: int|
            #![trigger best[i], all[n]]
            0 <= i < best.len() && 0 <= n < all.len() && !has_entity(
                best,
                all[n].entity_id,
            ) implies scores_higher(best[i].score, all[n].score) || (!scores_higher(
            all[n].score,
            best[i].score,
        ) && best[i].entity_id < all[n].entity_id) by {
            let first = first_of_each(all);
            assert(has_entity(all, all[n].entity_id));
            assert(has_entity(first, all[n].entity_id));
            let m = choose|m: int|
                0 <= m < first.len() && (#[trigger] first[m]).entity_id == all[n].entity_id;
            assert(all.contains(first[m]));
            let p = choose|p: int| 0 <= p < all.len() && all[p] == first[m];
            if p < n {
                assert(all[p].entity_id == all[n].entity_id);
            } else if n < p {
                assert(all[n].entity_id == all[p].entity_id);
            }
            assert(first[m].score == all[n].score);
            if best.contains(first[m]) {
                let b = choose|b: int| 0 <= b < best.len() && best[b] == first[m];
                assert(best[b].entity_id == all[n].entity_id);
            }
            assert(best[i].ranked(&first[m]) != Rank::Greater);
            assert(best[i].entity_id != all[n].entity_id);
        }
    }
}

proof fn lemma_first_candidates_of_sorted(hits: Seq<TextSearchCandidate>)
    requires
        is_sorted(hits),
    ensures
        ({
            let first = first_candidates(hits);
            &&& forall|i: int| 0 <= i < first.len() ==> hits.contains(#[trigger] first[i])
            &&& forall|i: int, j: int|
                #![trigger first[i], first[j]]
                0 <= i < j < first.len() ==> first[i].entity_id != first[j].entity_id
                    && first[i].ranked(&first[j]) != Rank::Greater
            &&& forall|i: int, n: int|
                #![trigger first[i], hits[n]]
                0 <= i < first.len() && 0 <= n < hits.len() && first[i].entity_id
                    == hits[n].entity_id ==> first[i].ranked(&hits[n]) != Rank::Greater
        }),
    decreases hits.len(),
{
    if hits.len() > 0 {
        let before = hits.drop_last();
        let last = hits.last();
        assert forall|i: int, j: int|
            #![trigger before[i], before[j]]
            0 <= i <= j < before.len() implies before[i].ranked(&before[j]) != Rank::Greater by {
            assert(hits[i].ranked(&hits[j]) != Rank::Greater);
        }
        lemma_first_candidates_of_sorted(before);
        lemma_first_candidates(before);
        let front = first_candidates(before);
        let first = first_candidates(hits);
        assert forall|i: int| 0 <= i < front.len() implies (#[trigger] front[i]).ranked(&last)
            != Rank::Greater by {
            assert(before.contains(front[i]));
            let p = choose|p: int| 0 <= p < before.len() && before[p] == front[i];
            assert(hits[p].ranked(&hits[hits.len() - 1]) != Rank::Greater);
        }
        assert forall|i: int| 0 <= i < first.len() implies hits.contains(#[trigger] first[i]) by {
            if i < front.len() {
                assert(before.contains(front[i]));
                let p = choose|p: int| 0 <= p < before.len() && before[p] == front[i];
                assert(hits[p] == first[i]);
            } else {
                assert(hits[hits.len() - 1] == first[i]);
            }
        }
        assert forall|i: int, j: int|
            #![trigger first[i], first[j]]
            0 <= i < j < first.len() implies first[i].entity_id != first[j].entity_id
            && first[i].ranked(&first[j]) != Rank::Greater by {
            assert(first[i] == front[i]);
            if j < front.len() {
                assert(first[j] == front[j]);
            } else {
                assert(has_candidate(front, front[i].entity_id));
            }
        }
        assert forall|i: int, n: int|
            #![trigger first[i], hits[n]]
            0 <= i < first.len() && 0 <= n < hits.len() && first[i].entity_id
                == hits[n].entity_id implies first[i].ranked(&hits[n]) != Rank::Greater by {
            if n < before.len() {
                assert(before[n] == hits[n]);
                if i < front.len() {
                    assert(first[i] == front[i]);
                } else {
                    assert(has_candidate(before, hits[n].entity_id));
                }
            } else if i < front.len() {
                assert(first[i] == front[i]);
            } else {
                TextSearchCandidate::rank_reflexive(&last);
            }
        }
    }
}

/// Merging the candidates of all splits gives the best of them: better ones
/// first, at most `k`, one for each entity, which is the best that the entity
/// has; and no entity is left out unless `k` others are kept that are all better
/// than whatever it has.
pub proof fn law_splits_are_merged_into_the_best(
    hits: Vec<TextSearchCandidate>,
    k: usize,
    best: Vec<TextSearchCandidate>,
)
    requires
        call_ensures(merge_candidates, (hits, k), best),
    ensures
        best@.len() <= k,
        forall|i: int| 0 <= i < best@.len() ==> hits@.contains(#[trigger] best@[i]),
        forall|i: int, j: int|
            #![trigger best@[i], best@[j]]
            0 <= i < j < best@.len() ==> best@[i].entity_id != best@[j].entity_id
                && best@[i].ranked(&best@[j]) == Rank::Less,
        forall|i: int, n: int|
            #![trigger best@[i], hits@[n]]
            0 <= i < best@.len() && 0 <= n < hits@.len() && best@[i].entity_id
                == hits@[n].entity_id ==> best@[i].ranked(&hits@[n]) != Rank::Greater,
        forall|n: int|
            #![trigger hits@[n]]
            0 <= n < hits@.len() && !has_candidate(best@, hits@[n].entity_id) ==> best@.len() == k
                && forall|i: int|
                0 <= i < k ==> (#[trigger] best@[i]).ranked(&hits@[n]) == Rank::Less,
{
    let sorted = sort_ranked(hits@);
    let first = first_candidates(sorted);
    lemma_sort_ranked(hits@);
    lemma_first_candidates_of_sorted(sorted);
    lemma_first_candidates(sorted);
    broadcast use vstd::seq_lib::group_to_multiset_ensures;

    assert forall|i: int| 0 <= i < best@.len() implies #[trigger] best@[i] == first[i] by {}
    assert forall|x: TextSearchCandidate| sorted.contains(x) <==> #[trigger] hits@.contains(x) by {
        assert(sorted.contains(x) <==> sorted.to_multiset().count(x) > 0);
        assert(hits@.contains(x) <==> hits@.to_multiset().count(x) > 0);
    }
    assert forall|i: int| 0 <= i < best@.len() implies hits@.contains(#[trigger] best@[i]) by {
        assert(sorted.contains(first[i]));
    }
    assert forall|i: int, j: int|
        #![trigger best@[i], best@[j]]
        0 <= i < j < best@.len() implies best@[i].entity_id != best@[j].entity_id
        && best@[i].ranked(&best@[j]) == Rank::Less by {
        assert(first[i].entity_id != first[j].entity_id);
        assert(first[i].ranked(&first[j]) != Rank::Greater);
    }
    assert forall|i: int, n: int|
        #![trigger best@[i], hits@[n]]
        0 <= i < best@.len() && 0 <= n < hits@.len() && best@[i].entity_id
            == hits@[n].entity_id implies best@[i].ranked(&hits@[n]) != Rank::Greater by {
        assert(hits@.contains(hits@[n]));
        let m = choose|m: int| 0 <= m < sorted.len() && sorted[m] == hits@[n];
        assert(first[i].ranked(&sorted[m]) != Rank::Greater);
    }
    assert forall|n: int|
        #![trigger hits@[n]]
        0 <= n < hits@.len() && !has_candidate(best@, hits@[n].entity_id) implies best@.len() == k
        && forall|i: int| 0 <= i < k ==> (#[trigger] best@[i]).ranked(&hits@[n]) == Rank::Less by {
        let hit = hits@[n];
        assert(hits@.contains(hit));
        let m = choose|m: int| 0 <= m < sorted.len() && sorted[m] == hit;
        assert(sorted[m].entity_id == hit.entity_id);
        assert(has_candidate(sorted, hit.entity_id));
        assert(has_candidate(first, hit.entity_id));
        let f = choose|f: int|
            0 <= f < first.len() && (#[trigger] first[f]).entity_id == hit.entity_id;
        if f < best@.len() {
            assert(best@[f].entity_id == hit.entity_id);
        }
        assert forall|i: int| 0 <= i < k implies (#[trigger] best@[i]).ranked(&hit)
            == Rank::Less by {
            assert(first[i].ranked(&first[f]) != Rank::Greater);
            assert(first[i].entity_id != first[f].entity_id);
            assert(first[f].ranked(&sorted[m]) != Rank::Greater);
            TextSearchCandidate::rank_transitive(&first[i], &first[f], &hit);
        }
    }
}

} // verus!
