//! Evidence of text searches: which indexes a query reads, the pages of their
//! manifests, and the best score of each entity.

use vstd::prelude::*;

use crate::error::{catalog_corruption, config_error, HelixDbError, HelixDbErrorView};
use crate::order::{
    is_sorted, lemma_sort_ranked, rank_str, rank_text, sort_ranked, sort_values, Rank, Ranked,
};
use crate::parity::definition::{element_name, identity_text, parity_identity, IndexIdentity};
use crate::parity::statistics::{TextAuthority, TextDefinition, TextPartition};
use crate::render::{decimal, decimal_string};
use crate::split_cache::key::TextSplitRef;
use crate::text::hits::{
    at_most, distinct_entities, entities_of, has_entity, is_nan, lemma_distinct_entities_len,
    lemma_sorted_distinct_entities, score_at_most, score_value, scores_higher, TextSearchHit,
};
use crate::text::manifest::{LoadedTextQueryStatistics, ManifestRoot};

verus! {

/// The best score of an entity.
#[derive(Debug, Clone, Copy, PartialEq, Eq, Structural)]
pub struct MigrationParityTextHit {
    pub entity_id: u64,
    pub score_bits: u32,
}

/// A split that a manifest refers to.
#[derive(Debug, Clone, Copy, PartialEq, Eq)]
pub struct MigrationParityTextSplit {
    pub sha256: [u8; 32],
    pub size_bytes: u64,
    pub footer_offset: u64,
    pub footer_len: u32,
    pub hotcache_len: u32,
    pub total_size_bytes: u64,
}

/// What a query has found in one generation of a text index.
#[derive(Debug, Clone, PartialEq, Eq)]
pub struct MigrationParityTextSearch {
    pub identity: String,
    pub analyzer: String,
    pub partition_bytes: Vec<u8>,
    pub index_id: u64,
    pub generation: u64,
    pub physical_index_name: String,
    pub format_version: u32,
    pub generation_id: String,
    pub splits: Vec<MigrationParityTextSplit>,
    pub hits: Vec<MigrationParityTextHit>,
}

/// Searches are ordered by the name of the index.
impl Ranked for MigrationParityTextSearch {
    open spec fn ranked(&self, other: &Self) -> Rank {
        rank_text(self.physical_index_name@, other.physical_index_name@)
    }

    proof fn rank_reflexive(a: &Self) {
        String::rank_reflexive(&a.physical_index_name);
    }

    proof fn rank_antisymmetric(a: &Self, b: &Self) {
        String::rank_antisymmetric(&a.physical_index_name, &b.physical_index_name);
    }

    proof fn rank_transitive(a: &Self, b: &Self, c: &Self) {
        String::rank_transitive(
            &a.physical_index_name,
            &b.physical_index_name,
            &c.physical_index_name,
        );
    }

    fn rank(&self, other: &Self) -> (rank: Rank) {
        rank_str(self.physical_index_name.as_str(), other.physical_index_name.as_str())
    }
}

/// Whether a search leaves the index out: its definition is not the wanted one,
/// or it has no partitions and one is asked for.
pub open spec fn leaves_out(
    authority: TextAuthority,
    definition: Option<TextDefinition>,
    tenant: Option<Seq<char>>,
) -> bool {
    ||| definition matches Some(definition) && definition@ != authority.definition@
    ||| authority.definition.tenant_property is None && tenant is Some
}

/// The partition of the index that a search reads, or `None` if it leaves the
/// index out. A partitioned index cannot be searched without a tenant.
pub fn searched_partition(
    authority: &TextAuthority,
    definition: Option<&TextDefinition>,
    tenant: Option<&str>,
) -> (partition: Result<Option<TextPartition>, HelixDbError>)
    ensures
        ({
            let wanted = match definition {
                Some(definition) => Some(*definition),
                None => None,
            };
            let name = match tenant {
                Some(tenant) => Some(tenant@),
                None => None,
            };
            match partition {
                Ok(None) => leaves_out(*authority, wanted, name),
                Ok(Some(TextPartition::Unpartitioned)) => {
                    &&& !leaves_out(*authority, wanted, name)
                    &&& authority.definition.tenant_property is None
                },
                Ok(Some(TextPartition::Tenant(text))) => {
                    &&& !leaves_out(*authority, wanted, name)
                    &&& authority.definition.tenant_property is Some
                    &&& name == Some(text@)
                },
                Err(error) => {
                    &&& !leaves_out(*authority, wanted, name)
                    &&& authority.definition.tenant_property is Some
                    &&& name is None
                    &&& error@ == HelixDbErrorView::Config(
                        "migration parity text search requires a tenant partition"@,
                    )
                },
            }
        }),
{
    match definition {
        Some(definition) => {
            if !definition.same(&authority.definition) {
                return Ok(None);
            }
        },
        None => {},
    }
    match (&authority.definition.tenant_property, tenant) {
        (None, None) => Ok(Some(TextPartition::Unpartitioned)),
        (Some(_), Some(tenant)) => Ok(Some(TextPartition::Tenant(tenant.to_owned()))),
        (Some(_), None) => Err(
            config_error("migration parity text search requires a tenant partition"),
        ),
        (None, Some(_)) => Ok(None),
    }
}

/// Whether a search may go on without the manifest root of an index: a tenant
/// may have no document yet, a whole index has to have a root.
pub fn accept_missing_root(authority: &TextAuthority) -> (accepted: Result<(), HelixDbError>)
    ensures
        match accepted {
            Ok(_) => authority.definition.tenant_property is Some,
            Err(error) => {
                &&& authority.definition.tenant_property is None
                &&& error@ == HelixDbErrorView::IndexCatalogCorruption(
                    "unpartitioned Active text index has no manifest root"@,
                )
            },
        },
{
    match authority.definition.tenant_property {
        Some(_) => Ok(()),
        None => Err(catalog_corruption("unpartitioned Active text index has no manifest root")),
    }
}

/// Whether the pages of the manifest have to be searched. An empty corpus has
/// no splits.
pub fn searches_pages(statistics: LoadedTextQueryStatistics, root: &ManifestRoot) -> (searches:
    Result<bool, HelixDbError>)
    ensures
        match searches {
            Ok(searches) => {
                &&& !(statistics is EmptyCorpus && root.split_count != 0)
                &&& searches == (statistics is Ready)
            },
            Err(error) => {
                &&& statistics is EmptyCorpus
                &&& root.split_count != 0
                &&& error@ == HelixDbErrorView::IndexCatalogCorruption(
                    "migration parity text manifest has no corpus statistics"@,
                )
            },
        },
{
    match statistics {
        LoadedTextQueryStatistics::EmptyQuery => Ok(false),
        LoadedTextQueryStatistics::EmptyCorpus => if root.split_count != 0 {
            Err(catalog_corruption("migration parity text manifest has no corpus statistics"))
        } else {
            Ok(false)
        },
        LoadedTextQueryStatistics::Ready => Ok(true),
    }
}

/// The manifest of one page, as a generation of its own.
#[derive(Debug)]
pub struct PageManifest {
    pub name: String,
    pub generation: String,
    /// The first split of the page.
    pub primary: TextSplitRef,
    pub splits: Vec<TextSplitRef>,
}

/// The name of the index that a manifest root describes.
pub open spec fn physical_name(root: ManifestRoot) -> Seq<char> {
    "index-v2-text-"@ + decimal(root.index_id as nat) + "-"@ + decimal(root.generation as nat)
}

fn physical_name_string(root: &ManifestRoot) -> (name: String)
    ensures
        name@ == physical_name(*root),
{
    let mut name = "index-v2-text-".to_owned();
    let index_id = decimal_string(root.index_id);
    name.append(index_id.as_str());
    name.append("-");
    let generation = decimal_string(root.generation);
    name.append(generation.as_str());
    name
}

/// The manifest of one page. A page has at least one split.
pub fn page_manifest(root: &ManifestRoot, page: u64, splits: Vec<TextSplitRef>) -> (manifest: Result<
    PageManifest,
    HelixDbError,
>)
    ensures
        match manifest {
            Ok(manifest) => {
                &&& splits@.len() > 0
                &&& manifest.name@ == physical_name(*root) + "-page-"@ + decimal(page as nat)
                &&& manifest.generation@ == decimal(root.generation as nat)
                &&& manifest.primary == splits@[0]
                &&& manifest.splits == splits
            },
            Err(error) => {
                &&& splits@.len() == 0
                &&& error@ == HelixDbErrorView::IndexCatalogCorruption(
                    "V2 text manifest page is empty"@,
                )
            },
        },
{
    if splits.len() == 0 {
        return Err(catalog_corruption("V2 text manifest page is empty"));
    }
    let mut name = physical_name_string(root);
    name.append("-page-");
    let number = decimal_string(page);
    name.append(number.as_str());
    Ok(
        PageManifest {
            name,
            generation: decimal_string(root.generation),
            primary: splits[0],
            splits,
        },
    )
}

/// What evidence keeps of a split.
pub open spec fn split_evidence(split: TextSplitRef) -> MigrationParityTextSplit {
    MigrationParityTextSplit {
        sha256: split.blob.sha256,
        size_bytes: split.blob.size_bytes,
        footer_offset: split.footer_offset,
        footer_len: split.footer_len,
        hotcache_len: split.hotcache_len,
        total_size_bytes: split.total_size_bytes,
    }
}

/// The splits of a page, as evidence.
pub open spec fn page_splits(page: PageManifest) -> Seq<MigrationParityTextSplit> {
    page.splits@.map_values(|split: TextSplitRef| split_evidence(split))
}

/// The splits of all pages, as evidence, in their order.
pub open spec fn all_splits(pages: Seq<PageManifest>) -> Seq<MigrationParityTextSplit>
    decreases pages.len(),
{
    if pages.len() == 0 {
        Seq::empty()
    } else {
        all_splits(pages.drop_last()) + page_splits(pages.last())
    }
}

fn list_splits(pages: &Vec<PageManifest>) -> (splits: Vec<MigrationParityTextSplit>)
    ensures
        splits@ == all_splits(pages@),
{
    let mut splits: Vec<MigrationParityTextSplit> = Vec::new();
    let mut i: usize = 0;
    while i < pages.len()
        invariant
            i <= pages.len(),
            splits@ == all_splits(pages@.take(i as int)),
        decreases pages.len() - i,
    {
        let page = &pages[i];
        let ghost before = splits@;
        let mut k: usize = 0;
        assert(before + page_splits(*page).take(0) =~= before);
        while k < page.splits.len()
            invariant
                k <= page.splits.len(),
                splits@ == before + page_splits(*page).take(k as int),
            decreases page.splits.len() - k,
        {
            let split = page.splits[k];
            let ghost shorter = splits@;
            splits.push(
                MigrationParityTextSplit {
                    sha256: split.blob.sha256,
                    size_bytes: split.blob.size_bytes,
                    footer_offset: split.footer_offset,
                    footer_len: split.footer_len,
                    hotcache_len: split.hotcache_len,
                    total_size_bytes: split.total_size_bytes,
                },
            );
            assert(splits@ =~= before + page_splits(*page).take(k as int + 1));
            k += 1;
        }
        proof {
            assert(page_splits(*page).take(k as int) =~= page_splits(*page));
            assert(pages@.take(i as int + 1).drop_last() =~= pages@.take(i as int));
        }
        i += 1;
    }
    assert(pages@.take(i as int) =~= pages@);
    splits
}

/// Where the first hit of the entity stands.
pub open spec fn entity_index(hits: Seq<TextSearchHit>, entity_id: u64) -> int {
    choose|i: int| 0 <= i < hits.len() && (#[trigger] hits[i]).entity_id == entity_id
}

/// One hit for each entity, with the highest score that it was found with;
/// entities in the order in which they were found first.
pub open spec fn strongest(hits: Seq<TextSearchHit>) -> Seq<TextSearchHit>
    decreases hits.len(),
{
    if hits.len() == 0 {
        Seq::empty()
    } else {
        let before = strongest(hits.drop_last());
        let hit = hits.last();
        if has_entity(before, hit.entity_id) {
            let at = entity_index(before, hit.entity_id);
            if score_value(before[at].score) < score_value(hit.score) {
                before.update(at, hit)
            } else {
                before
            }
        } else {
            before.push(hit)
        }
    }
}

/// The strongest hit of each entity, better ones first, at most `k`.
pub open spec fn strongest_hits(hits: Seq<TextSearchHit>, k: nat) -> Seq<TextSearchHit> {
    at_most(sort_ranked(strongest(hits)), k)
}

/// Hits as evidence.
pub open spec fn hits_evidence(hits: Seq<TextSearchHit>) -> Seq<MigrationParityTextHit> {
    hits.map_values(
        |hit: TextSearchHit|
            MigrationParityTextHit { entity_id: hit.entity_id, score_bits: hit.score },
    )
}

/// Entities are distinct; every entity of the hits has a hit that is at least
/// as strong as all of its hits.
proof fn lemma_strongest(hits: Seq<TextSearchHit>)
    ensures
        forall|i: int, j: int|
            #![trigger strongest(hits)[i], strongest(hits)[j]]
            0 <= i < j < strongest(hits).len() ==> strongest(hits)[i].entity_id != strongest(
                hits,
            )[j].entity_id,
        forall|i: int|
            0 <= i < strongest(hits).len() ==> hits.contains(#[trigger] strongest(hits)[i]),
        forall|n: int|
            0 <= n < hits.len() ==> outdone(strongest(hits), #[trigger] hits[n]),
    decreases hits.len(),
{
    if hits.len() > 0 {
        let front = hits.drop_last();
        lemma_strongest(front);
        let before = strongest(front);
        let all = strongest(hits);
        let hit = hits.last();
        let at = entity_index(before, hit.entity_id);
        assert forall|i: int| 0 <= i < all.len() implies hits.contains(#[trigger] all[i]) by {
            if i < before.len() && all[i] == before[i] {
                assert(front.contains(before[i]));
                let n = choose|n: int| 0 <= n < front.len() && front[n] == before[i];
                assert(hits[n] == all[i]);
            } else {
                assert(hits[hits.len() - 1] == all[i]);
            }
        }
        assert forall|i: int, j: int|
            #![trigger all[i], all[j]]
            0 <= i < j < all.len() implies all[i].entity_id != all[j].entity_id by {
            assert(before[i].entity_id == all[i].entity_id);
            if j < before.len() {
                assert(before[j].entity_id == all[j].entity_id);
            } else {
                assert(has_entity(before, all[i].entity_id));
            }
        }
        assert forall|n: int| 0 <= n < hits.len() implies outdone(all, #[trigger] hits[n]) by {
            if n < front.len() {
                assert(front[n] == hits[n]);
                assert(outdone(before, front[n]));
                let i = choose|i: int|
                    0 <= i < before.len() && (#[trigger] before[i]).entity_id == hits[n].entity_id
                        && score_value(before[i].score) >= score_value(hits[n].score);
                assert(all[i].entity_id == hits[n].entity_id);
            } else if has_entity(before, hit.entity_id) {
                assert(all[at].entity_id == hit.entity_id);
            } else {
                assert(all[before.len() as int] == hit);
            }
        }
    }
}

/// Some hit of the entity is at least as strong.
pub open spec fn outdone(hits: Seq<TextSearchHit>, hit: TextSearchHit) -> bool {
    exists|i: int|
        0 <= i < hits.len() && (#[trigger] hits[i]).entity_id == hit.entity_id && score_value(
            hits[i].score,
        ) >= score_value(hit.score)
}

/// The strongest hit of each entity, better ones first, at most `k`. Of two
/// hits with equal scores the first one counts.
pub fn best_scores(hits: &Vec<TextSearchHit>, k: usize) -> (best: Vec<MigrationParityTextHit>)
    requires
        forall|i: int| 0 <= i < hits@.len() ==> !is_nan((#[trigger] hits@[i]).score),
    ensures
        best@ == hits_evidence(strongest_hits(hits@, k as nat)),
{
    let mut ranked: Vec<TextSearchHit> = Vec::new();
    let mut i: usize = 0;
    while i < hits.len()
        invariant
            i <= hits.len(),
            ranked@ == strongest(hits@.take(i as int)),
        decreases hits.len() - i,
    {
        let hit = hits[i];
        let ghost front = hits@.take(i as int);
        proof {
            assert(hits@.take(i as int + 1).drop_last() =~= front);
            lemma_strongest(front);
        }
        let mut at: usize = 0;
        while at < ranked.len() && ranked[at].entity_id != hit.entity_id
            invariant
                at <= ranked.len(),
                forall|n: int|
                    0 <= n < at ==> (#[trigger] ranked@[n]).entity_id != hit.entity_id,
            decreases ranked.len() - at,
        {
            at += 1;
        }
        if at < ranked.len() {
            proof {
                assert(has_entity(ranked@, hit.entity_id));
                let chosen = entity_index(ranked@, hit.entity_id);
                if chosen < at {
                } else if at < chosen {
                    assert(ranked@[at as int].entity_id != ranked@[chosen].entity_id);
                }
            }
            if !score_at_most(hit.score, ranked[at].score) {
                ranked.set(at, hit);
            }
        } else {
            assert(!has_entity(ranked@, hit.entity_id));
            ranked.push(hit);
        }
        i += 1;
    }
    assert(hits@.take(i as int) =~= hits@);
    sort_values(&mut ranked);
    if ranked.len() > k {
        ranked.truncate(k);
    }
    assert(ranked@ =~= strongest_hits(hits@, k as nat));
    let mut best: Vec<MigrationParityTextHit> = Vec::new();
    let mut n: usize = 0;
    while n < ranked.len()
        invariant
            n <= ranked.len(),
            best@ =~= hits_evidence(ranked@.take(n as int)),
        decreases ranked.len() - n,
    {
        let hit = ranked[n];
        best.push(MigrationParityTextHit { entity_id: hit.entity_id, score_bits: hit.score });
        n += 1;
    }
    assert(ranked@.take(n as int) =~= ranked@);
    best
}

/// The evidence of one search.
pub fn text_search_evidence(
    identity: &IndexIdentity,
    authority: &TextAuthority,
    root: &ManifestRoot,
    partition_bytes: Vec<u8>,
    format_version: u32,
    pages: &Vec<PageManifest>,
    hits: &Vec<TextSearchHit>,
    k: usize,
) -> (search: MigrationParityTextSearch)
    requires
        forall|i: int| 0 <= i < hits@.len() ==> !is_nan((#[trigger] hits@[i]).score),
    ensures
        search.identity@ == identity_text(*identity),
        search.analyzer@ == authority.definition.analyzer@,
        search.partition_bytes == partition_bytes,
        search.index_id == root.index_id,
        search.generation == root.generation,
        search.physical_index_name@ == physical_name(*root),
        search.format_version == format_version,
        search.generation_id@ == decimal(root.generation as nat),
        search.splits@ == all_splits(pages@),
        search.hits@ == hits_evidence(strongest_hits(hits@, k as nat)),
{
    MigrationParityTextSearch {
        identity: parity_identity(identity),
        analyzer: authority.definition.analyzer.as_str().to_owned(),
        partition_bytes,
        index_id: root.index_id,
        generation: root.generation,
        physical_index_name: physical_name_string(root),
        format_version,
        generation_id: decimal_string(root.generation),
        splits: list_splits(pages),
        hits: best_scores(hits, k),
    }
}

/// Puts the searches in the order of the names of their indexes.
pub fn order_text_searches(searches: &mut Vec<MigrationParityTextSearch>)
    ensures
        final(searches)@ == sort_ranked(old(searches)@),
{
    sort_values(searches);
}

/// The one search of a definition.
pub fn single_text_search(
    definition: &TextDefinition,
    searches: Vec<MigrationParityTextSearch>,
) -> (single: Result<MigrationParityTextSearch, HelixDbError>)
    ensures
        match single {
            Ok(search) => searches@ == seq![search],
            Err(error) => {
                &&& searches@.len() != 1
                &&& error@ == HelixDbErrorView::IndexCatalogCorruption(
                    "expected one Active text generation for "@ + element_name(
                        definition.element_kind,
                    ) + ":"@ + definition.label@ + ":"@ + definition.property@ + ", found "@
                        + decimal(searches@.len()),
                )
            },
        },
{
    let count = searches.len();
    if count == 1 {
        let mut found = searches;
        match found.pop() {
            Some(search) => {
                assert(searches@ =~= seq![search]);
                return Ok(search);
            },
            None => {},
        }
    }
    let mut text = "expected one Active text generation for ".to_owned();
    text.append(definition.element_kind.name());
    text.append(":");
    text.append(definition.label.as_str());
    text.append(":");
    text.append(definition.property.as_str());
    text.append(", found ");
    let number = decimal_string(count as u64);
    text.append(number.as_str());
    Err(HelixDbError::IndexCatalogCorruption(text))
}

/// The entities of the strongest hits are those of the hits.
proof fn lemma_strongest_entities(hits: Seq<TextSearchHit>)
    ensures
        entities_of(hits).finite(),
        entities_of(hits).len() == strongest(hits).len(),
{
    let all = strongest(hits);
    lemma_strongest(hits);
    lemma_distinct_entities_len(all);
    assert forall|id: u64| #[trigger] entities_of(all).contains(id) <==> entities_of(hits).contains(
        id,
    ) by {
        if has_entity(all, id) {
            let i = choose|i: int| 0 <= i < all.len() && (#[trigger] all[i]).entity_id == id;
            let n = choose|n: int| 0 <= n < hits.len() && hits[n] == all[i];
            assert(hits.contains(all[i]));
            assert(hits[n].entity_id == id);
        }
        if has_entity(hits, id) {
            let n = choose|n: int| 0 <= n < hits.len() && (#[trigger] hits[n]).entity_id == id;
            assert(outdone(all, hits[n]));
        }
    }
    assert(entities_of(all) =~= entities_of(hits));
}

/// No hit of an entity is stronger than its strongest hit.
proof fn lemma_strongest_is_strongest(hits: Seq<TextSearchHit>, a: int, n: int)
    requires
        0 <= a < strongest(hits).len(),
        0 <= n < hits.len(),
        strongest(hits)[a].entity_id == hits[n].entity_id,
    ensures
        score_value(strongest(hits)[a].score) >= score_value(hits[n].score),
{
    let all = strongest(hits);
    lemma_strongest(hits);
    assert(outdone(all, hits[n]));
    let b = choose|b: int|
        0 <= b < all.len() && (#[trigger] all[b]).entity_id == hits[n].entity_id && score_value(
            all[b].score,
        ) >= score_value(hits[n].score);
    if a < b {
        assert(all[a].entity_id != all[b].entity_id);
    } else if b < a {
        assert(all[b].entity_id != all[a].entity_id);
    }
}

/// Every entity is ranked once, with a score that it was found with and that
/// none of its hits exceeds; better ones come first; there are `k` of them or
/// one for each entity if those are fewer; and what is left out is no better
/// than what is kept.
#[verifier::rlimit(30)]
pub proof fn law_strongest_hits_are_best(hits: Seq<TextSearchHit>, k: nat)
    ensures
        is_sorted(strongest_hits(hits, k)),
        distinct_entities(strongest_hits(hits, k)),
        entities_of(hits).finite(),
        strongest_hits(hits, k).len() == if entities_of(hits).len() < k {
            entities_of(hits).len()
        } else {
            k
        },
        forall|i: int|
            0 <= i < strongest_hits(hits, k).len() ==> hits.contains(
                #[trigger] strongest_hits(hits, k)[i],
            ),
        forall|i: int, n: int|
            #![trigger strongest_hits(hits, k)[i], hits[n]]
            0 <= i < strongest_hits(hits, k).len() && 0 <= n < hits.len() && strongest_hits(
                hits,
                k,
            )[i].entity_id == hits[n].entity_id ==> score_value(strongest_hits(hits, k)[i].score)
                >= score_value(hits[n].score),
        forall|n: int|
            #![trigger hits[n]]
            0 <= n < hits.len() ==> outdone(strongest_hits(hits, k), hits[n]) || (strongest_hits(
                hits,
                k,
            ).len() == k && forall|i: int|
                0 <= i < k ==> (#[trigger] strongest_hits(hits, k)[i]).ranked(&hits[n])
                    != Rank::Greater),
{
    let all = strongest(hits);
    let sorted = sort_ranked(all);
    let best = strongest_hits(hits, k);
    lemma_strongest(hits);
    lemma_sort_ranked(all);
    lemma_sorted_distinct_entities(all);
    lemma_strongest_entities(hits);
    assert forall|i: int, j: int|
        #![trigger best[i], best[j]]
        0 <= i < j < best.len() implies best[i].entity_id != best[j].entity_id by {
        assert(best[i] == sorted[i] && best[j] == sorted[j]);
    }
    assert forall|i: int| 0 <= i < sorted.len() implies all.contains(#[trigger] sorted[i]) by {
        broadcast use vstd::seq_lib::group_to_multiset_ensures;

        assert(sorted.contains(sorted[i]));
        assert(sorted.to_multiset().count(sorted[i]) > 0);
    }
    assert forall|i: int, j: int|
        #![trigger best[i], best[j]]
        0 <= i <= j < best.len() implies best[i].ranked(&best[j]) != Rank::Greater by {
        assert(best[i] == sorted[i] && best[j] == sorted[j]);
    }
    assert forall|i: int| 0 <= i < best.len() implies hits.contains(#[trigger] best[i]) by {
        assert(best[i] == sorted[i]);
        let n = choose|n: int| 0 <= n < all.len() && all[n] == sorted[i];
        assert(hits.contains(all[n]));
    }
    assert forall|i: int, n: int|
        #![trigger best[i], hits[n]]
        0 <= i < best.len() && 0 <= n < hits.len() && best[i].entity_id
            == hits[n].entity_id implies score_value(best[i].score) >= score_value(
        hits[n].score,
    ) by {
        assert(best[i] == sorted[i]);
        assert(all.contains(sorted[i]));
        let a = choose|a: int| 0 <= a < all.len() && all[a] == sorted[i];
        lemma_strongest_is_strongest(hits, a, n);
    }
    assert forall|n: int| #![trigger hits[n]] 0 <= n < hits.len() implies outdone(best, hits[n]) || (
    best.len() == k && forall|i: int|
        0 <= i < k ==> (#[trigger] best[i]).ranked(&hits[n]) != Rank::Greater) by {
        let hit = hits[n];
        assert(outdone(all, hit));
        let a = choose|a: int|
            0 <= a < all.len() && (#[trigger] all[a]).entity_id == hit.entity_id && score_value(
                all[a].score,
            ) >= score_value(hit.score);
        assert(sorted.contains(all[a])) by {
            broadcast use vstd::seq_lib::group_to_multiset_ensures;

            assert(all.contains(all[a]));
            assert(all.to_multiset().count(all[a]) > 0);
        }
        let m = choose|m: int| 0 <= m < sorted.len() && sorted[m] == all[a];
        if m < best.len() {
            assert(best[m] == sorted[m]);
            assert(outdone(best, hit));
        } else {
            assert forall|i: int| 0 <= i < k implies (#[trigger] best[i]).ranked(&hit)
                != Rank::Greater by {
                assert(best[i] == sorted[i]);
                assert(sorted[i].ranked(&sorted[m]) != Rank::Greater);
            }
        }
    }
}

/// Which part of an index a search reads: an index of another definition than
/// the wanted one is left out, as is a whole index where a tenant is asked for;
/// a whole index is read as a whole, a partitioned one only in the partition of
/// the tenant that is asked for.
pub proof fn law_searches_read_the_named_partition(
    authority: TextAuthority,
    definition: Option<&TextDefinition>,
    tenant: Option<&str>,
    partition: Result<Option<TextPartition>, HelixDbError>,
)
    requires
        call_ensures(searched_partition, (&authority, definition, tenant), partition),
    ensures
        ({
            let wanted = definition is None || definition->Some_0@ == authority.definition@;
            let partitioned = authority.definition.tenant_property is Some;
            &&& (partition is Ok && partition->Ok_0 is None) <==> !wanted || (!partitioned && tenant is Some)
            &&& (partition is Ok && partition->Ok_0 == Some(TextPartition::Unpartitioned)) <==> wanted && !partitioned
                && tenant is None
            &&& partition is Err <==> wanted && partitioned && tenant is None
            &&& partition matches Ok(Some(TextPartition::Tenant(name))) ==> wanted && partitioned
                && tenant is Some && tenant->Some_0@ == name@
            &&& partition matches Err(error) ==> error@ is Config
        }),
{
}

/// Only a partition of a tenant may lack a manifest root; an empty corpus may
/// have no splits; and pages are searched exactly if there is something to
/// search for.
pub proof fn law_missing_parts_are_accepted_where_they_may_be(
    authority: TextAuthority,
    root: ManifestRoot,
    statistics: LoadedTextQueryStatistics,
    accepted: Result<(), HelixDbError>,
    searches: Result<bool, HelixDbError>,
)
    requires
        call_ensures(accept_missing_root, (&authority,), accepted),
        call_ensures(searches_pages, (statistics, &root), searches),
    ensures
        accepted is Ok <==> authority.definition.tenant_property is Some,
        accepted matches Err(error) ==> error@ is IndexCatalogCorruption,
        searches is Err <==> statistics == LoadedTextQueryStatistics::EmptyCorpus
            && root.split_count > 0,
        searches matches Ok(searched) ==> (searched <==> statistics
            == LoadedTextQueryStatistics::Ready),
        searches matches Err(error) ==> error@ is IndexCatalogCorruption,
{
}

/// A page's manifest holds the splits of the page in their order, the first one
/// as its primary; only a page without splits has none.
pub proof fn law_pages_hold_their_splits(
    root: ManifestRoot,
    page: u64,
    splits: Vec<TextSplitRef>,
    manifest: Result<PageManifest, HelixDbError>,
)
    requires
        call_ensures(page_manifest, (&root, page, splits), manifest),
    ensures
        manifest is Err <==> splits@.len() == 0,
        manifest matches Err(error) ==> error@ is IndexCatalogCorruption,
        manifest matches Ok(manifest) ==> {
            let end = "-page-"@ + decimal(page as nat);
            &&& manifest.splits@ == splits@
            &&& manifest.primary == splits@[0]
            &&& manifest.generation@ == decimal(root.generation as nat)
            &&& end.len() <= manifest.name@.len()
            &&& manifest.name@.skip(manifest.name@.len() - end.len()) == end
        },
{
    if let Ok(manifest) = manifest {
        let end = "-page-"@ + decimal(page as nat);
        assert(manifest.name@ =~= physical_name(root) + end);
        assert(manifest.name@.skip(manifest.name@.len() - end.len()) =~= end);
    }
}

proof fn lemma_all_splits_flat(pages: Seq<PageManifest>)
    ensures
        all_splits(pages) == pages.map_values(|page: PageManifest| page_splits(page)).flatten(),
    decreases pages.len(),
{
    let lists = pages.map_values(|page: PageManifest| page_splits(page));
    if pages.len() > 0 {
        lemma_all_splits_flat(pages.drop_last());
        assert(pages.drop_last().map_values(|page: PageManifest| page_splits(page))
            =~= lists.drop_last());
        lists.lemma_flatten_and_flatten_alt_are_equivalent();
        lists.drop_last().lemma_flatten_and_flatten_alt_are_equivalent();
    } else {
        assert(lists =~= Seq::empty());
    }
}

/// What evidence of a search says: the index, generation and analyzer that were
/// searched, every split of every page with all that it is described by, and the
/// best hits, better ones first, each with the highest score of its entity.
pub proof fn law_search_evidence_is_complete(
    identity: IndexIdentity,
    authority: TextAuthority,
    root: ManifestRoot,
    partition_bytes: Vec<u8>,
    format_version: u32,
    pages: Vec<PageManifest>,
    hits: Vec<TextSearchHit>,
    k: usize,
    search: MigrationParityTextSearch,
)
    requires
        call_ensures(
            text_search_evidence,
            (
                &identity,
                &authority,
                &root,
                partition_bytes,
                format_version,
                &pages,
                &hits,
                k,
            ),
            search,
        ),
    ensures
        search.index_id == root.index_id,
        search.generation == root.generation,
        search.generation_id@ == decimal(root.generation as nat),
        search.analyzer@ == authority.definition.analyzer@,
        search.partition_bytes@ == partition_bytes@,
        search.format_version == format_version,
        search.splits@ == pages@.map_values(
            |page: PageManifest|
                page.splits@.map_values(
                    |split: TextSplitRef|
                        MigrationParityTextSplit {
                            sha256: split.blob.sha256,
                            size_bytes: split.blob.size_bytes,
                            footer_offset: split.footer_offset,
                            footer_len: split.footer_len,
                            hotcache_len: split.hotcache_len,
                            total_size_bytes: split.total_size_bytes,
                        },
                ),
        ).flatten(),
        search.hits@.len() == if entities_of(hits@).len() < k {
            entities_of(hits@).len()
        } else {
            k as nat
        },
        forall|i: int|
            0 <= i < search.hits@.len() ==> hits@.contains(
                (TextSearchHit {
                    entity_id: (#[trigger] search.hits@[i]).entity_id,
                    score: search.hits@[i].score_bits,
                }),
            ),
        forall|i: int, n: int|
            #![trigger search.hits@[i], hits@[n]]
            0 <= i < search.hits@.len() && 0 <= n < hits@.len() && search.hits@[i].entity_id
                == hits@[n].entity_id ==> !scores_higher(
                hits@[n].score,
                search.hits@[i].score_bits,
            ),
        forall|i: int, j: int|
            #![trigger search.hits@[i], search.hits@[j]]
            0 <= i < j < search.hits@.len() ==> scores_higher(
                search.hits@[i].score_bits,
                search.hits@[j].score_bits,
            ) || (!scores_higher(search.hits@[j].score_bits, search.hits@[i].score_bits)
                && search.hits@[i].entity_id < search.hits@[j].entity_id),
{
    let best = strongest_hits(hits@, k as nat);
    law_strongest_hits_are_best(hits@, k as nat);
    lemma_all_splits_flat(pages@);
    let lists = pages@.map_values(|page: PageManifest| page_splits(page));
    let stated = pages@.map_values(
        |page: PageManifest|
            page.splits@.map_values(
                |split: TextSplitRef|
                    MigrationParityTextSplit {
                        sha256: split.blob.sha256,
                        size_bytes: split.blob.size_bytes,
                        footer_offset: split.footer_offset,
                        footer_len: split.footer_len,
                        hotcache_len: split.hotcache_len,
                        total_size_bytes: split.total_size_bytes,
                    },
            ),
    );
    assert forall|p: int| 0 <= p < pages@.len() implies lists[p] == stated[p] by {
        assert(lists[p] =~= stated[p]);
    }
    assert(lists =~= stated);
    assert forall|i: int| 0 <= i < search.hits@.len() implies #[trigger] search.hits@[i] == (
    MigrationParityTextHit { entity_id: best[i].entity_id, score_bits: best[i].score }) by {}
    assert forall|i: int| 0 <= i < search.hits@.len() implies hits@.contains(
        (TextSearchHit {
            entity_id: (#[trigger] search.hits@[i]).entity_id,
            score: search.hits@[i].score_bits,
        }),
    ) by {
        assert(hits@.contains(best[i]));
        assert(best[i] == TextSearchHit {
            entity_id: search.hits@[i].entity_id,
            score: search.hits@[i].score_bits,
        });
    }
    assert forall|i: int, n: int|
        #![trigger search.hits@[i], hits@[n]]
        0 <= i < search.hits@.len() && 0 <= n < hits@.len() && search.hits@[i].entity_id
            == hits@[n].entity_id implies !scores_higher(
        hits@[n].score,
        search.hits@[i].score_bits,
    ) by {
        assert(score_value(best[i].score) >= score_value(hits@[n].score));
    }
    assert forall|i: int, j: int|
        #![trigger search.hits@[i], search.hits@[j]]
        0 <= i < j < search.hits@.len() implies scores_higher(
        search.hits@[i].score_bits,
        search.hits@[j].score_bits,
    ) || (!scores_higher(search.hits@[j].score_bits, search.hits@[i].score_bits)
        && search.hits@[i].entity_id < search.hits@[j].entity_id) by {
        assert(best[i].ranked(&best[j]) != Rank::Greater);
        assert(best[i].entity_id != best[j].entity_id);
    }
}

/// Searches are put in the order of the names of their indexes, byte by byte,
/// and none is added or lost.
pub proof fn law_searches_are_ordered_by_name(searches: &mut Vec<MigrationParityTextSearch>)
    requires
        call_ensures(order_text_searches, (searches,), ()),
    ensures
        final(searches)@.to_multiset() == old(searches)@.to_multiset(),
        final(searches)@.len() == old(searches)@.len(),
        forall|i: int, j: int|
            #![trigger final(searches)@[i], final(searches)@[j]]
            0 <= i < j < final(searches)@.len() ==> rank_text(
                final(searches)@[i].physical_index_name@,
                final(searches)@[j].physical_index_name@,
            ) != Rank::Greater,
{
    lemma_sort_ranked(old(searches)@);
    let sorted = final(searches)@;
    assert forall|i: int, j: int|
        #![trigger sorted[i], sorted[j]]
        0 <= i < j < sorted.len() implies rank_text(
        sorted[i].physical_index_name@,
        sorted[j].physical_index_name@,
    ) != Rank::Greater by {
        assert(sorted[i].ranked(&sorted[j]) != Rank::Greater);
    }
}

/// A definition has one search: any other number of them is a corrupt catalog.
pub proof fn law_definitions_have_one_search(
    definition: TextDefinition,
    searches: Vec<MigrationParityTextSearch>,
    single: Result<MigrationParityTextSearch, HelixDbError>,
)
    requires
        call_ensures(single_text_search, (&definition, searches), single),
    ensures
        single is Ok <==> searches@.len() == 1,
        single matches Ok(search) ==> search == searches@[0],
        single matches Err(error) ==> error@ is IndexCatalogCorruption,
{
}

/// The best hits of a search were all found; every entity is among them at most
/// once, better ones come first, and there are at most as many as asked for.
#[verifier::spinoff_prover]
pub proof fn law_best_scores_were_found(
    hits: Vec<TextSearchHit>,
    k: usize,
    best: Vec<MigrationParityTextHit>,
)
    requires
        forall|i: int| 0 <= i < hits@.len() ==> !is_nan((#[trigger] hits@[i]).score),
        call_ensures(best_scores, (&hits, k), best),
    ensures
        best@.len() <= k,
        forall|i: int|
            0 <= i < best@.len() ==> hits@.contains(
                (TextSearchHit {
                    entity_id: (#[trigger] best@[i]).entity_id,
                    score: best@[i].score_bits,
                }),
            ),
        forall|i: int, j: int|
            #![trigger best@[i], best@[j]]
            0 <= i < j < best@.len() ==> best@[i].entity_id != best@[j].entity_id && score_value(
                best@[i].score_bits,
            ) >= score_value(best@[j].score_bits),
{
    let strong = strongest_hits(hits@, k as nat);
    assert(best@.len() == strong.len());
    assert(strong.len() <= k && is_sorted(strong) && distinct_entities(strong)) by {
        law_strongest_hits_are_best(hits@, k as nat);
    }
    assert forall|i: int| 0 <= i < best@.len() implies hits@.contains(
        (TextSearchHit {
            entity_id: (#[trigger] best@[i]).entity_id,
            score: best@[i].score_bits,
        }),
    ) by {
        law_strongest_hits_are_best(hits@, k as nat);
        assert(hits@.contains(strong[i]));
        assert(strong[i] == TextSearchHit {
            entity_id: best@[i].entity_id,
            score: best@[i].score_bits,
        });
    }
    assert forall|i: int, j: int|
        #![trigger best@[i], best@[j]]
        0 <= i < j < best@.len() implies best@[i].entity_id != best@[j].entity_id && score_value(
        best@[i].score_bits,
    ) >= score_value(best@[j].score_bits) by {
        assert(strong[i].entity_id != strong[j].entity_id);
        assert(strong[i].ranked(&strong[j]) != Rank::Greater);
    }
}

/// No hit beats the best hits of a search: an entity that is among them has no
/// better hit, and where an entity is not, there are as many best hits as asked
/// for, all of them at least as good.
#[verifier::spinoff_prover]
pub proof fn law_best_scores_are_not_beaten(
    hits: Vec<TextSearchHit>,
    k: usize,
    best: Vec<MigrationParityTextHit>,
    n: int,
)
    requires
        0 <= n < hits@.len(),
        forall|i: int| 0 <= i < hits@.len() ==> !is_nan((#[trigger] hits@[i]).score),
        call_ensures(best_scores, (&hits, k), best),
    ensures
        forall|i: int|
            0 <= i < best@.len() && (#[trigger] best@[i]).entity_id == hits@[n].entity_id
                ==> score_value(best@[i].score_bits) >= score_value(hits@[n].score),
        (forall|i: int|
            0 <= i < best@.len() ==> (#[trigger] best@[i]).entity_id != hits@[n].entity_id) ==> {
            &&& best@.len() == k
            &&& forall|i: int|
                0 <= i < k ==> score_value((#[trigger] best@[i]).score_bits) >= score_value(
                    hits@[n].score,
                )
        },
{
    let strong = strongest_hits(hits@, k as nat);
    let hit = hits@[n];
    assert(best@.len() == strong.len());
    assert forall|i: int|
        0 <= i < best@.len() && (#[trigger] best@[i]).entity_id
            == hit.entity_id implies score_value(best@[i].score_bits) >= score_value(hit.score) by {
        law_strongest_hits_are_best(hits@, k as nat);
        assert(strong[i].entity_id == hits@[n].entity_id);
    }
    assert(outdone(strong, hit) || (strong.len() == k && forall|i: int|
        0 <= i < k ==> (#[trigger] strong[i]).ranked(&hit) != Rank::Greater)) by {
        law_strongest_hits_are_best(hits@, k as nat);
        assert(hits@[n] == hit);
    }
    if outdone(strong, hit) {
        let i = choose|i: int|
            0 <= i < strong.len() && (#[trigger] strong[i]).entity_id == hit.entity_id;
        assert(best@[i].entity_id == hit.entity_id);
    } else {
        assert forall|i: int| 0 <= i < k implies score_value((#[trigger] best@[i]).score_bits)
            >= score_value(hit.score) by {
            assert(strong[i].ranked(&hit) != Rank::Greater);
        }
    }
}

} // verus!
