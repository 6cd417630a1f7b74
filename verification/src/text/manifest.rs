//! Which splits of a text generation a query searches, and through which view.

use vstd::prelude::*;

use crate::error::{catalog_corruption, invariant_violation, HelixDbError, HelixDbErrorView};
use crate::render::{decimal, decimal_string};
use crate::split_cache::key::TextSplitRef;

verus! {

/// The view that a request reads through.
#[derive(Debug, Clone, Copy, PartialEq, Eq, Structural)]
pub enum ReadSource {
    /// The request's own write transaction.
    Transaction,
    /// The request's stable read view.
    Snapshot,
}

/// The view that a request reads through: its write transaction if it has one,
/// else its read view. A request without either must not read; `escaped` says
/// what it tried to.
pub fn read_source(active_write: bool, request_view: bool, escaped: &str) -> (source: Result<
    ReadSource,
    HelixDbError,
>)
    ensures
        match source {
            Ok(ReadSource::Transaction) => active_write,
            Ok(ReadSource::Snapshot) => !active_write && request_view,
            Err(error) => !active_write && !request_view && error@
                == HelixDbErrorView::InvariantViolation(
                escaped@ + " escaped its request read view"@,
            ),
        },
{
    if active_write {
        Ok(ReadSource::Transaction)
    } else if request_view {
        Ok(ReadSource::Snapshot)
    } else {
        let mut message = escaped.to_owned();
        message.append(" escaped its request read view");
        Err(invariant_violation(message.as_str()))
    }
}

/// Who owns the text rows that a query asks for.
#[derive(Debug, Clone, Copy, PartialEq, Eq, Structural)]
pub enum TextSearchAuthority {
    /// The tenant has no partition of the index.
    AbsentManagedPartition,
    /// A resolved generation.
    Managed,
}

/// The view to load the manifest root through; none is read for an absent
/// partition.
pub fn manifest_root_source(
    authority: TextSearchAuthority,
    active_write: bool,
    request_view: bool,
) -> (source: Result<Option<ReadSource>, HelixDbError>)
    ensures
        match source {
            Ok(None) => authority == TextSearchAuthority::AbsentManagedPartition,
            Ok(Some(ReadSource::Transaction)) => authority == TextSearchAuthority::Managed
                && active_write,
            Ok(Some(ReadSource::Snapshot)) => authority == TextSearchAuthority::Managed
                && !active_write && request_view,
            Err(error) => authority == TextSearchAuthority::Managed && !active_write
                && !request_view && error@ == HelixDbErrorView::InvariantViolation(
                "text manifest root read"@ + " escaped its request read view"@,
            ),
        },
{
    match authority {
        TextSearchAuthority::AbsentManagedPartition => Ok(None),
        TextSearchAuthority::Managed => match read_source(
            active_write,
            request_view,
            "text manifest root read",
        ) {
            Ok(source) => Ok(Some(source)),
            Err(error) => Err(error),
        },
    }
}

/// What the statistics of a query say.
#[derive(Debug, Clone, Copy, PartialEq, Eq, Structural)]
pub enum LoadedTextQueryStatistics {
    /// The query has no term.
    EmptyQuery,
    /// The corpus has no document.
    EmptyCorpus,
    /// There is something to search for.
    Ready,
}

impl LoadedTextQueryStatistics {
    /// Whether the pages of the manifest have to be read.
    pub fn needs_pages(self) -> (needed: bool)
        ensures
            needed == (self == LoadedTextQueryStatistics::Ready),
    {
        match self {
            LoadedTextQueryStatistics::Ready => true,
            _ => false,
        }
    }
}

/// One split of a manifest page.
#[derive(Debug, Clone, Copy, PartialEq, Eq)]
pub struct ManifestSplit {
    pub split: TextSplitRef,
    /// Whether its pruning data leave open that a term of the query matches.
    pub may_match: bool,
}

/// The checked root of a text manifest.
#[derive(Debug, Clone, Copy, PartialEq, Eq, Structural)]
pub struct ManifestRoot {
    pub index_id: u64,
    pub generation: u64,
    pub split_count: u64,
}

/// The splits of one generation that a query searches.
#[derive(Debug)]
pub struct TextGenerationPlan {
    pub name: String,
    pub generation: String,
    pub splits: Vec<TextSplitRef>,
}

/// The number of splits on all pages.
pub open spec fn observed_splits(pages: Seq<Vec<ManifestSplit>>) -> nat
    decreases pages.len(),
{
    if pages.len() == 0 {
        0
    } else {
        observed_splits(pages.drop_last()) + pages.last()@.len()
    }
}

/// The splits of one page that may match.
pub open spec fn matching_on_page(page: Seq<ManifestSplit>) -> Seq<TextSplitRef>
    decreases page.len(),
{
    if page.len() == 0 {
        Seq::empty()
    } else if page.last().may_match {
        matching_on_page(page.drop_last()).push(page.last().split)
    } else {
        matching_on_page(page.drop_last())
    }
}

/// The splits of all pages that may match, in page order.
pub open spec fn matching_splits(pages: Seq<Vec<ManifestSplit>>) -> Seq<TextSplitRef>
    decreases pages.len(),
{
    if pages.len() == 0 {
        Seq::empty()
    } else {
        matching_splits(pages.drop_last()) + matching_on_page(pages.last()@)
    }
}

proof fn lemma_observed_monotone(pages: Seq<Vec<ManifestSplit>>, count: int)
    requires
        0 <= count <= pages.len(),
    ensures
        observed_splits(pages.take(count)) <= observed_splits(pages),
    decreases pages.len(),
{
    if count == pages.len() {
        assert(pages.take(count) =~= pages);
    } else {
        assert(pages.drop_last().take(count) =~= pages.take(count));
        lemma_observed_monotone(pages.drop_last(), count);
    }
}

/// Checks that the pages hold as many splits as their root says.
pub fn check_observed_splits(pages: &Vec<Vec<ManifestSplit>>, split_count: u64) -> (checked: Result<
    (),
    HelixDbError,
>)
    ensures
        match checked {
            Ok(_) => observed_splits(pages@) == split_count,
            Err(error) => {
                &&& observed_splits(pages@) != split_count
                &&& error@ == HelixDbErrorView::IndexCatalogCorruption(
                    if observed_splits(pages@) > u64::MAX {
                        "text manifest observed split count overflowed"@
                    } else if observed_splits(pages@) > split_count {
                        "text manifest pages exceed their root split count"@
                    } else {
                        "text manifest pages disagree with their root split count"@
                    },
                )
            },
        },
{
    let mut total: u64 = 0;
    let mut i: usize = 0;
    while i < pages.len()
        invariant
            i <= pages.len(),
            total == observed_splits(pages@.take(i as int)),
        decreases pages.len() - i,
    {
        proof {
            assert(pages@.take(i as int + 1).drop_last() =~= pages@.take(i as int));
            lemma_observed_monotone(pages@, i as int + 1);
        }
        match total.checked_add(pages[i].len() as u64) {
            Some(sum) => {
                total = sum;
            },
            None => {
                return Err(catalog_corruption("text manifest observed split count overflowed"));
            },
        }
        i = i + 1;
    }
    assert(pages@.take(i as int) =~= pages@);
    if total > split_count {
        return Err(catalog_corruption("text manifest pages exceed their root split count"));
    }
    if total != split_count {
        return Err(catalog_corruption("text manifest pages disagree with their root split count"));
    }
    Ok(())
}

/// The splits to search, or `None` if no split may match.
pub fn plan_manifest_search(root: &ManifestRoot, pages: &Vec<Vec<ManifestSplit>>) -> (plan: Result<
    Option<TextGenerationPlan>,
    HelixDbError,
>)
    ensures
        match plan {
            Ok(None) => observed_splits(pages@) == root.split_count && matching_splits(
                pages@,
            ).len() == 0,
            Ok(Some(plan)) => {
                &&& observed_splits(pages@) == root.split_count
                &&& matching_splits(pages@).len() > 0
                &&& plan.splits@ == matching_splits(pages@)
                &&& plan.name@ == "index-v2-text-"@ + decimal(root.index_id as nat) + "-"@
                    + decimal(root.generation as nat)
                &&& plan.generation@ == decimal(root.generation as nat)
            },
            Err(error) => {
                &&& observed_splits(pages@) != root.split_count
                &&& error@ == HelixDbErrorView::IndexCatalogCorruption(
                    if observed_splits(pages@) > u64::MAX {
                        "text manifest observed split count overflowed"@
                    } else if observed_splits(pages@) > root.split_count {
                        "text manifest pages exceed their root split count"@
                    } else {
                        "text manifest pages disagree with their root split count"@
                    },
                )
            },
        },
{
    match check_observed_splits(pages, root.split_count) {
        Ok(_) => {},
        Err(error) => {
            return Err(error);
        },
    }
    let mut splits: Vec<TextSplitRef> = Vec::new();
    let mut i: usize = 0;
    while i < pages.len()
        invariant
            i <= pages.len(),
            splits@ == matching_splits(pages@.take(i as int)),
        decreases pages.len() - i,
    {
        let page = &pages[i];
        let ghost before = splits@;
        let mut k: usize = 0;
        assert(before + matching_on_page(page@.take(0)) =~= before);
        while k < page.len()
            invariant
                k <= page.len(),
                splits@ == before + matching_on_page(page@.take(k as int)),
            decreases page.len() - k,
        {
            assert(page@.take(k as int + 1).drop_last() =~= page@.take(k as int));
            let ghost shorter = splits@;
            if page[k].may_match {
                splits.push(page[k].split);
                assert(splits@ =~= before + matching_on_page(page@.take(k as int + 1)));
            }
            k = k + 1;
        }
        assert(page@.take(k as int) =~= page@);
        assert(pages@.take(i as int + 1).drop_last() =~= pages@.take(i as int));
        i = i + 1;
    }
    assert(pages@.take(i as int) =~= pages@);
    if splits.len() == 0 {
        return Ok(None);
    }
    let generation = decimal_string(root.generation);
    let index_id = decimal_string(root.index_id);
    let mut name = "index-v2-text-".to_owned();
    name.append(index_id.as_str());
    name.append("-");
    name.append(generation.as_str());
    Ok(Some(TextGenerationPlan { name, generation, splits }))
}

/// A place on the pages: the page, and the place on it.
pub open spec fn is_place(pages: Seq<Vec<ManifestSplit>>, place: (int, int)) -> bool {
    0 <= place.0 < pages.len() && 0 <= place.1 < pages[place.0]@.len()
}

/// Whether one place comes before the other in page order.
pub open spec fn place_precedes(first: (int, int), second: (int, int)) -> bool {
    first.0 < second.0 || (first.0 == second.0 && first.1 < second.1)
}

/// The places are those of the splits that may match, in page order, each once.
pub open spec fn places_of_matches(
    pages: Seq<Vec<ManifestSplit>>,
    places: Seq<(int, int)>,
) -> bool {
    &&& forall|n: int|
        0 <= n < places.len() ==> is_place(pages, #[trigger] places[n])
            && pages[places[n].0]@[places[n].1].may_match
    &&& forall|n: int, m: int|
        #![trigger places[n], places[m]]
        0 <= n < m < places.len() ==> place_precedes(places[n], places[m])
    &&& forall|page: int, at: int|
        #![trigger pages[page]@[at]]
        is_place(pages, (page, at)) && pages[page]@[at].may_match ==> places.contains((page, at))
}

/// The places of the matches on one page, moved to the page's number.
spec fn page_places(page: Seq<ManifestSplit>, number: int) -> Seq<(int, int)>
    decreases page.len(),
{
    if page.len() == 0 {
        Seq::empty()
    } else if page.last().may_match {
        page_places(page.drop_last(), number).push((number, page.len() - 1))
    } else {
        page_places(page.drop_last(), number)
    }
}

proof fn lemma_page_places(page: Seq<ManifestSplit>, number: int)
    ensures
        ({
            let places = page_places(page, number);
            let splits = matching_on_page(page);
            &&& places.len() == splits.len()
            &&& forall|n: int|
                0 <= n < places.len() ==> (#[trigger] places[n]).0 == number && 0 <= places[n].1
                    < page.len() && page[places[n].1].may_match && splits[n]
                    == page[places[n].1].split
            &&& forall|n: int, m: int|
                #![trigger places[n], places[m]]
                0 <= n < m < places.len() ==> places[n].1 < places[m].1
            &&& forall|at: int|
                0 <= at < page.len() && (#[trigger] page[at]).may_match ==> places.contains(
                    (number, at),
                )
        }),
    decreases page.len(),
{
    if page.len() > 0 {
        let front = page.drop_last();
        lemma_page_places(front, number);
        let before = page_places(front, number);
        let places = page_places(page, number);
        assert forall|n: int| 0 <= n < places.len() implies (#[trigger] places[n]).0 == number && 0
            <= places[n].1 < page.len() && page[places[n].1].may_match && matching_on_page(page)[n]
            == page[places[n].1].split by {
            if n < before.len() {
                assert(places[n] == before[n]);
                assert(front[before[n].1] == page[before[n].1]);
            }
        }
        assert forall|n: int, m: int|
            #![trigger places[n], places[m]]
            0 <= n < m < places.len() implies places[n].1 < places[m].1 by {
            assert(places[n] == before[n]);
            if m < before.len() {
                assert(places[m] == before[m]);
            }
        }
        assert forall|at: int| 0 <= at < page.len() && (
        #[trigger] page[at]).may_match implies places.contains((number, at)) by {
            if at < front.len() {
                assert(front[at] == page[at]);
                let n = choose|n: int| 0 <= n < before.len() && before[n] == (number, at);
                assert(places[n] == (number, at));
            } else {
                assert(places[places.len() - 1] == (number, at));
            }
        }
    }
}

/// The places of the matches on all pages.
spec fn all_places(pages: Seq<Vec<ManifestSplit>>) -> Seq<(int, int)>
    decreases pages.len(),
{
    if pages.len() == 0 {
        Seq::empty()
    } else {
        all_places(pages.drop_last()) + page_places(pages.last()@, pages.len() - 1)
    }
}

proof fn lemma_all_places(pages: Seq<Vec<ManifestSplit>>)
    ensures
        places_of_matches(pages, all_places(pages)),
        all_places(pages).len() == matching_splits(pages).len(),
        forall|n: int|
            0 <= n < all_places(pages).len() ==> matching_splits(pages)[n]
                == pages[(#[trigger] all_places(pages)[n]).0]@[all_places(pages)[n].1].split,
    decreases pages.len(),
{
    if pages.len() > 0 {
        let front = pages.drop_last();
        let number = pages.len() - 1;
        let page = pages.last()@;
        lemma_all_places(front);
        lemma_page_places(page, number);
        let before = all_places(front);
        let here = page_places(page, number);
        let places = all_places(pages);
        assert forall|n: int| 0 <= n < places.len() implies is_place(pages, #[trigger] places[n])
            && pages[places[n].0]@[places[n].1].may_match && matching_splits(pages)[n]
            == pages[places[n].0]@[places[n].1].split by {
            if n < before.len() {
                assert(places[n] == before[n]);
                assert(front[before[n].0] == pages[before[n].0]);
            } else {
                assert(places[n] == here[n - before.len()]);
            }
        }
        assert forall|n: int, m: int|
            #![trigger places[n], places[m]]
            0 <= n < m < places.len() implies place_precedes(places[n], places[m]) by {
            if m < before.len() {
                assert(places[n] == before[n] && places[m] == before[m]);
            } else {
                assert(places[m] == here[m - before.len()]);
                if n < before.len() {
                    assert(places[n] == before[n]);
                } else {
                    assert(places[n] == here[n - before.len()]);
                }
            }
        }
        assert forall|at_page: int, at: int|
            #![trigger pages[at_page]@[at]]
            is_place(pages, (at_page, at))
                && pages[at_page]@[at].may_match implies places.contains((at_page, at)) by {
            if at_page < number {
                assert(front[at_page] == pages[at_page]);
                assert(front[at_page]@[at].may_match);
                let n = choose|n: int| 0 <= n < before.len() && before[n] == (at_page, at);
                assert(places[n] == (at_page, at));
            } else {
                assert(page[at].may_match);
                let n = choose|n: int| 0 <= n < here.len() && here[n] == (number, at);
                assert(places[before.len() + n] == (at_page, at));
            }
        }
    }
}

/// The splits on all pages, one after the other.
pub open spec fn listed_splits(pages: Seq<Vec<ManifestSplit>>) -> Seq<ManifestSplit> {
    pages.map_values(|page: Vec<ManifestSplit>| page@).flatten()
}

proof fn lemma_observed_is_listed(pages: Seq<Vec<ManifestSplit>>)
    ensures
        observed_splits(pages) == listed_splits(pages).len(),
    decreases pages.len(),
{
    let lists = pages.map_values(|page: Vec<ManifestSplit>| page@);
    if pages.len() > 0 {
        lemma_observed_is_listed(pages.drop_last());
        assert(pages.drop_last().map_values(|page: Vec<ManifestSplit>| page@) =~= lists.drop_last());
        lists.lemma_flatten_and_flatten_alt_are_equivalent();
        lists.drop_last().lemma_flatten_and_flatten_alt_are_equivalent();
    } else {
        assert(lists.len() == 0);
    }
}

/// A query is planned for exactly the splits whose pruning data leave a match
/// open: each such split of the pages is searched, in page order and once for
/// each place, and no other split is.
pub proof fn law_exactly_the_matching_splits_are_planned(
    root: ManifestRoot,
    pages: Vec<Vec<ManifestSplit>>,
    planned: Result<Option<TextGenerationPlan>, HelixDbError>,
)
    requires
        call_ensures(plan_manifest_search, (&root, &pages), planned),
        planned matches Ok(Some(_)),
    ensures
        ({
            let splits = planned->Ok_0->Some_0.splits@;
            &&& splits.len() > 0
            &&& forall|page: int, at: int|
                #![trigger pages@[page]@[at]]
                is_place(pages@, (page, at)) && pages@[page]@[at].may_match ==> splits.contains(
                    pages@[page]@[at].split,
                )
            &&& exists|places: Seq<(int, int)>| #[trigger]
                places_of_matches(pages@, places) && splits.len() == places.len() && forall|n: int|
                    0 <= n < splits.len() ==> #[trigger] splits[n]
                        == pages@[places[n].0]@[places[n].1].split
        }),
{
    let splits = planned->Ok_0->Some_0.splits@;
    let places = all_places(pages@);
    lemma_all_places(pages@);
    assert forall|n: int| 0 <= n < splits.len() implies #[trigger] splits[n]
        == pages@[places[n].0]@[places[n].1].split by {
        let place = places[n];
    }
    assert forall|page: int, at: int|
        #![trigger pages@[page]@[at]]
        is_place(pages@, (page, at)) && pages@[page]@[at].may_match implies splits.contains(
        pages@[page]@[at].split,
    ) by {
        let n = choose|n: int| 0 <= n < places.len() && places[n] == (page, at);
        assert(splits[n] == pages@[page]@[at].split);
    }
}

/// Nothing is planned only where no split of the pages may match.
pub proof fn law_nothing_is_planned_without_a_match(
    root: ManifestRoot,
    pages: Vec<Vec<ManifestSplit>>,
    planned: Result<Option<TextGenerationPlan>, HelixDbError>,
)
    requires
        call_ensures(plan_manifest_search, (&root, &pages), planned),
        planned matches Ok(None),
    ensures
        forall|page: int, at: int|
            #![trigger pages@[page]@[at]]
            is_place(pages@, (page, at)) ==> !pages@[page]@[at].may_match,
{
    lemma_all_places(pages@);
    assert forall|page: int, at: int|
        #![trigger pages@[page]@[at]]
        is_place(pages@, (page, at)) implies !pages@[page]@[at].may_match by {
        if pages@[page]@[at].may_match {
            assert(all_places(pages@).contains((page, at)));
        }
    }
}

/// A search is refused exactly where the pages do not list as many splits as
/// their root says, whether or not the splits may match, and then as a
/// corrupt catalog.
pub proof fn law_pages_answer_to_their_root(
    root: ManifestRoot,
    pages: Vec<Vec<ManifestSplit>>,
    planned: Result<Option<TextGenerationPlan>, HelixDbError>,
    checked: Result<(), HelixDbError>,
)
    requires
        call_ensures(plan_manifest_search, (&root, &pages), planned),
        call_ensures(check_observed_splits, (&pages, root.split_count), checked),
    ensures
        planned is Ok <==> listed_splits(pages@).len() == root.split_count,
        checked is Ok <==> planned is Ok,
        planned matches Err(error) ==> {
            &&& error@ is IndexCatalogCorruption
            &&& checked matches Err(refused) && refused@ == error@
            &&& error@.text() == "text manifest pages exceed their root split count"@
                <==> root.split_count < listed_splits(pages@).len() <= u64::MAX
            &&& error@.text() == "text manifest pages disagree with their root split count"@
                <==> listed_splits(pages@).len() < root.split_count
        },
{
    lemma_observed_is_listed(pages@);
    reveal_strlit("text manifest pages exceed their root split count");
    reveal_strlit("text manifest pages disagree with their root split count");
    reveal_strlit("text manifest observed split count overflowed");
    assert("text manifest pages exceed their root split count"@.len() == 49);
    assert("text manifest pages disagree with their root split count"@.len() == 56);
    assert("text manifest observed split count overflowed"@.len() == 45);
}

/// A plan is named after its index and, at the end, after its generation, and
/// plans of other generations have other names.
pub proof fn law_plans_are_named_after_their_generation(
    root: ManifestRoot,
    pages: Vec<Vec<ManifestSplit>>,
    planned: Result<Option<TextGenerationPlan>, HelixDbError>,
)
    requires
        call_ensures(plan_manifest_search, (&root, &pages), planned),
        planned matches Ok(Some(_)),
    ensures
        ({
            let plan = planned->Ok_0->Some_0;
            let name = plan.name@;
            let end = "-"@ + decimal(root.generation as nat);
            &&& plan.generation@ == decimal(root.generation as nat)
            &&& end.len() <= name.len()
            &&& name.skip(name.len() - end.len()) == end
            &&& name.take(name.len() - end.len()) == "index-v2-text-"@ + decimal(
                root.index_id as nat,
            )
        }),
{
    let name = planned->Ok_0->Some_0.name@;
    let start = "index-v2-text-"@ + decimal(root.index_id as nat);
    let end = "-"@ + decimal(root.generation as nat);
    assert(name =~= start + end);
    assert(name.skip(name.len() - end.len()) =~= end);
    assert(name.take(name.len() - end.len()) =~= start);
}

/// A request reads through its write transaction exactly if it has one, so that
/// it sees its own writes; through its read view only without one; and it must
/// not read at all only if it has neither.
pub proof fn law_requests_read_their_own_writes(
    active_write: bool,
    request_view: bool,
    escaped: &str,
    source: Result<ReadSource, HelixDbError>,
    root_source: Result<Option<ReadSource>, HelixDbError>,
)
    requires
        call_ensures(read_source, (active_write, request_view, escaped), source),
        call_ensures(
            manifest_root_source,
            (TextSearchAuthority::Managed, active_write, request_view),
            root_source,
        ),
    ensures
        source == Result::<ReadSource, HelixDbError>::Ok(ReadSource::Transaction) <==> active_write,
        source == Result::<ReadSource, HelixDbError>::Ok(ReadSource::Snapshot) <==> !active_write
            && request_view,
        root_source == Result::<Option<ReadSource>, HelixDbError>::Ok(Some(ReadSource::Transaction))
            <==> active_write,
        root_source == Result::<Option<ReadSource>, HelixDbError>::Ok(Some(ReadSource::Snapshot))
            <==> !active_write && request_view,
        source is Err <==> !active_write && !request_view,
        root_source is Err <==> !active_write && !request_view,
        source matches Err(error) ==> error@ is InvariantViolation,
        root_source matches Err(error) ==> error@ is InvariantViolation,
{
}

/// For a tenant without a partition nothing is read, whatever the request reads
/// through.
pub proof fn law_absent_partitions_are_not_read(
    active_write: bool,
    request_view: bool,
    source: Result<Option<ReadSource>, HelixDbError>,
)
    requires
        call_ensures(
            manifest_root_source,
            (TextSearchAuthority::AbsentManagedPartition, active_write, request_view),
            source,
        ),
    ensures
        source == Result::<Option<ReadSource>, HelixDbError>::Ok(None),
{
}

/// Pages are read if and only if the statistics are ready.
pub proof fn law_ready_statistics_need_pages(
    statistics: LoadedTextQueryStatistics,
    needed: bool,
)
    requires
        call_ensures(LoadedTextQueryStatistics::needs_pages, (statistics,), needed),
    ensures
        needed <==> statistics is Ready,
{
}

} // verus!
