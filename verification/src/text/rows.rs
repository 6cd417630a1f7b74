//! Traversal-scoped ranking while preserving upstream rows.

use vstd::prelude::*;

use crate::assoc::AssocMap;
use crate::bitmap::lemma_ids_finite;
use crate::error::{invariant_violation, query_error, HelixDbError, HelixDbErrorView};
use crate::index_names::TextElementType;
use crate::property::PropertyValue;
use crate::text::restricted::{
    too_many_candidates, RestrictedTextCandidates, RestrictedTextCandidatesBuilder,
    MAX_RESTRICTED_CANDIDATES,
};
use crate::text_map::TextMap;

verus! {

/// A graph element.
#[derive(Debug, Clone, Copy, PartialEq, Eq, Structural)]
pub enum ElementRef {
    Node(u64),
    Edge(u64),
}

/// One row of a traversal.
#[derive(Debug)]
pub struct ExecutionRow {
    /// The element that the row stands on.
    pub current: Option<ElementRef>,
    pub virtual_properties: TextMap<PropertyValue>,
    pub bindings: TextMap<ElementRef>,
    pub path: Vec<ElementRef>,
    pub path_visible: bool,
    pub sack: Option<PropertyValue>,
    pub sack_visible: bool,
}

impl ExecutionRow {
    /// A row that stands on an element and carries nothing else.
    pub fn current(element: ElementRef) -> (row: Self)
        ensures
            row.current == Some(element),
            row.virtual_properties@ == Map::<Seq<char>, PropertyValue>::empty(),
            row.bindings@ == Map::<Seq<char>, ElementRef>::empty(),
            row.path@.len() == 0,
            !row.path_visible,
            row.sack is None,
            !row.sack_visible,
    {
        ExecutionRow {
            current: Some(element),
            virtual_properties: TextMap::new(),
            bindings: TextMap::new(),
            path: Vec::new(),
            path_visible: false,
            sack: None,
            sack_visible: false,
        }
    }
}

/// What flows between the steps of a traversal.
#[derive(Debug)]
pub enum ExecutionValue {
    /// Rows that stand on elements.
    Stream(Vec<ExecutionRow>),
    /// A single value.
    Value(PropertyValue),
}

/// The rows to search among.
pub fn restricted_search_rows(input: ExecutionValue) -> (rows: Result<
    Vec<ExecutionRow>,
    HelixDbError,
>)
    ensures
        match (input, rows) {
            (ExecutionValue::Stream(stream), Ok(rows)) => rows == stream,
            (ExecutionValue::Value(_), Err(error)) => error@ == HelixDbErrorView::Query(
                "text_search expected an element stream input"@,
            ),
            _ => false,
        },
{
    match input {
        ExecutionValue::Stream(rows) => Ok(rows),
        ExecutionValue::Value(_) => Err(
            query_error("text_search expected an element stream input"),
        ),
    }
}

/// The identifier that a row is searched by, or why it cannot be.
pub open spec fn row_entity(row: ExecutionRow, element_type: TextElementType) -> Result<
    u64,
    HelixDbErrorView,
> {
    match (row.current, element_type) {
        (None, _) => Err(
            HelixDbErrorView::Query("text_search expected rows with a current graph element"@),
        ),
        (Some(ElementRef::Node(id)), TextElementType::Node) => Ok(id),
        (Some(ElementRef::Edge(id)), TextElementType::Edge) => Ok(id),
        _ => Err(
            HelixDbErrorView::Query("text_search index kind does not match the input stream"@),
        ),
    }
}

/// The rows by identifier after all of `rows` have been taken in order, each
/// identifier with its first row; or the first error. `known` and `limit` are
/// those of the candidates at the start.
pub open spec fn rows_by_entity(
    rows: Seq<ExecutionRow>,
    element_type: TextElementType,
    known: Set<u64>,
    limit: u64,
) -> Result<Map<u64, ExecutionRow>, HelixDbErrorView>
    decreases rows.len(),
{
    if rows.len() == 0 {
        Ok(Map::empty())
    } else {
        match rows_by_entity(rows.drop_last(), element_type, known, limit) {
            Err(error) => Err(error),
            Ok(taken) => match row_entity(rows.last(), element_type) {
                Err(error) => Err(error),
                Ok(id) => if known.union(taken.dom()).contains(id) {
                    Ok(taken)
                } else if known.union(taken.dom()).len() >= limit {
                    Err(too_many_candidates(limit))
                } else {
                    Ok(taken.insert(id, rows.last()))
                },
            },
        }
    }
}

/// An error stays, whatever rows follow.
proof fn lemma_rows_error_stays(
    rows: Seq<ExecutionRow>,
    element_type: TextElementType,
    known: Set<u64>,
    limit: u64,
    count: int,
)
    requires
        0 <= count <= rows.len(),
        rows_by_entity(rows.take(count), element_type, known, limit) is Err,
    ensures
        rows_by_entity(rows, element_type, known, limit) == rows_by_entity(
            rows.take(count),
            element_type,
            known,
            limit,
        ),
    decreases rows.len(),
{
    if count == rows.len() {
        assert(rows.take(count) =~= rows);
    } else {
        assert(rows.drop_last().take(count) =~= rows.take(count));
        lemma_rows_error_stays(rows.drop_last(), element_type, known, limit, count);
    }
}

/// Unique rows and the exact candidates that they make.
#[derive(Debug)]
pub struct RestrictedTextRows {
    pub rows_by_id: AssocMap<u64, ExecutionRow>,
    pub candidates: RestrictedTextCandidates,
}

fn entity_of_row(row: &ExecutionRow, element_type: TextElementType) -> (id: Result<
    u64,
    HelixDbError,
>)
    ensures
        match id {
            Ok(id) => row_entity(*row, element_type) == Ok::<u64, HelixDbErrorView>(id),
            Err(error) => row_entity(*row, element_type) == Err::<u64, HelixDbErrorView>(error@),
        },
{
    match (&row.current, element_type) {
        (None, _) => Err(query_error("text_search expected rows with a current graph element")),
        (Some(ElementRef::Node(id)), TextElementType::Node) => Ok(*id),
        (Some(ElementRef::Edge(id)), TextElementType::Edge) => Ok(*id),
        _ => Err(query_error("text_search index kind does not match the input stream")),
    }
}

/// Collects the rows by identifier, each identifier with its first row, and
/// the identifiers as candidates.
pub fn unique_restricted_rows(
    rows: Vec<ExecutionRow>,
    element_type: TextElementType,
    candidates: RestrictedTextCandidatesBuilder,
) -> (unique: Result<RestrictedTextRows, HelixDbError>)
    ensures
        match unique {
            Ok(unique) => {
                &&& rows_by_entity(rows@, element_type, candidates@, candidates.spec_limit())
                    == Ok::<_, HelixDbErrorView>(unique.rows_by_id@)
                &&& unique.candidates@ == candidates@.union(unique.rows_by_id@.dom())
            },
            Err(error) => rows_by_entity(
                rows@,
                element_type,
                candidates@,
                candidates.spec_limit(),
            ) == Err::<Map<u64, ExecutionRow>, _>(error@),
        },
{
    let ghost all = rows@;
    let ghost known = candidates@;
    let ghost limit = candidates.spec_limit();
    let mut builder = candidates;
    let mut rows_by_id: AssocMap<u64, ExecutionRow> = AssocMap::new();
    proof {
        assert(all.take(0) =~= Seq::<ExecutionRow>::empty());
        assert(known.union(rows_by_id@.dom()) =~= known);
    }
    for row in taken: rows.into_iter()
        invariant
            taken.seq() == all,
            all == rows@,
            known == candidates@,
            limit == candidates.spec_limit(),
            rows_by_entity(all.take(taken.index() as int), element_type, known, limit) == Ok::<
                _,
                HelixDbErrorView,
            >(rows_by_id@),
            builder@ == known.union(rows_by_id@.dom()),
            builder.spec_limit() == limit,
    {
        let ghost done = taken.index() as int;
        proof {
            assert(row == all[done]);
            assert(all.take(done + 1).drop_last() =~= all.take(done));
            assert(all.take(done + 1).last() == row);
        }
        let id = match entity_of_row(&row, element_type) {
            Ok(id) => id,
            Err(error) => {
                proof {
                    lemma_rows_error_stays(all, element_type, known, limit, done + 1);
                }
                return Err(error);
            },
        };
        match builder.try_insert(id) {
            Ok(true) => {
                let ghost before = rows_by_id@;
                rows_by_id.insert(id, row);
                assert(known.union(rows_by_id@.dom()) =~= known.union(before.dom()).insert(id));
            },
            Ok(false) => {
                assert(builder@ =~= known.union(rows_by_id@.dom()));
            },
            Err(error) => {
                proof {
                    lemma_rows_error_stays(all, element_type, known, limit, done + 1);
                }
                return Err(error);
            },
        }
    }
    assert(all.take(all.len() as int) =~= all);
    Ok(RestrictedTextRows { rows_by_id, candidates: builder.finish() })
}

/// What a restricted search starts with.
#[derive(Debug)]
pub enum RestrictedSearch {
    /// There is no row to search among: the result is an empty stream.
    Nothing,
    /// The rows and the candidates that they make.
    Search(RestrictedTextRows),
}

/// Checks the input of a restricted search and collects its unique rows.
pub fn begin_restricted_search(
    input: ExecutionValue,
    element_type: TextElementType,
) -> (begun: Result<RestrictedSearch, HelixDbError>)
    ensures
        match (input, begun) {
            (ExecutionValue::Value(_), Err(error)) => error@ == HelixDbErrorView::Query(
                "text_search expected an element stream input"@,
            ),
            (ExecutionValue::Value(_), Ok(_)) => false,
            (ExecutionValue::Stream(rows), Ok(RestrictedSearch::Nothing)) => rows@.len() == 0,
            (ExecutionValue::Stream(rows), Ok(RestrictedSearch::Search(unique))) => {
                &&& rows@.len() > 0
                &&& rows_by_entity(
                    rows@,
                    element_type,
                    Set::empty(),
                    MAX_RESTRICTED_CANDIDATES,
                ) == Ok::<_, HelixDbErrorView>(unique.rows_by_id@)
                &&& unique.candidates@ == unique.rows_by_id@.dom()
            },
            (ExecutionValue::Stream(rows), Err(error)) => rows_by_entity(
                rows@,
                element_type,
                Set::empty(),
                MAX_RESTRICTED_CANDIDATES,
            ) == Err::<Map<u64, ExecutionRow>, _>(error@),
        },
{
    let rows = match restricted_search_rows(input) {
        Ok(rows) => rows,
        Err(error) => {
            return Err(error);
        },
    };
    if rows.len() == 0 {
        return Ok(RestrictedSearch::Nothing);
    }
    match unique_restricted_rows(rows, element_type, RestrictedTextCandidatesBuilder::new()) {
        Ok(unique) => {
            assert(Set::<u64>::empty().union(unique.rows_by_id@.dom())
                =~= unique.rows_by_id@.dom());
            Ok(RestrictedSearch::Search(unique))
        },
        Err(error) => Err(error),
    }
}

/// Every retained row is the first of its element, and every element of the
/// stream has one.
pub proof fn law_first_rows_are_retained(
    rows: Seq<ExecutionRow>,
    element_type: TextElementType,
    limit: u64,
    at: int,
)
    requires
        rows_by_entity(rows, element_type, Set::empty(), limit) is Ok,
        0 <= at < rows.len(),
    ensures
        ({
            let taken = rows_by_entity(rows, element_type, Set::empty(), limit)->Ok_0;
            let id = row_entity(rows[at], element_type);
            &&& id is Ok
            &&& taken.dom().contains(id->Ok_0)
            &&& (forall|k: int|
                0 <= k < at ==> row_entity(#[trigger] rows[k], element_type) != id) ==> taken[id->Ok_0]
                == rows[at]
        }),
    decreases rows.len(),
{
    let front = rows.drop_last();
    let before = rows_by_entity(front, element_type, Set::empty(), limit)->Ok_0;
    let taken = rows_by_entity(rows, element_type, Set::empty(), limit)->Ok_0;
    let id = row_entity(rows[at], element_type);
    assert(Set::<u64>::empty().union(before.dom()) =~= before.dom());
    if at < front.len() {
        law_first_rows_are_retained(front, element_type, limit, at);
        assert(front[at] == rows[at]);
        if forall|k: int| 0 <= k < at ==> row_entity(#[trigger] rows[k], element_type) != id {
            assert forall|k: int| 0 <= k < at implies row_entity(#[trigger] front[k], element_type)
                != id by {
                assert(front[k] == rows[k]);
            }
        }
    } else {
        if before.dom().contains(id->Ok_0) {
            lemma_taken_rows_come_from_stream(front, element_type, limit, id->Ok_0);
            let k = choose|k: int|
                0 <= k < front.len() && row_entity(#[trigger] front[k], element_type) == id;
            assert(rows[k] == front[k]);
        }
    }
}

proof fn lemma_taken_rows_come_from_stream(
    rows: Seq<ExecutionRow>,
    element_type: TextElementType,
    limit: u64,
    id: u64,
)
    requires
        rows_by_entity(rows, element_type, Set::empty(), limit) is Ok,
        rows_by_entity(rows, element_type, Set::empty(), limit)->Ok_0.dom().contains(id),
    ensures
        exists|k: int|
            0 <= k < rows.len() && row_entity(#[trigger] rows[k], element_type) == Ok::<
                u64,
                HelixDbErrorView,
            >(id),
    decreases rows.len(),
{
    if rows.len() > 0 {
        let front = rows.drop_last();
        let before = rows_by_entity(front, element_type, Set::empty(), limit)->Ok_0;
        if before.dom().contains(id) {
            lemma_taken_rows_come_from_stream(front, element_type, limit, id);
            let k = choose|k: int|
                0 <= k < front.len() && row_entity(#[trigger] front[k], element_type) == Ok::<
                    u64,
                    HelixDbErrorView,
                >(id);
            assert(rows[k] == front[k]);
        } else {
            assert(row_entity(rows[rows.len() - 1], element_type) == Ok::<u64, HelixDbErrorView>(
                id,
            ));
        }
    }
}

/// A result of a restricted search, with its score widened to a double.
#[derive(Debug, Clone, Copy, PartialEq, Eq, Structural)]
pub struct RestrictedHit {
    pub entity_id: u64,
    /// Bits of the score as a double.
    pub score: u64,
}

/// Whether the results ask only for rows that are there, and for each at most
/// once.
pub open spec fn results_fit_rows(
    rows: Map<u64, ExecutionRow>,
    results: Seq<RestrictedHit>,
) -> bool {
    &&& forall|i: int|
        0 <= i < results.len() ==> rows.dom().contains((#[trigger] results[i]).entity_id)
    &&& forall|i: int, j: int|
        #![trigger results[i], results[j]]
        0 <= i < j < results.len() ==> results[i].entity_id != results[j].entity_id
}

/// Whether `ranked` is the row with its score set and everything else kept.
pub open spec fn is_scored_row(row: ExecutionRow, score: u64, ranked: ExecutionRow) -> bool {
    &&& ranked.virtual_properties@ == row.virtual_properties@.insert(
        "$score"@,
        PropertyValue::F64(score),
    )
    &&& ranked.current == row.current
    &&& ranked.bindings == row.bindings
    &&& ranked.path == row.path
    &&& ranked.path_visible == row.path_visible
    &&& ranked.sack == row.sack
    &&& ranked.sack_visible == row.sack_visible
}

/// The rows of the results, in the order of the results, each with its score
/// as the virtual property `$score`.
pub fn materialize_restricted_results(
    rows_by_id: AssocMap<u64, ExecutionRow>,
    results: &Vec<RestrictedHit>,
) -> (materialized: Result<Vec<ExecutionRow>, HelixDbError>)
    ensures
        match materialized {
            Ok(ranked) => {
                &&& results_fit_rows(rows_by_id@, results@)
                &&& ranked@.len() == results@.len()
                &&& forall|i: int|
                    0 <= i < results@.len() ==> is_scored_row(
                        rows_by_id@[results@[i].entity_id],
                        results@[i].score,
                        #[trigger] ranked@[i],
                    )
            },
            Err(error) => {
                &&& !results_fit_rows(rows_by_id@, results@)
                &&& error@ == HelixDbErrorView::InvariantViolation(
                    "restricted text search returned an ID outside its exact bitmap"@,
                )
            },
        },
{
    let ghost all = rows_by_id@;
    let mut remaining = rows_by_id;
    let mut ranked: Vec<ExecutionRow> = Vec::new();
    let mut i: usize = 0;
    while i < results.len()
        invariant
            i <= results.len(),
            all == rows_by_id@,
            ranked@.len() == i,
            forall|k: int|
                0 <= k < i ==> is_scored_row(
                    all[results@[k].entity_id],
                    results@[k].score,
                    #[trigger] ranked@[k],
                ),
            forall|k: int| 0 <= k < i ==> all.dom().contains((#[trigger] results@[k]).entity_id),
            forall|k: int, n: int|
                #![trigger results@[k], results@[n]]
                0 <= k < n < i ==> results@[k].entity_id != results@[n].entity_id,
            forall|id: u64| #[trigger]
                remaining@.dom().contains(id) <==> all.dom().contains(id) && forall|k: int|
                    0 <= k < i ==> (#[trigger] results@[k]).entity_id != id,
            forall|id: u64| remaining@.dom().contains(id) ==> #[trigger] remaining@[id] == all[id],
        decreases results.len() - i,
    {
        let hit = results[i];
        let mut row = match remaining.take(&hit.entity_id) {
            Some(row) => row,
            None => {
                proof {
                    if all.dom().contains(hit.entity_id) {
                        let k = choose|k: int|
                            0 <= k < i && (#[trigger] results@[k]).entity_id == hit.entity_id;
                        assert(results@[k].entity_id == results@[i as int].entity_id);
                    } else {
                        assert(!all.dom().contains(results@[i as int].entity_id));
                    }
                }
                return Err(
                    invariant_violation(
                        "restricted text search returned an ID outside its exact bitmap",
                    ),
                );
            },
        };
        let ghost before = row;
        row.virtual_properties.insert("$score".to_owned(), PropertyValue::F64(hit.score));
        assert(is_scored_row(before, hit.score, row));
        ranked.push(row);
        i = i + 1;
    }
    Ok(ranked)
}

/// The element of a row has the kind of the index, and the identifier.
pub open spec fn stands_on(row: ExecutionRow, element_type: TextElementType, id: u64) -> bool {
    row.current == Some(
        match element_type {
            TextElementType::Node => ElementRef::Node(id),
            TextElementType::Edge => ElementRef::Edge(id),
        },
    )
}

/// Whether the row stands on an element of the kind of the index.
pub open spec fn is_searchable(row: ExecutionRow, element_type: TextElementType) -> bool {
    exists|id: u64| stands_on(row, element_type, id)
}

/// The identifiers of the elements that the rows stand on.
pub open spec fn searched_ids(rows: Seq<ExecutionRow>, element_type: TextElementType) -> Set<u64> {
    Set::new(
        |id: u64|
            exists|i: int| 0 <= i < rows.len() && stands_on(#[trigger] rows[i], element_type, id),
    )
}

proof fn lemma_row_entity(row: ExecutionRow, element_type: TextElementType)
    ensures
        row_entity(row, element_type) matches Ok(id) ==> stands_on(row, element_type, id),
        forall|id: u64| #[trigger]
            stands_on(row, element_type, id) ==> row_entity(row, element_type) == Ok::<
                u64,
                HelixDbErrorView,
            >(id),
        row_entity(row, element_type) is Err <==> !is_searchable(row, element_type),
        row_entity(row, element_type) matches Err(error) ==> error is Query,
{
    if row_entity(row, element_type) is Ok {
        assert(stands_on(row, element_type, row_entity(row, element_type)->Ok_0));
    }
}

proof fn lemma_rows_by_entity(rows: Seq<ExecutionRow>, element_type: TextElementType, limit: u64)
    ensures
        ({
            let taken = rows_by_entity(rows, element_type, Set::empty(), limit);
            &&& taken is Ok ==> taken->Ok_0.dom() == searched_ids(rows, element_type)
            &&& taken is Ok ==> searched_ids(rows, element_type).len() <= limit
            &&& taken is Ok ==> forall|i: int|
                0 <= i < rows.len() ==> is_searchable(#[trigger] rows[i], element_type)
            &&& (forall|i: int|
                0 <= i < rows.len() ==> is_searchable(#[trigger] rows[i], element_type))
                && searched_ids(rows, element_type).len() <= limit ==> taken is Ok
            &&& taken matches Err(error) ==> error is Query
        }),
    decreases rows.len(),
{
    let taken = rows_by_entity(rows, element_type, Set::empty(), limit);
    lemma_ids_finite(searched_ids(rows, element_type));
    if rows.len() == 0 {
        assert(searched_ids(rows, element_type) =~= Set::<u64>::empty());
        assert(taken->Ok_0.dom() =~= Set::<u64>::empty());
    } else {
        let front = rows.drop_last();
        let last = rows.last();
        lemma_rows_by_entity(front, element_type, limit);
        lemma_row_entity(last, element_type);
        lemma_ids_finite(searched_ids(front, element_type));
        let before = rows_by_entity(front, element_type, Set::empty(), limit);
        assert forall|id: u64| #[trigger] searched_ids(rows, element_type).contains(id)
            <==> searched_ids(front, element_type).contains(id) || stands_on(
            last,
            element_type,
            id,
        ) by {
            if searched_ids(rows, element_type).contains(id) {
                let i = choose|i: int|
                    0 <= i < rows.len() && stands_on(#[trigger] rows[i], element_type, id);
                if i < front.len() {
                    assert(front[i] == rows[i]);
                }
            }
            if searched_ids(front, element_type).contains(id) {
                let i = choose|i: int|
                    0 <= i < front.len() && stands_on(#[trigger] front[i], element_type, id);
                assert(rows[i] == front[i]);
            }
            if stands_on(last, element_type, id) {
                assert(rows[rows.len() - 1] == last);
            }
        }
        assert(searched_ids(front, element_type).subset_of(searched_ids(rows, element_type)));
        vstd::set_lib::lemma_len_subset(
            searched_ids(front, element_type),
            searched_ids(rows, element_type),
        );
        if before is Ok {
            assert(Set::<u64>::empty().union(before->Ok_0.dom()) =~= before->Ok_0.dom());
            if is_searchable(last, element_type) {
                let id = row_entity(last, element_type)->Ok_0;
                assert(searched_ids(rows, element_type) =~= searched_ids(
                    front,
                    element_type,
                ).insert(id));
            }
        }
        if taken is Ok {
            assert(taken->Ok_0.dom() =~= searched_ids(rows, element_type));
            assert forall|i: int| 0 <= i < rows.len() implies is_searchable(
                #[trigger] rows[i],
                element_type,
            ) by {
                if i < front.len() {
                    assert(front[i] == rows[i]);
                }
            }
        }
        if forall|i: int|
            0 <= i < rows.len() ==> is_searchable(#[trigger] rows[i], element_type) {
            assert forall|i: int| 0 <= i < front.len() implies is_searchable(
                #[trigger] front[i],
                element_type,
            ) by {
                assert(rows[i] == front[i]);
            }
            assert(is_searchable(rows[rows.len() - 1], element_type));
        }
    }
}

/// A restricted search begins with exactly the elements of the stream: every
/// row has to stand on one of the index's kind, at most a million of them may be
/// different, and each is kept with its first row. A stream without rows is not
/// searched, and a value that is no stream is refused.
pub proof fn law_restricted_searches_begin_with_their_stream(
    rows: Vec<ExecutionRow>,
    value: PropertyValue,
    element_type: TextElementType,
    begun: Result<RestrictedSearch, HelixDbError>,
    refused: Result<RestrictedSearch, HelixDbError>,
)
    requires
        call_ensures(begin_restricted_search, (ExecutionValue::Stream(rows), element_type), begun),
        call_ensures(begin_restricted_search, (ExecutionValue::Value(value), element_type), refused),
    ensures
        refused matches Err(error) && error@ is Query,
        rows@.len() == 0 <==> begun matches Ok(RestrictedSearch::Nothing),
        begun is Ok <==> (forall|i: int|
            0 <= i < rows@.len() ==> is_searchable(#[trigger] rows@[i], element_type))
            && searched_ids(rows@, element_type).len() <= 1_000_000,
        begun matches Err(error) ==> error@ is Query,
        begun matches Ok(RestrictedSearch::Search(unique)) ==> {
            &&& unique.candidates@ == searched_ids(rows@, element_type)
            &&& unique.rows_by_id@.dom() == searched_ids(rows@, element_type)
            &&& forall|at: int, id: u64|
                #![trigger stands_on(rows@[at], element_type, id)]
                0 <= at < rows@.len() && stands_on(rows@[at], element_type, id) && (forall|k: int|
                    0 <= k < at ==> !stands_on(#[trigger] rows@[k], element_type, id))
                    ==> unique.rows_by_id@[id] == rows@[at]
        },
{
    lemma_rows_by_entity(rows@, element_type, 1_000_000);
    if rows@.len() == 0 {
        assert(searched_ids(rows@, element_type) =~= Set::<u64>::empty());
    }
    if let Ok(RestrictedSearch::Search(unique)) = begun {
        assert forall|at: int, id: u64|
            #![trigger stands_on(rows@[at], element_type, id)]
            0 <= at < rows@.len() && stands_on(rows@[at], element_type, id) && (forall|k: int|
                0 <= k < at ==> !stands_on(
                    #[trigger] rows@[k],
                    element_type,
                    id,
                )) implies unique.rows_by_id@[id] == rows@[at] by {
            law_first_rows_are_retained(rows@, element_type, 1_000_000, at);
            lemma_row_entity(rows@[at], element_type);
            assert forall|k: int| 0 <= k < at implies row_entity(#[trigger] rows@[k], element_type)
                != row_entity(rows@[at], element_type) by {
                lemma_row_entity(rows@[k], element_type);
            }
        }
    }
}

/// A restricted search gives one row for each result, in the order of the
/// results: the row of the result's element, unchanged but for its score. It is
/// refused exactly if a result has no row or repeats another.
pub proof fn law_results_carry_their_rows(
    rows_by_id: AssocMap<u64, ExecutionRow>,
    results: Vec<RestrictedHit>,
    materialized: Result<Vec<ExecutionRow>, HelixDbError>,
)
    requires
        call_ensures(materialize_restricted_results, (rows_by_id, &results), materialized),
    ensures
        materialized is Err <==> (exists|i: int|
            0 <= i < results@.len() && !rows_by_id@.dom().contains(
                (#[trigger] results@[i]).entity_id,
            )) || exists|i: int, j: int|
            #![trigger results@[i], results@[j]]
            0 <= i < j < results@.len() && results@[i].entity_id == results@[j].entity_id,
        materialized matches Err(error) ==> error@ is InvariantViolation,
        materialized matches Ok(ranked) ==> {
            &&& ranked@.len() == results@.len()
            &&& forall|i: int|
                #![trigger ranked@[i]]
                0 <= i < results@.len() ==> {
                    let row = rows_by_id@[results@[i].entity_id];
                    &&& ranked@[i].current == row.current
                    &&& ranked@[i].bindings == row.bindings
                    &&& ranked@[i].path == row.path
                    &&& ranked@[i].path_visible == row.path_visible
                    &&& ranked@[i].sack == row.sack
                    &&& ranked@[i].sack_visible == row.sack_visible
                    &&& ranked@[i].virtual_properties@.dom().contains("$score"@)
                    &&& ranked@[i].virtual_properties@["$score"@] == PropertyValue::F64(
                        results@[i].score,
                    )
                    &&& ranked@[i].virtual_properties@.remove("$score"@)
                        == row.virtual_properties@.remove("$score"@)
                }
        },
{
    if let Ok(ranked) = materialized {
        assert forall|i: int|
            #![trigger ranked@[i]]
            0 <= i < results@.len() implies ranked@[i].virtual_properties@.remove("$score"@)
            == rows_by_id@[results@[i].entity_id].virtual_properties@.remove("$score"@) by {
            let row = rows_by_id@[results@[i].entity_id];
            assert(is_scored_row(row, results@[i].score, ranked@[i]));
            assert(ranked@[i].virtual_properties@.remove("$score"@)
                =~= row.virtual_properties@.remove("$score"@));
        }
    }
}

/// A row that stands on an element has nothing else in it.
pub proof fn law_current_rows_stand_on_their_element(element: ElementRef, row: ExecutionRow)
    requires
        call_ensures(ExecutionRow::current, (element,), row),
    ensures
        row.current == Some(element),
        row.virtual_properties@.dom() == Set::<Seq<char>>::empty(),
        row.bindings@.dom() == Set::<Seq<char>>::empty(),
        row.path@.len() == 0 && !row.path_visible,
        row.sack is None && !row.sack_visible,
{
}

/// A search takes the rows of a stream as they are, and nothing else.
pub proof fn law_streams_are_searched(
    input: ExecutionValue,
    rows: Result<Vec<ExecutionRow>, HelixDbError>,
)
    requires
        call_ensures(restricted_search_rows, (input,), rows),
    ensures
        input is Stream ==> rows is Ok && rows->Ok_0 == input->Stream_0,
        input is Value ==> rows is Err && rows->Err_0@ is Query,
{
}

/// Rows are kept by their element, the first one of each, as long as there are no
/// more elements than the builder retains.
pub proof fn law_unique_rows_are_kept_by_element(
    rows: Vec<ExecutionRow>,
    element_type: TextElementType,
    builder: RestrictedTextCandidatesBuilder,
    unique: Result<RestrictedTextRows, HelixDbError>,
)
    requires
        builder@ == Set::<u64>::empty(),
        call_ensures(unique_restricted_rows, (rows, element_type, builder), unique),
    ensures
        unique is Ok <==> (forall|i: int|
            0 <= i < rows@.len() ==> is_searchable(#[trigger] rows@[i], element_type))
            && searched_ids(rows@, element_type).len() <= builder.spec_limit(),
        unique is Err ==> unique->Err_0@ is Query,
        unique is Ok ==> unique->Ok_0.candidates@ == searched_ids(rows@, element_type),
        unique is Ok ==> unique->Ok_0.rows_by_id@.dom() == searched_ids(rows@, element_type),
        unique is Ok ==> forall|at: int, id: u64|
            #![trigger stands_on(rows@[at], element_type, id)]
            0 <= at < rows@.len() && stands_on(rows@[at], element_type, id) && (forall|k: int|
                0 <= k < at ==> !stands_on(#[trigger] rows@[k], element_type, id))
                ==> unique->Ok_0.rows_by_id@[id] == rows@[at],
{
    let limit = builder.spec_limit();
    lemma_rows_by_entity(rows@, element_type, limit);
    if let Ok(unique) = unique {
        assert(unique.candidates@ =~= searched_ids(rows@, element_type));
        assert forall|at: int, id: u64|
            #![trigger stands_on(rows@[at], element_type, id)]
            0 <= at < rows@.len() && stands_on(rows@[at], element_type, id) && (forall|k: int|
                0 <= k < at ==> !stands_on(
                    #[trigger] rows@[k],
                    element_type,
                    id,
                )) implies unique.rows_by_id@[id] == rows@[at] by {
            law_first_rows_are_retained(rows@, element_type, limit, at);
            lemma_row_entity(rows@[at], element_type);
            assert forall|k: int| 0 <= k < at implies row_entity(#[trigger] rows@[k], element_type)
                != row_entity(rows@[at], element_type) by {
                lemma_row_entity(rows@[k], element_type);
            }
        }
    }
}

} // verus!
