//! Reads and writes of range-index rows: one row per value and identifier,
//! whose presence is the membership.

use roaring::RoaringTreemap;
use vstd::prelude::*;

use crate::bitmap::bitmap_ids;
use crate::index_keys::{
    DataKey, DataScope, EdgeDirection, EdgeId, IndexKey, IndexKeyModel, NodeId, PropertyHash,
    RangeIndexDirection,
};
use crate::index_rows::{bounded_set, keys_of};
use crate::order::{lemma_common_length, lemma_rank_at, rank_seq, same_bytes, Rank};
use crate::range_scan::{query_matches, range_query_matches_value, RangeQuery};

verus! {

/// The row of a node in a range index.
pub fn range_index_key(
    property_hash: PropertyHash,
    value: &str,
    node_id: NodeId,
    direction: RangeIndexDirection,
    scope: DataScope,
) -> (key: DataKey)
    ensures
        key@ == (
            scope,
            IndexKeyModel::Range {
                direction,
                property_hash: property_hash@,
                value: value@,
                node_id,
            },
        ),
{
    DataKey {
        scope,
        kind: IndexKey::Range { direction, property_hash, value: value.to_owned(), node_id },
    }
}

/// The rows of an edge in the range indexes: at its source, at its target, and
/// globally.
pub open spec fn edge_range_keys(
    from: NodeId,
    to: NodeId,
    edge_id: EdgeId,
    property_hash: Seq<u8>,
    value: Seq<char>,
    direction: RangeIndexDirection,
    scope: DataScope,
) -> Seq<(DataScope, IndexKeyModel)> {
    seq![
        (
            scope,
            IndexKeyModel::EdgeRange {
                edge_direction: EdgeDirection::Out,
                direction,
                endpoint: from,
                property_hash,
                value,
                edge_id,
            },
        ),
        (
            scope,
            IndexKeyModel::EdgeRange {
                edge_direction: EdgeDirection::In,
                direction,
                endpoint: to,
                property_hash,
                value,
                edge_id,
            },
        ),
        (scope, IndexKeyModel::GlobalEdgeRange { direction, property_hash, value, edge_id }),
    ]
}

/// The row of an edge at one of its ends.
pub fn edge_range_key_with_direction(
    edge_direction: EdgeDirection,
    node: NodeId,
    property_hash: PropertyHash,
    value: &str,
    edge_id: EdgeId,
    direction: RangeIndexDirection,
) -> (key: IndexKey)
    ensures
        key@ == (IndexKeyModel::EdgeRange {
            edge_direction,
            direction,
            endpoint: node,
            property_hash: property_hash@,
            value: value@,
            edge_id,
        }),
{
    IndexKey::EdgeRange {
        edge_direction,
        direction,
        endpoint: node,
        property_hash,
        value: value.to_owned(),
        edge_id,
    }
}

/// The global row of an edge.
pub fn global_edge_range_key_with_direction(
    property_hash: PropertyHash,
    value: &str,
    edge_id: EdgeId,
    direction: RangeIndexDirection,
) -> (key: IndexKey)
    ensures
        key@ == (IndexKeyModel::GlobalEdgeRange {
            direction,
            property_hash: property_hash@,
            value: value@,
            edge_id,
        }),
{
    IndexKey::GlobalEdgeRange { direction, property_hash, value: value.to_owned(), edge_id }
}

/// The rows that indexing an edge puts and unindexing it deletes.
pub fn edge_range_index_keys(
    from: NodeId,
    to: NodeId,
    edge_id: EdgeId,
    property_hash: PropertyHash,
    value: &str,
    direction: RangeIndexDirection,
    scope: DataScope,
) -> (keys: Vec<DataKey>)
    ensures
        keys_of(keys@) == edge_range_keys(
            from,
            to,
            edge_id,
            property_hash@,
            value@,
            direction,
            scope,
        ),
{
    let mut keys: Vec<DataKey> = Vec::new();
    keys.push(
        DataKey {
            scope,
            kind: edge_range_key_with_direction(
                EdgeDirection::Out,
                from,
                property_hash,
                value,
                edge_id,
                direction,
            ),
        },
    );
    keys.push(
        DataKey {
            scope,
            kind: edge_range_key_with_direction(
                EdgeDirection::In,
                to,
                property_hash,
                value,
                edge_id,
                direction,
            ),
        },
    );
    keys.push(
        DataKey {
            scope,
            kind: global_edge_range_key_with_direction(property_hash, value, edge_id, direction),
        },
    );
    assert(keys_of(keys@) =~= edge_range_keys(
        from,
        to,
        edge_id,
        property_hash@,
        value@,
        direction,
        scope,
    ));
    keys
}

/// A scanned row of a range index.
#[derive(Debug, PartialEq, Eq)]
pub struct RangeRow {
    pub direction: RangeIndexDirection,
    pub property_hash: PropertyHash,
    pub value: Vec<u8>,
    pub id: u64,
    /// Whether the key starts with the scanned lane's prefix.
    pub in_lane: bool,
}

/// What a scan keeps.
#[derive(Debug)]
pub struct RowFilter<'a> {
    /// The direction that a row must have, if it matters.
    pub direction: Option<RangeIndexDirection>,
    /// The property that a row must have, if it matters.
    pub property_hash: Option<PropertyHash>,
    /// Whether a row must stand in the scanned lane.
    pub in_lane: bool,
    /// The condition on the value, if there is one.
    pub query: Option<RangeQuery<'a>>,
}

/// Whether a scan keeps a row. `None` stands for a key of another scope or one
/// that is no key of the index: it is passed over.
pub open spec fn keeps(filter: RowFilter<'_>, row: Option<RangeRow>) -> bool {
    match row {
        None => false,
        Some(row) => {
            &&& filter.direction matches Some(direction) ==> row.direction == direction
            &&& filter.property_hash matches Some(hash) ==> row.property_hash@ == hash@
            &&& filter.in_lane ==> row.in_lane
            &&& filter.query matches Some(query) ==> query_matches(query, row.value@)
        },
    }
}

/// The identifiers of the rows that a scan keeps, in scan order.
pub open spec fn kept_ids(filter: RowFilter<'_>, rows: Seq<Option<RangeRow>>) -> Seq<u64>
    decreases rows.len(),
{
    if rows.len() == 0 {
        Seq::empty()
    } else {
        let before = kept_ids(filter, rows.drop_last());
        if keeps(filter, rows.last()) {
            before.push(rows.last()->Some_0.id)
        } else {
            before
        }
    }
}

fn row_is_kept(filter: &RowFilter<'_>, row: &Option<RangeRow>) -> (kept: bool)
    ensures
        kept == keeps(*filter, *row),
{
    match row {
        None => false,
        Some(row) => {
            if let Some(direction) = filter.direction {
                if row.direction != direction {
                    return false;
                }
            }
            if let Some(hash) = &filter.property_hash {
                if !same_bytes(row.property_hash.as_slice(), hash.as_slice()) {
                    return false;
                }
            }
            if filter.in_lane && !row.in_lane {
                return false;
            }
            match &filter.query {
                Some(query) => range_query_matches_value(query, row.value.as_slice()),
                None => true,
            }
        },
    }
}

/// Collects the kept identifiers, up to and including the one that reaches the
/// limit.
fn collect_kept(
    filter: &RowFilter<'_>,
    rows: &Vec<Option<RangeRow>>,
    limit: Option<usize>,
) -> (ids: Vec<u64>)
    ensures
        match limit {
            None => ids@ == kept_ids(*filter, rows@),
            Some(limit) => ids@ == first_ids(
                kept_ids(*filter, rows@),
                if limit == 0 {
                    1
                } else {
                    limit as nat
                },
            ),
        },
{
    let mut ids: Vec<u64> = Vec::new();
    let mut i: usize = 0;
    assert(rows@.take(0) =~= Seq::empty());
    while i < rows.len()
        invariant
            i <= rows.len(),
            ids@ == kept_ids(*filter, rows@.take(i as int)),
            limit matches Some(limit) ==> ids@.len() < limit || ids@.len() == 0,
        decreases rows.len() - i,
    {
        assert(rows@.take(i as int + 1).drop_last() =~= rows@.take(i as int));
        if row_is_kept(filter, &rows[i]) {
            if let Some(row) = &rows[i] {
                ids.push(row.id);
            }
            if let Some(limit) = limit {
                if ids.len() >= limit {
                    proof {
                        lemma_kept_ids_prefix(*filter, rows@, i as int + 1);
                    }
                    return ids;
                }
            }
        }
        i = i + 1;
    }
    assert(rows@.take(i as int) =~= rows@);
    proof {
        if let Some(limit) = limit {
            assert(first_ids(kept_ids(*filter, rows@), limit as nat) =~= ids@);
        }
    }
    ids
}

/// The first `count` identifiers, or all if there are fewer.
pub open spec fn first_ids(ids: Seq<u64>, count: nat) -> Seq<u64> {
    if ids.len() <= count {
        ids
    } else {
        ids.take(count as int)
    }
}

proof fn lemma_kept_ids_prefix(filter: RowFilter<'_>, rows: Seq<Option<RangeRow>>, done: int)
    requires
        0 <= done <= rows.len(),
    ensures
        kept_ids(filter, rows.take(done)).len() <= kept_ids(filter, rows).len(),
        kept_ids(filter, rows).take(kept_ids(filter, rows.take(done)).len() as int) == kept_ids(
            filter,
            rows.take(done),
        ),
    decreases rows.len() - done,
{
    if done < rows.len() {
        assert(rows.take(done + 1).drop_last() =~= rows.take(done));
        lemma_kept_ids_prefix(filter, rows, done + 1);
        let short = kept_ids(filter, rows.take(done));
        let longer = kept_ids(filter, rows.take(done + 1));
        let all = kept_ids(filter, rows);
        assert(all.take(short.len() as int) =~= longer.take(short.len() as int));
        assert(longer.take(short.len() as int) =~= short);
    } else {
        assert(rows.take(done) =~= rows);
        let all = kept_ids(filter, rows);
        assert(all.take(all.len() as int) =~= all);
    }
}

/// The filter of a scan over all values of a property.
pub open spec fn property_filter(
    direction: RangeIndexDirection,
    property_hash: PropertyHash,
) -> RowFilter<'static> {
    RowFilter {
        direction: Some(direction),
        property_hash: Some(property_hash),
        in_lane: false,
        query: None,
    }
}

/// The filter of a bounded scan of a property.
pub open spec fn bounded_filter<'a>(
    direction: RangeIndexDirection,
    property_hash: PropertyHash,
    query: RangeQuery<'a>,
) -> RowFilter<'a> {
    RowFilter {
        direction: Some(direction),
        property_hash: Some(property_hash),
        in_lane: true,
        query: Some(query),
    }
}

fn truncate_ids(ids: &mut Vec<u64>, limit: Option<usize>)
    ensures
        match limit {
            Some(limit) => final(ids)@ == first_ids(old(ids)@, limit as nat),
            None => final(ids)@ == old(ids)@,
        },
{
    if let Some(limit) = limit {
        if limit < ids.len() {
            ids.truncate(limit);
        }
    }
}

/// Scans a node range index in physical order, with an optional result cap.
pub fn scan_range_index_with_direction_limited(
    rows: &Vec<Option<RangeRow>>,
    property_hash: PropertyHash,
    direction: RangeIndexDirection,
    limit: Option<usize>,
) -> (ids: Vec<NodeId>)
    ensures
        match limit {
            Some(limit) => ids@ == first_ids(
                kept_ids(property_filter(direction, property_hash), rows@),
                limit as nat,
            ),
            None => ids@ == kept_ids(property_filter(direction, property_hash), rows@),
        },
{
    let mut ids = scan_range_index(rows, direction, property_hash);
    truncate_ids(&mut ids, limit);
    ids
}

/// Scans a range index for all values.
pub fn scan_range_index(
    rows: &Vec<Option<RangeRow>>,
    direction: RangeIndexDirection,
    property_hash: PropertyHash,
) -> (ids: Vec<NodeId>)
    ensures
        ids@ == kept_ids(property_filter(direction, property_hash), rows@),
{
    let filter = RowFilter {
        direction: Some(direction),
        property_hash: Some(property_hash),
        in_lane: false,
        query: None,
    };
    collect_kept(&filter, rows, None)
}

/// Scans a bounded node range index in physical order, with an optional result
/// cap.
pub fn scan_range_index_bounded_with_direction_limited(
    rows: &Vec<Option<RangeRow>>,
    property_hash: PropertyHash,
    query: RangeQuery<'_>,
    direction: RangeIndexDirection,
    limit: Option<usize>,
) -> (ids: Vec<NodeId>)
    ensures
        match limit {
            Some(limit) => ids@ == first_ids(
                kept_ids(bounded_filter(direction, property_hash, query), rows@),
                limit as nat,
            ),
            None => ids@ == kept_ids(bounded_filter(direction, property_hash, query), rows@),
        },
{
    let filter = RowFilter {
        direction: Some(direction),
        property_hash: Some(property_hash),
        in_lane: true,
        query: Some(query),
    };
    let mut ids = collect_kept(&filter, rows, None);
    truncate_ids(&mut ids, limit);
    ids
}

/// Scans the ascending node range index between bounds.
pub fn scan_range_index_bounded(
    rows: &Vec<Option<RangeRow>>,
    property_hash: PropertyHash,
    query: RangeQuery<'_>,
) -> (ids: Vec<NodeId>)
    ensures
        ids@ == kept_ids(bounded_filter(RangeIndexDirection::Asc, property_hash, query), rows@),
{
    scan_range_index_bounded_with_direction_limited(
        rows,
        property_hash,
        query,
        RangeIndexDirection::Asc,
        None,
    )
}

/// Scans all globally indexed edges of a property. The cap is tested behind
/// each edge found, so that a cap of zero still yields one edge.
pub fn scan_global_edge_range_index_all_with_direction_limited(
    rows: &Vec<Option<RangeRow>>,
    property_hash: PropertyHash,
    direction: RangeIndexDirection,
    limit: Option<usize>,
) -> (ids: Vec<EdgeId>)
    ensures
        match limit {
            None => ids@ == kept_ids(property_filter(direction, property_hash), rows@),
            Some(limit) => ids@ == first_ids(
                kept_ids(property_filter(direction, property_hash), rows@),
                if limit == 0 {
                    1
                } else {
                    limit as nat
                },
            ),
        },
{
    let filter = RowFilter {
        direction: Some(direction),
        property_hash: Some(property_hash),
        in_lane: false,
        query: None,
    };
    collect_kept(&filter, rows, limit)
}

/// Scans the globally indexed edges of a property between bounds. The cap is
/// tested behind each edge found, so that a cap of zero still yields one edge.
pub fn scan_global_edge_range_index_with_direction_limited(
    rows: &Vec<Option<RangeRow>>,
    property_hash: PropertyHash,
    query: RangeQuery<'_>,
    direction: RangeIndexDirection,
    limit: Option<usize>,
) -> (ids: Vec<EdgeId>)
    ensures
        match limit {
            None => ids@ == kept_ids(bounded_filter(direction, property_hash, query), rows@),
            Some(limit) => ids@ == first_ids(
                kept_ids(bounded_filter(direction, property_hash, query), rows@),
                if limit == 0 {
                    1
                } else {
                    limit as nat
                },
            ),
        },
{
    let filter = RowFilter {
        direction: Some(direction),
        property_hash: Some(property_hash),
        in_lane: true,
        query: Some(query),
    };
    collect_kept(&filter, rows, limit)
}

/// The filter of a bounded scan at one node: the scanned lane fixes node and
/// property.
pub open spec fn edge_filter<'a>(
    direction: RangeIndexDirection,
    query: Option<RangeQuery<'a>>,
) -> RowFilter<'a> {
    RowFilter {
        direction: Some(direction),
        property_hash: None,
        in_lane: query is Some,
        query,
    }
}

/// Scans the edge range index at one node between bounds, and counts the rows
/// that were read.
pub fn scan_edge_range_index_with_direction_counted(
    rows: &Vec<Option<RangeRow>>,
    query: RangeQuery<'_>,
    direction: RangeIndexDirection,
) -> (found: (Vec<EdgeId>, u64))
    ensures
        found.0@ == kept_ids(edge_filter(direction, Some(query)), rows@),
        found.1 == rows@.len(),
{
    let filter = RowFilter {
        direction: Some(direction),
        property_hash: None,
        in_lane: true,
        query: Some(query),
    };
    let ids = collect_kept(&filter, rows, None);
    (ids, rows.len() as u64)
}

/// The edges at one node with any value of a range-indexed property.
pub fn scan_edge_range_index_out_prefix_with_direction(
    rows: &Vec<Option<RangeRow>>,
    direction: RangeIndexDirection,
) -> (ids: Vec<EdgeId>)
    ensures
        ids@ == kept_ids(edge_filter(direction, None), rows@),
{
    let filter = RowFilter {
        direction: Some(direction),
        property_hash: None,
        in_lane: false,
        query: None,
    };
    collect_kept(&filter, rows, None)
}

/// The identifiers that are in the filter set, if there is one.
pub open spec fn ids_in(ids: Seq<u64>, filter: Option<&RoaringTreemap>) -> Seq<u64>
    decreases ids.len(),
{
    if ids.len() == 0 {
        ids
    } else {
        let before = ids_in(ids.drop_last(), filter);
        if filter matches Some(set) ==> bitmap_ids(*set).contains(ids.last()) {
            before.push(ids.last())
        } else {
            before
        }
    }
}

fn collect_set(
    ids: &Vec<u64>,
    limit: usize,
    filter: Option<&RoaringTreemap>,
) -> (found: RoaringTreemap)
    ensures
        bitmap_ids(found) == bounded_set(Set::empty(), ids_in(ids@, filter), limit as nat),
{
    let mut results = RoaringTreemap::new();
    if limit == 0 {
        proof {
            lemma_bounded_from_empty(ids_in(ids@, filter), 0);
            let kept = bounded_set(Set::empty(), ids_in(ids@, filter), 0);
            assert(kept.len() == 0);
            assert(kept =~= Set::empty());
        }
        return results;
    }
    let mut i: usize = 0;
    assert(ids@.take(0) =~= Seq::empty());
    while i < ids.len()
        invariant
            i <= ids.len(),
            limit > 0,
            bitmap_ids(results) == bounded_set(
                Set::empty(),
                ids_in(ids@.take(i as int), filter),
                limit as nat,
            ),
            bitmap_ids(results).finite(),
            bitmap_ids(results).len() < limit,
        decreases ids.len() - i,
    {
        let id = ids[i];
        let ghost before = ids_in(ids@.take(i as int), filter);
        assert(ids@.take(i as int + 1).drop_last() =~= ids@.take(i as int));
        let wanted = match filter {
            Some(set) => set.contains(id),
            None => true,
        };
        if wanted {
            let _ = results.insert(id);
            proof {
                let after = ids_in(ids@.take(i as int + 1), filter);
                assert(after == before.push(id));
                assert(after.drop_last() =~= before);
                lemma_bounded_from_empty(after, limit as nat);
            }
            if results.len() >= limit as u64 {
                proof {
                    lemma_ids_in_prefix(ids@, filter, i as int + 1);
                    let all = ids_in(ids@, filter);
                    let part = ids_in(ids@.take(i as int + 1), filter);
                    lemma_bounded_stays(all, limit as nat, part.len() as int);
                }
                return results;
            }
        }
        i = i + 1;
    }
    assert(ids@.take(i as int) =~= ids@);
    results
}

proof fn lemma_bounded_from_empty(ids: Seq<u64>, limit: nat)
    ensures
        bounded_set(Set::empty(), ids, limit).finite(),
        bounded_set(Set::empty(), ids, limit).len() <= limit,
    decreases ids.len(),
{
    if ids.len() > 0 {
        lemma_bounded_from_empty(ids.drop_last(), limit);
    }
}

proof fn lemma_bounded_stays(ids: Seq<u64>, limit: nat, done: int)
    requires
        0 <= done <= ids.len(),
        bounded_set(Set::empty(), ids.take(done), limit).len() >= limit,
    ensures
        bounded_set(Set::empty(), ids, limit) == bounded_set(Set::empty(), ids.take(done), limit),
    decreases ids.len() - done,
{
    if done < ids.len() {
        assert(ids.take(done + 1).drop_last() =~= ids.take(done));
        lemma_bounded_stays(ids, limit, done + 1);
    } else {
        assert(ids.take(done) =~= ids);
    }
}

proof fn lemma_ids_in_prefix(ids: Seq<u64>, filter: Option<&RoaringTreemap>, done: int)
    requires
        0 <= done <= ids.len(),
    ensures
        ids_in(ids.take(done), filter).len() <= ids_in(ids, filter).len(),
        ids_in(ids, filter).take(ids_in(ids.take(done), filter).len() as int) == ids_in(
            ids.take(done),
            filter,
        ),
    decreases ids.len() - done,
{
    if done < ids.len() {
        assert(ids.take(done + 1).drop_last() =~= ids.take(done));
        lemma_ids_in_prefix(ids, filter, done + 1);
        let short = ids_in(ids.take(done), filter);
        let longer = ids_in(ids.take(done + 1), filter);
        let all = ids_in(ids, filter);
        assert(all.take(short.len() as int) =~= longer.take(short.len() as int));
        assert(longer.take(short.len() as int) =~= short);
    } else {
        assert(ids.take(done) =~= ids);
        let all = ids_in(ids, filter);
        assert(all.take(all.len() as int) =~= all);
    }
}

/// Scans the ascending node range index between bounds for up to `limit`
/// nodes.
///
/// If `filter` is given, only nodes in it are collected.
pub fn scan_range_index_bounded_limited(
    rows: &Vec<Option<RangeRow>>,
    property_hash: PropertyHash,
    query: RangeQuery<'_>,
    limit: usize,
    filter: Option<&RoaringTreemap>,
) -> (found: RoaringTreemap)
    ensures
        bitmap_ids(found) == bounded_set(
            Set::empty(),
            ids_in(
                kept_ids(bounded_filter(RangeIndexDirection::Asc, property_hash, query), rows@),
                filter,
            ),
            limit as nat,
        ),
{
    let ids = scan_range_index_bounded(rows, property_hash, query);
    collect_set(&ids, limit, filter)
}

/// Scans all values of a range index for up to `limit` nodes.
///
/// If `filter` is given, only nodes in it are collected.
pub fn scan_range_index_prefix_limited(
    rows: &Vec<Option<RangeRow>>,
    property_hash: PropertyHash,
    limit: usize,
    filter: Option<&RoaringTreemap>,
) -> (found: RoaringTreemap)
    ensures
        bitmap_ids(found) == bounded_set(
            Set::empty(),
            ids_in(
                kept_ids(
                    (RowFilter {
                        direction: None,
                        property_hash: Some(property_hash),
                        in_lane: false,
                        query: None,
                    }),
                    rows@,
                ),
                filter,
            ),
            limit as nat,
        ),
{
    let keep = RowFilter {
        direction: None,
        property_hash: Some(property_hash),
        in_lane: false,
        query: None,
    };
    let ids = collect_kept(&keep, rows, None);
    collect_set(&ids, limit, filter)
}

/// Whether a cleanup of one property deletes a scanned row: directional rows
/// of other properties in the same lane stay.
pub fn deletes_row_of_property(
    row: &Option<RangeRow>,
    property_hash: PropertyHash,
) -> (deletes: bool)
    ensures
        deletes == (row matches Some(row) && row.property_hash@ == property_hash@),
{
    match row {
        Some(row) => same_bytes(row.property_hash.as_slice(), property_hash.as_slice()),
        None => false,
    }
}

/// The first key behind all keys that start with `prefix`: the prefix up to
/// its last byte below `0xff`, with that byte counted up.
pub open spec fn prefix_end(prefix: Seq<u8>) -> Option<Seq<u8>>
    decreases prefix.len(),
{
    if prefix.len() == 0 {
        None
    } else if prefix.last() < 0xff {
        Some(prefix.drop_last().push((prefix.last() + 1) as u8))
    } else {
        prefix_end(prefix.drop_last())
    }
}

/// The first key behind all keys that start with `prefix`, if there is one.
pub fn exclusive_prefix_end_bound(prefix: &[u8]) -> (end: Option<Vec<u8>>)
    ensures
        match end {
            Some(end) => prefix_end(prefix@) == Some(end@),
            None => prefix_end(prefix@) is None,
        },
{
    let mut kept: Vec<u8> = Vec::new();
    kept.extend_from_slice(prefix);
    assert(kept@ =~= prefix@);
    while kept.len() > 0
        invariant
            prefix_end(kept@) == prefix_end(prefix@),
        decreases kept.len(),
    {
        let last = kept[kept.len() - 1];
        let _ = kept.pop();
        if last < 0xff {
            kept.push(last + 1);
            return Some(kept);
        }
    }
    None
}

/// The first key behind all keys of a lane. A lane's prefix starts with a key
/// family byte below `0xff`, so there always is one.
pub fn bounded_prefix_end(prefix: &[u8]) -> (end: Vec<u8>)
    requires
        prefix_end(prefix@) is Some,
    ensures
        prefix_end(prefix@) == Some(end@),
{
    match exclusive_prefix_end_bound(prefix) {
        Some(end) => end,
        None => {
            assert(false);
            Vec::new()
        },
    }
}

/// The keys from a prefix to its end bound are exactly those that start with
/// the prefix.
pub proof fn law_prefix_end_is_exact(prefix: Seq<u8>, key: Seq<u8>)
    requires
        prefix_end(prefix) is Some,
    ensures
        prefix.is_prefix_of(key) <==> rank_seq(prefix, key) != Rank::Greater && rank_seq(
            key,
            prefix_end(prefix)->Some_0,
        ) == Rank::Less,
    decreases prefix.len(),
{
    let end = prefix_end(prefix)->Some_0;
    let front = prefix.drop_last();
    if prefix.last() < 0xff {
        assert(end =~= front.push((prefix.last() + 1) as u8));
        lemma_prefix_cases(prefix, key, end);
    } else {
        law_prefix_end_is_exact(front, key);
        lemma_full_byte_prefix(prefix, key, end);
    }
}

proof fn lemma_prefix_cases(prefix: Seq<u8>, key: Seq<u8>, end: Seq<u8>)
    requires
        prefix.len() > 0,
        prefix.last() < 0xff,
        end == prefix.drop_last().push((prefix.last() + 1) as u8),
    ensures
        prefix.is_prefix_of(key) <==> rank_seq(prefix, key) != Rank::Greater && rank_seq(key, end)
            == Rank::Less,
{
    let last = prefix.len() - 1;
    let a = lemma_common_length(prefix, key);
    lemma_rank_at(prefix, key, a);
    let b = lemma_common_length(key, end);
    lemma_rank_at(key, end, b);
    if prefix.is_prefix_of(key) {
        assert(key.take(prefix.len() as int)[last] == key[last]);
        assert(forall|i: int| 0 <= i < prefix.len() ==> key[i] == key.take(prefix.len() as int)[i]);
        assert(b == last);
        assert(a == prefix.len());
    } else {
        assert(a < prefix.len()) by {
            if a == prefix.len() {
                assert(key.take(prefix.len() as int) =~= prefix);
            }
        }
        if a < last {
            if a < key.len() && prefix[a] < key[a] {
                assert(b == a);
            }
        } else {
            if a < key.len() && prefix[a] < key[a] {
                assert(key[last] >= end[last]);
                assert(b >= last);
            }
        }
    }
}

proof fn lemma_full_byte_prefix(prefix: Seq<u8>, key: Seq<u8>, end: Seq<u8>)
    requires
        prefix.len() > 0,
        prefix.last() == 0xff,
        prefix_end(prefix.drop_last()) == Some(end),
        prefix.drop_last().is_prefix_of(key) <==> rank_seq(prefix.drop_last(), key)
            != Rank::Greater && rank_seq(key, end) == Rank::Less,
    ensures
        prefix.is_prefix_of(key) <==> rank_seq(prefix, key) != Rank::Greater && rank_seq(key, end)
            == Rank::Less,
{
    let front = prefix.drop_last();
    let a = lemma_common_length(prefix, key);
    lemma_rank_at(prefix, key, a);
    let b = lemma_common_length(front, key);
    lemma_rank_at(front, key, b);
    let last = prefix.len() - 1;
    if prefix.is_prefix_of(key) {
        assert(forall|i: int| 0 <= i < prefix.len() ==> key[i] == key.take(prefix.len() as int)[i]);
        assert(key.take(front.len() as int) =~= front);
    } else {
        if front.is_prefix_of(key) {
            assert(forall|i: int|
                0 <= i < front.len() ==> key[i] == key.take(front.len() as int)[i]);
            if key.len() > last && key[last] == 0xff {
                assert(key.take(prefix.len() as int) =~= prefix);
            }
            assert(a == last);
        } else {
            assert(b < front.len()) by {
                if b == front.len() {
                    assert(key.take(front.len() as int) =~= front);
                }
            }
            assert(a == b);
        }
    }
}

/// Indexing an edge by a range value puts it among the outgoing edges of its
/// source, the incoming edges of its target and all edges, under the value, the
/// property and the direction that were asked for; nothing else is put.
pub proof fn law_edges_are_ranged_at_both_ends(
    from: NodeId,
    to: NodeId,
    edge_id: EdgeId,
    property_hash: PropertyHash,
    value: &str,
    direction: RangeIndexDirection,
    scope: DataScope,
    keys: Vec<DataKey>,
)
    requires
        call_ensures(
            edge_range_index_keys,
            (from, to, edge_id, property_hash, value, direction, scope),
            keys,
        ),
    ensures
        keys@.len() == 3,
        forall|i: int|
            0 <= i < 3 ==> (#[trigger] keys@[i]).scope == scope && match keys@[i].kind {
                IndexKey::EdgeRange {
                    edge_direction,
                    direction: laid_out,
                    endpoint,
                    property_hash: hash,
                    value: text,
                    edge_id: id,
                } => laid_out == direction && hash@ == property_hash@ && text@ == value@ && id
                    == edge_id && (edge_direction == EdgeDirection::Out ==> endpoint == from) && (
                edge_direction == EdgeDirection::In ==> endpoint == to),
                IndexKey::GlobalEdgeRange {
                    direction: laid_out,
                    property_hash: hash,
                    value: text,
                    edge_id: id,
                } => laid_out == direction && hash@ == property_hash@ && text@ == value@ && id
                    == edge_id,
                _ => false,
            },
        exists|i: int|
            0 <= i < 3 && (#[trigger] keys@[i]).kind is EdgeRange
                && keys@[i].kind->EdgeRange_edge_direction == EdgeDirection::Out,
        exists|i: int|
            0 <= i < 3 && (#[trigger] keys@[i]).kind is EdgeRange
                && keys@[i].kind->EdgeRange_edge_direction == EdgeDirection::In,
        exists|i: int| 0 <= i < 3 && (#[trigger] keys@[i]).kind is GlobalEdgeRange,
{
    let models = keys_of(keys@);
    assert(models.len() == 3);
    assert(models[0] == keys@[0]@ && models[1] == keys@[1]@ && models[2] == keys@[2]@);
    assert(keys@[0].kind is EdgeRange);
    assert(keys@[1].kind is EdgeRange);
    assert(keys@[2].kind is GlobalEdgeRange);
}

/// A node's range row holds the value, property, node and direction that were
/// asked for, in the scope that was asked for.
pub proof fn law_nodes_are_ranged_under_their_value(
    property_hash: PropertyHash,
    value: &str,
    node_id: NodeId,
    direction: RangeIndexDirection,
    scope: DataScope,
    key: DataKey,
)
    requires
        call_ensures(range_index_key, (property_hash, value, node_id, direction, scope), key),
    ensures
        key.scope == scope,
        key.kind matches IndexKey::Range {
            direction: laid_out,
            property_hash: hash,
            value: text,
            node_id: id,
        } && laid_out == direction && hash@ == property_hash@ && text@ == value@ && id == node_id,
{
}

/// The places of the kept rows, in scan order.
pub open spec fn places_of_kept(
    rows: Seq<Option<RangeRow>>,
    kept: spec_fn(RangeRow) -> bool,
    places: Seq<int>,
) -> bool {
    &&& forall|n: int|
        0 <= n < places.len() ==> 0 <= #[trigger] places[n] < rows.len() && (
        rows[places[n]] matches Some(row) && kept(row))
    &&& forall|n: int, m: int|
        #![trigger places[n], places[m]]
        0 <= n < m < places.len() ==> places[n] < places[m]
    &&& forall|i: int|
        0 <= i < rows.len() && (#[trigger] rows[i] matches Some(row) && kept(row))
            ==> places.contains(i)
}

/// The identifiers are those of the rows that are kept, one for each such row
/// and in scan order.
pub open spec fn lists_kept(
    rows: Seq<Option<RangeRow>>,
    kept: spec_fn(RangeRow) -> bool,
    ids: Seq<u64>,
) -> bool {
    exists|places: Seq<int>| #[trigger]
        places_of_kept(rows, kept, places) && places.len() == ids.len() && forall|n: int|
            0 <= n < ids.len() ==> #[trigger] ids[n] == rows[places[n]]->Some_0.id
}

spec fn kept_places(filter: RowFilter<'_>, rows: Seq<Option<RangeRow>>) -> Seq<int>
    decreases rows.len(),
{
    if rows.len() == 0 {
        Seq::empty()
    } else if keeps(filter, rows.last()) {
        kept_places(filter, rows.drop_last()).push(rows.len() - 1)
    } else {
        kept_places(filter, rows.drop_last())
    }
}

proof fn lemma_kept_places(filter: RowFilter<'_>, rows: Seq<Option<RangeRow>>)
    ensures
        ({
            let places = kept_places(filter, rows);
            let ids = kept_ids(filter, rows);
            &&& places.len() == ids.len()
            &&& forall|n: int|
                0 <= n < places.len() ==> 0 <= #[trigger] places[n] < rows.len() && keeps(
                    filter,
                    rows[places[n]],
                ) && ids[n] == rows[places[n]]->Some_0.id
            &&& forall|n: int, m: int|
                #![trigger places[n], places[m]]
                0 <= n < m < places.len() ==> places[n] < places[m]
            &&& forall|i: int|
                0 <= i < rows.len() && keeps(filter, #[trigger] rows[i]) ==> places.contains(i)
        }),
    decreases rows.len(),
{
    if rows.len() > 0 {
        let front = rows.drop_last();
        lemma_kept_places(filter, front);
        let before = kept_places(filter, front);
        let places = kept_places(filter, rows);
        assert forall|n: int| 0 <= n < places.len() implies 0 <= #[trigger] places[n] < rows.len()
            && keeps(filter, rows[places[n]]) && kept_ids(filter, rows)[n]
            == rows[places[n]]->Some_0.id by {
            if n < before.len() {
                assert(places[n] == before[n]);
                assert(front[before[n]] == rows[before[n]]);
            }
        }
        assert forall|n: int, m: int|
            #![trigger places[n], places[m]]
            0 <= n < m < places.len() implies places[n] < places[m] by {
            assert(places[n] == before[n]);
            if m < before.len() {
                assert(places[m] == before[m]);
            }
        }
        assert forall|i: int|
            0 <= i < rows.len() && keeps(filter, #[trigger] rows[i]) implies places.contains(i) by {
            if i < front.len() {
                assert(front[i] == rows[i]);
                let n = choose|n: int| 0 <= n < before.len() && before[n] == i;
                assert(places[n] == i);
            } else {
                assert(places[places.len() - 1] == i);
            }
        }
    }
}

proof fn lemma_lists_kept(
    filter: RowFilter<'_>,
    rows: Seq<Option<RangeRow>>,
    kept: spec_fn(RangeRow) -> bool,
)
    requires
        forall|row: RangeRow| #[trigger] kept(row) <==> keeps(filter, Some(row)),
    ensures
        lists_kept(rows, kept, kept_ids(filter, rows)),
{
    let places = kept_places(filter, rows);
    let ids = kept_ids(filter, rows);
    lemma_kept_places(filter, rows);
    assert forall|n: int| 0 <= n < places.len() implies 0 <= #[trigger] places[n] < rows.len() && (
    rows[places[n]] matches Some(row) && kept(row)) by {
        assert(keeps(filter, rows[places[n]]));
        assert(kept(rows[places[n]]->Some_0));
    }
    assert forall|i: int|
        0 <= i < rows.len() && (#[trigger] rows[i] matches Some(row) && kept(
            row,
        )) implies places.contains(i) by {
        assert(kept(rows[i]->Some_0));
        assert(keeps(filter, rows[i]));
    }
    assert(places_of_kept(rows, kept, places));
    assert forall|n: int| 0 <= n < ids.len() implies #[trigger] ids[n]
        == rows[places[n]]->Some_0.id by {
        let place = places[n];
    }
}

/// A scan of all values of a property lists exactly the rows of that property
/// and direction, in scan order.
pub proof fn law_scans_list_their_property(
    rows: Vec<Option<RangeRow>>,
    direction: RangeIndexDirection,
    property_hash: PropertyHash,
    nodes: Vec<NodeId>,
    edges: Vec<EdgeId>,
)
    requires
        call_ensures(scan_range_index, (&rows, direction, property_hash), nodes),
        call_ensures(
            scan_global_edge_range_index_all_with_direction_limited,
            (&rows, property_hash, direction, None::<usize>),
            edges,
        ),
    ensures
        lists_kept(
            rows@,
            |row: RangeRow|
                row.direction == direction && row.property_hash@ == property_hash@,
            nodes@,
        ),
        edges@ == nodes@,
{
    let filter = property_filter(direction, property_hash);
    lemma_lists_kept(
        filter,
        rows@,
        |row: RangeRow| row.direction == direction && row.property_hash@ == property_hash@,
    );
}

/// A bounded scan lists exactly the rows of the scanned lane that have the
/// property and direction and whose value meets the condition, in scan order.
pub proof fn law_bounded_scans_list_their_matches(
    rows: Vec<Option<RangeRow>>,
    property_hash: PropertyHash,
    query: RangeQuery<'_>,
    direction: RangeIndexDirection,
    nodes: Vec<NodeId>,
    ascending: Vec<NodeId>,
    edges: Vec<EdgeId>,
)
    requires
        call_ensures(
            scan_range_index_bounded_with_direction_limited,
            (&rows, property_hash, query, direction, None::<usize>),
            nodes,
        ),
        call_ensures(scan_range_index_bounded, (&rows, property_hash, query), ascending),
        call_ensures(
            scan_global_edge_range_index_with_direction_limited,
            (&rows, property_hash, query, direction, None::<usize>),
            edges,
        ),
    ensures
        lists_kept(
            rows@,
            |row: RangeRow|
                row.in_lane && row.direction == direction && row.property_hash@ == property_hash@
                    && query_matches(query, row.value@),
            nodes@,
        ),
        edges@ == nodes@,
        direction == RangeIndexDirection::Asc ==> ascending@ == nodes@,
{
    lemma_lists_kept(
        bounded_filter(direction, property_hash, query),
        rows@,
        |row: RangeRow|
            row.in_lane && row.direction == direction && row.property_hash@ == property_hash@
                && query_matches(query, row.value@),
    );
}

/// A scan at one node lists exactly the rows of the direction that stand in the
/// lane and meet the condition, in scan order, and counts every row it reads;
/// without a condition it lists all rows of the direction.
pub proof fn law_scans_at_a_node_list_their_matches(
    rows: Vec<Option<RangeRow>>,
    query: RangeQuery<'_>,
    direction: RangeIndexDirection,
    found: (Vec<EdgeId>, u64),
    all: Vec<EdgeId>,
)
    requires
        call_ensures(
            scan_edge_range_index_with_direction_counted,
            (&rows, query, direction),
            found,
        ),
        call_ensures(scan_edge_range_index_out_prefix_with_direction, (&rows, direction), all),
    ensures
        lists_kept(
            rows@,
            |row: RangeRow|
                row.in_lane && row.direction == direction && query_matches(query, row.value@),
            found.0@,
        ),
        found.1 == rows@.len(),
        lists_kept(rows@, |row: RangeRow| row.direction == direction, all@),
{
    lemma_lists_kept(
        edge_filter(direction, Some(query)),
        rows@,
        |row: RangeRow|
            row.in_lane && row.direction == direction && query_matches(query, row.value@),
    );
    lemma_lists_kept(
        edge_filter(direction, None),
        rows@,
        |row: RangeRow| row.direction == direction,
    );
}

/// A limited scan gives the first identifiers of the unlimited one: as many as
/// the limit allows, or all if they are fewer. Where a scan over all edges tests
/// its limit behind each edge found, a limit of zero counts as one.
pub proof fn law_limited_scans_give_the_first(
    rows: Vec<Option<RangeRow>>,
    property_hash: PropertyHash,
    query: RangeQuery<'_>,
    direction: RangeIndexDirection,
    limit: usize,
    all: Vec<NodeId>,
    some: Vec<NodeId>,
    all_matching: Vec<NodeId>,
    some_matching: Vec<NodeId>,
    some_edges: Vec<EdgeId>,
    some_matching_edges: Vec<EdgeId>,
)
    requires
        call_ensures(scan_range_index, (&rows, direction, property_hash), all),
        call_ensures(
            scan_range_index_with_direction_limited,
            (&rows, property_hash, direction, Some(limit)),
            some,
        ),
        call_ensures(
            scan_range_index_bounded_with_direction_limited,
            (&rows, property_hash, query, direction, None::<usize>),
            all_matching,
        ),
        call_ensures(
            scan_range_index_bounded_with_direction_limited,
            (&rows, property_hash, query, direction, Some(limit)),
            some_matching,
        ),
        call_ensures(
            scan_global_edge_range_index_all_with_direction_limited,
            (&rows, property_hash, direction, Some(limit)),
            some_edges,
        ),
        call_ensures(
            scan_global_edge_range_index_with_direction_limited,
            (&rows, property_hash, query, direction, Some(limit)),
            some_matching_edges,
        ),
    ensures
        some@.is_prefix_of(all@),
        some@.len() == limit || (some@.len() < limit && some@ == all@),
        some_matching@.is_prefix_of(all_matching@),
        some_matching@.len() == limit || (some_matching@.len() < limit && some_matching@
            == all_matching@),
        limit > 0 ==> some_edges@ == some@ && some_matching_edges@ == some_matching@,
        limit == 0 ==> some_edges@.is_prefix_of(all@) && some_matching_edges@.is_prefix_of(
            all_matching@,
        ) && some_edges@.len() <= 1 && some_matching_edges@.len() <= 1,
        limit == 0 ==> (some_edges@.len() == 1 <==> all@.len() > 0),
        limit == 0 ==> (some_matching_edges@.len() == 1 <==> all_matching@.len() > 0),
{
}

proof fn lemma_ids_in_contents(ids: Seq<u64>, filter: Option<&RoaringTreemap>)
    ensures
        forall|id: u64| #[trigger]
            ids_in(ids, filter).contains(id) <==> ids.contains(id) && (filter matches Some(set)
                ==> bitmap_ids(*set).contains(id)),
    decreases ids.len(),
{
    if ids.len() > 0 {
        let front = ids.drop_last();
        let before = ids_in(front, filter);
        let kept = ids_in(ids, filter);
        lemma_ids_in_contents(front, filter);
        assert forall|id: u64| #[trigger] kept.contains(id) <==> ids.contains(id) && (
        filter matches Some(set) ==> bitmap_ids(*set).contains(id)) by {
            if kept.contains(id) {
                let n = choose|n: int| 0 <= n < kept.len() && kept[n] == id;
                if n < before.len() {
                    assert(before[n] == id);
                    assert(before.contains(id));
                    let i = choose|i: int| 0 <= i < front.len() && front[i] == id;
                    assert(ids[i] == id);
                } else {
                    assert(ids[ids.len() - 1] == id);
                }
            }
            if ids.contains(id) && (filter matches Some(set) ==> bitmap_ids(*set).contains(id)) {
                let i = choose|i: int| 0 <= i < ids.len() && ids[i] == id;
                if i < front.len() {
                    assert(front[i] == id);
                    assert(front.contains(id));
                    assert(before.contains(id));
                    let n = choose|n: int| 0 <= n < before.len() && before[n] == id;
                    assert(kept[n] == id);
                } else {
                    assert(kept[kept.len() - 1] == id);
                }
            }
        }
    }
}

proof fn lemma_bounded_contents(ids: Seq<u64>, limit: nat)
    ensures
        bounded_set(Set::empty(), ids, limit).finite(),
        bounded_set(Set::empty(), ids, limit).len() <= limit,
        forall|id: u64| #[trigger]
            bounded_set(Set::empty(), ids, limit).contains(id) ==> ids.contains(id),
        bounded_set(Set::empty(), ids, limit).len() < limit ==> forall|id: u64| #[trigger]
            ids.contains(id) ==> bounded_set(Set::empty(), ids, limit).contains(id),
    decreases ids.len(),
{
    if ids.len() > 0 {
        let front = ids.drop_last();
        lemma_bounded_contents(front, limit);
        let before = bounded_set(Set::empty(), front, limit);
        let found = bounded_set(Set::empty(), ids, limit);
        assert forall|id: u64| #[trigger] found.contains(id) implies ids.contains(id) by {
            if before.contains(id) {
                let i = choose|i: int| 0 <= i < front.len() && front[i] == id;
                assert(ids[i] == id);
            } else {
                assert(ids[ids.len() - 1] == id);
            }
        }
        if found.len() < limit {
            assert forall|id: u64| #[trigger] ids.contains(id) implies found.contains(id) by {
                let i = choose|i: int| 0 <= i < ids.len() && ids[i] == id;
                if i < front.len() {
                    assert(front[i] == id);
                    assert(front.contains(id));
                }
            }
        }
    }
}

/// A scan into a set gives at most as many nodes as it may, only such as the
/// scan lists and the filter holds, and all of these if they are fewer.
pub proof fn law_scans_into_a_set_are_filtered(
    rows: Vec<Option<RangeRow>>,
    property_hash: PropertyHash,
    query: RangeQuery<'_>,
    limit: usize,
    filter: Option<&RoaringTreemap>,
    listed: Vec<NodeId>,
    found: RoaringTreemap,
)
    requires
        call_ensures(scan_range_index_bounded, (&rows, property_hash, query), listed),
        call_ensures(
            scan_range_index_bounded_limited,
            (&rows, property_hash, query, limit, filter),
            found,
        ),
    ensures
        bitmap_ids(found).len() <= limit,
        forall|id: u64| #[trigger]
            bitmap_ids(found).contains(id) ==> listed@.contains(id) && (filter matches Some(set)
                ==> bitmap_ids(*set).contains(id)),
        bitmap_ids(found).len() < limit ==> forall|id: u64| #[trigger]
            listed@.contains(id) && (filter matches Some(set) ==> bitmap_ids(*set).contains(id))
                ==> bitmap_ids(found).contains(id),
{
    let offered = ids_in(listed@, filter);
    lemma_ids_in_contents(listed@, filter);
    lemma_bounded_contents(offered, limit as nat);
    assert forall|id: u64| #[trigger] bitmap_ids(found).contains(id) implies listed@.contains(id)
        && (filter matches Some(set) ==> bitmap_ids(*set).contains(id)) by {
        assert(offered.contains(id));
    }
    if bitmap_ids(found).len() < limit {
        assert forall|id: u64| #[trigger]
            listed@.contains(id) && (filter matches Some(set) ==> bitmap_ids(*set).contains(
                id,
            )) implies bitmap_ids(found).contains(id) by {
            assert(offered.contains(id));
        }
    }
}

/// Whether some row of the property holds the identifier.
pub open spec fn is_ranged(
    rows: Seq<Option<RangeRow>>,
    property_hash: PropertyHash,
    id: u64,
) -> bool {
    exists|i: int|
        0 <= i < rows.len() && (#[trigger] rows[i] matches Some(row) && row.property_hash@
            == property_hash@ && row.id == id)
}

/// A scan over all values into a set gives at most as many nodes as it may, only
/// such as some row of the property holds and the filter holds too, and all of
/// these if they are fewer.
pub proof fn law_prefix_scans_into_a_set_are_filtered(
    rows: Vec<Option<RangeRow>>,
    property_hash: PropertyHash,
    limit: usize,
    filter: Option<&RoaringTreemap>,
    found: RoaringTreemap,
)
    requires
        call_ensures(
            scan_range_index_prefix_limited,
            (&rows, property_hash, limit, filter),
            found,
        ),
    ensures
        bitmap_ids(found).len() <= limit,
        forall|id: u64| #[trigger]
            bitmap_ids(found).contains(id) ==> is_ranged(rows@, property_hash, id) && (
            filter matches Some(set) ==> bitmap_ids(*set).contains(id)),
        bitmap_ids(found).len() < limit ==> forall|id: u64| #[trigger]
            is_ranged(rows@, property_hash, id) && (filter matches Some(set) ==> bitmap_ids(
                *set,
            ).contains(id)) ==> bitmap_ids(found).contains(id),
{
    let keep = RowFilter {
        direction: None,
        property_hash: Some(property_hash),
        in_lane: false,
        query: None,
    };
    let listed = kept_ids(keep, rows@);
    let places = kept_places(keep, rows@);
    lemma_kept_places(keep, rows@);
    assert forall|id: u64| #[trigger] listed.contains(id) <==> is_ranged(
        rows@,
        property_hash,
        id,
    ) by {
        if listed.contains(id) {
            let n = choose|n: int| 0 <= n < listed.len() && listed[n] == id;
            assert(keeps(keep, rows@[places[n]]));
        }
        if is_ranged(rows@, property_hash, id) {
            let i = choose|i: int|
                0 <= i < rows@.len() && (#[trigger] rows@[i] matches Some(row)
                    && row.property_hash@ == property_hash@ && row.id == id);
            assert(keeps(keep, rows@[i]));
            let n = choose|n: int| 0 <= n < places.len() && places[n] == i;
            assert(listed[n] == id);
        }
    }
    let offered = ids_in(listed, filter);
    lemma_ids_in_contents(listed, filter);
    lemma_bounded_contents(offered, limit as nat);
    assert forall|id: u64| #[trigger] bitmap_ids(found).contains(id) implies is_ranged(
        rows@,
        property_hash,
        id,
    ) && (filter matches Some(set) ==> bitmap_ids(*set).contains(id)) by {
        assert(offered.contains(id));
        assert(listed.contains(id));
    }
    if bitmap_ids(found).len() < limit {
        assert forall|id: u64| #[trigger]
            is_ranged(rows@, property_hash, id) && (filter matches Some(set) ==> bitmap_ids(
                *set,
            ).contains(id)) implies bitmap_ids(found).contains(id) by {
            assert(listed.contains(id));
            assert(offered.contains(id));
        }
    }
}

/// Deleting the rows of a property touches exactly the rows of that property.
pub proof fn law_cleanups_spare_other_properties(
    row: Option<RangeRow>,
    property_hash: PropertyHash,
    deletes: bool,
)
    requires
        call_ensures(deletes_row_of_property, (&row, property_hash), deletes),
    ensures
        deletes ==> row is Some && row->Some_0.property_hash@ == property_hash@,
        row is Some && row->Some_0.property_hash@ == property_hash@ ==> deletes,
{
}

/// The end bound of a prefix parts the keys that start with the prefix from
/// those that come behind them; only a prefix of nothing but full bytes has
/// none.
pub proof fn law_end_bounds_close_their_prefix(
    prefix: &[u8],
    end: Option<Vec<u8>>,
    key: Seq<u8>,
)
    requires
        call_ensures(exclusive_prefix_end_bound, (prefix,), end),
    ensures
        end is None <==> forall|i: int| 0 <= i < prefix@.len() ==> #[trigger] prefix@[i] == 0xff,
        end matches Some(end) ==> (prefix@.is_prefix_of(key) <==> rank_seq(prefix@, key)
            != Rank::Greater && rank_seq(key, end@) == Rank::Less),
{
    lemma_prefix_end_exists(prefix@);
    if end is Some {
        law_prefix_end_is_exact(prefix@, key);
    }
}

proof fn lemma_prefix_end_exists(prefix: Seq<u8>)
    ensures
        prefix_end(prefix) is None <==> forall|i: int|
            0 <= i < prefix.len() ==> #[trigger] prefix[i] == 0xff,
    decreases prefix.len(),
{
    if prefix.len() > 0 {
        let front = prefix.drop_last();
        lemma_prefix_end_exists(front);
        assert(prefix[prefix.len() - 1] == prefix.last());
        if prefix.last() == 0xff {
            if forall|i: int| 0 <= i < front.len() ==> #[trigger] front[i] == 0xff {
                assert forall|i: int| 0 <= i < prefix.len() implies #[trigger] prefix[i] == 0xff by {
                    if i < front.len() {
                        assert(front[i] == prefix[i]);
                    }
                }
            }
            if forall|i: int| 0 <= i < prefix.len() ==> #[trigger] prefix[i] == 0xff {
                assert forall|i: int| 0 <= i < front.len() implies #[trigger] front[i] == 0xff by {
                    assert(prefix[i] == front[i]);
                }
            }
        }
    }
}

/// The key of an edge in a lane has its parts, each in its own place: at a node
/// with the side that the node is on, and globally without either.
pub proof fn law_edge_range_keys_hold_their_parts(
    edge_direction: EdgeDirection,
    node: NodeId,
    property_hash: PropertyHash,
    value: &str,
    edge_id: EdgeId,
    direction: RangeIndexDirection,
    at_node: IndexKey,
    globally: IndexKey,
)
    requires
        call_ensures(
            edge_range_key_with_direction,
            (edge_direction, node, property_hash, value, edge_id, direction),
            at_node,
        ),
        call_ensures(
            global_edge_range_key_with_direction,
            (property_hash, value, edge_id, direction),
            globally,
        ),
    ensures
        at_node is EdgeRange,
        at_node->EdgeRange_edge_direction == edge_direction,
        at_node->EdgeRange_direction == direction,
        at_node->EdgeRange_endpoint == node,
        at_node->EdgeRange_property_hash@ == property_hash@,
        at_node->EdgeRange_value@ == value@,
        at_node->EdgeRange_edge_id == edge_id,
        globally is GlobalEdgeRange,
        globally->GlobalEdgeRange_direction == direction,
        globally->GlobalEdgeRange_property_hash@ == property_hash@,
        globally->GlobalEdgeRange_value@ == value@,
        globally->GlobalEdgeRange_edge_id == edge_id,
{
}

/// The end of a lane is the first key that follows all keys with its prefix.
pub proof fn law_lane_ends_close_their_prefix(prefix: &[u8], end: Vec<u8>, key: Seq<u8>)
    requires
        prefix_end(prefix@) is Some,
        call_ensures(bounded_prefix_end, (prefix,), end),
    ensures
        prefix@.is_prefix_of(key) <==> rank_seq(prefix@, key) != Rank::Greater && rank_seq(
            key,
            end@,
        ) == Rank::Less,
{
    law_prefix_end_is_exact(prefix@, key);
}

} // verus!
