//! Reads and writes of secondary-index rows.
//!
//! The functions decide which rows an operation touches and what becomes of
//! them; a storage transaction carries the decisions out.

use roaring::RoaringTreemap;
use vstd::prelude::*;

use crate::bitmap::{
    bitmap_extend, bitmap_fault, bitmap_ids, bitmap_retain, bitmap_values, decode_roaring_treemap,
    encode_roaring_treemap, is_ascending, lemma_ascending_unique, lemma_ids_finite, lists_ids,
    serialized_ids,
};
use crate::error::HelixDbError;
use crate::index_keys::{
    DataKey, DataScope, EdgeDirection, EdgeId, IndexKey, IndexKeyModel, NodeId, PropertyHash,
    ValueHash,
};

verus! {

/// An identifier in a bitmap row.
#[derive(Debug, PartialEq, Eq)]
pub struct BitmapMember {
    pub key: DataKey,
    pub id: u64,
}

impl View for BitmapMember {
    type V = ((DataScope, IndexKeyModel), u64);

    open spec fn view(&self) -> ((DataScope, IndexKeyModel), u64) {
        (self.key@, self.id)
    }
}

/// The members of a list.
pub open spec fn members_of(members: Seq<BitmapMember>) -> Seq<
    ((DataScope, IndexKeyModel), u64),
> {
    Seq::new(members.len(), |i: int| members[i]@)
}

/// The keys of a list.
pub open spec fn keys_of(keys: Seq<DataKey>) -> Seq<(DataScope, IndexKeyModel)> {
    Seq::new(keys.len(), |i: int| keys[i]@)
}

/// What becomes of a bitmap row.
#[derive(Debug)]
pub enum BitmapRowWrite {
    /// The row stays as it is.
    Keep,
    /// The row is deleted: its last identifier left.
    Delete,
    /// The row gets this value.
    Replace(Vec<u8>),
}

/// The row of nodes with a property value.
pub fn equality_key(
    property_hash: PropertyHash,
    value_hash: ValueHash,
    scope: DataScope,
) -> (key: DataKey)
    ensures
        key@ == (
            scope,
            IndexKeyModel::Equality { property_hash: property_hash@, value_hash: value_hash@ },
        ),
{
    DataKey { scope, kind: IndexKey::Equality { property_hash, value_hash } }
}

/// The row of neighbors that a node has over edges with a label.
pub fn edge_label_neighbor_key(
    direction: EdgeDirection,
    endpoint: NodeId,
    label_hash: ValueHash,
    scope: DataScope,
) -> (key: DataKey)
    ensures
        key@ == (
            scope,
            IndexKeyModel::EdgeLabelNeighbor { direction, endpoint, label_hash: label_hash@ },
        ),
{
    DataKey { scope, kind: IndexKey::EdgeLabelNeighbor { direction, endpoint, label_hash } }
}

/// The row of edges at a node with a property value.
pub fn edge_equality_key(
    direction: EdgeDirection,
    endpoint: NodeId,
    property_hash: PropertyHash,
    value_hash: ValueHash,
    scope: DataScope,
) -> (key: DataKey)
    ensures
        key@ == (
            scope,
            IndexKeyModel::EdgeEquality {
                direction,
                endpoint,
                property_hash: property_hash@,
                value_hash: value_hash@,
            },
        ),
{
    DataKey {
        scope,
        kind: IndexKey::EdgeEquality { direction, endpoint, property_hash, value_hash },
    }
}

/// The row of all edges with a property value.
pub fn global_edge_equality_key(
    property_hash: PropertyHash,
    value_hash: ValueHash,
    scope: DataScope,
) -> (key: DataKey)
    ensures
        key@ == (
            scope,
            IndexKeyModel::GlobalEdgeEquality {
                property_hash: property_hash@,
                value_hash: value_hash@,
            },
        ),
{
    DataKey { scope, kind: IndexKey::GlobalEdgeEquality { property_hash, value_hash } }
}

/// The row of all edges with a label.
pub fn edge_label_key(label_hash: ValueHash, scope: DataScope) -> (key: DataKey)
    ensures
        key@ == (scope, IndexKeyModel::EdgeLabel { label_hash: label_hash@ }),
{
    DataKey { scope, kind: IndexKey::EdgeLabel { label_hash } }
}

/// The row of edges between two nodes.
pub fn edge_pair_key(from: NodeId, to: NodeId, scope: DataScope) -> (key: DataKey)
    ensures
        key@ == (scope, IndexKeyModel::EdgePair { from, to }),
{
    DataKey { scope, kind: IndexKey::EdgePair { from, to } }
}

/// The row of an edge's end points.
pub fn edge_endpoints_key(edge_id: EdgeId, scope: DataScope) -> (key: DataKey)
    ensures
        key@ == (scope, IndexKeyModel::EdgeEndpoints { edge_id }),
{
    DataKey { scope, kind: IndexKey::EdgeEndpoints { edge_id } }
}

/// The row of an edge's properties.
pub fn edge_properties_key(edge_id: EdgeId, scope: DataScope) -> (key: DataKey)
    ensures
        key@ == (scope, IndexKeyModel::EdgePropertyById { edge_id }),
{
    DataKey { scope, kind: IndexKey::EdgePropertyById { edge_id } }
}

/// Where the equality index files a node.
pub fn equality_index_member(
    property_hash: PropertyHash,
    value_hash: ValueHash,
    node_id: NodeId,
    scope: DataScope,
) -> (member: BitmapMember)
    ensures
        member@ == (
            (
                scope,
                IndexKeyModel::Equality { property_hash: property_hash@, value_hash: value_hash@ },
            ),
            node_id,
        ),
{
    BitmapMember { key: equality_key(property_hash, value_hash, scope), id: node_id }
}

/// Where the edge label index files an edge: the target under the source's
/// outgoing label and the source under the target's incoming label.
pub open spec fn edge_label_members(
    from: NodeId,
    to: NodeId,
    label_hash: Seq<u8>,
    scope: DataScope,
) -> Seq<((DataScope, IndexKeyModel), u64)> {
    seq![
        (
            (
                scope,
                IndexKeyModel::EdgeLabelNeighbor {
                    direction: EdgeDirection::Out,
                    endpoint: from,
                    label_hash,
                },
            ),
            to,
        ),
        (
            (
                scope,
                IndexKeyModel::EdgeLabelNeighbor {
                    direction: EdgeDirection::In,
                    endpoint: to,
                    label_hash,
                },
            ),
            from,
        ),
    ]
}

/// Where the edge label index files an edge.
pub fn edge_label_index_members(
    from: NodeId,
    to: NodeId,
    label_hash: ValueHash,
    scope: DataScope,
) -> (members: Vec<BitmapMember>)
    ensures
        members_of(members@) == edge_label_members(from, to, label_hash@, scope),
{
    let mut members: Vec<BitmapMember> = Vec::new();
    members.push(
        BitmapMember {
            key: edge_label_neighbor_key(EdgeDirection::Out, from, label_hash, scope),
            id: to,
        },
    );
    members.push(
        BitmapMember {
            key: edge_label_neighbor_key(EdgeDirection::In, to, label_hash, scope),
            id: from,
        },
    );
    assert(members_of(members@) =~= edge_label_members(from, to, label_hash@, scope));
    members
}

/// Where the edge equality index files an edge: at its source, at its target,
/// and globally.
pub open spec fn edge_equality_members(
    from: NodeId,
    to: NodeId,
    edge_id: EdgeId,
    property_hash: Seq<u8>,
    value_hash: Seq<u8>,
    scope: DataScope,
) -> Seq<((DataScope, IndexKeyModel), u64)> {
    seq![
        (
            (
                scope,
                IndexKeyModel::EdgeEquality {
                    direction: EdgeDirection::Out,
                    endpoint: from,
                    property_hash,
                    value_hash,
                },
            ),
            edge_id,
        ),
        (
            (
                scope,
                IndexKeyModel::EdgeEquality {
                    direction: EdgeDirection::In,
                    endpoint: to,
                    property_hash,
                    value_hash,
                },
            ),
            edge_id,
        ),
        ((scope, IndexKeyModel::GlobalEdgeEquality { property_hash, value_hash }), edge_id),
    ]
}

/// Where the edge equality index files an edge.
pub fn edge_equality_index_members(
    from: NodeId,
    to: NodeId,
    edge_id: EdgeId,
    property_hash: PropertyHash,
    value_hash: ValueHash,
    scope: DataScope,
) -> (members: Vec<BitmapMember>)
    ensures
        members_of(members@) == edge_equality_members(
            from,
            to,
            edge_id,
            property_hash@,
            value_hash@,
            scope,
        ),
{
    let mut members: Vec<BitmapMember> = Vec::new();
    members.push(
        BitmapMember {
            key: edge_equality_key(EdgeDirection::Out, from, property_hash, value_hash, scope),
            id: edge_id,
        },
    );
    members.push(
        BitmapMember {
            key: edge_equality_key(EdgeDirection::In, to, property_hash, value_hash, scope),
            id: edge_id,
        },
    );
    members.push(
        BitmapMember { key: global_edge_equality_key(property_hash, value_hash, scope), id: edge_id },
    );
    assert(members_of(members@) =~= edge_equality_members(
        from,
        to,
        edge_id,
        property_hash@,
        value_hash@,
        scope,
    ));
    members
}

/// Where the global edge label index files an edge.
pub fn global_edge_label_index_member(
    label_hash: ValueHash,
    edge_id: EdgeId,
    scope: DataScope,
) -> (member: BitmapMember)
    ensures
        member@ == ((scope, IndexKeyModel::EdgeLabel { label_hash: label_hash@ }), edge_id),
{
    BitmapMember { key: edge_label_key(label_hash, scope), id: edge_id }
}

/// Where the pair index files an edge.
pub fn edge_pair_index_member(
    from: NodeId,
    to: NodeId,
    edge_id: EdgeId,
    scope: DataScope,
) -> (member: BitmapMember)
    ensures
        member@ == ((scope, IndexKeyModel::EdgePair { from, to }), edge_id),
{
    BitmapMember { key: edge_pair_key(from, to, scope), id: edge_id }
}

/// The identifiers of a bitmap row; an absent row has none.
pub open spec fn row_ids(row: Option<Seq<u8>>) -> Option<Set<u64>> {
    match row {
        Some(bytes) => serialized_ids(bytes),
        None => Some(Set::empty()),
    }
}

/// The bytes of a row, if it is there.
pub open spec fn row_view(row: Option<&[u8]>) -> Option<Seq<u8>> {
    match row {
        Some(bytes) => Some(bytes@),
        None => None,
    }
}

/// Whether a write adds an identifier to a row: the row gets the identifier
/// besides those it had.
pub open spec fn adds(row: Option<Seq<u8>>, id: u64, write: BitmapRowWrite) -> bool {
    &&& write matches BitmapRowWrite::Replace(bytes)
    &&& row_ids(row) matches Some(ids)
    &&& serialized_ids(bytes@) == Some(ids.insert(id))
}

/// Whether a write removes an identifier from a row: an absent row stays
/// absent, a row whose last identifier leaves is deleted, any other row loses
/// the identifier.
pub open spec fn removes(row: Option<Seq<u8>>, id: u64, write: BitmapRowWrite) -> bool {
    match write {
        BitmapRowWrite::Keep => row is None,
        BitmapRowWrite::Delete => {
            &&& row is Some
            &&& row_ids(row) matches Some(ids)
            &&& ids.remove(id) == Set::<u64>::empty()
        },
        BitmapRowWrite::Replace(bytes) => {
            &&& row is Some
            &&& row_ids(row) matches Some(ids)
            &&& ids.remove(id) != Set::<u64>::empty()
            &&& serialized_ids(bytes@) == Some(ids.remove(id))
        },
    }
}

/// What adding an identifier makes of a bitmap row.
pub fn row_after_insert(row: Option<&[u8]>, id: u64) -> (write: Result<BitmapRowWrite, HelixDbError>)
    ensures
        match write {
            Ok(write) => adds(row_view(row), id, write),
            Err(error) => row_ids(row_view(row)) is None && error@ == bitmap_fault(
                row_view(row)->Some_0,
            ),
        },
{
    let mut bitmap = match row {
        Some(data) => match decode_roaring_treemap(data) {
            Ok(bitmap) => bitmap,
            Err(error) => {
                return Err(error);
            },
        },
        None => RoaringTreemap::new(),
    };
    let _ = bitmap.insert(id);
    Ok(BitmapRowWrite::Replace(encode_roaring_treemap(&bitmap)))
}

/// What removing an identifier makes of a bitmap row.
pub fn row_after_remove(row: Option<&[u8]>, id: u64) -> (write: Result<BitmapRowWrite, HelixDbError>)
    ensures
        match write {
            Ok(write) => removes(row_view(row), id, write),
            Err(error) => row_ids(row_view(row)) is None && error@ == bitmap_fault(
                row_view(row)->Some_0,
            ),
        },
{
    match row {
        None => Ok(BitmapRowWrite::Keep),
        Some(data) => match decode_roaring_treemap(data) {
            Err(error) => Err(error),
            Ok(mut bitmap) => {
                let _ = bitmap.remove(id);
                if bitmap.is_empty() {
                    Ok(BitmapRowWrite::Delete)
                } else {
                    Ok(BitmapRowWrite::Replace(encode_roaring_treemap(&bitmap)))
                }
            },
        },
    }
}

/// The rows of a store, by their keys.
pub type Rows = Map<(DataScope, IndexKeyModel), Seq<u8>>;

/// The row under a key, if there is one.
pub open spec fn stored(rows: Rows, key: (DataScope, IndexKeyModel)) -> Option<Seq<u8>> {
    if rows.dom().contains(key) {
        Some(rows[key])
    } else {
        None
    }
}

/// The rows that a write leaves behind.
pub open spec fn written(
    rows: Rows,
    key: (DataScope, IndexKeyModel),
    write: BitmapRowWrite,
) -> Rows {
    match write {
        BitmapRowWrite::Keep => rows,
        BitmapRowWrite::Delete => rows.remove(key),
        BitmapRowWrite::Replace(bytes) => rows.insert(key, bytes@),
    }
}

/// A lookup after an insert gives the identifier besides those of before.
pub proof fn law_lookup_after_insert(
    rows: Rows,
    key: (DataScope, IndexKeyModel),
    id: u64,
    write: BitmapRowWrite,
)
    requires
        adds(stored(rows, key), id, write),
    ensures
        row_ids(stored(written(rows, key, write), key)) == Some(
            row_ids(stored(rows, key))->Some_0.insert(id),
        ),
{
}

/// A lookup after a removal gives exactly the other identifiers, whatever the
/// row was.
pub proof fn law_lookup_after_remove(
    rows: Rows,
    key: (DataScope, IndexKeyModel),
    id: u64,
    write: BitmapRowWrite,
)
    requires
        removes(stored(rows, key), id, write),
    ensures
        row_ids(stored(written(rows, key, write), key)) == Some(
            row_ids(stored(rows, key))->Some_0.remove(id),
        ),
{
    assert(Set::<u64>::empty().remove(id) =~= Set::<u64>::empty());
}

/// Removing an identifier that was new restores what the row lists.
pub proof fn law_remove_undoes_insert(
    rows: Rows,
    key: (DataScope, IndexKeyModel),
    id: u64,
    added: BitmapRowWrite,
    removed: BitmapRowWrite,
)
    requires
        row_ids(stored(rows, key)) matches Some(ids) && !ids.contains(id),
        adds(stored(rows, key), id, added),
        removes(stored(written(rows, key, added), key), id, removed),
    ensures
        row_ids(stored(written(written(rows, key, added), key, removed), key)) == row_ids(
            stored(rows, key),
        ),
{
    let ids = row_ids(stored(rows, key))->Some_0;
    law_lookup_after_insert(rows, key, id, added);
    law_lookup_after_remove(written(rows, key, added), key, id, removed);
    assert(ids.insert(id).remove(id) =~= ids);
}

/// A write touches no row under another key; so a tenant's rows are not seen
/// in, nor changed by, another scope.
pub proof fn law_writes_stay_in_their_scope(
    rows: Rows,
    key: (DataScope, IndexKeyModel),
    write: BitmapRowWrite,
    other: (DataScope, IndexKeyModel),
)
    requires
        other.0 != key.0 || other.1 != key.1,
    ensures
        stored(written(rows, key, write), other) == stored(rows, other),
{
}

/// Looks up a bitmap row as a list of identifiers in ascending order.
pub fn lookup_equality_index(row: Option<&[u8]>) -> (found: Result<Vec<u64>, HelixDbError>)
    ensures
        match found {
            Ok(ids) => row_ids(row_view(row)) matches Some(set) && lists_ids(ids@, set),
            Err(error) => row_ids(row_view(row)) is None && error@ == bitmap_fault(
                row_view(row)->Some_0,
            ),
        },
{
    match row {
        Some(data) => match decode_roaring_treemap(data) {
            Ok(bitmap) => Ok(bitmap_values(&bitmap)),
            Err(error) => Err(error),
        },
        None => {
            let ids: Vec<u64> = Vec::new();
            assert(forall|id: u64| !ids@.contains(id));
            Ok(ids)
        },
    }
}

/// Looks up a bitmap row as a set of identifiers.
pub fn lookup_equality_index_set(row: Option<&[u8]>) -> (found: Result<RoaringTreemap, HelixDbError>)
    ensures
        match found {
            Ok(bitmap) => row_ids(row_view(row)) == Some(bitmap_ids(bitmap)),
            Err(error) => row_ids(row_view(row)) is None && error@ == bitmap_fault(
                row_view(row)->Some_0,
            ),
        },
{
    match row {
        Some(data) => decode_roaring_treemap(data),
        None => Ok(RoaringTreemap::new()),
    }
}

/// The ascending list of a set of identifiers.
pub open spec fn ascending_list(ids: Set<u64>) -> Seq<u64> {
    choose|list: Seq<u64>| lists_ids(list, ids)
}

/// The identifiers of `ids` taken in order, while fewer than `limit` are held.
pub open spec fn bounded_set(held: Set<u64>, ids: Seq<u64>, limit: nat) -> Set<u64>
    decreases ids.len(),
{
    if ids.len() == 0 {
        held
    } else {
        let before = bounded_set(held, ids.drop_last(), limit);
        if before.len() >= limit {
            before
        } else {
            before.insert(ids.last())
        }
    }
}

/// The identifiers that a filter leaves, or all without one.
pub open spec fn filtered(ids: Set<u64>, filter: Option<&RoaringTreemap>) -> Set<u64> {
    match filter {
        Some(filter) => ids.intersect(bitmap_ids(*filter)),
        None => ids,
    }
}

/// What a limited scan of bitmap rows collects, row by row and each row in
/// ascending order. Rows behind the limit are not read; before it an
/// unreadable row ends the scan without a result.
pub open spec fn equality_scan(
    rows: Seq<Seq<u8>>,
    filter: Option<&RoaringTreemap>,
    limit: nat,
) -> Option<Set<u64>>
    decreases rows.len(),
{
    if rows.len() == 0 {
        Some(Set::empty())
    } else {
        match equality_scan(rows.drop_last(), filter, limit) {
            None => None,
            Some(held) => if held.len() >= limit {
                Some(held)
            } else {
                match serialized_ids(rows.last()) {
                    None => None,
                    Some(ids) => Some(
                        bounded_set(held, ascending_list(filtered(ids, filter)), limit),
                    ),
                }
            },
        }
    }
}

/// The scan ends at the unreadable row `at`: it reads all rows before and does
/// not reach the limit with them.
pub open spec fn equality_scan_ends_at(
    rows: Seq<Seq<u8>>,
    filter: Option<&RoaringTreemap>,
    limit: nat,
    at: int,
) -> bool {
    &&& 0 <= at < rows.len()
    &&& equality_scan(rows.take(at), filter, limit) matches Some(held)
    &&& held.len() < limit
    &&& serialized_ids(rows[at]) is None
}

proof fn lemma_bounded_set_len(held: Set<u64>, ids: Seq<u64>, limit: nat)
    requires
        held.finite(),
        held.len() <= limit,
    ensures
        bounded_set(held, ids, limit).finite(),
        held.len() <= bounded_set(held, ids, limit).len() <= limit,
    decreases ids.len(),
{
    if ids.len() > 0 {
        lemma_bounded_set_len(held, ids.drop_last(), limit);
    }
}

proof fn lemma_bounded_set_full(held: Set<u64>, ids: Seq<u64>, limit: nat, done: int)
    requires
        0 <= done <= ids.len(),
        bounded_set(held, ids.take(done), limit).len() >= limit,
    ensures
        bounded_set(held, ids, limit) == bounded_set(held, ids.take(done), limit),
    decreases ids.len() - done,
{
    if done < ids.len() {
        assert(ids.take(done + 1).drop_last() =~= ids.take(done));
        lemma_bounded_set_full(held, ids, limit, done + 1);
    } else {
        assert(ids.take(done) =~= ids);
    }
}

proof fn lemma_equality_scan_full(
    rows: Seq<Seq<u8>>,
    filter: Option<&RoaringTreemap>,
    limit: nat,
    done: int,
)
    requires
        0 <= done <= rows.len(),
        equality_scan(rows.take(done), filter, limit) matches Some(held) && held.len() >= limit,
    ensures
        equality_scan(rows, filter, limit) == equality_scan(rows.take(done), filter, limit),
    decreases rows.len() - done,
{
    if done < rows.len() {
        assert(rows.take(done + 1).drop_last() =~= rows.take(done));
        lemma_equality_scan_full(rows, filter, limit, done + 1);
    } else {
        assert(rows.take(done) =~= rows);
    }
}

proof fn lemma_equality_scan_failed(
    rows: Seq<Seq<u8>>,
    filter: Option<&RoaringTreemap>,
    limit: nat,
    done: int,
)
    requires
        0 <= done <= rows.len(),
        equality_scan(rows.take(done), filter, limit) is None,
    ensures
        equality_scan(rows, filter, limit) is None,
    decreases rows.len() - done,
{
    if done < rows.len() {
        assert(rows.take(done + 1).drop_last() =~= rows.take(done));
        lemma_equality_scan_failed(rows, filter, limit, done + 1);
    } else {
        assert(rows.take(done) =~= rows);
    }
}

/// The bytes of rows.
pub open spec fn rows_view(rows: Seq<Vec<u8>>) -> Seq<Seq<u8>> {
    Seq::new(rows.len(), |i: int| rows[i]@)
}

/// Collects up to `limit` identifiers from the bitmap rows of a property.
///
/// If `filter` is given, only identifiers in it are collected.
pub fn scan_equality_index_property_prefix_limited_filtered(
    rows: &Vec<Vec<u8>>,
    limit: usize,
    filter: Option<&RoaringTreemap>,
) -> (found: Result<RoaringTreemap, HelixDbError>)
    ensures
        match found {
            Ok(bitmap) => equality_scan(rows_view(rows@), filter, limit as nat) == Some(
                bitmap_ids(bitmap),
            ),
            Err(error) => {
                &&& equality_scan(rows_view(rows@), filter, limit as nat) is None
                &&& exists|at: int| #[trigger]
                    equality_scan_ends_at(rows_view(rows@), filter, limit as nat, at) && error@
                        == bitmap_fault(rows_view(rows@)[at])
            },
        },
{
    let ghost all = rows_view(rows@);
    let mut results = RoaringTreemap::new();
    let mut i: usize = 0;
    if limit == 0 {
        proof {
            assert(all.take(0) =~= Seq::empty());
            lemma_equality_scan_full(all, filter, 0, 0);
        }
        return Ok(results);
    }
    assert(all.take(0) =~= Seq::empty());
    while i < rows.len()
        invariant
            i <= rows.len(),
            limit > 0,
            all == rows_view(rows@),
            equality_scan(all.take(i as int), filter, limit as nat) == Some(bitmap_ids(results)),
            bitmap_ids(results).finite(),
            bitmap_ids(results).len() < limit,
        decreases rows.len() - i,
    {
        assert(all.take(i as int + 1).drop_last() =~= all.take(i as int));
        assert(all.take(i as int + 1).last() == rows@[i as int]@);
        let mut indexed = match decode_roaring_treemap(rows[i].as_slice()) {
            Ok(indexed) => indexed,
            Err(error) => {
                proof {
                    lemma_equality_scan_failed(all, filter, limit as nat, i as int + 1);
                    assert(equality_scan_ends_at(all, filter, limit as nat, i as int));
                }
                return Err(error);
            },
        };
        if let Some(other) = filter {
            bitmap_retain(&mut indexed, other);
        }
        let ghost kept = bitmap_ids(indexed);
        let ids = bitmap_values(&indexed);
        proof {
            assert(lists_ids(ids@, kept));
            lemma_ascending_unique(ids@, ascending_list(kept));
        }
        let ghost held = bitmap_ids(results);
        let mut k: usize = 0;
        assert(ids@.take(0) =~= Seq::empty());
        while k < ids.len()
            invariant
                k <= ids.len(),
                i < rows.len(),
                limit > 0,
                all == rows_view(rows@),
                held.finite(),
                held.len() < limit,
                ids@ == ascending_list(kept),
                serialized_ids(all[i as int]) matches Some(row) && kept == filtered(row, filter),
                all.len() == rows@.len(),
                equality_scan(all.take(i as int), filter, limit as nat) == Some(held),
                bitmap_ids(results) == bounded_set(held, ids@.take(k as int), limit as nat),
                bitmap_ids(results).finite(),
                bitmap_ids(results).len() < limit,
            decreases ids.len() - k,
        {
            let id = ids[k];
            proof {
                lemma_bounded_set_len(held, ids@.take(k as int), limit as nat);
                assert(ids@.take(k as int + 1).drop_last() =~= ids@.take(k as int));
                lemma_bounded_set_len(held, ids@.take(k as int + 1), limit as nat);
            }
            let _ = results.insert(id);
            if results.len() >= limit as u64 {
                proof {
                    lemma_bounded_set_full(held, ids@, limit as nat, k as int + 1);
                    assert(all.take(i as int + 1).drop_last() =~= all.take(i as int));
                    lemma_equality_scan_full(all, filter, limit as nat, i as int + 1);
                }
                return Ok(results);
            }
            k = k + 1;
        }
        assert(ids@.take(k as int) =~= ids@);
        i = i + 1;
    }
    assert(all.take(i as int) =~= all);
    Ok(results)
}

/// The identifiers of all rows together.
pub open spec fn union_scan(rows: Seq<Seq<u8>>) -> Option<Set<u64>>
    decreases rows.len(),
{
    if rows.len() == 0 {
        Some(Set::empty())
    } else {
        match (union_scan(rows.drop_last()), serialized_ids(rows.last())) {
            (Some(held), Some(ids)) => Some(held.union(ids)),
            _ => None,
        }
    }
}

/// The row `at` is the first unreadable one.
pub open spec fn union_scan_ends_at(rows: Seq<Seq<u8>>, at: int) -> bool {
    &&& 0 <= at < rows.len()
    &&& union_scan(rows.take(at)) is Some
    &&& serialized_ids(rows[at]) is None
}

proof fn lemma_union_scan_failed(rows: Seq<Seq<u8>>, done: int)
    requires
        0 <= done <= rows.len(),
        union_scan(rows.take(done)) is None,
    ensures
        union_scan(rows) is None,
    decreases rows.len() - done,
{
    if done < rows.len() {
        assert(rows.take(done + 1).drop_last() =~= rows.take(done));
        lemma_union_scan_failed(rows, done + 1);
    } else {
        assert(rows.take(done) =~= rows);
    }
}

/// Collects the edges of all rows of an equality-indexed property.
pub fn scan_edges_out_by_equality_property_prefix(
    rows: &Vec<Vec<u8>>,
) -> (found: Result<RoaringTreemap, HelixDbError>)
    ensures
        match found {
            Ok(bitmap) => union_scan(rows_view(rows@)) == Some(bitmap_ids(bitmap)),
            Err(error) => {
                &&& union_scan(rows_view(rows@)) is None
                &&& exists|at: int| #[trigger]
                    union_scan_ends_at(rows_view(rows@), at) && error@ == bitmap_fault(
                        rows_view(rows@)[at],
                    )
            },
        },
{
    let ghost all = rows_view(rows@);
    let mut results = RoaringTreemap::new();
    let mut i: usize = 0;
    assert(all.take(0) =~= Seq::empty());
    while i < rows.len()
        invariant
            i <= rows.len(),
            all == rows_view(rows@),
            union_scan(all.take(i as int)) == Some(bitmap_ids(results)),
        decreases rows.len() - i,
    {
        assert(all.take(i as int + 1).drop_last() =~= all.take(i as int));
        assert(all.take(i as int + 1).last() == rows@[i as int]@);
        match decode_roaring_treemap(rows[i].as_slice()) {
            Ok(row) => {
                bitmap_extend(&mut results, &row);
            },
            Err(error) => {
                proof {
                    lemma_union_scan_failed(all, i as int + 1);
                    assert(union_scan_ends_at(all, i as int));
                }
                return Err(error);
            },
        }
        i = i + 1;
    }
    assert(all.take(i as int) =~= all);
    Ok(results)
}

/// A bounded set takes nothing but what is offered.
proof fn lemma_bounded_set_offered(held: Set<u64>, ids: Seq<u64>, limit: nat)
    ensures
        forall|id: u64| #[trigger]
            bounded_set(held, ids, limit).contains(id) ==> held.contains(id) || ids.contains(id),
    decreases ids.len(),
{
    if ids.len() > 0 {
        let front = ids.drop_last();
        lemma_bounded_set_offered(held, front, limit);
        assert forall|id: u64| #[trigger]
            bounded_set(held, ids, limit).contains(id) implies held.contains(id) || ids.contains(
            id,
        ) by {
            if bounded_set(held, front, limit).contains(id) {
                if !held.contains(id) {
                    let i = choose|i: int| 0 <= i < front.len() && front[i] == id;
                    assert(ids[i] == id);
                }
            } else {
                assert(ids[ids.len() - 1] == id);
            }
        }
    }
}

/// The elements below `end`, in ascending order.
spec fn list_below(ids: Set<u64>, end: nat) -> Seq<u64>
    decreases end,
{
    if end == 0 {
        Seq::empty()
    } else {
        let front = list_below(ids, (end - 1) as nat);
        if ids.contains((end - 1) as u64) {
            front.push((end - 1) as u64)
        } else {
            front
        }
    }
}

proof fn lemma_list_below(ids: Set<u64>, end: nat)
    requires
        end <= 0x1_0000_0000_0000_0000,
    ensures
        is_ascending(list_below(ids, end)),
        forall|id: u64| #[trigger]
            list_below(ids, end).contains(id) <==> ids.contains(id) && id < end,
    decreases end,
{
    if end > 0 {
        let front = list_below(ids, (end - 1) as nat);
        let list = list_below(ids, end);
        let last = (end - 1) as u64;
        lemma_list_below(ids, (end - 1) as nat);
        assert forall|i: int, j: int|
            #![trigger list[i], list[j]]
            0 <= i < j < list.len() implies list[i] < list[j] by {
            assert(list[i] == front[i]);
            assert(front.contains(front[i]));
            if j < front.len() {
                assert(list[j] == front[j]);
            }
        }
        assert forall|id: u64| #[trigger] list.contains(id) <==> ids.contains(id) && id < end by {
            if list.contains(id) {
                let i = choose|i: int| 0 <= i < list.len() && list[i] == id;
                if i < front.len() {
                    assert(front[i] == id);
                    assert(front.contains(id));
                }
            }
            if ids.contains(id) && id < end {
                if id < last {
                    assert(front.contains(id));
                    let i = choose|i: int| 0 <= i < front.len() && front[i] == id;
                    assert(list[i] == id);
                } else {
                    assert(list[list.len() - 1] == id);
                }
            }
        }
    }
}

/// Every set of identifiers has an ascending list.
proof fn lemma_ascending_list(ids: Set<u64>)
    ensures
        lists_ids(ascending_list(ids), ids),
{
    lemma_list_below(ids, 0x1_0000_0000_0000_0000);
    assert(lists_ids(list_below(ids, 0x1_0000_0000_0000_0000), ids));
}

/// Whether some row lists the identifier.
pub open spec fn is_listed(rows: Seq<Seq<u8>>, id: u64) -> bool {
    exists|i: int|
        0 <= i < rows.len() && (serialized_ids(#[trigger] rows[i]) matches Some(ids)
            && ids.contains(id))
}

/// A limited scan gives at most `limit` identifiers, all of them from the rows,
/// and only such as the filter holds.
pub proof fn law_equality_scan_is_bounded(
    rows: Seq<Seq<u8>>,
    filter: Option<&RoaringTreemap>,
    limit: nat,
)
    requires
        equality_scan(rows, filter, limit) is Some,
    ensures
        equality_scan(rows, filter, limit)->Some_0.len() <= limit,
        forall|id: u64| #[trigger]
            equality_scan(rows, filter, limit)->Some_0.contains(id) ==> is_listed(rows, id) && (
            filter matches Some(filter) ==> bitmap_ids(*filter).contains(id)),
    decreases rows.len(),
{
    lemma_ids_finite(equality_scan(rows, filter, limit)->Some_0);
    if rows.len() > 0 {
        let front = rows.drop_last();
        law_equality_scan_is_bounded(front, filter, limit);
        let held = equality_scan(front, filter, limit)->Some_0;
        let found = equality_scan(rows, filter, limit)->Some_0;
        lemma_ids_finite(held);
        assert forall|id: u64| held.contains(id) implies is_listed(rows, id) by {
            assert(is_listed(front, id));
            let i = choose|i: int|
                0 <= i < front.len() && (serialized_ids(#[trigger] front[i]) matches Some(ids)
                    && ids.contains(id));
            assert(rows[i] == front[i]);
        }
        if held.len() < limit {
            let ids = filtered(serialized_ids(rows.last())->Some_0, filter);
            let list = ascending_list(ids);
            lemma_ascending_list(ids);
            lemma_bounded_set_len(held, list, limit);
            lemma_bounded_set_offered(held, list, limit);
            assert forall|id: u64| #[trigger] found.contains(id) implies is_listed(rows, id) && (
            filter matches Some(filter) ==> bitmap_ids(*filter).contains(id)) by {
                if !held.contains(id) {
                    assert(list.contains(id));
                    assert(ids.contains(id));
                    assert(rows[rows.len() - 1] == rows.last());
                }
            }
        }
    }
}

/// The store goes through the states as the members are added one after the
/// other, each by the write that adds it to its row.
pub open spec fn adds_members(
    states: Seq<Rows>,
    members: Seq<BitmapMember>,
    writes: Seq<BitmapRowWrite>,
) -> bool {
    &&& states.len() == members.len() + 1
    &&& writes.len() == members.len()
    &&& forall|i: int|
        0 <= i < members.len() ==> adds(
            stored(states[i], (#[trigger] members[i]).key@),
            members[i].id,
            writes[i],
        ) && states[i + 1] == written(states[i], members[i].key@, writes[i])
}

/// The store goes through the states as the members are removed one after the
/// other, each by the write that removes it from its row.
pub open spec fn removes_members(
    states: Seq<Rows>,
    members: Seq<BitmapMember>,
    writes: Seq<BitmapRowWrite>,
) -> bool {
    &&& states.len() == members.len() + 1
    &&& writes.len() == members.len()
    &&& forall|i: int|
        0 <= i < members.len() ==> removes(
            stored(states[i], (#[trigger] members[i]).key@),
            members[i].id,
            writes[i],
        ) && states[i + 1] == written(states[i], members[i].key@, writes[i])
}

/// The identifiers that the row under a key lists; none if there is no such row.
pub open spec fn listed_under(rows: Rows, key: (DataScope, IndexKeyModel)) -> Set<u64> {
    row_ids(stored(rows, key))->Some_0
}

/// The row of a node's neighbors over edges with a label.
pub open spec fn neighbors_under(
    scope: DataScope,
    direction: EdgeDirection,
    node: NodeId,
    label_hash: ValueHash,
) -> (DataScope, IndexKeyModel) {
    (
        scope,
        IndexKeyModel::EdgeLabelNeighbor {
            direction,
            endpoint: node,
            label_hash: label_hash@,
        },
    )
}

/// Indexing an edge by its label makes its target an outgoing neighbor of its
/// source and its source an incoming neighbor of its target, and changes no
/// other row: a traversal out of the source reaches the target.
pub proof fn law_labelled_edges_are_followed(
    from: NodeId,
    to: NodeId,
    label_hash: ValueHash,
    scope: DataScope,
    members: Vec<BitmapMember>,
    states: Seq<Rows>,
    writes: Seq<BitmapRowWrite>,
)
    requires
        call_ensures(edge_label_index_members, (from, to, label_hash, scope), members),
        adds_members(states, members@, writes),
    ensures
        ({
            let before = states[0];
            let after = states.last();
            let outgoing = neighbors_under(scope, EdgeDirection::Out, from, label_hash);
            let incoming = neighbors_under(scope, EdgeDirection::In, to, label_hash);
            &&& listed_under(after, outgoing) == listed_under(before, outgoing).insert(to)
            &&& listed_under(after, incoming) == listed_under(before, incoming).insert(from)
            &&& forall|key: (DataScope, IndexKeyModel)|
                key != outgoing && key != incoming ==> #[trigger] stored(after, key) == stored(
                    before,
                    key,
                )
        }),
{
    let models = members_of(members@);
    assert(models.len() == 2);
    assert(models[0] == members@[0]@ && models[1] == members@[1]@);
    assert(states.last() == states[2]);
}

/// Unindexing an edge by its label takes its target from the outgoing neighbors
/// of its source and its source from the incoming neighbors of its target, and
/// changes no other row.
pub proof fn law_unindexed_edges_are_not_followed(
    from: NodeId,
    to: NodeId,
    label_hash: ValueHash,
    scope: DataScope,
    members: Vec<BitmapMember>,
    states: Seq<Rows>,
    writes: Seq<BitmapRowWrite>,
)
    requires
        call_ensures(edge_label_index_members, (from, to, label_hash, scope), members),
        removes_members(states, members@, writes),
    ensures
        ({
            let before = states[0];
            let after = states.last();
            let outgoing = neighbors_under(scope, EdgeDirection::Out, from, label_hash);
            let incoming = neighbors_under(scope, EdgeDirection::In, to, label_hash);
            &&& listed_under(after, outgoing) == listed_under(before, outgoing).remove(to)
            &&& listed_under(after, incoming) == listed_under(before, incoming).remove(from)
            &&& forall|key: (DataScope, IndexKeyModel)|
                key != outgoing && key != incoming ==> #[trigger] stored(after, key) == stored(
                    before,
                    key,
                )
        }),
{
    let models = members_of(members@);
    assert(models.len() == 2);
    assert(models[0] == members@[0]@ && models[1] == members@[1]@);
    assert(states.last() == states[2]);
    law_lookup_after_remove(states[0], members@[0].key@, members@[0].id, writes[0]);
    law_lookup_after_remove(states[1], members@[1].key@, members@[1].id, writes[1]);
}

/// The row of edges at a node with a property value.
pub open spec fn edges_under(
    scope: DataScope,
    direction: EdgeDirection,
    node: NodeId,
    property_hash: PropertyHash,
    value_hash: ValueHash,
) -> (DataScope, IndexKeyModel) {
    (
        scope,
        IndexKeyModel::EdgeEquality {
            direction,
            endpoint: node,
            property_hash: property_hash@,
            value_hash: value_hash@,
        },
    )
}

/// Indexing an edge by a property value lists it among the outgoing edges of
/// its source, the incoming edges of its target and all edges with that value,
/// and changes no other row.
pub proof fn law_edges_are_found_by_their_values(
    from: NodeId,
    to: NodeId,
    edge_id: EdgeId,
    property_hash: PropertyHash,
    value_hash: ValueHash,
    scope: DataScope,
    members: Vec<BitmapMember>,
    states: Seq<Rows>,
    writes: Seq<BitmapRowWrite>,
)
    requires
        call_ensures(
            edge_equality_index_members,
            (from, to, edge_id, property_hash, value_hash, scope),
            members,
        ),
        adds_members(states, members@, writes),
    ensures
        ({
            let before = states[0];
            let after = states.last();
            let outgoing = edges_under(scope, EdgeDirection::Out, from, property_hash, value_hash);
            let incoming = edges_under(scope, EdgeDirection::In, to, property_hash, value_hash);
            let all = (
                scope,
                IndexKeyModel::GlobalEdgeEquality {
                    property_hash: property_hash@,
                    value_hash: value_hash@,
                },
            );
            &&& listed_under(after, outgoing) == listed_under(before, outgoing).insert(edge_id)
            &&& listed_under(after, incoming) == listed_under(before, incoming).insert(edge_id)
            &&& listed_under(after, all) == listed_under(before, all).insert(edge_id)
            &&& forall|key: (DataScope, IndexKeyModel)|
                key != outgoing && key != incoming && key != all ==> #[trigger] stored(after, key)
                    == stored(before, key)
        }),
{
    let models = members_of(members@);
    assert(models.len() == 3);
    assert(models[0] == members@[0]@ && models[1] == members@[1]@ && models[2] == members@[2]@);
    assert(states.last() == states[3]);
}

/// Unindexing an edge by a property value takes it off the same three rows, and
/// changes no other row.
pub proof fn law_edges_are_not_found_by_former_values(
    from: NodeId,
    to: NodeId,
    edge_id: EdgeId,
    property_hash: PropertyHash,
    value_hash: ValueHash,
    scope: DataScope,
    members: Vec<BitmapMember>,
    states: Seq<Rows>,
    writes: Seq<BitmapRowWrite>,
)
    requires
        call_ensures(
            edge_equality_index_members,
            (from, to, edge_id, property_hash, value_hash, scope),
            members,
        ),
        removes_members(states, members@, writes),
    ensures
        ({
            let before = states[0];
            let after = states.last();
            let outgoing = edges_under(scope, EdgeDirection::Out, from, property_hash, value_hash);
            let incoming = edges_under(scope, EdgeDirection::In, to, property_hash, value_hash);
            let all = (
                scope,
                IndexKeyModel::GlobalEdgeEquality {
                    property_hash: property_hash@,
                    value_hash: value_hash@,
                },
            );
            &&& listed_under(after, outgoing) == listed_under(before, outgoing).remove(edge_id)
            &&& listed_under(after, incoming) == listed_under(before, incoming).remove(edge_id)
            &&& listed_under(after, all) == listed_under(before, all).remove(edge_id)
            &&& forall|key: (DataScope, IndexKeyModel)|
                key != outgoing && key != incoming && key != all ==> #[trigger] stored(after, key)
                    == stored(before, key)
        }),
{
    let models = members_of(members@);
    assert(models.len() == 3);
    assert(models[0] == members@[0]@ && models[1] == members@[1]@ && models[2] == members@[2]@);
    assert(states.last() == states[3]);
    law_lookup_after_remove(states[0], members@[0].key@, members@[0].id, writes[0]);
    law_lookup_after_remove(states[1], members@[1].key@, members@[1].id, writes[1]);
    law_lookup_after_remove(states[2], members@[2].key@, members@[2].id, writes[2]);
}

/// Nodes are listed under their property value, edges under their label and
/// under their source and target, each in the row that a lookup reads: the row
/// of the same scope, the same hashes and the same nodes in the same order.
pub proof fn law_members_stand_where_lookups_read(
    property_hash: PropertyHash,
    value_hash: ValueHash,
    label_hash: ValueHash,
    from: NodeId,
    to: NodeId,
    id: u64,
    scope: DataScope,
    by_value: BitmapMember,
    by_label: BitmapMember,
    by_pair: BitmapMember,
    value_row: DataKey,
    label_row: DataKey,
    pair_row: DataKey,
)
    requires
        call_ensures(equality_index_member, (property_hash, value_hash, id, scope), by_value),
        call_ensures(global_edge_label_index_member, (label_hash, id, scope), by_label),
        call_ensures(edge_pair_index_member, (from, to, id, scope), by_pair),
        call_ensures(equality_key, (property_hash, value_hash, scope), value_row),
        call_ensures(edge_label_key, (label_hash, scope), label_row),
        call_ensures(edge_pair_key, (from, to, scope), pair_row),
    ensures
        by_value.id == id && by_label.id == id && by_pair.id == id,
        by_value.key@ == value_row@,
        by_label.key@ == label_row@,
        by_pair.key@ == pair_row@,
        value_row.scope == scope && label_row.scope == scope && pair_row.scope == scope,
        value_row.kind matches IndexKey::Equality { property_hash: p, value_hash: v } && p@
            == property_hash@ && v@ == value_hash@,
        label_row.kind matches IndexKey::EdgeLabel { label_hash: l } && l@ == label_hash@,
        pair_row.kind == (IndexKey::EdgePair { from, to }),
{
}

/// The rows that lookups of an edge read: those of its own scope, end and
/// identifier.
pub proof fn law_edge_rows_are_addressed(
    direction: EdgeDirection,
    node: NodeId,
    edge_id: EdgeId,
    property_hash: PropertyHash,
    value_hash: ValueHash,
    scope: DataScope,
    neighbors: DataKey,
    edges: DataKey,
    all_edges: DataKey,
    endpoints: DataKey,
    properties: DataKey,
)
    requires
        call_ensures(edge_label_neighbor_key, (direction, node, value_hash, scope), neighbors),
        call_ensures(
            edge_equality_key,
            (direction, node, property_hash, value_hash, scope),
            edges,
        ),
        call_ensures(global_edge_equality_key, (property_hash, value_hash, scope), all_edges),
        call_ensures(edge_endpoints_key, (edge_id, scope), endpoints),
        call_ensures(edge_properties_key, (edge_id, scope), properties),
    ensures
        neighbors@ == neighbors_under(scope, direction, node, value_hash),
        edges@ == edges_under(scope, direction, node, property_hash, value_hash),
        neighbors.scope == scope && edges.scope == scope && all_edges.scope == scope,
        endpoints.scope == scope && properties.scope == scope,
        neighbors.kind matches IndexKey::EdgeLabelNeighbor {
            direction: d,
            endpoint,
            label_hash,
        } && d == direction && endpoint == node && label_hash@ == value_hash@,
        edges.kind matches IndexKey::EdgeEquality {
            direction: d,
            endpoint,
            property_hash: p,
            value_hash: v,
        } && d == direction && endpoint == node && p@ == property_hash@ && v@ == value_hash@,
        all_edges.kind matches IndexKey::GlobalEdgeEquality { property_hash: p, value_hash: v }
            && p@ == property_hash@ && v@ == value_hash@,
        endpoints.kind == (IndexKey::EdgeEndpoints { edge_id }),
        properties.kind == (IndexKey::EdgePropertyById { edge_id }),
{
}

/// Adding an identifier to a row and looking the row up gives the identifiers
/// of before with the new one; removing it again gives those of before without
/// it; a row whose last identifier leaves is deleted, and no row is made by a
/// removal.
pub proof fn law_rows_list_what_was_added(
    row: Option<&[u8]>,
    id: u64,
    added: Result<BitmapRowWrite, HelixDbError>,
    removed: Result<BitmapRowWrite, HelixDbError>,
    before: Result<RoaringTreemap, HelixDbError>,
)
    requires
        call_ensures(row_after_insert, (row, id), added),
        call_ensures(row_after_remove, (row, id), removed),
        call_ensures(lookup_equality_index_set, (row,), before),
    ensures
        added is Err <==> before is Err,
        removed is Err <==> before is Err,
        row is None ==> before is Ok && bitmap_ids(before->Ok_0) == Set::<u64>::empty(),
        before matches Ok(ids) ==> {
            &&& added->Ok_0 is Replace
            &&& serialized_ids(added->Ok_0->Replace_0@) == Some(bitmap_ids(ids).insert(id))
            &&& row is None <==> removed->Ok_0 is Keep
            &&& row is Some && bitmap_ids(ids).remove(id) == Set::<u64>::empty()
                <==> removed->Ok_0 is Delete
            &&& removed->Ok_0 matches BitmapRowWrite::Replace(bytes) ==> serialized_ids(bytes@)
                == Some(bitmap_ids(ids).remove(id))
        },
{
}

/// A lookup lists the identifiers of the row, each once and in ascending order;
/// both forms of a lookup give the same identifiers, and an absent row none.
pub proof fn law_lookups_agree(
    row: Option<&[u8]>,
    listed: Result<Vec<u64>, HelixDbError>,
    collected: Result<RoaringTreemap, HelixDbError>,
)
    requires
        call_ensures(lookup_equality_index, (row,), listed),
        call_ensures(lookup_equality_index_set, (row,), collected),
    ensures
        listed is Ok <==> collected is Ok,
        row is None ==> listed is Ok && listed->Ok_0@.len() == 0,
        listed matches Ok(ids) ==> {
            &&& forall|i: int, j: int|
                #![trigger ids@[i], ids@[j]]
                0 <= i < j < ids@.len() ==> ids@[i] < ids@[j]
            &&& forall|id: u64| #[trigger]
                ids@.contains(id) <==> bitmap_ids(collected->Ok_0).contains(id)
        },
        listed matches Err(error) ==> collected matches Err(other) && other@ == error@,
{
    if row is None {
        if listed->Ok_0@.len() > 0 {
            assert(listed->Ok_0@.contains(listed->Ok_0@[0]));
        }
    }
}

proof fn lemma_bounded_set_keeps_held(held: Set<u64>, ids: Seq<u64>, limit: nat)
    ensures
        held.subset_of(bounded_set(held, ids, limit)),
    decreases ids.len(),
{
    if ids.len() > 0 {
        lemma_bounded_set_keeps_held(held, ids.drop_last(), limit);
    }
}

proof fn lemma_bounded_set_takes_all(held: Set<u64>, ids: Seq<u64>, limit: nat)
    requires
        bounded_set(held, ids, limit).len() < limit,
    ensures
        forall|id: u64| #[trigger]
            ids.contains(id) ==> bounded_set(held, ids, limit).contains(id),
    decreases ids.len(),
{
    if ids.len() > 0 {
        let front = ids.drop_last();
        let before = bounded_set(held, front, limit);
        if before.len() < limit {
            lemma_bounded_set_takes_all(held, front, limit);
        }
        assert forall|id: u64| #[trigger] ids.contains(id) implies bounded_set(
            held,
            ids,
            limit,
        ).contains(id) by {
            let i = choose|i: int| 0 <= i < ids.len() && ids[i] == id;
            if i < front.len() {
                assert(front[i] == id);
                assert(front.contains(id));
            }
        }
    }
}

/// A scan that finds fewer identifiers than it may give has found all that the
/// rows list and the filter holds; a scan never stops short of its limit
/// otherwise.
pub proof fn law_equality_scan_stops_only_at_its_limit(
    rows: Seq<Seq<u8>>,
    filter: Option<&RoaringTreemap>,
    limit: nat,
)
    requires
        equality_scan(rows, filter, limit) matches Some(found) && found.len() < limit,
    ensures
        forall|i: int| 0 <= i < rows.len() ==> serialized_ids(#[trigger] rows[i]) is Some,
        forall|id: u64|
            #[trigger] is_listed(rows, id) && (filter matches Some(filter) ==> bitmap_ids(
                *filter,
            ).contains(id)) ==> equality_scan(rows, filter, limit)->Some_0.contains(id),
    decreases rows.len(),
{
    let found = equality_scan(rows, filter, limit)->Some_0;
    if rows.len() > 0 {
        let front = rows.drop_last();
        let held = equality_scan(front, filter, limit)->Some_0;
        law_equality_scan_stops_only_at_its_limit(front, filter, limit);
        let ids = filtered(serialized_ids(rows.last())->Some_0, filter);
        let list = ascending_list(ids);
        lemma_ascending_list(ids);
        lemma_bounded_set_keeps_held(held, list, limit);
        lemma_bounded_set_takes_all(held, list, limit);
        assert forall|i: int| 0 <= i < rows.len() implies serialized_ids(
            #[trigger] rows[i],
        ) is Some by {
            if i < front.len() {
                assert(front[i] == rows[i]);
            }
        }
        assert forall|id: u64|
            #[trigger] is_listed(rows, id) && (filter matches Some(filter) ==> bitmap_ids(
                *filter,
            ).contains(id)) implies found.contains(id) by {
            let i = choose|i: int|
                0 <= i < rows.len() && (serialized_ids(#[trigger] rows[i]) matches Some(ids)
                    && ids.contains(id));
            if i < front.len() {
                assert(front[i] == rows[i]);
                assert(is_listed(front, id));
            } else {
                assert(ids.contains(id));
                assert(list.contains(id));
            }
        }
    }
}

/// A scan of an indexed property gives at most as many identifiers as it may,
/// only such as some row lists and the filter holds, and all of these if they
/// are fewer.
pub proof fn law_equality_scans_find_members(
    rows: Vec<Vec<u8>>,
    limit: usize,
    filter: Option<&RoaringTreemap>,
    found: Result<RoaringTreemap, HelixDbError>,
)
    requires
        call_ensures(
            scan_equality_index_property_prefix_limited_filtered,
            (&rows, limit, filter),
            found,
        ),
        found is Ok,
    ensures
        ({
            let ids = bitmap_ids(found->Ok_0);
            &&& ids.len() <= limit
            &&& forall|id: u64| #[trigger]
                ids.contains(id) ==> is_listed(rows_view(rows@), id) && (filter matches Some(filter)
                    ==> bitmap_ids(*filter).contains(id))
            &&& ids.len() < limit ==> forall|id: u64|
                #[trigger] is_listed(rows_view(rows@), id) && (filter matches Some(filter)
                    ==> bitmap_ids(*filter).contains(id)) ==> ids.contains(id)
        }),
{
    law_equality_scan_is_bounded(rows_view(rows@), filter, limit as nat);
    if bitmap_ids(found->Ok_0).len() < limit {
        law_equality_scan_stops_only_at_its_limit(rows_view(rows@), filter, limit as nat);
    }
}

proof fn lemma_union_scan(rows: Seq<Seq<u8>>)
    ensures
        union_scan(rows) is Some <==> forall|i: int|
            0 <= i < rows.len() ==> serialized_ids(#[trigger] rows[i]) is Some,
        union_scan(rows) matches Some(found) ==> forall|id: u64| #[trigger]
            found.contains(id) <==> is_listed(rows, id),
    decreases rows.len(),
{
    if rows.len() > 0 {
        let front = rows.drop_last();
        lemma_union_scan(front);
        assert(rows[rows.len() - 1] == rows.last());
        if forall|i: int| 0 <= i < rows.len() ==> serialized_ids(#[trigger] rows[i]) is Some {
            assert forall|i: int| 0 <= i < front.len() implies serialized_ids(
                #[trigger] front[i],
            ) is Some by {
                assert(rows[i] == front[i]);
            }
        }
        if union_scan(rows) is Some {
            assert forall|i: int| 0 <= i < rows.len() implies serialized_ids(
                #[trigger] rows[i],
            ) is Some by {
                if i < front.len() {
                    assert(front[i] == rows[i]);
                }
            }
            assert forall|id: u64| #[trigger]
                union_scan(rows)->Some_0.contains(id) <==> is_listed(rows, id) by {
                if is_listed(front, id) {
                    let i = choose|i: int|
                        0 <= i < front.len() && (serialized_ids(#[trigger] front[i]) matches Some(
                            ids,
                        ) && ids.contains(id));
                    assert(rows[i] == front[i]);
                }
                if is_listed(rows, id) {
                    let i = choose|i: int|
                        0 <= i < rows.len() && (serialized_ids(#[trigger] rows[i]) matches Some(ids)
                            && ids.contains(id));
                    if i < front.len() {
                        assert(front[i] == rows[i]);
                        assert(is_listed(front, id));
                    }
                }
            }
        }
    }
}

/// A scan over all values of a property gives exactly the edges that some row
/// lists, and fails exactly if some row cannot be read.
pub proof fn law_union_scans_find_all_members(
    rows: Vec<Vec<u8>>,
    found: Result<RoaringTreemap, HelixDbError>,
)
    requires
        call_ensures(scan_edges_out_by_equality_property_prefix, (&rows,), found),
    ensures
        found is Ok <==> forall|i: int|
            0 <= i < rows@.len() ==> serialized_ids((#[trigger] rows@[i])@) is Some,
        found matches Ok(bitmap) ==> forall|id: u64| #[trigger]
            bitmap_ids(bitmap).contains(id) <==> is_listed(rows_view(rows@), id),
{
    let all = rows_view(rows@);
    lemma_union_scan(all);
    if forall|i: int| 0 <= i < rows@.len() ==> serialized_ids((#[trigger] rows@[i])@) is Some {
        assert forall|i: int| 0 <= i < all.len() implies serialized_ids(#[trigger] all[i]) is Some by {
            assert(all[i] == rows@[i]@);
        }
    }
    if found is Ok {
        assert forall|i: int| 0 <= i < rows@.len() implies serialized_ids(
            (#[trigger] rows@[i])@,
        ) is Some by {
            assert(all[i] == rows@[i]@);
        }
        let bitmap = found->Ok_0;
        assert forall|id: u64| #[trigger] bitmap_ids(bitmap).contains(id) <==> is_listed(
            rows_view(rows@),
            id,
        ) by {
            assert(union_scan(all)->Some_0.contains(id) <==> is_listed(all, id));
        }
    }
}

/// What is not taken stands behind all that is taken.
proof fn lemma_bounded_set_is_a_prefix(held: Set<u64>, ids: Seq<u64>, limit: nat, at: int)
    requires
        0 <= at < ids.len(),
        !bounded_set(held, ids, limit).contains(ids[at]),
    ensures
        forall|id: u64| #[trigger]
            bounded_set(held, ids, limit).contains(id) ==> held.contains(id) || ids.take(
                at,
            ).contains(id),
{
    let before = bounded_set(held, ids.take(at), limit);
    assert(ids.take(at + 1).drop_last() =~= ids.take(at));
    if before.len() < limit {
        lemma_bounded_set_grows(held, ids, limit, at + 1);
    } else {
        lemma_bounded_set_full(held, ids, limit, at);
        lemma_bounded_set_offered(held, ids.take(at), limit);
    }
}

proof fn lemma_bounded_set_grows(held: Set<u64>, ids: Seq<u64>, limit: nat, done: int)
    requires
        0 <= done <= ids.len(),
    ensures
        bounded_set(held, ids.take(done), limit).subset_of(bounded_set(held, ids, limit)),
    decreases ids.len() - done,
{
    if done < ids.len() {
        assert(ids.take(done + 1).drop_last() =~= ids.take(done));
        lemma_bounded_set_grows(held, ids, limit, done + 1);
    } else {
        assert(ids.take(done) =~= ids);
    }
}

/// Whether a row lists the identifier and the filter holds it.
pub open spec fn offers(row: Seq<u8>, filter: Option<&RoaringTreemap>, id: u64) -> bool {
    serialized_ids(row) matches Some(ids) && ids.contains(id) && (filter matches Some(filter)
        ==> bitmap_ids(*filter).contains(id))
}

/// Some row up to the given one offers the identifier: an earlier row, or the
/// row itself if the identifier is smaller than the other.
pub open spec fn offered_before(
    rows: Seq<Seq<u8>>,
    filter: Option<&RoaringTreemap>,
    at: int,
    id: u64,
    other: u64,
) -> bool {
    exists|j: int|
        0 <= j <= at && j < rows.len() && offers(#[trigger] rows[j], filter, id) && (j < at || id
            < other)
}

/// A limited scan takes rows in their order and the identifiers of a row in
/// ascending order: of all that it leaves out, nothing comes before what it
/// gives.
pub proof fn law_equality_scans_take_the_first(
    rows: Seq<Seq<u8>>,
    filter: Option<&RoaringTreemap>,
    limit: nat,
    at: int,
    missed: u64,
    given: u64,
)
    requires
        equality_scan(rows, filter, limit) matches Some(found) && found.contains(given)
            && !found.contains(missed),
        0 <= at < rows.len(),
        offers(rows[at], filter, missed),
    ensures
        offered_before(rows, filter, at, given, missed),
    decreases rows.len(),
{
    let front = rows.drop_last();
    let held = equality_scan(front, filter, limit)->Some_0;
    if held.contains(given) {
        lemma_given_is_offered(front, filter, limit, given);
        let j = choose|j: int| 0 <= j < front.len() && offers(#[trigger] front[j], filter, given);
        assert(rows[j] == front[j]);
        if at < front.len() {
            assert(front[at] == rows[at]);
            if !held.contains(missed) {
                law_equality_scans_take_the_first(front, filter, limit, at, missed, given);
                let i = choose|i: int|
                    0 <= i <= at && i < front.len() && offers(#[trigger] front[i], filter, given)
                        && (i < at || given < missed);
                assert(rows[i] == front[i]);
            } else if held.len() < limit {
                let ids = filtered(serialized_ids(rows.last())->Some_0, filter);
                lemma_bounded_set_keeps_held(held, ascending_list(ids), limit);
            }
        }
    } else {
        let ids = filtered(serialized_ids(rows.last())->Some_0, filter);
        let list = ascending_list(ids);
        lemma_ascending_list(ids);
        lemma_bounded_set_offered(held, list, limit);
        assert(list.contains(given));
        assert(ids.contains(given));
        if at < front.len() {
            assert(front[at] == rows[at]);
            assert(is_listed(front, missed));
            law_equality_scan_stops_only_at_its_limit(front, filter, limit);
            lemma_bounded_set_keeps_held(held, list, limit);
            assert(held.contains(missed));
        } else {
            assert(ids.contains(missed));
            assert(list.contains(missed));
            let m = choose|m: int| 0 <= m < list.len() && list[m] == missed;
            lemma_bounded_set_is_a_prefix(held, list, limit, m);
            assert(list.take(m).contains(given));
            let g = choose|g: int| 0 <= g < m && list.take(m)[g] == given;
            assert(list[g] == given);
            assert(offers(rows[at], filter, given));
        }
    }
}

proof fn lemma_given_is_offered(
    rows: Seq<Seq<u8>>,
    filter: Option<&RoaringTreemap>,
    limit: nat,
    id: u64,
)
    requires
        equality_scan(rows, filter, limit) matches Some(found) && found.contains(id),
    ensures
        exists|j: int| 0 <= j < rows.len() && offers(#[trigger] rows[j], filter, id),
{
    law_equality_scan_is_bounded(rows, filter, limit);
    assert(is_listed(rows, id));
    let j = choose|j: int|
        0 <= j < rows.len() && (serialized_ids(#[trigger] rows[j]) matches Some(ids)
            && ids.contains(id));
    assert(offers(rows[j], filter, id));
}

} // verus!
