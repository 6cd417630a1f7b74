use helix_db::bitmap::decode_roaring_treemap;
use helix_db::codec::{be_u128, be_vec, push_be, push_le};
use helix_db::graph_contract::{migration_parity_graph_hash_contract, ContractRow};
use helix_db::index_keys::{
    documented_key_bytes, migration_parity_legacy_tenant_key_identity, scoped_key_bytes,
    strip_tenant_envelope, DataScope, EdgeDirection, IndexKey, RangeIndexDirection,
    TENANT_KEY_PREFIX,
};
use helix_db::index_rows::{
    edge_equality_index_members, edge_label_index_members, edge_pair_index_member,
    equality_index_member, global_edge_label_index_member, lookup_equality_index,
    lookup_equality_index_set, row_after_insert, row_after_remove,
    scan_edges_out_by_equality_property_prefix,
    scan_equality_index_property_prefix_limited_filtered, BitmapRowWrite,
};
use helix_db::range_rows::{
    bounded_prefix_end, deletes_row_of_property, edge_range_index_keys,
    exclusive_prefix_end_bound, range_index_key, scan_edge_range_index_with_direction_counted,
    scan_range_index, scan_range_index_bounded, scan_range_index_bounded_limited,
    scan_range_index_bounded_with_direction_limited, scan_range_index_prefix_limited,
    scan_range_index_with_direction_limited, RangeRow,
};
use helix_db::range_scan::{
    edge_range_scan_bounds_with_direction, global_edge_range_scan_bounds_with_direction,
    range_query_matches_value, range_scan_bounds_with_direction, scan_range_is_open, RangeLane,
    RangeQuery, ScanBound,
};
use roaring::RoaringTreemap;

const PROPERTY: [u8; 4] = [1, 2, 3, 4];
const VALUE: [u8; 8] = [5; 8];
const SCOPE: DataScope = DataScope::LegacyUnscoped;

fn queries() -> Vec<RangeQuery<'static>> {
    vec![
        RangeQuery::Gt("001"),
        RangeQuery::Gte("001"),
        RangeQuery::Lt("003"),
        RangeQuery::Lte("003"),
        RangeQuery::Between("001", "003"),
        RangeQuery::BetweenBounds {
            min: "001",
            min_inclusive: false,
            max: "003",
            max_inclusive: false,
        },
        RangeQuery::BetweenBounds {
            min: "001",
            min_inclusive: true,
            max: "003",
            max_inclusive: true,
        },
    ]
}

#[test]
fn range_bound_helpers_cover_every_query_direction_and_endpoint_shape() {
    for direction in [RangeIndexDirection::Asc, RangeIndexDirection::Desc] {
        for query in &queries() {
            let range = range_scan_bounds_with_direction(PROPERTY, query, direction);
            assert!(scan_range_is_open(&range, direction));
            assert!(matches!(range.lane, RangeLane::Node { property_hash: PROPERTY, .. }));

            let range = global_edge_range_scan_bounds_with_direction(PROPERTY, query, direction);
            assert!(scan_range_is_open(&range, direction));
            assert!(matches!(range.lane, RangeLane::GlobalEdge { property_hash: PROPERTY, .. }));

            for outgoing in [true, false] {
                let range =
                    edge_range_scan_bounds_with_direction(7, PROPERTY, query, outgoing, direction);
                assert!(scan_range_is_open(&range, direction));
                let wanted = if outgoing { EdgeDirection::Out } else { EdgeDirection::In };
                assert!(matches!(
                    range.lane,
                    RangeLane::Edge { edge_direction, endpoint: 7, .. } if edge_direction == wanted
                ));
            }
        }
    }
}

#[test]
fn bounds_follow_the_direction_of_the_lane() {
    let query = RangeQuery::Gt("001");
    let range = range_scan_bounds_with_direction(PROPERTY, &query, RangeIndexDirection::Asc);
    assert!(matches!(range.start, ScanBound::ValueStart("001")));
    assert!(matches!(range.end, ScanBound::LaneEnd));
    let range = range_scan_bounds_with_direction(PROPERTY, &query, RangeIndexDirection::Desc);
    assert!(matches!(range.start, ScanBound::LaneStart));
    assert!(matches!(range.end, ScanBound::ValueStart("001")));
    let empty = RangeQuery::Between("003", "001");
    let range = range_scan_bounds_with_direction(PROPERTY, &empty, RangeIndexDirection::Asc);
    assert!(!scan_range_is_open(&range, RangeIndexDirection::Asc));
}

#[test]
fn queries_match_by_byte_order() {
    assert!(range_query_matches_value(&RangeQuery::Gt("001"), b"002"));
    assert!(!range_query_matches_value(&RangeQuery::Gt("001"), b"001"));
    assert!(range_query_matches_value(&RangeQuery::Gte("001"), b"001"));
    assert!(range_query_matches_value(&RangeQuery::Lt("003"), b"0029"));
    assert!(!range_query_matches_value(&RangeQuery::Lte("003"), b"0031"));
    assert!(range_query_matches_value(&RangeQuery::Between("001", "003"), b"003"));
    let inner = RangeQuery::BetweenBounds {
        min: "001",
        min_inclusive: false,
        max: "003",
        max_inclusive: true,
    };
    assert!(!range_query_matches_value(&inner, b"001"));
    assert!(range_query_matches_value(&inner, b"003"));
}

fn replaced(write: BitmapRowWrite) -> Vec<u8> {
    match write {
        BitmapRowWrite::Replace(bytes) => bytes,
        other => panic!("no new value: {other:?}"),
    }
}

fn row(ids: &[u64]) -> Vec<u8> {
    let mut row: Option<Vec<u8>> = None;
    for id in ids {
        row = Some(replaced(row_after_insert(row.as_deref(), *id).unwrap()));
    }
    row.unwrap()
}

#[test]
fn equality_rows_add_look_up_and_remove() {
    let active = row(&[2, 1]);
    assert_eq!(lookup_equality_index(Some(&active)).unwrap(), vec![1, 2]);
    assert!(lookup_equality_index(None).unwrap().is_empty());
    assert_eq!(lookup_equality_index_set(Some(&active)).unwrap().len(), 2);

    let rest = replaced(row_after_remove(Some(&active), 2).unwrap());
    assert_eq!(lookup_equality_index(Some(&rest)).unwrap(), vec![1]);
    assert!(matches!(row_after_remove(Some(&rest), 1).unwrap(), BitmapRowWrite::Delete));
    assert!(matches!(row_after_remove(None, 1).unwrap(), BitmapRowWrite::Keep));

    let broken: &[u8] = b"not a roaring bitmap";
    for error in [
        lookup_equality_index(Some(broken)).unwrap_err(),
        row_after_insert(Some(broken), 1).unwrap_err(),
        row_after_remove(Some(broken), 1).unwrap_err(),
    ] {
        assert!(error.message().contains("Failed to decode RoaringTreemap"));
    }
}

#[test]
fn property_prefix_scans_are_limited_and_filtered() {
    let rows = vec![row(&[1, 2]), row(&[3])];
    let found = scan_equality_index_property_prefix_limited_filtered(&rows, 10, None).unwrap();
    assert_eq!(found.iter().collect::<Vec<_>>(), vec![1, 2, 3]);
    let none = scan_equality_index_property_prefix_limited_filtered(&rows, 0, None).unwrap();
    assert!(none.is_empty());
    let mut filter = RoaringTreemap::new();
    filter.insert(2);
    filter.insert(3);
    let some =
        scan_equality_index_property_prefix_limited_filtered(&rows, 10, Some(&filter)).unwrap();
    assert_eq!(some.iter().collect::<Vec<_>>(), vec![2, 3]);
    let edges = scan_edges_out_by_equality_property_prefix(&rows).unwrap();
    assert_eq!(edges.len(), 3);
    assert!(scan_edges_out_by_equality_property_prefix(&vec![vec![1]]).is_err());
}

#[test]
fn a_limited_scan_reads_no_row_behind_its_limit() {
    let broken = b"not a roaring bitmap".to_vec();
    let rows = vec![row(&[5, 4]), row(&[4, 1]), broken.clone()];
    let found = scan_equality_index_property_prefix_limited_filtered(&rows, 3, None).unwrap();
    assert_eq!(found.iter().collect::<Vec<_>>(), vec![1, 4, 5]);
    let first = scan_equality_index_property_prefix_limited_filtered(&rows, 1, None).unwrap();
    assert_eq!(first.iter().collect::<Vec<_>>(), vec![4]);
    let cause = RoaringTreemap::deserialize_from(broken.as_slice()).unwrap_err();
    let text = format!("Failed to decode RoaringTreemap: {cause}");
    let error = scan_equality_index_property_prefix_limited_filtered(&rows, 4, None).unwrap_err();
    assert_eq!(error.message(), text);
    assert_eq!(scan_edges_out_by_equality_property_prefix(&rows).unwrap_err().message(), text);
    assert_eq!(lookup_equality_index(Some(&broken)).unwrap_err().message(), text);
}

#[test]
fn members_stand_under_their_keys() {
    let member = equality_index_member(PROPERTY, VALUE, 4, SCOPE);
    assert_eq!(member.id, 4);
    assert!(matches!(
        member.key.kind,
        IndexKey::Equality { property_hash: PROPERTY, value_hash: VALUE }
    ));
    let members = edge_label_index_members(1, 2, VALUE, SCOPE);
    assert_eq!(members.len(), 2);
    let members = edge_equality_index_members(1, 2, 9, PROPERTY, VALUE, SCOPE);
    assert_eq!(members.len(), 3);
    assert!(members.iter().all(|member| member.id == 9));
    assert_eq!(global_edge_label_index_member(VALUE, 9, SCOPE).id, 9);
    let member = edge_pair_index_member(1, 2, 9, SCOPE);
    assert!(matches!(member.key.kind, IndexKey::EdgePair { from: 1, to: 2 }));
}

fn range_row(value: &str, id: u64) -> Option<RangeRow> {
    Some(RangeRow {
        direction: RangeIndexDirection::Asc,
        property_hash: PROPERTY,
        value: value.as_bytes().to_vec(),
        id,
        in_lane: true,
    })
}

#[test]
fn range_rows_are_scanned_with_bounds_limits_and_filters() {
    let mut foreign = range_row("002", 8).unwrap();
    foreign.property_hash = [9; 4];
    let rows =
        vec![range_row("001", 1), None, range_row("002", 2), Some(foreign), range_row("003", 3)];
    let asc = RangeIndexDirection::Asc;
    assert_eq!(scan_range_index(&rows, asc, PROPERTY), vec![1, 2, 3]);
    assert!(scan_range_index(&rows, RangeIndexDirection::Desc, PROPERTY).is_empty());
    assert_eq!(scan_range_index_with_direction_limited(&rows, PROPERTY, asc, Some(2)), vec![1, 2]);
    assert_eq!(scan_range_index_bounded(&rows, PROPERTY, RangeQuery::Gt("001")), vec![2, 3]);
    assert_eq!(
        scan_range_index_bounded_with_direction_limited(
            &rows,
            PROPERTY,
            RangeQuery::Gte("001"),
            asc,
            Some(1)
        ),
        vec![1]
    );
    let mut filter = RoaringTreemap::new();
    filter.insert(3);
    let found = scan_range_index_bounded_limited(
        &rows,
        PROPERTY,
        RangeQuery::Gte("001"),
        10,
        Some(&filter),
    );
    assert_eq!(found.iter().collect::<Vec<_>>(), vec![3]);
    assert!(scan_range_index_prefix_limited(&rows, PROPERTY, 0, None).is_empty());
    assert_eq!(scan_range_index_prefix_limited(&rows, PROPERTY, 2, None).len(), 2);
    assert!(deletes_row_of_property(&rows[0], PROPERTY));
    assert!(!deletes_row_of_property(&rows[1], PROPERTY));
    assert!(!deletes_row_of_property(&rows[3], PROPERTY));
}

#[test]
fn edge_range_scans_count_their_rows() {
    let mut outside = range_row("002", 5).unwrap();
    outside.in_lane = false;
    let rows = vec![range_row("001", 1), Some(outside), range_row("002", 2)];
    let (ids, seen) = scan_edge_range_index_with_direction_counted(
        &rows,
        RangeQuery::Lte("002"),
        RangeIndexDirection::Asc,
    );
    assert_eq!(ids, vec![1, 2]);
    assert_eq!(seen, 3);
    let keys =
        edge_range_index_keys(1, 2, 9, PROPERTY, "001", RangeIndexDirection::Desc, SCOPE);
    assert_eq!(keys.len(), 3);
    let key = range_index_key(PROPERTY, "001", 4, RangeIndexDirection::Asc, SCOPE);
    assert!(matches!(key.kind, IndexKey::Range { node_id: 4, .. }));
}

#[test]
fn a_prefix_ends_behind_its_last_key() {
    assert_eq!(exclusive_prefix_end_bound(&[1, 2]), Some(vec![1, 3]));
    assert_eq!(exclusive_prefix_end_bound(&[1, 0xff]), Some(vec![2]));
    assert_eq!(exclusive_prefix_end_bound(&[0xff, 0xff]), None);
    assert_eq!(bounded_prefix_end(&[1, 2]), vec![1, 3]);
}

#[test]
fn tenant_envelope_parity_identity_is_typed_and_legacy_shaped() {
    let tenant = 0x7777_7777_7777_7777_7777_7777_7777_7777u128;
    let scope = DataScope::Tenant(tenant);
    let key = scoped_key_bytes(scope, b"typed node-property key 8");
    let identity = migration_parity_legacy_tenant_key_identity(&key, true);

    assert_eq!(identity, key[1..].to_vec());
    assert_eq!(migration_parity_legacy_tenant_key_identity(&identity, true), identity);

    let managed = scoped_key_bytes(scope, &[0x11; 16]);
    assert_eq!(migration_parity_legacy_tenant_key_identity(&managed, true), managed[1..].to_vec());

    let mut untyped = vec![TENANT_KEY_PREFIX];
    untyped.extend_from_slice(&[0x77; 16]);
    untyped.extend_from_slice(b"not-a-typed-logical-key");
    assert_eq!(migration_parity_legacy_tenant_key_identity(&untyped, false), untyped);
}

#[test]
fn scopes_are_kept_apart() {
    let a = scoped_key_bytes(DataScope::Tenant(10), b"row");
    let b = scoped_key_bytes(DataScope::Tenant(11), b"row");
    assert_ne!(a, b);
    assert_eq!(strip_tenant_envelope(&a), Some((10, b"row".to_vec())));
    assert_eq!(strip_tenant_envelope(b"row"), None);
    assert_eq!(scoped_key_bytes(DataScope::LegacyUnscoped, b"row"), b"row".to_vec());
}

#[test]
fn documented_keys_have_their_layout() {
    let key = IndexKey::Equality { property_hash: PROPERTY, value_hash: VALUE };
    let mut wanted = vec![0x03, 0x00];
    wanted.extend_from_slice(&PROPERTY);
    wanted.extend_from_slice(&VALUE);
    assert_eq!(documented_key_bytes(&key), Some(wanted));
    let key = IndexKey::EdgeLabel { label_hash: VALUE };
    let mut wanted = vec![0x03, 0x04];
    wanted.extend_from_slice(&VALUE);
    assert_eq!(documented_key_bytes(&key), Some(wanted));
    assert_eq!(documented_key_bytes(&IndexKey::EdgePair { from: 1, to: 2 }), None);
}

#[test]
fn numbers_are_written_in_both_byte_orders() {
    assert_eq!(be_vec(0x0102, 4), vec![0, 0, 1, 2]);
    let mut out = vec![9];
    push_be(&mut out, 0x0a0b, 2);
    push_le(&mut out, 0x0102, 3);
    assert_eq!(out, vec![9, 0x0a, 0x0b, 2, 1, 0]);
    assert_eq!(be_u128(&0x1234_5678u128.to_be_bytes()), 0x1234_5678);
}

#[test]
fn the_graph_contract_names_its_keys() {
    let rows = migration_parity_graph_hash_contract(PROPERTY, VALUE, [6; 8], "gold", 1, 2, 9);
    assert!(rows.len() > 10);
    assert!(rows
        .entries()
        .iter()
        .any(|(_, row)| matches!(row, ContractRow::PropertyNameHash(PROPERTY))));
    assert!(matches!(
        rows.get("global_edge_label_key"),
        Some(ContractRow::Key(IndexKey::EdgeLabel { label_hash: [6, 6, 6, 6, 6, 6, 6, 6] }))
    ));
    assert!(matches!(
        rows.get("edge_equality_in_key"),
        Some(ContractRow::Key(IndexKey::EdgeEquality { endpoint: 2, .. }))
    ));
    assert!(matches!(
        rows.get("node_range_desc_value_prefix"),
        Some(ContractRow::ValuePrefix(RangeLane::Node { .. }, value)) if value == "gold"
    ));
    let sorted: Vec<&String> = rows.entries().iter().map(|(name, _)| name).collect();
    let mut again = sorted.clone();
    again.sort();
    assert_eq!(sorted, again);
}

#[test]
fn stored_bitmaps_are_readable_by_the_bitmap_decoder() {
    let bytes = row(&[10, 20]);
    let bitmap = decode_roaring_treemap(&bytes).unwrap();
    assert!(bitmap.contains(10) && bitmap.contains(20) && bitmap.len() == 2);
}
