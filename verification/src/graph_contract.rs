//! The persisted graph keys that depend on hashes, listed for parity evidence.

use vstd::prelude::*;

use crate::index_keys::{
    EdgeDirection, EdgeId, IndexKey, IndexKeyModel, NodeId, PropertyHash, RangeIndexDirection,
    ValueHash,
};
use crate::range_scan::RangeLane;
use crate::text_map::TextMap;

verus! {

/// One persisted form that the contract pins.
#[derive(Debug, PartialEq, Eq)]
pub enum ContractRow {
    /// The hash of the property name.
    PropertyNameHash(PropertyHash),
    /// The hash of the property value.
    PropertyValueHash(ValueHash),
    /// A whole key.
    Key(IndexKey),
    /// The prefix of all equality rows of a property.
    EqualityPrefix(PropertyHash),
    /// The prefix of a range lane.
    LanePrefix(RangeLane),
    /// The prefix of a value in a range lane.
    ValuePrefix(RangeLane, String),
}

/// What a [`ContractRow`] pins.
pub enum ContractRowModel {
    PropertyNameHash(Seq<u8>),
    PropertyValueHash(Seq<u8>),
    Key(IndexKeyModel),
    EqualityPrefix(Seq<u8>),
    LanePrefix(RangeLane),
    ValuePrefix(RangeLane, Seq<char>),
}

impl View for ContractRow {
    type V = ContractRowModel;

    open spec fn view(&self) -> ContractRowModel {
        match self {
            ContractRow::PropertyNameHash(hash) => ContractRowModel::PropertyNameHash(hash@),
            ContractRow::PropertyValueHash(hash) => ContractRowModel::PropertyValueHash(hash@),
            ContractRow::Key(key) => ContractRowModel::Key(key@),
            ContractRow::EqualityPrefix(hash) => ContractRowModel::EqualityPrefix(hash@),
            ContractRow::LanePrefix(lane) => ContractRowModel::LanePrefix(*lane),
            ContractRow::ValuePrefix(lane, value) => ContractRowModel::ValuePrefix(*lane, value@),
        }
    }
}

/// What the rows of a contract pin.
pub open spec fn contract_rows(map: Map<Seq<char>, ContractRow>) -> Map<Seq<char>, ContractRowModel> {
    map.map_values(|row: ContractRow| row@)
}

/// The names of the rows and what they pin.
pub open spec fn graph_hash_rows(
    property_hash: PropertyHash,
    value_hash: ValueHash,
    label_hash: ValueHash,
    value: Seq<char>,
    source: NodeId,
    target: NodeId,
    edge_id: EdgeId,
) -> Map<Seq<char>, ContractRowModel> {
    Map::<Seq<char>, ContractRowModel>::empty()
        .insert(
            "property_name_hash"@,
            ContractRowModel::PropertyNameHash(property_hash@),
        )
        .insert(
            "property_value_hash"@,
            ContractRowModel::PropertyValueHash(value_hash@),
        )
        .insert(
            "node_equality_key"@,
            ContractRowModel::Key(IndexKeyModel::Equality { property_hash: property_hash@, value_hash: value_hash@ }),
        )
        .insert(
            "node_equality_property_prefix"@,
            ContractRowModel::EqualityPrefix(property_hash@),
        )
        .insert(
            "node_range_asc_key"@,
            ContractRowModel::Key(IndexKeyModel::Range { direction: RangeIndexDirection::Asc, property_hash: property_hash@, value, node_id: source }),
        )
        .insert(
            "node_range_asc_property_prefix"@,
            ContractRowModel::LanePrefix(RangeLane::Node { direction: RangeIndexDirection::Asc, property_hash }),
        )
        .insert(
            "node_range_asc_value_prefix"@,
            ContractRowModel::ValuePrefix(RangeLane::Node { direction: RangeIndexDirection::Asc, property_hash }, value),
        )
        .insert(
            "node_range_desc_key"@,
            ContractRowModel::Key(IndexKeyModel::Range { direction: RangeIndexDirection::Desc, property_hash: property_hash@, value, node_id: source }),
        )
        .insert(
            "node_range_desc_property_prefix"@,
            ContractRowModel::LanePrefix(RangeLane::Node { direction: RangeIndexDirection::Desc, property_hash }),
        )
        .insert(
            "node_range_desc_value_prefix"@,
            ContractRowModel::ValuePrefix(RangeLane::Node { direction: RangeIndexDirection::Desc, property_hash }, value),
        )
        .insert(
            "edge_equality_out_key"@,
            ContractRowModel::Key(IndexKeyModel::EdgeEquality { direction: EdgeDirection::Out, endpoint: source, property_hash: property_hash@, value_hash: value_hash@ }),
        )
        .insert(
            "edge_equality_in_key"@,
            ContractRowModel::Key(IndexKeyModel::EdgeEquality { direction: EdgeDirection::In, endpoint: target, property_hash: property_hash@, value_hash: value_hash@ }),
        )
        .insert(
            "global_edge_label_key"@,
            ContractRowModel::Key(IndexKeyModel::EdgeLabel { label_hash: label_hash@ }),
        )
        .insert(
            "edge_label_out_key"@,
            ContractRowModel::Key(IndexKeyModel::EdgeLabelNeighbor { direction: EdgeDirection::Out, endpoint: source, label_hash: label_hash@ }),
        )
        .insert(
            "edge_range_out_asc_key"@,
            ContractRowModel::Key(IndexKeyModel::EdgeRange { edge_direction: EdgeDirection::Out, direction: RangeIndexDirection::Asc, endpoint: source, property_hash: property_hash@, value, edge_id }),
        )
        .insert(
            "edge_range_out_asc_property_prefix"@,
            ContractRowModel::LanePrefix(RangeLane::Edge { edge_direction: EdgeDirection::Out, direction: RangeIndexDirection::Asc, endpoint: source, property_hash }),
        )
        .insert(
            "edge_range_out_asc_value_prefix"@,
            ContractRowModel::ValuePrefix(RangeLane::Edge { edge_direction: EdgeDirection::Out, direction: RangeIndexDirection::Asc, endpoint: source, property_hash }, value),
        )
        .insert(
            "edge_range_out_desc_key"@,
            ContractRowModel::Key(IndexKeyModel::EdgeRange { edge_direction: EdgeDirection::Out, direction: RangeIndexDirection::Desc, endpoint: source, property_hash: property_hash@, value, edge_id }),
        )
        .insert(
            "edge_range_out_desc_property_prefix"@,
            ContractRowModel::LanePrefix(RangeLane::Edge { edge_direction: EdgeDirection::Out, direction: RangeIndexDirection::Desc, endpoint: source, property_hash }),
        )
        .insert(
            "edge_range_out_desc_value_prefix"@,
            ContractRowModel::ValuePrefix(RangeLane::Edge { edge_direction: EdgeDirection::Out, direction: RangeIndexDirection::Desc, endpoint: source, property_hash }, value),
        )
        .insert(
            "edge_label_in_key"@,
            ContractRowModel::Key(IndexKeyModel::EdgeLabelNeighbor { direction: EdgeDirection::In, endpoint: target, label_hash: label_hash@ }),
        )
        .insert(
            "edge_range_in_asc_key"@,
            ContractRowModel::Key(IndexKeyModel::EdgeRange { edge_direction: EdgeDirection::In, direction: RangeIndexDirection::Asc, endpoint: target, property_hash: property_hash@, value, edge_id }),
        )
        .insert(
            "edge_range_in_asc_property_prefix"@,
            ContractRowModel::LanePrefix(RangeLane::Edge { edge_direction: EdgeDirection::In, direction: RangeIndexDirection::Asc, endpoint: target, property_hash }),
        )
        .insert(
            "edge_range_in_asc_value_prefix"@,
            ContractRowModel::ValuePrefix(RangeLane::Edge { edge_direction: EdgeDirection::In, direction: RangeIndexDirection::Asc, endpoint: target, property_hash }, value),
        )
        .insert(
            "edge_range_in_desc_key"@,
            ContractRowModel::Key(IndexKeyModel::EdgeRange { edge_direction: EdgeDirection::In, direction: RangeIndexDirection::Desc, endpoint: target, property_hash: property_hash@, value, edge_id }),
        )
        .insert(
            "edge_range_in_desc_property_prefix"@,
            ContractRowModel::LanePrefix(RangeLane::Edge { edge_direction: EdgeDirection::In, direction: RangeIndexDirection::Desc, endpoint: target, property_hash }),
        )
        .insert(
            "edge_range_in_desc_value_prefix"@,
            ContractRowModel::ValuePrefix(RangeLane::Edge { edge_direction: EdgeDirection::In, direction: RangeIndexDirection::Desc, endpoint: target, property_hash }, value),
        )
}

fn add_contract_row(rows: &mut TextMap<ContractRow>, name: &str, row: ContractRow)
    ensures
        contract_rows(final(rows)@) == contract_rows(old(rows)@).insert(name@, row@),
{
    let ghost before = rows@;
    rows.insert(name.to_owned(), row);
    assert(contract_rows(rows@) =~= contract_rows(before).insert(name@, row@));
}

/// Returns the persisted hash-bearing graph keys of one property and one edge.
pub fn migration_parity_graph_hash_contract(
    property_hash: PropertyHash,
    value_hash: ValueHash,
    label_hash: ValueHash,
    value: &str,
    source: NodeId,
    target: NodeId,
    edge_id: EdgeId,
) -> (rows: TextMap<ContractRow>)
    ensures
        contract_rows(rows@) == graph_hash_rows(
            property_hash,
            value_hash,
            label_hash,
            value@,
            source,
            target,
            edge_id,
        ),
{
    let mut rows: TextMap<ContractRow> = TextMap::new();
    assert(contract_rows(rows@) =~= Map::<Seq<char>, ContractRowModel>::empty());
    add_contract_row(
        &mut rows,
        "property_name_hash",
        ContractRow::PropertyNameHash(property_hash),
    );
    add_contract_row(
        &mut rows,
        "property_value_hash",
        ContractRow::PropertyValueHash(value_hash),
    );
    add_contract_row(
        &mut rows,
        "node_equality_key",
        ContractRow::Key(IndexKey::Equality { property_hash, value_hash }),
    );
    add_contract_row(
        &mut rows,
        "node_equality_property_prefix",
        ContractRow::EqualityPrefix(property_hash),
    );
    add_contract_row(
        &mut rows,
        "node_range_asc_key",
        ContractRow::Key(IndexKey::Range { direction: RangeIndexDirection::Asc, property_hash, value: value.to_owned(), node_id: source }),
    );
    add_contract_row(
        &mut rows,
        "node_range_asc_property_prefix",
        ContractRow::LanePrefix(RangeLane::Node { direction: RangeIndexDirection::Asc, property_hash }),
    );
    add_contract_row(
        &mut rows,
        "node_range_asc_value_prefix",
        ContractRow::ValuePrefix(RangeLane::Node { direction: RangeIndexDirection::Asc, property_hash }, value.to_owned()),
    );
    add_contract_row(
        &mut rows,
        "node_range_desc_key",
        ContractRow::Key(IndexKey::Range { direction: RangeIndexDirection::Desc, property_hash, value: value.to_owned(), node_id: source }),
    );
    add_contract_row(
        &mut rows,
        "node_range_desc_property_prefix",
        ContractRow::LanePrefix(RangeLane::Node { direction: RangeIndexDirection::Desc, property_hash }),
    );
    add_contract_row(
        &mut rows,
        "node_range_desc_value_prefix",
        ContractRow::ValuePrefix(RangeLane::Node { direction: RangeIndexDirection::Desc, property_hash }, value.to_owned()),
    );
    add_contract_row(
        &mut rows,
        "edge_equality_out_key",
        ContractRow::Key(IndexKey::EdgeEquality { direction: EdgeDirection::Out, endpoint: source, property_hash, value_hash }),
    );
    add_contract_row(
        &mut rows,
        "edge_equality_in_key",
        ContractRow::Key(IndexKey::EdgeEquality { direction: EdgeDirection::In, endpoint: target, property_hash, value_hash }),
    );
    add_contract_row(
        &mut rows,
        "global_edge_label_key",
        ContractRow::Key(IndexKey::EdgeLabel { label_hash }),
    );
    add_contract_row(
        &mut rows,
        "edge_label_out_key",
        ContractRow::Key(IndexKey::EdgeLabelNeighbor { direction: EdgeDirection::Out, endpoint: source, label_hash }),
    );
    add_contract_row(
        &mut rows,
        "edge_range_out_asc_key",
        ContractRow::Key(IndexKey::EdgeRange { edge_direction: EdgeDirection::Out, direction: RangeIndexDirection::Asc, endpoint: source, property_hash, value: value.to_owned(), edge_id }),
    );
    add_contract_row(
        &mut rows,
        "edge_range_out_asc_property_prefix",
        ContractRow::LanePrefix(RangeLane::Edge { edge_direction: EdgeDirection::Out, direction: RangeIndexDirection::Asc, endpoint: source, property_hash }),
    );
    add_contract_row(
        &mut rows,
        "edge_range_out_asc_value_prefix",
        ContractRow::ValuePrefix(RangeLane::Edge { edge_direction: EdgeDirection::Out, direction: RangeIndexDirection::Asc, endpoint: source, property_hash }, value.to_owned()),
    );
    add_contract_row(
        &mut rows,
        "edge_range_out_desc_key",
        ContractRow::Key(IndexKey::EdgeRange { edge_direction: EdgeDirection::Out, direction: RangeIndexDirection::Desc, endpoint: source, property_hash, value: value.to_owned(), edge_id }),
    );
    add_contract_row(
        &mut rows,
        "edge_range_out_desc_property_prefix",
        ContractRow::LanePrefix(RangeLane::Edge { edge_direction: EdgeDirection::Out, direction: RangeIndexDirection::Desc, endpoint: source, property_hash }),
    );
    add_contract_row(
        &mut rows,
        "edge_range_out_desc_value_prefix",
        ContractRow::ValuePrefix(RangeLane::Edge { edge_direction: EdgeDirection::Out, direction: RangeIndexDirection::Desc, endpoint: source, property_hash }, value.to_owned()),
    );
    add_contract_row(
        &mut rows,
        "edge_label_in_key",
        ContractRow::Key(IndexKey::EdgeLabelNeighbor { direction: EdgeDirection::In, endpoint: target, label_hash }),
    );
    add_contract_row(
        &mut rows,
        "edge_range_in_asc_key",
        ContractRow::Key(IndexKey::EdgeRange { edge_direction: EdgeDirection::In, direction: RangeIndexDirection::Asc, endpoint: target, property_hash, value: value.to_owned(), edge_id }),
    );
    add_contract_row(
        &mut rows,
        "edge_range_in_asc_property_prefix",
        ContractRow::LanePrefix(RangeLane::Edge { edge_direction: EdgeDirection::In, direction: RangeIndexDirection::Asc, endpoint: target, property_hash }),
    );
    add_contract_row(
        &mut rows,
        "edge_range_in_asc_value_prefix",
        ContractRow::ValuePrefix(RangeLane::Edge { edge_direction: EdgeDirection::In, direction: RangeIndexDirection::Asc, endpoint: target, property_hash }, value.to_owned()),
    );
    add_contract_row(
        &mut rows,
        "edge_range_in_desc_key",
        ContractRow::Key(IndexKey::EdgeRange { edge_direction: EdgeDirection::In, direction: RangeIndexDirection::Desc, endpoint: target, property_hash, value: value.to_owned(), edge_id }),
    );
    add_contract_row(
        &mut rows,
        "edge_range_in_desc_property_prefix",
        ContractRow::LanePrefix(RangeLane::Edge { edge_direction: EdgeDirection::In, direction: RangeIndexDirection::Desc, endpoint: target, property_hash }),
    );
    add_contract_row(
        &mut rows,
        "edge_range_in_desc_value_prefix",
        ContractRow::ValuePrefix(RangeLane::Edge { edge_direction: EdgeDirection::In, direction: RangeIndexDirection::Desc, endpoint: target, property_hash }, value.to_owned()),
    );
    rows
}

/// The names of the rows are all different.
proof fn lemma_row_names()
    ensures
        "property_name_hash"@ != "property_value_hash"@,
        "property_name_hash"@ != "node_equality_key"@,
        "property_name_hash"@ != "node_equality_property_prefix"@,
        "property_name_hash"@ != "node_range_asc_key"@,
        "property_name_hash"@ != "node_range_asc_property_prefix"@,
        "property_name_hash"@ != "node_range_asc_value_prefix"@,
        "property_name_hash"@ != "node_range_desc_key"@,
        "property_name_hash"@ != "node_range_desc_property_prefix"@,
        "property_name_hash"@ != "node_range_desc_value_prefix"@,
        "property_name_hash"@ != "edge_equality_out_key"@,
        "property_name_hash"@ != "edge_equality_in_key"@,
        "property_name_hash"@ != "global_edge_label_key"@,
        "property_name_hash"@ != "edge_label_out_key"@,
        "property_name_hash"@ != "edge_range_out_asc_key"@,
        "property_name_hash"@ != "edge_range_out_asc_property_prefix"@,
        "property_name_hash"@ != "edge_range_out_asc_value_prefix"@,
        "property_name_hash"@ != "edge_range_out_desc_key"@,
        "property_name_hash"@ != "edge_range_out_desc_property_prefix"@,
        "property_name_hash"@ != "edge_range_out_desc_value_prefix"@,
        "property_name_hash"@ != "edge_label_in_key"@,
        "property_name_hash"@ != "edge_range_in_asc_key"@,
        "property_name_hash"@ != "edge_range_in_asc_property_prefix"@,
        "property_name_hash"@ != "edge_range_in_asc_value_prefix"@,
        "property_name_hash"@ != "edge_range_in_desc_key"@,
        "property_name_hash"@ != "edge_range_in_desc_property_prefix"@,
        "property_name_hash"@ != "edge_range_in_desc_value_prefix"@,
        "property_value_hash"@ != "node_equality_key"@,
        "property_value_hash"@ != "node_equality_property_prefix"@,
        "property_value_hash"@ != "node_range_asc_key"@,
        "property_value_hash"@ != "node_range_asc_property_prefix"@,
        "property_value_hash"@ != "node_range_asc_value_prefix"@,
        "property_value_hash"@ != "node_range_desc_key"@,
        "property_value_hash"@ != "node_range_desc_property_prefix"@,
        "property_value_hash"@ != "node_range_desc_value_prefix"@,
        "property_value_hash"@ != "edge_equality_out_key"@,
        "property_value_hash"@ != "edge_equality_in_key"@,
        "property_value_hash"@ != "global_edge_label_key"@,
        "property_value_hash"@ != "edge_label_out_key"@,
        "property_value_hash"@ != "edge_range_out_asc_key"@,
        "property_value_hash"@ != "edge_range_out_asc_property_prefix"@,
        "property_value_hash"@ != "edge_range_out_asc_value_prefix"@,
        "property_value_hash"@ != "edge_range_out_desc_key"@,
        "property_value_hash"@ != "edge_range_out_desc_property_prefix"@,
        "property_value_hash"@ != "edge_range_out_desc_value_prefix"@,
        "property_value_hash"@ != "edge_label_in_key"@,
        "property_value_hash"@ != "edge_range_in_asc_key"@,
        "property_value_hash"@ != "edge_range_in_asc_property_prefix"@,
        "property_value_hash"@ != "edge_range_in_asc_value_prefix"@,
        "property_value_hash"@ != "edge_range_in_desc_key"@,
        "property_value_hash"@ != "edge_range_in_desc_property_prefix"@,
        "property_value_hash"@ != "edge_range_in_desc_value_prefix"@,
        "node_equality_key"@ != "node_equality_property_prefix"@,
        "node_equality_key"@ != "node_range_asc_key"@,
        "node_equality_key"@ != "node_range_asc_property_prefix"@,
        "node_equality_key"@ != "node_range_asc_value_prefix"@,
        "node_equality_key"@ != "node_range_desc_key"@,
        "node_equality_key"@ != "node_range_desc_property_prefix"@,
        "node_equality_key"@ != "node_range_desc_value_prefix"@,
        "node_equality_key"@ != "edge_equality_out_key"@,
        "node_equality_key"@ != "edge_equality_in_key"@,
        "node_equality_key"@ != "global_edge_label_key"@,
        "node_equality_key"@ != "edge_label_out_key"@,
        "node_equality_key"@ != "edge_range_out_asc_key"@,
        "node_equality_key"@ != "edge_range_out_asc_property_prefix"@,
        "node_equality_key"@ != "edge_range_out_asc_value_prefix"@,
        "node_equality_key"@ != "edge_range_out_desc_key"@,
        "node_equality_key"@ != "edge_range_out_desc_property_prefix"@,
        "node_equality_key"@ != "edge_range_out_desc_value_prefix"@,
        "node_equality_key"@ != "edge_label_in_key"@,
        "node_equality_key"@ != "edge_range_in_asc_key"@,
        "node_equality_key"@ != "edge_range_in_asc_property_prefix"@,
        "node_equality_key"@ != "edge_range_in_asc_value_prefix"@,
        "node_equality_key"@ != "edge_range_in_desc_key"@,
        "node_equality_key"@ != "edge_range_in_desc_property_prefix"@,
        "node_equality_key"@ != "edge_range_in_desc_value_prefix"@,
        "node_equality_property_prefix"@ != "node_range_asc_key"@,
        "node_equality_property_prefix"@ != "node_range_asc_property_prefix"@,
        "node_equality_property_prefix"@ != "node_range_asc_value_prefix"@,
        "node_equality_property_prefix"@ != "node_range_desc_key"@,
        "node_equality_property_prefix"@ != "node_range_desc_property_prefix"@,
        "node_equality_property_prefix"@ != "node_range_desc_value_prefix"@,
        "node_equality_property_prefix"@ != "edge_equality_out_key"@,
        "node_equality_property_prefix"@ != "edge_equality_in_key"@,
        "node_equality_property_prefix"@ != "global_edge_label_key"@,
        "node_equality_property_prefix"@ != "edge_label_out_key"@,
        "node_equality_property_prefix"@ != "edge_range_out_asc_key"@,
        "node_equality_property_prefix"@ != "edge_range_out_asc_property_prefix"@,
        "node_equality_property_prefix"@ != "edge_range_out_asc_value_prefix"@,
        "node_equality_property_prefix"@ != "edge_range_out_desc_key"@,
        "node_equality_property_prefix"@ != "edge_range_out_desc_property_prefix"@,
        "node_equality_property_prefix"@ != "edge_range_out_desc_value_prefix"@,
        "node_equality_property_prefix"@ != "edge_label_in_key"@,
        "node_equality_property_prefix"@ != "edge_range_in_asc_key"@,
        "node_equality_property_prefix"@ != "edge_range_in_asc_property_prefix"@,
        "node_equality_property_prefix"@ != "edge_range_in_asc_value_prefix"@,
        "node_equality_property_prefix"@ != "edge_range_in_desc_key"@,
        "node_equality_property_prefix"@ != "edge_range_in_desc_property_prefix"@,
        "node_equality_property_prefix"@ != "edge_range_in_desc_value_prefix"@,
        "node_range_asc_key"@ != "node_range_asc_property_prefix"@,
        "node_range_asc_key"@ != "node_range_asc_value_prefix"@,
        "node_range_asc_key"@ != "node_range_desc_key"@,
        "node_range_asc_key"@ != "node_range_desc_property_prefix"@,
        "node_range_asc_key"@ != "node_range_desc_value_prefix"@,
        "node_range_asc_key"@ != "edge_equality_out_key"@,
        "node_range_asc_key"@ != "edge_equality_in_key"@,
        "node_range_asc_key"@ != "global_edge_label_key"@,
        "node_range_asc_key"@ != "edge_label_out_key"@,
        "node_range_asc_key"@ != "edge_range_out_asc_key"@,
        "node_range_asc_key"@ != "edge_range_out_asc_property_prefix"@,
        "node_range_asc_key"@ != "edge_range_out_asc_value_prefix"@,
        "node_range_asc_key"@ != "edge_range_out_desc_key"@,
        "node_range_asc_key"@ != "edge_range_out_desc_property_prefix"@,
        "node_range_asc_key"@ != "edge_range_out_desc_value_prefix"@,
        "node_range_asc_key"@ != "edge_label_in_key"@,
        "node_range_asc_key"@ != "edge_range_in_asc_key"@,
        "node_range_asc_key"@ != "edge_range_in_asc_property_prefix"@,
        "node_range_asc_key"@ != "edge_range_in_asc_value_prefix"@,
        "node_range_asc_key"@ != "edge_range_in_desc_key"@,
        "node_range_asc_key"@ != "edge_range_in_desc_property_prefix"@,
        "node_range_asc_key"@ != "edge_range_in_desc_value_prefix"@,
        "node_range_asc_property_prefix"@ != "node_range_asc_value_prefix"@,
        "node_range_asc_property_prefix"@ != "node_range_desc_key"@,
        "node_range_asc_property_prefix"@ != "node_range_desc_property_prefix"@,
        "node_range_asc_property_prefix"@ != "node_range_desc_value_prefix"@,
        "node_range_asc_property_prefix"@ != "edge_equality_out_key"@,
        "node_range_asc_property_prefix"@ != "edge_equality_in_key"@,
        "node_range_asc_property_prefix"@ != "global_edge_label_key"@,
        "node_range_asc_property_prefix"@ != "edge_label_out_key"@,
        "node_range_asc_property_prefix"@ != "edge_range_out_asc_key"@,
        "node_range_asc_property_prefix"@ != "edge_range_out_asc_property_prefix"@,
        "node_range_asc_property_prefix"@ != "edge_range_out_asc_value_prefix"@,
        "node_range_asc_property_prefix"@ != "edge_range_out_desc_key"@,
        "node_range_asc_property_prefix"@ != "edge_range_out_desc_property_prefix"@,
        "node_range_asc_property_prefix"@ != "edge_range_out_desc_value_prefix"@,
        "node_range_asc_property_prefix"@ != "edge_label_in_key"@,
        "node_range_asc_property_prefix"@ != "edge_range_in_asc_key"@,
        "node_range_asc_property_prefix"@ != "edge_range_in_asc_property_prefix"@,
        "node_range_asc_property_prefix"@ != "edge_range_in_asc_value_prefix"@,
        "node_range_asc_property_prefix"@ != "edge_range_in_desc_key"@,
        "node_range_asc_property_prefix"@ != "edge_range_in_desc_property_prefix"@,
        "node_range_asc_property_prefix"@ != "edge_range_in_desc_value_prefix"@,
        "node_range_asc_value_prefix"@ != "node_range_desc_key"@,
        "node_range_asc_value_prefix"@ != "node_range_desc_property_prefix"@,
        "node_range_asc_value_prefix"@ != "node_range_desc_value_prefix"@,
        "node_range_asc_value_prefix"@ != "edge_equality_out_key"@,
        "node_range_asc_value_prefix"@ != "edge_equality_in_key"@,
        "node_range_asc_value_prefix"@ != "global_edge_label_key"@,
        "node_range_asc_value_prefix"@ != "edge_label_out_key"@,
        "node_range_asc_value_prefix"@ != "edge_range_out_asc_key"@,
        "node_range_asc_value_prefix"@ != "edge_range_out_asc_property_prefix"@,
        "node_range_asc_value_prefix"@ != "edge_range_out_asc_value_prefix"@,
        "node_range_asc_value_prefix"@ != "edge_range_out_desc_key"@,
        "node_range_asc_value_prefix"@ != "edge_range_out_desc_property_prefix"@,
        "node_range_asc_value_prefix"@ != "edge_range_out_desc_value_prefix"@,
        "node_range_asc_value_prefix"@ != "edge_label_in_key"@,
        "node_range_asc_value_prefix"@ != "edge_range_in_asc_key"@,
        "node_range_asc_value_prefix"@ != "edge_range_in_asc_property_prefix"@,
        "node_range_asc_value_prefix"@ != "edge_range_in_asc_value_prefix"@,
        "node_range_asc_value_prefix"@ != "edge_range_in_desc_key"@,
        "node_range_asc_value_prefix"@ != "edge_range_in_desc_property_prefix"@,
        "node_range_asc_value_prefix"@ != "edge_range_in_desc_value_prefix"@,
        "node_range_desc_key"@ != "node_range_desc_property_prefix"@,
        "node_range_desc_key"@ != "node_range_desc_value_prefix"@,
        "node_range_desc_key"@ != "edge_equality_out_key"@,
        "node_range_desc_key"@ != "edge_equality_in_key"@,
        "node_range_desc_key"@ != "global_edge_label_key"@,
        "node_range_desc_key"@ != "edge_label_out_key"@,
        "node_range_desc_key"@ != "edge_range_out_asc_key"@,
        "node_range_desc_key"@ != "edge_range_out_asc_property_prefix"@,
        "node_range_desc_key"@ != "edge_range_out_asc_value_prefix"@,
        "node_range_desc_key"@ != "edge_range_out_desc_key"@,
        "node_range_desc_key"@ != "edge_range_out_desc_property_prefix"@,
        "node_range_desc_key"@ != "edge_range_out_desc_value_prefix"@,
        "node_range_desc_key"@ != "edge_label_in_key"@,
        "node_range_desc_key"@ != "edge_range_in_asc_key"@,
        "node_range_desc_key"@ != "edge_range_in_asc_property_prefix"@,
        "node_range_desc_key"@ != "edge_range_in_asc_value_prefix"@,
        "node_range_desc_key"@ != "edge_range_in_desc_key"@,
        "node_range_desc_key"@ != "edge_range_in_desc_property_prefix"@,
        "node_range_desc_key"@ != "edge_range_in_desc_value_prefix"@,
        "node_range_desc_property_prefix"@ != "node_range_desc_value_prefix"@,
        "node_range_desc_property_prefix"@ != "edge_equality_out_key"@,
        "node_range_desc_property_prefix"@ != "edge_equality_in_key"@,
        "node_range_desc_property_prefix"@ != "global_edge_label_key"@,
        "node_range_desc_property_prefix"@ != "edge_label_out_key"@,
        "node_range_desc_property_prefix"@ != "edge_range_out_asc_key"@,
        "node_range_desc_property_prefix"@ != "edge_range_out_asc_property_prefix"@,
        "node_range_desc_property_prefix"@ != "edge_range_out_asc_value_prefix"@,
        "node_range_desc_property_prefix"@ != "edge_range_out_desc_key"@,
        "node_range_desc_property_prefix"@ != "edge_range_out_desc_property_prefix"@,
        "node_range_desc_property_prefix"@ != "edge_range_out_desc_value_prefix"@,
        "node_range_desc_property_prefix"@ != "edge_label_in_key"@,
        "node_range_desc_property_prefix"@ != "edge_range_in_asc_key"@,
        "node_range_desc_property_prefix"@ != "edge_range_in_asc_property_prefix"@,
        "node_range_desc_property_prefix"@ != "edge_range_in_asc_value_prefix"@,
        "node_range_desc_property_prefix"@ != "edge_range_in_desc_key"@,
        "node_range_desc_property_prefix"@ != "edge_range_in_desc_property_prefix"@,
        "node_range_desc_property_prefix"@ != "edge_range_in_desc_value_prefix"@,
        "node_range_desc_value_prefix"@ != "edge_equality_out_key"@,
        "node_range_desc_value_prefix"@ != "edge_equality_in_key"@,
        "node_range_desc_value_prefix"@ != "global_edge_label_key"@,
        "node_range_desc_value_prefix"@ != "edge_label_out_key"@,
        "node_range_desc_value_prefix"@ != "edge_range_out_asc_key"@,
        "node_range_desc_value_prefix"@ != "edge_range_out_asc_property_prefix"@,
        "node_range_desc_value_prefix"@ != "edge_range_out_asc_value_prefix"@,
        "node_range_desc_value_prefix"@ != "edge_range_out_desc_key"@,
        "node_range_desc_value_prefix"@ != "edge_range_out_desc_property_prefix"@,
        "node_range_desc_value_prefix"@ != "edge_range_out_desc_value_prefix"@,
        "node_range_desc_value_prefix"@ != "edge_label_in_key"@,
        "node_range_desc_value_prefix"@ != "edge_range_in_asc_key"@,
        "node_range_desc_value_prefix"@ != "edge_range_in_asc_property_prefix"@,
        "node_range_desc_value_prefix"@ != "edge_range_in_asc_value_prefix"@,
        "node_range_desc_value_prefix"@ != "edge_range_in_desc_key"@,
        "node_range_desc_value_prefix"@ != "edge_range_in_desc_property_prefix"@,
        "node_range_desc_value_prefix"@ != "edge_range_in_desc_value_prefix"@,
        "edge_equality_out_key"@ != "edge_equality_in_key"@,
        "edge_equality_out_key"@ != "global_edge_label_key"@,
        "edge_equality_out_key"@ != "edge_label_out_key"@,
        "edge_equality_out_key"@ != "edge_range_out_asc_key"@,
        "edge_equality_out_key"@ != "edge_range_out_asc_property_prefix"@,
        "edge_equality_out_key"@ != "edge_range_out_asc_value_prefix"@,
        "edge_equality_out_key"@ != "edge_range_out_desc_key"@,
        "edge_equality_out_key"@ != "edge_range_out_desc_property_prefix"@,
        "edge_equality_out_key"@ != "edge_range_out_desc_value_prefix"@,
        "edge_equality_out_key"@ != "edge_label_in_key"@,
        "edge_equality_out_key"@ != "edge_range_in_asc_key"@,
        "edge_equality_out_key"@ != "edge_range_in_asc_property_prefix"@,
        "edge_equality_out_key"@ != "edge_range_in_asc_value_prefix"@,
        "edge_equality_out_key"@ != "edge_range_in_desc_key"@,
        "edge_equality_out_key"@ != "edge_range_in_desc_property_prefix"@,
        "edge_equality_out_key"@ != "edge_range_in_desc_value_prefix"@,
        "edge_equality_in_key"@ != "global_edge_label_key"@,
        "edge_equality_in_key"@ != "edge_label_out_key"@,
        "edge_equality_in_key"@ != "edge_range_out_asc_key"@,
        "edge_equality_in_key"@ != "edge_range_out_asc_property_prefix"@,
        "edge_equality_in_key"@ != "edge_range_out_asc_value_prefix"@,
        "edge_equality_in_key"@ != "edge_range_out_desc_key"@,
        "edge_equality_in_key"@ != "edge_range_out_desc_property_prefix"@,
        "edge_equality_in_key"@ != "edge_range_out_desc_value_prefix"@,
        "edge_equality_in_key"@ != "edge_label_in_key"@,
        "edge_equality_in_key"@ != "edge_range_in_asc_key"@,
        "edge_equality_in_key"@ != "edge_range_in_asc_property_prefix"@,
        "edge_equality_in_key"@ != "edge_range_in_asc_value_prefix"@,
        "edge_equality_in_key"@ != "edge_range_in_desc_key"@,
        "edge_equality_in_key"@ != "edge_range_in_desc_property_prefix"@,
        "edge_equality_in_key"@ != "edge_range_in_desc_value_prefix"@,
        "global_edge_label_key"@ != "edge_label_out_key"@,
        "global_edge_label_key"@ != "edge_range_out_asc_key"@,
        "global_edge_label_key"@ != "edge_range_out_asc_property_prefix"@,
        "global_edge_label_key"@ != "edge_range_out_asc_value_prefix"@,
        "global_edge_label_key"@ != "edge_range_out_desc_key"@,
        "global_edge_label_key"@ != "edge_range_out_desc_property_prefix"@,
        "global_edge_label_key"@ != "edge_range_out_desc_value_prefix"@,
        "global_edge_label_key"@ != "edge_label_in_key"@,
        "global_edge_label_key"@ != "edge_range_in_asc_key"@,
        "global_edge_label_key"@ != "edge_range_in_asc_property_prefix"@,
        "global_edge_label_key"@ != "edge_range_in_asc_value_prefix"@,
        "global_edge_label_key"@ != "edge_range_in_desc_key"@,
        "global_edge_label_key"@ != "edge_range_in_desc_property_prefix"@,
        "global_edge_label_key"@ != "edge_range_in_desc_value_prefix"@,
        "edge_label_out_key"@ != "edge_range_out_asc_key"@,
        "edge_label_out_key"@ != "edge_range_out_asc_property_prefix"@,
        "edge_label_out_key"@ != "edge_range_out_asc_value_prefix"@,
        "edge_label_out_key"@ != "edge_range_out_desc_key"@,
        "edge_label_out_key"@ != "edge_range_out_desc_property_prefix"@,
        "edge_label_out_key"@ != "edge_range_out_desc_value_prefix"@,
        "edge_label_out_key"@ != "edge_label_in_key"@,
        "edge_label_out_key"@ != "edge_range_in_asc_key"@,
        "edge_label_out_key"@ != "edge_range_in_asc_property_prefix"@,
        "edge_label_out_key"@ != "edge_range_in_asc_value_prefix"@,
        "edge_label_out_key"@ != "edge_range_in_desc_key"@,
        "edge_label_out_key"@ != "edge_range_in_desc_property_prefix"@,
        "edge_label_out_key"@ != "edge_range_in_desc_value_prefix"@,
        "edge_range_out_asc_key"@ != "edge_range_out_asc_property_prefix"@,
        "edge_range_out_asc_key"@ != "edge_range_out_asc_value_prefix"@,
        "edge_range_out_asc_key"@ != "edge_range_out_desc_key"@,
        "edge_range_out_asc_key"@ != "edge_range_out_desc_property_prefix"@,
        "edge_range_out_asc_key"@ != "edge_range_out_desc_value_prefix"@,
        "edge_range_out_asc_key"@ != "edge_label_in_key"@,
        "edge_range_out_asc_key"@ != "edge_range_in_asc_key"@,
        "edge_range_out_asc_key"@ != "edge_range_in_asc_property_prefix"@,
        "edge_range_out_asc_key"@ != "edge_range_in_asc_value_prefix"@,
        "edge_range_out_asc_key"@ != "edge_range_in_desc_key"@,
        "edge_range_out_asc_key"@ != "edge_range_in_desc_property_prefix"@,
        "edge_range_out_asc_key"@ != "edge_range_in_desc_value_prefix"@,
        "edge_range_out_asc_property_prefix"@ != "edge_range_out_asc_value_prefix"@,
        "edge_range_out_asc_property_prefix"@ != "edge_range_out_desc_key"@,
        "edge_range_out_asc_property_prefix"@ != "edge_range_out_desc_property_prefix"@,
        "edge_range_out_asc_property_prefix"@ != "edge_range_out_desc_value_prefix"@,
        "edge_range_out_asc_property_prefix"@ != "edge_label_in_key"@,
        "edge_range_out_asc_property_prefix"@ != "edge_range_in_asc_key"@,
        "edge_range_out_asc_property_prefix"@ != "edge_range_in_asc_property_prefix"@,
        "edge_range_out_asc_property_prefix"@ != "edge_range_in_asc_value_prefix"@,
        "edge_range_out_asc_property_prefix"@ != "edge_range_in_desc_key"@,
        "edge_range_out_asc_property_prefix"@ != "edge_range_in_desc_property_prefix"@,
        "edge_range_out_asc_property_prefix"@ != "edge_range_in_desc_value_prefix"@,
        "edge_range_out_asc_value_prefix"@ != "edge_range_out_desc_key"@,
        "edge_range_out_asc_value_prefix"@ != "edge_range_out_desc_property_prefix"@,
        "edge_range_out_asc_value_prefix"@ != "edge_range_out_desc_value_prefix"@,
        "edge_range_out_asc_value_prefix"@ != "edge_label_in_key"@,
        "edge_range_out_asc_value_prefix"@ != "edge_range_in_asc_key"@,
        "edge_range_out_asc_value_prefix"@ != "edge_range_in_asc_property_prefix"@,
        "edge_range_out_asc_value_prefix"@ != "edge_range_in_asc_value_prefix"@,
        "edge_range_out_asc_value_prefix"@ != "edge_range_in_desc_key"@,
        "edge_range_out_asc_value_prefix"@ != "edge_range_in_desc_property_prefix"@,
        "edge_range_out_asc_value_prefix"@ != "edge_range_in_desc_value_prefix"@,
        "edge_range_out_desc_key"@ != "edge_range_out_desc_property_prefix"@,
        "edge_range_out_desc_key"@ != "edge_range_out_desc_value_prefix"@,
        "edge_range_out_desc_key"@ != "edge_label_in_key"@,
        "edge_range_out_desc_key"@ != "edge_range_in_asc_key"@,
        "edge_range_out_desc_key"@ != "edge_range_in_asc_property_prefix"@,
        "edge_range_out_desc_key"@ != "edge_range_in_asc_value_prefix"@,
        "edge_range_out_desc_key"@ != "edge_range_in_desc_key"@,
        "edge_range_out_desc_key"@ != "edge_range_in_desc_property_prefix"@,
        "edge_range_out_desc_key"@ != "edge_range_in_desc_value_prefix"@,
        "edge_range_out_desc_property_prefix"@ != "edge_range_out_desc_value_prefix"@,
        "edge_range_out_desc_property_prefix"@ != "edge_label_in_key"@,
        "edge_range_out_desc_property_prefix"@ != "edge_range_in_asc_key"@,
        "edge_range_out_desc_property_prefix"@ != "edge_range_in_asc_property_prefix"@,
        "edge_range_out_desc_property_prefix"@ != "edge_range_in_asc_value_prefix"@,
        "edge_range_out_desc_property_prefix"@ != "edge_range_in_desc_key"@,
        "edge_range_out_desc_property_prefix"@ != "edge_range_in_desc_property_prefix"@,
        "edge_range_out_desc_property_prefix"@ != "edge_range_in_desc_value_prefix"@,
        "edge_range_out_desc_value_prefix"@ != "edge_label_in_key"@,
        "edge_range_out_desc_value_prefix"@ != "edge_range_in_asc_key"@,
        "edge_range_out_desc_value_prefix"@ != "edge_range_in_asc_property_prefix"@,
        "edge_range_out_desc_value_prefix"@ != "edge_range_in_asc_value_prefix"@,
        "edge_range_out_desc_value_prefix"@ != "edge_range_in_desc_key"@,
        "edge_range_out_desc_value_prefix"@ != "edge_range_in_desc_property_prefix"@,
        "edge_range_out_desc_value_prefix"@ != "edge_range_in_desc_value_prefix"@,
        "edge_label_in_key"@ != "edge_range_in_asc_key"@,
        "edge_label_in_key"@ != "edge_range_in_asc_property_prefix"@,
        "edge_label_in_key"@ != "edge_range_in_asc_value_prefix"@,
        "edge_label_in_key"@ != "edge_range_in_desc_key"@,
        "edge_label_in_key"@ != "edge_range_in_desc_property_prefix"@,
        "edge_label_in_key"@ != "edge_range_in_desc_value_prefix"@,
        "edge_range_in_asc_key"@ != "edge_range_in_asc_property_prefix"@,
        "edge_range_in_asc_key"@ != "edge_range_in_asc_value_prefix"@,
        "edge_range_in_asc_key"@ != "edge_range_in_desc_key"@,
        "edge_range_in_asc_key"@ != "edge_range_in_desc_property_prefix"@,
        "edge_range_in_asc_key"@ != "edge_range_in_desc_value_prefix"@,
        "edge_range_in_asc_property_prefix"@ != "edge_range_in_asc_value_prefix"@,
        "edge_range_in_asc_property_prefix"@ != "edge_range_in_desc_key"@,
        "edge_range_in_asc_property_prefix"@ != "edge_range_in_desc_property_prefix"@,
        "edge_range_in_asc_property_prefix"@ != "edge_range_in_desc_value_prefix"@,
        "edge_range_in_asc_value_prefix"@ != "edge_range_in_desc_key"@,
        "edge_range_in_asc_value_prefix"@ != "edge_range_in_desc_property_prefix"@,
        "edge_range_in_asc_value_prefix"@ != "edge_range_in_desc_value_prefix"@,
        "edge_range_in_desc_key"@ != "edge_range_in_desc_property_prefix"@,
        "edge_range_in_desc_key"@ != "edge_range_in_desc_value_prefix"@,
        "edge_range_in_desc_property_prefix"@ != "edge_range_in_desc_value_prefix"@,
{
    reveal_strlit("property_name_hash");
    reveal_strlit("property_value_hash");
    reveal_strlit("node_equality_key");
    reveal_strlit("node_equality_property_prefix");
    reveal_strlit("node_range_asc_key");
    reveal_strlit("node_range_asc_property_prefix");
    reveal_strlit("node_range_asc_value_prefix");
    reveal_strlit("node_range_desc_key");
    reveal_strlit("node_range_desc_property_prefix");
    reveal_strlit("node_range_desc_value_prefix");
    reveal_strlit("edge_equality_out_key");
    reveal_strlit("edge_equality_in_key");
    reveal_strlit("global_edge_label_key");
    reveal_strlit("edge_label_out_key");
    reveal_strlit("edge_range_out_asc_key");
    reveal_strlit("edge_range_out_asc_property_prefix");
    reveal_strlit("edge_range_out_asc_value_prefix");
    reveal_strlit("edge_range_out_desc_key");
    reveal_strlit("edge_range_out_desc_property_prefix");
    reveal_strlit("edge_range_out_desc_value_prefix");
    reveal_strlit("edge_label_in_key");
    reveal_strlit("edge_range_in_asc_key");
    reveal_strlit("edge_range_in_asc_property_prefix");
    reveal_strlit("edge_range_in_asc_value_prefix");
    reveal_strlit("edge_range_in_desc_key");
    reveal_strlit("edge_range_in_desc_property_prefix");
    reveal_strlit("edge_range_in_desc_value_prefix");
    assert("property_name_hash"@.len() == 18);
    assert("property_value_hash"@.len() == 19);
    assert("node_equality_key"@.len() == 17);
    assert("node_equality_property_prefix"@.len() == 29);
    assert("node_range_asc_key"@.len() == 18);
    assert("node_range_asc_property_prefix"@.len() == 30);
    assert("node_range_asc_value_prefix"@.len() == 27);
    assert("node_range_desc_key"@.len() == 19);
    assert("node_range_desc_property_prefix"@.len() == 31);
    assert("node_range_desc_value_prefix"@.len() == 28);
    assert("edge_equality_out_key"@.len() == 21);
    assert("edge_equality_in_key"@.len() == 20);
    assert("global_edge_label_key"@.len() == 21);
    assert("edge_label_out_key"@.len() == 18);
    assert("edge_range_out_asc_key"@.len() == 22);
    assert("edge_range_out_asc_property_prefix"@.len() == 34);
    assert("edge_range_out_asc_value_prefix"@.len() == 31);
    assert("edge_range_out_desc_key"@.len() == 23);
    assert("edge_range_out_desc_property_prefix"@.len() == 35);
    assert("edge_range_out_desc_value_prefix"@.len() == 32);
    assert("edge_label_in_key"@.len() == 17);
    assert("edge_range_in_asc_key"@.len() == 21);
    assert("edge_range_in_asc_property_prefix"@.len() == 33);
    assert("edge_range_in_asc_value_prefix"@.len() == 30);
    assert("edge_range_in_desc_key"@.len() == 22);
    assert("edge_range_in_desc_property_prefix"@.len() == 34);
    assert("edge_range_in_desc_value_prefix"@.len() == 31);
    assert("property_name_hash"@[0] != "node_range_asc_key"@[0]);
    assert("property_name_hash"@[0] != "edge_label_out_key"@[0]);
    assert("property_value_hash"@[0] != "node_range_desc_key"@[0]);
    assert("node_equality_key"@[0] != "edge_label_in_key"@[0]);
    assert("node_range_asc_key"@[0] != "edge_label_out_key"@[0]);
    assert("node_range_asc_property_prefix"@[0] != "edge_range_in_asc_value_prefix"@[0]);
    assert("node_range_desc_property_prefix"@[0] != "edge_range_out_asc_value_prefix"@[0]);
    assert("node_range_desc_property_prefix"@[0] != "edge_range_in_desc_value_prefix"@[0]);
    assert("edge_equality_out_key"@[0] != "global_edge_label_key"@[0]);
    assert("edge_equality_out_key"@[5] != "edge_range_in_asc_key"@[5]);
    assert("global_edge_label_key"@[0] != "edge_range_in_asc_key"@[0]);
    assert("edge_range_out_asc_key"@[11] != "edge_range_in_desc_key"@[11]);
    assert("edge_range_out_asc_property_prefix"@[11] != "edge_range_in_desc_property_prefix"@[11]);
    assert("edge_range_out_asc_value_prefix"@[11] != "edge_range_in_desc_value_prefix"@[11]);
}

/// The key is that of the nodes with the value of the property.
pub open spec fn names_equality(key: IndexKey, property: PropertyHash, value: ValueHash) -> bool {
    key matches IndexKey::Equality { property_hash, value_hash } && property_hash@ == property@
        && value_hash@ == value@
}

/// The key is that of the edges with the label.
pub open spec fn names_label(key: IndexKey, label: ValueHash) -> bool {
    key matches IndexKey::EdgeLabel { label_hash } && label_hash@ == label@
}

/// The key is that of the node at the value of the property.
pub open spec fn names_range(
    key: IndexKey,
    towards: RangeIndexDirection,
    property: PropertyHash,
    text: Seq<char>,
    node: NodeId,
) -> bool {
    key matches IndexKey::Range { direction, property_hash, value, node_id } && direction == towards
        && property_hash@ == property@ && value@ == text && node_id == node
}

/// The key is that of the edges with the value of the property at the node.
pub open spec fn names_edge_equality(
    key: IndexKey,
    side: EdgeDirection,
    node: NodeId,
    property: PropertyHash,
    value: ValueHash,
) -> bool {
    key matches IndexKey::EdgeEquality { direction, endpoint, property_hash, value_hash }
        && direction == side && endpoint == node && property_hash@ == property@ && value_hash@
        == value@
}

/// The key is that of the node's neighbors over the label.
pub open spec fn names_neighbor(
    key: IndexKey,
    side: EdgeDirection,
    node: NodeId,
    label: ValueHash,
) -> bool {
    key matches IndexKey::EdgeLabelNeighbor { direction, endpoint, label_hash } && direction == side
        && endpoint == node && label_hash@ == label@
}

/// The key is that of the edge at the value of the property at the node.
pub open spec fn names_edge_range(
    key: IndexKey,
    side: EdgeDirection,
    towards: RangeIndexDirection,
    node: NodeId,
    property: PropertyHash,
    text: Seq<char>,
    edge: EdgeId,
) -> bool {
    key matches IndexKey::EdgeRange {
        edge_direction,
        direction,
        endpoint,
        property_hash,
        value,
        edge_id,
    } && edge_direction == side && direction == towards && endpoint == node && property_hash@
        == property@ && value@ == text && edge_id == edge
}

/// The hashes are pinned as they are, and the rows of the node under its value
/// and in the lanes of both directions.
pub proof fn law_node_rows_are_pinned(
    property_hash: PropertyHash,
    value_hash: ValueHash,
    label_hash: ValueHash,
    value: &str,
    source: NodeId,
    target: NodeId,
    edge_id: EdgeId,
    rows: TextMap<ContractRow>,
)
    requires
        call_ensures(
            migration_parity_graph_hash_contract,
            (property_hash, value_hash, label_hash, value, source, target, edge_id),
            rows,
        ),
    ensures
        rows@.dom().contains("property_name_hash"@),
        rows@["property_name_hash"@] is PropertyNameHash && rows@["property_name_hash"@]->PropertyNameHash_0@ == property_hash@,
        rows@.dom().contains("property_value_hash"@),
        rows@["property_value_hash"@] is PropertyValueHash && rows@["property_value_hash"@]->PropertyValueHash_0@ == value_hash@,
        rows@.dom().contains("node_equality_key"@),
        rows@["node_equality_key"@] is Key && names_equality(rows@["node_equality_key"@]->Key_0, property_hash, value_hash),
        rows@.dom().contains("node_equality_property_prefix"@),
        rows@["node_equality_property_prefix"@] is EqualityPrefix && rows@["node_equality_property_prefix"@]->EqualityPrefix_0@ == property_hash@,
        rows@.dom().contains("node_range_asc_key"@),
        rows@["node_range_asc_key"@] is Key && names_range(rows@["node_range_asc_key"@]->Key_0, RangeIndexDirection::Asc, property_hash, value@, source),
        rows@.dom().contains("node_range_asc_property_prefix"@),
        rows@["node_range_asc_property_prefix"@] is LanePrefix && rows@["node_range_asc_property_prefix"@]->LanePrefix_0 == (RangeLane::Node { direction: RangeIndexDirection::Asc, property_hash }),
        rows@.dom().contains("node_range_asc_value_prefix"@),
        rows@["node_range_asc_value_prefix"@] is ValuePrefix && rows@["node_range_asc_value_prefix"@]->ValuePrefix_0 == (RangeLane::Node { direction: RangeIndexDirection::Asc, property_hash }) && rows@["node_range_asc_value_prefix"@]->ValuePrefix_1@ == value@,
        rows@.dom().contains("node_range_desc_key"@),
        rows@["node_range_desc_key"@] is Key && names_range(rows@["node_range_desc_key"@]->Key_0, RangeIndexDirection::Desc, property_hash, value@, source),
        rows@.dom().contains("node_range_desc_property_prefix"@),
        rows@["node_range_desc_property_prefix"@] is LanePrefix && rows@["node_range_desc_property_prefix"@]->LanePrefix_0 == (RangeLane::Node { direction: RangeIndexDirection::Desc, property_hash }),
        rows@.dom().contains("node_range_desc_value_prefix"@),
        rows@["node_range_desc_value_prefix"@] is ValuePrefix && rows@["node_range_desc_value_prefix"@]->ValuePrefix_0 == (RangeLane::Node { direction: RangeIndexDirection::Desc, property_hash }) && rows@["node_range_desc_value_prefix"@]->ValuePrefix_1@ == value@,
        rows@.dom().contains("global_edge_label_key"@),
        rows@["global_edge_label_key"@] is Key && names_label(rows@["global_edge_label_key"@]->Key_0, label_hash),
{
    lemma_row_names();
    assert(contract_rows(rows@).dom().contains("property_name_hash"@));
    assert(contract_rows(rows@)["property_name_hash"@] == rows@["property_name_hash"@]@);
    assert(contract_rows(rows@).dom().contains("property_value_hash"@));
    assert(contract_rows(rows@)["property_value_hash"@] == rows@["property_value_hash"@]@);
    assert(contract_rows(rows@).dom().contains("node_equality_key"@));
    assert(contract_rows(rows@)["node_equality_key"@] == rows@["node_equality_key"@]@);
    assert(contract_rows(rows@).dom().contains("node_equality_property_prefix"@));
    assert(contract_rows(rows@)["node_equality_property_prefix"@] == rows@["node_equality_property_prefix"@]@);
    assert(contract_rows(rows@).dom().contains("node_range_asc_key"@));
    assert(contract_rows(rows@)["node_range_asc_key"@] == rows@["node_range_asc_key"@]@);
    assert(contract_rows(rows@).dom().contains("node_range_asc_property_prefix"@));
    assert(contract_rows(rows@)["node_range_asc_property_prefix"@] == rows@["node_range_asc_property_prefix"@]@);
    assert(contract_rows(rows@).dom().contains("node_range_asc_value_prefix"@));
    assert(contract_rows(rows@)["node_range_asc_value_prefix"@] == rows@["node_range_asc_value_prefix"@]@);
    assert(contract_rows(rows@).dom().contains("node_range_desc_key"@));
    assert(contract_rows(rows@)["node_range_desc_key"@] == rows@["node_range_desc_key"@]@);
    assert(contract_rows(rows@).dom().contains("node_range_desc_property_prefix"@));
    assert(contract_rows(rows@)["node_range_desc_property_prefix"@] == rows@["node_range_desc_property_prefix"@]@);
    assert(contract_rows(rows@).dom().contains("node_range_desc_value_prefix"@));
    assert(contract_rows(rows@)["node_range_desc_value_prefix"@] == rows@["node_range_desc_value_prefix"@]@);
    assert(contract_rows(rows@).dom().contains("global_edge_label_key"@));
    assert(contract_rows(rows@)["global_edge_label_key"@] == rows@["global_edge_label_key"@]@);
}

/// Outgoing rows are those at the source of the edge.
pub proof fn law_outgoing_rows_are_pinned(
    property_hash: PropertyHash,
    value_hash: ValueHash,
    label_hash: ValueHash,
    value: &str,
    source: NodeId,
    target: NodeId,
    edge_id: EdgeId,
    rows: TextMap<ContractRow>,
)
    requires
        call_ensures(
            migration_parity_graph_hash_contract,
            (property_hash, value_hash, label_hash, value, source, target, edge_id),
            rows,
        ),
    ensures
        rows@.dom().contains("edge_equality_out_key"@),
        rows@["edge_equality_out_key"@] is Key && names_edge_equality(rows@["edge_equality_out_key"@]->Key_0, EdgeDirection::Out, source, property_hash, value_hash),
        rows@.dom().contains("edge_label_out_key"@),
        rows@["edge_label_out_key"@] is Key && names_neighbor(rows@["edge_label_out_key"@]->Key_0, EdgeDirection::Out, source, label_hash),
        rows@.dom().contains("edge_range_out_asc_key"@),
        rows@["edge_range_out_asc_key"@] is Key && names_edge_range(rows@["edge_range_out_asc_key"@]->Key_0, EdgeDirection::Out, RangeIndexDirection::Asc, source, property_hash, value@, edge_id),
        rows@.dom().contains("edge_range_out_asc_property_prefix"@),
        rows@["edge_range_out_asc_property_prefix"@] is LanePrefix && rows@["edge_range_out_asc_property_prefix"@]->LanePrefix_0 == (RangeLane::Edge { edge_direction: EdgeDirection::Out, direction: RangeIndexDirection::Asc, endpoint: source, property_hash }),
        rows@.dom().contains("edge_range_out_asc_value_prefix"@),
        rows@["edge_range_out_asc_value_prefix"@] is ValuePrefix && rows@["edge_range_out_asc_value_prefix"@]->ValuePrefix_0 == (RangeLane::Edge { edge_direction: EdgeDirection::Out, direction: RangeIndexDirection::Asc, endpoint: source, property_hash }) && rows@["edge_range_out_asc_value_prefix"@]->ValuePrefix_1@ == value@,
        rows@.dom().contains("edge_range_out_desc_key"@),
        rows@["edge_range_out_desc_key"@] is Key && names_edge_range(rows@["edge_range_out_desc_key"@]->Key_0, EdgeDirection::Out, RangeIndexDirection::Desc, source, property_hash, value@, edge_id),
        rows@.dom().contains("edge_range_out_desc_property_prefix"@),
        rows@["edge_range_out_desc_property_prefix"@] is LanePrefix && rows@["edge_range_out_desc_property_prefix"@]->LanePrefix_0 == (RangeLane::Edge { edge_direction: EdgeDirection::Out, direction: RangeIndexDirection::Desc, endpoint: source, property_hash }),
        rows@.dom().contains("edge_range_out_desc_value_prefix"@),
        rows@["edge_range_out_desc_value_prefix"@] is ValuePrefix && rows@["edge_range_out_desc_value_prefix"@]->ValuePrefix_0 == (RangeLane::Edge { edge_direction: EdgeDirection::Out, direction: RangeIndexDirection::Desc, endpoint: source, property_hash }) && rows@["edge_range_out_desc_value_prefix"@]->ValuePrefix_1@ == value@,
{
    lemma_row_names();
    assert(contract_rows(rows@).dom().contains("edge_equality_out_key"@));
    assert(contract_rows(rows@)["edge_equality_out_key"@] == rows@["edge_equality_out_key"@]@);
    assert(contract_rows(rows@).dom().contains("edge_label_out_key"@));
    assert(contract_rows(rows@)["edge_label_out_key"@] == rows@["edge_label_out_key"@]@);
    assert(contract_rows(rows@).dom().contains("edge_range_out_asc_key"@));
    assert(contract_rows(rows@)["edge_range_out_asc_key"@] == rows@["edge_range_out_asc_key"@]@);
    assert(contract_rows(rows@).dom().contains("edge_range_out_asc_property_prefix"@));
    assert(contract_rows(rows@)["edge_range_out_asc_property_prefix"@] == rows@["edge_range_out_asc_property_prefix"@]@);
    assert(contract_rows(rows@).dom().contains("edge_range_out_asc_value_prefix"@));
    assert(contract_rows(rows@)["edge_range_out_asc_value_prefix"@] == rows@["edge_range_out_asc_value_prefix"@]@);
    assert(contract_rows(rows@).dom().contains("edge_range_out_desc_key"@));
    assert(contract_rows(rows@)["edge_range_out_desc_key"@] == rows@["edge_range_out_desc_key"@]@);
    assert(contract_rows(rows@).dom().contains("edge_range_out_desc_property_prefix"@));
    assert(contract_rows(rows@)["edge_range_out_desc_property_prefix"@] == rows@["edge_range_out_desc_property_prefix"@]@);
    assert(contract_rows(rows@).dom().contains("edge_range_out_desc_value_prefix"@));
    assert(contract_rows(rows@)["edge_range_out_desc_value_prefix"@] == rows@["edge_range_out_desc_value_prefix"@]@);
}

/// Incoming rows are those at the target of the edge.
pub proof fn law_incoming_rows_are_pinned(
    property_hash: PropertyHash,
    value_hash: ValueHash,
    label_hash: ValueHash,
    value: &str,
    source: NodeId,
    target: NodeId,
    edge_id: EdgeId,
    rows: TextMap<ContractRow>,
)
    requires
        call_ensures(
            migration_parity_graph_hash_contract,
            (property_hash, value_hash, label_hash, value, source, target, edge_id),
            rows,
        ),
    ensures
        rows@.dom().contains("edge_equality_in_key"@),
        rows@["edge_equality_in_key"@] is Key && names_edge_equality(rows@["edge_equality_in_key"@]->Key_0, EdgeDirection::In, target, property_hash, value_hash),
        rows@.dom().contains("edge_label_in_key"@),
        rows@["edge_label_in_key"@] is Key && names_neighbor(rows@["edge_label_in_key"@]->Key_0, EdgeDirection::In, target, label_hash),
        rows@.dom().contains("edge_range_in_asc_key"@),
        rows@["edge_range_in_asc_key"@] is Key && names_edge_range(rows@["edge_range_in_asc_key"@]->Key_0, EdgeDirection::In, RangeIndexDirection::Asc, target, property_hash, value@, edge_id),
        rows@.dom().contains("edge_range_in_asc_property_prefix"@),
        rows@["edge_range_in_asc_property_prefix"@] is LanePrefix && rows@["edge_range_in_asc_property_prefix"@]->LanePrefix_0 == (RangeLane::Edge { edge_direction: EdgeDirection::In, direction: RangeIndexDirection::Asc, endpoint: target, property_hash }),
        rows@.dom().contains("edge_range_in_asc_value_prefix"@),
        rows@["edge_range_in_asc_value_prefix"@] is ValuePrefix && rows@["edge_range_in_asc_value_prefix"@]->ValuePrefix_0 == (RangeLane::Edge { edge_direction: EdgeDirection::In, direction: RangeIndexDirection::Asc, endpoint: target, property_hash }) && rows@["edge_range_in_asc_value_prefix"@]->ValuePrefix_1@ == value@,
        rows@.dom().contains("edge_range_in_desc_key"@),
        rows@["edge_range_in_desc_key"@] is Key && names_edge_range(rows@["edge_range_in_desc_key"@]->Key_0, EdgeDirection::In, RangeIndexDirection::Desc, target, property_hash, value@, edge_id),
        rows@.dom().contains("edge_range_in_desc_property_prefix"@),
        rows@["edge_range_in_desc_property_prefix"@] is LanePrefix && rows@["edge_range_in_desc_property_prefix"@]->LanePrefix_0 == (RangeLane::Edge { edge_direction: EdgeDirection::In, direction: RangeIndexDirection::Desc, endpoint: target, property_hash }),
        rows@.dom().contains("edge_range_in_desc_value_prefix"@),
        rows@["edge_range_in_desc_value_prefix"@] is ValuePrefix && rows@["edge_range_in_desc_value_prefix"@]->ValuePrefix_0 == (RangeLane::Edge { edge_direction: EdgeDirection::In, direction: RangeIndexDirection::Desc, endpoint: target, property_hash }) && rows@["edge_range_in_desc_value_prefix"@]->ValuePrefix_1@ == value@,
{
    lemma_row_names();
    assert(contract_rows(rows@).dom().contains("edge_equality_in_key"@));
    assert(contract_rows(rows@)["edge_equality_in_key"@] == rows@["edge_equality_in_key"@]@);
    assert(contract_rows(rows@).dom().contains("edge_label_in_key"@));
    assert(contract_rows(rows@)["edge_label_in_key"@] == rows@["edge_label_in_key"@]@);
    assert(contract_rows(rows@).dom().contains("edge_range_in_asc_key"@));
    assert(contract_rows(rows@)["edge_range_in_asc_key"@] == rows@["edge_range_in_asc_key"@]@);
    assert(contract_rows(rows@).dom().contains("edge_range_in_asc_property_prefix"@));
    assert(contract_rows(rows@)["edge_range_in_asc_property_prefix"@] == rows@["edge_range_in_asc_property_prefix"@]@);
    assert(contract_rows(rows@).dom().contains("edge_range_in_asc_value_prefix"@));
    assert(contract_rows(rows@)["edge_range_in_asc_value_prefix"@] == rows@["edge_range_in_asc_value_prefix"@]@);
    assert(contract_rows(rows@).dom().contains("edge_range_in_desc_key"@));
    assert(contract_rows(rows@)["edge_range_in_desc_key"@] == rows@["edge_range_in_desc_key"@]@);
    assert(contract_rows(rows@).dom().contains("edge_range_in_desc_property_prefix"@));
    assert(contract_rows(rows@)["edge_range_in_desc_property_prefix"@] == rows@["edge_range_in_desc_property_prefix"@]@);
    assert(contract_rows(rows@).dom().contains("edge_range_in_desc_value_prefix"@));
    assert(contract_rows(rows@)["edge_range_in_desc_value_prefix"@] == rows@["edge_range_in_desc_value_prefix"@]@);
}

} // verus!
