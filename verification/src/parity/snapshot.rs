//! Logical graph facts collected from the rows of a database.

use vstd::prelude::*;

use crate::assoc::AssocMap;
use crate::bitmap::{decode_parity_bitmap, lists_ids, parity_bitmap_fault, serialized_ids};
use crate::error::{HelixDbError, HelixDbErrorView};
use crate::order::{
    lemma_rank_seq_antisymmetric, lemma_rank_seq_reflexive, lemma_rank_seq_transitive, rank_int,
    law_sorting_orders_all_elements, rank_seq, rank_slices, rank_u64, sort_ranked, sort_values,
    Rank, Ranked,
};
use crate::index_names::text_rows_by_id;
use crate::parity::v2_state::{empty_state, MigrationParityV2State, V2Model};
use crate::property::{parity_properties, ParityProperty, Property, ValueModel};
use crate::render::hex_of_bytes;
use crate::split_cache::memory::saturating_sum;
use crate::text_map::TextMap;

verus! {

/// An edge as its rows describe it.
#[derive(Debug, Clone, PartialEq, Eq)]
pub struct ParityEdge {
    pub edge_id: u64,
    pub from: u64,
    pub to: u64,
    pub has_endpoint: bool,
    pub properties: Vec<ParityProperty>,
}

/// Properties kept for a pair of nodes.
#[derive(Debug, Clone, PartialEq, Eq)]
pub struct ParityLegacyEdgePair {
    pub from: u64,
    pub to: u64,
    pub properties: Vec<ParityProperty>,
}

/// The edges between a pair of nodes.
#[derive(Debug, Clone, PartialEq, Eq)]
pub struct ParityPairIndex {
    pub from: u64,
    pub to: u64,
    pub edge_ids: Vec<u64>,
}

/// The neighbors of a node.
#[derive(Debug, Clone, PartialEq, Eq)]
pub struct ParityAdjacency {
    pub node_id: u64,
    pub outgoing: Vec<u64>,
    pub incoming: Vec<u64>,
}

/// Names and values of a property list.
pub type PropertiesModel = Seq<(Seq<char>, ValueModel)>;

/// Names and values of a property list.
pub open spec fn properties_model(properties: Seq<ParityProperty>) -> PropertiesModel {
    properties.map_values(|property: ParityProperty| property.model())
}

/// Names and values of a stored property list.
pub open spec fn stored_properties_model(properties: Seq<Property>) -> PropertiesModel {
    properties.map_values(|property: Property| property.model())
}

/// What a [`ParityEdge`] says.
pub ghost struct EdgeModel {
    pub edge_id: u64,
    pub from: u64,
    pub to: u64,
    pub has_endpoint: bool,
    pub properties: PropertiesModel,
}

impl ParityEdge {
    pub open spec fn model(self) -> EdgeModel {
        EdgeModel {
            edge_id: self.edge_id,
            from: self.from,
            to: self.to,
            has_endpoint: self.has_endpoint,
            properties: properties_model(self.properties@),
        }
    }
}

/// What a [`ParityLegacyEdgePair`] says.
pub ghost struct LegacyPairModel {
    pub from: u64,
    pub to: u64,
    pub properties: PropertiesModel,
}

impl ParityLegacyEdgePair {
    pub open spec fn model(self) -> LegacyPairModel {
        LegacyPairModel {
            from: self.from,
            to: self.to,
            properties: properties_model(self.properties@),
        }
    }
}

/// What a [`ParityPairIndex`] says.
pub ghost struct PairModel {
    pub from: u64,
    pub to: u64,
    pub edge_ids: Seq<u64>,
}

impl ParityPairIndex {
    pub open spec fn model(self) -> PairModel {
        PairModel { from: self.from, to: self.to, edge_ids: self.edge_ids@ }
    }
}

/// What a [`ParityAdjacency`] says.
pub ghost struct AdjacencyModel {
    pub node_id: u64,
    pub outgoing: Seq<u64>,
    pub incoming: Seq<u64>,
}

impl ParityAdjacency {
    pub open spec fn model(self) -> AdjacencyModel {
        AdjacencyModel {
            node_id: self.node_id,
            outgoing: self.outgoing@,
            incoming: self.incoming@,
        }
    }
}

/// Pairs are ordered by their nodes and then by their properties.
impl Ranked for ParityLegacyEdgePair {
    open spec fn ranked(&self, other: &Self) -> Rank {
        rank_int(self.from as int, other.from as int).refined(
            rank_int(self.to as int, other.to as int),
        ).refined(rank_seq(self.properties@, other.properties@))
    }

    proof fn rank_reflexive(a: &Self) {
        lemma_rank_seq_reflexive(a.properties@);
    }

    proof fn rank_antisymmetric(a: &Self, b: &Self) {
        lemma_rank_seq_antisymmetric(a.properties@, b.properties@);
    }

    proof fn rank_transitive(a: &Self, b: &Self, c: &Self) {
        if rank_seq(a.properties@, b.properties@) != Rank::Greater && rank_seq(
            b.properties@,
            c.properties@,
        ) != Rank::Greater {
            lemma_rank_seq_transitive(a.properties@, b.properties@, c.properties@);
        }
    }

    fn rank(&self, other: &Self) -> (rank: Rank) {
        let by_from = rank_u64(self.from, other.from);
        if by_from != Rank::Equal {
            return by_from;
        }
        let by_to = rank_u64(self.to, other.to);
        if by_to != Rank::Equal {
            return by_to;
        }
        rank_slices(self.properties.as_slice(), other.properties.as_slice())
    }
}

/// Pair indexes are ordered by their nodes and then by their edges.
impl Ranked for ParityPairIndex {
    open spec fn ranked(&self, other: &Self) -> Rank {
        rank_int(self.from as int, other.from as int).refined(
            rank_int(self.to as int, other.to as int),
        ).refined(rank_seq(self.edge_ids@, other.edge_ids@))
    }

    proof fn rank_reflexive(a: &Self) {
        lemma_rank_seq_reflexive(a.edge_ids@);
    }

    proof fn rank_antisymmetric(a: &Self, b: &Self) {
        lemma_rank_seq_antisymmetric(a.edge_ids@, b.edge_ids@);
    }

    proof fn rank_transitive(a: &Self, b: &Self, c: &Self) {
        if rank_seq(a.edge_ids@, b.edge_ids@) != Rank::Greater && rank_seq(
            b.edge_ids@,
            c.edge_ids@,
        ) != Rank::Greater {
            lemma_rank_seq_transitive(a.edge_ids@, b.edge_ids@, c.edge_ids@);
        }
    }

    fn rank(&self, other: &Self) -> (rank: Rank) {
        let by_from = rank_u64(self.from, other.from);
        if by_from != Rank::Equal {
            return by_from;
        }
        let by_to = rank_u64(self.to, other.to);
        if by_to != Rank::Equal {
            return by_to;
        }
        rank_slices(self.edge_ids.as_slice(), other.edge_ids.as_slice())
    }
}

/// Logical graph facts of one database.
#[derive(Debug, Clone)]
pub struct MigrationParitySnapshot {
    pub nodes: AssocMap<u64, Vec<ParityProperty>>,
    pub current_edges: AssocMap<u64, ParityEdge>,
    pub legacy_edge_pairs: Vec<ParityLegacyEdgePair>,
    pub pair_indexes: Vec<ParityPairIndex>,
    pub adjacency: AssocMap<u64, ParityAdjacency>,
    pub allocator_watermarks: TextMap<u64>,
    pub vector_non_metadata_namespace_digests: AssocMap<u64, String>,
    pub v2: MigrationParityV2State,
    pub raw_counts: TextMap<u64>,
    pub consistency_findings: Vec<String>,
}

/// What a [`MigrationParitySnapshot`] says.
#[verifier::ext_equal]
pub ghost struct SnapshotModel {
    pub nodes: Map<u64, PropertiesModel>,
    pub current_edges: Map<u64, EdgeModel>,
    pub legacy_edge_pairs: Seq<LegacyPairModel>,
    pub pair_indexes: Seq<PairModel>,
    pub adjacency: Map<u64, AdjacencyModel>,
    pub allocator_watermarks: Map<Seq<char>, u64>,
    pub vector_non_metadata_namespace_digests: Map<u64, Seq<char>>,
    pub v2: V2Model,
    pub raw_counts: Map<Seq<char>, u64>,
    pub consistency_findings: Seq<Seq<char>>,
}

/// The texts of a list.
pub open spec fn texts_of(texts: Seq<String>) -> Seq<Seq<char>> {
    texts.map_values(|text: String| text@)
}

/// What the edges say, by identifier.
pub open spec fn edges_model(edges: Map<u64, ParityEdge>) -> Map<u64, EdgeModel> {
    edges.map_values(|edge: ParityEdge| edge.model())
}

/// What the adjacency rows say, by node.
pub open spec fn adjacency_model(rows: Map<u64, ParityAdjacency>) -> Map<u64, AdjacencyModel> {
    rows.map_values(|row: ParityAdjacency| row.model())
}

/// What the node properties say, by node.
pub open spec fn nodes_model(nodes: Map<u64, Vec<ParityProperty>>) -> Map<u64, PropertiesModel> {
    nodes.map_values(|properties: Vec<ParityProperty>| properties_model(properties@))
}

/// What the pair indexes say.
pub open spec fn pairs_model(pairs: Seq<ParityPairIndex>) -> Seq<PairModel> {
    pairs.map_values(|pair: ParityPairIndex| pair.model())
}

/// What the legacy pairs say.
pub open spec fn legacy_pairs_model(pairs: Seq<ParityLegacyEdgePair>) -> Seq<LegacyPairModel> {
    pairs.map_values(|pair: ParityLegacyEdgePair| pair.model())
}

impl View for MigrationParitySnapshot {
    type V = SnapshotModel;

    open spec fn view(&self) -> SnapshotModel {
        SnapshotModel {
            nodes: nodes_model(self.nodes@),
            current_edges: edges_model(self.current_edges@),
            legacy_edge_pairs: legacy_pairs_model(self.legacy_edge_pairs@),
            pair_indexes: pairs_model(self.pair_indexes@),
            adjacency: adjacency_model(self.adjacency@),
            allocator_watermarks: self.allocator_watermarks@,
            vector_non_metadata_namespace_digests: text_rows_by_id(
                self.vector_non_metadata_namespace_digests@,
            ),
            v2: self.v2@,
            raw_counts: self.raw_counts@,
            consistency_findings: texts_of(self.consistency_findings@),
        }
    }
}

/// The counts with one more of the name; none passes 64 bits.
pub open spec fn counted(counts: Map<Seq<char>, u64>, name: Seq<char>) -> Map<Seq<char>, u64> {
    counts.insert(
        name,
        if counts.dom().contains(name) {
            saturating_sum(counts[name], 1)
        } else {
            1
        },
    )
}

/// Counts one more of the name.
pub fn increment_count(counts: &mut TextMap<u64>, name: &str)
    ensures
        final(counts)@ == counted(old(counts)@, name@),
{
    let count = match counts.get(name) {
        Some(count) => count.saturating_add(1),
        None => 1,
    };
    counts.insert(name.to_owned(), count);
}

/// The properties of an edge as the store has them.
#[derive(Debug)]
pub enum EdgePropertyRow {
    /// Properties of one edge.
    ById { edge_id: u64, properties: Vec<Property> },
    /// Properties of a pair of nodes.
    Pair { from: u64, to: u64, properties: Vec<Property> },
    /// A row of another kind.
    Other,
}

/// A row of the edges between two nodes.
#[derive(Debug)]
pub struct PairIndexRow {
    pub key: Vec<u8>,
    pub from: u64,
    pub to: u64,
    /// The serialized bitmap of the edges.
    pub value: Vec<u8>,
}

/// How one byte is shown for debugging: printable ASCII as it is, quotes and
/// backslashes behind a backslash, some controls by their letters, and anything
/// else by two hexadecimal digits.
pub open spec fn byte_debug_text(byte: u8) -> Seq<char> {
    if byte == 0x0a {
        "\\n"@
    } else if byte == 0x0d {
        "\\r"@
    } else if byte == 0x09 {
        "\\t"@
    } else if byte == 0x5c || byte == 0x22 {
        "\\"@.push(byte as char)
    } else if byte == 0 {
        "\\0"@
    } else if 0x20 <= byte < 0x7f {
        seq![byte as char]
    } else {
        "\\x"@ + hex_of_bytes(seq![byte])
    }
}

/// The shown bytes one behind the other.
pub open spec fn bytes_inner_text(bytes: Seq<u8>) -> Seq<char>
    decreases bytes.len(),
{
    if bytes.len() == 0 {
        Seq::empty()
    } else {
        bytes_inner_text(bytes.drop_last()) + byte_debug_text(bytes.last())
    }
}

/// How bytes are shown for debugging: as a byte string literal.
pub open spec fn bytes_debug_text(bytes: Seq<u8>) -> Seq<char> {
    "b\""@ + bytes_inner_text(bytes) + "\""@
}

/// The `Debug` form of `bytes::Bytes`: a byte string literal with escapes.
#[verifier::external_body]
fn bytes_debug(bytes: &[u8]) -> (text: String)
    ensures
        text@ == bytes_debug_text(bytes@),
{
    format!("{:?}", bytes::Bytes::copy_from_slice(bytes))
}

fn parity_list(properties: &Vec<Property>) -> (parity: Vec<ParityProperty>)
    ensures
        properties_model(parity@) == stored_properties_model(properties@),
{
    let parity = parity_properties(properties.as_slice());
    assert(properties_model(parity@) =~= stored_properties_model(properties@));
    parity
}

impl MigrationParitySnapshot {
    /// A snapshot of nothing.
    pub fn new() -> (snapshot: Self)
        ensures
            snapshot@ == (SnapshotModel {
                nodes: Map::empty(),
                current_edges: Map::empty(),
                legacy_edge_pairs: Seq::empty(),
                pair_indexes: Seq::empty(),
                adjacency: Map::empty(),
                allocator_watermarks: Map::empty(),
                vector_non_metadata_namespace_digests: Map::empty(),
                v2: empty_state(),
                raw_counts: Map::empty(),
                consistency_findings: Seq::empty(),
            }),
    {
        let snapshot = MigrationParitySnapshot {
            nodes: AssocMap::new(),
            current_edges: AssocMap::new(),
            legacy_edge_pairs: Vec::new(),
            pair_indexes: Vec::new(),
            adjacency: AssocMap::new(),
            allocator_watermarks: TextMap::new(),
            vector_non_metadata_namespace_digests: AssocMap::new(),
            v2: MigrationParityV2State::default(),
            raw_counts: TextMap::new(),
            consistency_findings: Vec::new(),
        };
        proof {
            assert(snapshot@.nodes =~= Map::<u64, PropertiesModel>::empty());
            assert(snapshot@.current_edges =~= Map::<u64, EdgeModel>::empty());
            assert(snapshot@.legacy_edge_pairs =~= Seq::<LegacyPairModel>::empty());
            assert(snapshot@.pair_indexes =~= Seq::<PairModel>::empty());
            assert(snapshot@.adjacency =~= Map::<u64, AdjacencyModel>::empty());
            assert(snapshot@.vector_non_metadata_namespace_digests =~= Map::<
                u64,
                Seq<char>,
            >::empty());
            assert(snapshot@.consistency_findings =~= Seq::<Seq<char>>::empty());
        }
        snapshot
    }

    /// Takes one row of the adjacency scan; `None` is a row of another kind,
    /// which is only counted.
    pub fn record_adjacency(&mut self, row: Option<ParityAdjacency>)
        ensures
            final(self)@ == (SnapshotModel {
                raw_counts: counted(old(self)@.raw_counts, "adjacency_rows"@),
                adjacency: match row {
                    Some(row) => old(self)@.adjacency.insert(row.node_id, row.model()),
                    None => old(self)@.adjacency,
                },
                ..old(self)@
            }),
    {
        increment_count(&mut self.raw_counts, "adjacency_rows");
        match row {
            Some(row) => {
                let ghost before = self.adjacency@;
                self.adjacency.insert(row.node_id, row);
                assert(adjacency_model(self.adjacency@) =~= adjacency_model(before).insert(
                    row.node_id,
                    row.model(),
                ));
            },
            None => {},
        }
    }

    /// Takes one row of the node scan: a node and its properties.
    pub fn record_node_properties(&mut self, row: Option<(u64, Vec<Property>)>)
        ensures
            final(self)@ == (SnapshotModel {
                raw_counts: counted(old(self)@.raw_counts, "node_property_rows"@),
                nodes: match row {
                    Some((node_id, properties)) => old(self)@.nodes.insert(
                        node_id,
                        stored_properties_model(properties@),
                    ),
                    None => old(self)@.nodes,
                },
                ..old(self)@
            }),
    {
        increment_count(&mut self.raw_counts, "node_property_rows");
        match row {
            Some((node_id, properties)) => {
                let ghost before = self.nodes@;
                let parity = parity_list(&properties);
                self.nodes.insert(node_id, parity);
                assert(nodes_model(self.nodes@) =~= nodes_model(before).insert(
                    node_id,
                    stored_properties_model(properties@),
                ));
            },
            None => {},
        }
    }

    /// Takes one row of the edge property scan. The first properties of an
    /// edge count; its endpoints are not known yet. Rows of another kind are
    /// not even counted.
    pub fn record_edge_properties(&mut self, row: EdgePropertyRow)
        ensures
            final(self)@ == match row {
                EdgePropertyRow::ById { edge_id, properties } => SnapshotModel {
                    raw_counts: counted(old(self)@.raw_counts, "edge_property_by_id_rows"@),
                    current_edges: if old(self)@.current_edges.dom().contains(edge_id) {
                        old(self)@.current_edges
                    } else {
                        old(self)@.current_edges.insert(
                            edge_id,
                            EdgeModel {
                                edge_id,
                                from: 0,
                                to: 0,
                                has_endpoint: false,
                                properties: stored_properties_model(properties@),
                            },
                        )
                    },
                    ..old(self)@
                },
                EdgePropertyRow::Pair { from, to, properties } => SnapshotModel {
                    raw_counts: counted(old(self)@.raw_counts, "legacy_edge_pair_rows"@),
                    legacy_edge_pairs: old(self)@.legacy_edge_pairs.push(
                        LegacyPairModel {
                            from,
                            to,
                            properties: stored_properties_model(properties@),
                        },
                    ),
                    ..old(self)@
                },
                EdgePropertyRow::Other => old(self)@,
            },
    {
        match row {
            EdgePropertyRow::ById { edge_id, properties } => {
                increment_count(&mut self.raw_counts, "edge_property_by_id_rows");
                let parity = parity_list(&properties);
                if self.current_edges.get(&edge_id).is_none() {
                    let ghost before = self.current_edges@;
                    let edge = ParityEdge {
                        edge_id,
                        from: 0,
                        to: 0,
                        has_endpoint: false,
                        properties: parity,
                    };
                    self.current_edges.insert(edge_id, edge);
                    assert(edges_model(self.current_edges@) =~= edges_model(before).insert(
                        edge_id,
                        edge.model(),
                    ));
                }
            },
            EdgePropertyRow::Pair { from, to, properties } => {
                increment_count(&mut self.raw_counts, "legacy_edge_pair_rows");
                let parity = parity_list(&properties);
                let ghost before = self.legacy_edge_pairs@;
                let pair = ParityLegacyEdgePair { from, to, properties: parity };
                self.legacy_edge_pairs.push(pair);
                assert(legacy_pairs_model(self.legacy_edge_pairs@) =~= legacy_pairs_model(
                    before,
                ).push(pair.model()));
            },
            EdgePropertyRow::Other => {},
        }
    }

    /// Orders the legacy pairs once all rows are in.
    pub fn finish_edge_properties(&mut self)
        ensures
            final(self).legacy_edge_pairs@ == sort_ranked(old(self).legacy_edge_pairs@),
            final(self)@ == (SnapshotModel {
                legacy_edge_pairs: final(self)@.legacy_edge_pairs,
                ..old(self)@
            }),
    {
        sort_values(&mut self.legacy_edge_pairs);
    }

    /// Takes one row of the endpoint scan: an edge and its two nodes. An edge
    /// without properties is new.
    pub fn record_edge_endpoints(&mut self, row: Option<(u64, u64, u64)>)
        ensures
            final(self)@ == (SnapshotModel {
                raw_counts: counted(old(self)@.raw_counts, "edge_endpoint_rows"@),
                current_edges: match row {
                    Some((edge_id, from, to)) => old(self)@.current_edges.insert(
                        edge_id,
                        if old(self)@.current_edges.dom().contains(edge_id) {
                            EdgeModel {
                                from,
                                to,
                                has_endpoint: true,
                                ..old(self)@.current_edges[edge_id]
                            }
                        } else {
                            EdgeModel {
                                edge_id,
                                from,
                                to,
                                has_endpoint: true,
                                properties: Seq::empty(),
                            }
                        },
                    ),
                    None => old(self)@.current_edges,
                },
                ..old(self)@
            }),
    {
        increment_count(&mut self.raw_counts, "edge_endpoint_rows");
        match row {
            Some((edge_id, from, to)) => {
                let ghost before = self.current_edges@;
                let edge = match self.current_edges.take(&edge_id) {
                    Some(edge) => ParityEdge {
                        edge_id: edge.edge_id,
                        from,
                        to,
                        has_endpoint: true,
                        properties: edge.properties,
                    },
                    None => ParityEdge {
                        edge_id,
                        from,
                        to,
                        has_endpoint: true,
                        properties: Vec::new(),
                    },
                };
                proof {
                    if !before.dom().contains(edge_id) {
                        assert(edge.model().properties =~= Seq::empty());
                    }
                }
                self.current_edges.insert(edge_id, edge);
                assert(edges_model(self.current_edges@) =~= edges_model(before).insert(
                    edge_id,
                    edge.model(),
                ));
            },
            None => {},
        }
    }

    /// Takes one row of the pair index scan: the edges between two nodes. A
    /// row whose bitmap cannot be read is counted and reported.
    pub fn record_pair_index(&mut self, row: Option<PairIndexRow>) -> (recorded: Result<
        (),
        HelixDbError,
    >)
        ensures
            ({
                let counts = counted(old(self)@.raw_counts, "edge_pair_index_rows"@);
                match (row, recorded) {
                    (None, Ok(_)) => final(self)@ == (SnapshotModel {
                        raw_counts: counts,
                        ..old(self)@
                    }),
                    (Some(row), Ok(_)) => {
                        &&& serialized_ids(row.value@) matches Some(ids)
                        &&& final(self)@.pair_indexes.len() == old(self)@.pair_indexes.len() + 1
                        &&& final(self)@.pair_indexes.last().from == row.from
                        &&& final(self)@.pair_indexes.last().to == row.to
                        &&& lists_ids(final(self)@.pair_indexes.last().edge_ids, ids)
                        &&& final(self)@ == (SnapshotModel {
                            raw_counts: counts,
                            pair_indexes: old(self)@.pair_indexes.push(
                                final(self)@.pair_indexes.last(),
                            ),
                            ..old(self)@
                        })
                    },
                    (Some(row), Err(error)) => {
                        &&& serialized_ids(row.value@) is None
                        &&& final(self)@ == (SnapshotModel { raw_counts: counts, ..old(self)@ })
                        &&& error@ == HelixDbErrorView::Config(
                            "pair-index key "@ + bytes_debug_text(row.key@)
                                + " has an invalid bitmap: "@ + parity_bitmap_fault(row.value@),
                        )
                    },
                    (None, Err(_)) => false,
                }
            }),
    {
        increment_count(&mut self.raw_counts, "edge_pair_index_rows");
        match row {
            Some(row) => match decode_parity_bitmap(row.value.as_slice()) {
                Ok(edge_ids) => {
                    let ghost before = self.pair_indexes@;
                    let pair = ParityPairIndex { from: row.from, to: row.to, edge_ids };
                    self.pair_indexes.push(pair);
                    proof {
                        assert(pairs_model(self.pair_indexes@) =~= pairs_model(before).push(
                            pair.model(),
                        ));
                    }
                    Ok(())
                },
                Err(cause) => {
                    let mut message = "pair-index key ".to_owned();
                    let key = bytes_debug(row.key.as_slice());
                    message.append(key.as_str());
                    message.append(" has an invalid bitmap: ");
                    message.append(cause.message());
                    Err(HelixDbError::Config(message))
                },
            },
            None => Ok(()),
        }
    }

    /// Orders the pair indexes once all rows are in.
    pub fn finish_pair_indexes(&mut self)
        ensures
            final(self).pair_indexes@ == sort_ranked(old(self).pair_indexes@),
            final(self)@ == (SnapshotModel {
                pair_indexes: final(self)@.pair_indexes,
                ..old(self)@
            }),
    {
        sort_values(&mut self.pair_indexes);
    }

    /// Takes one row of the property index scan.
    pub fn record_property_index(&mut self)
        ensures
            final(self)@ == (SnapshotModel {
                raw_counts: counted(old(self)@.raw_counts, "property_index_rows"@),
                ..old(self)@
            }),
    {
        increment_count(&mut self.raw_counts, "property_index_rows");
    }

    /// Notes the next free identifiers; one that was never allocated is zero.
    pub fn record_allocator_watermarks(&mut self, next_node: Option<u64>, next_edge: Option<u64>)
        ensures
            final(self)@ == (SnapshotModel {
                allocator_watermarks: old(self)@.allocator_watermarks.insert(
                    "next_node_id"@,
                    match next_node {
                        Some(id) => id,
                        None => 0,
                    },
                ).insert(
                    "next_edge_id"@,
                    match next_edge {
                        Some(id) => id,
                        None => 0,
                    },
                ),
                ..old(self)@
            }),
    {
        let node = match next_node {
            Some(id) => id,
            None => 0,
        };
        let edge = match next_edge {
            Some(id) => id,
            None => 0,
        };
        self.allocator_watermarks.insert("next_node_id".to_owned(), node);
        self.allocator_watermarks.insert("next_edge_id".to_owned(), edge);
    }
}

/// Between both states of the counts, one more was counted under the name and
/// nothing else: a first one counts one, and a full count stays full.
pub open spec fn counts_one_more(
    before: Map<Seq<char>, u64>,
    after: Map<Seq<char>, u64>,
    name: Seq<char>,
) -> bool {
    &&& after.dom() == before.dom().insert(name)
    &&& !before.dom().contains(name) ==> after[name] == 1
    &&& before.dom().contains(name) && before[name] < u64::MAX ==> after[name] == before[name] + 1
    &&& before.dom().contains(name) && before[name] == u64::MAX ==> after[name] == u64::MAX
    &&& forall|other: Seq<char>|
        before.dom().contains(other) && other != name ==> #[trigger] after[other] == before[other]
}

/// A count grows by one and leaves the other counts alone.
pub proof fn law_counts_grow_by_one(counts: &mut TextMap<u64>, name: &str)
    requires
        call_ensures(increment_count, (counts, name), ()),
    ensures
        counts_one_more(old(counts)@, final(counts)@, name@),
{
}

/// The properties say what the stored ones do: as many of them, in the same
/// order, under the same names.
pub open spec fn says_the_same(parity: Seq<ParityProperty>, stored: Seq<Property>) -> bool {
    &&& parity.len() == stored.len()
    &&& forall|i: int|
        0 <= i < stored.len() ==> {
            &&& (#[trigger] parity[i]).name@ == stored[i].name@
            &&& parity[i].value.model() == stored[i].value.model()
        }
}

proof fn lemma_says_the_same(parity: Seq<ParityProperty>, stored: Seq<Property>)
    requires
        properties_model(parity) == stored_properties_model(stored),
    ensures
        says_the_same(parity, stored),
{
    assert(properties_model(parity).len() == parity.len());
    assert(stored_properties_model(stored).len() == stored.len());
    assert forall|i: int| 0 <= i < stored.len() implies {
        &&& (#[trigger] parity[i]).name@ == stored[i].name@
        &&& parity[i].value.model() == stored[i].value.model()
    } by {
        assert(properties_model(parity)[i] == parity[i].model());
        assert(stored_properties_model(stored)[i] == stored[i].model());
    }
}

/// An adjacency row is kept under its node with its neighbors on the sides that
/// they stand on, and no other node's row changes.
pub proof fn law_adjacency_is_kept_by_node(
    snapshot: &mut MigrationParitySnapshot,
    row: Option<ParityAdjacency>,
)
    requires
        call_ensures(MigrationParitySnapshot::record_adjacency, (snapshot, row), ()),
    ensures
        counts_one_more(
            old(snapshot).raw_counts@,
            final(snapshot).raw_counts@,
            "adjacency_rows"@,
        ),
        row is None ==> final(snapshot).adjacency@.dom() == old(snapshot).adjacency@.dom(),
        row matches Some(row) ==> {
            let kept = final(snapshot).adjacency@;
            &&& kept.dom() == old(snapshot).adjacency@.dom().insert(row.node_id)
            &&& kept[row.node_id].node_id == row.node_id
            &&& kept[row.node_id].outgoing@ == row.outgoing@
            &&& kept[row.node_id].incoming@ == row.incoming@
        },
        forall|node: u64|
            old(snapshot).adjacency@.dom().contains(node) && !(row is Some
                && row->Some_0.node_id == node) ==> {
                &&& (#[trigger] final(snapshot).adjacency@[node]).outgoing@ == old(snapshot).adjacency@[node].outgoing@
                &&& final(snapshot).adjacency@[node].incoming@ == old(snapshot).adjacency@[node].incoming@
            },
        final(snapshot).current_edges@.dom() == old(snapshot).current_edges@.dom(),
        final(snapshot).nodes@.dom() == old(snapshot).nodes@.dom(),
{
    let before = old(snapshot).adjacency@;
    let after = final(snapshot).adjacency@;
    assert(adjacency_model(before).dom() =~= before.dom());
    assert(adjacency_model(after).dom() =~= after.dom());
    assert(edges_model(old(snapshot).current_edges@).dom() =~= old(snapshot).current_edges@.dom());
    assert(edges_model(final(snapshot).current_edges@).dom() =~= final(snapshot).current_edges@.dom());
    assert(nodes_model(old(snapshot).nodes@).dom() =~= old(snapshot).nodes@.dom());
    assert(nodes_model(final(snapshot).nodes@).dom() =~= final(snapshot).nodes@.dom());
    if let Some(row) = row {
        assert(adjacency_model(after)[row.node_id] == after[row.node_id].model());
    }
    assert forall|node: u64|
        before.dom().contains(node) && !(row is Some && row->Some_0.node_id == node) implies {
        &&& (#[trigger] after[node]).outgoing@ == before[node].outgoing@
        &&& after[node].incoming@ == before[node].incoming@
    } by {
        assert(adjacency_model(after)[node] == after[node].model());
        assert(adjacency_model(before)[node] == before[node].model());
    }
}

/// A node's properties are kept under the node; another node's stay.
pub proof fn law_node_properties_are_kept_by_node(
    snapshot: &mut MigrationParitySnapshot,
    row: Option<(u64, Vec<Property>)>,
)
    requires
        call_ensures(MigrationParitySnapshot::record_node_properties, (snapshot, row), ()),
    ensures
        counts_one_more(
            old(snapshot).raw_counts@,
            final(snapshot).raw_counts@,
            "node_property_rows"@,
        ),
        row is None ==> final(snapshot).nodes@.dom() == old(snapshot).nodes@.dom(),
        row matches Some((node_id, properties)) ==> {
            &&& final(snapshot).nodes@.dom() == old(snapshot).nodes@.dom().insert(node_id)
            &&& says_the_same(final(snapshot).nodes@[node_id]@, properties@)
        },
        forall|node: u64|
            old(snapshot).nodes@.dom().contains(node) && !(row is Some && row->Some_0.0 == node)
                ==> properties_model((#[trigger] final(snapshot).nodes@[node])@)
                == properties_model(old(snapshot).nodes@[node]@),
{
    let before = old(snapshot).nodes@;
    let after = final(snapshot).nodes@;
    assert(nodes_model(before).dom() =~= before.dom());
    assert(nodes_model(after).dom() =~= after.dom());
    if let Some((node_id, properties)) = row {
        assert(nodes_model(after)[node_id] == properties_model(after[node_id]@));
        lemma_says_the_same(after[node_id]@, properties@);
    }
    assert forall|node: u64|
        before.dom().contains(node) && !(row is Some && row->Some_0.0
            == node) implies properties_model((#[trigger] after[node])@) == properties_model(
        before[node]@,
    ) by {
        assert(nodes_model(after)[node] == properties_model(after[node]@));
        assert(nodes_model(before)[node] == properties_model(before[node]@));
    }
}

/// The properties of an edge are kept under its identifier, and the first ones
/// count; the properties of a pair are listed behind those of earlier pairs.
pub proof fn law_edge_properties_are_kept(
    snapshot: &mut MigrationParitySnapshot,
    row: EdgePropertyRow,
)
    requires
        call_ensures(MigrationParitySnapshot::record_edge_properties, (snapshot, row), ()),
    ensures
        row matches EdgePropertyRow::ById { edge_id, properties } ==> {
            let kept = final(snapshot).current_edges@;
            &&& counts_one_more(
                old(snapshot).raw_counts@,
                final(snapshot).raw_counts@,
                "edge_property_by_id_rows"@,
            )
            &&& kept.dom() == old(snapshot).current_edges@.dom().insert(edge_id)
            &&& !old(snapshot).current_edges@.dom().contains(edge_id) ==> {
                &&& kept[edge_id].edge_id == edge_id
                &&& !kept[edge_id].has_endpoint
                &&& kept[edge_id].from == 0
                &&& kept[edge_id].to == 0
                &&& says_the_same(kept[edge_id].properties@, properties@)
            }
            &&& final(snapshot).legacy_edge_pairs@.len() == old(snapshot).legacy_edge_pairs@.len()
        },
        row matches EdgePropertyRow::Pair { from, to, properties } ==> {
            let listed = final(snapshot).legacy_edge_pairs@;
            &&& counts_one_more(
                old(snapshot).raw_counts@,
                final(snapshot).raw_counts@,
                "legacy_edge_pair_rows"@,
            )
            &&& listed.len() == old(snapshot).legacy_edge_pairs@.len() + 1
            &&& listed.last().from == from
            &&& listed.last().to == to
            &&& says_the_same(listed.last().properties@, properties@)
            &&& final(snapshot).current_edges@.dom() == old(snapshot).current_edges@.dom()
        },
        row is Other ==> final(snapshot).raw_counts@ == old(snapshot).raw_counts@,
        forall|edge: u64|
            old(snapshot).current_edges@.dom().contains(edge) ==> (
            #[trigger] final(snapshot).current_edges@[edge]).model() == old(snapshot).current_edges@[edge].model(),
{
    let before = old(snapshot).current_edges@;
    let after = final(snapshot).current_edges@;
    let pairs = old(snapshot).legacy_edge_pairs@;
    let listed = final(snapshot).legacy_edge_pairs@;
    assert(edges_model(before).dom() =~= before.dom());
    assert(edges_model(after).dom() =~= after.dom());
    assert(legacy_pairs_model(pairs).len() == pairs.len());
    assert(legacy_pairs_model(listed).len() == listed.len());
    match row {
        EdgePropertyRow::ById { edge_id, properties } => {
            assert(edges_model(after)[edge_id] == after[edge_id].model());
            if !before.dom().contains(edge_id) {
                lemma_says_the_same(after[edge_id].properties@, properties@);
            }
            assert(after.dom() =~= before.dom().insert(edge_id));
        },
        EdgePropertyRow::Pair { from, to, properties } => {
            assert(legacy_pairs_model(listed).last() == listed.last().model());
            lemma_says_the_same(listed.last().properties@, properties@);
        },
        EdgePropertyRow::Other => {},
    }
    assert forall|edge: u64| before.dom().contains(edge) implies (#[trigger] after[edge]).model()
        == before[edge].model() by {
        assert(edges_model(after)[edge] == after[edge].model());
        assert(edges_model(before)[edge] == before[edge].model());
    }
}

/// An edge runs from the first node of its endpoint row to the second, keeps the
/// properties that it had, and changes no other edge.
pub proof fn law_edges_run_between_their_endpoints(
    snapshot: &mut MigrationParitySnapshot,
    row: Option<(u64, u64, u64)>,
)
    requires
        call_ensures(MigrationParitySnapshot::record_edge_endpoints, (snapshot, row), ()),
    ensures
        counts_one_more(
            old(snapshot).raw_counts@,
            final(snapshot).raw_counts@,
            "edge_endpoint_rows"@,
        ),
        row is None ==> final(snapshot).current_edges@.dom() == old(snapshot).current_edges@.dom(),
        row matches Some((edge_id, from, to)) ==> {
            let before = old(snapshot).current_edges@;
            let kept = final(snapshot).current_edges@;
            &&& kept.dom() == before.dom().insert(edge_id)
            &&& kept[edge_id].from == from
            &&& kept[edge_id].to == to
            &&& kept[edge_id].has_endpoint
            &&& before.dom().contains(edge_id) ==> kept[edge_id].edge_id == before[edge_id].edge_id
                && properties_model(kept[edge_id].properties@) == properties_model(
                before[edge_id].properties@,
            )
            &&& !before.dom().contains(edge_id) ==> kept[edge_id].edge_id == edge_id
                && kept[edge_id].properties@.len() == 0
        },
        forall|edge: u64|
            old(snapshot).current_edges@.dom().contains(edge) && !(row is Some && row->Some_0.0
                == edge) ==> (#[trigger] final(snapshot).current_edges@[edge]).model() == old(snapshot).current_edges@[edge].model(),
{
    let before = old(snapshot).current_edges@;
    let after = final(snapshot).current_edges@;
    assert(edges_model(before).dom() =~= before.dom());
    assert(edges_model(after).dom() =~= after.dom());
    if let Some((edge_id, from, to)) = row {
        assert(edges_model(after)[edge_id] == after[edge_id].model());
        if before.dom().contains(edge_id) {
            assert(edges_model(before)[edge_id] == before[edge_id].model());
        } else {
            assert(properties_model(after[edge_id].properties@).len()
                == after[edge_id].properties@.len());
        }
    }
    assert forall|edge: u64|
        before.dom().contains(edge) && !(row is Some && row->Some_0.0 == edge) implies (
    #[trigger] after[edge]).model() == before[edge].model() by {
        assert(edges_model(after)[edge] == after[edge].model());
        assert(edges_model(before)[edge] == before[edge].model());
    }
}

/// The edges between two nodes are listed under their nodes in the order of the
/// row, ascending, each once.
pub proof fn law_pair_indexes_list_their_edges(
    snapshot: &mut MigrationParitySnapshot,
    row: Option<PairIndexRow>,
    recorded: Result<(), HelixDbError>,
)
    requires
        call_ensures(MigrationParitySnapshot::record_pair_index, (snapshot, row), recorded),
    ensures
        counts_one_more(
            old(snapshot).raw_counts@,
            final(snapshot).raw_counts@,
            "edge_pair_index_rows"@,
        ),
        recorded is Ok <==> row is None || serialized_ids(row->Some_0.value@) is Some,
        recorded is Err || row is None ==> final(snapshot).pair_indexes@.len() == old(snapshot).pair_indexes@.len(),
        recorded is Ok && row is Some ==> {
            let listed = final(snapshot).pair_indexes@;
            let row = row->Some_0;
            &&& listed.len() == old(snapshot).pair_indexes@.len() + 1
            &&& listed.last().from == row.from
            &&& listed.last().to == row.to
            &&& listed.last().edge_ids@.to_set() == serialized_ids(row.value@)->Some_0
            &&& forall|i: int, j: int|
                0 <= i < j < listed.last().edge_ids@.len() ==> (
                #[trigger] listed.last().edge_ids@[i]) < (#[trigger] listed.last().edge_ids@[j])
        },
{
    let pairs = old(snapshot).pair_indexes@;
    let listed = final(snapshot).pair_indexes@;
    assert(pairs_model(pairs).len() == pairs.len());
    assert(pairs_model(listed).len() == listed.len());
    if recorded is Ok && row is Some {
        assert(pairs_model(listed).last() == listed.last().model());
        let ids = serialized_ids(row->Some_0.value@)->Some_0;
        let edge_ids = listed.last().edge_ids@;
        assert forall|id: u64| #[trigger] edge_ids.to_set().contains(id) <==> ids.contains(id) by {
            assert(edge_ids.contains(id) <==> ids.contains(id));
        }
        assert(edge_ids.to_set() =~= ids);
    }
}

/// Once ordered, the pairs are the same ones, by their first and then by their
/// second node.
pub proof fn law_pairs_are_ordered_by_their_nodes(snapshot: &mut MigrationParitySnapshot)
    requires
        call_ensures(MigrationParitySnapshot::finish_edge_properties, (snapshot,), ()),
    ensures
        final(snapshot).legacy_edge_pairs@.to_multiset() == old(snapshot).legacy_edge_pairs@.to_multiset(),
        forall|i: int, j: int|
            #![trigger final(snapshot).legacy_edge_pairs@[i], final(snapshot).legacy_edge_pairs@[j]]
            0 <= i < j < final(snapshot).legacy_edge_pairs@.len() ==> {
                let a = final(snapshot).legacy_edge_pairs@[i];
                let b = final(snapshot).legacy_edge_pairs@[j];
                a.from < b.from || a.from == b.from && a.to <= b.to
            },
        final(snapshot).current_edges@.dom() == old(snapshot).current_edges@.dom(),
{
    law_sorting_orders_all_elements(old(snapshot).legacy_edge_pairs@);
    let sorted = final(snapshot).legacy_edge_pairs@;
    assert forall|i: int, j: int|
        #![trigger sorted[i], sorted[j]]
        0 <= i < j < sorted.len() implies {
        let a = sorted[i];
        let b = sorted[j];
        a.from < b.from || a.from == b.from && a.to <= b.to
    } by {
        assert(sorted[i].ranked(&sorted[j]) != Rank::Greater);
    }
    assert(edges_model(old(snapshot).current_edges@).dom() =~= old(snapshot).current_edges@.dom());
    assert(edges_model(final(snapshot).current_edges@).dom() =~= final(snapshot).current_edges@.dom());
}

/// Once ordered, the pair indexes are the same ones, by their first and then by
/// their second node.
pub proof fn law_pair_indexes_are_ordered_by_their_nodes(snapshot: &mut MigrationParitySnapshot)
    requires
        call_ensures(MigrationParitySnapshot::finish_pair_indexes, (snapshot,), ()),
    ensures
        final(snapshot).pair_indexes@.to_multiset() == old(snapshot).pair_indexes@.to_multiset(),
        forall|i: int, j: int|
            #![trigger final(snapshot).pair_indexes@[i], final(snapshot).pair_indexes@[j]]
            0 <= i < j < final(snapshot).pair_indexes@.len() ==> {
                let a = final(snapshot).pair_indexes@[i];
                let b = final(snapshot).pair_indexes@[j];
                a.from < b.from || a.from == b.from && a.to <= b.to
            },
{
    law_sorting_orders_all_elements(old(snapshot).pair_indexes@);
    let sorted = final(snapshot).pair_indexes@;
    assert forall|i: int, j: int|
        #![trigger sorted[i], sorted[j]]
        0 <= i < j < sorted.len() implies {
        let a = sorted[i];
        let b = sorted[j];
        a.from < b.from || a.from == b.from && a.to <= b.to
    } by {
        assert(sorted[i].ranked(&sorted[j]) != Rank::Greater);
    }
}

/// The next free identifiers are noted for nodes and for edges, each under its
/// own name; one that was never allocated is zero.
pub proof fn law_watermarks_are_noted_by_name(
    snapshot: &mut MigrationParitySnapshot,
    next_node: Option<u64>,
    next_edge: Option<u64>,
)
    requires
        call_ensures(
            MigrationParitySnapshot::record_allocator_watermarks,
            (snapshot, next_node, next_edge),
            (),
        ),
    ensures
        final(snapshot).allocator_watermarks@.dom() == old(snapshot).allocator_watermarks@.dom().insert("next_node_id"@).insert("next_edge_id"@),
        final(snapshot).allocator_watermarks@["next_node_id"@] == if next_node is Some {
            next_node->Some_0
        } else {
            0
        },
        final(snapshot).allocator_watermarks@["next_edge_id"@] == if next_edge is Some {
            next_edge->Some_0
        } else {
            0
        },
        final(snapshot).raw_counts@ == old(snapshot).raw_counts@,
{
    reveal_strlit("next_node_id");
    reveal_strlit("next_edge_id");
    assert("next_node_id"@[5] != "next_edge_id"@[5]);
}

/// A property index row is only counted.
pub proof fn law_property_index_rows_are_counted(snapshot: &mut MigrationParitySnapshot)
    requires
        call_ensures(MigrationParitySnapshot::record_property_index, (snapshot,), ()),
    ensures
        counts_one_more(
            old(snapshot).raw_counts@,
            final(snapshot).raw_counts@,
            "property_index_rows"@,
        ),
{
}

/// A snapshot starts with nothing in it.
pub proof fn law_snapshots_start_empty(snapshot: MigrationParitySnapshot)
    requires
        call_ensures(MigrationParitySnapshot::new, (), snapshot),
    ensures
        snapshot.nodes@.dom() == Set::<u64>::empty(),
        snapshot.current_edges@.dom() == Set::<u64>::empty(),
        snapshot.legacy_edge_pairs@.len() == 0,
        snapshot.pair_indexes@.len() == 0,
        snapshot.adjacency@.dom() == Set::<u64>::empty(),
        snapshot.allocator_watermarks@.dom() == Set::<Seq<char>>::empty(),
        snapshot.raw_counts@.dom() == Set::<Seq<char>>::empty(),
        snapshot.consistency_findings@.len() == 0,
{
    assert(nodes_model(snapshot.nodes@).dom() =~= snapshot.nodes@.dom());
    assert(edges_model(snapshot.current_edges@).dom() =~= snapshot.current_edges@.dom());
    assert(adjacency_model(snapshot.adjacency@).dom() =~= snapshot.adjacency@.dom());
    assert(legacy_pairs_model(snapshot.legacy_edge_pairs@).len()
        == snapshot.legacy_edge_pairs@.len());
    assert(pairs_model(snapshot.pair_indexes@).len() == snapshot.pair_indexes@.len());
    assert(texts_of(snapshot.consistency_findings@).len() == snapshot.consistency_findings@.len());
}

} // verus!
