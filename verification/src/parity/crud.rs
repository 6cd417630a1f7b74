//! A rehearsal of writes against a migrated database: what is written, what is
//! asked after each write, and what the answers have to be.

use vstd::prelude::*;

use crate::error::{invariant_violation, HelixDbError, HelixDbErrorView};
use crate::order::{law_sorting_orders_all_elements, sort_ranked, sort_values, Rank, Ranked};
use crate::render::{decimal, decimal_string};

verus! {

/// A node that a statement speaks of.
#[derive(Debug, Clone, Copy)]
pub enum CrudNode {
    /// The node that an earlier statement of the batch has bound.
    Bound(&'static str),
    Id(u64),
}

/// A property value of the rehearsal.
#[derive(Debug, Clone, Copy)]
pub enum CrudValue {
    Text(&'static str),
    Number(i64),
    /// Bits of the three components of a vector.
    Vector(u32, u32, u32),
}

/// One write, or one question inside a write batch.
#[derive(Debug, Clone, Copy)]
pub enum CrudWrite {
    /// Add a node with the label and the properties `tier`, `rank`, `bio` and
    /// `embedding`.
    AddNode {
        label: &'static str,
        tier: CrudValue,
        rank: CrudValue,
        bio: CrudValue,
        embedding: CrudValue,
    },
    /// The identifier of a node.
    NodeId { node: CrudNode },
    /// Add an edge with the label and the properties `kind` and `since`.
    AddEdge {
        from: CrudNode,
        label: &'static str,
        to: CrudNode,
        kind: CrudValue,
        since: CrudValue,
    },
    /// The identifiers of the node's outgoing edges with the label.
    OutgoingEdgeIds { node: CrudNode, label: &'static str },
    SetNodeProperty { node: CrudNode, property: &'static str, value: CrudValue },
    SetEdgeProperty { edge: u64, property: &'static str, value: CrudValue },
    DropEdge { edge: u64 },
    DropNode { node: CrudNode },
}

/// One question; the answer is a list of identifiers.
#[derive(Debug, Clone, Copy)]
pub enum CrudRead {
    Nodes { first: u64, second: u64 },
    OutgoingNodes { node: u64, label: &'static str },
    IncomingNodes { node: u64, label: &'static str },
    NeighborNodes { node: u64, label: &'static str },
    OutgoingEdges { node: u64, label: &'static str },
    NodesEqual { label: &'static str, property: &'static str, value: CrudValue },
    NodesBetween { label: &'static str, property: &'static str, low: i64, high: i64 },
    EdgesEqual { label: &'static str, property: &'static str, value: CrudValue },
    EdgesEqualAny {
        label: &'static str,
        property: &'static str,
        first: CrudValue,
        second: CrudValue,
        third: CrudValue,
    },
    EdgesBetween { label: &'static str, property: &'static str, low: i64, high: i64 },
    TextSearch { label: &'static str, property: &'static str, query: &'static str, k: u64 },
    VectorSearch { label: &'static str, property: &'static str, query: CrudValue, k: u64 },
}

/// The writes of the first batch, with the names that they bind.
pub open spec fn create_script() -> Seq<(&'static str, CrudWrite)> {
    seq![
        (
            "left",
            CrudWrite::AddNode {
                label: "User",
                tier: CrudValue::Text("migration-crud"),
                rank: CrudValue::Number(9_001),
                bio: CrudValue::Text("crudmigrationtoken left"),
                embedding: CrudValue::Vector(0x42c8_0000, 0, 0),
            },
        ),
        ("left_id", CrudWrite::NodeId { node: CrudNode::Bound("left") }),
        (
            "right",
            CrudWrite::AddNode {
                label: "User",
                tier: CrudValue::Text("migration-crud"),
                rank: CrudValue::Number(9_002),
                bio: CrudValue::Text("crudmigrationtoken right"),
                embedding: CrudValue::Vector(0x42ca_0000, 0, 0),
            },
        ),
        ("right_id", CrudWrite::NodeId { node: CrudNode::Bound("right") }),
        (
            "parallel_a",
            CrudWrite::AddEdge {
                from: CrudNode::Bound("left"),
                label: "FOLLOWS",
                to: CrudNode::Bound("right"),
                kind: CrudValue::Text("migration-crud-parallel-a"),
                since: CrudValue::Number(9_001),
            },
        ),
        (
            "parallel_b",
            CrudWrite::AddEdge {
                from: CrudNode::Bound("left"),
                label: "FOLLOWS",
                to: CrudNode::Bound("right"),
                kind: CrudValue::Text("migration-crud-parallel-b"),
                since: CrudValue::Number(9_002),
            },
        ),
        (
            "self_loop",
            CrudWrite::AddEdge {
                from: CrudNode::Bound("left"),
                label: "FOLLOWS",
                to: CrudNode::Bound("left"),
                kind: CrudValue::Text("migration-crud-self"),
                since: CrudValue::Number(9_003),
            },
        ),
        (
            "edge_ids",
            CrudWrite::OutgoingEdgeIds { node: CrudNode::Bound("left"), label: "FOLLOWS" },
        ),
    ]
}

/// The writes of the first batch: two nodes, two parallel edges between them
/// and a self loop. It returns `left_id`, `right_id` and `edge_ids`.
pub fn crud_create_batch() -> (batch: Vec<(&'static str, CrudWrite)>)
    ensures
        batch@ == create_script(),
{
    let batch: Vec<(&'static str, CrudWrite)> = vec![
        (
            "left",
            CrudWrite::AddNode {
                label: "User",
                tier: CrudValue::Text("migration-crud"),
                rank: CrudValue::Number(9_001),
                bio: CrudValue::Text("crudmigrationtoken left"),
                embedding: CrudValue::Vector(0x42c8_0000, 0, 0),
            },
        ),
        ("left_id", CrudWrite::NodeId { node: CrudNode::Bound("left") }),
        (
            "right",
            CrudWrite::AddNode {
                label: "User",
                tier: CrudValue::Text("migration-crud"),
                rank: CrudValue::Number(9_002),
                bio: CrudValue::Text("crudmigrationtoken right"),
                embedding: CrudValue::Vector(0x42ca_0000, 0, 0),
            },
        ),
        ("right_id", CrudWrite::NodeId { node: CrudNode::Bound("right") }),
        (
            "parallel_a",
            CrudWrite::AddEdge {
                from: CrudNode::Bound("left"),
                label: "FOLLOWS",
                to: CrudNode::Bound("right"),
                kind: CrudValue::Text("migration-crud-parallel-a"),
                since: CrudValue::Number(9_001),
            },
        ),
        (
            "parallel_b",
            CrudWrite::AddEdge {
                from: CrudNode::Bound("left"),
                label: "FOLLOWS",
                to: CrudNode::Bound("right"),
                kind: CrudValue::Text("migration-crud-parallel-b"),
                since: CrudValue::Number(9_002),
            },
        ),
        (
            "self_loop",
            CrudWrite::AddEdge {
                from: CrudNode::Bound("left"),
                label: "FOLLOWS",
                to: CrudNode::Bound("left"),
                kind: CrudValue::Text("migration-crud-self"),
                since: CrudValue::Number(9_003),
            },
        ),
        (
            "edge_ids",
            CrudWrite::OutgoingEdgeIds { node: CrudNode::Bound("left"), label: "FOLLOWS" },
        ),
    ];
    assert(batch@ =~= create_script());
    batch
}

/// What the first batch has created.
#[derive(Debug, Clone, PartialEq, Eq)]
pub struct MigrationParityCrudState {
    pub left_node_id: u64,
    pub right_node_id: u64,
    pub parallel_edge_ids: Vec<u64>,
    pub self_edge_id: u64,
}

/// The writes of the second batch: every indexed property of the left node and
/// of the self loop changes.
pub open spec fn update_script(state: MigrationParityCrudState) -> Seq<(&'static str, CrudWrite)> {
    let left = CrudNode::Id(state.left_node_id);
    let edge = state.self_edge_id;
    seq![
        (
            "left_tier",
            CrudWrite::SetNodeProperty {
                node: left,
                property: "tier",
                value: CrudValue::Text("migration-crud-updated"),
            },
        ),
        (
            "left_rank",
            CrudWrite::SetNodeProperty {
                node: left,
                property: "rank",
                value: CrudValue::Number(9_101),
            },
        ),
        (
            "left_bio",
            CrudWrite::SetNodeProperty {
                node: left,
                property: "bio",
                value: CrudValue::Text("updated exclusive token"),
            },
        ),
        (
            "left_embedding",
            CrudWrite::SetNodeProperty {
                node: left,
                property: "embedding",
                value: CrudValue::Vector(0x4348_0000, 0, 0),
            },
        ),
        (
            "self_kind",
            CrudWrite::SetEdgeProperty {
                edge,
                property: "kind",
                value: CrudValue::Text("migration-crud-updated"),
            },
        ),
        (
            "self_since",
            CrudWrite::SetEdgeProperty { edge, property: "since", value: CrudValue::Number(9_101) },
        ),
    ]
}

/// The writes of the second batch.
pub fn crud_update_batch(state: &MigrationParityCrudState) -> (batch: Vec<
    (&'static str, CrudWrite),
>)
    ensures
        batch@ == update_script(*state),
{
    let left = CrudNode::Id(state.left_node_id);
    let edge = state.self_edge_id;
    let batch: Vec<(&'static str, CrudWrite)> = vec![
        (
            "left_tier",
            CrudWrite::SetNodeProperty {
                node: left,
                property: "tier",
                value: CrudValue::Text("migration-crud-updated"),
            },
        ),
        (
            "left_rank",
            CrudWrite::SetNodeProperty {
                node: left,
                property: "rank",
                value: CrudValue::Number(9_101),
            },
        ),
        (
            "left_bio",
            CrudWrite::SetNodeProperty {
                node: left,
                property: "bio",
                value: CrudValue::Text("updated exclusive token"),
            },
        ),
        (
            "left_embedding",
            CrudWrite::SetNodeProperty {
                node: left,
                property: "embedding",
                value: CrudValue::Vector(0x4348_0000, 0, 0),
            },
        ),
        (
            "self_kind",
            CrudWrite::SetEdgeProperty {
                edge,
                property: "kind",
                value: CrudValue::Text("migration-crud-updated"),
            },
        ),
        (
            "self_since",
            CrudWrite::SetEdgeProperty { edge, property: "since", value: CrudValue::Number(9_101) },
        ),
    ];
    assert(batch@ =~= update_script(*state));
    batch
}

/// The writes of the third batch: one parallel edge goes, and the right node
/// with everything on it.
pub fn crud_delete_batch(state: &MigrationParityCrudState) -> (batch: Vec<
    (&'static str, CrudWrite),
>)
    requires
        state.parallel_edge_ids@.len() > 0,
    ensures
        batch@ == seq![
            ("drop_parallel_a", CrudWrite::DropEdge { edge: state.parallel_edge_ids@[0] }),
            (
                "drop_right",
                CrudWrite::DropNode { node: CrudNode::Id(state.right_node_id) },
            ),
        ],
{
    let batch: Vec<(&'static str, CrudWrite)> = vec![
        ("drop_parallel_a", CrudWrite::DropEdge { edge: state.parallel_edge_ids[0] }),
        ("drop_right", CrudWrite::DropNode { node: CrudNode::Id(state.right_node_id) }),
    ];
    assert(batch@ =~= seq![
        ("drop_parallel_a", CrudWrite::DropEdge { edge: state.parallel_edge_ids@[0] }),
        ("drop_right", CrudWrite::DropNode { node: CrudNode::Id(state.right_node_id) }),
    ]);
    batch
}

/// The questions asked after each batch, with the names of their answers.
pub open spec fn read_script(state: MigrationParityCrudState) -> Seq<(&'static str, CrudRead)> {
    let left = state.left_node_id;
    let right = state.right_node_id;
    seq![
        ("exact_node_ids", CrudRead::Nodes { first: left, second: right }),
        ("outgoing_node_ids", CrudRead::OutgoingNodes { node: left, label: "FOLLOWS" }),
        ("incoming_node_ids", CrudRead::IncomingNodes { node: right, label: "FOLLOWS" }),
        ("both_node_ids", CrudRead::NeighborNodes { node: left, label: "FOLLOWS" }),
        ("outgoing_edge_ids", CrudRead::OutgoingEdges { node: left, label: "FOLLOWS" }),
        (
            "equality_node_ids",
            CrudRead::NodesEqual {
                label: "User",
                property: "tier",
                value: CrudValue::Text("migration-crud"),
            },
        ),
        (
            "updated_equality_node_ids",
            CrudRead::NodesEqual {
                label: "User",
                property: "tier",
                value: CrudValue::Text("migration-crud-updated"),
            },
        ),
        (
            "range_node_ids",
            CrudRead::NodesBetween { label: "User", property: "rank", low: 9_000, high: 9_200 },
        ),
        (
            "equality_edge_ids",
            CrudRead::EdgesEqualAny {
                label: "FOLLOWS",
                property: "kind",
                first: CrudValue::Text("migration-crud-parallel-a"),
                second: CrudValue::Text("migration-crud-parallel-b"),
                third: CrudValue::Text("migration-crud-self"),
            },
        ),
        (
            "updated_equality_edge_ids",
            CrudRead::EdgesEqual {
                label: "FOLLOWS",
                property: "kind",
                value: CrudValue::Text("migration-crud-updated"),
            },
        ),
        (
            "range_edge_ids",
            CrudRead::EdgesBetween {
                label: "FOLLOWS",
                property: "since",
                low: 9_000,
                high: 9_200,
            },
        ),
        (
            "text_initial_node_ids",
            CrudRead::TextSearch {
                label: "User",
                property: "bio",
                query: "crudmigrationtoken",
                k: 8,
            },
        ),
        (
            "text_updated_node_ids",
            CrudRead::TextSearch {
                label: "User",
                property: "bio",
                query: "updated exclusive",
                k: 8,
            },
        ),
        (
            "vector_updated_node_ids",
            CrudRead::VectorSearch {
                label: "User",
                property: "embedding",
                query: CrudValue::Vector(0x4348_0000, 0, 0),
                k: 2,
            },
        ),
    ]
}

/// The questions asked after each batch.
pub fn crud_read_batch(state: &MigrationParityCrudState) -> (batch: Vec<(&'static str, CrudRead)>)
    ensures
        batch@ == read_script(*state),
{
    let left = state.left_node_id;
    let right = state.right_node_id;
    let batch: Vec<(&'static str, CrudRead)> = vec![
        ("exact_node_ids", CrudRead::Nodes { first: left, second: right }),
        ("outgoing_node_ids", CrudRead::OutgoingNodes { node: left, label: "FOLLOWS" }),
        ("incoming_node_ids", CrudRead::IncomingNodes { node: right, label: "FOLLOWS" }),
        ("both_node_ids", CrudRead::NeighborNodes { node: left, label: "FOLLOWS" }),
        ("outgoing_edge_ids", CrudRead::OutgoingEdges { node: left, label: "FOLLOWS" }),
        (
            "equality_node_ids",
            CrudRead::NodesEqual {
                label: "User",
                property: "tier",
                value: CrudValue::Text("migration-crud"),
            },
        ),
        (
            "updated_equality_node_ids",
            CrudRead::NodesEqual {
                label: "User",
                property: "tier",
                value: CrudValue::Text("migration-crud-updated"),
            },
        ),
        (
            "range_node_ids",
            CrudRead::NodesBetween { label: "User", property: "rank", low: 9_000, high: 9_200 },
        ),
        (
            "equality_edge_ids",
            CrudRead::EdgesEqualAny {
                label: "FOLLOWS",
                property: "kind",
                first: CrudValue::Text("migration-crud-parallel-a"),
                second: CrudValue::Text("migration-crud-parallel-b"),
                third: CrudValue::Text("migration-crud-self"),
            },
        ),
        (
            "updated_equality_edge_ids",
            CrudRead::EdgesEqual {
                label: "FOLLOWS",
                property: "kind",
                value: CrudValue::Text("migration-crud-updated"),
            },
        ),
        (
            "range_edge_ids",
            CrudRead::EdgesBetween {
                label: "FOLLOWS",
                property: "since",
                low: 9_000,
                high: 9_200,
            },
        ),
        (
            "text_initial_node_ids",
            CrudRead::TextSearch {
                label: "User",
                property: "bio",
                query: "crudmigrationtoken",
                k: 8,
            },
        ),
        (
            "text_updated_node_ids",
            CrudRead::TextSearch {
                label: "User",
                property: "bio",
                query: "updated exclusive",
                k: 8,
            },
        ),
        (
            "vector_updated_node_ids",
            CrudRead::VectorSearch {
                label: "User",
                property: "embedding",
                query: CrudValue::Vector(0x4348_0000, 0, 0),
                k: 2,
            },
        ),
    ];
    assert(batch@ =~= read_script(*state));
    batch
}

/// One answer as it arrives: `None` if it is no array, and `None` for each
/// element that is no unsigned number.
pub type CrudAnswer = Option<Vec<Option<u64>>>;

/// The numbers of an answer, if all are numbers.
pub open spec fn answer_numbers(values: Seq<Option<u64>>) -> Option<Seq<u64>>
    decreases values.len(),
{
    if values.len() == 0 {
        Some(Seq::empty())
    } else {
        match (answer_numbers(values.drop_last()), values.last()) {
            (Some(front), Some(id)) => Some(front.push(id)),
            _ => None,
        }
    }
}

/// The identifiers that an answer gives, in ascending order, or what is wrong
/// with it.
pub open spec fn answer_ids(answer: CrudAnswer, name: Seq<char>) -> Result<
    Seq<u64>,
    HelixDbErrorView,
> {
    match answer {
        None => Err(
            HelixDbErrorView::InvariantViolation(
                "CRUD query corpus result `"@ + name + "` is not an array"@,
            ),
        ),
        Some(values) => match answer_numbers(values@) {
            None => Err(
                HelixDbErrorView::InvariantViolation(
                    "CRUD query corpus result `"@ + name + "` contains a non-u64 value"@,
                ),
            ),
            Some(ids) => Ok(sort_ranked(ids)),
        },
    }
}

fn answer_error(name: &str, tail: &str) -> (error: HelixDbError)
    ensures
        error@ == HelixDbErrorView::InvariantViolation(
            "CRUD query corpus result `"@ + name@ + tail@,
        ),
{
    let mut message = "CRUD query corpus result `".to_owned();
    message.append(name);
    message.append(tail);
    invariant_violation(message.as_str())
}

/// A failing answer stays failing.
proof fn lemma_answer_fails(values: Seq<Option<u64>>, count: int)
    requires
        0 <= count <= values.len(),
        answer_numbers(values.take(count)) is None,
    ensures
        answer_numbers(values) is None,
    decreases values.len(),
{
    if count == values.len() {
        assert(values.take(count) =~= values);
    } else {
        assert(values.drop_last().take(count) =~= values.take(count));
        lemma_answer_fails(values.drop_last(), count);
    }
}

/// The identifiers that an answer gives, in ascending order.
pub fn query_corpus_ids(answer: &CrudAnswer, name: &str) -> (ids: Result<Vec<u64>, HelixDbError>)
    ensures
        match ids {
            Ok(ids) => answer_ids(*answer, name@) == Ok::<_, HelixDbErrorView>(ids@),
            Err(error) => answer_ids(*answer, name@) == Err::<Seq<u64>, _>(error@),
        },
{
    let values = match answer {
        Some(values) => values,
        None => {
            return Err(answer_error(name, "` is not an array"));
        },
    };
    let mut ids: Vec<u64> = Vec::new();
    let mut i: usize = 0;
    assert(values@.take(0) =~= Seq::<Option<u64>>::empty());
    assert(ids@ =~= Seq::<u64>::empty());
    while i < values.len()
        invariant
            i <= values.len(),
            *answer == Some(*values),
            answer_numbers(values@.take(i as int)) == Some(ids@),
        decreases values.len() - i,
    {
        assert(values@.take(i as int + 1).drop_last() =~= values@.take(i as int));
        match values[i] {
            Some(id) => {
                ids.push(id);
            },
            None => {
                proof {
                    lemma_answer_fails(values@, i as int + 1);
                }
                return Err(answer_error(name, "` contains a non-u64 value"));
            },
        }
        i = i + 1;
    }
    assert(values@.take(i as int) =~= values@);
    sort_values(&mut ids);
    Ok(ids)
}

fn wrong_count(count: usize, tail: &str) -> (error: HelixDbError)
    ensures
        error@ == HelixDbErrorView::InvariantViolation(
            "CRUD rehearsal created "@ + decimal(count as nat) + tail@,
        ),
{
    let mut message = "CRUD rehearsal created ".to_owned();
    let digits = decimal_string(count as u64);
    message.append(digits.as_str());
    message.append(tail);
    invariant_violation(message.as_str())
}

/// What the first batch has created, from the identifiers that it returned.
pub fn created_crud_state(
    left_ids: &Vec<u64>,
    right_ids: &Vec<u64>,
    edge_ids: &Vec<u64>,
) -> (state: Result<MigrationParityCrudState, HelixDbError>)
    ensures
        match state {
            Ok(state) => {
                &&& left_ids@ == seq![state.left_node_id]
                &&& right_ids@ == seq![state.right_node_id]
                &&& state.parallel_edge_ids@.len() == 2
                &&& edge_ids@ == state.parallel_edge_ids@.push(state.self_edge_id)
            },
            Err(error) => error@ == HelixDbErrorView::InvariantViolation(
                "CRUD rehearsal created "@ + if left_ids@.len() != 1 {
                    decimal(left_ids@.len()) + " left nodes instead of one"@
                } else if right_ids@.len() != 1 {
                    decimal(right_ids@.len()) + " right nodes instead of one"@
                } else {
                    decimal(edge_ids@.len()) + " outgoing edges instead of three"@
                },
            ) && (left_ids@.len() != 1 || right_ids@.len() != 1 || edge_ids@.len() != 3),
        },
{
    if left_ids.len() != 1 {
        let error = wrong_count(left_ids.len(), " left nodes instead of one");
        assert(error@.text() =~= "CRUD rehearsal created "@ + (decimal(left_ids@.len())
            + " left nodes instead of one"@));
        return Err(error);
    }
    if right_ids.len() != 1 {
        let error = wrong_count(right_ids.len(), " right nodes instead of one");
        assert(error@.text() =~= "CRUD rehearsal created "@ + (decimal(right_ids@.len())
            + " right nodes instead of one"@));
        return Err(error);
    }
    if edge_ids.len() != 3 {
        let error = wrong_count(edge_ids.len(), " outgoing edges instead of three");
        assert(error@.text() =~= "CRUD rehearsal created "@ + (decimal(edge_ids@.len())
            + " outgoing edges instead of three"@));
        return Err(error);
    }
    let state = MigrationParityCrudState {
        left_node_id: left_ids[0],
        right_node_id: right_ids[0],
        parallel_edge_ids: vec![edge_ids[0], edge_ids[1]],
        self_edge_id: edge_ids[2],
    };
    proof {
        assert(left_ids@ =~= seq![state.left_node_id]);
        assert(right_ids@ =~= seq![state.right_node_id]);
        assert(edge_ids@ =~= state.parallel_edge_ids@.push(state.self_edge_id));
    }
    Ok(state)
}

/// The answers to all questions.
#[derive(Debug, Clone, PartialEq, Eq)]
pub struct MigrationParityQueryCorpus {
    pub exact_node_ids: Vec<u64>,
    pub outgoing_node_ids: Vec<u64>,
    pub incoming_node_ids: Vec<u64>,
    pub both_node_ids: Vec<u64>,
    pub outgoing_edge_ids: Vec<u64>,
    pub equality_node_ids: Vec<u64>,
    pub updated_equality_node_ids: Vec<u64>,
    pub range_node_ids: Vec<u64>,
    pub equality_edge_ids: Vec<u64>,
    pub updated_equality_edge_ids: Vec<u64>,
    pub range_edge_ids: Vec<u64>,
    pub text_initial_node_ids: Vec<u64>,
    pub text_updated_node_ids: Vec<u64>,
    pub vector_updated_node_ids: Vec<u64>,
}

/// The answers to all questions, as sequences.
#[verifier::ext_equal]
pub ghost struct CorpusView {
    pub exact_node_ids: Seq<u64>,
    pub outgoing_node_ids: Seq<u64>,
    pub incoming_node_ids: Seq<u64>,
    pub both_node_ids: Seq<u64>,
    pub outgoing_edge_ids: Seq<u64>,
    pub equality_node_ids: Seq<u64>,
    pub updated_equality_node_ids: Seq<u64>,
    pub range_node_ids: Seq<u64>,
    pub equality_edge_ids: Seq<u64>,
    pub updated_equality_edge_ids: Seq<u64>,
    pub range_edge_ids: Seq<u64>,
    pub text_initial_node_ids: Seq<u64>,
    pub text_updated_node_ids: Seq<u64>,
    pub vector_updated_node_ids: Seq<u64>,
}

impl View for MigrationParityQueryCorpus {
    type V = CorpusView;

    open spec fn view(&self) -> CorpusView {
        CorpusView {
            exact_node_ids: self.exact_node_ids@,
            outgoing_node_ids: self.outgoing_node_ids@,
            incoming_node_ids: self.incoming_node_ids@,
            both_node_ids: self.both_node_ids@,
            outgoing_edge_ids: self.outgoing_edge_ids@,
            equality_node_ids: self.equality_node_ids@,
            updated_equality_node_ids: self.updated_equality_node_ids@,
            range_node_ids: self.range_node_ids@,
            equality_edge_ids: self.equality_edge_ids@,
            updated_equality_edge_ids: self.updated_equality_edge_ids@,
            range_edge_ids: self.range_edge_ids@,
            text_initial_node_ids: self.text_initial_node_ids@,
            text_updated_node_ids: self.text_updated_node_ids@,
            vector_updated_node_ids: self.vector_updated_node_ids@,
        }
    }
}

/// The name of the answer at a place.
pub open spec fn answer_name(at: int) -> Seq<char> {
    if at == 0 {
        "exact_node_ids"@
    } else if at == 1 {
        "outgoing_node_ids"@
    } else if at == 2 {
        "incoming_node_ids"@
    } else if at == 3 {
        "both_node_ids"@
    } else if at == 4 {
        "outgoing_edge_ids"@
    } else if at == 5 {
        "equality_node_ids"@
    } else if at == 6 {
        "updated_equality_node_ids"@
    } else if at == 7 {
        "range_node_ids"@
    } else if at == 8 {
        "equality_edge_ids"@
    } else if at == 9 {
        "updated_equality_edge_ids"@
    } else if at == 10 {
        "range_edge_ids"@
    } else if at == 11 {
        "text_initial_node_ids"@
    } else if at == 12 {
        "text_updated_node_ids"@
    } else {
        "vector_updated_node_ids"@
    }
}

impl CorpusView {
    /// The answer at a place.
    pub open spec fn answer(self, at: int) -> Seq<u64> {
        if at == 0 {
            self.exact_node_ids
        } else if at == 1 {
            self.outgoing_node_ids
        } else if at == 2 {
            self.incoming_node_ids
        } else if at == 3 {
            self.both_node_ids
        } else if at == 4 {
            self.outgoing_edge_ids
        } else if at == 5 {
            self.equality_node_ids
        } else if at == 6 {
            self.updated_equality_node_ids
        } else if at == 7 {
            self.range_node_ids
        } else if at == 8 {
            self.equality_edge_ids
        } else if at == 9 {
            self.updated_equality_edge_ids
        } else if at == 10 {
            self.range_edge_ids
        } else if at == 11 {
            self.text_initial_node_ids
        } else if at == 12 {
            self.text_updated_node_ids
        } else {
            self.vector_updated_node_ids
        }
    }
}

/// Each answer's name is the name of the question at its place.
pub proof fn law_answers_are_named_as_asked(state: MigrationParityCrudState, at: int)
    requires
        0 <= at < 14,
    ensures
        read_script(state).len() == 14,
        read_script(state)[at].0@ == answer_name(at),
{
}

fn exec_answer_name(at: usize) -> (name: &'static str)
    ensures
        name@ == answer_name(at as int),
{
    match at {
        0 => "exact_node_ids",
        1 => "outgoing_node_ids",
        2 => "incoming_node_ids",
        3 => "both_node_ids",
        4 => "outgoing_edge_ids",
        5 => "equality_node_ids",
        6 => "updated_equality_node_ids",
        7 => "range_node_ids",
        8 => "equality_edge_ids",
        9 => "updated_equality_edge_ids",
        10 => "range_edge_ids",
        11 => "text_initial_node_ids",
        12 => "text_updated_node_ids",
        _ => "vector_updated_node_ids",
    }
}

/// The answers in the order of the questions, as one corpus; or the first
/// answer that is not acceptable.
pub fn crud_query_corpus(answers: &Vec<CrudAnswer>) -> (corpus: Result<
    MigrationParityQueryCorpus,
    HelixDbError,
>)
    requires
        answers@.len() == 14,
    ensures
        match corpus {
            Ok(corpus) => forall|i: int|
                0 <= i < 14 ==> #[trigger] answer_ids(answers@[i], answer_name(i)) == Ok::<
                    _,
                    HelixDbErrorView,
                >(corpus@.answer(i)),
            Err(error) => exists|i: int|
                0 <= i < 14 && #[trigger] answer_ids(answers@[i], answer_name(i)) == Err::<
                    Seq<u64>,
                    _,
                >(error@) && forall|k: int|
                    0 <= k < i ==> #[trigger] answer_ids(answers@[k], answer_name(k)) is Ok,
        },
{
    let mut lists: Vec<Vec<u64>> = Vec::new();
    let mut i: usize = 0;
    while i < 14
        invariant
            i <= 14,
            answers@.len() == 14,
            lists@.len() == i,
            forall|k: int|
                0 <= k < i ==> #[trigger] answer_ids(answers@[k], answer_name(k)) == Ok::<
                    _,
                    HelixDbErrorView,
                >(lists@[k]@),
        decreases 14 - i,
    {
        match query_corpus_ids(&answers[i], exec_answer_name(i)) {
            Ok(ids) => {
                lists.push(ids);
            },
            Err(error) => {
                assert(answer_ids(answers@[i as int], answer_name(i as int)) == Err::<
                    Seq<u64>,
                    _,
                >(error@));
                return Err(error);
            },
        }
        i = i + 1;
    }
    let ghost all = lists@;
    let vector_updated_node_ids = lists.pop().unwrap();
    let text_updated_node_ids = lists.pop().unwrap();
    let text_initial_node_ids = lists.pop().unwrap();
    let range_edge_ids = lists.pop().unwrap();
    let updated_equality_edge_ids = lists.pop().unwrap();
    let equality_edge_ids = lists.pop().unwrap();
    let range_node_ids = lists.pop().unwrap();
    let updated_equality_node_ids = lists.pop().unwrap();
    let equality_node_ids = lists.pop().unwrap();
    let outgoing_edge_ids = lists.pop().unwrap();
    let both_node_ids = lists.pop().unwrap();
    let incoming_node_ids = lists.pop().unwrap();
    let outgoing_node_ids = lists.pop().unwrap();
    let exact_node_ids = lists.pop().unwrap();
    let corpus = MigrationParityQueryCorpus {
        exact_node_ids,
        outgoing_node_ids,
        incoming_node_ids,
        both_node_ids,
        outgoing_edge_ids,
        equality_node_ids,
        updated_equality_node_ids,
        range_node_ids,
        equality_edge_ids,
        updated_equality_edge_ids,
        range_edge_ids,
        text_initial_node_ids,
        text_updated_node_ids,
        vector_updated_node_ids,
    };
    proof {
        assert forall|k: int| 0 <= k < 14 implies #[trigger] answer_ids(
            answers@[k],
            answer_name(k),
        ) == Ok::<_, HelixDbErrorView>(corpus@.answer(k)) by {
            assert(corpus@.answer(k) == all[k]@);
        }
    }
    Ok(corpus)
}

/// A list of numbers in brackets, separated by commas.
pub open spec fn ids_text(ids: Seq<u64>) -> Seq<char> {
    "["@ + ids_inner_text(ids) + "]"@
}

/// The numbers of such a list.
pub open spec fn ids_inner_text(ids: Seq<u64>) -> Seq<char>
    decreases ids.len(),
{
    if ids.len() == 0 {
        Seq::empty()
    } else if ids.len() == 1 {
        decimal(ids[0] as nat)
    } else {
        ids_inner_text(ids.drop_last()) + ", "@ + decimal(ids.last() as nat)
    }
}

/// The first `count` answers with their names, separated by commas.
pub open spec fn answers_text(corpus: CorpusView, count: int) -> Seq<char>
    decreases count,
{
    if count <= 0 {
        Seq::empty()
    } else {
        let front = if count == 1 {
            Seq::empty()
        } else {
            answers_text(corpus, count - 1) + ", "@
        };
        front + answer_name(count - 1) + ": "@ + ids_text(corpus.answer(count - 1))
    }
}

/// A corpus as reports show it.
pub open spec fn corpus_text(corpus: CorpusView) -> Seq<char> {
    "MigrationParityQueryCorpus { "@ + answers_text(corpus, 14) + " }"@
}

fn render_ids(ids: &Vec<u64>) -> (text: String)
    ensures
        text@ == ids_text(ids@),
{
    let mut inner = String::new();
    let mut i: usize = 0;
    assert(inner@ =~= ids_inner_text(ids@.take(0)));
    while i < ids.len()
        invariant
            i <= ids.len(),
            inner@ == ids_inner_text(ids@.take(i as int)),
        decreases ids.len() - i,
    {
        assert(ids@.take(i as int + 1).drop_last() =~= ids@.take(i as int));
        let digits = decimal_string(ids[i]);
        if i > 0 {
            inner.append(", ");
            inner.append(digits.as_str());
        } else {
            inner.append(digits.as_str());
            assert(inner@ =~= digits@);
        }
        i = i + 1;
    }
    assert(ids@.take(i as int) =~= ids@);
    let mut text = "[".to_owned();
    text.append(inner.as_str());
    text.append("]");
    text
}

impl MigrationParityQueryCorpus {
    fn answer_at(&self, at: usize) -> (ids: &Vec<u64>)
        ensures
            ids@ == self@.answer(at as int),
    {
        match at {
            0 => &self.exact_node_ids,
            1 => &self.outgoing_node_ids,
            2 => &self.incoming_node_ids,
            3 => &self.both_node_ids,
            4 => &self.outgoing_edge_ids,
            5 => &self.equality_node_ids,
            6 => &self.updated_equality_node_ids,
            7 => &self.range_node_ids,
            8 => &self.equality_edge_ids,
            9 => &self.updated_equality_edge_ids,
            10 => &self.range_edge_ids,
            11 => &self.text_initial_node_ids,
            12 => &self.text_updated_node_ids,
            _ => &self.vector_updated_node_ids,
        }
    }

    /// The corpus as reports show it.
    pub fn to_text(&self) -> (text: String)
        ensures
            text@ == corpus_text(self@),
    {
        let mut inner = String::new();
        let mut i: usize = 0;
        assert(inner@ =~= answers_text(self@, 0));
        while i < 14
            invariant
                i <= 14,
                inner@ == answers_text(self@, i as int),
            decreases 14 - i,
        {
            let ids = render_ids(self.answer_at(i));
            if i > 0 {
                inner.append(", ");
            }
            proof {
                if i == 0 {
                    assert(inner@ =~= Seq::<char>::empty());
                }
            }
            inner.append(exec_answer_name(i));
            inner.append(": ");
            inner.append(ids.as_str());
            i = i + 1;
        }
        let mut text = "MigrationParityQueryCorpus { ".to_owned();
        text.append(inner.as_str());
        text.append(" }");
        text
    }

    /// Whether both hold the same answers.
    pub fn same(&self, other: &MigrationParityQueryCorpus) -> (same: bool)
        ensures
            same == (self@ == other@),
    {
        let mut i: usize = 0;
        while i < 14
            invariant
                i <= 14,
                forall|k: int|
                    0 <= k < i ==> #[trigger] self@.answer(k) == other@.answer(k),
            decreases 14 - i,
        {
            if !same_ids(self.answer_at(i), other.answer_at(i)) {
                return false;
            }
            i = i + 1;
        }
        proof {
            assert(self@.answer(0) == other@.answer(0));
            assert(self@.answer(1) == other@.answer(1));
            assert(self@.answer(2) == other@.answer(2));
            assert(self@.answer(3) == other@.answer(3));
            assert(self@.answer(4) == other@.answer(4));
            assert(self@.answer(5) == other@.answer(5));
            assert(self@.answer(6) == other@.answer(6));
            assert(self@.answer(7) == other@.answer(7));
            assert(self@.answer(8) == other@.answer(8));
            assert(self@.answer(9) == other@.answer(9));
            assert(self@.answer(10) == other@.answer(10));
            assert(self@.answer(11) == other@.answer(11));
            assert(self@.answer(12) == other@.answer(12));
            assert(self@.answer(13) == other@.answer(13));
        }
        true
    }
}

fn same_ids(a: &Vec<u64>, b: &Vec<u64>) -> (same: bool)
    ensures
        same == (a@ == b@),
{
    if a.len() != b.len() {
        return false;
    }
    let mut i: usize = 0;
    while i < a.len()
        invariant
            i <= a.len(),
            a@.len() == b@.len(),
            forall|k: int| 0 <= k < i ==> a@[k] == b@[k],
        decreases a.len() - i,
    {
        if a[i] != b[i] {
            return false;
        }
        i = i + 1;
    }
    assert(a@ =~= b@);
    true
}

fn contains_id(ids: &Vec<u64>, id: u64) -> (present: bool)
    ensures
        present == ids@.contains(id),
{
    let mut i: usize = 0;
    while i < ids.len()
        invariant
            i <= ids.len(),
            forall|k: int| 0 <= k < i ==> ids@[k] != id,
        decreases ids.len() - i,
    {
        if ids[i] == id {
            assert(ids@.contains(id));
            return true;
        }
        i = i + 1;
    }
    false
}

fn copy_ids(ids: &Vec<u64>) -> (copy: Vec<u64>)
    ensures
        copy@ == ids@,
{
    let mut copy: Vec<u64> = Vec::new();
    let mut i: usize = 0;
    while i < ids.len()
        invariant
            i <= ids.len(),
            copy@ == ids@.take(i as int),
        decreases ids.len() - i,
    {
        copy.push(ids[i]);
        assert(copy@ =~= ids@.take(i as int + 1));
        i = i + 1;
    }
    assert(copy@ =~= ids@);
    copy
}

/// Both nodes in ascending order.
pub open spec fn both_nodes(state: MigrationParityCrudState) -> Seq<u64> {
    sort_ranked(seq![state.left_node_id, state.right_node_id])
}

/// All edges in ascending order.
pub open spec fn all_edges(state: MigrationParityCrudState) -> Seq<u64> {
    sort_ranked(state.parallel_edge_ids@.push(state.self_edge_id))
}

/// The answers that the first batch has to lead to.
pub open spec fn corpus_after_create(state: MigrationParityCrudState) -> CorpusView {
    CorpusView {
        exact_node_ids: both_nodes(state),
        outgoing_node_ids: both_nodes(state),
        incoming_node_ids: seq![state.left_node_id],
        both_node_ids: both_nodes(state),
        outgoing_edge_ids: all_edges(state),
        equality_node_ids: both_nodes(state),
        updated_equality_node_ids: Seq::empty(),
        range_node_ids: both_nodes(state),
        equality_edge_ids: all_edges(state),
        updated_equality_edge_ids: Seq::empty(),
        range_edge_ids: all_edges(state),
        text_initial_node_ids: both_nodes(state),
        text_updated_node_ids: Seq::empty(),
        vector_updated_node_ids: both_nodes(state),
    }
}

/// The answers that the second batch has to lead to.
pub open spec fn corpus_after_update(state: MigrationParityCrudState) -> CorpusView {
    CorpusView {
        exact_node_ids: both_nodes(state),
        outgoing_node_ids: both_nodes(state),
        incoming_node_ids: seq![state.left_node_id],
        both_node_ids: both_nodes(state),
        outgoing_edge_ids: all_edges(state),
        equality_node_ids: seq![state.right_node_id],
        updated_equality_node_ids: seq![state.left_node_id],
        range_node_ids: seq![state.left_node_id, state.right_node_id],
        equality_edge_ids: sort_ranked(state.parallel_edge_ids@),
        updated_equality_edge_ids: seq![state.self_edge_id],
        range_edge_ids: all_edges(state),
        text_initial_node_ids: seq![state.right_node_id],
        text_updated_node_ids: seq![state.left_node_id],
        vector_updated_node_ids: seq![state.left_node_id, state.right_node_id],
    }
}

/// The answers that the third batch has to lead to, but for the vector search.
pub open spec fn corpus_after_delete(
    state: MigrationParityCrudState,
    vector_updated_node_ids: Seq<u64>,
) -> CorpusView {
    CorpusView {
        exact_node_ids: seq![state.left_node_id],
        outgoing_node_ids: seq![state.left_node_id],
        incoming_node_ids: Seq::empty(),
        both_node_ids: seq![state.left_node_id],
        outgoing_edge_ids: seq![state.self_edge_id],
        equality_node_ids: Seq::empty(),
        updated_equality_node_ids: seq![state.left_node_id],
        range_node_ids: seq![state.left_node_id],
        equality_edge_ids: Seq::empty(),
        updated_equality_edge_ids: seq![state.self_edge_id],
        range_edge_ids: seq![state.self_edge_id],
        text_initial_node_ids: Seq::empty(),
        text_updated_node_ids: seq![state.left_node_id],
        vector_updated_node_ids,
    }
}

/// Whether the answers after the third batch are acceptable: the vector search
/// finds the updated node and not the deleted one.
pub open spec fn accepts_delete(state: MigrationParityCrudState, corpus: CorpusView) -> bool {
    &&& corpus == corpus_after_delete(state, corpus.vector_updated_node_ids)
    &&& corpus.vector_updated_node_ids.contains(state.left_node_id)
    &&& !corpus.vector_updated_node_ids.contains(state.right_node_id)
}

fn expected_after_create(state: &MigrationParityCrudState) -> (corpus: MigrationParityQueryCorpus)
    ensures
        corpus@ == corpus_after_create(*state),
{
    let mut nodes: Vec<u64> = vec![state.left_node_id, state.right_node_id];
    assert(nodes@ =~= seq![state.left_node_id, state.right_node_id]);
    sort_values(&mut nodes);
    let mut edges = copy_ids(&state.parallel_edge_ids);
    edges.push(state.self_edge_id);
    sort_values(&mut edges);
    let incoming: Vec<u64> = vec![state.left_node_id];
    assert(incoming@ =~= seq![state.left_node_id]);
    MigrationParityQueryCorpus {
        exact_node_ids: copy_ids(&nodes),
        outgoing_node_ids: copy_ids(&nodes),
        incoming_node_ids: incoming,
        both_node_ids: copy_ids(&nodes),
        outgoing_edge_ids: copy_ids(&edges),
        equality_node_ids: copy_ids(&nodes),
        updated_equality_node_ids: Vec::new(),
        range_node_ids: copy_ids(&nodes),
        equality_edge_ids: copy_ids(&edges),
        updated_equality_edge_ids: Vec::new(),
        range_edge_ids: edges,
        text_initial_node_ids: copy_ids(&nodes),
        text_updated_node_ids: Vec::new(),
        vector_updated_node_ids: nodes,
    }
}

fn one_id(id: u64) -> (ids: Vec<u64>)
    ensures
        ids@ == seq![id],
{
    let ids: Vec<u64> = vec![id];
    assert(ids@ =~= seq![id]);
    ids
}

fn two_ids(first: u64, second: u64) -> (ids: Vec<u64>)
    ensures
        ids@ == seq![first, second],
{
    let ids: Vec<u64> = vec![first, second];
    assert(ids@ =~= seq![first, second]);
    ids
}

fn expected_after_update(state: &MigrationParityCrudState) -> (corpus: MigrationParityQueryCorpus)
    ensures
        corpus@ == corpus_after_update(*state),
{
    let mut nodes = two_ids(state.left_node_id, state.right_node_id);
    sort_values(&mut nodes);
    let mut edges = copy_ids(&state.parallel_edge_ids);
    edges.push(state.self_edge_id);
    sort_values(&mut edges);
    let mut parallel = copy_ids(&state.parallel_edge_ids);
    sort_values(&mut parallel);
    MigrationParityQueryCorpus {
        exact_node_ids: copy_ids(&nodes),
        outgoing_node_ids: copy_ids(&nodes),
        incoming_node_ids: one_id(state.left_node_id),
        both_node_ids: nodes,
        outgoing_edge_ids: copy_ids(&edges),
        equality_node_ids: one_id(state.right_node_id),
        updated_equality_node_ids: one_id(state.left_node_id),
        range_node_ids: two_ids(state.left_node_id, state.right_node_id),
        equality_edge_ids: parallel,
        updated_equality_edge_ids: one_id(state.self_edge_id),
        range_edge_ids: edges,
        text_initial_node_ids: one_id(state.right_node_id),
        text_updated_node_ids: one_id(state.left_node_id),
        vector_updated_node_ids: two_ids(state.left_node_id, state.right_node_id),
    }
}

fn expected_after_delete(
    state: &MigrationParityCrudState,
    vector_updated_node_ids: &Vec<u64>,
) -> (corpus: MigrationParityQueryCorpus)
    ensures
        corpus@ == corpus_after_delete(*state, vector_updated_node_ids@),
{
    MigrationParityQueryCorpus {
        exact_node_ids: one_id(state.left_node_id),
        outgoing_node_ids: one_id(state.left_node_id),
        incoming_node_ids: Vec::new(),
        both_node_ids: one_id(state.left_node_id),
        outgoing_edge_ids: one_id(state.self_edge_id),
        equality_node_ids: Vec::new(),
        updated_equality_node_ids: one_id(state.left_node_id),
        range_node_ids: one_id(state.left_node_id),
        equality_edge_ids: Vec::new(),
        updated_equality_edge_ids: one_id(state.self_edge_id),
        range_edge_ids: one_id(state.self_edge_id),
        text_initial_node_ids: Vec::new(),
        text_updated_node_ids: one_id(state.left_node_id),
        vector_updated_node_ids: copy_ids(vector_updated_node_ids),
    }
}

fn corpus_differs(
    head: &str,
    expected: &MigrationParityQueryCorpus,
    middle: &str,
    actual: &MigrationParityQueryCorpus,
) -> (error: HelixDbError)
    ensures
        error@ == HelixDbErrorView::InvariantViolation(
            head@ + corpus_text(expected@) + middle@ + corpus_text(actual@),
        ),
{
    let mut message = head.to_owned();
    let expected_text = expected.to_text();
    message.append(expected_text.as_str());
    message.append(middle);
    let actual_text = actual.to_text();
    message.append(actual_text.as_str());
    invariant_violation(message.as_str())
}

/// What is wrong with the answers after the batches, if anything is: the first
/// batch whose answers differ is reported.
pub open spec fn rehearsal_fault(
    state: MigrationParityCrudState,
    after_create: CorpusView,
    after_update: CorpusView,
    after_delete: CorpusView,
) -> Option<HelixDbErrorView> {
    if after_create != corpus_after_create(state) {
        Some(
            HelixDbErrorView::InvariantViolation(
                "CRUD query corpus after create differs: expected "@ + corpus_text(
                    corpus_after_create(state),
                ) + ", got "@ + corpus_text(after_create),
            ),
        )
    } else if after_update != corpus_after_update(state) {
        Some(
            HelixDbErrorView::InvariantViolation(
                "CRUD query corpus after update differs: expected "@ + corpus_text(
                    corpus_after_update(state),
                ) + ", got "@ + corpus_text(after_update),
            ),
        )
    } else if !accepts_delete(state, after_delete) {
        Some(
            HelixDbErrorView::InvariantViolation(
                "CRUD query corpus after delete differs: expected non-vector fields "@
                    + corpus_text(
                    corpus_after_delete(state, after_delete.vector_updated_node_ids),
                )
                    + " with the updated node present and deleted node absent from vector results, got "@
                    + corpus_text(after_delete),
            ),
        )
    } else {
        None
    }
}

/// Holds the answers after each batch against what they have to be.
pub fn validate_crud_rehearsal(
    state: &MigrationParityCrudState,
    after_create: &MigrationParityQueryCorpus,
    after_update: &MigrationParityQueryCorpus,
    after_delete: &MigrationParityQueryCorpus,
) -> (checked: Result<(), HelixDbError>)
    ensures
        match checked {
            Ok(_) => rehearsal_fault(
                *state,
                after_create@,
                after_update@,
                after_delete@,
            ) is None,
            Err(error) => rehearsal_fault(*state, after_create@, after_update@, after_delete@)
                == Some(error@),
        },
{
    let create = expected_after_create(state);
    if !after_create.same(&create) {
        return Err(
            corpus_differs(
                "CRUD query corpus after create differs: expected ",
                &create,
                ", got ",
                after_create,
            ),
        );
    }
    let update = expected_after_update(state);
    if !after_update.same(&update) {
        return Err(
            corpus_differs(
                "CRUD query corpus after update differs: expected ",
                &update,
                ", got ",
                after_update,
            ),
        );
    }
    let delete = expected_after_delete(state, &after_delete.vector_updated_node_ids);
    if !after_delete.same(&delete) || !contains_id(
        &after_delete.vector_updated_node_ids,
        state.left_node_id,
    ) || contains_id(&after_delete.vector_updated_node_ids, state.right_node_id) {
        return Err(
            corpus_differs(
                "CRUD query corpus after delete differs: expected non-vector fields ",
                &delete,
                " with the updated node present and deleted node absent from vector results, got ",
                after_delete,
            ),
        );
    }
    Ok(())
}

/// What the rehearsal has shown.
#[derive(Debug, Clone, PartialEq, Eq)]
pub struct MigrationParityCrudEvidence {
    pub state: MigrationParityCrudState,
    pub after_create: MigrationParityQueryCorpus,
    pub after_update: MigrationParityQueryCorpus,
    pub after_delete: MigrationParityQueryCorpus,
}

/// The evidence of a rehearsal whose answers are what they have to be.
pub fn crud_evidence(
    state: MigrationParityCrudState,
    after_create: MigrationParityQueryCorpus,
    after_update: MigrationParityQueryCorpus,
    after_delete: MigrationParityQueryCorpus,
) -> (evidence: Result<MigrationParityCrudEvidence, HelixDbError>)
    ensures
        match evidence {
            Ok(evidence) => {
                &&& rehearsal_fault(state, after_create@, after_update@, after_delete@) is None
                &&& evidence == (MigrationParityCrudEvidence {
                    state,
                    after_create,
                    after_update,
                    after_delete,
                })
            },
            Err(error) => rehearsal_fault(state, after_create@, after_update@, after_delete@)
                == Some(error@),
        },
{
    match validate_crud_rehearsal(&state, &after_create, &after_update, &after_delete) {
        Ok(_) => Ok(
            MigrationParityCrudEvidence { state, after_create, after_update, after_delete },
        ),
        Err(error) => Err(error),
    }
}

/// The list holds the members, a repeated one as often, in ascending order.
pub open spec fn lists_members(ids: Seq<u64>, members: Seq<u64>) -> bool {
    &&& ids.to_multiset() == members.to_multiset()
    &&& forall|i: int, j: int|
        0 <= i < j < ids.len() ==> (#[trigger] ids[i]) <= (#[trigger] ids[j])
}

/// The list that holds the members in ascending order is the sorted one.
proof fn lemma_lists_members(ids: Seq<u64>, members: Seq<u64>)
    ensures
        lists_members(ids, members) <==> ids == sort_ranked(members),
{
    let sorted = sort_ranked(members);
    law_sorting_orders_all_elements(members);
    assert forall|i: int, j: int| 0 <= i < j < sorted.len() implies (#[trigger] sorted[i]) <= (
    #[trigger] sorted[j]) by {
        assert(sorted[i].ranked(&sorted[j]) != Rank::Greater);
    }
    if lists_members(ids, members) {
        let leq = |a: u64, b: u64| a <= b;
        assert(vstd::relations::sorted_by(ids, leq));
        assert(vstd::relations::sorted_by(sorted, leq));
        assert(vstd::relations::total_ordering(leq));
        vstd::seq_lib::lemma_sorted_unique(ids, sorted, leq);
    }
}

/// An answer is accepted if and only if it is an array of numbers, and gives
/// them all in ascending order.
pub proof fn law_answers_are_listed_in_order(
    answer: CrudAnswer,
    name: &str,
    ids: Result<Vec<u64>, HelixDbError>,
)
    requires
        call_ensures(query_corpus_ids, (&answer, name), ids),
    ensures
        ids is Ok <==> answer is Some && forall|i: int|
            0 <= i < answer->Some_0@.len() ==> (#[trigger] answer->Some_0@[i]) is Some,
        ids matches Ok(ids) ==> lists_members(
            ids@,
            answer->Some_0@.map_values(|value: Option<u64>| value->Some_0),
        ),
{
    if let Some(values) = answer {
        lemma_answer_numbers(values@);
        if let Ok(ids) = ids {
            lemma_lists_members(ids@, values@.map_values(|value: Option<u64>| value->Some_0));
        }
    }
}

proof fn lemma_answer_numbers(values: Seq<Option<u64>>)
    ensures
        answer_numbers(values) is Some <==> forall|i: int|
            0 <= i < values.len() ==> (#[trigger] values[i]) is Some,
        answer_numbers(values) is Some ==> answer_numbers(values)->Some_0 == values.map_values(
            |value: Option<u64>| value->Some_0,
        ),
    decreases values.len(),
{
    let number = |value: Option<u64>| value->Some_0;
    if values.len() == 0 {
        assert(values.map_values(number) =~= Seq::<u64>::empty());
    } else {
        let front = values.drop_last();
        lemma_answer_numbers(front);
        assert(forall|i: int| 0 <= i < front.len() ==> (#[trigger] front[i]) == values[i]);
        assert(values[values.len() - 1] == values.last());
        if answer_numbers(values) is Some {
            assert(values.map_values(number) =~= front.map_values(number).push(
                number(values.last()),
            ));
            assert forall|i: int| 0 <= i < values.len() implies (#[trigger] values[i]) is Some by {
                if i < front.len() {
                    assert(front[i] is Some);
                }
            }
        } else if forall|i: int| 0 <= i < values.len() ==> (#[trigger] values[i]) is Some {
            assert forall|i: int| 0 <= i < front.len() implies (#[trigger] front[i]) is Some by {
                assert(values[i] is Some);
            }
        }
    }
}

/// The first batch has created one node on either side and three edges; the
/// edges are taken in the order in which they were returned.
pub proof fn law_created_elements_are_taken(
    left_ids: Vec<u64>,
    right_ids: Vec<u64>,
    edge_ids: Vec<u64>,
    state: Result<MigrationParityCrudState, HelixDbError>,
)
    requires
        call_ensures(created_crud_state, (&left_ids, &right_ids, &edge_ids), state),
    ensures
        state is Ok <==> left_ids@.len() == 1 && right_ids@.len() == 1 && edge_ids@.len() == 3,
        state matches Ok(state) ==> {
            &&& state.left_node_id == left_ids@[0]
            &&& state.right_node_id == right_ids@[0]
            &&& state.parallel_edge_ids@.len() == 2
            &&& state.parallel_edge_ids@[0] == edge_ids@[0]
            &&& state.parallel_edge_ids@[1] == edge_ids@[1]
            &&& state.self_edge_id == edge_ids@[2]
        },
{
    if let Ok(state) = state {
        assert(edge_ids@ == state.parallel_edge_ids@.push(state.self_edge_id));
        assert(edge_ids@[0] == state.parallel_edge_ids@[0]);
        assert(edge_ids@[1] == state.parallel_edge_ids@[1]);
    }
}

/// A batch of answers is a corpus if and only if every answer is an array of
/// numbers; each list holds the answer to the question at its place.
pub proof fn law_corpora_hold_their_answers(
    answers: Vec<CrudAnswer>,
    corpus: Result<MigrationParityQueryCorpus, HelixDbError>,
)
    requires
        answers@.len() == 14,
        call_ensures(crud_query_corpus, (&answers,), corpus),
    ensures
        corpus matches Ok(corpus) ==> {
            &&& gives(answers@[0], corpus.exact_node_ids@)
            &&& gives(answers@[1], corpus.outgoing_node_ids@)
            &&& gives(answers@[2], corpus.incoming_node_ids@)
            &&& gives(answers@[3], corpus.both_node_ids@)
            &&& gives(answers@[4], corpus.outgoing_edge_ids@)
            &&& gives(answers@[5], corpus.equality_node_ids@)
            &&& gives(answers@[6], corpus.updated_equality_node_ids@)
            &&& gives(answers@[7], corpus.range_node_ids@)
            &&& gives(answers@[8], corpus.equality_edge_ids@)
            &&& gives(answers@[9], corpus.updated_equality_edge_ids@)
            &&& gives(answers@[10], corpus.range_edge_ids@)
            &&& gives(answers@[11], corpus.text_initial_node_ids@)
            &&& gives(answers@[12], corpus.text_updated_node_ids@)
            &&& gives(answers@[13], corpus.vector_updated_node_ids@)
        },
        corpus is Err ==> exists|at: int|
            0 <= at < 14 && forall|ids: Seq<u64>| !gives(#[trigger] answers@[at], ids),
{
    if let Ok(corpus) = corpus {
        assert forall|i: int| 0 <= i < 14 implies gives(answers@[i], #[trigger] corpus@.answer(i)) by {
            lemma_gives(answers@[i], answer_name(i), corpus@.answer(i));
        }
        assert(gives(answers@[0], corpus@.answer(0)));
        assert(gives(answers@[1], corpus@.answer(1)));
        assert(gives(answers@[2], corpus@.answer(2)));
        assert(gives(answers@[3], corpus@.answer(3)));
        assert(gives(answers@[4], corpus@.answer(4)));
        assert(gives(answers@[5], corpus@.answer(5)));
        assert(gives(answers@[6], corpus@.answer(6)));
        assert(gives(answers@[7], corpus@.answer(7)));
        assert(gives(answers@[8], corpus@.answer(8)));
        assert(gives(answers@[9], corpus@.answer(9)));
        assert(gives(answers@[10], corpus@.answer(10)));
        assert(gives(answers@[11], corpus@.answer(11)));
        assert(gives(answers@[12], corpus@.answer(12)));
        assert(gives(answers@[13], corpus@.answer(13)));
    } else {
        let i = choose|i: int|
            0 <= i < 14 && #[trigger] answer_ids(answers@[i], answer_name(i)) is Err;
        assert forall|ids: Seq<u64>| !gives(#[trigger] answers@[i], ids) by {
            lemma_gives(answers@[i], answer_name(i), ids);
        }
    }
}

/// The answer is an array of numbers, and the list holds them in ascending order.
pub open spec fn gives(answer: CrudAnswer, ids: Seq<u64>) -> bool {
    &&& answer is Some
    &&& forall|i: int| 0 <= i < answer->Some_0@.len() ==> (#[trigger] answer->Some_0@[i]) is Some
    &&& lists_members(ids, answer->Some_0@.map_values(|value: Option<u64>| value->Some_0))
}

proof fn lemma_gives(answer: CrudAnswer, name: Seq<char>, ids: Seq<u64>)
    ensures
        gives(answer, ids) <==> answer_ids(answer, name) == Ok::<_, HelixDbErrorView>(ids),
{
    if let Some(values) = answer {
        lemma_answer_numbers(values@);
        lemma_lists_members(ids, values@.map_values(|value: Option<u64>| value->Some_0));
    }
}

/// What has to be found once both nodes and all three edges exist, and nothing
/// has been updated.
pub open spec fn finds_the_created(
    state: MigrationParityCrudState,
    corpus: MigrationParityQueryCorpus,
) -> bool {
    let nodes = seq![state.left_node_id, state.right_node_id];
    let edges = state.parallel_edge_ids@.push(state.self_edge_id);
    &&& lists_members(corpus.exact_node_ids@, nodes)
    &&& lists_members(corpus.outgoing_node_ids@, nodes)
    &&& lists_members(corpus.incoming_node_ids@, seq![state.left_node_id])
    &&& lists_members(corpus.both_node_ids@, nodes)
    &&& lists_members(corpus.outgoing_edge_ids@, edges)
    &&& lists_members(corpus.equality_node_ids@, nodes)
    &&& corpus.updated_equality_node_ids@.len() == 0
    &&& lists_members(corpus.range_node_ids@, nodes)
    &&& lists_members(corpus.equality_edge_ids@, edges)
    &&& corpus.updated_equality_edge_ids@.len() == 0
    &&& lists_members(corpus.range_edge_ids@, edges)
    &&& lists_members(corpus.text_initial_node_ids@, nodes)
    &&& corpus.text_updated_node_ids@.len() == 0
    &&& lists_members(corpus.vector_updated_node_ids@, nodes)
}

/// What has to be found once the left node and the self loop are updated: both
/// under their new values and no longer under the old ones, and the graph as it
/// was.
pub open spec fn finds_the_updated(
    state: MigrationParityCrudState,
    corpus: MigrationParityQueryCorpus,
) -> bool {
    let nodes = seq![state.left_node_id, state.right_node_id];
    let edges = state.parallel_edge_ids@.push(state.self_edge_id);
    &&& lists_members(corpus.exact_node_ids@, nodes)
    &&& lists_members(corpus.outgoing_node_ids@, nodes)
    &&& lists_members(corpus.incoming_node_ids@, seq![state.left_node_id])
    &&& lists_members(corpus.both_node_ids@, nodes)
    &&& lists_members(corpus.outgoing_edge_ids@, edges)
    &&& lists_members(corpus.equality_node_ids@, seq![state.right_node_id])
    &&& lists_members(corpus.updated_equality_node_ids@, seq![state.left_node_id])
    &&& corpus.range_node_ids@ == nodes
    &&& lists_members(corpus.equality_edge_ids@, state.parallel_edge_ids@)
    &&& lists_members(corpus.updated_equality_edge_ids@, seq![state.self_edge_id])
    &&& lists_members(corpus.range_edge_ids@, edges)
    &&& lists_members(corpus.text_initial_node_ids@, seq![state.right_node_id])
    &&& lists_members(corpus.text_updated_node_ids@, seq![state.left_node_id])
    &&& corpus.vector_updated_node_ids@ == nodes
}

/// What has to be found once the right node is gone with its edges: the left
/// node with its self loop, and nothing of the right one.
pub open spec fn finds_the_remaining(
    state: MigrationParityCrudState,
    corpus: MigrationParityQueryCorpus,
) -> bool {
    let left = seq![state.left_node_id];
    let edge = seq![state.self_edge_id];
    &&& lists_members(corpus.exact_node_ids@, left)
    &&& lists_members(corpus.outgoing_node_ids@, left)
    &&& corpus.incoming_node_ids@.len() == 0
    &&& lists_members(corpus.both_node_ids@, left)
    &&& lists_members(corpus.outgoing_edge_ids@, edge)
    &&& corpus.equality_node_ids@.len() == 0
    &&& lists_members(corpus.updated_equality_node_ids@, left)
    &&& lists_members(corpus.range_node_ids@, left)
    &&& corpus.equality_edge_ids@.len() == 0
    &&& lists_members(corpus.updated_equality_edge_ids@, edge)
    &&& lists_members(corpus.range_edge_ids@, edge)
    &&& corpus.text_initial_node_ids@.len() == 0
    &&& lists_members(corpus.text_updated_node_ids@, left)
    &&& corpus.vector_updated_node_ids@.contains(state.left_node_id)
    &&& !corpus.vector_updated_node_ids@.contains(state.right_node_id)
}

/// A rehearsal passes if and only if after every batch exactly that is found
/// which the batch has left; the evidence of one that passes holds its answers.
pub proof fn law_rehearsals_find_what_was_written(
    state: MigrationParityCrudState,
    after_create: MigrationParityQueryCorpus,
    after_update: MigrationParityQueryCorpus,
    after_delete: MigrationParityQueryCorpus,
    checked: Result<(), HelixDbError>,
    evidence: Result<MigrationParityCrudEvidence, HelixDbError>,
)
    requires
        call_ensures(
            validate_crud_rehearsal,
            (&state, &after_create, &after_update, &after_delete),
            checked,
        ),
        call_ensures(crud_evidence, (state, after_create, after_update, after_delete), evidence),
    ensures
        checked is Ok <==> finds_the_created(state, after_create) && finds_the_updated(
            state,
            after_update,
        ) && finds_the_remaining(state, after_delete),
        evidence is Ok <==> checked is Ok,
        evidence matches Ok(evidence) ==> {
            &&& evidence.state == state
            &&& evidence.after_create == after_create
            &&& evidence.after_update == after_update
            &&& evidence.after_delete == after_delete
        },
{
    lemma_finds_the_created(state, after_create);
    lemma_finds_the_updated(state, after_update);
    lemma_finds_the_remaining(state, after_delete);
}

proof fn lemma_lists_one(ids: Seq<u64>, id: u64)
    ensures
        lists_members(ids, seq![id]) <==> ids == seq![id],
{
    lemma_lists_members(ids, seq![id]);
    law_sorting_orders_all_elements(seq![id]);
    lemma_lists_members(seq![id], seq![id]);
}

proof fn lemma_finds_the_created(
    state: MigrationParityCrudState,
    corpus: MigrationParityQueryCorpus,
)
    ensures
        finds_the_created(state, corpus) <==> corpus@ == corpus_after_create(state),
{
    let nodes = seq![state.left_node_id, state.right_node_id];
    let edges = state.parallel_edge_ids@.push(state.self_edge_id);
    lemma_lists_members(corpus.exact_node_ids@, nodes);
    lemma_lists_members(corpus.outgoing_node_ids@, nodes);
    lemma_lists_one(corpus.incoming_node_ids@, state.left_node_id);
    lemma_lists_members(corpus.both_node_ids@, nodes);
    lemma_lists_members(corpus.outgoing_edge_ids@, edges);
    lemma_lists_members(corpus.equality_node_ids@, nodes);
    lemma_lists_members(corpus.range_node_ids@, nodes);
    lemma_lists_members(corpus.equality_edge_ids@, edges);
    lemma_lists_members(corpus.range_edge_ids@, edges);
    lemma_lists_members(corpus.text_initial_node_ids@, nodes);
    lemma_lists_members(corpus.vector_updated_node_ids@, nodes);
    if finds_the_created(state, corpus) {
        assert(corpus.updated_equality_node_ids@ =~= Seq::empty());
        assert(corpus.updated_equality_edge_ids@ =~= Seq::empty());
        assert(corpus.text_updated_node_ids@ =~= Seq::empty());
        assert(corpus@ =~= corpus_after_create(state));
    }
}

proof fn lemma_finds_the_updated(
    state: MigrationParityCrudState,
    corpus: MigrationParityQueryCorpus,
)
    ensures
        finds_the_updated(state, corpus) <==> corpus@ == corpus_after_update(state),
{
    let nodes = seq![state.left_node_id, state.right_node_id];
    let edges = state.parallel_edge_ids@.push(state.self_edge_id);
    lemma_lists_members(corpus.exact_node_ids@, nodes);
    lemma_lists_members(corpus.outgoing_node_ids@, nodes);
    lemma_lists_one(corpus.incoming_node_ids@, state.left_node_id);
    lemma_lists_members(corpus.both_node_ids@, nodes);
    lemma_lists_members(corpus.outgoing_edge_ids@, edges);
    lemma_lists_one(corpus.equality_node_ids@, state.right_node_id);
    lemma_lists_one(corpus.updated_equality_node_ids@, state.left_node_id);
    lemma_lists_members(corpus.equality_edge_ids@, state.parallel_edge_ids@);
    lemma_lists_one(corpus.updated_equality_edge_ids@, state.self_edge_id);
    lemma_lists_members(corpus.range_edge_ids@, edges);
    lemma_lists_one(corpus.text_initial_node_ids@, state.right_node_id);
    lemma_lists_one(corpus.text_updated_node_ids@, state.left_node_id);
    if finds_the_updated(state, corpus) {
        assert(corpus@ =~= corpus_after_update(state));
    }
}

proof fn lemma_finds_the_remaining(
    state: MigrationParityCrudState,
    corpus: MigrationParityQueryCorpus,
)
    ensures
        finds_the_remaining(state, corpus) <==> accepts_delete(state, corpus@),
{
    lemma_lists_one(corpus.exact_node_ids@, state.left_node_id);
    lemma_lists_one(corpus.outgoing_node_ids@, state.left_node_id);
    lemma_lists_one(corpus.both_node_ids@, state.left_node_id);
    lemma_lists_one(corpus.outgoing_edge_ids@, state.self_edge_id);
    lemma_lists_one(corpus.updated_equality_node_ids@, state.left_node_id);
    lemma_lists_one(corpus.range_node_ids@, state.left_node_id);
    lemma_lists_one(corpus.updated_equality_edge_ids@, state.self_edge_id);
    lemma_lists_one(corpus.range_edge_ids@, state.self_edge_id);
    lemma_lists_one(corpus.text_updated_node_ids@, state.left_node_id);
    if finds_the_remaining(state, corpus) {
        assert(corpus.incoming_node_ids@ =~= Seq::empty());
        assert(corpus.equality_node_ids@ =~= Seq::empty());
        assert(corpus.equality_edge_ids@ =~= Seq::empty());
        assert(corpus.text_initial_node_ids@ =~= Seq::empty());
        assert(corpus@ =~= corpus_after_delete(state, corpus.vector_updated_node_ids@));
    }
}

/// The questions are about the elements that were created, and ask for the
/// values that the batches write: the old and the new ones apart by equality,
/// and both within the ranges.
pub proof fn law_questions_ask_for_what_is_written(
    state: MigrationParityCrudState,
    created: Vec<(&'static str, CrudWrite)>,
    updated: Vec<(&'static str, CrudWrite)>,
    questions: Vec<(&'static str, CrudRead)>,
)
    requires
        call_ensures(crud_create_batch, (), created),
        call_ensures(crud_update_batch, (&state,), updated),
        call_ensures(crud_read_batch, (&state,), questions),
    ensures
        created@.len() == 8 && updated@.len() == 6 && questions@.len() == 14,
        ({
            let read = |at: int| questions@[at].1;
            &&& read(0) == (CrudRead::Nodes {
                first: state.left_node_id,
                second: state.right_node_id,
            })
            &&& read(1) matches CrudRead::OutgoingNodes { node, label } && node
                == state.left_node_id && label@ == "FOLLOWS"@
            &&& read(2) matches CrudRead::IncomingNodes { node, label } && node
                == state.right_node_id && label@ == "FOLLOWS"@
            &&& read(3) matches CrudRead::NeighborNodes { node, label } && node
                == state.left_node_id && label@ == "FOLLOWS"@
            &&& read(4) matches CrudRead::OutgoingEdges { node, label } && node
                == state.left_node_id && label@ == "FOLLOWS"@
        }),
        forall|at: int|
            at == 0 || at == 2 ==> {
                let node = #[trigger] created@[at].1;
                let equal = questions@[5].1;
                let between = questions@[7].1;
                &&& node is AddNode && equal is NodesEqual && between is NodesBetween
                &&& node->AddNode_label@ == equal->NodesEqual_label@
                &&& node->AddNode_label@ == between->NodesBetween_label@
                &&& equal->NodesEqual_property@ == "tier"@
                &&& node->tier == equal->NodesEqual_value
                &&& between->NodesBetween_property@ == "rank"@
                &&& node->rank is Number
                &&& between->NodesBetween_low <= node->rank->Number_0
                    <= between->NodesBetween_high
            },
        forall|at: int|
            4 <= at < 7 ==> {
                let edge = #[trigger] created@[at].1;
                let between = questions@[10].1;
                &&& edge is AddEdge && between is EdgesBetween
                &&& edge->AddEdge_label@ == "FOLLOWS"@
                &&& edge->from matches CrudNode::Bound(name) && name@ == "left"@
                &&& edge->to matches CrudNode::Bound(name) && name@ == if at < 6 {
                    "right"@
                } else {
                    "left"@
                }
                &&& between->EdgesBetween_property@ == "since"@
                &&& edge->since is Number
                &&& between->EdgesBetween_low <= edge->since->Number_0 <= between->EdgesBetween_high
            },
        ({
            let any = questions@[8].1;
            &&& any is EdgesEqualAny
            &&& any->EdgesEqualAny_first == created@[4].1->kind
            &&& any->EdgesEqualAny_second == created@[5].1->kind
            &&& any->third == created@[6].1->kind
        }),
        forall|at: int|
            0 <= at < 4 ==> {
                let write = #[trigger] updated@[at].1;
                &&& write is SetNodeProperty
                &&& write->SetNodeProperty_node == CrudNode::Id(state.left_node_id)
            },
        forall|at: int|
            4 <= at < 6 ==> {
                let write = #[trigger] updated@[at].1;
                &&& write is SetEdgeProperty
                &&& write->SetEdgeProperty_edge == state.self_edge_id
            },
        questions@[6].1->NodesEqual_value == updated@[0].1->SetNodeProperty_value,
        questions@[6].1->NodesEqual_property@ == updated@[0].1->SetNodeProperty_property@,
        questions@[7].1->NodesBetween_property@ == updated@[1].1->SetNodeProperty_property@,
        questions@[7].1->NodesBetween_low <= updated@[1].1->SetNodeProperty_value->Number_0
            <= questions@[7].1->NodesBetween_high,
        questions@[9].1->EdgesEqual_value == updated@[4].1->SetEdgeProperty_value,
        questions@[9].1->EdgesEqual_property@ == updated@[4].1->SetEdgeProperty_property@,
        questions@[10].1->EdgesBetween_low <= updated@[5].1->SetEdgeProperty_value->Number_0
            <= questions@[10].1->EdgesBetween_high,
        questions@[13].1->VectorSearch_query == updated@[3].1->SetNodeProperty_value,
        questions@[13].1->VectorSearch_property@ == updated@[3].1->SetNodeProperty_property@,
{
}

/// The third batch drops the first of the parallel edges and then the right node.
pub proof fn law_the_right_node_is_dropped(
    state: MigrationParityCrudState,
    batch: Vec<(&'static str, CrudWrite)>,
)
    requires
        state.parallel_edge_ids@.len() > 0,
        call_ensures(crud_delete_batch, (&state,), batch),
    ensures
        batch@.len() == 2,
        batch@[0].1 matches CrudWrite::DropEdge { edge } && edge == state.parallel_edge_ids@[0],
        batch@[1].1 matches CrudWrite::DropNode { node: CrudNode::Id(id) } && id
            == state.right_node_id,
{
}

/// Corpora are the same if and only if all their answers are.
pub proof fn law_corpora_are_the_same_in_everything(
    a: MigrationParityQueryCorpus,
    b: MigrationParityQueryCorpus,
    same: bool,
)
    requires
        call_ensures(MigrationParityQueryCorpus::same, (&a, &b), same),
    ensures
        same <==> {
            &&& a.exact_node_ids@ == b.exact_node_ids@
            &&& a.outgoing_node_ids@ == b.outgoing_node_ids@
            &&& a.incoming_node_ids@ == b.incoming_node_ids@
            &&& a.both_node_ids@ == b.both_node_ids@
            &&& a.outgoing_edge_ids@ == b.outgoing_edge_ids@
            &&& a.equality_node_ids@ == b.equality_node_ids@
            &&& a.updated_equality_node_ids@ == b.updated_equality_node_ids@
            &&& a.range_node_ids@ == b.range_node_ids@
            &&& a.equality_edge_ids@ == b.equality_edge_ids@
            &&& a.updated_equality_edge_ids@ == b.updated_equality_edge_ids@
            &&& a.range_edge_ids@ == b.range_edge_ids@
            &&& a.text_initial_node_ids@ == b.text_initial_node_ids@
            &&& a.text_updated_node_ids@ == b.text_updated_node_ids@
            &&& a.vector_updated_node_ids@ == b.vector_updated_node_ids@
        },
{
}

/// A list in brackets, its numbers separated by commas.
pub open spec fn shown_list(ids: Seq<u64>) -> Seq<char> {
    if ids.len() == 0 {
        "["@ + "]"@
    } else {
        "["@ + (decimal(ids[0] as nat) + ids.skip(1).map_values(
            |id: u64| ", "@ + decimal(id as nat),
        ).flatten()) + "]"@
    }
}

proof fn lemma_shown_list(ids: Seq<u64>)
    ensures
        ids_text(ids) == shown_list(ids),
{
    if ids.len() == 0 {
        assert(ids_text(ids) =~= "["@ + "]"@);
    } else {
        lemma_inner_list(ids);
    }
}

proof fn lemma_inner_list(ids: Seq<u64>)
    requires
        ids.len() > 0,
    ensures
        ids_inner_text(ids) == decimal(ids[0] as nat) + ids.skip(1).map_values(
            |id: u64| ", "@ + decimal(id as nat),
        ).flatten(),
    decreases ids.len(),
{
    let shown = |id: u64| ", "@ + decimal(id as nat);
    if ids.len() == 1 {
        assert(ids.skip(1).map_values(shown) =~= Seq::<Seq<char>>::empty());
        assert(ids_inner_text(ids) =~= decimal(ids[0] as nat) + Seq::<char>::empty());
    } else {
        let front = ids.drop_last();
        lemma_inner_list(front);
        assert(ids.skip(1).map_values(shown) =~= front.skip(1).map_values(shown).push(
            shown(ids.last()),
        ));
        front.skip(1).map_values(shown).lemma_flatten_push(shown(ids.last()));
        assert(ids_inner_text(ids) =~= decimal(ids[0] as nat) + (front.skip(1).map_values(
            shown,
        ).flatten() + shown(ids.last())));
    }
}

/// A corpus is shown with all its answers, each behind its name, in the order of the
/// questions.
pub proof fn law_corpora_are_shown_in_order(corpus: MigrationParityQueryCorpus, text: String)
    requires
        call_ensures(MigrationParityQueryCorpus::to_text, (&corpus,), text),
    ensures
        ({
            let shown = "exact_node_ids"@ + ": "@ + shown_list(corpus.exact_node_ids@);
            let shown = shown + ", "@ + "outgoing_node_ids"@ + ": "@ + shown_list(
                corpus.outgoing_node_ids@,
            );
            let shown = shown + ", "@ + "incoming_node_ids"@ + ": "@ + shown_list(
                corpus.incoming_node_ids@,
            );
            let shown = shown + ", "@ + "both_node_ids"@ + ": "@ + shown_list(
                corpus.both_node_ids@,
            );
            let shown = shown + ", "@ + "outgoing_edge_ids"@ + ": "@ + shown_list(
                corpus.outgoing_edge_ids@,
            );
            let shown = shown + ", "@ + "equality_node_ids"@ + ": "@ + shown_list(
                corpus.equality_node_ids@,
            );
            let shown = shown + ", "@ + "updated_equality_node_ids"@ + ": "@ + shown_list(
                corpus.updated_equality_node_ids@,
            );
            let shown = shown + ", "@ + "range_node_ids"@ + ": "@ + shown_list(
                corpus.range_node_ids@,
            );
            let shown = shown + ", "@ + "equality_edge_ids"@ + ": "@ + shown_list(
                corpus.equality_edge_ids@,
            );
            let shown = shown + ", "@ + "updated_equality_edge_ids"@ + ": "@ + shown_list(
                corpus.updated_equality_edge_ids@,
            );
            let shown = shown + ", "@ + "range_edge_ids"@ + ": "@ + shown_list(
                corpus.range_edge_ids@,
            );
            let shown = shown + ", "@ + "text_initial_node_ids"@ + ": "@ + shown_list(
                corpus.text_initial_node_ids@,
            );
            let shown = shown + ", "@ + "text_updated_node_ids"@ + ": "@ + shown_list(
                corpus.text_updated_node_ids@,
            );
            let shown = shown + ", "@ + "vector_updated_node_ids"@ + ": "@ + shown_list(
                corpus.vector_updated_node_ids@,
            );
            text@ == "MigrationParityQueryCorpus { "@ + shown + " }"@
        }),
{
    lemma_shown_list(corpus.exact_node_ids@);
    lemma_shown_list(corpus.outgoing_node_ids@);
    lemma_shown_list(corpus.incoming_node_ids@);
    lemma_shown_list(corpus.both_node_ids@);
    lemma_shown_list(corpus.outgoing_edge_ids@);
    lemma_shown_list(corpus.equality_node_ids@);
    lemma_shown_list(corpus.updated_equality_node_ids@);
    lemma_shown_list(corpus.range_node_ids@);
    lemma_shown_list(corpus.equality_edge_ids@);
    lemma_shown_list(corpus.updated_equality_edge_ids@);
    lemma_shown_list(corpus.range_edge_ids@);
    lemma_shown_list(corpus.text_initial_node_ids@);
    lemma_shown_list(corpus.text_updated_node_ids@);
    lemma_shown_list(corpus.vector_updated_node_ids@);
    let shown = "exact_node_ids"@ + ": "@ + shown_list(corpus.exact_node_ids@);
    assert(answers_text(corpus@, 0) =~= Seq::empty());
    assert(answers_text(corpus@, 1) =~= shown);
    let shown = shown + ", "@ + "outgoing_node_ids"@ + ": "@ + shown_list(corpus.outgoing_node_ids@);
    assert(answers_text(corpus@, 2) == shown);
    let shown = shown + ", "@ + "incoming_node_ids"@ + ": "@ + shown_list(corpus.incoming_node_ids@);
    assert(answers_text(corpus@, 3) == shown);
    let shown = shown + ", "@ + "both_node_ids"@ + ": "@ + shown_list(corpus.both_node_ids@);
    assert(answers_text(corpus@, 4) == shown);
    let shown = shown + ", "@ + "outgoing_edge_ids"@ + ": "@ + shown_list(corpus.outgoing_edge_ids@);
    assert(answers_text(corpus@, 5) == shown);
    let shown = shown + ", "@ + "equality_node_ids"@ + ": "@ + shown_list(corpus.equality_node_ids@);
    assert(answers_text(corpus@, 6) == shown);
    let shown = shown + ", "@ + "updated_equality_node_ids"@ + ": "@ + shown_list(corpus.updated_equality_node_ids@);
    assert(answers_text(corpus@, 7) == shown);
    let shown = shown + ", "@ + "range_node_ids"@ + ": "@ + shown_list(corpus.range_node_ids@);
    assert(answers_text(corpus@, 8) == shown);
    let shown = shown + ", "@ + "equality_edge_ids"@ + ": "@ + shown_list(corpus.equality_edge_ids@);
    assert(answers_text(corpus@, 9) == shown);
    let shown = shown + ", "@ + "updated_equality_edge_ids"@ + ": "@ + shown_list(corpus.updated_equality_edge_ids@);
    assert(answers_text(corpus@, 10) == shown);
    let shown = shown + ", "@ + "range_edge_ids"@ + ": "@ + shown_list(corpus.range_edge_ids@);
    assert(answers_text(corpus@, 11) == shown);
    let shown = shown + ", "@ + "text_initial_node_ids"@ + ": "@ + shown_list(corpus.text_initial_node_ids@);
    assert(answers_text(corpus@, 12) == shown);
    let shown = shown + ", "@ + "text_updated_node_ids"@ + ": "@ + shown_list(corpus.text_updated_node_ids@);
    assert(answers_text(corpus@, 13) == shown);
    let shown = shown + ", "@ + "vector_updated_node_ids"@ + ": "@ + shown_list(corpus.vector_updated_node_ids@);
    assert(answers_text(corpus@, 14) == shown);
}

} // verus!
