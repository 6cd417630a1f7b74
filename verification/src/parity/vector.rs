//! Physical evidence: digests of vector namespaces, the vector index that a
//! search reads, compactions, and the options of a scan.

use vstd::prelude::*;

use crate::assoc::AssocMap;
use crate::codec::{be_bytes, push_be};
use crate::digest::{hex_digest, sha256_of};
use crate::error::{config_error, invariant_violation, HelixDbError, HelixDbErrorView};
use crate::index_names::{text_rows_by_id, unpartitioned_name, vector_index_name, VectorElementType};
use crate::order::same_text;
use crate::parity::v2_state::{empty_state, MigrationParityV2State};
use crate::render::hex_of_bytes;

verus! {

/// One result of a vector search.
#[derive(Debug, Clone, Copy, PartialEq, Eq, Structural)]
pub struct MigrationParityVectorHit {
    pub node_id: u64,
    /// Bits of the distance.
    pub distance_bits: u32,
}

/// The metadata of a vector index.
#[derive(Debug, Clone, PartialEq, Eq)]
pub struct MigrationParityVectorMetadata {
    pub index_name: String,
    pub property_name: String,
    pub dimension: usize,
    pub m: usize,
    pub m0: usize,
    pub ef_construction: usize,
    /// Bits of the layer multiplier.
    pub ml: u32,
    pub simhash_threshold: usize,
    /// Bits of the sampling ratio.
    pub sampling_ratio: u32,
    pub adaptive_enabled: bool,
    /// Bits of the failure probability.
    pub adaptive_failure_prob: u32,
    pub entry_point: Option<u64>,
    pub max_layer: u16,
    pub count: u64,
}

/// The lifecycle state and the digests of the vector namespaces.
#[derive(Debug)]
pub struct MigrationParityIndexState {
    pub v2: MigrationParityV2State,
    pub vector_non_metadata_namespace_digests: AssocMap<u64, String>,
}

impl Default for MigrationParityIndexState {
    fn default() -> (state: Self)
        ensures
            state.v2@ == empty_state(),
            state.vector_non_metadata_namespace_digests@ == Map::<u64, String>::empty(),
    {
        MigrationParityIndexState {
            v2: MigrationParityV2State::default(),
            vector_non_metadata_namespace_digests: AssocMap::new(),
        }
    }
}

/// What a row of a vector lane is.
#[derive(Debug, Clone, Copy, PartialEq, Eq, Structural)]
pub enum VectorRowKind {
    /// Its key is outside the scanned data.
    Escaped,
    /// The metadata of an index, or a foreign row beside it.
    Metadata,
    /// A directory that is rebuilt on demand.
    SimHashDirectory,
    /// A row that belongs to the namespace of an index.
    Namespace { index_id: u64 },
}

/// A row of a vector lane.
#[derive(Debug)]
pub struct VectorRow {
    pub kind: VectorRowKind,
    pub key: Vec<u8>,
    pub value: Vec<u8>,
}

/// Key and value, each behind its length in eight big-endian bytes.
pub open spec fn framed(row: VectorRow) -> Seq<u8> {
    be_bytes(row.key@.len(), 8) + row.key@ + be_bytes(row.value@.len(), 8) + row.value@
}

/// The framed rows of a namespace, in the order of the scan.
pub open spec fn namespace_bytes(rows: Seq<VectorRow>, index_id: u64) -> Seq<u8>
    decreases rows.len(),
{
    if rows.len() == 0 {
        Seq::empty()
    } else if rows.last().kind == (VectorRowKind::Namespace { index_id }) {
        namespace_bytes(rows.drop_last(), index_id) + framed(rows.last())
    } else {
        namespace_bytes(rows.drop_last(), index_id)
    }
}

/// Whether a row belongs to the namespace.
pub open spec fn has_rows(rows: Seq<VectorRow>, index_id: u64) -> bool {
    exists|i: int|
        0 <= i < rows.len() && (#[trigger] rows[i]).kind == (VectorRowKind::Namespace { index_id })
}

/// Whether a row is outside the scanned data.
pub open spec fn escapes(rows: Seq<VectorRow>) -> bool {
    exists|i: int| 0 <= i < rows.len() && (#[trigger] rows[i]).kind is Escaped
}

/// The digest of each namespace that has rows, in hexadecimal digits.
pub open spec fn namespace_digests(rows: Seq<VectorRow>) -> Map<u64, Seq<char>> {
    Map::new(
        |index_id: u64| has_rows(rows, index_id),
        |index_id: u64| hex_of_bytes(sha256_of(namespace_bytes(rows, index_id))),
    )
}

fn push_framed(out: &mut Vec<u8>, row: &VectorRow)
    ensures
        final(out)@ == old(out)@ + framed(*row),
{
    let ghost before = out@;
    push_be(out, row.key.len() as u128, 8);
    out.extend_from_slice(row.key.as_slice());
    push_be(out, row.value.len() as u128, 8);
    out.extend_from_slice(row.value.as_slice());
    assert(out@ =~= before + framed(*row));
}

/// What has been gathered of the namespaces.
spec fn gathered(rows: Seq<VectorRow>, bytes: Map<u64, Vec<u8>>) -> bool {
    &&& forall|id: u64| #[trigger] bytes.dom().contains(id) <==> has_rows(rows, id)
    &&& forall|id: u64|
        bytes.dom().contains(id) ==> (#[trigger] bytes[id])@ == namespace_bytes(rows, id)
}

proof fn lemma_rows_grow(rows: Seq<VectorRow>, id: u64)
    requires
        rows.len() > 0,
    ensures
        has_rows(rows, id) <==> has_rows(rows.drop_last(), id) || rows.last().kind == (
        VectorRowKind::Namespace { index_id: id }),
{
    let front = rows.drop_last();
    if has_rows(front, id) {
        let i = choose|i: int|
            0 <= i < front.len() && (#[trigger] front[i]).kind == (VectorRowKind::Namespace {
                index_id: id,
            });
        assert(rows[i].kind == front[i].kind);
    }
    if has_rows(rows, id) {
        let i = choose|i: int|
            0 <= i < rows.len() && (#[trigger] rows[i]).kind == (VectorRowKind::Namespace {
                index_id: id,
            });
        if i < front.len() {
            assert(front[i].kind == rows[i].kind);
        }
    }
    if rows.last().kind == (VectorRowKind::Namespace { index_id: id }) {
        assert(rows[rows.len() - 1].kind == rows.last().kind);
    }
}

/// A namespace without rows has no bytes.
proof fn lemma_no_rows(rows: Seq<VectorRow>, id: u64)
    requires
        !has_rows(rows, id),
    ensures
        namespace_bytes(rows, id) == Seq::<u8>::empty(),
    decreases rows.len(),
{
    if rows.len() > 0 {
        lemma_rows_grow(rows, id);
        lemma_no_rows(rows.drop_last(), id);
    }
}

fn gather(rows: &Vec<VectorRow>) -> (bytes: Result<AssocMap<u64, Vec<u8>>, HelixDbError>)
    ensures
        match bytes {
            Ok(bytes) => !escapes(rows@) && gathered(rows@, bytes@),
            Err(error) => {
                &&& escapes(rows@)
                &&& error@ == HelixDbErrorView::InvariantViolation(
                    "vector parity scan escaped its data scope"@,
                )
            },
        },
{
    let mut bytes: AssocMap<u64, Vec<u8>> = AssocMap::new();
    let mut i: usize = 0;
    while i < rows.len()
        invariant
            i <= rows.len(),
            gathered(rows@.take(i as int), bytes@),
            !escapes(rows@.take(i as int)),
        decreases rows.len() - i,
    {
        let row = &rows[i];
        let ghost before = rows@.take(i as int);
        let ghost after = rows@.take(i as int + 1);
        let ghost old_bytes = bytes@;
        proof {
            assert(after.drop_last() =~= before);
            assert forall|id: u64| true implies (#[trigger] has_rows(after, id) <==> has_rows(
                before,
                id,
            ) || row.kind == (VectorRowKind::Namespace { index_id: id })) by {
                lemma_rows_grow(after, id);
            }
        }
        match row.kind {
            VectorRowKind::Escaped => {
                assert(rows@[i as int].kind is Escaped);
                return Err(invariant_violation("vector parity scan escaped its data scope"));
            },
            VectorRowKind::Metadata => {},
            VectorRowKind::SimHashDirectory => {},
            VectorRowKind::Namespace { index_id } => {
                let mut framed_rows = match bytes.take(&index_id) {
                    Some(framed_rows) => framed_rows,
                    None => {
                        proof {
                            assert(!has_rows(before, index_id));
                            lemma_no_rows(before, index_id);
                        }
                        Vec::new()
                    },
                };
                assert(framed_rows@ =~= namespace_bytes(before, index_id));
                push_framed(&mut framed_rows, row);
                assert(framed_rows@ =~= namespace_bytes(after, index_id));
                bytes.insert(index_id, framed_rows);
            },
        }
        proof {
            assert(gathered(after, bytes@)) by {
                assert forall|id: u64| #[trigger]
                    bytes@.dom().contains(id) <==> has_rows(after, id) by {
                    assert(has_rows(after, id) <==> has_rows(before, id) || row.kind == (
                    VectorRowKind::Namespace { index_id: id }));
                    assert(old_bytes.dom().contains(id) <==> has_rows(before, id));
                }
                assert forall|id: u64| bytes@.dom().contains(id) implies (#[trigger] bytes@[id])@
                    == namespace_bytes(after, id) by {
                    assert(has_rows(after, id) <==> has_rows(before, id) || row.kind == (
                    VectorRowKind::Namespace { index_id: id }));
                    if row.kind == (VectorRowKind::Namespace { index_id: id }) {
                    } else {
                        assert(old_bytes.dom().contains(id));
                        assert(bytes@[id] == old_bytes[id]);
                    }
                }
            }
            assert(!escapes(after)) by {
                if escapes(after) {
                    let k = choose|k: int| 0 <= k < after.len() && (#[trigger] after[k]).kind is Escaped;
                    if k < before.len() {
                        assert(before[k].kind is Escaped);
                    }
                }
            }
        }
        i += 1;
    }
    assert(rows@.take(i as int) =~= rows@);
    Ok(bytes)
}

/// The digest of every vector namespace, over all its rows but the metadata of
/// the index and the directories that are rebuilt on demand.
pub fn vector_non_metadata_digests(rows: &Vec<VectorRow>) -> (digests: Result<
    AssocMap<u64, String>,
    HelixDbError,
>)
    ensures
        match digests {
            Ok(digests) => !escapes(rows@) && text_rows_by_id(digests@) == namespace_digests(rows@),
            Err(error) => {
                &&& escapes(rows@)
                &&& error@ == HelixDbErrorView::InvariantViolation(
                    "vector parity scan escaped its data scope"@,
                )
            },
        },
{
    let bytes = match gather(rows) {
        Ok(bytes) => bytes,
        Err(error) => {
            return Err(error);
        },
    };
    let mut digests: AssocMap<u64, String> = AssocMap::new();
    let ghost all = bytes@;
    let mut left = bytes;
    while left.len() > 0
        invariant
            gathered(rows@, all),
            forall|id: u64| #[trigger]
                all.dom().contains(id) <==> left@.dom().contains(id) || digests@.dom().contains(id),
            forall|id: u64| #[trigger] left@.dom().contains(id) ==> left@[id] == all[id],
            forall|id: u64|
                digests@.dom().contains(id) ==> (#[trigger] digests@[id])@ == hex_of_bytes(
                    sha256_of(namespace_bytes(rows@, id)),
                ),
        decreases left.spec_entries().len(),
    {
        match left.pop() {
            Some((index_id, framed_rows)) => {
                assert(all.dom().contains(index_id));
                assert(framed_rows@ == namespace_bytes(rows@, index_id));
                digests.insert(index_id, hex_digest(framed_rows.as_slice()));
            },
            None => {},
        }
    }
    proof {
        assert(left@.dom().len() == 0);
        assert(left@.dom() =~= Set::<u64>::empty());
        assert forall|id: u64| #[trigger]
            text_rows_by_id(digests@).dom().contains(id) <==> namespace_digests(
                rows@,
            ).dom().contains(id) by {
            assert(all.dom().contains(id) <==> has_rows(rows@, id));
            assert(!left@.dom().contains(id));
        }
        assert(text_rows_by_id(digests@) =~= namespace_digests(rows@));
    }
    Ok(digests)
}

/// Metadata rows and directories take no part in the digests.
pub proof fn law_metadata_leaves_digests(rows: Seq<VectorRow>, row: VectorRow)
    requires
        row.kind is Metadata || row.kind is SimHashDirectory,
    ensures
        namespace_digests(rows.push(row)) == namespace_digests(rows),
{
    let grown = rows.push(row);
    assert(grown.drop_last() =~= rows);
    assert forall|id: u64| has_rows(grown, id) <==> has_rows(rows, id) by {
        lemma_rows_grow(grown, id);
    }
    assert(namespace_digests(grown) =~= namespace_digests(rows));
}

/// A row of one namespace leaves the digests of the others.
pub proof fn law_namespaces_are_digested_apart(rows: Seq<VectorRow>, row: VectorRow, other: u64)
    requires
        row.kind matches VectorRowKind::Namespace { index_id } && index_id != other,
    ensures
        namespace_digests(rows.push(row)).dom().contains(other) == namespace_digests(
            rows,
        ).dom().contains(other),
        namespace_digests(rows).dom().contains(other) ==> namespace_digests(rows.push(row))[other]
            == namespace_digests(rows)[other],
{
    let grown = rows.push(row);
    assert(grown.drop_last() =~= rows);
    lemma_rows_grow(grown, other);
}

/// An index that serves reads, as far as a vector search tells.
#[derive(Debug)]
pub enum VectorHandle {
    Vector {
        element_type: VectorElementType,
        label: String,
        property: String,
        /// The namespace of an index that has no partitions.
        physical_index_id: Option<u64>,
    },
    /// An index of another family.
    Other,
}

/// Whether the handle is that of the vector index with the name.
pub open spec fn is_named(handle: VectorHandle, index_name: Seq<char>) -> bool {
    handle matches VectorHandle::Vector { element_type, label, property, physical_index_id }
        && unpartitioned_name("vec"@, element_type == VectorElementType::Node, label@, property@)
        == index_name
}

/// The position of the first handle with the name, or the number of handles.
pub open spec fn first_named(handles: Seq<VectorHandle>, index_name: Seq<char>) -> int
    decreases handles.len(),
{
    if handles.len() == 0 {
        0
    } else {
        let found = first_named(handles.drop_last(), index_name);
        if found < handles.len() - 1 || is_named(handles.last(), index_name) {
            found
        } else {
            handles.len() as int
        }
    }
}

proof fn lemma_first_named(handles: Seq<VectorHandle>, index_name: Seq<char>, at: int)
    requires
        0 <= at < handles.len(),
        is_named(handles[at], index_name),
        forall|i: int| 0 <= i < at ==> !is_named(#[trigger] handles[i], index_name),
    ensures
        first_named(handles, index_name) == at,
    decreases handles.len(),
{
    let front = handles.drop_last();
    if at < front.len() {
        assert(front[at] == handles[at]);
        assert forall|i: int| 0 <= i < at implies !is_named(#[trigger] front[i], index_name) by {
            assert(front[i] == handles[i]);
        }
        lemma_first_named(front, index_name, at);
    } else {
        assert forall|i: int| 0 <= i < front.len() implies !is_named(
            #[trigger] front[i],
            index_name,
        ) by {
            assert(front[i] == handles[i]);
        }
        lemma_none_named(front, index_name);
    }
}

proof fn lemma_none_named(handles: Seq<VectorHandle>, index_name: Seq<char>)
    requires
        forall|i: int| 0 <= i < handles.len() ==> !is_named(#[trigger] handles[i], index_name),
    ensures
        first_named(handles, index_name) == handles.len(),
    decreases handles.len(),
{
    if handles.len() > 0 {
        let front = handles.drop_last();
        assert forall|i: int| 0 <= i < front.len() implies !is_named(
            #[trigger] front[i],
            index_name,
        ) by {
            assert(front[i] == handles[i]);
        }
        lemma_none_named(front, index_name);
    }
}

/// The namespace of the vector index with the name: the first active one. An
/// index with partitions has no single namespace.
pub fn parity_vector_namespace(handles: &Vec<VectorHandle>, index_name: &str) -> (namespace: Result<
    u64,
    HelixDbError,
>)
    ensures
        ({
            let at = first_named(handles@, index_name@);
            if at == handles@.len() {
                namespace matches Err(error) && error@ == HelixDbErrorView::IndexNotFound(
                    index_name@,
                )
            } else {
                match handles@[at]->physical_index_id {
                    Some(physical_id) => namespace == Ok::<u64, HelixDbError>(physical_id),
                    None => namespace matches Err(error) && error@ == HelixDbErrorView::Config(
                        "migration parity vector search requires an unpartitioned definition"@,
                    ),
                }
            }
        }),
{
    let mut i: usize = 0;
    while i < handles.len()
        invariant
            i <= handles.len(),
            forall|k: int| 0 <= k < i ==> !is_named(#[trigger] handles@[k], index_name@),
        decreases handles.len() - i,
    {
        match &handles[i] {
            VectorHandle::Vector { element_type, label, property, physical_index_id } => {
                let name = vector_index_name(*element_type, label.as_str(), property.as_str());
                if same_text(name.as_str(), index_name) {
                    proof {
                        lemma_first_named(handles@, index_name@, i as int);
                    }
                    return match physical_index_id {
                        Some(physical_id) => Ok(*physical_id),
                        None => Err(
                            config_error(
                                "migration parity vector search requires an unpartitioned definition",
                            ),
                        ),
                    };
                }
            },
            VectorHandle::Other => {},
        }
        i += 1;
    }
    proof {
        lemma_none_named(handles@, index_name@);
    }
    Err(HelixDbError::IndexNotFound(index_name.to_owned()))
}

/// How far a compaction is.
#[derive(Debug, Clone, Copy, PartialEq, Eq, Structural)]
pub enum CompactionPhase {
    Submitted,
    Scheduled,
    Running,
    Compacted,
    Completed,
    Failed,
}

/// The name of a phase.
pub open spec fn phase_name(phase: CompactionPhase) -> Seq<char> {
    match phase {
        CompactionPhase::Submitted => "submitted"@,
        CompactionPhase::Scheduled => "scheduled"@,
        CompactionPhase::Running => "running"@,
        CompactionPhase::Compacted => "compacted"@,
        CompactionPhase::Completed => "completed"@,
        CompactionPhase::Failed => "failed"@,
    }
}

impl CompactionPhase {
    /// The name of the phase, in lower case.
    pub fn as_str(self) -> (name: &'static str)
        ensures
            name@ == phase_name(self),
    {
        match self {
            CompactionPhase::Submitted => "submitted",
            CompactionPhase::Scheduled => "scheduled",
            CompactionPhase::Running => "running",
            CompactionPhase::Compacted => "compacted",
            CompactionPhase::Completed => "completed",
            CompactionPhase::Failed => "failed",
        }
    }
}

/// The state of one compaction.
#[derive(Debug, Clone, PartialEq, Eq)]
pub struct MigrationParityCompactionStatus {
    pub id: String,
    pub status: String,
    pub spec: String,
    pub bytes_processed: u64,
}

/// A compaction as one version of the list of compactions has it.
#[derive(Debug)]
pub struct ListedCompaction {
    pub order: u128,
    pub status: MigrationParityCompactionStatus,
}

/// The list with the compaction in its place, instead of an earlier state of it.
pub open spec fn placed(list: Seq<ListedCompaction>, compaction: ListedCompaction) -> Seq<
    ListedCompaction,
>
    decreases list.len(),
{
    if list.len() == 0 {
        seq![compaction]
    } else if list.last().order < compaction.order {
        list.push(compaction)
    } else if list.last().order == compaction.order {
        list.drop_last().push(compaction)
    } else {
        placed(list.drop_last(), compaction).push(list.last())
    }
}

/// The last state of every compaction, in the order of the compactions.
pub open spec fn latest(listed: Seq<ListedCompaction>) -> Seq<ListedCompaction>
    decreases listed.len(),
{
    if listed.len() == 0 {
        Seq::empty()
    } else {
        placed(latest(listed.drop_last()), listed.last())
    }
}

fn place(list: &mut Vec<ListedCompaction>, compaction: ListedCompaction)
    ensures
        final(list)@ == placed(old(list)@, compaction),
{
    let ghost all = list@;
    let mut at: usize = list.len();
    assert(all.take(at as int) =~= all);
    assert(placed(all, compaction) =~= placed(all.take(at as int), compaction) + all.skip(
        at as int,
    ));
    while at > 0 && list[at - 1].order > compaction.order
        invariant
            at <= list.len(),
            list@ == all,
            placed(all, compaction) == placed(all.take(at as int), compaction) + all.skip(
                at as int,
            ),
        decreases at,
    {
        proof {
            let shorter = all.take(at as int);
            assert(shorter.drop_last() =~= all.take(at as int - 1));
            assert(placed(shorter, compaction) =~= placed(
                all.take(at as int - 1),
                compaction,
            ).push(all[at as int - 1]));
            assert(placed(shorter, compaction) + all.skip(at as int) =~= placed(
                all.take(at as int - 1),
                compaction,
            ) + all.skip(at as int - 1));
        }
        at -= 1;
    }
    let ghost shorter = all.take(at as int);
    if at > 0 && list[at - 1].order == compaction.order {
        list.set(at - 1, compaction);
        assert(list@ =~= shorter.drop_last().push(compaction) + all.skip(at as int));
    } else {
        list.insert(at, compaction);
        assert(placed(shorter, compaction) =~= shorter.push(compaction));
        assert(list@ =~= shorter.push(compaction) + all.skip(at as int));
    }
}

/// The states of the compactions, in the order of the list.
pub open spec fn statuses_of(list: Seq<ListedCompaction>) -> Seq<MigrationParityCompactionStatus> {
    list.map_values(|compaction: ListedCompaction| compaction.status)
}

/// The last listed state of every compaction.
pub fn latest_compactions(listed: Vec<ListedCompaction>) -> (statuses: Vec<
    MigrationParityCompactionStatus,
>)
    ensures
        statuses@ == statuses_of(latest(listed@)),
{
    let ghost all = listed@;
    let mut list: Vec<ListedCompaction> = Vec::new();
    assert(all.take(0) =~= Seq::<ListedCompaction>::empty());
    for compaction in taken: listed.into_iter()
        invariant
            taken.seq() == all,
            all == listed@,
            list@ == latest(all.take(taken.index() as int)),
    {
        proof {
            let done = taken.index() as int;
            assert(compaction == all[done]);
            assert(all.take(done + 1).drop_last() =~= all.take(done));
            assert(all.take(done + 1).last() == compaction);
        }
        place(&mut list, compaction);
    }
    assert(all.take(all.len() as int) =~= all);
    let ghost ordered = list@;
    let mut statuses: Vec<MigrationParityCompactionStatus> = Vec::new();
    for compaction in taken: list.into_iter()
        invariant
            taken.seq() == ordered,
            ordered == list@,
            statuses@ =~= statuses_of(ordered.take(taken.index() as int)),
    {
        assert(compaction == ordered[taken.index() as int]);
        statuses.push(compaction.status);
    }
    assert(ordered.take(ordered.len() as int) =~= ordered);
    statuses
}

/// Orders ascend strictly.
pub open spec fn ascends(list: Seq<ListedCompaction>) -> bool {
    forall|i: int, j: int|
        #![trigger list[i], list[j]]
        0 <= i < j < list.len() ==> list[i].order < list[j].order
}

proof fn lemma_placed(list: Seq<ListedCompaction>, compaction: ListedCompaction)
    requires
        ascends(list),
    ensures
        ascends(placed(list, compaction)),
        placed(list, compaction).contains(compaction),
        forall|i: int|
            0 <= i < list.len() && (#[trigger] list[i]).order != compaction.order ==> placed(
                list,
                compaction,
            ).contains(list[i]),
        forall|i: int|
            0 <= i < placed(list, compaction).len() ==> (#[trigger] placed(list, compaction)[i])
                == compaction || list.contains(placed(list, compaction)[i]),
    decreases list.len(),
{
    let grown = placed(list, compaction);
    if list.len() == 0 {
        assert(grown[0] == compaction);
    } else {
        let front = list.drop_last();
        assert(ascends(front)) by {
            assert forall|i: int, j: int|
                #![trigger front[i], front[j]]
                0 <= i < j < front.len() implies front[i].order < front[j].order by {
                assert(list[i].order < list[j].order);
            }
        }
        if list.last().order < compaction.order {
            assert(grown[list.len() as int] == compaction);
            assert forall|i: int| 0 <= i < list.len() && (#[trigger] list[i]).order
                != compaction.order implies grown.contains(list[i]) by {
                assert(grown[i] == list[i]);
            }
            assert forall|i: int| 0 <= i < grown.len() implies (#[trigger] grown[i]) == compaction
                || list.contains(grown[i]) by {
                if i < list.len() {
                    assert(list[i] == grown[i]);
                }
            }
            assert(ascends(grown)) by {
                assert forall|i: int, j: int|
                    #![trigger grown[i], grown[j]]
                    0 <= i < j < grown.len() implies grown[i].order < grown[j].order by {
                    assert(grown[i] == list[i]);
                    if j < list.len() {
                        assert(grown[j] == list[j]);
                    } else if i < list.len() - 1 {
                        assert(list[i].order < list[list.len() - 1].order);
                    }
                }
            }
        } else if list.last().order == compaction.order {
            assert(grown[list.len() - 1] == compaction);
            assert forall|i: int| 0 <= i < list.len() && (#[trigger] list[i]).order
                != compaction.order implies grown.contains(list[i]) by {
                assert(grown[i] == list[i]);
            }
            assert forall|i: int| 0 <= i < grown.len() implies (#[trigger] grown[i]) == compaction
                || list.contains(grown[i]) by {
                if i < list.len() - 1 {
                    assert(list[i] == grown[i]);
                }
            }
            assert(ascends(grown)) by {
                assert forall|i: int, j: int|
                    #![trigger grown[i], grown[j]]
                    0 <= i < j < grown.len() implies grown[i].order < grown[j].order by {
                    assert(grown[i] == list[i]);
                    assert(list[i].order < list[j].order);
                }
            }
        } else {
            lemma_placed(front, compaction);
            let shorter = placed(front, compaction);
            let at = choose|at: int| 0 <= at < shorter.len() && shorter[at] == compaction;
            assert(grown[at] == compaction);
            assert forall|i: int| 0 <= i < list.len() && (#[trigger] list[i]).order
                != compaction.order implies grown.contains(list[i]) by {
                if i < front.len() {
                    assert(front[i] == list[i]);
                    assert(shorter.contains(list[i]));
                    let k = choose|k: int| 0 <= k < shorter.len() && shorter[k] == list[i];
                    assert(grown[k] == list[i]);
                } else {
                    assert(grown[shorter.len() as int] == list[i]);
                }
            }
            assert forall|i: int| 0 <= i < grown.len() implies (#[trigger] grown[i]) == compaction
                || list.contains(grown[i]) by {
                if i < shorter.len() {
                    assert(grown[i] == shorter[i]);
                    if shorter[i] != compaction {
                        let k = choose|k: int| 0 <= k < front.len() && front[k] == shorter[i];
                        assert(list[k] == grown[i]);
                    }
                } else {
                    assert(list[list.len() - 1] == grown[i]);
                }
            }
            assert(ascends(grown)) by {
                assert forall|i: int, j: int|
                    #![trigger grown[i], grown[j]]
                    0 <= i < j < grown.len() implies grown[i].order < grown[j].order by {
                    assert(grown[i] == shorter[i]);
                    if j < shorter.len() {
                        assert(grown[j] == shorter[j]);
                    } else if shorter[i] != compaction {
                        let k = choose|k: int| 0 <= k < front.len() && front[k] == shorter[i];
                        assert(list[k].order < list[list.len() - 1].order);
                    }
                }
            }
        }
    }
}

/// Every compaction is listed once, in ascending order, with the state that
/// was listed for it last.
pub proof fn law_last_compaction_state_wins(listed: Seq<ListedCompaction>)
    ensures
        ascends(latest(listed)),
        forall|i: int|
            0 <= i < latest(listed).len() ==> listed.contains(#[trigger] latest(listed)[i]),
        forall|n: int|
            #![trigger listed[n]]
            0 <= n < listed.len() && (forall|m: int|
                n < m < listed.len() ==> (#[trigger] listed[m]).order != listed[n].order)
                ==> latest(listed).contains(listed[n]),
    decreases listed.len(),
{
    if listed.len() > 0 {
        let front = listed.drop_last();
        let compaction = listed.last();
        law_last_compaction_state_wins(front);
        lemma_placed(latest(front), compaction);
        assert forall|i: int| 0 <= i < latest(listed).len() implies listed.contains(
            #[trigger] latest(listed)[i],
        ) by {
            if latest(listed)[i] == compaction {
                assert(listed[listed.len() - 1] == compaction);
            } else {
                let k = choose|k: int|
                    0 <= k < latest(front).len() && latest(front)[k] == latest(listed)[i];
                assert(front.contains(latest(front)[k]));
                let n = choose|n: int| 0 <= n < front.len() && front[n] == latest(front)[k];
                assert(listed[n] == latest(listed)[i]);
            }
        }
        assert forall|n: int|
            #![trigger listed[n]]
            0 <= n < listed.len() && (forall|m: int|
                n < m < listed.len() ==> (#[trigger] listed[m]).order
                    != listed[n].order) implies latest(listed).contains(listed[n]) by {
            if n < front.len() {
                assert(front[n] == listed[n]);
                assert forall|m: int| n < m < front.len() implies (#[trigger] front[m]).order
                    != front[n].order by {
                    assert(front[m] == listed[m]);
                }
                assert(latest(front).contains(front[n]));
                let k = choose|k: int| 0 <= k < latest(front).len() && latest(front)[k] == front[n];
                assert(listed[listed.len() - 1].order != listed[n].order);
                assert(latest(front)[k].order != compaction.order);
            }
        }
    }
}

/// The options of an independent scan.
#[derive(Debug, Clone, Copy, PartialEq, Eq, Structural)]
pub struct ParityScanOptions {
    pub read_ahead_bytes: usize,
    pub cache_blocks: bool,
    pub max_fetch_tasks: usize,
}

/// Bounded options for an independent scan: it does not fill the block cache,
/// and it fetches with at least one task.
pub fn migration_parity_scan_options(read_ahead_bytes: usize, maximum_fetch_tasks: usize) -> (options:
    ParityScanOptions)
    ensures
        options.read_ahead_bytes == read_ahead_bytes,
        !options.cache_blocks,
        options.max_fetch_tasks == (if maximum_fetch_tasks == 0 {
            1
        } else {
            maximum_fetch_tasks as int
        }),
{
    ParityScanOptions {
        read_ahead_bytes,
        cache_blocks: false,
        max_fetch_tasks: if maximum_fetch_tasks == 0 {
            1
        } else {
            maximum_fetch_tasks
        },
    }
}

/// The rows of a namespace, in the order of the scan.
pub open spec fn rows_of(rows: Seq<VectorRow>, index_id: u64) -> Seq<VectorRow> {
    rows.filter(|row: VectorRow| row.kind == VectorRowKind::Namespace { index_id })
}

/// Key and value of each row, each behind its length, one row behind the other.
pub open spec fn laid_out(rows: Seq<VectorRow>) -> Seq<u8> {
    rows.map_values(
        |row: VectorRow|
            be_bytes(row.key@.len(), 8) + row.key@ + be_bytes(row.value@.len(), 8) + row.value@,
    ).flatten()
}

proof fn lemma_namespace_bytes(rows: Seq<VectorRow>, index_id: u64)
    ensures
        namespace_bytes(rows, index_id) == laid_out(rows_of(rows, index_id)),
    decreases rows.len(),
{
    broadcast use Seq::lemma_flatten_push;

    let kept = |row: VectorRow| row.kind == VectorRowKind::Namespace { index_id };
    let shown = |row: VectorRow|
        be_bytes(row.key@.len(), 8) + row.key@ + be_bytes(row.value@.len(), 8) + row.value@;
    reveal(Seq::filter);
    if rows.len() == 0 {
        assert(rows_of(rows, index_id) =~= Seq::empty());
        assert(rows_of(rows, index_id).map_values(shown) =~= Seq::<Seq<u8>>::empty());
    } else {
        let front = rows.drop_last();
        lemma_namespace_bytes(front, index_id);
        if kept(rows.last()) {
            assert(rows_of(rows, index_id) =~= rows_of(front, index_id).push(rows.last()));
            assert(rows_of(rows, index_id).map_values(shown) =~= rows_of(
                front,
                index_id,
            ).map_values(shown).push(shown(rows.last())));
            rows_of(front, index_id).map_values(shown).lemma_flatten_push(shown(rows.last()));
            assert(shown(rows.last()) =~= framed(rows.last()));
        } else {
            assert(rows_of(rows, index_id) =~= rows_of(front, index_id));
        }
    }
}

/// The digests are those of the namespaces that have a row, each taken over all
/// of its rows and no others, in the order of the scan; a row outside the scanned
/// data stops the scan.
pub proof fn law_digests_cover_their_namespace(
    rows: Vec<VectorRow>,
    digests: Result<AssocMap<u64, String>, HelixDbError>,
)
    requires
        call_ensures(vector_non_metadata_digests, (&rows,), digests),
    ensures
        digests is Err <==> exists|i: int|
            0 <= i < rows@.len() && (#[trigger] rows@[i]).kind is Escaped,
        digests matches Ok(digests) ==> forall|index_id: u64| #[trigger]
            digests@.dom().contains(index_id) <==> rows_of(rows@, index_id).len() > 0,
        digests matches Ok(digests) ==> forall|index_id: u64|
            digests@.dom().contains(index_id) ==> (#[trigger] digests@[index_id])@ == hex_of_bytes(
                sha256_of(laid_out(rows_of(rows@, index_id))),
            ),
{
    if let Ok(digests) = digests {
        assert(text_rows_by_id(digests@).dom() =~= digests@.dom());
        assert forall|index_id: u64| #[trigger]
            digests@.dom().contains(index_id) <==> rows_of(rows@, index_id).len() > 0 by {
            assert(digests@.dom().contains(index_id) <==> namespace_digests(rows@).dom().contains(
                index_id,
            ));
            lemma_has_rows(rows@, index_id);
        }
        assert forall|index_id: u64| digests@.dom().contains(index_id) implies (
        #[trigger] digests@[index_id])@ == hex_of_bytes(
            sha256_of(laid_out(rows_of(rows@, index_id))),
        ) by {
            lemma_namespace_bytes(rows@, index_id);
            assert(text_rows_by_id(digests@)[index_id] == digests@[index_id]@);
            assert(namespace_digests(rows@).dom().contains(index_id));
        }
    }
}

proof fn lemma_has_rows(rows: Seq<VectorRow>, index_id: u64)
    ensures
        has_rows(rows, index_id) <==> rows_of(rows, index_id).len() > 0,
    decreases rows.len(),
{
    reveal(Seq::filter);
    if rows.len() > 0 {
        lemma_has_rows(rows.drop_last(), index_id);
        lemma_rows_grow(rows, index_id);
    }
}

/// Whether the handle serves the vector index that is called by the name.
pub open spec fn serves(handle: VectorHandle, index_name: Seq<char>) -> bool {
    match handle {
        VectorHandle::Vector { element_type, label, property, .. } => unpartitioned_name(
            "vec"@,
            element_type is Node,
            label@,
            property@,
        ) == index_name,
        VectorHandle::Other => false,
    }
}

/// The namespace is that of the first handle that serves the index with the name.
pub proof fn law_first_named_index_is_searched(
    handles: Vec<VectorHandle>,
    index_name: &str,
    at: int,
    namespace: Result<u64, HelixDbError>,
)
    requires
        call_ensures(parity_vector_namespace, (&handles, index_name), namespace),
    ensures
        0 <= at < handles@.len() && serves(handles@[at], index_name@) && (forall|i: int|
            0 <= i < at ==> !serves(#[trigger] handles@[i], index_name@)) ==> match namespace {
            Ok(physical_id) => handles@[at]->physical_index_id == Some(physical_id),
            Err(error) => handles@[at]->physical_index_id is None && error@ is Config,
        },
        (forall|i: int| 0 <= i < handles@.len() ==> !serves(#[trigger] handles@[i], index_name@))
            ==> namespace is Err && namespace->Err_0@ == HelixDbErrorView::IndexNotFound(
            index_name@,
        ),
{
    if 0 <= at < handles@.len() && serves(handles@[at], index_name@) && (forall|i: int|
        0 <= i < at ==> !serves(#[trigger] handles@[i], index_name@)) {
        assert(is_named(handles@[at], index_name@));
        assert forall|i: int| 0 <= i < at implies !is_named(
            #[trigger] handles@[i],
            index_name@,
        ) by {
            assert(!serves(handles@[i], index_name@));
        }
        lemma_first_named(handles@, index_name@, at);
    }
    if forall|i: int| 0 <= i < handles@.len() ==> !serves(#[trigger] handles@[i], index_name@) {
        assert forall|i: int| 0 <= i < handles@.len() implies !is_named(
            #[trigger] handles@[i],
            index_name@,
        ) by {
            assert(!serves(handles@[i], index_name@));
        }
        lemma_none_named(handles@, index_name@);
    }
}

/// Every phase has its name.
pub proof fn law_phases_are_named(phase: CompactionPhase, name: &'static str)
    requires
        call_ensures(CompactionPhase::as_str, (phase,), name),
    ensures
        phase is Submitted ==> name@ == "submitted"@,
        phase is Scheduled ==> name@ == "scheduled"@,
        phase is Running ==> name@ == "running"@,
        phase is Compacted ==> name@ == "compacted"@,
        phase is Completed ==> name@ == "completed"@,
        phase is Failed ==> name@ == "failed"@,
{
}

/// Whether the state at `at` is the last one listed for its compaction.
pub open spec fn is_last_state(listed: Seq<ListedCompaction>, at: int) -> bool {
    &&& 0 <= at < listed.len()
    &&& forall|later: int|
        at < later < listed.len() ==> (#[trigger] listed[later]).order != listed[at].order
}

/// The last listed state of every compaction is given, and nothing else; a
/// compaction with a smaller order comes first.
pub proof fn law_last_states_are_given_in_order(
    listed: Vec<ListedCompaction>,
    statuses: Vec<MigrationParityCompactionStatus>,
)
    requires
        call_ensures(latest_compactions, (listed,), statuses),
    ensures
        forall|at: int| #[trigger]
            is_last_state(listed@, at) ==> statuses@.contains(listed@[at].status),
        forall|i: int|
            0 <= i < statuses@.len() ==> exists|at: int|
                0 <= at < listed@.len() && (#[trigger] listed@[at]).status
                    == #[trigger] statuses@[i],
        exists|orders: Seq<u128>| #[trigger]
            orders.len() == statuses@.len() && (forall|i: int, j: int|
                #![trigger orders[i], orders[j]]
                0 <= i < j < orders.len() ==> orders[i] < orders[j]) && (forall|i: int|
                0 <= i < orders.len() ==> exists|at: int|
                    0 <= at < listed@.len() && (#[trigger] listed@[at]).order == #[trigger] orders[i]
                        && listed@[at].status == statuses@[i]),
{
    law_last_compaction_state_wins(listed@);
    let last = latest(listed@);
    assert(statuses@.len() == last.len());
    assert forall|at: int| #[trigger] is_last_state(listed@, at) implies statuses@.contains(
        listed@[at].status,
    ) by {
        assert(last.contains(listed@[at]));
        let k = choose|k: int| 0 <= k < last.len() && last[k] == listed@[at];
        assert(statuses@[k] == last[k].status);
    }
    let orders = Seq::new(last.len(), |i: int| last[i].order);
    assert forall|i: int| 0 <= i < orders.len() implies exists|at: int|
        0 <= at < listed@.len() && (#[trigger] listed@[at]).order == #[trigger] orders[i]
            && listed@[at].status == statuses@[i] by {
        assert(listed@.contains(last[i]));
        let n = choose|n: int| 0 <= n < listed@.len() && listed@[n] == last[i];
        assert(listed@[n].order == orders[i]);
    }
    assert forall|i: int| 0 <= i < statuses@.len() implies exists|at: int|
        0 <= at < listed@.len() && (#[trigger] listed@[at]).status == #[trigger] statuses@[i] by {
        assert(listed@.contains(last[i]));
        let n = choose|n: int| 0 <= n < listed@.len() && listed@[n] == last[i];
        assert(listed@[n].status == statuses@[i]);
    }
    assert(orders.len() == statuses@.len());
}

/// A scan reads ahead as asked, never fills the block cache, and always has a
/// task to fetch with.
pub proof fn law_scans_are_bounded(
    read_ahead_bytes: usize,
    maximum_fetch_tasks: usize,
    options: ParityScanOptions,
)
    requires
        call_ensures(
            migration_parity_scan_options,
            (read_ahead_bytes, maximum_fetch_tasks),
            options,
        ),
    ensures
        options.read_ahead_bytes == read_ahead_bytes,
        !options.cache_blocks,
        options.max_fetch_tasks >= 1,
        maximum_fetch_tasks >= 1 ==> options.max_fetch_tasks == maximum_fetch_tasks,
        maximum_fetch_tasks == 0 ==> options.max_fetch_tasks == 1,
{
}

} // verus!
