//! The index catalog and lifecycle state, collected from its rows.

use vstd::multiset::Multiset;
use vstd::prelude::*;

use crate::assoc::AssocMap;
use crate::error::{invariant_violation, HelixDbError, HelixDbErrorView};
use crate::index_names::text_rows;
use crate::order::{
    law_sorting_orders_all_elements, lemma_sort_ranked, lemma_sort_ranked_mapped, rank_str, rank_text, same_text, sort_ranked,
    sort_values, Rank, Ranked,
};
use crate::parity::definition::{
    definition_fields, element_name, identity_text, parity_definition, parity_identity,
    IndexDefinition, IndexIdentity,
};
use crate::parity::snapshot::{counted, counts_one_more, increment_count, texts_of};
use crate::parity::statistics::{
    corpus_row_owned, term_row_owned, text_corpus_statistics, text_entity_statistics,
    text_term_statistics, MigrationParityTextCorpusStatistics,
    MigrationParityTextEntityContribution, MigrationParityTextEntityStatistics,
    MigrationParityTextTermStatistics, TextCorpusKey, TextCorpusRow, TextEntityKey, TextEntityRow,
    TextTermKey, TextTermRow,
};
use crate::text_map::TextMap;

verus! {

/// One index record.
#[derive(Debug, Clone)]
pub struct MigrationParityV2Record {
    pub identity: String,
    pub definition: TextMap<String>,
    pub index_id: u64,
    pub revision: u64,
    pub state: String,
    pub generation: u64,
    pub physical: Option<String>,
}

/// What a [`MigrationParityV2Record`] says.
pub ghost struct RecordModel {
    pub identity: Seq<char>,
    pub definition: Map<Seq<char>, Seq<char>>,
    pub index_id: u64,
    pub revision: u64,
    pub state: Seq<char>,
    pub generation: u64,
    pub physical: Option<String>,
}

impl MigrationParityV2Record {
    pub open spec fn model(self) -> RecordModel {
        RecordModel {
            identity: self.identity@,
            definition: text_rows(self.definition@),
            index_id: self.index_id,
            revision: self.revision,
            state: self.state@,
            generation: self.generation,
            physical: self.physical,
        }
    }
}

/// Records are ordered by their identity.
impl Ranked for MigrationParityV2Record {
    open spec fn ranked(&self, other: &Self) -> Rank {
        rank_text(self.identity@, other.identity@)
    }

    proof fn rank_reflexive(a: &Self) {
        String::rank_reflexive(&a.identity);
    }

    proof fn rank_antisymmetric(a: &Self, b: &Self) {
        String::rank_antisymmetric(&a.identity, &b.identity);
    }

    proof fn rank_transitive(a: &Self, b: &Self, c: &Self) {
        String::rank_transitive(&a.identity, &b.identity, &c.identity);
    }

    fn rank(&self, other: &Self) -> (rank: Rank) {
        rank_str(self.identity.as_str(), other.identity.as_str())
    }
}

/// What became of the vector indexes.
#[derive(Debug, Clone, PartialEq, Eq)]
pub struct MigrationParityVectorMigrationStats {
    pub adopted_indexes: u64,
    pub rebuilt_indexes: u64,
    pub validated_rows: u64,
    pub validated_bytes: u64,
    pub logical_output_operations: u64,
    pub logical_output_bytes: u64,
    pub reused_physical_ids: Vec<u64>,
}

/// What a [`MigrationParityVectorMigrationStats`] says.
#[verifier::ext_equal]
pub ghost struct VectorStatsModel {
    pub adopted_indexes: u64,
    pub rebuilt_indexes: u64,
    pub validated_rows: u64,
    pub validated_bytes: u64,
    pub logical_output_operations: u64,
    pub logical_output_bytes: u64,
    pub reused_physical_ids: Seq<u64>,
}

impl View for MigrationParityVectorMigrationStats {
    type V = VectorStatsModel;

    open spec fn view(&self) -> VectorStatsModel {
        VectorStatsModel {
            adopted_indexes: self.adopted_indexes,
            rebuilt_indexes: self.rebuilt_indexes,
            validated_rows: self.validated_rows,
            validated_bytes: self.validated_bytes,
            logical_output_operations: self.logical_output_operations,
            logical_output_bytes: self.logical_output_bytes,
            reused_physical_ids: self.reused_physical_ids@,
        }
    }
}

/// The index catalog and lifecycle state.
#[derive(Debug, Clone)]
pub struct MigrationParityV2State {
    pub storage_version: Option<u16>,
    pub canonical_records: Vec<MigrationParityV2Record>,
    pub operation_statuses: Vec<String>,
    pub scoped_row_counts: TextMap<u64>,
    pub global_row_counts: TextMap<u64>,
    pub runtime_active_identities: Vec<String>,
    pub legacy_definition_rows: u64,
    pub pending_operation_pointers: u64,
    pub vector_migration: MigrationParityVectorMigrationStats,
    pub text_corpus_statistics: Vec<MigrationParityTextCorpusStatistics>,
    pub text_term_statistics: Vec<MigrationParityTextTermStatistics>,
    pub text_entity_statistics: Vec<MigrationParityTextEntityStatistics>,
}

/// What a contribution row says.
pub ghost struct EntityStatisticsModel {
    pub owner: TextEntityKeyModel,
    pub contribution: MigrationParityTextEntityContribution,
}

/// Whose contribution a row is.
pub ghost struct TextEntityKeyModel {
    pub index_id: u64,
    pub generation: u64,
    pub entity_kind: Seq<char>,
    pub entity_id: u64,
}

/// Whose contribution a key names.
pub open spec fn entity_key_model(key: TextEntityKey) -> TextEntityKeyModel {
    TextEntityKeyModel {
        index_id: key.index_id,
        generation: key.generation,
        entity_kind: element_name(key.entity_kind),
        entity_id: key.entity_id,
    }
}

/// What a contribution in the evidence says.
pub open spec fn entity_statistics_model(
    statistics: MigrationParityTextEntityStatistics,
) -> EntityStatisticsModel {
    EntityStatisticsModel {
        owner: TextEntityKeyModel {
            index_id: statistics.index_id,
            generation: statistics.generation,
            entity_kind: statistics.entity_kind@,
            entity_id: statistics.entity_id,
        },
        contribution: statistics.contribution,
    }
}

/// What a [`MigrationParityV2State`] says.
#[verifier::ext_equal]
pub ghost struct V2Model {
    pub storage_version: Option<u16>,
    pub canonical_records: Seq<RecordModel>,
    pub operation_statuses: Seq<Seq<char>>,
    pub scoped_row_counts: Map<Seq<char>, u64>,
    pub global_row_counts: Map<Seq<char>, u64>,
    pub runtime_active_identities: Seq<Seq<char>>,
    pub legacy_definition_rows: u64,
    pub pending_operation_pointers: u64,
    pub vector_migration: VectorStatsModel,
    pub text_corpus_statistics: Seq<MigrationParityTextCorpusStatistics>,
    pub text_term_statistics: Seq<MigrationParityTextTermStatistics>,
    pub text_entity_statistics: Seq<EntityStatisticsModel>,
}

/// What the records say.
pub open spec fn records_model(records: Seq<MigrationParityV2Record>) -> Seq<RecordModel> {
    records.map_values(|record: MigrationParityV2Record| record.model())
}

/// What the contributions say.
pub open spec fn entities_model(rows: Seq<MigrationParityTextEntityStatistics>) -> Seq<
    EntityStatisticsModel,
> {
    rows.map_values(|row: MigrationParityTextEntityStatistics| entity_statistics_model(row))
}

impl View for MigrationParityV2State {
    type V = V2Model;

    open spec fn view(&self) -> V2Model {
        V2Model {
            storage_version: self.storage_version,
            canonical_records: records_model(self.canonical_records@),
            operation_statuses: texts_of(self.operation_statuses@),
            scoped_row_counts: self.scoped_row_counts@,
            global_row_counts: self.global_row_counts@,
            runtime_active_identities: texts_of(self.runtime_active_identities@),
            legacy_definition_rows: self.legacy_definition_rows,
            pending_operation_pointers: self.pending_operation_pointers,
            vector_migration: self.vector_migration@,
            text_corpus_statistics: self.text_corpus_statistics@,
            text_term_statistics: self.text_term_statistics@,
            text_entity_statistics: entities_model(self.text_entity_statistics@),
        }
    }
}

/// The state of an empty catalog.
pub open spec fn empty_state() -> V2Model {
    V2Model {
        storage_version: None,
        canonical_records: Seq::empty(),
        operation_statuses: Seq::empty(),
        scoped_row_counts: Map::empty(),
        global_row_counts: Map::empty(),
        runtime_active_identities: Seq::empty(),
        legacy_definition_rows: 0,
        pending_operation_pointers: 0,
        vector_migration: VectorStatsModel {
            adopted_indexes: 0,
            rebuilt_indexes: 0,
            validated_rows: 0,
            validated_bytes: 0,
            logical_output_operations: 0,
            logical_output_bytes: 0,
            reused_physical_ids: Seq::empty(),
        },
        text_corpus_statistics: Seq::empty(),
        text_term_statistics: Seq::empty(),
        text_entity_statistics: Seq::empty(),
    }
}

impl Default for MigrationParityV2State {
    fn default() -> (state: Self)
        ensures
            state@ == empty_state(),
    {
        let state = MigrationParityV2State {
            storage_version: None,
            canonical_records: Vec::new(),
            operation_statuses: Vec::new(),
            scoped_row_counts: TextMap::new(),
            global_row_counts: TextMap::new(),
            runtime_active_identities: Vec::new(),
            legacy_definition_rows: 0,
            pending_operation_pointers: 0,
            vector_migration: MigrationParityVectorMigrationStats {
                adopted_indexes: 0,
                rebuilt_indexes: 0,
                validated_rows: 0,
                validated_bytes: 0,
                logical_output_operations: 0,
                logical_output_bytes: 0,
                reused_physical_ids: Vec::new(),
            },
            text_corpus_statistics: Vec::new(),
            text_term_statistics: Vec::new(),
            text_entity_statistics: Vec::new(),
        };
        proof {
            assert(state@.canonical_records =~= Seq::<RecordModel>::empty());
            assert(state@.operation_statuses =~= Seq::<Seq<char>>::empty());
            assert(state@.runtime_active_identities =~= Seq::<Seq<char>>::empty());
            assert(state@.vector_migration.reused_physical_ids =~= Seq::<u64>::empty());
            assert(state@.text_corpus_statistics =~= Seq::<
                MigrationParityTextCorpusStatistics,
            >::empty());
            assert(state@.text_term_statistics =~= Seq::<
                MigrationParityTextTermStatistics,
            >::empty());
            assert(state@.text_entity_statistics =~= Seq::<EntityStatisticsModel>::empty());
        }
        state
    }
}

/// What a vector build has read.
#[derive(Debug, Clone, Copy, PartialEq, Eq, Structural)]
pub struct BuildCounters {
    pub entities: u64,
    pub input_bytes: u64,
}

/// A vector build that has succeeded and is ready to serve.
#[derive(Debug, Clone, Copy, PartialEq, Eq, Structural)]
pub struct CompletedVectorBuild {
    pub index_id: u64,
    pub generation: u64,
    pub counters: BuildCounters,
}

/// What an operation has come to.
#[derive(Debug, Clone, Copy, PartialEq, Eq, Structural)]
pub enum OperationOutcome {
    /// The operation has not completed.
    Unfinished,
    /// The operation is a build, and has succeeded.
    BuildSucceeded,
    /// The operation has completed in another way.
    Other,
}

/// How far an operation has come.
#[derive(Debug, Clone, Copy, PartialEq, Eq, Structural)]
pub enum OperationProgress {
    /// A vector build that is constructed and being activated.
    VectorActivate { counters: BuildCounters },
    /// A vector build at another stage.
    VectorBuild,
    /// An operation of another kind.
    Other,
}

/// The vector build that an operation has completed, if it has: the build has
/// succeeded, and its construction had come to the activation.
pub open spec fn vector_build_of(
    index_id: u64,
    generation: u64,
    outcome: OperationOutcome,
    progress: OperationProgress,
) -> Option<CompletedVectorBuild> {
    if outcome is BuildSucceeded && progress is VectorActivate {
        Some(CompletedVectorBuild { index_id, generation, counters: progress->counters })
    } else {
        None
    }
}

/// The vector build that an operation has completed, if it has.
pub fn completed_vector_build(
    index_id: u64,
    generation: u64,
    outcome: OperationOutcome,
    progress: OperationProgress,
) -> (build: Option<CompletedVectorBuild>)
    ensures
        build == vector_build_of(index_id, generation, outcome, progress),
{
    match (outcome, progress) {
        (OperationOutcome::BuildSucceeded, OperationProgress::VectorActivate { counters }) => Some(
            CompletedVectorBuild { index_id, generation, counters },
        ),
        _ => None,
    }
}

/// An operation as its row holds it.
#[derive(Debug)]
pub struct OperationRow {
    pub index_id: u64,
    pub generation: u64,
    pub outcome: OperationOutcome,
    pub progress: OperationProgress,
    /// The status of the operation in the form that evidence records it.
    pub status: String,
}

impl OperationRow {
    /// The vector build that the operation has completed, if it has.
    pub open spec fn build(self) -> Option<CompletedVectorBuild> {
        vector_build_of(self.index_id, self.generation, self.outcome, self.progress)
    }
}

/// An index record as its row holds it.
#[derive(Debug)]
pub struct IndexRecordRow {
    pub identity: IndexIdentity,
    pub definition: IndexDefinition,
    pub index_id: u64,
    pub revision: u64,
    /// The name of the record's state.
    pub state: String,
    pub generation: u64,
    pub physical: Option<String>,
}

/// One row of the scoped scan.
#[derive(Debug)]
pub enum ScopedRow {
    IndexRecord(IndexRecordRow),
    Operation(OperationRow),
    TextCorpusStatistics { key: TextCorpusKey, row: TextCorpusRow },
    TextTermStatistics { key: TextTermKey, row: TextTermRow },
    TextStatisticsEntity { key: TextEntityKey, row: TextEntityRow },
    /// A row that is only counted.
    Other,
}

/// What a reservation of a physical vector namespace says.
#[derive(Debug, Clone, Copy, PartialEq, Eq, Structural)]
pub enum VectorReservation {
    /// The row holds another kind of value.
    AnotherValue,
    /// The namespace serves an index.
    AdoptedActive { index_id: u64, generation: u64 },
    /// The namespace serves no index.
    NotAdopted,
}

/// One row of the global scan.
#[derive(Debug, Clone, Copy, PartialEq, Eq, Structural)]
pub enum GlobalRow {
    /// The version, unless the row holds another kind of value.
    StorageVersion(Option<u16>),
    OperationPointer,
    VectorReservation { physical_id: u64, reservation: VectorReservation },
    /// A row that is only counted.
    Other,
}

/// What has to follow a row of the global scan.
#[derive(Debug, Clone, Copy, PartialEq, Eq, Structural)]
pub enum GlobalNext {
    /// The next row.
    Continue,
    /// The metadata row of the namespace, to be recorded before the next row.
    ReadVectorMetadata { physical_id: u64 },
}

/// A scan of the catalog under way.
#[derive(Debug)]
pub struct V2Scan {
    pub state: MigrationParityV2State,
    pub completed_vector_builds: AssocMap<(u64, u64), BuildCounters>,
}

/// What a [`V2Scan`] has seen.
#[verifier::ext_equal]
pub ghost struct ScanModel {
    pub state: V2Model,
    pub builds: Map<(u64, u64), BuildCounters>,
}

impl View for V2Scan {
    type V = ScanModel;

    open spec fn view(&self) -> ScanModel {
        ScanModel { state: self.state@, builds: self.completed_vector_builds@ }
    }
}

/// What is wrong with a scoped row, if anything is.
pub open spec fn scoped_fault(row: ScopedRow) -> Option<HelixDbErrorView> {
    match row {
        ScopedRow::TextCorpusStatistics { key, row } => if corpus_row_owned(key, row) {
            None
        } else {
            Some(
                HelixDbErrorView::InvariantViolation(
                    "text corpus-statistics key/value ownership mismatch"@,
                ),
            )
        },
        ScopedRow::TextTermStatistics { key, row } => if term_row_owned(key, row) {
            None
        } else {
            Some(
                HelixDbErrorView::InvariantViolation(
                    "text term-statistics key/value ownership mismatch"@,
                ),
            )
        },
        ScopedRow::TextStatisticsEntity { key, row } => if row.owner == key {
            None
        } else {
            Some(
                HelixDbErrorView::InvariantViolation(
                    "text entity-statistics key/value ownership mismatch"@,
                ),
            )
        },
        _ => None,
    }
}

/// The scan with one more row of the kind counted.
pub open spec fn scoped_counted(scan: ScanModel, kind: Seq<char>) -> ScanModel {
    ScanModel {
        state: V2Model {
            scoped_row_counts: counted(scan.state.scoped_row_counts, kind),
            ..scan.state
        },
        ..scan
    }
}

/// The scan with the content of a scoped row added.
pub open spec fn scoped_recorded(scan: ScanModel, row: ScopedRow) -> ScanModel {
    match row {
        ScopedRow::IndexRecord(record) => ScanModel {
            state: V2Model {
                runtime_active_identities: if record.state@ == "active"@ {
                    scan.state.runtime_active_identities.push(identity_text(record.identity))
                } else {
                    scan.state.runtime_active_identities
                },
                canonical_records: scan.state.canonical_records.push(
                    RecordModel {
                        identity: identity_text(record.identity),
                        definition: definition_fields(record.definition),
                        index_id: record.index_id,
                        revision: record.revision,
                        state: record.state@,
                        generation: record.generation,
                        physical: record.physical,
                    },
                ),
                ..scan.state
            },
            ..scan
        },
        ScopedRow::Operation(operation) => ScanModel {
            state: V2Model {
                operation_statuses: scan.state.operation_statuses.push(operation.status@),
                ..scan.state
            },
            builds: match operation.build() {
                Some(build) => scan.builds.insert(
                    (build.index_id, build.generation),
                    build.counters,
                ),
                None => scan.builds,
            },
        },
        ScopedRow::TextCorpusStatistics { key, row } => ScanModel {
            state: V2Model {
                text_corpus_statistics: scan.state.text_corpus_statistics.push(
                    MigrationParityTextCorpusStatistics {
                        index_id: row.index_id,
                        generation: row.generation,
                        partition_bytes: row.partition_bytes,
                        document_count: row.document_count,
                        total_token_count: row.total_token_count,
                    },
                ),
                ..scan.state
            },
            ..scan
        },
        ScopedRow::TextTermStatistics { key, row } => ScanModel {
            state: V2Model {
                text_term_statistics: scan.state.text_term_statistics.push(
                    MigrationParityTextTermStatistics {
                        index_id: row.index_id,
                        generation: row.generation,
                        partition_bytes: row.partition_bytes,
                        term: row.term,
                        document_frequency: row.document_frequency,
                    },
                ),
                ..scan.state
            },
            ..scan
        },
        ScopedRow::TextStatisticsEntity { key, row } => ScanModel {
            state: V2Model {
                text_entity_statistics: scan.state.text_entity_statistics.push(
                    EntityStatisticsModel {
                        owner: entity_key_model(key),
                        contribution: row.contribution,
                    },
                ),
                ..scan.state
            },
            ..scan
        },
        ScopedRow::Other => scan,
    }
}

/// What is wrong with adopting a vector namespace, if anything is.
pub open spec fn adoption_fault(scan: ScanModel, index_id: u64, generation: u64) -> Option<
    Seq<char>,
> {
    let stats = scan.state.vector_migration;
    if stats.adopted_indexes == u64::MAX {
        Some("adopted vector parity count overflowed"@)
    } else if !scan.builds.dom().contains((index_id, generation)) {
        Some("adopted vector has no retained completed build operation"@)
    } else if stats.validated_rows + scan.builds[(index_id, generation)].entities > u64::MAX {
        Some("adopted vector validated row count overflowed"@)
    } else if stats.validated_bytes + scan.builds[(index_id, generation)].input_bytes > u64::MAX {
        Some("adopted vector validated byte count overflowed"@)
    } else {
        None
    }
}

/// The scan after a vector namespace has been adopted for its completed build.
pub open spec fn adopted(
    scan: ScanModel,
    physical_id: u64,
    index_id: u64,
    generation: u64,
) -> ScanModel {
    let stats = scan.state.vector_migration;
    let counters = scan.builds[(index_id, generation)];
    ScanModel {
        state: V2Model {
            vector_migration: VectorStatsModel {
                adopted_indexes: (stats.adopted_indexes + 1) as u64,
                validated_rows: (stats.validated_rows + counters.entities) as u64,
                validated_bytes: (stats.validated_bytes + counters.input_bytes) as u64,
                reused_physical_ids: stats.reused_physical_ids.push(physical_id),
                ..stats
            },
            ..scan.state
        },
        builds: scan.builds.remove((index_id, generation)),
    }
}

/// The scan where an adoption has stopped: what was counted before the fault
/// stays counted.
pub open spec fn adoption_stopped(
    scan: ScanModel,
    physical_id: u64,
    index_id: u64,
    generation: u64,
) -> ScanModel {
    let stats = scan.state.vector_migration;
    if stats.adopted_indexes == u64::MAX {
        scan
    } else {
        let named = VectorStatsModel {
            adopted_indexes: (stats.adopted_indexes + 1) as u64,
            reused_physical_ids: stats.reused_physical_ids.push(physical_id),
            ..stats
        };
        if !scan.builds.dom().contains((index_id, generation)) {
            ScanModel { state: V2Model { vector_migration: named, ..scan.state }, ..scan }
        } else {
            let rows = stats.validated_rows + scan.builds[(index_id, generation)].entities;
            ScanModel {
                state: V2Model {
                    vector_migration: if rows > u64::MAX {
                        named
                    } else {
                        VectorStatsModel { validated_rows: rows as u64, ..named }
                    },
                    ..scan.state
                },
                builds: scan.builds.remove((index_id, generation)),
            }
        }
    }
}

/// The scan with one more global row of the kind counted.
pub open spec fn global_counted(scan: ScanModel, kind: Seq<char>) -> ScanModel {
    ScanModel {
        state: V2Model {
            global_row_counts: counted(scan.state.global_row_counts, kind),
            ..scan.state
        },
        ..scan
    }
}

/// What is wrong with a global row, if anything is.
pub open spec fn global_fault(scan: ScanModel, row: GlobalRow) -> Option<HelixDbErrorView> {
    match row {
        GlobalRow::StorageVersion(None) => Some(
            HelixDbErrorView::InvariantViolation(
                "storage-version key contains another metadata value"@,
            ),
        ),
        GlobalRow::VectorReservation { physical_id, reservation } => match reservation {
            VectorReservation::AnotherValue => Some(
                HelixDbErrorView::InvariantViolation(
                    "vector reservation key contains another metadata value"@,
                ),
            ),
            VectorReservation::AdoptedActive { index_id, generation } => match adoption_fault(
                scan,
                index_id,
                generation,
            ) {
                Some(text) => Some(HelixDbErrorView::InvariantViolation(text)),
                None => None,
            },
            VectorReservation::NotAdopted => None,
        },
        _ => None,
    }
}

/// The scan with the content of a global row added.
pub open spec fn global_recorded(scan: ScanModel, row: GlobalRow) -> ScanModel {
    match row {
        GlobalRow::StorageVersion(version) => ScanModel {
            state: V2Model { storage_version: version, ..scan.state },
            ..scan
        },
        GlobalRow::OperationPointer => ScanModel {
            state: V2Model {
                pending_operation_pointers: (scan.state.pending_operation_pointers + 1) as u64,
                ..scan.state
            },
            ..scan
        },
        GlobalRow::VectorReservation { physical_id, reservation } => match reservation {
            VectorReservation::AdoptedActive { index_id, generation } => adopted(
                scan,
                physical_id,
                index_id,
                generation,
            ),
            _ => scan,
        },
        GlobalRow::Other => scan,
    }
}

/// The scan after a global row with a fault.
pub open spec fn global_stopped(scan: ScanModel, row: GlobalRow) -> ScanModel {
    match row {
        GlobalRow::VectorReservation {
            physical_id,
            reservation: VectorReservation::AdoptedActive { index_id, generation },
        } => adoption_stopped(scan, physical_id, index_id, generation),
        _ => scan,
    }
}

/// What has to follow a global row.
pub open spec fn next_of_global(row: GlobalRow) -> GlobalNext {
    match row {
        GlobalRow::VectorReservation {
            physical_id,
            reservation: VectorReservation::AdoptedActive { .. },
        } => GlobalNext::ReadVectorMetadata { physical_id },
        _ => GlobalNext::Continue,
    }
}

/// What is wrong with the metadata of an adopted namespace, if anything is.
pub open spec fn metadata_fault(
    stats: VectorStatsModel,
    key_len: usize,
    value_len: Option<usize>,
) -> Option<Seq<char>> {
    match value_len {
        None => Some("adopted vector metadata is absent from its physical namespace"@),
        Some(value_len) => if stats.logical_output_operations == u64::MAX {
            Some("adopted vector logical output operation count overflowed"@)
        } else if stats.logical_output_bytes + encoded_len(key_len, value_len) > u64::MAX {
            Some("adopted vector logical output byte count overflowed"@)
        } else {
            None
        },
    }
}

/// The length of a row: that of its key and that of its value, up to the
/// largest size.
pub open spec fn encoded_len(key_len: usize, value_len: usize) -> int {
    if key_len + value_len > usize::MAX {
        usize::MAX as int
    } else {
        key_len + value_len
    }
}

/// The scan with the metadata row of an adopted namespace added.
pub open spec fn metadata_recorded(scan: ScanModel, key_len: usize, value_len: usize) -> ScanModel {
    let stats = scan.state.vector_migration;
    ScanModel {
        state: V2Model {
            vector_migration: VectorStatsModel {
                logical_output_operations: (stats.logical_output_operations + 1) as u64,
                logical_output_bytes: (stats.logical_output_bytes + encoded_len(
                    key_len,
                    value_len,
                )) as u64,
                ..stats
            },
            ..scan.state
        },
        ..scan
    }
}

/// The scan after a metadata row with a fault: an output that is only too long
/// is counted.
pub open spec fn metadata_stopped(scan: ScanModel, value_len: Option<usize>) -> ScanModel {
    let stats = scan.state.vector_migration;
    if value_len is None || stats.logical_output_operations == u64::MAX {
        scan
    } else {
        ScanModel {
            state: V2Model {
                vector_migration: VectorStatsModel {
                    logical_output_operations: (stats.logical_output_operations + 1) as u64,
                    ..stats
                },
                ..scan.state
            },
            ..scan
        }
    }
}

/// Both scans list the same things, in whatever order, and agree otherwise.
pub open spec fn reorders(before: ScanModel, after: ScanModel) -> bool {
    &&& after.state.canonical_records.to_multiset() == before.state.canonical_records.to_multiset()
    &&& after.state.runtime_active_identities.to_multiset()
        == before.state.runtime_active_identities.to_multiset()
    &&& after.state.operation_statuses.to_multiset()
        == before.state.operation_statuses.to_multiset()
    &&& after.state.text_corpus_statistics.to_multiset()
        == before.state.text_corpus_statistics.to_multiset()
    &&& after.state.text_term_statistics.to_multiset()
        == before.state.text_term_statistics.to_multiset()
    &&& after.state.text_entity_statistics.to_multiset()
        == before.state.text_entity_statistics.to_multiset()
    &&& after == (ScanModel {
        state: V2Model {
            canonical_records: after.state.canonical_records,
            runtime_active_identities: after.state.runtime_active_identities,
            operation_statuses: after.state.operation_statuses,
            text_corpus_statistics: after.state.text_corpus_statistics,
            text_term_statistics: after.state.text_term_statistics,
            text_entity_statistics: after.state.text_entity_statistics,
            ..before.state
        },
        ..before
    })
}

/// The vector statistics are complete: builds that no namespace was adopted for
/// were rebuilt, and the namespaces stand in order.
pub open spec fn completes(before: ScanModel, after: ScanModel) -> bool {
    &&& before.builds.dom().finite()
    &&& after.state.vector_migration.rebuilt_indexes == before.builds.dom().len()
    &&& after == (ScanModel {
        state: V2Model {
            vector_migration: VectorStatsModel {
                rebuilt_indexes: after.state.vector_migration.rebuilt_indexes,
                reused_physical_ids: sort_ranked(
                    before.state.vector_migration.reused_physical_ids,
                ),
                ..before.state.vector_migration
            },
            ..before.state
        },
        ..before
    })
}

fn push_string(texts: &mut Vec<String>, text: String)
    ensures
        texts_of(final(texts)@) == texts_of(old(texts)@).push(text@),
{
    let ghost before = texts@;
    texts.push(text);
    assert(texts_of(texts@) =~= texts_of(before).push(text@));
}

impl V2Scan {
    /// A scan that has seen nothing.
    pub fn new() -> (scan: Self)
        ensures
            scan@ == (ScanModel { state: empty_state(), builds: Map::empty() }),
    {
        V2Scan {
            state: MigrationParityV2State::default(),
            completed_vector_builds: AssocMap::new(),
        }
    }

    fn record_index(&mut self, record: IndexRecordRow)
        ensures
            final(self)@ == scoped_recorded(old(self)@, ScopedRow::IndexRecord(record)),
    {
        let identity = parity_identity(&record.identity);
        if same_text(record.state.as_str(), "active") {
            push_string(
                &mut self.state.runtime_active_identities,
                identity.as_str().to_owned(),
            );
        }
        let definition = parity_definition(&record.definition);
        let ghost before = self.state.canonical_records@;
        let parity = MigrationParityV2Record {
            identity,
            definition,
            index_id: record.index_id,
            revision: record.revision,
            state: record.state,
            generation: record.generation,
            physical: record.physical,
        };
        self.state.canonical_records.push(parity);
        assert(records_model(self.state.canonical_records@) =~= records_model(before).push(
            parity.model(),
        ));
    }

    /// Takes one row of the scoped scan. A row whose value belongs to another
    /// key is counted and reported.
    pub fn record_scoped_row(&mut self, kind: &str, row: ScopedRow) -> (recorded: Result<
        (),
        HelixDbError,
    >)
        ensures
            match recorded {
                Ok(_) => scoped_fault(row) is None && final(self)@ == scoped_recorded(
                    scoped_counted(old(self)@, kind@),
                    row,
                ),
                Err(error) => scoped_fault(row) == Some(error@) && final(self)@ == scoped_counted(
                    old(self)@,
                    kind@,
                ),
            },
    {
        increment_count(&mut self.state.scoped_row_counts, kind);
        match row {
            ScopedRow::IndexRecord(record) => {
                self.record_index(record);
                Ok(())
            },
            ScopedRow::Operation(operation) => {
                let completed = completed_vector_build(
                    operation.index_id,
                    operation.generation,
                    operation.outcome,
                    operation.progress,
                );
                match completed {
                    Some(build) => {
                        self.completed_vector_builds.insert(
                            (build.index_id, build.generation),
                            build.counters,
                        );
                    },
                    None => {},
                }
                push_string(&mut self.state.operation_statuses, operation.status);
                Ok(())
            },
            ScopedRow::TextCorpusStatistics { key, row } => match text_corpus_statistics(
                &key,
                row,
            ) {
                Ok(statistics) => {
                    self.state.text_corpus_statistics.push(statistics);
                    Ok(())
                },
                Err(error) => Err(error),
            },
            ScopedRow::TextTermStatistics { key, row } => match text_term_statistics(&key, row) {
                Ok(statistics) => {
                    self.state.text_term_statistics.push(statistics);
                    Ok(())
                },
                Err(error) => Err(error),
            },
            ScopedRow::TextStatisticsEntity { key, row } => match text_entity_statistics(
                &key,
                row,
            ) {
                Ok(statistics) => {
                    let ghost before = self.state.text_entity_statistics@;
                    self.state.text_entity_statistics.push(statistics);
                    assert(entities_model(self.state.text_entity_statistics@) =~= entities_model(
                        before,
                    ).push(entity_statistics_model(statistics)));
                    Ok(())
                },
                Err(error) => Err(error),
            },
            ScopedRow::Other => Ok(()),
        }
    }

    /// Puts the lists in order once all scoped rows are in: records by their
    /// identity, everything else by all it says.
    pub fn finish_scoped_rows(&mut self)
        ensures
            final(self).state.canonical_records@ == sort_ranked(old(self).state.canonical_records@),
            final(self).state.runtime_active_identities@ == sort_ranked(
                old(self).state.runtime_active_identities@,
            ),
            final(self).state.operation_statuses@ == sort_ranked(
                old(self).state.operation_statuses@,
            ),
            final(self).state.text_corpus_statistics@ == sort_ranked(
                old(self).state.text_corpus_statistics@,
            ),
            final(self).state.text_term_statistics@ == sort_ranked(
                old(self).state.text_term_statistics@,
            ),
            final(self).state.text_entity_statistics@ == sort_ranked(
                old(self).state.text_entity_statistics@,
            ),
            reorders(old(self)@, final(self)@),
    {
        proof {
            lemma_sort_ranked_mapped(
                self.state.canonical_records@,
                |record: MigrationParityV2Record| record.model(),
            );
            lemma_sort_ranked_mapped(
                self.state.runtime_active_identities@,
                |text: String| text@,
            );
            lemma_sort_ranked_mapped(self.state.operation_statuses@, |text: String| text@);
            lemma_sort_ranked(self.state.text_corpus_statistics@);
            lemma_sort_ranked(self.state.text_term_statistics@);
            lemma_sort_ranked_mapped(
                self.state.text_entity_statistics@,
                |statistics: MigrationParityTextEntityStatistics|
                    entity_statistics_model(statistics),
            );
        }
        sort_values(&mut self.state.canonical_records);
        sort_values(&mut self.state.runtime_active_identities);
        sort_values(&mut self.state.operation_statuses);
        sort_values(&mut self.state.text_corpus_statistics);
        sort_values(&mut self.state.text_term_statistics);
        sort_values(&mut self.state.text_entity_statistics);
    }

    /// Adopts a vector namespace for the completed build that it serves.
    fn adopt(&mut self, physical_id: u64, index_id: u64, generation: u64) -> (adoption: Result<
        (),
        HelixDbError,
    >)
        ensures
            match adoption {
                Ok(_) => adoption_fault(old(self)@, index_id, generation) is None && final(self)@
                    == adopted(old(self)@, physical_id, index_id, generation),
                Err(error) => {
                    &&& adoption_fault(old(self)@, index_id, generation) matches Some(text)
                    &&& error@ == HelixDbErrorView::InvariantViolation(text)
                    &&& final(self)@ == adoption_stopped(
                        old(self)@,
                        physical_id,
                        index_id,
                        generation,
                    )
                },
            },
    {
        let adopted_indexes = match self.state.vector_migration.adopted_indexes.checked_add(1) {
            Some(count) => count,
            None => {
                return Err(invariant_violation("adopted vector parity count overflowed"));
            },
        };
        self.state.vector_migration.adopted_indexes = adopted_indexes;
        self.state.vector_migration.reused_physical_ids.push(physical_id);
        let counters = match self.completed_vector_builds.take(&(index_id, generation)) {
            Some(counters) => counters,
            None => {
                return Err(
                    invariant_violation("adopted vector has no retained completed build operation"),
                );
            },
        };
        match self.state.vector_migration.validated_rows.checked_add(counters.entities) {
            Some(rows) => {
                self.state.vector_migration.validated_rows = rows;
            },
            None => {
                return Err(invariant_violation("adopted vector validated row count overflowed"));
            },
        }
        match self.state.vector_migration.validated_bytes.checked_add(counters.input_bytes) {
            Some(bytes) => {
                self.state.vector_migration.validated_bytes = bytes;
            },
            None => {
                return Err(invariant_violation("adopted vector validated byte count overflowed"));
            },
        }
        Ok(())
    }

    /// Takes one row of the global scan and tells what has to follow it.
    pub fn record_global_row(&mut self, kind: &str, row: GlobalRow) -> (recorded: Result<
        GlobalNext,
        HelixDbError,
    >)
        requires
            row is OperationPointer ==> old(self)@.state.pending_operation_pointers < u64::MAX,
        ensures
            ({
                let seen = global_counted(old(self)@, kind@);
                match recorded {
                    Ok(next) => {
                        &&& global_fault(seen, row) is None
                        &&& final(self)@ == global_recorded(seen, row)
                        &&& next == next_of_global(row)
                    },
                    Err(error) => {
                        &&& global_fault(seen, row) == Some(error@)
                        &&& final(self)@ == global_stopped(seen, row)
                    },
                }
            }),
    {
        increment_count(&mut self.state.global_row_counts, kind);
        match row {
            GlobalRow::StorageVersion(version) => match version {
                Some(version) => {
                    self.state.storage_version = Some(version);
                    Ok(GlobalNext::Continue)
                },
                None => Err(
                    invariant_violation("storage-version key contains another metadata value"),
                ),
            },
            GlobalRow::OperationPointer => {
                self.state.pending_operation_pointers = self.state.pending_operation_pointers + 1;
                Ok(GlobalNext::Continue)
            },
            GlobalRow::VectorReservation { physical_id, reservation } => match reservation {
                VectorReservation::AnotherValue => Err(
                    invariant_violation("vector reservation key contains another metadata value"),
                ),
                VectorReservation::AdoptedActive { index_id, generation } => match self.adopt(
                    physical_id,
                    index_id,
                    generation,
                ) {
                    Ok(_) => Ok(GlobalNext::ReadVectorMetadata { physical_id }),
                    Err(error) => Err(error),
                },
                VectorReservation::NotAdopted => Ok(GlobalNext::Continue),
            },
            GlobalRow::Other => Ok(GlobalNext::Continue),
        }
    }

    /// Takes the metadata row of an adopted namespace, by the lengths of its
    /// key and of its value; a missing row has no value.
    pub fn record_adopted_metadata(&mut self, key_len: usize, value_len: Option<usize>) -> (recorded:
        Result<(), HelixDbError>)
        ensures
            match recorded {
                Ok(_) => {
                    &&& metadata_fault(
                        old(self)@.state.vector_migration,
                        key_len,
                        value_len,
                    ) is None
                    &&& value_len matches Some(value_len)
                    &&& final(self)@ == metadata_recorded(old(self)@, key_len, value_len)
                },
                Err(error) => {
                    &&& metadata_fault(
                        old(self)@.state.vector_migration,
                        key_len,
                        value_len,
                    ) matches Some(text)
                    &&& error@ == HelixDbErrorView::InvariantViolation(text)
                    &&& final(self)@ == metadata_stopped(old(self)@, value_len)
                },
            },
    {
        let value_len = match value_len {
            Some(value_len) => value_len,
            None => {
                return Err(
                    invariant_violation(
                        "adopted vector metadata is absent from its physical namespace",
                    ),
                );
            },
        };
        match self.state.vector_migration.logical_output_operations.checked_add(1) {
            Some(operations) => {
                self.state.vector_migration.logical_output_operations = operations;
            },
            None => {
                return Err(
                    invariant_violation("adopted vector logical output operation count overflowed"),
                );
            },
        }
        let encoded = key_len.saturating_add(value_len) as u64;
        match self.state.vector_migration.logical_output_bytes.checked_add(encoded) {
            Some(bytes) => {
                self.state.vector_migration.logical_output_bytes = bytes;
            },
            None => {
                return Err(
                    invariant_violation("adopted vector logical output byte count overflowed"),
                );
            },
        }
        Ok(())
    }

    /// Completes the vector statistics once all global rows are in: builds that
    /// no namespace was adopted for were rebuilt.
    pub fn finish_global_rows(&mut self)
        ensures
            completes(old(self)@, final(self)@),
    {
        self.state.vector_migration.rebuilt_indexes = self.completed_vector_builds.len() as u64;
        sort_values(&mut self.state.vector_migration.reused_physical_ids);
    }

    /// Takes one row of the legacy definition scan.
    pub fn record_legacy_definition(&mut self)
        requires
            old(self)@.state.legacy_definition_rows < u64::MAX,
        ensures
            final(self)@ == (ScanModel {
                state: V2Model {
                    legacy_definition_rows: (old(self)@.state.legacy_definition_rows + 1) as u64,
                    ..old(self)@.state
                },
                ..old(self)@
            }),
    {
        self.state.legacy_definition_rows = self.state.legacy_definition_rows + 1;
    }
}

/// Every completed vector build is either adopted or left to be counted as
/// rebuilt: an adoption moves exactly one build from one side to the other.
pub proof fn law_adoption_accounts_for_each_build(
    scan: ScanModel,
    physical_id: u64,
    index_id: u64,
    generation: u64,
)
    requires
        scan.builds.dom().finite(),
        adoption_fault(scan, index_id, generation) is None,
    ensures
        ({
            let after = adopted(scan, physical_id, index_id, generation);
            &&& after.state.vector_migration.adopted_indexes + after.builds.dom().len()
                == scan.state.vector_migration.adopted_indexes + scan.builds.dom().len()
            &&& after.state.vector_migration.reused_physical_ids.len()
                == scan.state.vector_migration.reused_physical_ids.len() + 1
            &&& !after.builds.dom().contains((index_id, generation))
        }),
{
    let after = adopted(scan, physical_id, index_id, generation);
    assert(after.builds.dom() =~= scan.builds.dom().remove((index_id, generation)));
}

/// A namespace cannot be adopted twice for one build.
pub proof fn law_build_is_adopted_once(
    scan: ScanModel,
    physical_id: u64,
    index_id: u64,
    generation: u64,
)
    requires
        adoption_fault(scan, index_id, generation) is None,
        scan.state.vector_migration.adopted_indexes + 1 < u64::MAX,
    ensures
        adoption_fault(adopted(scan, physical_id, index_id, generation), index_id, generation)
            == Some("adopted vector has no retained completed build operation"@),
{
}

/// A scoped row as the scan meets it, with the name of its kind.
pub type ScopedEvent = (Seq<char>, ScopedRow);

/// The scan after the scoped rows, before their lists are put in order.
pub open spec fn scoped_scan(events: Seq<ScopedEvent>) -> ScanModel
    decreases events.len(),
{
    if events.len() == 0 {
        ScanModel { state: empty_state(), builds: Map::empty() }
    } else {
        scoped_recorded(
            scoped_counted(scoped_scan(events.drop_last()), events.last().0),
            events.last().1,
        )
    }
}

/// The vector build that a row records as completed, if there is one.
pub open spec fn build_of_row(row: ScopedRow) -> Option<CompletedVectorBuild> {
    match row {
        ScopedRow::Operation(operation) => operation.build(),
        _ => None,
    }
}

/// Whether the row records that the build has completed.
pub open spec fn completes_build(row: ScopedRow, build: (u64, u64)) -> bool {
    build_of_row(row) matches Some(completed) && (completed.index_id, completed.generation) == build
}

/// The builds that the rows record as completed, each once.
pub open spec fn completed_builds(events: Seq<ScopedEvent>) -> Set<(u64, u64)> {
    Set::new(
        |build: (u64, u64)|
            exists|i: int|
                0 <= i < events.len() && completes_build((#[trigger] events[i]).1, build),
    )
}

/// A global row as the scan meets it, with the name of its kind and the lengths
/// of the metadata row that is read if the row adopts a namespace.
pub ghost struct GlobalEvent {
    pub kind: Seq<char>,
    pub row: GlobalRow,
    pub metadata_key_len: usize,
    pub metadata_value_len: Option<usize>,
}

/// The scan after the row itself.
pub open spec fn row_seen(scan: ScanModel, event: GlobalEvent) -> ScanModel {
    global_recorded(global_counted(scan, event.kind), event.row)
}

/// Whether the scan goes on behind the row.
pub open spec fn goes_on(scan: ScanModel, event: GlobalEvent) -> bool {
    &&& global_fault(global_counted(scan, event.kind), event.row) is None
    &&& next_of_global(event.row) is ReadVectorMetadata ==> metadata_fault(
        row_seen(scan, event).state.vector_migration,
        event.metadata_key_len,
        event.metadata_value_len,
    ) is None
}

/// The scan after the row and the metadata row that follows it.
pub open spec fn event_seen(scan: ScanModel, event: GlobalEvent) -> ScanModel {
    match next_of_global(event.row) {
        GlobalNext::Continue => row_seen(scan, event),
        GlobalNext::ReadVectorMetadata { .. } => metadata_recorded(
            row_seen(scan, event),
            event.metadata_key_len,
            event.metadata_value_len->Some_0,
        ),
    }
}

/// The scan after the global rows.
pub open spec fn global_scan(start: ScanModel, events: Seq<GlobalEvent>) -> ScanModel
    decreases events.len(),
{
    if events.len() == 0 {
        start
    } else {
        event_seen(global_scan(start, events.drop_last()), events.last())
    }
}

/// Whether the scan meets no fault in the global rows.
pub open spec fn global_scan_goes_on(start: ScanModel, events: Seq<GlobalEvent>) -> bool
    decreases events.len(),
{
    events.len() == 0 || {
        &&& global_scan_goes_on(start, events.drop_last())
        &&& goes_on(global_scan(start, events.drop_last()), events.last())
    }
}

/// How many of the records are active under the identity.
pub open spec fn active_records(records: Multiset<RecordModel>, identity: Seq<char>) -> nat {
    records.filter(
        |record: RecordModel| record.state == "active"@ && record.identity == identity,
    ).len()
}

/// Every identity is listed as active as often as a record is.
pub open spec fn identities_match(state: V2Model) -> bool {
    forall|identity: Seq<char>| #[trigger]
        state.runtime_active_identities.to_multiset().count(identity) == active_records(
            state.canonical_records.to_multiset(),
            identity,
        )
}

proof fn lemma_active_insert(records: Multiset<RecordModel>, record: RecordModel, identity: Seq<char>)
    ensures
        active_records(records.insert(record), identity) == active_records(records, identity)
            + if record.state == "active"@ && record.identity == identity {
            1nat
        } else {
            0
        },
{
    broadcast use vstd::multiset::group_multiset_axioms;

    let is_active = |record: RecordModel| record.state == "active"@ && record.identity == identity;
    if is_active(record) {
        assert(records.insert(record).filter(is_active) =~= records.filter(is_active).insert(
            record,
        ));
    } else {
        assert(records.insert(record).filter(is_active) =~= records.filter(is_active));
    }
}

proof fn lemma_completed_builds(events: Seq<ScopedEvent>)
    requires
        events.len() > 0,
    ensures
        completed_builds(events) == match build_of_row(events.last().1) {
            Some(build) => completed_builds(events.drop_last()).insert(
                (build.index_id, build.generation),
            ),
            None => completed_builds(events.drop_last()),
        },
{
    let front = events.drop_last();
    assert forall|build: (u64, u64)| #[trigger]
        completed_builds(events).contains(build) <==> completed_builds(front).contains(build)
            || completes_build(events.last().1, build) by {
        if completed_builds(events).contains(build) {
            let i = choose|i: int|
                0 <= i < events.len() && completes_build((#[trigger] events[i]).1, build);
            if i < front.len() {
                assert(front[i] == events[i]);
            }
        }
        if completed_builds(front).contains(build) {
            let i = choose|i: int|
                0 <= i < front.len() && completes_build((#[trigger] front[i]).1, build);
            assert(events[i] == front[i]);
        }
        if completes_build(events.last().1, build) {
            assert(completes_build(events[events.len() - 1].1, build));
        }
    }
    let wanted = match build_of_row(events.last().1) {
        Some(build) => completed_builds(front).insert((build.index_id, build.generation)),
        None => completed_builds(front),
    };
    assert(completed_builds(events) =~= wanted);
}

/// What the scoped rows leave: their completed builds, no adoption, and the
/// identities of the active records.
proof fn lemma_scoped_scan(events: Seq<ScopedEvent>)
    ensures
        ({
            let scan = scoped_scan(events);
            &&& scan.builds.dom() == completed_builds(events)
            &&& scan.builds.dom().finite()
            &&& scan.state.vector_migration == empty_state().vector_migration
            &&& identities_match(scan.state)
        }),
    decreases events.len(),
{
    broadcast use vstd::multiset::group_multiset_axioms;
    broadcast use vstd::seq_lib::group_to_multiset_ensures;

    let scan = scoped_scan(events);
    if events.len() == 0 {
        assert(scan.builds.dom() =~= completed_builds(events));
        assert forall|identity: Seq<char>| #[trigger]
            scan.state.runtime_active_identities.to_multiset().count(identity) == active_records(
                scan.state.canonical_records.to_multiset(),
                identity,
            ) by {
            let is_active = |record: RecordModel|
                record.state == "active"@ && record.identity == identity;
            assert(scan.state.canonical_records.to_multiset() =~= Multiset::empty());
            assert(scan.state.runtime_active_identities.to_multiset() =~= Multiset::empty());
            assert(scan.state.canonical_records.to_multiset().filter(is_active)
                =~= Multiset::empty());
        }
    } else {
        let front = scoped_scan(events.drop_last());
        lemma_scoped_scan(events.drop_last());
        lemma_completed_builds(events);
        assert(scan.builds.dom() =~= completed_builds(events));
        match events.last().1 {
            ScopedRow::IndexRecord(record) => {
                let added = scan.state.canonical_records.last();
                assert(scan.state.canonical_records =~= front.state.canonical_records.push(added));
                assert forall|identity: Seq<char>| #[trigger]
                    scan.state.runtime_active_identities.to_multiset().count(identity)
                        == active_records(
                        scan.state.canonical_records.to_multiset(),
                        identity,
                    ) by {
                    lemma_active_insert(
                        front.state.canonical_records.to_multiset(),
                        added,
                        identity,
                    );
                    assert(front.state.runtime_active_identities.to_multiset().count(identity)
                        == active_records(
                        front.state.canonical_records.to_multiset(),
                        identity,
                    ));
                }
            },
            _ => {
                assert(scan.state.canonical_records == front.state.canonical_records);
                assert(scan.state.runtime_active_identities
                    == front.state.runtime_active_identities);
            },
        }
    }
}

/// Global rows keep the sum of adopted and left builds, count each adoption
/// three times alike, and leave records and identities alone.
proof fn lemma_global_scan(start: ScanModel, events: Seq<GlobalEvent>)
    requires
        start.builds.dom().finite(),
        start.state.vector_migration == empty_state().vector_migration,
        global_scan_goes_on(start, events),
    ensures
        ({
            let scan = global_scan(start, events);
            let stats = scan.state.vector_migration;
            &&& scan.builds.dom().finite()
            &&& scan.builds.dom().subset_of(start.builds.dom())
            &&& stats.adopted_indexes + scan.builds.dom().len() == start.builds.dom().len()
            &&& stats.adopted_indexes == stats.reused_physical_ids.len()
            &&& stats.adopted_indexes == stats.logical_output_operations
            &&& scan.state.canonical_records == start.state.canonical_records
            &&& scan.state.runtime_active_identities == start.state.runtime_active_identities
        }),
    decreases events.len(),
{
    if events.len() > 0 {
        lemma_global_scan(start, events.drop_last());
        let front = global_scan(start, events.drop_last());
        let event = events.last();
        if let GlobalRow::VectorReservation {
            physical_id,
            reservation: VectorReservation::AdoptedActive { index_id, generation },
        } = event.row {
            let seen = global_counted(front, event.kind);
            law_adoption_accounts_for_each_build(seen, physical_id, index_id, generation);
        }
    }
}

/// What a whole scan without faults shows. Every build that the scoped rows
/// record as completed is either adopted or rebuilt. Each adoption reuses one
/// namespace and writes one metadata row. The active identities are those of
/// the active records.
pub proof fn law_whole_scan_adds_up(
    scoped: Seq<ScopedEvent>,
    ordered: ScanModel,
    global: Seq<GlobalEvent>,
    end: ScanModel,
)
    requires
        forall|i: int| 0 <= i < scoped.len() ==> scoped_fault((#[trigger] scoped[i]).1) is None,
        reorders(scoped_scan(scoped), ordered),
        global_scan_goes_on(ordered, global),
        completes(global_scan(ordered, global), end),
    ensures
        ({
            let stats = end.state.vector_migration;
            &&& completed_builds(scoped).finite()
            &&& stats.adopted_indexes + stats.rebuilt_indexes == completed_builds(scoped).len()
            &&& stats.adopted_indexes == stats.reused_physical_ids.len()
            &&& stats.adopted_indexes == stats.logical_output_operations
            &&& identities_match(end.state)
        }),
{
    lemma_scoped_scan(scoped);
    lemma_global_scan(ordered, global);
    lemma_sort_ranked(global_scan(ordered, global).state.vector_migration.reused_physical_ids);
    assert forall|identity: Seq<char>| #[trigger]
        end.state.runtime_active_identities.to_multiset().count(identity) == active_records(
            end.state.canonical_records.to_multiset(),
            identity,
        ) by {
        assert(scoped_scan(scoped).state.runtime_active_identities.to_multiset().count(identity)
            == active_records(
            scoped_scan(scoped).state.canonical_records.to_multiset(),
            identity,
        ));
    }
}

/// An operation has completed a vector build if and only if it is a build that
/// has succeeded after its activation; the build is that of the operation, with
/// what was read.
pub proof fn law_succeeded_activations_are_builds(
    index_id: u64,
    generation: u64,
    outcome: OperationOutcome,
    progress: OperationProgress,
    build: Option<CompletedVectorBuild>,
)
    requires
        call_ensures(completed_vector_build, (index_id, generation, outcome, progress), build),
    ensures
        build is Some <==> outcome is BuildSucceeded && progress is VectorActivate,
        build matches Some(build) ==> {
            &&& build.index_id == index_id
            &&& build.generation == generation
            &&& build.counters.entities == progress->counters.entities
            &&& build.counters.input_bytes == progress->counters.input_bytes
        },
{
}

/// A scoped row is counted under its kind, whether it is accepted or not, and
/// changes nothing that the global rows are counted in.
pub proof fn law_scoped_rows_are_counted(
    scan: &mut V2Scan,
    kind: &str,
    row: ScopedRow,
    recorded: Result<(), HelixDbError>,
)
    requires
        call_ensures(V2Scan::record_scoped_row, (scan, kind, row), recorded),
    ensures
        counts_one_more(
            old(scan).state.scoped_row_counts@,
            final(scan).state.scoped_row_counts@,
            kind@,
        ),
        final(scan).state.global_row_counts@ == old(scan).state.global_row_counts@,
        final(scan).state.storage_version == old(scan).state.storage_version,
        final(scan).state.pending_operation_pointers == old(scan).state.pending_operation_pointers,
        final(scan).state.legacy_definition_rows == old(scan).state.legacy_definition_rows,
        final(scan).state.vector_migration@ == old(scan).state.vector_migration@,
{
}

/// A record is listed with everything that its row says, and its identity as an
/// active one if and only if its state is `active`.
pub proof fn law_records_are_listed(
    scan: &mut V2Scan,
    kind: &str,
    record: IndexRecordRow,
    recorded: Result<(), HelixDbError>,
)
    requires
        call_ensures(
            V2Scan::record_scoped_row,
            (scan, kind, ScopedRow::IndexRecord(record)),
            recorded,
        ),
    ensures
        recorded is Ok,
        ({
            let listed = final(scan).state.canonical_records@;
            let before = old(scan).state.runtime_active_identities@;
            let active = final(scan).state.runtime_active_identities@;
            &&& listed.len() == old(scan).state.canonical_records@.len() + 1
            &&& listed.last().index_id == record.index_id
            &&& listed.last().revision == record.revision
            &&& listed.last().state@ == record.state@
            &&& listed.last().generation == record.generation
            &&& listed.last().physical == record.physical
            &&& listed.last().identity@ == identity_text(record.identity)
            &&& text_rows(listed.last().definition@) == definition_fields(record.definition)
            &&& record.state@ == "active"@ ==> active.len() == before.len() + 1
                && active.last()@ == listed.last().identity@
            &&& record.state@ != "active"@ ==> active.len() == before.len()
        }),
        final(scan).completed_vector_builds@ == old(scan).completed_vector_builds@,
        final(scan).state.operation_statuses@.len() == old(scan).state.operation_statuses@.len(),
{
    let before = old(scan).state;
    let after = final(scan).state;
    assert(records_model(before.canonical_records@).len() == before.canonical_records@.len());
    assert(records_model(after.canonical_records@).len() == after.canonical_records@.len());
    assert(texts_of(before.runtime_active_identities@).len()
        == before.runtime_active_identities@.len());
    assert(texts_of(after.runtime_active_identities@).len()
        == after.runtime_active_identities@.len());
    assert(texts_of(before.operation_statuses@).len() == before.operation_statuses@.len());
    assert(texts_of(after.operation_statuses@).len() == after.operation_statuses@.len());
    assert(records_model(after.canonical_records@).last()
        == after.canonical_records@.last().model());
    if record.state@ == "active"@ {
        assert(texts_of(after.runtime_active_identities@).last()
            == after.runtime_active_identities@.last()@);
    }
}

/// The status of an operation is listed, and the vector build that it completed
/// is retained with what it read; another operation retains nothing.
pub proof fn law_operations_are_listed(
    scan: &mut V2Scan,
    kind: &str,
    operation: OperationRow,
    recorded: Result<(), HelixDbError>,
)
    requires
        call_ensures(
            V2Scan::record_scoped_row,
            (scan, kind, ScopedRow::Operation(operation)),
            recorded,
        ),
    ensures
        recorded is Ok,
        ({
            let statuses = final(scan).state.operation_statuses@;
            let builds = final(scan).completed_vector_builds@;
            let build = (operation.index_id, operation.generation);
            &&& statuses.len() == old(scan).state.operation_statuses@.len() + 1
            &&& statuses.last()@ == operation.status@
            &&& operation.outcome is BuildSucceeded && operation.progress is VectorActivate ==> {
                &&& builds.dom() == old(scan).completed_vector_builds@.dom().insert(build)
                &&& builds[build].entities == operation.progress->counters.entities
                &&& builds[build].input_bytes == operation.progress->counters.input_bytes
                &&& builds.remove(build) == old(scan).completed_vector_builds@.remove(build)
            }
            &&& !(operation.outcome is BuildSucceeded && operation.progress is VectorActivate)
                ==> builds == old(scan).completed_vector_builds@
        }),
        final(scan).state.canonical_records@.len() == old(scan).state.canonical_records@.len(),
        final(scan).state.runtime_active_identities@.len() == old(scan).state.runtime_active_identities@.len(),
{
    let before = old(scan).state;
    let after = final(scan).state;
    assert(records_model(before.canonical_records@).len() == before.canonical_records@.len());
    assert(records_model(after.canonical_records@).len() == after.canonical_records@.len());
    assert(texts_of(before.runtime_active_identities@).len()
        == before.runtime_active_identities@.len());
    assert(texts_of(after.runtime_active_identities@).len()
        == after.runtime_active_identities@.len());
    assert(texts_of(before.operation_statuses@).len() == before.operation_statuses@.len());
    assert(texts_of(after.operation_statuses@).len() == after.operation_statuses@.len());
    assert(texts_of(after.operation_statuses@).last() == after.operation_statuses@.last()@);
    let build = (operation.index_id, operation.generation);
    assert(final(scan).completed_vector_builds@.remove(build) =~= old(scan).completed_vector_builds@.remove(build));
}

/// Text statistics are listed as their rows hold them, and only those whose key
/// and value belong together.
pub proof fn law_text_statistics_are_listed(
    scan: &mut V2Scan,
    kind: &str,
    row: ScopedRow,
    recorded: Result<(), HelixDbError>,
)
    requires
        call_ensures(V2Scan::record_scoped_row, (scan, kind, row), recorded),
    ensures
        row matches ScopedRow::TextCorpusStatistics { key, row } ==> {
            let listed = final(scan).state.text_corpus_statistics@;
            &&& recorded is Ok <==> corpus_row_owned(key, row)
            &&& recorded is Ok ==> {
                &&& listed.len() == old(scan).state.text_corpus_statistics@.len() + 1
                &&& listed.last().index_id == row.index_id
                &&& listed.last().generation == row.generation
                &&& listed.last().partition_bytes@ == row.partition_bytes@
                &&& listed.last().document_count == row.document_count
                &&& listed.last().total_token_count == row.total_token_count
            }
            &&& recorded is Err ==> listed == old(scan).state.text_corpus_statistics@
        },
        row matches ScopedRow::TextTermStatistics { key, row } ==> {
            let listed = final(scan).state.text_term_statistics@;
            &&& recorded is Ok <==> term_row_owned(key, row)
            &&& recorded is Ok ==> {
                &&& listed.len() == old(scan).state.text_term_statistics@.len() + 1
                &&& listed.last().index_id == row.index_id
                &&& listed.last().generation == row.generation
                &&& listed.last().partition_bytes@ == row.partition_bytes@
                &&& listed.last().term@ == row.term@
                &&& listed.last().document_frequency == row.document_frequency
            }
            &&& recorded is Err ==> listed == old(scan).state.text_term_statistics@
        },
        row matches ScopedRow::TextStatisticsEntity { key, row } ==> {
            let listed = final(scan).state.text_entity_statistics@;
            &&& recorded is Ok <==> key == row.owner
            &&& recorded is Ok ==> {
                &&& listed.len() == old(scan).state.text_entity_statistics@.len() + 1
                &&& listed.last().index_id == key.index_id
                &&& listed.last().generation == key.generation
                &&& listed.last().entity_id == key.entity_id
                &&& listed.last().entity_kind@ == element_name(key.entity_kind)
                &&& listed.last().contribution == row.contribution
            }
            &&& recorded is Err ==> listed.len() == old(scan).state.text_entity_statistics@.len()
        },
        !(row is TextCorpusStatistics) ==> final(scan).state.text_corpus_statistics@ == old(scan).state.text_corpus_statistics@,
        !(row is TextTermStatistics) ==> final(scan).state.text_term_statistics@ == old(scan).state.text_term_statistics@,
{
    let before = old(scan).state.text_entity_statistics@;
    let after = final(scan).state.text_entity_statistics@;
    assert(entities_model(before).len() == before.len());
    assert(entities_model(after).len() == after.len());
    if row is TextStatisticsEntity && recorded is Ok {
        assert(entities_model(after).last() == entity_statistics_model(after.last()));
    }
}

/// A global row is counted under its kind, whether it is accepted or not; only a
/// version row sets the version, only an operation pointer is counted as one,
/// and only an adopted namespace is followed by the read of its metadata.
pub proof fn law_global_rows_are_counted(
    scan: &mut V2Scan,
    kind: &str,
    row: GlobalRow,
    recorded: Result<GlobalNext, HelixDbError>,
)
    requires
        row is OperationPointer ==> old(scan).state.pending_operation_pointers < u64::MAX,
        call_ensures(V2Scan::record_global_row, (scan, kind, row), recorded),
    ensures
        counts_one_more(
            old(scan).state.global_row_counts@,
            final(scan).state.global_row_counts@,
            kind@,
        ),
        final(scan).state.scoped_row_counts@ == old(scan).state.scoped_row_counts@,
        final(scan).state.legacy_definition_rows == old(scan).state.legacy_definition_rows,
        row matches GlobalRow::StorageVersion(version) ==> {
            &&& recorded is Ok <==> version is Some
            &&& version is Some ==> final(scan).state.storage_version == version
            &&& version is None ==> final(scan).state.storage_version == old(scan).state.storage_version
        },
        !(row is StorageVersion) ==> final(scan).state.storage_version == old(scan).state.storage_version,
        final(scan).state.pending_operation_pointers == old(scan).state.pending_operation_pointers
            + if row is OperationPointer {
            1int
        } else {
            0
        },
        row is OperationPointer || row is Other ==> recorded is Ok,
        row matches GlobalRow::VectorReservation { physical_id, reservation } ==> {
            &&& reservation is AnotherValue ==> recorded is Err
            &&& reservation is NotAdopted ==> recorded is Ok
            &&& recorded is Ok && reservation is AdoptedActive ==> recorded->Ok_0
                == (GlobalNext::ReadVectorMetadata { physical_id })
        },
        recorded is Ok && !(row is VectorReservation && row->reservation is AdoptedActive)
            ==> recorded->Ok_0 is Continue && final(scan).state.vector_migration@ == old(scan).state.vector_migration@ && final(scan).completed_vector_builds@ == old(scan).completed_vector_builds@,
{
}

/// A namespace is adopted for the retained build of its index and generation: it
/// is counted and named, the rows and the bytes that the build read are added to
/// the validated ones, and the build is no longer retained.
pub proof fn law_adopted_namespaces_are_counted(
    scan: &mut V2Scan,
    kind: &str,
    physical_id: u64,
    index_id: u64,
    generation: u64,
    recorded: Result<GlobalNext, HelixDbError>,
)
    requires
        call_ensures(
            V2Scan::record_global_row,
            (
                scan,
                kind,
                GlobalRow::VectorReservation {
                    physical_id,
                    reservation: VectorReservation::AdoptedActive { index_id, generation },
                },
            ),
            recorded,
        ),
    ensures
        ({
            let before = old(scan).state.vector_migration;
            let after = final(scan).state.vector_migration;
            let builds = old(scan).completed_vector_builds@;
            let build = builds[(index_id, generation)];
            &&& recorded is Ok <==> {
                &&& before.adopted_indexes < u64::MAX
                &&& builds.dom().contains((index_id, generation))
                &&& before.validated_rows + build.entities <= u64::MAX
                &&& before.validated_bytes + build.input_bytes <= u64::MAX
            }
            &&& recorded is Ok ==> {
                &&& after.adopted_indexes == before.adopted_indexes + 1
                &&& after.validated_rows == before.validated_rows + build.entities
                &&& after.validated_bytes == before.validated_bytes + build.input_bytes
                &&& after.reused_physical_ids@ == before.reused_physical_ids@.push(physical_id)
                &&& final(scan).completed_vector_builds@ == builds.remove((index_id, generation))
            }
            &&& after.rebuilt_indexes == before.rebuilt_indexes
            &&& after.logical_output_operations == before.logical_output_operations
            &&& after.logical_output_bytes == before.logical_output_bytes
        }),
{
}

/// The metadata row of an adopted namespace is one more output operation, as
/// long as its key and its value together; a missing row is an error.
pub proof fn law_adopted_metadata_is_counted(
    scan: &mut V2Scan,
    key_len: usize,
    value_len: Option<usize>,
    recorded: Result<(), HelixDbError>,
)
    requires
        call_ensures(V2Scan::record_adopted_metadata, (scan, key_len, value_len), recorded),
    ensures
        ({
            let before = old(scan).state.vector_migration;
            let after = final(scan).state.vector_migration;
            &&& value_len is None ==> recorded is Err && after@ == before@
            &&& value_len is Some && key_len + value_len->Some_0 <= usize::MAX ==> {
                let bytes = key_len + value_len->Some_0;
                &&& recorded is Ok <==> before.logical_output_operations < u64::MAX
                    && before.logical_output_bytes + bytes <= u64::MAX
                &&& recorded is Ok ==> {
                    &&& after.logical_output_operations == before.logical_output_operations + 1
                    &&& after.logical_output_bytes == before.logical_output_bytes + bytes
                }
            }
            &&& after.adopted_indexes == before.adopted_indexes
            &&& after.rebuilt_indexes == before.rebuilt_indexes
            &&& after.validated_rows == before.validated_rows
            &&& after.validated_bytes == before.validated_bytes
            &&& after.reused_physical_ids@ == before.reused_physical_ids@
        }),
        final(scan).completed_vector_builds@ == old(scan).completed_vector_builds@,
        final(scan).state.global_row_counts@ == old(scan).state.global_row_counts@,
{
}

/// At the end of the scan the builds that are still retained count as rebuilt,
/// and the reused namespaces stand in ascending order.
pub proof fn law_retained_builds_were_rebuilt(scan: &mut V2Scan)
    requires
        call_ensures(V2Scan::finish_global_rows, (scan,), ()),
    ensures
        ({
            let before = old(scan).state.vector_migration;
            let after = final(scan).state.vector_migration;
            &&& after.rebuilt_indexes == old(scan).completed_vector_builds@.dom().len()
            &&& after.reused_physical_ids@.to_multiset()
                == before.reused_physical_ids@.to_multiset()
            &&& forall|i: int, j: int|
                0 <= i < j < after.reused_physical_ids@.len() ==> (
                #[trigger] after.reused_physical_ids@[i]) <= (
                #[trigger] after.reused_physical_ids@[j])
            &&& after.adopted_indexes == before.adopted_indexes
            &&& after.validated_rows == before.validated_rows
            &&& after.validated_bytes == before.validated_bytes
            &&& after.logical_output_operations == before.logical_output_operations
            &&& after.logical_output_bytes == before.logical_output_bytes
        }),
        final(scan).state.scoped_row_counts@ == old(scan).state.scoped_row_counts@,
        final(scan).state.global_row_counts@ == old(scan).state.global_row_counts@,
{
    let ids = old(scan).state.vector_migration.reused_physical_ids@;
    law_sorting_orders_all_elements(ids);
    let sorted = final(scan).state.vector_migration.reused_physical_ids@;
    assert(sorted == sort_ranked(ids));
    assert forall|i: int, j: int| 0 <= i < j < sorted.len() implies (#[trigger] sorted[i]) <= (
    #[trigger] sorted[j]) by {
        assert(sort_ranked(ids)[i].ranked(&sort_ranked(ids)[j]) != Rank::Greater);
    }
}

/// At the end of the scoped scan the records, the active identities and the
/// statuses are the same ones as before, in the order of their text.
pub proof fn law_scoped_lists_are_ordered(scan: &mut V2Scan)
    requires
        call_ensures(V2Scan::finish_scoped_rows, (scan,), ()),
    ensures
        ({
            let before = old(scan).state;
            let after = final(scan).state;
            &&& after.canonical_records@.to_multiset() == before.canonical_records@.to_multiset()
            &&& after.runtime_active_identities@.to_multiset()
                == before.runtime_active_identities@.to_multiset()
            &&& after.operation_statuses@.to_multiset() == before.operation_statuses@.to_multiset()
            &&& after.text_corpus_statistics@.to_multiset()
                == before.text_corpus_statistics@.to_multiset()
            &&& after.text_term_statistics@.to_multiset()
                == before.text_term_statistics@.to_multiset()
            &&& after.text_entity_statistics@.to_multiset()
                == before.text_entity_statistics@.to_multiset()
            &&& forall|i: int, j: int|
                #![trigger after.canonical_records@[i], after.canonical_records@[j]]
                0 <= i < j < after.canonical_records@.len() ==> rank_text(
                    after.canonical_records@[i].identity@,
                    after.canonical_records@[j].identity@,
                ) != Rank::Greater
            &&& forall|i: int, j: int|
                #![trigger after.runtime_active_identities@[i], after.runtime_active_identities@[j]]
                0 <= i < j < after.runtime_active_identities@.len() ==> rank_text(
                    after.runtime_active_identities@[i]@,
                    after.runtime_active_identities@[j]@,
                ) != Rank::Greater
            &&& forall|i: int, j: int|
                #![trigger after.operation_statuses@[i], after.operation_statuses@[j]]
                0 <= i < j < after.operation_statuses@.len() ==> rank_text(
                    after.operation_statuses@[i]@,
                    after.operation_statuses@[j]@,
                ) != Rank::Greater
        }),
        final(scan).completed_vector_builds@ == old(scan).completed_vector_builds@,
{
    let before = old(scan).state;
    law_sorting_orders_all_elements(before.canonical_records@);
    law_sorting_orders_all_elements(before.runtime_active_identities@);
    law_sorting_orders_all_elements(before.operation_statuses@);
    law_sorting_orders_all_elements(before.text_corpus_statistics@);
    law_sorting_orders_all_elements(before.text_term_statistics@);
    law_sorting_orders_all_elements(before.text_entity_statistics@);
    let after = final(scan).state;
    assert forall|i: int, j: int|
        #![trigger after.canonical_records@[i], after.canonical_records@[j]]
        0 <= i < j < after.canonical_records@.len() implies rank_text(
        after.canonical_records@[i].identity@,
        after.canonical_records@[j].identity@,
    ) != Rank::Greater by {
        let sorted = sort_ranked(before.canonical_records@);
        assert(sorted[i].ranked(&sorted[j]) != Rank::Greater);
    }
    assert forall|i: int, j: int|
        #![trigger after.runtime_active_identities@[i], after.runtime_active_identities@[j]]
        0 <= i < j < after.runtime_active_identities@.len() implies rank_text(
        after.runtime_active_identities@[i]@,
        after.runtime_active_identities@[j]@,
    ) != Rank::Greater by {
        let sorted = sort_ranked(before.runtime_active_identities@);
        assert(sorted[i].ranked(&sorted[j]) != Rank::Greater);
    }
    assert forall|i: int, j: int|
        #![trigger after.operation_statuses@[i], after.operation_statuses@[j]]
        0 <= i < j < after.operation_statuses@.len() implies rank_text(
        after.operation_statuses@[i]@,
        after.operation_statuses@[j]@,
    ) != Rank::Greater by {
        let sorted = sort_ranked(before.operation_statuses@);
        assert(sorted[i].ranked(&sorted[j]) != Rank::Greater);
    }
}

/// A row of the legacy definition scan is only counted.
pub proof fn law_legacy_definitions_are_counted(scan: &mut V2Scan)
    requires
        old(scan).state.legacy_definition_rows < u64::MAX,
        call_ensures(V2Scan::record_legacy_definition, (scan,), ()),
    ensures
        final(scan).state.legacy_definition_rows == old(scan).state.legacy_definition_rows + 1,
        final(scan).state.pending_operation_pointers == old(scan).state.pending_operation_pointers,
        final(scan).state.storage_version == old(scan).state.storage_version,
        final(scan).state.scoped_row_counts@ == old(scan).state.scoped_row_counts@,
        final(scan).state.global_row_counts@ == old(scan).state.global_row_counts@,
        final(scan).state.vector_migration@ == old(scan).state.vector_migration@,
{
}

/// A scan starts with nothing seen.
pub proof fn law_scans_start_empty(scan: V2Scan)
    requires
        call_ensures(V2Scan::new, (), scan),
    ensures
        scan.state.storage_version is None,
        scan.state.canonical_records@.len() == 0,
        scan.state.operation_statuses@.len() == 0,
        scan.state.runtime_active_identities@.len() == 0,
        scan.state.scoped_row_counts@.dom() == Set::<Seq<char>>::empty(),
        scan.state.global_row_counts@.dom() == Set::<Seq<char>>::empty(),
        scan.state.legacy_definition_rows == 0,
        scan.state.pending_operation_pointers == 0,
        scan.state.vector_migration.adopted_indexes == 0,
        scan.state.vector_migration.rebuilt_indexes == 0,
        scan.state.vector_migration.validated_rows == 0,
        scan.state.vector_migration.validated_bytes == 0,
        scan.state.vector_migration.logical_output_operations == 0,
        scan.state.vector_migration.logical_output_bytes == 0,
        scan.state.vector_migration.reused_physical_ids@.len() == 0,
        scan.state.text_corpus_statistics@.len() == 0,
        scan.state.text_term_statistics@.len() == 0,
        scan.state.text_entity_statistics@.len() == 0,
        scan.completed_vector_builds@.dom() == Set::<(u64, u64)>::empty(),
{
    let state = scan.state;
    assert(records_model(state.canonical_records@).len() == state.canonical_records@.len());
    assert(texts_of(state.operation_statuses@).len() == state.operation_statuses@.len());
    assert(texts_of(state.runtime_active_identities@).len()
        == state.runtime_active_identities@.len());
    assert(entities_model(state.text_entity_statistics@).len()
        == state.text_entity_statistics@.len());
}

/// An adoption that cannot be counted says what is at fault. The namespace counts
/// as adopted unless that number is itself at its end, the build is taken where
/// there is one, and the rows that were validated stay counted where they fit.
pub proof fn law_stopped_adoptions_keep_what_was_counted(
    scan: &mut V2Scan,
    kind: &str,
    physical_id: u64,
    index_id: u64,
    generation: u64,
    recorded: Result<GlobalNext, HelixDbError>,
)
    requires
        call_ensures(
            V2Scan::record_global_row,
            (
                scan,
                kind,
                GlobalRow::VectorReservation {
                    physical_id,
                    reservation: VectorReservation::AdoptedActive { index_id, generation },
                },
            ),
            recorded,
        ),
        recorded is Err,
    ensures
        recorded->Err_0@ is InvariantViolation,
        ({
            let before = old(scan).state.vector_migration;
            let after = final(scan).state.vector_migration;
            let builds = old(scan).completed_vector_builds@;
            let retained = builds.dom().contains((index_id, generation));
            let build = builds[(index_id, generation)];
            let text = recorded->Err_0@->InvariantViolation_0;
            let full = before.adopted_indexes == u64::MAX;
            let rows_fit = before.validated_rows + build.entities <= u64::MAX;
            &&& full ==> {
                &&& text == "adopted vector parity count overflowed"@
                &&& after@ == before@
                &&& final(scan).completed_vector_builds@ == builds
            }
            &&& !full ==> {
                &&& after.adopted_indexes == before.adopted_indexes + 1
                &&& after.reused_physical_ids@ == before.reused_physical_ids@.push(physical_id)
                &&& after.validated_bytes == before.validated_bytes
            }
            &&& !full && !retained ==> {
                &&& text == "adopted vector has no retained completed build operation"@
                &&& after.validated_rows == before.validated_rows
                &&& final(scan).completed_vector_builds@ == builds
            }
            &&& !full && retained ==> final(scan).completed_vector_builds@ == builds.remove(
                (index_id, generation),
            )
            &&& !full && retained && !rows_fit ==> {
                &&& text == "adopted vector validated row count overflowed"@
                &&& after.validated_rows == before.validated_rows
            }
            &&& !full && retained && rows_fit ==> {
                &&& text == "adopted vector validated byte count overflowed"@
                &&& after.validated_rows == before.validated_rows + build.entities
            }
        }),
{
}

/// Adopted metadata that cannot be counted says what is at fault: a missing row,
/// or the count that is at its end; an output that is only too long is counted.
/// The length of a row stops at the largest size.
pub proof fn law_stopped_metadata_keeps_what_was_counted(
    scan: &mut V2Scan,
    key_len: usize,
    value_len: Option<usize>,
    recorded: Result<(), HelixDbError>,
)
    requires
        call_ensures(V2Scan::record_adopted_metadata, (scan, key_len, value_len), recorded),
    ensures
        ({
            let before = old(scan).state.vector_migration;
            let after = final(scan).state.vector_migration;
            let full = before.logical_output_operations == u64::MAX;
            let sum = key_len + value_len->Some_0;
            let bytes = if sum > usize::MAX {
                usize::MAX as int
            } else {
                sum
            };
            &&& recorded matches Err(error) ==> error@ == HelixDbErrorView::InvariantViolation(
                if value_len is None {
                    "adopted vector metadata is absent from its physical namespace"@
                } else if full {
                    "adopted vector logical output operation count overflowed"@
                } else {
                    "adopted vector logical output byte count overflowed"@
                },
            )
            &&& value_len is Some ==> (recorded is Ok <==> !full && before.logical_output_bytes
                + bytes <= u64::MAX)
            &&& recorded is Ok ==> after.logical_output_bytes == before.logical_output_bytes
                + bytes
            &&& recorded is Err ==> after.logical_output_bytes == before.logical_output_bytes
            &&& after.logical_output_operations == before.logical_output_operations + if value_len
                is Some && !full {
                1int
            } else {
                0
            }
        }),
{
}

} // verus!
