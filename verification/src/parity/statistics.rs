//! Text statistics rows: whom they belong to, how evidence orders them, and
//! how one of them is damaged on purpose.

use vstd::prelude::*;

use crate::digest::{sha256, sha256_of};
use crate::error::{config_error, invariant_violation, HelixDbError, HelixDbErrorView};
use crate::order::{
    bytes_precede, lemma_bytes_order, lemma_rank_seq_antisymmetric, lemma_rank_seq_reflexive, lemma_rank_seq_transitive, Rank,
    rank_int, rank_seq, rank_slices, rank_str, rank_text, rank_u64, Ranked, same_bytes, same_text,
};
use crate::parity::definition::{element_name, IndexElementKind};

verus! {

/// Totals of one text partition.
#[derive(Debug, Clone, PartialEq, Eq)]
pub struct MigrationParityTextCorpusStatistics {
    pub index_id: u64,
    pub generation: u64,
    pub partition_bytes: Vec<u8>,
    pub document_count: u64,
    pub total_token_count: u64,
}

/// In how many documents of a text partition a term occurs.
#[derive(Debug, Clone, PartialEq, Eq)]
pub struct MigrationParityTextTermStatistics {
    pub index_id: u64,
    pub generation: u64,
    pub partition_bytes: Vec<u8>,
    pub term: Vec<u8>,
    pub document_frequency: u64,
}

/// What an entity adds to the statistics.
#[derive(Debug, Clone, PartialEq, Eq)]
pub enum MigrationParityTextEntityContribution {
    Absent,
    Present {
        partition_bytes: Vec<u8>,
        fingerprint: [u8; 32],
        token_count: u64,
        terms: Vec<Vec<u8>>,
    },
}

/// What an entity adds to the statistics of one generation.
#[derive(Debug, Clone, PartialEq, Eq)]
pub struct MigrationParityTextEntityStatistics {
    pub index_id: u64,
    pub generation: u64,
    pub entity_kind: String,
    pub entity_id: u64,
    pub contribution: MigrationParityTextEntityContribution,
}

impl Ranked for MigrationParityTextCorpusStatistics {
    open spec fn ranked(&self, other: &Self) -> Rank {
        rank_int(self.index_id as int, other.index_id as int).refined(
            rank_int(self.generation as int, other.generation as int),
        ).refined(rank_seq(self.partition_bytes@, other.partition_bytes@)).refined(
            rank_int(self.document_count as int, other.document_count as int),
        ).refined(rank_int(self.total_token_count as int, other.total_token_count as int))
    }

    proof fn rank_reflexive(a: &Self) {
        lemma_rank_seq_reflexive(a.partition_bytes@);
    }

    proof fn rank_antisymmetric(a: &Self, b: &Self) {
        lemma_rank_seq_antisymmetric(a.partition_bytes@, b.partition_bytes@);
    }

    proof fn rank_transitive(a: &Self, b: &Self, c: &Self) {
        lemma_partition_transitive(a.partition_bytes@, b.partition_bytes@, c.partition_bytes@);
    }

    fn rank(&self, other: &Self) -> (rank: Rank) {
        let by_index = rank_u64(self.index_id, other.index_id);
        if by_index != Rank::Equal {
            return by_index;
        }
        let by_generation = rank_u64(self.generation, other.generation);
        if by_generation != Rank::Equal {
            return by_generation;
        }
        let by_partition = rank_slices(
            self.partition_bytes.as_slice(),
            other.partition_bytes.as_slice(),
        );
        if by_partition != Rank::Equal {
            return by_partition;
        }
        let by_count = rank_u64(self.document_count, other.document_count);
        if by_count != Rank::Equal {
            return by_count;
        }
        rank_u64(self.total_token_count, other.total_token_count)
    }
}

/// Byte strings are ordered transitively where both steps go up.
proof fn lemma_partition_transitive(a: Seq<u8>, b: Seq<u8>, c: Seq<u8>)
    ensures
        rank_seq(a, b) != Rank::Greater && rank_seq(b, c) != Rank::Greater ==> rank_seq(a, c)
            == rank_seq(a, b).refined(rank_seq(b, c)),
{
    if rank_seq(a, b) != Rank::Greater && rank_seq(b, c) != Rank::Greater {
        lemma_rank_seq_transitive(a, b, c);
    }
}

impl Ranked for MigrationParityTextTermStatistics {
    open spec fn ranked(&self, other: &Self) -> Rank {
        rank_int(self.index_id as int, other.index_id as int).refined(
            rank_int(self.generation as int, other.generation as int),
        ).refined(rank_seq(self.partition_bytes@, other.partition_bytes@)).refined(
            rank_seq(self.term@, other.term@),
        ).refined(rank_int(self.document_frequency as int, other.document_frequency as int))
    }

    proof fn rank_reflexive(a: &Self) {
        lemma_rank_seq_reflexive(a.partition_bytes@);
        lemma_rank_seq_reflexive(a.term@);
    }

    proof fn rank_antisymmetric(a: &Self, b: &Self) {
        lemma_rank_seq_antisymmetric(a.partition_bytes@, b.partition_bytes@);
        lemma_rank_seq_antisymmetric(a.term@, b.term@);
    }

    proof fn rank_transitive(a: &Self, b: &Self, c: &Self) {
        lemma_partition_transitive(a.partition_bytes@, b.partition_bytes@, c.partition_bytes@);
        lemma_partition_transitive(a.term@, b.term@, c.term@);
    }

    fn rank(&self, other: &Self) -> (rank: Rank) {
        let by_index = rank_u64(self.index_id, other.index_id);
        if by_index != Rank::Equal {
            return by_index;
        }
        let by_generation = rank_u64(self.generation, other.generation);
        if by_generation != Rank::Equal {
            return by_generation;
        }
        let by_partition = rank_slices(
            self.partition_bytes.as_slice(),
            other.partition_bytes.as_slice(),
        );
        if by_partition != Rank::Equal {
            return by_partition;
        }
        let by_term = rank_slices(self.term.as_slice(), other.term.as_slice());
        if by_term != Rank::Equal {
            return by_term;
        }
        rank_u64(self.document_frequency, other.document_frequency)
    }
}

/// Nothing comes before something; two somethings are ordered field by field.
pub open spec fn contribution_rank(
    a: MigrationParityTextEntityContribution,
    b: MigrationParityTextEntityContribution,
) -> Rank {
    match (a, b) {
        (
            MigrationParityTextEntityContribution::Absent,
            MigrationParityTextEntityContribution::Absent,
        ) => Rank::Equal,
        (
            MigrationParityTextEntityContribution::Absent,
            MigrationParityTextEntityContribution::Present { .. },
        ) => Rank::Less,
        (
            MigrationParityTextEntityContribution::Present { .. },
            MigrationParityTextEntityContribution::Absent,
        ) => Rank::Greater,
        (
            MigrationParityTextEntityContribution::Present {
                partition_bytes: a_partition,
                fingerprint: a_fingerprint,
                token_count: a_count,
                terms: a_terms,
            },
            MigrationParityTextEntityContribution::Present {
                partition_bytes: b_partition,
                fingerprint: b_fingerprint,
                token_count: b_count,
                terms: b_terms,
            },
        ) => rank_seq(a_partition@, b_partition@).refined(
            rank_seq(a_fingerprint@, b_fingerprint@),
        ).refined(rank_int(a_count as int, b_count as int)).refined(
            rank_seq(a_terms@, b_terms@),
        ),
    }
}

proof fn lemma_contribution_reflexive(a: MigrationParityTextEntityContribution)
    ensures
        contribution_rank(a, a) == Rank::Equal,
{
    match a {
        MigrationParityTextEntityContribution::Absent => {},
        MigrationParityTextEntityContribution::Present {
            partition_bytes,
            fingerprint,
            token_count,
            terms,
        } => {
            lemma_rank_seq_reflexive(partition_bytes@);
            lemma_rank_seq_reflexive(fingerprint@);
            lemma_rank_seq_reflexive(terms@);
        },
    }
}

proof fn lemma_contribution_antisymmetric(
    a: MigrationParityTextEntityContribution,
    b: MigrationParityTextEntityContribution,
)
    ensures
        contribution_rank(b, a) == contribution_rank(a, b).reversed(),
{
    match (a, b) {
        (
            MigrationParityTextEntityContribution::Present {
                partition_bytes: a_partition,
                fingerprint: a_fingerprint,
                token_count: a_count,
                terms: a_terms,
            },
            MigrationParityTextEntityContribution::Present {
                partition_bytes: b_partition,
                fingerprint: b_fingerprint,
                token_count: b_count,
                terms: b_terms,
            },
        ) => {
            lemma_rank_seq_antisymmetric(a_partition@, b_partition@);
            lemma_rank_seq_antisymmetric(a_fingerprint@, b_fingerprint@);
            lemma_rank_seq_antisymmetric(a_terms@, b_terms@);
        },
        _ => {},
    }
}

proof fn lemma_contribution_transitive(
    a: MigrationParityTextEntityContribution,
    b: MigrationParityTextEntityContribution,
    c: MigrationParityTextEntityContribution,
)
    ensures
        contribution_rank(a, b) != Rank::Greater && contribution_rank(b, c) != Rank::Greater
            ==> contribution_rank(a, c) == contribution_rank(a, b).refined(
            contribution_rank(b, c),
        ),
{
    match (a, b, c) {
        (
            MigrationParityTextEntityContribution::Present {
                partition_bytes: a_partition,
                fingerprint: a_fingerprint,
                token_count: a_count,
                terms: a_terms,
            },
            MigrationParityTextEntityContribution::Present {
                partition_bytes: b_partition,
                fingerprint: b_fingerprint,
                token_count: b_count,
                terms: b_terms,
            },
            MigrationParityTextEntityContribution::Present {
                partition_bytes: c_partition,
                fingerprint: c_fingerprint,
                token_count: c_count,
                terms: c_terms,
            },
        ) => {
            lemma_partition_transitive(a_partition@, b_partition@, c_partition@);
            lemma_partition_transitive(a_fingerprint@, b_fingerprint@, c_fingerprint@);
            if rank_seq(a_terms@, b_terms@) != Rank::Greater && rank_seq(b_terms@, c_terms@)
                != Rank::Greater {
                lemma_rank_seq_transitive(a_terms@, b_terms@, c_terms@);
            }
        },
        _ => {},
    }
}

fn rank_contributions(
    a: &MigrationParityTextEntityContribution,
    b: &MigrationParityTextEntityContribution,
) -> (rank: Rank)
    ensures
        rank == contribution_rank(*a, *b),
{
    match (a, b) {
        (
            MigrationParityTextEntityContribution::Absent,
            MigrationParityTextEntityContribution::Absent,
        ) => Rank::Equal,
        (
            MigrationParityTextEntityContribution::Absent,
            MigrationParityTextEntityContribution::Present { .. },
        ) => Rank::Less,
        (
            MigrationParityTextEntityContribution::Present { .. },
            MigrationParityTextEntityContribution::Absent,
        ) => Rank::Greater,
        (
            MigrationParityTextEntityContribution::Present {
                partition_bytes: a_partition,
                fingerprint: a_fingerprint,
                token_count: a_count,
                terms: a_terms,
            },
            MigrationParityTextEntityContribution::Present {
                partition_bytes: b_partition,
                fingerprint: b_fingerprint,
                token_count: b_count,
                terms: b_terms,
            },
        ) => {
            let by_partition = rank_slices(a_partition.as_slice(), b_partition.as_slice());
            if by_partition != Rank::Equal {
                return by_partition;
            }
            let by_fingerprint = rank_slices(a_fingerprint.as_slice(), b_fingerprint.as_slice());
            if by_fingerprint != Rank::Equal {
                return by_fingerprint;
            }
            let by_count = rank_u64(*a_count, *b_count);
            if by_count != Rank::Equal {
                return by_count;
            }
            rank_slices(a_terms.as_slice(), b_terms.as_slice())
        },
    }
}

impl Ranked for MigrationParityTextEntityStatistics {
    open spec fn ranked(&self, other: &Self) -> Rank {
        rank_int(self.index_id as int, other.index_id as int).refined(
            rank_int(self.generation as int, other.generation as int),
        ).refined(rank_text(self.entity_kind@, other.entity_kind@)).refined(
            rank_int(self.entity_id as int, other.entity_id as int),
        ).refined(contribution_rank(self.contribution, other.contribution))
    }

    proof fn rank_reflexive(a: &Self) {
        String::rank_reflexive(&a.entity_kind);
        lemma_contribution_reflexive(a.contribution);
    }

    proof fn rank_antisymmetric(a: &Self, b: &Self) {
        String::rank_antisymmetric(&a.entity_kind, &b.entity_kind);
        lemma_contribution_antisymmetric(a.contribution, b.contribution);
    }

    proof fn rank_transitive(a: &Self, b: &Self, c: &Self) {
        if rank_text(a.entity_kind@, b.entity_kind@) != Rank::Greater && rank_text(
            b.entity_kind@,
            c.entity_kind@,
        ) != Rank::Greater {
            String::rank_transitive(&a.entity_kind, &b.entity_kind, &c.entity_kind);
        }
        lemma_contribution_transitive(a.contribution, b.contribution, c.contribution);
    }

    fn rank(&self, other: &Self) -> (rank: Rank) {
        let by_index = rank_u64(self.index_id, other.index_id);
        if by_index != Rank::Equal {
            return by_index;
        }
        let by_generation = rank_u64(self.generation, other.generation);
        if by_generation != Rank::Equal {
            return by_generation;
        }
        let by_kind = rank_str(self.entity_kind.as_str(), other.entity_kind.as_str());
        if by_kind != Rank::Equal {
            return by_kind;
        }
        let by_entity = rank_u64(self.entity_id, other.entity_id);
        if by_entity != Rank::Equal {
            return by_entity;
        }
        rank_contributions(&self.contribution, &other.contribution)
    }
}

/// The generation and partition that a statistics key names.
#[derive(Debug)]
pub struct TextCorpusKey {
    pub index_id: u64,
    pub generation: u64,
    /// Fingerprint of the partition.
    pub partition: Vec<u8>,
}

/// Totals as a row holds them.
#[derive(Debug)]
pub struct TextCorpusRow {
    pub index_id: u64,
    pub generation: u64,
    /// Fingerprint of the partition.
    pub partition: Vec<u8>,
    pub partition_bytes: Vec<u8>,
    pub document_count: u64,
    pub total_token_count: u64,
}

/// Whether the row belongs to its key.
pub open spec fn corpus_row_owned(key: TextCorpusKey, row: TextCorpusRow) -> bool {
    row.index_id == key.index_id && row.generation == key.generation && row.partition@
        == key.partition@
}

/// The totals of a row that belongs to its key.
pub fn text_corpus_statistics(key: &TextCorpusKey, row: TextCorpusRow) -> (statistics: Result<
    MigrationParityTextCorpusStatistics,
    HelixDbError,
>)
    ensures
        match statistics {
            Ok(statistics) => {
                &&& corpus_row_owned(*key, row)
                &&& statistics == (MigrationParityTextCorpusStatistics {
                    index_id: row.index_id,
                    generation: row.generation,
                    partition_bytes: row.partition_bytes,
                    document_count: row.document_count,
                    total_token_count: row.total_token_count,
                })
            },
            Err(error) => {
                &&& !corpus_row_owned(*key, row)
                &&& error@ == HelixDbErrorView::InvariantViolation(
                    "text corpus-statistics key/value ownership mismatch"@,
                )
            },
        },
{
    if row.index_id != key.index_id || row.generation != key.generation || !same_bytes(
        row.partition.as_slice(),
        key.partition.as_slice(),
    ) {
        return Err(invariant_violation("text corpus-statistics key/value ownership mismatch"));
    }
    Ok(
        MigrationParityTextCorpusStatistics {
            index_id: row.index_id,
            generation: row.generation,
            partition_bytes: row.partition_bytes,
            document_count: row.document_count,
            total_token_count: row.total_token_count,
        },
    )
}

/// The term that a statistics key names.
#[derive(Debug)]
pub struct TextTermKey {
    pub corpus: TextCorpusKey,
    /// SHA-256 digest of the term.
    pub term: Vec<u8>,
}

/// A document frequency as a row holds it.
#[derive(Debug)]
pub struct TextTermRow {
    pub index_id: u64,
    pub generation: u64,
    /// Fingerprint of the partition.
    pub partition: Vec<u8>,
    pub partition_bytes: Vec<u8>,
    pub term: Vec<u8>,
    pub document_frequency: u64,
}

/// Whether the row belongs to its key.
pub open spec fn term_row_owned(key: TextTermKey, row: TextTermRow) -> bool {
    row.index_id == key.corpus.index_id && row.generation == key.corpus.generation
        && row.partition@ == key.corpus.partition@ && sha256_of(row.term@) == key.term@
}

/// The frequency of a row that belongs to its key.
pub fn text_term_statistics(key: &TextTermKey, row: TextTermRow) -> (statistics: Result<
    MigrationParityTextTermStatistics,
    HelixDbError,
>)
    ensures
        match statistics {
            Ok(statistics) => {
                &&& term_row_owned(*key, row)
                &&& statistics == (MigrationParityTextTermStatistics {
                    index_id: row.index_id,
                    generation: row.generation,
                    partition_bytes: row.partition_bytes,
                    term: row.term,
                    document_frequency: row.document_frequency,
                })
            },
            Err(error) => {
                &&& !term_row_owned(*key, row)
                &&& error@ == HelixDbErrorView::InvariantViolation(
                    "text term-statistics key/value ownership mismatch"@,
                )
            },
        },
{
    let fingerprint = sha256(row.term.as_slice());
    if row.index_id != key.corpus.index_id || row.generation != key.corpus.generation
        || !same_bytes(row.partition.as_slice(), key.corpus.partition.as_slice()) || !same_bytes(
        fingerprint.as_slice(),
        key.term.as_slice(),
    ) {
        return Err(invariant_violation("text term-statistics key/value ownership mismatch"));
    }
    Ok(
        MigrationParityTextTermStatistics {
            index_id: row.index_id,
            generation: row.generation,
            partition_bytes: row.partition_bytes,
            term: row.term,
            document_frequency: row.document_frequency,
        },
    )
}

/// The entity that a statistics key names.
#[derive(Debug, Clone, Copy, PartialEq, Eq, Structural)]
pub struct TextEntityKey {
    pub index_id: u64,
    pub generation: u64,
    pub entity_kind: IndexElementKind,
    pub entity_id: u64,
}

/// A contribution as a row holds it.
#[derive(Debug)]
pub struct TextEntityRow {
    pub owner: TextEntityKey,
    pub contribution: MigrationParityTextEntityContribution,
}

/// The contribution of a row that belongs to its key.
pub fn text_entity_statistics(key: &TextEntityKey, row: TextEntityRow) -> (statistics: Result<
    MigrationParityTextEntityStatistics,
    HelixDbError,
>)
    ensures
        match statistics {
            Ok(statistics) => {
                &&& row.owner == *key
                &&& statistics.index_id == key.index_id
                &&& statistics.generation == key.generation
                &&& statistics.entity_kind@ == element_name(key.entity_kind)
                &&& statistics.entity_id == key.entity_id
                &&& statistics.contribution == row.contribution
            },
            Err(error) => {
                &&& row.owner != *key
                &&& error@ == HelixDbErrorView::InvariantViolation(
                    "text entity-statistics key/value ownership mismatch"@,
                )
            },
        },
{
    if row.owner != *key {
        return Err(invariant_violation("text entity-statistics key/value ownership mismatch"));
    }
    Ok(
        MigrationParityTextEntityStatistics {
            index_id: key.index_id,
            generation: key.generation,
            entity_kind: key.entity_kind.name().to_owned(),
            entity_id: key.entity_id,
            contribution: row.contribution,
        },
    )
}

/// A part of a text index.
#[derive(Debug, PartialEq, Eq)]
pub enum TextPartition {
    /// The whole index.
    Unpartitioned,
    /// The documents of one tenant.
    Tenant(String),
}

/// The partition that a tenant, or none, selects in an index.
pub fn migration_parity_text_partition(partitioned: bool, tenant: Option<String>) -> (partition:
    Result<TextPartition, HelixDbError>)
    ensures
        match (partitioned, tenant, partition) {
            (false, None, Ok(partition)) => partition == TextPartition::Unpartitioned,
            (true, Some(tenant), Ok(partition)) => partition == TextPartition::Tenant(tenant),
            (true, None, Err(error)) => error@ == HelixDbErrorView::Config(
                "partitioned text statistics damage requires a tenant"@,
            ),
            (false, Some(_), Err(error)) => error@ == HelixDbErrorView::Config(
                "unpartitioned text statistics damage cannot select a tenant"@,
            ),
            _ => false,
        },
{
    match (partitioned, tenant) {
        (false, None) => Ok(TextPartition::Unpartitioned),
        (true, Some(tenant)) => Ok(TextPartition::Tenant(tenant)),
        (true, None) => Err(config_error("partitioned text statistics damage requires a tenant")),
        (false, Some(_)) => Err(
            config_error("unpartitioned text statistics damage cannot select a tenant"),
        ),
    }
}

/// What defines a text index.
#[derive(Debug)]
pub struct TextDefinition {
    pub element_kind: IndexElementKind,
    pub label: String,
    pub property: String,
    pub tenant_property: Option<String>,
    pub analyzer: String,
    pub positions_enabled: bool,
}

/// What a [`TextDefinition`] says.
pub ghost struct TextDefinitionModel {
    pub element_kind: IndexElementKind,
    pub label: Seq<char>,
    pub property: Seq<char>,
    pub tenant_property: Option<Seq<char>>,
    pub analyzer: Seq<char>,
    pub positions_enabled: bool,
}

impl View for TextDefinition {
    type V = TextDefinitionModel;

    open spec fn view(&self) -> TextDefinitionModel {
        TextDefinitionModel {
            element_kind: self.element_kind,
            label: self.label@,
            property: self.property@,
            tenant_property: match self.tenant_property {
                Some(text) => Some(text@),
                None => None,
            },
            analyzer: self.analyzer@,
            positions_enabled: self.positions_enabled,
        }
    }
}

impl TextDefinition {
    /// Whether both define the same index.
    pub fn same(&self, other: &TextDefinition) -> (same: bool)
        ensures
            same == (self@ == other@),
    {
        let same_tenant = match (&self.tenant_property, &other.tenant_property) {
            (None, None) => true,
            (Some(a), Some(b)) => same_text(a.as_str(), b.as_str()),
            _ => false,
        };
        same_tenant && self.element_kind == other.element_kind && same_text(
            self.label.as_str(),
            other.label.as_str(),
        ) && same_text(self.property.as_str(), other.property.as_str()) && same_text(
            self.analyzer.as_str(),
            other.analyzer.as_str(),
        ) && self.positions_enabled == other.positions_enabled
    }
}

/// A text generation that serves reads.
#[derive(Debug)]
pub struct TextAuthority {
    pub definition: TextDefinition,
    pub index_id: u64,
    pub generation: u64,
}

/// An index that is active.
#[derive(Debug)]
pub enum ActiveHandle {
    /// A text index whose generation serves reads.
    Text(TextAuthority),
    /// A text index that cannot serve reads.
    Broken(HelixDbError),
    /// An index of another family.
    Other,
}

/// What the first text index of the definition comes to, or the first one
/// before it that cannot serve reads; `None` if there is neither.
pub open spec fn first_authority(
    handles: Seq<ActiveHandle>,
    definition: TextDefinitionModel,
) -> Option<Result<TextAuthority, HelixDbError>>
    decreases handles.len(),
{
    if handles.len() == 0 {
        None
    } else {
        match first_authority(handles.drop_last(), definition) {
            Some(found) => Some(found),
            None => match handles.last() {
                ActiveHandle::Text(authority) => if authority.definition@ == definition {
                    Some(Ok(authority))
                } else {
                    None
                },
                ActiveHandle::Broken(error) => Some(Err(error)),
                ActiveHandle::Other => None,
            },
        }
    }
}

/// What was found stays found, whatever follows.
proof fn lemma_authority_stays(
    handles: Seq<ActiveHandle>,
    definition: TextDefinitionModel,
    count: int,
)
    requires
        0 <= count <= handles.len(),
        first_authority(handles.take(count), definition) is Some,
    ensures
        first_authority(handles, definition) == first_authority(handles.take(count), definition),
    decreases handles.len(),
{
    if count == handles.len() {
        assert(handles.take(count) =~= handles);
    } else {
        assert(handles.drop_last().take(count) =~= handles.take(count));
        lemma_authority_stays(handles.drop_last(), definition, count);
    }
}

/// The text index of a definition.
pub fn find_text_authority(handles: Vec<ActiveHandle>, definition: &TextDefinition) -> (found:
    Result<TextAuthority, HelixDbError>)
    ensures
        match first_authority(handles@, definition@) {
            Some(first) => found == first,
            None => found matches Err(error) && error@ == HelixDbErrorView::IndexNotFound(
                element_name(definition.element_kind) + ":"@ + definition.label@ + ":"@
                    + definition.property@,
            ),
        },
{
    let ghost all = handles@;
    assert(all.take(0) =~= Seq::<ActiveHandle>::empty());
    for handle in taken: handles.into_iter()
        invariant
            taken.seq() == all,
            all == handles@,
            first_authority(all.take(taken.index() as int), definition@) is None,
    {
        proof {
            let done = taken.index() as int;
            assert(handle == all[done]);
            assert(all.take(done + 1).drop_last() =~= all.take(done));
            assert(all.take(done + 1).last() == handle);
        }
        match handle {
            ActiveHandle::Text(authority) => {
                if authority.definition.same(definition) {
                    proof {
                        lemma_authority_stays(all, definition@, taken.index() as int + 1);
                    }
                    return Ok(authority);
                }
            },
            ActiveHandle::Broken(error) => {
                proof {
                    lemma_authority_stays(all, definition@, taken.index() as int + 1);
                }
                return Err(error);
            },
            ActiveHandle::Other => {},
        }
    }
    assert(all.take(all.len() as int) =~= all);
    let mut name = definition.element_kind.name().to_owned();
    name.append(":");
    name.append(definition.label.as_str());
    name.append(":");
    name.append(definition.property.as_str());
    Err(HelixDbError::IndexNotFound(name))
}

/// A mutation of one statistics row.
#[derive(Debug, Clone)]
pub enum MigrationParityTextStatisticsDamage {
    /// Remove the corpus row for one unpartitioned or named tenant partition.
    MissingCorpus { tenant: Option<String> },
    /// Replace one corpus row with the given totals.
    ReplaceCorpus { tenant: Option<String>, document_count: u64, total_token_count: u64 },
    /// Remove the accounting marker for one graph entity.
    MissingEntityMarker { entity_id: u64 },
}

/// A statistics row.
#[derive(Debug)]
pub enum StatisticsRow {
    Corpus { index_id: u64, generation: u64, partition: TextPartition },
    Entity(TextEntityKey),
}

/// What is done to a statistics row.
#[derive(Debug)]
pub struct DamagePlan {
    pub row: StatisticsRow,
    /// Document count and token count to put in its place; `None` removes the
    /// row.
    pub replacement: Option<(u64, u64)>,
}

/// Whether the plan damages what was asked for, in the given generation.
pub open spec fn plan_fits(
    plan: DamagePlan,
    authority: TextAuthority,
    partitioned: bool,
    damage: MigrationParityTextStatisticsDamage,
) -> bool {
    match damage {
        MigrationParityTextStatisticsDamage::MissingCorpus { tenant } => {
            &&& partitioned == tenant is Some
            &&& plan.row == (StatisticsRow::Corpus {
                index_id: authority.index_id,
                generation: authority.generation,
                partition: partition_of(tenant),
            })
            &&& plan.replacement is None
        },
        MigrationParityTextStatisticsDamage::ReplaceCorpus {
            tenant,
            document_count,
            total_token_count,
        } => {
            &&& partitioned == tenant is Some
            &&& plan.row == (StatisticsRow::Corpus {
                index_id: authority.index_id,
                generation: authority.generation,
                partition: partition_of(tenant),
            })
            &&& plan.replacement == Some((document_count, total_token_count))
        },
        MigrationParityTextStatisticsDamage::MissingEntityMarker { entity_id } => {
            &&& plan.row == StatisticsRow::Entity(
                TextEntityKey {
                    index_id: authority.index_id,
                    generation: authority.generation,
                    entity_kind: authority.definition.element_kind,
                    entity_id,
                },
            )
            &&& plan.replacement is None
        },
    }
}

/// The partition of a tenant, or the whole index without one.
pub open spec fn partition_of(tenant: Option<String>) -> TextPartition {
    match tenant {
        Some(tenant) => TextPartition::Tenant(tenant),
        None => TextPartition::Unpartitioned,
    }
}

/// The tenant that a mutation names, if it is about a corpus row.
pub open spec fn damaged_tenant(damage: MigrationParityTextStatisticsDamage) -> Option<
    Option<String>,
> {
    match damage {
        MigrationParityTextStatisticsDamage::MissingCorpus { tenant } => Some(tenant),
        MigrationParityTextStatisticsDamage::ReplaceCorpus { tenant, .. } => Some(tenant),
        MigrationParityTextStatisticsDamage::MissingEntityMarker { .. } => None,
    }
}

/// What is wrong with the tenant that a mutation names.
pub open spec fn tenant_fault(partitioned: bool, damage: MigrationParityTextStatisticsDamage) -> Option<
    HelixDbErrorView,
> {
    match damaged_tenant(damage) {
        Some(tenant) => if partitioned && tenant is None {
            Some(
                HelixDbErrorView::Config("partitioned text statistics damage requires a tenant"@),
            )
        } else if !partitioned && tenant is Some {
            Some(
                HelixDbErrorView::Config(
                    "unpartitioned text statistics damage cannot select a tenant"@,
                ),
            )
        } else {
            None
        },
        None => None,
    }
}

/// Which row of which generation a mutation changes, and how.
pub fn plan_text_statistics_damage(
    handles: Vec<ActiveHandle>,
    definition: &TextDefinition,
    damage: MigrationParityTextStatisticsDamage,
) -> (plan: Result<DamagePlan, HelixDbError>)
    ensures
        match first_authority(handles@, definition@) {
            None => plan matches Err(error) && error@ == HelixDbErrorView::IndexNotFound(
                element_name(definition.element_kind) + ":"@ + definition.label@ + ":"@
                    + definition.property@,
            ),
            Some(Err(broken)) => plan matches Err(error) && error == broken,
            Some(Ok(authority)) => match plan {
                Ok(plan) => plan_fits(plan, authority, definition.tenant_property is Some, damage),
                Err(error) => tenant_fault(definition.tenant_property is Some, damage) == Some(
                    error@,
                ),
            },
        },
{
    let authority = match find_text_authority(handles, definition) {
        Ok(authority) => authority,
        Err(error) => {
            return Err(error);
        },
    };
    let partitioned = definition.tenant_property.is_some();
    proof {
        lemma_found_definition(handles@, definition@);
    }
    match damage {
        MigrationParityTextStatisticsDamage::MissingCorpus { tenant } => {
            match migration_parity_text_partition(partitioned, tenant) {
                Ok(partition) => Ok(
                    DamagePlan {
                        row: StatisticsRow::Corpus {
                            index_id: authority.index_id,
                            generation: authority.generation,
                            partition,
                        },
                        replacement: None,
                    },
                ),
                Err(error) => Err(error),
            }
        },
        MigrationParityTextStatisticsDamage::ReplaceCorpus {
            tenant,
            document_count,
            total_token_count,
        } => {
            match migration_parity_text_partition(partitioned, tenant) {
                Ok(partition) => Ok(
                    DamagePlan {
                        row: StatisticsRow::Corpus {
                            index_id: authority.index_id,
                            generation: authority.generation,
                            partition,
                        },
                        replacement: Some((document_count, total_token_count)),
                    },
                ),
                Err(error) => Err(error),
            }
        },
        MigrationParityTextStatisticsDamage::MissingEntityMarker { entity_id } => Ok(
            DamagePlan {
                row: StatisticsRow::Entity(
                    TextEntityKey {
                        index_id: authority.index_id,
                        generation: authority.generation,
                        entity_kind: definition.element_kind,
                        entity_id,
                    },
                ),
                replacement: None,
            },
        ),
    }
}

/// The index that is found has the definition that was looked for.
proof fn lemma_found_definition(handles: Seq<ActiveHandle>, definition: TextDefinitionModel)
    ensures
        first_authority(handles, definition) matches Some(Ok(authority))
            ==> authority.definition@ == definition,
    decreases handles.len(),
{
    if handles.len() > 0 {
        lemma_found_definition(handles.drop_last(), definition);
    }
}

/// Totals come by index, then by generation, then by partition, and only then
/// by what they count.
pub proof fn law_totals_are_ordered_by_their_corpus(
    a: MigrationParityTextCorpusStatistics,
    b: MigrationParityTextCorpusStatistics,
)
    ensures
        a.index_id < b.index_id ==> a.ranked(&b) == Rank::Less,
        a.index_id == b.index_id && a.generation < b.generation ==> a.ranked(&b) == Rank::Less,
        a.index_id == b.index_id && a.generation == b.generation && bytes_precede(
            a.partition_bytes@,
            b.partition_bytes@,
        ) ==> a.ranked(&b) == Rank::Less,
        a.index_id == b.index_id && a.generation == b.generation && a.partition_bytes@
            == b.partition_bytes@ && a.document_count < b.document_count ==> a.ranked(&b)
            == Rank::Less,
        a.index_id == b.index_id && a.generation == b.generation && a.partition_bytes@
            == b.partition_bytes@ && a.document_count == b.document_count && a.total_token_count
            < b.total_token_count ==> a.ranked(&b) == Rank::Less,
{
    lemma_bytes_order(a.partition_bytes@, b.partition_bytes@);
}

/// Document frequencies come by index, then by generation, by partition and by
/// term.
pub proof fn law_frequencies_are_ordered_by_their_term(
    a: MigrationParityTextTermStatistics,
    b: MigrationParityTextTermStatistics,
)
    ensures
        a.index_id < b.index_id ==> a.ranked(&b) == Rank::Less,
        a.index_id == b.index_id && a.generation < b.generation ==> a.ranked(&b) == Rank::Less,
        a.index_id == b.index_id && a.generation == b.generation && bytes_precede(
            a.partition_bytes@,
            b.partition_bytes@,
        ) ==> a.ranked(&b) == Rank::Less,
        a.index_id == b.index_id && a.generation == b.generation && a.partition_bytes@
            == b.partition_bytes@ && bytes_precede(a.term@, b.term@) ==> a.ranked(&b)
            == Rank::Less,
        a.index_id == b.index_id && a.generation == b.generation && a.partition_bytes@
            == b.partition_bytes@ && a.term@ == b.term@ && a.document_frequency
            < b.document_frequency ==> a.ranked(&b) == Rank::Less,
{
    lemma_bytes_order(a.partition_bytes@, b.partition_bytes@);
    lemma_bytes_order(a.term@, b.term@);
}

/// Contributions come by index, then by generation, by kind and by entity, what
/// is absent before what is present.
pub proof fn law_contributions_are_ordered_by_their_entity(
    a: MigrationParityTextEntityStatistics,
    b: MigrationParityTextEntityStatistics,
)
    ensures
        a.index_id < b.index_id ==> a.ranked(&b) == Rank::Less,
        a.index_id == b.index_id && a.generation < b.generation ==> a.ranked(&b) == Rank::Less,
        a.index_id == b.index_id && a.generation == b.generation && rank_text(
            a.entity_kind@,
            b.entity_kind@,
        ) == Rank::Less ==> a.ranked(&b) == Rank::Less,
        a.index_id == b.index_id && a.generation == b.generation && a.entity_kind@
            == b.entity_kind@ && a.entity_id < b.entity_id ==> a.ranked(&b) == Rank::Less,
        a.index_id == b.index_id && a.generation == b.generation && a.entity_kind@
            == b.entity_kind@ && a.entity_id == b.entity_id && a.contribution is Absent
            && b.contribution is Present ==> a.ranked(&b) == Rank::Less,
{
    String::rank_reflexive(&a.entity_kind);
}

/// A totals row is evidence of its own index, generation, partition and counts,
/// and is refused exactly if its key names another index, generation or
/// partition.
pub proof fn law_totals_belong_to_their_key(
    key: TextCorpusKey,
    row: TextCorpusRow,
    statistics: Result<MigrationParityTextCorpusStatistics, HelixDbError>,
)
    requires
        call_ensures(text_corpus_statistics, (&key, row), statistics),
    ensures
        statistics is Err <==> key.index_id != row.index_id || key.generation != row.generation
            || key.partition@ != row.partition@,
        statistics matches Err(error) ==> error@ is InvariantViolation,
        statistics matches Ok(found) ==> {
            &&& found.index_id == key.index_id
            &&& found.generation == key.generation
            &&& found.partition_bytes@ == row.partition_bytes@
            &&& found.document_count == row.document_count
            &&& found.total_token_count == row.total_token_count
        },
{
}

/// A frequency row is evidence of its own term and count, and is refused exactly
/// if its key names another index, generation, partition or digest of the term.
pub proof fn law_frequencies_belong_to_their_key(
    key: TextTermKey,
    row: TextTermRow,
    statistics: Result<MigrationParityTextTermStatistics, HelixDbError>,
)
    requires
        call_ensures(text_term_statistics, (&key, row), statistics),
    ensures
        statistics is Err <==> key.corpus.index_id != row.index_id || key.corpus.generation
            != row.generation || key.corpus.partition@ != row.partition@ || key.term@ != sha256_of(
            row.term@,
        ),
        statistics matches Err(error) ==> error@ is InvariantViolation,
        statistics matches Ok(found) ==> {
            &&& found.index_id == key.corpus.index_id
            &&& found.generation == key.corpus.generation
            &&& found.partition_bytes@ == row.partition_bytes@
            &&& found.term@ == row.term@
            &&& found.document_frequency == row.document_frequency
        },
{
}

/// A contribution row is evidence of the entity that its key names, nodes and
/// edges told apart, and is refused exactly if it belongs to another entity.
pub proof fn law_contributions_belong_to_their_key(
    key: TextEntityKey,
    row: TextEntityRow,
    statistics: Result<MigrationParityTextEntityStatistics, HelixDbError>,
)
    requires
        call_ensures(text_entity_statistics, (&key, row), statistics),
    ensures
        statistics is Err <==> key.index_id != row.owner.index_id || key.generation
            != row.owner.generation || key.entity_kind != row.owner.entity_kind || key.entity_id
            != row.owner.entity_id,
        statistics matches Err(error) ==> error@ is InvariantViolation,
        statistics matches Ok(found) ==> {
            &&& found.index_id == key.index_id
            &&& found.generation == key.generation
            &&& found.entity_id == key.entity_id
            &&& found.entity_kind@ == "Node"@ <==> key.entity_kind == IndexElementKind::Node
            &&& found.entity_kind@ == "Edge"@ <==> key.entity_kind == IndexElementKind::Edge
            &&& found.contribution == row.contribution
        },
{
    reveal_strlit("Node");
    reveal_strlit("Edge");
    assert("Node"@[0] != "Edge"@[0]);
}

/// A tenant has to be named exactly for a partitioned index, and then the
/// partition is that tenant's.
pub proof fn law_tenants_select_their_partition(
    partitioned: bool,
    tenant: Option<String>,
    partition: Result<TextPartition, HelixDbError>,
)
    requires
        call_ensures(migration_parity_text_partition, (partitioned, tenant), partition),
    ensures
        partition is Ok <==> (partitioned <==> tenant is Some),
        partition matches Ok(TextPartition::Tenant(name)) ==> tenant == Some(name),
        partition matches Ok(TextPartition::Unpartitioned) ==> tenant is None && !partitioned,
        partition matches Err(error) ==> error@ is Config,
{
}

/// Two definitions are the same exactly if they agree in everything that they
/// say.
pub proof fn law_definitions_are_the_same_in_everything(
    a: TextDefinition,
    b: TextDefinition,
    same: bool,
)
    requires
        call_ensures(TextDefinition::same, (&a, &b), same),
    ensures
        same <==> a.element_kind == b.element_kind && a.label@ == b.label@ && a.property@
            == b.property@ && a.analyzer@ == b.analyzer@ && a.positions_enabled
            == b.positions_enabled && (a.tenant_property is Some <==> b.tenant_property is Some)
            && (a.tenant_property is Some && b.tenant_property is Some ==> a.tenant_property->Some_0@
            == b.tenant_property->Some_0@),
{
}

/// Whether a search for the definition stops at the handle.
pub open spec fn stops_at(handle: ActiveHandle, definition: TextDefinitionModel) -> bool {
    match handle {
        ActiveHandle::Text(authority) => authority.definition@ == definition,
        ActiveHandle::Broken(_) => true,
        ActiveHandle::Other => false,
    }
}

proof fn lemma_first_authority(handles: Seq<ActiveHandle>, definition: TextDefinitionModel)
    ensures
        match first_authority(handles, definition) {
            None => forall|i: int|
                0 <= i < handles.len() ==> !stops_at(#[trigger] handles[i], definition),
            Some(found) => exists|at: int|
                #![trigger handles[at]]
                0 <= at < handles.len() && stops_at(handles[at], definition) && (forall|i: int|
                    0 <= i < at ==> !stops_at(#[trigger] handles[i], definition)) && match found {
                    Ok(authority) => handles[at] == ActiveHandle::Text(authority),
                    Err(error) => handles[at] == ActiveHandle::Broken(error),
                },
        },
    decreases handles.len(),
{
    if handles.len() > 0 {
        let front = handles.drop_last();
        lemma_first_authority(front, definition);
        match first_authority(front, definition) {
            Some(found) => {
                let at = choose|at: int|
                    #![trigger front[at]]
                    0 <= at < front.len() && stops_at(front[at], definition) && (forall|i: int|
                        0 <= i < at ==> !stops_at(#[trigger] front[i], definition)) && match found {
                        Ok(authority) => front[at] == ActiveHandle::Text(authority),
                        Err(error) => front[at] == ActiveHandle::Broken(error),
                    };
                assert(handles[at] == front[at]);
                assert forall|i: int| 0 <= i < at implies !stops_at(
                    #[trigger] handles[i],
                    definition,
                ) by {
                    assert(handles[i] == front[i]);
                }
            },
            None => {
                let last = handles.len() - 1;
                assert forall|i: int| 0 <= i < last implies !stops_at(
                    #[trigger] handles[i],
                    definition,
                ) by {
                    assert(handles[i] == front[i]);
                }
                assert(handles[last] == handles.last());
            },
        }
    }
}

/// A text index is found by its definition: the first one that has it, unless a
/// text index before it cannot serve reads. Without either, the index is
/// reported as missing.
pub proof fn law_text_indexes_are_found_by_definition(
    handles: Vec<ActiveHandle>,
    definition: TextDefinition,
    found: Result<TextAuthority, HelixDbError>,
)
    requires
        call_ensures(find_text_authority, (handles, &definition), found),
    ensures
        found matches Ok(authority) ==> authority.definition@ == definition@ && exists|at: int|
            #![trigger handles@[at]]
            0 <= at < handles@.len() && handles@[at] == ActiveHandle::Text(authority) && forall|
                i: int,
            |
                0 <= i < at ==> !stops_at(#[trigger] handles@[i], definition@),
        (forall|i: int| 0 <= i < handles@.len() ==> !stops_at(#[trigger] handles@[i], definition@))
            ==> found is Err && found->Err_0@ is IndexNotFound,
        (exists|at: int|
            #![trigger handles@[at]]
            0 <= at < handles@.len() && handles@[at] is Text && stops_at(handles@[at], definition@)
                && forall|i: int| 0 <= i < at ==> !(#[trigger] handles@[i] is Broken)) ==> found is Ok,
{
    lemma_first_authority(handles@, definition@);
    lemma_found_definition(handles@, definition@);
    if exists|at: int|
        #![trigger handles@[at]]
        0 <= at < handles@.len() && handles@[at] is Text && stops_at(handles@[at], definition@)
            && forall|i: int| 0 <= i < at ==> !(#[trigger] handles@[i] is Broken) {
        let at = choose|at: int|
            #![trigger handles@[at]]
            0 <= at < handles@.len() && handles@[at] is Text && stops_at(handles@[at], definition@)
                && forall|i: int| 0 <= i < at ==> !(#[trigger] handles@[i] is Broken);
        let first = first_authority(handles@, definition@);
        assert(first is Some);
        if first->Some_0 is Err {
            let stop = choose|stop: int|
                #![trigger handles@[stop]]
                0 <= stop < handles@.len() && stops_at(handles@[stop], definition@) && (forall|
                    i: int,
                |
                    0 <= i < stop ==> !stops_at(#[trigger] handles@[i], definition@))
                    && handles@[stop] == ActiveHandle::Broken(first->Some_0->Err_0);
            assert(handles@[stop] is Broken);
            if at < stop {
                assert(!stops_at(handles@[at], definition@));
            }
        }
    }
}

/// A mutation changes a row of the very generation that serves the definition:
/// the corpus row of the partition that it names, or the marker of the entity
/// that it names, of the kind that the index holds. What is missing is removed;
/// only a replacement writes, and it writes the counts that were given. It is
/// refused where naming a tenant and being partitioned do not go together.
pub proof fn law_damage_hits_the_named_row(
    handles: Vec<ActiveHandle>,
    definition: TextDefinition,
    damage: MigrationParityTextStatisticsDamage,
    found: Result<TextAuthority, HelixDbError>,
    plan: Result<DamagePlan, HelixDbError>,
)
    requires
        call_ensures(find_text_authority, (handles, &definition), found),
        call_ensures(plan_text_statistics_damage, (handles, &definition, damage), plan),
    ensures
        found matches Err(missing) ==> plan is Err && plan->Err_0@ == missing@,
        found is Ok ==> (plan is Err <==> match damage {
            MigrationParityTextStatisticsDamage::MissingCorpus { tenant } => (tenant is Some)
                != (definition.tenant_property is Some),
            MigrationParityTextStatisticsDamage::ReplaceCorpus { tenant, .. } => (tenant is Some)
                != (definition.tenant_property is Some),
            MigrationParityTextStatisticsDamage::MissingEntityMarker { .. } => false,
        }),
        found is Ok && plan is Ok ==> match (damage, plan->Ok_0.row) {
            (
                MigrationParityTextStatisticsDamage::MissingCorpus { tenant },
                StatisticsRow::Corpus { index_id, generation, partition },
            ) => index_id == found->Ok_0.index_id && generation == found->Ok_0.generation
                && plan->Ok_0.replacement is None && match partition {
                TextPartition::Tenant(name) => tenant == Some(name),
                TextPartition::Unpartitioned => tenant is None,
            },
            (
                MigrationParityTextStatisticsDamage::ReplaceCorpus {
                    tenant,
                    document_count,
                    total_token_count,
                },
                StatisticsRow::Corpus { index_id, generation, partition },
            ) => index_id == found->Ok_0.index_id && generation == found->Ok_0.generation
                && plan->Ok_0.replacement == Some((document_count, total_token_count))
                && match partition {
                TextPartition::Tenant(name) => tenant == Some(name),
                TextPartition::Unpartitioned => tenant is None,
            },
            (
                MigrationParityTextStatisticsDamage::MissingEntityMarker { entity_id },
                StatisticsRow::Entity(key),
            ) => key.index_id == found->Ok_0.index_id && key.generation == found->Ok_0.generation
                && key.entity_id == entity_id && key.entity_kind == definition.element_kind
                && plan->Ok_0.replacement is None,
            _ => false,
        },
{
    lemma_found_definition(handles@, definition@);
}

} // verus!
