//! Benchmark of exact traversal-scoped text search: its corpus, its matrix of
//! cases and its oracle.

use std::sync::Arc;

use vstd::prelude::*;

use crate::assoc::AssocMap;
use crate::codec::{be_bytes, push_be};
use crate::digest::{hex_digest, sha256_of};
use crate::error::{config_error, invariant_violation, HelixDbError, HelixDbErrorView};
use crate::order::same_text;
use crate::render::{decimal, decimal_string, hex_of_bytes};
use crate::split_cache::memory::{saturating_difference, saturating_sum};
use crate::split_cache::state::advanced;
use crate::text::hits::{at_most, best_candidates, merge_candidates, TextSearchCandidate};
use crate::text::restricted::{
    too_many_candidates, RestrictedTextCandidates, TextSearchScope, MAX_RESTRICTED_CANDIDATES,
};

verus! {

const CANDIDATE_PERMUTATION_MULTIPLIER: u128 = 65_537;

/// Physical corpus shape measured before or after compaction.
#[derive(Debug, Clone, Copy, PartialEq, Eq, Structural)]
pub enum FtsPrefilterBenchmarkLayout {
    MultiSplit,
    Compacted,
}

impl FtsPrefilterBenchmarkLayout {
    /// The layout's name in reports.
    pub fn as_str(self) -> (name: &'static str)
        ensures
            name@ == match self {
                FtsPrefilterBenchmarkLayout::MultiSplit => "multi_split"@,
                FtsPrefilterBenchmarkLayout::Compacted => "compacted"@,
            },
    {
        match self {
            FtsPrefilterBenchmarkLayout::MultiSplit => "multi_split",
            FtsPrefilterBenchmarkLayout::Compacted => "compacted",
        }
    }
}

/// Restricted collector or unrestricted baseline selected for one sample.
#[derive(Debug, Clone, Copy, PartialEq, Eq, Structural)]
pub enum FtsPrefilterBenchmarkStrategy {
    Collector,
    Unrestricted,
}

impl FtsPrefilterBenchmarkStrategy {
    /// The strategy's name in reports.
    pub fn as_str(self) -> (name: &'static str)
        ensures
            name@ == match self {
                FtsPrefilterBenchmarkStrategy::Collector => "collector"@,
                FtsPrefilterBenchmarkStrategy::Unrestricted => "unrestricted"@,
            },
    {
        match self {
            FtsPrefilterBenchmarkStrategy::Collector => "collector",
            FtsPrefilterBenchmarkStrategy::Unrestricted => "unrestricted",
        }
    }
}

/// Whether the text is one of the benchmark's query terms.
pub open spec fn is_query_term(query: Seq<char>) -> bool {
    query == "rareterm"@ || query == "mediumterm"@ || query == "commonterm"@
}

/// One validated point in the benchmark matrix.
#[derive(Debug, Clone, Copy, PartialEq, Eq)]
pub struct FtsPrefilterBenchmarkCase {
    pub layout: FtsPrefilterBenchmarkLayout,
    pub strategy: FtsPrefilterBenchmarkStrategy,
    pub candidate_count: usize,
    pub query: &'static str,
    pub k: usize,
}

impl FtsPrefilterBenchmarkCase {
    /// Checks the numbers and the query of a case.
    pub fn try_new(
        layout: FtsPrefilterBenchmarkLayout,
        strategy: FtsPrefilterBenchmarkStrategy,
        candidate_count: usize,
        query: &'static str,
        k: usize,
        document_count: usize,
    ) -> (checked: Result<Self, HelixDbError>)
        ensures
            match checked {
                Ok(case) => {
                    &&& 0 < candidate_count <= document_count
                    &&& is_query_term(query@)
                    &&& k > 0
                    &&& case == (FtsPrefilterBenchmarkCase {
                        layout,
                        strategy,
                        candidate_count,
                        query,
                        k,
                    })
                },
                Err(error) => error@ == HelixDbErrorView::Config(
                    if candidate_count == 0 || candidate_count > document_count {
                        "FTS prefilter benchmark candidate count must be in 1..="@ + decimal(
                            document_count as nat,
                        )
                    } else if !is_query_term(query@) {
                        "FTS prefilter benchmark query must be one of [\"rareterm\", \"mediumterm\", \"commonterm\"]"@
                    } else {
                        "FTS prefilter benchmark k must be positive"@
                    },
                ) && (candidate_count == 0 || candidate_count > document_count || !is_query_term(
                    query@,
                ) || k == 0),
            },
    {
        if candidate_count == 0 || candidate_count > document_count {
            let mut message = "FTS prefilter benchmark candidate count must be in 1..=".to_owned();
            let limit = decimal_string(document_count as u64);
            message.append(limit.as_str());
            return Err(config_error(message.as_str()));
        }
        if !(same_text(query, "rareterm") || same_text(query, "mediumterm") || same_text(
            query,
            "commonterm",
        )) {
            return Err(
                config_error(
                    "FTS prefilter benchmark query must be one of [\"rareterm\", \"mediumterm\", \"commonterm\"]",
                ),
            );
        }
        if k == 0 {
            return Err(config_error("FTS prefilter benchmark k must be positive"));
        }
        Ok(FtsPrefilterBenchmarkCase { layout, strategy, candidate_count, query, k })
    }
}

/// Measurements produced by one exact search sample.
#[derive(Debug, Clone, PartialEq, Eq)]
pub struct FtsPrefilterBenchmarkSample {
    pub split_count: usize,
    pub candidate_count: usize,
    pub object_store_reads: u64,
    pub object_store_bytes: u64,
    pub result_count: usize,
    pub result_digest: String,
}

/// Reads of an object store and the bytes that they asked for.
#[derive(Debug, Clone, Copy, PartialEq, Eq, Structural)]
pub struct ReadMeter {
    pub reads: u64,
    pub bytes: u64,
}

impl ReadMeter {
    /// A meter that has seen nothing.
    pub fn new() -> (meter: Self)
        ensures
            meter == (ReadMeter { reads: 0, bytes: 0 }),
    {
        ReadMeter { reads: 0, bytes: 0 }
    }

    /// Counts a read of the given range.
    pub fn record(&mut self, start: u64, end: u64)
        ensures
            final(self).reads == advanced(old(self).reads, 1),
            final(self).bytes == advanced(
                old(self).bytes,
                saturating_difference(end, start) as int,
            ),
    {
        self.reads = self.reads.wrapping_add(1);
        self.bytes = self.bytes.wrapping_add(end.saturating_sub(start));
    }
}

/// The quotient, rounded up.
pub open spec fn ceiling(a: nat, b: nat) -> nat {
    if b == 0 {
        0
    } else {
        (a + b - 1) as nat / b
    }
}

/// The document ranges of the corpus's splits: of equal length, but for the
/// last one, which may be shorter.
pub fn benchmark_splits(document_count: usize, split_count: usize) -> (ranges: Result<
    Vec<(usize, usize)>,
    HelixDbError,
>)
    ensures
        match ranges {
            Ok(ranges) => {
                &&& 0 < split_count <= document_count
                &&& splits_cover(ranges@, document_count, ceiling(document_count as nat, split_count as nat))
            },
            Err(error) => {
                &&& document_count == 0 || split_count == 0 || split_count > document_count
                &&& error@ == HelixDbErrorView::Config(
                    "FTS prefilter benchmark requires documents >= splits > 0"@,
                )
            },
        },
{
    if document_count == 0 || split_count == 0 || split_count > document_count {
        return Err(config_error("FTS prefilter benchmark requires documents >= splits > 0"));
    }
    proof {
        lemma_ceiling(document_count as int, split_count as int);
    }
    let whole = document_count / split_count;
    let chunk: usize = if document_count % split_count == 0 {
        whole
    } else {
        whole + 1
    };
    let mut ranges: Vec<(usize, usize)> = Vec::new();
    let mut start: usize = 0;
    assert(0 * chunk == 0) by (nonlinear_arith);
    while start < document_count
        invariant
            0 < chunk <= document_count,
            start <= document_count,
            start < document_count ==> start == ranges@.len() * chunk,
            start == document_count ==> ranges@.len() * chunk >= document_count,
            ranges@.len() > 0 ==> (ranges@.len() - 1) * chunk < document_count,
            forall|i: int|
                0 <= i < ranges@.len() ==> (#[trigger] ranges@[i]).0 == i * chunk && ranges@[i].1
                    == if (i + 1) * chunk < document_count {
                    (i + 1) * chunk
                } else {
                    document_count as int
                },
        decreases document_count - start,
    {
        let end: usize = if document_count - start > chunk {
            start + chunk
        } else {
            document_count
        };
        proof {
            let n = ranges@.len() as int;
            assert((n + 1) * chunk == n * chunk + chunk) by (nonlinear_arith);
        }
        ranges.push((start, end));
        start = end;
    }
    Ok(ranges)
}

/// Whether the ranges cut the documents into chunks of the given length.
pub open spec fn splits_cover(
    ranges: Seq<(usize, usize)>,
    document_count: usize,
    chunk: nat,
) -> bool {
    &&& chunk > 0
    &&& (ranges.len() - 1) * chunk < document_count <= ranges.len() * chunk
    &&& forall|i: int|
        0 <= i < ranges.len() ==> (#[trigger] ranges[i]).0 == i * chunk && ranges[i].1 == if (i + 1)
            * chunk < document_count {
            (i + 1) * chunk
        } else {
            document_count as int
        }
}

proof fn lemma_ceiling(a: int, b: int)
    requires
        0 < b <= a,
    ensures
        ceiling(a as nat, b as nat) == if a % b == 0 {
            a / b
        } else {
            a / b + 1
        },
        0 < ceiling(a as nat, b as nat) <= a,
{
    let q = a / b;
    let r = a % b;
    assert(a == b * q + r && 0 <= r < b && q >= 1 && q <= a) by (nonlinear_arith)
        requires
            0 < b <= a,
            q == a / b,
            r == a % b,
    ;
    if r == 0 {
        assert((a + b - 1) / b == q) by (nonlinear_arith)
            requires
                a == b * q,
                b > 0,
        ;
    } else {
        assert((a + b - 1) / b == q + 1) by (nonlinear_arith)
            requires
                a == b * q + r,
                0 < r < b,
        ;
        assert(q < a) by (nonlinear_arith)
            requires
                a == b * q + r,
                b >= 1,
                q >= 1,
                r > 0,
        ;
    }
}

/// `text` and `count` times the word, all separated by single spaces.
pub open spec fn with_words(text: Seq<char>, word: Seq<char>, count: nat) -> Seq<char>
    decreases count,
{
    if count == 0 {
        text
    } else {
        let front = with_words(text, word, (count - 1) as nat);
        if front.len() == 0 {
            word
        } else {
            front + " "@ + word
        }
    }
}

/// The text of a corpus document: query terms by the divisors of its number, a
/// background word where there is none, and padding.
pub open spec fn document_text(entity_id: nat) -> Seq<char> {
    let rare = with_words(
        Seq::empty(),
        "rareterm"@,
        if entity_id % 1_000 == 0 {
            1 + entity_id % 3
        } else {
            0
        },
    );
    let medium = with_words(
        rare,
        "mediumterm"@,
        if entity_id % 10 == 0 {
            1 + entity_id % 4
        } else {
            0
        },
    );
    let common = with_words(
        medium,
        "commonterm"@,
        if entity_id % 5 != 0 {
            1 + entity_id % 5
        } else {
            0
        },
    );
    let terms = if common.len() == 0 {
        "backgroundterm"@
    } else {
        common
    };
    with_words(terms, "padding"@, entity_id % 7)
}

fn append_words(text: &mut String, word: &str, count: usize)
    ensures
        final(text)@ == with_words(old(text)@, word@, count as nat),
{
    let ghost start = text@;
    let mut i: usize = 0;
    while i < count
        invariant
            i <= count,
            text@ == with_words(start, word@, i as nat),
        decreases count - i,
    {
        if text.as_str().unicode_len() != 0 {
            text.append(" ");
            text.append(word);
        } else {
            text.append(word);
            assert(text@ =~= word@);
        }
        i = i + 1;
    }
}

/// The text of a corpus document.
pub fn benchmark_document(entity_id: usize) -> (text: String)
    ensures
        text@ == document_text(entity_id as nat),
{
    let mut text = String::new();
    assert(text@ =~= Seq::<char>::empty());
    if entity_id % 1_000 == 0 {
        append_words(&mut text, "rareterm", 1 + entity_id % 3);
    }
    if entity_id % 10 == 0 {
        append_words(&mut text, "mediumterm", 1 + entity_id % 4);
    }
    if entity_id % 5 != 0 {
        append_words(&mut text, "commonterm", 1 + entity_id % 5);
    }
    if text.as_str().unicode_len() == 0 {
        text.append("backgroundterm");
        assert(text@ =~= "backgroundterm"@);
    }
    append_words(&mut text, "padding", entity_id % 7);
    text
}

/// The candidate at a place of the permutation of all documents.
pub open spec fn candidate_at(document_count: int, ordinal: int) -> int {
    (ordinal * 65_537) % document_count
}

/// The first candidates in the permutation of all documents.
pub fn benchmark_candidate_ids(document_count: usize, candidate_count: usize) -> (ids: Vec<u64>)
    requires
        document_count > 0,
    ensures
        ids@.len() == candidate_count,
        forall|i: int|
            0 <= i < ids@.len() ==> #[trigger] ids@[i] == candidate_at(document_count as int, i),
{
    let mut ids: Vec<u64> = Vec::new();
    let mut ordinal: usize = 0;
    while ordinal < candidate_count
        invariant
            ordinal <= candidate_count,
            document_count > 0,
            ids@.len() == ordinal,
            forall|i: int|
                0 <= i < ids@.len() ==> #[trigger] ids@[i] == candidate_at(
                    document_count as int,
                    i,
                ),
        decreases candidate_count - ordinal,
    {
        let permuted: u128 = (ordinal as u128 * CANDIDATE_PERMUTATION_MULTIPLIER)
            % document_count as u128;
        ids.push(permuted as u64);
        ordinal = ordinal + 1;
    }
    ids
}

/// Candidates at different places are different documents, whenever the number
/// of documents and the multiplier have no common divisor: that is, when some
/// multiples of both differ by one.
pub proof fn law_candidates_are_distinct(
    document_count: int,
    first: int,
    second: int,
    multiplier_factor: int,
    count_factor: int,
)
    requires
        0 <= first < second < document_count,
        multiplier_factor * 65_537 + count_factor * document_count == 1,
    ensures
        candidate_at(document_count, first) != candidate_at(document_count, second),
{
    let n = document_count;
    let d = second - first;
    if candidate_at(n, first) == candidate_at(n, second) {
        let x = second * 65_537;
        let y = first * 65_537;
        vstd::arithmetic::div_mod::lemma_fundamental_div_mod(x, n);
        vstd::arithmetic::div_mod::lemma_fundamental_div_mod(y, n);
        let q = x / n - y / n;
        assert(d * 65_537 == n * q) by (nonlinear_arith)
            requires
                d == second - first,
                x == second * 65_537,
                y == first * 65_537,
                x == n * (x / n) + x % n,
                y == n * (y / n) + y % n,
                x % n == y % n,
                q == x / n - y / n,
        ;
        let m = multiplier_factor * q + count_factor * d;
        assert(d == n * m) by (nonlinear_arith)
            requires
                d * 65_537 == n * q,
                multiplier_factor * 65_537 + count_factor * n == 1,
                m == multiplier_factor * q + count_factor * d,
        ;
        assert(false) by (nonlinear_arith)
            requires
                d == n * m,
                0 < d < n,
        ;
    }
}

/// What the analyzer says of one document.
#[derive(Debug)]
pub struct AnalyzedDocument {
    pub token_count: u64,
    /// Each term of the document once.
    pub unique_terms: Vec<Vec<u8>>,
}

/// Statistics of the whole corpus.
#[derive(Debug)]
pub struct CorpusStatistics {
    pub document_count: u64,
    pub total_token_count: u64,
    /// In how many documents each term occurs.
    pub document_frequencies: AssocMap<Vec<u8>, u64>,
}

/// All tokens of the documents; the sum stays at the largest 64-bit number.
pub open spec fn total_tokens(documents: Seq<AnalyzedDocument>) -> u64
    decreases documents.len(),
{
    if documents.len() == 0 {
        0
    } else {
        saturating_sum(total_tokens(documents.drop_last()), documents.last().token_count)
    }
}

/// How often a term is listed.
pub open spec fn listed(terms: Seq<Vec<u8>>, term: Seq<u8>) -> nat
    decreases terms.len(),
{
    if terms.len() == 0 {
        0
    } else {
        listed(terms.drop_last(), term) + if terms.last()@ == term {
            1nat
        } else {
            0
        }
    }
}

/// In how many documents a term is listed.
pub open spec fn frequency(documents: Seq<AnalyzedDocument>, term: Seq<u8>) -> nat
    decreases documents.len(),
{
    if documents.len() == 0 {
        0
    } else {
        frequency(documents.drop_last(), term) + listed(documents.last().unique_terms@, term)
    }
}

/// Whether the map holds the given count of each term that is counted at all,
/// up to the largest 64-bit number.
pub open spec fn holds_counts(
    map: Map<Seq<u8>, u64>,
    counts: spec_fn(Seq<u8>) -> nat,
) -> bool {
    forall|term: Seq<u8>|
        #![trigger map.dom().contains(term)]
        #![trigger map[term]]
        (map.dom().contains(term) <==> counts(term) > 0) && (map.dom().contains(term) ==> map[term]
            == if counts(term) > u64::MAX {
            u64::MAX as nat
        } else {
            counts(term)
        })
}

fn copy_term(term: &Vec<u8>) -> (copy: Vec<u8>)
    ensures
        copy@ == term@,
{
    let mut copy: Vec<u8> = Vec::new();
    copy.extend_from_slice(term.as_slice());
    assert(copy@ =~= term@);
    copy
}

/// The statistics that scoring the corpus needs.
pub fn corpus_statistics(documents: &Vec<AnalyzedDocument>) -> (statistics: CorpusStatistics)
    ensures
        statistics.document_count == documents@.len(),
        statistics.total_token_count == total_tokens(documents@),
        holds_counts(
            statistics.document_frequencies@,
            |term: Seq<u8>| frequency(documents@, term),
        ),
{
    let mut total: u64 = 0;
    let mut frequencies: AssocMap<Vec<u8>, u64> = AssocMap::new();
    let mut i: usize = 0;
    while i < documents.len()
        invariant
            i <= documents.len(),
            total == total_tokens(documents@.take(i as int)),
            holds_counts(
                frequencies@,
                |term: Seq<u8>| frequency(documents@.take(i as int), term),
            ),
        decreases documents.len() - i,
    {
        let document = &documents[i];
        let ghost before = documents@.take(i as int);
        let ghost after = documents@.take(i as int + 1);
        assert(after.drop_last() =~= before);
        total = total.saturating_add(document.token_count);
        let terms = &document.unique_terms;
        let mut k: usize = 0;
        while k < terms.len()
            invariant
                k <= terms.len(),
                holds_counts(
                    frequencies@,
                    |term: Seq<u8>| frequency(before, term) + listed(terms@.take(k as int), term),
                ),
            decreases terms.len() - k,
        {
            let ghost old_map = frequencies@;
            let ghost old_counts = |term: Seq<u8>|
                frequency(before, term) + listed(terms@.take(k as int), term);
            let ghost new_counts = |term: Seq<u8>|
                frequency(before, term) + listed(terms@.take(k as int + 1), term);
            assert(terms@.take(k as int + 1).drop_last() =~= terms@.take(k as int));
            let count = match frequencies.get(&terms[k]) {
                Some(count) => count.saturating_add(1),
                None => 1,
            };
            let term = copy_term(&terms[k]);
            frequencies.insert(term, count);
            proof {
                let map = frequencies@;
                assert forall|t: Seq<u8>|
                    #![trigger map.dom().contains(t)]
                    #![trigger map[t]]
                    (map.dom().contains(t) <==> new_counts(t) > 0) && (map.dom().contains(t)
                        ==> map[t] == if new_counts(t) > u64::MAX {
                        u64::MAX as nat
                    } else {
                        new_counts(t)
                    }) by {
                    assert(old_map.dom().contains(t) <==> old_counts(t) > 0);
                    assert(new_counts(t) == old_counts(t) + if terms@[k as int]@ == t {
                        1nat
                    } else {
                        0
                    });
                }
            }
            k = k + 1;
        }
        proof {
            assert(terms@.take(k as int) =~= terms@);
            let map = frequencies@;
            let counts = |term: Seq<u8>| frequency(after, term);
            let inner = |term: Seq<u8>|
                frequency(before, term) + listed(terms@.take(k as int), term);
            assert forall|t: Seq<u8>|
                #![trigger map.dom().contains(t)]
                #![trigger map[t]]
                (map.dom().contains(t) <==> counts(t) > 0) && (map.dom().contains(t) ==> map[t]
                    == if counts(t) > u64::MAX {
                    u64::MAX as nat
                } else {
                    counts(t)
                }) by {
                assert(map.dom().contains(t) <==> inner(t) > 0);
                assert(counts(t) == inner(t));
            }
        }
        i = i + 1;
    }
    proof {
        assert(documents@.take(i as int) =~= documents@);
    }
    CorpusStatistics {
        document_count: documents.len() as u64,
        total_token_count: total,
        document_frequencies: frequencies,
    }
}

/// The scope of a case over a corpus: its candidates for the collector, none
/// for the baseline.
pub fn benchmark_scope(case: &FtsPrefilterBenchmarkCase, document_count: usize) -> (scope: Result<
    TextSearchScope,
    HelixDbError,
>)
    requires
        document_count > 0,
    ensures
        match (case.strategy, scope) {
            (FtsPrefilterBenchmarkStrategy::Unrestricted, Ok(TextSearchScope::Unrestricted)) =>
                true,
            (
                FtsPrefilterBenchmarkStrategy::Collector,
                Ok(TextSearchScope::Restricted(candidates)),
            ) => {
                &&& candidates@ == case_candidates(*case, document_count)
                &&& candidates@.len() <= MAX_RESTRICTED_CANDIDATES
            },
            (FtsPrefilterBenchmarkStrategy::Collector, Err(error)) => {
                &&& case_candidates(*case, document_count).len() > MAX_RESTRICTED_CANDIDATES
                &&& error@ == too_many_candidates(MAX_RESTRICTED_CANDIDATES)
            },
            _ => false,
        },
{
    match case.strategy {
        FtsPrefilterBenchmarkStrategy::Collector => {
            let ids = benchmark_candidate_ids(document_count, case.candidate_count);
            proof {
                assert forall|id: u64| #[trigger] ids@.to_set().contains(id) <==> is_candidate(
                    *case,
                    document_count,
                    id,
                ) by {
                    if ids@.contains(id) {
                        let i = choose|i: int| 0 <= i < ids@.len() && ids@[i] == id;
                        assert(candidate_at(document_count as int, i) == id);
                    }
                    if is_candidate(*case, document_count, id) {
                        let i = choose|i: int|
                            0 <= i < case.candidate_count && #[trigger] candidate_at(
                                document_count as int,
                                i,
                            ) == id;
                        assert(ids@[i] == id);
                    }
                }
                assert(ids@.to_set() =~= case_candidates(*case, document_count));
            }
            match RestrictedTextCandidates::from_ids(&ids) {
                Ok(candidates) => Ok(TextSearchScope::restricted(Arc::new(candidates))),
                Err(error) => Err(error),
            }
        },
        FtsPrefilterBenchmarkStrategy::Unrestricted => Ok(TextSearchScope::Unrestricted),
    }
}

/// Whether the document is a candidate of the case.
pub open spec fn is_candidate(
    case: FtsPrefilterBenchmarkCase,
    document_count: usize,
    id: u64,
) -> bool {
    exists|i: int|
        0 <= i < case.candidate_count && #[trigger] candidate_at(document_count as int, i) == id
}

/// The candidates of the case, each once.
pub open spec fn case_candidates(case: FtsPrefilterBenchmarkCase, document_count: usize) -> Set<
    u64,
> {
    Set::new(|id: u64| is_candidate(case, document_count, id))
}

/// The hits that the scope admits.
pub open spec fn admitted_hits(
    hits: Seq<TextSearchCandidate>,
    scope: TextSearchScope,
) -> Seq<TextSearchCandidate>
    decreases hits.len(),
{
    if hits.len() == 0 {
        Seq::empty()
    } else if scope.admits(hits.last().entity_id) {
        admitted_hits(hits.drop_last(), scope).push(hits.last())
    } else {
        admitted_hits(hits.drop_last(), scope)
    }
}

/// The exact result of a case: of all hits in order, the first `k` that the
/// scope admits.
pub open spec fn exact_hits(
    exhaustive: Seq<TextSearchCandidate>,
    scope: TextSearchScope,
    k: nat,
) -> Seq<TextSearchCandidate> {
    at_most(admitted_hits(exhaustive, scope), k)
}

/// Hits as a list of pairs of identifier and score bits.
pub open spec fn pairs_text(hits: Seq<TextSearchCandidate>) -> Seq<char> {
    "["@ + pairs_inner_text(hits) + "]"@
}

/// The pairs of such a list.
pub open spec fn pairs_inner_text(hits: Seq<TextSearchCandidate>) -> Seq<char>
    decreases hits.len(),
{
    if hits.len() == 0 {
        Seq::empty()
    } else {
        let pair = "("@ + decimal(hits.last().entity_id as nat) + ", "@ + decimal(
            hits.last().score as nat,
        ) + ")"@;
        if hits.len() == 1 {
            pair
        } else {
            pairs_inner_text(hits.drop_last()) + ", "@ + pair
        }
    }
}

fn render_pairs(hits: &Vec<TextSearchCandidate>) -> (text: String)
    ensures
        text@ == pairs_text(hits@),
{
    let mut inner = String::new();
    let mut i: usize = 0;
    assert(inner@ =~= pairs_inner_text(hits@.take(0)));
    while i < hits.len()
        invariant
            i <= hits.len(),
            inner@ == pairs_inner_text(hits@.take(i as int)),
        decreases hits.len() - i,
    {
        assert(hits@.take(i as int + 1).drop_last() =~= hits@.take(i as int));
        let ghost before = inner@;
        let mut pair = "(".to_owned();
        let id = decimal_string(hits[i].entity_id);
        pair.append(id.as_str());
        pair.append(", ");
        let score = decimal_string(hits[i].score as u64);
        pair.append(score.as_str());
        pair.append(")");
        if i > 0 {
            inner.append(", ");
        }
        inner.append(pair.as_str());
        proof {
            if i == 0 {
                assert(inner@ =~= pair@);
            }
        }
        i = i + 1;
    }
    assert(hits@.take(i as int) =~= hits@);
    let mut text = "[".to_owned();
    text.append(inner.as_str());
    text.append("]");
    text
}

fn same_hits(a: &Vec<TextSearchCandidate>, b: &Vec<TextSearchCandidate>) -> (same: bool)
    ensures
        same == (a@ == b@),
{
    if a.len() != b.len() {
        return false;
    }
    let mut i: usize = 0;
    while i < a.len()
        invariant
            i <= a.len(),
            a@.len() == b@.len(),
            forall|k: int| 0 <= k < i ==> a@[k] == b@[k],
        decreases a.len() - i,
    {
        if a[i] != b[i] {
            return false;
        }
        i = i + 1;
    }
    assert(a@ =~= b@);
    true
}

fn scope_admits(scope: &TextSearchScope, entity_id: u64) -> (admits: bool)
    ensures
        admits == scope.admits(entity_id),
{
    match scope.candidates() {
        Some(candidates) => candidates.contains(entity_id),
        None => true,
    }
}

/// Holds the hits of a case against the exhaustive hits of its query.
pub fn assert_exact(
    case: &FtsPrefilterBenchmarkCase,
    scope: &TextSearchScope,
    exhaustive: &Vec<TextSearchCandidate>,
    actual: &Vec<TextSearchCandidate>,
) -> (checked: Result<(), HelixDbError>)
    ensures
        match checked {
            Ok(_) => actual@ == exact_hits(exhaustive@, *scope, case.k as nat),
            Err(error) => {
                &&& actual@ != exact_hits(exhaustive@, *scope, case.k as nat)
                &&& error@ == HelixDbErrorView::InvariantViolation(
                    "FTS prefilter benchmark result differs from exhaustive filtered BM25: expected "@
                        + pairs_text(exact_hits(exhaustive@, *scope, case.k as nat)) + ", actual "@
                        + pairs_text(actual@),
                )
            },
        },
{
    let mut expected: Vec<TextSearchCandidate> = Vec::new();
    let mut i: usize = 0;
    while i < exhaustive.len()
        invariant
            i <= exhaustive.len(),
            expected@ == admitted_hits(exhaustive@.take(i as int), *scope),
        decreases exhaustive.len() - i,
    {
        assert(exhaustive@.take(i as int + 1).drop_last() =~= exhaustive@.take(i as int));
        if scope_admits(scope, exhaustive[i].entity_id) {
            expected.push(exhaustive[i]);
        }
        i = i + 1;
    }
    assert(exhaustive@.take(i as int) =~= exhaustive@);
    if expected.len() > case.k {
        expected.truncate(case.k);
    }
    assert(expected@ =~= exact_hits(exhaustive@, *scope, case.k as nat));
    if same_hits(&expected, actual) {
        return Ok(());
    }
    let mut message =
        "FTS prefilter benchmark result differs from exhaustive filtered BM25: expected ".to_owned();
    let expected_text = render_pairs(&expected);
    message.append(expected_text.as_str());
    message.append(", actual ");
    let actual_text = render_pairs(actual);
    message.append(actual_text.as_str());
    Err(invariant_violation(message.as_str()))
}

/// The bytes that a result's digest is taken of: identifier and score bits of
/// each hit, most significant byte first.
pub open spec fn digest_bytes(hits: Seq<TextSearchCandidate>) -> Seq<u8>
    decreases hits.len(),
{
    if hits.len() == 0 {
        Seq::empty()
    } else {
        digest_bytes(hits.drop_last()) + be_bytes(hits.last().entity_id as nat, 8) + be_bytes(
            hits.last().score as nat,
            4,
        )
    }
}

/// The hexadecimal digest of a result.
pub fn result_digest(hits: &Vec<TextSearchCandidate>) -> (text: String)
    ensures
        text@ == hex_of_bytes(sha256_of(digest_bytes(hits@))),
{
    let mut bytes: Vec<u8> = Vec::new();
    let mut i: usize = 0;
    assert(bytes@ =~= digest_bytes(hits@.take(0)));
    while i < hits.len()
        invariant
            i <= hits.len(),
            bytes@ == digest_bytes(hits@.take(i as int)),
        decreases hits.len() - i,
    {
        assert(hits@.take(i as int + 1).drop_last() =~= hits@.take(i as int));
        push_be(&mut bytes, hits[i].entity_id as u128, 8);
        push_be(&mut bytes, hits[i].score as u128, 4);
        i = i + 1;
    }
    assert(hits@.take(i as int) =~= hits@);
    hex_digest(bytes.as_slice())
}

/// The sample of a case: the merged hits of all splits, checked against the
/// exhaustive hits.
pub fn benchmark_sample(
    case: &FtsPrefilterBenchmarkCase,
    scope: &TextSearchScope,
    split_count: usize,
    meter: ReadMeter,
    split_hits: Vec<TextSearchCandidate>,
    exhaustive: &Vec<TextSearchCandidate>,
) -> (sample: Result<FtsPrefilterBenchmarkSample, HelixDbError>)
    ensures
        ({
            let hits = best_candidates(split_hits@, case.k as nat);
            let exact = exact_hits(exhaustive@, *scope, case.k as nat);
            match sample {
                Ok(sample) => {
                    &&& hits == exact
                    &&& sample.split_count == split_count
                    &&& sample.candidate_count == case.candidate_count
                    &&& sample.object_store_reads == meter.reads
                    &&& sample.object_store_bytes == meter.bytes
                    &&& sample.result_count == hits.len()
                    &&& sample.result_digest@ == hex_of_bytes(sha256_of(digest_bytes(hits)))
                },
                Err(error) => {
                    &&& hits != exact
                    &&& error@ == HelixDbErrorView::InvariantViolation(
                        "FTS prefilter benchmark result differs from exhaustive filtered BM25: expected "@
                            + pairs_text(exact) + ", actual "@ + pairs_text(hits),
                    )
                },
            }
        }),
{
    let hits = merge_candidates(split_hits, case.k);
    match assert_exact(case, scope, exhaustive, &hits) {
        Ok(_) => {},
        Err(error) => {
            return Err(error);
        },
    }
    Ok(
        FtsPrefilterBenchmarkSample {
            split_count,
            candidate_count: case.candidate_count,
            object_store_reads: meter.reads,
            object_store_bytes: meter.bytes,
            result_count: hits.len(),
            result_digest: result_digest(&hits),
        },
    )
}

/// The splits of the corpus are stretches of documents that follow each other
/// without a gap from the first document to the last, none of them empty, at
/// most as many as asked for, and all as long as the first but for the last.
pub proof fn law_splits_part_the_corpus(
    document_count: usize,
    split_count: usize,
    ranges: Result<Vec<(usize, usize)>, HelixDbError>,
)
    requires
        call_ensures(benchmark_splits, (document_count, split_count), ranges),
    ensures
        ranges is Ok <==> 0 < split_count <= document_count,
        ranges matches Ok(ranges) ==> {
            &&& 0 < ranges@.len() <= split_count
            &&& ranges@[0].0 == 0
            &&& ranges@.last().1 == document_count
            &&& forall|i: int| 0 <= i < ranges@.len() ==> (#[trigger] ranges@[i]).0 < ranges@[i].1
            &&& forall|i: int, j: int|
                #![trigger ranges@[i], ranges@[j]]
                0 <= i && j == i + 1 && j < ranges@.len() ==> ranges@[i].1 == ranges@[j].0
                    && ranges@[i].1 - ranges@[i].0 == ranges@[0].1 && ranges@[j].1 - ranges@[j].0
                    <= ranges@[0].1
        },
{
    if let Ok(found) = ranges {
        let chunk = ceiling(document_count as nat, split_count as nat) as int;
        let count = found@.len() as int;
        lemma_ceiling(document_count as int, split_count as int);
        let q = document_count as int / split_count as int;
        let r = document_count as int % split_count as int;
        assert(document_count <= split_count * chunk) by (nonlinear_arith)
            requires
                split_count > 0,
                q == document_count as int / split_count as int,
                r == document_count as int % split_count as int,
                chunk == if r == 0 {
                    q
                } else {
                    q + 1
                },
        ;
        assert(count > 0) by (nonlinear_arith)
            requires
                0 < document_count <= count * chunk,
                chunk > 0,
        ;
        assert(count - 1 < split_count) by (nonlinear_arith)
            requires
                (count - 1) * chunk < document_count <= split_count * chunk,
                chunk > 0,
        ;
        assert(found@[0].0 == 0 * chunk);
        assert(found@[count - 1].0 == (count - 1) * chunk);
        assert(((count - 1) + 1) * chunk == count * chunk);
        assert forall|i: int| 0 <= i < count implies (#[trigger] found@[i]).0 < found@[i].1 by {
            assert(i * chunk < (i + 1) * chunk && i * chunk <= (count - 1) * chunk)
                by (nonlinear_arith)
                requires
                    0 <= i < count,
                    chunk > 0,
            ;
        }
        assert forall|i: int, j: int|
            #![trigger found@[i], found@[j]]
            0 <= i && j == i + 1 && j < count implies found@[i].1 == found@[j].0 && found@[i].1
            - found@[i].0 == found@[0].1 && found@[j].1 - found@[j].0 <= found@[0].1 by {
            assert((i + 1) * chunk == i * chunk + chunk && (i + 1) * chunk <= (count - 1) * chunk
                && (j + 1) * chunk == j * chunk + chunk && (0 + 1) * chunk == chunk && chunk <= (
            count - 1) * chunk) by (nonlinear_arith)
                requires
                    0 <= i,
                    j == i + 1,
                    j < count,
                    chunk > 0,
            ;
            assert(found@[0].1 == chunk);
        }
    }
}

proof fn lemma_admitted_hits(hits: Seq<TextSearchCandidate>, scope: TextSearchScope)
    ensures
        admitted_hits(hits, scope) == hits.filter(
            |hit: TextSearchCandidate| scope.admits(hit.entity_id),
        ),
    decreases hits.len(),
{
    reveal(Seq::filter);
    if hits.len() > 0 {
        lemma_admitted_hits(hits.drop_last(), scope);
    }
}

/// A result is accepted exactly if it is the exhaustive hits without those that
/// the scope does not admit, cut off behind the first `k`.
pub proof fn law_exact_results_are_filtered_exhaustive_ones(
    case: FtsPrefilterBenchmarkCase,
    scope: TextSearchScope,
    exhaustive: Vec<TextSearchCandidate>,
    actual: Vec<TextSearchCandidate>,
    checked: Result<(), HelixDbError>,
)
    requires
        call_ensures(assert_exact, (&case, &scope, &exhaustive, &actual), checked),
    ensures
        ({
            let admitted = exhaustive@.filter(
                |hit: TextSearchCandidate| scope.admits(hit.entity_id),
            );
            &&& checked is Ok <==> actual@.is_prefix_of(admitted) && (actual@.len() == case.k || (
            actual@.len() < case.k && actual@.len() == admitted.len()))
            &&& checked matches Err(error) ==> error@ is InvariantViolation
        }),
{
    lemma_admitted_hits(exhaustive@, scope);
    let admitted = admitted_hits(exhaustive@, scope);
    let exact = exact_hits(exhaustive@, scope, case.k as nat);
    if actual@.is_prefix_of(admitted) && (actual@.len() == case.k || (actual@.len() < case.k
        && actual@.len() == admitted.len())) {
        assert(actual@ =~= exact);
    }
}

/// A case is accepted exactly if it asks for some of the documents, for one of
/// the three query terms and for at least one hit; it is kept as it was asked
/// for.
pub proof fn law_benchmark_cases_are_checked(
    layout: FtsPrefilterBenchmarkLayout,
    strategy: FtsPrefilterBenchmarkStrategy,
    candidate_count: usize,
    query: &'static str,
    k: usize,
    document_count: usize,
    checked: Result<FtsPrefilterBenchmarkCase, HelixDbError>,
)
    requires
        call_ensures(
            FtsPrefilterBenchmarkCase::try_new,
            (layout, strategy, candidate_count, query, k, document_count),
            checked,
        ),
    ensures
        checked is Ok <==> 0 < candidate_count <= document_count && k > 0 && (query@ == "rareterm"@
            || query@ == "mediumterm"@ || query@ == "commonterm"@),
        checked matches Err(error) ==> error@ is Config,
        checked matches Ok(case) ==> case.layout == layout && case.strategy == strategy
            && case.candidate_count == candidate_count && case.query == query && case.k == k,
{
}

/// The collector searches exactly the first documents of the permutation, which
/// are documents of the corpus; the baseline searches all.
pub proof fn law_benchmark_scopes_follow_the_strategy(
    case: FtsPrefilterBenchmarkCase,
    document_count: usize,
    scope: Result<TextSearchScope, HelixDbError>,
    ids: Vec<u64>,
)
    requires
        document_count > 0,
        call_ensures(benchmark_scope, (&case, document_count), scope),
        call_ensures(benchmark_candidate_ids, (document_count, case.candidate_count), ids),
    ensures
        ids@.len() == case.candidate_count,
        forall|i: int| 0 <= i < ids@.len() ==> #[trigger] ids@[i] < document_count,
        forall|i: int|
            0 <= i < ids@.len() ==> #[trigger] ids@[i] == (i * 65_537) % document_count as int,
        case.strategy == FtsPrefilterBenchmarkStrategy::Unrestricted ==> scope is Ok
            && forall|id: u64| #[trigger] scope->Ok_0.admits(id),
        case.strategy == FtsPrefilterBenchmarkStrategy::Collector ==> (scope matches Ok(scope)
            ==> forall|id: u64| #[trigger] scope.admits(id) <==> ids@.contains(id)),
        scope is Err ==> case.candidate_count > 1_000_000,
{
    assert forall|i: int| 0 <= i < ids@.len() implies #[trigger] ids@[i] < document_count by {
        vstd::arithmetic::div_mod::lemma_mod_bound(i * 65_537, document_count as int);
        assert(ids@[i] == candidate_at(document_count as int, i));
    }
    assert forall|id: u64| ids@.contains(id) <==> #[trigger] is_candidate(
        case,
        document_count,
        id,
    ) by {
        if ids@.contains(id) {
            let i = choose|i: int| 0 <= i < ids@.len() && ids@[i] == id;
            assert(candidate_at(document_count as int, i) == id);
        }
        if is_candidate(case, document_count, id) {
            let i = choose|i: int|
                0 <= i < case.candidate_count && #[trigger] candidate_at(document_count as int, i)
                    == id;
            assert(ids@[i] == id);
        }
    }
    if case.strategy == FtsPrefilterBenchmarkStrategy::Collector {
        if let Ok(scope) = scope {
            assert forall|id: u64| #[trigger] scope.admits(id) <==> ids@.contains(id) by {
                assert(case_candidates(case, document_count).contains(id) <==> is_candidate(
                    case,
                    document_count,
                    id,
                ));
            }
        } else {
            assert(case_candidates(case, document_count) =~= ids@.to_set()) by {
                assert forall|id: u64| #[trigger] case_candidates(case, document_count).contains(id)
                    <==> ids@.to_set().contains(id) by {
                    assert(is_candidate(case, document_count, id) <==> ids@.contains(id));
                }
            }
            ids@.lemma_cardinality_of_set();
        }
    }
}

/// A sample reports the best hits of all splits, what reading them took and how
/// many there are; it fails exactly if these are not the exact hits.
pub proof fn law_samples_report_exact_hits(
    case: FtsPrefilterBenchmarkCase,
    scope: TextSearchScope,
    split_count: usize,
    meter: ReadMeter,
    split_hits: Vec<TextSearchCandidate>,
    exhaustive: Vec<TextSearchCandidate>,
    sample: Result<FtsPrefilterBenchmarkSample, HelixDbError>,
    best: Vec<TextSearchCandidate>,
    checked: Result<(), HelixDbError>,
    digest: String,
)
    requires
        call_ensures(
            benchmark_sample,
            (&case, &scope, split_count, meter, split_hits, &exhaustive),
            sample,
        ),
        call_ensures(merge_candidates, (split_hits, case.k), best),
        call_ensures(assert_exact, (&case, &scope, &exhaustive, &best), checked),
        call_ensures(result_digest, (&best,), digest),
    ensures
        sample is Ok <==> checked is Ok,
        sample matches Ok(sample) ==> sample.split_count == split_count && sample.candidate_count
            == case.candidate_count && sample.object_store_reads == meter.reads
            && sample.object_store_bytes == meter.bytes && sample.result_count == best@.len()
            && sample.result_digest@ == digest@,
        sample matches Err(error) ==> checked matches Err(refused) && error@ == refused@,
{
}

/// The bytes of a result's digest hold, for each hit in turn, the eight bytes of
/// its entity and the four of its score.
pub proof fn law_digests_cover_every_hit(hits: Seq<TextSearchCandidate>, at: int)
    requires
        0 <= at < hits.len(),
    ensures
        digest_bytes(hits).len() == 12 * hits.len(),
        digest_bytes(hits).subrange(12 * at, 12 * at + 8) == be_bytes(
            hits[at].entity_id as nat,
            8,
        ),
        digest_bytes(hits).subrange(12 * at + 8, 12 * at + 12) == be_bytes(
            hits[at].score as nat,
            4,
        ),
    decreases hits.len(),
{
    let front = hits.drop_last();
    lemma_digest_len(hits);
    lemma_digest_len(front);
    crate::codec::lemma_be_bytes_len(hits.last().entity_id as nat, 8);
    crate::codec::lemma_be_bytes_len(hits.last().score as nat, 4);
    if at < front.len() {
        law_digests_cover_every_hit(front, at);
        assert(digest_bytes(hits).subrange(12 * at, 12 * at + 8) =~= digest_bytes(front).subrange(
            12 * at,
            12 * at + 8,
        ));
        assert(digest_bytes(hits).subrange(12 * at + 8, 12 * at + 12) =~= digest_bytes(
            front,
        ).subrange(12 * at + 8, 12 * at + 12));
    } else {
        assert(digest_bytes(hits).subrange(12 * at, 12 * at + 8) =~= be_bytes(
            hits[at].entity_id as nat,
            8,
        ));
        assert(digest_bytes(hits).subrange(12 * at + 8, 12 * at + 12) =~= be_bytes(
            hits[at].score as nat,
            4,
        ));
    }
}

proof fn lemma_digest_len(hits: Seq<TextSearchCandidate>)
    ensures
        digest_bytes(hits).len() == 12 * hits.len(),
    decreases hits.len(),
{
    if hits.len() > 0 {
        lemma_digest_len(hits.drop_last());
        crate::codec::lemma_be_bytes_len(hits.last().entity_id as nat, 8);
        crate::codec::lemma_be_bytes_len(hits.last().score as nat, 4);
    }
}

proof fn lemma_listed(terms: Seq<Vec<u8>>, term: Seq<u8>)
    ensures
        listed(terms, term) == terms.filter(|listed: Vec<u8>| listed@ == term).len(),
    decreases terms.len(),
{
    reveal(Seq::filter);
    if terms.len() > 0 {
        lemma_listed(terms.drop_last(), term);
    }
}

/// The statistics of a corpus count its documents, and each term as often as
/// the documents list it, with no other term; what was counted of some documents
/// is what they and the further ones count together.
pub proof fn law_corpus_statistics_count_documents(
    documents: Vec<AnalyzedDocument>,
    statistics: CorpusStatistics,
    front: Seq<AnalyzedDocument>,
    document: AnalyzedDocument,
    term: Seq<u8>,
)
    requires
        call_ensures(corpus_statistics, (&documents,), statistics),
        documents@ == front.push(document),
        frequency(documents@, term) <= u64::MAX,
    ensures
        statistics.document_count == documents@.len(),
        statistics.document_frequencies@.dom().contains(term) <==> frequency(documents@, term) > 0,
        statistics.document_frequencies@.dom().contains(term)
            ==> statistics.document_frequencies@[term] == frequency(documents@, term),
        frequency(documents@, term) == frequency(front, term) + document.unique_terms@.filter(
            |listed: Vec<u8>| listed@ == term,
        ).len(),
        total_tokens(front) + document.token_count <= u64::MAX ==> statistics.total_token_count
            == total_tokens(front) + document.token_count,
{
    assert(documents@.drop_last() =~= front);
    lemma_listed(document.unique_terms@, term);
}

/// The words with single spaces between them.
pub open spec fn spaced(words: Seq<Seq<char>>) -> Seq<char>
    decreases words.len(),
{
    if words.len() == 0 {
        Seq::empty()
    } else if words.len() == 1 {
        words[0]
    } else {
        spaced(words.drop_last()) + " "@ + words.last()
    }
}

/// The word as often as the count says.
pub open spec fn repeated(word: Seq<char>, count: nat) -> Seq<Seq<char>> {
    Seq::new(count, |i: int| word)
}

proof fn lemma_spaced_empty(words: Seq<Seq<char>>)
    requires
        forall|i: int| 0 <= i < words.len() ==> (#[trigger] words[i]).len() > 0,
    ensures
        spaced(words).len() == 0 <==> words.len() == 0,
{
}

proof fn lemma_with_words(words: Seq<Seq<char>>, word: Seq<char>, count: nat)
    requires
        word.len() > 0,
        forall|i: int| 0 <= i < words.len() ==> (#[trigger] words[i]).len() > 0,
    ensures
        with_words(spaced(words), word, count) == spaced(words + repeated(word, count)),
        forall|i: int|
            0 <= i < words.len() + count ==> (#[trigger] (words + repeated(word, count))[i]).len()
                > 0,
    decreases count,
{
    let all = words + repeated(word, count);
    if count == 0 {
        assert(all =~= words);
    } else {
        lemma_with_words(words, word, (count - 1) as nat);
        let front = words + repeated(word, (count - 1) as nat);
        assert(all =~= front.push(word));
        assert(all.drop_last() =~= front);
        lemma_spaced_empty(front);
    }
}

/// A document consists of words with single spaces between them: the rare, the
/// medium and the common query term as its number is divisible, a background word
/// where it has none of them, and padding.
pub proof fn law_documents_hold_terms_by_divisors(entity_id: usize, text: String)
    requires
        call_ensures(benchmark_document, (entity_id,), text),
    ensures
        ({
            let id = entity_id as nat;
            let rare = repeated(
                "rareterm"@,
                if id % 1_000 == 0 {
                    1 + id % 3
                } else {
                    0
                },
            );
            let medium = repeated(
                "mediumterm"@,
                if id % 10 == 0 {
                    1 + id % 4
                } else {
                    0
                },
            );
            let common = repeated(
                "commonterm"@,
                if id % 5 == 0 {
                    0
                } else {
                    1 + id % 5
                },
            );
            let terms = rare + medium + common;
            let padding = repeated("padding"@, id % 7);
            text@ == spaced(
                (if terms.len() == 0 {
                    seq!["backgroundterm"@]
                } else {
                    terms
                }) + padding,
            )
        }),
{
    reveal_strlit("rareterm");
    reveal_strlit("mediumterm");
    reveal_strlit("commonterm");
    reveal_strlit("backgroundterm");
    reveal_strlit("padding");
    let id = entity_id as nat;
    let rare_count: nat = if id % 1_000 == 0 {
        1 + id % 3
    } else {
        0
    };
    let medium_count: nat = if id % 10 == 0 {
        1 + id % 4
    } else {
        0
    };
    let common_count: nat = if id % 5 == 0 {
        0
    } else {
        1 + id % 5
    };
    let none = Seq::<Seq<char>>::empty();
    let rare = repeated("rareterm"@, rare_count);
    let medium = repeated("mediumterm"@, medium_count);
    let common = repeated("commonterm"@, common_count);
    lemma_with_words(none, "rareterm"@, rare_count);
    assert(none + rare =~= rare);
    lemma_with_words(rare, "mediumterm"@, medium_count);
    lemma_with_words(rare + medium, "commonterm"@, common_count);
    let terms = rare + medium + common;
    lemma_spaced_empty(terms);
    if terms.len() == 0 {
        assert(spaced(seq!["backgroundterm"@]) == "backgroundterm"@);
        lemma_with_words(seq!["backgroundterm"@], "padding"@, id % 7);
    } else {
        lemma_with_words(terms, "padding"@, id % 7);
    }
}

/// A read is counted with the length of its range; an inverted range has none.
pub proof fn law_reads_are_counted(counters: &mut ReadMeter, start: u64, end: u64)
    requires
        call_ensures(ReadMeter::record, (counters, start, end), ()),
    ensures
        old(counters).reads < u64::MAX ==> final(counters).reads == old(counters).reads + 1,
        start <= end && old(counters).bytes + (end - start) <= u64::MAX ==> final(counters).bytes
            == old(counters).bytes + (end - start),
        start > end ==> final(counters).bytes == old(counters).bytes,
{
}

} // verus!
