use helix_db::assoc::AssocMap;
use helix_db::config::limits::PositiveU64;
use helix_db::error::HelixDbError;
use helix_db::index_names::TextElementType;
use helix_db::property::PropertyValue;
use helix_db::split_cache::key::{TextBlobRef, TextSplitRef};
use helix_db::text::hits::{
    merge_candidates, retain_best_text_hits, score_at_most, TextSearchCandidate, TextSearchHit,
};
use helix_db::text::manifest::{
    check_observed_splits, manifest_root_source, plan_manifest_search, read_source,
    LoadedTextQueryStatistics, ManifestRoot, ManifestSplit, ReadSource, TextSearchAuthority,
};
use helix_db::text::prefilter_benchmark::{
    assert_exact, benchmark_candidate_ids, benchmark_document, benchmark_sample, benchmark_scope,
    benchmark_splits, corpus_statistics, result_digest, AnalyzedDocument,
    FtsPrefilterBenchmarkCase, FtsPrefilterBenchmarkLayout, FtsPrefilterBenchmarkStrategy,
    ReadMeter,
};
use helix_db::text::restricted::{
    RestrictedTextCandidates, RestrictedTextCandidatesBuilder, TextSearchScope,
    MAX_RESTRICTED_CANDIDATES,
};
use helix_db::text::rows::{
    begin_restricted_search, materialize_restricted_results, restricted_search_rows,
    unique_restricted_rows, ElementRef, ExecutionRow, ExecutionValue, RestrictedHit,
    RestrictedSearch,
};
use helix_db::text::warmup::{FastFieldWarmupInfo, FieldSet, TermRequirements, WarmupInfo};
use std::sync::Arc;

fn hit(entity_id: u64, score: f32) -> TextSearchHit {
    TextSearchHit { entity_id, score: score.to_bits() }
}

fn candidate(entity_id: u64, score: f32) -> TextSearchCandidate {
    TextSearchCandidate { entity_id, score: score.to_bits() }
}

fn restricted_hit(entity_id: u64, score: f32) -> RestrictedHit {
    RestrictedHit { entity_id, score: f64::from(score).to_bits() }
}

fn split(seed: u8) -> TextSplitRef {
    TextSplitRef {
        blob: TextBlobRef { sha256: [seed; 32], size_bytes: 100 },
        footer_offset: 80,
        footer_len: 20,
        hotcache_len: 10,
        total_size_bytes: 100,
    }
}

#[test]
fn paged_text_hit_merge_deduplicates_and_retains_global_top_k() {
    let mut retained = vec![hit(1, 0.8), hit(2, 0.4)];
    retain_best_text_hits(&mut retained, vec![hit(1, 0.8), hit(3, 0.7)], 2).unwrap();
    assert_eq!(retained, vec![hit(1, 0.8), hit(3, 0.7)]);
}

#[test]
fn paged_text_hit_merge_rejects_divergent_duplicate_score_bits() {
    let mut retained = vec![hit(1, 0.5)];
    assert!(matches!(
        retain_best_text_hits(&mut retained, vec![hit(1, 0.8)], 1),
        Err(HelixDbError::IndexCatalogCorruption(reason))
            if reason.contains("different cross-page BM25 score bits")
    ));
    assert!(retained.is_empty());
}

#[test]
fn equal_scores_are_ranked_by_identifier() {
    let mut retained = vec![hit(9, 1.0)];
    retain_best_text_hits(&mut retained, vec![hit(4, 1.0), hit(7, -2.0)], 3).unwrap();
    assert_eq!(retained, vec![hit(4, 1.0), hit(9, 1.0), hit(7, -2.0)]);
    retain_best_text_hits(&mut retained, vec![], 0).unwrap();
    assert!(retained.is_empty());
}

#[test]
fn scores_are_ordered_as_numbers() {
    assert!(score_at_most((-1.0f32).to_bits(), 0.5f32.to_bits()));
    assert!(!score_at_most(0.5f32.to_bits(), (-1.0f32).to_bits()));
    assert!(score_at_most(0.0f32.to_bits(), (-0.0f32).to_bits()));
    assert!(score_at_most((-0.0f32).to_bits(), 0.0f32.to_bits()));
    assert!(score_at_most((-3.0f32).to_bits(), (-2.0f32).to_bits()));
}

#[test]
fn candidates_of_splits_are_merged_best_first() {
    let merged = merge_candidates(
        vec![candidate(5, 0.25), candidate(2, 0.75), candidate(9, 0.75), candidate(5, 0.25)],
        3,
    );
    assert_eq!(merged, vec![candidate(2, 0.75), candidate(9, 0.75), candidate(5, 0.25)]);
}

#[test]
fn row_materialization_deduplicates_and_preserves_complete_first_row() {
    let mut first = ExecutionRow::current(ElementRef::Node(1));
    first.path = vec![ElementRef::Node(1)];
    first.path_visible = true;
    first.sack_visible = true;
    first
        .virtual_properties
        .insert("marker".to_string(), PropertyValue::String("first".to_string()));
    first.virtual_properties.insert("$score".to_string(), PropertyValue::F64(99.0f64.to_bits()));
    first.bindings.insert("bound".to_string(), ElementRef::Node(77));
    first.sack = Some(PropertyValue::I64(12));

    let mut duplicate = ExecutionRow::current(ElementRef::Node(1));
    duplicate
        .virtual_properties
        .insert("marker".to_string(), PropertyValue::String("second".to_string()));
    let second = ExecutionRow::current(ElementRef::Node(2));

    let rows = unique_restricted_rows(
        vec![first, duplicate, second],
        TextElementType::Node,
        RestrictedTextCandidatesBuilder::new(),
    )
    .unwrap();
    assert!(rows.candidates.contains(1));
    assert!(rows.candidates.contains(2));
    let ranked = materialize_restricted_results(
        rows.rows_by_id,
        &vec![restricted_hit(2, 4.0), restricted_hit(1, 3.0)],
    )
    .unwrap();

    assert_eq!(ranked.len(), 2);
    assert_eq!(ranked[1].bindings.get("bound"), Some(&ElementRef::Node(77)));
    assert_eq!(ranked[1].bindings.len(), 1);
    assert_eq!(ranked[1].path, vec![ElementRef::Node(1)]);
    assert!(ranked[1].path_visible);
    assert!(matches!(ranked[1].sack, Some(PropertyValue::I64(12))));
    assert!(matches!(
        ranked[1].virtual_properties.get("marker"),
        Some(PropertyValue::String(text)) if text == "first"
    ));
    assert!(matches!(
        ranked[1].virtual_properties.get("$score"),
        Some(PropertyValue::F64(bits)) if *bits == 3.0f64.to_bits()
    ));
    assert!(matches!(ranked[0].current, Some(ElementRef::Node(2))));
}

#[test]
fn row_contract_rejects_wrong_kind_and_out_of_bitmap_results() {
    let error = unique_restricted_rows(
        vec![ExecutionRow::current(ElementRef::Edge(1))],
        TextElementType::Node,
        RestrictedTextCandidatesBuilder::new(),
    )
    .expect_err("node FTS must reject edge rows");
    assert!(error.message().contains("index kind"));

    let rows = unique_restricted_rows(
        vec![ExecutionRow::current(ElementRef::Node(1))],
        TextElementType::Node,
        RestrictedTextCandidatesBuilder::new(),
    )
    .unwrap();
    let error = materialize_restricted_results(rows.rows_by_id, &vec![restricted_hit(2, 1.0)])
        .expect_err("results outside the candidate bitmap must fail closed");
    assert!(error.message().contains("outside its exact bitmap"));
}

#[test]
fn row_collection_rejects_unique_overflow_while_deduplicating() {
    let rows = vec![
        ExecutionRow::current(ElementRef::Node(1)),
        ExecutionRow::current(ElementRef::Node(1)),
        ExecutionRow::current(ElementRef::Node(2)),
        ExecutionRow::current(ElementRef::Node(3)),
    ];
    let error = unique_restricted_rows(
        rows,
        TextElementType::Node,
        RestrictedTextCandidatesBuilder::with_limit(PositiveU64::new(2).unwrap()),
    )
    .expect_err("the third unique row must fail during collection");

    assert!(error.message().contains("at most 2"));
}

#[test]
fn restricted_search_needs_a_stream_and_skips_an_empty_one() {
    let error = restricted_search_rows(ExecutionValue::Value(PropertyValue::Null)).unwrap_err();
    assert!(error.message().contains("expected an element stream"));
    let mut detached = ExecutionRow::current(ElementRef::Node(1));
    detached.current = None;
    let error = unique_restricted_rows(
        vec![detached],
        TextElementType::Node,
        RestrictedTextCandidatesBuilder::new(),
    )
    .unwrap_err();
    assert!(error.message().contains("current graph element"));
    assert!(matches!(
        begin_restricted_search(ExecutionValue::Stream(vec![]), TextElementType::Node),
        Ok(RestrictedSearch::Nothing)
    ));
    let rows = vec![ExecutionRow::current(ElementRef::Edge(6))];
    match begin_restricted_search(ExecutionValue::Stream(rows), TextElementType::Edge) {
        Ok(RestrictedSearch::Search(found)) => assert!(found.candidates.contains(6)),
        _ => panic!("a row has to be searched"),
    }
}

#[test]
fn candidates_deduplicate_and_preserve_exact_membership() {
    let candidates = RestrictedTextCandidates::from_ids(&vec![9, 2, 9, 4]).unwrap();

    let RestrictedTextCandidates::NonEmpty(bitmap) = &candidates else {
        panic!("non-empty candidate input must produce a non-empty bitmap");
    };
    assert_eq!(bitmap.len(), 3);
    assert!(candidates.contains(2));
    assert!(candidates.contains(4));
    assert!(candidates.contains(9));
    assert!(!candidates.contains(5));
}

#[test]
fn candidates_represent_empty_and_reject_unique_id_overflow() {
    let empty = RestrictedTextCandidates::from_ids(&vec![]).unwrap();
    assert!(empty.is_empty());

    let ids: Vec<u64> = (0..=MAX_RESTRICTED_CANDIDATES).collect();
    let error = RestrictedTextCandidates::from_ids(&ids)
        .expect_err("the unique candidate cap must fail closed");
    assert!(error.message().contains("at most 1000000"));
}

#[test]
fn builder_rejects_before_retaining_an_overflowing_unique_id() {
    let mut builder = RestrictedTextCandidatesBuilder::with_limit(PositiveU64::new(2).unwrap());
    assert!(builder.try_insert(1).unwrap());
    assert!(!builder.try_insert(1).unwrap());
    assert!(builder.try_insert(2).unwrap());

    let error =
        builder.try_insert(3).expect_err("the third unique ID must fail before insertion");
    assert!(error.message().contains("at most 2"));

    let candidates = builder.finish();
    assert!(candidates.contains(1));
    assert!(candidates.contains(2));
    assert!(!candidates.contains(3));
}

#[test]
fn a_restricted_scope_knows_whether_it_is_empty() {
    let empty = Arc::new(RestrictedTextCandidates::from_ids(&vec![]).unwrap());
    let some = Arc::new(RestrictedTextCandidates::from_ids(&vec![8]).unwrap());
    assert!(TextSearchScope::restricted(empty).is_empty_restricted());
    assert!(!TextSearchScope::restricted(some).is_empty_restricted());
    assert!(!TextSearchScope::Unrestricted.is_empty_restricted());
    assert!(TextSearchScope::Unrestricted.candidates().is_none());
}

fn terms(term: &str, positions: bool) -> TermRequirements {
    let mut terms: TermRequirements = AssocMap::new();
    terms.insert(term.as_bytes().to_vec(), positions);
    terms
}

#[test]
fn merge_ors_term_position_requirement() {
    let mut left = WarmupInfo::default();
    left.terms_grouped_by_field.insert(1, terms("alice", false));
    let mut right = WarmupInfo::default();
    right.terms_grouped_by_field.insert(1, terms("alice", true));
    left.merge(right);

    let merged = left.terms_grouped_by_field.get(&1).unwrap();
    assert_eq!(merged.len(), 1);
    assert_eq!(merged.get(&b"alice".to_vec()), Some(&true));
}

#[test]
fn merge_preserves_fast_field_subfield_asymmetry() {
    let mut left = WarmupInfo::default();
    left.fast_fields = vec![FastFieldWarmupInfo::new("entity_id", false)];
    let mut right = WarmupInfo::default();
    right.fast_fields = vec![FastFieldWarmupInfo::new("entity_id", true)];
    left.merge(right);
    assert_eq!(left.fast_fields.len(), 2);

    let mut left = WarmupInfo::default();
    left.fast_fields = vec![FastFieldWarmupInfo::new("entity_id", true)];
    let mut right = WarmupInfo::default();
    right.fast_fields = vec![FastFieldWarmupInfo::new("entity_id", false)];
    left.merge(right);
    assert_eq!(left.fast_fields, vec![FastFieldWarmupInfo::new("entity_id", true)]);
}

#[test]
fn simplify_drops_only_non_position_terms_covered_by_full_postings() {
    let mut info = WarmupInfo::default();
    let mut full: FieldSet = AssocMap::new();
    full.insert(2, ());
    info.postings_full_fields = full;
    info.terms_grouped_by_field.insert(2, terms("covered", false));
    info.terms_grouped_by_field.insert(3, terms("retained", false));

    info.simplify();

    assert!(info.terms_grouped_by_field.get(&2).is_none());
    assert_eq!(info.terms_grouped_by_field.get(&3).unwrap().len(), 1);
}

#[test]
fn simplify_keeps_positions_of_covered_fields() {
    let mut info = WarmupInfo::default();
    info.postings_full_fields.insert(2, ());
    info.terms_grouped_by_field.insert(2, terms("phrase", true));
    info.simplify();
    let kept = info.terms_grouped_by_field.get(&2).unwrap();
    assert_eq!(kept.get(&b"phrase".to_vec()), Some(&true));
    info.simplify();
    assert_eq!(info.terms_grouped_by_field.get(&2).unwrap().len(), 1);
}

#[test]
fn reads_come_from_the_transaction_before_the_view() {
    assert!(matches!(read_source(true, true, "escaped"), Ok(ReadSource::Transaction)));
    assert!(matches!(read_source(true, false, "escaped"), Ok(ReadSource::Transaction)));
    assert!(matches!(read_source(false, true, "escaped"), Ok(ReadSource::Snapshot)));
    assert_eq!(
        read_source(false, false, "text search").unwrap_err().message(),
        "text search escaped its request read view"
    );
    assert!(matches!(
        manifest_root_source(TextSearchAuthority::AbsentManagedPartition, false, false),
        Ok(None)
    ));
    assert!(matches!(
        manifest_root_source(TextSearchAuthority::Managed, false, true),
        Ok(Some(ReadSource::Snapshot))
    ));
    assert!(manifest_root_source(TextSearchAuthority::Managed, false, false).is_err());
}

#[test]
fn manifest_pages_have_to_agree_with_their_root() {
    let page = |may_match: bool| ManifestSplit { split: split(1), may_match };
    let pages = vec![vec![page(true), page(false)], vec![page(true)]];
    assert!(check_observed_splits(&pages, 3).is_ok());
    let error = check_observed_splits(&pages, 2).unwrap_err();
    assert!(error.message().contains("pages exceed their root split count"));
    let error = check_observed_splits(&pages, 4).unwrap_err();
    assert!(error.message().contains("disagree with their root split count"));

    let root = ManifestRoot { index_id: 7, generation: 12, split_count: 3 };
    let plan = plan_manifest_search(&root, &pages).unwrap().unwrap();
    assert_eq!(plan.name, "index-v2-text-7-12");
    assert_eq!(plan.generation, "12");
    assert_eq!(plan.splits.len(), 2);
    let nothing = ManifestRoot { index_id: 7, generation: 12, split_count: 1 };
    assert!(plan_manifest_search(&nothing, &vec![vec![page(false)]]).unwrap().is_none());
    assert!(LoadedTextQueryStatistics::Ready.needs_pages());
    assert!(!LoadedTextQueryStatistics::EmptyQuery.needs_pages());
    assert!(!LoadedTextQueryStatistics::EmptyCorpus.needs_pages());
}

fn case(
    strategy: FtsPrefilterBenchmarkStrategy,
    candidates: usize,
    k: usize,
) -> FtsPrefilterBenchmarkCase {
    FtsPrefilterBenchmarkCase::try_new(
        FtsPrefilterBenchmarkLayout::MultiSplit,
        strategy,
        candidates,
        "commonterm",
        k,
        100,
    )
    .unwrap()
}

#[test]
fn benchmark_cases_are_validated() {
    let layout = FtsPrefilterBenchmarkLayout::Compacted;
    let strategy = FtsPrefilterBenchmarkStrategy::Collector;
    assert!(FtsPrefilterBenchmarkCase::try_new(layout, strategy, 10, "commonterm", 5, 100).is_ok());
    assert!(FtsPrefilterBenchmarkCase::try_new(layout, strategy, 0, "commonterm", 5, 100).is_err());
    assert!(FtsPrefilterBenchmarkCase::try_new(layout, strategy, 101, "commonterm", 5, 100).is_err());
    assert!(FtsPrefilterBenchmarkCase::try_new(layout, strategy, 10, "commonterm", 0, 100).is_err());
    assert!(FtsPrefilterBenchmarkCase::try_new(layout, strategy, 10, "other", 5, 100).is_err());
    assert_eq!(layout.as_str(), "compacted");
    assert_eq!(FtsPrefilterBenchmarkLayout::MultiSplit.as_str(), "multi_split");
    assert_eq!(strategy.as_str(), "collector");
    assert_eq!(FtsPrefilterBenchmarkStrategy::Unrestricted.as_str(), "unrestricted");
}

#[test]
fn benchmark_documents_are_spread_over_splits() {
    let ranges = benchmark_splits(10, 3).unwrap();
    let covered: usize = ranges.iter().map(|(start, end)| end - start).sum();
    assert_eq!(covered, 10);
    assert_eq!(ranges[0].0, 0);
    assert_eq!(ranges.last().unwrap().1, 10);
    assert_eq!(benchmark_document(0), "rareterm mediumterm");
    assert_eq!(
        benchmark_document(3),
        "commonterm commonterm commonterm commonterm padding padding padding"
    );
    assert_eq!(benchmark_document(5), "backgroundterm padding padding padding padding padding");
    let ids = benchmark_candidate_ids(100, 10);
    assert_eq!(ids.len(), 10);
    let mut sorted = ids.clone();
    sorted.sort_unstable();
    sorted.dedup();
    assert_eq!(sorted.len(), 10);
    assert!(sorted.iter().all(|id| *id < 100));
}

#[test]
fn corpus_statistics_count_documents_tokens_and_terms() {
    let documents = vec![
        AnalyzedDocument { token_count: 3, unique_terms: vec![b"a".to_vec(), b"b".to_vec()] },
        AnalyzedDocument { token_count: 2, unique_terms: vec![b"b".to_vec()] },
    ];
    let statistics = corpus_statistics(&documents);
    assert_eq!(statistics.document_count, 2);
    assert_eq!(statistics.total_token_count, 5);
    assert_eq!(statistics.document_frequencies.get(&b"b".to_vec()), Some(&2));
    assert_eq!(statistics.document_frequencies.get(&b"a".to_vec()), Some(&1));
    assert_eq!(statistics.document_frequencies.get(&b"c".to_vec()), None);
}

#[test]
fn a_benchmark_sample_has_to_be_exact() {
    let unrestricted = case(FtsPrefilterBenchmarkStrategy::Unrestricted, 10, 2);
    let scope = benchmark_scope(&unrestricted, 100).unwrap();
    assert!(scope.candidates().is_none());
    let exhaustive = vec![candidate(1, 3.0), candidate(2, 2.0), candidate(3, 1.0)];
    let best = vec![candidate(1, 3.0), candidate(2, 2.0)];
    assert!(assert_exact(&unrestricted, &scope, &exhaustive, &best).is_ok());
    let wrong = vec![candidate(1, 3.0), candidate(3, 1.0)];
    assert!(assert_exact(&unrestricted, &scope, &exhaustive, &wrong).is_err());

    let mut meter = ReadMeter::new();
    meter.record(10, 30);
    meter.record(5, 6);
    let sample =
        benchmark_sample(&unrestricted, &scope, 4, meter, exhaustive.clone(), &exhaustive).unwrap();
    assert_eq!(sample.object_store_reads, 2);
    assert_eq!(sample.object_store_bytes, 21);
    assert_eq!(sample.result_count, 2);
    assert_eq!(sample.split_count, 4);
    assert_eq!(sample.result_digest, result_digest(&best));
    assert_ne!(result_digest(&best), result_digest(&wrong));
    assert_eq!(sample.result_digest.len(), 64);

    let collector = case(FtsPrefilterBenchmarkStrategy::Collector, 10, 2);
    let scope = benchmark_scope(&collector, 100).unwrap();
    assert!(scope.candidates().is_some());
}
