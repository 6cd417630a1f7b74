use helix_db::error::HelixDbError;
use helix_db::index_names::{vector_index_name, VectorElementType};
use helix_db::parity::crud::{
    created_crud_state, crud_create_batch, crud_delete_batch, crud_evidence, crud_query_corpus,
    crud_read_batch, crud_update_batch, query_corpus_ids, validate_crud_rehearsal, CrudAnswer,
    MigrationParityCrudState, MigrationParityQueryCorpus,
};
use helix_db::parity::definition::{
    parity_definition, parity_identity, IndexDefinition, IndexElementKind, IndexIdentity,
};
use helix_db::parity::findings::record_consistency_findings;
use helix_db::parity::secondary::{
    decode_migration_parity_secondary_memberships, MigrationParitySecondaryValue,
    SecondaryEntryKey, SecondaryEntryValue, SecondaryEqualityBitmapKey, SecondaryRow,
    NODE_EQUALITY_LANE,
};
use helix_db::parity::snapshot::{
    EdgePropertyRow, MigrationParitySnapshot, PairIndexRow, ParityAdjacency,
};
use helix_db::parity::statistics::{
    find_text_authority, migration_parity_text_partition, plan_text_statistics_damage,
    text_corpus_statistics, ActiveHandle, MigrationParityTextEntityContribution,
    MigrationParityTextStatisticsDamage, StatisticsRow, TextAuthority, TextCorpusKey,
    TextCorpusRow, TextDefinition, TextEntityKey, TextEntityRow, TextPartition, TextTermKey,
    TextTermRow,
};
use helix_db::parity::text_search::{
    accept_missing_root, best_scores, order_text_searches, page_manifest, searched_partition,
    searches_pages, single_text_search, text_search_evidence, MigrationParityTextHit,
};
use helix_db::parity::v2_state::{
    completed_vector_build, BuildCounters, CompletedVectorBuild, GlobalNext, GlobalRow,
    IndexRecordRow, OperationOutcome, OperationProgress, OperationRow, ScopedRow, V2Scan,
    VectorReservation,
};
use helix_db::parity::vector::{
    latest_compactions, migration_parity_scan_options, parity_vector_namespace,
    vector_non_metadata_digests, CompactionPhase, ListedCompaction,
    MigrationParityCompactionStatus, MigrationParityIndexState, VectorHandle, VectorRow,
    VectorRowKind,
};
use helix_db::property::{Property, PropertyValue};
use helix_db::split_cache::key::{TextBlobRef, TextSplitRef};
use helix_db::text::hits::TextSearchHit;
use helix_db::text::manifest::{LoadedTextQueryStatistics, ManifestRoot};
use helix_db::vector_read::{
    continue_vector_search, read_visibility, start_vector_search, RequestView, VectorReadVisibility,
    VectorReport, VectorSearchAuthority, VectorSearchStep,
};
use roaring::RoaringTreemap;
use sha2::{Digest, Sha256};

fn shared() -> MigrationParitySecondaryValue {
    MigrationParitySecondaryValue::Equality { digest: [4; 8], canonical: b"shared".to_vec() }
}

#[test]
fn v3_rows_and_v4_bitmap_decode_to_identical_memberships() {
    let mut v3_memberships = Vec::new();
    for entity_id in [3u64, 9] {
        let row = SecondaryRow::Entry {
            key: SecondaryEntryKey {
                index_id: 7,
                generation: 11,
                lane: NODE_EQUALITY_LANE,
                value: shared(),
                entity_id: Some(entity_id),
            },
            entry: SecondaryEntryValue {
                index_id: 7,
                generation: 11,
                lane: NODE_EQUALITY_LANE,
                entity_id,
            },
        };
        v3_memberships.extend(decode_migration_parity_secondary_memberships(&row).unwrap());
    }
    let row = SecondaryRow::EqualityBitmap {
        key: SecondaryEqualityBitmapKey {
            index_id: 7,
            generation: 11,
            element_kind: IndexElementKind::Node,
            digest: [4; 8],
            canonical: b"shared".to_vec(),
        },
        ids: RoaringTreemap::from_iter([3u64, 9]),
    };
    let v4_memberships = decode_migration_parity_secondary_memberships(&row).unwrap();

    assert_eq!(v3_memberships, v4_memberships);
}

#[test]
fn an_entry_of_another_key_is_reported() {
    let row = |entity_id: Option<u64>, generation: u64| SecondaryRow::Entry {
        key: SecondaryEntryKey {
            index_id: 7,
            generation: 11,
            lane: 2,
            value: MigrationParitySecondaryValue::Range(vec![1]),
            entity_id,
        },
        entry: SecondaryEntryValue { index_id: 7, generation, lane: 2, entity_id: 3 },
    };
    let found = decode_migration_parity_secondary_memberships(&row(None, 11)).unwrap();
    assert_eq!(found[0].entity_id, 3);
    assert_eq!(found[0].value, MigrationParitySecondaryValue::Range(vec![1]));
    for broken in [row(Some(4), 11), row(Some(3), 12)] {
        let error = decode_migration_parity_secondary_memberships(&broken).unwrap_err();
        assert_eq!(error.message(), "V2 secondary key/value ownership mismatch");
    }
    assert!(decode_migration_parity_secondary_memberships(&SecondaryRow::Other)
        .unwrap()
        .is_empty());
}

fn identity(label: &str) -> IndexIdentity {
    IndexIdentity {
        family: "Vector".to_string(),
        element_kind: IndexElementKind::Node,
        label: label.to_string(),
        property: "embedding".to_string(),
    }
}

fn secondary_definition(label: &str) -> IndexDefinition {
    IndexDefinition::Secondary {
        element_kind: IndexElementKind::Edge,
        label: label.to_string(),
        property: "since".to_string(),
        unique: false,
        direction: "Asc".to_string(),
    }
}

#[test]
fn definitions_are_listed_field_by_field() {
    assert_eq!(parity_identity(&identity("User")), "Vector:Node:User:embedding");
    let fields = parity_definition(&secondary_definition("KNOWS"));
    assert_eq!(fields.get("label").unwrap(), "KNOWS");
    assert_eq!(fields.get("property").unwrap(), "since");
    assert_eq!(fields.get("element_kind").unwrap(), "Edge");
}

fn record(label: &str, state: &str) -> ScopedRow {
    ScopedRow::IndexRecord(IndexRecordRow {
        identity: identity(label),
        definition: secondary_definition(label),
        index_id: 1,
        revision: 2,
        state: state.to_string(),
        generation: 3,
        physical: None,
    })
}

fn build(index_id: u64, entities: u64, input_bytes: u64) -> ScopedRow {
    ScopedRow::Operation(OperationRow {
        index_id,
        generation: 1,
        outcome: OperationOutcome::BuildSucceeded,
        progress: OperationProgress::VectorActivate {
            counters: BuildCounters { entities, input_bytes },
        },
        status: "completed".to_string(),
    })
}

fn adopted(physical_id: u64, index_id: u64) -> GlobalRow {
    GlobalRow::VectorReservation {
        physical_id,
        reservation: VectorReservation::AdoptedActive { index_id, generation: 1 },
    }
}

#[test]
fn catalog_rows_are_counted_and_ordered() {
    let mut scan = V2Scan::new();
    scan.record_scoped_row("index_record", record("User", "active")).unwrap();
    scan.record_scoped_row("index_record", record("Page", "building")).unwrap();
    scan.record_scoped_row("other", ScopedRow::Other).unwrap();
    scan.finish_scoped_rows();
    assert_eq!(scan.state.canonical_records[0].identity, "Vector:Node:Page:embedding");
    assert_eq!(scan.state.canonical_records[1].identity, "Vector:Node:User:embedding");
    assert_eq!(scan.state.runtime_active_identities, vec!["Vector:Node:User:embedding"]);
    assert_eq!(scan.state.scoped_row_counts.get("index_record"), Some(&2));
    assert_eq!(scan.state.scoped_row_counts.get("other"), Some(&1));

    assert_eq!(
        scan.record_global_row("version", GlobalRow::StorageVersion(Some(4))).unwrap(),
        GlobalNext::Continue
    );
    scan.record_global_row("pointer", GlobalRow::OperationPointer).unwrap();
    scan.record_legacy_definition();
    assert_eq!(scan.state.storage_version, Some(4));
    assert_eq!(scan.state.pending_operation_pointers, 1);
    assert_eq!(scan.state.legacy_definition_rows, 1);
    assert_eq!(scan.state.global_row_counts.get("pointer"), Some(&1));
    let error = scan.record_global_row("version", GlobalRow::StorageVersion(None)).unwrap_err();
    assert_eq!(error.message(), "storage-version key contains another metadata value");
}

#[test]
fn every_vector_build_is_adopted_or_rebuilt() {
    let mut scan = V2Scan::new();
    scan.record_scoped_row("operation", build(1, 10, 100)).unwrap();
    scan.record_scoped_row("operation", build(2, 20, 200)).unwrap();
    scan.record_scoped_row("operation", build(3, 30, 300)).unwrap();
    assert_eq!(
        scan.record_global_row("reservation", adopted(91, 3)).unwrap(),
        GlobalNext::ReadVectorMetadata { physical_id: 91 }
    );
    scan.record_adopted_metadata(5, Some(7)).unwrap();
    assert_eq!(
        scan.record_global_row("reservation", adopted(90, 1)).unwrap(),
        GlobalNext::ReadVectorMetadata { physical_id: 90 }
    );
    scan.record_adopted_metadata(5, Some(8)).unwrap();
    let idle = GlobalRow::VectorReservation {
        physical_id: 92,
        reservation: VectorReservation::NotAdopted,
    };
    assert_eq!(scan.record_global_row("reservation", idle).unwrap(), GlobalNext::Continue);
    scan.finish_global_rows();
    let stats = &scan.state.vector_migration;
    assert_eq!(stats.adopted_indexes, 2);
    assert_eq!(stats.rebuilt_indexes, 1);
    assert_eq!(stats.validated_rows, 40);
    assert_eq!(stats.validated_bytes, 400);
    assert_eq!(stats.logical_output_operations, 2);
    assert_eq!(stats.logical_output_bytes, 25);
    assert_eq!(stats.reused_physical_ids, vec![90, 91]);
}

#[test]
fn faulty_reservations_are_reported() {
    let mut scan = V2Scan::new();
    let foreign = GlobalRow::VectorReservation {
        physical_id: 1,
        reservation: VectorReservation::AnotherValue,
    };
    assert_eq!(
        scan.record_global_row("reservation", foreign).unwrap_err().message(),
        "vector reservation key contains another metadata value"
    );
    assert_eq!(
        scan.record_global_row("reservation", adopted(1, 1)).unwrap_err().message(),
        "adopted vector has no retained completed build operation"
    );
    assert_eq!(scan.state.vector_migration.adopted_indexes, 1);
    assert_eq!(scan.state.vector_migration.reused_physical_ids, vec![1]);
    assert_eq!(scan.state.global_row_counts.get("reservation"), Some(&2));
    assert_eq!(
        scan.record_adopted_metadata(1, None).unwrap_err().message(),
        "adopted vector metadata is absent from its physical namespace"
    );
    scan.state.vector_migration.logical_output_bytes = u64::MAX;
    assert_eq!(
        scan.record_adopted_metadata(1, Some(1)).unwrap_err().message(),
        "adopted vector logical output byte count overflowed"
    );
    assert_eq!(scan.state.vector_migration.logical_output_operations, 1);
    scan.state.vector_migration.logical_output_operations = u64::MAX;
    assert_eq!(
        scan.record_adopted_metadata(1, Some(1)).unwrap_err().message(),
        "adopted vector logical output operation count overflowed"
    );
    scan.record_scoped_row("operation", build(5, 1, 1)).unwrap();
    scan.state.vector_migration.validated_rows = u64::MAX;
    assert_eq!(
        scan.record_global_row("reservation", adopted(1, 5)).unwrap_err().message(),
        "adopted vector validated row count overflowed"
    );
    scan.record_scoped_row("operation", build(6, 0, 1)).unwrap();
    scan.state.vector_migration.validated_bytes = u64::MAX;
    assert_eq!(
        scan.record_global_row("reservation", adopted(1, 6)).unwrap_err().message(),
        "adopted vector validated byte count overflowed"
    );
    scan.state.vector_migration.adopted_indexes = u64::MAX;
    assert_eq!(
        scan.record_global_row("reservation", adopted(1, 6)).unwrap_err().message(),
        "adopted vector parity count overflowed"
    );
}

fn corpus_key() -> TextCorpusKey {
    TextCorpusKey { index_id: 1, generation: 2, partition: vec![9] }
}

fn corpus_row(index_id: u64) -> TextCorpusRow {
    TextCorpusRow {
        index_id,
        generation: 2,
        partition: vec![9],
        partition_bytes: vec![8],
        document_count: 3,
        total_token_count: 12,
    }
}

fn term_row(term: &[u8]) -> TextTermRow {
    TextTermRow {
        index_id: 1,
        generation: 2,
        partition: vec![9],
        partition_bytes: vec![8],
        term: term.to_vec(),
        document_frequency: 2,
    }
}

#[test]
fn statistics_rows_belong_to_their_keys() {
    let mut scan = V2Scan::new();
    scan.record_scoped_row(
        "corpus",
        ScopedRow::TextCorpusStatistics { key: corpus_key(), row: corpus_row(1) },
    )
    .unwrap();
    let error = scan
        .record_scoped_row(
            "corpus",
            ScopedRow::TextCorpusStatistics { key: corpus_key(), row: corpus_row(5) },
        )
        .unwrap_err();
    assert!(matches!(error, HelixDbError::InvariantViolation(text)
        if text == "text corpus-statistics key/value ownership mismatch"));
    assert_eq!(scan.state.scoped_row_counts.get("corpus"), Some(&2));
    assert_eq!(scan.state.text_corpus_statistics.len(), 1);
    assert!(text_corpus_statistics(&corpus_key(), corpus_row(1)).is_ok());

    let digest = |term: &[u8]| Sha256::digest(term).to_vec();
    let key = || TextTermKey { corpus: corpus_key(), term: digest(b"rust") };
    scan.record_scoped_row(
        "term",
        ScopedRow::TextTermStatistics { key: key(), row: term_row(b"rust") },
    )
    .unwrap();
    assert!(scan
        .record_scoped_row(
            "term",
            ScopedRow::TextTermStatistics { key: key(), row: term_row(b"verus") },
        )
        .is_err());
    assert_eq!(scan.state.text_term_statistics[0].term, b"rust".to_vec());

    let owner = |entity_id: u64| TextEntityKey {
        index_id: 1,
        generation: 2,
        entity_kind: IndexElementKind::Node,
        entity_id,
    };
    let contribution = || MigrationParityTextEntityContribution::Absent;
    scan.record_scoped_row(
        "entity",
        ScopedRow::TextStatisticsEntity {
            key: owner(6),
            row: TextEntityRow { owner: owner(6), contribution: contribution() },
        },
    )
    .unwrap();
    assert!(scan
        .record_scoped_row(
            "entity",
            ScopedRow::TextStatisticsEntity {
                key: owner(6),
                row: TextEntityRow { owner: owner(7), contribution: contribution() },
            },
        )
        .is_err());
    assert_eq!(scan.state.text_entity_statistics[0].entity_kind, "Node");
}

fn definition(tenant: Option<&str>) -> TextDefinition {
    TextDefinition {
        element_kind: IndexElementKind::Node,
        label: "User".to_string(),
        property: "bio".to_string(),
        tenant_property: tenant.map(str::to_string),
        analyzer: "default".to_string(),
        positions_enabled: true,
    }
}

fn authority(tenant: Option<&str>) -> TextAuthority {
    TextAuthority { definition: definition(tenant), index_id: 4, generation: 5 }
}

#[test]
fn a_search_reads_the_asked_partition() {
    let whole = authority(None);
    let split_up = authority(Some("org"));
    assert!(matches!(
        searched_partition(&whole, None, None),
        Ok(Some(TextPartition::Unpartitioned))
    ));
    assert!(matches!(searched_partition(&whole, None, Some("acme")), Ok(None)));
    assert!(matches!(
        searched_partition(&split_up, None, Some("acme")),
        Ok(Some(TextPartition::Tenant(tenant))) if tenant == "acme"
    ));
    assert_eq!(
        searched_partition(&split_up, None, None).unwrap_err().message(),
        "migration parity text search requires a tenant partition"
    );
    assert!(matches!(searched_partition(&split_up, Some(&definition(None)), None), Ok(None)));
    assert!(accept_missing_root(&split_up).is_ok());
    assert_eq!(
        accept_missing_root(&whole).unwrap_err().message(),
        "unpartitioned Active text index has no manifest root"
    );
    assert!(migration_parity_text_partition(false, None).is_ok());
}

fn split(seed: u8) -> TextSplitRef {
    TextSplitRef {
        blob: TextBlobRef { sha256: [seed; 32], size_bytes: 100 },
        footer_offset: 80,
        footer_len: 20,
        hotcache_len: 10,
        total_size_bytes: 100,
    }
}

fn hit(entity_id: u64, score: f32) -> TextSearchHit {
    TextSearchHit { entity_id, score: score.to_bits() }
}

#[test]
fn the_best_score_of_each_entity_counts() {
    let hits = vec![hit(3, 1.0), hit(1, 2.0), hit(3, 2.5), hit(1, 0.5), hit(2, 2.0)];
    let best = best_scores(&hits, 2);
    assert_eq!(
        best,
        vec![
            MigrationParityTextHit { entity_id: 3, score_bits: 2.5f32.to_bits() },
            MigrationParityTextHit { entity_id: 1, score_bits: 2.0f32.to_bits() },
        ]
    );
    assert_eq!(best_scores(&hits, 9).len(), 3);
}

#[test]
fn a_text_search_leaves_complete_evidence() {
    let root = ManifestRoot { index_id: 4, generation: 5, split_count: 2 };
    assert_eq!(searches_pages(LoadedTextQueryStatistics::Ready, &root).unwrap(), true);
    assert_eq!(searches_pages(LoadedTextQueryStatistics::EmptyQuery, &root).unwrap(), false);
    assert_eq!(
        searches_pages(LoadedTextQueryStatistics::EmptyCorpus, &root).unwrap_err().message(),
        "migration parity text manifest has no corpus statistics"
    );
    let page = page_manifest(&root, 3, vec![split(1), split(2)]).unwrap();
    assert_eq!(page.name, "index-v2-text-4-5-page-3");
    assert_eq!(page.generation, "5");
    assert_eq!(page.primary, split(1));
    assert_eq!(
        page_manifest(&root, 3, vec![]).unwrap_err().message(),
        "V2 text manifest page is empty"
    );
    let evidence = text_search_evidence(
        &identity("User"),
        &authority(None),
        &root,
        vec![0],
        2,
        &vec![page],
        &vec![hit(1, 1.0)],
        10,
    );
    assert_eq!(evidence.physical_index_name, "index-v2-text-4-5");
    assert_eq!(evidence.generation_id, "5");
    assert_eq!(evidence.splits.len(), 2);
    assert_eq!(evidence.splits[1].sha256, [2; 32]);
    assert_eq!(evidence.hits.len(), 1);

    let other = ManifestRoot { index_id: 3, generation: 9, split_count: 0 };
    let earlier = text_search_evidence(
        &identity("User"),
        &authority(None),
        &other,
        vec![],
        2,
        &vec![],
        &vec![],
        10,
    );
    let mut searches = vec![evidence, earlier];
    order_text_searches(&mut searches);
    assert_eq!(searches[0].index_id, 3);
    assert_eq!(
        single_text_search(&definition(None), searches).unwrap_err().message(),
        "expected one Active text generation for Node:User:bio, found 2"
    );
}

#[test]
fn statistics_damage_names_its_row() {
    let handles = || vec![ActiveHandle::Other, ActiveHandle::Text(authority(Some("org")))];
    let plan = plan_text_statistics_damage(
        handles(),
        &definition(Some("org")),
        MigrationParityTextStatisticsDamage::ReplaceCorpus {
            tenant: Some("acme".to_string()),
            document_count: 1,
            total_token_count: 2,
        },
    )
    .unwrap();
    assert_eq!(plan.replacement, Some((1, 2)));
    assert!(matches!(plan.row, StatisticsRow::Corpus { index_id: 4, generation: 5, .. }));
    let plan = plan_text_statistics_damage(
        handles(),
        &definition(Some("org")),
        MigrationParityTextStatisticsDamage::MissingEntityMarker { entity_id: 6 },
    )
    .unwrap();
    assert!(matches!(plan.row, StatisticsRow::Entity(TextEntityKey { entity_id: 6, .. })));
    assert_eq!(plan.replacement, None);
    assert!(plan_text_statistics_damage(
        handles(),
        &definition(Some("org")),
        MigrationParityTextStatisticsDamage::MissingCorpus { tenant: None },
    )
    .is_err());
    let error = find_text_authority(vec![], &definition(None)).unwrap_err();
    assert!(matches!(error, HelixDbError::IndexNotFound(name) if name == "Node:User:bio"));
}

fn vector_row(kind: VectorRowKind, key: &[u8], value: &[u8]) -> VectorRow {
    VectorRow { kind, key: key.to_vec(), value: value.to_vec() }
}

#[test]
fn namespaces_are_digested_without_their_metadata() {
    let own = VectorRowKind::Namespace { index_id: 7 };
    let rows = vec![
        vector_row(VectorRowKind::Metadata, b"meta", b"x"),
        vector_row(own, b"k1", b"v1"),
        vector_row(VectorRowKind::Namespace { index_id: 8 }, b"other", b""),
        vector_row(VectorRowKind::SimHashDirectory, b"dir", b"y"),
        vector_row(own, b"k2", b"value"),
    ];
    let digests = vector_non_metadata_digests(&rows).unwrap();
    assert_eq!(digests.len(), 2);
    let mut wanted = Sha256::new();
    for (key, value) in [(&b"k1"[..], &b"v1"[..]), (&b"k2"[..], &b"value"[..])] {
        wanted.update((key.len() as u64).to_be_bytes());
        wanted.update(key);
        wanted.update((value.len() as u64).to_be_bytes());
        wanted.update(value);
    }
    let wanted: String = wanted.finalize().iter().map(|byte| format!("{byte:02x}")).collect();
    assert_eq!(digests.get(&7), Some(&wanted));
    let escaped = vec![vector_row(VectorRowKind::Escaped, b"k", b"v")];
    assert_eq!(
        vector_non_metadata_digests(&escaped).unwrap_err().message(),
        "vector parity scan escaped its data scope"
    );
    assert!(MigrationParityIndexState::default()
        .vector_non_metadata_namespace_digests
        .is_empty());
}

#[test]
fn a_vector_index_is_found_by_its_name() {
    let handle = |label: &str, physical_index_id: Option<u64>| VectorHandle::Vector {
        element_type: VectorElementType::Node,
        label: label.to_string(),
        property: "embedding".to_string(),
        physical_index_id,
    };
    let handles = vec![
        VectorHandle::Other,
        handle("Page", None),
        handle("User", Some(5)),
        handle("User", Some(6)),
    ];
    let name = |label: &str| vector_index_name(VectorElementType::Node, label, "embedding");
    assert_eq!(parity_vector_namespace(&handles, &name("User")).unwrap(), 5);
    assert!(matches!(
        parity_vector_namespace(&handles, &name("Page")),
        Err(HelixDbError::Config(text)) if text.contains("unpartitioned definition")
    ));
    assert!(matches!(
        parity_vector_namespace(&handles, "missing"),
        Err(HelixDbError::IndexNotFound(name)) if name == "missing"
    ));
}

fn listed(order: u128, phase: CompactionPhase) -> ListedCompaction {
    ListedCompaction {
        order,
        status: MigrationParityCompactionStatus {
            id: order.to_string(),
            status: phase.as_str().to_string(),
            spec: String::new(),
            bytes_processed: 0,
        },
    }
}

#[test]
fn the_last_state_of_a_compaction_is_shown() {
    let statuses = latest_compactions(vec![
        listed(5, CompactionPhase::Running),
        listed(2, CompactionPhase::Submitted),
        listed(5, CompactionPhase::Completed),
        listed(9, CompactionPhase::Failed),
    ]);
    let shown: Vec<(&str, &str)> =
        statuses.iter().map(|status| (status.id.as_str(), status.status.as_str())).collect();
    assert_eq!(shown, vec![("2", "submitted"), ("5", "completed"), ("9", "failed")]);
    let options = migration_parity_scan_options(1024, 0);
    assert_eq!(options.read_ahead_bytes, 1024);
    assert_eq!(options.max_fetch_tasks, 1);
    assert!(!options.cache_blocks);
    assert_eq!(migration_parity_scan_options(1, 8).max_fetch_tasks, 8);
}

#[test]
fn snapshot_rows_are_collected_and_checked() {
    let mut snapshot = MigrationParitySnapshot::new();
    snapshot.record_adjacency(Some(ParityAdjacency {
        node_id: 1,
        outgoing: vec![2],
        incoming: vec![],
    }));
    snapshot.record_adjacency(Some(ParityAdjacency {
        node_id: 2,
        outgoing: vec![],
        incoming: vec![1],
    }));
    snapshot.record_node_properties(Some((
        1,
        vec![Property { name: "tier".to_string(), value: PropertyValue::I64(1) }],
    )));
    snapshot.record_edge_properties(EdgePropertyRow::ById { edge_id: 9, properties: vec![] });
    snapshot.record_edge_properties(EdgePropertyRow::Pair { from: 4, to: 3, properties: vec![] });
    snapshot.record_edge_properties(EdgePropertyRow::Pair { from: 3, to: 9, properties: vec![] });
    snapshot.finish_edge_properties();
    snapshot.record_edge_endpoints(Some((9, 1, 2)));
    let mut ids = RoaringTreemap::new();
    ids.insert(9);
    let value = helix_db::bitmap::encode_roaring_treemap(&ids);
    snapshot
        .record_pair_index(Some(PairIndexRow { key: vec![1], from: 1, to: 2, value }))
        .unwrap();
    snapshot.finish_pair_indexes();
    snapshot.record_property_index();
    snapshot.record_allocator_watermarks(Some(10), None);
    record_consistency_findings(&mut snapshot);
    assert_eq!(snapshot.legacy_edge_pairs[0].from, 3);
    assert_eq!(snapshot.pair_indexes[0].edge_ids, vec![9]);
    assert_eq!(snapshot.allocator_watermarks.get("next_node_id"), Some(&10));
    assert_eq!(snapshot.allocator_watermarks.get("next_edge_id"), Some(&0));
    assert_eq!(snapshot.raw_counts.get("adjacency_rows"), Some(&2));
    assert!(snapshot.consistency_findings.is_empty(), "{:?}", snapshot.consistency_findings);
    let error = snapshot
        .record_pair_index(Some(PairIndexRow {
            key: b"k\x01".to_vec(),
            from: 1,
            to: 2,
            value: b"broken".to_vec(),
        }))
        .unwrap_err();
    assert!(error.message().starts_with("pair-index key b\"k\\x01\" has an invalid bitmap: "));
    let error = snapshot
        .record_pair_index(Some(PairIndexRow {
            key: b"\n\r\t\\\"\0 ~\x7f\xff".to_vec(),
            from: 1,
            to: 2,
            value: vec![],
        }))
        .unwrap_err();
    let cause = RoaringTreemap::deserialize_from(&b""[..]).unwrap_err();
    assert_eq!(
        error.message(),
        format!(
            "pair-index key b\"\\n\\r\\t\\\\\\\"\\0 ~\\x7f\\xff\" has an invalid bitmap: \
             failed to decode parity bitmap: {cause}"
        )
    );

    let mut broken = MigrationParitySnapshot::new();
    broken.record_edge_properties(EdgePropertyRow::ById { edge_id: 9, properties: vec![] });
    record_consistency_findings(&mut broken);
    assert!(!broken.consistency_findings.is_empty());
}

#[test]
fn legacy_pairs_of_the_same_nodes_are_ordered_by_their_properties() {
    let mut snapshot = MigrationParitySnapshot::new();
    let values = vec![
        PropertyValue::Object(vec![("a".to_string(), PropertyValue::I64(2))]),
        PropertyValue::Array(vec![PropertyValue::Null, PropertyValue::Bool(true)]),
        PropertyValue::String("b".to_string()),
        PropertyValue::Object(vec![("a".to_string(), PropertyValue::I64(-1))]),
        PropertyValue::Array(vec![PropertyValue::Null]),
        PropertyValue::I64(3),
        PropertyValue::Array(vec![PropertyValue::Null, PropertyValue::Bool(false)]),
        PropertyValue::I64(-3),
    ];
    for value in values {
        let properties = vec![Property { name: "p".to_string(), value }];
        snapshot.record_edge_properties(EdgePropertyRow::Pair { from: 1, to: 2, properties });
    }
    let properties = vec![Property { name: "o".to_string(), value: PropertyValue::I64(9) }];
    snapshot.record_edge_properties(EdgePropertyRow::Pair { from: 1, to: 2, properties });
    snapshot.record_edge_properties(EdgePropertyRow::Pair { from: 1, to: 2, properties: vec![] });
    snapshot.finish_edge_properties();
    let shown: Vec<String> = snapshot
        .legacy_edge_pairs
        .iter()
        .map(|pair| pair.properties.iter().map(|property| format!("{:?}", property.value)).collect())
        .collect();
    assert_eq!(
        shown,
        vec![
            "",
            "I64(9)",
            "I64(-3)",
            "I64(3)",
            "String(\"b\")",
            "Array([Null])",
            "Array([Null, Bool(false)])",
            "Array([Null, Bool(true)])",
            "Object([(\"a\", I64(-1))])",
            "Object([(\"a\", I64(2))])",
        ]
    );
}

fn rehearsal_state() -> MigrationParityCrudState {
    created_crud_state(&vec![1], &vec![2], &vec![10, 11, 12]).unwrap()
}

fn corpus_of_answers(lists: [&[u64]; 14]) -> MigrationParityQueryCorpus {
    let answers: Vec<CrudAnswer> =
        lists.iter().map(|ids| Some(ids.iter().map(|id| Some(*id)).collect())).collect();
    crud_query_corpus(&answers).unwrap()
}

fn created_corpus() -> MigrationParityQueryCorpus {
    corpus_of_answers([
        &[2, 1],
        &[1, 2],
        &[1],
        &[1, 2],
        &[12, 11, 10],
        &[1, 2],
        &[],
        &[1, 2],
        &[10, 11, 12],
        &[],
        &[10, 11, 12],
        &[1, 2],
        &[],
        &[1, 2],
    ])
}

fn updated_corpus() -> MigrationParityQueryCorpus {
    corpus_of_answers([
        &[1, 2],
        &[1, 2],
        &[1],
        &[1, 2],
        &[10, 11, 12],
        &[2],
        &[1],
        &[1, 2],
        &[10, 11],
        &[12],
        &[10, 11, 12],
        &[2],
        &[1],
        &[1, 2],
    ])
}

fn deleted_corpus(vector: &[u64]) -> MigrationParityQueryCorpus {
    corpus_of_answers([
        &[1],
        &[1],
        &[],
        &[1],
        &[12],
        &[],
        &[1],
        &[1],
        &[],
        &[12],
        &[12],
        &[],
        &[1],
        vector,
    ])
}

#[test]
fn a_rehearsal_has_to_show_every_write() {
    let state = rehearsal_state();
    assert_eq!(state.parallel_edge_ids, vec![10, 11]);
    assert_eq!(state.self_edge_id, 12);
    let (create, update, delete) = (created_corpus(), updated_corpus(), deleted_corpus(&[1, 7]));
    assert!(validate_crud_rehearsal(&state, &create, &update, &delete).is_ok());
    let error = validate_crud_rehearsal(&state, &update, &update, &delete).unwrap_err();
    assert!(error.message().starts_with("CRUD query corpus after create differs: expected "));
    let error = validate_crud_rehearsal(&state, &create, &create, &delete).unwrap_err();
    assert!(error.message().starts_with("CRUD query corpus after update differs: expected "));
    let error =
        validate_crud_rehearsal(&state, &create, &update, &deleted_corpus(&[1, 2])).unwrap_err();
    assert!(error.message().starts_with("CRUD query corpus after delete differs: "));
    let evidence = crud_evidence(state, create, update, delete).unwrap();
    assert_eq!(evidence.after_delete.vector_updated_node_ids, vec![1, 7]);
}

#[test]
fn rehearsal_answers_are_read_as_identifiers() {
    assert_eq!(query_corpus_ids(&Some(vec![Some(3), Some(1)]), "ids").unwrap(), vec![1, 3]);
    assert_eq!(
        query_corpus_ids(&None, "ids").unwrap_err().message(),
        "CRUD query corpus result `ids` is not an array"
    );
    assert_eq!(
        query_corpus_ids(&Some(vec![None]), "ids").unwrap_err().message(),
        "CRUD query corpus result `ids` contains a non-u64 value"
    );
    assert_eq!(
        created_crud_state(&vec![], &vec![2], &vec![]).unwrap_err().message(),
        "CRUD rehearsal created 0 left nodes instead of one"
    );
    let state = rehearsal_state();
    assert!(!crud_create_batch().is_empty());
    assert!(!crud_update_batch(&state).is_empty());
    assert!(!crud_delete_batch(&state).is_empty());
    assert_eq!(crud_read_batch(&state).len(), 14);
}

#[test]
fn corpora_are_shown_as_they_are_debugged() {
    let text = created_corpus().to_text();
    assert!(text.starts_with("MigrationParityQueryCorpus { exact_node_ids: [1, 2], "));
    assert_eq!(text, format!("{:?}", created_corpus()));
}

#[test]
fn vector_searches_check_metadata_before_rows() {
    let view = RequestView { active_write: false, has_view: true, comparable_sequence: Some(4) };
    assert!(matches!(read_visibility(view), VectorReadVisibility::Comparable(4)));
    let writing = RequestView { active_write: true, has_view: true, comparable_sequence: Some(4) };
    assert!(matches!(read_visibility(writing), VectorReadVisibility::Unavailable));
    assert!(matches!(
        start_vector_search(VectorSearchAuthority::AbsentManagedPartition, view),
        VectorSearchStep::ReturnNothing
    ));
    let mut step = start_vector_search(VectorSearchAuthority::Managed, view);
    assert!(matches!(step, VectorSearchStep::OpenIndex { .. }));
    step = continue_vector_search(step, VectorReport::Done, view, false);
    assert!(matches!(step, VectorSearchStep::ReadMetadata { .. }));
    let failed = continue_vector_search(step, VectorReport::Missing, view, false);
    assert!(matches!(failed, VectorSearchStep::Fail { error }
        if error.message().contains("missing physical metadata")));
    step = start_vector_search(VectorSearchAuthority::Managed, view);
    step = continue_vector_search(step, VectorReport::Done, view, false);
    step = continue_vector_search(step, VectorReport::Done, view, false);
    step = continue_vector_search(step, VectorReport::Done, view, false);
    assert!(matches!(step, VectorSearchStep::Search { restricted: false, .. }));
    step = continue_vector_search(step, VectorReport::Done, view, false);
    assert!(matches!(step, VectorSearchStep::ReturnResults));
    step = start_vector_search(VectorSearchAuthority::Managed, view);
    let rejected = VectorReport::Rejected("wrong distance".to_string());
    step = continue_vector_search(step, rejected, view, false);
    assert!(matches!(step, VectorSearchStep::Fail { error }
        if error.message().contains("validated vector read factory rejected generation")));
    step = start_vector_search(VectorSearchAuthority::Managed, view);
    step = continue_vector_search(step, VectorReport::Done, view, false);
    step = continue_vector_search(step, VectorReport::Done, view, false);
    let rejected = VectorReport::Rejected("k must be nonzero".to_string());
    step = continue_vector_search(step, rejected, view, false);
    assert!(matches!(step, VectorSearchStep::Fail {
        error: HelixDbError::InvalidVectorConfig(reason),
    } if reason == "k must be nonzero"));
}

#[test]
fn a_cloned_snapshot_is_independent_of_its_source() {
    let mut snapshot = MigrationParitySnapshot::new();
    snapshot.raw_counts.insert("node".to_string(), 2);
    snapshot.adjacency.insert(
        7,
        ParityAdjacency { node_id: 7, outgoing: vec![8], incoming: vec![] },
    );
    let copy = snapshot.clone();
    snapshot.raw_counts.insert("node".to_string(), 3);
    snapshot.adjacency.take(&7);
    assert_eq!(copy.raw_counts.get("node"), Some(&2));
    assert_eq!(copy.raw_counts.len(), 1);
    assert_eq!(copy.adjacency.get(&7).map(|row| row.outgoing.clone()), Some(vec![8]));
    assert_eq!(copy.adjacency.len(), 1);
}

#[test]
fn only_succeeded_builds_at_their_activation_count_as_completed() {
    let counters = BuildCounters { entities: 5, input_bytes: 70 };
    let activate = OperationProgress::VectorActivate { counters };
    assert_eq!(
        completed_vector_build(1, 2, OperationOutcome::BuildSucceeded, activate),
        Some(CompletedVectorBuild { index_id: 1, generation: 2, counters })
    );
    for outcome in [OperationOutcome::Unfinished, OperationOutcome::Other] {
        assert_eq!(completed_vector_build(1, 2, outcome, activate), None);
    }
    for progress in [OperationProgress::VectorBuild, OperationProgress::Other] {
        assert_eq!(completed_vector_build(1, 2, OperationOutcome::BuildSucceeded, progress), None);
    }

    let mut scan = V2Scan::new();
    let row = |outcome, progress, status: &str| {
        ScopedRow::Operation(OperationRow {
            index_id: 1,
            generation: 2,
            outcome,
            progress,
            status: status.to_string(),
        })
    };
    let unfinished = row(OperationOutcome::Unfinished, activate, "running");
    assert!(scan.record_scoped_row("Operation", unfinished).is_ok());
    assert!(scan.completed_vector_builds.is_empty());
    let completed = row(OperationOutcome::BuildSucceeded, activate, "completed");
    assert!(scan.record_scoped_row("Operation", completed).is_ok());
    assert_eq!(scan.completed_vector_builds.get(&(1, 2)), Some(&counters));
    assert_eq!(scan.state.operation_statuses, vec!["running", "completed"]);
}
