use attestors::dictionary::Dictionary;
use attestors::identity::did::DidDocument;
use attestors::identity::vc::{VerifiableCredential, VerifiablePresentation};
use attestors::ipfs::client::{concat_chunks, ContentMetadata, ContentType, StorageResult};
use attestors::ipfs::retrieval::{
    assess_content, classify_outline, BatchRetrieval, BatchRetrievalResult, ContentFault, JsonOutline,
    RetrievalManager, RetrievalOptions,
};
use attestors::ipfs::storage::{
    count_up, BatchOperation, BatchResult, SearchCriteria, StorageManager, StorageOperation,
};
use attestors::json::JsonValue;

const NOW: i64 = 1_700_000_000_000;

fn text(s: &str) -> String {
    s.to_string()
}

fn stored(hash: &str, kind: ContentType, size: usize, at: i64, tags: &[&str]) -> StorageResult {
    let metadata = ContentMetadata::for_upload(kind, size, at);
    StorageResult::stored(text(hash), metadata).with_tags(tags.iter().map(|t| text(t)).collect())
}

fn index() -> StorageManager {
    let mut manager = StorageManager::new();
    manager.update_indexes(stored("h1", ContentType::DidDocument, 100, NOW, &["alice"]));
    manager.update_indexes(stored("h2", ContentType::VerifiableCredential, 200, NOW + 10, &["alice", "kyc"]));
    manager.update_indexes(stored("h3", ContentType::VerifiableCredential, 300, NOW + 20, &["bob"]));
    manager.update_indexes(stored("h4", ContentType::Custom(text("blob")), 50, NOW + 30, &[]));
    manager
}

fn hashes(found: &[&ContentMetadata]) -> Vec<String> {
    found.iter().map(|m| m.hash.clone()).collect()
}

#[test]
fn content_types_have_mime_types_and_extensions() {
    assert_eq!(ContentType::DidDocument.mime_type(), "application/did+ld+json");
    assert_eq!(ContentType::VerifiableCredential.mime_type(), "application/vc+ld+json");
    assert_eq!(ContentType::VerifiablePresentation.mime_type(), "application/vp+ld+json");
    assert_eq!(ContentType::AttestationProof.mime_type(), "application/json");
    assert_eq!(ContentType::RevocationList.mime_type(), "application/json");
    assert_eq!(ContentType::Schema.mime_type(), "application/schema+json");
    assert_eq!(ContentType::Metadata.mime_type(), "application/json");
    assert_eq!(ContentType::Custom(text("x")).mime_type(), "application/octet-stream");
    assert_eq!(ContentType::DidDocument.file_extension(), ".did.json");
    assert_eq!(ContentType::VerifiableCredential.file_extension(), ".vc.json");
    assert_eq!(ContentType::VerifiablePresentation.file_extension(), ".vp.json");
    assert_eq!(ContentType::AttestationProof.file_extension(), ".proof.json");
    assert_eq!(ContentType::RevocationList.file_extension(), ".revocation.json");
    assert_eq!(ContentType::Schema.file_extension(), ".schema.json");
    assert_eq!(ContentType::Metadata.file_extension(), ".meta.json");
    assert_eq!(ContentType::Custom(text("x")).file_extension(), ".bin");
}

#[test]
fn content_types_have_names_and_compare() {
    assert_eq!(ContentType::DidDocument.to_text(), "DID Document");
    assert_eq!(ContentType::VerifiableCredential.to_text(), "Verifiable Credential");
    assert_eq!(ContentType::VerifiablePresentation.to_text(), "Verifiable Presentation");
    assert_eq!(ContentType::AttestationProof.to_text(), "Attestation Proof");
    assert_eq!(ContentType::RevocationList.to_text(), "Revocation List");
    assert_eq!(ContentType::Schema.to_text(), "Schema");
    assert_eq!(ContentType::Metadata.to_text(), "Metadata");
    assert_eq!(ContentType::Custom(text("Photo")).to_text(), "Photo");
    assert!(ContentType::Schema.is_same(&ContentType::Schema));
    assert!(!ContentType::Schema.is_same(&ContentType::Metadata));
    assert!(ContentType::Custom(text("a")).is_same(&ContentType::Custom(text("a"))));
    assert!(!ContentType::Custom(text("a")).is_same(&ContentType::Custom(text("b"))));
    assert!(!ContentType::Custom(text("Schema")).is_same(&ContentType::Schema));
    assert!(ContentType::Custom(text("a")).clone_kind().is_same(&ContentType::Custom(text("a"))));
}

#[test]
fn upload_metadata_carries_the_tags_of_its_kind() {
    let did = ContentMetadata::for_upload(ContentType::DidDocument, 12, NOW);
    assert_eq!(did.tags, vec![text("did"), text("document")]);
    assert_eq!(did.size, 12);
    assert_eq!(did.hash, "");
    assert_eq!(did.created_at, NOW);
    assert!(did.encryption.is_none());
    let vc = ContentMetadata::for_upload(ContentType::VerifiableCredential, 1, NOW);
    assert_eq!(vc.tags, vec![text("credential"), text("verifiable")]);
    let vp = ContentMetadata::for_upload(ContentType::VerifiablePresentation, 1, NOW);
    assert_eq!(vp.tags, vec![text("presentation"), text("verifiable")]);
    let proof = ContentMetadata::for_upload(ContentType::AttestationProof, 1, NOW);
    assert_eq!(proof.tags, vec![text("attestation"), text("proof")]);
    assert!(ContentMetadata::for_upload(ContentType::Schema, 1, NOW).tags.is_empty());
    let result = StorageResult::stored(text("Qm1"), did).with_tags(vec![text("alice")]);
    assert_eq!(result.hash, "Qm1");
    assert_eq!(result.metadata.hash, "Qm1");
    assert_eq!(result.metadata.tags, vec![text("did"), text("document"), text("alice")]);
    assert_eq!(result.metadata.size, 12);
}

#[test]
fn chunks_are_joined_in_order() {
    assert_eq!(concat_chunks(&vec![vec![1, 2], vec![], vec![3], vec![4, 5]]), vec![1, 2, 3, 4, 5]);
    assert_eq!(concat_chunks(&vec![]), Vec::<u8>::new());
}

#[test]
fn the_index_finds_content_by_hash() {
    let manager = index();
    assert_eq!(manager.get_metadata("h2").unwrap().size, 200);
    assert!(manager.get_metadata("h9").is_none());
    assert_eq!(hashes(&manager.list_all()), vec!["h1", "h2", "h3", "h4"]);
    assert!(StorageManager::new().list_all().is_empty());
}

#[test]
fn the_index_replaces_content_of_a_known_hash() {
    let mut manager = index();
    manager.update_indexes(stored("h1", ContentType::Schema, 7, NOW, &["alice"]));
    assert_eq!(manager.get_metadata("h1").unwrap().size, 7);
    assert_eq!(hashes(&manager.list_all()), vec!["h1", "h2", "h3", "h4"]);
    assert_eq!(manager.get_statistics().total_tags, 7);
    // the tag names the hash once more
    assert_eq!(hashes(&manager.find_by_tags(&[text("alice")])), vec!["h1", "h2"]);
}

#[test]
fn content_is_found_by_tags() {
    let manager = index();
    assert_eq!(hashes(&manager.find_by_tags(&[text("alice")])), vec!["h1", "h2"]);
    assert_eq!(hashes(&manager.find_by_tags(&[text("kyc"), text("alice")])), vec!["h2", "h1"]);
    assert_eq!(hashes(&manager.find_by_tags(&[text("bob"), text("alice"), text("bob")])), vec!["h3", "h1", "h2"]);
    assert_eq!(hashes(&manager.find_by_tags(&[text("credential")])), vec!["h2", "h3"]);
    assert!(manager.find_by_tags(&[text("nobody")]).is_empty());
    assert!(manager.find_by_tags(&[]).is_empty());
}

#[test]
fn search_filters_by_every_criterion() {
    let manager = index();
    assert_eq!(manager.search(SearchCriteria::new()).len(), 4);
    assert_eq!(
        hashes(&manager.search(SearchCriteria::new().with_content_type(ContentType::VerifiableCredential))),
        vec!["h2", "h3"]
    );
    assert_eq!(
        hashes(&manager.search(SearchCriteria::new().with_content_type(ContentType::Custom(text("blob"))))),
        vec!["h4"]
    );
    assert_eq!(
        hashes(&manager.search(SearchCriteria::new().with_tags(vec![text("alice"), text("credential")]))),
        vec!["h2"]
    );
    assert!(manager.search(SearchCriteria::new().with_tags(vec![text("alice"), text("bob")])).is_empty());
    // the dates are exclusive
    assert_eq!(
        hashes(&manager.search(SearchCriteria::new().with_date_range(Some(NOW), Some(NOW + 30)))),
        vec!["h2", "h3"]
    );
    assert_eq!(
        hashes(&manager.search(SearchCriteria::new().with_date_range(Some(NOW + 19), None))),
        vec!["h3", "h4"]
    );
    assert_eq!(
        hashes(&manager.search(SearchCriteria::default().with_date_range(None, Some(NOW + 10)))),
        vec!["h1"]
    );
    // the sizes are inclusive
    assert_eq!(
        hashes(&manager.search(SearchCriteria::new().with_size_range(Some(100), Some(200)))),
        vec!["h1", "h2"]
    );
    assert_eq!(hashes(&manager.search(SearchCriteria::new().with_size_range(Some(201), None))), vec!["h3"]);
    assert_eq!(hashes(&manager.search(SearchCriteria::new().with_size_range(None, Some(50)))), vec!["h4"]);
    let one = manager.get_metadata("h2").unwrap();
    assert!(manager.matches_criteria(one, &SearchCriteria::new().with_tags(vec![text("kyc")])));
    assert!(!manager.matches_criteria(one, &SearchCriteria::new().with_tags(vec![text("bob")])));
}

#[test]
fn statistics_count_items_sizes_kinds_and_tags() {
    let manager = index();
    let statistics = manager.get_statistics();
    assert_eq!(statistics.total_items, 4);
    assert_eq!(statistics.total_size, 650);
    // did, document, alice, credential, verifiable, kyc, bob
    assert_eq!(statistics.total_tags, 7);
    assert_eq!(statistics.type_counts.len(), 3);
    let count = |kind: &ContentType| {
        statistics.type_counts.iter().find(|(k, _)| k.is_same(kind)).map(|(_, n)| *n)
    };
    assert_eq!(count(&ContentType::DidDocument), Some(1));
    assert_eq!(count(&ContentType::VerifiableCredential), Some(2));
    assert_eq!(count(&ContentType::Custom(text("blob"))), Some(1));
    assert_eq!(count(&ContentType::Schema), None);
    let empty = StorageManager::new().get_statistics();
    assert_eq!(empty.total_items, 0);
    assert_eq!(empty.total_size, 0);
    assert!(empty.type_counts.is_empty());
    let mut large = StorageManager::new();
    large.update_indexes(stored("a", ContentType::Schema, usize::MAX, NOW, &[]));
    large.update_indexes(stored("b", ContentType::Schema, usize::MAX, NOW, &[]));
    assert_eq!(large.get_statistics().total_size, u64::MAX);
}

#[test]
fn batches_collect_operations() {
    let batch = BatchOperation::new();
    assert!(batch.is_empty());
    assert_eq!(batch.len(), 0);
    let credential = VerifiableCredential::issued_at(
        text("urn:uuid:1"),
        text("did:example:issuer"),
        None,
        Dictionary::new(),
        NOW,
    );
    let batch = batch
        .add_did_document(DidDocument::new_at(text("did:example:1"), NOW), vec![text("a")])
        .add_credential(credential.clone(), vec![])
        .add_presentation(VerifiablePresentation::with_id(text("p"), vec![credential], None), vec![])
        .add_json(JsonValue::Bool(true), ContentType::Metadata, vec![text("flag")]);
    assert_eq!(batch.len(), 4);
    assert!(!batch.is_empty());
    assert!(matches!(&batch.operations[0], StorageOperation::StoreDid { tags, .. } if tags.len() == 1));
    assert!(matches!(&batch.operations[1], StorageOperation::StoreCredential { .. }));
    assert!(matches!(&batch.operations[2], StorageOperation::StorePresentation { .. }));
    assert!(matches!(
        &batch.operations[3],
        StorageOperation::StoreJson { data: JsonValue::Bool(true), content_type: ContentType::Metadata, .. }
    ));
    assert!(BatchOperation::default().is_empty());
}

#[test]
fn batch_results_count_successes_and_failures() {
    let mut result = BatchResult::new();
    result.record_success(stored("h1", ContentType::Schema, 10, NOW, &[]));
    result.record_failure(1, text("IPFS add failed"));
    result.record_success(stored("h3", ContentType::Schema, 32, NOW, &[]));
    assert_eq!(result.successful.len(), 2);
    assert_eq!(result.failed, vec![(1, text("IPFS add failed"))]);
    assert_eq!(result.total_size, 42);
    assert_eq!(result.total_operations, 3);
    result.record_success(stored("h4", ContentType::Schema, usize::MAX, NOW, &[]));
    assert_eq!(result.total_size, u64::MAX);
    assert_eq!(count_up(4), 5);
    assert_eq!(count_up(usize::MAX), usize::MAX);
}

#[test]
fn the_cache_hands_out_fresh_content_and_drops_stale_content() {
    let mut manager = RetrievalManager::new();
    assert!(manager.get_from_cache("h1", NOW).is_none());
    manager.cache_content("h1", b"{}", Some(ContentType::Metadata), NOW);
    let hit = manager.get_from_cache("h1", NOW + 3_599_999).unwrap();
    assert_eq!(hit.data, b"{}".to_vec());
    assert!(hit.content_type.is_same(&ContentType::Metadata));
    assert_eq!(hit.cached_at, NOW);
    assert_eq!(hit.access_count, 2);
    assert_eq!(manager.get_from_cache("h1", NOW).unwrap().access_count, 3);
    // an hour after it was cached the content is stale and leaves the cache
    assert!(manager.get_from_cache("h1", NOW + 3_600_000).is_none());
    assert!(manager.get_from_cache("h1", NOW).is_none());
    assert_eq!(manager.get_cache_stats().total_items, 0);
}

#[test]
fn the_cache_follows_its_time_to_live() {
    let mut manager = RetrievalManager::new();
    manager.set_cache_ttl(10);
    manager.cache_content("h1", b"abc", None, NOW);
    manager.cache_content("h2", b"abcd", None, NOW);
    assert!(manager.get_from_cache("h1", NOW + 9).is_some());
    assert!(manager.get_from_cache("h1", NOW + 10).is_none());
    let unknown = manager.get_from_cache("h2", NOW).unwrap();
    assert!(unknown.content_type.is_same(&ContentType::Custom(text("unknown"))));
    manager.set_cache_ttl(0);
    assert!(manager.get_from_cache("h2", NOW).is_none());
}

#[test]
fn cache_statistics_sum_sizes_and_accesses() {
    let mut manager = RetrievalManager::new();
    let empty = manager.get_cache_stats();
    assert_eq!(
        (empty.total_items, empty.total_size, empty.total_access_count, empty.average_access_count),
        (0, 0, 0, 0)
    );
    manager.cache_content("h1", b"abc", None, NOW);
    manager.cache_content("h2", b"abcde", None, NOW);
    manager.get_from_cache("h1", NOW);
    manager.get_from_cache("h1", NOW);
    manager.get_from_cache("h1", NOW);
    manager.cache_content("h3", b"", None, NOW);
    assert!(manager.get_from_cache("h3", NOW + 3_600_000).is_none());
    let statistics = manager.get_cache_stats();
    assert_eq!(statistics.total_items, 2);
    assert_eq!(statistics.total_size, 8);
    assert_eq!(statistics.total_access_count, 5);
    assert_eq!(statistics.average_access_count, 2);
    manager.clear_cache();
    assert_eq!(manager.get_cache_stats().total_items, 0);
    assert!(manager.get_from_cache("h2", NOW).is_none());
}

#[test]
fn content_kinds_are_detected_from_json() {
    let manager = RetrievalManager::new();
    let kind = |content: &[u8]| manager.detect_content_type(content);
    assert!(matches!(
        kind(br#"{"@context": [], "id": "did:example:1"}"#),
        Some(ContentType::DidDocument)
    ));
    assert!(matches!(
        kind(br#"{"@context": [], "id": "urn:uuid:1", "credentialSubject": {}}"#),
        Some(ContentType::VerifiableCredential)
    ));
    assert!(matches!(
        kind(br#"{"@context": [], "id": "did:example:1", "credentialSubject": {}}"#),
        Some(ContentType::DidDocument)
    ));
    assert!(matches!(
        kind(br#"{"@context": [], "verifiableCredential": []}"#),
        Some(ContentType::VerifiablePresentation)
    ));
    assert!(matches!(kind(br#"{"@context": [], "id": 7}"#), Some(ContentType::Metadata)));
    assert!(matches!(kind(br#"{"id": "did:example:1"}"#), Some(ContentType::Metadata)));
    assert!(matches!(kind(br#"{"credentialSubject": {}}"#), Some(ContentType::Metadata)));
    assert!(matches!(kind(b"{}"), Some(ContentType::Metadata)));
    assert!(kind(b"[1, 2]").is_none());
    assert!(kind(b"\"text\"").is_none());
    assert!(kind(b"not json").is_none());
    assert!(kind(b"").is_none());
}

#[test]
fn outlines_are_classified_by_their_keys() {
    let outline = |keys: &[&str], id: Option<&str>| JsonOutline {
        keys: keys.iter().map(|k| text(k)).collect(),
        id: id.map(text),
    };
    assert!(matches!(
        classify_outline(&outline(&["@context", "id"], Some("did:web:x"))),
        ContentType::DidDocument
    ));
    assert!(matches!(
        classify_outline(&outline(&["@context", "id"], Some("urn:x"))),
        ContentType::Metadata
    ));
    assert!(matches!(
        classify_outline(&outline(&["@context", "id"], None)),
        ContentType::Metadata
    ));
    assert!(matches!(
        classify_outline(&outline(&["credentialSubject", "@context"], None)),
        ContentType::VerifiableCredential
    ));
    assert!(matches!(
        classify_outline(&outline(&["verifiableCredential", "credentialSubject", "@context"], None)),
        ContentType::VerifiableCredential
    ));
    assert!(matches!(classify_outline(&outline(&[], Some("did:x:y"))), ContentType::Metadata));
}

#[test]
fn content_is_assessed() {
    let good = assess_content("h1", 10, Some(ContentType::Schema), Some(ContentType::Schema), None);
    assert!(good.is_valid);
    assert!(good.errors.is_empty());
    assert_eq!(good.hash, "h1");
    assert_eq!(good.size, 10);
    assert!(matches!(good.content_type, Some(ContentType::Schema)));
    let unknown = assess_content("h1", 10, Some(ContentType::Schema), None, Some(text("ignored")));
    assert!(unknown.is_valid);
    assert!(unknown.content_type.is_none());
    let empty = assess_content("h1", 0, None, None, None);
    assert!(!empty.is_valid);
    assert!(matches!(empty.errors.as_slice(), [ContentFault::Empty]));
    let all = assess_content(
        "h1",
        0,
        Some(ContentType::DidDocument),
        Some(ContentType::Metadata),
        Some(text("missing field")),
    );
    assert!(!all.is_valid);
    assert!(matches!(
        all.errors.as_slice(),
        [
            ContentFault::Empty,
            ContentFault::TypeMismatch { expected: ContentType::DidDocument, detected: ContentType::Metadata },
            ContentFault::InvalidStructure(message)
        ] if message == "missing field"
    ));
    assert!(matches!(all.content_type, Some(ContentType::Metadata)));
    let broken = assess_content("h1", 5, None, Some(ContentType::Metadata), Some(text("eof")));
    assert!(matches!(broken.errors.as_slice(), [ContentFault::InvalidStructure(_)]));
}

#[test]
fn batch_retrievals_are_configured() {
    let batch = BatchRetrieval::new(vec![text("h1"), text("h2")]);
    assert_eq!(batch.hashes, vec![text("h1"), text("h2")]);
    assert!(batch.options.use_cache);
    assert_eq!(batch.options.timeout, Some(30_000));
    assert!(!batch.options.verify_integrity);
    let plain = batch.clone().without_cache();
    assert!(!plain.options.use_cache);
    assert_eq!(plain.options.timeout, Some(30_000));
    let checked = batch.clone().with_verification();
    assert!(checked.options.verify_integrity);
    assert!(checked.options.use_cache);
    let custom = batch.with_options(RetrievalOptions { use_cache: false, timeout: None, verify_integrity: true });
    assert!(custom.options.timeout.is_none());
    assert_eq!(custom.hashes.len(), 2);
    let options = RetrievalOptions::default();
    assert!(options.use_cache && !options.verify_integrity);
}

#[test]
fn batch_retrieval_results_count_hits_and_misses() {
    let mut result = BatchRetrievalResult::new();
    result.record_cache_hit(text("h1"), Ok(JsonValue::Bool(true)));
    result.record_cache_hit(text("h2"), Err(text("Cache deserialization error: eof")));
    result.record_cache_miss(text("h3"), Ok(JsonValue::Null));
    result.record_cache_miss(text("h4"), Err(text("Content not found: h4")));
    result.record_cache_miss(text("h5"), Err(text("timeout")));
    assert_eq!(result.cache_hits, 2);
    assert_eq!(result.cache_misses, 3);
    assert_eq!(result.successful.len(), 2);
    assert_eq!(result.failed.len(), 3);
    assert!(matches!(result.successful.get("h1"), Some(JsonValue::Bool(true))));
    assert_eq!(result.failed.get("h4"), Some(&text("Content not found: h4")));
    assert!(result.failed.get("h1").is_none());
}
