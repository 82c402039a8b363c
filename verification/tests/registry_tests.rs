use attestors::registry::credential_registry::{
    CredentialRegistry, CredentialRegistryFault, CredentialStatus,
};
use attestors::registry::did_registry::{DidRegistry, DidRegistryFault, DidStatus};
use attestors::registry::verification::verify_credential_hash;

const NOW: i64 = 1_700_000_000_000;

fn text(s: &str) -> String {
    s.to_string()
}

fn dids() -> DidRegistry {
    let mut registry = DidRegistry::new();
    registry
        .register_did_at(text("did:example:1"), text("hash-1"), text("alice"), vec![text("key-1")], NOW)
        .unwrap();
    registry.register_did_at(text("did:example:2"), text("hash-2"), text("bob"), vec![], NOW).unwrap();
    registry.register_did_at(text("did:example:3"), text("hash-3"), text("alice"), vec![], NOW).unwrap();
    registry
}

fn credentials() -> CredentialRegistry {
    let mut registry = CredentialRegistry::new();
    registry
        .register_credential_at(
            text("c1"),
            text("hash-1"),
            text("did:example:issuer"),
            Some(text("did:example:alice")),
            Some(text("schema-1")),
            Some(NOW + 1000),
            2,
            NOW,
        )
        .unwrap();
    registry
        .register_credential_at(text("c2"), text("hash-2"), text("did:example:other"), None, None, None, 0, NOW)
        .unwrap();
    registry
        .register_credential_at(
            text("c3"),
            text("hash-3"),
            text("did:example:issuer"),
            Some(text("did:example:bob")),
            None,
            None,
            1,
            NOW,
        )
        .unwrap();
    registry
}

#[test]
fn hashes_are_compared_byte_by_byte() {
    assert!(verify_credential_hash(b"abc", b"abc"));
    assert!(verify_credential_hash(b"", b""));
    assert!(!verify_credential_hash(b"abc", b"abd"));
    assert!(!verify_credential_hash(b"abc", b"ab"));
    assert!(!verify_credential_hash(b"", b"a"));
}

#[test]
fn dids_are_registered_once() {
    let mut registry = dids();
    let entry = registry.get_did("did:example:1").unwrap();
    assert_eq!(entry.did, "did:example:1");
    assert_eq!(entry.document_hash, "hash-1");
    assert_eq!(entry.controller, "alice");
    assert_eq!(entry.created_at, NOW);
    assert_eq!(entry.updated_at, NOW);
    assert_eq!(entry.status, DidStatus::Active);
    assert_eq!(entry.verification_methods, vec![text("key-1")]);
    assert_eq!(entry.metadata.len(), 0);
    assert!(registry.get_did("did:example:9").is_none());
    assert_eq!(
        registry.register_did_at(text("did:example:1"), text("x"), text("mallory"), vec![], NOW + 1),
        Err(DidRegistryFault::AlreadyExists)
    );
    assert_eq!(registry.get_did("did:example:1").unwrap().controller, "alice");
    assert_eq!(
        registry.register_did(text("did:example:2"), text("x"), text("y"), vec![]),
        Err(text("DID already exists"))
    );
    assert!(registry.register_did(text("did:example:4"), text("h"), text("carol"), vec![]).is_ok());
    assert!(registry.get_did("did:example:4").unwrap().created_at > 1_600_000_000_000);
}

#[test]
fn only_the_controller_updates_an_active_did() {
    let mut registry = dids();
    assert_eq!(
        registry.update_did_document_at("did:example:9", text("new"), "alice", NOW + 5),
        Err(DidRegistryFault::NotFound)
    );
    assert_eq!(
        registry.update_did_document_at("did:example:1", text("new"), "bob", NOW + 5),
        Err(DidRegistryFault::Unauthorized)
    );
    assert_eq!(registry.get_did("did:example:1").unwrap().document_hash, "hash-1");
    registry.update_did_document_at("did:example:1", text("new"), "alice", NOW + 5).unwrap();
    let entry = registry.get_did("did:example:1").unwrap();
    assert_eq!(entry.document_hash, "new");
    assert_eq!(entry.updated_at, NOW + 5);
    assert_eq!(entry.created_at, NOW);
    assert_eq!(entry.verification_methods, vec![text("key-1")]);
    registry.deactivate_did_at("did:example:1", "alice", NOW + 6).unwrap();
    assert_eq!(
        registry.update_did_document_at("did:example:1", text("newer"), "alice", NOW + 7),
        Err(DidRegistryFault::NotActive)
    );
    assert_eq!(
        registry.update_did_document("did:example:1", text("newer"), "alice"),
        Err(text("DID is not active"))
    );
    assert_eq!(
        registry.update_did_document("did:example:2", text("newer"), "alice"),
        Err(text("Unauthorized: not the controller"))
    );
    assert_eq!(
        registry.update_did_document("did:example:7", text("newer"), "alice"),
        Err(text("DID not found"))
    );
    assert!(registry.update_did_document("did:example:2", text("newer"), "bob").is_ok());
    assert_eq!(registry.get_did("did:example:2").unwrap().document_hash, "newer");
}

#[test]
fn dids_are_deactivated_by_their_controller() {
    let mut registry = dids();
    assert!(registry.is_active("did:example:1"));
    assert!(!registry.is_active("did:example:9"));
    assert_eq!(
        registry.deactivate_did_at("did:example:1", "bob", NOW + 1),
        Err(DidRegistryFault::Unauthorized)
    );
    assert_eq!(
        registry.deactivate_did_at("did:example:9", "bob", NOW + 1),
        Err(DidRegistryFault::NotFound)
    );
    assert!(registry.is_active("did:example:1"));
    registry.deactivate_did_at("did:example:1", "alice", NOW + 1).unwrap();
    assert!(!registry.is_active("did:example:1"));
    let entry = registry.get_did("did:example:1").unwrap();
    assert_eq!(entry.status, DidStatus::Deactivated);
    assert_eq!(entry.updated_at, NOW + 1);
    assert_eq!(entry.document_hash, "hash-1");
    assert!(registry.deactivate_did("did:example:2", "bob").is_ok());
    assert_eq!(registry.deactivate_did("did:example:3", "bob"), Err(text("Unauthorized: not the controller")));
    assert_eq!(registry.deactivate_did("did:example:8", "bob"), Err(text("DID not found")));
}

#[test]
fn changes_leave_the_order_of_the_registries() {
    let mut registry = dids();
    registry.update_did_document_at("did:example:1", text("new"), "alice", NOW + 5).unwrap();
    registry.deactivate_did_at("did:example:1", "alice", NOW + 6).unwrap();
    let of_alice: Vec<&str> =
        registry.list_dids_by_controller("alice").iter().map(|e| e.did.as_str()).collect();
    assert_eq!(of_alice, vec!["did:example:1", "did:example:3"]);
    let mut registry = credentials();
    registry.add_attestation("c1").unwrap();
    registry.revoke_credential_at("c1", text("issuer"), text("fraud"), NOW + 1).unwrap();
    let issued: Vec<&str> = registry
        .list_credentials_by_issuer("did:example:issuer")
        .iter()
        .map(|e| e.credential_id.as_str())
        .collect();
    assert_eq!(issued, vec!["c1", "c3"]);
}

#[test]
fn dids_are_listed_by_controller() {
    let registry = dids();
    let of_alice: Vec<&str> =
        registry.list_dids_by_controller("alice").iter().map(|e| e.did.as_str()).collect();
    assert_eq!(of_alice, vec!["did:example:1", "did:example:3"]);
    assert_eq!(registry.list_dids_by_controller("bob").len(), 1);
    assert!(registry.list_dids_by_controller("carol").is_empty());
    assert!(DidRegistry::default().list_dids_by_controller("alice").is_empty());
}

#[test]
fn fault_messages() {
    assert_eq!(DidRegistryFault::AlreadyExists.to_text(), "DID already exists");
    assert_eq!(DidRegistryFault::NotFound.to_text(), "DID not found");
    assert_eq!(DidRegistryFault::Unauthorized.to_text(), "Unauthorized: not the controller");
    assert_eq!(DidRegistryFault::NotActive.to_text(), "DID is not active");
    assert_eq!(CredentialRegistryFault::AlreadyExists.to_text(), "Credential already exists");
    assert_eq!(CredentialRegistryFault::NotFound.to_text(), "Credential not found");
    assert_eq!(
        CredentialRegistryFault::NotPending.to_text(),
        "Credential is not pending attestation"
    );
    assert_eq!(CredentialRegistryFault::AlreadyRevoked.to_text(), "Credential already revoked");
    assert_eq!(CredentialRegistryFault::SchemaExists.to_text(), "Schema already exists");
}

#[test]
fn credentials_are_registered_pending_or_active() {
    let mut registry = credentials();
    let c1 = registry.get_credential("c1").unwrap();
    assert_eq!(c1.credential_id, "c1");
    assert_eq!(c1.credential_hash, "hash-1");
    assert_eq!(c1.status, CredentialStatus::Pending);
    assert_eq!(c1.attestation_count, 0);
    assert_eq!(c1.required_attestations, 2);
    assert_eq!(c1.issued_at, NOW);
    assert_eq!(c1.expires_at, Some(NOW + 1000));
    assert!(c1.revocation_reason.is_none());
    assert_eq!(registry.get_credential("c2").unwrap().status, CredentialStatus::Active);
    assert!(registry.get_credential("c9").is_none());
    assert_eq!(
        registry.register_credential_at(text("c1"), text("x"), text("y"), None, None, None, 0, NOW),
        Err(CredentialRegistryFault::AlreadyExists)
    );
    assert_eq!(registry.get_credential("c1").unwrap().credential_hash, "hash-1");
    assert_eq!(
        registry.register_credential(text("c2"), text("x"), text("y"), None, None, None, 0),
        Err(text("Credential already exists"))
    );
    assert!(registry.register_credential(text("c4"), text("x"), text("y"), None, None, None, 0).is_ok());
    assert!(registry.get_credential("c4").unwrap().issued_at > 1_600_000_000_000);
}

#[test]
fn attestations_activate_a_pending_credential() {
    let mut registry = credentials();
    registry.add_attestation("c1").unwrap();
    let c1 = registry.get_credential("c1").unwrap();
    assert_eq!(c1.attestation_count, 1);
    assert_eq!(c1.status, CredentialStatus::Pending);
    registry.add_attestation("c1").unwrap();
    let c1 = registry.get_credential("c1").unwrap();
    assert_eq!(c1.attestation_count, 2);
    assert_eq!(c1.status, CredentialStatus::Active);
    assert_eq!(registry.add_attestation("c1"), Err(text("Credential is not pending attestation")));
    assert_eq!(registry.get_credential("c1").unwrap().attestation_count, 2);
    assert_eq!(registry.add_attestation("c2"), Err(text("Credential is not pending attestation")));
    assert_eq!(registry.add_attestation("c9"), Err(text("Credential not found")));
    registry.add_attestation("c3").unwrap();
    assert_eq!(registry.get_credential("c3").unwrap().status, CredentialStatus::Active);
}

#[test]
fn credentials_are_revoked_once() {
    let mut registry = credentials();
    assert_eq!(
        registry.revoke_credential_at("c9", text("issuer"), text("fraud"), NOW + 1),
        Err(CredentialRegistryFault::NotFound)
    );
    assert!(registry.get_revocation_info("c1").is_none());
    registry.revoke_credential_at("c1", text("issuer"), text("fraud"), NOW + 1).unwrap();
    let c1 = registry.get_credential("c1").unwrap();
    assert_eq!(c1.status, CredentialStatus::Revoked);
    assert_eq!(c1.revocation_reason.as_deref(), Some("fraud"));
    assert_eq!(c1.credential_hash, "hash-1");
    let info = registry.get_revocation_info("c1").unwrap();
    assert_eq!(info.credential_id, "c1");
    assert_eq!(info.revoked_at, NOW + 1);
    assert_eq!(info.revoked_by, "issuer");
    assert_eq!(info.reason, "fraud");
    assert!(info.revocation_list_hash.is_none());
    assert_eq!(
        registry.revoke_credential_at("c1", text("issuer"), text("again"), NOW + 2),
        Err(CredentialRegistryFault::AlreadyRevoked)
    );
    assert_eq!(registry.get_revocation_info("c1").unwrap().reason, "fraud");
    assert_eq!(registry.revoke_credential("c1", text("i"), text("r")), Err(text("Credential already revoked")));
    assert_eq!(registry.revoke_credential("c7", text("i"), text("r")), Err(text("Credential not found")));
    assert!(registry.revoke_credential("c2", text("i"), text("r")).is_ok());
    assert_eq!(registry.add_attestation("c1"), Err(text("Credential is not pending attestation")));
    assert!(!registry.is_valid_at("c2", NOW));
}

#[test]
fn credentials_show_as_expired_after_their_time() {
    let mut registry = credentials();
    assert_eq!(registry.get_credential_status_at("c1", NOW), Some(CredentialStatus::Pending));
    assert_eq!(registry.get_credential_status_at("c1", NOW + 1000), Some(CredentialStatus::Pending));
    assert_eq!(registry.get_credential_status_at("c1", NOW + 1001), Some(CredentialStatus::Expired));
    assert_eq!(registry.get_credential_status_at("c2", i64::MAX), Some(CredentialStatus::Active));
    assert_eq!(registry.get_credential_status_at("c9", NOW), None);
    assert_eq!(registry.get_credential_status("c2"), Some(CredentialStatus::Active));
    assert_eq!(registry.get_credential_status("c1"), Some(CredentialStatus::Expired));
    assert!(registry.is_valid_at("c2", NOW));
    assert!(registry.is_valid("c2"));
    assert!(!registry.is_valid_at("c1", NOW));
    assert!(!registry.is_valid_at("c9", NOW));
    registry.add_attestation("c1").unwrap();
    registry.add_attestation("c1").unwrap();
    assert!(registry.is_valid_at("c1", NOW + 1000));
    assert!(!registry.is_valid_at("c1", NOW + 1001));
    assert!(!registry.is_valid("c1"));
}

#[test]
fn credentials_are_listed_by_issuer_and_subject() {
    let registry = credentials();
    let issued: Vec<&str> = registry
        .list_credentials_by_issuer("did:example:issuer")
        .iter()
        .map(|e| e.credential_id.as_str())
        .collect();
    assert_eq!(issued, vec!["c1", "c3"]);
    assert!(registry.list_credentials_by_issuer("did:example:nobody").is_empty());
    let held: Vec<&str> = registry
        .list_credentials_by_subject("did:example:bob")
        .iter()
        .map(|e| e.credential_id.as_str())
        .collect();
    assert_eq!(held, vec!["c3"]);
    assert!(registry.list_credentials_by_subject("did:example:carol").is_empty());
    assert!(CredentialRegistry::default().list_credentials_by_issuer("x").is_empty());
}

#[test]
fn schemas_are_registered_once() {
    let mut registry = credentials();
    assert!(registry.get_schema_hash("schema-1").is_none());
    registry.register_schema(text("schema-1"), text("hash-a")).unwrap();
    assert_eq!(registry.get_schema_hash("schema-1"), Some(&text("hash-a")));
    assert_eq!(
        registry.register_schema(text("schema-1"), text("hash-b")),
        Err(text("Schema already exists"))
    );
    assert_eq!(registry.get_schema_hash("schema-1"), Some(&text("hash-a")));
}
