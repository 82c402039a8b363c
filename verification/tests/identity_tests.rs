use attestors::commands::{key_type_from_name, Config};
use attestors::dictionary::Dictionary;
use attestors::identity::crypto::{
    generate_bls12381_g1_keypair, generate_bls12381_g2_keypair, generate_ed25519_keypair,
    generate_keypair, hash_data, public_key_to_jwk, public_key_to_multibase, sign_ed25519,
    verification_outcome, verify_ed25519, KeyType, SignatureCheck,
};
use attestors::identity::did::{
    DidDocument, DidMethod, PublicKeyFormat, Service, ServiceEndpoint, ServiceType,
    VerificationMethod, VerificationRelationship,
};
use attestors::identity::error::{CredentialFault, CryptoFault, DidFault, IdentityError};
use attestors::identity::utils::{
    basic_did_document, bytes_to_hex, create_basic_did_document, generate_credential_id,
    generate_did, generate_did_with_id, generate_id, generate_nonce, generate_presentation_id,
    hex_to_bytes, lower_hex, parse_did, validate_timestamp, validate_timestamp_at, validate_url,
};
use attestors::identity::vc::{
    CredentialStatus, CredentialType, Issuer, Proof, VerifiableCredential, VerifiablePresentation,
};
use attestors::json::JsonValue;

const NOW: i64 = 1_700_000_000_000;

fn method(id: &str) -> VerificationMethod {
    VerificationMethod {
        id: id.to_string(),
        method_type: "Ed25519VerificationKey2020".to_string(),
        controller: "did:example:123".to_string(),
        public_key: PublicKeyFormat::Multibase { public_key_multibase: "zabc".to_string() },
    }
}

fn credential() -> VerifiableCredential {
    VerifiableCredential::issued_at(
        "urn:uuid:1".to_string(),
        "did:example:issuer".to_string(),
        None,
        Dictionary::new(),
        NOW,
    )
}

fn sample_proof() -> Proof {
    Proof {
        proof_type: "Ed25519Signature2020".to_string(),
        created: NOW,
        verification_method: "did:example:issuer#key-1".to_string(),
        proof_purpose: "assertionMethod".to_string(),
        proof_value: "z58".to_string(),
        additional_properties: Dictionary::new(),
    }
}

#[test]
fn sha256_of_abc() {
    let digest = hash_data(b"abc");
    assert_eq!(
        bytes_to_hex(&digest),
        "ba7816bf8f01cfea414140de5dae2223b00361a396177a9cb410ff61f20015ad"
    );
    assert_eq!(hash_data(b"").len(), 32);
    assert_ne!(hash_data(b"a"), hash_data(b"b"));
}

#[test]
fn key_type_names() {
    assert_eq!(KeyType::Ed25519.to_text(), "Ed25519VerificationKey2020");
    assert_eq!(KeyType::Secp256k1.to_text(), "EcdsaSecp256k1VerificationKey2019");
    assert_eq!(KeyType::Bls12381G1.to_text(), "Bls12381G1Key2020");
    assert_eq!(KeyType::Bls12381G2.to_text(), "Bls12381G2Key2020");
}

#[test]
fn key_types_from_the_command_line() {
    assert_eq!(key_type_from_name(Some("bls12381")), KeyType::Bls12381G1);
    assert_eq!(key_type_from_name(Some("ed25519")), KeyType::Ed25519);
    assert_eq!(key_type_from_name(Some("rsa")), KeyType::Ed25519);
    assert_eq!(key_type_from_name(None), KeyType::Ed25519);
    let config = Config::default();
    assert_eq!(config.ipfs_endpoint, "http://127.0.0.1:5001");
    assert_eq!(config.substrate_endpoint, "ws://127.0.0.1:9944");
}

#[test]
fn generated_keypairs_have_the_right_shape() {
    let ed = generate_ed25519_keypair().unwrap();
    assert_eq!(ed.key_type, KeyType::Ed25519);
    assert_eq!(ed.private_key.len(), 64);
    assert_eq!(ed.public_key.len(), 32);
    let g1 = generate_bls12381_g1_keypair().unwrap();
    assert_eq!(g1.key_type, KeyType::Bls12381G1);
    assert_eq!(g1.private_key.len(), 32);
    assert_eq!(g1.public_key.len(), 48);
    let g2 = generate_bls12381_g2_keypair().unwrap();
    assert_eq!(g2.key_type, KeyType::Bls12381G2);
    assert_eq!(g2.private_key.len(), 32);
    assert_eq!(g2.public_key.len(), 96);
    assert_ne!(g1.private_key, generate_bls12381_g1_keypair().unwrap().private_key);
}

#[test]
fn bls_public_keys_are_the_generators_times_the_private_keys() {
    let g1 = generate_bls12381_g1_keypair().unwrap();
    let raw: [u8; 32] = g1.private_key.clone().try_into().unwrap();
    let secret = bls12_381::Scalar::from_bytes(&raw).unwrap();
    let expected = bls12_381::G1Affine::from(bls12_381::G1Projective::generator() * secret);
    assert_eq!(g1.public_key, expected.to_compressed().to_vec());
    let g2 = generate_bls12381_g2_keypair().unwrap();
    let raw: [u8; 32] = g2.private_key.clone().try_into().unwrap();
    let secret = bls12_381::Scalar::from_bytes(&raw).unwrap();
    let expected = bls12_381::G2Affine::from(bls12_381::G2Projective::generator() * secret);
    assert_eq!(g2.public_key, expected.to_compressed().to_vec());
}

#[test]
fn generate_keypair_by_type() {
    assert_eq!(generate_keypair(KeyType::Ed25519).unwrap().key_type, KeyType::Ed25519);
    assert_eq!(generate_keypair(KeyType::Bls12381G1).unwrap().public_key.len(), 48);
    assert_eq!(generate_keypair(KeyType::Bls12381G2).unwrap().public_key.len(), 96);
    assert!(matches!(
        generate_keypair(KeyType::Secp256k1),
        Err(IdentityError::CryptoError(CryptoFault::Unsupported))
    ));
}

#[test]
fn schnorr_signatures_verify() {
    let pair = generate_ed25519_keypair().unwrap();
    let signature = sign_ed25519(b"data", &pair.private_key).unwrap();
    assert_eq!(signature.len(), 64);
    assert!(verify_ed25519(b"data", &signature, &pair.public_key).unwrap());
    assert!(!verify_ed25519(b"other", &signature, &pair.public_key).unwrap());
    let stranger = generate_ed25519_keypair().unwrap();
    assert!(!verify_ed25519(b"data", &signature, &stranger.public_key).unwrap());
}

#[test]
fn schnorr_rejects_malformed_input() {
    let pair = generate_ed25519_keypair().unwrap();
    assert!(matches!(
        sign_ed25519(b"data", &[1, 2, 3]),
        Err(IdentityError::CryptoError(CryptoFault::InvalidPrivateKey))
    ));
    let signature = sign_ed25519(b"data", &pair.private_key).unwrap();
    assert!(matches!(
        verify_ed25519(b"data", &signature, &[1, 2, 3]),
        Err(IdentityError::CryptoError(CryptoFault::InvalidPublicKey))
    ));
    assert!(matches!(
        verify_ed25519(b"data", &[0u8; 10], &pair.public_key),
        Err(IdentityError::CryptoError(CryptoFault::InvalidSignature))
    ));
    // a bad key is reported before a bad signature
    assert!(matches!(
        verify_ed25519(b"data", &[0u8; 10], &[1, 2, 3]),
        Err(IdentityError::CryptoError(CryptoFault::InvalidPublicKey))
    ));
}

#[test]
fn verification_outcomes() {
    assert!(matches!(verification_outcome(SignatureCheck::Checked(true)), Ok(true)));
    assert!(matches!(verification_outcome(SignatureCheck::Checked(false)), Ok(false)));
    assert!(matches!(
        verification_outcome(SignatureCheck::BadKey),
        Err(IdentityError::CryptoError(CryptoFault::InvalidPublicKey))
    ));
    assert!(matches!(
        verification_outcome(SignatureCheck::BadSignature),
        Err(IdentityError::CryptoError(CryptoFault::InvalidSignature))
    ));
}

#[test]
fn multibase_is_z_and_url_safe_base64() {
    assert_eq!(public_key_to_multibase(&[0xfb, 0xff], &KeyType::Ed25519), "z-_8");
    assert_eq!(public_key_to_multibase(b"hello", &KeyType::Bls12381G1), "zaGVsbG8");
    assert_eq!(public_key_to_multibase(&[], &KeyType::Secp256k1), "z");
}

#[test]
fn jwk_of_a_public_key() {
    let ed = public_key_to_jwk(b"hello", &KeyType::Ed25519);
    assert_eq!(ed.len(), 3);
    assert!(matches!(ed.get("kty"), Some(JsonValue::Text(t)) if t == "OKP"));
    assert!(matches!(ed.get("crv"), Some(JsonValue::Text(t)) if t == "Ed25519"));
    assert!(matches!(ed.get("x"), Some(JsonValue::Text(t)) if t == "aGVsbG8"));
    let ec = public_key_to_jwk(b"hello", &KeyType::Bls12381G2);
    assert_eq!(ec.len(), 2);
    assert!(matches!(ec.get("kty"), Some(JsonValue::Text(t)) if t == "EC"));
    assert!(matches!(ec.get("x"), Some(JsonValue::Text(t)) if t == "aGVsbG8"));
    assert!(ec.get("crv").is_none());
}

#[test]
fn identifiers_are_fresh() {
    let a = generate_id();
    let b = generate_id();
    assert_eq!(a.len(), 36);
    assert_ne!(a, b);
    assert_eq!(a.chars().filter(|c| *c == '-').count(), 4);
    let c = generate_credential_id();
    assert!(c.starts_with("urn:uuid:"));
    assert_eq!(c.len(), 45);
    let p = generate_presentation_id();
    assert!(p.starts_with("urn:uuid:"));
    assert_ne!(c, p);
}

#[test]
fn dids_are_made_of_method_and_identifier() {
    assert_eq!(generate_did_with_id("web", "example.com"), "did:web:example.com");
    assert_eq!(generate_did_with_id("", ""), "did::");
    let did = generate_did("key");
    assert!(did.starts_with("did:key:"));
    assert_eq!(did.len(), 8 + 36);
}

#[test]
fn parse_did_splits_at_the_first_two_colons() {
    assert_eq!(
        parse_did("did:web:example.com").unwrap(),
        ("did".to_string(), "web".to_string(), "example.com".to_string())
    );
    assert_eq!(
        parse_did("did:ethr:0x1:abc:def").unwrap(),
        ("did".to_string(), "ethr".to_string(), "0x1:abc:def".to_string())
    );
    assert_eq!(
        parse_did("did::").unwrap(),
        ("did".to_string(), "".to_string(), "".to_string())
    );
    assert!(matches!(parse_did("did:web"), Err(IdentityError::InvalidDid(DidFault::TooFewParts))));
    assert!(matches!(parse_did(""), Err(IdentityError::InvalidDid(DidFault::TooFewParts))));
    assert!(matches!(
        parse_did("urn:web:example"),
        Err(IdentityError::InvalidDid(DidFault::MissingPrefix))
    ));
    assert!(matches!(
        parse_did("DID:web:example"),
        Err(IdentityError::InvalidDid(DidFault::MissingPrefix))
    ));
}

#[test]
fn hex_encoding_and_decoding() {
    assert_eq!(bytes_to_hex(&[0xde, 0xad, 0x00, 0x0f]), "dead000f");
    assert_eq!(bytes_to_hex(&[]), "");
    assert_eq!(hex_to_bytes("dead000f").unwrap(), vec![0xde, 0xad, 0x00, 0x0f]);
    assert_eq!(hex_to_bytes("DEAD000F").unwrap(), vec![0xde, 0xad, 0x00, 0x0f]);
    assert_eq!(hex_to_bytes("").unwrap(), Vec::<u8>::new());
    assert!(matches!(hex_to_bytes("abc"), Err(IdentityError::EncodingError)));
    assert!(matches!(hex_to_bytes("zz"), Err(IdentityError::EncodingError)));
    assert!(matches!(hex_to_bytes("0g"), Err(IdentityError::EncodingError)));
    let bytes: Vec<u8> = (0..=255).collect();
    assert_eq!(hex_to_bytes(&bytes_to_hex(&bytes)).unwrap(), bytes);
}

#[test]
fn numbers_in_lower_case_hexadecimal() {
    assert_eq!(lower_hex(0), "0");
    assert_eq!(lower_hex(9), "9");
    assert_eq!(lower_hex(10), "a");
    assert_eq!(lower_hex(255), "ff");
    assert_eq!(lower_hex(4096), "1000");
    assert_eq!(lower_hex(0xdead_beef), "deadbeef");
    assert_eq!(lower_hex(u64::MAX), "ffffffffffffffff");
    let nonce = generate_nonce();
    assert!(!nonce.is_empty() && nonce.len() <= 16);
    assert!(nonce.chars().all(|c| c.is_ascii_hexdigit() && !c.is_ascii_uppercase()));
}

#[test]
fn urls_are_validated() {
    assert!(validate_url("https://example.com/path?x=1").is_ok());
    assert!(validate_url("ipfs://bafy").is_ok());
    assert!(matches!(
        validate_url("not a url"),
        Err(IdentityError::InvalidDid(DidFault::InvalidUrl))
    ));
    assert!(matches!(validate_url(""), Err(IdentityError::InvalidDid(DidFault::InvalidUrl))));
}

#[test]
fn timestamps_must_not_be_in_the_future() {
    assert!(validate_timestamp_at(NOW, NOW).is_ok());
    assert!(validate_timestamp_at(NOW - 1, NOW).is_ok());
    assert!(matches!(
        validate_timestamp_at(NOW + 1, NOW),
        Err(IdentityError::InvalidCredential(CredentialFault::FutureTimestamp))
    ));
    assert!(validate_timestamp(0).is_ok());
    assert!(validate_timestamp(i64::MAX).is_err());
}

#[test]
fn a_new_did_document_is_bare() {
    let doc = DidDocument::new_at("did:example:123".to_string(), NOW);
    assert_eq!(
        doc.context,
        vec![
            "https://www.w3.org/ns/did/v1".to_string(),
            "https://w3id.org/security/suites/ed25519-2020/v1".to_string()
        ]
    );
    assert_eq!(doc.id, "did:example:123");
    assert!(doc.verification_method.is_none());
    assert!(doc.authentication.is_none());
    assert!(doc.service.is_none());
    assert_eq!(doc.created, Some(NOW));
    assert_eq!(doc.updated, None);
    let fresh = DidDocument::new("did:example:456".to_string());
    assert!(fresh.created.unwrap() > 1_600_000_000_000);
}

#[test]
fn a_did_document_grows() {
    let mut doc = DidDocument::new_at("did:example:123".to_string(), NOW);
    doc.add_verification_method_at(method("did:example:123#key-1"), NOW + 1);
    doc.add_verification_method_at(method("did:example:123#key-2"), NOW + 2);
    assert_eq!(doc.verification_method.as_ref().unwrap().len(), 2);
    assert_eq!(doc.verification_method.as_ref().unwrap()[1].id, "did:example:123#key-2");
    assert_eq!(doc.updated, Some(NOW + 2));
    doc.add_authentication_at(
        VerificationRelationship::Reference("did:example:123#key-1".to_string()),
        NOW + 3,
    );
    assert_eq!(doc.authentication.as_ref().unwrap().len(), 1);
    doc.add_service_at(
        Service {
            id: "did:example:123#hub".to_string(),
            service_type: ServiceType::Single("Hub".to_string()),
            service_endpoint: ServiceEndpoint::Uri("https://hub.example".to_string()),
        },
        NOW + 4,
    );
    assert_eq!(doc.service.as_ref().unwrap().len(), 1);
    assert_eq!(doc.updated, Some(NOW + 4));
    assert_eq!(doc.created, Some(NOW));
    doc.add_verification_method(method("did:example:123#key-3"));
    doc.add_authentication(VerificationRelationship::Embedded(method("did:example:123#key-4")));
    doc.add_service(Service {
        id: "s".to_string(),
        service_type: ServiceType::Multiple(vec!["A".to_string(), "B".to_string()]),
        service_endpoint: ServiceEndpoint::Object(Dictionary::new()),
    });
    assert_eq!(doc.verification_method.as_ref().unwrap().len(), 3);
    assert_eq!(doc.authentication.as_ref().unwrap().len(), 2);
    assert_eq!(doc.service.as_ref().unwrap().len(), 2);
    assert!(doc.updated.unwrap() > NOW + 4);
}

#[test]
fn did_documents_are_validated() {
    let mut doc = DidDocument::new_at("did:example:123".to_string(), NOW);
    assert!(doc.validate().is_ok());
    doc.add_verification_method_at(method("did:example:123#key-1"), NOW);
    doc.add_verification_method_at(method("did:other:9#key"), NOW);
    assert!(doc.validate().is_ok());
    doc.add_verification_method_at(method("#key-3"), NOW);
    assert!(matches!(doc.validate(), Err(IdentityError::InvalidDid(DidFault::ForeignMethodId))));
    let no_prefix = DidDocument::new_at("example:123".to_string(), NOW);
    assert!(matches!(no_prefix.validate(), Err(IdentityError::InvalidDid(DidFault::MissingPrefix))));
    let short = DidDocument::new_at("did:example".to_string(), NOW);
    assert!(matches!(short.validate(), Err(IdentityError::InvalidDid(DidFault::TooFewParts))));
    let empty_id = DidDocument::new_at("did:example:".to_string(), NOW);
    assert!(empty_id.validate().is_ok());
}

#[test]
fn did_methods_are_read_from_the_did() {
    let method_of = |id: &str| DidDocument::new_at(id.to_string(), NOW).get_method();
    assert!(matches!(method_of("did:web:example.com"), Ok(DidMethod::Web)));
    assert!(matches!(method_of("did:key:z6Mk"), Ok(DidMethod::Key)));
    assert!(matches!(method_of("did:ethr:0x1"), Ok(DidMethod::Ethr)));
    assert!(matches!(method_of("did:ion:abc"), Ok(DidMethod::Ion)));
    assert!(matches!(method_of("did:example:1"), Ok(DidMethod::Custom(m)) if m == "example"));
    assert!(matches!(method_of("did:web"), Ok(DidMethod::Web)));
    assert!(matches!(method_of("did:"), Ok(DidMethod::Custom(m)) if m.is_empty()));
    assert!(matches!(method_of("nothing"), Err(IdentityError::InvalidDid(DidFault::TooFewParts))));
    assert_eq!(DidMethod::Web.to_text(), "web");
    assert_eq!(DidMethod::Key.to_text(), "key");
    assert_eq!(DidMethod::Ethr.to_text(), "ethr");
    assert_eq!(DidMethod::Ion.to_text(), "ion");
    assert_eq!(DidMethod::Custom("sov".to_string()).to_text(), "sov");
}

#[test]
fn a_basic_did_document_holds_one_key() {
    let doc = basic_did_document("did:example:abc".to_string(), b"hello", KeyType::Ed25519, NOW);
    assert_eq!(doc.id, "did:example:abc");
    let methods = doc.verification_method.as_ref().unwrap();
    assert_eq!(methods.len(), 1);
    assert_eq!(methods[0].id, "did:example:abc#key-1");
    assert_eq!(methods[0].method_type, "Ed25519VerificationKey2020");
    assert_eq!(methods[0].controller, "did:example:abc");
    assert!(matches!(
        &methods[0].public_key,
        PublicKeyFormat::Multibase { public_key_multibase } if public_key_multibase == "zaGVsbG8"
    ));
    let relations = doc.authentication.as_ref().unwrap();
    assert!(matches!(
        &relations[0],
        VerificationRelationship::Reference(r) if r == "did:example:abc#key-1"
    ));
    assert_eq!(doc.created, Some(NOW));
    assert_eq!(doc.updated, Some(NOW));
    assert!(doc.validate().is_ok());
    let (made, pair) = create_basic_did_document("example", KeyType::Bls12381G1).unwrap();
    assert!(made.id.starts_with("did:example:"));
    assert_eq!(pair.key_type, KeyType::Bls12381G1);
    assert_eq!(made.verification_method.as_ref().unwrap()[0].method_type, "Bls12381G1Key2020");
    assert!(made.validate().is_ok());
    assert!(matches!(
        create_basic_did_document("example", KeyType::Secp256k1),
        Err(IdentityError::CryptoError(CryptoFault::Unsupported))
    ));
}

#[test]
fn a_new_credential_is_plain() {
    let vc = credential();
    assert_eq!(vc.context, vec!["https://www.w3.org/2018/credentials/v1".to_string()]);
    assert_eq!(vc.credential_type, vec!["VerifiableCredential".to_string()]);
    assert_eq!(vc.get_issuer_did(), "did:example:issuer");
    assert_eq!(vc.issuance_date, NOW);
    assert!(vc.expiration_date.is_none());
    assert!(vc.proof.is_none());
    assert!(vc.validate_at(NOW).is_ok());
    assert!(vc.validate().is_ok());
    let mut claims = Dictionary::new();
    claims.insert("name".to_string(), JsonValue::Text("Alice".to_string()));
    let fresh = VerifiableCredential::new(
        "did:example:issuer".to_string(),
        Some("did:example:alice".to_string()),
        claims,
    );
    assert!(fresh.id.starts_with("urn:uuid:"));
    assert_eq!(fresh.id.len(), 45);
    assert!(fresh.issuance_date > 1_600_000_000_000);
    assert!(fresh.credential_subject.claims.contains_key("name"));
    assert_eq!(fresh.credential_subject.id.as_deref(), Some("did:example:alice"));
}

#[test]
fn credential_types_are_added_once() {
    let mut vc = credential();
    vc.add_type(CredentialType::KycCredential);
    vc.add_type(CredentialType::KycCredential);
    vc.add_type(CredentialType::VerifiableCredential);
    vc.add_type(CredentialType::Custom("Membership".to_string()));
    assert_eq!(
        vc.credential_type,
        vec![
            "VerifiableCredential".to_string(),
            "KycCredential".to_string(),
            "Membership".to_string()
        ]
    );
    assert_eq!(CredentialType::UniversityDegreeCredential.to_text(), "UniversityDegreeCredential");
    assert_eq!(CredentialType::DriverLicenseCredential.to_text(), "DriverLicenseCredential");
    assert_eq!(CredentialType::AgeVerificationCredential.to_text(), "AgeVerificationCredential");
}

#[test]
fn credentials_are_validated() {
    let mut none = credential();
    none.credential_type.clear();
    assert!(matches!(
        none.validate_at(NOW),
        Err(IdentityError::InvalidCredential(CredentialFault::NoType))
    ));
    let mut other = credential();
    other.credential_type = vec!["KycCredential".to_string()];
    assert!(matches!(
        other.validate_at(NOW),
        Err(IdentityError::InvalidCredential(CredentialFault::MissingBaseType))
    ));
    let mut issuer = credential();
    issuer.issuer = Issuer::Did("https://issuer.example".to_string());
    assert!(matches!(
        issuer.validate_at(NOW),
        Err(IdentityError::InvalidCredential(CredentialFault::IssuerNotDid))
    ));
    issuer.issuer = Issuer::Object { id: "issuer".to_string(), properties: Dictionary::new() };
    assert!(matches!(
        issuer.validate_at(NOW),
        Err(IdentityError::InvalidCredential(CredentialFault::IssuerNotDid))
    ));
    issuer.issuer = Issuer::Object { id: "did:web:issuer".to_string(), properties: Dictionary::new() };
    assert!(issuer.validate_at(NOW).is_ok());
    assert_eq!(issuer.get_issuer_did(), "did:web:issuer");
}

#[test]
fn credentials_expire_at_their_expiration_date() {
    let mut vc = credential();
    assert!(!vc.is_expired_at(i64::MAX));
    assert!(!vc.is_expired());
    vc.set_expiration(NOW + 10);
    assert!(!vc.is_expired_at(NOW + 9));
    assert!(vc.is_expired_at(NOW + 10));
    assert!(vc.is_expired_at(NOW + 11));
    assert!(vc.validate_at(NOW + 9).is_ok());
    assert!(matches!(
        vc.validate_at(NOW + 10),
        Err(IdentityError::InvalidCredential(CredentialFault::Expired))
    ));
    assert!(vc.is_expired());
    assert!(vc.validate().is_err());
}

#[test]
fn credentials_take_status_and_proofs() {
    let mut vc = credential();
    vc.set_status(CredentialStatus {
        id: "https://status.example/1".to_string(),
        status_type: "RevocationList2020".to_string(),
        properties: Dictionary::new(),
    });
    assert_eq!(vc.credential_status.as_ref().unwrap().status_type, "RevocationList2020");
    vc.add_proof(sample_proof());
    vc.add_proof(sample_proof());
    assert_eq!(vc.proof.as_ref().unwrap().len(), 2);
    assert_eq!(vc.id, "urn:uuid:1");
}

#[test]
fn presentations_are_as_valid_as_their_credentials() {
    let mut expired = credential();
    expired.set_expiration(NOW - 1);
    let mut untyped = credential();
    untyped.credential_type.clear();
    let good = VerifiablePresentation::with_id(
        "urn:uuid:p".to_string(),
        vec![credential(), credential()],
        Some("did:example:holder".to_string()),
    );
    assert!(good.validate_at(NOW).is_ok());
    assert!(good.validate().is_ok());
    assert_eq!(good.id.as_deref(), Some("urn:uuid:p"));
    assert_eq!(good.presentation_type, vec!["VerifiablePresentation".to_string()]);
    assert_eq!(good.context, vec!["https://www.w3.org/2018/credentials/v1".to_string()]);
    let bad = VerifiablePresentation::with_id(
        "urn:uuid:p".to_string(),
        vec![credential(), expired, untyped],
        None,
    );
    assert!(matches!(
        bad.validate_at(NOW),
        Err(IdentityError::InvalidCredential(CredentialFault::Expired))
    ));
    let empty = VerifiablePresentation::new(vec![], None);
    assert!(empty.validate_at(NOW).is_ok());
    assert!(empty.id.as_ref().unwrap().starts_with("urn:uuid:"));
    let mut proved = empty;
    proved.add_proof(sample_proof());
    assert_eq!(proved.proof.as_ref().unwrap().len(), 1);
}

#[test]
fn base64_groups_of_one_two_and_three_bytes() {
    assert_eq!(public_key_to_multibase(&[0x00], &KeyType::Ed25519), "zAA");
    assert_eq!(public_key_to_multibase(&[0xff], &KeyType::Ed25519), "z_w");
    assert_eq!(public_key_to_multibase(&[0x00, 0x10], &KeyType::Ed25519), "zABA");
    assert_eq!(public_key_to_multibase(&[0x4d, 0x61, 0x6e], &KeyType::Ed25519), "zTWFu");
    assert_eq!(public_key_to_multibase(&[0x4d, 0x61, 0x6e, 0x4d], &KeyType::Ed25519), "zTWFuTQ");
    assert_eq!(public_key_to_multibase(&[0xfb, 0xef, 0xbe], &KeyType::Ed25519), "z----");
    assert_eq!(public_key_to_multibase(&[0x69, 0xb7, 0x1d], &KeyType::Ed25519), "zabcd");
    assert_eq!(public_key_to_multibase(&[0xd3, 0x5d, 0xb7], &KeyType::Ed25519), "z0123");
}

#[test]
fn schnorr_secret_keys_hold_a_canonical_scalar() {
    // the group order, in little-endian bytes
    let order: [u8; 32] = [
        0xed, 0xd3, 0xf5, 0x5c, 0x1a, 0x63, 0x12, 0x58, 0xd6, 0x9c, 0xf7, 0xa2, 0xde, 0xf9, 0xde,
        0x14, 0, 0, 0, 0, 0, 0, 0, 0, 0, 0, 0, 0, 0, 0, 0, 0x10,
    ];
    let mut at_order = order.to_vec();
    at_order.extend_from_slice(&[7u8; 32]);
    assert!(matches!(
        sign_ed25519(b"data", &at_order),
        Err(IdentityError::CryptoError(CryptoFault::InvalidPrivateKey))
    ));
    let mut below = order.to_vec();
    below[0] = 0xec;
    below.extend_from_slice(&[7u8; 32]);
    assert_eq!(sign_ed25519(b"data", &below).unwrap().len(), 64);
    assert!(sign_ed25519(b"data", &[0u8; 64]).is_ok());
    assert!(sign_ed25519(b"data", &[0xffu8; 64]).is_err());
    assert!(sign_ed25519(b"data", &below[..63]).is_err());
    let pair = generate_ed25519_keypair().unwrap();
    assert!(sign_ed25519(b"data", &pair.private_key).is_ok());
}
