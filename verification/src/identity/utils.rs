//! Identifiers and small helpers for identity records.

use vstd::prelude::*;
use vstd::utf8::encode_utf8;
use crate::clock::now_millis;
use crate::identity::crypto::{
    base64_url_text, generate_keypair, public_key_to_multibase, CryptoKeyPair, KeyType,
};
use crate::identity::did::{
    DidDocument, PublicKeyFormat, VerificationMethod, VerificationRelationship,
};
use crate::identity::error::{CredentialFault, CryptoFault, DidFault, IdentityError};
use crate::text::{find_char, first_index_from, join_text, slice_text, str_eq};
use rand::Rng;

verus! {

/// Whether `text` parses as an absolute URL.
pub uninterp spec fn url_parses(text: Seq<char>) -> bool;

/// A fresh random identifier: `Uuid::new_v4` in its hyphenated form, which
/// is 36 characters long whatever the random bits are.
#[verifier::external_body]
pub fn generate_id() -> (id: String)
    ensures
        id@.len() == 36,
{
    uuid::Uuid::new_v4().to_string()
}

/// `ThreadRng::gen`: a random number, of which nothing is known.
#[verifier::external_body]
fn random_u64() -> (n: u64) {
    rand::thread_rng().gen()
}

/// `Url::parse`, for whether it succeeds.
#[verifier::external_body]
fn parses_as_url(text: &str) -> (ok: bool)
    ensures
        ok == url_parses(text@),
{
    url::Url::parse(text).is_ok()
}

/// The DID of a method and a method-specific identifier.
pub open spec fn did_text(method: Seq<char>, id: Seq<char>) -> Seq<char> {
    "did:"@ + method + ":"@ + id
}

/// Generate a DID with the specified method and a fresh identifier.
pub fn generate_did(method: &str) -> (did: String)
    ensures
        exists|id: Seq<char>| id.len() == 36 && did@ == #[trigger] did_text(method@, id),
{
    let id = generate_id();
    let did = generate_did_with_id(method, id.as_str());
    assert(did@ == did_text(method@, id@));
    did
}

/// Generate a DID with a specific identifier.
pub fn generate_did_with_id(method: &str, id: &str) -> (did: String)
    ensures
        did@ == did_text(method@, id@),
{
    let mut did = join_text("did:", method);
    did.append(":");
    did.append(id);
    did
}

/// The three parts of a DID: the scheme, the method, and everything after
/// the second colon.
pub open spec fn did_parts(did: Seq<char>) -> (Seq<char>, Seq<char>, Seq<char>) {
    let first = first_index_from(did, ':', 0);
    let second = first_index_from(did, ':', first + 1);
    (did.subrange(0, first), did.subrange(first + 1, second), did.subrange(second + 1, did.len() as int))
}

/// What is wrong with a DID, if anything is.
pub open spec fn did_fault(did: Seq<char>) -> Option<DidFault> {
    let first = first_index_from(did, ':', 0);
    if first >= did.len() || first_index_from(did, ':', first + 1) >= did.len() {
        Some(DidFault::TooFewParts)
    } else if did.subrange(0, first) != "did"@ {
        Some(DidFault::MissingPrefix)
    } else {
        None
    }
}

/// Parse a DID into its components.
pub fn parse_did(did: &str) -> (r: Result<(String, String, String), IdentityError>)
    ensures
        r.is_ok() <==> did_fault(did@) is None,
        r matches Err(e) ==> did_fault(did@) == Some(e->InvalidDid_0) && e is InvalidDid,
        r matches Ok(parts) ==> parts.0@ == "did"@ && parts.1@ == did_parts(did@).1 && parts.2@
            == did_parts(did@).2,
{
    let n = did.unicode_len();
    let first = find_char(did, ':', 0);
    if first >= n {
        return Err(IdentityError::InvalidDid(DidFault::TooFewParts));
    }
    let second = find_char(did, ':', first + 1);
    if second >= n {
        return Err(IdentityError::InvalidDid(DidFault::TooFewParts));
    }
    let scheme = slice_text(did, 0, first);
    if !str_eq(scheme.as_str(), "did") {
        return Err(IdentityError::InvalidDid(DidFault::MissingPrefix));
    }
    let method = slice_text(did, first + 1, second);
    let method_specific_id = slice_text(did, second + 1, n);
    Ok((scheme, method, method_specific_id))
}

/// `doc` is the basic document of `did`: created and updated at `now`,
/// with one verification method `#key-1` that holds `public_key` in
/// multibase form, and that method as its one authentication method.
pub open spec fn is_basic_document(
    doc: DidDocument,
    did: Seq<char>,
    public_key: Seq<u8>,
    key_type: KeyType,
    now: i64,
) -> bool {
    &&& doc.context@.len() == 2
    &&& doc.context[0]@ == "https://www.w3.org/ns/did/v1"@
    &&& doc.context[1]@ == "https://w3id.org/security/suites/ed25519-2020/v1"@
    &&& doc.id@ == did
    &&& doc.created == Some(now)
    &&& doc.updated == Some(now)
    &&& doc.assertion_method is None
    &&& doc.key_agreement is None
    &&& doc.capability_invocation is None
    &&& doc.capability_delegation is None
    &&& doc.service is None
    &&& doc.verification_method matches Some(methods) && methods@.len() == 1 && {
        let method = methods[0];
        &&& method.id@ == did + "#key-1"@
        &&& method.method_type@ == key_type.suite_name()
        &&& method.controller@ == did
        &&& (method.public_key matches PublicKeyFormat::Multibase { public_key_multibase }
            && public_key_multibase@ == "z"@ + base64_url_text(public_key))
    }
    &&& doc.authentication matches Some(relations) && relations@.len() == 1 && (
    relations[0] matches VerificationRelationship::Reference(reference) && reference@ == did
        + "#key-1"@)
}

/// The basic DID document of `did` for a public key.
pub fn basic_did_document(did: String, public_key: &[u8], key_type: KeyType, now: i64) -> (doc:
    DidDocument)
    ensures
        is_basic_document(doc, did@, public_key@, key_type, now),
{
    let mut did_doc = DidDocument::new_at(did.clone(), now);
    let vm_id = join_text(did.as_str(), "#key-1");
    let verification_method = VerificationMethod {
        id: vm_id.clone(),
        method_type: key_type.to_text(),
        controller: did,
        public_key: PublicKeyFormat::Multibase {
            public_key_multibase: public_key_to_multibase(public_key, &key_type),
        },
    };
    did_doc.add_verification_method_at(verification_method, now);
    did_doc.add_authentication_at(VerificationRelationship::Reference(vm_id), now);
    did_doc
}

/// Create a basic DID document with a single verification method, under a
/// fresh key pair and a fresh DID of the given method.
pub fn create_basic_did_document(method: &str, key_type: KeyType) -> (r: Result<
    (DidDocument, CryptoKeyPair),
    IdentityError,
>)
    ensures
        r.is_ok() <==> key_type != KeyType::Secp256k1,
        r matches Err(e) ==> e == IdentityError::CryptoError(CryptoFault::Unsupported),
        r matches Ok((doc, pair)) ==> pair.key_type == key_type && exists|id: Seq<char>, now: i64|
            id.len() == 36 && #[trigger] is_basic_document(
                doc,
                did_text(method@, id),
                pair.public_key@,
                key_type,
                now,
            ),
{
    let keypair = match generate_keypair(key_type) {
        Ok(keypair) => keypair,
        Err(e) => {
            return Err(e);
        },
    };
    let id = generate_id();
    let did = generate_did_with_id(method, id.as_str());
    let now = now_millis();
    let did_doc = basic_did_document(did, keypair.public_key.as_slice(), key_type, now);
    assert(is_basic_document(did_doc, did_text(method@, id@), keypair.public_key@, key_type, now));
    Ok((did_doc, keypair))
}

/// What validating a timestamp at `now` comes to.
pub open spec fn timestamp_outcome(timestamp: i64, now: i64) -> Result<(), IdentityError> {
    if timestamp <= now {
        Ok(())
    } else {
        Err(IdentityError::InvalidCredential(CredentialFault::FutureTimestamp))
    }
}

/// Validate a timestamp is not in the future, as of now.
pub fn validate_timestamp(timestamp: i64) -> (r: Result<(), IdentityError>)
    ensures
        exists|now: i64| r == #[trigger] timestamp_outcome(timestamp, now),
{
    let now = now_millis();
    let r = validate_timestamp_at(timestamp, now);
    assert(r == timestamp_outcome(timestamp, now));
    r
}

/// Validate a timestamp is not after `now`.
pub fn validate_timestamp_at(timestamp: i64, now: i64) -> (r: Result<(), IdentityError>)
    ensures
        r == timestamp_outcome(timestamp, now),
{
    if timestamp > now {
        return Err(IdentityError::InvalidCredential(CredentialFault::FutureTimestamp));
    }
    Ok(())
}

/// Generate a credential ID: `urn:uuid:` and a fresh identifier.
pub fn generate_credential_id() -> (id: String)
    ensures
        id@.len() == 45,
        id@.take(9) == "urn:uuid:"@,
{
    proof {
        reveal_strlit("urn:uuid:");
    }
    let id = join_text("urn:uuid:", generate_id().as_str());
    assert(id@.take(9) =~= "urn:uuid:"@);
    id
}

/// Generate a presentation ID: `urn:uuid:` and a fresh identifier.
pub fn generate_presentation_id() -> (id: String)
    ensures
        id@.len() == 45,
        id@.take(9) == "urn:uuid:"@,
{
    proof {
        reveal_strlit("urn:uuid:");
    }
    let id = join_text("urn:uuid:", generate_id().as_str());
    assert(id@.take(9) =~= "urn:uuid:"@);
    id
}

/// The hexadecimal digit of a number below 16, in lower case.
pub open spec fn hex_digit(n: int) -> char {
    if n < 10 {
        ((n + 48) as u8) as char
    } else {
        ((n + 87) as u8) as char
    }
}

/// The lower-case hexadecimal text of a byte string: two digits a byte.
pub open spec fn hex_text(bytes: Seq<u8>) -> Seq<char> {
    Seq::new(
        2 * bytes.len(),
        |i: int|
            hex_digit(
                if i % 2 == 0 {
                    bytes[i / 2] as int / 16
                } else {
                    bytes[i / 2] as int % 16
                },
            ),
    )
}

/// The number that a hexadecimal digit of either case stands for, or -1.
pub open spec fn hex_value(digit: u8) -> int {
    if 48 <= digit <= 57 {
        digit - 48
    } else if 97 <= digit <= 102 {
        digit - 87
    } else if 65 <= digit <= 70 {
        digit - 55
    } else {
        -1
    }
}

/// The text is hexadecimal: an even number of hexadecimal digits.
pub open spec fn is_hex(text: Seq<u8>) -> bool {
    text.len() % 2 == 0 && forall|i: int| 0 <= i < text.len() ==> hex_value(#[trigger] text[i]) >= 0
}

/// The bytes that hexadecimal text stands for.
pub open spec fn hex_bytes(text: Seq<u8>) -> Seq<u8> {
    Seq::new(
        text.len() / 2,
        |i: int| (hex_value(text[2 * i]) * 16 + hex_value(text[2 * i + 1])) as u8,
    )
}

/// Convert bytes to hex string: `hex::encode`, which writes each byte as
/// two lower-case digits.
#[verifier::external_body]
pub fn bytes_to_hex(bytes: &[u8]) -> (text: String)
    ensures
        text@ == hex_text(bytes@),
{
    hex::encode(bytes)
}

/// `hex::decode`: the bytes of hexadecimal text in either case, and
/// nothing for text of odd length or with another character in it.
#[verifier::external_body]
fn hex_decode(text: &str) -> (bytes: Option<Vec<u8>>)
    ensures
        bytes.is_some() <==> is_hex(encode_utf8(text@)),
        bytes matches Some(b) ==> b@ == hex_bytes(encode_utf8(text@)),
{
    hex::decode(text).ok()
}

/// Convert hex string to bytes.
pub fn hex_to_bytes(hex: &str) -> (r: Result<Vec<u8>, IdentityError>)
    ensures
        r.is_ok() <==> is_hex(encode_utf8(hex@)),
        r matches Err(e) ==> e == IdentityError::EncodingError,
        r matches Ok(bytes) ==> bytes@ == hex_bytes(encode_utf8(hex@)),
{
    match hex_decode(hex) {
        Some(bytes) => Ok(bytes),
        None => Err(IdentityError::EncodingError),
    }
}

/// Validate a URL.
pub fn validate_url(url: &str) -> (r: Result<(), IdentityError>)
    ensures
        r.is_ok() <==> url_parses(url@),
        r matches Err(e) ==> e == IdentityError::InvalidDid(DidFault::InvalidUrl),
{
    if parses_as_url(url) {
        Ok(())
    } else {
        Err(IdentityError::InvalidDid(DidFault::InvalidUrl))
    }
}

/// The lower-case hexadecimal digits of a number, without leading zeros.
pub open spec fn lower_hex_text(n: nat) -> Seq<char>
    decreases n,
{
    if n < 16 {
        seq![hex_digit(n as int)]
    } else {
        lower_hex_text(n / 16).push(hex_digit((n % 16) as int))
    }
}

/// One hexadecimal digit as text.
fn hex_digit_text(digit: u64) -> (text: &'static str)
    requires
        digit < 16,
    ensures
        text@ == seq![hex_digit(digit as int)],
{
    proof {
        reveal_strlit("0");
        reveal_strlit("1");
        reveal_strlit("2");
        reveal_strlit("3");
        reveal_strlit("4");
        reveal_strlit("5");
        reveal_strlit("6");
        reveal_strlit("7");
        reveal_strlit("8");
        reveal_strlit("9");
        reveal_strlit("a");
        reveal_strlit("b");
        reveal_strlit("c");
        reveal_strlit("d");
        reveal_strlit("e");
        reveal_strlit("f");
    }
    let text = match digit {
        0 => "0",
        1 => "1",
        2 => "2",
        3 => "3",
        4 => "4",
        5 => "5",
        6 => "6",
        7 => "7",
        8 => "8",
        9 => "9",
        10 => "a",
        11 => "b",
        12 => "c",
        13 => "d",
        14 => "e",
        _ => "f",
    };
    assert(text@ =~= seq![hex_digit(digit as int)]);
    text
}

/// A number in lower-case hexadecimal, without leading zeros.
pub fn lower_hex(n: u64) -> (text: String)
    ensures
        text@ == lower_hex_text(n as nat),
    decreases n,
{
    if n < 16 {
        hex_digit_text(n).to_owned()
    } else {
        let mut text = lower_hex(n / 16);
        text.append(hex_digit_text(n % 16));
        text
    }
}

/// Generate a random nonce: a random 64-bit number in hexadecimal.
pub fn generate_nonce() -> (nonce: String)
    ensures
        exists|n: u64| nonce@ == #[trigger] lower_hex_text(n as nat),
{
    let n = random_u64();
    let nonce = lower_hex(n);
    assert(nonce@ == lower_hex_text(n as nat));
    nonce
}

} // verus!
