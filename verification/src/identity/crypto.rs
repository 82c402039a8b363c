//! Keys, digests and signatures for identity records.

use vstd::prelude::*;
use vstd::slice::slice_to_vec;
use crate::curve::{g1_generator_mul, g1_point, g2_generator_mul, g2_point};
use crate::dictionary::Dictionary;
use crate::field::{field_random, is_canonical_scalar, le_value};
use crate::identity::error::{CryptoFault, IdentityError};
use crate::json::JsonValue;
use crate::text::join_text;
use base64::Engine;
use sha2::Digest;

verus! {

/// Key types supported by the system.
#[derive(Debug, Clone, Copy, PartialEq, Eq, Structural)]
pub enum KeyType {
    Ed25519,
    Secp256k1,
    Bls12381G1,
    Bls12381G2,
}

/// Cryptographic key pair.
#[derive(Debug, Clone)]
pub struct CryptoKeyPair {
    pub key_type: KeyType,
    pub private_key: Vec<u8>,
    pub public_key: Vec<u8>,
}

/// What checking a Schnorr signature came to.
#[derive(Debug, Clone, Copy, PartialEq, Eq, Structural)]
pub enum SignatureCheck {
    /// The public key does not decode.
    BadKey,
    /// The signature does not decode.
    BadSignature,
    /// Both decode; the signature holds or not.
    Checked(bool),
}

/// The SHA-256 digest of `data`.
pub uninterp spec fn sha256(data: Seq<u8>) -> Seq<u8>;

/// The order of the Ristretto group, `2^252 + 27742317777372353535851937790883648493`.
pub open spec fn ristretto_order() -> int {
    0x1000000000000000000000000000000014def9dea2f79cd65812631a5cf5d3edint
}

/// Whether `bytes` decodes as a Schnorr secret key: 32 bytes of a scalar
/// in canonical little-endian encoding, then 32 bytes of nonce seed.
pub open spec fn secret_key_decodes(bytes: Seq<u8>) -> bool {
    bytes.len() == 64 && le_value(bytes.take(32)) < ristretto_order()
}

/// Whether `bytes` decodes as a Schnorr public key.
pub uninterp spec fn public_key_decodes(bytes: Seq<u8>) -> bool;

/// Whether `bytes` decodes as a Schnorr signature.
pub uninterp spec fn signature_decodes(bytes: Seq<u8>) -> bool;

/// Whether `signature` holds for `data` under `public_key` in the empty
/// signing context, where both decode.
pub uninterp spec fn signature_holds(data: Seq<u8>, signature: Seq<u8>, public_key: Seq<u8>) -> bool;

/// What checking `signature` on `data` under `public_key` comes to: the
/// key is looked at first, then the signature.
pub open spec fn signature_check(
    data: Seq<u8>,
    signature: Seq<u8>,
    public_key: Seq<u8>,
) -> SignatureCheck {
    if !public_key_decodes(public_key) {
        SignatureCheck::BadKey
    } else if !signature_decodes(signature) {
        SignatureCheck::BadSignature
    } else {
        SignatureCheck::Checked(signature_holds(data, signature, public_key))
    }
}

/// The symbol of the URL-safe base64 alphabet for a number below 64:
/// `A` to `Z`, `a` to `z`, `0` to `9`, `-` and `_`.
pub open spec fn base64_symbol(n: int) -> char {
    if n < 26 {
        ((n + 65) as u8) as char
    } else if n < 52 {
        ((n + 71) as u8) as char
    } else if n < 62 {
        ((n - 4) as u8) as char
    } else if n == 62 {
        '-'
    } else {
        '_'
    }
}

/// The URL-safe base64 text of `bytes`, without padding: four symbols for
/// each three bytes, and two or three symbols for one or two bytes left
/// over.
pub open spec fn base64_url_text(bytes: Seq<u8>) -> Seq<char>
    decreases bytes.len(),
{
    if bytes.len() == 0 {
        Seq::empty()
    } else if bytes.len() == 1 {
        seq![base64_symbol(bytes[0] as int / 4), base64_symbol(bytes[0] as int % 4 * 16)]
    } else if bytes.len() == 2 {
        seq![
            base64_symbol(bytes[0] as int / 4),
            base64_symbol(bytes[0] as int % 4 * 16 + bytes[1] as int / 16),
            base64_symbol(bytes[1] as int % 16 * 4),
        ]
    } else {
        seq![
            base64_symbol(bytes[0] as int / 4),
            base64_symbol(bytes[0] as int % 4 * 16 + bytes[1] as int / 16),
            base64_symbol(bytes[1] as int % 16 * 4 + bytes[2] as int / 64),
            base64_symbol(bytes[2] as int % 64),
        ] + base64_url_text(bytes.skip(3))
    }
}

impl KeyType {
    /// The name of the verification method suite for this key type.
    pub open spec fn suite_name(&self) -> Seq<char> {
        match self {
            KeyType::Ed25519 => "Ed25519VerificationKey2020"@,
            KeyType::Secp256k1 => "EcdsaSecp256k1VerificationKey2019"@,
            KeyType::Bls12381G1 => "Bls12381G1Key2020"@,
            KeyType::Bls12381G2 => "Bls12381G2Key2020"@,
        }
    }

    /// The name of the verification method suite for this key type, as
    /// text.
    pub fn to_text(&self) -> (name: String)
        ensures
            name@ == self.suite_name(),
    {
        match self {
            KeyType::Ed25519 => "Ed25519VerificationKey2020".to_owned(),
            KeyType::Secp256k1 => "EcdsaSecp256k1VerificationKey2019".to_owned(),
            KeyType::Bls12381G1 => "Bls12381G1Key2020".to_owned(),
            KeyType::Bls12381G2 => "Bls12381G2Key2020".to_owned(),
        }
    }
}

/// Generate a cryptographic hash of data: `Sha256`, whose digest has 32
/// bytes and depends on the data alone.
#[verifier::external_body]
pub fn hash_data(data: &[u8]) -> (digest: Vec<u8>)
    ensures
        digest@ == sha256(data@),
        digest@.len() == 32,
{
    let mut hasher = sha2::Sha256::new();
    hasher.update(data);
    hasher.finalize().to_vec()
}

/// `Keypair::generate_with` over the operating system's generator: a
/// secret key in its 64-byte encoding and its public key of 32 bytes.
#[verifier::external_body]
fn schnorr_generate() -> (pair: (Vec<u8>, Vec<u8>))
    ensures
        secret_key_decodes(pair.0@),
        pair.1@.len() == 32,
{
    let keypair = schnorrkel::Keypair::generate_with(rand::rngs::OsRng);
    (keypair.secret.to_bytes().to_vec(), keypair.public.to_bytes().to_vec())
}

/// `SecretKey::from_bytes`, then `Keypair::sign_simple` in the empty
/// context. The key decodes if it has 64 bytes of which the first 32 are
/// a canonical scalar. The signature is randomised; it has 64 bytes.
#[verifier::external_body]
fn schnorr_sign(data: &[u8], private_key: &[u8]) -> (signature: Option<Vec<u8>>)
    ensures
        signature.is_some() <==> secret_key_decodes(private_key@),
        signature matches Some(s) ==> s@.len() == 64,
{
    match schnorrkel::SecretKey::from_bytes(private_key) {
        Ok(secret) => Some(
            schnorrkel::Keypair::from(secret).sign_simple(b"", data).to_bytes().to_vec(),
        ),
        Err(_) => None,
    }
}

/// `PublicKey::from_bytes`, `Signature::from_bytes`, then
/// `PublicKey::verify_simple` in the empty context.
#[verifier::external_body]
fn schnorr_verify(data: &[u8], signature: &[u8], public_key: &[u8]) -> (r: SignatureCheck)
    ensures
        r is BadKey <==> !public_key_decodes(public_key@),
        r is BadSignature <==> (public_key_decodes(public_key@) && !signature_decodes(signature@)),
        r matches SignatureCheck::Checked(holds) ==> holds == signature_holds(
            data@,
            signature@,
            public_key@,
        ),
{
    let Ok(public) = schnorrkel::PublicKey::from_bytes(public_key) else {
        return SignatureCheck::BadKey;
    };
    match schnorrkel::Signature::from_bytes(signature) {
        Ok(sig) => SignatureCheck::Checked(public.verify_simple(b"", data, &sig).is_ok()),
        Err(_) => SignatureCheck::BadSignature,
    }
}

/// `URL_SAFE_NO_PAD.encode`: base64 in the URL-safe alphabet, without the
/// padding that fills the last group.
#[verifier::external_body]
fn base64_url(bytes: &[u8]) -> (text: String)
    ensures
        text@ == base64_url_text(bytes@),
{
    base64::engine::general_purpose::URL_SAFE_NO_PAD.encode(bytes)
}

/// Generate an Ed25519 keypair using Schnorrkel.
pub fn generate_ed25519_keypair() -> (r: Result<CryptoKeyPair, IdentityError>)
    ensures
        r matches Ok(pair) && pair.key_type == KeyType::Ed25519 && secret_key_decodes(
            pair.private_key@,
        ) && pair.public_key@.len() == 32,
{
    let (private_key, public_key) = schnorr_generate();
    Ok(CryptoKeyPair { key_type: KeyType::Ed25519, private_key, public_key })
}

/// Generate a BLS12-381 G1 keypair: a random scalar and the generator of
/// G1 times it.
pub fn generate_bls12381_g1_keypair() -> (r: Result<CryptoKeyPair, IdentityError>)
    ensures
        r matches Ok(pair) && pair.key_type == KeyType::Bls12381G1 && is_canonical_scalar(
            pair.private_key@,
        ) && pair.public_key@ == g1_point(le_value(pair.private_key@) as int),
{
    let private_key = field_random();
    let public_key = g1_generator_mul(&private_key);
    Ok(
        CryptoKeyPair {
            key_type: KeyType::Bls12381G1,
            private_key: slice_to_vec(private_key.bytes.as_slice()),
            public_key,
        },
    )
}

/// Generate a BLS12-381 G2 keypair: a random scalar and the generator of
/// G2 times it.
pub fn generate_bls12381_g2_keypair() -> (r: Result<CryptoKeyPair, IdentityError>)
    ensures
        r matches Ok(pair) && pair.key_type == KeyType::Bls12381G2 && is_canonical_scalar(
            pair.private_key@,
        ) && pair.public_key@ == g2_point(le_value(pair.private_key@) as int),
{
    let private_key = field_random();
    let public_key = g2_generator_mul(&private_key);
    Ok(
        CryptoKeyPair {
            key_type: KeyType::Bls12381G2,
            private_key: slice_to_vec(private_key.bytes.as_slice()),
            public_key,
        },
    )
}

/// Generate a keypair of the specified type.
pub fn generate_keypair(key_type: KeyType) -> (r: Result<CryptoKeyPair, IdentityError>)
    ensures
        r.is_ok() <==> key_type != KeyType::Secp256k1,
        r matches Err(e) ==> e == IdentityError::CryptoError(CryptoFault::Unsupported),
        r matches Ok(pair) ==> pair.key_type == key_type && match key_type {
            KeyType::Ed25519 => secret_key_decodes(pair.private_key@) && pair.public_key@.len()
                == 32,
            KeyType::Bls12381G1 => is_canonical_scalar(pair.private_key@) && pair.public_key@
                == g1_point(le_value(pair.private_key@) as int),
            KeyType::Bls12381G2 => is_canonical_scalar(pair.private_key@) && pair.public_key@
                == g2_point(le_value(pair.private_key@) as int),
            KeyType::Secp256k1 => false,
        },
{
    match key_type {
        KeyType::Ed25519 => generate_ed25519_keypair(),
        KeyType::Bls12381G1 => generate_bls12381_g1_keypair(),
        KeyType::Bls12381G2 => generate_bls12381_g2_keypair(),
        KeyType::Secp256k1 => Err(IdentityError::CryptoError(CryptoFault::Unsupported)),
    }
}

/// Sign data with Ed25519 key.
pub fn sign_ed25519(data: &[u8], private_key: &[u8]) -> (r: Result<Vec<u8>, IdentityError>)
    ensures
        r.is_ok() <==> secret_key_decodes(private_key@),
        r matches Err(e) ==> e == IdentityError::CryptoError(CryptoFault::InvalidPrivateKey),
        r matches Ok(signature) ==> signature@.len() == 64,
{
    match schnorr_sign(data, private_key) {
        Some(signature) => Ok(signature),
        None => Err(IdentityError::CryptoError(CryptoFault::InvalidPrivateKey)),
    }
}

/// What `verify_ed25519` returns for each outcome of the check.
pub fn verification_outcome(check: SignatureCheck) -> (r: Result<bool, IdentityError>)
    ensures
        r == (match check {
            SignatureCheck::BadKey => Err::<bool, IdentityError>(
                IdentityError::CryptoError(CryptoFault::InvalidPublicKey),
            ),
            SignatureCheck::BadSignature => Err(
                IdentityError::CryptoError(CryptoFault::InvalidSignature),
            ),
            SignatureCheck::Checked(holds) => Ok(holds),
        }),
{
    match check {
        SignatureCheck::BadKey => Err(IdentityError::CryptoError(CryptoFault::InvalidPublicKey)),
        SignatureCheck::BadSignature => Err(
            IdentityError::CryptoError(CryptoFault::InvalidSignature),
        ),
        SignatureCheck::Checked(holds) => Ok(holds),
    }
}

/// Verify Ed25519 signature.
pub fn verify_ed25519(data: &[u8], signature: &[u8], public_key: &[u8]) -> (r: Result<
    bool,
    IdentityError,
>)
    ensures
        r == (match signature_check(data@, signature@, public_key@) {
            SignatureCheck::BadKey => Err::<bool, IdentityError>(
                IdentityError::CryptoError(CryptoFault::InvalidPublicKey),
            ),
            SignatureCheck::BadSignature => Err(
                IdentityError::CryptoError(CryptoFault::InvalidSignature),
            ),
            SignatureCheck::Checked(holds) => Ok(holds),
        }),
{
    verification_outcome(schnorr_verify(data, signature, public_key))
}

/// Convert public key to multibase format: `z`, then the key in URL-safe
/// base64, whatever the key type.
pub fn public_key_to_multibase(public_key: &[u8], key_type: &KeyType) -> (text: String)
    ensures
        text@ == "z"@ + base64_url_text(public_key@),
{
    let encoded = base64_url(public_key);
    join_text("z", encoded.as_str())
}

/// The entries of the JSON Web Key for a public key.
pub open spec fn is_jwk(jwk: Dictionary<JsonValue>, public_key: Seq<u8>, key_type: KeyType) -> bool {
    let ed = key_type == KeyType::Ed25519;
    &&& jwk.keys() == (if ed {
        seq!["kty"@, "crv"@, "x"@]
    } else {
        seq!["kty"@, "x"@]
    })
    &&& jwk.values().len() == jwk.keys().len()
    &&& jwk.values()[0] matches JsonValue::Text(kty) && kty@ == (if ed {
        "OKP"@
    } else {
        "EC"@
    })
    &&& ed ==> (jwk.values()[1] matches JsonValue::Text(crv) && crv@ == "Ed25519"@)
    &&& jwk.values().last() matches JsonValue::Text(x) && x@ == base64_url_text(public_key)
}

/// Create a JWK (JSON Web Key) representation.
pub fn public_key_to_jwk(public_key: &[u8], key_type: &KeyType) -> (jwk: Dictionary<JsonValue>)
    ensures
        is_jwk(jwk, public_key@, *key_type),
{
    let mut jwk: Dictionary<JsonValue> = Dictionary::new();
    proof {
        reveal_strlit("kty");
        reveal_strlit("crv");
        reveal_strlit("x");
        assert("kty"@[0] == 'k' && "crv"@[0] == 'c');
        assert("kty"@.len() == 3 && "crv"@.len() == 3 && "x"@.len() == 1);
    }
    match key_type {
        KeyType::Ed25519 => {
            jwk.insert("kty".to_owned(), JsonValue::Text("OKP".to_owned()));
            assert(jwk.keys() =~= seq!["kty"@]);
            assert(!jwk.keys().contains("crv"@));
            jwk.insert("crv".to_owned(), JsonValue::Text("Ed25519".to_owned()));
            assert(jwk.keys() =~= seq!["kty"@, "crv"@]);
            assert(!jwk.keys().contains("x"@));
            jwk.insert("x".to_owned(), JsonValue::Text(base64_url(public_key)));
            assert(jwk.keys() =~= seq!["kty"@, "crv"@, "x"@]);
        },
        _ => {
            jwk.insert("kty".to_owned(), JsonValue::Text("EC".to_owned()));
            assert(jwk.keys() =~= seq!["kty"@]);
            assert(!jwk.keys().contains("x"@));
            jwk.insert("x".to_owned(), JsonValue::Text(base64_url(public_key)));
            assert(jwk.keys() =~= seq!["kty"@, "x"@]);
        },
    }
    jwk
}

} // verus!
