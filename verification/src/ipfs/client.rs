//! Kinds of stored content and the metadata that goes with an upload.

use vstd::prelude::*;
use crate::bytes::append_bytes;
use crate::text::str_eq;

verus! {

/// Metadata for stored content. `created_at` is in milliseconds since
/// the Unix epoch.
#[derive(Debug, Clone)]
pub struct ContentMetadata {
    pub content_type: ContentType,
    pub hash: String,
    pub size: u64,
    pub created_at: i64,
    pub tags: Vec<String>,
    pub encryption: Option<EncryptionInfo>,
}

/// Types of content that can be stored.
#[derive(Debug, Clone)]
pub enum ContentType {
    DidDocument,
    VerifiableCredential,
    VerifiablePresentation,
    AttestationProof,
    RevocationList,
    Schema,
    Metadata,
    Custom(String),
}

/// Encryption information for stored content.
#[derive(Debug, Clone)]
pub struct EncryptionInfo {
    pub algorithm: String,
    pub key_id: String,
    pub nonce: Option<String>,
}

/// Storage result containing hash and metadata.
#[derive(Debug, Clone)]
pub struct StorageResult {
    pub hash: String,
    pub metadata: ContentMetadata,
}

impl ContentType {
    /// The MIME type of the content.
    pub open spec fn mime(&self) -> Seq<char> {
        match self {
            ContentType::DidDocument => "application/did+ld+json"@,
            ContentType::VerifiableCredential => "application/vc+ld+json"@,
            ContentType::VerifiablePresentation => "application/vp+ld+json"@,
            ContentType::AttestationProof => "application/json"@,
            ContentType::RevocationList => "application/json"@,
            ContentType::Schema => "application/schema+json"@,
            ContentType::Metadata => "application/json"@,
            ContentType::Custom(_) => "application/octet-stream"@,
        }
    }

    /// The file extension of the content.
    pub open spec fn extension(&self) -> Seq<char> {
        match self {
            ContentType::DidDocument => ".did.json"@,
            ContentType::VerifiableCredential => ".vc.json"@,
            ContentType::VerifiablePresentation => ".vp.json"@,
            ContentType::AttestationProof => ".proof.json"@,
            ContentType::RevocationList => ".revocation.json"@,
            ContentType::Schema => ".schema.json"@,
            ContentType::Metadata => ".meta.json"@,
            ContentType::Custom(_) => ".bin"@,
        }
    }

    /// The name of the content type.
    pub open spec fn name(&self) -> Seq<char> {
        match self {
            ContentType::DidDocument => "DID Document"@,
            ContentType::VerifiableCredential => "Verifiable Credential"@,
            ContentType::VerifiablePresentation => "Verifiable Presentation"@,
            ContentType::AttestationProof => "Attestation Proof"@,
            ContentType::RevocationList => "Revocation List"@,
            ContentType::Schema => "Schema"@,
            ContentType::Metadata => "Metadata"@,
            ContentType::Custom(name) => name@,
        }
    }

    /// Two content types are the same one: the same kind, and for custom
    /// ones the same name.
    pub open spec fn same(&self, other: Self) -> bool {
        match (*self, other) {
            (ContentType::DidDocument, ContentType::DidDocument) => true,
            (ContentType::VerifiableCredential, ContentType::VerifiableCredential) => true,
            (ContentType::VerifiablePresentation, ContentType::VerifiablePresentation) => true,
            (ContentType::AttestationProof, ContentType::AttestationProof) => true,
            (ContentType::RevocationList, ContentType::RevocationList) => true,
            (ContentType::Schema, ContentType::Schema) => true,
            (ContentType::Metadata, ContentType::Metadata) => true,
            (ContentType::Custom(a), ContentType::Custom(b)) => a@ == b@,
            _ => false,
        }
    }

    /// Get the MIME type for the content.
    pub fn mime_type(&self) -> (mime: &str)
        ensures
            mime@ == self.mime(),
    {
        match self {
            ContentType::DidDocument => "application/did+ld+json",
            ContentType::VerifiableCredential => "application/vc+ld+json",
            ContentType::VerifiablePresentation => "application/vp+ld+json",
            ContentType::AttestationProof => "application/json",
            ContentType::RevocationList => "application/json",
            ContentType::Schema => "application/schema+json",
            ContentType::Metadata => "application/json",
            ContentType::Custom(_) => "application/octet-stream",
        }
    }

    /// Get file extension for the content type.
    pub fn file_extension(&self) -> (extension: &str)
        ensures
            extension@ == self.extension(),
    {
        match self {
            ContentType::DidDocument => ".did.json",
            ContentType::VerifiableCredential => ".vc.json",
            ContentType::VerifiablePresentation => ".vp.json",
            ContentType::AttestationProof => ".proof.json",
            ContentType::RevocationList => ".revocation.json",
            ContentType::Schema => ".schema.json",
            ContentType::Metadata => ".meta.json",
            ContentType::Custom(_) => ".bin",
        }
    }

    /// The name of the content type, as text.
    pub fn to_text(&self) -> (text: String)
        ensures
            text@ == self.name(),
    {
        match self {
            ContentType::DidDocument => "DID Document".to_owned(),
            ContentType::VerifiableCredential => "Verifiable Credential".to_owned(),
            ContentType::VerifiablePresentation => "Verifiable Presentation".to_owned(),
            ContentType::AttestationProof => "Attestation Proof".to_owned(),
            ContentType::RevocationList => "Revocation List".to_owned(),
            ContentType::Schema => "Schema".to_owned(),
            ContentType::Metadata => "Metadata".to_owned(),
            ContentType::Custom(name) => name.clone(),
        }
    }

    /// Whether two content types are the same one.
    pub fn is_same(&self, other: &Self) -> (r: bool)
        ensures
            r == self.same(*other),
    {
        match (self, other) {
            (ContentType::DidDocument, ContentType::DidDocument) => true,
            (ContentType::VerifiableCredential, ContentType::VerifiableCredential) => true,
            (ContentType::VerifiablePresentation, ContentType::VerifiablePresentation) => true,
            (ContentType::AttestationProof, ContentType::AttestationProof) => true,
            (ContentType::RevocationList, ContentType::RevocationList) => true,
            (ContentType::Schema, ContentType::Schema) => true,
            (ContentType::Metadata, ContentType::Metadata) => true,
            (ContentType::Custom(a), ContentType::Custom(b)) => str_eq(a.as_str(), b.as_str()),
            _ => false,
        }
    }

    /// The tags that an upload of this kind carries from the start.
    pub open spec fn default_tags(&self) -> Seq<Seq<char>> {
        match self {
            ContentType::DidDocument => seq!["did"@, "document"@],
            ContentType::VerifiableCredential => seq!["credential"@, "verifiable"@],
            ContentType::VerifiablePresentation => seq!["presentation"@, "verifiable"@],
            ContentType::AttestationProof => seq!["attestation"@, "proof"@],
            _ => Seq::empty(),
        }
    }
}

/// The tags of a list of strings.
pub open spec fn tag_texts(tags: Seq<String>) -> Seq<Seq<char>> {
    Seq::new(tags.len(), |i: int| tags[i]@)
}

impl ContentMetadata {
    /// The metadata of content that is about to be uploaded at `now`:
    /// its kind and size, the kind's tags, no hash yet and no encryption.
    pub fn for_upload(content_type: ContentType, size: usize, now: i64) -> (metadata: Self)
        ensures
            metadata.content_type == content_type,
            metadata.hash@.len() == 0,
            metadata.size == size,
            metadata.created_at == now,
            tag_texts(metadata.tags@) == content_type.default_tags(),
            metadata.encryption is None,
    {
        let mut tags: Vec<String> = Vec::new();
        match &content_type {
            ContentType::DidDocument => {
                tags.push("did".to_owned());
                tags.push("document".to_owned());
            },
            ContentType::VerifiableCredential => {
                tags.push("credential".to_owned());
                tags.push("verifiable".to_owned());
            },
            ContentType::VerifiablePresentation => {
                tags.push("presentation".to_owned());
                tags.push("verifiable".to_owned());
            },
            ContentType::AttestationProof => {
                tags.push("attestation".to_owned());
                tags.push("proof".to_owned());
            },
            _ => {},
        }
        assert(tag_texts(tags@) =~= content_type.default_tags());
        ContentMetadata {
            content_type,
            hash: String::new(),
            size: size as u64,
            created_at: now,
            tags,
            encryption: None,
        }
    }
}

impl StorageResult {
    /// The result of an upload that the store answered with `hash`: the
    /// metadata carries the hash from now on.
    pub fn stored(hash: String, metadata: ContentMetadata) -> (result: Self)
        ensures
            result.hash == hash,
            result.metadata.hash@ == hash@,
            result.metadata == (ContentMetadata { hash: result.metadata.hash, ..metadata }),
    {
        let mut metadata = metadata;
        metadata.hash = hash.clone();
        StorageResult { hash, metadata }
    }

    /// The result with more tags after its own.
    pub fn with_tags(self, tags: Vec<String>) -> (result: Self)
        ensures
            result.hash == self.hash,
            result.metadata.tags@ == self.metadata.tags@ + tags@,
            result.metadata == (ContentMetadata { tags: result.metadata.tags, ..self.metadata }),
    {
        let mut result = self;
        let mut tags = tags;
        result.metadata.tags.append(&mut tags);
        result
    }
}

/// The bytes of the first `n` chunks, one after the other.
pub open spec fn joined_chunks(chunks: Seq<Vec<u8>>, n: nat) -> Seq<u8>
    decreases n,
{
    if n == 0 {
        Seq::empty()
    } else {
        joined_chunks(chunks, (n - 1) as nat) + chunks[n - 1]@
    }
}

/// The content that came in chunks, in one piece.
pub fn concat_chunks(chunks: &Vec<Vec<u8>>) -> (content: Vec<u8>)
    ensures
        content@ == joined_chunks(chunks@, chunks@.len()),
{
    let mut content: Vec<u8> = Vec::new();
    let mut i: usize = 0;
    while i < chunks.len()
        invariant
            i <= chunks.len(),
            content@ == joined_chunks(chunks@, i as nat),
        decreases chunks.len() - i,
    {
        append_bytes(&mut content, chunks[i].as_slice());
        i += 1;
    }
    content
}

} // verus!
