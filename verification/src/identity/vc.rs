//! Verifiable Credentials, after the W3C VC Data Model.

use vstd::prelude::*;
use crate::clock::now_millis;
use crate::dictionary::Dictionary;
use crate::identity::did::{list_or_empty, push_optional};
use crate::identity::error::{CredentialFault, IdentityError};
use crate::identity::utils::generate_id;
use crate::json::JsonValue;
use crate::text::{contains_text, has_prefix, join_text, starts_with};

verus! {

/// Verifiable Credential as per W3C VC Data Model. Times are in
/// milliseconds since the Unix epoch.
#[derive(Debug, Clone)]
pub struct VerifiableCredential {
    pub context: Vec<String>,
    pub id: String,
    pub credential_type: Vec<String>,
    pub issuer: Issuer,
    pub issuance_date: i64,
    pub expiration_date: Option<i64>,
    pub credential_subject: CredentialSubject,
    pub credential_status: Option<CredentialStatus>,
    pub credential_schema: Option<Vec<CredentialSchema>>,
    pub proof: Option<Vec<Proof>>,
}

/// Issuer can be a string (DID) or an object with additional properties.
#[derive(Debug, Clone)]
pub enum Issuer {
    Did(String),
    Object { id: String, properties: Dictionary<JsonValue> },
}

/// Credential Subject containing the claims.
#[derive(Debug, Clone)]
pub struct CredentialSubject {
    pub id: Option<String>,
    pub claims: Dictionary<JsonValue>,
}

/// Credential Status for revocation checking.
#[derive(Debug, Clone)]
pub struct CredentialStatus {
    pub id: String,
    pub status_type: String,
    pub properties: Dictionary<JsonValue>,
}

/// Credential Schema for validation.
#[derive(Debug, Clone)]
pub struct CredentialSchema {
    pub id: String,
    pub schema_type: String,
}

/// Cryptographic proof for the credential.
#[derive(Debug, Clone)]
pub struct Proof {
    pub proof_type: String,
    pub created: i64,
    pub verification_method: String,
    pub proof_purpose: String,
    pub proof_value: String,
    pub additional_properties: Dictionary<JsonValue>,
}

/// Verifiable Presentation containing one or more credentials.
#[derive(Debug, Clone)]
pub struct VerifiablePresentation {
    pub context: Vec<String>,
    pub id: Option<String>,
    pub presentation_type: Vec<String>,
    pub verifiable_credential: Vec<VerifiableCredential>,
    pub holder: Option<String>,
    pub proof: Option<Vec<Proof>>,
}

/// Credential types commonly used.
#[derive(Debug, Clone)]
pub enum CredentialType {
    VerifiableCredential,
    UniversityDegreeCredential,
    DriverLicenseCredential,
    KycCredential,
    AgeVerificationCredential,
    Custom(String),
}

/// Whether `needle` stands in a list of texts.
pub open spec fn lists(list: Seq<String>, needle: Seq<char>) -> bool {
    exists|i: int| 0 <= i < list.len() && (#[trigger] list[i])@ == needle
}

impl CredentialType {
    /// The type's name as it stands in a credential.
    pub open spec fn name(&self) -> Seq<char> {
        match self {
            CredentialType::VerifiableCredential => "VerifiableCredential"@,
            CredentialType::UniversityDegreeCredential => "UniversityDegreeCredential"@,
            CredentialType::DriverLicenseCredential => "DriverLicenseCredential"@,
            CredentialType::KycCredential => "KycCredential"@,
            CredentialType::AgeVerificationCredential => "AgeVerificationCredential"@,
            CredentialType::Custom(t) => t@,
        }
    }

    /// The type's name as text.
    pub fn to_text(&self) -> (text: String)
        ensures
            text@ == self.name(),
    {
        match self {
            CredentialType::VerifiableCredential => "VerifiableCredential".to_owned(),
            CredentialType::UniversityDegreeCredential => "UniversityDegreeCredential".to_owned(),
            CredentialType::DriverLicenseCredential => "DriverLicenseCredential".to_owned(),
            CredentialType::KycCredential => "KycCredential".to_owned(),
            CredentialType::AgeVerificationCredential => "AgeVerificationCredential".to_owned(),
            CredentialType::Custom(t) => t.clone(),
        }
    }
}

impl VerifiableCredential {
    /// A credential as it is issued: the default context and type, the
    /// issuer as a plain DID, no expiry, status, schema or proof.
    pub open spec fn is_issued(
        &self,
        id: Seq<char>,
        issuer_did: Seq<char>,
        subject_id: Option<String>,
        claims: Dictionary<JsonValue>,
        now: i64,
    ) -> bool {
        &&& self.context@.len() == 1
        &&& self.context[0]@ == "https://www.w3.org/2018/credentials/v1"@
        &&& self.id@ == id
        &&& self.credential_type@.len() == 1
        &&& self.credential_type[0]@ == "VerifiableCredential"@
        &&& self.issuer matches Issuer::Did(did) && did@ == issuer_did
        &&& self.issuance_date == now
        &&& self.expiration_date is None
        &&& self.credential_subject.id == subject_id
        &&& self.credential_subject.claims == claims
        &&& self.credential_status is None
        &&& self.credential_schema is None
        &&& self.proof is None
    }

    /// Create a new Verifiable Credential under a fresh `urn:uuid:`
    /// identifier, issued now.
    pub fn new(issuer_did: String, subject_id: Option<String>, claims: Dictionary<JsonValue>) -> (vc:
        Self)
        ensures
            exists|id: Seq<char>, now: i64|
                has_prefix(id, "urn:uuid:"@) && vc.is_issued(id, issuer_did@, subject_id, claims, now),
    {
        let id = join_text("urn:uuid:", generate_id().as_str());
        let now = now_millis();
        assert(id@.take("urn:uuid:"@.len() as int) =~= "urn:uuid:"@);
        assert(has_prefix(id@, "urn:uuid:"@));
        let vc = Self::issued_at(id, issuer_did, subject_id, claims, now);
        assert(vc.is_issued(id@, issuer_did@, subject_id, claims, now));
        vc
    }

    /// Create a new Verifiable Credential under the given identifier,
    /// issued at `now`.
    pub fn issued_at(
        id: String,
        issuer_did: String,
        subject_id: Option<String>,
        claims: Dictionary<JsonValue>,
        now: i64,
    ) -> (vc: Self)
        ensures
            vc.is_issued(id@, issuer_did@, subject_id, claims, now),
    {
        let mut context: Vec<String> = Vec::new();
        context.push("https://www.w3.org/2018/credentials/v1".to_owned());
        let mut credential_type: Vec<String> = Vec::new();
        credential_type.push("VerifiableCredential".to_owned());
        Self {
            context,
            id,
            credential_type,
            issuer: Issuer::Did(issuer_did),
            issuance_date: now,
            expiration_date: None,
            credential_subject: CredentialSubject { id: subject_id, claims },
            credential_status: None,
            credential_schema: None,
            proof: None,
        }
    }

    /// Add a credential type, unless the credential names it already.
    pub fn add_type(&mut self, credential_type: CredentialType)
        ensures
            lists(old(self).credential_type@, credential_type.name()) ==> *final(self) == *old(self),
            !lists(old(self).credential_type@, credential_type.name()) ==> {
                let types = final(self).credential_type@;
                &&& types.len() == old(self).credential_type@.len() + 1
                &&& types.drop_last() == old(self).credential_type@
                &&& types.last()@ == credential_type.name()
            },
            final(self).context == old(self).context,
            final(self).id == old(self).id,
            final(self).issuer == old(self).issuer,
            final(self).issuance_date == old(self).issuance_date,
            final(self).expiration_date == old(self).expiration_date,
            final(self).credential_subject == old(self).credential_subject,
            final(self).credential_status == old(self).credential_status,
            final(self).credential_schema == old(self).credential_schema,
            final(self).proof == old(self).proof,
    {
        let type_str = credential_type.to_text();
        if !contains_text(&self.credential_type, type_str.as_str()) {
            self.credential_type.push(type_str);
            assert(self.credential_type@.drop_last() =~= old(self).credential_type@);
        }
    }

    /// Set expiration date.
    pub fn set_expiration(&mut self, expiration: i64)
        ensures
            *final(self) == (VerifiableCredential {
                expiration_date: Some(expiration),
                ..*old(self)
            }),
    {
        self.expiration_date = Some(expiration);
    }

    /// Add credential status for revocation.
    pub fn set_status(&mut self, status: CredentialStatus)
        ensures
            *final(self) == (VerifiableCredential {
                credential_status: Some(status),
                ..*old(self)
            }),
    {
        self.credential_status = Some(status);
    }

    /// Add a proof to the credential.
    pub fn add_proof(&mut self, proof: Proof)
        ensures
            final(self).proof matches Some(v) && v@ == list_or_empty(old(self).proof).push(proof),
            final(self).context == old(self).context,
            final(self).id == old(self).id,
            final(self).credential_type == old(self).credential_type,
            final(self).issuer == old(self).issuer,
            final(self).issuance_date == old(self).issuance_date,
            final(self).expiration_date == old(self).expiration_date,
            final(self).credential_subject == old(self).credential_subject,
            final(self).credential_status == old(self).credential_status,
            final(self).credential_schema == old(self).credential_schema,
    {
        push_optional(&mut self.proof, proof);
    }

    /// The issuer's DID.
    pub open spec fn issuer_did(&self) -> Seq<char> {
        match self.issuer {
            Issuer::Did(did) => did@,
            Issuer::Object { id, .. } => id@,
        }
    }

    /// The credential has an expiry that is not after `now`.
    pub open spec fn expired_at(&self, now: i64) -> bool {
        self.expiration_date matches Some(exp) && exp <= now
    }

    /// What is wrong with the credential at `now`, if anything is.
    pub open spec fn fault_at(&self, now: i64) -> Option<CredentialFault> {
        if self.credential_type@.len() == 0 {
            Some(CredentialFault::NoType)
        } else if !lists(self.credential_type@, "VerifiableCredential"@) {
            Some(CredentialFault::MissingBaseType)
        } else if !has_prefix(self.issuer_did(), "did:"@) {
            Some(CredentialFault::IssuerNotDid)
        } else if self.expired_at(now) {
            Some(CredentialFault::Expired)
        } else {
            None
        }
    }

    /// What validating the credential at `now` comes to.
    pub open spec fn outcome_at(&self, now: i64) -> Result<(), IdentityError> {
        match self.fault_at(now) {
            Some(fault) => Err(IdentityError::InvalidCredential(fault)),
            None => Ok(()),
        }
    }

    /// Validate the credential structure, as of now.
    pub fn validate(&self) -> (r: Result<(), IdentityError>)
        ensures
            exists|now: i64| r == #[trigger] self.outcome_at(now),
    {
        let now = now_millis();
        let r = self.validate_at(now);
        assert(r == self.outcome_at(now));
        r
    }

    /// Validate the credential structure, as of `now`.
    pub fn validate_at(&self, now: i64) -> (r: Result<(), IdentityError>)
        ensures
            r == self.outcome_at(now),
    {
        if self.credential_type.len() == 0 {
            return Err(IdentityError::InvalidCredential(CredentialFault::NoType));
        }
        if !contains_text(&self.credential_type, "VerifiableCredential") {
            return Err(IdentityError::InvalidCredential(CredentialFault::MissingBaseType));
        }
        if !starts_with(self.get_issuer_did(), "did:") {
            return Err(IdentityError::InvalidCredential(CredentialFault::IssuerNotDid));
        }
        if self.is_expired_at(now) {
            return Err(IdentityError::InvalidCredential(CredentialFault::Expired));
        }
        Ok(())
    }

    /// Check if the credential is expired, as of now.
    pub fn is_expired(&self) -> (expired: bool)
        ensures
            exists|now: i64| expired == #[trigger] self.expired_at(now),
    {
        let now = now_millis();
        let expired = self.is_expired_at(now);
        assert(expired == self.expired_at(now));
        expired
    }

    /// Check if the credential is expired, as of `now`.
    pub fn is_expired_at(&self, now: i64) -> (expired: bool)
        ensures
            expired == self.expired_at(now),
    {
        match self.expiration_date {
            Some(exp) => exp <= now,
            None => false,
        }
    }

    /// Get the issuer DID.
    pub fn get_issuer_did(&self) -> (did: &str)
        ensures
            did@ == self.issuer_did(),
    {
        match &self.issuer {
            Issuer::Did(did) => did.as_str(),
            Issuer::Object { id, .. } => id.as_str(),
        }
    }
}

/// The fault of the first of the first `n` credentials that has one.
pub open spec fn first_fault(
    credentials: Seq<VerifiableCredential>,
    now: i64,
    n: nat,
) -> Option<CredentialFault>
    decreases n,
{
    if n == 0 {
        None
    } else {
        match first_fault(credentials, now, (n - 1) as nat) {
            Some(fault) => Some(fault),
            None => credentials[n - 1].fault_at(now),
        }
    }
}

impl VerifiablePresentation {
    /// A presentation as it is made: the default context and type, no
    /// proof.
    pub open spec fn is_made(
        &self,
        id: Seq<char>,
        credentials: Vec<VerifiableCredential>,
        holder: Option<String>,
    ) -> bool {
        &&& self.context@.len() == 1
        &&& self.context[0]@ == "https://www.w3.org/2018/credentials/v1"@
        &&& self.id matches Some(own) && own@ == id
        &&& self.presentation_type@.len() == 1
        &&& self.presentation_type[0]@ == "VerifiablePresentation"@
        &&& self.verifiable_credential == credentials
        &&& self.holder == holder
        &&& self.proof is None
    }

    /// Create a new Verifiable Presentation under a fresh `urn:uuid:`
    /// identifier.
    pub fn new(credentials: Vec<VerifiableCredential>, holder: Option<String>) -> (vp: Self)
        ensures
            exists|id: Seq<char>| has_prefix(id, "urn:uuid:"@) && vp.is_made(id, credentials, holder),
    {
        let id = join_text("urn:uuid:", generate_id().as_str());
        assert(id@.take("urn:uuid:"@.len() as int) =~= "urn:uuid:"@);
        assert(has_prefix(id@, "urn:uuid:"@));
        let vp = Self::with_id(id, credentials, holder);
        assert(vp.is_made(id@, credentials, holder));
        vp
    }

    /// Create a new Verifiable Presentation under the given identifier.
    pub fn with_id(id: String, credentials: Vec<VerifiableCredential>, holder: Option<String>) -> (vp:
        Self)
        ensures
            vp.is_made(id@, credentials, holder),
    {
        let mut context: Vec<String> = Vec::new();
        context.push("https://www.w3.org/2018/credentials/v1".to_owned());
        let mut presentation_type: Vec<String> = Vec::new();
        presentation_type.push("VerifiablePresentation".to_owned());
        Self {
            context,
            id: Some(id),
            presentation_type,
            verifiable_credential: credentials,
            holder,
            proof: None,
        }
    }

    /// Add a proof to the presentation.
    pub fn add_proof(&mut self, proof: Proof)
        ensures
            final(self).proof matches Some(v) && v@ == list_or_empty(old(self).proof).push(proof),
            final(self).context == old(self).context,
            final(self).id == old(self).id,
            final(self).presentation_type == old(self).presentation_type,
            final(self).verifiable_credential == old(self).verifiable_credential,
            final(self).holder == old(self).holder,
    {
        push_optional(&mut self.proof, proof);
    }

    /// What validating the presentation at `now` comes to: the error of
    /// the first credential that is not valid, if there is one.
    pub open spec fn outcome_at(&self, now: i64) -> Result<(), IdentityError> {
        match first_fault(self.verifiable_credential@, now, self.verifiable_credential@.len()) {
            Some(fault) => Err(IdentityError::InvalidCredential(fault)),
            None => Ok(()),
        }
    }

    /// Validate the presentation, as of now: all its credentials must be
    /// valid.
    pub fn validate(&self) -> (r: Result<(), IdentityError>)
        ensures
            exists|now: i64| r == #[trigger] self.outcome_at(now),
    {
        let now = now_millis();
        let r = self.validate_at(now);
        assert(r == self.outcome_at(now));
        r
    }

    /// Validate the presentation, as of `now`. The error is that of the
    /// first credential that is not valid.
    pub fn validate_at(&self, now: i64) -> (r: Result<(), IdentityError>)
        ensures
            r == self.outcome_at(now),
    {
        let mut i: usize = 0;
        while i < self.verifiable_credential.len()
            invariant
                i <= self.verifiable_credential.len(),
                first_fault(self.verifiable_credential@, now, i as nat) is None,
            decreases self.verifiable_credential.len() - i,
        {
            let checked = self.verifiable_credential[i].validate_at(now);
            if let Err(e) = checked {
                proof {
                    lemma_first_fault_stays(
                        self.verifiable_credential@,
                        now,
                        (i + 1) as nat,
                        self.verifiable_credential@.len(),
                    );
                }
                return Err(e);
            }
            i += 1;
        }
        Ok(())
    }
}

/// A fault found among the first `n` credentials is the one found among
/// more.
pub proof fn lemma_first_fault_stays(
    credentials: Seq<VerifiableCredential>,
    now: i64,
    n: nat,
    m: nat,
)
    requires
        n <= m,
        first_fault(credentials, now, n) is Some,
    ensures
        first_fault(credentials, now, m) == first_fault(credentials, now, n),
    decreases m - n,
{
    if n < m {
        lemma_first_fault_stays(credentials, now, n, (m - 1) as nat);
    }
}

} // verus!
