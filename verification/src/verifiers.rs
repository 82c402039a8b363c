//! The parties that take part in attestations, and what they can verify.

use vstd::prelude::*;
use crate::clock::now_millis;
use crate::dictionary::Dictionary;
use crate::error::AttestorError;
use crate::identity::did::DidDocument;
use crate::identity::error::IdentityError;
use crate::identity::vc::VerifiableCredential;
use crate::json::JsonValue;
use crate::text::{str_eq, texts};

verus! {

/// Verifier entity that can participate in attestations. Times are in
/// milliseconds since the Unix epoch.
#[derive(Debug, Clone)]
pub struct Verifier {
    pub id: String,
    pub did: String,
    pub name: String,
    pub organization: Option<String>,
    pub public_key: Vec<u8>,
    pub verification_methods: Vec<String>,
    pub capabilities: Vec<VerificationCapability>,
    pub created_at: i64,
    pub updated_at: i64,
    pub metadata: Dictionary<JsonValue>,
}

/// Types of verification capabilities a verifier can have.
#[derive(Debug, Clone)]
pub enum VerificationCapability {
    KycVerification,
    AgeVerification,
    EducationVerification,
    EmploymentVerification,
    IdentityVerification,
    AddressVerification,
    Custom(String),
}

/// Verification criteria for specific credential types.
#[derive(Debug, Clone)]
pub struct VerificationCriteria {
    pub credential_type: String,
    pub required_fields: Vec<String>,
    pub validation_rules: Dictionary<JsonValue>,
    pub minimum_evidence_level: EvidenceLevel,
}

/// Evidence level for verification.
#[derive(Debug, Clone, Copy, PartialEq, Eq, Structural)]
pub enum EvidenceLevel {
    Low,
    Medium,
    High,
    VeryHigh,
}

/// Verification result from a verifier. `credential_age_days` is the age
/// of the credential in whole days when it was verified.
#[derive(Debug, Clone)]
pub struct VerificationResult {
    pub verifier_id: String,
    pub credential_id: String,
    pub verified_claims: Vec<String>,
    pub evidence_level: EvidenceLevel,
    pub credential_age_days: i64,
    pub verification_method: String,
    pub timestamp: i64,
    pub notes: Option<String>,
    pub supporting_documents: Vec<String>,
}

impl VerificationCapability {
    /// The human-readable description of the capability.
    pub open spec fn description_text(&self) -> Seq<char> {
        match self {
            VerificationCapability::KycVerification => "Know Your Customer verification"@,
            VerificationCapability::AgeVerification => "Age verification"@,
            VerificationCapability::EducationVerification => "Education credential verification"@,
            VerificationCapability::EmploymentVerification => "Employment verification"@,
            VerificationCapability::IdentityVerification => "Identity document verification"@,
            VerificationCapability::AddressVerification => "Address verification"@,
            VerificationCapability::Custom(desc) => desc@,
        }
    }

    /// Two capabilities are the same one: the same kind, and for custom
    /// ones the same text.
    pub open spec fn same(&self, other: Self) -> bool {
        match (*self, other) {
            (VerificationCapability::KycVerification, VerificationCapability::KycVerification) => true,
            (VerificationCapability::AgeVerification, VerificationCapability::AgeVerification) => true,
            (
                VerificationCapability::EducationVerification,
                VerificationCapability::EducationVerification,
            ) => true,
            (
                VerificationCapability::EmploymentVerification,
                VerificationCapability::EmploymentVerification,
            ) => true,
            (
                VerificationCapability::IdentityVerification,
                VerificationCapability::IdentityVerification,
            ) => true,
            (
                VerificationCapability::AddressVerification,
                VerificationCapability::AddressVerification,
            ) => true,
            (VerificationCapability::Custom(a), VerificationCapability::Custom(b)) => a@ == b@,
            _ => false,
        }
    }

    /// The capability that a credential type asks for.
    pub open spec fn required_for(credential_type: Seq<char>, capability: Self) -> bool {
        if credential_type == "KycCredential"@ {
            capability is KycVerification
        } else if credential_type == "AgeVerificationCredential"@ {
            capability is AgeVerification
        } else if credential_type == "UniversityDegreeCredential"@ {
            capability is EducationVerification
        } else if credential_type == "EmploymentCredential"@ {
            capability is EmploymentVerification
        } else if credential_type == "IdentityCredential"@ {
            capability is IdentityVerification
        } else if credential_type == "AddressCredential"@ {
            capability is AddressVerification
        } else {
            capability matches VerificationCapability::Custom(name) && name@ == credential_type
        }
    }

    /// Get human-readable description of the capability.
    pub fn description(&self) -> (text: &str)
        ensures
            text@ == self.description_text(),
    {
        match self {
            VerificationCapability::KycVerification => "Know Your Customer verification",
            VerificationCapability::AgeVerification => "Age verification",
            VerificationCapability::EducationVerification => "Education credential verification",
            VerificationCapability::EmploymentVerification => "Employment verification",
            VerificationCapability::IdentityVerification => "Identity document verification",
            VerificationCapability::AddressVerification => "Address verification",
            VerificationCapability::Custom(desc) => desc.as_str(),
        }
    }

    /// The description as text of its own.
    pub fn to_text(&self) -> (text: String)
        ensures
            text@ == self.description_text(),
    {
        self.description().to_owned()
    }

    /// Whether two capabilities are the same one.
    pub fn is_same(&self, other: &Self) -> (r: bool)
        ensures
            r == self.same(*other),
    {
        match (self, other) {
            (VerificationCapability::KycVerification, VerificationCapability::KycVerification) => true,
            (VerificationCapability::AgeVerification, VerificationCapability::AgeVerification) => true,
            (
                VerificationCapability::EducationVerification,
                VerificationCapability::EducationVerification,
            ) => true,
            (
                VerificationCapability::EmploymentVerification,
                VerificationCapability::EmploymentVerification,
            ) => true,
            (
                VerificationCapability::IdentityVerification,
                VerificationCapability::IdentityVerification,
            ) => true,
            (
                VerificationCapability::AddressVerification,
                VerificationCapability::AddressVerification,
            ) => true,
            (VerificationCapability::Custom(a), VerificationCapability::Custom(b)) => str_eq(
                a.as_str(),
                b.as_str(),
            ),
            _ => false,
        }
    }
}

impl EvidenceLevel {
    /// Convert to numeric value for comparisons.
    pub fn to_numeric(&self) -> (n: u8)
        ensures
            n == match self {
                EvidenceLevel::Low => 1u8,
                EvidenceLevel::Medium => 2u8,
                EvidenceLevel::High => 3u8,
                EvidenceLevel::VeryHigh => 4u8,
            },
    {
        match self {
            EvidenceLevel::Low => 1,
            EvidenceLevel::Medium => 2,
            EvidenceLevel::High => 3,
            EvidenceLevel::VeryHigh => 4,
        }
    }

    /// The level's name.
    pub open spec fn name(&self) -> Seq<char> {
        match self {
            EvidenceLevel::Low => "Low"@,
            EvidenceLevel::Medium => "Medium"@,
            EvidenceLevel::High => "High"@,
            EvidenceLevel::VeryHigh => "Very High"@,
        }
    }

    /// The level's name as text.
    pub fn to_text(&self) -> (text: String)
        ensures
            text@ == self.name(),
    {
        match self {
            EvidenceLevel::Low => "Low".to_owned(),
            EvidenceLevel::Medium => "Medium".to_owned(),
            EvidenceLevel::High => "High".to_owned(),
            EvidenceLevel::VeryHigh => "Very High".to_owned(),
        }
    }
}

/// Whether a list of capabilities holds `capability`.
pub open spec fn holds_capability(
    list: Seq<VerificationCapability>,
    capability: VerificationCapability,
) -> bool {
    exists|i: int| 0 <= i < list.len() && (#[trigger] list[i]).same(capability)
}

/// The fields among the first `n` required ones that the claims hold, in
/// order.
pub open spec fn claimed_fields(
    claims: Map<Seq<char>, JsonValue>,
    required: Seq<String>,
    n: nat,
) -> Seq<Seq<char>>
    decreases n,
{
    if n == 0 {
        Seq::empty()
    } else {
        let earlier = claimed_fields(claims, required, (n - 1) as nat);
        if claims.contains_key(required[n - 1]@) {
            earlier.push(required[n - 1]@)
        } else {
            earlier
        }
    }
}

/// The whole days between two times in milliseconds, rounded towards
/// zero.
pub open spec fn days_between(earlier: i64, later: i64) -> int {
    let span = later - earlier;
    if span >= 0 {
        span / 86_400_000
    } else {
        -((-span) / 86_400_000)
    }
}

/// The points that a credential's age earns: twenty up to thirty days,
/// fifteen up to ninety, ten up to a year, five beyond.
pub fn freshness_points(age_days: i64) -> (points: u8)
    ensures
        points == if age_days <= 30 {
            20u8
        } else if age_days <= 90 {
            15u8
        } else if age_days <= 365 {
            10u8
        } else {
            5u8
        },
{
    if age_days <= 30 {
        20
    } else if age_days <= 90 {
        15
    } else if age_days <= 365 {
        10
    } else {
        5
    }
}

/// The whole days from `earlier` to `later`, both in milliseconds.
pub fn whole_days_between(earlier: i64, later: i64) -> (days: i64)
    ensures
        days == days_between(earlier, later),
{
    let a: i128 = earlier as i128;
    let b: i128 = later as i128;
    let span: i128 = b - a;
    if span >= 0 {
        (span / 86_400_000) as i64
    } else {
        let back: i128 = (0 - span) / 86_400_000;
        (0 - back) as i64
    }
}

impl Verifier {
    /// A verifier as it is created: no organization, methods,
    /// capabilities or metadata.
    pub open spec fn is_new(
        &self,
        id: String,
        did: String,
        name: String,
        public_key: Vec<u8>,
        now: i64,
    ) -> bool {
        &&& self.id == id
        &&& self.did == did
        &&& self.name == name
        &&& self.organization is None
        &&& self.public_key == public_key
        &&& self.verification_methods@.len() == 0
        &&& self.capabilities@.len() == 0
        &&& self.created_at == now
        &&& self.updated_at == now
        &&& self.metadata@ == Map::<Seq<char>, JsonValue>::empty()
    }

    /// Create a new verifier, created now.
    pub fn new(id: String, did: String, name: String, public_key: Vec<u8>) -> (v: Self)
        ensures
            exists|now: i64| #[trigger] v.is_new(id, did, name, public_key, now),
    {
        let now = now_millis();
        let v = Self::new_at(id, did, name, public_key, now);
        assert(v.is_new(id, did, name, public_key, now));
        v
    }

    /// Create a new verifier, created at `now`.
    pub fn new_at(id: String, did: String, name: String, public_key: Vec<u8>, now: i64) -> (v: Self)
        ensures
            v.is_new(id, did, name, public_key, now),
    {
        Self {
            id,
            did,
            name,
            organization: None,
            public_key,
            verification_methods: Vec::new(),
            capabilities: Vec::new(),
            created_at: now,
            updated_at: now,
            metadata: Dictionary::new(),
        }
    }

    /// All but the capabilities and the time of the last update is the
    /// same in both verifiers.
    pub open spec fn same_but_capabilities(&self, other: Self) -> bool {
        &&& self.id == other.id
        &&& self.did == other.did
        &&& self.name == other.name
        &&& self.organization == other.organization
        &&& self.public_key == other.public_key
        &&& self.verification_methods == other.verification_methods
        &&& self.created_at == other.created_at
        &&& self.metadata == other.metadata
    }

    /// Add a verification capability, unless the verifier has it; the
    /// verifier is updated now if it had not.
    pub fn add_capability(&mut self, capability: VerificationCapability)
        ensures
            holds_capability(old(self).capabilities@, capability) ==> *final(self) == *old(self),
            !holds_capability(old(self).capabilities@, capability) ==> final(self).capabilities@
                == old(self).capabilities@.push(capability),
            final(self).same_but_capabilities(*old(self)),
    {
        let now = now_millis();
        self.add_capability_at(capability, now)
    }

    /// Add a verification capability, unless the verifier has it; the
    /// verifier is updated at `now` if it had not.
    pub fn add_capability_at(&mut self, capability: VerificationCapability, now: i64)
        ensures
            holds_capability(old(self).capabilities@, capability) ==> *final(self) == *old(self),
            !holds_capability(old(self).capabilities@, capability) ==> final(self).capabilities@
                == old(self).capabilities@.push(capability) && final(self).updated_at == now,
            final(self).same_but_capabilities(*old(self)),
    {
        if !self.has_capability(&capability) {
            self.capabilities.push(capability);
            self.updated_at = now;
        }
    }

    /// Check if verifier has a specific capability.
    pub fn has_capability(&self, capability: &VerificationCapability) -> (r: bool)
        ensures
            r == holds_capability(self.capabilities@, *capability),
    {
        let mut i: usize = 0;
        while i < self.capabilities.len()
            invariant
                i <= self.capabilities.len(),
                forall|j: int| 0 <= j < i ==> !(#[trigger] self.capabilities[j]).same(*capability),
            decreases self.capabilities.len() - i,
        {
            if self.capabilities[i].is_same(capability) {
                return true;
            }
            i += 1;
        }
        false
    }

    /// Set organization information, updated now.
    pub fn set_organization(&mut self, organization: String)
        ensures
            final(self).organization == Some(organization),
            *final(self) == (Verifier {
                organization: final(self).organization,
                updated_at: final(self).updated_at,
                ..*old(self)
            }),
    {
        let now = now_millis();
        self.set_organization_at(organization, now)
    }

    /// Set organization information, updated at `now`.
    pub fn set_organization_at(&mut self, organization: String, now: i64)
        ensures
            *final(self) == (Verifier {
                organization: Some(organization),
                updated_at: now,
                ..*old(self)
            }),
    {
        self.organization = Some(organization);
        self.updated_at = now;
    }

    /// Add metadata, updated now.
    pub fn add_metadata(&mut self, key: String, value: JsonValue)
        ensures
            final(self).metadata@ == old(self).metadata@.insert(key@, value),
            *final(self) == (Verifier {
                metadata: final(self).metadata,
                updated_at: final(self).updated_at,
                ..*old(self)
            }),
    {
        let now = now_millis();
        self.add_metadata_at(key, value, now)
    }

    /// Add metadata, updated at `now`.
    pub fn add_metadata_at(&mut self, key: String, value: JsonValue, now: i64)
        ensures
            final(self).metadata@ == old(self).metadata@.insert(key@, value),
            *final(self) == (Verifier {
                metadata: final(self).metadata,
                updated_at: now,
                ..*old(self)
            }),
    {
        self.metadata.insert(key, value);
        self.updated_at = now;
    }

    /// Get the required capability for a credential type.
    fn get_capability_for_credential_type(&self, credential_type: &str) -> (capability:
        VerificationCapability)
        ensures
            VerificationCapability::required_for(credential_type@, capability),
    {
        if str_eq(credential_type, "KycCredential") {
            VerificationCapability::KycVerification
        } else if str_eq(credential_type, "AgeVerificationCredential") {
            VerificationCapability::AgeVerification
        } else if str_eq(credential_type, "UniversityDegreeCredential") {
            VerificationCapability::EducationVerification
        } else if str_eq(credential_type, "EmploymentCredential") {
            VerificationCapability::EmploymentVerification
        } else if str_eq(credential_type, "IdentityCredential") {
            VerificationCapability::IdentityVerification
        } else if str_eq(credential_type, "AddressCredential") {
            VerificationCapability::AddressVerification
        } else {
            VerificationCapability::Custom(credential_type.to_owned())
        }
    }

    /// The verifier has the capability that a credential type asks for.
    pub open spec fn can_verify(&self, credential_type: Seq<char>) -> bool {
        exists|capability: VerificationCapability|
            #[trigger] VerificationCapability::required_for(credential_type, capability)
                && holds_capability(self.capabilities@, capability)
    }

    /// The error that verifying `credential` at `now` ends in, if it ends
    /// in one.
    pub open spec fn verification_error(
        &self,
        credential: VerifiableCredential,
        criteria: VerificationCriteria,
        now: i64,
    ) -> Option<AttestorError> {
        if !self.can_verify(criteria.credential_type@) {
            Some(AttestorError::PermissionDenied)
        } else {
            match credential.fault_at(now) {
                Some(fault) => Some(
                    AttestorError::IdentityError(IdentityError::InvalidCredential(fault)),
                ),
                None => None,
            }
        }
    }

    /// `result` is what verifying `credential` at `now` gives: the
    /// required fields that the credential claims, under the criteria's
    /// evidence level, by manual review.
    pub open spec fn verified(
        &self,
        credential: VerifiableCredential,
        criteria: VerificationCriteria,
        now: i64,
        result: VerificationResult,
    ) -> bool {
        &&& result.verifier_id@ == self.id@
        &&& result.credential_id@ == credential.id@
        &&& texts(result.verified_claims@) == claimed_fields(
            credential.credential_subject.claims@,
            criteria.required_fields@,
            criteria.required_fields@.len(),
        )
        &&& result.evidence_level == criteria.minimum_evidence_level
        &&& result.credential_age_days == days_between(credential.issuance_date, now)
        &&& result.verification_method@ == "manual_review"@
        &&& result.timestamp == now
        &&& result.notes is None
        &&& result.supporting_documents@.len() == 0
    }

    /// `r` is what verifying `credential` at `now` comes to.
    pub open spec fn verification_outcome(
        &self,
        credential: VerifiableCredential,
        criteria: VerificationCriteria,
        now: i64,
        r: Result<VerificationResult, AttestorError>,
    ) -> bool {
        match r {
            Ok(result) => self.verification_error(credential, criteria, now) is None
                && self.verified(credential, criteria, now, result),
            Err(e) => self.verification_error(credential, criteria, now) == Some(e),
        }
    }

    /// Verify a credential based on the verifier's capabilities, as of
    /// now.
    pub fn verify_credential(
        &self,
        credential: &VerifiableCredential,
        criteria: &VerificationCriteria,
    ) -> (r: Result<VerificationResult, AttestorError>)
        ensures
            exists|now: i64| #[trigger] self.verification_outcome(*credential, *criteria, now, r),
    {
        let now = now_millis();
        let r = self.verify_credential_at(credential, criteria, now);
        assert(self.verification_outcome(*credential, *criteria, now, r));
        r
    }

    /// Verify a credential based on the verifier's capabilities, as of
    /// `now`.
    pub fn verify_credential_at(
        &self,
        credential: &VerifiableCredential,
        criteria: &VerificationCriteria,
        now: i64,
    ) -> (r: Result<VerificationResult, AttestorError>)
        ensures
            self.verification_outcome(*credential, *criteria, now, r),
    {
        let required_capability = self.get_capability_for_credential_type(
            criteria.credential_type.as_str(),
        );
        if !self.has_capability(&required_capability) {
            proof {
                assert forall|c: VerificationCapability|
                    #[trigger] VerificationCapability::required_for(criteria.credential_type@, c)
                    implies !holds_capability(self.capabilities@, c) by {
                    if holds_capability(self.capabilities@, c) {
                        let i = choose|i: int|
                            0 <= i < self.capabilities@.len() && (#[trigger] self.capabilities@[i]).same(
                                c,
                            );
                        assert(self.capabilities@[i].same(required_capability));
                    }
                }
            }
            return Err(AttestorError::PermissionDenied);
        }
        if let Err(e) = credential.validate_at(now) {
            return Err(AttestorError::IdentityError(e));
        }
        let mut verified_claims: Vec<String> = Vec::new();
        let mut i: usize = 0;
        while i < criteria.required_fields.len()
            invariant
                i <= criteria.required_fields.len(),
                texts(verified_claims@) == claimed_fields(
                    credential.credential_subject.claims@,
                    criteria.required_fields@,
                    i as nat,
                ),
            decreases criteria.required_fields.len() - i,
        {
            let field = &criteria.required_fields[i];
            let ghost before = texts(verified_claims@);
            if credential.credential_subject.claims.contains_key(field.as_str()) {
                verified_claims.push(field.clone());
                assert(texts(verified_claims@) =~= before.push(field@));
            }
            i += 1;
        }
        Ok(
            VerificationResult {
                verifier_id: self.id.clone(),
                credential_id: credential.id.clone(),
                verified_claims,
                evidence_level: criteria.minimum_evidence_level,
                credential_age_days: whole_days_between(credential.issuance_date, now),
                verification_method: "manual_review".to_owned(),
                timestamp: now,
                notes: None,
                supporting_documents: Vec::new(),
            },
        )
    }

    /// Validate verifier's DID document: it must be the verifier's own
    /// and sound in itself.
    pub fn validate_did_document(&self, did_document: &DidDocument) -> (r: Result<(), AttestorError>)
        ensures
            r == (if did_document.id@ != self.did@ {
                Err::<(), AttestorError>(AttestorError::InvalidRequest)
            } else {
                match did_document.fault() {
                    Some(fault) => Err(
                        AttestorError::IdentityError(IdentityError::InvalidDid(fault)),
                    ),
                    None => Ok(()),
                }
            }),
    {
        if did_document.id != self.did {
            return Err(AttestorError::InvalidRequest);
        }
        match did_document.validate() {
            Ok(()) => Ok(()),
            Err(e) => Err(AttestorError::IdentityError(e)),
        }
    }
}

} // verus!
