//! DID (Decentralized Identifier) documents, after the W3C DID Core
//! specification.

use vstd::prelude::*;
use crate::clock::now_millis;
use crate::dictionary::Dictionary;
use crate::identity::error::{DidFault, IdentityError};
use crate::json::JsonValue;
use crate::text::{find_char, first_index_from, has_prefix, slice_text, starts_with, str_eq};

verus! {

/// DID Document as per W3C DID Core specification. Times are in
/// milliseconds since the Unix epoch.
#[derive(Debug, Clone)]
pub struct DidDocument {
    pub context: Vec<String>,
    pub id: String,
    pub verification_method: Option<Vec<VerificationMethod>>,
    pub authentication: Option<Vec<VerificationRelationship>>,
    pub assertion_method: Option<Vec<VerificationRelationship>>,
    pub key_agreement: Option<Vec<VerificationRelationship>>,
    pub capability_invocation: Option<Vec<VerificationRelationship>>,
    pub capability_delegation: Option<Vec<VerificationRelationship>>,
    pub service: Option<Vec<Service>>,
    pub created: Option<i64>,
    pub updated: Option<i64>,
}

/// Verification Method for DID Document.
#[derive(Debug, Clone)]
pub struct VerificationMethod {
    pub id: String,
    pub method_type: String,
    pub controller: String,
    pub public_key: PublicKeyFormat,
}

/// Verification Relationship - can be a string reference or embedded
/// verification method.
#[derive(Debug, Clone)]
pub enum VerificationRelationship {
    Reference(String),
    Embedded(VerificationMethod),
}

/// Public Key formats supported.
#[derive(Debug, Clone)]
pub enum PublicKeyFormat {
    Jwk { public_key_jwk: Dictionary<JsonValue> },
    Multibase { public_key_multibase: String },
    Base58 { public_key_base58: String },
}

/// Service endpoint for DID Document.
#[derive(Debug, Clone)]
pub struct Service {
    pub id: String,
    pub service_type: ServiceType,
    pub service_endpoint: ServiceEndpoint,
}

/// Service types as defined in DID spec registries.
#[derive(Debug, Clone)]
pub enum ServiceType {
    Single(String),
    Multiple(Vec<String>),
}

/// Service endpoint can be a string or object.
#[derive(Debug, Clone)]
pub enum ServiceEndpoint {
    Uri(String),
    Object(Dictionary<JsonValue>),
}

/// DID Method types.
#[derive(Debug, Clone)]
pub enum DidMethod {
    Web,
    Key,
    Ethr,
    Ion,
    Custom(String),
}

/// What an optional list holds: nothing, where it is absent.
pub open spec fn list_or_empty<T>(list: Option<Vec<T>>) -> Seq<T> {
    match list {
        Some(v) => v@,
        None => Seq::empty(),
    }
}

/// Appends to an optional list, which is there afterwards.
pub fn push_optional<T>(list: &mut Option<Vec<T>>, item: T)
    ensures
        *final(list) matches Some(v) && v@ == list_or_empty(*old(list)).push(item),
{
    let mut items = match list.take() {
        Some(items) => items,
        None => Vec::new(),
    };
    items.push(item);
    *list = Some(items);
}

/// The text has at least three parts between colons.
pub open spec fn has_three_parts(text: Seq<char>) -> bool {
    let first = first_index_from(text, ':', 0);
    first < text.len() && first_index_from(text, ':', first + 1) < text.len()
}

/// The part of the text between its first colon and the next, or the end.
pub open spec fn method_part(text: Seq<char>) -> Seq<char> {
    let first = first_index_from(text, ':', 0);
    text.subrange(first + 1, first_index_from(text, ':', first + 1))
}

impl DidMethod {
    /// The method's name as it stands in a DID.
    pub open spec fn name(&self) -> Seq<char> {
        match self {
            DidMethod::Web => "web"@,
            DidMethod::Key => "key"@,
            DidMethod::Ethr => "ethr"@,
            DidMethod::Ion => "ion"@,
            DidMethod::Custom(method) => method@,
        }
    }

    /// The method that a name stands for: one of the four known ones, or a
    /// custom method of that name.
    pub open spec fn names(&self, text: Seq<char>) -> bool {
        if text == "web"@ {
            self is Web
        } else if text == "key"@ {
            self is Key
        } else if text == "ethr"@ {
            self is Ethr
        } else if text == "ion"@ {
            self is Ion
        } else {
            self matches DidMethod::Custom(method) && method@ == text
        }
    }

    /// The method's name as text.
    pub fn to_text(&self) -> (text: String)
        ensures
            text@ == self.name(),
    {
        match self {
            DidMethod::Web => "web".to_owned(),
            DidMethod::Key => "key".to_owned(),
            DidMethod::Ethr => "ethr".to_owned(),
            DidMethod::Ion => "ion".to_owned(),
            DidMethod::Custom(method) => method.clone(),
        }
    }
}

impl DidDocument {
    /// A document that holds the two default contexts, the given
    /// identifier and time of creation, and nothing else.
    pub open spec fn is_fresh(&self, id: Seq<char>, now: i64) -> bool {
        &&& self.context@.len() == 2
        &&& self.context[0]@ == "https://www.w3.org/ns/did/v1"@
        &&& self.context[1]@ == "https://w3id.org/security/suites/ed25519-2020/v1"@
        &&& self.id@ == id
        &&& self.verification_method is None
        &&& self.authentication is None
        &&& self.assertion_method is None
        &&& self.key_agreement is None
        &&& self.capability_invocation is None
        &&& self.capability_delegation is None
        &&& self.service is None
        &&& self.created == Some(now)
        &&& self.updated is None
    }

    /// Create a new DID Document, created now.
    pub fn new(id: String) -> (doc: Self)
        ensures
            exists|now: i64| doc.is_fresh(id@, now),
    {
        let now = now_millis();
        let doc = Self::new_at(id, now);
        assert(doc.is_fresh(id@, now));
        doc
    }

    /// Create a new DID Document, created at `now`.
    pub fn new_at(id: String, now: i64) -> (doc: Self)
        ensures
            doc.is_fresh(id@, now),
    {
        let mut context: Vec<String> = Vec::new();
        context.push("https://www.w3.org/ns/did/v1".to_owned());
        context.push("https://w3id.org/security/suites/ed25519-2020/v1".to_owned());
        Self {
            context,
            id,
            verification_method: None,
            authentication: None,
            assertion_method: None,
            key_agreement: None,
            capability_invocation: None,
            capability_delegation: None,
            service: None,
            created: Some(now),
            updated: None,
        }
    }

    /// Add a verification method to the DID document, updated now.
    pub fn add_verification_method(&mut self, method: VerificationMethod)
        ensures
            final(self).verification_method matches Some(v) && v@ == list_or_empty(
                old(self).verification_method,
            ).push(method),
            final(self).updated is Some,
            final(self).same_but_methods(*old(self)),
    {
        let now = now_millis();
        self.add_verification_method_at(method, now)
    }

    /// All but the verification methods and the time of the last update is
    /// the same in both documents.
    pub open spec fn same_but_methods(&self, other: Self) -> bool {
        &&& self.context == other.context
        &&& self.id == other.id
        &&& self.authentication == other.authentication
        &&& self.assertion_method == other.assertion_method
        &&& self.key_agreement == other.key_agreement
        &&& self.capability_invocation == other.capability_invocation
        &&& self.capability_delegation == other.capability_delegation
        &&& self.service == other.service
        &&& self.created == other.created
    }

    /// All but the authentication methods and the time of the last update
    /// is the same in both documents.
    pub open spec fn same_but_authentication(&self, other: Self) -> bool {
        &&& self.context == other.context
        &&& self.id == other.id
        &&& self.verification_method == other.verification_method
        &&& self.assertion_method == other.assertion_method
        &&& self.key_agreement == other.key_agreement
        &&& self.capability_invocation == other.capability_invocation
        &&& self.capability_delegation == other.capability_delegation
        &&& self.service == other.service
        &&& self.created == other.created
    }

    /// All but the services and the time of the last update is the same in
    /// both documents.
    pub open spec fn same_but_services(&self, other: Self) -> bool {
        &&& self.context == other.context
        &&& self.id == other.id
        &&& self.verification_method == other.verification_method
        &&& self.authentication == other.authentication
        &&& self.assertion_method == other.assertion_method
        &&& self.key_agreement == other.key_agreement
        &&& self.capability_invocation == other.capability_invocation
        &&& self.capability_delegation == other.capability_delegation
        &&& self.created == other.created
    }

    /// Add a verification method to the DID document, updated at `now`.
    pub fn add_verification_method_at(&mut self, method: VerificationMethod, now: i64)
        ensures
            final(self).verification_method matches Some(v) && v@ == list_or_empty(
                old(self).verification_method,
            ).push(method),
            final(self).updated == Some(now),
            final(self).same_but_methods(*old(self)),
    {
        push_optional(&mut self.verification_method, method);
        self.updated = Some(now);
    }

    /// Add an authentication method, updated now.
    pub fn add_authentication(&mut self, auth: VerificationRelationship)
        ensures
            final(self).authentication matches Some(v) && v@ == list_or_empty(
                old(self).authentication,
            ).push(auth),
            final(self).updated is Some,
            final(self).same_but_authentication(*old(self)),
    {
        let now = now_millis();
        self.add_authentication_at(auth, now)
    }

    /// Add an authentication method, updated at `now`.
    pub fn add_authentication_at(&mut self, auth: VerificationRelationship, now: i64)
        ensures
            final(self).authentication matches Some(v) && v@ == list_or_empty(
                old(self).authentication,
            ).push(auth),
            final(self).updated == Some(now),
            final(self).same_but_authentication(*old(self)),
    {
        push_optional(&mut self.authentication, auth);
        self.updated = Some(now);
    }

    /// Add a service endpoint, updated now.
    pub fn add_service(&mut self, service: Service)
        ensures
            final(self).service matches Some(v) && v@ == list_or_empty(old(self).service).push(
                service,
            ),
            final(self).updated is Some,
            final(self).same_but_services(*old(self)),
    {
        let now = now_millis();
        self.add_service_at(service, now)
    }

    /// Add a service endpoint, updated at `now`.
    pub fn add_service_at(&mut self, service: Service, now: i64)
        ensures
            final(self).service matches Some(v) && v@ == list_or_empty(old(self).service).push(
                service,
            ),
            final(self).updated == Some(now),
            final(self).same_but_services(*old(self)),
    {
        push_optional(&mut self.service, service);
        self.updated = Some(now);
    }

    /// A verification method's identifier fits the document: it is a DID
    /// or begins with the document's own.
    pub open spec fn method_fits(&self, method: VerificationMethod) -> bool {
        has_prefix(method.id@, self.id@) || has_prefix(method.id@, "did:"@)
    }

    /// What is wrong with the document's structure, if anything is.
    pub open spec fn fault(&self) -> Option<DidFault> {
        if !has_prefix(self.id@, "did:"@) {
            Some(DidFault::MissingPrefix)
        } else if !has_three_parts(self.id@) {
            Some(DidFault::TooFewParts)
        } else if exists|i: int|
            0 <= i < list_or_empty(self.verification_method).len() && !self.method_fits(
                #[trigger] list_or_empty(self.verification_method)[i],
            ) {
            Some(DidFault::ForeignMethodId)
        } else {
            None
        }
    }

    /// Validate the DID document structure.
    pub fn validate(&self) -> (r: Result<(), IdentityError>)
        ensures
            r == (match self.fault() {
                Some(fault) => Err::<(), IdentityError>(IdentityError::InvalidDid(fault)),
                None => Ok(()),
            }),
    {
        let id = self.id.as_str();
        if !starts_with(id, "did:") {
            return Err(IdentityError::InvalidDid(DidFault::MissingPrefix));
        }
        let n = id.unicode_len();
        let first = find_char(id, ':', 0);
        if first >= n {
            return Err(IdentityError::InvalidDid(DidFault::TooFewParts));
        }
        if find_char(id, ':', first + 1) >= n {
            return Err(IdentityError::InvalidDid(DidFault::TooFewParts));
        }
        if let Some(methods) = &self.verification_method {
            let mut i: usize = 0;
            while i < methods.len()
                invariant
                    i <= methods.len(),
                    id@ == self.id@,
                    has_prefix(self.id@, "did:"@),
                    has_three_parts(self.id@),
                    self.verification_method == Some(*methods),
                    forall|j: int| 0 <= j < i ==> self.method_fits(#[trigger] methods[j]),
                decreases methods.len() - i,
            {
                let method_id = methods[i].id.as_str();
                if !starts_with(method_id, id) && !starts_with(method_id, "did:") {
                    assert(!self.method_fits(list_or_empty(self.verification_method)[i as int]));
                    return Err(IdentityError::InvalidDid(DidFault::ForeignMethodId));
                }
                i += 1;
            }
        }
        Ok(())
    }

    /// Parse DID method from the DID string: the part after the first
    /// colon.
    pub fn get_method(&self) -> (r: Result<DidMethod, IdentityError>)
        ensures
            r.is_ok() <==> first_index_from(self.id@, ':', 0) < self.id@.len(),
            r matches Err(e) ==> e == IdentityError::InvalidDid(DidFault::TooFewParts),
            r matches Ok(method) ==> method.names(method_part(self.id@)),
    {
        let id = self.id.as_str();
        let n = id.unicode_len();
        let first = find_char(id, ':', 0);
        if first >= n {
            return Err(IdentityError::InvalidDid(DidFault::TooFewParts));
        }
        let second = find_char(id, ':', first + 1);
        let method = slice_text(id, first + 1, second);
        if str_eq(method.as_str(), "web") {
            Ok(DidMethod::Web)
        } else if str_eq(method.as_str(), "key") {
            Ok(DidMethod::Key)
        } else if str_eq(method.as_str(), "ethr") {
            Ok(DidMethod::Ethr)
        } else if str_eq(method.as_str(), "ion") {
            Ok(DidMethod::Ion)
        } else {
            Ok(DidMethod::Custom(method))
        }
    }
}

} // verus!
