//! The attestation coordinator: requests for attestation, the answers of
//! the attestors, and the decision that a quorum has approved.
//!
//! A request stays pending until enough attestors have approved it. Each
//! approval carries a partial signature over the credential's serialized
//! form. When the approvals reach the request's threshold the partial
//! signatures are combined, the result is handed out, and the request
//! leaves the pending set for good.
//!
//! Every operation that changes the coordinator takes it by exclusive
//! reference: counting the approvals of a request and completing it cannot
//! interleave with another answer being recorded. An operation that fails
//! leaves the coordinator as it was.

use vstd::prelude::*;
use crate::clock::{later, now_millis};
use crate::dictionary::Dictionary;
use crate::error::{AttestorError, Missing};
use crate::identity::error::IdentityError;
use crate::identity::utils::generate_id;
use crate::identity::vc::VerifiableCredential;
use crate::json::JsonValue;
use crate::text::texts;
use crate::threshold::{
    borrowed, KeyShare, PartialSignature, ThresholdPublicKey, ThresholdScheme, ThresholdSignature,
};
use crate::verifiers::Verifier;

verus! {

/// Attestation request for a credential. `credential_bytes` is the
/// credential's serialized form, which the attestors sign. Times are in
/// milliseconds since the Unix epoch.
#[derive(Debug, Clone)]
pub struct AttestationRequest {
    pub id: String,
    pub credential: VerifiableCredential,
    pub credential_bytes: Vec<u8>,
    pub required_attestors: Vec<String>,
    pub threshold: usize,
    pub created_at: i64,
    pub expires_at: Option<i64>,
}

/// Individual attestation from a verifier.
#[derive(Debug, Clone)]
pub struct Attestation {
    pub id: String,
    pub request_id: String,
    pub attestor_id: String,
    pub attestor_did: String,
    pub credential_id: String,
    pub status: AttestationStatus,
    pub partial_signature: Option<PartialSignature>,
    pub attestation_data: Dictionary<JsonValue>,
    pub created_at: i64,
    pub verified_claims: Vec<String>,
}

/// Status of an attestation.
#[derive(Debug, Clone, Copy, PartialEq, Eq, Structural)]
pub enum AttestationStatus {
    Pending,
    Approved,
    Rejected,
    Expired,
}

/// Complete attestation result with threshold signature.
#[derive(Debug, Clone)]
pub struct AttestationResult {
    pub request_id: String,
    pub credential_id: String,
    pub threshold_signature: Option<ThresholdSignature>,
    pub participating_attestors: Vec<String>,
    pub status: AttestationResultStatus,
    pub created_at: i64,
    pub metadata: Dictionary<JsonValue>,
}

/// Status of the overall attestation result.
#[derive(Debug, Clone, Copy, PartialEq, Eq, Structural)]
pub enum AttestationResultStatus {
    InProgress,
    Completed,
    Failed,
    Expired,
}

/// Attestation manager for coordinating multiparty attestations.
pub struct AttestationManager {
    pub threshold_scheme: ThresholdScheme,
    pub verifiers: Dictionary<Verifier>,
    pub key_shares: Dictionary<KeyShare>,
    pub threshold_public_key: ThresholdPublicKey,
    pub pending_requests: Dictionary<AttestationRequest>,
    pub attestations: Dictionary<Vec<Attestation>>,
}

/// How long a request stays open: 24 hours, in milliseconds.
pub const REQUEST_LIFETIME_MILLIS: i64 = 86_400_000;

impl AttestationRequest {
    /// The request's time window has passed at `now`.
    pub open spec fn expired_at(&self, now: i64) -> bool {
        self.expires_at matches Some(end) && now >= end
    }

    /// What is wrong with the request at `now`, if anything is: a
    /// threshold that its attestors cannot meet, a window that has passed,
    /// or a credential that is not valid.
    pub open spec fn fault_at(&self, now: i64) -> Option<AttestorError> {
        if self.threshold == 0 || self.threshold > self.required_attestors@.len() {
            Some(AttestorError::InvalidConfig)
        } else if self.expired_at(now) {
            Some(AttestorError::Expired)
        } else {
            match self.credential.fault_at(now) {
                Some(fault) => Some(
                    AttestorError::IdentityError(IdentityError::InvalidCredential(fault)),
                ),
                None => None,
            }
        }
    }

    /// A request as it is opened at `now`: open for 24 hours.
    pub open spec fn is_opened(
        &self,
        id: String,
        credential: VerifiableCredential,
        credential_bytes: Vec<u8>,
        required_attestors: Vec<String>,
        threshold: usize,
        now: i64,
    ) -> bool {
        &&& self.id == id
        &&& self.credential == credential
        &&& self.credential_bytes == credential_bytes
        &&& self.required_attestors == required_attestors
        &&& self.threshold == threshold
        &&& self.created_at == now
        &&& self.expires_at == Some(
            if now + REQUEST_LIFETIME_MILLIS > i64::MAX {
                i64::MAX
            } else {
                (now + REQUEST_LIFETIME_MILLIS) as i64
            },
        )
    }

    /// Create a new attestation request under a fresh identifier, opened
    /// now.
    pub fn new(
        credential: VerifiableCredential,
        credential_bytes: Vec<u8>,
        required_attestors: Vec<String>,
        threshold: usize,
    ) -> (request: Self)
        ensures
            exists|id: String, now: i64| #[trigger]
                request.is_opened(id, credential, credential_bytes, required_attestors, threshold, now),
    {
        let id = generate_id();
        let now = now_millis();
        let request = Self::opened_at(
            id,
            credential,
            credential_bytes,
            required_attestors,
            threshold,
            now,
        );
        assert(request.is_opened(id, credential, credential_bytes, required_attestors, threshold, now));
        request
    }

    /// Create a new attestation request under the given identifier,
    /// opened at `now`.
    pub fn opened_at(
        id: String,
        credential: VerifiableCredential,
        credential_bytes: Vec<u8>,
        required_attestors: Vec<String>,
        threshold: usize,
        now: i64,
    ) -> (request: Self)
        ensures
            request.is_opened(id, credential, credential_bytes, required_attestors, threshold, now),
    {
        Self {
            id,
            credential,
            credential_bytes,
            required_attestors,
            threshold,
            created_at: now,
            expires_at: Some(later(now, REQUEST_LIFETIME_MILLIS)),
        }
    }

    /// Check if the request has expired, as of now.
    pub fn is_expired(&self) -> (expired: bool)
        ensures
            exists|now: i64| expired == #[trigger] self.expired_at(now),
    {
        let now = now_millis();
        let expired = self.is_expired_at(now);
        assert(expired == self.expired_at(now));
        expired
    }

    /// Check if the request has expired, as of `now`.
    pub fn is_expired_at(&self, now: i64) -> (expired: bool)
        ensures
            expired == self.expired_at(now),
    {
        match self.expires_at {
            Some(end) => now >= end,
            None => false,
        }
    }

    /// What validating the request at `now` comes to.
    pub open spec fn outcome_at(&self, now: i64) -> Result<(), AttestorError> {
        match self.fault_at(now) {
            Some(e) => Err(e),
            None => Ok(()),
        }
    }

    /// Validate the attestation request, as of now.
    pub fn validate(&self) -> (r: Result<(), AttestorError>)
        ensures
            exists|now: i64| r == #[trigger] self.outcome_at(now),
    {
        let now = now_millis();
        let r = self.validate_at(now);
        assert(r == self.outcome_at(now));
        r
    }

    /// Validate the attestation request, as of `now`.
    pub fn validate_at(&self, now: i64) -> (r: Result<(), AttestorError>)
        ensures
            r == self.outcome_at(now),
    {
        if self.threshold == 0 || self.threshold > self.required_attestors.len() {
            return Err(AttestorError::InvalidConfig);
        }
        if self.is_expired_at(now) {
            return Err(AttestorError::Expired);
        }
        match self.credential.validate_at(now) {
            Ok(()) => Ok(()),
            Err(e) => Err(AttestorError::IdentityError(e)),
        }
    }
}

impl Attestation {
    /// An attestation as it is created: pending, without signature, data
    /// or claims.
    pub open spec fn is_new(
        &self,
        id: String,
        request_id: String,
        attestor_id: String,
        attestor_did: String,
        credential_id: String,
        now: i64,
    ) -> bool {
        &&& self.id == id
        &&& self.request_id == request_id
        &&& self.attestor_id == attestor_id
        &&& self.attestor_did == attestor_did
        &&& self.credential_id == credential_id
        &&& self.status == AttestationStatus::Pending
        &&& self.partial_signature is None
        &&& self.attestation_data@ == Map::<Seq<char>, JsonValue>::empty()
        &&& self.attestation_data.keys() == Seq::<Seq<char>>::empty()
        &&& self.created_at == now
        &&& self.verified_claims@.len() == 0
    }

    /// Create a new attestation under a fresh identifier, created now.
    pub fn new(
        request_id: String,
        attestor_id: String,
        attestor_did: String,
        credential_id: String,
    ) -> (attestation: Self)
        ensures
            exists|id: String, now: i64| #[trigger]
                attestation.is_new(id, request_id, attestor_id, attestor_did, credential_id, now),
    {
        let id = generate_id();
        let now = now_millis();
        let attestation = Self::new_at(id, request_id, attestor_id, attestor_did, credential_id, now);
        assert(attestation.is_new(id, request_id, attestor_id, attestor_did, credential_id, now));
        attestation
    }

    /// Create a new attestation under the given identifier, created at
    /// `now`.
    pub fn new_at(
        id: String,
        request_id: String,
        attestor_id: String,
        attestor_did: String,
        credential_id: String,
        now: i64,
    ) -> (attestation: Self)
        ensures
            attestation.is_new(id, request_id, attestor_id, attestor_did, credential_id, now),
    {
        Self {
            id,
            request_id,
            attestor_id,
            attestor_did,
            credential_id,
            status: AttestationStatus::Pending,
            partial_signature: None,
            attestation_data: Dictionary::new(),
            created_at: now,
            verified_claims: Vec::new(),
        }
    }

    /// Approve the attestation with a partial signature.
    pub fn approve(&mut self, partial_signature: PartialSignature, verified_claims: Vec<String>)
        ensures
            *final(self) == (Attestation {
                status: AttestationStatus::Approved,
                partial_signature: Some(partial_signature),
                verified_claims,
                ..*old(self)
            }),
    {
        self.status = AttestationStatus::Approved;
        self.partial_signature = Some(partial_signature);
        self.verified_claims = verified_claims;
    }

    /// Reject the attestation: the reason goes into the attestation's
    /// data under `rejection_reason`.
    pub fn reject(&mut self, reason: String)
        ensures
            final(self).status == AttestationStatus::Rejected,
            final(self).attestation_data@ == old(self).attestation_data@.insert(
                "rejection_reason"@,
                JsonValue::Text(reason),
            ),
            *final(self) == (Attestation {
                status: final(self).status,
                attestation_data: final(self).attestation_data,
                ..*old(self)
            }),
    {
        self.status = AttestationStatus::Rejected;
        self.attestation_data.insert("rejection_reason".to_owned(), JsonValue::Text(reason));
    }

    /// Add metadata to the attestation.
    pub fn add_metadata(&mut self, key: String, value: JsonValue)
        ensures
            final(self).attestation_data@ == old(self).attestation_data@.insert(key@, value),
            *final(self) == (Attestation {
                attestation_data: final(self).attestation_data,
                ..*old(self)
            }),
    {
        self.attestation_data.insert(key, value);
    }
}

/// The identifiers of verifiers, in order.
pub open spec fn verifier_ids(verifiers: Seq<Verifier>) -> Seq<Seq<char>> {
    Seq::new(verifiers.len(), |i: int| verifiers[i].id@)
}

/// No two verifiers share an identifier.
pub open spec fn distinct_ids(verifiers: Seq<Verifier>) -> bool {
    forall|i: int, j: int|
        0 <= i < j < verifiers.len() ==> (#[trigger] verifiers[i]).id@ != (#[trigger] verifiers[j]).id@
}

/// The partial signatures of the approved among the first `n`
/// attestations, in order.
pub open spec fn approved_signatures(list: Seq<Attestation>, n: nat) -> Seq<PartialSignature>
    decreases n,
{
    if n == 0 {
        Seq::empty()
    } else {
        let earlier = approved_signatures(list, (n - 1) as nat);
        let last = list[n - 1];
        if last.status == AttestationStatus::Approved && last.partial_signature is Some {
            earlier.push(last.partial_signature->0)
        } else {
            earlier
        }
    }
}

/// The attestors of the approved among the first `n` attestations, in
/// order.
pub open spec fn approved_attestors(list: Seq<Attestation>, n: nat) -> Seq<Seq<char>>
    decreases n,
{
    if n == 0 {
        Seq::empty()
    } else {
        let earlier = approved_attestors(list, (n - 1) as nat);
        if list[n - 1].status == AttestationStatus::Approved {
            earlier.push(list[n - 1].attestor_id@)
        } else {
            earlier
        }
    }
}

/// The reason that a rejected attestation carries.
pub open spec fn rejection_text() -> Seq<char> {
    "Attestor rejected the credential"@
}

impl AttestationManager {
    /// The manager holds `verifiers` under their identifiers, gives the
    /// first of them one key share each in order, and has no request yet.
    pub open spec fn is_set_up(
        &self,
        scheme: ThresholdScheme,
        key_shares: Seq<KeyShare>,
        public_key: ThresholdPublicKey,
        verifiers: Seq<Verifier>,
    ) -> bool {
        let assigned = if verifiers.len() < key_shares.len() {
            verifiers.len()
        } else {
            key_shares.len()
        };
        &&& self.threshold_scheme == scheme
        &&& self.threshold_public_key == public_key
        &&& self.verifiers.keys() == verifier_ids(verifiers)
        &&& self.verifiers.values() == verifiers
        &&& self.key_shares.keys() == verifier_ids(verifiers).take(assigned as int)
        &&& self.key_shares.values() == key_shares.take(assigned as int)
        &&& self.pending_requests@ == Map::<Seq<char>, AttestationRequest>::empty()
        &&& self.attestations@ == Map::<Seq<char>, Vec<Attestation>>::empty()
    }

    /// Create a new attestation manager: a fresh scheme, fresh key shares,
    /// and the verifiers as its parties. No two verifiers may share an
    /// identifier.
    pub fn new(threshold: usize, total_parties: usize, verifiers: Vec<Verifier>) -> (r: Result<
        Self,
        AttestorError,
    >)
        ensures
            r.is_ok() <==> 1 <= threshold <= total_parties && distinct_ids(verifiers@),
            r matches Err(e) ==> e == AttestorError::InvalidConfig,
            r matches Ok(manager) ==> manager.threshold_scheme.threshold == threshold
                && manager.threshold_scheme.total_parties == total_parties && exists|
                coeffs: Seq<int>,
                shares: Seq<KeyShare>,
            |
                #[trigger] manager.threshold_scheme.is_share_set(
                    coeffs,
                    shares,
                    manager.threshold_public_key,
                ) && manager.is_set_up(
                    manager.threshold_scheme,
                    shares,
                    manager.threshold_public_key,
                    verifiers@,
                ),
    {
        let threshold_scheme = match ThresholdScheme::new(threshold, total_parties) {
            Ok(scheme) => scheme,
            Err(e) => {
                return Err(e);
            },
        };
        let (key_shares, threshold_public_key) = match threshold_scheme.generate_key_shares() {
            Ok(generated) => generated,
            Err(e) => {
                return Err(e);
            },
        };
        let ghost shares = key_shares@;
        let ghost coeffs = choose|coeffs: Seq<int>|
            threshold_scheme.is_share_set(coeffs, shares, threshold_public_key);
        match Self::from_parts(threshold_scheme, key_shares, threshold_public_key, verifiers) {
            Ok(manager) => {
                assert(manager.threshold_scheme.is_share_set(
                    coeffs,
                    shares,
                    manager.threshold_public_key,
                ));
                assert(manager.is_set_up(
                    manager.threshold_scheme,
                    shares,
                    manager.threshold_public_key,
                    verifiers@,
                ));
                Ok(manager)
            },
            Err(e) => Err(e),
        }
    }

    /// Create an attestation manager for a scheme whose key shares are at
    /// hand. The verifiers get the shares in order, one each, as far as
    /// both last.
    #[verifier::loop_isolation(false)]
    pub fn from_parts(
        threshold_scheme: ThresholdScheme,
        key_shares: Vec<KeyShare>,
        threshold_public_key: ThresholdPublicKey,
        verifiers: Vec<Verifier>,
    ) -> (r: Result<Self, AttestorError>)
        ensures
            r.is_ok() <==> distinct_ids(verifiers@),
            r matches Err(e) ==> e == AttestorError::InvalidConfig,
            r matches Ok(manager) ==> manager.is_set_up(
                threshold_scheme,
                key_shares@,
                threshold_public_key,
                verifiers@,
            ),
    {
        let ghost all_verifiers = verifiers@;
        let ghost all_shares = key_shares@;
        assert(verifiers.len() == all_verifiers.len());
        let mut verifiers = verifiers;
        let mut key_shares = key_shares;
        let mut verifier_map: Dictionary<Verifier> = Dictionary::new();
        let mut key_share_map: Dictionary<KeyShare> = Dictionary::new();
        let mut i: usize = 0;
        while verifiers.len() > 0
            invariant
                all_verifiers.len() <= usize::MAX,
                i + verifiers.len() == all_verifiers.len(),
                verifiers@ == all_verifiers.skip(i as int),
                i <= all_shares.len() ==> key_shares@ == all_shares.skip(i as int),
                i > all_shares.len() ==> key_shares@.len() == 0,
                distinct_ids(all_verifiers.take(i as int)),
                verifier_map.keys() == verifier_ids(all_verifiers).take(i as int),
                verifier_map.values() == all_verifiers.take(i as int),
                key_share_map.keys() == verifier_ids(all_verifiers).take(
                    if i < all_shares.len() {
                        i as int
                    } else {
                        all_shares.len() as int
                    },
                ),
                key_share_map.values() == all_shares.take(
                    if i < all_shares.len() {
                        i as int
                    } else {
                        all_shares.len() as int
                    },
                ),
            decreases verifiers.len(),
        {
            let verifier = verifiers.remove(0);
            assert(verifier == all_verifiers[i as int]);
            if verifier_map.contains_key(verifier.id.as_str()) {
                proof {
                    let j = choose|j: int|
                        0 <= j < verifier_map.keys().len() && verifier_map.keys()[j] == verifier.id@;
                    assert(j < i);
                    assert(verifier_ids(all_verifiers)[j] == verifier.id@);
                    assert(all_verifiers[j].id@ == all_verifiers[i as int].id@);
                    assert(!distinct_ids(all_verifiers));
                }
                return Err(AttestorError::InvalidConfig);
            }
            proof {
                assert forall|a: int, b: int| 0 <= a < b < i + 1 implies (#[trigger] all_verifiers.take(
                    i + 1,
                )[a]).id@ != (#[trigger] all_verifiers.take(i + 1)[b]).id@ by {
                    if b == i {
                        assert(verifier_map.keys()[a] == all_verifiers[a].id@);
                        assert(verifier_map.keys().contains(all_verifiers[a].id@));
                    } else {
                        assert(all_verifiers.take(i as int)[a].id@ != all_verifiers.take(
                            i as int,
                        )[b].id@);
                    }
                }
            }
            if key_shares.len() > 0 {
                let share = key_shares.remove(0);
                proof {
                    assert(share == all_shares[i as int]);
                    if key_share_map.keys().contains(verifier.id@) {
                        let j = choose|j: int|
                            0 <= j < key_share_map.keys().len() && key_share_map.keys()[j]
                                == verifier.id@;
                        assert(verifier_map.keys()[j] == verifier.id@);
                    }
                }
                key_share_map.insert(verifier.id.clone(), share);
                proof {
                    assert(key_share_map.keys() =~= verifier_ids(all_verifiers).take(i + 1));
                    assert(key_share_map.values() =~= all_shares.take(i + 1));
                    assert(key_shares@ =~= all_shares.skip(i + 1));
                }
            }
            let ghost id = verifier.id@;
            verifier_map.insert(verifier.id.clone(), verifier);
            proof {
                assert(verifier_map.keys() =~= verifier_ids(all_verifiers).take(i + 1));
                assert(verifier_map.values() =~= all_verifiers.take(i + 1));
                assert(verifiers@ =~= all_verifiers.skip(i + 1));
            }
            i += 1;
        }
        proof {
            assert(all_verifiers.take(i as int) =~= all_verifiers);
            assert(verifier_ids(all_verifiers).take(i as int) =~= verifier_ids(all_verifiers));
        }
        Ok(
            Self {
                threshold_scheme,
                verifiers: verifier_map,
                key_shares: key_share_map,
                threshold_public_key,
                pending_requests: Dictionary::new(),
                attestations: Dictionary::new(),
            },
        )
    }

    /// Submit a new attestation request, as of now.
    pub fn submit_request(&mut self, request: AttestationRequest) -> (r: Result<String, AttestorError>)
        ensures
            exists|now: i64| #[trigger] final(self).submitted(*old(self), request, now, r),
    {
        let now = now_millis();
        let r = self.submit_request_at(request, now);
        assert(self.submitted(*old(self), request, now, r));
        r
    }

    /// `r` and the manager are what submitting `request` to the manager
    /// `before` at `now` comes to: the request is accepted, or an error
    /// says what is wrong with it and nothing has changed.
    pub open spec fn submitted(
        &self,
        before: Self,
        request: AttestationRequest,
        now: i64,
        r: Result<String, AttestorError>,
    ) -> bool {
        match r {
            Ok(id) => request.fault_at(now) is None && id@ == request.id@ && self.accepted(
                before,
                request,
            ),
            Err(e) => request.fault_at(now) == Some(e) && *self == before,
        }
    }

    /// The manager is `before` with `request` pending and no attestation
    /// for it.
    pub open spec fn accepted(&self, before: Self, request: AttestationRequest) -> bool {
        &&& self.pending_requests@ == before.pending_requests@.insert(request.id@, request)
        &&& self.attestations@.remove(request.id@) == before.attestations@.remove(request.id@)
        &&& self.attestations@.contains_key(request.id@)
        &&& self.attestations@[request.id@]@.len() == 0
        &&& self.pending_requests.keys() == (if before.pending_requests@.contains_key(request.id@) {
            before.pending_requests.keys()
        } else {
            before.pending_requests.keys().push(request.id@)
        })
        &&& self.attestations.keys() == (if before.attestations@.contains_key(request.id@) {
            before.attestations.keys()
        } else {
            before.attestations.keys().push(request.id@)
        })
        &&& self.threshold_scheme == before.threshold_scheme
        &&& self.verifiers == before.verifiers
        &&& self.key_shares == before.key_shares
        &&& self.threshold_public_key == before.threshold_public_key
    }

    /// Submit a new attestation request, as of `now`. A request that is
    /// not valid at `now` changes nothing.
    pub fn submit_request_at(&mut self, request: AttestationRequest, now: i64) -> (r: Result<
        String,
        AttestorError,
    >)
        ensures
            final(self).submitted(*old(self), request, now, r),
    {
        if let Err(e) = request.validate_at(now) {
            return Err(e);
        }
        let request_id = request.id.clone();
        self.pending_requests.insert(request_id.clone(), request);
        self.attestations.insert(request_id.clone(), Vec::new());
        proof {
            assert(self.attestations@.remove(request.id@) =~= old(self).attestations@.remove(
                request.id@,
            ));
        }
        Ok(request_id)
    }

    /// The attestations recorded for a request, none if it has no list.
    pub open spec fn attestations_of(&self, request_id: Seq<char>) -> Seq<Attestation> {
        if self.attestations@.contains_key(request_id) {
            self.attestations@[request_id]@
        } else {
            Seq::empty()
        }
    }

    /// The error that processing an attestation at `now` ends in, if it
    /// ends in one.
    pub open spec fn process_error(
        &self,
        request_id: Seq<char>,
        attestor_id: Seq<char>,
        approved: bool,
        now: i64,
    ) -> Option<AttestorError> {
        if !self.pending_requests@.contains_key(request_id) {
            Some(AttestorError::NotFound(Missing::Request))
        } else if self.pending_requests@[request_id].expired_at(now) {
            Some(AttestorError::Expired)
        } else if !self.verifiers@.contains_key(attestor_id) {
            Some(AttestorError::NotFound(Missing::Verifier))
        } else if !self.key_shares@.contains_key(attestor_id) {
            Some(AttestorError::NotFound(Missing::KeyShare))
        } else if approved && self.key_shares@[attestor_id].scheme_id@
            != self.threshold_scheme.scheme_id@ {
            Some(AttestorError::SchemeMismatch)
        } else if approved && !crate::field::is_canonical_scalar(
            self.key_shares@[attestor_id].private_share@,
        ) {
            Some(AttestorError::CryptoError)
        } else {
            None
        }
    }

    /// What processing an attestation at `now` comes to.
    pub open spec fn process_outcome(
        &self,
        request_id: Seq<char>,
        attestor_id: Seq<char>,
        approved: bool,
        now: i64,
    ) -> Result<(), AttestorError> {
        match self.process_error(request_id, attestor_id, approved, now) {
            Some(e) => Err(e),
            None => Ok(()),
        }
    }

    /// `attestation` is the record of the attestor's answer: approved with
    /// the attestor's partial signature over the credential and the
    /// verified claims, or rejected with the reason among its data.
    pub open spec fn records(
        &self,
        attestation: Attestation,
        request_id: Seq<char>,
        attestor_id: Seq<char>,
        approved: bool,
        verified_claims: Vec<String>,
        metadata: Dictionary<JsonValue>,
        attestation_id: String,
        now: i64,
    ) -> bool {
        let request = self.pending_requests@[request_id];
        &&& attestation.id == attestation_id
        &&& attestation.request_id@ == request_id
        &&& attestation.attestor_id@ == attestor_id
        &&& attestation.attestor_did@ == self.verifiers@[attestor_id].did@
        &&& attestation.credential_id@ == request.credential.id@
        &&& attestation.created_at == now
        &&& if approved {
            &&& attestation.status == AttestationStatus::Approved
            &&& attestation.partial_signature matches Some(signature)
                && self.threshold_scheme.signs(
                request.credential_bytes@,
                self.key_shares@[attestor_id],
                signature,
            )
            &&& attestation.verified_claims == verified_claims
            &&& attestation.attestation_data == metadata
        } else {
            &&& attestation.status == AttestationStatus::Rejected
            &&& attestation.partial_signature is None
            &&& attestation.verified_claims@.len() == 0
            &&& attestation.attestation_data@ == metadata@.insert(
                "rejection_reason"@,
                JsonValue::Text(attestation.attestation_data@["rejection_reason"@]->Text_0),
            )
            &&& attestation.attestation_data@["rejection_reason"@] matches JsonValue::Text(reason)
                && reason@ == rejection_text()
        }
    }

    /// The manager is `before` with one more attestation for the request.
    pub open spec fn recorded(&self, before: Self, request_id: Seq<char>) -> bool {
        &&& self.attestations@.remove(request_id) == before.attestations@.remove(request_id)
        &&& self.attestations@.contains_key(request_id)
        &&& self.attestations@[request_id]@.len() == before.attestations_of(request_id).len() + 1
        &&& self.attestations@[request_id]@.drop_last() == before.attestations_of(request_id)
        &&& self.attestations.keys() == (if before.attestations@.contains_key(request_id) {
            before.attestations.keys()
        } else {
            before.attestations.keys().push(request_id)
        })
        &&& self.threshold_scheme == before.threshold_scheme
        &&& self.verifiers == before.verifiers
        &&& self.key_shares == before.key_shares
        &&& self.threshold_public_key == before.threshold_public_key
        &&& self.pending_requests == before.pending_requests
    }

    /// Process an attestation from a verifier, as of now and under a
    /// fresh identifier.
    pub fn process_attestation(
        &mut self,
        request_id: &str,
        attestor_id: &str,
        approved: bool,
        verified_claims: Vec<String>,
        metadata: Dictionary<JsonValue>,
    ) -> (r: Result<(), AttestorError>)
        ensures
            exists|attestation_id: String, now: i64| #[trigger]
                final(self).processed(
                    *old(self),
                    request_id@,
                    attestor_id@,
                    approved,
                    verified_claims,
                    metadata,
                    attestation_id,
                    now,
                    r,
                ),
    {
        let now = now_millis();
        let attestation_id = generate_id();
        let r = self.process_attestation_at(
            request_id,
            attestor_id,
            approved,
            verified_claims,
            metadata,
            attestation_id,
            now,
        );
        assert(self.processed(
            *old(self),
            request_id@,
            attestor_id@,
            approved,
            verified_claims,
            metadata,
            attestation_id,
            now,
            r,
        ));
        r
    }

    /// `r` and the manager are what processing the attestor's answer by
    /// the manager `before` at `now` comes to: the answer is on record as
    /// the request's last attestation, or an error says why not and
    /// nothing has changed.
    pub open spec fn processed(
        &self,
        before: Self,
        request_id: Seq<char>,
        attestor_id: Seq<char>,
        approved: bool,
        verified_claims: Vec<String>,
        metadata: Dictionary<JsonValue>,
        attestation_id: String,
        now: i64,
        r: Result<(), AttestorError>,
    ) -> bool {
        &&& r == before.process_outcome(request_id, attestor_id, approved, now)
        &&& r is Err ==> *self == before
        &&& r is Ok ==> self.recorded(before, request_id) && before.records(
            self.attestations@[request_id]@.last(),
            request_id,
            attestor_id,
            approved,
            verified_claims,
            metadata,
            attestation_id,
            now,
        )
    }

    /// Process an attestation from a verifier: the attestor's answer to a
    /// pending request, recorded at `now` under the given identifier. On
    /// approval the attestor's key share signs the credential. An error
    /// changes nothing.
    pub fn process_attestation_at(
        &mut self,
        request_id: &str,
        attestor_id: &str,
        approved: bool,
        verified_claims: Vec<String>,
        metadata: Dictionary<JsonValue>,
        attestation_id: String,
        now: i64,
    ) -> (r: Result<(), AttestorError>)
        ensures
            final(self).processed(
                *old(self),
                request_id@,
                attestor_id@,
                approved,
                verified_claims,
                metadata,
                attestation_id,
                now,
                r,
            ),
    {
        let request = match self.pending_requests.get(request_id) {
            Some(request) => request,
            None => {
                return Err(AttestorError::NotFound(Missing::Request));
            },
        };
        if request.is_expired_at(now) {
            return Err(AttestorError::Expired);
        }
        let verifier = match self.verifiers.get(attestor_id) {
            Some(verifier) => verifier,
            None => {
                return Err(AttestorError::NotFound(Missing::Verifier));
            },
        };
        let key_share = match self.key_shares.get(attestor_id) {
            Some(key_share) => key_share,
            None => {
                return Err(AttestorError::NotFound(Missing::KeyShare));
            },
        };
        let mut attestation = Attestation::new_at(
            attestation_id,
            request_id.to_owned(),
            attestor_id.to_owned(),
            verifier.did.clone(),
            request.credential.id.clone(),
            now,
        );
        attestation.attestation_data = metadata;
        if approved {
            let partial_signature = match self.threshold_scheme.partial_sign(
                request.credential_bytes.as_slice(),
                key_share,
            ) {
                Ok(signature) => signature,
                Err(e) => {
                    return Err(e);
                },
            };
            attestation.approve(partial_signature, verified_claims);
        } else {
            attestation.reject("Attestor rejected the credential".to_owned());
        }
        let position = match self.attestations.position_of(request_id) {
            Some(position) => position,
            None => self.attestations.len(),
        };
        let mut list = match self.attestations.remove(request_id) {
            Some(list) => list,
            None => Vec::new(),
        };
        let ghost record = attestation;
        list.push(attestation);
        let ghost without = self.attestations;
        assert(without.place(position) == position);
        self.attestations.insert_at(position, request_id.to_owned(), list);
        proof {
            if old(self).attestations@.contains_key(request_id@) {
                assert(self.attestations.keys() =~= old(self).attestations.keys());
            } else {
                assert(self.attestations.keys() =~= old(self).attestations.keys().push(request_id@));
            }
            assert(self.attestations@.remove(request_id@) =~= old(self).attestations@.remove(
                request_id@,
            ));
            assert(self.attestations@[request_id@]@.drop_last() =~= old(self).attestations_of(
                request_id@,
            ));
            assert(self.attestations@[request_id@]@.last() == record);
        }
        Ok(())
    }

    /// The approvals for a request have reached its threshold.
    pub open spec fn quorum_met(&self, request_id: Seq<char>) -> bool {
        let list = self.attestations_of(request_id);
        approved_attestors(list, list.len()).len() >= self.pending_requests@[request_id].threshold
    }

    /// The error that an attempt to complete a request at `now` ends in,
    /// if it ends in one.
    pub open spec fn completion_error(&self, request_id: Seq<char>, now: i64) -> Option<AttestorError> {
        let list = self.attestations_of(request_id);
        if !self.pending_requests@.contains_key(request_id) {
            Some(AttestorError::NotFound(Missing::Request))
        } else if self.pending_requests@[request_id].expired_at(now) {
            Some(AttestorError::Expired)
        } else if !self.quorum_met(request_id) {
            None
        } else {
            self.threshold_scheme.combine_error(approved_signatures(list, list.len()))
        }
    }

    /// `result` is the completion of the request at `now`: the combined
    /// signature of its approvals, their attestors, and the count of all
    /// attestations so far.
    pub open spec fn completes(&self, request_id: Seq<char>, now: i64, result: AttestationResult) -> bool {
        let list = self.attestations_of(request_id);
        &&& result.request_id@ == request_id
        &&& result.credential_id@ == self.pending_requests@[request_id].credential.id@
        &&& result.threshold_signature matches Some(signature) && self.threshold_scheme.combines(
            approved_signatures(list, list.len()),
            signature,
        )
        &&& texts(result.participating_attestors@) == approved_attestors(list, list.len())
        &&& result.status == AttestationResultStatus::Completed
        &&& result.created_at == now
        &&& result.metadata.keys() == seq!["threshold_met"@, "total_attestations"@]
        &&& result.metadata.values().len() == 2
        &&& result.metadata.values()[0] matches JsonValue::Bool(met) && met
        &&& result.metadata.values()[1] matches JsonValue::Unsigned(total) && total == list.len()
    }

    /// The manager is `before` without the request among the pending.
    pub open spec fn completed(&self, before: Self, request_id: Seq<char>) -> bool {
        &&& self.pending_requests@ == before.pending_requests@.remove(request_id)
        &&& self.pending_requests.keys() == before.pending_requests.keys().remove(
            before.pending_requests.position(request_id),
        )
        &&& self.attestations == before.attestations
        &&& self.threshold_scheme == before.threshold_scheme
        &&& self.verifiers == before.verifiers
        &&& self.key_shares == before.key_shares
        &&& self.threshold_public_key == before.threshold_public_key
    }

    /// Check if threshold is met and combine signatures, as of now.
    pub fn try_complete_attestation(&mut self, request_id: &str) -> (r: Result<
        Option<AttestationResult>,
        AttestorError,
    >)
        ensures
            exists|now: i64| #[trigger] final(self).attempted(*old(self), request_id@, now, r),
    {
        let now = now_millis();
        let r = self.try_complete_attestation_at(request_id, now);
        assert(self.attempted(*old(self), request_id@, now, r));
        r
    }

    /// `r` and the manager are what an attempt by the manager `before` to
    /// complete the request at `now` comes to: an error and no change;
    /// nothing and no change, below the threshold; or the completion, and
    /// the request no longer pending.
    pub open spec fn attempted(
        &self,
        before: Self,
        request_id: Seq<char>,
        now: i64,
        r: Result<Option<AttestationResult>, AttestorError>,
    ) -> bool {
        match r {
            Err(e) => before.completion_error(request_id, now) == Some(e) && *self == before,
            Ok(None) => before.completion_error(request_id, now) is None && !before.quorum_met(
                request_id,
            ) && *self == before,
            Ok(Some(result)) => before.completion_error(request_id, now) is None
                && before.quorum_met(request_id) && before.completes(request_id, now, result)
                && self.completed(before, request_id),
        }
    }

    /// Check if threshold is met and combine signatures, as of `now`.
    /// Below the threshold nothing happens. At the threshold the approved
    /// partial signatures are combined and the request leaves the pending
    /// set, so that a later call for it finds no request. An error changes
    /// nothing.
    pub fn try_complete_attestation_at(&mut self, request_id: &str, now: i64) -> (r: Result<
        Option<AttestationResult>,
        AttestorError,
    >)
        ensures
            final(self).attempted(*old(self), request_id@, now, r),
    {
        let request = match self.pending_requests.get(request_id) {
            Some(request) => request,
            None => {
                return Err(AttestorError::NotFound(Missing::Request));
            },
        };
        if request.is_expired_at(now) {
            return Err(AttestorError::Expired);
        }
        let threshold = request.threshold;
        let credential_id = request.credential.id.clone();
        let ghost all = self.attestations_of(request_id@);
        let mut partial_signatures: Vec<&PartialSignature> = Vec::new();
        let mut participating_attestors: Vec<String> = Vec::new();
        let mut total: usize = 0;
        if let Some(attestations) = self.attestations.get(request_id) {
            total = attestations.len();
            let mut i: usize = 0;
            while i < attestations.len()
                invariant
                    i <= attestations.len(),
                    attestations@ == all,
                    borrowed(partial_signatures@) == approved_signatures(all, i as nat),
                    texts(participating_attestors@) == approved_attestors(all, i as nat),
                decreases attestations.len() - i,
            {
                let attestation = &attestations[i];
                let ghost signatures_before = borrowed(partial_signatures@);
                let ghost attestors_before = texts(participating_attestors@);
                if attestation.status == AttestationStatus::Approved {
                    if let Some(signature) = &attestation.partial_signature {
                        partial_signatures.push(signature);
                        assert(borrowed(partial_signatures@) =~= signatures_before.push(*signature));
                    }
                    participating_attestors.push(attestation.attestor_id.clone());
                    assert(texts(participating_attestors@) =~= attestors_before.push(
                        attestation.attestor_id@,
                    ));
                }
                i += 1;
            }
        }
        if participating_attestors.len() < threshold {
            return Ok(None);
        }
        let threshold_signature = match self.threshold_scheme.combine_borrowed(&partial_signatures) {
            Ok(signature) => signature,
            Err(e) => {
                return Err(e);
            },
        };
        let mut metadata: Dictionary<JsonValue> = Dictionary::new();
        proof {
            reveal_strlit("threshold_met");
            reveal_strlit("total_attestations");
            assert("threshold_met"@.len() == 13 && "total_attestations"@.len() == 18);
        }
        metadata.insert("threshold_met".to_owned(), JsonValue::Bool(true));
        assert(metadata.keys() =~= seq!["threshold_met"@]);
        assert(!metadata.keys().contains("total_attestations"@));
        metadata.insert("total_attestations".to_owned(), JsonValue::Unsigned(total as u64));
        assert(metadata.keys() =~= seq!["threshold_met"@, "total_attestations"@]);
        let result = AttestationResult {
            request_id: request_id.to_owned(),
            credential_id,
            threshold_signature: Some(threshold_signature),
            participating_attestors,
            status: AttestationResultStatus::Completed,
            created_at: now,
            metadata,
        };
        self.pending_requests.remove(request_id);
        Ok(Some(result))
    }

    /// Get attestation status: how many attestations for the request are
    /// approved, and how many there are.
    pub fn get_attestation_status(&self, request_id: &str) -> (r: Option<(usize, usize)>)
        ensures
            r.is_some() <==> self.attestations@.contains_key(request_id@),
            r matches Some((approved, total)) ==> total == self.attestations_of(request_id@).len()
                && approved == approved_attestors(
                self.attestations_of(request_id@),
                self.attestations_of(request_id@).len(),
            ).len(),
    {
        match self.attestations.get(request_id) {
            Some(attestations) => {
                let mut approved: usize = 0;
                let mut i: usize = 0;
                while i < attestations.len()
                    invariant
                        i <= attestations.len(),
                        approved <= i,
                        approved == approved_attestors(attestations@, i as nat).len(),
                    decreases attestations.len() - i,
                {
                    if attestations[i].status == AttestationStatus::Approved {
                        approved += 1;
                    }
                    i += 1;
                }
                Some((approved, attestations.len()))
            },
            None => None,
        }
    }

    /// Verify a completed attestation result against the credential's
    /// serialized form. A result without a signature verifies as `false`.
    pub fn verify_attestation_result(&self, result: &AttestationResult, credential_bytes: &[u8]) -> (r:
        Result<bool, AttestorError>)
        ensures
            result.threshold_signature is None ==> r == Ok::<bool, AttestorError>(false),
            result.threshold_signature matches Some(signature) ==> {
                &&& r.is_ok() <==> signature.scheme_id@ == self.threshold_scheme.scheme_id@
                    && self.threshold_public_key.scheme_id@ == self.threshold_scheme.scheme_id@
                &&& r matches Err(e) ==> e == AttestorError::SchemeMismatch
                &&& r matches Ok(valid) ==> valid == self.threshold_scheme.accepts(
                    credential_bytes@,
                    signature,
                    self.threshold_public_key,
                )
            },
    {
        match &result.threshold_signature {
            Some(signature) => self.threshold_scheme.verify_signature(
                credential_bytes,
                signature,
                &self.threshold_public_key,
            ),
            None => Ok(false),
        }
    }
}

/// A request that has been completed is gone for good: another attempt to
/// complete it, or another attestation for it, finds no request.
pub proof fn lemma_completed_once(
    before: AttestationManager,
    after: AttestationManager,
    request_id: Seq<char>,
    attestor_id: Seq<char>,
    approved: bool,
    now: i64,
)
    requires
        after.completed(before, request_id),
    ensures
        after.completion_error(request_id, now) == Some(AttestorError::NotFound(Missing::Request)),
        after.process_error(request_id, attestor_id, approved, now) == Some(
            AttestorError::NotFound(Missing::Request),
        ),
{
}

/// A request whose window has passed is never accepted.
pub proof fn lemma_expired_request_rejected(request: AttestationRequest, now: i64)
    requires
        1 <= request.threshold <= request.required_attestors@.len(),
        request.expired_at(now),
    ensures
        request.outcome_at(now) == Err::<(), AttestorError>(AttestorError::Expired),
{
}

} // verus!
