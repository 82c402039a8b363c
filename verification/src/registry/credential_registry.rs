//! Credential registry: which credentials are on record, how far their
//! attestation has come, and which are revoked.

use vstd::prelude::*;
use crate::clock::now_millis;
use crate::dictionary::Dictionary;
use crate::text::str_eq;

verus! {

/// Credential registry entry stored on-chain. Times are in milliseconds
/// since the Unix epoch.
#[derive(Debug, Clone)]
pub struct CredentialRegistryEntry {
    pub credential_id: String,
    pub credential_hash: String,
    pub issuer_did: String,
    pub subject_did: Option<String>,
    pub schema_id: Option<String>,
    pub issued_at: i64,
    pub expires_at: Option<i64>,
    pub status: CredentialStatus,
    pub revocation_reason: Option<String>,
    pub attestation_count: u32,
    pub required_attestations: u32,
    pub metadata: Dictionary<String>,
}

/// Status of a credential.
#[derive(Debug, Clone, Copy, PartialEq, Eq, Structural)]
pub enum CredentialStatus {
    /// Waiting for attestations.
    Pending,
    /// Fully attested and valid.
    Active,
    /// Revoked by issuer.
    Revoked,
    /// Past expiration date.
    Expired,
    /// Temporarily suspended.
    Suspended,
}

/// Revocation entry.
#[derive(Debug, Clone)]
pub struct RevocationEntry {
    pub credential_id: String,
    pub revoked_at: i64,
    pub revoked_by: String,
    pub reason: String,
    pub revocation_list_hash: Option<String>,
}

/// Credential registry for managing credentials on-chain.
pub struct CredentialRegistry {
    entries: Dictionary<CredentialRegistryEntry>,
    revocations: Dictionary<RevocationEntry>,
    schema_registry: Dictionary<String>,
}

/// Why the registry refused a change.
#[derive(Debug, Clone, Copy, PartialEq, Eq, Structural)]
pub enum CredentialRegistryFault {
    AlreadyExists,
    NotFound,
    NotPending,
    AlreadyRevoked,
    SchemaExists,
}

impl CredentialRegistryFault {
    /// The fault in words.
    pub open spec fn message(&self) -> Seq<char> {
        match self {
            CredentialRegistryFault::AlreadyExists => "Credential already exists"@,
            CredentialRegistryFault::NotFound => "Credential not found"@,
            CredentialRegistryFault::NotPending => "Credential is not pending attestation"@,
            CredentialRegistryFault::AlreadyRevoked => "Credential already revoked"@,
            CredentialRegistryFault::SchemaExists => "Schema already exists"@,
        }
    }

    /// The fault in words.
    pub fn to_text(&self) -> (text: String)
        ensures
            text@ == self.message(),
    {
        match self {
            CredentialRegistryFault::AlreadyExists => "Credential already exists".to_owned(),
            CredentialRegistryFault::NotFound => "Credential not found".to_owned(),
            CredentialRegistryFault::NotPending => "Credential is not pending attestation".to_owned(),
            CredentialRegistryFault::AlreadyRevoked => "Credential already revoked".to_owned(),
            CredentialRegistryFault::SchemaExists => "Schema already exists".to_owned(),
        }
    }
}

/// The entries among the first `n` that `issuer` issued, in order.
pub open spec fn issued_by(
    entries: Seq<CredentialRegistryEntry>,
    issuer: Seq<char>,
    n: nat,
) -> Seq<CredentialRegistryEntry>
    decreases n,
{
    if n == 0 {
        Seq::empty()
    } else {
        let earlier = issued_by(entries, issuer, (n - 1) as nat);
        if entries[n - 1].issuer_did@ == issuer {
            earlier.push(entries[n - 1])
        } else {
            earlier
        }
    }
}

/// The entries among the first `n` whose subject is `subject`, in order.
pub open spec fn held_by(
    entries: Seq<CredentialRegistryEntry>,
    subject: Seq<char>,
    n: nat,
) -> Seq<CredentialRegistryEntry>
    decreases n,
{
    if n == 0 {
        Seq::empty()
    } else {
        let earlier = held_by(entries, subject, (n - 1) as nat);
        if entries[n - 1].subject_did matches Some(s) && s@ == subject {
            earlier.push(entries[n - 1])
        } else {
            earlier
        }
    }
}

/// The entries behind a list of references.
pub open spec fn referenced(held: Seq<&CredentialRegistryEntry>) -> Seq<CredentialRegistryEntry> {
    Seq::new(held.len(), |i: int| *held[i])
}

/// The status that an entry shows at `now`: expired once its time has
/// passed, its recorded status before.
pub open spec fn status_at(entry: CredentialRegistryEntry, now: i64) -> CredentialStatus {
    if entry.expires_at matches Some(end) && now > end {
        CredentialStatus::Expired
    } else {
        entry.status
    }
}

/// The count after one more attestation.
pub open spec fn counted_up(count: u32) -> u32 {
    if count < u32::MAX {
        (count + 1) as u32
    } else {
        count
    }
}

impl CredentialRegistry {
    /// The registered credentials.
    pub closed spec fn view(&self) -> Map<Seq<char>, CredentialRegistryEntry> {
        self.entries@
    }

    /// The entries in the order of their registration.
    pub closed spec fn listing(&self) -> Seq<CredentialRegistryEntry> {
        self.entries.values()
    }

    /// The position of the entry of the credential in the listing.
    pub closed spec fn rank(&self, credential_id: Seq<char>) -> int {
        self.entries.position(credential_id)
    }

    /// The revocations on record.
    pub closed spec fn revocations(&self) -> Map<Seq<char>, RevocationEntry> {
        self.revocations@
    }

    /// The registered schemas and their hashes.
    pub closed spec fn schemas(&self) -> Map<Seq<char>, String> {
        self.schema_registry@
    }

    /// Create a new credential registry.
    pub fn new() -> (registry: Self)
        ensures
            registry@ == Map::<Seq<char>, CredentialRegistryEntry>::empty(),
            registry.revocations() == Map::<Seq<char>, RevocationEntry>::empty(),
            registry.schemas() == Map::<Seq<char>, String>::empty(),
            registry.listing().len() == 0,
    {
        Self {
            entries: Dictionary::new(),
            revocations: Dictionary::new(),
            schema_registry: Dictionary::new(),
        }
    }

    /// An entry as it is registered at `now`: pending if it needs
    /// attestations, active if it needs none.
    pub open spec fn is_registered(
        entry: CredentialRegistryEntry,
        credential_id: String,
        credential_hash: String,
        issuer_did: String,
        subject_did: Option<String>,
        schema_id: Option<String>,
        expires_at: Option<i64>,
        required_attestations: u32,
        now: i64,
    ) -> bool {
        &&& entry.credential_id@ == credential_id@
        &&& entry.credential_hash == credential_hash
        &&& entry.issuer_did == issuer_did
        &&& entry.subject_did == subject_did
        &&& entry.schema_id == schema_id
        &&& entry.issued_at == now
        &&& entry.expires_at == expires_at
        &&& entry.status == (if required_attestations > 0 {
            CredentialStatus::Pending
        } else {
            CredentialStatus::Active
        })
        &&& entry.revocation_reason is None
        &&& entry.attestation_count == 0
        &&& entry.required_attestations == required_attestations
        &&& entry.metadata@ == Map::<Seq<char>, String>::empty()
    }

    /// Register a new credential, as of now.
    pub fn register_credential(
        &mut self,
        credential_id: String,
        credential_hash: String,
        issuer_did: String,
        subject_did: Option<String>,
        schema_id: Option<String>,
        expires_at: Option<i64>,
        required_attestations: u32,
    ) -> (r: Result<(), String>)
        ensures
            r.is_ok() <==> !old(self)@.contains_key(credential_id@),
            r matches Err(e) ==> e@ == CredentialRegistryFault::AlreadyExists.message(),
            r is Err ==> final(self)@ == old(self)@ && final(self).listing() == old(self).listing(),
            final(self).revocations() == old(self).revocations(),
            final(self).schemas() == old(self).schemas(),
            r is Ok ==> final(self).listing() == old(self).listing().push(
                final(self)@[credential_id@],
            ),
            r is Ok ==> final(self)@ == old(self)@.insert(credential_id@, final(self)@[credential_id@])
                && exists|now: i64| #[trigger]
                Self::is_registered(
                    final(self)@[credential_id@],
                    credential_id,
                    credential_hash,
                    issuer_did,
                    subject_did,
                    schema_id,
                    expires_at,
                    required_attestations,
                    now,
                ),
    {
        let now = now_millis();
        match self.register_credential_at(
            credential_id,
            credential_hash,
            issuer_did,
            subject_did,
            schema_id,
            expires_at,
            required_attestations,
            now,
        ) {
            Ok(()) => {
                assert(Self::is_registered(
                    self@[credential_id@],
                    credential_id,
                    credential_hash,
                    issuer_did,
                    subject_did,
                    schema_id,
                    expires_at,
                    required_attestations,
                    now,
                ));
                Ok(())
            },
            Err(fault) => Err(fault.to_text()),
        }
    }

    /// Register a new credential, as of `now`. A credential that is
    /// registered already is refused.
    pub fn register_credential_at(
        &mut self,
        credential_id: String,
        credential_hash: String,
        issuer_did: String,
        subject_did: Option<String>,
        schema_id: Option<String>,
        expires_at: Option<i64>,
        required_attestations: u32,
        now: i64,
    ) -> (r: Result<(), CredentialRegistryFault>)
        ensures
            r.is_ok() <==> !old(self)@.contains_key(credential_id@),
            r matches Err(e) ==> e == CredentialRegistryFault::AlreadyExists,
            r is Err ==> final(self)@ == old(self)@ && final(self).listing() == old(self).listing(),
            final(self).revocations() == old(self).revocations(),
            final(self).schemas() == old(self).schemas(),
            r is Ok ==> final(self).listing() == old(self).listing().push(
                final(self)@[credential_id@],
            ),
            r is Ok ==> final(self)@ == old(self)@.insert(credential_id@, final(self)@[credential_id@])
                && Self::is_registered(
                final(self)@[credential_id@],
                credential_id,
                credential_hash,
                issuer_did,
                subject_did,
                schema_id,
                expires_at,
                required_attestations,
                now,
            ),
    {
        if self.entries.contains_key(credential_id.as_str()) {
            return Err(CredentialRegistryFault::AlreadyExists);
        }
        let entry = CredentialRegistryEntry {
            credential_id: credential_id.clone(),
            credential_hash,
            issuer_did,
            subject_did,
            schema_id,
            issued_at: now,
            expires_at,
            status: if required_attestations > 0 {
                CredentialStatus::Pending
            } else {
                CredentialStatus::Active
            },
            revocation_reason: None,
            attestation_count: 0,
            required_attestations,
            metadata: Dictionary::new(),
        };
        self.entries.insert(credential_id, entry);
        proof {
            assert(self@ =~= old(self)@.insert(credential_id@, self@[credential_id@]));
        }
        Ok(())
    }

    /// Why an attestation for the credential is refused, if it is.
    pub open spec fn attestation_fault(&self, credential_id: Seq<char>) -> Option<
        CredentialRegistryFault,
    > {
        if !self@.contains_key(credential_id) {
            Some(CredentialRegistryFault::NotFound)
        } else if self@[credential_id].status != CredentialStatus::Pending {
            Some(CredentialRegistryFault::NotPending)
        } else {
            None
        }
    }

    /// An entry after one more attestation: counted, and active once the
    /// count reaches what is required.
    pub open spec fn attested(entry: CredentialRegistryEntry) -> CredentialRegistryEntry {
        CredentialRegistryEntry {
            attestation_count: counted_up(entry.attestation_count),
            status: if counted_up(entry.attestation_count) >= entry.required_attestations {
                CredentialStatus::Active
            } else {
                entry.status
            },
            ..entry
        }
    }

    /// Add attestation to a credential that is pending.
    pub fn add_attestation(&mut self, credential_id: &str) -> (r: Result<(), String>)
        ensures
            r.is_ok() <==> old(self).attestation_fault(credential_id@) is None,
            r matches Err(e) ==> (old(self).attestation_fault(credential_id@) matches Some(fault) && e@
                == fault.message()),
            r is Err ==> final(self)@ == old(self)@ && final(self).listing() == old(self).listing(),
            r is Ok ==> final(self)@ == old(self)@.insert(
                credential_id@,
                Self::attested(old(self)@[credential_id@]),
            ),
            r is Ok ==> final(self).listing() == old(self).listing().update(
                old(self).rank(credential_id@),
                Self::attested(old(self)@[credential_id@]),
            ),
            final(self).revocations() == old(self).revocations(),
            final(self).schemas() == old(self).schemas(),
    {
        match self.entries.get(credential_id) {
            None => {
                return Err(CredentialRegistryFault::NotFound.to_text());
            },
            Some(entry) => {
                if entry.status != CredentialStatus::Pending {
                    return Err(CredentialRegistryFault::NotPending.to_text());
                }
            },
        }
        let position = self.entries.position_of(credential_id).unwrap();
        let mut entry = self.entries.remove(credential_id).unwrap();
        if entry.attestation_count < u32::MAX {
            entry.attestation_count += 1;
        }
        if entry.attestation_count >= entry.required_attestations {
            entry.status = CredentialStatus::Active;
        }
        let ghost changed = entry;
        let ghost without = self.entries;
        assert(without.place(position) == position);
        self.entries.insert_at(position, credential_id.to_owned(), entry);
        proof {
            assert(self@ =~= old(self)@.insert(credential_id@, changed));
            assert(self.listing() =~= old(self).listing().update(position as int, changed));
        }
        Ok(())
    }

    /// Why a revocation of the credential is refused, if it is.
    pub open spec fn revocation_fault(&self, credential_id: Seq<char>) -> Option<
        CredentialRegistryFault,
    > {
        if !self@.contains_key(credential_id) {
            Some(CredentialRegistryFault::NotFound)
        } else if self@[credential_id].status == CredentialStatus::Revoked {
            Some(CredentialRegistryFault::AlreadyRevoked)
        } else {
            None
        }
    }

    /// The registry is `before` with the credential revoked at `now`.
    pub open spec fn revoked(
        &self,
        before: Self,
        credential_id: Seq<char>,
        revoked_by: String,
        reason: String,
        now: i64,
    ) -> bool {
        &&& self@ == before@.insert(credential_id, self@[credential_id])
        &&& self.listing() == before.listing().update(before.rank(credential_id), self@[credential_id])
        &&& self@[credential_id].status == CredentialStatus::Revoked
        &&& (self@[credential_id].revocation_reason matches Some(r) && r@ == reason@)
        &&& self@[credential_id] == (CredentialRegistryEntry {
            status: self@[credential_id].status,
            revocation_reason: self@[credential_id].revocation_reason,
            ..before@[credential_id]
        })
        &&& self.revocations() == before.revocations().insert(
            credential_id,
            self.revocations()[credential_id],
        )
        &&& self.revocations()[credential_id].credential_id@ == credential_id
        &&& self.revocations()[credential_id].revoked_at == now
        &&& self.revocations()[credential_id].revoked_by == revoked_by
        &&& self.revocations()[credential_id].reason == reason
        &&& self.revocations()[credential_id].revocation_list_hash is None
        &&& self.schemas() == before.schemas()
    }

    /// Nothing has changed since `before`.
    pub open spec fn unchanged(&self, before: Self) -> bool {
        &&& self@ == before@
        &&& self.listing() == before.listing()
        &&& self.revocations() == before.revocations()
        &&& self.schemas() == before.schemas()
    }

    /// Revoke a credential, as of now.
    pub fn revoke_credential(&mut self, credential_id: &str, revoked_by: String, reason: String) -> (r:
        Result<(), String>)
        ensures
            r.is_ok() <==> old(self).revocation_fault(credential_id@) is None,
            r matches Err(e) ==> (old(self).revocation_fault(credential_id@) matches Some(fault) && e@
                == fault.message()),
            r is Err ==> final(self).unchanged(*old(self)),
            r is Ok ==> exists|now: i64| #[trigger]
                final(self).revoked(*old(self), credential_id@, revoked_by, reason, now),
    {
        let now = now_millis();
        match self.revoke_credential_at(credential_id, revoked_by, reason, now) {
            Ok(()) => {
                assert(self.revoked(*old(self), credential_id@, revoked_by, reason, now));
                Ok(())
            },
            Err(fault) => Err(fault.to_text()),
        }
    }

    /// Revoke a credential, as of `now`: its entry is marked with the
    /// reason and the revocation goes on record.
    pub fn revoke_credential_at(
        &mut self,
        credential_id: &str,
        revoked_by: String,
        reason: String,
        now: i64,
    ) -> (r: Result<(), CredentialRegistryFault>)
        ensures
            r.is_ok() <==> old(self).revocation_fault(credential_id@) is None,
            r matches Err(e) ==> old(self).revocation_fault(credential_id@) == Some(e),
            r is Err ==> final(self).unchanged(*old(self)),
            r is Ok ==> final(self).revoked(*old(self), credential_id@, revoked_by, reason, now),
    {
        match self.entries.get(credential_id) {
            None => {
                return Err(CredentialRegistryFault::NotFound);
            },
            Some(entry) => {
                if entry.status == CredentialStatus::Revoked {
                    return Err(CredentialRegistryFault::AlreadyRevoked);
                }
            },
        }
        let position = self.entries.position_of(credential_id).unwrap();
        let mut entry = self.entries.remove(credential_id).unwrap();
        entry.status = CredentialStatus::Revoked;
        entry.revocation_reason = Some(reason.clone());
        let ghost changed = entry;
        let ghost without = self.entries;
        assert(without.place(position) == position);
        self.entries.insert_at(position, credential_id.to_owned(), entry);
        let revocation = RevocationEntry {
            credential_id: credential_id.to_owned(),
            revoked_at: now,
            revoked_by,
            reason,
            revocation_list_hash: None,
        };
        self.revocations.insert(credential_id.to_owned(), revocation);
        proof {
            assert(self@ =~= old(self)@.insert(credential_id@, changed));
            assert(self.listing() =~= old(self).listing().update(position as int, changed));
            assert(self.revocations() =~= old(self).revocations().insert(
                credential_id@,
                self.revocations()[credential_id@],
            ));
        }
        Ok(())
    }

    /// The status that the credential shows at `now`, if it is
    /// registered.
    pub open spec fn shown_status(&self, credential_id: Seq<char>, now: i64) -> Option<
        CredentialStatus,
    > {
        if self@.contains_key(credential_id) {
            Some(status_at(self@[credential_id], now))
        } else {
            None
        }
    }

    /// Check credential status, as of now.
    pub fn get_credential_status(&self, credential_id: &str) -> (r: Option<CredentialStatus>)
        ensures
            exists|now: i64| r == #[trigger] self.shown_status(credential_id@, now),
    {
        let now = now_millis();
        let r = self.get_credential_status_at(credential_id, now);
        assert(r == self.shown_status(credential_id@, now));
        r
    }

    /// Check credential status, as of `now`.
    pub fn get_credential_status_at(&self, credential_id: &str, now: i64) -> (r: Option<
        CredentialStatus,
    >)
        ensures
            r == self.shown_status(credential_id@, now),
    {
        match self.entries.get(credential_id) {
            Some(entry) => {
                if let Some(expires_at) = entry.expires_at {
                    if now > expires_at {
                        return Some(CredentialStatus::Expired);
                    }
                }
                Some(entry.status)
            },
            None => None,
        }
    }

    /// Get credential entry.
    pub fn get_credential(&self, credential_id: &str) -> (r: Option<&CredentialRegistryEntry>)
        ensures
            r.is_some() == self@.contains_key(credential_id@),
            r matches Some(entry) ==> *entry == self@[credential_id@],
    {
        self.entries.get(credential_id)
    }

    /// Check if credential is valid (active and not expired), as of now.
    pub fn is_valid(&self, credential_id: &str) -> (valid: bool)
        ensures
            exists|now: i64|
                valid == (#[trigger] self.shown_status(credential_id@, now) == Some(
                    CredentialStatus::Active,
                )),
    {
        let now = now_millis();
        let valid = self.is_valid_at(credential_id, now);
        assert(valid == (self.shown_status(credential_id@, now) == Some(CredentialStatus::Active)));
        valid
    }

    /// Check if credential is valid (active and not expired), as of
    /// `now`.
    pub fn is_valid_at(&self, credential_id: &str, now: i64) -> (valid: bool)
        ensures
            valid == (self.shown_status(credential_id@, now) == Some(CredentialStatus::Active)),
    {
        match self.get_credential_status_at(credential_id, now) {
            Some(CredentialStatus::Active) => true,
            _ => false,
        }
    }

    /// List credentials by issuer, in the order of the registry.
    pub fn list_credentials_by_issuer(&self, issuer_did: &str) -> (list: Vec<&CredentialRegistryEntry>)
        ensures
            referenced(list@) == issued_by(self.listing(), issuer_did@, self.listing().len()),
    {
        let mut list: Vec<&CredentialRegistryEntry> = Vec::new();
        let n = self.entries.len();
        let mut i: usize = 0;
        while i < n
            invariant
                i <= n,
                n == self.entries.values().len(),
                referenced(list@) == issued_by(self.entries.values(), issuer_did@, i as nat),
            decreases n - i,
        {
            let entry = self.entries.value_at(i);
            let ghost before = referenced(list@);
            if str_eq(entry.issuer_did.as_str(), issuer_did) {
                list.push(entry);
                assert(referenced(list@) =~= before.push(*entry));
            }
            i += 1;
        }
        list
    }

    /// List credentials by subject, in the order of the registry.
    pub fn list_credentials_by_subject(&self, subject_did: &str) -> (list: Vec<
        &CredentialRegistryEntry,
    >)
        ensures
            referenced(list@) == held_by(self.listing(), subject_did@, self.listing().len()),
    {
        let mut list: Vec<&CredentialRegistryEntry> = Vec::new();
        let n = self.entries.len();
        let mut i: usize = 0;
        while i < n
            invariant
                i <= n,
                n == self.entries.values().len(),
                referenced(list@) == held_by(self.entries.values(), subject_did@, i as nat),
            decreases n - i,
        {
            let entry = self.entries.value_at(i);
            let ghost before = referenced(list@);
            let matches_subject = match &entry.subject_did {
                Some(subject) => str_eq(subject.as_str(), subject_did),
                None => false,
            };
            if matches_subject {
                list.push(entry);
                assert(referenced(list@) =~= before.push(*entry));
            }
            i += 1;
        }
        list
    }

    /// Register a schema. A schema that is registered already is
    /// refused.
    pub fn register_schema(&mut self, schema_id: String, schema_hash: String) -> (r: Result<(), String>)
        ensures
            r.is_ok() <==> !old(self).schemas().contains_key(schema_id@),
            r matches Err(e) ==> e@ == CredentialRegistryFault::SchemaExists.message(),
            r is Err ==> final(self).unchanged(*old(self)),
            r is Ok ==> final(self).schemas() == old(self).schemas().insert(schema_id@, schema_hash),
            final(self)@ == old(self)@,
            final(self).listing() == old(self).listing(),
            final(self).revocations() == old(self).revocations(),
    {
        if self.schema_registry.contains_key(schema_id.as_str()) {
            return Err(CredentialRegistryFault::SchemaExists.to_text());
        }
        self.schema_registry.insert(schema_id, schema_hash);
        Ok(())
    }

    /// Get schema hash.
    pub fn get_schema_hash(&self, schema_id: &str) -> (r: Option<&String>)
        ensures
            r.is_some() == self.schemas().contains_key(schema_id@),
            r matches Some(hash) ==> *hash == self.schemas()[schema_id@],
    {
        self.schema_registry.get(schema_id)
    }

    /// Get revocation info.
    pub fn get_revocation_info(&self, credential_id: &str) -> (r: Option<&RevocationEntry>)
        ensures
            r.is_some() == self.revocations().contains_key(credential_id@),
            r matches Some(entry) ==> *entry == self.revocations()[credential_id@],
    {
        self.revocations.get(credential_id)
    }
}

impl Default for CredentialRegistry {
    fn default() -> (registry: Self)
        ensures
            registry@ == Map::<Seq<char>, CredentialRegistryEntry>::empty(),
    {
        Self::new()
    }
}

} // verus!
