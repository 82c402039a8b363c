//! DID registry: which DIDs exist, who controls them, and where their
//! documents are.

use vstd::prelude::*;
use crate::clock::now_millis;
use crate::dictionary::Dictionary;
use crate::text::str_eq;

verus! {

/// DID registry entry stored on-chain. Times are in milliseconds since
/// the Unix epoch.
#[derive(Debug, Clone)]
pub struct DidRegistryEntry {
    pub did: String,
    pub document_hash: String,
    pub controller: String,
    pub created_at: i64,
    pub updated_at: i64,
    pub status: DidStatus,
    pub verification_methods: Vec<String>,
    pub metadata: Dictionary<String>,
}

/// Status of a DID.
#[derive(Debug, Clone, Copy, PartialEq, Eq, Structural)]
pub enum DidStatus {
    Active,
    Deactivated,
    Revoked,
}

/// DID registry for managing DIDs on-chain.
pub struct DidRegistry {
    entries: Dictionary<DidRegistryEntry>,
}

/// Why the registry refused a change.
#[derive(Debug, Clone, Copy, PartialEq, Eq, Structural)]
pub enum DidRegistryFault {
    AlreadyExists,
    NotFound,
    Unauthorized,
    NotActive,
}

impl DidRegistryFault {
    /// The fault in words.
    pub open spec fn message(&self) -> Seq<char> {
        match self {
            DidRegistryFault::AlreadyExists => "DID already exists"@,
            DidRegistryFault::NotFound => "DID not found"@,
            DidRegistryFault::Unauthorized => "Unauthorized: not the controller"@,
            DidRegistryFault::NotActive => "DID is not active"@,
        }
    }

    /// The fault in words.
    pub fn to_text(&self) -> (text: String)
        ensures
            text@ == self.message(),
    {
        match self {
            DidRegistryFault::AlreadyExists => "DID already exists".to_owned(),
            DidRegistryFault::NotFound => "DID not found".to_owned(),
            DidRegistryFault::Unauthorized => "Unauthorized: not the controller".to_owned(),
            DidRegistryFault::NotActive => "DID is not active".to_owned(),
        }
    }
}

/// The positions among the first `n` entries whose controller is
/// `controller`, in order.
pub open spec fn controlled_by(
    entries: Seq<DidRegistryEntry>,
    controller: Seq<char>,
    n: nat,
) -> Seq<DidRegistryEntry>
    decreases n,
{
    if n == 0 {
        Seq::empty()
    } else {
        let earlier = controlled_by(entries, controller, (n - 1) as nat);
        if entries[n - 1].controller@ == controller {
            earlier.push(entries[n - 1])
        } else {
            earlier
        }
    }
}

/// The entries behind a list of references.
pub open spec fn referenced(held: Seq<&DidRegistryEntry>) -> Seq<DidRegistryEntry> {
    Seq::new(held.len(), |i: int| *held[i])
}

impl DidRegistry {
    /// The registered DIDs and their entries.
    pub closed spec fn view(&self) -> Map<Seq<char>, DidRegistryEntry> {
        self.entries@
    }

    /// The entries in the order of their registration.
    pub closed spec fn listing(&self) -> Seq<DidRegistryEntry> {
        self.entries.values()
    }

    /// The position of the entry of `did` in the listing.
    pub closed spec fn rank(&self, did: Seq<char>) -> int {
        self.entries.position(did)
    }

    /// Create a new DID registry.
    pub fn new() -> (registry: Self)
        ensures
            registry@ == Map::<Seq<char>, DidRegistryEntry>::empty(),
            registry.listing().len() == 0,
    {
        Self { entries: Dictionary::new() }
    }

    /// An entry as it is registered at `now`: active, without metadata.
    pub open spec fn is_registered(
        entry: DidRegistryEntry,
        did: String,
        document_hash: String,
        controller: String,
        verification_methods: Vec<String>,
        now: i64,
    ) -> bool {
        &&& entry.did@ == did@
        &&& entry.document_hash == document_hash
        &&& entry.controller == controller
        &&& entry.created_at == now
        &&& entry.updated_at == now
        &&& entry.status == DidStatus::Active
        &&& entry.verification_methods == verification_methods
        &&& entry.metadata@ == Map::<Seq<char>, String>::empty()
    }

    /// Register a new DID, as of now.
    pub fn register_did(
        &mut self,
        did: String,
        document_hash: String,
        controller: String,
        verification_methods: Vec<String>,
    ) -> (r: Result<(), String>)
        ensures
            r.is_ok() <==> !old(self)@.contains_key(did@),
            r matches Err(e) ==> e@ == DidRegistryFault::AlreadyExists.message() && final(self)@
                == old(self)@,
            r is Err ==> final(self).listing() == old(self).listing(),
            r is Ok ==> final(self).listing() == old(self).listing().push(final(self)@[did@]),
            r is Ok ==> final(self)@ == old(self)@.insert(did@, final(self)@[did@]) && exists|now: i64|
                #[trigger] Self::is_registered(
                    final(self)@[did@],
                    did,
                    document_hash,
                    controller,
                    verification_methods,
                    now,
                ),
    {
        let now = now_millis();
        match self.register_did_at(did, document_hash, controller, verification_methods, now) {
            Ok(()) => {
                assert(Self::is_registered(
                    self@[did@],
                    did,
                    document_hash,
                    controller,
                    verification_methods,
                    now,
                ));
                Ok(())
            },
            Err(fault) => Err(fault.to_text()),
        }
    }

    /// Register a new DID, as of `now`. A DID that is registered already
    /// is refused.
    pub fn register_did_at(
        &mut self,
        did: String,
        document_hash: String,
        controller: String,
        verification_methods: Vec<String>,
        now: i64,
    ) -> (r: Result<(), DidRegistryFault>)
        ensures
            r.is_ok() <==> !old(self)@.contains_key(did@),
            r matches Err(e) ==> e == DidRegistryFault::AlreadyExists && final(self)@ == old(self)@,
            r is Err ==> final(self).listing() == old(self).listing(),
            r is Ok ==> final(self).listing() == old(self).listing().push(final(self)@[did@]),
            r is Ok ==> final(self)@ == old(self)@.insert(did@, final(self)@[did@])
                && Self::is_registered(
                final(self)@[did@],
                did,
                document_hash,
                controller,
                verification_methods,
                now,
            ),
    {
        if self.entries.contains_key(did.as_str()) {
            return Err(DidRegistryFault::AlreadyExists);
        }
        let entry = DidRegistryEntry {
            did: did.clone(),
            document_hash,
            controller,
            created_at: now,
            updated_at: now,
            status: DidStatus::Active,
            verification_methods,
            metadata: Dictionary::new(),
        };
        self.entries.insert(did, entry);
        proof {
            assert(self@ =~= old(self)@.insert(did@, self@[did@]));
        }
        Ok(())
    }

    /// Why an update of the document of `did` by `controller` is refused,
    /// if it is.
    pub open spec fn update_fault(&self, did: Seq<char>, controller: Seq<char>) -> Option<
        DidRegistryFault,
    > {
        if !self@.contains_key(did) {
            Some(DidRegistryFault::NotFound)
        } else if self@[did].controller@ != controller {
            Some(DidRegistryFault::Unauthorized)
        } else if self@[did].status != DidStatus::Active {
            Some(DidRegistryFault::NotActive)
        } else {
            None
        }
    }

    /// Update DID document hash, as of now.
    pub fn update_did_document(&mut self, did: &str, new_document_hash: String, controller: &str) -> (r:
        Result<(), String>)
        ensures
            r.is_ok() <==> old(self).update_fault(did@, controller@) is None,
            r is Err ==> final(self)@ == old(self)@ && final(self).listing() == old(self).listing(),
            r is Ok ==> final(self).listing() == old(self).listing().update(
                old(self).rank(did@),
                final(self)@[did@],
            ),
            r matches Err(e) ==> (old(self).update_fault(did@, controller@) matches Some(fault) && e@
                == fault.message()),
            r is Ok ==> final(self)@ == old(self)@.insert(
                did@,
                DidRegistryEntry {
                    document_hash: new_document_hash,
                    updated_at: final(self)@[did@].updated_at,
                    ..old(self)@[did@]
                },
            ),
    {
        let now = now_millis();
        match self.update_did_document_at(did, new_document_hash, controller, now) {
            Ok(()) => Ok(()),
            Err(fault) => Err(fault.to_text()),
        }
    }

    /// Update DID document hash, as of `now`. Only the controller of an
    /// active DID may.
    pub fn update_did_document_at(
        &mut self,
        did: &str,
        new_document_hash: String,
        controller: &str,
        now: i64,
    ) -> (r: Result<(), DidRegistryFault>)
        ensures
            r.is_ok() <==> old(self).update_fault(did@, controller@) is None,
            r matches Err(e) ==> old(self).update_fault(did@, controller@) == Some(e),
            r is Err ==> final(self)@ == old(self)@ && final(self).listing() == old(self).listing(),
            r is Ok ==> final(self).listing() == old(self).listing().update(
                old(self).rank(did@),
                final(self)@[did@],
            ),
            r is Ok ==> final(self)@ == old(self)@.insert(
                did@,
                DidRegistryEntry {
                    document_hash: new_document_hash,
                    updated_at: now,
                    ..old(self)@[did@]
                },
            ),
    {
        match self.entries.get(did) {
            None => {
                return Err(DidRegistryFault::NotFound);
            },
            Some(entry) => {
                if !str_eq(entry.controller.as_str(), controller) {
                    return Err(DidRegistryFault::Unauthorized);
                }
                if entry.status != DidStatus::Active {
                    return Err(DidRegistryFault::NotActive);
                }
            },
        }
        let position = self.entries.position_of(did).unwrap();
        let mut entry = self.entries.remove(did).unwrap();
        entry.document_hash = new_document_hash;
        entry.updated_at = now;
        let ghost changed = entry;
        let ghost without = self.entries;
        assert(without.place(position) == position);
        self.entries.insert_at(position, did.to_owned(), entry);
        proof {
            assert(self@ =~= old(self)@.insert(did@, changed));
            assert(self.listing() =~= old(self).listing().update(position as int, changed));
        }
        Ok(())
    }

    /// Why `controller` may not deactivate `did`, if it may not.
    pub open spec fn deactivation_fault(&self, did: Seq<char>, controller: Seq<char>) -> Option<
        DidRegistryFault,
    > {
        if !self@.contains_key(did) {
            Some(DidRegistryFault::NotFound)
        } else if self@[did].controller@ != controller {
            Some(DidRegistryFault::Unauthorized)
        } else {
            None
        }
    }

    /// Deactivate a DID, as of now.
    pub fn deactivate_did(&mut self, did: &str, controller: &str) -> (r: Result<(), String>)
        ensures
            r.is_ok() <==> old(self).deactivation_fault(did@, controller@) is None,
            r is Err ==> final(self)@ == old(self)@ && final(self).listing() == old(self).listing(),
            r is Ok ==> final(self).listing() == old(self).listing().update(
                old(self).rank(did@),
                final(self)@[did@],
            ),
            r matches Err(e) ==> (old(self).deactivation_fault(did@, controller@) matches Some(fault)
                && e@ == fault.message()),
            r is Ok ==> final(self)@ == old(self)@.insert(
                did@,
                DidRegistryEntry {
                    status: DidStatus::Deactivated,
                    updated_at: final(self)@[did@].updated_at,
                    ..old(self)@[did@]
                },
            ),
    {
        let now = now_millis();
        match self.deactivate_did_at(did, controller, now) {
            Ok(()) => Ok(()),
            Err(fault) => Err(fault.to_text()),
        }
    }

    /// Deactivate a DID, as of `now`. Only its controller may.
    pub fn deactivate_did_at(&mut self, did: &str, controller: &str, now: i64) -> (r: Result<
        (),
        DidRegistryFault,
    >)
        ensures
            r.is_ok() <==> old(self).deactivation_fault(did@, controller@) is None,
            r matches Err(e) ==> old(self).deactivation_fault(did@, controller@) == Some(e),
            r is Err ==> final(self)@ == old(self)@ && final(self).listing() == old(self).listing(),
            r is Ok ==> final(self).listing() == old(self).listing().update(
                old(self).rank(did@),
                final(self)@[did@],
            ),
            r is Ok ==> final(self)@ == old(self)@.insert(
                did@,
                DidRegistryEntry {
                    status: DidStatus::Deactivated,
                    updated_at: now,
                    ..old(self)@[did@]
                },
            ),
    {
        match self.entries.get(did) {
            None => {
                return Err(DidRegistryFault::NotFound);
            },
            Some(entry) => {
                if !str_eq(entry.controller.as_str(), controller) {
                    return Err(DidRegistryFault::Unauthorized);
                }
            },
        }
        let position = self.entries.position_of(did).unwrap();
        let mut entry = self.entries.remove(did).unwrap();
        entry.status = DidStatus::Deactivated;
        entry.updated_at = now;
        let ghost changed = entry;
        let ghost without = self.entries;
        assert(without.place(position) == position);
        self.entries.insert_at(position, did.to_owned(), entry);
        proof {
            assert(self@ =~= old(self)@.insert(did@, changed));
            assert(self.listing() =~= old(self).listing().update(position as int, changed));
        }
        Ok(())
    }

    /// Get DID entry.
    pub fn get_did(&self, did: &str) -> (r: Option<&DidRegistryEntry>)
        ensures
            r.is_some() == self@.contains_key(did@),
            r matches Some(entry) ==> *entry == self@[did@],
    {
        self.entries.get(did)
    }

    /// Check if DID exists and is active.
    pub fn is_active(&self, did: &str) -> (active: bool)
        ensures
            active == (self@.contains_key(did@) && self@[did@].status == DidStatus::Active),
    {
        match self.entries.get(did) {
            Some(entry) => entry.status == DidStatus::Active,
            None => false,
        }
    }

    /// List all DIDs for a controller, in the order of the registry.
    pub fn list_dids_by_controller(&self, controller: &str) -> (list: Vec<&DidRegistryEntry>)
        ensures
            referenced(list@) == controlled_by(self.listing(), controller@, self.listing().len()),
    {
        let mut list: Vec<&DidRegistryEntry> = Vec::new();
        let n = self.entries.len();
        let mut i: usize = 0;
        while i < n
            invariant
                i <= n,
                n == self.entries.values().len(),
                referenced(list@) == controlled_by(self.entries.values(), controller@, i as nat),
            decreases n - i,
        {
            let entry = self.entries.value_at(i);
            let ghost before = referenced(list@);
            if str_eq(entry.controller.as_str(), controller) {
                list.push(entry);
                assert(referenced(list@) =~= before.push(*entry));
            }
            i += 1;
        }
        list
    }
}

impl Default for DidRegistry {
    fn default() -> (registry: Self)
        ensures
            registry@ == Map::<Seq<char>, DidRegistryEntry>::empty(),
    {
        Self::new()
    }
}

} // verus!
