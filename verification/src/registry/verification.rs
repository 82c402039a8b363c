//! Verification logic for the registries.

use vstd::prelude::*;
use crate::bytes::bytes_equal;

verus! {

/// Whether the hash that is handed in is the one on record.
pub fn verify_credential_hash(stored_hash: &[u8], provided_hash: &[u8]) -> (same: bool)
    ensures
        same == (stored_hash@ == provided_hash@),
{
    bytes_equal(stored_hash, provided_hash)
}

} // verus!
