//! The errors of the attestation engine and coordinator.

use vstd::prelude::*;
use crate::identity::error::IdentityError;

verus! {

/// What a coordinator lookup failed to find.
#[derive(Clone, Copy, Debug, PartialEq, Eq, Structural)]
pub enum Missing {
    Request,
    Verifier,
    KeyShare,
}

/// Why the engine or the coordinator refused.
#[derive(Clone, Copy, Debug, PartialEq, Eq, Structural)]
pub enum AttestorError {
    /// The threshold is zero or larger than the number of parties.
    InvalidConfig,
    /// A key share, signature or public key belongs to another scheme.
    SchemeMismatch,
    /// Fewer signatures from different parties than the threshold asks for.
    ThresholdNotMet,
    /// A request, verifier or key share is not known.
    NotFound(Missing),
    /// The request's time window has passed.
    Expired,
    /// A scalar or point is malformed.
    CryptoError,
    /// A credential or DID document is not valid.
    IdentityError(IdentityError),
    /// The verifier lacks the capability that the credential type asks for.
    PermissionDenied,
    /// What was handed in does not belong to the verifier.
    InvalidRequest,
}

} // verus!
