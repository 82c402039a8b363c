//! The errors of identity records.

use vstd::prelude::*;

verus! {

/// What is wrong with a decentralised identifier.
#[derive(Clone, Copy, Debug, PartialEq, Eq, Structural)]
pub enum DidFault {
    /// It does not begin with `did:`.
    MissingPrefix,
    /// It has fewer than three parts between colons.
    TooFewParts,
    /// A verification method's identifier is neither a DID nor relative to
    /// the document's.
    ForeignMethodId,
    /// A URL does not parse.
    InvalidUrl,
}

/// What is wrong with a credential.
#[derive(Clone, Copy, Debug, PartialEq, Eq, Structural)]
pub enum CredentialFault {
    /// It names no type.
    NoType,
    /// Its types lack `VerifiableCredential`.
    MissingBaseType,
    /// Its issuer is no DID.
    IssuerNotDid,
    /// It has expired.
    Expired,
    /// A timestamp lies in the future.
    FutureTimestamp,
}

/// What a cryptographic primitive refused.
#[derive(Clone, Copy, Debug, PartialEq, Eq, Structural)]
pub enum CryptoFault {
    InvalidPrivateKey,
    InvalidPublicKey,
    InvalidSignature,
    /// The key type has no implementation.
    Unsupported,
}

/// Why an operation on identity records failed.
#[derive(Clone, Copy, Debug, PartialEq, Eq, Structural)]
pub enum IdentityError {
    /// A DID, a DID document or a URL is malformed.
    InvalidDid(DidFault),
    /// A credential is not valid.
    InvalidCredential(CredentialFault),
    /// A key or signature is malformed, or the key type has no
    /// implementation.
    CryptoError(CryptoFault),
    /// Text that is no hexadecimal encoding of bytes.
    EncodingError,
}

} // verus!
