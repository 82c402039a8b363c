//! Threshold attestation of verifiable credentials.
//!
//! A group of `n` attestors holds shares of one BLS12-381 signing key. Any
//! `k` of them can jointly sign a credential; fewer cannot. The crate holds
//! the threshold signature engine, the coordinator that collects approvals
//! until a quorum is met, and the identity, storage-index and registry
//! records that surround them.

pub mod attestation;
pub mod bytes;
pub mod clock;
pub mod commands;
pub mod curve;
pub mod dictionary;
pub mod error;
pub mod field;
pub mod identity;
pub mod interpolation;
pub mod ipfs;
pub mod json;
pub mod registry;
pub mod text;
pub mod threshold;
pub mod verifiers;

