//! The on-chain registries of DIDs and credentials.

pub mod credential_registry;
pub mod did_registry;
pub mod verification;
