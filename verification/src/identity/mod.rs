//! Decentralised identifiers, verifiable credentials and the keys behind
//! them.

pub mod crypto;
pub mod did;
pub mod error;
pub mod utils;
pub mod vc;
