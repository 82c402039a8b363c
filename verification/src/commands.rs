//! The commands of the command line and its configuration, as plain
//! values.

use vstd::prelude::*;
use crate::identity::crypto::KeyType;
use crate::text::str_eq;

verus! {

/// Where the services are found.
#[derive(Debug, Clone)]
pub struct Config {
    pub ipfs_endpoint: String,
    pub substrate_endpoint: String,
}

/// What can be done with DIDs.
#[derive(Debug, Clone)]
pub enum DidCommands {
    Create { method: String, controller: Option<String>, key_type: Option<String> },
    Resolve { did: String },
    List,
}

/// What can be done with verifiable credentials.
#[derive(Debug, Clone)]
pub enum VcCommands {
    Issue { issuer: String, subject: Option<String>, claims: String, credential_type: Option<String> },
    Verify { credential: String },
    List { issuer: Option<String> },
}

/// What can be done with attestations.
#[derive(Debug, Clone)]
pub enum AttestCommands {
    Setup { threshold: usize, total_parties: usize },
    Sign { credential_id: String, attestor_id: String },
    Verify { credential_id: String },
}

/// The demo scenarios.
#[derive(Debug, Clone, Copy, PartialEq, Eq, Structural)]
pub enum DemoCommands {
    Kyc,
    Full,
    Setup,
}

impl Default for Config {
    /// The services on this machine.
    fn default() -> (config: Self)
        ensures
            config.ipfs_endpoint@ == "http://127.0.0.1:5001"@,
            config.substrate_endpoint@ == "ws://127.0.0.1:9944"@,
    {
        Self {
            ipfs_endpoint: "http://127.0.0.1:5001".to_owned(),
            substrate_endpoint: "ws://127.0.0.1:9944".to_owned(),
        }
    }
}

/// The key type that a name on the command line stands for: `bls12381`
/// for BLS12-381 G1, anything else and nothing for Ed25519.
pub fn key_type_from_name(name: Option<&str>) -> (key_type: KeyType)
    ensures
        key_type == (if name matches Some(text) && text@ == "bls12381"@ {
            KeyType::Bls12381G1
        } else {
            KeyType::Ed25519
        }),
{
    match name {
        Some(text) => {
            if str_eq(text, "bls12381") {
                KeyType::Bls12381G1
            } else {
                KeyType::Ed25519
            }
        },
        None => KeyType::Ed25519,
    }
}

} // verus!
