[package]
name = "attestors"
version = "0.1.0"
edition = "2021"
publish = false

[dependencies]
anyhow = "1"
base64 = "0.21"
bls12_381 = { version = "0.8", features = ["experimental"] }
bytes = "1"
chrono = { version = "0.4", features = ["serde"] }
clap = { version = "4", features = ["derive"] }
ff = "0.13"
futures = "0.3"
group = "0.13"
hex = "0.4"
ipfs-api-backend-hyper = "0.5"
rand = "0.8"
schnorrkel = "0.11"
serde = { version = "1", features = ["derive"] }
serde_json = "1"
sha2 = "0.9"
thiserror = "1"
tokio = { version = "1", features = ["macros", "rt-multi-thread"] }
url = "2"
uuid = { version = "1", features = ["v4"] }
