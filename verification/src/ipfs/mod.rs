//! What the library knows of content that is stored elsewhere: its kinds,
//! its metadata, the index over it and the cache in front of it.

pub mod client;
pub mod retrieval;
pub mod storage;
