//! Content-addressed blob relay: SHA-256 naming of blobs, the blob store
//! that peers share, the request/response rules of the blob protocol, and
//! the peer registry.

pub mod hashing;
pub mod text;
pub mod blob;
pub mod protocol;
pub mod peers;
pub mod disk;
