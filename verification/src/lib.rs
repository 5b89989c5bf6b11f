//! A verified content-addressed node store for a Merkle-trie state database.
//!
//! Trie nodes and contract code blobs are held by content hash: a bounded,
//! LRU-evicting shared cache (or an unbounded one) for data already known to
//! be durable, and a private, unbounded staging buffer per store instance for
//! nodes produced but not yet committed. Stores fork cheaply: a fork shares
//! the caches of its parent but writes in isolation until it commits.

pub mod hash;
pub mod kv;
pub mod mem_store;
pub mod text;
pub mod types;
