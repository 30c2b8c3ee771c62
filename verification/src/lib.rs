//! A verified data-access and caching layer for a remote, horizontally
//! partitioned key-value store.
//!
//! The store exposes only primitive get/put/delete/paginated-scan operations
//! ([`store::Database`]); this crate maintains a locally cached,
//! time-bounded-fresh view of remote records on top of it
//! ([`cache::CachingDynamoDBColumn`]) and offers a "diff update" mutation
//! contract. Records are typed ([`records`]), keyed by a per-type primary-key
//! contract, and encoded to the store's flat attribute representation
//! ([`codec`]) with a proved round trip. An in-memory store
//! ([`memory::DynamoDB`]) implements the protocol for tests and local runs.

pub mod assoc;
pub mod cache;
pub mod clock;
pub mod codec;
pub mod column;
pub mod counter;
pub mod memory;
pub mod merge;
pub mod notes;
pub mod records;
pub mod store;
