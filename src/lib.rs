//! A generic cache whose entries carry an absolute expiration instant.
//!
//! Expiry is lazy: an entry is judged stale only when it is read, and a stale
//! entry stays in the store, counted by `size`, until a fresh load overwrites
//! it or it is deleted.
pub mod cache;
pub mod expiring;
pub mod lemmas;
pub mod store;

pub use cache::{Cache, CacheConfig, Lookup};
pub use expiring::Expiring;
pub use store::CacheStore;
