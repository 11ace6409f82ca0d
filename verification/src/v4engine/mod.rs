//! The fourth engine: files kept by a store rooted at a base directory under
//! digest-named relative paths, and metadata records that carry an expiry
//! time, after which a read evicts the entry instead of serving it.

pub mod cache_engine;
pub mod storage;
