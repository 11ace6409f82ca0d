//! A content cache keyed by strings: each key is hashed with SHA-256 and its
//! value lives in a two-level directory tree named after the digest, with
//! per-key metadata kept beside it. Four generations of the engine are kept,
//! each in a module of its own.

pub mod layout;
pub mod paths;
pub mod meta_codec;
pub mod v1engine;
pub mod v2engine;
pub mod v3engine;
pub mod v4engine;
