//! The third engine: the digest layout of the second, with each key's
//! metadata record kept as bytes in a key-value store beside the files.

pub mod cache_engine;
