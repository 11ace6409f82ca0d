//! Paths, metadata records and lookup decisions of the third engine. The
//! file writes and the key-value store's reads and writes happen around
//! these functions.

use vstd::prelude::*;
use vstd::string::*;
use crate::layout::{bucket_dir, cache_path_from_digest, file_stem, key_digest, key_hash};
use crate::meta_codec::{answer_bytes, decode_pair, encode_pair, pair_encoding, parse_pair, law_pair_roundtrip, MetaDecodeError};
use crate::paths::{join_path, path_join};
use vstd::utf8::encode_utf8;

verus! {

/// What the metadata store records of one stored key.
pub struct CacheMeta {
    /// The bytes of the path of the file that holds the value.
    pub clocation: Vec<u8>,
    /// The file's length in bytes when it was stored.
    pub size: u64,
}

impl CacheMeta {
    /// The record's bytes as they go into the metadata store.
    pub fn encode(&self) -> (bytes: Vec<u8>)
        ensures
            bytes@ == pair_encoding(self.clocation@, self.size),
    {
        encode_pair(self.clocation.as_slice(), self.size)
    }

    /// Reads a record back from the bytes found in the metadata store.
    pub fn decode(bytes: &[u8]) -> (res: Result<CacheMeta, MetaDecodeError>)
        ensures
            match parse_pair(bytes@) {
                Some((location, size, _)) => res matches Ok(m) && m.clocation@ == location
                    && m.size == size,
                None => res is Err,
            },
    {
        match decode_pair(bytes) {
            Ok((clocation, size, _)) => Ok(CacheMeta { clocation, size }),
            Err(message) => Err(MetaDecodeError { message }),
        }
    }
}

/// What a lookup of a key decides, given what the metadata store answered:
/// `None` when the record cannot be read, else the path bytes of the file to
/// use (`None` when the store has no record of the key).
pub open spec fn target_outcome(meta: Option<Seq<u8>>) -> Option<Option<Seq<u8>>> {
    match meta {
        None => Some(None),
        Some(b) => match parse_pair(b) {
            Some((location, _, _)) => Some(Some(location)),
            None => None,
        },
    }
}

/// A cache engine rooted at a base directory; the metadata store is held
/// beside it by the caller.
pub struct CacheEngine {
    base_dir: String,
}

impl View for CacheEngine {
    /// The base directory's path text.
    type V = Seq<char>;

    closed spec fn view(&self) -> Seq<char> {
        self.base_dir@
    }
}

impl CacheEngine {
    /// An engine rooted at `base_dir`.
    pub fn new(base_dir: &str) -> (engine: Self)
        ensures
            engine@ == base_dir@,
    {
        Self { base_dir: String::from_str(base_dir) }
    }

    /// The directory that holds a key's file, and the file's name.
    pub fn build_cache_path(&self, cache_key: &str) -> (path: (String, String))
        ensures
            path.0@ == bucket_dir(self@, key_digest(cache_key@)),
            path.1@ == file_stem(key_digest(cache_key@)),
    {
        let digest = key_hash(cache_key);
        cache_path_from_digest(self.base_dir.as_str(), digest.as_slice())
    }

    /// The full path of the file that a store of this key writes, which is
    /// also the location its metadata record names.
    pub fn cache_file_path(&self, cache_key: &str) -> (file: String)
        ensures
            file@ == path_join(bucket_dir(self@, key_digest(cache_key@)), file_stem(key_digest(cache_key@))),
    {
        let (dir, name) = self.build_cache_path(cache_key);
        join_path(dir.as_str(), name.as_str())
    }

    /// The record a store of `cache_key` writes once its file holds `size`
    /// bytes: the path of the key's file, as UTF-8 bytes, and the size.
    pub fn store_record(&self, cache_key: &str, size: u64) -> (bytes: Vec<u8>)
        ensures
            bytes@ == pair_encoding(
                encode_utf8(path_join(bucket_dir(self@, key_digest(cache_key@)), file_stem(key_digest(cache_key@)))),
                size,
            ),
    {
        let file = self.cache_file_path(cache_key);
        let meta = CacheMeta { clocation: file.as_str().as_bytes_vec(), size };
        meta.encode()
    }

    /// Decides a lookup from what the metadata store answered for a key: no
    /// record gives `Ok(None)`, a readable record gives the file it names,
    /// an unreadable one an error. Both a read and a purge start with this.
    pub fn lookup_target(meta: Option<Vec<u8>>) -> (res: Result<Option<Vec<u8>>, MetaDecodeError>)
        ensures
            match target_outcome(answer_bytes(meta)) {
                Some(None) => res matches Ok(None),
                Some(Some(location)) => res matches Ok(Some(file)) && file@ == location,
                None => res is Err,
            },
    {
        match meta {
            None => Ok(None),
            Some(bytes) => match CacheMeta::decode(bytes.as_slice()) {
                Ok(m) => Ok(Some(m.clocation)),
                Err(e) => Err(e),
            },
        }
    }
}

/// Law: a lookup that finds the record a store wrote is directed to the
/// file that record names.
pub proof fn law_lookup_finds_recorded(location: Seq<u8>, size: u64)
    requires
        location.len() <= u64::MAX,
    ensures
        target_outcome(Some(pair_encoding(location, size))) == Some(Some(location)),
{
    law_pair_roundtrip(location, size, seq![]);
    assert(pair_encoding(location, size) + seq![] =~= pair_encoding(location, size));
}

} // verus!
