//! Paths, metadata records and read/purge decisions of the fourth engine.
//! The file store's writes, reads and deletes and the metadata store's reads
//! and writes happen around these functions; the current time is handed in.

use vstd::prelude::*;
use vstd::string::*;
use crate::layout::{
    cache_path_from_digest, file_stem, first_dir, hex_lower, key_digest, key_hash,
    law_layout_spells_digest, lemma_hex_injective, lemma_spelled_file_injective, second_dir,
    spelled_dir, spelled_file,
};
use crate::meta_codec::{answer_bytes, decode_triple, encode_triple, law_triple_roundtrip, parse_triple, triple_encoding, MetaDecodeError};
use crate::paths::{join_path, lemma_join_assoc, path_join};
use crate::v4engine::storage::CacheStore;
use vstd::utf8::encode_utf8;

verus! {

/// How many seconds after it was stored an entry stays servable.
pub const ENTRY_LIFETIME_SECS: u64 = 12;

/// What the metadata store records of one stored key.
pub struct CacheMeta {
    /// The bytes of the path, relative to the file store's base, of the file
    /// that holds the value.
    pub clocation: Vec<u8>,
    /// The value's length in bytes.
    pub size: u64,
    /// The time (seconds since the Unix epoch) after which the entry has expired.
    pub expired_at: u64,
}

impl CacheMeta {
    /// The record's bytes as they go into the metadata store.
    pub fn encode(&self) -> (bytes: Vec<u8>)
        ensures
            bytes@ == triple_encoding(self.clocation@, self.size, self.expired_at),
    {
        encode_triple(self.clocation.as_slice(), self.size, self.expired_at)
    }

    /// Reads a record back from the bytes found in the metadata store.
    pub fn decode(bytes: &[u8]) -> (res: Result<CacheMeta, MetaDecodeError>)
        ensures
            match parse_triple(bytes@) {
                Some((location, size, expires, _)) => res matches Ok(m) && m.clocation@ == location
                    && m.size == size && m.expired_at == expires,
                None => res is Err,
            },
    {
        match decode_triple(bytes) {
            Ok((clocation, size, expired_at, _)) => Ok(CacheMeta { clocation, size, expired_at }),
            Err(message) => Err(MetaDecodeError { message }),
        }
    }
}

/// What a read does once the metadata store has answered.
pub enum ReadAction {
    /// The store has no record of the key: the read answers `None`.
    Miss,
    /// The entry has expired: its file (these path bytes) and its record are
    /// deleted and the read answers `None`.
    Evict(Vec<u8>),
    /// The entry is fresh: the read answers with the contents of the file at
    /// these path bytes.
    Fetch(Vec<u8>),
}

impl View for ReadAction {
    /// `None` for a miss, else whether the entry has expired and its file.
    type V = Option<(bool, Seq<u8>)>;

    open spec fn view(&self) -> Option<(bool, Seq<u8>)> {
        match self {
            ReadAction::Miss => None,
            ReadAction::Evict(file) => Some((true, file@)),
            ReadAction::Fetch(file) => Some((false, file@)),
        }
    }
}

/// What a read decides at time `now` from the metadata store's answer:
/// `None` when the record cannot be read; else `None` inside for no record,
/// or whether the record has expired (its expiry lies before `now`) and the
/// file it names.
pub open spec fn read_outcome(meta: Option<Seq<u8>>, now: u64) -> Option<Option<(bool, Seq<u8>)>> {
    match meta {
        None => Some(None),
        Some(b) => match parse_triple(b) {
            Some((location, _, expires, _)) => Some(Some((expires < now, location))),
            None => None,
        },
    }
}

/// What a purge decides from the metadata store's answer: `None` when the
/// record cannot be read; else the file to delete, if there is a record.
pub open spec fn purge_outcome(meta: Option<Seq<u8>>) -> Option<Option<Seq<u8>>> {
    match meta {
        None => Some(None),
        Some(b) => match parse_triple(b) {
            Some((location, _, _, _)) => Some(Some(location)),
            None => None,
        },
    }
}

/// The directory, relative to the file store's base, that holds a digest's file.
pub open spec fn relative_dir(digest: Seq<u8>) -> Seq<char> {
    path_join(first_dir(digest), second_dir(digest))
}

/// The file of a digest relative to the file store's base, as its record names it.
pub open spec fn stored_location(digest: Seq<u8>) -> Seq<char> {
    path_join(relative_dir(digest), file_stem(digest))
}

/// A cache engine made of a file store; the metadata store is held beside it
/// by the caller.
pub struct CacheEngine {
    cache_store: CacheStore,
}

impl View for CacheEngine {
    /// The file store's base directory.
    type V = Seq<char>;

    closed spec fn view(&self) -> Seq<char> {
        self.cache_store@
    }
}

impl CacheEngine {
    /// An engine whose file store is rooted at `base_dir`.
    pub fn new(base_dir: &str) -> (engine: Self)
        ensures
            engine@ == base_dir@,
    {
        Self { cache_store: CacheStore::new(base_dir) }
    }

    /// The engine's file store.
    pub fn cache_store(&self) -> (store: &CacheStore)
        ensures
            store@ == self@,
    {
        &self.cache_store
    }

    /// The directory (relative to the file store's base) that holds a key's
    /// file, and the file's name.
    pub fn build_cache_path(&self, cache_key: &str) -> (path: (String, String))
        ensures
            path.0@ == relative_dir(key_digest(cache_key@)),
            path.1@ == file_stem(key_digest(cache_key@)),
    {
        let digest = key_hash(cache_key);
        let empty = "";
        proof {
            reveal_strlit("");
            let f = first_dir(digest@);
            assert(path_join(empty@, f) =~= f);
        }
        cache_path_from_digest(empty, digest.as_slice())
    }

    /// The file of a key relative to the file store's base: what its record
    /// names.
    pub fn stored_location(&self, cache_key: &str) -> (location: String)
        ensures
            location@ == stored_location(key_digest(cache_key@)),
    {
        let (dir, name) = self.build_cache_path(cache_key);
        join_path(dir.as_str(), name.as_str())
    }

    /// The record a store of `cache_value` under `cache_key` at time `now`
    /// writes: the key's file, the value's length, and an expiry
    /// `ENTRY_LIFETIME_SECS` after `now`.
    pub fn store_record(&self, cache_key: &str, cache_value: &[u8], now: u64) -> (bytes: Vec<u8>)
        requires
            now <= u64::MAX - ENTRY_LIFETIME_SECS,
        ensures
            bytes@ == triple_encoding(
                encode_utf8(stored_location(key_digest(cache_key@))),
                cache_value@.len() as u64,
                (now + ENTRY_LIFETIME_SECS) as u64,
            ),
    {
        let meta = CacheMeta {
            clocation: self.stored_location(cache_key).as_str().as_bytes_vec(),
            size: cache_value.len() as u64,
            expired_at: now + ENTRY_LIFETIME_SECS,
        };
        meta.encode()
    }

    /// Decides a read at time `now` from what the metadata store answered
    /// for the key.
    pub fn read_action(meta: Option<Vec<u8>>, now: u64) -> (res: Result<ReadAction, MetaDecodeError>)
        ensures
            match read_outcome(answer_bytes(meta), now) {
                Some(outcome) => res matches Ok(action) && action@ == outcome,
                None => res is Err,
            },
    {
        match meta {
            None => Ok(ReadAction::Miss),
            Some(bytes) => match CacheMeta::decode(bytes.as_slice()) {
                Ok(m) => {
                    if m.expired_at < now {
                        Ok(ReadAction::Evict(m.clocation))
                    } else {
                        Ok(ReadAction::Fetch(m.clocation))
                    }
                },
                Err(e) => Err(e),
            },
        }
    }

    /// Decides a purge from what the metadata store answered for the key:
    /// the file to delete, `None` when there is no record.
    pub fn purge_target(meta: Option<Vec<u8>>) -> (res: Result<Option<Vec<u8>>, MetaDecodeError>)
        ensures
            match purge_outcome(answer_bytes(meta)) {
                Some(None) => res matches Ok(None),
                Some(Some(location)) => res matches Ok(Some(file)) && file@ == location,
                None => res is Err,
            },
    {
        match meta {
            None => Ok(None),
            Some(bytes) => match CacheMeta::decode(bytes.as_slice()) {
                Ok(m) => Ok(Some(m.clocation)),
                Err(e) => Err(e),
            },
        }
    }
}

/// Law: a read of the record that a store at `stored_at` wrote fetches the
/// stored file while `now` is at most `ENTRY_LIFETIME_SECS` after
/// `stored_at`, and evicts it afterwards; a purge of it deletes that file.
pub proof fn law_read_after_store(location: Seq<u8>, size: u64, stored_at: u64, now: u64)
    requires
        stored_at <= u64::MAX - ENTRY_LIFETIME_SECS,
        location.len() <= u64::MAX,
    ensures
        read_outcome(Some(triple_encoding(location, size, (stored_at + ENTRY_LIFETIME_SECS) as u64)), now)
            == Some(Some((now > stored_at + ENTRY_LIFETIME_SECS, location))),
        purge_outcome(Some(triple_encoding(location, size, (stored_at + ENTRY_LIFETIME_SECS) as u64)))
            == Some(Some(location)),
{
    let e: u64 = (stored_at + ENTRY_LIFETIME_SECS) as u64;
    law_triple_roundtrip(location, size, e, seq![]);
    assert(triple_encoding(location, size, e) + seq![] =~= triple_encoding(location, size, e));
}

/// Law: the file that the file store writes when a key is stored (its
/// directory, then the file name, joined onto the base) is the file that a
/// read or delete of the key's recorded location addresses.
pub proof fn law_stored_file_is_read_file(base: Seq<char>, digest: Seq<u8>)
    ensures
        path_join(path_join(base, relative_dir(digest)), file_stem(digest)) == path_join(
            base,
            stored_location(digest),
        ),
{
    lemma_join_assoc(base, relative_dir(digest), file_stem(digest));
}

/// Law: a digest's directory relative to the file store's base is its hex
/// spelling's first two digits, `/`, and the next two (five characters),
/// and the location its record names is that directory, `/`, and the rest
/// of the hex spelling; two digests share a location exactly when they are
/// the same digest.
pub proof fn law_relative_layout_spells_digest(d1: Seq<u8>, d2: Seq<u8>)
    requires
        d1.len() >= 2,
        d2.len() >= 2,
    ensures
        relative_dir(d1) == spelled_dir(hex_lower(d1)),
        relative_dir(d1).len() == 5,
        stored_location(d1) == spelled_file(hex_lower(d1)),
        stored_location(d1) == stored_location(d2) <==> d1 == d2,
{
    law_layout_spells_digest(seq![], d1);
    law_layout_spells_digest(seq![], d2);
    if stored_location(d1) == stored_location(d2) {
        lemma_spelled_file_injective(hex_lower(d1), hex_lower(d2));
        lemma_hex_injective(d1, d2);
    }
}

} // verus!
