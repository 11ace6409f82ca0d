//! The first engine: a cache rooted at a base directory, where every key's
//! value is one file whose place follows from the key's digest alone.

use vstd::prelude::*;
use vstd::string::*;
use crate::layout::{
    bucket_dir, cache_path_from_digest, file_stem, first_dir, hex_lower, key_digest, key_hash,
    law_file_identifies_digest, law_flat_file_identifies_digest, law_layout_spells_digest,
    lemma_hex_cuts, second_dir, spelled_dir, spelled_file,
};
use crate::paths::{join_path, path_join};

verus! {

/// A cache engine that keeps nothing but the base directory.
pub struct JarusV1CacheEngine {
    base_dir: String,
}

impl View for JarusV1CacheEngine {
    /// The base directory's path text.
    type V = Seq<char>;

    closed spec fn view(&self) -> Seq<char> {
        self.base_dir@
    }
}

/// The file that holds a key's value below `base`.
pub open spec fn cache_file(base: Seq<char>, key: Seq<char>) -> Seq<char> {
    path_join(bucket_dir(base, key_digest(key)), file_stem(key_digest(key)))
}

impl JarusV1CacheEngine {
    /// An engine rooted at `base_dir`.
    pub fn new(base_dir: String) -> (engine: Self)
        ensures
            engine@ == base_dir@,
    {
        Self { base_dir }
    }

    /// The directory that holds a key's file, and the file's name.
    pub fn build_cache_path(&self, cache_key: &str) -> (path: (String, String))
        ensures
            path.0@ == bucket_dir(self@, key_digest(cache_key@)),
            path.1@ == file_stem(key_digest(cache_key@)),
    {
        let digest = key_hash(cache_key);
        cache_path_from_digest(self.base_dir.as_str(), digest.as_slice())
    }

    /// The full path of the file that holds a key's value; storing, reading,
    /// checking and deleting a key all address this file.
    pub fn cache_file_path(&self, cache_key: &str) -> (file: String)
        ensures
            file@ == cache_file(self@, cache_key@),
    {
        let (dir, name) = self.build_cache_path(cache_key);
        join_path(dir.as_str(), name.as_str())
    }
}

/// The directory and file of a key below `base`, written as `base`, the two
/// directory names and the file name separated by single slashes.
pub open spec fn flat_paths(base: Seq<char>, key: Seq<char>) -> (Seq<char>, Seq<char>) {
    let d = key_digest(key);
    let dir = base + seq!['/'] + first_dir(d) + seq!['/'] + second_dir(d);
    (dir, dir + seq!['/'] + file_stem(d))
}

/// The directory and the file for a key below `base`, spelled by plain
/// concatenation with `/` between the parts (no path normalisation).
pub fn flat_cache_paths(base: &str, cache_key: &str) -> (paths: (String, String))
    ensures
        paths.0@ == flat_paths(base@, cache_key@).0,
        paths.1@ == flat_paths(base@, cache_key@).1,
{
    let digest = key_hash(cache_key);
    let (first, second, name) = crate::layout::digest_parts(digest.as_slice());
    let sep = "/";
    proof {
        reveal_strlit("/");
    }
    let dir = String::from_str(base).concat(sep).concat(first.as_str()).concat(sep).concat(second.as_str());
    let file = dir.clone().concat(sep).concat(name.as_str());
    (dir, file)
}

/// Law: the file that store, retrieve, exists and delete address of a key below `base` is the base joined with the
/// key's whole SHA-256 digest spelled in lower-case hex and cut as `xx/yy/rest`
/// (two digits, `/`, two digits, `/`, the other sixty for a 32-byte digest);
/// that file lies in the directory `build_cache_path` returns, which is the
/// base joined with `xx/yy`.
pub proof fn law_cache_file_spells_key_digest(base: Seq<char>, key: Seq<char>)
    ensures
        key_digest(key).len() >= 2 ==> {
            &&& cache_file(base, key) == path_join(base, spelled_file(hex_lower(key_digest(key))))
            &&& cache_file(base, key) == path_join(
                bucket_dir(base, key_digest(key)),
                file_stem(key_digest(key)),
            )
            &&& bucket_dir(base, key_digest(key)) == path_join(
                base,
                spelled_dir(hex_lower(key_digest(key))),
            )
        },
{
    if key_digest(key).len() >= 2 {
        law_layout_spells_digest(base, key_digest(key));
    }
}

/// Law: below one base, two keys are given the same file exactly when their
/// SHA-256 digests are equal; no part of a key is left out of its file.
pub proof fn law_cache_file_identifies_key_digest(base: Seq<char>, k1: Seq<char>, k2: Seq<char>)
    ensures
        key_digest(k1).len() >= 2 && key_digest(k2).len() >= 2 ==> (cache_file(base, k1) == cache_file(
            base,
            k2,
        ) <==> key_digest(k1) == key_digest(k2)),
{
    if key_digest(k1).len() >= 2 && key_digest(k2).len() >= 2 {
        law_layout_spells_digest(base, key_digest(k1));
        law_layout_spells_digest(base, key_digest(k2));
        law_file_identifies_digest(base, key_digest(k1), key_digest(k2));
    }
}

/// Law: the flat directory and file of a key are `base`, `/`, and the key's
/// whole SHA-256 digest spelled in lower-case hex and cut as `xx/yy` (the
/// directory) or `xx/yy/rest` (the file).
pub proof fn law_flat_paths_spell_key_digest(base: Seq<char>, key: Seq<char>)
    ensures
        key_digest(key).len() >= 2 ==> {
            &&& flat_paths(base, key).0 == base + seq!['/'] + spelled_dir(hex_lower(key_digest(key)))
            &&& flat_paths(base, key).1 == base + seq!['/'] + spelled_file(
                hex_lower(key_digest(key)),
            )
        },
{
    let d = key_digest(key);
    if d.len() >= 2 {
        lemma_hex_cuts(d);
        assert(flat_paths(base, key).0 =~= base + seq!['/'] + spelled_dir(hex_lower(d)));
        assert(flat_paths(base, key).1 =~= base + seq!['/'] + spelled_file(hex_lower(d)));
    }
}

/// Law: two keys are given the same flat file exactly when their SHA-256
/// digests are equal.
pub proof fn law_flat_file_identifies_key_digest(base: Seq<char>, k1: Seq<char>, k2: Seq<char>)
    ensures
        key_digest(k1).len() >= 2 && key_digest(k2).len() >= 2 ==> (flat_paths(base, k1).1
            == flat_paths(base, k2).1 <==> key_digest(k1) == key_digest(k2)),
{
    if key_digest(k1).len() >= 2 && key_digest(k2).len() >= 2 {
        law_flat_paths_spell_key_digest(base, k1);
        law_flat_paths_spell_key_digest(base, k2);
        law_flat_file_identifies_digest(base, key_digest(k1), key_digest(k2));
    }
}

} // verus!
