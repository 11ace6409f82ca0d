//! The file store of the fourth engine: every path it is handed is taken
//! relative to its base directory.

use vstd::prelude::*;
use vstd::string::*;
use crate::paths::{join_path, path_join};

verus! {

/// `std::io::Error`, carried through unopened.
#[verifier::external_type_specification]
#[verifier::external_body]
pub struct ExIoError(std::io::Error);

/// Asks the file system with `std::path::Path::exists` whether something
/// exists at `path`. Nothing is claimed of the answer: it depends on the
/// file system at the moment of the call.
#[verifier::external_body]
fn path_exists(path: &str) -> bool {
    std::path::Path::new(path).exists()
}

/// A file store rooted at a base directory.
pub struct CacheStore {
    base_dir: String,
}

impl View for CacheStore {
    /// The base directory's path text.
    type V = Seq<char>;

    closed spec fn view(&self) -> Seq<char> {
        self.base_dir@
    }
}

impl CacheStore {
    /// A store rooted at `base_dir`.
    pub fn new(base_dir: &str) -> (store: Self)
        ensures
            store@ == base_dir@,
    {
        Self { base_dir: String::from_str(base_dir) }
    }

    /// The path that a path handed to the store stands for: the base
    /// directory joined with it. Reads, deletes and existence checks address
    /// this path.
    pub fn resolve(&self, path: &str) -> (abs: String)
        ensures
            abs@ == path_join(self@, path@),
    {
        join_path(self.base_dir.as_str(), path)
    }

    /// The file that a store of `file_name` into directory `path_to_store`
    /// writes; the directory is `resolve(path_to_store)`.
    pub fn file_location(&self, path_to_store: &str, file_name: &str) -> (file: String)
        ensures
            file@ == path_join(path_join(self@, path_to_store@), file_name@),
    {
        let dir = self.resolve(path_to_store);
        join_path(dir.as_str(), file_name)
    }

    /// Whether something exists at `file_path_to_search` below the base
    /// directory. The answer comes from the file system; the check itself
    /// never fails.
    pub fn is_file_exists(&self, file_path_to_search: &str) -> (res: Result<bool, std::io::Error>)
        ensures
            res is Ok,
    {
        let abs = self.resolve(file_path_to_search);
        Ok(path_exists(abs.as_str()))
    }
}

/// Law: the file a store of `file_name` into directory `dir` writes
/// (`file_location`) is the file that a read, delete or existence check of
/// `dir` joined with `file_name` addresses (`resolve`), for every base,
/// directory and file name.
pub proof fn law_store_then_read_same_path(base: Seq<char>, dir: Seq<char>, file_name: Seq<char>)
    ensures
        path_join(path_join(base, dir), file_name) == path_join(base, path_join(dir, file_name)),
{
    crate::paths::lemma_join_assoc(base, dir, file_name);
}

} // verus!
