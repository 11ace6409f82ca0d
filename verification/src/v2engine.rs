//! The second engine: the digest layout of the first, plus an in-memory
//! table that records, for every stored key, where its file is and how many
//! bytes it held. Lookups, existence checks and purges go through the table.

use vstd::prelude::*;
use vstd::hash_map::StringHashMap;
use vstd::string::*;
use crate::layout::{
    bucket_dir, cache_path_from_digest, file_stem, hex_lower, key_digest, key_hash,
    law_file_identifies_digest, law_layout_spells_digest, spelled_file, spelled_dir,
};
use crate::paths::path_join;
use crate::paths::join_path;

verus! {

/// What the table records of one stored key.
pub struct CacheMeta {
    /// The file that holds the value.
    pub clocation: String,
    /// The file's length in bytes when it was stored.
    pub size: u64,
}

/// The file below `base` that holds `key`'s value.
pub open spec fn key_file(base: Seq<char>, key: Seq<char>) -> Seq<char> {
    crate::paths::path_join(bucket_dir(base, key_digest(key)), file_stem(key_digest(key)))
}

/// A cache engine with an in-memory metadata table.
pub struct CacheEngine {
    base_dir: String,
    meta: StringHashMap<CacheMeta>,
    /// Every key of the table once, in the order keys were first recorded.
    keys: Vec<String>,
}

impl View for CacheEngine {
    /// The table: for every recorded key, its file's location and size.
    type V = Map<Seq<char>, (Seq<char>, u64)>;

    closed spec fn view(&self) -> Map<Seq<char>, (Seq<char>, u64)> {
        Map::new(
            |k: Seq<char>| self.meta@.contains_key(k),
            |k: Seq<char>| (self.meta@[k].clocation@, self.meta@[k].size),
        )
    }
}

impl CacheEngine {
    /// The base directory's path text.
    pub closed spec fn base(&self) -> Seq<char> {
        self.base_dir@
    }

    /// The key list names each key of the table exactly once.
    pub closed spec fn wf(&self) -> bool {
        &&& forall|i: int|
            0 <= i < self.keys.len() ==> self.meta@.contains_key(#[trigger] self.keys@[i]@)
        &&& forall|k: Seq<char>|
            #![trigger self.meta@.contains_key(k)]
            self.meta@.contains_key(k) ==> exists|i: int|
                0 <= i < self.keys.len() && #[trigger] self.keys@[i]@ == k
        &&& forall|i: int, j: int|
            0 <= i < j < self.keys.len() ==> #[trigger] self.keys@[i]@ != #[trigger] self.keys@[j]@
    }

    /// An engine rooted at `base_dir` with an empty table.
    pub fn new(base_dir: &str) -> (engine: Self)
        ensures
            engine.wf(),
            engine.base() == base_dir@,
            engine@ == Map::<Seq<char>, (Seq<char>, u64)>::empty(),
    {
        let engine = Self {
            base_dir: String::from_str(base_dir),
            meta: StringHashMap::new(),
            keys: Vec::new(),
        };
        assert(engine@ =~= Map::<Seq<char>, (Seq<char>, u64)>::empty());
        engine
    }

    /// The directory that holds a key's file, and the file's name.
    pub fn build_cache_path(&self, cache_key: &str) -> (path: (String, String))
        ensures
            path.0@ == bucket_dir(self.base(), key_digest(cache_key@)),
            path.1@ == file_stem(key_digest(cache_key@)),
    {
        let digest = key_hash(cache_key);
        cache_path_from_digest(self.base_dir.as_str(), digest.as_slice())
    }

    /// The full path of the file that a store of this key writes.
    pub fn cache_file_path(&self, cache_key: &str) -> (file: String)
        ensures
            file@ == key_file(self.base(), cache_key@),
    {
        let (dir, name) = self.build_cache_path(cache_key);
        join_path(dir.as_str(), name.as_str())
    }

    /// Records that `cache_key`'s value now lives at `clocation` with `size`
    /// bytes, replacing what was recorded of the key before.
    pub fn record_stored(&mut self, cache_key: &str, clocation: String, size: u64)
        requires
            old(self).wf(),
        ensures
            final(self).wf(),
            final(self).base() == old(self).base(),
            final(self)@ == old(self)@.insert(cache_key@, (clocation@, size)),
            final(self)@ == apply_op(
                old(self)@,
                TableOp::Store { key: cache_key@, location: clocation@, size },
            ),
    {
        let ghost loc = clocation@;
        let present = self.meta.contains_key(cache_key);
        let ghost old_keys = self.keys@;
        if !present {
            self.keys.push(String::from_str(cache_key));
            assert(self.keys@[old_keys.len() as int]@ == cache_key@);
        }
        self.meta.insert(String::from_str(cache_key), CacheMeta { clocation, size });
        proof {
            assert forall|k: Seq<char>| #![trigger self.meta@.contains_key(k)]
                self.meta@.contains_key(k) implies exists|i: int|
                    0 <= i < self.keys.len() && #[trigger] self.keys@[i]@ == k by {
                if k == cache_key@ {
                    if present {
                        let i: int = choose|i: int| 0 <= i < old_keys.len() && #[trigger] old_keys[i]@ == k;
                        assert(self.keys@[i]@ == k);
                    } else {
                        assert(self.keys@[old_keys.len() as int]@ == k);
                    }
                } else {
                    assert(old(self).meta@.contains_key(k));
                    let i: int = choose|i: int| 0 <= i < old_keys.len() && #[trigger] old_keys[i]@ == k;
                    assert(self.keys@[i]@ == k);
                }
            }
            assert(self@ =~= old(self)@.insert(cache_key@, (loc, size)));
        }
    }

    /// Records that `cache_key`'s value was stored in the key's own file
    /// (`cache_file_path`) and that file holds `size` bytes, replacing what was
    /// recorded of the key before.
    pub fn record_key_stored(&mut self, cache_key: &str, size: u64)
        requires
            old(self).wf(),
        ensures
            final(self).wf(),
            final(self).base() == old(self).base(),
            final(self)@ == old(self)@.insert(cache_key@, (key_file(old(self).base(), cache_key@), size)),
    {
        let location = self.cache_file_path(cache_key);
        self.record_stored(cache_key, location, size);
    }

    /// Whether the table records `cache_key`.
    pub fn key_exists(&self, cache_key: &str) -> (found: bool)
        ensures
            found == self@.contains_key(cache_key@),
    {
        self.meta.contains_key(cache_key)
    }

    /// The file that holds `cache_key`'s value, or `None` when the table does
    /// not record the key (a read then answers with no bytes, a purge with
    /// `false`).
    pub fn read_target(&self, cache_key: &str) -> (target: Option<String>)
        ensures
            match target {
                Some(file) => self@.contains_key(cache_key@) && self@[cache_key@].0 == file@,
                None => !self@.contains_key(cache_key@),
            },
    {
        match self.meta.get(cache_key) {
            Some(m) => Some(m.clocation.clone()),
            None => None,
        }
    }

    /// Drops `cache_key` from the table; answers whether it was recorded.
    pub fn forget(&mut self, cache_key: &str) -> (was_recorded: bool)
        requires
            old(self).wf(),
        ensures
            final(self).wf(),
            final(self).base() == old(self).base(),
            was_recorded == old(self)@.contains_key(cache_key@),
            final(self)@ == old(self)@.remove(cache_key@),
            final(self)@ == apply_op(old(self)@, TableOp::Purge { key: cache_key@ }),
    {
        let present = self.meta.contains_key(cache_key);
        if !present {
            assert(self@ =~= old(self)@.remove(cache_key@));
            return false;
        }
        let target = String::from_str(cache_key);
        let mut i: usize = 0;
        while i < self.keys.len()
            invariant
                old(self).wf(),
                self.keys@ == old(self).keys@,
                self.meta@ == old(self).meta@,
                self.meta@.contains_key(cache_key@),
                target@ == cache_key@,
                0 <= i <= self.keys.len(),
                forall|j: int| 0 <= j < i ==> #[trigger] self.keys@[j]@ != cache_key@,
            ensures
                self.keys@ == old(self).keys@,
                self.meta@ == old(self).meta@,
                0 <= i <= self.keys.len(),
                i < self.keys.len() ==> self.keys@[i as int]@ == cache_key@,
                forall|j: int| 0 <= j < i ==> #[trigger] self.keys@[j]@ != cache_key@,
            decreases self.keys.len() - i,
        {
            if self.keys[i] == target {
                break;
            }
            i = i + 1;
        }
        proof {
            if i == self.keys.len() {
                let j: int = choose|j: int| 0 <= j < self.keys.len() && #[trigger] self.keys@[j]@ == cache_key@;
                assert(false);
            }
        }
        let ghost old_keys = self.keys@;
        self.keys.remove(i);
        self.meta.remove(cache_key);
        proof {
            assert forall|j: int| 0 <= j < self.keys.len() implies self.meta@.contains_key(
                #[trigger] self.keys@[j]@,
            ) by {
                if j < i {
                    assert(self.keys@[j] == old_keys[j]);
                } else {
                    assert(self.keys@[j] == old_keys[j + 1]);
                    assert(old_keys[i as int]@ != old_keys[j + 1]@);
                }
            }
            assert forall|k: Seq<char>| #![trigger self.meta@.contains_key(k)]
                self.meta@.contains_key(k) implies exists|j: int|
                    0 <= j < self.keys.len() && #[trigger] self.keys@[j]@ == k by {
                assert(old(self).meta@.contains_key(k));
                let j: int = choose|j: int| 0 <= j < old_keys.len() && #[trigger] old_keys[j]@ == k;
                assert(j != i);
                if j < i {
                    assert(self.keys@[j]@ == k);
                } else {
                    assert(self.keys@[j - 1]@ == k);
                }
            }
            assert forall|a: int, b: int| 0 <= a < b < self.keys.len() implies #[trigger] self.keys@[a]@
                != #[trigger] self.keys@[b]@ by {
                let a0: int = if a < i { a } else { a + 1 };
                let b0: int = if b < i { b } else { b + 1 };
                assert(self.keys@[a] == old_keys[a0]);
                assert(self.keys@[b] == old_keys[b0]);
                assert(old_keys[a0]@ != old_keys[b0]@);
            }
            assert(self@ =~= old(self)@.remove(cache_key@));
        }
        true
    }

    /// Every recorded key once, each with the location of its file.
    pub fn listing(&self) -> (entries: Vec<(String, String)>)
        requires
            self.wf(),
        ensures
            entries.len() == self@.dom().len(),
            forall|i: int|
                0 <= i < entries.len() ==> self@.contains_key(#[trigger] entries@[i].0@)
                    && self@[entries@[i].0@].0 == entries@[i].1@,
            forall|k: Seq<char>|
                #![trigger self@.contains_key(k)]
                self@.contains_key(k) ==> exists|i: int|
                    0 <= i < entries.len() && #[trigger] entries@[i].0@ == k,
            forall|i: int, j: int|
                0 <= i < j < entries.len() ==> #[trigger] entries@[i].0@ != #[trigger] entries@[j].0@,
    {
        let mut entries: Vec<(String, String)> = Vec::new();
        let n: usize = self.keys.len();
        let mut i: usize = 0;
        while i < n
            invariant
                self.wf(),
                n == self.keys.len(),
                0 <= i <= n,
                entries.len() == i,
                forall|j: int| 0 <= j < i ==> (#[trigger] entries@[j]).0 == self.keys@[j],
                forall|j: int|
                    0 <= j < i ==> (#[trigger] entries@[j]).1@ == self.meta@[self.keys@[j]@].clocation@,
            decreases n - i,
        {
            let k = &self.keys[i];
            assert(self.meta@.contains_key(k@));
            match self.meta.get(k.as_str()) {
                Some(m) => {
                    entries.push((k.clone(), m.clocation.clone()));
                },
                None => {
                    assert(false);
                },
            }
            i = i + 1;
        }
        proof {
            assert forall|i: int| 0 <= i < entries.len() implies self@.contains_key(
                #[trigger] entries@[i].0@,
            ) && self@[entries@[i].0@].0 == entries@[i].1@ by {
                assert(entries@[i].0 == self.keys@[i]);
            }
            assert forall|k: Seq<char>| #![trigger self@.contains_key(k)]
                self@.contains_key(k) implies exists|i: int|
                    0 <= i < entries.len() && #[trigger] entries@[i].0@ == k by {
                assert(self.meta@.contains_key(k));
                let j: int = choose|j: int| 0 <= j < self.keys.len() && #[trigger] self.keys@[j]@ == k;
                assert(entries@[j].0 == self.keys@[j]);
            }
            assert forall|a: int, b: int| 0 <= a < b < entries.len() implies #[trigger] entries@[a].0@
                != #[trigger] entries@[b].0@ by {
                assert(entries@[a].0 == self.keys@[a]);
                assert(entries@[b].0 == self.keys@[b]);
            }
            let ks = Seq::new(self.keys.len() as nat, |j: int| self.keys@[j]@);
            lemma_key_count(self, ks);
        }
        entries
    }
}

/// Law: the file that a store writes and records of a key below `base` is the base joined with the
/// key's whole SHA-256 digest spelled in lower-case hex and cut as `xx/yy/rest`
/// (two digits, `/`, two digits, `/`, the other sixty for a 32-byte digest);
/// that file lies in the directory `build_cache_path` returns, which is the
/// base joined with `xx/yy`.
pub proof fn law_key_file_spells_key_digest(base: Seq<char>, key: Seq<char>)
    ensures
        key_digest(key).len() >= 2 ==> {
            &&& key_file(base, key) == path_join(base, spelled_file(hex_lower(key_digest(key))))
            &&& key_file(base, key) == path_join(
                bucket_dir(base, key_digest(key)),
                file_stem(key_digest(key)),
            )
            &&& bucket_dir(base, key_digest(key)) == path_join(
                base,
                spelled_dir(hex_lower(key_digest(key))),
            )
        },
{
    if key_digest(key).len() >= 2 {
        law_layout_spells_digest(base, key_digest(key));
    }
}

/// Law: below one base, two keys are given the same file exactly when their
/// SHA-256 digests are equal; no part of a key is left out of its file.
pub proof fn law_key_file_identifies_key_digest(base: Seq<char>, k1: Seq<char>, k2: Seq<char>)
    ensures
        key_digest(k1).len() >= 2 && key_digest(k2).len() >= 2 ==> (key_file(base, k1) == key_file(
            base,
            k2,
        ) <==> key_digest(k1) == key_digest(k2)),
{
    if key_digest(k1).len() >= 2 && key_digest(k2).len() >= 2 {
        law_layout_spells_digest(base, key_digest(k1));
        law_layout_spells_digest(base, key_digest(k2));
        law_file_identifies_digest(base, key_digest(k1), key_digest(k2));
    }
}

/// One operation on the metadata table, as a store or a purge performs it.
pub enum TableOp {
    /// A store recorded `key` with its file's location and size.
    Store { key: Seq<char>, location: Seq<char>, size: u64 },
    /// A purge dropped `key`.
    Purge { key: Seq<char> },
}

/// The table after one operation.
pub open spec fn apply_op(table: Map<Seq<char>, (Seq<char>, u64)>, op: TableOp) -> Map<
    Seq<char>,
    (Seq<char>, u64),
> {
    match op {
        TableOp::Store { key, location, size } => table.insert(key, (location, size)),
        TableOp::Purge { key } => table.remove(key),
    }
}

/// The table after a history of operations, oldest first.
pub open spec fn replay(table: Map<Seq<char>, (Seq<char>, u64)>, ops: Seq<TableOp>) -> Map<
    Seq<char>,
    (Seq<char>, u64),
>
    decreases ops.len(),
{
    if ops.len() == 0 {
        table
    } else {
        apply_op(replay(table, ops.drop_last()), ops.last())
    }
}

/// Whether an operation is a store of `key`.
pub open spec fn stores(op: TableOp, key: Seq<char>) -> bool {
    op matches TableOp::Store { key: k, .. } && k == key
}

/// Whether an operation is a purge of `key`.
pub open spec fn purges(op: TableOp, key: Seq<char>) -> bool {
    op matches TableOp::Purge { key: k } && k == key
}

/// Whether some store of `key` in the history has no purge of `key` after it.
pub open spec fn stored_and_not_purged(ops: Seq<TableOp>, key: Seq<char>) -> bool {
    exists|i: int|
        0 <= i < ops.len() && #[trigger] stores(ops[i], key) && forall|j: int|
            i < j < ops.len() ==> !purges(#[trigger] ops[j], key)
}

/// Law: starting from the empty table of a new engine, a key exists after a
/// history of stores and purges exactly when some store of it has no purge
/// of it after that store. The file system plays no part.
pub proof fn law_exists_iff_stored_not_purged(ops: Seq<TableOp>, key: Seq<char>)
    ensures
        replay(Map::empty(), ops).contains_key(key) <==> stored_and_not_purged(ops, key),
    decreases ops.len(),
{
    if ops.len() == 0 {
    } else {
        let pre = ops.drop_last();
        let n = ops.len() - 1;
        law_exists_iff_stored_not_purged(pre, key);
        let last = ops.last();
        if stores(last, key) {
            assert(stores(ops[n], key));
        } else if purges(last, key) {
            if stored_and_not_purged(ops, key) {
                let i = choose|i: int|
                    0 <= i < ops.len() && #[trigger] stores(ops[i], key) && forall|j: int|
                        i < j < ops.len() ==> !purges(#[trigger] ops[j], key);
                assert(i != n);
                assert(!purges(ops[n], key));
            }
        } else {
            assert(replay(Map::empty(), ops).contains_key(key) == replay(Map::empty(), pre).contains_key(key));
            if stored_and_not_purged(ops, key) {
                let i = choose|i: int|
                    0 <= i < ops.len() && #[trigger] stores(ops[i], key) && forall|j: int|
                        i < j < ops.len() ==> !purges(#[trigger] ops[j], key);
                assert(i != n);
                assert(stores(pre[i], key));
                assert forall|j: int| i < j < pre.len() implies !purges(#[trigger] pre[j], key) by {
                    assert(pre[j] == ops[j]);
                }
            }
            if stored_and_not_purged(pre, key) {
                let i = choose|i: int|
                    0 <= i < pre.len() && #[trigger] stores(pre[i], key) && forall|j: int|
                        i < j < pre.len() ==> !purges(#[trigger] pre[j], key);
                assert(stores(ops[i], key));
                assert forall|j: int| i < j < ops.len() implies !purges(#[trigger] ops[j], key) by {
                    if j < n {
                        assert(pre[j] == ops[j]);
                    }
                }
            }
        }
    }
}

/// The table has as many keys as the key list has entries.
proof fn lemma_key_count(e: &CacheEngine, ks: Seq<Seq<char>>)
    requires
        e.wf(),
        ks == Seq::new(e.keys.len() as nat, |j: int| e.keys@[j]@),
    ensures
        e@.dom().len() == e.keys.len(),
{
    assert(ks.no_duplicates()) by {
        assert forall|a: int, b: int| 0 <= a < ks.len() && 0 <= b < ks.len() && a != b implies ks[a]
            != ks[b] by {
            if a < b {
                assert(e.keys@[a]@ != e.keys@[b]@);
            } else {
                assert(e.keys@[b]@ != e.keys@[a]@);
            }
        }
    }
    assert(ks.to_set() =~= e@.dom()) by {
        assert forall|k: Seq<char>| ks.to_set().contains(k) <==> e@.dom().contains(k) by {
            if e.meta@.contains_key(k) {
                let j: int = choose|j: int| 0 <= j < e.keys.len() && #[trigger] e.keys@[j]@ == k;
                assert(ks[j] == k);
            }
            if ks.to_set().contains(k) {
                let j: int = choose|j: int| 0 <= j < ks.len() && ks[j] == k;
                assert(e.keys@[j]@ == k);
            }
        }
    }
    ks.unique_seq_to_set();
}

} // verus!
