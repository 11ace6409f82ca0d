use jarus_cache::v2engine::CacheEngine;
use jarus_cache::v4engine::storage::CacheStore;

#[test]
fn v2_new_is_empty() {
    let e = CacheEngine::new("/base");
    assert!(!e.key_exists("k"));
    assert!(e.read_target("k").is_none());
    assert!(e.listing().is_empty());
}

#[test]
fn v2_store_then_exists_and_read() {
    let mut e = CacheEngine::new("/base");
    let loc = e.cache_file_path("abc");
    assert_eq!(loc, "/base/ba/78/16bf8f01cfea414140de5dae2223b00361a396177a9cb410ff61f20015ad");
    e.record_stored("abc", loc.clone(), 11);
    assert!(e.key_exists("abc"));
    assert_eq!(e.read_target("abc"), Some(loc));
}

#[test]
fn v2_purge_then_absent() {
    let mut e = CacheEngine::new("/base");
    e.record_stored("a", String::from("/x/a"), 1);
    e.record_stored("b", String::from("/x/b"), 2);
    assert!(e.forget("a"));
    assert!(!e.key_exists("a"));
    assert!(e.key_exists("b"));
    assert!(!e.forget("a"));
    assert_eq!(e.read_target("b"), Some(String::from("/x/b")));
}

#[test]
fn v2_restore_replaces_location() {
    let mut e = CacheEngine::new("/base");
    e.record_stored("a", String::from("/x/1"), 1);
    e.record_stored("a", String::from("/x/2"), 2);
    assert_eq!(e.read_target("a"), Some(String::from("/x/2")));
    assert_eq!(e.listing(), vec![(String::from("a"), String::from("/x/2"))]);
}

#[test]
fn v2_listing_each_key_once() {
    let mut e = CacheEngine::new("/base");
    e.record_stored("a", String::from("/x/a"), 1);
    e.record_stored("b", String::from("/x/b"), 2);
    e.record_stored("c", String::from("/x/c"), 3);
    e.forget("b");
    let mut l = e.listing();
    l.sort();
    assert_eq!(l, vec![(String::from("a"), String::from("/x/a")), (String::from("c"), String::from("/x/c"))]);
}

#[test]
fn store_resolve_and_file_location() {
    let s = CacheStore::new("/base");
    assert_eq!(s.resolve("ab/cd/ef"), "/base/ab/cd/ef");
    assert_eq!(s.resolve("/elsewhere"), "/elsewhere");
    assert_eq!(s.file_location("ab/cd", "ef"), "/base/ab/cd/ef");
    assert_eq!(s.file_location("ab/cd", "ef"), s.resolve("ab/cd/ef"));
}

#[test]
fn store_is_file_exists() {
    let s = CacheStore::new("/");
    assert!(s.is_file_exists("").unwrap());
    assert!(!s.is_file_exists("no-such-dir-xyz/no-such-file").unwrap());
    let missing = CacheStore::new("/no-such-base-dir-xyz");
    assert!(!missing.is_file_exists("file").unwrap());
}

#[test]
fn v2_record_key_stored_names_key_file() {
    let mut e = CacheEngine::new("/base");
    e.record_key_stored("abc", 9);
    assert!(e.key_exists("abc"));
    assert_eq!(e.read_target("abc"), Some(e.cache_file_path("abc")));
    assert_eq!(
        e.read_target("abc"),
        Some(String::from("/base/ba/78/16bf8f01cfea414140de5dae2223b00361a396177a9cb410ff61f20015ad"))
    );
}

#[test]
fn store_location_equals_read_location_any_parts() {
    let cases = [
        ("/base", "ab/cd", "ef"),
        ("/base", "/abs/dir", "f"),
        ("/base", "", "f"),
        ("/base/", "d/", "f"),
        ("", "d", "/abs"),
        ("/base", "d", ""),
        ("rel", "", ""),
    ];
    for (b, d, f) in cases.iter() {
        let s = CacheStore::new(b);
        let written = s.file_location(d, f);
        let joined = jarus_cache::paths::join_path(d, f);
        assert_eq!(written, s.resolve(&joined));
        let expected = std::path::PathBuf::from(b).join(d).join(f);
        assert_eq!(written, expected.to_str().unwrap());
    }
}
