use jarus_cache::layout::{cache_path_from_digest, digest_parts, key_hash};
use jarus_cache::paths::join_path;
use jarus_cache::v1engine::{flat_cache_paths, JarusV1CacheEngine};

const ABC_DIGEST: &str = "ba7816bf8f01cfea414140de5dae2223b00361a396177a9cb410ff61f20015ad";

fn hex_of(bytes: &[u8]) -> String {
    let mut s = String::new();
    for b in bytes {
        s.push_str(&format!("{:02x}", b));
    }
    s
}

#[test]
fn key_hash_is_sha256_of_utf8_bytes() {
    let d = key_hash("abc");
    assert_eq!(d.len(), 32);
    assert_eq!(hex_of(&d), ABC_DIGEST);
    let d2 = key_hash("héllo");
    assert_eq!(hex_of(&d2), "3c48591d8d098a4538f5e013dfcf406e948eac4d3277b10bf614e295d6068179");
}

#[test]
fn digest_parts_spell_hex() {
    let d = key_hash("abc");
    let (a, b, f) = digest_parts(&d);
    assert_eq!(a, "ba");
    assert_eq!(b, "78");
    assert_eq!(f, &ABC_DIGEST[4..]);
    assert_eq!(f.len(), 60);
    assert_eq!(format!("{}{}{}", a, b, f), ABC_DIGEST);
}

#[test]
fn digest_parts_short_digest() {
    let (a, b, f) = digest_parts(&[0x00, 0xff]);
    assert_eq!(a, "00");
    assert_eq!(b, "ff");
    assert_eq!(f, "");
}

#[test]
fn join_path_rules() {
    assert_eq!(join_path("/base", "ab"), "/base/ab");
    assert_eq!(join_path("/base/", "ab"), "/base/ab");
    assert_eq!(join_path("", "ab"), "ab");
    assert_eq!(join_path("/base", "/abs"), "/abs");
    assert_eq!(join_path("/base", ""), "/base/");
    assert_eq!(join_path("a", "b/c"), "a/b/c");
}

#[test]
fn join_path_matches_pathbuf() {
    let cases = [("/base", "ab"), ("/base/", "ab"), ("", "ab"), ("/base", "/abs"), ("rel", "x/y")];
    for (b, p) in cases.iter() {
        let expected = std::path::PathBuf::from(b).join(p);
        assert_eq!(join_path(b, p), expected.to_str().unwrap());
    }
}

#[test]
fn cache_path_from_digest_relative_base() {
    let (dir, f) = cache_path_from_digest("", &[0x01, 0x02, 0xa0]);
    assert_eq!(dir, "01/02");
    assert_eq!(f, "a0");
}

#[test]
fn v1_build_cache_path_abc() {
    let e = JarusV1CacheEngine::new(String::from("/tmp/cache"));
    let (dir, f) = e.build_cache_path("abc");
    assert_eq!(dir, "/tmp/cache/ba/78");
    assert_eq!(f, &ABC_DIGEST[4..]);
    assert_eq!(e.cache_file_path("abc"), format!("/tmp/cache/ba/78/{}", &ABC_DIGEST[4..]));
}

#[test]
fn v1_build_cache_path_sample_key() {
    let e = JarusV1CacheEngine::new(String::from("/home/cache"));
    let key = "https://jarus2.jaruscdn.com/sample.html";
    let (dir, f) = e.build_cache_path(key);
    assert_eq!(dir, "/home/cache/f5/35");
    assert_eq!(f, "4ea95fb7fc92b07463232b396385756d6fb6d4d3fa68771d6b06941be8d9");
}

#[test]
fn v1_same_key_same_path() {
    let e = JarusV1CacheEngine::new(String::from("/c"));
    assert_eq!(e.build_cache_path("k1"), e.build_cache_path("k1"));
    assert_ne!(e.build_cache_path("k1"), e.build_cache_path("k2"));
}

#[test]
fn v1_flat_cache_paths() {
    let (dir, file) = flat_cache_paths("/base", "abc");
    assert_eq!(dir, "/base/ba/78");
    assert_eq!(file, format!("/base/ba/78/{}", &ABC_DIGEST[4..]));
    let (dir2, _) = flat_cache_paths("/base/", "abc");
    assert_eq!(dir2, "/base//ba/78");
}
