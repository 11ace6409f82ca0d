use jarus_cache::v3engine::cache_engine::{CacheEngine as V3Engine, CacheMeta as PairMeta};
use jarus_cache::v4engine::cache_engine::{CacheEngine as V4Engine, CacheMeta as TripleMeta, ReadAction, ENTRY_LIFETIME_SECS};

#[test]
fn pair_encoding_small_values() {
    let m = PairMeta { clocation: "a/b".as_bytes().to_vec(), size: 5 };
    assert_eq!(m.encode(), vec![3, b'a', b'/', b'b', 5]);
}

#[test]
fn pair_encoding_varint_forms() {
    let m = PairMeta { clocation: Vec::new(), size: 250 };
    assert_eq!(m.encode(), vec![0, 250]);
    let m = PairMeta { clocation: Vec::new(), size: 251 };
    assert_eq!(m.encode(), vec![0, 251, 251, 0]);
    let m = PairMeta { clocation: Vec::new(), size: 0x1_0000 };
    assert_eq!(m.encode(), vec![0, 252, 0, 0, 1, 0]);
    let m = PairMeta { clocation: Vec::new(), size: 0x1_0000_0000 };
    assert_eq!(m.encode(), vec![0, 253, 0, 0, 0, 0, 1, 0, 0, 0]);
}

#[test]
fn pair_encoding_utf8_length_in_bytes() {
    let m = PairMeta { clocation: "é".as_bytes().to_vec(), size: 1 };
    assert_eq!(m.encode(), vec![2, 0xc3, 0xa9, 1]);
}

#[test]
fn pair_roundtrip() {
    let m = PairMeta { clocation: "/base/ab/cd/ef01".as_bytes().to_vec(), size: 123456 };
    let bytes = m.encode();
    let back = PairMeta::decode(&bytes).ok().unwrap();
    assert_eq!(back.clocation, "/base/ab/cd/ef01".as_bytes());
    assert_eq!(back.size, 123456);
}

#[test]
fn pair_decode_accepts_long_varint() {
    let back = PairMeta::decode(&[1, b'x', 251, 7, 0]).ok().unwrap();
    assert_eq!(back.clocation, "x".as_bytes());
    assert_eq!(back.size, 7);
}

#[test]
fn pair_decode_rejects_bad_input() {
    assert!(PairMeta::decode(&[]).is_err());
    assert!(PairMeta::decode(&[5, b'a']).is_err());
    assert!(PairMeta::decode(&[1, b'a', 254]).is_err());
    assert!(PairMeta::decode(&[1, b'a']).is_err());
}

#[test]
fn v3_lookup_target_cases() {
    assert!(matches!(V3Engine::lookup_target(None), Ok(None)));
    let bytes = PairMeta { clocation: "/f".as_bytes().to_vec(), size: 2 }.encode();
    match V3Engine::lookup_target(Some(bytes)) {
        Ok(Some(f)) => assert_eq!(f, b"/f"),
        _ => panic!("expected the recorded file"),
    }
    let err = V3Engine::lookup_target(Some(vec![9]));
    assert!(err.is_err());
    assert!(!err.err().unwrap().message.is_empty());
}

#[test]
fn triple_encoding_and_roundtrip() {
    let m = TripleMeta { clocation: "ab/cd/ef".as_bytes().to_vec(), size: 40, expired_at: 1_700_000_012 };
    let bytes = m.encode();
    let mut expected = vec![8];
    expected.extend_from_slice(b"ab/cd/ef");
    expected.push(40);
    expected.push(252);
    expected.extend_from_slice(&1_700_000_012u32.to_le_bytes());
    assert_eq!(bytes, expected);
    let back = TripleMeta::decode(&bytes).ok().unwrap();
    assert_eq!(back.clocation, "ab/cd/ef".as_bytes());
    assert_eq!(back.size, 40);
    assert_eq!(back.expired_at, 1_700_000_012);
}

#[test]
fn v4_store_record_then_read() {
    let e = V4Engine::new("/base");
    let now = 1_000u64;
    let bytes = e.store_record("abc", b"hello", now);
    let back = TripleMeta::decode(&bytes).ok().unwrap();
    assert_eq!(back.size, 5);
    assert_eq!(back.expired_at, now + ENTRY_LIFETIME_SECS);
    assert_eq!(back.clocation, e.stored_location("abc").as_bytes());
    assert_eq!(back.clocation, "ba/78/16bf8f01cfea414140de5dae2223b00361a396177a9cb410ff61f20015ad".as_bytes());
    match V4Engine::read_action(Some(bytes.clone()), now + 12) {
        Ok(ReadAction::Fetch(f)) => assert_eq!(f, back.clocation),
        _ => panic!("fresh entry must be fetched"),
    }
    match V4Engine::read_action(Some(bytes.clone()), now) {
        Ok(ReadAction::Fetch(_)) => {}
        _ => panic!("fresh entry must be fetched"),
    }
    match V4Engine::read_action(Some(bytes.clone()), now + 13) {
        Ok(ReadAction::Evict(f)) => assert_eq!(f, back.clocation),
        _ => panic!("expired entry must be evicted"),
    }
    match V4Engine::purge_target(Some(bytes)) {
        Ok(Some(f)) => assert_eq!(f, back.clocation),
        _ => panic!("purge must name the file"),
    }
}

#[test]
fn v4_miss_and_corrupt() {
    assert!(matches!(V4Engine::read_action(None, 5), Ok(ReadAction::Miss)));
    assert!(matches!(V4Engine::purge_target(None), Ok(None)));
    assert!(V4Engine::read_action(Some(vec![1, b'a', 2]), 5).is_err());
    assert!(V4Engine::purge_target(Some(vec![])).is_err());
}

#[test]
fn v4_build_cache_path_relative() {
    let e = V4Engine::new("/base");
    let (dir, f) = e.build_cache_path("https://jarusv4.jaruscdn.com/sample.html?a=5");
    assert_eq!(dir, "21/ad");
    assert_eq!(f, "33c6bda8a097c7deb35148744e2c6c56ab1e26d6b9bf5e5490508120f176");
    assert_eq!(e.cache_store().resolve(&dir), "/base/21/ad");
}

#[test]
fn v3_paths() {
    let e = V3Engine::new("/data");
    let (dir, f) = e.build_cache_path("https://jarusv3.jaruscdn.com/sample.html1");
    assert_eq!(dir, "/data/99/c1");
    assert_eq!(f, "928b32e947911aa57afdbbc208234ca08675e953885f6b1e7ea25993f79f");
    assert_eq!(e.cache_file_path("https://jarusv3.jaruscdn.com/sample.html1"), format!("/data/99/c1/{}", f));
}

#[test]
fn pair_encoding_matches_oxicode_pathbuf_record() {
    let path = std::path::PathBuf::from("/base/ab/cd/0123");
    let expected = oxicode::encode_to_vec(&(path.clone(), 4096u64)).unwrap();
    let m = PairMeta { clocation: "/base/ab/cd/0123".as_bytes().to_vec(), size: 4096 };
    assert_eq!(m.encode(), expected);
    let back = PairMeta::decode(&expected).ok().unwrap();
    assert_eq!(back.clocation, path.to_str().unwrap().as_bytes());
}

#[test]
fn triple_encoding_matches_oxicode_pathbuf_record() {
    let path = std::path::PathBuf::from("ab/cd/ef");
    let expected = oxicode::encode_to_vec(&(path, 7u64, u64::MAX)).unwrap();
    let m = TripleMeta { clocation: "ab/cd/ef".as_bytes().to_vec(), size: 7, expired_at: u64::MAX };
    assert_eq!(m.encode(), expected);
}

#[test]
fn v4_stored_file_is_read_file() {
    let e = V4Engine::new("/base");
    let key = "https://jarusv4.jaruscdn.com/sample.html?a=5";
    let (dir, name) = e.build_cache_path(key);
    let written = e.cache_store().file_location(&dir, &name);
    let read = e.cache_store().resolve(&e.stored_location(key));
    assert_eq!(written, read);
    assert_eq!(read, "/base/21/ad/33c6bda8a097c7deb35148744e2c6c56ab1e26d6b9bf5e5490508120f176");
}

#[test]
fn pair_decode_accepts_non_utf8_location() {
    let back = PairMeta::decode(&[2, 0xff, 0xfe, 9]).ok().unwrap();
    assert_eq!(back.clocation, vec![0xff, 0xfe]);
    assert_eq!(back.size, 9);
    match V3Engine::lookup_target(Some(vec![1, 0x80, 0])) {
        Ok(Some(f)) => assert_eq!(f, vec![0x80]),
        _ => panic!("a non-UTF-8 location is still a location"),
    }
}

#[test]
fn v3_store_record_names_key_file() {
    let e = V3Engine::new("/data");
    let key = "abc";
    let bytes = e.store_record(key, 42);
    let back = PairMeta::decode(&bytes).ok().unwrap();
    assert_eq!(back.clocation, e.cache_file_path(key).as_bytes());
    assert_eq!(back.size, 42);
    match V3Engine::lookup_target(Some(bytes)) {
        Ok(Some(f)) => assert_eq!(f, e.cache_file_path(key).as_bytes()),
        _ => panic!("lookup must find the stored file"),
    }
}
