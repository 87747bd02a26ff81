use btproto::infohash::{HashFn, InfoHash, InfoHashError};

#[test]
fn legacy_roundtrip() {
    let h = "807646161c8bad88781761dfc759eef870421098";
    let ih = InfoHash::from_sha1(h).unwrap();
    assert!(matches!(ih.hash_fn, HashFn::SHA1));
    assert_eq!(ih.value.len(), 20);
    assert_eq!(ih.to_hex(), h);
}

#[test]
fn legacy_rejects_wrong_length() {
    let r = InfoHash::from_sha1("abcdef");
    assert!(matches!(r, Err(InfoHashError::MalformedHash(6, 20))));
}

#[test]
fn legacy_rejects_non_hex() {
    let r = InfoHash::from_sha1("zz7646161c8bad88781761dfc759eef870421098");
    assert!(matches!(r, Err(InfoHashError::MalformedHash(40, 20))));
}

#[test]
fn multihash_roundtrip() {
    let m = "1220caf1e1c30e81cb361b9ee167c4aa64228a7fa4fa9f6105232b28ad099f3a302e";
    let ih = InfoHash::parse(m).unwrap();
    assert!(matches!(ih.hash_fn, HashFn::SHA2_256));
    assert_eq!(ih.value.len(), 32);
    assert_eq!(ih.to_multihash(), m);
}

#[test]
fn multihash_roundtrip_normalizes_case() {
    let upper = "1220CAF1E1C30E81CB361B9EE167C4AA64228A7FA4FA9F6105232B28AD099F3A302E";
    let lower = "1220caf1e1c30e81cb361b9ee167c4aa64228a7fa4fa9f6105232b28ad099f3a302e";
    let ih = InfoHash::parse(upper).unwrap();
    assert_eq!(ih.to_multihash(), lower);
}

#[test]
fn multihash_too_short() {
    assert!(matches!(InfoHash::parse(""), Err(InfoHashError::TooShort(0))));
    assert!(matches!(InfoHash::parse("12"), Err(InfoHashError::TooShort(2))));
    assert!(matches!(InfoHash::parse("1220"), Err(InfoHashError::TooShort(4))));
}

#[test]
fn multihash_malformed_length_field() {
    let r = InfoHash::parse("12zzcafe");
    match r {
        Err(InfoHashError::MalformedLength(l)) => assert_eq!(l, "zz"),
        _ => panic!("expected MalformedLength"),
    }
}

#[test]
fn multihash_digest_length_mismatch() {
    // declares twenty bytes but carries one byte of digest
    let r = InfoHash::parse("1114ab");
    assert!(matches!(r, Err(InfoHashError::MalformedHash(2, 20))));
}

#[test]
fn multihash_unknown_code() {
    let r = InfoHash::parse("ff01ab");
    match r {
        Err(InfoHashError::UnknownCode(c)) => assert_eq!(c, "ff"),
        _ => panic!("expected UnknownCode"),
    }
}

#[test]
fn multihash_non_hex_digest() {
    let r = InfoHash::parse("1102zzzz");
    assert!(matches!(r, Err(InfoHashError::TryInto)));
}

#[test]
fn registered_codes() {
    assert_eq!(HashFn::SHA1.code(), 0x11);
    assert_eq!(HashFn::SHA2_256.code(), 0x12);
    assert_eq!(HashFn::SHA2_512.code(), 0x13);
    assert_eq!(HashFn::SHA3.code(), 0x14);
    assert_eq!(HashFn::BLAKE2b.code(), 0x40);
    assert_eq!(HashFn::BLAKE2s.code(), 0x41);
    assert!(matches!(HashFn::from_code(0x12), Some(HashFn::SHA2_256)));
    assert!(matches!(HashFn::from_code(0x42), None));
    assert_eq!(HashFn::SHA1.digest_len(), 20);
    assert_eq!(HashFn::SHA2_256.digest_len(), 32);
}

#[test]
fn equality_by_function_and_digest() {
    let a = InfoHash::from_sha1("807646161c8bad88781761dfc759eef870421098").unwrap();
    let b = InfoHash::from_sha1("807646161C8BAD88781761DFC759EEF870421098").unwrap();
    assert!(a == b);
    let c = InfoHash::from_sha1("007646161c8bad88781761dfc759eef870421098").unwrap();
    assert!(a != c);
    // the same digest carried in the self-describing form is the same
    // identifier
    let d = InfoHash::parse("1114807646161c8bad88781761dfc759eef870421098").unwrap();
    assert!(a == d);
}

#[test]
fn every_registered_code_parses() {
    // one-byte digests under each registered code, declared length one
    for code in ["11", "12", "13", "14", "40", "41"] {
        let mut m = String::new();
        m.push_str(code);
        m.push_str("01ab");
        let ih = InfoHash::parse(&m).unwrap();
        assert_eq!(ih.value, vec![0xab]);
        assert_eq!(ih.to_multihash(), m);
    }
}
