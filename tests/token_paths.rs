use chunkstore::token::{FileRef, FileRefV1};

fn sample_random() -> Vec<u8> {
    (0u8..16).collect()
}

#[test]
fn round_trip_with_size() {
    let r = FileRef::new_v1(1700000000, sample_random(), Some(1048576));
    let t = r.to_ref_string();
    let back = FileRef::from_ref_string(t).expect("token decodes");
    let v = back.v1().expect("version one");
    assert_eq!(v.created_at, 1700000000);
    assert_eq!(v.random, sample_random());
    assert_eq!(v.size, Some(1048576));
}

#[test]
fn round_trip_defaults_and_no_size() {
    let r = FileRef::new_v1(0, Vec::new(), None);
    let back = FileRef::from_ref_string(r.to_ref_string()).expect("token decodes");
    let v = back.v1().expect("version one");
    assert_eq!(v.created_at, 0);
    assert!(v.random.is_empty());
    assert_eq!(v.size, None);
}

#[test]
fn round_trip_zero_size_is_kept() {
    let r = FileRef::new_v1(5, vec![0xff; 16], Some(0));
    let back = FileRef::from_ref_string(r.to_ref_string()).unwrap();
    assert_eq!(back.v1().unwrap().size, Some(0));
}

#[test]
fn encoding_bytes_are_exact() {
    let r = FileRef::new_v1(1, vec![0xab, 0xcd], Some(300));
    let bytes = r.encode_to_vec();
    assert_eq!(bytes, vec![0x0a, 9, 0x08, 1, 0x12, 2, 0xab, 0xcd, 0x18, 0xac, 0x02]);
    let back = FileRef::decode(&bytes).unwrap();
    assert_eq!(back.v1().unwrap().size, Some(300));
}

#[test]
fn token_text_is_url_safe_base64() {
    let r = FileRef::new_v1(1, vec![0xab, 0xcd], Some(300));
    assert_eq!(r.to_ref_string(), "CgkIARICq80YrAI");
}

#[test]
fn malformed_text_is_rejected() {
    assert!(FileRef::from_ref_string("not base64!".to_string()).is_none());
    assert!(FileRef::from_ref_string("AB+/".to_string()).is_none());
}

#[test]
fn malformed_bytes_are_rejected() {
    // a length-delimited field that runs past the end
    assert!(FileRef::decode(&[0x0a, 5, 0x08]).is_none());
    // field number zero
    assert!(FileRef::decode(&[0x00, 1]).is_none());
    // a group wire type
    assert!(FileRef::decode(&[0x0b]).is_none());
    // created_at with the wrong wire type
    assert!(FileRef::decode(&[0x0a, 2, 0x0a, 0]).is_none());
}

#[test]
fn unknown_version_decodes_without_a_version() {
    let empty = FileRef::from_ref_string(String::new()).expect("empty payload is well formed");
    assert!(empty.v1().is_none());
    // an unknown field number 2, length-delimited, is skipped
    let other = FileRef::decode(&[0x12, 1, 0x00]).expect("well formed");
    assert!(other.v1().is_none());
    assert!(other.to_path("./data", true).is_none());
}

#[test]
fn unknown_fields_inside_v1_are_skipped() {
    let r = FileRef::decode(&[0x0a, 4, 0x08, 7, 0x20, 1]).unwrap();
    assert_eq!(r.v1().unwrap().created_at, 7);
}

#[test]
fn staging_and_final_paths() {
    let r = FileRef::new_v1(1700000000, sample_random(), Some(1048576));
    assert_eq!(
        r.to_path("./data", true).unwrap(),
        "./data/v1/2023/11/14_22/20231114_221320_s1048576_000102030405060708090a0b0c0d0e0f.tmp"
    );
    assert_eq!(
        r.to_path("./data", false).unwrap(),
        "./data/v1/2023/11/14_22/20231114_221320_s1048576_000102030405060708090a0b0c0d0e0f.bin"
    );
    assert_eq!(r.to_dir("./data").unwrap(), "./data/v1/2023/11/14_22");
}

#[test]
fn unknown_size_path_marker() {
    let r = FileRef::new_v1(0, vec![0xde, 0xad], None);
    assert_eq!(
        r.to_path("/srv", true).unwrap(),
        "/srv/v1/1970/01/01_00/19700101_000000_sunknown_dead.tmp"
    );
}

#[test]
fn equal_references_give_equal_paths() {
    let a = FileRef::new_v1(86399, vec![1, 2, 3], Some(9));
    let b = FileRef::from_ref_string(a.to_ref_string()).unwrap();
    assert_eq!(a.to_path("r", true), b.to_path("r", true));
    assert_eq!(a.to_path("r", false), b.to_path("r", false));
    assert_ne!(a.to_path("r", true), a.to_path("r", false));
    assert_eq!(a.to_path("r", false).unwrap(), "r/v1/1970/01/01_23/19700101_235959_s9_010203.bin");
}

#[test]
fn timestamp_beyond_signed_range_has_no_path() {
    let r = FileRef::new_v1(u64::MAX, vec![1], None);
    assert!(r.to_path("r", true).is_none());
    assert!(r.to_dir("r").is_none());
}

#[test]
fn empty_v1_is_default() {
    let v = FileRefV1::empty();
    assert_eq!(v.created_at, 0);
    assert!(v.random.is_empty());
    assert!(v.size.is_none());
}
