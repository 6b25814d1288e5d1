use chunkstore::checksum::{md5_blocks, Checksum};
use chunkstore::reader::{chunk_len, file_chunk, file_meta};
use chunkstore::session::{
    checksum_matches, plan_start, finalize_verdict, upload_chunk, upload_finalize, upload_get_limit,
    upload_start, UploadChunkQuery, UploadFinalizeBody, UploadFinalizeQuery, UploadStartQuery,
};
use chunkstore::token::FileRef;
use chunkstore::{UploadError, CHUNK_SIZE};

const ROOT: &str = "./data";

fn token_for(size: Option<u64>) -> String {
    FileRef::new_v1(1700000000, vec![7u8; 16], size).to_ref_string()
}

fn chunk_q(token: &str, offset: u64) -> UploadChunkQuery {
    UploadChunkQuery { token: token.to_string(), offset }
}

fn body(md5: &str) -> UploadFinalizeBody {
    UploadFinalizeBody { name: "file.bin".to_string(), md5: md5.to_string() }
}

#[test]
fn limit_is_one_gibibyte() {
    assert_eq!(upload_get_limit(), 1073741824);
}

#[test]
fn start_plans_a_fresh_reference() {
    let plan = upload_start(ROOT, &UploadStartQuery { file_size: 1048576 }, 1700000000).unwrap();
    let v = plan.reference.v1().unwrap();
    assert_eq!(v.random.len(), 16);
    assert_eq!(v.size, Some(1048576));
    assert_eq!(plan.dir, "./data/v1/2023/11/14_22");
    assert!(plan.staging_path.starts_with("./data/v1/2023/11/14_22/20231114_221320_s1048576_"));
    assert!(plan.staging_path.ends_with(".tmp"));
    let back = FileRef::from_ref_string(plan.token.clone()).unwrap();
    assert_eq!(back.to_path(ROOT, true).unwrap(), plan.staging_path);
}

#[test]
fn two_starts_draw_different_random_bytes() {
    let a = upload_start(ROOT, &UploadStartQuery { file_size: 1 }, 1).unwrap();
    let b = upload_start(ROOT, &UploadStartQuery { file_size: 1 }, 1).unwrap();
    assert_ne!(a.staging_path, b.staging_path);
}

#[test]
fn chunk_within_size_goes_to_staging() {
    let t = token_for(Some(1048576));
    let p = upload_chunk(ROOT, &chunk_q(&t, 0), 524288).unwrap();
    assert!(p.ends_with(".tmp"));
    assert_eq!(upload_chunk(ROOT, &chunk_q(&t, 524288), 524288).unwrap(), p);
    assert_eq!(upload_chunk(ROOT, &chunk_q(&t, 1048576), 0).unwrap(), p);
}

#[test]
fn chunk_past_declared_size_is_a_range_error() {
    let t = token_for(Some(1048576));
    assert_eq!(upload_chunk(ROOT, &chunk_q(&t, 524289), 524288), Err(UploadError::RangeError));
    assert_eq!(upload_chunk(ROOT, &chunk_q(&t, 1048577), 0), Err(UploadError::RangeError));
    assert_eq!(upload_chunk(ROOT, &chunk_q(&t, u64::MAX), 2), Err(UploadError::RangeError));
}

#[test]
fn chunk_without_declared_size_is_bounded_by_overflow_only() {
    let t = token_for(None);
    assert!(upload_chunk(ROOT, &chunk_q(&t, 1 << 40), 10).is_ok());
    assert_eq!(upload_chunk(ROOT, &chunk_q(&t, u64::MAX), 1), Err(UploadError::RangeError));
}

#[test]
fn chunk_with_bad_token() {
    assert_eq!(upload_chunk(ROOT, &chunk_q("***", 0), 1), Err(UploadError::InvalidToken));
    assert_eq!(upload_chunk(ROOT, &chunk_q("", 0), 1), Err(UploadError::UnsupportedVersion));
}

#[test]
fn finalize_paths() {
    let t = token_for(Some(10));
    let plan = upload_finalize(ROOT, &UploadFinalizeQuery { token: t.clone() }).unwrap();
    assert!(plan.staging_path.ends_with(".tmp"));
    assert!(plan.final_path.ends_with(".bin"));
    assert_eq!(file_meta(ROOT, t).unwrap(), plan.final_path);
    assert_eq!(
        upload_finalize(ROOT, &UploadFinalizeQuery { token: "%".to_string() }).err(),
        Some(UploadError::InvalidToken)
    );
    assert_eq!(
        upload_finalize(ROOT, &UploadFinalizeQuery { token: String::new() }).err(),
        Some(UploadError::UnsupportedVersion)
    );
}

#[test]
fn empty_digest_matches_in_either_case() {
    let d = Checksum::new().finish();
    assert_eq!(d.len(), 16);
    assert!(checksum_matches(&d, "d41d8cd98f00b204e9800998ecf8427e"));
    assert!(!checksum_matches(&d, "D41D8CD98F00B204E9800998ECF8427E"));
    assert_eq!(finalize_verdict(&d, &body("D41D8CD98F00B204E9800998ECF8427E")), Ok(()));
    assert_eq!(finalize_verdict(&d, &body("d41d8cd98f00b204e9800998ecf8427e")), Ok(()));
}

#[test]
fn known_digest() {
    let d = md5_blocks(b"abc", 2);
    assert!(checksum_matches(&d, "900150983cd24fb0d6963f7d28e17f72"));
    assert!(!checksum_matches(&d, "900150983cd24fb0d6963f7d28e17f73"));
}

#[test]
fn wrong_checksum_is_a_mismatch() {
    let d = md5_blocks(b"abc", 1);
    assert_eq!(finalize_verdict(&d, &body("00000000000000000000000000000000")), Err(UploadError::ChecksumMismatch));
    assert_eq!(finalize_verdict(&d, &body("")), Err(UploadError::ChecksumMismatch));
}

#[test]
fn misaligned_read_fails_whatever_the_token() {
    assert_eq!(file_chunk(ROOT, "***".to_string(), 1), Err(UploadError::RangeError));
    assert_eq!(file_chunk(ROOT, token_for(Some(1)), 524287), Err(UploadError::RangeError));
    assert_eq!(file_chunk(ROOT, String::new(), 524289), Err(UploadError::RangeError));
    assert_eq!(file_chunk(ROOT, "***".to_string(), 524288), Err(UploadError::InvalidToken));
}

#[test]
fn aligned_read_goes_to_final_path() {
    let t = token_for(Some(1048576));
    let p = file_chunk(ROOT, t.clone(), 524288).unwrap();
    assert!(p.ends_with(".bin"));
    assert_eq!(file_meta(ROOT, t), Ok(p));
    assert_eq!(file_meta(ROOT, String::new()), Err(UploadError::UnsupportedVersion));
}

#[test]
fn chunk_lengths() {
    assert_eq!(chunk_len(1048576, 0), CHUNK_SIZE);
    assert_eq!(chunk_len(1048576, 524288), 524288);
    assert_eq!(chunk_len(1000, 0), 1000);
    assert_eq!(chunk_len(1000, 524288), 0);
    assert_eq!(chunk_len(0, 0), 0);
}

#[test]
fn two_chunk_upload_scenario() {
    let plan = upload_start(ROOT, &UploadStartQuery { file_size: 1048576 }, 1700000000).unwrap();
    let first = vec![0xaau8; 524288];
    let second = vec![0xbbu8; 524288];
    let p0 = upload_chunk(ROOT, &chunk_q(&plan.token, 0), first.len() as u64).unwrap();
    let p1 = upload_chunk(ROOT, &chunk_q(&plan.token, 524288), second.len() as u64).unwrap();
    assert_eq!(p0, plan.staging_path);
    assert_eq!(p1, plan.staging_path);

    let expected = "3975535BE7BB34997B4C1194E351AD8C";
    let mut whole = first.clone();
    whole.extend_from_slice(&second);
    assert!(checksum_matches(&md5_blocks(&whole, 4096), "3975535be7bb34997b4c1194e351ad8c"));

    // the staging file as finalisation reads it, in chunk-sized blocks
    let mut sum = Checksum::new();
    sum.update(&first);
    sum.update(&second);
    let digest = sum.finish();
    assert_eq!(finalize_verdict(&digest, &body(expected)), Ok(()));

    let fin = upload_finalize(ROOT, &UploadFinalizeQuery { token: plan.token.clone() }).unwrap();
    assert_eq!(fin.staging_path, plan.staging_path);
    assert_eq!(file_meta(ROOT, plan.token.clone()).unwrap(), fin.final_path);
    assert_eq!(file_chunk(ROOT, plan.token.clone(), 0).unwrap(), fin.final_path);
    assert_eq!(chunk_len(1048576, 0), 524288);
    assert_eq!(chunk_len(1048576, 524288), 524288);
}

#[test]
fn wrong_checksum_scenario() {
    let plan = upload_start(ROOT, &UploadStartQuery { file_size: 3 }, 1700000000).unwrap();
    let mut sum = Checksum::new();
    sum.update(b"xyz");
    let digest = sum.finish();
    assert_eq!(
        finalize_verdict(&digest, &body("900150983cd24fb0d6963f7d28e17f72")),
        Err(UploadError::ChecksumMismatch)
    );
    assert_eq!(finalize_verdict(&digest, &body("d16fb36f0911f878998c136191af705e")), Ok(()));
    assert!(upload_finalize(ROOT, &UploadFinalizeQuery { token: plan.token }).is_ok());
}

#[test]
fn plan_start_with_chosen_random_bytes() {
    let r = FileRef::new_v1(0, vec![0x0f, 0xf0], Some(2));
    let plan = plan_start("/srv", r).unwrap();
    assert_eq!(plan.dir, "/srv/v1/1970/01/01_00");
    assert_eq!(plan.staging_path, "/srv/v1/1970/01/01_00/19700101_000000_s2_0ff0.tmp");
    assert_eq!(plan.token, FileRef::new_v1(0, vec![0x0f, 0xf0], Some(2)).to_ref_string());
}

#[test]
fn plan_start_beyond_the_calendar() {
    let r = FileRef::new_v1(u64::MAX, vec![1], Some(2));
    assert_eq!(plan_start("/srv", r).err(), Some(UploadError::UnsupportedVersion));
    assert_eq!(
        upload_start("/srv", &UploadStartQuery { file_size: 1 }, u64::MAX).err(),
        Some(UploadError::UnsupportedVersion)
    );
    let none = FileRef::from_ref_string(String::new()).unwrap();
    assert_eq!(plan_start("/srv", none).err(), Some(UploadError::UnsupportedVersion));
}

fn write_at(file: &mut Vec<u8>, offset: u64, bytes: &[u8]) {
    let start = offset as usize;
    if file.len() < start + bytes.len() {
        file.resize(start + bytes.len(), 0);
    }
    file[start..start + bytes.len()].copy_from_slice(bytes);
}

#[test]
fn out_of_order_chunks_reassemble() {
    let size: u64 = 2 * 524288 + 100;
    let plan = upload_start(ROOT, &UploadStartQuery { file_size: size }, 1700000000).unwrap();
    let pieces: Vec<(u64, Vec<u8>)> = vec![
        (1048576, vec![3u8; 100]),
        (0, vec![1u8; 524288]),
        (524288, vec![2u8; 524288]),
    ];
    let mut file = Vec::new();
    for (offset, bytes) in &pieces {
        let p = upload_chunk(ROOT, &chunk_q(&plan.token, *offset), bytes.len() as u64).unwrap();
        assert_eq!(p, plan.staging_path);
        write_at(&mut file, *offset, bytes);
    }
    assert_eq!(file.len() as u64, size);
    let mut sum = Checksum::new();
    for block in file.chunks(CHUNK_SIZE as usize) {
        sum.update(block);
    }
    assert_eq!(sum.finish(), md5_blocks(&file, 7));
    for (k, expected) in [(0u64, 1u8), (524288, 2), (1048576, 3)] {
        let n = chunk_len(size, k) as usize;
        let got = &file[k as usize..k as usize + n];
        assert!(got.iter().all(|b| *b == expected));
    }
    assert_eq!(chunk_len(size, 1048576), 100);
    assert_eq!(chunk_len(size, 1572864), 0);
}

#[test]
fn readers_never_use_the_staging_path() {
    let plan = upload_start(ROOT, &UploadStartQuery { file_size: 8 }, 1700000000).unwrap();
    let read_path = file_meta(ROOT, plan.token.clone()).unwrap();
    assert_ne!(read_path, plan.staging_path);
    assert_eq!(file_chunk(ROOT, plan.token, 0).unwrap(), read_path);
}
