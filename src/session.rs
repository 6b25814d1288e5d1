//! The upload protocol: start, chunk writes and finalisation.
//!
//! The functions here decide; the caller performs the file-system work that a
//! decision names (create the staging file, write at an offset, rename) and
//! performs none when a function returns an error.
use vstd::prelude::*;
use vstd::string::StringExecFns;
use crate::path::{ref_dir, ref_path, utc_date};
use crate::text::{hex_encode, hex_text};
use crate::token::{ref_token, token_ref, FileRef, FileRefV1View};
use crate::UploadError;

verus! {

/// Largest file size that clients are told they may upload.
pub const FILE_SIZE_LIMIT: u64 = 1073741824;

/// Number of random bytes in a new reference.
pub const RANDOM_LEN: usize = 16;

/// Request to start an upload of `file_size` bytes.
pub struct UploadStartQuery {
    pub file_size: u64,
}

/// Request to write a chunk at `offset` of the upload named by `token`.
pub struct UploadChunkQuery {
    pub token: String,
    pub offset: u64,
}

/// Request to finalise the upload named by `token`.
pub struct UploadFinalizeQuery {
    pub token: String,
}

/// What the client declares about a finished upload: a name, which is kept for
/// the record only, and the expected MD5 digest in hexadecimal.
pub struct UploadFinalizeBody {
    pub name: String,
    pub md5: String,
}

/// The largest file size that an upload may declare.
pub fn upload_get_limit() -> (r: u64)
    ensures
        r == FILE_SIZE_LIMIT,
{
    FILE_SIZE_LIMIT
}

/// A new upload: its reference and token, the directory to create, and the
/// staging file to create there (exclusively).
pub struct StartPlan {
    pub reference: FileRef,
    pub token: String,
    pub dir: String,
    pub staging_path: String,
}

/// `p` is the plan for a new upload of reference `r` under `root`.
pub open spec fn start_plan_of(root: Seq<char>, r: Option<FileRefV1View>, p: StartPlan) -> bool {
    p.reference@ == r && ref_dir(root, r) == Some(p.dir@) && ref_path(root, r, true) == Some(
        p.staging_path@,
    ) && p.token@ == ref_token(r)
}

/// The plan for a new upload of the reference `reference`; the reference names
/// no path when its creation time is beyond the calendar.
pub fn plan_start(root: &str, reference: FileRef) -> (r: Result<StartPlan, UploadError>)
    ensures
        match (ref_dir(root@, reference@), ref_path(root@, reference@, true)) {
            (Some(_), Some(_)) => r matches Ok(p) && start_plan_of(root@, reference@, p),
            _ => r == Err::<StartPlan, UploadError>(UploadError::UnsupportedVersion),
        },
{
    let dir = match reference.to_dir(root) {
        Some(d) => d,
        None => return Err(UploadError::UnsupportedVersion),
    };
    let staging_path = match reference.to_path(root, true) {
        Some(p) => p,
        None => return Err(UploadError::UnsupportedVersion),
    };
    let token = reference.to_ref_string();
    Ok(StartPlan { reference, token, dir, staging_path })
}

#[verifier::external_type_specification]
#[verifier::external_body]
pub struct ExSystemRandom(ring::rand::SystemRandom);

pub assume_specification[ ring::rand::SystemRandom::new ]() -> ring::rand::SystemRandom;

/// Relies on ring's `SecureRandom::fill` for `SystemRandom`: it overwrites the
/// buffer in place, keeping its length, and reports whether the operating
/// system supplied the bytes.
#[verifier::external_body]
fn fill_random(rng: &ring::rand::SystemRandom, buf: &mut Vec<u8>) -> (ok: bool)
    ensures
        final(buf)@.len() == old(buf)@.len(),
{
    ring::rand::SecureRandom::fill(rng, buf.as_mut_slice()).is_ok()
}

/// Starts an upload of `query.file_size` bytes at `created_at` (seconds since
/// the epoch): draws the random bytes from the system's secure source and
/// plans the new reference. Fails with `Io` when the source fails.
pub fn upload_start(root: &str, query: &UploadStartQuery, created_at: u64) -> (r: Result<
    StartPlan,
    UploadError,
>)
    ensures
        match r {
            Ok(p) => p.reference@ matches Some(v) && v.created_at == created_at && v.size == Some(
                query.file_size,
            ) && v.random.len() == RANDOM_LEN && start_plan_of(root@, p.reference@, p),
            Err(e) => e == UploadError::Io || e == UploadError::UnsupportedVersion,
        },
        created_at <= i64::MAX && utc_date(created_at as int) is Some ==> (r is Ok || r
            == Err::<StartPlan, UploadError>(UploadError::Io)),
        !(created_at <= i64::MAX && utc_date(created_at as int) is Some) ==> r is Err,
{
    let rng = ring::rand::SystemRandom::new();
    let mut random: Vec<u8> = vec![0u8; RANDOM_LEN];
    if !fill_random(&rng, &mut random) {
        return Err(UploadError::Io);
    }
    plan_start(root, FileRef::new_v1(created_at, random, Some(query.file_size)))
}

/// A chunk of `len` bytes at `offset` fits a file whose declared size is
/// `size`; with no declared size, only the 64-bit range bounds it.
pub open spec fn chunk_fits(size: Option<u64>, offset: u64, len: u64) -> bool {
    match size {
        Some(s) => offset + len <= s,
        None => offset + len <= u64::MAX,
    }
}

/// Where a chunk of `len` bytes at `offset` goes for the token `t`.
pub open spec fn chunk_outcome(root: Seq<char>, t: Seq<char>, offset: u64, len: u64) -> Result<
    Seq<char>,
    UploadError,
> {
    match token_ref(t) {
        None => Err(UploadError::InvalidToken),
        Some(None) => Err(UploadError::UnsupportedVersion),
        Some(Some(v)) => if !chunk_fits(v.size, offset, len) {
            Err(UploadError::RangeError)
        } else {
            match ref_path(root, Some(v), true) {
                Some(p) => Ok(p),
                None => Err(UploadError::UnsupportedVersion),
            }
        },
    }
}

/// Where a chunk of `len` bytes goes: the staging path to write at
/// `query.offset`. Fails with `InvalidToken` for a malformed token,
/// `UnsupportedVersion` for a reference with no path, and `RangeError` when the
/// chunk would end past the declared size.
pub fn upload_chunk(root: &str, query: &UploadChunkQuery, len: u64) -> (r: Result<String, UploadError>)
    ensures
        match chunk_outcome(root@, query.token@, query.offset, len) {
            Ok(p) => r matches Ok(s) && s@ == p,
            Err(e) => r == Err::<String, UploadError>(e),
        },
{
    let reference = match FileRef::from_ref_string(query.token.clone()) {
        Some(f) => f,
        None => return Err(UploadError::InvalidToken),
    };
    let v = match reference.v1() {
        Some(v) => v,
        None => return Err(UploadError::UnsupportedVersion),
    };
    let fits = match v.size {
        Some(s) => query.offset <= s && len <= s - query.offset,
        None => len <= u64::MAX - query.offset,
    };
    if !fits {
        return Err(UploadError::RangeError);
    }
    match reference.to_path(root, true) {
        Some(p) => Ok(p),
        None => Err(UploadError::UnsupportedVersion),
    }
}

/// The two paths of a finalisation: the staging file to check and the final
/// path to rename it to.
pub struct FinalizePlan {
    pub staging_path: String,
    pub final_path: String,
}

/// The staging and final paths that finalising the token `t` works on.
pub open spec fn finalize_outcome(root: Seq<char>, t: Seq<char>) -> Result<
    (Seq<char>, Seq<char>),
    UploadError,
> {
    match token_ref(t) {
        None => Err(UploadError::InvalidToken),
        Some(f) => match (ref_path(root, f, true), ref_path(root, f, false)) {
            (Some(s), Some(d)) => Ok((s, d)),
            _ => Err(UploadError::UnsupportedVersion),
        },
    }
}

/// The paths that finalising `query.token` works on. Fails with
/// `InvalidToken` for a malformed token and `UnsupportedVersion` for a
/// reference with no path.
pub fn upload_finalize(root: &str, query: &UploadFinalizeQuery) -> (r: Result<
    FinalizePlan,
    UploadError,
>)
    ensures
        match finalize_outcome(root@, query.token@) {
            Ok((s, d)) => r matches Ok(p) && p.staging_path@ == s && p.final_path@ == d,
            Err(e) => r == Err::<FinalizePlan, UploadError>(e),
        },
{
    let reference = match FileRef::from_ref_string(query.token.clone()) {
        Some(f) => f,
        None => return Err(UploadError::InvalidToken),
    };
    let staging_path = match reference.to_path(root, true) {
        Some(p) => p,
        None => return Err(UploadError::UnsupportedVersion),
    };
    let final_path = match reference.to_path(root, false) {
        Some(p) => p,
        None => return Err(UploadError::UnsupportedVersion),
    };
    Ok(FinalizePlan { staging_path, final_path })
}

/// `s` with each character mapped to its lower-case form.
pub uninterp spec fn lower_of(s: Seq<char>) -> Seq<char>;

/// Relies on `str::to_lowercase`, whose result depends on the characters alone.
#[verifier::external_body]
fn lowercase(s: &str) -> (r: String)
    ensures
        r@ == lower_of(s@),
{
    s.to_lowercase()
}

/// Whether `digest`, in lower-case hexadecimal, is exactly `expected_lower`.
pub fn checksum_matches(digest: &[u8], expected_lower: &str) -> (r: bool)
    ensures
        r == (hex_text(digest@) == expected_lower@),
{
    let actual = hex_encode(digest);
    let expected = String::from_str(expected_lower);
    actual == expected
}

/// The verdict on a staging file whose MD5 digest is `digest`, given the
/// client's expected digest in hexadecimal of either case: `Ok` when they
/// agree, else `ChecksumMismatch`, on which the staging file must be left as it
/// is and no final file made.
pub fn finalize_verdict(digest: &[u8], body: &UploadFinalizeBody) -> (r: Result<(), UploadError>)
    ensures
        r == if hex_text(digest@) == lower_of(body.md5@) {
            Ok::<(), UploadError>(())
        } else {
            Err(UploadError::ChecksumMismatch)
        },
{
    let expected = lowercase(body.md5.as_str());
    if checksum_matches(digest, expected.as_str()) {
        Ok(())
    } else {
        Err(UploadError::ChecksumMismatch)
    }
}

} // verus!
