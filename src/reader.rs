//! Reading finalised files: their size and aligned chunks.
use vstd::prelude::*;
use crate::path::{lemma_paths_distinct, ref_path};
use crate::token::{token_ref, FileRef};
use crate::{UploadError, CHUNK_SIZE};

verus! {

/// The final path that reads of the token `t` use.
pub open spec fn meta_outcome(root: Seq<char>, t: Seq<char>) -> Result<Seq<char>, UploadError> {
    match token_ref(t) {
        None => Err(UploadError::InvalidToken),
        Some(f) => match ref_path(root, f, false) {
            Some(p) => Ok(p),
            None => Err(UploadError::UnsupportedVersion),
        },
    }
}

/// The final path whose size `meta` reports. Fails with `InvalidToken` for a
/// malformed token and `UnsupportedVersion` for a reference with no path.
pub fn file_meta(root: &str, token: String) -> (r: Result<String, UploadError>)
    ensures
        match meta_outcome(root@, token@) {
            Ok(p) => r matches Ok(s) && s@ == p,
            Err(e) => r == Err::<String, UploadError>(e),
        },
{
    let reference = match FileRef::from_ref_string(token) {
        Some(f) => f,
        None => return Err(UploadError::InvalidToken),
    };
    match reference.to_path(root, false) {
        Some(p) => Ok(p),
        None => Err(UploadError::UnsupportedVersion),
    }
}

/// The final path to read one chunk from, at `offset`. An offset that is not a
/// multiple of `CHUNK_SIZE` fails with `RangeError` whatever the token; then a
/// malformed token fails with `InvalidToken` and a reference with no path with
/// `UnsupportedVersion`.
pub fn file_chunk(root: &str, token: String, offset: u64) -> (r: Result<String, UploadError>)
    ensures
        offset % CHUNK_SIZE != 0 ==> r == Err::<String, UploadError>(UploadError::RangeError),
        offset % CHUNK_SIZE == 0 ==> match meta_outcome(root@, token@) {
            Ok(p) => r matches Ok(s) && s@ == p,
            Err(e) => r == Err::<String, UploadError>(e),
        },
{
    if offset % CHUNK_SIZE != 0 {
        return Err(UploadError::RangeError);
    }
    file_meta(root, token)
}

/// The path that `meta` and chunk reads use for a token is never the staging
/// path that its chunk writes go to: until the staging file is renamed by
/// finalisation, readers find no file.
pub proof fn lemma_readers_skip_staging(root: Seq<char>, t: Seq<char>)
    ensures
        token_ref(t) matches Some(f) ==> (ref_path(root, f, false) matches Some(q) ==> ref_path(
            root,
            f,
            true,
        ) != Some(q)),
{
    if let Some(f) = token_ref(t) {
        lemma_paths_distinct(root, f, f);
    }
}

/// How many bytes a chunk read at `offset` returns from a file of `size` bytes.
pub open spec fn chunk_len_of(size: nat, offset: nat) -> nat {
    if offset >= size {
        0
    } else if size - offset < CHUNK_SIZE {
        (size - offset) as nat
    } else {
        CHUNK_SIZE as nat
    }
}

/// How many bytes a chunk read at `offset` returns from a file of `file_size`
/// bytes: a whole chunk, the rest of the file, or nothing at or past its end.
pub fn chunk_len(file_size: u64, offset: u64) -> (r: u64)
    ensures
        r == chunk_len_of(file_size as nat, offset as nat),
{
    if offset >= file_size {
        0
    } else if file_size - offset < CHUNK_SIZE {
        file_size - offset
    } else {
        CHUNK_SIZE
    }
}

} // verus!
