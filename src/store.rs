//! What the file system does with the writes and reads that the protocol
//! names, and what an upload that covers its declared size reads back as.
use vstd::prelude::*;
use crate::checksum::md5_of;
use crate::reader::{chunk_len_of, meta_outcome};
use crate::session::{chunk_fits, chunk_outcome, finalize_outcome, lower_of};
use crate::text::hex_text;
use crate::token::token_ref;
use crate::{UploadError, CHUNK_SIZE};

verus! {

/// `content` after `bytes` is written at `offset`: the file grows to hold them,
/// and a gap before them reads as zero bytes.
pub open spec fn write_at(content: Seq<u8>, offset: nat, bytes: Seq<u8>) -> Seq<u8> {
    let end = if content.len() > offset + bytes.len() {
        content.len()
    } else {
        offset + bytes.len()
    };
    Seq::new(
        end as nat,
        |i: int|
            if offset <= i < offset + bytes.len() {
                bytes[i - offset]
            } else if i < content.len() {
                content[i]
            } else {
                0u8
            },
    )
}

/// An empty staging file after the writes `ws`, in order.
pub open spec fn apply_writes(ws: Seq<(u64, Seq<u8>)>) -> Seq<u8>
    decreases ws.len(),
{
    if ws.len() == 0 {
        Seq::empty()
    } else {
        let w = ws.last();
        write_at(apply_writes(ws.drop_last()), w.0 as nat, w.1)
    }
}

/// The byte that the last of the writes `ws` to cover position `i` put there.
pub open spec fn last_written(ws: Seq<(u64, Seq<u8>)>, i: int) -> Option<u8>
    decreases ws.len(),
{
    if ws.len() == 0 {
        None
    } else {
        let w = ws.last();
        if w.0 <= i < w.0 + w.1.len() {
            Some(w.1[i - w.0])
        } else {
            last_written(ws.drop_last(), i)
        }
    }
}

/// Where the last of the writes `ws` ends.
pub open spec fn max_end(ws: Seq<(u64, Seq<u8>)>) -> nat
    decreases ws.len(),
{
    if ws.len() == 0 {
        0
    } else {
        let w = ws.last();
        let e = (w.0 + w.1.len()) as nat;
        let m = max_end(ws.drop_last());
        if m > e {
            m
        } else {
            e
        }
    }
}

/// The `k`-th write of `ws` is accepted for a file of declared size `size`.
pub open spec fn fits_at(size: u64, ws: Seq<(u64, Seq<u8>)>, k: int) -> bool {
    ws[k].1.len() <= u64::MAX && chunk_fits(Some(size), ws[k].0, ws[k].1.len() as u64)
}

/// Every write of `ws` is accepted for a file of declared size `size`.
pub open spec fn writes_fit(size: u64, ws: Seq<(u64, Seq<u8>)>) -> bool {
    forall|k: int| 0 <= k < ws.len() ==> #[trigger] fits_at(size, ws, k)
}

/// What a chunk read at `offset` returns from a file holding `content`.
pub open spec fn read_chunk_at(content: Seq<u8>, offset: nat) -> Seq<u8> {
    if offset >= content.len() {
        Seq::empty()
    } else if content.len() - offset < CHUNK_SIZE {
        content.subrange(offset as int, content.len() as int)
    } else {
        content.subrange(offset as int, offset + CHUNK_SIZE)
    }
}

proof fn lemma_apply_writes(ws: Seq<(u64, Seq<u8>)>)
    ensures
        apply_writes(ws).len() == max_end(ws),
        forall|i: int|
            0 <= i < max_end(ws) ==> #[trigger] apply_writes(ws)[i] == match last_written(ws, i) {
                Some(b) => b,
                None => 0u8,
            },
        forall|i: int| i >= max_end(ws) ==> #[trigger] last_written(ws, i) is None,
    decreases ws.len(),
{
    if ws.len() > 0 {
        let p = ws.drop_last();
        lemma_apply_writes(p);
        assert forall|i: int| i >= max_end(ws) implies #[trigger] last_written(ws, i) is None by {
            assert(i >= max_end(p));
            assert(last_written(p, i) is None);
        }
    }
}

/// Chunks that each fit the declared size and that jointly cover every byte
/// of it, written in any order into an empty staging file, make a file of
/// exactly that size; a chunk read at each aligned offset returns the bytes
/// last written there.
pub proof fn lemma_reassembly(size: u64, ws: Seq<(u64, Seq<u8>)>)
    requires
        writes_fit(size, ws),
        forall|i: int| 0 <= i < size ==> #[trigger] last_written(ws, i) is Some,
    ensures
        apply_writes(ws).len() == size,
        forall|off: nat, j: int|
            off % (CHUNK_SIZE as nat) == 0 && 0 <= j < chunk_len_of(size as nat, off) ==> (
            #[trigger] read_chunk_at(apply_writes(ws), off)[j]) == last_written(
                ws,
                off + j,
            )->Some_0,
        forall|off: nat| #[trigger]
            read_chunk_at(apply_writes(ws), off).len() == chunk_len_of(size as nat, off),
{
    lemma_apply_writes(ws);
    lemma_max_end_fits(size, ws);
    if size > 0 {
        assert(last_written(ws, size - 1) is Some);
    }
}

proof fn lemma_max_end_fits(size: u64, ws: Seq<(u64, Seq<u8>)>)
    requires
        writes_fit(size, ws),
    ensures
        max_end(ws) <= size,
    decreases ws.len(),
{
    if ws.len() > 0 {
        let p = ws.drop_last();
        assert forall|k: int| 0 <= k < p.len() implies fits_at(size, p, k) by {
            assert(p[k] == ws[k]);
            assert(fits_at(size, ws, k));
        }
        lemma_max_end_fits(size, p);
        assert(fits_at(size, ws, ws.len() - 1));
    }
}

/// The files under the storage root, by path, after a chunk write request for
/// token `t`: an accepted chunk is written into the staging file, if it
/// exists; a rejected one changes nothing.
pub open spec fn after_chunk(
    disk: Map<Seq<char>, Seq<u8>>,
    root: Seq<char>,
    t: Seq<char>,
    offset: u64,
    bytes: Seq<u8>,
) -> Map<Seq<char>, Seq<u8>> {
    if bytes.len() > u64::MAX {
        disk
    } else {
        match chunk_outcome(root, t, offset, bytes.len() as u64) {
            Ok(p) => if disk.contains_key(p) {
                disk.insert(p, write_at(disk[p], offset as nat, bytes))
            } else {
                disk
            },
            Err(_) => disk,
        }
    }
}

/// The files after a finalisation request for token `t` with expected digest
/// `md5`: the staging file is renamed to the final path only when its digest
/// matches.
pub open spec fn after_finalize(
    disk: Map<Seq<char>, Seq<u8>>,
    root: Seq<char>,
    t: Seq<char>,
    md5: Seq<char>,
) -> Map<Seq<char>, Seq<u8>> {
    match finalize_outcome(root, t) {
        Ok((s, d)) => if disk.contains_key(s) && hex_text(md5_of(disk[s])) == lower_of(md5) {
            disk.remove(s).insert(d, disk[s])
        } else {
            disk
        },
        Err(_) => disk,
    }
}

/// What a size query for token `t` answers.
pub open spec fn meta_result(disk: Map<Seq<char>, Seq<u8>>, root: Seq<char>, t: Seq<char>) -> Result<
    nat,
    UploadError,
> {
    match meta_outcome(root, t) {
        Ok(p) => if disk.contains_key(p) {
            Ok(disk[p].len())
        } else {
            Err(UploadError::Io)
        },
        Err(e) => Err(e),
    }
}

/// What a chunk read for token `t` at `offset` answers.
pub open spec fn read_result(
    disk: Map<Seq<char>, Seq<u8>>,
    root: Seq<char>,
    t: Seq<char>,
    offset: u64,
) -> Result<Seq<u8>, UploadError> {
    if offset % CHUNK_SIZE != 0 {
        Err(UploadError::RangeError)
    } else {
        match meta_outcome(root, t) {
            Ok(p) => if disk.contains_key(p) {
                Ok(read_chunk_at(disk[p], offset as nat))
            } else {
                Err(UploadError::Io)
            },
            Err(e) => Err(e),
        }
    }
}

/// A chunk that would end past the declared size is refused and leaves every
/// file, the staging file included, as it was.
pub proof fn lemma_range_gate(
    disk: Map<Seq<char>, Seq<u8>>,
    root: Seq<char>,
    t: Seq<char>,
    offset: u64,
    bytes: Seq<u8>,
)
    requires
        token_ref(t) matches Some(Some(v)) && bytes.len() <= u64::MAX && !chunk_fits(
            v.size,
            offset,
            bytes.len() as u64,
        ),
    ensures
        chunk_outcome(root, t, offset, bytes.len() as u64) == Err::<Seq<char>, UploadError>(
            UploadError::RangeError,
        ),
        after_chunk(disk, root, t, offset, bytes) == disk,
{
}

/// A finalisation whose expected digest does not match the staging file's
/// leaves the staging file where and as it was and makes no final file.
pub proof fn lemma_checksum_gate(
    disk: Map<Seq<char>, Seq<u8>>,
    root: Seq<char>,
    t: Seq<char>,
    md5: Seq<char>,
)
    requires
        finalize_outcome(root, t) matches Ok((s, d)) && disk.contains_key(s) && hex_text(
            md5_of(disk[s]),
        ) != lower_of(md5),
    ensures
        after_finalize(disk, root, t, md5) == disk,
{
}

/// While the final path of a token holds no file (before finalisation, or
/// after one that failed), size queries and chunk reads of it fail.
pub proof fn lemma_visibility_gate(
    disk: Map<Seq<char>, Seq<u8>>,
    root: Seq<char>,
    t: Seq<char>,
    offset: u64,
)
    requires
        meta_outcome(root, t) matches Ok(p) ==> !disk.contains_key(p),
    ensures
        meta_result(disk, root, t) is Err,
        read_result(disk, root, t, offset) is Err,
{
}

/// A successful finalisation makes the final file hold exactly the staging
/// file's bytes and removes the staging file.
pub proof fn lemma_promotion(
    disk: Map<Seq<char>, Seq<u8>>,
    root: Seq<char>,
    t: Seq<char>,
    md5: Seq<char>,
)
    requires
        finalize_outcome(root, t) matches Ok((s, d)) && disk.contains_key(s) && hex_text(
            md5_of(disk[s]),
        ) == lower_of(md5),
    ensures
        finalize_outcome(root, t) matches Ok((s, d)) && after_finalize(disk, root, t, md5)[d]
            == disk[s] && !after_finalize(disk, root, t, md5).contains_key(s),
{
    if let Ok((s, d)) = finalize_outcome(root, t) {
        assert(s != d) by {
            let f = token_ref(t)->Some_0;
            crate::path::lemma_paths_distinct(root, f, f);
        }
    }
}

} // verus!
