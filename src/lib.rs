//! A store for large files uploaded in pieces and addressed by self-describing
//! tokens.
use vstd::prelude::*;

pub mod checksum;
pub mod path;
pub mod reader;
pub mod session;
pub mod store;
pub mod text;
pub mod token;
pub mod varint;

verus! {

/// Size of one transfer unit, and the alignment that reads require.
pub const CHUNK_SIZE: u64 = 524288;

/// What can go wrong with a request.
#[derive(Clone, Copy, Debug, PartialEq, Eq, Structural)]
pub enum UploadError {
    /// The token is not valid base64 or not a well-formed reference.
    InvalidToken,
    /// The reference is well formed but names no storable file: its version is
    /// not recognised, or its creation time is beyond the calendar.
    UnsupportedVersion,
    /// An offset or a size is outside what the request allows.
    RangeError,
    /// The uploaded bytes do not have the expected digest.
    ChecksumMismatch,
    /// A file-system or system failure.
    Io,
}

} // verus!
