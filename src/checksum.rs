//! MD5 digests computed over data fed in pieces.
use vstd::prelude::*;

verus! {

/// The MD5 digest of `data`.
pub uninterp spec fn md5_of(data: Seq<u8>) -> Seq<u8>;

/// The bytes fed so far into a running MD5 computation.
pub uninterp spec fn md5_input(h: Md5State) -> Seq<u8>;

/// A running MD5 computation, which holds md-5's `Md5` hasher. It is hidden
/// from the verifier because the hasher's type, declared with its typenum
/// bounds, is refused; what was fed into it is named by `md5_input`.
#[verifier::external_body]
pub struct Md5State {
    hasher: md5::Md5,
}

/// Relies on md-5's `Md5`, through `digest::Digest::new`: a hasher that has
/// been fed nothing.
#[verifier::external_body]
fn md5_new() -> (r: Md5State)
    ensures
        md5_input(r) == Seq::<u8>::empty(),
{
    Md5State { hasher: <md5::Md5 as md5::Digest>::new() }
}

/// Relies on `digest::Digest::update` for md-5's `Md5`: the data is fed after
/// what was fed before.
#[verifier::external_body]
fn md5_update(h: &mut Md5State, data: &[u8])
    ensures
        md5_input(*final(h)) == md5_input(*old(h)) + data@,
{
    md5::Digest::update(&mut h.hasher, data)
}

/// Relies on `digest::Digest::finalize` for md-5's `Md5`: the 16-byte digest of
/// everything fed.
#[verifier::external_body]
fn md5_finalize(h: Md5State) -> (r: Vec<u8>)
    ensures
        r@ == md5_of(md5_input(h)),
        r@.len() == 16,
{
    md5::Digest::finalize(h.hasher).to_vec()
}

/// The MD5 digest of a stream of bytes fed block by block, so that a large file
/// is never held whole in memory.
pub struct Checksum {
    state: Md5State,
}

impl Checksum {
    /// The bytes fed so far.
    pub closed spec fn fed(&self) -> Seq<u8> {
        md5_input(self.state)
    }

    /// A computation that has been fed nothing.
    pub fn new() -> (r: Checksum)
        ensures
            r.fed() == Seq::<u8>::empty(),
    {
        Checksum { state: md5_new() }
    }

    /// Feeds `block` after the bytes fed before.
    pub fn update(&mut self, block: &[u8])
        ensures
            final(self).fed() == old(self).fed() + block@,
    {
        md5_update(&mut self.state, block)
    }

    /// The digest of everything fed.
    pub fn finish(self) -> (r: Vec<u8>)
        ensures
            r@ == md5_of(self.fed()),
            r@.len() == 16,
    {
        md5_finalize(self.state)
    }
}

/// The MD5 digest of `data`, fed in blocks of `block` bytes.
pub fn md5_blocks(data: &[u8], block: usize) -> (r: Vec<u8>)
    requires
        block > 0,
    ensures
        r@ == md5_of(data@),
{
    let mut sum = Checksum::new();
    let mut pos: usize = 0;
    while pos < data.len()
        invariant
            pos <= data@.len(),
            block > 0,
            sum.fed() == data@.subrange(0, pos as int),
        decreases data@.len() - pos,
    {
        let end = if data.len() - pos < block {
            data.len()
        } else {
            pos + block
        };
        let piece = vstd::slice::slice_subrange(data, pos, end);
        sum.update(piece);
        assert(data@.subrange(0, pos as int) + piece@ =~= data@.subrange(0, end as int));
        pos = end;
    }
    assert(data@.subrange(0, pos as int) =~= data@);
    sum.finish()
}

} // verus!
