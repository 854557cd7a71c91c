//! SHA-256 fed piece by piece, with a count of the bytes fed: what a
//! download or a file read tallies as its chunks come.
use vstd::prelude::*;
use sha2::Digest;
use crate::common::digest::{lemma_hex_text, sha256_of};
use crate::images::types::{hex, hex_of, sha256_text};

verus! {

/// A running `sha2::Sha256` state. Verus cannot be given `sha2::Sha256`
/// as an outside type (its generic parameters carry outside trait bounds),
/// so the state sits in this struct, whose field Verus does not see.
#[verifier::external_body]
pub struct Sha256Stream {
    inner: sha2::Sha256,
}

/// The bytes a stream has been fed since it was made, in order.
pub uninterp spec fn fed(s: Sha256Stream) -> Seq<u8>;

/// `Digest::new` for `sha2::Sha256`: a state that has been fed nothing.
#[verifier::external_body]
pub(crate) fn stream_new() -> (r: Sha256Stream)
    ensures
        fed(r) == Seq::<u8>::empty(),
{
    Sha256Stream { inner: sha2::Sha256::new() }
}

/// `Digest::update` for `sha2::Sha256`: the bytes are fed after those
/// fed before.
#[verifier::external_body]
pub(crate) fn stream_update(s: &mut Sha256Stream, data: &[u8])
    ensures
        fed(*final(s)) == fed(*old(s)) + data@,
{
    s.inner.update(data);
}

/// `Digest::finalize` for `sha2::Sha256`: the digest of everything fed,
/// the same as hashing those bytes at once, thirty-two bytes long.
#[verifier::external_body]
pub(crate) fn stream_finish(s: Sha256Stream) -> (r: Vec<u8>)
    ensures
        r@ == sha256_of(fed(s)),
        r@.len() == 32,
{
    s.inner.finalize().to_vec()
}

/// The digest and the length of bytes that come in chunks.
pub struct Tally {
    stream: Sha256Stream,
    bytes: u64,
}

impl Tally {
    /// The bytes tallied so far, in order.
    pub closed spec fn data(&self) -> Seq<u8> {
        fed(self.stream)
    }

    /// The count kept is the number of bytes fed.
    pub closed spec fn wf(&self) -> bool {
        self.bytes as int == fed(self.stream).len()
    }

    /// Nothing tallied yet.
    pub fn new() -> (r: Tally)
        ensures
            r.wf(),
            r.data() == Seq::<u8>::empty(),
    {
        Tally { stream: stream_new(), bytes: 0 }
    }

    /// Tally the next chunk.
    pub fn add(&mut self, chunk: &[u8])
        requires
            old(self).wf(),
            old(self).data().len() + chunk@.len() <= u64::MAX,
        ensures
            final(self).wf(),
            final(self).data() == old(self).data() + chunk@,
    {
        stream_update(&mut self.stream, chunk);
        self.bytes = self.bytes + chunk.len() as u64;
    }

    /// How many bytes were tallied.
    pub fn bytes(&self) -> (r: u64)
        requires
            self.wf(),
        ensures
            r == self.data().len(),
    {
        self.bytes
    }

    /// The lowercase hex SHA-256 of all the bytes tallied, and their number.
    pub fn report(self) -> (r: (String, u64))
        requires
            self.wf(),
        ensures
            r.0@ == hex_of(sha256_of(self.data())),
            sha256_text(r.0@),
            r.1 == self.data().len(),
    {
        let n = self.bytes;
        let d = stream_finish(self.stream);
        proof {
            lemma_hex_text(d@);
        }
        (hex(d.as_slice()), n)
    }
}

} // verus!
