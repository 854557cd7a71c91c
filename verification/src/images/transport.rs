//! Fetching, as far as it is decided without the network: what a
//! download reports, and an in-memory transport serving canned bytes by
//! URL.
use vstd::prelude::*;
use crate::common::digest::{sha256_hex, sha256_of};
use crate::images::types::{ImageError, hex_of};
use crate::common::stream::Tally;
use crate::images::MAX_DOCUMENT_BYTES;
use crate::text::{chars_of, concat, dec, dec_chars, string_from};
use crate::zfs::keyed::{
    Keyed, entry, find_key, has_key, keys, lemma_entry_at, lemma_index_has, lemma_put_sorted, put, put_item,
    strictly_sorted,
};

verus! {

/// What a download produced.
#[derive(Debug, Clone, PartialEq, Eq)]
pub struct Downloaded {
    /// Bytes written.
    pub bytes: u64,
    /// Hex sha256 of them.
    pub sha256: String,
}

/// One document the fake serves.
pub struct Served {
    /// Where.
    pub url: String,
    /// What.
    pub body: Vec<u8>,
}

impl Keyed for Served {
    open spec fn key(&self) -> Seq<char> {
        self.url@
    }

    fn key_str(&self) -> (r: &str) {
        self.url.as_str()
    }
}

/// Serves canned bytes by URL; anything else is a transport error.
pub struct FakeTransport {
    docs: Vec<Served>,
}

/// What the fake answers for a URL it does not serve.
pub open spec fn not_served(url: Seq<char>) -> Seq<char> {
    url + ": HTTP 404"@
}

/// What a download of these bytes reports: their count and hex sha256.
pub open spec fn download_report(d: Downloaded, body: Seq<u8>) -> bool {
    d.bytes == body.len() && d.sha256@ == hex_of(sha256_of(body))
}

/// What a streamed download reports once its last chunk is tallied.
pub fn downloaded(t: Tally) -> (d: Downloaded)
    requires
        t.wf(),
    ensures
        download_report(d, t.data()),
{
    let (sha256, bytes) = t.report();
    Downloaded { bytes, sha256 }
}

/// Why a document fetched whole was refused: it passed the cap.
pub open spec fn too_large(url: Seq<char>) -> Seq<char> {
    url + ": document larger than "@ + dec(MAX_DOCUMENT_BYTES as nat) + " bytes"@
}

/// Take the next chunk of a document fetched whole, unless the document
/// would then be longer than the cap; a refused chunk leaves the body as
/// it was.
pub fn push_chunk(body: &mut Vec<u8>, chunk: &[u8], url: &str) -> (r: Result<(), ImageError>)
    ensures
        r is Ok <==> old(body)@.len() + chunk@.len() <= MAX_DOCUMENT_BYTES,
        r is Ok ==> final(body)@ == old(body)@ + chunk@,
        r is Err ==> final(body)@ == old(body)@,
        r matches Err(e) ==> (e matches ImageError::Transport(m) && m@ == too_large(url@)),
{
    if body.len() > MAX_DOCUMENT_BYTES || chunk.len() > MAX_DOCUMENT_BYTES - body.len() {
        let a = concat(chars_of(url).as_slice(), chars_of(": document larger than ").as_slice());
        let b = concat(a.as_slice(), dec_chars(MAX_DOCUMENT_BYTES as u64).as_slice());
        let m = concat(b.as_slice(), chars_of(" bytes").as_slice());
        return Err(ImageError::Transport(string_from(m.as_slice())));
    }
    let ghost start = body@;
    let mut i: usize = 0;
    while i < chunk.len()
        invariant
            0 <= i <= chunk@.len(),
            body@ == start + chunk@.take(i as int),
        decreases chunk@.len() - i,
    {
        body.push(chunk[i]);
        assert(chunk@.take(i + 1) == chunk@.take(i as int).push(chunk@[i as int]));
        i = i + 1;
    }
    assert(chunk@.take(chunk@.len() as int) == chunk@);
    Ok(())
}

fn copy_bytes(b: &Vec<u8>) -> (r: Vec<u8>)
    ensures
        r@ == b@,
{
    let mut out: Vec<u8> = Vec::new();
    let mut i: usize = 0;
    while i < b.len()
        invariant
            0 <= i <= b@.len(),
            out@ == b@.take(i as int),
        decreases b@.len() - i,
    {
        out.push(b[i]);
        assert(b@.take(i + 1) == b@.take(i as int).push(b@[i as int]));
        i = i + 1;
    }
    assert(b@.take(i as int) == b@);
    out
}

impl FakeTransport {
    /// The documents served, in URL order.
    pub closed spec fn served(&self) -> Seq<Served> {
        self.docs@
    }

    /// Each URL is served at most once, in URL order.
    pub open spec fn wf(&self) -> bool {
        strictly_sorted(keys(self.served()))
    }

    /// Nothing served.
    pub fn new() -> (r: FakeTransport)
        ensures
            r.wf(),
            r.served().len() == 0,
    {
        proof {
            reveal(strictly_sorted);
        }
        FakeTransport { docs: Vec::new() }
    }

    /// Serve `bytes` at `url`, in place of what was served there.
    pub fn add(&mut self, url: &str, bytes: Vec<u8>)
        requires
            old(self).wf(),
        ensures
            final(self).wf(),
            exists|s: Served| s.url@ == url@ && s.body@ == bytes@ && final(self).served() == put(old(self).served(), s),
    {
        let s = Served { url: url.to_owned(), body: bytes };
        proof {
            lemma_put_sorted(self.docs@, s);
        }
        put_item(&mut self.docs, s);
    }

    fn lookup(&self, url: &str) -> (r: Result<&Vec<u8>, ImageError>)
        ensures
            r is Ok <==> has_key(self.served(), url@),
            r matches Ok(b) ==> b@ == entry(self.served(), url@).body@,
            r matches Err(e) ==> (e matches ImageError::Transport(m) && m@ == not_served(url@)),
    {
        proof {
            lemma_index_has(self.docs@, url@);
        }
        match find_key(&self.docs, url) {
            Some(i) => {
                proof {
                    lemma_entry_at(self.docs@, url@, i as int);
                }
                Ok(&self.docs[i].body)
            },
            None => {
                let m = concat(chars_of(url).as_slice(), chars_of(": HTTP 404").as_slice());
                Err(ImageError::Transport(string_from(m.as_slice())))
            },
        }
    }

    /// Fetch a document whole.
    pub fn get(&self, url: &str) -> (r: Result<Vec<u8>, ImageError>)
        ensures
            r is Ok <==> has_key(self.served(), url@),
            r matches Ok(b) ==> b@ == entry(self.served(), url@).body@,
            r matches Err(e) ==> (e matches ImageError::Transport(m) && m@ == not_served(url@)),
    {
        match self.lookup(url) {
            Ok(b) => Ok(copy_bytes(b)),
            Err(e) => Err(e),
        }
    }

    /// Download a payload: the bytes to write where it goes, with their
    /// count and hash.
    pub fn download(&self, url: &str) -> (r: Result<(Vec<u8>, Downloaded), ImageError>)
        ensures
            r is Ok <==> has_key(self.served(), url@),
            r matches Ok((b, d)) ==> b@ == entry(self.served(), url@).body@ && download_report(d, b@),
            r matches Err(e) ==> (e matches ImageError::Transport(m) && m@ == not_served(url@)),
    {
        match self.lookup(url) {
            Ok(b) => {
                let body = copy_bytes(b);
                let d = Downloaded { bytes: body.len() as u64, sha256: sha256_hex(body.as_slice()) };
                Ok((body, d))
            },
            Err(e) => Err(e),
        }
    }
}

} // verus!
