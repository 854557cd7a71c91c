//! SHA-256, as the `sha2` crate computes it, and its hex text.
use vstd::prelude::*;
use sha2::Digest;
use crate::images::types::{hex, hex_of, is_hex_digit, sha256_text};
use crate::text::{hex_char, hex2};

verus! {

/// The SHA-256 digest of some bytes.
pub uninterp spec fn sha256_of(data: Seq<u8>) -> Seq<u8>;

/// `sha2::Sha256::digest`. Trusted to give the digest of exactly these
/// bytes, which for SHA-256 is thirty-two bytes long; what the digest is
/// goes unsaid.
#[verifier::external_body]
pub(crate) fn sha256(data: &[u8]) -> (r: Vec<u8>)
    ensures
        r@ == sha256_of(data@),
        r@.len() == 32,
{
    sha2::Sha256::digest(data).to_vec()
}

proof fn lemma_hex_digit(d: int)
    requires
        0 <= d < 16,
    ensures
        is_hex_digit(hex_char(d)),
{
}

/// Lowercase hex is two hex digits a byte.
pub proof fn lemma_hex_text(bytes: Seq<u8>)
    ensures
        hex_of(bytes).len() == 2 * bytes.len(),
        forall|i: int| 0 <= i < hex_of(bytes).len() ==> is_hex_digit(#[trigger] hex_of(bytes)[i]),
    decreases bytes.len(),
{
    if bytes.len() > 0 {
        lemma_hex_text(bytes.drop_last());
        let b = bytes.last();
        lemma_hex_digit(b as int / 16);
        lemma_hex_digit(b as int % 16);
        let h = hex_of(bytes);
        let p = hex_of(bytes.drop_last());
        assert(h == p + hex2(b));
        assert forall|i: int| 0 <= i < h.len() implies is_hex_digit(#[trigger] h[i]) by {
            if i >= p.len() {
                assert(h[i] == hex2(b)[i - p.len()]);
            } else {
                assert(h[i] == p[i]);
            }
        }
    }
}

/// The lowercase hex of the SHA-256 of some bytes: sixty-four hex digits.
pub fn sha256_hex(data: &[u8]) -> (r: String)
    ensures
        r@ == hex_of(sha256_of(data@)),
        sha256_text(r@),
{
    let d = sha256(data);
    proof {
        lemma_hex_text(d@);
    }
    hex(d.as_slice())
}

} // verus!
