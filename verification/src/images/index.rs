//! The signed source index: `index.json` and a detached `index.json.sig`
//! holding a base64 Ed25519 signature over the exact bytes of the index.
use vstd::prelude::*;
use base64::Engine;
use ed25519_dalek::{Signer, Verifier};
use crate::common::image::ImageType;
use crate::common::timestamp::Timestamp;
use crate::images::types::{ImageError, sha256_text, valid_sha256};
use crate::text::{
    chars_of, concat, contains, dec, dec_chars, drop_front, find, find_in, has, occurs_at, slice,
    starts_with, string_from, trim, trimmed, is_ws,
};
use crate::zfs::parse::last_pos;

verus! {

/// One image a source offers.
#[derive(Debug, Clone)]
pub struct IndexEntry {
    /// Name.
    pub name: String,
    /// Version.
    pub version: String,
    /// Type.
    pub type_: ImageType,
    /// Payload URL, absolute or relative to the index.
    pub url: String,
    /// Hex sha256 of the payload.
    pub sha256: String,
    /// Payload size.
    pub size: u64,
    /// Description.
    pub description: Option<String>,
    /// OS.
    pub os: Option<String>,
    /// Published.
    pub published_at: Option<Timestamp>,
}

/// The index.
#[derive(Debug, Clone)]
pub struct Index {
    /// Source name as the publisher spells it.
    pub name: String,
    /// When it was built.
    pub generated_at: Option<Timestamp>,
    /// Entries.
    pub images: Vec<IndexEntry>,
}

/// What is wrong with an entry, if anything.
pub open spec fn entry_problem(e: IndexEntry) -> Option<Seq<char>> {
    if e.name@.len() == 0 || e.version@.len() == 0 || e.url@.len() == 0 {
        Some("entry "@ + e.name@ + "@"@ + e.version@ + " is missing a name, version, or url"@)
    } else if !sha256_text(e.sha256@) {
        Some("entry "@ + e.name@ + "@"@ + e.version@ + " has a bad sha256"@)
    } else {
        None
    }
}

/// An entry with a problem.
pub open spec fn entry_bad() -> spec_fn(IndexEntry) -> bool {
    |e: IndexEntry| entry_problem(e) is Some
}

fn entry_detail(e: &IndexEntry, tail: &str) -> (r: String)
    ensures
        r@ == "entry "@ + e.name@ + "@"@ + e.version@ + tail@,
{
    let a = concat(chars_of("entry ").as_slice(), chars_of(e.name.as_str()).as_slice());
    let b = concat(a.as_slice(), chars_of("@").as_slice());
    let c = concat(b.as_slice(), chars_of(e.version.as_str()).as_slice());
    string_from(concat(c.as_slice(), chars_of(tail).as_slice()).as_slice())
}

/// Check every entry of a parsed index is well formed: a name, a
/// version, a URL, and a sha256 of sixty-four hex digits. The first entry
/// that is not is the error.
pub fn validate(index: &Index) -> (r: Result<(), ImageError>)
    ensures
        r is Ok <==> crate::text::first_where(index.images@, entry_bad()) is None,
        r matches Err(err) ==> crate::text::first_where(index.images@, entry_bad()) matches Some(k)
            && err matches ImageError::Index(m) && m@ == entry_problem(index.images@[k])->0,
{
    let ghost bad = entry_bad();
    let mut i: usize = 0;
    while i < index.images.len()
        invariant
            0 <= i <= index.images@.len(),
            bad == entry_bad(),
            forall|j: int| 0 <= j < i ==> !bad(index.images@[j]),
        decreases index.images@.len() - i,
    {
        let e = &index.images[i];
        if e.name.as_str().is_empty() || e.version.as_str().is_empty() || e.url.as_str().is_empty() {
            proof {
                crate::text::lemma_first_where(index.images@, bad, i as int);
            }
            return Err(ImageError::Index(entry_detail(e, " is missing a name, version, or url")));
        }
        if !valid_sha256(e.sha256.as_str()) {
            proof {
                crate::text::lemma_first_where(index.images@, bad, i as int);
            }
            return Err(ImageError::Index(entry_detail(e, " has a bad sha256")));
        }
        i = i + 1;
    }
    proof {
        crate::text::lemma_none_where(index.images@, bad);
    }
    Ok(())
}

/// An entry URL resolved against the index URL: absolute URLs stay,
/// host-relative ones keep the index's scheme and host, others join the
/// index's directory.
pub open spec fn resolved(index_url: Seq<char>, entry_url: Seq<char>) -> Seq<char> {
    if contains(entry_url, "://"@) {
        entry_url
    } else if starts_with(entry_url, "/"@) {
        let scheme_end = match find(index_url, "://"@) {
            Some(i) => i + 3,
            None => 0,
        };
        let host_end = match find(index_url.skip(scheme_end), "/"@) {
            Some(i) => scheme_end + i,
            None => index_url.len() as int,
        };
        index_url.take(host_end) + "/"@ + entry_url.drop_first()
    } else {
        let base = match last_pos(index_url, '/') {
            Some(i) => index_url.take(i + 1),
            None => index_url,
        };
        base + entry_url
    }
}

/// Resolve an entry URL against the index URL: absolute URLs stay,
/// relative ones join the index's directory.
pub fn resolve_url(index_url: &str, entry_url: &str) -> (r: String)
    ensures
        r@ == resolved(index_url@, entry_url@),
{
    let iu = chars_of(index_url);
    let eu = chars_of(entry_url);
    if has(eu.as_slice(), "://") {
        return string_from(eu.as_slice());
    }
    proof {
        reveal_strlit("/");
        reveal_strlit("://");
    }
    if eu.len() > 0 && eu[0] == '/' {
        assert(eu@.take(1) =~= "/"@);
        assert(starts_with(eu@, "/"@));
        let sep = chars_of("://");
        let scheme_end: usize = match find_in(iu.as_slice(), sep.as_slice()) {
            Some(i) => {
                assert(occurs_at(iu@, sep@, i as int));
                assert(sep@.len() == 3);
                assert(i + 3 <= iu@.len());
                assert(iu@.len() == iu.len());
                i + 3
            },
            None => 0,
        };
        let tail = drop_front(iu.as_slice(), scheme_end);
        let host_end: usize = match find_in(tail.as_slice(), chars_of("/").as_slice()) {
            Some(i) => {
                assert(occurs_at(tail@, "/"@, i as int));
                scheme_end + i
            },
            None => iu.len(),
        };
        let host = slice(iu.as_slice(), 0, host_end);
        let a = concat(host.as_slice(), chars_of("/").as_slice());
        let rest = drop_front(eu.as_slice(), 1);
        return string_from(concat(a.as_slice(), rest.as_slice()).as_slice());
    }
    assert(eu@.len() == 0 || eu@.take(1)[0] != "/"@[0]);
    assert(!starts_with(eu@, "/"@));
    let mut n: usize = iu.len();
    assert(iu@.take(iu@.len() as int) == iu@);
    while n > 0 && iu[n - 1] != '/'
        invariant
            0 <= n <= iu@.len(),
            last_pos(iu@, '/') == last_pos(iu@.take(n as int), '/'),
        decreases n,
    {
        assert(iu@.take(n as int).drop_last() == iu@.take(n - 1));
        n = n - 1;
    }
    let base = if n == 0 {
        assert(iu@.subrange(0, iu@.len() as int) == iu@);
        slice(iu.as_slice(), 0, iu.len())
    } else {
        slice(iu.as_slice(), 0, n)
    };
    string_from(concat(base.as_slice(), eu.as_slice()).as_slice())
}

/// The signature URL beside an index.
pub fn signature_url(index_url: &str) -> (r: String)
    ensures
        r@ == index_url@ + ".sig"@,
{
    string_from(concat(chars_of(index_url).as_slice(), chars_of(".sig").as_slice()).as_slice())
}

/// What the standard base64 engine decodes a text to, when it does.
pub uninterp spec fn base64_decoded(text: Seq<char>) -> Option<Seq<u8>>;

/// The message of the base64 engine's error for a text it refuses.
pub uninterp spec fn base64_error(text: Seq<char>) -> Seq<char>;

/// What the standard base64 engine encodes bytes to.
pub uninterp spec fn base64_encoded(bytes: Seq<u8>) -> Seq<char>;

/// Whether 32 bytes decompress to an Ed25519 point, as
/// `VerifyingKey::from_bytes` requires.
pub uninterp spec fn ed25519_key_ok(key: Seq<u8>) -> bool;

/// The message of `VerifyingKey::from_bytes`'s error for bytes it refuses.
pub uninterp spec fn ed25519_key_error(key: Seq<u8>) -> Seq<char>;

/// Whether a signature over a message checks under a public key.
pub uninterp spec fn ed25519_verifies(key: Seq<u8>, sig: Seq<u8>, msg: Seq<u8>) -> bool;

/// The public key of a 32-byte secret key.
pub uninterp spec fn ed25519_public(secret: Seq<u8>) -> Seq<u8>;

/// The signature a secret key makes over a message.
pub uninterp spec fn ed25519_signature(secret: Seq<u8>, msg: Seq<u8>) -> Seq<u8>;

/// `STANDARD.decode(text)`: the bytes, or the decoder's message.
#[verifier::external_body]
fn b64_decode(text: &str) -> (r: Result<Vec<u8>, String>)
    ensures
        r matches Ok(v) ==> base64_decoded(text@) == Some(v@),
        r matches Err(m) ==> base64_decoded(text@) is None && m@ == base64_error(text@),
{
    base64::engine::general_purpose::STANDARD.decode(text).map_err(|e| e.to_string())
}


/// A character of the standard base64 alphabet or its padding.
pub open spec fn base64_char(c: char) -> bool {
    ('A' <= c <= 'Z') || ('a' <= c <= 'z') || ('0' <= c <= '9') || c == '+' || c == '/' || c == '='
}

/// `STANDARD.encode(bytes)`: text in the base64 alphabet, which decodes
/// back to the bytes.
#[verifier::external_body]
fn b64_encode_checked(bytes: &[u8]) -> (r: String)
    ensures
        r@ == base64_encoded(bytes@),
        forall|i: int| 0 <= i < r@.len() ==> base64_char(#[trigger] r@[i]),
        base64_decoded(r@) == Some(bytes@),
{
    base64::engine::general_purpose::STANDARD.encode(bytes)
}

/// `VerifyingKey::from_bytes(key)`: nothing, or the error's message.
#[verifier::external_body]
fn ed_key_check(key: &[u8]) -> (r: Result<(), String>)
    requires
        key@.len() == 32,
    ensures
        r is Ok <==> ed25519_key_ok(key@),
        r matches Err(m) ==> m@ == ed25519_key_error(key@),
{
    let k: [u8; 32] = <[u8; 32]>::try_from(key).unwrap_or_default();
    ed25519_dalek::VerifyingKey::from_bytes(&k).map(|_| ()).map_err(|e| e.to_string())
}

/// `VerifyingKey::from_bytes(key)?.verify(msg, &Signature::from_bytes(sig)).is_ok()`.
#[verifier::external_body]
fn ed_verify(key: &[u8], sig: &[u8], msg: &[u8]) -> (r: bool)
    requires
        key@.len() == 32,
        sig@.len() == 64,
        ed25519_key_ok(key@),
    ensures
        r == ed25519_verifies(key@, sig@, msg@),
{
    let k: [u8; 32] = <[u8; 32]>::try_from(key).unwrap_or_default();
    let s: [u8; 64] = <[u8; 64]>::try_from(sig).unwrap_or([0u8; 64]);
    match ed25519_dalek::VerifyingKey::from_bytes(&k) {
        Ok(vk) => vk.verify(msg, &ed25519_dalek::Signature::from_bytes(&s)).is_ok(),
        Err(_) => false,
    }
}

/// `SigningKey::from_bytes(secret).verifying_key().to_bytes()`: the public
/// key, which is always a valid key.
#[verifier::external_body]
fn ed_public(secret: &[u8]) -> (r: Vec<u8>)
    requires
        secret@.len() == 32,
    ensures
        r@ == ed25519_public(secret@),
        r@.len() == 32,
        ed25519_key_ok(r@),
{
    let k: [u8; 32] = <[u8; 32]>::try_from(secret).unwrap_or_default();
    ed25519_dalek::SigningKey::from_bytes(&k).verifying_key().to_bytes().to_vec()
}

/// `SigningKey::from_bytes(secret).sign(msg).to_bytes()`: a signature that
/// checks under the secret key's public key.
#[verifier::external_body]
fn ed_sign(secret: &[u8], msg: &[u8]) -> (r: Vec<u8>)
    requires
        secret@.len() == 32,
    ensures
        r@ == ed25519_signature(secret@, msg@),
        r@.len() == 64,
        ed25519_verifies(ed25519_public(secret@), r@, msg@),
{
    let k: [u8; 32] = <[u8; 32]>::try_from(secret).unwrap_or_default();
    ed25519_dalek::SigningKey::from_bytes(&k).sign(msg).to_bytes().to_vec()
}

/// `rand::random::<[u8; 32]>()`: 32 random bytes.
#[verifier::external_body]
fn random_secret() -> (r: Vec<u8>)
    ensures
        r@.len() == 32,
{
    rand::random::<[u8; 32]>().to_vec()
}

/// The bytes a base64 key text gives, or why it does not.
pub open spec fn key_of(b64: Seq<char>, what: Seq<char>, n: nat) -> Result<Seq<u8>, Seq<char>> {
    match base64_decoded(trim(b64)) {
        Some(v) => if v.len() == n { Ok(v) } else { Err(what + " must be "@ + dec(n) + " bytes"@) },
        None => Err(what + " is not base64: "@ + base64_error(trim(b64))),
    }
}

/// The bytes a base64 key text gives, exactly `n` of them.
fn key_bytes(b64: &str, what: &str, n: usize) -> (r: Result<Vec<u8>, ImageError>)
    ensures
        r matches Ok(v) ==> key_of(b64@, what@, n as nat) == Ok::<Seq<u8>, Seq<char>>(v@),
        r matches Err(e) ==> key_of(b64@, what@, n as nat) matches Err(m) && e matches ImageError::Index(t) && t@ == m,
{
    let t = string_from(trimmed(chars_of(b64).as_slice()).as_slice());
    match b64_decode(t.as_str()) {
        Ok(v) => if v.len() == n {
            Ok(v)
        } else {
            let a = concat(chars_of(what).as_slice(), chars_of(" must be ").as_slice());
            let b = concat(a.as_slice(), dec_chars(n as u64).as_slice());
            Err(ImageError::Index(string_from(concat(b.as_slice(), chars_of(" bytes").as_slice()).as_slice())))
        },
        Err(m) => {
            let a = concat(chars_of(what).as_slice(), chars_of(" is not base64: ").as_slice());
            Err(ImageError::Index(string_from(concat(a.as_slice(), chars_of(m.as_str()).as_slice()).as_slice())))
        },
    }
}

/// What checking a signature gives: the first key or signature problem,
/// else whether the signature checks.
pub open spec fn verify_result(msg: Seq<u8>, sig: Seq<char>, key: Seq<char>) -> Result<(), Seq<char>> {
    match key_of(key, "public key"@, 32) {
        Err(m) => Err(m),
        Ok(k) => if !ed25519_key_ok(k) {
            Err("bad public key: "@ + ed25519_key_error(k))
        } else {
            match key_of(sig, "signature"@, 64) {
                Err(m) => Err(m),
                Ok(s) => if ed25519_verifies(k, s, msg) {
                    Ok(())
                } else {
                    Err("signature does not match"@)
                },
            }
        },
    }
}

/// Check `sig_b64` over `bytes` with `public_key_b64`.
pub fn verify(bytes: &[u8], sig_b64: &str, public_key_b64: &str) -> (r: Result<(), ImageError>)
    ensures
        r is Ok <==> verify_result(bytes@, sig_b64@, public_key_b64@) is Ok,
        r matches Err(e) ==> verify_result(bytes@, sig_b64@, public_key_b64@) matches Err(m)
            && e matches ImageError::Index(t) && t@ == m,
{
    let key = match key_bytes(public_key_b64, "public key", 32) {
        Ok(k) => k,
        Err(e) => return Err(e),
    };
    match ed_key_check(key.as_slice()) {
        Ok(()) => {},
        Err(m) => {
            let a = concat(chars_of("bad public key: ").as_slice(), chars_of(m.as_str()).as_slice());
            return Err(ImageError::Index(string_from(a.as_slice())));
        },
    }
    let sig = match key_bytes(sig_b64, "signature", 64) {
        Ok(s) => s,
        Err(e) => return Err(e),
    };
    if ed_verify(key.as_slice(), sig.as_slice(), bytes) {
        Ok(())
    } else {
        Err(ImageError::Index("signature does not match".to_owned()))
    }
}

/// Whether the base64 signature a secret key makes over a message checks,
/// as [`verify`] checks it, under the base64 public key of that secret.
pub open spec fn signature_checks(k: Seq<u8>, msg: Seq<u8>) -> bool {
    verify_result(msg, base64_encoded(ed25519_signature(k, msg)), base64_encoded(ed25519_public(k))) is Ok
}

/// Sign `bytes` with a base64 32-byte secret key; the signature, base64.
/// The signature checks under the secret's public key.
pub fn sign(bytes: &[u8], secret_key_b64: &str) -> (r: Result<String, ImageError>)
    ensures
        r matches Ok(s) ==> key_of(secret_key_b64@, "secret key"@, 32) matches Ok(k)
            && s@ == base64_encoded(ed25519_signature(k, bytes@))
            && signature_checks(k, bytes@),
        r matches Err(e) ==> key_of(secret_key_b64@, "secret key"@, 32) matches Err(m)
            && e matches ImageError::Index(t) && t@ == m,
{
    let key = match key_bytes(secret_key_b64, "secret key", 32) {
        Ok(k) => k,
        Err(e) => return Err(e),
    };
    let sig = ed_sign(key.as_slice(), bytes);
    let text = b64_encode_checked(sig.as_slice());
    // The public half, taken only to tie the signature to the key that checks it.
    let public = ed_public(key.as_slice());
    let public_text = b64_encode_checked(public.as_slice());
    proof {
        lemma_encoded_plain(public@, public_text@);
        lemma_encoded_plain(sig@, text@);
    }
    Ok(text)
}

/// A fresh keypair as `(secret, public)`, both base64: the secret reads
/// back as 32 bytes, and the public text is that secret's public key.
pub fn keypair() -> (r: (String, String))
    ensures
        exists|k: Seq<u8>|
            k.len() == 32 && #[trigger] key_of(r.0@, "secret key"@, 32) == Ok::<Seq<u8>, Seq<char>>(k)
                && r.0@ == base64_encoded(k) && r.1@ == base64_encoded(ed25519_public(k)),
{
    let secret = random_secret();
    let public = ed_public(secret.as_slice());
    let secret_text = b64_encode_checked(secret.as_slice());
    proof {
        lemma_encoded_plain(secret@, secret_text@);
    }
    (secret_text, b64_encode_checked(public.as_slice()))
}

/// The public half of a base64 secret key.
pub fn public_key_of(secret_key_b64: &str) -> (r: Result<String, ImageError>)
    ensures
        r matches Ok(p) ==> key_of(secret_key_b64@, "secret key"@, 32) matches Ok(k)
            && p@ == base64_encoded(ed25519_public(k)),
        r matches Err(e) ==> key_of(secret_key_b64@, "secret key"@, 32) matches Err(m)
            && e matches ImageError::Index(t) && t@ == m,
{
    let key = match key_bytes(secret_key_b64, "secret key", 32) {
        Ok(k) => k,
        Err(e) => return Err(e),
    };
    let public = ed_public(key.as_slice());
    Ok(b64_encode_checked(public.as_slice()))
}

/// Whether `b64` is a plausible public key: 32 bytes of base64 that are a
/// key.
pub fn valid_public_key(b64: &str) -> (r: bool)
    ensures
        r == (key_of(b64@, "public key"@, 32) matches Ok(k) && ed25519_key_ok(k)),
{
    match key_bytes(b64, "public key", 32) {
        Ok(k) => ed_key_check(k.as_slice()).is_ok(),
        Err(_) => false,
    }
}

proof fn lemma_trim_plain(s: Seq<char>)
    requires
        forall|i: int| 0 <= i < s.len() ==> base64_char(#[trigger] s[i]),
    ensures
        trim(s) == s,
{
    if s.len() > 0 {
        assert(base64_char(s[0]));
        assert(base64_char(s.last()));
    }
    assert(crate::text::trim_start(s) == s);
    assert(crate::text::trim_end(s) == s);
}

/// Base64 text the engine wrote is read back by [`key_of`] unchanged.
proof fn lemma_encoded_plain(bytes: Seq<u8>, text: Seq<char>)
    requires
        forall|i: int| 0 <= i < text.len() ==> base64_char(#[trigger] text[i]),
        base64_decoded(text) == Some(bytes),
    ensures
        trim(text) == text,
        base64_decoded(trim(text)) == Some(bytes),
{
    lemma_trim_plain(text);
}

} // verus!
