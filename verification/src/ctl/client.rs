//! What the command-line client decides without the network: its errors,
//! how a reply is judged, query strings, and the pinned certificate
//! fingerprint.
use vstd::prelude::*;
use crate::common::problem::{Problem, problem_text};
use crate::text::{
    chars_of, concat, dec, dec_chars, has_prefix, is_ws, join, joined, parse_hex_u8, parse_unsigned, slice,
    starts_with, string_from, trim, trimmed, views, ws,
};

verus! {

/// Where the daemon's Unix socket lives by default.
pub const DEFAULT_SOCKET: &'static str = "/var/run/mandrake/mandraked.sock";

/// The path every API route starts with.
pub const API_PREFIX: &'static str = "/api/v1";

/// Errors from configuring or talking to the daemon.
#[derive(Debug)]
pub enum Error {
    /// Bad flags or files.
    Config(String),
    /// Could not reach or talk to the daemon.
    Transport(String),
    /// The daemon answered with a problem.
    Api(Box<Problem>),
    /// The daemon answered with something unexpected.
    Unexpected {
        /// HTTP status.
        status: u16,
        /// Body, truncated.
        body: String,
    },
}

/// How an error reads.
pub open spec fn error_message(e: Error) -> Seq<char> {
    match e {
        Error::Config(m) => m@,
        Error::Transport(m) => m@,
        Error::Api(p) => problem_text(*p),
        Error::Unexpected { status, body } => "unexpected response ("@ + dec(status as nat) + "): "@ + body@,
    }
}

impl Error {
    /// The error as it reads.
    pub fn message(&self) -> (r: String)
        ensures
            r@ == error_message(*self),
    {
        match self {
            Error::Config(m) => m.clone(),
            Error::Transport(m) => m.clone(),
            Error::Api(p) => p.message(),
            Error::Unexpected { status, body } => {
                let a = concat(chars_of("unexpected response (").as_slice(), dec_chars(*status as u64).as_slice());
                let b = concat(a.as_slice(), chars_of("): ").as_slice());
                string_from(concat(b.as_slice(), chars_of(body.as_str()).as_slice()).as_slice())
            },
        }
    }
}

/// A raw response.
#[derive(Debug)]
pub struct Reply {
    /// HTTP status.
    pub status: u16,
    /// Body bytes.
    pub body: Vec<u8>,
}

/// A byte a query keeps as it is: ASCII letters and digits and `-_.~`.
pub open spec fn unreserved(b: u8) -> bool {
    (48 <= b <= 57) || (65 <= b <= 90) || (97 <= b <= 122) || b == 45 || b == 95 || b == 46 || b == 126
}

/// An upper-case hexadecimal digit for `d < 16`.
pub open spec fn upper_hex(d: int) -> char {
    if d < 10 {
        ((d + 48) as u32) as char
    } else {
        ((d - 10 + 65) as u32) as char
    }
}

/// One byte of a query: itself when unreserved, else `%XX`.
pub open spec fn escaped_byte(b: u8) -> Seq<char> {
    if unreserved(b) {
        seq![(b as u32) as char]
    } else {
        seq!['%', upper_hex(b as int / 16), upper_hex(b as int % 16)]
    }
}

/// Bytes percent-encoded.
pub open spec fn escaped(bytes: Seq<u8>) -> Seq<char>
    decreases bytes.len(),
{
    if bytes.len() == 0 {
        Seq::<char>::empty()
    } else {
        escaped(bytes.drop_last()) + escaped_byte(bytes.last())
    }
}

fn upper_hex_digit(d: u8) -> (c: char)
    requires
        d < 16,
    ensures
        c == upper_hex(d as int),
{
    if d < 10 {
        (d + 48u8) as char
    } else {
        (d - 10 + 65u8) as char
    }
}

fn escape(s: &str) -> (r: Vec<char>)
    ensures
        r@ == escaped(vstd::utf8::encode_utf8(s@)),
{
    let bytes = s.as_bytes();
    let mut out: Vec<char> = Vec::new();
    let mut i: usize = 0;
    while i < bytes.len()
        invariant
            0 <= i <= bytes@.len(),
            bytes@ == vstd::utf8::encode_utf8(s@),
            out@ == escaped(bytes@.take(i as int)),
        decreases bytes@.len() - i,
    {
        let b = bytes[i];
        assert(bytes@.take(i + 1).drop_last() == bytes@.take(i as int));
        if (48 <= b && b <= 57) || (65 <= b && b <= 90) || (97 <= b && b <= 122) || b == 45 || b == 95
            || b == 46 || b == 126 {
            out.push(b as char);
        } else {
            out.push('%');
            out.push(upper_hex_digit(b / 16));
            out.push(upper_hex_digit(b % 16));
        }
        i = i + 1;
    }
    assert(bytes@.take(bytes@.len() as int) == bytes@);
    out
}

/// One `key=value` pair of a query, both escaped.
pub open spec fn query_pair(k: Seq<u8>, v: Seq<u8>) -> Seq<char> {
    escaped(k) + "="@ + escaped(v)
}

/// The pairs of a query, each escaped.
pub open spec fn query_pairs(q: Seq<(&str, String)>) -> Seq<Seq<char>> {
    q.map_values(|p: (&str, String)| query_pair(vstd::utf8::encode_utf8(p.0@), vstd::utf8::encode_utf8(p.1@)))
}

/// Percent-encode a query string: each key and value escaped byte by byte
/// of its UTF-8, `key=value` pairs joined with `&`.
pub fn encode_query(query: &[(&str, String)]) -> (r: String)
    ensures
        r@ == join(query_pairs(query@), "&"@),
{
    let mut parts: Vec<Vec<char>> = Vec::new();
    let mut i: usize = 0;
    while i < query.len()
        invariant
            0 <= i <= query@.len(),
            views(parts@) == query_pairs(query@.take(i as int)),
        decreases query@.len() - i,
    {
        let (k, v) = &query[i];
        let a = concat(escape(k).as_slice(), chars_of("=").as_slice());
        let pair = concat(a.as_slice(), escape(v.as_str()).as_slice());
        let ghost before = views(parts@);
        parts.push(pair);
        assert(views(parts@) == before.push(pair@));
        assert(query@.take(i + 1) == query@.take(i as int).push(query@[i as int]));
        assert(query_pairs(query@.take(i + 1)) =~= query_pairs(query@.take(i as int)).push(pair@));
        i = i + 1;
    }
    assert(query@.take(query@.len() as int) == query@);
    string_from(joined(&parts, "&").as_slice())
}

/// The characters of a fingerprint that are digits: all but `:` and
/// whitespace.
pub open spec fn kept(s: Seq<char>) -> Seq<char> {
    s.filter(|c: char| c != ':' && !is_ws(c))
}

/// Whether the text is sixty-four hex digits, in either case.
pub open spec fn hex_digits(h: Seq<char>) -> bool {
    h.len() == 64 && crate::text::all_digits(h, 16)
}

/// The 32 bytes sixty-four hex digits spell, two digits a byte.
pub open spec fn fingerprint_bytes(h: Seq<char>) -> Seq<u8> {
    Seq::new(
        32,
        |i: int| (crate::text::digit_value(h[2 * i], 16)->0 * 16 + crate::text::digit_value(h[2 * i + 1], 16)->0) as u8,
    )
}

fn kept_chars(s: &str) -> (r: Vec<char>)
    ensures
        r@ == kept(s@),
{
    let c = chars_of(s);
    let ghost keep = |ch: char| ch != ':' && !is_ws(ch);
    let mut out: Vec<char> = Vec::new();
    let mut i: usize = 0;
    while i < c.len()
        invariant
            0 <= i <= c@.len(),
            c@ == s@,
            keep == (|ch: char| ch != ':' && !is_ws(ch)),
            out@ == c@.take(i as int).filter(keep),
        decreases c@.len() - i,
    {
        let ch = c[i];
        proof {
            reveal_with_fuel(Seq::filter, 1);
            assert(c@.take(i + 1).drop_last() == c@.take(i as int));
            assert(c@.take(i + 1).last() == ch);
        }
        if ch != ':' && !ws(ch) {
            out.push(ch);
        }
        i = i + 1;
    }
    assert(c@.take(c@.len() as int) == c@);
    out
}

/// Parse `AA:BB:...` or `aabb...` into 32 bytes: colons and whitespace
/// are dropped, the rest must be sixty-four hex digits. A rest that is not
/// 64 bytes long is the wrong length; one that is but holds anything but
/// hex digits is not hex.
pub fn parse_fingerprint(s: &str) -> (r: Result<Vec<u8>, Error>)
    ensures
        hex_digits(kept(s@)) ==> (r matches Ok(v) && v@ == fingerprint_bytes(kept(s@))),
        !hex_digits(kept(s@)) ==> (r matches Err(Error::Config(m)) && m@ == (if utf8_len(kept(s@)) != 64 {
            "--fingerprint must be a SHA-256 (64 hex digits)"@
        } else {
            "--fingerprint is not hex"@
        })),
{
    let h = kept_chars(s);
    let mut used: usize = 0;
    let mut k: usize = 0;
    while k < h.len() && used <= 64
        invariant
            0 <= k <= h@.len(),
            used == utf8_len(h@.take(k as int)),
            used <= 68,
        decreases h@.len() - k,
    {
        assert(h@.take(k + 1).drop_last() == h@.take(k as int));
        used = used + width_of(h[k]);
        k = k + 1;
    }
    proof {
        if k < h@.len() {
            lemma_prefix_len_grows(h@, k as int, h@.len() as int);
        }
        assert(h@.take(h@.len() as int) == h@);
        if hex_digits(h@) {
            assert forall|j: int| 0 <= j <= h@.len() implies utf8_len(#[trigger] h@.take(j)) == j by {
                lemma_ascii_len(h@, j);
            }
        }
    }
    if used != 64 || k < h.len() {
        return Err(Error::Config("--fingerprint must be a SHA-256 (64 hex digits)".to_owned()));
    }
    if h.len() != 64 {
        return Err(Error::Config("--fingerprint is not hex".to_owned()));
    }
    let mut out: Vec<u8> = Vec::new();
    let mut i: usize = 0;
    while i < 32
        invariant
            0 <= i <= 32,
            h@.len() == 64,
            h@ == kept(s@),
            utf8_len(h@) == 64,
            out@.len() == i,
            forall|j: int| 0 <= j < 2 * i ==> (#[trigger] crate::text::digit_value(h@[j], 16)) is Some,
            forall|j: int| 0 <= j < i ==> out@[j] == fingerprint_bytes(h@)[j],
        decreases 32 - i,
    {
        let a = crate::text::digit_of(h[2 * i], 16);
        let b = crate::text::digit_of(h[2 * i + 1], 16);
        match (a, b) {
            (Some(x), Some(y)) => {
                assert(x < 16 && y < 16);
                out.push((x * 16 + y) as u8);
            },
            _ => {
                assert(!hex_digits(h@));
                return Err(Error::Config("--fingerprint is not hex".to_owned()));
            },
        }
        i = i + 1;
    }
    assert(out@ =~= fingerprint_bytes(h@));
    Ok(out)
}

/// An ASCII text spends a byte a character.
proof fn lemma_ascii_len(h: Seq<char>, j: int)
    requires
        0 <= j <= h.len(),
        crate::text::all_digits(h, 16),
    ensures
        utf8_len(h.take(j)) == j,
    decreases j,
{
    if j > 0 {
        assert(h.take(j).drop_last() == h.take(j - 1));
        assert(crate::text::digit_value(h[j - 1], 16) is Some);
        lemma_ascii_len(h, j - 1);
    }
}

/// Whether a server certificate is the pinned one: its SHA-256 is the
/// fingerprint given.
pub fn certificate_matches(cert: &[u8], expected: &[u8]) -> (r: bool)
    ensures
        r == (crate::common::digest::sha256_of(cert@) == expected@),
{
    let d = crate::common::digest::sha256(cert);
    if d.len() != expected.len() {
        return false;
    }
    let mut i: usize = 0;
    while i < d.len()
        invariant
            0 <= i <= d@.len(),
            d@.len() == expected@.len(),
            d@ == crate::common::digest::sha256_of(cert@),
            forall|j: int| 0 <= j < i ==> d@[j] == expected@[j],
        decreases d@.len() - i,
    {
        if d[i] != expected[i] {
            assert(d@[i as int] != expected@[i as int]);
            return false;
        }
        i = i + 1;
    }
    assert(d@ =~= expected@);
    true
}


/// `String::from_utf8_lossy`: the text of some bytes, each invalid
/// sequence replaced by U+FFFD.
pub uninterp spec fn lossy_text(bytes: Seq<u8>) -> Seq<char>;

/// `String::from_utf8_lossy`. Trusted to give the text the name stands
/// for, which for valid UTF-8 is the text encoded; how invalid bytes are
/// replaced goes unsaid.
#[verifier::external_body]
fn utf8_lossy(bytes: &[u8]) -> (r: String)
    ensures
        r@ == lossy_text(bytes@),
        forall|t: Seq<char>| vstd::utf8::encode_utf8(t) == bytes@ ==> r@ == t,
{
    String::from_utf8_lossy(bytes).into_owned()
}

/// How many bytes UTF-8 spends on a character.
pub open spec fn utf8_width(c: char) -> nat {
    if (c as u32) < 0x80 {
        1
    } else if (c as u32) < 0x800 {
        2
    } else if (c as u32) < 0x10000 {
        3
    } else {
        4
    }
}

/// How many bytes UTF-8 spends on a text.
pub open spec fn utf8_len(s: Seq<char>) -> nat
    decreases s.len(),
{
    if s.len() == 0 {
        0
    } else {
        utf8_len(s.drop_last()) + utf8_width(s.last())
    }
}

/// Whether the first `n` bytes of a text end between two characters.
pub open spec fn cuts_clean(s: Seq<char>, n: nat) -> bool {
    exists|k: int| 0 <= k <= s.len() && #[trigger] utf8_len(s.take(k)) == n
}

/// A longer prefix takes more bytes.
proof fn lemma_prefix_len_grows(s: Seq<char>, a: int, b: int)
    requires
        0 <= a < b <= s.len(),
    ensures
        utf8_len(s.take(a)) < utf8_len(s.take(b)),
    decreases b - a,
{
    assert(s.take(b).drop_last() == s.take(b - 1));
    if a < b - 1 {
        lemma_prefix_len_grows(s, a, b - 1);
    }
}

/// The characters within the first `n` bytes, when they end between two
/// characters.
pub open spec fn bytes_prefix(s: Seq<char>, n: nat) -> Seq<char> {
    s.take(choose|k: int| 0 <= k <= s.len() && #[trigger] utf8_len(s.take(k)) == n)
}

/// What an error shows of a reply body's text: trimmed, and past 200
/// bytes cut there and marked with `...`.
pub open spec fn snippet_text(t: Seq<char>) -> Seq<char> {
    if utf8_len(trim(t)) > 200 {
        bytes_prefix(trim(t), 200) + "..."@
    } else {
        trim(t)
    }
}

fn width_of(c: char) -> (r: usize)
    ensures
        r == utf8_width(c),
{
    let u = c as u32;
    if u < 0x80 {
        1
    } else if u < 0x800 {
        2
    } else if u < 0x10000 {
        3
    } else {
        4
    }
}

/// The text of a reply body as an error shows it.
fn snippet(text: &str) -> (r: String)
    requires
        utf8_len(trim(text@)) > 200 ==> cuts_clean(trim(text@), 200),
    ensures
        r@ == snippet_text(text@),
{
    let t = trimmed(chars_of(text).as_slice());
    let mut used: usize = 0;
    let mut k: usize = 0;
    while k < t.len() && used < 201
        invariant
            0 <= k <= t@.len(),
            used == utf8_len(t@.take(k as int)),
        decreases t@.len() - k,
    {
        assert(t@.take(k + 1).drop_last() == t@.take(k as int));
        used = used + width_of(t[k]);
        k = k + 1;
    }
    if used <= 200 && k == t.len() {
        assert(t@.take(k as int) == t@);
        return string_from(t.as_slice());
    }
    // The text is longer than 200 bytes: cut where the first 200 end.
    proof {
        if k == t@.len() {
            assert(t@.take(k as int) == t@);
        }
        assert(utf8_len(t@) > 200) by {
            if k < t@.len() {
                lemma_prefix_len_grows(t@, k as int, t@.len() as int);
                assert(t@.take(t@.len() as int) == t@);
            } else {
                assert(t@.take(k as int) == t@);
            }
        }
    }
    let ghost cut = choose|c: int| 0 <= c <= t@.len() && #[trigger] utf8_len(t@.take(c)) == 200;
    let tl = t.len();
    let mut n: usize = 0;
    let mut m: usize = 0;
    while m < 200
        invariant
            0 <= n <= cut,
            0 <= cut <= t@.len(),
            tl == t@.len(),
            utf8_len(t@.take(cut)) == 200,
            m == utf8_len(t@.take(n as int)),
            m <= 200,
        decreases cut - n,
    {
        proof {
            assert(n < cut);
            lemma_prefix_len_grows(t@, n as int, cut);
            if n + 1 < cut {
                lemma_prefix_len_grows(t@, n + 1, cut);
            }
        }
        assert(t@.take(n + 1).drop_last() == t@.take(n as int));
        m = m + width_of(t[n]);
        n = n + 1;
    }
    proof {
        if n < cut {
            lemma_prefix_len_grows(t@, n as int, cut);
        }
    }
    assert(n == cut);
    let head = crate::text::slice(t.as_slice(), 0, n);
    assert(head@ == t@.take(n as int)) by {
        assert(t@.subrange(0, n as int) =~= t@.take(n as int));
    }
    string_from(concat(head.as_slice(), chars_of("...").as_slice()).as_slice())
}

/// Whether judging a reply can show its body: the text of a body cut at
/// 200 bytes must be cut between two characters.
pub open spec fn showable(reply: Reply, problem: Option<Problem>) -> bool {
    ||| 200 <= reply.status < 300
    ||| problem is Some
    ||| (utf8_len(trim(lossy_text(reply.body@))) > 200 ==> cuts_clean(trim(lossy_text(reply.body@)), 200))
}

/// Whether `check` can show this reply's body; test it before calling.
pub fn reply_showable(reply: &Reply, problem: &Option<Problem>) -> (r: bool)
    ensures
        r == showable(*reply, *problem),
{
    if 200 <= reply.status && reply.status < 300 {
        return true;
    }
    if problem.is_some() {
        return true;
    }
    let t = trimmed(chars_of(utf8_lossy(reply.body.as_slice()).as_str()).as_slice());
    let mut used: usize = 0;
    let mut k: usize = 0;
    while k < t.len() && used < 200
        invariant
            0 <= k <= t@.len(),
            used == utf8_len(t@.take(k as int)),
            forall|j: int| 0 <= j < k ==> utf8_len(#[trigger] t@.take(j)) < 200,
        decreases t@.len() - k,
    {
        assert(t@.take(k + 1).drop_last() == t@.take(k as int));
        used = used + width_of(t[k]);
        k = k + 1;
    }
    if used == 200 {
        return true;
    }
    proof {
        if used < 200 {
            assert(k == t@.len());
            assert(t@.take(k as int) == t@);
        } else {
            assert forall|j: int| 0 <= j <= t@.len() implies utf8_len(#[trigger] t@.take(j)) != 200 by {
                if j > k {
                    lemma_prefix_len_grows(t@, k as int, j);
                }
            }
            if k < t@.len() {
                lemma_prefix_len_grows(t@, k as int, t@.len() as int);
            }
            assert(t@.take(t@.len() as int) == t@);
        }
    }
    used < 200
}

/// Judge a reply: a 2xx is fine; else the problem the body held, if it
/// held one, else the status and a snippet of the body's text.
pub fn check(reply: &Reply, problem: Option<Problem>) -> (r: Result<(), Error>)
    requires
        showable(*reply, problem),
    ensures
        200 <= reply.status < 300 ==> r is Ok,
        !(200 <= reply.status < 300) && problem is Some ==> (r matches Err(Error::Api(p)) && *p == problem->0),
        !(200 <= reply.status < 300) && problem is None ==> (r matches Err(Error::Unexpected { status, body })
            && status == reply.status && body@ == snippet_text(lossy_text(reply.body@))),
{
    if 200 <= reply.status && reply.status < 300 {
        return Ok(());
    }
    match problem {
        Some(p) => Err(Error::Api(Box::new(p))),
        None => {
            let text = utf8_lossy(reply.body.as_slice());
            Err(Error::Unexpected { status: reply.status, body: snippet(text.as_str()) })
        },
    }
}


/// Judge a reply as `check` does, when its body can be shown; `None`
/// when the body's text would have to be cut inside a character.
pub fn try_check(reply: &Reply, problem: Option<Problem>) -> (r: Option<Result<(), Error>>)
    ensures
        r is None <==> !showable(*reply, problem),
        r matches Some(res) ==> {
            &&& 200 <= reply.status < 300 ==> res is Ok
            &&& !(200 <= reply.status < 300) && problem is Some ==> (res matches Err(Error::Api(p)) && *p == problem->0)
            &&& !(200 <= reply.status < 300) && problem is None ==> (res matches Err(Error::Unexpected { status, body })
                && status == reply.status && body@ == snippet_text(lossy_text(reply.body@)))
        },
{
    if reply_showable(reply, &problem) {
        Some(check(reply, problem))
    } else {
        None
    }
}

/// `s` without the `/` characters it ends with.
pub open spec fn trim_slashes(s: Seq<char>) -> Seq<char>
    decreases s.len(),
{
    if s.len() > 0 && s.last() == '/' {
        trim_slashes(s.drop_last())
    } else {
        s
    }
}

/// The credential to send: the `--token` flag; else what the `--token-file`
/// holds, trimmed; else what the default token file holds, trimmed, when
/// that is not empty.
pub open spec fn token_choice(flag: Option<Seq<char>>, file: Option<Seq<char>>, default_file: Option<Seq<char>>)
    -> Option<Seq<char>> {
    match flag {
        Some(t) => Some(t),
        None => match file {
            Some(c) => Some(trim(c)),
            None => match default_file {
                Some(c) => if trim(c).len() > 0 { Some(trim(c)) } else { None },
                None => None,
            },
        },
    }
}

/// The credential `connect` sends, from the `--token` flag, the contents
/// of `--token-file` when one was given, and the contents of the default
/// token file when it could be read.
pub fn token_from(flag: Option<String>, file: Option<String>, default_file: Option<String>) -> (r: Option<String>)
    ensures
        (match r {
            Some(t) => Some(t@),
            None => None,
        }) == token_choice(
            (match flag {
                Some(t) => Some(t@),
                None => None,
            }),
            (match file {
                Some(c) => Some(c@),
                None => None,
            }),
            (match default_file {
                Some(c) => Some(c@),
                None => None,
            }),
        ),
{
    match flag {
        Some(t) => Some(t),
        None => match file {
            Some(c) => Some(string_from(trimmed(chars_of(c.as_str()).as_slice()).as_slice())),
            None => match default_file {
                Some(c) => {
                    let t = trimmed(chars_of(c.as_str()).as_slice());
                    if t.len() > 0 {
                        Some(string_from(t.as_slice()))
                    } else {
                        None
                    }
                },
                None => None,
            },
        },
    }
}

/// Where `connect` sends requests.
#[derive(Debug)]
pub enum Route {
    /// The daemon's Unix socket at this path.
    Unix(String),
    /// The API over HTTP(S) at this base URL, with no trailing `/`.
    Https(String),
}

/// Whether `connect` tries the default socket: when no socket, server or
/// token points elsewhere.
pub fn probes_default_socket(socket: &Option<String>, server: &Option<String>, has_token: bool) -> (r: bool)
    ensures
        r == (socket is None && server is None && !has_token),
{
    socket.is_none() && server.is_none() && !has_token
}

/// The base URL for a server: the one given, else `https://localhost`,
/// without trailing `/`.
pub open spec fn server_base(server: Option<Seq<char>>) -> Seq<char> {
    trim_slashes(match server {
        Some(s) => s,
        None => "https://localhost"@,
    })
}

fn without_slashes(s: &[char]) -> (r: Vec<char>)
    ensures
        r@ == trim_slashes(s@),
{
    let mut k: usize = s.len();
    assert(s@.take(k as int) == s@);
    while k > 0 && s[k - 1] == '/'
        invariant
            0 <= k <= s.len(),
            trim_slashes(s@) == trim_slashes(s@.take(k as int)),
        decreases k,
    {
        assert(s@.take(k as int).drop_last() == s@.take(k - 1));
        k = k - 1;
    }
    assert(s@.subrange(0, k as int) == s@.take(k as int));
    slice(s, 0, k)
}

/// The transport `connect` picks: the socket given; else the default
/// socket, when nothing points elsewhere and it answered (`default_up`);
/// else the server's base URL, which must be `http://` or `https://`.
pub fn route_for(socket: Option<String>, server: Option<String>, has_token: bool, default_up: bool)
    -> (r: Result<Route, Error>)
    ensures
        socket matches Some(p) ==> (r matches Ok(Route::Unix(q)) && q@ == p@),
        socket is None && server is None && !has_token && default_up ==> (r matches Ok(Route::Unix(q))
            && q@ == DEFAULT_SOCKET@),
        socket is None && !(server is None && !has_token && default_up) ==> {
            let base = server_base(match server {
                Some(s) => Some(s@),
                None => None,
            });
            if starts_with(base, "https://"@) || starts_with(base, "http://"@) {
                (r matches Ok(Route::Https(b)) && b@ == base)
            } else {
                (r matches Err(Error::Config(m)) && m@ == "--server must be a URL, got `"@ + base + "`"@)
            }
        },
{
    if let Some(p) = socket {
        return Ok(Route::Unix(p));
    }
    if server.is_none() && !has_token && default_up {
        return Ok(Route::Unix(DEFAULT_SOCKET.to_owned()));
    }
    let given = match server {
        Some(s) => chars_of(s.as_str()),
        None => chars_of("https://localhost"),
    };
    let base = without_slashes(given.as_slice());
    if has_prefix(base.as_slice(), "https://") || has_prefix(base.as_slice(), "http://") {
        Ok(Route::Https(string_from(base.as_slice())))
    } else {
        let m = concat(chars_of("--server must be a URL, got `").as_slice(), base.as_slice());
        let m = concat(m.as_slice(), chars_of("`").as_slice());
        Err(Error::Config(string_from(m.as_slice())))
    }
}

} // verus!
