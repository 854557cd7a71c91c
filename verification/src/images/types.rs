//! Errors and small value types of the image catalogue.
use vstd::prelude::*;
use crate::common::shell::{Command, FailureKind, ShellError, error_text, shell_message};
use crate::text::{
    chars_of, concat, contains, has, hex2, hex_digit, lower, lowered, split_char, split_on, string_from,
    first_where, lemma_first_where, lemma_none_where, slice, is,
};

verus! {

/// Why an image operation failed.
#[derive(Debug, Clone)]
pub enum ImageError {
    /// The network did not deliver.
    Transport(String),
    /// The index or its signature is not right.
    Index(String),
    /// The payload hash did not match.
    Verify {
        /// Published.
        expected: String,
        /// Computed.
        actual: String,
    },
    /// A tool failed.
    Command(ShellError),
    /// Local file trouble.
    Io(String),
    /// The request cannot be honoured as given.
    Invalid(String),
}

/// How a tool's words classify a failure, for image operations.
pub open spec fn image_text_kind(t: Seq<char>) -> FailureKind {
    if contains(t, "does not exist"@) {
        FailureKind::NotFound
    } else if contains(t, "exists"@) {
        FailureKind::Exists
    } else if contains(t, "busy"@) || contains(t, "dependent clones"@) {
        FailureKind::Conflict
    } else if contains(t, "permission denied"@) {
        FailureKind::Forbidden
    } else {
        FailureKind::Other
    }
}

/// The classification of an image error.
pub open spec fn image_error_kind(e: ImageError) -> FailureKind {
    match e {
        ImageError::Transport(_) | ImageError::Io(_) => FailureKind::Other,
        ImageError::Index(_) | ImageError::Verify { .. } | ImageError::Invalid(_) => FailureKind::Invalid,
        ImageError::Command(c) => image_text_kind(lower(error_text(c))),
    }
}

fn classify_image_text(t: &[char]) -> (r: FailureKind)
    ensures
        r == image_text_kind(t@),
{
    if has(t, "does not exist") {
        FailureKind::NotFound
    } else if has(t, "exists") {
        FailureKind::Exists
    } else if has(t, "busy") || has(t, "dependent clones") {
        FailureKind::Conflict
    } else if has(t, "permission denied") {
        FailureKind::Forbidden
    } else {
        FailureKind::Other
    }
}

impl ImageError {
    /// The message the error shows; a tool's failure shows as the shell
    /// error does.
    pub fn message(&self) -> (r: String)
        ensures
            self matches ImageError::Transport(m) ==> r@ == "fetch failed: "@ + m@,
            self matches ImageError::Index(m) ==> r@ == "index rejected: "@ + m@,
            self matches ImageError::Verify { expected, actual } ==> r@ == "sha256 mismatch: expected "@
                + expected@ + ", got "@ + actual@,
            self matches ImageError::Command(c) ==> r@ == shell_message(*c),
            self matches ImageError::Io(m) ==> r@ == m@,
            self matches ImageError::Invalid(m) ==> r@ == m@,
    {
        match self {
            ImageError::Transport(m) => {
                string_from(concat(chars_of("fetch failed: ").as_slice(), chars_of(m.as_str()).as_slice()).as_slice())
            },
            ImageError::Index(m) => {
                string_from(concat(chars_of("index rejected: ").as_slice(), chars_of(m.as_str()).as_slice()).as_slice())
            },
            ImageError::Verify { expected, actual } => {
                let a = concat(chars_of("sha256 mismatch: expected ").as_slice(), chars_of(expected.as_str()).as_slice());
                let b = concat(a.as_slice(), chars_of(", got ").as_slice());
                let c = concat(b.as_slice(), chars_of(actual.as_str()).as_slice());
                string_from(c.as_slice())
            },
            ImageError::Command(e) => e.message(),
            ImageError::Io(m) => m.clone(),
            ImageError::Invalid(m) => m.clone(),
        }
    }

    /// Classify for HTTP mapping.
    pub fn kind(&self) -> (r: FailureKind)
        ensures
            r == image_error_kind(*self),
    {
        match self {
            ImageError::Transport(_) | ImageError::Io(_) => FailureKind::Other,
            ImageError::Index(_) | ImageError::Verify { .. } | ImageError::Invalid(_) => FailureKind::Invalid,
            ImageError::Command(e) => {
                let t = chars_of(e.stderr());
                let l = lowered(t.as_slice());
                classify_image_text(l.as_slice())
            },
        }
    }
}

/// How a payload is compressed, from its URL.
#[derive(Debug, Clone, Copy, PartialEq, Eq, Structural)]
pub enum Compression {
    /// Plain.
    Plain,
    /// gzip.
    Gzip,
    /// xz.
    Xz,
}

/// A URL without its query and fragment: the text before the first `?`
/// or `#`.
pub open spec fn url_path(url: Seq<char>) -> Seq<char> {
    match first_where(url, |c: char| c == '?' || c == '#') {
        Some(i) => url.take(i),
        None => url,
    }
}

/// The path's components as `Path::components` keeps them: empty and `.`
/// pieces dropped.
pub open spec fn components(p: Seq<Seq<char>>) -> Seq<Seq<char>>
    decreases p.len(),
{
    if p.len() == 0 {
        Seq::<Seq<char>>::empty()
    } else if p.last().len() == 0 || p.last() == "."@ {
        components(p.drop_last())
    } else {
        components(p.drop_last()).push(p.last())
    }
}

/// `Path::file_name`: the last component, unless it is `..`.
pub open spec fn file_name(path: Seq<char>) -> Option<Seq<char>> {
    let cs = components(split_char(path, '/'));
    if cs.len() == 0 || cs.last() == ".."@ {
        None
    } else {
        Some(cs.last())
    }
}

/// `Path::extension` of a file name: after its last `.`, unless that dot
/// starts the name.
pub open spec fn extension_of(name: Seq<char>) -> Option<Seq<char>> {
    match crate::zfs::parse::last_pos(name, '.') {
        Some(i) => if i == 0 { None } else { Some(name.skip(i + 1)) },
        None => None,
    }
}

/// The compression a URL's file extension names, in any case.
pub open spec fn compression_of(url: Seq<char>) -> Compression {
    match file_name(url_path(url)) {
        Some(n) => match extension_of(n) {
            Some(e) => {
                let l = lower(e);
                if l == "gz"@ || l == "tgz"@ {
                    Compression::Gzip
                } else if l == "xz"@ {
                    Compression::Xz
                } else {
                    Compression::Plain
                }
            },
            None => Compression::Plain,
        },
        None => Compression::Plain,
    }
}

fn path_part(url: &[char]) -> (r: Vec<char>)
    ensures
        r@ == url_path(url@),
{
    let ghost pred = |c: char| c == '?' || c == '#';
    let mut i: usize = 0;
    while i < url.len() && url[i] != '?' && url[i] != '#'
        invariant
            0 <= i <= url@.len(),
            pred == (|c: char| c == '?' || c == '#'),
            forall|j: int| 0 <= j < i ==> !pred(url@[j]),
        decreases url@.len() - i,
    {
        i = i + 1;
    }
    proof {
        if i < url@.len() {
            lemma_first_where(url@, pred, i as int);
        } else {
            lemma_none_where(url@, pred);
            assert(url@.take(i as int) == url@);
        }
    }
    slice(url, 0, i)
}

fn last_component(path: &[char]) -> (r: Option<Vec<char>>)
    ensures
        crate::zfs::parse::opt_chars(r) == file_name(path@),
{
    let parts = split_on(path, '/');
    let ghost pv = crate::text::views(parts@);
    let mut kept: Vec<Vec<char>> = Vec::new();
    let mut i: usize = 0;
    while i < parts.len()
        invariant
            0 <= i <= parts@.len(),
            pv == crate::text::views(parts@),
            crate::text::views(kept@) == components(pv.take(i as int)),
        decreases parts@.len() - i,
    {
        assert(pv.take(i + 1).drop_last() == pv.take(i as int));
        assert(pv.take(i + 1).last() == parts@[i as int]@);
        let p = &parts[i];
        if p.len() == 0 || is(p.as_slice(), ".") {
        } else {
            let ghost before = crate::text::views(kept@);
            let c = slice(p.as_slice(), 0, p.len());
            assert(p@.subrange(0, p@.len() as int) == p@);
            kept.push(c);
            assert(crate::text::views(kept@) == before.push(p@));
        }
        i = i + 1;
    }
    assert(pv.take(parts@.len() as int) == pv);
    if kept.len() == 0 {
        return None;
    }
    let last = slice(kept[kept.len() - 1].as_slice(), 0, kept[kept.len() - 1].len());
    assert(kept@[kept@.len() - 1]@.subrange(0, kept@[kept@.len() - 1]@.len() as int) == kept@[kept@.len() - 1]@);
    if is(last.as_slice(), "..") {
        None
    } else {
        Some(last)
    }
}

fn extension(name: &[char]) -> (r: Option<Vec<char>>)
    ensures
        crate::zfs::parse::opt_chars(r) == extension_of(name@),
{
    let mut n: usize = name.len();
    assert(name@.take(name@.len() as int) == name@);
    while n > 0 && name[n - 1] != '.'
        invariant
            0 <= n <= name@.len(),
            crate::zfs::parse::last_pos(name@, '.') == crate::zfs::parse::last_pos(name@.take(n as int), '.'),
        decreases n,
    {
        assert(name@.take(n as int).drop_last() == name@.take(n - 1));
        n = n - 1;
    }
    if n <= 1 {
        return None;
    }
    Some(crate::text::drop_front(name, n))
}

impl Compression {
    /// From the file name at the end of a URL.
    pub fn from_url(url: &str) -> (r: Compression)
        ensures
            r == compression_of(url@),
    {
        let c = chars_of(url);
        let p = path_part(c.as_slice());
        let n = match last_component(p.as_slice()) {
            Some(n) => n,
            None => return Compression::Plain,
        };
        let e = match extension(n.as_slice()) {
            Some(e) => e,
            None => return Compression::Plain,
        };
        let l = lowered(e.as_slice());
        if is(l.as_slice(), "gz") || is(l.as_slice(), "tgz") {
            Compression::Gzip
        } else if is(l.as_slice(), "xz") {
            Compression::Xz
        } else {
            Compression::Plain
        }
    }

    /// The decompressor command, if any: `gzip -dc` or `xz -dc`.
    pub fn decompressor(self) -> (r: Option<Command>)
        ensures
            self == Compression::Plain <==> r is None,
            r matches Some(c) ==> !c.privileged
                && crate::common::shell::string_views(c.args@) == seq!["-dc"@]
                && c.program@ == (if self == Compression::Gzip { "gzip"@ } else { "xz"@ }),
    {
        match self {
            Compression::Plain => None,
            Compression::Gzip => Some(Command::new("gzip").arg("-dc")),
            Compression::Xz => Some(Command::new("xz").arg("-dc")),
        }
    }
}

/// A lowercase hex digit.
pub open spec fn is_hex_digit(c: char) -> bool {
    ('0' <= c <= '9') || ('a' <= c <= 'f')
}

/// Sixty-four lowercase hex digits.
pub open spec fn sha256_text(s: Seq<char>) -> bool {
    s.len() == 64 && forall|i: int| 0 <= i < s.len() ==> is_hex_digit(#[trigger] s[i])
}

/// Whether a text is sixty-four lowercase hex digits.
pub fn valid_sha256(s: &str) -> (r: bool)
    ensures
        r == sha256_text(s@),
{
    let c = chars_of(s);
    if c.len() != 64 {
        return false;
    }
    let mut i: usize = 0;
    while i < c.len()
        invariant
            0 <= i <= c@.len(),
            c@ == s@,
            forall|j: int| 0 <= j < i ==> is_hex_digit(#[trigger] c@[j]),
        decreases c@.len() - i,
    {
        let x = c[i];
        if !(('0' <= x && x <= '9') || ('a' <= x && x <= 'f')) {
            assert(!is_hex_digit(c@[i as int]));
            return false;
        }
        i = i + 1;
    }
    true
}

/// The lowercase hex of bytes, two digits each.
pub open spec fn hex_of(bytes: Seq<u8>) -> Seq<char>
    decreases bytes.len(),
{
    if bytes.len() == 0 {
        Seq::<char>::empty()
    } else {
        hex_of(bytes.drop_last()) + hex2(bytes.last())
    }
}

/// Lowercase hex of a digest.
pub fn hex(bytes: &[u8]) -> (r: String)
    ensures
        r@ == hex_of(bytes@),
{
    let mut out: Vec<char> = Vec::new();
    let mut i: usize = 0;
    while i < bytes.len()
        invariant
            0 <= i <= bytes@.len(),
            out@ == hex_of(bytes@.take(i as int)),
        decreases bytes@.len() - i,
    {
        assert(bytes@.take(i + 1).drop_last() == bytes@.take(i as int));
        assert(bytes@.take(i + 1).last() == bytes@[i as int]);
        let b = bytes[i];
        out.push(hex_digit(b / 16));
        out.push(hex_digit(b % 16));
        assert(out@ == hex_of(bytes@.take(i as int)) + hex2(b));
        i = i + 1;
    }
    assert(bytes@.take(bytes@.len() as int) == bytes@);
    string_from(out.as_slice())
}

} // verus!
