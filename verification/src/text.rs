//! Text primitives over character sequences, each with the exact meaning
//! of the `str` method it stands for.
use vstd::prelude::*;

verus! {

broadcast use vstd::string::group_string_axioms;

/// The views of a sequence of character vectors.
pub open spec fn views(v: Seq<Vec<char>>) -> Seq<Seq<char>> {
    v.map_values(|x: Vec<char>| x@)
}

/// The pieces of `s` between occurrences of `sep`, as `str::split` with a
/// character pattern gives them: always at least one piece.
pub open spec fn split_char(s: Seq<char>, sep: char) -> Seq<Seq<char>>
    decreases s.len(),
{
    if s.len() == 0 {
        seq![Seq::<char>::empty()]
    } else {
        let p = split_char(s.drop_last(), sep);
        if s.last() == sep {
            p.push(Seq::<char>::empty())
        } else {
            p.update(p.len() - 1, p.last().push(s.last()))
        }
    }
}

pub proof fn lemma_split_char_nonempty(s: Seq<char>, sep: char)
    ensures
        split_char(s, sep).len() >= 1,
    decreases s.len(),
{
    if s.len() > 0 {
        lemma_split_char_nonempty(s.drop_last(), sep);
    }
}

/// The characters of `s`, in order.
pub fn chars_of(s: &str) -> (v: Vec<char>)
    ensures
        v@ == s@,
{
    let mut v: Vec<char> = Vec::new();
    for c in it: s.chars()
        invariant
            v@ == it.seq().take(it.index() as int),
    {
        v.push(c);
    }
    v
}

/// `s` split on every `sep`.
pub fn split_on(s: &[char], sep: char) -> (r: Vec<Vec<char>>)
    ensures
        views(r@) == split_char(s@, sep),
{
    let mut out: Vec<Vec<char>> = Vec::new();
    let mut cur: Vec<char> = Vec::new();
    let mut i: usize = 0;
    while i < s.len()
        invariant
            0 <= i <= s.len(),
            views(out@).push(cur@) == split_char(s@.take(i as int), sep),
        decreases s.len() - i,
    {
        let ghost before = views(out@).push(cur@);
        assert(s@.take(i + 1).drop_last() == s@.take(i as int));
        if s[i] == sep {
            let done = cur;
            out.push(done);
            cur = Vec::new();
            assert(views(out@).push(cur@) == before.push(Seq::<char>::empty()));
        } else {
            cur.push(s[i]);
            assert(views(out@).push(cur@) == before.update(before.len() - 1, before.last().push(s@[i as int])));
        }
        i = i + 1;
    }
    assert(s@.take(s.len() as int) == s@);
    out.push(cur);
    out
}


/// `String::push`: the string with one more character at its end.
#[verifier::external_body]
fn push_char(s: &mut String, c: char)
    ensures
        final(s)@ == old(s)@.push(c),
{
    s.push(c);
}

/// A `String` holding exactly the characters `v`.
pub fn string_from(v: &[char]) -> (s: String)
    ensures
        s@ == v@,
{
    let mut s = String::new();
    let mut i: usize = 0;
    while i < v.len()
        invariant
            0 <= i <= v.len(),
            s@ == v@.take(i as int),
        decreases v.len() - i,
    {
        push_char(&mut s, v[i]);
        assert(v@.take(i + 1) == v@.take(i as int).push(v@[i as int]));
        i = i + 1;
    }
    assert(v@.take(v.len() as int) == v@);
    s
}

/// The characters of `s`, for a `String`.
pub fn chars_of_string(s: &String) -> (v: Vec<char>)
    ensures
        v@ == s@,
{
    chars_of(s.as_str())
}

/// `s` followed by `t`.
pub fn concat(s: &[char], t: &[char]) -> (r: Vec<char>)
    ensures
        r@ == s@ + t@,
{
    let mut r: Vec<char> = Vec::new();
    let mut i: usize = 0;
    while i < s.len()
        invariant
            0 <= i <= s.len(),
            r@ == s@.take(i as int),
        decreases s.len() - i,
    {
        r.push(s[i]);
        assert(s@.take(i + 1) == s@.take(i as int).push(s@[i as int]));
        i = i + 1;
    }
    let mut j: usize = 0;
    while j < t.len()
        invariant
            0 <= j <= t.len(),
            i == s.len(),
            r@ == s@.take(i as int) + t@.take(j as int),
        decreases t.len() - j,
    {
        r.push(t[j]);
        assert(t@.take(j + 1) == t@.take(j as int).push(t@[j as int]));
        j = j + 1;
    }
    assert(s@.take(s.len() as int) == s@);
    assert(t@.take(t.len() as int) == t@);
    r
}

/// Whether two character sequences are equal.
pub fn same(a: &[char], b: &[char]) -> (r: bool)
    ensures
        r == (a@ == b@),
{
    if a.len() != b.len() {
        return false;
    }
    let mut i: usize = 0;
    while i < a.len()
        invariant
            0 <= i <= a.len(),
            a.len() == b.len(),
            a@.take(i as int) == b@.take(i as int),
        decreases a.len() - i,
    {
        if a[i] != b[i] {
            assert(a@[i as int] != b@[i as int]);
            return false;
        }
        assert(a@.take(i + 1) == a@.take(i as int).push(a@[i as int]));
        assert(b@.take(i + 1) == b@.take(i as int).push(b@[i as int]));
        i = i + 1;
    }
    assert(a@.take(a.len() as int) == a@);
    assert(b@.take(b.len() as int) == b@);
    true
}

/// Whether two texts are equal.
pub fn str_eq(a: &str, b: &str) -> (r: bool)
    ensures
        r == (a@ == b@),
{
    let x = chars_of(a);
    let y = chars_of(b);
    same(x.as_slice(), y.as_slice())
}

/// Whether `a` spells the literal `lit`.
pub fn is(a: &[char], lit: &str) -> (r: bool)
    ensures
        r == (a@ == lit@),
{
    let l = chars_of(lit);
    same(a, l.as_slice())
}

/// Whether `s` begins with `p`.
pub open spec fn starts_with(s: Seq<char>, p: Seq<char>) -> bool {
    p.len() <= s.len() && s.take(p.len() as int) == p
}

/// Whether `s` ends with `p`.
pub open spec fn ends_with(s: Seq<char>, p: Seq<char>) -> bool {
    p.len() <= s.len() && s.skip(s.len() - p.len()) == p
}

/// Whether `p` occurs in `s` at `i`.
pub open spec fn occurs_at(s: Seq<char>, p: Seq<char>, i: int) -> bool {
    0 <= i && i + p.len() <= s.len() && s.subrange(i, i + p.len()) == p
}

/// Whether `p` occurs anywhere in `s`.
pub open spec fn contains(s: Seq<char>, p: Seq<char>) -> bool {
    exists|i: int| occurs_at(s, p, i)
}

/// Whether `s` begins with `p` at position `at`.
pub fn matches_at(s: &[char], p: &[char], at: usize) -> (r: bool)
    requires
        at <= s.len(),
    ensures
        r == occurs_at(s@, p@, at as int),
{
    if p.len() > s.len() - at {
        return false;
    }
    let mut i: usize = 0;
    while i < p.len()
        invariant
            0 <= i <= p.len(),
            at + p.len() <= s.len(),
            s@.subrange(at as int, at + i) == p@.take(i as int),
        decreases p.len() - i,
    {
        if s[at + i] != p[i] {
            assert(s@.subrange(at as int, at + p.len())[i as int] != p@[i as int]);
            return false;
        }
        assert(s@.subrange(at as int, at + i + 1) == s@.subrange(at as int, at + i).push(s@[at + i]));
        assert(p@.take(i + 1) == p@.take(i as int).push(p@[i as int]));
        i = i + 1;
    }
    assert(p@.take(p.len() as int) == p@);
    true
}

/// Whether `s` begins with the literal `lit`.
pub fn has_prefix(s: &[char], lit: &str) -> (r: bool)
    ensures
        r == starts_with(s@, lit@),
{
    let p = chars_of(lit);
    let r = matches_at(s, p.as_slice(), 0);
    assert(s@.subrange(0, p@.len() as int) == s@.take(p@.len() as int));
    r
}

/// Whether `s` ends with the literal `lit`.
pub fn has_suffix(s: &[char], lit: &str) -> (r: bool)
    ensures
        r == ends_with(s@, lit@),
{
    let p = chars_of(lit);
    if p.len() > s.len() {
        return false;
    }
    let r = matches_at(s, p.as_slice(), s.len() - p.len());
    assert(s@.subrange(s.len() - p.len(), s.len() as int) == s@.skip(s.len() - p.len()));
    r
}

/// The first position of `p` in `s`, as `str::find` gives it.
pub open spec fn find(s: Seq<char>, p: Seq<char>) -> Option<int> {
    if contains(s, p) {
        Some(choose|i: int| occurs_at(s, p, i) && forall|j: int| 0 <= j < i ==> !occurs_at(s, p, j))
    } else {
        None
    }
}

/// The first position of `p` in `s`.
pub fn find_in(s: &[char], p: &[char]) -> (r: Option<usize>)
    ensures
        r matches Some(i) ==> find(s@, p@) == Some(i as int),
        r is None ==> find(s@, p@) is None,
        r matches Some(i) ==> occurs_at(s@, p@, i as int) && forall|j: int| 0 <= j < i ==> !occurs_at(s@, p@, j),
        r is None ==> !contains(s@, p@),
{
    let mut i: usize = 0;
    while i <= s.len()
        invariant_except_break
            0 <= i <= s.len(),
            forall|j: int| 0 <= j < i ==> !occurs_at(s@, p@, j),
        ensures
            i == s.len(),
            forall|j: int| 0 <= j <= i ==> !occurs_at(s@, p@, j),
        decreases s.len() + 1 - i,
    {
        if matches_at(s, p, i) {
            let ghost k = choose|k: int| occurs_at(s@, p@, k) && forall|j: int| 0 <= j < k ==> !occurs_at(s@, p@, j);
            assert(occurs_at(s@, p@, i as int));
            assert(exists|k: int| occurs_at(s@, p@, k) && forall|j: int| 0 <= j < k ==> !occurs_at(s@, p@, j));
            assert(k == i) by {
                if k < i {
                } else if k > i {
                    assert(!occurs_at(s@, p@, i as int));
                }
            }
            return Some(i);
        }
        if i == s.len() {
            break;
        }
        i = i + 1;
    }
    assert forall|j: int| !occurs_at(s@, p@, j) by {
        if 0 <= j && j + p@.len() <= s@.len() {
            assert(j <= i);
        }
    }
    None
}

/// Whether the literal `lit` occurs in `s`.
pub fn has(s: &[char], lit: &str) -> (r: bool)
    ensures
        r == contains(s@, lit@),
{
    let p = chars_of(lit);
    find_in(s, p.as_slice()).is_some()
}

/// Whether `c` occurs in `s`.
pub fn has_char(s: &[char], c: char) -> (r: bool)
    ensures
        r == s@.contains(c),
{
    let mut i: usize = 0;
    while i < s.len()
        invariant
            0 <= i <= s.len(),
            forall|j: int| 0 <= j < i ==> s@[j] != c,
        decreases s.len() - i,
    {
        if s[i] == c {
            assert(s@[i as int] == c);
            return true;
        }
        i = i + 1;
    }
    false
}

/// The piece `s[from..to]`.
pub fn slice(s: &[char], from: usize, to: usize) -> (r: Vec<char>)
    requires
        from <= to <= s.len(),
    ensures
        r@ == s@.subrange(from as int, to as int),
{
    let mut r: Vec<char> = Vec::new();
    let mut i: usize = from;
    while i < to
        invariant
            from <= i <= to <= s.len(),
            r@ == s@.subrange(from as int, i as int),
        decreases to - i,
    {
        r.push(s[i]);
        assert(s@.subrange(from as int, i + 1) == s@.subrange(from as int, i as int).push(s@[i as int]));
        i = i + 1;
    }
    r
}


/// Unicode `White_Space`, as `char::is_whitespace` decides it.
pub open spec fn is_ws(c: char) -> bool {
    c == ' ' || ('\t' <= c && c <= '\r') || c == '\u{85}' || c == '\u{a0}' || c == '\u{1680}'
        || ('\u{2000}' <= c && c <= '\u{200a}') || c == '\u{2028}' || c == '\u{2029}'
        || c == '\u{202f}' || c == '\u{205f}' || c == '\u{3000}'
}

/// `char::is_whitespace`.
pub fn ws(c: char) -> (r: bool)
    ensures
        r == is_ws(c),
{
    c == ' ' || ('\t' <= c && c <= '\r') || c == '\u{85}' || c == '\u{a0}' || c == '\u{1680}'
        || ('\u{2000}' <= c && c <= '\u{200a}') || c == '\u{2028}' || c == '\u{2029}'
        || c == '\u{202f}' || c == '\u{205f}' || c == '\u{3000}'
}

/// `str::trim_start`.
pub open spec fn trim_start(s: Seq<char>) -> Seq<char>
    decreases s.len(),
{
    if s.len() > 0 && is_ws(s[0]) {
        trim_start(s.drop_first())
    } else {
        s
    }
}

/// `str::trim_end`.
pub open spec fn trim_end(s: Seq<char>) -> Seq<char>
    decreases s.len(),
{
    if s.len() > 0 && is_ws(s.last()) {
        trim_end(s.drop_last())
    } else {
        s
    }
}

/// `str::trim`.
pub open spec fn trim(s: Seq<char>) -> Seq<char> {
    trim_end(trim_start(s))
}

proof fn lemma_trim_start_skip(s: Seq<char>, i: int)
    requires
        0 <= i <= s.len(),
        forall|j: int| 0 <= j < i ==> is_ws(s[j]),
    ensures
        trim_start(s) == trim_start(s.skip(i)),
    decreases i,
{
    if i > 0 {
        assert(s.skip(1) == s.drop_first());
        lemma_trim_start_skip(s.drop_first(), i - 1);
        assert(s.drop_first().skip(i - 1) == s.skip(i));
    } else {
        assert(s.skip(0) == s);
    }
}

proof fn lemma_trim_end_take(s: Seq<char>, k: int)
    requires
        0 <= k <= s.len(),
        forall|j: int| k <= j < s.len() ==> is_ws(s[j]),
    ensures
        trim_end(s) == trim_end(s.take(k)),
    decreases s.len() - k,
{
    if k < s.len() {
        assert(s.drop_last().take(k) == s.take(k));
        lemma_trim_end_take(s.drop_last(), k);
    } else {
        assert(s.take(k) == s);
    }
}

/// The start of `s` with trailing whitespace removed.
pub fn trimmed_end(s: &[char]) -> (r: Vec<char>)
    ensures
        r@ == trim_end(s@),
{
    let mut k: usize = s.len();
    while k > 0 && ws(s[k - 1])
        invariant
            0 <= k <= s.len(),
            forall|j: int| k <= j < s.len() ==> is_ws(s@[j]),
        decreases k,
    {
        k = k - 1;
    }
    proof {
        lemma_trim_end_take(s@, k as int);
        if k > 0 {
            assert(s@.take(k as int).last() == s@[k - 1]);
        }
    }
    slice(s, 0, k)
}

/// `s` with leading whitespace removed.
pub fn trimmed_start(s: &[char]) -> (r: Vec<char>)
    ensures
        r@ == trim_start(s@),
{
    let mut i: usize = 0;
    while i < s.len() && ws(s[i])
        invariant
            0 <= i <= s.len(),
            forall|j: int| 0 <= j < i ==> is_ws(s@[j]),
        decreases s.len() - i,
    {
        i = i + 1;
    }
    proof {
        lemma_trim_start_skip(s@, i as int);
        assert(s@.subrange(i as int, s.len() as int) == s@.skip(i as int));
    }
    slice(s, i, s.len())
}

/// `s` with whitespace removed at both ends.
pub fn trimmed(s: &[char]) -> (r: Vec<char>)
    ensures
        r@ == trim(s@),
{
    let t = trimmed_start(s);
    trimmed_end(t.as_slice())
}

/// The pieces `str::split_inclusive('\n')` gives.
pub open spec fn split_incl(s: Seq<char>) -> Seq<Seq<char>>
    decreases s.len(),
{
    if s.len() == 0 {
        Seq::<Seq<char>>::empty()
    } else {
        let p = split_incl(s.drop_last());
        if p.len() == 0 || p.last().last() == '\n' {
            p.push(seq![s.last()])
        } else {
            p.update(p.len() - 1, p.last().push(s.last()))
        }
    }
}

/// One line as `str::lines` yields it: a trailing `\n` or `\r\n` removed.
pub open spec fn strip_eol(p: Seq<char>) -> Seq<char> {
    if p.len() > 0 && p.last() == '\n' {
        let q = p.drop_last();
        if q.len() > 0 && q.last() == '\r' {
            q.drop_last()
        } else {
            q
        }
    } else {
        p
    }
}

/// Every piece with its line ending removed.
pub open spec fn strip_all(ps: Seq<Seq<char>>) -> Seq<Seq<char>> {
    ps.map_values(|p: Seq<char>| strip_eol(p))
}

/// `str::lines`.
pub open spec fn lines(s: Seq<char>) -> Seq<Seq<char>> {
    strip_all(split_incl(s))
}

proof fn lemma_split_incl_pieces(s: Seq<char>)
    ensures
        forall|k: int| 0 <= k < split_incl(s).len() ==> #[trigger] split_incl(s)[k].len() > 0,
        forall|k: int| 0 <= k < split_incl(s).len() - 1 ==> #[trigger] split_incl(s)[k].last() == '\n',
    decreases s.len(),
{
    if s.len() > 0 {
        lemma_split_incl_pieces(s.drop_last());
        let p = split_incl(s.drop_last());
        let q = split_incl(s);
        if p.len() == 0 || p.last().last() == '\n' {
            assert(q == p.push(seq![s.last()]));
            assert forall|k: int| 0 <= k < q.len() implies #[trigger] q[k].len() > 0 by {
                if k < p.len() {
                    assert(q[k] == p[k]);
                }
            }
            assert forall|k: int| 0 <= k < q.len() - 1 implies #[trigger] q[k].last() == '\n' by {
                assert(q[k] == p[k]);
            }
        } else {
            assert forall|k: int| 0 <= k < q.len() implies #[trigger] q[k].len() > 0 by {
                if k < p.len() - 1 {
                    assert(q[k] == p[k]);
                }
            }
            assert forall|k: int| 0 <= k < q.len() - 1 implies #[trigger] q[k].last() == '\n' by {
                assert(q[k] == p[k]);
            }
        }
    }
}

/// The lines of `s`, as `str::lines` gives them.
pub fn lines_of_text(s: &[char]) -> (r: Vec<Vec<char>>)
    ensures
        views(r@) == lines(s@),
{
    lines_of(s)
}

/// The lines of `s`, as `str::lines` gives them.
pub fn lines_of(s: &[char]) -> (r: Vec<Vec<char>>)
    ensures
        views(r@) == lines(s@),
{
    let mut pieces: Vec<Vec<char>> = Vec::new();
    let mut i: usize = 0;
    while i < s.len()
        invariant
            0 <= i <= s.len(),
            views(pieces@) == split_incl(s@.take(i as int)),
        decreases s.len() - i,
    {
        let ghost before = views(pieces@);
        assert(s@.take(i + 1).drop_last() == s@.take(i as int));
        let n = pieces.len();
        let start_new = n == 0 || {
            let last = &pieces[n - 1];
            last.len() == 0 || last[last.len() - 1] == '\n'
        };
        proof {
            lemma_split_incl_pieces(s@.take(i as int));
            if n > 0 {
                assert(before[n - 1] == pieces@[n - 1]@);
            }
        }
        if start_new {
            let mut fresh: Vec<char> = Vec::new();
            fresh.push(s[i]);
            pieces.push(fresh);
            assert(views(pieces@) == before.push(seq![s@[i as int]]));
        } else {
            let mut last = pieces.pop().unwrap();
            last.push(s[i]);
            pieces.push(last);
            assert(views(pieces@) == before.update(before.len() - 1, before.last().push(s@[i as int])));
        }
        i = i + 1;
    }
    assert(s@.take(s.len() as int) == s@);
    let mut out: Vec<Vec<char>> = Vec::new();
    let mut j: usize = 0;
    while j < pieces.len()
        invariant
            0 <= j <= pieces.len(),
            views(pieces@) == split_incl(s@),
            views(out@) == strip_all(split_incl(s@).take(j as int)),
        decreases pieces.len() - j,
    {
        let p = &pieces[j];
        let mut end = p.len();
        if end > 0 && p[end - 1] == '\n' {
            end = end - 1;
            if end > 0 && p[end - 1] == '\r' {
                end = end - 1;
            }
        }
        let line = slice(p.as_slice(), 0, end);
        proof {
            let q = p@;
            assert(q == split_incl(s@)[j as int]);
            if q.len() > 0 && q.last() == '\n' {
                assert(q.drop_last() == q.subrange(0, q.len() - 1));
                if q.len() > 1 && q[q.len() - 2] == '\r' {
                    assert(q.drop_last().drop_last() == q.subrange(0, q.len() - 2));
                }
            } else {
                assert(q == q.subrange(0, q.len() as int));
            }
            assert(line@ == strip_eol(q));
        }
        let ghost prev = views(out@);
        out.push(line);
        assert(split_incl(s@).take(j + 1) == split_incl(s@).take(j as int).push(split_incl(s@)[j as int]));
        assert(views(out@) == prev.push(line@));
        assert(strip_all(split_incl(s@).take(j + 1)) == strip_all(split_incl(s@).take(j as int)).push(strip_eol(split_incl(s@)[j as int])));
        j = j + 1;
    }
    assert(split_incl(s@).take(pieces.len() as int) == split_incl(s@));
    out
}


/// The lines holding something besides whitespace, in order.
pub open spec fn nonblank(ls: Seq<Seq<char>>) -> Seq<Seq<char>>
    decreases ls.len(),
{
    if ls.len() == 0 {
        Seq::<Seq<char>>::empty()
    } else {
        let p = nonblank(ls.drop_last());
        if trim(ls.last()).len() > 0 {
            p.push(ls.last())
        } else {
            p
        }
    }
}

/// The non-blank lines of a text.
pub open spec fn content_lines(s: Seq<char>) -> Seq<Seq<char>> {
    nonblank(lines(s))
}

/// The non-blank lines of `s`, as `lines().filter(|l| !l.trim().is_empty())`
/// gives them.
pub fn content_lines_of(s: &[char]) -> (r: Vec<Vec<char>>)
    ensures
        views(r@) == content_lines(s@),
{
    let all = lines_of(s);
    let mut out: Vec<Vec<char>> = Vec::new();
    let mut i: usize = 0;
    while i < all.len()
        invariant
            0 <= i <= all.len(),
            views(all@) == lines(s@),
            views(out@) == nonblank(views(all@).take(i as int)),
        decreases all.len() - i,
    {
        let ghost prev = views(out@);
        assert(views(all@).take(i + 1).drop_last() == views(all@).take(i as int));
        assert(views(all@).take(i + 1).last() == all@[i as int]@);
        let t = trimmed(all[i].as_slice());
        if t.len() > 0 {
            let line = slice(all[i].as_slice(), 0, all[i].len());
            assert(line@ == all@[i as int]@);
            out.push(line);
            assert(views(out@) == prev.push(all@[i as int]@));
        }
        i = i + 1;
    }
    assert(views(all@).take(all.len() as int) == views(all@));
    out
}

/// `str::split_whitespace`: the maximal runs of non-whitespace.
pub open spec fn split_ws(s: Seq<char>) -> Seq<Seq<char>>
    decreases s.len(),
{
    if s.len() == 0 {
        Seq::<Seq<char>>::empty()
    } else {
        let p = split_ws(s.drop_last());
        if is_ws(s.last()) {
            p
        } else if s.len() >= 2 && !is_ws(s[s.len() - 2]) && p.len() > 0 {
            p.update(p.len() - 1, p.last().push(s.last()))
        } else {
            p.push(seq![s.last()])
        }
    }
}

/// The whitespace-separated words of `s`.
pub fn words_of(s: &[char]) -> (r: Vec<Vec<char>>)
    ensures
        views(r@) == split_ws(s@),
{
    let mut out: Vec<Vec<char>> = Vec::new();
    let mut i: usize = 0;
    while i < s.len()
        invariant
            0 <= i <= s.len(),
            views(out@) == split_ws(s@.take(i as int)),
            i > 0 && !is_ws(s@[i - 1]) ==> out@.len() > 0,
        decreases s.len() - i,
    {
        let ghost before = views(out@);
        assert(s@.take(i + 1).drop_last() == s@.take(i as int));
        let c = s[i];
        if ws(c) {
        } else if i > 0 && !ws(s[i - 1]) && out.len() > 0 {
            assert(s@.take(i + 1)[i - 1] == s@[i - 1]);
            let mut last = out.pop().unwrap();
            last.push(c);
            out.push(last);
            assert(views(out@) == before.update(before.len() - 1, before.last().push(c)));
        } else {
            let mut fresh: Vec<char> = Vec::new();
            fresh.push(c);
            out.push(fresh);
            assert(views(out@) == before.push(seq![c]));
        }
        i = i + 1;
    }
    assert(s@.take(s.len() as int) == s@);
    out
}

/// The first position of `c` in `s`, when it occurs.
pub open spec fn first_of(s: Seq<char>, c: char) -> int {
    choose|i: int| 0 <= i < s.len() && s[i] == c && forall|j: int| 0 <= j < i ==> s[j] != c
}

/// The first position in `s` where `p` holds, if any.
pub open spec fn first_where<T>(s: Seq<T>, p: spec_fn(T) -> bool) -> Option<int> {
    if exists|i: int| 0 <= i < s.len() && p(s[i]) {
        Some(choose|i: int| 0 <= i < s.len() && p(s[i]) && forall|j: int| 0 <= j < i ==> !p(s[j]))
    } else {
        None
    }
}

/// A position where `p` holds with none before it is the first.
pub proof fn lemma_first_where<T>(s: Seq<T>, p: spec_fn(T) -> bool, i: int)
    requires
        0 <= i < s.len(),
        p(s[i]),
        forall|j: int| 0 <= j < i ==> !p(s[j]),
    ensures
        first_where(s, p) == Some(i),
{
    assert(exists|k: int| 0 <= k < s.len() && p(s[k]) && forall|j: int| 0 <= j < k ==> !p(s[j]));
    let k = choose|k: int| 0 <= k < s.len() && p(s[k]) && forall|j: int| 0 <= j < k ==> !p(s[j]);
    assert(k == i) by {
        if k > i {
            assert(p(s[i]));
        } else if k < i {
            assert(!p(s[k]));
        }
    }
}

/// The first position where `p` holds is one, with none before it.
pub proof fn lemma_first_where_some<T>(s: Seq<T>, p: spec_fn(T) -> bool)
    ensures
        first_where(s, p) matches Some(i) ==> 0 <= i < s.len() && p(s[i])
            && forall|j: int| 0 <= j < i ==> !p(s[j]),
{
    if exists|i: int| 0 <= i < s.len() && p(s[i]) {
        let w = choose|i: int| 0 <= i < s.len() && p(s[i]);
        lemma_least_where(s, p, w);
    }
}

proof fn lemma_least_where<T>(s: Seq<T>, p: spec_fn(T) -> bool, w: int)
    requires
        0 <= w < s.len(),
        p(s[w]),
    ensures
        exists|i: int| 0 <= i < s.len() && p(s[i]) && forall|j: int| 0 <= j < i ==> !p(s[j]),
    decreases w,
{
    if exists|j: int| 0 <= j < w && p(s[j]) {
        let j = choose|j: int| 0 <= j < w && p(s[j]);
        lemma_least_where(s, p, j);
    } else {
        assert(0 <= w < s.len() && p(s[w]) && forall|j: int| 0 <= j < w ==> !p(s[j]));
    }
}

/// With no first position where `p` holds, it holds nowhere.
pub proof fn lemma_first_where_none<T>(s: Seq<T>, p: spec_fn(T) -> bool)
    ensures
        first_where(s, p) is None ==> forall|j: int| 0 <= j < s.len() ==> !p(s[j]),
{
}

/// With no position where `p` holds, there is no first.
pub proof fn lemma_none_where<T>(s: Seq<T>, p: spec_fn(T) -> bool)
    requires
        forall|j: int| 0 <= j < s.len() ==> !p(s[j]),
    ensures
        first_where(s, p) is None,
{
}

/// The witness `first_of` picks exists whenever `c` occurs.
pub proof fn lemma_first_of(s: Seq<char>, c: char)
    requires
        s.contains(c),
    ensures
        0 <= first_of(s, c) < s.len(),
        s[first_of(s, c)] == c,
        forall|j: int| 0 <= j < first_of(s, c) ==> s[j] != c,
{
    let k0 = choose|k: int| 0 <= k < s.len() && s[k] == c;
    lemma_first_exists(s, c, k0);
}

proof fn lemma_first_exists(s: Seq<char>, c: char, k0: int)
    requires
        0 <= k0 < s.len(),
        s[k0] == c,
    ensures
        exists|k: int| 0 <= k < s.len() && s[k] == c && forall|j: int| 0 <= j < k ==> s[j] != c,
    decreases k0,
{
    if exists|j: int| 0 <= j < k0 && s[j] == c {
        let j = choose|j: int| 0 <= j < k0 && s[j] == c;
        lemma_first_exists(s, c, j);
    }
}

/// The position of the first `c`, or the length when there is none.
pub open spec fn first_pos(s: Seq<char>, c: char) -> int {
    if s.contains(c) {
        first_of(s, c)
    } else {
        s.len() as int
    }
}

/// Appending keeps an earlier first occurrence.
pub proof fn lemma_first_pos_push(d: Seq<char>, x: char, c: char)
    ensures
        d.contains(c) ==> first_pos(d.push(x), c) == first_pos(d, c),
        !d.contains(c) && x == c ==> first_pos(d.push(x), c) == d.len(),
        !d.contains(c) && x != c ==> first_pos(d.push(x), c) == d.len() + 1,
        (d.push(x)).contains(c) <==> (d.contains(c) || x == c),
{
    let s = d.push(x);
    if d.contains(c) {
        lemma_first_of(d, c);
        let i = first_of(d, c);
        assert(s[i] == c);
        assert(s.contains(c));
        lemma_first_of(s, c);
        let k = first_of(s, c);
        assert(k == i) by {
            if k < i {
                assert(d[k] == s[k]);
            } else if k > i {
                assert(s[i] == c);
            }
        }
    } else {
        if x == c {
            assert(s[d.len() as int] == c);
            lemma_first_of(s, c);
            let k = first_of(s, c);
            assert(k == d.len()) by {
                if k < d.len() {
                    assert(d[k] == s[k]);
                }
            }
        } else {
            assert(!s.contains(c)) by {
                if s.contains(c) {
                    let k = choose|k: int| 0 <= k < s.len() && s[k] == c;
                    if k < d.len() {
                        assert(d[k] == s[k]);
                    }
                }
            }
        }
    }
    if d.contains(c) {
        let k = choose|k: int| 0 <= k < d.len() && d[k] == c;
        assert(s[k] == c);
    }
    if x == c {
        assert(s[d.len() as int] == c);
    }
}

/// The first piece of a split is the text before the first separator.
pub proof fn lemma_split_first(s: Seq<char>, c: char)
    ensures
        split_char(s, c).len() >= 1,
        split_char(s, c)[0] == s.take(first_pos(s, c)),
        split_char(s, c).len() == 1 <==> !s.contains(c),
    decreases s.len(),
{
    lemma_split_char_nonempty(s, c);
    if s.len() == 0 {
        assert(s.take(0) =~= s);
    } else {
        let d = s.drop_last();
        let x = s.last();
        assert(s == d.push(x));
        lemma_split_first(d, c);
        lemma_first_pos_push(d, x, c);
        if d.contains(c) {
            lemma_first_of(d, c);
        }
        assert(s.take(first_pos(s, c)) == d.take(first_pos(d, c)) || !d.contains(c));
        if !d.contains(c) && x != c {
            assert(d.take(d.len() as int) == d);
            assert(s.take(s.len() as int) == s);
        }
        if !d.contains(c) && x == c {
            assert(d.take(d.len() as int) == d);
            assert(s.take(d.len() as int) == d);
        }
    }
}

/// `str::split_once` with a character: the text before and after the
/// first `sep`.
pub open spec fn split_once(s: Seq<char>, sep: char) -> Option<(Seq<char>, Seq<char>)> {
    if s.contains(sep) {
        let i = first_of(s, sep);
        Some((s.take(i), s.skip(i + 1)))
    } else {
        None
    }
}

/// The first position of `c` in `s`.
pub fn index_of_char(s: &[char], c: char) -> (r: Option<usize>)
    ensures
        r is None <==> !s@.contains(c),
        r matches Some(i) ==> i < s@.len() && first_of(s@, c) == i && s@[i as int] == c,
{
    let mut i: usize = 0;
    while i < s.len()
        invariant
            0 <= i <= s.len(),
            forall|j: int| 0 <= j < i ==> s@[j] != c,
        decreases s.len() - i,
    {
        if s[i] == c {
            assert(s@[i as int] == c);
            assert(s@.contains(c));
            assert(exists|k: int| 0 <= k < s@.len() && s@[k] == c && forall|j: int| 0 <= j < k ==> s@[j] != c);
            let ghost k = first_of(s@, c);
            assert(k == i as int) by {
                if k < i as int {
                } else if k > i as int {
                    assert(s@[i as int] != c);
                }
            }
            return Some(i);
        }
        i = i + 1;
    }
    proof { false_contains(s@, c); }
    None
}

proof fn false_contains(s: Seq<char>, c: char)
    requires
        forall|j: int| 0 <= j < s.len() ==> s[j] != c,
    ensures
        !s.contains(c),
{
}

/// The pieces either side of the first `sep`.
pub fn split_once_at(s: &[char], sep: char) -> (r: Option<(Vec<char>, Vec<char>)>)
    ensures
        r is None <==> split_once(s@, sep) is None,
        r matches Some((a, b)) ==> split_once(s@, sep) == Some((a@, b@)),
{
    match index_of_char(s, sep) {
        None => None,
        Some(i) => {
            let a = slice(s, 0, i);
            assert(i < s.len());
            let b = slice(s, i + 1, s.len());
            assert(a@ == s@.take(i as int));
            assert(b@ == s@.skip(i + 1));
            Some((a, b))
        },
    }
}

/// `s` without its first `n` characters.
pub fn drop_front(s: &[char], n: usize) -> (r: Vec<char>)
    requires
        n <= s.len(),
    ensures
        r@ == s@.skip(n as int),
{
    let r = slice(s, n, s.len());
    assert(r@ == s@.skip(n as int));
    r
}

/// `str::strip_prefix` with a literal.
pub open spec fn strip_prefix(s: Seq<char>, p: Seq<char>) -> Option<Seq<char>> {
    if starts_with(s, p) {
        Some(s.skip(p.len() as int))
    } else {
        None
    }
}

/// `s` after the literal `lit`, when it begins with it.
pub fn without_prefix(s: &[char], lit: &str) -> (r: Option<Vec<char>>)
    ensures
        r is None <==> strip_prefix(s@, lit@) is None,
        r matches Some(t) ==> strip_prefix(s@, lit@) == Some(t@),
{
    if has_prefix(s, lit) {
        let n = lit.unicode_len();
        Some(drop_front(s, n))
    } else {
        None
    }
}

/// An ASCII decimal digit.
pub open spec fn is_digit(c: char) -> bool {
    '0' <= c && c <= '9'
}

/// The value of a digit in base 10 or 16, if it is one.
pub open spec fn digit_value(c: char, radix: int) -> Option<int> {
    if '0' <= c && c <= '9' {
        Some(c as int - '0' as int)
    } else if radix == 16 && 'a' <= c && c <= 'f' {
        Some(c as int - 'a' as int + 10)
    } else if radix == 16 && 'A' <= c && c <= 'F' {
        Some(c as int - 'A' as int + 10)
    } else {
        None
    }
}

/// Whether every character is a digit of `radix`.
pub open spec fn all_digits(d: Seq<char>, radix: int) -> bool {
    forall|i: int| 0 <= i < d.len() ==> (#[trigger] digit_value(d[i], radix)) is Some
}

/// The value of a digit string, most significant digit first.
pub open spec fn digits_value(d: Seq<char>, radix: int) -> int
    decreases d.len(),
{
    if d.len() == 0 {
        0
    } else {
        digits_value(d.drop_last(), radix) * radix + match digit_value(d.last(), radix) {
            Some(v) => v,
            None => 0,
        }
    }
}

/// The digits after an optional `+`, as the integer `FromStr` impls read
/// them (a lone sign is not a number).
pub open spec fn unsigned_digits(s: Seq<char>) -> Seq<char> {
    if s.len() > 1 && s[0] == '+' {
        s.drop_first()
    } else {
        s
    }
}

/// An unsigned integer of at most `max`, as `u64::from_str_radix` (and
/// `str::parse` for radix 10) reads it.
pub open spec fn parse_unsigned(s: Seq<char>, radix: int, max: int) -> Option<int> {
    let d = unsigned_digits(s);
    if d.len() > 0 && all_digits(d, radix) && digits_value(d, radix) <= max {
        Some(digits_value(d, radix))
    } else {
        None
    }
}

proof fn lemma_digits_nonneg(d: Seq<char>, radix: int)
    requires
        radix == 10 || radix == 16,
    ensures
        digits_value(d, radix) >= 0,
    decreases d.len(),
{
    if d.len() > 0 {
        lemma_digits_nonneg(d.drop_last(), radix);
    }
}

proof fn lemma_digits_grow(d: Seq<char>, radix: int, i: int)
    requires
        radix == 10 || radix == 16,
        0 <= i <= d.len(),
    ensures
        digits_value(d, radix) >= digits_value(d.take(i), radix),
    decreases d.len() - i,
{
    if i < d.len() {
        lemma_digits_grow(d, radix, i + 1);
        assert(d.take(i + 1).drop_last() == d.take(i));
        lemma_digits_nonneg(d.take(i), radix);
    } else {
        assert(d.take(i) == d);
    }
}

proof fn lemma_step_over(v: int, dv: int, radix: int, max: int)
    requires
        0 <= v,
        0 <= dv,
        0 <= max,
        radix == 10 || radix == 16,
        dv > max || v > (max - dv) / radix,
    ensures
        v * radix + dv > max,
{
    if dv <= max {
        assert(v * radix + dv > max) by (nonlinear_arith)
            requires
                v > (max - dv) / radix,
                radix > 0,
                max - dv >= 0,
        ;
    }
}

proof fn lemma_step_fits(v: int, dv: int, radix: int, max: int)
    requires
        0 <= v,
        0 <= dv <= max,
        radix == 10 || radix == 16,
        v <= (max - dv) / radix,
    ensures
        v * radix + dv <= max,
{
    assert(v * radix <= max - dv) by (nonlinear_arith)
        requires
            v <= (max - dv) / radix,
            radix > 0,
            max - dv >= 0,
    ;
}

/// The value of one digit, when `c` is a digit of `radix`.
pub fn digit_of(c: char, radix: u32) -> (r: Option<u64>)
    requires
        radix == 10 || radix == 16,
    ensures
        r matches Some(v) ==> digit_value(c, radix as int) == Some(v as int),
        r is None ==> digit_value(c, radix as int) is None,
{
    if '0' <= c && c <= '9' {
        Some((c as u32 - '0' as u32) as u64)
    } else if radix == 16 && 'a' <= c && c <= 'f' {
        Some((c as u32 - 'a' as u32 + 10) as u64)
    } else if radix == 16 && 'A' <= c && c <= 'F' {
        Some((c as u32 - 'A' as u32 + 10) as u64)
    } else {
        None
    }
}

/// An unsigned integer in `radix` no larger than `max`.
pub fn parse_uint(s: &[char], radix: u32, max: u64) -> (r: Option<u64>)
    requires
        radix == 10 || radix == 16,
    ensures
        r matches Some(v) ==> parse_unsigned(s@, radix as int, max as int) == Some(v as int),
        r is None ==> parse_unsigned(s@, radix as int, max as int) is None,
{
    let start: usize = if s.len() > 1 && s[0] == '+' { 1 } else { 0 };
    let ghost d = unsigned_digits(s@);
    assert(d == s@.skip(start as int));
    if start == s.len() {
        return None;
    }
    let mut v: u64 = 0;
    let mut over = false;
    let mut i: usize = start;
    while i < s.len()
        invariant
            start <= i <= s.len(),
            start < s.len(),
            d == s@.skip(start as int),
            d == unsigned_digits(s@),
            radix == 10 || radix == 16,
            all_digits(d.take(i - start), radix as int),
            !over ==> v as int == digits_value(d.take(i - start), radix as int),
            !over ==> v <= max,
            over ==> digits_value(d.take(i - start), radix as int) > max,
        decreases s.len() - i,
    {
        let k: usize = i - start;
        assert(d.take(k + 1).drop_last() == d.take(k as int));
        assert(d[k as int] == s@[i as int]);
        let dv = match digit_of(s[i], radix) {
            Some(x) => x,
            None => {
                assert(!all_digits(d, radix as int));
                return None;
            },
        };
        proof {
            lemma_digits_nonneg(d.take(k as int), radix as int);
            assert forall|j: int| 0 <= j < k + 1 implies (#[trigger] digit_value(d.take(k + 1)[j], radix as int)) is Some by {
                if j < k {
                    assert(d.take(k + 1)[j] == d.take(k as int)[j]);
                }
            }
        }
        if !over {
            if dv > max || v > (max - dv) / (radix as u64) {
                proof { lemma_step_over(v as int, dv as int, radix as int, max as int); }
                over = true;
            } else {
                proof { lemma_step_fits(v as int, dv as int, radix as int, max as int); }
                v = v * (radix as u64) + dv;
            }
        } else {
            proof { lemma_digits_nonneg(d.take(k as int), radix as int); }
        }
        i = i + 1;
    }
    assert(d.len() == s@.len() - start);
    assert(d.take(i - start) == d);
    if over {
        None
    } else {
        Some(v)
    }
}

/// A signed integer in `[min, max]`, as `i64::from_str` reads it.
pub open spec fn parse_signed(s: Seq<char>, min: int, max: int) -> Option<int> {
    if s.len() > 1 && s[0] == '-' {
        let d = s.drop_first();
        if d.len() > 0 && all_digits(d, 10) && -digits_value(d, 10) >= min {
            Some(-digits_value(d, 10))
        } else {
            None
        }
    } else {
        parse_unsigned(s, 10, max)
    }
}

/// `str::parse::<i64>`.
pub fn parse_i64(s: &[char]) -> (r: Option<i64>)
    ensures
        r matches Some(v) ==> parse_signed(s@, i64::MIN as int, i64::MAX as int) == Some(v as int),
        r is None ==> parse_signed(s@, i64::MIN as int, i64::MAX as int) is None,
{
    if s.len() > 1 && s[0] == '-' {
        let rest = drop_front(s, 1);
        assert(rest@ == s@.drop_first());
        if rest.len() > 1 && rest[0] == '+' {
            assert(!all_digits(rest@, 10)) by {
                assert(digit_value(rest@[0], 10) is None);
            }
            return None;
        }
        assert(unsigned_digits(rest@) == rest@);
        match parse_uint(rest.as_slice(), 10, 9223372036854775808u64) {
            Some(m) => {
                if m == 9223372036854775808u64 {
                    Some(i64::MIN)
                } else {
                    Some(-(m as i64))
                }
            },
            None => None,
        }
    } else {
        match parse_uint(s, 10, 9223372036854775807u64) {
            Some(m) => Some(m as i64),
            None => None,
        }
    }
}

/// `str::parse::<u64>`.
pub fn parse_u64(s: &[char]) -> (r: Option<u64>)
    ensures
        r matches Some(v) ==> parse_unsigned(s@, 10, u64::MAX as int) == Some(v as int),
        r is None ==> parse_unsigned(s@, 10, u64::MAX as int) is None,
{
    parse_uint(s, 10, u64::MAX)
}

/// `str::parse::<u32>`.
pub fn parse_u32(s: &[char]) -> (r: Option<u32>)
    ensures
        r matches Some(v) ==> parse_unsigned(s@, 10, u32::MAX as int) == Some(v as int),
        r is None ==> parse_unsigned(s@, 10, u32::MAX as int) is None,
{
    match parse_uint(s, 10, u32::MAX as u64) {
        Some(v) => Some(v as u32),
        None => None,
    }
}

/// `str::parse::<u16>`.
pub fn parse_u16(s: &[char]) -> (r: Option<u16>)
    ensures
        r matches Some(v) ==> parse_unsigned(s@, 10, u16::MAX as int) == Some(v as int),
        r is None ==> parse_unsigned(s@, 10, u16::MAX as int) is None,
{
    match parse_uint(s, 10, u16::MAX as u64) {
        Some(v) => Some(v as u16),
        None => None,
    }
}

/// `u8::from_str_radix(s, 16)`.
pub fn parse_hex_u8(s: &[char]) -> (r: Option<u8>)
    ensures
        r matches Some(v) ==> parse_unsigned(s@, 16, 255) == Some(v as int),
        r is None ==> parse_unsigned(s@, 16, 255) is None,
{
    match parse_uint(s, 16, 255) {
        Some(v) => Some(v as u8),
        None => None,
    }
}

/// `char::to_ascii_lowercase`.
pub open spec fn lower_char(c: char) -> char {
    if 'A' <= c && c <= 'Z' {
        ((c as u32) + 32) as char
    } else {
        c
    }
}

/// `str::to_ascii_lowercase`.
pub open spec fn lower(s: Seq<char>) -> Seq<char> {
    s.map_values(|c: char| lower_char(c))
}

/// `s` in ASCII lower case.
pub fn lowered(s: &[char]) -> (r: Vec<char>)
    ensures
        r@ == lower(s@),
{
    let mut r: Vec<char> = Vec::new();
    let mut i: usize = 0;
    while i < s.len()
        invariant
            0 <= i <= s.len(),
            r@ == lower(s@.take(i as int)),
        decreases s.len() - i,
    {
        let c = s[i];
        let l = if 'A' <= c && c <= 'Z' { ((c as u8) + 32) as char } else { c };
        assert(l == lower_char(c)) by {
            if 'A' <= c && c <= 'Z' {
                assert(((c as u8) + 32) as char == ((c as u32) + 32) as char);
            }
        }
        r.push(l);
        assert(lower(s@.take(i + 1)) == lower(s@.take(i as int)).push(lower_char(s@[i as int])));
        i = i + 1;
    }
    assert(s@.take(s.len() as int) == s@);
    r
}

/// The decimal digit for `d < 10`.
pub open spec fn digit_char(d: int) -> char {
    ((d + '0' as int) as u32) as char
}

/// The decimal spelling of `n`, as `Display` prints an integer.
pub open spec fn dec(n: nat) -> Seq<char>
    decreases n,
{
    if n < 10 {
        seq![digit_char(n as int)]
    } else {
        dec(n / 10).push(digit_char((n % 10) as int))
    }
}

/// The decimal spelling of a signed integer.
pub open spec fn dec_signed(n: int) -> Seq<char> {
    if n < 0 {
        seq!['-'] + dec((-n) as nat)
    } else {
        dec(n as nat)
    }
}

/// `n` in decimal.
pub fn dec_chars(n: u64) -> (r: Vec<char>)
    ensures
        r@ == dec(n as nat),
    decreases n,
{
    let d = ((n % 10) as u8 + 48u8) as char;
    assert(d == digit_char((n % 10) as int));
    if n < 10 {
        let mut v: Vec<char> = Vec::new();
        v.push(d);
        v
    } else {
        let mut v = dec_chars(n / 10);
        v.push(d);
        v
    }
}

/// `n.to_string()`.
pub fn dec_string(n: u64) -> (r: String)
    ensures
        r@ == dec(n as nat),
{
    let v = dec_chars(n);
    string_from(v.as_slice())
}

/// A lower-case hexadecimal digit for `d < 16`.
pub open spec fn hex_char(d: int) -> char {
    if d < 10 {
        digit_char(d)
    } else {
        ((d - 10 + 'a' as int) as u32) as char
    }
}

/// `format!("{b:02x}")`.
pub open spec fn hex2(b: u8) -> Seq<char> {
    seq![hex_char(b as int / 16), hex_char(b as int % 16)]
}

/// One hexadecimal digit.
pub fn hex_digit(d: u8) -> (c: char)
    requires
        d < 16,
    ensures
        c == hex_char(d as int),
{
    if d < 10 {
        (d + 48u8) as char
    } else {
        (d - 10 + 97u8) as char
    }
}


/// `str::trim_end_matches(c)`: every trailing `c` removed.
pub open spec fn strip_trailing(s: Seq<char>, c: char) -> Seq<char>
    decreases s.len(),
{
    if s.len() > 0 && s.last() == c {
        strip_trailing(s.drop_last(), c)
    } else {
        s
    }
}

/// `s` with every trailing `c` removed.
pub fn without_trailing(s: &[char], c: char) -> (r: Vec<char>)
    ensures
        r@ == strip_trailing(s@, c),
{
    let mut n: usize = s.len();
    assert(s@.take(s.len() as int) == s@);
    while n > 0 && s[n - 1] == c
        invariant
            0 <= n <= s.len(),
            strip_trailing(s@, c) == strip_trailing(s@.take(n as int), c),
        decreases n,
    {
        assert(s@.take(n as int).drop_last() == s@.take(n - 1));
        n = n - 1;
    }
    assert(s@.take(s.len() as int) == s@);
    slice(s, 0, n)
}

/// `str::trim_end_matches(p)` for a non-empty `p`: every trailing `p`
/// removed.
pub open spec fn strip_suffixes(s: Seq<char>, p: Seq<char>) -> Seq<char>
    decreases s.len(),
{
    if p.len() > 0 && ends_with(s, p) {
        strip_suffixes(s.take(s.len() - p.len()), p)
    } else {
        s
    }
}

/// `s` with every trailing copy of the non-empty literal `lit` removed.
pub fn without_suffixes(s: &[char], lit: &str) -> (r: Vec<char>)
    ensures
        r@ == strip_suffixes(s@, lit@),
{
    let p = chars_of(lit);
    let mut cur = slice(s, 0, s.len());
    assert(s@.subrange(0, s@.len() as int) == s@);
    if p.len() == 0 {
        return cur;
    }
    while has_suffix(cur.as_slice(), lit)
        invariant
            p@ == lit@,
            p@.len() > 0,
            strip_suffixes(s@, lit@) == strip_suffixes(cur@, lit@),
        decreases cur@.len(),
    {
        let k = cur.len() - p.len();
        let next = slice(cur.as_slice(), 0, k);
        assert(next@ == cur@.take(cur@.len() - p@.len()));
        cur = next;
    }
    cur
}

/// `parts.join(sep)`.
pub open spec fn join(parts: Seq<Seq<char>>, sep: Seq<char>) -> Seq<char>
    decreases parts.len(),
{
    if parts.len() == 0 {
        Seq::<char>::empty()
    } else if parts.len() == 1 {
        parts[0]
    } else {
        join(parts.drop_last(), sep) + sep + parts.last()
    }
}

/// The pieces joined with `sep` between each two.
pub fn joined(parts: &Vec<Vec<char>>, sep: &str) -> (r: Vec<char>)
    ensures
        r@ == join(views(parts@), sep@),
{
    let sp = chars_of(sep);
    let mut out: Vec<char> = Vec::new();
    let mut i: usize = 0;
    while i < parts.len()
        invariant
            0 <= i <= parts@.len(),
            sp@ == sep@,
            out@ == join(views(parts@).take(i as int), sep@),
        decreases parts@.len() - i,
    {
        let ghost pv = views(parts@);
        assert(pv.take(i + 1).drop_last() == pv.take(i as int));
        assert(pv.take(i + 1).last() == parts@[i as int]@);
        if i == 0 {
            out = slice(parts[0].as_slice(), 0, parts[0].len());
            assert(parts@[0]@.subrange(0, parts@[0]@.len() as int) == parts@[0]@);
            assert(pv.take(1)[0] == parts@[0]@);
        } else {
            let a = concat(out.as_slice(), sp.as_slice());
            out = concat(a.as_slice(), parts[i].as_slice());
        }
        i = i + 1;
    }
    assert(views(parts@).take(parts@.len() as int) == views(parts@));
    out
}

/// Whether every character is a decimal digit and there is one.
pub open spec fn digit_run(d: Seq<char>) -> bool {
    d.len() > 0 && forall|i: int| 0 <= i < d.len() ==> is_digit(#[trigger] d[i])
}

/// The text after an optional leading sign.
pub open spec fn unsigned_part(s: Seq<char>) -> Seq<char> {
    if s.len() > 0 && (s[0] == '+' || s[0] == '-') {
        s.drop_first()
    } else {
        s
    }
}

/// A decimal mantissa: digits with at most one `.`, and a digit somewhere.
pub open spec fn mantissa_syntax(m: Seq<char>) -> bool {
    match split_once(m, '.') {
        Some((a, b)) => (a.len() > 0 || b.len() > 0)
            && (a.len() == 0 || digit_run(a)) && (b.len() == 0 || digit_run(b)),
        None => digit_run(m),
    }
}

/// The position of the first `e` or `E`, or the length.
pub open spec fn exp_at(u: Seq<char>) -> int {
    match first_where(u, |c: char| c == 'e' || c == 'E') {
        Some(i) => i,
        None => u.len() as int,
    }
}

/// What `f64::from_str` accepts: an optional sign, then `inf`,
/// `infinity`, or `nan` in any case, or a decimal mantissa with an
/// optional exponent.
pub open spec fn float_syntax(s: Seq<char>) -> bool {
    let u = unsigned_part(s);
    let l = lower(u);
    if l == "inf"@ || l == "infinity"@ || l == "nan"@ {
        true
    } else {
        let k = exp_at(u);
        let m = u.take(k);
        let x = u.skip(k);
        mantissa_syntax(m) && (x.len() == 0 || digit_run(unsigned_part(x.drop_first())))
    }
}

fn all_digit_run(d: &[char]) -> (r: bool)
    ensures
        r == digit_run(d@),
{
    if d.len() == 0 {
        return false;
    }
    let mut i: usize = 0;
    while i < d.len()
        invariant
            0 <= i <= d.len(),
            forall|j: int| 0 <= j < i ==> is_digit(#[trigger] d@[j]),
        decreases d.len() - i,
    {
        if d[i] < '0' || d[i] > '9' {
            assert(!is_digit(d@[i as int]));
            return false;
        }
        i = i + 1;
    }
    true
}

fn without_sign(s: &[char]) -> (r: Vec<char>)
    ensures
        r@ == unsigned_part(s@),
{
    if s.len() > 0 && (s[0] == '+' || s[0] == '-') {
        drop_front(s, 1)
    } else {
        let r = slice(s, 0, s.len());
        assert(s@.subrange(0, s@.len() as int) == s@);
        r
    }
}

/// Whether a text is a decimal mantissa.
pub fn mantissa_ok(m: &[char]) -> (r: bool)
    ensures
        r == mantissa_syntax(m@),
{
    match split_once_at(m, '.') {
        Some((a, b)) => (a.len() > 0 || b.len() > 0) && (a.len() == 0 || all_digit_run(a.as_slice()))
            && (b.len() == 0 || all_digit_run(b.as_slice())),
        None => all_digit_run(m),
    }
}

/// Whether `f64::from_str` accepts the text.
pub fn float_ok(s: &[char]) -> (r: bool)
    ensures
        r == float_syntax(s@),
{
    let u = without_sign(s);
    let l = lowered(u.as_slice());
    if is(l.as_slice(), "inf") || is(l.as_slice(), "infinity") || is(l.as_slice(), "nan") {
        return true;
    }
    let ghost pred = |c: char| c == 'e' || c == 'E';
    let mut k: usize = 0;
    while k < u.len() && u[k] != 'e' && u[k] != 'E'
        invariant
            0 <= k <= u@.len(),
            pred == (|c: char| c == 'e' || c == 'E'),
            forall|j: int| 0 <= j < k ==> !pred(u@[j]),
        decreases u@.len() - k,
    {
        k = k + 1;
    }
    proof {
        if k < u@.len() {
            lemma_first_where(u@, pred, k as int);
        } else {
            lemma_none_where(u@, pred);
        }
        assert(exp_at(u@) == k as int);
    }
    let m = slice(u.as_slice(), 0, k);
    let x = drop_front(u.as_slice(), k);
    if !mantissa_ok(m.as_slice()) {
        return false;
    }
    if x.len() == 0 {
        return true;
    }
    let rest = drop_front(x.as_slice(), 1);
    let digits = without_sign(rest.as_slice());
    all_digit_run(digits.as_slice())
}


/// `a < b` in the order `str` compares by: character by character, a
/// proper prefix first.
pub open spec fn lex_lt(a: Seq<char>, b: Seq<char>) -> bool
    decreases a.len(),
{
    if a.len() == 0 {
        b.len() > 0
    } else if b.len() == 0 {
        false
    } else if a[0] != b[0] {
        a[0] < b[0]
    } else {
        lex_lt(a.drop_first(), b.drop_first())
    }
}

/// No text is below itself.
pub proof fn lemma_lex_irreflexive(a: Seq<char>)
    ensures
        !lex_lt(a, a),
    decreases a.len(),
{
    if a.len() > 0 {
        lemma_lex_irreflexive(a.drop_first());
    }
}

/// The order is transitive.
pub proof fn lemma_lex_transitive(a: Seq<char>, b: Seq<char>, c: Seq<char>)
    requires
        lex_lt(a, b),
        lex_lt(b, c),
    ensures
        lex_lt(a, c),
    decreases a.len(),
{
    if a.len() > 0 && b.len() > 0 && c.len() > 0 && a[0] == b[0] && b[0] == c[0] {
        lemma_lex_transitive(a.drop_first(), b.drop_first(), c.drop_first());
    }
}

/// Any two different texts are ordered one way.
pub proof fn lemma_lex_total(a: Seq<char>, b: Seq<char>)
    requires
        a != b,
    ensures
        lex_lt(a, b) || lex_lt(b, a),
    decreases a.len(),
{
    if a.len() > 0 && b.len() > 0 && a[0] == b[0] {
        if a.drop_first() == b.drop_first() {
            assert(a == seq![a[0]] + a.drop_first());
            assert(b == seq![b[0]] + b.drop_first());
        }
        lemma_lex_total(a.drop_first(), b.drop_first());
    } else if a.len() == 0 && b.len() == 0 {
        assert(a == b);
    }
}

/// Whether `a` sorts before `b`.
pub fn lex_less(a: &[char], b: &[char]) -> (r: bool)
    ensures
        r == lex_lt(a@, b@),
{
    let mut i: usize = 0;
    assert(a@.skip(0) == a@ && b@.skip(0) == b@);
    while i < a.len() && i < b.len() && a[i] == b[i]
        invariant
            0 <= i <= a@.len(),
            i <= b@.len(),
            lex_lt(a@, b@) == lex_lt(a@.skip(i as int), b@.skip(i as int)),
        decreases a@.len() - i,
    {
        assert(a@.skip(i as int).drop_first() == a@.skip(i + 1));
        assert(b@.skip(i as int).drop_first() == b@.skip(i + 1));
        i = i + 1;
    }
    if i == a.len() {
        i < b.len()
    } else if i == b.len() {
        false
    } else {
        a[i] < b[i]
    }
}

} // verus!
