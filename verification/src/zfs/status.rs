//! `zpool status`: its sections, the scan line, and the vdev tree.
use vstd::prelude::*;
use crate::common::storage::{PoolHealth, ScanFunction, ScanState, ScanStatus, Vdev, VdevType, health_of};
use crate::common::timestamp::{Timestamp, primitive_parse_utc};
use crate::net::parse::opt_view;
use crate::text::{
    chars_of, concat, contains, ends_with, find, find_in, first_where, has_prefix, has_suffix,
    is_ws, join, joined, lemma_first_where, lemma_none_where, parse_u64, parse_unsigned, slice,
    split_ws, starts_with, string_from, trim, trimmed, views, words_of, float_ok, float_syntax,
    drop_front, trim_start, trim_end, trimmed_start, trimmed_end, split_once, split_once_at, lines,
    lines_of_text, is,
};
use crate::zfs::parse::{rate_value, rate};

verus! {

/// How `zpool status` prints scan dates: `Mon Sep  1 10:00:00 2026`.
pub const CTIME_FORMAT: &'static str = "[weekday repr:short] [month repr:short] [day padding:space] [hour]:[minute]:[second] [year]";

/// A time as seconds and nanoseconds, in the contracts.
pub open spec fn time_view(o: Option<Timestamp>) -> Option<(i64, u32)> {
    match o {
        Some(t) => Some((t.unix() as i64, t.subsec() as u32)),
        None => None,
    }
}

/// The instant a `ctime`-style text names, taken as UTC.
pub open spec fn ctime_of(s: Seq<char>) -> Option<(i64, u32)> {
    primitive_parse_utc(trim(s), CTIME_FORMAT@)
}

/// `Mon Sep  1 10:00:00 2026` as UTC.
pub fn ctime(s: &str) -> (r: Option<Timestamp>)
    ensures
        time_view(r) == ctime_of(s@),
{
    let c = chars_of(s);
    let t = string_from(trimmed(c.as_slice()).as_slice());
    Timestamp::parse_format_utc(t.as_str(), CTIME_FORMAT)
}

/// A character that separates scan-line tokens.
pub open spec fn token_sep(c: char) -> bool {
    is_ws(c) || c == ','
}

/// The pieces of `s` between separators, as `str::split` with a
/// predicate gives them.
pub open spec fn scan_split(s: Seq<char>) -> Seq<Seq<char>>
    decreases s.len(),
{
    if s.len() == 0 {
        seq![Seq::<char>::empty()]
    } else {
        let p = scan_split(s.drop_last());
        if token_sep(s.last()) {
            p.push(Seq::<char>::empty())
        } else {
            p.update(p.len() - 1, p.last().push(s.last()))
        }
    }
}

proof fn lemma_scan_split_nonempty(s: Seq<char>)
    ensures
        scan_split(s).len() >= 1,
    decreases s.len(),
{
    if s.len() > 0 {
        lemma_scan_split_nonempty(s.drop_last());
    }
}

fn scan_tokens(s: &[char]) -> (r: Vec<Vec<char>>)
    ensures
        views(r@) == scan_split(s@),
{
    let mut out: Vec<Vec<char>> = Vec::new();
    let mut cur: Vec<char> = Vec::new();
    let mut i: usize = 0;
    while i < s.len()
        invariant
            0 <= i <= s.len(),
            views(out@).push(cur@) == scan_split(s@.take(i as int)),
        decreases s.len() - i,
    {
        let ghost before = views(out@).push(cur@);
        assert(s@.take(i + 1).drop_last() == s@.take(i as int));
        assert(s@.take(i + 1).last() == s@[i as int]);
        proof {
            lemma_scan_split_nonempty(s@.take(i as int));
        }
        if crate::text::ws(s[i]) || s[i] == ',' {
            let done = cur;
            out.push(done);
            cur = Vec::new();
            assert(views(out@).push(cur@) == before.push(Seq::<char>::empty()));
        } else {
            cur.push(s[i]);
            assert(views(out@).push(cur@) == before.update(before.len() - 1, before.last().push(s@[i as int])));
        }
        i = i + 1;
    }
    assert(s@.take(s.len() as int) == s@);
    out.push(cur);
    out
}

/// What reading one token does to the progress and rate found so far:
/// a `N%` token whose number `f64` reads sets the progress, and a `/s`
/// token sets the rate (to `None` when it is not a size).
pub open spec fn token_step(acc: (Option<Seq<char>>, Option<int>), t: Seq<char>) -> (Option<Seq<char>>, Option<int>) {
    let p = if ends_with(t, "%"@) && float_syntax(t.drop_last()) {
        Some(t.drop_last())
    } else {
        acc.0
    };
    let r = if ends_with(t, "/s"@) {
        rate_value(t)
    } else {
        acc.1
    };
    (p, r)
}

/// Reading tokens in order.
pub open spec fn tokens_fold(acc: (Option<Seq<char>>, Option<int>), ts: Seq<Seq<char>>) -> (Option<Seq<char>>, Option<int>)
    decreases ts.len(),
{
    if ts.len() == 0 {
        acc
    } else {
        token_step(tokens_fold(acc, ts.drop_last()), ts.last())
    }
}

/// The progress and rate the scan lines give: the last of each.
pub open spec fn scan_figures(ls: Seq<Seq<char>>) -> (Option<Seq<char>>, Option<int>)
    decreases ls.len(),
{
    if ls.len() == 0 {
        (None, None)
    } else {
        tokens_fold(scan_figures(ls.drop_last()), scan_split(ls.last()))
    }
}

/// The text after the first `marker` in `s`, trimmed.
pub open spec fn after(s: Seq<char>, marker: Seq<char>) -> Option<Seq<char>> {
    match find(s, marker) {
        Some(i) => Some(trim(s.skip(i + marker.len()))),
        None => None,
    }
}

/// The scan's state and its start and end times from the summary line.
pub open spec fn scan_times(first: Seq<char>) -> (ScanState, Option<(i64, u32)>, Option<(i64, u32)>) {
    if after(first, "in progress since"@) is Some {
        (ScanState::InProgress, ctime_of(after(first, "in progress since"@)->0), None)
    } else if after(first, "paused since"@) is Some {
        (ScanState::InProgress, ctime_of(after(first, "paused since"@)->0), None)
    } else if after(first, "canceled on"@) is Some {
        (ScanState::Canceled, None, ctime_of(after(first, "canceled on"@)->0))
    } else if after(first, " on "@) is Some {
        (ScanState::Finished, None, ctime_of(after(first, " on "@)->0))
    } else {
        (ScanState::Finished, None, None)
    }
}

/// A word that begins with `error`.
pub open spec fn error_word() -> spec_fn(Seq<char>) -> bool {
    |x: Seq<char>| starts_with(x, "error"@)
}

/// The error count: the word before the first word that begins with
/// `error`, when it is a number.
pub open spec fn scan_errors(first: Seq<char>) -> Option<int> {
    let w = split_ws(first);
    if w.len() < 2 {
        None
    } else {
        match first_where(w.drop_first(), error_word()) {
            Some(j) => parse_unsigned(w[j], 10, u64::MAX as int),
            None => None,
        }
    }
}

/// Whether the scan lines describe a scan at all.
pub open spec fn has_scan(ls: Seq<Seq<char>>) -> bool {
    ls.len() > 0 && !starts_with(ls[0], "none requested"@)
}

/// The views of strings.
pub open spec fn string_views(v: Seq<String>) -> Seq<Seq<char>> {
    v.map_values(|s: String| s@)
}

/// What a scan status holds for these lines.
pub open spec fn scan_ok(s: ScanStatus, ls: Seq<Seq<char>>) -> bool {
    let first = ls[0];
    let (state, started, finished) = scan_times(first);
    &&& s.function == (if starts_with(first, "resilver"@) { ScanFunction::Resilver } else { ScanFunction::Scrub })
    &&& s.state == state
    &&& time_view(s.started_at) == started
    &&& time_view(s.finished_at) == finished
    &&& figures_view((s.progress, s.rate_bytes_per_second)) == scan_figures(ls)
    &&& (match s.errors {
        Some(v) => scan_errors(first) == Some(v as int),
        None => scan_errors(first) is None,
    })
    &&& s.summary@ == join(ls, "\n"@)
}

fn after_marker(s: &[char], marker: &str) -> (r: Option<String>)
    ensures
        opt_view(r) == after(s@, marker@),
{
    let m = chars_of(marker);
    match find_in(s, m.as_slice()) {
        Some(i) => {
            assert(crate::text::occurs_at(s@, m@, i as int));
            let ml = m.len();
            assert(i + ml <= s.len());
            let rest = drop_front(s, i + ml);
            Some(string_from(trimmed(rest.as_slice()).as_slice()))
        },
        None => None,
    }
}

fn times_of(first: &[char]) -> (r: (ScanState, Option<Timestamp>, Option<Timestamp>))
    ensures
        (r.0, time_view(r.1), time_view(r.2)) == scan_times(first@),
{
    if let Some(d) = after_marker(first, "in progress since") {
        (ScanState::InProgress, ctime(d.as_str()), None)
    } else if let Some(d) = after_marker(first, "paused since") {
        (ScanState::InProgress, ctime(d.as_str()), None)
    } else if let Some(d) = after_marker(first, "canceled on") {
        (ScanState::Canceled, None, ctime(d.as_str()))
    } else if let Some(d) = after_marker(first, " on ") {
        (ScanState::Finished, None, ctime(d.as_str()))
    } else {
        (ScanState::Finished, None, None)
    }
}

fn errors_of(first: &[char]) -> (r: Option<u64>)
    ensures
        r matches Some(v) ==> scan_errors(first@) == Some(v as int),
        r is None ==> scan_errors(first@) is None,
{
    let w = words_of(first);
    if w.len() < 2 {
        return None;
    }
    match error_word_at(&w) {
        Some(j) => parse_u64(w[j].as_slice()),
        None => None,
    }
}

/// The first `j` whose next word begins with `error`.
fn error_word_at(w: &Vec<Vec<char>>) -> (r: Option<usize>)
    requires
        w@.len() >= 2,
    ensures
        r matches Some(j) ==> first_where(views(w@).drop_first(), error_word()) == Some(j as int) && j + 1 < w@.len(),
        r is None ==> first_where(views(w@).drop_first(), error_word()) is None,
{
    let ghost rest = views(w@).drop_first();
    let ghost pred = error_word();
    let mut j: usize = 0;
    let last: usize = w.len() - 1;
    while j < last
        invariant
            0 <= j <= last,
            last + 1 == w@.len(),
            rest == views(w@).drop_first(),
            pred == error_word(),
            forall|k: int| 0 <= k < j ==> !pred(rest[k]),
        decreases last - j,
    {
        assert(rest[j as int] == w@[j + 1]@);
        if has_prefix(w[j + 1].as_slice(), "error") {
            proof {
                lemma_first_where(rest, pred, j as int);
            }
            return Some(j);
        }
        j = j + 1;
    }
    proof {
        lemma_none_where(rest, pred);
    }
    None
}

fn token_update(acc: (Option<String>, Option<u64>), t: &[char]) -> (r: (Option<String>, Option<u64>))
    ensures
        figures_view(r) == token_step(figures_view(acc), t@),
{
    proof {
        reveal_strlit("%");
    }
    let pct = has_suffix(t, "%");
    let p = if pct && float_ok(slice(t, 0, t.len() - 1).as_slice()) {
        assert(t@.subrange(0, t@.len() - 1) == t@.drop_last());
        Some(string_from(slice(t, 0, t.len() - 1).as_slice()))
    } else {
        acc.0
    };
    let r = if has_suffix(t, "/s") {
        let ts = string_from(t);
        rate(ts.as_str())
    } else {
        acc.1
    };
    (p, r)
}

/// The progress and rate in the contracts.
pub open spec fn figures_view(acc: (Option<String>, Option<u64>)) -> (Option<Seq<char>>, Option<int>) {
    (opt_view(acc.0), match acc.1 {
        Some(v) => Some(v as int),
        None => None,
    })
}

fn fold_line(acc: (Option<String>, Option<u64>), line: &[char]) -> (r: (Option<String>, Option<u64>))
    ensures
        figures_view(r) == tokens_fold(figures_view(acc), scan_split(line@)),
{
    let toks = scan_tokens(line);
    let mut acc = acc;
    let ghost start = figures_view(acc);
    let mut k: usize = 0;
    assert(views(toks@).take(0) == Seq::<Seq<char>>::empty());
    while k < toks.len()
        invariant
            0 <= k <= toks@.len(),
            figures_view(acc) == tokens_fold(start, views(toks@).take(k as int)),
        decreases toks@.len() - k,
    {
        assert(views(toks@).take(k + 1).drop_last() == views(toks@).take(k as int));
        assert(views(toks@).take(k + 1).last() == toks@[k as int]@);
        acc = token_update(acc, toks[k].as_slice());
        k = k + 1;
    }
    assert(views(toks@).take(toks@.len() as int) == views(toks@));
    acc
}

/// The scan lines' characters and their progress and rate.
fn figures_of(lines: &Vec<String>) -> (r: (Vec<Vec<char>>, (Option<String>, Option<u64>)))
    ensures
        views(r.0@) == string_views(lines@),
        figures_view(r.1) == scan_figures(string_views(lines@)),
{
    let ghost lv = string_views(lines@);
    let mut parts: Vec<Vec<char>> = Vec::new();
    let mut acc: (Option<String>, Option<u64>) = (None, None);
    let mut i: usize = 0;
    while i < lines.len()
        invariant
            0 <= i <= lines@.len(),
            lv == string_views(lines@),
            views(parts@) == lv.take(i as int),
            figures_view(acc) == scan_figures(lv.take(i as int)),
        decreases lines@.len() - i,
    {
        let line = chars_of(lines[i].as_str());
        assert(lv.take(i + 1).drop_last() == lv.take(i as int));
        assert(lv.take(i + 1).last() == line@);
        acc = fold_line(acc, line.as_slice());
        let ghost before = views(parts@);
        parts.push(line);
        assert(views(parts@) == before.push(line@));
        i = i + 1;
    }
    assert(lv.take(lines@.len() as int) == lv);
    (parts, acc)
}

/// Parse the `scan:` lines (the first is the summary).
pub fn parse_scan(lines: &Vec<String>) -> (r: Option<ScanStatus>)
    ensures
        r is Some <==> has_scan(string_views(lines@)),
        r matches Some(s) ==> scan_ok(s, string_views(lines@)),
{
    let ghost lv = string_views(lines@);
    if lines.len() == 0 {
        return None;
    }
    let first = chars_of(lines[0].as_str());
    assert(first@ == lv[0]);
    if has_prefix(first.as_slice(), "none requested") {
        return None;
    }
    let (parts, acc) = figures_of(lines);
    let (state, started_at, finished_at) = times_of(first.as_slice());
    let summary = joined(&parts, "\n");
    let errors = errors_of(first.as_slice());
    let function = if has_prefix(first.as_slice(), "resilver") { ScanFunction::Resilver } else { ScanFunction::Scrub };
    Some(ScanStatus {
        function,
        state,
        progress: acc.0,
        started_at,
        finished_at,
        errors,
        rate_bytes_per_second: acc.1,
        summary: string_from(summary.as_slice()),
    })
}


/// `str::trim_start_matches(c)`: every leading `c` removed.
pub open spec fn strip_leading(s: Seq<char>, c: char) -> Seq<char>
    decreases s.len(),
{
    if s.len() > 0 && s[0] == c {
        strip_leading(s.drop_first(), c)
    } else {
        s
    }
}

/// The bytes `char::len_utf8` gives a character.
pub open spec fn utf8_len(c: char) -> int {
    if (c as u32) < 0x80 {
        1
    } else if (c as u32) < 0x800 {
        2
    } else if (c as u32) < 0x10000 {
        3
    } else {
        4
    }
}

/// The UTF-8 length of the leading whitespace of `s`.
pub open spec fn ws_bytes(s: Seq<char>) -> int
    decreases s.len(),
{
    if s.len() > 0 && is_ws(s[0]) {
        utf8_len(s[0]) + ws_bytes(s.drop_first())
    } else {
        0
    }
}

/// A `config:` line's words, after its leading tabs.
pub open spec fn line_words(line: Seq<char>) -> Seq<Seq<char>> {
    split_ws(strip_leading(line, '\t'))
}

/// A `config:` line's indentation in bytes, after its leading tabs.
pub open spec fn line_indent(line: Seq<char>) -> int {
    ws_bytes(strip_leading(line, '\t'))
}

/// One line of the `config:` section: a node and its depth.
pub struct ConfigItem {
    /// The name.
    pub name: Seq<char>,
    /// The kind.
    pub kind: VdevType,
    /// The state.
    pub state: PoolHealth,
    /// Read errors.
    pub read: Option<int>,
    /// Write errors.
    pub write: Option<int>,
    /// Checksum errors.
    pub cksum: Option<int>,
    /// The words after the counters.
    pub note: Option<Seq<char>>,
    /// The depth below the pool.
    pub level: int,
}

/// Counter `i`, when present and a number.
pub open spec fn counter(c: Seq<Seq<char>>, i: int) -> Option<int> {
    if i < c.len() {
        parse_unsigned(c[i], 10, u64::MAX as int)
    } else {
        None
    }
}

/// The node a line's words describe at a depth; a missing state is the
/// pool's.
pub open spec fn item_of(f: Seq<Seq<char>>, level: int, ps: PoolHealth) -> ConfigItem {
    let st = if f.len() > 1 { health_of(f[1]) } else { None };
    let state = match st {
        Some(x) => x,
        None => ps,
    };
    let c = match st {
        Some(_) => f.skip(2),
        None => f.skip(1),
    };
    ConfigItem {
        name: f[0],
        kind: crate::zfs::parse::vdev_kind(f[0], level),
        state,
        read: counter(c, 0),
        write: counter(c, 1),
        cksum: counter(c, 2),
        note: if c.len() > 3 { Some(join(c.skip(3), " "@)) } else { None },
        level,
    }
}

/// Whether a top-level name is one of the groups printed at the pool's
/// indentation.
pub open spec fn is_group(w: Seq<char>) -> bool {
    w == "logs"@ || w == "cache"@ || w == "spares"@
}

/// Reading `config:` lines: the group offset and the nodes so far.
/// `logs`, `cache`, and `spares` print at the pool's indentation but are
/// its children, and everything under them one level deeper.
pub open spec fn config_fold(ls: Seq<Seq<char>>, ps: PoolHealth) -> (int, Seq<ConfigItem>)
    decreases ls.len(),
{
    if ls.len() == 0 {
        (0, Seq::<ConfigItem>::empty())
    } else {
        let (off, items) = config_fold(ls.drop_last(), ps);
        let f = line_words(ls.last());
        if f.len() == 0 || f[0] == "NAME"@ {
            (off, items)
        } else {
            let phys = line_indent(ls.last()) / 2;
            let off2 = if phys == 0 { if is_group(f[0]) { 1int } else { 0int } } else { off };
            (off2, items.push(item_of(f, phys + off2, ps)))
        }
    }
}

/// The nodes of a `config:` section.
pub open spec fn config_items(ls: Seq<Seq<char>>, ps: PoolHealth) -> Seq<ConfigItem> {
    config_fold(ls, ps).1
}

/// Whether a node at depth zero comes before position `m`.
pub open spec fn has_root(items: Seq<ConfigItem>, m: int) -> bool {
    exists|k: int| 0 <= k < m && #[trigger] items[k].level == 0
}

/// The first problem in the first `n` nodes: a depth-zero node that is
/// not the pool, or a node before any depth-zero one.
pub open spec fn config_check(items: Seq<ConfigItem>, pool: Seq<char>, n: int) -> Option<Seq<char>>
    decreases n,
{
    if n <= 0 {
        None
    } else {
        match config_check(items, pool, n - 1) {
            Some(d) => Some(d),
            None => {
                let it = items[n - 1];
                if it.level == 0 && it.name != pool {
                    Some("config root `"@ + it.name + "` is not `"@ + pool + "`"@)
                } else if it.level != 0 && !has_root(items, n - 1) {
                    Some("vdev before the pool line"@)
                } else {
                    None
                }
            },
        }
    }
}

/// The last depth-zero node among the first `n`.
pub open spec fn last_root(items: Seq<ConfigItem>, n: int) -> Option<int>
    decreases n,
{
    if n <= 0 {
        None
    } else if items[n - 1].level == 0 {
        Some(n - 1)
    } else {
        last_root(items, n - 1)
    }
}

/// The nearest node before `j`, looking back from `k`, that is shallower
/// than `j`; `-1` when there is none.
pub open spec fn nearest_below(items: Seq<ConfigItem>, j: int, k: int) -> int
    decreases k + 1,
{
    if k < 0 {
        -1
    } else if items[k].level < items[j].level {
        k
    } else {
        nearest_below(items, j, k - 1)
    }
}

/// A node's parent: the nearest shallower node before it.
pub open spec fn parent(items: Seq<ConfigItem>, j: int) -> int {
    nearest_below(items, j, j - 1)
}

/// The children of node `i` among the nodes before `j`, in order.
pub open spec fn kids_upto(items: Seq<ConfigItem>, i: int, j: int) -> Seq<int>
    decreases j - i,
{
    if j <= i + 1 {
        Seq::<int>::empty()
    } else if parent(items, j - 1) == i {
        kids_upto(items, i, j - 1).push(j - 1)
    } else {
        kids_upto(items, i, j - 1)
    }
}

/// The children of node `i`, in order.
pub open spec fn kids(items: Seq<ConfigItem>, i: int) -> Seq<int> {
    kids_upto(items, i, items.len() as int)
}

proof fn lemma_kids_range(items: Seq<ConfigItem>, i: int, j: int)
    ensures
        forall|k: int| 0 <= k < kids_upto(items, i, j).len() ==> i < #[trigger] kids_upto(items, i, j)[k] < j,
    decreases j - i,
{
    if j > i + 1 {
        lemma_kids_range(items, i, j - 1);
        let prev = kids_upto(items, i, j - 1);
        assert forall|k: int| 0 <= k < kids_upto(items, i, j).len() implies i < #[trigger] kids_upto(items, i, j)[k] < j by {
            if k < prev.len() {
                assert(kids_upto(items, i, j)[k] == prev[k]);
            }
        }
    }
}

/// Whether a node and its fields are those of a config item.
pub open spec fn node_matches(v: Vdev, it: ConfigItem) -> bool {
    &&& v.name@ == it.name
    &&& v.type_ == it.kind
    &&& v.state == it.state
    &&& crate::zfs::parse::onum(v.read_errors) == it.read
    &&& crate::zfs::parse::onum(v.write_errors) == it.write
    &&& crate::zfs::parse::onum(v.checksum_errors) == it.cksum
    &&& opt_view(v.note) == it.note
}

/// Whether `v` is the tree rooted at node `i`: its fields, and its
/// children the trees of node `i`'s children.
pub open spec fn tree_ok(v: Vdev, items: Seq<ConfigItem>, i: int) -> bool
    decreases items.len() - i,
{
    &&& 0 <= i < items.len()
    &&& node_matches(v, items[i])
    &&& v.children@.len() == kids(items, i).len()
    &&& forall|k: int| 0 <= k < kids(items, i).len() ==> (i < #[trigger] kids(items, i)[k] < items.len()
        && tree_ok(v.children@[k], items, kids(items, i)[k]))
}


/// A parsed `config:` line: a node without children, and its depth.
pub struct ConfigNode {
    /// The node.
    pub node: Vdev,
    /// The depth below the pool.
    pub level: u128,
}

/// Whether a parsed line is the config item `it`.
pub open spec fn item_ok(n: ConfigNode, it: ConfigItem) -> bool {
    node_matches(n.node, it) && n.level as int == it.level && n.node.children@.len() == 0
}

/// Whether parsed lines are the config items `items`.
pub open spec fn items_ok(v: Seq<ConfigNode>, items: Seq<ConfigItem>) -> bool {
    v.len() == items.len() && forall|k: int| 0 <= k < v.len() ==> item_ok(#[trigger] v[k], items[k])
}

fn strip_tabs(s: &[char]) -> (r: Vec<char>)
    ensures
        r@ == strip_leading(s@, '\t'),
{
    let mut i: usize = 0;
    assert(s@.skip(0) == s@);
    while i < s.len() && s[i] == '\t'
        invariant
            0 <= i <= s@.len(),
            strip_leading(s@, '\t') == strip_leading(s@.skip(i as int), '\t'),
        decreases s@.len() - i,
    {
        assert(s@.skip(i as int).drop_first() == s@.skip(i + 1));
        i = i + 1;
    }
    drop_front(s, i)
}

fn char_bytes(c: char) -> (r: u128)
    ensures
        r as int == utf8_len(c),
{
    if (c as u32) < 0x80 {
        1
    } else if (c as u32) < 0x800 {
        2
    } else if (c as u32) < 0x10000 {
        3
    } else {
        4
    }
}

/// The UTF-8 length of the leading whitespace.
fn indent_bytes(s: &[char]) -> (r: u128)
    ensures
        r as int == ws_bytes(s@),
{
    let mut n: usize = 0;
    while n < s.len() && crate::text::ws(s[n])
        invariant
            0 <= n <= s@.len(),
            forall|k: int| 0 <= k < n ==> is_ws(#[trigger] s@[k]),
        decreases s@.len() - n,
    {
        n = n + 1;
    }
    let mut total: u128 = 0;
    let mut k: usize = n;
    assert(ws_bytes(s@.skip(n as int)) == 0) by {
        if n < s@.len() {
            assert(s@.skip(n as int)[0] == s@[n as int]);
        }
    }
    while k > 0
        invariant
            0 <= k <= n <= s@.len(),
            forall|q: int| 0 <= q < n ==> is_ws(#[trigger] s@[q]),
            total as int == ws_bytes(s@.skip(k as int)),
            total <= 4 * (n - k),
        decreases k,
    {
        assert(s@.skip(k - 1).drop_first() == s@.skip(k as int));
        assert(s@.skip(k - 1)[0] == s@[k - 1]);
        assert(is_ws(s@[k - 1]));
        total = total + char_bytes(s[k - 1]);
        k = k - 1;
    }
    assert(s@.skip(0) == s@);
    total
}

/// The words from position `k` on.
fn words_from(f: &Vec<Vec<char>>, k: usize) -> (r: Vec<Vec<char>>)
    requires
        k <= f@.len(),
    ensures
        views(r@) == views(f@).skip(k as int),
{
    let mut out: Vec<Vec<char>> = Vec::new();
    let mut i: usize = k;
    while i < f.len()
        invariant
            k <= i <= f@.len(),
            views(out@) == views(f@).subrange(k as int, i as int),
        decreases f@.len() - i,
    {
        let ghost before = views(out@);
        let w = slice(f[i].as_slice(), 0, f[i].len());
        assert(f@[i as int]@.subrange(0, f@[i as int]@.len() as int) == f@[i as int]@);
        out.push(w);
        assert(views(out@) == before.push(f@[i as int]@));
        assert(views(f@).subrange(k as int, i + 1) == views(f@).subrange(k as int, i as int).push(f@[i as int]@));
        i = i + 1;
    }
    out
}

fn counter_at(c: &Vec<Vec<char>>, i: usize) -> (r: Option<u64>)
    ensures
        crate::zfs::parse::onum(r) == counter(views(c@), i as int),
{
    if i < c.len() {
        parse_u64(c[i].as_slice())
    } else {
        None
    }
}

/// The node for one `config:` line's words at a depth.
fn make_node(f: &Vec<Vec<char>>, level: u128, ps: PoolHealth) -> (n: ConfigNode)
    requires
        f@.len() >= 1,
    ensures
        item_ok(n, item_of(views(f@), level as int, ps)),
{
    let st = if f.len() > 1 { PoolHealth::from_chars(f[1].as_slice()) } else { None };
    let (state, start): (PoolHealth, usize) = match st {
        Some(x) => (x, 2),
        None => (ps, 1),
    };
    let c = words_from(f, start);
    let note = if c.len() > 3 {
        let t = words_from(&c, 3);
        Some(string_from(joined(&t, " ").as_slice()))
    } else {
        None
    };
    let node = Vdev {
        name: string_from(f[0].as_slice()),
        type_: crate::zfs::parse::vdev_type(f[0].as_slice(), level),
        state,
        read_errors: counter_at(&c, 0),
        write_errors: counter_at(&c, 1),
        checksum_errors: counter_at(&c, 2),
        note,
        children: Vec::new(),
    };
    ConfigNode { node, level }
}

fn group_word(w: &[char]) -> (r: bool)
    ensures
        r == is_group(w@),
{
    crate::text::is(w, "logs") || crate::text::is(w, "cache") || crate::text::is(w, "spares")
}

/// Parse the `config:` lines into nodes and depths.
fn config_nodes(lines: &Vec<Vec<char>>, ps: PoolHealth) -> (r: Vec<ConfigNode>)
    ensures
        items_ok(r@, config_items(views(lines@), ps)),
{
    let ghost lv = views(lines@);
    let mut out: Vec<ConfigNode> = Vec::new();
    let mut off: u128 = 0;
    let mut i: usize = 0;
    while i < lines.len()
        invariant
            0 <= i <= lines@.len(),
            lv == views(lines@),
            off as int == config_fold(lv.take(i as int), ps).0,
            off <= 1,
            items_ok(out@, config_fold(lv.take(i as int), ps).1),
        decreases lines@.len() - i,
    {
        assert(lv.take(i + 1).drop_last() == lv.take(i as int));
        assert(lv.take(i + 1).last() == lines@[i as int]@);
        let body = strip_tabs(lines[i].as_slice());
        let f = words_of(body.as_slice());
        if f.len() == 0 || crate::text::is(f[0].as_slice(), "NAME") {
        } else {
            let phys = indent_bytes(body.as_slice()) / 2;
            if phys == 0 {
                off = if group_word(f[0].as_slice()) { 1 } else { 0 };
            }
            let ghost before = out@;
            let node = make_node(&f, phys + off, ps);
            out.push(node);
            proof {
                let items = config_fold(lv.take(i + 1), ps).1;
                assert forall|k: int| 0 <= k < out@.len() implies item_ok(#[trigger] out@[k], items[k]) by {
                    if k < before.len() {
                        assert(out@[k] == before[k]);
                    }
                }
            }
        }
        i = i + 1;
    }
    assert(lv.take(lines@.len() as int) == lv);
    out
}


proof fn lemma_check_stays(items: Seq<ConfigItem>, pool: Seq<char>, n: int, m: int)
    requires
        0 <= n <= m,
        config_check(items, pool, n) is Some,
    ensures
        config_check(items, pool, m) == config_check(items, pool, n),
    decreases m - n,
{
    if m > n {
        lemma_check_stays(items, pool, n, m - 1);
    }
}

/// The first problem in the parsed lines, as `config_check` names it.
fn config_problem(nodes: &Vec<ConfigNode>, pool: &[char], Ghost(items): Ghost<Seq<ConfigItem>>) -> (r: Option<Vec<char>>)
    requires
        items_ok(nodes@, items),
    ensures
        opt_chars(r) == config_check(items, pool@, items.len() as int),
{
    let mut seen = false;
    let mut i: usize = 0;
    while i < nodes.len()
        invariant
            0 <= i <= nodes@.len(),
            items_ok(nodes@, items),
            config_check(items, pool@, i as int) is None,
            seen == has_root(items, i as int),
        decreases nodes@.len() - i,
    {
        let n = &nodes[i];
        assert(item_ok(nodes@[i as int], items[i as int]));
        let name = chars_of(n.node.name.as_str());
        if n.level == 0 && !crate::text::same(name.as_slice(), pool) {
            let a = chars_of("config root `");
            let b = concat(a.as_slice(), name.as_slice());
            let c = concat(b.as_slice(), chars_of("` is not `").as_slice());
            let d = concat(c.as_slice(), pool);
            let e = concat(d.as_slice(), chars_of("`").as_slice());
            proof {
                lemma_check_stays(items, pool@, i + 1, items.len() as int);
            }
            return Some(e);
        }
        if n.level != 0 && !seen {
            proof {
                lemma_check_stays(items, pool@, i + 1, items.len() as int);
            }
            return Some(chars_of("vdev before the pool line"));
        }
        if n.level == 0 {
            seen = true;
        }
        proof {
            if items[i as int].level == 0 {
                assert(has_root(items, i + 1));
            } else if has_root(items, i + 1) {
                let k = choose|k: int| 0 <= k < i + 1 && #[trigger] items[k].level == 0;
                assert(k < i);
            }
        }
        i = i + 1;
    }
    None
}

/// The view of an optional character vector.
pub open spec fn opt_chars(o: Option<Vec<char>>) -> Option<Seq<char>> {
    crate::zfs::parse::opt_chars(o)
}

/// The last depth-zero node.
fn last_root_at(nodes: &Vec<ConfigNode>, Ghost(items): Ghost<Seq<ConfigItem>>) -> (r: Option<usize>)
    requires
        items_ok(nodes@, items),
    ensures
        r matches Some(z) ==> last_root(items, items.len() as int) == Some(z as int) && z < nodes@.len(),
        r is None ==> last_root(items, items.len() as int) is None,
{
    let mut k: usize = nodes.len();
    while k > 0
        invariant
            0 <= k <= nodes@.len(),
            items_ok(nodes@, items),
            last_root(items, items.len() as int) == last_root(items, k as int),
        decreases k,
    {
        assert(item_ok(nodes@[k - 1], items[k - 1]));
        if nodes[k - 1].level == 0 {
            return Some(k - 1);
        }
        k = k - 1;
    }
    None
}

/// A node's parent among the parsed lines.
fn parent_at(nodes: &Vec<ConfigNode>, j: usize, Ghost(items): Ghost<Seq<ConfigItem>>) -> (r: Option<usize>)
    requires
        items_ok(nodes@, items),
        j < nodes@.len(),
    ensures
        r matches Some(k) ==> parent(items, j as int) == k as int,
        r is None ==> parent(items, j as int) == -1,
{
    let mut k: usize = j;
    assert(item_ok(nodes@[j as int], items[j as int]));
    while k > 0
        invariant
            0 <= k <= j < nodes@.len(),
            items_ok(nodes@, items),
            item_ok(nodes@[j as int], items[j as int]),
            parent(items, j as int) == nearest_below(items, j as int, k - 1),
        decreases k,
    {
        assert(item_ok(nodes@[k - 1], items[k - 1]));
        if nodes[k - 1].level < nodes[j].level {
            return Some(k - 1);
        }
        k = k - 1;
    }
    None
}

fn note_copy(o: &Option<String>) -> (r: Option<String>)
    ensures
        opt_view(r) == opt_view(*o),
{
    match o {
        Some(s) => Some(s.clone()),
        None => None,
    }
}

/// The tree rooted at node `i`.
fn build(nodes: &Vec<ConfigNode>, i: usize, Ghost(items): Ghost<Seq<ConfigItem>>) -> (v: Vdev)
    requires
        items_ok(nodes@, items),
        i < nodes@.len(),
    ensures
        tree_ok(v, items, i as int),
    decreases nodes@.len() - i,
{
    let mut children: Vec<Vdev> = Vec::new();
    let len = nodes.len();
    assert(i < len);
    let mut j: usize = i + 1;
    proof {
        lemma_kids_range(items, i as int, nodes@.len() as int);
    }
    while j < nodes.len()
        invariant
            i < j <= nodes@.len(),
            items_ok(nodes@, items),
            children@.len() == kids_upto(items, i as int, j as int).len(),
            forall|q: int| 0 <= q < children@.len() ==> tree_ok(#[trigger] children@[q], items, kids_upto(items, i as int, j as int)[q]),
        decreases nodes@.len() - j,
    {
        let ghost before = children@;
        match parent_at(nodes, j, Ghost(items)) {
            Some(p) => if p == i {
                let c = build(nodes, j, Ghost(items));
                children.push(c);
                proof {
                    assert forall|q: int| 0 <= q < children@.len() implies tree_ok(#[trigger] children@[q], items, kids_upto(items, i as int, j + 1)[q]) by {
                        if q < before.len() {
                            assert(children@[q] == before[q]);
                        }
                    }
                }
            },
            None => {},
        }
        j = j + 1;
    }
    proof {
        lemma_kids_range(items, i as int, nodes@.len() as int);
    }
    let n = &nodes[i].node;
    assert(item_ok(nodes@[i as int], items[i as int]));
    Vdev {
        name: n.name.clone(),
        type_: n.type_,
        state: n.state,
        read_errors: n.read_errors,
        write_errors: n.write_errors,
        checksum_errors: n.checksum_errors,
        note: note_copy(&n.note),
        children,
    }
}

/// What reading a `config:` section gives: its first problem, or no pool
/// line, or the tree at the last pool line.
pub open spec fn config_result_ok(r: Result<Vdev, crate::zfs::types::ZfsError>, items: Seq<ConfigItem>, pool: Seq<char>) -> bool {
    match config_check(items, pool, items.len() as int) {
        Some(d) => r matches Err(e) && crate::zfs::parse::parse_error_is(e, "zpool status"@, d),
        None => match last_root(items, items.len() as int) {
            None => r matches Err(e) && crate::zfs::parse::parse_error_is(e, "zpool status"@, "no config section"@),
            Some(z) => r matches Ok(v) && tree_ok(v, items, z),
        },
    }
}

fn status_error(detail: &[char]) -> (e: crate::zfs::types::ZfsError)
    ensures
        crate::zfs::parse::parse_error_is(e, "zpool status"@, detail@),
{
    crate::zfs::types::ZfsError::Parse { command: "zpool status".to_owned(), detail: string_from(detail) }
}

/// The vdev tree of a `config:` section.
fn parse_config(lines: &Vec<Vec<char>>, pool: &[char], pool_state: PoolHealth) -> (r: Result<Vdev, crate::zfs::types::ZfsError>)
    ensures
        config_result_ok(r, config_items(views(lines@), pool_state), pool@),
{
    let nodes = config_nodes(lines, pool_state);
    let ghost items = config_items(views(lines@), pool_state);
    if let Some(d) = config_problem(&nodes, pool, Ghost(items)) {
        return Err(status_error(d.as_slice()));
    }
    match last_root_at(&nodes, Ghost(items)) {
        Some(z) => Ok(build(&nodes, z, Ghost(items))),
        None => Err(status_error(chars_of("no config section").as_slice())),
    }
}


/// What reading `zpool status` line by line has gathered: the pool name
/// and state, the `status:`/`action:`/`see:` text, the scan lines, the
/// config lines, the `errors:` line, and the section being read
/// (0 none, 1 status, 2 scan, 3 config).
pub struct StatusAcc {
    /// `pool:`.
    pub name: Option<Seq<char>>,
    /// `state:`.
    pub state: Option<Seq<char>>,
    /// Status paragraphs.
    pub status: Seq<Seq<char>>,
    /// Scan lines.
    pub scan: Seq<Seq<char>>,
    /// Config lines.
    pub config: Seq<Seq<char>>,
    /// `errors:`.
    pub errors: Option<Seq<char>>,
    /// The section.
    pub section: int,
}

/// The keys that open a section when they start a line.
pub open spec fn header_key(k: Seq<char>) -> bool {
    k == "pool"@ || k == "state"@ || k == "status"@ || k == "action"@ || k == "see"@ || k == "scan"@
        || k == "scrub"@ || k == "config"@ || k == "errors"@
}

/// The header a line is, if it is one: its key and the rest, trimmed.
pub open spec fn header_of(line: Seq<char>) -> Option<(Seq<char>, Seq<char>)> {
    match split_once(trim_start(line), ':') {
        Some((k, rest)) => if header_key(trim(k)) && !starts_with(line, "\t"@) && !starts_with(line, "    "@) {
            Some((trim(k), trim(rest)))
        } else {
            None
        },
        None => None,
    }
}

/// A header line's effect.
pub open spec fn header_update(acc: StatusAcc, key: Seq<char>, rest: Seq<char>) -> StatusAcc {
    if key == "pool"@ {
        StatusAcc { name: Some(rest), section: 0, ..acc }
    } else if key == "state"@ {
        StatusAcc { state: Some(rest), section: 0, ..acc }
    } else if key == "status"@ || key == "action"@ || key == "see"@ {
        StatusAcc { status: acc.status.push(rest), section: 1, ..acc }
    } else if key == "scan"@ || key == "scrub"@ {
        StatusAcc { scan: acc.scan.push(rest), section: 2, ..acc }
    } else if key == "config"@ {
        StatusAcc { section: 3, ..acc }
    } else {
        StatusAcc { errors: Some(rest), section: 0, ..acc }
    }
}

/// Any other line's effect: a non-blank line joins the current section
/// (trimmed, but config lines keep their indentation).
pub open spec fn body_update(acc: StatusAcc, line: Seq<char>) -> StatusAcc {
    let tr = trim_start(line);
    if tr.len() == 0 {
        acc
    } else if acc.section == 1 {
        StatusAcc { status: acc.status.push(tr), ..acc }
    } else if acc.section == 2 {
        StatusAcc { scan: acc.scan.push(tr), ..acc }
    } else if acc.section == 3 {
        StatusAcc { config: acc.config.push(line), ..acc }
    } else {
        acc
    }
}

/// Reading one raw line.
pub open spec fn status_step(acc: StatusAcc, raw: Seq<char>) -> StatusAcc {
    let line = trim_end(raw);
    match header_of(line) {
        Some((key, rest)) => header_update(acc, key, rest),
        None => body_update(acc, line),
    }
}

/// Reading the lines in order.
pub open spec fn status_fold(ls: Seq<Seq<char>>) -> StatusAcc
    decreases ls.len(),
{
    if ls.len() == 0 {
        StatusAcc {
            name: None,
            state: None,
            status: Seq::<Seq<char>>::empty(),
            scan: Seq::<Seq<char>>::empty(),
            config: Seq::<Seq<char>>::empty(),
            errors: None,
            section: 0,
        }
    } else {
        status_step(status_fold(ls.drop_last()), ls.last())
    }
}

struct StatusState {
    name: Option<Vec<char>>,
    state: Option<Vec<char>>,
    status: Vec<Vec<char>>,
    scan: Vec<String>,
    config: Vec<Vec<char>>,
    errors: Option<Vec<char>>,
    section: u8,
}

spec fn state_view(st: StatusState) -> StatusAcc {
    StatusAcc {
        name: opt_chars(st.name),
        state: opt_chars(st.state),
        status: views(st.status@),
        scan: string_views(st.scan@),
        config: views(st.config@),
        errors: opt_chars(st.errors),
        section: st.section as int,
    }
}

fn header_word(k: &[char]) -> (r: bool)
    ensures
        r == header_key(k@),
{
    is(k, "pool") || is(k, "state") || is(k, "status") || is(k, "action") || is(k, "see") || is(k, "scan")
        || is(k, "scrub") || is(k, "config") || is(k, "errors")
}

fn header_at(line: &[char]) -> (r: Option<(Vec<char>, Vec<char>)>)
    ensures
        r matches Some((k, rest)) ==> header_of(line@) == Some((k@, rest@)),
        r is None ==> header_of(line@) is None,
{
    let tr = trimmed_start(line);
    match split_once_at(tr.as_slice(), ':') {
        Some((k, rest)) => {
            let key = trimmed(k.as_slice());
            if header_word(key.as_slice()) && !has_prefix(line, "\t") && !has_prefix(line, "    ") {
                Some((key, trimmed(rest.as_slice())))
            } else {
                None
            }
        },
        None => None,
    }
}

fn push_line(v: &mut Vec<Vec<char>>, x: Vec<char>)
    ensures
        views(final(v)@) == views(old(v)@).push(x@),
{
    let ghost before = views(v@);
    v.push(x);
    assert(views(v@) == before.push(x@));
}

fn step_status(st: &mut StatusState, raw: &[char])
    requires
        old(st).section <= 3,
    ensures
        state_view(*final(st)) == status_step(state_view(*old(st)), raw@),
        final(st).section <= 3,
{
    let line = trimmed_end(raw);
    match header_at(line.as_slice()) {
        Some((key, rest)) => {
                    let k = key.as_slice();
            if is(k, "pool") {
                st.name = Some(rest);
                st.section = 0;
            } else if is(k, "state") {
                st.state = Some(rest);
                st.section = 0;
            } else if is(k, "status") || is(k, "action") || is(k, "see") {
                push_line(&mut st.status, rest);
                st.section = 1;
            } else if is(k, "scan") || is(k, "scrub") {
                let ghost before = string_views(st.scan@);
                let r = string_from(rest.as_slice());
                st.scan.push(r);
                assert(string_views(st.scan@) == before.push(rest@));
                st.section = 2;
            } else if is(k, "config") {
                st.section = 3;
            } else {
                st.errors = Some(rest);
                st.section = 0;
            }
        },
        None => {
            let tr = trimmed_start(line.as_slice());
            if tr.len() == 0 {
            } else if st.section == 1 {
                push_line(&mut st.status, tr);
            } else if st.section == 2 {
                let ghost before = string_views(st.scan@);
                let r = string_from(tr.as_slice());
                st.scan.push(r);
                assert(string_views(st.scan@) == before.push(tr@));
            } else if st.section == 3 {
                push_line(&mut st.config, line);
            }
        },
    }
}

/// What `zpool status` says about one pool.
pub struct PoolStatus {
    /// Name.
    pub name: String,
    /// State.
    pub state: PoolHealth,
    /// `status:` and `action:` paragraphs, joined.
    pub status_text: Option<String>,
    /// Scan.
    pub scan: Option<ScanStatus>,
    /// Vdev tree rooted at the pool.
    pub vdevs: Vdev,
    /// The `errors:` line.
    pub errors: Option<String>,
}

/// What `zpool status` output gives: the first missing or wrong piece as
/// the error, else the pool's name, state, joined status text, scan,
/// tree, and errors line.
pub open spec fn status_result_ok(r: Result<PoolStatus, crate::zfs::types::ZfsError>, out: Seq<char>) -> bool {
    let acc = status_fold(lines(out));
    let err = |d: Seq<char>| r matches Err(e) && crate::zfs::parse::parse_error_is(e, "zpool status"@, d);
    match acc.name {
        None => err("no `pool:` line"@),
        Some(name) => match acc.state {
            None => err("no `state:` line"@),
            Some(st) => match health_of(st) {
                None => err("unknown pool state `"@ + st + "`"@),
                Some(h) => {
                    let items = config_items(acc.config, h);
                    match config_check(items, name, items.len() as int) {
                        Some(d) => err(d),
                        None => match last_root(items, items.len() as int) {
                            None => err("no config section"@),
                            Some(z) => r matches Ok(p) && {
                                &&& p.name@ == name
                                &&& p.state == h
                                &&& opt_view(p.status_text) == (if acc.status.len() == 0 {
                                    None
                                } else {
                                    Some(join(acc.status, "\n"@))
                                })
                                &&& (p.scan is Some <==> has_scan(acc.scan))
                                &&& (p.scan matches Some(sc) ==> scan_ok(sc, acc.scan))
                                &&& tree_ok(p.vdevs, items, z)
                                &&& opt_view(p.errors) == acc.errors
                            },
                        },
                    }
                },
            },
        },
    }
}

fn gather_status(out: &str) -> (st: StatusState)
    ensures
        state_view(st) == status_fold(lines(out@)),
{
    let c = chars_of(out);
    let ls = lines_of_text(c.as_slice());
    let ghost lv = views(ls@);
    let mut st = StatusState {
        name: None,
        state: None,
        status: Vec::new(),
        scan: Vec::new(),
        config: Vec::new(),
        errors: None,
        section: 0,
    };
    assert(lv.take(0) =~= Seq::<Seq<char>>::empty());
    assert(views(st.status@) =~= Seq::<Seq<char>>::empty());
    assert(views(st.config@) =~= Seq::<Seq<char>>::empty());
    assert(string_views(st.scan@) =~= Seq::<Seq<char>>::empty());
    assert(state_view(st) == status_fold(lv.take(0)));
    let mut i: usize = 0;
    while i < ls.len()
        invariant
            0 <= i <= ls@.len(),
            lv == views(ls@),
            lv == lines(out@),
            st.section <= 3,
            state_view(st) == status_fold(lv.take(i as int)),
        decreases ls@.len() - i,
    {
        assert(lv.take(i + 1).drop_last() == lv.take(i as int));
        assert(lv.take(i + 1).last() == ls@[i as int]@);
        step_status(&mut st, ls[i].as_slice());
        i = i + 1;
    }
    assert(lv.take(ls@.len() as int) == lv);
    st
}

/// Parse the human `zpool status <pool>` output. Dates are taken as UTC.
pub fn zpool_status(out: &str) -> (r: Result<PoolStatus, crate::zfs::types::ZfsError>)
    ensures
        status_result_ok(r, out@),
{
    let st = gather_status(out);
    let name = match st.name {
        Some(n) => n,
        None => return Err(status_error(chars_of("no `pool:` line").as_slice())),
    };
    let state_word = match st.state {
        Some(s) => s,
        None => return Err(status_error(chars_of("no `state:` line").as_slice())),
    };
    let health = match PoolHealth::from_chars(state_word.as_slice()) {
        Some(h) => h,
        None => {
            let a = chars_of("unknown pool state `");
            let b = concat(a.as_slice(), state_word.as_slice());
            let d = concat(b.as_slice(), chars_of("`").as_slice());
            return Err(status_error(d.as_slice()));
        },
    };
    let vdevs = match parse_config(&st.config, name.as_slice(), health) {
        Ok(v) => v,
        Err(e) => return Err(e),
    };
    let status_text = if st.status.len() == 0 {
        None
    } else {
        Some(string_from(joined(&st.status, "\n").as_slice()))
    };
    let scan = parse_scan(&st.scan);
    Ok(PoolStatus {
        name: string_from(name.as_slice()),
        state: health,
        status_text,
        scan,
        vdevs,
        errors: match st.errors {
            Some(e) => Some(string_from(e.as_slice())),
            None => None,
        },
    })
}

} // verus!
