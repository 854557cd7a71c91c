//! Parsers for `dladm`, `ipadm`, `netstat`, and `route` output.
use vstd::prelude::*;
use crate::common::network::{
    Duplex, LacpMode, LacpTimer, LinkKind, LinkState, MacMode, duplex_of, kind_of_class,
    lacp_mode_of, lacp_timer_of, mac_mode_of, state_of,
};
use crate::common::shell::string_views;
use crate::net::types::NetError;
use crate::text::{
    chars_of, concat, content_lines, content_lines_of, dec, dec_chars, ends_with, has_suffix,
    hex2, hex_char, hex_digit, is, parse_hex_u8, parse_u32, parse_unsigned, slice, split_char,
    split_on, string_from, trim, trimmed, views, lower, lowered, parse_u16, first_where,
    lemma_first_where, lemma_none_where, has_char, split_ws, words_of, starts_with, has_prefix,
    contains, has, without_prefix, strip_prefix, dec_signed, lines, lines_of_text, all_digits,
    digits_value, digit_value,
};
use crate::common::network::{AggrInfo, AggrPort};
use crate::net::types::{AddressInfo, InterfaceInfo, LinkInfo, RouteInfo, interface_of, interface_part};
use crate::common::network::{
    AddressFamily, AddressKind, RouteKind, address_kind_of, family_of,
};

verus! {

/// What splitting a parsable line has built so far: the fields done, the
/// field being read, and whether the last character was an escaping `\`.
pub open spec fn fields_state(s: Seq<char>) -> (Seq<Seq<char>>, Seq<char>, bool)
    decreases s.len(),
{
    if s.len() == 0 {
        (Seq::<Seq<char>>::empty(), Seq::<char>::empty(), false)
    } else {
        let (done, cur, esc) = fields_state(s.drop_last());
        let c = s.last();
        if esc {
            (done, cur.push(c), false)
        } else if c == '\\' {
            (done, cur, true)
        } else if c == ':' {
            (done.push(cur), Seq::<char>::empty(), false)
        } else {
            (done, cur.push(c), false)
        }
    }
}

/// The fields of one line of parsable (`-p`) output: split on unescaped
/// `:`, with `\:` and `\\` unescaped.
pub open spec fn fields_of(s: Seq<char>) -> Seq<Seq<char>> {
    let (done, cur, _) = fields_state(s);
    done.push(cur)
}

/// The fields of `line`, as character vectors.
pub fn split_fields(line: &[char]) -> (r: Vec<Vec<char>>)
    ensures
        views(r@) == fields_of(line@),
{
    let mut done: Vec<Vec<char>> = Vec::new();
    let mut cur: Vec<char> = Vec::new();
    let mut esc = false;
    let mut i: usize = 0;
    while i < line.len()
        invariant
            0 <= i <= line.len(),
            fields_state(line@.take(i as int)) == (views(done@), cur@, esc),
        decreases line.len() - i,
    {
        assert(line@.take(i + 1).drop_last() == line@.take(i as int));
        let c = line[i];
        if esc {
            cur.push(c);
            esc = false;
        } else if c == '\\' {
            esc = true;
        } else if c == ':' {
            let ghost before = views(done@);
            let f = cur;
            done.push(f);
            cur = Vec::new();
            assert(views(done@) == before.push(f@));
        } else {
            cur.push(c);
        }
        i = i + 1;
    }
    assert(line@.take(line.len() as int) == line@);
    let ghost before = views(done@);
    let last = cur;
    done.push(last);
    assert(views(done@) == before.push(last@));
    done
}

/// Split one line of parsable (`-p`) output on unescaped `:`, undoing the
/// `\:` and `\\` escapes `dladm` and `ipadm` apply.
pub fn fields(line: &str) -> (r: Vec<String>)
    ensures
        string_views(r@) == fields_of(line@),
{
    let c = chars_of(line);
    let f = split_fields(c.as_slice());
    let mut out: Vec<String> = Vec::new();
    let mut i: usize = 0;
    while i < f.len()
        invariant
            0 <= i <= f.len(),
            string_views(out@) == views(f@).take(i as int),
        decreases f.len() - i,
    {
        let ghost before = string_views(out@);
        out.push(string_from(f[i].as_slice()));
        assert(string_views(out@) == before.push(f@[i as int]@));
        assert(views(f@).take(i + 1) == views(f@).take(i as int).push(f@[i as int]@));
        i = i + 1;
    }
    assert(views(f@).take(f.len() as int) == views(f@));
    out
}

/// Whether a field means "not applicable": `--`, `-`, `?`, `none`, or empty.
pub open spec fn is_na(f: Seq<char>) -> bool {
    f == ""@ || f == "--"@ || f == "-"@ || f == "?"@ || f == "none"@
}

/// A field, unless it means "not applicable".
pub open spec fn opt_field(f: Seq<char>) -> Option<Seq<char>> {
    if is_na(f) {
        None
    } else {
        Some(f)
    }
}

/// Whether a field means "not applicable".
pub fn na(f: &[char]) -> (r: bool)
    ensures
        r == is_na(f@),
{
    is(f, "") || is(f, "--") || is(f, "-") || is(f, "?") || is(f, "none")
}

/// The fields of every non-blank line of a text.
pub open spec fn row_fields(out: Seq<char>) -> Seq<Seq<Seq<char>>> {
    content_lines(out).map_values(|l: Seq<char>| fields_of(l))
}

/// The views of rows of character vectors.
pub open spec fn views2(v: Seq<Vec<Vec<char>>>) -> Seq<Seq<Seq<char>>> {
    v.map_values(|r: Vec<Vec<char>>| views(r@))
}

/// Whether every row has at least `want` fields.
pub open spec fn rows_ok(out: Seq<char>, want: int) -> bool {
    forall|i: int| 0 <= i < row_fields(out).len() ==> (#[trigger] row_fields(out)[i]).len() >= want
}

/// The first row with fewer than `want` fields.
pub open spec fn first_short(out: Seq<char>, want: int) -> int {
    choose|i: int| 0 <= i < row_fields(out).len() && row_fields(out)[i].len() < want
        && forall|j: int| 0 <= j < i ==> row_fields(out)[j].len() >= want
}

/// The message for a row with too few fields.
pub open spec fn short_row_detail(want: int, line: Seq<char>) -> Seq<char> {
    "expected "@ + dec(want as nat) + " fields: "@ + line
}

/// The rows of parsable output, or the index of the first short row.
pub fn rows(out: &[char], want: usize) -> (r: Result<(Vec<Vec<char>>, Vec<Vec<Vec<char>>>), usize>)
    ensures
        r is Ok <==> rows_ok(out@, want as int),
        r matches Ok((ls, rs)) ==> views(ls@) == content_lines(out@) && views2(rs@) == row_fields(out@),
        r matches Err(k) ==> k == first_short(out@, want as int) && k < content_lines(out@).len()
            && row_fields(out@)[k as int].len() < want,
{
    let ls = content_lines_of(out);
    let mut rs: Vec<Vec<Vec<char>>> = Vec::new();
    let mut i: usize = 0;
    while i < ls.len()
        invariant
            0 <= i <= ls.len(),
            views(ls@) == content_lines(out@),
            row_fields(out@).len() == ls.len(),
            views2(rs@) == row_fields(out@).take(i as int),
            forall|j: int| 0 <= j < i ==> row_fields(out@)[j].len() >= want,
        decreases ls.len() - i,
    {
        let f = split_fields(ls[i].as_slice());
        assert(row_fields(out@)[i as int] == fields_of(ls@[i as int]@));
        if f.len() < want {
            proof {
                let k = first_short(out@, want as int);
                assert(exists|k: int| 0 <= k < row_fields(out@).len() && row_fields(out@)[k].len() < want
                    && forall|j: int| 0 <= j < k ==> row_fields(out@)[j].len() >= want);
                assert(k == i) by {
                    if k < i {
                    } else if k > i {
                        assert(row_fields(out@)[i as int].len() < want);
                    }
                }
            }
            return Err(i);
        }
        let ghost before = views2(rs@);
        rs.push(f);
        assert(views2(rs@) == before.push(views(f@)));
        assert(row_fields(out@).take(i + 1) == row_fields(out@).take(i as int).push(row_fields(out@)[i as int]));
        i = i + 1;
    }
    assert(row_fields(out@).take(ls.len() as int) == row_fields(out@));
    Ok((ls, rs))
}

/// The error for a row with too few fields.
pub open spec fn short_row_error(e: NetError, command: Seq<char>, out: Seq<char>, want: int) -> bool {
    e matches NetError::Parse { command: c, detail: d } && c@ == command
        && d@ == short_row_detail(want, content_lines(out)[first_short(out, want)])
}

/// The error for row `k` with too few fields.
pub fn short_row(command: &str, want: usize, line: &[char]) -> (e: NetError)
    ensures
        e matches NetError::Parse { command: c, detail: d } && c@ == command@
            && d@ == short_row_detail(want as int, line@),
{
    let a = chars_of("expected ");
    let b = concat(a.as_slice(), dec_chars(want as u64).as_slice());
    let c = concat(b.as_slice(), chars_of(" fields: ").as_slice());
    let d = concat(c.as_slice(), line);
    NetError::Parse { command: command.to_owned(), detail: string_from(d.as_slice()) }
}

/// `0:c:29:ab:cd:ef` to `00:0c:29:ab:cd:ef`: six hex bytes, each printed
/// as two lower-case digits.
pub open spec fn mac_of(s: Seq<char>) -> Option<Seq<char>> {
    let parts = split_char(s, ':');
    if parts.len() == 6 && forall|i: int| 0 <= i < 6 ==> (#[trigger] parse_unsigned(parts[i], 16, 255)) is Some {
        Some(mac_text(parts))
    } else {
        None
    }
}

/// The normalised text of six hex byte parts.
pub open spec fn mac_text(parts: Seq<Seq<char>>) -> Seq<char> {
    byte_text(parts[0]) + seq![':'] + byte_text(parts[1]) + seq![':'] + byte_text(parts[2])
        + seq![':'] + byte_text(parts[3]) + seq![':'] + byte_text(parts[4]) + seq![':']
        + byte_text(parts[5])
}

/// One hex byte part as two lower-case digits.
pub open spec fn byte_text(p: Seq<char>) -> Seq<char> {
    hex2(parse_unsigned(p, 16, 255).unwrap() as u8)
}

/// `0:c:29:ab:cd:ef` to `00:0c:29:ab:cd:ef`.
pub fn normalize_mac_chars(s: &[char]) -> (r: Option<Vec<char>>)
    ensures
        r matches Some(m) ==> mac_of(s@) == Some(m@),
        r is None ==> mac_of(s@) is None,
{
    let parts = split_on(s, ':');
    if parts.len() != 6 {
        return None;
    }
    let mut out: Vec<char> = Vec::new();
    let mut i: usize = 0;
    while i < 6
        invariant
            0 <= i <= 6,
            parts@.len() == 6,
            views(parts@) == split_char(s@, ':'),
            forall|j: int| 0 <= j < i ==> (#[trigger] parse_unsigned(split_char(s@, ':')[j], 16, 255)) is Some,
            i == 0 ==> out@ == Seq::<char>::empty(),
            i == 1 ==> out@ == byte_text(split_char(s@, ':')[0]),
            i == 2 ==> out@ == byte_text(split_char(s@, ':')[0]) + seq![':'] + byte_text(split_char(s@, ':')[1]),
            i == 3 ==> out@ == byte_text(split_char(s@, ':')[0]) + seq![':'] + byte_text(split_char(s@, ':')[1]) + seq![':'] + byte_text(split_char(s@, ':')[2]),
            i == 4 ==> out@ == byte_text(split_char(s@, ':')[0]) + seq![':'] + byte_text(split_char(s@, ':')[1]) + seq![':'] + byte_text(split_char(s@, ':')[2]) + seq![':'] + byte_text(split_char(s@, ':')[3]),
            i == 5 ==> out@ == byte_text(split_char(s@, ':')[0]) + seq![':'] + byte_text(split_char(s@, ':')[1]) + seq![':'] + byte_text(split_char(s@, ':')[2]) + seq![':'] + byte_text(split_char(s@, ':')[3]) + seq![':'] + byte_text(split_char(s@, ':')[4]),
            i == 6 ==> out@ == mac_text(split_char(s@, ':')),
        decreases 6 - i,
    {
        assert(parts@[i as int]@ == split_char(s@, ':')[i as int]);
        let b = match parse_hex_u8(parts[i].as_slice()) {
            Some(b) => b,
            None => {
                return None;
            },
        };
        let ghost prev = out@;
        if i > 0 {
            out.push(':');
        }
        out.push(hex_digit(b / 16));
        out.push(hex_digit(b % 16));
        proof {
            assert(byte_text(split_char(s@, ':')[i as int]) == seq![hex_char(b as int / 16), hex_char(b as int % 16)]);
            if i > 0 {
                assert(out@ == prev + seq![':'] + byte_text(split_char(s@, ':')[i as int]));
            } else {
                assert(out@ == byte_text(split_char(s@, ':')[i as int]));
            }
        }
        i = i + 1;
    }
    Some(out)
}

/// `0:c:29:ab:cd:ef` to `00:0c:29:ab:cd:ef`.
pub fn normalize_mac(s: &str) -> (r: Option<String>)
    ensures
        r matches Some(m) ==> mac_of(s@) == Some(m@),
        r is None ==> mac_of(s@) is None,
{
    let c = chars_of(s);
    match normalize_mac_chars(c.as_slice()) {
        Some(m) => Some(string_from(m.as_slice())),
        None => None,
    }
}

/// `s` without the literal suffix `p`, when it ends with it.
pub open spec fn strip_suffix(s: Seq<char>, p: Seq<char>) -> Option<Seq<char>> {
    if ends_with(s, p) {
        Some(s.take(s.len() - p.len()))
    } else {
        None
    }
}

/// `1000`, `1000Mb`, or `10Gb` to Mbps; not applicable, zero, unknown, or
/// too large to `None`.
pub open spec fn speed_of(f: Seq<char>) -> Option<u32> {
    if is_na(f) {
        None
    } else {
        let s = trim(f);
        let (digits, mult) = match strip_suffix(s, "Gb"@) {
            Some(d) => (d, 1000int),
            None => match strip_suffix(s, "Mb"@) {
                Some(d) => (d, 1int),
                None => (s, 1int),
            },
        };
        match parse_unsigned(trim(digits), 10, u32::MAX as int) {
            Some(n) => if n > 0 && n * mult <= u32::MAX {
                Some((n * mult) as u32)
            } else {
                None
            },
            None => None,
        }
    }
}

/// `s` without its last `n` characters.
fn drop_back(s: &[char], n: usize) -> (r: Vec<char>)
    requires
        n <= s.len(),
    ensures
        r@ == s@.take(s.len() - n),
{
    slice(s, 0, s.len() - n)
}

/// `1000`, `1000Mb`, or `10Gb` to Mbps.
pub fn speed_mbps_chars(f: &[char]) -> (r: Option<u32>)
    ensures
        r == speed_of(f@),
{
    if na(f) {
        return None;
    }
    let s = trimmed(f);
    let gb = has_suffix(s.as_slice(), "Gb");
    let digits: Vec<char> = if gb {
        proof {
            reveal_strlit("Gb");
        }
        drop_back(s.as_slice(), 2)
    } else if has_suffix(s.as_slice(), "Mb") {
        proof {
            reveal_strlit("Mb");
        }
        drop_back(s.as_slice(), 2)
    } else {
        slice(s.as_slice(), 0, s.len())
    };
    assert(s@.subrange(0, s@.len() as int) == s@);
    let t = trimmed(digits.as_slice());
    match parse_u32(t.as_slice()) {
        Some(n) => {
            if n == 0 {
                None
            } else if gb {
                if n <= 4294967 {
                    Some(n * 1000)
                } else {
                    None
                }
            } else {
                Some(n)
            }
        },
        None => None,
    }
}

/// `1000`, `1000Mb`, or `10Gb` to Mbps; zero or unknown to `None`.
pub fn speed_mbps(s: &str) -> (r: Option<u32>)
    ensures
        r == speed_of(s@),
{
    let c = chars_of(s);
    speed_mbps_chars(c.as_slice())
}

/// The duplex a field gives, unless not applicable.
pub open spec fn duplex_field(f: Seq<char>) -> Option<Duplex> {
    if is_na(f) {
        None
    } else {
        Some(duplex_of(f))
    }
}

fn duplex(f: &[char]) -> (r: Option<Duplex>)
    ensures
        r == duplex_field(f@),
{
    if na(f) {
        None
    } else {
        Some(Duplex::from_chars(f))
    }
}


/// A field that is not "not applicable", as a string.
fn opt_string(f: &[char]) -> (r: Option<String>)
    ensures
        r matches Some(s) ==> opt_field(f@) == Some(s@),
        r is None ==> opt_field(f@) is None,
{
    if na(f) {
        None
    } else {
        Some(string_from(f))
    }
}

/// A number field of at most `u32::MAX`, unless not applicable or not a
/// number.
pub open spec fn opt_u32(f: Seq<char>) -> Option<u32> {
    if is_na(f) {
        None
    } else {
        match parse_unsigned(f, 10, u32::MAX as int) {
            Some(n) => Some(n as u32),
            None => None,
        }
    }
}

fn opt_u32_of(f: &[char]) -> (r: Option<u32>)
    ensures
        r == opt_u32(f@),
{
    if na(f) {
        None
    } else {
        parse_u32(f)
    }
}

/// Whether a character separates the names in an OVER column.
pub open spec fn is_over_sep(c: char) -> bool {
    c == ' ' || c == ','
}

/// The non-empty pieces of `s` between spaces and commas.
pub open spec fn split_over(s: Seq<char>) -> Seq<Seq<char>>
    decreases s.len(),
{
    if s.len() == 0 {
        Seq::<Seq<char>>::empty()
    } else {
        let p = split_over(s.drop_last());
        if is_over_sep(s.last()) {
            p
        } else if s.len() >= 2 && !is_over_sep(s[s.len() - 2]) && p.len() > 0 {
            p.update(p.len() - 1, p.last().push(s.last()))
        } else {
            p.push(seq![s.last()])
        }
    }
}

/// The names an OVER column lists.
pub open spec fn over_list(f: Seq<char>) -> Seq<Seq<char>> {
    if is_na(f) {
        Seq::<Seq<char>>::empty()
    } else {
        split_over(f)
    }
}

fn over_names(f: &[char]) -> (r: Vec<String>)
    ensures
        string_views(r@) == over_list(f@),
{
    let mut out: Vec<String> = Vec::new();
    if na(f) {
        return out;
    }
    let mut cur: Vec<char> = Vec::new();
    let mut pieces: Vec<Vec<char>> = Vec::new();
    let mut i: usize = 0;
    while i < f.len()
        invariant
            0 <= i <= f.len(),
            views(pieces@) == split_over(f@.take(i as int)),
            i > 0 && !is_over_sep(f@[i - 1]) ==> pieces@.len() > 0,
        decreases f.len() - i,
    {
        let ghost before = views(pieces@);
        assert(f@.take(i + 1).drop_last() == f@.take(i as int));
        let c = f[i];
        if c == ' ' || c == ',' {
        } else if i > 0 && !(f[i - 1] == ' ' || f[i - 1] == ',') && pieces.len() > 0 {
            assert(f@.take(i + 1)[i - 1] == f@[i - 1]);
            let mut last = pieces.pop().unwrap();
            last.push(c);
            pieces.push(last);
            assert(views(pieces@) == before.update(before.len() - 1, before.last().push(c)));
        } else {
            let mut fresh: Vec<char> = Vec::new();
            fresh.push(c);
            pieces.push(fresh);
            assert(views(pieces@) == before.push(seq![c]));
        }
        i = i + 1;
    }
    assert(f@.take(f.len() as int) == f@);
    let mut j: usize = 0;
    while j < pieces.len()
        invariant
            0 <= j <= pieces.len(),
            string_views(out@) == views(pieces@).take(j as int),
        decreases pieces.len() - j,
    {
        let ghost before = string_views(out@);
        out.push(string_from(pieces[j].as_slice()));
        assert(string_views(out@) == before.push(pieces@[j as int]@));
        assert(views(pieces@).take(j + 1) == views(pieces@).take(j as int).push(pieces@[j as int]@));
        j = j + 1;
    }
    assert(views(pieces@).take(pieces.len() as int) == views(pieces@));
    out
}

/// Columns for `dladm show-link -p -o`.
pub const SHOW_LINK_COLUMNS: &'static str = "link,class,mtu,state,bridge,over";

/// One `dladm show-link` row.
#[derive(Debug, Clone, PartialEq, Eq)]
pub struct LinkRow {
    /// Name.
    pub name: String,
    /// Kind from CLASS.
    pub kind: LinkKind,
    /// MTU.
    pub mtu: Option<u32>,
    /// State.
    pub state: LinkState,
    /// OVER, split on spaces and commas.
    pub over: Vec<String>,
}

/// A `show-link` row read from its fields.
pub open spec fn link_row_ok(r: LinkRow, f: Seq<Seq<char>>) -> bool {
    &&& r.name@ == f[0]
    &&& r.kind == kind_of_class(f[1])
    &&& r.mtu == opt_u32(f[2])
    &&& r.state == state_of(f[3])
    &&& string_views(r.over@) == over_list(f[5])
}

/// Whether a parser answered its rows one record each, or refused a short row.
pub open spec fn parsed_rows<T>(r: Result<Vec<T>, NetError>, out: Seq<char>, want: int, command: Seq<char>, ok: spec_fn(T, Seq<Seq<char>>) -> bool) -> bool {
    &&& (r is Ok <==> rows_ok(out, want))
    &&& (r matches Ok(v) ==> v@.len() == row_fields(out).len()
        && forall|i: int| 0 <= i < v@.len() ==> ok(#[trigger] v@[i], row_fields(out)[i]))
    &&& (r matches Err(e) ==> short_row_error(e, command, out, want))
}

/// Parse `dladm show-link -p -o` with `SHOW_LINK_COLUMNS`.
pub fn show_link(out: &str) -> (r: Result<Vec<LinkRow>, NetError>)
    ensures
        parsed_rows(r, out@, 6, "dladm show-link"@, |r: LinkRow, f: Seq<Seq<char>>| link_row_ok(r, f)),
{
    let c = chars_of(out);
    let (ls, rs) = match rows(c.as_slice(), 6) {
        Ok(x) => x,
        Err(k) => {
            let ls = content_lines_of(c.as_slice());
            return Err(short_row("dladm show-link", 6, ls[k].as_slice()));
        },
    };
    let mut v: Vec<LinkRow> = Vec::new();
    let mut i: usize = 0;
    while i < rs.len()
        invariant
            0 <= i <= rs.len(),
            views2(rs@) == row_fields(out@),
            rows_ok(out@, 6),
            v@.len() == i,
            forall|j: int| 0 <= j < i ==> link_row_ok(#[trigger] v@[j], row_fields(out@)[j]),
        decreases rs.len() - i,
    {
        let f = &rs[i];
        assert(views(f@) == row_fields(out@)[i as int]);
        assert(row_fields(out@)[i as int].len() >= 6);
        let row = LinkRow {
            name: string_from(f[0].as_slice()),
            kind: LinkKind::from_chars(f[1].as_slice()),
            mtu: opt_u32_of(f[2].as_slice()),
            state: LinkState::from_chars(f[3].as_slice()),
            over: over_names(f[5].as_slice()),
        };
        v.push(row);
        i = i + 1;
    }
    Ok(v)
}

/// Columns for `dladm show-phys -p -o`.
pub const SHOW_PHYS_COLUMNS: &'static str = "link,media,state,speed,duplex,device";

/// One `dladm show-phys` row.
#[derive(Debug, Clone, PartialEq, Eq)]
pub struct PhysRow {
    /// Name.
    pub name: String,
    /// Media.
    pub media: Option<String>,
    /// State.
    pub state: LinkState,
    /// Speed.
    pub speed_mbps: Option<u32>,
    /// Duplex.
    pub duplex: Option<Duplex>,
    /// Device.
    pub device: Option<String>,
}

/// Whether an optional string is the optional field.
pub open spec fn opt_is(o: Option<String>, f: Seq<char>) -> bool {
    match o {
        Some(s) => opt_field(f) == Some(s@),
        None => opt_field(f) is None,
    }
}

/// A `show-phys` row read from its fields.
pub open spec fn phys_row_ok(r: PhysRow, f: Seq<Seq<char>>) -> bool {
    &&& r.name@ == f[0]
    &&& opt_is(r.media, f[1])
    &&& r.state == state_of(f[2])
    &&& r.speed_mbps == speed_of(f[3])
    &&& r.duplex == duplex_field(f[4])
    &&& opt_is(r.device, f[5])
}

/// Parse `dladm show-phys -p -o` with `SHOW_PHYS_COLUMNS`.
pub fn show_phys(out: &str) -> (r: Result<Vec<PhysRow>, NetError>)
    ensures
        parsed_rows(r, out@, 6, "dladm show-phys"@, |r: PhysRow, f: Seq<Seq<char>>| phys_row_ok(r, f)),
{
    let c = chars_of(out);
    let (ls, rs) = match rows(c.as_slice(), 6) {
        Ok(x) => x,
        Err(k) => {
            let ls = content_lines_of(c.as_slice());
            return Err(short_row("dladm show-phys", 6, ls[k].as_slice()));
        },
    };
    let mut v: Vec<PhysRow> = Vec::new();
    let mut i: usize = 0;
    while i < rs.len()
        invariant
            0 <= i <= rs.len(),
            views2(rs@) == row_fields(out@),
            rows_ok(out@, 6),
            v@.len() == i,
            forall|j: int| 0 <= j < i ==> phys_row_ok(#[trigger] v@[j], row_fields(out@)[j]),
        decreases rs.len() - i,
    {
        let f = &rs[i];
        assert(views(f@) == row_fields(out@)[i as int]);
        assert(row_fields(out@)[i as int].len() >= 6);
        let row = PhysRow {
            name: string_from(f[0].as_slice()),
            media: opt_string(f[1].as_slice()),
            state: LinkState::from_chars(f[2].as_slice()),
            speed_mbps: speed_mbps_chars(f[3].as_slice()),
            duplex: duplex(f[4].as_slice()),
            device: opt_string(f[5].as_slice()),
        };
        v.push(row);
        i = i + 1;
    }
    Ok(v)
}


/// Columns for `dladm show-phys -m -p -o`.
pub const SHOW_PHYS_MAC_COLUMNS: &'static str = "link,slot,address,inuse,client";

/// A MAC field, normalised when it is six hex bytes, else lower-cased.
pub open spec fn mac_field(f: Seq<char>) -> Seq<char> {
    match mac_of(f) {
        Some(m) => m,
        None => lower(f),
    }
}

fn mac_chars(f: &[char]) -> (r: Vec<char>)
    ensures
        r@ == mac_field(f@),
{
    match normalize_mac_chars(f) {
        Some(m) => m,
        None => lowered(f),
    }
}

/// The first entry named `n`, if any.
pub open spec fn first_named(p: Seq<(Seq<char>, Seq<char>)>, n: Seq<char>) -> Option<int> {
    if exists|i: int| 0 <= i < p.len() && p[i].0 == n {
        Some(choose|i: int| 0 <= i < p.len() && p[i].0 == n && forall|j: int| 0 <= j < i ==> p[j].0 != n)
    } else {
        None
    }
}

/// The `(link, mac)` pairs the first `k` rows of `show-phys -m` give: each
/// link's first address, replaced by its `primary` slot's.
pub open spec fn macs_from(rows: Seq<Seq<Seq<char>>>) -> Seq<(Seq<char>, Seq<char>)>
    decreases rows.len(),
{
    if rows.len() == 0 {
        Seq::<(Seq<char>, Seq<char>)>::empty()
    } else {
        let p = macs_from(rows.drop_last());
        let f = rows.last();
        if is_na(f[2]) {
            p
        } else {
            match first_named(p, f[0]) {
                Some(i) => if f[1] == "primary"@ {
                    p.update(i, (p[i].0, mac_field(f[2])))
                } else {
                    p
                },
                None => p.push((f[0], mac_field(f[2]))),
            }
        }
    }
}

/// The views of `(String, String)` pairs.
pub open spec fn pair_views(v: Seq<(String, String)>) -> Seq<(Seq<char>, Seq<char>)> {
    v.map_values(|x: (String, String)| (x.0@, x.1@))
}

/// The first pair named `n`.
fn find_named(p: &Vec<(String, String)>, n: &String) -> (r: Option<usize>)
    ensures
        r matches Some(i) ==> first_named(pair_views(p@), n@) == Some(i as int) && i < p@.len(),
        r is None ==> first_named(pair_views(p@), n@) is None,
{
    let ghost pv = pair_views(p@);
    let mut i: usize = 0;
    while i < p.len()
        invariant
            0 <= i <= p.len(),
            pv == pair_views(p@),
            forall|j: int| 0 <= j < i ==> pv[j].0 != n@,
        decreases p.len() - i,
    {
        if p[i].0 == *n {
            assert(pv[i as int].0 == n@);
            let ghost k = choose|k: int| 0 <= k < pv.len() && pv[k].0 == n@ && forall|j: int| 0 <= j < k ==> pv[j].0 != n@;
            assert(exists|k: int| 0 <= k < pv.len() && pv[k].0 == n@ && forall|j: int| 0 <= j < k ==> pv[j].0 != n@);
            assert(k == i) by {
                if k > i {
                    assert(pv[i as int].0 == n@);
                }
            }
            return Some(i);
        }
        i = i + 1;
    }
    None
}

/// Parse `dladm show-phys -m -p -o` with `SHOW_PHYS_MAC_COLUMNS` to
/// `(link, mac)` using each link's primary slot.
pub fn show_phys_macs(out: &str) -> (r: Result<Vec<(String, String)>, NetError>)
    ensures
        r is Ok <==> rows_ok(out@, 5),
        r matches Ok(v) ==> pair_views(v@) == macs_from(row_fields(out@)),
        r matches Err(e) ==> short_row_error(e, "dladm show-phys -m"@, out@, 5),
{
    let c = chars_of(out);
    let (ls, rs) = match rows(c.as_slice(), 5) {
        Ok(x) => x,
        Err(k) => {
            let ls = content_lines_of(c.as_slice());
            return Err(short_row("dladm show-phys -m", 5, ls[k].as_slice()));
        },
    };
    let mut macs: Vec<(String, String)> = Vec::new();
    let mut i: usize = 0;
    while i < rs.len()
        invariant
            0 <= i <= rs.len(),
            views2(rs@) == row_fields(out@),
            rows_ok(out@, 5),
            pair_views(macs@) == macs_from(row_fields(out@).take(i as int)),
        decreases rs.len() - i,
    {
        let f = &rs[i];
        let ghost rf = row_fields(out@);
        assert(views(f@) == rf[i as int]);
        assert(rf[i as int].len() >= 5);
        assert(rf.take(i + 1).drop_last() == rf.take(i as int));
        assert(rf.take(i + 1).last() == rf[i as int]);
        if !na(f[2].as_slice()) {
            let mac = string_from(mac_chars(f[2].as_slice()).as_slice());
            let name = string_from(f[0].as_slice());
            let ghost before = pair_views(macs@);
            match find_named(&macs, &name) {
                Some(k) => {
                    if is(f[1].as_slice(), "primary") {
                        let keep = macs[k].0.clone();
                        macs.set(k, (keep, mac));
                        assert(pair_views(macs@) == before.update(k as int, (before[k as int].0, mac@)));
                    }
                },
                None => {
                    macs.push((name, mac));
                    assert(pair_views(macs@) == before.push((f@[0]@, mac@)));
                },
            }
        }
        i = i + 1;
    }
    assert(row_fields(out@).take(rs.len() as int) == row_fields(out@));
    Ok(macs)
}

/// Columns for `dladm show-aggr -p -o`.
pub const SHOW_AGGR_COLUMNS: &'static str = "link,policy,addrpolicy,lacpactivity,lacptimer,flags";

/// One `dladm show-aggr` row.
#[derive(Debug, Clone, PartialEq, Eq)]
pub struct AggrRow {
    /// Name.
    pub name: String,
    /// Policy.
    pub policy: String,
    /// LACP mode.
    pub lacp_mode: LacpMode,
    /// LACP timer.
    pub lacp_timer: LacpTimer,
}

/// A `show-aggr` row read from its fields.
pub open spec fn aggr_row_ok(r: AggrRow, f: Seq<Seq<char>>) -> bool {
    &&& r.name@ == f[0]
    &&& r.policy@ == f[1]
    &&& r.lacp_mode == lacp_mode_of(f[3])
    &&& r.lacp_timer == lacp_timer_of(f[4])
}

/// Parse `dladm show-aggr -p -o` with `SHOW_AGGR_COLUMNS`.
pub fn show_aggr(out: &str) -> (r: Result<Vec<AggrRow>, NetError>)
    ensures
        parsed_rows(r, out@, 6, "dladm show-aggr"@, |r: AggrRow, f: Seq<Seq<char>>| aggr_row_ok(r, f)),
{
    let c = chars_of(out);
    let (ls, rs) = match rows(c.as_slice(), 6) {
        Ok(x) => x,
        Err(k) => {
            let ls = content_lines_of(c.as_slice());
            return Err(short_row("dladm show-aggr", 6, ls[k].as_slice()));
        },
    };
    let mut v: Vec<AggrRow> = Vec::new();
    let mut i: usize = 0;
    while i < rs.len()
        invariant
            0 <= i <= rs.len(),
            views2(rs@) == row_fields(out@),
            rows_ok(out@, 6),
            v@.len() == i,
            forall|j: int| 0 <= j < i ==> aggr_row_ok(#[trigger] v@[j], row_fields(out@)[j]),
        decreases rs.len() - i,
    {
        let f = &rs[i];
        assert(views(f@) == row_fields(out@)[i as int]);
        assert(row_fields(out@)[i as int].len() >= 6);
        let row = AggrRow {
            name: string_from(f[0].as_slice()),
            policy: string_from(f[1].as_slice()),
            lacp_mode: LacpMode::from_chars(f[3].as_slice()),
            lacp_timer: LacpTimer::from_chars(f[4].as_slice()),
        };
        v.push(row);
        i = i + 1;
    }
    Ok(v)
}

/// Columns for `dladm show-aggr -x -p -o`.
pub const SHOW_AGGR_PORT_COLUMNS: &'static str = "link,port,speed,duplex,state,address,portstate";

/// One `dladm show-aggr -x` row: the aggregation itself when `port` is
/// `None`, one of its ports otherwise.
#[derive(Debug, Clone, PartialEq, Eq)]
pub struct AggrPortRow {
    /// Aggregation.
    pub aggr: String,
    /// Port.
    pub port: Option<String>,
    /// Speed.
    pub speed_mbps: Option<u32>,
    /// Duplex.
    pub duplex: Option<Duplex>,
    /// State.
    pub state: String,
    /// MAC.
    pub mac: Option<String>,
    /// Port state.
    pub port_state: Option<String>,
}

/// The aggregation a `show-aggr -x` row belongs to: the last non-empty
/// LINK among the rows so far.
pub open spec fn current_aggr(rows: Seq<Seq<Seq<char>>>) -> Seq<char>
    decreases rows.len(),
{
    if rows.len() == 0 {
        Seq::<char>::empty()
    } else if rows.last()[0].len() > 0 {
        rows.last()[0]
    } else {
        current_aggr(rows.drop_last())
    }
}

/// A `show-aggr -x` row read from its fields, given its aggregation.
pub open spec fn port_row_ok(r: AggrPortRow, aggr: Seq<char>, f: Seq<Seq<char>>) -> bool {
    &&& r.aggr@ == aggr
    &&& opt_is(r.port, f[1])
    &&& r.speed_mbps == speed_of(f[2])
    &&& r.duplex == duplex_field(f[3])
    &&& r.state@ == f[4]
    &&& match r.mac {
        Some(m) => !is_na(f[5]) && m@ == mac_field(f[5]),
        None => is_na(f[5]),
    }
    &&& opt_is(r.port_state, f[6])
}

/// Parse `dladm show-aggr -x -p -o` with `SHOW_AGGR_PORT_COLUMNS`. Port
/// rows may leave LINK empty; they belong to the last aggregation seen.
pub fn show_aggr_ports(out: &str) -> (r: Result<Vec<AggrPortRow>, NetError>)
    ensures
        r is Ok <==> rows_ok(out@, 7),
        r matches Ok(v) ==> v@.len() == row_fields(out@).len()
            && forall|i: int| 0 <= i < v@.len() ==> port_row_ok(#[trigger] v@[i],
                current_aggr(row_fields(out@).take(i + 1)), row_fields(out@)[i]),
        r matches Err(e) ==> short_row_error(e, "dladm show-aggr -x"@, out@, 7),
{
    let c = chars_of(out);
    let (ls, rs) = match rows(c.as_slice(), 7) {
        Ok(x) => x,
        Err(k) => {
            let ls = content_lines_of(c.as_slice());
            return Err(short_row("dladm show-aggr -x", 7, ls[k].as_slice()));
        },
    };
    let mut current: Vec<char> = Vec::new();
    let mut v: Vec<AggrPortRow> = Vec::new();
    let mut i: usize = 0;
    while i < rs.len()
        invariant
            0 <= i <= rs.len(),
            views2(rs@) == row_fields(out@),
            rows_ok(out@, 7),
            v@.len() == i,
            current@ == current_aggr(row_fields(out@).take(i as int)),
            forall|j: int| 0 <= j < i ==> port_row_ok(#[trigger] v@[j],
                current_aggr(row_fields(out@).take(j + 1)), row_fields(out@)[j]),
        decreases rs.len() - i,
    {
        let f = &rs[i];
        let ghost rf = row_fields(out@);
        assert(views(f@) == rf[i as int]);
        assert(rf[i as int].len() >= 7);
        assert(rf.take(i + 1).drop_last() == rf.take(i as int));
        assert(rf.take(i + 1).last() == rf[i as int]);
        if f[0].len() > 0 {
            current = slice(f[0].as_slice(), 0, f[0].len());
            assert(f@[0]@.subrange(0, f@[0]@.len() as int) == f@[0]@);
        }
        assert(f@[0]@ == rf[i as int][0]);
        assert(current@ == current_aggr(rf.take(i + 1)));
        let mac = if na(f[5].as_slice()) {
            None
        } else {
            Some(string_from(mac_chars(f[5].as_slice()).as_slice()))
        };
        let row = AggrPortRow {
            aggr: string_from(current.as_slice()),
            port: opt_string(f[1].as_slice()),
            speed_mbps: speed_mbps_chars(f[2].as_slice()),
            duplex: duplex(f[3].as_slice()),
            state: string_from(f[4].as_slice()),
            mac,
            port_state: opt_string(f[6].as_slice()),
        };
        v.push(row);
        i = i + 1;
    }
    Ok(v)
}

/// Columns for `dladm show-vlan -p -o`.
pub const SHOW_VLAN_COLUMNS: &'static str = "link,vid,over,flags";

/// One `dladm show-vlan` row.
#[derive(Debug, Clone, PartialEq, Eq)]
pub struct VlanRow {
    /// Name.
    pub name: String,
    /// VLAN id.
    pub vid: u16,
    /// Underlying link.
    pub over: String,
}

/// A `show-vlan` row read from its fields.
pub open spec fn vlan_row_ok(r: VlanRow, f: Seq<Seq<char>>) -> bool {
    &&& r.name@ == f[0]
    &&& parse_unsigned(f[1], 10, u16::MAX as int) == Some(r.vid as int)
    &&& r.over@ == f[2]
}

/// Whether every `show-vlan` row's VID parses.
pub open spec fn vids_ok(rf: Seq<Seq<Seq<char>>>) -> bool {
    forall|i: int| 0 <= i < rf.len() ==> (#[trigger] parse_unsigned(rf[i][1], 10, u16::MAX as int)) is Some
}

/// The first row whose VID does not parse.
pub open spec fn first_bad_vid(rf: Seq<Seq<Seq<char>>>) -> int {
    choose|i: int| 0 <= i < rf.len() && parse_unsigned(rf[i][1], 10, u16::MAX as int) is None
        && forall|j: int| 0 <= j < i ==> (#[trigger] parse_unsigned(rf[j][1], 10, u16::MAX as int)) is Some
}

/// The error for the first VID that does not parse.
pub open spec fn bad_vid_error(e: NetError, out: Seq<char>) -> bool {
    e matches NetError::Parse { command: cm, detail: d } && cm@ == "dladm show-vlan"@
        && d@ == "bad vid: "@ + row_fields(out)[first_bad_vid(row_fields(out))][1]
}

/// Parse `dladm show-vlan -p -o` with `SHOW_VLAN_COLUMNS`.
pub fn show_vlan(out: &str) -> (r: Result<Vec<VlanRow>, NetError>)
    ensures
        r is Ok <==> rows_ok(out@, 4) && vids_ok(row_fields(out@)),
        r matches Ok(v) ==> v@.len() == row_fields(out@).len()
            && forall|i: int| 0 <= i < v@.len() ==> vlan_row_ok(#[trigger] v@[i], row_fields(out@)[i]),
        r matches Err(e) ==> (!rows_ok(out@, 4) && short_row_error(e, "dladm show-vlan"@, out@, 4))
            || (rows_ok(out@, 4) && bad_vid_error(e, out@)),
{
    let c = chars_of(out);
    let (ls, rs) = match rows(c.as_slice(), 4) {
        Ok(x) => x,
        Err(k) => {
            let ls = content_lines_of(c.as_slice());
            return Err(short_row("dladm show-vlan", 4, ls[k].as_slice()));
        },
    };
    let mut v: Vec<VlanRow> = Vec::new();
    let mut i: usize = 0;
    while i < rs.len()
        invariant
            0 <= i <= rs.len(),
            views2(rs@) == row_fields(out@),
            rows_ok(out@, 4),
            v@.len() == i,
            forall|j: int| 0 <= j < i ==> vlan_row_ok(#[trigger] v@[j], row_fields(out@)[j]),
        decreases rs.len() - i,
    {
        let f = &rs[i];
        let ghost rf = row_fields(out@);
        assert(views(f@) == rf[i as int]);
        assert(rf[i as int].len() >= 4);
        let vid = match parse_u16(f[1].as_slice()) {
            Some(x) => x,
            None => {
                proof {
                    assert forall|j: int| 0 <= j < i implies (#[trigger] parse_unsigned(rf[j][1], 10, u16::MAX as int)) is Some by {
                        assert(vlan_row_ok(v@[j], rf[j]));
                    }
                    let k = first_bad_vid(rf);
                    assert(exists|k: int| 0 <= k < rf.len() && parse_unsigned(rf[k][1], 10, u16::MAX as int) is None
                        && forall|j: int| 0 <= j < k ==> (#[trigger] parse_unsigned(rf[j][1], 10, u16::MAX as int)) is Some);
                    assert(k == i) by {
                        if k > i {
                            assert(parse_unsigned(rf[i as int][1], 10, u16::MAX as int) is None);
                        }
                    }
                }
                let a = chars_of("bad vid: ");
                let d = concat(a.as_slice(), f[1].as_slice());
                return Err(NetError::Parse { command: "dladm show-vlan".to_owned(), detail: string_from(d.as_slice()) });
            },
        };
        let row = VlanRow {
            name: string_from(f[0].as_slice()),
            vid,
            over: string_from(f[2].as_slice()),
        };
        v.push(row);
        i = i + 1;
    }
    proof {
        assert forall|j: int| 0 <= j < row_fields(out@).len() implies (#[trigger] parse_unsigned(row_fields(out@)[j][1], 10, u16::MAX as int)) is Some by {
            assert(vlan_row_ok(v@[j], row_fields(out@)[j]));
        }
    }
    Ok(v)
}

/// Columns for `dladm show-vnic -p -o`.
pub const SHOW_VNIC_COLUMNS: &'static str = "link,over,speed,macaddress,macaddrtype,vid,zone";

/// One `dladm show-vnic` row.
#[derive(Debug, Clone, PartialEq, Eq)]
pub struct VnicRow {
    /// Name.
    pub name: String,
    /// Underlying link.
    pub over: String,
    /// Speed.
    pub speed_mbps: Option<u32>,
    /// MAC.
    pub mac: Option<String>,
    /// How the MAC was chosen.
    pub mac_mode: MacMode,
    /// VLAN tag, `None` for untagged.
    pub vid: Option<u16>,
    /// Zone.
    pub zone: Option<String>,
}

/// A VID field: a number other than zero, unless not applicable.
pub open spec fn vid_field(f: Seq<char>) -> Option<u16> {
    if is_na(f) {
        None
    } else {
        match parse_unsigned(f, 10, u16::MAX as int) {
            Some(n) => if n != 0 { Some(n as u16) } else { None },
            None => None,
        }
    }
}

/// A `show-vnic` row read from its fields.
pub open spec fn vnic_row_ok(r: VnicRow, f: Seq<Seq<char>>) -> bool {
    &&& r.name@ == f[0]
    &&& r.over@ == f[1]
    &&& r.speed_mbps == speed_of(f[2])
    &&& match r.mac {
        Some(m) => !is_na(f[3]) && m@ == mac_field(f[3]),
        None => is_na(f[3]),
    }
    &&& r.mac_mode == mac_mode_of(f[4])
    &&& r.vid == vid_field(f[5])
    &&& opt_is(r.zone, f[6])
}

/// Parse `dladm show-vnic -p -o` with `SHOW_VNIC_COLUMNS`.
pub fn show_vnic(out: &str) -> (r: Result<Vec<VnicRow>, NetError>)
    ensures
        parsed_rows(r, out@, 7, "dladm show-vnic"@, |r: VnicRow, f: Seq<Seq<char>>| vnic_row_ok(r, f)),
{
    let c = chars_of(out);
    let (ls, rs) = match rows(c.as_slice(), 7) {
        Ok(x) => x,
        Err(k) => {
            let ls = content_lines_of(c.as_slice());
            return Err(short_row("dladm show-vnic", 7, ls[k].as_slice()));
        },
    };
    let mut v: Vec<VnicRow> = Vec::new();
    let mut i: usize = 0;
    while i < rs.len()
        invariant
            0 <= i <= rs.len(),
            views2(rs@) == row_fields(out@),
            rows_ok(out@, 7),
            v@.len() == i,
            forall|j: int| 0 <= j < i ==> vnic_row_ok(#[trigger] v@[j], row_fields(out@)[j]),
        decreases rs.len() - i,
    {
        let f = &rs[i];
        assert(views(f@) == row_fields(out@)[i as int]);
        assert(row_fields(out@)[i as int].len() >= 7);
        let mac = if na(f[3].as_slice()) {
            None
        } else {
            Some(string_from(mac_chars(f[3].as_slice()).as_slice()))
        };
        let vid = if na(f[5].as_slice()) {
            None
        } else {
            match parse_u16(f[5].as_slice()) {
                Some(n) => if n != 0 { Some(n) } else { None },
                None => None,
            }
        };
        let row = VnicRow {
            name: string_from(f[0].as_slice()),
            over: string_from(f[1].as_slice()),
            speed_mbps: speed_mbps_chars(f[2].as_slice()),
            mac,
            mac_mode: MacMode::from_chars(f[4].as_slice()),
            vid,
            zone: opt_string(f[6].as_slice()),
        };
        v.push(row);
        i = i + 1;
    }
    Ok(v)
}


/// Everything `list_links` reads, joined by `LinkSources::assemble`.
#[derive(Debug, Clone, Default, PartialEq, Eq)]
pub struct LinkSources {
    /// `show-link`.
    pub links: Vec<LinkRow>,
    /// `show-phys`.
    pub phys: Vec<PhysRow>,
    /// `show-phys -m`.
    pub macs: Vec<(String, String)>,
    /// `show-aggr`.
    pub aggrs: Vec<AggrRow>,
    /// `show-aggr -x`.
    pub ports: Vec<AggrPortRow>,
    /// `show-vlan`.
    pub vlans: Vec<VlanRow>,
    /// `show-vnic`.
    pub vnics: Vec<VnicRow>,
}

/// The view of an optional string.
pub open spec fn opt_view(o: Option<String>) -> Option<Seq<char>> {
    match o {
        Some(s) => Some(s@),
        None => None,
    }
}

/// Rows named `n`.
pub open spec fn phys_named(n: Seq<char>) -> spec_fn(PhysRow) -> bool {
    |p: PhysRow| p.name@ == n
}

/// MAC pairs for link `n`.
pub open spec fn mac_named(n: Seq<char>) -> spec_fn((String, String)) -> bool {
    |p: (String, String)| p.0@ == n
}

/// Aggregation rows named `n`.
pub open spec fn aggr_named(n: Seq<char>) -> spec_fn(AggrRow) -> bool {
    |a: AggrRow| a.name@ == n
}

/// The row `show-aggr -x` prints for aggregation `n` itself.
pub open spec fn own_port_of(n: Seq<char>) -> spec_fn(AggrPortRow) -> bool {
    |p: AggrPortRow| p.aggr@ == n && p.port is None
}

/// VLAN rows named `n`.
pub open spec fn vlan_named(n: Seq<char>) -> spec_fn(VlanRow) -> bool {
    |v: VlanRow| v.name@ == n
}

/// VNIC rows named `n`.
pub open spec fn vnic_named(n: Seq<char>) -> spec_fn(VnicRow) -> bool {
    |v: VnicRow| v.name@ == n
}

/// Links named `n`.
pub open spec fn link_named(n: Seq<char>) -> spec_fn(LinkRow) -> bool {
    |l: LinkRow| l.name@ == n
}

/// The ports of aggregation `n`, in `show-aggr -x` order: name, state
/// (the port state when shown, else the state), speed.
pub open spec fn aggr_ports(ports: Seq<AggrPortRow>, n: Seq<char>) -> Seq<(Seq<char>, Seq<char>, Option<u32>)>
    decreases ports.len(),
{
    if ports.len() == 0 {
        Seq::<(Seq<char>, Seq<char>, Option<u32>)>::empty()
    } else {
        let rest = aggr_ports(ports.drop_last(), n);
        let p = ports.last();
        if p.aggr@ == n && p.port is Some {
            let state = match p.port_state {
                Some(s) => s@,
                None => p.state@,
            };
            rest.push((p.port.unwrap()@, state, p.speed_mbps))
        } else {
            rest
        }
    }
}

/// The views of aggregation ports.
pub open spec fn port_views(v: Seq<AggrPort>) -> Seq<(Seq<char>, Seq<char>, Option<u32>)> {
    v.map_values(|p: AggrPort| (p.name@, p.state@, p.speed_mbps))
}

/// The names of ports.
pub open spec fn port_names(v: Seq<(Seq<char>, Seq<char>, Option<u32>)>) -> Seq<Seq<char>> {
    v.map_values(|p: (Seq<char>, Seq<char>, Option<u32>)| p.0)
}

impl LinkSources {
    /// The state a link ends up with.
    pub open spec fn state_after(self, r: LinkRow) -> LinkState {
        if r.kind == LinkKind::Phys {
            match first_where(self.phys@, phys_named(r.name@)) {
                Some(i) => if self.phys@[i].state != LinkState::Unknown { self.phys@[i].state } else { r.state },
                None => r.state,
            }
        } else {
            r.state
        }
    }

    /// The underlying links a link ends up with.
    pub open spec fn over_after(self, r: LinkRow) -> Seq<Seq<char>> {
        if r.kind == LinkKind::Aggr {
            if first_where(self.aggrs@, aggr_named(r.name@)) is Some
                && aggr_ports(self.ports@, r.name@).len() > 0 {
                port_names(aggr_ports(self.ports@, r.name@))
            } else {
                string_views(r.over@)
            }
        } else if r.kind == LinkKind::Vlan {
            match first_where(self.vlans@, vlan_named(r.name@)) {
                Some(i) => seq![self.vlans@[i].over@],
                None => string_views(r.over@),
            }
        } else if r.kind == LinkKind::Vnic {
            match first_where(self.vnics@, vnic_named(r.name@)) {
                Some(i) => seq![self.vnics@[i].over@],
                None => string_views(r.over@),
            }
        } else {
            string_views(r.over@)
        }
    }

    /// The MAC a link has once its own sources are read (a VLAN has none yet).
    pub open spec fn own_mac(self, r: LinkRow) -> Option<Seq<char>> {
        if r.kind == LinkKind::Phys {
            match first_where(self.macs@, mac_named(r.name@)) {
                Some(i) => Some(self.macs@[i].1@),
                None => None,
            }
        } else if r.kind == LinkKind::Aggr {
            match first_where(self.ports@, own_port_of(r.name@)) {
                Some(i) => opt_view(self.ports@[i].mac),
                None => None,
            }
        } else if r.kind == LinkKind::Vnic {
            match first_where(self.vnics@, vnic_named(r.name@)) {
                Some(i) => opt_view(self.vnics@[i].mac),
                None => None,
            }
        } else {
            None
        }
    }

    /// The MAC a link ends up with: a VLAN shares the MAC its first
    /// underlying link has.
    pub open spec fn mac_after(self, r: LinkRow) -> Option<Seq<char>> {
        if r.kind == LinkKind::Vlan && self.over_after(r).len() > 0 {
            match first_where(self.links@, link_named(self.over_after(r)[0])) {
                Some(k) => self.own_mac(self.links@[k]),
                None => None,
            }
        } else {
            self.own_mac(r)
        }
    }

    /// The speed a link ends up with.
    pub open spec fn speed_after(self, r: LinkRow) -> Option<u32> {
        if r.kind == LinkKind::Phys {
            match first_where(self.phys@, phys_named(r.name@)) {
                Some(i) => self.phys@[i].speed_mbps,
                None => None,
            }
        } else if r.kind == LinkKind::Aggr {
            match first_where(self.ports@, own_port_of(r.name@)) {
                Some(i) => self.ports@[i].speed_mbps,
                None => None,
            }
        } else if r.kind == LinkKind::Vnic {
            match first_where(self.vnics@, vnic_named(r.name@)) {
                Some(i) => self.vnics@[i].speed_mbps,
                None => None,
            }
        } else {
            None
        }
    }

    /// The duplex a link ends up with.
    pub open spec fn duplex_after(self, r: LinkRow) -> Option<Duplex> {
        if r.kind == LinkKind::Phys {
            match first_where(self.phys@, phys_named(r.name@)) {
                Some(i) => self.phys@[i].duplex,
                None => None,
            }
        } else if r.kind == LinkKind::Aggr {
            match first_where(self.ports@, own_port_of(r.name@)) {
                Some(i) => self.ports@[i].duplex,
                None => None,
            }
        } else {
            None
        }
    }

    /// The VLAN id a link ends up with.
    pub open spec fn vid_after(self, r: LinkRow) -> Option<u16> {
        if r.kind == LinkKind::Vlan {
            match first_where(self.vlans@, vlan_named(r.name@)) {
                Some(i) => Some(self.vlans@[i].vid),
                None => None,
            }
        } else if r.kind == LinkKind::Vnic {
            match first_where(self.vnics@, vnic_named(r.name@)) {
                Some(i) => self.vnics@[i].vid,
                None => None,
            }
        } else {
            None
        }
    }

    /// Whether an assembled link is the one its `show-link` row and the
    /// other sources describe.
    pub open spec fn assembled(self, l: LinkInfo, r: LinkRow) -> bool {
        &&& self.assembled_but_mac(l, r)
        &&& opt_view(l.mac) == self.mac_after(r)
    }

    /// Every field but the MAC as the sources describe it.
    pub open spec fn assembled_but_mac(self, l: LinkInfo, r: LinkRow) -> bool {
        &&& l.name@ == r.name@
        &&& l.kind == r.kind
        &&& l.mtu == r.mtu
        &&& l.state == self.state_after(r)
        &&& string_views(l.over@) == self.over_after(r)
        &&& l.speed_mbps == self.speed_after(r)
        &&& l.duplex == self.duplex_after(r)
        &&& l.vid == self.vid_after(r)
        &&& l.mac_mode == (if r.kind == LinkKind::Vnic {
            match first_where(self.vnics@, vnic_named(r.name@)) {
                Some(i) => Some(self.vnics@[i].mac_mode),
                None => None,
            }
        } else {
            None
        })
        &&& opt_view(l.device) == (if r.kind == LinkKind::Phys {
            match first_where(self.phys@, phys_named(r.name@)) {
                Some(i) => opt_view(self.phys@[i].device),
                None => None,
            }
        } else {
            None
        })
        &&& opt_view(l.media) == (if r.kind == LinkKind::Phys {
            match first_where(self.phys@, phys_named(r.name@)) {
                Some(i) => opt_view(self.phys@[i].media),
                None => None,
            }
        } else {
            None
        })
        &&& opt_view(l.zone) == (if r.kind == LinkKind::Vnic {
            match first_where(self.vnics@, vnic_named(r.name@)) {
                Some(i) => opt_view(self.vnics@[i].zone),
                None => None,
            }
        } else {
            None
        })
        &&& (if r.kind == LinkKind::Aggr {
            match first_where(self.aggrs@, aggr_named(r.name@)) {
                Some(i) => l.aggr matches Some(info) && info.policy@ == self.aggrs@[i].policy@
                    && info.lacp_mode == self.aggrs@[i].lacp_mode
                    && info.lacp_timer == self.aggrs@[i].lacp_timer
                    && port_views(info.ports@) == aggr_ports(self.ports@, r.name@),
                None => l.aggr is None,
            }
        } else {
            l.aggr is None
        })
    }

    fn find_phys(&self, n: &String) -> (r: Option<usize>)
        ensures
            r matches Some(i) ==> first_where(self.phys@, phys_named(n@)) == Some(i as int) && i < self.phys@.len(),
            r is None ==> first_where(self.phys@, phys_named(n@)) is None,
    {
        let mut i: usize = 0;
        while i < self.phys.len()
            invariant
                0 <= i <= self.phys.len(),
                forall|j: int| 0 <= j < i ==> !(phys_named(n@))(self.phys@[j]),
            decreases self.phys.len() - i,
        {
            if self.phys[i].name == *n {
                proof { lemma_first_where(self.phys@, phys_named(n@), i as int); }
                return Some(i);
            }
            i = i + 1;
        }
        proof { lemma_none_where(self.phys@, phys_named(n@)); }
        None
    }

    fn find_mac(&self, n: &String) -> (r: Option<usize>)
        ensures
            r matches Some(i) ==> first_where(self.macs@, mac_named(n@)) == Some(i as int) && i < self.macs@.len(),
            r is None ==> first_where(self.macs@, mac_named(n@)) is None,
    {
        let mut i: usize = 0;
        while i < self.macs.len()
            invariant
                0 <= i <= self.macs.len(),
                forall|j: int| 0 <= j < i ==> !(mac_named(n@))(self.macs@[j]),
            decreases self.macs.len() - i,
        {
            if self.macs[i].0 == *n {
                proof { lemma_first_where(self.macs@, mac_named(n@), i as int); }
                return Some(i);
            }
            i = i + 1;
        }
        proof { lemma_none_where(self.macs@, mac_named(n@)); }
        None
    }

    fn find_aggr(&self, n: &String) -> (r: Option<usize>)
        ensures
            r matches Some(i) ==> first_where(self.aggrs@, aggr_named(n@)) == Some(i as int) && i < self.aggrs@.len(),
            r is None ==> first_where(self.aggrs@, aggr_named(n@)) is None,
    {
        let mut i: usize = 0;
        while i < self.aggrs.len()
            invariant
                0 <= i <= self.aggrs.len(),
                forall|j: int| 0 <= j < i ==> !(aggr_named(n@))(self.aggrs@[j]),
            decreases self.aggrs.len() - i,
        {
            if self.aggrs[i].name == *n {
                proof { lemma_first_where(self.aggrs@, aggr_named(n@), i as int); }
                return Some(i);
            }
            i = i + 1;
        }
        proof { lemma_none_where(self.aggrs@, aggr_named(n@)); }
        None
    }

    fn find_own_port(&self, n: &String) -> (r: Option<usize>)
        ensures
            r matches Some(i) ==> first_where(self.ports@, own_port_of(n@)) == Some(i as int) && i < self.ports@.len(),
            r is None ==> first_where(self.ports@, own_port_of(n@)) is None,
    {
        let mut i: usize = 0;
        while i < self.ports.len()
            invariant
                0 <= i <= self.ports.len(),
                forall|j: int| 0 <= j < i ==> !(own_port_of(n@))(self.ports@[j]),
            decreases self.ports.len() - i,
        {
            if self.ports[i].aggr == *n && self.ports[i].port.is_none() {
                proof { lemma_first_where(self.ports@, own_port_of(n@), i as int); }
                return Some(i);
            }
            i = i + 1;
        }
        proof { lemma_none_where(self.ports@, own_port_of(n@)); }
        None
    }

    fn find_vlan(&self, n: &String) -> (r: Option<usize>)
        ensures
            r matches Some(i) ==> first_where(self.vlans@, vlan_named(n@)) == Some(i as int) && i < self.vlans@.len(),
            r is None ==> first_where(self.vlans@, vlan_named(n@)) is None,
    {
        let mut i: usize = 0;
        while i < self.vlans.len()
            invariant
                0 <= i <= self.vlans.len(),
                forall|j: int| 0 <= j < i ==> !(vlan_named(n@))(self.vlans@[j]),
            decreases self.vlans.len() - i,
        {
            if self.vlans[i].name == *n {
                proof { lemma_first_where(self.vlans@, vlan_named(n@), i as int); }
                return Some(i);
            }
            i = i + 1;
        }
        proof { lemma_none_where(self.vlans@, vlan_named(n@)); }
        None
    }

    fn find_vnic(&self, n: &String) -> (r: Option<usize>)
        ensures
            r matches Some(i) ==> first_where(self.vnics@, vnic_named(n@)) == Some(i as int) && i < self.vnics@.len(),
            r is None ==> first_where(self.vnics@, vnic_named(n@)) is None,
    {
        let mut i: usize = 0;
        while i < self.vnics.len()
            invariant
                0 <= i <= self.vnics.len(),
                forall|j: int| 0 <= j < i ==> !(vnic_named(n@))(self.vnics@[j]),
            decreases self.vnics.len() - i,
        {
            if self.vnics[i].name == *n {
                proof { lemma_first_where(self.vnics@, vnic_named(n@), i as int); }
                return Some(i);
            }
            i = i + 1;
        }
        proof { lemma_none_where(self.vnics@, vnic_named(n@)); }
        None
    }

    fn find_link(&self, n: &String) -> (r: Option<usize>)
        ensures
            r matches Some(i) ==> first_where(self.links@, link_named(n@)) == Some(i as int) && i < self.links@.len(),
            r is None ==> first_where(self.links@, link_named(n@)) is None,
    {
        let mut i: usize = 0;
        while i < self.links.len()
            invariant
                0 <= i <= self.links.len(),
                forall|j: int| 0 <= j < i ==> !(link_named(n@))(self.links@[j]),
            decreases self.links.len() - i,
        {
            if self.links[i].name == *n {
                proof { lemma_first_where(self.links@, link_named(n@), i as int); }
                return Some(i);
            }
            i = i + 1;
        }
        proof { lemma_none_where(self.links@, link_named(n@)); }
        None
    }

    /// The ports of aggregation `n`.
    fn ports_of(&self, n: &String) -> (r: Vec<AggrPort>)
        ensures
            port_views(r@) == aggr_ports(self.ports@, n@),
    {
        let mut out: Vec<AggrPort> = Vec::new();
        let mut i: usize = 0;
        while i < self.ports.len()
            invariant
                0 <= i <= self.ports.len(),
                port_views(out@) == aggr_ports(self.ports@.take(i as int), n@),
            decreases self.ports.len() - i,
        {
            let p = &self.ports[i];
            assert(self.ports@.take(i + 1).drop_last() == self.ports@.take(i as int));
            assert(self.ports@.take(i + 1).last() == self.ports@[i as int]);
            if p.aggr == *n {
                match &p.port {
                    Some(name) => {
                        let state = match &p.port_state {
                            Some(s) => s.clone(),
                            None => p.state.clone(),
                        };
                        let ghost before = port_views(out@);
                        let port = AggrPort { name: name.clone(), state, speed_mbps: p.speed_mbps };
                        out.push(port);
                        assert(port_views(out@) == before.push((name@, port.state@, p.speed_mbps)));
                    },
                    None => {},
                }
            }
            i = i + 1;
        }
        assert(self.ports@.take(self.ports.len() as int) == self.ports@);
        out
    }

    /// The link one `show-link` row describes, filled from its own
    /// sources (a VLAN's MAC comes later).
    fn fill(&self, r: &LinkRow) -> (l: LinkInfo)
        ensures
            self.assembled_but_mac(l, *r),
            opt_view(l.mac) == self.own_mac(*r),
    {
        let mut over: Vec<String> = Vec::new();
        let mut k: usize = 0;
        while k < r.over.len()
            invariant
                0 <= k <= r.over.len(),
                string_views(over@) == string_views(r.over@).take(k as int),
            decreases r.over.len() - k,
        {
            let ghost before = string_views(over@);
            over.push(r.over[k].clone());
            assert(string_views(over@) == before.push(r.over@[k as int]@));
            assert(string_views(r.over@).take(k + 1) == string_views(r.over@).take(k as int).push(r.over@[k as int]@));
            k = k + 1;
        }
        assert(string_views(r.over@).take(r.over.len() as int) == string_views(r.over@));
        let mut l = LinkInfo {
            name: r.name.clone(),
            kind: r.kind,
            state: r.state,
            over,
            mtu: r.mtu,
            mac: None,
            mac_mode: None,
            vid: None,
            speed_mbps: None,
            duplex: None,
            device: None,
            media: None,
            aggr: None,
            zone: None,
        };
        match r.kind {
            LinkKind::Phys => {
                match self.find_phys(&r.name) {
                    Some(i) => {
                        let p = &self.phys[i];
                        l.media = opt_clone(&p.media);
                        l.speed_mbps = p.speed_mbps;
                        l.duplex = p.duplex;
                        l.device = opt_clone(&p.device);
                        if p.state != LinkState::Unknown {
                            l.state = p.state;
                        }
                    },
                    None => {},
                }
                l.mac = match self.find_mac(&r.name) {
                    Some(i) => Some(self.macs[i].1.clone()),
                    None => None,
                };
            },
            LinkKind::Aggr => {
                match self.find_aggr(&r.name) {
                    Some(i) => {
                        let a = &self.aggrs[i];
                        let ports = self.ports_of(&r.name);
                        if ports.len() > 0 {
                            let mut names: Vec<String> = Vec::new();
                            let mut j: usize = 0;
                            while j < ports.len()
                                invariant
                                    0 <= j <= ports.len(),
                                    string_views(names@) == port_names(port_views(ports@)).take(j as int),
                                decreases ports.len() - j,
                            {
                                let ghost before = string_views(names@);
                                names.push(ports[j].name.clone());
                                assert(string_views(names@) == before.push(ports@[j as int].name@));
                                assert(port_names(port_views(ports@)).take(j + 1) == port_names(port_views(ports@)).take(j as int).push(ports@[j as int].name@));
                                j = j + 1;
                            }
                            assert(port_names(port_views(ports@)).take(ports.len() as int) == port_names(port_views(ports@)));
                            l.over = names;
                        }
                        l.aggr = Some(AggrInfo {
                            policy: a.policy.clone(),
                            lacp_mode: a.lacp_mode,
                            lacp_timer: a.lacp_timer,
                            ports,
                        });
                    },
                    None => {},
                }
                match self.find_own_port(&r.name) {
                    Some(i) => {
                        let own = &self.ports[i];
                        l.speed_mbps = own.speed_mbps;
                        l.duplex = own.duplex;
                        l.mac = opt_clone(&own.mac);
                    },
                    None => {},
                }
            },
            LinkKind::Vlan => {
                match self.find_vlan(&r.name) {
                    Some(i) => {
                        let v = &self.vlans[i];
                        l.vid = Some(v.vid);
                        let mut o: Vec<String> = Vec::new();
                        o.push(v.over.clone());
                        assert(string_views(o@) == seq![v.over@]);
                        l.over = o;
                    },
                    None => {},
                }
            },
            LinkKind::Vnic => {
                match self.find_vnic(&r.name) {
                    Some(i) => {
                        let v = &self.vnics[i];
                        let mut o: Vec<String> = Vec::new();
                        o.push(v.over.clone());
                        assert(string_views(o@) == seq![v.over@]);
                        l.over = o;
                        l.speed_mbps = v.speed_mbps;
                        l.mac = opt_clone(&v.mac);
                        l.mac_mode = Some(v.mac_mode);
                        l.vid = v.vid;
                        l.zone = opt_clone(&v.zone);
                    },
                    None => {},
                }
            },
            _ => {},
        }
        l
    }

    fn own_mac_of(&self, r: &LinkRow) -> (m: Option<String>)
        ensures
            opt_view(m) == self.own_mac(*r),
    {
        match r.kind {
            LinkKind::Phys => match self.find_mac(&r.name) {
                Some(i) => Some(self.macs[i].1.clone()),
                None => None,
            },
            LinkKind::Aggr => match self.find_own_port(&r.name) {
                Some(i) => opt_clone(&self.ports[i].mac),
                None => None,
            },
            LinkKind::Vnic => match self.find_vnic(&r.name) {
                Some(i) => opt_clone(&self.vnics[i].mac),
                None => None,
            },
            _ => None,
        }
    }

    /// One `LinkInfo` per `show-link` row, in `show-link` order.
    pub fn assemble(&self) -> (r: Vec<LinkInfo>)
        ensures
            r@.len() == self.links@.len(),
            forall|i: int| 0 <= i < r@.len() ==> self.assembled(#[trigger] r@[i], self.links@[i]),
    {
        let mut own: Vec<Option<String>> = Vec::new();
        let mut j: usize = 0;
        while j < self.links.len()
            invariant
                0 <= j <= self.links.len(),
                own@.len() == j,
                forall|k: int| 0 <= k < j ==> opt_view(#[trigger] own@[k]) == self.own_mac(self.links@[k]),
            decreases self.links.len() - j,
        {
            own.push(self.own_mac_of(&self.links[j]));
            j = j + 1;
        }
        let mut out: Vec<LinkInfo> = Vec::new();
        let mut i: usize = 0;
        while i < self.links.len()
            invariant
                0 <= i <= self.links.len(),
                own@.len() == self.links@.len(),
                forall|k: int| 0 <= k < own@.len() ==> opt_view(#[trigger] own@[k]) == self.own_mac(self.links@[k]),
                out@.len() == i,
                forall|k: int| 0 <= k < i ==> self.assembled(#[trigger] out@[k], self.links@[k]),
            decreases self.links.len() - i,
        {
            let r = &self.links[i];
            let mut l = self.fill(r);
            if r.kind == LinkKind::Vlan {
                // A VLAN shares its parent's MAC.
                if l.over.len() > 0 {
                    let parent = l.over[0].clone();
                    assert(parent@ == self.over_after(*r)[0]);
                    l.mac = match self.find_link(&parent) {
                        Some(q) => opt_clone(&own[q]),
                        None => None,
                    };
                } else {
                    l.mac = None;
                }
            }
            out.push(l);
            i = i + 1;
        }
        out
    }
}

/// A copy of an optional string.
fn opt_clone(o: &Option<String>) -> (r: Option<String>)
    ensures
        r == *o,
{
    match o {
        Some(s) => Some(s.clone()),
        None => None,
    }
}

/// Columns for `ipadm show-if -p -o`.
pub const SHOW_IF_COLUMNS: &'static str = "ifname,class,state,current,persistent,over";

/// A `show-if` row read from its fields.
pub open spec fn if_row_ok(r: InterfaceInfo, f: Seq<Seq<char>>) -> bool {
    &&& r.name@ == f[0]
    &&& r.class@ == f[1]
    &&& r.state@ == f[2]
    &&& opt_is(r.over, f[5])
}

/// Parse `ipadm show-if -p -o` with `SHOW_IF_COLUMNS`.
pub fn show_if(out: &str) -> (r: Result<Vec<InterfaceInfo>, NetError>)
    ensures
        parsed_rows(r, out@, 6, "ipadm show-if"@, |r: InterfaceInfo, f: Seq<Seq<char>>| if_row_ok(r, f)),
{
    let c = chars_of(out);
    let (ls, rs) = match rows(c.as_slice(), 6) {
        Ok(x) => x,
        Err(k) => {
            let ls = content_lines_of(c.as_slice());
            return Err(short_row("ipadm show-if", 6, ls[k].as_slice()));
        },
    };
    let mut v: Vec<InterfaceInfo> = Vec::new();
    let mut i: usize = 0;
    while i < rs.len()
        invariant
            0 <= i <= rs.len(),
            views2(rs@) == row_fields(out@),
            rows_ok(out@, 6),
            v@.len() == i,
            forall|j: int| 0 <= j < i ==> if_row_ok(#[trigger] v@[j], row_fields(out@)[j]),
        decreases rs.len() - i,
    {
        let f = &rs[i];
        assert(views(f@) == row_fields(out@)[i as int]);
        assert(row_fields(out@)[i as int].len() >= 6);
        let row = InterfaceInfo {
            name: string_from(f[0].as_slice()),
            class: string_from(f[1].as_slice()),
            state: string_from(f[2].as_slice()),
            over: opt_string(f[5].as_slice()),
        };
        v.push(row);
        i = i + 1;
    }
    Ok(v)
}

/// Columns for `ipadm show-addr -p -o`.
pub const SHOW_ADDR_COLUMNS: &'static str = "addrobj,type,state,current,persistent,addr";

/// The family of an address object: its address's, else IPv6 for
/// `addrconf` and IPv4 otherwise.
pub open spec fn address_family(kind: AddressKind, address: Option<Seq<char>>) -> AddressFamily {
    match address {
        Some(a) => family_of(a),
        None => if kind == AddressKind::Addrconf { AddressFamily::Inet6 } else { AddressFamily::Inet },
    }
}

/// A `show-addr` row read from its fields.
pub open spec fn addr_row_ok(r: AddressInfo, f: Seq<Seq<char>>) -> bool {
    &&& address_kind_of(f[1]) == Some(r.kind)
    &&& r.name@ == f[0]
    &&& r.interface@ == interface_part(f[0])
    &&& opt_is(r.address, f[5])
    &&& r.family == address_family(r.kind, opt_field(f[5]))
    &&& r.state@ == f[2]
    &&& r.persistent == f[4].contains('U')
}

/// Whether every `show-addr` row has a known TYPE.
pub open spec fn addr_kinds_ok(rf: Seq<Seq<Seq<char>>>) -> bool {
    forall|i: int| 0 <= i < rf.len() ==> (#[trigger] address_kind_of(rf[i][1])) is Some
}

/// The first row with an unknown TYPE.
pub open spec fn first_bad_kind(rf: Seq<Seq<Seq<char>>>) -> int {
    choose|i: int| 0 <= i < rf.len() && address_kind_of(rf[i][1]) is None
        && forall|j: int| 0 <= j < i ==> (#[trigger] address_kind_of(rf[j][1])) is Some
}

/// The error for the first unknown address type.
pub open spec fn bad_kind_error(e: NetError, out: Seq<char>) -> bool {
    e matches NetError::Parse { command: cm, detail: d } && cm@ == "ipadm show-addr"@
        && d@ == "unknown address type: "@ + row_fields(out)[first_bad_kind(row_fields(out))][1]
}

/// Parse `ipadm show-addr -p -o` with `SHOW_ADDR_COLUMNS`.
pub fn show_addr(out: &str) -> (r: Result<Vec<AddressInfo>, NetError>)
    ensures
        r is Ok <==> rows_ok(out@, 6) && addr_kinds_ok(row_fields(out@)),
        r matches Ok(v) ==> v@.len() == row_fields(out@).len()
            && forall|i: int| 0 <= i < v@.len() ==> addr_row_ok(#[trigger] v@[i], row_fields(out@)[i]),
        r matches Err(e) ==> (!rows_ok(out@, 6) && short_row_error(e, "ipadm show-addr"@, out@, 6))
            || (rows_ok(out@, 6) && bad_kind_error(e, out@)),
{
    let c = chars_of(out);
    let (ls, rs) = match rows(c.as_slice(), 6) {
        Ok(x) => x,
        Err(k) => {
            let ls = content_lines_of(c.as_slice());
            return Err(short_row("ipadm show-addr", 6, ls[k].as_slice()));
        },
    };
    let mut v: Vec<AddressInfo> = Vec::new();
    let mut i: usize = 0;
    while i < rs.len()
        invariant
            0 <= i <= rs.len(),
            views2(rs@) == row_fields(out@),
            rows_ok(out@, 6),
            v@.len() == i,
            forall|j: int| 0 <= j < i ==> addr_row_ok(#[trigger] v@[j], row_fields(out@)[j]),
        decreases rs.len() - i,
    {
        let f = &rs[i];
        let ghost rf = row_fields(out@);
        assert(views(f@) == rf[i as int]);
        assert(rf[i as int].len() >= 6);
        let kind = match AddressKind::from_chars(f[1].as_slice()) {
            Some(k) => k,
            None => {
                proof {
                    assert forall|j: int| 0 <= j < i implies (#[trigger] address_kind_of(rf[j][1])) is Some by {
                        assert(addr_row_ok(v@[j], rf[j]));
                    }
                    let k = first_bad_kind(rf);
                    assert(exists|k: int| 0 <= k < rf.len() && address_kind_of(rf[k][1]) is None
                        && forall|j: int| 0 <= j < k ==> (#[trigger] address_kind_of(rf[j][1])) is Some);
                    assert(k == i) by {
                        if k > i {
                            assert(address_kind_of(rf[i as int][1]) is None);
                        }
                    }
                }
                let a = chars_of("unknown address type: ");
                let d = concat(a.as_slice(), f[1].as_slice());
                return Err(NetError::Parse { command: "ipadm show-addr".to_owned(), detail: string_from(d.as_slice()) });
            },
        };
        let address = opt_string(f[5].as_slice());
        let family = match &address {
            Some(a) => AddressFamily::of(a.as_str()),
            None => if kind == AddressKind::Addrconf { AddressFamily::Inet6 } else { AddressFamily::Inet },
        };
        let name = string_from(f[0].as_slice());
        let interface = interface_of(name.as_str()).to_owned();
        let row = AddressInfo {
            interface,
            name,
            kind,
            family,
            address,
            state: string_from(f[2].as_slice()),
            persistent: has_char(f[4].as_slice(), 'U'),
        };
        v.push(row);
        i = i + 1;
    }
    proof {
        assert forall|j: int| 0 <= j < row_fields(out@).len() implies (#[trigger] address_kind_of(row_fields(out@)[j][1])) is Some by {
            assert(addr_row_ok(v@[j], row_fields(out@)[j]));
        }
    }
    Ok(v)
}

/// One decimal octet of a dotted quad: one to three digits, no leading
/// zero, at most 255.
pub open spec fn octet(p: Seq<char>) -> Option<int> {
    if 1 <= p.len() <= 3 && all_digits(p, 10) && !(p.len() > 1 && p[0] == '0')
        && digits_value(p, 10) <= 255 {
        Some(digits_value(p, 10))
    } else {
        None
    }
}

/// The 32 bits of a dotted-quad IPv4 address, as `Ipv4Addr` reads one:
/// exactly four octets separated by dots.
pub open spec fn ipv4_bits(text: Seq<char>) -> Option<int> {
    let parts = split_char(text, '.');
    if parts.len() == 4 && octet(parts[0]) is Some && octet(parts[1]) is Some
        && octet(parts[2]) is Some && octet(parts[3]) is Some {
        Some(
            octet(parts[0])->0 * 16777216 + octet(parts[1])->0 * 65536 + octet(parts[2])->0 * 256
                + octet(parts[3])->0,
        )
    } else {
        None
    }
}

fn parse_octet(p: &[char]) -> (r: Option<u64>)
    ensures
        r matches Some(v) ==> octet(p@) == Some(v as int),
        r is None ==> octet(p@) is None,
{
    if p.len() < 1 || p.len() > 3 || (p.len() > 1 && p[0] == '0') {
        return None;
    }
    let mut v: u64 = 0;
    let mut i: usize = 0;
    while i < p.len()
        invariant
            1 <= p@.len() <= 3,
            0 <= i <= p@.len(),
            all_digits(p@.take(i as int), 10),
            v as int == digits_value(p@.take(i as int), 10),
            i == 0 ==> v == 0,
            i == 1 ==> v < 10,
            i == 2 ==> v < 100,
            i == 3 ==> v < 1000,
        decreases p@.len() - i,
    {
        assert(p@.take(i + 1).drop_last() == p@.take(i as int));
        let c = p[i];
        if c < '0' || c > '9' {
            assert(!all_digits(p@, 10)) by {
                assert(digit_value(p@[i as int], 10) is None);
            }
            return None;
        }
        let d = (c as u32 - '0' as u32) as u64;
        proof {
            assert(digit_value(p@[i as int], 10) == Some(d as int));
            assert(p@.take(i + 1).last() == p@[i as int]);
        }
        v = v * 10 + d;
        i = i + 1;
    }
    assert(p@.take(p@.len() as int) == p@);
    if v > 255 {
        return None;
    }
    Some(v)
}

/// A dotted quad's 32 bits; `None` when the text is not one.
fn parse_ipv4(text: &str) -> (r: Option<u64>)
    ensures
        r matches Some(b) ==> ipv4_bits(text@) == Some(b as int) && b < 4294967296,
        r is None ==> ipv4_bits(text@) is None,
{
    let cs = chars_of(text);
    let parts = split_on(cs.as_slice(), '.');
    if parts.len() != 4 {
        return None;
    }
    let a = match parse_octet(parts[0].as_slice()) {
        Some(x) => x,
        None => return None,
    };
    let b = match parse_octet(parts[1].as_slice()) {
        Some(x) => x,
        None => return None,
    };
    let c = match parse_octet(parts[2].as_slice()) {
        Some(x) => x,
        None => return None,
    };
    let d = match parse_octet(parts[3].as_slice()) {
        Some(x) => x,
        None => return None,
    };
    Some(a * 16777216 + b * 65536 + c * 256 + d)
}

/// Two to the power `k`.
pub open spec fn p2(k: nat) -> nat
    decreases k,
{
    if k == 0 {
        1
    } else {
        2 * p2((k - 1) as nat)
    }
}

/// The netmask with `n` leading one bits.
pub open spec fn mask_bits(n: int) -> int {
    p2(32) - p2((32 - n) as nat)
}

proof fn lemma_p2_pos(k: nat)
    ensures
        p2(k) >= 1,
    decreases k,
{
    if k > 0 {
        lemma_p2_pos((k - 1) as nat);
    }
}

proof fn lemma_p2_grows(a: nat, b: nat)
    requires
        a < b,
    ensures
        p2(a) < p2(b),
    decreases b,
{
    lemma_p2_pos(a);
    if b > a + 1 {
        lemma_p2_grows(a, (b - 1) as nat);
    }
}

proof fn lemma_prefix_of_mask(bits: int, n: int)
    requires
        0 <= n <= 32,
        bits == mask_bits(n),
    ensures
        prefix_of_bits(bits) == Some(n as u8),
{
    let k = choose|k: int| 0 <= k <= 32 && bits == mask_bits(k);
    assert(k == n) by {
        if k < n {
            lemma_p2_grows((32 - n) as nat, (32 - k) as nat);
        } else if k > n {
            lemma_p2_grows((32 - k) as nat, (32 - n) as nat);
        }
    }
}

/// The prefix length of a contiguous netmask.
pub open spec fn prefix_of_bits(bits: int) -> Option<u8> {
    if exists|n: int| 0 <= n <= 32 && bits == mask_bits(n) {
        Some((choose|n: int| 0 <= n <= 32 && bits == mask_bits(n)) as u8)
    } else {
        None
    }
}

/// A dotted mask's prefix length; `None` when not an address or not
/// contiguous.
pub open spec fn mask_prefix(mask: Seq<char>) -> Option<u8> {
    match ipv4_bits(mask) {
        Some(bits) => prefix_of_bits(bits),
        None => None,
    }
}

/// A dotted mask to a prefix length; `None` when not contiguous.
pub fn mask_to_prefix(mask: &str) -> (r: Option<u8>)
    ensures
        r == mask_prefix(mask@),
{
    let bits = match parse_ipv4(mask) {
        Some(b) => b,
        None => return None,
    };
    let mut n: u64 = 0;
    let mut low: u64 = 4294967296;
    assert(p2(32) == 4294967296) by {
        reveal_with_fuel(p2, 33);
    }
    while n <= 32
        invariant
            0 <= n <= 33,
            ipv4_bits(mask@) == Some(bits as int),
            p2(32) == 4294967296,
            1 <= low <= 4294967296,
            n <= 32 ==> low as int == p2((32 - n) as nat),
            forall|k: int| 0 <= k < n ==> bits as int != mask_bits(k),
        decreases 33 - n,
    {
        if bits == 4294967296 - low {
            proof {
                lemma_prefix_of_mask(bits as int, n as int);
            }
            return Some(n as u8);
        }
        if n < 32 {
            assert(p2((32 - n) as nat) == 2 * p2((32 - n - 1) as nat));
            proof {
                lemma_p2_pos((32 - n - 1) as nat);
            }
            low = low / 2;
        }
        n = n + 1;
    }
    None
}

/// Whether a token is all ASCII letters (a `netstat` flags column).
pub open spec fn is_flags(t: Seq<char>) -> bool {
    t.len() > 0 && forall|i: int| 0 <= i < t.len() ==> ('a' <= #[trigger] t[i] <= 'z' || 'A' <= t[i] <= 'Z')
}

/// Whether a token is all ASCII digits.
pub open spec fn is_number(t: Seq<char>) -> bool {
    t.len() > 0 && forall|i: int| 0 <= i < t.len() ==> '0' <= #[trigger] t[i] <= '9'
}

fn flags_token(t: &[char]) -> (r: bool)
    ensures
        r == is_flags(t@),
{
    if t.len() == 0 {
        return false;
    }
    let mut i: usize = 0;
    while i < t.len()
        invariant
            0 <= i <= t.len(),
            forall|j: int| 0 <= j < i ==> ('a' <= #[trigger] t@[j] <= 'z' || 'A' <= t@[j] <= 'Z'),
        decreases t.len() - i,
    {
        let c = t[i];
        if !(('a' <= c && c <= 'z') || ('A' <= c && c <= 'Z')) {
            return false;
        }
        i = i + 1;
    }
    true
}

fn number_token(t: &[char]) -> (r: bool)
    ensures
        r == is_number(t@),
{
    if t.len() == 0 {
        return false;
    }
    let mut i: usize = 0;
    while i < t.len()
        invariant
            0 <= i <= t.len(),
            forall|j: int| 0 <= j < i ==> '0' <= #[trigger] t@[j] <= '9',
        decreases t.len() - i,
    {
        let c = t[i];
        if !('0' <= c && c <= '9') {
            return false;
        }
        i = i + 1;
    }
    true
}

/// The route kind `netstat` flags give: `D` dynamic, `G` static, else an
/// interface route.
pub open spec fn kind_of_flags(flags: Seq<char>) -> RouteKind {
    if flags.contains('D') {
        RouteKind::Dynamic
    } else if flags.contains('G') {
        RouteKind::Static
    } else {
        RouteKind::Interface
    }
}

/// An IPv4 destination: `default`, else `dest/prefix` (32 when the mask
/// is not contiguous).
pub open spec fn v4_destination(dest: Seq<char>, mask: Seq<char>) -> Seq<char> {
    if dest == "default"@ || (dest == "0.0.0.0"@ && mask == "0.0.0.0"@) {
        "default"@
    } else {
        dest + seq!['/'] + dec(match mask_prefix(mask) {
            Some(p) => p as nat,
            None => 32nat,
        })
    }
}

/// An IPv6 destination: `default`, as given with a prefix, else `/128`.
pub open spec fn v6_destination(dest: Seq<char>) -> Seq<char> {
    if dest == "default"@ || dest == "::/0"@ {
        "default"@
    } else if dest.contains('/') {
        dest
    } else {
        dest + "/128"@
    }
}

/// What the contracts see of a route.
pub struct RouteView {
    /// Destination.
    pub destination: Seq<char>,
    /// Gateway.
    pub gateway: Option<Seq<char>>,
    /// Family.
    pub family: AddressFamily,
    /// Interface.
    pub interface: Option<Seq<char>>,
    /// Flags.
    pub flags: Option<Seq<char>>,
    /// Origin.
    pub kind: RouteKind,
    /// Persistent.
    pub persistent: bool,
}

impl View for RouteInfo {
    type V = RouteView;

    open spec fn view(&self) -> RouteView {
        RouteView {
            destination: self.destination@,
            gateway: opt_view(self.gateway),
            family: self.family,
            interface: opt_view(self.interface),
            flags: opt_view(self.flags),
            kind: self.kind,
            persistent: self.persistent,
        }
    }
}

/// The first token among `rest` that is a flags column.
pub open spec fn flags_in(rest: Seq<Seq<char>>) -> Option<Seq<char>> {
    match first_where(rest, |t: Seq<char>| is_flags(t)) {
        Some(i) => Some(rest[i]),
        None => None,
    }
}

/// The first token among `rest` that is neither flags nor a number.
pub open spec fn interface_in(rest: Seq<Seq<char>>) -> Option<Seq<char>> {
    match first_where(rest, |t: Seq<char>| !is_flags(t) && !is_number(t)) {
        Some(i) => Some(rest[i]),
        None => None,
    }
}

/// The route one `netstat -rnv` row gives.
pub open spec fn netstat_route(fam: AddressFamily, tok: Seq<Seq<char>>) -> RouteView {
    let (destination, gateway, rest) = if fam == AddressFamily::Inet {
        (v4_destination(tok[0], tok[1]), tok[2], tok.skip(3))
    } else {
        (v6_destination(tok[0]), tok[1], tok.skip(2))
    };
    RouteView {
        destination,
        gateway: Some(gateway),
        family: fam,
        interface: interface_in(rest),
        flags: flags_in(rest),
        kind: match flags_in(rest) {
            Some(f) => kind_of_flags(f),
            None => RouteKind::Interface,
        },
        persistent: false,
    }
}

/// Reading `netstat -rnv` line by line: the family section and the routes
/// so far.
pub open spec fn netstat_scan(ls: Seq<Seq<char>>) -> (Option<AddressFamily>, Seq<RouteView>)
    decreases ls.len(),
{
    if ls.len() == 0 {
        (None, Seq::<RouteView>::empty())
    } else {
        let (family, routes) = netstat_scan(ls.drop_last());
        let t = trim(ls.last());
        if t.len() == 0 || starts_with(t, "-"@) || starts_with(t, "Destination"@) {
            (family, routes)
        } else if contains(t, "IPv4"@) {
            (Some(AddressFamily::Inet), routes)
        } else if contains(t, "IPv6"@) {
            (Some(AddressFamily::Inet6), routes)
        } else {
            match family {
                None => (family, routes),
                Some(fam) => {
                    let tok = split_ws(t);
                    if (fam == AddressFamily::Inet && tok.len() >= 3) || (fam == AddressFamily::Inet6 && tok.len() >= 2) {
                        (family, routes.push(netstat_route(fam, tok)))
                    } else {
                        (family, routes)
                    }
                },
            }
        }
    }
}

/// The routes `netstat -rnv` prints.
pub open spec fn netstat_of(out: Seq<char>) -> Seq<RouteView> {
    netstat_scan(lines(out)).1
}

/// The views of routes.
pub open spec fn route_views(v: Seq<RouteInfo>) -> Seq<RouteView> {
    v.map_values(|r: RouteInfo| r@)
}

fn string_of_chars(v: &Vec<char>) -> (s: String)
    ensures
        s@ == v@,
{
    string_from(v.as_slice())
}

fn v4_dest(d: &[char], m: &[char]) -> (r: Vec<char>)
    ensures
        r@ == v4_destination(d@, m@),
{
    if is(d, "default") || (is(d, "0.0.0.0") && is(m, "0.0.0.0")) {
        chars_of("default")
    } else {
        let mask = string_from(m);
        let p: u64 = match mask_to_prefix(mask.as_str()) {
            Some(p) => p as u64,
            None => 32,
        };
        let mut x = slice(d, 0, d.len());
        assert(d@.subrange(0, d@.len() as int) == d@);
        x.push('/');
        concat(x.as_slice(), dec_chars(p).as_slice())
    }
}

fn v6_dest(d: &[char]) -> (r: Vec<char>)
    ensures
        r@ == v6_destination(d@),
{
    assert(d@.subrange(0, d@.len() as int) == d@);
    if is(d, "default") || is(d, "::/0") {
        chars_of("default")
    } else if has_char(d, '/') {
        slice(d, 0, d.len())
    } else {
        concat(d, chars_of("/128").as_slice())
    }
}

/// The first flags column among a row's tokens from `start` on.
fn first_flags(tok: &Vec<Vec<char>>, start: usize) -> (r: Option<String>)
    requires
        start <= tok@.len(),
    ensures
        opt_view(r) == flags_in(views(tok@).skip(start as int)),
{
    let ghost rest = views(tok@).skip(start as int);
    let ghost pred = |t: Seq<char>| is_flags(t);
    let mut i: usize = start;
    while i < tok.len()
        invariant
            start <= i <= tok@.len(),
            rest == views(tok@).skip(start as int),
            pred == (|t: Seq<char>| is_flags(t)),
            forall|j: int| 0 <= j < i - start ==> !pred(rest[j]),
        decreases tok.len() - i,
    {
        assert(rest[i - start] == tok@[i as int]@);
        if flags_token(tok[i].as_slice()) {
            proof { lemma_first_where(rest, pred, i - start); }
            return Some(string_of_chars(&tok[i]));
        }
        i = i + 1;
    }
    proof { lemma_none_where(rest, pred); }
    None
}

/// The first token from `start` on that is neither flags nor a number.
fn first_interface(tok: &Vec<Vec<char>>, start: usize) -> (r: Option<String>)
    requires
        start <= tok@.len(),
    ensures
        opt_view(r) == interface_in(views(tok@).skip(start as int)),
{
    let ghost rest = views(tok@).skip(start as int);
    let ghost pred = |t: Seq<char>| !is_flags(t) && !is_number(t);
    let mut i: usize = start;
    while i < tok.len()
        invariant
            start <= i <= tok@.len(),
            rest == views(tok@).skip(start as int),
            pred == (|t: Seq<char>| !is_flags(t) && !is_number(t)),
            forall|j: int| 0 <= j < i - start ==> !pred(rest[j]),
        decreases tok.len() - i,
    {
        assert(rest[i - start] == tok@[i as int]@);
        if !flags_token(tok[i].as_slice()) && !number_token(tok[i].as_slice()) {
            proof { lemma_first_where(rest, pred, i - start); }
            return Some(string_of_chars(&tok[i]));
        }
        i = i + 1;
    }
    proof { lemma_none_where(rest, pred); }
    None
}

fn route_kind(flags: &Option<String>) -> (k: RouteKind)
    ensures
        k == match opt_view(*flags) {
            Some(f) => kind_of_flags(f),
            None => RouteKind::Interface,
        },
{
    match flags {
        Some(f) => {
            let fc = chars_of(f.as_str());
            if has_char(fc.as_slice(), 'D') {
                RouteKind::Dynamic
            } else if has_char(fc.as_slice(), 'G') {
                RouteKind::Static
            } else {
                RouteKind::Interface
            }
        },
        None => RouteKind::Interface,
    }
}

/// The route for one `netstat` row.
fn route_of_tokens(fam: AddressFamily, tok: &Vec<Vec<char>>) -> (r: RouteInfo)
    requires
        fam == AddressFamily::Inet ==> tok@.len() >= 3,
        fam == AddressFamily::Inet6 ==> tok@.len() >= 2,
    ensures
        r@ == netstat_route(fam, views(tok@)),
{
    let (destination, gateway, start): (Vec<char>, &Vec<char>, usize) = if fam == AddressFamily::Inet {
        (v4_dest(tok[0].as_slice(), tok[1].as_slice()), &tok[2], 3)
    } else {
        (v6_dest(tok[0].as_slice()), &tok[1], 2)
    };
    let flags = first_flags(tok, start);
    let interface = first_interface(tok, start);
    let kind = route_kind(&flags);
    RouteInfo {
        destination: string_from(destination.as_slice()),
        gateway: Some(string_of_chars(gateway)),
        family: fam,
        interface,
        flags,
        kind,
        persistent: false,
    }
}

/// Parse `netstat -rnv`. Persistence is not known here; see
/// `mark_persistent`.
pub fn netstat_routes(out: &str) -> (r: Vec<RouteInfo>)
    ensures
        route_views(r@) == netstat_of(out@),
{
    let c = chars_of(out);
    let ls = lines_of_text(c.as_slice());
    let mut family: Option<AddressFamily> = None;
    let mut routes: Vec<RouteInfo> = Vec::new();
    let mut i: usize = 0;
    while i < ls.len()
        invariant
            0 <= i <= ls.len(),
            views(ls@) == lines(out@),
            netstat_scan(views(ls@).take(i as int)) == (family, route_views(routes@)),
        decreases ls.len() - i,
    {
        assert(views(ls@).take(i + 1).drop_last() == views(ls@).take(i as int));
        assert(views(ls@).take(i + 1).last() == ls@[i as int]@);
        let t = trimmed(ls[i].as_slice());
        if t.len() == 0 || has_prefix(t.as_slice(), "-") || has_prefix(t.as_slice(), "Destination") {
        } else if has(t.as_slice(), "IPv4") {
            family = Some(AddressFamily::Inet);
        } else if has(t.as_slice(), "IPv6") {
            family = Some(AddressFamily::Inet6);
        } else {
            match family {
                None => {},
                Some(fam) => {
                    let tok = words_of(t.as_slice());
                    if (fam == AddressFamily::Inet && tok.len() >= 3) || (fam == AddressFamily::Inet6 && tok.len() >= 2) {
                        let ghost before = route_views(routes@);
                        let route = route_of_tokens(fam, &tok);
                        routes.push(route);
                        assert(route_views(routes@) == before.push(route@));
                    }
                },
            }
        }
        i = i + 1;
    }
    assert(views(ls@).take(ls.len() as int) == views(ls@));
    routes
}

/// One line of `route -p show`.
#[derive(Debug, Clone, PartialEq, Eq)]
pub struct PersistentRoute {
    /// Family.
    pub family: AddressFamily,
    /// Destination, normalised like `netstat_routes`.
    pub destination: String,
    /// Gateway.
    pub gateway: String,
}

/// What reading a `route -p show` line's words has gathered.
pub struct RouteWords {
    /// `-inet` or `-inet6`, when given.
    pub family: Option<AddressFamily>,
    /// The word after the last `-netmask`.
    pub netmask: Option<Seq<char>>,
    /// `-host` given.
    pub host: bool,
    /// `add` given.
    pub is_add: bool,
    /// The other words, in order.
    pub positional: Seq<Seq<char>>,
}

/// Reading a `route -p show` line's words from the front; `-netmask`,
/// `-ifp`, and `-ifa` take the next word.
pub open spec fn route_words(t: Seq<Seq<char>>, st: RouteWords) -> RouteWords
    decreases t.len(),
{
    if t.len() == 0 {
        st
    } else {
        let x = t[0];
        if x == "-host"@ {
            route_words(t.drop_first(), RouteWords { host: true, ..st })
        } else if x == "-inet"@ {
            route_words(t.drop_first(), RouteWords { family: Some(AddressFamily::Inet), ..st })
        } else if x == "-inet6"@ {
            route_words(t.drop_first(), RouteWords { family: Some(AddressFamily::Inet6), ..st })
        } else if x == "-netmask"@ {
            if t.len() >= 2 {
                route_words(t.skip(2), RouteWords { netmask: Some(t[1]), ..st })
            } else {
                RouteWords { netmask: None, ..st }
            }
        } else if x == "-ifp"@ || x == "-ifa"@ {
            if t.len() >= 2 {
                route_words(t.skip(2), st)
            } else {
                st
            }
        } else if x == "add"@ {
            route_words(t.drop_first(), RouteWords { is_add: true, ..st })
        } else if starts_with(x, "-"@) || x == "route"@ {
            route_words(t.drop_first(), st)
        } else {
            route_words(t.drop_first(), RouteWords { positional: st.positional.push(x), ..st })
        }
    }
}

/// What the contracts see of a persistent route.
pub open spec fn persistent_view(p: PersistentRoute) -> (AddressFamily, Seq<char>, Seq<char>) {
    (p.family, p.destination@, p.gateway@)
}

/// The persistent route one `route -p show` line names, if it adds one.
pub open spec fn persistent_of(line: Seq<char>) -> Option<(AddressFamily, Seq<char>, Seq<char>)> {
    let t0 = trim(line);
    let t = trim(match strip_prefix(t0, "persistent:"@) {
        Some(rest) => rest,
        None => t0,
    });
    let w = route_words(split_ws(t), RouteWords {
        family: None,
        netmask: None,
        host: false,
        is_add: false,
        positional: Seq::<Seq<char>>::empty(),
    });
    if !w.is_add || w.positional.len() < 2 {
        None
    } else {
        let gateway = w.positional[1];
        let family = match w.family {
            Some(f) => f,
            None => family_of(gateway),
        };
        let dest = w.positional[0];
        let prefix = match w.netmask {
            Some(m) => mask_prefix(m),
            None => None,
        };
        let destination = if dest == "default"@ || dest.contains('/') {
            dest
        } else if prefix is Some {
            dest + seq!['/'] + dec(prefix.unwrap() as nat)
        } else if w.host || family == AddressFamily::Inet6 {
            dest + seq!['/'] + dec(if family == AddressFamily::Inet { 32nat } else { 128nat })
        } else {
            dest
        };
        Some((family, destination, gateway))
    }
}

/// The persistent route one line of `route -p show` names.
#[verifier::rlimit(60)]
pub fn persistent_route(line: &str) -> (r: Option<PersistentRoute>)
    ensures
        r matches Some(p) ==> persistent_of(line@) == Some(persistent_view(p)),
        r is None ==> persistent_of(line@) is None,
{
    let c = chars_of(line);
    let t0 = trimmed(c.as_slice());
    let t1 = match without_prefix(t0.as_slice(), "persistent:") {
        Some(rest) => rest,
        None => t0,
    };
    let t = trimmed(t1.as_slice());
    let tok = words_of(t.as_slice());
    let ghost tv = views(tok@);
    let ghost init = RouteWords {
        family: None,
        netmask: None,
        host: false,
        is_add: false,
        positional: Seq::<Seq<char>>::empty(),
    };
    let mut family: Option<AddressFamily> = None;
    let mut netmask: Option<String> = None;
    let mut host = false;
    let mut is_add = false;
    let mut positional: Vec<Vec<char>> = Vec::new();
    let mut i: usize = 0;
    let mut stopped = false;
    assert(tv.skip(0) == tv);
    assert(views(positional@) == Seq::<Seq<char>>::empty());
    while i < tok.len() && !stopped
        invariant
            0 <= i <= tok@.len(),
            tv == views(tok@),
            route_words(tv, init) == (if stopped {
                RouteWords { family, netmask: opt_view(netmask), host, is_add, positional: views(positional@) }
            } else {
                route_words(tv.skip(i as int), RouteWords { family, netmask: opt_view(netmask), host, is_add, positional: views(positional@) })
            }),
        decreases tok.len() - i, if stopped { 0int } else { 1int },
    {
        let ghost st = RouteWords { family, netmask: opt_view(netmask), host, is_add, positional: views(positional@) };
        let ghost rest = tv.skip(i as int);
        assert(rest[0] == tok@[i as int]@);
        assert(rest.drop_first() == tv.skip(i + 1));
        let x = &tok[i];
        if is(x.as_slice(), "-host") {
            host = true;
            i = i + 1;
        } else if is(x.as_slice(), "-inet") {
            family = Some(AddressFamily::Inet);
            i = i + 1;
        } else if is(x.as_slice(), "-inet6") {
            family = Some(AddressFamily::Inet6);
            i = i + 1;
        } else if is(x.as_slice(), "-netmask") {
            if i + 1 < tok.len() {
                assert(rest[1] == tok@[i + 1]@);
                assert(rest.skip(2) == tv.skip(i + 2));
                netmask = Some(string_of_chars(&tok[i + 1]));
                i = i + 2;
            } else {
                netmask = None;
                stopped = true;
            }
        } else if is(x.as_slice(), "-ifp") || is(x.as_slice(), "-ifa") {
            if i + 1 < tok.len() {
                assert(rest.skip(2) == tv.skip(i + 2));
                i = i + 2;
            } else {
                stopped = true;
            }
        } else if is(x.as_slice(), "add") {
            is_add = true;
            i = i + 1;
        } else if has_prefix(x.as_slice(), "-") || is(x.as_slice(), "route") {
            i = i + 1;
        } else {
            let ghost before = views(positional@);
            let w = slice(x.as_slice(), 0, x.len());
            assert(x@.subrange(0, x@.len() as int) == x@);
            positional.push(w);
            assert(views(positional@) == before.push(x@));
            i = i + 1;
        }
    }
    proof {
        if !stopped {
            assert(tv.skip(i as int).len() == 0);
        }
    }
    if !is_add || positional.len() < 2 {
        return None;
    }
    let gateway = string_from(positional[1].as_slice());
    let fam = match family {
        Some(f) => f,
        None => AddressFamily::of(gateway.as_str()),
    };
    let dest = &positional[0];
    let prefix = match &netmask {
        Some(m) => mask_to_prefix(m.as_str()),
        None => None,
    };
    let destination: Vec<char> = if is(dest.as_slice(), "default") || has_char(dest.as_slice(), '/') {
        slice(dest.as_slice(), 0, dest.len())
    } else if prefix.is_some() {
        let mut x = slice(dest.as_slice(), 0, dest.len());
        x.push('/');
        concat(x.as_slice(), dec_chars(prefix.unwrap() as u64).as_slice())
    } else if host || fam == AddressFamily::Inet6 {
        let bits: u64 = if fam == AddressFamily::Inet { 32 } else { 128 };
        let mut x = slice(dest.as_slice(), 0, dest.len());
        x.push('/');
        concat(x.as_slice(), dec_chars(bits).as_slice())
    } else {
        slice(dest.as_slice(), 0, dest.len())
    };
    assert(dest@.subrange(0, dest@.len() as int) == dest@);
    Some(PersistentRoute { family: fam, destination: string_from(destination.as_slice()), gateway })
}

/// The persistent routes `route -p show` lists, in order.
pub open spec fn persistent_list(ls: Seq<Seq<char>>) -> Seq<(AddressFamily, Seq<char>, Seq<char>)>
    decreases ls.len(),
{
    if ls.len() == 0 {
        Seq::<(AddressFamily, Seq<char>, Seq<char>)>::empty()
    } else {
        match persistent_of(ls.last()) {
            Some(p) => persistent_list(ls.drop_last()).push(p),
            None => persistent_list(ls.drop_last()),
        }
    }
}

/// The views of persistent routes.
pub open spec fn persistent_views(v: Seq<PersistentRoute>) -> Seq<(AddressFamily, Seq<char>, Seq<char>)> {
    v.map_values(|p: PersistentRoute| persistent_view(p))
}

/// Parse `route -p show`.
pub fn persistent_routes(out: &str) -> (r: Vec<PersistentRoute>)
    ensures
        persistent_views(r@) == persistent_list(lines(out@)),
{
    let c = chars_of(out);
    let ls = lines_of_text(c.as_slice());
    let mut v: Vec<PersistentRoute> = Vec::new();
    let mut i: usize = 0;
    while i < ls.len()
        invariant
            0 <= i <= ls.len(),
            views(ls@) == lines(out@),
            persistent_views(v@) == persistent_list(views(ls@).take(i as int)),
        decreases ls.len() - i,
    {
        assert(views(ls@).take(i + 1).drop_last() == views(ls@).take(i as int));
        assert(views(ls@).take(i + 1).last() == ls@[i as int]@);
        let line = string_from(ls[i].as_slice());
        match persistent_route(line.as_str()) {
            Some(p) => {
                let ghost before = persistent_views(v@);
                v.push(p);
                assert(persistent_views(v@) == before.push(persistent_view(p)));
            },
            None => {},
        }
        i = i + 1;
    }
    assert(views(ls@).take(ls.len() as int) == views(ls@));
    v
}

/// Whether `route -p show` lists a route.
pub open spec fn listed(r: RouteView, persistent: Seq<(AddressFamily, Seq<char>, Seq<char>)>) -> bool {
    exists|i: int| 0 <= i < persistent.len() && persistent[i].0 == r.family
        && persistent[i].1 == r.destination && r.gateway == Some(persistent[i].2)
}

/// A route as `mark_persistent` leaves it: a static one is persistent
/// exactly when it is listed.
pub open spec fn marked(r: RouteView, persistent: Seq<(AddressFamily, Seq<char>, Seq<char>)>) -> RouteView {
    if r.kind == RouteKind::Static {
        RouteView { persistent: listed(r, persistent), ..r }
    } else {
        r
    }
}

fn copy_route(r: &RouteInfo, persistent: bool) -> (c: RouteInfo)
    ensures
        c@ == (RouteView { persistent, ..r@ }),
{
    RouteInfo {
        destination: r.destination.clone(),
        gateway: opt_clone(&r.gateway),
        family: r.family,
        interface: opt_clone(&r.interface),
        flags: opt_clone(&r.flags),
        kind: r.kind,
        persistent,
    }
}

/// Flag the static routes that `route -p show` also lists.
pub fn mark_persistent(routes: &mut Vec<RouteInfo>, persistent: &[PersistentRoute])
    ensures
        final(routes)@.len() == old(routes)@.len(),
        forall|i: int| 0 <= i < old(routes)@.len() ==> (#[trigger] final(routes)@[i])@ == marked(old(routes)@[i]@, persistent_views(persistent@)),
{
    let ghost pv = persistent_views(persistent@);
    let mut out: Vec<RouteInfo> = Vec::new();
    let mut i: usize = 0;
    while i < routes.len()
        invariant
            0 <= i <= routes@.len(),
            routes@ == old(routes)@,
            pv == persistent_views(persistent@),
            out@.len() == i,
            forall|k: int| 0 <= k < i ==> (#[trigger] out@[k])@ == marked(routes@[k]@, pv),
        decreases routes@.len() - i,
    {
        let r = &routes[i];
        if r.kind == RouteKind::Static {
            let mut found = false;
            let mut j: usize = 0;
            while j < persistent.len()
                invariant
                    0 <= j <= persistent@.len(),
                    pv == persistent_views(persistent@),
                    found == exists|q: int| 0 <= q < j && pv[q].0 == r@.family && pv[q].1 == r@.destination
                        && r@.gateway == Some(pv[q].2),
                decreases persistent@.len() - j,
            {
                let p = &persistent[j];
                let same_gw = match &r.gateway {
                    Some(g) => *g == p.gateway,
                    None => false,
                };
                if p.family == r.family && p.destination == r.destination && same_gw {
                    assert(pv[j as int].0 == r@.family && pv[j as int].1 == r@.destination && r@.gateway == Some(pv[j as int].2));
                    found = true;
                }
                j = j + 1;
            }
            out.push(copy_route(r, found));
        } else {
            out.push(copy_route(r, r.persistent));
        }
        i = i + 1;
    }
    *routes = out;
}

} // verus!
