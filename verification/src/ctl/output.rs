//! How the client shows values in tables and key/value blocks.
use vstd::prelude::*;
use crate::common::shell::string_views;
use crate::ctl::json::field_views;
use crate::text::{chars_of, concat, dec, dec_chars, string_from};

verus! {

/// A text or `-`.
pub open spec fn shown_opt(s: Option<Seq<char>>) -> Seq<char> {
    match s {
        Some(t) => t,
        None => "-"@,
    }
}

/// A string or `-`.
pub fn opt(s: Option<&str>) -> (r: String)
    ensures
        r@ == shown_opt(match s { Some(t) => Some(t@), None => None }),
{
    match s {
        Some(t) => t.to_owned(),
        None => "-".to_owned(),
    }
}

/// A percentage or `-`.
pub open spec fn shown_pct(v: Option<u32>) -> Seq<char> {
    match v {
        Some(p) => dec(p as nat) + "%"@,
        None => "-"@,
    }
}

/// A percentage or `-`.
pub fn pct(v: Option<u32>) -> (r: String)
    ensures
        r@ == shown_pct(v),
{
    match v {
        Some(p) => string_from(concat(dec_chars(p as u64).as_slice(), chars_of("%").as_slice()).as_slice()),
        None => "-".to_owned(),
    }
}

/// `1024` to the power `u`.
pub open spec fn pow1024(u: nat) -> nat
    decreases u,
{
    if u == 0 { 1 } else { 1024 * pow1024((u - 1) as nat) }
}

/// The unit a size is shown in: the largest of B, KiB, MiB, GiB, TiB that
/// is not more than the size.
pub open spec fn size_unit(bytes: nat) -> nat {
    if bytes < pow1024(1) {
        0
    } else if bytes < pow1024(2) {
        1
    } else if bytes < pow1024(3) {
        2
    } else if bytes < pow1024(4) {
        3
    } else {
        4
    }
}

/// The unit's name.
pub open spec fn unit_name(u: nat) -> Seq<char> {
    if u == 0 {
        "B"@
    } else if u == 1 {
        "KiB"@
    } else if u == 2 {
        "MiB"@
    } else if u == 3 {
        "GiB"@
    } else {
        "TiB"@
    }
}

/// `n / d` rounded to the nearest integer, halves to the even one.
pub open spec fn round_half_even(n: nat, d: nat) -> nat {
    let q = n / d;
    let r = n % d;
    if 2 * r > d || (2 * r == d && q % 2 == 1) { q + 1 } else { q }
}

/// Bytes as a human size: `512 B`, or the value in its unit to one
/// decimal, as `{:.1}` prints it.
pub open spec fn shown_size(bytes: nat) -> Seq<char> {
    let u = size_unit(bytes);
    if u == 0 {
        dec(bytes) + " B"@
    } else {
        let t = round_half_even(bytes * 10, pow1024(u));
        dec(t / 10) + "."@ + dec(t % 10) + " "@ + unit_name(u)
    }
}

fn unit_of(bytes: u64) -> (r: (u64, u128))
    ensures
        r.0 as nat == size_unit(bytes as nat),
        r.1 as nat == pow1024(r.0 as nat),
        r.0 <= 4,
        r.0 > 0 ==> r.1 >= 1024,
        r.0 == 0 ==> r.1 == 1,
{
    assert(pow1024(1) == 1024) by { reveal_with_fuel(pow1024, 2); }
    assert(pow1024(2) == 1048576) by { reveal_with_fuel(pow1024, 3); }
    assert(pow1024(3) == 1073741824) by { reveal_with_fuel(pow1024, 4); }
    assert(pow1024(4) == 1099511627776) by { reveal_with_fuel(pow1024, 5); }
    if bytes < 1024 {
        assert(pow1024(0) == 1);
        (0, 1)
    } else if bytes < 1048576 {
        (1, 1024)
    } else if bytes < 1073741824 {
        (2, 1048576)
    } else if bytes < 1099511627776 {
        (3, 1073741824)
    } else {
        (4, 1099511627776)
    }
}

/// Bytes as a human size: plain bytes below a KiB, else the value in the
/// largest unit up to TiB that it reaches, to one decimal with halves
/// rounded to even.
pub fn size(bytes: u64) -> (r: String)
    ensures
        r@ == shown_size(bytes as nat),
{
    let (u, d) = unit_of(bytes);
    if u == 0 {
        return string_from(concat(dec_chars(bytes).as_slice(), chars_of(" B").as_slice()).as_slice());
    }
    let n: u128 = bytes as u128 * 10;
    let q: u128 = n / d;
    let rem: u128 = n % d;
    let t: u128 = if 2 * rem > d || (2 * rem == d && q % 2 == 1) { q + 1 } else { q };
    assert(t <= 184467440737095516160);
    let whole: u64 = (t / 10) as u64;
    let tenth: u64 = (t % 10) as u64;
    let name = if u == 1 { "KiB" } else if u == 2 { "MiB" } else if u == 3 { "GiB" } else { "TiB" };
    let a = concat(dec_chars(whole).as_slice(), chars_of(".").as_slice());
    let b = concat(a.as_slice(), dec_chars(tenth).as_slice());
    let c = concat(b.as_slice(), chars_of(" ").as_slice());
    string_from(concat(c.as_slice(), chars_of(name).as_slice()).as_slice())
}

/// Seconds as `3d 4h 5m`: days and hours shown only when there are any
/// (hours whenever days are).
pub open spec fn shown_duration(secs: nat) -> Seq<char> {
    let d = secs / 86400;
    let h = (secs % 86400) / 3600;
    let m = (secs % 3600) / 60;
    if d == 0 && h == 0 {
        dec(m) + "m"@
    } else if d == 0 {
        dec(h) + "h "@ + dec(m) + "m"@
    } else {
        dec(d) + "d "@ + dec(h) + "h "@ + dec(m) + "m"@
    }
}

/// Seconds as `3d 4h 5m`.
pub fn duration(secs: u64) -> (r: String)
    ensures
        r@ == shown_duration(secs as nat),
{
    let d = secs / 86400;
    let rem = secs % 86400;
    let h = rem / 3600;
    let rem2 = rem % 3600;
    let m = rem2 / 60;
    assert(rem2 == secs % 3600) by (nonlinear_arith)
        requires rem == secs % 86400, rem2 == rem % 3600;
    let mm = concat(dec_chars(m).as_slice(), chars_of("m").as_slice());
    if d == 0 && h == 0 {
        return string_from(mm.as_slice());
    }
    let hh = concat(dec_chars(h).as_slice(), chars_of("h ").as_slice());
    let hm = concat(hh.as_slice(), mm.as_slice());
    if d == 0 {
        return string_from(hm.as_slice());
    }
    let dd = concat(dec_chars(d).as_slice(), chars_of("d ").as_slice());
    string_from(concat(dd.as_slice(), hm.as_slice()).as_slice())
}

/// `n` spaces.
pub open spec fn spaces(n: nat) -> Seq<char> {
    Seq::new(n, |i: int| ' ')
}

/// `a - b`, or nothing when `b` is larger.
pub open spec fn less(a: nat, b: nat) -> nat {
    if a > b { (a - b) as nat } else { 0 }
}

/// The larger of two.
pub open spec fn larger(a: nat, b: nat) -> nat {
    if a > b { a } else { b }
}

/// The longest key of key/value pairs, in characters.
pub open spec fn key_width(ps: Seq<(Seq<char>, Seq<char>)>) -> nat
    decreases ps.len(),
{
    if ps.len() == 0 { 0 } else { larger(key_width(ps.drop_last()), ps.last().0.len()) }
}

/// One key/value line: the key padded to `width`, two spaces, the value.
pub open spec fn kv_line(p: (Seq<char>, Seq<char>), width: nat) -> Seq<char> {
    p.0 + spaces(less(width, p.0.len())) + "  "@ + p.1
}

/// Key/value lines with the values aligned after the longest key.
pub open spec fn kv_lines(ps: Seq<(Seq<char>, Seq<char>)>) -> Seq<Seq<char>> {
    ps.map_values(|p: (Seq<char>, Seq<char>)| kv_line(p, key_width(ps)))
}

fn push_chars(out: &mut Vec<char>, t: &[char])
    ensures
        final(out)@ == old(out)@ + t@,
{
    let ghost start = out@;
    let mut i: usize = 0;
    while i < t.len()
        invariant
            0 <= i <= t@.len(),
            out@ == start + t@.take(i as int),
        decreases t@.len() - i,
    {
        out.push(t[i]);
        assert(t@.take(i + 1) == t@.take(i as int).push(t@[i as int]));
        i = i + 1;
    }
    assert(t@.take(t@.len() as int) == t@);
}

fn push_spaces(out: &mut Vec<char>, n: usize)
    ensures
        final(out)@ == old(out)@ + spaces(n as nat),
{
    let ghost start = out@;
    let mut i: usize = 0;
    while i < n
        invariant
            0 <= i <= n,
            out@ == start + spaces(i as nat),
        decreases n - i,
    {
        out.push(' ');
        assert(spaces((i + 1) as nat) == spaces(i as nat).push(' '));
        i = i + 1;
    }
}

fn char_count(s: &String) -> (r: usize)
    ensures
        r == s@.len(),
{
    chars_of(s.as_str()).len()
}

/// Key/value lines with the values aligned after the longest key.
pub fn kv_text(ps: &Vec<(String, String)>) -> (r: Vec<String>)
    ensures
        string_views(r@) == kv_lines(field_views(ps@)),
{
    let ghost fv = field_views(ps@);
    let mut width: usize = 0;
    let mut i: usize = 0;
    while i < ps.len()
        invariant
            0 <= i <= ps@.len(),
            fv == field_views(ps@),
            width == key_width(fv.take(i as int)),
        decreases ps@.len() - i,
    {
        assert(fv.take(i + 1).drop_last() == fv.take(i as int));
        let k = char_count(&ps[i].0);
        if k > width {
            width = k;
        }
        i = i + 1;
    }
    assert(fv.take(ps@.len() as int) == fv);
    let mut out: Vec<String> = Vec::new();
    let mut j: usize = 0;
    while j < ps.len()
        invariant
            0 <= j <= ps@.len(),
            fv == field_views(ps@),
            width == key_width(fv),
            string_views(out@) == kv_lines(fv).take(j as int),
        decreases ps@.len() - j,
    {
        let mut line: Vec<char> = chars_of(ps[j].0.as_str());
        let k = line.len();
        push_spaces(&mut line, if width > k { width - k } else { 0 });
        push_chars(&mut line, chars_of("  ").as_slice());
        push_chars(&mut line, chars_of(ps[j].1.as_str()).as_slice());
        let ghost before = string_views(out@);
        out.push(string_from(line.as_slice()));
        assert(string_views(out@) =~= before.push(kv_lines(fv)[j as int]));
        assert(kv_lines(fv).take(j + 1) =~= kv_lines(fv).take(j as int).push(kv_lines(fv)[j as int]));
        j = j + 1;
    }
    assert(kv_lines(fv).take(ps@.len() as int) =~= kv_lines(fv));
    out
}

/// The widest cell of column `i` over the rows, in characters.
pub open spec fn rows_width(rows: Seq<Seq<Seq<char>>>, i: int) -> nat
    decreases rows.len(),
{
    if rows.len() == 0 {
        0
    } else {
        larger(rows_width(rows.drop_last(), i), if i < rows.last().len() { rows.last()[i].len() } else { 0 })
    }
}

/// The width of each headed column: its widest cell, header included.
/// Cells past the headers set no width.
pub open spec fn col_widths(headers: Seq<Seq<char>>, rows: Seq<Seq<Seq<char>>>) -> Seq<nat> {
    Seq::new(headers.len(), |i: int| larger(headers[i].len(), rows_width(rows, i)))
}

/// The width of column `i`, or none past the headed columns.
pub open spec fn width_at(widths: Seq<nat>, i: int) -> nat {
    if 0 <= i < widths.len() { widths[i] } else { 0 }
}

/// The first `n` cells of a table line: cells two spaces apart, each but
/// the last padded to its column's width.
pub open spec fn line_prefix(cells: Seq<Seq<char>>, widths: Seq<nat>, n: int) -> Seq<char>
    decreases n,
{
    if n <= 0 {
        Seq::empty()
    } else {
        let c = cells[n - 1];
        line_prefix(cells, widths, n - 1) + (if n > 1 { "  "@ } else { Seq::empty() }) + c
            + (if n < cells.len() { spaces(less(width_at(widths, n - 1), c.len())) } else { Seq::empty() })
    }
}

/// One table line.
pub open spec fn table_line(cells: Seq<Seq<char>>, widths: Seq<nat>) -> Seq<char> {
    line_prefix(cells, widths, cells.len() as int)
}

/// Rows taken by their texts.
pub open spec fn rows_views(rows: Seq<Vec<String>>) -> Seq<Seq<Seq<char>>> {
    rows.map_values(|r: Vec<String>| string_views(r@))
}

/// A padded table: the header line, then one line a row.
pub open spec fn table_lines(headers: Seq<Seq<char>>, rows: Seq<Seq<Seq<char>>>) -> Seq<Seq<char>> {
    seq![table_line(headers, col_widths(headers, rows))]
        + rows.map_values(|r: Seq<Seq<char>>| table_line(r, col_widths(headers, rows)))
}

fn line_text(cells: &Vec<String>, widths: &Vec<usize>, ghost_widths: Ghost<Seq<nat>>) -> (r: String)
    requires
        widths@.len() == ghost_widths@.len(),
        forall|i: int| 0 <= i < widths@.len() ==> widths@[i] as nat == #[trigger] ghost_widths@[i],
    ensures
        r@ == table_line(string_views(cells@), ghost_widths@),
{
    let ghost cv = string_views(cells@);
    let mut line: Vec<char> = Vec::new();
    let mut i: usize = 0;
    while i < cells.len()
        invariant
            0 <= i <= cells@.len(),
            cv == string_views(cells@),
            widths@.len() == ghost_widths@.len(),
            forall|k: int| 0 <= k < widths@.len() ==> widths@[k] as nat == #[trigger] ghost_widths@[k],
            line@ == line_prefix(cv, ghost_widths@, i as int),
        decreases cells@.len() - i,
    {
        if i > 0 {
            push_chars(&mut line, chars_of("  ").as_slice());
        }
        let c = chars_of(cells[i].as_str());
        let n = c.len();
        push_chars(&mut line, c.as_slice());
        if i + 1 < cells.len() {
            let w: usize = if i < widths.len() { widths[i] } else { 0 };
            push_spaces(&mut line, if w > n { w - n } else { 0 });
        }
        proof {
            reveal_strlit("  ");
            assert(line_prefix(cv, ghost_widths@, i + 1) == line_prefix(cv, ghost_widths@, i as int)
                + (if i + 1 > 1 { "  "@ } else { Seq::empty() }) + cv[i as int]
                + (if i + 1 < cv.len() { spaces(less(width_at(ghost_widths@, i as int), cv[i as int].len())) }
                else { Seq::empty() }));
        }
        assert(line@ =~= line_prefix(cv, ghost_widths@, i + 1));
        i = i + 1;
    }
    string_from(line.as_slice())
}

/// A padded table, as `table` prints it: the header line, then one line
/// a row, columns two spaces apart.
pub fn table_text(headers: &Vec<String>, rows: &Vec<Vec<String>>) -> (r: Vec<String>)
    ensures
        string_views(r@) == table_lines(string_views(headers@), rows_views(rows@)),
{
    let ghost hv = string_views(headers@);
    let ghost rv = rows_views(rows@);
    let ghost gw = col_widths(hv, rv);
    let mut widths: Vec<usize> = Vec::new();
    let mut c: usize = 0;
    while c < headers.len()
        invariant
            0 <= c <= headers@.len(),
            hv == string_views(headers@),
            rv == rows_views(rows@),
            gw == col_widths(hv, rv),
            widths@.len() == c,
            forall|k: int| 0 <= k < c ==> widths@[k] as nat == #[trigger] gw[k],
        decreases headers@.len() - c,
    {
        let mut w: usize = char_count(&headers[c]);
        let mut j: usize = 0;
        while j < rows.len()
            invariant
                0 <= j <= rows@.len(),
                c < headers@.len(),
                hv == string_views(headers@),
                rv == rows_views(rows@),
                w as nat == larger(hv[c as int].len(), rows_width(rv.take(j as int), c as int)),
            decreases rows@.len() - j,
        {
            assert(rv.take(j + 1).drop_last() == rv.take(j as int));
            assert(rv.take(j + 1).last() == string_views(rows@[j as int]@));
            if c < rows[j].len() {
                let n = char_count(&rows[j][c]);
                if n > w {
                    w = n;
                }
            }
            j = j + 1;
        }
        assert(rv.take(rows@.len() as int) == rv);
        widths.push(w);
        c = c + 1;
    }
    let mut out: Vec<String> = Vec::new();
    out.push(line_text(headers, &widths, Ghost(gw)));
    let ghost lines = table_lines(hv, rv);
    assert(string_views(out@) =~= lines.take(1));
    let mut j: usize = 0;
    while j < rows.len()
        invariant
            0 <= j <= rows@.len(),
            hv == string_views(headers@),
            rv == rows_views(rows@),
            gw == col_widths(hv, rv),
            lines == table_lines(hv, rv),
            widths@.len() == gw.len(),
            forall|k: int| 0 <= k < widths@.len() ==> widths@[k] as nat == #[trigger] gw[k],
            string_views(out@) == lines.take(j + 1),
        decreases rows@.len() - j,
    {
        let t = line_text(&rows[j], &widths, Ghost(gw));
        let ghost before = string_views(out@);
        out.push(t);
        assert(lines[j + 1] == table_line(rv[j as int], gw));
        assert(string_views(out@) =~= before.push(lines[j + 1]));
        assert(lines.take(j + 2) =~= lines.take(j + 1).push(lines[j + 1]));
        j = j + 1;
    }
    assert(lines.take(rows@.len() as int + 1) =~= lines);
    out
}

} // verus!
