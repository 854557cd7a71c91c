//! JSON text as the client sends it: strings escaped as `serde_json`
//! writes them, objects with their members in name order.
use vstd::prelude::*;
use crate::text::{chars_of, concat, dec, dec_chars, hex2, hex_digit, string_from};

verus! {

/// One character as it stands inside a JSON string.
pub open spec fn escaped_char(c: char) -> Seq<char> {
    if c == '"' {
        seq!['\\', '"']
    } else if c == '\\' {
        seq!['\\', '\\']
    } else if c == '\n' {
        seq!['\\', 'n']
    } else if c == '\r' {
        seq!['\\', 'r']
    } else if c == '\t' {
        seq!['\\', 't']
    } else if c == '\u{8}' {
        seq!['\\', 'b']
    } else if c == '\u{c}' {
        seq!['\\', 'f']
    } else if (c as u32) < 0x20 {
        seq!['\\', 'u', '0', '0'] + hex2(c as u8)
    } else {
        seq![c]
    }
}

/// Text with each character escaped.
pub open spec fn escaped_text(s: Seq<char>) -> Seq<char>
    decreases s.len(),
{
    if s.len() == 0 {
        Seq::<char>::empty()
    } else {
        escaped_text(s.drop_last()) + escaped_char(s.last())
    }
}

/// A JSON string.
pub open spec fn jstr(s: Seq<char>) -> Seq<char> {
    seq!['"'] + escaped_text(s) + seq!['"']
}

/// A JSON boolean.
pub open spec fn jbool(b: bool) -> Seq<char> {
    if b { "true"@ } else { "false"@ }
}

/// A JSON string, or `null`.
pub open spec fn jopt(s: Option<Seq<char>>) -> Seq<char> {
    match s {
        Some(t) => jstr(t),
        None => "null"@,
    }
}

/// Rendered items joined by commas.
pub open spec fn joined_items(items: Seq<Seq<char>>) -> Seq<char>
    decreases items.len(),
{
    if items.len() == 0 {
        Seq::<char>::empty()
    } else if items.len() == 1 {
        items[0]
    } else {
        joined_items(items.drop_last()) + seq![','] + items.last()
    }
}

/// A JSON array of rendered items.
pub open spec fn jarr(items: Seq<Seq<char>>) -> Seq<char> {
    seq!['['] + joined_items(items) + seq![']']
}

/// A JSON array of strings.
pub open spec fn jstrs(items: Seq<Seq<char>>) -> Seq<char> {
    jarr(items.map_values(|s: Seq<char>| jstr(s)))
}

/// One member: the name as a string, `:`, the rendered value.
pub open spec fn member(f: (Seq<char>, Seq<char>)) -> Seq<char> {
    jstr(f.0) + seq![':'] + f.1
}

/// A JSON object of rendered members, in the order given.
pub open spec fn jobj(fields: Seq<(Seq<char>, Seq<char>)>) -> Seq<char> {
    seq!['{'] + joined_items(fields.map_values(|f: (Seq<char>, Seq<char>)| member(f))) + seq!['}']
}

/// Pairs taken by their texts.
pub open spec fn field_views(v: Seq<(String, String)>) -> Seq<(Seq<char>, Seq<char>)> {
    v.map_values(|p: (String, String)| (p.0@, p.1@))
}

fn push_all(out: &mut Vec<char>, s: &[char])
    ensures
        final(out)@ == old(out)@ + s@,
{
    let mut i: usize = 0;
    while i < s.len()
        invariant
            0 <= i <= s@.len(),
            out@ == old(out)@ + s@.take(i as int),
        decreases s@.len() - i,
    {
        out.push(s[i]);
        assert(s@.take(i + 1) == s@.take(i as int).push(s@[i as int]));
        i = i + 1;
    }
    assert(s@.take(s@.len() as int) == s@);
}

/// `s` as a JSON string.
pub fn json_str(s: &str) -> (r: String)
    ensures
        r@ == jstr(s@),
{
    let c = chars_of(s);
    let mut out: Vec<char> = Vec::new();
    out.push('"');
    let mut i: usize = 0;
    while i < c.len()
        invariant
            0 <= i <= c@.len(),
            c@ == s@,
            out@ == seq!['"'] + escaped_text(c@.take(i as int)),
        decreases c@.len() - i,
    {
        let ch = c[i];
        assert(c@.take(i + 1).drop_last() == c@.take(i as int));
        assert(c@.take(i + 1).last() == ch);
        let before = out.len();
        if ch == '"' {
            out.push('\\');
            out.push('"');
        } else if ch == '\\' {
            out.push('\\');
            out.push('\\');
        } else if ch == '\n' {
            out.push('\\');
            out.push('n');
        } else if ch == '\r' {
            out.push('\\');
            out.push('r');
        } else if ch == '\t' {
            out.push('\\');
            out.push('t');
        } else if ch == '\u{8}' {
            out.push('\\');
            out.push('b');
        } else if ch == '\u{c}' {
            out.push('\\');
            out.push('f');
        } else if (ch as u32) < 0x20 {
            let b = ch as u8;
            out.push('\\');
            out.push('u');
            out.push('0');
            out.push('0');
            out.push(hex_digit(b / 16));
            out.push(hex_digit(b % 16));
        } else {
            out.push(ch);
        }
        assert(out@ == seq!['"'] + escaped_text(c@.take(i as int)) + escaped_char(ch));
        i = i + 1;
    }
    assert(c@.take(c@.len() as int) == c@);
    out.push('"');
    string_from(out.as_slice())
}

/// `b` as JSON.
pub fn json_bool(b: bool) -> (r: &'static str)
    ensures
        r@ == jbool(b),
{
    if b { "true" } else { "false" }
}

/// A string as JSON, or `null`.
pub fn json_opt(s: &Option<String>) -> (r: String)
    ensures
        r@ == jopt(match s {
            Some(t) => Some(t@),
            None => None,
        }),
{
    match s {
        Some(t) => json_str(t.as_str()),
        None => "null".to_owned(),
    }
}

/// A number as JSON.
pub fn json_num(n: u64) -> (r: String)
    ensures
        r@ == dec(n as nat),
{
    string_from(dec_chars(n).as_slice())
}

fn join_items(items: &Vec<String>) -> (r: Vec<char>)
    ensures
        r@ == joined_items(crate::common::shell::string_views(items@)),
{
    let ghost sv = crate::common::shell::string_views(items@);
    let mut out: Vec<char> = Vec::new();
    let mut i: usize = 0;
    while i < items.len()
        invariant
            0 <= i <= items@.len(),
            sv == crate::common::shell::string_views(items@),
            out@ == joined_items(sv.take(i as int)),
        decreases items@.len() - i,
    {
        assert(sv.take(i + 1).drop_last() == sv.take(i as int));
        assert(sv.take(i + 1).last() == items@[i as int]@);
        if i > 0 {
            out.push(',');
        } else {
            assert(sv.take(1)[0] == items@[0]@);
        }
        let piece = chars_of(items[i].as_str());
        push_all(&mut out, piece.as_slice());
        i = i + 1;
    }
    assert(sv.take(items@.len() as int) == sv);
    out
}

/// Rendered items as a JSON array.
pub fn json_array(items: &Vec<String>) -> (r: String)
    ensures
        r@ == jarr(crate::common::shell::string_views(items@)),
{
    let mut out: Vec<char> = Vec::new();
    out.push('[');
    let inner = join_items(items);
    push_all(&mut out, inner.as_slice());
    out.push(']');
    string_from(out.as_slice())
}

/// Strings as a JSON array.
pub fn json_strings(items: &Vec<String>) -> (r: String)
    ensures
        r@ == jstrs(crate::common::shell::string_views(items@)),
{
    let mut rendered: Vec<String> = Vec::new();
    let mut i: usize = 0;
    while i < items.len()
        invariant
            0 <= i <= items@.len(),
            crate::common::shell::string_views(rendered@)
                == crate::common::shell::string_views(items@).take(i as int).map_values(|s: Seq<char>| jstr(s)),
        decreases items@.len() - i,
    {
        let ghost before = crate::common::shell::string_views(rendered@);
        let s = json_str(items[i].as_str());
        rendered.push(s);
        assert(crate::common::shell::string_views(rendered@) == before.push(jstr(items@[i as int]@)));
        assert(crate::common::shell::string_views(items@).take(i + 1)
            == crate::common::shell::string_views(items@).take(i as int).push(items@[i as int]@));
        i = i + 1;
    }
    assert(crate::common::shell::string_views(items@).take(items@.len() as int)
        == crate::common::shell::string_views(items@));
    json_array(&rendered)
}

/// Members, their values already rendered, as a JSON object.
pub fn json_object(fields: &Vec<(String, String)>) -> (r: String)
    ensures
        r@ == jobj(field_views(fields@)),
{
    let mut rendered: Vec<String> = Vec::new();
    let ghost fv = field_views(fields@);
    let mut i: usize = 0;
    while i < fields.len()
        invariant
            0 <= i <= fields@.len(),
            fv == field_views(fields@),
            crate::common::shell::string_views(rendered@)
                == fv.take(i as int).map_values(|f: (Seq<char>, Seq<char>)| member(f)),
        decreases fields@.len() - i,
    {
        let ghost before = crate::common::shell::string_views(rendered@);
        let k = json_str(fields[i].0.as_str());
        let a = concat(chars_of(k.as_str()).as_slice(), chars_of(":").as_slice());
        let m = string_from(concat(a.as_slice(), chars_of(fields[i].1.as_str()).as_slice()).as_slice());
        proof {
            reveal_strlit(":");
        }
        assert(fv[i as int] == (fields@[i as int].0@, fields@[i as int].1@));
        assert(m@ == member(fv[i as int]));
        rendered.push(m);
        assert(crate::common::shell::string_views(rendered@) =~= before.push(member(fv[i as int])));
        assert(fv.take(i + 1) == fv.take(i as int).push(fv[i as int]));
        i = i + 1;
    }
    assert(fv.take(fields@.len() as int) == fv);
    let inner = join_items(&rendered);
    let mut out: Vec<char> = Vec::new();
    out.push('{');
    push_all(&mut out, inner.as_slice());
    out.push('}');
    string_from(out.as_slice())
}

} // verus!
