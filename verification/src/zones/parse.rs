//! Parsers for `zoneadm` and `zonecfg` output, and the scripts that turn
//! a zone spec into zonecfg subcommands.
use vstd::prelude::*;
use crate::common::zone::{ZoneNic, ZoneState, zone_state_of};
use crate::net::parse::opt_view;
use crate::text::{
    chars_of, concat, content_lines, content_lines_of, dec, dec_chars, first_where, is, lemma_first_where,
    lemma_none_where, lower, lowered, mantissa_syntax, slice, split_char, split_on, string_from, trim, trimmed,
    views, drop_front, starts_with, has_prefix, join, joined, float_ok, float_syntax, parse_u16,
    parse_unsigned, lines, lines_of_text,
};
use crate::zfs::parse::{decimal_parts, number_end, scaled_value};
use crate::zones::types::{ZoneConfig, ZoneError, ZoneFs, ZoneSpec, ZoneSummary};
use crate::common::shell::string_views;

verus! {

/// Whether `e` is a parse error of `command` with this detail.
pub open spec fn zone_parse_error_is(e: ZoneError, command: Seq<char>, detail: Seq<char>) -> bool {
    e matches ZoneError::Parse { command: c, detail: d } && c@ == command && d@ == detail
}

/// The `:`-separated fields of a `zoneadm list -p` line.
pub open spec fn colon_fields(l: Seq<char>) -> Seq<Seq<char>> {
    split_char(l, ':')
}

/// Whether a `zoneadm list -pc` line is too short.
pub open spec fn zone_line_short() -> spec_fn(Seq<char>) -> bool {
    |l: Seq<char>| colon_fields(l).len() < 7
}

/// The lines for zones other than the global one, in order.
pub open spec fn nonglobal(ls: Seq<Seq<char>>) -> Seq<Seq<char>>
    decreases ls.len(),
{
    if ls.len() == 0 {
        Seq::<Seq<char>>::empty()
    } else if colon_fields(ls.last())[1] == "global"@ {
        nonglobal(ls.drop_last())
    } else {
        nonglobal(ls.drop_last()).push(ls.last())
    }
}

/// What a `zoneadm list -pc` row gives.
pub open spec fn zone_row_ok(z: ZoneSummary, f: Seq<Seq<char>>) -> bool {
    &&& z.name@ == f[1]
    &&& z.state == zone_state_of(f[2])
    &&& z.zonepath@ == f[3]
    &&& opt_view(z.uuid) == (if f[4].len() == 0 { None } else { Some(f[4]) })
    &&& z.brand@ == f[5]
    &&& z.exclusive_ip == (f[6] == "excl"@)
}

/// Parse `zoneadm list -pc`: `zoneid:name:state:zonepath:uuid:brand:ip-type`.
/// The global zone is left out; the first short line is the error.
pub fn zoneadm_list(out: &str) -> (r: Result<Vec<ZoneSummary>, ZoneError>)
    ensures
        r is Ok <==> first_where(content_lines(out@), zone_line_short()) is None,
        r matches Ok(v) ==> v@.len() == nonglobal(content_lines(out@)).len()
            && forall|i: int| 0 <= i < v@.len() ==> zone_row_ok(#[trigger] v@[i], colon_fields(nonglobal(content_lines(out@))[i])),
        r matches Err(e) ==> first_where(content_lines(out@), zone_line_short()) matches Some(k)
            && zone_parse_error_is(e, "zoneadm list"@, "expected 7 fields: "@ + content_lines(out@)[k]),
{
    let c = chars_of(out);
    let ls = content_lines_of(c.as_slice());
    let ghost lv = content_lines(out@);
    let ghost bad = zone_line_short();
    let mut v: Vec<ZoneSummary> = Vec::new();
    let mut i: usize = 0;
    while i < ls.len()
        invariant
            0 <= i <= ls@.len(),
            views(ls@) == lv,
            lv == content_lines(out@),
            bad == zone_line_short(),
            forall|j: int| 0 <= j < i ==> !bad(lv[j]),
            v@.len() == nonglobal(lv.take(i as int)).len(),
            forall|j: int| 0 <= j < v@.len() ==> zone_row_ok(#[trigger] v@[j], colon_fields(nonglobal(lv.take(i as int))[j])),
        decreases ls@.len() - i,
    {
        assert(lv.take(i + 1).drop_last() == lv.take(i as int));
        assert(lv.take(i + 1).last() == ls@[i as int]@);
        let f = split_on(ls[i].as_slice(), ':');
        if f.len() < 7 {
            proof {
                lemma_first_where(lv, bad, i as int);
            }
            let d = concat(chars_of("expected 7 fields: ").as_slice(), ls[i].as_slice());
            return Err(ZoneError::Parse { command: "zoneadm list".to_owned(), detail: string_from(d.as_slice()) });
        }
        proof {
            assert forall|q: int| 0 <= q < 7 implies f@[q]@ == colon_fields(ls@[i as int]@)[q] by {}
        }
        if is(f[1].as_slice(), "global") == false {
            let z = ZoneSummary {
                name: string_from(f[1].as_slice()),
                state: ZoneState::from_chars(f[2].as_slice()),
                zonepath: string_from(f[3].as_slice()),
                uuid: if f[4].len() == 0 { None } else { Some(string_from(f[4].as_slice())) },
                brand: string_from(f[5].as_slice()),
                exclusive_ip: is(f[6].as_slice(), "excl"),
            };
            v.push(z);
        }
        i = i + 1;
    }
    assert(lv.take(ls@.len() as int) == lv);
    proof {
        lemma_none_where(lv, bad);
    }
    Ok(v)
}

/// The multiplier of a zonecfg size unit, any case.
pub open spec fn zone_unit(u: Seq<char>) -> Option<int> {
    if u.len() == 0 {
        Some(1)
    } else if u == "k"@ {
        Some(1024)
    } else if u == "m"@ {
        Some(1048576)
    } else if u == "g"@ {
        Some(1073741824)
    } else if u == "t"@ {
        Some(1099511627776)
    } else {
        None
    }
}

/// `2G`, `512m`, `1073741824` in bytes: the decimal times its unit,
/// rounded to the nearest byte (halves up), capped at `u64::MAX`.
pub open spec fn zone_size(s: Seq<char>) -> Option<int> {
    let t = trim(s);
    let d = t.take(number_end(t));
    let u = lower(trim(t.skip(number_end(t))));
    match zone_unit(u) {
        Some(m) => if mantissa_syntax(d) {
            Some(scaled_value(decimal_parts(d).0, decimal_parts(d).1, m))
        } else {
            None
        },
        None => None,
    }
}

fn unit_of(u: &[char]) -> (r: Option<u64>)
    ensures
        r matches Some(m) ==> zone_unit(u@) == Some(m as int),
        r is None ==> zone_unit(u@) is None,
{
    if u.len() == 0 {
        Some(1)
    } else if is(u, "k") {
        Some(1024)
    } else if is(u, "m") {
        Some(1048576)
    } else if is(u, "g") {
        Some(1073741824)
    } else if is(u, "t") {
        Some(1099511627776)
    } else {
        None
    }
}

fn size_of_parts(d: &[char], u: &[char]) -> (r: Option<u64>)
    ensures
        r matches Some(v) ==> (match zone_unit(u@) {
            Some(m) => mantissa_syntax(d@) && scaled_value(decimal_parts(d@).0, decimal_parts(d@).1, m) == v as int,
            None => false,
        }),
        r is None ==> zone_unit(u@) is None || !mantissa_syntax(d@),
{
    let m = match unit_of(u) {
        Some(m) => m,
        None => return None,
    };
    if !crate::text::mantissa_ok(d) {
        return None;
    }
    let (a, b) = crate::zfs::parse::decimal_split(d);
    proof {
        crate::zfs::parse::lemma_parts_digits(d@);
    }
    Some(crate::zfs::parse::scaled(a.as_slice(), b.as_slice(), m))
}

/// `2G`, `512m`, `1073741824` to bytes.
pub fn size(s: &str) -> (r: Option<u64>)
    ensures
        r matches Some(v) ==> zone_size(s@) == Some(v as int),
        r is None ==> zone_size(s@) is None,
{
    let c = chars_of(s);
    let t = trimmed(c.as_slice());
    let k = crate::zfs::parse::find_number_end(t.as_slice());
    let d = slice(t.as_slice(), 0, k);
    let rest = drop_front(t.as_slice(), k);
    let u = lowered(trimmed(rest.as_slice()).as_slice());
    assert(d@ == t@.take(k as int));
    size_of_parts(d.as_slice(), u.as_slice())
}

/// A value with one pair of surrounding double quotes removed.
pub open spec fn unquoted(v: Seq<char>) -> Seq<char> {
    let t = trim(v);
    if t.len() >= 2 && t[0] == '"' && t.last() == '"' {
        t.subrange(1, t.len() - 1)
    } else {
        t
    }
}

fn unquote(v: &[char]) -> (r: Vec<char>)
    ensures
        r@ == unquoted(v@),
{
    let t = trimmed(v);
    if t.len() >= 2 && t[0] == '"' && t[t.len() - 1] == '"' {
        slice(t.as_slice(), 1, t.len() - 1)
    } else {
        t
    }
}

/// A `set key=value` line's key and unquoted value.
pub open spec fn setting_of(line: Seq<char>) -> Option<(Seq<char>, Seq<char>)> {
    match crate::text::strip_prefix(trim(line), "set "@) {
        Some(rest) => match crate::text::split_once(rest, '=') {
            Some((k, v)) => Some((trim(k), unquoted(v))),
            None => None,
        },
        None => None,
    }
}

fn setting(line: &[char]) -> (r: Option<(Vec<char>, Vec<char>)>)
    ensures
        r matches Some((k, v)) ==> setting_of(line@) == Some((k@, v@)),
        r is None ==> setting_of(line@) is None,
{
    let t = trimmed(line);
    let rest = match crate::text::without_prefix(t.as_slice(), "set ") {
        Some(r) => r,
        None => return None,
    };
    match crate::text::split_once_at(rest.as_slice(), '=') {
        Some((k, v)) => Some((trimmed(k.as_slice()), unquote(v.as_slice()))),
        None => None,
    }
}

/// A character allowed in a zone name.
pub open spec fn zone_name_char(c: char) -> bool {
    ('a' <= c <= 'z') || ('A' <= c <= 'Z') || ('0' <= c <= '9') || c == '_' || c == '.' || c == '-'
}

/// Zone names: 1 to 63 letters, digits, `_ . -`, not starting with a dot
/// or dash, and not `global`.
pub open spec fn zone_name_ok(n: Seq<char>) -> bool {
    &&& 1 <= n.len() <= 63
    &&& n[0] != '.' && n[0] != '-'
    &&& forall|i: int| 0 <= i < n.len() ==> zone_name_char(#[trigger] n[i])
    &&& n != "global"@
}

/// Zone names: letters, digits, `_ . -`, not starting with a dot or dash.
pub fn valid_zone_name(name: &str) -> (r: bool)
    ensures
        r == zone_name_ok(name@),
{
    let n = chars_of(name);
    if n.len() < 1 || n.len() > 63 {
        return false;
    }
    let c0 = n[0];
    if c0 == '.' || c0 == '-' {
        return false;
    }
    let mut i: usize = 0;
    while i < n.len()
        invariant
            0 <= i <= n@.len(),
            n@ == name@,
            forall|j: int| 0 <= j < i ==> zone_name_char(#[trigger] n@[j]),
        decreases n@.len() - i,
    {
        let c = n[i];
        if !(('a' <= c && c <= 'z') || ('A' <= c && c <= 'Z') || ('0' <= c && c <= '9') || c == '_' || c == '.' || c == '-') {
            assert(!zone_name_char(n@[i as int]));
            return false;
        }
        i = i + 1;
    }
    is(n.as_slice(), "global") == false
}


/// Attributes Mandrake owns: set on create, rewritten on update, removed
/// when absent from an update.
pub const MANAGED_ATTRS: [&'static str; 2] = ["hostname", "resolvers"];

/// Whether Mandrake owns an attribute of this name.
pub open spec fn managed_attr(k: Seq<char>) -> bool {
    k == "hostname"@ || k == "resolvers"@
}

/// Whether Mandrake owns an attribute of this name.
pub fn is_managed_attr(k: &str) -> (r: bool)
    ensures
        r == managed_attr(k@),
{
    let c = chars_of(k);
    is(c.as_slice(), "hostname") || is(c.as_slice(), "resolvers")
}

/// `true` or `false`, as `Display` prints a `bool`.
pub open spec fn bool_text(b: bool) -> Seq<char> {
    if b { "true"@ } else { "false"@ }
}

/// The lines for one `anet`.
pub open spec fn nic_lines(n: ZoneNic) -> Seq<Seq<char>> {
    seq!["add anet"@, "set linkname="@ + n.name@, "set lower-link="@ + n.over@]
        + (match n.mac {
            Some(m) => seq!["set mac-address="@ + m@],
            None => Seq::<Seq<char>>::empty(),
        })
        + (match n.vid {
            Some(v) => seq!["set vlan-id="@ + dec(v as nat)],
            None => Seq::<Seq<char>>::empty(),
        })
        + (match n.address {
            Some(a) => seq!["set allowed-address="@ + a@],
            None => Seq::<Seq<char>>::empty(),
        })
        + (match n.gateway {
            Some(g) => seq!["set defrouter="@ + g@],
            None => Seq::<Seq<char>>::empty(),
        })
        + seq!["end"@]
}

/// The lines for every `anet`, in order.
pub open spec fn nics_lines(ns: Seq<ZoneNic>) -> Seq<Seq<char>>
    decreases ns.len(),
{
    if ns.len() == 0 {
        Seq::<Seq<char>>::empty()
    } else {
        nics_lines(ns.drop_last()) + nic_lines(ns.last())
    }
}

/// The lines for one `device`.
pub open spec fn device_lines(m: Seq<char>) -> Seq<Seq<char>> {
    seq!["add device"@, "set match="@ + m, "end"@]
}

/// The lines for every `device`, in order.
pub open spec fn devices_lines(ds: Seq<String>) -> Seq<Seq<char>>
    decreases ds.len(),
{
    if ds.len() == 0 {
        Seq::<Seq<char>>::empty()
    } else {
        devices_lines(ds.drop_last()) + device_lines(ds.last()@)
    }
}

/// An `add options` line for each mount option.
pub open spec fn option_lines(os: Seq<String>) -> Seq<Seq<char>>
    decreases os.len(),
{
    if os.len() == 0 {
        Seq::<Seq<char>>::empty()
    } else {
        option_lines(os.drop_last()).push("add options "@ + os.last()@)
    }
}

/// The lines for one `fs`.
pub open spec fn fs_lines(f: ZoneFs) -> Seq<Seq<char>> {
    seq!["add fs"@, "set dir="@ + f.dir@, "set special="@ + f.special@, "set type="@ + f.type_@]
        + option_lines(f.options@) + seq!["end"@]
}

/// The lines for every `fs`, in order.
pub open spec fn fss_lines(fs: Seq<ZoneFs>) -> Seq<Seq<char>>
    decreases fs.len(),
{
    if fs.len() == 0 {
        Seq::<Seq<char>>::empty()
    } else {
        fss_lines(fs.drop_last()) + fs_lines(fs.last())
    }
}

/// The lines for the CPU and memory caps.
pub open spec fn cap_lines(cpu: Option<String>, mem: Option<u64>) -> Seq<Seq<char>> {
    (match cpu {
        Some(c) => seq!["add capped-cpu"@, "set ncpus="@ + c@, "end"@],
        None => Seq::<Seq<char>>::empty(),
    }) + (match mem {
        Some(m) => seq!["add capped-memory"@, "set physical="@ + dec(m as nat), "end"@],
        None => Seq::<Seq<char>>::empty(),
    })
}

/// The lines that add one string attribute.
pub open spec fn attr_lines(k: Seq<char>, v: Seq<char>) -> Seq<Seq<char>> {
    seq!["add attr"@, "set name="@ + k, "set type=string"@, "set value=\""@ + v + "\""@, "end"@]
}

/// The lines that rewrite an existing attribute's value.
pub open spec fn select_lines(k: Seq<char>, v: Seq<char>) -> Seq<Seq<char>> {
    seq!["select attr name="@ + k, "set value=\""@ + v + "\""@, "end"@]
}

/// The lines that add each attribute, in order.
pub open spec fn attrs_lines(ps: Seq<(String, String)>) -> Seq<Seq<char>>
    decreases ps.len(),
{
    if ps.len() == 0 {
        Seq::<Seq<char>>::empty()
    } else {
        attrs_lines(ps.drop_last()) + attr_lines(ps.last().0@, ps.last().1@)
    }
}

/// The zonecfg script that creates `spec` from nothing.
pub open spec fn create_lines(s: ZoneSpec) -> Seq<Seq<char>> {
    seq!["create -b"@, "set brand="@ + s.brand@, "set zonepath="@ + s.zonepath@,
        "set autoboot="@ + bool_text(s.autoboot), "set ip-type=exclusive"@]
        + nics_lines(s.nics@) + devices_lines(s.devices@) + fss_lines(s.fs@) + cap_lines(s.cpu_cap, s.memory_cap)
        + attrs_lines(s.attrs@) + seq!["commit"@]
}

/// Whether an attribute list names `k`.
pub open spec fn has_attr(ps: Seq<(String, String)>, k: Seq<char>) -> bool {
    exists|i: int| 0 <= i < ps.len() && #[trigger] ps[i].0@ == k
}

/// For each attribute of `spec`: rewrite it when `current` has it, else
/// add it.
pub open spec fn update_attr_lines(cur: Seq<(String, String)>, ps: Seq<(String, String)>) -> Seq<Seq<char>>
    decreases ps.len(),
{
    if ps.len() == 0 {
        Seq::<Seq<char>>::empty()
    } else {
        update_attr_lines(cur, ps.drop_last()) + (if has_attr(cur, ps.last().0@) {
            select_lines(ps.last().0@, ps.last().1@)
        } else {
            attr_lines(ps.last().0@, ps.last().1@)
        })
    }
}

/// A managed attribute's removal when `current` has it and `spec` does not.
pub open spec fn managed_removal(cur: Seq<(String, String)>, ps: Seq<(String, String)>, k: Seq<char>) -> Seq<Seq<char>> {
    if has_attr(cur, k) && !has_attr(ps, k) {
        seq!["remove attr name="@ + k]
    } else {
        Seq::<Seq<char>>::empty()
    }
}

/// The zonecfg script that brings `current` to `spec`: NICs and caps are
/// replaced wholesale, attributes rewritten or added, managed attributes
/// absent from `spec` removed.
pub open spec fn update_lines(c: ZoneConfig, s: ZoneSpec) -> Seq<Seq<char>> {
    seq!["set autoboot="@ + bool_text(s.autoboot)]
        + resource_lines(c, s)
        + update_attr_lines(c.attrs@, s.attrs@)
        + managed_removal(c.attrs@, s.attrs@, "hostname"@)
        + managed_removal(c.attrs@, s.attrs@, "resolvers"@)
        + seq!["commit"@]
}

/// The resources an update replaces wholesale: each kind `current` has is
/// removed, then `spec`'s are added.
pub open spec fn resource_lines(c: ZoneConfig, s: ZoneSpec) -> Seq<Seq<char>> {
    replaced("remove -F anet"@, c.nics@.len() > 0, nics_lines(s.nics@))
        + replaced("remove -F device"@, c.devices@.len() > 0, devices_lines(s.devices@))
        + replaced("remove -F fs"@, c.fs@.len() > 0, fss_lines(s.fs@))
        + caps_update(c, s)
}

/// A removal when `present`, then the new lines.
pub open spec fn replaced(removal: Seq<char>, present: bool, lines: Seq<Seq<char>>) -> Seq<Seq<char>> {
    (if present { seq![removal] } else { Seq::<Seq<char>>::empty() }) + lines
}

fn push_line(out: &mut Vec<String>, s: String)
    ensures
        string_views(final(out)@) == string_views(old(out)@).push(s@),
{
    let ghost before = string_views(out@);
    let ghost sv = s@;
    out.push(s);
    assert(string_views(out@) == before.push(sv));
}

fn text2(a: &str, b: &str) -> (r: String)
    ensures
        r@ == a@ + b@,
{
    string_from(concat(chars_of(a).as_slice(), chars_of(b).as_slice()).as_slice())
}

fn text3(a: &str, b: &str, c: &str) -> (r: String)
    ensures
        r@ == a@ + b@ + c@,
{
    let x = concat(chars_of(a).as_slice(), chars_of(b).as_slice());
    string_from(concat(x.as_slice(), chars_of(c).as_slice()).as_slice())
}

fn nic_commands(nic: &ZoneNic, out: &mut Vec<String>)
    ensures
        string_views(final(out)@) == string_views(old(out)@) + nic_lines(*nic),
{
    let ghost start = string_views(out@);
    push_line(out, "add anet".to_owned());
    push_line(out, text2("set linkname=", nic.name.as_str()));
    push_line(out, text2("set lower-link=", nic.over.as_str()));
    let ghost a = string_views(out@);
    match &nic.mac {
        Some(m) => push_line(out, text2("set mac-address=", m.as_str())),
        None => {},
    }
    let ghost b = string_views(out@);
    match nic.vid {
        Some(v) => push_line(out, string_from(concat(chars_of("set vlan-id=").as_slice(), dec_chars(v as u64).as_slice()).as_slice())),
        None => {},
    }
    let ghost c = string_views(out@);
    match &nic.address {
        Some(x) => push_line(out, text2("set allowed-address=", x.as_str())),
        None => {},
    }
    let ghost d = string_views(out@);
    match &nic.gateway {
        Some(g) => push_line(out, text2("set defrouter=", g.as_str())),
        None => {},
    }
    push_line(out, "end".to_owned());
    assert(string_views(out@) == start + nic_lines(*nic));
}

fn nics_commands(nics: &Vec<ZoneNic>, out: &mut Vec<String>)
    ensures
        string_views(final(out)@) == string_views(old(out)@) + nics_lines(nics@),
{
    let ghost start = string_views(out@);
    let mut i: usize = 0;
    assert(nics@.take(0) == Seq::<ZoneNic>::empty());
    while i < nics.len()
        invariant
            0 <= i <= nics@.len(),
            string_views(out@) == start + nics_lines(nics@.take(i as int)),
        decreases nics@.len() - i,
    {
        assert(nics@.take(i + 1).drop_last() == nics@.take(i as int));
        assert(nics@.take(i + 1).last() == nics@[i as int]);
        nic_commands(&nics[i], out);
        i = i + 1;
    }
    assert(nics@.take(nics@.len() as int) == nics@);
}

fn devices_commands(ds: &Vec<String>, out: &mut Vec<String>)
    ensures
        string_views(final(out)@) == string_views(old(out)@) + devices_lines(ds@),
{
    let ghost start = string_views(out@);
    let mut i: usize = 0;
    assert(ds@.take(0) == Seq::<String>::empty());
    while i < ds.len()
        invariant
            0 <= i <= ds@.len(),
            string_views(out@) == start + devices_lines(ds@.take(i as int)),
        decreases ds@.len() - i,
    {
        assert(ds@.take(i + 1).drop_last() == ds@.take(i as int));
        assert(ds@.take(i + 1).last() == ds@[i as int]);
        let ghost b = string_views(out@);
        push_line(out, "add device".to_owned());
        push_line(out, text2("set match=", ds[i].as_str()));
        push_line(out, "end".to_owned());
        assert(string_views(out@) == b + device_lines(ds@[i as int]@));
        i = i + 1;
    }
    assert(ds@.take(ds@.len() as int) == ds@);
}

fn fs_commands(f: &ZoneFs, out: &mut Vec<String>)
    ensures
        string_views(final(out)@) == string_views(old(out)@) + fs_lines(*f),
{
    let ghost start = string_views(out@);
    push_line(out, "add fs".to_owned());
    push_line(out, text2("set dir=", f.dir.as_str()));
    push_line(out, text2("set special=", f.special.as_str()));
    push_line(out, text2("set type=", f.type_.as_str()));
    let ghost head = string_views(out@);
    let mut i: usize = 0;
    assert(f.options@.take(0) == Seq::<String>::empty());
    while i < f.options.len()
        invariant
            0 <= i <= f.options@.len(),
            string_views(out@) == head + option_lines(f.options@.take(i as int)),
        decreases f.options@.len() - i,
    {
        assert(f.options@.take(i + 1).drop_last() == f.options@.take(i as int));
        assert(f.options@.take(i + 1).last() == f.options@[i as int]);
        push_line(out, text2("add options ", f.options[i].as_str()));
        i = i + 1;
    }
    assert(f.options@.take(f.options@.len() as int) == f.options@);
    push_line(out, "end".to_owned());
    assert(string_views(out@) == start + fs_lines(*f));
}

fn fss_commands(fs: &Vec<ZoneFs>, out: &mut Vec<String>)
    ensures
        string_views(final(out)@) == string_views(old(out)@) + fss_lines(fs@),
{
    let ghost start = string_views(out@);
    let mut i: usize = 0;
    assert(fs@.take(0) == Seq::<ZoneFs>::empty());
    while i < fs.len()
        invariant
            0 <= i <= fs@.len(),
            string_views(out@) == start + fss_lines(fs@.take(i as int)),
        decreases fs@.len() - i,
    {
        assert(fs@.take(i + 1).drop_last() == fs@.take(i as int));
        assert(fs@.take(i + 1).last() == fs@[i as int]);
        fs_commands(&fs[i], out);
        i = i + 1;
    }
    assert(fs@.take(fs@.len() as int) == fs@);
}

fn cap_commands(cpu: &Option<String>, mem: Option<u64>, out: &mut Vec<String>)
    ensures
        string_views(final(out)@) == string_views(old(out)@) + cap_lines(*cpu, mem),
{
    let ghost start = string_views(out@);
    match cpu {
        Some(c) => {
            push_line(out, "add capped-cpu".to_owned());
            push_line(out, text2("set ncpus=", c.as_str()));
            push_line(out, "end".to_owned());
        },
        None => {},
    }
    let ghost mid = string_views(out@);
    match mem {
        Some(m) => {
            push_line(out, "add capped-memory".to_owned());
            push_line(out, string_from(concat(chars_of("set physical=").as_slice(), dec_chars(m).as_slice()).as_slice()));
            push_line(out, "end".to_owned());
        },
        None => {},
    }
    assert(string_views(out@) == start + cap_lines(*cpu, mem));
}

fn attr_add(key: &str, value: &str, out: &mut Vec<String>)
    ensures
        string_views(final(out)@) == string_views(old(out)@) + attr_lines(key@, value@),
{
    let ghost start = string_views(out@);
    push_line(out, "add attr".to_owned());
    push_line(out, text2("set name=", key));
    push_line(out, "set type=string".to_owned());
    push_line(out, text3("set value=\"", value, "\""));
    push_line(out, "end".to_owned());
    assert(string_views(out@) == start + attr_lines(key@, value@));
}

fn attr_select(key: &str, value: &str, out: &mut Vec<String>)
    ensures
        string_views(final(out)@) == string_views(old(out)@) + select_lines(key@, value@),
{
    let ghost start = string_views(out@);
    push_line(out, text2("select attr name=", key));
    push_line(out, text3("set value=\"", value, "\""));
    push_line(out, "end".to_owned());
    assert(string_views(out@) == start + select_lines(key@, value@));
}

/// Whether an attribute list names `k`.
pub fn attr_present(ps: &Vec<(String, String)>, k: &str) -> (r: bool)
    ensures
        r == has_attr(ps@, k@),
{
    let mut i: usize = 0;
    while i < ps.len()
        invariant
            0 <= i <= ps@.len(),
            forall|j: int| 0 <= j < i ==> ps@[j].0@ != k@,
        decreases ps@.len() - i,
    {
        if crate::text::str_eq(ps[i].0.as_str(), k) {
            return true;
        }
        i = i + 1;
    }
    false
}

/// The zonecfg subcommands that create `spec` from nothing, ending in
/// `commit`; joined with `; ` for `zonecfg -z <name> <commands>`.
pub fn render_create(spec: &ZoneSpec) -> (r: Vec<String>)
    ensures
        string_views(r@) == create_lines(*spec),
{
    let mut out: Vec<String> = Vec::new();
    assert(string_views(out@) == Seq::<Seq<char>>::empty());
    push_line(&mut out, "create -b".to_owned());
    push_line(&mut out, text2("set brand=", spec.brand.as_str()));
    push_line(&mut out, text2("set zonepath=", spec.zonepath.as_str()));
    push_line(&mut out, text2("set autoboot=", if spec.autoboot { "true" } else { "false" }));
    push_line(&mut out, "set ip-type=exclusive".to_owned());
    let ghost head = string_views(out@);
    nics_commands(&spec.nics, &mut out);
    devices_commands(&spec.devices, &mut out);
    fss_commands(&spec.fs, &mut out);
    cap_commands(&spec.cpu_cap, spec.memory_cap, &mut out);
    let ghost before_attrs = string_views(out@);
    let mut i: usize = 0;
    assert(spec.attrs@.take(0) == Seq::<(String, String)>::empty());
    while i < spec.attrs.len()
        invariant
            0 <= i <= spec.attrs@.len(),
            string_views(out@) == before_attrs + attrs_lines(spec.attrs@.take(i as int)),
        decreases spec.attrs@.len() - i,
    {
        assert(spec.attrs@.take(i + 1).drop_last() == spec.attrs@.take(i as int));
        assert(spec.attrs@.take(i + 1).last() == spec.attrs@[i as int]);
        attr_add(spec.attrs[i].0.as_str(), spec.attrs[i].1.as_str(), &mut out);
        i = i + 1;
    }
    assert(spec.attrs@.take(spec.attrs@.len() as int) == spec.attrs@);
    push_line(&mut out, "commit".to_owned());
    assert(string_views(out@) == create_lines(*spec));
    out
}

fn managed_remove(cur: &Vec<(String, String)>, ps: &Vec<(String, String)>, k: &str, out: &mut Vec<String>)
    ensures
        string_views(final(out)@) == string_views(old(out)@) + managed_removal(cur@, ps@, k@),
{
    if attr_present(cur, k) && !attr_present(ps, k) {
        push_line(out, text2("remove attr name=", k));
    }
}

fn nics_block(present: bool, nics: &Vec<ZoneNic>, out: &mut Vec<String>)
    ensures
        string_views(final(out)@) == string_views(old(out)@) + replaced("remove -F anet"@, present, nics_lines(nics@)),
{
    let ghost start = string_views(out@);
    if present {
        push_line(out, "remove -F anet".to_owned());
    }
    let ghost mid = string_views(out@);
    nics_commands(nics, out);
    assert(string_views(out@) =~= start + replaced("remove -F anet"@, present, nics_lines(nics@)));
}

fn devices_block(present: bool, ds: &Vec<String>, out: &mut Vec<String>)
    ensures
        string_views(final(out)@) == string_views(old(out)@) + replaced("remove -F device"@, present, devices_lines(ds@)),
{
    let ghost start = string_views(out@);
    if present {
        push_line(out, "remove -F device".to_owned());
    }
    let ghost mid = string_views(out@);
    devices_commands(ds, out);
    assert(string_views(out@) =~= start + replaced("remove -F device"@, present, devices_lines(ds@)));
}

fn fs_block(present: bool, fs: &Vec<ZoneFs>, out: &mut Vec<String>)
    ensures
        string_views(final(out)@) == string_views(old(out)@) + replaced("remove -F fs"@, present, fss_lines(fs@)),
{
    let ghost start = string_views(out@);
    if present {
        push_line(out, "remove -F fs".to_owned());
    }
    let ghost mid = string_views(out@);
    fss_commands(fs, out);
    assert(string_views(out@) =~= start + replaced("remove -F fs"@, present, fss_lines(fs@)));
}

/// The cap lines an update writes.
pub open spec fn caps_update(c: ZoneConfig, s: ZoneSpec) -> Seq<Seq<char>> {
    (if c.cpu_cap is Some { seq!["remove -F capped-cpu"@] } else { Seq::<Seq<char>>::empty() })
        + (if c.memory_cap is Some { seq!["remove -F capped-memory"@] } else { Seq::<Seq<char>>::empty() })
        + cap_lines(s.cpu_cap, s.memory_cap)
}

fn caps_block(current: &ZoneConfig, spec: &ZoneSpec, out: &mut Vec<String>)
    ensures
        string_views(final(out)@) == string_views(old(out)@) + caps_update(*current, *spec),
{
    let ghost start = string_views(out@);
    if current.cpu_cap.is_some() {
        push_line(out, "remove -F capped-cpu".to_owned());
    }
    let ghost s1 = string_views(out@);
    if current.memory_cap.is_some() {
        push_line(out, "remove -F capped-memory".to_owned());
    }
    let ghost s2 = string_views(out@);
    cap_commands(&spec.cpu_cap, spec.memory_cap, out);
    assert(string_views(out@) =~= start + caps_update(*current, *spec));
}

fn resource_commands(current: &ZoneConfig, spec: &ZoneSpec, out: &mut Vec<String>)
    ensures
        string_views(final(out)@) == string_views(old(out)@) + resource_lines(*current, *spec),
{
    let ghost start = string_views(out@);
    nics_block(current.nics.len() > 0, &spec.nics, out);
    let ghost s1 = string_views(out@);
    devices_block(current.devices.len() > 0, &spec.devices, out);
    let ghost s2 = string_views(out@);
    fs_block(current.fs.len() > 0, &spec.fs, out);
    let ghost s3 = string_views(out@);
    caps_block(current, spec, out);
    assert(string_views(out@) =~= start + resource_lines(*current, *spec));
}

/// The zonecfg subcommands that bring `current` to `spec`: NICs and caps
/// are replaced wholesale, attributes set or added, managed attributes
/// absent from `spec` removed. Ends in `commit`.
pub fn render_update(current: &ZoneConfig, spec: &ZoneSpec) -> (r: Vec<String>)
    ensures
        string_views(r@) == update_lines(*current, *spec),
{
    let mut out: Vec<String> = Vec::new();
    assert(string_views(out@) == Seq::<Seq<char>>::empty());
    push_line(&mut out, text2("set autoboot=", if spec.autoboot { "true" } else { "false" }));
    resource_commands(current, spec, &mut out);
    let ghost before_attrs = string_views(out@);
    let mut i: usize = 0;
    assert(spec.attrs@.take(0) == Seq::<(String, String)>::empty());
    while i < spec.attrs.len()
        invariant
            0 <= i <= spec.attrs@.len(),
            string_views(out@) == before_attrs + update_attr_lines(current.attrs@, spec.attrs@.take(i as int)),
        decreases spec.attrs@.len() - i,
    {
        assert(spec.attrs@.take(i + 1).drop_last() == spec.attrs@.take(i as int));
        assert(spec.attrs@.take(i + 1).last() == spec.attrs@[i as int]);
        let k = spec.attrs[i].0.as_str();
        let v = spec.attrs[i].1.as_str();
        if attr_present(&current.attrs, k) {
            attr_select(k, v, &mut out);
        } else {
            attr_add(k, v, &mut out);
        }
        i = i + 1;
    }
    assert(spec.attrs@.take(spec.attrs@.len() as int) == spec.attrs@);
    managed_remove(&current.attrs, &spec.attrs, "hostname", &mut out);
    managed_remove(&current.attrs, &spec.attrs, "resolvers", &mut out);
    push_line(&mut out, "commit".to_owned());
    assert(string_views(out@) == update_lines(*current, *spec));
    out
}

/// The subcommands that set one attribute, adding it when `exists` is
/// false; then `commit`.
pub fn render_set_attr(key: &str, value: &str, exists: bool) -> (r: Vec<String>)
    ensures
        string_views(r@) == (if exists { select_lines(key@, value@) } else { attr_lines(key@, value@) }) + seq!["commit"@],
{
    let mut out: Vec<String> = Vec::new();
    assert(string_views(out@) == Seq::<Seq<char>>::empty());
    if exists {
        attr_select(key, value, &mut out);
    } else {
        attr_add(key, value, &mut out);
    }
    push_line(&mut out, "commit".to_owned());
    out
}


/// What the contracts see of a NIC.
pub struct NicView {
    /// Link name.
    pub name: Seq<char>,
    /// Underlying link.
    pub over: Seq<char>,
    /// MAC address.
    pub mac: Option<Seq<char>>,
    /// VLAN id.
    pub vid: Option<u16>,
    /// Allowed address.
    pub address: Option<Seq<char>>,
    /// Default router.
    pub gateway: Option<Seq<char>>,
}

/// A NIC's view.
pub open spec fn nic_view(n: ZoneNic) -> NicView {
    NicView {
        name: n.name@,
        over: n.over@,
        mac: opt_view(n.mac),
        vid: n.vid,
        address: opt_view(n.address),
        gateway: opt_view(n.gateway),
    }
}

/// A property's value: the first one set under `k`.
pub open spec fn prop_get(props: Seq<(Seq<char>, Seq<char>)>, k: Seq<char>) -> Option<Seq<char>>
    decreases props.len(),
{
    if props.len() == 0 {
        None
    } else if props[0].0 == k {
        Some(props[0].1)
    } else {
        prop_get(props.drop_first(), k)
    }
}

/// A missing text as empty.
pub open spec fn or_empty(o: Option<Seq<char>>) -> Seq<char> {
    match o {
        Some(v) => v,
        None => Seq::<char>::empty(),
    }
}

/// The NIC an `anet` block describes.
pub open spec fn anet_of(props: Seq<(Seq<char>, Seq<char>)>) -> NicView {
    NicView {
        name: or_empty(prop_get(props, "linkname"@)),
        over: or_empty(prop_get(props, "lower-link"@)),
        mac: match prop_get(props, "mac-address"@) {
            Some(m) => if m == "auto"@ { None } else { Some(m) },
            None => None,
        },
        vid: match prop_get(props, "vlan-id"@) {
            Some(v) => match parse_unsigned(v, 10, u16::MAX as int) {
                Some(n) => Some(n as u16),
                None => None,
            },
            None => None,
        },
        address: prop_get(props, "allowed-address"@),
        gateway: prop_get(props, "defrouter"@),
    }
}

/// A pair whose key is `k`.
pub open spec fn key_is(k: Seq<char>) -> spec_fn((Seq<char>, Seq<char>)) -> bool {
    |p: (Seq<char>, Seq<char>)| p.0 == k
}

/// A pair whose key does not sort before `k`.
pub open spec fn key_not_below(k: Seq<char>) -> spec_fn((Seq<char>, Seq<char>)) -> bool {
    |p: (Seq<char>, Seq<char>)| !crate::text::lex_lt(p.0, k)
}

/// Where `k` goes among keys in name order: before the first key that
/// does not sort before it.
pub open spec fn lower_bound(attrs: Seq<(Seq<char>, Seq<char>)>, k: Seq<char>) -> int {
    match first_where(attrs, key_not_below(k)) {
        Some(i) => i,
        None => attrs.len() as int,
    }
}

/// Setting attribute `k` to `v` in a name-ordered map: its value replaced
/// where it is, else inserted in name order.
pub open spec fn attr_put(attrs: Seq<(Seq<char>, Seq<char>)>, k: Seq<char>, v: Seq<char>) -> Seq<(Seq<char>, Seq<char>)> {
    match first_where(attrs, key_is(k)) {
        Some(i) => attrs.update(i, (k, v)),
        None => attrs.insert(lower_bound(attrs, k), (k, v)),
    }
}

/// The names of attributes, in order.
pub open spec fn attr_names(attrs: Seq<(Seq<char>, Seq<char>)>) -> Seq<Seq<char>> {
    attrs.map_values(|p: (Seq<char>, Seq<char>)| p.0)
}

/// Setting an attribute keeps names strictly increasing, so each name
/// stays at most once and in name order.
pub proof fn lemma_attr_put_sorted(attrs: Seq<(Seq<char>, Seq<char>)>, k: Seq<char>, v: Seq<char>)
    ensures
        crate::zfs::keyed::strictly_sorted(attr_names(attrs))
            ==> crate::zfs::keyed::strictly_sorted(attr_names(attr_put(attrs, k, v))),
{
    if crate::zfs::keyed::strictly_sorted(attr_names(attrs)) {
        let ns = attr_names(attrs);
        crate::text::lemma_first_where_some(attrs, key_is(k));
        crate::text::lemma_first_where_none(attrs, key_is(k));
        match first_where(attrs, key_is(k)) {
            Some(i) => {
                assert(attr_names(attr_put(attrs, k, v)) =~= ns);
            },
            None => {
                let s = lower_bound(attrs, k);
                let below = key_not_below(k);
                crate::text::lemma_first_where_some(attrs, below);
                crate::text::lemma_first_where_none(attrs, below);
                reveal(crate::zfs::keyed::strictly_sorted);
                assert forall|j: int| s <= j < ns.len() implies !crate::text::lex_lt(#[trigger] ns[j], k) by {
                    if j > s {
                        if crate::text::lex_lt(ns[j], k) {
                            crate::text::lemma_lex_transitive(ns[s], ns[j], k);
                        }
                    }
                }
                assert forall|j: int| 0 <= j < s implies crate::text::lex_lt(#[trigger] ns[j], k) by {
                    assert(!below(attrs[j]));
                }
                assert(!ns.contains(k)) by {
                    if ns.contains(k) {
                        let j = ns.index_of(k);
                        assert(key_is(k)(attrs[j]));
                    }
                }
                assert(attr_names(attr_put(attrs, k, v)) =~= ns.insert(s, k));
                crate::zfs::keyed::lemma_insert_sorted(ns, s, k);
            },
        }
    }
}

/// What the contracts see of an `fs` resource.
pub struct FsView {
    /// Mount point.
    pub dir: Seq<char>,
    /// What is mounted.
    pub special: Seq<char>,
    /// Type.
    pub type_: Seq<char>,
    /// Options.
    pub options: Seq<Seq<char>>,
}

/// An `fs` resource's view.
pub open spec fn fs_view(f: ZoneFs) -> FsView {
    FsView { dir: f.dir@, special: f.special@, type_: f.type_@, options: string_views(f.options@) }
}

/// The views of `fs` resources.
pub open spec fn fs_views(v: Seq<ZoneFs>) -> Seq<FsView> {
    v.map_values(|f: ZoneFs| fs_view(f))
}

/// The mount options an `fs` block's `add options` lines give.
pub open spec fn fs_options(ls: Seq<Seq<char>>) -> Seq<Seq<char>>
    decreases ls.len(),
{
    if ls.len() == 0 {
        Seq::<Seq<char>>::empty()
    } else {
        match crate::text::strip_prefix(ls.last(), "add options "@) {
            Some(o) => fs_options(ls.drop_last()).push(trim(o)),
            None => fs_options(ls.drop_last()),
        }
    }
}

/// One `add <kind> ... end` block being read: its kind, the settings,
/// and its lines.
pub struct ResView {
    /// The kind.
    pub kind: Seq<char>,
    /// The `set` lines, in order.
    pub props: Seq<(Seq<char>, Seq<char>)>,
    /// Every line.
    pub lines: Seq<Seq<char>>,
}

/// What reading `zonecfg export` has gathered so far.
pub struct ExportAcc {
    /// Brand.
    pub brand: Seq<char>,
    /// Zonepath.
    pub zonepath: Seq<char>,
    /// Autoboot.
    pub autoboot: bool,
    /// `ip-type`.
    pub ip_type: Seq<char>,
    /// NICs.
    pub nics: Seq<NicView>,
    /// CPU cap text.
    pub cpu_cap: Option<Seq<char>>,
    /// Memory cap.
    pub memory_cap: Option<int>,
    /// Attributes.
    pub attrs: Seq<(Seq<char>, Seq<char>)>,
    /// Device match patterns.
    pub devices: Seq<Seq<char>>,
    /// `fs` resources.
    pub fs: Seq<FsView>,
    /// Datasets.
    pub datasets: Seq<Seq<char>>,
    /// Other lines.
    pub other: Seq<Seq<char>>,
    /// The open block.
    pub res: Option<ResView>,
    /// The first error.
    pub err: Option<Seq<char>>,
}

/// Closing a block: what it adds to the configuration.
pub open spec fn finish(acc: ExportAcc, r: ResView) -> ExportAcc {
    let g = |k: Seq<char>| prop_get(r.props, k);
    if r.kind == "anet"@ {
        ExportAcc { nics: acc.nics.push(anet_of(r.props)), ..acc }
    } else if r.kind == "capped-cpu"@ {
        ExportAcc {
            cpu_cap: match g("ncpus"@) {
                Some(n) => if float_syntax(n) { Some(n) } else { None },
                None => None,
            },
            ..acc
        }
    } else if r.kind == "capped-memory"@ {
        ExportAcc {
            memory_cap: match g("physical"@) {
                Some(p) => zone_size(p),
                None => None,
            },
            ..acc
        }
    } else if r.kind == "attr"@ {
        match (g("name"@), g("value"@)) {
            (Some(n), Some(v)) => ExportAcc { attrs: attr_put(acc.attrs, n, v), ..acc },
            _ => acc,
        }
    } else if r.kind == "dataset"@ {
        match g("name"@) {
            Some(n) => ExportAcc { datasets: acc.datasets.push(n), ..acc },
            None => acc,
        }
    } else if r.kind == "device"@ {
        match g("match"@) {
            Some(m) => ExportAcc { devices: acc.devices.push(m), ..acc },
            None => acc,
        }
    } else if r.kind == "fs"@ {
        ExportAcc {
            fs: acc.fs.push(FsView {
                dir: or_empty(g("dir"@)),
                special: or_empty(g("special"@)),
                type_: or_empty(g("type"@)),
                options: fs_options(r.lines),
            }),
            ..acc
        }
    } else {
        ExportAcc { other: acc.other.push("add "@ + r.kind + "; "@ + join(r.lines, "; "@) + "; end"@), ..acc }
    }
}

/// A top-level `set` line's effect.
pub open spec fn top_setting(acc: ExportAcc, line: Seq<char>, k: Seq<char>, v: Seq<char>) -> ExportAcc {
    if k == "brand"@ {
        ExportAcc { brand: v, ..acc }
    } else if k == "zonepath"@ {
        ExportAcc { zonepath: v, ..acc }
    } else if k == "autoboot"@ {
        ExportAcc { autoboot: v == "true"@, ..acc }
    } else if k == "ip-type"@ {
        ExportAcc { ip_type: v, ..acc }
    } else {
        ExportAcc { other: acc.other.push(line), ..acc }
    }
}

/// Reading one line of `zonecfg export`.
pub open spec fn export_step(acc: ExportAcc, raw: Seq<char>) -> ExportAcc {
    let line = trim(raw);
    if acc.err is Some || line.len() == 0 || starts_with(line, "#"@) {
        acc
    } else {
        match acc.res {
            Some(r) => if line == "end"@ {
                finish(ExportAcc { res: None, ..acc }, r)
            } else {
                match setting_of(line) {
                    Some((k, v)) => ExportAcc {
                        res: Some(ResView { props: r.props.push((k, v)), lines: r.lines.push(line), ..r }),
                        ..acc
                    },
                    None => if starts_with(line, "add "@) {
                        ExportAcc { res: Some(ResView { lines: r.lines.push(line), ..r }), ..acc }
                    } else {
                        ExportAcc { err: Some("unexpected line in "@ + r.kind + ": "@ + line), ..acc }
                    },
                }
            },
            None => if starts_with(line, "add "@) {
                ExportAcc {
                    res: Some(ResView {
                        kind: trim(line.skip(4)),
                        props: Seq::<(Seq<char>, Seq<char>)>::empty(),
                        lines: Seq::<Seq<char>>::empty(),
                    }),
                    ..acc
                }
            } else {
                match setting_of(line) {
                    Some((k, v)) => top_setting(acc, line, k, v),
                    None => if starts_with(line, "create"@) {
                        acc
                    } else {
                        ExportAcc { other: acc.other.push(line), ..acc }
                    },
                }
            },
        }
    }
}

/// Reading the lines in order.
pub open spec fn export_fold(ls: Seq<Seq<char>>) -> ExportAcc
    decreases ls.len(),
{
    if ls.len() == 0 {
        ExportAcc {
            brand: Seq::<char>::empty(),
            zonepath: Seq::<char>::empty(),
            autoboot: false,
            ip_type: Seq::<char>::empty(),
            nics: Seq::<NicView>::empty(),
            cpu_cap: None,
            memory_cap: None,
            attrs: Seq::<(Seq<char>, Seq<char>)>::empty(),
            devices: Seq::<Seq<char>>::empty(),
            fs: Seq::<FsView>::empty(),
            datasets: Seq::<Seq<char>>::empty(),
            other: Seq::<Seq<char>>::empty(),
            res: None,
            err: None,
        }
    } else {
        export_step(export_fold(ls.drop_last()), ls.last())
    }
}

/// The views of string pairs.
pub open spec fn pair_views(v: Seq<(String, String)>) -> Seq<(Seq<char>, Seq<char>)> {
    v.map_values(|p: (String, String)| (p.0@, p.1@))
}

/// The views of NICs.
pub open spec fn nic_views(v: Seq<ZoneNic>) -> Seq<NicView> {
    v.map_values(|n: ZoneNic| nic_view(n))
}

/// Whether a configuration holds what reading gathered.
pub open spec fn config_matches(c: ZoneConfig, name: Seq<char>, a: ExportAcc) -> bool {
    &&& c.name@ == name
    &&& c.brand@ == a.brand
    &&& c.zonepath@ == a.zonepath
    &&& c.autoboot == a.autoboot
    &&& c.ip_type@ == a.ip_type
    &&& nic_views(c.nics@) == a.nics
    &&& opt_view(c.cpu_cap) == a.cpu_cap
    &&& crate::zfs::parse::onum(c.memory_cap) == a.memory_cap
    &&& pair_views(c.attrs@) == a.attrs
    &&& string_views(c.devices@) == a.devices
    &&& fs_views(c.fs@) == a.fs
    &&& string_views(c.datasets@) == a.datasets
    &&& string_views(c.other@) == a.other
}

/// What `zonecfg export` output gives: its first unexpected line as the
/// error, else a configuration, which must name a brand.
pub open spec fn export_result_ok(r: Result<ZoneConfig, ZoneError>, name: Seq<char>, out: Seq<char>) -> bool {
    let a = export_fold(lines(out));
    match a.err {
        Some(d) => r matches Err(e) && zone_parse_error_is(e, "zonecfg export"@, d),
        None => if a.brand.len() == 0 {
            r matches Err(e) && zone_parse_error_is(e, "zonecfg export"@, "no brand"@)
        } else {
            r matches Ok(c) && config_matches(c, name, a)
        },
    }
}


struct Resource {
    kind: Vec<char>,
    props: Vec<(Vec<char>, Vec<char>)>,
    lines: Vec<Vec<char>>,
}

struct ExportState {
    brand: Vec<char>,
    zonepath: Vec<char>,
    autoboot: bool,
    ip_type: Vec<char>,
    nics: Vec<ZoneNic>,
    cpu_cap: Option<String>,
    memory_cap: Option<u64>,
    attrs: Vec<(String, String)>,
    devices: Vec<String>,
    fs: Vec<ZoneFs>,
    datasets: Vec<String>,
    other: Vec<String>,
    res: Option<Resource>,
    err: Option<Vec<char>>,
}

spec fn prop_views(v: Seq<(Vec<char>, Vec<char>)>) -> Seq<(Seq<char>, Seq<char>)> {
    v.map_values(|p: (Vec<char>, Vec<char>)| (p.0@, p.1@))
}

spec fn res_view(r: Resource) -> ResView {
    ResView { kind: r.kind@, props: prop_views(r.props@), lines: views(r.lines@) }
}

spec fn export_view(st: ExportState) -> ExportAcc {
    ExportAcc {
        brand: st.brand@,
        zonepath: st.zonepath@,
        autoboot: st.autoboot,
        ip_type: st.ip_type@,
        nics: nic_views(st.nics@),
        cpu_cap: opt_view(st.cpu_cap),
        memory_cap: crate::zfs::parse::onum(st.memory_cap),
        attrs: pair_views(st.attrs@),
        devices: string_views(st.devices@),
        fs: fs_views(st.fs@),
        datasets: string_views(st.datasets@),
        other: string_views(st.other@),
        res: match st.res {
            Some(r) => Some(res_view(r)),
            None => None,
        },
        err: crate::zfs::parse::opt_chars(st.err),
    }
}

fn prop_lookup(props: &Vec<(Vec<char>, Vec<char>)>, k: &str) -> (r: Option<Vec<char>>)
    ensures
        crate::zfs::parse::opt_chars(r) == prop_get(prop_views(props@), k@),
{
    let ghost pv = prop_views(props@);
    let mut i: usize = 0;
    assert(pv.skip(0) == pv);
    while i < props.len()
        invariant
            0 <= i <= props@.len(),
            pv == prop_views(props@),
            prop_get(pv, k@) == prop_get(pv.skip(i as int), k@),
        decreases props@.len() - i,
    {
        assert(pv.skip(i as int)[0] == pv[i as int]);
        assert(pv.skip(i as int).drop_first() == pv.skip(i + 1));
        if is(props[i].0.as_slice(), k) {
            let v = slice(props[i].1.as_slice(), 0, props[i].1.len());
            assert(props@[i as int].1@.subrange(0, props@[i as int].1@.len() as int) == props@[i as int].1@);
            return Some(v);
        }
        i = i + 1;
    }
    None
}

fn nic_from(props: &Vec<(Vec<char>, Vec<char>)>) -> (n: ZoneNic)
    ensures
        nic_view(n) == anet_of(prop_views(props@)),
{
    let text = |o: Option<Vec<char>>| -> (r: String)
        ensures
            r@ == or_empty(crate::zfs::parse::opt_chars(o)),
    {
        match o {
            Some(v) => string_from(v.as_slice()),
            None => String::new(),
        }
    };
    let name = text(prop_lookup(props, "linkname"));
    let over = text(prop_lookup(props, "lower-link"));
    let mac = match prop_lookup(props, "mac-address") {
        Some(m) => if is(m.as_slice(), "auto") { None } else { Some(string_from(m.as_slice())) },
        None => None,
    };
    let vid = match prop_lookup(props, "vlan-id") {
        Some(v) => parse_u16(v.as_slice()),
        None => None,
    };
    let address = match prop_lookup(props, "allowed-address") {
        Some(a) => Some(string_from(a.as_slice())),
        None => None,
    };
    let gateway = match prop_lookup(props, "defrouter") {
        Some(g) => Some(string_from(g.as_slice())),
        None => None,
    };
    ZoneNic { name, over, mac, vid, address, gateway }
}

pub fn put_attr(attrs: &mut Vec<(String, String)>, k: Vec<char>, v: Vec<char>)
    ensures
        pair_views(final(attrs)@) == attr_put(pair_views(old(attrs)@), k@, v@),
        crate::zfs::keyed::strictly_sorted(attr_names(pair_views(old(attrs)@)))
            ==> crate::zfs::keyed::strictly_sorted(attr_names(pair_views(final(attrs)@))),
{
    proof {
        lemma_attr_put_sorted(pair_views(attrs@), k@, v@);
    }
    let ghost pv = pair_views(attrs@);
    let ghost pred = key_is(k@);
    let ks = string_from(k.as_slice());
    let mut i: usize = 0;
    while i < attrs.len()
        invariant
            0 <= i <= attrs@.len(),
            pv == pair_views(attrs@),
            attrs@ == old(attrs)@,
            pred == key_is(k@),
            ks@ == k@,
            forall|j: int| 0 <= j < i ==> !pred(pv[j]),
            crate::zfs::keyed::strictly_sorted(attr_names(pv))
                ==> crate::zfs::keyed::strictly_sorted(attr_names(attr_put(pv, k@, v@))),
        decreases attrs@.len() - i,
    {
        if crate::text::str_eq(attrs[i].0.as_str(), ks.as_str()) {
            proof {
                lemma_first_where(pv, pred, i as int);
            }
            attrs.set(i, (ks, string_from(v.as_slice())));
            assert(pair_views(attrs@) == pv.update(i as int, (k@, v@)));
            return;
        }
        i = i + 1;
    }
    proof {
        lemma_none_where(pv, pred);
    }
    let ghost below = key_not_below(k@);
    let mut p: usize = 0;
    while p < attrs.len() && crate::text::lex_less(chars_of(attrs[p].0.as_str()).as_slice(), k.as_slice())
        invariant
            0 <= p <= attrs@.len(),
            pv == pair_views(attrs@),
            below == key_not_below(k@),
            forall|j: int| 0 <= j < p ==> !below(pv[j]),
        decreases attrs@.len() - p,
    {
        p = p + 1;
    }
    proof {
        if p < attrs@.len() {
            lemma_first_where(pv, below, p as int);
        } else {
            lemma_none_where(pv, below);
        }
    }
    attrs.insert(p, (ks, string_from(v.as_slice())));
    assert(pair_views(attrs@) == pv.insert(p as int, (k@, v@)));
}

fn push_string(v: &mut Vec<String>, s: String)
    ensures
        string_views(final(v)@) == string_views(old(v)@).push(s@),
{
    let ghost before = string_views(v@);
    let ghost sv = s@;
    v.push(s);
    assert(string_views(v@) == before.push(sv));
}

fn finish_resource(st: &mut ExportState, r: Resource)
    requires
        old(st).res is None,
    ensures
        export_view(*final(st)) == finish(export_view(*old(st)), res_view(r)),
        final(st).res is None,
{
    let k = r.kind.as_slice();
    if is(k, "anet") {
        let n = nic_from(&r.props);
        let ghost before = nic_views(st.nics@);
        st.nics.push(n);
        assert(nic_views(st.nics@) == before.push(nic_view(n)));
    } else if is(k, "capped-cpu") {
        st.cpu_cap = match prop_lookup(&r.props, "ncpus") {
            Some(n) => if float_ok(n.as_slice()) { Some(string_from(n.as_slice())) } else { None },
            None => None,
        };
    } else if is(k, "capped-memory") {
        st.memory_cap = match prop_lookup(&r.props, "physical") {
            Some(p) => size(string_from(p.as_slice()).as_str()),
            None => None,
        };
    } else if is(k, "attr") {
        match (prop_lookup(&r.props, "name"), prop_lookup(&r.props, "value")) {
            (Some(n), Some(v)) => put_attr(&mut st.attrs, n, v),
            _ => {},
        }
    } else if is(k, "dataset") {
        match prop_lookup(&r.props, "name") {
            Some(n) => push_string(&mut st.datasets, string_from(n.as_slice())),
            None => {},
        }
    } else if is(k, "device") {
        match prop_lookup(&r.props, "match") {
            Some(m) => push_string(&mut st.devices, string_from(m.as_slice())),
            None => {},
        }
    } else if is(k, "fs") {
        let f = fs_from(&r);
        let ghost before = fs_views(st.fs@);
        st.fs.push(f);
        assert(fs_views(st.fs@) == before.push(fs_view(f)));
    } else {
        let a = concat(chars_of("add ").as_slice(), k);
        let b = concat(a.as_slice(), chars_of("; ").as_slice());
        let c = concat(b.as_slice(), joined(&r.lines, "; ").as_slice());
        let d = concat(c.as_slice(), chars_of("; end").as_slice());
        push_string(&mut st.other, string_from(d.as_slice()));
    }
}

fn text_or_empty(o: Option<Vec<char>>) -> (r: String)
    ensures
        r@ == or_empty(crate::zfs::parse::opt_chars(o)),
{
    match o {
        Some(v) => string_from(v.as_slice()),
        None => String::new(),
    }
}

fn fs_from(r: &Resource) -> (f: ZoneFs)
    ensures
        fs_view(f) == (FsView {
            dir: or_empty(prop_get(res_view(*r).props, "dir"@)),
            special: or_empty(prop_get(res_view(*r).props, "special"@)),
            type_: or_empty(prop_get(res_view(*r).props, "type"@)),
            options: fs_options(res_view(*r).lines),
        }),
{
    let mut options: Vec<String> = Vec::new();
    let ghost lv = views(r.lines@);
    let mut i: usize = 0;
    assert(lv.take(0) == Seq::<Seq<char>>::empty());
    assert(string_views(options@) == Seq::<Seq<char>>::empty());
    while i < r.lines.len()
        invariant
            0 <= i <= r.lines@.len(),
            lv == views(r.lines@),
            string_views(options@) == fs_options(lv.take(i as int)),
        decreases r.lines@.len() - i,
    {
        assert(lv.take(i + 1).drop_last() == lv.take(i as int));
        assert(lv.take(i + 1).last() == r.lines@[i as int]@);
        match crate::text::without_prefix(r.lines[i].as_slice(), "add options ") {
            Some(o) => push_string(&mut options, string_from(trimmed(o.as_slice()).as_slice())),
            None => {},
        }
        i = i + 1;
    }
    assert(lv.take(r.lines@.len() as int) == lv);
    ZoneFs {
        dir: text_or_empty(prop_lookup(&r.props, "dir")),
        special: text_or_empty(prop_lookup(&r.props, "special")),
        type_: text_or_empty(prop_lookup(&r.props, "type")),
        options,
    }
}

fn push_prop(r: Resource, k: Vec<char>, v: Vec<char>, line: Vec<char>) -> (out: Resource)
    ensures
        res_view(out) == (ResView { props: res_view(r).props.push((k@, v@)), lines: res_view(r).lines.push(line@), ..res_view(r) }),
{
    let mut r = r;
    let ghost p0 = prop_views(r.props@);
    let ghost l0 = views(r.lines@);
    r.props.push((k, v));
    assert(prop_views(r.props@) == p0.push((k@, v@)));
    r.lines.push(line);
    assert(views(r.lines@) == l0.push(line@));
    r
}

fn push_res_line(r: Resource, line: Vec<char>) -> (out: Resource)
    ensures
        res_view(out) == (ResView { lines: res_view(r).lines.push(line@), ..res_view(r) }),
{
    let mut r = r;
    let ghost l0 = views(r.lines@);
    r.lines.push(line);
    assert(views(r.lines@) == l0.push(line@));
    r
}

fn step_export(st: &mut ExportState, raw: &[char])
    ensures
        export_view(*final(st)) == export_step(export_view(*old(st)), raw@),
{
    let line = trimmed(raw);
    if st.err.is_some() || line.len() == 0 || has_prefix(line.as_slice(), "#") {
        return;
    }
    let res = st.res.take();
    match res {
        Some(r) => {
            if is(line.as_slice(), "end") {
                finish_resource(st, r);
            } else {
                match setting(line.as_slice()) {
                    Some((k, v)) => {
                        st.res = Some(push_prop(r, k, v, line));
                    },
                    None => {
                        if has_prefix(line.as_slice(), "add ") {
                            st.res = Some(push_res_line(r, line));
                        } else {
                            let a = concat(chars_of("unexpected line in ").as_slice(), r.kind.as_slice());
                            let b = concat(a.as_slice(), chars_of(": ").as_slice());
                            st.err = Some(concat(b.as_slice(), line.as_slice()));
                            st.res = Some(r);
                        }
                    },
                }
            }
        },
        None => {
            if has_prefix(line.as_slice(), "add ") {
                proof {
                    reveal_strlit("add ");
                }
                let rest = drop_front(line.as_slice(), 4);
                st.res = Some(Resource { kind: trimmed(rest.as_slice()), props: Vec::new(), lines: Vec::new() });
                assert(prop_views(Seq::<(Vec<char>, Vec<char>)>::empty()) == Seq::<(Seq<char>, Seq<char>)>::empty());
                assert(views(Seq::<Vec<char>>::empty()) == Seq::<Seq<char>>::empty());
            } else {
                match setting(line.as_slice()) {
                    Some((k, v)) => {
                        if is(k.as_slice(), "brand") {
                            st.brand = v;
                        } else if is(k.as_slice(), "zonepath") {
                            st.zonepath = v;
                        } else if is(k.as_slice(), "autoboot") {
                            st.autoboot = is(v.as_slice(), "true");
                        } else if is(k.as_slice(), "ip-type") {
                            st.ip_type = v;
                        } else {
                            push_string(&mut st.other, string_from(line.as_slice()));
                        }
                    },
                    None => {
                        if has_prefix(line.as_slice(), "create") {
                        } else {
                            push_string(&mut st.other, string_from(line.as_slice()));
                        }
                    },
                }
            }
        },
    }
}

/// Parse `zonecfg -z <name> export`.
pub fn zonecfg_export(name: &str, out: &str) -> (r: Result<ZoneConfig, ZoneError>)
    ensures
        export_result_ok(r, name@, out@),
{
    let c = chars_of(out);
    let ls = lines_of_text(c.as_slice());
    let ghost lv = views(ls@);
    let mut st = ExportState {
        brand: Vec::new(),
        zonepath: Vec::new(),
        autoboot: false,
        ip_type: Vec::new(),
        nics: Vec::new(),
        cpu_cap: None,
        memory_cap: None,
        attrs: Vec::new(),
        devices: Vec::new(),
        fs: Vec::new(),
        datasets: Vec::new(),
        other: Vec::new(),
        res: None,
        err: None,
    };
    assert(string_views(st.devices@) =~= Seq::<Seq<char>>::empty());
    assert(fs_views(st.fs@) =~= Seq::<FsView>::empty());
    assert(lv.take(0) =~= Seq::<Seq<char>>::empty());
    assert(nic_views(st.nics@) =~= Seq::<NicView>::empty());
    assert(pair_views(st.attrs@) =~= Seq::<(Seq<char>, Seq<char>)>::empty());
    assert(string_views(st.datasets@) =~= Seq::<Seq<char>>::empty());
    assert(string_views(st.other@) =~= Seq::<Seq<char>>::empty());
    assert(export_view(st) == export_fold(lv.take(0)));
    let mut i: usize = 0;
    while i < ls.len()
        invariant
            0 <= i <= ls@.len(),
            lv == views(ls@),
            lv == lines(out@),
            export_view(st) == export_fold(lv.take(i as int)),
        decreases ls@.len() - i,
    {
        assert(lv.take(i + 1).drop_last() == lv.take(i as int));
        assert(lv.take(i + 1).last() == ls@[i as int]@);
        step_export(&mut st, ls[i].as_slice());
        i = i + 1;
    }
    assert(lv.take(ls@.len() as int) == lv);
    if let Some(d) = st.err {
        return Err(ZoneError::Parse { command: "zonecfg export".to_owned(), detail: string_from(d.as_slice()) });
    }
    if st.brand.len() == 0 {
        return Err(ZoneError::Parse { command: "zonecfg export".to_owned(), detail: "no brand".to_owned() });
    }
    Ok(ZoneConfig {
        name: name.to_owned(),
        brand: string_from(st.brand.as_slice()),
        zonepath: string_from(st.zonepath.as_slice()),
        autoboot: st.autoboot,
        ip_type: string_from(st.ip_type.as_slice()),
        nics: st.nics,
        cpu_cap: st.cpu_cap,
        memory_cap: st.memory_cap,
        attrs: st.attrs,
        devices: st.devices,
        fs: st.fs,
        datasets: st.datasets,
        other: st.other,
    })
}

} // verus!
