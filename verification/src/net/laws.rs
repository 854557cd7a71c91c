//! What holds of the parsers across calls.
use vstd::prelude::*;
use crate::common::network::LinkKind;
use crate::common::shell::string_views;
use crate::net::parse::{
    byte_text, fields_of, fields_state, first_named, is_na, link_named, mac_field, mac_of, mac_text, macs_from,
    opt_view, LinkSources,
};
use crate::net::types::LinkInfo;
use crate::net::parse::{SHOW_VNIC_COLUMNS, VnicRow, vnic_row_ok};
use crate::zfs::laws::lemma_join_take;
use crate::text::join;
use crate::text::{first_where, lemma_first_where, lemma_first_where_none, lemma_first_where_some, lemma_none_where};
use crate::text::{digit_char, digit_value, digits_value, hex2, hex_char, parse_unsigned, split_char};

verus! {

/// Splitting text with no separator in it gives the text alone.
pub(crate) proof fn lemma_split_plain(s: Seq<char>, sep: char)
    requires
        !s.contains(sep),
    ensures
        split_char(s, sep) == seq![s],
    decreases s.len(),
{
    if s.len() == 0 {
        assert(s == Seq::<char>::empty());
    } else {
        assert(!s.drop_last().contains(sep)) by {
            if s.drop_last().contains(sep) {
                let i = choose|i: int| 0 <= i < s.drop_last().len() && s.drop_last()[i] == sep;
                assert(s[i] == sep);
            }
        }
        lemma_split_plain(s.drop_last(), sep);
        assert(s.last() != sep) by {
            assert(s[s.len() - 1] == s.last());
        }
        assert(s.drop_last().push(s.last()) == s);
        assert(seq![s.drop_last()].update(0, s.drop_last().push(s.last())) == seq![s]);
    }
}

/// Splitting at a separator splits each side.
pub(crate) proof fn lemma_split_join(x: Seq<char>, y: Seq<char>, sep: char)
    ensures
        split_char(x + seq![sep] + y, sep) == split_char(x, sep) + split_char(y, sep),
    decreases y.len(),
{
    let xs = x + seq![sep];
    assert(xs.drop_last() == x);
    assert(xs.last() == sep);
    if y.len() == 0 {
        assert(xs + y == xs);
        assert(split_char(y, sep) == seq![Seq::<char>::empty()]);
    } else {
        let y1 = y.drop_last();
        lemma_split_join(x, y1, sep);
        assert((xs + y).drop_last() == xs + y1);
        assert((xs + y).last() == y.last());
        crate::text::lemma_split_char_nonempty(y1, sep);
        let p = split_char(x, sep);
        let q = split_char(y1, sep);
        if y.last() == sep {
            assert((p + q).push(Seq::<char>::empty()) == p + q.push(Seq::<char>::empty()));
        } else {
            assert((p + q).update((p + q).len() - 1, (p + q).last().push(y.last()))
                == p + q.update(q.len() - 1, q.last().push(y.last())));
        }
    }
}

/// A hex digit reads back as its value.
proof fn lemma_hex_char(d: int)
    requires
        0 <= d < 16,
    ensures
        digit_value(hex_char(d), 16) == Some(d),
        hex_char(d) != ':',
        hex_char(d) != '+',
{
    if d < 10 {
        assert(digit_char(d) as int == d + 48);
    } else {
        assert(hex_char(d) as int == d - 10 + 97);
    }
}

/// Two hex digits read back as their byte.
proof fn lemma_hex2(b: u8)
    ensures
        parse_unsigned(hex2(b), 16, 255) == Some(b as int),
        !hex2(b).contains(':'),
{
    let h = hex2(b);
    lemma_hex_char(b as int / 16);
    lemma_hex_char(b as int % 16);
    assert(h.drop_last() == seq![hex_char(b as int / 16)]);
    assert(seq![hex_char(b as int / 16)].drop_last() == Seq::<char>::empty());
    assert(digits_value(Seq::<char>::empty(), 16) == 0);
    assert(digits_value(seq![hex_char(b as int / 16)], 16) == b as int / 16);
    assert(digits_value(h, 16) == (b as int / 16) * 16 + b as int % 16);
    assert(!h.contains(':')) by {
        if h.contains(':') {
            let i = choose|i: int| 0 <= i < h.len() && h[i] == ':';
            assert(i == 0 || i == 1);
        }
    }
}

/// Normalising a MAC address twice gives what normalising it once gave:
/// a normalised address normalises to itself.
pub proof fn lemma_mac_idempotent(s: Seq<char>)
    requires
        mac_of(s) is Some,
    ensures
        mac_of(mac_of(s)->0) == mac_of(s),
{
    let parts = split_char(s, ':');
    let h = Seq::new(6, |i: int| byte_text(parts[i]));
    assert(parts.len() == 6);
    assert forall|i: int| 0 <= i < 6 implies parse_unsigned(#[trigger] h[i], 16, 255) is Some
        && byte_text(h[i]) == h[i] && !h[i].contains(':') by {
        assert(parse_unsigned(parts[i], 16, 255) is Some);
        assert(h[i] == byte_text(parts[i]));
        let b = parse_unsigned(parts[i], 16, 255).unwrap() as u8;
        lemma_hex2(b);
    }
    let n = mac_text(parts);
    let c = seq![':'];
    let x1 = h[0];
    let x2 = x1 + c + h[1];
    let x3 = x2 + c + h[2];
    let x4 = x3 + c + h[3];
    let x5 = x4 + c + h[4];
    assert(n == x5 + c + h[5]);
    lemma_split_plain(h[0], ':');
    lemma_split_plain(h[1], ':');
    lemma_split_plain(h[2], ':');
    lemma_split_plain(h[3], ':');
    lemma_split_plain(h[4], ':');
    lemma_split_plain(h[5], ':');
    lemma_split_join(x1, h[1], ':');
    lemma_split_join(x2, h[2], ':');
    lemma_split_join(x3, h[3], ':');
    lemma_split_join(x4, h[4], ':');
    lemma_split_join(x5, h[5], ':');
    let ps = split_char(n, ':');
    assert(ps == h);
    assert forall|i: int| 0 <= i < 6 implies byte_text(#[trigger] ps[i]) == byte_text(parts[i]) by {
        assert(ps[i] == h[i]);
        assert(h[i] == byte_text(parts[i]));
    }
    assert(mac_text(ps) == n);
}

/// A field as parsable output writes it: `\` before each `\` and `:`.
pub open spec fn escaped(f: Seq<char>) -> Seq<char>
    decreases f.len(),
{
    if f.len() == 0 {
        f
    } else if f.last() == '\\' || f.last() == ':' {
        escaped(f.drop_last()) + seq!['\\', f.last()]
    } else {
        escaped(f.drop_last()).push(f.last())
    }
}

/// Fields written as one parsable line: each escaped, joined by `:`.
pub open spec fn escaped_line(xs: Seq<Seq<char>>) -> Seq<char>
    decreases xs.len(),
{
    if xs.len() <= 1 {
        if xs.len() == 0 { Seq::<char>::empty() } else { escaped(xs[0]) }
    } else {
        escaped_line(xs.drop_last()) + seq![':'] + escaped(xs.last())
    }
}

/// Reading an escaped field adds it to the field being read.
proof fn lemma_read_escaped(p: Seq<char>, y: Seq<char>)
    requires
        fields_state(p).2 == false,
    ensures
        fields_state(p + escaped(y)) == (fields_state(p).0, fields_state(p).1 + y, false),
    decreases y.len(),
{
    if y.len() == 0 {
        assert(p + escaped(y) == p);
        assert(fields_state(p).1 + y == fields_state(p).1);
    } else {
        let y1 = y.drop_last();
        let c = y.last();
        lemma_read_escaped(p, y1);
        let q = p + escaped(y1);
        let done0 = fields_state(p).0;
        let cur0 = fields_state(p).1;
        assert(fields_state(q) == (done0, cur0 + y1, false));
        assert(y == y1.push(c));
        assert((cur0 + y1).push(c) == cur0 + y);
        if c == '\\' || c == ':' {
            let r = q + seq!['\\', c];
            assert(p + escaped(y) == r);
            assert(r.drop_last() == q.push('\\'));
            assert(q.push('\\').drop_last() == q);
            assert(q.push('\\').last() == '\\');
            assert(fields_state(q.push('\\')) == (done0, cur0 + y1, true));
            assert(r.last() == c);
        } else {
            assert(p + escaped(y) == q.push(c));
            assert(q.push(c).drop_last() == q);
            assert(q.push(c).last() == c);
        }
    }
}

/// Reading escaped fields joined by `:`: every field but the last is done,
/// the last is being read.
proof fn lemma_read_line(xs: Seq<Seq<char>>)
    requires
        xs.len() >= 1,
    ensures
        fields_state(escaped_line(xs)) == (xs.drop_last(), xs.last(), false),
    decreases xs.len(),
{
    if xs.len() == 1 {
        let e = Seq::<char>::empty();
        assert(e + escaped(xs[0]) == escaped(xs[0]));
        lemma_read_escaped(e, xs[0]);
        assert(e + xs[0] == xs[0]);
        assert(xs.drop_last() == Seq::<Seq<char>>::empty());
    } else {
        let ys = xs.drop_last();
        lemma_read_line(ys);
        let l = escaped_line(ys);
        let lc = l + seq![':'];
        assert(lc.drop_last() == l);
        assert(fields_state(lc) == (ys.drop_last().push(ys.last()), Seq::<char>::empty(), false));
        assert(ys.drop_last().push(ys.last()) == ys);
        lemma_read_escaped(lc, xs.last());
        assert(Seq::<char>::empty() + xs.last() == xs.last());
    }
}

/// Splitting a parsable line undoes its escaping: fields escaped and
/// joined by `:` split back into those fields.
pub proof fn lemma_fields_unescape(xs: Seq<Seq<char>>)
    requires
        xs.len() >= 1,
    ensures
        fields_of(escaped_line(xs)) == xs,
{
    lemma_read_line(xs);
    assert(xs.drop_last().push(xs.last()) == xs);
}

/// An assembled link named `n`.
pub open spec fn info_named(n: Seq<char>) -> spec_fn(LinkInfo) -> bool {
    |l: LinkInfo| l.name@ == n
}

/// A VLAN carries the MAC of the link it sits on: among the links that
/// `assemble` gives, a VLAN whose first underlying link is not itself a
/// VLAN has the MAC of the first link of that name, and none when no link
/// has that name.
pub proof fn lemma_vlan_mac(src: LinkSources, out: Seq<LinkInfo>, i: int)
    requires
        out.len() == src.links@.len(),
        forall|k: int| 0 <= k < out.len() ==> src.assembled(#[trigger] out[k], src.links@[k]),
        0 <= i < out.len(),
        out[i].kind == LinkKind::Vlan,
        out[i].over@.len() > 0,
        forall|k: int| 0 <= k < out.len() && (#[trigger] out[k]).name@ == out[i].over@[0]@
            ==> out[k].kind != LinkKind::Vlan,
    ensures
        opt_view(out[i].mac) == (match first_where(out, info_named(out[i].over@[0]@)) {
            Some(k) => opt_view(out[k].mac),
            None => None,
        }),
{
    let links = src.links@;
    let n = out[i].over@[0]@;
    assert(src.assembled(out[i], links[i]));
    assert(string_views(out[i].over@)[0] == n);
    assert(src.over_after(links[i])[0] == n);
    let pl = link_named(n);
    let po = info_named(n);
    lemma_first_where_some(links, pl);
    lemma_first_where_none(links, pl);
    lemma_first_where_some(out, po);
    lemma_first_where_none(out, po);
    match first_where(out, po) {
        Some(k) => {
            assert(src.assembled(out[k], links[k]));
            assert forall|j: int| 0 <= j < k implies !pl(links[j]) by {
                assert(src.assembled(out[j], links[j]));
                assert(!po(out[j]));
            }
            lemma_first_where(links, pl, k);
        },
        None => {
            assert forall|j: int| 0 <= j < links.len() implies !pl(links[j]) by {
                assert(src.assembled(out[j], links[j]));
                assert(!po(out[j]));
            }
            lemma_none_where(links, pl);
        },
    }
}

/// A `show-phys -m` row that gives link `n` an address.
pub open spec fn addr_row(f: Seq<Seq<char>>, n: Seq<char>) -> bool {
    f[0] == n && !is_na(f[2])
}

/// Such a row in the `primary` slot.
pub open spec fn primary_row(f: Seq<Seq<char>>, n: Seq<char>) -> bool {
    addr_row(f, n) && f[1] == "primary"@
}

/// Whether some row gives link `n` an address.
pub open spec fn has_addr(rows: Seq<Seq<Seq<char>>>, n: Seq<char>) -> bool {
    exists|j: int| 0 <= j < rows.len() && #[trigger] addr_row(rows[j], n)
}

/// Whether some row gives link `n` a `primary` address.
pub open spec fn has_primary(rows: Seq<Seq<Seq<char>>>, n: Seq<char>) -> bool {
    exists|j: int| 0 <= j < rows.len() && #[trigger] primary_row(rows[j], n)
}

/// `v` is link `n`'s address: that of its last `primary` row when it has
/// one, else that of its first row with an address.
pub open spec fn chosen_mac(rows: Seq<Seq<Seq<char>>>, n: Seq<char>, v: Seq<char>) -> bool {
    if has_primary(rows, n) {
        exists|j: int| 0 <= j < rows.len() && #[trigger] primary_row(rows[j], n)
            && (forall|k: int| j < k < rows.len() ==> !primary_row(#[trigger] rows[k], n))
            && v == mac_field(rows[j][2])
    } else {
        exists|j: int| 0 <= j < rows.len() && #[trigger] addr_row(rows[j], n)
            && (forall|k: int| 0 <= k < j ==> !addr_row(#[trigger] rows[k], n))
            && v == mac_field(rows[j][2])
    }
}

/// Link `a` gets an address in an earlier row than link `b` first does.
pub open spec fn first_before(rows: Seq<Seq<Seq<char>>>, a: Seq<char>, b: Seq<char>) -> bool {
    exists|j: int| 0 <= j < rows.len() && #[trigger] addr_row(rows[j], a)
        && forall|k: int| 0 <= k <= j ==> !addr_row(#[trigger] rows[k], b)
}

/// The direct statement of what `macs_from` gives for `rows`.
spec fn macs_direct(rows: Seq<Seq<Seq<char>>>) -> bool {
    let m = macs_from(rows);
    &&& forall|i: int, i2: int| 0 <= i < i2 < m.len() ==> (#[trigger] m[i]).0 != (#[trigger] m[i2]).0
    &&& forall|i: int| 0 <= i < m.len() ==> has_addr(rows, (#[trigger] m[i]).0) && chosen_mac(rows, m[i].0, m[i].1)
    &&& forall|j: int| 0 <= j < rows.len() && !is_na((#[trigger] rows[j])[2])
        ==> exists|i: int| 0 <= i < m.len() && (#[trigger] m[i]).0 == rows[j][0]
    &&& forall|i: int, i2: int| 0 <= i < i2 < m.len() ==> first_before(rows, (#[trigger] m[i]).0, (#[trigger] m[i2]).0)
}

/// A link with an address in the earlier rows has one in all of them.
proof fn lemma_has_carry(rows: Seq<Seq<Seq<char>>>, n: Seq<char>)
    requires
        rows.len() > 0,
        has_addr(rows.drop_last(), n),
    ensures
        has_addr(rows, n),
{
    let r0 = rows.drop_last();
    let j = choose|j: int| 0 <= j < r0.len() && #[trigger] addr_row(r0[j], n);
    assert(rows[j] == r0[j]);
    assert(addr_row(rows[j], n));
}

/// Which link got an address first stays so with a row more.
proof fn lemma_before_carry(rows: Seq<Seq<Seq<char>>>, a: Seq<char>, b: Seq<char>)
    requires
        rows.len() > 0,
        first_before(rows.drop_last(), a, b),
    ensures
        first_before(rows, a, b),
{
    let r0 = rows.drop_last();
    let j = choose|j: int| 0 <= j < r0.len() && #[trigger] addr_row(r0[j], a)
        && forall|k: int| 0 <= k <= j ==> !addr_row(#[trigger] r0[k], b);
    assert(rows[j] == r0[j]);
    assert(addr_row(rows[j], a));
    assert forall|k: int| 0 <= k <= j implies !addr_row(#[trigger] rows[k], b) by {
        assert(rows[k] == r0[k]);
    }
}

/// A link that was first to an address stays before one with none so far.
proof fn lemma_before_new(rows: Seq<Seq<Seq<char>>>, a: Seq<char>, b: Seq<char>)
    requires
        rows.len() > 0,
        has_addr(rows.drop_last(), a),
        !has_addr(rows.drop_last(), b),
    ensures
        first_before(rows, a, b),
{
    let r0 = rows.drop_last();
    let j = choose|j: int| 0 <= j < r0.len() && #[trigger] addr_row(r0[j], a);
    assert(rows[j] == r0[j]);
    assert(addr_row(rows[j], a));
    assert forall|k: int| 0 <= k <= j implies !addr_row(#[trigger] rows[k], b) by {
        assert(rows[k] == r0[k]);
        if addr_row(r0[k], b) {
            assert(has_addr(r0, b));
        }
    }
}

/// A link's address stays chosen past a row that is not its `primary` one
/// and, if it gives the link an address, not its first.
proof fn lemma_chosen_carry(rows: Seq<Seq<Seq<char>>>, n: Seq<char>, v: Seq<char>)
    requires
        rows.len() > 0,
        chosen_mac(rows.drop_last(), n, v),
        !primary_row(rows.last(), n),
        addr_row(rows.last(), n) ==> has_addr(rows.drop_last(), n),
        has_addr(rows.drop_last(), n),
    ensures
        chosen_mac(rows, n, v),
{
    let r0 = rows.drop_last();
    let last = rows.len() - 1;
    assert(rows[last] == rows.last());
    assert(has_primary(rows, n) == has_primary(r0, n)) by {
        if has_primary(rows, n) {
            let j = choose|j: int| 0 <= j < rows.len() && #[trigger] primary_row(rows[j], n);
            assert(j < last);
            assert(rows[j] == r0[j]);
            assert(primary_row(r0[j], n));
        }
        if has_primary(r0, n) {
            let j = choose|j: int| 0 <= j < r0.len() && #[trigger] primary_row(r0[j], n);
            assert(rows[j] == r0[j]);
            assert(primary_row(rows[j], n));
        }
    }
    if has_primary(r0, n) {
        let j = choose|j: int| 0 <= j < r0.len() && #[trigger] primary_row(r0[j], n)
            && (forall|k: int| j < k < r0.len() ==> !primary_row(#[trigger] r0[k], n))
            && v == mac_field(r0[j][2]);
        assert(rows[j] == r0[j]);
        assert(primary_row(rows[j], n));
        assert forall|k: int| j < k < rows.len() implies !primary_row(#[trigger] rows[k], n) by {
            if k < last {
                assert(rows[k] == r0[k]);
            }
        }
    } else {
        let j = choose|j: int| 0 <= j < r0.len() && #[trigger] addr_row(r0[j], n)
            && (forall|k: int| 0 <= k < j ==> !addr_row(#[trigger] r0[k], n))
            && v == mac_field(r0[j][2]);
        assert(rows[j] == r0[j]);
        assert(addr_row(rows[j], n));
        assert forall|k: int| 0 <= k < j implies !addr_row(#[trigger] rows[k], n) by {
            assert(rows[k] == r0[k]);
        }
    }
}

/// A row with no address changes nothing.
proof fn lemma_step_na(rows: Seq<Seq<Seq<char>>>)
    requires
        rows.len() > 0,
        is_na(rows.last()[2]),
        macs_direct(rows.drop_last()),
    ensures
        macs_direct(rows),
{
    let r0 = rows.drop_last();
    let last = rows.len() - 1;
    let p = macs_from(r0);
    let m = macs_from(rows);
    assert(rows[last] == rows.last());
    assert(m == p);
    assert forall|i: int| 0 <= i < m.len() implies has_addr(rows, (#[trigger] m[i]).0)
        && chosen_mac(rows, m[i].0, m[i].1) by {
        assert(has_addr(r0, p[i].0) && chosen_mac(r0, p[i].0, p[i].1));
        lemma_has_carry(rows, m[i].0);
        lemma_chosen_carry(rows, m[i].0, m[i].1);
    }
    assert forall|j: int| 0 <= j < rows.len() && !is_na((#[trigger] rows[j])[2]) implies exists|i: int|
        0 <= i < m.len() && (#[trigger] m[i]).0 == rows[j][0] by {
        assert(j < last);
        assert(r0[j] == rows[j]);
    }
    assert forall|i: int, i2: int| 0 <= i < i2 < m.len() implies first_before(rows, (#[trigger] m[i]).0,
        (#[trigger] m[i2]).0) by {
        assert(first_before(r0, p[i].0, p[i2].0));
        lemma_before_carry(rows, m[i].0, m[i2].0);
    }
}

/// A row with an address for a link already listed.
#[verifier::rlimit(30)]
proof fn lemma_step_known(rows: Seq<Seq<Seq<char>>>, i0: int)
    requires
        rows.len() > 0,
        !is_na(rows.last()[2]),
        macs_direct(rows.drop_last()),
        0 <= i0 < macs_from(rows.drop_last()).len(),
        macs_from(rows.drop_last())[i0].0 == rows.last()[0],
    ensures
        macs_direct(rows),
{
    let r0 = rows.drop_last();
    let f = rows.last();
    let last = rows.len() - 1;
    let p = macs_from(r0);
    let m = macs_from(rows);
    let n0 = f[0];
    assert(rows[last] == f);
    assert(first_named(p, n0) == Some(i0)) by {
        assert forall|j: int| 0 <= j < i0 implies p[j].0 != n0 by {
            assert(p[j].0 != p[i0].0);
        }
        let k = choose|k: int| 0 <= k < p.len() && p[k].0 == n0 && forall|j: int| 0 <= j < k ==> p[j].0 != n0;
        if k != i0 {
            if k < i0 {
                assert(p[k].0 != p[i0].0);
            } else {
                assert(p[i0].0 != p[k].0);
            }
        }
    }
    assert(has_addr(r0, n0));
    let prim = f[1] == "primary"@;
    assert(m == if prim { p.update(i0, (n0, mac_field(f[2]))) } else { p });
    assert forall|i: int| 0 <= i < m.len() implies has_addr(rows, (#[trigger] m[i]).0)
        && chosen_mac(rows, m[i].0, m[i].1) by {
        assert(has_addr(r0, p[i].0) && chosen_mac(r0, p[i].0, p[i].1));
        lemma_has_carry(rows, p[i].0);
        if prim && i == i0 {
            assert(primary_row(rows[last], n0));
            assert(has_primary(rows, n0));
        } else {
            assert(m[i] == p[i]);
            if i != i0 {
                assert(p[i].0 != p[i0].0);
            }
            lemma_chosen_carry(rows, m[i].0, m[i].1);
        }
    }
    assert forall|i: int, i2: int| 0 <= i < i2 < m.len() implies (#[trigger] m[i]).0 != (#[trigger] m[i2]).0 by {
        assert(m[i].0 == p[i].0 && m[i2].0 == p[i2].0);
    }
    assert forall|j: int| 0 <= j < rows.len() && !is_na((#[trigger] rows[j])[2]) implies exists|i: int|
        0 <= i < m.len() && (#[trigger] m[i]).0 == rows[j][0] by {
        if j < last {
            assert(r0[j] == rows[j]);
            let i = choose|i: int| 0 <= i < p.len() && (#[trigger] p[i]).0 == r0[j][0];
            assert(m[i].0 == p[i].0);
        } else {
            assert(m[i0].0 == n0);
        }
    }
    assert forall|i: int, i2: int| 0 <= i < i2 < m.len() implies first_before(rows, (#[trigger] m[i]).0,
        (#[trigger] m[i2]).0) by {
        assert(m[i].0 == p[i].0 && m[i2].0 == p[i2].0);
        assert(first_before(r0, p[i].0, p[i2].0));
        lemma_before_carry(rows, m[i].0, m[i2].0);
    }
}

/// A row with an address for a link not listed yet.
#[verifier::rlimit(30)]
proof fn lemma_step_new(rows: Seq<Seq<Seq<char>>>)
    requires
        rows.len() > 0,
        !is_na(rows.last()[2]),
        macs_direct(rows.drop_last()),
        forall|i: int| 0 <= i < macs_from(rows.drop_last()).len() ==> (#[trigger] macs_from(rows.drop_last())[i]).0
            != rows.last()[0],
    ensures
        macs_direct(rows),
{
    let r0 = rows.drop_last();
    let f = rows.last();
    let last = rows.len() - 1;
    let p = macs_from(r0);
    let m = macs_from(rows);
    let n0 = f[0];
    assert(rows[last] == f);
    assert(first_named(p, n0) is None);
    let v0 = mac_field(f[2]);
    assert(m == p.push((n0, v0)));
    assert(!has_addr(r0, n0)) by {
        if has_addr(r0, n0) {
            let j = choose|j: int| 0 <= j < r0.len() && #[trigger] addr_row(r0[j], n0);
            assert(!is_na(r0[j][2]));
            let i = choose|i: int| 0 <= i < p.len() && (#[trigger] p[i]).0 == r0[j][0];
            assert(p[i].0 == n0);
        }
    }
    assert(has_addr(rows, n0)) by {
        assert(addr_row(rows[last], n0));
    }
    assert(chosen_mac(rows, n0, v0)) by {
        assert(addr_row(rows[last], n0));
        assert forall|k: int| 0 <= k < last implies !addr_row(#[trigger] rows[k], n0) by {
            assert(rows[k] == r0[k]);
            if addr_row(r0[k], n0) {
                assert(has_addr(r0, n0));
            }
        }
        if f[1] == "primary"@ {
            assert(primary_row(rows[last], n0));
            assert(has_primary(rows, n0));
        } else {
            assert(!has_primary(rows, n0)) by {
                if has_primary(rows, n0) {
                    let j = choose|j: int| 0 <= j < rows.len() && #[trigger] primary_row(rows[j], n0);
                    assert(addr_row(rows[j], n0));
                }
            }
        }
    }
    assert forall|i: int| 0 <= i < m.len() implies has_addr(rows, (#[trigger] m[i]).0)
        && chosen_mac(rows, m[i].0, m[i].1) by {
        if i < p.len() {
            assert(m[i] == p[i]);
            assert(has_addr(r0, p[i].0) && chosen_mac(r0, p[i].0, p[i].1));
            assert(p[i].0 != n0);
            lemma_has_carry(rows, p[i].0);
            lemma_chosen_carry(rows, p[i].0, p[i].1);
        }
    }
    assert forall|i: int, i2: int| 0 <= i < i2 < m.len() implies (#[trigger] m[i]).0 != (#[trigger] m[i2]).0 by {
        assert(m[i] == p[i]);
        if i2 < p.len() {
            assert(m[i2] == p[i2]);
        }
    }
    assert forall|j: int| 0 <= j < rows.len() && !is_na((#[trigger] rows[j])[2]) implies exists|i: int|
        0 <= i < m.len() && (#[trigger] m[i]).0 == rows[j][0] by {
        if j < last {
            assert(r0[j] == rows[j]);
            let i = choose|i: int| 0 <= i < p.len() && (#[trigger] p[i]).0 == r0[j][0];
            assert(m[i] == p[i]);
        } else {
            assert(m[p.len() as int].0 == n0);
        }
    }
    assert forall|i: int, i2: int| 0 <= i < i2 < m.len() implies first_before(rows, (#[trigger] m[i]).0,
        (#[trigger] m[i2]).0) by {
        assert(m[i] == p[i]);
        assert(has_addr(r0, p[i].0));
        if i2 < p.len() {
            assert(m[i2] == p[i2]);
            assert(first_before(r0, p[i].0, p[i2].0));
            lemma_before_carry(rows, m[i].0, m[i2].0);
        } else {
            lemma_before_new(rows, p[i].0, n0);
        }
    }
}

proof fn lemma_macs_direct(rows: Seq<Seq<Seq<char>>>)
    ensures
        macs_direct(rows),
    decreases rows.len(),
{
    if rows.len() > 0 {
        let r0 = rows.drop_last();
        lemma_macs_direct(r0);
        let p = macs_from(r0);
        let n0 = rows.last()[0];
        if is_na(rows.last()[2]) {
            lemma_step_na(rows);
        } else if exists|i: int| 0 <= i < p.len() && p[i].0 == n0 {
            let i0 = choose|i: int| 0 <= i < p.len() && p[i].0 == n0;
            lemma_step_known(rows, i0);
        } else {
            assert forall|i: int| 0 <= i < p.len() implies (#[trigger] p[i]).0 != n0 by {}
            lemma_step_new(rows);
        }
    }
}

/// What `show-phys -m` rows give, stated directly: one pair for each link
/// that some row gives an address, in the order of each link's first such
/// row, with the address of its last `primary` row when it has one and
/// else of its first row.
pub proof fn lemma_phys_macs_direct(rows: Seq<Seq<Seq<char>>>)
    ensures
        forall|i: int, i2: int| 0 <= i < i2 < macs_from(rows).len()
            ==> (#[trigger] macs_from(rows)[i]).0 != (#[trigger] macs_from(rows)[i2]).0,
        forall|i: int| 0 <= i < macs_from(rows).len() ==> has_addr(rows, (#[trigger] macs_from(rows)[i]).0)
            && chosen_mac(rows, macs_from(rows)[i].0, macs_from(rows)[i].1),
        forall|j: int| 0 <= j < rows.len() && !is_na((#[trigger] rows[j])[2])
            ==> exists|i: int| 0 <= i < macs_from(rows).len() && (#[trigger] macs_from(rows)[i]).0 == rows[j][0],
        forall|i: int, i2: int| 0 <= i < i2 < macs_from(rows).len()
            ==> first_before(rows, (#[trigger] macs_from(rows)[i]).0, (#[trigger] macs_from(rows)[i2]).0),
{
    lemma_macs_direct(rows);
}

/// The columns `dladm show-vnic` is asked for, in order.
pub open spec fn show_vnic_columns() -> Seq<Seq<char>> {
    seq!["link"@, "over"@, "speed"@, "macaddress"@, "macaddrtype"@, "vid"@, "zone"@]
}

/// The column list sent to `dladm show-vnic` is those columns,
/// comma-joined.
pub proof fn lemma_show_vnic_columns()
    ensures
        join(show_vnic_columns(), ","@) == SHOW_VNIC_COLUMNS@,
{
    let c = show_vnic_columns();
    let s = ","@;
    assert(c.take(1) =~= seq![c[0]]);
    lemma_join_take(c, s, 1);
    lemma_join_take(c, s, 2);
    lemma_join_take(c, s, 3);
    lemma_join_take(c, s, 4);
    lemma_join_take(c, s, 5);
    lemma_join_take(c, s, 6);
    assert(c.take(7) =~= c);
    reveal_strlit(",");
    reveal_strlit("link");
    reveal_strlit("over");
    reveal_strlit("speed");
    reveal_strlit("macaddress");
    reveal_strlit("macaddrtype");
    reveal_strlit("vid");
    reveal_strlit("zone");
    reveal_strlit("link,over,speed,macaddress,macaddrtype,vid,zone");
    assert(SHOW_VNIC_COLUMNS@ =~= "link"@ + ","@ + "over"@ + ","@ + "speed"@ + ","@ + "macaddress"@ + ","@ + "macaddrtype"@ + ","@ + "vid"@ + ","@ + "zone"@);
}

/// A VNIC row's zone is the text of its `zone` column, unless that column
/// says "not applicable" (empty, `--`, `-`, `?` or `none`), when the VNIC
/// is in no zone.
pub proof fn lemma_vnic_zone(r: VnicRow, f: Seq<Seq<char>>, i: int)
    requires
        vnic_row_ok(r, f),
        0 <= i < show_vnic_columns().len(),
        show_vnic_columns()[i] == "zone"@,
    ensures
        join(show_vnic_columns(), ","@) == SHOW_VNIC_COLUMNS@,
        f[i] != ""@ && f[i] != "--"@ && f[i] != "-"@ && f[i] != "?"@ && f[i] != "none"@ ==> (r.zone matches Some(z)
            && z@ == f[i]),
        f[i] == ""@ || f[i] == "--"@ || f[i] == "-"@ || f[i] == "?"@ || f[i] == "none"@ ==> r.zone is None,
{
    lemma_show_vnic_columns();
    let c = show_vnic_columns();
    reveal_strlit("link");
    reveal_strlit("over");
    reveal_strlit("speed");
    reveal_strlit("macaddress");
    reveal_strlit("macaddrtype");
    reveal_strlit("vid");
    reveal_strlit("zone");
    if i == 0 {
        assert(c[0] == "link"@);
        assert("link"@ != "zone"@) by { assert("link"@[0] != "zone"@[0]); }
    }
    if i == 1 {
        assert(c[1] == "over"@);
        assert("over"@ != "zone"@) by { assert("over"@[0] != "zone"@[0]); }
    }
    if i == 2 {
        assert(c[2] == "speed"@);
        assert("speed"@ != "zone"@) by { assert("speed"@.len() != "zone"@.len()); }
    }
    if i == 3 {
        assert(c[3] == "macaddress"@);
        assert("macaddress"@ != "zone"@) by { assert("macaddress"@.len() != "zone"@.len()); }
    }
    if i == 4 {
        assert(c[4] == "macaddrtype"@);
        assert("macaddrtype"@ != "zone"@) by { assert("macaddrtype"@.len() != "zone"@.len()); }
    }
    if i == 5 {
        assert(c[5] == "vid"@);
        assert("vid"@ != "zone"@) by { assert("vid"@.len() != "zone"@.len()); }
    }
}

} // verus!
