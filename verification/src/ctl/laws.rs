//! What reading `--vdev` flags promises: every vdev kind the pool API
//! knows is read under the name `zpool` gives it.
use vstd::prelude::*;
use crate::common::storage::VdevSpecType;
use crate::ctl::flags::{nic_spec, flag_unit_mult, known_vdev_type, vdev_devices, vdev_spec};
use crate::ctl::output::pow1024;
use crate::text::{first_of, is_ws, lemma_first_of, lower, lower_char, split_char, split_once, strip_trailing, trim, trim_end, trim_start};
use crate::zfs::cli::vdev_word;
use crate::common::network::{Duplex, LinkState, MacMode, duplex_of, mac_mode_of, state_of};
use crate::ctl::shown::{duplex_word, mac_mode_word, state_word};
use crate::net::laws::lemma_split_plain;

verus! {

/// The name of a vdev kind in `--vdev TYPE:DEVS`: its `zpool create`
/// keyword, or `stripe` for plain striped devices, which have none.
pub open spec fn vdev_kind_name(t: VdevSpecType) -> Seq<char> {
    match vdev_word(t) {
        Some(w) => w,
        None => "stripe"@,
    }
}

/// Every vdev kind, named as above and followed by `:` and at least one
/// device, is read as that kind with those devices.
pub proof fn lemma_every_vdev_kind_reads(t: VdevSpecType, devs: Seq<char>)
    requires
        vdev_devices(devs).len() > 0,
    ensures
        vdev_spec(vdev_kind_name(t) + ":"@ + devs) == Ok::<(Seq<char>, Seq<Seq<char>>), Seq<char>>(
            (vdev_kind_name(t), vdev_devices(devs))),
{
    reveal_strlit(":");
    reveal_strlit("stripe");
    reveal_strlit("mirror");
    reveal_strlit("raidz1");
    reveal_strlit("raidz2");
    reveal_strlit("raidz3");
    reveal_strlit("log");
    reveal_strlit("cache");
    reveal_strlit("spare");
    let n = vdev_kind_name(t);
    let s = n + ":"@ + devs;
    assert(forall|i: int| 0 <= i < n.len() ==> n[i] != ':');
    assert(s[n.len() as int] == ':');
    assert(s.contains(':'));
    lemma_first_of(s, ':');
    let k = first_of(s, ':');
    if k < n.len() {
        assert(s[k] == n[k]);
    }
    assert(k == n.len());
    assert(s.take(k) =~= n);
    assert(s.skip(k + 1) =~= devs);
    assert(split_once(s, ':') == Some((n, devs)));
    assert(known_vdev_type(n));
}

/// The names `--vdev` accepts are exactly the vdev kinds' names.
pub proof fn lemma_known_vdev_types(w: Seq<char>)
    ensures
        known_vdev_type(w) <==> exists|t: VdevSpecType| vdev_kind_name(t) == w,
{
    reveal_strlit("stripe");
    reveal_strlit("mirror");
    reveal_strlit("raidz1");
    reveal_strlit("raidz2");
    reveal_strlit("raidz3");
    reveal_strlit("log");
    reveal_strlit("cache");
    reveal_strlit("spare");
    if known_vdev_type(w) {
        if w == "stripe"@ { assert(vdev_kind_name(VdevSpecType::Stripe) == w); }
        if w == "mirror"@ { assert(vdev_kind_name(VdevSpecType::Mirror) == w); }
        if w == "raidz1"@ { assert(vdev_kind_name(VdevSpecType::Raidz1) == w); }
        if w == "raidz2"@ { assert(vdev_kind_name(VdevSpecType::Raidz2) == w); }
        if w == "raidz3"@ { assert(vdev_kind_name(VdevSpecType::Raidz3) == w); }
        if w == "log"@ { assert(vdev_kind_name(VdevSpecType::Log) == w); }
        if w == "cache"@ { assert(vdev_kind_name(VdevSpecType::Cache) == w); }
        if w == "spare"@ { assert(vdev_kind_name(VdevSpecType::Spare) == w); }
    }
}

/// What the client shows of a link state, a MAC mode or a duplex reads
/// back as the same value from `dladm`'s column.
pub proof fn lemma_shown_words_read_back(s: LinkState, m: MacMode, d: Duplex)
    ensures
        state_of(state_word(s)) == s,
        mac_mode_of(mac_mode_word(m)) == m,
        duplex_of(duplex_word(d)) == d,
{
    reveal_strlit("up");
    reveal_strlit("down");
    reveal_strlit("unknown");
    reveal_strlit("auto");
    reveal_strlit("fixed");
    reveal_strlit("random");
    reveal_strlit("factory");
    reveal_strlit("full");
    reveal_strlit("half");
    assert("down"@ != "up"@) by { assert("down"@.len() != "up"@.len()); }
    assert("unknown"@ != "up"@) by { assert("unknown"@.len() != "up"@.len()); }
    assert("unknown"@ != "down"@) by { assert("unknown"@.len() != "down"@.len()); }
    assert("half"@ != "full"@) by { assert("half"@[0] != "full"@[0]); }
    assert("unknown"@ != "full"@) by { assert("unknown"@.len() != "full"@.len()); }
    assert("unknown"@ != "half"@) by { assert("unknown"@.len() != "half"@.len()); }
    let w = mac_mode_word(m);
    assert(!w.contains(',')) by {
        if w.contains(',') {
            let k = choose|k: int| 0 <= k < w.len() && w[k] == ',';
        }
    }
    lemma_split_plain(w, ',');
    assert(!is_ws(w[0]));
    assert(!is_ws(w.last()));
    assert(trim_start(w) == w);
    assert(trim(w) == w);
    assert(split_char(w, ',')[0] == w);
    assert("random"@ != "fixed"@) by { assert("random"@.len() != "fixed"@.len()); }
    assert("factory"@ != "fixed"@) by { assert("factory"@.len() != "fixed"@.len()); }
    assert("factory"@ != "random"@) by { assert("factory"@.len() != "random"@.len()); }
    assert("auto"@ != "fixed"@) by { assert("auto"@.len() != "fixed"@.len()); }
    assert("auto"@ != "random"@) by { assert("auto"@.len() != "random"@.len()); }
    assert("auto"@ != "factory"@) by { assert("auto"@.len() != "factory"@.len()); }
}

/// The size units in order: kibi, mebi, gibi, tebi, pebi.
pub open spec fn unit_letter(e: int) -> char {
    if e == 0 { 'k' } else if e == 1 { 'm' } else if e == 2 { 'g' } else if e == 3 { 't' } else { 'p' }
}

proof fn lemma_unit_word(w: Seq<char>, l: char)
    requires
        w.len() >= 1,
        lower_char(w[0]) == l,
        l != 'b' && l != 'i' && !is_ws(l) && !is_ws(w[0]),
        forall|j: int| 1 <= j < w.len() ==> #[trigger] lower_char(w[j]) == 'b' || lower_char(w[j]) == 'i',
        forall|j: int| 1 <= j < w.len() ==> !is_ws(#[trigger] w[j]),
        w.len() <= 3,
        w.len() == 3 ==> lower_char(w[1]) == 'i' && lower_char(w[2]) == 'b',
        w.len() == 2 ==> lower_char(w[1]) == 'b',
    ensures
        strip_trailing(strip_trailing(lower(trim(w)), 'b'), 'i') == seq![l],
{
    assert(trim_start(w) == w);
    assert(trim_end(w) == w);
    let lw = lower(w);
    assert(lw[0] == l);
    if w.len() == 1 {
        assert(lw.drop_last().len() == 0);
        assert(strip_trailing(lw, 'b') == lw);
        assert(lw =~= seq![l]);
    } else if w.len() == 2 {
        assert(lw.drop_last() =~= seq![l]);
        assert(strip_trailing(seq![l], 'b') == seq![l]);
        assert(strip_trailing(seq![l], 'i') == seq![l]);
    } else {
        assert(lw.drop_last() =~= seq![l, 'i']);
        assert(seq![l, 'i'].drop_last() =~= seq![l]);
        assert(strip_trailing(seq![l, 'i'], 'b') == seq![l, 'i']);
        assert(strip_trailing(seq![l], 'i') == seq![l]);
    }
}

/// Each size unit is 1024 times the one before it, starting from a kibi
/// of 1024, in either case and with or without a `b`, `ib` or `iB`
/// after it (`k`, `K`, `kb`, `KiB` all mean 1024).
pub proof fn lemma_size_units(e: int, w: Seq<char>)
    requires
        0 <= e < 5,
        w.len() >= 1 && w.len() <= 3,
        lower_char(w[0]) == unit_letter(e),
        w.len() == 2 ==> (w[1] == 'b' || w[1] == 'B'),
        w.len() == 3 ==> w[1] == 'i' && (w[2] == 'b' || w[2] == 'B'),
    ensures
        flag_unit_mult(w) == Some(pow1024((e + 1) as nat) as int),
        flag_unit_mult(""@) == Some(1int),
{
    reveal_strlit("k");
    reveal_strlit("m");
    reveal_strlit("g");
    reveal_strlit("t");
    reveal_strlit("p");
    reveal_strlit("");
    assert(!is_ws(w[0]));
    lemma_unit_word(w, unit_letter(e));
    assert(pow1024(1) == 1024) by { reveal_with_fuel(pow1024, 2); }
    assert(pow1024(2) == 1048576) by { reveal_with_fuel(pow1024, 3); }
    assert(pow1024(3) == 1073741824) by { reveal_with_fuel(pow1024, 4); }
    assert(pow1024(4) == 1099511627776) by { reveal_with_fuel(pow1024, 5); }
    assert(pow1024(5) == 1125899906842624) by { reveal_with_fuel(pow1024, 6); }
    let u = seq![unit_letter(e)];
    assert(u.len() != 0);
    assert("k"@ =~= seq!['k']);
    assert("m"@ =~= seq!['m']);
    assert("g"@ =~= seq!['g']);
    assert("t"@ =~= seq!['t']);
    assert("p"@ =~= seq!['p']);
    if e == 0 {
        assert(u =~= "k"@);
    } else if e == 1 {
        assert(u =~= "m"@);
        assert(u != "k"@) by { assert(u[0] != "k"@[0]); }
    } else if e == 2 {
        assert(u =~= "g"@);
        assert(u != "k"@) by { assert(u[0] != "k"@[0]); }
        assert(u != "m"@) by { assert(u[0] != "m"@[0]); }
    } else if e == 3 {
        assert(u =~= "t"@);
        assert(u != "k"@) by { assert(u[0] != "k"@[0]); }
        assert(u != "m"@) by { assert(u[0] != "m"@[0]); }
        assert(u != "g"@) by { assert(u[0] != "g"@[0]); }
    } else {
        assert(u =~= "p"@);
        assert(u != "k"@) by { assert(u[0] != "k"@[0]); }
        assert(u != "m"@) by { assert(u[0] != "m"@[0]); }
        assert(u != "g"@) by { assert(u[0] != "g"@[0]); }
        assert(u != "t"@) by { assert(u[0] != "t"@[0]); }
    }
    let empty = ""@;
    assert(trim(empty) =~= empty);
    assert(lower(empty) =~= empty);
}

/// A `--nic` flag names the NIC by its first comma piece and the link it
/// sits on by its second, both trimmed and neither empty.
pub proof fn lemma_nic_name_over(text: Seq<char>)
    ensures
        nic_spec(text) matches Ok(x) ==> split_char(text, ',').len() >= 2 && x.0 == trim(split_char(text, ',')[0])
            && x.1 == trim(split_char(text, ',')[1]) && x.0.len() > 0 && x.1.len() > 0,
{
}

} // verus!
