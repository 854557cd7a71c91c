//! What reading back a rendered VM gives.
use vstd::prelude::*;
use crate::bhyve::render::{
    attr_get, base_attrs, bootrom_of, bootrom_text, brand_key, brand_values, cdrom_attr_name, cdrom_puts,
    disk_attr_name, disk_puts, is_on, on_off, ram_mib, ram_text, scan_step, slot_above, slot_of, slot_pos,
    vm_attr_error, vm_result_ok, vm_scan, zone_attrs,
};
use crate::bhyve::types::{BRAND, BhyveError, DiskSpec, VmConfig, VmSpec};
use crate::common::vm::Bootrom;
use crate::text::{
    dec, digit_char, digit_run, digit_value, digits_value, first_where, is_digit, is_ws, lemma_first_where,
    lemma_first_where_none, lemma_first_where_some, lemma_lex_irreflexive, lemma_lex_transitive, lemma_none_where,
    lex_lt, lower,
    lower_char, mantissa_syntax, parse_unsigned, starts_with, trim, trim_end, trim_start,
};
use crate::zfs::parse::{decimal_parts, number_end, p10, round_div, scaled_value};
use crate::zfs::keyed::strictly_sorted;
use crate::zones::parse::{
    attr_names, attr_put, key_is, lemma_attr_put_sorted, lower_bound, managed_attr, nic_views, pair_views, zone_size,
    zone_unit,
};
use crate::zones::types::ZoneConfig;

verus! {

/// Reading a key after setting one.
#[verifier::rlimit(40)]
#[verifier::spinoff_prover]
pub proof fn lemma_attr_get_put(a: Seq<(Seq<char>, Seq<char>)>, k: Seq<char>, v: Seq<char>, k2: Seq<char>)
    ensures
        attr_get(attr_put(a, k, v), k2) == (if k2 == k { Some(v) } else { attr_get(a, k2) }),
{
    let b = attr_put(a, k, v);
    let pk = key_is(k);
    let p2 = key_is(k2);
    lemma_first_where_some(a, pk);
    lemma_first_where_none(a, pk);
    lemma_first_where_some(a, p2);
    lemma_first_where_none(a, p2);
    match first_where(a, pk) {
        Some(i) => {
            assert(b == a.update(i, (k, v)));
            if k2 == k {
                assert forall|j: int| 0 <= j < i implies !p2(b[j]) by {
                    assert(b[j] == a[j]);
                }
                lemma_first_where(b, p2, i);
            } else {
                lemma_first_where_some(b, p2);
                lemma_first_where_none(b, p2);
                match first_where(a, p2) {
                    Some(m) => {
                        assert(m != i);
                        assert forall|j: int| 0 <= j < m implies !p2(b[j]) by {
                            if j != i {
                                assert(b[j] == a[j]);
                            }
                        }
                        assert(b[m] == a[m]);
                        lemma_first_where(b, p2, m);
                    },
                    None => {
                        if let Some(m) = first_where(b, p2) {
                            if m != i {
                                assert(b[m] == a[m]);
                            }
                        }
                    },
                }
            }
        },
        None => {
            let s = lower_bound(a, k);
            assert(0 <= s <= a.len()) by {
                lemma_first_where_some(a, crate::zones::parse::key_not_below(k));
            }
            assert(b == a.insert(s, (k, v)));
            if k2 == k {
                assert forall|j: int| 0 <= j < s implies !p2(b[j]) by {
                    assert(b[j] == a[j]);
                }
                lemma_first_where(b, p2, s);
            } else {
                lemma_first_where_some(b, p2);
                lemma_first_where_none(b, p2);
                match first_where(a, p2) {
                    Some(m) => {
                        let m2 = if m < s { m } else { m + 1 };
                        assert(b[m2] == a[m]);
                        assert forall|j: int| 0 <= j < m2 implies !p2(b[j]) by {
                            if j < s {
                                assert(b[j] == a[j]);
                            } else if j > s {
                                assert(b[j] == a[j - 1]);
                            }
                        }
                        lemma_first_where(b, p2, m2);
                    },
                    None => {
                        if let Some(m) = first_where(b, p2) {
                            if m < s {
                                assert(b[m] == a[m]);
                            } else if m > s {
                                assert(b[m] == a[m - 1]);
                            }
                        }
                    },
                }
            }
        },
    }
}


/// Setting disk attributes leaves a key that names no disk as it was.
proof fn lemma_disk_puts_keep(a: Seq<(Seq<char>, Seq<char>)>, ds: Seq<DiskSpec>, k: Seq<char>)
    requires
        k.len() > 0,
        k[0] != 'd',
        k != "bootdisk"@,
    ensures
        attr_get(disk_puts(a, ds), k) == attr_get(a, k),
    decreases ds.len(),
{
    if ds.len() > 0 {
        lemma_disk_puts_keep(a, ds.drop_last(), k);
        let n = disk_attr_name(ds.len() - 1, ds.last().boot);
        if !ds.last().boot {
            reveal_strlit("disk");
            assert(n[0] == 'd');
        }
        lemma_attr_get_put(disk_puts(a, ds.drop_last()), n, ds.last().zvol@, k);
    }
}

/// Setting cdrom attributes leaves a key that names no cdrom as it was.
proof fn lemma_cdrom_puts_keep(a: Seq<(Seq<char>, Seq<char>)>, cs: Seq<String>, k: Seq<char>)
    requires
        k.len() > 0,
        k[0] != 'c',
    ensures
        attr_get(cdrom_puts(a, cs), k) == attr_get(a, k),
    decreases cs.len(),
{
    if cs.len() > 0 {
        lemma_cdrom_puts_keep(a, cs.drop_last(), k);
        let n = cdrom_attr_name(cs.len() - 1);
        reveal_strlit("cdrom");
        assert(n[0] == 'c');
        lemma_attr_get_put(cdrom_puts(a, cs.drop_last()), n, cs.last()@, k);
    }
}

/// The brand's attributes of a rendered VM.
#[verifier::rlimit(40)]
#[verifier::spinoff_prover]
proof fn lemma_brand_attrs(vm: VmSpec)
    ensures
        attr_get(zone_attrs(vm), "vcpus"@) == Some(dec(vm.vcpus as nat)),
        attr_get(zone_attrs(vm), "ram"@) == Some(ram_text(vm.memory_bytes as int)),
        attr_get(zone_attrs(vm), "bootrom"@) == Some(bootrom_text(vm.bootrom)),
        attr_get(zone_attrs(vm), "acpi"@) == Some(on_off(vm.acpi)),
        attr_get(zone_attrs(vm), "vnc"@) == Some(on_off(vm.vnc)),
{
    reveal_strlit("vcpus");
    reveal_strlit("ram");
    reveal_strlit("bootrom");
    reveal_strlit("acpi");
    reveal_strlit("vnc");
    reveal_strlit("bootdisk");
    let a0 = pair_views(vm.attrs@);
    let a1 = attr_put(a0, "vcpus"@, dec(vm.vcpus as nat));
    let a2 = attr_put(a1, "ram"@, ram_text(vm.memory_bytes as int));
    let a3 = attr_put(a2, "bootrom"@, bootrom_text(vm.bootrom));
    let a4 = attr_put(a3, "acpi"@, on_off(vm.acpi));
    let a5 = attr_put(a4, "vnc"@, on_off(vm.vnc));
    assert(base_attrs(vm) == a5);
    let keys = seq!["vcpus"@, "ram"@, "bootrom"@, "acpi"@, "vnc"@];
    assert forall|i: int| 0 <= i < 5 implies {
        let k = #[trigger] keys[i];
        &&& attr_get(zone_attrs(vm), k) == attr_get(a5, k)
    } by {
        let k = keys[i];
        lemma_disk_puts_keep(a5, vm.disks@, k);
        lemma_cdrom_puts_keep(disk_puts(a5, vm.disks@), vm.cdroms@, k);
    }
    assert(keys[0] == "vcpus"@ && keys[1] == "ram"@ && keys[2] == "bootrom"@ && keys[3] == "acpi"@ && keys[4] == "vnc"@);
    lemma_attr_get_put(a0, "vcpus"@, dec(vm.vcpus as nat), "vcpus"@);
    lemma_attr_get_put(a1, "ram"@, ram_text(vm.memory_bytes as int), "vcpus"@);
    lemma_attr_get_put(a1, "ram"@, ram_text(vm.memory_bytes as int), "ram"@);
    lemma_attr_get_put(a2, "bootrom"@, bootrom_text(vm.bootrom), "vcpus"@);
    lemma_attr_get_put(a2, "bootrom"@, bootrom_text(vm.bootrom), "ram"@);
    lemma_attr_get_put(a2, "bootrom"@, bootrom_text(vm.bootrom), "bootrom"@);
    lemma_attr_get_put(a3, "acpi"@, on_off(vm.acpi), "vcpus"@);
    lemma_attr_get_put(a3, "acpi"@, on_off(vm.acpi), "ram"@);
    lemma_attr_get_put(a3, "acpi"@, on_off(vm.acpi), "bootrom"@);
    lemma_attr_get_put(a3, "acpi"@, on_off(vm.acpi), "acpi"@);
    lemma_attr_get_put(a4, "vnc"@, on_off(vm.vnc), "vcpus"@);
    lemma_attr_get_put(a4, "vnc"@, on_off(vm.vnc), "ram"@);
    lemma_attr_get_put(a4, "vnc"@, on_off(vm.vnc), "bootrom"@);
    lemma_attr_get_put(a4, "vnc"@, on_off(vm.vnc), "acpi"@);
    lemma_attr_get_put(a4, "vnc"@, on_off(vm.vnc), "vnc"@);
}


/// The decimal spelling of a number is a run of digits that reads back as it.
proof fn lemma_dec(n: nat)
    ensures
        digit_run(dec(n)),
        digits_value(dec(n), 10) == n,
    decreases n,
{
    let c = digit_char((n % 10) as int);
    assert(c as int == n % 10 + 48);
    assert(is_digit(c) && digit_value(c, 10) == Some((n % 10) as int));
    if n >= 10 {
        lemma_dec(n / 10);
        assert(dec(n).drop_last() == dec(n / 10));
        assert(dec(n).last() == c);
        assert(digits_value(dec(n), 10) == digits_value(dec(n / 10), 10) * 10 + n % 10);
    } else {
        assert(dec(n).drop_last() == Seq::<char>::empty());
        assert(dec(n).last() == c);
        assert(digits_value(Seq::<char>::empty(), 10) == 0);
        assert(digits_value(dec(n), 10) == digits_value(Seq::<char>::empty(), 10) * 10 + n % 10);
    }
}

/// Text that neither starts nor ends with white space trims to itself.
proof fn lemma_trim_plain(s: Seq<char>)
    requires
        s.len() > 0,
        !is_ws(s[0]),
        !is_ws(s.last()),
    ensures
        trim(s) == s,
{
    assert(trim_start(s) == s);
    assert(trim_end(s) == s);
}

/// A number's decimal spelling parses back as it.
proof fn lemma_dec_parses(n: nat, max: int)
    requires
        n <= max,
    ensures
        parse_unsigned(dec(n), 10, max) == Some(n as int),
{
    let d = dec(n);
    lemma_dec(n);
    assert forall|i: int| 0 <= i < d.len() implies (#[trigger] digit_value(d[i], 10)) is Some by {
        assert(is_digit(d[i]));
    }
}

/// A vCPU count reads back from its decimal spelling.
proof fn lemma_vcpus_back(n: u32)
    ensures
        parse_unsigned(trim(dec(n as nat)), 10, u32::MAX as int) == Some(n as int),
{
    lemma_dec(n as nat);
    lemma_trim_plain(dec(n as nat));
    lemma_dec_parses(n as nat, u32::MAX as int);
}

/// The `ram` attribute reads back as the memory rounded up to whole mebibytes.
proof fn lemma_ram_back(bytes: u64)
    requires
        bytes <= u64::MAX - 1048575,
    ensures
        zone_size(ram_text(bytes as int)) == Some(ram_mib(bytes as int) * 1048576),
        ram_mib(bytes as int) * 1048576 <= u64::MAX,
{
    let m = ram_mib(bytes as int);
    assert(1 <= m <= 17592186044415) by (nonlinear_arith)
        requires
            m == (if (bytes + 1048575) / 1048576 < 1 { 1 } else { (bytes + 1048575) / 1048576 }),
            bytes <= u64::MAX - 1048575,
            bytes >= 0,
    ;
    let d = dec(m as nat);
    lemma_dec(m as nat);
    reveal_strlit("M");
    reveal_strlit("m");
    let s = ram_text(bytes as int);
    assert(s == d + "M"@);
    assert(s.last() == 'M');
    assert(s[0] == d[0]);
    lemma_trim_plain(s);
    let pred = |c: char| !is_digit(c) && c != '.';
    assert forall|j: int| 0 <= j < d.len() implies !pred(s[j]) by {
        assert(s[j] == d[j]);
    }
    lemma_first_where(s, pred, d.len() as int);
    assert(number_end(s) == d.len());
    assert(s.take(d.len() as int) == d);
    assert(s.skip(d.len() as int) == "M"@);
    lemma_trim_plain("M"@);
    assert(lower("M"@) == "m"@) by {
        assert(lower_char('M') == 'm');
    }
    reveal_strlit("k");
    assert("m"@ != "k"@) by {
        assert("m"@[0] != "k"@[0]);
    }
    assert(zone_unit("m"@) == Some(1048576int));
    assert(!d.contains('.')) by {
        if d.contains('.') {
            let i = choose|i: int| 0 <= i < d.len() && d[i] == '.';
            assert(is_digit(d[i]));
        }
    }
    assert(decimal_parts(d) == (d, Seq::<char>::empty()));
    assert(mantissa_syntax(d));
    assert(d + Seq::<char>::empty() == d);
    assert(p10(0) == 1);
    reveal(scaled_value);
    let x = m * 1048576;
    assert((2 * x + 1) / 2 == x) by (nonlinear_arith);
    assert(round_div(x, 1) == x);
}

/// A firmware reads back from its `bootrom` value.
proof fn lemma_bootrom_back(b: Bootrom)
    ensures
        bootrom_of(bootrom_text(b)) == Some(b),
{
    reveal_strlit("BHYVE_RELEASE");
    reveal_strlit("BHYVE_RELEASE_CSM");
    reveal_strlit("BHYVE_DEBUG");
    reveal_strlit("BHYVE_DEBUG_CSM");
    reveal_strlit("uefi");
    reveal_strlit("uefi-csm");
    lemma_trim_plain(bootrom_text(b));
}

/// A flag reads back from `on` or `off`.
proof fn lemma_flag_back(v: bool)
    ensures
        is_on(on_off(v)) == v,
{
    reveal_strlit("on");
    reveal_strlit("off");
    reveal_strlit("true");
    reveal_strlit("yes");
    reveal_strlit("1");
    lemma_trim_plain(on_off(v));
}

/// Whether no two pairs share a name.
spec fn names_unique(a: Seq<(Seq<char>, Seq<char>)>) -> bool {
    forall|i: int, j: int| 0 <= i < j < a.len() ==> (#[trigger] a[i]).0 != (#[trigger] a[j]).0
}

/// Names in strictly increasing order are unique.
proof fn lemma_sorted_unique(a: Seq<(Seq<char>, Seq<char>)>)
    requires
        strictly_sorted(attr_names(a)),
    ensures
        names_unique(a),
{
    assert forall|i: int, j: int| 0 <= i < j < a.len() implies (#[trigger] a[i]).0 != (#[trigger] a[j]).0 by {
        let ns = attr_names(a);
        reveal(strictly_sorted);
        assert(ns.len() == a.len());
        assert(ns[i] == a[i].0 && ns[j] == a[j].0);
        assert(lex_lt(ns[i], ns[j]));
        lemma_lex_irreflexive(a[i].0);
    }
}

proof fn lemma_disk_puts_sorted(a: Seq<(Seq<char>, Seq<char>)>, ds: Seq<DiskSpec>)
    requires
        strictly_sorted(attr_names(a)),
    ensures
        strictly_sorted(attr_names(disk_puts(a, ds))),
    decreases ds.len(),
{
    if ds.len() > 0 {
        lemma_disk_puts_sorted(a, ds.drop_last());
        lemma_attr_put_sorted(disk_puts(a, ds.drop_last()), disk_attr_name(ds.len() - 1, ds.last().boot), ds.last().zvol@);
    }
}

proof fn lemma_cdrom_puts_sorted(a: Seq<(Seq<char>, Seq<char>)>, cs: Seq<String>)
    requires
        strictly_sorted(attr_names(a)),
    ensures
        strictly_sorted(attr_names(cdrom_puts(a, cs))),
    decreases cs.len(),
{
    if cs.len() > 0 {
        lemma_cdrom_puts_sorted(a, cs.drop_last());
        lemma_attr_put_sorted(cdrom_puts(a, cs.drop_last()), cdrom_attr_name(cs.len() - 1), cs.last()@);
    }
}

/// A VM's zone attributes are in strict name order when its carried ones are.
proof fn lemma_zone_attrs_sorted(vm: VmSpec)
    requires
        strictly_sorted(attr_names(pair_views(vm.attrs@))),
    ensures
        strictly_sorted(attr_names(zone_attrs(vm))),
{
    let a0 = pair_views(vm.attrs@);
    let a1 = attr_put(a0, "vcpus"@, dec(vm.vcpus as nat));
    let a2 = attr_put(a1, "ram"@, ram_text(vm.memory_bytes as int));
    let a3 = attr_put(a2, "bootrom"@, bootrom_text(vm.bootrom));
    let a4 = attr_put(a3, "acpi"@, on_off(vm.acpi));
    lemma_attr_put_sorted(a0, "vcpus"@, dec(vm.vcpus as nat));
    lemma_attr_put_sorted(a1, "ram"@, ram_text(vm.memory_bytes as int));
    lemma_attr_put_sorted(a2, "bootrom"@, bootrom_text(vm.bootrom));
    lemma_attr_put_sorted(a3, "acpi"@, on_off(vm.acpi));
    lemma_attr_put_sorted(a4, "vnc"@, on_off(vm.vnc));
    lemma_disk_puts_sorted(base_attrs(vm), vm.disks@);
    lemma_cdrom_puts_sorted(disk_puts(base_attrs(vm), vm.disks@), vm.cdroms@);
}

/// Looking a name up in a list of unique names, split at its last pair.
proof fn lemma_attr_get_last(a: Seq<(Seq<char>, Seq<char>)>, k: Seq<char>)
    requires
        names_unique(a),
        a.len() > 0,
    ensures
        attr_get(a, k) == (if k == a.last().0 { Some(a.last().1) } else { attr_get(a.drop_last(), k) }),
{
    let b = a.drop_last();
    let n = a.len() - 1;
    let p = key_is(k);
    lemma_first_where_some(a, p);
    lemma_first_where_none(a, p);
    if k == a.last().0 {
        assert forall|j: int| 0 <= j < n implies !p(a[j]) by {
            assert(a[j].0 != a[n].0);
        }
        lemma_first_where(a, p, n);
    } else {
        match first_where(a, p) {
            Some(i) => {
                assert(i < n);
                assert forall|j: int| 0 <= j < i implies !p(b[j]) by {
                    assert(b[j] == a[j]);
                }
                assert(b[i] == a[i]);
                lemma_first_where(b, p, i);
            },
            None => {
                assert forall|j: int| 0 <= j < b.len() implies !p(b[j]) by {
                    assert(b[j] == a[j]);
                }
                lemma_none_where(b, p);
            },
        }
    }
}

/// A name that reading a VM carries over as an attribute.
spec fn carried(k: Seq<char>) -> bool {
    &&& k != "bootdisk"@
    &&& slot_of(k, "disk"@, 1) is None
    &&& slot_of(k, "cdrom"@, 0) is None
    &&& !managed_attr(k) || starts_with(k, "mandrake-"@)
    &&& !brand_key(k)
}

/// What reading a list of unique names carries over: each carried name
/// with its value.
proof fn lemma_scan_attrs(a: Seq<(Seq<char>, Seq<char>)>, k: Seq<char>)
    requires
        names_unique(a),
    ensures
        attr_get(vm_scan(a).attrs, k) == (if carried(k) { attr_get(a, k) } else { None }),
    decreases a.len(),
{
    if a.len() == 0 {
        lemma_first_where_some(a, key_is(k));
        lemma_first_where_some(vm_scan(a).attrs, key_is(k));
    } else {
        let b = a.drop_last();
        assert(names_unique(b)) by {
            assert forall|i: int, j: int| 0 <= i < j < b.len() implies (#[trigger] b[i]).0 != (#[trigger] b[j]).0 by {
                assert(b[i] == a[i] && b[j] == a[j]);
            }
        }
        lemma_scan_attrs(b, k);
        lemma_attr_get_last(a, k);
        let acc = vm_scan(b);
        let kl = a.last().0;
        let vl = a.last().1;
        assert(vm_scan(a) == scan_step(acc, kl, vl));
        if carried(kl) {
            lemma_attr_get_put(acc.attrs, kl, vl, k);
        }
    }
}

/// The slot that a disk's attribute name reads back as.
proof fn lemma_disk_slot(i: nat)
    requires
        i <= u32::MAX,
    ensures
        slot_of("disk"@ + dec(i), "disk"@, 1) == Some(i as u32),
{
    reveal_strlit("disk");
    let n = "disk"@ + dec(i);
    lemma_dec(i);
    assert(n.take(4) == "disk"@);
    assert(n.skip(4) == dec(i));
    lemma_dec_parses(i, u32::MAX as int);
}

/// The slot that a cdrom's attribute name reads back as.
proof fn lemma_cdrom_slot(i: nat)
    requires
        i <= u32::MAX,
    ensures
        slot_of(cdrom_attr_name(i as int), "cdrom"@, 0) == Some(i as u32),
{
    reveal_strlit("cdrom");
    if i == 0 {
        assert("cdrom"@.take(5) == "cdrom"@);
        assert("cdrom"@.skip(5).len() == 0);
    } else {
        let n = "cdrom"@ + dec(i);
        lemma_dec(i);
        assert(n.take(5) == "cdrom"@);
        assert(n.skip(5) == dec(i));
        lemma_dec_parses(i, u32::MAX as int);
    }
}

/// Setting disk attributes leaves a name that reads as no disk as it was.
proof fn lemma_disk_puts_other(a: Seq<(Seq<char>, Seq<char>)>, ds: Seq<DiskSpec>, k: Seq<char>)
    requires
        ds.len() <= u32::MAX + 1,
        k != "bootdisk"@,
        slot_of(k, "disk"@, 1) is None,
    ensures
        attr_get(disk_puts(a, ds), k) == attr_get(a, k),
    decreases ds.len(),
{
    if ds.len() > 0 {
        lemma_disk_puts_other(a, ds.drop_last(), k);
        let i = ds.len() - 1;
        let n = disk_attr_name(i, ds.last().boot);
        if !ds.last().boot {
            lemma_disk_slot(i as nat);
        }
        assert(n != k);
        lemma_attr_get_put(disk_puts(a, ds.drop_last()), n, ds.last().zvol@, k);
    }
}

/// Setting cdrom attributes leaves a name that reads as no cdrom as it was.
proof fn lemma_cdrom_puts_other(a: Seq<(Seq<char>, Seq<char>)>, cs: Seq<String>, k: Seq<char>)
    requires
        cs.len() <= u32::MAX + 1,
        slot_of(k, "cdrom"@, 0) is None,
    ensures
        attr_get(cdrom_puts(a, cs), k) == attr_get(a, k),
    decreases cs.len(),
{
    if cs.len() > 0 {
        lemma_cdrom_puts_other(a, cs.drop_last(), k);
        let i = cs.len() - 1;
        let n = cdrom_attr_name(i);
        lemma_cdrom_slot(i as nat);
        assert(n != k);
        lemma_attr_get_put(cdrom_puts(a, cs.drop_last()), n, cs.last()@, k);
    }
}

/// A carried name has in a VM's zone the value it has among the VM's own
/// attributes.
proof fn lemma_zone_attrs_carried(vm: VmSpec, k: Seq<char>)
    requires
        vm.disks@.len() <= u32::MAX + 1,
        vm.cdroms@.len() <= u32::MAX + 1,
        carried(k),
    ensures
        attr_get(zone_attrs(vm), k) == attr_get(pair_views(vm.attrs@), k),
{
    let a0 = pair_views(vm.attrs@);
    let a1 = attr_put(a0, "vcpus"@, dec(vm.vcpus as nat));
    let a2 = attr_put(a1, "ram"@, ram_text(vm.memory_bytes as int));
    let a3 = attr_put(a2, "bootrom"@, bootrom_text(vm.bootrom));
    let a4 = attr_put(a3, "acpi"@, on_off(vm.acpi));
    lemma_cdrom_puts_other(disk_puts(base_attrs(vm), vm.disks@), vm.cdroms@, k);
    lemma_disk_puts_other(base_attrs(vm), vm.disks@, k);
    lemma_attr_get_put(a4, "vnc"@, on_off(vm.vnc), k);
    lemma_attr_get_put(a3, "acpi"@, on_off(vm.acpi), k);
    lemma_attr_get_put(a2, "bootrom"@, bootrom_text(vm.bootrom), k);
    lemma_attr_get_put(a1, "ram"@, ram_text(vm.memory_bytes as int), k);
    lemma_attr_get_put(a0, "vcpus"@, dec(vm.vcpus as nat), k);
}

/// A `mandrake-` name is carried.
proof fn lemma_mandrake_carried(k: Seq<char>)
    requires
        starts_with(k, "mandrake-"@),
    ensures
        carried(k),
{
    reveal_strlit("mandrake-");
    reveal_strlit("bootdisk");
    reveal_strlit("disk");
    reveal_strlit("cdrom");
    reveal_strlit("vcpus");
    reveal_strlit("ram");
    reveal_strlit("bootrom");
    reveal_strlit("acpi");
    reveal_strlit("vnc");
    assert(k[0] == 'm') by {
        assert(k.take(9)[0] == "mandrake-"@[0]);
    }
    assert(!starts_with(k, "disk"@)) by {
        if starts_with(k, "disk"@) {
            assert(k.take(4)[0] == "disk"@[0]);
        }
    }
    assert(!starts_with(k, "cdrom"@)) by {
        if starts_with(k, "cdrom"@) {
            assert(k.take(5)[0] == "cdrom"@[0]);
        }
    }
    assert(k != "bootdisk"@);
    assert(k != "vcpus"@ && k != "ram"@ && k != "bootrom"@ && k != "acpi"@ && k != "vnc"@);
}

/// The attributes a VM carries read back with the same values.
proof fn lemma_vm_attrs_round_trip(vm: VmSpec, cfg: ZoneConfig, r: Result<VmConfig, BhyveError>)
    requires
        vm.memory_bytes <= u64::MAX - 1048575,
        vm.disks@.len() <= u32::MAX + 1,
        vm.cdroms@.len() <= u32::MAX + 1,
        strictly_sorted(attr_names(pair_views(vm.attrs@))),
        forall|i: int| 0 <= i < vm.attrs@.len() ==> starts_with((#[trigger] vm.attrs@[i]).0@, "mandrake-"@),
        cfg.brand@ == BRAND@,
        pair_views(cfg.attrs@) == zone_attrs(vm),
        vm_result_ok(r, cfg),
    ensures
        r matches Ok(v) && forall|k: Seq<char>|
            #[trigger] attr_get(pair_views(v.attrs@), k) == attr_get(pair_views(vm.attrs@), k),
{
    let a = zone_attrs(vm);
    lemma_brand_attrs(vm);
    lemma_vcpus_back(vm.vcpus);
    lemma_ram_back(vm.memory_bytes);
    lemma_bootrom_back(vm.bootrom);
    assert(vm_attr_error(a) is None);
    lemma_zone_attrs_sorted(vm);
    lemma_sorted_unique(a);
    let v = r->Ok_0;
    let va = pair_views(vm.attrs@);
    assert forall|k: Seq<char>| #[trigger] attr_get(pair_views(v.attrs@), k) == attr_get(va, k) by {
        lemma_scan_attrs(a, k);
        if carried(k) {
            lemma_zone_attrs_carried(vm, k);
        } else {
            assert forall|j: int| 0 <= j < va.len() implies !key_is(k)(va[j]) by {
                assert(starts_with(vm.attrs@[j].0@, "mandrake-"@));
                if va[j].0 == k {
                    lemma_mandrake_carried(k);
                }
            }
            lemma_none_where(va, key_is(k));
        }
    }
}

/// Whether some entry has slot `x`.
spec fn has_slot<T>(d: Seq<(u32, T)>, x: int) -> bool {
    exists|i: int| 0 <= i < d.len() && (#[trigger] d[i]).0 == x
}

/// In a list strictly increasing by slot, each slot is at least its index.
proof fn lemma_slot_floor<T>(d: Seq<(u32, T)>, i: int)
    requires
        forall|a: int, b: int| 0 <= a < b < d.len() ==> (#[trigger] d[a]).0 < (#[trigger] d[b]).0,
        0 <= i < d.len(),
    ensures
        d[i].0 >= i,
    decreases i,
{
    if i > 0 {
        lemma_slot_floor(d, i - 1);
        assert(d[i - 1].0 < d[i].0);
    }
}

/// In such a list holding every slot below `n`, slot `s` is at index `s`.
proof fn lemma_slot_at<T>(d: Seq<(u32, T)>, n: int, s: int)
    requires
        forall|a: int, b: int| 0 <= a < b < d.len() ==> (#[trigger] d[a]).0 < (#[trigger] d[b]).0,
        forall|x: int| 0 <= x < n ==> #[trigger] has_slot(d, x),
        0 <= s < n,
    ensures
        s < d.len(),
        d[s].0 == s,
    decreases s,
{
    if s > 0 {
        lemma_slot_at(d, n, s - 1);
    }
    assert(has_slot(d, s));
    let idx = choose|i: int| 0 <= i < d.len() && (#[trigger] d[i]).0 == s;
    if idx < s {
        assert(d[idx].0 <= d[s - 1].0) by {
            if idx < s - 1 {
                assert(d[idx].0 < d[s - 1].0);
            }
        }
    } else if idx > s {
        assert(d[s].0 < d[idx].0);
        if s > 0 {
            assert(d[s - 1].0 < d[s].0);
        }
    }
}

/// A list strictly increasing by slot, whose entries are `(s, t[s])` and
/// which holds every slot of `t`, is `t` numbered from zero.
proof fn lemma_slots_exact<T>(d: Seq<(u32, T)>, t: Seq<T>)
    requires
        forall|a: int, b: int| 0 <= a < b < d.len() ==> (#[trigger] d[a]).0 < (#[trigger] d[b]).0,
        forall|i: int| 0 <= i < d.len() ==> (#[trigger] d[i]).0 < t.len() && d[i].1 == t[d[i].0 as int],
        forall|x: int| 0 <= x < t.len() ==> #[trigger] has_slot(d, x),
    ensures
        d.len() == t.len(),
        forall|i: int| 0 <= i < d.len() ==> (#[trigger] d[i]) == (i as u32, t[i]),
{
    if t.len() > 0 {
        lemma_slot_at(d, t.len() as int, t.len() - 1);
    }
    if d.len() > t.len() {
        lemma_slot_floor(d, t.len() as int);
    }
    assert forall|i: int| 0 <= i < d.len() implies (#[trigger] d[i]) == (i as u32, t[i]) by {
        lemma_slot_at(d, t.len() as int, i);
    }
}

/// Whether reading a VM's attributes takes this name as a cdrom.
spec fn cdrom_key(k: Seq<char>) -> bool {
    k != "bootdisk"@ && slot_of(k, "disk"@, 1) is None && slot_of(k, "cdrom"@, 0) is Some
}

/// The cdrom slot a name reads as.
spec fn cslot(k: Seq<char>) -> u32 {
    slot_of(k, "cdrom"@, 0)->0
}

/// Entries strictly increasing by slot.
spec fn slots_increase<T>(d: Seq<(u32, T)>) -> bool {
    forall|a: int, b: int| 0 <= a < b < d.len() ==> (#[trigger] d[a]).0 < (#[trigger] d[b]).0
}

/// Inserting an entry of a new slot where `slot_pos` puts it keeps slots
/// strictly increasing, and keeps every entry.
proof fn lemma_insert_slot<T>(d0: Seq<(u32, T)>, sl: u32, x: T)
    requires
        slots_increase(d0),
        forall|i: int| 0 <= i < d0.len() ==> (#[trigger] d0[i]).0 != sl,
    ensures
        slots_increase(d0.insert(slot_pos(d0, sl), (sl, x))),
        0 <= slot_pos(d0, sl) <= d0.len(),
        d0.insert(slot_pos(d0, sl), (sl, x)).contains((sl, x)),
        forall|i: int| 0 <= i < d0.len() + 1 ==> (#[trigger] d0.insert(slot_pos(d0, sl), (sl, x))[i]) == (sl, x)
            || d0.contains(d0.insert(slot_pos(d0, sl), (sl, x))[i]),
        forall|i: int| 0 <= i < d0.len() ==> d0.insert(slot_pos(d0, sl), (sl, x)).contains(#[trigger] d0[i]),
{
    let pos = slot_pos(d0, sl);
    let pa = slot_above::<T>(sl);
    lemma_first_where_some(d0, pa);
    lemma_first_where_none(d0, pa);
    let d = d0.insert(pos, (sl, x));
    assert forall|q: int| 0 <= q < pos implies (#[trigger] d0[q]).0 < sl by {
        assert(!pa(d0[q]));
    }
    assert forall|q: int| pos <= q < d0.len() implies (#[trigger] d0[q]).0 > sl by {
        if q > pos {
            assert(d0[pos].0 < d0[q].0);
        }
    }
    assert forall|q: int, r: int| 0 <= q < r < d.len() implies (#[trigger] d[q]).0 < (#[trigger] d[r]).0 by {
        if r < pos {
            assert(d[q] == d0[q] && d[r] == d0[r]);
        } else if r == pos {
            assert(d[q] == d0[q]);
        } else if q < pos {
            assert(d[q] == d0[q] && d[r] == d0[r - 1]);
        } else if q == pos {
            assert(d[r] == d0[r - 1]);
        } else {
            assert(d[q] == d0[q - 1] && d[r] == d0[r - 1]);
        }
    }
    assert(d[pos] == (sl, x));
    assert forall|i: int| 0 <= i < d0.len() + 1 implies (#[trigger] d[i]) == (sl, x) || d0.contains(d[i]) by {
        if i < pos {
            assert(d[i] == d0[i]);
        } else if i > pos {
            assert(d[i] == d0[i - 1]);
        }
    }
    assert forall|i: int| 0 <= i < d0.len() implies d.contains(#[trigger] d0[i]) by {
        if i < pos {
            assert(d[i] == d0[i]);
        } else {
            assert(d[i + 1] == d0[i]);
        }
    }
}

/// The entry a cdrom attribute reads as.
spec fn cdrom_entry(p: (Seq<char>, Seq<char>)) -> (u32, Seq<char>) {
    (cslot(p.0), p.1)
}

/// Whether `e` is what some cdrom attribute of `a` reads as.
spec fn from_cdrom(a: Seq<(Seq<char>, Seq<char>)>, e: (u32, Seq<char>)) -> bool {
    exists|j: int| 0 <= j < a.len() && cdrom_key(a[j].0) && e == #[trigger] cdrom_entry(a[j])
}

/// What reading cdroms gathers: strictly increasing slots, each from a
/// cdrom attribute, and every cdrom attribute there.
#[verifier::rlimit(40)]
proof fn lemma_scan_cdroms(a: Seq<(Seq<char>, Seq<char>)>)
    requires
        forall|j1: int, j2: int| 0 <= j1 < j2 < a.len() && cdrom_key((#[trigger] a[j1]).0) && cdrom_key((#[trigger] a[j2]).0)
            ==> cslot(a[j1].0) != cslot(a[j2].0),
    ensures
        slots_increase(vm_scan(a).cdroms),
        forall|i: int| 0 <= i < vm_scan(a).cdroms.len() ==> from_cdrom(a, #[trigger] vm_scan(a).cdroms[i]),
        forall|j: int| 0 <= j < a.len() && cdrom_key((#[trigger] a[j]).0) ==> vm_scan(a).cdroms.contains(
            cdrom_entry(a[j])),
    decreases a.len(),
{
    if a.len() > 0 {
        let b = a.drop_last();
        let last = a.len() - 1;
        assert forall|j: int| 0 <= j < last implies #[trigger] b[j] == a[j] by {}
        assert forall|j1: int, j2: int| 0 <= j1 < j2 < b.len() && cdrom_key((#[trigger] b[j1]).0)
            && cdrom_key((#[trigger] b[j2]).0) implies cslot(b[j1].0) != cslot(b[j2].0) by {
            assert(b[j1] == a[j1] && b[j2] == a[j2]);
        }
        lemma_scan_cdroms(b);
        let d0 = vm_scan(b).cdroms;
        let d = vm_scan(a).cdroms;
        let k = a.last().0;
        let v = a.last().1;
        assert(a[last] == a.last());
        assert(vm_scan(a) == scan_step(vm_scan(b), k, v));
        assert forall|e: (u32, Seq<char>)| from_cdrom(b, e) implies #[trigger] from_cdrom(a, e) by {
            let j = choose|j: int| 0 <= j < b.len() && cdrom_key(b[j].0) && e == #[trigger] cdrom_entry(b[j]);
            assert(b[j] == a[j]);
        }
        if cdrom_key(k) {
            let sl = cslot(k);
            assert forall|i: int| 0 <= i < d0.len() implies (#[trigger] d0[i]).0 != sl by {
                assert(from_cdrom(b, d0[i]));
                let j = choose|j: int| 0 <= j < b.len() && cdrom_key(b[j].0) && d0[i] == #[trigger] cdrom_entry(b[j]);
                assert(b[j] == a[j]);
            }
            lemma_insert_slot(d0, sl, v);
            assert(d == d0.insert(slot_pos(d0, sl), (sl, v)));
            assert(cdrom_entry(a[last]) == (sl, v));
            assert forall|i: int| 0 <= i < d.len() implies from_cdrom(a, #[trigger] d[i]) by {
                if d[i] != (sl, v) {
                    let i0 = choose|i0: int| 0 <= i0 < d0.len() && d0[i0] == d[i];
                    assert(from_cdrom(b, d0[i0]));
                }
            }
            assert forall|j: int| 0 <= j < a.len() && cdrom_key((#[trigger] a[j]).0) implies d.contains(
                cdrom_entry(a[j])) by {
                if j < last {
                    assert(b[j] == a[j]);
                    assert(d0.contains(cdrom_entry(b[j])));
                    let i0 = choose|i0: int| 0 <= i0 < d0.len() && d0[i0] == cdrom_entry(b[j]);
                    assert(d.contains(d0[i0]));
                }
            }
        } else {
            assert(d == d0);
            assert forall|i: int| 0 <= i < d.len() implies from_cdrom(a, #[trigger] d[i]) by {
                assert(from_cdrom(b, d0[i]));
            }
            assert forall|j: int| 0 <= j < a.len() && cdrom_key((#[trigger] a[j]).0) implies d.contains(
                cdrom_entry(a[j])) by {
                assert(j < last);
                assert(b[j] == a[j]);
                assert(d0.contains(cdrom_entry(b[j])));
            }
        }
    }
}

/// In a list of unique names, a pair's name looks up its value.
proof fn lemma_get_unique(a: Seq<(Seq<char>, Seq<char>)>, j: int)
    requires
        names_unique(a),
        0 <= j < a.len(),
    ensures
        attr_get(a, a[j].0) == Some(a[j].1),
{
    let p = key_is(a[j].0);
    assert forall|q: int| 0 <= q < j implies !p(a[q]) by {
        assert(a[q].0 != a[j].0);
    }
    lemma_first_where(a, p, j);
}

/// A present name looks up to the value of some pair with that name.
proof fn lemma_get_present(a: Seq<(Seq<char>, Seq<char>)>, k: Seq<char>)
    requires
        attr_get(a, k) is Some,
    ensures
        exists|j: int| 0 <= j < a.len() && a[j] == (k, attr_get(a, k)->0),
{
    lemma_first_where_some(a, key_is(k));
    let j = first_where(a, key_is(k))->0;
    assert(a[j] == (k, attr_get(a, k)->0));
}

/// The brand's attributes leave other names as the VM's own attributes
/// have them.
proof fn lemma_base_other(vm: VmSpec, k: Seq<char>)
    requires
        !brand_key(k),
    ensures
        attr_get(base_attrs(vm), k) == attr_get(pair_views(vm.attrs@), k),
{
    let a0 = pair_views(vm.attrs@);
    let a1 = attr_put(a0, "vcpus"@, dec(vm.vcpus as nat));
    let a2 = attr_put(a1, "ram"@, ram_text(vm.memory_bytes as int));
    let a3 = attr_put(a2, "bootrom"@, bootrom_text(vm.bootrom));
    let a4 = attr_put(a3, "acpi"@, on_off(vm.acpi));
    lemma_attr_get_put(a4, "vnc"@, on_off(vm.vnc), k);
    lemma_attr_get_put(a3, "acpi"@, on_off(vm.acpi), k);
    lemma_attr_get_put(a2, "bootrom"@, bootrom_text(vm.bootrom), k);
    lemma_attr_get_put(a1, "ram"@, ram_text(vm.memory_bytes as int), k);
    lemma_attr_get_put(a0, "vcpus"@, dec(vm.vcpus as nat), k);
}

/// A name that does not start with `mandrake-` is none of the VM's own.
proof fn lemma_own_absent(vm: VmSpec, k: Seq<char>)
    requires
        forall|i: int| 0 <= i < vm.attrs@.len() ==> starts_with((#[trigger] vm.attrs@[i]).0@, "mandrake-"@),
        !starts_with(k, "mandrake-"@),
    ensures
        attr_get(pair_views(vm.attrs@), k) is None,
{
    let va = pair_views(vm.attrs@);
    assert forall|j: int| 0 <= j < va.len() implies !key_is(k)(va[j]) by {
        assert(starts_with(vm.attrs@[j].0@, "mandrake-"@));
    }
    lemma_none_where(va, key_is(k));
}

/// A name with a prefix starts with the prefix's first character.
proof fn lemma_prefix_first(k: Seq<char>, p: Seq<char>)
    requires
        starts_with(k, p),
        p.len() > 0,
    ensures
        k.len() > 0 && k[0] == p[0],
{
    assert(k.take(p.len() as int)[0] == k[0]);
}

/// What setting cdrom attributes does to a lookup.
proof fn lemma_cdrom_puts_get(b: Seq<(Seq<char>, Seq<char>)>, cs: Seq<String>, k: Seq<char>)
    requires
        cs.len() <= u32::MAX + 1,
    ensures
        attr_get(cdrom_puts(b, cs), k) == (if slot_of(k, "cdrom"@, 0) is Some && cslot(k) < cs.len()
            && cdrom_attr_name(cslot(k) as int) == k {
            Some(cs[cslot(k) as int]@)
        } else {
            attr_get(b, k)
        }),
    decreases cs.len(),
{
    if cs.len() > 0 {
        let c0 = cs.drop_last();
        let i = cs.len() - 1;
        lemma_cdrom_puts_get(b, c0, k);
        let n = cdrom_attr_name(i);
        lemma_cdrom_slot(i as nat);
        lemma_attr_get_put(cdrom_puts(b, c0), n, cs.last()@, k);
        if k != n && slot_of(k, "cdrom"@, 0) is Some && cslot(k) < cs.len() && cdrom_attr_name(cslot(k) as int) == k {
            assert(cslot(k) != i);
            assert(c0[cslot(k) as int] == cs[cslot(k) as int]);
        }
    }
}

/// How each cdrom attribute of a rendered VM reads.
proof fn lemma_cdrom_attrs(vm: VmSpec, j: int)
    requires
        vm.disks@.len() <= u32::MAX + 1,
        vm.cdroms@.len() <= u32::MAX + 1,
        forall|i: int| 0 <= i < vm.attrs@.len() ==> starts_with((#[trigger] vm.attrs@[i]).0@, "mandrake-"@),
        names_unique(zone_attrs(vm)),
        0 <= j < zone_attrs(vm).len(),
        cdrom_key(zone_attrs(vm)[j].0),
    ensures
        cslot(zone_attrs(vm)[j].0) < vm.cdroms@.len(),
        zone_attrs(vm)[j].0 == cdrom_attr_name(cslot(zone_attrs(vm)[j].0) as int),
        zone_attrs(vm)[j].1 == vm.cdroms@[cslot(zone_attrs(vm)[j].0) as int]@,
{
    let a = zone_attrs(vm);
    let k = a[j].0;
    lemma_get_unique(a, j);
    lemma_cdrom_puts_get(disk_puts(base_attrs(vm), vm.disks@), vm.cdroms@, k);
    reveal_strlit("cdrom");
    reveal_strlit("mandrake-");
    reveal_strlit("vcpus");
    reveal_strlit("ram");
    reveal_strlit("bootrom");
    reveal_strlit("acpi");
    reveal_strlit("vnc");
    assert(starts_with(k, "cdrom"@));
    lemma_prefix_first(k, "cdrom"@);
    if !(cslot(k) < vm.cdroms@.len() && cdrom_attr_name(cslot(k) as int) == k) {
        lemma_disk_puts_other(base_attrs(vm), vm.disks@, k);
        assert(!brand_key(k));
        lemma_base_other(vm, k);
        assert(!starts_with(k, "mandrake-"@)) by {
            if starts_with(k, "mandrake-"@) {
                lemma_prefix_first(k, "mandrake-"@);
            }
        }
        lemma_own_absent(vm, k);
    }
}

/// Each cdrom of a VM has its attribute among the rendered ones.
proof fn lemma_cdrom_present(vm: VmSpec, s: int)
    requires
        vm.cdroms@.len() <= u32::MAX + 1,
        0 <= s < vm.cdroms@.len(),
    ensures
        cdrom_key(cdrom_attr_name(s)),
        cslot(cdrom_attr_name(s)) == s,
        exists|j: int| 0 <= j < zone_attrs(vm).len() && zone_attrs(vm)[j] == (cdrom_attr_name(s), vm.cdroms@[s]@),
{
    let n = cdrom_attr_name(s);
    lemma_cdrom_slot(s as nat);
    reveal_strlit("cdrom");
    reveal_strlit("bootdisk");
    reveal_strlit("disk");
    assert(n[0] == 'c');
    assert(n != "bootdisk"@);
    assert(!starts_with(n, "disk"@)) by {
        if starts_with(n, "disk"@) {
            lemma_prefix_first(n, "disk"@);
        }
    }
    lemma_cdrom_puts_get(disk_puts(base_attrs(vm), vm.disks@), vm.cdroms@, n);
    lemma_get_present(zone_attrs(vm), n);
}

/// A rendered VM's ISOs read back in their slots, numbered from zero.
proof fn lemma_vm_cdroms_round_trip(vm: VmSpec, cfg: ZoneConfig, r: Result<VmConfig, BhyveError>)
    requires
        vm.memory_bytes <= u64::MAX - 1048575,
        vm.disks@.len() <= u32::MAX + 1,
        vm.cdroms@.len() <= u32::MAX + 1,
        strictly_sorted(attr_names(pair_views(vm.attrs@))),
        forall|i: int| 0 <= i < vm.attrs@.len() ==> starts_with((#[trigger] vm.attrs@[i]).0@, "mandrake-"@),
        cfg.brand@ == BRAND@,
        pair_views(cfg.attrs@) == zone_attrs(vm),
        vm_result_ok(r, cfg),
    ensures
        r matches Ok(v) && v.cdroms@.len() == vm.cdroms@.len() && forall|i: int| 0 <= i < v.cdroms@.len()
            ==> (#[trigger] v.cdroms@[i]).0 == i && v.cdroms@[i].1@ == vm.cdroms@[i]@,
{
    let a = zone_attrs(vm);
    lemma_brand_attrs(vm);
    lemma_vcpus_back(vm.vcpus);
    lemma_ram_back(vm.memory_bytes);
    lemma_bootrom_back(vm.bootrom);
    assert(vm_attr_error(a) is None);
    lemma_zone_attrs_sorted(vm);
    lemma_sorted_unique(a);
    assert forall|j1: int, j2: int| 0 <= j1 < j2 < a.len() && cdrom_key((#[trigger] a[j1]).0)
        && cdrom_key((#[trigger] a[j2]).0) implies cslot(a[j1].0) != cslot(a[j2].0) by {
        lemma_cdrom_attrs(vm, j1);
        lemma_cdrom_attrs(vm, j2);
    }
    lemma_scan_cdroms(a);
    let d = vm_scan(a).cdroms;
    let t = vm.cdroms@.map_values(|c: String| c@);
    assert forall|i: int| 0 <= i < d.len() implies (#[trigger] d[i]).0 < t.len() && d[i].1 == t[d[i].0 as int] by {
        assert(from_cdrom(a, d[i]));
        let j = choose|j: int| 0 <= j < a.len() && cdrom_key(a[j].0) && d[i] == #[trigger] cdrom_entry(a[j]);
        lemma_cdrom_attrs(vm, j);
    }
    assert forall|x: int| 0 <= x < t.len() implies #[trigger] has_slot(d, x) by {
        lemma_cdrom_present(vm, x);
        let j = choose|j: int| 0 <= j < a.len() && a[j] == (cdrom_attr_name(x), vm.cdroms@[x]@);
        assert(cdrom_key(a[j].0));
        assert(d.contains(cdrom_entry(a[j])));
        let i = choose|i: int| 0 <= i < d.len() && d[i] == cdrom_entry(a[j]);
        assert(d[i].0 == x);
    }
    assert(slots_increase(d));
    lemma_slots_exact(d, t);
    let v = r->Ok_0;
    assert forall|i: int| 0 <= i < v.cdroms@.len() implies (#[trigger] v.cdroms@[i]).0 == i
        && v.cdroms@[i].1@ == vm.cdroms@[i]@ by {
        assert(crate::bhyve::render::cdrom_views(v.cdroms@)[i] == d[i]);
    }
}

/// Whether reading a VM's attributes takes this name as a disk.
spec fn disk_key(k: Seq<char>) -> bool {
    k == "bootdisk"@ || slot_of(k, "disk"@, 1) is Some
}

/// The disk slot a name reads as.
spec fn dslot(k: Seq<char>) -> u32 {
    if k == "bootdisk"@ { 0 } else { slot_of(k, "disk"@, 1)->0 }
}

/// The entry a disk attribute reads as.
spec fn disk_entry(p: (Seq<char>, Seq<char>)) -> (u32, (Seq<char>, bool)) {
    (dslot(p.0), (p.1, p.0 == "bootdisk"@))
}

/// Whether `e` is what some disk attribute of `a` reads as.
spec fn from_disk(a: Seq<(Seq<char>, Seq<char>)>, e: (u32, (Seq<char>, bool))) -> bool {
    exists|j: int| 0 <= j < a.len() && disk_key(a[j].0) && e == #[trigger] disk_entry(a[j])
}

/// What reading disks gathers: strictly increasing slots, each from a
/// disk attribute, and every disk attribute there.
#[verifier::rlimit(100)]
#[verifier::spinoff_prover]
proof fn lemma_scan_disks(a: Seq<(Seq<char>, Seq<char>)>)
    requires
        forall|j1: int, j2: int| 0 <= j1 < j2 < a.len() && disk_key((#[trigger] a[j1]).0) && disk_key((#[trigger] a[j2]).0)
            ==> dslot(a[j1].0) != dslot(a[j2].0),
    ensures
        slots_increase(vm_scan(a).disks),
        forall|i: int| 0 <= i < vm_scan(a).disks.len() ==> from_disk(a, #[trigger] vm_scan(a).disks[i]),
        forall|j: int| 0 <= j < a.len() && disk_key((#[trigger] a[j]).0) ==> vm_scan(a).disks.contains(
            disk_entry(a[j])),
    decreases a.len(),
{
    if a.len() > 0 {
        let b = a.drop_last();
        let last = a.len() - 1;
        assert forall|j: int| 0 <= j < last implies #[trigger] b[j] == a[j] by {}
        assert forall|j1: int, j2: int| 0 <= j1 < j2 < b.len() && disk_key((#[trigger] b[j1]).0)
            && disk_key((#[trigger] b[j2]).0) implies dslot(b[j1].0) != dslot(b[j2].0) by {
            assert(b[j1] == a[j1] && b[j2] == a[j2]);
        }
        lemma_scan_disks(b);
        let d0 = vm_scan(b).disks;
        let d = vm_scan(a).disks;
        let k = a.last().0;
        let v = a.last().1;
        assert(a[last] == a.last());
        assert(vm_scan(a) == scan_step(vm_scan(b), k, v));
        assert forall|e: (u32, (Seq<char>, bool))| from_disk(b, e) implies #[trigger] from_disk(a, e) by {
            let j = choose|j: int| 0 <= j < b.len() && disk_key(b[j].0) && e == #[trigger] disk_entry(b[j]);
            assert(b[j] == a[j]);
        }
        if disk_key(k) {
            let sl = dslot(k);
            let x = (v, k == "bootdisk"@);
            assert forall|i: int| 0 <= i < d0.len() implies (#[trigger] d0[i]).0 != sl by {
                assert(from_disk(b, d0[i]));
                let j = choose|j: int| 0 <= j < b.len() && disk_key(b[j].0) && d0[i] == #[trigger] disk_entry(b[j]);
                assert(b[j] == a[j]);
            }
            lemma_insert_slot(d0, sl, x);
            if k == "bootdisk"@ {
                assert(d == d0.insert(slot_pos(d0, 0), (0u32, (v, true))));
            } else {
                assert(d == d0.insert(slot_pos(d0, sl), (sl, (v, false))));
            }
            assert(disk_entry(a[last]) == (sl, x));
            assert forall|i: int| 0 <= i < d.len() implies from_disk(a, #[trigger] d[i]) by {
                if d[i] != (sl, x) {
                    let i0 = choose|i0: int| 0 <= i0 < d0.len() && d0[i0] == d[i];
                    assert(from_disk(b, d0[i0]));
                }
            }
            assert forall|j: int| 0 <= j < a.len() && disk_key((#[trigger] a[j]).0) implies d.contains(
                disk_entry(a[j])) by {
                if j < last {
                    assert(b[j] == a[j]);
                    assert(d0.contains(disk_entry(b[j])));
                    let i0 = choose|i0: int| 0 <= i0 < d0.len() && d0[i0] == disk_entry(b[j]);
                    assert(d.contains(d0[i0]));
                }
            }
        } else {
            assert(d == d0);
            assert forall|i: int| 0 <= i < d.len() implies from_disk(a, #[trigger] d[i]) by {
                assert(from_disk(b, d0[i]));
            }
            assert forall|j: int| 0 <= j < a.len() && disk_key((#[trigger] a[j]).0) implies d.contains(
                disk_entry(a[j])) by {
                assert(j < last);
                assert(b[j] == a[j]);
                assert(d0.contains(disk_entry(b[j])));
            }
        }
    }
}

/// Only the first disk may boot.
spec fn boot_first(ds: Seq<DiskSpec>) -> bool {
    forall|i: int| 0 < i < ds.len() ==> !(#[trigger] ds[i]).boot
}

/// A disk's attribute name reads as a disk in its own slot.
proof fn lemma_disk_name(ds: Seq<DiskSpec>, i: int)
    requires
        ds.len() <= u32::MAX + 1,
        boot_first(ds),
        0 <= i < ds.len(),
    ensures
        disk_key(disk_attr_name(i, ds[i].boot)),
        dslot(disk_attr_name(i, ds[i].boot)) == i,
        disk_attr_name(i, ds[i].boot) == "bootdisk"@ <==> ds[i].boot,
        disk_attr_name(i, ds[i].boot)[0] == 'b' || disk_attr_name(i, ds[i].boot)[0] == 'd',
        disk_attr_name(i, ds[i].boot).len() > 0,
{
    reveal_strlit("bootdisk");
    reveal_strlit("disk");
    if !ds[i].boot {
        lemma_disk_slot(i as nat);
        let n = "disk"@ + dec(i as nat);
        assert(n[0] == 'd');
        assert(n != "bootdisk"@) by {
            assert("bootdisk"@[0] == 'b');
        }
    }
}

/// What setting disk attributes does to a lookup.
proof fn lemma_disk_puts_get(b: Seq<(Seq<char>, Seq<char>)>, ds: Seq<DiskSpec>, k: Seq<char>)
    requires
        ds.len() <= u32::MAX + 1,
        boot_first(ds),
    ensures
        attr_get(disk_puts(b, ds), k) == (if disk_key(k) && dslot(k) < ds.len()
            && disk_attr_name(dslot(k) as int, ds[dslot(k) as int].boot) == k {
            Some(ds[dslot(k) as int].zvol@)
        } else {
            attr_get(b, k)
        }),
    decreases ds.len(),
{
    if ds.len() > 0 {
        let d0 = ds.drop_last();
        let i = ds.len() - 1;
        assert(boot_first(d0)) by {
            assert forall|q: int| 0 < q < d0.len() implies !(#[trigger] d0[q]).boot by {
                assert(d0[q] == ds[q]);
            }
        }
        lemma_disk_puts_get(b, d0, k);
        assert(ds.last() == ds[i]);
        let n = disk_attr_name(i, ds[i].boot);
        lemma_disk_name(ds, i);
        lemma_attr_get_put(disk_puts(b, d0), n, ds.last().zvol@, k);
        if k != n && disk_key(k) && dslot(k) < ds.len() && disk_attr_name(dslot(k) as int, ds[dslot(k) as int].boot) == k {
            assert(dslot(k) != i);
            assert(d0[dslot(k) as int] == ds[dslot(k) as int]);
        }
    }
}

/// A disk name does not read as a cdrom, a brand attribute, or one of the
/// VM's own.
proof fn lemma_disk_key_other(vm: VmSpec, k: Seq<char>)
    requires
        disk_key(k),
        forall|i: int| 0 <= i < vm.attrs@.len() ==> starts_with((#[trigger] vm.attrs@[i]).0@, "mandrake-"@),
    ensures
        slot_of(k, "cdrom"@, 0) is None,
        !brand_key(k),
        attr_get(pair_views(vm.attrs@), k) is None,
{
    reveal_strlit("bootdisk");
    reveal_strlit("disk");
    reveal_strlit("cdrom");
    reveal_strlit("mandrake-");
    reveal_strlit("vcpus");
    reveal_strlit("ram");
    reveal_strlit("bootrom");
    reveal_strlit("acpi");
    reveal_strlit("vnc");
    if k != "bootdisk"@ {
        assert(starts_with(k, "disk"@));
        lemma_prefix_first(k, "disk"@);
    }
    assert(k.len() > 0 && (k[0] == 'b' || k[0] == 'd'));
    assert(!starts_with(k, "cdrom"@)) by {
        if starts_with(k, "cdrom"@) {
            lemma_prefix_first(k, "cdrom"@);
        }
    }
    assert(k != "bootrom"@) by {
        if k == "bootdisk"@ {
            assert(k.len() != "bootrom"@.len());
        }
    }
    assert(!starts_with(k, "mandrake-"@)) by {
        if starts_with(k, "mandrake-"@) {
            lemma_prefix_first(k, "mandrake-"@);
        }
    }
    lemma_own_absent(vm, k);
}

/// How each disk attribute of a rendered VM reads.
proof fn lemma_disk_attrs(vm: VmSpec, j: int)
    requires
        vm.disks@.len() <= u32::MAX + 1,
        vm.cdroms@.len() <= u32::MAX + 1,
        boot_first(vm.disks@),
        forall|i: int| 0 <= i < vm.attrs@.len() ==> starts_with((#[trigger] vm.attrs@[i]).0@, "mandrake-"@),
        names_unique(zone_attrs(vm)),
        0 <= j < zone_attrs(vm).len(),
        disk_key(zone_attrs(vm)[j].0),
    ensures
        dslot(zone_attrs(vm)[j].0) < vm.disks@.len(),
        zone_attrs(vm)[j].0 == disk_attr_name(dslot(zone_attrs(vm)[j].0) as int,
            vm.disks@[dslot(zone_attrs(vm)[j].0) as int].boot),
        zone_attrs(vm)[j].1 == vm.disks@[dslot(zone_attrs(vm)[j].0) as int].zvol@,
{
    let a = zone_attrs(vm);
    let k = a[j].0;
    lemma_get_unique(a, j);
    lemma_disk_key_other(vm, k);
    lemma_cdrom_puts_other(disk_puts(base_attrs(vm), vm.disks@), vm.cdroms@, k);
    lemma_disk_puts_get(base_attrs(vm), vm.disks@, k);
    lemma_base_other(vm, k);
}

/// Each disk of a VM has its attribute among the rendered ones.
proof fn lemma_disk_present(vm: VmSpec, s: int)
    requires
        vm.disks@.len() <= u32::MAX + 1,
        vm.cdroms@.len() <= u32::MAX + 1,
        boot_first(vm.disks@),
        0 <= s < vm.disks@.len(),
    ensures
        disk_key(disk_attr_name(s, vm.disks@[s].boot)),
        dslot(disk_attr_name(s, vm.disks@[s].boot)) == s,
        disk_attr_name(s, vm.disks@[s].boot) == "bootdisk"@ <==> vm.disks@[s].boot,
        exists|j: int| 0 <= j < zone_attrs(vm).len()
            && zone_attrs(vm)[j] == (disk_attr_name(s, vm.disks@[s].boot), vm.disks@[s].zvol@),
{
    let n = disk_attr_name(s, vm.disks@[s].boot);
    lemma_disk_name(vm.disks@, s);
    reveal_strlit("cdrom");
    assert(!starts_with(n, "cdrom"@)) by {
        if starts_with(n, "cdrom"@) {
            lemma_prefix_first(n, "cdrom"@);
        }
    }
    lemma_cdrom_puts_other(disk_puts(base_attrs(vm), vm.disks@), vm.cdroms@, n);
    lemma_disk_puts_get(base_attrs(vm), vm.disks@, n);
    lemma_get_present(zone_attrs(vm), n);
}

/// A rendered VM's disks read back in their slots, numbered from zero.
proof fn lemma_vm_disks_round_trip(vm: VmSpec, cfg: ZoneConfig, r: Result<VmConfig, BhyveError>)
    requires
        vm.memory_bytes <= u64::MAX - 1048575,
        vm.disks@.len() <= u32::MAX + 1,
        vm.cdroms@.len() <= u32::MAX + 1,
        forall|i: int| 0 < i < vm.disks@.len() ==> !(#[trigger] vm.disks@[i]).boot,
        strictly_sorted(attr_names(pair_views(vm.attrs@))),
        forall|i: int| 0 <= i < vm.attrs@.len() ==> starts_with((#[trigger] vm.attrs@[i]).0@, "mandrake-"@),
        cfg.brand@ == BRAND@,
        pair_views(cfg.attrs@) == zone_attrs(vm),
        vm_result_ok(r, cfg),
    ensures
        r matches Ok(v) && v.disks@.len() == vm.disks@.len() && forall|i: int| 0 <= i < v.disks@.len()
            ==> (#[trigger] v.disks@[i]).0 == i && v.disks@[i].1.zvol@ == vm.disks@[i].zvol@
            && v.disks@[i].1.boot == vm.disks@[i].boot,
{
    let a = zone_attrs(vm);
    assert(boot_first(vm.disks@));
    lemma_brand_attrs(vm);
    lemma_vcpus_back(vm.vcpus);
    lemma_ram_back(vm.memory_bytes);
    lemma_bootrom_back(vm.bootrom);
    assert(vm_attr_error(a) is None);
    lemma_zone_attrs_sorted(vm);
    lemma_sorted_unique(a);
    assert forall|j1: int, j2: int| 0 <= j1 < j2 < a.len() && disk_key((#[trigger] a[j1]).0)
        && disk_key((#[trigger] a[j2]).0) implies dslot(a[j1].0) != dslot(a[j2].0) by {
        lemma_disk_attrs(vm, j1);
        lemma_disk_attrs(vm, j2);
    }
    lemma_scan_disks(a);
    let d = vm_scan(a).disks;
    let t = vm.disks@.map_values(|x: DiskSpec| (x.zvol@, x.boot));
    assert forall|i: int| 0 <= i < d.len() implies (#[trigger] d[i]).0 < t.len() && d[i].1 == t[d[i].0 as int] by {
        assert(from_disk(a, d[i]));
        let j = choose|j: int| 0 <= j < a.len() && disk_key(a[j].0) && d[i] == #[trigger] disk_entry(a[j]);
        lemma_disk_attrs(vm, j);
        lemma_disk_name(vm.disks@, dslot(a[j].0) as int);
    }
    assert forall|x: int| 0 <= x < t.len() implies #[trigger] has_slot(d, x) by {
        lemma_disk_present(vm, x);
        let j = choose|j: int| 0 <= j < a.len()
            && a[j] == (disk_attr_name(x, vm.disks@[x].boot), vm.disks@[x].zvol@);
        assert(disk_key(a[j].0));
        assert(d.contains(disk_entry(a[j])));
        let i = choose|i: int| 0 <= i < d.len() && d[i] == disk_entry(a[j]);
        assert(d[i].0 == x);
    }
    assert(slots_increase(d));
    lemma_slots_exact(d, t);
    let v = r->Ok_0;
    assert forall|i: int| 0 <= i < v.disks@.len() implies (#[trigger] v.disks@[i]).0 == i
        && v.disks@[i].1.zvol@ == vm.disks@[i].zvol@ && v.disks@[i].1.boot == vm.disks@[i].boot by {
        assert(crate::bhyve::render::disk_views(v.disks@)[i] == d[i]);
    }
}

/// What reading a VM carries over is in strict name order.
proof fn lemma_scan_attrs_sorted(a: Seq<(Seq<char>, Seq<char>)>)
    ensures
        strictly_sorted(attr_names(vm_scan(a).attrs)),
    decreases a.len(),
{
    if a.len() == 0 {
        reveal(strictly_sorted);
    } else {
        let b = a.drop_last();
        lemma_scan_attrs_sorted(b);
        assert(vm_scan(a) == scan_step(vm_scan(b), a.last().0, a.last().1));
        lemma_attr_put_sorted(vm_scan(b).attrs, a.last().0, a.last().1);
    }
}

/// In strict name order, the last name is above every other.
proof fn lemma_last_above(x: Seq<(Seq<char>, Seq<char>)>, j: int)
    requires
        strictly_sorted(attr_names(x)),
        0 <= j < x.len() - 1,
    ensures
        lex_lt(x[j].0, x.last().0),
{
    reveal(strictly_sorted);
    let ns = attr_names(x);
    assert(ns[j] == x[j].0 && ns[x.len() - 1] == x.last().0);
}

/// Two lists in strict name order with the same lookups are equal.
proof fn lemma_lookup_eq(x: Seq<(Seq<char>, Seq<char>)>, y: Seq<(Seq<char>, Seq<char>)>)
    requires
        strictly_sorted(attr_names(x)),
        strictly_sorted(attr_names(y)),
        forall|k: Seq<char>| #[trigger] attr_get(x, k) == attr_get(y, k),
    ensures
        x == y,
    decreases x.len(),
{
    lemma_sorted_unique(x);
    lemma_sorted_unique(y);
    if x.len() == 0 || y.len() == 0 {
        if x.len() > 0 {
            lemma_get_unique(x, 0);
            lemma_first_where_some(y, key_is(x[0].0));
            assert(attr_get(x, x[0].0) == attr_get(y, x[0].0));
        }
        if y.len() > 0 {
            lemma_get_unique(y, 0);
            lemma_first_where_some(x, key_is(y[0].0));
            assert(attr_get(x, y[0].0) == attr_get(y, y[0].0));
        }
        assert(x =~= y);
    } else {
        let kx = x.last().0;
        let ky = y.last().0;
        lemma_get_unique(x, x.len() - 1);
        lemma_get_unique(y, y.len() - 1);
        assert(x[x.len() - 1] == x.last() && y[y.len() - 1] == y.last());
        if kx != ky {
            assert(attr_get(y, kx) is Some);
            lemma_first_where_some(y, key_is(kx));
            let jy = first_where(y, key_is(kx))->0;
            assert(jy < y.len() - 1);
            lemma_last_above(y, jy);
            assert(attr_get(x, ky) is Some);
            lemma_first_where_some(x, key_is(ky));
            let jx = first_where(x, key_is(ky))->0;
            assert(jx < x.len() - 1);
            lemma_last_above(x, jx);
            lemma_lex_transitive(kx, ky, kx);
            lemma_lex_irreflexive(kx);
        }
        assert(x.last() == y.last());
        let x0 = x.drop_last();
        let y0 = y.drop_last();
        assert forall|k: Seq<char>| #[trigger] attr_get(x0, k) == attr_get(y0, k) by {
            lemma_attr_get_last(x, k);
            lemma_attr_get_last(y, k);
            if k == kx {
                lemma_first_where_some(x0, key_is(k));
                lemma_first_where_some(y0, key_is(k));
                if let Some(i) = first_where(x0, key_is(k)) {
                    assert(x[i] == x0[i]);
                    assert(x[i].0 != x[x.len() - 1].0);
                }
                if let Some(i) = first_where(y0, key_is(k)) {
                    assert(y[i] == y0[i]);
                    assert(y[i].0 != y[y.len() - 1].0);
                }
            }
        }
        assert(strictly_sorted(attr_names(x0)) && strictly_sorted(attr_names(y0))) by {
            reveal(strictly_sorted);
            assert forall|i: int, j: int| 0 <= i < j < attr_names(x0).len() implies lex_lt(
                #[trigger] attr_names(x0)[i], #[trigger] attr_names(x0)[j]) by {
                assert(attr_names(x0)[i] == attr_names(x)[i] && attr_names(x0)[j] == attr_names(x)[j]);
            }
            assert forall|i: int, j: int| 0 <= i < j < attr_names(y0).len() implies lex_lt(
                #[trigger] attr_names(y0)[i], #[trigger] attr_names(y0)[j]) by {
                assert(attr_names(y0)[i] == attr_names(y)[i] && attr_names(y0)[j] == attr_names(y)[j]);
            }
        }
        lemma_lookup_eq(x0, y0);
        assert(x == x0.push(x.last()));
        assert(y == y0.push(y.last()));
    }
}

/// Reading back the zone that a VM renders to: a zone of the bhyve brand,
/// configured with what `to_zone_spec` gives for the VM, reads back as that
/// VM's name, zonepath, vCPU count, firmware, ACPI and VNC flags, autoboot
/// and NICs, with its memory rounded up to whole mebibytes (at least one).
pub proof fn lemma_vm_settings_round_trip(vm: VmSpec, cfg: ZoneConfig, r: Result<VmConfig, BhyveError>)
    requires
        vm.memory_bytes <= u64::MAX - 1048575,
        cfg.name@ == vm.name@,
        cfg.brand@ == BRAND@,
        cfg.zonepath@ == vm.zonepath@,
        cfg.autoboot == vm.autoboot,
        nic_views(cfg.nics@) == nic_views(vm.nics@),
        pair_views(cfg.attrs@) == zone_attrs(vm),
        vm_result_ok(r, cfg),
    ensures
        r matches Ok(v) && {
            &&& v.name@ == vm.name@
            &&& v.zonepath@ == vm.zonepath@
            &&& v.vcpus == vm.vcpus
            &&& v.memory_bytes == ram_mib(vm.memory_bytes as int) * 1048576
            &&& v.bootrom == vm.bootrom
            &&& v.acpi == vm.acpi
            &&& v.vnc == vm.vnc
            &&& v.autoboot == vm.autoboot
            &&& nic_views(v.nics@) == nic_views(vm.nics@)
        },
{
    let a = zone_attrs(vm);
    lemma_brand_attrs(vm);
    lemma_vcpus_back(vm.vcpus);
    lemma_ram_back(vm.memory_bytes);
    lemma_bootrom_back(vm.bootrom);
    lemma_flag_back(vm.acpi);
    lemma_flag_back(vm.vnc);
    assert(vm_attr_error(a) is None);
    assert(brand_values(a) == (vm.vcpus as int, ram_mib(vm.memory_bytes as int) * 1048576, vm.bootrom));
}

/// Reading back a rendered VM gives the VM: a bhyve zone configured with
/// what `to_zone_spec` gives for a VM reads back as that VM's name,
/// zonepath, vCPUs, firmware, ACPI and VNC flags, autoboot, NICs, disks and
/// ISOs (numbered by slot from zero) and carried attributes, with its memory
/// rounded up to whole mebibytes (at least one); when only its first disk
/// boots and its own attributes are `mandrake-` names in strict name order.
pub proof fn lemma_vm_round_trip(vm: VmSpec, cfg: ZoneConfig, r: Result<VmConfig, BhyveError>)
    requires
        vm.memory_bytes <= u64::MAX - 1048575,
        vm.disks@.len() <= u32::MAX + 1,
        vm.cdroms@.len() <= u32::MAX + 1,
        forall|i: int| 0 < i < vm.disks@.len() ==> !(#[trigger] vm.disks@[i]).boot,
        strictly_sorted(attr_names(pair_views(vm.attrs@))),
        forall|i: int| 0 <= i < vm.attrs@.len() ==> starts_with((#[trigger] vm.attrs@[i]).0@, "mandrake-"@),
        cfg.name@ == vm.name@,
        cfg.brand@ == BRAND@,
        cfg.zonepath@ == vm.zonepath@,
        cfg.autoboot == vm.autoboot,
        nic_views(cfg.nics@) == nic_views(vm.nics@),
        pair_views(cfg.attrs@) == zone_attrs(vm),
        vm_result_ok(r, cfg),
    ensures
        r matches Ok(v) && {
            &&& v.name@ == vm.name@
            &&& v.zonepath@ == vm.zonepath@
            &&& v.vcpus == vm.vcpus
            &&& v.memory_bytes == ram_mib(vm.memory_bytes as int) * 1048576
            &&& v.bootrom == vm.bootrom
            &&& v.acpi == vm.acpi
            &&& v.vnc == vm.vnc
            &&& v.autoboot == vm.autoboot
            &&& nic_views(v.nics@) == nic_views(vm.nics@)
            &&& v.disks@.len() == vm.disks@.len()
            &&& forall|i: int| 0 <= i < v.disks@.len() ==> (#[trigger] v.disks@[i]).0 == i
                && v.disks@[i].1.zvol@ == vm.disks@[i].zvol@ && v.disks@[i].1.boot == vm.disks@[i].boot
            &&& v.cdroms@.len() == vm.cdroms@.len()
            &&& forall|i: int| 0 <= i < v.cdroms@.len() ==> (#[trigger] v.cdroms@[i]).0 == i
                && v.cdroms@[i].1@ == vm.cdroms@[i]@
            &&& pair_views(v.attrs@) == pair_views(vm.attrs@)
        },
{
    lemma_vm_settings_round_trip(vm, cfg, r);
    lemma_vm_attrs_round_trip(vm, cfg, r);
    lemma_vm_disks_round_trip(vm, cfg, r);
    lemma_vm_cdroms_round_trip(vm, cfg, r);
    let v = r->Ok_0;
    lemma_scan_attrs_sorted(zone_attrs(vm));
    lemma_lookup_eq(pair_views(v.attrs@), pair_views(vm.attrs@));
}

} // verus!
