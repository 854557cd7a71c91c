//! The mapping between a VM and the bhyve brand's zone configuration.
use vstd::prelude::*;
use crate::bhyve::types::{BRAND, BhyveError, DiskSpec, VmConfig, VmSpec};
use crate::common::shell::string_views;
use crate::common::vm::Bootrom;
use crate::common::zone::ZoneNic;
use crate::text::{
    chars_of, concat, dec, dec_chars, dec_string, first_where, is, lemma_first_where, lemma_none_where,
    parse_u32, parse_unsigned, starts_with, strip_prefix, strip_trailing, string_from, trim, trimmed,
    without_prefix, without_trailing, has_prefix, str_eq,
};
use crate::zones::parse::{
    FsView, NicView, attr_put, fs_views, key_is, managed_attr, nic_view, nic_views, pair_views, put_attr,
    zone_size,
};
use crate::zones::types::{ZoneConfig, ZoneFs, ZoneSpec};

verus! {

/// Where the brand puts the VNC socket, relative to the zone root.
pub const VNC_SOCKET: &'static str = "/tmp/vm.vnc";

/// The VNC socket's path on the host for a zonepath.
pub open spec fn vnc_path(zonepath: Seq<char>) -> Seq<char> {
    strip_trailing(zonepath, '/') + "/root"@ + VNC_SOCKET@
}

/// The VNC socket's path on the host for a zonepath.
pub fn vnc_socket_path(zonepath: &str) -> (r: String)
    ensures
        r@ == vnc_path(zonepath@),
{
    let z = without_trailing(chars_of(zonepath).as_slice(), '/');
    let a = concat(z.as_slice(), chars_of("/root").as_slice());
    string_from(concat(a.as_slice(), chars_of(VNC_SOCKET).as_slice()).as_slice())
}

/// The raw device for a zvol, as the brand sees it.
pub open spec fn zvol_dev(zvol: Seq<char>) -> Seq<char> {
    "/dev/zvol/rdsk/"@ + zvol
}

/// The raw device for a zvol, as the brand sees it.
pub fn zvol_device(zvol: &str) -> (r: String)
    ensures
        r@ == zvol_dev(zvol@),
{
    string_from(concat(chars_of("/dev/zvol/rdsk/").as_slice(), chars_of(zvol).as_slice()).as_slice())
}

/// The brand's `bootrom` value for a firmware.
pub open spec fn bootrom_text(b: Bootrom) -> Seq<char> {
    match b {
        Bootrom::Uefi => "BHYVE_RELEASE"@,
        Bootrom::UefiCsm => "BHYVE_RELEASE_CSM"@,
    }
}

fn bootrom_value(b: Bootrom) -> (r: &'static str)
    ensures
        r@ == bootrom_text(b),
{
    match b {
        Bootrom::Uefi => "BHYVE_RELEASE",
        Bootrom::UefiCsm => "BHYVE_RELEASE_CSM",
    }
}

/// The firmware a `bootrom` value names.
pub open spec fn bootrom_of(s: Seq<char>) -> Option<Bootrom> {
    let t = trim(s);
    if t == "BHYVE_RELEASE"@ || t == "BHYVE_DEBUG"@ || t == "uefi"@ {
        Some(Bootrom::Uefi)
    } else if t == "BHYVE_RELEASE_CSM"@ || t == "BHYVE_DEBUG_CSM"@ || t == "uefi-csm"@ {
        Some(Bootrom::UefiCsm)
    } else {
        None
    }
}

fn bootrom_parse(s: &[char]) -> (r: Option<Bootrom>)
    ensures
        r == bootrom_of(s@),
{
    let t = trimmed(s);
    let t = t.as_slice();
    if is(t, "BHYVE_RELEASE") || is(t, "BHYVE_DEBUG") || is(t, "uefi") {
        Some(Bootrom::Uefi)
    } else if is(t, "BHYVE_RELEASE_CSM") || is(t, "BHYVE_DEBUG_CSM") || is(t, "uefi-csm") {
        Some(Bootrom::UefiCsm)
    } else {
        None
    }
}

/// Memory in whole mebibytes, rounded up, at least one.
pub open spec fn ram_mib(bytes: int) -> int {
    let m = (bytes + 1048575) / 1048576;
    if m < 1 { 1 } else { m }
}

/// Memory as the brand's `ram` attribute: whole mebibytes.
pub open spec fn ram_text(bytes: int) -> Seq<char> {
    dec(ram_mib(bytes) as nat) + "M"@
}

fn ram_value(bytes: u64) -> (r: String)
    ensures
        r@ == ram_text(bytes as int),
{
    let q = bytes / 1048576;
    let r = bytes % 1048576;
    let m = if r != 0 { q + 1 } else { q };
    assert(m as int == (bytes + 1048575) / 1048576) by (nonlinear_arith)
        requires
            q as int == bytes / 1048576,
            r as int == bytes % 1048576,
            r != 0 ==> m == q + 1,
            r == 0 ==> m == q,
    ;
    let m = if m < 1 { 1 } else { m };
    string_from(concat(dec_chars(m).as_slice(), chars_of("M").as_slice()).as_slice())
}

/// `on` or `off`.
pub open spec fn on_off(v: bool) -> Seq<char> {
    if v { "on"@ } else { "off"@ }
}

fn on_off_text(v: bool) -> (r: &'static str)
    ensures
        r@ == on_off(v),
{
    if v { "on" } else { "off" }
}

/// Whether a brand flag reads as on.
pub open spec fn is_on(s: Seq<char>) -> bool {
    let t = trim(s);
    t == "on"@ || t == "true"@ || t == "yes"@ || t == "1"@
}

fn flag_on(s: &[char]) -> (r: bool)
    ensures
        r == is_on(s@),
{
    let t = trimmed(s);
    let t = t.as_slice();
    is(t, "on") || is(t, "true") || is(t, "yes") || is(t, "1")
}

/// The attribute name for a disk slot.
pub open spec fn disk_attr_name(i: int, boot: bool) -> Seq<char> {
    if boot { "bootdisk"@ } else { "disk"@ + dec(i as nat) }
}

/// The attribute name for a cdrom slot.
pub open spec fn cdrom_attr_name(i: int) -> Seq<char> {
    if i == 0 { "cdrom"@ } else { "cdrom"@ + dec(i as nat) }
}

/// The brand attributes over the carried ones.
pub open spec fn base_attrs(vm: VmSpec) -> Seq<(Seq<char>, Seq<char>)> {
    let a0 = pair_views(vm.attrs@);
    let a1 = attr_put(a0, "vcpus"@, dec(vm.vcpus as nat));
    let a2 = attr_put(a1, "ram"@, ram_text(vm.memory_bytes as int));
    let a3 = attr_put(a2, "bootrom"@, bootrom_text(vm.bootrom));
    let a4 = attr_put(a3, "acpi"@, on_off(vm.acpi));
    attr_put(a4, "vnc"@, on_off(vm.vnc))
}

/// A disk attribute for each disk, by slot.
pub open spec fn disk_puts(a: Seq<(Seq<char>, Seq<char>)>, ds: Seq<DiskSpec>) -> Seq<(Seq<char>, Seq<char>)>
    decreases ds.len(),
{
    if ds.len() == 0 {
        a
    } else {
        attr_put(disk_puts(a, ds.drop_last()), disk_attr_name(ds.len() - 1, ds.last().boot), ds.last().zvol@)
    }
}

/// A cdrom attribute for each ISO, by slot.
pub open spec fn cdrom_puts(a: Seq<(Seq<char>, Seq<char>)>, cs: Seq<String>) -> Seq<(Seq<char>, Seq<char>)>
    decreases cs.len(),
{
    if cs.len() == 0 {
        a
    } else {
        attr_put(cdrom_puts(a, cs.drop_last()), cdrom_attr_name(cs.len() - 1), cs.last()@)
    }
}

/// Every attribute of a VM's zone.
pub open spec fn zone_attrs(vm: VmSpec) -> Seq<(Seq<char>, Seq<char>)> {
    cdrom_puts(disk_puts(base_attrs(vm), vm.disks@), vm.cdroms@)
}

/// The read-only lofs mount of an ISO.
pub open spec fn iso_mount(p: Seq<char>) -> FsView {
    FsView { dir: p, special: p, type_: "lofs"@, options: seq!["ro"@, "nodevices"@] }
}

fn put(attrs: &mut Vec<(String, String)>, k: &str, v: &str)
    ensures
        pair_views(final(attrs)@) == attr_put(pair_views(old(attrs)@), k@, v@),
{
    put_attr(attrs, chars_of(k), chars_of(v));
}

fn pairs_copy(v: &Vec<(String, String)>) -> (r: Vec<(String, String)>)
    ensures
        pair_views(r@) == pair_views(v@),
{
    let mut out: Vec<(String, String)> = Vec::new();
    let mut i: usize = 0;
    while i < v.len()
        invariant
            0 <= i <= v@.len(),
            pair_views(out@) == pair_views(v@).take(i as int),
        decreases v@.len() - i,
    {
        let ghost before = pair_views(out@);
        out.push((v[i].0.clone(), v[i].1.clone()));
        assert(pair_views(out@) == before.push((v@[i as int].0@, v@[i as int].1@)));
        assert(pair_views(v@).take(i + 1) == pair_views(v@).take(i as int).push((v@[i as int].0@, v@[i as int].1@)));
        i = i + 1;
    }
    assert(pair_views(v@).take(v@.len() as int) == pair_views(v@));
    out
}

fn opt_string_copy(o: &Option<String>) -> (r: Option<String>)
    ensures
        crate::net::parse::opt_view(r) == crate::net::parse::opt_view(*o),
{
    match o {
        Some(s) => Some(s.clone()),
        None => None,
    }
}

/// A copy of every NIC.
pub fn nics_copy(v: &Vec<ZoneNic>) -> (r: Vec<ZoneNic>)
    ensures
        nic_views(r@) == nic_views(v@),
{
    let mut out: Vec<ZoneNic> = Vec::new();
    let mut i: usize = 0;
    while i < v.len()
        invariant
            0 <= i <= v@.len(),
            nic_views(out@) == nic_views(v@).take(i as int),
        decreases v@.len() - i,
    {
        let n = &v[i];
        let c = ZoneNic {
            name: n.name.clone(),
            over: n.over.clone(),
            mac: opt_string_copy(&n.mac),
            vid: n.vid,
            address: opt_string_copy(&n.address),
            gateway: opt_string_copy(&n.gateway),
        };
        let ghost before = nic_views(out@);
        out.push(c);
        assert(nic_views(out@) == before.push(nic_view(v@[i as int])));
        assert(nic_views(v@).take(i + 1) == nic_views(v@).take(i as int).push(nic_view(v@[i as int])));
        i = i + 1;
    }
    assert(nic_views(v@).take(v@.len() as int) == nic_views(v@));
    out
}

fn base_attrs_of(vm: &VmSpec) -> (r: Vec<(String, String)>)
    ensures
        pair_views(r@) == base_attrs(*vm),
{
    let mut attrs = pairs_copy(&vm.attrs);
    put(&mut attrs, "vcpus", dec_string(vm.vcpus as u64).as_str());
    put(&mut attrs, "ram", ram_value(vm.memory_bytes).as_str());
    put(&mut attrs, "bootrom", bootrom_value(vm.bootrom));
    put(&mut attrs, "acpi", on_off_text(vm.acpi));
    put(&mut attrs, "vnc", on_off_text(vm.vnc));
    attrs
}

fn disk_attr(index: usize, boot: bool) -> (r: String)
    ensures
        r@ == disk_attr_name(index as int, boot),
{
    if boot {
        "bootdisk".to_owned()
    } else {
        string_from(concat(chars_of("disk").as_slice(), dec_chars(index as u64).as_slice()).as_slice())
    }
}

fn cdrom_attr(index: usize) -> (r: String)
    ensures
        r@ == cdrom_attr_name(index as int),
{
    if index == 0 {
        "cdrom".to_owned()
    } else {
        string_from(concat(chars_of("cdrom").as_slice(), dec_chars(index as u64).as_slice()).as_slice())
    }
}

fn disk_attrs(vm: &VmSpec, attrs: &mut Vec<(String, String)>) -> (devices: Vec<String>)
    ensures
        pair_views(final(attrs)@) == disk_puts(pair_views(old(attrs)@), vm.disks@),
        string_views(devices@) == vm.disks@.map_values(|d: DiskSpec| zvol_dev(d.zvol@)),
{
    let ghost base = pair_views(attrs@);
    let mut devices: Vec<String> = Vec::new();
    let mut i: usize = 0;
    assert(vm.disks@.take(0) == Seq::<DiskSpec>::empty());
    while i < vm.disks.len()
        invariant
            0 <= i <= vm.disks@.len(),
            base == pair_views(old(attrs)@),
            pair_views(attrs@) == disk_puts(base, vm.disks@.take(i as int)),
            string_views(devices@) == vm.disks@.take(i as int).map_values(|d: DiskSpec| zvol_dev(d.zvol@)),
        decreases vm.disks@.len() - i,
    {
        let d = &vm.disks[i];
        assert(vm.disks@.take(i + 1).drop_last() == vm.disks@.take(i as int));
        assert(vm.disks@.take(i + 1).last() == vm.disks@[i as int]);
        put(attrs, disk_attr(i, d.boot).as_str(), d.zvol.as_str());
        let ghost before = string_views(devices@);
        let dev = zvol_device(d.zvol.as_str());
        devices.push(dev);
        assert(string_views(devices@) == before.push(zvol_dev(d.zvol@)));
        assert(vm.disks@.take(i + 1).map_values(|d: DiskSpec| zvol_dev(d.zvol@))
            == vm.disks@.take(i as int).map_values(|d: DiskSpec| zvol_dev(d.zvol@)).push(zvol_dev(d.zvol@)));
        i = i + 1;
    }
    assert(vm.disks@.take(vm.disks@.len() as int) == vm.disks@);
    devices
}

fn cdrom_attrs(vm: &VmSpec, attrs: &mut Vec<(String, String)>) -> (fs: Vec<ZoneFs>)
    ensures
        pair_views(final(attrs)@) == cdrom_puts(pair_views(old(attrs)@), vm.cdroms@),
        fs_views(fs@) == vm.cdroms@.map_values(|p: String| iso_mount(p@)),
{
    let ghost base = pair_views(attrs@);
    let mut fs: Vec<ZoneFs> = Vec::new();
    let mut j: usize = 0;
    assert(vm.cdroms@.take(0) == Seq::<String>::empty());
    while j < vm.cdroms.len()
        invariant
            0 <= j <= vm.cdroms@.len(),
            base == pair_views(old(attrs)@),
            pair_views(attrs@) == cdrom_puts(base, vm.cdroms@.take(j as int)),
            fs_views(fs@) == vm.cdroms@.take(j as int).map_values(|p: String| iso_mount(p@)),
        decreases vm.cdroms@.len() - j,
    {
        let p = &vm.cdroms[j];
        assert(vm.cdroms@.take(j + 1).drop_last() == vm.cdroms@.take(j as int));
        assert(vm.cdroms@.take(j + 1).last() == vm.cdroms@[j as int]);
        put(attrs, cdrom_attr(j).as_str(), p.as_str());
        let mut options: Vec<String> = Vec::new();
        options.push("ro".to_owned());
        options.push("nodevices".to_owned());
        let m = ZoneFs { dir: p.clone(), special: p.clone(), type_: "lofs".to_owned(), options };
        assert(string_views(m.options@) == seq!["ro"@, "nodevices"@]);
        let ghost before = fs_views(fs@);
        fs.push(m);
        assert(fs_views(fs@) == before.push(iso_mount(p@)));
        assert(vm.cdroms@.take(j + 1).map_values(|p: String| iso_mount(p@))
            == vm.cdroms@.take(j as int).map_values(|p: String| iso_mount(p@)).push(iso_mount(p@)));
        j = j + 1;
    }
    assert(vm.cdroms@.take(vm.cdroms@.len() as int) == vm.cdroms@);
    fs
}

/// The zone configuration for a VM: the brand's attributes over the
/// carried ones, a device per disk, a read-only lofs mount per ISO.
pub fn to_zone_spec(vm: &VmSpec) -> (z: ZoneSpec)
    ensures
        z.name@ == vm.name@,
        z.brand@ == BRAND@,
        z.zonepath@ == vm.zonepath@,
        z.autoboot == vm.autoboot,
        nic_views(z.nics@) == nic_views(vm.nics@),
        z.cpu_cap is None,
        z.memory_cap is None,
        string_views(z.devices@) == vm.disks@.map_values(|d: DiskSpec| zvol_dev(d.zvol@)),
        fs_views(z.fs@) == vm.cdroms@.map_values(|p: String| iso_mount(p@)),
        pair_views(z.attrs@) == zone_attrs(*vm),
{
    let mut attrs = base_attrs_of(vm);
    let devices = disk_attrs(vm, &mut attrs);
    let fs = cdrom_attrs(vm, &mut attrs);
    ZoneSpec {
        name: vm.name.clone(),
        brand: BRAND.to_owned(),
        zonepath: vm.zonepath.clone(),
        autoboot: vm.autoboot,
        nics: nics_copy(&vm.nics),
        cpu_cap: None,
        memory_cap: None,
        devices,
        fs,
        attrs,
    }
}


/// An attribute's value in a name-keyed list.
pub open spec fn attr_get(a: Seq<(Seq<char>, Seq<char>)>, k: Seq<char>) -> Option<Seq<char>> {
    match first_where(a, key_is(k)) {
        Some(i) => Some(a[i].1),
        None => None,
    }
}

/// A slot number from `disk`, `disk3`, `cdrom`, `cdrom2`, ...; the bare
/// name is slot `bare`.
pub open spec fn slot_of(key: Seq<char>, prefix: Seq<char>, bare: u32) -> Option<u32> {
    match strip_prefix(key, prefix) {
        Some(rest) => if rest.len() == 0 {
            Some(bare)
        } else {
            match parse_unsigned(rest, 10, u32::MAX as int) {
                Some(n) => Some(n as u32),
                None => None,
            }
        },
        None => None,
    }
}

/// The attributes the brand owns.
pub open spec fn brand_key(k: Seq<char>) -> bool {
    k == "vcpus"@ || k == "ram"@ || k == "bootrom"@ || k == "acpi"@ || k == "vnc"@
}

/// Where `x` goes in a slot-sorted list to keep it sorted and stable:
/// after every entry whose slot is not greater.
pub open spec fn slot_pos<T>(s: Seq<(u32, T)>, slot: u32) -> int {
    match first_where(s, slot_above::<T>(slot)) {
        Some(i) => i,
        None => s.len() as int,
    }
}

/// An entry whose slot is greater than `slot`.
pub open spec fn slot_above<T>(slot: u32) -> spec_fn((u32, T)) -> bool {
    |e: (u32, T)| e.0 > slot
}

/// What reading a VM's attributes in order gathers: disks and cdroms kept
/// sorted by slot (ties in the order read), and the other attributes.
pub struct VmScan {
    /// Disks by slot: zvol and boot flag.
    pub disks: Seq<(u32, (Seq<char>, bool))>,
    /// ISOs by slot.
    pub cdroms: Seq<(u32, Seq<char>)>,
    /// Carried attributes.
    pub attrs: Seq<(Seq<char>, Seq<char>)>,
}

/// Reading one attribute.
pub open spec fn scan_step(acc: VmScan, k: Seq<char>, v: Seq<char>) -> VmScan {
    if k == "bootdisk"@ {
        VmScan { disks: acc.disks.insert(slot_pos(acc.disks, 0), (0u32, (v, true))), ..acc }
    } else if slot_of(k, "disk"@, 1) is Some {
        let s = slot_of(k, "disk"@, 1)->0;
        VmScan { disks: acc.disks.insert(slot_pos(acc.disks, s), (s, (v, false))), ..acc }
    } else if slot_of(k, "cdrom"@, 0) is Some {
        let s = slot_of(k, "cdrom"@, 0)->0;
        VmScan { cdroms: acc.cdroms.insert(slot_pos(acc.cdroms, s), (s, v)), ..acc }
    } else if (!managed_attr(k) || starts_with(k, "mandrake-"@)) && !brand_key(k) {
        VmScan { attrs: attr_put(acc.attrs, k, v), ..acc }
    } else {
        acc
    }
}

/// Reading the attributes in order.
pub open spec fn vm_scan(a: Seq<(Seq<char>, Seq<char>)>) -> VmScan
    decreases a.len(),
{
    if a.len() == 0 {
        VmScan {
            disks: Seq::<(u32, (Seq<char>, bool))>::empty(),
            cdroms: Seq::<(u32, Seq<char>)>::empty(),
            attrs: Seq::<(Seq<char>, Seq<char>)>::empty(),
        }
    } else {
        scan_step(vm_scan(a.drop_last()), a.last().0, a.last().1)
    }
}

/// The first brand attribute that does not read, as its name and value.
pub open spec fn vm_attr_error(a: Seq<(Seq<char>, Seq<char>)>) -> Option<(Seq<char>, Seq<char>)> {
    if attr_get(a, "vcpus"@) is Some && parse_unsigned(trim(attr_get(a, "vcpus"@)->0), 10, u32::MAX as int) is None {
        Some(("vcpus"@, attr_get(a, "vcpus"@)->0))
    } else if attr_get(a, "ram"@) is Some && zone_size(attr_get(a, "ram"@)->0) is None {
        Some(("ram"@, attr_get(a, "ram"@)->0))
    } else if attr_get(a, "bootrom"@) is Some && bootrom_of(attr_get(a, "bootrom"@)->0) is None {
        Some(("bootrom"@, attr_get(a, "bootrom"@)->0))
    } else {
        None
    }
}

/// The views of disk slots.
pub open spec fn disk_views(v: Seq<(u32, DiskSpec)>) -> Seq<(u32, (Seq<char>, bool))> {
    v.map_values(|e: (u32, DiskSpec)| (e.0, (e.1.zvol@, e.1.boot)))
}

/// The views of cdrom slots.
pub open spec fn cdrom_views(v: Seq<(u32, String)>) -> Seq<(u32, Seq<char>)> {
    v.map_values(|e: (u32, String)| (e.0, e.1@))
}

/// Whether `r` is the error for a brand attribute that does not read.
pub open spec fn attr_error_is(r: Result<VmConfig, BhyveError>, e: (Seq<char>, Seq<char>)) -> bool {
    r matches Err(err) && attr_err_is(err, e)
}

/// Whether `err` names this attribute and value.
pub open spec fn attr_err_is(err: BhyveError, e: (Seq<char>, Seq<char>)) -> bool {
    let (name, val) = e;
    err matches BhyveError::Attr { attr, value } && attr@ == name && value@ == val
}

/// What reading a VM back from its zone gives.
pub open spec fn vm_result_ok(r: Result<VmConfig, BhyveError>, cfg: ZoneConfig) -> bool {
    let a = pair_views(cfg.attrs@);
    if cfg.brand@ != BRAND@ {
        r matches Err(BhyveError::NotBhyve(m)) && m@ == cfg.name@ + " is a "@ + cfg.brand@ + " zone"@
    } else if vm_attr_error(a) is Some {
        attr_error_is(r, vm_attr_error(a)->0)
    } else {
        r matches Ok(vm) && {
            &&& vm.name@ == cfg.name@
            &&& vm.zonepath@ == cfg.zonepath@
            &&& (vm.vcpus as int, vm.memory_bytes as int, vm.bootrom) == brand_values(a)
            &&& vm.acpi == (match attr_get(a, "acpi"@) {
                Some(v) => is_on(v),
                None => true,
            })
            &&& vm.vnc == (match attr_get(a, "vnc"@) {
                Some(v) => is_on(v),
                None => false,
            })
            &&& vm.autoboot == cfg.autoboot
            &&& disk_views(vm.disks@) == vm_scan(a).disks
            &&& cdrom_views(vm.cdroms@) == vm_scan(a).cdroms
            &&& nic_views(vm.nics@) == nic_views(cfg.nics@)
            &&& pair_views(vm.attrs@) == vm_scan(a).attrs
        }
    }
}

fn attr_lookup(attrs: &Vec<(String, String)>, k: &str) -> (r: Option<String>)
    ensures
        crate::net::parse::opt_view(r) == attr_get(pair_views(attrs@), k@),
{
    let ghost pv = pair_views(attrs@);
    let ghost pred = key_is(k@);
    let mut i: usize = 0;
    while i < attrs.len()
        invariant
            0 <= i <= attrs@.len(),
            pv == pair_views(attrs@),
            pred == key_is(k@),
            forall|j: int| 0 <= j < i ==> !pred(pv[j]),
        decreases attrs@.len() - i,
    {
        if str_eq(attrs[i].0.as_str(), k) {
            proof {
                lemma_first_where(pv, pred, i as int);
            }
            return Some(attrs[i].1.clone());
        }
        i = i + 1;
    }
    proof {
        lemma_none_where(pv, pred);
    }
    None
}

fn slot(key: &[char], prefix: &str, bare: u32) -> (r: Option<u32>)
    ensures
        r == slot_of(key@, prefix@, bare),
{
    match without_prefix(key, prefix) {
        Some(rest) => if rest.len() == 0 {
            Some(bare)
        } else {
            parse_u32(rest.as_slice())
        },
        None => None,
    }
}

fn slot_index<T>(v: &Vec<(u32, T)>, s: u32) -> (r: usize)
    ensures
        r <= v@.len(),
        forall|j: int| 0 <= j < r ==> !(v@[j].0 > s),
        r < v@.len() ==> v@[r as int].0 > s,
{
    let mut i: usize = 0;
    while i < v.len()
        invariant
            0 <= i <= v@.len(),
            forall|j: int| 0 <= j < i ==> !(v@[j].0 > s),
        decreases v@.len() - i,
    {
        if v[i].0 > s {
            return i;
        }
        i = i + 1;
    }
    i
}

proof fn lemma_slot_pos_disks(v: Seq<(u32, DiskSpec)>, s: u32, r: int)
    requires
        0 <= r <= v.len(),
        forall|j: int| 0 <= j < r ==> !(v[j].0 > s),
        r < v.len() ==> v[r].0 > s,
    ensures
        slot_pos(disk_views(v), s) == r,
{
    let w = disk_views(v);
    let pw = slot_above::<(Seq<char>, bool)>(s);
    assert forall|j: int| 0 <= j < r implies !pw(w[j]) by {
        assert(w[j].0 == v[j].0);
    }
    if r < v.len() {
        assert(w[r].0 == v[r].0);
        lemma_first_where(w, pw, r);
    } else {
        lemma_none_where(w, pw);
    }
}

proof fn lemma_slot_pos_cdroms(v: Seq<(u32, String)>, s: u32, r: int)
    requires
        0 <= r <= v.len(),
        forall|j: int| 0 <= j < r ==> !(v[j].0 > s),
        r < v.len() ==> v[r].0 > s,
    ensures
        slot_pos(cdrom_views(v), s) == r,
{
    let w = cdrom_views(v);
    let pw = slot_above::<Seq<char>>(s);
    assert forall|j: int| 0 <= j < r implies !pw(w[j]) by {
        assert(w[j].0 == v[j].0);
    }
    if r < v.len() {
        assert(w[r].0 == v[r].0);
        lemma_first_where(w, pw, r);
    } else {
        lemma_none_where(w, pw);
    }
}

fn brand_word(k: &[char]) -> (r: bool)
    ensures
        r == brand_key(k@),
{
    is(k, "vcpus") || is(k, "ram") || is(k, "bootrom") || is(k, "acpi") || is(k, "vnc")
}

fn insert_disk(disks: &mut Vec<(u32, DiskSpec)>, s: u32, zvol: &String, boot: bool)
    ensures
        disk_views(final(disks)@) == disk_views(old(disks)@).insert(slot_pos(disk_views(old(disks)@), s), (s, (zvol@, boot))),
{
    let p = slot_index(disks, s);
    proof {
        lemma_slot_pos_disks(disks@, s, p as int);
    }
    let ghost before = disk_views(disks@);
    disks.insert(p, (s, DiskSpec { zvol: zvol.clone(), boot }));
    assert(disk_views(disks@) == before.insert(p as int, (s, (zvol@, boot))));
}

fn insert_cdrom(cdroms: &mut Vec<(u32, String)>, s: u32, path: &String)
    ensures
        cdrom_views(final(cdroms)@) == cdrom_views(old(cdroms)@).insert(slot_pos(cdrom_views(old(cdroms)@), s), (s, path@)),
{
    let p = slot_index(cdroms, s);
    proof {
        lemma_slot_pos_cdroms(cdroms@, s, p as int);
    }
    let ghost before = cdrom_views(cdroms@);
    cdroms.insert(p, (s, path.clone()));
    assert(cdrom_views(cdroms@) == before.insert(p as int, (s, path@)));
}

fn scan_attr(disks: &mut Vec<(u32, DiskSpec)>, cdroms: &mut Vec<(u32, String)>, attrs: &mut Vec<(String, String)>,
    k: &String, v: &String)
    ensures
        (VmScan { disks: disk_views(final(disks)@), cdroms: cdrom_views(final(cdroms)@), attrs: pair_views(final(attrs)@) })
            == scan_step(VmScan { disks: disk_views(old(disks)@), cdroms: cdrom_views(old(cdroms)@), attrs: pair_views(old(attrs)@) }, k@, v@),
{
    let kc = chars_of(k.as_str());
    if is(kc.as_slice(), "bootdisk") {
        insert_disk(disks, 0, v, true);
        return;
    }
    match slot(kc.as_slice(), "disk", 1) {
        Some(s) => {
            insert_disk(disks, s, v, false);
            return;
        },
        None => {},
    }
    match slot(kc.as_slice(), "cdrom", 0) {
        Some(s) => {
            insert_cdrom(cdroms, s, v);
            return;
        },
        None => {},
    }
    let managed = crate::zones::parse::is_managed_attr(k.as_str());
    if (!managed || has_prefix(kc.as_slice(), "mandrake-")) && !brand_word(kc.as_slice()) {
        put_attr(attrs, kc, chars_of(v.as_str()));
    }
}


fn attr_error(attr: &str, value: &String) -> (e: BhyveError)
    ensures
        e matches BhyveError::Attr { attr: a, value: v } && a@ == attr@ && v@ == value@,
{
    BhyveError::Attr { attr: attr.to_owned(), value: value.clone() }
}

fn scan_all(cfg: &ZoneConfig) -> (r: (Vec<(u32, DiskSpec)>, Vec<(u32, String)>, Vec<(String, String)>))
    ensures
        (VmScan { disks: disk_views(r.0@), cdroms: cdrom_views(r.1@), attrs: pair_views(r.2@) })
            == vm_scan(pair_views(cfg.attrs@)),
{
    let ghost a = pair_views(cfg.attrs@);
    let mut disks: Vec<(u32, DiskSpec)> = Vec::new();
    let mut cdroms: Vec<(u32, String)> = Vec::new();
    let mut attrs: Vec<(String, String)> = Vec::new();
    assert(a.take(0) =~= Seq::<(Seq<char>, Seq<char>)>::empty());
    assert(disk_views(disks@) =~= Seq::<(u32, (Seq<char>, bool))>::empty());
    assert(cdrom_views(cdroms@) =~= Seq::<(u32, Seq<char>)>::empty());
    assert(pair_views(attrs@) =~= Seq::<(Seq<char>, Seq<char>)>::empty());
    let mut i: usize = 0;
    while i < cfg.attrs.len()
        invariant
            0 <= i <= cfg.attrs@.len(),
            a == pair_views(cfg.attrs@),
            (VmScan { disks: disk_views(disks@), cdroms: cdrom_views(cdroms@), attrs: pair_views(attrs@) })
                == vm_scan(a.take(i as int)),
        decreases cfg.attrs@.len() - i,
    {
        assert(a.take(i + 1).drop_last() == a.take(i as int));
        assert(a.take(i + 1).last() == (cfg.attrs@[i as int].0@, cfg.attrs@[i as int].1@));
        scan_attr(&mut disks, &mut cdroms, &mut attrs, &cfg.attrs[i].0, &cfg.attrs[i].1);
        i = i + 1;
    }
    assert(a.take(cfg.attrs@.len() as int) == a);
    (disks, cdroms, attrs)
}

/// The vCPU count, memory, and firmware a VM's attributes give.
pub open spec fn brand_values(a: Seq<(Seq<char>, Seq<char>)>) -> (int, int, Bootrom) {
    (match attr_get(a, "vcpus"@) {
        Some(v) => parse_unsigned(trim(v), 10, u32::MAX as int)->0,
        None => 1,
    }, match attr_get(a, "ram"@) {
        Some(v) => zone_size(v)->0,
        None => 0,
    }, match attr_get(a, "bootrom"@) {
        Some(v) => bootrom_of(v)->0,
        None => Bootrom::Uefi,
    })
}

fn brand_attrs(cfg: &ZoneConfig) -> (r: Result<(u32, u64, Bootrom), BhyveError>)
    ensures
        vm_attr_error(pair_views(cfg.attrs@)) is Some ==> (r matches Err(err)
            && attr_err_is(err, vm_attr_error(pair_views(cfg.attrs@))->0)),
        vm_attr_error(pair_views(cfg.attrs@)) is None ==> (r matches Ok(t)
            && (t.0 as int, t.1 as int, t.2) == brand_values(pair_views(cfg.attrs@))),
{
    let vcpus: u32 = match attr_lookup(&cfg.attrs, "vcpus") {
        Some(v) => match parse_u32(trimmed(chars_of(v.as_str()).as_slice()).as_slice()) {
            Some(n) => n,
            None => return Err(attr_error("vcpus", &v)),
        },
        None => 1,
    };
    let memory_bytes: u64 = match attr_lookup(&cfg.attrs, "ram") {
        Some(v) => match crate::zones::parse::size(v.as_str()) {
            Some(n) => n,
            None => return Err(attr_error("ram", &v)),
        },
        None => 0,
    };
    let bootrom = match attr_lookup(&cfg.attrs, "bootrom") {
        Some(v) => match bootrom_parse(chars_of(v.as_str()).as_slice()) {
            Some(b) => b,
            None => return Err(attr_error("bootrom", &v)),
        },
        None => Bootrom::Uefi,
    };
    Ok((vcpus, memory_bytes, bootrom))
}

/// A VM from its zone configuration: the brand attributes read back, the
/// disks and ISOs by slot, the other attributes carried.
pub fn from_zone_config(cfg: &ZoneConfig) -> (r: Result<VmConfig, BhyveError>)
    ensures
        vm_result_ok(r, *cfg),
{
    let ghost a = pair_views(cfg.attrs@);
    if !str_eq(cfg.brand.as_str(), BRAND) {
        let x = concat(chars_of(cfg.name.as_str()).as_slice(), chars_of(" is a ").as_slice());
        let y = concat(x.as_slice(), chars_of(cfg.brand.as_str()).as_slice());
        let z = concat(y.as_slice(), chars_of(" zone").as_slice());
        return Err(BhyveError::NotBhyve(string_from(z.as_slice())));
    }
    let (vcpus, memory_bytes, bootrom) = match brand_attrs(cfg) {
        Ok(t) => t,
        Err(e) => return Err(e),
    };
    let (disks, cdroms, attrs) = scan_all(cfg);
    let acpi = match attr_lookup(&cfg.attrs, "acpi") {
        Some(v) => flag_on(chars_of(v.as_str()).as_slice()),
        None => true,
    };
    let vnc = match attr_lookup(&cfg.attrs, "vnc") {
        Some(v) => flag_on(chars_of(v.as_str()).as_slice()),
        None => false,
    };
    Ok(VmConfig {
        name: cfg.name.clone(),
        zonepath: cfg.zonepath.clone(),
        vcpus,
        memory_bytes,
        bootrom,
        acpi,
        vnc,
        autoboot: cfg.autoboot,
        disks,
        cdroms,
        nics: nics_copy(&cfg.nics),
        attrs,
    })
}

} // verus!
