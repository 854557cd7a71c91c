//! An in-memory ZFS with the same observable behaviour as the real one:
//! pools, datasets, and snapshots filed by name, and the disks of a host.
//! The clock is read by the caller and handed in.
use vstd::prelude::*;
use crate::common::storage::{
    Bytes, DatasetKind, PoolHealth, ScanFunction, ScanState, ScanStatus, Vdev, VdevSpec, VdevSpecType, VdevType,
};
use crate::common::timestamp::Timestamp;
use crate::text::{
    chars_of, concat, dec, dec_chars, first_where, join, joined, lemma_first_where, lemma_none_where, str_eq, string_from,
    views,
};
use crate::net::parse::opt_view;
use crate::zfs::keyed::{
    Keyed, entry, find_key, has_key, index_of, keys, lemma_index_has, lemma_put_back, lemma_put_entry, lemma_put_sorted,
    lemma_unique_index, lemma_without_entry, lemma_without_sorted, names_under, prune, put, put_item, remove_item,
    remove_all, strictly_sorted, under, under_pred, without,
};
use crate::common::timestamp::later;
use crate::text::{lex_less, lex_lt, starts_with};
use crate::zfs::types::{
    head_of, DatasetInfo, DatasetSpec, DeviceInfo, ID_PROPERTY, PoolInfo, PoolSpec, SnapshotInfo, ZfsError,
    tool_error, tool_error_is,
};

verus! {

impl Keyed for PoolInfo {
    open spec fn key(&self) -> Seq<char> {
        self.name@
    }

    fn key_str(&self) -> (r: &str) {
        self.name.as_str()
    }
}

impl Keyed for DatasetInfo {
    open spec fn key(&self) -> Seq<char> {
        self.name@
    }

    fn key_str(&self) -> (r: &str) {
        self.name.as_str()
    }
}

impl Keyed for SnapshotInfo {
    open spec fn key(&self) -> Seq<char> {
        self.name@
    }

    fn key_str(&self) -> (r: &str) {
        self.name.as_str()
    }
}

/// The in-memory host.
pub struct FakeZfs {
    pools: Vec<PoolInfo>,
    datasets: Vec<DatasetInfo>,
    snapshots: Vec<SnapshotInfo>,
    devices: Vec<DeviceInfo>,
}

/// A disk leaf as the fake builds it: online, no errors.
pub open spec fn fake_disk(v: Vdev, name: Seq<char>) -> bool {
    &&& v.name@ == name
    &&& v.type_ == VdevType::Disk
    &&& v.state == PoolHealth::Online
    &&& v.read_errors == Some(0u64) && v.write_errors == Some(0u64) && v.checksum_errors == Some(0u64)
    &&& v.note is None
    &&& v.children@.len() == 0
}

/// The `i`th top-level vdev of a fake pool: a single disk, or a mirror of
/// the group's disks named `mirror-<i>`.
pub open spec fn fake_group(v: Vdev, i: int, group: Seq<Seq<char>>) -> bool {
    if group.len() == 1 {
        fake_disk(v, group[0])
    } else {
        &&& v.name@ == "mirror-"@ + dec(i as nat)
        &&& v.type_ == VdevType::Mirror
        &&& v.state == PoolHealth::Online
        &&& v.read_errors == Some(0u64) && v.write_errors == Some(0u64) && v.checksum_errors == Some(0u64)
        &&& v.note is None
        &&& v.children@.len() == group.len()
        &&& forall|j: int| 0 <= j < group.len() ==> fake_disk(#[trigger] v.children@[j], group[j])
    }
}

/// The pool the fake makes from groups of disks and a size.
pub open spec fn fake_pool(p: PoolInfo, name: Seq<char>, groups: Seq<Seq<Seq<char>>>, size: nat) -> bool {
    &&& p.name@ == name
    &&& p.health == PoolHealth::Online
    &&& p.size == size
    &&& p.allocated == size / 8
    &&& p.free == size - size / 8
    &&& p.fragmentation == Some(1u32)
    &&& p.capacity == Some(12u32)
    &&& p.dedup_ratio matches Some(r) && r@ == "1.00"@
    &&& p.vdevs.name@ == name
    &&& p.vdevs.type_ == VdevType::Root
    &&& p.vdevs.state == PoolHealth::Online
    &&& p.vdevs.children@.len() == groups.len()
    &&& forall|i: int| 0 <= i < groups.len() ==> fake_group(#[trigger] p.vdevs.children@[i], i, groups[i])
    &&& p.scan is None
    &&& p.status_text is None
}

/// A dataset as the fake makes it: small, lz4, at the given time.
pub open spec fn fake_dataset(d: DatasetInfo, name: Seq<char>, kind: DatasetKind, now: Timestamp) -> bool {
    fake_dataset_with(d, name, kind, now, None, "lz4"@)
}

/// A dataset as the fake makes it, with its id and compression given.
pub open spec fn fake_dataset_with(
    d: DatasetInfo,
    name: Seq<char>,
    kind: DatasetKind,
    now: Timestamp,
    id: Option<Seq<char>>,
    compression: Seq<char>,
) -> bool {
    let fs = kind == DatasetKind::Filesystem;
    &&& d.name@ == name
    &&& d.kind == kind
    &&& (if fs { d.mountpoint matches Some(m) && m@ == "/"@ + name } else { d.mountpoint is None })
    &&& d.mounted == fs
    &&& d.used == 98304
    &&& d.available == 1099511627776
    &&& d.referenced == 98304
    &&& d.logical_used == Some(98304u64)
    &&& d.quota is None
    &&& d.reservation is None
    &&& d.compression matches Some(c) && c@ == compression
    &&& d.compress_ratio matches Some(r) && r@ == "1.00"@
    &&& d.atime == (if fs { Some(true) } else { None })
    &&& d.recordsize == (if fs { Some(131072u64) } else { None })
    &&& d.volsize is None
    &&& d.volblocksize == (if fs { None } else { Some(8192u64) })
    &&& d.origin is None
    &&& d.created_at == now
    &&& crate::net::parse::opt_view(d.mandrake_id) == id
}

/// A device as the fake lists it.
pub open spec fn fake_device(d: DeviceInfo, name: Seq<char>, size: Bytes) -> bool {
    &&& d.name@ == name
    &&& d.bus matches Some(b) && b@ == "SATA"@
    &&& d.vendor matches Some(v) && v@ == "Fake"@
    &&& d.product matches Some(p) && p@ == "Disk"@
    &&& d.serial is None
    &&& d.size == size
    &&& !d.removable
    &&& d.solid_state == Some(false)
}

fn disk(name: &str) -> (v: Vdev)
    ensures
        fake_disk(v, name@),
{
    Vdev {
        name: name.to_owned(),
        type_: VdevType::Disk,
        state: PoolHealth::Online,
        read_errors: Some(0),
        write_errors: Some(0),
        checksum_errors: Some(0),
        note: None,
        children: Vec::new(),
    }
}

fn new_dataset(name: &str, kind: DatasetKind, now: Timestamp) -> (d: DatasetInfo)
    ensures
        fake_dataset(d, name@, kind, now),
{
    let fs = kind == DatasetKind::Filesystem;
    DatasetInfo {
        name: name.to_owned(),
        kind,
        mountpoint: if fs { Some(string_from(concat(chars_of("/").as_slice(), chars_of(name).as_slice()).as_slice())) } else { None },
        mounted: fs,
        used: 98304,
        available: 1099511627776,
        referenced: 98304,
        logical_used: Some(98304),
        quota: None,
        reservation: None,
        compression: Some("lz4".to_owned()),
        compress_ratio: Some("1.00".to_owned()),
        atime: if fs { Some(true) } else { None },
        recordsize: if fs { Some(131072) } else { None },
        volsize: None,
        volblocksize: if fs { None } else { Some(8192) },
        origin: None,
        created_at: now,
        mandrake_id: None,
    }
}

/// The string views of groups of names.
pub open spec fn group_views(groups: Seq<Vec<String>>) -> Seq<Seq<Seq<char>>> {
    groups.map_values(|g: Vec<String>| g@.map_values(|s: String| s@))
}

fn group_vdev(i: usize, group: &Vec<String>) -> (v: Vdev)
    ensures
        fake_group(v, i as int, group@.map_values(|s: String| s@)),
{
    let ghost gv = group@.map_values(|s: String| s@);
    if group.len() == 1 {
        return disk(group[0].as_str());
    }
    let mut children: Vec<Vdev> = Vec::new();
    let mut j: usize = 0;
    while j < group.len()
        invariant
            0 <= j <= group@.len(),
            gv == group@.map_values(|s: String| s@),
            children@.len() == j,
            forall|k: int| 0 <= k < j ==> fake_disk(#[trigger] children@[k], gv[k]),
        decreases group@.len() - j,
    {
        children.push(disk(group[j].as_str()));
        j = j + 1;
    }
    let name = string_from(concat(chars_of("mirror-").as_slice(), dec_chars(i as u64).as_slice()).as_slice());
    Vdev {
        name,
        type_: VdevType::Mirror,
        state: PoolHealth::Online,
        read_errors: Some(0),
        write_errors: Some(0),
        checksum_errors: Some(0),
        note: None,
        children,
    }
}

impl FakeZfs {
    /// The pools, in name order.
    pub closed spec fn pool_list(&self) -> Seq<PoolInfo> {
        self.pools@
    }

    /// The datasets, in name order.
    pub closed spec fn dataset_list(&self) -> Seq<DatasetInfo> {
        self.datasets@
    }

    /// The snapshots, in name order.
    pub closed spec fn snapshot_list(&self) -> Seq<SnapshotInfo> {
        self.snapshots@
    }

    /// The disks, in the order they were added.
    pub closed spec fn device_list(&self) -> Seq<DeviceInfo> {
        self.devices@
    }

    /// Each of pools, datasets, and snapshots is filed in strictly
    /// increasing name order.
    pub open spec fn wf(&self) -> bool {
        &&& strictly_sorted(keys(self.pool_list()))
        &&& strictly_sorted(keys(self.dataset_list()))
        &&& strictly_sorted(keys(self.snapshot_list()))
    }

    /// An empty host with no pools.
    pub fn new() -> (r: FakeZfs)
        ensures
            r.wf(),
            r.pool_list().len() == 0,
            r.dataset_list().len() == 0,
            r.snapshot_list().len() == 0,
            r.device_list().len() == 0,
    {
        proof {
            reveal(strictly_sorted);
        }
        FakeZfs { pools: Vec::new(), datasets: Vec::new(), snapshots: Vec::new(), devices: Vec::new() }
    }

    /// The pools, in name order.
    pub fn pools(&self) -> (r: &Vec<PoolInfo>)
        ensures
            r@ == self.pool_list(),
    {
        &self.pools
    }

    /// The datasets, in name order.
    pub fn datasets(&self) -> (r: &Vec<DatasetInfo>)
        ensures
            r@ == self.dataset_list(),
    {
        &self.datasets
    }

    /// The snapshots, in name order.
    pub fn snapshots(&self) -> (r: &Vec<SnapshotInfo>)
        ensures
            r@ == self.snapshot_list(),
    {
        &self.snapshots
    }

    /// The disks.
    pub fn devices(&self) -> (r: &Vec<DeviceInfo>)
        ensures
            r@ == self.device_list(),
    {
        &self.devices
    }

    /// Add a disk.
    pub fn add_device(&mut self, name: &str, size: Bytes)
        requires
            old(self).wf(),
        ensures
            final(self).wf(),
            final(self).pool_list() == old(self).pool_list(),
            final(self).dataset_list() == old(self).dataset_list(),
            final(self).snapshot_list() == old(self).snapshot_list(),
            final(self).device_list().len() == old(self).device_list().len() + 1,
            final(self).device_list().drop_last() == old(self).device_list(),
            fake_device(final(self).device_list().last(), name@, size),
    {
        self.devices.push(DeviceInfo {
            name: name.to_owned(),
            bus: Some("SATA".to_owned()),
            vendor: Some("Fake".to_owned()),
            product: Some("Disk".to_owned()),
            serial: None,
            size,
            removable: false,
            solid_state: Some(false),
        });
        assert(self.devices@.drop_last() == old(self).devices@);
    }

    /// Add a dataset, replacing one of the same name.
    pub fn add_dataset(&mut self, name: &str, kind: DatasetKind, now: Timestamp)
        requires
            old(self).wf(),
        ensures
            final(self).wf(),
            final(self).pool_list() == old(self).pool_list(),
            final(self).snapshot_list() == old(self).snapshot_list(),
            final(self).device_list() == old(self).device_list(),
            exists|d: DatasetInfo| fake_dataset(d, name@, kind, now)
                && final(self).dataset_list() == put(old(self).dataset_list(), d),
            has_key(final(self).dataset_list(), name@),
            forall|k: Seq<char>| has_key(old(self).dataset_list(), k) ==> has_key(final(self).dataset_list(), k),
    {
        let d = new_dataset(name, kind, now);
        proof {
            lemma_put_sorted(self.datasets@, d);
        }
        let ghost dd = d;
        put_item(&mut self.datasets, d);
        assert(fake_dataset(dd, name@, kind, now));
    }

    /// Add a pool whose top-level vdevs are the groups (a single disk, or a
    /// mirror), with its root dataset.
    pub fn add_pool(&mut self, name: &str, groups: &Vec<Vec<String>>, size: Bytes, now: Timestamp)
        requires
            old(self).wf(),
        ensures
            final(self).wf(),
            final(self).snapshot_list() == old(self).snapshot_list(),
            final(self).device_list() == old(self).device_list(),
            exists|p: PoolInfo| fake_pool(p, name@, group_views(groups@), size as nat)
                && final(self).pool_list() == put(old(self).pool_list(), p),
            exists|d: DatasetInfo| fake_dataset(d, name@, DatasetKind::Filesystem, now)
                && final(self).dataset_list() == put(old(self).dataset_list(), d),
            has_key(final(self).pool_list(), name@),
            has_key(final(self).dataset_list(), name@),
            forall|k: Seq<char>| has_key(old(self).dataset_list(), k) ==> has_key(final(self).dataset_list(), k),
    {
        let pool = build_pool(name, groups, size);
        proof {
            lemma_put_sorted(self.pools@, pool);
        }
        let ghost pp = pool;
        put_item(&mut self.pools, pool);
        assert(fake_pool(pp, name@, group_views(groups@), size as nat));
        self.add_dataset(name, DatasetKind::Filesystem, now);
    }
}

fn build_pool(name: &str, groups: &Vec<Vec<String>>, size: Bytes) -> (pool: PoolInfo)
    ensures
        fake_pool(pool, name@, group_views(groups@), size as nat),
{
    let ghost gv = group_views(groups@);
    let mut children: Vec<Vdev> = Vec::new();
    let mut i: usize = 0;
    while i < groups.len()
        invariant
            0 <= i <= groups@.len(),
            gv == group_views(groups@),
            children@.len() == i,
            forall|k: int| 0 <= k < i ==> fake_group(#[trigger] children@[k], k, gv[k]),
        decreases groups@.len() - i,
    {
        children.push(group_vdev(i, &groups[i]));
        i = i + 1;
    }
    PoolInfo {
        name: name.to_owned(),
        health: PoolHealth::Online,
        size,
        allocated: size / 8,
        free: size - size / 8,
        fragmentation: Some(1),
        capacity: Some(12),
        dedup_ratio: Some("1.00".to_owned()),
        vdevs: Vdev {
            name: name.to_owned(),
            type_: VdevType::Root,
            state: PoolHealth::Online,
            read_errors: Some(0),
            write_errors: Some(0),
            checksum_errors: Some(0),
            note: None,
            children,
        },
        scan: None,
        status_text: None,
    }
}

/// A disk of the host with this name.
pub open spec fn named(d: Seq<char>) -> spec_fn(DeviceInfo) -> bool {
    |x: DeviceInfo| x.name@ == d
}

/// The size of the first disk of a name, when there is one.
pub open spec fn device_size(devs: Seq<DeviceInfo>, d: Seq<char>) -> Option<nat> {
    match crate::text::first_where(devs, named(d)) {
        Some(i) => Some(devs[i].size as nat),
        None => None,
    }
}

/// Whether a pool already uses a disk.
pub open spec fn in_use(pools: Seq<PoolInfo>, d: Seq<char>) -> bool {
    exists|i: int| 0 <= i < pools.len() && crate::common::storage::leaves_of(#[trigger] pools[i].vdevs).contains(d)
}

/// Why one disk of a layout is refused, if it is.
pub open spec fn device_refusal(z: FakeZfs, force: bool, d: Seq<char>) -> Option<Seq<char>> {
    if device_size(z.device_list(), d) is None {
        Some("cannot open '"@ + d + "': no such device in /dev/dsk"@)
    } else if in_use(z.pool_list(), d) && !force {
        Some("invalid vdev specification\nuse '-f' to override the following errors:\n/dev/dsk/"@ + d
            + "s0 is part of active pool"@)
    } else {
        None
    }
}

/// The first refused disk of a list, in order.
pub open spec fn devices_refusal(z: FakeZfs, force: bool, ds: Seq<Seq<char>>) -> Option<Seq<char>>
    decreases ds.len(),
{
    if ds.len() == 0 {
        None
    } else {
        match devices_refusal(z, force, ds.drop_last()) {
            Some(m) => Some(m),
            None => device_refusal(z, force, ds.last()),
        }
    }
}

/// The names of a vdev's disks.
pub open spec fn spec_devices(v: VdevSpec) -> Seq<Seq<char>> {
    v.devices@.map_values(|s: String| s@)
}

/// Why a vdev is refused: its first refused disk, else a mirror of fewer
/// than two disks.
pub open spec fn vdev_refusal(z: FakeZfs, force: bool, v: VdevSpec) -> Option<Seq<char>> {
    match devices_refusal(z, force, spec_devices(v)) {
        Some(m) => Some(m),
        None => if v.type_ == VdevSpecType::Mirror && v.devices@.len() < 2 {
            Some("invalid vdev specification: mirror requires at least 2 devices"@)
        } else {
            None
        },
    }
}

/// The first refused vdev of a layout, in order.
pub open spec fn vdevs_refusal(z: FakeZfs, force: bool, vs: Seq<VdevSpec>) -> Option<Seq<char>>
    decreases vs.len(),
{
    if vs.len() == 0 {
        None
    } else {
        match vdevs_refusal(z, force, vs.drop_last()) {
            Some(m) => Some(m),
            None => vdev_refusal(z, force, vs.last()),
        }
    }
}

/// Why the fake refuses to create a pool, if it does.
pub open spec fn pool_refusal(z: FakeZfs, spec: PoolSpec) -> Option<Seq<char>> {
    if has_key(z.pool_list(), spec.name@) {
        Some("cannot create '"@ + spec.name@ + "': pool already exists"@)
    } else {
        vdevs_refusal(z, spec.force, spec.vdevs@)
    }
}

/// The total size of the disks of a list that the host has.
pub open spec fn found_sum(devs: Seq<DeviceInfo>, ds: Seq<Seq<char>>) -> nat
    decreases ds.len(),
{
    if ds.len() == 0 {
        0
    } else {
        found_sum(devs, ds.drop_last()) + match device_size(devs, ds.last()) {
            Some(n) => n,
            None => 0,
        }
    }
}

/// The smallest size among the disks of a list that the host has.
pub open spec fn found_min(devs: Seq<DeviceInfo>, ds: Seq<Seq<char>>) -> Option<nat>
    decreases ds.len(),
{
    if ds.len() == 0 {
        None
    } else {
        let prev = found_min(devs, ds.drop_last());
        match (prev, device_size(devs, ds.last())) {
            (None, c) => c,
            (p, None) => p,
            (Some(a), Some(b)) => Some(if b < a { b } else { a }),
        }
    }
}

/// What a vdev adds to a pool's size: the sum of a stripe's disks, the
/// smallest disk of anything else.
pub open spec fn vdev_capacity(devs: Seq<DeviceInfo>, v: VdevSpec) -> nat {
    if v.type_ == VdevSpecType::Stripe {
        found_sum(devs, spec_devices(v))
    } else {
        match found_min(devs, spec_devices(v)) {
            Some(n) => n,
            None => 0,
        }
    }
}

/// Whether a vdev holds data: log, cache, and spare vdevs do not.
pub open spec fn holds_data(v: VdevSpec) -> bool {
    !(v.type_ == VdevSpecType::Log || v.type_ == VdevSpecType::Cache || v.type_ == VdevSpecType::Spare)
}

/// A new pool's size: what its data vdevs add up to.
pub open spec fn pool_capacity(devs: Seq<DeviceInfo>, vs: Seq<VdevSpec>) -> nat
    decreases vs.len(),
{
    if vs.len() == 0 {
        0
    } else {
        pool_capacity(devs, vs.drop_last()) + if holds_data(vs.last()) { vdev_capacity(devs, vs.last()) } else { 0 }
    }
}

/// The disk groups of a layout.
pub open spec fn layout_groups(vs: Seq<VdevSpec>) -> Seq<Seq<Seq<char>>> {
    vs.map_values(|v: VdevSpec| spec_devices(v))
}

/// A root property naming the Mandrake id.
pub open spec fn id_pair() -> spec_fn((String, String)) -> bool {
    |p: (String, String)| p.0@ == ID_PROPERTY@
}

/// The Mandrake id among root properties: the first such property's value.
pub open spec fn root_id(props: Seq<(String, String)>) -> Option<Seq<char>> {
    match crate::text::first_where(props, id_pair()) {
        Some(i) => Some(props[i].1@),
        None => None,
    }
}

proof fn lemma_found_sum_prefix(devs: Seq<DeviceInfo>, ds: Seq<Seq<char>>, j: int)
    requires
        0 <= j <= ds.len(),
    ensures
        found_sum(devs, ds.take(j)) <= found_sum(devs, ds),
    decreases ds.len() - j,
{
    if j < ds.len() {
        lemma_found_sum_prefix(devs, ds, j + 1);
        assert(ds.take(j + 1).drop_last() == ds.take(j));
    } else {
        assert(ds.take(j) == ds);
    }
}

proof fn lemma_capacity_prefix(devs: Seq<DeviceInfo>, vs: Seq<VdevSpec>, j: int)
    requires
        0 <= j <= vs.len(),
    ensures
        pool_capacity(devs, vs.take(j)) <= pool_capacity(devs, vs),
    decreases vs.len() - j,
{
    if j < vs.len() {
        lemma_capacity_prefix(devs, vs, j + 1);
        assert(vs.take(j + 1).drop_last() == vs.take(j));
    } else {
        assert(vs.take(j) == vs);
    }
}

/// The size of the first disk of a name.
fn size_of_device(devs: &Vec<DeviceInfo>, d: &str) -> (r: Option<u64>)
    ensures
        r matches Some(n) ==> device_size(devs@, d@) == Some(n as nat),
        r is None ==> device_size(devs@, d@) is None,
{
    let ghost pred = named(d@);
    let mut i: usize = 0;
    while i < devs.len()
        invariant
            0 <= i <= devs@.len(),
            pred == named(d@),
            forall|j: int| 0 <= j < i ==> !pred(devs@[j]),
        decreases devs@.len() - i,
    {
        if str_eq(devs[i].name.as_str(), d) {
            proof {
                crate::text::lemma_first_where(devs@, pred, i as int);
            }
            return Some(devs[i].size);
        }
        i = i + 1;
    }
    proof {
        crate::text::lemma_none_where(devs@, pred);
    }
    None
}

/// Whether a pool already uses a disk.
fn used_by_pool(pools: &Vec<PoolInfo>, d: &str) -> (r: bool)
    ensures
        r == in_use(pools@, d@),
{
    let mut i: usize = 0;
    while i < pools.len()
        invariant
            0 <= i <= pools@.len(),
            forall|k: int| 0 <= k < i ==> !crate::common::storage::leaves_of(#[trigger] pools@[k].vdevs).contains(d@),
        decreases pools@.len() - i,
    {
        let leaves = pools[i].vdevs.leaves();
        let ghost lv = leaves@.map_values(|s: &str| s@);
        let mut j: usize = 0;
        while j < leaves.len()
            invariant
                0 <= j <= leaves@.len(),
                lv == leaves@.map_values(|s: &str| s@),
                lv == crate::common::storage::leaves_of(pools@[i as int].vdevs),
                i < pools@.len(),
                forall|k: int| 0 <= k < j ==> lv[k] != d@,
            decreases leaves@.len() - j,
        {
            if str_eq(leaves[j], d) {
                assert(lv[j as int] == d@);
                assert(crate::common::storage::leaves_of(pools@[i as int].vdevs).contains(d@));
                return true;
            }
            j = j + 1;
        }
        assert(!lv.contains(d@));
        i = i + 1;
    }
    false
}

proof fn lemma_devices_step(z: FakeZfs, force: bool, ds: Seq<Seq<char>>, j: int)
    requires
        0 <= j < ds.len(),
    ensures
        devices_refusal(z, force, ds.take(j + 1)) == (match devices_refusal(z, force, ds.take(j)) {
            Some(m) => Some(m),
            None => device_refusal(z, force, ds[j]),
        }),
{
    assert(ds.take(j + 1).drop_last() == ds.take(j));
    assert(ds.take(j + 1).last() == ds[j]);
}

proof fn lemma_sum_step(devs: Seq<DeviceInfo>, ds: Seq<Seq<char>>, j: int)
    requires
        0 <= j < ds.len(),
    ensures
        found_sum(devs, ds.take(j + 1)) == found_sum(devs, ds.take(j)) + match device_size(devs, ds[j]) {
            Some(n) => n,
            None => 0,
        },
        found_min(devs, ds.take(j + 1)) == (match (found_min(devs, ds.take(j)), device_size(devs, ds[j])) {
            (None, c) => c,
            (p, None) => p,
            (Some(a), Some(b)) => Some(if b < a { b } else { a }),
        }),
{
    assert(ds.take(j + 1).drop_last() == ds.take(j));
    assert(ds.take(j + 1).last() == ds[j]);
}

proof fn lemma_devices_stop(z: FakeZfs, force: bool, ds: Seq<Seq<char>>, n: int)
    requires
        0 < n <= ds.len(),
        devices_refusal(z, force, ds.take(n)) is Some,
    ensures
        devices_refusal(z, force, ds) == devices_refusal(z, force, ds.take(n)),
    decreases ds.len() - n,
{
    if n < ds.len() {
        assert(ds.take(n + 1).drop_last() == ds.take(n));
        lemma_devices_stop(z, force, ds, n + 1);
    } else {
        assert(ds.take(n) == ds);
    }
}

proof fn lemma_vdevs_stop(z: FakeZfs, force: bool, vs: Seq<VdevSpec>, n: int)
    requires
        0 < n <= vs.len(),
        vdevs_refusal(z, force, vs.take(n)) is Some,
    ensures
        vdevs_refusal(z, force, vs) == vdevs_refusal(z, force, vs.take(n)),
    decreases vs.len() - n,
{
    if n < vs.len() {
        assert(vs.take(n + 1).drop_last() == vs.take(n));
        lemma_vdevs_stop(z, force, vs, n + 1);
    } else {
        assert(vs.take(n) == vs);
    }
}

fn text3(a: &str, b: &str, c: &str) -> (r: String)
    ensures
        r@ == a@ + b@ + c@,
{
    let x = concat(chars_of(a).as_slice(), chars_of(b).as_slice());
    string_from(concat(x.as_slice(), chars_of(c).as_slice()).as_slice())
}

impl FakeZfs {
    fn device_check(&self, force: bool, d: &str) -> (r: Option<String>)
        ensures
            crate::net::parse::opt_view(r) == device_refusal(*self, force, d@),
    {
        if size_of_device(&self.devices, d).is_none() {
            return Some(text3("cannot open '", d, "': no such device in /dev/dsk"));
        }
        if used_by_pool(&self.pools, d) && !force {
            return Some(text3(
                "invalid vdev specification\nuse '-f' to override the following errors:\n/dev/dsk/",
                d,
                "s0 is part of active pool",
            ));
        }
        None
    }

    fn vdev_check(&self, force: bool, v: &VdevSpec) -> (r: Option<String>)
        ensures
            crate::net::parse::opt_view(r) == vdev_refusal(*self, force, *v),
    {
        let ghost ds = spec_devices(*v);
        let mut j: usize = 0;
        while j < v.devices.len()
            invariant
                0 <= j <= v.devices@.len(),
                ds == spec_devices(*v),
                devices_refusal(*self, force, ds.take(j as int)) is None,
            decreases v.devices@.len() - j,
        {
            proof {
                lemma_devices_step(*self, force, ds, j as int);
            }
            match self.device_check(force, v.devices[j].as_str()) {
                Some(m) => {
                    proof {
                        lemma_devices_stop(*self, force, ds, j + 1);
                    }
                    return Some(m);
                },
                None => {},
            }
            j = j + 1;
        }
        assert(ds.take(j as int) == ds);
        if v.type_ == VdevSpecType::Mirror && v.devices.len() < 2 {
            return Some("invalid vdev specification: mirror requires at least 2 devices".to_owned());
        }
        None
    }

    #[verifier::rlimit(80)]
    fn layout_check(&self, spec: &PoolSpec) -> (r: Option<String>)
        ensures
            crate::net::parse::opt_view(r) == vdevs_refusal(*self, spec.force, spec.vdevs@),
    {
        let ghost vs = spec.vdevs@;
        let mut i: usize = 0;
        while i < spec.vdevs.len()
            invariant
                0 <= i <= spec.vdevs@.len(),
                vs == spec.vdevs@,
                vdevs_refusal(*self, spec.force, vs.take(i as int)) is None,
            decreases spec.vdevs@.len() - i,
        {
            assert(vs.take(i + 1).drop_last() == vs.take(i as int));
            match self.vdev_check(spec.force, &spec.vdevs[i]) {
                Some(m) => {
                    proof {
                        lemma_vdevs_stop(*self, spec.force, vs, i + 1);
                    }
                    return Some(m);
                },
                None => {},
            }
            i = i + 1;
        }
        assert(vs.take(i as int) == vs);
        None
    }

    fn vdev_size(&self, v: &VdevSpec, bound: Ghost<nat>) -> (r: u64)
        requires
            vdev_capacity(self.device_list(), *v) <= bound@,
            bound@ <= u64::MAX,
        ensures
            r == vdev_capacity(self.device_list(), *v),
    {
        let ghost ds = spec_devices(*v);
        let ghost devs = self.devices@;
        if v.type_ == VdevSpecType::Stripe {
            let mut total: u64 = 0;
            let mut j: usize = 0;
            while j < v.devices.len()
                invariant
                    0 <= j <= v.devices@.len(),
                    ds == spec_devices(*v),
                    devs == self.devices@,
                    v.type_ == VdevSpecType::Stripe,
                    found_sum(devs, ds) <= bound@,
                    bound@ <= u64::MAX,
                    total == found_sum(devs, ds.take(j as int)),
                decreases v.devices@.len() - j,
            {
                proof {
                    lemma_sum_step(devs, ds, j as int);
                    lemma_found_sum_prefix(devs, ds, j + 1);
                }
                match size_of_device(&self.devices, v.devices[j].as_str()) {
                    Some(n) => {
                        total = total + n;
                    },
                    None => {},
                }
                j = j + 1;
            }
            assert(ds.take(j as int) == ds);
            total
        } else {
            let mut least: Option<u64> = None;
            let mut j: usize = 0;
            while j < v.devices.len()
                invariant
                    0 <= j <= v.devices@.len(),
                    ds == spec_devices(*v),
                    devs == self.devices@,
                    (match least { Some(n) => Some(n as nat), None => None }) == found_min(devs, ds.take(j as int)),
                decreases v.devices@.len() - j,
            {
                proof {
                    lemma_sum_step(devs, ds, j as int);
                }
                match size_of_device(&self.devices, v.devices[j].as_str()) {
                    Some(n) => {
                        least = match least {
                            None => Some(n),
                            Some(a) => Some(if n < a { n } else { a }),
                        };
                    },
                    None => {},
                }
                j = j + 1;
            }
            assert(ds.take(j as int) == ds);
            match least {
                Some(n) => n,
                None => 0,
            }
        }
    }

    fn layout_size(&self, vs: &Vec<VdevSpec>) -> (r: u64)
        requires
            pool_capacity(self.device_list(), vs@) <= u64::MAX,
        ensures
            r == pool_capacity(self.device_list(), vs@),
    {
        let ghost devs = self.devices@;
        let mut total: u64 = 0;
        let mut i: usize = 0;
        while i < vs.len()
            invariant
                0 <= i <= vs@.len(),
                devs == self.devices@,
                pool_capacity(devs, vs@) <= u64::MAX,
                total == pool_capacity(devs, vs@.take(i as int)),
            decreases vs@.len() - i,
        {
            assert(vs@.take(i + 1).drop_last() == vs@.take(i as int));
            proof {
                lemma_capacity_prefix(devs, vs@, i + 1);
            }
            let v = &vs[i];
            if !(v.type_ == VdevSpecType::Log || v.type_ == VdevSpecType::Cache || v.type_ == VdevSpecType::Spare) {
                let c = self.vdev_size(v, Ghost((pool_capacity(devs, vs@) - total) as nat));
                total = total + c;
            }
            i = i + 1;
        }
        assert(vs@.take(i as int) == vs@);
        total
    }

    /// Create a pool as `zpool create` would: refused when the name is
    /// taken, a disk is missing or (without force) in another pool, or a
    /// mirror has fewer than two disks, checked in layout order; else the
    /// pool is filed with each vdev as a disk or mirror, sized by its data
    /// vdevs, and its root dataset carries the layout's id property and
    /// compression. The size must fit in 64 bits.
    pub fn create_pool(&mut self, spec: &PoolSpec, now: Timestamp) -> (r: Result<(), ZfsError>)
        requires
            old(self).wf(),
            pool_refusal(*old(self), *spec) is None ==> pool_capacity(old(self).device_list(), spec.vdevs@) <= u64::MAX,
        ensures
            final(self).wf(),
            final(self).device_list() == old(self).device_list(),
            final(self).snapshot_list() == old(self).snapshot_list(),
            r is Err <==> pool_refusal(*old(self), *spec) is Some,
            r matches Err(e) ==> tool_error_is(e, pool_refusal(*old(self), *spec)->0),
            r is Err ==> final(self).pool_list() == old(self).pool_list()
                && final(self).dataset_list() == old(self).dataset_list(),
            r is Ok ==> exists|p: PoolInfo|
                fake_pool(p, spec.name@, layout_groups(spec.vdevs@), pool_capacity(old(self).device_list(), spec.vdevs@))
                && final(self).pool_list() == put(old(self).pool_list(), p),
            r is Ok ==> exists|d: DatasetInfo|
                fake_dataset_with(d, spec.name@, DatasetKind::Filesystem, now, root_id(spec.root_properties@),
                    match spec.compression { Some(c) => c@, None => "lz4"@ })
                && final(self).dataset_list() == put(old(self).dataset_list(), d),
    {
        proof {
            lemma_index_has(self.pools@, spec.name@);
        }
        if find_key(&self.pools, spec.name.as_str()).is_some() {
            let m = text3("cannot create '", spec.name.as_str(), "': pool already exists");
            return Err(tool_error(chars_of(m.as_str()).as_slice()));
        }
        match self.layout_check(spec) {
            Some(m) => return Err(tool_error(chars_of(m.as_str()).as_slice())),
            None => {},
        }
        let size = self.layout_size(&spec.vdevs);
        let mut groups: Vec<Vec<String>> = Vec::new();
        let mut i: usize = 0;
        while i < spec.vdevs.len()
            invariant
                0 <= i <= spec.vdevs@.len(),
                group_views(groups@) == layout_groups(spec.vdevs@.take(i as int)),
            decreases spec.vdevs@.len() - i,
        {
            let g = copy_names(&spec.vdevs[i].devices);
            let ghost before = group_views(groups@);
            groups.push(g);
            assert(group_views(groups@) == before.push(spec_devices(spec.vdevs@[i as int])));
            assert(layout_groups(spec.vdevs@.take(i + 1)) =~= layout_groups(spec.vdevs@.take(i as int)).push(spec_devices(spec.vdevs@[i as int])));
            i = i + 1;
        }
        assert(spec.vdevs@.take(i as int) == spec.vdevs@);
        let pool = build_pool(spec.name.as_str(), &groups, size);
        proof {
            lemma_put_sorted(self.pools@, pool);
        }
        put_item(&mut self.pools, pool);
        let mut d = new_dataset(spec.name.as_str(), DatasetKind::Filesystem, now);
        d.mandrake_id = find_root_id(&spec.root_properties);
        match &spec.compression {
            Some(c) => {
                d.compression = Some(c.clone());
            },
            None => {},
        }
        proof {
            lemma_put_sorted(self.datasets@, d);
        }
        put_item(&mut self.datasets, d);
        Ok(())
    }
}

/// Copies of some strings.
pub fn copy_names(v: &Vec<String>) -> (r: Vec<String>)
    ensures
        r@.map_values(|s: String| s@) == v@.map_values(|s: String| s@),
{
    let mut out: Vec<String> = Vec::new();
    let mut j: usize = 0;
    while j < v.len()
        invariant
            0 <= j <= v@.len(),
            out@.map_values(|s: String| s@) == v@.take(j as int).map_values(|s: String| s@),
        decreases v@.len() - j,
    {
        let c = v[j].clone();
        let ghost before = out@.map_values(|s: String| s@);
        out.push(c);
        assert(out@.map_values(|s: String| s@) == before.push(v@[j as int]@));
        assert(v@.take(j + 1).map_values(|s: String| s@) =~= v@.take(j as int).map_values(|s: String| s@).push(v@[j as int]@));
        j = j + 1;
    }
    assert(v@.take(j as int) == v@);
    out
}

fn find_root_id(props: &Vec<(String, String)>) -> (r: Option<String>)
    ensures
        crate::net::parse::opt_view(r) == root_id(props@),
{
    let ghost pred = id_pair();
    let mut k: usize = 0;
    while k < props.len()
        invariant
            0 <= k <= props@.len(),
            pred == id_pair(),
            forall|j: int| 0 <= j < k ==> !pred(props@[j]),
        decreases props@.len() - k,
    {
        if str_eq(props[k].0.as_str(), ID_PROPERTY) {
            proof {
                crate::text::lemma_first_where(props@, pred, k as int);
            }
            return Some(props[k].1.clone());
        }
        k = k + 1;
    }
    proof {
        crate::text::lemma_none_where(props@, pred);
    }
    None
}

/// The properties `zfs set` and `-o` change, as the contracts see them.
pub struct Settable {
    /// Compression.
    pub compression: Option<Seq<char>>,
    /// Quota.
    pub quota: Option<int>,
    /// Reservation.
    pub reservation: Option<int>,
    /// Mountpoint.
    pub mountpoint: Option<Seq<char>>,
    /// atime.
    pub atime: Option<bool>,
    /// Record size.
    pub recordsize: Option<int>,
    /// Volume block size.
    pub volblocksize: Option<int>,
    /// Volume size.
    pub volsize: Option<int>,
    /// Mandrake id.
    pub mandrake_id: Option<Seq<char>>,
}

/// An optional number as the contracts see it.
pub open spec fn num_view(o: Option<u64>) -> Option<int> {
    match o {
        Some(n) => Some(n as int),
        None => None,
    }
}

/// The settable properties of a dataset.
pub open spec fn settable_of(d: DatasetInfo) -> Settable {
    Settable {
        compression: crate::net::parse::opt_view(d.compression),
        quota: num_view(d.quota),
        reservation: num_view(d.reservation),
        mountpoint: crate::net::parse::opt_view(d.mountpoint),
        atime: d.atime,
        recordsize: num_view(d.recordsize),
        volblocksize: num_view(d.volblocksize),
        volsize: num_view(d.volsize),
        mandrake_id: crate::net::parse::opt_view(d.mandrake_id),
    }
}

/// A byte count as a property value gives it: a plain integer, else a
/// human size.
pub open spec fn bytes_value(v: Seq<char>) -> Option<int> {
    match crate::text::parse_unsigned(v, 10, u64::MAX as int) {
        Some(n) => Some(n),
        None => crate::zfs::parse::size_value(v),
    }
}

/// A byte count that `none` clears.
pub open spec fn limit_value(v: Seq<char>) -> Option<int> {
    if v == "none"@ { None } else { bytes_value(v) }
}

/// One property applied to the settable view; unknown names change
/// nothing.
pub open spec fn apply_prop(s: Settable, k: Seq<char>, v: Seq<char>) -> Settable {
    if k == "compression"@ {
        Settable { compression: Some(v), ..s }
    } else if k == "quota"@ {
        Settable { quota: limit_value(v), ..s }
    } else if k == "reservation"@ || k == "refreservation"@ {
        Settable { reservation: limit_value(v), ..s }
    } else if k == "mountpoint"@ {
        Settable { mountpoint: if v == "none"@ { None } else { Some(v) }, ..s }
    } else if k == "atime"@ {
        Settable { atime: Some(v == "on"@), ..s }
    } else if k == "recordsize"@ {
        Settable { recordsize: bytes_value(v), ..s }
    } else if k == "volblocksize"@ {
        Settable { volblocksize: bytes_value(v), ..s }
    } else if k == "volsize"@ {
        Settable { volsize: bytes_value(v), ..s }
    } else if k == ID_PROPERTY@ {
        Settable { mandrake_id: Some(v), ..s }
    } else {
        s
    }
}

/// Properties applied in order.
pub open spec fn apply_props(s: Settable, props: Seq<(String, String)>) -> Settable
    decreases props.len(),
{
    if props.len() == 0 {
        s
    } else {
        apply_prop(apply_props(s, props.drop_last()), props.last().0@, props.last().1@)
    }
}

/// The fields a property never touches.
pub open spec fn same_fixed(a: DatasetInfo, b: DatasetInfo) -> bool {
    &&& a.name == b.name && a.kind == b.kind && a.mounted == b.mounted
    &&& a.used == b.used && a.available == b.available && a.referenced == b.referenced
    &&& a.logical_used == b.logical_used && a.compress_ratio == b.compress_ratio
    &&& a.origin == b.origin && a.created_at == b.created_at
}

fn bytes_of(v: &str) -> (r: Option<u64>)
    ensures
        num_view(r) == bytes_value(v@),
{
    match crate::text::parse_u64(chars_of(v).as_slice()) {
        Some(n) => Some(n),
        None => crate::zfs::parse::size(v),
    }
}

fn limit_of(v: &str) -> (r: Option<u64>)
    ensures
        num_view(r) == limit_value(v@),
{
    if str_eq(v, "none") {
        proof { reveal_strlit("none"); }
        None
    } else {
        bytes_of(v)
    }
}

/// Apply one property to a dataset, as `zfs set` would.
pub fn apply_property(d: &mut DatasetInfo, key: &str, value: &str)
    ensures
        same_fixed(*final(d), *old(d)),
        settable_of(*final(d)) == apply_prop(settable_of(*old(d)), key@, value@),
{
    if str_eq(key, "compression") {
        d.compression = Some(value.to_owned());
    } else if str_eq(key, "quota") {
        d.quota = limit_of(value);
    } else if str_eq(key, "reservation") || str_eq(key, "refreservation") {
        d.reservation = limit_of(value);
    } else if str_eq(key, "mountpoint") {
        d.mountpoint = if str_eq(value, "none") { None } else { Some(value.to_owned()) };
    } else if str_eq(key, "atime") {
        d.atime = Some(str_eq(value, "on"));
    } else if str_eq(key, "recordsize") {
        d.recordsize = bytes_of(value);
    } else if str_eq(key, "volblocksize") {
        d.volblocksize = bytes_of(value);
    } else if str_eq(key, "volsize") {
        d.volsize = bytes_of(value);
    } else if str_eq(key, ID_PROPERTY) {
        d.mandrake_id = Some(value.to_owned());
    }
}

fn apply_properties(d: &mut DatasetInfo, props: &Vec<(String, String)>)
    ensures
        same_fixed(*final(d), *old(d)),
        settable_of(*final(d)) == apply_props(settable_of(*old(d)), props@),
{
    let mut i: usize = 0;
    while i < props.len()
        invariant
            0 <= i <= props@.len(),
            same_fixed(*d, *old(d)),
            settable_of(*d) == apply_props(settable_of(*old(d)), props@.take(i as int)),
        decreases props@.len() - i,
    {
        assert(props@.take(i + 1).drop_last() == props@.take(i as int));
        apply_property(d, props[i].0.as_str(), props[i].1.as_str());
        i = i + 1;
    }
    assert(props@.take(i as int) == props@);
}

/// The dataset a name is created under: the text before its last `/`.
pub open spec fn parent_of(name: Seq<char>) -> Seq<char> {
    match crate::zfs::parse::last_pos(name, '/') {
        Some(i) => name.take(i),
        None => name,
    }
}

/// One more component on a path, joined with `/` unless the path is
/// still empty.
pub open spec fn path_step(path: Seq<char>, part: Seq<char>) -> Seq<char> {
    (if path.len() == 0 { path } else { path + "/"@ }) + part
}

/// The paths a `-p` walk visits: each component added in turn.
pub open spec fn prefix_paths(parts: Seq<Seq<char>>) -> Seq<Seq<char>>
    decreases parts.len(),
{
    if parts.len() == 0 {
        Seq::<Seq<char>>::empty()
    } else {
        let prev = prefix_paths(parts.drop_last());
        prev.push(path_step(if prev.len() == 0 { Seq::<char>::empty() } else { prev.last() }, parts.last()))
    }
}

/// The datasets a `-p` create adds first: none when the parent exists,
/// else every prefix of the parent.
pub open spec fn missing_paths(z: FakeZfs, name: Seq<char>) -> Seq<Seq<char>> {
    if has_key(z.dataset_list(), parent_of(name)) {
        Seq::<Seq<char>>::empty()
    } else {
        prefix_paths(crate::text::split_char(parent_of(name), '/'))
    }
}

/// Why the fake refuses to create a dataset, if it does.
pub open spec fn dataset_refusal(z: FakeZfs, spec: DatasetSpec) -> Option<Seq<char>> {
    let name = spec.name@;
    if has_key(z.dataset_list(), name) {
        Some("cannot create '"@ + name + "': dataset already exists"@)
    } else if crate::zfs::parse::last_pos(name, '/') is None {
        Some("cannot create '"@ + name + "': missing dataset name"@)
    } else if !has_key(z.dataset_list(), parent_of(name)) && !spec.create_parents {
        Some("cannot create '"@ + name + "': parent does not exist"@)
    } else {
        None
    }
}

/// The settable properties a new dataset starts from.
pub open spec fn base_settable(spec: DatasetSpec) -> Settable {
    let fs = spec.kind == DatasetKind::Filesystem;
    Settable {
        compression: Some("lz4"@),
        quota: None,
        reservation: None,
        mountpoint: if fs { Some("/"@ + spec.name@) } else { None },
        atime: if fs { Some(true) } else { None },
        recordsize: if fs { Some(131072) } else { None },
        volblocksize: if fs { None } else { Some(8192) },
        volsize: if fs { None } else { num_view(spec.volsize) },
        mandrake_id: None,
    }
}

/// The dataset a spec makes: a fresh one of its kind, a volume sized and
/// (unless sparse) fully referenced, then its properties applied.
pub open spec fn made_dataset(d: DatasetInfo, spec: DatasetSpec, now: Timestamp) -> bool {
    let fs = spec.kind == DatasetKind::Filesystem;
    let vol_ref: int = if spec.sparse { 0 } else { match spec.volsize { Some(n) => n as int, None => 0 } };
    &&& d.name@ == spec.name@
    &&& d.kind == spec.kind
    &&& d.mounted == fs
    &&& d.available == 1099511627776
    &&& d.logical_used == Some(98304u64)
    &&& d.compress_ratio matches Some(r) && r@ == "1.00"@
    &&& d.origin is None
    &&& d.created_at == now
    &&& (if fs { d.referenced == 98304 && d.used == 98304 } else { d.referenced == vol_ref && d.used == vol_ref })
    &&& settable_of(d) == apply_props(base_settable(spec), spec.properties@)
}

fn last_slash(name: &[char]) -> (r: Option<usize>)
    ensures
        r matches Some(i) ==> crate::zfs::parse::last_pos(name@, '/') == Some(i as int) && i < name@.len(),
        r is None ==> crate::zfs::parse::last_pos(name@, '/') is None,
{
    let mut n: usize = name.len();
    assert(name@.take(n as int) == name@);
    while n > 0
        invariant
            0 <= n <= name@.len(),
            crate::zfs::parse::last_pos(name@, '/') == crate::zfs::parse::last_pos(name@.take(n as int), '/'),
        decreases n,
    {
        assert(name@.take(n as int).drop_last() == name@.take(n - 1));
        if name[n - 1] == '/' {
            return Some(n - 1);
        }
        n = n - 1;
    }
    None
}

proof fn lemma_paths_step(parts: Seq<Seq<char>>, j: int)
    requires
        0 <= j < parts.len(),
    ensures
        prefix_paths(parts.take(j + 1)) == prefix_paths(parts.take(j)).push(path_step(
            if j == 0 { Seq::<char>::empty() } else { prefix_paths(parts.take(j)).last() },
            parts[j],
        )),
        prefix_paths(parts.take(j)).len() == j,
    decreases j,
{
    assert(parts.take(j + 1).drop_last() == parts.take(j));
    if j > 0 {
        lemma_paths_step(parts, j - 1);
    } else {
        assert(parts.take(0) == Seq::<Seq<char>>::empty());
    }
}

/// The datasets grew from `old_ds` by fresh filesystems for `paths`,
/// every other dataset kept.
pub open spec fn grown(old_ds: Seq<DatasetInfo>, cur: Seq<DatasetInfo>, paths: Seq<Seq<char>>, now: Timestamp) -> bool {
    &&& forall|k: Seq<char>| #[trigger] has_key(cur, k) <==> has_key(old_ds, k) || paths.contains(k)
    &&& forall|k: Seq<char>| has_key(old_ds, k) ==> #[trigger] entry(cur, k) == entry(old_ds, k)
    &&& forall|k: Seq<char>| !has_key(old_ds, k) && paths.contains(k)
        ==> fake_dataset(#[trigger] entry(cur, k), k, DatasetKind::Filesystem, now)
}

impl FakeZfs {
    fn add_missing(&mut self, name: &str, now: Timestamp, Ghost(old_ds): Ghost<Seq<DatasetInfo>>, Ghost(paths): Ghost<Seq<Seq<char>>>)
        requires
            old(self).wf(),
            grown(old_ds, old(self).datasets@, paths, now),
        ensures
            final(self).wf(),
            final(self).pools@ == old(self).pools@,
            final(self).snapshots@ == old(self).snapshots@,
            final(self).devices@ == old(self).devices@,
            grown(old_ds, final(self).datasets@, paths.push(name@), now),
    {
        let ghost np = paths.push(name@);
        proof {
            lemma_index_has(self.datasets@, name@);
            assert forall|k: Seq<char>| np.contains(k) && k != name@ implies paths.contains(k) by {
                let q = np.index_of(k);
                assert(paths[q] == k);
            }
            assert forall|k: Seq<char>| paths.contains(k) implies np.contains(k) by {
                let q = paths.index_of(k);
                assert(np[q] == k);
            }
            assert(np[paths.len() as int] == name@);
        }
        let ghost cur = self.datasets@;
        if find_key(&self.datasets, name).is_none() {
            let d = new_dataset(name, DatasetKind::Filesystem, now);
            proof {
                lemma_put_sorted(cur, d);
                lemma_put_entry(cur, d);
            }
            put_item(&mut self.datasets, d);
            let ghost w = self.datasets@;
            assert forall|k: Seq<char>| #[trigger] has_key(w, k) <==> has_key(old_ds, k) || np.contains(k) by {
                if has_key(w, k) && k != name@ {
                    assert(has_key(cur, k));
                }
                if has_key(cur, k) {
                    assert(has_key(w, k));
                }
            }
            assert forall|k: Seq<char>| has_key(old_ds, k) implies #[trigger] entry(w, k) == entry(old_ds, k) by {
                assert(has_key(cur, k));
                assert(k != name@);
            }
            assert forall|k: Seq<char>| !has_key(old_ds, k) && np.contains(k)
                implies fake_dataset(#[trigger] entry(w, k), k, DatasetKind::Filesystem, now) by {
                if k != name@ {
                    assert(paths.contains(k));
                    assert(has_key(cur, k));
                }
            }
        } else {
            assert forall|k: Seq<char>| #[trigger] has_key(cur, k) <==> has_key(old_ds, k) || np.contains(k) by {
                if np.contains(k) && k != name@ {
                    assert(paths.contains(k));
                }
            }
            assert forall|k: Seq<char>| !has_key(old_ds, k) && np.contains(k)
                implies fake_dataset(#[trigger] entry(cur, k), k, DatasetKind::Filesystem, now) by {
                if k == name@ {
                    assert(has_key(cur, k));
                    assert(paths.contains(k));
                } else {
                    assert(paths.contains(k));
                }
            }
        }
    }

    fn make_parents(&mut self, parent: &[char], now: Timestamp)
        requires
            old(self).wf(),
        ensures
            final(self).wf(),
            final(self).pool_list() == old(self).pool_list(),
            final(self).snapshot_list() == old(self).snapshot_list(),
            final(self).device_list() == old(self).device_list(),
            grown(old(self).dataset_list(), final(self).dataset_list(), prefix_paths(crate::text::split_char(parent@, '/')), now),
    {
        let parts = crate::text::split_on(parent, '/');
        let ghost ps = crate::text::views(parts@);
        let ghost old_ds = self.datasets@;
        let mut path: Vec<char> = Vec::new();
        let mut j: usize = 0;
        assert(ps.take(0) == Seq::<Seq<char>>::empty());
        while j < parts.len()
            invariant
                0 <= j <= parts@.len(),
                ps == crate::text::views(parts@),
                ps == crate::text::split_char(parent@, '/'),
                self.wf(),
                self.pools@ == old(self).pools@,
                self.snapshots@ == old(self).snapshots@,
                self.devices@ == old(self).devices@,
                old_ds == old(self).datasets@,
                j > 0 ==> path@ == prefix_paths(ps.take(j as int)).last(),
                j == 0 ==> path@.len() == 0,
                grown(old_ds, self.datasets@, prefix_paths(ps.take(j as int)), now),
            decreases parts@.len() - j,
        {
            proof {
                lemma_paths_step(ps, j as int);
            }
            let ghost prev = path@;
            proof {
                reveal_strlit("/");
            }
            if path.len() > 0 {
                path.push('/');
                assert(path@ == prev + "/"@);
            }
            let next = concat(path.as_slice(), parts[j].as_slice());
            path = next;
            assert(path@ == path_step(prev, ps[j as int]));
            let name = string_from(path.as_slice());
            self.add_missing(name.as_str(), now, Ghost(old_ds), Ghost(prefix_paths(ps.take(j as int))));
            j = j + 1;
        }
        assert(ps.take(j as int) == ps);
    }
}

impl FakeZfs {
    /// Create a dataset as `zfs create` would: refused when the name is
    /// taken, has no `/`, or (without `-p`) its parent is missing; with
    /// `-p` every missing prefix of the parent is made first. A volume
    /// gets its size and, unless sparse, references all of it; then the
    /// properties apply in order.
    pub fn create_dataset(&mut self, spec: &DatasetSpec, now: Timestamp) -> (r: Result<(), ZfsError>)
        requires
            old(self).wf(),
        ensures
            final(self).wf(),
            final(self).pool_list() == old(self).pool_list(),
            final(self).snapshot_list() == old(self).snapshot_list(),
            final(self).device_list() == old(self).device_list(),
            r is Err <==> dataset_refusal(*old(self), *spec) is Some,
            r matches Err(e) ==> tool_error_is(e, dataset_refusal(*old(self), *spec)->0),
            r is Err ==> final(self).dataset_list() == old(self).dataset_list(),
            r is Ok ==> forall|k: Seq<char>| #[trigger] has_key(final(self).dataset_list(), k) <==>
                has_key(old(self).dataset_list(), k) || missing_paths(*old(self), spec.name@).contains(k)
                    || k == spec.name@,
            r is Ok ==> forall|k: Seq<char>| has_key(old(self).dataset_list(), k) ==>
                #[trigger] entry(final(self).dataset_list(), k) == entry(old(self).dataset_list(), k),
            r is Ok ==> forall|k: Seq<char>| !has_key(old(self).dataset_list(), k)
                && missing_paths(*old(self), spec.name@).contains(k) && k != spec.name@
                ==> fake_dataset(#[trigger] entry(final(self).dataset_list(), k), k, DatasetKind::Filesystem, now),
            r is Ok ==> made_dataset(entry(final(self).dataset_list(), spec.name@), *spec, now),
    {
        let name = chars_of(spec.name.as_str());
        proof {
            lemma_index_has(self.datasets@, spec.name@);
        }
        if find_key(&self.datasets, spec.name.as_str()).is_some() {
            let m = text3("cannot create '", spec.name.as_str(), "': dataset already exists");
            return Err(tool_error(chars_of(m.as_str()).as_slice()));
        }
        let cut = match last_slash(name.as_slice()) {
            Some(i) => i,
            None => {
                let m = text3("cannot create '", spec.name.as_str(), "': missing dataset name");
                return Err(tool_error(chars_of(m.as_str()).as_slice()));
            },
        };
        let parent = crate::text::slice(name.as_slice(), 0, cut);
        assert(parent@ == parent_of(spec.name@));
        let parent_name = string_from(parent.as_slice());
        proof {
            lemma_index_has(self.datasets@, parent@);
        }
        let ghost old_ds = self.datasets@;
        let ghost missing = missing_paths(*self, spec.name@);
        if find_key(&self.datasets, parent_name.as_str()).is_none() {
            if !spec.create_parents {
                let m = text3("cannot create '", spec.name.as_str(), "': parent does not exist");
                return Err(tool_error(chars_of(m.as_str()).as_slice()));
            }
            self.make_parents(parent.as_slice(), now);
        } else {
            assert(grown(old_ds, self.datasets@, missing, now));
        }
        assert(grown(old_ds, self.datasets@, missing, now));
        let mut d = new_dataset(spec.name.as_str(), spec.kind, now);
        if spec.kind == DatasetKind::Volume {
            d.volsize = spec.volsize;
            d.referenced = if spec.sparse {
                0
            } else {
                match spec.volsize {
                    Some(n) => n,
                    None => 0,
                }
            };
            d.used = d.referenced;
        }
        assert(settable_of(d) == base_settable(*spec));
        apply_properties(&mut d, &spec.properties);
        let ghost cur = self.datasets@;
        proof {
            lemma_put_sorted(cur, d);
            lemma_put_entry(cur, d);
        }
        put_item(&mut self.datasets, d);
        let ghost w = self.datasets@;
        assert forall|k: Seq<char>| #[trigger] has_key(w, k) <==>
            has_key(old_ds, k) || missing.contains(k) || k == spec.name@ by {
            if has_key(w, k) && k != spec.name@ {
                assert(has_key(cur, k));
            }
            if has_key(cur, k) {
                assert(has_key(w, k));
            }
        }
        assert forall|k: Seq<char>| has_key(old_ds, k) implies #[trigger] entry(w, k) == entry(old_ds, k) by {
            assert(has_key(cur, k));
        }
        assert forall|k: Seq<char>| !has_key(old_ds, k) && missing.contains(k) && k != spec.name@
            implies fake_dataset(#[trigger] entry(w, k), k, DatasetKind::Filesystem, now) by {
            assert(has_key(cur, k));
        }
        Ok(())
    }
}

impl FakeZfs {
    /// A pool by name.
    pub fn pool(&self, name: &str) -> (r: Result<&PoolInfo, ZfsError>)
        requires
            self.wf(),
        ensures
            r is Ok <==> has_key(self.pool_list(), name@),
            r matches Ok(p) ==> *p == entry(self.pool_list(), name@),
            r matches Err(e) ==> tool_error_is(e, "cannot open '"@ + name@ + "': no such pool"@),
    {
        proof {
            lemma_index_has(self.pools@, name@);
        }
        match find_key(&self.pools, name) {
            Some(i) => {
                proof {
                    crate::zfs::keyed::lemma_entry_at(self.pools@, name@, i as int);
                }
                Ok(&self.pools[i])
            },
            None => {
                let m = text3("cannot open '", name, "': no such pool");
                Err(tool_error(chars_of(m.as_str()).as_slice()))
            },
        }
    }

    /// A dataset by name.
    pub fn dataset(&self, name: &str) -> (r: Result<&DatasetInfo, ZfsError>)
        requires
            self.wf(),
        ensures
            r is Ok <==> has_key(self.dataset_list(), name@),
            r matches Ok(d) ==> *d == entry(self.dataset_list(), name@),
            r matches Err(e) ==> tool_error_is(e, "cannot open '"@ + name@ + "': dataset does not exist"@),
    {
        proof {
            lemma_index_has(self.datasets@, name@);
        }
        match find_key(&self.datasets, name) {
            Some(i) => {
                proof {
                    crate::zfs::keyed::lemma_entry_at(self.datasets@, name@, i as int);
                }
                Ok(&self.datasets[i])
            },
            None => {
                let m = text3("cannot open '", name, "': dataset does not exist");
                Err(tool_error(chars_of(m.as_str()).as_slice()))
            },
        }
    }

    /// A snapshot by name.
    pub fn snapshot(&self, name: &str) -> (r: Result<&SnapshotInfo, ZfsError>)
        requires
            self.wf(),
        ensures
            r is Ok <==> has_key(self.snapshot_list(), name@),
            r matches Ok(d) ==> *d == entry(self.snapshot_list(), name@),
            r matches Err(e) ==> tool_error_is(e, "cannot open '"@ + name@ + "': dataset does not exist"@),
    {
        proof {
            lemma_index_has(self.snapshots@, name@);
        }
        match find_key(&self.snapshots, name) {
            Some(i) => {
                proof {
                    crate::zfs::keyed::lemma_entry_at(self.snapshots@, name@, i as int);
                }
                Ok(&self.snapshots[i])
            },
            None => {
                let m = text3("cannot open '", name, "': dataset does not exist");
                Err(tool_error(chars_of(m.as_str()).as_slice()))
            },
        }
    }

    /// A typical host: `rpool` on `c1t0d0` with a boot environment, four
    /// free disks, and no data pool.
    pub fn typical(now: Timestamp) -> (r: FakeZfs)
        ensures
            r.wf(),
            has_key(r.pool_list(), "rpool"@),
            has_key(r.dataset_list(), "rpool"@),
            has_key(r.dataset_list(), "rpool/ROOT"@),
            has_key(r.dataset_list(), "rpool/ROOT/omnios"@),
            has_key(r.dataset_list(), "rpool/mandrake"@),
            has_key(r.dataset_list(), "rpool/mandrake/var"@),
            r.pool_list().len() == 1,
            fake_pool(r.pool_list()[0], "rpool"@, seq![seq!["c1t0d0"@]], 68719476736),
            r.snapshot_list().len() == 0,
            r.device_list().len() == 5,
            fake_device(r.device_list()[0], "c1t0d0"@, 68719476736),
            fake_device(r.device_list()[1], "c1t1d0"@, 4000787030016),
            fake_device(r.device_list()[2], "c1t2d0"@, 4000787030016),
            fake_device(r.device_list()[3], "c1t3d0"@, 4000787030016),
            fake_device(r.device_list()[4], "c1t4d0"@, 4000787030016),
    {
        let mut z = FakeZfs::new();
        let mut groups: Vec<Vec<String>> = Vec::new();
        let mut g: Vec<String> = Vec::new();
        g.push("c1t0d0".to_owned());
        groups.push(g);
        assert(group_views(groups@) == seq![seq!["c1t0d0"@]]) by {
            assert(groups@[0]@.map_values(|s: String| s@) == seq!["c1t0d0"@]);
        }
        z.add_pool("rpool", &groups, 68719476736, now);
        assert(z.pool_list().len() == 1) by {
            crate::zfs::keyed::lemma_index_has(Seq::<PoolInfo>::empty(), "rpool"@);
        }
        z.add_dataset("rpool/ROOT", DatasetKind::Filesystem, now);
        z.add_dataset("rpool/ROOT/omnios", DatasetKind::Filesystem, now);
        z.add_dataset("rpool/mandrake", DatasetKind::Filesystem, now);
        z.add_dataset("rpool/mandrake/var", DatasetKind::Filesystem, now);
        z.add_device("c1t0d0", 68719476736);
        z.add_device("c1t1d0", 4000787030016);
        z.add_device("c1t2d0", 4000787030016);
        z.add_device("c1t3d0", 4000787030016);
        z.add_device("c1t4d0", 4000787030016);
        z
    }
}


/// A pool with its scan replaced.
pub open spec fn with_scan(p: PoolInfo, scan: Option<ScanStatus>) -> PoolInfo {
    PoolInfo { scan: scan, ..p }
}

/// Whether a scrub is running on the pool.
pub open spec fn scrubbing(p: PoolInfo) -> bool {
    p.scan matches Some(sc) && sc.state == ScanState::InProgress
}

/// A scrub as the fake starts it.
pub open spec fn fresh_scrub(sc: ScanStatus, now: Timestamp) -> bool {
    &&& sc.function == ScanFunction::Scrub
    &&& sc.state == ScanState::InProgress
    &&& opt_view(sc.progress) == Some("0"@)
    &&& sc.started_at == Some(now)
    &&& sc.finished_at is None
    &&& sc.errors == Some(0u64)
    &&& sc.rate_bytes_per_second is None
    &&& sc.summary@ == "scrub in progress (fake)"@
}

/// A running scan stopped at `now`.
pub open spec fn canceled(sc: ScanStatus, now: Timestamp) -> ScanStatus {
    ScanStatus { state: ScanState::Canceled, finished_at: Some(now), ..sc }
}

/// A scan brought to its end at `now`: finished, all done.
pub open spec fn finished(done: ScanStatus, sc: ScanStatus, now: Timestamp) -> bool {
    &&& done == ScanStatus { state: ScanState::Finished, progress: done.progress, finished_at: Some(now), ..sc }
    &&& opt_view(done.progress) == Some("100"@)
}

/// Why `zpool scrub` (with `stop`, `zpool scrub -s`) is refused, if it is.
pub open spec fn scrub_refusal(z: FakeZfs, name: Seq<char>, stop: bool) -> Option<Seq<char>> {
    if !has_key(z.pool_list(), name) {
        Some("cannot open '"@ + name + "': no such pool"@)
    } else if stop && !scrubbing(entry(z.pool_list(), name)) {
        Some("cannot cancel scrubbing "@ + name + ": there is no active scrub"@)
    } else if !stop && scrubbing(entry(z.pool_list(), name)) {
        Some("cannot scrub "@ + name + ": currently scrubbing; use 'zpool scrub -s' to cancel current scrub"@)
    } else {
        None
    }
}

fn text2(a: &str, b: &str) -> (r: String)
    ensures
        r@ == a@ + b@,
{
    string_from(concat(chars_of(a).as_slice(), chars_of(b).as_slice()).as_slice())
}

impl FakeZfs {
    /// Put pool `i` back with its scan replaced.
    fn set_scan(&mut self, i: usize, scan: Option<ScanStatus>)
        requires
            old(self).wf(),
            i < old(self).pool_list().len(),
        ensures
            final(self).wf(),
            final(self).pool_list() == put(old(self).pool_list(), with_scan(old(self).pool_list()[i as int], scan)),
            final(self).dataset_list() == old(self).dataset_list(),
            final(self).snapshot_list() == old(self).snapshot_list(),
            final(self).device_list() == old(self).device_list(),
    {
        let ghost before = self.pools@;
        let mut p = self.pools.remove(i);
        p.scan = scan;
        proof {
            lemma_put_back(before, i as int, p);
            lemma_put_sorted(before, p);
        }
        self.pools.insert(i, p);
    }

    /// Destroy a pool with its datasets and snapshots, as `zpool destroy`.
    pub fn destroy_pool(&mut self, name: &str) -> (r: Result<(), ZfsError>)
        requires
            old(self).wf(),
        ensures
            final(self).wf(),
            final(self).device_list() == old(self).device_list(),
            r is Ok <==> has_key(old(self).pool_list(), name@),
            r matches Err(e) ==> tool_error_is(e, "cannot open '"@ + name@ + "': no such pool"@),
            r is Err ==> *final(self) == *old(self),
            r is Ok ==> final(self).pool_list() == without(old(self).pool_list(), name@),
            r is Ok ==> forall|k: Seq<char>| #[trigger] has_key(final(self).dataset_list(), k)
                <==> has_key(old(self).dataset_list(), k) && !under(k, name@, true, true, false),
            r is Ok ==> forall|k: Seq<char>| has_key(final(self).dataset_list(), k)
                ==> #[trigger] entry(final(self).dataset_list(), k) == entry(old(self).dataset_list(), k),
            r is Ok ==> forall|k: Seq<char>| #[trigger] has_key(final(self).snapshot_list(), k)
                <==> has_key(old(self).snapshot_list(), k) && !under(k, name@, false, true, true),
            r is Ok ==> forall|k: Seq<char>| has_key(final(self).snapshot_list(), k)
                ==> #[trigger] entry(final(self).snapshot_list(), k) == entry(old(self).snapshot_list(), k),
    {
        proof {
            lemma_index_has(self.pools@, name@);
            lemma_without_sorted(self.pools@, name@);
        }
        if find_key(&self.pools, name).is_none() {
            let m = text3("cannot open '", name, "': no such pool");
            return Err(tool_error(chars_of(m.as_str()).as_slice()));
        }
        remove_item(&mut self.pools, name);
        prune(&mut self.datasets, name, true, true, false);
        prune(&mut self.snapshots, name, false, true, true);
        Ok(())
    }

    /// Start a scrub, or with `stop` cancel the running one, as `zpool
    /// scrub`; the clock reads `now`.
    pub fn scrub(&mut self, name: &str, stop: bool, now: Timestamp) -> (r: Result<(), ZfsError>)
        requires
            old(self).wf(),
        ensures
            final(self).wf(),
            final(self).dataset_list() == old(self).dataset_list(),
            final(self).snapshot_list() == old(self).snapshot_list(),
            final(self).device_list() == old(self).device_list(),
            r is Err <==> scrub_refusal(*old(self), name@, stop) is Some,
            r matches Err(e) ==> tool_error_is(e, scrub_refusal(*old(self), name@, stop)->0),
            r is Err ==> final(self).pool_list() == old(self).pool_list(),
            r is Ok && stop ==> final(self).pool_list() == put(
                old(self).pool_list(),
                with_scan(
                    entry(old(self).pool_list(), name@),
                    Some(canceled(entry(old(self).pool_list(), name@).scan->0, now)),
                ),
            ),
            r is Ok && !stop ==> exists|sc: ScanStatus| fresh_scrub(sc, now)
                && final(self).pool_list() == put(
                    old(self).pool_list(),
                    with_scan(entry(old(self).pool_list(), name@), Some(sc)),
                ),
    {
        proof {
            lemma_index_has(self.pools@, name@);
        }
        let i = match find_key(&self.pools, name) {
            Some(i) => i,
            None => {
                let m = text3("cannot open '", name, "': no such pool");
                return Err(tool_error(chars_of(m.as_str()).as_slice()));
            },
        };
        proof {
            crate::zfs::keyed::lemma_entry_at(self.pools@, name@, i as int);
        }
        let running = match &self.pools[i].scan {
            Some(sc) => sc.state == ScanState::InProgress,
            None => false,
        };
        if stop {
            if !running {
                let m = text3("cannot cancel scrubbing ", name, ": there is no active scrub");
                return Err(tool_error(chars_of(m.as_str()).as_slice()));
            }
            let scan = match &self.pools[i].scan {
                Some(sc) => Some(ScanStatus {
                    function: sc.function,
                    state: ScanState::Canceled,
                    progress: match &sc.progress {
                        Some(t) => Some(t.clone()),
                        None => None,
                    },
                    started_at: sc.started_at,
                    finished_at: Some(now),
                    errors: sc.errors,
                    rate_bytes_per_second: sc.rate_bytes_per_second,
                    summary: sc.summary.clone(),
                }),
                None => None,
            };
            self.set_scan(i, scan);
            return Ok(());
        }
        if running {
            let m = text3(
                "cannot scrub ",
                name,
                ": currently scrubbing; use 'zpool scrub -s' to cancel current scrub",
            );
            return Err(tool_error(chars_of(m.as_str()).as_slice()));
        }
        let sc = ScanStatus {
            function: ScanFunction::Scrub,
            state: ScanState::InProgress,
            progress: Some("0".to_owned()),
            started_at: Some(now),
            finished_at: None,
            errors: Some(0),
            rate_bytes_per_second: None,
            summary: "scrub in progress (fake)".to_owned(),
        };
        let ghost g = sc;
        self.set_scan(i, Some(sc));
        assert(fresh_scrub(g, now));
        Ok(())
    }

    /// Bring the pool's scan to its end at `now`; tests drive the job to
    /// completion this way. A pool without a scan, or no such pool, is
    /// left as it is.
    pub fn finish_scrub(&mut self, pool: &str, now: Timestamp)
        requires
            old(self).wf(),
        ensures
            final(self).wf(),
            final(self).dataset_list() == old(self).dataset_list(),
            final(self).snapshot_list() == old(self).snapshot_list(),
            final(self).device_list() == old(self).device_list(),
            !(has_key(old(self).pool_list(), pool@) && entry(old(self).pool_list(), pool@).scan is Some)
                ==> final(self).pool_list() == old(self).pool_list(),
            has_key(old(self).pool_list(), pool@) && entry(old(self).pool_list(), pool@).scan is Some
                ==> exists|done: ScanStatus| finished(done, entry(old(self).pool_list(), pool@).scan->0, now)
                    && final(self).pool_list() == put(
                        old(self).pool_list(),
                        with_scan(entry(old(self).pool_list(), pool@), Some(done)),
                    ),
    {
        proof {
            lemma_index_has(self.pools@, pool@);
        }
        if let Some(i) = find_key(&self.pools, pool) {
            proof {
                crate::zfs::keyed::lemma_entry_at(self.pools@, pool@, i as int);
            }
            let scan = match &self.pools[i].scan {
                Some(sc) => Some(ScanStatus {
                    function: sc.function,
                    state: ScanState::Finished,
                    progress: Some("100".to_owned()),
                    started_at: sc.started_at,
                    finished_at: Some(now),
                    errors: sc.errors,
                    rate_bytes_per_second: sc.rate_bytes_per_second,
                    summary: sc.summary.clone(),
                }),
                None => None,
            };
            if scan.is_some() {
                let ghost g = scan->0;
                self.set_scan(i, scan);
                assert(finished(g, entry(old(self).pool_list(), pool@).scan->0, now));
            }
        }
    }
}


/// A number, or zero where there is none.
pub open spec fn or_zero(o: Option<int>) -> int {
    match o {
        Some(n) => n,
        None => 0,
    }
}

/// Whether setting `k` to `v` would shrink the volume: `volsize` read as
/// a plain integer (zero when it is not one) below the size it has.
pub open spec fn shrinks(s: Settable, k: Seq<char>, v: Seq<char>) -> bool {
    k == "volsize"@ && (s.volsize matches Some(old) && or_zero(
        crate::text::parse_unsigned(v, 10, u64::MAX as int),
    ) < old)
}

/// Where `zfs set` stops: the first property that would shrink the volume
/// as the properties before it leave the dataset.
pub open spec fn set_stop(s: Settable, props: Seq<(String, String)>) -> Option<int>
    decreases props.len(),
{
    if props.len() == 0 {
        None
    } else {
        match set_stop(s, props.drop_last()) {
            Some(i) => Some(i),
            None => if shrinks(apply_props(s, props.drop_last()), props.last().0@, props.last().1@) {
                Some(props.len() - 1)
            } else {
                None
            },
        }
    }
}

/// A stop within a prefix is the stop of the whole.
proof fn lemma_stop_prefix(s: Settable, props: Seq<(String, String)>, n: int)
    requires
        0 <= n <= props.len(),
        set_stop(s, props.take(n)) is Some,
    ensures
        set_stop(s, props) == set_stop(s, props.take(n)),
    decreases props.len() - n,
{
    if n < props.len() {
        assert(props.drop_last().take(n) == props.take(n));
        lemma_stop_prefix(s, props.drop_last(), n);
    } else {
        assert(props.take(n) == props);
    }
}

/// A snapshot's Mandrake id after `zfs set`: the last value given for the
/// id property, else the one it had.
pub open spec fn id_after(id: Option<Seq<char>>, props: Seq<(String, String)>) -> Option<Seq<char>>
    decreases props.len(),
{
    if props.len() == 0 {
        id
    } else if props.last().0@ == ID_PROPERTY@ {
        Some(props.last().1@)
    } else {
        id_after(id, props.drop_last())
    }
}

/// A snapshot with only its Mandrake id changed.
pub open spec fn with_id(sn: SnapshotInfo, id: Option<String>) -> SnapshotInfo {
    SnapshotInfo { mandrake_id: id, ..sn }
}

fn is_volsize_shrink(d: &DatasetInfo, k: &str, v: &str) -> (r: bool)
    ensures
        r == shrinks(settable_of(*d), k@, v@),
{
    if !str_eq(k, "volsize") {
        proof { reveal_strlit("volsize"); }
        return false;
    }
    let new: u64 = match crate::text::parse_u64(chars_of(v).as_slice()) {
        Some(n) => n,
        None => 0,
    };
    match d.volsize {
        Some(old) => new < old,
        None => false,
    }
}

/// Apply properties in order until one would shrink the volume; whether
/// it stopped.
fn apply_until_shrink(d: &mut DatasetInfo, props: &Vec<(String, String)>) -> (stopped: bool)
    ensures
        same_fixed(*final(d), *old(d)),
        match set_stop(settable_of(*old(d)), props@) {
            Some(i) => stopped && settable_of(*final(d)) == apply_props(settable_of(*old(d)), props@.take(i)),
            None => !stopped && settable_of(*final(d)) == apply_props(settable_of(*old(d)), props@),
        },
{
    let ghost s0 = settable_of(*d);
    let mut j: usize = 0;
    while j < props.len()
        invariant
            0 <= j <= props@.len(),
            same_fixed(*d, *old(d)),
            s0 == settable_of(*old(d)),
            settable_of(*d) == apply_props(s0, props@.take(j as int)),
            set_stop(s0, props@.take(j as int)) is None,
        decreases props@.len() - j,
    {
        assert(props@.take(j + 1).drop_last() == props@.take(j as int));
        if is_volsize_shrink(d, props[j].0.as_str(), props[j].1.as_str()) {
            proof {
                assert(set_stop(s0, props@.take(j + 1)) == Some(j as int));
                lemma_stop_prefix(s0, props@, j + 1);
            }
            return true;
        }
        apply_property(d, props[j].0.as_str(), props[j].1.as_str());
        j = j + 1;
    }
    assert(props@.take(j as int) == props@);
    false
}

/// Keep the last Mandrake id the properties give.
fn apply_ids(sn: &mut SnapshotInfo, props: &Vec<(String, String)>)
    ensures
        *final(sn) == with_id(*old(sn), final(sn).mandrake_id),
        opt_view(final(sn).mandrake_id) == id_after(opt_view(old(sn).mandrake_id), props@),
{
    let mut j: usize = 0;
    while j < props.len()
        invariant
            0 <= j <= props@.len(),
            *sn == with_id(*old(sn), sn.mandrake_id),
            opt_view(sn.mandrake_id) == id_after(opt_view(old(sn).mandrake_id), props@.take(j as int)),
        decreases props@.len() - j,
    {
        assert(props@.take(j + 1).drop_last() == props@.take(j as int));
        if str_eq(props[j].0.as_str(), ID_PROPERTY) {
            sn.mandrake_id = Some(props[j].1.clone());
        }
        j = j + 1;
    }
    assert(props@.take(j as int) == props@);
}

impl FakeZfs {
    /// Set properties in order, as `zfs set`. On a dataset each property
    /// applies as it comes, and a `volsize` below the volume's size stops
    /// the run with those before it applied; on a snapshot only the
    /// Mandrake id is kept.
    pub fn set_properties(&mut self, name: &str, props: &Vec<(String, String)>) -> (r: Result<(), ZfsError>)
        requires
            old(self).wf(),
        ensures
            final(self).wf(),
            final(self).pool_list() == old(self).pool_list(),
            final(self).device_list() == old(self).device_list(),
            has_key(old(self).dataset_list(), name@) ==> {
                let d0 = entry(old(self).dataset_list(), name@);
                let d1 = entry(final(self).dataset_list(), name@);
                &&& final(self).snapshot_list() == old(self).snapshot_list()
                &&& exists|d: DatasetInfo| d == d1 && final(self).dataset_list() == put(old(self).dataset_list(), d)
                &&& same_fixed(d1, d0)
                &&& match set_stop(settable_of(d0), props@) {
                    Some(i) => {
                        &&& r matches Err(e) && tool_error_is(
                            e,
                            "cannot set property for '"@ + name@
                                + "': 'volsize' must be a multiple of volume block size and cannot shrink"@,
                        )
                        &&& settable_of(d1) == apply_props(settable_of(d0), props@.take(i))
                    },
                    None => r is Ok && settable_of(d1) == apply_props(settable_of(d0), props@),
                }
            },
            !has_key(old(self).dataset_list(), name@) && has_key(old(self).snapshot_list(), name@) ==> {
                let s0 = entry(old(self).snapshot_list(), name@);
                &&& r is Ok
                &&& final(self).dataset_list() == old(self).dataset_list()
                &&& exists|id: Option<String>| opt_view(id) == id_after(opt_view(s0.mandrake_id), props@)
                    && final(self).snapshot_list() == put(old(self).snapshot_list(), with_id(s0, id))
            },
            !has_key(old(self).dataset_list(), name@) && !has_key(old(self).snapshot_list(), name@) ==> {
                &&& r matches Err(e) && tool_error_is(e, "cannot open '"@ + name@ + "': dataset does not exist"@)
                &&& *final(self) == *old(self)
            },
    {
        proof {
            lemma_index_has(self.datasets@, name@);
            lemma_index_has(self.snapshots@, name@);
        }
        if let Some(i) = find_key(&self.datasets, name) {
            let ghost before = self.datasets@;
            proof {
                crate::zfs::keyed::lemma_entry_at(before, name@, i as int);
            }
            let mut d = self.datasets.remove(i);
            let stopped = apply_until_shrink(&mut d, props);
            proof {
                lemma_put_back(before, i as int, d);
                lemma_put_sorted(before, d);
                lemma_put_entry(before, d);
            }
            self.datasets.insert(i, d);
            if stopped {
                let m = text3(
                    "cannot set property for '",
                    name,
                    "': 'volsize' must be a multiple of volume block size and cannot shrink",
                );
                return Err(tool_error(chars_of(m.as_str()).as_slice()));
            }
            return Ok(());
        }
        if let Some(i) = find_key(&self.snapshots, name) {
            let ghost before = self.snapshots@;
            proof {
                crate::zfs::keyed::lemma_entry_at(before, name@, i as int);
            }
            let mut sn = self.snapshots.remove(i);
            apply_ids(&mut sn, props);
            proof {
                lemma_put_back(before, i as int, sn);
                lemma_put_sorted(before, sn);
            }
            self.snapshots.insert(i, sn);
            return Ok(());
        }
        let m = text3("cannot open '", name, "': dataset does not exist");
        Err(tool_error(chars_of(m.as_str()).as_slice()))
    }
}


/// The datasets below `name`, in name order.
pub open spec fn children(z: FakeZfs, name: Seq<char>) -> Seq<Seq<char>> {
    keys(z.dataset_list()).filter(under_pred(name, false, true, false))
}

/// The snapshots of `name` itself, in name order.
pub open spec fn snaps_of(z: FakeZfs, name: Seq<char>) -> Seq<Seq<char>> {
    keys(z.snapshot_list()).filter(under_pred(name, false, false, true))
}

/// A snapshot of `name` that clones depend on.
pub open spec fn cloned_snap(name: Seq<char>) -> spec_fn(SnapshotInfo) -> bool {
    |sn: SnapshotInfo| under(sn.name@, name, false, false, true) && sn.clones@.len() > 0
}

/// Whether a snapshot name belongs to one of the datasets below `name`.
pub open spec fn child_snapshot(z: FakeZfs, name: Seq<char>, k: Seq<char>) -> bool {
    exists|j: int| 0 <= j < children(z, name).len() && under(k, #[trigger] children(z, name)[j], false, false, true)
}

/// Why `zfs destroy` (with `recursive`, `-r`) is refused, if it is: no
/// such dataset; without `-r`, children or snapshots; a snapshot of it
/// that clones depend on, the first in name order.
pub open spec fn destroy_refusal(z: FakeZfs, name: Seq<char>, recursive: bool) -> Option<Seq<char>> {
    if !has_key(z.dataset_list(), name) {
        Some("cannot open '"@ + name + "': dataset does not exist"@)
    } else if !recursive && children(z, name).len() > 0 {
        Some(
            "cannot destroy '"@ + name + "': filesystem has children\nuse '-r' to destroy the following datasets:\n"@
                + join(children(z, name), "\n"@),
        )
    } else if !recursive && snaps_of(z, name).len() > 0 {
        Some("cannot destroy '"@ + name + "': filesystem has snapshots"@)
    } else {
        match first_where(z.snapshot_list(), cloned_snap(name)) {
            Some(i) => Some("cannot destroy '"@ + z.snapshot_list()[i].name@ + "': snapshot has dependent clones"@),
            None => None,
        }
    }
}

fn first_cloned(v: &Vec<SnapshotInfo>, name: &str) -> (r: Option<usize>)
    ensures
        r matches Some(i) ==> first_where(v@, cloned_snap(name@)) == Some(i as int) && i < v@.len(),
        r is None ==> first_where(v@, cloned_snap(name@)) is None,
{
    let ghost pred = cloned_snap(name@);
    let mut i: usize = 0;
    while i < v.len()
        invariant
            0 <= i <= v@.len(),
            pred == cloned_snap(name@),
            forall|j: int| 0 <= j < i ==> !pred(v@[j]),
        decreases v@.len() - i,
    {
        if crate::zfs::keyed::name_under(v[i].name.as_str(), name, false, false, true) && v[i].clones.len() > 0 {
            proof {
                lemma_first_where(v@, pred, i as int);
            }
            return Some(i);
        }
        i = i + 1;
    }
    proof {
        lemma_none_where(v@, pred);
    }
    None
}

impl FakeZfs {
    /// Take out the snapshots of each named dataset.
    fn prune_snapshots_of(&mut self, names: &Vec<Vec<char>>)
        requires
            old(self).wf(),
        ensures
            final(self).wf(),
            final(self).pool_list() == old(self).pool_list(),
            final(self).dataset_list() == old(self).dataset_list(),
            final(self).device_list() == old(self).device_list(),
            forall|k: Seq<char>| #[trigger] has_key(final(self).snapshot_list(), k)
                <==> has_key(old(self).snapshot_list(), k) && !(exists|j: int| 0 <= j < names@.len()
                    && under(k, #[trigger] views(names@)[j], false, false, true)),
            forall|k: Seq<char>| has_key(final(self).snapshot_list(), k)
                ==> #[trigger] entry(final(self).snapshot_list(), k) == entry(old(self).snapshot_list(), k),
    {
        let mut i: usize = 0;
        while i < names.len()
            invariant
                0 <= i <= names@.len(),
                self.wf(),
                self.pool_list() == old(self).pool_list(),
                self.dataset_list() == old(self).dataset_list(),
                self.device_list() == old(self).device_list(),
                forall|k: Seq<char>| #[trigger] has_key(self.snapshot_list(), k)
                    <==> has_key(old(self).snapshot_list(), k) && !(exists|j: int| 0 <= j < i
                        && under(k, #[trigger] views(names@)[j], false, false, true)),
                forall|k: Seq<char>| has_key(self.snapshot_list(), k)
                    ==> #[trigger] entry(self.snapshot_list(), k) == entry(old(self).snapshot_list(), k),
            decreases names@.len() - i,
        {
            let n = string_from(names[i].as_slice());
            let ghost prev = self.snapshots@;
            prune(&mut self.snapshots, n.as_str(), false, false, true);
            assert forall|k: Seq<char>| #[trigger] has_key(self.snapshot_list(), k)
                <==> has_key(old(self).snapshot_list(), k) && !(exists|j: int| 0 <= j < i + 1
                    && under(k, #[trigger] views(names@)[j], false, false, true)) by {
                if has_key(self.snapshot_list(), k) {
                    assert(has_key(prev, k));
                    assert forall|j: int| 0 <= j < i + 1 implies !under(k, #[trigger] views(names@)[j], false, false, true) by {
                        if j == i {
                            assert(views(names@)[j] == n@);
                        }
                    }
                }
                if has_key(old(self).snapshot_list(), k) && !(exists|j: int| 0 <= j < i + 1
                    && under(k, #[trigger] views(names@)[j], false, false, true)) {
                    assert(!under(k, views(names@)[i as int], false, false, true));
                    assert(has_key(prev, k));
                }
            }
            i = i + 1;
        }
    }

    /// Destroy a dataset, as `zfs destroy`; with `recursive` its
    /// children and the snapshots of it and of them go too.
    #[verifier::rlimit(40)]
    pub fn destroy_dataset(&mut self, name: &str, recursive: bool) -> (r: Result<(), ZfsError>)
        requires
            old(self).wf(),
        ensures
            final(self).wf(),
            final(self).pool_list() == old(self).pool_list(),
            final(self).device_list() == old(self).device_list(),
            r is Err <==> destroy_refusal(*old(self), name@, recursive) is Some,
            r matches Err(e) ==> tool_error_is(e, destroy_refusal(*old(self), name@, recursive)->0),
            r is Err ==> *final(self) == *old(self),
            r is Ok ==> forall|k: Seq<char>| #[trigger] has_key(final(self).dataset_list(), k)
                <==> has_key(old(self).dataset_list(), k) && !under(k, name@, true, true, false),
            r is Ok ==> forall|k: Seq<char>| has_key(final(self).dataset_list(), k)
                ==> #[trigger] entry(final(self).dataset_list(), k) == entry(old(self).dataset_list(), k),
            r is Ok ==> forall|k: Seq<char>| #[trigger] has_key(final(self).snapshot_list(), k)
                <==> has_key(old(self).snapshot_list(), k) && !under(k, name@, false, false, true)
                    && !child_snapshot(*old(self), name@, k),
            r is Ok ==> forall|k: Seq<char>| has_key(final(self).snapshot_list(), k)
                ==> unchained(#[trigger] entry(final(self).snapshot_list(), k), entry(old(self).snapshot_list(), k), name@),
    {
        proof {
            lemma_index_has(self.datasets@, name@);
        }
        if find_key(&self.datasets, name).is_none() {
            let m = text3("cannot open '", name, "': dataset does not exist");
            return Err(tool_error(chars_of(m.as_str()).as_slice()));
        }
        let kids = names_under(&self.datasets, name, false, true, false);
        let snaps = names_under(&self.snapshots, name, false, false, true);
        if !recursive && kids.len() > 0 {
            let head = text3(
                "cannot destroy '",
                name,
                "': filesystem has children\nuse '-r' to destroy the following datasets:\n",
            );
            let list = joined(&kids, "\n");
            let m = concat(chars_of(head.as_str()).as_slice(), list.as_slice());
            return Err(tool_error(m.as_slice()));
        }
        if !recursive && snaps.len() > 0 {
            let m = text3("cannot destroy '", name, "': filesystem has snapshots");
            return Err(tool_error(chars_of(m.as_str()).as_slice()));
        }
        if let Some(i) = first_cloned(&self.snapshots, name) {
            let m = text3("cannot destroy '", self.snapshots[i].name.as_str(), "': snapshot has dependent clones");
            return Err(tool_error(chars_of(m.as_str()).as_slice()));
        }
        let ghost old_z = *self;
        prune(&mut self.datasets, name, true, true, false);
        prune(&mut self.snapshots, name, false, false, true);
        let ghost mid = self.snapshots@;
        self.prune_snapshots_of(&kids);
        assert forall|k: Seq<char>| #[trigger] has_key(self.snapshot_list(), k)
            <==> has_key(old_z.snapshot_list(), k) && !under(k, name@, false, false, true)
                && !child_snapshot(old_z, name@, k) by {
            if has_key(self.snapshot_list(), k) {
                assert(has_key(mid, k));
                if child_snapshot(old_z, name@, k) {
                    let j = choose|j: int| 0 <= j < children(old_z, name@).len()
                        && under(k, #[trigger] children(old_z, name@)[j], false, false, true);
                    assert(under(k, views(kids@)[j], false, false, true));
                }
            }
            if has_key(old_z.snapshot_list(), k) && !under(k, name@, false, false, true)
                && !child_snapshot(old_z, name@, k) {
                assert(has_key(mid, k));
                if exists|j: int| 0 <= j < kids@.len() && under(k, #[trigger] views(kids@)[j], false, false, true) {
                    let j = choose|j: int| 0 <= j < kids@.len() && under(k, #[trigger] views(kids@)[j], false, false, true);
                    assert(under(k, children(old_z, name@)[j], false, false, true));
                }
            }
        }
        let ghost pruned = self.snapshots@;
        self.drop_clones(name);
        assert forall|k: Seq<char>| #[trigger] has_key(self.snapshot_list(), k)
            <==> has_key(old_z.snapshot_list(), k) && !under(k, name@, false, false, true)
                && !child_snapshot(old_z, name@, k) by {
            assert(has_key(self.snapshot_list(), k) == has_key(pruned, k));
        }
        assert forall|k: Seq<char>| has_key(self.snapshot_list(), k)
            implies unchained(#[trigger] entry(self.snapshot_list(), k), entry(old_z.snapshot_list(), k), name@) by {
            assert(has_key(pruned, k));
        }
        Ok(())
    }
}

/// The names of a snapshot's clones.
pub open spec fn clone_names(sn: SnapshotInfo) -> Seq<Seq<char>> {
    sn.clones@.map_values(|c: String| c@)
}

/// A clone that outlives destroying `name` and what lies below it.
pub open spec fn outlives(name: Seq<char>) -> spec_fn(Seq<char>) -> bool {
    |c: Seq<char>| !under(c, name, true, true, false)
}

/// Snapshot `now` is `was` with the clones `name` took down dropped from
/// its list, as ZFS forgets a destroyed clone.
pub open spec fn unchained(now: SnapshotInfo, was: SnapshotInfo, name: Seq<char>) -> bool {
    &&& now == with_clones(was, now.clones)
    &&& clone_names(now) == clone_names(was).filter(outlives(name))
}

fn surviving_clones(v: &Vec<String>, name: &str) -> (r: Vec<String>)
    ensures
        r@.map_values(|c: String| c@) == v@.map_values(|c: String| c@).filter(outlives(name@)),
{
    let ghost pred = outlives(name@);
    let ghost vs = v@.map_values(|c: String| c@);
    let mut out: Vec<String> = Vec::new();
    let mut i: usize = 0;
    while i < v.len()
        invariant
            0 <= i <= v@.len(),
            pred == outlives(name@),
            vs == v@.map_values(|c: String| c@),
            out@.map_values(|c: String| c@) == vs.take(i as int).filter(pred),
        decreases v@.len() - i,
    {
        proof {
            reveal(Seq::filter);
            assert(vs.take(i + 1).drop_last() == vs.take(i as int));
            assert(vs.take(i + 1).last() == v@[i as int]@);
        }
        if !crate::zfs::keyed::name_under(v[i].as_str(), name, true, true, false) {
            let ghost before = out@.map_values(|c: String| c@);
            out.push(v[i].clone());
            assert(out@.map_values(|c: String| c@) =~= before.push(v@[i as int]@));
        }
        i = i + 1;
    }
    assert(vs.take(i as int) == vs);
    out
}

impl FakeZfs {
    /// Forget, in every snapshot, the clones that `name` and the datasets
    /// below it were.
    fn drop_clones(&mut self, name: &str)
        requires
            old(self).wf(),
        ensures
            final(self).wf(),
            final(self).pool_list() == old(self).pool_list(),
            final(self).dataset_list() == old(self).dataset_list(),
            final(self).device_list() == old(self).device_list(),
            forall|k: Seq<char>| #[trigger] has_key(final(self).snapshot_list(), k) == has_key(old(self).snapshot_list(), k),
            forall|k: Seq<char>| has_key(old(self).snapshot_list(), k)
                ==> unchained(#[trigger] entry(final(self).snapshot_list(), k), entry(old(self).snapshot_list(), k), name@),
    {
        let ghost v0 = self.snapshots@;
        let mut i: usize = 0;
        while i < self.snapshots.len()
            invariant
                0 <= i <= self.snapshots@.len(),
                self.snapshots@.len() == v0.len(),
                v0 == old(self).snapshot_list(),
                self.pool_list() == old(self).pool_list(),
                self.dataset_list() == old(self).dataset_list(),
                self.device_list() == old(self).device_list(),
                forall|j: int| 0 <= j < v0.len() ==> (#[trigger] self.snapshots@[j]).key() == v0[j].key(),
                forall|j: int| 0 <= j < i ==> unchained(#[trigger] self.snapshots@[j], v0[j], name@),
                forall|j: int| i <= j < v0.len() ==> #[trigger] self.snapshots@[j] == v0[j],
            decreases v0.len() - i,
        {
            let ghost before = self.snapshots@;
            let mut sn = self.snapshots.remove(i);
            let kept = surviving_clones(&sn.clones, name);
            sn.clones = kept;
            self.snapshots.insert(i, sn);
            assert(self.snapshots@ == before.update(i as int, sn));
            i = i + 1;
        }
        proof {
            let v = self.snapshots@;
            assert(keys(v) =~= keys(v0));
            assert forall|k: Seq<char>| has_key(v0, k) implies unchained(#[trigger] entry(v, k), entry(v0, k), name@) by {
                lemma_index_has(v0, k);
                let j = index_of(v0, k)->0;
                lemma_unique_index(v0, j);
                lemma_unique_index(v, j);
            }
        }
    }
}


/// `dataset@name`.
pub open spec fn snap_name(t: Seq<char>, name: Seq<char>) -> Seq<char> {
    t + seq!['@'] + name
}

proof fn lemma_snap_name_injective(a: Seq<char>, b: Seq<char>, name: Seq<char>)
    ensures
        snap_name(a, name) == snap_name(b, name) ==> a == b,
{
    if snap_name(a, name) == snap_name(b, name) {
        assert(snap_name(a, name).len() == a.len() + 1 + name.len());
        assert(snap_name(b, name).len() == b.len() + 1 + name.len());
        assert(a.len() == b.len());
        assert(a =~= snap_name(a, name).take(a.len() as int));
        assert(b =~= snap_name(b, name).take(b.len() as int));
    }
}

/// The datasets `zfs snapshot` takes, in order: the dataset, then (with
/// `recursive`) those below it.
pub open spec fn snap_targets(z: FakeZfs, dataset: Seq<char>, recursive: bool) -> Seq<Seq<char>> {
    if recursive {
        seq![dataset] + children(z, dataset)
    } else {
        seq![dataset]
    }
}

/// A target whose snapshot name is taken.
pub open spec fn taken(z: FakeZfs, name: Seq<char>) -> spec_fn(Seq<char>) -> bool {
    |t: Seq<char>| has_key(z.snapshot_list(), snap_name(t, name))
}

/// Why `zfs snapshot` is refused, if it is: no such dataset, or the first
/// target whose snapshot already exists.
pub open spec fn snapshot_refusal(z: FakeZfs, dataset: Seq<char>, name: Seq<char>, recursive: bool) -> Option<Seq<char>> {
    if !has_key(z.dataset_list(), dataset) {
        Some("cannot open '"@ + dataset + "': dataset does not exist"@)
    } else {
        match first_where(snap_targets(z, dataset, recursive), taken(z, name)) {
            Some(i) => Some(
                "cannot create snapshot '"@ + snap_name(snap_targets(z, dataset, recursive)[i], name)
                    + "': dataset already exists"@,
            ),
            None => None,
        }
    }
}

/// A snapshot of `t` as the fake takes it at `now`: nothing used yet,
/// referencing what the dataset references in `z`.
pub open spec fn fresh_snapshot(sn: SnapshotInfo, z: FakeZfs, t: Seq<char>, name: Seq<char>, now: Timestamp) -> bool {
    &&& sn.name@ == snap_name(t, name)
    &&& sn.used == 0
    &&& sn.referenced == (if has_key(z.dataset_list(), t) {
        entry(z.dataset_list(), t).referenced
    } else {
        0
    })
    &&& sn.created_at == now
    &&& sn.clones@.len() == 0
    &&& sn.mandrake_id is None
}

fn snap_full(t: &Vec<char>, name: &str) -> (r: String)
    ensures
        r@ == snap_name(t@, name@),
{
    let mut at: Vec<char> = Vec::new();
    at.push('@');
    let x = concat(t.as_slice(), at.as_slice());
    string_from(concat(x.as_slice(), chars_of(name).as_slice()).as_slice())
}

impl FakeZfs {
    fn first_taken(&self, targets: &Vec<Vec<char>>, name: &str) -> (r: Option<usize>)
        ensures
            r matches Some(i) ==> first_where(views(targets@), taken(*self, name@)) == Some(i as int)
                && i < targets@.len(),
            r is None ==> first_where(views(targets@), taken(*self, name@)) is None,
    {
        let ghost tv = views(targets@);
        let ghost pred = taken(*self, name@);
        let mut i: usize = 0;
        while i < targets.len()
            invariant
                0 <= i <= targets@.len(),
                tv == views(targets@),
                pred == taken(*self, name@),
                forall|j: int| 0 <= j < i ==> !pred(tv[j]),
            decreases targets@.len() - i,
        {
            let full = snap_full(&targets[i], name);
            proof {
                lemma_index_has(self.snapshots@, full@);
            }
            if find_key(&self.snapshots, full.as_str()).is_some() {
                proof {
                    lemma_first_where(tv, pred, i as int);
                }
                return Some(i);
            }
            i = i + 1;
        }
        proof {
            lemma_none_where(tv, pred);
        }
        None
    }

    #[verifier::rlimit(60)]
    fn take_snapshots(&mut self, targets: &Vec<Vec<char>>, name: &str, now: Timestamp)
        requires
            old(self).wf(),
            forall|j: int| 0 <= j < targets@.len()
                ==> !has_key(old(self).snapshot_list(), snap_name(#[trigger] views(targets@)[j], name@)),
        ensures
            final(self).wf(),
            final(self).pool_list() == old(self).pool_list(),
            final(self).dataset_list() == old(self).dataset_list(),
            final(self).device_list() == old(self).device_list(),
            forall|k: Seq<char>| #[trigger] has_key(final(self).snapshot_list(), k)
                <==> has_key(old(self).snapshot_list(), k) || exists|j: int| 0 <= j < targets@.len()
                    && k == snap_name(#[trigger] views(targets@)[j], name@),
            forall|k: Seq<char>| has_key(old(self).snapshot_list(), k)
                ==> #[trigger] entry(final(self).snapshot_list(), k) == entry(old(self).snapshot_list(), k),
            forall|j: int| 0 <= j < targets@.len() ==> fresh_snapshot(
                entry(final(self).snapshot_list(), snap_name(#[trigger] views(targets@)[j], name@)),
                *old(self),
                views(targets@)[j],
                name@,
                now,
            ),
    {
        let ghost z0 = *self;
        let ghost tv = views(targets@);
        let mut i: usize = 0;
        while i < targets.len()
            invariant
                0 <= i <= targets@.len(),
                tv == views(targets@),
                self.wf(),
                self.pool_list() == z0.pool_list(),
                self.dataset_list() == z0.dataset_list(),
                self.device_list() == z0.device_list(),
                z0 == *old(self),
                forall|j: int| 0 <= j < targets@.len() ==> !has_key(z0.snapshot_list(), snap_name(#[trigger] tv[j], name@)),
                forall|k: Seq<char>| #[trigger] has_key(self.snapshot_list(), k)
                    <==> has_key(z0.snapshot_list(), k) || exists|j: int| 0 <= j < i && k == snap_name(#[trigger] tv[j], name@),
                forall|k: Seq<char>| has_key(z0.snapshot_list(), k)
                    ==> #[trigger] entry(self.snapshot_list(), k) == entry(z0.snapshot_list(), k),
                forall|j: int| 0 <= j < i ==> fresh_snapshot(
                    entry(self.snapshot_list(), snap_name(#[trigger] tv[j], name@)),
                    z0,
                    tv[j],
                    name@,
                    now,
                ),
            decreases targets@.len() - i,
        {
            let full = snap_full(&targets[i], name);
            let t = string_from(targets[i].as_slice());
            proof {
                lemma_index_has(self.datasets@, t@);
            }
            let referenced = match find_key(&self.datasets, t.as_str()) {
                Some(p) => {
                    proof {
                        crate::zfs::keyed::lemma_entry_at(self.datasets@, t@, p as int);
                    }
                    self.datasets[p].referenced
                },
                None => 0,
            };
            let sn = SnapshotInfo {
                name: full,
                used: 0,
                referenced,
                created_at: now,
                clones: Vec::new(),
                mandrake_id: None,
            };
            let ghost prev = self.snapshots@;
            proof {
                lemma_put_sorted(prev, sn);
                lemma_put_entry(prev, sn);
            }
            put_item(&mut self.snapshots, sn);
            assert(fresh_snapshot(sn, z0, tv[i as int], name@, now));
            assert forall|k: Seq<char>| #[trigger] has_key(self.snapshot_list(), k)
                <==> has_key(z0.snapshot_list(), k) || exists|j: int| 0 <= j < i + 1 && k == snap_name(#[trigger] tv[j], name@) by {
                if has_key(self.snapshot_list(), k) && k != sn.name@ {
                    assert(has_key(prev, k));
                }
                if k == sn.name@ {
                    assert(k == snap_name(tv[i as int], name@));
                }
                if exists|j: int| 0 <= j < i + 1 && k == snap_name(#[trigger] tv[j], name@) {
                    let j = choose|j: int| 0 <= j < i + 1 && k == snap_name(#[trigger] tv[j], name@);
                    if j < i {
                        assert(has_key(prev, k));
                    }
                }
                if has_key(z0.snapshot_list(), k) {
                    assert(has_key(prev, k));
                }
            }
            assert forall|k: Seq<char>| has_key(z0.snapshot_list(), k)
                implies #[trigger] entry(self.snapshot_list(), k) == entry(z0.snapshot_list(), k) by {
                assert(has_key(prev, k));
                assert(k != sn.name@);
            }
            assert forall|j: int| 0 <= j < i + 1 implies fresh_snapshot(
                entry(self.snapshot_list(), snap_name(#[trigger] tv[j], name@)),
                z0,
                tv[j],
                name@,
                now,
            ) by {
                lemma_snap_name_injective(tv[j], tv[i as int], name@);
                if snap_name(tv[j], name@) != sn.name@ {
                    assert(has_key(prev, snap_name(tv[j], name@)));
                }
            }
            i = i + 1;
        }
    }

    /// Take a snapshot `name` of a dataset, as `zfs snapshot`; with
    /// `recursive` of every dataset below it too. Nothing is taken when
    /// any of the names is in use.
    #[verifier::rlimit(40)]
    pub fn create_snapshot(&mut self, dataset: &str, name: &str, recursive: bool, now: Timestamp) -> (r: Result<(), ZfsError>)
        requires
            old(self).wf(),
        ensures
            final(self).wf(),
            final(self).pool_list() == old(self).pool_list(),
            final(self).dataset_list() == old(self).dataset_list(),
            final(self).device_list() == old(self).device_list(),
            r is Err <==> snapshot_refusal(*old(self), dataset@, name@, recursive) is Some,
            r matches Err(e) ==> tool_error_is(e, snapshot_refusal(*old(self), dataset@, name@, recursive)->0),
            r is Err ==> *final(self) == *old(self),
            r is Ok ==> forall|k: Seq<char>| #[trigger] has_key(final(self).snapshot_list(), k)
                <==> has_key(old(self).snapshot_list(), k) || exists|j: int|
                    0 <= j < snap_targets(*old(self), dataset@, recursive).len()
                        && k == snap_name(#[trigger] snap_targets(*old(self), dataset@, recursive)[j], name@),
            r is Ok ==> forall|k: Seq<char>| has_key(old(self).snapshot_list(), k)
                ==> #[trigger] entry(final(self).snapshot_list(), k) == entry(old(self).snapshot_list(), k),
            r is Ok ==> forall|j: int| 0 <= j < snap_targets(*old(self), dataset@, recursive).len() ==> fresh_snapshot(
                entry(
                    final(self).snapshot_list(),
                    snap_name(#[trigger] snap_targets(*old(self), dataset@, recursive)[j], name@),
                ),
                *old(self),
                snap_targets(*old(self), dataset@, recursive)[j],
                name@,
                now,
            ),
    {
        proof {
            lemma_index_has(self.datasets@, dataset@);
        }
        if find_key(&self.datasets, dataset).is_none() {
            let m = text3("cannot open '", dataset, "': dataset does not exist");
            return Err(tool_error(chars_of(m.as_str()).as_slice()));
        }
        let mut targets: Vec<Vec<char>> = Vec::new();
        targets.push(chars_of(dataset));
        if recursive {
            let mut kids = names_under(&self.datasets, dataset, false, true, false);
            let ghost before = targets@;
            let ghost kv = kids@;
            targets.append(&mut kids);
            assert(views(targets@) =~= views(before) + views(kv));
        }
        assert(views(targets@) =~= snap_targets(*self, dataset@, recursive));
        if let Some(i) = self.first_taken(&targets, name) {
            let m = text3("cannot create snapshot '", snap_full(&targets[i], name).as_str(), "': dataset already exists");
            return Err(tool_error(chars_of(m.as_str()).as_slice()));
        }
        proof {
            let tv = views(targets@);
            assert forall|j: int| 0 <= j < targets@.len()
                implies !has_key(self.snapshot_list(), snap_name(#[trigger] tv[j], name@)) by {
                crate::text::lemma_first_where_none(tv, taken(*self, name@));
                assert(!taken(*self, name@)(tv[j]));
            }
        }
        self.take_snapshots(&targets, name, now);
        Ok(())
    }

    /// Destroy a snapshot, as `zfs destroy`; refused while clones depend
    /// on it.
    pub fn destroy_snapshot(&mut self, name: &str) -> (r: Result<(), ZfsError>)
        requires
            old(self).wf(),
        ensures
            final(self).wf(),
            final(self).pool_list() == old(self).pool_list(),
            final(self).dataset_list() == old(self).dataset_list(),
            final(self).device_list() == old(self).device_list(),
            !has_key(old(self).snapshot_list(), name@) ==> (r matches Err(e) && tool_error_is(
                e,
                "could not find any snapshots to destroy; check snapshot names."@,
            )),
            has_key(old(self).snapshot_list(), name@) && entry(old(self).snapshot_list(), name@).clones@.len() > 0
                ==> (r matches Err(e) && tool_error_is(
                    e,
                    "cannot destroy '"@ + name@ + "': snapshot has dependent clones"@,
                )),
            r is Err ==> *final(self) == *old(self),
            r is Ok <==> has_key(old(self).snapshot_list(), name@)
                && entry(old(self).snapshot_list(), name@).clones@.len() == 0,
            r is Ok ==> final(self).snapshot_list() == without(old(self).snapshot_list(), name@),
    {
        proof {
            lemma_index_has(self.snapshots@, name@);
            lemma_without_sorted(self.snapshots@, name@);
        }
        match find_key(&self.snapshots, name) {
            None => {
                proof {
                    reveal_strlit("could not find any snapshots to destroy; check snapshot names.");
                }
                let m = chars_of("could not find any snapshots to destroy; check snapshot names.");
                Err(tool_error(m.as_slice()))
            },
            Some(i) => {
                proof {
                    crate::zfs::keyed::lemma_entry_at(self.snapshots@, name@, i as int);
                }
                if self.snapshots[i].clones.len() > 0 {
                    let m = text3("cannot destroy '", name, "': snapshot has dependent clones");
                    return Err(tool_error(chars_of(m.as_str()).as_slice()));
                }
                remove_item(&mut self.snapshots, name);
                Ok(())
            },
        }
    }
}


/// A snapshot of the same dataset as `target`, taken after it.
pub open spec fn newer_pred(target: SnapshotInfo) -> spec_fn(SnapshotInfo) -> bool {
    |sn: SnapshotInfo| under(sn.name@, head_of(target.name@, '@'), false, false, true)
        && later(sn.created_at, target.created_at)
}

/// A snapshot's name.
pub open spec fn snap_key() -> spec_fn(SnapshotInfo) -> Seq<char> {
    |sn: SnapshotInfo| sn.name@
}

/// The snapshots a rollback to `name` discards, in name order: those of
/// its dataset taken after it.
pub open spec fn newer(z: FakeZfs, name: Seq<char>) -> Seq<Seq<char>> {
    z.snapshot_list().filter(newer_pred(entry(z.snapshot_list(), name))).map_values(snap_key())
}

/// Why `zfs rollback` (with `discard`, `-r`) is refused, if it is.
pub open spec fn rollback_refusal(z: FakeZfs, name: Seq<char>, discard: bool) -> Option<Seq<char>> {
    if !has_key(z.snapshot_list(), name) {
        Some("cannot open '"@ + name + "': dataset does not exist"@)
    } else if !discard && newer(z, name).len() > 0 {
        Some(
            "cannot rollback to '"@ + name
                + "': more recent snapshots exist\nuse '-r' to force deletion of the following snapshots:\n"@
                + join(newer(z, name), "\n"@),
        )
    } else {
        None
    }
}

fn newer_names(v: &Vec<SnapshotInfo>, target: &SnapshotInfo) -> (r: Vec<Vec<char>>)
    ensures
        views(r@) == v@.filter(newer_pred(*target)).map_values(snap_key()),
{
    let ghost pred = newer_pred(*target);
    let ds = target.dataset();
    let mut out: Vec<Vec<char>> = Vec::new();
    let mut i: usize = 0;
    while i < v.len()
        invariant
            0 <= i <= v@.len(),
            pred == newer_pred(*target),
            ds@ == head_of(target.name@, '@'),
            views(out@) == v@.take(i as int).filter(pred).map_values(snap_key()),
        decreases v@.len() - i,
    {
        proof {
            reveal(Seq::filter);
            assert(v@.take(i + 1).drop_last() == v@.take(i as int));
            assert(v@.take(i + 1).last() == v@[i as int]);
        }
        let ghost f = v@.take(i as int).filter(pred);
        if crate::zfs::keyed::name_under(v[i].name.as_str(), ds.as_str(), false, false, true)
            && v[i].created_at.is_after(target.created_at) {
            assert(pred(v@[i as int]));
            assert(v@.take(i + 1).filter(pred) == f.push(v@[i as int]));
            assert(f.push(v@[i as int]).map_values(snap_key()) =~= f.map_values(snap_key()).push(v@[i as int].name@));
            let c = chars_of(v[i].name.as_str());
            out.push(c);
            assert(views(out@) =~= f.map_values(snap_key()).push(v@[i as int].name@));
        } else {
            assert(!pred(v@[i as int]));
            assert(v@.take(i + 1).filter(pred) == f);
        }
        i = i + 1;
    }
    assert(v@.take(v@.len() as int) == v@);
    out
}

/// A clone as the fake makes it: a fresh dataset recording its origin and
/// referencing what the snapshot references.
pub open spec fn fake_clone(
    d: DatasetInfo,
    target: Seq<char>,
    kind: DatasetKind,
    now: Timestamp,
    origin: Seq<char>,
    referenced: Bytes,
) -> bool {
    &&& d.origin matches Some(o) && o@ == origin
    &&& d.referenced == referenced
    &&& fake_dataset(DatasetInfo { origin: None, referenced: 98304, ..d }, target, kind, now)
}

/// The kind a clone of `snapshot` gets: that of the snapshot's dataset,
/// else a filesystem.
pub open spec fn clone_kind(z: FakeZfs, snapshot: Seq<char>) -> DatasetKind {
    if has_key(z.dataset_list(), head_of(snapshot, '@')) {
        entry(z.dataset_list(), head_of(snapshot, '@')).kind
    } else {
        DatasetKind::Filesystem
    }
}

/// A snapshot with its list of clones replaced.
pub open spec fn with_clones(sn: SnapshotInfo, clones: Vec<String>) -> SnapshotInfo {
    SnapshotInfo { clones: clones, ..sn }
}

impl FakeZfs {
    /// Record on snapshot `i` that `target` is a clone of it.
    fn note_clone(&mut self, i: usize, target: &str)
        requires
            old(self).wf(),
            i < old(self).snapshot_list().len(),
        ensures
            final(self).wf(),
            final(self).pool_list() == old(self).pool_list(),
            final(self).dataset_list() == old(self).dataset_list(),
            final(self).device_list() == old(self).device_list(),
            exists|c: Vec<String>| {
                &&& c@.len() == old(self).snapshot_list()[i as int].clones@.len() + 1
                &&& c@.drop_last() == old(self).snapshot_list()[i as int].clones@
                &&& c@.last()@ == target@
                &&& final(self).snapshot_list() == put(
                    old(self).snapshot_list(),
                    #[trigger] with_clones(old(self).snapshot_list()[i as int], c),
                )
            },
    {
        let ghost before = self.snapshots@;
        let mut sn = self.snapshots.remove(i);
        let ghost c0 = sn.clones@;
        sn.clones.push(target.to_owned());
        assert(sn == with_clones(before[i as int], sn.clones));
        proof {
            lemma_put_back(before, i as int, sn);
            lemma_put_sorted(before, sn);
        }
        let ghost cc = sn.clones;
        self.snapshots.insert(i, sn);
        assert(cc@.drop_last() == c0);
    }
}

impl FakeZfs {
    /// Roll a dataset back to a snapshot, as `zfs rollback`; refused
    /// while later snapshots of the dataset exist, unless `discard`
    /// (`-r`) destroys them.
    pub fn rollback(&mut self, name: &str, discard: bool) -> (r: Result<(), ZfsError>)
        requires
            old(self).wf(),
        ensures
            final(self).wf(),
            final(self).pool_list() == old(self).pool_list(),
            final(self).dataset_list() == old(self).dataset_list(),
            final(self).device_list() == old(self).device_list(),
            r is Err <==> rollback_refusal(*old(self), name@, discard) is Some,
            r matches Err(e) ==> tool_error_is(e, rollback_refusal(*old(self), name@, discard)->0),
            r is Err ==> *final(self) == *old(self),
            r is Ok ==> forall|k: Seq<char>| #[trigger] has_key(final(self).snapshot_list(), k)
                <==> has_key(old(self).snapshot_list(), k) && !newer(*old(self), name@).contains(k),
            r is Ok ==> forall|k: Seq<char>| has_key(final(self).snapshot_list(), k)
                ==> #[trigger] entry(final(self).snapshot_list(), k) == entry(old(self).snapshot_list(), k),
    {
        proof {
            lemma_index_has(self.snapshots@, name@);
        }
        let i = match find_key(&self.snapshots, name) {
            Some(i) => i,
            None => {
                let m = text3("cannot open '", name, "': dataset does not exist");
                return Err(tool_error(chars_of(m.as_str()).as_slice()));
            },
        };
        proof {
            crate::zfs::keyed::lemma_entry_at(self.snapshots@, name@, i as int);
        }
        let gone = newer_names(&self.snapshots, &self.snapshots[i]);
        if gone.len() > 0 && !discard {
            let head = text3(
                "cannot rollback to '",
                name,
                "': more recent snapshots exist\nuse '-r' to force deletion of the following snapshots:\n",
            );
            let list = joined(&gone, "\n");
            let m = concat(chars_of(head.as_str()).as_slice(), list.as_slice());
            return Err(tool_error(m.as_slice()));
        }
        remove_all(&mut self.snapshots, &gone);
        Ok(())
    }

    /// Clone a snapshot into a new dataset, as `zfs clone`.
    #[verifier::rlimit(40)]
    pub fn clone_snapshot(&mut self, snapshot: &str, target: &str, now: Timestamp) -> (r: Result<(), ZfsError>)
        requires
            old(self).wf(),
        ensures
            final(self).wf(),
            final(self).pool_list() == old(self).pool_list(),
            final(self).device_list() == old(self).device_list(),
            !has_key(old(self).snapshot_list(), snapshot@) ==> (r matches Err(e) && tool_error_is(
                e,
                "cannot open '"@ + snapshot@ + "': dataset does not exist"@,
            )),
            has_key(old(self).snapshot_list(), snapshot@) && has_key(old(self).dataset_list(), target@)
                ==> (r matches Err(e) && tool_error_is(e, "cannot create '"@ + target@ + "': dataset already exists"@)),
            r is Err ==> *final(self) == *old(self),
            r is Ok <==> has_key(old(self).snapshot_list(), snapshot@) && !has_key(old(self).dataset_list(), target@),
            r is Ok ==> exists|d: DatasetInfo| fake_clone(
                d,
                target@,
                clone_kind(*old(self), snapshot@),
                now,
                snapshot@,
                entry(old(self).snapshot_list(), snapshot@).referenced,
            ) && final(self).dataset_list() == put(old(self).dataset_list(), d),
            r is Ok ==> exists|c: Vec<String>| {
                &&& c@.len() == entry(old(self).snapshot_list(), snapshot@).clones@.len() + 1
                &&& c@.drop_last() == entry(old(self).snapshot_list(), snapshot@).clones@
                &&& c@.last()@ == target@
                &&& final(self).snapshot_list() == put(
                    old(self).snapshot_list(),
                    #[trigger] with_clones(entry(old(self).snapshot_list(), snapshot@), c),
                )
            },
    {
        proof {
            lemma_index_has(self.snapshots@, snapshot@);
            lemma_index_has(self.datasets@, target@);
        }
        let i = match find_key(&self.snapshots, snapshot) {
            Some(i) => i,
            None => {
                let m = text3("cannot open '", snapshot, "': dataset does not exist");
                return Err(tool_error(chars_of(m.as_str()).as_slice()));
            },
        };
        if find_key(&self.datasets, target).is_some() {
            let m = text3("cannot create '", target, "': dataset already exists");
            return Err(tool_error(chars_of(m.as_str()).as_slice()));
        }
        proof {
            crate::zfs::keyed::lemma_entry_at(self.snapshots@, snapshot@, i as int);
        }
        let ds = self.snapshots[i].dataset();
        proof {
            lemma_index_has(self.datasets@, ds@);
        }
        let kind = match find_key(&self.datasets, ds.as_str()) {
            Some(p) => {
                proof {
                    crate::zfs::keyed::lemma_entry_at(self.datasets@, ds@, p as int);
                }
                self.datasets[p].kind
            },
            None => DatasetKind::Filesystem,
        };
        let mut d = new_dataset(target, kind, now);
        d.origin = Some(snapshot.to_owned());
        d.referenced = self.snapshots[i].referenced;
        let ghost dd = d;
        assert(fake_clone(dd, target@, clone_kind(*old(self), snapshot@), now, snapshot@, entry(old(self).snapshot_list(), snapshot@).referenced));
        proof {
            lemma_put_sorted(self.datasets@, d);
        }
        put_item(&mut self.datasets, d);
        self.note_clone(i, target);
        Ok(())
    }
}


/// The same instant.
pub open spec fn same_instant(a: Timestamp, b: Timestamp) -> bool {
    a.unix() == b.unix() && a.subsec() == b.subsec()
}

/// Whether `zfs list -s creation` lists snapshot `a` before `b`: taken
/// earlier, or at the same instant with a name that sorts first.
pub open spec fn lists_before(a: SnapshotInfo, b: SnapshotInfo) -> bool {
    later(b.created_at, a.created_at) || (same_instant(a.created_at, b.created_at) && lex_lt(a.name@, b.name@))
}

/// Listed in order.
pub open spec fn in_listing_order(s: Seq<SnapshotInfo>) -> bool {
    forall|a: int, b: int| 0 <= a < b < s.len() ==> lists_before(#[trigger] s[a], #[trigger] s[b])
}

/// The snapshots `zfs list` shows: all of them, or those of one dataset
/// (with `recursive`, of it and the datasets below it).
pub open spec fn shown(dataset: Option<Seq<char>>, recursive: bool) -> spec_fn(SnapshotInfo) -> bool {
    |sn: SnapshotInfo| match dataset {
        None => true,
        Some(ds) => {
            let d = head_of(sn.name@, '@');
            d == ds || (recursive && starts_with(d, ds.push('/')))
        },
    }
}

/// An optional text's view.
pub open spec fn opt_text(o: Option<&str>) -> Option<Seq<char>> {
    match o {
        Some(d) => Some(d@),
        None => None,
    }
}

/// What a listing shows of a snapshot.
pub open spec fn snap_view(s: SnapshotInfo) -> (Seq<char>, Bytes, Bytes, Timestamp, Seq<Seq<char>>, Option<Seq<char>>) {
    (
        s.name@,
        s.used,
        s.referenced,
        s.created_at,
        s.clones@.map_values(|c: String| c@),
        opt_view(s.mandrake_id),
    )
}

proof fn lemma_before_total(a: SnapshotInfo, b: SnapshotInfo)
    requires
        a.name@ != b.name@,
    ensures
        lists_before(a, b) || lists_before(b, a),
{
    crate::text::lemma_lex_total(a.name@, b.name@);
}

proof fn lemma_before_trans(a: SnapshotInfo, b: SnapshotInfo, c: SnapshotInfo)
    requires
        lists_before(a, b),
        lists_before(b, c),
    ensures
        lists_before(a, c),
{
    if lex_lt(a.name@, b.name@) && lex_lt(b.name@, c.name@) {
        crate::text::lemma_lex_transitive(a.name@, b.name@, c.name@);
    }
}

proof fn lemma_insert_in_order(s: Seq<SnapshotInfo>, p: int, x: SnapshotInfo)
    requires
        in_listing_order(s),
        0 <= p <= s.len(),
        forall|j: int| 0 <= j < p ==> lists_before(#[trigger] s[j], x),
        forall|j: int| p <= j < s.len() ==> lists_before(x, #[trigger] s[j]),
    ensures
        in_listing_order(s.insert(p, x)),
{
    let n = s.insert(p, x);
    assert forall|a: int, b: int| 0 <= a < b < n.len() implies lists_before(#[trigger] n[a], #[trigger] n[b]) by {
        if a < p && b < p {
            assert(n[a] == s[a] && n[b] == s[b]);
        } else if a < p && b == p {
            assert(n[a] == s[a]);
        } else if a < p {
            assert(n[a] == s[a] && n[b] == s[b - 1]);
        } else if a == p {
            assert(n[b] == s[b - 1]);
        } else {
            assert(n[a] == s[a - 1] && n[b] == s[b - 1]);
        }
    }
}

proof fn lemma_distinct_keys<T: Keyed>(v: Seq<T>, k: int, i: int)
    requires
        strictly_sorted(keys(v)),
        0 <= k < i < v.len(),
    ensures
        v[k].key() != v[i].key(),
{
    reveal(strictly_sorted);
    assert(lex_lt(keys(v)[k], keys(v)[i]));
    crate::text::lemma_lex_irreflexive(v[k].key());
}

fn before_in_listing(a: &SnapshotInfo, b: &SnapshotInfo) -> (r: bool)
    ensures
        r == lists_before(*a, *b),
{
    b.created_at.is_after(a.created_at) || (!a.created_at.is_after(b.created_at) && lex_less(
        chars_of(a.name.as_str()).as_slice(),
        chars_of(b.name.as_str()).as_slice(),
    ))
}

fn is_shown(sn: &SnapshotInfo, dataset: Option<&str>, recursive: bool) -> (r: bool)
    ensures
        r == shown(opt_text(dataset), recursive)(*sn),
{
    match dataset {
        None => true,
        Some(ds) => {
            let d = sn.dataset();
            str_eq(d.as_str(), ds) || (recursive && crate::zfs::keyed::name_under(d.as_str(), ds, false, true, false))
        },
    }
}

fn copy_snapshot(s: &SnapshotInfo) -> (r: SnapshotInfo)
    ensures
        snap_view(r) == snap_view(*s),
{
    SnapshotInfo {
        name: s.name.clone(),
        used: s.used,
        referenced: s.referenced,
        created_at: s.created_at,
        clones: copy_names(&s.clones),
        mandrake_id: match &s.mandrake_id {
            Some(m) => Some(m.clone()),
            None => None,
        },
    }
}

/// Where a snapshot goes in a listing: before the first it lists before.
fn listing_slot(out: &Vec<SnapshotInfo>, x: &SnapshotInfo) -> (p: usize)
    ensures
        p <= out@.len(),
        forall|j: int| 0 <= j < p ==> !lists_before(*x, #[trigger] out@[j]),
        p < out@.len() ==> lists_before(*x, out@[p as int]),
{
    let mut p: usize = 0;
    while p < out.len() && !before_in_listing(x, &out[p])
        invariant
            0 <= p <= out@.len(),
            forall|j: int| 0 <= j < p ==> !lists_before(*x, #[trigger] out@[j]),
        decreases out@.len() - p,
    {
        p = p + 1;
    }
    p
}

impl FakeZfs {
    /// The snapshots `zfs list -t snapshot -s creation` shows: all of
    /// them, or a dataset's (with `recursive`, and those of the datasets
    /// below it), oldest first and by name within an instant.
    pub fn list_snapshots(&self, dataset: Option<&str>, recursive: bool) -> (r: Vec<SnapshotInfo>)
        requires
            self.wf(),
        ensures
            r@.len() == self.snapshot_list().filter(shown(opt_text(dataset), recursive)).len(),
            in_listing_order(r@),
            forall|j: int| 0 <= j < r@.len() ==> {
                &&& has_key(self.snapshot_list(), #[trigger] r@[j].name@)
                &&& shown(opt_text(dataset), recursive)(entry(self.snapshot_list(), r@[j].name@))
                &&& snap_view(r@[j]) == snap_view(entry(self.snapshot_list(), r@[j].name@))
            },
            forall|k: int| 0 <= k < self.snapshot_list().len()
                && shown(opt_text(dataset), recursive)(#[trigger] self.snapshot_list()[k])
                ==> exists|j: int| 0 <= j < r@.len() && r@[j].name@ == self.snapshot_list()[k].name@,
    {
        let ghost pred = shown(opt_text(dataset), recursive);
        let ghost v = self.snapshots@;
        let mut out: Vec<SnapshotInfo> = Vec::new();
        let ghost mut src: Seq<int> = Seq::empty();
        let mut i: usize = 0;
        while i < self.snapshots.len()
            invariant
                0 <= i <= v.len(),
                v == self.snapshots@,
                v == self.snapshot_list(),
                strictly_sorted(keys(v)),
                pred == shown(opt_text(dataset), recursive),
                out@.len() == v.take(i as int).filter(pred).len(),
                in_listing_order(out@),
                src.len() == out@.len(),
                forall|j: int| 0 <= j < out@.len() ==> 0 <= #[trigger] src[j] < i && pred(v[src[j]])
                    && snap_view(out@[j]) == snap_view(v[src[j]]),
                forall|k: int| 0 <= k < i && pred(#[trigger] v[k])
                    ==> exists|j: int| 0 <= j < out@.len() && out@[j].name@ == v[k].name@,
            decreases v.len() - i,
        {
            proof {
                reveal(Seq::filter);
                assert(v.take(i + 1).drop_last() == v.take(i as int));
                assert(v.take(i + 1).last() == v[i as int]);
            }
            if is_shown(&self.snapshots[i], dataset, recursive) {
                let x = copy_snapshot(&self.snapshots[i]);
                let p = listing_slot(&out, &x);
                let ghost before = out@;
                let ghost src0 = src;
                proof {
                    assert forall|j: int| 0 <= j < p implies lists_before(#[trigger] before[j], x) by {
                        let k = src0[j];
                        lemma_distinct_keys(v, k, i as int);
                        lemma_before_total(before[j], x);
                    }
                    assert forall|j: int| p <= j < before.len() implies lists_before(x, #[trigger] before[j]) by {
                        if j > p {
                            assert(lists_before(before[p as int], before[j]));
                            lemma_before_trans(x, before[p as int], before[j]);
                        }
                    }
                    lemma_insert_in_order(before, p as int, x);
                    src = src0.insert(p as int, i as int);
                }
                out.insert(p, x);
                assert forall|j: int| 0 <= j < out@.len() implies 0 <= #[trigger] src[j] < i + 1 && pred(v[src[j]])
                    && snap_view(out@[j]) == snap_view(v[src[j]]) by {
                    if j < p {
                        assert(out@[j] == before[j] && src[j] == src0[j]);
                    } else if j == p {
                        assert(src[j] == i);
                    } else {
                        assert(out@[j] == before[j - 1] && src[j] == src0[j - 1]);
                    }
                }
                assert forall|k: int| 0 <= k < i + 1 && pred(#[trigger] v[k])
                    implies exists|j: int| 0 <= j < out@.len() && out@[j].name@ == v[k].name@ by {
                    if k == i {
                        assert(out@[p as int].name@ == v[k].name@);
                    } else {
                        let j = choose|j: int| 0 <= j < before.len() && before[j].name@ == v[k].name@;
                        if j < p {
                            assert(out@[j] == before[j]);
                        } else {
                            assert(out@[j + 1] == before[j]);
                        }
                    }
                }
            }
            i = i + 1;
        }
        assert(v.take(i as int) == v);
        assert forall|j: int| 0 <= j < out@.len() implies {
            &&& has_key(self.snapshot_list(), #[trigger] out@[j].name@)
            &&& shown(opt_text(dataset), recursive)(entry(self.snapshot_list(), out@[j].name@))
            &&& snap_view(out@[j]) == snap_view(entry(self.snapshot_list(), out@[j].name@))
        } by {
            let k = src[j];
            lemma_unique_index(v, k);
            assert(keys(v)[k] == out@[j].name@);
        }
        assert forall|k: int| 0 <= k < self.snapshot_list().len() && pred(#[trigger] self.snapshot_list()[k])
            implies exists|j: int| 0 <= j < out@.len() && out@[j].name@ == self.snapshot_list()[k].name@ by {
            assert(v[k] == self.snapshot_list()[k]);
        }
        out
    }
}

} // verus!
