//! Which column of `zfs list`, `zfs list -t snapshot` and `zpool list`
//! each field of a parsed row comes from, by the column's name.
use vstd::prelude::*;
use crate::net::parse::opt_view;
use crate::common::storage::{DatasetKind, health_of};
use crate::text::{join, split_char};
use crate::zfs::laws::{lemma_join_take, lemma_zfs_list_columns, zfs_list_columns};
use crate::zfs::parse::{
    PoolListRow, ZFS_LIST_COLUMNS, ZFS_SNAPSHOT_COLUMNS, ZPOOL_LIST_COLUMNS, dataset_row_ok, onum, or_zero, pool_row_ok,
    positive, snapshot_row_ok, string_seq, yes_no, znum, zopt, zpct, zratio,
};
use crate::zfs::types::{DatasetInfo, SnapshotInfo};

verus! {

/// The columns `zpool list` is asked for, in order.
pub open spec fn zpool_list_columns() -> Seq<Seq<char>> {
    seq!["name"@, "size"@, "allocated"@, "free"@, "fragmentation"@, "capacity"@, "dedupratio"@, "health"@]
}

#[verifier::rlimit(100)]
proof fn lemma_zpool_list_columns_text()
    ensures
        ZPOOL_LIST_COLUMNS@ == "name"@ + ","@ + "size"@ + ","@ + "allocated"@ + ","@ + "free"@ + ","@ + "fragmentation"@ + ","@ + "capacity"@ + ","@ + "dedupratio"@ + ","@ + "health"@,
{
    reveal_strlit(",");
    reveal_strlit("name");
    reveal_strlit("size");
    reveal_strlit("allocated");
    reveal_strlit("free");
    reveal_strlit("fragmentation");
    reveal_strlit("capacity");
    reveal_strlit("dedupratio");
    reveal_strlit("health");
    reveal_strlit("name,size,allocated,free,fragmentation,capacity,dedupratio,health");
    assert(ZPOOL_LIST_COLUMNS@ =~= "name"@ + ","@ + "size"@ + ","@ + "allocated"@ + ","@ + "free"@ + ","@ + "fragmentation"@ + ","@ + "capacity"@ + ","@ + "dedupratio"@ + ","@ + "health"@);
}

/// The column list sent to `zpool list` is those columns, comma-joined.
pub proof fn lemma_zpool_list_columns()
    ensures
        join(zpool_list_columns(), ","@) == ZPOOL_LIST_COLUMNS@,
{
    let c = zpool_list_columns();
    let s = ","@;
    assert(c.take(1) =~= seq![c[0]]);
    lemma_join_take(c, s, 1);
    lemma_join_take(c, s, 2);
    lemma_join_take(c, s, 3);
    lemma_join_take(c, s, 4);
    lemma_join_take(c, s, 5);
    lemma_join_take(c, s, 6);
    lemma_join_take(c, s, 7);
    assert(c.take(8) =~= c);
    lemma_zpool_list_columns_text();
}

/// Each field of a row read from `zpool list` comes from the column of that
/// name.
#[verifier::rlimit(100)]
pub proof fn lemma_zpool_list_fields(r: PoolListRow, f: Seq<Seq<char>>, i: int)
    requires
        pool_row_ok(r, f),
        0 <= i < zpool_list_columns().len(),
    ensures
        join(zpool_list_columns(), ","@) == ZPOOL_LIST_COLUMNS@,
        zpool_list_columns()[i] == "name"@ ==> (r.name@ == f[i]),
        zpool_list_columns()[i] == "size"@ ==> (r.size == or_zero(znum(f[i]))),
        zpool_list_columns()[i] == "allocated"@ ==> (r.allocated == or_zero(znum(f[i]))),
        zpool_list_columns()[i] == "free"@ ==> (r.free == or_zero(znum(f[i]))),
        zpool_list_columns()[i] == "fragmentation"@ ==> (r.fragmentation == zpct(f[i])),
        zpool_list_columns()[i] == "capacity"@ ==> (r.capacity == zpct(f[i])),
        zpool_list_columns()[i] == "dedupratio"@ ==> (opt_view(r.dedup_ratio) == zratio(f[i])),
        zpool_list_columns()[i] == "health"@ ==> (health_of(f[i]) == Some(r.health)),
{
    lemma_zpool_list_columns();
    let c = zpool_list_columns();
    reveal_strlit("name");
    reveal_strlit("size");
    reveal_strlit("allocated");
    reveal_strlit("free");
    reveal_strlit("fragmentation");
    reveal_strlit("capacity");
    reveal_strlit("dedupratio");
    reveal_strlit("health");
    if i == 0 {
        assert(c[0] == "name"@);
        assert("name"@ != "size"@) by { assert("name"@[0] != "size"@[0]); }
        assert("name"@ != "allocated"@) by { assert("name"@.len() != "allocated"@.len()); }
        assert("name"@ != "free"@) by { assert("name"@[0] != "free"@[0]); }
        assert("name"@ != "fragmentation"@) by { assert("name"@.len() != "fragmentation"@.len()); }
        assert("name"@ != "capacity"@) by { assert("name"@.len() != "capacity"@.len()); }
        assert("name"@ != "dedupratio"@) by { assert("name"@.len() != "dedupratio"@.len()); }
        assert("name"@ != "health"@) by { assert("name"@.len() != "health"@.len()); }
    }
    if i == 1 {
        assert(c[1] == "size"@);
        assert("size"@ != "name"@) by { assert("size"@[0] != "name"@[0]); }
        assert("size"@ != "allocated"@) by { assert("size"@.len() != "allocated"@.len()); }
        assert("size"@ != "free"@) by { assert("size"@[0] != "free"@[0]); }
        assert("size"@ != "fragmentation"@) by { assert("size"@.len() != "fragmentation"@.len()); }
        assert("size"@ != "capacity"@) by { assert("size"@.len() != "capacity"@.len()); }
        assert("size"@ != "dedupratio"@) by { assert("size"@.len() != "dedupratio"@.len()); }
        assert("size"@ != "health"@) by { assert("size"@.len() != "health"@.len()); }
    }
    if i == 2 {
        assert(c[2] == "allocated"@);
        assert("allocated"@ != "name"@) by { assert("allocated"@.len() != "name"@.len()); }
        assert("allocated"@ != "size"@) by { assert("allocated"@.len() != "size"@.len()); }
        assert("allocated"@ != "free"@) by { assert("allocated"@.len() != "free"@.len()); }
        assert("allocated"@ != "fragmentation"@) by { assert("allocated"@.len() != "fragmentation"@.len()); }
        assert("allocated"@ != "capacity"@) by { assert("allocated"@.len() != "capacity"@.len()); }
        assert("allocated"@ != "dedupratio"@) by { assert("allocated"@.len() != "dedupratio"@.len()); }
        assert("allocated"@ != "health"@) by { assert("allocated"@.len() != "health"@.len()); }
    }
    if i == 3 {
        assert(c[3] == "free"@);
        assert("free"@ != "name"@) by { assert("free"@[0] != "name"@[0]); }
        assert("free"@ != "size"@) by { assert("free"@[0] != "size"@[0]); }
        assert("free"@ != "allocated"@) by { assert("free"@.len() != "allocated"@.len()); }
        assert("free"@ != "fragmentation"@) by { assert("free"@.len() != "fragmentation"@.len()); }
        assert("free"@ != "capacity"@) by { assert("free"@.len() != "capacity"@.len()); }
        assert("free"@ != "dedupratio"@) by { assert("free"@.len() != "dedupratio"@.len()); }
        assert("free"@ != "health"@) by { assert("free"@.len() != "health"@.len()); }
    }
    if i == 4 {
        assert(c[4] == "fragmentation"@);
        assert("fragmentation"@ != "name"@) by { assert("fragmentation"@.len() != "name"@.len()); }
        assert("fragmentation"@ != "size"@) by { assert("fragmentation"@.len() != "size"@.len()); }
        assert("fragmentation"@ != "allocated"@) by { assert("fragmentation"@.len() != "allocated"@.len()); }
        assert("fragmentation"@ != "free"@) by { assert("fragmentation"@.len() != "free"@.len()); }
        assert("fragmentation"@ != "capacity"@) by { assert("fragmentation"@.len() != "capacity"@.len()); }
        assert("fragmentation"@ != "dedupratio"@) by { assert("fragmentation"@.len() != "dedupratio"@.len()); }
        assert("fragmentation"@ != "health"@) by { assert("fragmentation"@.len() != "health"@.len()); }
    }
    if i == 5 {
        assert(c[5] == "capacity"@);
        assert("capacity"@ != "name"@) by { assert("capacity"@.len() != "name"@.len()); }
        assert("capacity"@ != "size"@) by { assert("capacity"@.len() != "size"@.len()); }
        assert("capacity"@ != "allocated"@) by { assert("capacity"@.len() != "allocated"@.len()); }
        assert("capacity"@ != "free"@) by { assert("capacity"@.len() != "free"@.len()); }
        assert("capacity"@ != "fragmentation"@) by { assert("capacity"@.len() != "fragmentation"@.len()); }
        assert("capacity"@ != "dedupratio"@) by { assert("capacity"@.len() != "dedupratio"@.len()); }
        assert("capacity"@ != "health"@) by { assert("capacity"@.len() != "health"@.len()); }
    }
    if i == 6 {
        assert(c[6] == "dedupratio"@);
        assert("dedupratio"@ != "name"@) by { assert("dedupratio"@.len() != "name"@.len()); }
        assert("dedupratio"@ != "size"@) by { assert("dedupratio"@.len() != "size"@.len()); }
        assert("dedupratio"@ != "allocated"@) by { assert("dedupratio"@.len() != "allocated"@.len()); }
        assert("dedupratio"@ != "free"@) by { assert("dedupratio"@.len() != "free"@.len()); }
        assert("dedupratio"@ != "fragmentation"@) by { assert("dedupratio"@.len() != "fragmentation"@.len()); }
        assert("dedupratio"@ != "capacity"@) by { assert("dedupratio"@.len() != "capacity"@.len()); }
        assert("dedupratio"@ != "health"@) by { assert("dedupratio"@.len() != "health"@.len()); }
    }
    if i == 7 {
        assert(c[7] == "health"@);
        assert("health"@ != "name"@) by { assert("health"@.len() != "name"@.len()); }
        assert("health"@ != "size"@) by { assert("health"@.len() != "size"@.len()); }
        assert("health"@ != "allocated"@) by { assert("health"@.len() != "allocated"@.len()); }
        assert("health"@ != "free"@) by { assert("health"@.len() != "free"@.len()); }
        assert("health"@ != "fragmentation"@) by { assert("health"@.len() != "fragmentation"@.len()); }
        assert("health"@ != "capacity"@) by { assert("health"@.len() != "capacity"@.len()); }
        assert("health"@ != "dedupratio"@) by { assert("health"@.len() != "dedupratio"@.len()); }
    }
}

/// The columns `zfs list -t snapshot` is asked for, in order.
pub open spec fn zfs_snapshot_columns() -> Seq<Seq<char>> {
    seq!["name"@, "used"@, "referenced"@, "creation"@, "clones"@, "nightshade.systems:mandrake-id"@]
}

#[verifier::rlimit(100)]
proof fn lemma_zfs_snapshot_columns_text()
    ensures
        ZFS_SNAPSHOT_COLUMNS@ == "name"@ + ","@ + "used"@ + ","@ + "referenced"@ + ","@ + "creation"@ + ","@ + "clones"@ + ","@ + "nightshade.systems:mandrake-id"@,
{
    reveal_strlit(",");
    reveal_strlit("name");
    reveal_strlit("used");
    reveal_strlit("referenced");
    reveal_strlit("creation");
    reveal_strlit("clones");
    reveal_strlit("nightshade.systems:mandrake-id");
    reveal_strlit("name,used,referenced,creation,clones,nightshade.systems:mandrake-id");
    assert(ZFS_SNAPSHOT_COLUMNS@ =~= "name"@ + ","@ + "used"@ + ","@ + "referenced"@ + ","@ + "creation"@ + ","@ + "clones"@ + ","@ + "nightshade.systems:mandrake-id"@);
}

/// The column list sent to `zfs list -t snapshot` is those columns, comma-joined.
pub proof fn lemma_zfs_snapshot_columns()
    ensures
        join(zfs_snapshot_columns(), ","@) == ZFS_SNAPSHOT_COLUMNS@,
{
    let c = zfs_snapshot_columns();
    let s = ","@;
    assert(c.take(1) =~= seq![c[0]]);
    lemma_join_take(c, s, 1);
    lemma_join_take(c, s, 2);
    lemma_join_take(c, s, 3);
    lemma_join_take(c, s, 4);
    lemma_join_take(c, s, 5);
    assert(c.take(6) =~= c);
    lemma_zfs_snapshot_columns_text();
}

/// Each field of a row read from `zfs list -t snapshot` comes from the column of that
/// name.
#[verifier::rlimit(100)]
pub proof fn lemma_zfs_snapshot_fields(s: SnapshotInfo, f: Seq<Seq<char>>, i: int)
    requires
        snapshot_row_ok(s, f),
        0 <= i < zfs_snapshot_columns().len(),
    ensures
        join(zfs_snapshot_columns(), ","@) == ZFS_SNAPSHOT_COLUMNS@,
        zfs_snapshot_columns()[i] == "name"@ ==> (s.name@ == f[i]),
        zfs_snapshot_columns()[i] == "used"@ ==> (s.used == or_zero(znum(f[i]))),
        zfs_snapshot_columns()[i] == "referenced"@ ==> (s.referenced == or_zero(znum(f[i]))),
        zfs_snapshot_columns()[i] == "creation"@ ==> (Some(s.created_at.unix()) == znum(f[i]) && s.created_at.subsec() == 0),
        zfs_snapshot_columns()[i] == "clones"@ ==> (string_seq(s.clones@) == (match zopt(f[i]) { Some(c) => split_char(c, ','), None => Seq::<Seq<char>>::empty() })),
        zfs_snapshot_columns()[i] == "nightshade.systems:mandrake-id"@ ==> (opt_view(s.mandrake_id) == zopt(f[i])),
{
    lemma_zfs_snapshot_columns();
    let c = zfs_snapshot_columns();
    reveal_strlit("name");
    reveal_strlit("used");
    reveal_strlit("referenced");
    reveal_strlit("creation");
    reveal_strlit("clones");
    reveal_strlit("nightshade.systems:mandrake-id");
    if i == 0 {
        assert(c[0] == "name"@);
        assert("name"@ != "used"@) by { assert("name"@[0] != "used"@[0]); }
        assert("name"@ != "referenced"@) by { assert("name"@.len() != "referenced"@.len()); }
        assert("name"@ != "creation"@) by { assert("name"@.len() != "creation"@.len()); }
        assert("name"@ != "clones"@) by { assert("name"@.len() != "clones"@.len()); }
        assert("name"@ != "nightshade.systems:mandrake-id"@) by { assert("name"@.len() != "nightshade.systems:mandrake-id"@.len()); }
    }
    if i == 1 {
        assert(c[1] == "used"@);
        assert("used"@ != "name"@) by { assert("used"@[0] != "name"@[0]); }
        assert("used"@ != "referenced"@) by { assert("used"@.len() != "referenced"@.len()); }
        assert("used"@ != "creation"@) by { assert("used"@.len() != "creation"@.len()); }
        assert("used"@ != "clones"@) by { assert("used"@.len() != "clones"@.len()); }
        assert("used"@ != "nightshade.systems:mandrake-id"@) by { assert("used"@.len() != "nightshade.systems:mandrake-id"@.len()); }
    }
    if i == 2 {
        assert(c[2] == "referenced"@);
        assert("referenced"@ != "name"@) by { assert("referenced"@.len() != "name"@.len()); }
        assert("referenced"@ != "used"@) by { assert("referenced"@.len() != "used"@.len()); }
        assert("referenced"@ != "creation"@) by { assert("referenced"@.len() != "creation"@.len()); }
        assert("referenced"@ != "clones"@) by { assert("referenced"@.len() != "clones"@.len()); }
        assert("referenced"@ != "nightshade.systems:mandrake-id"@) by { assert("referenced"@.len() != "nightshade.systems:mandrake-id"@.len()); }
    }
    if i == 3 {
        assert(c[3] == "creation"@);
        assert("creation"@ != "name"@) by { assert("creation"@.len() != "name"@.len()); }
        assert("creation"@ != "used"@) by { assert("creation"@.len() != "used"@.len()); }
        assert("creation"@ != "referenced"@) by { assert("creation"@.len() != "referenced"@.len()); }
        assert("creation"@ != "clones"@) by { assert("creation"@.len() != "clones"@.len()); }
        assert("creation"@ != "nightshade.systems:mandrake-id"@) by { assert("creation"@.len() != "nightshade.systems:mandrake-id"@.len()); }
    }
    if i == 4 {
        assert(c[4] == "clones"@);
        assert("clones"@ != "name"@) by { assert("clones"@.len() != "name"@.len()); }
        assert("clones"@ != "used"@) by { assert("clones"@.len() != "used"@.len()); }
        assert("clones"@ != "referenced"@) by { assert("clones"@.len() != "referenced"@.len()); }
        assert("clones"@ != "creation"@) by { assert("clones"@.len() != "creation"@.len()); }
        assert("clones"@ != "nightshade.systems:mandrake-id"@) by { assert("clones"@.len() != "nightshade.systems:mandrake-id"@.len()); }
    }
    if i == 5 {
        assert(c[5] == "nightshade.systems:mandrake-id"@);
        assert("nightshade.systems:mandrake-id"@ != "name"@) by { assert("nightshade.systems:mandrake-id"@.len() != "name"@.len()); }
        assert("nightshade.systems:mandrake-id"@ != "used"@) by { assert("nightshade.systems:mandrake-id"@.len() != "used"@.len()); }
        assert("nightshade.systems:mandrake-id"@ != "referenced"@) by { assert("nightshade.systems:mandrake-id"@.len() != "referenced"@.len()); }
        assert("nightshade.systems:mandrake-id"@ != "creation"@) by { assert("nightshade.systems:mandrake-id"@.len() != "creation"@.len()); }
        assert("nightshade.systems:mandrake-id"@ != "clones"@) by { assert("nightshade.systems:mandrake-id"@.len() != "clones"@.len()); }
    }
}

/// Each field of a row read from `zfs list` comes from the column of that
/// name.
#[verifier::rlimit(100)]
pub proof fn lemma_dataset_fields(d: DatasetInfo, f: Seq<Seq<char>>, i: int)
    requires
        dataset_row_ok(d, f),
        0 <= i < zfs_list_columns().len(),
    ensures
        join(zfs_list_columns(), ","@) == ZFS_LIST_COLUMNS@,
        zfs_list_columns()[i] == "name"@ ==> (d.name@ == f[i]),
        zfs_list_columns()[i] == "type"@ ==> (d.kind == (if f[i] == "filesystem"@ { DatasetKind::Filesystem } else { DatasetKind::Volume })),
        zfs_list_columns()[i] == "mountpoint"@ ==> (opt_view(d.mountpoint) == (match zopt(f[i]) { Some(m) => if m == "legacy"@ { None } else { Some(m) }, None => None })),
        zfs_list_columns()[i] == "mounted"@ ==> (d.mounted == (yes_no(f[i]) == Some(true))),
        zfs_list_columns()[i] == "used"@ ==> (d.used == or_zero(znum(f[i]))),
        zfs_list_columns()[i] == "available"@ ==> (d.available == or_zero(znum(f[i]))),
        zfs_list_columns()[i] == "referenced"@ ==> (d.referenced == or_zero(znum(f[i]))),
        zfs_list_columns()[i] == "logicalused"@ ==> (onum(d.logical_used) == znum(f[i])),
        zfs_list_columns()[i] == "quota"@ ==> (onum(d.quota) == positive(znum(f[i]))),
        zfs_list_columns()[i] == "reservation"@ ==> (onum(d.reservation) == positive(znum(f[i]))),
        zfs_list_columns()[i] == "compression"@ ==> (opt_view(d.compression) == zopt(f[i])),
        zfs_list_columns()[i] == "compressratio"@ ==> (opt_view(d.compress_ratio) == zratio(f[i])),
        zfs_list_columns()[i] == "atime"@ ==> (d.atime == yes_no(f[i])),
        zfs_list_columns()[i] == "recordsize"@ ==> (onum(d.recordsize) == znum(f[i])),
        zfs_list_columns()[i] == "volsize"@ ==> (onum(d.volsize) == znum(f[i])),
        zfs_list_columns()[i] == "volblocksize"@ ==> (onum(d.volblocksize) == znum(f[i])),
        zfs_list_columns()[i] == "origin"@ ==> (opt_view(d.origin) == zopt(f[i])),
        zfs_list_columns()[i] == "creation"@ ==> (Some(d.created_at.unix()) == znum(f[i]) && d.created_at.subsec() == 0),
        zfs_list_columns()[i] == "nightshade.systems:mandrake-id"@ ==> (opt_view(d.mandrake_id) == zopt(f[i])),
{
    lemma_zfs_list_columns();
    let c = zfs_list_columns();
    reveal_strlit("name");
    reveal_strlit("type");
    reveal_strlit("mountpoint");
    reveal_strlit("mounted");
    reveal_strlit("used");
    reveal_strlit("available");
    reveal_strlit("referenced");
    reveal_strlit("logicalused");
    reveal_strlit("quota");
    reveal_strlit("reservation");
    reveal_strlit("compression");
    reveal_strlit("compressratio");
    reveal_strlit("atime");
    reveal_strlit("recordsize");
    reveal_strlit("volsize");
    reveal_strlit("volblocksize");
    reveal_strlit("origin");
    reveal_strlit("creation");
    reveal_strlit("nightshade.systems:mandrake-id");
    if i == 0 {
        assert(c[0] == "name"@);
        assert("name"@ != "type"@) by { assert("name"@[0] != "type"@[0]); }
        assert("name"@ != "mountpoint"@) by { assert("name"@.len() != "mountpoint"@.len()); }
        assert("name"@ != "mounted"@) by { assert("name"@.len() != "mounted"@.len()); }
        assert("name"@ != "used"@) by { assert("name"@[0] != "used"@[0]); }
        assert("name"@ != "available"@) by { assert("name"@.len() != "available"@.len()); }
        assert("name"@ != "referenced"@) by { assert("name"@.len() != "referenced"@.len()); }
        assert("name"@ != "logicalused"@) by { assert("name"@.len() != "logicalused"@.len()); }
        assert("name"@ != "quota"@) by { assert("name"@.len() != "quota"@.len()); }
        assert("name"@ != "reservation"@) by { assert("name"@.len() != "reservation"@.len()); }
        assert("name"@ != "compression"@) by { assert("name"@.len() != "compression"@.len()); }
        assert("name"@ != "compressratio"@) by { assert("name"@.len() != "compressratio"@.len()); }
        assert("name"@ != "atime"@) by { assert("name"@.len() != "atime"@.len()); }
        assert("name"@ != "recordsize"@) by { assert("name"@.len() != "recordsize"@.len()); }
        assert("name"@ != "volsize"@) by { assert("name"@.len() != "volsize"@.len()); }
        assert("name"@ != "volblocksize"@) by { assert("name"@.len() != "volblocksize"@.len()); }
        assert("name"@ != "origin"@) by { assert("name"@.len() != "origin"@.len()); }
        assert("name"@ != "creation"@) by { assert("name"@.len() != "creation"@.len()); }
        assert("name"@ != "nightshade.systems:mandrake-id"@) by { assert("name"@.len() != "nightshade.systems:mandrake-id"@.len()); }
    }
    if i == 1 {
        assert(c[1] == "type"@);
        assert("type"@ != "name"@) by { assert("type"@[0] != "name"@[0]); }
        assert("type"@ != "mountpoint"@) by { assert("type"@.len() != "mountpoint"@.len()); }
        assert("type"@ != "mounted"@) by { assert("type"@.len() != "mounted"@.len()); }
        assert("type"@ != "used"@) by { assert("type"@[0] != "used"@[0]); }
        assert("type"@ != "available"@) by { assert("type"@.len() != "available"@.len()); }
        assert("type"@ != "referenced"@) by { assert("type"@.len() != "referenced"@.len()); }
        assert("type"@ != "logicalused"@) by { assert("type"@.len() != "logicalused"@.len()); }
        assert("type"@ != "quota"@) by { assert("type"@.len() != "quota"@.len()); }
        assert("type"@ != "reservation"@) by { assert("type"@.len() != "reservation"@.len()); }
        assert("type"@ != "compression"@) by { assert("type"@.len() != "compression"@.len()); }
        assert("type"@ != "compressratio"@) by { assert("type"@.len() != "compressratio"@.len()); }
        assert("type"@ != "atime"@) by { assert("type"@.len() != "atime"@.len()); }
        assert("type"@ != "recordsize"@) by { assert("type"@.len() != "recordsize"@.len()); }
        assert("type"@ != "volsize"@) by { assert("type"@.len() != "volsize"@.len()); }
        assert("type"@ != "volblocksize"@) by { assert("type"@.len() != "volblocksize"@.len()); }
        assert("type"@ != "origin"@) by { assert("type"@.len() != "origin"@.len()); }
        assert("type"@ != "creation"@) by { assert("type"@.len() != "creation"@.len()); }
        assert("type"@ != "nightshade.systems:mandrake-id"@) by { assert("type"@.len() != "nightshade.systems:mandrake-id"@.len()); }
    }
    if i == 2 {
        assert(c[2] == "mountpoint"@);
        assert("mountpoint"@ != "name"@) by { assert("mountpoint"@.len() != "name"@.len()); }
        assert("mountpoint"@ != "type"@) by { assert("mountpoint"@.len() != "type"@.len()); }
        assert("mountpoint"@ != "mounted"@) by { assert("mountpoint"@.len() != "mounted"@.len()); }
        assert("mountpoint"@ != "used"@) by { assert("mountpoint"@.len() != "used"@.len()); }
        assert("mountpoint"@ != "available"@) by { assert("mountpoint"@.len() != "available"@.len()); }
        assert("mountpoint"@ != "referenced"@) by { assert("mountpoint"@[0] != "referenced"@[0]); }
        assert("mountpoint"@ != "logicalused"@) by { assert("mountpoint"@.len() != "logicalused"@.len()); }
        assert("mountpoint"@ != "quota"@) by { assert("mountpoint"@.len() != "quota"@.len()); }
        assert("mountpoint"@ != "reservation"@) by { assert("mountpoint"@.len() != "reservation"@.len()); }
        assert("mountpoint"@ != "compression"@) by { assert("mountpoint"@.len() != "compression"@.len()); }
        assert("mountpoint"@ != "compressratio"@) by { assert("mountpoint"@.len() != "compressratio"@.len()); }
        assert("mountpoint"@ != "atime"@) by { assert("mountpoint"@.len() != "atime"@.len()); }
        assert("mountpoint"@ != "recordsize"@) by { assert("mountpoint"@[0] != "recordsize"@[0]); }
        assert("mountpoint"@ != "volsize"@) by { assert("mountpoint"@.len() != "volsize"@.len()); }
        assert("mountpoint"@ != "volblocksize"@) by { assert("mountpoint"@.len() != "volblocksize"@.len()); }
        assert("mountpoint"@ != "origin"@) by { assert("mountpoint"@.len() != "origin"@.len()); }
        assert("mountpoint"@ != "creation"@) by { assert("mountpoint"@.len() != "creation"@.len()); }
        assert("mountpoint"@ != "nightshade.systems:mandrake-id"@) by { assert("mountpoint"@.len() != "nightshade.systems:mandrake-id"@.len()); }
    }
    if i == 3 {
        assert(c[3] == "mounted"@);
        assert("mounted"@ != "name"@) by { assert("mounted"@.len() != "name"@.len()); }
        assert("mounted"@ != "type"@) by { assert("mounted"@.len() != "type"@.len()); }
        assert("mounted"@ != "mountpoint"@) by { assert("mounted"@.len() != "mountpoint"@.len()); }
        assert("mounted"@ != "used"@) by { assert("mounted"@.len() != "used"@.len()); }
        assert("mounted"@ != "available"@) by { assert("mounted"@.len() != "available"@.len()); }
        assert("mounted"@ != "referenced"@) by { assert("mounted"@.len() != "referenced"@.len()); }
        assert("mounted"@ != "logicalused"@) by { assert("mounted"@.len() != "logicalused"@.len()); }
        assert("mounted"@ != "quota"@) by { assert("mounted"@.len() != "quota"@.len()); }
        assert("mounted"@ != "reservation"@) by { assert("mounted"@.len() != "reservation"@.len()); }
        assert("mounted"@ != "compression"@) by { assert("mounted"@.len() != "compression"@.len()); }
        assert("mounted"@ != "compressratio"@) by { assert("mounted"@.len() != "compressratio"@.len()); }
        assert("mounted"@ != "atime"@) by { assert("mounted"@.len() != "atime"@.len()); }
        assert("mounted"@ != "recordsize"@) by { assert("mounted"@.len() != "recordsize"@.len()); }
        assert("mounted"@ != "volsize"@) by { assert("mounted"@[0] != "volsize"@[0]); }
        assert("mounted"@ != "volblocksize"@) by { assert("mounted"@.len() != "volblocksize"@.len()); }
        assert("mounted"@ != "origin"@) by { assert("mounted"@.len() != "origin"@.len()); }
        assert("mounted"@ != "creation"@) by { assert("mounted"@.len() != "creation"@.len()); }
        assert("mounted"@ != "nightshade.systems:mandrake-id"@) by { assert("mounted"@.len() != "nightshade.systems:mandrake-id"@.len()); }
    }
    if i == 4 {
        assert(c[4] == "used"@);
        assert("used"@ != "name"@) by { assert("used"@[0] != "name"@[0]); }
        assert("used"@ != "type"@) by { assert("used"@[0] != "type"@[0]); }
        assert("used"@ != "mountpoint"@) by { assert("used"@.len() != "mountpoint"@.len()); }
        assert("used"@ != "mounted"@) by { assert("used"@.len() != "mounted"@.len()); }
        assert("used"@ != "available"@) by { assert("used"@.len() != "available"@.len()); }
        assert("used"@ != "referenced"@) by { assert("used"@.len() != "referenced"@.len()); }
        assert("used"@ != "logicalused"@) by { assert("used"@.len() != "logicalused"@.len()); }
        assert("used"@ != "quota"@) by { assert("used"@.len() != "quota"@.len()); }
        assert("used"@ != "reservation"@) by { assert("used"@.len() != "reservation"@.len()); }
        assert("used"@ != "compression"@) by { assert("used"@.len() != "compression"@.len()); }
        assert("used"@ != "compressratio"@) by { assert("used"@.len() != "compressratio"@.len()); }
        assert("used"@ != "atime"@) by { assert("used"@.len() != "atime"@.len()); }
        assert("used"@ != "recordsize"@) by { assert("used"@.len() != "recordsize"@.len()); }
        assert("used"@ != "volsize"@) by { assert("used"@.len() != "volsize"@.len()); }
        assert("used"@ != "volblocksize"@) by { assert("used"@.len() != "volblocksize"@.len()); }
        assert("used"@ != "origin"@) by { assert("used"@.len() != "origin"@.len()); }
        assert("used"@ != "creation"@) by { assert("used"@.len() != "creation"@.len()); }
        assert("used"@ != "nightshade.systems:mandrake-id"@) by { assert("used"@.len() != "nightshade.systems:mandrake-id"@.len()); }
    }
    if i == 5 {
        assert(c[5] == "available"@);
        assert("available"@ != "name"@) by { assert("available"@.len() != "name"@.len()); }
        assert("available"@ != "type"@) by { assert("available"@.len() != "type"@.len()); }
        assert("available"@ != "mountpoint"@) by { assert("available"@.len() != "mountpoint"@.len()); }
        assert("available"@ != "mounted"@) by { assert("available"@.len() != "mounted"@.len()); }
        assert("available"@ != "used"@) by { assert("available"@.len() != "used"@.len()); }
        assert("available"@ != "referenced"@) by { assert("available"@.len() != "referenced"@.len()); }
        assert("available"@ != "logicalused"@) by { assert("available"@.len() != "logicalused"@.len()); }
        assert("available"@ != "quota"@) by { assert("available"@.len() != "quota"@.len()); }
        assert("available"@ != "reservation"@) by { assert("available"@.len() != "reservation"@.len()); }
        assert("available"@ != "compression"@) by { assert("available"@.len() != "compression"@.len()); }
        assert("available"@ != "compressratio"@) by { assert("available"@.len() != "compressratio"@.len()); }
        assert("available"@ != "atime"@) by { assert("available"@.len() != "atime"@.len()); }
        assert("available"@ != "recordsize"@) by { assert("available"@.len() != "recordsize"@.len()); }
        assert("available"@ != "volsize"@) by { assert("available"@.len() != "volsize"@.len()); }
        assert("available"@ != "volblocksize"@) by { assert("available"@.len() != "volblocksize"@.len()); }
        assert("available"@ != "origin"@) by { assert("available"@.len() != "origin"@.len()); }
        assert("available"@ != "creation"@) by { assert("available"@.len() != "creation"@.len()); }
        assert("available"@ != "nightshade.systems:mandrake-id"@) by { assert("available"@.len() != "nightshade.systems:mandrake-id"@.len()); }
    }
    if i == 6 {
        assert(c[6] == "referenced"@);
        assert("referenced"@ != "name"@) by { assert("referenced"@.len() != "name"@.len()); }
        assert("referenced"@ != "type"@) by { assert("referenced"@.len() != "type"@.len()); }
        assert("referenced"@ != "mountpoint"@) by { assert("referenced"@[0] != "mountpoint"@[0]); }
        assert("referenced"@ != "mounted"@) by { assert("referenced"@.len() != "mounted"@.len()); }
        assert("referenced"@ != "used"@) by { assert("referenced"@.len() != "used"@.len()); }
        assert("referenced"@ != "available"@) by { assert("referenced"@.len() != "available"@.len()); }
        assert("referenced"@ != "logicalused"@) by { assert("referenced"@.len() != "logicalused"@.len()); }
        assert("referenced"@ != "quota"@) by { assert("referenced"@.len() != "quota"@.len()); }
        assert("referenced"@ != "reservation"@) by { assert("referenced"@.len() != "reservation"@.len()); }
        assert("referenced"@ != "compression"@) by { assert("referenced"@.len() != "compression"@.len()); }
        assert("referenced"@ != "compressratio"@) by { assert("referenced"@.len() != "compressratio"@.len()); }
        assert("referenced"@ != "atime"@) by { assert("referenced"@.len() != "atime"@.len()); }
        assert("referenced"@ != "recordsize"@) by { assert("referenced"@[2] != "recordsize"@[2]); }
        assert("referenced"@ != "volsize"@) by { assert("referenced"@.len() != "volsize"@.len()); }
        assert("referenced"@ != "volblocksize"@) by { assert("referenced"@.len() != "volblocksize"@.len()); }
        assert("referenced"@ != "origin"@) by { assert("referenced"@.len() != "origin"@.len()); }
        assert("referenced"@ != "creation"@) by { assert("referenced"@.len() != "creation"@.len()); }
        assert("referenced"@ != "nightshade.systems:mandrake-id"@) by { assert("referenced"@.len() != "nightshade.systems:mandrake-id"@.len()); }
    }
    if i == 7 {
        assert(c[7] == "logicalused"@);
        assert("logicalused"@ != "name"@) by { assert("logicalused"@.len() != "name"@.len()); }
        assert("logicalused"@ != "type"@) by { assert("logicalused"@.len() != "type"@.len()); }
        assert("logicalused"@ != "mountpoint"@) by { assert("logicalused"@.len() != "mountpoint"@.len()); }
        assert("logicalused"@ != "mounted"@) by { assert("logicalused"@.len() != "mounted"@.len()); }
        assert("logicalused"@ != "used"@) by { assert("logicalused"@.len() != "used"@.len()); }
        assert("logicalused"@ != "available"@) by { assert("logicalused"@.len() != "available"@.len()); }
        assert("logicalused"@ != "referenced"@) by { assert("logicalused"@.len() != "referenced"@.len()); }
        assert("logicalused"@ != "quota"@) by { assert("logicalused"@.len() != "quota"@.len()); }
        assert("logicalused"@ != "reservation"@) by { assert("logicalused"@[0] != "reservation"@[0]); }
        assert("logicalused"@ != "compression"@) by { assert("logicalused"@[0] != "compression"@[0]); }
        assert("logicalused"@ != "compressratio"@) by { assert("logicalused"@.len() != "compressratio"@.len()); }
        assert("logicalused"@ != "atime"@) by { assert("logicalused"@.len() != "atime"@.len()); }
        assert("logicalused"@ != "recordsize"@) by { assert("logicalused"@.len() != "recordsize"@.len()); }
        assert("logicalused"@ != "volsize"@) by { assert("logicalused"@.len() != "volsize"@.len()); }
        assert("logicalused"@ != "volblocksize"@) by { assert("logicalused"@.len() != "volblocksize"@.len()); }
        assert("logicalused"@ != "origin"@) by { assert("logicalused"@.len() != "origin"@.len()); }
        assert("logicalused"@ != "creation"@) by { assert("logicalused"@.len() != "creation"@.len()); }
        assert("logicalused"@ != "nightshade.systems:mandrake-id"@) by { assert("logicalused"@.len() != "nightshade.systems:mandrake-id"@.len()); }
    }
    if i == 8 {
        assert(c[8] == "quota"@);
        assert("quota"@ != "name"@) by { assert("quota"@.len() != "name"@.len()); }
        assert("quota"@ != "type"@) by { assert("quota"@.len() != "type"@.len()); }
        assert("quota"@ != "mountpoint"@) by { assert("quota"@.len() != "mountpoint"@.len()); }
        assert("quota"@ != "mounted"@) by { assert("quota"@.len() != "mounted"@.len()); }
        assert("quota"@ != "used"@) by { assert("quota"@.len() != "used"@.len()); }
        assert("quota"@ != "available"@) by { assert("quota"@.len() != "available"@.len()); }
        assert("quota"@ != "referenced"@) by { assert("quota"@.len() != "referenced"@.len()); }
        assert("quota"@ != "logicalused"@) by { assert("quota"@.len() != "logicalused"@.len()); }
        assert("quota"@ != "reservation"@) by { assert("quota"@.len() != "reservation"@.len()); }
        assert("quota"@ != "compression"@) by { assert("quota"@.len() != "compression"@.len()); }
        assert("quota"@ != "compressratio"@) by { assert("quota"@.len() != "compressratio"@.len()); }
        assert("quota"@ != "atime"@) by { assert("quota"@[0] != "atime"@[0]); }
        assert("quota"@ != "recordsize"@) by { assert("quota"@.len() != "recordsize"@.len()); }
        assert("quota"@ != "volsize"@) by { assert("quota"@.len() != "volsize"@.len()); }
        assert("quota"@ != "volblocksize"@) by { assert("quota"@.len() != "volblocksize"@.len()); }
        assert("quota"@ != "origin"@) by { assert("quota"@.len() != "origin"@.len()); }
        assert("quota"@ != "creation"@) by { assert("quota"@.len() != "creation"@.len()); }
        assert("quota"@ != "nightshade.systems:mandrake-id"@) by { assert("quota"@.len() != "nightshade.systems:mandrake-id"@.len()); }
    }
    if i == 9 {
        assert(c[9] == "reservation"@);
        assert("reservation"@ != "name"@) by { assert("reservation"@.len() != "name"@.len()); }
        assert("reservation"@ != "type"@) by { assert("reservation"@.len() != "type"@.len()); }
        assert("reservation"@ != "mountpoint"@) by { assert("reservation"@.len() != "mountpoint"@.len()); }
        assert("reservation"@ != "mounted"@) by { assert("reservation"@.len() != "mounted"@.len()); }
        assert("reservation"@ != "used"@) by { assert("reservation"@.len() != "used"@.len()); }
        assert("reservation"@ != "available"@) by { assert("reservation"@.len() != "available"@.len()); }
        assert("reservation"@ != "referenced"@) by { assert("reservation"@.len() != "referenced"@.len()); }
        assert("reservation"@ != "logicalused"@) by { assert("reservation"@[0] != "logicalused"@[0]); }
        assert("reservation"@ != "quota"@) by { assert("reservation"@.len() != "quota"@.len()); }
        assert("reservation"@ != "compression"@) by { assert("reservation"@[0] != "compression"@[0]); }
        assert("reservation"@ != "compressratio"@) by { assert("reservation"@.len() != "compressratio"@.len()); }
        assert("reservation"@ != "atime"@) by { assert("reservation"@.len() != "atime"@.len()); }
        assert("reservation"@ != "recordsize"@) by { assert("reservation"@.len() != "recordsize"@.len()); }
        assert("reservation"@ != "volsize"@) by { assert("reservation"@.len() != "volsize"@.len()); }
        assert("reservation"@ != "volblocksize"@) by { assert("reservation"@.len() != "volblocksize"@.len()); }
        assert("reservation"@ != "origin"@) by { assert("reservation"@.len() != "origin"@.len()); }
        assert("reservation"@ != "creation"@) by { assert("reservation"@.len() != "creation"@.len()); }
        assert("reservation"@ != "nightshade.systems:mandrake-id"@) by { assert("reservation"@.len() != "nightshade.systems:mandrake-id"@.len()); }
    }
    if i == 10 {
        assert(c[10] == "compression"@);
        assert("compression"@ != "name"@) by { assert("compression"@.len() != "name"@.len()); }
        assert("compression"@ != "type"@) by { assert("compression"@.len() != "type"@.len()); }
        assert("compression"@ != "mountpoint"@) by { assert("compression"@.len() != "mountpoint"@.len()); }
        assert("compression"@ != "mounted"@) by { assert("compression"@.len() != "mounted"@.len()); }
        assert("compression"@ != "used"@) by { assert("compression"@.len() != "used"@.len()); }
        assert("compression"@ != "available"@) by { assert("compression"@.len() != "available"@.len()); }
        assert("compression"@ != "referenced"@) by { assert("compression"@.len() != "referenced"@.len()); }
        assert("compression"@ != "logicalused"@) by { assert("compression"@[0] != "logicalused"@[0]); }
        assert("compression"@ != "quota"@) by { assert("compression"@.len() != "quota"@.len()); }
        assert("compression"@ != "reservation"@) by { assert("compression"@[0] != "reservation"@[0]); }
        assert("compression"@ != "compressratio"@) by { assert("compression"@.len() != "compressratio"@.len()); }
        assert("compression"@ != "atime"@) by { assert("compression"@.len() != "atime"@.len()); }
        assert("compression"@ != "recordsize"@) by { assert("compression"@.len() != "recordsize"@.len()); }
        assert("compression"@ != "volsize"@) by { assert("compression"@.len() != "volsize"@.len()); }
        assert("compression"@ != "volblocksize"@) by { assert("compression"@.len() != "volblocksize"@.len()); }
        assert("compression"@ != "origin"@) by { assert("compression"@.len() != "origin"@.len()); }
        assert("compression"@ != "creation"@) by { assert("compression"@.len() != "creation"@.len()); }
        assert("compression"@ != "nightshade.systems:mandrake-id"@) by { assert("compression"@.len() != "nightshade.systems:mandrake-id"@.len()); }
    }
    if i == 11 {
        assert(c[11] == "compressratio"@);
        assert("compressratio"@ != "name"@) by { assert("compressratio"@.len() != "name"@.len()); }
        assert("compressratio"@ != "type"@) by { assert("compressratio"@.len() != "type"@.len()); }
        assert("compressratio"@ != "mountpoint"@) by { assert("compressratio"@.len() != "mountpoint"@.len()); }
        assert("compressratio"@ != "mounted"@) by { assert("compressratio"@.len() != "mounted"@.len()); }
        assert("compressratio"@ != "used"@) by { assert("compressratio"@.len() != "used"@.len()); }
        assert("compressratio"@ != "available"@) by { assert("compressratio"@.len() != "available"@.len()); }
        assert("compressratio"@ != "referenced"@) by { assert("compressratio"@.len() != "referenced"@.len()); }
        assert("compressratio"@ != "logicalused"@) by { assert("compressratio"@.len() != "logicalused"@.len()); }
        assert("compressratio"@ != "quota"@) by { assert("compressratio"@.len() != "quota"@.len()); }
        assert("compressratio"@ != "reservation"@) by { assert("compressratio"@.len() != "reservation"@.len()); }
        assert("compressratio"@ != "compression"@) by { assert("compressratio"@.len() != "compression"@.len()); }
        assert("compressratio"@ != "atime"@) by { assert("compressratio"@.len() != "atime"@.len()); }
        assert("compressratio"@ != "recordsize"@) by { assert("compressratio"@.len() != "recordsize"@.len()); }
        assert("compressratio"@ != "volsize"@) by { assert("compressratio"@.len() != "volsize"@.len()); }
        assert("compressratio"@ != "volblocksize"@) by { assert("compressratio"@.len() != "volblocksize"@.len()); }
        assert("compressratio"@ != "origin"@) by { assert("compressratio"@.len() != "origin"@.len()); }
        assert("compressratio"@ != "creation"@) by { assert("compressratio"@.len() != "creation"@.len()); }
        assert("compressratio"@ != "nightshade.systems:mandrake-id"@) by { assert("compressratio"@.len() != "nightshade.systems:mandrake-id"@.len()); }
    }
    if i == 12 {
        assert(c[12] == "atime"@);
        assert("atime"@ != "name"@) by { assert("atime"@.len() != "name"@.len()); }
        assert("atime"@ != "type"@) by { assert("atime"@.len() != "type"@.len()); }
        assert("atime"@ != "mountpoint"@) by { assert("atime"@.len() != "mountpoint"@.len()); }
        assert("atime"@ != "mounted"@) by { assert("atime"@.len() != "mounted"@.len()); }
        assert("atime"@ != "used"@) by { assert("atime"@.len() != "used"@.len()); }
        assert("atime"@ != "available"@) by { assert("atime"@.len() != "available"@.len()); }
        assert("atime"@ != "referenced"@) by { assert("atime"@.len() != "referenced"@.len()); }
        assert("atime"@ != "logicalused"@) by { assert("atime"@.len() != "logicalused"@.len()); }
        assert("atime"@ != "quota"@) by { assert("atime"@[0] != "quota"@[0]); }
        assert("atime"@ != "reservation"@) by { assert("atime"@.len() != "reservation"@.len()); }
        assert("atime"@ != "compression"@) by { assert("atime"@.len() != "compression"@.len()); }
        assert("atime"@ != "compressratio"@) by { assert("atime"@.len() != "compressratio"@.len()); }
        assert("atime"@ != "recordsize"@) by { assert("atime"@.len() != "recordsize"@.len()); }
        assert("atime"@ != "volsize"@) by { assert("atime"@.len() != "volsize"@.len()); }
        assert("atime"@ != "volblocksize"@) by { assert("atime"@.len() != "volblocksize"@.len()); }
        assert("atime"@ != "origin"@) by { assert("atime"@.len() != "origin"@.len()); }
        assert("atime"@ != "creation"@) by { assert("atime"@.len() != "creation"@.len()); }
        assert("atime"@ != "nightshade.systems:mandrake-id"@) by { assert("atime"@.len() != "nightshade.systems:mandrake-id"@.len()); }
    }
    if i == 13 {
        assert(c[13] == "recordsize"@);
        assert("recordsize"@ != "name"@) by { assert("recordsize"@.len() != "name"@.len()); }
        assert("recordsize"@ != "type"@) by { assert("recordsize"@.len() != "type"@.len()); }
        assert("recordsize"@ != "mountpoint"@) by { assert("recordsize"@[0] != "mountpoint"@[0]); }
        assert("recordsize"@ != "mounted"@) by { assert("recordsize"@.len() != "mounted"@.len()); }
        assert("recordsize"@ != "used"@) by { assert("recordsize"@.len() != "used"@.len()); }
        assert("recordsize"@ != "available"@) by { assert("recordsize"@.len() != "available"@.len()); }
        assert("recordsize"@ != "referenced"@) by { assert("recordsize"@[2] != "referenced"@[2]); }
        assert("recordsize"@ != "logicalused"@) by { assert("recordsize"@.len() != "logicalused"@.len()); }
        assert("recordsize"@ != "quota"@) by { assert("recordsize"@.len() != "quota"@.len()); }
        assert("recordsize"@ != "reservation"@) by { assert("recordsize"@.len() != "reservation"@.len()); }
        assert("recordsize"@ != "compression"@) by { assert("recordsize"@.len() != "compression"@.len()); }
        assert("recordsize"@ != "compressratio"@) by { assert("recordsize"@.len() != "compressratio"@.len()); }
        assert("recordsize"@ != "atime"@) by { assert("recordsize"@.len() != "atime"@.len()); }
        assert("recordsize"@ != "volsize"@) by { assert("recordsize"@.len() != "volsize"@.len()); }
        assert("recordsize"@ != "volblocksize"@) by { assert("recordsize"@.len() != "volblocksize"@.len()); }
        assert("recordsize"@ != "origin"@) by { assert("recordsize"@.len() != "origin"@.len()); }
        assert("recordsize"@ != "creation"@) by { assert("recordsize"@.len() != "creation"@.len()); }
        assert("recordsize"@ != "nightshade.systems:mandrake-id"@) by { assert("recordsize"@.len() != "nightshade.systems:mandrake-id"@.len()); }
    }
    if i == 14 {
        assert(c[14] == "volsize"@);
        assert("volsize"@ != "name"@) by { assert("volsize"@.len() != "name"@.len()); }
        assert("volsize"@ != "type"@) by { assert("volsize"@.len() != "type"@.len()); }
        assert("volsize"@ != "mountpoint"@) by { assert("volsize"@.len() != "mountpoint"@.len()); }
        assert("volsize"@ != "mounted"@) by { assert("volsize"@[0] != "mounted"@[0]); }
        assert("volsize"@ != "used"@) by { assert("volsize"@.len() != "used"@.len()); }
        assert("volsize"@ != "available"@) by { assert("volsize"@.len() != "available"@.len()); }
        assert("volsize"@ != "referenced"@) by { assert("volsize"@.len() != "referenced"@.len()); }
        assert("volsize"@ != "logicalused"@) by { assert("volsize"@.len() != "logicalused"@.len()); }
        assert("volsize"@ != "quota"@) by { assert("volsize"@.len() != "quota"@.len()); }
        assert("volsize"@ != "reservation"@) by { assert("volsize"@.len() != "reservation"@.len()); }
        assert("volsize"@ != "compression"@) by { assert("volsize"@.len() != "compression"@.len()); }
        assert("volsize"@ != "compressratio"@) by { assert("volsize"@.len() != "compressratio"@.len()); }
        assert("volsize"@ != "atime"@) by { assert("volsize"@.len() != "atime"@.len()); }
        assert("volsize"@ != "recordsize"@) by { assert("volsize"@.len() != "recordsize"@.len()); }
        assert("volsize"@ != "volblocksize"@) by { assert("volsize"@.len() != "volblocksize"@.len()); }
        assert("volsize"@ != "origin"@) by { assert("volsize"@.len() != "origin"@.len()); }
        assert("volsize"@ != "creation"@) by { assert("volsize"@.len() != "creation"@.len()); }
        assert("volsize"@ != "nightshade.systems:mandrake-id"@) by { assert("volsize"@.len() != "nightshade.systems:mandrake-id"@.len()); }
    }
    if i == 15 {
        assert(c[15] == "volblocksize"@);
        assert("volblocksize"@ != "name"@) by { assert("volblocksize"@.len() != "name"@.len()); }
        assert("volblocksize"@ != "type"@) by { assert("volblocksize"@.len() != "type"@.len()); }
        assert("volblocksize"@ != "mountpoint"@) by { assert("volblocksize"@.len() != "mountpoint"@.len()); }
        assert("volblocksize"@ != "mounted"@) by { assert("volblocksize"@.len() != "mounted"@.len()); }
        assert("volblocksize"@ != "used"@) by { assert("volblocksize"@.len() != "used"@.len()); }
        assert("volblocksize"@ != "available"@) by { assert("volblocksize"@.len() != "available"@.len()); }
        assert("volblocksize"@ != "referenced"@) by { assert("volblocksize"@.len() != "referenced"@.len()); }
        assert("volblocksize"@ != "logicalused"@) by { assert("volblocksize"@.len() != "logicalused"@.len()); }
        assert("volblocksize"@ != "quota"@) by { assert("volblocksize"@.len() != "quota"@.len()); }
        assert("volblocksize"@ != "reservation"@) by { assert("volblocksize"@.len() != "reservation"@.len()); }
        assert("volblocksize"@ != "compression"@) by { assert("volblocksize"@.len() != "compression"@.len()); }
        assert("volblocksize"@ != "compressratio"@) by { assert("volblocksize"@.len() != "compressratio"@.len()); }
        assert("volblocksize"@ != "atime"@) by { assert("volblocksize"@.len() != "atime"@.len()); }
        assert("volblocksize"@ != "recordsize"@) by { assert("volblocksize"@.len() != "recordsize"@.len()); }
        assert("volblocksize"@ != "volsize"@) by { assert("volblocksize"@.len() != "volsize"@.len()); }
        assert("volblocksize"@ != "origin"@) by { assert("volblocksize"@.len() != "origin"@.len()); }
        assert("volblocksize"@ != "creation"@) by { assert("volblocksize"@.len() != "creation"@.len()); }
        assert("volblocksize"@ != "nightshade.systems:mandrake-id"@) by { assert("volblocksize"@.len() != "nightshade.systems:mandrake-id"@.len()); }
    }
    if i == 16 {
        assert(c[16] == "origin"@);
        assert("origin"@ != "name"@) by { assert("origin"@.len() != "name"@.len()); }
        assert("origin"@ != "type"@) by { assert("origin"@.len() != "type"@.len()); }
        assert("origin"@ != "mountpoint"@) by { assert("origin"@.len() != "mountpoint"@.len()); }
        assert("origin"@ != "mounted"@) by { assert("origin"@.len() != "mounted"@.len()); }
        assert("origin"@ != "used"@) by { assert("origin"@.len() != "used"@.len()); }
        assert("origin"@ != "available"@) by { assert("origin"@.len() != "available"@.len()); }
        assert("origin"@ != "referenced"@) by { assert("origin"@.len() != "referenced"@.len()); }
        assert("origin"@ != "logicalused"@) by { assert("origin"@.len() != "logicalused"@.len()); }
        assert("origin"@ != "quota"@) by { assert("origin"@.len() != "quota"@.len()); }
        assert("origin"@ != "reservation"@) by { assert("origin"@.len() != "reservation"@.len()); }
        assert("origin"@ != "compression"@) by { assert("origin"@.len() != "compression"@.len()); }
        assert("origin"@ != "compressratio"@) by { assert("origin"@.len() != "compressratio"@.len()); }
        assert("origin"@ != "atime"@) by { assert("origin"@.len() != "atime"@.len()); }
        assert("origin"@ != "recordsize"@) by { assert("origin"@.len() != "recordsize"@.len()); }
        assert("origin"@ != "volsize"@) by { assert("origin"@.len() != "volsize"@.len()); }
        assert("origin"@ != "volblocksize"@) by { assert("origin"@.len() != "volblocksize"@.len()); }
        assert("origin"@ != "creation"@) by { assert("origin"@.len() != "creation"@.len()); }
        assert("origin"@ != "nightshade.systems:mandrake-id"@) by { assert("origin"@.len() != "nightshade.systems:mandrake-id"@.len()); }
    }
    if i == 17 {
        assert(c[17] == "creation"@);
        assert("creation"@ != "name"@) by { assert("creation"@.len() != "name"@.len()); }
        assert("creation"@ != "type"@) by { assert("creation"@.len() != "type"@.len()); }
        assert("creation"@ != "mountpoint"@) by { assert("creation"@.len() != "mountpoint"@.len()); }
        assert("creation"@ != "mounted"@) by { assert("creation"@.len() != "mounted"@.len()); }
        assert("creation"@ != "used"@) by { assert("creation"@.len() != "used"@.len()); }
        assert("creation"@ != "available"@) by { assert("creation"@.len() != "available"@.len()); }
        assert("creation"@ != "referenced"@) by { assert("creation"@.len() != "referenced"@.len()); }
        assert("creation"@ != "logicalused"@) by { assert("creation"@.len() != "logicalused"@.len()); }
        assert("creation"@ != "quota"@) by { assert("creation"@.len() != "quota"@.len()); }
        assert("creation"@ != "reservation"@) by { assert("creation"@.len() != "reservation"@.len()); }
        assert("creation"@ != "compression"@) by { assert("creation"@.len() != "compression"@.len()); }
        assert("creation"@ != "compressratio"@) by { assert("creation"@.len() != "compressratio"@.len()); }
        assert("creation"@ != "atime"@) by { assert("creation"@.len() != "atime"@.len()); }
        assert("creation"@ != "recordsize"@) by { assert("creation"@.len() != "recordsize"@.len()); }
        assert("creation"@ != "volsize"@) by { assert("creation"@.len() != "volsize"@.len()); }
        assert("creation"@ != "volblocksize"@) by { assert("creation"@.len() != "volblocksize"@.len()); }
        assert("creation"@ != "origin"@) by { assert("creation"@.len() != "origin"@.len()); }
        assert("creation"@ != "nightshade.systems:mandrake-id"@) by { assert("creation"@.len() != "nightshade.systems:mandrake-id"@.len()); }
    }
    if i == 18 {
        assert(c[18] == "nightshade.systems:mandrake-id"@);
        assert("nightshade.systems:mandrake-id"@ != "name"@) by { assert("nightshade.systems:mandrake-id"@.len() != "name"@.len()); }
        assert("nightshade.systems:mandrake-id"@ != "type"@) by { assert("nightshade.systems:mandrake-id"@.len() != "type"@.len()); }
        assert("nightshade.systems:mandrake-id"@ != "mountpoint"@) by { assert("nightshade.systems:mandrake-id"@.len() != "mountpoint"@.len()); }
        assert("nightshade.systems:mandrake-id"@ != "mounted"@) by { assert("nightshade.systems:mandrake-id"@.len() != "mounted"@.len()); }
        assert("nightshade.systems:mandrake-id"@ != "used"@) by { assert("nightshade.systems:mandrake-id"@.len() != "used"@.len()); }
        assert("nightshade.systems:mandrake-id"@ != "available"@) by { assert("nightshade.systems:mandrake-id"@.len() != "available"@.len()); }
        assert("nightshade.systems:mandrake-id"@ != "referenced"@) by { assert("nightshade.systems:mandrake-id"@.len() != "referenced"@.len()); }
        assert("nightshade.systems:mandrake-id"@ != "logicalused"@) by { assert("nightshade.systems:mandrake-id"@.len() != "logicalused"@.len()); }
        assert("nightshade.systems:mandrake-id"@ != "quota"@) by { assert("nightshade.systems:mandrake-id"@.len() != "quota"@.len()); }
        assert("nightshade.systems:mandrake-id"@ != "reservation"@) by { assert("nightshade.systems:mandrake-id"@.len() != "reservation"@.len()); }
        assert("nightshade.systems:mandrake-id"@ != "compression"@) by { assert("nightshade.systems:mandrake-id"@.len() != "compression"@.len()); }
        assert("nightshade.systems:mandrake-id"@ != "compressratio"@) by { assert("nightshade.systems:mandrake-id"@.len() != "compressratio"@.len()); }
        assert("nightshade.systems:mandrake-id"@ != "atime"@) by { assert("nightshade.systems:mandrake-id"@.len() != "atime"@.len()); }
        assert("nightshade.systems:mandrake-id"@ != "recordsize"@) by { assert("nightshade.systems:mandrake-id"@.len() != "recordsize"@.len()); }
        assert("nightshade.systems:mandrake-id"@ != "volsize"@) by { assert("nightshade.systems:mandrake-id"@.len() != "volsize"@.len()); }
        assert("nightshade.systems:mandrake-id"@ != "volblocksize"@) by { assert("nightshade.systems:mandrake-id"@.len() != "volblocksize"@.len()); }
        assert("nightshade.systems:mandrake-id"@ != "origin"@) by { assert("nightshade.systems:mandrake-id"@.len() != "origin"@.len()); }
        assert("nightshade.systems:mandrake-id"@ != "creation"@) by { assert("nightshade.systems:mandrake-id"@.len() != "creation"@.len()); }
    }
}

} // verus!
