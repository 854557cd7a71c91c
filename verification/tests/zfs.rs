use mandrake::common::storage::{DatasetKind, PoolHealth, ScanFunction, ScanState, VdevSpec, VdevSpecType, VdevType};
use mandrake::common::timestamp::Timestamp;
use mandrake::zfs::beadm::{parse_list, FakeBeadm};
use mandrake::zfs::fake::FakeZfs;
use mandrake::zfs::parse::{diskinfo, rate, size, zfs_list, zfs_snapshots, zpool_list};
use mandrake::zfs::status::{ctime, zpool_status};
use mandrake::zfs::types::{DatasetSpec, FailureKind, PoolSpec, ZfsError, ID_PROPERTY};
use mandrake::zfs::cli::{
    clone_command, create_dataset_command, create_pool_command, diskinfo_command, first_listed, flagged_command,
    list_snapshots_command, pool_info, set_properties_command, snapshot_command, zfs_list_command,
    zfs_snapshot_command, zpool_list_command, zpool_status_command,
};

const ZPOOL_LIST: &str = "rpool\t68719476736\t8589934592\t60129542144\t3\t12\t1.00x\tONLINE\n\
tank\t3985729650688\t478287558082\t3507442092606\t1\t12\t1.00x\tONLINE\n";

const STATUS_MIRROR: &str = "  pool: tank
 state: ONLINE
  scan: scrub repaired 0B in 00:10:12 with 0 errors on Sun Aug 30 02:10:12 2026
config:

\tNAME        STATE     READ WRITE CKSUM
\ttank        ONLINE       0     0     0
\t  mirror-0  ONLINE       0     0     0
\t    c1t1d0  ONLINE       0     0     0
\t    c1t2d0  ONLINE       0     0     0
\t  mirror-1  ONLINE       0     0     0
\t    c1t3d0  ONLINE       0     0     0
\t    c1t4d0  ONLINE       0     0     0
\tlogs
\t  c2t0d0    ONLINE       0     0     0
\tcache
\t  c2t1d0    ONLINE       0     0     0
\tspares
\t  c2t2d0    AVAIL

errors: No known data errors
";

const STATUS_SCRUB: &str = "  pool: tank
 state: DEGRADED
status: One or more devices are faulted in response to persistent errors.
\tSufficient replicas exist for the pool to continue functioning.
action: Replace the faulted device.
  scan: scrub in progress since Tue Sep  1 10:00:00 2026
\t1.07T scanned at 100M/s, 1.07T issued at 100M/s, 3.62T total
\t0B repaired, 27.30% done, 07:25:01 to go
config:

\tNAME        STATE     READ WRITE CKSUM
\ttank        DEGRADED     0     0     0
\t  mirror-0  DEGRADED     0     0     0
\t    c1t1d0  ONLINE       0     0     0
\t    c1t2d0  FAULTED     12     0     0  too many errors

errors: No known data errors
";

const STATUS_RPOOL: &str = "  pool: rpool
 state: ONLINE
config:

\tNAME        STATE     READ WRITE CKSUM
\trpool       ONLINE       0     0     0
\t  c1t0d0    ONLINE       0     0     0

errors: No known data errors
";

const ZFS_LIST: &str = "rpool\tfilesystem\t/rpool\tyes\t8589934592\t60129542144\t98304\t98304\t0\t0\tlz4\t1.00x\ton\t131072\t-\t-\t-\t1754042400\t-\n\
rpool/ROOT\tfilesystem\tlegacy\tno\t4294967296\t60129542144\t98304\t98304\t0\t0\tlz4\t1.00x\ton\t131072\t-\t-\t-\t1754042400\t-\n\
tank\tfilesystem\t/tank\tyes\t478287558082\t3507442092606\t98304\t98304\t0\t0\tlz4\t1.20x\ton\t131072\t-\t-\t-\t1754042400\t-\n\
tank/images/lx-ubuntu\tfilesystem\t/tank/images/lx-ubuntu\tyes\t1073741824\t3507442092606\t1073741824\t2147483648\t0\t0\tlz4\t2.00x\ton\t131072\t-\t-\t-\t1754042400\t-\n\
tank/vms/disk0\tvolume\t-\t-\t21474836480\t3507442092606\t1073741824\t1073741824\t-\t21474836480\tlz4\t1.00x\t-\t-\t21474836480\t8192\t-\t1754042400\t0192a1b2-c3d4-7e5f-8a9b-0c1d2e3f4a5b\n\
tank/zones/web1\tfilesystem\t/tank/zones/web1\tyes\t1048576\t3507442092606\t1073741824\t2147483648\t0\t0\tlz4\t2.00x\ton\t131072\t-\t-\ttank/images/lx-ubuntu@import\t1754042400\t-\n";

const ZFS_SNAPS: &str = "tank/images/lx-ubuntu@import\t0\t1073741824\t1754042400\ttank/zones/web1\t-\n\
tank/zones/web1@daily\t1048576\t1073741824\t1754128800\t-\t-\n\
tank/vms/disk0@before\t0\t1073741824\t1754215200\t-\t0192a1b2-c3d4-7e5f-8a9b-0c1d2e3f4a5c\n";

const DISKINFO: &str = "SATA\tc1t0d0\tATA\tSamsung SSD\t1000204886016\tno\tyes\n\
SATA\tc1t1d0\tATA\tWDC WD40\t4000787030016\tno\tno\n\
SATA\tc1t2d0\tATA\tWDC WD40\t4000787030016\tno\tno\n\
USB\tc2t0d0\tSanDisk\tUltra\t32017047552\tyes\tno\n";

const BEADM: &str = "mandrake-0.1.0;2f0a4c3e-1b2d-4e5f-8a9b-0c1d2e3f4a50;NR;/;8123456789;static;1754042400\n\
mandrake-0.2.0;2f0a4c3e-1b2d-4e5f-8a9b-0c1d2e3f4a51;R;-;1024;static;1754128800\n\
old;2f0a4c3e-1b2d-4e5f-8a9b-0c1d2e3f4a52;;-;512;static;1754215200\n";

#[test]
fn pool_list_rows() {
    let rows = zpool_list(ZPOOL_LIST).unwrap_or_default();
    assert_eq!(rows.len(), 2);
    assert_eq!(rows[0].name, "rpool");
    assert_eq!(rows[0].health, PoolHealth::Online);
    assert_eq!(rows[1].name, "tank");
    assert_eq!(rows[1].size, 3_985_729_650_688);
    assert_eq!(rows[1].capacity, Some(12));
    assert_eq!(rows[1].dedup_ratio.as_deref().map(|r| r.parse::<f64>().ok()), Some(Some(1.0)));
}

#[test]
fn pool_list_refuses_short_rows() {
    assert!(zpool_list("tank\t1\t2\n").is_err());
}

#[test]
fn status_tree_with_mirror_log_cache_and_spare() {
    let s = zpool_status(STATUS_MIRROR).unwrap_or_else(|e| panic!("{e:?}"));
    assert_eq!(s.name, "tank");
    assert_eq!(s.state, PoolHealth::Online);
    assert_eq!(s.vdevs.type_, VdevType::Root);
    let kinds: Vec<_> = s.vdevs.children.iter().map(|c| (c.name.as_str(), c.type_)).collect();
    assert_eq!(
        kinds,
        vec![
            ("mirror-0", VdevType::Mirror),
            ("mirror-1", VdevType::Mirror),
            ("logs", VdevType::Log),
            ("cache", VdevType::Cache),
            ("spares", VdevType::Spare),
        ]
    );
    assert_eq!(s.vdevs.children[0].children.len(), 2);
    assert_eq!(s.vdevs.children[0].children[1].name, "c1t2d0");
    assert_eq!(s.vdevs.children[0].children[1].checksum_errors, Some(0));
    assert_eq!(s.vdevs.children[4].children[0].state, PoolHealth::Avail);
    assert_eq!(s.vdevs.leaves().len(), 7);
    let scan = s.scan.expect("scan");
    assert_eq!(scan.function, ScanFunction::Scrub);
    assert_eq!(scan.state, ScanState::Finished);
    assert_eq!(scan.errors, Some(0));
    assert!(scan.finished_at.is_some());
    assert_eq!(s.errors.as_deref(), Some("No known data errors"));
}

#[test]
fn status_degraded_with_scrub_in_progress() {
    let s = zpool_status(STATUS_SCRUB).unwrap_or_else(|e| panic!("{e:?}"));
    assert_eq!(s.state, PoolHealth::Degraded);
    assert!(s.status_text.as_deref().is_some_and(|t| t.contains("One or more devices")));
    let scan = s.scan.expect("scan");
    assert_eq!(scan.state, ScanState::InProgress);
    assert!(scan.started_at.is_some());
    let pct: Option<f64> = scan.progress.as_deref().and_then(|p| p.parse().ok());
    assert_eq!(pct.map(|p| p.round()), Some(27.0));
    assert_eq!(scan.rate_bytes_per_second, Some(100 * 1024 * 1024));
    let faulted = &s.vdevs.children[0].children[1];
    assert_eq!(faulted.state, PoolHealth::Faulted);
    assert_eq!(faulted.read_errors, Some(12));
    assert_eq!(faulted.note.as_deref(), Some("too many errors"));
}

#[test]
fn status_rpool_single_disk() {
    let s = zpool_status(STATUS_RPOOL).unwrap_or_else(|e| panic!("{e:?}"));
    assert_eq!(s.vdevs.children.len(), 1);
    assert_eq!(s.vdevs.children[0].type_, VdevType::Disk);
    assert!(s.scan.is_none());
}

#[test]
fn status_without_a_pool_line_is_an_error() {
    assert!(matches!(zpool_status(" state: ONLINE\n"), Err(ZfsError::Parse { .. })));
}

#[test]
fn dataset_rows() {
    let ds = zfs_list(ZFS_LIST).unwrap_or_else(|e| panic!("{e:?}"));
    assert_eq!(ds.len(), 6);
    let root = &ds[0];
    assert_eq!(root.name, "rpool");
    assert_eq!(root.kind, DatasetKind::Filesystem);
    assert_eq!(root.mountpoint.as_deref(), Some("/rpool"));
    assert!(root.mounted);
    assert_eq!(root.compression.as_deref(), Some("lz4"));
    assert_eq!(root.quota, None);
    assert_eq!(ds[1].mountpoint, None);
    let vol = ds.iter().find(|d| d.kind == DatasetKind::Volume).expect("volume");
    assert_eq!(vol.name, "tank/vms/disk0");
    assert_eq!(vol.volsize, Some(21_474_836_480));
    assert_eq!(vol.volblocksize, Some(8192));
    assert_eq!(vol.mountpoint, None);
    assert_eq!(vol.mandrake_id.as_deref(), Some("0192a1b2-c3d4-7e5f-8a9b-0c1d2e3f4a5b"));
    let clone = ds.iter().find(|d| d.origin.is_some()).expect("clone");
    assert_eq!(clone.origin.as_deref(), Some("tank/images/lx-ubuntu@import"));
    assert_eq!(ds[2].pool(), "tank");
    assert_eq!(ds[1].created_at.to_rfc3339(), "2025-08-01T10:00:00Z");
}

#[test]
fn dataset_rows_refuse_unknown_types() {
    let bad = ZFS_LIST.replace("\tvolume\t", "\tbookmark\t");
    assert!(zfs_list(&bad).is_err());
}

#[test]
fn snapshot_rows() {
    let snaps = zfs_snapshots(ZFS_SNAPS).unwrap_or_else(|e| panic!("{e:?}"));
    assert_eq!(snaps.len(), 3);
    assert_eq!(snaps[0].dataset(), "tank/images/lx-ubuntu");
    assert_eq!(snaps[0].short_name(), "import");
    assert_eq!(snaps[0].clones, vec!["tank/zones/web1".to_owned()]);
    assert!(snaps[1].clones.is_empty());
    assert_eq!(snaps[2].mandrake_id.as_deref(), Some("0192a1b2-c3d4-7e5f-8a9b-0c1d2e3f4a5c"));
}

#[test]
fn devices() {
    let d = diskinfo(DISKINFO);
    assert_eq!(d.len(), 4);
    assert_eq!(d[0].name, "c1t0d0");
    assert_eq!(d[0].bus.as_deref(), Some("SATA"));
    assert_eq!(d[0].size, 1_000_204_886_016);
    assert!(!d[0].removable);
    assert_eq!(d[0].solid_state, Some(true));
    assert_eq!(d[3].bus.as_deref(), Some("USB"));
    assert!(d[3].removable);
}

#[test]
fn sizes_rates_and_dates() {
    assert_eq!(size("1.5G"), Some(1_610_612_736));
    assert_eq!(size("512"), Some(512));
    assert_eq!(rate("100M/s"), Some(104_857_600));
    assert_eq!(size("junk"), None);
    assert_eq!(
        ctime("Tue Sep  1 10:00:00 2026").map(Timestamp::to_rfc3339),
        Some("2026-09-01T10:00:00Z".to_owned())
    );
    assert_eq!(
        ctime("Tue Sep 15 09:05:07 2026").map(Timestamp::to_rfc3339),
        Some("2026-09-15T09:05:07Z".to_owned())
    );
}

#[test]
fn sizes_round_half_up() {
    assert_eq!(size("0.5"), Some(1));
    assert_eq!(size("1K"), Some(1024));
    assert_eq!(size("2 T"), Some(2 * 1024u64.pow(4)));
    assert_eq!(size("1.5X"), None);
}

#[test]
fn parses_the_list() {
    let bes = parse_list(BEADM).unwrap();
    assert_eq!(bes.len(), 3);
    assert_eq!(bes[0].name, "mandrake-0.1.0");
    assert!(bes[0].active && bes[0].booted);
    assert_eq!(bes[0].mountpoint.as_deref(), Some("/"));
    assert_eq!(bes[0].space_bytes, 8_123_456_789);
    assert_eq!(bes[1].name, "mandrake-0.2.0");
    assert!(bes[1].active && !bes[1].booted, "R only: boots next");
    assert!(bes[1].mountpoint.is_none());
    assert!(!bes[2].active && !bes[2].booted);
    assert!(parse_list("one;two").is_err());
}

#[test]
fn fake_follows_beadm_rules() {
    let mut f = FakeBeadm::typical();
    f.create("next").unwrap();
    assert!(f.create("next").is_err());
    assert!(f.destroy("mandrake-0.1.0").is_err(), "booted");
    f.activate("next").unwrap();
    let bes = f.list();
    assert!(bes.iter().find(|b| b.name == "next").unwrap().active);
    assert!(!bes[0].active && bes[0].booted);
    assert_eq!(bes.iter().filter(|b| b.active).count(), 1);
    assert!(f.destroy("next").is_err(), "active");
    f.activate("mandrake-0.1.0").unwrap();
    f.destroy("next").unwrap();
    assert!(matches!(f.destroy("next"), Err(ZfsError::NotFound(_))));
}

fn now() -> Timestamp {
    Timestamp::from_unix(1_756_728_000).unwrap()
}

fn mirror_spec(name: &str) -> PoolSpec {
    PoolSpec {
        name: name.to_owned(),
        vdevs: vec![VdevSpec {
            type_: VdevSpecType::Mirror,
            devices: vec!["c1t1d0".to_owned(), "c1t2d0".to_owned()],
        }],
        ashift: None,
        compression: None,
        force: false,
        root_properties: vec![(ID_PROPERTY.to_owned(), "id-1".to_owned())],
    }
}

#[test]
fn fake_create_pool_files_the_pool_and_its_root() {
    let mut z = FakeZfs::typical(now());
    z.create_pool(&mirror_spec("tank"), now()).unwrap();
    let p = z.pool("tank").unwrap();
    assert_eq!(p.size, 4_000_787_030_016);
    assert_eq!(p.allocated, 4_000_787_030_016 / 8);
    assert_eq!(p.vdevs.children[0].name, "mirror-0");
    assert_eq!(p.vdevs.leaves(), vec!["c1t1d0", "c1t2d0"]);
    assert_eq!(z.dataset("tank").unwrap().mandrake_id.as_deref(), Some("id-1"));
    let names: Vec<_> = z.pools().iter().map(|p| p.name.clone()).collect();
    assert_eq!(names, vec!["rpool", "tank"]);
    // Reusing a disk without force is refused.
    let e = z.create_pool(&mirror_spec("other"), now()).err().unwrap();
    assert_eq!(e.kind(), FailureKind::Invalid);
    // The same name again is refused.
    let e = z.create_pool(&mirror_spec("tank"), now()).err().unwrap();
    assert_eq!(e.kind(), FailureKind::Exists);
}

#[test]
fn fake_create_pool_sizes_stripes_and_refuses_small_mirrors() {
    let mut z = FakeZfs::typical(now());
    let mut spec = mirror_spec("tank");
    spec.vdevs = vec![
        VdevSpec { type_: VdevSpecType::Stripe, devices: vec!["c1t1d0".to_owned(), "c1t2d0".to_owned()] },
        VdevSpec { type_: VdevSpecType::Log, devices: vec!["c1t3d0".to_owned()] },
    ];
    spec.compression = Some("zstd".to_owned());
    z.create_pool(&spec, now()).unwrap();
    assert_eq!(z.pool("tank").unwrap().size, 2 * 4_000_787_030_016);
    assert_eq!(z.dataset("tank").unwrap().compression.as_deref(), Some("zstd"));
    let mut bad = mirror_spec("bad");
    bad.vdevs = vec![VdevSpec { type_: VdevSpecType::Mirror, devices: vec!["c1t4d0".to_owned()] }];
    assert!(z.create_pool(&bad, now()).is_err());
    let mut missing = mirror_spec("gone");
    missing.vdevs = vec![VdevSpec { type_: VdevSpecType::Stripe, devices: vec!["c9t9d9".to_owned()] }];
    assert!(z.create_pool(&missing, now()).is_err());
}

#[test]
fn fake_create_dataset_makes_parents() {
    let mut z = FakeZfs::typical(now());
    z.create_pool(&mirror_spec("tank"), now()).unwrap();
    let ds = DatasetSpec {
        name: "tank/vms/disk0".to_owned(),
        kind: DatasetKind::Volume,
        volsize: Some(1 << 30),
        sparse: true,
        create_parents: true,
        properties: vec![("volblocksize".to_owned(), "16K".to_owned())],
    };
    z.create_dataset(&ds, now()).unwrap();
    assert!(z.dataset("tank/vms").is_ok());
    let d = z.dataset("tank/vms/disk0").unwrap();
    assert_eq!(d.volsize, Some(1 << 30));
    assert_eq!(d.referenced, 0);
    assert_eq!(d.volblocksize, Some(16384));
    assert!(z.create_dataset(&ds, now()).is_err());
    let orphan = DatasetSpec { name: "tank/x/y".to_owned(), create_parents: false, ..ds.clone() };
    assert!(z.create_dataset(&orphan, now()).is_err());
    let bare = DatasetSpec { name: "lonely".to_owned(), ..ds };
    assert!(z.create_dataset(&bare, now()).is_err());
}

#[test]
fn create_pool_builds_the_expected_command() {
    let spec = PoolSpec {
        name: "tank".to_owned(),
        vdevs: vec![
            VdevSpec { type_: VdevSpecType::Log, devices: vec!["c2t0d0".to_owned()] },
            VdevSpec { type_: VdevSpecType::Mirror, devices: vec!["c1t1d0".to_owned(), "c1t2d0".to_owned()] },
            VdevSpec { type_: VdevSpecType::Mirror, devices: vec!["c1t3d0".to_owned(), "c1t4d0".to_owned()] },
        ],
        ashift: None,
        compression: None,
        force: true,
        root_properties: vec![("nightshade.systems:mandrake-id".to_owned(), "abc".to_owned())],
    };
    assert_eq!(
        create_pool_command(&spec).display(),
        "pfexec zpool create -f -o ashift=12 -O compression=lz4 -O nightshade.systems:mandrake-id=abc \
         tank mirror c1t1d0 c1t2d0 mirror c1t3d0 c1t4d0 log c2t0d0"
    );
}

#[test]
fn dataset_and_snapshot_commands() {
    let spec = DatasetSpec {
        name: "tank/vms/disk0".to_owned(),
        kind: DatasetKind::Volume,
        volsize: Some(1024),
        sparse: true,
        create_parents: true,
        properties: vec![("volblocksize".to_owned(), "8192".to_owned())],
    };
    let lines = vec![
        create_dataset_command(&spec).display(),
        set_properties_command("tank/a", &vec![("quota".to_owned(), "10G".to_owned())]).unwrap().display(),
        flagged_command("zfs", "destroy", "-r", true, "tank/a").display(),
        snapshot_command("tank/a", "s1", false).display(),
        flagged_command("zfs", "rollback", "-r", true, "tank/a@s1").display(),
        list_snapshots_command(Some("tank/a"), false).display(),
        list_snapshots_command(Some("tank"), true).display(),
    ];
    assert_eq!(
        lines,
        vec![
            "pfexec zfs create -p -o volblocksize=8192 -s -V 1024 tank/vms/disk0",
            "pfexec zfs set quota=10G tank/a",
            "pfexec zfs destroy -r tank/a",
            "pfexec zfs snapshot tank/a@s1",
            "pfexec zfs rollback -r tank/a@s1",
            "zfs list -Hp -t snapshot -s creation -o name,used,referenced,creation,clones,nightshade.systems:mandrake-id -d 1 tank/a",
            "zfs list -Hp -t snapshot -s creation -o name,used,referenced,creation,clones,nightshade.systems:mandrake-id -r tank",
        ]
    );
    assert!(set_properties_command("tank/a", &vec![]).is_none());
}

fn later(secs: i64) -> Timestamp {
    Timestamp::from_unix(1_756_728_000 + secs).unwrap()
}

#[test]
fn create_snapshot_clone_rollback_and_destroy() {
    let mut z = FakeZfs::typical(now());
    z.create_pool(&mirror_spec("tank"), now()).unwrap_or_else(|e| panic!("{e:?}"));
    assert_eq!(z.dataset("tank").ok().and_then(|d| d.mandrake_id.clone()).as_deref(), Some("id-1"));
    // Reusing a disk without force is refused.
    assert_eq!(
        z.create_pool(&PoolSpec { name: "other".to_owned(), ..mirror_spec("tank") }, now()).err().map(|e| e.kind()),
        Some(FailureKind::Invalid)
    );

    let ds = DatasetSpec {
        name: "tank/vms/disk0".to_owned(),
        kind: DatasetKind::Volume,
        volsize: Some(1 << 30),
        sparse: true,
        create_parents: true,
        properties: vec![],
    };
    z.create_dataset(&ds, now()).unwrap_or_else(|e| panic!("{e:?}"));
    assert!(z.dataset("tank/vms").is_ok());
    z.create_snapshot("tank/vms/disk0", "s1", false, now()).unwrap_or_else(|e| panic!("{e:?}"));
    z.clone_snapshot("tank/vms/disk0@s1", "tank/vms/disk1", now()).unwrap_or_else(|e| panic!("{e:?}"));
    assert_eq!(z.destroy_snapshot("tank/vms/disk0@s1").err().map(|e| e.kind()), Some(FailureKind::Conflict));
    assert_eq!(z.destroy_dataset("tank/vms", false).err().map(|e| e.kind()), Some(FailureKind::Conflict));
    z.destroy_dataset("tank/vms/disk1", false).unwrap_or_else(|e| panic!("{e:?}"));
    // The clone is gone and, as in real ZFS, its origin no longer lists it.
    assert!(z.snapshot("tank/vms/disk0@s1").unwrap().clones.is_empty());
    z.set_properties("tank/vms/disk0", &vec![("volsize".to_owned(), "1".to_owned())]).err().expect("shrink refused");
    z.scrub("tank", false, now()).unwrap_or_else(|e| panic!("{e:?}"));
    assert_eq!(z.scrub("tank", false, now()).err().map(|e| e.kind()), Some(FailureKind::Conflict));
    z.finish_scrub("tank", now());
    assert_eq!(z.pool("tank").ok().and_then(|p| p.scan.as_ref()).map(|s| s.state), Some(ScanState::Finished));
    z.destroy_snapshot("tank/vms/disk0@s1").unwrap_or_else(|e| panic!("{e:?}"));
    z.destroy_pool("tank").unwrap_or_else(|e| panic!("{e:?}"));
    assert!(z.dataset("tank/vms/disk0").is_err());
}

#[test]
fn fake_clone_records_its_origin() {
    let mut z = FakeZfs::typical(now());
    z.create_snapshot("rpool/mandrake", "base", true, now()).unwrap();
    let names: Vec<_> = z.snapshots().iter().map(|s| s.name.clone()).collect();
    assert_eq!(names, vec!["rpool/mandrake/var@base", "rpool/mandrake@base"]);
    let e = z.create_snapshot("rpool/mandrake", "base", false, now()).err().unwrap();
    assert!(matches!(&e, ZfsError::Command(c) if c.stderr() == "cannot create snapshot 'rpool/mandrake@base': dataset already exists"));
    assert_eq!(z.create_snapshot("rpool/nope", "x", false, now()).err().map(|e| e.kind()), Some(FailureKind::NotFound));
    z.clone_snapshot("rpool/mandrake@base", "rpool/copy", now()).unwrap();
    let c = z.dataset("rpool/copy").unwrap();
    assert_eq!(c.origin.as_deref(), Some("rpool/mandrake@base"));
    assert_eq!(c.referenced, 98304);
    assert_eq!(c.kind, DatasetKind::Filesystem);
    assert_eq!(z.snapshot("rpool/mandrake@base").unwrap().clones, vec!["rpool/copy".to_owned()]);
    assert_eq!(
        z.clone_snapshot("rpool/mandrake@base", "rpool/copy", now()).err().map(|e| e.kind()),
        Some(FailureKind::Exists)
    );
    assert_eq!(z.clone_snapshot("rpool/x@y", "rpool/other", now()).err().map(|e| e.kind()), Some(FailureKind::NotFound));
}

#[test]
fn fake_destroy_reports_children_and_goes_recursive() {
    let mut z = FakeZfs::typical(now());
    let e = z.destroy_dataset("rpool/mandrake", false).err().unwrap();
    assert!(matches!(&e, ZfsError::Command(c) if c.stderr()
        == "cannot destroy 'rpool/mandrake': filesystem has children\nuse '-r' to destroy the following datasets:\nrpool/mandrake/var"));
    z.create_snapshot("rpool/mandrake/var", "s", false, now()).unwrap();
    z.create_snapshot("rpool/mandrake", "t", false, now()).unwrap();
    z.destroy_dataset("rpool/mandrake", true).unwrap();
    assert!(z.dataset("rpool/mandrake").is_err());
    assert!(z.dataset("rpool/mandrake/var").is_err());
    assert!(z.dataset("rpool/ROOT").is_ok());
    assert!(z.snapshots().is_empty());
    assert_eq!(z.destroy_dataset("rpool/mandrake", true).err().map(|e| e.kind()), Some(FailureKind::NotFound));
}

#[test]
fn fake_rollback_discards_only_with_r() {
    let mut z = FakeZfs::typical(now());
    z.create_snapshot("rpool/ROOT", "a", false, now()).unwrap();
    z.create_snapshot("rpool/ROOT", "b", false, later(10)).unwrap();
    z.create_snapshot("rpool/ROOT", "c", false, later(20)).unwrap();
    let e = z.rollback("rpool/ROOT@a", false).err().unwrap();
    assert_eq!(e.kind(), FailureKind::Conflict);
    assert!(matches!(&e, ZfsError::Command(c) if c.stderr()
        == "cannot rollback to 'rpool/ROOT@a': more recent snapshots exist\nuse '-r' to force deletion of the following snapshots:\nrpool/ROOT@b\nrpool/ROOT@c"));
    z.rollback("rpool/ROOT@b", true).unwrap();
    let names: Vec<_> = z.snapshots().iter().map(|s| s.name.clone()).collect();
    assert_eq!(names, vec!["rpool/ROOT@a", "rpool/ROOT@b"]);
    z.rollback("rpool/ROOT@b", false).unwrap();
    assert_eq!(z.rollback("rpool/ROOT@zz", true).err().map(|e| e.kind()), Some(FailureKind::NotFound));
}

#[test]
fn fake_set_properties_and_scrub_cancel() {
    let mut z = FakeZfs::typical(now());
    z.set_properties("rpool/mandrake", &vec![("quota".to_owned(), "10G".to_owned()), ("atime".to_owned(), "off".to_owned())])
        .unwrap();
    let d = z.dataset("rpool/mandrake").unwrap();
    assert_eq!(d.quota, Some(10 << 30));
    assert_eq!(d.atime, Some(false));
    z.create_snapshot("rpool/mandrake", "s", false, now()).unwrap();
    z.set_properties("rpool/mandrake@s", &vec![(ID_PROPERTY.to_owned(), "snap-id".to_owned())]).unwrap();
    assert_eq!(z.snapshot("rpool/mandrake@s").unwrap().mandrake_id.as_deref(), Some("snap-id"));
    assert_eq!(z.set_properties("nope", &vec![]).err().map(|e| e.kind()), Some(FailureKind::NotFound));
    assert_eq!(z.scrub("rpool", true, now()).err().map(|e| e.kind()), Some(FailureKind::Conflict));
    z.scrub("rpool", false, now()).unwrap();
    assert_eq!(z.pool("rpool").unwrap().scan.as_ref().unwrap().function, ScanFunction::Scrub);
    z.scrub("rpool", true, later(5)).unwrap();
    let scan = z.pool("rpool").unwrap().scan.clone().unwrap();
    assert_eq!(scan.state, ScanState::Canceled);
    assert_eq!(scan.finished_at, Some(later(5)));
    assert_eq!(z.scrub("nope", false, now()).err().map(|e| e.kind()), Some(FailureKind::NotFound));
    assert_eq!(z.destroy_pool("nope").err().map(|e| e.kind()), Some(FailureKind::NotFound));
}

#[test]
fn fake_lists_snapshots_oldest_first() {
    let mut z = FakeZfs::typical(now());
    z.create_snapshot("rpool/mandrake", "b", true, later(10)).unwrap();
    z.create_snapshot("rpool/mandrake", "a", false, later(20)).unwrap();
    z.create_snapshot("rpool/ROOT", "x", false, now()).unwrap();
    let names = |v: Vec<mandrake::zfs::types::SnapshotInfo>| v.into_iter().map(|s| s.name).collect::<Vec<_>>();
    assert_eq!(
        names(z.list_snapshots(None, false)),
        vec!["rpool/ROOT@x", "rpool/mandrake/var@b", "rpool/mandrake@b", "rpool/mandrake@a"]
    );
    assert_eq!(names(z.list_snapshots(Some("rpool/mandrake"), false)), vec!["rpool/mandrake@b", "rpool/mandrake@a"]);
    assert_eq!(
        names(z.list_snapshots(Some("rpool/mandrake"), true)),
        vec!["rpool/mandrake/var@b", "rpool/mandrake@b", "rpool/mandrake@a"]
    );
    assert!(z.list_snapshots(Some("rpool/nope"), true).is_empty());
}

#[test]
fn read_commands_are_exact() {
    let lines = vec![
        zpool_list_command(None).display(),
        zpool_list_command(Some("tank")).display(),
        zpool_status_command("tank").display(),
        zfs_list_command(None).display(),
        zfs_list_command(Some("tank/a")).display(),
        zfs_snapshot_command("tank/a@s1").display(),
        clone_command("tank/a@s1", "tank/b").display(),
        diskinfo_command().display(),
    ];
    assert_eq!(
        lines,
        vec![
            "zpool list -Hp -o name,size,allocated,free,fragmentation,capacity,dedupratio,health",
            "zpool list -Hp -o name,size,allocated,free,fragmentation,capacity,dedupratio,health tank",
            "zpool status tank",
            "zfs list -Hp -t filesystem,volume -s name -o name,type,mountpoint,mounted,used,available,referenced,logicalused,quota,reservation,compression,compressratio,atime,recordsize,volsize,volblocksize,origin,creation,nightshade.systems:mandrake-id",
            "zfs list -Hp -t filesystem,volume -o name,type,mountpoint,mounted,used,available,referenced,logicalused,quota,reservation,compression,compressratio,atime,recordsize,volsize,volblocksize,origin,creation,nightshade.systems:mandrake-id tank/a",
            "zfs list -Hp -t snapshot -o name,used,referenced,creation,clones,nightshade.systems:mandrake-id tank/a@s1",
            "pfexec zfs clone tank/a@s1 tank/b",
            "diskinfo -Hp",
        ]
    );
    assert!(matches!(first_listed(Vec::<u8>::new(), "tank/x"), Err(ZfsError::NotFound(n)) if n == "tank/x"));
    assert_eq!(first_listed(vec![7u8, 8], "x").unwrap(), 7);
}

#[test]
fn pools_join_list_and_status() {
    let rows = zpool_list(ZPOOL_LIST).unwrap();
    let tank = rows.into_iter().find(|r| r.name == "tank").unwrap();
    let p = pool_info(tank, zpool_status(STATUS_MIRROR).unwrap());
    assert_eq!(p.name, "tank");
    assert_eq!(p.size, 3985729650688);
    assert_eq!(p.capacity, Some(12));
    assert_eq!(p.vdevs.children[0].name, "mirror-0");
    assert!(p.scan.is_some());
}
