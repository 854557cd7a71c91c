use mandrake::common::api::Metadata;
use mandrake::common::id::Id;
use mandrake::common::network::{LinkKind, LinkState};
use mandrake::common::role::Role;
use mandrake::common::storage::{PoolHealth, ScanFunction, ScanState, ScanStatus};
use mandrake::common::timestamp::Timestamp;
use mandrake::common::vm::Bootrom;
use mandrake::common::zone::ZoneState;
use mandrake::ctl::args::{DatasetCreateArgs, DatasetUpdateArgs, MetadataArgs, Paging};
use mandrake::ctl::bodies::{vm_create_body, zones_request, VmCreateArgs, ZonesCmd};
use mandrake::ctl::calls::{
    images_request, metadata_of, sources_request, stdin_wanted, users_request, ImagesCmd, SourcesCmd, UsersCmd,
};
use mandrake::ctl::admin::{
    audit_request, audit_row, job_pairs, AuditRecord, jobs_request, system_request, JobRecord, token_row, tokens_request, AuditList, JobsCmd, TokenRecord, TokensCmd,
};
use mandrake::ctl::args::SystemCmd;
use mandrake::ctl::client::Error;
use mandrake::ctl::datasets::{dataset_row, datasets_request, DatasetRecord, DatasetsCmd};
use mandrake::common::api::{AuditResult, JobState, ObjectRef};
use mandrake::common::actor::{Actor, Via};
use mandrake::common::storage::DatasetKind;
use mandrake::ctl::flags::PasswordArgs;
use mandrake::ctl::request::{more_line, next_page, page_at, Request};
use mandrake::ctl::output::{kv_text, table_text};
use mandrake::ctl::shown::{
    VmDiskRecord, link_pairs, pool_pairs, pool_row, pool_rows, snapshot_row, snapshot_rows, vm_pairs, LinkRecord, PoolRecord,
    SnapshotRecord, VmRecord,
};
use mandrake::ctl::storage::{pools_request, snapshots_request, PoolsCmd, SnapshotsCmd};
use mandrake::ctl::vms::{
    vm_row, vm_snapshot_row, vms_request, VmCdromCmd, VmDiskCmd, VmSnapshotCmd, VmSnapshotRecord, VmsCmd,
};
use mandrake::common::zone::{ZoneBrand, ZoneNic};
use mandrake::common::image::{ImageState, ImageType};
use mandrake::ctl::records::{
    catalogue_row, image_pairs, image_row, zone_pairs, zone_row, CatalogueRecord, ImageRecord, ZoneRecord,
};
use mandrake::common::network::{AddressFamily, AddressKind, RouteKind};
use mandrake::ctl::network::{
    address_row, link_row, network_request, route_row, AddressRecord, AddressesCmd, AggrsCmd, LinksCmd, NetworkCmd,
    RouteRecord, RoutesCmd, VnicsCmd,
};

const ID: &str = "0192a1b2-c3d4-7e5f-8a9b-0c1d2e3f4a70";

fn id() -> Id {
    Id::parse(ID).unwrap()
}

fn no_metadata() -> MetadataArgs {
    MetadataArgs { display_name: None, description: None, tags: Vec::new(), notes: None }
}

fn no_paging() -> Paging {
    Paging { limit: None, all: false, cursor: None }
}

fn config_message(r: Result<Request, Error>) -> String {
    match r {
        Err(Error::Config(m)) => m,
        other => panic!("expected a configuration error, got {other:?}"),
    }
}

fn pairs(v: &[(&str, &str)]) -> Vec<(String, String)> {
    v.iter().map(|(k, x)| (k.to_string(), x.to_string())).collect()
}

#[test]
fn a_source_is_added_enabled_without_a_key() {
    let r = sources_request(&SourcesCmd::Add {
        name: "x".to_owned(),
        url: "u".to_owned(),
        public_key: None,
        disabled: false,
    })
    .unwrap();
    assert_eq!(r.method, "POST");
    assert_eq!(r.path, "/images/sources");
    assert!(r.query.is_empty());
    assert_eq!(r.body.as_deref(), Some(r#"{"enabled":true,"name":"x","public_key":null,"url":"u"}"#));
}

#[test]
fn a_source_update_sends_only_what_changes() {
    let update = |no_key: bool, enable: bool, disable: bool| SourcesCmd::Update {
        id: id(),
        name: None,
        url: None,
        public_key: None,
        no_key,
        enable,
        disable,
    };
    assert_eq!(config_message(sources_request(&update(false, false, false))), "nothing to update");
    let r = sources_request(&update(true, false, true)).unwrap();
    assert_eq!(r.method, "PATCH");
    assert_eq!(r.path, format!("/images/sources/{ID}"));
    assert_eq!(r.body.as_deref(), Some(r#"{"enabled":false,"public_key":null}"#));
    let r = sources_request(&SourcesCmd::Refresh { id: id() }).unwrap();
    assert_eq!((r.method.as_str(), r.path), ("POST", format!("/images/sources/{ID}/refresh")));
}

#[test]
fn users_are_enabled_and_disabled_by_one_flag() {
    let update = |disable: bool, enable: bool| UsersCmd::Update {
        id: id(),
        role: None,
        display_name: None,
        disable,
        enable,
    };
    let r = users_request(&update(false, true), &[]).unwrap();
    assert_eq!(r.method, "PATCH");
    assert_eq!(r.path, format!("/users/{ID}"));
    assert_eq!(r.body.as_deref(), Some(r#"{"disabled":false}"#));
    let r = users_request(&update(true, false), &[]).unwrap();
    assert_eq!(r.body.as_deref(), Some(r#"{"disabled":true}"#));
    assert_eq!(config_message(users_request(&update(false, false), &[])), "nothing to update");
}

#[test]
fn a_user_is_created_with_the_password_from_stdin() {
    let create = |password_stdin: bool| UsersCmd::Create {
        username: "bob".to_owned(),
        role: Role::Operator,
        display_name: None,
        password: PasswordArgs { password: None, password_stdin },
    };
    let r = users_request(&create(true), &["s3cret".to_owned()]).unwrap();
    assert_eq!((r.method.as_str(), r.path.as_str()), ("POST", "/users"));
    assert_eq!(
        r.body.as_deref(),
        Some(r#"{"display_name":null,"password":"s3cret","role":"operator","username":"bob"}"#)
    );
    assert_eq!(config_message(users_request(&create(true), &[])), "no password on stdin");
    assert_eq!(
        config_message(users_request(&create(false), &[])),
        "give the password with --password, MANDRAKE_PASSWORD, or --password-stdin"
    );
}

#[test]
fn metadata_is_sent_only_when_a_flag_is_given() {
    assert_eq!(metadata_of(&no_metadata()), None);
    let m = MetadataArgs {
        display_name: Some("D".to_owned()),
        description: None,
        tags: vec!["a".to_owned(), "b".to_owned()],
        notes: None,
    };
    assert_eq!(metadata_of(&m).as_deref(), Some(r#"{"display_name":"D","tags":["a","b"]}"#));
}

#[test]
fn image_commands_pick_their_calls() {
    let r = images_request(&ImagesCmd::List {
        type_: Some("zone".to_owned()),
        state: None,
        paging: Paging { limit: Some(10), all: false, cursor: None },
    })
    .unwrap();
    assert_eq!((r.method.as_str(), r.path.as_str()), ("GET", "/images"));
    assert_eq!(r.query, pairs(&[("type", "zone"), ("limit", "10")]));
    let import = ImagesCmd::Import {
        name: "n".to_owned(),
        version: "1".to_owned(),
        source: None,
        url: None,
        sha256: None,
        type_: None,
        pool: None,
        metadata: no_metadata(),
    };
    assert_eq!(config_message(images_request(&import)), "give --source, or --url with --sha256 and --type");
    let r = images_request(&ImagesCmd::Delete { id: id() }).unwrap();
    assert_eq!((r.method.as_str(), r.path), ("DELETE", format!("/images/{ID}")));
}

#[test]
fn a_zone_delete_can_purge() {
    let r = zones_request(&ZonesCmd::Delete { id: id(), purge: true }).unwrap();
    assert_eq!((r.method.as_str(), r.path), ("DELETE", format!("/zones/{ID}?purge=true")));
    assert!(r.body.is_none());
    let r = zones_request(&ZonesCmd::Delete { id: id(), purge: false }).unwrap();
    assert_eq!(r.path, format!("/zones/{ID}"));
    let r = zones_request(&ZonesCmd::Stop { id: id(), force: true }).unwrap();
    assert_eq!(r.body.as_deref(), Some(r#"{"force":true}"#));
}

fn vm_args(image: Option<Id>, boot_size: Option<&str>) -> VmCreateArgs {
    VmCreateArgs {
        name: "vm1".to_owned(),
        vcpus: 2,
        memory: "1G".to_owned(),
        bootrom: None,
        no_acpi: false,
        pool: None,
        image,
        boot_size: boot_size.map(|s| s.to_owned()),
        disks: Vec::new(),
        cdroms: Vec::new(),
        nics: Vec::new(),
        no_vnc: false,
        no_autoboot: false,
        no_start: false,
        metadata: no_metadata(),
    }
}

#[test]
fn a_vm_boot_disk_needs_an_image_or_a_size() {
    match vm_create_body(&vm_args(None, None)) {
        Err(Error::Config(m)) => assert_eq!(m, "the boot disk needs --image or --boot-size"),
        other => panic!("{other:?}"),
    }
    assert_eq!(
        vm_create_body(&vm_args(None, Some("10G"))).unwrap(),
        r#"{"acpi":true,"autoboot":true,"cdroms":[],"disks":[{"boot":true,"size_bytes":10737418240}],"memory_bytes":1073741824,"name":"vm1","nics":[],"start":true,"vcpus":2,"vnc":true}"#
    );
    match vm_create_body(&vm_args(None, Some("lots"))) {
        Err(Error::Config(m)) => assert_eq!(m, "not a size: lots"),
        other => panic!("{other:?}"),
    }
}

#[test]
fn a_pool_is_created_from_vdev_flags() {
    let r = pools_request(&PoolsCmd::Create {
        name: "tank".to_owned(),
        vdevs: vec!["mirror:c1t1d0,c1t2d0".to_owned()],
        ashift: None,
        compression: None,
        force: false,
        metadata: no_metadata(),
    })
    .unwrap();
    assert_eq!((r.method.as_str(), r.path.as_str()), ("POST", "/storage/pools"));
    assert_eq!(
        r.body.as_deref(),
        Some(r#"{"ashift":null,"compression":null,"force":false,"metadata":null,"name":"tank","vdevs":[{"devices":["c1t1d0","c1t2d0"],"type":"mirror"}]}"#)
    );
    let r = pools_request(&PoolsCmd::Scrub { id: id(), stop: true }).unwrap();
    assert_eq!((r.method.as_str(), r.path), ("DELETE", format!("/storage/pools/{ID}/scrub")));
    let r = pools_request(&PoolsCmd::Update { id: id(), metadata: no_metadata() });
    assert_eq!(config_message(r), "nothing to update");
}

#[test]
fn snapshot_commands_pick_their_calls() {
    let r = snapshots_request(&SnapshotsCmd::List {
        dataset: Some("tank/fs".to_owned()),
        recursive: true,
        paging: no_paging(),
    })
    .unwrap();
    assert_eq!(r.path, "/storage/snapshots");
    assert_eq!(r.query, pairs(&[("dataset", "tank/fs"), ("recursive", "true")]));
    let r = snapshots_request(&SnapshotsCmd::Rollback { id: id(), discard_newer: false }).unwrap();
    assert_eq!(r.path, format!("/storage/snapshots/{ID}/rollback"));
    assert_eq!(r.body.as_deref(), Some(r#"{"discard_newer":false}"#));
}

fn dataset_args(name: &str) -> DatasetCreateArgs {
    DatasetCreateArgs {
        name: name.to_owned(),
        size: None,
        sparse: false,
        volblocksize: None,
        compression: None,
        quota: None,
        reservation: None,
        mountpoint: None,
        recordsize: None,
        no_atime: false,
        parents: false,
        metadata: no_metadata(),
    }
}

#[test]
fn a_dataset_with_a_size_is_a_volume() {
    let mut a = dataset_args("tank/v");
    a.size = Some("10G".to_owned());
    a.sparse = true;
    let r = datasets_request(&DatasetsCmd::Create(a)).unwrap();
    assert_eq!((r.method.as_str(), r.path.as_str()), ("POST", "/storage/datasets"));
    assert_eq!(
        r.body.as_deref(),
        Some(r#"{"create_parents":false,"kind":"volume","name":"tank/v","sparse":true,"volsize_bytes":10737418240}"#)
    );
    let mut a = dataset_args("tank/fs");
    a.no_atime = true;
    a.parents = true;
    a.quota = Some("1G".to_owned());
    let r = datasets_request(&DatasetsCmd::Create(a)).unwrap();
    assert_eq!(
        r.body.as_deref(),
        Some(r#"{"atime":false,"create_parents":true,"kind":"filesystem","name":"tank/fs","quota_bytes":1073741824}"#)
    );
    let mut a = dataset_args("tank/fs");
    a.recordsize = Some("lots".to_owned());
    assert_eq!(config_message(datasets_request(&DatasetsCmd::Create(a))), "not a size: lots");
}

#[test]
fn a_dataset_update_can_clear_a_quota() {
    let update = |quota: Option<&str>| DatasetUpdateArgs {
        id: id(),
        size: None,
        compression: None,
        quota: quota.map(|q| q.to_owned()),
        reservation: None,
        mountpoint: None,
        atime: None,
        metadata: no_metadata(),
    };
    let r = datasets_request(&DatasetsCmd::Update(update(Some("none")))).unwrap();
    assert_eq!((r.method.as_str(), r.path), ("PATCH", format!("/storage/datasets/{ID}")));
    assert_eq!(r.body.as_deref(), Some(r#"{"quota_bytes":null}"#));
    assert_eq!(config_message(datasets_request(&DatasetsCmd::Update(update(None)))), "nothing to update");
    let r = datasets_request(&DatasetsCmd::Destroy { id: id(), recursive: true }).unwrap();
    assert_eq!(r.path, format!("/storage/datasets/{ID}?recursive=true"));
}

fn pool(protected: bool, scan: Option<ScanStatus>) -> PoolRecord {
    PoolRecord {
        id: id(),
        name: "rpool".to_owned(),
        health: PoolHealth::Online,
        size_bytes: 3 * 1024 * 1024 * 1024,
        allocated_bytes: 512,
        free_bytes: 1536,
        fragmentation_percent: None,
        capacity_percent: Some(5),
        protected,
        metadata: None,
        scan,
        status_text: None,
    }
}

fn finished_scrub() -> ScanStatus {
    ScanStatus {
        function: ScanFunction::Scrub,
        state: ScanState::Finished,
        progress: None,
        started_at: None,
        finished_at: None,
        errors: Some(0),
        rate_bytes_per_second: None,
        summary: "scrub repaired 0B".to_owned(),
    }
}

#[test]
fn a_pool_row_marks_protection_and_the_scan() {
    let row = pool_row(&pool(true, Some(finished_scrub())));
    assert_eq!(
        row,
        vec![ID, "rpool (protected)", "ONLINE", "3.0 GiB", "512 B", "1.5 KiB", "5%", "-", "scrub finished"]
    );
    let rows = pool_rows(&[pool(false, None)]);
    assert_eq!(rows.len(), 1);
    assert_eq!(rows[0][1], "rpool");
    assert_eq!(rows[0][8], "-");
    let ps = pool_pairs(&pool(true, Some(finished_scrub())));
    assert_eq!(ps.last().unwrap(), &("scan".to_owned(), "scrub repaired 0B".to_owned()));
    assert_eq!(ps[8], ("protected".to_owned(), "true".to_owned()));
}

#[test]
fn a_snapshot_row_shows_its_clones() {
    let s = SnapshotRecord {
        id: id(),
        name: "tank/fs@a".to_owned(),
        used_bytes: 0,
        referenced_bytes: 1536,
        created_at: Timestamp::from_unix(0).unwrap(),
        clones: vec!["tank/c1".to_owned(), "tank/c2".to_owned()],
    };
    assert_eq!(
        snapshot_row(&s),
        vec![ID, "tank/fs@a", "0 B", "1.5 KiB", "1970-01-01T00:00:00Z", "tank/c1,tank/c2"]
    );
    let mut t = s.clone();
    t.clones.clear();
    let rows = snapshot_rows(&[s, t]);
    assert_eq!(rows[1][5], "-");
}

#[test]
fn vm_lines_name_every_setting() {
    let v = VmRecord {
        id: id(),
        name: "vm1".to_owned(),
        state: ZoneState::Installed,
        vcpus: 2,
        memory_bytes: 3 * 1024 * 1024 * 1024,
        bootrom: Bootrom::Uefi,
        acpi: true,
        disks: Vec::new(),
        cdroms: Vec::new(),
        nics: Vec::new(),
        vnc: false,
        autoboot: true,
        pool: None,
        dataset: None,
        zonepath: "/zones/vm1".to_owned(),
        image_id: None,
        created_at: None,
        metadata: Some(Metadata {
            display_name: Some("web".to_owned()),
            description: None,
            tags: None,
            notes: None,
        }),
    };
    assert_eq!(
        vm_pairs(&v),
        pairs(&[
            ("id", ID),
            ("name", "vm1"),
            ("state", "installed"),
            ("vcpus", "2"),
            ("memory", "3.0 GiB"),
            ("bootrom", "uefi"),
            ("acpi", "true"),
            ("vnc", "off"),
            ("autoboot", "true"),
            ("image", "-"),
            ("pool", "-"),
            ("dataset", "-"),
            ("zonepath", "/zones/vm1"),
            ("display name", "web"),
        ])
    );
}

#[test]
fn link_lines_add_what_the_link_has() {
    let l = LinkRecord {
        id: id(),
        name: "e1000g0".to_owned(),
        kind: LinkKind::Phys,
        state: LinkState::Up,
        over: Vec::new(),
        mtu: Some(1500),
        mac: None,
        protected: false,
        mac_mode: None,
        vid: None,
        speed_mbps: Some(1000),
        duplex: None,
        device: Some("e1000g0".to_owned()),
        media: None,
        aggr: None,
        zone: None,
        metadata: None,
    };
    assert_eq!(
        link_pairs(&l),
        pairs(&[
            ("id", ID),
            ("name", "e1000g0"),
            ("kind", "phys"),
            ("state", "up"),
            ("over", "-"),
            ("mtu", "1500"),
            ("mac", "-"),
            ("protected", "false"),
            ("speed", "1000 Mb/s"),
            ("device", "e1000g0"),
        ])
    );
}

#[test]
fn vm_disk_commands_pick_their_calls() {
    let add = |size: Option<&str>, image: Option<Id>| {
        vms_request(&VmsCmd::Disk(VmDiskCmd::Add { id: id(), size: size.map(|s| s.to_owned()), image }))
    };
    assert_eq!(config_message(add(None, None)), "--size or --image");
    let r = add(Some("4G"), None).unwrap();
    assert_eq!((r.method.as_str(), r.path), ("POST", format!("/vms/{ID}/disks")));
    assert_eq!(r.body.as_deref(), Some(r#"{"size_bytes":4294967296}"#));
    let r = add(Some("4G"), Some(id())).unwrap();
    assert_eq!(r.body, Some(format!(r#"{{"image_id":"{ID}"}}"#)));
    let r = vms_request(&VmsCmd::Disk(VmDiskCmd::Remove { id: id(), index: 2, purge: true })).unwrap();
    assert_eq!((r.method.as_str(), r.path), ("DELETE", format!("/vms/{ID}/disks/2?purge=true")));
    let r = vms_request(&VmsCmd::Disk(VmDiskCmd::Resize { id: id(), index: 1, size: "20G".to_owned() })).unwrap();
    assert_eq!((r.method.as_str(), r.path), ("PATCH", format!("/vms/{ID}/disks/1")));
    assert_eq!(r.body.as_deref(), Some(r#"{"size_bytes":21474836480}"#));
}

#[test]
fn vm_commands_pick_their_calls() {
    let r = vms_request(&VmsCmd::Stop { id: id(), force: false }).unwrap();
    assert_eq!((r.method.as_str(), r.path), ("POST", format!("/vms/{ID}/stop")));
    assert_eq!(r.body.as_deref(), Some(r#"{"force":false}"#));
    let r = vms_request(&VmsCmd::Delete { id: id(), purge: false }).unwrap();
    assert_eq!(r.path, format!("/vms/{ID}"));
    let r = vms_request(&VmsCmd::Cdrom(VmCdromCmd::Detach { id: id(), index: 0 })).unwrap();
    assert_eq!((r.method.as_str(), r.path), ("DELETE", format!("/vms/{ID}/cdroms/0")));
    let r = vms_request(&VmsCmd::Snapshot(VmSnapshotCmd::Rollback { id: id(), name: "before".to_owned() })).unwrap();
    assert_eq!((r.method.as_str(), r.path), ("POST", format!("/vms/{ID}/snapshots/before/rollback")));
    let r = vms_request(&VmsCmd::Snapshot(VmSnapshotCmd::Create {
        id: id(),
        name: "before".to_owned(),
        metadata: no_metadata(),
    }))
    .unwrap();
    assert_eq!(r.body.as_deref(), Some(r#"{"name":"before"}"#));
    let r = vms_request(&VmsCmd::Create(vm_args(None, None)));
    assert_eq!(config_message(r), "the boot disk needs --image or --boot-size");
}

#[test]
fn a_vm_row_lists_disks_and_nics() {
    let disk = |index: u32, size_bytes: u64| VmDiskRecord {
        index,
        dataset: format!("rpool/vm1/disk{index}"),
        device: None,
        size_bytes,
        boot: index == 0,
        image_id: None,
    };
    let v = VmRecord {
        id: id(),
        name: "vm1".to_owned(),
        state: ZoneState::Installed,
        vcpus: 4,
        memory_bytes: 3 * 1024 * 1024 * 1024,
        bootrom: Bootrom::Uefi,
        acpi: true,
        disks: vec![disk(0, 1536), disk(1, 512)],
        cdroms: Vec::new(),
        nics: vec![ZoneNic {
            name: "net0".to_owned(),
            over: "e1000g0".to_owned(),
            mac: None,
            vid: None,
            address: None,
            gateway: None,
        }],
        vnc: true,
        autoboot: false,
        pool: None,
        dataset: None,
        zonepath: "/zones/vm1".to_owned(),
        image_id: None,
        created_at: None,
        metadata: None,
    };
    assert_eq!(
        vm_row(&v),
        vec![ID, "vm1", "installed", "4", "3.0 GiB", "1.5 KiB,512 B", "net0@e1000g0", "on", "false"]
    );
    let s = VmSnapshotRecord {
        name: "before".to_owned(),
        created_at: Timestamp::from_unix(0).unwrap(),
        used_bytes: 512,
        id: id(),
    };
    assert_eq!(vm_snapshot_row(&s), vec!["before", "1970-01-01T00:00:00Z", "512 B", ID]);
}

#[test]
fn network_commands_pick_their_calls() {
    let r = network_request(&NetworkCmd::Aggrs(AggrsCmd::Create {
        name: "aggr0".to_owned(),
        ports: vec!["e1000g1".to_owned(), "e1000g2".to_owned()],
        policy: Some("L4".to_owned()),
        lacp: None,
        timer: None,
        metadata: no_metadata(),
    }))
    .unwrap();
    assert_eq!((r.method.as_str(), r.path.as_str()), ("POST", "/network/aggrs"));
    assert_eq!(
        r.body.as_deref(),
        Some(r#"{"lacp_mode":null,"lacp_timer":null,"metadata":null,"name":"aggr0","policy":"L4","ports":["e1000g1","e1000g2"]}"#)
    );
    let r = network_request(&NetworkCmd::Vnics(VnicsCmd::Create {
        name: "vnic0".to_owned(),
        over: "e1000g0".to_owned(),
        mac: None,
        vid: Some(12),
        mtu: None,
        metadata: no_metadata(),
    }))
    .unwrap();
    assert_eq!(
        r.body.as_deref(),
        Some(r#"{"mac":null,"metadata":null,"mtu":null,"name":"vnic0","over":"e1000g0","vid":12}"#)
    );
    let r = network_request(&NetworkCmd::Vnics(VnicsCmd::Delete { id: id() })).unwrap();
    assert_eq!((r.method.as_str(), r.path), ("DELETE", format!("/network/vnics/{ID}")));
    let r = network_request(&NetworkCmd::Addresses(AddressesCmd::Create {
        interface: "e1000g1".to_owned(),
        kind: "static".to_owned(),
        address: Some("10.0.0.5/24".to_owned()),
        alias: None,
        temporary: true,
        metadata: no_metadata(),
    }))
    .unwrap();
    assert_eq!(
        r.body.as_deref(),
        Some(r#"{"address":"10.0.0.5/24","alias":null,"interface":"e1000g1","kind":"static","metadata":null,"temporary":true}"#)
    );
    let r = network_request(&NetworkCmd::Routes(RoutesCmd::Create {
        destination: "default".to_owned(),
        gateway: "10.0.0.1".to_owned(),
    }))
    .unwrap();
    assert_eq!(r.body.as_deref(), Some(r#"{"destination":"default","gateway":"10.0.0.1"}"#));
    let r = network_request(&NetworkCmd::Links(LinksCmd::Update { id: id(), mtu: None, metadata: no_metadata() }));
    assert_eq!(config_message(r), "nothing to update");
    let r = network_request(&NetworkCmd::Links(LinksCmd::Update { id: id(), mtu: Some(9000), metadata: no_metadata() }))
        .unwrap();
    assert_eq!((r.method.as_str(), r.path), ("PATCH", format!("/network/links/{ID}")));
    assert_eq!(r.body.as_deref(), Some(r#"{"mtu":9000}"#));
}

#[test]
fn network_rows_mark_what_is_protected() {
    let l = LinkRecord {
        id: id(),
        name: "e1000g0".to_owned(),
        kind: LinkKind::Phys,
        state: LinkState::Up,
        over: Vec::new(),
        mtu: Some(1500),
        mac: Some("2:8:20:0:0:1".to_owned()),
        protected: true,
        mac_mode: None,
        vid: None,
        speed_mbps: None,
        duplex: None,
        device: None,
        media: None,
        aggr: None,
        zone: None,
        metadata: None,
    };
    assert_eq!(
        link_row(&l),
        vec![ID, "e1000g0 (protected)", "phys", "up", "-", "2:8:20:0:0:1", "-", "1500"]
    );
    let a = AddressRecord {
        id: id(),
        name: "e1000g0/v4".to_owned(),
        interface: "e1000g0".to_owned(),
        kind: AddressKind::Static,
        family: AddressFamily::Inet,
        address: Some("10.0.0.2/24".to_owned()),
        state: "ok".to_owned(),
        persistent: true,
        protected: true,
    };
    assert_eq!(
        address_row(&a),
        vec![ID, "e1000g0/v4 (management)", "10.0.0.2/24", "static", "inet", "ok", "true"]
    );
    let r = RouteRecord {
        id: id(),
        destination: "default".to_owned(),
        gateway: Some("10.0.0.1".to_owned()),
        family: AddressFamily::Inet,
        interface: None,
        kind: RouteKind::Static,
        persistent: false,
    };
    assert_eq!(route_row(&r), vec![ID, "default", "10.0.0.1", "inet", "-", "static", "false"]);
}

#[test]
fn a_password_change_reads_both_passwords_from_stdin() {
    let passwd = |current: Option<&str>, current_stdin: bool| UsersCmd::Passwd {
        id: id(),
        password: PasswordArgs { password: None, password_stdin: true },
        current: current.map(|c| c.to_owned()),
        current_stdin,
    };
    assert_eq!(stdin_wanted(&passwd(None, true)), 2);
    let lines = ["new".to_owned(), "old".to_owned()];
    let r = users_request(&passwd(None, true), &lines).unwrap();
    assert_eq!((r.method.as_str(), r.path), ("PUT", format!("/users/{ID}/password")));
    assert_eq!(r.body.as_deref(), Some(r#"{"current_password":"old","new_password":"new"}"#));
    assert_eq!(config_message(users_request(&passwd(None, true), &lines[..1])), "no current password on stdin");
    let r = users_request(&passwd(None, false), &lines[..1]).unwrap();
    assert_eq!(r.body.as_deref(), Some(r#"{"current_password":null,"new_password":"new"}"#));
    assert_eq!(stdin_wanted(&passwd(Some("old"), false)), 1);
}

#[test]
fn admin_commands_pick_their_calls() {
    let r = system_request(SystemCmd::Resources);
    assert_eq!((r.method.as_str(), r.path.as_str()), ("GET", "/system/resources"));
    let r = tokens_request(&TokensCmd::Create { name: "ci".to_owned(), user: None, expires_in: Some(-5) });
    assert_eq!((r.method.as_str(), r.path.as_str()), ("POST", "/tokens"));
    assert_eq!(r.body.as_deref(), Some(r#"{"expires_in_seconds":-5,"name":"ci","user_id":null}"#));
    let r = tokens_request(&TokensCmd::Create { name: "ci".to_owned(), user: Some(id()), expires_in: None });
    assert_eq!(r.body, Some(format!(r#"{{"expires_in_seconds":null,"name":"ci","user_id":"{ID}"}}"#)));
    let r = tokens_request(&TokensCmd::Revoke { id: id() });
    assert_eq!((r.method.as_str(), r.path), ("DELETE", format!("/tokens/{ID}")));
    let r = audit_request(&AuditList {
        action: Some("user.create".to_owned()),
        actor: None,
        object: Some(id()),
        since: Timestamp::from_unix(0),
        until: None,
        paging: Paging { limit: Some(5), all: false, cursor: Some("c".to_owned()) },
    });
    assert_eq!(r.path, "/audit");
    assert_eq!(
        r.query,
        pairs(&[
            ("action", "user.create"),
            ("object_id", ID),
            ("since", "1970-01-01T00:00:00Z"),
            ("limit", "5"),
            ("cursor", "c"),
        ])
    );
    let r = jobs_request(&JobsCmd::List { state: Some("failed".to_owned()), paging: no_paging() });
    assert_eq!(r.query, pairs(&[("state", "failed")]));
}

#[test]
fn a_token_row_shows_only_the_prefix() {
    let t = TokenRecord {
        id: id(),
        name: "ci".to_owned(),
        prefix: "ab12".to_owned(),
        user_id: id(),
        created_at: Timestamp::from_unix(0).unwrap(),
        expires_at: None,
        last_used_at: None,
    };
    assert_eq!(token_row(&t), vec![ID, "ci", "mdk_ab12...", ID, "1970-01-01T00:00:00Z", "-", "-"]);
}

fn nic(name: &str, over: &str) -> ZoneNic {
    ZoneNic { name: name.to_owned(), over: over.to_owned(), mac: None, vid: None, address: None, gateway: None }
}

#[test]
fn zone_lines_and_rows() {
    let z = ZoneRecord {
        id: id(),
        name: "web".to_owned(),
        brand: ZoneBrand::Lipkg,
        state: ZoneState::Installed,
        image_id: None,
        dataset: Some("rpool/zones/web".to_owned()),
        zonepath: "/zones/web".to_owned(),
        nics: vec![nic("net0", "e1000g0"), nic("net1", "stub0")],
        cpu_cap: Some("1.5".to_owned()),
        memory_cap_bytes: None,
        autoboot: true,
        hostname: None,
        resolvers: vec!["1.1.1.1".to_owned(), "9.9.9.9".to_owned()],
        metadata: None,
    };
    assert_eq!(
        zone_row(&z),
        vec![ID, "web", "lipkg", "installed", "net0@e1000g0,net1@stub0", "1.5", "-", "true"]
    );
    let ps = zone_pairs(&z);
    assert_eq!(ps.len(), 12);
    assert_eq!(ps[6], ("dataset".to_owned(), "rpool/zones/web".to_owned()));
    assert_eq!(ps[11], ("resolvers".to_owned(), "1.1.1.1, 9.9.9.9".to_owned()));
}

fn image(state: ImageState, progress: Option<&str>) -> ImageRecord {
    ImageRecord {
        id: id(),
        name: "omnios".to_owned(),
        version: "r151050".to_owned(),
        type_: ImageType::ZoneNative,
        state,
        sha256: "ab".to_owned(),
        size_bytes: 1536,
        pool: None,
        dataset: None,
        path: Some("/var/images/omnios.zfs".to_owned()),
        source_name: None,
        url: None,
        os: None,
        progress: progress.map(|p| p.to_owned()),
        error: Some("checksum mismatch".to_owned()),
        in_use_by: Some(2),
        created_at: Timestamp::from_unix(0).unwrap(),
        imported_at: None,
        metadata: None,
    }
}

#[test]
fn image_rows_show_progress_until_done() {
    assert_eq!(
        image_row(&image(ImageState::Downloading, Some("42"))),
        vec![ID, "omnios@r151050", "zone-native", "downloading 42%", "-", "1.5 KiB", "/var/images/omnios.zfs"]
    );
    assert_eq!(image_row(&image(ImageState::Ready, Some("100")))[3], "ready");
    let ps = image_pairs(&image(ImageState::Failed, None));
    assert_eq!(ps[13], ("in use by".to_owned(), "2".to_owned()));
    assert_eq!(ps.last().unwrap(), &("error".to_owned(), "checksum mismatch".to_owned()));
}

#[test]
fn a_started_job_is_shown_by_its_state() {
    let j = JobRecord { id: id(), state: JobState::Cancelled, kind: "vm.create".to_owned(), message: None };
    assert_eq!(
        job_pairs(&j),
        pairs(&[("job", ID), ("state", "cancelled"), ("kind", "vm.create"), ("message", "-")])
    );
}

#[test]
fn a_dataset_row_shows_a_volume_size_or_a_mountpoint() {
    let d = |kind: DatasetKind| DatasetRecord {
        id: id(),
        name: "rpool/v".to_owned(),
        kind,
        used_bytes: 512,
        available_bytes: 1536,
        referenced_bytes: 0,
        quota_bytes: None,
        volsize_bytes: Some(3 * 1024 * 1024 * 1024),
        mountpoint: None,
        protected: true,
    };
    assert_eq!(
        dataset_row(&d(DatasetKind::Volume)),
        vec![ID, "rpool/v (protected)", "volume", "512 B", "1.5 KiB", "0 B", "-", "volsize 3.0 GiB"]
    );
    assert_eq!(dataset_row(&d(DatasetKind::Filesystem))[7], "-");
}

#[test]
fn an_offered_image_says_whether_it_is_here() {
    let e = |imported: bool, image_id: Option<Id>| CatalogueRecord {
        source_name: "omnios".to_owned(),
        name: "base".to_owned(),
        version: "1".to_owned(),
        type_: ImageType::VmIso,
        os: Some("illumos".to_owned()),
        size_bytes: 512,
        imported,
        image_id,
    };
    assert_eq!(catalogue_row(&e(false, Some(id()))), vec!["omnios", "base@1", "vm-iso", "illumos", "512 B", "-"]);
    assert_eq!(catalogue_row(&e(true, None))[5], "yes");
    assert_eq!(catalogue_row(&e(true, Some(id())))[5], ID);
}

#[test]
fn an_audit_row_names_the_actor_and_the_object() {
    let e = |name: Option<&str>, oid: Option<Id>| AuditRecord {
        id: "a1".to_owned(),
        at: Timestamp::from_unix(0).unwrap(),
        actor: Actor { id: None, username: "root".to_owned(), role: Role::Admin, via: Via::Socket, token_id: None },
        action: "vm.create".to_owned(),
        object: ObjectRef { kind: "vm".to_owned(), id: oid, name: name.map(|n| n.to_owned()) },
        result: AuditResult::Success,
        detail: None,
    };
    assert_eq!(
        audit_row(&e(Some("web"), Some(id()))),
        vec!["a1", "1970-01-01T00:00:00Z", "root (socket)", "vm.create", "vm web", "ok", "-"]
    );
    assert_eq!(audit_row(&e(None, Some(id())))[4], format!("vm {ID}"));
    assert_eq!(audit_row(&e(None, None))[4], "vm");
}

#[test]
fn key_value_lines_align_after_the_longest_key() {
    let lines = kv_text(&pairs(&[("id", "x"), ("display name", "web"), ("vnc", "")]));
    assert_eq!(lines, vec!["id            x", "display name  web", "vnc           "]);
    assert!(kv_text(&Vec::new()).is_empty());
}

#[test]
fn tables_pad_every_cell_but_the_last() {
    let headers = vec!["ID".to_owned(), "NAME".to_owned(), "STATE".to_owned()];
    let rows = vec![
        vec!["1".to_owned(), "web-zone".to_owned(), "running".to_owned()],
        vec!["22".to_owned(), "db".to_owned(), "installed".to_owned(), "extra".to_owned()],
        vec!["3".to_owned()],
    ];
    assert_eq!(
        table_text(&headers, &rows),
        vec!["ID  NAME      STATE", "1   web-zone  running", "22  db        installed  extra", "3"]
    );
    assert_eq!(table_text(&headers, &Vec::new()), vec!["ID  NAME  STATE"]);
}

#[test]
fn pages_follow_cursors_only_with_all() {
    let all = Paging { limit: Some(50), all: true, cursor: None };
    let one = Paging { limit: None, all: false, cursor: Some("c0".to_owned()) };
    assert_eq!(page_at(pairs(&[("state", "running")]), &all, &Some("c1".to_owned())), pairs(&[("state", "running"), ("limit", "50"), ("cursor", "c1")]));
    assert_eq!(page_at(Vec::new(), &one, &one.cursor), pairs(&[("cursor", "c0")]));
    assert_eq!(next_page(&all, &Some("c2".to_owned())), Some("c2".to_owned()));
    assert_eq!(next_page(&all, &None), None);
    assert_eq!(next_page(&one, &Some("c2".to_owned())), None);
    assert_eq!(more_line(&Some("c2".to_owned())), Some("more: --cursor c2".to_owned()));
    assert_eq!(more_line(&None), None);
}
