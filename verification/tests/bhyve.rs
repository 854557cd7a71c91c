use mandrake::bhyve::render::{from_zone_config, to_zone_spec, vnc_socket_path, zvol_device};
use mandrake::bhyve::types::{BhyveError, DiskSpec, VmSpec};
use mandrake::common::vm::Bootrom;
use mandrake::common::zone::ZoneNic;
use mandrake::zones::parse::{render_create, zonecfg_export};
use mandrake::zones::types::ZoneConfig;

const EXPORT: &str = "create -b
set zonepath=/tank/vms/vm0
set brand=bhyve
set autoboot=true
set ip-type=exclusive
add anet
set linkname=net0
set lower-link=stub0
end
add device
set match=/dev/zvol/rdsk/tank/vms/vm0/disk0
end
add device
set match=/dev/zvol/rdsk/tank/vms/vm0/disk1
end
add fs
set dir=/tank/images/iso/6f1d2c3b-4a59-4e8f-9c7d-2b3c4d5e6f70.iso
set special=/tank/images/iso/6f1d2c3b-4a59-4e8f-9c7d-2b3c4d5e6f70.iso
set type=lofs
add options ro
add options nodevices
end
add attr
set name=acpi
set type=string
set value=on
end
add attr
set name=bootdisk
set type=string
set value=tank/vms/vm0/disk0
end
add attr
set name=bootrom
set type=string
set value=BHYVE_RELEASE
end
add attr
set name=cdrom
set type=string
set value=/tank/images/iso/6f1d2c3b-4a59-4e8f-9c7d-2b3c4d5e6f70.iso
end
add attr
set name=disk1
set type=string
set value=tank/vms/vm0/disk1
end
add attr
set name=mandrake-id
set type=string
set value=0192a1b2-c3d4-7e5f-8a9b-0c1d2e3f4a70
end
add attr
set name=ram
set type=string
set value=2048M
end
add attr
set name=vcpus
set type=string
set value=2
end
add attr
set name=vnc
set type=string
set value=on
end
";

fn attr<'a>(attrs: &'a [(String, String)], k: &str) -> Option<&'a str> {
    attrs.iter().find(|(n, _)| n == k).map(|(_, v)| v.as_str())
}

fn spec() -> VmSpec {
    VmSpec {
        name: "vm0".to_owned(),
        zonepath: "/tank/vms/vm0".to_owned(),
        vcpus: 2,
        memory_bytes: 2 * 1024 * 1024 * 1024,
        bootrom: Bootrom::Uefi,
        acpi: true,
        vnc: true,
        autoboot: true,
        disks: vec![
            DiskSpec { zvol: "tank/vms/vm0/disk0".to_owned(), boot: true },
            DiskSpec { zvol: "tank/vms/vm0/disk1".to_owned(), boot: false },
        ],
        cdroms: vec!["/tank/images/iso/x.iso".to_owned()],
        nics: vec![ZoneNic {
            name: "net0".to_owned(),
            over: "stub0".to_owned(),
            mac: None,
            vid: None,
            address: None,
            gateway: None,
        }],
        attrs: vec![("mandrake-id".to_owned(), "abc".to_owned())],
    }
}

#[test]
fn renders_the_brand_configuration() {
    let z = to_zone_spec(&spec());
    assert_eq!(z.brand, "bhyve");
    assert_eq!(attr(&z.attrs, "vcpus"), Some("2"));
    assert_eq!(attr(&z.attrs, "ram"), Some("2048M"));
    assert_eq!(attr(&z.attrs, "bootrom"), Some("BHYVE_RELEASE"));
    assert_eq!(attr(&z.attrs, "acpi"), Some("on"));
    assert_eq!(attr(&z.attrs, "vnc"), Some("on"));
    assert_eq!(attr(&z.attrs, "bootdisk"), Some("tank/vms/vm0/disk0"));
    assert_eq!(attr(&z.attrs, "disk1"), Some("tank/vms/vm0/disk1"));
    assert_eq!(attr(&z.attrs, "cdrom"), Some("/tank/images/iso/x.iso"));
    assert_eq!(attr(&z.attrs, "mandrake-id"), Some("abc"));
    assert_eq!(
        z.devices,
        vec!["/dev/zvol/rdsk/tank/vms/vm0/disk0", "/dev/zvol/rdsk/tank/vms/vm0/disk1"]
    );
    assert_eq!(z.fs.len(), 1);
    assert_eq!(z.fs[0].type_, "lofs");
    assert_eq!(z.fs[0].options, vec!["ro", "nodevices"]);
    let script = render_create(&z).join("; ");
    assert!(script.contains("add device; set match=/dev/zvol/rdsk/tank/vms/vm0/disk0; end"));
    assert!(script.contains(
        "add fs; set dir=/tank/images/iso/x.iso; set special=/tank/images/iso/x.iso; \
         set type=lofs; add options ro; add options nodevices; end"
    ));
    assert!(script.contains("add attr; set name=bootdisk; set type=string; set value=\"tank/vms/vm0/disk0\"; end"));
    assert_eq!(vnc_socket_path("/tank/vms/vm0"), "/tank/vms/vm0/root/tmp/vm.vnc");
    assert_eq!(zvol_device("tank/vms/vm0/disk0"), "/dev/zvol/rdsk/tank/vms/vm0/disk0");
}

#[test]
fn reads_a_vm_back() {
    let cfg = zonecfg_export("vm0", EXPORT).unwrap();
    let vm = from_zone_config(&cfg).unwrap();
    assert_eq!(vm.vcpus, 2);
    assert_eq!(vm.memory_bytes, 2 * 1024 * 1024 * 1024);
    assert_eq!(vm.bootrom, Bootrom::Uefi);
    assert!(vm.acpi);
    assert!(vm.vnc);
    assert_eq!(vm.disks.len(), 2);
    assert_eq!(vm.disks[0].0, 0);
    assert!(vm.disks[0].1.boot);
    assert_eq!(vm.disks[1].0, 1);
    assert_eq!(vm.disks[1].1.zvol, "tank/vms/vm0/disk1");
    assert_eq!(
        vm.cdroms,
        vec![(0, "/tank/images/iso/6f1d2c3b-4a59-4e8f-9c7d-2b3c4d5e6f70.iso".to_owned())]
    );
    assert_eq!(vm.nics.len(), 1);
    assert_eq!(attr(&vm.attrs, "mandrake-id"), Some("0192a1b2-c3d4-7e5f-8a9b-0c1d2e3f4a70"));
    assert!(attr(&vm.attrs, "vcpus").is_none());
    assert_eq!(cfg.devices.len(), 2);
    assert_eq!(cfg.fs.len(), 1);

    let back = to_zone_spec(&VmSpec {
        name: vm.name.clone(),
        zonepath: vm.zonepath.clone(),
        vcpus: vm.vcpus,
        memory_bytes: vm.memory_bytes,
        bootrom: vm.bootrom,
        acpi: vm.acpi,
        vnc: vm.vnc,
        autoboot: vm.autoboot,
        disks: vm.disks.iter().map(|(_, d)| d.clone()).collect(),
        cdroms: vm.cdroms.iter().map(|(_, p)| p.clone()).collect(),
        nics: vm.nics.clone(),
        attrs: vm.attrs.clone(),
    });
    assert_eq!(attr(&back.attrs, "ram"), Some("2048M"));
    assert_eq!(back.devices, cfg.devices);

    let mut lx = cfg.clone();
    lx.brand = "lx".to_owned();
    assert!(matches!(from_zone_config(&lx), Err(BhyveError::NotBhyve(_))));
}

#[test]
fn bad_brand_attributes_are_errors() {
    let bad = EXPORT.replace("set value=2048M", "set value=lots");
    let cfg = zonecfg_export("vm0", &bad).unwrap();
    assert!(from_zone_config(&cfg).is_err());
}

#[test]
fn a_rendered_vm_reads_back() {
    let mut vm = spec();
    vm.memory_bytes = 3 * 1024 * 1024 + 1;
    vm.vcpus = 12;
    vm.bootrom = Bootrom::UefiCsm;
    vm.acpi = false;
    vm.attrs = vec![
        ("mandrake-id".to_owned(), "abc".to_owned()),
        ("mandrake-image".to_owned(), "debian-12".to_owned()),
    ];
    let z = to_zone_spec(&vm);
    let cfg = ZoneConfig {
        name: z.name.clone(),
        brand: z.brand.clone(),
        zonepath: z.zonepath.clone(),
        autoboot: z.autoboot,
        ip_type: "exclusive".to_owned(),
        nics: z.nics.clone(),
        cpu_cap: None,
        memory_cap: None,
        attrs: z.attrs.clone(),
        devices: z.devices.clone(),
        fs: z.fs.clone(),
        datasets: vec![],
        other: vec![],
    };
    let back = from_zone_config(&cfg).unwrap();
    assert_eq!(back.name, "vm0");
    assert_eq!(back.zonepath, "/tank/vms/vm0");
    assert_eq!(back.vcpus, 12);
    assert_eq!(back.memory_bytes, 4 * 1024 * 1024);
    assert_eq!(back.bootrom, Bootrom::UefiCsm);
    assert!(!back.acpi);
    assert!(back.vnc);
    assert!(back.autoboot);
    assert_eq!(back.nics, vm.nics);
    assert_eq!(back.attrs, vm.attrs);
    assert_eq!(back.disks.len(), 2);
    assert_eq!(back.disks[0].0, 0);
    assert_eq!(back.disks[0].1.zvol, "tank/vms/vm0/disk0");
    assert!(back.disks[0].1.boot);
    assert_eq!(back.disks[1].0, 1);
    assert_eq!(back.disks[1].1.zvol, "tank/vms/vm0/disk1");
    assert!(!back.disks[1].1.boot);
    assert_eq!(back.cdroms, vec![(0, "/tank/images/iso/x.iso".to_owned())]);
}
