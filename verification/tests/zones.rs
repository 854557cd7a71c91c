use mandrake::common::zone::{ZoneNic, ZoneState};
use mandrake::zones::cli::{install_args, zoneadm_command, zonecfg_command};
use mandrake::zones::parse::{
    render_create, render_set_attr, render_update, size, valid_zone_name, zoneadm_list, zonecfg_export,
};
use mandrake::common::shell::FailureKind;
use mandrake::zones::fake::FakeZones;
use mandrake::zones::types::{InstallSource, ZoneError, ZoneSpec};

const LIST: &str = "0:global:running:/::ipkg:shared:0\n\
1:web:running:/tank/zones/web:0192a1b2-c3d4-7e5f-8a9b-0c1d2e3f4a61:lx:excl:1\n\
2:build:installed:/tank/zones/build::ipkg:shared:2\n\
-:vm0:configured:/tank/zones/vm0::bhyve:excl:3\n";

const LX: &str = "create -b
set zonepath=/tank/zones/web
set brand=lx
set autoboot=true
set ip-type=exclusive
add anet
set linkname=net0
set lower-link=stub0
set allowed-address=10.0.0.5/24
set defrouter=10.0.0.1
set mac-address=02:08:20:a1:b2:c3
set vlan-id=20
end
add capped-cpu
set ncpus=1.5
end
add capped-memory
set physical=2G
end
add rctl
set name=zone.max-swap
add value (priv=privileged,limit=2147483648,action=deny)
end
add attr
set name=mandrake-id
set type=string
set value=0192a1b2-c3d4-7e5f-8a9b-0c1d2e3f4a60
end
add attr
set name=hostname
set type=string
set value=\"web\"
end
add attr
set name=kernel-version
set type=string
set value=5.10.0
end
";

const IPKG: &str = "create -b
set zonepath=/tank/zones/build
set brand=ipkg
set autoboot=false
set ip-type=shared
add dataset
set name=tank/data/build
end
";

fn attr<'a>(attrs: &'a [(String, String)], k: &str) -> Option<&'a str> {
    attrs.iter().find(|(n, _)| n == k).map(|(_, v)| v.as_str())
}

#[test]
fn list_skips_global() {
    let zones = zoneadm_list(LIST).unwrap();
    assert_eq!(zones.len(), 3);
    assert_eq!(zones[0].name, "web");
    assert_eq!(zones[0].state, ZoneState::Running);
    assert_eq!(zones[0].brand, "lx");
    assert_eq!(zones[0].zonepath, "/tank/zones/web");
    assert!(zones[0].exclusive_ip);
    assert_eq!(zones[1].name, "build");
    assert_eq!(zones[1].state, ZoneState::Installed);
    assert_eq!(zones[1].brand, "ipkg");
    assert_eq!(zones[2].brand, "bhyve");
    assert_eq!(zones[2].state, ZoneState::Configured);
    assert!(zoneadm_list("garbage").is_err());
}

#[test]
fn export_of_an_lx_zone() {
    let cfg = zonecfg_export("web", LX).unwrap();
    assert_eq!(cfg.brand, "lx");
    assert_eq!(cfg.zonepath, "/tank/zones/web");
    assert!(cfg.autoboot);
    assert_eq!(cfg.ip_type, "exclusive");
    assert_eq!(cfg.nics.len(), 1);
    let nic = &cfg.nics[0];
    assert_eq!(nic.name, "net0");
    assert_eq!(nic.over, "stub0");
    assert_eq!(nic.mac.as_deref(), Some("02:08:20:a1:b2:c3"));
    assert_eq!(nic.vid, Some(20));
    assert_eq!(nic.address.as_deref(), Some("10.0.0.5/24"));
    assert_eq!(nic.gateway.as_deref(), Some("10.0.0.1"));
    assert_eq!(cfg.cpu_cap.as_deref().and_then(|c| c.parse::<f64>().ok()), Some(1.5));
    assert_eq!(cfg.memory_cap, Some(2 * 1024 * 1024 * 1024));
    assert_eq!(attr(&cfg.attrs, "mandrake-id"), Some("0192a1b2-c3d4-7e5f-8a9b-0c1d2e3f4a60"));
    assert_eq!(attr(&cfg.attrs, "hostname"), Some("web"));
    assert_eq!(attr(&cfg.attrs, "kernel-version"), Some("5.10.0"));
    assert!(cfg.other.iter().any(|l| l.contains("add rctl")));
}

#[test]
fn export_of_a_native_zone_without_managed_bits() {
    let cfg = zonecfg_export("build", IPKG).unwrap();
    assert_eq!(cfg.brand, "ipkg");
    assert!(cfg.nics.is_empty());
    assert_eq!(cfg.cpu_cap, None);
    assert_eq!(cfg.memory_cap, None);
    assert!(attr(&cfg.attrs, "mandrake-id").is_none());
    assert_eq!(cfg.datasets, vec!["tank/data/build".to_owned()]);
    assert!(!cfg.autoboot);
}

#[test]
fn export_without_a_brand_is_an_error() {
    assert!(zonecfg_export("x", "create -b\nset autoboot=true\n").is_err());
    assert!(zonecfg_export("x", "set brand=lx\nadd anet\nbogus line\nend\n").is_err());
}

fn spec() -> ZoneSpec {
    ZoneSpec {
        name: "web".to_owned(),
        brand: "lx".to_owned(),
        zonepath: "/tank/zones/web".to_owned(),
        autoboot: true,
        nics: vec![ZoneNic {
            name: "net0".to_owned(),
            over: "stub0".to_owned(),
            mac: None,
            vid: Some(20),
            address: Some("10.0.0.5/24".to_owned()),
            gateway: Some("10.0.0.1".to_owned()),
        }],
        cpu_cap: Some("1.5".to_owned()),
        memory_cap: Some(2_147_483_648),
        devices: Vec::new(),
        fs: Vec::new(),
        attrs: vec![
            ("hostname".to_owned(), "web".to_owned()),
            ("mandrake-id".to_owned(), "abc".to_owned()),
        ],
    }
}

#[test]
fn create_script() {
    assert_eq!(
        render_create(&spec()).join("; "),
        "create -b; set brand=lx; set zonepath=/tank/zones/web; set autoboot=true; \
         set ip-type=exclusive; add anet; set linkname=net0; set lower-link=stub0; \
         set vlan-id=20; set allowed-address=10.0.0.5/24; set defrouter=10.0.0.1; end; \
         add capped-cpu; set ncpus=1.5; end; add capped-memory; set physical=2147483648; end; \
         add attr; set name=hostname; set type=string; set value=\"web\"; end; \
         add attr; set name=mandrake-id; set type=string; set value=\"abc\"; end; commit"
    );
}

#[test]
fn update_script_replaces_and_removes() {
    let current = zonecfg_export("web", LX).unwrap();
    let mut s = spec();
    s.cpu_cap = None;
    s.attrs.retain(|(k, _)| k != "hostname");
    let script = render_update(&current, &s).join("; ");
    assert!(script.starts_with("set autoboot=true; remove -F anet; add anet;"));
    assert!(script.contains("remove -F capped-cpu; remove -F capped-memory; add capped-memory;"));
    assert!(!script.contains("add capped-cpu"));
    assert!(script.contains("select attr name=mandrake-id; set value=\"abc\"; end"));
    assert!(script.contains("remove attr name=hostname"));
    assert!(script.ends_with("; commit"));
    assert_eq!(
        render_set_attr("mandrake-image", "img", false).join("; "),
        "add attr; set name=mandrake-image; set type=string; set value=\"img\"; end; commit"
    );
}

#[test]
fn sizes_and_names() {
    assert_eq!(size("2G"), Some(2_147_483_648));
    assert_eq!(size("512m"), Some(536_870_912));
    assert_eq!(size("1024"), Some(1024));
    assert_eq!(size("lots"), None);
    assert!(valid_zone_name("web-1"));
    assert!(valid_zone_name("db.prod"));
    assert!(!valid_zone_name("global"));
    assert!(!valid_zone_name("-x"));
    assert!(!valid_zone_name("a b"));
    assert!(valid_zone_name("_x"));
    assert!(!valid_zone_name(".x"));
}

#[test]
fn lifecycle_command_lines() {
    let create = zonecfg_command("web", &render_create(&ZoneSpec {
        nics: vec![ZoneNic {
            name: "net0".to_owned(),
            over: "stub0".to_owned(),
            mac: None,
            vid: None,
            address: None,
            gateway: None,
        }],
        cpu_cap: None,
        memory_cap: None,
        attrs: vec![("mandrake-id".to_owned(), "abc".to_owned())],
        ..spec()
    }));
    assert_eq!(
        create.display(),
        "pfexec zonecfg -z web 'create -b; set brand=lx; set zonepath=/tank/zones/web; \
         set autoboot=true; set ip-type=exclusive; add anet; set linkname=net0; \
         set lower-link=stub0; end; add attr; set name=mandrake-id; set type=string; \
         set value=\"abc\"; end; commit'"
    );
    assert_eq!(
        zoneadm_command("web", &install_args(&InstallSource::Prepared)).display(),
        "pfexec zoneadm -z web install -x nodataset"
    );
    assert_eq!(
        zoneadm_command("web", &install_args(&InstallSource::Archive("/tank/images/x.zfs.gz".to_owned()))).display(),
        "pfexec zoneadm -z web install -s /tank/images/x.zfs.gz"
    );
}

fn bare_spec(name: &str) -> ZoneSpec {
    ZoneSpec {
        name: name.to_owned(),
        brand: "lx".to_owned(),
        zonepath: format!("/tank/zones/{name}"),
        autoboot: true,
        nics: Vec::new(),
        cpu_cap: None,
        memory_cap: None,
        devices: Vec::new(),
        fs: Vec::new(),
        attrs: Vec::new(),
    }
}

#[test]
fn lifecycle() {
    let mut z = FakeZones::typical();
    assert_eq!(z.list().len(), 1);
    z.create(&bare_spec("web")).unwrap();
    assert_eq!(z.state_of("web"), Some(ZoneState::Configured));
    let dup = z.create(&bare_spec("web")).err().unwrap();
    assert_eq!(dup.kind(), FailureKind::Exists);
    let not_installed = z.boot("web").err().unwrap();
    assert_eq!(not_installed.kind(), FailureKind::Conflict);
    z.install("web", &InstallSource::Prepared).unwrap();
    z.boot("web").unwrap();
    assert_eq!(z.state_of("web"), Some(ZoneState::Running));
    assert_eq!(z.boot("web").err().unwrap().kind(), FailureKind::Exists);
    assert_eq!(z.uninstall("web").err().unwrap().kind(), FailureKind::Conflict);
    z.shutdown("web", true).unwrap();
    assert_eq!(z.state_of("web"), Some(ZoneState::Running));
    z.shutdown("web", false).unwrap();
    assert_eq!(z.state_of("web"), Some(ZoneState::Installed));
    z.set_attr("web", "mandrake-id", "abc").unwrap();
    let mut s = bare_spec("web");
    s.autoboot = false;
    s.attrs.push(("hostname".to_owned(), "web".to_owned()));
    z.update(&s).unwrap();
    let cfg = z.config("web").unwrap();
    assert!(!cfg.autoboot);
    let attr = |k: &str| cfg.attrs.iter().find(|(n, _)| n == k).map(|(_, v)| v.as_str());
    assert_eq!(attr("mandrake-id"), Some("abc"));
    assert_eq!(attr("hostname"), Some("web"));
    assert_eq!(z.delete("web").err().unwrap().kind(), FailureKind::Conflict);
    z.uninstall("web").unwrap();
    z.delete("web").unwrap();
    assert!(matches!(z.config("web"), Err(ZoneError::NotFound(_))));
    assert_eq!(z.boot("web").err().unwrap().kind(), FailureKind::NotFound);
}

#[test]
fn fake_zone_refusals_and_managed_attributes() {
    let mut z = FakeZones::typical();
    let bad = z.create(&bare_spec("global")).err().unwrap();
    assert!(matches!(&bad, ZoneError::Command(c) if c.stderr() == "zonecfg: invalid zone name"));
    let mut clash = bare_spec("other");
    clash.zonepath = "/rpool/zones/build".to_owned();
    let e = z.create(&clash).err().unwrap();
    assert_eq!(e.kind(), FailureKind::Conflict);
    let e = z.install("build", &InstallSource::Packages).err().unwrap();
    assert!(matches!(&e, ZoneError::Command(c)
        if c.stderr() == "zoneadm: zone 'build': zone is already installed (state installed)"));
    let mut s = bare_spec("web");
    s.attrs = vec![("hostname".to_owned(), "w".to_owned()), ("resolvers".to_owned(), "1.1.1.1".to_owned())];
    z.create(&s).unwrap();
    let names: Vec<_> = z.config("web").unwrap().attrs.iter().map(|(k, _)| k.clone()).collect();
    assert_eq!(names, vec!["hostname", "resolvers"]);
    z.set_attr("web", "mandrake-id", "id").unwrap();
    let mut t = bare_spec("web");
    t.attrs = vec![("resolvers".to_owned(), "9.9.9.9".to_owned())];
    z.update(&t).unwrap();
    let attrs = z.config("web").unwrap().attrs.clone();
    assert_eq!(
        attrs,
        vec![("mandrake-id".to_owned(), "id".to_owned()), ("resolvers".to_owned(), "9.9.9.9".to_owned())]
    );
    assert_eq!(z.halt("web").err().unwrap().kind(), FailureKind::Other);
    assert_eq!(z.update(&bare_spec("nope")).err().unwrap().kind(), FailureKind::NotFound);
    let names: Vec<_> = z.list().iter().map(|s| s.name.clone()).collect();
    assert_eq!(names, vec!["build", "web"]);
    assert!(z.list().iter().all(|s| s.exclusive_ip));
}
