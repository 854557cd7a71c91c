use mandrake::common::network::{AddressFamily, AddressKind, Duplex, LacpMode, LacpTimer, LinkKind, LinkState, MacMode, RouteKind};
use mandrake::net::parse::{
    fields, mark_persistent, mask_to_prefix, netstat_routes, normalize_mac, persistent_route, persistent_routes,
    show_addr, show_aggr, show_aggr_ports, show_if, show_link, show_phys, show_phys_macs, show_vlan, show_vnic,
    speed_mbps, LinkSources,
};
use mandrake::common::shell::FailureKind;
use mandrake::net::cli::{
    address_commands, create_aggr_command, create_etherstub_command, create_vlan_command, create_vnic_command,
    delete_addr_command, delete_link_command, route_command, routes_of, set_mtu_command,
};
use mandrake::net::fake::{check_prefix, valid_link_name, FakeNet};
use mandrake::net::types::{AddressSpec, AggrSpec, InterfaceInfo, NetError, RouteInfo, RouteSpec, VlanSpec, VnicSpec};

const LINKS: &str = "e1000g0:phys:1500:up::\n\
e1000g1:phys:1500:up::\n\
e1000g2:phys:1500:up::\n\
e1000g3:phys:1500:down::\n\
aggr0:aggr:1500:up::e1000g1 e1000g2\n\
vlan10:vlan:1500:up::e1000g0\n\
etherstub0:etherstub:9000:unknown::\n\
vnic0:vnic:9000:up::etherstub0\n\
vnic1:vnic:1500:up::e1000g0\n";

const PHYS: &str = "e1000g0:Ethernet:up:1000Mb:full:e1000g0\n\
e1000g1:Ethernet:up:1000Mb:full:e1000g1\n\
e1000g2:Ethernet:up:1000Mb:full:e1000g2\n\
e1000g3:Ethernet:down:0Mb:unknown:e1000g3\n";

const MACS: &str = r"e1000g0:primary:0\:c\:29\:ab\:cd\:ef:yes:e1000g0
e1000g0:1:0\:c\:29\:ab\:cd\:e0:no:--
e1000g1:primary:0\:c\:29\:ab\:cd\:f0:yes:aggr0
e1000g2:primary:0\:c\:29\:ab\:cd\:f1:yes:aggr0
e1000g3:primary:0\:c\:29\:ab\:cd\:f2:no:--
";

const AGGRS: &str = "aggr0:L4:auto:active:short:-----\n";

const PORTS: &str = r"aggr0::1000Mb:full:up:0\:c\:29\:ab\:cd\:f0:--
:e1000g1:1000Mb:full:up:0\:c\:29\:ab\:cd\:f0:attached
:e1000g2:1000Mb:full:up:0\:c\:29\:ab\:cd\:f1:attached
";

const VLANS: &str = "vlan10:10:e1000g0:-----\n";

const VNICS: &str = r"vnic0:etherstub0:0:2\:8\:20\:a1\:b2\:c3:random:0:--
vnic1:e1000g0:2000:2\:8\:20\:a1\:b2\:c4:fixed:20:--
";

const IFS: &str = "lo0:loopback:ok:-m-v------46:---:--\n\
e1000g0:ip:ok:bm--------46:-46:--\n\
vlan10:ip:ok:bm--------4-:-4-:--\n";

const ADDRS: &str = "lo0/v4:static:ok:U:U:127.0.0.1/8\n\
e1000g0/v4:static:ok:U:U:192.168.1.10/24\n\
vlan10/v4:dhcp:ok:U:-:10.10.0.5/24\n\
lo0/v6:static:ok:U:U:\\:\\:1/128\n\
e1000g0/v6:addrconf:ok:U:U:fe80\\:\\:20c\\:29ff\\:feab\\:cdef/10\n";

const NETSTAT: &str = "
IRE Table: IPv4
  Destination             Mask           Gateway          Device  MTU  Ref Flg  Out  In/Fwd
-------------------- --------------- -------------------- ------ ----- --- --- ----- ------
default              0.0.0.0         192.168.1.1          e1000g0  1500*  0   1 UG    1234      0
10.20.0.0            255.255.0.0     192.168.1.254        e1000g0  1500*  0   1 UG       0      0
127.0.0.1            255.255.255.255 127.0.0.1            lo0      8232*  0   1 UH     12      0
192.168.1.0          255.255.255.0   192.168.1.10         e1000g0  1500*  0   1 U     456      0

IRE Table: IPv6
  Destination/Mask            Gateway                    If    PMTU   Rtt  Ref Flags  Out   In/Fwd
--------------------------- --------------------------- ----- ------ ----- --- ----- ------ ------
::1                         ::1                         lo0     8252*    0   1 UH       4      0
fe80::/10                   fe80::20c:29ff:feab:cdef    e1000g0 1500*    0   1 U        0      0
default                     fe80::1                     e1000g0 1500*    0   1 UG       0      0
";

const ROUTE_P: &str = "persistent: route add default 192.168.1.1\n\
persistent: route add -net 10.20.0.0 -netmask 255.255.0.0 192.168.1.254\n";

fn sources() -> LinkSources {
    LinkSources {
        links: show_link(LINKS).unwrap(),
        phys: show_phys(PHYS).unwrap(),
        macs: show_phys_macs(MACS).unwrap(),
        aggrs: show_aggr(AGGRS).unwrap(),
        ports: show_aggr_ports(PORTS).unwrap(),
        vlans: show_vlan(VLANS).unwrap(),
        vnics: show_vnic(VNICS).unwrap(),
    }
}

#[test]
fn parsable_fields_unescape_colons() {
    assert_eq!(
        fields(r"e1000g0:primary:0\:c\:29\:ab\:cd\:ef:yes:e1000g0"),
        vec!["e1000g0", "primary", "0:c:29:ab:cd:ef", "yes", "e1000g0"]
    );
    assert_eq!(fields("a::b"), vec!["a", "", "b"]);
    assert_eq!(normalize_mac("0:c:29:ab:cd:ef").as_deref(), Some("00:0c:29:ab:cd:ef"));
    assert_eq!(normalize_mac("nonsense"), None);
    assert_eq!(speed_mbps("1000Mb"), Some(1000));
    assert_eq!(speed_mbps("10Gb"), Some(10_000));
    assert_eq!(speed_mbps("0"), None);
}

#[test]
fn links_join_every_source() {
    let links = sources().assemble();
    let names: Vec<&str> = links.iter().map(|l| l.name.as_str()).collect();
    assert_eq!(
        names,
        ["e1000g0", "e1000g1", "e1000g2", "e1000g3", "aggr0", "vlan10", "etherstub0", "vnic0", "vnic1"]
    );
    let by = |n: &str| links.iter().find(|l| l.name == n).unwrap();

    let p = by("e1000g0");
    assert_eq!(p.kind, LinkKind::Phys);
    assert_eq!(p.state, LinkState::Up);
    assert_eq!(p.mac.as_deref(), Some("00:0c:29:ab:cd:ef"));
    assert_eq!(p.speed_mbps, Some(1000));
    assert_eq!(p.duplex, Some(Duplex::Full));
    assert_eq!(p.device.as_deref(), Some("e1000g0"));
    assert_eq!(p.mtu, Some(1500));
    assert!(p.over.is_empty());
    assert_eq!(by("e1000g3").state, LinkState::Down);
    assert_eq!(by("e1000g3").speed_mbps, None);

    let a = by("aggr0");
    assert_eq!(a.kind, LinkKind::Aggr);
    assert_eq!(a.over, ["e1000g1", "e1000g2"]);
    assert_eq!(a.speed_mbps, Some(1000));
    assert_eq!(a.mac.as_deref(), Some("00:0c:29:ab:cd:f0"));
    let info = a.aggr.as_ref().unwrap();
    assert_eq!(info.policy, "L4");
    assert_eq!(info.lacp_mode, LacpMode::Active);
    assert_eq!(info.lacp_timer, LacpTimer::Short);
    assert_eq!(info.ports.len(), 2);
    assert_eq!(info.ports[1].name, "e1000g2");
    assert_eq!(info.ports[1].state, "attached");

    let v = by("vlan10");
    assert_eq!(v.vid, Some(10));
    assert_eq!(v.over, ["e1000g0"]);
    assert_eq!(v.mac.as_deref(), Some("00:0c:29:ab:cd:ef"));

    assert_eq!(by("etherstub0").kind, LinkKind::Etherstub);
    assert_eq!(by("etherstub0").mtu, Some(9000));

    let n0 = by("vnic0");
    assert_eq!(n0.over, ["etherstub0"]);
    assert_eq!(n0.mac.as_deref(), Some("02:08:20:a1:b2:c3"));
    assert_eq!(n0.mac_mode, Some(MacMode::Random));
    assert_eq!(n0.vid, None);
    assert_eq!(n0.speed_mbps, None);
    let n1 = by("vnic1");
    assert_eq!(n1.vid, Some(20));
    assert_eq!(n1.mac_mode, Some(MacMode::Fixed));
    assert_eq!(n1.speed_mbps, Some(2000));
    assert_eq!(n1.zone, None);
}

#[test]
fn short_rows_are_errors() {
    let err = show_link("e1000g0:phys").err().expect("error");
    assert!(matches!(err, NetError::Parse { .. }));
    assert!(show_vlan("vlan1:abc:e1000g0:--").is_err());
}

#[test]
fn interfaces_and_addresses() {
    let ifs = show_if(IFS).unwrap();
    assert_eq!(ifs.len(), 3);
    assert_eq!(ifs[0].class, "loopback");
    assert_eq!(ifs[1].name, "e1000g0");

    let addrs = show_addr(ADDRS).unwrap();
    assert_eq!(addrs.len(), 5);
    let by = |n: &str| addrs.iter().find(|a| a.name == n).unwrap();
    let m = by("e1000g0/v4");
    assert_eq!(m.interface, "e1000g0");
    assert_eq!(m.kind, AddressKind::Static);
    assert_eq!(m.family, AddressFamily::Inet);
    assert_eq!(m.address.as_deref(), Some("192.168.1.10/24"));
    assert_eq!(m.state, "ok");
    assert!(m.persistent);
    let d = by("vlan10/v4");
    assert_eq!(d.kind, AddressKind::Dhcp);
    assert_eq!(d.address.as_deref(), Some("10.10.0.5/24"));
    assert!(!d.persistent);
    assert_eq!(by("lo0/v6").address.as_deref(), Some("::1/128"));
    let ac = by("e1000g0/v6");
    assert_eq!(ac.kind, AddressKind::Addrconf);
    assert_eq!(ac.family, AddressFamily::Inet6);
    assert_eq!(ac.address.as_deref(), Some("fe80::20c:29ff:feab:cdef/10"));
}

#[test]
fn unknown_address_types_are_errors() {
    assert!(show_addr("e1000g0/x:bogus:ok:U:U:1.2.3.4/8\n").is_err());
}

#[test]
fn routes_from_netstat_and_route_p() {
    let mut routes = netstat_routes(NETSTAT);
    assert_eq!(routes.len(), 7);
    let by = |rs: &[RouteInfo], d: &str| rs.iter().find(|r| r.destination == d).cloned().unwrap();
    let def = by(&routes, "default");
    assert_eq!(def.gateway.as_deref(), Some("192.168.1.1"));
    assert_eq!(def.family, AddressFamily::Inet);
    assert_eq!(def.interface.as_deref(), Some("e1000g0"));
    assert_eq!(def.flags.as_deref(), Some("UG"));
    assert_eq!(def.kind, RouteKind::Static);
    let lo = by(&routes, "127.0.0.1/32");
    assert_eq!(lo.kind, RouteKind::Interface);
    assert_eq!(lo.interface.as_deref(), Some("lo0"));
    assert_eq!(by(&routes, "192.168.1.0/24").kind, RouteKind::Interface);
    assert_eq!(by(&routes, "10.20.0.0/16").kind, RouteKind::Static);
    let lo6 = by(&routes, "::1/128");
    assert_eq!(lo6.family, AddressFamily::Inet6);
    assert_eq!(lo6.interface.as_deref(), Some("lo0"));
    let ll = by(&routes, "fe80::/10");
    assert_eq!(ll.interface.as_deref(), Some("e1000g0"));
    assert_eq!(ll.kind, RouteKind::Interface);

    let persistent = persistent_routes(ROUTE_P);
    assert_eq!(persistent.len(), 2);
    assert_eq!(persistent[1].destination, "10.20.0.0/16");
    mark_persistent(&mut routes, &persistent);
    assert!(by(&routes, "default").persistent);
    assert!(by(&routes, "10.20.0.0/16").persistent);
    assert!(!by(&routes, "192.168.1.0/24").persistent);
}

#[test]
fn persistent_route_forms() {
    let r = persistent_route("persistent: route add -inet6 default fe80::1 -ifp e1000g0").unwrap();
    assert_eq!(r.family, AddressFamily::Inet6);
    assert_eq!(r.destination, "default");
    assert_eq!(r.gateway, "fe80::1");
    let r = persistent_route("persistent: route add -net 10.1.0.0 -netmask 255.255.0.0 10.0.0.1").unwrap();
    assert_eq!(r.destination, "10.1.0.0/16");
    let r = persistent_route("persistent: route add -host 10.9.9.9 10.0.0.1").unwrap();
    assert_eq!(r.destination, "10.9.9.9/32");
    assert!(persistent_route("persistent: no routes").is_none());
    assert_eq!(mask_to_prefix("255.255.255.0"), Some(24));
    assert_eq!(mask_to_prefix("255.0.255.0"), None);
    assert_eq!(mask_to_prefix("0.0.0.0"), Some(0));
}

/// Whether `text` is a dotted IPv4 address with an optional `/prefix`,
/// standing in for the address parser that the caller of the library uses.
/// Whether the part of `text` before any `/` is a dotted IPv4 address
/// (the tests use no IPv6 addresses).
fn ip_ok(text: &str) -> bool {
    let ip = text.split_once('/').map_or(text, |(ip, _)| ip);
    let octets: Vec<&str> = ip.split('.').collect();
    octets.len() == 4
        && octets.iter().all(|o| !o.is_empty() && o.len() <= 3 && o.bytes().all(|b| b.is_ascii_digit()) && o.parse::<u16>().unwrap() <= 255)
}

#[test]
fn topology_lifecycle() {
    let mut net = FakeNet::typical();
    assert_eq!(net.links().len(), 4);
    net.create_aggr(&AggrSpec {
        name: "aggr0".to_owned(),
        ports: vec!["e1000g1".to_owned(), "e1000g2".to_owned()],
        policy: "L4".to_owned(),
        lacp_mode: LacpMode::Active,
        lacp_timer: LacpTimer::Short,
    })
    .unwrap();
    let aggr = net.link("aggr0").unwrap();
    assert_eq!(aggr.speed_mbps, Some(2000));
    assert_eq!(aggr.aggr.as_ref().unwrap().ports.len(), 2);
    assert_eq!(aggr.mac.as_deref(), Some("00:0c:29:ab:cd:f0"));

    let err = net
        .create_aggr(&AggrSpec {
            name: "aggr1".to_owned(),
            ports: vec!["e1000g2".to_owned()],
            policy: "L4".to_owned(),
            lacp_mode: LacpMode::Off,
            lacp_timer: LacpTimer::Long,
        })
        .err()
        .unwrap();
    assert_eq!(err.kind(), FailureKind::Conflict);

    net.create_etherstub("stub0").unwrap();
    net.create_vnic(&VnicSpec { name: "vnic0".to_owned(), over: "stub0".to_owned(), mac: None, vid: None, mtu: None })
        .unwrap();
    let vnic = net.link("vnic0").unwrap();
    assert_eq!(vnic.mac_mode, Some(MacMode::Random));
    assert_eq!(vnic.mtu, Some(9000));
    assert_eq!(vnic.mac.as_deref(), Some("02:08:20:00:00:01"));

    let busy = net.delete_link("stub0", LinkKind::Etherstub).err().unwrap();
    assert_eq!(busy.kind(), FailureKind::Conflict);
    let wrong = net.delete_link("stub0", LinkKind::Vnic).err().unwrap();
    assert_eq!(wrong.kind(), FailureKind::Invalid);
    net.delete_link("vnic0", LinkKind::Vnic).unwrap();
    net.delete_link("stub0", LinkKind::Etherstub).unwrap();
    assert!(matches!(net.link("stub0"), Err(NetError::NotFound(_))));

    let bad = net.set_mtu("aggr0", 100).err().unwrap();
    assert_eq!(bad.kind(), FailureKind::Invalid);
    net.set_mtu("aggr0", 9000).unwrap();
    assert_eq!(net.link("aggr0").unwrap().mtu, Some(9000));

    let dup = net.create_etherstub("e1000g0").err().unwrap();
    assert_eq!(dup.kind(), FailureKind::Exists);
    let phys = net.delete_link("e1000g0", LinkKind::Phys).err().unwrap();
    assert_eq!(phys.kind(), FailureKind::Invalid);
}

#[test]
fn vlans_and_fixed_macs() {
    let mut net = FakeNet::typical();
    net.create_vlan(&mandrake::net::types::VlanSpec { name: "vlan10".to_owned(), vid: 10, over: "e1000g0".to_owned() })
        .unwrap();
    let v = net.link("vlan10").unwrap();
    assert_eq!(v.vid, Some(10));
    assert_eq!(v.mac.as_deref(), Some("00:0c:29:ab:cd:ef"));
    assert!(net
        .create_vlan(&mandrake::net::types::VlanSpec { name: "vlan11".to_owned(), vid: 0, over: "e1000g0".to_owned() })
        .is_err());
    net.create_vnic(&VnicSpec {
        name: "vnic1".to_owned(),
        over: "e1000g0".to_owned(),
        mac: Some("2:8:20:A1:B2:C3".to_owned()),
        vid: Some(20),
        mtu: Some(1400),
    })
    .unwrap();
    let n = net.link("vnic1").unwrap();
    assert_eq!(n.mac.as_deref(), Some("02:08:20:a1:b2:c3"));
    assert_eq!(n.mac_mode, Some(MacMode::Fixed));
    assert_eq!(n.mtu, Some(1400));
    assert!(valid_link_name("net0"));
    assert!(!valid_link_name("0net"));
    assert!(!valid_link_name("net"));
    assert!(!valid_link_name("a-1"));
}

#[test]
fn addresses_and_routes() {
    let mut net = FakeNet::typical();
    assert_eq!(net.addresses().len(), 3);
    assert_eq!(net.interfaces().len(), 2);
    let spec = AddressSpec {
        addrobj: "e1000g1/v4".to_owned(),
        kind: AddressKind::Static,
        address: Some("10.0.0.5/24".to_owned()),
        temporary: true,
    };
    net.create_address(&spec, ip_ok("10.0.0.5/24")).unwrap();
    assert_eq!(net.interfaces().len(), 3);
    let a = net.address("e1000g1/v4").unwrap();
    assert!(!a.persistent);
    assert_eq!(a.family, AddressFamily::Inet);
    let dup = net
        .create_address(
            &AddressSpec { addrobj: "e1000g1/v4".to_owned(), kind: AddressKind::Dhcp, address: None, temporary: false },
            true,
        )
        .err()
        .unwrap();
    assert_eq!(dup.kind(), FailureKind::Exists);
    let bad = net
        .create_address(
            &AddressSpec {
                addrobj: "e1000g1/x".to_owned(),
                kind: AddressKind::Static,
                address: Some("not-an-address".to_owned()),
                temporary: false,
            },
            ip_ok("not-an-address"),
        )
        .err()
        .unwrap();
    assert_eq!(bad.kind(), FailureKind::Invalid);
    assert_eq!(
        net.create_aggr(&AggrSpec {
            name: "aggr0".to_owned(),
            ports: vec!["e1000g1".to_owned()],
            policy: "L4".to_owned(),
            lacp_mode: LacpMode::Active,
            lacp_timer: LacpTimer::Short,
        })
        .err()
        .unwrap()
        .kind(),
        FailureKind::Conflict
    );
    net.delete_address("e1000g1/v4").unwrap();
    let gone = net.delete_address("e1000g1/v4").err().unwrap();
    assert_eq!(gone.kind(), FailureKind::NotFound);

    assert_eq!(net.routes().len(), 4);
    let route = RouteSpec::new("10.20.0.0/16", "192.168.1.1");
    net.add_route(&route, ip_ok("192.168.1.1"), ip_ok("10.20.0.0/16")).unwrap();
    let dup = net.add_route(&route, true, true).err().unwrap();
    assert_eq!(dup.kind(), FailureKind::Exists);
    let bad = net.add_route(&RouteSpec::new("10.20.0.0/16", "nowhere"), ip_ok("nowhere"), true).err().unwrap();
    assert_eq!(bad.kind(), FailureKind::Invalid);
    net.delete_route(&route).unwrap();
    let missing = net.delete_route(&RouteSpec::new("192.168.1.0/24", "192.168.1.10")).err().unwrap();
    assert_eq!(missing.kind(), FailureKind::NotFound);
    assert_eq!(net.routes().len(), 4);
}

#[test]
fn link_commands_are_exact() {
    let lines = vec![
        create_aggr_command(&AggrSpec {
            name: "aggr0".to_owned(),
            ports: vec!["e1000g1".to_owned(), "e1000g2".to_owned()],
            policy: "L4".to_owned(),
            lacp_mode: LacpMode::Active,
            lacp_timer: LacpTimer::Short,
        })
        .display(),
        create_vlan_command(&VlanSpec { name: "vlan10".to_owned(), vid: 10, over: "e1000g0".to_owned() }).display(),
        create_etherstub_command("etherstub0").display(),
        create_vnic_command(&VnicSpec {
            name: "vnic0".to_owned(),
            over: "etherstub0".to_owned(),
            mac: Some("02:08:20:a1:b2:c3".to_owned()),
            vid: Some(20),
            mtu: Some(9000),
        })
        .display(),
        create_vnic_command(&VnicSpec { name: "vnic1".to_owned(), over: "aggr0".to_owned(), mac: None, vid: None, mtu: None })
            .display(),
        set_mtu_command("vnic1", 1400).display(),
        delete_link_command("vnic1", LinkKind::Vnic).unwrap().display(),
        delete_link_command("aggr0", LinkKind::Aggr).unwrap().display(),
    ];
    assert_eq!(
        lines,
        vec![
            "pfexec dladm create-aggr -l e1000g1 -l e1000g2 -P L4 -L active -T short aggr0",
            "pfexec dladm create-vlan -l e1000g0 -v 10 vlan10",
            "pfexec dladm create-etherstub etherstub0",
            "pfexec dladm create-vnic -l etherstub0 -m 02:08:20:a1:b2:c3 -v 20 -p mtu=9000 vnic0",
            "pfexec dladm create-vnic -l aggr0 vnic1",
            "pfexec dladm set-linkprop -p mtu=1400 vnic1",
            "pfexec dladm delete-vnic vnic1",
            "pfexec dladm delete-aggr aggr0",
        ]
    );
    let err = delete_link_command("e1000g0", LinkKind::Phys).err().unwrap();
    assert_eq!(err.kind(), FailureKind::Invalid);
    assert!(matches!(err, NetError::Unsupported(m) if m == "phys links cannot be deleted"));
}

fn iface(name: &str) -> InterfaceInfo {
    InterfaceInfo { name: name.to_owned(), class: "ip".to_owned(), state: "ok".to_owned(), over: None }
}

#[test]
fn address_and_route_commands_are_exact() {
    let interfaces = vec![iface("lo0"), iface("e1000g0")];
    let mut lines = Vec::new();
    // Interface exists: no create-if.
    let (first, addr) = address_commands(
        &AddressSpec {
            addrobj: "e1000g0/backup".to_owned(),
            kind: AddressKind::Static,
            address: Some("192.168.1.11/24".to_owned()),
            temporary: false,
        },
        &interfaces,
    );
    assert!(first.is_none());
    lines.push(addr.unwrap().display());
    // Interface missing: create-if first, temporary throughout.
    let (first, addr) = address_commands(
        &AddressSpec { addrobj: "vnic0/v4".to_owned(), kind: AddressKind::Dhcp, address: None, temporary: true },
        &interfaces,
    );
    lines.push(first.unwrap().display());
    lines.push(addr.unwrap().display());
    lines.push(delete_addr_command("vnic0/v4").display());
    lines.push(route_command("add", &RouteSpec::new("default", "192.168.1.1")).display());
    lines.push(route_command("add", &RouteSpec::new("10.20.0.0/16", "192.168.1.1")).display());
    lines.push(route_command("delete", &RouteSpec::new("default", "fe80::1")).display());
    lines.push(route_command("add", &RouteSpec::new("10.9.9.9", "10.0.0.1")).display());
    assert_eq!(
        lines,
        vec![
            "pfexec ipadm create-addr -T static -a 192.168.1.11/24 e1000g0/backup",
            "pfexec ipadm create-if -t vnic0",
            "pfexec ipadm create-addr -t -T dhcp vnic0/v4",
            "pfexec ipadm delete-addr vnic0/v4",
            "pfexec route -p add default 192.168.1.1",
            "pfexec route -p add -net 10.20.0.0/16 192.168.1.1",
            "pfexec route -p delete -inet6 default fe80::1",
            "pfexec route -p add -host 10.9.9.9 10.0.0.1",
        ]
    );
    let (_, bad) = address_commands(
        &AddressSpec { addrobj: "e1000g0/x".to_owned(), kind: AddressKind::Static, address: None, temporary: false },
        &interfaces,
    );
    assert!(matches!(bad, Err(NetError::Unsupported(_))));
}

#[test]
fn routes_join_netstat_with_the_persistent_list() {
    let routes = routes_of(NETSTAT, None);
    assert_eq!(routes.len(), 7);
    assert!(routes.iter().all(|r| !r.persistent));
    let marked = routes_of(NETSTAT, Some(ROUTE_P));
    assert_eq!(marked.len(), 7);
    let by = |d: &str| marked.iter().find(|r| r.destination == d).unwrap().persistent;
    assert!(by("default"));
    assert!(by("10.20.0.0/16"));
    assert!(!by("192.168.1.0/24"));
}

#[test]
fn escaped_fields_split_back() {
    let xs = vec!["a:b".to_owned(), "c\\d".to_owned(), String::new(), "e".to_owned()];
    let line = xs
        .iter()
        .map(|f| f.replace('\\', "\\\\").replace(':', "\\:"))
        .collect::<Vec<_>>()
        .join(":");
    assert_eq!(line, "a\\:b:c\\\\d::e");
    assert_eq!(fields(&line), xs);
}

#[test]
fn a_normalised_mac_normalises_to_itself() {
    let n = normalize_mac("0:C:29:ab:cd:ef").unwrap();
    assert_eq!(n, "00:0c:29:ab:cd:ef");
    assert_eq!(normalize_mac(&n), Some(n.clone()));
}

#[test]
fn each_link_gets_its_primary_mac_in_first_seen_order() {
    let out = "e1000g1:1:0\\:c\\:29\\:0\\:0\\:1:no:--\n\
e1000g0:0:--:no:--\n\
e1000g0:1:0\\:c\\:29\\:0\\:0\\:2:no:--\n\
e1000g1:primary:0\\:c\\:29\\:0\\:0\\:3:yes:--\n\
e1000g0:2:AA\\:BB:no:--\n";
    let v = show_phys_macs(out).unwrap();
    assert_eq!(
        v,
        vec![
            ("e1000g1".to_owned(), "00:0c:29:00:00:03".to_owned()),
            ("e1000g0".to_owned(), "00:0c:29:00:00:02".to_owned()),
        ]
    );
}

#[test]
fn a_vlan_has_the_mac_of_its_link() {
    let links = sources().assemble();
    let by = |n: &str| links.iter().find(|l| l.name == n).unwrap();
    let v = by("vlan10");
    assert_eq!(v.mac, by(&v.over[0]).mac);
}

#[test]
fn an_address_prefix_must_be_a_byte() {
    assert!(check_prefix("10.0.0.5/24"));
    assert!(check_prefix("10.0.0.5"));
    assert!(check_prefix("10.0.0.5/"));
    assert!(check_prefix("10.0.0.5/+8"));
    assert!(!check_prefix("10.0.0.5/256"));
    assert!(!check_prefix("10.0.0.5/x"));
    let mut net = FakeNet::typical();
    let spec = AddressSpec {
        addrobj: "e1000g1/v4".to_owned(),
        kind: AddressKind::Static,
        address: Some("10.0.0.5/300".to_owned()),
        temporary: true,
    };
    let e = net.create_address(&spec, ip_ok("10.0.0.5/300")).err().unwrap();
    assert_eq!(e.kind(), FailureKind::Invalid);
    assert_eq!(net.interfaces().len(), 2);
}
