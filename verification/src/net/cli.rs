//! The command lines the network driver runs: `dladm`, `ipadm`, `route`,
//! and `netstat`, and how it joins what the reads return.
use vstd::prelude::*;
use crate::common::network::{
    AddressFamily, AddressKind, LinkKind, address_kind_name, kind_name, lacp_mode_name, lacp_timer_name,
};
use crate::common::shell::{Command, string_views};
use crate::net::parse::{
    PersistentRoute, SHOW_ADDR_COLUMNS, SHOW_IF_COLUMNS, mark_persistent, marked, netstat_of, netstat_routes,
    persistent_list, persistent_routes, persistent_views, route_views,
};
use crate::net::types::{AddressSpec, AggrSpec, InterfaceInfo, NetError, RouteInfo, RouteSpec, VlanSpec, VnicSpec, interface_part};
use crate::text::{chars_of, concat, dec, dec_chars, lines, string_from, str_eq};

verus! {

/// The `dladm delete-*` subcommand for a kind, if it has one.
pub open spec fn delete_word(kind: LinkKind) -> Option<Seq<char>> {
    match kind {
        LinkKind::Aggr => Some("delete-aggr"@),
        LinkKind::Vlan => Some("delete-vlan"@),
        LinkKind::Etherstub => Some("delete-etherstub"@),
        LinkKind::Vnic => Some("delete-vnic"@),
        LinkKind::Phys | LinkKind::Other => None,
    }
}

/// The `dladm delete-*` subcommand for a kind, if it has one.
pub fn delete_subcommand(kind: LinkKind) -> (r: Option<&'static str>)
    ensures
        r matches Some(w) ==> delete_word(kind) == Some(w@),
        r is None ==> delete_word(kind) is None,
{
    match kind {
        LinkKind::Aggr => Some("delete-aggr"),
        LinkKind::Vlan => Some("delete-vlan"),
        LinkKind::Etherstub => Some("delete-etherstub"),
        LinkKind::Vnic => Some("delete-vnic"),
        LinkKind::Phys | LinkKind::Other => None,
    }
}

/// The views of literal words.
pub open spec fn word_views(ws: Seq<&str>) -> Seq<Seq<char>> {
    ws.map_values(|s: &str| s@)
}

/// `dladm <args> -p -o <columns>`, a read.
pub fn dladm_command(args: &[&str], columns: &str) -> (c: Command)
    ensures
        c.program@ == "dladm"@,
        !c.privileged,
        string_views(c.args@) == word_views(args@) + seq!["-p"@, "-o"@, columns@],
{
    Command::new("dladm").args(args).args(&["-p", "-o", columns])
}

/// `-l port` for each port.
pub open spec fn port_words(ps: Seq<String>) -> Seq<Seq<char>>
    decreases ps.len(),
{
    if ps.len() == 0 {
        Seq::<Seq<char>>::empty()
    } else {
        port_words(ps.drop_last()) + seq!["-l"@, ps.last()@]
    }
}

/// `pfexec dladm create-aggr -l <port>... -P <policy> -L <mode> -T <timer> <name>`.
pub fn create_aggr_command(spec: &AggrSpec) -> (c: Command)
    ensures
        c.program@ == "dladm"@,
        c.privileged,
        string_views(c.args@) == seq!["create-aggr"@] + port_words(spec.ports@) + seq![
            "-P"@,
            spec.policy@,
            "-L"@,
            lacp_mode_name(spec.lacp_mode),
            "-T"@,
            lacp_timer_name(spec.lacp_timer),
            spec.name@,
        ],
{
    let mut c = Command::new("dladm").arg("create-aggr").privileged();
    let ghost start = string_views(c.args@);
    let mut i: usize = 0;
    assert(spec.ports@.take(0) == Seq::<String>::empty());
    while i < spec.ports.len()
        invariant
            0 <= i <= spec.ports@.len(),
            c.program@ == "dladm"@,
            c.privileged,
            string_views(c.args@) == start + port_words(spec.ports@.take(i as int)),
        decreases spec.ports@.len() - i,
    {
        assert(spec.ports@.take(i + 1).drop_last() == spec.ports@.take(i as int));
        c = c.arg("-l").arg(spec.ports[i].as_str());
        i = i + 1;
    }
    assert(spec.ports@.take(i as int) == spec.ports@);
    c.arg("-P").arg(spec.policy.as_str()).arg("-L").arg(spec.lacp_mode.as_str()).arg("-T").arg(
        spec.lacp_timer.as_str(),
    ).arg(spec.name.as_str())
}

fn dec_text(n: u64) -> (r: String)
    ensures
        r@ == dec(n as nat),
{
    string_from(dec_chars(n).as_slice())
}

fn mtu_text(mtu: u32) -> (r: String)
    ensures
        r@ == "mtu="@ + dec(mtu as nat),
{
    string_from(concat(chars_of("mtu=").as_slice(), dec_chars(mtu as u64).as_slice()).as_slice())
}

/// `pfexec dladm create-vlan -l <over> -v <vid> <name>`.
pub fn create_vlan_command(spec: &VlanSpec) -> (c: Command)
    ensures
        c.program@ == "dladm"@,
        c.privileged,
        string_views(c.args@) == seq!["create-vlan"@, "-l"@, spec.over@, "-v"@, dec(spec.vid as nat), spec.name@],
{
    Command::new("dladm").arg("create-vlan").arg("-l").arg(spec.over.as_str()).arg("-v").arg_string(
        dec_text(spec.vid as u64),
    ).arg(spec.name.as_str()).privileged()
}

/// `pfexec dladm create-etherstub <name>`.
pub fn create_etherstub_command(name: &str) -> (c: Command)
    ensures
        c.program@ == "dladm"@,
        c.privileged,
        string_views(c.args@) == seq!["create-etherstub"@, name@],
{
    Command::new("dladm").arg("create-etherstub").arg(name).privileged()
}

/// The optional words of `create-vnic`: a fixed MAC, a VLAN id, an MTU.
pub open spec fn vnic_option_words(spec: VnicSpec) -> Seq<Seq<char>> {
    (match spec.mac {
        Some(m) => seq!["-m"@, m@],
        None => Seq::<Seq<char>>::empty(),
    }) + (match spec.vid {
        Some(v) => seq!["-v"@, dec(v as nat)],
        None => Seq::<Seq<char>>::empty(),
    }) + (match spec.mtu {
        Some(m) => seq!["-p"@, "mtu="@ + dec(m as nat)],
        None => Seq::<Seq<char>>::empty(),
    })
}

/// `pfexec dladm create-vnic -l <over> [-m <mac>] [-v <vid>] [-p mtu=<n>] <name>`.
pub fn create_vnic_command(spec: &VnicSpec) -> (c: Command)
    ensures
        c.program@ == "dladm"@,
        c.privileged,
        string_views(c.args@) == seq!["create-vnic"@, "-l"@, spec.over@] + vnic_option_words(*spec) + seq![spec.name@],
{
    let mut c = Command::new("dladm").arg("create-vnic").arg("-l").arg(spec.over.as_str()).privileged();
    let ghost base = string_views(c.args@);
    match &spec.mac {
        Some(m) => {
            c = c.arg("-m").arg(m.as_str());
        },
        None => {},
    }
    match spec.vid {
        Some(v) => {
            c = c.arg("-v").arg_string(dec_text(v as u64));
        },
        None => {},
    }
    match spec.mtu {
        Some(m) => {
            c = c.arg("-p").arg_string(mtu_text(m));
        },
        None => {},
    }
    assert(string_views(c.args@) =~= base + vnic_option_words(*spec));
    c.arg(spec.name.as_str())
}

/// `pfexec dladm delete-<kind> <name>`; physical and unknown links cannot
/// be deleted.
pub fn delete_link_command(name: &str, kind: LinkKind) -> (r: Result<Command, NetError>)
    ensures
        r is Ok <==> delete_word(kind) is Some,
        r matches Ok(c) ==> c.program@ == "dladm"@ && c.privileged
            && string_views(c.args@) == seq![delete_word(kind)->0, name@],
        r matches Err(e) ==> (e matches NetError::Unsupported(m) && m@ == kind_name(kind) + " links cannot be deleted"@),
{
    match delete_subcommand(kind) {
        Some(sub) => Ok(Command::new("dladm").arg(sub).arg(name).privileged()),
        None => {
            let m = concat(chars_of(kind.as_str()).as_slice(), chars_of(" links cannot be deleted").as_slice());
            Err(NetError::Unsupported(string_from(m.as_slice())))
        },
    }
}

/// `pfexec dladm set-linkprop -p mtu=<n> <name>`.
pub fn set_mtu_command(name: &str, mtu: u32) -> (c: Command)
    ensures
        c.program@ == "dladm"@,
        c.privileged,
        string_views(c.args@) == seq!["set-linkprop"@, "-p"@, "mtu="@ + dec(mtu as nat), name@],
{
    Command::new("dladm").arg("set-linkprop").arg("-p").arg_string(mtu_text(mtu)).arg(name).privileged()
}

/// `ipadm show-if -p -o <columns>`.
pub fn show_if_command() -> (c: Command)
    ensures
        c.program@ == "ipadm"@,
        !c.privileged,
        string_views(c.args@) == seq!["show-if"@, "-p"@, "-o"@, SHOW_IF_COLUMNS@],
{
    Command::new("ipadm").args(&["show-if", "-p", "-o", SHOW_IF_COLUMNS])
}

/// `ipadm show-addr -p -o <columns>`.
pub fn show_addr_command() -> (c: Command)
    ensures
        c.program@ == "ipadm"@,
        !c.privileged,
        string_views(c.args@) == seq!["show-addr"@, "-p"@, "-o"@, SHOW_ADDR_COLUMNS@],
{
    Command::new("ipadm").args(&["show-addr", "-p", "-o", SHOW_ADDR_COLUMNS])
}

/// `-t` when temporary.
pub open spec fn temporary_words(temporary: bool) -> Seq<Seq<char>> {
    if temporary {
        seq!["-t"@]
    } else {
        Seq::<Seq<char>>::empty()
    }
}

/// `pfexec ipadm create-if [-t] <interface>`.
pub fn create_if_command(interface: &str, temporary: bool) -> (c: Command)
    ensures
        c.program@ == "ipadm"@,
        c.privileged,
        string_views(c.args@) == seq!["create-if"@] + temporary_words(temporary) + seq![interface@],
{
    let mut c = Command::new("ipadm").arg("create-if").privileged();
    if temporary {
        c = c.arg("-t");
    }
    c.arg(interface)
}

/// The words of `ipadm create-addr` for a spec, when it can be said: a
/// static address needs its address.
pub open spec fn create_addr_words(spec: AddressSpec) -> Option<Seq<Seq<char>>> {
    if spec.kind == AddressKind::Static && spec.address is None {
        None
    } else {
        Some(
            seq!["create-addr"@] + temporary_words(spec.temporary) + seq!["-T"@, address_kind_name(spec.kind)]
                + (if spec.kind == AddressKind::Static {
                seq!["-a"@, spec.address->0@]
            } else {
                Seq::<Seq<char>>::empty()
            }) + seq![spec.addrobj@],
        )
    }
}

/// `pfexec ipadm create-addr [-t] -T <kind> [-a <address>] <addrobj>`.
pub fn create_addr_command(spec: &AddressSpec) -> (r: Result<Command, NetError>)
    ensures
        r is Ok <==> create_addr_words(*spec) is Some,
        r matches Ok(c) ==> c.program@ == "ipadm"@ && c.privileged
            && string_views(c.args@) == create_addr_words(*spec)->0,
        r matches Err(e) ==> (e matches NetError::Unsupported(m) && m@ == "a static address needs an address"@),
{
    let mut c = Command::new("ipadm").arg("create-addr").privileged();
    if spec.temporary {
        c = c.arg("-t");
    }
    c = c.arg("-T").arg(spec.kind.as_str());
    if spec.kind == AddressKind::Static {
        match &spec.address {
            Some(a) => {
                c = c.arg("-a").arg(a.as_str());
            },
            None => {
                return Err(NetError::Unsupported("a static address needs an address".to_owned()));
            },
        }
    }
    let c = c.arg(spec.addrobj.as_str());
    assert(string_views(c.args@) =~= create_addr_words(*spec)->0);
    Ok(c)
}

/// Whether an interface of this name is listed.
pub open spec fn interface_listed(interfaces: Seq<InterfaceInfo>, name: Seq<char>) -> bool {
    exists|i: int| 0 <= i < interfaces.len() && #[trigger] interfaces[i].name@ == name
}

/// What creating an address runs, given the interfaces `ipadm show-if`
/// lists: `create-if` first when the address's interface is not there
/// (temporary when the address is), then `create-addr` or why it cannot
/// be said.
pub fn address_commands(spec: &AddressSpec, interfaces: &Vec<InterfaceInfo>) -> (r: (
    Option<Command>,
    Result<Command, NetError>,
))
    ensures
        r.0 is Some <==> !interface_listed(interfaces@, interface_part(spec.addrobj@)),
        r.0 matches Some(c) ==> c.program@ == "ipadm"@ && c.privileged
            && string_views(c.args@) == seq!["create-if"@] + temporary_words(spec.temporary)
                + seq![interface_part(spec.addrobj@)],
        r.1 is Ok <==> create_addr_words(*spec) is Some,
        r.1 matches Ok(c) ==> c.program@ == "ipadm"@ && c.privileged
            && string_views(c.args@) == create_addr_words(*spec)->0,
        r.1 matches Err(e) ==> (e matches NetError::Unsupported(m) && m@ == "a static address needs an address"@),
{
    let interface = spec.interface();
    let mut found = false;
    let mut i: usize = 0;
    while i < interfaces.len()
        invariant
            0 <= i <= interfaces@.len(),
            interface@ == interface_part(spec.addrobj@),
            found == exists|j: int| 0 <= j < i && #[trigger] interfaces@[j].name@ == interface@,
        decreases interfaces@.len() - i,
    {
        if str_eq(interfaces[i].name.as_str(), interface) {
            found = true;
        }
        i = i + 1;
    }
    let first = if found { None } else { Some(create_if_command(interface, spec.temporary)) };
    (first, create_addr_command(spec))
}

/// `pfexec ipadm delete-addr <addrobj>`.
pub fn delete_addr_command(addrobj: &str) -> (c: Command)
    ensures
        c.program@ == "ipadm"@,
        c.privileged,
        string_views(c.args@) == seq!["delete-addr"@, addrobj@],
{
    Command::new("ipadm").arg("delete-addr").arg(addrobj).privileged()
}

/// How `route` names a destination: `default`, a network with `-net`, or
/// a host with `-host`.
pub open spec fn destination_words(d: Seq<char>) -> Seq<Seq<char>> {
    if d == "default"@ {
        seq!["default"@]
    } else if d.contains('/') {
        seq!["-net"@, d]
    } else {
        seq!["-host"@, d]
    }
}

/// `pfexec route -p <verb> [-inet6] <destination> <gateway>`.
pub fn route_command(verb: &str, spec: &RouteSpec) -> (c: Command)
    ensures
        c.program@ == "route"@,
        c.privileged,
        string_views(c.args@) == seq!["-p"@, verb@] + (if spec.family == AddressFamily::Inet6 {
            seq!["-inet6"@]
        } else {
            Seq::<Seq<char>>::empty()
        }) + destination_words(spec.destination@) + seq![spec.gateway@],
{
    let mut c = Command::new("route").arg("-p").arg(verb).privileged();
    if spec.family == AddressFamily::Inet6 {
        c = c.arg("-inet6");
    }
    let ghost base = string_views(c.args@);
    let d = chars_of(spec.destination.as_str());
    if str_eq(spec.destination.as_str(), "default") {
        proof {
            reveal_strlit("default");
        }
        c = c.arg("default");
    } else if crate::text::has_char(d.as_slice(), '/') {
        c = c.arg("-net").arg(spec.destination.as_str());
    } else {
        c = c.arg("-host").arg(spec.destination.as_str());
    }
    assert(string_views(c.args@) =~= base + destination_words(spec.destination@));
    c.arg(spec.gateway.as_str())
}

/// `netstat -rnv`.
pub fn netstat_command() -> (c: Command)
    ensures
        c.program@ == "netstat"@,
        !c.privileged,
        string_views(c.args@) == seq!["-rnv"@],
{
    Command::new("netstat").arg("-rnv")
}

/// `route -p show`.
pub fn route_show_command() -> (c: Command)
    ensures
        c.program@ == "route"@,
        !c.privileged,
        string_views(c.args@) == seq!["-p"@, "show"@],
{
    Command::new("route").arg("-p").arg("show")
}

/// The routing table from what `netstat -rnv` printed, each static route
/// flagged when `route -p show` (if it could be read) lists it too.
pub fn routes_of(netstat_out: &str, route_show: Option<&str>) -> (r: Vec<RouteInfo>)
    ensures
        r@.len() == netstat_of(netstat_out@).len(),
        forall|i: int| 0 <= i < r@.len() ==> (#[trigger] r@[i])@ == marked(
            netstat_of(netstat_out@)[i],
            match route_show {
                Some(o) => persistent_list(lines(o@)),
                None => Seq::empty(),
            },
        ),
{
    let mut routes = netstat_routes(netstat_out);
    let persistent: Vec<PersistentRoute> = match route_show {
        Some(o) => persistent_routes(o),
        None => Vec::new(),
    };
    assert(persistent_views(persistent@) =~= match route_show {
        Some(o) => persistent_list(lines(o@)),
        None => Seq::empty(),
    });
    let ghost before = routes@;
    mark_persistent(&mut routes, persistent.as_slice());
    assert forall|i: int| 0 <= i < routes@.len() implies (#[trigger] routes@[i])@ == marked(
        netstat_of(netstat_out@)[i],
        persistent_views(persistent@),
    ) by {
        assert(route_views(before)[i] == before[i]@);
    }
    routes
}

} // verus!
