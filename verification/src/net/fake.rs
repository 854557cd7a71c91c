//! An in-memory network stack with the same observable behaviour as the
//! real one: links, IP interfaces, and address objects filed by name, and
//! a route table. Whether a text parses as an IP address is decided by the
//! caller's address parser and handed in.
use vstd::prelude::*;
use crate::common::network::{AddressFamily, AddressKind, Duplex, LinkKind, LinkState, RouteKind, family_of, kind_name};
use crate::common::shell::ShellError;
use crate::net::parse::opt_view;
use crate::net::types::{
    AddressInfo, AddressSpec, AggrSpec, InterfaceInfo, LinkInfo, NetError, RouteInfo, RouteSpec, VlanSpec, VnicSpec,
    interface_of,
    interface_part,
};
use crate::text::{chars_of, concat, parse_uint, parse_unsigned, split_once, split_once_at, str_eq, string_from};
use crate::zfs::keyed::{
    Keyed, entry, find_key, has_key, index_of, keys, lemma_index_has, lemma_put_sorted, lemma_unique_index, put,
    put_item, remove_item, strictly_sorted, without,
};

verus! {

impl Keyed for LinkInfo {
    open spec fn key(&self) -> Seq<char> {
        self.name@
    }

    fn key_str(&self) -> (r: &str) {
        self.name.as_str()
    }
}

impl Keyed for InterfaceInfo {
    open spec fn key(&self) -> Seq<char> {
        self.name@
    }

    fn key_str(&self) -> (r: &str) {
        self.name.as_str()
    }
}

impl Keyed for AddressInfo {
    open spec fn key(&self) -> Seq<char> {
        self.name@
    }

    fn key_str(&self) -> (r: &str) {
        self.name.as_str()
    }
}

/// Whether `e` is the fake tool's failure with this message.
pub open spec fn net_tool_error_is(e: NetError, message: Seq<char>) -> bool {
    e matches NetError::Command(ShellError::Failed { command, status, stderr })
        && command@ == "fake"@ && status == 1 && stderr@ == message
}

fn net_tool_error(message: &[char]) -> (e: NetError)
    ensures
        net_tool_error_is(e, message@),
{
    NetError::Command(ShellError::Failed {
        command: "fake".to_owned(),
        status: 1,
        stderr: string_from(message),
    })
}

fn text2(a: &str, b: &str) -> (r: String)
    ensures
        r@ == a@ + b@,
{
    string_from(concat(chars_of(a).as_slice(), chars_of(b).as_slice()).as_slice())
}

/// The in-memory network stack.
pub struct FakeNet {
    links: Vec<LinkInfo>,
    interfaces: Vec<InterfaceInfo>,
    addresses: Vec<AddressInfo>,
    routes: Vec<RouteInfo>,
    next_mac: u32,
}

/// An IP interface as the fake makes one.
pub open spec fn fake_interface(i: InterfaceInfo, name: Seq<char>, class: Seq<char>) -> bool {
    &&& i.name@ == name
    &&& i.class@ == class
    &&& i.state@ == "ok"@
    &&& i.over is None
}

/// The address an address object of a kind gets: the given one when
/// static, none for DHCP, the link-local one for addrconf.
pub open spec fn kind_address(kind: AddressKind, given: Option<Seq<char>>) -> Option<Seq<char>> {
    match kind {
        AddressKind::Static => given,
        AddressKind::Dhcp => None,
        AddressKind::Addrconf => Some("fe80::20c:29ff:feab:cdef/10"@),
    }
}

/// An address object as the fake files it.
/// A physical port as the fake files it.
pub open spec fn fake_phys(l: LinkInfo, name: Seq<char>, up: bool, mac: Seq<char>) -> bool {
    &&& l.name@ == name && l.kind == LinkKind::Phys
    &&& l.state == (if up { LinkState::Up } else { LinkState::Down })
    &&& l.mtu == Some(1500u32)
    &&& opt_view(l.mac) == Some(mac)
    &&& l.speed_mbps == (if up { Some(1000u32) } else { None })
    &&& l.duplex == Some(if up { Duplex::Full } else { Duplex::Unknown })
    &&& opt_view(l.device) == Some(name)
    &&& opt_view(l.media) == Some("Ethernet"@)
    &&& l.over@.len() == 0
    &&& l.aggr is None
    &&& l.vid is None
}

pub open spec fn fake_address(
    a: AddressInfo,
    name: Seq<char>,
    kind: AddressKind,
    address: Option<Seq<char>>,
    family: AddressFamily,
    persistent: bool,
) -> bool {
    &&& a.name@ == name
    &&& a.interface@ == interface_part(name)
    &&& a.kind == kind
    &&& a.family == family
    &&& opt_view(a.address) == address
    &&& a.state@ == "ok"@
    &&& a.persistent == persistent
}

/// The family an address object gets: that of its address, IPv4 without
/// one.
pub open spec fn address_family(address: Option<Seq<char>>) -> AddressFamily {
    match address {
        Some(a) => family_of(a),
        None => AddressFamily::Inet,
    }
}

/// Why the fake refuses to create an address, if it does; `parses` says
/// whether the static address reads as an IP address with an optional
/// numeric prefix.
/// The part of an address after its first `/`, empty without one.
pub open spec fn prefix_part(a: Seq<char>) -> Seq<char> {
    match split_once(a, '/') {
        Some((_, p)) => p,
        None => Seq::<char>::empty(),
    }
}

/// Whether an address's prefix is absent or reads as a `u8`.
pub open spec fn prefix_ok(a: Seq<char>) -> bool {
    prefix_part(a).len() == 0 || parse_unsigned(prefix_part(a), 10, 255) is Some
}

/// Whether the prefix of `a` is absent or reads as a `u8`.
pub fn check_prefix(a: &str) -> (r: bool)
    ensures
        r == prefix_ok(a@),
{
    let c = chars_of(a);
    match split_once_at(c.as_slice(), '/') {
        Some((_, p)) => p.len() == 0 || parse_uint(p.as_slice(), 10, 255).is_some(),
        None => true,
    }
}

/// Why the fake refuses to create an address, if it does: `ip_parses`
/// says whether a static address's part before any `/` reads as an IP
/// address; its prefix after the `/` must be absent or a `u8`.
pub open spec fn address_refusal(z: FakeNet, spec: AddressSpec, ip_parses: bool) -> Option<Seq<char>> {
    let iface = interface_part(spec.addrobj@);
    if iface != "lo0"@ && !has_key(z.link_list(), iface) {
        Some(iface + ": object not found"@)
    } else if has_key(z.address_list(), spec.addrobj@) {
        Some("cannot create address: Object already exists"@)
    } else if spec.kind == AddressKind::Static {
        match spec.address {
            None => Some("invalid: a static address needs an address"@),
            Some(a) => if !ip_parses || !prefix_ok(a@) { Some(a@ + ": invalid address"@) } else { None },
        }
    } else {
        None
    }
}

impl FakeNet {
    /// The links, in name order.
    pub closed spec fn link_list(&self) -> Seq<LinkInfo> {
        self.links@
    }

    /// The IP interfaces, in name order.
    pub closed spec fn interface_list(&self) -> Seq<InterfaceInfo> {
        self.interfaces@
    }

    /// The address objects, in name order.
    pub closed spec fn address_list(&self) -> Seq<AddressInfo> {
        self.addresses@
    }

    /// The route table, in the order routes were added.
    pub closed spec fn route_list(&self) -> Seq<RouteInfo> {
        self.routes@
    }

    /// How many random MAC addresses have been handed out.
    pub closed spec fn macs_given(&self) -> u32 {
        self.next_mac
    }

    /// Links, interfaces, and addresses are each filed in strictly
    /// increasing name order.
    pub open spec fn wf(&self) -> bool {
        &&& strictly_sorted(keys(self.link_list()))
        &&& strictly_sorted(keys(self.interface_list()))
        &&& strictly_sorted(keys(self.address_list()))
    }

    /// An empty host with no links.
    pub fn new() -> (r: FakeNet)
        ensures
            r.wf(),
            r.link_list().len() == 0,
            r.interface_list().len() == 0,
            r.address_list().len() == 0,
            r.route_list().len() == 0,
            r.macs_given() == 0,
    {
        proof {
            reveal(strictly_sorted);
        }
        FakeNet { links: Vec::new(), interfaces: Vec::new(), addresses: Vec::new(), routes: Vec::new(), next_mac: 0 }
    }

    /// The links, in name order.
    pub fn links(&self) -> (r: &Vec<LinkInfo>)
        ensures
            r@ == self.link_list(),
    {
        &self.links
    }

    /// The IP interfaces, in name order.
    pub fn interfaces(&self) -> (r: &Vec<InterfaceInfo>)
        ensures
            r@ == self.interface_list(),
    {
        &self.interfaces
    }

    /// The address objects, in name order.
    pub fn addresses(&self) -> (r: &Vec<AddressInfo>)
        ensures
            r@ == self.address_list(),
    {
        &self.addresses
    }

    /// The route table.
    pub fn routes(&self) -> (r: &Vec<RouteInfo>)
        ensures
            r@ == self.route_list(),
    {
        &self.routes
    }

    /// Add a physical port: up at 1000 Mb/s full duplex, or down.
    pub fn add_phys(&mut self, name: &str, up: bool, mac: &str)
        requires
            old(self).wf(),
        ensures
            final(self).wf(),
            final(self).macs_given() == old(self).macs_given(),
            final(self).interface_list() == old(self).interface_list(),
            final(self).address_list() == old(self).address_list(),
            final(self).route_list() == old(self).route_list(),
            exists|l: LinkInfo| final(self).link_list() == put(old(self).link_list(), l) && fake_phys(l, name@, up, mac@),
            has_key(final(self).link_list(), name@),
            forall|k: Seq<char>| has_key(old(self).link_list(), k) ==> has_key(final(self).link_list(), k),
    {
        let mut l = LinkInfo::new(name, LinkKind::Phys);
        l.state = if up { LinkState::Up } else { LinkState::Down };
        l.mtu = Some(1500);
        l.mac = Some(mac.to_owned());
        l.speed_mbps = if up { Some(1000) } else { None };
        l.duplex = Some(if up { Duplex::Full } else { Duplex::Unknown });
        l.device = Some(name.to_owned());
        l.media = Some("Ethernet".to_owned());
        proof {
            lemma_put_sorted(self.links@, l);
        }
        put_item(&mut self.links, l);
    }

    /// Add an IP interface, replacing one of the same name.
    pub fn add_interface(&mut self, name: &str, class: &str)
        requires
            old(self).wf(),
        ensures
            final(self).wf(),
            final(self).macs_given() == old(self).macs_given(),
            final(self).link_list() == old(self).link_list(),
            final(self).address_list() == old(self).address_list(),
            final(self).route_list() == old(self).route_list(),
            exists|i: InterfaceInfo| fake_interface(i, name@, class@)
                && final(self).interface_list() == put(old(self).interface_list(), i),
            has_key(final(self).interface_list(), name@),
    {
        let i = InterfaceInfo { name: name.to_owned(), class: class.to_owned(), state: "ok".to_owned(), over: None };
        proof {
            lemma_put_sorted(self.interfaces@, i);
        }
        put_item(&mut self.interfaces, i);
    }

    fn ensure_interface(&mut self, name: &str)
        requires
            old(self).wf(),
        ensures
            final(self).wf(),
            final(self).macs_given() == old(self).macs_given(),
            final(self).link_list() == old(self).link_list(),
            final(self).address_list() == old(self).address_list(),
            final(self).route_list() == old(self).route_list(),
            has_key(old(self).interface_list(), name@) ==> final(self).interface_list() == old(self).interface_list(),
            !has_key(old(self).interface_list(), name@) ==> exists|i: InterfaceInfo| fake_interface(i, name@, "ip"@)
                && final(self).interface_list() == put(old(self).interface_list(), i),
            has_key(final(self).interface_list(), name@),
    {
        proof {
            lemma_index_has(self.interfaces@, name@);
        }
        if find_key(&self.interfaces, name).is_none() {
            self.add_interface(name, "ip");
        }
    }

    /// Add a persistent address object, creating its interface if needed;
    /// its family is that of its address, or follows its kind without one.
    pub fn add_address(&mut self, addrobj: &str, kind: AddressKind, address: Option<&str>)
        requires
            old(self).wf(),
        ensures
            final(self).wf(),
            final(self).macs_given() == old(self).macs_given(),
            final(self).link_list() == old(self).link_list(),
            final(self).route_list() == old(self).route_list(),
            has_key(old(self).interface_list(), interface_part(addrobj@)) ==> final(self).interface_list()
                == old(self).interface_list(),
            !has_key(old(self).interface_list(), interface_part(addrobj@)) ==> exists|i: InterfaceInfo|
                fake_interface(i, interface_part(addrobj@), "ip"@) && final(self).interface_list() == put(
                old(self).interface_list(), i),
            exists|a: AddressInfo| final(self).address_list() == put(old(self).address_list(), a)
                && fake_address(a, addrobj@, kind, match address { Some(t) => Some(t@), None => None },
                    match address {
                        Some(t) => family_of(t@),
                        None => if kind == AddressKind::Addrconf { AddressFamily::Inet6 } else { AddressFamily::Inet },
                    }, true),
    {
        let interface = interface_of(addrobj);
        self.ensure_interface(interface);
        let family = match address {
            Some(t) => AddressFamily::of(t),
            None => if kind == AddressKind::Addrconf { AddressFamily::Inet6 } else { AddressFamily::Inet },
        };
        let a = AddressInfo {
            name: addrobj.to_owned(),
            interface: interface.to_owned(),
            kind,
            family,
            address: match address {
                Some(t) => Some(t.to_owned()),
                None => None,
            },
            state: "ok".to_owned(),
            persistent: true,
        };
        proof {
            lemma_put_sorted(self.addresses@, a);
        }
        put_item(&mut self.addresses, a);
    }

    /// Add a route; static routes are persistent, and the flags follow the
    /// kind (`UH` for a host interface route).
    pub fn seed_route(&mut self, destination: &str, gateway: &str, kind: RouteKind, interface: Option<&str>)
        requires
            old(self).wf(),
        ensures
            final(self).wf(),
            final(self).macs_given() == old(self).macs_given(),
            final(self).link_list() == old(self).link_list(),
            final(self).interface_list() == old(self).interface_list(),
            final(self).address_list() == old(self).address_list(),
            final(self).route_list().len() == old(self).route_list().len() + 1,
            final(self).route_list().drop_last() == old(self).route_list(),
            final(self).route_list().last().destination@ == destination@,
            opt_view(final(self).route_list().last().gateway) == Some(gateway@),
            final(self).route_list().last().family == family_of(gateway@),
            final(self).route_list().last().kind == kind,
            final(self).route_list().last().persistent == (kind == RouteKind::Static),
            opt_view(final(self).route_list().last().flags) == Some(seeded_flags(kind, destination@)),
    {
        let d = chars_of(destination);
        let flags = match kind {
            RouteKind::Static => "UG",
            RouteKind::Interface => if crate::text::has_suffix(d.as_slice(), "/32") || crate::text::has_suffix(d.as_slice(), "/128") {
                "UH"
            } else {
                "U"
            },
            RouteKind::Dynamic => "UGD",
        };
        self.routes.push(RouteInfo {
            destination: destination.to_owned(),
            gateway: Some(gateway.to_owned()),
            family: AddressFamily::of(gateway),
            interface: match interface {
                Some(i) => Some(i.to_owned()),
                None => None,
            },
            flags: Some(flags.to_owned()),
            kind,
            persistent: kind == RouteKind::Static,
        });
        assert(self.routes@.drop_last() == old(self).routes@);
    }

    /// Create an address as `ipadm create-addr` would: refused when its
    /// interface names no link (loopback aside), the object exists, or a
    /// static address is missing, its part before any `/` does not parse
    /// (`parses`) or its prefix is not a `u8`; else the
    /// interface is made if needed and the object filed, persistent unless
    /// temporary.
    pub fn create_address(&mut self, spec: &AddressSpec, parses: bool) -> (r: Result<(), NetError>)
        requires
            old(self).wf(),
        ensures
            final(self).wf(),
            final(self).macs_given() == old(self).macs_given(),
            final(self).link_list() == old(self).link_list(),
            final(self).route_list() == old(self).route_list(),
            r is Err <==> address_refusal(*old(self), *spec, parses) is Some,
            r matches Err(e) ==> net_tool_error_is(e, address_refusal(*old(self), *spec, parses)->0),
            r is Err ==> final(self).interface_list() == old(self).interface_list()
                && final(self).address_list() == old(self).address_list(),
            r is Ok ==> has_key(final(self).interface_list(), interface_part(spec.addrobj@)),
            r is Ok && has_key(old(self).interface_list(), interface_part(spec.addrobj@))
                ==> final(self).interface_list() == old(self).interface_list(),
            r is Ok && !has_key(old(self).interface_list(), interface_part(spec.addrobj@))
                ==> exists|i: InterfaceInfo| fake_interface(i, interface_part(spec.addrobj@), "ip"@)
                    && final(self).interface_list() == put(old(self).interface_list(), i),
            r is Ok ==> exists|a: AddressInfo| final(self).address_list() == put(old(self).address_list(), a)
                && fake_address(a, spec.addrobj@, spec.kind, kind_address(spec.kind, opt_view(spec.address)),
                    address_family(kind_address(spec.kind, opt_view(spec.address))), !spec.temporary),
    {
        let interface = spec.interface();
        proof {
            reveal_strlit("lo0");
            lemma_index_has(self.links@, interface@);
            lemma_index_has(self.addresses@, spec.addrobj@);
        }
        if !str_eq(interface, "lo0") && find_key(&self.links, interface).is_none() {
            let m = text2(interface, ": object not found");
            return Err(net_tool_error(chars_of(m.as_str()).as_slice()));
        }
        if find_key(&self.addresses, spec.addrobj.as_str()).is_some() {
            return Err(net_tool_error(chars_of("cannot create address: Object already exists").as_slice()));
        }
        let address: Option<String> = match spec.kind {
            AddressKind::Static => match &spec.address {
                None => {
                    return Err(net_tool_error(chars_of("invalid: a static address needs an address").as_slice()));
                },
                Some(a) => {
                    if !parses || !check_prefix(a.as_str()) {
                        let m = text2(a.as_str(), ": invalid address");
                        return Err(net_tool_error(chars_of(m.as_str()).as_slice()));
                    }
                    Some(a.clone())
                },
            },
            AddressKind::Dhcp => None,
            AddressKind::Addrconf => Some("fe80::20c:29ff:feab:cdef/10".to_owned()),
        };
        self.ensure_interface(interface);
        proof {
            lemma_index_has(self.interfaces@, interface@);
        }
        let family = match &address {
            Some(a) => AddressFamily::of(a.as_str()),
            None => AddressFamily::Inet,
        };
        let a = AddressInfo {
            name: spec.addrobj.clone(),
            interface: interface.to_owned(),
            kind: spec.kind,
            family,
            address,
            state: "ok".to_owned(),
            persistent: !spec.temporary,
        };
        proof {
            lemma_put_sorted(self.addresses@, a);
        }
        put_item(&mut self.addresses, a);
        Ok(())
    }

    /// Delete an address object.
    pub fn delete_address(&mut self, name: &str) -> (r: Result<(), NetError>)
        requires
            old(self).wf(),
        ensures
            final(self).wf(),
            final(self).macs_given() == old(self).macs_given(),
            final(self).link_list() == old(self).link_list(),
            final(self).interface_list() == old(self).interface_list(),
            final(self).route_list() == old(self).route_list(),
            r is Ok <==> has_key(old(self).address_list(), name@),
            r matches Err(e) ==> net_tool_error_is(e, "cannot delete address: Object not found"@),
            final(self).address_list() == without(old(self).address_list(), name@),
    {
        proof {
            lemma_index_has(self.addresses@, name@);
            crate::zfs::keyed::lemma_without_sorted(self.addresses@, name@);
        }
        if find_key(&self.addresses, name).is_none() {
            return Err(net_tool_error(chars_of("cannot delete address: Object not found").as_slice()));
        }
        remove_item(&mut self.addresses, name);
        Ok(())
    }
}

/// A route with this family, destination, and gateway.
pub open spec fn same_route(r: RouteInfo, spec: RouteSpec) -> bool {
    r.family == spec.family && r.destination@ == spec.destination@ && opt_view(r.gateway) == Some(spec.gateway@)
}

/// A static route with this family, destination, and gateway.
pub open spec fn static_route(spec: RouteSpec) -> spec_fn(RouteInfo) -> bool {
    |r: RouteInfo| r.kind == RouteKind::Static && same_route(r, spec)
}

/// Why the fake refuses to add a route, if it does: `gateway_parses` says
/// whether the gateway (before any `/`) reads as an IP address, and
/// `destination_parses` whether the destination's part before any `/` does;
/// the destination's prefix must be absent or a `u8`.
pub open spec fn route_refusal(z: FakeNet, spec: RouteSpec, gateway_parses: bool, destination_parses: bool) -> Option<Seq<char>> {
    if !gateway_parses {
        Some(spec.gateway@ + ": bad address"@)
    } else if spec.destination@ != "default"@ && (!destination_parses || !prefix_ok(spec.destination@)) {
        Some(spec.destination@ + ": bad address"@)
    } else if exists|i: int| 0 <= i < z.route_list().len() && same_route(#[trigger] z.route_list()[i], spec) {
        Some("add net "@ + spec.destination@ + ": gateway "@ + spec.gateway@ + ": entry exists"@)
    } else {
        None
    }
}

impl FakeNet {
    /// Add a static, persistent route as `route -p add` would; refused
    /// when an address does not parse or the same route exists.
    pub fn add_route(&mut self, spec: &RouteSpec, gateway_parses: bool, destination_parses: bool) -> (r: Result<(), NetError>)
        requires
            old(self).wf(),
        ensures
            final(self).wf(),
            final(self).macs_given() == old(self).macs_given(),
            final(self).link_list() == old(self).link_list(),
            final(self).interface_list() == old(self).interface_list(),
            final(self).address_list() == old(self).address_list(),
            r is Err <==> route_refusal(*old(self), *spec, gateway_parses, destination_parses) is Some,
            r matches Err(e) ==> net_tool_error_is(e, route_refusal(*old(self), *spec, gateway_parses, destination_parses)->0),
            r is Err ==> final(self).route_list() == old(self).route_list(),
            r is Ok ==> final(self).route_list().drop_last() == old(self).route_list()
                && final(self).route_list().len() == old(self).route_list().len() + 1
                && same_route(final(self).route_list().last(), *spec)
                && final(self).route_list().last().interface is None
                && opt_view(final(self).route_list().last().flags) == Some("UG"@)
                && final(self).route_list().last().kind == RouteKind::Static
                && final(self).route_list().last().persistent,
    {
        proof {
            reveal_strlit("default");
        }
        if !gateway_parses {
            let m = text2(spec.gateway.as_str(), ": bad address");
            return Err(net_tool_error(chars_of(m.as_str()).as_slice()));
        }
        if !str_eq(spec.destination.as_str(), "default") && (!destination_parses || !check_prefix(spec.destination.as_str())) {
            let m = text2(spec.destination.as_str(), ": bad address");
            return Err(net_tool_error(chars_of(m.as_str()).as_slice()));
        }
        let mut i: usize = 0;
        while i < self.routes.len()
            invariant
                0 <= i <= self.routes@.len(),
                self.routes@ == old(self).routes@,
                self.links@ == old(self).links@,
                self.interfaces@ == old(self).interfaces@,
                self.addresses@ == old(self).addresses@,
                self.next_mac == old(self).next_mac,
                old(self).wf(),
                gateway_parses,
                spec.destination@ != "default"@ ==> destination_parses && prefix_ok(spec.destination@),
                forall|j: int| 0 <= j < i ==> !same_route(#[trigger] self.routes@[j], *spec),
            decreases self.routes@.len() - i,
        {
            let r = &self.routes[i];
            let gw_same = match &r.gateway {
                Some(g) => str_eq(g.as_str(), spec.gateway.as_str()),
                None => false,
            };
            if r.family == spec.family && str_eq(r.destination.as_str(), spec.destination.as_str()) && gw_same {
                assert(same_route(self.routes@[i as int], *spec));
                let a = text2("add net ", spec.destination.as_str());
                let b = text2(a.as_str(), ": gateway ");
                let c = text2(b.as_str(), spec.gateway.as_str());
                let m = text2(c.as_str(), ": entry exists");
                return Err(net_tool_error(chars_of(m.as_str()).as_slice()));
            }
            i = i + 1;
        }
        self.routes.push(RouteInfo {
            destination: spec.destination.clone(),
            gateway: Some(spec.gateway.clone()),
            family: spec.family,
            interface: None,
            flags: Some("UG".to_owned()),
            kind: RouteKind::Static,
            persistent: true,
        });
        assert(self.routes@.drop_last() == old(self).routes@);
        Ok(())
    }

    /// Delete the first static route with this family, destination, and
    /// gateway, as `route -p delete` would.
    pub fn delete_route(&mut self, spec: &RouteSpec) -> (r: Result<(), NetError>)
        requires
            old(self).wf(),
        ensures
            final(self).wf(),
            final(self).macs_given() == old(self).macs_given(),
            final(self).link_list() == old(self).link_list(),
            final(self).interface_list() == old(self).interface_list(),
            final(self).address_list() == old(self).address_list(),
            crate::text::first_where(old(self).route_list(), static_route(*spec)) matches Some(k)
                ==> r is Ok && final(self).route_list() == old(self).route_list().remove(k),
            crate::text::first_where(old(self).route_list(), static_route(*spec)) is None
                ==> (r matches Err(e) && net_tool_error_is(e, "delete net "@ + spec.destination@ + ": gateway "@
                    + spec.gateway@ + ": not in table"@) && final(self).route_list() == old(self).route_list()),
    {
        let ghost pred = static_route(*spec);
        let mut i: usize = 0;
        while i < self.routes.len()
            invariant
                0 <= i <= self.routes@.len(),
                self.routes@ == old(self).routes@,
                self.links@ == old(self).links@,
                self.interfaces@ == old(self).interfaces@,
                self.addresses@ == old(self).addresses@,
                self.next_mac == old(self).next_mac,
                old(self).wf(),
                pred == static_route(*spec),
                forall|j: int| 0 <= j < i ==> !pred(self.routes@[j]),
            decreases self.routes@.len() - i,
        {
            let r = &self.routes[i];
            let gw_same = match &r.gateway {
                Some(g) => str_eq(g.as_str(), spec.gateway.as_str()),
                None => false,
            };
            if r.kind == RouteKind::Static && r.family == spec.family
                && str_eq(r.destination.as_str(), spec.destination.as_str()) && gw_same {
                proof {
                    crate::text::lemma_first_where(self.routes@, pred, i as int);
                }
                self.routes.remove(i);
                return Ok(());
            }
            i = i + 1;
        }
        proof {
            crate::text::lemma_none_where(self.routes@, pred);
        }
        let a = text2("delete net ", spec.destination.as_str());
        let b = text2(a.as_str(), ": gateway ");
        let c = text2(b.as_str(), spec.gateway.as_str());
        let m = text2(c.as_str(), ": not in table");
        Err(net_tool_error(chars_of(m.as_str()).as_slice()))
    }
}

/// An illumos link name: a letter, then letters, digits, or `_`, ending
/// in a digit, at most 31 characters.
pub open spec fn link_name_ok(n: Seq<char>) -> bool {
    &&& 1 <= n.len() <= 31
    &&& (('a' <= n[0] <= 'z') || ('A' <= n[0] <= 'Z'))
    &&& forall|i: int| 0 <= i < n.len() ==> #[trigger] word_char(n[i])
    &&& '0' <= n.last() <= '9'
}

/// An ASCII letter, digit, or `_`.
pub open spec fn word_char(c: char) -> bool {
    ('a' <= c <= 'z') || ('A' <= c <= 'Z') || ('0' <= c <= '9') || c == '_'
}

/// Whether `name` is an illumos link name.
pub fn valid_link_name(name: &str) -> (r: bool)
    ensures
        r == link_name_ok(name@),
{
    let c = chars_of(name);
    if c.len() < 1 || c.len() > 31 {
        return false;
    }
    if !(('a' <= c[0] && c[0] <= 'z') || ('A' <= c[0] && c[0] <= 'Z')) {
        return false;
    }
    let mut i: usize = 0;
    while i < c.len()
        invariant
            0 <= i <= c@.len(),
            c@ == name@,
            forall|j: int| 0 <= j < i ==> #[trigger] word_char(c@[j]),
        decreases c@.len() - i,
    {
        let ch = c[i];
        if !(('a' <= ch && ch <= 'z') || ('A' <= ch && ch <= 'Z') || ('0' <= ch && ch <= '9') || ch == '_') {
            assert(!word_char(c@[i as int]));
            return false;
        }
        i = i + 1;
    }
    let last = c[c.len() - 1];
    '0' <= last && last <= '9'
}

/// Why a new link may not take a name: taken, or not a link name.
pub open spec fn name_refusal(z: FakeNet, name: Seq<char>) -> Option<Seq<char>> {
    if has_key(z.link_list(), name) {
        Some(name + ": link name already exists"@)
    } else if !link_name_ok(name) {
        Some(name + ": invalid link name"@)
    } else {
        None
    }
}

/// Whether a link is in use: under another link, or plumbed for IP.
pub open spec fn link_busy(z: FakeNet, name: Seq<char>) -> bool {
    (exists|i: int, j: int| 0 <= i < z.link_list().len() && 0 <= j < z.link_list()[i].over@.len()
        && (#[trigger] z.link_list()[i].over@[j])@ == name)
    || has_key(z.interface_list(), name)
}

/// Why a VLAN is refused, if it is.
pub open spec fn vlan_refusal(z: FakeNet, spec: VlanSpec) -> Option<Seq<char>> {
    match name_refusal(z, spec.name@) {
        Some(m) => Some(m),
        None => if !(1 <= spec.vid <= 4094) {
            Some("invalid VLAN id"@)
        } else if !has_key(z.link_list(), spec.over@) {
            Some(spec.over@ + ": object not found"@)
        } else if !(entry(z.link_list(), spec.over@).kind == LinkKind::Phys
            || entry(z.link_list(), spec.over@).kind == LinkKind::Aggr) {
            Some(spec.over@ + ": invalid: VLANs sit on physical links or aggregations"@)
        } else {
            None
        },
    }
}

/// Why deleting a link is refused, if it is.
pub open spec fn delete_refusal(z: FakeNet, name: Seq<char>, kind: LinkKind) -> Option<NetMessage> {
    if !has_key(z.link_list(), name) {
        Some(NetMessage::Tool(name + ": object not found"@))
    } else if kind == LinkKind::Phys || kind == LinkKind::Other {
        Some(NetMessage::Unsupported(kind_name(kind) + " links cannot be deleted"@))
    } else if entry(z.link_list(), name).kind != kind {
        Some(NetMessage::Tool(name + ": invalid: not a "@ + kind_name(kind)))
    } else if link_busy(z, name) {
        Some(NetMessage::Tool(name + ": link busy"@))
    } else {
        None
    }
}

/// A refusal as the contracts see it: the fake tool's message, or an
/// unsupported request.
pub enum NetMessage {
    /// The fake tool failed with this message.
    Tool(Seq<char>),
    /// The request is not supported.
    Unsupported(Seq<char>),
}

/// Whether an error is the refusal.
pub open spec fn error_is(e: NetError, m: NetMessage) -> bool {
    match m {
        NetMessage::Tool(t) => net_tool_error_is(e, t),
        NetMessage::Unsupported(t) => e matches NetError::Unsupported(u) && u@ == t,
    }
}

impl FakeNet {
    fn name_check(&self, name: &str) -> (r: Option<String>)
        requires
            self.wf(),
        ensures
            opt_view(r) == name_refusal(*self, name@),
    {
        proof {
            lemma_index_has(self.links@, name@);
        }
        if find_key(&self.links, name).is_some() {
            return Some(text2(name, ": link name already exists"));
        }
        if !valid_link_name(name) {
            return Some(text2(name, ": invalid link name"));
        }
        None
    }

    fn busy(&self, name: &str) -> (r: bool)
        requires
            self.wf(),
        ensures
            r == link_busy(*self, name@),
    {
        let mut i: usize = 0;
        while i < self.links.len()
            invariant
                0 <= i <= self.links@.len(),
                forall|a: int, b: int| 0 <= a < i && 0 <= b < self.links@[a].over@.len()
                    ==> (#[trigger] self.links@[a].over@[b])@ != name@,
            decreases self.links@.len() - i,
        {
            let mut j: usize = 0;
            while j < self.links[i].over.len()
                invariant
                    0 <= j <= self.links@[i as int].over@.len(),
                    i < self.links@.len(),
                    forall|a: int, b: int| 0 <= a < i && 0 <= b < self.links@[a].over@.len()
                        ==> (#[trigger] self.links@[a].over@[b])@ != name@,
                    forall|b: int| 0 <= b < j ==> (#[trigger] self.links@[i as int].over@[b])@ != name@,
                decreases self.links@[i as int].over@.len() - j,
            {
                if str_eq(self.links[i].over[j].as_str(), name) {
                    assert((self.links@[i as int].over@[j as int])@ == name@);
                    return true;
                }
                j = j + 1;
            }
            i = i + 1;
        }
        proof {
            lemma_index_has(self.interfaces@, name@);
        }
        find_key(&self.interfaces, name).is_some()
    }

    /// Create an etherstub: up, with a 9000-byte MTU.
    pub fn create_etherstub(&mut self, name: &str) -> (r: Result<(), NetError>)
        requires
            old(self).wf(),
        ensures
            final(self).wf(),
            final(self).macs_given() == old(self).macs_given(),
            final(self).interface_list() == old(self).interface_list(),
            final(self).address_list() == old(self).address_list(),
            final(self).route_list() == old(self).route_list(),
            r is Err <==> name_refusal(*old(self), name@) is Some,
            r matches Err(e) ==> net_tool_error_is(e, name_refusal(*old(self), name@)->0),
            r is Err ==> final(self).link_list() == old(self).link_list(),
            r is Ok ==> exists|l: LinkInfo| final(self).link_list() == put(old(self).link_list(), l)
                && l.name@ == name@ && l.kind == LinkKind::Etherstub && l.state == LinkState::Up
                && l.mtu == Some(9000u32) && l.over@.len() == 0 && l.mac is None,
    {
        match self.name_check(name) {
            Some(m) => return Err(net_tool_error(chars_of(m.as_str()).as_slice())),
            None => {},
        }
        let mut l = LinkInfo::new(name, LinkKind::Etherstub);
        l.state = LinkState::Up;
        l.mtu = Some(9000);
        proof {
            lemma_put_sorted(self.links@, l);
        }
        put_item(&mut self.links, l);
        Ok(())
    }

    /// Create a VLAN over a physical link or aggregation: it takes the
    /// link's state, MTU, and MAC.
    pub fn create_vlan(&mut self, spec: &VlanSpec) -> (r: Result<(), NetError>)
        requires
            old(self).wf(),
        ensures
            final(self).wf(),
            final(self).macs_given() == old(self).macs_given(),
            final(self).interface_list() == old(self).interface_list(),
            final(self).address_list() == old(self).address_list(),
            final(self).route_list() == old(self).route_list(),
            r is Err <==> vlan_refusal(*old(self), *spec) is Some,
            r matches Err(e) ==> net_tool_error_is(e, vlan_refusal(*old(self), *spec)->0),
            r is Err ==> final(self).link_list() == old(self).link_list(),
            r is Ok ==> exists|l: LinkInfo| final(self).link_list() == put(old(self).link_list(), l) && {
                let o = entry(old(self).link_list(), spec.over@);
                &&& l.name@ == spec.name@ && l.kind == LinkKind::Vlan
                &&& l.state == o.state && l.mtu == o.mtu && opt_view(l.mac) == opt_view(o.mac)
                &&& l.over@.len() == 1 && l.over@[0]@ == spec.over@
                &&& l.vid == Some(spec.vid)
            },
    {
        match self.name_check(spec.name.as_str()) {
            Some(m) => return Err(net_tool_error(chars_of(m.as_str()).as_slice())),
            None => {},
        }
        if !(1 <= spec.vid && spec.vid <= 4094) {
            return Err(net_tool_error(chars_of("invalid VLAN id").as_slice()));
        }
        proof {
            lemma_index_has(self.links@, spec.over@);
        }
        let k = match find_key(&self.links, spec.over.as_str()) {
            Some(k) => k,
            None => {
                let m = text2(spec.over.as_str(), ": object not found");
                return Err(net_tool_error(chars_of(m.as_str()).as_slice()));
            },
        };
        proof {
            crate::zfs::keyed::lemma_entry_at(self.links@, spec.over@, k as int);
        }
        let over = &self.links[k];
        if !(over.kind == LinkKind::Phys || over.kind == LinkKind::Aggr) {
            let m = text2(spec.over.as_str(), ": invalid: VLANs sit on physical links or aggregations");
            return Err(net_tool_error(chars_of(m.as_str()).as_slice()));
        }
        let mut l = LinkInfo::new(spec.name.as_str(), LinkKind::Vlan);
        l.state = over.state;
        l.mtu = over.mtu;
        l.mac = match &over.mac {
            Some(m) => Some(m.clone()),
            None => None,
        };
        let mut o: Vec<String> = Vec::new();
        o.push(spec.over.clone());
        l.over = o;
        l.vid = Some(spec.vid);
        proof {
            lemma_put_sorted(self.links@, l);
        }
        put_item(&mut self.links, l);
        Ok(())
    }

    /// Set a link's MTU, from 576 to 9216.
    pub fn set_mtu(&mut self, name: &str, mtu: u32) -> (r: Result<(), NetError>)
        requires
            old(self).wf(),
        ensures
            final(self).wf(),
            final(self).macs_given() == old(self).macs_given(),
            final(self).interface_list() == old(self).interface_list(),
            final(self).address_list() == old(self).address_list(),
            final(self).route_list() == old(self).route_list(),
            !has_key(old(self).link_list(), name@) ==> (r matches Err(e)
                && net_tool_error_is(e, name@ + ": object not found"@) && final(self).link_list() == old(self).link_list()),
            has_key(old(self).link_list(), name@) && !(576 <= mtu <= 9216) ==> (r matches Err(e)
                && net_tool_error_is(e, name@ + ": invalid mtu "@ + crate::text::dec(mtu as nat))
                && final(self).link_list() == old(self).link_list()),
            has_key(old(self).link_list(), name@) && 576 <= mtu <= 9216 ==> (r is Ok
                && keys(final(self).link_list()) == keys(old(self).link_list())
                && entry(final(self).link_list(), name@).mtu == Some(mtu)),
    {
        proof {
            lemma_index_has(self.links@, name@);
        }
        let k = match find_key(&self.links, name) {
            Some(k) => k,
            None => {
                let m = text2(name, ": object not found");
                return Err(net_tool_error(chars_of(m.as_str()).as_slice()));
            },
        };
        proof {
            crate::zfs::keyed::lemma_entry_at(self.links@, name@, k as int);
        }
        if !(576 <= mtu && mtu <= 9216) {
            let a = concat(chars_of(name).as_slice(), chars_of(": invalid mtu ").as_slice());
            let m = concat(a.as_slice(), crate::text::dec_chars(mtu as u64).as_slice());
            return Err(net_tool_error(m.as_slice()));
        }
        let ghost before = self.links@;
        set_link_mtu(&mut self.links, k, mtu);
        proof {
            lemma_same_keys_sorted(before, self.links@);
            lemma_unique_index(self.links@, k as int);
        }
        Ok(())
    }

    /// Delete a link of a kind; physical links cannot be deleted, and a
    /// link in use is refused.
    pub fn delete_link(&mut self, name: &str, kind: LinkKind) -> (r: Result<(), NetError>)
        requires
            old(self).wf(),
        ensures
            final(self).wf(),
            final(self).macs_given() == old(self).macs_given(),
            final(self).interface_list() == old(self).interface_list(),
            final(self).address_list() == old(self).address_list(),
            final(self).route_list() == old(self).route_list(),
            r is Err <==> delete_refusal(*old(self), name@, kind) is Some,
            r matches Err(e) ==> error_is(e, delete_refusal(*old(self), name@, kind)->0),
            r is Err ==> final(self).link_list() == old(self).link_list(),
            r is Ok ==> final(self).link_list() == without(old(self).link_list(), name@),
    {
        proof {
            lemma_index_has(self.links@, name@);
            crate::zfs::keyed::lemma_without_sorted(self.links@, name@);
        }
        let k = match find_key(&self.links, name) {
            Some(k) => k,
            None => {
                let m = text2(name, ": object not found");
                return Err(net_tool_error(chars_of(m.as_str()).as_slice()));
            },
        };
        proof {
            crate::zfs::keyed::lemma_entry_at(self.links@, name@, k as int);
        }
        if kind == LinkKind::Phys || kind == LinkKind::Other {
            let m = text2(kind.as_str(), " links cannot be deleted");
            return Err(NetError::Unsupported(m));
        }
        if self.links[k].kind != kind {
            let a = text2(name, ": invalid: not a ");
            let m = text2(a.as_str(), kind.as_str());
            return Err(net_tool_error(chars_of(m.as_str()).as_slice()));
        }
        if self.busy(name) {
            let m = text2(name, ": link busy");
            return Err(net_tool_error(chars_of(m.as_str()).as_slice()));
        }
        remove_item(&mut self.links, name);
        Ok(())
    }
}

/// The `n`th random MAC the fake hands out: `02:08:20` and the low 24
/// bits of `n` in hex.
pub open spec fn fake_mac(n: nat) -> Seq<char> {
    "02:08:20:"@ + crate::text::hex2(((n / 65536) % 256) as u8) + ":"@ + crate::text::hex2(((n / 256) % 256) as u8)
        + ":"@ + crate::text::hex2((n % 256) as u8)
}

fn hex_pair(b: u8) -> (r: Vec<char>)
    ensures
        r@ == crate::text::hex2(b),
{
    let mut v: Vec<char> = Vec::new();
    v.push(crate::text::hex_digit(b / 16));
    v.push(crate::text::hex_digit(b % 16));
    assert(v@ =~= crate::text::hex2(b));
    v
}

fn mac_text(n: u32) -> (r: String)
    ensures
        r@ == fake_mac(n as nat),
{
    let a = concat(chars_of("02:08:20:").as_slice(), hex_pair(((n / 65536) % 256) as u8).as_slice());
    let b = concat(a.as_slice(), chars_of(":").as_slice());
    let c = concat(b.as_slice(), hex_pair(((n / 256) % 256) as u8).as_slice());
    let d = concat(c.as_slice(), chars_of(":").as_slice());
    string_from(concat(d.as_slice(), hex_pair((n % 256) as u8).as_slice()).as_slice())
}

/// Why a VNIC is refused, if it is.
pub open spec fn vnic_refusal(z: FakeNet, spec: VnicSpec) -> Option<Seq<char>> {
    match name_refusal(z, spec.name@) {
        Some(m) => Some(m),
        None => if !has_key(z.link_list(), spec.over@) {
            Some(spec.over@ + ": object not found"@)
        } else if !(entry(z.link_list(), spec.over@).kind == LinkKind::Phys
            || entry(z.link_list(), spec.over@).kind == LinkKind::Aggr
            || entry(z.link_list(), spec.over@).kind == LinkKind::Etherstub) {
            Some(spec.over@ + ": invalid: VNICs sit on physical links, aggregations, or etherstubs"@)
        } else if spec.vid matches Some(v) && !(1 <= v <= 4094) {
            Some("invalid VLAN id"@)
        } else if spec.mac matches Some(m) && crate::net::parse::mac_of(m@) is None {
            Some(spec.mac->0@ + ": invalid MAC address"@)
        } else {
            None
        },
    }
}

/// The VNIC a spec makes over a link, with its MAC.
pub open spec fn made_vnic(l: LinkInfo, spec: VnicSpec, o: LinkInfo, mac: Seq<char>, mode: crate::common::network::MacMode) -> bool {
    &&& l.name@ == spec.name@ && l.kind == LinkKind::Vnic
    &&& l.state == o.state
    &&& l.mtu == (if spec.mtu is Some { spec.mtu } else { o.mtu })
    &&& l.over@.len() == 1 && l.over@[0]@ == spec.over@
    &&& l.speed_mbps == o.speed_mbps
    &&& l.vid == spec.vid
    &&& opt_view(l.mac) == Some(mac)
    &&& l.mac_mode == Some(mode)
}

fn build_vnic(spec: &VnicSpec, over: &LinkInfo, mac: String, mode: crate::common::network::MacMode) -> (l: LinkInfo)
    ensures
        made_vnic(l, *spec, *over, mac@, mode),
{
    let mut l = LinkInfo::new(spec.name.as_str(), LinkKind::Vnic);
    l.state = over.state;
    l.mtu = match spec.mtu {
        Some(m) => Some(m),
        None => over.mtu,
    };
    let mut o: Vec<String> = Vec::new();
    o.push(spec.over.clone());
    l.over = o;
    l.speed_mbps = over.speed_mbps;
    l.vid = spec.vid;
    l.mac = Some(mac);
    l.mac_mode = Some(mode);
    l
}

impl FakeNet {
    fn vnic_check(&self, spec: &VnicSpec) -> (r: Result<(usize, Option<String>), String>)
        requires
            self.wf(),
        ensures
            r matches Err(m) ==> vnic_refusal(*self, *spec) == Some(m@),
            r matches Ok((k, mac)) ==> vnic_refusal(*self, *spec) is None && index_of(self.link_list(), spec.over@) == Some(k as int)
                && k < self.link_list().len()
                && (spec.mac is None <==> mac is None)
                && (mac matches Some(n) ==> crate::net::parse::mac_of(spec.mac->0@) == Some(n@)),
    {
        match self.name_check(spec.name.as_str()) {
            Some(m) => return Err(m),
            None => {},
        }
        proof {
            lemma_index_has(self.links@, spec.over@);
        }
        let k = match find_key(&self.links, spec.over.as_str()) {
            Some(k) => k,
            None => return Err(text2(spec.over.as_str(), ": object not found")),
        };
        proof {
            crate::zfs::keyed::lemma_entry_at(self.links@, spec.over@, k as int);
        }
        let over = &self.links[k];
        if !(over.kind == LinkKind::Phys || over.kind == LinkKind::Aggr || over.kind == LinkKind::Etherstub) {
            return Err(text2(spec.over.as_str(), ": invalid: VNICs sit on physical links, aggregations, or etherstubs"));
        }
        match spec.vid {
            Some(v) => {
                if !(1 <= v && v <= 4094) {
                    return Err("invalid VLAN id".to_owned());
                }
            },
            None => {},
        }
        let mac = match &spec.mac {
            Some(m) => match crate::net::parse::normalize_mac(m.as_str()) {
                Some(n) => Some(n),
                None => return Err(text2(m.as_str(), ": invalid MAC address")),
            },
            None => None,
        };
        Ok((k, mac))
    }

    /// Create a VNIC over a physical link, aggregation, or etherstub: it
    /// takes the link's state and speed, the given MTU or the link's, and
    /// the given MAC (normalised) or the next random one.
    #[verifier::rlimit(40)]
    pub fn create_vnic(&mut self, spec: &VnicSpec) -> (r: Result<(), NetError>)
        requires
            old(self).wf(),
            old(self).macs_given() < u32::MAX,
        ensures
            final(self).wf(),
            final(self).interface_list() == old(self).interface_list(),
            final(self).address_list() == old(self).address_list(),
            final(self).route_list() == old(self).route_list(),
            r is Err <==> vnic_refusal(*old(self), *spec) is Some,
            r matches Err(e) ==> net_tool_error_is(e, vnic_refusal(*old(self), *spec)->0),
            r is Err ==> final(self).link_list() == old(self).link_list() && final(self).macs_given() == old(self).macs_given(),
            r is Ok ==> final(self).macs_given() == (if spec.mac is None { (old(self).macs_given() + 1) as u32 } else { old(self).macs_given() }),
            r is Ok ==> exists|l: LinkInfo| final(self).link_list() == put(old(self).link_list(), l)
                && made_vnic(l, *spec, entry(old(self).link_list(), spec.over@), match spec.mac {
                    Some(m) => crate::net::parse::mac_of(m@)->0,
                    None => fake_mac(old(self).macs_given() as nat + 1),
                }, if spec.mac is Some { crate::common::network::MacMode::Fixed } else { crate::common::network::MacMode::Random }),
    {
        let (k, given) = match self.vnic_check(spec) {
            Ok(p) => p,
            Err(m) => return Err(net_tool_error(chars_of(m.as_str()).as_slice())),
        };
        proof {
            crate::zfs::keyed::lemma_entry_at(self.links@, spec.over@, k as int);
        }
        let (mac, mode) = match given {
            Some(n) => (n, crate::common::network::MacMode::Fixed),
            None => {
                self.next_mac = self.next_mac + 1;
                (mac_text(self.next_mac), crate::common::network::MacMode::Random)
            },
        };
        let l = build_vnic(spec, &self.links[k], mac, mode);
        proof {
            lemma_put_sorted(self.links@, l);
        }
        put_item(&mut self.links, l);
        Ok(())
    }
}

/// Why one port of an aggregation is refused, if it is.
pub open spec fn port_refusal(z: FakeNet, p: Seq<char>) -> Option<Seq<char>> {
    if !has_key(z.link_list(), p) {
        Some(p + ": object not found"@)
    } else if entry(z.link_list(), p).kind != LinkKind::Phys {
        Some(p + ": invalid: not a physical link"@)
    } else if link_busy(z, p) {
        Some(p + ": link busy"@)
    } else {
        None
    }
}

/// The first refused port, in order.
pub open spec fn ports_refusal(z: FakeNet, ps: Seq<Seq<char>>) -> Option<Seq<char>>
    decreases ps.len(),
{
    if ps.len() == 0 {
        None
    } else {
        match ports_refusal(z, ps.drop_last()) {
            Some(m) => Some(m),
            None => port_refusal(z, ps.last()),
        }
    }
}

/// The names of an aggregation's ports.
pub open spec fn port_names(spec: AggrSpec) -> Seq<Seq<char>> {
    spec.ports@.map_values(|s: String| s@)
}

/// Why an aggregation is refused, if it is.
pub open spec fn aggr_refusal(z: FakeNet, spec: AggrSpec) -> Option<Seq<char>> {
    match name_refusal(z, spec.name@) {
        Some(m) => Some(m),
        None => if spec.ports@.len() == 0 {
            Some("invalid: an aggregation needs at least one port"@)
        } else {
            ports_refusal(z, port_names(spec))
        },
    }
}

/// The ports' speeds added up.
pub open spec fn port_speed(z: FakeNet, ps: Seq<Seq<char>>) -> nat
    decreases ps.len(),
{
    if ps.len() == 0 {
        0
    } else {
        port_speed(z, ps.drop_last()) + match entry(z.link_list(), ps.last()).speed_mbps {
            Some(n) => n as nat,
            None => 0,
        }
    }
}

/// Whether any port is up.
pub open spec fn any_up(z: FakeNet, ps: Seq<Seq<char>>) -> bool {
    exists|i: int| 0 <= i < ps.len() && entry(z.link_list(), #[trigger] ps[i]).state == LinkState::Up
}

proof fn lemma_ports_step(z: FakeNet, ps: Seq<Seq<char>>, j: int)
    requires
        0 <= j < ps.len(),
    ensures
        ports_refusal(z, ps.take(j + 1)) == (match ports_refusal(z, ps.take(j)) {
            Some(m) => Some(m),
            None => port_refusal(z, ps[j]),
        }),
        port_speed(z, ps.take(j + 1)) == port_speed(z, ps.take(j)) + match entry(z.link_list(), ps[j]).speed_mbps {
            Some(n) => n as nat,
            None => 0,
        },
{
    assert(ps.take(j + 1).drop_last() == ps.take(j));
    assert(ps.take(j + 1).last() == ps[j]);
}

proof fn lemma_ports_ok(z: FakeNet, ps: Seq<Seq<char>>)
    requires
        ports_refusal(z, ps) is None,
    ensures
        forall|i: int| 0 <= i < ps.len() ==> port_refusal(z, #[trigger] ps[i]) is None,
    decreases ps.len(),
{
    if ps.len() > 0 {
        lemma_ports_ok(z, ps.drop_last());
        assert forall|i: int| 0 <= i < ps.len() implies port_refusal(z, #[trigger] ps[i]) is None by {
            if i < ps.len() - 1 {
                assert(ps.drop_last()[i] == ps[i]);
            }
        }
    }
}

proof fn lemma_ports_stop(z: FakeNet, ps: Seq<Seq<char>>, n: int)
    requires
        0 < n <= ps.len(),
        ports_refusal(z, ps.take(n)) is Some,
    ensures
        ports_refusal(z, ps) == ports_refusal(z, ps.take(n)),
    decreases ps.len() - n,
{
    if n < ps.len() {
        assert(ps.take(n + 1).drop_last() == ps.take(n));
        lemma_ports_stop(z, ps, n + 1);
    } else {
        assert(ps.take(n) == ps);
    }
}

proof fn lemma_speed_prefix(z: FakeNet, ps: Seq<Seq<char>>, j: int)
    requires
        0 <= j <= ps.len(),
    ensures
        port_speed(z, ps.take(j)) <= port_speed(z, ps),
    decreases ps.len() - j,
{
    if j < ps.len() {
        lemma_speed_prefix(z, ps, j + 1);
        assert(ps.take(j + 1).drop_last() == ps.take(j));
    } else {
        assert(ps.take(j) == ps);
    }
}

/// The aggregation a spec makes from its ports.
pub open spec fn made_aggr(l: LinkInfo, z: FakeNet, spec: AggrSpec) -> bool {
    let ps = port_names(spec);
    let speed = port_speed(z, ps);
    &&& l.name@ == spec.name@ && l.kind == LinkKind::Aggr
    &&& l.state == (if any_up(z, ps) { LinkState::Up } else { LinkState::Down })
    &&& l.mtu == Some(1500u32)
    &&& l.over@.map_values(|s: String| s@) == ps
    &&& l.speed_mbps == (if speed > 0 { Some(speed as u32) } else { None })
    &&& l.duplex == Some(Duplex::Full)
    &&& opt_view(l.mac) == opt_view(entry(z.link_list(), ps[0]).mac)
    &&& l.aggr matches Some(a) && a.policy@ == spec.policy@ && a.lacp_mode == spec.lacp_mode
        && a.lacp_timer == spec.lacp_timer && a.ports@.len() == ps.len()
        && forall|i: int| 0 <= i < ps.len() ==> (#[trigger] a.ports@[i]).name@ == ps[i]
            && a.ports@[i].state@ == "attached"@
            && a.ports@[i].speed_mbps == entry(z.link_list(), ps[i]).speed_mbps
}

impl FakeNet {
    fn port_check(&self, p: &str) -> (r: Option<String>)
        requires
            self.wf(),
        ensures
            opt_view(r) == port_refusal(*self, p@),
    {
        proof {
            lemma_index_has(self.links@, p@);
        }
        let k = match find_key(&self.links, p) {
            Some(k) => k,
            None => return Some(text2(p, ": object not found")),
        };
        proof {
            crate::zfs::keyed::lemma_entry_at(self.links@, p@, k as int);
        }
        if self.links[k].kind != LinkKind::Phys {
            return Some(text2(p, ": invalid: not a physical link"));
        }
        if self.busy(p) {
            return Some(text2(p, ": link busy"));
        }
        None
    }

    fn aggr_check(&self, spec: &AggrSpec) -> (r: Option<String>)
        requires
            self.wf(),
        ensures
            opt_view(r) == aggr_refusal(*self, *spec),
    {
        match self.name_check(spec.name.as_str()) {
            Some(m) => return Some(m),
            None => {},
        }
        if spec.ports.len() == 0 {
            return Some("invalid: an aggregation needs at least one port".to_owned());
        }
        let ghost ps = port_names(*spec);
        let mut i: usize = 0;
        while i < spec.ports.len()
            invariant
                0 <= i <= spec.ports@.len(),
                self.wf(),
                ps == port_names(*spec),
                name_refusal(*self, spec.name@) is None,
                spec.ports@.len() > 0,
                ports_refusal(*self, ps.take(i as int)) is None,
            decreases spec.ports@.len() - i,
        {
            proof {
                lemma_ports_step(*self, ps, i as int);
            }
            match self.port_check(spec.ports[i].as_str()) {
                Some(m) => {
                    proof {
                        lemma_ports_stop(*self, ps, i + 1);
                    }
                    return Some(m);
                },
                None => {},
            }
            i = i + 1;
        }
        assert(ps.take(i as int) == ps);
        None
    }

    fn port_info(&self, name: &str) -> (r: (LinkState, Option<u32>))
        requires
            self.wf(),
            has_key(self.link_list(), name@),
        ensures
            r.0 == entry(self.link_list(), name@).state,
            r.1 == entry(self.link_list(), name@).speed_mbps,
    {
        proof {
            lemma_index_has(self.links@, name@);
        }
        match find_key(&self.links, name) {
            Some(k) => {
                proof {
                    crate::zfs::keyed::lemma_entry_at(self.links@, name@, k as int);
                }
                (self.links[k].state, self.links[k].speed_mbps)
            },
            None => (LinkState::Unknown, None),
        }
    }

    fn port_mac(&self, name: &str) -> (r: Option<String>)
        requires
            self.wf(),
            has_key(self.link_list(), name@),
        ensures
            opt_view(r) == opt_view(entry(self.link_list(), name@).mac),
    {
        proof {
            lemma_index_has(self.links@, name@);
        }
        match find_key(&self.links, name) {
            Some(k) => {
                proof {
                    crate::zfs::keyed::lemma_entry_at(self.links@, name@, k as int);
                }
                match &self.links[k].mac {
                    Some(m) => Some(m.clone()),
                    None => None,
                }
            },
            None => None,
        }
    }

    #[verifier::rlimit(80)]
    fn aggr_ports(&self, spec: &AggrSpec) -> (r: (Vec<crate::common::network::AggrPort>, bool, u32))
        requires
            self.wf(),
            aggr_refusal(*self, *spec) is None,
            port_speed(*self, port_names(*spec)) <= u32::MAX,
        ensures
            r.1 == any_up(*self, port_names(*spec)),
            r.2 == port_speed(*self, port_names(*spec)),
            r.0@.len() == spec.ports@.len(),
            forall|j: int| 0 <= j < spec.ports@.len() ==> (#[trigger] r.0@[j]).name@ == port_names(*spec)[j]
                && r.0@[j].state@ == "attached"@
                && r.0@[j].speed_mbps == entry(self.link_list(), port_names(*spec)[j]).speed_mbps,
    {
        let ghost ps = port_names(*spec);
        proof {
            lemma_ports_ok(*self, ps);
        }
        let mut ports: Vec<crate::common::network::AggrPort> = Vec::new();
        let mut up = false;
        let mut speed: u32 = 0;
        let mut i: usize = 0;
        while i < spec.ports.len()
            invariant
                0 <= i <= spec.ports@.len(),
                self.wf(),
                ps == port_names(*spec),
                forall|k: int| 0 <= k < ps.len() ==> port_refusal(*self, #[trigger] ps[k]) is None,
                port_speed(*self, ps) <= u32::MAX,
                speed == port_speed(*self, ps.take(i as int)),
                up == exists|j: int| 0 <= j < i && entry(self.link_list(), #[trigger] ps[j]).state == LinkState::Up,
                ports@.len() == i,
                forall|j: int| 0 <= j < i ==> (#[trigger] ports@[j]).name@ == ps[j]
                    && ports@[j].state@ == "attached"@
                    && ports@[j].speed_mbps == entry(self.link_list(), ps[j]).speed_mbps,
            decreases spec.ports@.len() - i,
        {
            proof {
                lemma_ports_step(*self, ps, i as int);
                lemma_speed_prefix(*self, ps, i + 1);
                assert(port_refusal(*self, ps[i as int]) is None);
            }
            let (state, sp) = self.port_info(spec.ports[i].as_str());
            let ghost was_up = up;
            if state == LinkState::Up {
                up = true;
            }
            ports.push(crate::common::network::AggrPort {
                name: spec.ports[i].clone(),
                state: "attached".to_owned(),
                speed_mbps: sp,
            });
            let add: u32 = match sp {
                Some(n) => n,
                None => 0,
            };
            speed = speed + add;
            proof {
                assert(up == exists|j: int| 0 <= j < i + 1 && entry(self.link_list(), #[trigger] ps[j]).state == LinkState::Up) by {
                    if state == LinkState::Up {
                        assert(entry(self.link_list(), ps[i as int]).state == LinkState::Up);
                    }
                }
            }
            i = i + 1;
        }
        assert(ps.take(i as int) == ps);
        (ports, up, speed)
    }

    #[verifier::rlimit(80)]
    fn build_aggr(&self, spec: &AggrSpec) -> (l: LinkInfo)
        requires
            self.wf(),
            aggr_refusal(*self, *spec) is None,
            port_speed(*self, port_names(*spec)) <= u32::MAX,
        ensures
            made_aggr(l, *self, *spec),
    {
        let ghost ps = port_names(*spec);
        proof {
            lemma_ports_ok(*self, ps);
            assert(port_refusal(*self, ps[0]) is None);
        }
        let (ports, up, speed) = self.aggr_ports(spec);
        let mut l = LinkInfo::new(spec.name.as_str(), LinkKind::Aggr);
        l.state = if up { LinkState::Up } else { LinkState::Down };
        l.mtu = Some(1500);
        l.over = crate::zfs::fake::copy_names(&spec.ports);
        l.speed_mbps = if speed > 0 { Some(speed) } else { None };
        l.duplex = Some(Duplex::Full);
        l.mac = self.port_mac(spec.ports[0].as_str());
        l.aggr = Some(crate::common::network::AggrInfo {
            policy: spec.policy.clone(),
            lacp_mode: spec.lacp_mode,
            lacp_timer: spec.lacp_timer,
            ports,
        });
        l
    }

    /// Create an aggregation of physical ports not otherwise in use: up
    /// when any port is, its speed the ports' speeds added up, its MAC the
    /// first port's. The speeds must add up within 32 bits.
    pub fn create_aggr(&mut self, spec: &AggrSpec) -> (r: Result<(), NetError>)
        requires
            old(self).wf(),
            aggr_refusal(*old(self), *spec) is None ==> port_speed(*old(self), port_names(*spec)) <= u32::MAX,
        ensures
            final(self).wf(),
            final(self).interface_list() == old(self).interface_list(),
            final(self).address_list() == old(self).address_list(),
            final(self).route_list() == old(self).route_list(),
            final(self).macs_given() == old(self).macs_given(),
            r is Err <==> aggr_refusal(*old(self), *spec) is Some,
            r matches Err(e) ==> net_tool_error_is(e, aggr_refusal(*old(self), *spec)->0),
            r is Err ==> final(self).link_list() == old(self).link_list(),
            r is Ok ==> exists|l: LinkInfo| final(self).link_list() == put(old(self).link_list(), l)
                && made_aggr(l, *old(self), *spec),
    {
        match self.aggr_check(spec) {
            Some(m) => return Err(net_tool_error(chars_of(m.as_str()).as_slice())),
            None => {},
        }
        let l = self.build_aggr(spec);
        proof {
            lemma_put_sorted(self.links@, l);
        }
        put_item(&mut self.links, l);
        Ok(())
    }
}

impl FakeNet {
    /// A typical host: four `e1000g` ports (the last one unplugged), the
    /// management address on the first, loopback, and a default route.
    pub fn typical() -> (r: FakeNet)
        ensures
            r.wf(),
            r.link_list().len() == 4,
            forall|k: Seq<char>| #[trigger] has_key(r.link_list(), k) <==> (k == "e1000g0"@ || k == "e1000g1"@
                || k == "e1000g2"@ || k == "e1000g3"@),
            fake_phys(entry(r.link_list(), "e1000g0"@), "e1000g0"@, true, "00:0c:29:ab:cd:ef"@),
            fake_phys(entry(r.link_list(), "e1000g1"@), "e1000g1"@, true, "00:0c:29:ab:cd:f0"@),
            fake_phys(entry(r.link_list(), "e1000g2"@), "e1000g2"@, true, "00:0c:29:ab:cd:f1"@),
            fake_phys(entry(r.link_list(), "e1000g3"@), "e1000g3"@, false, "00:0c:29:ab:cd:f2"@),
            r.interface_list().len() == 2,
            forall|k: Seq<char>| #[trigger] has_key(r.interface_list(), k) <==> (k == "lo0"@ || k == "e1000g0"@),
            fake_interface(entry(r.interface_list(), "lo0"@), "lo0"@, "loopback"@),
            fake_interface(entry(r.interface_list(), "e1000g0"@), "e1000g0"@, "ip"@),
            r.address_list().len() == 3,
            forall|k: Seq<char>| #[trigger] has_key(r.address_list(), k) <==> (k == "lo0/v4"@ || k == "lo0/v6"@
                || k == "e1000g0/v4"@),
            fake_address(entry(r.address_list(), "lo0/v4"@), "lo0/v4"@, AddressKind::Static,
                Some("127.0.0.1/8"@), family_of("127.0.0.1/8"@), true),
            fake_address(entry(r.address_list(), "lo0/v6"@), "lo0/v6"@, AddressKind::Static,
                Some("::1/128"@), family_of("::1/128"@), true),
            fake_address(entry(r.address_list(), "e1000g0/v4"@), "e1000g0/v4"@, AddressKind::Static,
                Some("192.168.1.10/24"@), family_of("192.168.1.10/24"@), true),
            r.route_list().len() == 4,
            r.macs_given() == 0,
    {
        proof {
            lemma_typical_names();
        }
        let mut z = FakeNet::new();
        let ghost v0 = z.link_list();
        let ghost i0 = z.interface_list();
        z.add_phys("e1000g0", true, "00:0c:29:ab:cd:ef");
        proof { let l = choose|l: LinkInfo| z.link_list() == put(v0, l)
            && fake_phys(l, "e1000g0"@, true, "00:0c:29:ab:cd:ef"@); lemma_put_step(v0, l); }
        let ghost v1 = z.link_list();
        z.add_phys("e1000g1", true, "00:0c:29:ab:cd:f0");
        proof { let l = choose|l: LinkInfo| z.link_list() == put(v1, l)
            && fake_phys(l, "e1000g1"@, true, "00:0c:29:ab:cd:f0"@); lemma_put_step(v1, l); }
        let ghost v2 = z.link_list();
        z.add_phys("e1000g2", true, "00:0c:29:ab:cd:f1");
        proof { let l = choose|l: LinkInfo| z.link_list() == put(v2, l)
            && fake_phys(l, "e1000g2"@, true, "00:0c:29:ab:cd:f1"@); lemma_put_step(v2, l); }
        let ghost v3 = z.link_list();
        z.add_phys("e1000g3", false, "00:0c:29:ab:cd:f2");
        proof { let l = choose|l: LinkInfo| z.link_list() == put(v3, l)
            && fake_phys(l, "e1000g3"@, false, "00:0c:29:ab:cd:f2"@); lemma_put_step(v3, l); }
        z.add_interface("lo0", "loopback");
        proof { let i = choose|i: InterfaceInfo| fake_interface(i, "lo0"@, "loopback"@)
            && z.interface_list() == put(i0, i); lemma_put_step(i0, i); }
        let ghost a0 = z.address_list();
        z.add_address("lo0/v4", AddressKind::Static, Some("127.0.0.1/8"));
        proof { let a = choose|a: AddressInfo| z.address_list() == put(a0, a) && fake_address(a, "lo0/v4"@,
            AddressKind::Static, Some("127.0.0.1/8"@), family_of("127.0.0.1/8"@), true); lemma_put_step(a0, a); }
        let ghost a1 = z.address_list();
        z.add_address("lo0/v6", AddressKind::Static, Some("::1/128"));
        proof { let a = choose|a: AddressInfo| z.address_list() == put(a1, a) && fake_address(a, "lo0/v6"@,
            AddressKind::Static, Some("::1/128"@), family_of("::1/128"@), true); lemma_put_step(a1, a); }
        let ghost a2 = z.address_list();
        let ghost i1 = z.interface_list();
        z.add_address("e1000g0/v4", AddressKind::Static, Some("192.168.1.10/24"));
        proof { let a = choose|a: AddressInfo| z.address_list() == put(a2, a) && fake_address(a, "e1000g0/v4"@,
            AddressKind::Static, Some("192.168.1.10/24"@), family_of("192.168.1.10/24"@), true); lemma_put_step(a2, a);
            let i = choose|i: InterfaceInfo| fake_interface(i, "e1000g0"@, "ip"@) && z.interface_list() == put(i1, i);
            lemma_put_step(i1, i); }
        z.seed_route("127.0.0.1/32", "127.0.0.1", RouteKind::Interface, Some("lo0"));
        z.seed_route("::1/128", "::1", RouteKind::Interface, Some("lo0"));
        z.seed_route("192.168.1.0/24", "192.168.1.10", RouteKind::Interface, Some("e1000g0"));
        z.seed_route("default", "192.168.1.1", RouteKind::Static, Some("e1000g0"));
        z
    }
}

/// One filing: the item is under its name, the other names keep theirs,
/// and the names are the old ones and its own.
proof fn lemma_put_step<T: Keyed>(v: Seq<T>, x: T)
    requires
        strictly_sorted(keys(v)),
    ensures
        entry(put(v, x), x.key()) == x,
        forall|k: Seq<char>| has_key(v, k) && k != x.key() ==> #[trigger] entry(put(v, x), k) == entry(v, k),
        forall|k: Seq<char>| #[trigger] has_key(put(v, x), k) <==> (k == x.key() || has_key(v, k)),
        put(v, x).len() == if has_key(v, x.key()) { v.len() } else { v.len() + 1 },
{
    crate::zfs::keyed::lemma_put_entry(v, x);
    lemma_put_sorted(v, x);
    crate::zfs::keyed::lemma_put_len(v, x);
}

/// The typical host's names: distinct, and each address on its interface.
proof fn lemma_typical_names()
    ensures
        "e1000g0"@ != "e1000g1"@, "e1000g0"@ != "e1000g2"@, "e1000g0"@ != "e1000g3"@,
        "e1000g1"@ != "e1000g2"@, "e1000g1"@ != "e1000g3"@, "e1000g2"@ != "e1000g3"@,
        "lo0"@ != "e1000g0"@, "lo0/v4"@ != "lo0/v6"@, "lo0/v4"@ != "e1000g0/v4"@, "lo0/v6"@ != "e1000g0/v4"@,
        interface_part("lo0/v4"@) == "lo0"@,
        interface_part("lo0/v6"@) == "lo0"@,
        interface_part("e1000g0/v4"@) == "e1000g0"@,
        !has_key(Seq::<LinkInfo>::empty(), "e1000g0"@),
        !has_key(Seq::<InterfaceInfo>::empty(), "lo0"@),
        !has_key(Seq::<AddressInfo>::empty(), "lo0/v4"@),
{
    reveal_strlit("e1000g0");
    reveal_strlit("e1000g1");
    reveal_strlit("e1000g2");
    reveal_strlit("e1000g3");
    reveal_strlit("lo0");
    reveal_strlit("lo0/v4");
    reveal_strlit("lo0/v6");
    reveal_strlit("e1000g0/v4");
    reveal_strlit("v4");
    reveal_strlit("v6");
    assert("e1000g0"@[6] != "e1000g1"@[6] && "e1000g0"@[6] != "e1000g2"@[6] && "e1000g0"@[6] != "e1000g3"@[6]);
    assert("e1000g1"@[6] != "e1000g2"@[6] && "e1000g1"@[6] != "e1000g3"@[6] && "e1000g2"@[6] != "e1000g3"@[6]);
    assert("lo0/v4"@[5] != "lo0/v6"@[5]);
    assert("lo0/v4"@ == "lo0"@ + seq!['/'] + "v4"@);
    assert("lo0/v6"@ == "lo0"@ + seq!['/'] + "v6"@);
    assert("e1000g0/v4"@ == "e1000g0"@ + seq!['/'] + "v4"@);
    lemma_iface_part("lo0"@, "v4"@);
    lemma_iface_part("lo0"@, "v6"@);
    lemma_iface_part("e1000g0"@, "v4"@);
    assert(keys(Seq::<LinkInfo>::empty()) =~= Seq::<Seq<char>>::empty());
    assert(keys(Seq::<InterfaceInfo>::empty()) =~= Seq::<Seq<char>>::empty());
    assert(keys(Seq::<AddressInfo>::empty()) =~= Seq::<Seq<char>>::empty());
}

/// The interface part of `x/y`, with no `/` in either, is `x`.
proof fn lemma_iface_part(x: Seq<char>, y: Seq<char>)
    requires
        forall|i: int| 0 <= i < x.len() ==> x[i] != '/',
        forall|i: int| 0 <= i < y.len() ==> y[i] != '/',
    ensures
        interface_part(x + seq!['/'] + y) == x,
{
    assert(!x.contains('/'));
    assert(!y.contains('/'));
    crate::net::laws::lemma_split_plain(x, '/');
    crate::net::laws::lemma_split_plain(y, '/');
    crate::net::laws::lemma_split_join(x, y, '/');
}

impl FakeNet {
    /// A link by name.
    pub fn link(&self, name: &str) -> (r: Result<&LinkInfo, NetError>)
        requires
            self.wf(),
        ensures
            r is Ok <==> has_key(self.link_list(), name@),
            r matches Ok(l) ==> *l == entry(self.link_list(), name@),
            r matches Err(e) ==> e matches NetError::NotFound(m) && m@ == name@,
    {
        proof {
            lemma_index_has(self.links@, name@);
        }
        match find_key(&self.links, name) {
            Some(k) => {
                proof {
                    crate::zfs::keyed::lemma_entry_at(self.links@, name@, k as int);
                }
                Ok(&self.links[k])
            },
            None => Err(NetError::NotFound(name.to_owned())),
        }
    }

    /// An address object by name.
    pub fn address(&self, name: &str) -> (r: Result<&AddressInfo, NetError>)
        requires
            self.wf(),
        ensures
            r is Ok <==> has_key(self.address_list(), name@),
            r matches Ok(a) ==> *a == entry(self.address_list(), name@),
            r matches Err(e) ==> e matches NetError::NotFound(m) && m@ == name@,
    {
        proof {
            lemma_index_has(self.addresses@, name@);
        }
        match find_key(&self.addresses, name) {
            Some(k) => {
                proof {
                    crate::zfs::keyed::lemma_entry_at(self.addresses@, name@, k as int);
                }
                Ok(&self.addresses[k])
            },
            None => Err(NetError::NotFound(name.to_owned())),
        }
    }
}

fn set_link_mtu(v: &mut Vec<LinkInfo>, k: usize, mtu: u32)
    requires
        k < old(v)@.len(),
    ensures
        final(v)@.len() == old(v)@.len(),
        keys(final(v)@) == keys(old(v)@),
        final(v)@[k as int].mtu == Some(mtu),
        final(v)@[k as int].name@ == old(v)@[k as int].name@,
{
    let ghost before = v@;
    let mut l = v.remove(k);
    l.mtu = Some(mtu);
    v.insert(k, l);
    assert(v@ == before.update(k as int, l));
    assert(keys(v@) =~= keys(before));
}

proof fn lemma_same_keys_sorted(a: Seq<LinkInfo>, b: Seq<LinkInfo>)
    requires
        keys(a) == keys(b),
    ensures
        strictly_sorted(keys(a)) == strictly_sorted(keys(b)),
{
}

/// The flags a seeded route gets.
pub open spec fn seeded_flags(kind: RouteKind, destination: Seq<char>) -> Seq<char> {
    match kind {
        RouteKind::Static => "UG"@,
        RouteKind::Interface => if crate::text::ends_with(destination, "/32"@) || crate::text::ends_with(destination, "/128"@) {
            "UH"@
        } else {
            "U"@
        },
        RouteKind::Dynamic => "UGD"@,
    }
}

} // verus!
