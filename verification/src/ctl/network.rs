//! The calls of the `network` commands.
use vstd::prelude::*;
use crate::common::id::{Id, uuid_text};
use crate::common::shell::string_views;
use crate::ctl::args::MetadataArgs;
use crate::ctl::calls::{made, metadata_json, metadata_of};
use crate::ctl::client::Error;
use crate::ctl::json::{field_views, jbool, jobj, jopt, jstr, jstrs, json_bool, json_num, json_object, json_opt, json_str,
    json_strings};
use crate::ctl::request::{Call, Request, bare, call, count, id_at, no_query, opt_seq, push_field, push_opt, request,
    with_opt};
use crate::ctl::storage::{metadata_member, metadata_or_null};
use crate::text::{chars_of, concat, dec, string_from};
use crate::common::network::{
    AddressFamily, AddressKind, RouteKind, address_kind_name, family_name, kind_name,
};
use crate::ctl::output::shown_opt;
use crate::ctl::shown::{
    LinkRecord, bool_text, bool_word, list_text, opt_num, opt_str, shown_list, shown_num, state_text, state_word,
};

verus! {

/// `network links` subcommands.
#[derive(Debug, Clone)]
pub enum LinksCmd {
    List,
    Get { id: Id },
    Update { id: Id, mtu: Option<u32>, metadata: MetadataArgs },
}

/// `network aggrs` subcommands.
#[derive(Debug, Clone)]
pub enum AggrsCmd {
    Create {
        name: String,
        ports: Vec<String>,
        policy: Option<String>,
        lacp: Option<String>,
        timer: Option<String>,
        metadata: MetadataArgs,
    },
    Delete { id: Id },
}

/// `network vlans` subcommands.
#[derive(Debug, Clone)]
pub enum VlansCmd {
    Create { name: String, vid: u16, over: String, metadata: MetadataArgs },
    Delete { id: Id },
}

/// `network etherstubs` subcommands.
#[derive(Debug, Clone)]
pub enum EtherstubsCmd {
    Create { name: String, metadata: MetadataArgs },
    Delete { id: Id },
}

/// `network vnics` subcommands.
#[derive(Debug, Clone)]
pub enum VnicsCmd {
    Create {
        name: String,
        over: String,
        mac: Option<String>,
        vid: Option<u16>,
        mtu: Option<u32>,
        metadata: MetadataArgs,
    },
    Delete { id: Id },
}

/// `network addresses` subcommands.
#[derive(Debug, Clone)]
pub enum AddressesCmd {
    List,
    Get { id: Id },
    Create {
        interface: String,
        kind: String,
        address: Option<String>,
        alias: Option<String>,
        temporary: bool,
        metadata: MetadataArgs,
    },
    Delete { id: Id },
}

/// `network routes` subcommands.
#[derive(Debug, Clone)]
pub enum RoutesCmd {
    List,
    Create { destination: String, gateway: String },
    Delete { id: Id },
}

/// `network` subcommands.
#[derive(Debug, Clone)]
pub enum NetworkCmd {
    Links(LinksCmd),
    Aggrs(AggrsCmd),
    Vlans(VlansCmd),
    Etherstubs(EtherstubsCmd),
    Vnics(VnicsCmd),
    Addresses(AddressesCmd),
    Routes(RoutesCmd),
}

/// A number, or `null`.
pub open spec fn jnum_opt(o: Option<int>) -> Seq<char> {
    match o {
        Some(n) => dec(n as nat),
        None => "null"@,
    }
}

/// What a link update sends, in name order.
pub open spec fn link_update_fields(mtu: Option<u32>, metadata: MetadataArgs) -> Seq<(Seq<char>, Seq<char>)> {
    with_opt(with_opt(Seq::empty(), "metadata"@, metadata_json(metadata)), "mtu"@, match mtu {
        Some(m) => Some(dec(m as nat)),
        None => None,
    })
}

/// A POST to create a link under `kind`.
pub open spec fn create_at(kind: Seq<char>, body: Seq<(Seq<char>, Seq<char>)>) -> Call {
    call("POST"@, "/network/"@ + kind, Seq::empty(), Some(jobj(body)))
}

/// A DELETE of the item `id` under `kind`.
pub open spec fn delete_at(kind: Seq<char>, id: Id) -> Call {
    bare("DELETE"@, "/network/"@ + kind + "/"@ + uuid_text(id.value()))
}

/// The call a `network links` command makes.
pub open spec fn links_call(c: LinksCmd) -> Result<Call, Seq<char>> {
    match c {
        LinksCmd::List => Ok(bare("GET"@, "/network/links"@)),
        LinksCmd::Get { id } => Ok(bare("GET"@, "/network/links/"@ + uuid_text(id.value()))),
        LinksCmd::Update { id, mtu, metadata } => {
            let f = link_update_fields(mtu, metadata);
            if f.len() == 0 {
                Err("nothing to update"@)
            } else {
                Ok(call("PATCH"@, "/network/links/"@ + uuid_text(id.value()), Seq::empty(), Some(jobj(f))))
            }
        },
    }
}

/// The call a `network aggrs` command makes.
pub open spec fn aggrs_call(c: AggrsCmd) -> Result<Call, Seq<char>> {
    match c {
        AggrsCmd::Create { name, ports, policy, lacp, timer, metadata } => Ok(create_at("aggrs"@, seq![
            ("lacp_mode"@, jopt(opt_seq(lacp))),
            ("lacp_timer"@, jopt(opt_seq(timer))),
            ("metadata"@, metadata_or_null(metadata)),
            ("name"@, jstr(name@)),
            ("policy"@, jopt(opt_seq(policy))),
            ("ports"@, jstrs(string_views(ports@))),
        ])),
        AggrsCmd::Delete { id } => Ok(delete_at("aggrs"@, id)),
    }
}

/// The call a `network vlans` command makes.
pub open spec fn vlans_call(c: VlansCmd) -> Result<Call, Seq<char>> {
    match c {
        VlansCmd::Create { name, vid, over, metadata } => Ok(create_at("vlans"@, seq![
            ("metadata"@, metadata_or_null(metadata)),
            ("name"@, jstr(name@)),
            ("over"@, jstr(over@)),
            ("vid"@, dec(vid as nat)),
        ])),
        VlansCmd::Delete { id } => Ok(delete_at("vlans"@, id)),
    }
}

/// The call a `network etherstubs` command makes.
pub open spec fn etherstubs_call(c: EtherstubsCmd) -> Result<Call, Seq<char>> {
    match c {
        EtherstubsCmd::Create { name, metadata } => Ok(create_at("etherstubs"@, seq![
            ("metadata"@, metadata_or_null(metadata)),
            ("name"@, jstr(name@)),
        ])),
        EtherstubsCmd::Delete { id } => Ok(delete_at("etherstubs"@, id)),
    }
}

/// The call a `network vnics` command makes.
pub open spec fn vnics_call(c: VnicsCmd) -> Result<Call, Seq<char>> {
    match c {
        VnicsCmd::Create { name, over, mac, vid, mtu, metadata } => Ok(create_at("vnics"@, seq![
            ("mac"@, jopt(opt_seq(mac))),
            ("metadata"@, metadata_or_null(metadata)),
            ("mtu"@, jnum_opt(match mtu { Some(m) => Some(m as int), None => None })),
            ("name"@, jstr(name@)),
            ("over"@, jstr(over@)),
            ("vid"@, jnum_opt(match vid { Some(v) => Some(v as int), None => None })),
        ])),
        VnicsCmd::Delete { id } => Ok(delete_at("vnics"@, id)),
    }
}

/// The call a `network addresses` command makes.
pub open spec fn addresses_call(c: AddressesCmd) -> Result<Call, Seq<char>> {
    match c {
        AddressesCmd::List => Ok(bare("GET"@, "/network/addresses"@)),
        AddressesCmd::Get { id } => Ok(bare("GET"@, "/network/addresses/"@ + uuid_text(id.value()))),
        AddressesCmd::Create { interface, kind, address, alias, temporary, metadata } => Ok(create_at(
            "addresses"@, seq![
            ("address"@, jopt(opt_seq(address))),
            ("alias"@, jopt(opt_seq(alias))),
            ("interface"@, jstr(interface@)),
            ("kind"@, jstr(kind@)),
            ("metadata"@, metadata_or_null(metadata)),
            ("temporary"@, jbool(temporary)),
        ])),
        AddressesCmd::Delete { id } => Ok(delete_at("addresses"@, id)),
    }
}

/// The call a `network routes` command makes.
pub open spec fn routes_call(c: RoutesCmd) -> Result<Call, Seq<char>> {
    match c {
        RoutesCmd::List => Ok(bare("GET"@, "/network/routes"@)),
        RoutesCmd::Create { destination, gateway } => Ok(create_at("routes"@, seq![
            ("destination"@, jstr(destination@)),
            ("gateway"@, jstr(gateway@)),
        ])),
        RoutesCmd::Delete { id } => Ok(delete_at("routes"@, id)),
    }
}

/// The call a network command makes.
pub open spec fn network_call(cmd: NetworkCmd) -> Result<Call, Seq<char>> {
    match cmd {
        NetworkCmd::Links(c) => links_call(c),
        NetworkCmd::Aggrs(c) => aggrs_call(c),
        NetworkCmd::Vlans(c) => vlans_call(c),
        NetworkCmd::Etherstubs(c) => etherstubs_call(c),
        NetworkCmd::Vnics(c) => vnics_call(c),
        NetworkCmd::Addresses(c) => addresses_call(c),
        NetworkCmd::Routes(c) => routes_call(c),
    }
}

fn num_or_null(o: Option<u64>) -> (r: String)
    ensures
        r@ == jnum_opt(match o { Some(n) => Some(n as int), None => None }),
{
    match o {
        Some(n) => json_num(n),
        None => "null".to_owned(),
    }
}

fn create_request(path: &str, fs: &Vec<(String, String)>) -> (r: Request)
    ensures
        crate::ctl::request::request_view(r) == call("POST"@, path@, Seq::empty(), Some(jobj(field_views(fs@)))),
{
    request("POST", path.to_owned(), no_query(), Some(json_object(fs)))
}

fn delete_request(path: &str, id: Id) -> (r: Request)
    ensures
        crate::ctl::request::request_view(r) == bare("DELETE"@, path@ + uuid_text(id.value())),
{
    request("DELETE", id_at(path, id), no_query(), None)
}

/// The call a `network links` command makes.
pub fn links_request(c: &LinksCmd) -> (r: Result<Request, Error>)
    ensures
        made(r, links_call(*c)),
{
    match c {
        LinksCmd::List => Ok(request("GET", "/network/links".to_owned(), no_query(), None)),
        LinksCmd::Get { id } => Ok(request("GET", id_at("/network/links/", *id), no_query(), None)),
        LinksCmd::Update { id, mtu, metadata } => {
            let mut fs = no_query();
            push_opt(&mut fs, "metadata", metadata_of(metadata));
            push_opt(&mut fs, "mtu", match mtu {
                Some(m) => Some(json_num(*m as u64)),
                None => None,
            });
            if count(&fs) == 0 {
                Err(Error::Config("nothing to update".to_owned()))
            } else {
                Ok(request("PATCH", id_at("/network/links/", *id), no_query(), Some(json_object(&fs))))
            }
        },
    }
}

/// The call a `network aggrs` command makes.
pub fn aggrs_request(c: &AggrsCmd) -> (r: Result<Request, Error>)
    ensures
        made(r, aggrs_call(*c)),
{
    proof {
        reveal_strlit("/network/aggrs");
        reveal_strlit("/network/aggrs/");
        reveal_strlit("/network/");
        reveal_strlit("/");
        reveal_strlit("aggrs");
    }
    match c {
        AggrsCmd::Create { name, ports, policy, lacp, timer, metadata } => {
            let mut fs = no_query();
            push_field(&mut fs, "lacp_mode", json_opt(lacp));
            push_field(&mut fs, "lacp_timer", json_opt(timer));
            push_field(&mut fs, "metadata", metadata_member(metadata));
            push_field(&mut fs, "name", json_str(name.as_str()));
            push_field(&mut fs, "policy", json_opt(policy));
            push_field(&mut fs, "ports", json_strings(ports));
            let r = create_request("/network/aggrs", &fs);
            proof {
                assert(field_views(fs@) =~= seq![
                    ("lacp_mode"@, jopt(opt_seq(*lacp))),
                    ("lacp_timer"@, jopt(opt_seq(*timer))),
                    ("metadata"@, metadata_or_null(*metadata)),
                    ("name"@, jstr(name@)),
                    ("policy"@, jopt(opt_seq(*policy))),
                    ("ports"@, jstrs(string_views(ports@))),
                ]);
                assert("/network/aggrs"@ =~= "/network/"@ + "aggrs"@);
            }
            Ok(r)
        },
        AggrsCmd::Delete { id } => {
            let r = delete_request("/network/aggrs/", *id);
            proof {
                assert("/network/aggrs/"@ + uuid_text(id.value()) =~= "/network/"@ + "aggrs"@ + "/"@ + uuid_text(
                    id.value()));
            }
            Ok(r)
        },
    }
}

/// The call a `network vlans` command makes.
pub fn vlans_request(c: &VlansCmd) -> (r: Result<Request, Error>)
    ensures
        made(r, vlans_call(*c)),
{
    proof {
        reveal_strlit("/network/vlans");
        reveal_strlit("/network/vlans/");
        reveal_strlit("/network/");
        reveal_strlit("/");
        reveal_strlit("vlans");
    }
    match c {
        VlansCmd::Create { name, vid, over, metadata } => {
            let mut fs = no_query();
            push_field(&mut fs, "metadata", metadata_member(metadata));
            push_field(&mut fs, "name", json_str(name.as_str()));
            push_field(&mut fs, "over", json_str(over.as_str()));
            push_field(&mut fs, "vid", json_num(*vid as u64));
            let r = create_request("/network/vlans", &fs);
            proof {
                assert(field_views(fs@) =~= seq![
                    ("metadata"@, metadata_or_null(*metadata)),
                    ("name"@, jstr(name@)),
                    ("over"@, jstr(over@)),
                    ("vid"@, dec(*vid as nat)),
                ]);
                assert("/network/vlans"@ =~= "/network/"@ + "vlans"@);
            }
            Ok(r)
        },
        VlansCmd::Delete { id } => {
            let r = delete_request("/network/vlans/", *id);
            proof {
                assert("/network/vlans/"@ + uuid_text(id.value()) =~= "/network/"@ + "vlans"@ + "/"@ + uuid_text(
                    id.value()));
            }
            Ok(r)
        },
    }
}

/// The call a `network etherstubs` command makes.
pub fn etherstubs_request(c: &EtherstubsCmd) -> (r: Result<Request, Error>)
    ensures
        made(r, etherstubs_call(*c)),
{
    proof {
        reveal_strlit("/network/etherstubs");
        reveal_strlit("/network/etherstubs/");
        reveal_strlit("/network/");
        reveal_strlit("/");
        reveal_strlit("etherstubs");
    }
    match c {
        EtherstubsCmd::Create { name, metadata } => {
            let mut fs = no_query();
            push_field(&mut fs, "metadata", metadata_member(metadata));
            push_field(&mut fs, "name", json_str(name.as_str()));
            let r = create_request("/network/etherstubs", &fs);
            proof {
                assert(field_views(fs@) =~= seq![
                    ("metadata"@, metadata_or_null(*metadata)),
                    ("name"@, jstr(name@)),
                ]);
                assert("/network/etherstubs"@ =~= "/network/"@ + "etherstubs"@);
            }
            Ok(r)
        },
        EtherstubsCmd::Delete { id } => {
            let r = delete_request("/network/etherstubs/", *id);
            proof {
                assert("/network/etherstubs/"@ + uuid_text(id.value()) =~= "/network/"@ + "etherstubs"@ + "/"@
                    + uuid_text(id.value()));
            }
            Ok(r)
        },
    }
}

/// The call a `network vnics` command makes.
pub fn vnics_request(c: &VnicsCmd) -> (r: Result<Request, Error>)
    ensures
        made(r, vnics_call(*c)),
{
    proof {
        reveal_strlit("/network/vnics");
        reveal_strlit("/network/vnics/");
        reveal_strlit("/network/");
        reveal_strlit("/");
        reveal_strlit("vnics");
    }
    match c {
        VnicsCmd::Create { name, over, mac, vid, mtu, metadata } => {
            let mut fs = no_query();
            push_field(&mut fs, "mac", json_opt(mac));
            push_field(&mut fs, "metadata", metadata_member(metadata));
            push_field(&mut fs, "mtu", num_or_null(match mtu { Some(m) => Some(*m as u64), None => None }));
            push_field(&mut fs, "name", json_str(name.as_str()));
            push_field(&mut fs, "over", json_str(over.as_str()));
            push_field(&mut fs, "vid", num_or_null(match vid { Some(v) => Some(*v as u64), None => None }));
            let r = create_request("/network/vnics", &fs);
            proof {
                assert(field_views(fs@) =~= seq![
                    ("mac"@, jopt(opt_seq(*mac))),
                    ("metadata"@, metadata_or_null(*metadata)),
                    ("mtu"@, jnum_opt(match *mtu { Some(m) => Some(m as int), None => None })),
                    ("name"@, jstr(name@)),
                    ("over"@, jstr(over@)),
                    ("vid"@, jnum_opt(match *vid { Some(v) => Some(v as int), None => None })),
                ]);
                assert("/network/vnics"@ =~= "/network/"@ + "vnics"@);
            }
            Ok(r)
        },
        VnicsCmd::Delete { id } => {
            let r = delete_request("/network/vnics/", *id);
            proof {
                assert("/network/vnics/"@ + uuid_text(id.value()) =~= "/network/"@ + "vnics"@ + "/"@ + uuid_text(
                    id.value()));
            }
            Ok(r)
        },
    }
}

/// The call a `network addresses` command makes.
pub fn addresses_request(c: &AddressesCmd) -> (r: Result<Request, Error>)
    ensures
        made(r, addresses_call(*c)),
{
    proof {
        reveal_strlit("/network/addresses");
        reveal_strlit("/network/addresses/");
        reveal_strlit("/network/");
        reveal_strlit("/");
        reveal_strlit("addresses");
    }
    match c {
        AddressesCmd::List => Ok(request("GET", "/network/addresses".to_owned(), no_query(), None)),
        AddressesCmd::Get { id } => Ok(request("GET", id_at("/network/addresses/", *id), no_query(), None)),
        AddressesCmd::Create { interface, kind, address, alias, temporary, metadata } => {
            let mut fs = no_query();
            push_field(&mut fs, "address", json_opt(address));
            push_field(&mut fs, "alias", json_opt(alias));
            push_field(&mut fs, "interface", json_str(interface.as_str()));
            push_field(&mut fs, "kind", json_str(kind.as_str()));
            push_field(&mut fs, "metadata", metadata_member(metadata));
            push_field(&mut fs, "temporary", json_bool(*temporary).to_owned());
            let r = create_request("/network/addresses", &fs);
            proof {
                assert(field_views(fs@) =~= seq![
                    ("address"@, jopt(opt_seq(*address))),
                    ("alias"@, jopt(opt_seq(*alias))),
                    ("interface"@, jstr(interface@)),
                    ("kind"@, jstr(kind@)),
                    ("metadata"@, metadata_or_null(*metadata)),
                    ("temporary"@, jbool(*temporary)),
                ]);
                assert("/network/addresses"@ =~= "/network/"@ + "addresses"@);
            }
            Ok(r)
        },
        AddressesCmd::Delete { id } => {
            let r = delete_request("/network/addresses/", *id);
            proof {
                assert("/network/addresses/"@ + uuid_text(id.value()) =~= "/network/"@ + "addresses"@ + "/"@
                    + uuid_text(id.value()));
            }
            Ok(r)
        },
    }
}

/// The call a `network routes` command makes.
pub fn routes_request(c: &RoutesCmd) -> (r: Result<Request, Error>)
    ensures
        made(r, routes_call(*c)),
{
    proof {
        reveal_strlit("/network/routes");
        reveal_strlit("/network/routes/");
        reveal_strlit("/network/");
        reveal_strlit("/");
        reveal_strlit("routes");
    }
    match c {
        RoutesCmd::List => Ok(request("GET", "/network/routes".to_owned(), no_query(), None)),
        RoutesCmd::Create { destination, gateway } => {
            let mut fs = no_query();
            push_field(&mut fs, "destination", json_str(destination.as_str()));
            push_field(&mut fs, "gateway", json_str(gateway.as_str()));
            let r = create_request("/network/routes", &fs);
            proof {
                assert(field_views(fs@) =~= seq![
                    ("destination"@, jstr(destination@)),
                    ("gateway"@, jstr(gateway@)),
                ]);
                assert("/network/routes"@ =~= "/network/"@ + "routes"@);
            }
            Ok(r)
        },
        RoutesCmd::Delete { id } => {
            let r = delete_request("/network/routes/", *id);
            proof {
                assert("/network/routes/"@ + uuid_text(id.value()) =~= "/network/"@ + "routes"@ + "/"@
                    + uuid_text(id.value()));
            }
            Ok(r)
        },
    }
}

/// The call a network command makes.
pub fn network_request(cmd: &NetworkCmd) -> (r: Result<Request, Error>)
    ensures
        made(r, network_call(*cmd)),
{
    match cmd {
        NetworkCmd::Links(c) => links_request(c),
        NetworkCmd::Aggrs(c) => aggrs_request(c),
        NetworkCmd::Vlans(c) => vlans_request(c),
        NetworkCmd::Etherstubs(c) => etherstubs_request(c),
        NetworkCmd::Vnics(c) => vnics_request(c),
        NetworkCmd::Addresses(c) => addresses_request(c),
        NetworkCmd::Routes(c) => routes_request(c),
    }
}

/// A link's row: id, name (marked when protected), kind, state, over,
/// MAC, VLAN id, MTU.
pub open spec fn link_row_spec(l: LinkRecord) -> Seq<Seq<char>> {
    seq![uuid_text(l.id.value()), if l.protected { l.name@ + " (protected)"@ } else { l.name@ }, kind_name(l.kind),
        state_word(l.state), shown_list(string_views(l.over@), ","@), shown_opt(opt_seq(l.mac)),
        shown_num(match l.vid { Some(v) => Some(v as int), None => None }),
        shown_num(match l.mtu { Some(m) => Some(m as int), None => None })]
}

fn marked(name: &String, protected: bool, mark: &str) -> (r: String)
    ensures
        r@ == if protected { name@ + mark@ } else { name@ },
{
    if protected {
        string_from(concat(chars_of(name.as_str()).as_slice(), chars_of(mark).as_slice()).as_slice())
    } else {
        name.clone()
    }
}

/// A link's row: id, name (marked when protected), kind, state, over,
/// MAC, VLAN id, MTU.
pub fn link_row(l: &LinkRecord) -> (r: Vec<String>)
    ensures
        string_views(r@) == link_row_spec(*l),
{
    let mut v: Vec<String> = Vec::new();
    v.push(l.id.to_text());
    v.push(marked(&l.name, l.protected, " (protected)"));
    v.push(l.kind.as_str().to_owned());
    v.push(state_text(l.state).to_owned());
    v.push(list_text(&l.over, ","));
    v.push(opt_str(&l.mac));
    v.push(opt_num(match l.vid { Some(x) => Some(x as u64), None => None }));
    v.push(opt_num(match l.mtu { Some(x) => Some(x as u64), None => None }));
    assert(string_views(v@) =~= link_row_spec(*l));
    v
}

/// An address as the API gives it.
#[derive(Debug, Clone)]
pub struct AddressRecord {
    pub id: Id,
    pub name: String,
    pub interface: String,
    pub kind: AddressKind,
    pub family: AddressFamily,
    pub address: Option<String>,
    pub state: String,
    pub persistent: bool,
    pub protected: bool,
}

/// An address's row: id, name (marked when it is the management
/// address), address, kind, family, state, persistent.
pub open spec fn address_row_spec(a: AddressRecord) -> Seq<Seq<char>> {
    seq![uuid_text(a.id.value()), if a.protected { a.name@ + " (management)"@ } else { a.name@ },
        shown_opt(opt_seq(a.address)), address_kind_name(a.kind), family_name(a.family), a.state@,
        bool_word(a.persistent)]
}

/// An address's row: id, name (marked when it is the management
/// address), address, kind, family, state, persistent.
pub fn address_row(a: &AddressRecord) -> (r: Vec<String>)
    ensures
        string_views(r@) == address_row_spec(*a),
{
    let mut v: Vec<String> = Vec::new();
    v.push(a.id.to_text());
    v.push(marked(&a.name, a.protected, " (management)"));
    v.push(opt_str(&a.address));
    v.push(a.kind.as_str().to_owned());
    v.push(a.family.as_str().to_owned());
    v.push(a.state.clone());
    v.push(bool_text(a.persistent));
    assert(string_views(v@) =~= address_row_spec(*a));
    v
}

/// A route as the API gives it.
#[derive(Debug, Clone)]
pub struct RouteRecord {
    pub id: Id,
    pub destination: String,
    pub gateway: Option<String>,
    pub family: AddressFamily,
    pub interface: Option<String>,
    pub kind: RouteKind,
    pub persistent: bool,
}

/// A route's kind in lower case.
pub open spec fn route_kind_word(k: RouteKind) -> Seq<char> {
    match k {
        RouteKind::Static => "static"@,
        RouteKind::Interface => "interface"@,
        RouteKind::Dynamic => "dynamic"@,
    }
}

/// A route's row: id, destination, gateway, family, interface, kind,
/// persistent.
pub open spec fn route_row_spec(r: RouteRecord) -> Seq<Seq<char>> {
    seq![uuid_text(r.id.value()), r.destination@, shown_opt(opt_seq(r.gateway)), family_name(r.family),
        shown_opt(opt_seq(r.interface)), route_kind_word(r.kind), bool_word(r.persistent)]
}

/// A route's row: id, destination, gateway, family, interface, kind,
/// persistent.
pub fn route_row(r: &RouteRecord) -> (out: Vec<String>)
    ensures
        string_views(out@) == route_row_spec(*r),
{
    let mut v: Vec<String> = Vec::new();
    v.push(r.id.to_text());
    v.push(r.destination.clone());
    v.push(opt_str(&r.gateway));
    v.push(r.family.as_str().to_owned());
    v.push(opt_str(&r.interface));
    v.push(match r.kind {
        RouteKind::Static => "static".to_owned(),
        RouteKind::Interface => "interface".to_owned(),
        RouteKind::Dynamic => "dynamic".to_owned(),
    });
    v.push(bool_text(r.persistent));
    assert(string_views(v@) =~= route_row_spec(*r));
    v
}

} // verus!
