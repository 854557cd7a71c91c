//! What the network driver reads and accepts.
use vstd::prelude::*;
use crate::common::network::{
    AddressFamily, AddressKind, AggrInfo, Duplex, LacpMode, LacpTimer, LinkKind, LinkState,
    MacMode, RouteKind, family_of,
};
use crate::common::shell::{FailureKind, ShellError, error_text};
use crate::text::{chars_of, contains, has, index_of_char, lower, lowered, split_char};

verus! {

/// Why a network operation failed.
#[derive(Debug, Clone)]
pub enum NetError {
    /// A tool failed.
    Command(ShellError),
    /// A tool's output did not parse.
    Parse {
        /// The command whose output it was.
        command: String,
        /// What was wrong.
        detail: String,
    },
    /// The object does not exist.
    NotFound(String),
    /// The request cannot be carried out.
    Unsupported(String),
}

/// How a tool's own words classify a failure: the first rule whose words
/// occur in the lower-cased message wins.
pub open spec fn net_text_kind(t: Seq<char>) -> FailureKind {
    if contains(t, "not found"@) || contains(t, "does not exist"@) || contains(t, "not in table"@)
        || contains(t, "no such"@) {
        FailureKind::NotFound
    } else if contains(t, "exists"@) {
        FailureKind::Exists
    } else if contains(t, "busy"@) || contains(t, "in use"@) || contains(t, "dependent"@) {
        FailureKind::Conflict
    } else if contains(t, "permission denied"@) || contains(t, "insufficient privileges"@)
        || contains(t, "not authorized"@) || contains(t, "must be root"@) {
        FailureKind::Forbidden
    } else if contains(t, "invalid"@) || contains(t, "usage:"@) || contains(t, "unreachable"@)
        || contains(t, "bad "@) || contains(t, "must be"@) || contains(t, "unknown"@) {
        FailureKind::Invalid
    } else {
        FailureKind::Other
    }
}

/// The classification of a network error.
pub open spec fn net_error_kind(e: NetError) -> FailureKind {
    match e {
        NetError::NotFound(_) => FailureKind::NotFound,
        NetError::Parse { .. } => FailureKind::Other,
        NetError::Unsupported(_) => FailureKind::Invalid,
        NetError::Command(c) => net_text_kind(lower(error_text(c))),
    }
}

fn classify_net_text(t: &[char]) -> (r: FailureKind)
    ensures
        r == net_text_kind(t@),
{
    if has(t, "not found") || has(t, "does not exist") || has(t, "not in table") || has(t, "no such") {
        FailureKind::NotFound
    } else if has(t, "exists") {
        FailureKind::Exists
    } else if has(t, "busy") || has(t, "in use") || has(t, "dependent") {
        FailureKind::Conflict
    } else if has(t, "permission denied") || has(t, "insufficient privileges") || has(t, "not authorized")
        || has(t, "must be root") {
        FailureKind::Forbidden
    } else if has(t, "invalid") || has(t, "usage:") || has(t, "unreachable") || has(t, "bad ")
        || has(t, "must be") || has(t, "unknown") {
        FailureKind::Invalid
    } else {
        FailureKind::Other
    }
}

impl NetError {
    /// How the failure maps to an HTTP answer.
    pub fn kind(&self) -> (r: FailureKind)
        ensures
            r == net_error_kind(*self),
    {
        match self {
            NetError::NotFound(_) => FailureKind::NotFound,
            NetError::Parse { .. } => FailureKind::Other,
            NetError::Unsupported(_) => FailureKind::Invalid,
            NetError::Command(e) => {
                let t = chars_of(e.stderr());
                let l = lowered(t.as_slice());
                classify_net_text(l.as_slice())
            },
        }
    }
}

/// One datalink as the driver sees it.
#[derive(Debug, Clone, PartialEq, Eq)]
pub struct LinkInfo {
    /// Name.
    pub name: String,
    /// Kind.
    pub kind: LinkKind,
    /// Operational state.
    pub state: LinkState,
    /// Underlying links.
    pub over: Vec<String>,
    /// MTU.
    pub mtu: Option<u32>,
    /// MAC address.
    pub mac: Option<String>,
    /// How the MAC was chosen.
    pub mac_mode: Option<MacMode>,
    /// VLAN id.
    pub vid: Option<u16>,
    /// Speed.
    pub speed_mbps: Option<u32>,
    /// Duplex.
    pub duplex: Option<Duplex>,
    /// Device.
    pub device: Option<String>,
    /// Media.
    pub media: Option<String>,
    /// Aggregation details.
    pub aggr: Option<AggrInfo>,
    /// Zone the link is assigned to.
    pub zone: Option<String>,
}

impl LinkInfo {
    /// A link with only its name and kind known.
    pub fn new(name: &str, kind: LinkKind) -> (l: LinkInfo)
        ensures
            l.name@ == name@,
            l.kind == kind,
            l.state == LinkState::Unknown,
            l.over@.len() == 0,
            l.mtu is None,
            l.mac is None,
            l.mac_mode is None,
            l.vid is None,
            l.speed_mbps is None,
            l.duplex is None,
            l.device is None,
            l.media is None,
            l.aggr is None,
            l.zone is None,
    {
        LinkInfo {
            name: name.to_owned(),
            kind,
            state: LinkState::Unknown,
            over: Vec::new(),
            mtu: None,
            mac: None,
            mac_mode: None,
            vid: None,
            speed_mbps: None,
            duplex: None,
            device: None,
            media: None,
            aggr: None,
            zone: None,
        }
    }
}

/// One IP interface.
#[derive(Debug, Clone, PartialEq, Eq)]
pub struct InterfaceInfo {
    /// Name.
    pub name: String,
    /// Class: `ip`, `loopback`, ...
    pub class: String,
    /// State.
    pub state: String,
    /// Underlying interface (IPMP).
    pub over: Option<String>,
}

/// One address object.
#[derive(Debug, Clone, PartialEq, Eq)]
pub struct AddressInfo {
    /// `interface/alias`.
    pub name: String,
    /// Interface.
    pub interface: String,
    /// Kind.
    pub kind: AddressKind,
    /// Family.
    pub family: AddressFamily,
    /// Address with prefix.
    pub address: Option<String>,
    /// State.
    pub state: String,
    /// Persistent across reboots.
    pub persistent: bool,
}

/// The interface part of an address object: the text before the first
/// `/`, or all of it.
pub open spec fn interface_part(addrobj: Seq<char>) -> Seq<char> {
    split_char(addrobj, '/')[0]
}

/// The interface an address object is on: the part before the first `/`.
pub fn interface_of(addrobj: &str) -> (r: &str)
    ensures
        r@ == interface_part(addrobj@),
{
    let c = chars_of(addrobj);
    proof {
        crate::text::lemma_split_first(addrobj@, '/');
    }
    match index_of_char(c.as_slice(), '/') {
        Some(i) => addrobj.substring_char(0, i),
        None => addrobj,
    }
}

/// One route.
#[derive(Debug, Clone, PartialEq, Eq)]
pub struct RouteInfo {
    /// `default` or `address/prefix`.
    pub destination: String,
    /// Gateway.
    pub gateway: Option<String>,
    /// Family.
    pub family: AddressFamily,
    /// Interface.
    pub interface: Option<String>,
    /// `netstat` flags.
    pub flags: Option<String>,
    /// Origin.
    pub kind: RouteKind,
    /// Listed by `route -p show`.
    pub persistent: bool,
}

/// An aggregation to create.
#[derive(Debug, Clone, PartialEq, Eq)]
pub struct AggrSpec {
    /// Name.
    pub name: String,
    /// Ports.
    pub ports: Vec<String>,
    /// Policy.
    pub policy: String,
    /// LACP activity.
    pub lacp_mode: LacpMode,
    /// LACP timer.
    pub lacp_timer: LacpTimer,
}

/// A VLAN to create.
#[derive(Debug, Clone, PartialEq, Eq)]
pub struct VlanSpec {
    /// Name.
    pub name: String,
    /// VLAN id.
    pub vid: u16,
    /// Underlying link.
    pub over: String,
}

/// A VNIC to create.
#[derive(Debug, Clone, PartialEq, Eq)]
pub struct VnicSpec {
    /// Name.
    pub name: String,
    /// Underlying link.
    pub over: String,
    /// MAC address, else random.
    pub mac: Option<String>,
    /// VLAN id.
    pub vid: Option<u16>,
    /// MTU.
    pub mtu: Option<u32>,
}

/// An address to create.
#[derive(Debug, Clone, PartialEq, Eq)]
pub struct AddressSpec {
    /// `interface/alias`.
    pub addrobj: String,
    /// Kind.
    pub kind: AddressKind,
    /// Address with prefix, for static.
    pub address: Option<String>,
    /// Not persistent.
    pub temporary: bool,
}

impl AddressSpec {
    /// The interface the address goes on.
    pub fn interface(&self) -> (r: &str)
        ensures
            r@ == interface_part(self.addrobj@),
    {
        interface_of(self.addrobj.as_str())
    }
}

/// A route to add or delete.
#[derive(Debug, Clone, PartialEq, Eq)]
pub struct RouteSpec {
    /// `default` or `address/prefix`.
    pub destination: String,
    /// Gateway.
    pub gateway: String,
    /// Family.
    pub family: AddressFamily,
}

impl RouteSpec {
    /// A route whose family follows its gateway.
    pub fn new(destination: &str, gateway: &str) -> (r: RouteSpec)
        ensures
            r.destination@ == destination@,
            r.gateway@ == gateway@,
            r.family == family_of(gateway@),
    {
        RouteSpec {
            destination: destination.to_owned(),
            gateway: gateway.to_owned(),
            family: AddressFamily::of(gateway),
        }
    }
}

} // verus!
