//! Network wire types: link kinds and states, LACP, address kinds and
//! families, route kinds.
use vstd::prelude::*;
use crate::text::{chars_of, has_char, is, split_char, split_on, trim, trimmed};

verus! {

/// What a datalink is.
#[derive(Debug, Clone, Copy, PartialEq, Eq, Structural)]
pub enum LinkKind {
    /// A physical port.
    Phys,
    /// A link aggregation.
    Aggr,
    /// A VLAN over a physical link or aggregation.
    Vlan,
    /// A virtual switch with no physical port.
    Etherstub,
    /// A virtual NIC.
    Vnic,
    /// Anything else `dladm` reports.
    Other,
}

/// The kind for a `dladm` CLASS column.
pub open spec fn kind_of_class(class: Seq<char>) -> LinkKind {
    if class == "phys"@ {
        LinkKind::Phys
    } else if class == "aggr"@ {
        LinkKind::Aggr
    } else if class == "vlan"@ {
        LinkKind::Vlan
    } else if class == "etherstub"@ {
        LinkKind::Etherstub
    } else if class == "vnic"@ {
        LinkKind::Vnic
    } else {
        LinkKind::Other
    }
}

/// The name of a link kind.
pub open spec fn kind_name(k: LinkKind) -> Seq<char> {
    match k {
        LinkKind::Phys => "phys"@,
        LinkKind::Aggr => "aggr"@,
        LinkKind::Vlan => "vlan"@,
        LinkKind::Etherstub => "etherstub"@,
        LinkKind::Vnic => "vnic"@,
        LinkKind::Other => "other"@,
    }
}

impl LinkKind {
    /// From `dladm`'s CLASS column.
    pub fn from_class(class: &str) -> (k: LinkKind)
        ensures
            k == kind_of_class(class@),
    {
        let c = chars_of(class);
        LinkKind::from_chars(c.as_slice())
    }

    /// From a CLASS column already split into characters.
    pub fn from_chars(c: &[char]) -> (k: LinkKind)
        ensures
            k == kind_of_class(c@),
    {
        if is(c, "phys") {
            LinkKind::Phys
        } else if is(c, "aggr") {
            LinkKind::Aggr
        } else if is(c, "vlan") {
            LinkKind::Vlan
        } else if is(c, "etherstub") {
            LinkKind::Etherstub
        } else if is(c, "vnic") {
            LinkKind::Vnic
        } else {
            LinkKind::Other
        }
    }

    /// As the API spells it.
    pub fn as_str(self) -> (r: &'static str)
        ensures
            r@ == kind_name(self),
    {
        match self {
            LinkKind::Phys => "phys",
            LinkKind::Aggr => "aggr",
            LinkKind::Vlan => "vlan",
            LinkKind::Etherstub => "etherstub",
            LinkKind::Vnic => "vnic",
            LinkKind::Other => "other",
        }
    }
}

/// Every kind but `Other` reads back from its own name.
pub proof fn lemma_link_kind_round_trip(k: LinkKind)
    requires
        k != LinkKind::Other,
    ensures
        kind_of_class(kind_name(k)) == k,
{
    reveal_strlit("phys");
    reveal_strlit("aggr");
    reveal_strlit("vlan");
    reveal_strlit("etherstub");
    reveal_strlit("vnic");
    assert("phys"@ != "aggr"@) by { assert("phys"@[0] != "aggr"@[0]); }
    assert("phys"@ != "vlan"@) by { assert("phys"@[0] != "vlan"@[0]); }
    assert("phys"@ != "vnic"@) by { assert("phys"@[0] != "vnic"@[0]); }
    assert("aggr"@ != "vlan"@) by { assert("aggr"@[0] != "vlan"@[0]); }
    assert("aggr"@ != "vnic"@) by { assert("aggr"@[0] != "vnic"@[0]); }
    assert("vlan"@ != "vnic"@) by { assert("vlan"@[1] != "vnic"@[1]); }
    assert("etherstub"@.len() == 9);
    assert("phys"@.len() == 4);
    assert("aggr"@.len() == 4);
    assert("vlan"@.len() == 4);
}

/// Operational state.
#[derive(Debug, Clone, Copy, PartialEq, Eq, Structural)]
pub enum LinkState {
    /// Carrier.
    Up,
    /// No carrier.
    Down,
    /// Not reported.
    Unknown,
}

/// The state for a `dladm` STATE column.
pub open spec fn state_of(s: Seq<char>) -> LinkState {
    if s == "up"@ {
        LinkState::Up
    } else if s == "down"@ {
        LinkState::Down
    } else {
        LinkState::Unknown
    }
}

impl LinkState {
    /// From `dladm`'s STATE column.
    pub fn from_dladm(s: &str) -> (r: LinkState)
        ensures
            r == state_of(s@),
    {
        let c = chars_of(s);
        LinkState::from_chars(c.as_slice())
    }

    /// From a STATE column already split into characters.
    pub fn from_chars(c: &[char]) -> (r: LinkState)
        ensures
            r == state_of(c@),
    {
        if is(c, "up") {
            LinkState::Up
        } else if is(c, "down") {
            LinkState::Down
        } else {
            LinkState::Unknown
        }
    }
}

/// How a VNIC's MAC address was chosen.
#[derive(Debug, Clone, Copy, PartialEq, Eq, Structural)]
pub enum MacMode {
    /// Chosen by the system.
    Auto,
    /// Given explicitly.
    Fixed,
    /// Random.
    Random,
    /// The port's factory address.
    Factory,
}

/// The mode for a `dladm` MACADDRTYPE column: its first comma-separated
/// word, trimmed.
pub open spec fn mac_mode_of(s: Seq<char>) -> MacMode {
    let w = trim(split_char(s, ',')[0]);
    if w == "fixed"@ {
        MacMode::Fixed
    } else if w == "random"@ {
        MacMode::Random
    } else if w == "factory"@ {
        MacMode::Factory
    } else {
        MacMode::Auto
    }
}

impl MacMode {
    /// From `dladm`'s MACADDRTYPE column.
    pub fn from_dladm(s: &str) -> (r: MacMode)
        ensures
            r == mac_mode_of(s@),
    {
        let c = chars_of(s);
        MacMode::from_chars(c.as_slice())
    }

    /// From a MACADDRTYPE column already split into characters.
    pub fn from_chars(c: &[char]) -> (r: MacMode)
        ensures
            r == mac_mode_of(c@),
    {
        let parts = split_on(c, ',');
        proof {
            crate::text::lemma_split_char_nonempty(c@, ',');
        }
        let w = trimmed(parts[0].as_slice());
        if is(w.as_slice(), "fixed") {
            MacMode::Fixed
        } else if is(w.as_slice(), "random") {
            MacMode::Random
        } else if is(w.as_slice(), "factory") {
            MacMode::Factory
        } else {
            MacMode::Auto
        }
    }
}

/// Duplex.
#[derive(Debug, Clone, Copy, PartialEq, Eq, Structural)]
pub enum Duplex {
    /// Full.
    Full,
    /// Half.
    Half,
    /// Not reported.
    Unknown,
}

/// The duplex for a `dladm` DUPLEX column.
pub open spec fn duplex_of(s: Seq<char>) -> Duplex {
    if s == "full"@ {
        Duplex::Full
    } else if s == "half"@ {
        Duplex::Half
    } else {
        Duplex::Unknown
    }
}

impl Duplex {
    /// From `dladm`'s DUPLEX column.
    pub fn from_dladm(s: &str) -> (r: Duplex)
        ensures
            r == duplex_of(s@),
    {
        let c = chars_of(s);
        Duplex::from_chars(c.as_slice())
    }

    /// From a DUPLEX column already split into characters.
    pub fn from_chars(c: &[char]) -> (r: Duplex)
        ensures
            r == duplex_of(c@),
    {
        if is(c, "full") {
            Duplex::Full
        } else if is(c, "half") {
            Duplex::Half
        } else {
            Duplex::Unknown
        }
    }
}

/// LACP activity.
#[derive(Debug, Clone, Copy, PartialEq, Eq, Structural)]
pub enum LacpMode {
    /// No LACP.
    Off,
    /// Active.
    Active,
    /// Passive.
    Passive,
}

/// The name of an LACP mode.
pub open spec fn lacp_mode_name(m: LacpMode) -> Seq<char> {
    match m {
        LacpMode::Off => "off"@,
        LacpMode::Active => "active"@,
        LacpMode::Passive => "passive"@,
    }
}

/// The mode for a `dladm` LACPACTIVITY column.
pub open spec fn lacp_mode_of(s: Seq<char>) -> LacpMode {
    if s == "active"@ {
        LacpMode::Active
    } else if s == "passive"@ {
        LacpMode::Passive
    } else {
        LacpMode::Off
    }
}

impl LacpMode {
    /// As `dladm` spells it.
    pub fn as_str(self) -> (r: &'static str)
        ensures
            r@ == lacp_mode_name(self),
    {
        match self {
            LacpMode::Off => "off",
            LacpMode::Active => "active",
            LacpMode::Passive => "passive",
        }
    }

    /// From `dladm`'s LACPACTIVITY column.
    pub fn from_dladm(s: &str) -> (r: LacpMode)
        ensures
            r == lacp_mode_of(s@),
    {
        let c = chars_of(s);
        LacpMode::from_chars(c.as_slice())
    }

    /// From a LACPACTIVITY column already split into characters.
    pub fn from_chars(c: &[char]) -> (r: LacpMode)
        ensures
            r == lacp_mode_of(c@),
    {
        if is(c, "active") {
            LacpMode::Active
        } else if is(c, "passive") {
            LacpMode::Passive
        } else {
            LacpMode::Off
        }
    }
}

/// LACP timer.
#[derive(Debug, Clone, Copy, PartialEq, Eq, Structural)]
pub enum LacpTimer {
    /// Short.
    Short,
    /// Long.
    Long,
}

/// The name of an LACP timer.
pub open spec fn lacp_timer_name(t: LacpTimer) -> Seq<char> {
    match t {
        LacpTimer::Short => "short"@,
        LacpTimer::Long => "long"@,
    }
}

/// The timer for a `dladm` LACPTIMER column.
pub open spec fn lacp_timer_of(s: Seq<char>) -> LacpTimer {
    if s == "long"@ {
        LacpTimer::Long
    } else {
        LacpTimer::Short
    }
}

impl LacpTimer {
    /// As `dladm` spells it.
    pub fn as_str(self) -> (r: &'static str)
        ensures
            r@ == lacp_timer_name(self),
    {
        match self {
            LacpTimer::Short => "short",
            LacpTimer::Long => "long",
        }
    }

    /// From `dladm`'s LACPTIMER column.
    pub fn from_dladm(s: &str) -> (r: LacpTimer)
        ensures
            r == lacp_timer_of(s@),
    {
        let c = chars_of(s);
        LacpTimer::from_chars(c.as_slice())
    }

    /// From a LACPTIMER column already split into characters.
    pub fn from_chars(c: &[char]) -> (r: LacpTimer)
        ensures
            r == lacp_timer_of(c@),
    {
        if is(c, "long") {
            LacpTimer::Long
        } else {
            LacpTimer::Short
        }
    }
}

/// LACP names read back as what they name.
pub proof fn lemma_lacp_round_trip(m: LacpMode, t: LacpTimer)
    ensures
        lacp_mode_of(lacp_mode_name(m)) == m,
        lacp_timer_of(lacp_timer_name(t)) == t,
{
    reveal_strlit("off");
    reveal_strlit("active");
    reveal_strlit("passive");
    reveal_strlit("short");
    reveal_strlit("long");
    assert("off"@.len() == 3);
    assert("active"@.len() == 6);
    assert("passive"@.len() == 7);
    assert("short"@.len() == 5);
    assert("long"@.len() == 4);
}

/// One port of an aggregation.
#[derive(Debug, Clone, PartialEq, Eq)]
pub struct AggrPort {
    /// Port name.
    pub name: String,
    /// Port state as `dladm` prints it.
    pub state: String,
    /// Speed.
    pub speed_mbps: Option<u32>,
}

/// Aggregation details.
#[derive(Debug, Clone, PartialEq, Eq)]
pub struct AggrInfo {
    /// Policy, for example `L4`.
    pub policy: String,
    /// LACP activity.
    pub lacp_mode: LacpMode,
    /// LACP timer.
    pub lacp_timer: LacpTimer,
    /// Ports.
    pub ports: Vec<AggrPort>,
}

/// How an address was configured.
#[derive(Debug, Clone, Copy, PartialEq, Eq, Structural)]
pub enum AddressKind {
    /// Static.
    Static,
    /// DHCP.
    Dhcp,
    /// IPv6 link-local autoconfiguration.
    Addrconf,
}

/// The name of an address kind.
pub open spec fn address_kind_name(k: AddressKind) -> Seq<char> {
    match k {
        AddressKind::Static => "static"@,
        AddressKind::Dhcp => "dhcp"@,
        AddressKind::Addrconf => "addrconf"@,
    }
}

/// The kind for an `ipadm` TYPE column.
pub open spec fn address_kind_of(s: Seq<char>) -> Option<AddressKind> {
    if s == "static"@ {
        Some(AddressKind::Static)
    } else if s == "dhcp"@ {
        Some(AddressKind::Dhcp)
    } else if s == "addrconf"@ {
        Some(AddressKind::Addrconf)
    } else {
        None
    }
}

impl AddressKind {
    /// As `ipadm` spells it.
    pub fn as_str(self) -> (r: &'static str)
        ensures
            r@ == address_kind_name(self),
    {
        match self {
            AddressKind::Static => "static",
            AddressKind::Dhcp => "dhcp",
            AddressKind::Addrconf => "addrconf",
        }
    }

    /// From `ipadm`'s TYPE column.
    pub fn from_ipadm(s: &str) -> (r: Option<AddressKind>)
        ensures
            r == address_kind_of(s@),
    {
        let c = chars_of(s);
        AddressKind::from_chars(c.as_slice())
    }

    /// From a TYPE column already split into characters.
    pub fn from_chars(c: &[char]) -> (r: Option<AddressKind>)
        ensures
            r == address_kind_of(c@),
    {
        if is(c, "static") {
            Some(AddressKind::Static)
        } else if is(c, "dhcp") {
            Some(AddressKind::Dhcp)
        } else if is(c, "addrconf") {
            Some(AddressKind::Addrconf)
        } else {
            None
        }
    }
}

/// Address kinds read back from their names.
pub proof fn lemma_address_kind_round_trip(k: AddressKind)
    ensures
        address_kind_of(address_kind_name(k)) == Some(k),
{
    reveal_strlit("static");
    reveal_strlit("dhcp");
    reveal_strlit("addrconf");
    assert("static"@.len() == 6);
    assert("dhcp"@.len() == 4);
    assert("addrconf"@.len() == 8);
}

/// Address family.
#[derive(Debug, Clone, Copy, PartialEq, Eq, Structural)]
pub enum AddressFamily {
    /// IPv4.
    Inet,
    /// IPv6.
    Inet6,
}

/// The family of an address: IPv6 when it holds a colon.
pub open spec fn family_of(address: Seq<char>) -> AddressFamily {
    if address.contains(':') {
        AddressFamily::Inet6
    } else {
        AddressFamily::Inet
    }
}

/// The name of a family.
pub open spec fn family_name(f: AddressFamily) -> Seq<char> {
    match f {
        AddressFamily::Inet => "inet"@,
        AddressFamily::Inet6 => "inet6"@,
    }
}

impl AddressFamily {
    /// The family of an address: IPv6 when it holds a colon.
    pub fn of(address: &str) -> (r: AddressFamily)
        ensures
            r == family_of(address@),
    {
        let c = chars_of(address);
        AddressFamily::of_chars(c.as_slice())
    }

    /// The family of an address already split into characters.
    pub fn of_chars(c: &[char]) -> (r: AddressFamily)
        ensures
            r == family_of(c@),
    {
        if has_char(c, ':') {
            AddressFamily::Inet6
        } else {
            AddressFamily::Inet
        }
    }

    /// As the API spells it.
    pub fn as_str(self) -> (r: &'static str)
        ensures
            r@ == family_name(self),
    {
        match self {
            AddressFamily::Inet => "inet",
            AddressFamily::Inet6 => "inet6",
        }
    }
}

/// Route origin.
#[derive(Debug, Clone, Copy, PartialEq, Eq, Structural)]
pub enum RouteKind {
    /// Added by an administrator (`G` flag).
    Static,
    /// An interface route.
    Interface,
    /// Learned (`D` flag).
    Dynamic,
}

/// `POST /network/routes`.
#[derive(Debug, Clone, PartialEq, Eq)]
pub struct RouteCreate {
    /// Destination.
    pub destination: String,
    /// Gateway.
    pub gateway: String,
}

/// `POST /network/etherstubs`.
#[derive(Debug, Clone, PartialEq, Eq)]
pub struct EtherstubCreate {
    /// Name.
    pub name: String,
}

/// `POST /network/vlans`.
#[derive(Debug, Clone, PartialEq, Eq)]
pub struct VlanCreate {
    /// Name.
    pub name: String,
    /// VLAN id.
    pub vid: u16,
    /// Underlying link.
    pub over: String,
}

/// `POST /network/vnics`.
#[derive(Debug, Clone, PartialEq, Eq)]
pub struct VnicCreate {
    /// Name.
    pub name: String,
    /// Underlying link.
    pub over: String,
    /// MAC address.
    pub mac: Option<String>,
    /// VLAN id.
    pub vid: Option<u16>,
    /// MTU.
    pub mtu: Option<u32>,
}

/// `POST /network/aggrs`.
#[derive(Debug, Clone, PartialEq, Eq)]
pub struct AggrCreate {
    /// Name.
    pub name: String,
    /// Ports.
    pub ports: Vec<String>,
    /// Policy.
    pub policy: Option<String>,
    /// LACP mode.
    pub lacp_mode: Option<LacpMode>,
    /// LACP timer.
    pub lacp_timer: Option<LacpTimer>,
}

/// `PATCH /network/links/{id}`.
#[derive(Debug, Clone, Default, PartialEq, Eq)]
pub struct LinkUpdate {
    /// MTU.
    pub mtu: Option<u32>,
}

/// `POST /network/addresses`.
#[derive(Debug, Clone, PartialEq, Eq)]
pub struct AddressCreate {
    /// Interface.
    pub interface: String,
    /// Kind.
    pub kind: AddressKind,
    /// Address with prefix, for static.
    pub address: Option<String>,
    /// Alias after the slash of the address object.
    pub alias: Option<String>,
    /// Not persistent.
    pub temporary: bool,
}

} // verus!
