//! Zone wire types: brands, states, NICs.
use vstd::prelude::*;
use crate::text::{chars_of, is};

verus! {

/// A zone brand Mandrake manages.
#[derive(Debug, Clone, Copy, PartialEq, Eq, Structural)]
pub enum ZoneBrand {
    /// Whole-root native zone.
    Ipkg,
    /// Linked-image native zone.
    Lipkg,
    /// Sparse native zone.
    Sparse,
    /// Linux-branded zone.
    Lx,
}

/// The name of a brand.
pub open spec fn brand_name(b: ZoneBrand) -> Seq<char> {
    match b {
        ZoneBrand::Ipkg => "ipkg"@,
        ZoneBrand::Lipkg => "lipkg"@,
        ZoneBrand::Sparse => "sparse"@,
        ZoneBrand::Lx => "lx"@,
    }
}

/// The brand a name names, if Mandrake manages it.
pub open spec fn brand_of(s: Seq<char>) -> Option<ZoneBrand> {
    if s == "ipkg"@ {
        Some(ZoneBrand::Ipkg)
    } else if s == "lipkg"@ {
        Some(ZoneBrand::Lipkg)
    } else if s == "sparse"@ {
        Some(ZoneBrand::Sparse)
    } else if s == "lx"@ {
        Some(ZoneBrand::Lx)
    } else {
        None
    }
}

impl ZoneBrand {
    /// From `zonecfg`'s brand.
    pub fn from_brand(s: &str) -> (r: Option<ZoneBrand>)
        ensures
            r == brand_of(s@),
    {
        let c = chars_of(s);
        if is(c.as_slice(), "ipkg") {
            Some(ZoneBrand::Ipkg)
        } else if is(c.as_slice(), "lipkg") {
            Some(ZoneBrand::Lipkg)
        } else if is(c.as_slice(), "sparse") {
            Some(ZoneBrand::Sparse)
        } else if is(c.as_slice(), "lx") {
            Some(ZoneBrand::Lx)
        } else {
            None
        }
    }

    /// As `zonecfg` spells it.
    pub fn as_str(self) -> (r: &'static str)
        ensures
            r@ == brand_name(self),
    {
        match self {
            ZoneBrand::Ipkg => "ipkg",
            ZoneBrand::Lipkg => "lipkg",
            ZoneBrand::Sparse => "sparse",
            ZoneBrand::Lx => "lx",
        }
    }

    /// Whether the brand runs illumos userland.
    pub fn is_native(self) -> (r: bool)
        ensures
            r == (self != ZoneBrand::Lx),
    {
        !matches!(self, ZoneBrand::Lx)
    }
}

/// Brand names read back as their brands.
pub proof fn lemma_brand_round_trip(b: ZoneBrand)
    ensures
        brand_of(brand_name(b)) == Some(b),
{
    reveal_strlit("ipkg");
    reveal_strlit("lipkg");
    reveal_strlit("sparse");
    reveal_strlit("lx");
    assert("ipkg"@.len() == 4);
    assert("lipkg"@.len() == 5);
    assert("sparse"@.len() == 6);
    assert("lx"@.len() == 2);
}

/// Zone state as `zoneadm` reports it.
#[derive(Debug, Clone, Copy, PartialEq, Eq, Structural)]
pub enum ZoneState {
    /// Configured, not installed.
    Configured,
    /// Install or uninstall interrupted.
    Incomplete,
    /// Installed, not running.
    Installed,
    /// Ready to boot.
    Ready,
    /// Running.
    Running,
    /// Shutting down.
    ShuttingDown,
    /// Down but not yet halted.
    Down,
    /// Anything else.
    Unavailable,
}

/// The state for a `zoneadm` state word.
pub open spec fn zone_state_of(s: Seq<char>) -> ZoneState {
    if s == "configured"@ {
        ZoneState::Configured
    } else if s == "incomplete"@ {
        ZoneState::Incomplete
    } else if s == "installed"@ || s == "mounted"@ {
        ZoneState::Installed
    } else if s == "ready"@ {
        ZoneState::Ready
    } else if s == "running"@ {
        ZoneState::Running
    } else if s == "shutting_down"@ {
        ZoneState::ShuttingDown
    } else if s == "down"@ {
        ZoneState::Down
    } else {
        ZoneState::Unavailable
    }
}

/// The name of a state.
pub open spec fn zone_state_name(s: ZoneState) -> Seq<char> {
    match s {
        ZoneState::Configured => "configured"@,
        ZoneState::Incomplete => "incomplete"@,
        ZoneState::Installed => "installed"@,
        ZoneState::Ready => "ready"@,
        ZoneState::Running => "running"@,
        ZoneState::ShuttingDown => "shutting_down"@,
        ZoneState::Down => "down"@,
        ZoneState::Unavailable => "unavailable"@,
    }
}

/// Every state but `Unavailable` reads back from its name; `mounted`
/// reads as installed.
pub proof fn lemma_zone_state_round_trip(s: ZoneState)
    ensures
        s != ZoneState::Unavailable ==> zone_state_of(zone_state_name(s)) == s,
        zone_state_of("mounted"@) == ZoneState::Installed,
{
    reveal_strlit("configured");
    reveal_strlit("incomplete");
    reveal_strlit("installed");
    reveal_strlit("mounted");
    reveal_strlit("ready");
    reveal_strlit("running");
    reveal_strlit("shutting_down");
    reveal_strlit("down");
    assert("configured"@ != "incomplete"@) by { assert("configured"@[0] != "incomplete"@[0]); }
    assert("installed"@ != "configured"@) by { assert("installed"@.len() != "configured"@.len()); }
    assert("installed"@ != "incomplete"@) by { assert("installed"@.len() != "incomplete"@.len()); }
    assert("mounted"@ != "configured"@) by { assert("mounted"@.len() != "configured"@.len()); }
    assert("mounted"@ != "incomplete"@) by { assert("mounted"@.len() != "incomplete"@.len()); }
    assert("ready"@ != "configured"@) by { assert("ready"@.len() != "configured"@.len()); }
    assert("ready"@ != "incomplete"@) by { assert("ready"@.len() != "incomplete"@.len()); }
    assert("ready"@ != "installed"@) by { assert("ready"@.len() != "installed"@.len()); }
    assert("ready"@ != "mounted"@) by { assert("ready"@.len() != "mounted"@.len()); }
    assert("running"@ != "configured"@) by { assert("running"@.len() != "configured"@.len()); }
    assert("running"@ != "incomplete"@) by { assert("running"@.len() != "incomplete"@.len()); }
    assert("running"@ != "installed"@) by { assert("running"@.len() != "installed"@.len()); }
    assert("running"@ != "mounted"@) by { assert("running"@[0] != "mounted"@[0]); }
    assert("running"@ != "ready"@) by { assert("running"@.len() != "ready"@.len()); }
    assert("shutting_down"@ != "configured"@) by { assert("shutting_down"@.len() != "configured"@.len()); }
    assert("shutting_down"@ != "incomplete"@) by { assert("shutting_down"@.len() != "incomplete"@.len()); }
    assert("shutting_down"@ != "installed"@) by { assert("shutting_down"@.len() != "installed"@.len()); }
    assert("shutting_down"@ != "mounted"@) by { assert("shutting_down"@.len() != "mounted"@.len()); }
    assert("shutting_down"@ != "ready"@) by { assert("shutting_down"@.len() != "ready"@.len()); }
    assert("shutting_down"@ != "running"@) by { assert("shutting_down"@.len() != "running"@.len()); }
    assert("down"@ != "configured"@) by { assert("down"@.len() != "configured"@.len()); }
    assert("down"@ != "incomplete"@) by { assert("down"@.len() != "incomplete"@.len()); }
    assert("down"@ != "installed"@) by { assert("down"@.len() != "installed"@.len()); }
    assert("down"@ != "mounted"@) by { assert("down"@.len() != "mounted"@.len()); }
    assert("down"@ != "ready"@) by { assert("down"@.len() != "ready"@.len()); }
    assert("down"@ != "running"@) by { assert("down"@.len() != "running"@.len()); }
    assert("down"@ != "shutting_down"@) by { assert("down"@.len() != "shutting_down"@.len()); }
}

impl ZoneState {
    /// From `zoneadm`'s state column.
    pub fn from_zoneadm(s: &str) -> (r: ZoneState)
        ensures
            r == zone_state_of(s@),
    {
        let c = chars_of(s);
        ZoneState::from_chars(c.as_slice())
    }

    /// From a state word already split into characters.
    pub fn from_chars(c: &[char]) -> (r: ZoneState)
        ensures
            r == zone_state_of(c@),
    {
        if is(c, "configured") {
            ZoneState::Configured
        } else if is(c, "incomplete") {
            ZoneState::Incomplete
        } else if is(c, "installed") || is(c, "mounted") {
            ZoneState::Installed
        } else if is(c, "ready") {
            ZoneState::Ready
        } else if is(c, "running") {
            ZoneState::Running
        } else if is(c, "shutting_down") {
            ZoneState::ShuttingDown
        } else if is(c, "down") {
            ZoneState::Down
        } else {
            ZoneState::Unavailable
        }
    }

    /// As the API spells it.
    pub fn as_str(self) -> (r: &'static str)
        ensures
            r@ == zone_state_name(self),
    {
        match self {
            ZoneState::Configured => "configured",
            ZoneState::Incomplete => "incomplete",
            ZoneState::Installed => "installed",
            ZoneState::Ready => "ready",
            ZoneState::Running => "running",
            ZoneState::ShuttingDown => "shutting_down",
            ZoneState::Down => "down",
            ZoneState::Unavailable => "unavailable",
        }
    }
}

/// One NIC of a zone (an `anet` resource).
#[derive(Debug, Clone, PartialEq, Eq)]
pub struct ZoneNic {
    /// Link name inside the zone.
    pub name: String,
    /// Underlying link in the global zone.
    pub over: String,
    /// MAC address.
    pub mac: Option<String>,
    /// VLAN id.
    pub vid: Option<u16>,
    /// Allowed address with prefix.
    pub address: Option<String>,
    /// Default router.
    pub gateway: Option<String>,
}

/// `POST /zones/{id}/stop`.
#[derive(Debug, Clone, Copy, Default, PartialEq, Eq)]
pub struct ZoneStop {
    /// Halt rather than shut down.
    pub force: bool,
}

} // verus!
