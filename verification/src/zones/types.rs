//! What the zones driver reads and accepts.
use vstd::prelude::*;
use crate::common::shell::{FailureKind, ShellError, error_text};
use crate::common::zone::{ZoneNic, ZoneState};
use crate::text::{chars_of, contains, has, lower, lowered};

verus! {

/// The zonecfg attribute carrying a Mandrake id.
pub const ID_ATTR: &'static str = "mandrake-id";
/// The zonecfg attribute naming the image a zone was cloned from.
pub const IMAGE_ATTR: &'static str = "mandrake-image";
/// The zonecfg attribute carrying the hostname.
pub const HOSTNAME_ATTR: &'static str = "hostname";
/// The zonecfg attribute carrying comma-separated resolvers.
pub const RESOLVERS_ATTR: &'static str = "resolvers";

/// Why an operation failed.
#[derive(Debug, Clone)]
pub enum ZoneError {
    /// The tool failed; its message is the shell error's.
    Command(ShellError),
    /// The tool's output was not understood.
    Parse {
        /// Which command.
        command: String,
        /// What was wrong.
        detail: String,
    },
    /// The named zone is not there.
    NotFound(String),
    /// The request cannot be expressed to the tools.
    Unsupported(String),
}

/// How `zonecfg` and `zoneadm` words classify a failure: the first rule
/// whose words occur in the lower-cased message wins.
pub open spec fn zone_text_kind(t: Seq<char>) -> FailureKind {
    if contains(t, "no such zone"@) || contains(t, "does not exist"@) {
        FailureKind::NotFound
    } else if contains(t, "already exists"@) || contains(t, "already installed"@)
        || contains(t, "already running"@) || contains(t, "already booted"@) {
        FailureKind::Exists
    } else if contains(t, "is running"@) || contains(t, "must be halted"@) || contains(t, "not installed"@)
        || contains(t, "is installed"@) || contains(t, "cannot boot"@) || contains(t, "busy"@)
        || contains(t, "in use"@) {
        FailureKind::Conflict
    } else if contains(t, "permission denied"@) || contains(t, "not authorized"@)
        || contains(t, "must be root"@) || contains(t, "insufficient privileges"@) {
        FailureKind::Forbidden
    } else if contains(t, "invalid"@) || contains(t, "usage:"@) || contains(t, "bad "@)
        || contains(t, "unknown"@) || contains(t, "no such property"@) {
        FailureKind::Invalid
    } else {
        FailureKind::Other
    }
}

/// The classification of a zone error.
pub open spec fn zone_error_kind(e: ZoneError) -> FailureKind {
    match e {
        ZoneError::NotFound(_) => FailureKind::NotFound,
        ZoneError::Parse { .. } => FailureKind::Other,
        ZoneError::Unsupported(_) => FailureKind::Invalid,
        ZoneError::Command(c) => zone_text_kind(lower(error_text(c))),
    }
}

fn classify_zone_text(t: &[char]) -> (r: FailureKind)
    ensures
        r == zone_text_kind(t@),
{
    if has(t, "no such zone") || has(t, "does not exist") {
        FailureKind::NotFound
    } else if has(t, "already exists") || has(t, "already installed") || has(t, "already running")
        || has(t, "already booted") {
        FailureKind::Exists
    } else if has(t, "is running") || has(t, "must be halted") || has(t, "not installed") || has(t, "is installed")
        || has(t, "cannot boot") || has(t, "busy") || has(t, "in use") {
        FailureKind::Conflict
    } else if has(t, "permission denied") || has(t, "not authorized") || has(t, "must be root")
        || has(t, "insufficient privileges") {
        FailureKind::Forbidden
    } else if has(t, "invalid") || has(t, "usage:") || has(t, "bad ") || has(t, "unknown")
        || has(t, "no such property") {
        FailureKind::Invalid
    } else {
        FailureKind::Other
    }
}

impl ZoneError {
    /// Classify from the tool's message.
    pub fn kind(&self) -> (r: FailureKind)
        ensures
            r == zone_error_kind(*self),
    {
        match self {
            ZoneError::NotFound(_) => FailureKind::NotFound,
            ZoneError::Parse { .. } => FailureKind::Other,
            ZoneError::Unsupported(_) => FailureKind::Invalid,
            ZoneError::Command(e) => {
                let t = chars_of(e.stderr());
                let l = lowered(t.as_slice());
                classify_zone_text(l.as_slice())
            },
        }
    }
}

/// One `zoneadm list -pc` row.
#[derive(Debug, Clone, PartialEq, Eq)]
pub struct ZoneSummary {
    /// Name.
    pub name: String,
    /// State.
    pub state: ZoneState,
    /// Brand as illumos spells it (`ipkg`, `lx`, `bhyve`, ...).
    pub brand: String,
    /// Zonepath.
    pub zonepath: String,
    /// Zone UUID from illumos, if assigned.
    pub uuid: Option<String>,
    /// Exclusive IP stack.
    pub exclusive_ip: bool,
}

/// An `fs` resource: a filesystem mounted into the zone.
#[derive(Debug, Clone, PartialEq, Eq)]
pub struct ZoneFs {
    /// Mount point inside the zone.
    pub dir: String,
    /// What is mounted.
    pub special: String,
    /// Filesystem type, for example `lofs`.
    pub type_: String,
    /// Mount options, in order.
    pub options: Vec<String>,
}

/// A zone's configuration as `zonecfg export` describes it.
#[derive(Debug, Clone)]
pub struct ZoneConfig {
    /// Name.
    pub name: String,
    /// Brand.
    pub brand: String,
    /// Zonepath.
    pub zonepath: String,
    /// Autoboot.
    pub autoboot: bool,
    /// `ip-type`.
    pub ip_type: String,
    /// `anet` resources.
    pub nics: Vec<ZoneNic>,
    /// `capped-cpu` ncpus, as the decimal `zonecfg` prints.
    pub cpu_cap: Option<String>,
    /// `capped-memory` physical, in bytes.
    pub memory_cap: Option<u64>,
    /// String attributes, each name once, in the order first seen.
    pub attrs: Vec<(String, String)>,
    /// `device` resources' match patterns.
    pub devices: Vec<String>,
    /// `fs` resources.
    pub fs: Vec<ZoneFs>,
    /// Delegated datasets.
    pub datasets: Vec<String>,
    /// Resources Mandrake does not model, kept verbatim for reference.
    pub other: Vec<String>,
}

/// What to configure a zone from; the managed subset of a configuration.
#[derive(Debug, Clone)]
pub struct ZoneSpec {
    /// Name.
    pub name: String,
    /// Brand.
    pub brand: String,
    /// Zonepath.
    pub zonepath: String,
    /// Autoboot.
    pub autoboot: bool,
    /// NICs.
    pub nics: Vec<ZoneNic>,
    /// CPU cap, as the decimal `zonecfg` takes.
    pub cpu_cap: Option<String>,
    /// Memory cap in bytes.
    pub memory_cap: Option<u64>,
    /// `device` resources' match patterns.
    pub devices: Vec<String>,
    /// `fs` resources.
    pub fs: Vec<ZoneFs>,
    /// String attributes to set, each name once, in the order they are
    /// written. On update, managed names absent here are removed.
    pub attrs: Vec<(String, String)>,
}

/// Where `zoneadm install` gets the zone's root.
#[derive(Debug, Clone, PartialEq, Eq)]
pub enum InstallSource {
    /// From the global zone's packages (native brands).
    Packages,
    /// From a tarball or ZFS stream file (`-s`).
    Archive(String),
    /// The zonepath dataset is already populated (a clone of an image).
    Prepared,
}

} // verus!
