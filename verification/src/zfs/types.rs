//! What the ZFS driver reads and accepts.
use vstd::prelude::*;
use crate::common::shell::{ShellError, error_text};
use crate::common::storage::{Bytes, DatasetKind, PoolHealth, Vdev, VdevSpec};
use crate::common::timestamp::Timestamp;
use crate::text::{chars_of, contains, has, lower, lowered, split_char, index_of_char, slice};

verus! {

/// Why an operation failed.
#[derive(Debug, Clone)]
pub enum ZfsError {
    /// The tool failed; its message is the shell error's.
    Command(ShellError),
    /// The tool's output was not understood.
    Parse {
        /// Which command.
        command: String,
        /// What was wrong.
        detail: String,
    },
    /// The named object is not there.
    NotFound(String),
}

/// A coarse classification of a failure, for HTTP mapping.
#[derive(Debug, Clone, Copy, PartialEq, Eq, Structural)]
pub enum FailureKind {
    /// The object does not exist.
    NotFound,
    /// The object already exists.
    Exists,
    /// Busy, has dependents, or otherwise refused for now.
    Conflict,
    /// Not permitted.
    Forbidden,
    /// Bad arguments.
    Invalid,
    /// Anything else.
    Other,
}

/// How `zfs` and `zpool` words classify a failure: the first rule whose
/// words occur in the lower-cased message wins.
pub open spec fn zfs_text_kind(t: Seq<char>) -> FailureKind {
    if contains(t, "does not exist"@) || contains(t, "no such pool"@) {
        FailureKind::NotFound
    } else if contains(t, "already exists"@) {
        FailureKind::Exists
    } else if contains(t, "busy"@) || contains(t, "has children"@) || contains(t, "dependent clones"@)
        || contains(t, "more recent snapshots"@) || contains(t, "is in use"@)
        || contains(t, "currently scrubbing"@) || contains(t, "no active scrub"@) {
        FailureKind::Conflict
    } else if contains(t, "permission denied"@) || contains(t, "insufficient privileges"@) {
        FailureKind::Forbidden
    } else if contains(t, "invalid"@) || contains(t, "must be"@) || contains(t, "usage:"@) {
        FailureKind::Invalid
    } else {
        FailureKind::Other
    }
}

/// The classification of a ZFS error.
pub open spec fn zfs_error_kind(e: ZfsError) -> FailureKind {
    match e {
        ZfsError::NotFound(_) => FailureKind::NotFound,
        ZfsError::Parse { .. } => FailureKind::Other,
        ZfsError::Command(c) => zfs_text_kind(lower(error_text(c))),
    }
}

fn classify_zfs_text(t: &[char]) -> (r: FailureKind)
    ensures
        r == zfs_text_kind(t@),
{
    if has(t, "does not exist") || has(t, "no such pool") {
        FailureKind::NotFound
    } else if has(t, "already exists") {
        FailureKind::Exists
    } else if has(t, "busy") || has(t, "has children") || has(t, "dependent clones")
        || has(t, "more recent snapshots") || has(t, "is in use") || has(t, "currently scrubbing")
        || has(t, "no active scrub") {
        FailureKind::Conflict
    } else if has(t, "permission denied") || has(t, "insufficient privileges") {
        FailureKind::Forbidden
    } else if has(t, "invalid") || has(t, "must be") || has(t, "usage:") {
        FailureKind::Invalid
    } else {
        FailureKind::Other
    }
}

impl ZfsError {
    /// Classify from the tool's message.
    pub fn kind(&self) -> (r: FailureKind)
        ensures
            r == zfs_error_kind(*self),
    {
        match self {
            ZfsError::NotFound(_) => FailureKind::NotFound,
            ZfsError::Parse { .. } => FailureKind::Other,
            ZfsError::Command(e) => {
                let t = chars_of(e.stderr());
                let l = lowered(t.as_slice());
                classify_zfs_text(l.as_slice())
            },
        }
    }
}

/// The user property that links a dataset to its API object.
pub const ID_PROPERTY: &'static str = "nightshade.systems:mandrake-id";

/// A pool as `zpool list` and `zpool status` describe it.
#[derive(Debug, Clone)]
pub struct PoolInfo {
    /// Name.
    pub name: String,
    /// Health.
    pub health: PoolHealth,
    /// Size.
    pub size: Bytes,
    /// Allocated.
    pub allocated: Bytes,
    /// Free.
    pub free: Bytes,
    /// Fragmentation percent.
    pub fragmentation: Option<u32>,
    /// Capacity percent.
    pub capacity: Option<u32>,
    /// Dedup ratio, as the decimal `zpool` prints (without its `x`).
    pub dedup_ratio: Option<String>,
    /// Vdev tree.
    pub vdevs: Vdev,
    /// Scan.
    pub scan: Option<crate::common::storage::ScanStatus>,
    /// `status:` and `action:` text.
    pub status_text: Option<String>,
}

/// A dataset as `zfs list` describes it.
#[derive(Debug, Clone)]
pub struct DatasetInfo {
    /// Full name.
    pub name: String,
    /// Kind.
    pub kind: DatasetKind,
    /// Mountpoint, `None` for `none`, `legacy`, or volumes.
    pub mountpoint: Option<String>,
    /// Mounted.
    pub mounted: bool,
    /// Used.
    pub used: Bytes,
    /// Available.
    pub available: Bytes,
    /// Referenced.
    pub referenced: Bytes,
    /// Logical used.
    pub logical_used: Option<Bytes>,
    /// Quota.
    pub quota: Option<Bytes>,
    /// Reservation.
    pub reservation: Option<Bytes>,
    /// Compression.
    pub compression: Option<String>,
    /// Compress ratio, as the decimal `zfs` prints (without its `x`).
    pub compress_ratio: Option<String>,
    /// atime.
    pub atime: Option<bool>,
    /// Record size.
    pub recordsize: Option<Bytes>,
    /// Volume size.
    pub volsize: Option<Bytes>,
    /// Volume block size.
    pub volblocksize: Option<Bytes>,
    /// Clone origin.
    pub origin: Option<String>,
    /// Created.
    pub created_at: Timestamp,
    /// The Mandrake id property, if set.
    pub mandrake_id: Option<String>,
}

/// The part of a name before its first `sep`, or all of it.
pub open spec fn head_of(name: Seq<char>, sep: char) -> Seq<char> {
    split_char(name, sep)[0]
}

/// The part of a name between its first and second `sep`, or empty.
pub open spec fn second_of(name: Seq<char>, sep: char) -> Seq<char> {
    let parts = split_char(name, sep);
    if parts.len() >= 2 {
        parts[1]
    } else {
        Seq::<char>::empty()
    }
}

/// The text before the first `sep`.
fn head_part(name: &str, sep: char) -> (r: String)
    ensures
        r@ == head_of(name@, sep),
{
    let c = chars_of(name);
    let parts = crate::text::split_on(c.as_slice(), sep);
    proof {
        crate::text::lemma_split_char_nonempty(name@, sep);
    }
    crate::text::string_from(parts[0].as_slice())
}

impl DatasetInfo {
    /// The pool name.
    pub fn pool(&self) -> (r: String)
        ensures
            r@ == head_of(self.name@, '/'),
    {
        head_part(self.name.as_str(), '/')
    }
}

/// A snapshot as `zfs list -t snapshot` describes it.
#[derive(Debug, Clone)]
pub struct SnapshotInfo {
    /// `dataset@snap`.
    pub name: String,
    /// Used.
    pub used: Bytes,
    /// Referenced.
    pub referenced: Bytes,
    /// Created.
    pub created_at: Timestamp,
    /// Clones.
    pub clones: Vec<String>,
    /// The Mandrake id property, if set.
    pub mandrake_id: Option<String>,
}

impl SnapshotInfo {
    /// The dataset part.
    pub fn dataset(&self) -> (r: String)
        ensures
            r@ == head_of(self.name@, '@'),
    {
        head_part(self.name.as_str(), '@')
    }

    /// The part after `@`.
    pub fn short_name(&self) -> (r: String)
        ensures
            r@ == second_of(self.name@, '@'),
    {
        let c = chars_of(self.name.as_str());
        let parts = crate::text::split_on(c.as_slice(), '@');
        if parts.len() >= 2 {
            crate::text::string_from(parts[1].as_slice())
        } else {
            String::new()
        }
    }
}

/// A disk as `diskinfo` describes it.
#[derive(Debug, Clone, PartialEq, Eq)]
pub struct DeviceInfo {
    /// `c1t0d0`.
    pub name: String,
    /// Bus type.
    pub bus: Option<String>,
    /// Vendor.
    pub vendor: Option<String>,
    /// Product.
    pub product: Option<String>,
    /// Serial.
    pub serial: Option<String>,
    /// Size.
    pub size: Bytes,
    /// Removable.
    pub removable: bool,
    /// SSD.
    pub solid_state: Option<bool>,
}

/// What to create a pool from.
#[derive(Debug, Clone, PartialEq, Eq)]
pub struct PoolSpec {
    /// Name.
    pub name: String,
    /// Layout.
    pub vdevs: Vec<VdevSpec>,
    /// ashift.
    pub ashift: Option<u32>,
    /// Root dataset compression.
    pub compression: Option<String>,
    /// `-f`.
    pub force: bool,
    /// Root dataset user properties (`-O`), for the Mandrake id.
    pub root_properties: Vec<(String, String)>,
}

/// What to create a dataset from.
#[derive(Debug, Clone, PartialEq, Eq)]
pub struct DatasetSpec {
    /// Full name.
    pub name: String,
    /// Kind.
    pub kind: DatasetKind,
    /// Volume size.
    pub volsize: Option<Bytes>,
    /// Sparse volume.
    pub sparse: bool,
    /// `-p`.
    pub create_parents: bool,
    /// `-o` properties in order.
    pub properties: Vec<(String, String)>,
}


/// Whether `e` is the fake tool's failure with this message.
pub open spec fn tool_error_is(e: ZfsError, message: Seq<char>) -> bool {
    e matches ZfsError::Command(ShellError::Failed { command, status, stderr })
        && command@ == "fake"@ && status == 1 && stderr@ == message
}

/// The failure the in-memory tools report, as `zfs` would.
pub fn tool_error(message: &[char]) -> (e: ZfsError)
    ensures
        tool_error_is(e, message@),
{
    ZfsError::Command(ShellError::Failed {
        command: "fake".to_owned(),
        status: 1,
        stderr: crate::text::string_from(message),
    })
}

} // verus!
