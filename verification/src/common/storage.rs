//! Storage wire types: pool health, the vdev tree, scans, datasets.
use vstd::prelude::*;
use crate::text::{chars_of, is};
use crate::common::timestamp::Timestamp;

verus! {

/// A size in bytes.
pub type Bytes = u64;

/// Health of a pool or a vdev, as `zpool` prints it.
#[derive(Debug, Clone, Copy, PartialEq, Eq, Structural)]
pub enum PoolHealth {
    /// Healthy.
    Online,
    /// Working with reduced redundancy.
    Degraded,
    /// Unusable.
    Faulted,
    /// Administratively offline.
    Offline,
    /// Cannot be opened.
    Unavail,
    /// Device removed.
    Removed,
    /// I/O suspended.
    Suspended,
    /// A spare that is available.
    Avail,
    /// A spare that is in use.
    Inuse,
}

/// The word `zpool` prints for a health.
pub open spec fn health_name(h: PoolHealth) -> Seq<char> {
    match h {
        PoolHealth::Online => "ONLINE"@,
        PoolHealth::Degraded => "DEGRADED"@,
        PoolHealth::Faulted => "FAULTED"@,
        PoolHealth::Offline => "OFFLINE"@,
        PoolHealth::Unavail => "UNAVAIL"@,
        PoolHealth::Removed => "REMOVED"@,
        PoolHealth::Suspended => "SUSPENDED"@,
        PoolHealth::Avail => "AVAIL"@,
        PoolHealth::Inuse => "INUSE"@,
    }
}

/// The health a `zpool` word names, if any.
pub open spec fn health_of(s: Seq<char>) -> Option<PoolHealth> {
    if s == "ONLINE"@ {
        Some(PoolHealth::Online)
    } else if s == "DEGRADED"@ {
        Some(PoolHealth::Degraded)
    } else if s == "FAULTED"@ {
        Some(PoolHealth::Faulted)
    } else if s == "OFFLINE"@ {
        Some(PoolHealth::Offline)
    } else if s == "UNAVAIL"@ {
        Some(PoolHealth::Unavail)
    } else if s == "REMOVED"@ {
        Some(PoolHealth::Removed)
    } else if s == "SUSPENDED"@ {
        Some(PoolHealth::Suspended)
    } else if s == "AVAIL"@ {
        Some(PoolHealth::Avail)
    } else if s == "INUSE"@ {
        Some(PoolHealth::Inuse)
    } else {
        None
    }
}

/// Unknown health word.
#[derive(Debug, Clone, PartialEq, Eq)]
pub struct UnknownHealth(pub String);

impl PoolHealth {
    /// As `zpool` prints it.
    pub fn as_str(self) -> (r: &'static str)
        ensures
            r@ == health_name(self),
    {
        match self {
            PoolHealth::Online => "ONLINE",
            PoolHealth::Degraded => "DEGRADED",
            PoolHealth::Faulted => "FAULTED",
            PoolHealth::Offline => "OFFLINE",
            PoolHealth::Unavail => "UNAVAIL",
            PoolHealth::Removed => "REMOVED",
            PoolHealth::Suspended => "SUSPENDED",
            PoolHealth::Avail => "AVAIL",
            PoolHealth::Inuse => "INUSE",
        }
    }

    /// The health a word names.
    pub fn parse(s: &str) -> (r: Result<PoolHealth, UnknownHealth>)
        ensures
            r matches Ok(h) ==> health_of(s@) == Some(h),
            r matches Err(e) ==> health_of(s@) is None && e.0@ == s@,
    {
        let c = chars_of(s);
        match PoolHealth::from_chars(c.as_slice()) {
            Some(h) => Ok(h),
            None => Err(UnknownHealth(s.to_owned())),
        }
    }

    /// The health a word already split into characters names.
    pub fn from_chars(c: &[char]) -> (r: Option<PoolHealth>)
        ensures
            r == health_of(c@),
    {
        if is(c, "ONLINE") {
            Some(PoolHealth::Online)
        } else if is(c, "DEGRADED") {
            Some(PoolHealth::Degraded)
        } else if is(c, "FAULTED") {
            Some(PoolHealth::Faulted)
        } else if is(c, "OFFLINE") {
            Some(PoolHealth::Offline)
        } else if is(c, "UNAVAIL") {
            Some(PoolHealth::Unavail)
        } else if is(c, "REMOVED") {
            Some(PoolHealth::Removed)
        } else if is(c, "SUSPENDED") {
            Some(PoolHealth::Suspended)
        } else if is(c, "AVAIL") {
            Some(PoolHealth::Avail)
        } else if is(c, "INUSE") {
            Some(PoolHealth::Inuse)
        } else {
            None
        }
    }
}

impl std::str::FromStr for PoolHealth {
    type Err = UnknownHealth;

    fn from_str(s: &str) -> Result<PoolHealth, UnknownHealth> {
        PoolHealth::parse(s)
    }
}

/// Every health word reads back as that health.
pub proof fn lemma_health_round_trip(h: PoolHealth)
    ensures
        health_of(health_name(h)) == Some(h),
{
    reveal_strlit("ONLINE");
    reveal_strlit("DEGRADED");
    reveal_strlit("FAULTED");
    reveal_strlit("OFFLINE");
    reveal_strlit("UNAVAIL");
    reveal_strlit("REMOVED");
    reveal_strlit("SUSPENDED");
    reveal_strlit("AVAIL");
    reveal_strlit("INUSE");
    assert("ONLINE"@.len() == 6);
    assert("DEGRADED"@.len() == 8);
    assert("FAULTED"@.len() == 7);
    assert("OFFLINE"@.len() == 7);
    assert("UNAVAIL"@.len() == 7);
    assert("REMOVED"@.len() == 7);
    assert("SUSPENDED"@.len() == 9);
    assert("AVAIL"@.len() == 5);
    assert("INUSE"@.len() == 5);
    assert("FAULTED"@[0] != "OFFLINE"@[0]);
    assert("FAULTED"@[0] != "UNAVAIL"@[0]);
    assert("FAULTED"@[0] != "REMOVED"@[0]);
    assert("OFFLINE"@[0] != "UNAVAIL"@[0]);
    assert("OFFLINE"@[0] != "REMOVED"@[0]);
    assert("UNAVAIL"@[0] != "REMOVED"@[0]);
    assert("AVAIL"@[0] != "INUSE"@[0]);
}

/// What a vdev node is.
#[derive(Debug, Clone, Copy, PartialEq, Eq, Structural)]
pub enum VdevType {
    /// The pool itself.
    Root,
    /// A whole disk or slice.
    Disk,
    /// A file-backed vdev.
    File,
    /// N-way mirror.
    Mirror,
    /// Single parity.
    Raidz1,
    /// Double parity.
    Raidz2,
    /// Triple parity.
    Raidz3,
    /// The `logs` group.
    Log,
    /// The `cache` group.
    Cache,
    /// The `spares` group.
    Spare,
    /// A device being replaced.
    Replacing,
    /// A spare that has kicked in for a device.
    SpareGroup,
}

/// One node of a pool's vdev tree.
#[derive(Debug, PartialEq, Eq)]
pub struct Vdev {
    /// As `zpool status` prints it.
    pub name: String,
    /// Node kind.
    pub type_: VdevType,
    /// State.
    pub state: PoolHealth,
    /// Read errors, when shown.
    pub read_errors: Option<u64>,
    /// Write errors.
    pub write_errors: Option<u64>,
    /// Checksum errors.
    pub checksum_errors: Option<u64>,
    /// Trailing note such as `(resilvering)`.
    pub note: Option<String>,
    /// Children.
    pub children: Vec<Vdev>,
}

/// Whether a node is a device: a disk or file with no children.
pub open spec fn is_leaf(v: Vdev) -> bool {
    v.children@.len() == 0 && (v.type_ == VdevType::Disk || v.type_ == VdevType::File)
}

/// Every leaf device name in the tree, left to right.
pub open spec fn leaves_of(v: Vdev) -> Seq<Seq<char>>
    decreases v, 1int,
{
    if is_leaf(v) {
        seq![v.name@]
    } else {
        leaves_upto(v, v.children@.len() as int)
    }
}

/// The leaves under the first `n` children of `v`.
pub open spec fn leaves_upto(v: Vdev, n: int) -> Seq<Seq<char>>
    decreases v, 0int, n,
{
    if n <= 0 || n > v.children@.len() {
        Seq::<Seq<char>>::empty()
    } else {
        leaves_upto(v, n - 1) + leaves_of(v.children@[n - 1])
    }
}

impl Vdev {
    /// A copy of the whole tree.
    pub fn copy(&self) -> (r: Vdev)
        ensures
            r.name@ == self.name@,
            r.type_ == self.type_,
            r.state == self.state,
            r.children@.len() == self.children@.len(),
        decreases *self,
    {
        let mut children: Vec<Vdev> = Vec::new();
        let mut i: usize = 0;
        while i < self.children.len()
            invariant
                0 <= i <= self.children.len(),
                children@.len() == i,
            decreases self.children.len() - i,
        {
            children.push(self.children[i].copy());
            i = i + 1;
        }
        Vdev {
            name: self.name.clone(),
            type_: self.type_,
            state: self.state,
            read_errors: self.read_errors,
            write_errors: self.write_errors,
            checksum_errors: self.checksum_errors,
            note: match &self.note {
                Some(n) => Some(n.clone()),
                None => None,
            },
            children,
        }
    }

    /// Every leaf device name in the tree.
    pub fn leaves(&self) -> (r: Vec<&str>)
        ensures
            r@.map_values(|s: &str| s@) == leaves_of(*self),
        decreases *self,
    {
        let mut out: Vec<&str> = Vec::new();
        if self.children.len() == 0 && (self.type_ == VdevType::Disk || self.type_ == VdevType::File) {
            out.push(self.name.as_str());
            assert(out@.map_values(|s: &str| s@) == seq![self.name@]);
            return out;
        }
        let mut i: usize = 0;
        while i < self.children.len()
            invariant
                0 <= i <= self.children.len(),
                !is_leaf(*self),
                out@.map_values(|s: &str| s@) == leaves_upto(*self, i as int),
            decreases self.children.len() - i,
        {
            let sub = self.children[i].leaves();
            let ghost before = out@;
            let mut j: usize = 0;
            while j < sub.len()
                invariant
                    0 <= j <= sub.len(),
                    out@ == before + sub@.take(j as int),
                decreases sub.len() - j,
            {
                out.push(sub[j]);
                assert(sub@.take(j + 1) == sub@.take(j as int).push(sub@[j as int]));
                j = j + 1;
            }
            assert(sub@.take(sub.len() as int) == sub@);
            assert(out@.map_values(|s: &str| s@) == before.map_values(|s: &str| s@) + sub@.map_values(|s: &str| s@));
            i = i + 1;
        }
        out
    }
}

impl Clone for Vdev {
    fn clone(&self) -> Vdev {
        self.copy()
    }
}

/// Scrub or resilver.
#[derive(Debug, Clone, Copy, PartialEq, Eq, Structural)]
pub enum ScanFunction {
    /// Scrub.
    Scrub,
    /// Resilver.
    Resilver,
}

/// Where a scan is.
#[derive(Debug, Clone, Copy, PartialEq, Eq, Structural)]
pub enum ScanState {
    /// Running.
    InProgress,
    /// Done.
    Finished,
    /// Stopped by the administrator.
    Canceled,
}

/// A scrub or resilver as `zpool status` reports it.
#[derive(Debug, Clone)]
pub struct ScanStatus {
    /// What kind.
    pub function: ScanFunction,
    /// Where it is.
    pub state: ScanState,
    /// Percent done when running, as the decimal `zpool` prints before
    /// its `%` (the fraction is that over one hundred).
    pub progress: Option<String>,
    /// Started.
    pub started_at: Option<Timestamp>,
    /// Finished or canceled.
    pub finished_at: Option<Timestamp>,
    /// Errors found.
    pub errors: Option<u64>,
    /// Throughput.
    pub rate_bytes_per_second: Option<u64>,
    /// The `scan:` text verbatim.
    pub summary: String,
}

/// Top-level vdev kinds a request can ask for.
#[derive(Debug, Clone, Copy, PartialEq, Eq, Structural)]
pub enum VdevSpecType {
    /// Plain striped devices.
    Stripe,
    /// Mirror.
    Mirror,
    /// Single parity.
    Raidz1,
    /// Double parity.
    Raidz2,
    /// Triple parity.
    Raidz3,
    /// Log devices.
    Log,
    /// Cache devices.
    Cache,
    /// Hot spares.
    Spare,
}

/// One top-level vdev to create.
#[derive(Debug, Clone, PartialEq, Eq)]
pub struct VdevSpec {
    /// Kind.
    pub type_: VdevSpecType,
    /// Device names.
    pub devices: Vec<String>,
}

/// `POST /storage/pools`.
#[derive(Debug, Clone, PartialEq, Eq)]
pub struct PoolCreate {
    /// Name.
    pub name: String,
    /// Layout.
    pub vdevs: Vec<VdevSpec>,
    /// ashift, default 12.
    pub ashift: Option<u32>,
    /// Root dataset compression, default lz4.
    pub compression: Option<String>,
    /// `zpool create -f`.
    pub force: bool,
}

/// `DELETE /storage/pools/{id}` body.
#[derive(Debug, Clone, PartialEq, Eq)]
pub struct PoolDestroy {
    /// Must equal the pool name.
    pub name: String,
}

/// Filesystem or volume.
#[derive(Debug, Clone, Copy, PartialEq, Eq, Structural)]
pub enum DatasetKind {
    /// A filesystem.
    Filesystem,
    /// A zvol.
    Volume,
}

/// The word `zfs list -o type` prints for a kind.
pub open spec fn dataset_kind_name(k: DatasetKind) -> Seq<char> {
    match k {
        DatasetKind::Filesystem => "filesystem"@,
        DatasetKind::Volume => "volume"@,
    }
}

impl DatasetKind {
    /// As `zfs list -o type` prints it.
    pub fn as_str(self) -> (r: &'static str)
        ensures
            r@ == dataset_kind_name(self),
    {
        match self {
            DatasetKind::Filesystem => "filesystem",
            DatasetKind::Volume => "volume",
        }
    }
}

/// `POST /storage/datasets`.
#[derive(Debug, Clone, PartialEq, Eq)]
pub struct DatasetCreate {
    /// Full name.
    pub name: String,
    /// Kind.
    pub kind: DatasetKind,
    /// Volume size.
    pub volsize_bytes: Option<Bytes>,
    /// Volume block size.
    pub volblocksize_bytes: Option<Bytes>,
    /// Compression.
    pub compression: Option<String>,
    /// Quota.
    pub quota_bytes: Option<Bytes>,
    /// Reservation.
    pub reservation_bytes: Option<Bytes>,
    /// Mountpoint.
    pub mountpoint: Option<String>,
    /// atime.
    pub atime: Option<bool>,
    /// Record size.
    pub recordsize_bytes: Option<Bytes>,
    /// Sparse volume.
    pub sparse: bool,
    /// `zfs create -p`.
    pub create_parents: bool,
}

/// `PATCH /storage/datasets/{id}`: `Some(None)` clears a property.
#[derive(Debug, Clone, Default, PartialEq, Eq)]
pub struct DatasetUpdate {
    /// Grow a volume.
    pub volsize_bytes: Option<Bytes>,
    /// Compression.
    pub compression: Option<String>,
    /// Quota; explicit null clears.
    pub quota_bytes: Option<Option<Bytes>>,
    /// Reservation; explicit null clears.
    pub reservation_bytes: Option<Option<Bytes>>,
    /// Mountpoint.
    pub mountpoint: Option<String>,
    /// atime.
    pub atime: Option<bool>,
}

/// `POST /storage/snapshots`.
#[derive(Debug, Clone, PartialEq, Eq)]
pub struct SnapshotCreate {
    /// Dataset.
    pub dataset: String,
    /// After the `@`.
    pub name: String,
    /// Recursive.
    pub recursive: bool,
}

/// A disk as `diskinfo` reports it.
#[derive(Debug, Clone, PartialEq, Eq)]
pub struct Device {
    /// `c1t0d0`.
    pub name: String,
    /// Vendor.
    pub vendor: Option<String>,
    /// Product.
    pub product: Option<String>,
    /// Serial.
    pub serial: Option<String>,
    /// Size.
    pub size_bytes: Bytes,
    /// Removable.
    pub removable: bool,
    /// SSD.
    pub solid_state: Option<bool>,
    /// Pool using it.
    pub pool: Option<String>,
}

} // verus!
