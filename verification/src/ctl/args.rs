//! The client's flag groups as plain values.
use vstd::prelude::*;
use crate::common::id::Id;

verus! {

/// Paging flags shared by list commands.
#[derive(Debug, Clone)]
pub struct Paging {
    /// Page size (1-500).
    pub limit: Option<u32>,
    /// Follow cursors until the end.
    pub all: bool,
    /// Start from this cursor.
    pub cursor: Option<String>,
}

/// `system` subcommands.
#[derive(Debug, Clone, Copy, PartialEq, Eq, Structural)]
pub enum SystemCmd {
    /// Host identity (GET /system).
    Info,
    /// CPU, load, memory (GET /system/resources).
    Resources,
}

/// Metadata flags shared by create and update commands.
#[derive(Debug, Clone)]
pub struct MetadataArgs {
    /// Display name.
    pub display_name: Option<String>,
    /// Description.
    pub description: Option<String>,
    /// A tag; repeat for several.
    pub tags: Vec<String>,
    /// Free-form notes.
    pub notes: Option<String>,
}

impl Default for MetadataArgs {
    fn default() -> (r: MetadataArgs)
        ensures
            r.display_name is None && r.description is None && r.tags@.len() == 0 && r.notes is None,
    {
        MetadataArgs { display_name: None, description: None, tags: Vec::new(), notes: None }
    }
}

/// Flags of `storage datasets create`.
#[derive(Debug, Clone)]
pub struct DatasetCreateArgs {
    /// Full name, pool/path.
    pub name: String,
    /// Volume size (10G, 512M, or bytes); makes a volume.
    pub size: Option<String>,
    /// Thin-provision the volume.
    pub sparse: bool,
    /// Volume block size.
    pub volblocksize: Option<String>,
    /// Compression (lz4, zstd, gzip, off).
    pub compression: Option<String>,
    /// Quota.
    pub quota: Option<String>,
    /// Reservation.
    pub reservation: Option<String>,
    /// Mountpoint (filesystems).
    pub mountpoint: Option<String>,
    /// Record size (filesystems).
    pub recordsize: Option<String>,
    /// Do not update access times.
    pub no_atime: bool,
    /// Create missing parents.
    pub parents: bool,
    /// Metadata.
    pub metadata: MetadataArgs,
}

/// Flags of `storage datasets update`.
#[derive(Debug, Clone)]
pub struct DatasetUpdateArgs {
    /// Dataset id.
    pub id: Id,
    /// New volume size.
    pub size: Option<String>,
    /// Compression.
    pub compression: Option<String>,
    /// Quota, or `none`.
    pub quota: Option<String>,
    /// Reservation, or `none`.
    pub reservation: Option<String>,
    /// Mountpoint.
    pub mountpoint: Option<String>,
    /// Update access times.
    pub atime: Option<bool>,
    /// Metadata.
    pub metadata: MetadataArgs,
}

} // verus!
