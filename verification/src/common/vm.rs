//! VM wire types: guest firmware.
use vstd::prelude::*;

verus! {

/// Guest firmware.
#[derive(Debug, Clone, Copy, PartialEq, Eq, Structural)]
pub enum Bootrom {
    /// UEFI.
    Uefi,
    /// UEFI with the legacy BIOS shim.
    UefiCsm,
}

/// The API name of a bootrom.
pub open spec fn bootrom_name(b: Bootrom) -> Seq<char> {
    match b {
        Bootrom::Uefi => "uefi"@,
        Bootrom::UefiCsm => "uefi-csm"@,
    }
}

impl Bootrom {
    /// As the API spells it.
    pub fn as_str(self) -> (r: &'static str)
        ensures
            r@ == bootrom_name(self),
    {
        match self {
            Bootrom::Uefi => "uefi",
            Bootrom::UefiCsm => "uefi-csm",
        }
    }
}

/// `PATCH /vms/{id}`.
#[derive(Debug, Clone, Default, PartialEq, Eq)]
pub struct VmUpdate {
    /// vCPUs.
    pub vcpus: Option<u32>,
    /// Memory.
    pub memory_bytes: Option<u64>,
    /// Firmware.
    pub bootrom: Option<Bootrom>,
    /// Boot at host start.
    pub autoboot: Option<bool>,
}

/// `POST /vms/{id}/disks/{n}/resize`.
#[derive(Debug, Clone, Copy, PartialEq, Eq)]
pub struct VmDiskResize {
    /// New size.
    pub size_bytes: u64,
}

/// `POST /vms/{id}/snapshots`.
#[derive(Debug, Clone, PartialEq, Eq)]
pub struct VmSnapshotCreate {
    /// Name.
    pub name: String,
}

} // verus!
